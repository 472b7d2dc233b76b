use render_core::buffer::Buffer;
use render_core::call::{BufferInfo, Call, Extent2D, Location, Op};
use ash::vk::QueueFlags;
use render_core::context::{
    Context, Queue, QueueFamily, Queues, Surface, SurfaceCapabilities, SurfaceConfig, SurfaceFormat,
};
use render_core::features::Features;
use render_core::ledger::Kind;

fn context() -> Context {
    let queues = Queues { graphics: Queue { family_index: 2 }, transfer: Some(Queue { family_index: 5 }) };
    let config = SurfaceConfig {
        surface_format: SurfaceFormat { format: 50, color_space: 0 },
        extent: Extent2D { width: 800, height: 600 },
        image_count: 3,
    };
    Context::init(Features::required(), queues, config).ok().unwrap()
}

fn caps(width: u32, height: u32, min: u32, max: u32) -> SurfaceCapabilities {
    SurfaceCapabilities { current_extent: Extent2D { width, height }, min_image_count: min, max_image_count: max }
}

fn family(flags: QueueFlags, presents: bool) -> QueueFamily {
    QueueFamily { flags: flags.as_raw(), presents }
}

#[test]
fn the_first_family_that_draws_takes_the_graphics_work() {
    let families = [
        family(QueueFlags::COMPUTE, true),
        family(QueueFlags::GRAPHICS | QueueFlags::TRANSFER, false),
        family(QueueFlags::GRAPHICS | QueueFlags::COMPUTE, true),
        family(QueueFlags::GRAPHICS, true),
    ];
    assert_eq!(Queues::select(&families), Some(Queues { graphics: Queue { family_index: 2 }, transfer: None }));
}

#[test]
fn a_family_that_only_transfers_is_taken_for_transfers() {
    let families = [
        family(QueueFlags::GRAPHICS | QueueFlags::TRANSFER, true),
        family(QueueFlags::COMPUTE, true),
        family(QueueFlags::TRANSFER | QueueFlags::COMPUTE, false),
        family(QueueFlags::TRANSFER, false),
    ];
    assert_eq!(
        Queues::select(&families),
        Some(Queues { graphics: Queue { family_index: 0 }, transfer: Some(Queue { family_index: 2 }) })
    );
}

#[test]
fn a_device_that_cannot_draw_to_the_surface_has_no_queues() {
    assert_eq!(Queues::select(&[]), None);
    assert_eq!(Queues::select(&[family(QueueFlags::GRAPHICS, false), family(QueueFlags::TRANSFER, true)]), None);
}

#[test]
fn the_preferred_surface_format_wins_where_it_is_offered() {
    let preferred = SurfaceFormat {
        format: ash::vk::Format::B8G8R8A8_SRGB.as_raw(),
        color_space: ash::vk::ColorSpaceKHR::SRGB_NONLINEAR.as_raw(),
    };
    let other = SurfaceFormat { format: ash::vk::Format::R8G8B8A8_UNORM.as_raw(), color_space: 0 };
    let wide = SurfaceFormat { format: preferred.format, color_space: 1000104001 };
    assert_eq!(SurfaceFormat::select(&[other, wide, preferred]), Some(preferred));
    assert_eq!(SurfaceFormat::select(&[other, wide]), Some(other));
    assert_eq!(SurfaceFormat::select(&[wide]), Some(wide));
    assert_eq!(SurfaceFormat::select(&[]), None);
}

#[test]
fn the_transfer_queue_is_the_dedicated_one_if_there_is_one() {
    let dedicated = Queues { graphics: Queue { family_index: 2 }, transfer: Some(Queue { family_index: 5 }) };
    assert_eq!(dedicated.graphics(), Queue { family_index: 2 });
    assert_eq!(dedicated.transfer(), Queue { family_index: 5 });
    let shared = Queues { graphics: Queue { family_index: 2 }, transfer: None };
    assert_eq!(shared.transfer(), Queue { family_index: 2 });
}

#[test]
fn refresh_takes_one_image_more_than_the_minimum() {
    let mut ctx = context();
    assert!(ctx.refresh_surface_capabilities(caps(1024, 768, 2, 8)));
    assert_eq!(
        ctx.surface.config,
        SurfaceConfig {
            surface_format: SurfaceFormat { format: 50, color_space: 0 },
            extent: Extent2D { width: 1024, height: 768 },
            image_count: 3,
        }
    );
}

#[test]
fn refresh_keeps_within_the_maximum() {
    let mut ctx = context();
    assert!(ctx.refresh_surface_capabilities(caps(1024, 768, 2, 2)));
    assert_eq!(ctx.surface.config.image_count, 2);
}

#[test]
fn refresh_treats_a_maximum_of_zero_as_no_limit() {
    let mut ctx = context();
    assert!(ctx.refresh_surface_capabilities(caps(1024, 768, 4, 0)));
    assert_eq!(ctx.surface.config.image_count, 5);
}

#[test]
fn refresh_does_not_overflow_the_image_count() {
    let mut surface = Surface {
        config: SurfaceConfig {
            surface_format: SurfaceFormat { format: 1, color_space: 0 },
            extent: Extent2D { width: 1, height: 1 },
            image_count: 1,
        },
    };
    assert!(surface.refresh_capabilities(caps(1, 1, u32::MAX, 0)));
    assert_eq!(surface.config.image_count, u32::MAX);
}

#[test]
fn a_surface_without_area_cannot_be_presented_to() {
    let mut ctx = context();
    assert!(!ctx.refresh_surface_capabilities(caps(0, 768, 2, 8)));
    assert!(!ctx.refresh_surface_capabilities(caps(1024, 0, 2, 8)));
    assert_eq!(ctx.surface.config.extent, Extent2D { width: 1024, height: 0 });
    assert_eq!(ctx.created(), 0);
}

#[test]
fn the_ledger_counts_created_and_live_objects() {
    let mut ctx = context();
    let info = BufferInfo { size: 16, usage: 0x10, sharing_mode: 0 };
    let a = Buffer::create(&mut ctx, info, Location::CpuToGpu);
    let b = Buffer::create(&mut ctx, info, Location::GpuOnly);
    assert_eq!(ctx.created(), 4);
    assert_eq!(ctx.live_objects(), 4);
    assert!(ctx.is_live(a.buffer, Kind::Buffer));
    assert!(ctx.is_live(a.allocation, Kind::Memory));
    assert!(!ctx.is_live(a.buffer, Kind::Memory));
    assert!(!ctx.is_live(99, Kind::Buffer));
    let gone = a.buffer;
    a.destroy_with(&mut ctx);
    assert_eq!(ctx.created(), 4);
    assert_eq!(ctx.live_objects(), 2);
    assert!(!ctx.is_live(gone, Kind::Buffer));
    assert!(ctx.is_live(b.buffer, Kind::Buffer));
}

#[test]
fn take_calls_hands_the_requests_over_once() {
    let mut ctx = context();
    let info = BufferInfo { size: 16, usage: 0x10, sharing_mode: 0 };
    let b = Buffer::create(&mut ctx, info, Location::CpuToGpu);
    let calls = ctx.take_calls();
    assert_eq!(
        calls,
        vec![
            Call::Op(Op::CreateBuffer { buffer: b.buffer, info }),
            Call::Op(Op::AllocateBufferMemory {
                memory: b.allocation,
                buffer: b.buffer,
                location: Location::CpuToGpu,
                linear: true
            }),
            Call::Op(Op::BindBufferMemory { buffer: b.buffer, memory: b.allocation }),
        ]
    );
    assert!(ctx.take_calls().is_empty());
    assert_eq!(ctx.created(), 2);
}
