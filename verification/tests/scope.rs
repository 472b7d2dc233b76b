use render_core::buffer::Buffer;
use render_core::call::{BufferInfo, Call, Extent2D, Extent3D, ImageInfo, Location, Op};
use render_core::context::{Context, Queue, Queues, SurfaceConfig, SurfaceFormat};
use render_core::features::Features;
use render_core::image::{Format, Image};
use render_core::ledger::Kind;
use render_core::scope::{Commands, OneshotScope, Resource};

fn context() -> Context {
    let queues = Queues { graphics: Queue { family_index: 1 }, transfer: None };
    let config = SurfaceConfig {
        surface_format: SurfaceFormat { format: 50, color_space: 0 },
        extent: Extent2D { width: 800, height: 600 },
        image_count: 3,
    };
    Context::init(Features::required(), queues, config).ok().unwrap()
}

fn info(size: u64) -> BufferInfo {
    BufferInfo { size, usage: 1, sharing_mode: 0 }
}

fn count(calls: &[Call], wanted: &Call) -> usize {
    calls.iter().filter(|c| *c == wanted).count()
}

#[test]
fn begin_takes_a_command_buffer_and_starts_recording() {
    let mut ctx = context();
    let scope = OneshotScope::begin_on(&mut ctx, Queue { family_index: 1 });
    assert_eq!(scope.commands, Commands { pool: 0, buffer: 1 });
    assert_eq!(scope.fence, 2);
    assert_eq!(scope.queue, Queue { family_index: 1 });
    assert!(scope.resources.is_empty());
    assert_eq!(
        ctx.take_calls(),
        vec![
            Call::Op(Op::CreateCommandPool { pool: 0, queue_family: 1 }),
            Call::Op(Op::AllocateCommandBuffer { commands: 1, pool: 0 }),
            Call::Op(Op::CreateFence { fence: 2, signaled: false }),
            Call::Op(Op::BeginCommandBuffer { commands: 1, one_time_submit: true }),
        ]
    );
}

#[test]
fn finish_submits_waits_and_gives_everything_up() {
    let mut ctx = context();
    let scope = OneshotScope::begin_on(&mut ctx, Queue { family_index: 1 });
    ctx.take_calls();
    scope.finish(&mut ctx);
    assert_eq!(
        ctx.take_calls(),
        vec![
            Call::Op(Op::EndCommandBuffer { commands: 1 }),
            Call::Op(Op::QueueSubmit {
                queue_family: 1,
                commands: 1,
                wait: None,
                wait_stage: 0,
                signal: None,
                fence: 2
            }),
            Call::Op(Op::WaitForFence { fence: 2 }),
            Call::Op(Op::DestroyFence { fence: 2 }),
            Call::Op(Op::FreeCommandBuffer { commands: 1, pool: 0 }),
            Call::Op(Op::DestroyCommandPool { pool: 0 }),
        ]
    );
    assert!(!ctx.is_live(1, Kind::CommandBuffer));
    assert!(!ctx.is_live(0, Kind::CommandPool));
    assert!(!ctx.is_live(2, Kind::Fence));
    assert_eq!(ctx.live_objects(), 0);
}

#[test]
fn every_registered_resource_is_destroyed_exactly_once() {
    let mut ctx = context();
    let mut scope = OneshotScope::begin_on(&mut ctx, Queue { family_index: 1 });
    let kept = Buffer::create(&mut ctx, info(4), Location::GpuOnly);
    let a = Buffer::create(&mut ctx, info(4), Location::CpuToGpu);
    let b = Buffer::create(&mut ctx, info(8), Location::CpuToGpu);
    let blank = ImageInfo {
        flags: 0,
        image_type: 0,
        format: 0,
        extent: Extent3D { width: 1, height: 1, depth: 1 },
        mip_levels: 0,
        array_layers: 0,
        samples: 0,
        tiling: 0,
        usage: 0,
        sharing_mode: 0,
        initial_layout: 0,
    };
    let image = Image::create(&mut ctx, &scope, Format::Color, &blank, None);
    let (a_buffer, a_memory, b_buffer, b_memory) = (a.buffer, a.allocation, b.buffer, b.allocation);
    let (i_image, i_view, i_memory) = (image.image, image.view, image.allocation.unwrap());
    scope.add_resource(Resource::Buffer(a));
    scope.add_resource(Resource::Image(image));
    scope.add_resource(Resource::Buffer(b));
    assert_eq!(scope.resources.len(), 3);
    ctx.take_calls();
    let live_before = ctx.live_objects();
    scope.finish(&mut ctx);
    let calls = ctx.take_calls();
    assert_eq!(
        calls[3..10].to_vec(),
        vec![
            Call::Op(Op::DestroyBuffer { buffer: a_buffer }),
            Call::Op(Op::FreeMemory { memory: a_memory }),
            Call::Op(Op::DestroyImageView { view: i_view }),
            Call::Op(Op::DestroyImage { image: i_image }),
            Call::Op(Op::FreeMemory { memory: i_memory }),
            Call::Op(Op::DestroyBuffer { buffer: b_buffer }),
            Call::Op(Op::FreeMemory { memory: b_memory }),
        ]
    );
    assert_eq!(calls.len(), 13);
    for wanted in [
        Call::Op(Op::DestroyBuffer { buffer: a_buffer }),
        Call::Op(Op::FreeMemory { memory: a_memory }),
        Call::Op(Op::DestroyBuffer { buffer: b_buffer }),
        Call::Op(Op::FreeMemory { memory: b_memory }),
        Call::Op(Op::DestroyImage { image: i_image }),
        Call::Op(Op::FreeCommandBuffer { commands: 1, pool: 0 }),
    ] {
        assert_eq!(count(&calls, &wanted), 1);
    }
    assert_eq!(count(&calls, &Call::Op(Op::DestroyBuffer { buffer: kept.buffer })), 0);
    assert!(!ctx.is_live(a_buffer, Kind::Buffer));
    assert!(!ctx.is_live(b_memory, Kind::Memory));
    assert!(!ctx.is_live(i_view, Kind::ImageView));
    assert!(!ctx.is_live(1, Kind::CommandBuffer));
    assert!(ctx.is_live(kept.buffer, Kind::Buffer));
    assert!(ctx.is_live(kept.allocation, Kind::Memory));
    assert_eq!(ctx.live_objects(), live_before - 10);
}

#[test]
fn the_wait_comes_before_any_destruction() {
    let mut ctx = context();
    let mut scope = OneshotScope::begin_on(&mut ctx, Queue { family_index: 1 });
    let staged = Buffer::create_with_staged_data(&mut ctx, &mut scope, info(0), &[1, 2, 3, 4]);
    ctx.take_calls();
    scope.finish(&mut ctx);
    let calls = ctx.take_calls();
    let wait = calls.iter().position(|c| matches!(c, Call::Op(Op::WaitForFence { .. }))).unwrap();
    let first_destroy = calls
        .iter()
        .position(|c| matches!(c, Call::Op(Op::DestroyBuffer { .. }) | Call::Op(Op::FreeMemory { .. })))
        .unwrap();
    assert!(wait < first_destroy);
    assert!(ctx.is_live(staged.buffer, Kind::Buffer));
}
