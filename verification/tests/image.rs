use ash::vk;
use render_core::buffer::Buffer;
use render_core::call::{BufferInfo, Call, Extent2D, Extent3D, ImageInfo, Location, Op, SubresourceRange};
use render_core::context::{Context, Queue, Queues, SurfaceConfig, SurfaceFormat};
use render_core::features::Features;
use render_core::image::{BarrierInfo, Format, Image, RgbaImage};
use render_core::ledger::Kind;
use render_core::scope::{OneshotScope, Resource};

fn context() -> Context {
    let queues = Queues { graphics: Queue { family_index: 0 }, transfer: None };
    let config = SurfaceConfig {
        surface_format: SurfaceFormat { format: 50, color_space: 0 },
        extent: Extent2D { width: 800, height: 600 },
        image_count: 3,
    };
    Context::init(Features::required(), queues, config).ok().unwrap()
}

fn blank(extent: Extent3D, usage: u32) -> ImageInfo {
    ImageInfo {
        flags: 0,
        image_type: 0,
        format: 0,
        extent,
        mip_levels: 0,
        array_layers: 0,
        samples: 0,
        tiling: 0,
        usage,
        sharing_mode: 0,
        initial_layout: 0,
    }
}

fn color_range() -> SubresourceRange {
    SubresourceRange {
        aspect_mask: vk::ImageAspectFlags::COLOR.as_raw(),
        base_mip_level: 0,
        level_count: 1,
        base_array_layer: 0,
        layer_count: 1,
    }
}

#[test]
fn formats_map_to_the_texel_formats_of_the_device() {
    assert_eq!(i32::from(Format::Hdr), vk::Format::R32G32B32A32_SFLOAT.as_raw());
    assert_eq!(i32::from(Format::Color), vk::Format::R8G8B8A8_SRGB.as_raw());
    assert_eq!(i32::from(Format::Depth), vk::Format::D32_SFLOAT.as_raw());
    assert_eq!(i32::from(Format::Swapchain), vk::Format::UNDEFINED.as_raw());
    let raw: i32 = Format::Hdr.into();
    assert_eq!(raw, 109);
}

#[test]
fn depth_images_are_attachments_and_the_others_are_sampled() {
    assert_eq!(Format::Depth.usage_flags(), vk::ImageUsageFlags::DEPTH_STENCIL_ATTACHMENT.as_raw());
    for format in [Format::Hdr, Format::Color, Format::Swapchain] {
        assert_eq!(format.usage_flags(), vk::ImageUsageFlags::SAMPLED.as_raw());
    }
}

#[test]
fn depth_images_have_the_depth_aspect_and_the_others_color() {
    assert_eq!(Format::Depth.aspect_flags(), vk::ImageAspectFlags::DEPTH.as_raw());
    for format in [Format::Hdr, Format::Color, Format::Swapchain] {
        assert_eq!(format.aspect_flags(), vk::ImageAspectFlags::COLOR.as_raw());
    }
    assert_eq!(Format::Color.subresource_range(), color_range());
    assert_eq!(
        Format::Depth.subresource_range(),
        SubresourceRange { aspect_mask: 2, base_mip_level: 0, level_count: 1, base_array_layer: 0, layer_count: 1 }
    );
}

#[test]
fn barrier_states_are_those_of_the_device() {
    assert_eq!(
        BarrierInfo::init(),
        BarrierInfo {
            layout: vk::ImageLayout::UNDEFINED.as_raw(),
            stage: vk::PipelineStageFlags::TOP_OF_PIPE.as_raw(),
            access: vk::AccessFlags::empty().as_raw(),
        }
    );
    assert_eq!(
        BarrierInfo::general(),
        BarrierInfo {
            layout: vk::ImageLayout::GENERAL.as_raw(),
            stage: vk::PipelineStageFlags::BOTTOM_OF_PIPE.as_raw(),
            access: vk::AccessFlags::empty().as_raw(),
        }
    );
    assert_eq!(
        BarrierInfo::transfer_dst(),
        BarrierInfo {
            layout: vk::ImageLayout::TRANSFER_DST_OPTIMAL.as_raw(),
            stage: vk::PipelineStageFlags::TRANSFER.as_raw(),
            access: vk::AccessFlags::TRANSFER_WRITE.as_raw(),
        }
    );
    assert_eq!(
        BarrierInfo::shader_read(),
        BarrierInfo {
            layout: vk::ImageLayout::SHADER_READ_ONLY_OPTIMAL.as_raw(),
            stage: vk::PipelineStageFlags::FRAGMENT_SHADER.as_raw(),
            access: vk::AccessFlags::SHADER_READ.as_raw(),
        }
    );
}

#[test]
fn from_raw_wants_four_bytes_for_each_pixel() {
    assert_eq!(
        RgbaImage::from_raw(2, 3, vec![1; 24]),
        Some(RgbaImage { width: 2, height: 3, pixels: vec![1; 24] })
    );
    assert_eq!(RgbaImage::from_raw(2, 3, vec![1; 23]), None);
    assert_eq!(RgbaImage::from_raw(2, 3, vec![1; 25]), None);
    assert_eq!(RgbaImage::from_raw(0, 3, vec![]), Some(RgbaImage { width: 0, height: 3, pixels: vec![] }));
    assert_eq!(RgbaImage::from_raw(u32::MAX, u32::MAX, vec![0; 4]), None);
    assert!(RgbaImage { width: 2, height: 3, pixels: vec![1; 24] }.is_wf());
    assert!(!RgbaImage { width: 2, height: 3, pixels: vec![1; 20] }.is_wf());
    assert!(!RgbaImage { width: u32::MAX, height: u32::MAX, pixels: vec![] }.is_wf());
}

#[test]
fn create_resolves_the_request_and_makes_memory_and_view() {
    let mut ctx = context();
    let scope = OneshotScope::begin_on(&mut ctx, Queue { family_index: 0 });
    ctx.take_calls();
    let extent = Extent3D { width: 640, height: 480, depth: 1 };
    let asked = ImageInfo {
        flags: 3,
        sharing_mode: 1,
        ..blank(extent, (vk::ImageUsageFlags::COLOR_ATTACHMENT | vk::ImageUsageFlags::STORAGE).as_raw())
    };
    let to = BarrierInfo::general();
    let image = Image::create(&mut ctx, &scope, Format::Hdr, &asked, Some(&to));
    assert_eq!(
        image,
        Image { image: 3, view: 5, allocation: Some(4), format: Format::Hdr, state: BarrierInfo::general() }
    );
    let resolved = ImageInfo {
        flags: 3,
        image_type: vk::ImageType::TYPE_2D.as_raw(),
        format: vk::Format::R32G32B32A32_SFLOAT.as_raw(),
        extent,
        mip_levels: 1,
        array_layers: 1,
        samples: vk::SampleCountFlags::TYPE_1.as_raw(),
        tiling: vk::ImageTiling::OPTIMAL.as_raw(),
        usage: (vk::ImageUsageFlags::SAMPLED
            | vk::ImageUsageFlags::COLOR_ATTACHMENT
            | vk::ImageUsageFlags::STORAGE)
            .as_raw(),
        sharing_mode: 1,
        initial_layout: vk::ImageLayout::UNDEFINED.as_raw(),
    };
    assert_eq!(
        ctx.take_calls(),
        vec![
            Call::Op(Op::CreateImage { image: 3, info: resolved }),
            Call::Op(Op::AllocateImageMemory { memory: 4, image: 3, location: Location::GpuOnly, linear: false }),
            Call::Op(Op::BindImageMemory { image: 3, memory: 4 }),
            Call::Op(Op::CreateImageView {
                view: 5,
                image: 3,
                view_type: vk::ImageViewType::TYPE_2D.as_raw(),
                format: vk::Format::R32G32B32A32_SFLOAT.as_raw(),
                range: color_range(),
            }),
            Call::Op(Op::CmdPipelineBarrier {
                commands: scope.commands.buffer,
                image: 3,
                from: BarrierInfo::init(),
                to: BarrierInfo::general(),
                src_queue_family: vk::QUEUE_FAMILY_IGNORED,
                dst_queue_family: vk::QUEUE_FAMILY_IGNORED,
                range: color_range(),
            }),
        ]
    );
}

#[test]
fn create_without_a_target_state_records_no_transition() {
    let mut ctx = context();
    let scope = OneshotScope::begin_on(&mut ctx, Queue { family_index: 0 });
    ctx.take_calls();
    let image =
        Image::create(&mut ctx, &scope, Format::Depth, &blank(Extent3D { width: 4, height: 4, depth: 1 }, 0), None);
    assert_eq!(image.state, BarrierInfo::init());
    let calls = ctx.take_calls();
    assert_eq!(calls.len(), 4);
    match &calls[0] {
        Call::Op(Op::CreateImage { info, .. }) => {
            assert_eq!(info.format, vk::Format::D32_SFLOAT.as_raw());
            assert_eq!(info.usage, vk::ImageUsageFlags::DEPTH_STENCIL_ATTACHMENT.as_raw());
        }
        other => panic!("unexpected request {:?}", other),
    }
    match &calls[3] {
        Call::Op(Op::CreateImageView { range, .. }) => {
            assert_eq!(range.aspect_mask, vk::ImageAspectFlags::DEPTH.as_raw())
        }
        other => panic!("unexpected request {:?}", other),
    }
}

#[test]
fn a_transition_starts_from_the_state_the_image_is_in() {
    let mut ctx = context();
    let scope = OneshotScope::begin_on(&mut ctx, Queue { family_index: 0 });
    let to = BarrierInfo::transfer_dst();
    let mut image = Image::create(
        &mut ctx,
        &scope,
        Format::Color,
        &blank(Extent3D { width: 4, height: 4, depth: 1 }, 0),
        Some(&to),
    );
    ctx.take_calls();
    image.transition_layout(&mut ctx, &scope, &BarrierInfo::shader_read());
    assert_eq!(image.state, BarrierInfo::shader_read());
    assert_eq!(
        ctx.take_calls(),
        vec![Call::Op(Op::CmdPipelineBarrier {
            commands: scope.commands.buffer,
            image: image.image,
            from: BarrierInfo::transfer_dst(),
            to: BarrierInfo::shader_read(),
            src_queue_family: u32::MAX,
            dst_queue_family: u32::MAX,
            range: color_range(),
        })]
    );
}

#[test]
fn a_texture_is_staged_copied_and_made_readable() {
    let mut ctx = context();
    let mut scope = OneshotScope::begin_on(&mut ctx, Queue { family_index: 0 });
    ctx.take_calls();
    let picture = RgbaImage::from_raw(2, 1, vec![1, 2, 3, 4, 5, 6, 7, 8]).unwrap();
    let image = Image::create_from_image(&mut ctx, &mut scope, &picture);
    assert_eq!(
        image,
        Image { image: 5, view: 7, allocation: Some(6), format: Format::Color, state: BarrierInfo::shader_read() }
    );
    assert_eq!(
        scope.resources,
        vec![Resource::Buffer(Buffer { buffer: 3, allocation: 4, size: 8, location: Location::CpuToGpu })]
    );
    let extent = Extent3D { width: 2, height: 1, depth: 1 };
    let calls = ctx.take_calls();
    assert_eq!(calls.len(), 11);
    assert_eq!(
        calls[0],
        Call::Op(Op::CreateBuffer {
            buffer: 3,
            info: BufferInfo { size: 8, usage: vk::BufferUsageFlags::TRANSFER_SRC.as_raw(), sharing_mode: 0 }
        })
    );
    assert_eq!(calls[3], Call::WriteMemory { memory: 4, data: vec![1, 2, 3, 4, 5, 6, 7, 8] });
    match &calls[4] {
        Call::Op(Op::CreateImage { image: 5, info }) => {
            assert_eq!(info.extent, extent);
            assert_eq!(info.format, vk::Format::R8G8B8A8_SRGB.as_raw());
            assert_eq!(info.usage, (vk::ImageUsageFlags::SAMPLED | vk::ImageUsageFlags::TRANSFER_DST).as_raw());
        }
        other => panic!("unexpected request {:?}", other),
    }
    assert_eq!(
        calls[8],
        Call::Op(Op::CmdPipelineBarrier {
            commands: scope.commands.buffer,
            image: 5,
            from: BarrierInfo::init(),
            to: BarrierInfo::transfer_dst(),
            src_queue_family: u32::MAX,
            dst_queue_family: u32::MAX,
            range: color_range(),
        })
    );
    assert_eq!(
        calls[9],
        Call::Op(Op::CmdCopyBufferToImage {
            commands: scope.commands.buffer,
            src: 3,
            dst: 5,
            layout: vk::ImageLayout::TRANSFER_DST_OPTIMAL.as_raw(),
            extent,
            aspect_mask: vk::ImageAspectFlags::COLOR.as_raw(),
            mip_level: 0,
            base_array_layer: 0,
            layer_count: 1,
        })
    );
    assert_eq!(
        calls[10],
        Call::Op(Op::CmdPipelineBarrier {
            commands: scope.commands.buffer,
            image: 5,
            from: BarrierInfo::transfer_dst(),
            to: BarrierInfo::shader_read(),
            src_queue_family: u32::MAX,
            dst_queue_family: u32::MAX,
            range: color_range(),
        })
    );
}

#[test]
fn destroy_takes_the_view_then_the_image_then_the_memory() {
    let mut ctx = context();
    let scope = OneshotScope::begin_on(&mut ctx, Queue { family_index: 0 });
    let image =
        Image::create(&mut ctx, &scope, Format::Color, &blank(Extent3D { width: 4, height: 4, depth: 1 }, 0), None);
    ctx.take_calls();
    let (handle, view, memory) = (image.image, image.view, image.allocation.unwrap());
    image.destroy_with(&mut ctx);
    assert_eq!(
        ctx.take_calls(),
        vec![
            Call::Op(Op::DestroyImageView { view }),
            Call::Op(Op::DestroyImage { image: handle }),
            Call::Op(Op::FreeMemory { memory }),
        ]
    );
    assert!(!ctx.is_live(view, Kind::ImageView));
    assert!(!ctx.is_live(handle, Kind::Image));
    assert!(!ctx.is_live(memory, Kind::Memory));
}

#[test]
fn an_image_without_memory_loses_only_its_view() {
    let mut ctx = context();
    let scope = OneshotScope::begin_on(&mut ctx, Queue { family_index: 0 });
    let owner =
        Image::create(&mut ctx, &scope, Format::Color, &blank(Extent3D { width: 4, height: 4, depth: 1 }, 0), None);
    ctx.take_calls();
    let borrowed = Image::new(&mut ctx, owner.image, Format::Color, None);
    assert_eq!(
        ctx.take_calls(),
        vec![Call::Op(Op::CreateImageView {
            view: borrowed.view,
            image: owner.image,
            view_type: 1,
            format: vk::Format::R8G8B8A8_SRGB.as_raw(),
            range: color_range(),
        })]
    );
    let view = borrowed.view;
    borrowed.destroy_with(&mut ctx);
    assert_eq!(ctx.take_calls(), vec![Call::Op(Op::DestroyImageView { view })]);
    assert!(ctx.is_live(owner.image, Kind::Image));
}

#[test]
fn new_of_format_views_the_image_in_the_format_given() {
    let mut ctx = context();
    let scope = OneshotScope::begin_on(&mut ctx, Queue { family_index: 0 });
    let owner =
        Image::create(&mut ctx, &scope, Format::Color, &blank(Extent3D { width: 4, height: 4, depth: 1 }, 0), None);
    ctx.take_calls();
    let view = Image::new_of_format(&mut ctx, owner.image, Format::Swapchain, 50, None);
    assert_eq!(view.format, Format::Swapchain);
    assert_eq!(
        ctx.take_calls(),
        vec![Call::Op(Op::CreateImageView {
            view: view.view,
            image: owner.image,
            view_type: 1,
            format: 50,
            range: color_range(),
        })]
    );
}
