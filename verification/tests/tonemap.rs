use ash::vk;
use render_core::buffer::Buffer;
use render_core::call::{
    BufferInfo, Call, DescriptorWrite, Extent2D, Extent3D, ImageBinding, ImageInfo, LayoutBinding, Location, Op,
    PoolSize,
};
use render_core::context::{Context, Queue, Queues, SurfaceConfig, SurfaceFormat};
use render_core::features::Features;
use render_core::image::{BarrierInfo, Format, Image, RgbaImage};
use render_core::ledger::Kind;
use render_core::pass::describe_render_pass;
use render_core::render::{Model, Renderer};
use render_core::scope::OneshotScope;
use render_core::swapchain::Swapchain;
use render_core::tonemap::{Data, Pipeline, SyncInfo};

fn context(image_count: u32) -> Context {
    let queues = Queues { graphics: Queue { family_index: 6 }, transfer: None };
    let config = SurfaceConfig {
        surface_format: SurfaceFormat { format: 44, color_space: 0 },
        extent: Extent2D { width: 64, height: 32 },
        image_count,
    };
    Context::init(Features::required(), queues, config).ok().unwrap()
}

fn rendered(ctx: &mut Context) -> Image {
    let scope = OneshotScope::begin_on(ctx, Queue { family_index: 6 });
    let info = ImageInfo {
        flags: 0,
        image_type: 0,
        format: 0,
        extent: Extent3D { width: 64, height: 32, depth: 1 },
        mip_levels: 0,
        array_layers: 0,
        samples: 0,
        tiling: 0,
        usage: 0,
        sharing_mode: 0,
        initial_layout: 0,
    };
    let to = BarrierInfo::general();
    let image = Image::create(ctx, &scope, Format::Hdr, &info, Some(&to));
    scope.finish(ctx);
    ctx.take_calls();
    image
}

#[test]
fn the_data_takes_the_image_and_makes_a_sampler() {
    let mut ctx = context(2);
    let image = rendered(&mut ctx);
    let view = image.view;
    let data = Data::create(&mut ctx, image);
    assert_eq!(data.input_image.view, view);
    assert!(ctx.is_live(data.sampler.sampler, Kind::Sampler));
    assert!(data.is_wf(&ctx));
    assert_eq!(ctx.take_calls().len(), 1);
    data.destroy_with(&mut ctx);
    assert_eq!(ctx.live_objects(), 0);
}

#[test]
fn the_pass_has_a_set_for_each_presentable_image() {
    let mut ctx = context(3);
    let table = Pipeline::create_descriptors(&mut ctx);
    assert_eq!(table.layout, 0);
    assert_eq!(table.pool, 1);
    assert_eq!(table.sets, vec![2, 3, 4]);
    let sampled = vk::DescriptorType::COMBINED_IMAGE_SAMPLER.as_raw();
    assert_eq!(
        ctx.take_calls(),
        vec![
            Call::CreateDescriptorSetLayout {
                layout: 0,
                bindings: vec![LayoutBinding {
                    binding: 0,
                    descriptor_type: sampled,
                    descriptor_count: 1,
                    stage_flags: vk::ShaderStageFlags::FRAGMENT.as_raw(),
                    binding_flags: 0,
                }],
            },
            Call::CreateDescriptorPool {
                pool: 1,
                sizes: vec![PoolSize { descriptor_type: sampled, descriptor_count: 3 }],
                max_sets: 3,
            },
            Call::Op(Op::AllocateDescriptorSets { pool: 1, layout: 0, first_set: 2, count: 3 }),
        ]
    );
    assert!(table.is_wf(&ctx));
}

#[test]
fn the_input_is_bound_to_every_set_in_the_general_layout() {
    let mut ctx = context(2);
    let image = rendered(&mut ctx);
    let data = Data::create(&mut ctx, image);
    let table = Pipeline::create_descriptors(&mut ctx);
    ctx.take_calls();
    data.bind_to_descriptors(&mut ctx, &table);
    let bound = |set| Call::UpdateDescriptorSets {
        writes: vec![DescriptorWrite::Images {
            set,
            binding: 0,
            descriptor_type: vk::DescriptorType::COMBINED_IMAGE_SAMPLER.as_raw(),
            images: vec![ImageBinding {
                view: data.input_image.view,
                layout: vk::ImageLayout::GENERAL.as_raw(),
                sampler: data.sampler.sampler,
            }],
        }],
    };
    assert_eq!(ctx.take_calls(), vec![bound(table.sets[0]), bound(table.sets[1])]);
}

#[test]
fn the_pass_is_created_run_and_destroyed() {
    let mut ctx = context(2);
    let image = rendered(&mut ctx);
    let data = Data::create(&mut ctx, image);
    ctx.take_calls();
    let first = ctx.created();
    let pass = Pipeline::create(&mut ctx, data);
    assert_eq!(pass.render_pass, first);
    assert_eq!(pass.descriptors.sets, vec![first + 3, first + 4]);
    assert_eq!(pass.layout, first + 5);
    assert_eq!(pass.pipeline, first + 6);
    assert_eq!(pass.command_pools, vec![first + 7, first + 8]);
    assert_eq!(pass.command_buffers, vec![first + 9, first + 10]);
    assert!(pass.is_wf(&ctx));
    let calls = ctx.take_calls();
    assert_eq!(
        calls[0],
        Call::CreateRenderPass {
            render_pass: first,
            info: describe_render_pass(44, Some(vk::Format::D32_SFLOAT.as_raw())),
        }
    );
    assert_eq!(calls.iter().filter(|c| matches!(c, Call::UpdateDescriptorSets { .. })).count(), 2);
    assert!(calls.contains(&Call::Op(Op::CreatePipelineLayout { layout: first + 5, set_layout: first + 1 })));
    assert!(calls.contains(&Call::Op(Op::CreateGraphicsPipeline {
        pipeline: first + 6,
        layout: first + 5,
        render_pass: first
    })));

    let setup = OneshotScope::begin_on(&mut ctx, Queue { family_index: 6 });
    let depth_info = ImageInfo {
        flags: 0,
        image_type: 0,
        format: 0,
        extent: Extent3D { width: 64, height: 32, depth: 1 },
        mip_levels: 0,
        array_layers: 0,
        samples: 0,
        tiling: 0,
        usage: 0,
        sharing_mode: 0,
        initial_layout: 0,
    };
    let depth = Image::create(&mut ctx, &setup, Format::Depth, &depth_info, None);
    setup.finish(&mut ctx);
    let output = Swapchain::create(&mut ctx, pass.render_pass, Some(depth.view));
    assert_eq!(output.depth, Some(depth.view));
    let made = ctx.take_calls();
    assert!(made.contains(&Call::Op(Op::CreateFramebuffer {
        framebuffer: output.framebuffers[0],
        render_pass: pass.render_pass,
        color: output.images[0].view,
        depth: Some(depth.view),
        extent: Extent2D { width: 64, height: 32 },
    })));
    let sync = SyncInfo { wait_on: Some(70), signal_to: None, fence: 71 };
    pass.run(&mut ctx, 1, &sync, &output);
    let commands = pass.command_buffers[1];
    assert_eq!(
        ctx.take_calls(),
        vec![
            Call::Op(Op::BeginCommandBuffer { commands, one_time_submit: true }),
            Call::Op(Op::CmdRunPass {
                commands,
                render_pass: pass.render_pass,
                framebuffer: output.framebuffers[1],
                pipeline: pass.pipeline,
                layout: pass.layout,
                descriptor_set: pass.descriptors.sets[1],
                extent: Extent2D { width: 64, height: 32 },
            }),
            Call::Op(Op::EndCommandBuffer { commands }),
            Call::Op(Op::QueueSubmit {
                queue_family: 6,
                commands,
                wait: Some(70),
                wait_stage: vk::PipelineStageFlags::COLOR_ATTACHMENT_OUTPUT.as_raw(),
                signal: None,
                fence: 71,
            }),
        ]
    );
    output.destroy_with(&mut ctx);
    assert!(ctx.is_live(depth.view, Kind::ImageView));
    depth.destroy_with(&mut ctx);
    ctx.take_calls();
    pass.destroy_with(&mut ctx);
    let calls = ctx.take_calls();
    assert_eq!(calls[0], Call::Op(Op::DestroyCommandPool { pool: first + 7 }));
    assert_eq!(calls.last(), Some(&Call::Op(Op::DestroySampler { sampler: first - 1 })));
    assert_eq!(ctx.live_objects(), 0);
    assert!(ctx.destroy_with().is_empty());
}

#[test]
fn the_checks_tell_live_from_destroyed() {
    let mut ctx = context(2);
    let info = BufferInfo { size: 4, usage: 1, sharing_mode: 0 };
    let kept = Buffer::create(&mut ctx, info, Location::CpuToGpu);
    let forged = Buffer { buffer: kept.buffer, allocation: kept.allocation, size: 4, location: Location::CpuToGpu };
    assert!(kept.is_wf(&ctx));
    assert!(forged.is_wf(&ctx));
    kept.destroy_with(&mut ctx);
    assert!(!forged.is_wf(&ctx));
    let model = Model {
        vertices: vec![1; 8],
        indices: vec![0, 1, 2],
        texture: RgbaImage::from_raw(1, 1, vec![0; 4]).unwrap(),
    };
    let renderer = Renderer::create(&mut ctx, model, 2, 64);
    assert!(renderer.is_wf(&ctx));
    assert!(renderer.state.is_live_in(&ctx));
    assert!(renderer.swapchain.is_wf(&ctx));
    assert!(ctx.all_live(&renderer.command_pools, Kind::CommandPool));
    assert!(!ctx.all_live(&renderer.command_pools, Kind::CommandBuffer));
    let pools = renderer.command_pools.clone();
    renderer.destroy_with(&mut ctx);
    assert!(!ctx.all_live(&pools, Kind::CommandPool));
    assert!(ctx.all_live(&Vec::new(), Kind::Fence));
}
