use ash::vk;
use render_core::buffer::Buffer;
use render_core::call::{Call, DescriptorWrite, Extent2D, ImageBinding, LayoutBinding, Location, Op, PoolSize};
use render_core::context::{Context, Queue, Queues, SurfaceCapabilities, SurfaceConfig, SurfaceFormat};
use render_core::features::Features;
use render_core::frame::Phase;
use render_core::image::RgbaImage;
use render_core::ledger::Kind;
use render_core::pass::describe_render_pass;
use render_core::render::{Error, Model, Renderer};

fn context(image_count: u32) -> Context {
    let queues = Queues { graphics: Queue { family_index: 4 }, transfer: None };
    let config = SurfaceConfig {
        surface_format: SurfaceFormat { format: 50, color_space: 0 },
        extent: Extent2D { width: 800, height: 600 },
        image_count,
    };
    Context::init(Features::required(), queues, config).ok().unwrap()
}

fn model() -> Model {
    Model {
        vertices: vec![9; 40],
        indices: vec![0, 1, 2, 2, 3, 0],
        texture: RgbaImage::from_raw(2, 2, vec![7; 16]).unwrap(),
    }
}

fn renderer(ctx: &mut Context, frames: usize) -> Renderer {
    Renderer::create(ctx, model(), frames, 192)
}

fn count(calls: &[Call], wanted: fn(&Op) -> bool) -> usize {
    calls.iter().filter(|c| matches!(c, Call::Op(op) if wanted(op))).count()
}

fn presents(calls: &[Call]) -> usize {
    count(calls, |op| matches!(op, Op::QueuePresent { .. }))
}

fn acquires(calls: &[Call]) -> usize {
    count(calls, |op| matches!(op, Op::AcquireNextImage { .. }))
}

fn submits(calls: &[Call]) -> usize {
    count(calls, |op| matches!(op, Op::QueueSubmit { .. }))
}

#[test]
fn create_makes_everything_and_finishes_its_setup_scope_once() {
    let mut ctx = context(2);
    let renderer = renderer(&mut ctx, 2);
    assert_eq!(renderer.pass, 0);
    assert_eq!(renderer.descriptors.layout, 1);
    assert_eq!(renderer.descriptors.pool, 2);
    assert_eq!(renderer.descriptors.sets, vec![3]);
    assert_eq!(renderer.layout, 4);
    assert_eq!(renderer.pipeline, 5);
    assert_eq!(renderer.command_pools, vec![6, 7]);
    assert_eq!(renderer.command_buffers, vec![8, 9]);
    assert_eq!(
        renderer.vertex_index_buffer,
        Buffer { buffer: 15, allocation: 16, size: 64, location: Location::GpuOnly }
    );
    assert_eq!(renderer.texture.image.image, 19);
    assert_eq!(renderer.texture.image.view, 21);
    assert_eq!(renderer.texture.sampler.sampler, 22);
    assert_eq!(
        renderer.uniforms.buffer,
        Buffer { buffer: 23, allocation: 24, size: 192, location: Location::CpuToGpu }
    );
    assert_eq!(renderer.state.in_flight, vec![27, 30]);
    assert_eq!(renderer.swapchain.swapchain, 31);
    assert_eq!(renderer.swapchain.framebuffers, vec![34, 37]);
    assert_eq!(renderer.model, model());
    assert_eq!(renderer.phase, Phase::Idle);
    assert!(!renderer.needs_recreating);
    assert!(renderer.is_wf(&ctx));

    let calls = ctx.take_calls();
    assert_eq!(calls[0], Call::CreateRenderPass { render_pass: 0, info: describe_render_pass(50, None) });
    assert_eq!(
        calls[1],
        Call::CreateDescriptorSetLayout {
            layout: 1,
            bindings: vec![
                LayoutBinding {
                    binding: 0,
                    descriptor_type: vk::DescriptorType::UNIFORM_BUFFER.as_raw(),
                    descriptor_count: 1,
                    stage_flags: vk::ShaderStageFlags::VERTEX.as_raw(),
                    binding_flags: 0,
                },
                LayoutBinding {
                    binding: 1,
                    descriptor_type: vk::DescriptorType::COMBINED_IMAGE_SAMPLER.as_raw(),
                    descriptor_count: 1,
                    stage_flags: vk::ShaderStageFlags::FRAGMENT.as_raw(),
                    binding_flags: 0,
                },
            ],
        }
    );
    assert_eq!(
        calls[2],
        Call::CreateDescriptorPool {
            pool: 2,
            sizes: vec![
                PoolSize { descriptor_type: vk::DescriptorType::UNIFORM_BUFFER.as_raw(), descriptor_count: 1 },
                PoolSize { descriptor_type: vk::DescriptorType::COMBINED_IMAGE_SAMPLER.as_raw(), descriptor_count: 1 },
            ],
            max_sets: 1,
        }
    );
    assert_eq!(calls[4], Call::Op(Op::CreatePipelineLayout { layout: 4, set_layout: 1 }));
    assert_eq!(calls[5], Call::Op(Op::CreateGraphicsPipeline { pipeline: 5, layout: 4, render_pass: 0 }));

    // One scope: begun once, finished once, and finished last of all.
    assert_eq!(count(&calls, |op| matches!(op, Op::BeginCommandBuffer { commands: 11, .. })), 1);
    assert_eq!(count(&calls, |op| matches!(op, Op::EndCommandBuffer { commands: 11 })), 1);
    assert_eq!(submits(&calls), 1);
    assert_eq!(count(&calls, |op| matches!(op, Op::FreeCommandBuffer { commands: 11, pool: 10 })), 1);
    let end = calls.iter().position(|c| matches!(c, Call::Op(Op::EndCommandBuffer { commands: 11 }))).unwrap();
    let last_recorded = calls
        .iter()
        .rposition(|c| {
            matches!(
                c,
                Call::Op(Op::CmdCopyBuffer { .. })
                    | Call::Op(Op::CmdCopyBufferToImage { .. })
                    | Call::Op(Op::CmdPipelineBarrier { .. })
            )
        })
        .unwrap();
    let swapchain_made = calls.iter().position(|c| matches!(c, Call::Op(Op::CreateSwapchain { .. }))).unwrap();
    let last_framebuffer =
        calls.iter().rposition(|c| matches!(c, Call::Op(Op::CreateFramebuffer { .. }))).unwrap();
    assert!(last_recorded < end);
    assert!(swapchain_made < end);
    assert_eq!(end, last_framebuffer + 1);
    assert_eq!(
        calls[end..].to_vec(),
        vec![
            Call::Op(Op::EndCommandBuffer { commands: 11 }),
            Call::Op(Op::QueueSubmit {
                queue_family: 4,
                commands: 11,
                wait: None,
                wait_stage: 0,
                signal: None,
                fence: 12
            }),
            Call::Op(Op::WaitForFence { fence: 12 }),
            Call::Op(Op::DestroyBuffer { buffer: 13 }),
            Call::Op(Op::FreeMemory { memory: 14 }),
            Call::Op(Op::DestroyBuffer { buffer: 17 }),
            Call::Op(Op::FreeMemory { memory: 18 }),
            Call::Op(Op::DestroyFence { fence: 12 }),
            Call::Op(Op::FreeCommandBuffer { commands: 11, pool: 10 }),
            Call::Op(Op::DestroyCommandPool { pool: 10 }),
        ]
    );
    // Nothing of the scope is left alive; everything else is.
    for gone in [10, 11, 12, 13, 14, 17, 18] {
        assert!(!ctx.is_live(gone, Kind::Buffer));
        assert!(!ctx.is_live(gone, Kind::Memory));
        assert!(!ctx.is_live(gone, Kind::CommandBuffer));
        assert!(!ctx.is_live(gone, Kind::CommandPool));
        assert!(!ctx.is_live(gone, Kind::Fence));
    }
    assert_eq!(ctx.created(), 38);
    assert_eq!(ctx.live_objects(), 31);
}

#[test]
fn the_upload_holds_the_vertices_and_then_the_indices() {
    let mut ctx = context(2);
    let renderer = renderer(&mut ctx, 2);
    let calls = ctx.take_calls();
    let mut expected = vec![9u8; 40];
    for index in &model().indices {
        expected.extend_from_slice(&index.to_ne_bytes());
    }
    assert!(calls.contains(&Call::WriteMemory { memory: 14, data: expected }));
    assert!(calls.contains(&Call::WriteMemory { memory: 18, data: vec![7; 16] }));
    let usage = calls
        .iter()
        .find_map(|c| match c {
            Call::Op(Op::CreateBuffer { buffer: 15, info }) => Some(info.usage),
            _ => None,
        })
        .unwrap();
    assert_eq!(
        usage,
        (vk::BufferUsageFlags::VERTEX_BUFFER | vk::BufferUsageFlags::INDEX_BUFFER | vk::BufferUsageFlags::TRANSFER_DST)
            .as_raw()
    );
    assert!(calls.contains(&Call::UpdateDescriptorSets {
        writes: vec![
            DescriptorWrite::Buffer {
                set: 3,
                binding: 0,
                descriptor_type: vk::DescriptorType::UNIFORM_BUFFER.as_raw(),
                buffer: renderer.uniforms.buffer.buffer,
                offset: 0,
                range: vk::WHOLE_SIZE,
            },
            DescriptorWrite::Images {
                set: 3,
                binding: 1,
                descriptor_type: vk::DescriptorType::COMBINED_IMAGE_SAMPLER.as_raw(),
                images: vec![ImageBinding {
                    view: renderer.texture.image.view,
                    layout: vk::ImageLayout::SHADER_READ_ONLY_OPTIMAL.as_raw(),
                    sampler: renderer.texture.sampler.sampler,
                }],
            },
        ]
    }));
    assert_eq!(renderer.model.vertex_data_size(), 40);
}

#[test]
fn a_model_wants_a_whole_picture() {
    assert!(model().is_wf());
    let mut broken = model();
    broken.texture.pixels.pop();
    assert!(!broken.is_wf());
}

#[test]
fn four_frames_on_two_slots_present_four_times() {
    let mut ctx = context(3);
    let mut renderer = renderer(&mut ctx, 2);
    ctx.take_calls();
    let mut slots = Vec::new();
    let mut all = Vec::new();
    for frame in 0..4u32 {
        slots.push(renderer.state.current_frame);
        assert_eq!(renderer.render(&mut ctx), Ok(()));
        assert_eq!(renderer.phase, Phase::Acquiring);
        assert_eq!(renderer.image_acquired(&mut ctx, frame % 3, false), Ok(()));
        assert_eq!(renderer.phase, Phase::Presenting);
        assert!(renderer.state.in_flight_count() <= 2);
        assert_eq!(renderer.image_presented(&ctx, false), Ok(()));
        assert_eq!(renderer.phase, Phase::Idle);
        all.extend(ctx.take_calls());
    }
    assert_eq!(slots, vec![0, 1, 0, 1]);
    assert_eq!(renderer.state.current_frame, 0);
    assert_eq!(presents(&all), 4);
    assert_eq!(acquires(&all), 4);
    assert_eq!(submits(&all), 4);
    assert!(!renderer.needs_recreating);
    assert_eq!(renderer.state.in_flight_count(), 2);
}

#[test]
fn a_frame_asks_for_everything_in_order() {
    let mut ctx = context(2);
    let mut renderer = renderer(&mut ctx, 2);
    ctx.take_calls();
    assert_eq!(renderer.render(&mut ctx), Ok(()));
    let fence = renderer.state.in_flight[0];
    let available = renderer.state.image_available[0];
    let finished = renderer.state.render_finished[0];
    let swapchain = renderer.swapchain.swapchain;
    assert_eq!(
        ctx.take_calls(),
        vec![
            Call::Op(Op::WaitForFence { fence }),
            Call::Op(Op::AcquireNextImage { swapchain, signal: available }),
        ]
    );
    assert_eq!(renderer.image_acquired(&mut ctx, 1, false), Ok(()));
    let commands = renderer.command_buffers[1];
    let buffer = renderer.vertex_index_buffer.buffer;
    assert_eq!(
        ctx.take_calls(),
        vec![
            Call::Op(Op::ResetCommandPool { pool: renderer.command_pools[1] }),
            Call::Op(Op::ResetFence { fence }),
            Call::Op(Op::BeginCommandBuffer { commands, one_time_submit: true }),
            Call::Op(Op::CmdBeginRenderPass {
                commands,
                render_pass: renderer.pass,
                framebuffer: renderer.swapchain.framebuffers[1],
                extent: Extent2D { width: 800, height: 600 },
            }),
            Call::Op(Op::CmdBindPipeline { commands, pipeline: renderer.pipeline }),
            Call::Op(Op::CmdBindVertexBuffer { commands, buffer, offset: 0 }),
            Call::Op(Op::CmdBindIndexBuffer {
                commands,
                buffer,
                offset: 40,
                index_type: vk::IndexType::UINT32.as_raw()
            }),
            Call::Op(Op::CmdBindDescriptorSet { commands, layout: renderer.layout, descriptor_set: 3 }),
            Call::Op(Op::CmdDrawIndexed {
                commands,
                index_count: 6,
                instance_count: 1,
                first_index: 0,
                vertex_offset: 0,
                first_instance: 0,
            }),
            Call::Op(Op::CmdEndRenderPass { commands }),
            Call::Op(Op::EndCommandBuffer { commands }),
            Call::Op(Op::QueueSubmit {
                queue_family: 4,
                commands,
                wait: Some(available),
                wait_stage: vk::PipelineStageFlags::COLOR_ATTACHMENT_OUTPUT.as_raw(),
                signal: Some(finished),
                fence,
            }),
            Call::Op(Op::QueuePresent { queue_family: 4, swapchain, image_index: 1, wait: finished }),
        ]
    );
    assert_eq!(renderer.image_presented(&ctx, false), Ok(()));
    assert!(ctx.take_calls().is_empty());
    assert_eq!(renderer.state.current_frame, 1);
}

#[test]
fn recording_a_frame_submits_nothing() {
    let mut ctx = context(2);
    let renderer = renderer(&mut ctx, 2);
    ctx.take_calls();
    renderer.record_commands_for_frame(&mut ctx, 0);
    let calls = ctx.take_calls();
    assert_eq!(calls.len(), 9);
    assert_eq!(calls[0], Call::Op(Op::BeginCommandBuffer { commands: 8, one_time_submit: true }));
    assert_eq!(calls[8], Call::Op(Op::EndCommandBuffer { commands: 8 }));
    assert_eq!(submits(&calls), 0);
}

#[test]
fn the_host_waits_for_the_slot_before_it_submits_on_it_again() {
    let mut ctx = context(2);
    let mut renderer = renderer(&mut ctx, 2);
    ctx.take_calls();
    let mut all = Vec::new();
    for _ in 0..5 {
        renderer.render(&mut ctx).unwrap();
        renderer.image_acquired(&mut ctx, 0, false).unwrap();
        renderer.image_presented(&ctx, false).unwrap();
        all.extend(ctx.take_calls());
    }
    for fence in renderer.state.in_flight.clone() {
        let mut waited = false;
        for call in &all {
            match call {
                Call::Op(Op::WaitForFence { fence: f }) if *f == fence => waited = true,
                Call::Op(Op::QueueSubmit { fence: f, .. }) if *f == fence => {
                    assert!(waited, "submitted on a slot that was not waited for");
                    waited = false;
                }
                _ => {}
            }
        }
    }
}

#[test]
fn a_resize_between_acquire_and_present_recreates_once() {
    let mut ctx = context(2);
    let mut renderer = renderer(&mut ctx, 2);
    ctx.take_calls();
    let mut recreations = 0;
    let mut frames = 0;
    let mut slots = Vec::new();
    let mut all = Vec::new();
    for frame in 0..4 {
        slots.push(renderer.state.current_frame);
        let mut result = renderer.render(&mut ctx);
        if result.is_ok() {
            result = renderer.image_acquired(&mut ctx, 0, false);
        }
        if result.is_ok() {
            result = renderer.image_presented(&ctx, frame == 1);
        }
        frames += 1;
        if result == Err(Error::NeedsRecreating) {
            let resized = SurfaceCapabilities {
                current_extent: Extent2D { width: 1024, height: 768 },
                min_image_count: 1,
                max_image_count: 3,
            };
            assert!(ctx.refresh_surface_capabilities(resized));
            renderer.recreate(&mut ctx);
            recreations += 1;
        }
        all.extend(ctx.take_calls());
    }
    assert_eq!(recreations, 1);
    assert_eq!(frames, 4);
    assert_eq!(slots, vec![0, 1, 0, 1]);
    assert_eq!(presents(&all), 4);
    assert_eq!(renderer.swapchain.config.extent, Extent2D { width: 1024, height: 768 });
    assert!(!renderer.needs_recreating);
    assert!(renderer.is_wf(&ctx));
}

#[test]
fn a_stale_image_drops_the_frame_and_still_advances() {
    let mut ctx = context(2);
    let mut renderer = renderer(&mut ctx, 3);
    ctx.take_calls();
    assert_eq!(renderer.render(&mut ctx), Ok(()));
    ctx.take_calls();
    assert_eq!(renderer.image_acquired(&mut ctx, 1, true), Err(Error::NeedsRecreating));
    assert_eq!(ctx.take_calls(), vec![Call::Op(Op::ResetCommandPool { pool: renderer.command_pools[1] })]);
    assert_eq!(renderer.phase, Phase::Idle);
    assert_eq!(renderer.state.current_frame, 1);
    assert_eq!(renderer.state.in_flight_count(), 0);
    assert!(renderer.needs_recreating);
}

#[test]
fn no_image_is_asked_for_while_the_surface_is_stale() {
    let mut ctx = context(2);
    let mut renderer = renderer(&mut ctx, 2);
    renderer.render(&mut ctx).unwrap();
    renderer.image_acquired(&mut ctx, 0, false).unwrap();
    assert_eq!(renderer.image_presented(&ctx, true), Err(Error::NeedsRecreating));
    ctx.take_calls();
    for _ in 0..3 {
        assert_eq!(renderer.render(&mut ctx), Err(Error::NeedsRecreating));
        assert_eq!(renderer.phase, Phase::Idle);
        assert_eq!(renderer.state.current_frame, 1);
    }
    assert!(ctx.take_calls().is_empty());
    renderer.recreate(&mut ctx);
    ctx.take_calls();
    assert_eq!(renderer.render(&mut ctx), Ok(()));
    assert_eq!(acquires(&ctx.take_calls()), 1);
}

#[test]
fn recreate_changes_only_the_swapchain() {
    let mut ctx = context(2);
    let mut renderer = renderer(&mut ctx, 2);
    for _ in 0..2 {
        renderer.render(&mut ctx).unwrap();
        renderer.image_acquired(&mut ctx, 0, false).unwrap();
        let _ = renderer.image_presented(&ctx, true);
        renderer.needs_recreating = false;
    }
    renderer.needs_recreating = true;
    assert_eq!(renderer.state.in_flight_count(), 2);
    ctx.take_calls();
    let old_swapchain = renderer.swapchain.swapchain;
    let old_framebuffers = renderer.swapchain.framebuffers.clone();
    let pools = renderer.command_pools.clone();
    let buffers = renderer.command_buffers.clone();
    let fences = renderer.state.in_flight.clone();
    let (pass, pipeline, layout) = (renderer.pass, renderer.pipeline, renderer.layout);
    let (vertex_buffer, view, uniforms) =
        (renderer.vertex_index_buffer.buffer, renderer.texture.image.view, renderer.uniforms.buffer.buffer);
    let sets = renderer.descriptors.sets.clone();
    let slot = renderer.state.current_frame;
    let first_new = ctx.created();

    renderer.recreate(&mut ctx);

    let calls = ctx.take_calls();
    assert_eq!(
        calls[..7].to_vec(),
        vec![
            Call::Op(Op::WaitForFence { fence: fences[0] }),
            Call::Op(Op::WaitForFence { fence: fences[1] }),
            Call::Op(Op::DestroyFramebuffer { framebuffer: old_framebuffers[0] }),
            Call::Op(Op::DestroyImageView { view: 33 }),
            Call::Op(Op::DestroyFramebuffer { framebuffer: old_framebuffers[1] }),
            Call::Op(Op::DestroyImageView { view: 36 }),
            Call::Op(Op::DestroySwapchain { swapchain: old_swapchain }),
        ]
    );
    assert!(matches!(calls[7], Call::Op(Op::CreateSwapchain { .. })));
    assert_eq!(calls.len(), 7 + 1 + 6);
    assert_eq!(count(&calls, |op| matches!(op, Op::CreateCommandPool { .. } | Op::DestroyCommandPool { .. })), 0);
    assert_eq!(count(&calls, |op| matches!(op, Op::AllocateCommandBuffer { .. })), 0);
    assert!(!calls.iter().any(|c| matches!(c, Call::CreateRenderPass { .. })));

    assert_eq!(renderer.command_pools, pools);
    assert_eq!(renderer.command_buffers, buffers);
    assert_eq!(renderer.state.in_flight, fences);
    assert_eq!(renderer.state.current_frame, slot);
    assert_eq!((renderer.pass, renderer.pipeline, renderer.layout), (pass, pipeline, layout));
    assert_eq!(renderer.vertex_index_buffer.buffer, vertex_buffer);
    assert_eq!(renderer.texture.image.view, view);
    assert_eq!(renderer.uniforms.buffer.buffer, uniforms);
    assert_eq!(renderer.descriptors.sets, sets);
    assert_eq!(renderer.model, model());
    assert_eq!(renderer.swapchain.swapchain, first_new);
    assert_eq!(renderer.state.in_flight_count(), 0);
    assert!(!renderer.needs_recreating);
    assert!(!ctx.is_live(old_swapchain, Kind::Swapchain));
    assert!(ctx.is_live(pools[0], Kind::CommandPool));
    assert!(ctx.is_live(buffers[1], Kind::CommandBuffer));
    assert!(ctx.is_live(pass, Kind::RenderPass));
    assert!(ctx.is_live(view, Kind::ImageView));
    assert!(renderer.is_wf(&ctx));
}

#[test]
fn another_number_of_images_takes_new_command_pools() {
    let mut ctx = context(2);
    let mut renderer = renderer(&mut ctx, 2);
    renderer.needs_recreating = true;
    let old_pools = renderer.command_pools.clone();
    let grown = SurfaceCapabilities {
        current_extent: Extent2D { width: 800, height: 600 },
        min_image_count: 2,
        max_image_count: 3,
    };
    assert!(ctx.refresh_surface_capabilities(grown));
    assert_eq!(ctx.surface.config.image_count, 3);
    ctx.take_calls();
    let first_new = ctx.created();
    renderer.recreate(&mut ctx);
    let calls = ctx.take_calls();
    assert_eq!(count(&calls, |op| matches!(op, Op::DestroyCommandPool { .. })), 2);
    assert_eq!(count(&calls, |op| matches!(op, Op::CreateCommandPool { .. })), 3);
    assert_eq!(renderer.command_pools, vec![first_new, first_new + 1, first_new + 2]);
    assert_eq!(renderer.command_buffers, vec![first_new + 3, first_new + 4, first_new + 5]);
    assert_eq!(renderer.swapchain.swapchain, first_new + 6);
    assert_eq!(renderer.swapchain.images.len(), 3);
    assert!(!ctx.is_live(old_pools[0], Kind::CommandPool));
    assert!(renderer.is_wf(&ctx));
}

#[test]
fn draw_records_and_submits_for_the_image() {
    let mut ctx = context(2);
    let renderer = renderer(&mut ctx, 2);
    ctx.take_calls();
    renderer.draw(&mut ctx, 0, 100, 101, 102);
    let calls = ctx.take_calls();
    assert_eq!(calls.len(), 10);
    assert_eq!(
        calls[9],
        Call::Op(Op::QueueSubmit {
            queue_family: 4,
            commands: renderer.command_buffers[0],
            wait: Some(100),
            wait_stage: 0x400,
            signal: Some(101),
            fence: 102,
        })
    );
}

#[test]
fn destroy_gives_up_everything_the_renderer_made() {
    let mut ctx = context(2);
    let renderer = renderer(&mut ctx, 2);
    ctx.take_calls();
    renderer.destroy_with(&mut ctx);
    let calls = ctx.take_calls();
    assert_eq!(ctx.live_objects(), 0);
    assert_eq!(calls[0], Call::Op(Op::DestroyFramebuffer { framebuffer: 34 }));
    let n = calls.len();
    assert_eq!(
        calls[n - 3..].to_vec(),
        vec![
            Call::Op(Op::DestroyPipeline { pipeline: 5 }),
            Call::Op(Op::DestroyPipelineLayout { layout: 4 }),
            Call::Op(Op::DestroyRenderPass { render_pass: 0 }),
        ]
    );
    assert_eq!(count(&calls, |op| matches!(op, Op::DestroySwapchain { .. })), 1);
    assert_eq!(count(&calls, |op| matches!(op, Op::DestroyCommandPool { .. })), 2);
    assert_eq!(count(&calls, |op| matches!(op, Op::DestroyFence { .. })), 2);
    assert_eq!(count(&calls, |op| matches!(op, Op::DestroyBuffer { .. })), 2);
    assert_eq!(count(&calls, |op| matches!(op, Op::DestroyImage { .. })), 1);
    assert!(ctx.destroy_with().is_empty());
}
