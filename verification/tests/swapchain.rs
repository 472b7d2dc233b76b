use render_core::call::{Call, Extent2D, Op, SubresourceRange};
use render_core::context::{Context, Queue, Queues, SurfaceConfig, SurfaceFormat};
use render_core::features::Features;
use render_core::image::{BarrierInfo, Format, Image};
use render_core::ledger::Kind;
use render_core::render::Renderer;
use render_core::swapchain::Swapchain;

fn context(image_count: u32) -> Context {
    let queues = Queues { graphics: Queue { family_index: 0 }, transfer: None };
    let config = SurfaceConfig {
        surface_format: SurfaceFormat { format: 44, color_space: 0 },
        extent: Extent2D { width: 64, height: 32 },
        image_count,
    };
    Context::init(Features::required(), queues, config).ok().unwrap()
}

#[test]
fn each_presentable_image_gets_a_view_and_a_framebuffer() {
    let mut ctx = context(2);
    let pass = Renderer::create_render_pass(&mut ctx, 44);
    ctx.take_calls();
    let swapchain = Swapchain::create(&mut ctx, pass, None);
    assert_eq!(swapchain.swapchain, 1);
    assert_eq!(swapchain.config, ctx.surface.config);
    assert_eq!(
        swapchain.images,
        vec![
            Image { image: 2, view: 3, allocation: None, format: Format::Swapchain, state: BarrierInfo::init() },
            Image { image: 5, view: 6, allocation: None, format: Format::Swapchain, state: BarrierInfo::init() },
        ]
    );
    assert_eq!(swapchain.framebuffers, vec![4, 7]);
    let range =
        SubresourceRange { aspect_mask: 1, base_mip_level: 0, level_count: 1, base_array_layer: 0, layer_count: 1 };
    let extent = Extent2D { width: 64, height: 32 };
    assert_eq!(
        ctx.take_calls(),
        vec![
            Call::Op(Op::CreateSwapchain {
                swapchain: 1,
                format: SurfaceFormat { format: 44, color_space: 0 },
                extent,
                image_count: 2,
            }),
            Call::Op(Op::GetSwapchainImage { swapchain: 1, index: 0, image: 2 }),
            Call::Op(Op::CreateImageView { view: 3, image: 2, view_type: 1, format: 44, range }),
            Call::Op(Op::CreateFramebuffer { framebuffer: 4, render_pass: pass, color: 3, depth: None, extent }),
            Call::Op(Op::GetSwapchainImage { swapchain: 1, index: 1, image: 5 }),
            Call::Op(Op::CreateImageView { view: 6, image: 5, view_type: 1, format: 44, range }),
            Call::Op(Op::CreateFramebuffer { framebuffer: 7, render_pass: pass, color: 6, depth: None, extent }),
        ]
    );
}

#[test]
fn acquire_and_present_name_the_swapchain() {
    let mut ctx = context(2);
    let pass = Renderer::create_render_pass(&mut ctx, 44);
    let swapchain = Swapchain::create(&mut ctx, pass, None);
    let state = render_core::sync_state::SyncState::create(&mut ctx, 1);
    ctx.take_calls();
    swapchain.acquire_next_image_and_signal(&mut ctx, state.image_available[0]);
    swapchain.present_to_when(&mut ctx, Queue { family_index: 3 }, 1, state.render_finished[0]);
    assert_eq!(
        ctx.take_calls(),
        vec![
            Call::Op(Op::AcquireNextImage { swapchain: 1, signal: state.image_available[0] }),
            Call::Op(Op::QueuePresent {
                queue_family: 3,
                swapchain: 1,
                image_index: 1,
                wait: state.render_finished[0]
            }),
        ]
    );
}

#[test]
fn destroy_takes_the_render_targets_before_the_swapchain() {
    let mut ctx = context(2);
    let pass = Renderer::create_render_pass(&mut ctx, 44);
    let swapchain = Swapchain::create(&mut ctx, pass, None);
    ctx.take_calls();
    swapchain.destroy_with(&mut ctx);
    assert_eq!(
        ctx.take_calls(),
        vec![
            Call::Op(Op::DestroyFramebuffer { framebuffer: 4 }),
            Call::Op(Op::DestroyImageView { view: 3 }),
            Call::Op(Op::DestroyFramebuffer { framebuffer: 7 }),
            Call::Op(Op::DestroyImageView { view: 6 }),
            Call::Op(Op::DestroySwapchain { swapchain: 1 }),
        ]
    );
    assert!(!ctx.is_live(2, Kind::Image));
    assert!(!ctx.is_live(1, Kind::Swapchain));
    assert!(ctx.is_live(pass, Kind::RenderPass));
    assert_eq!(ctx.live_objects(), 1);
}

#[test]
fn a_swapchain_without_images_is_only_the_swapchain() {
    let mut ctx = context(0);
    let pass = Renderer::create_render_pass(&mut ctx, 44);
    let swapchain = Swapchain::create(&mut ctx, pass, None);
    assert!(swapchain.images.is_empty());
    assert_eq!(ctx.created(), 2);
}
