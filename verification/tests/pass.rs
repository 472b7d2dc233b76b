use ash::vk;
use render_core::call::{Attachment, AttachmentReference, RenderPassInfo, SubpassDependency};
use render_core::pass::describe_render_pass;

fn color(format: i32) -> Attachment {
    Attachment {
        format,
        samples: vk::SampleCountFlags::TYPE_1.as_raw(),
        load_op: vk::AttachmentLoadOp::CLEAR.as_raw(),
        store_op: vk::AttachmentStoreOp::STORE.as_raw(),
        stencil_load_op: vk::AttachmentLoadOp::DONT_CARE.as_raw(),
        stencil_store_op: vk::AttachmentStoreOp::DONT_CARE.as_raw(),
        initial_layout: vk::ImageLayout::UNDEFINED.as_raw(),
        final_layout: vk::ImageLayout::PRESENT_SRC_KHR.as_raw(),
    }
}

#[test]
fn a_pass_without_depth_has_the_color_attachment_alone() {
    assert_eq!(
        describe_render_pass(50, None),
        RenderPassInfo {
            attachments: vec![color(50)],
            color: AttachmentReference { attachment: 0, layout: vk::ImageLayout::COLOR_ATTACHMENT_OPTIMAL.as_raw() },
            depth: None,
            dependency: SubpassDependency {
                src_subpass: vk::SUBPASS_EXTERNAL,
                dst_subpass: 0,
                src_stage_mask: vk::PipelineStageFlags::COLOR_ATTACHMENT_OUTPUT.as_raw(),
                dst_stage_mask: vk::PipelineStageFlags::COLOR_ATTACHMENT_OUTPUT.as_raw(),
                src_access_mask: vk::AccessFlags::empty().as_raw(),
                dst_access_mask: vk::AccessFlags::COLOR_ATTACHMENT_WRITE.as_raw(),
            },
        }
    );
}

#[test]
fn a_pass_with_depth_has_a_depth_attachment_that_is_not_kept() {
    let depth_layout = vk::ImageLayout::DEPTH_STENCIL_ATTACHMENT_OPTIMAL.as_raw();
    assert_eq!(
        describe_render_pass(44, Some(vk::Format::D32_SFLOAT.as_raw())),
        RenderPassInfo {
            attachments: vec![
                color(44),
                Attachment {
                    format: vk::Format::D32_SFLOAT.as_raw(),
                    samples: vk::SampleCountFlags::TYPE_1.as_raw(),
                    load_op: vk::AttachmentLoadOp::CLEAR.as_raw(),
                    store_op: vk::AttachmentStoreOp::DONT_CARE.as_raw(),
                    stencil_load_op: vk::AttachmentLoadOp::DONT_CARE.as_raw(),
                    stencil_store_op: vk::AttachmentStoreOp::DONT_CARE.as_raw(),
                    initial_layout: vk::ImageLayout::UNDEFINED.as_raw(),
                    final_layout: depth_layout,
                },
            ],
            color: AttachmentReference { attachment: 0, layout: vk::ImageLayout::COLOR_ATTACHMENT_OPTIMAL.as_raw() },
            depth: Some(AttachmentReference { attachment: 1, layout: depth_layout }),
            dependency: SubpassDependency {
                src_subpass: vk::SUBPASS_EXTERNAL,
                dst_subpass: 0,
                src_stage_mask: vk::PipelineStageFlags::COLOR_ATTACHMENT_OUTPUT.as_raw(),
                dst_stage_mask: vk::PipelineStageFlags::FRAGMENT_SHADER.as_raw(),
                src_access_mask: vk::AccessFlags::COLOR_ATTACHMENT_WRITE.as_raw(),
                dst_access_mask: vk::AccessFlags::SHADER_READ.as_raw(),
            },
        }
    );
}
