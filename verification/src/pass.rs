use vstd::prelude::*;
use crate::call::{Attachment, AttachmentReference, RenderPassInfo, RenderPassInfoView, SubpassDependency};
use crate::codes;

verus! {

/// The color attachment of a pass that draws to presentable images of
/// `format`: one sample per texel (1); cleared when the pass begins
/// (load 1) and kept when it ends (store 0); no stencil to load or
/// store (2, 1); it comes in whatever layout (0) and goes as an image
/// to present (1000001002).
pub open spec fn color_attachment(format: i32) -> Attachment {
    Attachment {
        format,
        samples: 1,
        load_op: 1,
        store_op: 0,
        stencil_load_op: 2,
        stencil_store_op: 1,
        initial_layout: 0,
        final_layout: 1000001002,
    }
}

/// The depth attachment of a pass, of format `depth`: one sample per
/// texel; cleared when the pass begins (load 1) and not kept when it
/// ends (store 1); no stencil to load or store (2, 1); it comes in
/// whatever layout (0) and goes as a depth attachment (3).
pub open spec fn depth_attachment(depth: i32) -> Attachment {
    Attachment {
        format: depth,
        samples: 1,
        load_op: 1,
        store_op: 1,
        stencil_load_op: 2,
        stencil_store_op: 1,
        initial_layout: 0,
        final_layout: 3,
    }
}

/// The render pass for presentable images of `format`. Without a depth
/// format it has the color attachment alone, and its subpass waits
/// with its color output (stage 0x400), before it writes the color
/// attachment (access 0x100), for the color output of what came
/// before the pass (subpass 0xffff_ffff). With a depth format `d` it
/// has a depth attachment of that format besides, as attachment 1 in
/// the layout of depth attachments (3), and its subpass waits with its
/// fragment shaders (stage 0x80), before they read (access 0x20), for
/// the color output of what came before, and for what that wrote to
/// color attachments (access 0x100). Either way the subpass writes
/// color to attachment 0, in the layout of color attachments (2).
pub open spec fn render_pass_description(format: i32, depth: Option<i32>) -> RenderPassInfoView {
    match depth {
        None => RenderPassInfoView {
            attachments: seq![color_attachment(format)],
            color: AttachmentReference { attachment: 0, layout: 2 },
            depth: None,
            dependency: SubpassDependency {
                src_subpass: 0xffff_ffff,
                dst_subpass: 0,
                src_stage_mask: 0x400,
                dst_stage_mask: 0x400,
                src_access_mask: 0,
                dst_access_mask: 0x100,
            },
        },
        Some(d) => RenderPassInfoView {
            attachments: seq![color_attachment(format), depth_attachment(d)],
            color: AttachmentReference { attachment: 0, layout: 2 },
            depth: Some(AttachmentReference { attachment: 1, layout: 3 }),
            dependency: SubpassDependency {
                src_subpass: 0xffff_ffff,
                dst_subpass: 0,
                src_stage_mask: 0x400,
                dst_stage_mask: 0x80,
                src_access_mask: 0x100,
                dst_access_mask: 0x20,
            },
        },
    }
}

/// Describes the render pass for presentable images of `format`, with
/// a depth attachment where `depth` names its format.
pub fn describe_render_pass(format: i32, depth: Option<i32>) -> (info: RenderPassInfo)
    ensures
        info@ == render_pass_description(format, depth),
{
    let samples = codes::samples_1();
    let clear = codes::load_op_clear();
    let ignore_old = codes::load_op_dont_care();
    let discard = codes::store_op_dont_care();
    let undefined = codes::layout_undefined();
    let color = AttachmentReference { attachment: 0, layout: codes::layout_color_attachment() };
    let mut attachments: Vec<Attachment> = Vec::new();
    attachments.push(
        Attachment {
            format,
            samples,
            load_op: clear,
            store_op: codes::store_op_store(),
            stencil_load_op: ignore_old,
            stencil_store_op: discard,
            initial_layout: undefined,
            final_layout: codes::layout_present_src(),
        },
    );
    match depth {
        None => {
            proof {
                assert(attachments@ =~= seq![color_attachment(format)]);
            }
            RenderPassInfo {
                attachments,
                color,
                depth: None,
                dependency: SubpassDependency {
                    src_subpass: codes::subpass_external(),
                    dst_subpass: 0,
                    src_stage_mask: codes::stage_color_attachment_output(),
                    dst_stage_mask: codes::stage_color_attachment_output(),
                    src_access_mask: 0,
                    dst_access_mask: codes::access_color_attachment_write(),
                },
            }
        },
        Some(d) => {
            let depth_layout = codes::layout_depth_stencil_attachment();
            attachments.push(
                Attachment {
                    format: d,
                    samples,
                    load_op: clear,
                    store_op: discard,
                    stencil_load_op: ignore_old,
                    stencil_store_op: discard,
                    initial_layout: undefined,
                    final_layout: depth_layout,
                },
            );
            proof {
                assert(attachments@ =~= seq![color_attachment(format), depth_attachment(d)]);
            }
            RenderPassInfo {
                attachments,
                color,
                depth: Some(AttachmentReference { attachment: 1, layout: depth_layout }),
                dependency: SubpassDependency {
                    src_subpass: codes::subpass_external(),
                    dst_subpass: 0,
                    src_stage_mask: codes::stage_color_attachment_output(),
                    dst_stage_mask: codes::stage_fragment_shader(),
                    src_access_mask: codes::access_color_attachment_write(),
                    dst_access_mask: codes::access_shader_read(),
                },
            }
        },
    }
}

} // verus!
