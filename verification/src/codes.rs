//! The numbers by which the device knows formats, layouts, usages and
//! the like, each taken from the constant of `ash` that stands for it.
//! Nothing here is proved: each function states the number that the
//! constant has in `ash`.
use vstd::prelude::*;
use ash::vk;

verus! {

/// `ash::vk::Format::R32G32B32A32_SFLOAT`, the format of four 32-bit float channels,
/// as the number that `as_raw` gives for it.
#[verifier::external_body]
pub(crate) fn format_hdr() -> (raw: i32)
    ensures
        raw == 109,
{
    vk::Format::R32G32B32A32_SFLOAT.as_raw()
}

/// `ash::vk::Format::R8G8B8A8_SRGB`, the format of four 8-bit sRGB channels,
/// as the number that `as_raw` gives for it.
#[verifier::external_body]
pub(crate) fn format_color() -> (raw: i32)
    ensures
        raw == 43,
{
    vk::Format::R8G8B8A8_SRGB.as_raw()
}

/// `ash::vk::Format::D32_SFLOAT`, the format of one 32-bit float depth channel,
/// as the number that `as_raw` gives for it.
#[verifier::external_body]
pub(crate) fn format_depth() -> (raw: i32)
    ensures
        raw == 126,
{
    vk::Format::D32_SFLOAT.as_raw()
}

/// `ash::vk::Format::B8G8R8A8_SRGB`, the format of four 8-bit sRGB channels, blue first,
/// as the number that `as_raw` gives for it.
#[verifier::external_body]
pub(crate) fn format_bgra_srgb() -> (raw: i32)
    ensures
        raw == 50,
{
    vk::Format::B8G8R8A8_SRGB.as_raw()
}

/// `ash::vk::ColorSpaceKHR::SRGB_NONLINEAR`, the sRGB color space,
/// as the number that `as_raw` gives for it.
#[verifier::external_body]
pub(crate) fn color_space_srgb() -> (raw: i32)
    ensures
        raw == 0,
{
    vk::ColorSpaceKHR::SRGB_NONLINEAR.as_raw()
}

/// `ash::vk::QueueFlags::GRAPHICS`, a queue family that takes graphics work,
/// as the number that `as_raw` gives for it.
#[verifier::external_body]
pub(crate) fn queue_graphics() -> (raw: u32)
    ensures
        raw == 0x1,
{
    vk::QueueFlags::GRAPHICS.as_raw()
}

/// `ash::vk::QueueFlags::TRANSFER`, a queue family that takes transfers,
/// as the number that `as_raw` gives for it.
#[verifier::external_body]
pub(crate) fn queue_transfer() -> (raw: u32)
    ensures
        raw == 0x4,
{
    vk::QueueFlags::TRANSFER.as_raw()
}

/// `ash::vk::Format::UNDEFINED`, the format that names none,
/// as the number that `as_raw` gives for it.
#[verifier::external_body]
pub(crate) fn format_undefined() -> (raw: i32)
    ensures
        raw == 0,
{
    vk::Format::UNDEFINED.as_raw()
}

/// `ash::vk::ImageUsageFlags::TRANSFER_DST`, use as the target of a transfer,
/// as the number that `as_raw` gives for it.
#[verifier::external_body]
pub(crate) fn image_usage_transfer_dst() -> (raw: u32)
    ensures
        raw == 0x2,
{
    vk::ImageUsageFlags::TRANSFER_DST.as_raw()
}

/// `ash::vk::ImageUsageFlags::SAMPLED`, use as a sampled image,
/// as the number that `as_raw` gives for it.
#[verifier::external_body]
pub(crate) fn image_usage_sampled() -> (raw: u32)
    ensures
        raw == 0x4,
{
    vk::ImageUsageFlags::SAMPLED.as_raw()
}

/// `ash::vk::ImageUsageFlags::STORAGE`, use as a storage image,
/// as the number that `as_raw` gives for it.
#[verifier::external_body]
pub(crate) fn image_usage_storage() -> (raw: u32)
    ensures
        raw == 0x8,
{
    vk::ImageUsageFlags::STORAGE.as_raw()
}

/// `ash::vk::ImageUsageFlags::COLOR_ATTACHMENT`, use as a color attachment,
/// as the number that `as_raw` gives for it.
#[verifier::external_body]
pub(crate) fn image_usage_color_attachment() -> (raw: u32)
    ensures
        raw == 0x10,
{
    vk::ImageUsageFlags::COLOR_ATTACHMENT.as_raw()
}

/// `ash::vk::ImageUsageFlags::DEPTH_STENCIL_ATTACHMENT`, use as a depth or stencil attachment,
/// as the number that `as_raw` gives for it.
#[verifier::external_body]
pub(crate) fn image_usage_depth_stencil_attachment() -> (raw: u32)
    ensures
        raw == 0x20,
{
    vk::ImageUsageFlags::DEPTH_STENCIL_ATTACHMENT.as_raw()
}

/// `ash::vk::ImageAspectFlags::COLOR`, the color aspect of an image,
/// as the number that `as_raw` gives for it.
#[verifier::external_body]
pub(crate) fn aspect_color() -> (raw: u32)
    ensures
        raw == 0x1,
{
    vk::ImageAspectFlags::COLOR.as_raw()
}

/// `ash::vk::ImageAspectFlags::DEPTH`, the depth aspect of an image,
/// as the number that `as_raw` gives for it.
#[verifier::external_body]
pub(crate) fn aspect_depth() -> (raw: u32)
    ensures
        raw == 0x2,
{
    vk::ImageAspectFlags::DEPTH.as_raw()
}

/// `ash::vk::ImageType::TYPE_2D`, the two-dimensional image type,
/// as the number that `as_raw` gives for it.
#[verifier::external_body]
pub(crate) fn image_type_2d() -> (raw: i32)
    ensures
        raw == 1,
{
    vk::ImageType::TYPE_2D.as_raw()
}

/// `ash::vk::ImageViewType::TYPE_2D`, the two-dimensional view type,
/// as the number that `as_raw` gives for it.
#[verifier::external_body]
pub(crate) fn image_view_type_2d() -> (raw: i32)
    ensures
        raw == 1,
{
    vk::ImageViewType::TYPE_2D.as_raw()
}

/// `ash::vk::SampleCountFlags::TYPE_1`, one sample per texel,
/// as the number that `as_raw` gives for it.
#[verifier::external_body]
pub(crate) fn samples_1() -> (raw: u32)
    ensures
        raw == 0x1,
{
    vk::SampleCountFlags::TYPE_1.as_raw()
}

/// `ash::vk::ImageTiling::OPTIMAL`, the tiling the device likes best,
/// as the number that `as_raw` gives for it.
#[verifier::external_body]
pub(crate) fn tiling_optimal() -> (raw: i32)
    ensures
        raw == 0,
{
    vk::ImageTiling::OPTIMAL.as_raw()
}

/// `ash::vk::SharingMode::EXCLUSIVE`, access by one queue family at a time,
/// as the number that `as_raw` gives for it.
#[verifier::external_body]
pub(crate) fn sharing_exclusive() -> (raw: i32)
    ensures
        raw == 0,
{
    vk::SharingMode::EXCLUSIVE.as_raw()
}

/// `ash::vk::ImageLayout::UNDEFINED`, the layout of an image whose contents do not matter,
/// as the number that `as_raw` gives for it.
#[verifier::external_body]
pub(crate) fn layout_undefined() -> (raw: i32)
    ensures
        raw == 0,
{
    vk::ImageLayout::UNDEFINED.as_raw()
}

/// `ash::vk::ImageLayout::GENERAL`, the layout that allows every access,
/// as the number that `as_raw` gives for it.
#[verifier::external_body]
pub(crate) fn layout_general() -> (raw: i32)
    ensures
        raw == 1,
{
    vk::ImageLayout::GENERAL.as_raw()
}

/// `ash::vk::ImageLayout::SHADER_READ_ONLY_OPTIMAL`, the layout for reading in shaders,
/// as the number that `as_raw` gives for it.
#[verifier::external_body]
pub(crate) fn layout_shader_read_only() -> (raw: i32)
    ensures
        raw == 5,
{
    vk::ImageLayout::SHADER_READ_ONLY_OPTIMAL.as_raw()
}

/// `ash::vk::ImageLayout::TRANSFER_DST_OPTIMAL`, the layout for the target of a transfer,
/// as the number that `as_raw` gives for it.
#[verifier::external_body]
pub(crate) fn layout_transfer_dst() -> (raw: i32)
    ensures
        raw == 7,
{
    vk::ImageLayout::TRANSFER_DST_OPTIMAL.as_raw()
}

/// `ash::vk::PipelineStageFlags::TOP_OF_PIPE`, the stage before any work,
/// as the number that `as_raw` gives for it.
#[verifier::external_body]
pub(crate) fn stage_top_of_pipe() -> (raw: u32)
    ensures
        raw == 0x1,
{
    vk::PipelineStageFlags::TOP_OF_PIPE.as_raw()
}

/// `ash::vk::PipelineStageFlags::FRAGMENT_SHADER`, the fragment shader stage,
/// as the number that `as_raw` gives for it.
#[verifier::external_body]
pub(crate) fn stage_fragment_shader() -> (raw: u32)
    ensures
        raw == 0x80,
{
    vk::PipelineStageFlags::FRAGMENT_SHADER.as_raw()
}

/// `ash::vk::PipelineStageFlags::COLOR_ATTACHMENT_OUTPUT`, the stage that writes color attachments,
/// as the number that `as_raw` gives for it.
#[verifier::external_body]
pub(crate) fn stage_color_attachment_output() -> (raw: u32)
    ensures
        raw == 0x400,
{
    vk::PipelineStageFlags::COLOR_ATTACHMENT_OUTPUT.as_raw()
}

/// `ash::vk::PipelineStageFlags::TRANSFER`, the transfer stage,
/// as the number that `as_raw` gives for it.
#[verifier::external_body]
pub(crate) fn stage_transfer() -> (raw: u32)
    ensures
        raw == 0x1000,
{
    vk::PipelineStageFlags::TRANSFER.as_raw()
}

/// `ash::vk::PipelineStageFlags::BOTTOM_OF_PIPE`, the stage after all work,
/// as the number that `as_raw` gives for it.
#[verifier::external_body]
pub(crate) fn stage_bottom_of_pipe() -> (raw: u32)
    ensures
        raw == 0x2000,
{
    vk::PipelineStageFlags::BOTTOM_OF_PIPE.as_raw()
}

/// `ash::vk::AccessFlags::SHADER_READ`, reads by shaders,
/// as the number that `as_raw` gives for it.
#[verifier::external_body]
pub(crate) fn access_shader_read() -> (raw: u32)
    ensures
        raw == 0x20,
{
    vk::AccessFlags::SHADER_READ.as_raw()
}

/// `ash::vk::AccessFlags::TRANSFER_WRITE`, writes by transfers,
/// as the number that `as_raw` gives for it.
#[verifier::external_body]
pub(crate) fn access_transfer_write() -> (raw: u32)
    ensures
        raw == 0x1000,
{
    vk::AccessFlags::TRANSFER_WRITE.as_raw()
}

/// `ash::vk::BufferUsageFlags::TRANSFER_SRC`, use as the source of a transfer,
/// as the number that `as_raw` gives for it.
#[verifier::external_body]
pub(crate) fn buffer_usage_transfer_src() -> (raw: u32)
    ensures
        raw == 0x1,
{
    vk::BufferUsageFlags::TRANSFER_SRC.as_raw()
}

/// `ash::vk::BufferUsageFlags::TRANSFER_DST`, use as the target of a transfer,
/// as the number that `as_raw` gives for it.
#[verifier::external_body]
pub(crate) fn buffer_usage_transfer_dst() -> (raw: u32)
    ensures
        raw == 0x2,
{
    vk::BufferUsageFlags::TRANSFER_DST.as_raw()
}

/// `ash::vk::BufferUsageFlags::UNIFORM_BUFFER`, use as a uniform buffer,
/// as the number that `as_raw` gives for it.
#[verifier::external_body]
pub(crate) fn buffer_usage_uniform() -> (raw: u32)
    ensures
        raw == 0x10,
{
    vk::BufferUsageFlags::UNIFORM_BUFFER.as_raw()
}

/// `ash::vk::BufferUsageFlags::STORAGE_BUFFER`, use as a storage buffer,
/// as the number that `as_raw` gives for it.
#[verifier::external_body]
pub(crate) fn buffer_usage_storage() -> (raw: u32)
    ensures
        raw == 0x20,
{
    vk::BufferUsageFlags::STORAGE_BUFFER.as_raw()
}

/// `ash::vk::BufferUsageFlags::INDEX_BUFFER`, use as an index buffer,
/// as the number that `as_raw` gives for it.
#[verifier::external_body]
pub(crate) fn buffer_usage_index() -> (raw: u32)
    ensures
        raw == 0x40,
{
    vk::BufferUsageFlags::INDEX_BUFFER.as_raw()
}

/// `ash::vk::BufferUsageFlags::VERTEX_BUFFER`, use as a vertex buffer,
/// as the number that `as_raw` gives for it.
#[verifier::external_body]
pub(crate) fn buffer_usage_vertex() -> (raw: u32)
    ensures
        raw == 0x80,
{
    vk::BufferUsageFlags::VERTEX_BUFFER.as_raw()
}

/// `ash::vk::BufferUsageFlags::SHADER_DEVICE_ADDRESS`, use through its device address,
/// as the number that `as_raw` gives for it.
#[verifier::external_body]
pub(crate) fn buffer_usage_device_address() -> (raw: u32)
    ensures
        raw == 0x20000,
{
    vk::BufferUsageFlags::SHADER_DEVICE_ADDRESS.as_raw()
}

/// `ash::vk::BufferUsageFlags::ACCELERATION_STRUCTURE_BUILD_INPUT_READ_ONLY_KHR`,
/// use as read-only input to an acceleration-structure build,
/// as the number that `as_raw` gives for it.
#[verifier::external_body]
pub(crate) fn buffer_usage_acceleration_input() -> (raw: u32)
    ensures
        raw == 0x80000,
{
    vk::BufferUsageFlags::ACCELERATION_STRUCTURE_BUILD_INPUT_READ_ONLY_KHR.as_raw()
}

/// `ash::vk::DescriptorType::UNIFORM_BUFFER`, the uniform-buffer descriptor type,
/// as the number that `as_raw` gives for it.
#[verifier::external_body]
pub(crate) fn descriptor_uniform_buffer() -> (raw: i32)
    ensures
        raw == 6,
{
    vk::DescriptorType::UNIFORM_BUFFER.as_raw()
}

/// `ash::vk::DescriptorType::COMBINED_IMAGE_SAMPLER`, the descriptor type of an image with its sampler,
/// as the number that `as_raw` gives for it.
#[verifier::external_body]
pub(crate) fn descriptor_combined_image_sampler() -> (raw: i32)
    ensures
        raw == 1,
{
    vk::DescriptorType::COMBINED_IMAGE_SAMPLER.as_raw()
}

/// `ash::vk::ShaderStageFlags::VERTEX`, the vertex shader stage,
/// as the number that `as_raw` gives for it.
#[verifier::external_body]
pub(crate) fn shader_stage_vertex() -> (raw: u32)
    ensures
        raw == 0x1,
{
    vk::ShaderStageFlags::VERTEX.as_raw()
}

/// `ash::vk::ShaderStageFlags::FRAGMENT`, the fragment shader stage,
/// as the number that `as_raw` gives for it.
#[verifier::external_body]
pub(crate) fn shader_stage_fragment() -> (raw: u32)
    ensures
        raw == 0x10,
{
    vk::ShaderStageFlags::FRAGMENT.as_raw()
}

/// `ash::vk::ShaderStageFlags::RAYGEN_KHR`, the ray-generation shader stage,
/// as the number that `as_raw` gives for it.
#[verifier::external_body]
pub(crate) fn shader_stage_raygen() -> (raw: u32)
    ensures
        raw == 0x100,
{
    vk::ShaderStageFlags::RAYGEN_KHR.as_raw()
}

/// `ash::vk::ShaderStageFlags::CLOSEST_HIT_KHR`, the closest-hit shader stage,
/// as the number that `as_raw` gives for it.
#[verifier::external_body]
pub(crate) fn shader_stage_closest_hit() -> (raw: u32)
    ensures
        raw == 0x400,
{
    vk::ShaderStageFlags::CLOSEST_HIT_KHR.as_raw()
}

/// `ash::vk::Filter::LINEAR`, filtering that blends neighbouring texels,
/// as the number that `as_raw` gives for it.
#[verifier::external_body]
pub(crate) fn filter_linear() -> (raw: i32)
    ensures
        raw == 1,
{
    vk::Filter::LINEAR.as_raw()
}

/// `ash::vk::SamplerMipmapMode::LINEAR`, blending between mip levels,
/// as the number that `as_raw` gives for it.
#[verifier::external_body]
pub(crate) fn mipmap_linear() -> (raw: i32)
    ensures
        raw == 1,
{
    vk::SamplerMipmapMode::LINEAR.as_raw()
}

/// `ash::vk::SamplerAddressMode::REPEAT`, coordinates that wrap around,
/// as the number that `as_raw` gives for it.
#[verifier::external_body]
pub(crate) fn address_repeat() -> (raw: i32)
    ensures
        raw == 0,
{
    vk::SamplerAddressMode::REPEAT.as_raw()
}

/// `ash::vk::CompareOp::ALWAYS`, the comparison that always passes,
/// as the number that `as_raw` gives for it.
#[verifier::external_body]
pub(crate) fn compare_always() -> (raw: i32)
    ensures
        raw == 7,
{
    vk::CompareOp::ALWAYS.as_raw()
}

/// `ash::vk::DescriptorBindingFlags::PARTIALLY_BOUND`, a binding whose unused slots may stay unbound,
/// as the number that `as_raw` gives for it.
#[verifier::external_body]
pub(crate) fn binding_partially_bound() -> (raw: u32)
    ensures
        raw == 0x4,
{
    vk::DescriptorBindingFlags::PARTIALLY_BOUND.as_raw()
}

/// `ash::vk::AttachmentLoadOp::CLEAR`, an attachment that is cleared when the pass begins,
/// as the number that `as_raw` gives for it.
#[verifier::external_body]
pub(crate) fn load_op_clear() -> (raw: i32)
    ensures
        raw == 1,
{
    vk::AttachmentLoadOp::CLEAR.as_raw()
}

/// `ash::vk::AttachmentLoadOp::DONT_CARE`, an attachment whose old contents do not matter,
/// as the number that `as_raw` gives for it.
#[verifier::external_body]
pub(crate) fn load_op_dont_care() -> (raw: i32)
    ensures
        raw == 2,
{
    vk::AttachmentLoadOp::DONT_CARE.as_raw()
}

/// `ash::vk::AttachmentStoreOp::STORE`, an attachment whose contents are kept when the pass ends,
/// as the number that `as_raw` gives for it.
#[verifier::external_body]
pub(crate) fn store_op_store() -> (raw: i32)
    ensures
        raw == 0,
{
    vk::AttachmentStoreOp::STORE.as_raw()
}

/// `ash::vk::AttachmentStoreOp::DONT_CARE`, an attachment whose contents need not be kept,
/// as the number that `as_raw` gives for it.
#[verifier::external_body]
pub(crate) fn store_op_dont_care() -> (raw: i32)
    ensures
        raw == 1,
{
    vk::AttachmentStoreOp::DONT_CARE.as_raw()
}

/// `ash::vk::ImageLayout::PRESENT_SRC_KHR`, the layout of an image that is presented,
/// as the number that `as_raw` gives for it.
#[verifier::external_body]
pub(crate) fn layout_present_src() -> (raw: i32)
    ensures
        raw == 1000001002,
{
    vk::ImageLayout::PRESENT_SRC_KHR.as_raw()
}

/// `ash::vk::ImageLayout::COLOR_ATTACHMENT_OPTIMAL`, the layout of a color attachment,
/// as the number that `as_raw` gives for it.
#[verifier::external_body]
pub(crate) fn layout_color_attachment() -> (raw: i32)
    ensures
        raw == 2,
{
    vk::ImageLayout::COLOR_ATTACHMENT_OPTIMAL.as_raw()
}

/// `ash::vk::ImageLayout::DEPTH_STENCIL_ATTACHMENT_OPTIMAL`, the layout of a depth or stencil attachment,
/// as the number that `as_raw` gives for it.
#[verifier::external_body]
pub(crate) fn layout_depth_stencil_attachment() -> (raw: i32)
    ensures
        raw == 3,
{
    vk::ImageLayout::DEPTH_STENCIL_ATTACHMENT_OPTIMAL.as_raw()
}

/// `ash::vk::AccessFlags::COLOR_ATTACHMENT_WRITE`, writes to color attachments,
/// as the number that `as_raw` gives for it.
#[verifier::external_body]
pub(crate) fn access_color_attachment_write() -> (raw: u32)
    ensures
        raw == 0x100,
{
    vk::AccessFlags::COLOR_ATTACHMENT_WRITE.as_raw()
}

/// `ash::vk::SUBPASS_EXTERNAL`: all 32 bits set.
#[verifier::external_body]
pub(crate) fn subpass_external() -> (raw: u32)
    ensures
        raw == 0xffff_ffff,
{
    vk::SUBPASS_EXTERNAL
}

/// `ash::vk::IndexType::UINT32`, indices of 32 bits,
/// as the number that `as_raw` gives for it.
#[verifier::external_body]
pub(crate) fn index_type_uint32() -> (raw: i32)
    ensures
        raw == 1,
{
    vk::IndexType::UINT32.as_raw()
}

/// `ash::vk::QUEUE_FAMILY_IGNORED`: all 32 bits set.
#[verifier::external_body]
pub(crate) fn queue_family_ignored() -> (raw: u32)
    ensures
        raw == 0xffff_ffff,
{
    vk::QUEUE_FAMILY_IGNORED
}

/// `ash::vk::WHOLE_SIZE`: all 64 bits set.
#[verifier::external_body]
pub(crate) fn whole_size() -> (raw: u64)
    ensures
        raw == 0xffff_ffff_ffff_ffff,
{
    vk::WHOLE_SIZE
}

} // verus!
