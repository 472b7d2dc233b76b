use vstd::prelude::*;
use crate::context::SurfaceFormat;
use crate::image::BarrierInfo;

verus! {

/// The number under which the device ledger knows an object: its position
/// in the order of creation.
pub type Handle = usize;

/// Width and height of a surface or an image, in pixels.
#[derive(Clone, Copy, Debug, PartialEq, Eq, Structural)]
pub struct Extent2D {
    pub width: u32,
    pub height: u32,
}

/// Width, height and depth of an image, in texels.
#[derive(Clone, Copy, Debug, PartialEq, Eq, Structural)]
pub struct Extent3D {
    pub width: u32,
    pub height: u32,
    pub depth: u32,
}

impl Extent2D {
    /// The same area, one texel deep.
    pub fn into_3d(self) -> (e: Extent3D)
        ensures
            e == (Extent3D { width: self.width, height: self.height, depth: 1 }),
    {
        Extent3D { width: self.width, height: self.height, depth: 1 }
    }
}

/// Where the memory behind a resource lives.
#[derive(Clone, Copy, Debug, PartialEq, Eq, Structural)]
pub enum Location {
    /// Device-local only: the host cannot map it.
    GpuOnly,
    /// Host-visible and coherent, for uploads.
    CpuToGpu,
    /// Host-visible and coherent, for readback.
    GpuToCpu,
}

impl Location {
    pub open spec fn spec_host_visible(self) -> bool {
        self != Location::GpuOnly
    }

    /// Whether the host can write into memory at this location.
    #[verifier::when_used_as_spec(spec_host_visible)]
    pub fn host_visible(self) -> (visible: bool)
        ensures
            visible == self.spec_host_visible(),
    {
        match self {
            Location::GpuOnly => false,
            Location::CpuToGpu => true,
            Location::GpuToCpu => true,
        }
    }
}

/// What a buffer is created with. `usage` and `sharing_mode` are the
/// device's raw values.
#[derive(Clone, Copy, Debug, PartialEq, Eq, Structural)]
pub struct BufferInfo {
    pub size: u64,
    pub usage: u32,
    pub sharing_mode: i32,
}

/// What an image is created with, every field as the device's raw value.
#[derive(Clone, Copy, Debug, PartialEq, Eq, Structural)]
pub struct ImageInfo {
    pub flags: u32,
    pub image_type: i32,
    pub format: i32,
    pub extent: Extent3D,
    pub mip_levels: u32,
    pub array_layers: u32,
    pub samples: u32,
    pub tiling: i32,
    pub usage: u32,
    pub sharing_mode: i32,
    pub initial_layout: i32,
}

/// The part of an image that a view or a barrier covers.
#[derive(Clone, Copy, Debug, PartialEq, Eq, Structural)]
pub struct SubresourceRange {
    pub aspect_mask: u32,
    pub base_mip_level: u32,
    pub level_count: u32,
    pub base_array_layer: u32,
    pub layer_count: u32,
}

/// How a sampler reads a texture, as the device's raw values. The
/// limit of anisotropy is the device's own.
#[derive(Clone, Copy, Debug, PartialEq, Eq, Structural)]
pub struct SamplerInfo {
    pub mag_filter: i32,
    pub min_filter: i32,
    pub mipmap_mode: i32,
    pub address_mode_u: i32,
    pub address_mode_v: i32,
    pub address_mode_w: i32,
    pub anisotropy_enable: bool,
    pub unnormalized_coordinates: bool,
    pub compare_enable: bool,
    pub compare_op: i32,
}

/// One attachment of a render pass: its format, its samples, what is
/// done with its contents when the pass begins and ends, and the
/// layouts it comes and goes in, as the device's numbers.
#[derive(Clone, Copy, Debug, PartialEq, Eq, Structural)]
pub struct Attachment {
    pub format: i32,
    pub samples: u32,
    pub load_op: i32,
    pub store_op: i32,
    pub stencil_load_op: i32,
    pub stencil_store_op: i32,
    pub initial_layout: i32,
    pub final_layout: i32,
}

/// The use of attachment number `attachment` in a subpass, in `layout`.
#[derive(Clone, Copy, Debug, PartialEq, Eq, Structural)]
pub struct AttachmentReference {
    pub attachment: u32,
    pub layout: i32,
}

/// What a subpass waits for: the stages and accesses of subpass
/// `src_subpass` that come before those of `dst_subpass`.
#[derive(Clone, Copy, Debug, PartialEq, Eq, Structural)]
pub struct SubpassDependency {
    pub src_subpass: u32,
    pub dst_subpass: u32,
    pub src_stage_mask: u32,
    pub dst_stage_mask: u32,
    pub src_access_mask: u32,
    pub dst_access_mask: u32,
}

/// A render pass of one graphics subpass: its attachments, which of
/// them the subpass writes color to, which it uses for depth if any,
/// and what the subpass waits for.
#[derive(Clone, Debug, PartialEq, Eq)]
pub struct RenderPassInfo {
    pub attachments: Vec<Attachment>,
    pub color: AttachmentReference,
    pub depth: Option<AttachmentReference>,
    pub dependency: SubpassDependency,
}

/// A `RenderPassInfo` as a mathematical value.
pub struct RenderPassInfoView {
    pub attachments: Seq<Attachment>,
    pub color: AttachmentReference,
    pub depth: Option<AttachmentReference>,
    pub dependency: SubpassDependency,
}

impl View for RenderPassInfo {
    type V = RenderPassInfoView;

    open spec fn view(&self) -> RenderPassInfoView {
        RenderPassInfoView {
            attachments: self.attachments@,
            color: self.color,
            depth: self.depth,
            dependency: self.dependency,
        }
    }
}

/// One slot of a binding table's layout.
#[derive(Clone, Copy, Debug, PartialEq, Eq, Structural)]
pub struct LayoutBinding {
    pub binding: u32,
    pub descriptor_type: i32,
    pub descriptor_count: u32,
    pub stage_flags: u32,
    pub binding_flags: u32,
}

/// How many descriptors of one type a pool holds.
#[derive(Clone, Copy, Debug, PartialEq, Eq, Structural)]
pub struct PoolSize {
    pub descriptor_type: i32,
    pub descriptor_count: u32,
}

/// An image view with the sampler and the layout it is read through.
#[derive(Clone, Copy, Debug, PartialEq, Eq, Structural)]
pub struct ImageBinding {
    pub view: Handle,
    pub layout: i32,
    pub sampler: Handle,
}

/// One write into a descriptor set.
#[derive(Clone, Debug, PartialEq, Eq)]
pub enum DescriptorWrite {
    /// Binds `range` bytes of `buffer`, from `offset` on.
    Buffer { set: Handle, binding: u32, descriptor_type: i32, buffer: Handle, offset: u64, range: u64 },
    /// Binds `images` to the array that starts at element 0 of `binding`.
    Images { set: Handle, binding: u32, descriptor_type: i32, images: Vec<ImageBinding> },
}

/// A `DescriptorWrite` as a mathematical value.
pub enum DescriptorWriteView {
    Buffer { set: Handle, binding: u32, descriptor_type: i32, buffer: Handle, offset: u64, range: u64 },
    Images { set: Handle, binding: u32, descriptor_type: i32, images: Seq<ImageBinding> },
}

impl View for DescriptorWrite {
    type V = DescriptorWriteView;

    open spec fn view(&self) -> DescriptorWriteView {
        match *self {
            DescriptorWrite::Buffer { set, binding, descriptor_type, buffer, offset, range } =>
                DescriptorWriteView::Buffer { set, binding, descriptor_type, buffer, offset, range },
            DescriptorWrite::Images { set, binding, descriptor_type, images } =>
                DescriptorWriteView::Images { set, binding, descriptor_type, images: images@ },
        }
    }
}

/// The views of a list of writes, in order.
pub open spec fn writes_view(writes: Seq<DescriptorWrite>) -> Seq<DescriptorWriteView> {
    Seq::new(writes.len(), |i: int| writes[i]@)
}

/// A request to the device whose arguments are all scalars or handles.
/// Handles of objects that the request creates are chosen by the ledger
/// before the request is made; the program that carries the request out
/// keeps the table from these handles to the device's own.
#[allow(inconsistent_fields)]
#[derive(Clone, Copy, Debug, PartialEq, Eq, Structural)]
pub enum Op {
    CreateBuffer { buffer: Handle, info: BufferInfo },
    DestroyBuffer { buffer: Handle },
    CreateImage { image: Handle, info: ImageInfo },
    DestroyImage { image: Handle },
    CreateImageView { view: Handle, image: Handle, view_type: i32, format: i32, range: SubresourceRange },
    DestroyImageView { view: Handle },
    /// Asks the device what memory `buffer` needs and takes that much
    /// from the allocator, at `location`.
    AllocateBufferMemory { memory: Handle, buffer: Handle, location: Location, linear: bool },
    /// Asks the device what memory `image` needs and takes that much
    /// from the allocator, at `location`.
    AllocateImageMemory { memory: Handle, image: Handle, location: Location, linear: bool },
    BindBufferMemory { buffer: Handle, memory: Handle },
    BindImageMemory { image: Handle, memory: Handle },
    FreeMemory { memory: Handle },
    /// Writes the device addresses of three buffers, in this order, to
    /// the start of mapped memory.
    WriteDeviceAddresses { memory: Handle, indices: Handle, vertices: Handle, primitives: Handle },
    CreateSampler { sampler: Handle, info: SamplerInfo },
    DestroySampler { sampler: Handle },
    CreateCommandPool { pool: Handle, queue_family: u32 },
    ResetCommandPool { pool: Handle },
    DestroyCommandPool { pool: Handle },
    AllocateCommandBuffer { commands: Handle, pool: Handle },
    FreeCommandBuffer { commands: Handle, pool: Handle },
    BeginCommandBuffer { commands: Handle, one_time_submit: bool },
    EndCommandBuffer { commands: Handle },
    CmdPipelineBarrier {
        commands: Handle,
        image: Handle,
        from: BarrierInfo,
        to: BarrierInfo,
        src_queue_family: u32,
        dst_queue_family: u32,
        range: SubresourceRange,
    },
    CmdCopyBuffer { commands: Handle, src: Handle, dst: Handle, size: u64 },
    CmdCopyBufferToImage {
        commands: Handle,
        src: Handle,
        dst: Handle,
        layout: i32,
        extent: Extent3D,
        aspect_mask: u32,
        mip_level: u32,
        base_array_layer: u32,
        layer_count: u32,
    },
    /// Begins a run of `render_pass` over the whole of `framebuffer`,
    /// which is cleared first, with viewport and scissor over all of `extent`.
    CmdBeginRenderPass { commands: Handle, render_pass: Handle, framebuffer: Handle, extent: Extent2D },
    /// Binds `pipeline` for graphics work.
    CmdBindPipeline { commands: Handle, pipeline: Handle },
    /// Binds `buffer`, from `offset` on, as the first vertex buffer.
    CmdBindVertexBuffer { commands: Handle, buffer: Handle, offset: u64 },
    /// Binds `buffer`, from `offset` on, as the index buffer, with
    /// indices of the width that `index_type` names.
    CmdBindIndexBuffer { commands: Handle, buffer: Handle, offset: u64, index_type: i32 },
    /// Binds `descriptor_set` as set 0 of graphics work under `layout`.
    CmdBindDescriptorSet { commands: Handle, layout: Handle, descriptor_set: Handle },
    CmdDrawIndexed {
        commands: Handle,
        index_count: u32,
        instance_count: u32,
        first_index: u32,
        vertex_offset: i32,
        first_instance: u32,
    },
    CmdEndRenderPass { commands: Handle },
    CreatePipelineLayout { layout: Handle, set_layout: Handle },
    DestroyPipelineLayout { layout: Handle },
    /// Creates the graphics pipeline of a pass that draws one
    /// triangle over the whole target.
    CreateGraphicsPipeline { pipeline: Handle, layout: Handle, render_pass: Handle },
    DestroyPipeline { pipeline: Handle },
    /// Records a run of `render_pass` over the whole of `framebuffer`
    /// in which `pipeline`, with `descriptor_set` bound, draws one
    /// triangle that covers the target.
    CmdRunPass {
        commands: Handle,
        render_pass: Handle,
        framebuffer: Handle,
        pipeline: Handle,
        layout: Handle,
        descriptor_set: Handle,
        extent: Extent2D,
    },
    CreateFence { fence: Handle, signaled: bool },
    /// Blocks until `fence` is signaled, without a time limit.
    WaitForFence { fence: Handle },
    ResetFence { fence: Handle },
    DestroyFence { fence: Handle },
    CreateSemaphore { semaphore: Handle },
    DestroySemaphore { semaphore: Handle },
    QueueSubmit {
        queue_family: u32,
        commands: Handle,
        wait: Option<Handle>,
        wait_stage: u32,
        signal: Option<Handle>,
        fence: Handle,
    },
    DestroyDescriptorPool { pool: Handle },
    DestroyDescriptorSetLayout { layout: Handle },
    /// Allocates `count` sets of `layout` from `pool`; they get the
    /// handles `first_set`, `first_set + 1`, and so on.
    AllocateDescriptorSets { pool: Handle, layout: Handle, first_set: Handle, count: u32 },
    CreateSwapchain { swapchain: Handle, format: SurfaceFormat, extent: Extent2D, image_count: u32 },
    /// Gives presentable image number `index` of `swapchain` the handle `image`.
    GetSwapchainImage { swapchain: Handle, index: u32, image: Handle },
    DestroySwapchain { swapchain: Handle },
    DestroyRenderPass { render_pass: Handle },
    /// Creates a framebuffer of `render_pass` over the view `color`
    /// and, where the pass has a depth attachment, the view `depth`.
    CreateFramebuffer {
        framebuffer: Handle,
        render_pass: Handle,
        color: Handle,
        depth: Option<Handle>,
        extent: Extent2D,
    },
    DestroyFramebuffer { framebuffer: Handle },
    /// Asks for the next presentable image; `signal` is signaled when it is ready.
    AcquireNextImage { swapchain: Handle, signal: Handle },
    /// Presents image `image_index` once `wait` is signaled.
    QueuePresent { queue_family: u32, swapchain: Handle, image_index: u32, wait: Handle },
}

/// A request to the device.
#[derive(Clone, Debug, PartialEq, Eq)]
pub enum Call {
    Op(Op),
    /// Copies `data` to the start of mapped memory.
    WriteMemory { memory: Handle, data: Vec<u8> },
    CreateDescriptorSetLayout { layout: Handle, bindings: Vec<LayoutBinding> },
    CreateDescriptorPool { pool: Handle, sizes: Vec<PoolSize>, max_sets: u32 },
    /// One batch of writes into descriptor sets.
    UpdateDescriptorSets { writes: Vec<DescriptorWrite> },
    CreateRenderPass { render_pass: Handle, info: RenderPassInfo },
}

/// A `Call` as a mathematical value.
pub enum CallView {
    Op(Op),
    WriteMemory { memory: Handle, data: Seq<u8> },
    CreateDescriptorSetLayout { layout: Handle, bindings: Seq<LayoutBinding> },
    CreateDescriptorPool { pool: Handle, sizes: Seq<PoolSize>, max_sets: u32 },
    UpdateDescriptorSets { writes: Seq<DescriptorWriteView> },
    CreateRenderPass { render_pass: Handle, info: RenderPassInfoView },
}

impl View for Call {
    type V = CallView;

    open spec fn view(&self) -> CallView {
        match *self {
            Call::Op(op) => CallView::Op(op),
            Call::WriteMemory { memory, data } => CallView::WriteMemory { memory, data: data@ },
            Call::CreateDescriptorSetLayout { layout, bindings } =>
                CallView::CreateDescriptorSetLayout { layout, bindings: bindings@ },
            Call::CreateDescriptorPool { pool, sizes, max_sets } =>
                CallView::CreateDescriptorPool { pool, sizes: sizes@, max_sets },
            Call::UpdateDescriptorSets { writes } =>
                CallView::UpdateDescriptorSets { writes: writes_view(writes@) },
            Call::CreateRenderPass { render_pass, info } => CallView::CreateRenderPass { render_pass, info: info@ },
        }
    }
}

/// The views of a list of calls, in order.
pub open spec fn calls_view(calls: Seq<Call>) -> Seq<CallView> {
    Seq::new(calls.len(), |i: int| calls[i]@)
}

} // verus!
