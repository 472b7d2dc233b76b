use vstd::prelude::*;
use vstd::slice::slice_to_vec;
use crate::buffer::{Buffer, buffer_create_calls, staged_buffer, staged_objects, staged_upload_calls, staging_buffer};
use crate::call::{
    BufferInfo, Call, CallView, DescriptorWrite, DescriptorWriteView, Extent2D, Handle, ImageBinding, LayoutBinding,
    Location, Op, PoolSize, writes_view,
};
use crate::codes;
use crate::context::{Context, Queue, SurfaceConfig};
use crate::descriptors::{Descriptors, descriptor_calls, descriptor_objects};
use crate::frame::{Event, FrameState, Phase, lemma_count_cleared};
use crate::image::{Image, RgbaImage};
use crate::ledger::{
    Kind, Object, all_within, fresh, lemma_all_within_concat, lemma_concat_assoc, lemma_growth_unchanged,
    lemma_retire_all, lemma_retire_all_concat, lemma_retire_outside, lemma_unchanged_twice, retire_all,
    unchanged_within,
};
use crate::sampler::Sampler;
use crate::pass::{describe_render_pass, render_pass_description};
use crate::scene::{Texture, encodes, index_bytes, texture_at, texture_calls, texture_objects};
use crate::scope::{
    Commands, OneshotScope, Resource, begin_calls, end_calls, lemma_scope_survives_growth, owned_handles, submit_calls,
    teardown_calls,
};
use crate::swapchain::{
    Swapchain, lemma_targets_member, presentable, swapchain_create_calls, swapchain_objects, targets_handles,
};
use crate::sync_state::{SyncState, ring_create_calls, ring_objects, wait_all_calls};
use crate::tonemap::Pipeline;
use crate::uniforms::{Uniforms, uniforms_info};

verus! {

/// Why a frame did not reach the screen.
#[derive(Clone, Copy, Debug, PartialEq, Eq, Structural)]
pub enum Error {
    /// The surface is stale: its configuration must be recreated.
    NeedsRecreating,
}

/// What is drawn, as the host holds it: the vertices as bytes, the
/// indices, and the picture of the texture.
#[derive(Clone, Debug, PartialEq, Eq)]
pub struct Model {
    pub vertices: Vec<u8>,
    pub indices: Vec<u32>,
    pub texture: RgbaImage,
}

impl Model {
    /// The picture has four bytes for each pixel, and the indices can
    /// be counted in 32 bits.
    pub open spec fn wf(&self) -> bool {
        self.texture.wf() && self.indices@.len() <= u32::MAX
    }

    /// Whether the picture is whole and the indices can be counted in 32 bits.
    pub fn is_wf(&self) -> (ok: bool)
        ensures
            ok == self.wf(),
    {
        self.texture.is_wf() && self.indices.len() <= u32::MAX as usize
    }

    /// How many bytes the vertices take: where the indices begin in
    /// the buffer that holds both.
    pub fn vertex_data_size(&self) -> (size: u64)
        ensures
            size == self.vertices@.len(),
    {
        self.vertices.len() as u64
    }
}

/// The frame loop with what it draws: the render pass, the pipeline
/// with its layout, the binding table, the model, a command pool and
/// command buffer for each presentable image, the buffer of vertices
/// and indices, the texture, the uniform buffer, the ring of
/// synchronization objects, and the swapchain.
#[derive(Debug)]
pub struct Renderer {
    pub pass: Handle,
    pub pipeline: Handle,
    pub layout: Handle,
    pub descriptors: Descriptors,
    pub model: Model,
    pub command_pools: Vec<Handle>,
    pub command_buffers: Vec<Handle>,
    pub vertex_index_buffer: Buffer,
    pub texture: Texture,
    pub uniforms: Uniforms,
    pub state: SyncState,
    pub swapchain: Swapchain,
    pub phase: Phase,
    pub needs_recreating: bool,
}

/// The ledger entries of `n` command pools and their `n` command buffers.
pub open spec fn pools_objects(n: nat) -> Seq<Object> {
    Seq::new(n, |i: int| fresh(Kind::CommandPool)) + Seq::new(n, |i: int| fresh(Kind::CommandBuffer))
}

/// The requests that create `n` command pools for queue family
/// `family` (handles from `first` on) and then take one command
/// buffer from each (handles from `first + n` on).
pub open spec fn pools_create_calls(first: Handle, family: u32, n: nat) -> Seq<CallView> {
    Seq::new(
        n,
        |i: int| CallView::Op(Op::CreateCommandPool { pool: (first + i) as Handle, queue_family: family }),
    ) + Seq::new(
        n,
        |i: int|
            CallView::Op(
                Op::AllocateCommandBuffer { commands: (first + n + i) as Handle, pool: (first + i) as Handle },
            ),
    )
}

/// The requests that destroy the first `n` of `pools`; the command
/// buffers go with their pools.
pub open spec fn pools_destroy_calls(pools: Seq<Handle>, n: nat) -> Seq<CallView> {
    Seq::new(n, |i: int| CallView::Op(Op::DestroyCommandPool { pool: pools[i] }))
}

/// The ledger entries that the first `n` pools and their command
/// buffers are: for each pool its command buffer, then the pool.
pub open spec fn pools_handles(pools: Seq<Handle>, buffers: Seq<Handle>, n: nat) -> Seq<Handle>
    decreases n,
{
    if n == 0 {
        Seq::empty()
    } else {
        let i = (n - 1) as int;
        pools_handles(pools, buffers, i as nat) + seq![buffers[i], pools[i]]
    }
}

/// The layout of the renderer's binding table: at binding 0 the inputs
/// of the frame, a uniform buffer (type 6) for the vertex stage (0x1);
/// at binding 1 the texture, an image with its sampler (type 1) for
/// the fragment stage (0x10).
pub open spec fn renderer_bindings() -> Seq<LayoutBinding> {
    seq![
        LayoutBinding { binding: 0, descriptor_type: 6, descriptor_count: 1, stage_flags: 0x1, binding_flags: 0 },
        LayoutBinding { binding: 1, descriptor_type: 1, descriptor_count: 1, stage_flags: 0x10, binding_flags: 0 },
    ]
}

/// What the pool of the renderer's binding table holds: one uniform
/// buffer and one image with its sampler.
pub open spec fn renderer_pool_sizes() -> Seq<PoolSize> {
    seq![
        PoolSize { descriptor_type: 6, descriptor_count: 1 },
        PoolSize { descriptor_type: 1, descriptor_count: 1 },
    ]
}

/// The writes that fill `set`: the whole (range: all 64 bits set) of
/// the uniform buffer at binding 0, and at binding 1 the texture, read
/// by shaders (layout 5) through its sampler.
pub open spec fn renderer_writes(set: Handle, uniforms: Handle, view: Handle, sampler: Handle) -> Seq<
    DescriptorWriteView,
> {
    seq![
        DescriptorWriteView::Buffer {
            set,
            binding: 0,
            descriptor_type: 6,
            buffer: uniforms,
            offset: 0,
            range: 0xffff_ffff_ffff_ffff,
        },
        DescriptorWriteView::Images {
            set,
            binding: 1,
            descriptor_type: 1,
            images: seq![ImageBinding { view, layout: 5, sampler }],
        },
    ]
}

/// The requests that fill each of `sets`: one batch of writes for each.
pub open spec fn renderer_bind_calls(sets: Seq<Handle>, uniforms: Handle, view: Handle, sampler: Handle) -> Seq<
    CallView,
> {
    Seq::new(
        sets.len(),
        |i: int| CallView::UpdateDescriptorSets { writes: renderer_writes(sets[i], uniforms, view, sampler) },
    )
}

/// What the buffer of vertices and indices is created with: use as
/// vertex buffer (0x80) and as index buffer (0x40).
pub open spec fn vertex_index_info() -> BufferInfo {
    BufferInfo { size: 0, usage: 0x80u32 | 0x40u32, sharing_mode: 0 }
}

/// The requests that record the draw work of a frame: the command
/// buffer is begun for one submission; the render pass is begun over
/// the framebuffer; pipeline, vertex buffer, index buffer and
/// descriptor set are bound, the indices, of 32 bits (type 1), from
/// `index_offset` on in the same buffer as the vertices; all
/// `index_count` indices are drawn once; the pass and the recording end.
pub open spec fn frame_recording(
    commands: Handle,
    render_pass: Handle,
    framebuffer: Handle,
    extent: Extent2D,
    pipeline: Handle,
    layout: Handle,
    buffer: Handle,
    index_offset: u64,
    descriptor_set: Handle,
    index_count: u32,
) -> Seq<CallView> {
    seq![
        CallView::Op(Op::BeginCommandBuffer { commands, one_time_submit: true }),
        CallView::Op(Op::CmdBeginRenderPass { commands, render_pass, framebuffer, extent }),
        CallView::Op(Op::CmdBindPipeline { commands, pipeline }),
        CallView::Op(Op::CmdBindVertexBuffer { commands, buffer, offset: 0 }),
        CallView::Op(Op::CmdBindIndexBuffer { commands, buffer, offset: index_offset, index_type: 1 }),
        CallView::Op(Op::CmdBindDescriptorSet { commands, layout, descriptor_set }),
        CallView::Op(
            Op::CmdDrawIndexed {
                commands,
                index_count,
                instance_count: 1,
                first_index: 0,
                vertex_offset: 0,
                first_instance: 0,
            },
        ),
        CallView::Op(Op::CmdEndRenderPass { commands }),
        CallView::Op(Op::EndCommandBuffer { commands }),
    ]
}

/// The ledger entries with which a renderer for `n` presentable images
/// begins: the render pass, the binding table with its one set, the
/// pipeline layout and the pipeline, and the command pools and buffers.
pub open spec fn static_objects(n: nat) -> Seq<Object> {
    seq![fresh(Kind::RenderPass)] + descriptor_objects(1) + seq![
        fresh(Kind::PipelineLayout),
        fresh(Kind::Pipeline),
    ] + pools_objects(n)
}

/// The requests with which a renderer begins, where `first` is the
/// first new handle: the render pass (`first`), the binding table
/// (layout `first + 1`, pool `first + 2`, set `first + 3`), the
/// pipeline layout (`first + 4`) and the pipeline (`first + 5`), and
/// the command pools and buffers (from `first + 6` on).
pub open spec fn static_calls(first: Handle, format: i32, family: u32, n: nat) -> Seq<CallView> {
    seq![CallView::CreateRenderPass { render_pass: first, info: render_pass_description(format, None) }]
        + descriptor_calls(
        (first + 1) as Handle,
        renderer_bindings(),
        renderer_pool_sizes(),
        1,
    ) + seq![
        CallView::Op(Op::CreatePipelineLayout { layout: (first + 4) as Handle, set_layout: (first + 1) as Handle }),
        CallView::Op(
            Op::CreateGraphicsPipeline {
                pipeline: (first + 5) as Handle,
                layout: (first + 4) as Handle,
                render_pass: first,
            },
        ),
    ] + pools_create_calls((first + 6) as Handle, family, n)
}

/// The ledger entries of what a renderer draws: the staged upload of
/// vertices and indices (4), the texture (6), and the uniform buffer
/// with its memory.
pub open spec fn content_objects() -> Seq<Object> {
    staged_objects() + texture_objects() + seq![fresh(Kind::Buffer), fresh(Kind::Memory)]
}

/// The requests that bring what a renderer draws to the device, where
/// `first` is the first new handle: the staged upload of `data`, the
/// vertices followed by the indices (from `first` on); the texture
/// made of `picture` (from `first + 4` on); the uniform buffer
/// (`first + 10`, memory `first + 11`); and the filling of `sets`.
pub open spec fn content_calls(
    commands: Handle,
    first: Handle,
    sets: Seq<Handle>,
    data: Seq<u8>,
    picture: RgbaImage,
    uniforms_size: u64,
) -> Seq<CallView> {
    staged_upload_calls(commands, first, vertex_index_info(), data) + texture_calls(
        commands,
        (first + 4) as Handle,
        picture,
    ) + buffer_create_calls(
        (first + 10) as Handle,
        (first + 11) as Handle,
        uniforms_info(uniforms_size),
        Location::CpuToGpu,
    ) + renderer_bind_calls(sets, (first + 10) as Handle, (first + 8) as Handle, (first + 9) as Handle)
}

/// The staging buffers that a renderer's uploads leave to the setup
/// scope, where `first` is the first handle of the uploads: that of
/// the `data` bytes of vertices and indices, and that of the picture.
pub open spec fn content_staging(first: Handle, data: nat, picture: RgbaImage) -> Seq<Resource> {
    seq![
        Resource::Buffer(staging_buffer(first, data)),
        Resource::Buffer(staging_buffer((first + 4) as Handle, picture.pixels@.len())),
    ]
}

/// The setup scope of `Renderer::create` for `n` presentable images,
/// where `first` is the first new handle: its pool has the handle
/// `first + 6 + 2 n`, its command buffer and its fence the two after.
pub open spec fn setup_first(first: Handle, n: nat) -> Handle {
    (first + 6 + 2 * n) as Handle
}

/// The ledger entries that `Renderer::create` makes for `n`
/// presentable images and `frames` frames in flight.
pub open spec fn renderer_objects(n: nat, frames: nat) -> Seq<Object> {
    static_objects(n) + seq![fresh(Kind::CommandPool), fresh(Kind::CommandBuffer), fresh(Kind::Fence)]
        + content_objects() + ring_objects(frames) + swapchain_objects(n)
}

/// The ledger entries that `Renderer::create` destroys again when it
/// finishes its setup scope, whose pool has the handle `setup`: what
/// the two staging buffers own, and the fence, the command buffer and
/// the pool of the scope.
pub open spec fn setup_retired(setup: Handle, data: nat, picture: RgbaImage) -> Seq<Handle> {
    owned_handles(content_staging((setup + 3) as Handle, data, picture)) + seq![
        (setup + 2) as Handle,
        (setup + 1) as Handle,
        setup,
    ]
}

/// The requests with which `Renderer::create` creates, where `first`
/// is the first new handle and `data` the bytes of vertices and
/// indices: what the renderer begins with; the start of the setup
/// scope on `queue`; the uploads, the uniform buffer and the filling
/// of the binding table; the ring; and the swapchain with its render targets.
pub open spec fn build_calls(
    first: Handle,
    config: SurfaceConfig,
    queue: Queue,
    frames: nat,
    data: Seq<u8>,
    picture: RgbaImage,
    uniforms_size: u64,
) -> Seq<CallView> {
    let n = config.image_count as nat;
    let setup = setup_first(first, n);
    let commands = Commands { pool: setup, buffer: (setup + 1) as Handle };
    let fence = (setup + 2) as Handle;
    static_calls(first, config.surface_format.format, queue.family_index, n) + begin_calls(commands, fence, queue)
        + content_calls(
        commands.buffer,
        (setup + 3) as Handle,
        seq![(first + 3) as Handle],
        data,
        picture,
        uniforms_size,
    ) + ring_create_calls((setup + 15) as Handle, frames) + swapchain_create_calls(
        (setup + 15 + 3 * frames) as Handle,
        first,
        None,
        config,
        n,
    )
}

/// The requests of `Renderer::create`: those with which it creates,
/// and, last of all, the end of the setup scope: its submission, the
/// wait for it, and the destruction of the staging buffers and of the
/// scope's own objects.
pub open spec fn renderer_calls(
    first: Handle,
    config: SurfaceConfig,
    queue: Queue,
    frames: nat,
    data: Seq<u8>,
    picture: RgbaImage,
    uniforms_size: u64,
) -> Seq<CallView> {
    let setup = setup_first(first, config.image_count as nat);
    let commands = Commands { pool: setup, buffer: (setup + 1) as Handle };
    let fence = (setup + 2) as Handle;
    build_calls(first, config, queue, frames, data, picture, uniforms_size) + (submit_calls(commands, fence, queue)
        + teardown_calls(content_staging((setup + 3) as Handle, data.len(), picture)) + end_calls(commands, fence))
}

/// Nothing of the setup scope whose pool has the handle `setup` is
/// live in `objects`: not its pool, its command buffer or its fence,
/// and neither of the two staging buffers with their memory.
pub open spec fn setup_gone(objects: Seq<Object>, setup: Handle) -> bool {
    &&& setup + 8 < objects.len()
    &&& !objects[setup as int].live
    &&& !objects[setup + 1].live
    &&& !objects[setup + 2].live
    &&& !objects[setup + 3].live
    &&& !objects[setup + 4].live
    &&& !objects[setup + 7].live
    &&& !objects[setup + 8].live
}

/// What the setup scope of `Renderer::create` destroys, one by one:
/// the two staging buffers with their memory, and the fence, the
/// command buffer and the pool of the scope.
pub proof fn lemma_setup_retired(setup: Handle, data: nat, picture: RgbaImage)
    requires
        setup + 9 <= usize::MAX,
    ensures
        setup_retired(setup, data, picture) == seq![
            (setup + 3) as Handle,
            (setup + 4) as Handle,
            (setup + 7) as Handle,
            (setup + 8) as Handle,
            (setup + 2) as Handle,
            (setup + 1) as Handle,
            setup,
        ],
{
    let staged = content_staging((setup + 3) as Handle, data, picture);
    let a = staged[0];
    let b = staged[1];
    assert(staged.drop_last() =~= seq![a]);
    assert(seq![a].drop_last() =~= Seq::<Resource>::empty());
    assert(owned_handles(Seq::<Resource>::empty()) =~= Seq::<Handle>::empty());
    assert(seq![a].last() == a);
    assert(staged.last() == b);
    assert(owned_handles(seq![a]) =~= a.handles());
    assert(owned_handles(staged) =~= a.handles() + b.handles());
    assert(setup_retired(setup, data, picture) =~= seq![
        (setup + 3) as Handle,
        (setup + 4) as Handle,
        (setup + 7) as Handle,
        (setup + 8) as Handle,
        (setup + 2) as Handle,
        (setup + 1) as Handle,
        setup,
    ]);
}

/// The handles of pools and command buffers that lie within a range lie within it.
pub proof fn lemma_pools_within(pools: Seq<Handle>, buffers: Seq<Handle>, n: nat, lo: int, hi: int)
    requires
        n <= pools.len(),
        n <= buffers.len(),
        forall|i: int| 0 <= i < pools.len() ==> lo <= #[trigger] pools[i] < hi,
        forall|i: int| 0 <= i < buffers.len() ==> lo <= #[trigger] buffers[i] < hi,
    ensures
        all_within(pools_handles(pools, buffers, n), lo, hi),
    decreases n,
{
    if n > 0 {
        let i = (n - 1) as int;
        lemma_pools_within(pools, buffers, i as nat, lo, hi);
        lemma_all_within_concat(pools_handles(pools, buffers, i as nat), seq![buffers[i], pools[i]], lo, hi);
    }
}

/// What `n` live pools with their command buffers are in the ledger:
/// command buffers and command pools.
pub proof fn lemma_pools_kinds(
    pools: Seq<Handle>,
    buffers: Seq<Handle>,
    ctx: Context,
    n: nat,
    k: int,
)
    requires
        n <= pools.len(),
        n <= buffers.len(),
        forall|i: int| 0 <= i < pools.len() ==> ctx.live(#[trigger] pools[i], Kind::CommandPool),
        forall|i: int| 0 <= i < buffers.len() ==> ctx.live(#[trigger] buffers[i], Kind::CommandBuffer),
        0 <= k < pools_handles(pools, buffers, n).len(),
    ensures
        pools_handles(pools, buffers, n)[k] < ctx.objects().len(),
        ({
            let kind = ctx.objects()[pools_handles(pools, buffers, n)[k] as int].kind;
            kind == Kind::CommandBuffer || kind == Kind::CommandPool
        }),
    decreases n,
{
    let i = (n - 1) as int;
    let init = pools_handles(pools, buffers, i as nat);
    if k < init.len() {
        lemma_pools_kinds(pools, buffers, ctx, i as nat, k);
    } else {
        assert(ctx.live(pools[i], Kind::CommandPool));
        assert(ctx.live(buffers[i], Kind::CommandBuffer));
    }
}

impl Renderer {
    /// The frame loop as a mathematical value.
    pub open spec fn view(&self) -> FrameState {
        FrameState {
            phase: self.phase,
            stale: self.needs_recreating,
            slot: self.state.current_frame as int,
            pending: self.state.pending@,
        }
    }

    /// The texture shares neither its image nor its view with the swapchain.
    pub open spec fn texture_apart(&self) -> bool {
        forall|i: int| 0 <= i < self.swapchain.images@.len() ==> {
            &&& (#[trigger] self.swapchain.images@[i]).view != self.texture.image.view
            &&& self.swapchain.images@[i].image != self.texture.image.image
        }
    }

    /// What the renderer holds apart from the swapchain and the command
    /// pools and buffers is live in `ctx`, and the binding table has one set.
    pub open spec fn content_wf(&self, ctx: Context) -> bool {
        &&& ctx.live(self.pass, Kind::RenderPass)
        &&& ctx.live(self.layout, Kind::PipelineLayout)
        &&& ctx.live(self.pipeline, Kind::Pipeline)
        &&& self.descriptors.wf(ctx)
        &&& self.descriptors.sets@.len() == 1
        &&& self.model.wf()
        &&& self.vertex_index_buffer.wf(ctx)
        &&& self.texture.wf(ctx)
        &&& self.texture.image.allocation is Some
        &&& self.uniforms.wf(ctx)
        &&& self.state.live_in(ctx)
    }

    /// The command pools and buffers, one of each for each presentable
    /// image, are live in `ctx`.
    pub open spec fn pools_wf(&self, ctx: Context) -> bool {
        &&& self.command_pools@.len() == self.swapchain.images@.len()
        &&& self.command_buffers@.len() == self.swapchain.images@.len()
        &&& forall|i: int|
            0 <= i < self.command_pools@.len() ==> ctx.live(#[trigger] self.command_pools@[i], Kind::CommandPool)
        &&& forall|i: int|
            0 <= i < self.command_buffers@.len() ==> ctx.live(#[trigger] self.command_buffers@[i], Kind::CommandBuffer)
    }

    /// Everything the renderer holds is live in `ctx`, there is a
    /// command pool with its command buffer for each presentable image,
    /// the texture shares nothing with the swapchain, and the state of
    /// the loop is well-formed.
    pub open spec fn wf(&self, ctx: Context) -> bool {
        &&& self.content_wf(ctx)
        &&& self.swapchain.wf(ctx)
        &&& self.pools_wf(ctx)
        &&& self.texture_apart()
        &&& self.view().wf()
    }

    /// Everything the renderer holds has handles from `lo` up to, but
    /// not including, `hi`.
    pub open spec fn spans(&self, lo: int, hi: int) -> bool {
        &&& lo <= self.pass < hi
        &&& lo <= self.layout < hi
        &&& lo <= self.pipeline < hi
        &&& self.descriptors.spans(lo, hi)
        &&& self.vertex_index_buffer.spans(lo, hi)
        &&& self.texture.spans(lo, hi)
        &&& self.uniforms.spans(lo, hi)
        &&& self.state.spans(lo, hi)
        &&& self.swapchain.spans(lo, hi)
        &&& forall|i: int| 0 <= i < self.command_pools@.len() ==> lo <= #[trigger] self.command_pools@[i] < hi
        &&& forall|i: int| 0 <= i < self.command_buffers@.len() ==> lo <= #[trigger] self.command_buffers@[i] < hi
    }

    /// Command pools and buffers that are live stay so while their
    /// entries are unchanged.
    pub proof fn lemma_pools_kept(&self, then: Context, now: Context, lo: int, hi: int)
        requires
            self.pools_wf(then),
            forall|i: int| 0 <= i < self.command_pools@.len() ==> lo <= #[trigger] self.command_pools@[i] < hi,
            forall|i: int| 0 <= i < self.command_buffers@.len() ==> lo <= #[trigger] self.command_buffers@[i] < hi,
            unchanged_within(now.objects(), then.objects(), lo, hi),
        ensures
            self.pools_wf(now),
    {
        assert forall|i: int| 0 <= i < self.command_pools@.len() implies now.live(
            #[trigger] self.command_pools@[i],
            Kind::CommandPool,
        ) by {
            assert(then.live(self.command_pools@[i], Kind::CommandPool));
        }
        assert forall|i: int| 0 <= i < self.command_buffers@.len() implies now.live(
            #[trigger] self.command_buffers@[i],
            Kind::CommandBuffer,
        ) by {
            assert(then.live(self.command_buffers@[i], Kind::CommandBuffer));
        }
    }

    /// A renderer that is well-formed stays so while the entries of what
    /// it owns are unchanged.
    pub proof fn lemma_kept(&self, then: Context, now: Context, lo: int, hi: int)
        requires
            self.wf(then),
            self.spans(lo, hi),
            unchanged_within(now.objects(), then.objects(), lo, hi),
        ensures
            self.wf(now),
    {
        self.descriptors.lemma_kept(then, now, lo, hi);
        self.vertex_index_buffer.lemma_kept(then, now, lo, hi);
        self.texture.lemma_kept(then, now, lo, hi);
        self.uniforms.lemma_kept(then, now, lo, hi);
        self.state.lemma_kept(then, now, lo, hi);
        self.swapchain.lemma_kept(then, now, lo, hi);
        self.lemma_pools_kept(then, now, lo, hi);
    }

    /// What a renderer owns lies within the range it spans.
    pub proof fn lemma_owned_within(&self, lo: int, hi: int)
        requires
            self.state.wf(),
            self.swapchain.framebuffers@.len() == self.swapchain.images@.len(),
            self.command_buffers@.len() == self.command_pools@.len(),
            self.spans(lo, hi),
        ensures
            all_within(self.handles(), lo, hi),
    {
        self.swapchain.lemma_owned_within(lo, hi);
        self.state.lemma_owned_within(lo, hi);
        self.uniforms.buffer.lemma_owned_within(lo, hi);
        self.texture.lemma_owned_within(lo, hi);
        self.vertex_index_buffer.lemma_owned_within(lo, hi);
        lemma_pools_within(self.command_pools@, self.command_buffers@, self.command_pools@.len(), lo, hi);
        self.descriptors.lemma_owned_within(lo, hi);
        let a = self.swapchain.handles();
        let b = self.state.handles();
        let c = self.uniforms.buffer.handles();
        let d = self.texture.handles();
        let e = self.vertex_index_buffer.handles();
        let f = pools_handles(self.command_pools@, self.command_buffers@, self.command_pools@.len());
        let g = self.descriptors.handles();
        let h = seq![self.pipeline, self.layout, self.pass];
        lemma_all_within_concat(a, b, lo, hi);
        lemma_all_within_concat(a + b, c, lo, hi);
        lemma_all_within_concat(a + b + c, d, lo, hi);
        lemma_all_within_concat(a + b + c + d, e, lo, hi);
        lemma_all_within_concat(a + b + c + d + e, f, lo, hi);
        lemma_all_within_concat(a + b + c + d + e + f, g, lo, hi);
        lemma_all_within_concat(a + b + c + d + e + f + g, h, lo, hi);
    }

    /// Whether everything the renderer holds is live in `ctx`, the
    /// texture shares nothing with the swapchain, and the state of the
    /// loop is well-formed.
    pub fn is_wf(&self, ctx: &Context) -> (ok: bool)
        ensures
            ok == self.wf(*ctx),
    {
        if !(ctx.is_live(self.pass, Kind::RenderPass) && ctx.is_live(self.layout, Kind::PipelineLayout)
            && ctx.is_live(self.pipeline, Kind::Pipeline) && self.descriptors.is_wf(ctx)
            && self.descriptors.sets.len() == 1 && self.model.is_wf() && self.vertex_index_buffer.is_wf(ctx)
            && self.texture.is_wf(ctx) && self.texture.image.allocation.is_some() && self.uniforms.is_wf(ctx)
            && self.state.is_live_in(ctx)
            && self.swapchain.is_wf(ctx) && self.command_pools.len() == self.swapchain.images.len()
            && self.command_buffers.len() == self.swapchain.images.len() && ctx.all_live(
            &self.command_pools,
            Kind::CommandPool,
        ) && ctx.all_live(&self.command_buffers, Kind::CommandBuffer) && (match self.phase {
            Phase::Acquiring => !self.state.current_pending(),
            _ => true,
        })) {
            return false;
        }
        let mut i: usize = 0;
        while i < self.swapchain.images.len()
            invariant
                i <= self.swapchain.images@.len(),
                forall|k: int| 0 <= k < i ==> {
                    &&& (#[trigger] self.swapchain.images@[k]).view != self.texture.image.view
                    &&& self.swapchain.images@[k].image != self.texture.image.image
                },
            decreases self.swapchain.images@.len() - i,
        {
            let image = &self.swapchain.images[i];
            if image.view == self.texture.image.view || image.image == self.texture.image.image {
                return false;
            }
            i = i + 1;
        }
        true
    }

    /// Command pools, command buffers and swapchain are those that
    /// are created for a surface configured as `config`: the pools
    /// from the handle `first` on, the command buffers after them, and
    /// the swapchain, with its render targets, from `swapchain` on.
    pub open spec fn surface_part_at(&self, first: Handle, swapchain: Handle, config: SurfaceConfig) -> bool {
        let n = config.image_count as int;
        &&& self.command_pools@.len() == n
        &&& self.command_buffers@.len() == n
        &&& forall|i: int| 0 <= i < n ==> #[trigger] self.command_pools@[i] == first + i
        &&& forall|i: int| 0 <= i < n ==> #[trigger] self.command_buffers@[i] == first + n + i
        &&& self.swapchain_at(swapchain, config)
    }

    /// The swapchain is the one that is created for a surface configured
    /// as `config` with `first` as the first new handle.
    pub open spec fn swapchain_at(&self, first: Handle, config: SurfaceConfig) -> bool {
        let n = config.image_count as int;
        &&& self.swapchain.swapchain == first
        &&& self.swapchain.config == config
        &&& self.swapchain.depth == None::<Handle>
        &&& self.swapchain.images@.len() == n
        &&& self.swapchain.framebuffers@.len() == n
        &&& forall|i: int| 0 <= i < n ==> #[trigger] self.swapchain.images@[i] == presentable(first, i)
        &&& forall|i: int| 0 <= i < n ==> #[trigger] self.swapchain.framebuffers@[i] == first + 3 + 3 * i
    }

    /// The ring is the one that is created with `first` as the first
    /// new handle: slot `i` has the handles from `first + 3 i` on, and
    /// no frame is in flight.
    pub open spec fn ring_at(&self, first: Handle) -> bool {
        &&& forall|i: int| 0 <= i < self.state.size() ==> #[trigger] self.state.image_available@[i] == first + 3 * i
        &&& forall|i: int| 0 <= i < self.state.size() ==> #[trigger] self.state.render_finished@[i] == first + 3 * i
            + 1
        &&& forall|i: int| 0 <= i < self.state.size() ==> #[trigger] self.state.in_flight@[i] == first + 3 * i + 2
        &&& forall|i: int| 0 <= i < self.state.size() ==> !(#[trigger] self.state.pending@[i])
    }

    /// What the renderer holds apart from the swapchain and the command
    /// pools and buffers is what `other` holds.
    pub open spec fn same_content(&self, other: Renderer) -> bool {
        &&& self.pass == other.pass
        &&& self.pipeline == other.pipeline
        &&& self.layout == other.layout
        &&& self.descriptors == other.descriptors
        &&& self.model == other.model
        &&& self.vertex_index_buffer == other.vertex_index_buffer
        &&& self.texture == other.texture
        &&& self.uniforms == other.uniforms
        &&& self.state.image_available == other.state.image_available
        &&& self.state.render_finished == other.state.render_finished
        &&& self.state.in_flight == other.state.in_flight
    }

    /// The renderer holds the same objects as `other`.
    pub open spec fn same_objects(&self, other: Renderer) -> bool {
        &&& self.same_content(other)
        &&& self.command_pools == other.command_pools
        &&& self.command_buffers == other.command_buffers
        &&& self.swapchain == other.swapchain
    }

    /// `self` is what `Renderer::create` makes for a surface configured
    /// as `config`, with a ring of `frames` slots, a uniform buffer of
    /// `uniforms_size` bytes and `data` bytes of vertices and indices,
    /// where `first` is the first new handle.
    pub open spec fn created_at(
        &self,
        first: Handle,
        config: SurfaceConfig,
        frames: nat,
        uniforms_size: u64,
        data: nat,
    ) -> bool {
        let setup = setup_first(first, config.image_count as nat);
        &&& self.pass == first
        &&& self.descriptors.layout == first + 1
        &&& self.descriptors.pool == first + 2
        &&& self.descriptors.sets@ == seq![(first + 3) as Handle]
        &&& self.layout == first + 4
        &&& self.pipeline == first + 5
        &&& self.vertex_index_buffer == staged_buffer((setup + 3) as Handle, data)
        &&& self.texture == texture_at((setup + 7) as Handle)
        &&& self.uniforms.buffer == (Buffer {
            buffer: (setup + 13) as Handle,
            allocation: (setup + 14) as Handle,
            size: uniforms_size,
            location: Location::CpuToGpu,
        })
        &&& self.state.size() == frames
        &&& self.state.current_frame == 0
        &&& self.ring_at((setup + 15) as Handle)
        &&& self.surface_part_at((first + 6) as Handle, (setup + 15 + 3 * frames) as Handle, config)
        &&& self.phase == Phase::Idle
        &&& !self.needs_recreating
    }

    /// Creates the renderer's binding table, with its one set.
    pub fn create_descriptors(ctx: &mut Context) -> (d: Descriptors)
        ensures
            d.layout == old(ctx).objects().len(),
            d.pool == old(ctx).objects().len() + 1,
            d.sets@ == seq![(old(ctx).objects().len() + 2) as Handle],
            final(ctx).grows_by(
                *old(ctx),
                descriptor_objects(1),
                descriptor_calls(old(ctx).objects().len() as Handle, renderer_bindings(), renderer_pool_sizes(), 1),
            ),
            d.wf(*final(ctx)),
            d.spans(old(ctx).objects().len() as int, final(ctx).objects().len() as int),
    {
        let uniform = codes::descriptor_uniform_buffer();
        let sampled = codes::descriptor_combined_image_sampler();
        let mut bindings: Vec<LayoutBinding> = Vec::new();
        bindings.push(
            LayoutBinding {
                binding: 0,
                descriptor_type: uniform,
                descriptor_count: 1,
                stage_flags: codes::shader_stage_vertex(),
                binding_flags: 0,
            },
        );
        bindings.push(
            LayoutBinding {
                binding: 1,
                descriptor_type: sampled,
                descriptor_count: 1,
                stage_flags: codes::shader_stage_fragment(),
                binding_flags: 0,
            },
        );
        let mut sizes: Vec<PoolSize> = Vec::new();
        sizes.push(PoolSize { descriptor_type: uniform, descriptor_count: 1 });
        sizes.push(PoolSize { descriptor_type: sampled, descriptor_count: 1 });
        proof {
            assert(bindings@ =~= renderer_bindings());
            assert(sizes@ =~= renderer_pool_sizes());
        }
        let d = Descriptors::create(ctx, bindings, sizes, 1);
        proof {
            assert(d.sets@ =~= seq![(old(ctx).objects().len() + 2) as Handle]);
        }
        d
    }

    /// Fills every set of `descriptors` with the uniform buffer and the
    /// texture, in one batch of writes for each set.
    pub fn bind_descriptors(ctx: &mut Context, descriptors: &Descriptors, uniforms: &Uniforms, texture: &Texture)
        requires
            descriptors.wf(*old(ctx)),
            uniforms.wf(*old(ctx)),
            texture.wf(*old(ctx)),
        ensures
            final(ctx).requests(
                *old(ctx),
                renderer_bind_calls(
                    descriptors.sets@,
                    uniforms.buffer.buffer,
                    texture.image.view,
                    texture.sampler.sampler,
                ),
            ),
    {
        let buffer = uniforms.buffer.buffer;
        let view = texture.image.view;
        let sampler = texture.sampler.sampler;
        let ghost all = renderer_bind_calls(descriptors.sets@, buffer, view, sampler);
        let layout = codes::layout_shader_read_only();
        let uniform = codes::descriptor_uniform_buffer();
        let sampled = codes::descriptor_combined_image_sampler();
        let whole = codes::whole_size();
        proof {
            assert(ctx.log() =~= old(ctx).log() + all.take(0));
        }
        let mut i: usize = 0;
        while i < descriptors.sets.len()
            invariant
                i <= descriptors.sets@.len(),
                layout == 5,
                uniform == 6,
                sampled == 1,
                whole == 0xffff_ffff_ffff_ffff,
                all == renderer_bind_calls(descriptors.sets@, buffer, view, sampler),
                ctx.same_device(*old(ctx)),
                ctx.objects() == old(ctx).objects(),
                ctx.log() == old(ctx).log() + all.take(i as int),
            decreases descriptors.sets@.len() - i,
        {
            let set = descriptors.sets[i];
            let mut images: Vec<ImageBinding> = Vec::new();
            images.push(ImageBinding { view, layout, sampler });
            let mut writes: Vec<DescriptorWrite> = Vec::new();
            writes.push(
                DescriptorWrite::Buffer { set, binding: 0, descriptor_type: uniform, buffer, offset: 0, range: whole },
            );
            writes.push(DescriptorWrite::Images { set, binding: 1, descriptor_type: sampled, images });
            proof {
                assert(images@ =~= seq![ImageBinding { view, layout: 5, sampler }]);
                assert(writes_view(writes@) =~= renderer_writes(set, buffer, view, sampler));
            }
            ctx.record(Call::UpdateDescriptorSets { writes });
            proof {
                assert(ctx.log() =~= old(ctx).log() + all.take(i + 1));
            }
            i = i + 1;
        }
        proof {
            assert(all.take(i as int) =~= all);
        }
    }

    /// Stages `data`, the vertices followed by the bytes of the
    /// indices, into one buffer for both.
    pub fn init_vertex_index_buffer(ctx: &mut Context, setup: &mut OneshotScope, data: &[u8]) -> (b: Buffer)
        requires
            old(setup).wf(*old(ctx)),
        ensures
            b == staged_buffer(old(ctx).objects().len() as Handle, data@.len()),
            final(setup).resources@ == old(setup).resources@.push(
                Resource::Buffer(staging_buffer(old(ctx).objects().len() as Handle, data@.len())),
            ),
            final(setup).commands == old(setup).commands,
            final(setup).fence == old(setup).fence,
            final(setup).queue == old(setup).queue,
            final(ctx).grows_by(
                *old(ctx),
                staged_objects(),
                staged_upload_calls(
                    old(setup).commands.buffer,
                    old(ctx).objects().len() as Handle,
                    vertex_index_info(),
                    data@,
                ),
            ),
            final(setup).wf(*final(ctx)),
            b.wf(*final(ctx)),
    {
        let create_info = BufferInfo {
            size: 0,
            usage: codes::buffer_usage_vertex() | codes::buffer_usage_index(),
            sharing_mode: codes::sharing_exclusive(),
        };
        Buffer::create_with_staged_data(ctx, setup, create_info, data)
    }

    /// Creates the texture from `picture`, staged through `setup`, with
    /// a sampler of its own.
    pub fn init_texture(ctx: &mut Context, setup: &mut OneshotScope, picture: &RgbaImage) -> (t: Texture)
        requires
            old(setup).wf(*old(ctx)),
            picture.wf(),
        ensures
            t == texture_at(old(ctx).objects().len() as Handle),
            final(setup).resources@ == old(setup).resources@.push(
                Resource::Buffer(staging_buffer(old(ctx).objects().len() as Handle, picture.pixels@.len())),
            ),
            final(setup).commands == old(setup).commands,
            final(setup).fence == old(setup).fence,
            final(setup).queue == old(setup).queue,
            final(ctx).grows_by(
                *old(ctx),
                texture_objects(),
                texture_calls(old(setup).commands.buffer, old(ctx).objects().len() as Handle, *picture),
            ),
            final(setup).wf(*final(ctx)),
            t.wf(*final(ctx)),
    {
        let image = Image::create_from_image(ctx, setup, picture);
        let ghost uploaded = *ctx;
        let sampler = Sampler::create(ctx);
        proof {
            lemma_scope_survives_growth(*setup, uploaded, *ctx);
            assert(ctx.objects() =~= old(ctx).objects() + texture_objects());
            assert(ctx.log() =~= old(ctx).log() + texture_calls(
                old(setup).commands.buffer,
                old(ctx).objects().len() as Handle,
                *picture,
            ));
        }
        Texture { image, sampler }
    }

    /// Creates what a renderer begins with: the render pass, the
    /// binding table, the pipeline with its layout, and the command
    /// pools and buffers.
    fn create_static(ctx: &mut Context) -> (r: (Handle, Descriptors, Handle, Handle, Vec<Handle>, Vec<Handle>))
        ensures
            r.0 == old(ctx).objects().len(),
            r.1.layout == old(ctx).objects().len() + 1,
            r.1.pool == old(ctx).objects().len() + 2,
            r.1.sets@ == seq![(old(ctx).objects().len() + 3) as Handle],
            r.2 == old(ctx).objects().len() + 4,
            r.3 == old(ctx).objects().len() + 5,
            r.4@.len() == old(ctx).surface.config.image_count,
            r.5@.len() == old(ctx).surface.config.image_count,
            forall|i: int| 0 <= i < r.4@.len() ==> #[trigger] r.4@[i] == old(ctx).objects().len() + 6 + i,
            forall|i: int| 0 <= i < r.5@.len() ==> #[trigger] r.5@[i] == old(ctx).objects().len() + 6 + r.4@.len() + i,
            final(ctx).grows_by(
                *old(ctx),
                static_objects(old(ctx).surface.config.image_count as nat),
                static_calls(
                    old(ctx).objects().len() as Handle,
                    old(ctx).surface.config.surface_format.format,
                    old(ctx).queues.graphics.family_index,
                    old(ctx).surface.config.image_count as nat,
                ),
            ),
            final(ctx).objects().len() == old(ctx).objects().len() + 6 + 2 * old(ctx).surface.config.image_count,
            final(ctx).live(r.0, Kind::RenderPass),
            final(ctx).live(r.2, Kind::PipelineLayout),
            final(ctx).live(r.3, Kind::Pipeline),
            r.1.wf(*final(ctx)),
            forall|i: int| 0 <= i < r.4@.len() ==> final(ctx).live(#[trigger] r.4@[i], Kind::CommandPool),
            forall|i: int| 0 <= i < r.5@.len() ==> final(ctx).live(#[trigger] r.5@[i], Kind::CommandBuffer),
    {
        let ghost n = ctx.surface.config.image_count as nat;
        let first = ctx.created();
        let format = ctx.surface.config.surface_format.format;
        let pass = Renderer::create_render_pass(ctx, format);
        let ghost with_pass = *ctx;
        let descriptors = Renderer::create_descriptors(ctx);
        let ghost with_table = *ctx;
        let (layout, pipeline) = Pipeline::create_pipeline(ctx, pass, descriptors.layout);
        let ghost with_pipeline = *ctx;
        let (command_pools, command_buffers) = Renderer::create_command_pools_and_buffers(ctx);
        let total = ctx.created();
        proof {
            let o1 = seq![fresh(Kind::RenderPass)];
            let o2 = descriptor_objects(1);
            let o3 = seq![fresh(Kind::PipelineLayout), fresh(Kind::Pipeline)];
            let o4 = pools_objects(n);
            lemma_concat_assoc(old(ctx).objects(), o1, o2);
            lemma_concat_assoc(old(ctx).objects(), o1 + o2, o3);
            lemma_concat_assoc(old(ctx).objects(), o1 + o2 + o3, o4);
            let c1 = seq![
                CallView::CreateRenderPass { render_pass: pass, info: render_pass_description(format, None) },
            ];
            let c2 = descriptor_calls((first + 1) as Handle, renderer_bindings(), renderer_pool_sizes(), 1);
            let c3 = seq![
                CallView::Op(Op::CreatePipelineLayout { layout, set_layout: (first + 1) as Handle }),
                CallView::Op(Op::CreateGraphicsPipeline { pipeline, layout, render_pass: pass }),
            ];
            let c4 = pools_create_calls((first + 6) as Handle, old(ctx).queues.graphics.family_index, n);
            lemma_concat_assoc(old(ctx).log(), c1, c2);
            lemma_concat_assoc(old(ctx).log(), c1 + c2, c3);
            lemma_concat_assoc(old(ctx).log(), c1 + c2 + c3, c4);
            assert(ctx.log() == old(ctx).log() + (c1 + c2 + c3 + c4));
            assert(total == first + 6 + 2 * n);
            assert(with_pass.live(pass, Kind::RenderPass));
            assert(with_pipeline.live(layout, Kind::PipelineLayout));
            assert(with_pipeline.live(pipeline, Kind::Pipeline));
            lemma_growth_unchanged(with_table.objects(), o3, first as int, total as int);
            lemma_growth_unchanged(with_pipeline.objects(), o4, first as int, total as int);
            lemma_unchanged_twice(
                with_table.objects(),
                with_pipeline.objects(),
                ctx.objects(),
                first as int,
                total as int,
            );
            descriptors.lemma_kept(with_table, *ctx, first as int, total as int);
        }
        (pass, descriptors, layout, pipeline, command_pools, command_buffers)
    }

    /// Brings what a renderer draws to the device: the vertices and
    /// indices of `model` in one staged buffer, its texture, and the
    /// uniform buffer; then fills the binding table.
    fn init_content(
        ctx: &mut Context,
        setup: &mut OneshotScope,
        model: &Model,
        uniforms_size: u64,
        descriptors: &Descriptors,
    ) -> (r: (Buffer, Texture, Uniforms))
        requires
            old(setup).wf(*old(ctx)),
            model.wf(),
            descriptors.wf(*old(ctx)),
        ensures
            r.0 == staged_buffer(
                old(ctx).objects().len() as Handle,
                model.vertices@.len() + 4 * model.indices@.len(),
            ),
            r.1 == texture_at((old(ctx).objects().len() + 4) as Handle),
            r.2.buffer == (Buffer {
                buffer: (old(ctx).objects().len() + 10) as Handle,
                allocation: (old(ctx).objects().len() + 11) as Handle,
                size: uniforms_size,
                location: Location::CpuToGpu,
            }),
            final(setup).resources@ == old(setup).resources@ + content_staging(
                old(ctx).objects().len() as Handle,
                model.vertices@.len() + 4 * model.indices@.len(),
                model.texture,
            ),
            final(setup).commands == old(setup).commands,
            final(setup).fence == old(setup).fence,
            final(setup).queue == old(setup).queue,
            final(setup).wf(*final(ctx)),
            final(ctx).objects().len() == old(ctx).objects().len() + 12,
            exists|bytes: Seq<u8>|
                encodes(model.indices@, bytes) && #[trigger] final(ctx).grows_by(
                    *old(ctx),
                    content_objects(),
                    content_calls(
                        old(setup).commands.buffer,
                        old(ctx).objects().len() as Handle,
                        descriptors.sets@,
                        model.vertices@ + bytes,
                        model.texture,
                        uniforms_size,
                    ),
                ),
            r.0.wf(*final(ctx)),
            r.1.wf(*final(ctx)),
            r.2.wf(*final(ctx)),
    {
        let first = ctx.created();
        let ghost commands = setup.commands.buffer;
        let mut data = slice_to_vec(model.vertices.as_slice());
        let mut bytes = index_bytes(model.indices.as_slice());
        let ghost encoded = bytes@;
        data.append(&mut bytes);
        let buffer = Renderer::init_vertex_index_buffer(ctx, setup, data.as_slice());
        let ghost staged = *ctx;
        let texture = Renderer::init_texture(ctx, setup, &model.texture);
        let ghost textured = *ctx;
        let uniforms = Uniforms::create(ctx, uniforms_size);
        let total = ctx.created();
        proof {
            lemma_scope_survives_growth(*setup, textured, *ctx);
            assert(total == first + 12);
            lemma_growth_unchanged(old(ctx).objects(), staged_objects(), 0, first as int);
            lemma_growth_unchanged(staged.objects(), texture_objects(), 0, total as int);
            lemma_growth_unchanged(textured.objects(), seq![fresh(Kind::Buffer), fresh(Kind::Memory)], 0, total as int);
            lemma_unchanged_twice(staged.objects(), textured.objects(), ctx.objects(), 0, total as int);
            lemma_unchanged_twice(old(ctx).objects(), staged.objects(), ctx.objects(), 0, first as int);
            buffer.lemma_kept(staged, *ctx, 0, total as int);
            texture.lemma_kept(textured, *ctx, 0, total as int);
            descriptors.lemma_kept(*old(ctx), *ctx, 0, first as int);
        }
        Renderer::bind_descriptors(ctx, descriptors, &uniforms, &texture);
        proof {
            let a = staged_upload_calls(commands, first, vertex_index_info(), data@);
            let b = texture_calls(commands, (first + 4) as Handle, model.texture);
            let c = buffer_create_calls(
                (first + 10) as Handle,
                (first + 11) as Handle,
                uniforms_info(uniforms_size),
                Location::CpuToGpu,
            );
            let d = renderer_bind_calls(
                descriptors.sets@,
                (first + 10) as Handle,
                (first + 8) as Handle,
                (first + 9) as Handle,
            );
            lemma_concat_assoc(old(ctx).log(), a, b);
            lemma_concat_assoc(old(ctx).log(), a + b, c);
            lemma_concat_assoc(old(ctx).log(), a + b + c, d);
            assert(ctx.log() == old(ctx).log() + (a + b + c + d));
            let o1 = staged_objects();
            let o2 = texture_objects();
            let o3 = seq![fresh(Kind::Buffer), fresh(Kind::Memory)];
            lemma_concat_assoc(old(ctx).objects(), o1, o2);
            lemma_concat_assoc(old(ctx).objects(), o1 + o2, o3);
            assert(data@ == model.vertices@ + encoded);
            assert(setup.resources@ =~= old(setup).resources@ + content_staging(
                first,
                model.vertices@.len() + 4 * model.indices@.len(),
                model.texture,
            ));
            assert(ctx.grows_by(
                *old(ctx),
                content_objects(),
                content_calls(
                    commands,
                    first,
                    descriptors.sets@,
                    model.vertices@ + encoded,
                    model.texture,
                    uniforms_size,
                ),
            ));
        }
        (buffer, texture, uniforms)
    }

    /// Creates everything that `create` creates, and hands back the
    /// setup scope, still recording.
    #[verifier::rlimit(40)]
    fn build(ctx: &mut Context, model: Model, frames_in_flight: usize, uniforms_size: u64) -> (r: (
        Renderer,
        OneshotScope,
    ))
        requires
            frames_in_flight > 0,
            model.wf(),
        ensures
            r.0.model == model,
            r.0.created_at(
                old(ctx).objects().len() as Handle,
                old(ctx).surface.config,
                frames_in_flight as nat,
                uniforms_size,
                model.vertices@.len() + 4 * model.indices@.len(),
            ),
            r.0.state.frames_in_flight() == 0,
            r.0.wf(*final(ctx)),
            r.1.wf(*final(ctx)),
            r.1.commands.pool == setup_first(
                old(ctx).objects().len() as Handle,
                old(ctx).surface.config.image_count as nat,
            ),
            r.1.commands.buffer == r.1.commands.pool + 1,
            r.1.fence == r.1.commands.pool + 2,
            r.1.queue == old(ctx).queues.graphics,
            r.1.resources@ == content_staging(
                (r.1.commands.pool + 3) as Handle,
                model.vertices@.len() + 4 * model.indices@.len(),
                model.texture,
            ),
            final(ctx).objects().len() == old(ctx).objects().len() + 22 + 5 * old(ctx).surface.config.image_count + 3
                * frames_in_flight,
            exists|bytes: Seq<u8>|
                encodes(model.indices@, bytes) && #[trigger] final(ctx).grows_by(
                    *old(ctx),
                    renderer_objects(old(ctx).surface.config.image_count as nat, frames_in_flight as nat),
                    build_calls(
                        old(ctx).objects().len() as Handle,
                        old(ctx).surface.config,
                        old(ctx).queues.graphics,
                        frames_in_flight as nat,
                        model.vertices@ + bytes,
                        model.texture,
                        uniforms_size,
                    ),
                ),
    {
        let ghost n = ctx.surface.config.image_count as nat;
        let ghost frames = frames_in_flight as nat;
        let ghost config = ctx.surface.config;
        let ghost length = model.vertices@.len() + 4 * model.indices@.len();
        let first = ctx.created();
        let queue = ctx.queues.graphics();
        let (pass, descriptors, layout, pipeline, command_pools, command_buffers) = Renderer::create_static(ctx);
        let ghost c0 = *ctx;
        let s = ctx.created();
        let mut setup = OneshotScope::begin_on(ctx, queue);
        let ghost c1 = *ctx;
        let ghost commands = setup.commands;
        let ghost fence = setup.fence;
        let ghost o2 = seq![fresh(Kind::CommandPool), fresh(Kind::CommandBuffer), fresh(Kind::Fence)];
        proof {
            lemma_growth_unchanged(c0.objects(), o2, first as int, s as int);
            descriptors.lemma_kept(c0, c1, first as int, s as int);
        }
        let (vertex_index_buffer, texture, uniforms) = Renderer::init_content(
            ctx,
            &mut setup,
            &model,
            uniforms_size,
            &descriptors,
        );
        let ghost c2 = *ctx;
        let ghost bytes = choose|bytes: Seq<u8>|
            encodes(model.indices@, bytes) && #[trigger] c2.grows_by(
                c1,
                content_objects(),
                content_calls(
                    commands.buffer,
                    (s + 3) as Handle,
                    descriptors.sets@,
                    model.vertices@ + bytes,
                    model.texture,
                    uniforms_size,
                ),
            );
        let state = SyncState::create(ctx, frames_in_flight);
        let ghost c3 = *ctx;
        proof {
            lemma_growth_unchanged(c0.objects(), o2, 0, s as int);
            lemma_growth_unchanged(c1.objects(), content_objects(), 0, s as int);
            lemma_growth_unchanged(c2.objects(), ring_objects(frames), 0, c2.objects().len() as int);
            lemma_unchanged_twice(c0.objects(), c1.objects(), c2.objects(), 0, s as int);
            lemma_unchanged_twice(c0.objects(), c2.objects(), c3.objects(), 0, s as int);
            assert(c3.live(pass, Kind::RenderPass));
        }
        let swapchain = Swapchain::create(ctx, pass, None);
        let total = ctx.created();
        let r = Renderer {
            pass,
            pipeline,
            layout,
            descriptors,
            model,
            command_pools,
            command_buffers,
            vertex_index_buffer,
            texture,
            uniforms,
            state,
            swapchain,
            phase: Phase::Idle,
            needs_recreating: false,
        };
        proof {
            crate::sync_state::lemma_ring_len(frames);
            crate::swapchain::lemma_swapchain_len(n);
            assert(total == s + 15 + 3 * frames + 1 + 3 * n);
            lemma_growth_unchanged(c3.objects(), swapchain_objects(n), 0, c3.objects().len() as int);
            lemma_unchanged_twice(c2.objects(), c3.objects(), ctx.objects(), 0, c2.objects().len() as int);
            lemma_unchanged_twice(c0.objects(), c3.objects(), ctx.objects(), 0, s as int);
            assert(crate::ledger::extends(ctx.objects(), c2.objects()));
            lemma_scope_survives_growth(setup, c2, *ctx);
            assert(setup.resources@ =~= content_staging((s + 3) as Handle, length, r.model.texture));
            r.descriptors.lemma_kept(c0, *ctx, 0, s as int);
            assert(r.pools_wf(c0));
            r.lemma_pools_kept(c0, *ctx, 0, s as int);
            r.vertex_index_buffer.lemma_kept(c2, *ctx, 0, c2.objects().len() as int);
            r.texture.lemma_kept(c2, *ctx, 0, c2.objects().len() as int);
            r.uniforms.lemma_kept(c2, *ctx, 0, c2.objects().len() as int);
            r.state.lemma_kept(c3, *ctx, 0, c3.objects().len() as int);
            assert(r.ring_at((s + 15) as Handle));
            assert(r.texture_apart());
            let o1 = static_objects(n);
            let o3 = content_objects();
            let o4 = ring_objects(frames);
            let o5 = swapchain_objects(n);
            lemma_concat_assoc(old(ctx).objects(), o1, o2);
            lemma_concat_assoc(old(ctx).objects(), o1 + o2, o3);
            lemma_concat_assoc(old(ctx).objects(), o1 + o2 + o3, o4);
            lemma_concat_assoc(old(ctx).objects(), o1 + o2 + o3 + o4, o5);
            let k1 = static_calls(first, config.surface_format.format, queue.family_index, n);
            let k2 = begin_calls(commands, fence, queue);
            let k3 = content_calls(
                commands.buffer,
                (s + 3) as Handle,
                seq![(first + 3) as Handle],
                r.model.vertices@ + bytes,
                r.model.texture,
                uniforms_size,
            );
            let k4 = ring_create_calls((s + 15) as Handle, frames);
            let k5 = swapchain_create_calls((s + 15 + 3 * frames) as Handle, first, None, config, n);
            lemma_concat_assoc(old(ctx).log(), k1, k2);
            lemma_concat_assoc(old(ctx).log(), k1 + k2, k3);
            lemma_concat_assoc(old(ctx).log(), k1 + k2 + k3, k4);
            lemma_concat_assoc(old(ctx).log(), k1 + k2 + k3 + k4, k5);
            assert(ctx.grows_by(
                *old(ctx),
                renderer_objects(n, frames),
                build_calls(first, config, queue, frames, r.model.vertices@ + bytes, r.model.texture, uniforms_size),
            ));
        }
        (r, setup)
    }

    /// What `create` has made stays live when its setup scope is
    /// finished: the scope destroys only the staging buffers and its own.
    proof fn lemma_survives_setup(
        &self,
        built: Context,
        now: Context,
        first: Handle,
        config: SurfaceConfig,
        frames: nat,
        uniforms_size: u64,
        data: nat,
        picture: RgbaImage,
    )
        requires
            self.wf(built),
            self.created_at(first, config, frames, uniforms_size, data),
            built.objects().len() == first + 22 + 5 * config.image_count + 3 * frames,
            built.objects().len() <= usize::MAX,
            now.objects() == retire_all(
                built.objects(),
                setup_retired(setup_first(first, config.image_count as nat), data, picture),
            ),
        ensures
            self.wf(now),
            self.spans(first as int, now.objects().len() as int),
            setup_gone(now.objects(), setup_first(first, config.image_count as nat)),
    {
        let s = setup_first(first, config.image_count as nat);
        let end = built.objects().len() as int;
        let gone = setup_retired(s, data, picture);
        lemma_setup_retired(s, data, picture);
        lemma_retire_all(built.objects(), gone);
        assert(gone.contains(gone[0]) && gone.contains(gone[1]) && gone.contains(gone[2]) && gone.contains(gone[3])
            && gone.contains(gone[4]) && gone.contains(gone[5]) && gone.contains(gone[6]));
        lemma_retire_outside(built.objects(), gone, first as int, s as int);
        lemma_retire_outside(built.objects(), gone, s + 5, s + 7);
        lemma_retire_outside(built.objects(), gone, s + 9, end);
        self.descriptors.lemma_kept(built, now, first as int, s as int);
        self.lemma_pools_kept(built, now, first as int, s as int);
        self.vertex_index_buffer.lemma_kept(built, now, s + 5, s + 7);
        self.texture.lemma_kept(built, now, s + 9, end);
        self.uniforms.lemma_kept(built, now, s + 9, end);
        self.state.lemma_kept(built, now, s + 9, end);
        self.swapchain.lemma_kept(built, now, s + 9, end);
    }

    /// Creates a renderer of `model` for the surface of `ctx` as it is
    /// configured, with a ring of `frames_in_flight` slots and a
    /// uniform buffer of `uniforms_size` bytes. The render pass, the
    /// binding table, the pipeline and the command pools come first.
    /// Then a setup scope is begun on the graphics queue; vertices,
    /// indices and texture are uploaded through it, the uniform buffer
    /// is created and the binding table filled; ring and swapchain are
    /// created. Last of all the setup scope is finished, once: when the
    /// function returns, the staging buffers and the scope's command
    /// buffer are destroyed, and everything else it made is live. The
    /// loop starts between frames, at the first slot, with no frame in
    /// flight and a surface that is not stale.
    #[verifier::rlimit(40)]
    pub fn create(ctx: &mut Context, model: Model, frames_in_flight: usize, uniforms_size: u64) -> (r: Renderer)
        requires
            frames_in_flight > 0,
            model.wf(),
        ensures
            r.model == model,
            r.created_at(
                old(ctx).objects().len() as Handle,
                old(ctx).surface.config,
                frames_in_flight as nat,
                uniforms_size,
                model.vertices@.len() + 4 * model.indices@.len(),
            ),
            r.state.frames_in_flight() == 0,
            final(ctx).same_device(*old(ctx)),
            final(ctx).objects() == retire_all(
                old(ctx).objects() + renderer_objects(
                    old(ctx).surface.config.image_count as nat,
                    frames_in_flight as nat,
                ),
                setup_retired(
                    setup_first(old(ctx).objects().len() as Handle, old(ctx).surface.config.image_count as nat),
                    model.vertices@.len() + 4 * model.indices@.len(),
                    model.texture,
                ),
            ),
            exists|bytes: Seq<u8>|
                encodes(model.indices@, bytes) && final(ctx).log() == old(ctx).log() + #[trigger] renderer_calls(
                    old(ctx).objects().len() as Handle,
                    old(ctx).surface.config,
                    old(ctx).queues.graphics,
                    frames_in_flight as nat,
                    model.vertices@ + bytes,
                    model.texture,
                    uniforms_size,
                ),
            setup_gone(
                final(ctx).objects(),
                setup_first(old(ctx).objects().len() as Handle, old(ctx).surface.config.image_count as nat),
            ),
            r.wf(*final(ctx)),
            r.spans(old(ctx).objects().len() as int, final(ctx).objects().len() as int),
    {
        let ghost n = ctx.surface.config.image_count as nat;
        let ghost frames = frames_in_flight as nat;
        let ghost config = ctx.surface.config;
        let ghost queue = ctx.queues.graphics;
        let ghost length = model.vertices@.len() + 4 * model.indices@.len();
        let ghost picture = model.texture;
        let ghost vertices = model.vertices@;
        let ghost indices = model.indices@;
        let first = ctx.created();
        let (r, setup) = Renderer::build(ctx, model, frames_in_flight, uniforms_size);
        let ghost built = *ctx;
        let ghost bytes = choose|bytes: Seq<u8>|
            encodes(indices, bytes) && #[trigger] built.grows_by(
                *old(ctx),
                renderer_objects(n, frames),
                build_calls(first, config, queue, frames, vertices + bytes, picture, uniforms_size),
            );
        let total = ctx.created();
        let ghost gone = setup.handles();
        let ghost s = setup.commands.pool;
        let ghost staged = setup.resources@;
        setup.finish(ctx);
        proof {
            assert(total == built.objects().len());
            assert(gone == setup_retired(s, length, picture));
            r.lemma_survives_setup(built, *ctx, first, config, frames, uniforms_size, length, picture);
            let k = build_calls(first, config, queue, frames, vertices + bytes, picture, uniforms_size);
            let k6 = submit_calls(setup.commands, setup.fence, queue) + teardown_calls(staged) + end_calls(
                setup.commands,
                setup.fence,
            );
            lemma_concat_assoc(old(ctx).log(), k, k6);
            assert((vertices + bytes).len() == length);
            assert(ctx.log() == old(ctx).log() + renderer_calls(
                first,
                config,
                queue,
                frames,
                vertices + bytes,
                picture,
                uniforms_size,
            ));
        }
        r
    }

    /// Begins a frame. While the surface is known to be stale nothing
    /// is asked of the device and the frame is refused. Otherwise the
    /// host waits until the frame last submitted on the current slot
    /// is done, and the next presentable image is asked for, which
    /// signals the slot's first semaphore when it is ready.
    pub fn render(&mut self, ctx: &mut Context) -> (r: Result<(), Error>)
        requires
            old(self).wf(*old(ctx)),
            old(self).phase == Phase::Idle,
        ensures
            final(self).view() == old(self).view().step(Event::Render),
            final(self).same_objects(*old(self)),
            final(self).wf(*final(ctx)),
            old(self).needs_recreating ==> r == Err::<(), Error>(Error::NeedsRecreating) && *final(ctx) == *old(ctx),
            !old(self).needs_recreating ==> r is Ok && final(ctx).requests(
                *old(ctx),
                seq![
                    CallView::Op(
                        Op::WaitForFence { fence: old(self).state.in_flight@[old(self).state.current_frame as int] },
                    ),
                    CallView::Op(
                        Op::AcquireNextImage {
                            swapchain: old(self).swapchain.swapchain,
                            signal: old(self).state.image_available@[old(self).state.current_frame as int],
                        },
                    ),
                ],
            ),
    {
        if self.needs_recreating {
            return Err(Error::NeedsRecreating);
        }
        self.state.wait_in_flight(ctx);
        let signal = self.state.image_available_semaphore();
        proof {
            assert(ctx.live(self.state.image_available@[self.state.current_frame as int], Kind::Semaphore));
        }
        self.swapchain.acquire_next_image_and_signal(ctx, signal);
        self.phase = Phase::Acquiring;
        proof {
            assert(ctx.log() =~= old(ctx).log() + seq![
                CallView::Op(
                    Op::WaitForFence { fence: old(self).state.in_flight@[old(self).state.current_frame as int] },
                ),
                CallView::Op(
                    Op::AcquireNextImage {
                        swapchain: old(self).swapchain.swapchain,
                        signal: old(self).state.image_available@[old(self).state.current_frame as int],
                    },
                ),
            ]);
        }
        Ok(())
    }

    /// The requests that record the draw work of a frame for
    /// presentable image `image_index`: into the image's command buffer,
    /// over its framebuffer, with the renderer's pipeline, its buffer of
    /// vertices and indices, the indices after the vertices, its one
    /// descriptor set, and all the indices of the model.
    pub open spec fn recording(&self, image_index: int) -> Seq<CallView> {
        frame_recording(
            self.command_buffers@[image_index],
            self.pass,
            self.swapchain.framebuffers@[image_index],
            self.swapchain.config.extent,
            self.pipeline,
            self.layout,
            self.vertex_index_buffer.buffer,
            self.model.vertices@.len() as u64,
            self.descriptors.sets@[0],
            self.model.indices@.len() as u32,
        )
    }

    /// The requests that record the draw work for image `image_index`
    /// and submit it on `queue`, to run its color output (stage 0x400)
    /// once `wait_on` is signaled, and to signal `signal_to` and
    /// `fence` when done.
    pub open spec fn draw_calls(
        &self,
        image_index: int,
        queue: Queue,
        wait_on: Handle,
        signal_to: Handle,
        fence: Handle,
    ) -> Seq<CallView> {
        self.recording(image_index) + seq![
            CallView::Op(
                Op::QueueSubmit {
                    queue_family: queue.family_index,
                    commands: self.command_buffers@[image_index],
                    wait: Some(wait_on),
                    wait_stage: 0x400,
                    signal: Some(signal_to),
                    fence,
                },
            ),
        ]
    }

    /// Records the draw work of a frame for presentable image
    /// `image_index` into the image's command buffer.
    pub fn record_commands_for_frame(&self, ctx: &mut Context, image_index: usize)
        requires
            self.wf(*old(ctx)),
            image_index < self.swapchain.images@.len(),
        ensures
            final(ctx).requests(*old(ctx), self.recording(image_index as int)),
    {
        let commands = self.command_buffers[image_index];
        let framebuffer = self.swapchain.framebuffers[image_index];
        let buffer = self.vertex_index_buffer.buffer;
        let index_offset = self.model.vertex_data_size();
        let index_count = self.model.indices.len() as u32;
        let descriptor_set = self.descriptors.sets[0];
        ctx.emit(Op::BeginCommandBuffer { commands, one_time_submit: true });
        ctx.emit(
            Op::CmdBeginRenderPass {
                commands,
                render_pass: self.pass,
                framebuffer,
                extent: self.swapchain.config.extent,
            },
        );
        ctx.emit(Op::CmdBindPipeline { commands, pipeline: self.pipeline });
        ctx.emit(Op::CmdBindVertexBuffer { commands, buffer, offset: 0 });
        ctx.emit(
            Op::CmdBindIndexBuffer { commands, buffer, offset: index_offset, index_type: codes::index_type_uint32() },
        );
        ctx.emit(Op::CmdBindDescriptorSet { commands, layout: self.layout, descriptor_set });
        ctx.emit(
            Op::CmdDrawIndexed {
                commands,
                index_count,
                instance_count: 1,
                first_index: 0,
                vertex_offset: 0,
                first_instance: 0,
            },
        );
        ctx.emit(Op::CmdEndRenderPass { commands });
        ctx.emit(Op::EndCommandBuffer { commands });
        proof {
            assert(ctx.log() =~= old(ctx).log() + self.recording(image_index as int));
        }
    }

    /// Records the draw work for presentable image `image_index` and
    /// submits it to the graphics queue, to wait for `wait_on` and to
    /// signal `signal_to` and `fence`.
    pub fn draw(&self, ctx: &mut Context, image_index: usize, wait_on: Handle, signal_to: Handle, fence: Handle)
        requires
            self.wf(*old(ctx)),
            image_index < self.swapchain.images@.len(),
        ensures
            final(ctx).requests(
                *old(ctx),
                self.draw_calls(image_index as int, old(ctx).queues.graphics, wait_on, signal_to, fence),
            ),
    {
        let queue = ctx.queues.graphics();
        self.record_commands_for_frame(ctx, image_index);
        ctx.emit(
            Op::QueueSubmit {
                queue_family: queue.family_index,
                commands: self.command_buffers[image_index],
                wait: Some(wait_on),
                wait_stage: codes::stage_color_attachment_output(),
                signal: Some(signal_to),
                fence,
            },
        );
        proof {
            assert(ctx.log() =~= old(ctx).log() + self.draw_calls(
                image_index as int,
                queue,
                wait_on,
                signal_to,
                fence,
            ));
        }
    }

    /// The requests of a frame that is drawn to image `image_index`:
    /// the reset of the image's command pool and of the slot's fence,
    /// the recording and submission, and the presentation once the
    /// slot's second semaphore is signaled.
    pub open spec fn frame_calls(&self, queue: Queue, image_index: u32) -> Seq<CallView> {
        let slot = self.state.current_frame as int;
        seq![
            CallView::Op(Op::ResetCommandPool { pool: self.command_pools@[image_index as int] }),
            CallView::Op(Op::ResetFence { fence: self.state.in_flight@[slot] }),
        ] + self.draw_calls(
            image_index as int,
            queue,
            self.state.image_available@[slot],
            self.state.render_finished@[slot],
            self.state.in_flight@[slot],
        ) + seq![
            CallView::Op(
                Op::QueuePresent {
                    queue_family: queue.family_index,
                    swapchain: self.swapchain.swapchain,
                    image_index,
                    wait: self.state.render_finished@[slot],
                },
            ),
        ]
    }

    /// Takes the device's answer to the request for an image. The
    /// command pool of image `image_index` is reset. With a staleness
    /// signal the frame is dropped: nothing is submitted, the signal
    /// is remembered and the ring moves on. Without one the slot's
    /// fence is reset, the frame recorded and submitted, and its
    /// presentation asked for.
    ///
    /// The fence is reset here, after the image has come, and only
    /// where a frame is submitted that will signal it again. Reset
    /// before the image was asked for, the fence of a dropped frame
    /// would stay unsignaled, and the host would wait for it in vain
    /// when the ring comes round to this slot.
    pub fn image_acquired(&mut self, ctx: &mut Context, image_index: u32, needs_recreating: bool) -> (r: Result<
        (),
        Error,
    >)
        requires
            old(self).wf(*old(ctx)),
            old(self).phase == Phase::Acquiring,
            image_index < old(self).swapchain.images@.len(),
        ensures
            final(self).view() == old(self).view().step(Event::Acquired { needs_recreating }),
            final(self).same_objects(*old(self)),
            final(self).wf(*final(ctx)),
            needs_recreating ==> r == Err::<(), Error>(Error::NeedsRecreating) && final(ctx).requests(
                *old(ctx),
                seq![
                    CallView::Op(Op::ResetCommandPool { pool: old(self).command_pools@[image_index as int] }),
                ],
            ),
            !needs_recreating ==> r is Ok && final(ctx).requests(
                *old(ctx),
                old(self).frame_calls(old(ctx).queues.graphics, image_index),
            ),
    {
        let index = image_index as usize;
        let queue = ctx.queues.graphics();
        ctx.emit(Op::ResetCommandPool { pool: self.command_pools[index] });
        if needs_recreating {
            self.needs_recreating = true;
            self.state.advance();
            self.phase = Phase::Idle;
            return Err(Error::NeedsRecreating);
        }
        let fence = self.state.in_flight_fence();
        let available = self.state.image_available_semaphore();
        let finished = self.state.render_finished_semaphore();
        ctx.emit(Op::ResetFence { fence });
        proof {
            assert(self.wf(*ctx));
        }
        self.draw(ctx, index, available, finished, fence);
        self.state.mark_submitted();
        proof {
            assert(self.swapchain.wf(*ctx));
            assert(ctx.live(self.state.render_finished@[self.state.current_frame as int], Kind::Semaphore));
        }
        self.swapchain.present_to_when(ctx, queue, image_index, finished);
        self.phase = Phase::Presenting;
        proof {
            assert(ctx.log() =~= old(ctx).log() + old(self).frame_calls(queue, image_index));
        }
        Ok(())
    }

    /// Takes the device's answer to the request for presentation. The
    /// frame is over and the ring moves on, whatever the answer; a
    /// staleness signal is remembered and reported.
    pub fn image_presented(
        &mut self,
        ctx: &Context,
        needs_recreating: bool,
    ) -> (r: Result<(), Error>)
        requires
            old(self).wf(*ctx),
            old(self).phase == Phase::Presenting,
        ensures
            final(self).view() == old(self).view().step(Event::Presented { needs_recreating }),
            final(self).same_objects(*old(self)),
            final(self).wf(*ctx),
            needs_recreating ==> r == Err::<(), Error>(Error::NeedsRecreating),
            !needs_recreating ==> r is Ok,
    {
        self.state.advance();
        self.phase = Phase::Idle;
        if needs_recreating {
            self.needs_recreating = true;
            Err(Error::NeedsRecreating)
        } else {
            Ok(())
        }
    }
}

/// Requests the destruction of `command_pools`, with which their
/// `command_buffers` go, and marks the entries of both.
pub(crate) fn release_pools(
    command_pools: &Vec<Handle>,
    command_buffers: &Vec<Handle>,
    ctx: &mut Context,
)
    requires
        command_buffers@.len() == command_pools@.len(),
        forall|i: int| 0 <= i < command_pools@.len() ==> (#[trigger] command_pools@[i]) < old(ctx).objects().len(),
        forall|i: int| 0 <= i < command_buffers@.len() ==> (#[trigger] command_buffers@[i]) < old(ctx).objects().len(),
    ensures
        final(ctx).retires(
            *old(ctx),
            pools_handles(command_pools@, command_buffers@, command_pools@.len()),
            pools_destroy_calls(command_pools@, command_pools@.len()),
        ),
        final(ctx).objects().len() == old(ctx).objects().len(),
{
    {
        let ghost pools = command_pools@;
        let ghost buffers = command_buffers@;
        proof {
            assert(ctx.log() =~= old(ctx).log() + pools_destroy_calls(pools, 0));
        }
        let mut i: usize = 0;
        while i < command_pools.len()
            invariant
                i <= command_pools@.len(),
                pools == command_pools@,
                buffers == command_buffers@,
                buffers.len() == pools.len(),
                forall|k: int| 0 <= k < pools.len() ==> (#[trigger] pools[k]) < old(ctx).objects().len(),
                forall|k: int| 0 <= k < buffers.len() ==> (#[trigger] buffers[k]) < old(ctx).objects().len(),
                ctx.objects().len() == old(ctx).objects().len(),
                ctx.retires(*old(ctx), pools_handles(pools, buffers, i as nat), pools_destroy_calls(pools, i as nat)),
            decreases command_pools@.len() - i,
        {
            let ghost gone = pools_handles(pools, buffers, i as nat);
            let pool = command_pools[i];
            let commands = command_buffers[i];
            ctx.emit(Op::DestroyCommandPool { pool });
            ctx.destroy(commands);
            ctx.destroy(pool);
            proof {
                lemma_retire_all_concat(old(ctx).objects(), gone, seq![commands]);
                lemma_retire_all_concat(old(ctx).objects(), gone + seq![commands], seq![pool]);
                assert(gone + seq![commands] + seq![pool] =~= pools_handles(pools, buffers, (i + 1) as nat));
                assert(ctx.log() =~= old(ctx).log() + pools_destroy_calls(pools, (i + 1) as nat));
            }
            i = i + 1;
        }
    }
}

impl Renderer {
    /// The ledger entries that a recreation destroys where the number
    /// of presentable images changes: what the swapchain owns, and the
    /// command buffers and pools.
    pub open spec fn surface_handles(&self) -> Seq<Handle> {
        self.swapchain.handles() + pools_handles(
            self.command_pools@,
            self.command_buffers@,
            self.command_pools@.len(),
        )
    }

    /// A live object of the renderer that is no framebuffer and no
    /// swapchain, and neither a view nor an image of the swapchain, is
    /// none of what the swapchain owns; if it is no command pool and
    /// no command buffer either, it is none of what a recreation destroys.
    pub proof fn lemma_not_surface(&self, ctx: Context, h: Handle, kind: Kind)
        requires
            self.swapchain.wf(ctx),
            self.pools_wf(ctx),
            ctx.live(h, kind),
            kind != Kind::Framebuffer,
            kind != Kind::Swapchain,
            kind == Kind::ImageView ==> forall|i: int|
                0 <= i < self.swapchain.images@.len() ==> (#[trigger] self.swapchain.images@[i]).view != h,
            kind == Kind::Image ==> forall|i: int|
                0 <= i < self.swapchain.images@.len() ==> (#[trigger] self.swapchain.images@[i]).image != h,
        ensures
            !self.swapchain.handles().contains(h),
            kind != Kind::CommandPool && kind != Kind::CommandBuffer ==> !self.surface_handles().contains(h),
    {
        let images = self.swapchain.images@;
        let framebuffers = self.swapchain.framebuffers@;
        let targets = targets_handles(images, framebuffers, images.len());
        let owned = self.swapchain.handles();
        if owned.contains(h) {
            let k = choose|k: int| 0 <= k < owned.len() && owned[k] == h;
            if k < targets.len() {
                assert(owned[k] == targets[k]);
                let i = lemma_targets_member(images, framebuffers, images.len(), k);
                assert(ctx.live(framebuffers[i], Kind::Framebuffer));
                assert(ctx.live(images[i].view, Kind::ImageView));
                assert(ctx.live(images[i].image, Kind::Image));
            } else {
                assert(owned[k] == self.swapchain.swapchain);
            }
        }
        let pools = pools_handles(self.command_pools@, self.command_buffers@, self.command_pools@.len());
        let all = self.surface_handles();
        if kind != Kind::CommandPool && kind != Kind::CommandBuffer && all.contains(h) {
            let k = choose|k: int| 0 <= k < all.len() && all[k] == h;
            if k < owned.len() {
                assert(all[k] == owned[k]);
                assert(owned.contains(h));
            } else {
                lemma_pools_kinds(
                    self.command_pools@,
                    self.command_buffers@,
                    ctx,
                    self.command_pools@.len(),
                    k - owned.len(),
                );
                assert(all[k] == pools[k - owned.len()]);
            }
        }
    }

    /// What the renderer holds apart from the swapchain outlives the
    /// destruction of what the swapchain owns, and outlives that of the
    /// command pools and buffers too, but for these themselves.
    pub proof fn lemma_content_survives(&self, then: Context, gone: Seq<Handle>, now: Context)
        requires
            self.wf(then),
            gone == self.swapchain.handles() || gone == self.surface_handles(),
            unchanged_within(now.objects(), retire_all(then.objects(), gone), 0, then.objects().len() as int),
        ensures
            self.content_wf(now),
            gone == self.swapchain.handles() ==> forall|i: int|
                0 <= i < self.command_pools@.len() ==> now.live(#[trigger] self.command_pools@[i], Kind::CommandPool),
            gone == self.swapchain.handles() ==> forall|i: int|
                0 <= i < self.command_buffers@.len() ==> now.live(
                    #[trigger] self.command_buffers@[i],
                    Kind::CommandBuffer,
                ),
    {
        lemma_retire_all(then.objects(), gone);
        self.lemma_not_surface(then, self.pass, Kind::RenderPass);
        self.lemma_not_surface(then, self.layout, Kind::PipelineLayout);
        self.lemma_not_surface(then, self.pipeline, Kind::Pipeline);
        self.lemma_not_surface(then, self.descriptors.layout, Kind::DescriptorSetLayout);
        self.lemma_not_surface(then, self.descriptors.pool, Kind::DescriptorPool);
        self.lemma_not_surface(then, self.vertex_index_buffer.buffer, Kind::Buffer);
        self.lemma_not_surface(then, self.vertex_index_buffer.allocation, Kind::Memory);
        self.lemma_not_surface(then, self.uniforms.buffer.buffer, Kind::Buffer);
        self.lemma_not_surface(then, self.uniforms.buffer.allocation, Kind::Memory);
        self.lemma_not_surface(then, self.texture.sampler.sampler, Kind::Sampler);
        self.lemma_not_surface(then, self.texture.image.view, Kind::ImageView);
        if let Some(allocation) = self.texture.image.allocation {
            self.lemma_not_surface(then, self.texture.image.image, Kind::Image);
            self.lemma_not_surface(then, allocation, Kind::Memory);
        }
        assert forall|i: int| 0 <= i < self.descriptors.sets@.len() implies now.live(
            #[trigger] self.descriptors.sets@[i],
            Kind::DescriptorSet,
        ) by {
            self.lemma_not_surface(then, self.descriptors.sets@[i], Kind::DescriptorSet);
        }
        assert forall|i: int| 0 <= i < self.state.size() implies now.live(
            #[trigger] self.state.image_available@[i],
            Kind::Semaphore,
        ) by {
            self.lemma_not_surface(then, self.state.image_available@[i], Kind::Semaphore);
        }
        assert forall|i: int| 0 <= i < self.state.size() implies now.live(
            #[trigger] self.state.render_finished@[i],
            Kind::Semaphore,
        ) by {
            self.lemma_not_surface(then, self.state.render_finished@[i], Kind::Semaphore);
        }
        assert forall|i: int| 0 <= i < self.state.size() implies now.live(
            #[trigger] self.state.in_flight@[i],
            Kind::Fence,
        ) by {
            self.lemma_not_surface(then, self.state.in_flight@[i], Kind::Fence);
        }
        if gone == self.swapchain.handles() {
            assert forall|i: int| 0 <= i < self.command_pools@.len() implies now.live(
                #[trigger] self.command_pools@[i],
                Kind::CommandPool,
            ) by {
                self.lemma_not_surface(then, self.command_pools@[i], Kind::CommandPool);
            }
            assert forall|i: int| 0 <= i < self.command_buffers@.len() implies now.live(
                #[trigger] self.command_buffers@[i],
                Kind::CommandBuffer,
            ) by {
                self.lemma_not_surface(then, self.command_buffers@[i], Kind::CommandBuffer);
            }
        }
    }

    /// Recreates the swapchain with its render targets against the
    /// configuration of the surface that `ctx` now holds. The host
    /// first waits until no frame is in flight; then the swapchain is
    /// destroyed and created anew. Everything else stays: render pass,
    /// pipeline, binding table, model, buffers, texture, uniforms, the
    /// ring, and the command pools with their command buffers. After
    /// that the surface is no longer taken to be stale.
    ///
    /// There is a command pool with its command buffer for each
    /// presentable image. Only where the surface now asks for another
    /// number of images than there are pools, the pools and their
    /// command buffers are destroyed with the swapchain and created
    /// anew before it, one for each image.
    pub fn recreate(&mut self, ctx: &mut Context)
        requires
            old(self).wf(*old(ctx)),
            old(self).phase == Phase::Idle,
        ensures
            final(self).view() == old(self).view().step(Event::Recreate),
            final(self).same_content(*old(self)),
            final(self).state.frames_in_flight() == 0,
            final(ctx).same_device(*old(ctx)),
            old(ctx).surface.config.image_count == old(self).command_pools@.len() ==> {
                &&& final(self).command_pools == old(self).command_pools
                &&& final(self).command_buffers == old(self).command_buffers
                &&& final(self).swapchain_at(old(ctx).objects().len() as Handle, old(ctx).surface.config)
                &&& final(ctx).objects() == retire_all(old(ctx).objects(), old(self).swapchain.handles())
                    + swapchain_objects(old(ctx).surface.config.image_count as nat)
                &&& final(ctx).log() == old(ctx).log() + (wait_all_calls(old(self).state.in_flight@) + old(
                    self,
                ).swapchain.destroy_calls() + swapchain_create_calls(
                    old(ctx).objects().len() as Handle,
                    old(self).pass,
                    None,
                    old(ctx).surface.config,
                    old(ctx).surface.config.image_count as nat,
                ))
            },
            old(ctx).surface.config.image_count != old(self).command_pools@.len() ==> {
                &&& final(self).surface_part_at(
                    old(ctx).objects().len() as Handle,
                    (old(ctx).objects().len() + 2 * old(ctx).surface.config.image_count) as Handle,
                    old(ctx).surface.config,
                )
                &&& final(ctx).objects() == retire_all(old(ctx).objects(), old(self).surface_handles())
                    + (pools_objects(old(ctx).surface.config.image_count as nat) + swapchain_objects(
                    old(ctx).surface.config.image_count as nat,
                ))
                &&& final(ctx).log() == old(ctx).log() + (wait_all_calls(old(self).state.in_flight@) + old(
                    self,
                ).swapchain.destroy_calls() + pools_destroy_calls(
                    old(self).command_pools@,
                    old(self).command_pools@.len(),
                ) + (pools_create_calls(
                    old(ctx).objects().len() as Handle,
                    old(ctx).queues.graphics.family_index,
                    old(ctx).surface.config.image_count as nat,
                ) + swapchain_create_calls(
                    (old(ctx).objects().len() + 2 * old(ctx).surface.config.image_count) as Handle,
                    old(self).pass,
                    None,
                    old(ctx).surface.config,
                    old(ctx).surface.config.image_count as nat,
                )))
            },
            final(self).wf(*final(ctx)),
            forall|lo: int|
                old(self).spans(lo, old(ctx).objects().len() as int) ==> #[trigger] final(self).spans(
                    lo,
                    final(ctx).objects().len() as int,
                ),
    {
        let ghost n = ctx.surface.config.image_count as nat;
        let ghost config = ctx.surface.config;
        let first = ctx.created();
        let same = ctx.surface.config.image_count as usize == self.command_pools.len();
        let ghost waits = wait_all_calls(self.state.in_flight@);
        let ghost down = self.swapchain.destroy_calls();
        self.state.wait_all(ctx);
        proof {
            assert(self.swapchain.wf(*ctx));
        }
        self.swapchain.release(ctx);
        if same {
            let ghost torn = *ctx;
            proof {
                lemma_concat_assoc(old(ctx).log(), waits, down);
                old(self).lemma_content_survives(*old(ctx), old(self).swapchain.handles(), torn);
            }
            let swapchain = Swapchain::create(ctx, self.pass, None);
            self.swapchain = swapchain;
            self.needs_recreating = false;
            proof {
                lemma_concat_assoc(
                    old(ctx).log(),
                    waits + down,
                    swapchain_create_calls(first, self.pass, None, config, n),
                );
                lemma_retire_all(old(ctx).objects(), old(self).swapchain.handles());
                lemma_growth_unchanged(torn.objects(), swapchain_objects(n), 0, first as int);
                lemma_unchanged_twice(
                    retire_all(old(ctx).objects(), old(self).swapchain.handles()),
                    torn.objects(),
                    ctx.objects(),
                    0,
                    first as int,
                );
                old(self).lemma_content_survives(*old(ctx), old(self).swapchain.handles(), *ctx);
                lemma_count_cleared(old(self).state.size());
                assert(self.texture_apart()) by {
                    assert forall|i: int| 0 <= i < self.swapchain.images@.len() implies {
                        &&& (#[trigger] self.swapchain.images@[i]).view != self.texture.image.view
                        &&& self.swapchain.images@[i].image != self.texture.image.image
                    } by {
                        assert(self.swapchain.images@[i] == presentable(first, i));
                        assert(old(ctx).live(self.texture.image.view, Kind::ImageView));
                        assert(old(ctx).live(self.texture.image.image, Kind::Image));
                    }
                }
            }
        } else {
            proof {
                assert forall|i: int| 0 <= i < self.command_pools@.len() implies (
                #[trigger] self.command_pools@[i]) < ctx.objects().len() by {
                    assert(old(ctx).live(self.command_pools@[i], Kind::CommandPool));
                }
                assert forall|i: int| 0 <= i < self.command_buffers@.len() implies (
                #[trigger] self.command_buffers@[i]) < ctx.objects().len() by {
                    assert(old(ctx).live(self.command_buffers@[i], Kind::CommandBuffer));
                }
            }
            release_pools(&self.command_pools, &self.command_buffers, ctx);
            let ghost torn = *ctx;
            let ghost gone = old(self).surface_handles();
            let ghost pools_down = pools_destroy_calls(old(self).command_pools@, old(self).command_pools@.len());
            proof {
                lemma_retire_all_concat(
                    old(ctx).objects(),
                    old(self).swapchain.handles(),
                    pools_handles(old(self).command_pools@, old(self).command_buffers@, old(self).command_pools@.len()),
                );
                lemma_concat_assoc(old(ctx).log(), waits, down);
                lemma_concat_assoc(old(ctx).log(), waits + down, pools_down);
                old(self).lemma_content_survives(*old(ctx), gone, torn);
            }
            let (command_pools, command_buffers) = Renderer::create_command_pools_and_buffers(ctx);
            let ghost with_pools = *ctx;
            proof {
                lemma_growth_unchanged(torn.objects(), pools_objects(n), 0, first as int);
                old(self).lemma_content_survives(*old(ctx), gone, with_pools);
            }
            let swapchain = Swapchain::create(ctx, self.pass, None);
            self.command_pools = command_pools;
            self.command_buffers = command_buffers;
            self.swapchain = swapchain;
            self.needs_recreating = false;
            proof {
                let up = pools_create_calls(first, old(ctx).queues.graphics.family_index, n);
                let sw = swapchain_create_calls(self.swapchain.swapchain, self.pass, None, config, n);
                lemma_retire_all(old(ctx).objects(), gone);
                lemma_concat_assoc(torn.objects(), pools_objects(n), swapchain_objects(n));
                lemma_concat_assoc(torn.log(), up, sw);
                lemma_concat_assoc(old(ctx).log(), waits + down + pools_down, up + sw);
                lemma_growth_unchanged(
                    with_pools.objects(),
                    swapchain_objects(n),
                    0,
                    with_pools.objects().len() as int,
                );
                lemma_unchanged_twice(torn.objects(), with_pools.objects(), ctx.objects(), 0, first as int);
                old(self).lemma_content_survives(*old(ctx), gone, *ctx);
                assert forall|i: int| 0 <= i < self.command_pools@.len() implies ctx.live(
                    #[trigger] self.command_pools@[i],
                    Kind::CommandPool,
                ) by {
                    assert(with_pools.live(self.command_pools@[i], Kind::CommandPool));
                }
                assert forall|i: int| 0 <= i < self.command_buffers@.len() implies ctx.live(
                    #[trigger] self.command_buffers@[i],
                    Kind::CommandBuffer,
                ) by {
                    assert(with_pools.live(self.command_buffers@[i], Kind::CommandBuffer));
                }
                lemma_count_cleared(old(self).state.size());
                assert(self.texture_apart()) by {
                    assert forall|i: int| 0 <= i < self.swapchain.images@.len() implies {
                        &&& (#[trigger] self.swapchain.images@[i]).view != self.texture.image.view
                        &&& self.swapchain.images@[i].image != self.texture.image.image
                    } by {
                        assert(self.swapchain.images@[i] == presentable(self.swapchain.swapchain, i));
                        assert(old(ctx).live(self.texture.image.view, Kind::ImageView));
                        assert(old(ctx).live(self.texture.image.image, Kind::Image));
                    }
                }
            }
        }
    }

    /// The ledger entries the renderer owns, in the order in which
    /// they are destroyed: what the swapchain owns, the ring, the
    /// uniform buffer, the texture, the buffer of vertices and
    /// indices, the command buffers and pools, the binding table, the
    /// pipeline with its layout, and the render pass.
    pub open spec fn handles(&self) -> Seq<Handle> {
        self.swapchain.handles() + self.state.handles() + self.uniforms.buffer.handles() + self.texture.handles()
            + self.vertex_index_buffer.handles() + pools_handles(
            self.command_pools@,
            self.command_buffers@,
            self.command_pools@.len(),
        ) + self.descriptors.handles() + seq![self.pipeline, self.layout, self.pass]
    }

    /// The requests that destroy the renderer.
    pub open spec fn destroy_calls(&self) -> Seq<CallView> {
        self.swapchain.destroy_calls() + self.state.destroy_calls() + self.uniforms.buffer.destroy_calls()
            + self.texture.destroy_calls() + self.vertex_index_buffer.destroy_calls() + pools_destroy_calls(
            self.command_pools@,
            self.command_pools@.len(),
        ) + self.descriptors.destroy_calls() + seq![
            CallView::Op(Op::DestroyPipeline { pipeline: self.pipeline }),
            CallView::Op(Op::DestroyPipelineLayout { layout: self.layout }),
            CallView::Op(Op::DestroyRenderPass { render_pass: self.pass }),
        ]
    }

    /// Destroys the swapchain with its render targets, the ring, the
    /// uniform buffer, the texture, the buffer of vertices and indices,
    /// the command pools, the binding table, the pipeline and the
    /// render pass, in this order. The renderer is given up with the call.
    pub fn destroy_with(self, ctx: &mut Context)
        requires
            self.wf(*old(ctx)),
        ensures
            final(ctx).retires(*old(ctx), self.handles(), self.destroy_calls()),
            !self.wf(*final(ctx)),
    {
        proof {
            assert forall|i: int| 0 <= i < self.command_pools@.len() implies (
            #[trigger] self.command_pools@[i]) < old(ctx).objects().len() by {
                assert(old(ctx).live(self.command_pools@[i], Kind::CommandPool));
            }
            assert forall|i: int| 0 <= i < self.command_buffers@.len() implies (
            #[trigger] self.command_buffers@[i]) < old(ctx).objects().len() by {
                assert(old(ctx).live(self.command_buffers@[i], Kind::CommandBuffer));
            }
            assert forall|i: int| 0 <= i < self.state.size() implies (
            #[trigger] self.state.image_available@[i]) < old(ctx).objects().len() by {
                assert(old(ctx).live(self.state.image_available@[i], Kind::Semaphore));
            }
            assert forall|i: int| 0 <= i < self.state.size() implies (
            #[trigger] self.state.render_finished@[i]) < old(ctx).objects().len() by {
                assert(old(ctx).live(self.state.render_finished@[i], Kind::Semaphore));
            }
            assert forall|i: int| 0 <= i < self.state.size() implies (
            #[trigger] self.state.in_flight@[i]) < old(ctx).objects().len() by {
                assert(old(ctx).live(self.state.in_flight@[i], Kind::Fence));
            }
            assert forall|i: int| 0 <= i < self.descriptors.sets@.len() implies (
            #[trigger] self.descriptors.sets@[i]) < old(ctx).objects().len() by {
                assert(old(ctx).live(self.descriptors.sets@[i], Kind::DescriptorSet));
            }
        }
        self.swapchain.release(ctx);
        self.state.release(ctx);
        self.uniforms.buffer.release(ctx);
        self.texture.release(ctx);
        self.vertex_index_buffer.release(ctx);
        release_pools(&self.command_pools, &self.command_buffers, ctx);
        self.descriptors.release(ctx);
        ctx.emit(Op::DestroyPipeline { pipeline: self.pipeline });
        ctx.destroy(self.pipeline);
        ctx.emit(Op::DestroyPipelineLayout { layout: self.layout });
        ctx.destroy(self.layout);
        ctx.emit(Op::DestroyRenderPass { render_pass: self.pass });
        ctx.destroy(self.pass);
        proof {
            let a = self.swapchain.handles();
            let b = self.state.handles();
            let c = self.uniforms.buffer.handles();
            let d = self.texture.handles();
            let e = self.vertex_index_buffer.handles();
            let f = pools_handles(self.command_pools@, self.command_buffers@, self.command_pools@.len());
            let g = self.descriptors.handles();
            let objects = old(ctx).objects();
            lemma_retire_all_concat(objects, a, b);
            lemma_retire_all_concat(objects, a + b, c);
            lemma_retire_all_concat(objects, a + b + c, d);
            lemma_retire_all_concat(objects, a + b + c + d, e);
            lemma_retire_all_concat(objects, a + b + c + d + e, f);
            lemma_retire_all_concat(objects, a + b + c + d + e + f, g);
            let all = a + b + c + d + e + f + g;
            lemma_retire_all_concat(objects, all, seq![self.pipeline]);
            lemma_retire_all_concat(objects, all + seq![self.pipeline], seq![self.layout]);
            lemma_retire_all_concat(objects, all + seq![self.pipeline] + seq![self.layout], seq![self.pass]);
            assert(all + seq![self.pipeline] + seq![self.layout] + seq![self.pass] =~= self.handles());
            assert(ctx.log() =~= old(ctx).log() + self.destroy_calls());
            lemma_retire_all(objects, self.handles());
            assert(self.handles()[self.handles().len() - 1] == self.pass);
            assert(self.handles().contains(self.pass));
        }
    }

    /// Creates the render pass that draws to images of `format` and
    /// hands them over for presentation.
    pub fn create_render_pass(ctx: &mut Context, format: i32) -> (render_pass: Handle)
        ensures
            render_pass == old(ctx).objects().len(),
            final(ctx).grows_by(
                *old(ctx),
                seq![fresh(Kind::RenderPass)],
                seq![CallView::CreateRenderPass { render_pass, info: render_pass_description(format, None) }],
            ),
    {
        let render_pass = ctx.create(Kind::RenderPass);
        ctx.record(Call::CreateRenderPass { render_pass, info: describe_render_pass(format, None) });
        render_pass
    }

    /// Creates a command pool on the graphics queue family for each
    /// presentable image of the surface, and takes a command buffer from each.
    pub fn create_command_pools_and_buffers(ctx: &mut Context) -> (r: (Vec<Handle>, Vec<Handle>))
        ensures
            r.0@.len() == old(ctx).surface.config.image_count,
            r.1@.len() == old(ctx).surface.config.image_count,
            forall|i: int| 0 <= i < r.0@.len() ==> #[trigger] r.0@[i] == old(ctx).objects().len() + i,
            forall|i: int| 0 <= i < r.1@.len() ==> #[trigger] r.1@[i] == old(ctx).objects().len() + r.0@.len() + i,
            final(ctx).grows_by(
                *old(ctx),
                pools_objects(old(ctx).surface.config.image_count as nat),
                pools_create_calls(
                    old(ctx).objects().len() as Handle,
                    old(ctx).queues.graphics.family_index,
                    old(ctx).surface.config.image_count as nat,
                ),
            ),
            forall|i: int| 0 <= i < r.0@.len() ==> final(ctx).live(#[trigger] r.0@[i], Kind::CommandPool),
            forall|i: int| 0 <= i < r.1@.len() ==> final(ctx).live(#[trigger] r.1@[i], Kind::CommandBuffer),
    {
        let n = ctx.surface.config.image_count;
        let family = ctx.queues.graphics().family_index;
        let first = ctx.created();
        let mut pools: Vec<Handle> = Vec::new();
        let mut buffers: Vec<Handle> = Vec::new();
        let ghost pool_calls = Seq::new(
            n as nat,
            |i: int| CallView::Op(Op::CreateCommandPool { pool: (first + i) as Handle, queue_family: family }),
        );
        let ghost buffer_calls = Seq::new(
            n as nat,
            |i: int|
                CallView::Op(
                    Op::AllocateCommandBuffer { commands: (first + n + i) as Handle, pool: (first + i) as Handle },
                ),
        );
        let ghost pool_objects = Seq::new(n as nat, |i: int| fresh(Kind::CommandPool));
        let ghost buffer_objects = Seq::new(n as nat, |i: int| fresh(Kind::CommandBuffer));
        proof {
            assert(ctx.objects() =~= old(ctx).objects() + pool_objects.take(0));
            assert(ctx.log() =~= old(ctx).log() + pool_calls.take(0));
        }
        let mut i: u32 = 0;
        while i < n
            invariant
                i <= n,
                n == old(ctx).surface.config.image_count,
                family == old(ctx).queues.graphics.family_index,
                first == old(ctx).objects().len(),
                pools@.len() == i,
                forall|k: int| 0 <= k < i ==> #[trigger] pools@[k] == first + k,
                pool_calls == Seq::new(
                    n as nat,
                    |i: int| CallView::Op(Op::CreateCommandPool { pool: (first + i) as Handle, queue_family: family }),
                ),
                pool_objects == Seq::new(n as nat, |i: int| fresh(Kind::CommandPool)),
                ctx.grows_by(*old(ctx), pool_objects.take(i as int), pool_calls.take(i as int)),
            decreases n - i,
        {
            let pool = ctx.create(Kind::CommandPool);
            ctx.emit(Op::CreateCommandPool { pool, queue_family: family });
            proof {
                assert(ctx.objects() =~= old(ctx).objects() + pool_objects.take(i + 1));
                assert(ctx.log() =~= old(ctx).log() + pool_calls.take(i + 1));
            }
            pools.push(pool);
            i = i + 1;
        }
        proof {
            assert(pool_objects.take(n as int) =~= pool_objects);
            assert(pool_calls.take(n as int) =~= pool_calls);
            assert(ctx.objects() =~= old(ctx).objects() + (pool_objects + buffer_objects.take(0)));
            assert(ctx.log() =~= old(ctx).log() + (pool_calls + buffer_calls.take(0)));
        }
        let mut j: u32 = 0;
        while j < n
            invariant
                j <= n,
                n == old(ctx).surface.config.image_count,
                first == old(ctx).objects().len(),
                pools@.len() == n,
                buffers@.len() == j,
                forall|k: int| 0 <= k < n ==> #[trigger] pools@[k] == first + k,
                forall|k: int| 0 <= k < j ==> #[trigger] buffers@[k] == first + n + k,
                pool_objects.len() == n,
                buffer_calls == Seq::new(
                    n as nat,
                    |i: int|
                        CallView::Op(
                            Op::AllocateCommandBuffer {
                                commands: (first + n + i) as Handle,
                                pool: (first + i) as Handle,
                            },
                        ),
                ),
                buffer_objects == Seq::new(n as nat, |i: int| fresh(Kind::CommandBuffer)),
                ctx.grows_by(
                    *old(ctx),
                    pool_objects + buffer_objects.take(j as int),
                    pool_calls + buffer_calls.take(j as int),
                ),
            decreases n - j,
        {
            let pool = pools[j as usize];
            let commands = ctx.create(Kind::CommandBuffer);
            ctx.emit(Op::AllocateCommandBuffer { commands, pool });
            proof {
                assert(ctx.objects() =~= old(ctx).objects() + (pool_objects + buffer_objects.take(j + 1)));
                assert(ctx.log() =~= old(ctx).log() + (pool_calls + buffer_calls.take(j + 1)));
            }
            buffers.push(commands);
            j = j + 1;
        }
        proof {
            assert(buffer_objects.take(n as int) =~= buffer_objects);
            assert(buffer_calls.take(n as int) =~= buffer_calls);
        }
        (pools, buffers)
    }
}

} // verus!
