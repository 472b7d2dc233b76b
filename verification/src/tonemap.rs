use vstd::prelude::*;
use crate::call::{
    Call, CallView, DescriptorWrite, DescriptorWriteView, Extent2D, Handle, ImageBinding, LayoutBinding, Op,
    PoolSize, writes_view,
};
use crate::codes;
use crate::context::{Context, Queue};
use crate::descriptors::Descriptors;
use crate::image::{Format, Image};
use crate::ledger::{
    Kind, Object, all_within, fresh, lemma_all_within_concat, lemma_concat_assoc, lemma_retire_all,
    lemma_retire_all_concat, unchanged_within,
};
use crate::pass::{describe_render_pass, render_pass_description};
use crate::render::{
    Renderer, lemma_pools_within, pools_create_calls, pools_destroy_calls, pools_handles, pools_objects,
    release_pools,
};
use crate::sampler::{Sampler, sampler_info};
use crate::swapchain::Swapchain;

verus! {

/// What the tone-mapping pass reads: the rendered image and the
/// sampler it is read through.
#[derive(Debug)]
pub struct Data {
    pub input_image: Image,
    pub sampler: Sampler,
}

/// What a submission waits for and what it signals.
#[derive(Clone, Copy, Debug, PartialEq, Eq, Structural)]
pub struct SyncInfo {
    pub wait_on: Option<Handle>,
    pub signal_to: Option<Handle>,
    pub fence: Handle,
}

/// The tone-mapping pass: its input, its render pass, its binding
/// table with a set for each presentable image, its pipeline, and a
/// command pool with a command buffer for each presentable image.
#[derive(Debug)]
pub struct Pipeline {
    pub data: Data,
    pub render_pass: Handle,
    pub descriptors: Descriptors,
    pub layout: Handle,
    pub pipeline: Handle,
    pub command_pools: Vec<Handle>,
    pub command_buffers: Vec<Handle>,
}

/// The one binding of the pass: at binding 0 an image with its
/// sampler (type 1) for the fragment stage (0x10).
pub open spec fn tonemap_bindings() -> Seq<LayoutBinding> {
    seq![
        LayoutBinding { binding: 0, descriptor_type: 1, descriptor_count: 1, stage_flags: 0x10, binding_flags: 0 },
    ]
}

/// The ledger entries of the binding table of the pass for `n`
/// presentable images: the layout, the pool and `n` sets.
pub open spec fn tonemap_descriptor_objects(n: nat) -> Seq<Object> {
    seq![fresh(Kind::DescriptorSetLayout), fresh(Kind::DescriptorPool)] + Seq::new(
        n,
        |i: int| fresh(Kind::DescriptorSet),
    )
}

/// The requests that create the binding table of the pass for `n`
/// presentable images, where `first` is the first new handle: the
/// layout (`first`), a pool of `n` images with samplers for `n` sets
/// (`first + 1`), and the `n` sets (from `first + 2` on).
pub open spec fn tonemap_descriptor_calls(first: Handle, n: u32) -> Seq<CallView> {
    seq![
        CallView::CreateDescriptorSetLayout { layout: first, bindings: tonemap_bindings() },
        CallView::CreateDescriptorPool {
            pool: (first + 1) as Handle,
            sizes: seq![PoolSize { descriptor_type: 1, descriptor_count: n }],
            max_sets: n,
        },
        CallView::Op(
            Op::AllocateDescriptorSets {
                pool: (first + 1) as Handle,
                layout: first,
                first_set: (first + 2) as Handle,
                count: n,
            },
        ),
    ]
}

/// The write that binds the input of the pass to `set`: at binding 0
/// the view of the input, in the general layout (1), with the sampler.
pub open spec fn input_writes(
    set: Handle,
    view: Handle,
    sampler: Handle,
) -> Seq<DescriptorWriteView> {
    seq![
        DescriptorWriteView::Images {
            set,
            binding: 0,
            descriptor_type: 1,
            images: seq![ImageBinding { view, layout: 1, sampler }],
        },
    ]
}

/// The requests that bind the input of the pass to each of `sets`: one
/// batch of writes for each.
pub open spec fn input_bind_calls(
    sets: Seq<Handle>,
    view: Handle,
    sampler: Handle,
) -> Seq<CallView> {
    Seq::new(
        sets.len(),
        |i: int| CallView::UpdateDescriptorSets { writes: input_writes(sets[i], view, sampler) },
    )
}

/// The requests that record a run of the pass and submit it: the
/// command buffer is begun for one submission, the run recorded, the
/// recording ended, and the buffer submitted to `queue`, to wait at
/// its color output (stage 0x400) for what `sync` names.
pub open spec fn run_calls(
    commands: Handle,
    render_pass: Handle,
    framebuffer: Handle,
    pipeline: Handle,
    layout: Handle,
    descriptor_set: Handle,
    extent: Extent2D,
    queue: Queue,
    sync: SyncInfo,
) -> Seq<CallView> {
    seq![
        CallView::Op(Op::BeginCommandBuffer { commands, one_time_submit: true }),
        CallView::Op(
            Op::CmdRunPass { commands, render_pass, framebuffer, pipeline, layout, descriptor_set, extent },
        ),
        CallView::Op(Op::EndCommandBuffer { commands }),
        CallView::Op(
            Op::QueueSubmit {
                queue_family: queue.family_index,
                commands,
                wait: sync.wait_on,
                wait_stage: 0x400,
                signal: sync.signal_to,
                fence: sync.fence,
            },
        ),
    ]
}

impl Data {
    /// Input image and sampler are live in `ctx`.
    pub open spec fn wf(&self, ctx: Context) -> bool {
        self.input_image.wf(ctx) && self.sampler.wf(ctx)
    }

    /// Input image and sampler have handles from `lo` up to, but not including, `hi`.
    pub open spec fn spans(&self, lo: int, hi: int) -> bool {
        self.input_image.spans(lo, hi) && self.sampler.spans(lo, hi)
    }

    /// The input of the pass that is well-formed stays so while the entries of what
    /// it owns are unchanged.
    pub proof fn lemma_kept(&self, then: Context, now: Context, lo: int, hi: int)
        requires
            self.wf(then),
            self.spans(lo, hi),
            unchanged_within(now.objects(), then.objects(), lo, hi),
        ensures
            self.wf(now),
    {
    }

    /// What the input of the pass owns lies within the range it spans.
    pub proof fn lemma_owned_within(&self, lo: int, hi: int)
        requires
            self.spans(lo, hi),
        ensures
            all_within(self.handles(), lo, hi),
    {
        self.input_image.lemma_owned_within(lo, hi);
        lemma_all_within_concat(self.input_image.handles(), seq![self.sampler.sampler], lo, hi);
    }

    /// Whether input image and sampler are live in `ctx`.
    pub fn is_wf(&self, ctx: &Context) -> (ok: bool)
        ensures
            ok == self.wf(*ctx),
    {
        self.input_image.is_wf(ctx) && self.sampler.is_wf(ctx)
    }

    /// The ledger entries the data owns: those of the image, then the sampler.
    pub open spec fn handles(&self) -> Seq<Handle> {
        self.input_image.handles() + seq![self.sampler.sampler]
    }

    /// The requests that destroy the data: the image, then the sampler.
    pub open spec fn destroy_calls(&self) -> Seq<CallView> {
        self.input_image.destroy_calls() + seq![CallView::Op(Op::DestroySampler { sampler: self.sampler.sampler })]
    }

    /// Takes over `input_image` and creates the sampler to read it through.
    pub fn create(ctx: &mut Context, input_image: Image) -> (data: Data)
        requires
            input_image.wf(*old(ctx)),
        ensures
            data.input_image == input_image,
            data.sampler.sampler == old(ctx).objects().len(),
            final(ctx).grows_by(
                *old(ctx),
                seq![fresh(Kind::Sampler)],
                seq![CallView::Op(Op::CreateSampler { sampler: data.sampler.sampler, info: sampler_info() })],
            ),
            data.wf(*final(ctx)),
    {
        let sampler = Sampler::create(ctx);
        Data { input_image, sampler }
    }

    /// Binds the input to every set of `descriptors`, in one batch of
    /// writes for each set.
    pub fn bind_to_descriptors(&self, ctx: &mut Context, descriptors: &Descriptors)
        requires
            self.wf(*old(ctx)),
            descriptors.wf(*old(ctx)),
        ensures
            final(ctx).requests(
                *old(ctx),
                input_bind_calls(descriptors.sets@, self.input_image.view, self.sampler.sampler),
            ),
    {
        let ghost all = input_bind_calls(descriptors.sets@, self.input_image.view, self.sampler.sampler);
        let layout = codes::layout_general();
        let sampled = codes::descriptor_combined_image_sampler();
        proof {
            assert(ctx.log() =~= old(ctx).log() + all.take(0));
        }
        let mut i: usize = 0;
        while i < descriptors.sets.len()
            invariant
                i <= descriptors.sets@.len(),
                layout == 1,
                sampled == 1,
                all == input_bind_calls(descriptors.sets@, self.input_image.view, self.sampler.sampler),
                ctx.same_device(*old(ctx)),
                ctx.objects() == old(ctx).objects(),
                ctx.log() == old(ctx).log() + all.take(i as int),
            decreases descriptors.sets@.len() - i,
        {
            let set = descriptors.sets[i];
            let mut rendered_image_info: Vec<ImageBinding> = Vec::new();
            rendered_image_info.push(
                ImageBinding { view: self.input_image.view, layout, sampler: self.sampler.sampler },
            );
            let mut writes: Vec<DescriptorWrite> = Vec::new();
            writes.push(
                DescriptorWrite::Images { set, binding: 0, descriptor_type: sampled, images: rendered_image_info },
            );
            proof {
                assert(rendered_image_info@ =~= seq![
                    ImageBinding { view: self.input_image.view, layout: 1, sampler: self.sampler.sampler },
                ]);
                assert(writes_view(writes@) =~= input_writes(set, self.input_image.view, self.sampler.sampler));
            }
            ctx.record(Call::UpdateDescriptorSets { writes });
            proof {
                assert(ctx.log() =~= old(ctx).log() + all.take(i + 1));
            }
            i = i + 1;
        }
        proof {
            assert(all.take(i as int) =~= all);
        }
    }

    /// Requests the destruction of what `self` owns, in order, and
    /// marks the entries as destroyed.
    pub(crate) fn release(&self, ctx: &mut Context)
        requires
            self.input_image.within(*old(ctx)),
            self.sampler.sampler < old(ctx).objects().len(),
        ensures
            final(ctx).retires(*old(ctx), self.handles(), self.destroy_calls()),
            final(ctx).objects().len() == old(ctx).objects().len(),
    {
        self.input_image.release(ctx);
        self.sampler.release(ctx);
        proof {
            lemma_retire_all_concat(old(ctx).objects(), self.input_image.handles(), seq![self.sampler.sampler]);
            assert(ctx.log() =~= old(ctx).log() + self.destroy_calls());
        }
    }

    /// Destroys the input image and the sampler. The data is given up
    /// with the call.
    pub fn destroy_with(self, ctx: &mut Context)
        requires
            self.wf(*old(ctx)),
        ensures
            final(ctx).retires(*old(ctx), self.handles(), self.destroy_calls()),
            !self.wf(*final(ctx)),
    {
        self.release(ctx);
        proof {
            lemma_retire_all(old(ctx).objects(), self.handles());
            assert(self.handles()[0] == self.input_image.view);
        }
    }
}

/// The ledger entries that `Pipeline::create` makes for `n`
/// presentable images: the render pass, the binding table, the
/// pipeline layout and the pipeline, and the command pools and buffers.
pub open spec fn pipeline_objects(n: nat) -> Seq<Object> {
    seq![fresh(Kind::RenderPass)] + tonemap_descriptor_objects(n) + seq![
        fresh(Kind::PipelineLayout),
        fresh(Kind::Pipeline),
    ] + pools_objects(n)
}

/// The requests of `Pipeline::create` for `n` presentable images,
/// where `first` is the first new handle: the render pass (`first`)
/// with a color attachment of the surface's format and a depth
/// attachment of the depth format (126); the binding table (from
/// `first + 1` on), to every set of which the input is bound; the
/// pipeline layout (`first + 3 + n`) and the pipeline (`first + 4 +
/// n`); and the command pools and buffers for the graphics queue family.
pub open spec fn pipeline_calls(
    first: Handle,
    format: i32,
    family: u32,
    n: u32,
    view: Handle,
    sampler: Handle,
) -> Seq<CallView> {
    let layout = (first + 3 + n) as Handle;
    seq![CallView::CreateRenderPass { render_pass: first, info: render_pass_description(format, Some(126i32)) }]
        + tonemap_descriptor_calls((first + 1) as Handle, n) + input_bind_calls(
        Seq::new(n as nat, |i: int| (first + 3 + i) as Handle),
        view,
        sampler,
    ) + seq![
        CallView::Op(Op::CreatePipelineLayout { layout, set_layout: (first + 1) as Handle }),
        CallView::Op(
            Op::CreateGraphicsPipeline { pipeline: (first + 4 + n) as Handle, layout, render_pass: first },
        ),
    ] + pools_create_calls((first + 5 + n) as Handle, family, n as nat)
}

impl Pipeline {
    /// Everything the pass holds is live in `ctx`, and there are as
    /// many sets as command pools and command buffers.
    pub open spec fn wf(&self, ctx: Context) -> bool {
        &&& self.data.wf(ctx)
        &&& ctx.live(self.render_pass, Kind::RenderPass)
        &&& self.descriptors.wf(ctx)
        &&& ctx.live(self.layout, Kind::PipelineLayout)
        &&& ctx.live(self.pipeline, Kind::Pipeline)
        &&& self.command_pools@.len() == self.descriptors.sets@.len()
        &&& self.command_buffers@.len() == self.descriptors.sets@.len()
        &&& forall|i: int|
            0 <= i < self.command_pools@.len() ==> ctx.live(#[trigger] self.command_pools@[i], Kind::CommandPool)
        &&& forall|i: int|
            0 <= i < self.command_buffers@.len() ==> ctx.live(#[trigger] self.command_buffers@[i], Kind::CommandBuffer)
    }

    /// Everything the pass holds has handles from `lo` up to, but not
    /// including, `hi`.
    pub open spec fn spans(&self, lo: int, hi: int) -> bool {
        &&& self.data.spans(lo, hi)
        &&& lo <= self.render_pass < hi
        &&& self.descriptors.spans(lo, hi)
        &&& lo <= self.layout < hi
        &&& lo <= self.pipeline < hi
        &&& forall|i: int| 0 <= i < self.command_pools@.len() ==> lo <= #[trigger] self.command_pools@[i] < hi
        &&& forall|i: int| 0 <= i < self.command_buffers@.len() ==> lo <= #[trigger] self.command_buffers@[i] < hi
    }

    /// A pass that is well-formed stays so while the entries of what
    /// it owns are unchanged.
    pub proof fn lemma_kept(&self, then: Context, now: Context, lo: int, hi: int)
        requires
            self.wf(then),
            self.spans(lo, hi),
            unchanged_within(now.objects(), then.objects(), lo, hi),
        ensures
            self.wf(now),
    {
        self.data.lemma_kept(then, now, lo, hi);
        self.descriptors.lemma_kept(then, now, lo, hi);
        assert forall|i: int| 0 <= i < self.command_pools@.len() implies now.live(
            #[trigger] self.command_pools@[i],
            Kind::CommandPool,
        ) by {
            assert(then.live(self.command_pools@[i], Kind::CommandPool));
        }
        assert forall|i: int| 0 <= i < self.command_buffers@.len() implies now.live(
            #[trigger] self.command_buffers@[i],
            Kind::CommandBuffer,
        ) by {
            assert(then.live(self.command_buffers@[i], Kind::CommandBuffer));
        }
    }

    /// What a pass owns lies within the range it spans.
    pub proof fn lemma_owned_within(&self, lo: int, hi: int)
        requires
            self.command_buffers@.len() == self.command_pools@.len(),
            self.spans(lo, hi),
        ensures
            all_within(self.handles(), lo, hi),
    {
        lemma_pools_within(self.command_pools@, self.command_buffers@, self.command_pools@.len(), lo, hi);
        self.descriptors.lemma_owned_within(lo, hi);
        self.data.lemma_owned_within(lo, hi);
        let a = pools_handles(self.command_pools@, self.command_buffers@, self.command_pools@.len());
        let b = seq![self.pipeline, self.layout];
        let c = self.descriptors.handles();
        let d = seq![self.render_pass];
        lemma_all_within_concat(a, b, lo, hi);
        lemma_all_within_concat(a + b, c, lo, hi);
        lemma_all_within_concat(a + b + c, d, lo, hi);
        lemma_all_within_concat(a + b + c + d, self.data.handles(), lo, hi);
    }

    /// Whether everything the pass holds is live in `ctx`, with as many
    /// sets as command pools and command buffers.
    pub fn is_wf(&self, ctx: &Context) -> (ok: bool)
        ensures
            ok == self.wf(*ctx),
    {
        self.data.is_wf(ctx) && ctx.is_live(self.render_pass, Kind::RenderPass) && self.descriptors.is_wf(ctx)
            && ctx.is_live(self.layout, Kind::PipelineLayout) && ctx.is_live(self.pipeline, Kind::Pipeline)
            && self.command_pools.len() == self.descriptors.sets.len() && self.command_buffers.len()
            == self.descriptors.sets.len() && ctx.all_live(&self.command_pools, Kind::CommandPool)
            && ctx.all_live(&self.command_buffers, Kind::CommandBuffer)
    }

    /// Creates the render pass of the pass: a color attachment in the
    /// format of the surface, presented when the pass ends, and a
    /// depth attachment.
    pub fn create_render_pass(ctx: &mut Context) -> (render_pass: Handle)
        ensures
            render_pass == old(ctx).objects().len(),
            final(ctx).grows_by(
                *old(ctx),
                seq![fresh(Kind::RenderPass)],
                seq![
                    CallView::CreateRenderPass {
                        render_pass,
                        info: render_pass_description(
                            old(ctx).surface.config.surface_format.format,
                            Some(126i32),
                        ),
                    },
                ],
            ),
    {
        let format = ctx.surface.config.surface_format.format;
        let depth: i32 = i32::from(Format::Depth);
        let render_pass = ctx.create(Kind::RenderPass);
        ctx.record(Call::CreateRenderPass { render_pass, info: describe_render_pass(format, Some(depth)) });
        render_pass
    }

    /// Creates the binding table of the pass, with a set for each
    /// presentable image of the surface.
    pub fn create_descriptors(ctx: &mut Context) -> (d: Descriptors)
        ensures
            d.layout == old(ctx).objects().len(),
            d.pool == old(ctx).objects().len() + 1,
            d.sets@.len() == old(ctx).surface.config.image_count,
            forall|i: int| 0 <= i < d.sets@.len() ==> #[trigger] d.sets@[i] == old(ctx).objects().len() + 2 + i,
            final(ctx).grows_by(
                *old(ctx),
                tonemap_descriptor_objects(old(ctx).surface.config.image_count as nat),
                tonemap_descriptor_calls(old(ctx).objects().len() as Handle, old(ctx).surface.config.image_count),
            ),
            d.wf(*final(ctx)),
    {
        let num_frames = ctx.surface.config.image_count;
        let sampled = codes::descriptor_combined_image_sampler();
        let layout = {
            let mut bindings: Vec<LayoutBinding> = Vec::new();
            bindings.push(
                LayoutBinding {
                    binding: 0,
                    descriptor_type: sampled,
                    descriptor_count: 1,
                    stage_flags: codes::shader_stage_fragment(),
                    binding_flags: 0,
                },
            );
            assert(bindings@ =~= tonemap_bindings());
            let layout = ctx.create(Kind::DescriptorSetLayout);
            ctx.record(Call::CreateDescriptorSetLayout { layout, bindings });
            layout
        };
        let pool = {
            let mut sizes: Vec<PoolSize> = Vec::new();
            sizes.push(PoolSize { descriptor_type: sampled, descriptor_count: num_frames });
            assert(sizes@ =~= seq![PoolSize { descriptor_type: 1, descriptor_count: num_frames }]);
            let pool = ctx.create(Kind::DescriptorPool);
            ctx.record(Call::CreateDescriptorPool { pool, sizes, max_sets: num_frames });
            pool
        };
        let ghost fixed = seq![fresh(Kind::DescriptorSetLayout), fresh(Kind::DescriptorPool)];
        let ghost set_objects = Seq::new(num_frames as nat, |i: int| fresh(Kind::DescriptorSet));
        let ghost head = seq![
            CallView::CreateDescriptorSetLayout { layout, bindings: tonemap_bindings() },
            CallView::CreateDescriptorPool {
                pool,
                sizes: seq![PoolSize { descriptor_type: 1, descriptor_count: num_frames }],
                max_sets: num_frames,
            },
        ];
        let first_set = ctx.created();
        let mut sets: Vec<Handle> = Vec::new();
        proof {
            assert(ctx.objects() =~= old(ctx).objects() + (fixed + set_objects.take(0)));
            assert(ctx.log() =~= old(ctx).log() + head);
        }
        let mut i: u32 = 0;
        while i < num_frames
            invariant
                i <= num_frames,
                num_frames == old(ctx).surface.config.image_count,
                layout == old(ctx).objects().len(),
                pool == layout + 1,
                first_set == layout + 2,
                fixed == seq![fresh(Kind::DescriptorSetLayout), fresh(Kind::DescriptorPool)],
                set_objects == Seq::new(num_frames as nat, |i: int| fresh(Kind::DescriptorSet)),
                sets@.len() == i,
                forall|k: int| 0 <= k < i ==> #[trigger] sets@[k] == layout + 2 + k,
                ctx.same_device(*old(ctx)),
                ctx.objects() == old(ctx).objects() + (fixed + set_objects.take(i as int)),
                ctx.log() == old(ctx).log() + head,
            decreases num_frames - i,
        {
            let set = ctx.create(Kind::DescriptorSet);
            proof {
                assert(ctx.objects() =~= old(ctx).objects() + (fixed + set_objects.take(i + 1)));
                assert(ctx.log() =~= old(ctx).log() + head);
            }
            sets.push(set);
            i = i + 1;
        }
        ctx.emit(Op::AllocateDescriptorSets { pool, layout, first_set, count: num_frames });
        let d = Descriptors { layout, pool, sets };
        proof {
            ctx.lemma_fits();
            assert(set_objects.take(num_frames as int) =~= set_objects);
            assert(ctx.objects() =~= old(ctx).objects() + tonemap_descriptor_objects(num_frames as nat));
            assert(ctx.log() =~= old(ctx).log() + tonemap_descriptor_calls(layout, num_frames));
            assert forall|k: int| 0 <= k < d.sets@.len() implies ctx.live(
                #[trigger] d.sets@[k],
                Kind::DescriptorSet,
            ) by {
                assert(tonemap_descriptor_objects(num_frames as nat)[2 + k] == set_objects[k]);
                assert(ctx.objects()[layout + 2 + k] == tonemap_descriptor_objects(num_frames as nat)[2 + k]);
            }
        }
        d
    }

    /// Creates the pipeline layout over `descriptor_set_layout` and the
    /// pipeline for `render_pass`.
    pub fn create_pipeline(
        ctx: &mut Context,
        render_pass: Handle,
        descriptor_set_layout: Handle,
    ) -> (r: (Handle, Handle))
        requires
            old(ctx).live(render_pass, Kind::RenderPass),
            old(ctx).live(descriptor_set_layout, Kind::DescriptorSetLayout),
        ensures
            r.0 == old(ctx).objects().len(),
            r.1 == old(ctx).objects().len() + 1,
            final(ctx).grows_by(
                *old(ctx),
                seq![fresh(Kind::PipelineLayout), fresh(Kind::Pipeline)],
                seq![
                    CallView::Op(Op::CreatePipelineLayout { layout: r.0, set_layout: descriptor_set_layout }),
                    CallView::Op(Op::CreateGraphicsPipeline { pipeline: r.1, layout: r.0, render_pass }),
                ],
            ),
    {
        let layout = ctx.create(Kind::PipelineLayout);
        ctx.emit(Op::CreatePipelineLayout { layout, set_layout: descriptor_set_layout });
        let pipeline = ctx.create(Kind::Pipeline);
        ctx.emit(Op::CreateGraphicsPipeline { pipeline, layout, render_pass });
        proof {
            assert(ctx.objects() =~= old(ctx).objects() + seq![fresh(Kind::PipelineLayout), fresh(Kind::Pipeline)]);
            assert(ctx.log() =~= old(ctx).log() + seq![
                CallView::Op(Op::CreatePipelineLayout { layout, set_layout: descriptor_set_layout }),
                CallView::Op(Op::CreateGraphicsPipeline { pipeline, layout, render_pass }),
            ]);
        }
        (layout, pipeline)
    }

    /// Creates the pass around `data`: the render pass, the binding
    /// table with the input bound to every set, the pipeline, and the
    /// command pools and buffers.
    pub fn create(ctx: &mut Context, data: Data) -> (p: Pipeline)
        requires
            data.wf(*old(ctx)),
        ensures
            p.data == data,
            p.render_pass == old(ctx).objects().len(),
            p.descriptors.layout == old(ctx).objects().len() + 1,
            p.descriptors.pool == old(ctx).objects().len() + 2,
            p.descriptors.sets@ == Seq::new(
                old(ctx).surface.config.image_count as nat,
                |i: int| (old(ctx).objects().len() + 3 + i) as Handle,
            ),
            p.layout == old(ctx).objects().len() + 3 + old(ctx).surface.config.image_count,
            p.pipeline == p.layout + 1,
            p.command_pools@.len() == old(ctx).surface.config.image_count,
            forall|i: int| 0 <= i < p.command_pools@.len() ==> #[trigger] p.command_pools@[i] == p.pipeline + 1 + i,
            forall|i: int| 0 <= i < p.command_buffers@.len() ==> #[trigger] p.command_buffers@[i] == p.pipeline + 1
                + p.command_pools@.len() + i,
            final(ctx).grows_by(
                *old(ctx),
                pipeline_objects(old(ctx).surface.config.image_count as nat),
                pipeline_calls(
                    old(ctx).objects().len() as Handle,
                    old(ctx).surface.config.surface_format.format,
                    old(ctx).queues.graphics.family_index,
                    old(ctx).surface.config.image_count,
                    data.input_image.view,
                    data.sampler.sampler,
                ),
            ),
            p.wf(*final(ctx)),
    {
        let ghost n = ctx.surface.config.image_count;
        let first = ctx.created();
        let render_pass = Pipeline::create_render_pass(ctx);
        let ghost with_pass = *ctx;
        let descriptors = Pipeline::create_descriptors(ctx);
        let ghost with_table = *ctx;
        proof {
            assert(descriptors.sets@ =~= Seq::new(n as nat, |i: int| (first + 3 + i) as Handle));
        }
        data.bind_to_descriptors(ctx, &descriptors);
        let ghost bound = *ctx;
        let (layout, pipeline) = Pipeline::create_pipeline(ctx, render_pass, descriptors.layout);
        let ghost with_pipeline = *ctx;
        let (command_pools, command_buffers) = Renderer::create_command_pools_and_buffers(ctx);
        let p = Pipeline { data, render_pass, descriptors, layout, pipeline, command_pools, command_buffers };
        proof {
            let o1 = seq![fresh(Kind::RenderPass)];
            let o2 = tonemap_descriptor_objects(n as nat);
            let o3 = seq![fresh(Kind::PipelineLayout), fresh(Kind::Pipeline)];
            let o4 = pools_objects(n as nat);
            lemma_concat_assoc(old(ctx).objects(), o1, o2);
            lemma_concat_assoc(old(ctx).objects(), o1 + o2, o3);
            lemma_concat_assoc(old(ctx).objects(), o1 + o2 + o3, o4);
            let c1 = seq![
                CallView::CreateRenderPass {
                    render_pass,
                    info: render_pass_description(
                        old(ctx).surface.config.surface_format.format,
                        Some(126i32),
                    ),
                },
            ];
            let c2 = tonemap_descriptor_calls((first + 1) as Handle, n);
            let c3 = input_bind_calls(p.descriptors.sets@, data.input_image.view, data.sampler.sampler);
            let c4 = seq![
                CallView::Op(Op::CreatePipelineLayout { layout, set_layout: (first + 1) as Handle }),
                CallView::Op(Op::CreateGraphicsPipeline { pipeline, layout, render_pass }),
            ];
            let c5 = pools_create_calls((first + 5 + n) as Handle, old(ctx).queues.graphics.family_index, n as nat);
            lemma_concat_assoc(old(ctx).log(), c1, c2);
            lemma_concat_assoc(old(ctx).log(), c1 + c2, c3);
            lemma_concat_assoc(old(ctx).log(), c1 + c2 + c3, c4);
            lemma_concat_assoc(old(ctx).log(), c1 + c2 + c3 + c4, c5);
            assert(ctx.log() == old(ctx).log() + (c1 + c2 + c3 + c4 + c5));
            assert(with_pass.live(render_pass, Kind::RenderPass));
            assert(with_pipeline.live(layout, Kind::PipelineLayout));
            assert(with_pipeline.live(pipeline, Kind::Pipeline));
            assert(p.descriptors.wf(*ctx)) by {
                assert forall|i: int| 0 <= i < p.descriptors.sets@.len() implies ctx.live(
                    #[trigger] p.descriptors.sets@[i],
                    Kind::DescriptorSet,
                ) by {
                    assert(with_table.live(p.descriptors.sets@[i], Kind::DescriptorSet));
                }
            }
        }
        p
    }

    /// Records a run of the pass that draws to framebuffer `idx` of
    /// `output_to`, with set `idx` bound, into command buffer `idx`,
    /// and submits it to the graphics queue as `sync_info` says.
    pub fn run(&self, ctx: &mut Context, idx: usize, sync_info: &SyncInfo, output_to: &Swapchain)
        requires
            self.wf(*old(ctx)),
            idx < self.command_buffers@.len(),
            idx < output_to.framebuffers@.len(),
        ensures
            final(ctx).requests(
                *old(ctx),
                run_calls(
                    self.command_buffers@[idx as int],
                    self.render_pass,
                    output_to.framebuffers@[idx as int],
                    self.pipeline,
                    self.layout,
                    self.descriptors.sets@[idx as int],
                    old(ctx).surface.config.extent,
                    old(ctx).queues.graphics,
                    *sync_info,
                ),
            ),
    {
        let commands = self.command_buffers[idx];
        let framebuffer = output_to.framebuffers[idx];
        let descriptor_set = self.descriptors.sets[idx];
        let queue = ctx.queues.graphics();
        let extent = ctx.surface.config.extent;
        ctx.emit(Op::BeginCommandBuffer { commands, one_time_submit: true });
        ctx.emit(
            Op::CmdRunPass {
                commands,
                render_pass: self.render_pass,
                framebuffer,
                pipeline: self.pipeline,
                layout: self.layout,
                descriptor_set,
                extent,
            },
        );
        ctx.emit(Op::EndCommandBuffer { commands });
        ctx.emit(
            Op::QueueSubmit {
                queue_family: queue.family_index,
                commands,
                wait: sync_info.wait_on,
                wait_stage: codes::stage_color_attachment_output(),
                signal: sync_info.signal_to,
                fence: sync_info.fence,
            },
        );
        proof {
            assert(ctx.log() =~= old(ctx).log() + run_calls(
                commands,
                self.render_pass,
                framebuffer,
                self.pipeline,
                self.layout,
                descriptor_set,
                extent,
                queue,
                *sync_info,
            ));
        }
    }

    /// The ledger entries the pass owns, in the order in which they
    /// are destroyed: command buffers and pools, the pipeline and its
    /// layout, the binding table, the render pass, and the input.
    pub open spec fn handles(&self) -> Seq<Handle> {
        pools_handles(self.command_pools@, self.command_buffers@, self.command_pools@.len()) + seq![
            self.pipeline,
            self.layout,
        ] + self.descriptors.handles() + seq![self.render_pass] + self.data.handles()
    }

    /// The requests that destroy the pass.
    pub open spec fn destroy_calls(&self) -> Seq<CallView> {
        pools_destroy_calls(self.command_pools@, self.command_pools@.len()) + seq![
            CallView::Op(Op::DestroyPipeline { pipeline: self.pipeline }),
            CallView::Op(Op::DestroyPipelineLayout { layout: self.layout }),
        ] + self.descriptors.destroy_calls() + seq![
            CallView::Op(Op::DestroyRenderPass { render_pass: self.render_pass }),
        ] + self.data.destroy_calls()
    }

    /// Destroys what the pass made and the input it was given. The
    /// pass is given up with the call.
    pub fn destroy_with(self, ctx: &mut Context)
        requires
            self.wf(*old(ctx)),
        ensures
            final(ctx).retires(*old(ctx), self.handles(), self.destroy_calls()),
            !self.wf(*final(ctx)),
    {
        proof {
            assert forall|i: int| 0 <= i < self.command_pools@.len() implies (
            #[trigger] self.command_pools@[i]) < old(ctx).objects().len() by {
                assert(old(ctx).live(self.command_pools@[i], Kind::CommandPool));
            }
            assert forall|i: int| 0 <= i < self.command_buffers@.len() implies (
            #[trigger] self.command_buffers@[i]) < old(ctx).objects().len() by {
                assert(old(ctx).live(self.command_buffers@[i], Kind::CommandBuffer));
            }
            assert forall|i: int| 0 <= i < self.descriptors.sets@.len() implies (
            #[trigger] self.descriptors.sets@[i]) < old(ctx).objects().len() by {
                assert(old(ctx).live(self.descriptors.sets@[i], Kind::DescriptorSet));
            }
        }
        release_pools(&self.command_pools, &self.command_buffers, ctx);
        ctx.emit(Op::DestroyPipeline { pipeline: self.pipeline });
        ctx.destroy(self.pipeline);
        ctx.emit(Op::DestroyPipelineLayout { layout: self.layout });
        ctx.destroy(self.layout);
        self.descriptors.release(ctx);
        ctx.emit(Op::DestroyRenderPass { render_pass: self.render_pass });
        ctx.destroy(self.render_pass);
        self.data.release(ctx);
        proof {
            let a = pools_handles(self.command_pools@, self.command_buffers@, self.command_pools@.len());
            let b = seq![self.pipeline, self.layout];
            let c = self.descriptors.handles();
            let d = seq![self.render_pass];
            let e = self.data.handles();
            lemma_retire_all_concat(old(ctx).objects(), a, seq![self.pipeline]);
            lemma_retire_all_concat(old(ctx).objects(), a + seq![self.pipeline], seq![self.layout]);
            assert(a + seq![self.pipeline] + seq![self.layout] =~= a + b);
            lemma_retire_all_concat(old(ctx).objects(), a + b, c);
            lemma_retire_all_concat(old(ctx).objects(), a + b + c, d);
            lemma_retire_all_concat(old(ctx).objects(), a + b + c + d, e);
            assert(ctx.log() =~= old(ctx).log() + self.destroy_calls());
            lemma_retire_all(old(ctx).objects(), self.handles());
            assert(self.handles()[a.len() as int] == self.pipeline);
            assert(self.handles().contains(self.pipeline));
        }
    }
}

} // verus!
