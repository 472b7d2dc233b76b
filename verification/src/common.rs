use vstd::prelude::*;
use crate::buffer::{Buffer, buffer_create_calls};
use crate::call::{
    Call, CallView, DescriptorWrite, DescriptorWriteView, Extent2D, Extent3D, Handle, ImageBinding,
    ImageInfo, LayoutBinding, Location, Op, PoolSize,
};
use crate::codes;
use crate::context::Context;
use crate::descriptors::Descriptors;
use crate::image::{BarrierInfo, Format, Image, image_create_calls};
use crate::ledger::{
    Kind, Object, all_within, fresh, lemma_all_within_concat, lemma_concat_assoc, lemma_retire_all_concat,
    retire_all, unchanged_within,
};
use crate::scene::{Scene, SceneData, Texture, encodes, scene_calls, scene_objects, scene_staging};
use crate::scope::{
    OneshotScope, Resource, begin_calls, end_calls, lemma_scope_survives_growth, owned_handles, submit_calls,
    teardown_calls,
};
use crate::uniforms::{Uniforms, uniforms_info};

verus! {

/// How many textures the binding table has slots for.
pub const MAX_NUM_TEXTURES: u32 = 128;

/// The layout of the binding table that all passes share: at binding 0
/// the inputs of the frame, a uniform buffer (type 6) for the vertex
/// and ray-generation stages (0x1, 0x100); at binding 1 the addresses
/// of the scene, a uniform buffer for the fragment, ray-generation and
/// closest-hit stages (0x10, 0x100, 0x400); at binding 2 the textures,
/// an array of `MAX_NUM_TEXTURES` images with samplers (type 1) for
/// the fragment and ray-generation stages, whose unused slots may stay
/// unbound (flag 0x4).
pub open spec fn common_bindings() -> Seq<LayoutBinding> {
    seq![
        LayoutBinding {
            binding: 0,
            descriptor_type: 6,
            descriptor_count: 1,
            stage_flags: 0x1u32 | 0x100u32,
            binding_flags: 0,
        },
        LayoutBinding {
            binding: 1,
            descriptor_type: 6,
            descriptor_count: 1,
            stage_flags: 0x10u32 | 0x100u32 | 0x400u32,
            binding_flags: 0,
        },
        LayoutBinding {
            binding: 2,
            descriptor_type: 1,
            descriptor_count: 128,
            stage_flags: 0x10u32 | 0x100u32,
            binding_flags: 0x4,
        },
    ]
}

/// What the pool of the shared binding table holds: a uniform buffer
/// for each of the first two bindings, and the textures.
pub open spec fn common_pool_sizes() -> Seq<PoolSize> {
    seq![
        PoolSize { descriptor_type: 6, descriptor_count: 1 },
        PoolSize { descriptor_type: 6, descriptor_count: 1 },
        PoolSize { descriptor_type: 1, descriptor_count: 128 },
    ]
}

/// The requests that create the shared binding table, where `first` is
/// the first new handle: the layout (`first`), a pool for one set
/// (`first + 1`), and the set (`first + 2`).
pub open spec fn common_descriptor_calls(first: Handle) -> Seq<CallView> {
    seq![
        CallView::CreateDescriptorSetLayout { layout: first, bindings: common_bindings() },
        CallView::CreateDescriptorPool {
            pool: (first + 1) as Handle,
            sizes: common_pool_sizes(),
            max_sets: 1,
        },
        CallView::Op(
            Op::AllocateDescriptorSets {
                pool: (first + 1) as Handle,
                layout: first,
                first_set: (first + 2) as Handle,
                count: 1,
            },
        ),
    ]
}

/// The ledger entries of the shared binding table.
pub open spec fn common_descriptor_objects() -> Seq<Object> {
    seq![fresh(Kind::DescriptorSetLayout), fresh(Kind::DescriptorPool), fresh(Kind::DescriptorSet)]
}

/// What binds each of `textures` for reading by shaders (layout 5).
pub open spec fn texture_bindings(textures: Seq<Texture>) -> Seq<ImageBinding> {
    Seq::new(
        textures.len(),
        |i: int| ImageBinding { view: textures[i].image.view, layout: 5, sampler: textures[i].sampler.sampler },
    )
}

/// The writes that fill `set`: the whole (range: all 64 bits set) of the
/// uniform buffer at binding 0, the whole of the buffer of the scene's
/// addresses at binding 1, and the textures at binding 2.
pub open spec fn set_writes(
    set: Handle,
    uniforms: Handle,
    scene_desc: Handle,
    textures: Seq<ImageBinding>,
) -> Seq<DescriptorWriteView> {
    seq![
        DescriptorWriteView::Buffer {
            set,
            binding: 0,
            descriptor_type: 6,
            buffer: uniforms,
            offset: 0,
            range: 0xffff_ffff_ffff_ffff,
        },
        DescriptorWriteView::Buffer {
            set,
            binding: 1,
            descriptor_type: 6,
            buffer: scene_desc,
            offset: 0,
            range: 0xffff_ffff_ffff_ffff,
        },
        DescriptorWriteView::Images { set, binding: 2, descriptor_type: 1, images: textures },
    ]
}

/// The requests that fill the first `n` of `sets`: one batch of writes for each.
pub open spec fn bind_calls(
    sets: Seq<Handle>,
    n: nat,
    uniforms: Handle,
    scene_desc: Handle,
    textures: Seq<ImageBinding>,
) -> Seq<CallView> {
    Seq::new(
        n,
        |i: int| CallView::UpdateDescriptorSets { writes: set_writes(sets[i], uniforms, scene_desc, textures) },
    )
}

/// What the target is asked for with: the resolution, one texel deep,
/// and use as color attachment (0x10) and storage image (0x8).
pub open spec fn target_info(resolution: Extent2D) -> ImageInfo {
    ImageInfo {
        flags: 0,
        image_type: 0,
        format: 0,
        extent: Extent3D { width: resolution.width, height: resolution.height, depth: 1 },
        mip_levels: 0,
        array_layers: 0,
        samples: 0,
        tiling: 0,
        usage: 0x10u32 | 0x8u32,
        sharing_mode: 0,
        initial_layout: 0,
    }
}

/// The ledger entries that `Data::create` makes for a scene with
/// `textures` textures: the binding table (3), the setup scope (3),
/// the target (3), the scene (14 and 6 for each texture), and the
/// uniform buffer with its memory.
pub open spec fn data_objects(textures: nat) -> Seq<Object> {
    target_objects() + scene_objects(textures) + seq![fresh(Kind::Buffer), fresh(Kind::Memory)]
}

/// The ledger entries with which `Data::create` begins: the binding
/// table (3), the setup scope (3), and the target (3).
pub open spec fn target_objects() -> Seq<Object> {
    common_descriptor_objects() + seq![
        fresh(Kind::CommandPool),
        fresh(Kind::CommandBuffer),
        fresh(Kind::Fence),
    ] + seq![fresh(Kind::Image), fresh(Kind::Memory), fresh(Kind::ImageView)]
}

/// The requests with which `Data::create` begins, where `first` is
/// the first new handle: the binding table; the start of the setup
/// scope; and the target, of the high-dynamic-range format, brought
/// into the general layout.
pub open spec fn target_calls(
    first: Handle,
    queue: crate::context::Queue,
    resolution: Extent2D,
) -> Seq<CallView> {
    let commands = setup_commands(first);
    let fence = (first + 5) as Handle;
    common_descriptor_calls(first) + begin_calls(commands, fence, queue) + image_create_calls(
        commands.buffer,
        (first + 6) as Handle,
        (first + 7) as Handle,
        (first + 8) as Handle,
        Format::Hdr,
        target_info(resolution),
        Some(BarrierInfo::spec_general()),
    )
}

/// The setup scope of `Data::create`, where `first` is the first new
/// handle: pool `first + 3`, command buffer `first + 4`, fence `first + 5`.
pub open spec fn setup_commands(first: Handle) -> crate::scope::Commands {
    crate::scope::Commands { pool: (first + 3) as Handle, buffer: (first + 4) as Handle }
}

/// The ledger entries that `Data::create` destroys again: what the
/// staging buffers of the scene own, and the fence, the command buffer
/// and the pool of the setup scope.
pub open spec fn data_retired(first: Handle, scene: SceneData, indices: nat) -> Seq<Handle> {
    owned_handles(
        scene_staging(
            (first + 9) as Handle,
            scene.vertices@.len(),
            indices,
            scene.primitive_infos@.len(),
            scene.textures@,
        ),
    ) + seq![(first + 5) as Handle, (first + 4) as Handle, (first + 3) as Handle]
}

/// The requests with which `Data::create` creates, where `first` is the
/// first new handle and `indices` are the bytes of the scene's
/// indices: those with which it begins; the scene; and the uniform buffer.
pub open spec fn data_prepare_calls(
    first: Handle,
    queue: crate::context::Queue,
    resolution: Extent2D,
    uniforms_size: u64,
    scene: SceneData,
    indices: Seq<u8>,
) -> Seq<CallView> {
    let commands = setup_commands(first);
    let textures = scene.textures@.len();
    target_calls(first, queue, resolution) + scene_calls(
        commands.buffer,
        (first + 9) as Handle,
        scene.vertices@,
        indices,
        scene.primitive_infos@,
        scene.textures@,
    ) + buffer_create_calls(
        (first + 23 + 6 * textures) as Handle,
        (first + 24 + 6 * textures) as Handle,
        uniforms_info(uniforms_size),
        Location::CpuToGpu,
    )
}

/// The requests with which `Data::create` ends its setup scope: the
/// submission and the wait for it, the destruction of the staging
/// buffers, and of what the scope itself holds.
pub open spec fn data_finish_calls(
    first: Handle,
    queue: crate::context::Queue,
    scene: SceneData,
    indices: nat,
) -> Seq<CallView> {
    let commands = setup_commands(first);
    let fence = (first + 5) as Handle;
    submit_calls(commands, fence, queue) + teardown_calls(
        scene_staging(
            (first + 9) as Handle,
            scene.vertices@.len(),
            indices,
            scene.primitive_infos@.len(),
            scene.textures@,
        ),
    ) + end_calls(commands, fence)
}

/// The requests of `Data::create`: those that create, those that end
/// the setup scope, and the filling of the one set of the binding table.
pub open spec fn data_calls(
    first: Handle,
    queue: crate::context::Queue,
    resolution: Extent2D,
    uniforms_size: u64,
    scene: SceneData,
    indices: Seq<u8>,
    created: Data,
) -> Seq<CallView> {
    data_prepare_calls(first, queue, resolution, uniforms_size, scene, indices) + data_finish_calls(
        first,
        queue,
        scene,
        indices.len(),
    ) + bind_calls(
        created.descriptors.sets@,
        1,
        created.uniforms.buffer.buffer,
        created.scene.scene_desc.buffer,
        texture_bindings(created.scene.textures@),
    )
}

/// What `Data::create` has made stays live when its setup scope is finished.
pub proof fn lemma_data_survives_finish(
    data: Data,
    first: Handle,
    resolution: Extent2D,
    uniforms_size: u64,
    scene: SceneData,
    before: Context,
    after: Context,
)
    requires
        first + 25 + 6 * scene.textures@.len() <= usize::MAX,
        scene.textures@.len() <= MAX_NUM_TEXTURES,
        data.created_at(first, resolution, uniforms_size, scene),
        data.wf(before),
        after.objects() == retire_all(before.objects(), data_retired(first, scene, 4 * scene.indices@.len())),
    ensures
        data.wf(after),
{
    let extra = seq![(first + 5) as Handle, (first + 4) as Handle, (first + 3) as Handle];
    let gone = data_retired(first, scene, 4 * scene.indices@.len());
    let scene_first = (first + 9) as Handle;
    crate::ledger::lemma_retire_all(before.objects(), gone);
    crate::scene::lemma_scene_survives_finish(
        data.scene,
        scene_first,
        scene.vertices@.len(),
        4 * scene.indices@.len(),
        scene.primitive_infos@.len(),
        scene.textures@,
        extra,
        before,
        after,
    );
    assert forall|h: Handle| (h < first + 9 && h != first + 3 && h != first + 4 && h != first + 5) || h
        >= first + 23 + 6 * scene.textures@.len() implies !gone.contains(h) by {
        assert(!extra.contains(h)) by {
            if extra.contains(h) {
                let k = choose|k: int| 0 <= k < extra.len() && extra[k] == h;
                assert(extra[k] == h);
            }
        }
        crate::scene::lemma_not_staged(
            scene_first,
            scene.vertices@.len(),
            4 * scene.indices@.len(),
            scene.primitive_infos@.len(),
            scene.textures@,
            extra,
            h,
        );
    }
    assert(data.descriptors.wf(after)) by {
        assert(data.descriptors.sets@[0] == first + 2);
        assert(before.live(data.descriptors.sets@[0], Kind::DescriptorSet));
    }
    assert(data.target.wf(after));
    assert(data.uniforms.wf(after));
}

/// What the passes share: the binding table, the target they render
/// to, the inputs of the frame and the scene.
#[derive(Debug)]
pub struct Data {
    pub descriptors: Descriptors,
    pub target: Image,
    pub resolution: Extent2D,
    pub uniforms: Uniforms,
    pub scene: Scene,
}

/// Why the shared data could not be created.
#[derive(Clone, Copy, Debug, PartialEq, Eq, Structural)]
pub enum CreateError {
    /// The scene has more textures than the binding table has slots.
    TooManyTextures,
}

impl Data {
    /// Everything the data holds is live in `ctx`, and the textures fit the binding table.
    pub open spec fn wf(&self, ctx: Context) -> bool {
        &&& self.descriptors.wf(ctx)
        &&& self.target.wf(ctx)
        &&& self.uniforms.wf(ctx)
        &&& self.scene.wf(ctx)
        &&& self.scene.textures@.len() <= MAX_NUM_TEXTURES
    }

    /// Everything the data holds has handles from `lo` up to, but not
    /// including, `hi`.
    pub open spec fn spans(&self, lo: int, hi: int) -> bool {
        &&& self.descriptors.spans(lo, hi)
        &&& self.target.spans(lo, hi)
        &&& self.uniforms.spans(lo, hi)
        &&& self.scene.spans(lo, hi)
    }

    /// Shared data that is well-formed stays so while the entries of what
    /// it owns are unchanged.
    pub proof fn lemma_kept(&self, then: Context, now: Context, lo: int, hi: int)
        requires
            self.wf(then),
            self.spans(lo, hi),
            unchanged_within(now.objects(), then.objects(), lo, hi),
        ensures
            self.wf(now),
    {
        self.descriptors.lemma_kept(then, now, lo, hi);
        self.target.lemma_kept(then, now, lo, hi);
        self.uniforms.lemma_kept(then, now, lo, hi);
        self.scene.lemma_kept(then, now, lo, hi);
    }

    /// What the data owns lies within the range it spans.
    pub proof fn lemma_owned_within(&self, lo: int, hi: int)
        requires
            self.spans(lo, hi),
        ensures
            all_within(self.handles(), lo, hi),
    {
        self.scene.lemma_owned_within(lo, hi);
        self.uniforms.buffer.lemma_owned_within(lo, hi);
        self.target.lemma_owned_within(lo, hi);
        self.descriptors.lemma_owned_within(lo, hi);
        let a = self.scene.handles();
        let b = self.uniforms.buffer.handles();
        let c = self.target.handles();
        lemma_all_within_concat(a, b, lo, hi);
        lemma_all_within_concat(a + b, c, lo, hi);
        lemma_all_within_concat(a + b + c, self.descriptors.handles(), lo, hi);
    }

    /// Whether everything the data holds is live in `ctx` and the
    /// textures fit the binding table.
    pub fn is_wf(&self, ctx: &Context) -> (ok: bool)
        ensures
            ok == self.wf(*ctx),
    {
        self.descriptors.is_wf(ctx) && self.target.is_wf(ctx) && self.uniforms.is_wf(ctx) && self.scene.is_wf(ctx)
            && self.scene.textures.len() <= MAX_NUM_TEXTURES as usize
    }

    /// `self` is what `Data::create` makes of `scene` where `first` is
    /// the first new handle.
    pub open spec fn created_at(
        &self,
        first: Handle,
        resolution: Extent2D,
        uniforms_size: u64,
        scene: SceneData,
    ) -> bool {
        let textures = scene.textures@.len();
        &&& self.descriptors.layout == first
        &&& self.descriptors.pool == first + 1
        &&& self.descriptors.sets@ == seq![(first + 2) as Handle]
        &&& self.target == (Image {
            image: (first + 6) as Handle,
            view: (first + 8) as Handle,
            allocation: Some((first + 7) as Handle),
            format: Format::Hdr,
            state: BarrierInfo::spec_general(),
        })
        &&& self.resolution == resolution
        &&& self.scene.uploaded(
            (first + 9) as Handle,
            scene.vertices@.len(),
            4 * scene.indices@.len(),
            scene.primitive_infos@.len(),
            textures,
        )
        &&& self.uniforms.buffer == (Buffer {
            buffer: (first + 23 + 6 * textures) as Handle,
            allocation: (first + 24 + 6 * textures) as Handle,
            size: uniforms_size,
            location: Location::CpuToGpu,
        })
    }

    /// Creates the binding table, begins the setup scope on the
    /// graphics queue and creates the render target in `resolution`.
    fn prepare_target(
        ctx: &mut Context,
        resolution: Extent2D,
    ) -> (r: (Descriptors, OneshotScope, Image))
        ensures
            r.0.layout == old(ctx).objects().len(),
            r.0.pool == old(ctx).objects().len() + 1,
            r.0.sets@ == seq![(old(ctx).objects().len() + 2) as Handle],
            r.1.commands == setup_commands(old(ctx).objects().len() as Handle),
            r.1.fence == old(ctx).objects().len() + 5,
            r.1.queue == old(ctx).queues.graphics,
            r.1.resources@ == Seq::<Resource>::empty(),
            r.2 == (Image {
                image: (old(ctx).objects().len() + 6) as Handle,
                view: (old(ctx).objects().len() + 8) as Handle,
                allocation: Some((old(ctx).objects().len() + 7) as Handle),
                format: Format::Hdr,
                state: BarrierInfo::spec_general(),
            }),
            final(ctx).grows_by(
                *old(ctx),
                target_objects(),
                target_calls(old(ctx).objects().len() as Handle, old(ctx).queues.graphics, resolution),
            ),
            final(ctx).objects().len() == old(ctx).objects().len() + 9,
            r.0.wf(*final(ctx)),
            r.1.wf(*final(ctx)),
            r.2.wf(*final(ctx)),
    {
        let first = ctx.created();
        let queue = ctx.queues.graphics();
        let descriptors = Data::create_descriptors(ctx);
        let ghost with_table = *ctx;
        let init_scope = OneshotScope::begin_on(ctx, queue);
        let ghost with_scope = *ctx;
        let target = {
            let info = ImageInfo {
                flags: 0,
                image_type: 0,
                format: 0,
                extent: resolution.into_3d(),
                mip_levels: 0,
                array_layers: 0,
                samples: 0,
                tiling: 0,
                usage: codes::image_usage_color_attachment() | codes::image_usage_storage(),
                sharing_mode: codes::sharing_exclusive(),
                initial_layout: 0,
            };
            let to = BarrierInfo::general();
            Image::create(ctx, &init_scope, Format::Hdr, &info, Some(&to))
        };
        proof {
            lemma_scope_survives_growth(init_scope, with_scope, *ctx);
            let a = common_descriptor_calls(first);
            let b = begin_calls(init_scope.commands, init_scope.fence, queue);
            let c = image_create_calls(
                init_scope.commands.buffer,
                (first + 6) as Handle,
                (first + 7) as Handle,
                (first + 8) as Handle,
                Format::Hdr,
                target_info(resolution),
                Some(BarrierInfo::spec_general()),
            );
            lemma_concat_assoc(old(ctx).log(), a, b);
            lemma_concat_assoc(old(ctx).log(), a + b, c);
            let o1 = common_descriptor_objects();
            let o2 = seq![fresh(Kind::CommandPool), fresh(Kind::CommandBuffer), fresh(Kind::Fence)];
            let o3 = seq![fresh(Kind::Image), fresh(Kind::Memory), fresh(Kind::ImageView)];
            lemma_concat_assoc(old(ctx).objects(), o1, o2);
            lemma_concat_assoc(old(ctx).objects(), o1 + o2, o3);
            assert(descriptors.wf(*ctx)) by {
                assert(descriptors.sets@[0] == first + 2);
                assert(with_table.live(descriptors.sets@[0], Kind::DescriptorSet));
            }
        }
        (descriptors, init_scope, target)
    }

    /// Creates everything that `create` creates, and hands back the
    /// setup scope, still recording.
    #[verifier::rlimit(40)]
    fn prepare(
        ctx: &mut Context,
        scene: &SceneData,
        resolution: Extent2D,
        uniforms_size: u64,
    ) -> (r: (Data, OneshotScope))
        requires
            scene.wf(),
            scene.textures@.len() <= MAX_NUM_TEXTURES,
        ensures
            r.0.created_at(old(ctx).objects().len() as Handle, resolution, uniforms_size, *scene),
            r.0.wf(*final(ctx)),
            r.1.wf(*final(ctx)),
            r.1.commands == setup_commands(old(ctx).objects().len() as Handle),
            r.1.fence == old(ctx).objects().len() + 5,
            r.1.queue == old(ctx).queues.graphics,
            r.1.resources@ == scene_staging(
                (old(ctx).objects().len() + 9) as Handle,
                scene.vertices@.len(),
                4 * scene.indices@.len(),
                scene.primitive_infos@.len(),
                scene.textures@,
            ),
            final(ctx).objects().len() == old(ctx).objects().len() + 25 + 6 * scene.textures@.len(),
            exists|indices: Seq<u8>|
                encodes(scene.indices@, indices) && #[trigger] final(ctx).grows_by(
                    *old(ctx),
                    data_objects(scene.textures@.len()),
                    data_prepare_calls(
                        old(ctx).objects().len() as Handle,
                        old(ctx).queues.graphics,
                        resolution,
                        uniforms_size,
                        *scene,
                        indices,
                    ),
                ),
    {
        let first = ctx.created();
        let ghost queue = ctx.queues.graphics;
        let (descriptors, mut init_scope, target) = Data::prepare_target(ctx, resolution);
        let ghost commands = init_scope.commands;
        let ghost with_target = *ctx;
        let scene_first = ctx.created();
        let created_scene = Scene::create(ctx, &mut init_scope, scene);
        let ghost with_scene = *ctx;
        let ghost index_bytes = choose|indices: Seq<u8>|
            encodes(scene.indices@, indices) && #[trigger] with_scene.grows_by(
                with_target,
                scene_objects(scene.textures@.len()),
                scene_calls(
                    commands.buffer,
                    scene_first,
                    scene.vertices@,
                    indices,
                    scene.primitive_infos@,
                    scene.textures@,
                ),
            );
        let uniforms = Uniforms::create(ctx, uniforms_size);
        let total = ctx.created();
        let data = Data { descriptors, target, resolution, uniforms, scene: created_scene };
        proof {
            crate::scene::lemma_textures_len(scene.textures@.len());
            assert(scene_first == first + 9);
            assert(total == first + 25 + 6 * scene.textures@.len());
            lemma_scope_survives_growth(init_scope, with_scene, *ctx);
            assert(init_scope.resources@ =~= scene_staging(
                scene_first,
                scene.vertices@.len(),
                4 * scene.indices@.len(),
                scene.primitive_infos@.len(),
                scene.textures@,
            ));
            assert(data.scene.wf(*ctx)) by {
                assert forall|i: int| 0 <= i < data.scene.textures@.len() implies (
                #[trigger] data.scene.textures@[i]).wf(*ctx) by {
                    assert(data.scene.textures@[i].wf(with_scene));
                }
            }
            assert(data.descriptors.wf(*ctx)) by {
                assert(data.descriptors.sets@[0] == first + 2);
                assert(with_target.live(data.descriptors.sets@[0], Kind::DescriptorSet));
            }
            let abc = target_calls(first, queue, resolution);
            let d = scene_calls(
                commands.buffer,
                scene_first,
                scene.vertices@,
                index_bytes,
                scene.primitive_infos@,
                scene.textures@,
            );
            let e = buffer_create_calls(
                (first + 23 + 6 * scene.textures@.len()) as Handle,
                (first + 24 + 6 * scene.textures@.len()) as Handle,
                uniforms_info(uniforms_size),
                Location::CpuToGpu,
            );
            assert(with_target.log() == old(ctx).log() + abc);
            assert(with_scene.log() == with_target.log() + d);
            assert(ctx.log() == with_scene.log() + e);
            lemma_concat_assoc(old(ctx).log(), abc, d);
            lemma_concat_assoc(old(ctx).log(), abc + d, e);
            assert(ctx.log() == old(ctx).log() + (abc + d + e));
            let o123 = target_objects();
            let o4 = scene_objects(scene.textures@.len());
            let o5 = seq![fresh(Kind::Buffer), fresh(Kind::Memory)];
            assert(with_target.objects() == old(ctx).objects() + o123);
            assert(with_scene.objects() == with_target.objects() + o4);
            assert(ctx.objects() == with_scene.objects() + o5);
            lemma_concat_assoc(old(ctx).objects(), o123, o4);
            lemma_concat_assoc(old(ctx).objects(), o123 + o4, o5);
            assert(ctx.objects() == old(ctx).objects() + (o123 + o4 + o5));
            assert(ctx.grows_by(
                *old(ctx),
                data_objects(scene.textures@.len()),
                data_prepare_calls(first, queue, resolution, uniforms_size, *scene, index_bytes),
            ));
        }
        (data, init_scope)
    }

    /// Creates what the passes share, for `scene`: the binding table,
    /// the render target in `resolution`, the scene on the device and a
    /// uniform buffer of `uniforms_size` bytes. Uploads go through a
    /// setup scope on the graphics queue, which is finished before the
    /// binding table is filled. A scene with more textures than the
    /// table has slots is refused before anything is created.
    pub fn create(
        ctx: &mut Context,
        scene: &SceneData,
        resolution: Extent2D,
        uniforms_size: u64,
    ) -> (r: Result<Data, CreateError>)
        requires
            scene.wf(),
        ensures
            scene.textures@.len() > MAX_NUM_TEXTURES ==> r == Err::<Data, CreateError>(
                CreateError::TooManyTextures,
            ) && *final(ctx) == *old(ctx),
            scene.textures@.len() <= MAX_NUM_TEXTURES ==> r is Ok,
            r matches Ok(data) ==> {
                let first = old(ctx).objects().len() as Handle;
                &&& data.created_at(first, resolution, uniforms_size, *scene)
                &&& data.spans(first as int, final(ctx).objects().len() as int)
                &&& data.wf(*final(ctx))
                &&& final(ctx).same_device(*old(ctx))
                &&& final(ctx).objects() == retire_all(
                    old(ctx).objects() + data_objects(scene.textures@.len()),
                    data_retired(first, *scene, 4 * scene.indices@.len()),
                )
                &&& exists|indices: Seq<u8>|
                    encodes(scene.indices@, indices) && final(ctx).log() == old(ctx).log()
                        + #[trigger] data_calls(
                        first,
                        old(ctx).queues.graphics,
                        resolution,
                        uniforms_size,
                        *scene,
                        indices,
                        data,
                    )
            },
    {
        if scene.textures.len() > MAX_NUM_TEXTURES as usize {
            return Err(CreateError::TooManyTextures);
        }
        let first = ctx.created();
        let ghost queue = ctx.queues.graphics;
        let (data, init_scope) = Data::prepare(ctx, scene, resolution, uniforms_size);
        let ghost prepared = *ctx;
        let ghost index_bytes = choose|indices: Seq<u8>|
            encodes(scene.indices@, indices) && #[trigger] prepared.grows_by(
                *old(ctx),
                data_objects(scene.textures@.len()),
                data_prepare_calls(first, queue, resolution, uniforms_size, *scene, indices),
            );
        let total = ctx.created();
        init_scope.finish(ctx);
        let ghost finished = *ctx;
        proof {
            assert(total == first + 25 + 6 * scene.textures@.len());
            assert(init_scope.handles() == data_retired(first, *scene, 4 * scene.indices@.len()));
            lemma_data_survives_finish(data, first, resolution, uniforms_size, *scene, prepared, finished);
        }
        data.bind_to_descriptor_sets(ctx);
        proof {
            let a = data_prepare_calls(first, queue, resolution, uniforms_size, *scene, index_bytes);
            let b = data_finish_calls(first, queue, *scene, index_bytes.len());
            let c = bind_calls(
                data.descriptors.sets@,
                1,
                data.uniforms.buffer.buffer,
                data.scene.scene_desc.buffer,
                texture_bindings(data.scene.textures@),
            );
            assert(prepared.log() == old(ctx).log() + a);
            assert(finished.log() == prepared.log() + b);
            assert(ctx.log() == finished.log() + c);
            lemma_concat_assoc(old(ctx).log(), a, b);
            lemma_concat_assoc(old(ctx).log(), a + b, c);
            assert(ctx.log() == old(ctx).log() + data_calls(
                first,
                queue,
                resolution,
                uniforms_size,
                *scene,
                index_bytes,
                data,
            ));
        }
        Ok(data)
    }

    /// The ledger entries the data owns, in the order in which they are
    /// destroyed: those of the scene, the uniform buffer, the target
    /// and the binding table.
    pub open spec fn handles(&self) -> Seq<Handle> {
        self.scene.handles() + self.uniforms.buffer.handles() + self.target.handles() + self.descriptors.handles()
    }

    /// The requests that destroy the data.
    pub open spec fn destroy_calls(&self) -> Seq<CallView> {
        self.scene.destroy_calls() + self.uniforms.buffer.destroy_calls() + self.target.destroy_calls()
            + self.descriptors.destroy_calls()
    }

    /// Destroys the scene, the uniform buffer, the target and the
    /// binding table, in this order. The data is given up with the call.
    pub fn destroy_with(self, ctx: &mut Context)
        requires
            self.wf(*old(ctx)),
        ensures
            final(ctx).retires(*old(ctx), self.handles(), self.destroy_calls()),
            !self.wf(*final(ctx)),
    {
        proof {
            assert forall|i: int| 0 <= i < self.scene.textures@.len() implies (
            #[trigger] self.scene.textures@[i]).within(*old(ctx)) by {
                assert(self.scene.textures@[i].wf(*old(ctx)));
            }
        }
        self.scene.release(ctx);
        self.uniforms.buffer.release(ctx);
        self.target.release(ctx);
        proof {
            assert forall|i: int| 0 <= i < self.descriptors.sets@.len() implies (
            #[trigger] self.descriptors.sets@[i]) < ctx.objects().len() by {
                assert(old(ctx).live(self.descriptors.sets@[i], Kind::DescriptorSet));
            }
        }
        self.descriptors.release(ctx);
        proof {
            lemma_retire_all_concat(old(ctx).objects(), self.scene.handles(), self.uniforms.buffer.handles());
            lemma_retire_all_concat(
                old(ctx).objects(),
                self.scene.handles() + self.uniforms.buffer.handles(),
                self.target.handles(),
            );
            lemma_retire_all_concat(
                old(ctx).objects(),
                self.scene.handles() + self.uniforms.buffer.handles() + self.target.handles(),
                self.descriptors.handles(),
            );
            assert(ctx.log() =~= old(ctx).log() + self.destroy_calls());
            crate::ledger::lemma_retire_all(old(ctx).objects(), self.handles());
            assert(self.handles()[0] == self.scene.primitives.buffer);
        }
    }

    /// Creates the shared binding table, with its one set.
    pub fn create_descriptors(ctx: &mut Context) -> (d: Descriptors)
        ensures
            d.layout == old(ctx).objects().len(),
            d.pool == old(ctx).objects().len() + 1,
            d.sets@ == seq![(old(ctx).objects().len() + 2) as Handle],
            final(ctx).grows_by(
                *old(ctx),
                common_descriptor_objects(),
                common_descriptor_calls(old(ctx).objects().len() as Handle),
            ),
            d.wf(*final(ctx)),
    {
        let layout = {
            let mut bindings: Vec<LayoutBinding> = Vec::new();
            bindings.push(
                LayoutBinding {
                    binding: 0,
                    descriptor_type: codes::descriptor_uniform_buffer(),
                    descriptor_count: 1,
                    stage_flags: codes::shader_stage_vertex() | codes::shader_stage_raygen(),
                    binding_flags: 0,
                },
            );
            bindings.push(
                LayoutBinding {
                    binding: 1,
                    descriptor_type: codes::descriptor_uniform_buffer(),
                    descriptor_count: 1,
                    stage_flags: codes::shader_stage_fragment() | codes::shader_stage_raygen()
                        | codes::shader_stage_closest_hit(),
                    binding_flags: 0,
                },
            );
            bindings.push(
                LayoutBinding {
                    binding: 2,
                    descriptor_type: codes::descriptor_combined_image_sampler(),
                    descriptor_count: MAX_NUM_TEXTURES,
                    stage_flags: codes::shader_stage_fragment() | codes::shader_stage_raygen(),
                    binding_flags: codes::binding_partially_bound(),
                },
            );
            assert(bindings@ =~= common_bindings());
            let layout = ctx.create(Kind::DescriptorSetLayout);
            ctx.record(Call::CreateDescriptorSetLayout { layout, bindings });
            layout
        };
        let pool = {
            let mut sizes: Vec<PoolSize> = Vec::new();
            sizes.push(PoolSize { descriptor_type: codes::descriptor_uniform_buffer(), descriptor_count: 1 });
            sizes.push(PoolSize { descriptor_type: codes::descriptor_uniform_buffer(), descriptor_count: 1 });
            sizes.push(
                PoolSize {
                    descriptor_type: codes::descriptor_combined_image_sampler(),
                    descriptor_count: MAX_NUM_TEXTURES,
                },
            );
            assert(sizes@ =~= common_pool_sizes());
            let pool = ctx.create(Kind::DescriptorPool);
            ctx.record(Call::CreateDescriptorPool { pool, sizes, max_sets: 1 });
            pool
        };
        let sets = {
            let set = ctx.create(Kind::DescriptorSet);
            ctx.emit(Op::AllocateDescriptorSets { pool, layout, first_set: set, count: 1 });
            let mut sets: Vec<Handle> = Vec::new();
            sets.push(set);
            sets
        };
        proof {
            assert(ctx.objects() =~= old(ctx).objects() + common_descriptor_objects());
            assert(ctx.log() =~= old(ctx).log() + common_descriptor_calls(layout));
        }
        Descriptors { layout, pool, sets }
    }

    /// What binds the textures of the scene.
    pub fn texture_infos(&self) -> (infos: Vec<ImageBinding>)
        ensures
            infos@ == texture_bindings(self.scene.textures@),
    {
        let mut infos: Vec<ImageBinding> = Vec::new();
        let layout = codes::layout_shader_read_only();
        let mut i: usize = 0;
        while i < self.scene.textures.len()
            invariant
                i <= self.scene.textures@.len(),
                layout == 5,
                infos@ == texture_bindings(self.scene.textures@.take(i as int)),
            decreases self.scene.textures@.len() - i,
        {
            let texture = &self.scene.textures[i];
            infos.push(ImageBinding { view: texture.image.view, layout, sampler: texture.sampler.sampler });
            proof {
                assert(infos@ =~= texture_bindings(self.scene.textures@.take(i + 1)));
            }
            i = i + 1;
        }
        proof {
            assert(self.scene.textures@.take(i as int) =~= self.scene.textures@);
        }
        infos
    }

    /// Fills every set of the binding table with the uniform buffer,
    /// the buffer of the scene's addresses and the textures, in one
    /// batch of writes for each set.
    pub fn bind_to_descriptor_sets(&self, ctx: &mut Context)
        requires
            self.wf(*old(ctx)),
        ensures
            final(ctx).requests(
                *old(ctx),
                bind_calls(
                    self.descriptors.sets@,
                    self.descriptors.sets@.len(),
                    self.uniforms.buffer.buffer,
                    self.scene.scene_desc.buffer,
                    texture_bindings(self.scene.textures@),
                ),
            ),
    {
        let ghost sets = self.descriptors.sets@;
        let ghost textures = texture_bindings(self.scene.textures@);
        let uniforms = self.uniforms.buffer.buffer;
        let scene_desc = self.scene.scene_desc.buffer;
        proof {
            assert(ctx.log() =~= old(ctx).log() + bind_calls(sets, 0, uniforms, scene_desc, textures));
        }
        let mut i: usize = 0;
        while i < self.descriptors.sets.len()
            invariant
                i <= self.descriptors.sets@.len(),
                sets == self.descriptors.sets@,
                textures == texture_bindings(self.scene.textures@),
                uniforms == self.uniforms.buffer.buffer,
                scene_desc == self.scene.scene_desc.buffer,
                ctx.requests(*old(ctx), bind_calls(sets, i as nat, uniforms, scene_desc, textures)),
            decreases self.descriptors.sets@.len() - i,
        {
            let set = self.descriptors.sets[i];
            let textures_info = self.texture_infos();
            let mut writes: Vec<DescriptorWrite> = Vec::new();
            writes.push(
                DescriptorWrite::Buffer {
                    set,
                    binding: 0,
                    descriptor_type: codes::descriptor_uniform_buffer(),
                    buffer: uniforms,
                    offset: 0,
                    range: codes::whole_size(),
                },
            );
            writes.push(
                DescriptorWrite::Buffer {
                    set,
                    binding: 1,
                    descriptor_type: codes::descriptor_uniform_buffer(),
                    buffer: scene_desc,
                    offset: 0,
                    range: codes::whole_size(),
                },
            );
            writes.push(
                DescriptorWrite::Images {
                    set,
                    binding: 2,
                    descriptor_type: codes::descriptor_combined_image_sampler(),
                    images: textures_info,
                },
            );
            proof {
                assert(crate::call::writes_view(writes@) =~= set_writes(set, uniforms, scene_desc, textures));
            }
            ctx.record(Call::UpdateDescriptorSets { writes });
            proof {
                assert(ctx.log() =~= old(ctx).log() + bind_calls(
                    sets,
                    (i + 1) as nat,
                    uniforms,
                    scene_desc,
                    textures,
                ));
            }
            i = i + 1;
        }
    }
}

} // verus!
