use vstd::prelude::*;
use crate::buffer::{
    Buffer, DeviceAddress, buffer_create_calls, staged_buffer, staged_objects, staged_upload_calls,
    staging_buffer,
};
use crate::call::{BufferInfo, CallView, Handle, Location, Op};
use crate::codes;
use crate::context::Context;
use crate::image::{Image, RgbaImage, texture_image, texture_upload_calls, texture_upload_objects};
use crate::ledger::{
    Kind, Object, all_within, fresh, lemma_all_within_concat, lemma_retire_all, lemma_retire_all_concat,
    retire_all, unchanged_within,
};
use crate::sampler::{Sampler, sampler_info};
use crate::scope::{OneshotScope, Resource, lemma_owned_handles_concat, lemma_scope_survives_growth, owned_handles};

verus! {

/// Where the shaders find the buffers of the scene.
#[derive(Clone, Copy, Debug, PartialEq, Eq, Structural)]
pub struct SceneInfo {
    pub indices_address: DeviceAddress,
    pub vertices_address: DeviceAddress,
    pub primitives_address: DeviceAddress,
}

/// A texture: the image and the sampler it is read through.
#[derive(Debug, PartialEq, Eq)]
pub struct Texture {
    pub image: Image,
    pub sampler: Sampler,
}

/// The content of a scene as the host holds it: the vertices and the
/// records of the primitives as bytes, the indices, and the pictures
/// of the textures.
#[derive(Clone, Debug, PartialEq, Eq)]
pub struct SceneData {
    pub vertices: Vec<u8>,
    pub indices: Vec<u32>,
    pub primitive_infos: Vec<u8>,
    pub textures: Vec<RgbaImage>,
}

impl SceneData {
    /// Every picture has four bytes for each of its pixels.
    pub open spec fn wf(&self) -> bool {
        forall|i: int| 0 <= i < self.textures@.len() ==> (#[trigger] self.textures@[i]).wf()
    }

    /// Whether every picture has four bytes for each of its pixels.
    pub fn is_wf(&self) -> (ok: bool)
        ensures
            ok == self.wf(),
    {
        let mut i: usize = 0;
        while i < self.textures.len()
            invariant
                i <= self.textures@.len(),
                forall|k: int| 0 <= k < i ==> (#[trigger] self.textures@[k]).wf(),
            decreases self.textures@.len() - i,
        {
            if !self.textures[i].is_wf() {
                return false;
            }
            i = i + 1;
        }
        true
    }
}

/// Byte `at` of the four bytes of `index`, counted from the lowest
/// byte where `little_endian` holds and from the highest where not.
pub open spec fn index_byte(index: u32, at: int, little_endian: bool) -> u8 {
    let shift = if little_endian {
        (8 * at) as u32
    } else {
        (8 * (3 - at)) as u32
    };
    ((index >> shift) & 0xff) as u8
}

/// The bytes of `indices`, four for each index, in one of the two byte orders.
pub open spec fn index_encoding(indices: Seq<u32>, little_endian: bool) -> Seq<u8> {
    Seq::new(4 * indices.len(), |k: int| index_byte(indices[k / 4], k % 4, little_endian))
}

/// `bytes` are the bytes of `indices` as a machine keeps them in
/// memory: four for each index, in one byte order throughout.
pub open spec fn encodes(indices: Seq<u32>, bytes: Seq<u8>) -> bool {
    &&& bytes.len() == 4 * indices.len()
    &&& bytes == index_encoding(indices, true) || bytes == index_encoding(indices, false)
}

/// The scene on the device.
#[derive(Debug)]
pub struct Scene {
    pub indices: Buffer,
    pub vertices: Buffer,
    pub primitives: Buffer,
    pub scene_desc: Buffer,
    pub textures: Vec<Texture>,
    pub device_desc: SceneInfo,
}

/// What the vertex buffer is created with: use as vertex buffer (0x80)
/// and storage buffer (0x20), through its device address (0x20000)
/// and as input to acceleration-structure builds (0x80000).
pub open spec fn vertex_info() -> BufferInfo {
    BufferInfo { size: 0, usage: 0x80u32 | 0x20u32 | 0x20000u32 | 0x80000u32, sharing_mode: 0 }
}

/// What the index buffer is created with: as the vertex buffer, but
/// for use as index buffer (0x40).
pub open spec fn index_info() -> BufferInfo {
    BufferInfo { size: 0, usage: 0x40u32 | 0x20u32 | 0x20000u32 | 0x80000u32, sharing_mode: 0 }
}

/// What the buffer of primitive records is created with: use through
/// its device address (0x20000) and as storage buffer (0x20).
pub open spec fn primitives_info() -> BufferInfo {
    BufferInfo { size: 0, usage: 0x20000u32 | 0x20u32, sharing_mode: 0 }
}

/// What the buffer of the scene's addresses is created with: 24 bytes, for
/// three addresses, for use as uniform buffer (0x10).
pub open spec fn scene_desc_info() -> BufferInfo {
    BufferInfo { size: 24, usage: 0x10, sharing_mode: 0 }
}

/// The texture whose first new handle is `first`.
pub open spec fn texture_at(first: Handle) -> Texture {
    Texture { image: texture_image(first), sampler: Sampler { sampler: (first + 5) as Handle } }
}

/// The ledger entries of one texture: those of the upload, and the sampler.
pub open spec fn texture_objects() -> Seq<Object> {
    texture_upload_objects() + seq![fresh(Kind::Sampler)]
}

/// The requests that create one texture from `picture`.
pub open spec fn texture_calls(
    commands: Handle,
    first: Handle,
    picture: RgbaImage,
) -> Seq<CallView> {
    texture_upload_calls(commands, first, picture.width, picture.height, picture.pixels@) + seq![
        CallView::Op(Op::CreateSampler { sampler: (first + 5) as Handle, info: sampler_info() }),
    ]
}

/// The ledger entries of the first `n` textures: six for each.
pub open spec fn textures_objects(n: nat) -> Seq<Object>
    decreases n,
{
    if n == 0 {
        Seq::empty()
    } else {
        textures_objects((n - 1) as nat) + texture_objects()
    }
}

/// The requests that create textures from the first `n` of `pictures`,
/// texture `i` with the handles from `first + 6 i` on.
pub open spec fn textures_calls(
    commands: Handle,
    first: Handle,
    pictures: Seq<RgbaImage>,
    n: nat,
) -> Seq<CallView>
    decreases n,
{
    if n == 0 {
        Seq::empty()
    } else {
        let i = (n - 1) as nat;
        textures_calls(commands, first, pictures, i) + texture_calls(
            commands,
            (first + 6 * i) as Handle,
            pictures[i as int],
        )
    }
}

/// The staging buffers of the first `n` texture uploads.
pub open spec fn textures_staging(first: Handle, pictures: Seq<RgbaImage>, n: nat) -> Seq<Resource>
    decreases n,
{
    if n == 0 {
        Seq::empty()
    } else {
        let i = (n - 1) as nat;
        textures_staging(first, pictures, i).push(
            Resource::Buffer(staging_buffer((first + 6 * i) as Handle, pictures[i as int].pixels@.len())),
        )
    }
}

/// The ledger entries that the first `n` of `textures` own, texture by texture.
pub open spec fn textures_handles(textures: Seq<Texture>, n: nat) -> Seq<Handle>
    decreases n,
{
    if n == 0 {
        Seq::empty()
    } else {
        textures_handles(textures, (n - 1) as nat) + textures[n - 1].handles()
    }
}

/// The requests that destroy the first `n` of `textures`, texture by texture.
pub open spec fn textures_destroy_calls(textures: Seq<Texture>, n: nat) -> Seq<CallView>
    decreases n,
{
    if n == 0 {
        Seq::empty()
    } else {
        textures_destroy_calls(textures, (n - 1) as nat) + textures[n - 1].destroy_calls()
    }
}

/// What textures own lies within the range that they span.
pub proof fn lemma_textures_within(textures: Seq<Texture>, n: nat, lo: int, hi: int)
    requires
        n <= textures.len(),
        forall|i: int| 0 <= i < textures.len() ==> (#[trigger] textures[i]).spans(lo, hi),
    ensures
        all_within(textures_handles(textures, n), lo, hi),
    decreases n,
{
    if n > 0 {
        lemma_textures_within(textures, (n - 1) as nat, lo, hi);
        assert(textures[n - 1].spans(lo, hi));
        textures[n - 1].lemma_owned_within(lo, hi);
        lemma_all_within_concat(textures_handles(textures, (n - 1) as nat), textures[n - 1].handles(), lo, hi);
    }
}

/// The first `n` textures have six ledger entries each.
pub proof fn lemma_textures_len(n: nat)
    ensures
        textures_objects(n).len() == 6 * n,
    decreases n,
{
    if n > 0 {
        lemma_textures_len((n - 1) as nat);
    }
}

/// What the staging buffers of the first `n` texture uploads own are the
/// first two of the six handles of each texture.
pub proof fn lemma_textures_staging_handles(
    first: Handle,
    pictures: Seq<RgbaImage>,
    n: nat,
    h: Handle,
)
    requires
        n <= pictures.len(),
        first + 6 * n <= usize::MAX,
        owned_handles(textures_staging(first, pictures, n)).contains(h),
    ensures
        first <= h < first + 6 * n,
        (h - first) % 6 == 0 || (h - first) % 6 == 1,
    decreases n,
{
    if n > 0 {
        let i = (n - 1) as nat;
        let init = textures_staging(first, pictures, i);
        let last = Resource::Buffer(staging_buffer((first + 6 * i) as Handle, pictures[i as int].pixels@.len()));
        let all = textures_staging(first, pictures, n);
        assert(all.drop_last() =~= init);
        assert(all.last() == last);
        let owned = owned_handles(all);
        let k = choose|k: int| 0 <= k < owned.len() && owned[k] == h;
        if k < owned_handles(init).len() {
            assert(owned_handles(init)[k] == h);
            lemma_textures_staging_handles(first, pictures, i, h);
        } else {
            assert(last.handles()[k - owned_handles(init).len()] == h);
        }
    }
}

/// What the staging buffers of a scene own are the first two handles
/// of each of the three staged uploads and of each texture.
pub proof fn lemma_scene_staging_handles(
    first: Handle,
    vertices: nat,
    indices: nat,
    primitive_infos: nat,
    pictures: Seq<RgbaImage>,
    h: Handle,
)
    requires
        first + 14 + 6 * pictures.len() <= usize::MAX,
        owned_handles(scene_staging(first, vertices, indices, primitive_infos, pictures)).contains(h),
    ensures
        first <= h < first + 14 + 6 * pictures.len(),
        h < first + 14 ==> h == first || h == first + 1 || h == first + 4 || h == first + 5 || h == first + 8
            || h == first + 9,
        h >= first + 14 ==> (h - first - 14) % 6 == 0 || (h - first - 14) % 6 == 1,
{
    let a = Resource::Buffer(staging_buffer(first, vertices));
    let b = Resource::Buffer(staging_buffer((first + 4) as Handle, indices));
    let c = Resource::Buffer(staging_buffer((first + 8) as Handle, primitive_infos));
    let fixed = seq![a, b, c];
    let rest = textures_staging((first + 14) as Handle, pictures, pictures.len());
    lemma_owned_handles_concat(fixed, rest);
    assert(fixed.drop_last() =~= seq![a, b]);
    assert(seq![a, b].drop_last() =~= seq![a]);
    assert(seq![a].drop_last() =~= Seq::<Resource>::empty());
    assert(owned_handles(Seq::<Resource>::empty()) =~= Seq::<Handle>::empty());
    assert(seq![a].last() == a);
    assert(seq![a, b].last() == b);
    assert(fixed.last() == c);
    assert(owned_handles(seq![a]) =~= a.handles());
    assert(owned_handles(seq![a, b]) =~= a.handles() + b.handles());
    assert(owned_handles(fixed) =~= a.handles() + b.handles() + c.handles());
    let owned = owned_handles(fixed) + owned_handles(rest);
    let k = choose|k: int| 0 <= k < owned.len() && owned[k] == h;
    if k < 6 {
        assert(owned[k] == owned_handles(fixed)[k]);
    } else {
        assert(owned_handles(rest)[k - 6] == h);
        lemma_textures_staging_handles((first + 14) as Handle, pictures, pictures.len(), h);
    }
}

/// A handle that is none of a scene's staging handles and none of
/// `extra` is none of the two together.
pub proof fn lemma_not_staged(
    first: Handle,
    vertices: nat,
    indices: nat,
    primitive_infos: nat,
    pictures: Seq<RgbaImage>,
    extra: Seq<Handle>,
    h: Handle,
)
    requires
        first + 14 + 6 * pictures.len() <= usize::MAX,
        !extra.contains(h),
        h < first || h >= first + 14 + 6 * pictures.len() || (h < first + 14 && h != first && h != first + 1 && h
            != first + 4 && h != first + 5 && h != first + 8 && h != first + 9) || (h >= first + 14 && (h
            - first - 14) % 6 >= 2),
    ensures
        !(owned_handles(scene_staging(first, vertices, indices, primitive_infos, pictures)) + extra).contains(h),
{
    let staged = owned_handles(scene_staging(first, vertices, indices, primitive_infos, pictures));
    let all = staged + extra;
    if all.contains(h) {
        let k = choose|k: int| 0 <= k < all.len() && all[k] == h;
        if k < staged.len() {
            assert(staged[k] == h);
            assert(staged.contains(h));
            lemma_scene_staging_handles(first, vertices, indices, primitive_infos, pictures, h);
        } else {
            assert(extra[k - staged.len()] == h);
            assert(extra.contains(h));
        }
    }
}

/// A scene stays well-formed when the staging buffers of its upload
/// and objects apart from it are destroyed.
pub proof fn lemma_scene_survives_finish(
    scene: Scene,
    first: Handle,
    vertices: nat,
    indices: nat,
    primitive_infos: nat,
    pictures: Seq<RgbaImage>,
    extra: Seq<Handle>,
    before: Context,
    after: Context,
)
    requires
        first + 14 + 6 * pictures.len() <= usize::MAX,
        scene.uploaded(first, vertices, indices, primitive_infos, pictures.len()),
        scene.wf(before),
        forall|k: int| 0 <= k < extra.len() ==> (#[trigger] extra[k]) < first || extra[k] >= first + 14 + 6
            * pictures.len(),
        after.objects() == retire_all(
            before.objects(),
            owned_handles(scene_staging(first, vertices, indices, primitive_infos, pictures)) + extra,
        ),
    ensures
        scene.wf(after),
{
    let gone = owned_handles(scene_staging(first, vertices, indices, primitive_infos, pictures)) + extra;
    lemma_retire_all(before.objects(), gone);
    assert forall|h: Handle| first <= h < first + 14 + 6 * pictures.len() implies !extra.contains(h) by {
        if extra.contains(h) {
            let k = choose|k: int| 0 <= k < extra.len() && extra[k] == h;
            assert(extra[k] < first || extra[k] >= first + 14 + 6 * pictures.len());
        }
    }
    lemma_not_staged(first, vertices, indices, primitive_infos, pictures, extra, (first + 2) as Handle);
    lemma_not_staged(first, vertices, indices, primitive_infos, pictures, extra, (first + 3) as Handle);
    lemma_not_staged(first, vertices, indices, primitive_infos, pictures, extra, (first + 6) as Handle);
    lemma_not_staged(first, vertices, indices, primitive_infos, pictures, extra, (first + 7) as Handle);
    lemma_not_staged(first, vertices, indices, primitive_infos, pictures, extra, (first + 10) as Handle);
    lemma_not_staged(first, vertices, indices, primitive_infos, pictures, extra, (first + 11) as Handle);
    lemma_not_staged(first, vertices, indices, primitive_infos, pictures, extra, (first + 12) as Handle);
    lemma_not_staged(first, vertices, indices, primitive_infos, pictures, extra, (first + 13) as Handle);
    assert forall|i: int| 0 <= i < scene.textures@.len() implies (#[trigger] scene.textures@[i]).wf(after) by {
        let base = first + 14 + 6 * i;
        assert(scene.textures@[i] == texture_at(base as Handle));
        assert(scene.textures@[i].wf(before));
        lemma_not_staged(first, vertices, indices, primitive_infos, pictures, extra, (base + 2) as Handle);
        lemma_not_staged(first, vertices, indices, primitive_infos, pictures, extra, (base + 3) as Handle);
        lemma_not_staged(first, vertices, indices, primitive_infos, pictures, extra, (base + 4) as Handle);
        lemma_not_staged(first, vertices, indices, primitive_infos, pictures, extra, (base + 5) as Handle);
    }
}

impl Texture {
    /// Image and sampler are live in `ctx`.
    pub open spec fn wf(&self, ctx: Context) -> bool {
        self.image.wf(ctx) && self.sampler.wf(ctx)
    }

    /// The ledger entries the texture owns.
    pub open spec fn handles(&self) -> Seq<Handle> {
        self.image.handles() + seq![self.sampler.sampler]
    }

    /// The requests that destroy the texture: the image, then the sampler.
    pub open spec fn destroy_calls(&self) -> Seq<CallView> {
        self.image.destroy_calls() + seq![CallView::Op(Op::DestroySampler { sampler: self.sampler.sampler })]
    }

    /// Image and sampler have handles from `lo` up to, but not including, `hi`.
    pub open spec fn spans(&self, lo: int, hi: int) -> bool {
        self.image.spans(lo, hi) && self.sampler.spans(lo, hi)
    }

    /// A texture that is well-formed stays so while the entries of what
    /// it owns are unchanged.
    pub proof fn lemma_kept(&self, then: Context, now: Context, lo: int, hi: int)
        requires
            self.wf(then),
            self.spans(lo, hi),
            unchanged_within(now.objects(), then.objects(), lo, hi),
        ensures
            self.wf(now),
    {
    }

    /// What a texture owns lies within the range it spans.
    pub proof fn lemma_owned_within(&self, lo: int, hi: int)
        requires
            self.spans(lo, hi),
        ensures
            all_within(self.handles(), lo, hi),
    {
        self.image.lemma_owned_within(lo, hi);
        lemma_all_within_concat(self.image.handles(), seq![self.sampler.sampler], lo, hi);
    }

    /// Whether image and sampler are live in `ctx`.
    pub fn is_wf(&self, ctx: &Context) -> (ok: bool)
        ensures
            ok == self.wf(*ctx),
    {
        self.image.is_wf(ctx) && self.sampler.is_wf(ctx)
    }

    /// What the texture owns are entries of the ledger of `ctx`.
    pub open spec fn within(&self, ctx: Context) -> bool {
        self.image.within(ctx) && self.sampler.sampler < ctx.objects().len()
    }

    /// Requests the destruction of what `self` owns, in order, and
    /// marks the entries as destroyed.
    pub(crate) fn release(&self, ctx: &mut Context)
        requires
            self.within(*old(ctx)),
        ensures
            final(ctx).retires(*old(ctx), self.handles(), self.destroy_calls()),
            final(ctx).objects().len() == old(ctx).objects().len(),
    {
        self.image.release(ctx);
        self.sampler.release(ctx);
        proof {
            lemma_retire_all_concat(old(ctx).objects(), self.image.handles(), seq![self.sampler.sampler]);
            assert(ctx.log() =~= old(ctx).log() + self.destroy_calls());
        }
    }
}

/// The ledger entries of a scene with `textures` textures: three
/// staged uploads, the buffer of addresses with its memory, and the textures.
pub open spec fn scene_objects(textures: nat) -> Seq<Object> {
    staged_objects() + staged_objects() + staged_objects() + seq![fresh(Kind::Buffer), fresh(Kind::Memory)]
        + textures_objects(textures)
}

/// The requests that bring a scene to the device, where `first` is the
/// first new handle: the staged uploads of vertices, indices and
/// primitive records (from `first`, `first + 4` and `first + 8` on),
/// the host-visible buffer that is given the addresses of the three
/// (`first + 12`, memory `first + 13`), and the textures (from `first + 14` on).
pub open spec fn scene_calls(
    commands: Handle,
    first: Handle,
    vertices: Seq<u8>,
    indices: Seq<u8>,
    primitive_infos: Seq<u8>,
    pictures: Seq<RgbaImage>,
) -> Seq<CallView> {
    staged_upload_calls(commands, first, vertex_info(), vertices) + staged_upload_calls(
        commands,
        (first + 4) as Handle,
        index_info(),
        indices,
    ) + staged_upload_calls(commands, (first + 8) as Handle, primitives_info(), primitive_infos)
        + buffer_create_calls(
        (first + 12) as Handle,
        (first + 13) as Handle,
        scene_desc_info(),
        Location::CpuToGpu,
    ) + seq![
        CallView::Op(
            Op::WriteDeviceAddresses {
                memory: (first + 13) as Handle,
                indices: (first + 6) as Handle,
                vertices: (first + 2) as Handle,
                primitives: (first + 10) as Handle,
            },
        ),
    ] + textures_calls(commands, (first + 14) as Handle, pictures, pictures.len())
}

/// The staging buffers that bringing a scene to the device leaves to the scope.
pub open spec fn scene_staging(
    first: Handle,
    vertices: nat,
    indices: nat,
    primitive_infos: nat,
    pictures: Seq<RgbaImage>,
) -> Seq<Resource> {
    seq![
        Resource::Buffer(staging_buffer(first, vertices)),
        Resource::Buffer(staging_buffer((first + 4) as Handle, indices)),
        Resource::Buffer(staging_buffer((first + 8) as Handle, primitive_infos)),
    ] + textures_staging((first + 14) as Handle, pictures, pictures.len())
}

impl Scene {
    /// `self` is the scene that an upload with first new handle `first`
    /// creates from so many bytes and textures.
    pub open spec fn uploaded(
        &self,
        first: Handle,
        vertices: nat,
        indices: nat,
        primitive_infos: nat,
        textures: nat,
    ) -> bool {
        &&& self.vertices == staged_buffer(first, vertices)
        &&& self.indices == staged_buffer((first + 4) as Handle, indices)
        &&& self.primitives == staged_buffer((first + 8) as Handle, primitive_infos)
        &&& self.scene_desc == (Buffer {
            buffer: (first + 12) as Handle,
            allocation: (first + 13) as Handle,
            size: 24,
            location: Location::CpuToGpu,
        })
        &&& self.textures@.len() == textures
        &&& forall|i: int|
            0 <= i < textures ==> #[trigger] self.textures@[i] == texture_at((first + 14 + 6 * i) as Handle)
        &&& self.device_desc == (SceneInfo {
            indices_address: DeviceAddress { buffer: self.indices.buffer },
            vertices_address: DeviceAddress { buffer: self.vertices.buffer },
            primitives_address: DeviceAddress { buffer: self.primitives.buffer },
        })
    }

    /// Buffers and textures are live in `ctx`.
    pub open spec fn wf(&self, ctx: Context) -> bool {
        &&& self.indices.wf(ctx)
        &&& self.vertices.wf(ctx)
        &&& self.primitives.wf(ctx)
        &&& self.scene_desc.wf(ctx)
        &&& forall|i: int| 0 <= i < self.textures@.len() ==> (#[trigger] self.textures@[i]).wf(ctx)
    }

    /// Buffers and textures have handles from `lo` up to, but not including, `hi`.
    pub open spec fn spans(&self, lo: int, hi: int) -> bool {
        &&& self.indices.spans(lo, hi)
        &&& self.vertices.spans(lo, hi)
        &&& self.primitives.spans(lo, hi)
        &&& self.scene_desc.spans(lo, hi)
        &&& forall|i: int| 0 <= i < self.textures@.len() ==> (#[trigger] self.textures@[i]).spans(lo, hi)
    }

    /// A scene that is well-formed stays so while the entries of what
    /// it owns are unchanged.
    pub proof fn lemma_kept(&self, then: Context, now: Context, lo: int, hi: int)
        requires
            self.wf(then),
            self.spans(lo, hi),
            unchanged_within(now.objects(), then.objects(), lo, hi),
        ensures
            self.wf(now),
    {
        assert forall|i: int| 0 <= i < self.textures@.len() implies (#[trigger] self.textures@[i]).wf(now) by {
            assert(self.textures@[i].wf(then));
            assert(self.textures@[i].spans(lo, hi));
        }
    }

    /// What a scene owns lies within the range it spans.
    pub proof fn lemma_owned_within(&self, lo: int, hi: int)
        requires
            self.spans(lo, hi),
        ensures
            all_within(self.handles(), lo, hi),
    {
        lemma_textures_within(self.textures@, self.textures@.len(), lo, hi);
        let a = self.primitives.handles();
        let b = self.vertices.handles();
        let c = self.indices.handles();
        let d = self.scene_desc.handles();
        lemma_all_within_concat(a, b, lo, hi);
        lemma_all_within_concat(a + b, c, lo, hi);
        lemma_all_within_concat(a + b + c, d, lo, hi);
        lemma_all_within_concat(a + b + c + d, textures_handles(self.textures@, self.textures@.len()), lo, hi);
    }

    /// Whether buffers and textures are live in `ctx`.
    pub fn is_wf(&self, ctx: &Context) -> (ok: bool)
        ensures
            ok == self.wf(*ctx),
    {
        if !self.indices.is_wf(ctx) || !self.vertices.is_wf(ctx) || !self.primitives.is_wf(ctx)
            || !self.scene_desc.is_wf(ctx) {
            return false;
        }
        let mut i: usize = 0;
        while i < self.textures.len()
            invariant
                i <= self.textures@.len(),
                forall|k: int| 0 <= k < i ==> (#[trigger] self.textures@[k]).wf(*ctx),
            decreases self.textures@.len() - i,
        {
            if !self.textures[i].is_wf(ctx) {
                return false;
            }
            i = i + 1;
        }
        true
    }

    /// What the scene owns are entries of the ledger of `ctx`.
    pub open spec fn within(&self, ctx: Context) -> bool {
        &&& self.indices.buffer < ctx.objects().len()
        &&& self.indices.allocation < ctx.objects().len()
        &&& self.vertices.buffer < ctx.objects().len()
        &&& self.vertices.allocation < ctx.objects().len()
        &&& self.primitives.buffer < ctx.objects().len()
        &&& self.primitives.allocation < ctx.objects().len()
        &&& self.scene_desc.buffer < ctx.objects().len()
        &&& self.scene_desc.allocation < ctx.objects().len()
        &&& forall|i: int| 0 <= i < self.textures@.len() ==> (#[trigger] self.textures@[i]).within(ctx)
    }

    /// The ledger entries the scene owns, in the order in which they
    /// are destroyed: those of the primitive records, the vertices, the
    /// indices, the buffer of addresses, and the textures.
    pub open spec fn handles(&self) -> Seq<Handle> {
        self.primitives.handles() + self.vertices.handles() + self.indices.handles()
            + self.scene_desc.handles() + textures_handles(self.textures@, self.textures@.len())
    }

    /// The requests that destroy the scene.
    pub open spec fn destroy_calls(&self) -> Seq<CallView> {
        self.primitives.destroy_calls() + self.vertices.destroy_calls() + self.indices.destroy_calls()
            + self.scene_desc.destroy_calls() + textures_destroy_calls(self.textures@, self.textures@.len())
    }

    /// Requests the destruction of what `self` owns, in order, and
    /// marks the entries as destroyed.
    pub(crate) fn release(&self, ctx: &mut Context)
        requires
            self.within(*old(ctx)),
        ensures
            final(ctx).retires(*old(ctx), self.handles(), self.destroy_calls()),
            final(ctx).objects().len() == old(ctx).objects().len(),
    {
        self.primitives.release(ctx);
        self.vertices.release(ctx);
        self.indices.release(ctx);
        self.scene_desc.release(ctx);
        let ghost fixed = self.primitives.handles() + self.vertices.handles() + self.indices.handles()
            + self.scene_desc.handles();
        let ghost fixed_calls = self.primitives.destroy_calls() + self.vertices.destroy_calls()
            + self.indices.destroy_calls() + self.scene_desc.destroy_calls();
        let ghost textures = self.textures@;
        proof {
            lemma_retire_all_concat(old(ctx).objects(), self.primitives.handles(), self.vertices.handles());
            lemma_retire_all_concat(
                old(ctx).objects(),
                self.primitives.handles() + self.vertices.handles(),
                self.indices.handles(),
            );
            lemma_retire_all_concat(
                old(ctx).objects(),
                self.primitives.handles() + self.vertices.handles() + self.indices.handles(),
                self.scene_desc.handles(),
            );
            assert(fixed + textures_handles(textures, 0) =~= fixed);
            assert(ctx.log() =~= old(ctx).log() + (fixed_calls + textures_destroy_calls(textures, 0)));
        }
        let mut i: usize = 0;
        while i < self.textures.len()
            invariant
                i <= self.textures@.len(),
                textures == self.textures@,
                self.within(*old(ctx)),
                ctx.objects().len() == old(ctx).objects().len(),
                ctx.retires(
                    *old(ctx),
                    fixed + textures_handles(textures, i as nat),
                    fixed_calls + textures_destroy_calls(textures, i as nat),
                ),
            decreases self.textures@.len() - i,
        {
            proof {
                assert(self.textures@[i as int].within(*old(ctx)));
            }
            self.textures[i].release(ctx);
            proof {
                lemma_retire_all_concat(
                    old(ctx).objects(),
                    fixed + textures_handles(textures, i as nat),
                    textures[i as int].handles(),
                );
                assert(fixed + textures_handles(textures, i as nat) + textures[i as int].handles() =~= fixed
                    + textures_handles(textures, (i + 1) as nat));
                assert(ctx.log() =~= old(ctx).log() + (fixed_calls + textures_destroy_calls(
                    textures,
                    (i + 1) as nat,
                )));
            }
            i = i + 1;
        }
    }

    /// Destroys the buffers and the textures of the scene, which is
    /// given up with the call.
    pub fn destroy_with(self, ctx: &mut Context)
        requires
            self.wf(*old(ctx)),
        ensures
            final(ctx).retires(*old(ctx), self.handles(), self.destroy_calls()),
            !self.wf(*final(ctx)),
    {
        proof {
            assert forall|i: int| 0 <= i < self.textures@.len() implies (#[trigger] self.textures@[i]).within(
                *old(ctx),
            ) by {
                assert(self.textures@[i].wf(*old(ctx)));
            }
        }
        self.release(ctx);
        proof {
            crate::ledger::lemma_retire_all(old(ctx).objects(), self.handles());
            assert(self.handles()[0] == self.primitives.buffer);
        }
    }

    /// Stages the vertices and the indices; returns the vertex buffer and the index buffer.
    pub fn init_vertex_index_buffer(
        ctx: &mut Context,
        scope: &mut OneshotScope,
        vertices: &[u8],
        indices: &[u8],
    ) -> (buffers: (Buffer, Buffer))
        requires
            old(scope).wf(*old(ctx)),
        ensures
            buffers.0 == staged_buffer(old(ctx).objects().len() as Handle, vertices@.len()),
            buffers.1 == staged_buffer((old(ctx).objects().len() + 4) as Handle, indices@.len()),
            final(scope).resources@ == old(scope).resources@ + seq![
                Resource::Buffer(staging_buffer(old(ctx).objects().len() as Handle, vertices@.len())),
                Resource::Buffer(staging_buffer((old(ctx).objects().len() + 4) as Handle, indices@.len())),
            ],
            final(scope).commands == old(scope).commands,
            final(scope).fence == old(scope).fence,
            final(scope).queue == old(scope).queue,
            final(ctx).grows_by(
                *old(ctx),
                staged_objects() + staged_objects(),
                staged_upload_calls(
                    old(scope).commands.buffer,
                    old(ctx).objects().len() as Handle,
                    vertex_info(),
                    vertices@,
                ) + staged_upload_calls(
                    old(scope).commands.buffer,
                    (old(ctx).objects().len() + 4) as Handle,
                    index_info(),
                    indices@,
                ),
            ),
            final(scope).wf(*final(ctx)),
            buffers.0.wf(*final(ctx)),
            buffers.1.wf(*final(ctx)),
    {
        let vertex_buffer = {
            let create_info = BufferInfo {
                size: 0,
                usage: codes::buffer_usage_vertex() | codes::buffer_usage_storage()
                    | codes::buffer_usage_device_address() | codes::buffer_usage_acceleration_input(),
                sharing_mode: codes::sharing_exclusive(),
            };
            Buffer::create_with_staged_data(ctx, scope, create_info, vertices)
        };
        let index_buffer = {
            let create_info = BufferInfo {
                size: 0,
                usage: codes::buffer_usage_index() | codes::buffer_usage_storage()
                    | codes::buffer_usage_device_address() | codes::buffer_usage_acceleration_input(),
                sharing_mode: codes::sharing_exclusive(),
            };
            Buffer::create_with_staged_data(ctx, scope, create_info, indices)
        };
        proof {
            assert(ctx.objects() =~= old(ctx).objects() + (staged_objects() + staged_objects()));
            assert(ctx.log() =~= old(ctx).log() + (staged_upload_calls(
                old(scope).commands.buffer,
                old(ctx).objects().len() as Handle,
                vertex_info(),
                vertices@,
            ) + staged_upload_calls(
                old(scope).commands.buffer,
                (old(ctx).objects().len() + 4) as Handle,
                index_info(),
                indices@,
            )));
            assert(scope.resources@ =~= old(scope).resources@ + seq![
                Resource::Buffer(staging_buffer(old(ctx).objects().len() as Handle, vertices@.len())),
                Resource::Buffer(staging_buffer((old(ctx).objects().len() + 4) as Handle, indices@.len())),
            ]);
        }
        (vertex_buffer, index_buffer)
    }

    /// Stages the records of the primitives.
    pub fn init_primitives_buffer(
        ctx: &mut Context,
        scope: &mut OneshotScope,
        primitive_infos: &[u8],
    ) -> (b: Buffer)
        requires
            old(scope).wf(*old(ctx)),
        ensures
            b == staged_buffer(old(ctx).objects().len() as Handle, primitive_infos@.len()),
            final(scope).resources@ == old(scope).resources@.push(
                Resource::Buffer(staging_buffer(old(ctx).objects().len() as Handle, primitive_infos@.len())),
            ),
            final(scope).commands == old(scope).commands,
            final(scope).fence == old(scope).fence,
            final(scope).queue == old(scope).queue,
            final(ctx).grows_by(
                *old(ctx),
                staged_objects(),
                staged_upload_calls(
                    old(scope).commands.buffer,
                    old(ctx).objects().len() as Handle,
                    primitives_info(),
                    primitive_infos@,
                ),
            ),
            final(scope).wf(*final(ctx)),
            b.wf(*final(ctx)),
    {
        let create_info = BufferInfo {
            size: 0,
            usage: codes::buffer_usage_device_address() | codes::buffer_usage_storage(),
            sharing_mode: codes::sharing_exclusive(),
        };
        Buffer::create_with_staged_data(ctx, scope, create_info, primitive_infos)
    }

    /// Creates a texture, with a sampler of its own, from each of `pictures`.
    pub fn init_textures(
        ctx: &mut Context,
        scope: &mut OneshotScope,
        pictures: &Vec<RgbaImage>,
    ) -> (textures: Vec<Texture>)
        requires
            old(scope).wf(*old(ctx)),
            forall|i: int| 0 <= i < pictures@.len() ==> (#[trigger] pictures@[i]).wf(),
        ensures
            textures@.len() == pictures@.len(),
            forall|i: int| 0 <= i < textures@.len() ==> #[trigger] textures@[i] == texture_at(
                (old(ctx).objects().len() + 6 * i) as Handle,
            ),
            forall|i: int| 0 <= i < textures@.len() ==> (#[trigger] textures@[i]).wf(*final(ctx)),
            final(scope).resources@ == old(scope).resources@ + textures_staging(
                old(ctx).objects().len() as Handle,
                pictures@,
                pictures@.len(),
            ),
            final(scope).commands == old(scope).commands,
            final(scope).fence == old(scope).fence,
            final(scope).queue == old(scope).queue,
            final(ctx).grows_by(
                *old(ctx),
                textures_objects(pictures@.len()),
                textures_calls(
                    old(scope).commands.buffer,
                    old(ctx).objects().len() as Handle,
                    pictures@,
                    pictures@.len(),
                ),
            ),
            final(scope).wf(*final(ctx)),
    {
        let first = ctx.created();
        let ghost commands = scope.commands.buffer;
        let mut textures: Vec<Texture> = Vec::new();
        proof {
            assert(ctx.objects() =~= old(ctx).objects() + textures_objects(0));
            assert(ctx.log() =~= old(ctx).log() + textures_calls(commands, first, pictures@, 0));
            assert(scope.resources@ =~= old(scope).resources@ + textures_staging(first, pictures@, 0));
        }
        let mut i: usize = 0;
        while i < pictures.len()
            invariant
                i <= pictures@.len(),
                first == old(ctx).objects().len(),
                commands == old(scope).commands.buffer,
                forall|k: int| 0 <= k < pictures@.len() ==> (#[trigger] pictures@[k]).wf(),
                textures@.len() == i,
                forall|k: int| 0 <= k < i ==> #[trigger] textures@[k] == texture_at((first + 6 * k) as Handle),
                forall|k: int| 0 <= k < i ==> (#[trigger] textures@[k]).wf(*ctx),
                scope.resources@ == old(scope).resources@ + textures_staging(first, pictures@, i as nat),
                scope.commands == old(scope).commands,
                scope.fence == old(scope).fence,
                scope.queue == old(scope).queue,
                ctx.grows_by(
                    *old(ctx),
                    textures_objects(i as nat),
                    textures_calls(commands, first, pictures@, i as nat),
                ),
                textures_objects(i as nat).len() == 6 * i,
                scope.wf(*ctx),
            decreases pictures@.len() - i,
        {
            let ghost before = *ctx;
            let image = Image::create_from_image(ctx, scope, &pictures[i]);
            let ghost between = *ctx;
            let sampler = Sampler::create(ctx);
            proof {
                lemma_scope_survives_growth(*scope, between, *ctx);
                assert(ctx.objects() =~= old(ctx).objects() + textures_objects((i + 1) as nat));
                assert(ctx.log() =~= old(ctx).log() + textures_calls(commands, first, pictures@, (i + 1) as nat));
                assert(scope.resources@ =~= old(scope).resources@ + textures_staging(
                    first,
                    pictures@,
                    (i + 1) as nat,
                ));
                assert forall|k: int| 0 <= k < i implies (#[trigger] textures@[k]).wf(*ctx) by {
                    assert(textures@[k].wf(before));
                }
            }
            textures.push(Texture { image, sampler });
            i = i + 1;
        }
        textures
    }

    /// Creates the host-visible buffer that holds the addresses of the
    /// three buffers of the scene, and has the addresses written to it.
    pub fn init_scene_desc(ctx: &mut Context, desc: SceneInfo) -> (b: Buffer)
        ensures
            b == (Buffer {
                buffer: old(ctx).objects().len() as Handle,
                allocation: (old(ctx).objects().len() + 1) as Handle,
                size: 24,
                location: Location::CpuToGpu,
            }),
            final(ctx).grows_by(
                *old(ctx),
                seq![fresh(Kind::Buffer), fresh(Kind::Memory)],
                buffer_create_calls(b.buffer, b.allocation, scene_desc_info(), Location::CpuToGpu) + seq![
                    CallView::Op(
                        Op::WriteDeviceAddresses {
                            memory: b.allocation,
                            indices: desc.indices_address.buffer,
                            vertices: desc.vertices_address.buffer,
                            primitives: desc.primitives_address.buffer,
                        },
                    ),
                ],
            ),
            b.wf(*final(ctx)),
    {
        let info = BufferInfo {
            size: 24,
            usage: codes::buffer_usage_uniform(),
            sharing_mode: codes::sharing_exclusive(),
        };
        let b = Buffer::create(ctx, info, Location::CpuToGpu);
        ctx.emit(
            Op::WriteDeviceAddresses {
                memory: b.allocation,
                indices: desc.indices_address.buffer,
                vertices: desc.vertices_address.buffer,
                primitives: desc.primitives_address.buffer,
            },
        );
        proof {
            assert(ctx.objects() =~= old(ctx).objects() + seq![fresh(Kind::Buffer), fresh(Kind::Memory)]);
            assert(ctx.log() =~= old(ctx).log() + (buffer_create_calls(
                b.buffer,
                b.allocation,
                scene_desc_info(),
                Location::CpuToGpu,
            ) + seq![
                CallView::Op(
                    Op::WriteDeviceAddresses {
                        memory: b.allocation,
                        indices: desc.indices_address.buffer,
                        vertices: desc.vertices_address.buffer,
                        primitives: desc.primitives_address.buffer,
                    },
                ),
            ]));
        }
        b
    }

    /// Brings a scene to the device: stages vertices, indices and the
    /// records of the primitives, lets the addresses of the three
    /// buffers be written to a buffer of their own, and creates the
    /// textures. The staging buffers are left to `scope`.
    pub fn upload(
        ctx: &mut Context,
        scope: &mut OneshotScope,
        vertices: &[u8],
        indices: &[u8],
        primitive_infos: &[u8],
        pictures: &Vec<RgbaImage>,
    ) -> (scene: Scene)
        requires
            old(scope).wf(*old(ctx)),
            forall|i: int| 0 <= i < pictures@.len() ==> (#[trigger] pictures@[i]).wf(),
        ensures
            scene.uploaded(
                old(ctx).objects().len() as Handle,
                vertices@.len(),
                indices@.len(),
                primitive_infos@.len(),
                pictures@.len(),
            ),
            final(scope).resources@ == old(scope).resources@ + scene_staging(
                old(ctx).objects().len() as Handle,
                vertices@.len(),
                indices@.len(),
                primitive_infos@.len(),
                pictures@,
            ),
            final(scope).commands == old(scope).commands,
            final(scope).fence == old(scope).fence,
            final(scope).queue == old(scope).queue,
            final(ctx).grows_by(
                *old(ctx),
                scene_objects(pictures@.len()),
                scene_calls(
                    old(scope).commands.buffer,
                    old(ctx).objects().len() as Handle,
                    vertices@,
                    indices@,
                    primitive_infos@,
                    pictures@,
                ),
            ),
            final(scope).wf(*final(ctx)),
            scene.wf(*final(ctx)),
            scene.spans(old(ctx).objects().len() as int, final(ctx).objects().len() as int),
    {
        let first = ctx.created();
        let ghost commands = scope.commands.buffer;
        let (vertex_buffer, index_buffer) = Scene::init_vertex_index_buffer(ctx, scope, vertices, indices);
        assert(ctx.objects().len() == first + 8);
        let ghost log_a = ctx.log();
        let ghost res_a = scope.resources@;
        let primitives = Scene::init_primitives_buffer(ctx, scope, primitive_infos);
        assert(ctx.objects().len() == first + 12);
        let ghost log_b = ctx.log();
        let ghost res_b = scope.resources@;
        let device_desc = SceneInfo {
            indices_address: index_buffer.get_device_address(ctx),
            vertices_address: vertex_buffer.get_device_address(ctx),
            primitives_address: primitives.get_device_address(ctx),
        };
        let ghost staged = *ctx;
        let scene_desc = Scene::init_scene_desc(ctx, device_desc);
        proof {
            lemma_scope_survives_growth(*scope, staged, *ctx);
        }
        let described = ctx.created();
        assert(described == first + 14);
        let ghost log_c = ctx.log();
        let textures = Scene::init_textures(ctx, scope, pictures);
        proof {
            let va = staged_upload_calls(commands, first, vertex_info(), vertices@);
            let ia = staged_upload_calls(commands, (first + 4) as Handle, index_info(), indices@);
            let pa = staged_upload_calls(commands, (first + 8) as Handle, primitives_info(), primitive_infos@);
            let da = buffer_create_calls(
                (first + 12) as Handle,
                (first + 13) as Handle,
                scene_desc_info(),
                Location::CpuToGpu,
            ) + seq![
                CallView::Op(
                    Op::WriteDeviceAddresses {
                        memory: (first + 13) as Handle,
                        indices: (first + 6) as Handle,
                        vertices: (first + 2) as Handle,
                        primitives: (first + 10) as Handle,
                    },
                ),
            ];
            let ta = textures_calls(commands, (first + 14) as Handle, pictures@, pictures@.len());
            assert(log_a == old(ctx).log() + (va + ia));
            assert(log_b == log_a + pa);
            assert(log_c == log_b + da);
            assert(ctx.log() == log_c + ta);
            assert(ctx.log() =~= old(ctx).log() + (va + ia + pa + da + ta));
            assert(scene_calls(commands, first, vertices@, indices@, primitive_infos@, pictures@) =~= va + ia
                + pa + da + ta);
            assert(res_b == res_a.push(
                Resource::Buffer(staging_buffer((first + 8) as Handle, primitive_infos@.len())),
            ));
            assert(scope.resources@ == res_b + textures_staging((first + 14) as Handle, pictures@, pictures@.len()));
            assert(ctx.objects() =~= old(ctx).objects() + scene_objects(pictures@.len()));
            assert(ctx.log() =~= old(ctx).log() + scene_calls(
                commands,
                first,
                vertices@,
                indices@,
                primitive_infos@,
                pictures@,
            ));
            assert(scope.resources@ =~= old(scope).resources@ + scene_staging(
                first,
                vertices@.len(),
                indices@.len(),
                primitive_infos@.len(),
                pictures@,
            ));
        }
        let total = ctx.created();
        let scene = Scene {
            indices: index_buffer,
            vertices: vertex_buffer,
            primitives,
            scene_desc,
            textures,
            device_desc,
        };
        proof {
            lemma_textures_len(pictures@.len());
            assert(total == first + 14 + 6 * pictures@.len());
            assert forall|i: int| 0 <= i < scene.textures@.len() implies (#[trigger] scene.textures@[i]).spans(
                first as int,
                total as int,
            ) by {
                assert(scene.textures@[i] == texture_at((first + 14 + 6 * i) as Handle));
            }
        }
        scene
    }

    /// Brings `scene` to the device, as `upload` does with the bytes of
    /// its indices in the place of the indices.
    pub fn create(
        ctx: &mut Context,
        scope: &mut OneshotScope,
        scene: &SceneData,
    ) -> (created: Scene)
        requires
            old(scope).wf(*old(ctx)),
            scene.wf(),
        ensures
            created.uploaded(
                old(ctx).objects().len() as Handle,
                scene.vertices@.len(),
                4 * scene.indices@.len(),
                scene.primitive_infos@.len(),
                scene.textures@.len(),
            ),
            final(scope).resources@ == old(scope).resources@ + scene_staging(
                old(ctx).objects().len() as Handle,
                scene.vertices@.len(),
                4 * scene.indices@.len(),
                scene.primitive_infos@.len(),
                scene.textures@,
            ),
            final(scope).commands == old(scope).commands,
            final(scope).fence == old(scope).fence,
            final(scope).queue == old(scope).queue,
            exists|indices: Seq<u8>|
                encodes(scene.indices@, indices) && #[trigger] final(ctx).grows_by(
                    *old(ctx),
                    scene_objects(scene.textures@.len()),
                    scene_calls(
                        old(scope).commands.buffer,
                        old(ctx).objects().len() as Handle,
                        scene.vertices@,
                        indices,
                        scene.primitive_infos@,
                        scene.textures@,
                    ),
                ),
            final(scope).wf(*final(ctx)),
            created.wf(*final(ctx)),
            created.spans(old(ctx).objects().len() as int, final(ctx).objects().len() as int),
    {
        let indices = index_bytes(scene.indices.as_slice());
        let created = Scene::upload(
            ctx,
            scope,
            scene.vertices.as_slice(),
            indices.as_slice(),
            scene.primitive_infos.as_slice(),
            &scene.textures,
        );
        proof {
            assert(ctx.grows_by(
                *old(ctx),
                scene_objects(scene.textures@.len()),
                scene_calls(
                    old(scope).commands.buffer,
                    old(ctx).objects().len() as Handle,
                    scene.vertices@,
                    indices@,
                    scene.primitive_infos@,
                    scene.textures@,
                ),
            ));
        }
        created
    }
}

/// `bytemuck::cast_slice` from `u32` to `u8`: the memory of the indices
/// read as bytes. There are four bytes for each index, in the order in
/// which the machine keeps them: on every machine either the lowest
/// byte of each index comes first, or the highest.
#[verifier::external_body]
pub(crate) fn index_bytes(indices: &[u32]) -> (bytes: Vec<u8>)
    ensures
        encodes(indices@, bytes@),
{
    bytemuck::cast_slice::<u32, u8>(indices).to_vec()
}

} // verus!
