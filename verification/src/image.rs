use vstd::prelude::*;
use vstd::std_specs::convert::FromSpecImpl;
use crate::buffer::Buffer;
use crate::buffer::{buffer_create_calls, staging_buffer, staging_info};
use crate::call::{BufferInfo, CallView, Extent3D, Handle, ImageInfo, Location, Op, SubresourceRange};
use crate::codes;
use crate::context::Context;
use crate::ledger::{
    Kind, Object, all_within, fresh, lemma_destroyed_stays_destroyed, lemma_retire_all, lemma_retire_all_concat,
    retire_all, unchanged_within,
};
use crate::scope::{OneshotScope, Resource, lemma_scope_adopts, lemma_scope_survives_growth};

verus! {

/// What an image is for; it decides the texel format, the usage and
/// the aspect of the image.
#[derive(Clone, Copy, Debug, PartialEq, Eq, Structural)]
pub enum Format {
    /// A high-dynamic-range intermediate target.
    Hdr,
    /// A color texture.
    Color,
    /// A depth attachment.
    Depth,
    /// A presentable image, whose format the surface decides.
    Swapchain,
}

impl Format {
    /// The device's number for the texel format: four 32-bit floats
    /// (109), four 8-bit sRGB channels (43), one 32-bit float depth
    /// channel (126); none (0) where the surface decides.
    pub open spec fn raw(self) -> i32 {
        match self {
            Format::Hdr => 109,
            Format::Color => 43,
            Format::Depth => 126,
            Format::Swapchain => 0,
        }
    }

    /// The usage every image of this format has: depth or stencil
    /// attachment (0x20) for depth, sampled (0x4) for the others.
    pub open spec fn usage(self) -> u32 {
        if self == Format::Depth {
            0x20
        } else {
            0x4
        }
    }

    /// The aspect of an image of this format: depth (0x2) or color (0x1).
    pub open spec fn aspect(self) -> u32 {
        if self == Format::Depth {
            0x2
        } else {
            0x1
        }
    }

    /// The whole of a plain image of this format: its one mip level and one layer.
    pub open spec fn range(self) -> SubresourceRange {
        SubresourceRange {
            aspect_mask: self.aspect(),
            base_mip_level: 0,
            level_count: 1,
            base_array_layer: 0,
            layer_count: 1,
        }
    }

    /// The usage flags every image of this format is created with.
    pub fn usage_flags(self) -> (flags: u32)
        ensures
            flags == self.usage(),
    {
        match self {
            Format::Depth => codes::image_usage_depth_stencil_attachment(),
            _ => codes::image_usage_sampled(),
        }
    }

    /// The aspect that views and barriers of an image of this format cover.
    pub fn aspect_flags(self) -> (flags: u32)
        ensures
            flags == self.aspect(),
    {
        match self {
            Format::Depth => codes::aspect_depth(),
            _ => codes::aspect_color(),
        }
    }

    /// The range that views and barriers of an image of this format cover.
    pub fn subresource_range(self) -> (range: SubresourceRange)
        ensures
            range == self.range(),
    {
        SubresourceRange {
            aspect_mask: self.aspect_flags(),
            base_mip_level: 0,
            level_count: 1,
            base_array_layer: 0,
            layer_count: 1,
        }
    }
}

impl From<Format> for i32 {
    /// The device's number for the texel format of `format`.
    fn from(format: Format) -> (raw: i32) {
        match format {
            Format::Hdr => codes::format_hdr(),
            Format::Color => codes::format_color(),
            Format::Depth => codes::format_depth(),
            Format::Swapchain => codes::format_undefined(),
        }
    }
}

impl FromSpecImpl<Format> for i32 {
    open spec fn obeys_from_spec() -> bool {
        true
    }

    open spec fn from_spec(format: Format) -> i32 {
        format.raw()
    }
}

/// One side of a layout transition: the layout, the pipeline stages and
/// the kinds of access on that side, as the device's numbers.
#[derive(Clone, Copy, Debug, PartialEq, Eq, Structural)]
pub struct BarrierInfo {
    pub layout: i32,
    pub stage: u32,
    pub access: u32,
}

impl BarrierInfo {
    /// A new image: layout undefined (0), nothing before it (stage
    /// top-of-pipe, 0x1), no access.
    pub open spec fn spec_init() -> BarrierInfo {
        BarrierInfo { layout: 0, stage: 0x1, access: 0 }
    }

    /// General layout (1), after all work (stage bottom-of-pipe, 0x2000), no access.
    pub open spec fn spec_general() -> BarrierInfo {
        BarrierInfo { layout: 1, stage: 0x2000, access: 0 }
    }

    /// Target of a transfer: layout 7, transfer stage (0x1000), transfer writes (0x1000).
    pub open spec fn spec_transfer_dst() -> BarrierInfo {
        BarrierInfo { layout: 7, stage: 0x1000, access: 0x1000 }
    }

    /// Read by fragment shaders: layout 5, fragment stage (0x80), shader reads (0x20).
    pub open spec fn spec_shader_read() -> BarrierInfo {
        BarrierInfo { layout: 5, stage: 0x80, access: 0x20 }
    }

    /// The state of an image that was just created.
    #[verifier::when_used_as_spec(spec_init)]
    pub fn init() -> (b: BarrierInfo)
        ensures
            b == BarrierInfo::spec_init(),
    {
        BarrierInfo { layout: codes::layout_undefined(), stage: codes::stage_top_of_pipe(), access: 0 }
    }

    /// The state of an image that any stage may use in any way.
    #[verifier::when_used_as_spec(spec_general)]
    pub fn general() -> (b: BarrierInfo)
        ensures
            b == BarrierInfo::spec_general(),
    {
        BarrierInfo { layout: codes::layout_general(), stage: codes::stage_bottom_of_pipe(), access: 0 }
    }

    /// The state of an image that a transfer writes to.
    #[verifier::when_used_as_spec(spec_transfer_dst)]
    pub fn transfer_dst() -> (b: BarrierInfo)
        ensures
            b == BarrierInfo::spec_transfer_dst(),
    {
        BarrierInfo {
            layout: codes::layout_transfer_dst(),
            stage: codes::stage_transfer(),
            access: codes::access_transfer_write(),
        }
    }

    /// The state of an image that fragment shaders read.
    #[verifier::when_used_as_spec(spec_shader_read)]
    pub fn shader_read() -> (b: BarrierInfo)
        ensures
            b == BarrierInfo::spec_shader_read(),
    {
        BarrierInfo {
            layout: codes::layout_shader_read_only(),
            stage: codes::stage_fragment_shader(),
            access: codes::access_shader_read(),
        }
    }
}

/// Pixels of four 8-bit channels, row by row.
#[derive(Clone, Debug, PartialEq, Eq)]
pub struct RgbaImage {
    pub width: u32,
    pub height: u32,
    pub pixels: Vec<u8>,
}

impl RgbaImage {
    /// There are four bytes for each pixel.
    pub open spec fn wf(&self) -> bool {
        self.pixels@.len() == 4 * self.width * self.height
    }

    /// Whether there are four bytes for each pixel.
    pub fn is_wf(&self) -> (ok: bool)
        ensures
            ok == self.wf(),
    {
        proof {
            assert(self.width * self.height <= 0xffff_ffff * 0xffff_ffff) by (nonlinear_arith)
                requires
                    self.width <= 0xffff_ffff,
                    self.height <= 0xffff_ffff,
            ;
            assert(4 * self.width * self.height == 4 * (self.width * self.height)) by (nonlinear_arith);
        }
        let texels: u64 = (self.width as u64) * (self.height as u64);
        let len: usize = self.pixels.len();
        texels <= 0x3fff_ffff_ffff_ffff && len as u64 == 4 * texels
    }

    /// Wraps `pixels` as an image of `width` by `height`, if they are
    /// exactly the bytes of one.
    pub fn from_raw(width: u32, height: u32, pixels: Vec<u8>) -> (img: Option<RgbaImage>)
        ensures
            pixels@.len() == 4 * width * height ==> img == Some(RgbaImage { width, height, pixels }),
            pixels@.len() != 4 * width * height ==> img is None,
    {
        proof {
            assert(width * height <= 0xffff_ffff * 0xffff_ffff) by (nonlinear_arith)
                requires
                    width <= 0xffff_ffff,
                    height <= 0xffff_ffff,
            ;
        }
        let texels: u64 = (width as u64) * (height as u64);
        let len: usize = pixels.len();
        proof {
            assert(4 * width * height == 4 * (width * height)) by (nonlinear_arith);
        }
        if texels > 0x3fff_ffff_ffff_ffff {
            return None;
        }
        let bytes: u64 = 4 * texels;
        if len as u64 == bytes {
            Some(RgbaImage { width, height, pixels })
        } else {
            None
        }
    }
}

/// An image with its view and, where the image owns memory, the allocation.
/// Presentable images own none. `state` is the side of the last
/// transition that the image went through.
#[derive(Debug, PartialEq, Eq)]
pub struct Image {
    pub image: Handle,
    pub view: Handle,
    pub allocation: Option<Handle>,
    pub format: Format,
    pub state: BarrierInfo,
}

/// What `create` asks the device for: a plain two-dimensional image
/// (type 1) of one mip level, one layer and one sample per texel, in
/// optimal tiling (0) and undefined layout (0), in the texel format of
/// `format` and with its usage beside the usage asked for. Flags,
/// extent and sharing mode are those of `info`.
pub open spec fn resolved_info(format: Format, info: ImageInfo) -> ImageInfo {
    ImageInfo {
        flags: info.flags,
        image_type: 1,
        format: format.raw(),
        extent: info.extent,
        mip_levels: 1,
        array_layers: 1,
        samples: 1,
        tiling: 0,
        usage: format.usage() | info.usage,
        sharing_mode: info.sharing_mode,
        initial_layout: 0,
    }
}

/// The request for a two-dimensional view (type 1) of the whole of `image`.
pub open spec fn view_call(
    view: Handle,
    image: Handle,
    format: Format,
    raw_format: i32,
) -> CallView {
    CallView::Op(Op::CreateImageView { view, image, view_type: 1, format: raw_format, range: format.range() })
}

/// The request for a transition of the whole of `image` between two
/// states, with no change of queue family (0xffff_ffff: ignored).
pub open spec fn barrier_call(
    commands: Handle,
    image: Handle,
    format: Format,
    from: BarrierInfo,
    to: BarrierInfo,
) -> CallView {
    CallView::Op(
        Op::CmdPipelineBarrier {
            commands,
            image,
            from,
            to,
            src_queue_family: 0xffff_ffff,
            dst_queue_family: 0xffff_ffff,
            range: format.range(),
        },
    )
}

/// The requests of `Image::create`: the image, device-local memory for
/// it, the binding of the two, the view, and the first transition where
/// one is asked for.
pub open spec fn image_create_calls(
    commands: Handle,
    image: Handle,
    allocation: Handle,
    view: Handle,
    format: Format,
    info: ImageInfo,
    to: Option<BarrierInfo>,
) -> Seq<CallView> {
    seq![
        CallView::Op(Op::CreateImage { image, info: resolved_info(format, info) }),
        CallView::Op(
            Op::AllocateImageMemory { memory: allocation, image, location: Location::GpuOnly, linear: false },
        ),
        CallView::Op(Op::BindImageMemory { image, memory: allocation }),
        view_call(view, image, format, format.raw()),
    ] + match to {
        Some(to) => seq![barrier_call(commands, image, format, BarrierInfo::spec_init(), to)],
        None => Seq::empty(),
    }
}

/// The request for a copy from a buffer into the whole color aspect of
/// an image that is the target of transfers (layout 7).
pub open spec fn image_copy_call(
    commands: Handle,
    src: Handle,
    dst: Handle,
    extent: Extent3D,
) -> CallView {
    CallView::Op(
        Op::CmdCopyBufferToImage {
            commands,
            src,
            dst,
            layout: 7,
            extent,
            aspect_mask: 0x1,
            mip_level: 0,
            base_array_layer: 0,
            layer_count: 1,
        },
    )
}

/// What the image of a texture upload is asked for with: its extent,
/// one texel deep, and use as the target of a transfer (0x2).
pub open spec fn texture_info(width: u32, height: u32) -> ImageInfo {
    ImageInfo {
        flags: 0,
        image_type: 0,
        format: 0,
        extent: Extent3D { width, height, depth: 1 },
        mip_levels: 0,
        array_layers: 0,
        samples: 0,
        tiling: 0,
        usage: 0x2,
        sharing_mode: 0,
        initial_layout: 0,
    }
}

/// The image that a texture upload creates, where `first` is the first
/// new handle of the upload.
pub open spec fn texture_image(first: Handle) -> Image {
    Image {
        image: (first + 2) as Handle,
        view: (first + 4) as Handle,
        allocation: Some((first + 3) as Handle),
        format: Format::Color,
        state: BarrierInfo::spec_shader_read(),
    }
}

/// The ledger entries of a texture upload: the staging buffer and its
/// memory, the image, its memory and its view.
pub open spec fn texture_upload_objects() -> Seq<Object> {
    seq![
        fresh(Kind::Buffer),
        fresh(Kind::Memory),
        fresh(Kind::Image),
        fresh(Kind::Memory),
        fresh(Kind::ImageView),
    ]
}

/// The requests of a texture upload whose first new handle is `first`:
/// a staging buffer with the pixels (`first`, its memory `first + 1`),
/// the image (`first + 2`, memory `first + 3`, view `first + 4`) made a
/// target of transfers, the copy, and the transition to shader reads.
pub open spec fn texture_upload_calls(
    commands: Handle,
    first: Handle,
    width: u32,
    height: u32,
    pixels: Seq<u8>,
) -> Seq<CallView> {
    let staging = first;
    let image = (first + 2) as Handle;
    buffer_create_calls(staging, (first + 1) as Handle, staging_info(pixels.len()), Location::CpuToGpu)
        + seq![CallView::WriteMemory { memory: (first + 1) as Handle, data: pixels }]
        + image_create_calls(
        commands,
        image,
        (first + 3) as Handle,
        (first + 4) as Handle,
        Format::Color,
        texture_info(width, height),
        Some(BarrierInfo::spec_transfer_dst()),
    ) + seq![
        image_copy_call(commands, staging, image, Extent3D { width, height, depth: 1 }),
        barrier_call(
            commands,
            image,
            Format::Color,
            BarrierInfo::spec_transfer_dst(),
            BarrierInfo::spec_shader_read(),
        ),
    ]
}

impl Image {
    /// The ledger entries this image owns, in the order in which they
    /// are destroyed: the view, and with an allocation the image and its memory.
    pub open spec fn handles(&self) -> Seq<Handle> {
        match self.allocation {
            Some(allocation) => seq![self.view, self.image, allocation],
            None => seq![self.view],
        }
    }

    /// What the image owns is live in `ctx`: the view, and with an
    /// allocation the image and its memory.
    pub open spec fn wf(&self, ctx: Context) -> bool {
        &&& ctx.live(self.view, Kind::ImageView)
        &&& self.allocation matches Some(allocation) ==> {
            &&& ctx.live(self.image, Kind::Image)
            &&& ctx.live(allocation, Kind::Memory)
        }
    }

    /// What the image owns has handles from `lo` up to, but not including, `hi`.
    pub open spec fn spans(&self, lo: int, hi: int) -> bool {
        &&& lo <= self.view < hi
        &&& self.allocation matches Some(allocation) ==> lo <= self.image < hi && lo <= allocation < hi
    }

    /// An image that is well-formed stays so while the entries of what
    /// it owns are unchanged.
    pub proof fn lemma_kept(&self, then: Context, now: Context, lo: int, hi: int)
        requires
            self.wf(then),
            self.spans(lo, hi),
            unchanged_within(now.objects(), then.objects(), lo, hi),
        ensures
            self.wf(now),
    {
    }

    /// What an image owns lies within the range it spans.
    pub proof fn lemma_owned_within(&self, lo: int, hi: int)
        requires
            self.spans(lo, hi),
        ensures
            all_within(self.handles(), lo, hi),
    {
    }

    /// Once an image is destroyed, it is well-formed in no context that
    /// comes after, whatever is created or destroyed in between: what
    /// was destroyed cannot be used, and cannot be destroyed again.
    pub proof fn lemma_destroyed_for_good(
        &self,
        before: Context,
        destroyed: Context,
        later: Context,
        created: Seq<Object>,
        gone: Seq<Handle>,
    )
        requires
            self.wf(before),
            destroyed.objects() == retire_all(before.objects(), self.handles()),
            later.objects() == retire_all(destroyed.objects() + created, gone),
        ensures
            !self.wf(later),
    {
        lemma_retire_all(before.objects(), self.handles());
        assert(self.handles()[0] == self.view);
        lemma_destroyed_stays_destroyed(destroyed.objects(), self.view, created, gone);
    }

    /// Whether what the image owns is live in `ctx`.
    pub fn is_wf(&self, ctx: &Context) -> (ok: bool)
        ensures
            ok == self.wf(*ctx),
    {
        ctx.is_live(self.view, Kind::ImageView) && match self.allocation {
            Some(allocation) => ctx.is_live(self.image, Kind::Image) && ctx.is_live(allocation, Kind::Memory),
            None => true,
        }
    }

    /// What the image owns are entries of the ledger of `ctx`.
    pub open spec fn within(&self, ctx: Context) -> bool {
        &&& self.view < ctx.objects().len()
        &&& self.allocation matches Some(allocation) ==> {
            &&& self.image < ctx.objects().len()
            &&& allocation < ctx.objects().len()
        }
    }

    /// The requests that destroy this image: the view first; then, where
    /// the image owns memory, the image and after it the memory.
    pub open spec fn destroy_calls(&self) -> Seq<CallView> {
        match self.allocation {
            Some(allocation) => seq![
                CallView::Op(Op::DestroyImageView { view: self.view }),
                CallView::Op(Op::DestroyImage { image: self.image }),
                CallView::Op(Op::FreeMemory { memory: allocation }),
            ],
            None => seq![CallView::Op(Op::DestroyImageView { view: self.view })],
        }
    }

    /// Wraps `image`, with a new view that reads it as texels of `raw_format`.
    pub fn new_of_format(
        ctx: &mut Context,
        image: Handle,
        format: Format,
        raw_format: i32,
        allocation: Option<Handle>,
    ) -> (img: Image)
        requires
            old(ctx).live(image, Kind::Image),
            allocation matches Some(a) ==> old(ctx).live(a, Kind::Memory),
        ensures
            img == (Image {
                image,
                view: old(ctx).objects().len() as Handle,
                allocation,
                format,
                state: BarrierInfo::spec_init(),
            }),
            final(ctx).grows_by(
                *old(ctx),
                seq![fresh(Kind::ImageView)],
                seq![view_call(img.view, image, format, raw_format)],
            ),
            img.wf(*final(ctx)),
    {
        let view = ctx.create(Kind::ImageView);
        ctx.emit(
            Op::CreateImageView {
                view,
                image,
                view_type: codes::image_view_type_2d(),
                format: raw_format,
                range: format.subresource_range(),
            },
        );
        proof {
            assert(ctx.objects() =~= old(ctx).objects() + seq![fresh(Kind::ImageView)]);
            assert(ctx.log() =~= old(ctx).log() + seq![view_call(view, image, format, raw_format)]);
        }
        Image { image, view, allocation, format, state: BarrierInfo::init() }
    }

    /// Wraps `image`, with a new view in the texel format of `format`.
    pub fn new(
        ctx: &mut Context,
        image: Handle,
        format: Format,
        allocation: Option<Handle>,
    ) -> (img: Image)
        requires
            old(ctx).live(image, Kind::Image),
            allocation matches Some(a) ==> old(ctx).live(a, Kind::Memory),
        ensures
            img == (Image {
                image,
                view: old(ctx).objects().len() as Handle,
                allocation,
                format,
                state: BarrierInfo::spec_init(),
            }),
            final(ctx).grows_by(
                *old(ctx),
                seq![fresh(Kind::ImageView)],
                seq![view_call(img.view, image, format, format.raw())],
            ),
            img.wf(*final(ctx)),
    {
        Image::new_of_format(ctx, image, format, i32::from(format), allocation)
    }

    /// Creates an image of `format` in device-local memory, with a view,
    /// and records into `scope` its transition to `to` where one is given.
    pub fn create(
        ctx: &mut Context,
        scope: &OneshotScope,
        format: Format,
        info: &ImageInfo,
        to: Option<&BarrierInfo>,
    ) -> (img: Image)
        requires
            scope.wf(*old(ctx)),
        ensures
            img == (Image {
                image: old(ctx).objects().len() as Handle,
                view: (old(ctx).objects().len() + 2) as Handle,
                allocation: Some((old(ctx).objects().len() + 1) as Handle),
                format,
                state: match to {
                    Some(to) => *to,
                    None => BarrierInfo::spec_init(),
                },
            }),
            final(ctx).grows_by(
                *old(ctx),
                seq![fresh(Kind::Image), fresh(Kind::Memory), fresh(Kind::ImageView)],
                image_create_calls(
                    scope.commands.buffer,
                    img.image,
                    (old(ctx).objects().len() + 1) as Handle,
                    img.view,
                    format,
                    *info,
                    match to {
                        Some(to) => Some(*to),
                        None => None,
                    },
                ),
            ),
            img.wf(*final(ctx)),
    {
        let image_info = ImageInfo {
            flags: info.flags,
            image_type: codes::image_type_2d(),
            format: i32::from(format),
            extent: info.extent,
            mip_levels: 1,
            array_layers: 1,
            samples: codes::samples_1(),
            tiling: codes::tiling_optimal(),
            usage: format.usage_flags() | info.usage,
            sharing_mode: info.sharing_mode,
            initial_layout: codes::layout_undefined(),
        };
        let image = ctx.create(Kind::Image);
        ctx.emit(Op::CreateImage { image, info: image_info });
        let allocation = ctx.create(Kind::Memory);
        ctx.emit(Op::AllocateImageMemory { memory: allocation, image, location: Location::GpuOnly, linear: false });
        ctx.emit(Op::BindImageMemory { image, memory: allocation });
        let mut img = Image::new(ctx, image, format, Some(allocation));
        proof {
            assert(ctx.objects() =~= old(ctx).objects() + seq![
                fresh(Kind::Image),
                fresh(Kind::Memory),
                fresh(Kind::ImageView),
            ]);
            assert(ctx.log() =~= old(ctx).log() + image_create_calls(
                scope.commands.buffer,
                image,
                allocation,
                img.view,
                format,
                *info,
                None,
            ));
        }
        if let Some(to) = to {
            img.transition_layout(ctx, scope, to);
            proof {
                assert(ctx.log() =~= old(ctx).log() + image_create_calls(
                    scope.commands.buffer,
                    image,
                    allocation,
                    img.view,
                    format,
                    *info,
                    Some(*to),
                ));
            }
        }
        img
    }

    /// Creates a color texture that will hold the pixels of `picture`
    /// once `scope` has finished: the pixels go into a staging buffer,
    /// the image is created as a target of transfers, the copy and the
    /// transition to shader reads are recorded into `scope`, and the
    /// staging buffer is left to `scope` to destroy.
    pub fn create_from_image(
        ctx: &mut Context,
        scope: &mut OneshotScope,
        picture: &RgbaImage,
    ) -> (img: Image)
        requires
            old(scope).wf(*old(ctx)),
            picture.wf(),
        ensures
            img == texture_image(old(ctx).objects().len() as Handle),
            final(scope).resources@ == old(scope).resources@.push(
                Resource::Buffer(staging_buffer(old(ctx).objects().len() as Handle, picture.pixels@.len())),
            ),
            final(scope).commands == old(scope).commands,
            final(scope).fence == old(scope).fence,
            final(scope).queue == old(scope).queue,
            final(ctx).grows_by(
                *old(ctx),
                texture_upload_objects(),
                texture_upload_calls(
                    old(scope).commands.buffer,
                    old(ctx).objects().len() as Handle,
                    picture.width,
                    picture.height,
                    picture.pixels@,
                ),
            ),
            final(scope).wf(*final(ctx)),
            img.wf(*final(ctx)),
    {
        let staging = {
            let info = BufferInfo {
                size: 0,
                usage: codes::buffer_usage_transfer_src(),
                sharing_mode: codes::sharing_exclusive(),
            };
            Buffer::create_with_data(ctx, info, picture.pixels.as_slice())
        };
        let extent = Extent3D { width: picture.width, height: picture.height, depth: 1 };
        let info = ImageInfo {
            flags: 0,
            image_type: 0,
            format: 0,
            extent,
            mip_levels: 0,
            array_layers: 0,
            samples: 0,
            tiling: 0,
            usage: codes::image_usage_transfer_dst(),
            sharing_mode: codes::sharing_exclusive(),
            initial_layout: 0,
        };
        proof {
            lemma_scope_survives_growth(*scope, *old(ctx), *ctx);
        }
        let to = BarrierInfo::transfer_dst();
        let mut image = Image::create(ctx, scope, Format::Color, &info, Some(&to));
        proof {
            lemma_scope_survives_growth(*scope, *old(ctx), *ctx);
        }
        image.record_copy_from(ctx, scope, &staging, extent);
        proof {
            lemma_scope_survives_growth(*scope, *old(ctx), *ctx);
        }
        let read = BarrierInfo::shader_read();
        image.transition_layout(ctx, scope, &read);
        let ghost staged = staging;
        scope.add_resource(Resource::Buffer(staging));
        proof {
            assert(staged.handles()[0] == staged.buffer && staged.handles()[1] == staged.allocation);
            lemma_scope_adopts(*old(scope), *scope, Resource::Buffer(staged), *old(ctx), *ctx);
            assert(ctx.objects() =~= old(ctx).objects() + texture_upload_objects());
            assert(ctx.log() =~= old(ctx).log() + texture_upload_calls(
                scope.commands.buffer,
                staged.buffer,
                picture.width,
                picture.height,
                picture.pixels@,
            ));
        }
        image
    }

    /// Records into `scope` the transition of the image from the state
    /// it is in to `to`, and takes `to` as its state.
    pub fn transition_layout(&mut self, ctx: &mut Context, scope: &OneshotScope, to: &BarrierInfo)
        requires
            scope.wf(*old(ctx)),
            old(self).wf(*old(ctx)),
        ensures
            *final(self) == (Image { state: *to, ..*old(self) }),
            final(ctx).requests(
                *old(ctx),
                seq![
                    barrier_call(scope.commands.buffer, old(self).image, old(self).format, old(self).state, *to),
                ],
            ),
    {
        ctx.emit(
            Op::CmdPipelineBarrier {
                commands: scope.commands.buffer,
                image: self.image,
                from: self.state,
                to: *to,
                src_queue_family: codes::queue_family_ignored(),
                dst_queue_family: codes::queue_family_ignored(),
                range: self.format.subresource_range(),
            },
        );
        self.state = *to;
    }

    /// Records into `scope` a copy of `extent` texels from `src` into the image.
    pub fn record_copy_from(
        &self,
        ctx: &mut Context,
        scope: &OneshotScope,
        src: &Buffer,
        extent: Extent3D,
    )
        requires
            scope.wf(*old(ctx)),
            self.wf(*old(ctx)),
            src.wf(*old(ctx)),
        ensures
            final(ctx).requests(
                *old(ctx),
                seq![image_copy_call(scope.commands.buffer, src.buffer, self.image, extent)],
            ),
    {
        ctx.emit(
            Op::CmdCopyBufferToImage {
                commands: scope.commands.buffer,
                src: src.buffer,
                dst: self.image,
                layout: codes::layout_transfer_dst(),
                extent,
                aspect_mask: codes::aspect_color(),
                mip_level: 0,
                base_array_layer: 0,
                layer_count: 1,
            },
        );
    }

    /// Requests the destruction of what the image owns and marks its entries.
    pub(crate) fn release(&self, ctx: &mut Context)
        requires
            self.within(*old(ctx)),
        ensures
            final(ctx).retires(*old(ctx), self.handles(), self.destroy_calls()),
            final(ctx).objects().len() == old(ctx).objects().len(),
    {
        ctx.emit(Op::DestroyImageView { view: self.view });
        ctx.destroy(self.view);
        if let Some(allocation) = self.allocation {
            ctx.emit(Op::DestroyImage { image: self.image });
            ctx.destroy(self.image);
            ctx.emit(Op::FreeMemory { memory: allocation });
            ctx.destroy(allocation);
            proof {
                lemma_retire_all_concat(old(ctx).objects(), seq![self.view], seq![self.image]);
                lemma_retire_all_concat(old(ctx).objects(), seq![self.view] + seq![self.image], seq![allocation]);
                assert(seq![self.view] + seq![self.image] + seq![allocation] =~= self.handles());
            }
        }
        proof {
            assert(ctx.log() =~= old(ctx).log() + self.destroy_calls());
        }
    }

    /// Destroys the view; then, where the image owns memory, the image
    /// and after it the memory. The image is given up with the call:
    /// nothing is left to ask for a handle or to destroy a second time.
    pub fn destroy_with(self, ctx: &mut Context)
        requires
            self.wf(*old(ctx)),
        ensures
            final(ctx).retires(*old(ctx), self.handles(), self.destroy_calls()),
            !self.wf(*final(ctx)),
    {
        self.release(ctx);
        proof {
            lemma_retire_all(old(ctx).objects(), self.handles());
            assert(self.handles()[0] == self.view);
        }
    }
}

} // verus!
