use vstd::prelude::*;
use crate::call::{CallView, Handle, Op};
use crate::context::{Context, Queue, SurfaceConfig};
use crate::image::{BarrierInfo, Format, Image, view_call};
use crate::ledger::{
    Kind, Object, all_within, fresh, lemma_all_within_concat, lemma_retire_all, lemma_retire_all_concat,
    unchanged_within,
};

verus! {

/// The presentable images of a surface, each with its view and the
/// framebuffer that renders to it, as negotiated at creation. `depth`
/// is the view of the depth image that the framebuffers share, if
/// they have one; the swapchain does not own it.
#[derive(Debug)]
pub struct Swapchain {
    pub swapchain: Handle,
    pub images: Vec<Image>,
    pub framebuffers: Vec<Handle>,
    pub depth: Option<Handle>,
    pub config: SurfaceConfig,
}

/// Presentable image `i` of the swapchain whose handle is `first`: the
/// image is `first + 1 + 3 i`, its view the handle after it.
pub open spec fn presentable(first: Handle, i: int) -> Image {
    Image {
        image: (first + 1 + 3 * i) as Handle,
        view: (first + 2 + 3 * i) as Handle,
        allocation: None,
        format: Format::Swapchain,
        state: BarrierInfo::spec_init(),
    }
}

/// The ledger entries of a swapchain of `n` images: the swapchain,
/// and for each image the image, its view and its framebuffer.
pub open spec fn swapchain_objects(n: nat) -> Seq<Object>
    decreases n,
{
    if n == 0 {
        seq![fresh(Kind::Swapchain)]
    } else {
        swapchain_objects((n - 1) as nat) + seq![
            fresh(Kind::Image),
            fresh(Kind::ImageView),
            fresh(Kind::Framebuffer),
        ]
    }
}

/// The requests that create a swapchain of the first `n` images as
/// `config` says, where `first` is the first new handle: the
/// swapchain (`first`), and for image `i` the request for the image
/// (`first + 1 + 3 i`), a view of it in the format of the surface
/// (`first + 2 + 3 i`), and a framebuffer of `render_pass` over that
/// view and `depth` (`first + 3 + 3 i`).
pub open spec fn swapchain_create_calls(
    first: Handle,
    render_pass: Handle,
    depth: Option<Handle>,
    config: SurfaceConfig,
    n: nat,
) -> Seq<CallView>
    decreases n,
{
    if n == 0 {
        seq![
            CallView::Op(
                Op::CreateSwapchain {
                    swapchain: first,
                    format: config.surface_format,
                    extent: config.extent,
                    image_count: config.image_count,
                },
            ),
        ]
    } else {
        let i = (n - 1) as int;
        swapchain_create_calls(first, render_pass, depth, config, i as nat) + seq![
            CallView::Op(
                Op::GetSwapchainImage { swapchain: first, index: i as u32, image: (first + 1 + 3 * i) as Handle },
            ),
            view_call(
                (first + 2 + 3 * i) as Handle,
                (first + 1 + 3 * i) as Handle,
                Format::Swapchain,
                config.surface_format.format,
            ),
            CallView::Op(
                Op::CreateFramebuffer {
                    framebuffer: (first + 3 + 3 * i) as Handle,
                    render_pass,
                    color: (first + 2 + 3 * i) as Handle,
                    depth,
                    extent: config.extent,
                },
            ),
        ]
    }
}

/// The ledger entries that the first `n` images of a swapchain own:
/// framebuffer, view and image of each.
pub open spec fn targets_handles(
    images: Seq<Image>,
    framebuffers: Seq<Handle>,
    n: nat,
) -> Seq<Handle>
    decreases n,
{
    if n == 0 {
        Seq::empty()
    } else {
        let i = (n - 1) as int;
        targets_handles(images, framebuffers, i as nat) + seq![framebuffers[i], images[i].view, images[i].image]
    }
}

/// The requests that destroy the render targets of the first `n`
/// images: for each the framebuffer, then the view.
pub open spec fn targets_destroy_calls(
    images: Seq<Image>,
    framebuffers: Seq<Handle>,
    n: nat,
) -> Seq<CallView>
    decreases n,
{
    if n == 0 {
        Seq::empty()
    } else {
        let i = (n - 1) as int;
        targets_destroy_calls(images, framebuffers, i as nat) + seq![
            CallView::Op(Op::DestroyFramebuffer { framebuffer: framebuffers[i] }),
            CallView::Op(Op::DestroyImageView { view: images[i].view }),
        ]
    }
}

/// A swapchain of `n` images has one ledger entry and three for each image.
pub proof fn lemma_swapchain_len(n: nat)
    ensures
        swapchain_objects(n).len() == 1 + 3 * n,
    decreases n,
{
    if n > 0 {
        lemma_swapchain_len((n - 1) as nat);
    }
}

/// Entries `1 + 3 k` to `3 + 3 k` of a swapchain's objects are the
/// image, the view and the framebuffer of image `k`; entry 0 is the swapchain.
pub proof fn lemma_swapchain_objects(n: nat, k: int)
    requires
        0 <= k < n,
    ensures
        swapchain_objects(n).len() == 1 + 3 * n,
        swapchain_objects(n)[0] == fresh(Kind::Swapchain),
        swapchain_objects(n)[1 + 3 * k] == fresh(Kind::Image),
        swapchain_objects(n)[2 + 3 * k] == fresh(Kind::ImageView),
        swapchain_objects(n)[3 + 3 * k] == fresh(Kind::Framebuffer),
    decreases n,
{
    lemma_swapchain_len((n - 1) as nat);
    lemma_swapchain_first((n - 1) as nat);
    if k < n - 1 {
        lemma_swapchain_objects((n - 1) as nat, k);
    }
}

/// The first ledger entry of a swapchain is the swapchain itself.
pub proof fn lemma_swapchain_first(n: nat)
    ensures
        swapchain_objects(n).len() == 1 + 3 * n,
        swapchain_objects(n)[0] == fresh(Kind::Swapchain),
    decreases n,
{
    if n > 0 {
        lemma_swapchain_first((n - 1) as nat);
    }
}

/// Each handle of the render targets is the framebuffer, the view or
/// the image of one of them.
pub proof fn lemma_targets_member(images: Seq<Image>, framebuffers: Seq<Handle>, n: nat, k: int) -> (i: int)
    requires
        0 <= k < targets_handles(images, framebuffers, n).len(),
    ensures
        0 <= i < n,
        targets_handles(images, framebuffers, n)[k] == framebuffers[i] || targets_handles(images, framebuffers, n)[k]
            == images[i].view || targets_handles(images, framebuffers, n)[k] == images[i].image,
    decreases n,
{
    let last = (n - 1) as int;
    let init = targets_handles(images, framebuffers, last as nat);
    if k < init.len() {
        lemma_targets_member(images, framebuffers, last as nat, k)
    } else {
        last
    }
}

/// The handles of render targets that lie within a range lie within it.
pub proof fn lemma_targets_within(
    images: Seq<Image>,
    framebuffers: Seq<Handle>,
    n: nat,
    lo: int,
    hi: int,
)
    requires
        n <= images.len(),
        n <= framebuffers.len(),
        forall|i: int| 0 <= i < framebuffers.len() ==> lo <= #[trigger] framebuffers[i] < hi,
        forall|i: int| 0 <= i < images.len() ==> lo <= (#[trigger] images[i]).view < hi && lo <= images[i].image < hi,
    ensures
        all_within(targets_handles(images, framebuffers, n), lo, hi),
    decreases n,
{
    if n > 0 {
        let i = (n - 1) as int;
        lemma_targets_within(images, framebuffers, i as nat, lo, hi);
        assert(lo <= images[i].view < hi);
        lemma_all_within_concat(
            targets_handles(images, framebuffers, i as nat),
            seq![framebuffers[i], images[i].view, images[i].image],
            lo,
            hi,
        );
    }
}

impl Swapchain {
    /// Every image has its framebuffer, and all of it is live in `ctx`.
    pub open spec fn wf(&self, ctx: Context) -> bool {
        &&& ctx.live(self.swapchain, Kind::Swapchain)
        &&& self.framebuffers@.len() == self.images@.len()
        &&& self.images@.len() == self.config.image_count
        &&& forall|i: int| 0 <= i < self.images@.len() ==> ctx.live(#[trigger] self.framebuffers@[i], Kind::Framebuffer)
        &&& forall|i: int| 0 <= i < self.images@.len() ==> {
            &&& ctx.live((#[trigger] self.images@[i]).view, Kind::ImageView)
            &&& ctx.live(self.images@[i].image, Kind::Image)
            &&& self.images@[i].allocation is None
        }
    }

    /// Swapchain, images, views and framebuffers have handles from `lo`
    /// up to, but not including, `hi`.
    pub open spec fn spans(&self, lo: int, hi: int) -> bool {
        &&& lo <= self.swapchain < hi
        &&& forall|i: int| 0 <= i < self.framebuffers@.len() ==> lo <= #[trigger] self.framebuffers@[i] < hi
        &&& forall|i: int| 0 <= i < self.images@.len() ==> {
            &&& lo <= (#[trigger] self.images@[i]).view < hi
            &&& lo <= self.images@[i].image < hi
        }
    }

    /// A swapchain that is well-formed stays so while the entries of what
    /// it owns are unchanged.
    pub proof fn lemma_kept(&self, then: Context, now: Context, lo: int, hi: int)
        requires
            self.wf(then),
            self.spans(lo, hi),
            unchanged_within(now.objects(), then.objects(), lo, hi),
        ensures
            self.wf(now),
    {
        assert forall|i: int| 0 <= i < self.images@.len() implies now.live(
            #[trigger] self.framebuffers@[i],
            Kind::Framebuffer,
        ) by {
            assert(then.live(self.framebuffers@[i], Kind::Framebuffer));
        }
        assert forall|i: int| 0 <= i < self.images@.len() implies {
            &&& now.live((#[trigger] self.images@[i]).view, Kind::ImageView)
            &&& now.live(self.images@[i].image, Kind::Image)
            &&& self.images@[i].allocation is None
        } by {
            assert(then.live(self.images@[i].view, Kind::ImageView));
        }
    }

    /// What a swapchain owns lies within the range it spans.
    pub proof fn lemma_owned_within(&self, lo: int, hi: int)
        requires
            self.framebuffers@.len() == self.images@.len(),
            self.spans(lo, hi),
        ensures
            all_within(self.handles(), lo, hi),
    {
        lemma_targets_within(self.images@, self.framebuffers@, self.images@.len(), lo, hi);
        lemma_all_within_concat(
            targets_handles(self.images@, self.framebuffers@, self.images@.len()),
            seq![self.swapchain],
            lo,
            hi,
        );
    }

    /// Whether every image has its framebuffer and all of it is live in `ctx`.
    pub fn is_wf(&self, ctx: &Context) -> (ok: bool)
        ensures
            ok == self.wf(*ctx),
    {
        if !ctx.is_live(self.swapchain, Kind::Swapchain) || self.framebuffers.len() != self.images.len()
            || self.images.len() != self.config.image_count as usize || !ctx.all_live(
            &self.framebuffers,
            Kind::Framebuffer,
        ) {
            return false;
        }
        let mut i: usize = 0;
        while i < self.images.len()
            invariant
                i <= self.images@.len(),
                forall|k: int| 0 <= k < i ==> {
                    &&& ctx.live((#[trigger] self.images@[k]).view, Kind::ImageView)
                    &&& ctx.live(self.images@[k].image, Kind::Image)
                    &&& self.images@[k].allocation is None
                },
            decreases self.images@.len() - i,
        {
            let image = &self.images[i];
            if !ctx.is_live(image.view, Kind::ImageView) || !ctx.is_live(image.image, Kind::Image)
                || image.allocation.is_some() {
                return false;
            }
            i = i + 1;
        }
        true
    }

    /// What the swapchain owns are entries of the ledger of `ctx`.
    pub open spec fn within(&self, ctx: Context) -> bool {
        &&& self.swapchain < ctx.objects().len()
        &&& self.framebuffers@.len() == self.images@.len()
        &&& forall|i: int| 0 <= i < self.images@.len() ==> (#[trigger] self.framebuffers@[i]) < ctx.objects().len()
        &&& forall|i: int| 0 <= i < self.images@.len() ==> {
            &&& (#[trigger] self.images@[i]).view < ctx.objects().len()
            &&& self.images@[i].image < ctx.objects().len()
        }
    }

    /// The ledger entries the swapchain owns, in the order in which
    /// they are destroyed: the render targets, then the swapchain.
    pub open spec fn handles(&self) -> Seq<Handle> {
        targets_handles(self.images@, self.framebuffers@, self.images@.len()) + seq![self.swapchain]
    }

    /// The requests that destroy the swapchain: the render targets
    /// first, then the swapchain, with which its images go.
    pub open spec fn destroy_calls(&self) -> Seq<CallView> {
        targets_destroy_calls(self.images@, self.framebuffers@, self.images@.len()) + seq![
            CallView::Op(Op::DestroySwapchain { swapchain: self.swapchain }),
        ]
    }

    /// Creates a swapchain as the surface of `ctx` is configured, with
    /// a view and a framebuffer of `render_pass` for each presentable
    /// image. Where the pass has a depth attachment, `depth` is the
    /// view that every framebuffer uses for it.
    pub fn create(ctx: &mut Context, render_pass: Handle, depth: Option<Handle>) -> (s: Swapchain)
        requires
            old(ctx).live(render_pass, Kind::RenderPass),
            depth matches Some(view) ==> old(ctx).live(view, Kind::ImageView),
        ensures
            s.swapchain == old(ctx).objects().len(),
            s.depth == depth,
            s.config == old(ctx).surface.config,
            s.images@.len() == s.config.image_count,
            s.framebuffers@.len() == s.config.image_count,
            forall|i: int| 0 <= i < s.images@.len() ==> #[trigger] s.images@[i] == presentable(s.swapchain, i),
            forall|i: int| 0 <= i < s.images@.len() ==> #[trigger] s.framebuffers@[i] == s.swapchain + 3 + 3 * i,
            final(ctx).grows_by(
                *old(ctx),
                swapchain_objects(s.config.image_count as nat),
                swapchain_create_calls(s.swapchain, render_pass, depth, s.config, s.config.image_count as nat),
            ),
            s.wf(*final(ctx)),
            s.spans(old(ctx).objects().len() as int, final(ctx).objects().len() as int),
    {
        let config = ctx.surface.config;
        let swapchain = ctx.create(Kind::Swapchain);
        ctx.emit(
            Op::CreateSwapchain {
                swapchain,
                format: config.surface_format,
                extent: config.extent,
                image_count: config.image_count,
            },
        );
        let mut images: Vec<Image> = Vec::new();
        let mut framebuffers: Vec<Handle> = Vec::new();
        proof {
            assert(ctx.objects() =~= old(ctx).objects() + swapchain_objects(0));
            assert(ctx.log() =~= old(ctx).log() + swapchain_create_calls(swapchain, render_pass, depth, config, 0));
        }
        let mut i: u32 = 0;
        while i < config.image_count
            invariant
                i <= config.image_count,
                swapchain == old(ctx).objects().len(),
                config == old(ctx).surface.config,
                images@.len() == i,
                framebuffers@.len() == i,
                forall|k: int| 0 <= k < i ==> #[trigger] images@[k] == presentable(swapchain, k),
                forall|k: int| 0 <= k < i ==> #[trigger] framebuffers@[k] == swapchain + 3 + 3 * k,
                ctx.grows_by(
                    *old(ctx),
                    swapchain_objects(i as nat),
                    swapchain_create_calls(swapchain, render_pass, depth, config, i as nat),
                ),
                swapchain_objects(i as nat).len() == 1 + 3 * i,
            decreases config.image_count - i,
        {
            let image = ctx.create(Kind::Image);
            ctx.emit(Op::GetSwapchainImage { swapchain, index: i, image });
            let presentable = Image::new_of_format(ctx, image, Format::Swapchain, config.surface_format.format, None);
            let framebuffer = ctx.create(Kind::Framebuffer);
            ctx.emit(
                Op::CreateFramebuffer {
                    framebuffer,
                    render_pass,
                    color: presentable.view,
                    depth,
                    extent: config.extent,
                },
            );
            proof {
                assert(ctx.objects() =~= old(ctx).objects() + swapchain_objects((i + 1) as nat));
                assert(ctx.log() =~= old(ctx).log() + swapchain_create_calls(
                    swapchain,
                    render_pass,
                    depth,
                    config,
                    (i + 1) as nat,
                ));
            }
            images.push(presentable);
            framebuffers.push(framebuffer);
            i = i + 1;
        }
        let total = ctx.created();
        let s = Swapchain { swapchain, images, framebuffers, depth, config };
        proof {
            let n = config.image_count as nat;
            lemma_swapchain_first(n);
            assert(total == swapchain + 1 + 3 * n);
            assert(ctx.objects()[swapchain as int] == swapchain_objects(n)[0]);
            assert forall|k: int| 0 <= k < s.images@.len() implies ctx.live(
                #[trigger] s.framebuffers@[k],
                Kind::Framebuffer,
            ) by {
                lemma_swapchain_objects(n, k);
                assert(ctx.objects()[swapchain + 3 + 3 * k] == swapchain_objects(n)[3 + 3 * k]);
            }
            assert forall|k: int| 0 <= k < s.images@.len() implies {
                &&& ctx.live((#[trigger] s.images@[k]).view, Kind::ImageView)
                &&& ctx.live(s.images@[k].image, Kind::Image)
                &&& s.images@[k].allocation is None
            } by {
                lemma_swapchain_objects(n, k);
                assert(s.images@[k] == presentable(swapchain, k));
                assert(ctx.objects()[swapchain + 1 + 3 * k] == swapchain_objects(n)[1 + 3 * k]);
                assert(ctx.objects()[swapchain + 2 + 3 * k] == swapchain_objects(n)[2 + 3 * k]);
            }
        }
        s
    }

    /// Asks for the next presentable image, with `signal` to be
    /// signaled when the image is ready.
    pub fn acquire_next_image_and_signal(&self, ctx: &mut Context, signal: Handle)
        requires
            self.wf(*old(ctx)),
            old(ctx).live(signal, Kind::Semaphore),
        ensures
            final(ctx).requests(
                *old(ctx),
                seq![CallView::Op(Op::AcquireNextImage { swapchain: self.swapchain, signal })],
            ),
    {
        ctx.emit(Op::AcquireNextImage { swapchain: self.swapchain, signal });
    }

    /// Asks for image `image_index` to be presented on `queue` once `wait` is signaled.
    pub fn present_to_when(&self, ctx: &mut Context, queue: Queue, image_index: u32, wait: Handle)
        requires
            self.wf(*old(ctx)),
            image_index < self.images@.len(),
            old(ctx).live(wait, Kind::Semaphore),
        ensures
            final(ctx).requests(
                *old(ctx),
                seq![
                    CallView::Op(
                        Op::QueuePresent {
                            queue_family: queue.family_index,
                            swapchain: self.swapchain,
                            image_index,
                            wait,
                        },
                    ),
                ],
            ),
    {
        ctx.emit(
            Op::QueuePresent { queue_family: queue.family_index, swapchain: self.swapchain, image_index, wait },
        );
    }

    /// Requests the destruction of what `self` owns, in order, and
    /// marks the entries as destroyed.
    pub(crate) fn release(&self, ctx: &mut Context)
        requires
            self.within(*old(ctx)),
        ensures
            final(ctx).retires(*old(ctx), self.handles(), self.destroy_calls()),
            final(ctx).objects().len() == old(ctx).objects().len(),
    {
        let ghost images = self.images@;
        let ghost framebuffers = self.framebuffers@;
        proof {
            assert(ctx.log() =~= old(ctx).log() + targets_destroy_calls(images, framebuffers, 0));
        }
        let mut i: usize = 0;
        while i < self.images.len()
            invariant
                i <= self.images@.len(),
                images == self.images@,
                framebuffers == self.framebuffers@,
                self.within(*old(ctx)),
                ctx.objects().len() == old(ctx).objects().len(),
                ctx.retires(
                    *old(ctx),
                    targets_handles(images, framebuffers, i as nat),
                    targets_destroy_calls(images, framebuffers, i as nat),
                ),
            decreases self.images@.len() - i,
        {
            let ghost gone = targets_handles(images, framebuffers, i as nat);
            let framebuffer = self.framebuffers[i];
            let view = self.images[i].view;
            let image = self.images[i].image;
            proof {
                assert(self.framebuffers@[i as int] < old(ctx).objects().len());
                assert(self.images@[i as int].view < old(ctx).objects().len());
            }
            ctx.emit(Op::DestroyFramebuffer { framebuffer });
            ctx.destroy(framebuffer);
            ctx.emit(Op::DestroyImageView { view });
            ctx.destroy(view);
            ctx.destroy(image);
            proof {
                lemma_retire_all_concat(old(ctx).objects(), gone, seq![framebuffer]);
                lemma_retire_all_concat(old(ctx).objects(), gone + seq![framebuffer], seq![view]);
                lemma_retire_all_concat(old(ctx).objects(), gone + seq![framebuffer] + seq![view], seq![image]);
                assert(gone + seq![framebuffer] + seq![view] + seq![image] =~= targets_handles(
                    images,
                    framebuffers,
                    (i + 1) as nat,
                ));
                assert(ctx.log() =~= old(ctx).log() + targets_destroy_calls(
                    images,
                    framebuffers,
                    (i + 1) as nat,
                ));
            }
            i = i + 1;
        }
        ctx.emit(Op::DestroySwapchain { swapchain: self.swapchain });
        ctx.destroy(self.swapchain);
        proof {
            lemma_retire_all_concat(
                old(ctx).objects(),
                targets_handles(images, framebuffers, images.len()),
                seq![self.swapchain],
            );
            assert(ctx.log() =~= old(ctx).log() + self.destroy_calls());
        }
    }

    /// Destroys the render targets and the swapchain, which is given
    /// up with the call.
    pub fn destroy_with(self, ctx: &mut Context)
        requires
            self.wf(*old(ctx)),
        ensures
            final(ctx).retires(*old(ctx), self.handles(), self.destroy_calls()),
            !self.wf(*final(ctx)),
    {
        self.release(ctx);
        proof {
            lemma_retire_all(old(ctx).objects(), self.handles());
            assert(self.handles()[self.handles().len() - 1] == self.swapchain);
            assert(self.handles().contains(self.swapchain));
        }
    }
}

} // verus!
