use vstd::prelude::*;
use crate::call::{Call, CallView, Extent2D, Handle, Op, calls_view};
use crate::codes;
use crate::features::Features;
use crate::ledger::{Kind, Object, fresh, live_at, live_count, retire, retire_all};

verus! {

/// A queue of the device, known by the family it belongs to.
#[derive(Clone, Copy, Debug, PartialEq, Eq, Structural)]
pub struct Queue {
    pub family_index: u32,
}

/// The queues the renderer submits to: one for graphics, and one for
/// transfers where the device has a family of its own for them.
#[derive(Clone, Copy, Debug, PartialEq, Eq, Structural)]
pub struct Queues {
    pub graphics: Queue,
    pub transfer: Option<Queue>,
}

impl Queues {
    /// Picks the queues among the families of the device: for graphics
    /// the first family that draws, and for transfers the first that
    /// only transfers, if there is one. A device without a family that
    /// draws has no queues to offer.
    pub fn select(families: &[QueueFamily]) -> (chosen: Option<Queues>)
        requires
            families@.len() <= u32::MAX,
        ensures
            chosen is None <==> forall|i: int| 0 <= i < families@.len() ==> !(#[trigger] families@[i]).draws(),
            chosen matches Some(queues) ==> {
                &&& first_drawing(families@, queues.graphics.family_index as int)
                &&& match queues.transfer {
                    Some(transfer) => first_transferring(families@, transfer.family_index as int),
                    None => forall|i: int| 0 <= i < families@.len() ==> !(#[trigger] families@[i]).only_transfers(),
                }
            },
    {
        let graphics_flag = codes::queue_graphics();
        let transfer_flag = codes::queue_transfer();
        let mut graphics: Option<Queue> = None;
        let mut transfer: Option<Queue> = None;
        let mut i: usize = 0;
        while i < families.len()
            invariant
                i <= families@.len(),
                families@.len() <= u32::MAX,
                graphics_flag == 0x1,
                transfer_flag == 0x4,
                match graphics {
                    Some(queue) => queue.family_index < i && first_drawing(families@, queue.family_index as int),
                    None => forall|k: int| 0 <= k < i ==> !(#[trigger] families@[k]).draws(),
                },
                match transfer {
                    Some(queue) => queue.family_index < i && first_transferring(families@, queue.family_index as int),
                    None => forall|k: int| 0 <= k < i ==> !(#[trigger] families@[k]).only_transfers(),
                },
            decreases families@.len() - i,
        {
            let family = families[i];
            if graphics.is_none() && family.flags & graphics_flag != 0 && family.presents {
                graphics = Some(Queue { family_index: i as u32 });
            }
            if transfer.is_none() && family.flags & transfer_flag != 0 && family.flags & graphics_flag == 0 {
                transfer = Some(Queue { family_index: i as u32 });
            }
            i = i + 1;
        }
        match graphics {
            Some(graphics) => Some(Queues { graphics, transfer }),
            None => None,
        }
    }

    /// The queue that takes graphics work.
    pub fn graphics(&self) -> (q: Queue)
        ensures
            q == self.graphics,
    {
        self.graphics
    }

    /// The queue that takes transfers: the dedicated one, else the graphics queue.
    pub fn transfer(&self) -> (q: Queue)
        ensures
            q == match self.transfer {
                Some(t) => t,
                None => self.graphics,
            },
    {
        match self.transfer {
            Some(t) => t,
            None => self.graphics,
        }
    }
}

/// What the device reports of a surface: its size now, and how many
/// presentable images a swapchain on it may have (`max_image_count` 0: no limit).
#[derive(Clone, Copy, Debug, PartialEq, Eq, Structural)]
pub struct SurfaceCapabilities {
    pub current_extent: Extent2D,
    pub min_image_count: u32,
    pub max_image_count: u32,
}

/// A texel format together with the color space in which a surface
/// shows it, as the device's numbers.
#[derive(Clone, Copy, Debug, PartialEq, Eq, Structural)]
pub struct SurfaceFormat {
    pub format: i32,
    pub color_space: i32,
}

/// What the device reports of one of its queue families: what work it
/// takes, as the device's flags, and whether it can present to the surface.
#[derive(Clone, Copy, Debug, PartialEq, Eq, Structural)]
pub struct QueueFamily {
    pub flags: u32,
    pub presents: bool,
}

impl QueueFamily {
    /// The family takes graphics work (flag 0x1) and can present to the surface.
    pub open spec fn draws(self) -> bool {
        self.flags & 0x1 != 0 && self.presents
    }

    /// The family takes transfers (flag 0x4) and no graphics work.
    pub open spec fn only_transfers(self) -> bool {
        self.flags & 0x4 != 0 && self.flags & 0x1 == 0
    }
}

/// Family `i` is the first of `families` that draws.
pub open spec fn first_drawing(families: Seq<QueueFamily>, i: int) -> bool {
    &&& 0 <= i < families.len()
    &&& families[i].draws()
    &&& forall|j: int| 0 <= j < i ==> !(#[trigger] families[j]).draws()
}

/// Family `i` is the first of `families` that only transfers.
pub open spec fn first_transferring(families: Seq<QueueFamily>, i: int) -> bool {
    &&& 0 <= i < families.len()
    &&& families[i].only_transfers()
    &&& forall|j: int| 0 <= j < i ==> !(#[trigger] families[j]).only_transfers()
}

impl SurfaceFormat {
    /// The format that is taken where the surface offers it: four 8-bit
    /// sRGB channels, blue first (50), in the sRGB color space (0).
    pub open spec fn preferred() -> SurfaceFormat {
        SurfaceFormat { format: 50, color_space: 0 }
    }

    /// Picks the format of the surface among those that it offers: the
    /// preferred one where it is among them, else the first.
    pub fn select(formats: &[SurfaceFormat]) -> (chosen: Option<SurfaceFormat>)
        ensures
            formats@.len() == 0 <==> chosen is None,
            chosen matches Some(format) ==> format == if formats@.contains(SurfaceFormat::preferred()) {
                SurfaceFormat::preferred()
            } else {
                formats@[0]
            },
    {
        if formats.len() == 0 {
            return None;
        }
        let preferred = SurfaceFormat { format: codes::format_bgra_srgb(), color_space: codes::color_space_srgb() };
        let mut i: usize = 0;
        while i < formats.len()
            invariant
                i <= formats@.len(),
                preferred == SurfaceFormat::preferred(),
                forall|k: int| 0 <= k < i ==> formats@[k] != preferred,
            decreases formats@.len() - i,
        {
            if formats[i].format == preferred.format && formats[i].color_space == preferred.color_space {
                assert(formats@[i as int] == preferred);
                return Some(preferred);
            }
            i = i + 1;
        }
        Some(formats[0])
    }
}

/// The configuration a swapchain is built with.
#[derive(Clone, Copy, Debug, PartialEq, Eq, Structural)]
pub struct SurfaceConfig {
    pub surface_format: SurfaceFormat,
    pub extent: Extent2D,
    pub image_count: u32,
}

/// The presentation surface as the context knows it.
#[derive(Clone, Copy, Debug, PartialEq, Eq, Structural)]
pub struct Surface {
    pub config: SurfaceConfig,
}

/// One image more than the minimum, within the device's limit.
pub open spec fn negotiated_image_count(caps: SurfaceCapabilities) -> u32 {
    let wanted = if caps.min_image_count == u32::MAX {
        u32::MAX
    } else {
        (caps.min_image_count + 1) as u32
    };
    if caps.max_image_count > 0 && wanted > caps.max_image_count {
        caps.max_image_count
    } else {
        wanted
    }
}

impl Surface {
    /// Whether a swapchain can be built on a surface of this size.
    pub open spec fn presentable(extent: Extent2D) -> bool {
        extent.width > 0 && extent.height > 0
    }

    /// Takes over the size and the image count that `caps` allows; the
    /// format stays. Returns whether the surface can be presented to.
    pub fn refresh_capabilities(&mut self, caps: SurfaceCapabilities) -> (presentable: bool)
        ensures
            final(self).config == (SurfaceConfig {
                surface_format: old(self).config.surface_format,
                extent: caps.current_extent,
                image_count: negotiated_image_count(caps),
            }),
            presentable == Surface::presentable(caps.current_extent),
    {
        let wanted: u32 = caps.min_image_count.saturating_add(1);
        let image_count: u32 = if caps.max_image_count > 0 && wanted > caps.max_image_count {
            caps.max_image_count
        } else {
            wanted
        };
        self.config.extent = caps.current_extent;
        self.config.image_count = image_count;
        caps.current_extent.width > 0 && caps.current_extent.height > 0
    }
}

/// Why a context could not be set up.
#[derive(Clone, Copy, Debug, PartialEq, Eq, Structural)]
pub enum InitError {
    /// The device lacks a required feature.
    MissingFeatures,
}

/// The device as every other component sees it: its queues and surface,
/// the ledger of all objects created on it, and the requests to the
/// device that were made and not yet taken.
pub struct Context {
    pub queues: Queues,
    pub surface: Surface,
    pub features: Features,
    pub ledger: Ledger,
}

/// The bookkeeping of a context: every object ever created on the
/// device, and the requests that wait to be carried out.
pub struct Ledger {
    objects: Vec<Object>,
    calls: Vec<Call>,
}

impl Ledger {
    /// One entry for each object ever created, in order of creation.
    pub closed spec fn objects(&self) -> Seq<Object> {
        self.objects@
    }

    /// The requests that wait to be taken, oldest first.
    pub closed spec fn log(&self) -> Seq<CallView> {
        calls_view(self.calls@)
    }

    /// The ledger has no more entries than a machine word counts, so
    /// that every handle is the number of an entry, not a remainder.
    pub proof fn lemma_fits(&self)
        ensures
            self.objects().len() <= usize::MAX,
    {
        assert(self.objects.len() == self.objects@.len());
    }

    /// A ledger without entries or requests.
    fn new() -> (l: Ledger)
        ensures
            l.objects() == Seq::<Object>::empty(),
            l.log() == Seq::<CallView>::empty(),
    {
        let l = Ledger { objects: Vec::new(), calls: Vec::new() };
        assert(l.log() =~= Seq::<CallView>::empty());
        l
    }

    /// Enters a new live object of `kind`.
    fn create(&mut self, kind: Kind) -> (h: Handle)
        ensures
            h == old(self).objects().len(),
            final(self).objects() == old(self).objects() + seq![fresh(kind)],
            final(self).log() == old(self).log(),
    {
        let h = self.objects.len();
        self.objects.push(Object { kind, live: true });
        assert(self.objects() =~= old(self).objects() + seq![fresh(kind)]);
        h
    }

    /// Marks entry `h` as destroyed.
    fn destroy(&mut self, h: Handle)
        requires
            h < old(self).objects().len(),
        ensures
            final(self).objects() == retire(old(self).objects(), h),
            final(self).log() == old(self).log(),
    {
        let kind = self.objects[h].kind;
        self.objects[h] = Object { kind, live: false };
    }

    /// Adds `call` to the requests.
    fn record(&mut self, call: Call)
        ensures
            final(self).objects() == old(self).objects(),
            final(self).log() == old(self).log() + seq![call@],
    {
        self.calls.push(call);
        assert(self.log() =~= old(self).log() + seq![call@]);
    }

    /// Whether entry `h` is a live object of `kind`.
    fn is_live(&self, h: Handle, kind: Kind) -> (live: bool)
        ensures
            live == live_at(self.objects(), h, kind),
    {
        h < self.objects.len() && self.objects[h].live && self.objects[h].kind == kind
    }

    /// How many entries there are.
    fn created(&self) -> (n: usize)
        ensures
            n == self.objects().len(),
    {
        self.objects.len()
    }

    /// How many entries are live.
    fn live_objects(&self) -> (n: usize)
        ensures
            n == live_count(self.objects()),
    {
        let mut n: usize = 0;
        let mut i: usize = 0;
        while i < self.objects.len()
            invariant
                i <= self.objects.len(),
                n == live_count(self.objects@.take(i as int)),
                n <= i,
            decreases self.objects.len() - i,
        {
            assert(self.objects@.take(i + 1).drop_last() =~= self.objects@.take(i as int));
            if self.objects[i].live {
                n = n + 1;
            }
            i = i + 1;
        }
        assert(self.objects@.take(i as int) =~= self.objects@);
        n
    }

    /// Hands over the requests and starts anew.
    fn take_calls(&mut self) -> (calls: Vec<Call>)
        ensures
            calls_view(calls@) == old(self).log(),
            final(self).log() == Seq::<CallView>::empty(),
            final(self).objects() == old(self).objects(),
    {
        let mut calls: Vec<Call> = Vec::new();
        std::mem::swap(&mut self.calls, &mut calls);
        assert(self.log() =~= Seq::<CallView>::empty());
        calls
    }
}

impl Context {
    /// The ledger's entries: one for each object ever created, in order of creation.
    pub open spec fn objects(&self) -> Seq<Object> {
        self.ledger.objects()
    }

    /// The requests that wait to be taken, oldest first.
    pub open spec fn log(&self) -> Seq<CallView> {
        self.ledger.log()
    }

    /// The ledger has no more entries than a machine word counts: a
    /// handle that is stated as a length of the ledger, or as a length
    /// and an offset within it, is that number.
    pub proof fn lemma_fits(&self)
        ensures
            self.objects().len() <= usize::MAX,
    {
        self.ledger.lemma_fits();
    }

    /// `h` names a live object of `kind`.
    pub open spec fn live(&self, h: Handle, kind: Kind) -> bool {
        live_at(self.objects(), h, kind)
    }

    /// Queues, surface and features are those of `before`.
    pub open spec fn same_device(&self, before: Context) -> bool {
        &&& self.queues == before.queues
        &&& self.surface == before.surface
        &&& self.features == before.features
    }

    /// Since `before`, exactly `objects` were created and `calls`
    /// requested, and nothing else changed.
    pub open spec fn grows_by(
        &self,
        before: Context,
        objects: Seq<Object>,
        calls: Seq<CallView>,
    ) -> bool {
        &&& self.same_device(before)
        &&& self.objects() == before.objects() + objects
        &&& self.objects().len() <= usize::MAX
        &&& self.log() == before.log() + calls
    }

    /// Since `before`, exactly `calls` were requested, and nothing else changed.
    pub open spec fn requests(&self, before: Context, calls: Seq<CallView>) -> bool {
        &&& self.same_device(before)
        &&& self.objects() == before.objects()
        &&& self.log() == before.log() + calls
    }

    /// Since `before`, exactly the objects in `handles` were destroyed and
    /// `calls` requested, and nothing else changed.
    pub open spec fn retires(
        &self,
        before: Context,
        handles: Seq<Handle>,
        calls: Seq<CallView>,
    ) -> bool {
        &&& self.same_device(before)
        &&& self.objects() == retire_all(before.objects(), handles)
        &&& self.log() == before.log() + calls
    }

    /// Sets up the context for a device that offers `supported`. A device
    /// that lacks a required feature is refused before anything is created.
    pub fn init(
        supported: Features,
        queues: Queues,
        config: SurfaceConfig,
    ) -> (r: Result<Context, InitError>)
        ensures
            supported.covers(Features::required_set()) ==> r is Ok,
            !supported.covers(Features::required_set()) ==> r == Err::<Context, InitError>(
                InitError::MissingFeatures,
            ),
            r matches Ok(ctx) ==> {
                &&& ctx.queues == queues
                &&& ctx.surface == (Surface { config })
                &&& ctx.features == supported
                &&& ctx.objects() == Seq::<Object>::empty()
                &&& ctx.log() == Seq::<CallView>::empty()
            },
    {
        if !supported.supports_requirements() {
            return Err(InitError::MissingFeatures);
        }
        let ctx = Context { queues, surface: Surface { config }, features: supported, ledger: Ledger::new() };
        Ok(ctx)
    }

    /// Takes over what the device now reports of the surface. Returns
    /// whether the surface can be presented to.
    pub fn refresh_surface_capabilities(&mut self, caps: SurfaceCapabilities) -> (presentable: bool)
        ensures
            final(self).surface.config == (SurfaceConfig {
                surface_format: old(self).surface.config.surface_format,
                extent: caps.current_extent,
                image_count: negotiated_image_count(caps),
            }),
            final(self).queues == old(self).queues,
            final(self).features == old(self).features,
            final(self).objects() == old(self).objects(),
            final(self).log() == old(self).log(),
            presentable == Surface::presentable(caps.current_extent),
    {
        self.surface.refresh_capabilities(caps)
    }

    /// Enters a new live object of `kind` into the ledger.
    pub(crate) fn create(&mut self, kind: Kind) -> (h: Handle)
        ensures
            h == old(self).objects().len(),
            final(self).grows_by(*old(self), seq![fresh(kind)], Seq::empty()),
    {
        let h = self.ledger.create(kind);
        proof {
            self.ledger.lemma_fits();
            assert(self.log() =~= old(self).log() + Seq::<CallView>::empty());
        }
        h
    }

    /// Marks the object `h` as destroyed.
    pub(crate) fn destroy(&mut self, h: Handle)
        requires
            h < old(self).objects().len(),
        ensures
            final(self).retires(*old(self), seq![h], Seq::empty()),
            final(self).objects().len() == old(self).objects().len(),
    {
        self.ledger.destroy(h);
        assert(self.log() =~= old(self).log() + Seq::<CallView>::empty());
        assert(seq![h].drop_last() =~= Seq::<Handle>::empty());
        assert(retire_all(old(self).objects(), Seq::<Handle>::empty()) == old(self).objects());
        assert(retire_all(old(self).objects(), seq![h]) == retire(old(self).objects(), h));
    }

    /// Adds `call` to the requests.
    pub(crate) fn record(&mut self, call: Call)
        ensures
            final(self).requests(*old(self), seq![call@]),
    {
        self.ledger.record(call);
    }

    /// Adds `op` to the requests.
    pub(crate) fn emit(&mut self, op: Op)
        ensures
            final(self).requests(*old(self), seq![CallView::Op(op)]),
    {
        self.record(Call::Op(op));
    }

    /// Whether `h` names a live object of `kind`.
    pub fn is_live(&self, h: Handle, kind: Kind) -> (live: bool)
        ensures
            live == self.live(h, kind),
    {
        self.ledger.is_live(h, kind)
    }

    /// Whether every one of `handles` names a live object of `kind`.
    pub fn all_live(&self, handles: &Vec<Handle>, kind: Kind) -> (live: bool)
        ensures
            live == forall|i: int| 0 <= i < handles@.len() ==> self.live(#[trigger] handles@[i], kind),
    {
        let mut i: usize = 0;
        while i < handles.len()
            invariant
                i <= handles@.len(),
                forall|k: int| 0 <= k < i ==> self.live(#[trigger] handles@[k], kind),
            decreases handles@.len() - i,
        {
            if !self.is_live(handles[i], kind) {
                return false;
            }
            i = i + 1;
        }
        true
    }

    /// How many objects were ever created.
    pub fn created(&self) -> (n: usize)
        ensures
            n == self.objects().len(),
    {
        self.ledger.created()
    }

    /// How many objects are live.
    pub fn live_objects(&self) -> (n: usize)
        ensures
            n == live_count(self.objects()),
    {
        self.ledger.live_objects()
    }

    /// Gives the context up, once everything that was created on it
    /// is destroyed, and hands over the requests that were not yet taken.
    pub fn destroy_with(self) -> (calls: Vec<Call>)
        requires
            live_count(self.objects()) == 0,
        ensures
            calls_view(calls@) == self.log(),
    {
        let mut ledger = self.ledger;
        ledger.take_calls()
    }

    /// Hands over the requests made so far, oldest first, and starts anew.
    pub fn take_calls(&mut self) -> (calls: Vec<Call>)
        ensures
            calls_view(calls@) == old(self).log(),
            final(self).log() == Seq::<CallView>::empty(),
            final(self).objects() == old(self).objects(),
            final(self).same_device(*old(self)),
    {
        self.ledger.take_calls()
    }
}

} // verus!
