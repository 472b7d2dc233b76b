use vstd::prelude::*;
use crate::call::{CallView, Handle, Op};
use crate::context::Context;
use crate::ledger::{
    Kind, Object, all_within, fresh, lemma_all_within_concat, lemma_retire_all_concat, unchanged_within,
};

verus! {

/// The slot that follows `current` in a ring of `size` slots.
pub open spec fn next_slot(current: int, size: int) -> int {
    (current + 1) % size
}

/// The slot that a ring of `size` slots has reached after `k` advances from `start`.
pub open spec fn slot_after(start: int, size: int, k: nat) -> int
    decreases k,
{
    if k == 0 {
        start
    } else {
        next_slot(slot_after(start, size, (k - 1) as nat), size)
    }
}

/// How many of `pending` are set.
pub open spec fn count_pending(pending: Seq<bool>) -> nat
    decreases pending.len(),
{
    if pending.len() == 0 {
        0
    } else {
        count_pending(pending.drop_last()) + if pending.last() { 1nat } else { 0nat }
    }
}

/// The ledger entries of a ring of `size` slots: for each slot two
/// semaphores and a fence.
pub open spec fn ring_objects(size: nat) -> Seq<Object>
    decreases size,
{
    if size == 0 {
        Seq::empty()
    } else {
        ring_objects((size - 1) as nat) + seq![
            fresh(Kind::Semaphore),
            fresh(Kind::Semaphore),
            fresh(Kind::Fence),
        ]
    }
}

/// The requests that create a ring of `size` slots whose first handle
/// is `first`: for slot `i` the semaphore that tells of an acquired
/// image (`first + 3 i`), the semaphore that tells of finished
/// rendering (`first + 3 i + 1`) and the fence that tells the host of a
/// finished frame (`first + 3 i + 2`), which starts out signaled.
pub open spec fn ring_create_calls(first: Handle, size: nat) -> Seq<CallView>
    decreases size,
{
    if size == 0 {
        Seq::empty()
    } else {
        let i = (size - 1) as nat;
        ring_create_calls(first, i) + seq![
            CallView::Op(Op::CreateSemaphore { semaphore: (first + 3 * i) as Handle }),
            CallView::Op(Op::CreateSemaphore { semaphore: (first + 3 * i + 1) as Handle }),
            CallView::Op(Op::CreateFence { fence: (first + 3 * i + 2) as Handle, signaled: true }),
        ]
    }
}

/// The handles of the first `size` slots of a ring, slot by slot.
pub open spec fn ring_handles(
    image_available: Seq<Handle>,
    render_finished: Seq<Handle>,
    in_flight: Seq<Handle>,
    size: nat,
) -> Seq<Handle>
    decreases size,
{
    if size == 0 {
        Seq::empty()
    } else {
        let i = (size - 1) as int;
        ring_handles(image_available, render_finished, in_flight, i as nat) + seq![
            image_available[i],
            render_finished[i],
            in_flight[i],
        ]
    }
}

/// The requests that destroy the first `size` slots of a ring, slot by slot.
pub open spec fn ring_destroy_calls(
    image_available: Seq<Handle>,
    render_finished: Seq<Handle>,
    in_flight: Seq<Handle>,
    size: nat,
) -> Seq<CallView>
    decreases size,
{
    if size == 0 {
        Seq::empty()
    } else {
        let i = (size - 1) as int;
        ring_destroy_calls(image_available, render_finished, in_flight, i as nat) + seq![
            CallView::Op(Op::DestroySemaphore { semaphore: image_available[i] }),
            CallView::Op(Op::DestroySemaphore { semaphore: render_finished[i] }),
            CallView::Op(Op::DestroyFence { fence: in_flight[i] }),
        ]
    }
}

/// The requests that wait for the fence of every slot, slot by slot.
pub open spec fn wait_all_calls(in_flight: Seq<Handle>) -> Seq<CallView> {
    Seq::new(in_flight.len(), |i: int| CallView::Op(Op::WaitForFence { fence: in_flight[i] }))
}

/// The synchronization objects of the frames in flight: a ring of slots,
/// each with two semaphores and a fence, and the slot of the current
/// frame. `pending` tells for each slot whether a frame was submitted
/// on it that the host has not waited for since.
#[derive(Debug)]
pub struct SyncState {
    pub image_available: Vec<Handle>,
    pub render_finished: Vec<Handle>,
    pub in_flight: Vec<Handle>,
    pub pending: Vec<bool>,
    pub current_frame: usize,
}

impl SyncState {
    /// The number of slots: how many frames may be in flight.
    pub open spec fn size(&self) -> nat {
        self.in_flight@.len()
    }

    /// The ring has a slot, every slot has its three objects, and the
    /// current slot is one of them.
    pub open spec fn wf(&self) -> bool {
        &&& self.size() > 0
        &&& self.image_available@.len() == self.size()
        &&& self.render_finished@.len() == self.size()
        &&& self.pending@.len() == self.size()
        &&& self.current_frame < self.size()
    }

    /// The ring is well-formed and its objects are live in `ctx`.
    pub open spec fn live_in(&self, ctx: Context) -> bool {
        &&& self.wf()
        &&& forall|i: int| 0 <= i < self.size() ==> ctx.live(#[trigger] self.image_available@[i], Kind::Semaphore)
        &&& forall|i: int| 0 <= i < self.size() ==> ctx.live(#[trigger] self.render_finished@[i], Kind::Semaphore)
        &&& forall|i: int| 0 <= i < self.size() ==> ctx.live(#[trigger] self.in_flight@[i], Kind::Fence)
    }

    /// The objects of the ring have handles from `lo` up to, but not including, `hi`.
    pub open spec fn spans(&self, lo: int, hi: int) -> bool {
        &&& forall|i: int| 0 <= i < self.image_available@.len() ==> lo <= #[trigger] self.image_available@[i] < hi
        &&& forall|i: int| 0 <= i < self.render_finished@.len() ==> lo <= #[trigger] self.render_finished@[i] < hi
        &&& forall|i: int| 0 <= i < self.in_flight@.len() ==> lo <= #[trigger] self.in_flight@[i] < hi
    }

    /// A ring whose objects are live stays so while their entries are unchanged.
    pub proof fn lemma_kept(&self, then: Context, now: Context, lo: int, hi: int)
        requires
            self.live_in(then),
            self.spans(lo, hi),
            unchanged_within(now.objects(), then.objects(), lo, hi),
        ensures
            self.live_in(now),
    {
        assert forall|i: int| 0 <= i < self.size() implies now.live(
            #[trigger] self.image_available@[i],
            Kind::Semaphore,
        ) by {
            assert(then.live(self.image_available@[i], Kind::Semaphore));
        }
        assert forall|i: int| 0 <= i < self.size() implies now.live(
            #[trigger] self.render_finished@[i],
            Kind::Semaphore,
        ) by {
            assert(then.live(self.render_finished@[i], Kind::Semaphore));
        }
        assert forall|i: int| 0 <= i < self.size() implies now.live(#[trigger] self.in_flight@[i], Kind::Fence) by {
            assert(then.live(self.in_flight@[i], Kind::Fence));
        }
    }

    /// What a ring owns lies within the range it spans.
    pub proof fn lemma_owned_within(&self, lo: int, hi: int)
        requires
            self.wf(),
            self.spans(lo, hi),
        ensures
            all_within(self.handles(), lo, hi),
    {
        lemma_ring_within(self.image_available@, self.render_finished@, self.in_flight@, self.size(), lo, hi);
    }

    /// Whether the ring is well-formed and its objects are live in `ctx`.
    pub fn is_live_in(&self, ctx: &Context) -> (ok: bool)
        ensures
            ok == self.live_in(*ctx),
    {
        let size = self.in_flight.len();
        size > 0 && self.image_available.len() == size && self.render_finished.len() == size
            && self.pending.len() == size && self.current_frame < size && ctx.all_live(
            &self.image_available,
            Kind::Semaphore,
        ) && ctx.all_live(&self.render_finished, Kind::Semaphore) && ctx.all_live(&self.in_flight, Kind::Fence)
    }

    /// The frames that were submitted and that the host has not waited for since.
    pub open spec fn frames_in_flight(&self) -> nat {
        count_pending(self.pending@)
    }

    /// The ledger entries the ring owns, slot by slot.
    pub open spec fn handles(&self) -> Seq<Handle> {
        ring_handles(self.image_available@, self.render_finished@, self.in_flight@, self.size())
    }

    /// Creates a ring of `size` slots, with no frame in flight and the
    /// first slot current.
    pub fn create(ctx: &mut Context, size: usize) -> (state: SyncState)
        requires
            size > 0,
        ensures
            state.wf(),
            state.size() == size,
            state.current_frame == 0,
            forall|i: int|
                0 <= i < size ==> #[trigger] state.image_available@[i] == old(ctx).objects().len() + 3 * i,
            forall|i: int|
                0 <= i < size ==> #[trigger] state.render_finished@[i] == old(ctx).objects().len() + 3 * i + 1,
            forall|i: int|
                0 <= i < size ==> #[trigger] state.in_flight@[i] == old(ctx).objects().len() + 3 * i + 2,
            forall|i: int| 0 <= i < size ==> !(#[trigger] state.pending@[i]),
            state.frames_in_flight() == 0,
            final(ctx).grows_by(
                *old(ctx),
                ring_objects(size as nat),
                ring_create_calls(old(ctx).objects().len() as Handle, size as nat),
            ),
            state.live_in(*final(ctx)),
            state.spans(old(ctx).objects().len() as int, final(ctx).objects().len() as int),
    {
        let mut image_available: Vec<Handle> = Vec::new();
        let mut render_finished: Vec<Handle> = Vec::new();
        let mut in_flight: Vec<Handle> = Vec::new();
        let mut pending: Vec<bool> = Vec::new();
        let first = ctx.created();
        proof {
            assert(ctx.objects() =~= old(ctx).objects() + ring_objects(0));
            assert(ctx.log() =~= old(ctx).log() + ring_create_calls(first, 0));
        }
        let mut i: usize = 0;
        while i < size
            invariant
                i <= size,
                first == old(ctx).objects().len(),
                image_available@.len() == i,
                render_finished@.len() == i,
                in_flight@.len() == i,
                pending@.len() == i,
                count_pending(pending@) == 0,
                forall|k: int| 0 <= k < i ==> #[trigger] image_available@[k] == first + 3 * k,
                forall|k: int| 0 <= k < i ==> #[trigger] render_finished@[k] == first + 3 * k + 1,
                forall|k: int| 0 <= k < i ==> #[trigger] in_flight@[k] == first + 3 * k + 2,
                forall|k: int| 0 <= k < i ==> !(#[trigger] pending@[k]),
                ctx.grows_by(*old(ctx), ring_objects(i as nat), ring_create_calls(first, i as nat)),
                ring_objects(i as nat).len() == 3 * i,
            decreases size - i,
        {
            let available = ctx.create(Kind::Semaphore);
            ctx.emit(Op::CreateSemaphore { semaphore: available });
            let finished = ctx.create(Kind::Semaphore);
            ctx.emit(Op::CreateSemaphore { semaphore: finished });
            let fence = ctx.create(Kind::Fence);
            ctx.emit(Op::CreateFence { fence, signaled: true });
            proof {
                assert(ctx.objects() =~= old(ctx).objects() + ring_objects((i + 1) as nat));
                assert(ctx.log() =~= old(ctx).log() + ring_create_calls(first, (i + 1) as nat));
                assert(pending@.push(false).drop_last() =~= pending@);
            }
            image_available.push(available);
            render_finished.push(finished);
            in_flight.push(fence);
            pending.push(false);
            i = i + 1;
        }
        let state = SyncState { image_available, render_finished, in_flight, pending, current_frame: 0 };
        proof {
            assert forall|k: int| 0 <= k < state.size() implies ctx.live(
                #[trigger] state.image_available@[k],
                Kind::Semaphore,
            ) by {
                lemma_ring_objects(size as nat, k);
            }
            assert forall|k: int| 0 <= k < state.size() implies ctx.live(
                #[trigger] state.render_finished@[k],
                Kind::Semaphore,
            ) by {
                lemma_ring_objects(size as nat, k);
            }
            assert forall|k: int| 0 <= k < state.size() implies ctx.live(
                #[trigger] state.in_flight@[k],
                Kind::Fence,
            ) by {
                lemma_ring_objects(size as nat, k);
            }
        }
        state
    }

    /// The semaphore that tells of the image acquired for the current frame.
    pub fn image_available_semaphore(&self) -> (semaphore: Handle)
        requires
            self.wf(),
        ensures
            semaphore == self.image_available@[self.current_frame as int],
    {
        self.image_available[self.current_frame]
    }

    /// The semaphore that tells that the current frame is rendered.
    pub fn render_finished_semaphore(&self) -> (semaphore: Handle)
        requires
            self.wf(),
        ensures
            semaphore == self.render_finished@[self.current_frame as int],
    {
        self.render_finished[self.current_frame]
    }

    /// The fence that tells the host that the frame of the current slot is done.
    pub fn in_flight_fence(&self) -> (fence: Handle)
        requires
            self.wf(),
        ensures
            fence == self.in_flight@[self.current_frame as int],
    {
        self.in_flight[self.current_frame]
    }

    /// Moves on to the next slot of the ring.
    pub fn advance(&mut self)
        requires
            old(self).wf(),
        ensures
            final(self).current_frame == next_slot(old(self).current_frame as int, old(self).size() as int),
            final(self).image_available == old(self).image_available,
            final(self).render_finished == old(self).render_finished,
            final(self).in_flight == old(self).in_flight,
            final(self).pending == old(self).pending,
            final(self).wf(),
    {
        let size = self.in_flight.len();
        self.current_frame = if self.current_frame + 1 == size {
            0
        } else {
            self.current_frame + 1
        };
        proof {
            let c = old(self).current_frame as int;
            if c + 1 == size {
                assert((c + 1) % (size as int) == 0);
            } else {
                assert((c + 1) % (size as int) == c + 1) by {
                    vstd::arithmetic::div_mod::lemma_small_mod((c + 1) as nat, size as nat);
                }
            }
        }
    }

    /// Whether a frame submitted on the current slot has not been waited for.
    pub fn current_pending(&self) -> (pending: bool)
        requires
            self.wf(),
        ensures
            pending == self.pending@[self.current_frame as int],
    {
        self.pending[self.current_frame]
    }

    /// Blocks the host until the frame last submitted on the current
    /// slot is done; after that no frame is in flight on this slot.
    pub fn wait_in_flight(&mut self, ctx: &mut Context)
        requires
            old(self).live_in(*old(ctx)),
        ensures
            final(self).pending@ == old(self).pending@.update(old(self).current_frame as int, false),
            final(self).image_available == old(self).image_available,
            final(self).render_finished == old(self).render_finished,
            final(self).in_flight == old(self).in_flight,
            final(self).current_frame == old(self).current_frame,
            final(self).frames_in_flight() <= old(self).frames_in_flight(),
            final(self).live_in(*final(ctx)),
            final(ctx).requests(
                *old(ctx),
                seq![CallView::Op(Op::WaitForFence { fence: old(self).in_flight@[old(self).current_frame as int] })],
            ),
    {
        ctx.emit(Op::WaitForFence { fence: self.in_flight[self.current_frame] });
        let current = self.current_frame;
        proof {
            lemma_count_update(self.pending@, current as int, false);
        }
        self.pending[current] = false;
    }

    /// Notes that a frame was submitted on the current slot, whose
    /// fence the device signals when the frame is done. The slot must
    /// have been waited for since its last frame.
    pub fn mark_submitted(&mut self)
        requires
            old(self).wf(),
            !old(self).pending@[old(self).current_frame as int],
        ensures
            final(self).pending@ == old(self).pending@.update(old(self).current_frame as int, true),
            final(self).image_available == old(self).image_available,
            final(self).render_finished == old(self).render_finished,
            final(self).in_flight == old(self).in_flight,
            final(self).current_frame == old(self).current_frame,
            final(self).frames_in_flight() == old(self).frames_in_flight() + 1,
            final(self).frames_in_flight() <= final(self).size(),
            final(self).wf(),
    {
        let current = self.current_frame;
        proof {
            lemma_count_update(self.pending@, current as int, true);
            lemma_count_bounded(self.pending@.update(current as int, true));
        }
        self.pending[current] = true;
    }

    /// How many frames are in flight.
    pub fn in_flight_count(&self) -> (n: usize)
        ensures
            n == self.frames_in_flight(),
            n <= self.pending@.len(),
    {
        let mut n: usize = 0;
        let mut i: usize = 0;
        while i < self.pending.len()
            invariant
                i <= self.pending@.len(),
                n == count_pending(self.pending@.take(i as int)),
                n <= i,
            decreases self.pending@.len() - i,
        {
            assert(self.pending@.take(i + 1).drop_last() =~= self.pending@.take(i as int));
            if self.pending[i] {
                n = n + 1;
            }
            i = i + 1;
        }
        assert(self.pending@.take(i as int) =~= self.pending@);
        n
    }

    /// The requests that destroy the ring, slot by slot.
    pub open spec fn destroy_calls(&self) -> Seq<CallView> {
        ring_destroy_calls(self.image_available@, self.render_finished@, self.in_flight@, self.size())
    }

    /// What the ring owns are entries of the ledger of `ctx`.
    pub open spec fn within(&self, ctx: Context) -> bool {
        &&& self.image_available@.len() == self.size()
        &&& self.render_finished@.len() == self.size()
        &&& forall|i: int| 0 <= i < self.size() ==> (#[trigger] self.image_available@[i]) < ctx.objects().len()
        &&& forall|i: int| 0 <= i < self.size() ==> (#[trigger] self.render_finished@[i]) < ctx.objects().len()
        &&& forall|i: int| 0 <= i < self.size() ==> (#[trigger] self.in_flight@[i]) < ctx.objects().len()
    }

    /// Blocks the host until no frame is in flight on any slot.
    pub fn wait_all(&mut self, ctx: &mut Context)
        requires
            old(self).live_in(*old(ctx)),
        ensures
            final(self).pending@ == Seq::new(old(self).size(), |i: int| false),
            final(self).image_available == old(self).image_available,
            final(self).render_finished == old(self).render_finished,
            final(self).in_flight == old(self).in_flight,
            final(self).current_frame == old(self).current_frame,
            final(self).live_in(*final(ctx)),
            final(ctx).requests(*old(ctx), wait_all_calls(old(self).in_flight@)),
    {
        let ghost fences = self.in_flight@;
        let size = self.in_flight.len();
        proof {
            assert(ctx.log() =~= old(ctx).log() + wait_all_calls(fences).take(0));
        }
        let mut i: usize = 0;
        while i < size
            invariant
                i <= size,
                size == old(self).size(),
                fences == old(self).in_flight@,
                self.image_available == old(self).image_available,
                self.render_finished == old(self).render_finished,
                self.in_flight == old(self).in_flight,
                self.current_frame == old(self).current_frame,
                self.pending@.len() == size,
                forall|k: int| 0 <= k < i ==> !(#[trigger] self.pending@[k]),
                ctx.same_device(*old(ctx)),
                ctx.objects() == old(ctx).objects(),
                ctx.log() == old(ctx).log() + wait_all_calls(fences).take(i as int),
            decreases size - i,
        {
            ctx.emit(Op::WaitForFence { fence: self.in_flight[i] });
            self.pending[i] = false;
            proof {
                assert(ctx.log() =~= old(ctx).log() + wait_all_calls(fences).take(i + 1));
            }
            i = i + 1;
        }
        proof {
            assert(wait_all_calls(fences).take(size as int) =~= wait_all_calls(fences));
            assert(self.pending@ =~= Seq::new(old(self).size(), |i: int| false));
        }
    }

    /// Requests the destruction of what `self` owns, in order, and
    /// marks the entries as destroyed.
    pub(crate) fn release(&self, ctx: &mut Context)
        requires
            self.within(*old(ctx)),
        ensures
            final(ctx).retires(*old(ctx), self.handles(), self.destroy_calls()),
            final(ctx).objects().len() == old(ctx).objects().len(),
    {
        let size = self.in_flight.len();
        let ghost ia = self.image_available@;
        let ghost rf = self.render_finished@;
        let ghost fl = self.in_flight@;
        proof {
            assert(ctx.log() =~= old(ctx).log() + ring_destroy_calls(ia, rf, fl, 0));
        }
        let mut i: usize = 0;
        while i < size
            invariant
                i <= size,
                size == self.size(),
                self.within(*old(ctx)),
                ia == self.image_available@,
                rf == self.render_finished@,
                fl == self.in_flight@,
                ctx.objects().len() == old(ctx).objects().len(),
                ctx.retires(*old(ctx), ring_handles(ia, rf, fl, i as nat), ring_destroy_calls(ia, rf, fl, i as nat)),
            decreases size - i,
        {
            let ghost gone = ring_handles(ia, rf, fl, i as nat);
            let available = self.image_available[i];
            let finished = self.render_finished[i];
            let fence = self.in_flight[i];
            proof {
                assert(self.image_available@[i as int] < old(ctx).objects().len());
                assert(self.render_finished@[i as int] < old(ctx).objects().len());
                assert(self.in_flight@[i as int] < old(ctx).objects().len());
            }
            ctx.emit(Op::DestroySemaphore { semaphore: available });
            ctx.destroy(available);
            ctx.emit(Op::DestroySemaphore { semaphore: finished });
            ctx.destroy(finished);
            ctx.emit(Op::DestroyFence { fence });
            ctx.destroy(fence);
            proof {
                lemma_retire_all_concat(old(ctx).objects(), gone, seq![available]);
                lemma_retire_all_concat(old(ctx).objects(), gone + seq![available], seq![finished]);
                lemma_retire_all_concat(old(ctx).objects(), gone + seq![available] + seq![finished], seq![fence]);
                assert(gone + seq![available] + seq![finished] + seq![fence] =~= ring_handles(
                    ia,
                    rf,
                    fl,
                    (i + 1) as nat,
                ));
                assert(ctx.log() =~= old(ctx).log() + ring_destroy_calls(ia, rf, fl, (i + 1) as nat));
            }
            i = i + 1;
        }
    }

    /// Destroys the semaphores and the fence of every slot. The ring is
    /// given up with the call.
    pub fn destroy_with(self, ctx: &mut Context)
        requires
            self.live_in(*old(ctx)),
        ensures
            final(ctx).retires(*old(ctx), self.handles(), self.destroy_calls()),
    {
        self.release(ctx);
    }
}

/// The handles of slots whose objects lie within a range lie within it.
pub proof fn lemma_ring_within(
    image_available: Seq<Handle>,
    render_finished: Seq<Handle>,
    in_flight: Seq<Handle>,
    size: nat,
    lo: int,
    hi: int,
)
    requires
        size <= image_available.len(),
        size <= render_finished.len(),
        size <= in_flight.len(),
        forall|i: int| 0 <= i < image_available.len() ==> lo <= #[trigger] image_available[i] < hi,
        forall|i: int| 0 <= i < render_finished.len() ==> lo <= #[trigger] render_finished[i] < hi,
        forall|i: int| 0 <= i < in_flight.len() ==> lo <= #[trigger] in_flight[i] < hi,
    ensures
        all_within(ring_handles(image_available, render_finished, in_flight, size), lo, hi),
    decreases size,
{
    if size > 0 {
        let i = (size - 1) as int;
        lemma_ring_within(image_available, render_finished, in_flight, i as nat, lo, hi);
        lemma_all_within_concat(
            ring_handles(image_available, render_finished, in_flight, i as nat),
            seq![image_available[i], render_finished[i], in_flight[i]],
            lo,
            hi,
        );
    }
}

/// Entry `3 k`, `3 k + 1` and `3 k + 2` of a ring's objects are the two
/// semaphores and the fence of slot `k`.
pub proof fn lemma_ring_objects(size: nat, k: int)
    requires
        0 <= k < size,
    ensures
        ring_objects(size).len() == 3 * size,
        ring_objects(size)[3 * k] == fresh(Kind::Semaphore),
        ring_objects(size)[3 * k + 1] == fresh(Kind::Semaphore),
        ring_objects(size)[3 * k + 2] == fresh(Kind::Fence),
    decreases size,
{
    lemma_ring_len((size - 1) as nat);
    if k < size - 1 {
        lemma_ring_objects((size - 1) as nat, k);
    }
}

/// A ring of `size` slots has three objects for each.
pub proof fn lemma_ring_len(size: nat)
    ensures
        ring_objects(size).len() == 3 * size,
    decreases size,
{
    if size > 0 {
        lemma_ring_len((size - 1) as nat);
    }
}

/// Setting one flag changes the count by at most one, in the flag's direction.
pub proof fn lemma_count_update(pending: Seq<bool>, i: int, value: bool)
    requires
        0 <= i < pending.len(),
    ensures
        count_pending(pending.update(i, value)) == count_pending(pending) - (if pending[i] {
            1int
        } else {
            0int
        }) + (if value {
            1int
        } else {
            0int
        }),
    decreases pending.len(),
{
    let updated = pending.update(i, value);
    if i == pending.len() - 1 {
        assert(updated.drop_last() =~= pending.drop_last());
    } else {
        lemma_count_update(pending.drop_last(), i, value);
        assert(updated.drop_last() =~= pending.drop_last().update(i, value));
    }
}

/// No more flags are set than there are.
pub proof fn lemma_count_bounded(pending: Seq<bool>)
    ensures
        count_pending(pending) <= pending.len(),
    decreases pending.len(),
{
    if pending.len() > 0 {
        lemma_count_bounded(pending.drop_last());
    }
}

/// Starting from slot 0 of a ring of `size` slots, `k` advances lead to
/// slot `k mod size`.
pub proof fn lemma_slot_after_advances(size: nat, k: nat)
    requires
        size > 0,
    ensures
        slot_after(0, size as int, k) == k % size,
    decreases k,
{
    if k == 0 {
        assert(0nat % size == 0);
    } else {
        lemma_slot_after_advances(size, (k - 1) as nat);
        let before = ((k - 1) as nat % size) as int;
        assert((before + 1) % (size as int) == (k as int) % (size as int)) by {
            vstd::arithmetic::div_mod::lemma_add_mod_noop((k - 1) as int, 1, size as int);
            vstd::arithmetic::div_mod::lemma_mod_twice((k - 1) as int, size as int);
            if size == 1 {
            } else {
                vstd::arithmetic::div_mod::lemma_small_mod(1, size);
            }
        }
    }
}

/// In a well-formed ring no more frames are in flight than it has slots.
pub proof fn lemma_in_flight_bounded(state: SyncState)
    requires
        state.wf(),
    ensures
        state.frames_in_flight() <= state.size(),
{
    lemma_count_bounded(state.pending@);
}

} // verus!
