use vstd::prelude::*;
use vstd::arithmetic::div_mod::{lemma_add_mod_noop, lemma_mod_twice, lemma_small_mod};
use crate::sync_state::{count_pending, lemma_count_bounded, lemma_count_update, next_slot};

verus! {

/// Where the loop stands within a frame.
#[derive(Clone, Copy, Debug, PartialEq, Eq, Structural)]
pub enum Phase {
    /// Between frames.
    Idle,
    /// The next presentable image was asked for; the answer is awaited.
    Acquiring,
    /// The frame was submitted and its presentation asked for; the answer is awaited.
    Presenting,
}

/// What happens to the frame loop.
pub enum Event {
    /// A frame is begun.
    Render,
    /// The device has answered the request for an image.
    Acquired { needs_recreating: bool },
    /// The device has answered the request for presentation.
    Presented { needs_recreating: bool },
    /// The surface configuration is recreated.
    Recreate,
}

/// The frame loop as a mathematical value: the phase, whether the
/// surface is known to be stale, the current slot of the ring, and for
/// each slot whether a frame is in flight on it.
pub struct FrameState {
    pub phase: Phase,
    pub stale: bool,
    pub slot: int,
    pub pending: Seq<bool>,
}

impl FrameState {
    /// The ring has a slot, the current slot is one of its slots, and
    /// while an image is awaited no frame is in flight on the current slot.
    pub open spec fn wf(self) -> bool {
        &&& self.pending.len() > 0
        &&& 0 <= self.slot < self.pending.len()
        &&& self.phase == Phase::Acquiring ==> !self.pending[self.slot]
    }

    /// The frames that are in flight.
    pub open spec fn in_flight(self) -> nat {
        count_pending(self.pending)
    }

    /// Whether `event` can happen in this state.
    pub open spec fn enabled(self, event: Event) -> bool {
        match event {
            Event::Render => self.phase == Phase::Idle,
            Event::Acquired { .. } => self.phase == Phase::Acquiring,
            Event::Presented { .. } => self.phase == Phase::Presenting,
            Event::Recreate => self.phase == Phase::Idle,
        }
    }

    /// Whether `event` makes the loop ask the device for the next image.
    pub open spec fn acquires(self, event: Event) -> bool {
        event is Render && !self.stale
    }

    /// Whether `event` makes the loop submit a frame.
    pub open spec fn submits(self, event: Event) -> bool {
        event == (Event::Acquired { needs_recreating: false })
    }

    /// Whether `event` ends a frame, so that the ring moves on.
    pub open spec fn advances(self, event: Event) -> bool {
        match event {
            Event::Acquired { needs_recreating } => needs_recreating,
            Event::Presented { .. } => true,
            _ => false,
        }
    }

    /// The state after `event`.
    ///
    /// A frame is begun only while the surface is not known to be stale:
    /// the host then waits for the frame in flight on the current slot
    /// and asks for an image. An image that comes with a staleness
    /// signal drops the frame; without one the frame is submitted on the
    /// current slot and its presentation asked for. Either way the ring
    /// moves on by one slot when the frame ends, and a staleness signal
    /// is remembered until the surface configuration is recreated, which
    /// happens with no frame in flight.
    pub open spec fn step(self, event: Event) -> FrameState {
        match event {
            Event::Render => if self.stale {
                self
            } else {
                FrameState { phase: Phase::Acquiring, pending: self.pending.update(self.slot, false), ..self }
            },
            Event::Acquired { needs_recreating } => if needs_recreating {
                FrameState {
                    phase: Phase::Idle,
                    stale: true,
                    slot: next_slot(self.slot, self.pending.len() as int),
                    ..self
                }
            } else {
                FrameState { phase: Phase::Presenting, pending: self.pending.update(self.slot, true), ..self }
            },
            Event::Presented { needs_recreating } => FrameState {
                phase: Phase::Idle,
                stale: self.stale || needs_recreating,
                slot: next_slot(self.slot, self.pending.len() as int),
                ..self
            },
            Event::Recreate => FrameState {
                phase: Phase::Idle,
                stale: false,
                pending: Seq::new(self.pending.len(), |i: int| false),
                ..self
            },
        }
    }

    /// Every event of `events` can happen at its turn, starting from this state.
    pub open spec fn admits(self, events: Seq<Event>) -> bool
        decreases events.len(),
    {
        if events.len() == 0 {
            true
        } else {
            self.admits(events.drop_last()) && self.run(events.drop_last()).enabled(events.last())
        }
    }

    /// The state after all of `events`, in order.
    pub open spec fn run(self, events: Seq<Event>) -> FrameState
        decreases events.len(),
    {
        if events.len() == 0 {
            self
        } else {
            self.run(events.drop_last()).step(events.last())
        }
    }

    /// How many of `events` end a frame.
    pub open spec fn frames_ended(self, events: Seq<Event>) -> nat
        decreases events.len(),
    {
        if events.len() == 0 {
            0
        } else {
            self.frames_ended(events.drop_last()) + if self.run(events.drop_last()).advances(events.last()) {
                1nat
            } else {
                0nat
            }
        }
    }
}

/// No set flag is left among flags that are all cleared.
pub proof fn lemma_count_cleared(n: nat)
    ensures
        count_pending(Seq::new(n, |i: int| false)) == 0,
    decreases n,
{
    if n > 0 {
        lemma_count_cleared((n - 1) as nat);
        assert(Seq::new(n, |i: int| false).drop_last() =~= Seq::new((n - 1) as nat, |i: int| false));
    }
}

/// An event that can happen leads from a well-formed state to a
/// well-formed state with as many slots.
pub proof fn lemma_step_keeps_wf(state: FrameState, event: Event)
    requires
        state.wf(),
        state.enabled(event),
    ensures
        state.step(event).wf(),
        state.step(event).pending.len() == state.pending.len(),
{
    let size = state.pending.len() as int;
    assert(0 <= (state.slot + 1) % size < size);
}

/// A frame is submitted only on a slot on which none is in flight, and
/// with it no more frames are in flight than the ring has slots.
pub proof fn lemma_submit_bounded(state: FrameState, event: Event)
    requires
        state.wf(),
        state.enabled(event),
        state.submits(event),
    ensures
        !state.pending[state.slot],
        state.step(event).in_flight() == state.in_flight() + 1,
        state.step(event).in_flight() <= state.pending.len(),
{
    lemma_count_update(state.pending, state.slot, true);
    lemma_count_bounded(state.step(event).pending);
}

/// Throughout a run from a well-formed state, the state stays
/// well-formed and no more frames are in flight than the ring has slots.
pub proof fn lemma_in_flight_bounded(state: FrameState, events: Seq<Event>)
    requires
        state.wf(),
        state.admits(events),
    ensures
        state.run(events).wf(),
        state.run(events).pending.len() == state.pending.len(),
        state.run(events).in_flight() <= state.pending.len(),
    decreases events.len(),
{
    if events.len() > 0 {
        lemma_in_flight_bounded(state, events.drop_last());
        lemma_step_keeps_wf(state.run(events.drop_last()), events.last());
    }
    lemma_count_bounded(state.run(events).pending);
}

/// After a run from the first slot, the current slot is the number of
/// frames that have ended, modulo the size of the ring: the ring moves
/// on once for each frame, whether or not the surface was stale.
pub proof fn lemma_slot_counts_frames(state: FrameState, events: Seq<Event>)
    requires
        state.wf(),
        state.slot == 0,
        state.admits(events),
    ensures
        state.run(events).slot == state.frames_ended(events) % state.pending.len(),
    decreases events.len(),
{
    let size = state.pending.len() as int;
    if events.len() == 0 {
        lemma_small_mod(0, size as nat);
    } else {
        let init = events.drop_last();
        let last = events.last();
        lemma_slot_counts_frames(state, init);
        lemma_in_flight_bounded(state, init);
        let before = state.run(init);
        if before.advances(last) {
            let k = state.frames_ended(init) as int;
            assert(state.run(events).slot == (before.slot + 1) % size);
            lemma_add_mod_noop(k, 1, size);
            lemma_mod_twice(k, size);
            if size > 1 {
                lemma_small_mod(1, size as nat);
            }
        }
    }
}

/// Once a staleness signal has come, no run without a recreation asks
/// the device for another image, and the signal is not forgotten.
pub proof fn lemma_stale_blocks_acquire(state: FrameState, events: Seq<Event>)
    requires
        state.stale,
        forall|i: int| 0 <= i < events.len() ==> !(#[trigger] events[i] is Recreate),
    ensures
        state.run(events).stale,
        forall|i: int| 0 <= i < events.len() ==> !state.run(events.take(i)).acquires(#[trigger] events[i]),
    decreases events.len(),
{
    if events.len() > 0 {
        let init = events.drop_last();
        assert forall|i: int| 0 <= i < init.len() implies !(#[trigger] init[i] is Recreate) by {
            assert(init[i] == events[i]);
        }
        lemma_stale_blocks_acquire(state, init);
        assert forall|i: int| 0 <= i < events.len() implies !state.run(events.take(i)).acquires(
            #[trigger] events[i],
        ) by {
            if i < init.len() {
                assert(events.take(i) =~= init.take(i));
                assert(init[i] == events[i]);
            } else {
                assert(events.take(i) =~= init);
            }
        }
    }
}

/// A staleness signal at acquisition or at presentation is taken
/// note of at once.
pub proof fn lemma_signal_is_remembered(state: FrameState, event: Event)
    requires
        event == (Event::Acquired { needs_recreating: true }) || event == (Event::Presented {
            needs_recreating: true,
        }),
    ensures
        state.step(event).stale,
        state.step(event).phase == Phase::Idle,
{
}

/// A recreation leaves no frame in flight and clears the staleness.
pub proof fn lemma_recreate_is_quiet(state: FrameState)
    ensures
        state.step(Event::Recreate).in_flight() == 0,
        !state.step(Event::Recreate).stale,
{
    lemma_count_cleared(state.pending.len());
}

} // verus!
