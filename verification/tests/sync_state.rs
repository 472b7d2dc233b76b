use render_core::call::{Call, Extent2D, Op};
use render_core::context::{Context, Queue, Queues, SurfaceConfig, SurfaceFormat};
use render_core::features::Features;
use render_core::ledger::Kind;
use render_core::sync_state::SyncState;

fn context() -> Context {
    let queues = Queues { graphics: Queue { family_index: 0 }, transfer: None };
    let config = SurfaceConfig {
        surface_format: SurfaceFormat { format: 50, color_space: 0 },
        extent: Extent2D { width: 800, height: 600 },
        image_count: 3,
    };
    Context::init(Features::required(), queues, config).ok().unwrap()
}

#[test]
fn create_makes_two_semaphores_and_a_signaled_fence_for_each_slot() {
    let mut ctx = context();
    let state = SyncState::create(&mut ctx, 2);
    assert_eq!(state.image_available, vec![0, 3]);
    assert_eq!(state.render_finished, vec![1, 4]);
    assert_eq!(state.in_flight, vec![2, 5]);
    assert_eq!(state.pending, vec![false, false]);
    assert_eq!(state.current_frame, 0);
    assert_eq!(
        ctx.take_calls(),
        vec![
            Call::Op(Op::CreateSemaphore { semaphore: 0 }),
            Call::Op(Op::CreateSemaphore { semaphore: 1 }),
            Call::Op(Op::CreateFence { fence: 2, signaled: true }),
            Call::Op(Op::CreateSemaphore { semaphore: 3 }),
            Call::Op(Op::CreateSemaphore { semaphore: 4 }),
            Call::Op(Op::CreateFence { fence: 5, signaled: true }),
        ]
    );
    assert!(ctx.is_live(4, Kind::Semaphore));
    assert!(ctx.is_live(5, Kind::Fence));
}

#[test]
fn the_slot_after_k_advances_is_k_modulo_the_size() {
    for size in 1..=4usize {
        let mut ctx = context();
        let mut state = SyncState::create(&mut ctx, size);
        for k in 0..=25usize {
            assert_eq!(state.current_frame, k % size);
            assert_eq!(state.in_flight_fence(), state.in_flight[k % size]);
            assert_eq!(state.image_available_semaphore(), state.image_available[k % size]);
            assert_eq!(state.render_finished_semaphore(), state.render_finished[k % size]);
            state.advance();
        }
    }
}

#[test]
fn three_slots_rotate_zero_one_two_zero() {
    let mut ctx = context();
    let mut state = SyncState::create(&mut ctx, 3);
    let mut seen = Vec::new();
    for _ in 0..7 {
        seen.push(state.current_frame);
        state.advance();
    }
    assert_eq!(seen, vec![0, 1, 2, 0, 1, 2, 0]);
}

#[test]
fn no_more_frames_are_in_flight_than_there_are_slots() {
    let mut ctx = context();
    let mut state = SyncState::create(&mut ctx, 2);
    ctx.take_calls();
    assert_eq!(state.in_flight_count(), 0);
    for frame in 0..10usize {
        if state.current_pending() {
            assert_eq!(state.in_flight_count(), 2);
        }
        state.wait_in_flight(&mut ctx);
        assert!(!state.current_pending());
        assert!(state.in_flight_count() < 2);
        state.mark_submitted();
        assert!(state.current_pending());
        assert!(state.in_flight_count() <= 2);
        assert_eq!(state.in_flight_count(), (frame + 1).min(2));
        state.advance();
    }
    let waits: Vec<Call> = ctx.take_calls();
    assert_eq!(waits.len(), 10);
    assert_eq!(waits[0], Call::Op(Op::WaitForFence { fence: state.in_flight[0] }));
    assert_eq!(waits[1], Call::Op(Op::WaitForFence { fence: state.in_flight[1] }));
    assert_eq!(waits[2], Call::Op(Op::WaitForFence { fence: state.in_flight[0] }));
}

#[test]
fn waiting_for_all_leaves_nothing_in_flight() {
    let mut ctx = context();
    let mut state = SyncState::create(&mut ctx, 3);
    state.mark_submitted();
    state.advance();
    state.mark_submitted();
    assert_eq!(state.in_flight_count(), 2);
    ctx.take_calls();
    state.wait_all(&mut ctx);
    assert_eq!(state.in_flight_count(), 0);
    assert_eq!(state.current_frame, 1);
    assert_eq!(
        ctx.take_calls(),
        vec![
            Call::Op(Op::WaitForFence { fence: 2 }),
            Call::Op(Op::WaitForFence { fence: 5 }),
            Call::Op(Op::WaitForFence { fence: 8 }),
        ]
    );
}

#[test]
fn destroy_gives_up_every_slot() {
    let mut ctx = context();
    let state = SyncState::create(&mut ctx, 2);
    ctx.take_calls();
    state.destroy_with(&mut ctx);
    assert_eq!(
        ctx.take_calls(),
        vec![
            Call::Op(Op::DestroySemaphore { semaphore: 0 }),
            Call::Op(Op::DestroySemaphore { semaphore: 1 }),
            Call::Op(Op::DestroyFence { fence: 2 }),
            Call::Op(Op::DestroySemaphore { semaphore: 3 }),
            Call::Op(Op::DestroySemaphore { semaphore: 4 }),
            Call::Op(Op::DestroyFence { fence: 5 }),
        ]
    );
    assert_eq!(ctx.live_objects(), 0);
}
