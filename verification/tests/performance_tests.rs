use jit_music::performance::{
    is_new_preview, FrameActions, GestureEvent, GestureState, HandInput, Motion,
};

const MS: u64 = 1_000_000;

fn still() -> Motion {
    Motion { swipe: false, swipe_right: false, tap: false, steady: true, open_hand: false, drop: false }
}

fn moving() -> Motion {
    Motion { steady: false, ..still() }
}

/// A state that saw a hand in the frame before, at time 0.
fn with_hand() -> GestureState {
    let mut s = GestureState::new();
    s.advance(0, HandInput::FirstPose);
    s
}

#[test]
fn starts_ready_on_first_loop() {
    let s = GestureState::new();
    assert_eq!(s.loop_index, 0);
    assert_eq!(s.latest_event, GestureEvent::Ready);
    assert_eq!(s.latest_event.label(), "ready");
}

#[test]
fn swipes_change_loop_with_cooldown() {
    let mut s = with_hand();
    let right = Motion { swipe: true, swipe_right: true, ..moving() };
    s.advance(1000 * MS, HandInput::Moved(right));
    assert_eq!(s.loop_index, 1);
    assert_eq!(s.latest_event.label(), "loop: Trance Drive");
    s.advance(1200 * MS, HandInput::Moved(right));
    assert_eq!(s.loop_index, 1);
    let left = Motion { swipe: true, swipe_right: false, ..moving() };
    s.advance(1350 * MS, HandInput::Moved(left));
    assert_eq!(s.loop_index, 0);
    s.advance(1700 * MS, HandInput::Moved(left));
    assert_eq!(s.loop_index, 3);
    assert_eq!(s.latest_event.label(), "loop: Drop");
}

#[test]
fn taps_trigger_samples_with_cooldown() {
    let mut s = with_hand();
    let tap = Motion { tap: true, ..moving() };
    let a = s.advance(100 * MS, HandInput::Moved(tap));
    assert_eq!(a, FrameActions { trigger_sample: true, trigger_drop: false });
    assert_eq!(s.latest_event.label(), "tap: sample");
    let b = s.advance(319 * MS, HandInput::Moved(tap));
    assert!(!b.trigger_sample);
    let c = s.advance(320 * MS, HandInput::Moved(tap));
    assert!(c.trigger_sample);
}

#[test]
fn still_open_hand_holds_after_a_while() {
    let mut s = GestureState::new();
    let open = Motion { open_hand: true, ..still() };
    s.advance(0, HandInput::FirstPose);
    s.advance(10 * MS, HandInput::Moved(open));
    assert!(!s.hold_active);
    s.advance(459 * MS, HandInput::Moved(open));
    assert!(!s.hold_active);
    s.advance(460 * MS, HandInput::Moved(open));
    assert!(s.hold_active);
    s.advance(470 * MS, HandInput::Moved(Motion { open_hand: true, ..moving() }));
    assert!(!s.hold_active);
}

#[test]
fn drop_triggers_and_ends_hold() {
    let mut s = with_hand();
    let open = Motion { open_hand: true, ..still() };
    s.advance(0, HandInput::Moved(open));
    s.advance(500 * MS, HandInput::Moved(open));
    assert!(s.hold_active);
    let a = s.advance(600 * MS, HandInput::Moved(Motion { drop: true, ..open }));
    assert!(a.trigger_drop);
    assert!(!s.hold_active);
    assert_eq!(s.latest_event.label(), "drop: impact");
    let b = s.advance(1000 * MS, HandInput::Moved(Motion { drop: true, ..open }));
    assert!(!b.trigger_drop);
}

#[test]
fn losing_the_hand_stops_everything() {
    let mut s = with_hand();
    let open = Motion { open_hand: true, ..still() };
    s.advance(0, HandInput::Moved(open));
    s.advance(500 * MS, HandInput::Moved(open));
    let a = s.advance(510 * MS, HandInput::NoHands);
    assert_eq!(a, FrameActions { trigger_sample: false, trigger_drop: false });
    assert!(!s.hold_active);
    assert_eq!(s.steady_since, None);
    assert_eq!(s.latest_event.label(), "waiting for hands");
}

#[test]
fn first_pose_restarts_stillness() {
    let mut s = with_hand();
    s.advance(0, HandInput::Moved(still()));
    assert_eq!(s.steady_since, Some(0));
    s.advance(5 * MS, HandInput::FirstPose);
    assert_eq!(s.steady_since, None);
}

#[test]
fn preview_frames_are_new_once() {
    assert!(is_new_preview(None, 3));
    assert!(is_new_preview(Some(2), 3));
    assert!(!is_new_preview(Some(3), 3));
}

#[test]
fn four_swipes_go_round_the_loops() {
    let mut s = with_hand();
    let right = Motion { swipe: true, swipe_right: true, ..moving() };
    let mut seen = Vec::new();
    for i in 1..=4u64 {
        s.advance(i * 400 * MS, HandInput::Moved(right));
        seen.push(s.loop_index);
    }
    assert_eq!(seen, vec![1, 2, 3, 0]);
}

#[test]
fn motion_without_a_hand_before_is_a_first_pose() {
    let mut s = GestureState::new();
    let swipe_tap = Motion { swipe: true, swipe_right: true, tap: true, open_hand: true, ..still() };
    let a = s.advance(1000 * MS, HandInput::Moved(swipe_tap));
    assert_eq!(a, FrameActions { trigger_sample: false, trigger_drop: false });
    assert_eq!(s.loop_index, 0);
    assert!(s.had_hand);
    assert_eq!(s.steady_since, None);
    let b = s.advance(1010 * MS, HandInput::Moved(swipe_tap));
    assert!(b.trigger_sample);
    assert_eq!(s.loop_index, 1);
}

#[test]
fn first_pose_after_a_hold_holds_nothing() {
    let mut s = with_hand();
    let open = Motion { open_hand: true, ..still() };
    s.advance(0, HandInput::Moved(open));
    s.advance(500 * MS, HandInput::Moved(open));
    assert!(s.hold_active);
    s.advance(510 * MS, HandInput::FirstPose);
    assert!(!s.hold_active);
    assert_eq!(s.steady_since, None);
}

#[test]
fn taps_over_a_run_stay_apart() {
    let mut s = with_hand();
    let tap = Motion { tap: true, ..moving() };
    let mut fired = Vec::new();
    for t in (0..2000u64).step_by(50) {
        if s.advance(t * MS, HandInput::Moved(tap)).trigger_sample {
            fired.push(t);
        }
    }
    assert_eq!(fired[0], 0);
    for pair in fired.windows(2) {
        assert!(pair[1] - pair[0] >= 220);
    }
    assert_eq!(fired, vec![0, 250, 500, 750, 1000, 1250, 1500, 1750]);
}
