//! The performer's gestures and what they do to the music.
//!
//! Each displayed frame, the hand seen on camera is compared with the one of
//! the frame before; the comparison (is the hand sweeping sideways, tapping
//! up or down, keeping still, open, falling low) is made on floating-point
//! coordinates and arrives here as `Motion`. From it and the time, the state
//! below decides the selected loop, whether the build is held, and when a
//! sample or a drop is triggered. Times are nanoseconds on a monotonic clock.
use vstd::prelude::*;
use crate::sequencer::{loop_name, spec_loop_name, LOOP_COUNT};

verus! {

/// Least time between two loop changes.
pub const SWIPE_COOLDOWN_NS: u64 = 350_000_000;

/// Least time between two triggered samples.
pub const TAP_COOLDOWN_NS: u64 = 220_000_000;

/// Least time between two drops.
pub const DROP_COOLDOWN_NS: u64 = 700_000_000;

/// How long an open hand must keep still before the build is held.
pub const HOLD_AFTER_NS: u64 = 450_000_000;

/// The last thing that happened, as shown to the performer.
#[derive(Clone, Copy, PartialEq, Eq, Debug)]
pub enum GestureEvent {
    Ready,
    LoopChanged(usize),
    TapSample,
    DropImpact,
    WaitingForHands,
}

/// How the primary hand moved since the frame before.
#[derive(Clone, Copy, PartialEq, Eq, Debug)]
pub struct Motion {
    /// A fast sideways sweep.
    pub swipe: bool,
    /// The sweep goes to the right.
    pub swipe_right: bool,
    /// A fast move up or down.
    pub tap: bool,
    /// The hand hardly moves.
    pub steady: bool,
    /// Most fingers are up.
    pub open_hand: bool,
    /// The hands fell, and now hang low in the image.
    pub drop: bool,
}

/// What the camera shows this frame.
#[derive(Clone, Copy, PartialEq, Eq, Debug)]
pub enum HandInput {
    /// No hand.
    NoHands,
    /// A hand, with none in the frame before to compare it with.
    FirstPose,
    /// A hand that was there in the frame before too.
    Moved(Motion),
}

/// What the music must do this frame.
#[derive(Clone, Copy, PartialEq, Eq, Debug)]
pub struct FrameActions {
    pub trigger_sample: bool,
    /// Also ends the build: its level falls back to zero.
    pub trigger_drop: bool,
}

/// The performance's state between two frames.
#[derive(Clone, Copy, PartialEq, Eq, Debug)]
pub struct GestureState {
    pub loop_index: usize,
    pub hold_active: bool,
    /// A hand was on camera in the frame before.
    pub had_hand: bool,
    /// Since when the hand keeps still.
    pub steady_since: Option<u64>,
    pub last_swipe_at: Option<u64>,
    pub last_tap_at: Option<u64>,
    pub last_drop_at: Option<u64>,
    pub latest_event: GestureEvent,
}

/// Time from `since` to `now`, zero when `now` is earlier.
pub open spec fn elapsed(now: u64, since: u64) -> int {
    if now >= since { now - since } else { 0 }
}

/// Whether at least `cooldown` has passed since `last`, or nothing happened yet.
pub open spec fn cooldown_passed(last: Option<u64>, now: u64, cooldown: u64) -> bool {
    match last {
        Some(t) => elapsed(now, t) >= cooldown,
        None => true,
    }
}

/// The loop after a swipe to the right or to the left: the next or the
/// previous one, round the list.
pub open spec fn spec_next_loop(loop_index: usize, right: bool) -> usize {
    if right {
        ((loop_index + 1) % (LOOP_COUNT as int)) as usize
    } else {
        ((loop_index + LOOP_COUNT - 1) % (LOOP_COUNT as int)) as usize
    }
}

/// One frame of the performance: the state after it and what the music must do.
pub open spec fn spec_advance(s: GestureState, now: u64, input: HandInput) -> (GestureState, FrameActions) {
    match input {
        HandInput::NoHands => (
            GestureState {
                hold_active: false,
                had_hand: false,
                steady_since: None,
                latest_event: GestureEvent::WaitingForHands,
                ..s
            },
            FrameActions { trigger_sample: false, trigger_drop: false },
        ),
        HandInput::FirstPose => spec_first_pose(s),
        HandInput::Moved(m) => if !s.had_hand {
            spec_first_pose(s)
        } else {
            let steady_since = if m.steady {
                if s.steady_since is None { Some(now) } else { s.steady_since }
            } else {
                None
            };
            let held = m.open_hand && match steady_since {
                Some(t) => elapsed(now, t) >= HOLD_AFTER_NS,
                None => false,
            };
            let swiped = m.swipe && cooldown_passed(s.last_swipe_at, now, SWIPE_COOLDOWN_NS);
            let tapped = m.tap && cooldown_passed(s.last_tap_at, now, TAP_COOLDOWN_NS);
            let dropped = m.drop && cooldown_passed(s.last_drop_at, now, DROP_COOLDOWN_NS);
            let loop_index = if swiped { spec_next_loop(s.loop_index, m.swipe_right) } else { s.loop_index };
            (
                GestureState {
                    loop_index,
                    hold_active: held && !dropped,
                    had_hand: true,
                    steady_since,
                    last_swipe_at: if swiped { Some(now) } else { s.last_swipe_at },
                    last_tap_at: if tapped { Some(now) } else { s.last_tap_at },
                    last_drop_at: if dropped { Some(now) } else { s.last_drop_at },
                    latest_event: if dropped {
                        GestureEvent::DropImpact
                    } else if tapped {
                        GestureEvent::TapSample
                    } else if swiped {
                        GestureEvent::LoopChanged(loop_index)
                    } else {
                        s.latest_event
                    },
                },
                FrameActions { trigger_sample: tapped, trigger_drop: dropped },
            )
        },
    }
}

/// A hand with none in the frame before to compare it with: the stillness
/// clock restarts, nothing is held and nothing is triggered. (A first hand
/// only follows the start or a frame without hands, both of which leave
/// nothing held.)
pub open spec fn spec_first_pose(s: GestureState) -> (GestureState, FrameActions) {
    (
        GestureState { steady_since: None, hold_active: false, had_hand: true, ..s },
        FrameActions { trigger_sample: false, trigger_drop: false },
    )
}

/// Time from `since` to `now`, zero when `now` is earlier.
fn elapsed_ns(now: u64, since: u64) -> (res: u64)
    ensures
        res == elapsed(now, since),
{
    if now >= since {
        now - since
    } else {
        0
    }
}

fn cooldown_over(last: Option<u64>, now: u64, cooldown: u64) -> (res: bool)
    ensures
        res == cooldown_passed(last, now, cooldown),
{
    match last {
        Some(t) => elapsed_ns(now, t) >= cooldown,
        None => true,
    }
}

impl GestureEvent {
    /// The event names an existing loop, if it names one.
    pub open spec fn well_formed(self) -> bool {
        self matches GestureEvent::LoopChanged(i) ==> i < LOOP_COUNT
    }

    /// The text shown for the event.
    pub open spec fn spec_label(self) -> Seq<char> {
        match self {
            GestureEvent::Ready => "ready"@,
            GestureEvent::LoopChanged(i) => "loop: "@ + spec_loop_name(i as int),
            GestureEvent::TapSample => "tap: sample"@,
            GestureEvent::DropImpact => "drop: impact"@,
            GestureEvent::WaitingForHands => "waiting for hands"@,
        }
    }

    /// The text shown for the event.
    pub fn label(&self) -> (text: String)
        requires
            self.well_formed(),
        ensures
            text@ == self.spec_label(),
    {
        match self {
            GestureEvent::Ready => String::from_str("ready"),
            GestureEvent::LoopChanged(i) => String::from_str("loop: ").concat(loop_name(*i)),
            GestureEvent::TapSample => String::from_str("tap: sample"),
            GestureEvent::DropImpact => String::from_str("drop: impact"),
            GestureEvent::WaitingForHands => String::from_str("waiting for hands"),
        }
    }
}

impl GestureState {
    /// The selected loop exists, and so does any loop the last event names;
    /// a hold runs only on a hand seen in the frame before, whose stillness
    /// clock is running.
    pub open spec fn well_formed(self) -> bool {
        &&& self.loop_index < LOOP_COUNT
        &&& self.latest_event.well_formed()
        &&& self.hold_active ==> self.had_hand && self.steady_since is Some
    }

    /// The state before the first frame: the first loop, nothing held,
    /// nothing happened yet.
    pub fn new() -> (res: GestureState)
        ensures
            res == (GestureState {
                loop_index: 0,
                hold_active: false,
                had_hand: false,
                steady_since: None,
                last_swipe_at: None,
                last_tap_at: None,
                last_drop_at: None,
                latest_event: GestureEvent::Ready,
            }),
            res.well_formed(),
    {
        GestureState {
            loop_index: 0,
            hold_active: false,
            had_hand: false,
            steady_since: None,
            last_swipe_at: None,
            last_tap_at: None,
            last_drop_at: None,
            latest_event: GestureEvent::Ready,
        }
    }

    /// Plays one frame at time `now` (see `spec_advance`).
    ///
    /// With no hand, nothing is held and the performer is told so. A hand
    /// with none in the frame before (whatever motion the caller reports for
    /// it) restarts the stillness clock and holds nothing. A hand that moved: keeping still starts (or keeps) the stillness clock, and
    /// moving stops it; the build is held while the hand is open and has
    /// kept still for `HOLD_AFTER_NS`. A swipe, once its cooldown has
    /// passed, selects the next loop to the right or the previous one to
    /// the left; a tap, likewise, triggers a sample; a drop triggers a drop
    /// and ends any hold.
    pub fn advance(&mut self, now: u64, input: HandInput) -> (actions: FrameActions)
        ensures
            (*final(self), actions) == spec_advance(*old(self), now, input),
            old(self).well_formed() ==> final(self).well_formed(),
    {
        match input {
            HandInput::NoHands => {
                self.steady_since = None;
                self.hold_active = false;
                self.had_hand = false;
                self.latest_event = GestureEvent::WaitingForHands;
                FrameActions { trigger_sample: false, trigger_drop: false }
            },
            HandInput::FirstPose => self.first_pose(),
            HandInput::Moved(m) => {
                if !self.had_hand {
                    return self.first_pose();
                }
                if m.steady {
                    if self.steady_since.is_none() {
                        self.steady_since = Some(now);
                    }
                } else {
                    self.steady_since = None;
                }
                self.hold_active = m.open_hand && match self.steady_since {
                    Some(t) => elapsed_ns(now, t) >= HOLD_AFTER_NS,
                    None => false,
                };
                let mut actions = FrameActions { trigger_sample: false, trigger_drop: false };
                if m.swipe && cooldown_over(self.last_swipe_at, now, SWIPE_COOLDOWN_NS) {
                    if m.swipe_right {
                        self.loop_index = (self.loop_index % LOOP_COUNT + 1) % LOOP_COUNT;
                    } else {
                        self.loop_index = (self.loop_index % LOOP_COUNT + LOOP_COUNT - 1) % LOOP_COUNT;
                    }
                    self.last_swipe_at = Some(now);
                    self.latest_event = GestureEvent::LoopChanged(self.loop_index);
                }
                if m.tap && cooldown_over(self.last_tap_at, now, TAP_COOLDOWN_NS) {
                    actions.trigger_sample = true;
                    self.last_tap_at = Some(now);
                    self.latest_event = GestureEvent::TapSample;
                }
                if m.drop && cooldown_over(self.last_drop_at, now, DROP_COOLDOWN_NS) {
                    actions.trigger_drop = true;
                    self.last_drop_at = Some(now);
                    self.latest_event = GestureEvent::DropImpact;
                    self.hold_active = false;
                }
                actions
            },
        }
    }

    fn first_pose(&mut self) -> (actions: FrameActions)
        ensures
            (*final(self), actions) == spec_first_pose(*old(self)),
    {
        self.steady_since = None;
        self.hold_active = false;
        self.had_hand = true;
        FrameActions { trigger_sample: false, trigger_drop: false }
    }
}

/// A frame keeps the state well formed: the selected loop, and any loop the
/// last event names, always exist.
pub proof fn lemma_advance_keeps_well_formed(s: GestureState, now: u64, input: HandInput)
    requires
        s.well_formed(),
    ensures
        spec_advance(s, now, input).0.well_formed(),
{
}

/// A swipe to the right followed by a swipe to the left comes back to the
/// loop it started from, and so does a swipe to the left followed by one to
/// the right.
pub proof fn lemma_swipes_undo_each_other(loop_index: usize, right: bool)
    requires
        loop_index < LOOP_COUNT,
    ensures
        spec_next_loop(spec_next_loop(loop_index, right), !right) == loop_index,
{
}

/// Four swipes in the same direction go round all loops and back.
pub proof fn lemma_four_swipes_go_round(loop_index: usize, right: bool)
    requires
        loop_index < LOOP_COUNT,
    ensures
        spec_next_loop(spec_next_loop(spec_next_loop(spec_next_loop(loop_index, right), right), right), right)
            == loop_index,
        loop_index != spec_next_loop(loop_index, right),
{
}

/// With a hand on camera since the frame before, the state answers two swipes that the cooldown
/// lets through: one to the right at `t1`, then one to the left at `t2`,
/// by coming back to the loop it started on.
pub proof fn lemma_swipe_right_then_left_restores_loop(
    s: GestureState,
    t1: u64,
    m1: Motion,
    t2: u64,
    m2: Motion,
)
    requires
        s.well_formed(),
        s.had_hand,
        m1.swipe && m1.swipe_right,
        cooldown_passed(s.last_swipe_at, t1, SWIPE_COOLDOWN_NS),
        m2.swipe && !m2.swipe_right,
        t2 >= t1 + SWIPE_COOLDOWN_NS,
    ensures
        spec_advance(spec_advance(s, t1, HandInput::Moved(m1)).0, t2, HandInput::Moved(m2)).0.loop_index
            == s.loop_index,
{
}

/// Two samples are never triggered less than `TAP_COOLDOWN_NS` apart: after
/// a frame at `t1` that triggers one, no frame at a time `t2` before the
/// cooldown has passed triggers another.
pub proof fn lemma_samples_respect_cooldown(
    s: GestureState,
    t1: u64,
    in1: HandInput,
    t2: u64,
    in2: HandInput,
)
    requires
        spec_advance(s, t1, in1).1.trigger_sample,
        t1 <= t2 < t1 + TAP_COOLDOWN_NS,
    ensures
        !spec_advance(spec_advance(s, t1, in1).0, t2, in2).1.trigger_sample,
{
}

/// Two drops are never triggered less than `DROP_COOLDOWN_NS` apart.
pub proof fn lemma_drops_respect_cooldown(
    s: GestureState,
    t1: u64,
    in1: HandInput,
    t2: u64,
    in2: HandInput,
)
    requires
        spec_advance(s, t1, in1).1.trigger_drop,
        t1 <= t2 < t1 + DROP_COOLDOWN_NS,
    ensures
        !spec_advance(spec_advance(s, t1, in1).0, t2, in2).1.trigger_drop,
{
}

/// The loop does not change twice within `SWIPE_COOLDOWN_NS`: after a frame
/// at `t1` that changes it, a frame before the cooldown has passed keeps it.
pub proof fn lemma_loop_changes_respect_cooldown(
    s: GestureState,
    t1: u64,
    in1: HandInput,
    t2: u64,
    in2: HandInput,
)
    requires
        s.well_formed(),
        spec_advance(s, t1, in1).0.loop_index != s.loop_index,
        t1 <= t2 < t1 + SWIPE_COOLDOWN_NS,
    ensures
        spec_advance(spec_advance(s, t1, in1).0, t2, in2).0.loop_index == spec_advance(s, t1, in1).0.loop_index,
{
}

/// Without a hand, nothing is held and nothing is triggered.
pub proof fn lemma_no_hands_no_hold(s: GestureState, now: u64)
    ensures
        !spec_advance(s, now, HandInput::NoHands).0.hold_active,
        spec_advance(s, now, HandInput::NoHands).1 == (FrameActions { trigger_sample: false, trigger_drop: false }),
        spec_advance(s, now, HandInput::NoHands).0 == (GestureState {
            loop_index: s.loop_index,
            hold_active: false,
            had_hand: false,
            steady_since: None,
            last_swipe_at: s.last_swipe_at,
            last_tap_at: s.last_tap_at,
            last_drop_at: s.last_drop_at,
            latest_event: GestureEvent::WaitingForHands,
        }),
{
}

/// A hand seen for the first time triggers nothing, holds nothing, restarts
/// the stillness clock and changes nothing else; a hand with none in the
/// frame before counts as seen for the first time, whatever its motion.
pub proof fn lemma_first_pose_is_quiet(s: GestureState, now: u64, m: Motion)
    ensures
        spec_advance(s, now, HandInput::FirstPose).0.steady_since is None,
        !spec_advance(s, now, HandInput::FirstPose).0.hold_active,
        spec_advance(s, now, HandInput::FirstPose).1 == (FrameActions { trigger_sample: false, trigger_drop: false }),
        spec_advance(s, now, HandInput::FirstPose).0 == (GestureState {
            hold_active: false,
            had_hand: true,
            steady_since: None,
            ..s
        }),
        !s.had_hand ==> spec_advance(s, now, HandInput::FirstPose) == spec_advance(
            s,
            now,
            HandInput::Moved(m),
        ),
{
}

/// After any frame, the build is held only when the frame showed a hand
/// that was also there in the frame before, that hand is open and has kept
/// still for at least `HOLD_AFTER_NS`, and the frame triggered no drop.
pub proof fn lemma_hold_needs_still_open_hand(s: GestureState, now: u64, input: HandInput)
    ensures
        spec_advance(s, now, input).0.hold_active ==> {
            &&& s.had_hand
            &&& input matches HandInput::Moved(m)
            &&& m.open_hand
            &&& m.steady
            &&& spec_advance(s, now, input).0.steady_since matches Some(t)
            &&& elapsed(now, t) >= HOLD_AFTER_NS
            &&& !spec_advance(s, now, input).1.trigger_drop
        },
{
}

/// What a frame does when the hand was also there in the frame before,
/// stated over its inputs (times in nanoseconds):
/// - a hand that does not keep still clears the stillness clock; one that
///   keeps still starts it now, or keeps it running if it already was;
/// - the build is held exactly when the hand is open, keeps still, has kept
///   still for at least 450 ms, and the frame triggers no drop;
/// - a sample is triggered exactly on a tap at least 220 ms after the last
///   triggered sample (or with none before), and then remembered as now;
/// - a drop likewise, with 700 ms;
/// - a swipe at least 350 ms after the last loop change (or with none
///   before) moves to the next loop round the four to the right, the
///   previous one to the left; otherwise the loop stays;
/// - the event shown is the drop, else the sample, else the loop change of
///   this frame, else the one shown before.
pub proof fn lemma_moving_frame(s: GestureState, now: u64, m: Motion)
    requires
        s.had_hand,
        s.loop_index < 4,
    ensures
        ({
            let (t, a) = spec_advance(s, now, HandInput::Moved(m));
            let tap_ok = match s.last_tap_at {
                Some(x) => now >= x + 220_000_000,
                None => true,
            };
            let drop_ok = match s.last_drop_at {
                Some(x) => now >= x + 700_000_000,
                None => true,
            };
            let swipe_ok = match s.last_swipe_at {
                Some(x) => now >= x + 350_000_000,
                None => true,
            };
            &&& !m.steady ==> t.steady_since is None
            &&& m.steady && s.steady_since is None ==> t.steady_since == Some(now)
            &&& m.steady && s.steady_since is Some ==> t.steady_since == s.steady_since
            &&& t.hold_active == (m.open_hand && m.steady && !a.trigger_drop && (t.steady_since matches Some(x)
                && now >= x + 450_000_000))
            &&& a.trigger_sample == (m.tap && tap_ok)
            &&& t.last_tap_at == if a.trigger_sample { Some(now) } else { s.last_tap_at }
            &&& a.trigger_drop == (m.drop && drop_ok)
            &&& t.last_drop_at == if a.trigger_drop { Some(now) } else { s.last_drop_at }
            &&& (m.swipe && swipe_ok && m.swipe_right) ==> t.loop_index == (s.loop_index + 1) % 4
            &&& (m.swipe && swipe_ok && !m.swipe_right) ==> t.loop_index == (s.loop_index + 3) % 4
            &&& !(m.swipe && swipe_ok) ==> t.loop_index == s.loop_index
            &&& t.last_swipe_at == if m.swipe && swipe_ok { Some(now) } else { s.last_swipe_at }
            &&& a.trigger_drop ==> t.latest_event == GestureEvent::DropImpact
            &&& !a.trigger_drop && a.trigger_sample ==> t.latest_event == GestureEvent::TapSample
            &&& !a.trigger_drop && !a.trigger_sample && m.swipe && swipe_ok ==> t.latest_event
                == GestureEvent::LoopChanged(t.loop_index)
            &&& !a.trigger_drop && !a.trigger_sample && !(m.swipe && swipe_ok) ==> t.latest_event
                == s.latest_event
            &&& t.had_hand
        }),
{
}

/// After a frame whose hand was there before but did not keep still,
/// nothing is held and the stillness clock is cleared; so whenever the build
/// is held, the clock started no earlier than the last such frame.
pub proof fn lemma_motion_restarts_stillness(s: GestureState, now: u64, m: Motion)
    requires
        !m.steady,
    ensures
        spec_advance(s, now, HandInput::Moved(m)).0.steady_since is None,
        !spec_advance(s, now, HandInput::Moved(m)).0.hold_active,
{
}

/// Over a run whose times never go back, when the build is held before frame
/// `k`, no frame from the one whose time starts the stillness clock up to
/// `k` showed a moving hand or no hand.
pub proof fn lemma_hold_follows_stillness(s: GestureState, frames: Seq<(u64, HandInput)>, j: int, k: int)
    requires
        0 <= j < k <= frames.len(),
        state_before(s, frames, k).hold_active,
        (frames[j].1 matches HandInput::Moved(m) && !m.steady) || frames[j].1 is NoHands || frames[j].1 is FirstPose,
    ensures
        state_before(s, frames, k).steady_since matches Some(t) && (exists|i: int|
            j < i < k && frames[i].0 == t),
{
    assert(state_before(s, frames, k) == spec_advance(
        state_before(s, frames, k - 1),
        frames[k - 1].0,
        frames[k - 1].1,
    ).0);
    lemma_clock_started_after(s, frames, j, k);
}

/// After a frame `j` that clears the stillness clock, a clock running before
/// any later frame `k` was started by a frame between them.
proof fn lemma_clock_started_after(s: GestureState, frames: Seq<(u64, HandInput)>, j: int, k: int)
    requires
        0 <= j < k <= frames.len(),
        (frames[j].1 matches HandInput::Moved(m) && !m.steady) || frames[j].1 is NoHands || frames[j].1 is FirstPose,
    ensures
        state_before(s, frames, k).steady_since matches Some(t) ==> (exists|i: int|
            j < i < k && frames[i].0 == t),
    decreases k,
{
    let prev = state_before(s, frames, k - 1);
    assert(state_before(s, frames, k) == spec_advance(prev, frames[k - 1].0, frames[k - 1].1).0);
    if k == j + 1 {
        assert(state_before(s, frames, k).steady_since is None);
    } else {
        lemma_clock_started_after(s, frames, j, k - 1);
        if let Some(t) = state_before(s, frames, k).steady_since {
            if prev.steady_since == Some(t) {
                let i = choose|i: int| j < i < k - 1 && frames[i].0 == t;
                assert(j < i < k && frames[i].0 == t);
            } else {
                assert(frames[k - 1].0 == t);
                assert(j < k - 1 < k);
            }
        }
    }
}

/// The state before frame `k` of a run that starts in `s` and plays
/// `frames`, each a time and what the camera showed.
pub open spec fn state_before(s: GestureState, frames: Seq<(u64, HandInput)>, k: int) -> GestureState
    decreases k,
{
    if k <= 0 {
        s
    } else {
        spec_advance(state_before(s, frames, k - 1), frames[k - 1].0, frames[k - 1].1).0
    }
}

/// What frame `k` of the run makes the music do.
pub open spec fn actions_at(s: GestureState, frames: Seq<(u64, HandInput)>, k: int) -> FrameActions {
    spec_advance(state_before(s, frames, k), frames[k].0, frames[k].1).1
}

/// Whether frame `k` of the run changes the selected loop.
pub open spec fn loop_changes_at(s: GestureState, frames: Seq<(u64, HandInput)>, k: int) -> bool {
    state_before(s, frames, k + 1).loop_index != state_before(s, frames, k).loop_index
}

/// The frames' times never go back.
pub open spec fn times_ordered(frames: Seq<(u64, HandInput)>) -> bool {
    forall|a: int, b: int| 0 <= a <= b < frames.len() ==> frames[a].0 <= frames[b].0
}

/// The time a cooldown counts from: of loop changes (0), samples (1) or drops (2).
spec fn cooldown_mark(st: GestureState, kind: int) -> Option<u64> {
    if kind == 0 {
        st.last_swipe_at
    } else if kind == 1 {
        st.last_tap_at
    } else {
        st.last_drop_at
    }
}

spec fn cooldown_of(kind: int) -> u64 {
    if kind == 0 {
        SWIPE_COOLDOWN_NS
    } else if kind == 1 {
        TAP_COOLDOWN_NS
    } else {
        DROP_COOLDOWN_NS
    }
}

spec fn fires_at(s: GestureState, frames: Seq<(u64, HandInput)>, k: int, kind: int) -> bool {
    if kind == 0 {
        loop_changes_at(s, frames, k)
    } else if kind == 1 {
        actions_at(s, frames, k).trigger_sample
    } else {
        actions_at(s, frames, k).trigger_drop
    }
}

/// What a frame does to a cooldown's mark: it stays, or becomes the frame's
/// time; it becomes the frame's time when the frame fires; and a frame
/// fires only once the cooldown has passed since the mark.
proof fn lemma_mark_step(s: GestureState, frames: Seq<(u64, HandInput)>, k: int, kind: int)
    requires
        0 <= k < frames.len(),
        0 <= kind <= 2,
    ensures
        cooldown_mark(state_before(s, frames, k + 1), kind) == cooldown_mark(state_before(s, frames, k), kind)
            || cooldown_mark(state_before(s, frames, k + 1), kind) == Some(frames[k].0),
        fires_at(s, frames, k, kind) ==> cooldown_mark(state_before(s, frames, k + 1), kind) == Some(
            frames[k].0,
        ),
        fires_at(s, frames, k, kind) ==> cooldown_passed(
            cooldown_mark(state_before(s, frames, k), kind),
            frames[k].0,
            cooldown_of(kind),
        ),
{
    assert(state_before(s, frames, k + 1) == spec_advance(state_before(s, frames, k), frames[k].0, frames[k].1).0);
}

/// After a frame `i` that fires, the mark before any later frame `k` is the
/// time of some frame from `i` on, before `k`.
proof fn lemma_mark_remembers(s: GestureState, frames: Seq<(u64, HandInput)>, i: int, k: int, kind: int)
    requires
        0 <= i < k <= frames.len(),
        0 <= kind <= 2,
        fires_at(s, frames, i, kind),
    ensures
        exists|m: int| i <= m < k && cooldown_mark(state_before(s, frames, k), kind) == Some(#[trigger] frames[m].0),
    decreases k,
{
    lemma_mark_step(s, frames, k - 1, kind);
    if k == i + 1 {
        assert(cooldown_mark(state_before(s, frames, k), kind) == Some(frames[i].0));
    } else {
        lemma_mark_remembers(s, frames, i, k - 1, kind);
        let m = choose|m: int| i <= m < k - 1 && cooldown_mark(state_before(s, frames, k - 1), kind) == Some(
            #[trigger] frames[m].0,
        );
        if cooldown_mark(state_before(s, frames, k), kind) == Some(frames[k - 1].0) {
            assert(i <= k - 1 < k);
        } else {
            assert(cooldown_mark(state_before(s, frames, k), kind) == Some(frames[m].0));
        }
    }
}

proof fn lemma_fires_apart(s: GestureState, frames: Seq<(u64, HandInput)>, i: int, j: int, kind: int)
    requires
        times_ordered(frames),
        0 <= i < j < frames.len(),
        0 <= kind <= 2,
        fires_at(s, frames, i, kind),
        fires_at(s, frames, j, kind),
    ensures
        frames[j].0 >= frames[i].0 + cooldown_of(kind),
{
    lemma_mark_remembers(s, frames, i, j, kind);
    lemma_mark_step(s, frames, j, kind);
    let m = choose|m: int| i <= m < j && cooldown_mark(state_before(s, frames, j), kind) == Some(
        #[trigger] frames[m].0,
    );
    assert(frames[i].0 <= frames[m].0 <= frames[j].0);
}

/// Over any run whose times never go back, two frames that both trigger a
/// sample are at least `TAP_COOLDOWN_NS` apart.
pub proof fn lemma_run_samples_apart(s: GestureState, frames: Seq<(u64, HandInput)>, i: int, j: int)
    requires
        times_ordered(frames),
        0 <= i < j < frames.len(),
        actions_at(s, frames, i).trigger_sample,
        actions_at(s, frames, j).trigger_sample,
    ensures
        frames[j].0 >= frames[i].0 + TAP_COOLDOWN_NS,
{
    lemma_fires_apart(s, frames, i, j, 1);
}

/// Over any run whose times never go back, two frames that both trigger a
/// drop are at least `DROP_COOLDOWN_NS` apart.
pub proof fn lemma_run_drops_apart(s: GestureState, frames: Seq<(u64, HandInput)>, i: int, j: int)
    requires
        times_ordered(frames),
        0 <= i < j < frames.len(),
        actions_at(s, frames, i).trigger_drop,
        actions_at(s, frames, j).trigger_drop,
    ensures
        frames[j].0 >= frames[i].0 + DROP_COOLDOWN_NS,
{
    lemma_fires_apart(s, frames, i, j, 2);
}

/// Over any run whose times never go back, two frames that both change the
/// selected loop are at least `SWIPE_COOLDOWN_NS` apart.
pub proof fn lemma_run_loop_changes_apart(s: GestureState, frames: Seq<(u64, HandInput)>, i: int, j: int)
    requires
        times_ordered(frames),
        0 <= i < j < frames.len(),
        loop_changes_at(s, frames, i),
        loop_changes_at(s, frames, j),
    ensures
        frames[j].0 >= frames[i].0 + SWIPE_COOLDOWN_NS,
{
    lemma_fires_apart(s, frames, i, j, 0);
}

/// Whether a preview frame is one not shown yet: any frame when none was
/// shown, else one whose id differs from the last one shown.
pub fn is_new_preview(last_shown: Option<u64>, frame_id: u64) -> (res: bool)
    ensures
        res == match last_shown {
            Some(id) => id != frame_id,
            None => true,
        },
{
    match last_shown {
        Some(id) => id != frame_id,
        None => true,
    }
}

} // verus!
