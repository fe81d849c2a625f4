//! The integer side of the synth: which loop plays, which notes and drums
//! each step of the bar holds, when a triggered sound starts, the noise
//! generator and the delay line's cursor.
use vstd::prelude::*;

verus! {

/// Number of loops the synth can play.
pub const LOOP_COUNT: usize = 4;

/// Number of steps in one bar (sixteenth notes).
pub const STEPS: usize = 16;

/// The name of each loop.
pub open spec fn spec_loop_name(index: int) -> Seq<char> {
    if index == 0 {
        "Deep House"@
    } else if index == 1 {
        "Trance Drive"@
    } else if index == 2 {
        "Build"@
    } else {
        "Drop"@
    }
}

/// The name of loop `index`.
pub fn loop_name(index: usize) -> (name: &'static str)
    requires
        index < LOOP_COUNT,
    ensures
        name@ == spec_loop_name(index as int),
{
    if index == 0 {
        "Deep House"
    } else if index == 1 {
        "Trance Drive"
    } else if index == 2 {
        "Build"
    } else {
        "Drop"
    }
}

/// The loop actually played for a requested index: the last loop stands in
/// for any index past it.
pub fn clamp_loop_index(index: usize) -> (res: usize)
    ensures
        res == if index < LOOP_COUNT { index } else { (LOOP_COUNT - 1) as usize },
        res < LOOP_COUNT,
{
    if index < LOOP_COUNT {
        index
    } else {
        LOOP_COUNT - 1
    }
}

/// Semitone offsets of the bass line of each loop, one per step, above MIDI note 36.
pub open spec fn bass_pattern(loop_index: int) -> Seq<i32> {
    if loop_index == 0 {
        seq![0i32, 0, 3, 0, 5, 0, 3, 0, 0, 0, 3, 0, 7, 0, 5, 3]
    } else if loop_index == 1 {
        seq![0i32, 0, 7, 0, 10, 7, 5, 7, 0, 3, 7, 0, 10, 12, 10, 7]
    } else if loop_index == 2 {
        seq![0i32, 2, 4, 7, 9, 7, 4, 2, 0, 2, 4, 7, 12, 14, 12, 9]
    } else {
        seq![0i32, 0, 0, 0, 0, 0, 0, 0, 12, 12, 14, 12, 10, 10, 7, 5]
    }
}

/// Semitone offsets of the lead line of each loop, one per step, above MIDI note 60.
pub open spec fn lead_pattern(loop_index: int) -> Seq<i32> {
    if loop_index == 0 {
        seq![12i32, 14, 15, 14, 12, 10, 12, 14, 15, 17, 15, 14, 12, 10, 7, 10]
    } else if loop_index == 1 {
        seq![7i32, 10, 12, 14, 15, 14, 12, 10, 7, 10, 12, 14, 15, 17, 19, 17]
    } else if loop_index == 2 {
        seq![4i32, 7, 9, 12, 14, 12, 9, 7, 4, 7, 9, 12, 16, 19, 16, 12]
    } else {
        seq![12i32, 12, 15, 12, 17, 15, 12, 10, 12, 14, 15, 17, 19, 17, 15, 14]
    }
}

/// The bass line's offset at `step` of loop `loop_index`.
pub fn bass_offset(loop_index: usize, step: usize) -> (offset: i32)
    requires
        loop_index < LOOP_COUNT,
        step < STEPS,
    ensures
        offset == bass_pattern(loop_index as int)[step as int],
{
    let row: [i32; 16] = if loop_index == 0 {
        [0, 0, 3, 0, 5, 0, 3, 0, 0, 0, 3, 0, 7, 0, 5, 3]
    } else if loop_index == 1 {
        [0, 0, 7, 0, 10, 7, 5, 7, 0, 3, 7, 0, 10, 12, 10, 7]
    } else if loop_index == 2 {
        [0, 2, 4, 7, 9, 7, 4, 2, 0, 2, 4, 7, 12, 14, 12, 9]
    } else {
        [0, 0, 0, 0, 0, 0, 0, 0, 12, 12, 14, 12, 10, 10, 7, 5]
    };
    assert(row@ == bass_pattern(loop_index as int));
    row[step]
}


/// The lead line's offset at `step` of loop `loop_index`.
pub fn lead_offset(loop_index: usize, step: usize) -> (offset: i32)
    requires
        loop_index < LOOP_COUNT,
        step < STEPS,
    ensures
        offset == lead_pattern(loop_index as int)[step as int],
{
    let row: [i32; 16] = if loop_index == 0 {
        [12, 14, 15, 14, 12, 10, 12, 14, 15, 17, 15, 14, 12, 10, 7, 10]
    } else if loop_index == 1 {
        [7, 10, 12, 14, 15, 14, 12, 10, 7, 10, 12, 14, 15, 17, 19, 17]
    } else if loop_index == 2 {
        [4, 7, 9, 12, 14, 12, 9, 7, 4, 7, 9, 12, 16, 19, 16, 12]
    } else {
        [12, 12, 15, 12, 17, 15, 12, 10, 12, 14, 15, 17, 19, 17, 15, 14]
    };
    assert(row@ == lead_pattern(loop_index as int));
    row[step]
}

/// MIDI note under the bass line.
pub const BASS_ROOT: i32 = 36;

/// MIDI note under the lead line.
pub const LEAD_ROOT: i32 = 60;

/// What the sequencer remembers between two audio frames: the step it last
/// played and the trigger counts it last saw.
#[derive(Clone, Copy, PartialEq, Eq, Debug)]
pub struct Sequencer {
    pub last_step: usize,
    pub last_sample_trigger: u32,
    pub last_drop_trigger: u32,
}

/// What to play in one audio frame: the step of the bar, which drums and
/// triggered sounds start now, and the MIDI notes of the bass and the lead.
#[derive(Clone, Copy, PartialEq, Eq, Debug)]
pub struct Frame {
    pub step: usize,
    pub kick: bool,
    pub clap: bool,
    pub hat: bool,
    pub sample: bool,
    pub drop: bool,
    pub bass_note: i32,
    pub lead_note: i32,
}

/// The step within the bar after `elapsed_steps` sixteenth notes.
pub open spec fn spec_step(elapsed_steps: u64) -> int {
    (elapsed_steps % (STEPS as u64)) as int
}

/// The kick falls on every quarter note.
pub open spec fn kick_on(step: int) -> bool {
    step % 4 == 0
}

/// The clap falls on the second and the fourth beat.
pub open spec fn clap_on(step: int) -> bool {
    step == 4 || step == 12
}

/// The hat falls on every off-step.
pub open spec fn hat_on(step: int) -> bool {
    step % 2 == 1
}

/// One frame of the sequencer: the state after it and what it plays.
pub open spec fn spec_advance(
    seq: Sequencer,
    elapsed_steps: u64,
    loop_index: usize,
    sample_trigger: u32,
    drop_trigger: u32,
) -> (Sequencer, Frame) {
    let step = spec_step(elapsed_steps);
    let new_step = step != seq.last_step;
    let played = if loop_index < LOOP_COUNT { loop_index as int } else { LOOP_COUNT - 1 };
    (
        Sequencer {
            last_step: step as usize,
            last_sample_trigger: sample_trigger,
            last_drop_trigger: drop_trigger,
        },
        Frame {
            step: step as usize,
            kick: new_step && kick_on(step),
            clap: new_step && clap_on(step),
            hat: new_step && hat_on(step),
            sample: sample_trigger != seq.last_sample_trigger,
            drop: drop_trigger != seq.last_drop_trigger,
            bass_note: (BASS_ROOT + bass_pattern(played)[step]) as i32,
            lead_note: (LEAD_ROOT + lead_pattern(played)[step]) as i32,
        },
    )
}

impl Sequencer {
    /// A sequencer that has played nothing yet: the last step of the bar is
    /// taken as played, so that the first frame, at step 0, starts a beat.
    pub fn new() -> (res: Sequencer)
        ensures
            res == (Sequencer { last_step: 15, last_sample_trigger: 0, last_drop_trigger: 0 }),
    {
        Sequencer { last_step: 15, last_sample_trigger: 0, last_drop_trigger: 0 }
    }

    /// Plays one audio frame. `elapsed_steps` counts the sixteenth notes
    /// since the start; `loop_index` is the requested loop; the trigger
    /// counts are those of the shared state. A drum starts when the frame
    /// enters a new step on which it falls; a sample or a drop starts when
    /// its count differs from the one seen at the frame before.
    pub fn advance(
        &mut self,
        elapsed_steps: u64,
        loop_index: usize,
        sample_trigger: u32,
        drop_trigger: u32,
    ) -> (frame: Frame)
        ensures
            (*final(self), frame) == spec_advance(
                *old(self),
                elapsed_steps,
                loop_index,
                sample_trigger,
                drop_trigger,
            ),
    {
        let step_u64: u64 = elapsed_steps % 16;
        let step: usize = step_u64 as usize;
        let new_step = step != self.last_step;
        let played = clamp_loop_index(loop_index);
        let frame = Frame {
            step,
            kick: new_step && step % 4 == 0,
            clap: new_step && (step == 4 || step == 12),
            hat: new_step && step % 2 == 1,
            sample: sample_trigger != self.last_sample_trigger,
            drop: drop_trigger != self.last_drop_trigger,
            bass_note: BASS_ROOT + bass_offset(played, step),
            lead_note: LEAD_ROOT + lead_offset(played, step),
        };
        self.last_step = step;
        self.last_sample_trigger = sample_trigger;
        self.last_drop_trigger = drop_trigger;
        frame
    }
}

/// A frame that repeats the one before (same step, same trigger counts)
/// starts no drum and no triggered sound: each step beats once, and each
/// trigger plays once.
pub proof fn lemma_repeated_frame_is_silent(
    seq: Sequencer,
    elapsed_steps: u64,
    loop_index: usize,
    sample_trigger: u32,
    drop_trigger: u32,
)
    ensures
        ({
            let after = spec_advance(seq, elapsed_steps, loop_index, sample_trigger, drop_trigger).0;
            let again = spec_advance(after, elapsed_steps, loop_index, sample_trigger, drop_trigger).1;
            !again.kick && !again.clap && !again.hat && !again.sample && !again.drop
        }),
{
}

/// A trigger count that differs from the one seen at the frame before
/// always starts its sound, whatever the step.
pub proof fn lemma_changed_trigger_plays(
    seq: Sequencer,
    elapsed_steps: u64,
    loop_index: usize,
    sample_trigger: u32,
    drop_trigger: u32,
)
    ensures
        sample_trigger != seq.last_sample_trigger ==> spec_advance(
            seq,
            elapsed_steps,
            loop_index,
            sample_trigger,
            drop_trigger,
        ).1.sample,
        drop_trigger != seq.last_drop_trigger ==> spec_advance(
            seq,
            elapsed_steps,
            loop_index,
            sample_trigger,
            drop_trigger,
        ).1.drop,
{
}

/// Where the clap falls, the kick falls too, and the hat never falls with
/// either.
pub proof fn lemma_drum_pattern(step: int)
    requires
        0 <= step < STEPS,
    ensures
        clap_on(step) ==> kick_on(step),
        hat_on(step) ==> !kick_on(step) && !clap_on(step),
{
}

/// Any requested loop past the last one plays the last one's notes.
pub proof fn lemma_out_of_range_loop_plays_last(
    seq: Sequencer,
    elapsed_steps: u64,
    loop_index: usize,
    sample_trigger: u32,
    drop_trigger: u32,
)
    requires
        loop_index >= LOOP_COUNT,
    ensures
        spec_advance(seq, elapsed_steps, loop_index, sample_trigger, drop_trigger).1 == spec_advance(
            seq,
            elapsed_steps,
            (LOOP_COUNT - 1) as usize,
            sample_trigger,
            drop_trigger,
        ).1,
{
}

/// The four loops are named "Deep House", "Trance Drive", "Build" and
/// "Drop", in that order, and no two loops share a name.
pub proof fn lemma_loop_names()
    ensures
        spec_loop_name(0) == "Deep House"@,
        spec_loop_name(1) == "Trance Drive"@,
        spec_loop_name(2) == "Build"@,
        spec_loop_name(3) == "Drop"@,
        forall|a: int, b: int|
            0 <= a < LOOP_COUNT && 0 <= b < LOOP_COUNT && a != b ==> #[trigger] spec_loop_name(a)
                != #[trigger] spec_loop_name(b),
{
    reveal_strlit("Deep House");
    reveal_strlit("Trance Drive");
    reveal_strlit("Build");
    reveal_strlit("Drop");
    assert(spec_loop_name(0).len() == 10);
    assert(spec_loop_name(1).len() == 12);
    assert(spec_loop_name(2).len() == 5);
    assert(spec_loop_name(3).len() == 4);
}

/// The bass lines of the four loops (semitones above the bass root, one per
/// step): each is sixteen steps long, starts on the root, and no two loops
/// share one.
pub proof fn lemma_bass_lines()
    ensures
        bass_pattern(0) =~= seq![0i32, 0, 3, 0, 5, 0, 3, 0, 0, 0, 3, 0, 7, 0, 5, 3],
        bass_pattern(1) =~= seq![0i32, 0, 7, 0, 10, 7, 5, 7, 0, 3, 7, 0, 10, 12, 10, 7],
        bass_pattern(2) =~= seq![0i32, 2, 4, 7, 9, 7, 4, 2, 0, 2, 4, 7, 12, 14, 12, 9],
        bass_pattern(3) =~= seq![0i32, 0, 0, 0, 0, 0, 0, 0, 12, 12, 14, 12, 10, 10, 7, 5],
        forall|l: int| 0 <= l < LOOP_COUNT ==> #[trigger] bass_pattern(l).len() == STEPS && bass_pattern(l)[0] == 0,
        forall|a: int, b: int|
            0 <= a < LOOP_COUNT && 0 <= b < LOOP_COUNT && a != b ==> #[trigger] bass_pattern(a)
                != #[trigger] bass_pattern(b),
{
    assert forall|a: int, b: int|
        0 <= a < LOOP_COUNT && 0 <= b < LOOP_COUNT && a != b implies #[trigger] bass_pattern(a)
            != #[trigger] bass_pattern(b) by {
        assert(bass_pattern(a)[2] != bass_pattern(b)[2]);
    }
}

/// The lead lines of the four loops (semitones above the lead root, one per
/// step): each is sixteen steps long, and no two loops share one.
pub proof fn lemma_lead_lines()
    ensures
        lead_pattern(0) =~= seq![12i32, 14, 15, 14, 12, 10, 12, 14, 15, 17, 15, 14, 12, 10, 7, 10],
        lead_pattern(1) =~= seq![7i32, 10, 12, 14, 15, 14, 12, 10, 7, 10, 12, 14, 15, 17, 19, 17],
        lead_pattern(2) =~= seq![4i32, 7, 9, 12, 14, 12, 9, 7, 4, 7, 9, 12, 16, 19, 16, 12],
        lead_pattern(3) =~= seq![12i32, 12, 15, 12, 17, 15, 12, 10, 12, 14, 15, 17, 19, 17, 15, 14],
        forall|l: int| 0 <= l < LOOP_COUNT ==> #[trigger] lead_pattern(l).len() == STEPS,
        forall|a: int, b: int|
            0 <= a < LOOP_COUNT && 0 <= b < LOOP_COUNT && a != b ==> #[trigger] lead_pattern(a)
                != #[trigger] lead_pattern(b),
{
    assert forall|a: int, b: int|
        0 <= a < LOOP_COUNT && 0 <= b < LOOP_COUNT && a != b implies #[trigger] lead_pattern(a)
            != #[trigger] lead_pattern(b) by {
        assert(lead_pattern(a)[1] != lead_pattern(b)[1]);
    }
}

/// What one frame plays, over its inputs: the step is the count of
/// sixteenths modulo 16; on entering a new step the kick falls on steps 0,
/// 4, 8 and 12, the clap on 4 and 12, the hat on the odd steps; a sample or
/// a drop starts exactly when its count differs from the one seen before;
/// the bass plays 36 plus, and the lead 60 plus, the played loop's offset
/// at the step, the played loop being the requested one, or the last (3)
/// for any index past it; and the frame is remembered.
pub proof fn lemma_frame_plays(
    seq: Sequencer,
    elapsed_steps: u64,
    loop_index: usize,
    sample_trigger: u32,
    drop_trigger: u32,
)
    ensures
        ({
            let (next, f) = spec_advance(seq, elapsed_steps, loop_index, sample_trigger, drop_trigger);
            let step = elapsed_steps % 16;
            let entered = step != seq.last_step;
            let played = if loop_index <= 3 { loop_index as int } else { 3 };
            &&& f.step == step
            &&& f.kick == (entered && (step == 0 || step == 4 || step == 8 || step == 12))
            &&& f.clap == (entered && (step == 4 || step == 12))
            &&& f.hat == (entered && step % 2 == 1)
            &&& f.sample == (sample_trigger != seq.last_sample_trigger)
            &&& f.drop == (drop_trigger != seq.last_drop_trigger)
            &&& f.bass_note == 36 + bass_pattern(played)[step as int]
            &&& f.lead_note == 60 + lead_pattern(played)[step as int]
            &&& next == (Sequencer {
                last_step: step as usize,
                last_sample_trigger: sample_trigger,
                last_drop_trigger: drop_trigger,
            })
        }),
{
    lemma_bass_lines();
    lemma_lead_lines();
}

/// The noise generator's step: the seed times 1664525 plus 1013904223,
/// modulo 2^32.
pub proof fn lemma_noise_step(seed: u32)
    ensures
        spec_next_seed(seed) as int == (seed as int * 1664525 + 1013904223) % 4294967296,
{
}

/// One step of the noise generator: a linear congruential generator modulo 2^32.
pub open spec fn spec_next_seed(seed: u32) -> u32 {
    ((seed * 1_664_525int + 1_013_904_223int) % 0x1_0000_0000int) as u32
}

/// Advances the noise generator and returns its new top sixteen bits, a
/// level from 0 to 65535 that the synth maps onto [-1, 1].
pub fn next_noise_bits(seed: &mut u32) -> (level: u32)
    ensures
        *final(seed) == spec_next_seed(*old(seed)),
        level == *final(seed) / 65536,
        level <= 65535,
{
    let s = *seed;
    let next = s.wrapping_mul(1_664_525).wrapping_add(1_013_904_223);
    proof {
        assert(((s as int * 1_664_525int) % 0x1_0000_0000int + 1_013_904_223int) % 0x1_0000_0000int
            == (s as int * 1_664_525int + 1_013_904_223int) % 0x1_0000_0000int) by (nonlinear_arith);
    }
    *seed = next;
    let level = next >> 16;
    assert(next >> 16 == next / 65536) by (bit_vector);
    level
}


/// Write position in the delay line's ring buffer of `len` samples.
pub struct DelayCursor {
    len: usize,
    index: usize,
}

impl View for DelayCursor {
    type V = (nat, nat);

    /// The buffer's length and the position written next.
    closed spec fn view(&self) -> (nat, nat) {
        (self.len as nat, self.index as nat)
    }
}

impl DelayCursor {
    #[verifier::type_invariant]
    spec fn well_formed(self) -> bool {
        self.index < self.len
    }

    /// A cursor at the start of a buffer of `len` samples.
    pub fn new(len: usize) -> (res: DelayCursor)
        requires
            len > 0,
        ensures
            res@ == (len as nat, 0nat),
    {
        DelayCursor { len, index: 0 }
    }

    /// The buffer's length.
    pub fn len(&self) -> (len: usize)
        ensures
            len as nat == self@.0,
            len > 0,
    {
        proof {
            use_type_invariant(self);
        }
        self.len
    }

    /// The position written next.
    pub fn write_index(&self) -> (index: usize)
        ensures
            index as nat == self@.1,
            index < self@.0,
    {
        proof {
            use_type_invariant(self);
        }
        self.index
    }

    /// The position of the sample written `delay_samples` frames ago; a
    /// delay longer than the buffer holds is cut to `len - 1`.
    pub fn read_index(&self, delay_samples: usize) -> (index: usize)
        ensures
            index as int == (self@.1 + self@.0 - spec_delay_offset(self@.0, delay_samples))
                % (self@.0 as int),
            index < self@.0,
    {
        proof {
            use_type_invariant(self);
        }
        let offset = if delay_samples < self.len - 1 { delay_samples } else { self.len - 1 };
        if offset <= self.index {
            let r = self.index - offset;
            assert((self.index + self.len - offset) % (self.len as int) == r) by {
                vstd::arithmetic::div_mod::lemma_mod_add_multiples_vanish(r as int, self.len as int);
                vstd::arithmetic::div_mod::lemma_small_mod(r as nat, self.len as nat);
            }
            r
        } else {
            let r = self.index + (self.len - offset);
            assert((self.index + self.len - offset) % (self.len as int) == r) by {
                vstd::arithmetic::div_mod::lemma_small_mod(r as nat, self.len as nat);
            }
            r
        }
    }

    /// Moves to the next position, wrapping at the end of the buffer.
    pub fn advance(&mut self)
        ensures
            final(self)@.0 == old(self)@.0,
            final(self)@.1 == (old(self)@.1 + 1) % old(self)@.0,
    {
        proof {
            use_type_invariant(&*self);
        }
        let next = if self.index + 1 < self.len { self.index + 1 } else { 0 };
        proof {
            if self.index + 1 < self.len {
                vstd::arithmetic::div_mod::lemma_small_mod((self.index + 1) as nat, self.len as nat);
            } else {
                vstd::arithmetic::div_mod::lemma_mod_self_0(self.len as int);
            }
        }
        self.index = next;
    }
}

/// The delay line reads exactly as many positions behind the write
/// position as the (cut) delay asks for: moving forward that far from the
/// read position, round the buffer, reaches the write position.
pub proof fn lemma_read_lags_write(len: nat, write: nat, delay_samples: usize)
    requires
        write < len,
    ensures
        ((write + len - spec_delay_offset(len, delay_samples)) % (len as int)
            + spec_delay_offset(len, delay_samples)) % (len as int) == write,
        spec_delay_offset(len, delay_samples) < len,
{
    let offset = spec_delay_offset(len, delay_samples) as int;
    if offset <= write {
        vstd::arithmetic::div_mod::lemma_mod_add_multiples_vanish(write - offset, len as int);
        vstd::arithmetic::div_mod::lemma_small_mod((write - offset) as nat, len);
        vstd::arithmetic::div_mod::lemma_small_mod(write, len);
    } else {
        vstd::arithmetic::div_mod::lemma_small_mod((write + len - offset) as nat, len);
        vstd::arithmetic::div_mod::lemma_mod_add_multiples_vanish(write as int, len as int);
        vstd::arithmetic::div_mod::lemma_small_mod(write, len);
    }
}

/// How far back the delay line reads for a requested delay: the delay, cut
/// to the longest the buffer holds.
pub open spec fn spec_delay_offset(len: nat, delay_samples: usize) -> nat {
    if delay_samples < len - 1 { delay_samples as nat } else { (len - 1) as nat }
}

} // verus!
