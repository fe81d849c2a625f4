//! Counting the fingers a hand holds up.
//!
//! Whether one finger is up is a comparison of landmark coordinates, made
//! where the coordinates are floating point; what is decided here is which
//! landmarks are compared and how the fingers add up.
use vstd::prelude::*;

verus! {

/// Number of fingers besides the thumb.
pub const FINGERS: usize = 4;

/// The landmarks of finger `finger` (0 for the index finger up to 3 for the
/// pinky): its tip and its middle joint. The finger is up when its tip lies
/// above the joint in the image.
pub fn finger_tip_and_joint(finger: usize) -> (res: (usize, usize))
    requires
        finger < FINGERS,
    ensures
        res.0 == 4 * finger + 8,
        res.1 == 4 * finger + 6,
{
    (4 * finger + 8, 4 * finger + 6)
}

/// Number of `true` entries of `flags`.
pub open spec fn count_true(flags: Seq<bool>) -> nat
    decreases flags.len(),
{
    if flags.len() == 0 {
        0
    } else {
        count_true(flags.drop_last()) + if flags.last() { 1nat } else { 0nat }
    }
}

/// How many fingers are up: one for each finger whose tip is above its
/// joint, and one more for an extended thumb.
pub fn count_extended_fingers(tip_above_joint: &[bool; 4], thumb_extended: bool) -> (count: usize)
    ensures
        count == count_true(tip_above_joint@) + if thumb_extended { 1nat } else { 0nat },
        count <= 5,
{
    let mut count: usize = 0;
    let mut i: usize = 0;
    while i < FINGERS
        invariant
            i <= FINGERS,
            count == count_true(tip_above_joint@.take(i as int)),
            count <= i,
        decreases FINGERS - i,
    {
        assert(tip_above_joint@.take(i + 1).drop_last() =~= tip_above_joint@.take(i as int));
        if tip_above_joint[i] {
            count = count + 1;
        }
        i = i + 1;
    }
    assert(tip_above_joint@.take(4) =~= tip_above_joint@);
    if thumb_extended {
        count = count + 1;
    }
    count
}

} // verus!
