use jit_music::audio::SharedAudioState;
use jit_music::gesture::{count_extended_fingers, finger_tip_and_joint};
use jit_music::sequencer::{
    bass_offset, clamp_loop_index, lead_offset, loop_name, next_noise_bits, DelayCursor, Sequencer,
};

#[test]
fn loop_names_and_clamp() {
    assert_eq!(loop_name(0), "Deep House");
    assert_eq!(loop_name(3), "Drop");
    assert_eq!(clamp_loop_index(2), 2);
    assert_eq!(clamp_loop_index(7), 3);
}

#[test]
fn pattern_lookups() {
    assert_eq!(bass_offset(0, 2), 3);
    assert_eq!(bass_offset(3, 10), 14);
    assert_eq!(lead_offset(1, 14), 19);
    assert_eq!(lead_offset(2, 0), 4);
}

#[test]
fn first_frame_starts_on_the_downbeat() {
    let mut seq = Sequencer::new();
    let f = seq.advance(0, 0, 0, 0);
    assert_eq!(f.step, 0);
    assert!(f.kick && !f.clap && !f.hat && !f.sample && !f.drop);
    assert_eq!(f.bass_note, 36);
    assert_eq!(f.lead_note, 72);
}

#[test]
fn repeated_frame_plays_nothing_new() {
    let mut seq = Sequencer::new();
    seq.advance(4, 1, 3, 5);
    let again = seq.advance(4, 1, 3, 5);
    assert!(!again.kick && !again.clap && !again.hat && !again.sample && !again.drop);
    assert_eq!(again.bass_note, 36 + 10);
}

#[test]
fn one_bar_of_drums() {
    let mut seq = Sequencer::new();
    let mut kicks = Vec::new();
    let mut claps = Vec::new();
    let mut hats = Vec::new();
    for i in 0..16u64 {
        let f = seq.advance(i, 0, 0, 0);
        if f.kick {
            kicks.push(f.step);
        }
        if f.clap {
            claps.push(f.step);
        }
        if f.hat {
            hats.push(f.step);
        }
    }
    assert_eq!(kicks, vec![0, 4, 8, 12]);
    assert_eq!(claps, vec![4, 12]);
    assert_eq!(hats, vec![1, 3, 5, 7, 9, 11, 13, 15]);
}

#[test]
fn steps_wrap_round_the_bar_and_loops_clamp() {
    let mut seq = Sequencer::new();
    let f = seq.advance(35, 9, 0, 0);
    assert_eq!(f.step, 3);
    assert_eq!(f.bass_note, 36 + 0);
    assert_eq!(f.lead_note, 60 + 12);
}

#[test]
fn trigger_changes_play_once() {
    let mut seq = Sequencer::new();
    let f = seq.advance(0, 0, 1, 0);
    assert!(f.sample && !f.drop);
    let g = seq.advance(0, 0, 1, 2);
    assert!(!g.sample && g.drop);
    let h = seq.advance(1, 0, 1, 2);
    assert!(!h.sample && !h.drop);
}

#[test]
fn noise_generator_steps() {
    let mut seed: u32 = 0x1234_5678;
    let level = next_noise_bits(&mut seed);
    assert_eq!(seed, 1967335287);
    assert_eq!(level, 30019);
    let mut zero: u32 = 0;
    assert_eq!(next_noise_bits(&mut zero), 15470);
    assert_eq!(zero, 1013904223);
}

#[test]
fn delay_cursor_reads_behind_writes() {
    let mut cursor = DelayCursor::new(10);
    assert_eq!(cursor.len(), 10);
    assert_eq!(cursor.write_index(), 0);
    assert_eq!(cursor.read_index(3), 7);
    cursor.advance();
    assert_eq!(cursor.write_index(), 1);
    assert_eq!(cursor.read_index(100), 2);
    assert_eq!(cursor.read_index(0), 1);
    for _ in 0..9 {
        cursor.advance();
    }
    assert_eq!(cursor.write_index(), 0);
}

#[test]
fn fingers_add_up() {
    assert_eq!(count_extended_fingers(&[true, false, true, true], true), 4);
    assert_eq!(count_extended_fingers(&[false; 4], false), 0);
    assert_eq!(count_extended_fingers(&[true; 4], true), 5);
    assert_eq!(finger_tip_and_joint(0), (8, 6));
    assert_eq!(finger_tip_and_joint(3), (20, 18));
}

#[test]
fn shared_state_carries_values() {
    let shared = SharedAudioState::new(1, 2, 3, 4, 5, 2);
    assert_eq!(shared.master_volume_bits(), 1);
    assert_eq!(shared.dial_bits(), 5);
    assert_eq!(shared.loop_index(), 2);
    assert!(!shared.hold());
    shared.set_loop_index(3);
    shared.set_hold(true);
    shared.trigger_sample();
    shared.trigger_sample();
    shared.trigger_drop();
    assert_eq!(shared.loop_index(), 3);
    assert!(shared.hold());
    assert_eq!(shared.sample_trigger(), 2);
    assert_eq!(shared.drop_trigger(), 1);
    shared.set_filter_cutoff_bits(0.5f32.to_bits());
    assert_eq!(f32::from_bits(shared.filter_cutoff_bits()), 0.5);
}
