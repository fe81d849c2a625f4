//! The parameters that the control thread hands to the audio thread.
//!
//! Each parameter sits in its own atomic, read and written with relaxed
//! ordering, so that neither thread ever waits for the other. The continuous
//! parameters travel as the bit patterns of their `f32` values.
use std::sync::atomic::{AtomicBool, AtomicU32, AtomicUsize};
use std::sync::atomic::Ordering;
use std::sync::Arc;
use vstd::prelude::*;

verus! {

/// Mailbox of the synth's parameters, shared between the control thread and
/// the audio callback.
///
/// Another thread may store into any field at any time, so nothing is said
/// here of what a read returns: it is the last value that some thread stored.
pub struct SharedAudioState {
    master_volume_bits: AtomicU32,
    filter_bits: AtomicU32,
    intensity_bits: AtomicU32,
    delay_wet_bits: AtomicU32,
    dial_bits: AtomicU32,
    loop_index: AtomicUsize,
    hold: AtomicBool,
    sample_trigger: AtomicU32,
    drop_trigger: AtomicU32,
}

impl SharedAudioState {
    /// A mailbox holding the given parameters (as `f32` bit patterns), with
    /// hold off and both trigger counters at zero.
    pub fn new(
        master_volume_bits: u32,
        filter_cutoff_bits: u32,
        intensity_bits: u32,
        delay_wet_bits: u32,
        dial_bits: u32,
        loop_index: usize,
    ) -> Arc<Self> {
        Arc::new(
            SharedAudioState {
                master_volume_bits: AtomicU32::new(master_volume_bits),
                filter_bits: AtomicU32::new(filter_cutoff_bits),
                intensity_bits: AtomicU32::new(intensity_bits),
                delay_wet_bits: AtomicU32::new(delay_wet_bits),
                dial_bits: AtomicU32::new(dial_bits),
                loop_index: AtomicUsize::new(loop_index),
                hold: AtomicBool::new(false),
                sample_trigger: AtomicU32::new(0),
                drop_trigger: AtomicU32::new(0),
            },
        )
    }

    /// The master volume's bit pattern.
    pub fn master_volume_bits(&self) -> u32 {
        self.master_volume_bits.load(Ordering::Relaxed)
    }

    /// The filter cutoff's bit pattern.
    pub fn filter_cutoff_bits(&self) -> u32 {
        self.filter_bits.load(Ordering::Relaxed)
    }

    /// The intensity's bit pattern.
    pub fn intensity_bits(&self) -> u32 {
        self.intensity_bits.load(Ordering::Relaxed)
    }

    /// The delay's wet level's bit pattern.
    pub fn delay_wet_bits(&self) -> u32 {
        self.delay_wet_bits.load(Ordering::Relaxed)
    }

    /// The dial's bit pattern.
    pub fn dial_bits(&self) -> u32 {
        self.dial_bits.load(Ordering::Relaxed)
    }

    /// The selected loop.
    pub fn loop_index(&self) -> usize {
        self.loop_index.load(Ordering::Relaxed)
    }

    /// Whether the build is being held.
    pub fn hold(&self) -> bool {
        self.hold.load(Ordering::Relaxed)
    }

    /// How many samples were triggered so far (wrapping).
    pub fn sample_trigger(&self) -> u32 {
        self.sample_trigger.load(Ordering::Relaxed)
    }

    /// How many drops were triggered so far (wrapping).
    pub fn drop_trigger(&self) -> u32 {
        self.drop_trigger.load(Ordering::Relaxed)
    }

    pub fn set_master_volume_bits(&self, value: u32) {
        self.master_volume_bits.store(value, Ordering::Relaxed);
    }

    pub fn set_filter_cutoff_bits(&self, value: u32) {
        self.filter_bits.store(value, Ordering::Relaxed);
    }

    pub fn set_intensity_bits(&self, value: u32) {
        self.intensity_bits.store(value, Ordering::Relaxed);
    }

    pub fn set_delay_wet_bits(&self, value: u32) {
        self.delay_wet_bits.store(value, Ordering::Relaxed);
    }

    pub fn set_dial_bits(&self, value: u32) {
        self.dial_bits.store(value, Ordering::Relaxed);
    }

    pub fn set_loop_index(&self, value: usize) {
        self.loop_index.store(value, Ordering::Relaxed);
    }

    pub fn set_hold(&self, value: bool) {
        self.hold.store(value, Ordering::Relaxed);
    }

    /// Counts one more sample trigger; the audio thread plays a sample
    /// whenever it sees the count change.
    pub fn trigger_sample(&self) {
        self.sample_trigger.fetch_add(1, Ordering::Relaxed);
    }

    /// Counts one more drop trigger; the audio thread plays a drop whenever
    /// it sees the count change.
    pub fn trigger_drop(&self) {
        self.drop_trigger.fetch_add(1, Ordering::Relaxed);
    }
}

} // verus!
