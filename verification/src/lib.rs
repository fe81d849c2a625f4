//! Hand-gesture music controller: the verified core.
//!
//! The tracker reports hands as JSON lines; `json` models such values and
//! `tracking` reads hands and preview frames out of them; `preview` decodes
//! a preview frame into pixels. `gesture` counts
//! raised fingers and `performance` turns each frame's hand motion into
//! musical decisions (loop changes, held builds, samples, drops). `audio`
//! holds the parameters shared with the audio thread, and `sequencer` decides
//! what each audio frame plays: step, notes, drums, triggered sounds, noise
//! and the delay line's positions.

pub mod audio;
pub mod gesture;
pub mod json;
pub mod performance;
pub mod preview;
pub mod sequencer;
pub mod tracking;

