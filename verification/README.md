# jit_music

A hand-gesture music controller. A Python tracker prints the hands it sees
as JSON lines; the program reads them, turns hand motion into musical
decisions and plays a small synth.

- `src/` is the verified library (Verus): the JSON model and the reading of
  the tracker's messages (`json`, `tracking`), the preview frame's pixels
  (`preview`), finger counting (`gesture`),
  the performance state machine of loop changes, holds, samples and drops
  (`performance`), the parameters shared with the audio thread (`audio`) and
  the sequencer that decides what each audio frame plays (`sequencer`).
- `app/` is the program around it: the egui window, the tracker process,
  the cpal audio stream and every floating-point computation (pose analysis,
  the synth's signal path).
- `tests/` runs the library on concrete values.
