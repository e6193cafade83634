# oosc

A wavetable synthesizer for the terminal, whose core is verified with Verus.

- `src/` is the library. Its logic is proved against the contracts in its
  `requires` and `ensures` clauses:
  - `utils`: sample buffers, wavetable reading indices, clamping, the ADSR
    stage builder;
  - `synth`: notes held and released by an oscillator, parameters, wavetables,
    the synthesizer and its builder;
  - `midi`: live MIDI channel messages (parsed with midly), what a message asks
    the synthesizer to do, and which events of a MIDI file each playback pass
    hands out;
  - `ui`: the focus cursor of a container of components;
  - `callbacks`: writing stereo frames into the audio stream.
- `app/` is the program around it: floating-point signal processing
  (envelopes, oscillators, effects, filters), audio output with cpal, MIDI with
  midir, WAV recording with hound and the ratatui interface.
- `tests/` runs the library on concrete values.
