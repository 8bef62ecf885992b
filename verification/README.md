# chord_generator

Writes a `.wav` file holding a chord (sine, saw or square), or a morph that
glides each note of one chord to the note at the same place in another.

- `src/` is the verified library: note names and their frequencies
  (`note.rs`), the spectral partials each waveform adds for a note
  (`wave.rs`), the WAV header and chunk layout (`wav.rs`), the checks and
  note pairing of a morph (`morph.rs`), and the 16-bit sample range
  (`generate.rs`).
- `app/main.rs` is the command line: argument parsing, the floating-point
  synthesis (inverse FFT for chords, phase accumulation for morphs) and the
  file output.
- `tests/` runs the library on concrete values.
