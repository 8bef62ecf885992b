//! Chord generation: note names and their frequencies, the spectral partials
//! that each waveform contributes for a note, and the WAV file framing.

pub mod generate;
pub mod morph;
pub mod note;
pub mod wav;
pub mod wave;

pub use generate::clamp_sample;
pub use morph::{check_chord_sizes, morph_notes, ChordError};
pub use note::{note_to_frequency, MorphNote, Note};
pub use wav::{wav_header, write_chunk, AVG_BYTES_PER_SECOND, SAMPLES_PER_SECOND};
pub use wave::{Partial, Wave};
