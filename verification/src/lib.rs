//! The verified core of the Wavetable Designer: the frame table and its
//! import/export, spectrum bin editing, the note picker, the monophonic MIDI
//! voice, the frame grid layout and WAV channel handling. Sample values are
//! generic; the plugin instantiates them with 32-bit floats.

pub mod app_state;
pub mod grid;
pub mod notes;
pub mod spectrum;
pub mod voice;
pub mod wav;
