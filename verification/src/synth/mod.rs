pub mod note;
pub mod oscillator;
pub mod parameter;
pub mod parametrs;
pub mod synthesizer;
pub mod wavetable;
