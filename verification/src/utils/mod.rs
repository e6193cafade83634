pub mod adsr_envelope;
pub mod convert;
pub mod interpolation;
pub mod math;
pub mod sample_buffer;
