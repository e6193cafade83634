pub mod callbacks;
pub mod effects;
pub mod error;
pub mod midi;
pub mod render;
pub mod synth;
pub mod ui;
pub mod utils;
