pub mod stream_renderer;
pub mod stream_callback;
