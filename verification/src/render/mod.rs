pub mod stream_renderer;
