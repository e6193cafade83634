pub mod playback;
pub mod smf_extensions;
pub mod mediator;
