pub mod audio_frame;
pub mod audio_header;
pub mod error;
pub mod metadata;
