//! Internet radio: stations, streaming, decoding and playback.

pub mod connection;
pub mod decode;
pub mod error;
pub mod music_player;
pub mod playback;
pub mod radio_buffer;
pub mod radio_stream;
pub mod resample;
pub mod stream;
