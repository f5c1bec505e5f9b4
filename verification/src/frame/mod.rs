//! Frames: the nine-byte header, the ten frame types and their codec.

pub mod continuation;
pub mod data;
pub mod flags;
pub mod goaway;
pub mod header;
pub mod headers;
pub mod http_frame;
pub mod ping;
pub mod priority;
pub mod push_promise;
pub mod rst_stream;
pub mod settings;
pub mod window_update;
