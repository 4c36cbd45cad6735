//! Length-prefixed wire frames with optional gzip compression of large payloads.

pub mod buffer;
pub mod deflate;
pub mod frame;
pub mod header;

pub use header::{decode_header, encode_header, COMPRESSION_BIT, LEN_SIZE};
pub use frame::{decode_frame, encode_frame, FrameError, COMPRESSION_LIMIT, MAX_FRAME};
