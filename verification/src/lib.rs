//! An incremental animated-GIF encoding engine.
//!
//! A caller opens a session with fixed canvas dimensions, submits RGBA
//! frames one at a time, finalizes the stream, and polls for the finished
//! GIF89a byte buffer. Encoding covers color quantization, per-frame delta
//! planning, and serialization of the GIF container with LZW-coded pixel
//! data.

pub mod coordinator;
pub mod encode;
pub mod lzw;
pub mod plan;
pub mod quantize;
pub mod session;
pub mod types;
