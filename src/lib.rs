//! A small media server's request pipeline: routing of `GET /file/<name>`,
//! media kinds chosen by file extension, and byte-range delivery of video.
//! File and socket I/O stay with the caller; every decision is made here.

pub mod digits;
pub mod handle;
pub mod laws;
pub mod media;
pub mod range;
pub mod response;
pub mod route;

pub use digits::{parse_decimal, push_decimal};
pub use handle::{Plan, handle, store_path};
pub use media::{ImageFormat, MediaKind, media_kind};
pub use route::{Method, extension_start, path_segments};
pub use range::{CHUNK, ContentRange, range_start};
pub use response::{Body, ChunkRead, Notice, Response, create_error, not_routed, send_audio, send_image, send_video};
