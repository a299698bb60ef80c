//! Fixed-buffer byte streams: a writer that lays integers, byte runs and
//! strings into a caller's buffer, and a reader that takes them back out.
//!
//! `encoding` holds the byte layouts both sides agree on and the laws that
//! tie a write to the read that follows it.

pub mod encoding;
pub mod stream_buf_reader;
pub mod stream_buf_writer;

pub use stream_buf_reader::StreamBufReader;
pub use stream_buf_writer::StreamBufWriter;
