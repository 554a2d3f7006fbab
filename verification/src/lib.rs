//! Byte streams: a lazy sequence of fallible chunks, read either as a stream
//! of chunks, through a non-blocking reader or through a blocking reader.
//!
//! The readers' logic is verified against a mathematical model of one read
//! attempt; what the `bytes`, `futures` and `tokio` crates do is assumed, item
//! by item, in the modules that declare them.

pub mod blocking;
pub mod chunk;
pub mod laws;
pub mod model;
pub mod reader;
pub mod runs;
pub mod session;
pub mod source;
pub mod stream;
pub mod target;
pub mod task;

pub use blocking::ImplBlockingRead;
pub use reader::ImplAsyncRead;
pub use source::ChunkSource;
pub use source::Pulled;
pub use stream::ByteStream;
pub use task::Polled;
