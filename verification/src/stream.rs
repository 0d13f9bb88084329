//! Random-access byte streams over host-owned data.

pub mod blob_stream;
pub mod buffer_stream;
pub mod cursor;
pub mod laws;

pub use blob_stream::{BlobStream, ByteRange};
pub use buffer_stream::BufferStream;
pub use cursor::SeekFrom;
