//! Streaming zlib decompression into NOR flash for i.MX RT flash loaders.
//!
//! The core is [`inflate::Decompressor`]: it takes a length-prefixed,
//! arbitrarily chunked zlib stream, inflates it into a fixed staging buffer
//! and hands the staged bytes out page by page for programming.

pub mod bindings;
pub mod clock;
mod engine;
pub mod inflate;


pub use inflate::Decompressor;
pub use inflate::DecompressorError;
pub use inflate::DecompressorResult;
pub use inflate::OutBuffer;
pub use inflate::Step;
