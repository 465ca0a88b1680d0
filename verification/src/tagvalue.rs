//! Framing of tag-value encoded FIX messages.

pub mod config;
pub mod error;
pub mod header;
pub mod laws;
pub mod raw_decoder;
pub mod utils;

pub use config::{Config, Configure};
pub use error::DecodeError;
pub use header::HeaderInfo;
pub use raw_decoder::{AsBytes, RawDecoder, RawDecoderBuffered, RawFrame, Stage};
