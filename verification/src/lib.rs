//! A self-describing binary container: a preamble, a run of tagged,
//! length-prefixed entries, an end marker and a BLAKE3 digest of all of it.
//!
//! The encoder and the decoder work on bytes in memory, so that every layout
//! rule is stated over sequences of bytes and proved. Files are the caller's
//! business: the encoder hands out the bytes that it produces, the decoder
//! takes the bytes of a container.
//!
//! - [`info`]: the parameters of a container, validated.
//! - [`format`]: the layout, as functions on sequences of bytes.
//! - [`writer`], [`reader`]: the fields of the layout, written to the end of
//!   a buffer and read from a file image.
//! - [`encoder`], [`decoder`]: [`SnowBinWriter`] and [`SnowBinReader`].
//! - [`laws`]: what the decoder finds in what the encoder produced.
//! - [`hash`]: the calls into the `blake3` crate.
//! - [`legacy`]: the preamble of the first version of the format.

pub mod decoder;
pub mod encoder;
pub mod error;
pub mod format;
pub mod hash;
pub mod info;
pub mod laws;
pub mod legacy;
pub mod reader;
pub mod writer;

pub use crate::decoder::SnowBinReader;
pub use crate::encoder::SnowBinWriter;
pub use crate::error::SnowBinError;
pub use crate::info::SnowBinInfo;
pub use crate::info::VERSION_SPEC;
