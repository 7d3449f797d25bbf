//! This is a library for generating fragmented MP4 that is playable via Media Source
//! Extensions.
//!
//! It holds the box model of ISO BMFF with its serializer, the adapters for the elementary
//! streams of H.264 and ADTS AAC, and the assembler that turns the PES packets of an MPEG-2
//! transport stream into an initialization segment and a media segment.
//!
//! # References
//!
//! - [ISO BMFF Byte Stream Format (Fragmented MP4)][fmp4]
//! - [Media Source Extensions][MSE]
//!
//! [fmp4]: https://w3c.github.io/media-source/isobmff-byte-stream-format.html
//! [MSE]: http://www.w3.org/TR/media-source/

use vstd::prelude::*;

pub use crate::error::{Error, ErrorKind};

pub mod aac;
pub mod avc;
pub mod error;
pub mod fmp4;
pub mod io;
pub mod mpeg2_ts;

verus! {

/// This crate specific `Result` type.
pub type Result<T, E = Error> = std::result::Result<T, E>;

} // verus!
