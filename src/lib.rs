//! A codec for a length- and compression-framed binary network protocol:
//! variable-length integers, fixed-width primitives, length-prefixed
//! containers, discriminated enums, records built field by field, and the
//! outer packet frame with optional zlib compression.
//!
//! Every encoder and decoder is specified over byte sequences (`wire`), and
//! each decoder is proved to take back what its encoder writes (`laws`, and
//! `Codec::lemma_round_trip` for each type).
pub mod compose;
pub mod containers;
pub mod error;
pub mod inv;
pub mod laws;
pub mod nbt_blob;
pub mod packet;
pub mod protocol;
pub mod raw;
pub mod reader;
pub mod types;
pub mod wire;

pub use error::{Error, FormatError};
pub use reader::Reader;
