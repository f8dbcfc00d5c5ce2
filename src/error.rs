use vstd::prelude::*;

verus! {

/// Malformed or out-of-range data found while decoding or refused while encoding.
#[derive(Debug, PartialEq, Eq)]
pub enum FormatError {
    /// A VarInt whose first five bytes all carry the continuation bit.
    VarIntTooLong,
    /// A VarLong whose first ten bytes all carry the continuation bit.
    VarLongTooLong,
    /// A boolean byte other than 0 or 1.
    NotABool(u8),
    /// String bytes that are not valid UTF-8.
    InvalidUtf8,
    /// A declared length below zero.
    NegativeLength(i64),
    /// A sequence length above the element cap.
    ArrayTooLarge(usize),
    /// A length that the prefix type cannot hold.
    LengthOutOfRange(usize),
    /// A string longer than its kind allows.
    StringTooLong { max: usize, len: usize },
    /// A compressed frame whose data length is below the active threshold.
    DataLengthBelowThreshold { data_length: i32, threshold: i32 },
    /// A compressed frame whose data length exceeds the protocol maximum.
    DataLengthAboveMaximum(i32),
    /// A compressed body that does not inflate to its declared length.
    DataLengthMismatch { declared: i32, actual: usize },
    /// A discriminant that matches no variant of the named enum.
    UnknownDiscriminant { name: &'static str, value: i64 },
    /// Bytes that do not form an NBT blob.
    InvalidNbt,
    /// An item id that names no item.
    UnknownItem(i32),
    /// A field that the value's other fields call for is absent.
    MissingField { container: &'static str, field: &'static str },
}

/// The error of every codec operation.
#[derive(Debug, PartialEq, Eq)]
pub enum Error {
    /// The input ended before the value did.
    UnexpectedEof,
    /// The data is malformed.
    Format(FormatError),
    /// The zlib stream could not be inflated or deflated.
    Compression,
    /// A field of a packet or enum variant failed to decode.
    Field { container: &'static str, field: &'static str, source: Box<Error> },
}

impl Error {
    /// The error with field annotations removed.
    pub open spec fn root(self) -> Error
        decreases self,
    {
        match self {
            Error::Field { source, .. } => (*source).root(),
            _ => self,
        }
    }

    /// Whether the error, under its field annotations, is a format error.
    pub fn is_format(&self) -> (r: bool)
        ensures
            r == (self.root() is Format),
        decreases self,
    {
        match self {
            Error::Format(_) => true,
            Error::Field { source, .. } => source.is_format(),
            _ => false,
        }
    }
}

} // verus!
