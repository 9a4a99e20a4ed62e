use vstd::prelude::*;

verus! {

/// Why compression or decompression failed.
#[derive(Debug)]
pub enum AnyError {
    /// A failure described in words (an I/O error, a stage that stopped).
    String(String),
    /// The input of decompression does not begin with the stream header.
    CorruptHeader,
    /// A stage wrote to a queue whose reading side has gone.
    BrokenPipe,
}

/// The result of a fallible operation of the codec.
pub type AnyResult<T> = Result<T, AnyError>;

impl AnyError {
    /// An error described by `text`.
    pub fn from_string(text: &str) -> (r: AnyError)
        ensures
            r matches AnyError::String(s) && s@ == text@,
    {
        AnyError::String(text.to_owned())
    }

    /// Whether this is the header error.
    pub fn is_corrupt_header(&self) -> (r: bool)
        ensures
            r == (*self matches AnyError::CorruptHeader),
    {
        match self {
            AnyError::CorruptHeader => true,
            _ => false,
        }
    }
}

} // verus!
