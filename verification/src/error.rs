//! Why an array could not be had from the source text, and why an image could
//! not be put together.

use crate::assemble::FirmwareField;
use vstd::prelude::*;

verus! {

/// Why no bytes came out of the source text for a named array.
#[derive(Debug, Clone, Copy, PartialEq, Eq, Structural)]
pub enum ExtractError {
    /// No byte was collected: the array is not declared, or it is empty.
    NotFound,
    /// A length is not the one that was declared or asked for.
    SizeMismatch { expected: usize, actual: usize },
    /// The compressed bytes did not decompress to the declared size.
    DecodeError,
}

/// Why no container came out of an assembly.
#[derive(Debug, Clone, Copy, PartialEq, Eq, Structural)]
pub enum AssembleError {
    /// The array of one field could not be had, or is not of the length that
    /// is fixed for the field.
    Field { field: FirmwareField, error: ExtractError },
    /// The signature block is no whole number of signatures, or holds none.
    InvalidSignatureCount,
    /// A size or an offset of the container does not fit in 32 bits.
    Overflow,
    /// The header is not of its fixed size, or the payload would begin inside
    /// the header.
    InvalidLayout,
}

/// A result that holds bytes, with the bytes as a sequence.
pub open spec fn bytes_of<E>(result: Result<Vec<u8>, E>) -> Result<Seq<u8>, E> {
    match result {
        Ok(bytes) => Ok(bytes@),
        Err(e) => Err(e),
    }
}

} // verus!
