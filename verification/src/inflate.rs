//! Decompression of a raw deflate stream to a length known beforehand.

use crate::error::bytes_of;
use vstd::prelude::*;

verus! {

/// The error with which `flate2` rejects a corrupt stream. Nothing is known
/// of what it holds.
#[verifier::external_type_specification]
#[verifier::external_body]
pub struct ExDecompressError(flate2::DecompressError);

/// The compressed bytes did not decompress to the size that was asked for.
#[derive(Debug, Clone, Copy, PartialEq, Eq, Structural)]
pub struct DecodeError;

/// How a decoder came to stop.
#[derive(Debug, Clone, Copy, PartialEq, Eq, Structural)]
pub enum InflateStatus {
    /// It did some work and may go on with more input or more room.
    Progress,
    /// It cannot go on: the input or the room for its output has run out.
    Stalled,
    /// It reached the end of the stream.
    StreamEnd,
}

/// What a raw deflate decoder does with `compressed` as its whole input and
/// an output buffer of `room` bytes: the bytes that it wrote and whether it
/// reached the end of the stream, or `None` where it found the stream
/// corrupt.
pub uninterp spec fn inflated(compressed: Seq<u8>, room: nat) -> Option<(Seq<u8>, bool)>;

/// The largest output that is ever asked of the decoder: no buffer is larger.
pub open spec fn max_room() -> nat {
    (usize::MAX / 2) as nat
}

/// Runs `flate2::Decompress::decompress` once, on a fresh decoder for streams
/// without a zlib header, with `compressed` as input, a zeroed buffer of `room`
/// bytes as output and `FlushDecompress::Finish`; the buffer is then cut to
/// `total_out()`, the number of bytes that the decoder wrote. The outcome is a
/// function of the input and of the buffer's length alone, which is all that
/// the contract claims: it gives that outcome its name.
#[verifier::external_body]
fn raw_inflate(compressed: &[u8], room: usize) -> (outcome: Result<
    (Vec<u8>, InflateStatus),
    flate2::DecompressError,
>)
    requires
        room <= max_room(),
    ensures
        match outcome {
            Ok(done) => inflated(compressed@, room as nat) == Some(
                (done.0@, done.1 == InflateStatus::StreamEnd),
            ),
            Err(_) => inflated(compressed@, room as nat) is None,
        },
{
    let mut out = vec![0u8; room];
    let mut decoder = flate2::Decompress::new(false);
    let status = match decoder.decompress(compressed, &mut out, flate2::FlushDecompress::Finish)? {
        flate2::Status::Ok => InflateStatus::Progress,
        flate2::Status::BufError => InflateStatus::Stalled,
        flate2::Status::StreamEnd => InflateStatus::StreamEnd,
    };
    out.truncate(decoder.total_out() as usize);
    Ok((out, status))
}

/// What is made of a decoder's outcome: its bytes where it reached the end of
/// the stream and wrote exactly `expected` bytes, and a decode error in every
/// other case.
pub open spec fn checked_inflated(outcome: Option<(Seq<u8>, bool)>, expected: nat) -> Result<
    Seq<u8>,
    DecodeError,
> {
    match outcome {
        Some(done) => if done.1 && done.0.len() == expected {
            Ok(done.0)
        } else {
            Err(DecodeError)
        },
        None => Err(DecodeError),
    }
}

/// What `compressed` decompresses to when `expected` bytes are asked for.
pub open spec fn inflate_result(compressed: Seq<u8>, expected: nat) -> Result<
    Seq<u8>,
    DecodeError,
> {
    if expected > max_room() {
        Err(DecodeError)
    } else {
        checked_inflated(inflated(compressed, expected), expected)
    }
}

/// A decoder's outcome as plain values.
pub open spec fn outcome_of(outcome: Option<(Vec<u8>, InflateStatus)>) -> Option<(Seq<u8>, bool)> {
    match outcome {
        Some(done) => Some((done.0@, done.1 == InflateStatus::StreamEnd)),
        None => None,
    }
}

/// Accepts a decoder's outcome where the decoder reached the end of the
/// stream and wrote exactly `expected` bytes. `None` stands for a stream that
/// the decoder found corrupt.
pub fn check_inflated(outcome: Option<(Vec<u8>, InflateStatus)>, expected: usize) -> (result:
    Result<Vec<u8>, DecodeError>)
    ensures
        bytes_of(result) == checked_inflated(outcome_of(outcome), expected as nat),
{
    match outcome {
        Some(done) => {
            if done.1 == InflateStatus::StreamEnd && done.0.len() == expected {
                Ok(done.0)
            } else {
                Err(DecodeError)
            }
        },
        None => Err(DecodeError),
    }
}

/// Decompresses the raw deflate stream `compressed` to exactly
/// `expected_output_size` bytes.
///
/// The decoder gets room for `expected_output_size` bytes and no more. The
/// result is a decode error where it rejects the stream, where the stream
/// goes on behind the room it was given, where the stream ends before that
/// many bytes are written, and where more bytes are asked for than a buffer
/// can hold.
pub fn inflate(compressed: &[u8], expected_output_size: usize) -> (result: Result<
    Vec<u8>,
    DecodeError,
>)
    ensures
        bytes_of(result) == inflate_result(compressed@, expected_output_size as nat),
        result matches Ok(out) ==> out@.len() == expected_output_size,
{
    if expected_output_size > usize::MAX / 2 {
        return Err(DecodeError);
    }
    match raw_inflate(compressed, expected_output_size) {
        Ok(done) => check_inflated(Some(done), expected_output_size),
        Err(_) => check_inflated(None, expected_output_size),
    }
}

} // verus!
