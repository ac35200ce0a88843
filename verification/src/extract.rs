//! The array extractor: one pass over the lines of a source text that finds
//! the declaration of a named array, gathers its bytes and the sizes declared
//! for it, and hands out the decoded array.
//!
//! Markers apply to the array that is declared next. The pass never goes
//! back: a marker counts from the line that holds it, and the bytes are those
//! between the declaration and the first line that ends the array.

use crate::error::{bytes_of, ExtractError};
use crate::inflate::{inflate, inflate_result};
use crate::text::{
    ascii, ascii_bytes, contains, find_marker_value, hex_tokens, lemma_line_break_bounds,
    line_at, line_slice, marker_value, next_line_start, occurs, push_hex_tokens, split_line,
};
use vstd::prelude::*;

verus! {

/// The line that ends an array holds this.
pub open spec fn end_marker() -> Seq<u8> {
    ascii("};"@)
}

/// A line with this says that the next array is not compressed.
pub open spec fn plain_marker() -> Seq<u8> {
    ascii("COMPRESSION: NO"@)
}

/// A line with this says that the next array is compressed.
pub open spec fn compressed_marker() -> Seq<u8> {
    ascii("COMPRESSION: YES"@)
}

/// The label of the marker that declares the size of the decoded array.
pub open spec fn data_size_label() -> Seq<u8> {
    ascii("DATA SIZE (bytes): "@)
}

/// The label of the marker that declares the size of the compressed bytes.
pub open spec fn compressed_size_label() -> Seq<u8> {
    ascii("COMPRESSED SIZE (bytes): "@)
}

/// What the line that declares the array `symbol` holds. The name is not
/// closed off: the declaration of a longer name that begins with `symbol`
/// holds it too.
pub open spec fn declaration(symbol: Seq<u8>) -> Seq<u8> {
    ascii("static BINDATA_CONST NvU8 "@) + symbol
}

fn end_marker_bytes() -> (bytes: &'static [u8])
    ensures
        bytes@ == end_marker(),
{
    proof {
        reveal_strlit("};");
    }
    ascii_bytes("};")
}

fn plain_marker_bytes() -> (bytes: &'static [u8])
    ensures
        bytes@ == plain_marker(),
{
    proof {
        reveal_strlit("COMPRESSION: NO");
    }
    ascii_bytes("COMPRESSION: NO")
}

fn compressed_marker_bytes() -> (bytes: &'static [u8])
    ensures
        bytes@ == compressed_marker(),
{
    proof {
        reveal_strlit("COMPRESSION: YES");
    }
    ascii_bytes("COMPRESSION: YES")
}

fn data_size_label_bytes() -> (bytes: &'static [u8])
    ensures
        bytes@ == data_size_label(),
{
    proof {
        reveal_strlit("DATA SIZE (bytes): ");
    }
    ascii_bytes("DATA SIZE (bytes): ")
}

fn compressed_size_label_bytes() -> (bytes: &'static [u8])
    ensures
        bytes@ == compressed_size_label(),
{
    proof {
        reveal_strlit("COMPRESSED SIZE (bytes): ");
    }
    ascii_bytes("COMPRESSED SIZE (bytes): ")
}

/// The bytes that the line that declares `symbol` holds.
pub fn declaration_of(symbol: &[u8]) -> (bytes: Vec<u8>)
    ensures
        bytes@ == declaration(symbol@),
{
    proof {
        reveal_strlit("static BINDATA_CONST NvU8 ");
    }
    let mut bytes: Vec<u8> = Vec::new();
    bytes.extend_from_slice(ascii_bytes("static BINDATA_CONST NvU8 "));
    bytes.extend_from_slice(symbol);
    bytes
}

/// How far the pass has come.
#[derive(Debug, Clone, Copy, PartialEq, Eq, Structural)]
pub enum Phase {
    /// Before the declaration: markers are read, the declaration is looked for.
    Seeking,
    /// Behind the declaration: bytes are gathered.
    Collecting,
    /// Behind the end of the array: nothing is read any more.
    Finished,
}

/// An array as the source text holds it, before it is decoded.
#[derive(Debug, PartialEq, Eq)]
pub struct SourceArray {
    /// Whether the bytes are a compressed stream.
    pub is_compressed: bool,
    /// The declared length of the decoded array.
    pub declared_size: usize,
    /// The declared length of the compressed bytes. It counts only where the
    /// array is compressed.
    pub declared_compressed_size: usize,
    /// The bytes as written in the text.
    pub raw_bytes: Vec<u8>,
}

/// What a `SourceArray` holds, as plain values.
pub ghost struct ArrayModel {
    pub is_compressed: bool,
    pub declared_size: usize,
    pub declared_compressed_size: usize,
    pub raw_bytes: Seq<u8>,
}

impl View for SourceArray {
    type V = ArrayModel;

    open spec fn view(&self) -> ArrayModel {
        ArrayModel {
            is_compressed: self.is_compressed,
            declared_size: self.declared_size,
            declared_compressed_size: self.declared_compressed_size,
            raw_bytes: self.raw_bytes@,
        }
    }
}

/// The state of the pass between two lines.
#[derive(Debug, PartialEq, Eq)]
pub struct Scanner {
    pub phase: Phase,
    pub array: SourceArray,
}

/// What a `Scanner` holds, as plain values.
pub ghost struct ScanState {
    pub phase: Phase,
    pub array: ArrayModel,
}

impl View for Scanner {
    type V = ScanState;

    open spec fn view(&self) -> ScanState {
        ScanState { phase: self.phase, array: self.array@ }
    }
}

/// The state before the first line: nothing is declared, nothing gathered.
pub open spec fn initial_state() -> ScanState {
    ScanState {
        phase: Phase::Seeking,
        array: ArrayModel {
            is_compressed: false,
            declared_size: 0,
            declared_compressed_size: 0,
            raw_bytes: Seq::empty(),
        },
    }
}

/// The state after a line that is read before the declaration. A line counts
/// as the first of these that it is: a compression marker, a size marker, the
/// declaration.
pub open spec fn after_seeking(array: ArrayModel, line: Seq<u8>, declaration: Seq<u8>)
    -> ScanState {
    if occurs(line, plain_marker()) {
        ScanState { phase: Phase::Seeking, array: ArrayModel { is_compressed: false, ..array } }
    } else if occurs(line, compressed_marker()) {
        ScanState { phase: Phase::Seeking, array: ArrayModel { is_compressed: true, ..array } }
    } else if let Some(size) = marker_value(line, data_size_label()) {
        ScanState { phase: Phase::Seeking, array: ArrayModel { declared_size: size, ..array } }
    } else if let Some(size) = marker_value(line, compressed_size_label()) {
        ScanState {
            phase: Phase::Seeking,
            array: ArrayModel { declared_compressed_size: size, ..array },
        }
    } else if occurs(line, declaration) {
        ScanState { phase: Phase::Collecting, array }
    } else {
        ScanState { phase: Phase::Seeking, array }
    }
}

/// The state after a line that is read behind the declaration: the array
/// ends with the line, or the line's byte tokens join the bytes.
pub open spec fn after_collecting(array: ArrayModel, line: Seq<u8>) -> ScanState {
    if occurs(line, end_marker()) {
        ScanState { phase: Phase::Finished, array }
    } else {
        ScanState {
            phase: Phase::Collecting,
            array: ArrayModel { raw_bytes: array.raw_bytes + hex_tokens(line), ..array },
        }
    }
}

/// The state after one more line.
pub open spec fn after_line(state: ScanState, line: Seq<u8>, declaration: Seq<u8>) -> ScanState {
    match state.phase {
        Phase::Seeking => after_seeking(state.array, line, declaration),
        Phase::Collecting => after_collecting(state.array, line),
        Phase::Finished => state,
    }
}

/// The state after all the lines of `text` from byte `start` on.
pub open spec fn after_lines(text: Seq<u8>, declaration: Seq<u8>, start: int, state: ScanState)
    -> ScanState
    decreases text.len() - start,
    via after_lines_terminates
{
    if start < 0 || start >= text.len() {
        state
    } else {
        after_lines(
            text,
            declaration,
            next_line_start(text, start),
            after_line(state, line_at(text, start), declaration),
        )
    }
}

#[via_fn]
proof fn after_lines_terminates(
    text: Seq<u8>,
    declaration: Seq<u8>,
    start: int,
    state: ScanState,
) {
    if 0 <= start < text.len() {
        lemma_line_break_bounds(text, start);
    }
}

/// The array `symbol` as `text` holds it.
pub open spec fn located(text: Seq<u8>, symbol: Seq<u8>) -> ArrayModel {
    after_lines(text, declaration(symbol), 0, initial_state()).array
}

/// Nothing changes once the array has ended.
pub proof fn lemma_finished_stays(
    text: Seq<u8>,
    declaration: Seq<u8>,
    start: int,
    state: ScanState,
)
    requires
        state.phase == Phase::Finished,
    ensures
        after_lines(text, declaration, start, state) == state,
    decreases text.len() - start,
{
    if 0 <= start < text.len() {
        lemma_line_break_bounds(text, start);
        lemma_finished_stays(text, declaration, next_line_start(text, start), state);
    }
}

impl Scanner {
    /// The scanner before the first line.
    pub fn new() -> (scanner: Scanner)
        ensures
            scanner@ == initial_state(),
    {
        Scanner {
            phase: Phase::Seeking,
            array: SourceArray {
                is_compressed: false,
                declared_size: 0,
                declared_compressed_size: 0,
                raw_bytes: Vec::new(),
            },
        }
    }

    /// Reads one line. `declaration` is what the line that declares the
    /// array holds.
    pub fn step(self, line: &[u8], declaration: &[u8]) -> (next: Scanner)
        ensures
            next@ == after_line(self@, line@, declaration@),
    {
        let mut next = self;
        match next.phase {
            Phase::Seeking => {
                if contains(line, plain_marker_bytes()) {
                    next.array.is_compressed = false;
                } else if contains(line, compressed_marker_bytes()) {
                    next.array.is_compressed = true;
                } else if let Some(size) = find_marker_value(line, data_size_label_bytes()) {
                    next.array.declared_size = size;
                } else if let Some(size) = find_marker_value(
                    line,
                    compressed_size_label_bytes(),
                ) {
                    next.array.declared_compressed_size = size;
                } else if contains(line, declaration) {
                    next.phase = Phase::Collecting;
                }
            },
            Phase::Collecting => {
                if contains(line, end_marker_bytes()) {
                    next.phase = Phase::Finished;
                } else {
                    push_hex_tokens(line, &mut next.array.raw_bytes);
                }
            },
            Phase::Finished => {},
        }
        next
    }
}

/// Reads `text` line by line and returns the array `symbol` as the text
/// holds it: the bytes written between its declaration and the end of the
/// array, and what the markers before the declaration say of it.
pub fn locate(text: &[u8], symbol: &[u8]) -> (array: SourceArray)
    ensures
        array@ == located(text@, symbol@),
{
    let wanted = declaration_of(symbol);
    let mut scanner = Scanner::new();
    let mut start: usize = 0;
    while start < text.len()
        invariant
            start <= text@.len(),
            wanted@ == declaration(symbol@),
            after_lines(text@, wanted@, start as int, scanner@) == after_lines(
                text@,
                wanted@,
                0,
                initial_state(),
            ),
        ensures
            scanner@ == after_lines(text@, wanted@, 0, initial_state()),
        decreases text@.len() - start,
    {
        if scanner.phase == Phase::Finished {
            proof {
                lemma_finished_stays(text@, wanted@, start as int, scanner@);
            }
            break ;
        }
        let bounds = split_line(text, start);
        let line = line_slice(text, start, bounds.0);
        scanner = scanner.step(line, wanted.as_slice());
        start = bounds.1;
    }
    scanner.array
}

/// The bytes, where their number is the one asked for.
pub open spec fn sized(bytes: Seq<u8>, expected_size: Option<usize>) -> Result<
    Seq<u8>,
    ExtractError,
> {
    match expected_size {
        Some(size) => if bytes.len() == size {
            Ok(bytes)
        } else {
            Err(ExtractError::SizeMismatch { expected: size, actual: bytes.len() as usize })
        },
        None => Ok(bytes),
    }
}

/// What an array decodes to. An array without bytes was not found. The bytes
/// of a compressed array are as many as the compressed size declares and
/// decompress to the declared size; those of a plain array are as many as the
/// declared size. The decoded bytes are as many as were asked for.
pub open spec fn decoded(array: ArrayModel, expected_size: Option<usize>) -> Result<
    Seq<u8>,
    ExtractError,
> {
    if array.raw_bytes.len() == 0 {
        Err(ExtractError::NotFound)
    } else if array.is_compressed {
        if array.raw_bytes.len() != array.declared_compressed_size {
            Err(
                ExtractError::SizeMismatch {
                    expected: array.declared_compressed_size,
                    actual: array.raw_bytes.len() as usize,
                },
            )
        } else {
            match inflate_result(array.raw_bytes, array.declared_size as nat) {
                Ok(bytes) => sized(bytes, expected_size),
                Err(_) => Err(ExtractError::DecodeError),
            }
        }
    } else if array.raw_bytes.len() != array.declared_size {
        Err(
            ExtractError::SizeMismatch {
                expected: array.declared_size,
                actual: array.raw_bytes.len() as usize,
            },
        )
    } else {
        sized(array.raw_bytes, expected_size)
    }
}

/// What `extract` returns for the array `symbol` of `text`.
pub open spec fn extracted(text: Seq<u8>, symbol: Seq<u8>, expected_size: Option<usize>)
    -> Result<Seq<u8>, ExtractError> {
    decoded(located(text, symbol), expected_size)
}

fn check_size(bytes: Vec<u8>, expected_size: Option<usize>) -> (result: Result<
    Vec<u8>,
    ExtractError,
>)
    ensures
        bytes_of(result) == sized(bytes@, expected_size),
{
    match expected_size {
        Some(size) => {
            if bytes.len() == size {
                Ok(bytes)
            } else {
                Err(ExtractError::SizeMismatch { expected: size, actual: bytes.len() })
            }
        },
        None => Ok(bytes),
    }
}

impl SourceArray {
    /// Decodes the array and holds the result to its declared size and to
    /// `expected_size`, where one is given.
    pub fn decode(self, expected_size: Option<usize>) -> (result: Result<Vec<u8>, ExtractError>)
        ensures
            bytes_of(result) == decoded(self@, expected_size),
            result matches Ok(bytes) ==> {
                &&& bytes@.len() == self.declared_size
                &&& expected_size matches Some(size) ==> bytes@.len() == size
                &&& self.is_compressed ==> self.raw_bytes@.len() == self.declared_compressed_size
                &&& !self.is_compressed ==> bytes@ == self.raw_bytes@
            },
    {
        if self.raw_bytes.len() == 0 {
            return Err(ExtractError::NotFound);
        }
        if self.is_compressed {
            if self.raw_bytes.len() != self.declared_compressed_size {
                return Err(
                    ExtractError::SizeMismatch {
                        expected: self.declared_compressed_size,
                        actual: self.raw_bytes.len(),
                    },
                );
            }
            match inflate(self.raw_bytes.as_slice(), self.declared_size) {
                Ok(bytes) => check_size(bytes, expected_size),
                Err(_) => Err(ExtractError::DecodeError),
            }
        } else {
            if self.raw_bytes.len() != self.declared_size {
                return Err(
                    ExtractError::SizeMismatch {
                        expected: self.declared_size,
                        actual: self.raw_bytes.len(),
                    },
                );
            }
            check_size(self.raw_bytes, expected_size)
        }
    }
}

/// Extracts the array `array_symbol` from `source_text`.
///
/// The result is the decoded array. It is `NotFound` where no byte was
/// gathered for the symbol, `SizeMismatch` where the bytes in the text are
/// not as many as declared or the decoded bytes not as many as
/// `expected_size` asks, and `DecodeError` where a compressed array does not
/// decompress to its declared size.
pub fn extract(source_text: &[u8], array_symbol: &[u8], expected_size: Option<usize>) -> (result:
    Result<Vec<u8>, ExtractError>)
    ensures
        bytes_of(result) == extracted(source_text@, array_symbol@, expected_size),
        result matches Ok(bytes) ==> (expected_size matches Some(size) ==> bytes@.len() == size),
{
    locate(source_text, array_symbol).decode(expected_size)
}

/// Two extractions of one symbol from one text give the same result.
pub proof fn lemma_extract_is_repeatable(
    source_text: Seq<u8>,
    array_symbol: Seq<u8>,
    expected_size: Option<usize>,
    first: Result<Seq<u8>, ExtractError>,
    second: Result<Seq<u8>, ExtractError>,
)
    requires
        first == extracted(source_text, array_symbol, expected_size),
        second == extracted(source_text, array_symbol, expected_size),
    ensures
        first == second,
{
}

/// Asking for a size changes nothing but this: an array that is extracted
/// with another number of bytes fails with a size mismatch that names both
/// numbers. An array that cannot be extracted fails in the same way whether
/// a size is asked for or not.
pub proof fn lemma_expected_size(
    source_text: Seq<u8>,
    array_symbol: Seq<u8>,
    expected_size: usize,
)
    ensures
        extracted(source_text, array_symbol, Some(expected_size)) == (match extracted(
            source_text,
            array_symbol,
            None,
        ) {
            Ok(bytes) => if bytes.len() == expected_size {
                Ok(bytes)
            } else {
                Err(
                    ExtractError::SizeMismatch {
                        expected: expected_size,
                        actual: bytes.len() as usize,
                    },
                )
            },
            Err(e) => Err(e),
        }),
{
}

} // verus!
