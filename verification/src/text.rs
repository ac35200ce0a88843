//! What one line of the source text can hold: literal markers, decimal size
//! markers and hexadecimal byte tokens. Lines are byte strings; every marker
//! is plain ASCII.

use vstd::prelude::*;
use vstd::slice::slice_subrange;
use vstd::string::is_ascii;

verus! {

/// The bytes of a text that holds ASCII characters only.
pub open spec fn ascii(s: Seq<char>) -> Seq<u8> {
    Seq::new(s.len(), |i: int| s[i] as u8)
}

/// The bytes of an ASCII string.
pub(crate) fn ascii_bytes<'a>(s: &'a str) -> (bytes: &'a [u8])
    requires
        is_ascii(s),
    ensures
        bytes@ == ascii(s@),
{
    broadcast use vstd::string::is_ascii_spec_bytes;

    s.as_bytes()
}

/// Appends the bytes of an ASCII string to `out`.
pub(crate) fn push_ascii(out: &mut Vec<u8>, s: &str)
    requires
        is_ascii(s),
    ensures
        final(out)@ == old(out)@ + ascii(s@),
{
    out.extend_from_slice(ascii_bytes(s));
}

/// `pattern` stands in `line` at byte `i`.
pub open spec fn occurs_at(line: Seq<u8>, pattern: Seq<u8>, i: int) -> bool {
    &&& 0 <= i
    &&& i + pattern.len() <= line.len()
    &&& line.subrange(i, i + pattern.len()) == pattern
}

/// `pattern` stands somewhere in `line`.
pub open spec fn occurs(line: Seq<u8>, pattern: Seq<u8>) -> bool {
    exists|i: int| occurs_at(line, pattern, i)
}

/// Whether `pattern` stands in `line` at byte `i`.
pub fn matches_at(line: &[u8], pattern: &[u8], i: usize) -> (found: bool)
    requires
        i + pattern@.len() <= line@.len(),
    ensures
        found == occurs_at(line@, pattern@, i as int),
{
    let mut k: usize = 0;
    assert(line@.len() == line.len());
    while k < pattern.len()
        invariant
            k <= pattern@.len(),
            i + pattern@.len() <= line@.len() <= usize::MAX,
            forall|j: int| 0 <= j < k ==> line@[i + j] == pattern@[j],
        decreases pattern@.len() - k,
    {
        if line[i + k] != pattern[k] {
            return false;
        }
        k += 1;
    }
    assert(line@.subrange(i as int, i + pattern@.len()) =~= pattern@);
    true
}

/// Whether `pattern` stands somewhere in `line`.
pub fn contains(line: &[u8], pattern: &[u8]) -> (found: bool)
    ensures
        found == occurs(line@, pattern@),
{
    if pattern.len() > line.len() {
        return false;
    }
    let last: usize = line.len() - pattern.len();
    let mut i: usize = 0;
    while i < last
        invariant
            i <= last,
            last + pattern@.len() == line@.len(),
            forall|j: int| 0 <= j < i ==> !occurs_at(line@, pattern@, j),
        decreases last - i,
    {
        if matches_at(line, pattern, i) {
            return true;
        }
        i += 1;
    }
    matches_at(line, pattern, last)
}

/// A decimal digit.
pub open spec fn is_digit(b: u8) -> bool {
    0x30 <= b <= 0x39
}

/// A lower-case hexadecimal digit. Upper-case letters are none.
pub open spec fn is_hex_digit(b: u8) -> bool {
    (0x30 <= b <= 0x39) || (0x61 <= b <= 0x66)
}

/// What a hexadecimal digit counts.
pub open spec fn hex_digit_value(b: u8) -> int {
    if b <= 0x39 {
        b - 0x30
    } else {
        b - 0x61 + 10
    }
}

/// A byte token stands at byte `i`: the characters `0x`, two hexadecimal
/// digits, and one more byte that is no hexadecimal digit.
pub open spec fn hex_token_at(line: Seq<u8>, i: int) -> bool {
    &&& 0 <= i
    &&& i + 5 <= line.len()
    &&& line[i] == 0x30
    &&& line[i + 1] == 0x78
    &&& is_hex_digit(line[i + 2])
    &&& is_hex_digit(line[i + 3])
    &&& !is_hex_digit(line[i + 4])
}

/// The byte that the token at `i` writes down.
pub open spec fn hex_token_value(line: Seq<u8>, i: int) -> u8 {
    (16 * hex_digit_value(line[i + 2]) + hex_digit_value(line[i + 3])) as u8
}

/// The bytes of the tokens of `line` from byte `start` on, left to right.
/// A token uses up its five bytes: the next one is looked for behind it.
pub open spec fn hex_tokens_from(line: Seq<u8>, start: int) -> Seq<u8>
    decreases line.len() - start,
{
    if start < 0 || start + 5 > line.len() {
        Seq::empty()
    } else if hex_token_at(line, start) {
        seq![hex_token_value(line, start)] + hex_tokens_from(line, start + 5)
    } else {
        hex_tokens_from(line, start + 1)
    }
}

/// The bytes of all tokens of `line`.
pub open spec fn hex_tokens(line: Seq<u8>) -> Seq<u8> {
    hex_tokens_from(line, 0)
}

fn is_hex_digit_byte(b: u8) -> (hex: bool)
    ensures
        hex == is_hex_digit(b),
{
    (0x30 <= b && b <= 0x39) || (0x61 <= b && b <= 0x66)
}

fn hex_digit(b: u8) -> (value: u8)
    requires
        is_hex_digit(b),
    ensures
        value == hex_digit_value(b),
        value < 16,
{
    if b <= 0x39 {
        b - 0x30
    } else {
        b - 0x61 + 10
    }
}

/// Appends the bytes of all tokens of `line` to `out`.
pub fn push_hex_tokens(line: &[u8], out: &mut Vec<u8>)
    ensures
        final(out)@ == old(out)@ + hex_tokens(line@),
{
    let mut i: usize = 0;
    while i < line.len() && line.len() - i >= 5
        invariant
            i <= line@.len(),
            out@ + hex_tokens_from(line@, i as int) == old(out)@ + hex_tokens(line@),
        decreases line@.len() - i,
    {
        if line[i] == 0x30 && line[i + 1] == 0x78 && is_hex_digit_byte(line[i + 2])
            && is_hex_digit_byte(line[i + 3]) && !is_hex_digit_byte(line[i + 4]) {
            let value: u8 = 16 * hex_digit(line[i + 2]) + hex_digit(line[i + 3]);
            out.push(value);
            i += 5;
        } else {
            i += 1;
        }
    }
}

/// A size marker stands at byte `i`: `label`, and a decimal digit behind it.
pub open spec fn marker_at(line: Seq<u8>, label: Seq<u8>, i: int) -> bool {
    &&& occurs_at(line, label, i)
    &&& i + label.len() < line.len()
    &&& is_digit(line[i + label.len()])
}

/// `i` is where the leftmost size marker of `line` stands.
pub open spec fn first_marker_at(line: Seq<u8>, label: Seq<u8>, i: int) -> bool {
    &&& marker_at(line, label, i)
    &&& forall|j: int| 0 <= j < i ==> !marker_at(line, label, j)
}

/// `line` holds a size marker.
pub open spec fn has_marker(line: Seq<u8>, label: Seq<u8>) -> bool {
    exists|i: int| marker_at(line, label, i)
}

/// Where the digits of the leftmost size marker of `line` begin.
pub open spec fn marker_digits_start(line: Seq<u8>, label: Seq<u8>) -> int {
    (choose|i: int| first_marker_at(line, label, i)) + label.len()
}

/// Where the run of decimal digits that begins at `start` ends.
pub open spec fn digits_end(line: Seq<u8>, start: int) -> int
    decreases line.len() - start,
{
    if 0 <= start < line.len() && is_digit(line[start]) {
        digits_end(line, start + 1)
    } else {
        start
    }
}

/// The number that decimal digits write down.
pub open spec fn decimal_value(digits: Seq<u8>) -> nat
    decreases digits.len(),
{
    if digits.len() == 0 {
        0
    } else {
        10 * decimal_value(digits.drop_last()) + (digits.last() - 0x30) as nat
    }
}

/// `n`, or the largest `usize` where `n` is larger: no buffer has that length.
pub open spec fn saturated(n: nat) -> usize {
    if n > usize::MAX {
        usize::MAX
    } else {
        n as usize
    }
}

/// The size that the leftmost marker `label` of `line` declares: all the
/// decimal digits that follow the label, read as one number.
pub open spec fn marker_value(line: Seq<u8>, label: Seq<u8>) -> Option<usize> {
    if has_marker(line, label) {
        let start = marker_digits_start(line, label);
        Some(saturated(decimal_value(line.subrange(start, digits_end(line, start)))))
    } else {
        None
    }
}

fn is_digit_byte(b: u8) -> (digit: bool)
    ensures
        digit == is_digit(b),
{
    0x30 <= b && b <= 0x39
}

/// Reads the decimal number whose first digit stands at `start`.
fn read_decimal(line: &[u8], start: usize) -> (value: usize)
    requires
        start < line@.len(),
        is_digit(line@[start as int]),
    ensures
        value == saturated(
            decimal_value(line@.subrange(start as int, digits_end(line@, start as int))),
        ),
{
    let mut value: usize = 0;
    let mut i: usize = start;
    while i < line.len() && is_digit_byte(line[i])
        invariant
            start <= i <= line@.len(),
            forall|j: int| start <= j < i ==> is_digit(line@[j]),
            digits_end(line@, start as int) == digits_end(line@, i as int),
            value == saturated(decimal_value(line@.subrange(start as int, i as int))),
        decreases line@.len() - i,
    {
        let digit: usize = (line[i] - 0x30) as usize;
        proof {
            let run = line@.subrange(start as int, i + 1);
            assert(run.drop_last() =~= line@.subrange(start as int, i as int));
        }
        if value > (usize::MAX - digit) / 10 {
            value = usize::MAX;
        } else {
            value = value * 10 + digit;
        }
        i += 1;
    }
    value
}

/// The size that the leftmost marker `label` of `line` declares, if `line`
/// holds one.
pub fn find_marker_value(line: &[u8], label: &[u8]) -> (value: Option<usize>)
    ensures
        value == marker_value(line@, label@),
{
    if label.len() >= line.len() {
        return None;
    }
    let last: usize = line.len() - label.len() - 1;
    let mut i: usize = 0;
    while i <= last
        invariant
            i <= last + 1,
            last + label@.len() + 1 == line@.len() <= usize::MAX,
            forall|j: int| 0 <= j < i ==> !marker_at(line@, label@, j),
        decreases last + 1 - i,
    {
        if matches_at(line, label, i) && is_digit_byte(line[i + label.len()]) {
            assert(first_marker_at(line@, label@, i as int));
            let value = read_decimal(line, i + label.len());
            return Some(value);
        }
        i += 1;
    }
    None
}

/// Where the line that begins at `start` breaks: at its line feed, or at the
/// end of the text.
pub open spec fn line_break(text: Seq<u8>, start: int) -> int
    decreases text.len() - start,
{
    if start < 0 || start >= text.len() {
        text.len() as int
    } else if text[start] == 0x0a {
        start
    } else {
        line_break(text, start + 1)
    }
}

/// Where the line that begins at `start` ends. A line that a line feed closes
/// loses one carriage return before it.
pub open spec fn line_end(text: Seq<u8>, start: int) -> int {
    let stop = line_break(text, start);
    if stop < text.len() && start < stop && text[stop - 1] == 0x0d {
        stop - 1
    } else {
        stop
    }
}

/// The line that begins at `start`, without its line ending.
pub open spec fn line_at(text: Seq<u8>, start: int) -> Seq<u8> {
    text.subrange(start, line_end(text, start))
}

/// Where the line after the one that begins at `start` begins.
pub open spec fn next_line_start(text: Seq<u8>, start: int) -> int {
    let stop = line_break(text, start);
    if stop < text.len() {
        stop + 1
    } else {
        stop
    }
}

/// The bounds of a line break.
pub proof fn lemma_line_break_bounds(text: Seq<u8>, start: int)
    requires
        0 <= start <= text.len(),
    ensures
        start <= line_break(text, start) <= text.len(),
        start <= line_end(text, start) <= line_break(text, start),
        start < text.len() ==> start < next_line_start(text, start) <= text.len(),
    decreases text.len() - start,
{
    if start < text.len() && text[start] != 0x0a {
        lemma_line_break_bounds(text, start + 1);
    }
}

/// Finds the line that begins at `start`: where it ends, and where the next
/// one begins.
pub fn split_line(text: &[u8], start: usize) -> (bounds: (usize, usize))
    requires
        start < text@.len(),
    ensures
        bounds.0 == line_end(text@, start as int),
        bounds.1 == next_line_start(text@, start as int),
        start <= bounds.0 <= text@.len(),
        start < bounds.1 <= text@.len(),
{
    let mut stop: usize = start;
    while stop < text.len() && text[stop] != 0x0a
        invariant
            start <= stop <= text@.len(),
            line_break(text@, start as int) == line_break(text@, stop as int),
        decreases text@.len() - stop,
    {
        stop += 1;
    }
    proof {
        lemma_line_break_bounds(text@, start as int);
    }
    if stop < text.len() {
        if start < stop && text[stop - 1] == 0x0d {
            (stop - 1, stop + 1)
        } else {
            (stop, stop + 1)
        }
    } else {
        (stop, stop)
    }
}

/// The line of `text` between `start` and `end`.
pub fn line_slice<'a>(text: &'a [u8], start: usize, end: usize) -> (line: &'a [u8])
    requires
        start <= end <= text@.len(),
    ensures
        line@ == text@.subrange(start as int, end as int),
{
    slice_subrange(text, start, end)
}

} // verus!
