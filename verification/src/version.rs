//! Version numbers: what counts as one, and where the build description of
//! the source tree states it.
//!
//! The build description is read as UTF-8, byte by byte. A white-space
//! character can only begin where a character begins, since none of the bytes
//! that such a character begins with stands inside another character.

use crate::text::{
    ascii, ascii_bytes, is_digit, lemma_line_break_bounds, line_at, line_slice, matches_at,
    next_line_start, occurs_at, split_line,
};
use vstd::prelude::*;
use vstd::slice::slice_to_vec;

verus! {

/// A revision is made of numbers with dots between them, two numbers or more:
/// it is digits and dots only, begins and ends with a digit, holds a dot, and
/// no two dots stand side by side.
pub open spec fn is_revision(text: Seq<u8>) -> bool {
    &&& text.len() > 0
    &&& is_digit(text[0])
    &&& is_digit(text[text.len() - 1])
    &&& forall|i: int| 0 <= i < text.len() ==> is_digit(#[trigger] text[i]) || text[i] == 0x2e
    &&& forall|i: int| 0 < i < text.len() ==> !(#[trigger] text[i] == 0x2e && text[i - 1] == 0x2e)
    &&& exists|i: int| 0 <= i < text.len() && #[trigger] text[i] == 0x2e
}

/// Whether `text` is a revision, such as `535.113.01`.
pub fn is_valid_revision(text: &[u8]) -> (valid: bool)
    ensures
        valid == is_revision(text@),
{
    if text.len() == 0 {
        return false;
    }
    let mut dots: usize = 0;
    let mut after_dot: bool = true;
    let mut i: usize = 0;
    while i < text.len()
        invariant
            i <= text@.len(),
            dots <= i,
            after_dot <==> (i == 0 || text@[i - 1] == 0x2e),
            i > 0 ==> is_digit(text@[0]),
            forall|j: int| 0 <= j < i ==> is_digit(#[trigger] text@[j]) || text@[j] == 0x2e,
            forall|j: int|
                0 < j < i ==> !(#[trigger] text@[j] == 0x2e && text@[j - 1] == 0x2e),
            dots > 0 <==> exists|j: int| 0 <= j < i && #[trigger] text@[j] == 0x2e,
        decreases text@.len() - i,
    {
        let b = text[i];
        if b == 0x2e {
            if after_dot {
                assert(!is_revision(text@)) by {
                    if i > 0 {
                        assert(text@[i as int] == 0x2e && text@[i - 1] == 0x2e);
                    }
                }
                return false;
            }
            dots += 1;
            after_dot = true;
        } else if 0x30 <= b && b <= 0x39 {
            after_dot = false;
        } else {
            return false;
        }
        i += 1;
    }
    !after_dot && dots > 0
}

/// White space of one byte: blank, tab, line feed, vertical tab, form feed,
/// carriage return.
pub open spec fn is_space(b: u8) -> bool {
    b == 0x20 || (0x09 <= b <= 0x0d)
}

/// White space of two bytes: the next-line character U+0085 and the
/// no-break space U+00A0, as UTF-8 writes them.
pub open spec fn is_wide_space(first: u8, second: u8) -> bool {
    first == 0xc2 && (second == 0x85 || second == 0xa0)
}

/// White space of three bytes, as UTF-8 writes it: U+1680, U+2000 to U+200A,
/// U+2028, U+2029, U+202F, U+205F and U+3000.
pub open spec fn is_long_space(first: u8, second: u8, third: u8) -> bool {
    ||| first == 0xe1 && second == 0x9a && third == 0x80
    ||| first == 0xe2 && second == 0x80 && (0x80 <= third <= 0x8a || third == 0xa8 || third
        == 0xa9 || third == 0xaf)
    ||| first == 0xe2 && second == 0x81 && third == 0x9f
    ||| first == 0xe3 && second == 0x80 && third == 0x80
}

/// A white-space character begins at byte `i` of `line`. All characters
/// count that Unicode calls white space; a line is read as UTF-8.
pub open spec fn space_at(line: Seq<u8>, i: int) -> bool {
    ||| 0 <= i < line.len() && is_space(line[i])
    ||| 0 <= i && i + 1 < line.len() && is_wide_space(line[i], line[i + 1])
    ||| 0 <= i && i + 2 < line.len() && is_long_space(line[i], line[i + 1], line[i + 2])
}

/// What the line that states the version begins with.
pub open spec fn version_label() -> Seq<u8> {
    ascii("NVIDIA_VERSION = "@)
}

/// Where the word that begins at `start` ends: in front of the first
/// white-space character, or at the end of the line.
pub open spec fn word_end(line: Seq<u8>, start: int) -> int
    decreases line.len() - start,
{
    if 0 <= start < line.len() && !space_at(line, start) {
        word_end(line, start + 1)
    } else {
        start
    }
}

/// The version that `line` states: the word behind the label, where the line
/// begins with the label and a word follows it at once. No white space of
/// any kind may stand between the label and the word.
pub open spec fn line_version(line: Seq<u8>) -> Option<Seq<u8>> {
    let start = version_label().len() as int;
    if occurs_at(line, version_label(), 0) && start < line.len() && !space_at(line, start) {
        Some(line.subrange(start, word_end(line, start)))
    } else {
        None
    }
}

/// The version that the first line from byte `start` on that states one
/// states.
pub open spec fn version_from(text: Seq<u8>, start: int) -> Option<Seq<u8>>
    decreases text.len() - start,
    via version_from_terminates
{
    if start < 0 || start >= text.len() {
        None
    } else {
        match line_version(line_at(text, start)) {
            Some(version) => Some(version),
            None => version_from(text, next_line_start(text, start)),
        }
    }
}

#[via_fn]
proof fn version_from_terminates(text: Seq<u8>, start: int) {
    if 0 <= start < text.len() {
        lemma_line_break_bounds(text, start);
    }
}

/// The version that `text` states in its first line that states one.
pub open spec fn version_in(text: Seq<u8>) -> Option<Seq<u8>> {
    version_from(text, 0)
}

fn is_space_byte(b: u8) -> (space: bool)
    ensures
        space == is_space(b),
{
    b == 0x20 || (0x09 <= b && b <= 0x0d)
}

fn is_wide_space_bytes(first: u8, second: u8) -> (space: bool)
    ensures
        space == is_wide_space(first, second),
{
    first == 0xc2 && (second == 0x85 || second == 0xa0)
}

fn is_long_space_bytes(first: u8, second: u8, third: u8) -> (space: bool)
    ensures
        space == is_long_space(first, second, third),
{
    (first == 0xe1 && second == 0x9a && third == 0x80) || (first == 0xe2 && second == 0x80 && ((
    0x80 <= third && third <= 0x8a) || third == 0xa8 || third == 0xa9 || third == 0xaf)) || (first
        == 0xe2 && second == 0x81 && third == 0x9f) || (first == 0xe3 && second == 0x80 && third
        == 0x80)
}

/// Whether a white-space character begins at byte `i` of `line`.
pub fn starts_space(line: &[u8], i: usize) -> (space: bool)
    requires
        i < line@.len(),
    ensures
        space == space_at(line@, i as int),
{
    if is_space_byte(line[i]) {
        return true;
    }
    let rest: usize = line.len() - i;
    if rest >= 2 && is_wide_space_bytes(line[i], line[i + 1]) {
        return true;
    }
    rest >= 3 && is_long_space_bytes(line[i], line[i + 1], line[i + 2])
}

/// The version that `line` states, if it states one.
pub fn version_of_line(line: &[u8]) -> (version: Option<Vec<u8>>)
    ensures
        match version {
            Some(v) => line_version(line@) == Some(v@),
            None => line_version(line@) is None,
        },
{
    proof {
        reveal_strlit("NVIDIA_VERSION = ");
    }
    let label = ascii_bytes("NVIDIA_VERSION = ");
    if label.len() >= line.len() {
        return None;
    }
    if !matches_at(line, label, 0) {
        return None;
    }
    let start: usize = label.len();
    if starts_space(line, start) {
        return None;
    }
    let mut end: usize = start;
    while end < line.len() && !starts_space(line, end)
        invariant
            start <= end <= line@.len(),
            word_end(line@, start as int) == word_end(line@, end as int),
        decreases line@.len() - end,
    {
        end += 1;
    }
    Some(slice_to_vec(line_slice(line, start, end)))
}

/// Finds the version that a build description states: the word behind
/// `NVIDIA_VERSION = ` in the first line that begins so.
pub fn find_version(text: &[u8]) -> (version: Option<Vec<u8>>)
    ensures
        match version {
            Some(v) => version_in(text@) == Some(v@),
            None => version_in(text@) is None,
        },
{
    let mut start: usize = 0;
    while start < text.len()
        invariant
            start <= text@.len(),
            version_from(text@, start as int) == version_in(text@),
        decreases text@.len() - start,
    {
        let bounds = split_line(text, start);
        let line = line_slice(text, start, bounds.0);
        match version_of_line(line) {
            Some(version) => {
                return Some(version);
            },
            None => {},
        }
        start = bounds.1;
    }
    None
}

} // verus!
