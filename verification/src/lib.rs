//! Assembles firmware container images from byte arrays that are embedded in
//! generated source text.
//!
//! The pieces, leaves first: [`le`] encodes and decodes little-endian words,
//! [`text`] recognises markers and byte tokens on a single line, [`inflate`]
//! decompresses a raw deflate stream to an exact length, [`extract`] scans a
//! whole source text for one named array, [`header`] lays out the two
//! fixed-size headers, [`symbols`] derives the array names of each image
//! variant, and [`assemble`] packs everything into one container.
//! [`version`] reads and checks the version number that the files are named
//! with, [`package`] names the files and the links that go with them, and
//! [`error`] holds the reasons for which an operation fails.
//!
//! Nothing here touches a file: a source text comes in as bytes, and an image
//! goes out as bytes.

pub mod assemble;
pub mod error;
pub mod extract;
pub mod header;
pub mod inflate;
pub mod le;
pub mod package;
pub mod symbols;
pub mod text;
pub mod version;
