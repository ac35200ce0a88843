//! The two headers of a container: their fields, their byte layout, and the
//! sizes and offsets that they are filled with.

use crate::error::AssembleError;
use crate::le::{
    decode_u32_fields, encode_u32_fields, encode_words, lemma_word_of_concat,
    lemma_word_of_encoding, lemma_words_of_prefix, word_at,
};
use vstd::prelude::*;
use vstd::slice::slice_subrange;

verus! {

/// What the first word of every container holds.
pub const BIN_HEADER_MAGIC: u32 = 0x10DE;

/// The one version of the container format.
pub const BIN_HEADER_VERSION: u32 = 1;

/// The length of the container header, in bytes.
pub const BIN_HEADER_SIZE: u32 = 24;

/// The length of the header of a signed image, in bytes.
pub const HS_HEADER_SIZE: u32 = 36;

/// Where the signature block of a signed image begins: behind both headers.
pub const SIGNATURE_OFFSET: u32 = 60;

/// The length of the patch metadata of a signed image, in bytes.
pub const PATCH_METADATA_SIZE: u32 = 12;

/// The length of the descriptor of a signed image, in bytes.
pub const SIGNED_DESCRIPTOR_SIZE: u32 = 36;

/// What lies between the signature block and the image of a signed image:
/// patch location, patch signature index, patch metadata, number of
/// signatures and descriptor.
pub const SIGNED_TRAILER_SIZE: u32 = 60;

/// Where the image of a signed image would begin if there were no
/// signatures: behind both headers and what lies before the image.
pub const SIGNED_PAYLOAD_BASE: u32 = 120;

/// The total size of a container is a multiple of this.
pub const ALIGNMENT: u32 = 256;

/// `x` rounded up to a multiple of `base`.
pub open spec fn round_up(x: int, base: int) -> int {
    ((x + base - 1) / base) * base
}

/// A rounded number is the one multiple of the base that is not below the
/// number and less than a base above it.
pub proof fn lemma_round_up(x: int, base: int)
    requires
        0 <= x,
        0 < base,
    ensures
        round_up(x, base) % base == 0,
        x <= round_up(x, base) < x + base,
{
    let n = x + base - 1;
    let q = n / base;
    assert(n == base * q + n % base && 0 <= n % base < base) by (nonlinear_arith)
        requires
            0 < base,
            q == n / base,
    ;
    assert((q * base) % base == 0) by (nonlinear_arith)
        requires
            0 < base,
    ;
}

/// Rounds `x` up to a multiple of `base`.
pub fn round_up_to_base(x: u32, base: u32) -> (rounded: u32)
    requires
        base > 0,
        x + base - 1 <= u32::MAX,
    ensures
        rounded == round_up(x as int, base as int),
        rounded % base == 0,
        x <= rounded < x + base,
{
    proof {
        lemma_round_up(x as int, base as int);
    }
    ((x + (base - 1)) / base) * base
}

/// Rounds `x` up to a multiple of `base`, where there is one that fits.
pub fn checked_round_up(x: u32, base: u32) -> (rounded: Option<u32>)
    ensures
        rounded is Some <==> base > 0 && round_up(x as int, base as int) <= u32::MAX,
        rounded matches Some(r) ==> r == round_up(x as int, base as int),
{
    if base == 0 {
        return None;
    }
    proof {
        lemma_round_up(x as int, base as int);
    }
    let wide: u64 = ((x as u64 + base as u64 - 1) / base as u64) * base as u64;
    if wide > u32::MAX as u64 {
        None
    } else {
        Some(wide as u32)
    }
}

/// The header of every container: where the payload lies in the file.
#[derive(Debug, Clone, Copy, PartialEq, Eq, Structural)]
pub struct BinHeader {
    pub magic: u32,
    pub version: u32,
    pub total_size: u32,
    pub header_size: u32,
    pub payload_offset: u32,
    pub payload_size: u32,
}

impl BinHeader {
    /// The fields in the order in which the file holds them.
    pub open spec fn words(self) -> Seq<u32> {
        seq![
            self.magic,
            self.version,
            self.total_size,
            self.header_size,
            self.payload_offset,
            self.payload_size,
        ]
    }

    /// The 24 bytes of the header.
    pub open spec fn encoding(self) -> Seq<u8> {
        encode_words(self.words())
    }

    /// The header that the first 24 bytes of `bytes` hold.
    pub open spec fn decoding(bytes: Seq<u8>) -> Option<BinHeader> {
        if bytes.len() >= 24 {
            Some(
                BinHeader {
                    magic: word_at(bytes, 0),
                    version: word_at(bytes, 1),
                    total_size: word_at(bytes, 2),
                    header_size: word_at(bytes, 3),
                    payload_offset: word_at(bytes, 4),
                    payload_size: word_at(bytes, 5),
                },
            )
        } else {
            None
        }
    }

    /// A payload of `payload_size` bytes at `payload_offset` can be described:
    /// it begins behind the header, and the rounded total fits in 32 bits.
    pub open spec fn describable(payload_offset: u32, payload_size: u32) -> bool {
        &&& payload_offset >= BIN_HEADER_SIZE
        &&& round_up(payload_offset + payload_size, ALIGNMENT as int) <= u32::MAX
    }

    /// The header of a container whose payload of `payload_size` bytes begins
    /// at `payload_offset`.
    pub open spec fn for_payload(payload_offset: u32, payload_size: u32) -> BinHeader {
        BinHeader {
            magic: BIN_HEADER_MAGIC,
            version: BIN_HEADER_VERSION,
            total_size: round_up(payload_offset + payload_size, ALIGNMENT as int) as u32,
            header_size: BIN_HEADER_SIZE,
            payload_offset,
            payload_size,
        }
    }

    /// Decoding the bytes of a header gives the header back.
    pub proof fn lemma_round_trip(self)
        ensures
            self.encoding().len() == 24,
            BinHeader::decoding(self.encoding()) == Some(self),
    {
        let words = self.words();
        lemma_word_of_encoding(words, 0);
        lemma_word_of_encoding(words, 1);
        lemma_word_of_encoding(words, 2);
        lemma_word_of_encoding(words, 3);
        lemma_word_of_encoding(words, 4);
        lemma_word_of_encoding(words, 5);
    }

    /// A file that begins with the bytes of a header decodes to the header.
    pub proof fn lemma_leads_file(self, rest: Seq<u8>)
        ensures
            BinHeader::decoding(self.encoding() + rest) == Some(self),
    {
        let bytes = self.encoding();
        self.lemma_round_trip();
        lemma_word_of_concat(bytes, rest, 0);
        lemma_word_of_concat(bytes, rest, 1);
        lemma_word_of_concat(bytes, rest, 2);
        lemma_word_of_concat(bytes, rest, 3);
        lemma_word_of_concat(bytes, rest, 4);
        lemma_word_of_concat(bytes, rest, 5);
    }

    /// The header for a payload, or why there is none.
    pub fn new(payload_offset: u32, payload_size: u32) -> (header: Result<
        BinHeader,
        AssembleError,
    >)
        ensures
            header is Ok <==> BinHeader::describable(payload_offset, payload_size),
            header matches Ok(h) ==> h == BinHeader::for_payload(payload_offset, payload_size),
            header matches Err(e) ==> e == (if payload_offset < BIN_HEADER_SIZE {
                AssembleError::InvalidLayout
            } else {
                AssembleError::Overflow
            }),
    {
        if payload_offset < BIN_HEADER_SIZE {
            return Err(AssembleError::InvalidLayout);
        }
        proof {
            lemma_round_up(payload_offset + payload_size, ALIGNMENT as int);
        }
        let end: u32 = match payload_offset.checked_add(payload_size) {
            Some(end) => end,
            None => {
                return Err(AssembleError::Overflow);
            },
        };
        let total_size: u32 = match checked_round_up(end, ALIGNMENT) {
            Some(total) => total,
            None => {
                return Err(AssembleError::Overflow);
            },
        };
        Ok(
            BinHeader {
                magic: BIN_HEADER_MAGIC,
                version: BIN_HEADER_VERSION,
                total_size,
                header_size: BIN_HEADER_SIZE,
                payload_offset,
                payload_size,
            },
        )
    }

    /// The 24 bytes of the header.
    pub fn encode(&self) -> (bytes: Vec<u8>)
        ensures
            bytes@ == self.encoding(),
            bytes@.len() == 24,
    {
        let words: [u32; 6] = [
            self.magic,
            self.version,
            self.total_size,
            self.header_size,
            self.payload_offset,
            self.payload_size,
        ];
        encode_u32_fields(words.as_slice())
    }

    /// Reads a header from the first 24 bytes of `bytes`. Nothing is asked of
    /// what the fields hold.
    pub fn parse(bytes: &[u8]) -> (header: Option<BinHeader>)
        ensures
            header == BinHeader::decoding(bytes@),
    {
        if bytes.len() < 24 {
            return None;
        }
        let head = slice_subrange(bytes, 0, 24);
        match decode_u32_fields(head, 6) {
            Some(words) => {
                proof {
                    lemma_words_of_prefix(bytes@, 6);
                }
                Some(
                    BinHeader {
                        magic: words[0],
                        version: words[1],
                        total_size: words[2],
                        header_size: words[3],
                        payload_offset: words[4],
                        payload_size: words[5],
                    },
                )
            },
            None => None,
        }
    }
}

/// Builds the container header for a payload of `payload_size` bytes that
/// begins at `payload_offset`.
///
/// The header is always `BIN_HEADER_SIZE` bytes long and says so of itself:
/// `header_size` must be that size and the payload must begin behind it, else
/// the layout is invalid. The total size is the end of the payload, rounded
/// up to a multiple of `ALIGNMENT`; where that does not fit in 32 bits there
/// is no header.
pub fn build_bin_header(header_size: u32, payload_size: u32, payload_offset: u32) -> (header:
    Result<Vec<u8>, AssembleError>)
    ensures
        header is Ok <==> header_size == BIN_HEADER_SIZE && BinHeader::describable(
            payload_offset,
            payload_size,
        ),
        header matches Ok(bytes) ==> {
            &&& bytes@ == BinHeader::for_payload(payload_offset, payload_size).encoding()
            &&& bytes@.len() == 24
            &&& BinHeader::decoding(bytes@) == Some(
                BinHeader::for_payload(payload_offset, payload_size),
            )
        },
        header matches Err(e) ==> e == (if header_size != BIN_HEADER_SIZE || payload_offset
            < BIN_HEADER_SIZE {
            AssembleError::InvalidLayout
        } else {
            AssembleError::Overflow
        }),
{
    if header_size != BIN_HEADER_SIZE {
        return Err(AssembleError::InvalidLayout);
    }
    match BinHeader::new(payload_offset, payload_size) {
        Ok(header) => {
            proof {
                header.lemma_round_trip();
            }
            Ok(header.encode())
        },
        Err(e) => Err(e),
    }
}

/// What the header of a container promises of its payload: the fields that
/// were asked for come back, and the total size is a multiple of `ALIGNMENT`
/// that covers the payload.
pub proof fn lemma_bin_header_describes_payload(payload_offset: u32, payload_size: u32)
    requires
        BinHeader::describable(payload_offset, payload_size),
    ensures
        ({
            let header = BinHeader::for_payload(payload_offset, payload_size);
            &&& BinHeader::decoding(header.encoding()) == Some(header)
            &&& header.magic == 0x10DE
            &&& header.version == 1
            &&& header.header_size == 24
            &&& header.payload_offset == payload_offset
            &&& header.payload_size == payload_size
            &&& header.total_size % 256 == 0
            &&& header.total_size >= payload_offset + payload_size
            &&& header.total_size < payload_offset + payload_size + 256
        }),
{
    BinHeader::for_payload(payload_offset, payload_size).lemma_round_trip();
    lemma_round_up(payload_offset + payload_size, ALIGNMENT as int);
}

/// The header of a signed image: where the signature block and the values
/// that patch it lie in the file.
#[derive(Debug, Clone, Copy, PartialEq, Eq, Structural)]
pub struct HsHeaderV2 {
    pub sig_offset: u32,
    pub sig_size: u32,
    pub patch_loc_offset: u32,
    pub patch_sig_offset: u32,
    pub meta_data_offset: u32,
    pub meta_data_size: u32,
    pub num_sig_offset: u32,
    pub header_offset: u32,
    pub header_size: u32,
}

impl HsHeaderV2 {
    /// The fields in the order in which the file holds them.
    pub open spec fn words(self) -> Seq<u32> {
        seq![
            self.sig_offset,
            self.sig_size,
            self.patch_loc_offset,
            self.patch_sig_offset,
            self.meta_data_offset,
            self.meta_data_size,
            self.num_sig_offset,
            self.header_offset,
            self.header_size,
        ]
    }

    /// The 36 bytes of the header.
    pub open spec fn encoding(self) -> Seq<u8> {
        encode_words(self.words())
    }

    /// The header that the first 36 bytes of `bytes` hold.
    pub open spec fn decoding(bytes: Seq<u8>) -> Option<HsHeaderV2> {
        if bytes.len() >= 36 {
            Some(
                HsHeaderV2 {
                    sig_offset: word_at(bytes, 0),
                    sig_size: word_at(bytes, 1),
                    patch_loc_offset: word_at(bytes, 2),
                    patch_sig_offset: word_at(bytes, 3),
                    meta_data_offset: word_at(bytes, 4),
                    meta_data_size: word_at(bytes, 5),
                    num_sig_offset: word_at(bytes, 6),
                    header_offset: word_at(bytes, 7),
                    header_size: word_at(bytes, 8),
                },
            )
        } else {
            None
        }
    }

    /// A signature block of `signature_block_size` bytes can be described:
    /// the last offset behind it fits in 32 bits.
    pub open spec fn describable(signature_block_size: u32) -> bool {
        SIGNATURE_OFFSET + signature_block_size + 24 <= u32::MAX
    }

    /// The header of a signed image whose signature block is
    /// `signature_block_size` bytes long. Each offset is the one before it
    /// plus the length of what lies there.
    pub open spec fn for_signatures(signature_block_size: u32) -> HsHeaderV2 {
        let patch_loc_offset = SIGNATURE_OFFSET + signature_block_size;
        let patch_sig_offset = patch_loc_offset + 4;
        let meta_data_offset = patch_sig_offset + 4;
        let num_sig_offset = meta_data_offset + PATCH_METADATA_SIZE;
        let header_offset = num_sig_offset + 4;
        HsHeaderV2 {
            sig_offset: SIGNATURE_OFFSET,
            sig_size: signature_block_size,
            patch_loc_offset: patch_loc_offset as u32,
            patch_sig_offset: patch_sig_offset as u32,
            meta_data_offset: meta_data_offset as u32,
            meta_data_size: PATCH_METADATA_SIZE,
            num_sig_offset: num_sig_offset as u32,
            header_offset: header_offset as u32,
            header_size: SIGNED_DESCRIPTOR_SIZE,
        }
    }

    /// Decoding the bytes of a header gives the header back.
    pub proof fn lemma_round_trip(self)
        ensures
            self.encoding().len() == 36,
            HsHeaderV2::decoding(self.encoding()) == Some(self),
    {
        let words = self.words();
        lemma_word_of_encoding(words, 0);
        lemma_word_of_encoding(words, 1);
        lemma_word_of_encoding(words, 2);
        lemma_word_of_encoding(words, 3);
        lemma_word_of_encoding(words, 4);
        lemma_word_of_encoding(words, 5);
        lemma_word_of_encoding(words, 6);
        lemma_word_of_encoding(words, 7);
        lemma_word_of_encoding(words, 8);
    }

    /// Bytes that begin with the bytes of a header decode to the header.
    pub proof fn lemma_leads_file(self, rest: Seq<u8>)
        ensures
            HsHeaderV2::decoding(self.encoding() + rest) == Some(self),
    {
        let bytes = self.encoding();
        self.lemma_round_trip();
        lemma_word_of_concat(bytes, rest, 0);
        lemma_word_of_concat(bytes, rest, 1);
        lemma_word_of_concat(bytes, rest, 2);
        lemma_word_of_concat(bytes, rest, 3);
        lemma_word_of_concat(bytes, rest, 4);
        lemma_word_of_concat(bytes, rest, 5);
        lemma_word_of_concat(bytes, rest, 6);
        lemma_word_of_concat(bytes, rest, 7);
        lemma_word_of_concat(bytes, rest, 8);
    }

    /// The header for a signature block, or an overflow where its offsets do
    /// not fit in 32 bits.
    pub fn new(signature_block_size: u32) -> (header: Result<HsHeaderV2, AssembleError>)
        ensures
            header is Ok <==> HsHeaderV2::describable(signature_block_size),
            header matches Ok(h) ==> h == HsHeaderV2::for_signatures(signature_block_size),
            header matches Err(e) ==> e == AssembleError::Overflow,
    {
        if signature_block_size > u32::MAX - SIGNATURE_OFFSET - 24 {
            return Err(AssembleError::Overflow);
        }
        let patch_loc_offset: u32 = SIGNATURE_OFFSET + signature_block_size;
        let patch_sig_offset: u32 = patch_loc_offset + 4;
        let meta_data_offset: u32 = patch_sig_offset + 4;
        let num_sig_offset: u32 = meta_data_offset + PATCH_METADATA_SIZE;
        let header_offset: u32 = num_sig_offset + 4;
        Ok(
            HsHeaderV2 {
                sig_offset: SIGNATURE_OFFSET,
                sig_size: signature_block_size,
                patch_loc_offset,
                patch_sig_offset,
                meta_data_offset,
                meta_data_size: PATCH_METADATA_SIZE,
                num_sig_offset,
                header_offset,
                header_size: SIGNED_DESCRIPTOR_SIZE,
            },
        )
    }

    /// The 36 bytes of the header.
    pub fn encode(&self) -> (bytes: Vec<u8>)
        ensures
            bytes@ == self.encoding(),
            bytes@.len() == 36,
    {
        let words: [u32; 9] = [
            self.sig_offset,
            self.sig_size,
            self.patch_loc_offset,
            self.patch_sig_offset,
            self.meta_data_offset,
            self.meta_data_size,
            self.num_sig_offset,
            self.header_offset,
            self.header_size,
        ];
        encode_u32_fields(words.as_slice())
    }

    /// Reads a header from the first 36 bytes of `bytes`. Nothing is asked of
    /// what the fields hold.
    pub fn parse(bytes: &[u8]) -> (header: Option<HsHeaderV2>)
        ensures
            header == HsHeaderV2::decoding(bytes@),
    {
        if bytes.len() < 36 {
            return None;
        }
        let head = slice_subrange(bytes, 0, 36);
        match decode_u32_fields(head, 9) {
            Some(words) => {
                proof {
                    lemma_words_of_prefix(bytes@, 9);
                }
                Some(
                    HsHeaderV2 {
                        sig_offset: words[0],
                        sig_size: words[1],
                        patch_loc_offset: words[2],
                        patch_sig_offset: words[3],
                        meta_data_offset: words[4],
                        meta_data_size: words[5],
                        num_sig_offset: words[6],
                        header_offset: words[7],
                        header_size: words[8],
                    },
                )
            },
            None => None,
        }
    }
}

/// Builds the header of a signed image whose signature block is
/// `signature_block_size` bytes long.
///
/// There is no header where an offset behind the signature block does not
/// fit in 32 bits.
pub fn build_hs_header_v2(signature_block_size: u32) -> (header: Result<Vec<u8>, AssembleError>)
    ensures
        header is Ok <==> HsHeaderV2::describable(signature_block_size),
        header matches Ok(bytes) ==> {
            &&& bytes@ == HsHeaderV2::for_signatures(signature_block_size).encoding()
            &&& bytes@.len() == 36
            &&& HsHeaderV2::decoding(bytes@) == Some(
                HsHeaderV2::for_signatures(signature_block_size),
            )
        },
        header matches Err(e) ==> e == AssembleError::Overflow,
{
    match HsHeaderV2::new(signature_block_size) {
        Ok(header) => {
            proof {
                header.lemma_round_trip();
            }
            Ok(header.encode())
        },
        Err(e) => Err(e),
    }
}

/// The offsets in the header of a signed image grow from field to field,
/// beginning behind the two headers, whenever the signature block is a whole
/// number of signatures and holds at least one, and its offsets fit in 32
/// bits.
pub proof fn lemma_hs_offsets_increase(signature_block_size: u32, per_signature_size: u32)
    requires
        per_signature_size > 0,
        signature_block_size % per_signature_size == 0,
        signature_block_size / per_signature_size >= 1,
        HsHeaderV2::describable(signature_block_size),
    ensures
        ({
            let header = HsHeaderV2::for_signatures(signature_block_size);
            &&& HsHeaderV2::decoding(header.encoding()) == Some(header)
            &&& 60 < header.patch_loc_offset
            &&& header.patch_loc_offset < header.patch_sig_offset
            &&& header.patch_sig_offset < header.meta_data_offset
            &&& header.meta_data_offset < header.num_sig_offset
            &&& header.num_sig_offset < header.header_offset
        }),
{
    HsHeaderV2::for_signatures(signature_block_size).lemma_round_trip();
    assert(signature_block_size >= 1) by (nonlinear_arith)
        requires
            per_signature_size > 0,
            signature_block_size / per_signature_size >= 1,
    ;
}

} // verus!
