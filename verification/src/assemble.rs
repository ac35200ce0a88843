//! The image assemblers: which arrays an image is made of, and how they are
//! packed behind the headers.
//!
//! A plain bootloader is the container header, the descriptor and the image.
//! A signed image is the container header, the header of signed images, the
//! signature block, six words of patch values, the descriptor and the image.

use crate::error::{bytes_of, AssembleError, ExtractError};
use crate::extract::{extract, extracted};
use crate::header::{
    lemma_round_up, round_up, BinHeader, HsHeaderV2, ALIGNMENT, BIN_HEADER_SIZE, HS_HEADER_SIZE,
    SIGNED_PAYLOAD_BASE, SIGNED_TRAILER_SIZE,
};
use crate::le::{
    decode_u32, decode_u32_fields, encode_u32_fields, encode_words, le_bytes, le_value,
    lemma_le_bytes_of_value, lemma_le_round_trip, lemma_le_value_bounds, lemma_word_of_encoding,
    word_at,
};
use crate::symbols::{BootloaderNames, BootloaderSymbols, SignedNames, SignedSymbols};
use itertools::Itertools;
use vstd::prelude::*;

verus! {

/// The part that an array plays in a firmware image.
#[derive(Debug, Clone, Copy, PartialEq, Eq, Structural)]
pub enum FirmwareField {
    /// The microcode image itself.
    Image,
    /// The microcode descriptor of a plain bootloader.
    Descriptor,
    /// The signatures of a signed image, one after the other.
    SignatureBlock,
    /// Where in the image a signature is patched in.
    PatchLocation,
    /// Fuse version, engine id and microcode id of a signed image.
    PatchMetadata,
    /// The descriptor of a signed image.
    HeaderDescriptor,
}

impl FirmwareField {
    /// The length that the array of a field must have, where it is fixed.
    pub open spec fn fixed_size(self) -> Option<usize> {
        match self {
            FirmwareField::PatchLocation => Some(4usize),
            FirmwareField::PatchMetadata => Some(12usize),
            FirmwareField::HeaderDescriptor => Some(36usize),
            _ => None,
        }
    }

    /// The length that the array of a field must have, where it is fixed.
    pub fn expected_size(self) -> (size: Option<usize>)
        ensures
            size == self.fixed_size(),
    {
        match self {
            FirmwareField::PatchLocation => Some(4),
            FirmwareField::PatchMetadata => Some(12),
            FirmwareField::HeaderDescriptor => Some(36),
            _ => None,
        }
    }
}

/// The three values that go with the signatures of a signed image.
#[derive(Debug, Clone, Copy, PartialEq, Eq, Structural)]
pub struct PatchMeta {
    pub fuse_version: u32,
    pub engine_id: u32,
    pub ucode_id: u32,
}

impl PatchMeta {
    /// The values that twelve bytes hold: three words.
    pub open spec fn decoding(bytes: Seq<u8>) -> Option<PatchMeta> {
        if bytes.len() == 12 {
            Some(
                PatchMeta {
                    fuse_version: word_at(bytes, 0),
                    engine_id: word_at(bytes, 1),
                    ucode_id: word_at(bytes, 2),
                },
            )
        } else {
            None
        }
    }

    /// Reads the three values from exactly twelve bytes.
    pub fn parse(bytes: &[u8]) -> (meta: Option<PatchMeta>)
        ensures
            meta == PatchMeta::decoding(bytes@),
    {
        match decode_u32_fields(bytes, 3) {
            Some(words) => match collect_triple(words) {
                Some(triple) => Some(
                    PatchMeta { fuse_version: triple.0, engine_id: triple.1, ucode_id: triple.2 },
                ),
                None => None,
            },
            None => None,
        }
    }
}

/// Collects `words` by `itertools::Itertools::collect_tuple`, which gives a
/// tuple of the items where they are exactly as many as the tuple has places,
/// and `None` else.
#[verifier::external_body]
fn collect_triple(words: Vec<u32>) -> (triple: Option<(u32, u32, u32)>)
    ensures
        triple == (if words@.len() == 3 {
            Some((words@[0], words@[1], words@[2]))
        } else {
            None
        }),
{
    words.into_iter().collect_tuple()
}

/// How many signatures a block of `block_size` bytes holds, where it is a
/// whole number of them and at least one.
pub open spec fn signature_count(block_size: nat, per_signature_size: u32) -> Option<nat> {
    if per_signature_size > 0 && block_size % (per_signature_size as nat) == 0 && block_size / (
    per_signature_size as nat) >= 1 {
        Some(block_size / (per_signature_size as nat))
    } else {
        None
    }
}

/// Counts the signatures of a block of `block_size` bytes.
///
/// The count is invalid where the block is no whole number of signatures,
/// where it holds none, and where a signature has no size.
pub fn count_signatures(block_size: usize, per_signature_size: u32) -> (count: Result<
    usize,
    AssembleError,
>)
    ensures
        count matches Ok(n) ==> signature_count(block_size as nat, per_signature_size) == Some(
            n as nat,
        ),
        count matches Err(e) ==> e == AssembleError::InvalidSignatureCount && signature_count(
            block_size as nat,
            per_signature_size,
        ) is None,
{
    if per_signature_size == 0 {
        return Err(AssembleError::InvalidSignatureCount);
    }
    let size: usize = per_signature_size as usize;
    if block_size % size != 0 {
        return Err(AssembleError::InvalidSignatureCount);
    }
    let count: usize = block_size / size;
    if count < 1 {
        return Err(AssembleError::InvalidSignatureCount);
    }
    Ok(count)
}

/// The error of a field whose array has not the length that is fixed for it.
pub open spec fn wrong_length(field: FirmwareField, expected: usize, bytes: Seq<u8>)
    -> AssembleError {
    AssembleError::Field {
        field,
        error: ExtractError::SizeMismatch { expected, actual: bytes.len() as usize },
    }
}

/// Where the image of a plain bootloader begins: behind the header and the
/// descriptor.
pub open spec fn bootloader_payload_offset(descriptor_size: nat) -> nat {
    BIN_HEADER_SIZE as nat + descriptor_size
}

/// The sizes of a plain bootloader fit in 32 bits.
pub open spec fn bootloader_fits(descriptor_size: nat, image_size: nat) -> bool {
    round_up((bootloader_payload_offset(descriptor_size) + image_size) as int, ALIGNMENT as int)
        <= u32::MAX
}

/// The bytes of a plain bootloader.
pub open spec fn bootloader_layout(descriptor: Seq<u8>, image: Seq<u8>) -> Seq<u8> {
    BinHeader::for_payload(
        bootloader_payload_offset(descriptor.len()) as u32,
        image.len() as u32,
    ).encoding() + descriptor + image
}

/// The container of a plain bootloader, or an overflow where its sizes do
/// not fit in 32 bits.
pub open spec fn bootloader_image(descriptor: Seq<u8>, image: Seq<u8>) -> Result<
    Seq<u8>,
    AssembleError,
> {
    if bootloader_fits(descriptor.len(), image.len()) {
        Ok(bootloader_layout(descriptor, image))
    } else {
        Err(AssembleError::Overflow)
    }
}

/// Where the image of a signed image begins: behind the two headers, the
/// signature block, the patch values and the descriptor.
pub open spec fn signed_payload_offset(signature_block_size: nat) -> nat {
    BIN_HEADER_SIZE as nat + HS_HEADER_SIZE as nat + signature_block_size
        + SIGNED_TRAILER_SIZE as nat
}

/// The sizes of a signed image fit in 32 bits.
pub open spec fn signed_fits(signature_block_size: nat, image_size: nat) -> bool {
    round_up((signed_payload_offset(signature_block_size) + image_size) as int, ALIGNMENT as int)
        <= u32::MAX
}

/// The six words between the signature block and the descriptor: the patch
/// location, the index of the patch signature, which is always 0, the three
/// values of the patch metadata, and the number of signatures.
pub open spec fn patch_words(patch_location: Seq<u8>, patch_metadata: Seq<u8>, count: nat) -> Seq<
    u32,
> {
    seq![
        le_value(patch_location) as u32,
        0u32,
        word_at(patch_metadata, 0),
        word_at(patch_metadata, 1),
        word_at(patch_metadata, 2),
        count as u32,
    ]
}

/// The bytes of a signed image.
pub open spec fn signed_layout(
    image: Seq<u8>,
    signatures: Seq<u8>,
    patch_location: Seq<u8>,
    patch_metadata: Seq<u8>,
    descriptor: Seq<u8>,
    count: nat,
) -> Seq<u8> {
    BinHeader::for_payload(
        signed_payload_offset(signatures.len()) as u32,
        image.len() as u32,
    ).encoding() + HsHeaderV2::for_signatures(signatures.len() as u32).encoding() + signatures
        + encode_words(patch_words(patch_location, patch_metadata, count)) + descriptor + image
}

/// The container of a signed image, or the first reason why there is none:
/// an invalid number of signatures, a patch location that is not 4 bytes, a
/// patch metadata that is not 12 bytes, a descriptor that is not 36 bytes,
/// sizes that do not fit in 32 bits.
pub open spec fn signed_image(
    image: Seq<u8>,
    signatures: Seq<u8>,
    patch_location: Seq<u8>,
    patch_metadata: Seq<u8>,
    descriptor: Seq<u8>,
    per_signature_size: u32,
) -> Result<Seq<u8>, AssembleError> {
    match signature_count(signatures.len(), per_signature_size) {
        None => Err(AssembleError::InvalidSignatureCount),
        Some(count) => if patch_location.len() != 4 {
            Err(wrong_length(FirmwareField::PatchLocation, 4, patch_location))
        } else if patch_metadata.len() != 12 {
            Err(wrong_length(FirmwareField::PatchMetadata, 12, patch_metadata))
        } else if descriptor.len() != 36 {
            Err(wrong_length(FirmwareField::HeaderDescriptor, 36, descriptor))
        } else if !signed_fits(signatures.len(), image.len()) {
            Err(AssembleError::Overflow)
        } else {
            Ok(signed_layout(image, signatures, patch_location, patch_metadata, descriptor, count))
        },
    }
}

/// Packs a plain bootloader: the container header, `descriptor`, `image`.
///
/// The header says that the image begins behind the descriptor, and how long
/// it is. The file is not padded to the total size that the header declares.
pub fn assemble_bootloader(descriptor: &[u8], image: &[u8]) -> (file: Result<
    Vec<u8>,
    AssembleError,
>)
    ensures
        bytes_of(file) == bootloader_image(descriptor@, image@),
{
    proof {
        lemma_round_up(
            (bootloader_payload_offset(descriptor@.len()) + image@.len()) as int,
            ALIGNMENT as int,
        );
    }
    if descriptor.len() > (u32::MAX - BIN_HEADER_SIZE) as usize || image.len()
        > u32::MAX as usize {
        return Err(AssembleError::Overflow);
    }
    let payload_offset: u32 = BIN_HEADER_SIZE + descriptor.len() as u32;
    let header = match BinHeader::new(payload_offset, image.len() as u32) {
        Ok(header) => header,
        Err(_) => {
            return Err(AssembleError::Overflow);
        },
    };
    let mut file = header.encode();
    file.extend_from_slice(descriptor);
    file.extend_from_slice(image);
    assert(file@ =~= bootloader_layout(descriptor@, image@));
    Ok(file)
}

/// Packs a signed image: the container header, the header of signed images,
/// `signatures`, the six words of patch values, `descriptor`, `image`.
///
/// `signatures` must be a whole number of signatures of `per_signature_size`
/// bytes and hold at least one; `patch_location` must be 4 bytes,
/// `patch_metadata` 12 and `descriptor` 36. The file is not padded to the
/// total size that the header declares.
pub fn assemble_signed(
    image: &[u8],
    signatures: &[u8],
    patch_location: &[u8],
    patch_metadata: &[u8],
    descriptor: &[u8],
    per_signature_size: u32,
) -> (file: Result<Vec<u8>, AssembleError>)
    ensures
        bytes_of(file) == signed_image(
            image@,
            signatures@,
            patch_location@,
            patch_metadata@,
            descriptor@,
            per_signature_size,
        ),
{
    let count: usize = match count_signatures(signatures.len(), per_signature_size) {
        Ok(count) => count,
        Err(e) => {
            return Err(e);
        },
    };
    let location: u32 = match decode_u32(patch_location) {
        Some(word) => word,
        None => {
            return Err(
                AssembleError::Field {
                    field: FirmwareField::PatchLocation,
                    error: ExtractError::SizeMismatch { expected: 4, actual: patch_location.len() },
                },
            );
        },
    };
    let meta = match PatchMeta::parse(patch_metadata) {
        Some(meta) => meta,
        None => {
            return Err(
                AssembleError::Field {
                    field: FirmwareField::PatchMetadata,
                    error: ExtractError::SizeMismatch {
                        expected: 12,
                        actual: patch_metadata.len(),
                    },
                },
            );
        },
    };
    if descriptor.len() != 36 {
        return Err(
            AssembleError::Field {
                field: FirmwareField::HeaderDescriptor,
                error: ExtractError::SizeMismatch { expected: 36, actual: descriptor.len() },
            },
        );
    }
    proof {
        lemma_round_up(
            (signed_payload_offset(signatures@.len()) + image@.len()) as int,
            ALIGNMENT as int,
        );
        lemma_le_value_bounds(patch_location@);
    }
    if signatures.len() > (u32::MAX - SIGNED_PAYLOAD_BASE) as usize || image.len()
        > u32::MAX as usize {
        return Err(AssembleError::Overflow);
    }
    let signature_size: u32 = signatures.len() as u32;
    let bin = match BinHeader::new(SIGNED_PAYLOAD_BASE + signature_size, image.len() as u32) {
        Ok(header) => header,
        Err(_) => {
            return Err(AssembleError::Overflow);
        },
    };
    let hs = match HsHeaderV2::new(signature_size) {
        Ok(header) => header,
        Err(e) => {
            return Err(e);
        },
    };
    let words: [u32; 6] = [
        location,
        0,
        meta.fuse_version,
        meta.engine_id,
        meta.ucode_id,
        count as u32,
    ];
    let mut file = bin.encode();
    file.extend_from_slice(hs.encode().as_slice());
    file.extend_from_slice(signatures);
    file.extend_from_slice(encode_u32_fields(words.as_slice()).as_slice());
    file.extend_from_slice(descriptor);
    file.extend_from_slice(image);
    assert(file@ =~= signed_layout(
        image@,
        signatures@,
        patch_location@,
        patch_metadata@,
        descriptor@,
        count as nat,
    ));
    Ok(file)
}

/// What `build_bootloader` makes of a source text: the image and the
/// descriptor are extracted in this order, the first failure ends the
/// assembly, and what was extracted is packed.
pub open spec fn built_bootloader(source: Seq<u8>, names: BootloaderNames) -> Result<
    Seq<u8>,
    AssembleError,
> {
    match extracted(source, names.image, None) {
        Err(error) => Err(AssembleError::Field { field: FirmwareField::Image, error }),
        Ok(image) => match extracted(source, names.descriptor, None) {
            Err(error) => Err(AssembleError::Field { field: FirmwareField::Descriptor, error }),
            Ok(descriptor) => bootloader_image(descriptor, image),
        },
    }
}

/// What `build_signed_image` makes of a source text: image, signature block,
/// patch location, patch metadata and descriptor are extracted in this order,
/// the signatures are counted as soon as they are there, the first failure
/// ends the assembly, and what was extracted is packed.
pub open spec fn built_signed_image(source: Seq<u8>, names: SignedNames, per_signature_size: u32)
    -> Result<Seq<u8>, AssembleError> {
    match extracted(source, names.image, None) {
        Err(error) => Err(AssembleError::Field { field: FirmwareField::Image, error }),
        Ok(image) => match extracted(source, names.signatures, None) {
            Err(error) => Err(
                AssembleError::Field { field: FirmwareField::SignatureBlock, error },
            ),
            Ok(signatures) => if signature_count(signatures.len(), per_signature_size) is None {
                Err(AssembleError::InvalidSignatureCount)
            } else {
                match extracted(source, names.patch_location, Some(4usize)) {
                    Err(error) => Err(
                        AssembleError::Field { field: FirmwareField::PatchLocation, error },
                    ),
                    Ok(patch_location) => match extracted(
                        source,
                        names.patch_metadata,
                        Some(12usize),
                    ) {
                        Err(error) => Err(
                            AssembleError::Field { field: FirmwareField::PatchMetadata, error },
                        ),
                        Ok(patch_metadata) => match extracted(
                            source,
                            names.descriptor,
                            Some(36usize),
                        ) {
                            Err(error) => Err(
                                AssembleError::Field {
                                    field: FirmwareField::HeaderDescriptor,
                                    error,
                                },
                            ),
                            Ok(descriptor) => signed_image(
                                image,
                                signatures,
                                patch_location,
                                patch_metadata,
                                descriptor,
                                per_signature_size,
                            ),
                        },
                    },
                }
            },
        },
    }
}

/// Extracts one field of an image from the source text.
fn extract_field(source: &[u8], symbol: &[u8], field: FirmwareField) -> (bytes: Result<
    Vec<u8>,
    AssembleError,
>)
    ensures
        bytes_of(bytes) == (match extracted(source@, symbol@, field.fixed_size()) {
            Ok(found) => Ok::<Seq<u8>, AssembleError>(found),
            Err(error) => Err(AssembleError::Field { field, error }),
        }),
{
    match extract(source, symbol, field.expected_size()) {
        Ok(found) => Ok(found),
        Err(error) => Err(AssembleError::Field { field, error }),
    }
}

/// Assembles the plain bootloader whose arrays `source` declares under the
/// names in `symbols`.
pub fn build_bootloader(source: &[u8], symbols: &BootloaderSymbols) -> (file: Result<
    Vec<u8>,
    AssembleError,
>)
    ensures
        bytes_of(file) == built_bootloader(source@, symbols@),
{
    let image = match extract_field(source, symbols.image.as_slice(), FirmwareField::Image) {
        Ok(bytes) => bytes,
        Err(e) => {
            return Err(e);
        },
    };
    let descriptor = match extract_field(
        source,
        symbols.descriptor.as_slice(),
        FirmwareField::Descriptor,
    ) {
        Ok(bytes) => bytes,
        Err(e) => {
            return Err(e);
        },
    };
    assemble_bootloader(descriptor.as_slice(), image.as_slice())
}

/// Assembles the signed image whose arrays `source` declares under the names
/// in `symbols`, with signatures of `per_signature_size` bytes each.
pub fn build_signed_image(source: &[u8], symbols: &SignedSymbols, per_signature_size: u32) -> (file:
    Result<Vec<u8>, AssembleError>)
    ensures
        bytes_of(file) == built_signed_image(source@, symbols@, per_signature_size),
{
    let image = match extract_field(source, symbols.image.as_slice(), FirmwareField::Image) {
        Ok(bytes) => bytes,
        Err(e) => {
            return Err(e);
        },
    };
    let signatures = match extract_field(
        source,
        symbols.signatures.as_slice(),
        FirmwareField::SignatureBlock,
    ) {
        Ok(bytes) => bytes,
        Err(e) => {
            return Err(e);
        },
    };
    match count_signatures(signatures.len(), per_signature_size) {
        Ok(_) => {},
        Err(e) => {
            return Err(e);
        },
    }
    let patch_location = match extract_field(
        source,
        symbols.patch_location.as_slice(),
        FirmwareField::PatchLocation,
    ) {
        Ok(bytes) => bytes,
        Err(e) => {
            return Err(e);
        },
    };
    let patch_metadata = match extract_field(
        source,
        symbols.patch_metadata.as_slice(),
        FirmwareField::PatchMetadata,
    ) {
        Ok(bytes) => bytes,
        Err(e) => {
            return Err(e);
        },
    };
    let descriptor = match extract_field(
        source,
        symbols.descriptor.as_slice(),
        FirmwareField::HeaderDescriptor,
    ) {
        Ok(bytes) => bytes,
        Err(e) => {
            return Err(e);
        },
    };
    assemble_signed(
        image.as_slice(),
        signatures.as_slice(),
        patch_location.as_slice(),
        patch_metadata.as_slice(),
        descriptor.as_slice(),
        per_signature_size,
    )
}

/// The bytes of `file` that begin at `offset` and are `len` long.
pub open spec fn part(file: Seq<u8>, offset: int, len: int) -> Seq<u8> {
    file.subrange(offset, offset + len)
}

/// A plain bootloader is its three parts, one behind the other.
proof fn lemma_bootloader_parts(descriptor: Seq<u8>, image: Seq<u8>)
    ensures
        ({
            let file = bootloader_layout(descriptor, image);
            let header = BinHeader::for_payload(
                bootloader_payload_offset(descriptor.len()) as u32,
                image.len() as u32,
            );
            &&& file.len() == 24 + descriptor.len() + image.len()
            &&& part(file, 0, 24) == header.encoding()
            &&& part(file, 24, descriptor.len() as int) == descriptor
            &&& part(file, 24 + descriptor.len() as int, image.len() as int) == image
        }),
{
    let file = bootloader_layout(descriptor, image);
    let header = BinHeader::for_payload(
        bootloader_payload_offset(descriptor.len()) as u32,
        image.len() as u32,
    );
    header.lemma_round_trip();
    assert(part(file, 0, 24) =~= header.encoding());
    assert(part(file, 24, descriptor.len() as int) =~= descriptor);
    assert(part(file, 24 + descriptor.len() as int, image.len() as int) =~= image);
}

/// Reading a plain bootloader back gives what it was built from: the header
/// at its beginning holds the magic number, the version and its own size,
/// says where the image lies and how long it is, and declares a total size
/// that is a multiple of 256 and covers the file; the descriptor lies behind
/// the header and the image where the header says.
pub proof fn lemma_bootloader_round_trip(descriptor: Seq<u8>, image: Seq<u8>)
    requires
        bootloader_image(descriptor, image) is Ok,
    ensures
        ({
            let file = bootloader_image(descriptor, image).unwrap();
            let header = BinHeader::decoding(file).unwrap();
            &&& BinHeader::decoding(file) is Some
            &&& header.magic == 0x10DE
            &&& header.version == 1
            &&& header.header_size == 24
            &&& header.payload_offset == 24 + descriptor.len()
            &&& header.payload_size == image.len()
            &&& header.total_size == round_up(24 + descriptor.len() as int + image.len() as int, 256)
            &&& header.total_size % 256 == 0
            &&& header.total_size >= file.len()
            &&& file.len() == header.payload_offset + header.payload_size
            &&& part(file, 24, header.payload_offset - 24) == descriptor
            &&& part(file, header.payload_offset as int, header.payload_size as int) == image
        }),
{
    let file = bootloader_layout(descriptor, image);
    let header = BinHeader::for_payload(
        bootloader_payload_offset(descriptor.len()) as u32,
        image.len() as u32,
    );
    lemma_round_up(24 + descriptor.len() as int + image.len() as int, 256);
    lemma_bootloader_parts(descriptor, image);
    assert(file =~= header.encoding() + (descriptor + image));
    header.lemma_leads_file(descriptor + image);
}

/// Six sequences, one behind the other, are found again where they were put.
proof fn lemma_six_parts(
    a: Seq<u8>,
    b: Seq<u8>,
    c: Seq<u8>,
    d: Seq<u8>,
    e: Seq<u8>,
    f: Seq<u8>,
)
    ensures
        ({
            let file = a + b + c + d + e + f;
            let at_b = a.len() as int;
            let at_c = at_b + b.len();
            let at_d = at_c + c.len();
            let at_e = at_d + d.len();
            let at_f = at_e + e.len();
            &&& file.len() == at_f + f.len()
            &&& part(file, 0, a.len() as int) == a
            &&& part(file, at_b, b.len() as int) == b
            &&& part(file, at_c, c.len() as int) == c
            &&& part(file, at_d, d.len() as int) == d
            &&& part(file, at_e, e.len() as int) == e
            &&& part(file, at_f, f.len() as int) == f
        }),
{
}

/// A signed image is its six parts, one behind the other.
proof fn lemma_signed_parts(
    image: Seq<u8>,
    signatures: Seq<u8>,
    patch_location: Seq<u8>,
    patch_metadata: Seq<u8>,
    descriptor: Seq<u8>,
    count: nat,
)
    requires
        descriptor.len() == 36,
    ensures
        ({
            let file = signed_layout(
                image,
                signatures,
                patch_location,
                patch_metadata,
                descriptor,
                count,
            );
            let size = signatures.len() as int;
            &&& file.len() == 120 + size + image.len()
            &&& part(file, 0, 24) == BinHeader::for_payload(
                signed_payload_offset(signatures.len()) as u32,
                image.len() as u32,
            ).encoding()
            &&& part(file, 24, 36) == HsHeaderV2::for_signatures(size as u32).encoding()
            &&& part(file, 60, size) == signatures
            &&& part(file, 60 + size, 24) == encode_words(
                patch_words(patch_location, patch_metadata, count),
            )
            &&& part(file, 84 + size, 36) == descriptor
            &&& part(file, 120 + size, image.len() as int) == image
        }),
{
    let size = signatures.len() as int;
    let bin = BinHeader::for_payload(
        signed_payload_offset(signatures.len()) as u32,
        image.len() as u32,
    );
    let hs = HsHeaderV2::for_signatures(size as u32);
    let patch = encode_words(patch_words(patch_location, patch_metadata, count));
    bin.lemma_round_trip();
    hs.lemma_round_trip();
    lemma_six_parts(bin.encoding(), hs.encoding(), signatures, patch, descriptor, image);
}

/// The six words of patch values are, as bytes, the patch location and the
/// patch metadata as they were given, with the word 0 between them and the
/// number of signatures behind them.
pub proof fn lemma_patch_block(patch_location: Seq<u8>, patch_metadata: Seq<u8>, count: nat)
    requires
        patch_location.len() == 4,
        patch_metadata.len() == 12,
        count <= u32::MAX,
    ensures
        encode_words(patch_words(patch_location, patch_metadata, count)) == patch_location
            + le_bytes(0) + patch_metadata + le_bytes(count as u32),
{
    let words = patch_words(patch_location, patch_metadata, count);
    let patch = encode_words(words);
    let copy = patch_location + le_bytes(0) + patch_metadata + le_bytes(count as u32);
    lemma_le_bytes_of_value(patch_location);
    lemma_le_bytes_of_value(patch_metadata.subrange(0, 4));
    lemma_le_bytes_of_value(patch_metadata.subrange(4, 8));
    lemma_le_bytes_of_value(patch_metadata.subrange(8, 12));
    lemma_word_of_encoding(words, 0);
    lemma_word_of_encoding(words, 1);
    lemma_word_of_encoding(words, 2);
    lemma_word_of_encoding(words, 3);
    lemma_word_of_encoding(words, 4);
    lemma_word_of_encoding(words, 5);
    assert forall|j: int| 0 <= j < 24 implies patch[j] == copy[j] by {
        let k = j / 4;
        assert(patch.subrange(4 * k, 4 * k + 4)[j - 4 * k] == patch[j]);
        if k == 2 {
            assert(patch_metadata.subrange(0, 4)[j - 8] == patch_metadata[j - 8]);
        } else if k == 3 {
            assert(patch_metadata.subrange(4, 8)[j - 12] == patch_metadata[j - 8]);
        } else if k == 4 {
            assert(patch_metadata.subrange(8, 12)[j - 16] == patch_metadata[j - 8]);
        }
    }
    assert(patch =~= copy);
}

/// A valid number of signatures is at least one, and so many signatures
/// fill the block exactly.
pub proof fn lemma_signature_count(block_size: nat, per_signature_size: u32)
    requires
        signature_count(block_size, per_signature_size) is Some,
    ensures
        signature_count(block_size, per_signature_size).unwrap() >= 1,
        signature_count(block_size, per_signature_size).unwrap() * per_signature_size
            == block_size,
        signature_count(block_size, per_signature_size).unwrap() <= block_size,
{
    let size = per_signature_size as int;
    let count = block_size as int / size;
    assert(count * size == block_size && count <= block_size) by (nonlinear_arith)
        requires
            size > 0,
            block_size >= 0,
            block_size as int % size == 0,
            count == block_size as int / size,
    ;
}

/// The two headers of a signed image, read back from the file.
proof fn lemma_signed_headers(
    image: Seq<u8>,
    signatures: Seq<u8>,
    patch_location: Seq<u8>,
    patch_metadata: Seq<u8>,
    descriptor: Seq<u8>,
    count: nat,
)
    requires
        descriptor.len() == 36,
    ensures
        ({
            let file = signed_layout(
                image,
                signatures,
                patch_location,
                patch_metadata,
                descriptor,
                count,
            );
            &&& BinHeader::decoding(file) == Some(
                BinHeader::for_payload(
                    signed_payload_offset(signatures.len()) as u32,
                    image.len() as u32,
                ),
            )
            &&& HsHeaderV2::decoding(part(file, 24, 36)) == Some(
                HsHeaderV2::for_signatures(signatures.len() as u32),
            )
        }),
{
    let file = signed_layout(image, signatures, patch_location, patch_metadata, descriptor, count);
    let bin = BinHeader::for_payload(
        signed_payload_offset(signatures.len()) as u32,
        image.len() as u32,
    );
    let hs = HsHeaderV2::for_signatures(signatures.len() as u32);
    lemma_signed_parts(image, signatures, patch_location, patch_metadata, descriptor, count);
    bin.lemma_leads_file(file.subrange(24, file.len() as int));
    hs.lemma_round_trip();
}

/// Reading the container header of a signed image back gives the sizes that
/// the image was built from. The header at the beginning of the file holds
/// the magic number, the version and its own size, says where the image lies
/// and how long it is, and declares a total size that is a multiple of 256
/// and covers the file. The image lies where the header says, and the file
/// ends with it.
pub proof fn lemma_signed_image_round_trip(
    image: Seq<u8>,
    signatures: Seq<u8>,
    patch_location: Seq<u8>,
    patch_metadata: Seq<u8>,
    descriptor: Seq<u8>,
    per_signature_size: u32,
)
    requires
        signed_image(
            image,
            signatures,
            patch_location,
            patch_metadata,
            descriptor,
            per_signature_size,
        ) is Ok,
    ensures
        ({
            let file = signed_image(
                image,
                signatures,
                patch_location,
                patch_metadata,
                descriptor,
                per_signature_size,
            ).unwrap();
            let header = BinHeader::decoding(file).unwrap();
            &&& BinHeader::decoding(file) is Some
            &&& header.magic == 0x10DE
            &&& header.version == 1
            &&& header.header_size == 24
            &&& header.payload_offset == 120 + signatures.len()
            &&& header.payload_size == image.len()
            &&& header.total_size == round_up(
                120 + signatures.len() as int + image.len() as int,
                256,
            )
            &&& header.total_size % 256 == 0
            &&& header.total_size >= file.len()
            &&& file.len() == header.payload_offset + header.payload_size
            &&& part(file, header.payload_offset as int, header.payload_size as int) == image
        }),
{
    let count = signature_count(signatures.len(), per_signature_size).unwrap();
    lemma_round_up(120 + signatures.len() as int + image.len() as int, 256);
    lemma_signed_parts(image, signatures, patch_location, patch_metadata, descriptor, count);
    lemma_signed_headers(image, signatures, patch_location, patch_metadata, descriptor, count);
}

/// Reading the second header of a signed image back gives the size of the
/// signature block, and at each offset that the header names lies what the
/// image was built from, byte for byte: the signatures, the patch location, a
/// patch signature index of 0, the patch metadata, the number of signatures,
/// and the descriptor.
pub proof fn lemma_signed_image_parts_round_trip(
    image: Seq<u8>,
    signatures: Seq<u8>,
    patch_location: Seq<u8>,
    patch_metadata: Seq<u8>,
    descriptor: Seq<u8>,
    per_signature_size: u32,
)
    requires
        signed_image(
            image,
            signatures,
            patch_location,
            patch_metadata,
            descriptor,
            per_signature_size,
        ) is Ok,
    ensures
        ({
            let file = signed_image(
                image,
                signatures,
                patch_location,
                patch_metadata,
                descriptor,
                per_signature_size,
            ).unwrap();
            let count = signature_count(signatures.len(), per_signature_size).unwrap();
            let hs = HsHeaderV2::decoding(part(file, 24, 36)).unwrap();
            &&& HsHeaderV2::decoding(part(file, 24, 36)) is Some
            &&& hs == HsHeaderV2::for_signatures(signatures.len() as u32)
            &&& hs.sig_offset == 60
            &&& hs.sig_size == signatures.len()
            &&& part(file, hs.sig_offset as int, hs.sig_size as int) == signatures
            &&& part(file, hs.patch_loc_offset as int, 4) == patch_location
            &&& le_value(part(file, hs.patch_sig_offset as int, 4)) == 0
            &&& hs.meta_data_size == 12
            &&& part(file, hs.meta_data_offset as int, hs.meta_data_size as int)
                == patch_metadata
            &&& le_value(part(file, hs.num_sig_offset as int, 4)) == count
            &&& hs.header_size == 36
            &&& part(file, hs.header_offset as int, hs.header_size as int) == descriptor
        }),
{
    let count = signature_count(signatures.len(), per_signature_size).unwrap();
    let file = signed_layout(image, signatures, patch_location, patch_metadata, descriptor, count);
    let size = signatures.len() as int;
    lemma_signature_count(signatures.len(), per_signature_size);
    lemma_signed_parts(image, signatures, patch_location, patch_metadata, descriptor, count);
    lemma_signed_headers(image, signatures, patch_location, patch_metadata, descriptor, count);
    lemma_patch_block(patch_location, patch_metadata, count);
    lemma_le_round_trip(0);
    lemma_le_round_trip(count as u32);
    assert(part(file, 64 + size, 4) =~= le_bytes(0));
    assert(part(file, 80 + size, 4) =~= le_bytes(count as u32));
}

/// A signature block that is no whole number of signatures, or that holds
/// none, makes the assembly fail with an invalid signature count, whatever
/// the other parts are. So does a signature size of 0.
pub proof fn lemma_invalid_signature_count(
    image: Seq<u8>,
    signatures: Seq<u8>,
    patch_location: Seq<u8>,
    patch_metadata: Seq<u8>,
    descriptor: Seq<u8>,
    per_signature_size: u32,
)
    requires
        per_signature_size == 0 || signatures.len() % (per_signature_size as nat) != 0
            || signatures.len() / (per_signature_size as nat) == 0,
    ensures
        signed_image(
            image,
            signatures,
            patch_location,
            patch_metadata,
            descriptor,
            per_signature_size,
        ) == Err::<Seq<u8>, AssembleError>(AssembleError::InvalidSignatureCount),
{
}

/// A part of a fixed length that is supplied with another length makes the
/// assembly fail with a size mismatch for that part, where the number of
/// signatures is valid. The first such part in the order patch location,
/// patch metadata, descriptor is the one that is reported.
pub proof fn lemma_wrong_fixed_length(
    image: Seq<u8>,
    signatures: Seq<u8>,
    patch_location: Seq<u8>,
    patch_metadata: Seq<u8>,
    descriptor: Seq<u8>,
    per_signature_size: u32,
)
    requires
        signature_count(signatures.len(), per_signature_size) is Some,
        patch_location.len() != 4 || patch_metadata.len() != 12 || descriptor.len() != 36,
    ensures
        signed_image(
            image,
            signatures,
            patch_location,
            patch_metadata,
            descriptor,
            per_signature_size,
        ) == Err::<Seq<u8>, AssembleError>(
            if patch_location.len() != 4 {
                wrong_length(FirmwareField::PatchLocation, 4, patch_location)
            } else if patch_metadata.len() != 12 {
                wrong_length(FirmwareField::PatchMetadata, 12, patch_metadata)
            } else {
                wrong_length(FirmwareField::HeaderDescriptor, 36, descriptor)
            },
        ),
{
}

} // verus!
