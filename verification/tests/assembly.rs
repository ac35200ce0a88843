use extract_firmware_nouveau::assemble::{
    assemble_bootloader, assemble_signed, build_bootloader, build_signed_image,
    count_signatures, FirmwareField, PatchMeta,
};
use extract_firmware_nouveau::error::{AssembleError, ExtractError};
use extract_firmware_nouveau::header::{BinHeader, HsHeaderV2};
use extract_firmware_nouveau::le::{decode_u32, decode_u32_fields, encode_u32_fields};
use extract_firmware_nouveau::symbols::{
    booter_symbols, bootloader_symbols, scrubber_symbols, BootloaderSymbols, SignedSymbols,
};
use flate2::{Compress, Compression, FlushCompress};

fn pattern(len: usize, seed: u8) -> Vec<u8> {
    let mut bytes = Vec::with_capacity(len);
    for i in 0..len {
        bytes.push(seed.wrapping_add((i % 251) as u8).wrapping_mul(7));
    }
    bytes
}

fn body(bytes: &[u8]) -> String {
    let mut text = String::new();
    for row in bytes.chunks(8) {
        text.push_str("   ");
        for b in row {
            text.push_str(&format!(" 0x{:02x},", b));
        }
        text.push('\n');
    }
    text
}

fn plain_array(name: &str, bytes: &[u8]) -> String {
    format!(
        "//\n// FUNCTION: get(\"{}\")\n// FILE TYPE: IMAGE\n// VAR NAME: N/A\n\
         // COMPRESSION: NO\n// COMPLEX_STRUCT: NO\n// DATA SIZE (bytes): {}\n\
         // COMPRESSED SIZE (bytes): N/A\n//\nstatic BINDATA_CONST NvU8 {}[] =\n{{\n{}}};\n\n",
        name,
        bytes.len(),
        name,
        body(bytes)
    )
}

fn packed_array(name: &str, bytes: &[u8]) -> String {
    let mut packed = Vec::with_capacity(bytes.len() + 1024);
    let mut encoder = Compress::new(Compression::best(), false);
    encoder
        .compress_vec(bytes, &mut packed, FlushCompress::Finish)
        .unwrap();
    format!(
        "//\n// FUNCTION: get(\"{}\")\n// FILE TYPE: IMAGE\n// VAR NAME: N/A\n\
         // COMPRESSION: YES\n// COMPLEX_STRUCT: NO\n// DATA SIZE (bytes): {}\n\
         // COMPRESSED SIZE (bytes): {}\n//\nstatic BINDATA_CONST NvU8 {}[] =\n{{\n{}}};\n\n",
        name,
        bytes.len(),
        packed.len(),
        name,
        body(&packed)
    )
}

fn name(bytes: &[u8]) -> &str {
    std::str::from_utf8(bytes).unwrap()
}

const LOCATION: [u8; 4] = [0x78, 0x56, 0x34, 0x12];

const METADATA: [u8; 12] = [1, 0, 0, 0, 2, 0, 0, 0, 3, 0, 0, 0];

fn signed_source(
    symbols: &SignedSymbols,
    image: &[u8],
    signatures: &[u8],
    location: &[u8],
    metadata: &[u8],
    descriptor: &[u8],
) -> String {
    let mut text = String::from("// generated\n\n");
    text.push_str(&packed_array(name(&symbols.image), image));
    text.push_str(&plain_array(name(&symbols.descriptor), descriptor));
    text.push_str(&plain_array(name(&symbols.signatures), signatures));
    text.push_str(&plain_array(name(&symbols.patch_location), location));
    text.push_str(&plain_array(name(&symbols.patch_metadata), metadata));
    text
}

fn expected_signed(image: &[u8], signatures: &[u8], descriptor: &[u8], count: u32) -> Vec<u8> {
    let size = signatures.len() as u32;
    let end = 120 + size + image.len() as u32;
    let total = (end + 255) / 256 * 256;
    let mut file = encode_u32_fields(&[0x10de, 1, total, 24, 120 + size, image.len() as u32]);
    file.extend_from_slice(&encode_u32_fields(&[
        60,
        size,
        60 + size,
        64 + size,
        68 + size,
        12,
        80 + size,
        84 + size,
        36,
    ]));
    file.extend_from_slice(signatures);
    file.extend_from_slice(&encode_u32_fields(&[0x1234_5678, 0, 1, 2, 3, count]));
    file.extend_from_slice(descriptor);
    file.extend_from_slice(image);
    file
}

#[test]
fn fixed_sizes_of_the_fields() {
    assert_eq!(FirmwareField::Image.expected_size(), None);
    assert_eq!(FirmwareField::Descriptor.expected_size(), None);
    assert_eq!(FirmwareField::SignatureBlock.expected_size(), None);
    assert_eq!(FirmwareField::PatchLocation.expected_size(), Some(4));
    assert_eq!(FirmwareField::PatchMetadata.expected_size(), Some(12));
    assert_eq!(FirmwareField::HeaderDescriptor.expected_size(), Some(36));
}

#[test]
fn patch_metadata_is_three_words() {
    assert_eq!(
        PatchMeta::parse(&[1, 2, 3, 4, 5, 6, 7, 8, 9, 10, 11, 12]),
        Some(PatchMeta {
            fuse_version: 0x0403_0201,
            engine_id: 0x0807_0605,
            ucode_id: 0x0c0b_0a09,
        })
    );
    assert_eq!(
        PatchMeta::parse(&METADATA),
        Some(PatchMeta { fuse_version: 1, engine_id: 2, ucode_id: 3 })
    );
}

#[test]
fn patch_metadata_needs_twelve_bytes() {
    assert_eq!(PatchMeta::parse(&METADATA[..11]), None);
    assert_eq!(PatchMeta::parse(&METADATA[..8]), None);
    assert_eq!(PatchMeta::parse(&[0; 13]), None);
    assert_eq!(PatchMeta::parse(&[0; 16]), None);
    assert_eq!(PatchMeta::parse(&[]), None);
}

#[test]
fn signatures_are_counted() {
    assert_eq!(count_signatures(32, 16), Ok(2));
    assert_eq!(count_signatures(16, 16), Ok(1));
    assert_eq!(count_signatures(384 * 3, 384), Ok(3));
    assert_eq!(count_signatures(5, 1), Ok(5));
}

#[test]
fn uneven_signature_block_is_invalid() {
    assert_eq!(count_signatures(33, 16), Err(AssembleError::InvalidSignatureCount));
    assert_eq!(count_signatures(15, 16), Err(AssembleError::InvalidSignatureCount));
    assert_eq!(count_signatures(383, 384), Err(AssembleError::InvalidSignatureCount));
}

#[test]
fn zero_signatures_are_invalid() {
    assert_eq!(count_signatures(0, 16), Err(AssembleError::InvalidSignatureCount));
    assert_eq!(count_signatures(0, 1), Err(AssembleError::InvalidSignatureCount));
}

#[test]
fn signature_size_of_zero_is_invalid() {
    assert_eq!(count_signatures(32, 0), Err(AssembleError::InvalidSignatureCount));
    assert_eq!(count_signatures(0, 0), Err(AssembleError::InvalidSignatureCount));
}

#[test]
fn bootloader_is_header_descriptor_image() {
    let descriptor = pattern(24, 1);
    let image = pattern(100, 2);
    let file = assemble_bootloader(&descriptor, &image).unwrap();
    let mut expected = encode_u32_fields(&[0x10de, 1, 256, 24, 48, 100]);
    expected.extend_from_slice(&descriptor);
    expected.extend_from_slice(&image);
    assert_eq!(file, expected);
    assert_eq!(file.len(), 148);
}

#[test]
fn bootloader_reads_back() {
    let descriptor = pattern(76, 3);
    let image = pattern(1000, 4);
    let file = assemble_bootloader(&descriptor, &image).unwrap();
    let header = BinHeader::parse(&file).unwrap();
    assert_eq!(header.magic, 0x10de);
    assert_eq!(header.version, 1);
    assert_eq!(header.header_size, 24);
    assert_eq!(header.payload_offset, 100);
    assert_eq!(header.payload_size, 1000);
    assert_eq!(header.total_size, 1280);
    assert_eq!(file.len(), 1100);
    assert_eq!(&file[24..100], &descriptor[..]);
    assert_eq!(&file[100..], &image[..]);
}

#[test]
fn bootloader_of_empty_parts() {
    assert_eq!(
        assemble_bootloader(&[], &[]),
        Ok(encode_u32_fields(&[0x10de, 1, 256, 24, 24, 0]))
    );
}

#[test]
fn signed_image_is_packed_in_order() {
    let image = pattern(10, 5);
    let signatures = pattern(32, 6);
    let descriptor = pattern(36, 7);
    let file = assemble_signed(&image, &signatures, &LOCATION, &METADATA, &descriptor, 16).unwrap();
    assert_eq!(file, expected_signed(&image, &signatures, &descriptor, 2));
    assert_eq!(file.len(), 162);
    assert_eq!(
        decode_u32_fields(&file[..24], 6),
        Some(vec![0x10de, 1, 256, 24, 152, 10])
    );
    assert_eq!(
        decode_u32_fields(&file[24..60], 9),
        Some(vec![60, 32, 92, 96, 100, 12, 112, 116, 36])
    );
    assert_eq!(
        decode_u32_fields(&file[92..116], 6),
        Some(vec![0x1234_5678, 0, 1, 2, 3, 2])
    );
}

#[test]
fn signed_image_reads_back() {
    let image = pattern(3000, 8);
    let signatures = pattern(384 * 3, 9);
    let descriptor = pattern(36, 10);
    let file = assemble_signed(&image, &signatures, &LOCATION, &METADATA, &descriptor, 384).unwrap();
    let bin = BinHeader::parse(&file).unwrap();
    assert_eq!(bin.magic, 0x10de);
    assert_eq!(bin.version, 1);
    assert_eq!(bin.header_size, 24);
    assert_eq!(bin.payload_offset, 120 + 1152);
    assert_eq!(bin.payload_size, 3000);
    assert_eq!(bin.total_size, 4352);
    assert_eq!(file.len() as u32, bin.payload_offset + bin.payload_size);
    let hs = HsHeaderV2::parse(&file[24..]).unwrap();
    assert_eq!(hs.sig_offset, 60);
    assert_eq!(hs.sig_size, 1152);
    let at = |offset: u32, len: u32| &file[offset as usize..(offset + len) as usize];
    assert_eq!(at(hs.sig_offset, hs.sig_size), &signatures[..]);
    assert_eq!(decode_u32(at(hs.patch_loc_offset, 4)), Some(0x1234_5678));
    assert_eq!(decode_u32(at(hs.patch_sig_offset, 4)), Some(0));
    assert_eq!(
        PatchMeta::parse(at(hs.meta_data_offset, hs.meta_data_size)),
        Some(PatchMeta { fuse_version: 1, engine_id: 2, ucode_id: 3 })
    );
    assert_eq!(decode_u32(at(hs.num_sig_offset, 4)), Some(3));
    assert_eq!(at(hs.header_offset, hs.header_size), &descriptor[..]);
    assert_eq!(at(bin.payload_offset, bin.payload_size), &image[..]);
}

#[test]
fn signed_image_with_an_uneven_signature_block() {
    let descriptor = pattern(36, 11);
    assert_eq!(
        assemble_signed(&[1, 2], &pattern(33, 1), &LOCATION, &METADATA, &descriptor, 16),
        Err(AssembleError::InvalidSignatureCount)
    );
    assert_eq!(
        assemble_signed(&[1, 2], &pattern(31, 1), &LOCATION, &METADATA, &descriptor, 16),
        Err(AssembleError::InvalidSignatureCount)
    );
}

#[test]
fn signed_image_without_signatures() {
    let descriptor = pattern(36, 12);
    assert_eq!(
        assemble_signed(&[1, 2], &[], &LOCATION, &METADATA, &descriptor, 16),
        Err(AssembleError::InvalidSignatureCount)
    );
    assert_eq!(
        assemble_signed(&[1, 2], &pattern(32, 1), &LOCATION, &METADATA, &descriptor, 0),
        Err(AssembleError::InvalidSignatureCount)
    );
}

#[test]
fn signed_image_with_a_short_patch_location() {
    let descriptor = pattern(36, 13);
    assert_eq!(
        assemble_signed(&[1, 2], &pattern(32, 1), &LOCATION[..3], &METADATA, &descriptor, 16),
        Err(AssembleError::Field {
            field: FirmwareField::PatchLocation,
            error: ExtractError::SizeMismatch { expected: 4, actual: 3 },
        })
    );
}

#[test]
fn signed_image_with_wrong_fixed_lengths() {
    let descriptor = pattern(36, 14);
    assert_eq!(
        assemble_signed(&[1, 2], &pattern(32, 1), &LOCATION, &METADATA[..8], &descriptor, 16),
        Err(AssembleError::Field {
            field: FirmwareField::PatchMetadata,
            error: ExtractError::SizeMismatch { expected: 12, actual: 8 },
        })
    );
    assert_eq!(
        assemble_signed(&[1, 2], &pattern(32, 1), &LOCATION, &METADATA, &pattern(37, 1), 16),
        Err(AssembleError::Field {
            field: FirmwareField::HeaderDescriptor,
            error: ExtractError::SizeMismatch { expected: 36, actual: 37 },
        })
    );
    assert_eq!(
        assemble_signed(&[1, 2], &pattern(32, 1), &[0; 5], &[], &[], 16),
        Err(AssembleError::Field {
            field: FirmwareField::PatchLocation,
            error: ExtractError::SizeMismatch { expected: 4, actual: 5 },
        })
    );
    assert_eq!(
        assemble_signed(&[1, 2], &pattern(30, 1), &[0; 5], &[], &[], 16),
        Err(AssembleError::InvalidSignatureCount)
    );
}

#[test]
fn signed_image_with_an_empty_image() {
    let signatures = pattern(16, 15);
    let descriptor = pattern(36, 16);
    let file = assemble_signed(&[], &signatures, &LOCATION, &METADATA, &descriptor, 16).unwrap();
    assert_eq!(file, expected_signed(&[], &signatures, &descriptor, 1));
    assert_eq!(file.len(), 136);
}

#[test]
fn bootloader_from_source_text() {
    let symbols = bootloader_symbols(b"tu102", b"");
    let descriptor = pattern(76, 17);
    let image = pattern(5000, 18);
    let mut text = String::new();
    text.push_str(&packed_array(name(&symbols.image), &image));
    text.push_str(&plain_array(name(&symbols.descriptor), &descriptor));
    let file = build_bootloader(text.as_bytes(), &symbols).unwrap();
    assert_eq!(file, assemble_bootloader(&descriptor, &image).unwrap());
    let header = BinHeader::parse(&file).unwrap();
    assert_eq!(header.payload_offset, 100);
    assert_eq!(header.payload_size, 5000);
    assert_eq!(header.total_size, 5120);
    assert_eq!(&file[100..], &image[..]);
}

#[test]
fn bootloader_of_other_names() {
    let symbols = BootloaderSymbols { image: b"img".to_vec(), descriptor: b"desc".to_vec() };
    let text = format!("{}{}", plain_array("desc", &[9; 24]), plain_array("img", &[8; 100]));
    let file = build_bootloader(text.as_bytes(), &symbols).unwrap();
    assert_eq!(file.len(), 148);
    assert_eq!(
        decode_u32_fields(&file[..24], 6),
        Some(vec![0x10de, 1, 256, 24, 48, 100])
    );
    assert_eq!(&file[24..48], &[9; 24]);
    assert_eq!(&file[48..], &[8; 100]);
}

#[test]
fn bootloader_without_its_image() {
    let symbols = bootloader_symbols(b"ga102", b"prod_");
    let text = plain_array(name(&symbols.descriptor), &[1, 2, 3]);
    assert_eq!(
        build_bootloader(text.as_bytes(), &symbols),
        Err(AssembleError::Field {
            field: FirmwareField::Image,
            error: ExtractError::NotFound,
        })
    );
    assert_eq!(
        build_bootloader(b"", &symbols),
        Err(AssembleError::Field {
            field: FirmwareField::Image,
            error: ExtractError::NotFound,
        })
    );
}

#[test]
fn bootloader_without_its_descriptor() {
    let symbols = bootloader_symbols(b"ga102", b"prod_");
    let text = plain_array(name(&symbols.image), &[1, 2, 3]);
    assert_eq!(
        build_bootloader(text.as_bytes(), &symbols),
        Err(AssembleError::Field {
            field: FirmwareField::Descriptor,
            error: ExtractError::NotFound,
        })
    );
}

#[test]
fn bootloader_with_a_damaged_image() {
    let symbols = bootloader_symbols(b"ga102", b"prod_");
    let text = packed_array(name(&symbols.image), &pattern(300, 1))
        .replace("DATA SIZE (bytes): 300", "DATA SIZE (bytes): 301");
    assert_eq!(
        build_bootloader(text.as_bytes(), &symbols),
        Err(AssembleError::Field {
            field: FirmwareField::Image,
            error: ExtractError::DecodeError,
        })
    );
}

#[test]
fn booter_from_source_text() {
    let symbols = booter_symbols(b"tu102", b"load");
    let image = pattern(20000, 19);
    let signatures = pattern(32, 20);
    let descriptor = pattern(36, 21);
    let text = signed_source(&symbols, &image, &signatures, &LOCATION, &METADATA, &descriptor);
    let file = build_signed_image(text.as_bytes(), &symbols, 16).unwrap();
    assert_eq!(file, expected_signed(&image, &signatures, &descriptor, 2));
    let hs = HsHeaderV2::parse(&file[24..]).unwrap();
    assert_eq!(hs.patch_loc_offset, 92);
    assert_eq!(hs.patch_sig_offset, 96);
    assert_eq!(hs.meta_data_offset, 100);
    assert_eq!(hs.num_sig_offset, 112);
    assert_eq!(hs.header_offset, 116);
    assert_eq!(decode_u32(&file[112..116]), Some(2));
}

#[test]
fn scrubber_from_source_text() {
    let symbols = scrubber_symbols(b"ad102");
    let image = pattern(777, 22);
    let signatures = pattern(384, 23);
    let descriptor = pattern(36, 24);
    let text = signed_source(&symbols, &image, &signatures, &LOCATION, &METADATA, &descriptor);
    let file = build_signed_image(text.as_bytes(), &symbols, 384).unwrap();
    assert_eq!(file, expected_signed(&image, &signatures, &descriptor, 1));
    assert_eq!(
        build_signed_image(text.as_bytes(), &booter_symbols(b"ad102", b"load"), 384),
        Err(AssembleError::Field {
            field: FirmwareField::Image,
            error: ExtractError::NotFound,
        })
    );
}

#[test]
fn signed_image_reports_the_first_failure() {
    let symbols = booter_symbols(b"ga100", b"unload");
    let image = pattern(50, 25);
    let descriptor = pattern(36, 26);
    let text = signed_source(&symbols, &image, &pattern(33, 1), &LOCATION[..3], &METADATA, &descriptor);
    assert_eq!(
        build_signed_image(text.as_bytes(), &symbols, 16),
        Err(AssembleError::InvalidSignatureCount)
    );
    let text = signed_source(&symbols, &image, &pattern(32, 1), &LOCATION[..3], &METADATA[..8], &descriptor);
    assert_eq!(
        build_signed_image(text.as_bytes(), &symbols, 16),
        Err(AssembleError::Field {
            field: FirmwareField::PatchLocation,
            error: ExtractError::SizeMismatch { expected: 4, actual: 3 },
        })
    );
    let text = signed_source(&symbols, &image, &pattern(32, 1), &LOCATION, &METADATA[..8], &descriptor[..35]);
    assert_eq!(
        build_signed_image(text.as_bytes(), &symbols, 16),
        Err(AssembleError::Field {
            field: FirmwareField::PatchMetadata,
            error: ExtractError::SizeMismatch { expected: 12, actual: 8 },
        })
    );
    let text = signed_source(&symbols, &image, &pattern(32, 1), &LOCATION, &METADATA, &descriptor[..35]);
    assert_eq!(
        build_signed_image(text.as_bytes(), &symbols, 16),
        Err(AssembleError::Field {
            field: FirmwareField::HeaderDescriptor,
            error: ExtractError::SizeMismatch { expected: 36, actual: 35 },
        })
    );
}

#[test]
fn signed_image_without_one_of_its_arrays() {
    let symbols = booter_symbols(b"ga100", b"unload");
    let image = pattern(50, 27);
    let signatures = pattern(32, 28);
    let descriptor = pattern(36, 29);
    let whole = signed_source(&symbols, &image, &signatures, &LOCATION, &METADATA, &descriptor);
    assert!(build_signed_image(whole.as_bytes(), &symbols, 16).is_ok());
    let cases = [
        (name(&symbols.signatures), FirmwareField::SignatureBlock),
        (name(&symbols.patch_location), FirmwareField::PatchLocation),
        (name(&symbols.patch_metadata), FirmwareField::PatchMetadata),
        (name(&symbols.descriptor), FirmwareField::HeaderDescriptor),
        (name(&symbols.image), FirmwareField::Image),
    ];
    for (symbol, field) in cases {
        let text = whole.replace(&format!("NvU8 {}[]", symbol), "NvU8 renamed[]");
        assert_eq!(
            build_signed_image(text.as_bytes(), &symbols, 16),
            Err(AssembleError::Field { field, error: ExtractError::NotFound })
        );
    }
}
