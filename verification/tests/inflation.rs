use extract_firmware_nouveau::inflate::{check_inflated, inflate, DecodeError, InflateStatus};
use flate2::{Compress, Compression, FlushCompress};

const STREAM: [u8; 8] = [0x4b, 0x4c, 0x4a, 0x4e, 0x49, 0x44, 0xc2, 0x00];

const STORED: [u8; 10] = [0x01, 0x05, 0x00, 0xfa, 0xff, b'h', b'e', b'l', b'l', b'o'];

#[test]
fn stream_inflates_to_its_length() {
    assert_eq!(inflate(&STREAM, 16), Ok(b"abcdabcdabcdabcd".to_vec()));
}

#[test]
fn stored_block_inflates_to_its_bytes() {
    assert_eq!(inflate(&STORED, 5), Ok(b"hello".to_vec()));
}

#[test]
fn too_little_room_is_a_decode_error() {
    assert_eq!(inflate(&STREAM, 15), Err(DecodeError));
    assert_eq!(inflate(&STREAM, 0), Err(DecodeError));
    assert_eq!(inflate(&STORED, 4), Err(DecodeError));
}

#[test]
fn too_much_room_is_a_decode_error() {
    assert_eq!(inflate(&STREAM, 17), Err(DecodeError));
    assert_eq!(inflate(&STORED, 6), Err(DecodeError));
    assert_eq!(inflate(&STREAM, 4096), Err(DecodeError));
}

#[test]
fn corrupt_stream_is_a_decode_error() {
    assert_eq!(inflate(&[0xff, 0xff, 0xff, 0xff], 4), Err(DecodeError));
    assert_eq!(
        inflate(&[0x01, 0x05, 0x00, 0x00, 0x00, b'h', b'e', b'l', b'l', b'o'], 5),
        Err(DecodeError)
    );
}

#[test]
fn cut_stream_is_a_decode_error() {
    assert_eq!(inflate(&STREAM[..7], 16), Err(DecodeError));
    assert_eq!(inflate(&STORED[..9], 5), Err(DecodeError));
    assert_eq!(inflate(&STORED[..9], 4), Err(DecodeError));
    assert_eq!(inflate(&[], 0), Err(DecodeError));
}

#[test]
fn bytes_behind_the_stream_are_ignored() {
    let mut long = STREAM.to_vec();
    long.extend_from_slice(&[1, 2, 3]);
    assert_eq!(inflate(&long, 16), Ok(b"abcdabcdabcdabcd".to_vec()));
}

#[test]
fn empty_stream_inflates_to_nothing() {
    assert_eq!(inflate(&[0x03, 0x00], 0), Ok(vec![]));
}

#[test]
fn absurd_size_is_a_decode_error() {
    assert_eq!(inflate(&STREAM, usize::MAX), Err(DecodeError));
    assert_eq!(inflate(&STREAM, usize::MAX / 2 + 1), Err(DecodeError));
}

#[test]
fn compressed_data_comes_back() {
    let mut data = Vec::new();
    for i in 0..5000u32 {
        data.push((i * i % 251) as u8);
    }
    let mut packed = Vec::with_capacity(8192);
    let mut encoder = Compress::new(Compression::default(), false);
    encoder
        .compress_vec(&data, &mut packed, FlushCompress::Finish)
        .unwrap();
    assert_ne!(packed, data);
    assert_eq!(inflate(&packed, data.len()), Ok(data.clone()));
    assert_eq!(inflate(&packed, data.len() - 1), Err(DecodeError));
    assert_eq!(inflate(&packed, data.len() + 1), Err(DecodeError));
}

#[test]
fn outcome_of_sixteen_bytes_is_accepted() {
    assert_eq!(
        check_inflated(Some((vec![7; 16], InflateStatus::StreamEnd)), 16),
        Ok(vec![7; 16])
    );
    assert_eq!(
        check_inflated(Some((vec![], InflateStatus::StreamEnd)), 0),
        Ok(vec![])
    );
}

#[test]
fn outcome_of_fifteen_bytes_is_a_decode_error() {
    assert_eq!(
        check_inflated(Some((vec![7; 15], InflateStatus::StreamEnd)), 16),
        Err(DecodeError)
    );
    assert_eq!(
        check_inflated(Some((vec![7; 17], InflateStatus::StreamEnd)), 16),
        Err(DecodeError)
    );
}

#[test]
fn unfinished_outcome_is_a_decode_error() {
    assert_eq!(
        check_inflated(Some((vec![7; 16], InflateStatus::Stalled)), 16),
        Err(DecodeError)
    );
    assert_eq!(
        check_inflated(Some((vec![7; 16], InflateStatus::Progress)), 16),
        Err(DecodeError)
    );
}

#[test]
fn rejected_stream_is_a_decode_error() {
    assert_eq!(check_inflated(None, 16), Err(DecodeError));
    assert_eq!(check_inflated(None, 0), Err(DecodeError));
}
