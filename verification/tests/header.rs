use datasus_dbc::header::{header_len, Header, CHECKSUM_LEN, PREAMBLE_LEN};
use datasus_dbc::splitter::split_header;
use datasus_dbc::Error;

/// A file with the given header body and payload, and a checksum of zeros.
fn dbc(body: &[u8], payload: &[u8]) -> Vec<u8> {
    let declared = 10 + body.len();
    let mut file = vec![0x03, 0x79, 0x01, 0x1f, 0xa1, 0xa2, 0xa3, 0xa4];
    file.push((declared & 0xff) as u8);
    file.push((declared >> 8) as u8);
    file.extend_from_slice(body);
    file.extend_from_slice(&[0, 0, 0, 0]);
    file.extend_from_slice(payload);
    file
}

#[test]
fn region_lengths() {
    assert_eq!(PREAMBLE_LEN, 10);
    assert_eq!(CHECKSUM_LEN, 4);
}

#[test]
fn header_len_is_little_endian() {
    assert_eq!(header_len(&[0, 0, 0, 0, 0, 0, 0, 0, 0x34, 0x12]), 0x1234);
    assert_eq!(header_len(&[9, 9, 9, 9, 9, 9, 9, 9, 0x0c, 0x00]), 12);
    assert_eq!(header_len(&[9, 9, 9, 9, 9, 9, 9, 9, 0x00, 0x01]), 256);
    assert_eq!(header_len(&[0; 10]), 0);
    assert_eq!(header_len(&[0xff; 10]), 65535);
}

#[test]
fn header_new_checks_declared_length() {
    let preamble = [1, 2, 3, 4, 5, 6, 7, 8, 12, 0];
    let header = Header::new(preamble, vec![10, 11]).unwrap();
    assert_eq!(header.preamble(), &preamble);
    assert_eq!(header.body(), &[10, 11]);
    assert_eq!(header.len(), 12);
    assert_eq!(header.into_bytes(), vec![1, 2, 3, 4, 5, 6, 7, 8, 12, 0, 10, 11]);

    assert!(Header::new(preamble, vec![10]).is_none());
    assert!(Header::new(preamble, vec![10, 11, 12]).is_none());
    assert!(Header::new([1, 2, 3, 4, 5, 6, 7, 8, 5, 0], vec![]).is_none());
}

#[test]
fn header_without_body() {
    let preamble = [1, 2, 3, 4, 5, 6, 7, 8, 10, 0];
    let header = Header::new(preamble, vec![]).unwrap();
    assert_eq!(header.len(), 10);
    assert!(header.body().is_empty());
    assert_eq!(header.into_bytes(), preamble.to_vec());
}

#[test]
fn split_empty_input_is_missing_header() {
    assert!(matches!(split_header(&[]), Err(Error::MissingHeader)));
}

#[test]
fn split_nine_bytes_is_missing_header() {
    assert!(matches!(split_header(&[0, 0, 0, 0, 0, 0, 0, 0, 10]), Err(Error::MissingHeader)));
}

#[test]
fn split_ten_bytes_declaring_more_is_invalid_header_size() {
    let file = [1, 2, 3, 4, 5, 6, 7, 8, 11, 0];
    assert!(matches!(split_header(&file), Err(Error::InvalidHeaderSize)));
    let file = [1, 2, 3, 4, 5, 6, 7, 8, 0xff, 0xff];
    assert!(matches!(split_header(&file), Err(Error::InvalidHeaderSize)));
}

#[test]
fn split_declared_length_under_ten_is_invalid_header_size() {
    let mut file = vec![1, 2, 3, 4, 5, 6, 7, 8, 5, 0];
    file.extend_from_slice(&[0; 100]);
    assert!(matches!(split_header(&file), Err(Error::InvalidHeaderSize)));
    file[8] = 9;
    assert!(matches!(split_header(&file), Err(Error::InvalidHeaderSize)));
    file[8] = 0;
    assert!(matches!(split_header(&file), Err(Error::InvalidHeaderSize)));
}

#[test]
fn split_truncated_body_is_invalid_header_size() {
    let file = dbc(&[1, 2, 3, 4, 5], &[]);
    assert!(matches!(split_header(&file[..12]), Err(Error::InvalidHeaderSize)));
    assert!(matches!(split_header(&file[..14]), Err(Error::InvalidHeaderSize)));
}

#[test]
fn split_truncated_checksum_is_invalid_header_size() {
    let file = dbc(&[1, 2, 3, 4, 5], &[]);
    assert_eq!(file.len(), 19);
    assert!(matches!(split_header(&file[..15]), Err(Error::InvalidHeaderSize)));
    assert!(matches!(split_header(&file[..18]), Err(Error::InvalidHeaderSize)));
    assert!(split_header(&file).is_ok());
}

#[test]
fn split_gives_header_and_payload_offset() {
    let file = dbc(&[21, 22, 23], &[0xaa, 0xbb]);
    let (header, offset) = split_header(&file).unwrap();
    assert_eq!(offset, 17);
    assert_eq!(&file[offset..], &[0xaa, 0xbb]);
    assert_eq!(header.preamble(), &[0x03, 0x79, 0x01, 0x1f, 0xa1, 0xa2, 0xa3, 0xa4, 13, 0]);
    assert_eq!(header.body(), &[21, 22, 23]);
    assert_eq!(header.into_bytes(), file[..13].to_vec());
}

#[test]
fn split_header_without_body_or_payload() {
    let file = dbc(&[], &[]);
    assert_eq!(file.len(), 14);
    let (header, offset) = split_header(&file).unwrap();
    assert_eq!(offset, 14);
    assert_eq!(header.len(), 10);
    assert!(header.body().is_empty());
}

#[test]
fn split_long_header() {
    let body: Vec<u8> = (0..1000u32).map(|i| (i % 251) as u8).collect();
    let file = dbc(&body, &[1, 2, 3]);
    let (header, offset) = split_header(&file).unwrap();
    assert_eq!(header.len(), 1010);
    assert_eq!(offset, 1014);
    assert_eq!(header.body(), &body[..]);
}

#[test]
fn split_again_gives_the_same_header() {
    let file = dbc(&[21, 22, 23, 24], &[0xaa, 0xbb, 0xcc]);
    let (first, first_offset) = split_header(&file).unwrap();
    let (second, second_offset) = split_header(&file).unwrap();
    assert_eq!(first.preamble(), second.preamble());
    assert_eq!(first.body(), second.body());
    assert_eq!(first_offset, second_offset);
}

#[test]
fn split_does_not_depend_on_the_payload() {
    let one = dbc(&[21, 22, 23, 24], &[0xaa, 0xbb, 0xcc]);
    let other = dbc(&[21, 22, 23, 24], &[1]);
    let (a, at_a) = split_header(&one).unwrap();
    let (b, at_b) = split_header(&other).unwrap();
    assert_eq!(a.into_bytes(), b.into_bytes());
    assert_eq!(at_a, at_b);
}
