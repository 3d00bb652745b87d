use std::io::Write;

use ckusro_core::compressed_git_object::{
    find_null_pos, inflate, parse_header, split_object, CompressedGitObject,
    CompressedGitObjectError,
};
use ckusro_core::git_object::ObjectTypes;

fn deflate(data: &[u8]) -> Vec<u8> {
    let mut encoder = flate2::write::ZlibEncoder::new(Vec::new(), flate2::Compression::default());
    encoder.write_all(data).unwrap();
    encoder.finish().unwrap()
}

#[test]
fn test_parse() {
    let compressed_bytes = deflate(b"blob 1\0a");

    let actual = CompressedGitObject::new(&compressed_bytes).parse();
    let expected = (ObjectTypes::Blob, 1, "a".as_bytes().to_vec());

    assert_eq!(actual.unwrap(), expected)
}

#[test]
fn test_inflate() {
    let compressed_bytes = deflate(b"foo");
    let ret = inflate(&compressed_bytes).unwrap();

    assert_eq!(ret, b"foo")
}

#[test]
fn test_split_object() {
    let actual = split_object(&b"blob 1\0a".to_vec());
    let expected_header = "blob 1".to_owned();
    let expected_content = b"a".to_vec();
    let expected = (expected_header, expected_content);

    assert_eq!(actual.unwrap(), expected)
}

#[test]
fn test_null_pos() {
    let content = vec![1, 0, 2];
    let actual = find_null_pos(&content);
    let expected: usize = 1;

    assert_eq!(actual.unwrap(), expected);
}

#[test]
fn test_null_pos_when_arg_does_not_include_null_character() {
    let content = vec![1, 2, 3];
    let actual = find_null_pos(&content);

    assert_eq!(
        actual.unwrap_err(),
        CompressedGitObjectError::NullCharacterNotFound
    );
}

#[test]
fn test_parse_header() {
    let header = "blob 1";
    let actual = parse_header(&header).unwrap();

    assert_eq!(actual.0, ObjectTypes::Blob);
    assert_eq!(actual.1, 1);
}

#[test]
fn test_parse_header_when_arg_does_not_contain_spaces() {
    let header = "blob1";
    let actual = parse_header(&header);

    assert!(actual.is_err());
}

#[test]
fn test_parse_header_when_arg_does_not_contain_2_more_spaces() {
    let header = "blob hoge 1";
    let actual = parse_header(&header);

    assert!(actual.is_err());
}

#[test]
fn round_trip_every_kind() {
    let cases: Vec<(&str, ObjectTypes, &[u8])> = vec![
        ("blob", ObjectTypes::Blob, b"a"),
        ("tree", ObjectTypes::Tree, b"100644 file"),
        ("commit", ObjectTypes::Commit, b"tree deadbeef\nauthor someone\n"),
        ("tag", ObjectTypes::Tag, b""),
    ];
    for (token, kind, content) in cases {
        let mut raw: Vec<u8> = Vec::new();
        raw.extend_from_slice(token.as_bytes());
        raw.extend_from_slice(format!(" {}\0", content.len()).as_bytes());
        raw.extend_from_slice(content);
        let compressed = deflate(&raw);
        let actual = CompressedGitObject::new(&compressed).parse().unwrap();
        assert_eq!(actual.0, kind);
        assert_eq!(actual.1, content.len() as u64);
        assert_eq!(actual.2, content.to_vec());
    }
}

#[test]
fn missing_delimiter_fails_decoding() {
    let compressed = deflate(b"blob 1 without any delimiter");
    let actual = CompressedGitObject::new(&compressed).parse();

    assert_eq!(
        actual.unwrap_err(),
        CompressedGitObjectError::NullCharacterNotFound
    );
}

#[test]
fn unknown_kind_fails_decoding() {
    let compressed = deflate(b"widget 1\0a");
    let actual = CompressedGitObject::new(&compressed).parse();

    assert_eq!(
        actual.unwrap_err(),
        CompressedGitObjectError::InvalidTypeName
    );
}

#[test]
fn one_token_header_fails_decoding() {
    let compressed = deflate(b"blob1\0");
    let actual = CompressedGitObject::new(&compressed).parse();

    assert_eq!(actual.unwrap_err(), CompressedGitObjectError::InvalidHeader);
}

#[test]
fn empty_header_fails_decoding() {
    let compressed = deflate(b"\0abc");
    let actual = CompressedGitObject::new(&compressed).parse();

    assert_eq!(actual.unwrap_err(), CompressedGitObjectError::InvalidHeader);
}

#[test]
fn non_utf8_header_fails_decoding() {
    let compressed = deflate(&[0xff, 0xfe, 0x00, 0x61]);
    let actual = CompressedGitObject::new(&compressed).parse();

    assert_eq!(actual.unwrap_err(), CompressedGitObjectError::EncodingError);
}

#[test]
fn garbage_bytes_fail_inflation() {
    let garbage = vec![0x00, 0x01, 0x02, 0x03];
    let actual = CompressedGitObject::new(&garbage).parse();

    assert_eq!(
        actual.unwrap_err(),
        CompressedGitObjectError::InvalidZlibData
    );
}

#[test]
fn declared_length_must_match_content() {
    let compressed = deflate(b"blob 2\0a");
    let actual = CompressedGitObject::new(&compressed).parse();

    assert_eq!(
        actual.unwrap_err(),
        CompressedGitObjectError::LengthMismatch
    );
}

#[test]
fn extra_header_tokens_are_tolerated_when_numeric_is_second() {
    let actual = parse_header("tag 3 trailing words").unwrap();

    assert_eq!(actual, (ObjectTypes::Tag, 3));
}

#[test]
fn length_token_accepts_plus_sign_and_rejects_overflow() {
    assert_eq!(
        parse_header("blob +5").unwrap(),
        (ObjectTypes::Blob, 5)
    );
    assert_eq!(
        parse_header("blob 18446744073709551615").unwrap(),
        (ObjectTypes::Blob, u64::MAX)
    );
    assert_eq!(
        parse_header("blob 18446744073709551616").unwrap_err(),
        CompressedGitObjectError::InvalidHeader
    );
    assert_eq!(
        parse_header("blob +").unwrap_err(),
        CompressedGitObjectError::InvalidHeader
    );
}
