use std::io::Write;

use ckusro_core::compressed_git_object::CompressedGitObjectError;
use ckusro_core::git_object::{GitObject, ObjectTypes};

fn deflate(data: &[u8]) -> Vec<u8> {
    let mut encoder = flate2::write::ZlibEncoder::new(Vec::new(), flate2::Compression::default());
    encoder.write_all(data).unwrap();
    encoder.finish().unwrap()
}

#[test]
fn git_object_from_u8_vec() {
    let bytes = deflate(b"blob 1\0a");
    let actual = GitObject::from_u8_vec(&bytes);
    let expected = GitObject::new(ObjectTypes::Blob, 1, &b"a".to_vec());

    assert_eq!(actual, Ok(expected))
}

#[test]
fn git_object_from_u8_vec_surfaces_codec_errors() {
    let bytes = deflate(b"widget 1\0a");
    let actual = GitObject::from_u8_vec(&bytes);

    assert_eq!(actual, Err(CompressedGitObjectError::InvalidTypeName));
}

#[test]
fn object_types_from_str_resolves_each_kind() {
    assert_eq!(ObjectTypes::from_str("blob"), Ok(ObjectTypes::Blob));
    assert_eq!(ObjectTypes::from_str("tree"), Ok(ObjectTypes::Tree));
    assert_eq!(ObjectTypes::from_str("commit"), Ok(ObjectTypes::Commit));
    assert_eq!(ObjectTypes::from_str("tag"), Ok(ObjectTypes::Tag));
}

#[test]
fn object_types_from_str_rejects_unknown_tokens() {
    assert_eq!(
        ObjectTypes::from_str("widget"),
        Err(CompressedGitObjectError::InvalidTypeName)
    );
    assert_eq!(
        ObjectTypes::from_str("Blob"),
        Err(CompressedGitObjectError::InvalidTypeName)
    );
    assert_eq!(
        ObjectTypes::from_str(""),
        Err(CompressedGitObjectError::InvalidTypeName)
    );
}
