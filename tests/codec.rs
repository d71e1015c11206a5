use ark_serialize::Compress;
use ark_xsk233::codec::{
    check_compress, equals_flag, CodecError, CompressedPoint, COMPRESSED_POINT_SIZE,
};
use std::collections::hash_map::DefaultHasher;
use std::hash::{Hash, Hasher};

fn sample_bytes() -> [u8; 30] {
    let mut b = [0u8; 30];
    for (i, x) in b.iter_mut().enumerate() {
        *x = (i as u8) * 7 + 1;
    }
    b
}

fn hash_of<T: Hash>(v: &T) -> u64 {
    let mut h = DefaultHasher::new();
    v.hash(&mut h);
    h.finish()
}

#[test]
fn only_compressed_mode_is_supported() {
    assert_eq!(check_compress(Compress::Yes), Ok(()));
    assert_eq!(
        check_compress(Compress::No),
        Err(CodecError::UncompressedUnsupported)
    );
}

#[test]
fn serialize_writes_thirty_bytes() {
    let c = CompressedPoint::from_bytes(sample_bytes());
    let v = c.serialize(Compress::Yes).unwrap();
    assert_eq!(v.len(), COMPRESSED_POINT_SIZE);
    assert_eq!(v, sample_bytes().to_vec());
    assert_eq!(c.to_vec(), v);
    assert_eq!(c.to_bytes(), sample_bytes());
}

#[test]
fn serialize_uncompressed_fails() {
    let c = CompressedPoint::from_bytes(sample_bytes());
    assert_eq!(
        c.serialize(Compress::No),
        Err(CodecError::UncompressedUnsupported)
    );
}

#[test]
fn deserialize_round_trip() {
    let c = CompressedPoint::from_bytes(sample_bytes());
    let v = c.serialize(Compress::Yes).unwrap();
    let d = CompressedPoint::deserialize(&v, Compress::Yes).unwrap();
    assert_eq!(d, c);
}

#[test]
fn deserialize_short_input_fails() {
    let b = sample_bytes();
    assert_eq!(
        CompressedPoint::deserialize(&b[..29], Compress::Yes),
        Err(CodecError::ShortInput)
    );
    assert_eq!(
        CompressedPoint::deserialize(&[], Compress::Yes),
        Err(CodecError::ShortInput)
    );
}

#[test]
fn deserialize_takes_the_first_thirty_bytes() {
    let mut v = sample_bytes().to_vec();
    v.extend_from_slice(&[9, 9, 9]);
    let d = CompressedPoint::deserialize(&v, Compress::Yes).unwrap();
    assert_eq!(d.to_bytes(), sample_bytes());
}

#[test]
fn deserialize_uncompressed_fails() {
    let v = sample_bytes().to_vec();
    assert_eq!(
        CompressedPoint::deserialize(&v, Compress::No),
        Err(CodecError::UncompressedUnsupported)
    );
}

#[test]
fn text_form_is_lower_case_hex() {
    let mut b = [0u8; 30];
    b[0] = 0xab;
    b[1] = 0x01;
    b[29] = 0xf0;
    let s = CompressedPoint::from_bytes(b).to_hex();
    assert_eq!(s.len(), 60);
    assert!(s.starts_with("ab01"));
    assert!(s.ends_with("f0"));
    assert_eq!(&s[4..58], "0".repeat(54));
}

#[test]
fn equal_forms_hash_alike() {
    let a = CompressedPoint::from_bytes(sample_bytes());
    let b = CompressedPoint::deserialize(&sample_bytes(), Compress::Yes).unwrap();
    assert_eq!(a, b);
    assert_eq!(hash_of(&a), hash_of(&b));
}

#[test]
fn hash_is_that_of_the_serialized_bytes() {
    let a = CompressedPoint::from_bytes(sample_bytes());
    let v = a.serialize(Compress::Yes).unwrap();
    assert_eq!(hash_of(&a), hash_of(&v));
}

#[test]
fn engine_comparison_flags() {
    assert!(equals_flag(0xFFFF_FFFF));
    assert!(!equals_flag(0));
}

/// Compressed form of the generator multiplied by 100, as the xs233 engine
/// writes it.
const HUNDRED_G: [u8; 30] = [
    237, 194, 134, 207, 143, 196, 247, 79, 71, 107, 109, 113, 72, 71, 174, 133, 15, 2, 127, 219,
    201, 196, 218, 7, 21, 14, 233, 200, 224, 1,
];

#[test]
fn hundred_g_hashes_to_the_known_value() {
    let c = CompressedPoint::from_bytes(HUNDRED_G);
    assert_eq!(hash_of(&c), 15456673610726659490);
}

#[test]
fn hundred_g_text_form() {
    let c = CompressedPoint::from_bytes(HUNDRED_G);
    assert_eq!(
        c.to_hex(),
        "edc286cf8fc4f74f476b6d714847ae850f027fdbc9c4da07150ee9c8e001"
    );
}

#[test]
fn hundred_g_serialization_round_trip() {
    let c = CompressedPoint::from_bytes(HUNDRED_G);
    let v = c.serialize(Compress::Yes).unwrap();
    assert_eq!(v, HUNDRED_G.to_vec());
    assert_eq!(CompressedPoint::deserialize(&v, Compress::Yes), Ok(c));
}

#[test]
fn identity_form_round_trip() {
    let c = CompressedPoint::from_bytes([0u8; 30]);
    let v = c.serialize(Compress::Yes).unwrap();
    assert_eq!(v, vec![0u8; 30]);
    assert_eq!(CompressedPoint::deserialize(&v, Compress::Yes), Ok(c));
    assert_eq!(c.to_hex(), "0".repeat(60));
}
