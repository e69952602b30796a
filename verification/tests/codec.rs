use issuer_core::codec::bytes_to_hex;
use issuer_core::codec::digest_from_hex;
use issuer_core::codec::digest_to_hex;
use issuer_core::codec::hex_to_bytes;
use issuer_core::codec::CodecError;
use issuer_core::hashing::sha256;

#[test]
fn bytes_to_hex_encodes_lowercase_pairs() {
    assert_eq!(bytes_to_hex(&vec![0x00, 0x01, 0xab, 0xff]), "0001abff");
    assert_eq!(bytes_to_hex(&vec![]), "");
}

#[test]
fn hex_to_bytes_decodes_both_cases() {
    assert_eq!(hex_to_bytes("00ff"), Ok(vec![0x00, 0xff]));
    assert_eq!(hex_to_bytes("AbCd"), Ok(vec![0xab, 0xcd]));
    assert_eq!(hex_to_bytes(""), Ok(vec![]));
}

#[test]
fn hex_round_trip() {
    let bytes: Vec<u8> = (0..=255).collect();
    let encoded = bytes_to_hex(&bytes);
    assert_eq!(hex_to_bytes(&encoded), Ok(bytes));
}

#[test]
fn hex_to_bytes_rejects_odd_length() {
    assert_eq!(hex_to_bytes("abc"), Err(CodecError::InvalidHex));
}

#[test]
fn hex_to_bytes_rejects_non_hex_characters() {
    assert_eq!(hex_to_bytes("zz"), Err(CodecError::InvalidHex));
    assert_eq!(hex_to_bytes("12g4"), Err(CodecError::InvalidHex));
}

#[test]
fn digest_hex_round_trip() {
    let digest = sha256(&b"round trip".to_vec());
    let encoded = digest_to_hex(&digest);
    assert_eq!(encoded.len(), 64);
    let decoded = digest_from_hex(&encoded).unwrap();
    assert!(decoded == digest);
}

#[test]
fn digest_from_hex_rejects_wrong_width() {
    // Valid hexadecimal, but 31 bytes instead of 32.
    let short = "00".repeat(31);
    assert_eq!(
        digest_from_hex(&short).unwrap_err(),
        CodecError::WrongDigestLength
    );
    let long = "00".repeat(33);
    assert_eq!(
        digest_from_hex(&long).unwrap_err(),
        CodecError::WrongDigestLength
    );
}

#[test]
fn digest_from_hex_rejects_invalid_hex() {
    let bad = "zz".repeat(32);
    assert_eq!(digest_from_hex(&bad).unwrap_err(), CodecError::InvalidHex);
}

#[test]
fn sha256_matches_known_vector() {
    // FIPS 180-4 test vector for SHA-256("abc").
    let digest = sha256(&b"abc".to_vec());
    assert_eq!(
        digest_to_hex(&digest),
        "ba7816bf8f01cfea414140de5dae2223b00361a396177a9cb410ff61f20015ad"
    );
}

#[test]
fn sha256_of_empty_matches_known_vector() {
    let digest = sha256(&vec![]);
    assert_eq!(
        digest_to_hex(&digest),
        "e3b0c44298fc1c149afbf4c8996fb92427ae41e4649b934ca495991b7852b855"
    );
}
