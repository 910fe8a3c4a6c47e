use ed25519_dalek::{Signer, SigningKey};
use typscord::auth::{check_signature, read_signature, verdict, Rejection};

const SECRET: [u8; 32] = [
    0x9d, 0x61, 0xb1, 0x9d, 0xef, 0xfd, 0x5a, 0x60, 0xba, 0x84, 0x4a, 0xf4, 0x92, 0xec, 0x2c, 0xc4,
    0x44, 0x49, 0xc5, 0x69, 0x7b, 0x32, 0x69, 0x19, 0x70, 0x3b, 0xac, 0x03, 0x1c, 0xae, 0x7f, 0x60,
];

fn keys() -> (SigningKey, [u8; 32]) {
    let signing = SigningKey::from_bytes(&SECRET);
    let public = signing.verifying_key().to_bytes();
    (signing, public)
}

#[test]
fn signature_is_read_from_hexadecimal_text() {
    let text: String = (0..64).map(|i| format!("{:02x}", i * 3 + 1)).collect();
    let expected: Vec<u8> = (0..64).map(|i| (i * 3 + 1) as u8).collect();
    let read = read_signature(Some(text.as_bytes()), Some(b"1700000000")).unwrap();
    assert_eq!(read.to_vec(), expected);
}

#[test]
fn signature_may_mix_upper_and_lower_case() {
    let text = "aBcDeF09".repeat(16);
    let read = read_signature(Some(text.as_bytes()), Some(b"0")).unwrap();
    assert_eq!(read.to_vec(), [0xAB, 0xCD, 0xEF, 0x09].repeat(16));
}

#[test]
fn missing_header_is_unauthorized() {
    let text = "00".repeat(64);
    assert_eq!(read_signature(None, Some(b"0")), Err(Rejection::Unauthorized));
    assert_eq!(read_signature(Some(text.as_bytes()), None), Err(Rejection::Unauthorized));
    assert_eq!(read_signature(None, None), Err(Rejection::Unauthorized));
    assert_eq!(read_signature(Some(b"not hex"), None), Err(Rejection::Unauthorized));
}

#[test]
fn signature_that_is_not_hexadecimal_is_a_bad_request() {
    let mut text = "00".repeat(64);
    text.replace_range(10..11, "g");
    assert_eq!(read_signature(Some(text.as_bytes()), Some(b"0")), Err(Rejection::BadRequest));
    let odd = "0".repeat(127);
    assert_eq!(read_signature(Some(odd.as_bytes()), Some(b"0")), Err(Rejection::BadRequest));
}

#[test]
fn signature_of_the_wrong_length_is_a_bad_request() {
    for digits in [0, 2, 126, 130] {
        let text = "0".repeat(digits);
        assert_eq!(read_signature(Some(text.as_bytes()), Some(b"0")), Err(Rejection::BadRequest));
    }
}

#[test]
fn signature_over_timestamp_and_body_is_accepted() {
    let (signing, public) = keys();
    let signature = signing.sign(b"1700000000{\"type\":1}").to_bytes();
    assert_eq!(check_signature(&public, b"1700000000", b"{\"type\":1}", &signature), Ok(()));
    assert_eq!(check_signature(&public, b"17000000", b"00{\"type\":1}", &signature), Ok(()));
}

#[test]
fn known_signature_is_accepted() {
    let public: [u8; 32] = [
        0xd7, 0x5a, 0x98, 0x01, 0x82, 0xb1, 0x0a, 0xb7, 0xd5, 0x4b, 0xfe, 0xd3, 0xc9, 0x64, 0x07,
        0x3a, 0x0e, 0xe1, 0x72, 0xf3, 0xda, 0xa6, 0x23, 0x25, 0xaf, 0x02, 0x1a, 0x68, 0xf7, 0x07,
        0x51, 0x1a,
    ];
    let text = "e5564300c360ac729086e2cc806e828a84877f1eb8e5d974d873e065224901555fb8821590a33bacc61e39701cf9b46bd25bf5f0595bbe24655141438e7a100b";
    let signature = read_signature(Some(text.as_bytes()), Some(b"")).unwrap();
    assert_eq!(keys().1, public);
    assert_eq!(check_signature(&public, b"", b"", &signature), Ok(()));
    assert_eq!(check_signature(&public, b"", b"x", &signature), Err(Rejection::Unauthorized));
}

#[test]
fn signature_over_other_bytes_is_unauthorized() {
    let (signing, public) = keys();
    let signature = signing.sign(b"1700000000{\"type\":1}").to_bytes();
    assert_eq!(
        check_signature(&public, b"1700000001", b"{\"type\":1}", &signature),
        Err(Rejection::Unauthorized)
    );
    assert_eq!(
        check_signature(&public, b"{\"type\":1}", b"1700000000", &signature),
        Err(Rejection::Unauthorized)
    );
    let mut forged = signature;
    forged[5] ^= 1;
    assert_eq!(
        check_signature(&public, b"1700000000", b"{\"type\":1}", &forged),
        Err(Rejection::Unauthorized)
    );
}

#[test]
fn signature_under_another_key_is_unauthorized() {
    let (signing, _) = keys();
    let other = SigningKey::from_bytes(&[7u8; 32]).verifying_key().to_bytes();
    let signature = signing.sign(b"message").to_bytes();
    assert_eq!(check_signature(&other, b"mess", b"age", &signature), Err(Rejection::Unauthorized));
}

#[test]
fn key_that_is_no_point_is_unauthorized() {
    let (signing, _) = keys();
    let signature = signing.sign(b"message").to_bytes();
    let no_point = (0u8..=255)
        .map(|first| {
            let mut key = [0u8; 32];
            key[0] = first;
            key
        })
        .find(|key| ed25519_dalek::VerifyingKey::from_bytes(key).is_err())
        .unwrap();
    assert_eq!(
        check_signature(&no_point, b"message", b"", &signature),
        Err(Rejection::Unauthorized)
    );
}

#[test]
fn verdict_follows_the_check() {
    assert_eq!(verdict(true), Ok(()));
    assert_eq!(verdict(false), Err(Rejection::Unauthorized));
}
