use authenticator::error::TotpError;
use authenticator::secret::{decode_secret, encode_secret, generate_secret, SECRET_LEN};

const KEY: &str = "GEZDGNBVGY3TQOJQGEZDGNBVGY3TQOJQ";

#[test]
fn decode_valid_secret() {
    let raw = decode_secret(KEY).unwrap();
    assert_eq!(raw, b"12345678901234567890".to_vec());
}

#[test]
fn decode_rejects_non_base32() {
    assert_eq!(decode_secret("not base32 at all!!"), Err(TotpError::InvalidSecretFormat));
    assert_eq!(decode_secret("gezdgnbvgy3tqojqgezdgnbvgy3tqojq"), Err(TotpError::InvalidSecretFormat));
}

#[test]
fn decode_rejects_wrong_length() {
    // five bytes only
    assert_eq!(decode_secret("GEZDGNBV"), Err(TotpError::InvalidSecretFormat));
    assert_eq!(decode_secret(""), Err(TotpError::InvalidSecretFormat));
    // twenty-five bytes
    assert_eq!(
        decode_secret("GEZDGNBVGY3TQOJQGEZDGNBVGY3TQOJQGEZDGNBV"),
        Err(TotpError::InvalidSecretFormat)
    );
}

#[test]
fn encode_known_secret() {
    assert_eq!(encode_secret(b"12345678901234567890"), KEY);
}

#[test]
fn generated_secret_decodes_to_twenty_bytes() {
    let a = generate_secret();
    let b = generate_secret();
    assert_eq!(decode_secret(&a).unwrap().len(), SECRET_LEN);
    assert_eq!(decode_secret(&b).unwrap().len(), SECRET_LEN);
    assert_ne!(a, b);
}

#[test]
fn encoded_secret_decodes_back() {
    let raw: Vec<u8> = (0u8..20).map(|i| i * 13).collect();
    let text = encode_secret(&raw);
    assert_eq!(text.len(), 32);
    assert_eq!(decode_secret(&text).unwrap(), raw);
}
