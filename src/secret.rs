use vstd::prelude::*;

use vstd::string::StringSliceAdditionalSpecFns;
use vstd::utf8::encode_utf8;

use crate::error::TotpError;

verus! {

/// Length in bytes of a shared secret.
pub const SECRET_LEN: usize = 20;

/// What `data_encoding::BASE32.decode` gives for some bytes: `None` where
/// they are not valid padded base32.
pub uninterp spec fn base32_decoded(text: Seq<u8>) -> Option<Seq<u8>>;

/// What `data_encoding::BASE32.encode` gives for some bytes.
pub uninterp spec fn base32_encoded(data: Seq<u8>) -> Seq<char>;

/// Relies on `data_encoding::BASE32.decode`: the decoded bytes, or an error
/// for text that is not valid base32. It panics on an input longer than
/// `usize::MAX / 8`.
#[verifier::external_body]
fn base32_decode(text: &[u8]) -> (r: Option<Vec<u8>>)
    requires
        text@.len() <= usize::MAX / 8,
    ensures
        r is Some <==> base32_decoded(text@) is Some,
        r is Some ==> r->0@ == base32_decoded(text@)->0,
{
    data_encoding::BASE32.decode(text).ok()
}

/// Relies on `data_encoding::BASE32.encode`: the padded base32 text of the
/// bytes, eight ASCII symbols for each started group of five bytes, which
/// `BASE32.decode` turns back into the same bytes. It panics on an input
/// longer than `usize::MAX / 512`.
#[verifier::external_body]
fn base32_encode(data: &[u8]) -> (r: String)
    requires
        data@.len() <= usize::MAX / 512,
    ensures
        r@ == base32_encoded(data@),
        encode_utf8(r@).len() == 8 * ((data@.len() + 4) / 5),
        base32_decoded(encode_utf8(r@)) == Some(data@),
{
    data_encoding::BASE32.encode(data)
}

/// Relies on `rand::thread_rng` and `RngCore::fill_bytes`: overwrites every
/// byte of the buffer with bytes from the thread-local cryptographically
/// secure generator, keeping its length.
#[verifier::external_body]
fn fill_random(buf: &mut Vec<u8>)
    ensures
        final(buf)@.len() == old(buf)@.len(),
{
    rand::RngCore::fill_bytes(&mut rand::thread_rng(), buf.as_mut_slice())
}

/// The outcome of decoding a secret text given as bytes.
pub open spec fn decode_outcome(text: Seq<u8>) -> Result<Seq<u8>, TotpError> {
    if text.len() > usize::MAX / 8 {
        Err(TotpError::InvalidSecretFormat)
    } else {
        match base32_decoded(text) {
            Some(raw) => if raw.len() == SECRET_LEN {
                Ok(raw)
            } else {
                Err(TotpError::InvalidSecretFormat)
            },
            None => Err(TotpError::InvalidSecretFormat),
        }
    }
}

/// Whether a secret text decodes to a valid shared secret.
pub open spec fn is_valid_secret_text(text: Seq<char>) -> bool {
    decode_outcome(encode_utf8(text)) is Ok
}

/// The raw secret that a valid secret text stands for.
pub open spec fn secret_of(text: Seq<char>) -> Seq<u8> {
    decode_outcome(encode_utf8(text))->Ok_0
}

/// Decodes a base32 secret text into the raw shared secret, which must be
/// exactly `SECRET_LEN` bytes long.
pub fn decode_secret(text: &str) -> (r: Result<Vec<u8>, TotpError>)
    ensures
        match r {
            Ok(raw) => decode_outcome(text.spec_bytes()) == Ok::<Seq<u8>, TotpError>(raw@),
            Err(e) => decode_outcome(text.spec_bytes()) == Err::<Seq<u8>, TotpError>(e),
        },
{
    let bytes = text.as_bytes();
    if bytes.len() > usize::MAX / 8 {
        return Err(TotpError::InvalidSecretFormat);
    }
    match base32_decode(bytes) {
        Some(raw) => {
            if raw.len() == SECRET_LEN {
                Ok(raw)
            } else {
                Err(TotpError::InvalidSecretFormat)
            }
        },
        None => Err(TotpError::InvalidSecretFormat),
    }
}

/// Encodes a raw shared secret as its base32 text form, which decodes back
/// to the same bytes.
pub fn encode_secret(raw: &[u8]) -> (r: String)
    requires
        raw@.len() <= usize::MAX / 512,
    ensures
        r@ == base32_encoded(raw@),
        raw@.len() == SECRET_LEN ==> is_valid_secret_text(r@) && secret_of(r@) == raw@,
{
    base32_encode(raw)
}

/// A fresh random shared secret of `SECRET_LEN` bytes, in its base32 text form.
pub fn generate_secret() -> (r: String)
    ensures
        exists|raw: Seq<u8>| raw.len() == SECRET_LEN && r@ == base32_encoded(raw),
        is_valid_secret_text(r@),
{
    let mut raw: Vec<u8> = vec![0u8; SECRET_LEN];
    fill_random(&mut raw);
    encode_secret(raw.as_slice())
}

} // verus!
