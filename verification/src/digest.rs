//! SHA-256, HMAC-SHA256 and hexadecimal text, as the `sha2`, `hmac` and `hex` crates give them.
use hmac::{Hmac, Mac};
use sha2::{Digest, Sha256};
use vstd::prelude::*;

verus! {

/// The SHA-256 digest of `data`.
pub uninterp spec fn sha256_spec(data: Seq<u8>) -> Seq<u8>;

/// The HMAC-SHA256 tag of `message` under `key`.
pub uninterp spec fn hmac_sha256_spec(key: Seq<u8>, message: Seq<u8>) -> Seq<u8>;

/// The lowercase hexadecimal digit for `v < 16`.
pub open spec fn hex_digit(v: int) -> char {
    if v < 10 {
        (48 + v) as char
    } else {
        (97 + v - 10) as char
    }
}

/// `bytes` as lowercase hexadecimal, two digits per byte, high digit first.
pub open spec fn hex_spec(bytes: Seq<u8>) -> Seq<char>
    decreases bytes.len(),
{
    if bytes.len() == 0 {
        Seq::empty()
    } else {
        let b = bytes.last() as int;
        hex_spec(bytes.drop_last()) + seq![hex_digit(b / 16), hex_digit(b % 16)]
    }
}

/// `Sha256::digest`: the 32-byte SHA-256 digest of `data`. The digest is named
/// (`sha256_spec`), not stated.
#[verifier::external_body]
fn sha256(data: &[u8]) -> (r: Vec<u8>)
    ensures
        r@ == sha256_spec(data@),
        r@.len() == 32,
{
    Sha256::digest(data).to_vec()
}

/// `Hmac::<Sha256>::new_from_slice`, `update` and `finalize`: the 32-byte tag of `message`
/// under `key`, or `None` where `new_from_slice` refuses the key. For HMAC it accepts keys
/// of every length (longer keys are hashed first), so it never refuses one. The tag is
/// named (`hmac_sha256_spec`), not stated.
#[verifier::external_body]
fn hmac_sha256(key: &[u8], message: &[u8]) -> (r: Option<Vec<u8>>)
    ensures
        r is Some,
        r matches Some(t) ==> t@ == hmac_sha256_spec(key@, message@),
        r matches Some(t) ==> t@.len() == 32,
{
    let mut mac = <Hmac<Sha256> as Mac>::new_from_slice(key).ok()?;
    mac.update(message);
    Some(mac.finalize().into_bytes().to_vec())
}

/// `hex::encode`: the bytes as lowercase hexadecimal text.
#[verifier::external_body]
fn hex_encode(bytes: &[u8]) -> (r: String)
    ensures
        r@ == hex_spec(bytes@),
{
    hex::encode(bytes)
}

/// The SHA-256 digest of `value` as lowercase hexadecimal.
pub fn sha256_hex(value: &[u8]) -> (r: String)
    ensures
        r@ == hex_spec(sha256_spec(value@)),
{
    let digest = sha256(value);
    hex_encode(digest.as_slice())
}

/// The HMAC-SHA256 tag of `value` under `key`, as lowercase hexadecimal.
pub fn hmac_sha256_hex(key: &[u8], value: &[u8]) -> (r: Result<String, String>)
    ensures
        r matches Ok(t) && t@ == hex_spec(hmac_sha256_spec(key@, value@)),
{
    match hmac_sha256(key, value) {
        Some(tag) => Ok(hex_encode(tag.as_slice())),
        None => Err("生成阿里云请求签名失败".to_string()),
    }
}

} // verus!
