//! Integrity values: the SHA-512 hash of a content, written in base 64.
use vstd::prelude::*;
use vstd::string::{StringExecFns, StringSliceAdditionalSpecFns};

verus! {

/// The SHA-512 hash of `data`: 64 bytes.
pub uninterp spec fn sha512_of(data: Seq<u8>) -> Seq<u8>;

/// `data` in base 64, with the standard alphabet and padding.
pub uninterp spec fn base64_of(data: Seq<u8>) -> Seq<char>;

/// What an integrity value begins with: the name of the hash.
pub const INTEGRITY_PREFIX: &'static str = "sha512-";

/// The integrity value of a content.
pub open spec fn integrity_of(content: Seq<u8>) -> Seq<char> {
    INTEGRITY_PREFIX@ + base64_of(sha512_of(content))
}

/// `openssl::sha::sha512`. The result is the one that `sha512_of` names.
#[verifier::external_body]
fn sha512(data: &[u8]) -> (hash: [u8; 64])
    ensures
        hash@ == sha512_of(data@),
{
    openssl::sha::sha512(data)
}

/// `Engine::encode` of the base64 crate, on its `STANDARD` engine. The
/// result is the one that `base64_of` names.
#[verifier::external_body]
fn base64(data: &[u8; 64]) -> (text: String)
    ensures
        text@ == base64_of(data@),
{
    base64::Engine::encode(&base64::engine::general_purpose::STANDARD, data)
}

/// The integrity value of a content: the name of the hash, a hyphen, and the
/// hash in base 64.
pub fn integrity(content: &[u8]) -> (value: String)
    ensures
        value@ == integrity_of(content@),
{
    let hash = sha512(content);
    let text = base64(&hash);
    String::from_str(INTEGRITY_PREFIX).concat(text.as_str())
}

/// The integrity value of a text, taken over its bytes in UTF-8.
pub fn text_integrity(text: &str) -> (value: String)
    ensures
        value@ == integrity_of(text.spec_bytes()),
{
    integrity(text.as_bytes())
}

} // verus!
