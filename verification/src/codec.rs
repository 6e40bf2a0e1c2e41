//! The calls into the encoding and key-agreement crates, and into the parts of
//! `str` that vstd does not specify. Each item states what its crate promises
//! of the call; what takes pages to state is given a name instead.

use base64::Engine;
use vstd::prelude::*;

verus! {

/// What the standard base64 engine (RFC 4648 alphabet, with padding) decodes
/// `text` to, or `None` where it refuses the text.
pub uninterp spec fn base64_decoded(text: Seq<char>) -> Option<Seq<u8>>;

/// What the standard base64 engine encodes `bytes` to.
pub uninterp spec fn base64_encoded(bytes: Seq<u8>) -> Seq<char>;

/// A character of the standard base64 alphabet, or the padding character.
pub open spec fn is_base64_char(c: char) -> bool {
    ('A' <= c && c <= 'Z') || ('a' <= c && c <= 'z') || ('0' <= c && c <= '9') || c == '+' || c
        == '/' || c == '='
}

/// Decodes with `base64::engine::general_purpose::STANDARD.decode`.
/// The contract names the result; it claims nothing of the decoding itself.
#[verifier::external_body]
pub(crate) fn base64_decode(text: &str) -> (r: Option<Vec<u8>>)
    ensures
        match r {
            Some(bytes) => base64_decoded(text@) == Some(bytes@),
            None => base64_decoded(text@) is None,
        },
{
    base64::engine::general_purpose::STANDARD.decode(text).ok()
}

/// Encodes a 32-byte key with `base64::engine::general_purpose::STANDARD.encode`.
/// Besides naming the result, the contract claims what the crate's encoder and
/// its tests show: 32 bytes give 44 characters of the standard alphabet (the
/// last one padding), and decoding them gives the 32 bytes back.
#[verifier::external_body]
pub(crate) fn base64_encode(bytes: &[u8; 32]) -> (r: String)
    ensures
        r@ == base64_encoded(bytes@),
        r@.len() == 44,
        forall|k: int| 0 <= k < r@.len() ==> is_base64_char(#[trigger] r@[k]),
        base64_decoded(r@) == Some(bytes@),
{
    base64::engine::general_purpose::STANDARD.encode(bytes)
}

/// Whether every character of `s` is ASCII.
pub open spec fn all_ascii(s: Seq<char>) -> bool {
    forall|k: int| 0 <= k < s.len() ==> (#[trigger] s[k] as int) < 128
}

/// ASCII lower-casing of one character.
pub open spec fn ascii_lower(c: char) -> char {
    if 'A' <= c && c <= 'Z' {
        ((c as int) + 32) as char
    } else {
        c
    }
}

/// What `str::to_lowercase` gives for a text that is not all ASCII (the
/// Unicode lower-case mapping).
pub uninterp spec fn unicode_lowercase(s: Seq<char>) -> Seq<char>;

/// What `str::to_lowercase` gives for `s`: each ASCII letter lowered and
/// every other ASCII character kept, for an ASCII text.
pub open spec fn lowercase(s: Seq<char>) -> Seq<char> {
    if all_ascii(s) {
        Seq::new(s.len(), |k: int| ascii_lower(s[k]))
    } else {
        unicode_lowercase(s)
    }
}

/// Calls `str::to_lowercase`. The contract claims what its documentation
/// gives for plain ASCII text (each letter lowered, every other character
/// kept) and names the result otherwise.
#[verifier::external_body]
pub(crate) fn to_lowercase(s: &str) -> (r: String)
    ensures
        r@ == lowercase(s@),
        !all_ascii(s@) ==> r@ == unicode_lowercase(s@),
{
    s.to_lowercase()
}

/// The X25519 public key of a static secret (clamped scalar times the base point).
pub uninterp spec fn x25519_public_key(secret: Seq<u8>) -> Seq<u8>;

/// Computes `x25519_dalek::PublicKey::from(&StaticSecret::from(secret))`.
/// The contract names the result only.
#[verifier::external_body]
pub(crate) fn public_key_of(secret: &[u8; 32]) -> (r: [u8; 32])
    ensures
        r@ == x25519_public_key(secret@),
{
    let secret = x25519_dalek::StaticSecret::from(*secret);
    *x25519_dalek::PublicKey::from(&secret).as_bytes()
}

} // verus!
