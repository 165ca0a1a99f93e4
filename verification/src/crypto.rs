//! The outside computations that segment URLs need: SHA-256, Base64
//! decoding, lossy UTF-8 decoding, and the segment-name pattern.
use vstd::prelude::*;
use base64::Engine;
use sha2::Digest;

verus! {

/// The SHA-256 digest of `data`.
pub uninterp spec fn sha256_digest(data: Seq<u8>) -> Seq<u8>;

/// `sha2::Sha256::digest`: the 32-byte SHA-256 digest of `data`.
#[verifier::external_body]
pub(crate) fn sha256(data: &[u8]) -> (r: Vec<u8>)
    ensures
        r@ == sha256_digest(data@),
        r@.len() == 32,
{
    sha2::Sha256::digest(data).to_vec()
}

/// What the standard Base64 alphabet with padding decodes `s` to, if it is valid.
pub uninterp spec fn base64_standard_decode(s: Seq<char>) -> Option<Seq<u8>>;

/// `base64::engine::general_purpose::STANDARD.decode`: the bytes that `s`
/// encodes in standard, padded Base64, or `None` when it is not valid.
#[verifier::external_body]
pub(crate) fn base64_decode(s: &str) -> (r: Option<Vec<u8>>)
    ensures
        r matches Some(v) ==> base64_standard_decode(s@) == Some(v@),
        r is None ==> base64_standard_decode(s@) is None,
{
    base64::engine::general_purpose::STANDARD.decode(s).ok()
}

/// The characters that lossy UTF-8 decoding gives for `bytes`.
pub uninterp spec fn utf8_lossy(bytes: Seq<u8>) -> Seq<char>;

/// `String::from_utf8_lossy`: `bytes` decoded as UTF-8, each invalid
/// sequence replaced by U+FFFD.
#[verifier::external_body]
pub(crate) fn from_utf8_lossy(bytes: &Vec<u8>) -> (r: String)
    ensures
        r@ == utf8_lossy(bytes@),
{
    String::from_utf8_lossy(bytes.as_slice()).to_string()
}

/// The first capture group of the first match of the segment-name pattern
/// `_([^_]+)_(\d+(?:_part\d+)?)\.mp4(?:[?#].*)?` in `url`.
pub uninterp spec fn segment_key_capture(url: Seq<char>) -> Option<Seq<char>>;

/// `regex::Regex::captures` with the segment-name pattern: the text of the
/// first capture group of the leftmost match in `url`, if there is a match.
#[verifier::external_body]
pub(crate) fn capture_segment_key(url: &str) -> (r: Option<String>)
    ensures
        r matches Some(s) ==> segment_key_capture(url@) == Some(s@),
        r is None ==> segment_key_capture(url@) is None,
{
    let re = regex::Regex::new(r"_([^_]+)_(\d+(?:_part\d+)?)\.mp4(?:[?#].*)?").ok()?;
    let caps = re.captures(url)?;
    Some(caps.get(1)?.as_str().to_string())
}

} // verus!
