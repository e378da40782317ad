//! Bytes as text: UTF-8 and base64.

use vstd::prelude::*;
use vstd::string::*;
use vstd::utf8::*;

use base64::Engine;

verus! {

/// What decoding a text as padded base64 in the standard alphabet gives: the
/// bytes, or the text of the decoder's error.
pub uninterp spec fn base64_decoded(s: Seq<char>) -> Result<Seq<u8>, Seq<char>>;

/// Bytes as padded base64 in the standard alphabet.
pub uninterp spec fn base64_encoded(b: Seq<u8>) -> Seq<char>;

/// The text of the error that decoding invalid UTF-8 ends in.
pub uninterp spec fn utf8_error(b: Seq<u8>) -> Seq<char>;

/// Bytes as text, with what is not valid UTF-8 replaced.
pub uninterp spec fn lossy_text(b: Seq<u8>) -> Seq<char>;

pub open spec fn bytes_or_text(r: Result<Vec<u8>, String>) -> Result<Seq<u8>, Seq<char>> {
    match r {
        Ok(b) => Ok(b@),
        Err(e) => Err(e@),
    }
}

/// `base64::engine::general_purpose::STANDARD.decode`, with its error as text.
/// The result is the one named [`base64_decoded`].
#[verifier::external_body]
pub(crate) fn decode_base64(s: &str) -> (r: Result<Vec<u8>, String>)
    ensures
        bytes_or_text(r) == base64_decoded(s@),
{
    base64::engine::general_purpose::STANDARD.decode(s).map_err(|e| e.to_string())
}

/// `base64::engine::general_purpose::STANDARD.encode`. The result is the one
/// named [`base64_encoded`], and decoding it gives the bytes back. The length
/// of the result fits in `usize` for every vector, since a vector holds at most
/// `isize::MAX` bytes.
#[verifier::external_body]
pub(crate) fn encode_base64(b: &Vec<u8>) -> (r: String)
    ensures
        r@ == base64_encoded(b@),
        base64_decoded(r@) is Ok && base64_decoded(r@)->Ok_0 == b@,
{
    base64::engine::general_purpose::STANDARD.encode(b)
}

/// [`String::from_utf8`], with its error as text: the characters that the bytes
/// encode, or an error exactly where they are not valid UTF-8.
#[verifier::external_body]
pub(crate) fn from_utf8(b: Vec<u8>) -> (r: Result<String, String>)
    ensures
        match r {
            Ok(s) => valid_utf8(b@) && s@ == decode_utf8(b@),
            Err(e) => !valid_utf8(b@) && e@ == utf8_error(b@),
        },
{
    String::from_utf8(b).map_err(|e| e.to_string())
}

/// [`String::from_utf8_lossy`]: the text named [`lossy_text`], which for valid
/// UTF-8 is the characters that the bytes encode.
#[verifier::external_body]
pub(crate) fn from_utf8_lossy(b: &Vec<u8>) -> (r: String)
    ensures
        r@ == lossy_text(b@),
        valid_utf8(b@) ==> r@ == decode_utf8(b@),
{
    String::from_utf8_lossy(b).into_owned()
}

/// The bytes that a text and its declared encoding stand for: `utf8` text is
/// its own bytes, `base64` is decoded, any other encoding is refused.
pub open spec fn encoded_bytes(
    content: Seq<char>,
    encoding: Seq<char>,
    bad_base64: Seq<char>,
    unknown: Seq<char>,
) -> Result<Seq<u8>, Seq<char>> {
    if encoding == "utf8"@ {
        Ok(encode_utf8(content))
    } else if encoding == "base64"@ {
        match base64_decoded(content) {
            Ok(b) => Ok(b),
            Err(e) => Err(bad_base64 + e),
        }
    } else {
        Err(unknown + encoding + "'; expected \"utf8\" or \"base64\""@)
    }
}

pub(crate) fn decode_content(
    content: &str,
    encoding: &str,
    bad_base64: &str,
    unknown: &str,
) -> (r: Result<Vec<u8>, String>)
    ensures
        bytes_or_text(r) == encoded_bytes(content@, encoding@, bad_base64@, unknown@),
{
    if crate::text::same(encoding, "utf8") {
        Ok(content.as_bytes_vec())
    } else if crate::text::same(encoding, "base64") {
        match decode_base64(content) {
            Ok(b) => Ok(b),
            Err(e) => Err(crate::text::cat2(bad_base64, e.as_str())),
        }
    } else {
        Err(crate::text::cat3(unknown, encoding, "'; expected \"utf8\" or \"base64\""))
    }
}

/// Bytes as text together with the encoding that was used: UTF-8 where they are
/// valid, base64 where they are not.
pub open spec fn content_of(b: Seq<u8>) -> (Seq<char>, Seq<char>) {
    if valid_utf8(b) {
        (decode_utf8(b), "utf8"@)
    } else {
        (base64_encoded(b), "base64"@)
    }
}

/// Bytes as text. Decoding the text with the encoding it came with gives the
/// bytes back, whether they were valid UTF-8 or not.
pub(crate) fn encode_content(b: Vec<u8>) -> (r: (String, &'static str))
    ensures
        (r.0@, r.1@) == content_of(b@),
        forall|bad: Seq<char>, unknown: Seq<char>|
            (#[trigger] encoded_bytes(r.0@, r.1@, bad, unknown)) == Ok::<Seq<u8>, Seq<char>>(b@),
{
    proof {
        reveal_strlit("utf8");
        reveal_strlit("base64");
        assert("utf8"@.len() != "base64"@.len());
        if valid_utf8(b@) {
            decode_utf8_encode_utf8(b@);
        }
    }
    let copy = b.clone();
    assert(copy@ =~= b@);
    match from_utf8(copy) {
        Ok(s) => (s, "utf8"),
        Err(_) => (encode_base64(&b), "base64"),
    }
}

} // verus!
