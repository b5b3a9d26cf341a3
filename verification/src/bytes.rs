//! Bytes as text.
use vstd::prelude::*;
use vstd::utf8::{decode_utf8, valid_utf8};

verus! {

/// The reason that `String::from_utf8` gives for refusing `bytes`.
pub uninterp spec fn utf8_refusal(bytes: Seq<u8>) -> Seq<char>;

/// `String::from_utf8`: the text that `bytes` encode in UTF-8. Bytes that are not UTF-8 are refused,
/// with the reason as text; that text is a function of the bytes alone.
#[verifier::external_body]
pub(crate) fn text_from_utf8(bytes: Vec<u8>) -> (r: Result<String, String>)
    ensures
        r is Ok <==> valid_utf8(bytes@),
        r matches Ok(s) ==> s@ == decode_utf8(bytes@),
        r matches Err(e) ==> e@ == utf8_refusal(bytes@),
{
    String::from_utf8(bytes).map_err(|e| e.to_string())
}

/// What `String::from_utf8_lossy` makes of `bytes`.
pub uninterp spec fn lossy_text(bytes: Seq<u8>) -> Seq<char>;

/// `String::from_utf8_lossy`: the text that `bytes` encode in UTF-8, with replacement characters
/// for what is not UTF-8. Without such bytes it is the encoded text.
#[verifier::external_body]
pub(crate) fn text_from_utf8_lossy(bytes: &Vec<u8>) -> (r: String)
    ensures
        r@ == lossy_text(bytes@),
        valid_utf8(bytes@) ==> r@ == decode_utf8(bytes@),
{
    String::from_utf8_lossy(bytes).to_string()
}

} // verus!
