use vstd::prelude::*;

verus! {

/// The standard padded base64 text of a byte string.
pub uninterp spec fn base64_text(bytes: Seq<u8>) -> Seq<char>;

/// The bytes that a text stands for in standard padded base64, if it is
/// well formed.
pub uninterp spec fn base64_bytes(text: Seq<char>) -> Option<Seq<u8>>;

/// Calls `base64::encode`. The contract names the text and claims that
/// decoding it gives the bytes back. No slice is long enough to overflow the
/// size computation on which the call would panic.
#[verifier::external_body]
pub(crate) fn base64_encode(bytes: &[u8]) -> (text: String)
    ensures
        text@ == base64_text(bytes@),
        base64_bytes(text@) == Some(bytes@),
{
    base64::encode(bytes)
}

/// The standard base64 text of a byte string, without padding.
pub uninterp spec fn base64_text_unpadded(bytes: Seq<u8>) -> Seq<char>;

/// Calls `base64::encode_config` with `STANDARD_NO_PAD`. The contract names
/// the text and nothing more. No slice is long enough to overflow the size
/// computation on which the call would panic.
#[verifier::external_body]
pub(crate) fn base64_encode_unpadded(bytes: &[u8]) -> (text: String)
    ensures
        text@ == base64_text_unpadded(bytes@),
{
    base64::encode_config(bytes, base64::STANDARD_NO_PAD)
}

/// Calls `base64::decode`, with `None` for any decoding error. The contract
/// names the outcome and nothing more.
#[verifier::external_body]
pub(crate) fn base64_decode(text: &str) -> (bytes: Option<Vec<u8>>)
    ensures
        bytes matches Some(b) ==> base64_bytes(text@) == Some(b@),
        bytes is None ==> base64_bytes(text@) is None,
{
    base64::decode(text).ok()
}

} // verus!
