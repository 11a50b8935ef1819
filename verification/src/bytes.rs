//! Bytes that are meant to be text.
use vstd::prelude::*;
use vstd::string::*;

verus! {

/// The text that bytes stand for, with the replacement character for what is not UTF-8.
pub uninterp spec fn utf8_lossy(bytes: Seq<u8>) -> Seq<char>;

/// `String::from_utf8_lossy`. The text depends on the bytes alone; bytes that are UTF-8 are the
/// encoding of it.
#[verifier::external_body]
pub(crate) fn text_lossy(bytes: &[u8]) -> (r: String)
    ensures
        r@ == utf8_lossy(bytes@),
        vstd::utf8::valid_utf8(bytes@) ==> vstd::utf8::encode_utf8(r@) == bytes@,
{
    String::from_utf8_lossy(bytes).into_owned()
}

/// What `std::str::from_utf8` gives where the bytes are not UTF-8.
#[verifier::external_type_specification]
#[verifier::external_body]
pub struct ExUtf8Error(std::str::Utf8Error);

/// `std::str::from_utf8`: the text whose encoding the bytes are, if and only if they are UTF-8.
pub assume_specification[ std::str::from_utf8 ](bytes: &[u8]) -> (r: Result<
    &str,
    std::str::Utf8Error,
>)
    ensures
        r is Ok <==> vstd::utf8::valid_utf8(bytes@),
        r is Ok ==> vstd::utf8::encode_utf8(r->Ok_0@) == bytes@,
;

/// The text whose UTF-8 encoding the bytes are, where they are one.
pub open spec fn utf8_text(bytes: Seq<u8>) -> Option<Seq<char>> {
    if vstd::utf8::valid_utf8(bytes) {
        Some(vstd::utf8::decode_utf8(bytes))
    } else {
        None
    }
}

/// The text whose UTF-8 encoding the bytes are, where they are one.
pub fn text_of_utf8(bytes: &[u8]) -> (r: Option<String>)
    ensures
        crate::text::opt_view(r) == utf8_text(bytes@),
{
    match std::str::from_utf8(bytes) {
        Ok(s) => {
            proof {
                vstd::utf8::encode_utf8_decode_utf8(s@);
            }
            Some(s.to_owned())
        },
        Err(_) => None,
    }
}

/// Bytes are read as the text that they encode, and bytes that encode none give none.
pub proof fn encoded_text_is_read_back(text: Seq<char>, bytes: Seq<u8>)
    ensures
        utf8_text(vstd::utf8::encode_utf8(text)) == Some(text),
        utf8_text(bytes) matches Some(t) ==> vstd::utf8::encode_utf8(t) == bytes,
        utf8_text(bytes) is None ==> vstd::utf8::encode_utf8(text) != bytes,
{
    vstd::utf8::encode_utf8_valid_utf8(text);
    vstd::utf8::encode_utf8_decode_utf8(text);
    if vstd::utf8::valid_utf8(bytes) {
        vstd::utf8::decode_utf8_encode_utf8(bytes);
    }
}

} // verus!
