//! What the standard library and the crate `sha2` compute for this library.

use vstd::prelude::*;

verus! {

/// The text that `String::from_utf8_lossy` reads from bytes.
pub uninterp spec fn lossy(bytes: Seq<u8>) -> Seq<char>;

/// The text that `str::to_lowercase` makes of a text.
pub uninterp spec fn lowercase(text: Seq<char>) -> Seq<char>;

/// The SHA-256 digest of the UTF-8 bytes of a text, in hexadecimal.
pub uninterp spec fn sha256_digits(text: Seq<char>) -> Seq<char>;

/// The text that the `Debug` form of a text shows: in double quotes, with escapes.
pub uninterp spec fn debugged(text: Seq<char>) -> Seq<char>;

/// `String::from_utf8_lossy`: bytes as text. Bytes that are UTF-8 give the text that they
/// encode; of any others, only that the text depends on them alone.
#[verifier::external_body]
pub(crate) fn from_utf8_lossy(bytes: &Vec<u8>) -> (r: String)
    ensures
        r@ == lossy(bytes@),
        vstd::utf8::valid_utf8(bytes@) ==> r@ == vstd::utf8::decode_utf8(bytes@),
{
    String::from_utf8_lossy(bytes).into_owned()
}

/// `str::to_lowercase`: the lower case of a text, as Unicode has it.
#[verifier::external_body]
pub(crate) fn to_lowercase(text: &str) -> (r: String)
    ensures
        r@ == lowercase(text@),
{
    text.to_lowercase()
}

/// The `Debug` form of a text, as `format!` writes it for `{:?}`. Which escapes it takes is
/// left to the name.
#[verifier::external_body]
pub(crate) fn debug_text(text: &str) -> (r: String)
    ensures
        r@ == debugged(text@),
{
    format!("{:?}", text)
}

/// `sha2::Sha256::digest` of the bytes of a text, in lower case hexadecimal: two digits for
/// each of its 32 bytes.
#[verifier::external_body]
pub(crate) fn sha256_hex(text: &str) -> (r: String)
    ensures
        r@ == sha256_digits(text@),
        r@.len() == 64,
        forall|i: int| 0 <= i < 64 ==> crate::ids::is_lower_hex(#[trigger] r@[i]),
{
    format!("{:x}", <sha2::Sha256 as sha2::Digest>::digest(text.as_bytes()))
}

} // verus!
