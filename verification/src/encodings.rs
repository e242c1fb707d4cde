//! The transfer encodings this crate uses from outside crates: quoted-printable and base64.
use vstd::prelude::*;

verus! {

/// What `quoted_printable::encode` produces for the given bytes.
pub uninterp spec fn quoted_printable_encoded(data: Seq<u8>) -> Seq<u8>;

/// What `base64::encode_config(_, base64::MIME)` produces (as bytes) for the given bytes.
pub uninterp spec fn base64_mime_encoded(data: Seq<u8>) -> Seq<u8>;

pub open spec fn all_ascii(data: Seq<u8>) -> bool {
    forall|i: int| 0 <= i < data.len() ==> #[trigger] data[i] < 128
}

/// `<[u8]>::len`. No slice (and so no `Vec`) is larger than `isize::MAX` bytes, as
/// the documentation of `slice::from_raw_parts` and `Vec::with_capacity` states.
#[verifier::external_body]
pub(crate) fn byte_len(data: &[u8]) -> (r: usize)
    ensures
        r == data@.len(),
        r <= isize::MAX,
{
    data.len()
}

/// Calls `quoted_printable::encode` (text mode: CRLF pairs are kept, lines are soft
/// wrapped at 76 chars). The contract names the result and states that it is ascii,
/// which the source shows (every char it appends is `=`, a hex digit, a tab, a
/// printable ascii char or part of a CRLF).
#[verifier::external_body]
pub(crate) fn quoted_printable_encode(data: &[u8]) -> (r: Vec<u8>)
    ensures
        r@ == quoted_printable_encoded(data@),
        all_ascii(r@),
{
    quoted_printable::encode(data)
}

/// Calls `base64::encode_config(data, base64::MIME)` (standard alphabet, padding,
/// lines wrapped at 76 chars with CRLF) and returns the bytes of the produced string.
/// The call panics only if the size of the output overflows `usize`, which the bound
/// in `requires` rules out.
#[verifier::external_body]
pub(crate) fn base64_mime_encode(data: &[u8]) -> (r: Vec<u8>)
    requires
        data@.len() <= usize::MAX / 2,
    ensures
        r@ == base64_mime_encoded(data@),
{
    base64::encode_config(data, base64::MIME).into_bytes()
}

} // verus!
