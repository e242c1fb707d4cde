//! Single- and multipart media types and the generation of multipart boundaries.
use vstd::prelude::*;
use crate::components::push_char;
use crate::media_type::{parsed_media_type, MediaType, MediaTypeView};
use rand::Rng;

verus! {

broadcast use vstd::string::group_string_axioms;

/// Errors when creating single-/multipart media types.
#[derive(Debug, Clone)]
pub enum MimeError {
    /// A multipart media type was used where a singlepart one is needed.
    NotSinglepartMime(MediaType),
    /// A singlepart media type was used where a multipart one is needed.
    NotMultipartMime(MediaType),
    /// A multipart media type without boundary parameter.
    MultipartBoundaryMissing,
    /// The generated multipart media type could not be parsed.
    GeneratingMimeFailed,
}

/// A multipart boundary.
#[derive(Debug, Clone)]
pub struct Boundary(pub String);

/// A multipart media type (as held by a body).
#[derive(Debug, Clone)]
pub struct MultipartMIME(pub MediaType);

/// A singlepart media type (as held by a body).
#[derive(Debug, Clone)]
pub struct SinglepartMIME(pub MediaType);

/// Whether the media type is a multipart media type.
pub fn is_multipart_mime(mime: &MediaType) -> (r: bool)
    ensures
        r == mime@.is_multipart(),
{
    mime.is_multipart()
}

/// A media type which is not multipart.
#[derive(Debug, Clone)]
pub struct SinglepartMime(MediaType);

impl SinglepartMime {
    pub closed spec fn spec_mime(&self) -> MediaTypeView {
        self.0@
    }

    /// Fails for multipart media types.
    pub fn new(mime: MediaType) -> (r: Result<Self, MimeError>)
        ensures
            r is Ok <==> !mime@.is_multipart(),
            r matches Ok(m) ==> m.spec_mime() == mime@,
            r matches Err(e) ==> e matches MimeError::NotSinglepartMime(m) && m@ == mime@,
    {
        if !is_multipart_mime(&mime) {
            Ok(SinglepartMime(mime))
        } else {
            Err(MimeError::NotSinglepartMime(mime))
        }
    }

    pub fn as_media_type(&self) -> (r: &MediaType)
        ensures
            r@ == self.spec_mime(),
    {
        &self.0
    }
}

/// A multipart media type with a boundary parameter.
#[derive(Debug, Clone)]
pub struct MultipartMime(MediaType);

pub open spec fn has_boundary(mime: MediaTypeView) -> bool {
    mime.param("boundary"@) is Some
}

fn check_boundary(mime: &MediaType) -> (r: Result<(), MimeError>)
    ensures
        r is Ok <==> has_boundary(mime@),
        r matches Err(e) ==> e is MultipartBoundaryMissing,
{
    proof {
        reveal_strlit("boundary");
    }
    match mime.get_param("boundary") {
        Some(_) => Ok(()),
        None => Err(MimeError::MultipartBoundaryMissing),
    }
}

impl MultipartMime {
    pub closed spec fn spec_mime(&self) -> MediaTypeView {
        self.0@
    }

    /// Fails for media types which are not multipart or have no boundary.
    pub fn new(mime: MediaType) -> (r: Result<Self, MimeError>)
        ensures
            r is Ok <==> mime@.is_multipart() && has_boundary(mime@),
            r matches Ok(m) ==> m.spec_mime() == mime@,
            r matches Err(e) ==> if mime@.is_multipart() {
                e is MultipartBoundaryMissing
            } else {
                e matches MimeError::NotMultipartMime(m) && m@ == mime@
            },
    {
        if mime.is_multipart() {
            check_boundary(&mime)?;
            Ok(MultipartMime(mime))
        } else {
            Err(MimeError::NotMultipartMime(mime))
        }
    }

    pub fn as_media_type(&self) -> (r: &MediaType)
        ensures
            r@ == self.spec_mime(),
    {
        &self.0
    }
}

/// The chars boundaries are made of: the printable ascii chars except `"`, `-`, `\` and space.
pub open spec fn is_boundary_char(c: char) -> bool {
    '!' <= c && c <= '~' && c != '"' && c != '-' && c != '\\'
}

pub open spec fn boundary_chars() -> Seq<char> {
    seq![
        '!', '#', '$', '%', '&', '\'', '(', ')', '*', '+', ',', '.', '/', '0', '1', '2', '3', '4',
        '5', '6', '7', '8', '9', ':', ';', '<', '=', '>', '?', '@', 'A', 'B', 'C', 'D', 'E', 'F',
        'G', 'H', 'I', 'J', 'K', 'L', 'M', 'N', 'O', 'P', 'Q', 'R', 'S', 'T', 'U', 'V', 'W', 'X',
        'Y', 'Z', '[', ']', '^', '_', '`', 'a', 'b', 'c', 'd', 'e', 'f', 'g', 'h', 'i', 'j', 'k',
        'l', 'm', 'n', 'o', 'p', 'q', 'r', 's', 't', 'u', 'v', 'w', 'x', 'y', 'z', '{', '|', '}',
        '~'
    ]
}

/// The number of random chars of a boundary.
pub const MULTIPART_BOUNDARY_LENGTH: usize = 30;

/// A generated boundary: `=_^` (which is neither valid base64 nor quoted-printable)
/// followed by `MULTIPART_BOUNDARY_LENGTH` chars of `boundary_chars()`.
pub open spec fn is_generated_boundary(b: Seq<char>) -> bool {
    &&& b.len() == 3 + MULTIPART_BOUNDARY_LENGTH
    &&& b[0] == '=' && b[1] == '_' && b[2] == '^'
    &&& forall|i: int| 3 <= i < b.len() ==> boundary_chars().contains(#[trigger] b[i])
}

/// Calls `rand::thread_rng().gen_range(0, bound)`: a random number below `bound`.
#[verifier::external_body]
fn random_index(bound: usize) -> (r: usize)
    requires
        bound > 0,
    ensures
        r < bound,
{
    rand::thread_rng().gen_range(0, bound)
}

fn boundary_char_at(i: usize) -> (c: char)
    requires
        i < boundary_chars().len(),
    ensures
        c == boundary_chars()[i as int],
{
    let chars: Vec<char> = vec![
        '!', '#', '$', '%', '&', '\'', '(', ')', '*', '+', ',', '.', '/', '0', '1', '2', '3', '4',
        '5', '6', '7', '8', '9', ':', ';', '<', '=', '>', '?', '@', 'A', 'B', 'C', 'D', 'E', 'F',
        'G', 'H', 'I', 'J', 'K', 'L', 'M', 'N', 'O', 'P', 'Q', 'R', 'S', 'T', 'U', 'V', 'W', 'X',
        'Y', 'Z', '[', ']', '^', '_', '`', 'a', 'b', 'c', 'd', 'e', 'f', 'g', 'h', 'i', 'j', 'k',
        'l', 'm', 'n', 'o', 'p', 'q', 'r', 's', 't', 'u', 'v', 'w', 'x', 'y', 'z', '{', '|', '}',
        '~',
    ];
    assert(chars@ == boundary_chars());
    chars[i]
}

/// Creates a random multipart boundary.
pub fn create_random_boundary() -> (r: String)
    ensures
        is_generated_boundary(r@),
{
    let mut b = String::new();
    push_char(&mut b, '=');
    push_char(&mut b, '_');
    push_char(&mut b, '^');
    let mut i: usize = 0;
    while i < MULTIPART_BOUNDARY_LENGTH
        invariant
            i <= MULTIPART_BOUNDARY_LENGTH,
            b@.len() == 3 + i,
            b@[0] == '=' && b@[1] == '_' && b@[2] == '^',
            forall|k: int| 3 <= k < b@.len() ==> boundary_chars().contains(#[trigger] b@[k]),
        decreases MULTIPART_BOUNDARY_LENGTH - i,
    {
        let idx = random_index(91);
        let c = boundary_char_at(idx);
        push_char(&mut b, c);
        assert(boundary_chars()[idx as int] == c);
        i += 1;
    }
    b
}

/// `multipart/<subtype>; boundary="<boundary>"`
pub open spec fn multipart_text(subtype: Seq<char>, boundary: Seq<char>) -> Seq<char> {
    "multipart/"@ + subtype + "; boundary=\""@ + boundary + "\""@
}

/// Generates a multipart media type with the given subtype and a random boundary.
///
/// Fails if the text `multipart/<subtype>; boundary="<boundary>"` is not a valid
/// media type (e.g. for an invalid subtype).
pub fn gen_multipart_mime(subtype: &str) -> (r: Result<MultipartMime, MimeError>)
    ensures
        exists|b: Seq<char>|
            is_generated_boundary(b) && match (r, parsed_media_type(multipart_text(subtype@, b))) {
                (Ok(m), Some(p)) => m.spec_mime() == p && p.is_multipart() && has_boundary(p),
                (Err(e), None) => e is GeneratingMimeFailed,
                (Err(e), Some(p)) => e is GeneratingMimeFailed && !(p.is_multipart() && has_boundary(p)),
                _ => false,
            },
{
    let boundary = create_random_boundary();
    let mut text = String::new();
    text.append("multipart/");
    text.append(subtype);
    text.append("; boundary=\"");
    text.append(boundary.as_str());
    text.append("\"");
    assert(text@ == multipart_text(subtype@, boundary@));
    match MediaType::parse(text.as_str()) {
        Ok(m) => match MultipartMime::new(m) {
            Ok(mm) => Ok(mm),
            Err(_) => Err(MimeError::GeneratingMimeFailed),
        },
        Err(_) => Err(MimeError::GeneratingMimeFailed),
    }
}

} // verus!

verus! {

/// The chars of the base64 alphabet (with the padding char `=`).
pub open spec fn is_base64_char(c: char) -> bool {
    ('A' <= c && c <= 'Z') || ('a' <= c && c <= 'z') || ('0' <= c && c <= '9') || c == '+' || c == '/'
        || c == '='
}

/// The chars that may follow `=` in quoted-printable data (a hex digit of an
/// escape, or the CR of a soft line break).
pub open spec fn may_follow_qp_equals(c: char) -> bool {
    ('0' <= c && c <= '9') || ('A' <= c && c <= 'F') || c == '\r'
}

/// A generated boundary can not occur in base64 or quoted-printable encoded
/// bodies: its second char is outside the base64 alphabet and it starts with
/// a `=` that no quoted-printable data follows with that char.
pub proof fn lemma_generated_boundary_not_in_encoded_bodies(b: Seq<char>)
    requires
        is_generated_boundary(b),
    ensures
        !is_base64_char(b[1]),
        b[0] == '=' && !may_follow_qp_equals(b[1]),
{
}

} // verus!
