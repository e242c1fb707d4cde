//! International resource identifiers (`<scheme>:<tail>`) used to name the source of a resource.
use vstd::prelude::*;

verus! {

/// Whether `scheme` is a valid IRI scheme (`ALPHA *( ALPHA / DIGIT / "+" / "-" / "." )`).
pub open spec fn spec_valid_scheme(scheme: Seq<char>) -> bool {
    &&& scheme.len() > 0
    &&& is_ascii_alpha(scheme[0])
    &&& forall|i: int| 1 <= i < scheme.len() ==> is_scheme_char(#[trigger] scheme[i])
}

pub open spec fn is_ascii_alpha(c: char) -> bool {
    ('a' <= c && c <= 'z') || ('A' <= c && c <= 'Z')
}

pub open spec fn is_scheme_char(c: char) -> bool {
    is_ascii_alpha(c) || ('0' <= c && c <= '9') || c == '+' || c == '-' || c == '.'
}

/// The IRI scheme was invalid.
#[derive(Debug, Clone, Copy, PartialEq, Eq, Structural)]
pub struct InvalidIRIScheme;

/// An IRI of the form `<scheme>:<tail>`.
#[derive(Debug, PartialEq, Eq)]
pub struct IRI {
    scheme: String,
    tail: String,
}

impl Clone for IRI {
    fn clone(&self) -> (r: Self)
        ensures
            r == *self,
    {
        IRI { scheme: self.scheme.clone(), tail: self.tail.clone() }
    }
}

pub struct IRIView {
    pub scheme: Seq<char>,
    pub tail: Seq<char>,
}

impl View for IRI {
    type V = IRIView;

    closed spec fn view(&self) -> IRIView {
        IRIView { scheme: self.scheme@, tail: self.tail@ }
    }
}

/// Index of the first `:` in `s`, if any.
pub open spec fn first_colon(s: Seq<char>) -> Option<int> {
    if exists|i: int| 0 <= i < s.len() && s[i] == ':' {
        Some(choose|i: int| 0 <= i < s.len() && s[i] == ':' && forall|j: int| 0 <= j < i ==> s[j] != ':')
    } else {
        None
    }
}

fn is_valid_scheme(scheme: &str) -> (r: bool)
    ensures
        r == spec_valid_scheme(scheme@),
{
    let len = scheme.unicode_len();
    if len == 0 {
        return false;
    }
    let first = scheme.get_char(0);
    if !(('a' <= first && first <= 'z') || ('A' <= first && first <= 'Z')) {
        return false;
    }
    let mut i: usize = 1;
    while i < len
        invariant
            1 <= i <= len,
            len == scheme@.len(),
            forall|k: int| 1 <= k < i ==> is_scheme_char(#[trigger] scheme@[k]),
        decreases len - i,
    {
        let c = scheme.get_char(i);
        if !(('a' <= c && c <= 'z') || ('A' <= c && c <= 'Z') || ('0' <= c && c <= '9') || c == '+'
            || c == '-' || c == '.') {
            return false;
        }
        i += 1;
    }
    true
}

impl IRI {
    /// Creates an IRI from its scheme and the part following the `:`.
    ///
    /// Fails if the scheme is not a valid IRI scheme.
    pub fn from_parts(scheme: &str, tail: &str) -> (r: Result<IRI, InvalidIRIScheme>)
        ensures
            r is Ok <==> spec_valid_scheme(scheme@),
            r matches Ok(iri) ==> iri@.scheme == scheme@ && iri@.tail == tail@,
    {
        if is_valid_scheme(scheme) {
            Ok(IRI { scheme: scheme.to_owned(), tail: tail.to_owned() })
        } else {
            Err(InvalidIRIScheme)
        }
    }

    /// Parses an IRI of the form `<scheme>:<tail>`, splitting at the first `:`.
    pub fn new(iri: &str) -> (r: Result<IRI, InvalidIRIScheme>)
        ensures
            r is Ok <==> (first_colon(iri@) matches Some(i) && spec_valid_scheme(
                iri@.subrange(0, i),
            )),
            r matches Ok(v) ==> first_colon(iri@) matches Some(i) && v@.scheme == iri@.subrange(
                0,
                i,
            ) && v@.tail == iri@.subrange(i + 1, iri@.len() as int),
    {
        let len = iri.unicode_len();
        let mut i: usize = 0;
        while i < len && iri.get_char(i) != ':'
            invariant
                i <= len,
                len == iri@.len(),
                forall|k: int| 0 <= k < i ==> iri@[k] != ':',
            decreases len - i,
        {
            i += 1;
        }
        if i == len {
            assert(!exists|k: int| 0 <= k < iri@.len() && iri@[k] == ':');
            return Err(InvalidIRIScheme);
        }
        proof {
            assert(iri@[i as int] == ':');
            let c = first_colon(iri@);
            assert(c is Some);
            let w = c->0;
            if w < i {
                assert(iri@[w] != ':');
            }
            if w > i {
                assert(iri@[i as int] != ':');
            }
            assert(w == i);
        }
        let scheme = iri.substring_char(0, i);
        let tail = iri.substring_char(i + 1, len);
        IRI::from_parts(scheme, tail)
    }

    /// The scheme (the part before the first `:`).
    pub fn scheme(&self) -> (r: &str)
        ensures
            r@ == self@.scheme,
    {
        self.scheme.as_str()
    }

    /// The tail (the part after the first `:`).
    pub fn tail(&self) -> (r: &str)
        ensures
            r@ == self@.tail,
    {
        self.tail.as_str()
    }
}

} // verus!

verus! {

proof fn lemma_first_colon_exists(s: Seq<char>, k: int)
    requires
        0 <= k < s.len(),
        s[k] == ':',
    ensures
        exists|i: int| 0 <= i < s.len() && s[i] == ':' && forall|j: int| 0 <= j < i ==> s[j] != ':',
    decreases k,
{
    if exists|j: int| 0 <= j < k && s[j] == ':' {
        let j = choose|j: int| 0 <= j < k && s[j] == ':';
        lemma_first_colon_exists(s, j);
    } else {
        assert(forall|j: int| 0 <= j < k ==> s[j] != ':');
    }
}

/// Splitting at the first `:` loses nothing: scheme, `:` and tail joined
/// again give back the text, and the scheme holds no `:`.
pub proof fn lemma_split_at_first_colon(s: Seq<char>)
    ensures
        first_colon(s) matches Some(i) ==> s == s.subrange(0, i) + seq![':'] + s.subrange(i + 1, s.len() as int)
            && !s.subrange(0, i).contains(':'),
{
    if exists|k: int| 0 <= k < s.len() && s[k] == ':' {
        let k = choose|k: int| 0 <= k < s.len() && s[k] == ':';
        lemma_first_colon_exists(s, k);
        let i = first_colon(s)->0;
        assert(0 <= i < s.len() && s[i] == ':' && forall|j: int| 0 <= j < i ==> s[j] != ':');
        assert(s =~= s.subrange(0, i) + seq![':'] + s.subrange(i + 1, s.len() as int));
        assert forall|j: int| 0 <= j < i implies s.subrange(0, i)[j] != ':' by {
            assert(s.subrange(0, i)[j] == s[j]);
        }
    }
}

} // verus!
