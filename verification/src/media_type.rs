//! Media types (`type/subtype; name=value`) as used in `Content-Type` headers.
use vstd::prelude::*;
use crate::error::ComponentCreationError;
use crate::text::str_eq;

verus! {

/// A parameter of a media type.
#[derive(Debug)]
pub struct MediaTypeParam {
    pub name: String,
    pub value: String,
}

impl Clone for MediaTypeParam {
    fn clone(&self) -> (r: Self)
        ensures
            r == *self,
    {
        MediaTypeParam { name: self.name.clone(), value: self.value.clone() }
    }
}

/// A media type.
///
/// Media types are created by parsing (which lower cases the type, subtype,
/// parameter names and the value of the charset parameter).
#[derive(Debug)]
pub struct MediaType {
    type_: String,
    subtype: String,
    suffix: Option<String>,
    params: Vec<MediaTypeParam>,
}

impl Clone for MediaType {
    fn clone(&self) -> (r: Self)
        ensures
            r@ == self@,
    {
        let suffix = match &self.suffix {
            Some(s) => Some(s.clone()),
            None => None,
        };
        let params = self.params.clone();
        assert(params@ == self.params@);
        MediaType { type_: self.type_.clone(), subtype: self.subtype.clone(), suffix, params }
    }
}

pub struct MediaTypeView {
    pub type_: Seq<char>,
    pub subtype: Seq<char>,
    pub suffix: Option<Seq<char>>,
    pub params: Seq<(Seq<char>, Seq<char>)>,
}

pub open spec fn param_views(params: Seq<MediaTypeParam>) -> Seq<(Seq<char>, Seq<char>)> {
    Seq::new(params.len(), |i: int| (params[i].name@, params[i].value@))
}

impl View for MediaType {
    type V = MediaTypeView;

    closed spec fn view(&self) -> MediaTypeView {
        MediaTypeView {
            type_: self.type_@,
            subtype: self.subtype@,
            suffix: match self.suffix {
                Some(s) => Some(s@),
                None => None,
            },
            params: param_views(self.params@),
        }
    }
}

/// What the `mime` crate parses the given text into, if it is a valid media type.
pub uninterp spec fn parsed_media_type(text: Seq<char>) -> Option<MediaTypeView>;

/// The value of the first parameter with the given name.
pub open spec fn first_param(params: Seq<(Seq<char>, Seq<char>)>, name: Seq<char>) -> Option<
    Seq<char>,
>
    decreases params.len(),
{
    if params.len() == 0 {
        None
    } else if params[0].0 == name {
        Some(params[0].1)
    } else {
        first_param(params.drop_first(), name)
    }
}

/// `text/plain; charset=utf-8`
pub open spec fn text_plain_utf8_view() -> MediaTypeView {
    MediaTypeView {
        type_: "text"@,
        subtype: "plain"@,
        suffix: None,
        params: seq![("charset"@, "utf-8"@)],
    }
}

impl MediaTypeView {
    pub open spec fn is_multipart(self) -> bool {
        self.type_ == "multipart"@
    }

    pub open spec fn is_text(self) -> bool {
        self.type_ == "text"@
    }

    pub open spec fn param(self, name: Seq<char>) -> Option<Seq<char>> {
        first_param(self.params, name)
    }

    /// A text type with no charset or the `us-ascii` charset.
    pub open spec fn has_ascii_charset(self) -> bool {
        &&& self.is_text()
        &&& match self.param("charset"@) {
            Some(c) => c == "us-ascii"@,
            None => true,
        }
    }
}

/// Calls `str::parse::<mime::Mime>` and copies the type, subtype, suffix and
/// parameters of the result into a `MediaType`. The contract names the result.
#[verifier::external_body]
fn mime_parse(text: &str) -> (r: Option<MediaType>)
    ensures
        match r {
            Some(m) => parsed_media_type(text@) == Some(m@),
            None => parsed_media_type(text@) is None,
        },
{
    let m = text.parse::<mime::Mime>().ok()?;
    let params = m.params().map(
        |(n, v)| MediaTypeParam { name: n.as_str().to_string(), value: v.as_str().to_string() },
    ).collect();
    Some(MediaType {
        type_: m.type_().as_str().to_string(),
        subtype: m.subtype().as_str().to_string(),
        suffix: m.suffix().map(|s| s.as_str().to_string()),
        params,
    })
}

impl MediaType {
    /// Parses a media type, e.g. `text/plain; charset=utf-8`.
    pub fn parse(text: &str) -> (r: Result<MediaType, ComponentCreationError>)
        ensures
            r is Ok <==> parsed_media_type(text@) is Some,
            r matches Ok(m) ==> parsed_media_type(text@) == Some(m@),
    {
        match mime_parse(text) {
            Some(m) => Ok(m),
            None => Err(ComponentCreationError { component: "MediaType".to_string() }),
        }
    }

    /// `text/plain; charset=utf-8`
    pub fn text_plain_utf8() -> (r: MediaType)
        ensures
            r@ == text_plain_utf8_view(),
    {
        let mut params = Vec::new();
        params.push(MediaTypeParam { name: "charset".to_string(), value: "utf-8".to_string() });
        let r = MediaType {
            type_: "text".to_string(),
            subtype: "plain".to_string(),
            suffix: None,
            params,
        };
        assert(r@.params =~= seq![("charset"@, "utf-8"@)]);
        r
    }

    pub fn type_(&self) -> (r: &str)
        ensures
            r@ == self@.type_,
    {
        self.type_.as_str()
    }

    pub fn subtype(&self) -> (r: &str)
        ensures
            r@ == self@.subtype,
    {
        self.subtype.as_str()
    }

    /// Whether this is a `multipart/*` media type.
    pub fn is_multipart(&self) -> (r: bool)
        ensures
            r == self@.is_multipart(),
    {
        proof {
            reveal_strlit("multipart");
        }
        str_eq(self.type_.as_str(), "multipart")
    }

    /// Whether this is a `text/*` media type.
    pub fn is_text(&self) -> (r: bool)
        ensures
            r == self@.is_text(),
    {
        proof {
            reveal_strlit("text");
        }
        str_eq(self.type_.as_str(), "text")
    }

    /// The value of the (first) parameter with the given name.
    pub fn get_param(&self, name: &str) -> (r: Option<&str>)
        ensures
            match r {
                Some(v) => self@.param(name@) == Some(v@),
                None => self@.param(name@) is None,
            },
    {
        let mut i: usize = 0;
        let ghost pv = param_views(self.params@);
        assert(pv.subrange(0, pv.len() as int) == pv);
        while i < self.params.len()
            invariant
                i <= self.params@.len(),
                pv == param_views(self.params@),
                first_param(pv, name@) == first_param(pv.subrange(i as int, pv.len() as int), name@),
            decreases self.params@.len() - i,
        {
            let ghost rest = pv.subrange(i as int, pv.len() as int);
            assert(rest[0] == pv[i as int]);
            assert(rest.drop_first() == pv.subrange(i + 1, pv.len() as int));
            if str_eq(self.params[i].name.as_str(), name) {
                return Some(self.params[i].value.as_str());
            }
            i += 1;
        }
        None
    }

    /// Sets the parameter `name` to `value`: the value of the first parameter with
    /// that name is replaced, or the parameter is appended if there is none.
    pub fn set_param(&mut self, name: &str, value: String)
        ensures
            final(self)@.type_ == old(self)@.type_,
            final(self)@.subtype == old(self)@.subtype,
            final(self)@.suffix == old(self)@.suffix,
            final(self)@.param(name@) == Some(value@),
            final(self)@.params.len() == old(self)@.params.len() + (if old(self)@.param(
                name@,
            ) is None {
                1int
            } else {
                0int
            }),
    {
        let mut i: usize = 0;
        let ghost pv = param_views(self.params@);
        assert(pv.subrange(0, pv.len() as int) == pv);
        while i < self.params.len()
            invariant
                i <= self.params@.len(),
                pv == param_views(self.params@),
                self.params@ == old(self).params@,
                self.type_ == old(self).type_,
                self.subtype == old(self).subtype,
                self.suffix == old(self).suffix,
                first_param(pv, name@) == first_param(pv.subrange(i as int, pv.len() as int), name@),
                forall|k: int| 0 <= k < i ==> pv[k].0 != name@,
            decreases self.params@.len() - i,
        {
            let ghost rest = pv.subrange(i as int, pv.len() as int);
            assert(rest[0] == pv[i as int]);
            assert(rest.drop_first() == pv.subrange(i + 1, pv.len() as int));
            if str_eq(self.params[i].name.as_str(), name) {
                let param = MediaTypeParam { name: name.to_owned(), value };
                self.params.set(i, param);
                proof {
                    let npv = param_views(self.params@);
                    assert forall|k: int| 0 <= k < i implies npv[k].0 != name@ by {
                        assert(npv[k] == pv[k]);
                    }
                    lemma_first_param_prefix(npv, name@, i as int);
                    lemma_first_param_some(pv, name@, i as int);
                }
                return;
            }
            i += 1;
        }
        self.params.push(MediaTypeParam { name: name.to_owned(), value });
        proof {
            let npv = param_views(self.params@);
            assert forall|k: int| 0 <= k < i implies npv[k].0 != name@ by {
                assert(npv[k] == pv[k]);
            }
            lemma_first_param_prefix(npv, name@, i as int);
            lemma_first_param_none(pv, name@);
        }
    }
}

proof fn lemma_first_param_prefix(params: Seq<(Seq<char>, Seq<char>)>, name: Seq<char>, i: int)
    requires
        0 <= i < params.len(),
        params[i].0 == name,
        forall|k: int| 0 <= k < i ==> params[k].0 != name,
    ensures
        first_param(params, name) == Some(params[i].1),
    decreases i,
{
    if i > 0 {
        lemma_first_param_prefix(params.drop_first(), name, i - 1);
    }
}

proof fn lemma_first_param_some(params: Seq<(Seq<char>, Seq<char>)>, name: Seq<char>, i: int)
    requires
        0 <= i < params.len(),
        params[i].0 == name,
    ensures
        first_param(params, name) is Some,
    decreases i,
{
    if i > 0 && params[0].0 != name {
        lemma_first_param_some(params.drop_first(), name, i - 1);
    }
}

proof fn lemma_first_param_none(params: Seq<(Seq<char>, Seq<char>)>, name: Seq<char>)
    requires
        forall|k: int| 0 <= k < params.len() ==> params[k].0 != name,
    ensures
        first_param(params, name) is None,
    decreases params.len(),
{
    if params.len() > 0 {
        lemma_first_param_none(params.drop_first(), name);
    }
}

} // verus!

verus! {

broadcast use vstd::string::group_string_axioms;

/// A non-empty text of token chars (RFC 2045), written as parameter value as is.
pub open spec fn is_token(s: Seq<char>) -> bool {
    s.len() > 0 && forall|i: int| 0 <= i < s.len() ==> crate::char_validators::spec_is_token_char(#[trigger] s[i])
}

/// The content of a quoted string for `s`: `"` and `\` are escaped with `\`.
pub open spec fn escape_quoted(s: Seq<char>) -> Seq<char>
    decreases s.len(),
{
    if s.len() == 0 {
        Seq::empty()
    } else {
        let c = s.last();
        if c == '"' || c == '\\' {
            escape_quoted(s.drop_last()).push('\\').push(c)
        } else {
            escape_quoted(s.drop_last()).push(c)
        }
    }
}

/// A parameter value as written: a token as is, anything else as quoted string.
pub open spec fn param_value_text(v: Seq<char>) -> Seq<char> {
    if is_token(v) {
        v
    } else {
        seq!['"'] + escape_quoted(v) + seq!['"']
    }
}

/// The parameters as written, each as `; name=value`.
pub open spec fn params_text(params: Seq<(Seq<char>, Seq<char>)>) -> Seq<char>
    decreases params.len(),
{
    if params.len() == 0 {
        Seq::empty()
    } else {
        params_text(params.drop_last()) + seq![';', ' '] + params.last().0 + seq!['='] + param_value_text(
            params.last().1,
        )
    }
}

/// A media type as written: `type/subtype[+suffix]` and the parameters.
pub open spec fn media_type_text(m: MediaTypeView) -> Seq<char> {
    m.type_ + seq!['/'] + m.subtype + (match m.suffix {
        Some(s) => seq!['+'] + s,
        None => Seq::empty(),
    }) + params_text(m.params)
}

fn is_token_str(s: &str) -> (r: bool)
    ensures
        r == is_token(s@),
{
    let len = s.unicode_len();
    if len == 0 {
        return false;
    }
    let mut i: usize = 0;
    while i < len
        invariant
            len == s@.len(),
            i <= len,
            forall|k: int| 0 <= k < i ==> crate::char_validators::spec_is_token_char(#[trigger] s@[k]),
        decreases len - i,
    {
        if !crate::char_validators::is_token_char(s.get_char(i)) {
            return false;
        }
        i += 1;
    }
    true
}

fn push_param_value(out: &mut String, v: &str)
    ensures
        final(out)@ == old(out)@ + param_value_text(v@),
{
    if is_token_str(v) {
        out.append(v);
        return;
    }
    let ghost start = out@;
    crate::components::push_char(out, '"');
    let len = v.unicode_len();
    let mut i: usize = 0;
    while i < len
        invariant
            len == v@.len(),
            i <= len,
            out@ == start + seq!['"'] + escape_quoted(v@.subrange(0, i as int)),
        decreases len - i,
    {
        let c = v.get_char(i);
        assert(v@.subrange(0, i + 1).drop_last() == v@.subrange(0, i as int));
        assert(v@.subrange(0, i + 1).last() == c);
        if c == '"' || c == '\\' {
            crate::components::push_char(out, '\\');
        }
        crate::components::push_char(out, c);
        i += 1;
    }
    assert(v@.subrange(0, len as int) == v@);
    crate::components::push_char(out, '"');
}

impl MediaType {
    /// The media type as written in a `Content-Type` header.
    pub fn to_text(&self) -> (r: String)
        ensures
            r@ == media_type_text(self@),
    {
        let mut out = String::new();
        out.append(self.type_.as_str());
        crate::components::push_char(&mut out, '/');
        out.append(self.subtype.as_str());
        let ghost head = out@;
        match &self.suffix {
            Some(s) => {
                crate::components::push_char(&mut out, '+');
                out.append(s.as_str());
            },
            None => {},
        }
        let ghost start = out@;
        assert(start == self@.type_ + seq!['/'] + self@.subtype + (match self@.suffix {
            Some(s) => seq!['+'] + s,
            None => Seq::empty(),
        }));
        let mut i: usize = 0;
        while i < self.params.len()
            invariant
                i <= self.params@.len(),
                out@ == start + params_text(param_views(self.params@).subrange(0, i as int)),
            decreases self.params@.len() - i,
        {
            let p = &self.params[i];
            crate::components::push_char(&mut out, ';');
            crate::components::push_char(&mut out, ' ');
            out.append(p.name.as_str());
            crate::components::push_char(&mut out, '=');
            push_param_value(&mut out, p.value.as_str());
            proof {
                let pv = param_views(self.params@);
                assert(pv.subrange(0, i + 1).drop_last() == pv.subrange(0, i as int));
                assert(pv.subrange(0, i + 1).last() == pv[i as int]);
            }
            i += 1;
        }
        assert(param_views(self.params@).subrange(0, self.params@.len() as int) == param_views(self.params@));
        out
    }
}

} // verus!

verus! {

impl crate::codec::MailEncodable for MediaType {
    /// Writes the media type (`to_text`); fails if it is not ascii and the
    /// encoder does not support 8-bit data.
    fn encode(&self, encoder: &mut crate::codec::MailEncoder) -> (r: Result<(), crate::error::EncodingError>)
        ensures
            r is Ok <==> (old(encoder)@.bits8 != crate::codec::Bits8State::Unsupported
                || crate::codec::is_7bit(crate::components::utf8(media_type_text(self@)))),
            r is Ok ==> final(encoder)@.data == old(encoder)@.data + crate::components::utf8(media_type_text(self@)),
    {
        let text = self.to_text();
        let ghost start = encoder@.data;
        let r = encoder.try_write_8bit_data(text.as_str().as_bytes());
        proof {
            if r is Ok {
                crate::codec::lemma_prefix_append(start, crate::components::utf8(media_type_text(self@)));
            } else {
                crate::codec::lemma_prefix_append(start, Seq::empty());
                assert(start + Seq::<u8>::empty() == start);
            }
        }
        r
    }
}

} // verus!
