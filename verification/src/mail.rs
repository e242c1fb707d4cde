//! Mails: headers and a body which is either a single resource or a list of
//! (sub-)mails, the builders creating them, and turning a mail whose resources
//! are all loaded into an encodable mail (adding the generated headers).
use vstd::prelude::*;
use crate::components::MessageID;
use crate::date_time::DateTime;
use crate::error::{BuilderError, HeaderTypeError, HeaderValidationError, MailError,
    OtherBuilderErrorKind};
use crate::headers::{spec_contains, spec_contextually_valid, spec_get_single, HeaderBody, HeaderMap,
    HeaderName};
use crate::media_type::MediaType;
use crate::mime::{create_random_boundary, is_generated_boundary};
use crate::resource::Resource;

verus! {

/// A mail (or a body of a multipart mail): headers and a body.
#[derive(Debug)]
pub struct Mail {
    headers: HeaderMap,
    body: MailPart,
}

/// Either a single body or multiple bodies (a multipart body, possibly with just one part).
#[derive(Debug)]
pub enum MailPart {
    SingleBody { body: Resource },
    MultipleBodies {
        bodies: Vec<Mail>,
        /// The text between the headers and the first part of a multipart body.
        hidden_text: String,
    },
}

impl MailPart {
    pub open spec fn spec_is_multipart(&self) -> bool {
        self is MultipleBodies
    }

    /// Whether it is a multipart body.
    pub fn is_multipart(&self) -> (r: bool)
        ensures
            r == self.spec_is_multipart(),
    {
        match self {
            MailPart::SingleBody { .. } => false,
            MailPart::MultipleBodies { .. } => true,
        }
    }
}

/// The error `check_header` reports for a header body (`None` if it is accepted).
pub open spec fn spec_header_check(name: HeaderName, body: HeaderBody, is_multipart: bool) -> Option<
    Option<OtherBuilderErrorKind>,
> {
    match name {
        HeaderName::ContentType => if is_multipart {
            match body {
                HeaderBody::MediaType(m) => if m@.is_multipart() {
                    None
                } else {
                    Some(Some(OtherBuilderErrorKind::SingleMultipartMixup))
                },
                _ => Some(None),
            }
        } else {
            Some(Some(OtherBuilderErrorKind::InsertSinglepartContentTypeHeader))
        },
        HeaderName::ContentTransferEncoding => Some(
            Some(OtherBuilderErrorKind::InsertingContentTransferEncodingHeader),
        ),
        _ => None,
    }
}

/// Whether a builder error is the one described (`Some(kind)` an other error,
/// `None` a type error for the `Content-Type` header).
pub open spec fn is_builder_error(e: BuilderError, expected: Option<OtherBuilderErrorKind>) -> bool {
    match expected {
        Some(kind) => e == BuilderError::Other(kind),
        None => e is Type,
    }
}

fn content_type_type_error() -> (r: BuilderError)
    ensures
        r matches BuilderError::Type(e) && e.header_name@ == crate::headers::header_name_text(
            HeaderName::ContentType,
        ),
{
    BuilderError::Type(HeaderTypeError { header_name: HeaderName::ContentType.as_str().to_owned() })
}

/// Checks whether a header may be set on a (multi or single part) body.
///
/// `Content-Transfer-Encoding` is never accepted and `Content-Type` only for a
/// multipart body with a multipart media type, as they are generated from the body.
pub fn check_header(name: HeaderName, hbody: &HeaderBody, is_multipart: bool) -> (r: Result<
    (),
    BuilderError,
>)
    ensures
        match (r, spec_header_check(name, *hbody, is_multipart)) {
            (Ok(()), None) => true,
            (Err(e), Some(expected)) => is_builder_error(e, expected),
            _ => false,
        },
{
    match name {
        HeaderName::ContentType => {
            if is_multipart {
                match hbody {
                    HeaderBody::MediaType(mime) => {
                        if !mime.is_multipart() {
                            return Err(
                                BuilderError::Other(OtherBuilderErrorKind::SingleMultipartMixup),
                            );
                        }
                    },
                    _ => return Err(content_type_type_error()),
                }
            } else {
                return Err(
                    BuilderError::Other(OtherBuilderErrorKind::InsertSinglepartContentTypeHeader),
                );
            }
        },
        HeaderName::ContentTransferEncoding => {
            return Err(
                BuilderError::Other(OtherBuilderErrorKind::InsertingContentTransferEncodingHeader),
            );
        },
        _ => {},
    }
    Ok(())
}

/// The error `check_multiple_headers` reports for headers (`None` if they are accepted).
pub open spec fn spec_headers_check(headers: Seq<(HeaderName, HeaderBody)>, is_multipart: bool) -> Option<
    Option<OtherBuilderErrorKind>,
> {
    if spec_contains(headers, HeaderName::ContentTransferEncoding) {
        Some(Some(OtherBuilderErrorKind::InsertingContentTransferEncodingHeader))
    } else {
        match spec_get_single(headers, HeaderName::ContentType) {
            Some(body) => spec_header_check(HeaderName::ContentType, body, is_multipart),
            None => None,
        }
    }
}

/// Checks whether the headers may be set on a (multi or single part) body (see `check_header`).
pub fn check_multiple_headers(headers: &HeaderMap, is_multipart: bool) -> (r: Result<
    (),
    BuilderError,
>)
    ensures
        match (r, spec_headers_check(headers@, is_multipart)) {
            (Ok(()), None) => true,
            (Err(e), Some(expected)) => is_builder_error(e, expected),
            _ => false,
        },
{
    if let Some(_) = headers.get_single(HeaderName::ContentTransferEncoding) {
        return Err(
            BuilderError::Other(OtherBuilderErrorKind::InsertingContentTransferEncodingHeader),
        );
    }
    if let Some(mime) = headers.get_single(HeaderName::ContentType) {
        if is_multipart {
            match mime {
                HeaderBody::MediaType(m) => {
                    if !m.is_multipart() {
                        return Err(BuilderError::Other(OtherBuilderErrorKind::SingleMultipartMixup));
                    }
                },
                _ => return Err(content_type_type_error()),
            }
        } else {
            return Err(
                BuilderError::Other(OtherBuilderErrorKind::InsertSinglepartContentTypeHeader),
            );
        }
    }
    Ok(())
}

struct BuilderShared {
    headers: HeaderMap,
}

impl BuilderShared {
    fn new() -> (r: Self)
        ensures
            r.headers@.len() == 0,
    {
        BuilderShared { headers: HeaderMap::new() }
    }

    /// Checks and adds a header (see `check_header`).
    fn header(&mut self, name: HeaderName, hbody: HeaderBody, is_multipart: bool) -> (r: Result<
        (),
        BuilderError,
    >)
        ensures
            spec_set_header(old(self).headers@, name, hbody, is_multipart, r, final(self).headers@),
    {
        check_header(name, &hbody, is_multipart)?;
        match self.headers.insert(name, hbody) {
            Ok(()) => Ok(()),
            Err(e) => Err(BuilderError::Type(e)),
        }
    }

    /// Checks and adds headers (see `check_multiple_headers`).
    fn headers(&mut self, headers: HeaderMap, is_multipart: bool) -> (r: Result<(), BuilderError>)
        ensures
            spec_set_headers(old(self).headers@, headers@, is_multipart, r, final(self).headers@),
    {
        check_multiple_headers(&headers, is_multipart)?;
        self.headers.combine(headers);
        Ok(())
    }
}

/// Setting a header: it is checked (`check_header`), then appended if its body has
/// the right kind (else a type error); on failure the headers are unchanged.
pub open spec fn spec_set_header(
    old: Seq<(HeaderName, HeaderBody)>,
    name: HeaderName,
    hbody: HeaderBody,
    is_multipart: bool,
    r: Result<(), BuilderError>,
    new: Seq<(HeaderName, HeaderBody)>,
) -> bool {
    match spec_header_check(name, hbody, is_multipart) {
        Some(expected) => r matches Err(e) && is_builder_error(e, expected) && new == old,
        None => if crate::headers::spec_body_kind(hbody) == crate::headers::spec_expected_kind(name) {
            r is Ok && new == old.push((name, hbody))
        } else {
            r matches Err(e) && e is Type && new == old
        },
    }
}

/// Setting headers: they are checked (`check_multiple_headers`), then appended.
pub open spec fn spec_set_headers(
    old: Seq<(HeaderName, HeaderBody)>,
    added: Seq<(HeaderName, HeaderBody)>,
    is_multipart: bool,
    r: Result<(), BuilderError>,
    new: Seq<(HeaderName, HeaderBody)>,
) -> bool {
    match spec_headers_check(added, is_multipart) {
        Some(expected) => r matches Err(e) && is_builder_error(e, expected) && new == old,
        None => r is Ok && new == old + added,
    }
}

/// The result without its value.
pub open spec fn unit_result<T>(r: Result<T, BuilderError>) -> Result<(), BuilderError> {
    match r {
        Ok(_) => Ok(()),
        Err(e) => Err(e),
    }
}

/// Entry point to the builders of single- and multipart mails.
pub struct Builder;

/// Builder of a mail whose body is a resource.
pub struct SinglepartBuilder {
    inner: BuilderShared,
    body: Resource,
}

/// Builder of a multipart mail.
pub struct MultipartBuilder {
    inner: BuilderShared,
    hidden_text: Option<String>,
    bodies: Vec<Mail>,
}

impl SinglepartBuilder {
    pub closed spec fn spec_headers(&self) -> Seq<(HeaderName, HeaderBody)> {
        self.inner.headers@
    }

    pub closed spec fn spec_body(&self) -> Resource {
        self.body
    }

    /// Adds a header; `Content-Type` and `Content-Transfer-Encoding` are rejected as
    /// they are generated from the resource.
    pub fn header(self, name: HeaderName, hbody: HeaderBody) -> (r: Result<Self, BuilderError>)
        ensures
            spec_set_header(
                self.spec_headers(),
                name,
                hbody,
                false,
                unit_result(r),
                match r {
                    Ok(b) => b.spec_headers(),
                    Err(_) => self.spec_headers(),
                },
            ),
            r matches Ok(b) ==> b.spec_body() == self.spec_body(),
    {
        let mut this = self;
        this.inner.header(name, hbody, false)?;
        Ok(this)
    }

    /// Adds all headers; `Content-Type` and `Content-Transfer-Encoding` are rejected.
    pub fn headers(self, headers: HeaderMap) -> (r: Result<Self, BuilderError>)
        ensures
            spec_set_headers(
                self.spec_headers(),
                headers@,
                false,
                unit_result(r),
                match r {
                    Ok(b) => b.spec_headers(),
                    Err(_) => self.spec_headers(),
                },
            ),
            r matches Ok(b) ==> b.spec_body() == self.spec_body(),
    {
        let mut this = self;
        this.inner.headers(headers, false)?;
        Ok(this)
    }

    /// The mail with the resource as (single) body.
    pub fn build(self) -> (r: Result<Mail, BuilderError>)
        ensures
            r matches Ok(m) && m.spec_headers() == self.spec_headers() && m.spec_body()
                == (MailPart::SingleBody { body: self.spec_body() }),
    {
        Ok(Mail { headers: self.inner.headers, body: MailPart::SingleBody { body: self.body } })
    }
}

impl MultipartBuilder {
    pub closed spec fn spec_headers(&self) -> Seq<(HeaderName, HeaderBody)> {
        self.inner.headers@
    }

    pub closed spec fn spec_bodies(&self) -> Seq<Mail> {
        self.bodies@
    }

    pub closed spec fn spec_hidden_text(&self) -> Option<String> {
        self.hidden_text
    }

    /// Adds a header; `Content-Transfer-Encoding` and a `Content-Type` which is not
    /// multipart are rejected.
    pub fn header(self, name: HeaderName, hbody: HeaderBody) -> (r: Result<Self, BuilderError>)
        ensures
            spec_set_header(
                self.spec_headers(),
                name,
                hbody,
                true,
                unit_result(r),
                match r {
                    Ok(b) => b.spec_headers(),
                    Err(_) => self.spec_headers(),
                },
            ),
            r matches Ok(b) ==> b.spec_bodies() == self.spec_bodies() && b.spec_hidden_text()
                == self.spec_hidden_text(),
    {
        let mut this = self;
        this.inner.header(name, hbody, true)?;
        Ok(this)
    }

    /// Adds all headers; `Content-Transfer-Encoding` and a `Content-Type` which is not
    /// multipart are rejected.
    pub fn headers(self, headers: HeaderMap) -> (r: Result<Self, BuilderError>)
        ensures
            spec_set_headers(
                self.spec_headers(),
                headers@,
                true,
                unit_result(r),
                match r {
                    Ok(b) => b.spec_headers(),
                    Err(_) => self.spec_headers(),
                },
            ),
            r matches Ok(b) ==> b.spec_bodies() == self.spec_bodies() && b.spec_hidden_text()
                == self.spec_hidden_text(),
    {
        let mut this = self;
        this.inner.headers(headers, true)?;
        Ok(this)
    }

    /// Adds a (sub) body.
    pub fn body(self, body: Mail) -> (r: Result<Self, BuilderError>)
        ensures
            r matches Ok(b) && b.spec_bodies() == self.spec_bodies().push(body) && b.spec_headers()
                == self.spec_headers() && b.spec_hidden_text() == self.spec_hidden_text(),
    {
        let mut this = self;
        this.bodies.push(body);
        Ok(this)
    }

    /// The multipart mail; fails if no body was added.
    pub fn build(self) -> (r: Result<Mail, BuilderError>)
        ensures
            r is Err <==> self.spec_bodies().len() == 0,
            r matches Err(e) ==> e == BuilderError::Other(OtherBuilderErrorKind::EmptyMultipartBody),
            r matches Ok(m) ==> {
                &&& m.spec_headers() == self.spec_headers()
                &&& m.spec_body() matches MailPart::MultipleBodies { bodies, hidden_text }
                &&& bodies@ == self.spec_bodies()
                &&& hidden_text@ == match self.spec_hidden_text() {
                    Some(t) => t@,
                    None => Seq::<char>::empty(),
                }
            },
    {
        if self.bodies.len() == 0 {
            Err(BuilderError::Other(OtherBuilderErrorKind::EmptyMultipartBody))
        } else {
            let hidden_text = match self.hidden_text {
                Some(t) => t,
                None => String::new(),
            };
            Ok(
                Mail {
                    headers: self.inner.headers,
                    body: MailPart::MultipleBodies { bodies: self.bodies, hidden_text },
                },
            )
        }
    }
}

impl Builder {
    /// A builder for a multipart mail with the given (multipart) media type as content
    /// type, whose boundary parameter is set to a random boundary.
    ///
    /// Fails if the media type is not multipart.
    pub fn multipart(media_type: MediaType) -> (r: Result<MultipartBuilder, BuilderError>)
        ensures
            r is Err <==> !media_type@.is_multipart(),
            r matches Err(e) ==> e == BuilderError::Other(OtherBuilderErrorKind::SingleMultipartMixup),
            r matches Ok(b) ==> {
                &&& b.spec_bodies().len() == 0
                &&& b.spec_hidden_text() is None
                &&& b.spec_headers().len() == 1
                &&& b.spec_headers()[0].0 == HeaderName::ContentType
                &&& b.spec_headers()[0].1 matches HeaderBody::MediaType(m)
                &&& m@.type_ == media_type@.type_
                &&& m@.subtype == media_type@.subtype
                &&& m@.param("boundary"@) matches Some(bd)
                &&& is_generated_boundary(bd)
            },
    {
        if !media_type.is_multipart() {
            return Err(BuilderError::Other(OtherBuilderErrorKind::SingleMultipartMixup));
        }
        let mut media_type = media_type;
        let boundary = create_random_boundary();
        proof {
            reveal_strlit("boundary");
        }
        media_type.set_param("boundary", boundary);
        let mut inner = BuilderShared::new();
        let res = inner.header(HeaderName::ContentType, HeaderBody::MediaType(media_type), true);
        assert(res is Ok);
        Ok(MultipartBuilder { inner, hidden_text: None, bodies: Vec::new() })
    }

    /// A builder for a mail whose body is the resource.
    pub fn singlepart(r: Resource) -> (b: SinglepartBuilder)
        ensures
            b.spec_headers().len() == 0,
            b.spec_body() == r,
    {
        SinglepartBuilder { inner: BuilderShared::new(), body: r }
    }
}

/// The bodies that a chain of multipart builder steps adds, in the order of the
/// steps: `Some(m)` for a `body(m)` step, `None` for a `header` or `headers` step.
pub open spec fn added_bodies(steps: Seq<Option<Mail>>) -> Seq<Mail>
    decreases steps.len(),
{
    if steps.len() == 0 {
        Seq::empty()
    } else {
        added_bodies(steps.drop_last()) + match steps.last() {
            Some(m) => seq![m],
            None => Seq::empty(),
        }
    }
}

/// A chain of successful steps on a multipart builder fresh from
/// `Builder::multipart` (`builders[0]`): each `body(m)` step appends `m` and each
/// `header`/`headers` step keeps the bodies, so the last builder holds exactly the
/// added bodies in call order, and (by `build`) building fails exactly when no
/// body was added.
pub proof fn lemma_multipart_chain(builders: Seq<MultipartBuilder>, steps: Seq<Option<Mail>>)
    requires
        builders.len() == steps.len() + 1,
        builders[0].spec_bodies().len() == 0,
        forall|i: int|
            0 <= i < steps.len() ==> #[trigger] builders[i + 1].spec_bodies() == match steps[i] {
                Some(m) => builders[i].spec_bodies().push(m),
                None => builders[i].spec_bodies(),
            },
    ensures
        builders.last().spec_bodies() == added_bodies(steps),
        builders.last().spec_bodies().len() == 0 <==> forall|i: int| 0 <= i < steps.len() ==> #[trigger] steps[i] is None,
    decreases steps.len(),
{
    if steps.len() == 0 {
        assert(builders.last().spec_bodies() =~= added_bodies(steps));
    } else {
        let n = steps.len() as int;
        let bs = builders.drop_last();
        let ss = steps.drop_last();
        assert forall|i: int| 0 <= i < ss.len() implies #[trigger] bs[i + 1].spec_bodies() == match ss[i] {
            Some(m) => bs[i].spec_bodies().push(m),
            None => bs[i].spec_bodies(),
        } by {
            assert(builders[i + 1].spec_bodies() == match steps[i] {
                Some(m) => builders[i].spec_bodies().push(m),
                None => builders[i].spec_bodies(),
            });
        }
        lemma_multipart_chain(bs, ss);
        assert(builders[n].spec_bodies() == match steps[n - 1] {
            Some(m) => builders[n - 1].spec_bodies().push(m),
            None => builders[n - 1].spec_bodies(),
        });
        assert(bs.last() == builders[n - 1]);
        match steps[n - 1] {
            Some(m) => {
                assert(builders.last().spec_bodies() =~= added_bodies(steps));
            },
            None => {
                assert(builders.last().spec_bodies() =~= added_bodies(steps));
                assert forall|i: int| 0 <= i < steps.len() && (forall|k: int| 0 <= k < ss.len() ==> #[trigger] ss[k] is None)
                    implies #[trigger] steps[i] is None by {
                    if i < n - 1 {
                        assert(ss[i] == steps[i]);
                    }
                }
                if builders.last().spec_bodies().len() != 0 {
                    assert(exists|k: int| 0 <= k < ss.len() && !(#[trigger] ss[k] is None));
                    let k = choose|k: int| 0 <= k < ss.len() && !(#[trigger] ss[k] is None);
                    assert(steps[k] == ss[k]);
                }
            },
        }
    }
}

impl Mail {
    pub closed spec fn spec_headers(&self) -> Seq<(HeaderName, HeaderBody)> {
        self.headers@
    }

    pub closed spec fn spec_body(&self) -> MailPart {
        self.body
    }

    /// A mail from headers and body as they are (without any check).
    pub fn from_parts(headers: HeaderMap, body: MailPart) -> (r: Mail)
        ensures
            r.spec_headers() == headers@,
            r.spec_body() == body,
    {
        Mail { headers, body }
    }

    /// The headers and the body of the mail.
    pub fn into_parts(self) -> (r: (HeaderMap, MailPart))
        ensures
            r.0@ == self.spec_headers(),
            r.1 == self.spec_body(),
    {
        (self.headers, self.body)
    }

    /// A plain text mail (`text/plain; charset=utf-8`) without headers.
    pub fn plain_text(text: String) -> (r: Result<Mail, BuilderError>)
        ensures
            match r {
                Ok(m) => {
                    &&& m.spec_headers().len() == 0
                    &&& m.spec_body() matches MailPart::SingleBody { body }
                    &&& body.spec_source() is None
                    &&& body.spec_state() matches crate::resource::ResourceState::Loaded(buf)
                    &&& buf@.data == vstd::utf8::encode_utf8(text@)
                    &&& buf@.content_type == crate::media_type::text_plain_utf8_view()
                },
                Err(_) => false,
            },
    {
        let resource = Resource::sourceless_from_string(text);
        Builder::singlepart(resource).build()
    }

    /// Adds a header; `Content-Transfer-Encoding` and (for singlepart mails) `Content-Type`
    /// are rejected, as is a non multipart `Content-Type` for multipart mails.
    pub fn set_header(&mut self, name: HeaderName, hbody: HeaderBody) -> (r: Result<(), BuilderError>)
        ensures
            spec_set_header(
                old(self).spec_headers(),
                name,
                hbody,
                old(self).spec_body().spec_is_multipart(),
                r,
                final(self).spec_headers(),
            ),
            final(self).spec_body() == old(self).spec_body(),
    {
        let is_multipart = self.body.is_multipart();
        check_header(name, &hbody, is_multipart)?;
        match self.headers.insert(name, hbody) {
            Ok(()) => Ok(()),
            Err(e) => Err(BuilderError::Type(e)),
        }
    }

    /// Adds all headers (checked like in `set_header`).
    pub fn set_headers(&mut self, headers: HeaderMap) -> (r: Result<(), BuilderError>)
        ensures
            spec_set_headers(
                old(self).spec_headers(),
                headers@,
                old(self).spec_body().spec_is_multipart(),
                r,
                final(self).spec_headers(),
            ),
            final(self).spec_body() == old(self).spec_body(),
    {
        let is_multipart = self.body.is_multipart();
        check_multiple_headers(&headers, is_multipart)?;
        self.headers.combine(headers);
        Ok(())
    }

    /// The headers set so far.
    pub fn headers(&self) -> (r: &HeaderMap)
        ensures
            r@ == self.spec_headers(),
    {
        &self.headers
    }

    /// The body/bodies.
    pub fn body(&self) -> (r: &MailPart)
        ensures
            *r == self.spec_body(),
    {
        &self.body
    }
}


/// The resources of a mail, depth first in order.
pub open spec fn spec_resources(mail: Mail) -> Seq<Resource>
    decreases mail,
{
    match mail.spec_body() {
        MailPart::SingleBody { body } => seq![body],
        MailPart::MultipleBodies { bodies, .. } => spec_resources_of(bodies@),
    }
}

/// The resources of a list of mails, in order.
pub open spec fn spec_resources_of(mails: Seq<Mail>) -> Seq<Resource>
    decreases mails,
{
    if mails.len() == 0 {
        Seq::empty()
    } else {
        spec_resources_of(mails.drop_last()) + spec_resources(mails.last())
    }
}

/// Whether all resources of the mail are loaded (and transfer encoded).
pub open spec fn spec_all_loaded(mail: Mail) -> bool
    decreases mail,
{
    match mail.spec_body() {
        MailPart::SingleBody { body } => body.spec_encoded() is Some,
        MailPart::MultipleBodies { bodies, .. } => spec_all_loaded_of(bodies@),
    }
}

/// Whether all resources of all the mails are loaded.
pub open spec fn spec_all_loaded_of(mails: Seq<Mail>) -> bool
    decreases mails,
{
    mails.len() > 0 ==> spec_all_loaded_of(mails.drop_last()) && spec_all_loaded(mails.last())
}

/// The number of (sub-)mails of a mail, itself included.
pub open spec fn spec_size(mail: Mail) -> nat
    decreases mail,
{
    match mail.spec_body() {
        MailPart::SingleBody { .. } => 1,
        MailPart::MultipleBodies { bodies, .. } => 1 + spec_size_of(bodies@),
    }
}

pub open spec fn spec_size_of(mails: Seq<Mail>) -> nat
    decreases mails,
{
    if mails.len() == 0 {
        0
    } else {
        spec_size_of(mails.drop_last()) + spec_size(mails.last())
    }
}

proof fn lemma_size_of(mails: Seq<Mail>, i: int)
    requires
        0 <= i < mails.len(),
    ensures
        spec_size(mails[i]) <= spec_size_of(mails),
    decreases mails.len(),
{
    if i < mails.len() - 1 {
        lemma_size_of(mails.drop_last(), i);
    }
}

/// The resources of the first `i + 1` mails start the resources of all of them.
proof fn lemma_resources_of_prefix(mails: Seq<Mail>, i: int)
    requires
        0 <= i < mails.len(),
    ensures
        spec_resources_of(mails.subrange(0, i + 1)).len() <= spec_resources_of(mails).len(),
        forall|k: int| 0 <= k < spec_resources_of(mails.subrange(0, i + 1)).len() ==> #[trigger] spec_resources_of(
            mails,
        )[k] == spec_resources_of(mails.subrange(0, i + 1))[k],
    decreases mails.len(),
{
    if i + 1 == mails.len() {
        assert(mails.subrange(0, i + 1) == mails);
    } else {
        lemma_resources_of_prefix(mails.drop_last(), i);
        assert(mails.drop_last().subrange(0, i + 1) == mails.subrange(0, i + 1));
    }
}

proof fn lemma_all_loaded_of(mails: Seq<Mail>, i: int)
    requires
        spec_all_loaded_of(mails),
        0 <= i < mails.len(),
    ensures
        spec_all_loaded(mails[i]),
    decreases mails.len(),
{
    if i < mails.len() - 1 {
        lemma_all_loaded_of(mails.drop_last(), i);
    }
}

/// `new` is `old` with the generated headers (`Content-Type` and
/// `Content-Transfer-Encoding` of the transfer encoded resource) appended to the
/// headers of every single body.
pub open spec fn spec_generated(old: Mail, new: Mail) -> bool
    decreases old,
{
    match (old.spec_body(), new.spec_body()) {
        (MailPart::SingleBody { body: b1 }, MailPart::SingleBody { body: b2 }) => {
            let h = old.spec_headers();
            let n = new.spec_headers();
            &&& b1 == b2
            &&& b1.spec_encoded() matches Some(enc)
            &&& n.len() == h.len() + 2
            &&& n.subrange(0, h.len() as int) == h
            &&& n[h.len() as int].0 == HeaderName::ContentType
            &&& n[h.len() as int].1 matches HeaderBody::MediaType(m)
            &&& m@ == enc@.buffer.content_type
            &&& n[h.len() + 1int] == (
                HeaderName::ContentTransferEncoding,
                HeaderBody::TransferEncoding(enc@.encoding),
            )
        },
        (
            MailPart::MultipleBodies { bodies: bs1, hidden_text: t1 },
            MailPart::MultipleBodies { bodies: bs2, hidden_text: t2 },
        ) => {
            &&& t1 == t2
            &&& new.spec_headers() == old.spec_headers()
            &&& spec_generated_all(bs1@, bs2@)
        },
        _ => false,
    }
}

/// `spec_generated` for all mails of two lists, pairwise.
pub open spec fn spec_generated_all(old: Seq<Mail>, new: Seq<Mail>) -> bool
    decreases old,
{
    &&& old.len() == new.len()
    &&& old.len() > 0 ==> spec_generated_all(old.drop_last(), new.drop_last()) && spec_generated(
        old.last(),
        new.last(),
    )
}

impl Mail {
    /// The resources of the mail, depth first in order.
    pub fn resources(&self) -> (r: Vec<&Resource>)
        ensures
            r@.len() == spec_resources(*self).len(),
            forall|i: int| 0 <= i < r@.len() ==> *r@[i] == spec_resources(*self)[i],
        decreases self,
    {
        match &self.body {
            MailPart::SingleBody { body } => {
                let mut v = Vec::new();
                v.push(body);
                v
            },
            MailPart::MultipleBodies { bodies, .. } => {
                let mut out: Vec<&Resource> = Vec::new();
                let mut i: usize = 0;
                while i < bodies.len()
                    invariant
                        i <= bodies@.len(),
                        self.body == (MailPart::MultipleBodies { bodies: *bodies, hidden_text: self.body->hidden_text }),
                        out@.len() == spec_resources_of(bodies@.subrange(0, i as int)).len(),
                        forall|k: int| 0 <= k < out@.len() ==> *out@[k] == spec_resources_of(
                            bodies@.subrange(0, i as int),
                        )[k],
                    decreases bodies@.len() - i,
                {
                    proof {
                        assert(decreases_to!(*self => self.body));
                        assert(decreases_to!(self.body => self.body->bodies));
                        assert(decreases_to!(self.body->bodies => self.body->bodies@));
                        assert(decreases_to!(self.body->bodies@ => self.body->bodies@[i as int]));
                    }
                    let mut sub = bodies[i].resources();
                    let ghost before = out@;
                    out.append(&mut sub);
                    proof {
                        let p = bodies@.subrange(0, i + 1);
                        assert(p.drop_last() == bodies@.subrange(0, i as int));
                        assert(p.last() == bodies@[i as int]);
                    }
                    i += 1;
                }
                assert(bodies@.subrange(0, bodies@.len() as int) == bodies@);
                out
            },
        }
    }
}

impl Mail {
    /// Calls `use_it_fn` on every resource of the mail, depth first in order,
    /// stopping at (and returning) the first error.
    pub fn walk_mail_bodies<F, E>(&self, use_it_fn: &F) -> (r: Result<(), E>)
        where F: Fn(&Resource) -> Result<(), E>,
        requires
            forall|res: &Resource| #[trigger] call_requires(*use_it_fn, (res,)),
        ensures
            r is Ok ==> forall|i: int| 0 <= i < spec_resources(*self).len() ==> call_ensures(
                *use_it_fn,
                (&#[trigger] spec_resources(*self)[i],),
                Ok::<(), E>(()),
            ),
            r matches Err(e) ==> exists|i: int| 0 <= i < spec_resources(*self).len() && call_ensures(
                *use_it_fn,
                (&#[trigger] spec_resources(*self)[i],),
                Err::<(), E>(e),
            ),
        decreases self,
    {
        match &self.body {
            MailPart::SingleBody { body } => {
                let r = use_it_fn(body);
                assert(spec_resources(*self)[0] == *body);
                proof {
                    if r is Ok {
                        let u: () = r->Ok_0;
                        assert(u == ());
                        assert(r == Ok::<(), E>(()));
                    }
                }
                r
            },
            MailPart::MultipleBodies { bodies, .. } => {
                let mut i: usize = 0;
                while i < bodies.len()
                    invariant
                        i <= bodies@.len(),
                        self.body == (MailPart::MultipleBodies { bodies: *bodies, hidden_text: self.body->hidden_text }),
                        forall|res: &Resource| #[trigger] call_requires(*use_it_fn, (res,)),
                        forall|k: int| 0 <= k < spec_resources_of(bodies@.subrange(0, i as int)).len() ==> call_ensures(
                            *use_it_fn,
                            (&#[trigger] spec_resources_of(bodies@.subrange(0, i as int))[k],),
                            Ok::<(), E>(()),
                        ),
                    decreases bodies@.len() - i,
                {
                    proof {
                        assert(decreases_to!(*self => self.body));
                        assert(decreases_to!(self.body => self.body->bodies));
                        assert(decreases_to!(self.body->bodies => self.body->bodies@));
                        assert(decreases_to!(self.body->bodies@ => self.body->bodies@[i as int]));
                    }
                    let ghost before = spec_resources_of(bodies@.subrange(0, i as int));
                    let ghost sub = spec_resources(bodies@[i as int]);
                    proof {
                        let p = bodies@.subrange(0, i + 1);
                        assert(p.drop_last() == bodies@.subrange(0, i as int));
                        assert(p.last() == bodies@[i as int]);
                        assert(spec_resources_of(p) == before + sub);
                    }
                    match bodies[i].walk_mail_bodies(use_it_fn) {
                        Ok(()) => {},
                        Err(e) => {
                            proof {
                                let k = choose|k: int| 0 <= k < sub.len() && call_ensures(
                                    *use_it_fn,
                                    (&sub[k],),
                                    Err::<(), E>(e),
                                );
                                lemma_resources_of_prefix(bodies@, i as int);
                                assert(spec_resources(*self)[before.len() + k] == sub[k]);
                            }
                            return Err(e);
                        },
                    }
                    proof {
                        let p = bodies@.subrange(0, i + 1);
                        assert forall|k: int| 0 <= k < spec_resources_of(p).len() implies call_ensures(
                            *use_it_fn,
                            (&#[trigger] spec_resources_of(p)[k],),
                            Ok::<(), E>(()),
                        ) by {
                            if k < before.len() {
                                assert(spec_resources_of(p)[k] == before[k]);
                            } else {
                                assert(spec_resources_of(p)[k] == sub[k - before.len()]);
                            }
                        }
                    }
                    i += 1;
                }
                assert(bodies@.subrange(0, bodies@.len() as int) == bodies@);
                assert(spec_resources(*self) == spec_resources_of(bodies@));
                Ok(())
            },
        }
    }
}

impl Mail {
    /// Whether all resources of the mail are loaded (and transfer encoded).
    pub fn all_loaded(&self) -> (r: bool)
        ensures
            r == spec_all_loaded(*self),
        decreases self,
    {
        match &self.body {
            MailPart::SingleBody { body } => body.get_if_encoded().is_some(),
            MailPart::MultipleBodies { bodies, .. } => {
                let mut i: usize = 0;
                while i < bodies.len()
                    invariant
                        i <= bodies@.len(),
                        self.body == (MailPart::MultipleBodies { bodies: *bodies, hidden_text: self.body->hidden_text }),
                        spec_all_loaded_of(bodies@.subrange(0, i as int)),
                    decreases bodies@.len() - i,
                {
                    proof {
                        assert(decreases_to!(*self => self.body));
                        assert(decreases_to!(self.body => self.body->bodies));
                        assert(decreases_to!(self.body->bodies => self.body->bodies@));
                        assert(decreases_to!(self.body->bodies@ => self.body->bodies@[i as int]));
                    }
                    if !bodies[i].all_loaded() {
                        proof {
                            if spec_all_loaded_of(bodies@) {
                                lemma_all_loaded_of(bodies@, i as int);
                            }
                        }
                        return false;
                    }
                    proof {
                        let p = bodies@.subrange(0, i + 1);
                        assert(p.drop_last() == bodies@.subrange(0, i as int));
                        assert(p.last() == bodies@[i as int]);
                    }
                    i += 1;
                }
                assert(bodies@.subrange(0, bodies@.len() as int) == bodies@);
                true
            },
        }
    }
}

/// Adds the generated `Content-Type` and `Content-Transfer-Encoding` headers of a
/// loaded resource.
fn auto_gen_headers(headers: &mut HeaderMap, body: &Resource) -> (r: Result<(), MailError>)
    requires
        body.spec_encoded() is Some,
    ensures
        r is Ok,
        ({
            let h = old(headers)@;
            let n = final(headers)@;
            let enc = body.spec_encoded()->0;
            &&& n.len() == h.len() + 2
            &&& n.subrange(0, h.len() as int) == h
            &&& n[h.len() as int].0 == HeaderName::ContentType
            &&& n[h.len() as int].1 matches HeaderBody::MediaType(m)
            &&& m@ == enc@.buffer.content_type
            &&& n[h.len() + 1int] == (
                HeaderName::ContentTransferEncoding,
                HeaderBody::TransferEncoding(enc@.encoding),
            )
        }),
{
    let file_buffer = match body.get_if_encoded() {
        Some(b) => b,
        None => {
            assert(false);
            return Ok(());
        },
    };
    let ghost h = headers@;
    let ct = file_buffer.buffer().content_type().clone();
    let r1 = headers.insert(HeaderName::ContentType, HeaderBody::MediaType(ct));
    let te = *file_buffer.transfer_encoding();
    let r2 = headers.insert(HeaderName::ContentTransferEncoding, HeaderBody::TransferEncoding(te));
    assert(headers@.subrange(0, h.len() as int) == h);
    Ok(())
}

/// Inserts `Content-Type` and `Content-Transfer-Encoding` into the headers of every
/// single body of the mail, based on its (loaded) resource.
fn recursively_insert_generated_headers(mail: Mail, Ghost(size): Ghost<nat>) -> (r: Result<Mail, MailError>)
    requires
        spec_all_loaded(mail),
        spec_size(mail) <= size,
    ensures
        r matches Ok(m) && spec_generated(mail, m),
    decreases size,
{
    let ghost old_mail = mail;
    let Mail { headers, body } = mail;
    match body {
        MailPart::SingleBody { body } => {
            let mut headers = headers;
            let _ = auto_gen_headers(&mut headers, &body);
            Ok(Mail { headers, body: MailPart::SingleBody { body } })
        },
        MailPart::MultipleBodies { bodies, hidden_text } => {
            let ghost all = bodies@;
            let n = bodies.len();
            let mut rest = bodies;
            let mut done: Vec<Mail> = Vec::new();
            let mut i: usize = 0;
            assert(all.subrange(0, 0) =~= Seq::<Mail>::empty());
            assert(all.subrange(0, all.len() as int) == all);
            while rest.len() > 0
                invariant
                    i <= all.len(),
                    all.len() == n,
                    rest@ == all.subrange(i as int, all.len() as int),
                    done@.len() == i,
                    spec_generated_all(all.subrange(0, i as int), done@),
                    spec_all_loaded_of(all),
                    old_mail.body == (MailPart::MultipleBodies { bodies: old_mail.body->bodies, hidden_text: old_mail.body->hidden_text }),
                    old_mail.body->bodies@ == all,
                    spec_size(old_mail) <= size,
                decreases rest@.len(),
            {
                let m = rest.remove(0);
                assert(m == all[i as int]);
                proof {
                    lemma_all_loaded_of(all, i as int);
                    assert(decreases_to!(old_mail => old_mail.body));
                    assert(decreases_to!(old_mail.body => old_mail.body->bodies));
                    assert(decreases_to!(old_mail.body->bodies => old_mail.body->bodies@));
                    assert(decreases_to!(old_mail.body->bodies@ => old_mail.body->bodies@[i as int]));
                    lemma_size_of(all, i as int);
                    assert(spec_size(old_mail) == 1 + spec_size_of(all));
                    assert(spec_size(m) < spec_size(old_mail));
                }
                let m2 = match recursively_insert_generated_headers(m, Ghost((size - 1) as nat)) {
                    Ok(x) => x,
                    Err(e) => {
                        return Err(e);
                    },
                };
                let ghost before = done@;
                done.push(m2);
                proof {
                    let p = all.subrange(0, i + 1);
                    assert(p.drop_last() == all.subrange(0, i as int));
                    assert(p.last() == all[i as int]);
                    assert(done@.drop_last() == before);
                }
                i += 1;
                assert(rest@ == all.subrange(i as int, all.len() as int));
            }
            assert(i == all.len());
            Ok(Mail { headers, body: MailPart::MultipleBodies { bodies: done, hidden_text } })
        },
    }
}

/// The top level headers after adding a `Date` (`now`) and a `Message-Id` header if
/// they are missing.
pub open spec fn spec_top_level_headers(
    headers: Seq<(HeaderName, HeaderBody)>,
    now: DateTime,
    message_id: MessageID,
) -> Seq<(HeaderName, HeaderBody)> {
    let h1 = if spec_contains(headers, HeaderName::Date) {
        headers
    } else {
        headers.push((HeaderName::Date, HeaderBody::DateTime(now)))
    };
    if spec_contains(h1, HeaderName::MessageId) {
        h1
    } else {
        h1.push((HeaderName::MessageId, HeaderBody::MessageId(message_id)))
    }
}

/// Adds `Date` and `Message-Id` headers if they are missing.
fn auto_gen_top_level_only_headers(headers: &mut HeaderMap, now: DateTime, message_id: MessageID) -> (r:
    Result<(), MailError>)
    ensures
        r is Ok,
        final(headers)@ == spec_top_level_headers(old(headers)@, now, message_id),
{
    if !headers.contains(HeaderName::Date) {
        let _ = headers.insert(HeaderName::Date, HeaderBody::DateTime(now));
    }
    if !headers.contains(HeaderName::MessageId) {
        let _ = headers.insert(HeaderName::MessageId, HeaderBody::MessageId(message_id));
    }
    Ok(())
}

/// Checks that the generally required `From` header is there (`Date` is generated).
fn check_required_headers(headers: &HeaderMap) -> (r: Result<(), MailError>)
    ensures
        r is Ok <==> spec_contains(headers@, HeaderName::From),
        r matches Err(e) ==> e == MailError::Validation(HeaderValidationError::NoFrom),
{
    if headers.contains(HeaderName::From) {
        Ok(())
    } else {
        Err(MailError::Validation(HeaderValidationError::NoFrom))
    }
}

/// A mail with all resources loaded and the generated headers added, ready to be encoded.
#[derive(Debug)]
pub struct EncodableMail(Mail);

impl EncodableMail {
    pub closed spec fn spec_mail(&self) -> Mail {
        self.0
    }

    /// Makes a mail whose resources are all loaded encodable: adds `Content-Type` and
    /// `Content-Transfer-Encoding` to every single body, `Date` (the time `now`) and
    /// `Message-Id` (the given id) to the top level headers if they are missing, and
    /// validates the headers.
    ///
    /// Fails if there is no `From` header, or if a `From` header with more than one
    /// mailbox has no `Sender` header.
    pub fn from_loaded_mail(mail: Mail, now: DateTime, message_id: MessageID) -> (r: Result<
        Self,
        MailError,
    >)
        requires
            spec_all_loaded(mail),
        ensures
            exists|g: Mail|
                #![trigger spec_generated(mail, g)]
                spec_generated(mail, g) && ({
                    let h = spec_top_level_headers(g.spec_headers(), now, message_id);
                    match r {
                        Ok(em) => {
                            &&& em.spec_mail().spec_headers() == h
                            &&& em.spec_mail().spec_body() == g.spec_body()
                            &&& spec_contains(h, HeaderName::From)
                            &&& spec_contextually_valid(h)
                        },
                        Err(MailError::Validation(v)) => if !spec_contains(h, HeaderName::From) {
                            v == HeaderValidationError::NoFrom
                        } else {
                            !spec_contextually_valid(h) && v
                                == HeaderValidationError::MultiMailboxFromWithoutSender
                        },
                        Err(_) => false,
                    }
                }),
    {
        let g = match recursively_insert_generated_headers(mail, Ghost(spec_size(mail))) {
            Ok(g) => g,
            Err(e) => {
                assert(false);
                return Err(e);
            },
        };
        let ghost gg = g;
        let Mail { headers, body } = g;
        let mut headers = headers;
        let _ = auto_gen_top_level_only_headers(&mut headers, now, message_id);
        if let Err(e) = check_required_headers(&headers) {
            assert(spec_generated(mail, gg));
            return Err(e);
        }
        if let Err(v) = headers.use_contextual_validators() {
            assert(spec_generated(mail, gg));
            return Err(MailError::Validation(v));
        }
        let em = EncodableMail(Mail { headers, body });
        assert(spec_generated(mail, gg));
        Ok(em)
    }

    /// The mail.
    pub fn mail(&self) -> (r: &Mail)
        ensures
            *r == self.spec_mail(),
    {
        &self.0
    }

    /// Turns it back into a mail.
    pub fn into_mail(self) -> (r: Mail)
        ensures
            r == self.spec_mail(),
    {
        self.0
    }
}

} // verus!

verus! {

/// Headers generated from the body can not be set: a `Content-Transfer-Encoding`
/// header is always refused, a `Content-Type` header is only taken on a
/// multipart body with a multipart media type; a refused header leaves the
/// headers unchanged and an accepted one is appended.
pub proof fn lemma_set_header_outcome(
    old: Seq<(HeaderName, HeaderBody)>,
    name: HeaderName,
    hbody: HeaderBody,
    is_multipart: bool,
    r: Result<(), BuilderError>,
    new: Seq<(HeaderName, HeaderBody)>,
)
    requires
        spec_set_header(old, name, hbody, is_multipart, r, new),
    ensures
        name == HeaderName::ContentTransferEncoding ==> r is Err,
        name == HeaderName::ContentType && r is Ok ==> is_multipart && (hbody matches HeaderBody::MediaType(m)
            && m@.is_multipart()),
        r is Err ==> new == old,
        r is Ok ==> new == old.push((name, hbody)),
{
}

/// The top level headers of an encodable mail always have a `Date` and a
/// `Message-Id` header; a given `Date` (or `Message-Id`) is kept, a missing
/// one becomes the time (or id) handed in, and every other header reads as it
/// was.
pub proof fn lemma_top_level_headers(headers: Seq<(HeaderName, HeaderBody)>, now: DateTime, message_id: MessageID)
    ensures
        spec_contains(spec_top_level_headers(headers, now, message_id), HeaderName::Date),
        spec_contains(spec_top_level_headers(headers, now, message_id), HeaderName::MessageId),
        spec_get_single(spec_top_level_headers(headers, now, message_id), HeaderName::Date) == (if spec_contains(
            headers,
            HeaderName::Date,
        ) {
            spec_get_single(headers, HeaderName::Date)
        } else {
            Some(HeaderBody::DateTime(now))
        }),
        spec_get_single(spec_top_level_headers(headers, now, message_id), HeaderName::MessageId) == (
        if spec_contains(headers, HeaderName::MessageId) {
            spec_get_single(headers, HeaderName::MessageId)
        } else {
            Some(HeaderBody::MessageId(message_id))
        }),
        forall|n: HeaderName|
            n != HeaderName::Date && n != HeaderName::MessageId ==> #[trigger] spec_get_single(
                spec_top_level_headers(headers, now, message_id),
                n,
            ) == spec_get_single(headers, n),
{
    let d = (HeaderName::Date, HeaderBody::DateTime(now));
    let m = (HeaderName::MessageId, HeaderBody::MessageId(message_id));
    let h1 = if spec_contains(headers, HeaderName::Date) {
        headers
    } else {
        headers.push(d)
    };
    if !spec_contains(headers, HeaderName::Date) {
        crate::headers::lemma_get_single_after_push(headers, HeaderName::Date, d.1);
        crate::headers::lemma_get_single_after_push_other(headers, HeaderName::Date, d.1, HeaderName::MessageId);
    }
    if !spec_contains(h1, HeaderName::MessageId) {
        crate::headers::lemma_get_single_after_push(h1, HeaderName::MessageId, m.1);
        crate::headers::lemma_get_single_after_push_other(h1, HeaderName::MessageId, m.1, HeaderName::Date);
    }
    assert forall|n: HeaderName|
        n != HeaderName::Date && n != HeaderName::MessageId implies #[trigger] spec_get_single(
            spec_top_level_headers(headers, now, message_id),
            n,
        ) == spec_get_single(headers, n) by {
        if !spec_contains(headers, HeaderName::Date) {
            crate::headers::lemma_get_single_after_push_other(headers, HeaderName::Date, d.1, n);
        }
        if !spec_contains(h1, HeaderName::MessageId) {
            crate::headers::lemma_get_single_after_push_other(h1, HeaderName::MessageId, m.1, n);
        }
    }
}

/// The number of headers with the name.
pub open spec fn header_count(headers: Seq<(HeaderName, HeaderBody)>, name: HeaderName) -> nat
    decreases headers.len(),
{
    if headers.len() == 0 {
        0
    } else {
        header_count(headers.drop_last(), name) + if headers.last().0 == name {
            1nat
        } else {
            0nat
        }
    }
}

proof fn lemma_header_count_push(h: Seq<(HeaderName, HeaderBody)>, x: (HeaderName, HeaderBody), name: HeaderName)
    ensures
        header_count(h.push(x), name) == header_count(h, name) + if x.0 == name {
            1nat
        } else {
            0nat
        },
{
    assert(h.push(x).drop_last() =~= h);
}

proof fn lemma_header_count_contains(h: Seq<(HeaderName, HeaderBody)>, name: HeaderName)
    ensures
        spec_contains(h, name) <==> header_count(h, name) > 0,
    decreases h.len(),
{
    if h.len() > 0 {
        let d = h.drop_last();
        lemma_header_count_contains(d, name);
        if spec_contains(h, name) && h.last().0 != name {
            let i = choose|i: int| 0 <= i < h.len() && h[i].0 == name;
            assert(d[i] == h[i]);
        }
        if spec_contains(d, name) {
            let j = choose|j: int| 0 <= j < d.len() && d[j].0 == name;
            assert(h[j] == d[j]);
        }
        if h.last().0 == name {
            assert(h[h.len() - 1].0 == name);
        }
    }
}

/// The top level headers of an encodable mail keep the mail's headers in front,
/// as they are, and add at most two: a `Date` header only if there is none and
/// a `Message-Id` header only if there is none. So a mail with a `Message-Id`
/// keeps exactly its `Message-Id` headers, and one without gets exactly one.
pub proof fn lemma_top_level_header_counts(headers: Seq<(HeaderName, HeaderBody)>, now: DateTime, message_id: MessageID)
    ensures
        ({
            let r = spec_top_level_headers(headers, now, message_id);
            &&& r.subrange(0, headers.len() as int) == headers
            &&& headers.len() <= r.len() <= headers.len() + 2
            &&& header_count(r, HeaderName::Date) == if spec_contains(headers, HeaderName::Date) {
                header_count(headers, HeaderName::Date)
            } else {
                1
            }
            &&& header_count(r, HeaderName::MessageId) == if spec_contains(headers, HeaderName::MessageId) {
                header_count(headers, HeaderName::MessageId)
            } else {
                1
            }
            &&& forall|n: HeaderName|
                n != HeaderName::Date && n != HeaderName::MessageId ==> #[trigger] header_count(r, n)
                    == header_count(headers, n)
        }),
{
    let d = (HeaderName::Date, HeaderBody::DateTime(now));
    let m = (HeaderName::MessageId, HeaderBody::MessageId(message_id));
    let h1 = if spec_contains(headers, HeaderName::Date) {
        headers
    } else {
        headers.push(d)
    };
    let r = spec_top_level_headers(headers, now, message_id);
    lemma_header_count_contains(headers, HeaderName::Date);
    lemma_header_count_contains(headers, HeaderName::MessageId);
    lemma_header_count_contains(h1, HeaderName::MessageId);
    lemma_header_count_push(headers, d, HeaderName::Date);
    lemma_header_count_push(headers, d, HeaderName::MessageId);
    lemma_header_count_push(h1, m, HeaderName::Date);
    lemma_header_count_push(h1, m, HeaderName::MessageId);
    assert(h1.subrange(0, headers.len() as int) =~= headers);
    assert(r.subrange(0, headers.len() as int) =~= headers);
    assert forall|n: HeaderName|
        n != HeaderName::Date && n != HeaderName::MessageId implies #[trigger] header_count(r, n)
            == header_count(headers, n) by {
        lemma_header_count_push(headers, d, n);
        lemma_header_count_push(h1, m, n);
    }
}

} // verus!
