//! Pieces used when composing mails from templates: content ids, recipients,
//! and embeddings/attachments found in template data.
use vstd::prelude::*;
use crate::components::{ContentId, Disposition, Email, Mailbox, MailboxList, Phrase, Unstructured};
use crate::error::BuilderError;
use crate::headers::{HeaderBody, HeaderMap, HeaderName};
use crate::mail::{spec_headers_check, Builder, Mail, MailPart, MultipartBuilder};
use crate::mime::{gen_multipart_mime, MimeError};
use crate::resource::Resource;

verus! {

/// The recipient of a mail: a full mailbox, or just an email for which a
/// display name may still be found.
#[derive(Debug, Clone)]
pub enum To {
    Mailbox(Mailbox),
    Email(Email),
}

impl To {
    /// Turns the recipient into a mailbox; a bare email gets the display
    /// name that `func` returns (which is only called in that case).
    pub fn display_name_or_else<F>(self, func: F) -> (r: Self)
        where F: FnOnce() -> Option<Phrase>,
        requires
            self is Email ==> call_requires(func, ()),
        ensures
            r is Mailbox,
            self matches To::Mailbox(m) ==> r == To::Mailbox(m),
            self matches To::Email(e) ==> exists|name: Option<Phrase>|
                call_ensures(func, (), name) && r == To::Mailbox(Mailbox { display_name: name, email: e }),
    {
        match self {
            To::Mailbox(mbox) => To::Mailbox(mbox),
            To::Email(email) => {
                let display_name = func();
                let r = To::Mailbox(Mailbox::from_email(display_name, email));
                assert(call_ensures(func, (), display_name) && r == To::Mailbox(
                    Mailbox { display_name: display_name, email: email },
                ));
                r
            },
        }
    }
}

/// A resource embedded in template data: first the resource itself, then,
/// once it was moved to the mail, the content id under which it is found.
#[derive(Debug)]
pub enum Embedding {
    AsValue(Resource),
    AsContentId(ContentId),
}

impl Embedding {
    /// An embedding holding the resource.
    pub fn new(resource: Resource) -> (r: Self)
        ensures
            r == Embedding::AsValue(resource),
    {
        Embedding::AsValue(resource)
    }

    /// Replaces the embedding by the content id and hands out the resource
    /// it held (`None` if it already was a content id).
    pub fn swap_with_content_id(&mut self, cid: ContentId) -> (r: Option<Resource>)
        ensures
            *final(self) == Embedding::AsContentId(cid),
            match *old(self) {
                Embedding::AsValue(res) => r == Some(res),
                Embedding::AsContentId(_) => r is None,
            },
    {
        let mut prev = Embedding::AsContentId(cid);
        std::mem::swap(self, &mut prev);
        match prev {
            Embedding::AsValue(value) => Some(value),
            Embedding::AsContentId(_) => None,
        }
    }
}

/// A resource attached via template data: first the resource itself, then,
/// once it was moved to the mail's attachments, a marker.
#[derive(Debug)]
pub enum Attachment {
    AsValue(Resource),
    Moved,
}

impl Attachment {
    /// An attachment holding the resource.
    pub fn new(resource: Resource) -> (r: Self)
        ensures
            r == Attachment::AsValue(resource),
    {
        Attachment::AsValue(resource)
    }

    /// Marks the attachment as moved and hands out the resource it held
    /// (`None` if it was moved before).
    pub fn move_out(&mut self) -> (r: Option<Resource>)
        ensures
            *final(self) == Attachment::Moved,
            match *old(self) {
                Attachment::AsValue(res) => r == Some(res),
                Attachment::Moved => r is None,
            },
    {
        let mut prev = Attachment::Moved;
        std::mem::swap(self, &mut prev);
        match prev {
            Attachment::AsValue(value) => Some(value),
            Attachment::Moved => None,
        }
    }
}

/// An embedding moved into the mail, with the content id it is referred to by.
#[derive(Debug)]
pub struct EmbeddingInMail {
    pub content_id: ContentId,
    pub resource: Resource,
}

/// What a template produced: a body, the resources it embeds and the
/// attachments it asks for.
#[derive(Debug)]
pub struct Template {
    pub body: Resource,
    pub embeddings: Vec<EmbeddingInMail>,
    pub attachments: Vec<Resource>,
}

/// Why composing a mail failed.
#[derive(Debug)]
pub enum CompositionError {
    /// No body (neither plain text nor html) was given.
    NeedPlainAndOrHtmlMailBody,
    /// Creating a multipart media type failed.
    Mime(MimeError),
    /// Building a (part of the) mail failed.
    Builder(BuilderError),
}

/// The mail is a single part made of the resource with exactly these headers.
pub open spec fn is_single_part(m: Mail, resource: Resource, headers: Seq<(HeaderName, HeaderBody)>) -> bool {
    &&& m.spec_headers() == headers
    &&& m.spec_body() == (MailPart::SingleBody { body: resource })
}

/// The headers of an embedded part.
pub open spec fn embedding_headers(cid: ContentId) -> Seq<(HeaderName, HeaderBody)> {
    seq![
        (HeaderName::ContentId, HeaderBody::ContentId(cid)),
        (HeaderName::ContentDisposition, HeaderBody::Disposition(Disposition::Inline)),
    ]
}

/// The headers of an attached part.
pub open spec fn attachment_headers() -> Seq<(HeaderName, HeaderBody)> {
    seq![(HeaderName::ContentDisposition, HeaderBody::Disposition(Disposition::Attachment))]
}

/// The parts of a multipart mail, if it is one.
pub open spec fn parts(m: Mail) -> Seq<Mail> {
    match m.spec_body() {
        MailPart::MultipleBodies { bodies, .. } => bodies@,
        MailPart::SingleBody { .. } => Seq::empty(),
    }
}

/// The mail is a multipart mail whose top level headers are a `Content-Type`
/// header followed by the given headers.
pub open spec fn is_multipart_with_headers(m: Mail, headers: Seq<(HeaderName, HeaderBody)>) -> bool {
    &&& m.spec_body() is MultipleBodies
    &&& m.spec_headers().len() == headers.len() + 1
    &&& m.spec_headers()[0].0 == HeaderName::ContentType
    &&& m.spec_headers().subrange(1, m.spec_headers().len() as int) == headers
}

/// A `multipart/related` mail: the resource first, then the embedded
/// resources with their content ids.
pub open spec fn is_related_body(
    m: Mail,
    resource: Resource,
    embeddings: Seq<EmbeddingInMail>,
    headers: Seq<(HeaderName, HeaderBody)>,
) -> bool {
    &&& is_multipart_with_headers(m, headers)
    &&& parts(m).len() == embeddings.len() + 1
    &&& is_single_part(parts(m)[0], resource, Seq::empty())
    &&& forall|k: int| 0 <= k < embeddings.len() ==> is_single_part(
        #[trigger] parts(m)[k + 1],
        embeddings[k].resource,
        embedding_headers(embeddings[k].content_id),
    )
}

/// The body made for a resource: the resource itself if it embeds nothing,
/// else a related body.
pub open spec fn is_mail_body(
    m: Mail,
    resource: Resource,
    embeddings: Seq<EmbeddingInMail>,
    headers: Seq<(HeaderName, HeaderBody)>,
) -> bool {
    if embeddings.len() == 0 {
        is_single_part(m, resource, headers)
    } else {
        is_related_body(m, resource, embeddings, headers)
    }
}

/// The bodies with their embeddings, as sequences.
pub open spec fn body_views(bodies: Seq<(Resource, Vec<EmbeddingInMail>)>) -> Seq<(Resource, Seq<EmbeddingInMail>)> {
    Seq::new(bodies.len(), |i: int| (bodies[i].0, bodies[i].1@))
}

/// The alternative bodies of a mail: the one body itself, or a
/// `multipart/alternative` mail with a part for each body.
pub open spec fn is_alternatives(
    m: Mail,
    bodies: Seq<(Resource, Seq<EmbeddingInMail>)>,
    headers: Seq<(HeaderName, HeaderBody)>,
) -> bool {
    if bodies.len() == 1 {
        is_mail_body(m, bodies[0].0, bodies[0].1, headers)
    } else {
        &&& is_multipart_with_headers(m, headers)
        &&& parts(m).len() == bodies.len()
        &&& forall|k: int| 0 <= k < bodies.len() ==> is_mail_body(
            #[trigger] parts(m)[k],
            bodies[k].0,
            bodies[k].1,
            Seq::empty(),
        )
    }
}

/// A `multipart/mixed` mail of the body followed by the attachments.
pub open spec fn is_mixed_body(m: Mail, body: Mail, attachments: Seq<Resource>, headers: Seq<(HeaderName, HeaderBody)>) -> bool {
    &&& is_multipart_with_headers(m, headers)
    &&& parts(m).len() == attachments.len() + 1
    &&& parts(m)[0] == body
    &&& forall|k: int| 0 <= k < attachments.len() ==> is_single_part(
        #[trigger] parts(m)[k + 1],
        attachments[k],
        attachment_headers(),
    )
}

/// All attachments of the templates, in order.
pub open spec fn all_attachments(templates: Seq<Template>) -> Seq<Resource>
    decreases templates.len(),
{
    if templates.len() == 0 {
        Seq::empty()
    } else {
        all_attachments(templates.drop_last()) + templates.last().attachments@
    }
}

proof fn lemma_no_generated_headers(headers: Seq<(HeaderName, HeaderBody)>)
    requires
        forall|i: int| 0 <= i < headers.len() ==> (#[trigger] headers[i]).0 != HeaderName::ContentType
            && headers[i].0 != HeaderName::ContentTransferEncoding,
    ensures
        spec_headers_check(headers, false) is None,
        spec_headers_check(headers, true) is None,
{
}

/// A mail made of the resource with the given headers; fails if the headers
/// hold a `Content-Type` or `Content-Transfer-Encoding` header.
pub fn create_body_from_resource(resource: Resource, headers: HeaderMap) -> (r: Result<Mail, CompositionError>)
    ensures
        r is Ok <==> spec_headers_check(headers@, false) is None,
        r matches Ok(m) ==> is_single_part(m, resource, headers@),
        r matches Err(e) ==> e is Builder,
{
    let ghost hs = headers@;
    let b = match Builder::singlepart(resource).headers(headers) {
        Ok(b) => b,
        Err(e) => return Err(CompositionError::Builder(e)),
    };
    assert(Seq::<(HeaderName, HeaderBody)>::empty() + hs == hs);
    match b.build() {
        Ok(m) => Ok(m),
        Err(e) => Err(CompositionError::Builder(e)),
    }
}

/// A builder for a multipart mail with the given subtype and a random boundary.
fn multipart_builder(subtype: &str) -> (r: Result<MultipartBuilder, CompositionError>)
    ensures
        r matches Ok(b) ==> b.spec_bodies().len() == 0 && b.spec_headers().len() == 1
            && b.spec_headers()[0].0 == HeaderName::ContentType,
        r matches Err(e) ==> e is Mime || e is Builder,
{
    let mime = match gen_multipart_mime(subtype) {
        Ok(m) => m,
        Err(e) => return Err(CompositionError::Mime(e)),
    };
    match Builder::multipart(mime.as_media_type().clone()) {
        Ok(b) => Ok(b),
        Err(e) => Err(CompositionError::Builder(e)),
    }
}

fn add_headers(builder: MultipartBuilder, headers: HeaderMap) -> (r: Result<MultipartBuilder, CompositionError>)
    requires
        builder.spec_headers().len() == 1,
    ensures
        spec_headers_check(headers@, true) is Some ==> r is Err,
        r matches Ok(b) ==> b.spec_bodies() == builder.spec_bodies() && b.spec_headers() == builder.spec_headers()
            + headers@,
        r matches Err(e) ==> e is Builder,
{
    match builder.headers(headers) {
        Ok(b) => Ok(b),
        Err(e) => Err(CompositionError::Builder(e)),
    }
}

proof fn lemma_multipart_headers(m: Mail, built: Seq<(HeaderName, HeaderBody)>, headers: Seq<(HeaderName, HeaderBody)>)
    requires
        m.spec_body() is MultipleBodies,
        built.len() == 1,
        built[0].0 == HeaderName::ContentType,
        m.spec_headers() == built + headers,
    ensures
        is_multipart_with_headers(m, headers),
{
    assert(m.spec_headers().subrange(1, m.spec_headers().len() as int) =~= headers);
}

/// A `multipart/related` mail of the resource followed by the embedded
/// resources (each with its `Content-Id` and an inline disposition).
pub fn create_body_with_embeddings(resource: Resource, embeddings: Vec<EmbeddingInMail>, headers: HeaderMap) -> (r:
    Result<Mail, CompositionError>)
    ensures
        spec_headers_check(headers@, true) is Some ==> r is Err,
        r matches Ok(m) ==> is_related_body(m, resource, embeddings@, headers@),
        r matches Err(e) ==> !(e is NeedPlainAndOrHtmlMailBody),
{
    let ghost hs = headers@;
    let builder = multipart_builder("related")?;
    let ghost built = builder.spec_headers();
    let builder = add_headers(builder, headers)?;
    let empty = HeaderMap::new();
    proof {
        lemma_no_generated_headers(empty@);
    }
    let first = create_body_from_resource(resource, empty)?;
    let mut builder = match builder.body(first) {
        Ok(b) => b,
        Err(e) => return Err(CompositionError::Builder(e)),
    };
    let ghost orig = embeddings@;
    let mut embeddings = embeddings;
    assert(orig.len() == embeddings.len());
    let mut i: usize = 0;
    while embeddings.len() > 0
        invariant
            i <= orig.len(),
            orig.len() <= usize::MAX,
            embeddings@ == orig.subrange(i as int, orig.len() as int),
            builder.spec_headers() == built + hs,
            builder.spec_bodies().len() == i + 1,
            is_single_part(builder.spec_bodies()[0], resource, Seq::empty()),
            forall|k: int| 0 <= k < i ==> is_single_part(
                #[trigger] builder.spec_bodies()[k + 1],
                orig[k].resource,
                embedding_headers(orig[k].content_id),
            ),
        decreases embeddings@.len(),
    {
        let e = embeddings.remove(0);
        assert(e == orig[i as int]);
        let EmbeddingInMail { content_id, resource: res } = e;
        let mut part_headers = HeaderMap::new();
        let _ = part_headers.insert(HeaderName::ContentId, HeaderBody::ContentId(content_id));
        let _ = part_headers.insert(HeaderName::ContentDisposition, HeaderBody::Disposition(Disposition::Inline));
        assert(part_headers@ == embedding_headers(orig[i as int].content_id));
        proof {
            lemma_no_generated_headers(part_headers@);
        }
        let part = create_body_from_resource(res, part_headers)?;
        let ghost before = builder.spec_bodies();
        builder = match builder.body(part) {
            Ok(b) => b,
            Err(e) => return Err(CompositionError::Builder(e)),
        };
        assert(builder.spec_bodies()[0] == before[0]);
        assert forall|k: int| 0 <= k < i + 1 implies is_single_part(
            #[trigger] builder.spec_bodies()[k + 1],
            orig[k].resource,
            embedding_headers(orig[k].content_id),
        ) by {
            if k < i {
                assert(builder.spec_bodies()[k + 1] == before[k + 1]);
            }
        }
        assert(embeddings@ =~= orig.subrange(i + 1, orig.len() as int));
        i += 1;
    }
    let ghost bodies = builder.spec_bodies();
    match builder.build() {
        Ok(m) => {
            proof {
                lemma_multipart_headers(m, built, hs);
            }
            Ok(m)
        },
        Err(e) => Err(CompositionError::Builder(e)),
    }
}

/// The body for a resource and what it embeds: the resource itself (with the
/// headers) if it embeds nothing, else a `multipart/related` mail.
pub fn create_mail_body(body: (Resource, Vec<EmbeddingInMail>), headers: HeaderMap) -> (r: Result<Mail, CompositionError>)
    ensures
        body.1@.len() == 0 ==> (r is Ok <==> spec_headers_check(headers@, false) is None),
        body.1@.len() > 0 && spec_headers_check(headers@, true) is Some ==> r is Err,
        r matches Ok(m) ==> is_mail_body(m, body.0, body.1@, headers@),
        r matches Err(e) ==> !(e is NeedPlainAndOrHtmlMailBody),
{
    let (resource, embeddings) = body;
    if embeddings.len() > 0 {
        create_body_with_embeddings(resource, embeddings, headers)
    } else {
        create_body_from_resource(resource, headers)
    }
}

/// The mail for alternative bodies (e.g. plain text and html): fails without
/// any body, is the body itself for one, and a `multipart/alternative` mail
/// with a part for each body else.
pub fn create_alternate_bodies(bodies: Vec<(Resource, Vec<EmbeddingInMail>)>, headers: HeaderMap) -> (r: Result<
    Mail,
    CompositionError,
>)
    ensures
        (r matches Err(e) && e is NeedPlainAndOrHtmlMailBody) <==> bodies@.len() == 0,
        r matches Ok(m) ==> is_alternatives(m, body_views(bodies@), headers@),
{
    let ghost orig = bodies@;
    let mut rest = bodies;
    if rest.len() == 0 {
        return Err(CompositionError::NeedPlainAndOrHtmlMailBody);
    }
    if rest.len() == 1 {
        let body = rest.remove(0);
        assert(body == orig[0]);
        return create_mail_body(body, headers);
    }
    let ghost hs = headers@;
    let builder = match multipart_builder("alternative") {
        Ok(b) => b,
        Err(e) => return Err(e),
    };
    let ghost built = builder.spec_headers();
    let mut builder = match add_headers(builder, headers) {
        Ok(b) => b,
        Err(e) => return Err(e),
    };
    assert(orig.len() == rest.len());
    let mut i: usize = 0;
    while rest.len() > 0
        invariant
            i <= orig.len(),
            orig.len() <= usize::MAX,
            orig.len() >= 2,
            rest@ == orig.subrange(i as int, orig.len() as int),
            bodies@ == orig,
            builder.spec_headers() == built + hs,
            builder.spec_bodies().len() == i,
            forall|k: int| 0 <= k < i ==> is_mail_body(
                #[trigger] builder.spec_bodies()[k],
                orig[k].0,
                orig[k].1@,
                Seq::empty(),
            ),
        decreases rest@.len(),
    {
        let body = rest.remove(0);
        assert(body == orig[i as int]);
        let part = match create_mail_body(body, HeaderMap::new()) {
            Ok(p) => p,
            Err(e) => return Err(e),
        };
        let ghost before = builder.spec_bodies();
        builder = match builder.body(part) {
            Ok(b) => b,
            Err(e) => return Err(CompositionError::Builder(e)),
        };
        assert forall|k: int| 0 <= k < i + 1 implies is_mail_body(
            #[trigger] builder.spec_bodies()[k],
            orig[k].0,
            orig[k].1@,
            Seq::empty(),
        ) by {
            if k < i {
                assert(builder.spec_bodies()[k] == before[k]);
            }
        }
        assert(rest@ =~= orig.subrange(i + 1, orig.len() as int));
        i += 1;
    }
    match builder.build() {
        Ok(m) => {
            proof {
                lemma_multipart_headers(m, built, hs);
                let bv = body_views(orig);
                assert forall|k: int| 0 <= k < bv.len() implies is_mail_body(
                    #[trigger] parts(m)[k],
                    bv[k].0,
                    bv[k].1,
                    Seq::empty(),
                ) by {
                    assert(bv[k] == (orig[k].0, orig[k].1@));
                }
            }
            Ok(m)
        },
        Err(e) => Err(CompositionError::Builder(e)),
    }
}

/// A `multipart/mixed` mail of the body followed by the attachments (each
/// with an attachment disposition).
pub fn create_with_attachments(body: Mail, attachments: Vec<Resource>, headers: HeaderMap) -> (r: Result<
    Mail,
    CompositionError,
>)
    ensures
        spec_headers_check(headers@, true) is Some ==> r is Err,
        r matches Ok(m) ==> is_mixed_body(m, body, attachments@, headers@),
        r matches Err(e) ==> !(e is NeedPlainAndOrHtmlMailBody),
{
    let ghost hs = headers@;
    let ghost first = body;
    let builder = multipart_builder("mixed")?;
    let ghost built = builder.spec_headers();
    let builder = add_headers(builder, headers)?;
    let mut builder = match builder.body(body) {
        Ok(b) => b,
        Err(e) => return Err(CompositionError::Builder(e)),
    };
    let ghost orig = attachments@;
    let mut attachments = attachments;
    assert(orig.len() == attachments.len());
    let mut i: usize = 0;
    while attachments.len() > 0
        invariant
            i <= orig.len(),
            orig.len() <= usize::MAX,
            attachments@ == orig.subrange(i as int, orig.len() as int),
            builder.spec_headers() == built + hs,
            builder.spec_bodies().len() == i + 1,
            builder.spec_bodies()[0] == first,
            forall|k: int| 0 <= k < i ==> is_single_part(
                #[trigger] builder.spec_bodies()[k + 1],
                orig[k],
                attachment_headers(),
            ),
        decreases attachments@.len(),
    {
        let res = attachments.remove(0);
        assert(res == orig[i as int]);
        let mut part_headers = HeaderMap::new();
        let _ = part_headers.insert(HeaderName::ContentDisposition, HeaderBody::Disposition(Disposition::Attachment));
        assert(part_headers@ == attachment_headers());
        proof {
            lemma_no_generated_headers(part_headers@);
        }
        let part = create_body_from_resource(res, part_headers)?;
        let ghost before = builder.spec_bodies();
        builder = match builder.body(part) {
            Ok(b) => b,
            Err(e) => return Err(CompositionError::Builder(e)),
        };
        assert(builder.spec_bodies()[0] == before[0]);
        assert forall|k: int| 0 <= k < i + 1 implies is_single_part(
            #[trigger] builder.spec_bodies()[k + 1],
            orig[k],
            attachment_headers(),
        ) by {
            if k < i {
                assert(builder.spec_bodies()[k + 1] == before[k + 1]);
            }
        }
        assert(attachments@ =~= orig.subrange(i + 1, orig.len() as int));
        i += 1;
    }
    match builder.build() {
        Ok(m) => {
            proof {
                lemma_multipart_headers(m, built, hs);
            }
            Ok(m)
        },
        Err(e) => Err(CompositionError::Builder(e)),
    }
}

/// The mail for the bodies of the templates and the attachments: just the
/// alternative bodies (with the core headers) if there are no attachments,
/// else a `multipart/mixed` mail (with the core headers) of the alternative
/// bodies followed by the attachments.
pub fn build_mail(bodies: Vec<(Resource, Vec<EmbeddingInMail>)>, attachments: Vec<Resource>, core_headers: HeaderMap) -> (r:
    Result<Mail, CompositionError>)
    ensures
        (r matches Err(e) && e is NeedPlainAndOrHtmlMailBody) <==> bodies@.len() == 0,
        attachments@.len() == 0 ==> (r matches Ok(m) ==> is_alternatives(m, body_views(bodies@), core_headers@)),
        attachments@.len() > 0 ==> (r matches Ok(m) ==> exists|b: Mail|
            is_alternatives(b, body_views(bodies@), Seq::empty()) && #[trigger] is_mixed_body(
                m,
                b,
                attachments@,
                core_headers@,
            )),
{
    if attachments.len() == 0 {
        create_alternate_bodies(bodies, core_headers)
    } else {
        let body = create_alternate_bodies(bodies, HeaderMap::new())?;
        let ghost b = body;
        let r = create_with_attachments(body, attachments, core_headers);
        proof {
            if r is Ok {
                assert(is_mixed_body(r->Ok_0, b, attachments@, core_headers@));
            }
        }
        r
    }
}

/// Collects the bodies (with their embeddings) of the templates, and all
/// their attachments.
pub fn preprocess_templates(templates: Vec<Template>) -> (r: (Vec<(Resource, Vec<EmbeddingInMail>)>, Vec<Resource>))
    ensures
        r.0@.len() == templates@.len(),
        forall|i: int| 0 <= i < templates@.len() ==> (#[trigger] r.0@[i]).0 == templates@[i].body
            && r.0@[i].1@ == templates@[i].embeddings@,
        r.1@ == all_attachments(templates@),
{
    let ghost orig = templates@;
    let mut templates = templates;
    let mut bodies: Vec<(Resource, Vec<EmbeddingInMail>)> = Vec::new();
    let mut attachments: Vec<Resource> = Vec::new();
    assert(orig.len() == templates.len());
    let mut i: usize = 0;
    while templates.len() > 0
        invariant
            i <= orig.len(),
            orig.len() <= usize::MAX,
            templates@ == orig.subrange(i as int, orig.len() as int),
            bodies@.len() == i,
            forall|k: int| 0 <= k < i ==> (#[trigger] bodies@[k]).0 == orig[k].body && bodies@[k].1@
                == orig[k].embeddings@,
            attachments@ == all_attachments(orig.subrange(0, i as int)),
        decreases templates@.len(),
    {
        let t = templates.remove(0);
        assert(t == orig[i as int]);
        let Template { body, embeddings, attachments: mut more } = t;
        bodies.push((body, embeddings));
        attachments.append(&mut more);
        proof {
            let p = orig.subrange(0, i + 1);
            assert(p.drop_last() == orig.subrange(0, i as int));
            assert(p.last() == orig[i as int]);
        }
        assert(templates@ =~= orig.subrange(i + 1, orig.len() as int));
        i += 1;
    }
    assert(orig.subrange(0, orig.len() as int) == orig);
    (bodies, attachments)
}

/// Who sends a mail to whom, and its subject.
#[derive(Debug)]
pub struct MailSendContext {
    pub from: Mailbox,
    pub to: To,
    pub subject: String,
}

/// The mailbox a recipient becomes: itself if it is one, else its email
/// with one of the display names `compose_name` may return.
pub open spec fn is_recipient_mailbox<F: FnOnce() -> Option<Phrase>>(to: To, compose_name: F, mailbox: Mailbox) -> bool {
    match to {
        To::Mailbox(m) => mailbox == m,
        To::Email(e) => exists|name: Option<Phrase>|
            call_ensures(compose_name, (), name) && mailbox == (Mailbox { display_name: name, email: e }),
    }
}

/// The subject as unstructured text, the sender's mailbox and the recipient's
/// mailbox (composing a display name for a bare email).
pub fn preprocess_send_context<F>(sctx: MailSendContext, compose_name: F) -> (r: (Unstructured, Mailbox, Mailbox))
    where F: FnOnce() -> Option<Phrase>,
    requires
        sctx.to is Email ==> call_requires(compose_name, ()),
    ensures
        r.0.text@ == sctx.subject@,
        r.1 == sctx.from,
        is_recipient_mailbox(sctx.to, compose_name, r.2),
{
    let MailSendContext { from, to, subject } = sctx;
    let ghost to0 = to;
    let to_mailbox = match to.display_name_or_else(compose_name) {
        To::Mailbox(m) => m,
        To::Email(e) => {
            proof {
                assert(false);
            }
            Mailbox::from_email(None, e)
        },
    };
    (Unstructured { text: subject }, from, to_mailbox)
}

/// The core headers of a composed mail: `From`, `To` and `Subject`.
pub open spec fn is_core_headers(h: Seq<(HeaderName, HeaderBody)>, from: Mailbox, to: Mailbox, subject: Seq<char>) -> bool {
    &&& h.len() == 3
    &&& h[0].0 == HeaderName::From && (h[0].1 matches HeaderBody::Mailboxes(l) && l.mailboxes() == seq![from])
    &&& h[1].0 == HeaderName::To && (h[1].1 matches HeaderBody::Mailboxes(l) && l.mailboxes() == seq![to])
    &&& h[2].0 == HeaderName::Subject && (h[2].1 matches HeaderBody::Unstructured(u) && u.text@ == subject)
}

/// Composes a mail from the send context, the templates' output and the
/// attachments taken from the data: the `From`, `To` and `Subject` headers
/// go on top, the templates' bodies become alternatives and all attachments
/// (those of the data first) are attached.
pub fn compose_mail<F>(
    send_context: MailSendContext,
    templates: Vec<Template>,
    data_attachments: Vec<Resource>,
    compose_name: F,
) -> (r: Result<Mail, CompositionError>)
    where F: FnOnce() -> Option<Phrase>,
    requires
        send_context.to is Email ==> call_requires(compose_name, ()),
    ensures
        (r matches Err(e) && e is NeedPlainAndOrHtmlMailBody) <==> templates@.len() == 0,
        r matches Ok(m) ==> exists|core: Seq<(HeaderName, HeaderBody)>, to: Mailbox| {
            &&& is_recipient_mailbox(send_context.to, compose_name, to)
            &&& #[trigger] is_core_headers(core, send_context.from, to, send_context.subject@)
            &&& if data_attachments@.len() + all_attachments(templates@).len() == 0 {
                is_alternatives(m, template_bodies(templates@), core)
            } else {
                exists|b: Mail|
                    is_alternatives(b, template_bodies(templates@), Seq::empty())
                        && #[trigger] is_mixed_body(m, b, data_attachments@ + all_attachments(templates@), core)
            }
        },
{
    let ghost from0 = send_context.from;
    let ghost to0 = send_context.to;
    let ghost subject0 = send_context.subject@;
    let ghost ts = templates@;
    let (subject, from, to) = preprocess_send_context(send_context, compose_name);
    let ghost to_mb = to;
    let mut core = HeaderMap::new();
    let _ = core.insert(HeaderName::From, HeaderBody::Mailboxes(MailboxList::new(from)));
    let _ = core.insert(HeaderName::To, HeaderBody::Mailboxes(MailboxList::new(to)));
    let _ = core.insert(HeaderName::Subject, HeaderBody::Unstructured(subject));
    let ghost core_v = core@;
    assert(is_core_headers(core_v, from0, to_mb, subject0));
    let (bodies, extracted) = preprocess_templates(templates);
    let mut attachments = data_attachments;
    let ghost da = attachments@;
    let mut extracted = extracted;
    attachments.append(&mut extracted);
    proof {
        assert(body_views(bodies@) =~= template_bodies(ts));
    }
    let r = build_mail(bodies, attachments, core);
    r
}

/// The bodies of the templates with what they embed.
pub open spec fn template_bodies(templates: Seq<Template>) -> Seq<(Resource, Seq<EmbeddingInMail>)> {
    Seq::new(templates.len(), |i: int| (templates[i].body, templates[i].embeddings@))
}

} // verus!

verus! {

/// The resources of embeddings, in order.
pub open spec fn embedded_resources(embeddings: Seq<EmbeddingInMail>) -> Seq<Resource> {
    Seq::new(embeddings.len(), |i: int| embeddings[i].resource)
}

/// The resources of bodies with what they embed, in order.
pub open spec fn bodies_resources(bodies: Seq<(Resource, Seq<EmbeddingInMail>)>) -> Seq<Resource>
    decreases bodies.len(),
{
    if bodies.len() == 0 {
        Seq::empty()
    } else {
        bodies_resources(bodies.drop_last()) + seq![bodies.last().0] + embedded_resources(bodies.last().1)
    }
}

proof fn lemma_resources_of_concat(a: Seq<Mail>, b: Seq<Mail>)
    ensures
        crate::mail::spec_resources_of(a + b) == crate::mail::spec_resources_of(a) + crate::mail::spec_resources_of(b),
    decreases b.len(),
{
    if b.len() == 0 {
        assert(a + b =~= a);
    } else {
        lemma_resources_of_concat(a, b.drop_last());
        assert((a + b).drop_last() =~= a + b.drop_last());
        assert((a + b).last() == b.last());
    }
}

proof fn lemma_resources_of_singles(ms: Seq<Mail>, rs: Seq<Resource>)
    requires
        ms.len() == rs.len(),
        forall|i: int| 0 <= i < ms.len() ==> crate::mail::spec_resources(#[trigger] ms[i]) == seq![rs[i]],
    ensures
        crate::mail::spec_resources_of(ms) == rs,
    decreases ms.len(),
{
    if ms.len() > 0 {
        lemma_resources_of_singles(ms.drop_last(), rs.drop_last());
        assert(crate::mail::spec_resources(ms[ms.len() - 1]) == seq![rs[rs.len() - 1]]);
        assert(rs.drop_last() + seq![rs.last()] =~= rs);
    } else {
        assert(rs =~= Seq::<Resource>::empty());
    }
}

proof fn lemma_single_part_resources(m: Mail, resource: Resource, headers: Seq<(HeaderName, HeaderBody)>)
    requires
        is_single_part(m, resource, headers),
    ensures
        crate::mail::spec_resources(m) == seq![resource],
{
}

/// A related body holds exactly its resource followed by the embedded resources.
pub proof fn lemma_related_body_resources(
    m: Mail,
    resource: Resource,
    embeddings: Seq<EmbeddingInMail>,
    headers: Seq<(HeaderName, HeaderBody)>,
)
    requires
        is_related_body(m, resource, embeddings, headers),
    ensures
        crate::mail::spec_resources(m) == seq![resource] + embedded_resources(embeddings),
{
    let ps = parts(m);
    let rest = ps.subrange(1, ps.len() as int);
    assert(ps =~= seq![ps[0]] + rest);
    assert forall|i: int| 0 <= i < rest.len() implies crate::mail::spec_resources(#[trigger] rest[i])
        == seq![embedded_resources(embeddings)[i]] by {
        assert(rest[i] == ps[i + 1]);
        lemma_single_part_resources(ps[i + 1], embeddings[i].resource, embedding_headers(embeddings[i].content_id));
    }
    lemma_resources_of_singles(rest, embedded_resources(embeddings));
    lemma_resources_of_concat(seq![ps[0]], rest);
    assert(seq![ps[0]].drop_last() =~= Seq::<Mail>::empty());
    assert(seq![ps[0]].last() == ps[0]);
    assert(crate::mail::spec_resources_of(Seq::<Mail>::empty()) == Seq::<Resource>::empty());
    assert(crate::mail::spec_resources_of(seq![ps[0]]) =~= crate::mail::spec_resources(ps[0]));
    lemma_single_part_resources(ps[0], resource, Seq::empty());
    assert(crate::mail::spec_resources(m) == crate::mail::spec_resources_of(ps));
}

/// A body made for a resource holds exactly the resource followed by what it embeds.
pub proof fn lemma_mail_body_resources(
    m: Mail,
    resource: Resource,
    embeddings: Seq<EmbeddingInMail>,
    headers: Seq<(HeaderName, HeaderBody)>,
)
    requires
        is_mail_body(m, resource, embeddings, headers),
    ensures
        crate::mail::spec_resources(m) == seq![resource] + embedded_resources(embeddings),
{
    if embeddings.len() == 0 {
        assert(embedded_resources(embeddings) =~= Seq::<Resource>::empty());
        assert(seq![resource] + Seq::<Resource>::empty() =~= seq![resource]);
    } else {
        lemma_related_body_resources(m, resource, embeddings, headers);
    }
}

/// A mixed body holds exactly the resources of its body followed by the attachments.
pub proof fn lemma_mixed_body_resources(m: Mail, body: Mail, attachments: Seq<Resource>, headers: Seq<(HeaderName, HeaderBody)>)
    requires
        is_mixed_body(m, body, attachments, headers),
    ensures
        crate::mail::spec_resources(m) == crate::mail::spec_resources(body) + attachments,
{
    let ps = parts(m);
    let rest = ps.subrange(1, ps.len() as int);
    assert(ps =~= seq![ps[0]] + rest);
    assert forall|i: int| 0 <= i < rest.len() implies crate::mail::spec_resources(#[trigger] rest[i])
        == seq![attachments[i]] by {
        assert(rest[i] == ps[i + 1]);
        lemma_single_part_resources(ps[i + 1], attachments[i], attachment_headers());
    }
    lemma_resources_of_singles(rest, attachments);
    lemma_resources_of_concat(seq![ps[0]], rest);
    assert(seq![ps[0]].drop_last() =~= Seq::<Mail>::empty());
    assert(seq![ps[0]].last() == ps[0]);
    assert(crate::mail::spec_resources_of(Seq::<Mail>::empty()) == Seq::<Resource>::empty());
    assert(crate::mail::spec_resources_of(seq![ps[0]]) =~= crate::mail::spec_resources(ps[0]));
    assert(crate::mail::spec_resources(m) == crate::mail::spec_resources_of(ps));
}

/// Alternative bodies hold exactly the resources of the bodies (each followed
/// by what it embeds), in order: composing loses no resource and adds none.
pub proof fn lemma_alternatives_resources(
    m: Mail,
    bodies: Seq<(Resource, Seq<EmbeddingInMail>)>,
    headers: Seq<(HeaderName, HeaderBody)>,
)
    requires
        bodies.len() > 0,
        is_alternatives(m, bodies, headers),
    ensures
        crate::mail::spec_resources(m) == bodies_resources(bodies),
{
    if bodies.len() == 1 {
        lemma_mail_body_resources(m, bodies[0].0, bodies[0].1, headers);
        assert(bodies.drop_last() =~= Seq::<(Resource, Seq<EmbeddingInMail>)>::empty());
        assert(bodies_resources(Seq::<(Resource, Seq<EmbeddingInMail>)>::empty()) == Seq::<Resource>::empty());
        assert(Seq::<Resource>::empty() + seq![bodies[0].0] + embedded_resources(bodies[0].1)
            =~= seq![bodies[0].0] + embedded_resources(bodies[0].1));
    } else {
        lemma_parts_resources(parts(m), bodies);
        assert(crate::mail::spec_resources(m) == crate::mail::spec_resources_of(parts(m)));
    }
}

proof fn lemma_parts_resources(ps: Seq<Mail>, bodies: Seq<(Resource, Seq<EmbeddingInMail>)>)
    requires
        ps.len() == bodies.len(),
        forall|k: int| 0 <= k < bodies.len() ==> is_mail_body(#[trigger] ps[k], bodies[k].0, bodies[k].1, Seq::empty()),
    ensures
        crate::mail::spec_resources_of(ps) == bodies_resources(bodies),
    decreases ps.len(),
{
    if ps.len() > 0 {
        lemma_parts_resources(ps.drop_last(), bodies.drop_last());
        let k = ps.len() - 1;
        lemma_mail_body_resources(ps[k], bodies[k].0, bodies[k].1, Seq::empty());
        assert(seq![bodies.last().0] + embedded_resources(bodies.last().1) == crate::mail::spec_resources(ps.last()));
        assert(bodies_resources(bodies) =~= bodies_resources(bodies.drop_last()) + (seq![bodies.last().0]
            + embedded_resources(bodies.last().1)));
    }
}

} // verus!
