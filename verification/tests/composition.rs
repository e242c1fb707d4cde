use mail_types::body::encode_body_buffer;
use mail_types::codec::{MailEncodable, MailEncoder};
use mail_types::components::{ContentId, Disposition, Unstructured};
use mail_types::components::{Domain, Email, LocalPart, Mailbox};
use mail_types::composition::{
    build_mail, compose_mail, create_alternate_bodies, create_body_from_resource, create_body_with_embeddings,
    create_with_attachments, preprocess_send_context, preprocess_templates, CompositionError, EmbeddingInMail,
    MailSendContext, Template, To,
};
use mail_types::error::EncodingError;
use mail_types::file_buffer::{FileBuffer, TransferEncoding};
use mail_types::headers::{encode_header, encode_header_key, HeaderBody, HeaderMap, HeaderName};
use mail_types::mail::{Mail, MailPart};
use mail_types::media_type::MediaType;
use mail_types::resource::Resource;

fn res(text: &str) -> Resource {
    Resource::sourceless_from_string(text.to_string())
}

fn subject_headers(s: &str) -> HeaderMap {
    let mut h = HeaderMap::new();
    h.insert(HeaderName::Subject, HeaderBody::Unstructured(Unstructured { text: s.to_string() })).unwrap();
    h
}

fn parts(m: &Mail) -> &Vec<Mail> {
    match m.body() {
        MailPart::MultipleBodies { bodies, .. } => bodies,
        MailPart::SingleBody { .. } => panic!("expected a multipart mail"),
    }
}

fn content_subtype(m: &Mail) -> String {
    match m.headers().get_single(HeaderName::ContentType) {
        Some(HeaderBody::MediaType(mt)) => mt.subtype().to_string(),
        other => panic!("unexpected {:?}", other),
    }
}

fn embedding(cid: &str, text: &str) -> EmbeddingInMail {
    EmbeddingInMail { content_id: ContentId::new(cid.to_string()), resource: res(text) }
}

#[test]
fn body_from_resource_keeps_headers() {
    let m = create_body_from_resource(res("x"), subject_headers("s")).unwrap();
    assert!(!m.body().is_multipart());
    assert!(m.headers().contains(HeaderName::Subject));
    let mut bad = HeaderMap::new();
    bad.insert(HeaderName::ContentType, HeaderBody::MediaType(MediaType::text_plain_utf8())).unwrap();
    assert!(matches!(create_body_from_resource(res("x"), bad), Err(CompositionError::Builder(_))));
}

#[test]
fn body_with_embeddings_is_related() {
    let m = create_body_with_embeddings(
        res("html"),
        vec![embedding("c1@x", "img1"), embedding("c2@x", "img2")],
        subject_headers("s"),
    )
    .unwrap();
    assert_eq!(content_subtype(&m), "related");
    assert!(m.headers().contains(HeaderName::Subject));
    let ps = parts(&m);
    assert_eq!(ps.len(), 3);
    assert_eq!(ps[0].headers().len(), 0);
    match ps[2].headers().get_single(HeaderName::ContentId) {
        Some(HeaderBody::ContentId(cid)) => assert_eq!(cid.as_str(), "c2@x"),
        other => panic!("unexpected {:?}", other),
    }
    match ps[1].headers().get_single(HeaderName::ContentDisposition) {
        Some(HeaderBody::Disposition(d)) => assert_eq!(*d, Disposition::Inline),
        other => panic!("unexpected {:?}", other),
    }
}

#[test]
fn alternate_bodies() {
    assert!(matches!(
        create_alternate_bodies(Vec::new(), HeaderMap::new()),
        Err(CompositionError::NeedPlainAndOrHtmlMailBody)
    ));
    let one = create_alternate_bodies(vec![(res("plain"), Vec::new())], subject_headers("s")).unwrap();
    assert!(!one.body().is_multipart());
    assert!(one.headers().contains(HeaderName::Subject));

    let two = create_alternate_bodies(
        vec![(res("plain"), Vec::new()), (res("html"), vec![embedding("c@x", "img")])],
        subject_headers("s"),
    )
    .unwrap();
    assert_eq!(content_subtype(&two), "alternative");
    let ps = parts(&two);
    assert_eq!(ps.len(), 2);
    assert!(!ps[0].body().is_multipart());
    assert_eq!(content_subtype(&ps[1]), "related");
}

#[test]
fn attachments_make_a_mixed_mail() {
    let body = create_body_from_resource(res("b"), HeaderMap::new()).unwrap();
    let m = create_with_attachments(body, vec![res("a1"), res("a2")], subject_headers("s")).unwrap();
    assert_eq!(content_subtype(&m), "mixed");
    let ps = parts(&m);
    assert_eq!(ps.len(), 3);
    match ps[1].headers().get_single(HeaderName::ContentDisposition) {
        Some(HeaderBody::Disposition(d)) => assert_eq!(*d, Disposition::Attachment),
        other => panic!("unexpected {:?}", other),
    }
}

#[test]
fn build_mail_with_and_without_attachments() {
    let m = build_mail(vec![(res("p"), Vec::new())], Vec::new(), subject_headers("s")).unwrap();
    assert!(!m.body().is_multipart());
    let m = build_mail(
        vec![(res("p"), Vec::new()), (res("h"), Vec::new())],
        vec![res("a")],
        subject_headers("s"),
    )
    .unwrap();
    assert_eq!(content_subtype(&m), "mixed");
    let ps = parts(&m);
    assert_eq!(ps.len(), 2);
    assert_eq!(content_subtype(&ps[0]), "alternative");
    assert!(!ps[0].headers().contains(HeaderName::Subject));
    assert!(m.headers().contains(HeaderName::Subject));
    assert!(matches!(build_mail(Vec::new(), vec![res("a")], HeaderMap::new()), Err(CompositionError::NeedPlainAndOrHtmlMailBody)));
}

#[test]
fn templates_are_collected() {
    let templates = vec![
        Template { body: res("p"), embeddings: Vec::new(), attachments: vec![res("a1")] },
        Template { body: res("h"), embeddings: vec![embedding("c@x", "i")], attachments: vec![res("a2"), res("a3")] },
    ];
    let (bodies, attachments) = preprocess_templates(templates);
    assert_eq!(bodies.len(), 2);
    assert_eq!(bodies[1].1.len(), 1);
    assert_eq!(attachments.len(), 3);
}

fn encoded(name: HeaderName, body: &HeaderBody) -> Result<String, EncodingError> {
    let mut enc = MailEncoder::new(false);
    encode_header(name, body, &mut enc)?;
    Ok(enc.into_ascii_string().unwrap())
}

#[test]
fn header_encoding() {
    let mut enc = MailEncoder::new(false);
    encode_header_key(HeaderName::ContentTransferEncoding, &mut enc);
    assert_eq!(enc.into_ascii_string().unwrap(), "Content-Transfer-Encoding:");
    assert_eq!(
        encoded(HeaderName::Subject, &HeaderBody::Unstructured(Unstructured { text: "hi".to_string() })).unwrap(),
        "Subject: hi"
    );
    assert_eq!(
        encoded(HeaderName::ContentType, &HeaderBody::MediaType(MediaType::text_plain_utf8())).unwrap(),
        "Content-Type: text/plain; charset=utf-8"
    );
    assert_eq!(
        encoded(HeaderName::ContentTransferEncoding, &HeaderBody::TransferEncoding(TransferEncoding::QuotedPrintable))
            .unwrap(),
        "Content-Transfer-Encoding: quoted-printable"
    );
    assert_eq!(
        encoded(HeaderName::ContentDisposition, &HeaderBody::Disposition(Disposition::Attachment)).unwrap(),
        "Content-Disposition: attachment"
    );
    assert_eq!(
        encoded(HeaderName::ContentId, &HeaderBody::ContentId(ContentId::new("a.b@c".to_string()))).unwrap(),
        "Content-Id: <a.b@c>"
    );
    assert_eq!(
        encoded(HeaderName::Keywords, &HeaderBody::Phrases(mail_types::components::PhraseList(Vec::new()))),
        Err(EncodingError::AtLeastOneElementIsRequired)
    );
}

#[test]
fn media_type_text_quotes_special_values() {
    let mut mt = MediaType::parse("multipart/mixed").unwrap();
    mt.set_param("boundary", "=_^a\"b".to_string());
    assert_eq!(mt.to_text(), "multipart/mixed; boundary=\"=_^a\\\"b\"");
    let mut enc = MailEncoder::new(false);
    mt.encode(&mut enc).unwrap();
    assert_eq!(enc.into_bytes(), b"multipart/mixed; boundary=\"=_^a\\\"b\"".to_vec());
    let mt = MediaType::parse("image/svg+xml").unwrap();
    assert_eq!(mt.to_text(), "image/svg+xml");
}

#[test]
fn body_buffer_encoding_choice() {
    let b = FileBuffer::new(MediaType::parse("text/plain; charset=utf-8").unwrap(), b"plain".to_vec());
    assert_eq!(*encode_body_buffer(b, None).unwrap().transfer_encoding(), TransferEncoding::_7Bit);
    let b = FileBuffer::new(MediaType::parse("text/plain; charset=utf-8").unwrap(), "Ö".as_bytes().to_vec());
    let e = encode_body_buffer(b, None).unwrap();
    assert_eq!(*e.transfer_encoding(), TransferEncoding::QuotedPrintable);
    assert_eq!(e.as_slice(), b"=C3=96");
    let b = FileBuffer::new(MediaType::parse("image/png").unwrap(), vec![0xff, 0x00]);
    assert_eq!(*encode_body_buffer(b, None).unwrap().transfer_encoding(), TransferEncoding::Base64);
    let b = FileBuffer::new(MediaType::parse("image/png").unwrap(), vec![0xff, 0x00]);
    assert_eq!(*encode_body_buffer(b, Some(TransferEncoding::Binary)).unwrap().transfer_encoding(), TransferEncoding::Binary);
}

fn email(l: &str, d: &str) -> Email {
    Email { local_part: LocalPart::from_input(l.to_string()).unwrap(), domain: Domain::from_input(d.to_string()) }
}

fn send_context() -> MailSendContext {
    MailSendContext {
        from: Mailbox { display_name: None, email: email("from", "x.test") },
        to: To::Email(email("to", "y.test")),
        subject: "hello".to_string(),
    }
}

#[test]
fn send_context_is_preprocessed() {
    let (subject, from, to) = preprocess_send_context(send_context(), || None);
    assert_eq!(subject.text, "hello");
    assert_eq!(from.email, email("from", "x.test"));
    assert_eq!(to.email, email("to", "y.test"));
    assert!(to.display_name.is_none());
}

#[test]
fn compose_mail_puts_core_headers_on_top() {
    let templates = vec![
        Template { body: res("plain"), embeddings: Vec::new(), attachments: Vec::new() },
        Template { body: res("html"), embeddings: Vec::new(), attachments: vec![res("att")] },
    ];
    let m = compose_mail(send_context(), templates, vec![res("data att")], || None).unwrap();
    assert_eq!(content_subtype(&m), "mixed");
    assert!(m.headers().contains(HeaderName::From));
    assert!(m.headers().contains(HeaderName::To));
    assert!(m.headers().contains(HeaderName::Subject));
    let ps = parts(&m);
    assert_eq!(ps.len(), 3);
    assert_eq!(content_subtype(&ps[0]), "alternative");

    let single = compose_mail(
        send_context(),
        vec![Template { body: res("plain"), embeddings: Vec::new(), attachments: Vec::new() }],
        Vec::new(),
        || None,
    )
    .unwrap();
    assert!(!single.body().is_multipart());
    assert_eq!(single.headers().len(), 3);
    assert!(matches!(
        compose_mail(send_context(), Vec::new(), Vec::new(), || None),
        Err(CompositionError::NeedPlainAndOrHtmlMailBody)
    ));
}
