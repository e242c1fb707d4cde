use mail_types::components::{Domain, Email, LocalPart, Mailbox, MailboxList, MessageID, Text, Unstructured};
use mail_types::date_time::DateTime;
use mail_types::error::{BuilderError, HeaderValidationError, MailError, OtherBuilderErrorKind};
use mail_types::file_buffer::{FileBuffer, TransferEncoding};
use mail_types::headers::{HeaderBody, HeaderMap, HeaderName};
use mail_types::mail::{check_header, check_multiple_headers, Builder, EncodableMail, Mail, MailPart};
use mail_types::media_type::MediaType;
use mail_types::resource::{LoadPoll, PollProgress, Resource};

fn resource_from_text(text: &str) -> Resource {
    let mt = MediaType::parse("text/plain; charset=utf-8").unwrap();
    let fb = FileBuffer::new(mt, text.as_bytes().to_vec());
    Resource::sourceless_from_buffer(fb)
}

fn loaded_resource_from_text(text: &str) -> Resource {
    let mut r = resource_from_text(text);
    assert_eq!(r.poll_loading(LoadPoll::NotReady).unwrap(), PollProgress::Ready);
    r
}

fn ct(s: &str) -> HeaderBody {
    HeaderBody::MediaType(MediaType::parse(s).unwrap())
}

fn email(local: &str, domain: &str) -> Email {
    Email {
        local_part: LocalPart::from_input(local.to_string()).unwrap(),
        domain: Domain::from_input(domain.to_string()),
    }
}

fn from_header(emails: &[(&str, &str)]) -> HeaderBody {
    let list = emails
        .iter()
        .map(|(l, d)| Mailbox { display_name: None, email: email(l, d) })
        .collect::<Vec<_>>();
    HeaderBody::Mailboxes(MailboxList::try_from_vec(list).unwrap())
}

fn subject(s: &str) -> HeaderBody {
    HeaderBody::Unstructured(Unstructured { text: s.to_string() })
}

fn message_id() -> MessageID {
    MessageID { email: email("bfr7tz4.0", "fooblabar.test") }
}

fn single_mail(headers: HeaderMap, text: &str) -> Mail {
    Mail::from_parts(headers, MailPart::SingleBody { body: loaded_resource_from_text(text) })
}

#[test]
fn builder_setting_non_multipart_headers_is_forbidden() {
    assert!(check_header(HeaderName::ContentType, &ct("text/plain"), false).is_err());
    assert!(check_header(HeaderName::ContentType, &ct("multipart/plain"), false).is_err());
}

#[test]
fn builder_setting_multi_on_multi_is_ok() {
    assert!(check_header(HeaderName::ContentType, &ct("multipart/plain"), true).is_ok());
}

#[test]
fn builder_setting_single_on_multi_is_err() {
    assert!(check_header(HeaderName::ContentType, &ct("text/plain"), true).is_err());
}

#[test]
fn builder_content_transfer_encoding_is_never_ok() {
    let comp = HeaderBody::TransferEncoding(TransferEncoding::Base64);
    assert!(check_header(HeaderName::ContentTransferEncoding, &comp, true).is_err());
    assert!(check_header(HeaderName::ContentTransferEncoding, &comp, false).is_err());
}

#[test]
fn multiple_headers_setting_non_multipart_headers_is_forbidden() {
    let mut headers = HeaderMap::new();
    headers.insert(HeaderName::ContentType, ct("text/plain")).unwrap();
    assert!(check_multiple_headers(&headers, false).is_err());
    let mut headers = HeaderMap::new();
    headers.insert(HeaderName::ContentType, ct("multipart/plain")).unwrap();
    assert!(check_multiple_headers(&headers, false).is_err());
}

#[test]
fn multiple_headers_setting_multi_on_multi_is_ok() {
    let mut headers = HeaderMap::new();
    headers.insert(HeaderName::ContentType, ct("multipart/plain")).unwrap();
    assert!(check_multiple_headers(&headers, true).is_ok());
}

#[test]
fn multiple_headers_setting_single_on_multi_is_err() {
    let mut headers = HeaderMap::new();
    headers.insert(HeaderName::ContentType, ct("text/plain")).unwrap();
    assert!(check_multiple_headers(&headers, true).is_err());
}

#[test]
fn multiple_headers_content_transfer_encoding_is_never_ok() {
    let mut headers = HeaderMap::new();
    headers
        .insert(HeaderName::ContentTransferEncoding, HeaderBody::TransferEncoding(TransferEncoding::Base64))
        .unwrap();
    assert!(check_multiple_headers(&headers, true).is_err());
    assert!(check_multiple_headers(&headers, false).is_err());
}

#[test]
fn content_transfer_encoding_error_kind() {
    let comp = HeaderBody::TransferEncoding(TransferEncoding::Base64);
    match check_header(HeaderName::ContentTransferEncoding, &comp, false) {
        Err(BuilderError::Other(OtherBuilderErrorKind::InsertingContentTransferEncodingHeader)) => {}
        other => panic!("unexpected {:?}", other),
    }
}

#[test]
fn walk_mail_bodies_does_not_skip() {
    let inner = Mail::from_parts(
        HeaderMap::new(),
        MailPart::MultipleBodies {
            bodies: vec![
                single_mail(HeaderMap::new(), "r1"),
                single_mail(HeaderMap::new(), "r2"),
            ],
            hidden_text: String::new(),
        },
    );
    let mail = Mail::from_parts(
        HeaderMap::new(),
        MailPart::MultipleBodies {
            bodies: vec![inner, single_mail(HeaderMap::new(), "r3")],
            hidden_text: String::new(),
        },
    );
    let body_count = std::cell::Cell::new(0);
    let seen = std::cell::RefCell::new(Vec::new());
    mail.walk_mail_bodies::<_, ()>(&|body: &Resource| {
        body_count.set(body_count.get() + 1);
        let encoded = body.get_if_encoded().expect("it should be loaded");
        let slice = std::str::from_utf8(encoded.as_slice()).unwrap().to_string();
        assert!(["r1", "r2", "r3"].contains(&slice.as_str()));
        seen.borrow_mut().push(slice);
        Ok(())
    })
    .unwrap();
    assert_eq!(body_count.get(), 3);
    assert_eq!(*seen.borrow(), vec!["r1", "r2", "r3"]);
    assert_eq!(mail.resources().len(), 3);
    assert!(mail.all_loaded());
}

#[test]
fn walk_mail_bodies_handles_errors() {
    let mail = single_mail(HeaderMap::new(), "r0");
    assert!(mail.walk_mail_bodies::<_, ()>(&|_| Ok(())).is_ok());
    assert!(mail.walk_mail_bodies::<_, ()>(&|_| Err(())).is_err());
}

#[test]
fn resource_slices_and_file_meta() {
    let r = loaded_resource_from_text("abc");
    assert_eq!(r.with_slice(|s| Ok(s.len())), Ok(3));
    let unloaded = resource_from_text("abc");
    assert_eq!(
        unloaded.with_slice(|s| Ok(s.len())),
        Err(mail_types::error::EncodingError::AccessingMailBodyFailed)
    );
    let mut fb = FileBuffer::new(MediaType::parse("text/plain").unwrap(), b"x".to_vec());
    fb.file_meta_mut().file_name = Some("x.txt".to_string());
    assert_eq!(fb.file_meta().file_name, Some("x.txt".to_string()));
    assert_eq!(fb.as_slice(), b"x");
}

#[test]
fn set_header_checks_the_header() {
    let mut mail = single_mail(HeaderMap::new(), "r0");
    assert!(mail
        .set_header(HeaderName::ContentTransferEncoding, HeaderBody::TransferEncoding(TransferEncoding::Base64))
        .is_err());
    assert!(mail.set_header(HeaderName::ContentType, ct("text/plain")).is_err());
    assert!(mail.set_header(HeaderName::ContentType, ct("multipart/plain")).is_err());
    assert_eq!(mail.headers().len(), 0);
}

#[test]
fn set_header_set_a_header() {
    let mut mail = single_mail(HeaderMap::new(), "r0");
    assert!(mail.set_header(HeaderName::Subject, subject("hy")).is_ok());
    assert!(mail.headers().contains(HeaderName::Subject));
}

#[test]
fn set_header_rejects_wrong_body_kind() {
    let mut mail = single_mail(HeaderMap::new(), "r0");
    match mail.set_header(HeaderName::Subject, from_header(&[("a", "b.c")])) {
        Err(BuilderError::Type(_)) => {}
        other => panic!("unexpected {:?}", other),
    }
    assert_eq!(mail.headers().len(), 0);
}

#[test]
fn set_headers_checks_the_headers() {
    let mut mail = single_mail(HeaderMap::new(), "r0");
    let mut headers = HeaderMap::new();
    headers.insert(HeaderName::ContentType, ct("test/html;charset=utf8")).unwrap();
    assert!(mail.set_headers(headers).is_err());
}

#[test]
fn set_headers_sets_all_headers() {
    let mut mail = single_mail(HeaderMap::new(), "r0");
    let mut headers = HeaderMap::new();
    headers.insert(HeaderName::Subject, subject("yes")).unwrap();
    headers
        .insert(HeaderName::Comments, HeaderBody::Text(Text { text: "so much".to_string() }))
        .unwrap();
    assert!(mail.set_headers(headers).is_ok());
    assert!(mail.headers().contains(HeaderName::Subject));
    assert!(mail.headers().contains(HeaderName::Comments));
}

fn assert_text_plain_qp(headers: &HeaderMap) {
    match headers.get_single(HeaderName::ContentType) {
        Some(HeaderBody::MediaType(m)) => {
            assert_eq!(m.type_(), "text");
            assert_eq!(m.subtype(), "plain");
            assert_eq!(m.get_param("charset"), Some("utf-8"));
        }
        other => panic!("unexpected {:?}", other),
    }
    match headers.get_single(HeaderName::ContentTransferEncoding) {
        Some(HeaderBody::TransferEncoding(te)) => assert_eq!(*te, TransferEncoding::QuotedPrintable),
        other => panic!("unexpected {:?}", other),
    }
}

#[test]
fn sets_generated_headers_for_outer_mail() {
    let mut headers = HeaderMap::new();
    headers.insert(HeaderName::From, from_header(&[("random", "this.is.no.mail")])).unwrap();
    headers.insert(HeaderName::Subject, subject("hoho")).unwrap();
    let mail = single_mail(headers, "r9");

    let enc_mail = EncodableMail::from_loaded_mail(mail, DateTime::now(), message_id()).unwrap();
    let headers: &HeaderMap = enc_mail.mail().headers();
    assert!(headers.contains(HeaderName::From));
    assert!(headers.contains(HeaderName::Subject));
    assert!(headers.contains(HeaderName::Date));
    assert!(headers.contains(HeaderName::ContentType));
    assert!(headers.contains(HeaderName::ContentTransferEncoding));
    assert!(headers.contains(HeaderName::MessageId));
    assert_eq!(headers.len(), 6);
    assert_text_plain_qp(headers);
}

#[test]
fn sets_generated_headers_for_sub_mails() {
    let mut headers = HeaderMap::new();
    headers.insert(HeaderName::From, from_header(&[("random", "this.is.no.mail")])).unwrap();
    headers.insert(HeaderName::Subject, subject("hoho")).unwrap();
    headers.insert(HeaderName::ContentType, ct("multipart/mixed")).unwrap();
    let mail = Mail::from_parts(
        headers,
        MailPart::MultipleBodies {
            bodies: vec![single_mail(HeaderMap::new(), "r9")],
            hidden_text: String::new(),
        },
    );

    let mail = EncodableMail::from_loaded_mail(mail, DateTime::now(), message_id()).unwrap().into_mail();
    assert!(mail.headers().contains(HeaderName::From));
    assert!(mail.headers().contains(HeaderName::Subject));
    assert!(mail.headers().contains(HeaderName::Date));

    if let MailPart::MultipleBodies { bodies, .. } = mail.body() {
        let headers = bodies[0].headers();
        assert!(!headers.contains(HeaderName::Date));
        assert_text_plain_qp(headers);
    } else {
        unreachable!()
    }
}

#[test]
fn runs_contextual_validators() {
    let mut headers = HeaderMap::new();
    headers
        .insert(HeaderName::From, from_header(&[("random", "this.is.no.mail"), ("u.p.s", "s.p.u")]))
        .unwrap();
    headers.insert(HeaderName::Subject, subject("hoho")).unwrap();
    let mail = single_mail(headers, "r9");
    match EncodableMail::from_loaded_mail(mail, DateTime::now(), message_id()) {
        Err(MailError::Validation(HeaderValidationError::MultiMailboxFromWithoutSender)) => {}
        other => panic!("unexpected {:?}", other.map(|_| ())),
    }
}

#[test]
fn multi_mailbox_from_with_sender_is_valid() {
    let mut headers = HeaderMap::new();
    headers
        .insert(HeaderName::From, from_header(&[("random", "this.is.no.mail"), ("u.p.s", "s.p.u")]))
        .unwrap();
    headers
        .insert(
            HeaderName::Sender,
            HeaderBody::Mailbox(Mailbox { display_name: None, email: email("u.p.s", "s.p.u") }),
        )
        .unwrap();
    let mail = single_mail(headers, "r9");
    assert!(EncodableMail::from_loaded_mail(mail, DateTime::now(), message_id()).is_ok());
}

#[test]
fn checks_there_is_from() {
    let mut headers = HeaderMap::new();
    headers.insert(HeaderName::Subject, subject("hoho")).unwrap();
    let mail = single_mail(headers, "r9");
    match EncodableMail::from_loaded_mail(mail, DateTime::now(), message_id()) {
        Err(MailError::Validation(HeaderValidationError::NoFrom)) => {}
        other => panic!("unexpected {:?}", other.map(|_| ())),
    }
}

#[test]
fn does_not_override_date_if_set() {
    let provided_date = DateTime { secs: 706837272, nanos: 0 };
    let mut headers = HeaderMap::new();
    headers.insert(HeaderName::From, from_header(&[("random", "this.is.no.mail")])).unwrap();
    headers.insert(HeaderName::Subject, subject("hoho")).unwrap();
    headers.insert(HeaderName::Date, HeaderBody::DateTime(provided_date)).unwrap();
    let mail = single_mail(headers, "r9");

    let enc_mail = EncodableMail::from_loaded_mail(mail, DateTime { secs: 0, nanos: 0 }, message_id()).unwrap();
    match enc_mail.mail().headers().get_single(HeaderName::Date) {
        Some(HeaderBody::DateTime(used)) => {
            assert_eq!(used.secs, provided_date.secs);
            assert_eq!(used.to_rfc2822(), "Mon, 25 May 1992 23:41:12 +0000");
        }
        other => panic!("unexpected {:?}", other),
    }
}

#[test]
fn plain_text_mail_has_no_headers() {
    let mail = Mail::plain_text("hello".to_string()).unwrap();
    assert_eq!(mail.headers().len(), 0);
    assert!(!mail.body().is_multipart());
    assert!(!mail.all_loaded());
}

#[test]
fn builder_multipart_sets_boundary() {
    let b = Builder::multipart(MediaType::parse("multipart/mixed").unwrap()).unwrap();
    let mail = b.body(single_mail(HeaderMap::new(), "x")).unwrap().build().unwrap();
    assert!(mail.body().is_multipart());
    match mail.headers().get_single(HeaderName::ContentType) {
        Some(HeaderBody::MediaType(m)) => {
            let boundary = m.get_param("boundary").unwrap();
            assert!(boundary.starts_with("=_^"));
            assert_eq!(boundary.len(), 33);
        }
        other => panic!("unexpected {:?}", other),
    }
}

#[test]
fn builder_multipart_rejects_singlepart_media_type() {
    match Builder::multipart(MediaType::parse("text/plain").unwrap()) {
        Err(BuilderError::Other(OtherBuilderErrorKind::SingleMultipartMixup)) => {}
        Err(other) => panic!("unexpected {:?}", other),
        Ok(_) => panic!("expected an error"),
    }
}

#[test]
fn singlepart_builder_rejects_content_type() {
    let b = Builder::singlepart(resource_from_text("x"));
    assert!(b.header(HeaderName::ContentType, ct("text/plain")).is_err());
}

#[test]
fn singlepart_builder_builds_with_headers() {
    let b = Builder::singlepart(resource_from_text("x"));
    let mail = b.header(HeaderName::Subject, subject("s")).unwrap().build().unwrap();
    assert!(mail.headers().contains(HeaderName::Subject));
    assert_eq!(mail.headers().len(), 1);
}

#[test]
fn multipart_builder_chain_keeps_bodies_in_call_order() {
    let mut first_headers = HeaderMap::new();
    first_headers.insert(HeaderName::Subject, subject("first")).unwrap();
    let mut second_headers = HeaderMap::new();
    second_headers.insert(HeaderName::Subject, subject("second")).unwrap();
    let mail = Builder::multipart(MediaType::parse("multipart/mixed").unwrap())
        .unwrap()
        .body(single_mail(first_headers, "one"))
        .unwrap()
        .header(HeaderName::Subject, subject("outer"))
        .unwrap()
        .body(single_mail(second_headers, "two"))
        .unwrap()
        .build()
        .unwrap();
    assert_eq!(mail.headers().len(), 2);
    match mail.body() {
        MailPart::MultipleBodies { bodies, hidden_text } => {
            assert_eq!(bodies.len(), 2);
            assert!(hidden_text.is_empty());
            let subjects: Vec<String> = bodies
                .iter()
                .map(|b| match b.headers().get_single(HeaderName::Subject) {
                    Some(HeaderBody::Unstructured(u)) => u.text.clone(),
                    other => panic!("unexpected {:?}", other),
                })
                .collect();
            assert_eq!(subjects, vec!["first".to_string(), "second".to_string()]);
        }
        other => panic!("unexpected {:?}", other),
    }
    let empty = Builder::multipart(MediaType::parse("multipart/mixed").unwrap())
        .unwrap()
        .header(HeaderName::Subject, subject("outer"))
        .unwrap()
        .build();
    match empty {
        Err(BuilderError::Other(OtherBuilderErrorKind::EmptyMultipartBody)) => {}
        Err(other) => panic!("unexpected {:?}", other),
        Ok(_) => panic!("expected an error"),
    }
}
