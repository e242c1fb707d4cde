use mail_types::body::{Body, BodyError, BodyPoll};
use mail_types::components::{ContentId, Domain, Email, LocalPart, Mailbox};
use mail_types::composition::{Attachment, Embedding, To};
use mail_types::error::{ResourceError, ResourceLoadingError, ResourceLoadingErrorKind, ResourceNotUnloadableError};
use mail_types::file_buffer::{FileBuffer, FileMeta, TransferEncodedFileBuffer, TransferEncoding};
use mail_types::fs_loader::{fix_newlines, has_only_crlf_newlines, path_from_tail, FsResourceLoader};
use mail_types::headers::{HeaderBody, HeaderMap, HeaderName};
use mail_types::id_gen::{push_hex, HashedIdGen, SimpleIdGen};
use mail_types::codec::{MailEncodable, MailEncoder};
use mail_types::iri::IRI;
use mail_types::media_type::MediaType;
use mail_types::mime::{create_random_boundary, gen_multipart_mime, is_multipart_mime, MimeError, MultipartMime, SinglepartMime};
use mail_types::resource::{
    continue_from_cancel, loading_future_step, state_info_from_usize, state_info_to_usize, LoadPoll,
    LoadingFutureAction, PollProgress, PollState, Resource, ResourceStateInfo, Source,
};
use std::collections::HashSet;

fn text_plain() -> MediaType {
    MediaType::parse("text/plain; charset=utf-8").unwrap()
}

fn source(iri: &str) -> Source {
    Source { iri: IRI::new(iri).unwrap(), use_media_type: Some(text_plain()), use_name: None }
}

fn encoded(text: &str) -> TransferEncodedFileBuffer {
    TransferEncodedFileBuffer::buffer_is_encoded(
        FileBuffer::new(text_plain(), text.as_bytes().to_vec()),
        TransferEncoding::_8Bit,
    )
}

#[test]
fn load_test() {
    let loader = FsResourceLoader::new("/tmp".to_string());
    let src = source("path:./test_resources/text.txt");
    let mut resource = Resource::new(src.clone());
    assert!(resource.get_if_encoded().is_none());
    assert_eq!(resource.state_info(), ResourceStateInfo::NotLoaded);

    assert_eq!(resource.poll_loading(LoadPoll::NotReady).unwrap(), PollProgress::StartLoading);
    assert_eq!(resource.state_info(), ResourceStateInfo::Loading);
    let path = loader.resource_path(&src).unwrap();
    assert_eq!(path, "./test_resources/text.txt");
    assert_eq!(resource.poll_loading(LoadPoll::NotReady).unwrap(), PollProgress::NotReady);

    let content = b"Hello World!".to_vec();
    let buf = loader.finish_loading(
        content.clone(),
        src.use_media_type.clone(),
        src.use_name.clone(),
        Some("text.txt".to_string()),
        FileMeta::empty(),
    );
    assert_eq!(buf.file_meta().file_name, Some("text.txt".to_string()));
    assert_eq!(resource.poll_loading(LoadPoll::Ready(buf)).unwrap(), PollProgress::Ready);
    assert!(resource.is_loaded());
    let enc_buf = resource.get_if_encoded().unwrap();
    assert_eq!(enc_buf.as_slice(), content.as_slice());
    assert_eq!(*enc_buf.transfer_encoding(), TransferEncoding::QuotedPrintable);
    // a loaded resource stays loaded
    assert_eq!(resource.poll_loading(LoadPoll::NotReady).unwrap(), PollProgress::Ready);
}

#[test]
fn failed_loading_keeps_failing() {
    let mut resource = Resource::new(source("path:missing"));
    resource.poll_loading(LoadPoll::NotReady).unwrap();
    let err = ResourceLoadingError::new(ResourceLoadingErrorKind::NotFound, None);
    match resource.poll_loading(LoadPoll::Failed(err)) {
        Err(ResourceError::Loading(e)) => {
            assert_eq!(e.kind(), ResourceLoadingErrorKind::NotFound);
            assert_eq!(e.source_iri().unwrap().tail(), "missing");
        }
        other => panic!("unexpected {:?}", other),
    }
    assert_eq!(resource.state_info(), ResourceStateInfo::Failed);
    match resource.poll_loading(LoadPoll::NotReady) {
        Err(ResourceError::Loading(e)) => assert_eq!(e.kind(), ResourceLoadingErrorKind::SharedResourcePoisoned),
        other => panic!("unexpected {:?}", other),
    }
}

#[test]
fn unloading_resources() {
    let mut sourceless = Resource::sourceless_from_string("x".to_string());
    sourceless.poll_loading(LoadPoll::NotReady).unwrap();
    assert_eq!(sourceless.try_unload(), Err(ResourceNotUnloadableError::NoSource));

    let mut resource = Resource::new(source("path:a"));
    assert_eq!(resource.try_unload(), Ok(()));
    resource.poll_loading(LoadPoll::NotReady).unwrap();
    assert_eq!(resource.try_unload(), Err(ResourceNotUnloadableError::InUse));
    resource
        .poll_loading(LoadPoll::Ready(FileBuffer::new(text_plain(), b"a".to_vec())))
        .unwrap();
    assert!(resource.acquire_access_guard());
    assert!(!resource.acquire_access_guard());
    assert_eq!(resource.try_unload(), Err(ResourceNotUnloadableError::InUse));
    resource.release_access_guard();
    resource.release_access_guard();
    assert_eq!(resource.try_unload(), Ok(()));
    assert_eq!(resource.state_info(), ResourceStateInfo::NotLoaded);
    assert!(resource.get_if_encoded().is_none());
}

#[test]
fn cancel_and_continue() {
    let mut resource = Resource::new(source("path:a"));
    resource.cancel_loading();
    assert_eq!(resource.state_info(), ResourceStateInfo::Canceled);
    assert_eq!(resource.try_continue_from_cancel(), ResourceStateInfo::Canceled);
    assert_eq!(resource.state_info(), ResourceStateInfo::Loading);
    assert_eq!(continue_from_cancel(ResourceStateInfo::Loaded), (ResourceStateInfo::Loaded, ResourceStateInfo::Loaded));
}

#[test]
fn state_info_codes_round_trip() {
    for info in [
        ResourceStateInfo::NotLoaded,
        ResourceStateInfo::Loading,
        ResourceStateInfo::Loaded,
        ResourceStateInfo::Failed,
        ResourceStateInfo::Canceled,
    ] {
        assert_eq!(state_info_from_usize(state_info_to_usize(info)), info);
    }
    assert_eq!(state_info_to_usize(ResourceStateInfo::Canceled), 4);
}

#[test]
fn loading_future_steps() {
    assert_eq!(
        loading_future_step(PollState::NotPolled, true, ResourceStateInfo::Loaded),
        (PollState::Done, LoadingFutureAction::Resolve)
    );
    assert_eq!(
        loading_future_step(PollState::NotPolled, false, ResourceStateInfo::Loading),
        (PollState::SomeOneElsePolls, LoadingFutureAction::Wait)
    );
    assert_eq!(
        loading_future_step(PollState::SomeOneElsePolls, false, ResourceStateInfo::Failed),
        (PollState::Done, LoadingFutureAction::Fail)
    );
    assert_eq!(
        loading_future_step(PollState::SomeOneElsePolls, false, ResourceStateInfo::Canceled),
        (PollState::CanPoll, LoadingFutureAction::DriveResource)
    );
}

#[test]
fn body_polling() {
    let mut body = Body::new_future();
    assert!(body.buffer_ref().is_none());
    assert!(matches!(body.poll_body(|| BodyPoll::NotReady), Ok(None)));
    match body.poll_body(|| BodyPoll::Ready(encoded("abc"))) {
        Ok(Some(b)) => assert_eq!(b.as_slice(), b"abc"),
        other => panic!("unexpected {:?}", other),
    }
    match body.poll_body(|| panic!("the future is done")) {
        Ok(Some(b)) => assert_eq!(b.as_slice(), b"abc"),
        other => panic!("unexpected {:?}", other),
    }

    let mut body = Body::new_future();
    let err = ResourceError::Loading(ResourceLoadingError::new(ResourceLoadingErrorKind::LoadingFailed, None));
    assert!(matches!(body.poll_body(move || BodyPoll::Failed(err)), Err(BodyError::Resolved(_))));
    assert!(matches!(body.poll_body(|| BodyPoll::NotReady), Err(BodyError::BodyFutureResolvedToAnError)));

    let body = Body::new_resolved(encoded("x"));
    assert_eq!(body.buffer_ref().unwrap().as_slice(), b"x");
}

#[test]
fn fs_loader_defaults_and_paths() {
    let loader = FsResourceLoader::new("/var/mail".to_string());
    assert_eq!(loader.root(), "/var/mail");
    assert_eq!(loader.scheme(), "path");
    assert!(loader.does_validate_scheme());
    assert!(!loader.does_fix_newlines());
    assert!(loader.iri_has_compatible_scheme(&IRI::new("path:x").unwrap()));
    assert!(!loader.iri_has_compatible_scheme(&IRI::new("file:x").unwrap()));

    assert_eq!(path_from_tail(&IRI::new("path:///abs/file").unwrap()), "/abs/file");
    assert_eq!(path_from_tail(&IRI::new("path:rel/file").unwrap()), "rel/file");
    assert_eq!(path_from_tail(&IRI::new("path://host").unwrap()), "//host");

    match loader.resource_path(&source("http://x")) {
        Err(e) => {
            assert_eq!(e.kind(), ResourceLoadingErrorKind::NotFound);
            assert_eq!(e.source_iri().unwrap().scheme(), "http");
        }
        Ok(p) => panic!("unexpected {}", p),
    }
    let lenient = FsResourceLoader::with_options("/".to_string(), "path".to_string(), false, true);
    assert_eq!(lenient.resource_path(&source("http:x")).unwrap(), "x");
    let other = FsResourceLoader::new_with_scheme("/".to_string(), "file".to_string());
    assert_eq!(other.scheme(), "file");
    assert_eq!(other.resource_path(&source("file:///etc/x")).unwrap(), "/etc/x");
}

#[test]
fn fs_loader_newlines_and_names() {
    assert!(has_only_crlf_newlines(b"a\r\nb\r\n"));
    assert!(has_only_crlf_newlines(b""));
    assert!(!has_only_crlf_newlines(b"a\nb"));
    assert!(!has_only_crlf_newlines(b"a\rb"));
    assert!(!has_only_crlf_newlines(b"a\r"));
    assert!(!has_only_crlf_newlines(b"\r\r\n"));
    assert_eq!(fix_newlines(b"a\r\n".to_vec()), b"a\r\n".to_vec());

    let loader = FsResourceLoader::with_options("/".to_string(), "path".to_string(), true, true);
    let buf = loader.finish_loading(
        b"x\r\n".to_vec(),
        Some(text_plain()),
        Some("given.txt".to_string()),
        Some("file.txt".to_string()),
        FileMeta::empty(),
    );
    assert_eq!(buf.file_meta().file_name, Some("given.txt".to_string()));
    assert_eq!(buf.as_slice(), b"x\r\n");
}

fn id_gen(mail: usize) -> SimpleIdGen {
    SimpleIdGen::new(Domain::from_input("fooblabar.test".to_string()), "bfr7tz4".to_string(), mail).unwrap()
}

#[test]
fn should_return_the_same_id() {
    let id_gen = id_gen(7);
    assert_eq!(id_gen.get_message_id(), "bfr7tz4.7@fooblabar.test");
    assert_eq!(id_gen.get_message_id(), id_gen.get_message_id());
}

#[test]
fn should_change_for_new_mails() {
    let id_gen = id_gen(7);
    let other = id_gen.for_new_mail(8);
    assert_ne!(id_gen.get_message_id(), other.get_message_id());
    assert_eq!(other.get_message_id(), "bfr7tz4.8@fooblabar.test");
}

#[test]
fn should_not_change_the_current_id_gen() {
    let id_gen = id_gen(3);
    let msg_id = id_gen.get_message_id();
    let other = id_gen.for_new_mail(4);
    assert_eq!(msg_id, id_gen.get_message_id());
    let _omsg_id = other.get_message_id();
    assert_eq!(msg_id, id_gen.get_message_id());
}

#[test]
fn should_always_return_a_new_id() {
    let mut id_gen = id_gen(12);
    let mut cids = HashSet::new();
    for _ in 0..20 {
        assert!(cids.insert(id_gen.generate_content_id()))
    }
    let mut gen = self::id_gen(12);
    assert_eq!(gen.generate_content_id().as_str(), "bfr7tz4.12.0@fooblabar.test");
    assert_eq!(gen.generate_content_id().as_str(), "bfr7tz4.12.1@fooblabar.test");
}

#[test]
fn id_gen_needs_ascii_domain() {
    let r = SimpleIdGen::new(Domain::from_input("bücher.test".to_string()), "u".to_string(), 0);
    assert_eq!(r.err(), Some(mail_types::error::EncodingError::InvalidTextEncoding));
}

#[test]
fn recipients_and_resources_in_data() {
    let email = Email {
        local_part: LocalPart::from_input("to".to_string()).unwrap(),
        domain: Domain::from_input("x.test".to_string()),
    };
    match To::Email(email.clone()).display_name_or_else(|| None) {
        To::Mailbox(m) => {
            assert!(m.display_name.is_none());
            assert_eq!(m.email, email);
        }
        To::Email(_) => panic!("expected a mailbox"),
    }
    let mbox = Mailbox { display_name: None, email };
    assert!(matches!(
        To::Mailbox(mbox).display_name_or_else(|| panic!("not called for mailboxes")),
        To::Mailbox(_)
    ));

    let mut emb = Embedding::new(Resource::sourceless_from_string("e".to_string()));
    assert!(emb.swap_with_content_id(ContentId::new("c1@x".to_string())).is_some());
    assert!(emb.swap_with_content_id(ContentId::new("c2@x".to_string())).is_none());
    match emb {
        Embedding::AsContentId(cid) => assert_eq!(cid.as_str(), "c2@x"),
        Embedding::AsValue(_) => panic!("expected a content id"),
    }
    let mut att = Attachment::new(Resource::sourceless_from_string("a".to_string()));
    assert!(att.move_out().is_some());
    assert!(att.move_out().is_none());
}

#[test]
fn iri_parsing() {
    let iri = IRI::new("path:./a:b").unwrap();
    assert_eq!(iri.scheme(), "path");
    assert_eq!(iri.tail(), "./a:b");
    assert!(IRI::new("no colon").is_err());
    assert!(IRI::new("1abc:x").is_err());
    assert!(IRI::new(":x").is_err());
    let iri = IRI::from_parts("a+b-c.d", "").unwrap();
    assert_eq!(iri.scheme(), "a+b-c.d");
    assert!(IRI::from_parts("a b", "x").is_err());
}

#[test]
fn media_type_params() {
    let mut mt = text_plain();
    assert_eq!(mt.type_(), "text");
    assert_eq!(mt.subtype(), "plain");
    assert!(mt.is_text() && !mt.is_multipart());
    assert_eq!(mt.get_param("charset"), Some("utf-8"));
    assert_eq!(mt.get_param("format"), None);
    mt.set_param("format", "flowed".to_string());
    assert_eq!(mt.get_param("format"), Some("flowed"));
    mt.set_param("charset", "us-ascii".to_string());
    assert_eq!(mt.get_param("charset"), Some("us-ascii"));
    assert!(MediaType::parse("not a media type").is_err());
}

#[test]
fn mime_kinds() {
    let multi = MediaType::parse("multipart/mixed").unwrap();
    assert!(is_multipart_mime(&multi));
    assert!(matches!(MultipartMime::new(multi.clone()), Err(MimeError::MultipartBoundaryMissing)));
    assert!(matches!(SinglepartMime::new(multi), Err(MimeError::NotSinglepartMime(_))));
    let single = text_plain();
    assert!(!is_multipart_mime(&single));
    assert!(SinglepartMime::new(single.clone()).is_ok());
    assert!(matches!(MultipartMime::new(single), Err(MimeError::NotMultipartMime(_))));
    let with_boundary = MediaType::parse("multipart/alternative; boundary=\"abc\"").unwrap();
    assert!(MultipartMime::new(with_boundary).is_ok());
}

#[test]
fn generated_boundaries() {
    let b = create_random_boundary();
    assert_eq!(b.len(), 33);
    assert!(b.starts_with("=_^"));
    assert!(b[3..].chars().all(|c| c.is_ascii_graphic() && c != '"' && c != '-' && c != '\\'));
    let m = gen_multipart_mime("mixed").unwrap();
    let mt = m.as_media_type();
    assert_eq!(mt.subtype(), "mixed");
    assert!(mt.get_param("boundary").unwrap().starts_with("=_^"));
}

#[test]
fn header_map_reads_after_writes() {
    let mut headers = HeaderMap::new();
    let te = HeaderBody::TransferEncoding(TransferEncoding::Base64);
    assert!(headers.insert(HeaderName::Subject, te.clone()).is_err());
    assert_eq!(headers.len(), 0);
    headers.insert(HeaderName::ContentTransferEncoding, te).unwrap();
    headers
        .insert(HeaderName::ContentTransferEncoding, HeaderBody::TransferEncoding(TransferEncoding::_7Bit))
        .unwrap();
    assert!(headers.contains(HeaderName::ContentTransferEncoding));
    assert!(!headers.contains(HeaderName::Subject));
    match headers.get_single(HeaderName::ContentTransferEncoding) {
        Some(HeaderBody::TransferEncoding(t)) => assert_eq!(*t, TransferEncoding::Base64),
        other => panic!("unexpected {:?}", other),
    }
    let mut other = HeaderMap::new();
    other.insert(HeaderName::ContentType, HeaderBody::MediaType(text_plain())).unwrap();
    headers.combine(other);
    assert_eq!(headers.len(), 3);
    assert!(headers.contains(HeaderName::ContentType));
}

#[test]
fn string_resources_hold_utf8_text() {
    let mut r = Resource::sourceless_from_string("Grüße".to_string());
    assert_eq!(r.poll_loading(LoadPoll::NotReady).unwrap(), PollProgress::Ready);
    let enc = r.get_if_encoded().unwrap();
    assert_eq!(*enc.transfer_encoding(), TransferEncoding::QuotedPrintable);
    assert_eq!(enc.as_slice(), b"Gr=C3=BC=C3=9Fe");
    assert_eq!(enc.buffer().content_type().get_param("charset"), Some("utf-8"));
}

#[test]
fn message_id_component() {
    let gen = id_gen(5);
    let id = gen.message_id();
    let mut enc = mail_types::codec::MailEncoder::new(false);
    mail_types::codec::MailEncodable::encode(&id, &mut enc).unwrap();
    assert_eq!(enc.into_bytes(), b"<bfr7tz4.5@fooblabar.test>".to_vec());
}

#[test]
fn waiting_future_resolves_on_loaded_resource() {
    assert_eq!(
        loading_future_step(PollState::NotPolled, false, ResourceStateInfo::Loaded),
        (PollState::Done, LoadingFutureAction::Resolve)
    );
    assert_eq!(
        loading_future_step(PollState::CanPoll, true, ResourceStateInfo::Loading),
        (PollState::CanPoll, LoadingFutureAction::DriveResource)
    );
}

#[test]
fn dropping_loading_futures() {
    let mut resource = Resource::new(source("path:a"));
    resource.poll_loading(LoadPoll::NotReady).unwrap();
    assert_eq!(resource.drop_loading_future(PollState::CanPoll), PollState::Done);
    assert_eq!(resource.state_info(), ResourceStateInfo::Canceled);

    let mut loaded = Resource::sourceless_from_string("x".to_string());
    loaded.poll_loading(LoadPoll::NotReady).unwrap();
    assert_eq!(loaded.drop_loading_future(PollState::Done), PollState::Done);
    assert_eq!(loaded.state_info(), ResourceStateInfo::Loaded);
    assert!(loaded.get_if_encoded().is_some());
}

#[test]
fn modifying_resource_states() {
    let mut resource = Resource::new(source("path:a"));
    let r: Option<Result<u8, ()>> = resource.try_modify_state_if(|_| false, |_| panic!("not called"));
    assert!(r.is_none());
    assert_eq!(resource.state_info(), ResourceStateInfo::NotLoaded);

    let r: Option<Result<u8, ()>> =
        resource.try_modify_state_if(|_| true, |_| Ok((mail_types::resource::ResourceState::LoadingBuffer, 7)));
    assert_eq!(r, Some(Ok(7)));
    assert_eq!(resource.state_info(), ResourceStateInfo::Loading);

    let r: Option<Result<u8, &str>> = resource.try_modify_state_if(|_| true, |_| Err("failed"));
    assert_eq!(r, Some(Err("failed")));
    assert_eq!(resource.state_info(), ResourceStateInfo::Failed);
}

#[test]
fn hex_formatting() {
    for (n, text) in [(0u64, "0"), (9, "9"), (10, "a"), (255, "ff"), (4096, "1000"), (u64::MAX, "ffffffffffffffff")] {
        let mut out = String::new();
        push_hex(&mut out, n);
        assert_eq!(out, text);
        assert_eq!(out, format!("{:x}", n));
    }
}

#[test]
fn hashed_ids_have_a_hex_hash_and_the_domain() {
    let is_hashed = |id: &str| {
        let (hash, domain) = id.split_once('@').unwrap();
        !hash.is_empty() && hash.chars().all(|c| c.is_ascii_hexdigit() && !c.is_ascii_uppercase()) && domain == "fooblabar.test"
    };
    let mut g = HashedIdGen::new(Domain::from_input("fooblabar.test".to_string()), "bfr7tz4".to_string(), 3).unwrap();
    let mid = g.get_message_id();
    assert!(is_hashed(&mid));
    assert_eq!(mid, g.get_message_id());
    assert!(!mid.starts_with("bfr7tz4"));
    let c0 = g.generate_content_id();
    let c1 = g.generate_content_id();
    assert!(is_hashed(c0.as_str()) && is_hashed(c1.as_str()));
    assert_ne!(c0.as_str(), c1.as_str());
    let other = g.for_new_mail(4);
    assert_ne!(other.get_message_id(), mid);
    assert!(HashedIdGen::new(Domain::from_input("bücher.test".to_string()), "u".to_string(), 0).is_err());
}

#[test]
fn hashed_message_id_component() {
    let g = HashedIdGen::new(Domain::from_input("fooblabar.test".to_string()), "bfr7tz4".to_string(), 3).unwrap();
    let id = g.message_id();
    let mut enc = MailEncoder::new(false);
    id.encode(&mut enc).unwrap();
    assert_eq!(enc.into_bytes(), format!("<{}>", g.get_message_id()).into_bytes());
    // the same generator gives the same id; another mail number gives another
    assert_eq!(g.get_message_id(), g.get_message_id());
    let h = HashedIdGen::new(Domain::from_input("fooblabar.test".to_string()), "bfr7tz4".to_string(), 3).unwrap();
    assert_eq!(h.get_message_id(), g.get_message_id());
    assert_ne!(g.for_new_mail(4).get_message_id(), g.get_message_id());
}

#[test]
fn simple_message_id_keeps_the_template_text() {
    let g = SimpleIdGen::new(Domain::from_input("fooblabar.test".to_string()), "a b".to_string(), 2).unwrap();
    let id = g.message_id();
    let mut enc = MailEncoder::new(false);
    id.encode(&mut enc).unwrap();
    assert_eq!(enc.into_bytes(), b"<a b.2@fooblabar.test>".to_vec());
}

#[test]
fn access_guards_wrap_like_an_atomic_counter() {
    let mut r = Resource::sourceless_from_string("x".to_string());
    assert!(r.acquire_access_guard());
    r.release_access_guard();
    assert!(r.acquire_access_guard());
}
