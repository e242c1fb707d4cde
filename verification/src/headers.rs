//! Headers and the ordered map of the headers of a mail.
use vstd::prelude::*;
use crate::components::{ContentId, Disposition, Mailbox, MailboxList, MessageID, MessageIDList, PhraseList, Text,
    Unstructured};
use crate::date_time::DateTime;
use crate::error::{HeaderTypeError, HeaderValidationError};
use crate::file_buffer::TransferEncoding;
use crate::media_type::MediaType;
use crate::codec::{ascii_bytes, is_ascii_str, MailEncodable, MailEncoder};
use crate::error::EncodingError;

verus! {

/// The headers this crate knows.
#[derive(Debug, Clone, Copy, PartialEq, Eq, Hash, Structural)]
pub enum HeaderName {
    From,
    Sender,
    To,
    Cc,
    Bcc,
    ReplyTo,
    Subject,
    Comments,
    Keywords,
    Date,
    MessageId,
    InReplyTo,
    References,
    ContentType,
    ContentTransferEncoding,
    ContentId,
    ContentDescription,
    ContentDisposition,
}

/// The kinds of header bodies.
#[derive(Debug, Clone, Copy, PartialEq, Eq, Structural)]
pub enum BodyKind {
    Mailboxes,
    Mailbox,
    Unstructured,
    Text,
    Phrases,
    DateTime,
    MessageId,
    MessageIds,
    MediaType,
    TransferEncoding,
    ContentId,
    Disposition,
}

/// The body of a header.
#[derive(Debug, Clone)]
pub enum HeaderBody {
    Mailboxes(MailboxList),
    Mailbox(Mailbox),
    Unstructured(Unstructured),
    Text(Text),
    Phrases(PhraseList),
    DateTime(DateTime),
    MessageId(MessageID),
    MessageIds(MessageIDList),
    MediaType(MediaType),
    TransferEncoding(TransferEncoding),
    ContentId(ContentId),
    Disposition(Disposition),
}

pub open spec fn spec_body_kind(body: HeaderBody) -> BodyKind {
    match body {
        HeaderBody::Mailboxes(_) => BodyKind::Mailboxes,
        HeaderBody::Mailbox(_) => BodyKind::Mailbox,
        HeaderBody::Unstructured(_) => BodyKind::Unstructured,
        HeaderBody::Text(_) => BodyKind::Text,
        HeaderBody::Phrases(_) => BodyKind::Phrases,
        HeaderBody::DateTime(_) => BodyKind::DateTime,
        HeaderBody::MessageId(_) => BodyKind::MessageId,
        HeaderBody::MessageIds(_) => BodyKind::MessageIds,
        HeaderBody::MediaType(_) => BodyKind::MediaType,
        HeaderBody::TransferEncoding(_) => BodyKind::TransferEncoding,
        HeaderBody::ContentId(_) => BodyKind::ContentId,
        HeaderBody::Disposition(_) => BodyKind::Disposition,
    }
}

/// The kind of body each header has.
pub open spec fn spec_expected_kind(name: HeaderName) -> BodyKind {
    match name {
        HeaderName::From | HeaderName::To | HeaderName::Cc | HeaderName::Bcc
        | HeaderName::ReplyTo => BodyKind::Mailboxes,
        HeaderName::Sender => BodyKind::Mailbox,
        HeaderName::Subject | HeaderName::ContentDescription => BodyKind::Unstructured,
        HeaderName::Comments => BodyKind::Text,
        HeaderName::Keywords => BodyKind::Phrases,
        HeaderName::Date => BodyKind::DateTime,
        HeaderName::MessageId => BodyKind::MessageId,
        HeaderName::ContentId => BodyKind::ContentId,
        HeaderName::ContentDisposition => BodyKind::Disposition,
        HeaderName::InReplyTo | HeaderName::References => BodyKind::MessageIds,
        HeaderName::ContentType => BodyKind::MediaType,
        HeaderName::ContentTransferEncoding => BodyKind::TransferEncoding,
    }
}

impl HeaderBody {
    pub fn kind(&self) -> (r: BodyKind)
        ensures
            r == spec_body_kind(*self),
    {
        match self {
            HeaderBody::Mailboxes(_) => BodyKind::Mailboxes,
            HeaderBody::Mailbox(_) => BodyKind::Mailbox,
            HeaderBody::Unstructured(_) => BodyKind::Unstructured,
            HeaderBody::Text(_) => BodyKind::Text,
            HeaderBody::Phrases(_) => BodyKind::Phrases,
            HeaderBody::DateTime(_) => BodyKind::DateTime,
            HeaderBody::MessageId(_) => BodyKind::MessageId,
            HeaderBody::MessageIds(_) => BodyKind::MessageIds,
            HeaderBody::MediaType(_) => BodyKind::MediaType,
            HeaderBody::TransferEncoding(_) => BodyKind::TransferEncoding,
            HeaderBody::ContentId(_) => BodyKind::ContentId,
            HeaderBody::Disposition(_) => BodyKind::Disposition,
        }
    }
}

impl HeaderName {
    pub fn expected_kind(&self) -> (r: BodyKind)
        ensures
            r == spec_expected_kind(*self),
    {
        match self {
            HeaderName::From | HeaderName::To | HeaderName::Cc | HeaderName::Bcc
            | HeaderName::ReplyTo => BodyKind::Mailboxes,
            HeaderName::Sender => BodyKind::Mailbox,
            HeaderName::Subject | HeaderName::ContentDescription => BodyKind::Unstructured,
            HeaderName::Comments => BodyKind::Text,
            HeaderName::Keywords => BodyKind::Phrases,
            HeaderName::Date => BodyKind::DateTime,
            HeaderName::MessageId => BodyKind::MessageId,
        HeaderName::ContentId => BodyKind::ContentId,
        HeaderName::ContentDisposition => BodyKind::Disposition,
            HeaderName::InReplyTo | HeaderName::References => BodyKind::MessageIds,
            HeaderName::ContentType => BodyKind::MediaType,
            HeaderName::ContentTransferEncoding => BodyKind::TransferEncoding,
        }
    }

    /// The header's name as it appears in a mail.
    pub fn as_str(&self) -> (r: &'static str)
        ensures
            r@ == header_name_text(*self),
            is_ascii_str(r@),
    {
        match self {
            HeaderName::From => {
                proof {
                    reveal_strlit("From");
                }
                "From"
            },
            HeaderName::Sender => {
                proof {
                    reveal_strlit("Sender");
                }
                "Sender"
            },
            HeaderName::To => {
                proof {
                    reveal_strlit("To");
                }
                "To"
            },
            HeaderName::Cc => {
                proof {
                    reveal_strlit("Cc");
                }
                "Cc"
            },
            HeaderName::Bcc => {
                proof {
                    reveal_strlit("Bcc");
                }
                "Bcc"
            },
            HeaderName::ReplyTo => {
                proof {
                    reveal_strlit("Reply-To");
                }
                "Reply-To"
            },
            HeaderName::Subject => {
                proof {
                    reveal_strlit("Subject");
                }
                "Subject"
            },
            HeaderName::Comments => {
                proof {
                    reveal_strlit("Comments");
                }
                "Comments"
            },
            HeaderName::Keywords => {
                proof {
                    reveal_strlit("Keywords");
                }
                "Keywords"
            },
            HeaderName::Date => {
                proof {
                    reveal_strlit("Date");
                }
                "Date"
            },
            HeaderName::MessageId => {
                proof {
                    reveal_strlit("Message-Id");
                }
                "Message-Id"
            },
            HeaderName::InReplyTo => {
                proof {
                    reveal_strlit("In-Reply-To");
                }
                "In-Reply-To"
            },
            HeaderName::References => {
                proof {
                    reveal_strlit("References");
                }
                "References"
            },
            HeaderName::ContentType => {
                proof {
                    reveal_strlit("Content-Type");
                }
                "Content-Type"
            },
            HeaderName::ContentTransferEncoding => {
                proof {
                    reveal_strlit("Content-Transfer-Encoding");
                }
                "Content-Transfer-Encoding"
            },
            HeaderName::ContentId => {
                proof {
                    reveal_strlit("Content-Id");
                }
                "Content-Id"
            },
            HeaderName::ContentDescription => {
                proof {
                    reveal_strlit("Content-Description");
                }
                "Content-Description"
            },
            HeaderName::ContentDisposition => {
                proof {
                    reveal_strlit("Content-Disposition");
                }
                "Content-Disposition"
            },
        }
    }
}

/// The name of a header as it appears in a mail.
pub open spec fn header_name_text(name: HeaderName) -> Seq<char> {
    match name {
        HeaderName::From => "From"@,
        HeaderName::Sender => "Sender"@,
        HeaderName::To => "To"@,
        HeaderName::Cc => "Cc"@,
        HeaderName::Bcc => "Bcc"@,
        HeaderName::ReplyTo => "Reply-To"@,
        HeaderName::Subject => "Subject"@,
        HeaderName::Comments => "Comments"@,
        HeaderName::Keywords => "Keywords"@,
        HeaderName::Date => "Date"@,
        HeaderName::MessageId => "Message-Id"@,
        HeaderName::InReplyTo => "In-Reply-To"@,
        HeaderName::References => "References"@,
        HeaderName::ContentType => "Content-Type"@,
        HeaderName::ContentTransferEncoding => "Content-Transfer-Encoding"@,
        HeaderName::ContentId => "Content-Id"@,
        HeaderName::ContentDescription => "Content-Description"@,
        HeaderName::ContentDisposition => "Content-Disposition"@,
    }
}

/// The headers of a mail, in insertion order.
#[derive(Debug, Clone)]
pub struct HeaderMap {
    entries: Vec<(HeaderName, HeaderBody)>,
}

impl View for HeaderMap {
    type V = Seq<(HeaderName, HeaderBody)>;

    closed spec fn view(&self) -> Seq<(HeaderName, HeaderBody)> {
        self.entries@
    }
}

/// Whether a header with the name is in the headers.
pub open spec fn spec_contains(headers: Seq<(HeaderName, HeaderBody)>, name: HeaderName) -> bool {
    exists|i: int| 0 <= i < headers.len() && headers[i].0 == name
}

/// The index of the first header with the name.
pub open spec fn spec_first_index(headers: Seq<(HeaderName, HeaderBody)>, name: HeaderName) -> int {
    choose|i: int|
        0 <= i < headers.len() && headers[i].0 == name && forall|j: int|
            0 <= j < i ==> headers[j].0 != name
}

/// The body of the first header with the name.
pub open spec fn spec_get_single(headers: Seq<(HeaderName, HeaderBody)>, name: HeaderName) -> Option<
    HeaderBody,
> {
    if spec_contains(headers, name) {
        Some(headers[spec_first_index(headers, name)].1)
    } else {
        None
    }
}

/// The number of mailboxes in the `From` header, if there is one.
pub open spec fn spec_from_count(headers: Seq<(HeaderName, HeaderBody)>) -> Option<nat> {
    match spec_get_single(headers, HeaderName::From) {
        Some(HeaderBody::Mailboxes(list)) => Some(list.mailboxes().len()),
        _ => None,
    }
}

/// The contextual validation: a `From` header with more than one mailbox needs a `Sender` header.
pub open spec fn spec_contextually_valid(headers: Seq<(HeaderName, HeaderBody)>) -> bool {
    match spec_from_count(headers) {
        Some(n) => n > 1 ==> spec_contains(headers, HeaderName::Sender),
        None => true,
    }
}

proof fn lemma_first_index(headers: Seq<(HeaderName, HeaderBody)>, name: HeaderName, i: int)
    requires
        0 <= i < headers.len(),
        headers[i].0 == name,
        forall|j: int| 0 <= j < i ==> headers[j].0 != name,
    ensures
        spec_contains(headers, name),
        spec_first_index(headers, name) == i,
{
    let w = spec_first_index(headers, name);
    assert(0 <= w < headers.len() && headers[w].0 == name);
    if w < i {
        assert(headers[w].0 != name);
    }
    if w > i {
        assert(headers[i].0 != name);
    }
}

impl HeaderMap {
    /// An empty header map.
    pub fn new() -> (r: HeaderMap)
        ensures
            r@ == Seq::<(HeaderName, HeaderBody)>::empty(),
    {
        HeaderMap { entries: Vec::new() }
    }

    /// The number of headers.
    pub fn len(&self) -> (r: usize)
        ensures
            r == self@.len(),
    {
        self.entries.len()
    }

    /// Appends a header; fails (changing nothing) if the body has the wrong kind for the header.
    pub fn insert(&mut self, name: HeaderName, body: HeaderBody) -> (r: Result<(), HeaderTypeError>)
        ensures
            r is Ok <==> spec_body_kind(body) == spec_expected_kind(name),
            r is Ok ==> final(self)@ == old(self)@.push((name, body)),
            r is Err ==> final(self)@ == old(self)@,
    {
        if body.kind() != name.expected_kind() {
            return Err(HeaderTypeError { header_name: name.as_str().to_string() });
        }
        self.entries.push((name, body));
        Ok(())
    }

    /// Appends all headers of `other`.
    pub fn combine(&mut self, other: HeaderMap)
        ensures
            final(self)@ == old(self)@ + other@,
    {
        let mut other = other;
        self.entries.append(&mut other.entries);
    }

    /// Whether there is a header with the name.
    pub fn contains(&self, name: HeaderName) -> (r: bool)
        ensures
            r == spec_contains(self@, name),
    {
        let mut i: usize = 0;
        while i < self.entries.len()
            invariant
                i <= self@.len(),
                forall|j: int| 0 <= j < i ==> self@[j].0 != name,
            decreases self@.len() - i,
        {
            if self.entries[i].0 == name {
                return true;
            }
            i += 1;
        }
        false
    }

    /// The body of the first header with the name.
    pub fn get_single(&self, name: HeaderName) -> (r: Option<&HeaderBody>)
        ensures
            match (r, spec_get_single(self@, name)) {
                (Some(b), Some(b2)) => *b == b2,
                (None, None) => true,
                _ => false,
            },
    {
        let mut i: usize = 0;
        while i < self.entries.len()
            invariant
                i <= self@.len(),
                forall|j: int| 0 <= j < i ==> self@[j].0 != name,
            decreases self@.len() - i,
        {
            if self.entries[i].0 == name {
                proof {
                    lemma_first_index(self@, name, i as int);
                }
                return Some(&self.entries[i].1);
            }
            i += 1;
        }
        None
    }

    /// Runs the contextual validation of the headers: a `From` header with more than
    /// one mailbox needs a `Sender` header.
    pub fn use_contextual_validators(&self) -> (r: Result<(), HeaderValidationError>)
        ensures
            r is Ok <==> spec_contextually_valid(self@),
            r matches Err(e) ==> e == HeaderValidationError::MultiMailboxFromWithoutSender,
    {
        match self.get_single(HeaderName::From) {
            Some(HeaderBody::Mailboxes(list)) => {
                if list.as_slice().len() > 1 && !self.contains(HeaderName::Sender) {
                    return Err(HeaderValidationError::MultiMailboxFromWithoutSender);
                }
                Ok(())
            },
            _ => Ok(()),
        }
    }
}

} // verus!

verus! {

/// A header of the name exists, so a first one does.
proof fn lemma_first_exists(headers: Seq<(HeaderName, HeaderBody)>, name: HeaderName, k: int)
    requires
        0 <= k < headers.len(),
        headers[k].0 == name,
    ensures
        spec_contains(headers, name),
        0 <= spec_first_index(headers, name) < headers.len(),
        headers[spec_first_index(headers, name)].0 == name,
        forall|j: int| 0 <= j < spec_first_index(headers, name) ==> headers[j].0 != name,
    decreases k,
{
    if exists|j: int| 0 <= j < k && headers[j].0 == name {
        let j = choose|j: int| 0 <= j < k && headers[j].0 == name;
        lemma_first_exists(headers, name, j);
    } else {
        lemma_first_index(headers, name, k);
    }
}

/// Appending a header leaves what is read of every other header as it was.
pub proof fn lemma_get_single_after_push_other(
    headers: Seq<(HeaderName, HeaderBody)>,
    name: HeaderName,
    body: HeaderBody,
    other: HeaderName,
)
    requires
        other != name,
    ensures
        spec_contains(headers.push((name, body)), other) == spec_contains(headers, other),
        spec_get_single(headers.push((name, body)), other) == spec_get_single(headers, other),
{
    let new = headers.push((name, body));
    if spec_contains(headers, other) {
        let k = choose|k: int| 0 <= k < headers.len() && headers[k].0 == other;
        lemma_first_exists(headers, other, k);
        let i = spec_first_index(headers, other);
        assert forall|j: int| 0 <= j < i implies new[j].0 != other by {
            assert(new[j] == headers[j]);
        }
        assert(new[i] == headers[i]);
        lemma_first_index(new, other, i);
    } else {
        assert forall|j: int| 0 <= j < new.len() implies new[j].0 != other by {
            if j < headers.len() {
                assert(new[j] == headers[j]);
            }
        }
    }
}

/// Reading after a write: after a header is appended the map contains it, and
/// a single-header read gives the appended body unless an earlier header of
/// that name exists (whose body it keeps giving).
pub proof fn lemma_get_single_after_push(
    headers: Seq<(HeaderName, HeaderBody)>,
    name: HeaderName,
    body: HeaderBody,
)
    ensures
        spec_contains(headers.push((name, body)), name),
        !spec_contains(headers, name) ==> spec_get_single(headers.push((name, body)), name) == Some(body),
        spec_contains(headers, name) ==> spec_get_single(headers.push((name, body)), name) == spec_get_single(
            headers,
            name,
        ),
{
    let new = headers.push((name, body));
    let n = headers.len() as int;
    assert(new[n] == (name, body));
    if spec_contains(headers, name) {
        let k = choose|k: int| 0 <= k < headers.len() && headers[k].0 == name;
        lemma_first_exists(headers, name, k);
        let i = spec_first_index(headers, name);
        assert forall|j: int| 0 <= j < i implies new[j].0 != name by {
            assert(new[j] == headers[j]);
        }
        assert(new[i] == headers[i]);
        lemma_first_index(new, name, i);
    } else {
        assert forall|j: int| 0 <= j < n implies new[j].0 != name by {
            assert(new[j] == headers[j]);
        }
        lemma_first_index(new, name, n);
    }
}

} // verus!

verus! {

/// The bytes written for a header body (when writing it succeeds).
pub open spec fn header_body_bytes(body: HeaderBody, bits8_ok: bool) -> Seq<u8> {
    match body {
        HeaderBody::Mailboxes(l) => crate::components::mailboxes_bytes(l.mailboxes(), bits8_ok),
        HeaderBody::Mailbox(m) => crate::components::mailbox_bytes(m, bits8_ok),
        HeaderBody::Unstructured(u) => crate::components::text_bytes(u.text@),
        HeaderBody::Text(t) => crate::components::text_bytes(t.text@),
        HeaderBody::Phrases(p) => crate::components::phrases_bytes(p.0@, bits8_ok),
        HeaderBody::DateTime(d) => ascii_bytes(crate::date_time::rfc2822_text(d.secs, d.nanos)),
        HeaderBody::MessageId(id) => crate::components::message_id_bytes(id, bits8_ok),
        HeaderBody::MessageIds(l) => crate::components::message_ids_bytes(l.ids(), bits8_ok),
        HeaderBody::MediaType(m) => crate::components::utf8(crate::media_type::media_type_text(m@)),
        HeaderBody::TransferEncoding(e) => ascii_bytes(crate::file_buffer::transfer_encoding_name(e)),
        HeaderBody::ContentId(c) => seq![60u8] + crate::components::utf8(c@) + seq![62u8],
        HeaderBody::Disposition(d) => ascii_bytes(crate::components::disposition_name(d)),
    }
}

impl MailEncodable for HeaderBody {
    /// Writes the body with the encoding of its component.
    fn encode(&self, encoder: &mut MailEncoder) -> (r: Result<(), EncodingError>)
        ensures
            r is Ok ==> final(encoder)@.data == old(encoder)@.data + header_body_bytes(
                *self,
                old(encoder)@.bits8 != crate::codec::Bits8State::Unsupported,
            ),
            match *self {
                HeaderBody::Unstructured(_) | HeaderBody::Text(_) | HeaderBody::MessageIds(_)
                | HeaderBody::TransferEncoding(_) | HeaderBody::Disposition(_) => r is Ok,
                HeaderBody::DateTime(d) => r is Ok <==> crate::date_time::spec_rfc2822_representable(
                    d.secs,
                    d.nanos,
                ),
                HeaderBody::Phrases(p) => r is Err <==> p.0@.len() == 0,
                HeaderBody::MessageId(id) => r is Ok <==> (old(encoder)@.bits8
                    != crate::codec::Bits8State::Unsupported || crate::codec::is_7bit(
                    crate::components::email_bytes(id.email),
                )),
                HeaderBody::MediaType(m) => r is Ok <==> (old(encoder)@.bits8
                    != crate::codec::Bits8State::Unsupported || crate::codec::is_7bit(
                    crate::components::utf8(crate::media_type::media_type_text(m@)),
                )),
                HeaderBody::ContentId(c) => r is Ok <==> (old(encoder)@.bits8
                    != crate::codec::Bits8State::Unsupported || crate::codec::is_7bit(
                    crate::components::utf8(c@),
                )),
                HeaderBody::Mailbox(m) => r is Ok <==> crate::components::mailbox_encodable(
                    m,
                    old(encoder)@.bits8 != crate::codec::Bits8State::Unsupported,
                ),
                HeaderBody::Mailboxes(l) => r is Ok <==> forall|i: int| 0 <= i < l.mailboxes().len()
                    ==> crate::components::mailbox_encodable(
                    #[trigger] l.mailboxes()[i],
                    old(encoder)@.bits8 != crate::codec::Bits8State::Unsupported,
                ),
            },
    {
        match self {
            HeaderBody::Mailboxes(b) => b.encode(encoder),
            HeaderBody::Mailbox(b) => b.encode(encoder),
            HeaderBody::Unstructured(b) => b.encode(encoder),
            HeaderBody::Text(b) => b.encode(encoder),
            HeaderBody::Phrases(b) => b.encode(encoder),
            HeaderBody::DateTime(b) => b.encode(encoder),
            HeaderBody::MessageId(b) => b.encode(encoder),
            HeaderBody::MessageIds(b) => b.encode(encoder),
            HeaderBody::MediaType(b) => b.encode(encoder),
            HeaderBody::TransferEncoding(b) => b.encode(encoder),
            HeaderBody::ContentId(b) => b.encode(encoder),
            HeaderBody::Disposition(b) => b.encode(encoder),
        }
    }
}

/// Writes the header's name followed by a `:`.
pub fn encode_header_key(name: HeaderName, encoder: &mut MailEncoder)
    requires
        old(encoder).wf(),
    ensures
        final(encoder).wf(),
        final(encoder)@.data == old(encoder)@.data + ascii_bytes(header_name_text(name)) + seq![58u8],
        final(encoder)@.bits8 == old(encoder)@.bits8,
{
    encoder.write_str(name.as_str());
    encoder.write_char(':');
}

/// Writes a header: its name, a `:` and a (foldable) space, then the body.
pub fn encode_header(name: HeaderName, body: &HeaderBody, encoder: &mut MailEncoder) -> (r: Result<
    (),
    EncodingError,
>)
    requires
        old(encoder).wf(),
    ensures
        final(encoder).wf(),
        (old(encoder)@.data + ascii_bytes(header_name_text(name)) + seq![58u8, 32u8]).is_prefix_of(
            final(encoder)@.data,
        ),
        r is Ok ==> final(encoder)@.data == old(encoder)@.data + ascii_bytes(header_name_text(name)) + seq![
            58u8,
            32u8,
        ] + header_body_bytes(*body, old(encoder)@.bits8 != crate::codec::Bits8State::Unsupported),
        match *body {
            HeaderBody::Unstructured(_) | HeaderBody::Text(_) | HeaderBody::MessageIds(_)
            | HeaderBody::TransferEncoding(_) | HeaderBody::Disposition(_) => r is Ok,
            HeaderBody::DateTime(d) => r is Ok <==> crate::date_time::spec_rfc2822_representable(
                d.secs,
                d.nanos,
            ),
            HeaderBody::Phrases(p) => r is Err <==> p.0@.len() == 0,
            HeaderBody::MessageId(id) => r is Ok <==> (old(encoder)@.bits8
                != crate::codec::Bits8State::Unsupported || crate::codec::is_7bit(
                crate::components::email_bytes(id.email),
            )),
            HeaderBody::MediaType(m) => r is Ok <==> (old(encoder)@.bits8
                != crate::codec::Bits8State::Unsupported || crate::codec::is_7bit(
                crate::components::utf8(crate::media_type::media_type_text(m@)),
            )),
            HeaderBody::ContentId(c) => r is Ok <==> (old(encoder)@.bits8
                != crate::codec::Bits8State::Unsupported || crate::codec::is_7bit(
                crate::components::utf8(c@),
            )),
            HeaderBody::Mailbox(m) => r is Ok <==> crate::components::mailbox_encodable(
                m,
                old(encoder)@.bits8 != crate::codec::Bits8State::Unsupported,
            ),
            HeaderBody::Mailboxes(l) => r is Ok <==> forall|i: int| 0 <= i < l.mailboxes().len()
                ==> crate::components::mailbox_encodable(
                #[trigger] l.mailboxes()[i],
                old(encoder)@.bits8 != crate::codec::Bits8State::Unsupported,
            ),
        },
{
    let ghost start = encoder@.data;
    encode_header_key(name, encoder);
    encoder.write_fws();
    let ghost key = encoder@.data;
    assert(key == start + ascii_bytes(header_name_text(name)) + seq![58u8, 32u8]);
    let r = body.encode(encoder);
    r
}

} // verus!
