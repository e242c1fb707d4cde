//! Header components: emails, mailboxes, message ids, words, phrases and texts,
//! and how they are written into a `MailEncoder`.
use vstd::prelude::*;
use crate::char_validators::{is_atext, is_qtext, is_vchar, is_ws, spec_is_atext, spec_is_qtext,
    spec_is_vchar, spec_is_ws, MailType};
use crate::codec::{ascii_bytes, encoded_word, is_7bit, is_ascii_str, lemma_prefix_append, lemma_prefix_trans,
    puny_code_domain, Bits8State, MailEncodable, MailEncoder};
use crate::error::EncodingError;

verus! {

broadcast use vstd::string::group_string_axioms;

/// `String::push`.
#[verifier::external_body]
pub(crate) fn push_char(s: &mut String, c: char)
    ensures
        final(s)@ == old(s)@.push(c),
{
    s.push(c)
}

/// Whether all chars of a string are ascii.
pub fn str_is_ascii(s: &str) -> (r: bool)
    ensures
        r == is_ascii_str(s@),
{
    s.is_ascii()
}

/// The utf-8 bytes of a char sequence.
pub open spec fn utf8(s: Seq<char>) -> Seq<u8> {
    vstd::utf8::encode_utf8(s)
}

proof fn lemma_ascii_utf8(s: Seq<char>)
    requires
        is_ascii_str(s),
    ensures
        utf8(s) == ascii_bytes(s),
{
    vstd::utf8::is_ascii_chars_encode_utf8(s);
    assert(utf8(s) =~= ascii_bytes(s));
}

/// A text which is either known to be ascii or may contain any unicode char.
#[derive(Debug, PartialEq, Eq)]
pub enum SimpleItem {
    Ascii(String),
    Utf8(String),
}

impl Clone for SimpleItem {
    fn clone(&self) -> (r: Self)
        ensures
            r == *self,
    {
        match self {
            SimpleItem::Ascii(s) => SimpleItem::Ascii(s.clone()),
            SimpleItem::Utf8(s) => SimpleItem::Utf8(s.clone()),
        }
    }
}

impl SimpleItem {
    pub open spec fn text(&self) -> Seq<char> {
        match self {
            SimpleItem::Ascii(s) => s@,
            SimpleItem::Utf8(s) => s@,
        }
    }

    pub open spec fn wf(&self) -> bool {
        self matches SimpleItem::Ascii(s) ==> is_ascii_str(s@)
    }

    /// An ascii item if the text is ascii, else a utf-8 item.
    pub fn from_string(s: String) -> (r: SimpleItem)
        ensures
            r.wf(),
            r.text() == s@,
            r is Ascii <==> is_ascii_str(s@),
    {
        if str_is_ascii(s.as_str()) {
            SimpleItem::Ascii(s)
        } else {
            SimpleItem::Utf8(s)
        }
    }

    pub fn as_str(&self) -> (r: &str)
        ensures
            r@ == self.text(),
    {
        match self {
            SimpleItem::Ascii(s) => s.as_str(),
            SimpleItem::Utf8(s) => s.as_str(),
        }
    }
}

/// What writing text with `try_write_8bit_data` does to an encoder: it fails (and
/// writes nothing) if the bytes are not 7-bit and 8-bit data is unsupported.
pub open spec fn spec_try_write(old: crate::codec::EncoderView, new: crate::codec::EncoderView, bytes: Seq<u8>, ok: bool) -> bool {
    &&& ok <==> !(old.bits8 == Bits8State::Unsupported && !is_7bit(bytes))
    &&& ok ==> new.data == old.data + bytes && new.last_cfws == old.last_cfws && new.line_len
        == old.line_len + bytes.len() && new.bits8 == (if old.bits8 == Bits8State::Supported
        && !is_7bit(bytes) {
        Bits8State::Used
    } else {
        old.bits8
    })
    &&& !ok ==> new == old
}

/// Writes an item: ascii items directly, utf-8 items as 8-bit data.
fn encode_simple_item(item: &SimpleItem, encoder: &mut MailEncoder) -> (r: Result<(), EncodingError>)
    requires
        old(encoder).wf(),
        item.wf(),
    ensures
        final(encoder).wf(),
        item is Ascii ==> r is Ok,
        spec_try_write(old(encoder)@, final(encoder)@, utf8(item.text()), r is Ok),
{
    match item {
        SimpleItem::Ascii(ascii) => {
            proof {
                lemma_ascii_utf8(ascii@);
                assert(is_7bit(utf8(item.text())));
            }
            encoder.write_str(ascii.as_str());
            Ok(())
        },
        SimpleItem::Utf8(utf8) => {
            let bytes = utf8.as_str().as_bytes();
            encoder.try_write_8bit_data(bytes)
        },
    }
}

/// The local part of an email address (left of the `@`).
#[derive(Debug, PartialEq, Eq)]
pub struct LocalPart(SimpleItem);

impl Clone for LocalPart {
    fn clone(&self) -> (r: Self)
        ensures
            r == *self,
    {
        proof {
            use_type_invariant(self);
        }
        LocalPart(self.0.clone())
    }
}

/// The domain of an email address (right of the `@`).
#[derive(Debug, PartialEq, Eq)]
pub struct Domain(SimpleItem);

impl Clone for Domain {
    fn clone(&self) -> (r: Self)
        ensures
            r == *self,
    {
        proof {
            use_type_invariant(self);
        }
        Domain(self.0.clone())
    }
}

impl Domain {
    #[verifier::type_invariant]
    spec fn type_inv(self) -> bool {
        self.0.wf()
    }

    pub closed spec fn item(&self) -> SimpleItem {
        self.0
    }

    /// Creates a domain; ascii input becomes an ascii domain, anything else an
    /// internationalized one.
    pub fn from_input(input: String) -> (r: Domain)
        ensures
            r.item().text() == input@,
            r.item() is Ascii <==> is_ascii_str(input@),
    {
        Domain(SimpleItem::from_string(input))
    }

    /// The domain as string.
    pub fn as_str(&self) -> (r: &str)
        ensures
            r@ == self.item().text(),
    {
        self.0.as_str()
    }

    /// Whether the domain is an ascii domain.
    pub fn is_ascii(&self) -> (r: bool)
        ensures
            r == (self.item() is Ascii),
    {
        match &self.0 {
            SimpleItem::Ascii(_) => true,
            SimpleItem::Utf8(_) => false,
        }
    }
}

impl MailEncodable for LocalPart {
    /// Writes the local part; an internationalized local part is written as 8-bit data
    /// (failing if the encoder does not support 8-bit data).
    fn encode(&self, encoder: &mut MailEncoder) -> (r: Result<(), EncodingError>)
        ensures
            spec_try_write(old(encoder)@, final(encoder)@, utf8(self.item().text()), r is Ok),
    {
        proof {
            use_type_invariant(self);
        }
        encode_simple_item(&self.0, encoder)
    }
}

impl MailEncodable for Domain {
    /// Writes the domain; an internationalized domain is written as 8-bit data
    /// (failing if the encoder does not support 8-bit data, as it can not be punycoded).
    fn encode(&self, encoder: &mut MailEncoder) -> (r: Result<(), EncodingError>)
        ensures
            spec_try_write(old(encoder)@, final(encoder)@, utf8(self.item().text()), r is Ok),
    {
        proof {
            use_type_invariant(self);
        }
        match &self.0 {
            SimpleItem::Ascii(ascii) => {
                proof {
                    lemma_ascii_utf8(ascii@);
                }
                puny_code_domain(ascii.as_str(), encoder);
                Ok(())
            },
            SimpleItem::Utf8(_) => encode_simple_item(&self.0, encoder),
        }
    }
}

/// The bytes of an email.
pub open spec fn email_bytes(email: Email) -> Seq<u8> {
    utf8(email.local_part.item().text()) + seq![64u8] + utf8(email.domain.item().text())
}

/// What writing an email leaves behind when it fails: the local part and the
/// `@` if the local part could be written (it is the domain that failed).
pub open spec fn email_failure_bytes(email: Email) -> Seq<u8> {
    if is_7bit(utf8(email.local_part.item().text())) {
        utf8(email.local_part.item().text()) + seq![64u8]
    } else {
        Seq::empty()
    }
}

/// The bytes written for a message id: `<email>`, or what is left of it
/// when the email can not be written.
pub open spec fn message_id_bytes(id: MessageID, bits8_ok: bool) -> Seq<u8> {
    if bits8_ok || is_7bit(email_bytes(id.email)) {
        seq![60u8] + email_bytes(id.email) + seq![62u8]
    } else {
        seq![60u8] + email_failure_bytes(id.email)
    }
}

/// The bytes written for message ids, one after another.
pub open spec fn message_ids_bytes(ids: Seq<MessageID>, bits8_ok: bool) -> Seq<u8>
    decreases ids.len(),
{
    if ids.len() == 0 {
        Seq::empty()
    } else {
        message_ids_bytes(ids.drop_last(), bits8_ok) + message_id_bytes(ids.last(), bits8_ok)
    }
}

proof fn lemma_7bit_concat(a: Seq<u8>, b: Seq<u8>)
    ensures
        is_7bit(a + b) <==> is_7bit(a) && is_7bit(b),
{
    if is_7bit(a + b) {
        assert forall|i: int| 0 <= i < a.len() implies #[trigger] a[i] < 128 by {
            assert((a + b)[i] == a[i]);
        }
        assert forall|i: int| 0 <= i < b.len() implies #[trigger] b[i] < 128 by {
            assert((a + b)[a.len() + i] == b[i]);
        }
    }
}

impl MailEncodable for Email {
    /// Writes `local-part@domain`.
    ///
    /// Fails if the email is not ascii and the encoder does not support 8-bit data.
    fn encode(&self, encoder: &mut MailEncoder) -> (r: Result<(), EncodingError>)
        ensures
            r is Ok <==> (old(encoder)@.bits8 != Bits8State::Unsupported || is_7bit(
                email_bytes(*self),
            )),
            r is Ok ==> final(encoder)@.data == old(encoder)@.data + email_bytes(*self),
            r is Err ==> final(encoder)@.data == old(encoder)@.data + email_failure_bytes(*self),
            (final(encoder)@.bits8 == Bits8State::Unsupported) == (old(encoder)@.bits8
                == Bits8State::Unsupported),
    {
        let ghost lb = utf8(self.local_part.item().text());
        let ghost db = utf8(self.domain.item().text());
        proof {
            lemma_7bit_concat(lb, seq![64u8]);
            lemma_7bit_concat(lb + seq![64u8], db);
            assert(is_7bit(seq![64u8]));
        }
        self.local_part.encode(encoder)?;
        encoder.write_char('@');
        self.domain.encode(encoder)?;
        Ok(())
    }
}

/// A mailbox: an email with an optional display name.
#[derive(Debug, Clone)]
pub struct Mailbox {
    pub display_name: Option<Phrase>,
    pub email: Email,
}

impl Mailbox {
    /// A mailbox for the email with the given display name (if any).
    pub fn from_email(display_name: Option<Phrase>, email: Email) -> (r: Mailbox)
        ensures
            r.display_name == display_name,
            r.email == email,
    {
        Mailbox { display_name, email }
    }
}

/// The bytes written for a mailbox: `email`, or `display name <email>`.
pub open spec fn mailbox_bytes(mailbox: Mailbox, bits8_ok: bool) -> Seq<u8> {
    match mailbox.display_name {
        Some(name) => phrase_bytes(name, bits8_ok) + seq![32u8, 60u8] + email_bytes(mailbox.email)
            + seq![62u8],
        None => email_bytes(mailbox.email),
    }
}

/// The bytes written for mailboxes, separated by `, `.
pub open spec fn mailboxes_bytes(list: Seq<Mailbox>, bits8_ok: bool) -> Seq<u8>
    decreases list.len(),
{
    if list.len() == 0 {
        Seq::empty()
    } else if list.len() == 1 {
        mailbox_bytes(list[0], bits8_ok)
    } else {
        mailboxes_bytes(list.drop_last(), bits8_ok) + seq![44u8, 32u8] + mailbox_bytes(list.last(), bits8_ok)
    }
}

/// The bytes of a mailbox list: one mailbox is written alone, and each further
/// mailbox follows the ones before it after a comma and a space; a mailbox is
/// its email, or its display name, a space and the email in angle brackets.
pub proof fn lemma_mailbox_list_bytes(list: Seq<Mailbox>, bits8_ok: bool)
    ensures
        list.len() == 1 ==> mailboxes_bytes(list, bits8_ok) == mailbox_bytes(list[0], bits8_ok),
        list.len() >= 2 ==> mailboxes_bytes(list, bits8_ok) == mailboxes_bytes(list.drop_last(), bits8_ok)
            + seq![44u8, 32u8] + mailbox_bytes(list.last(), bits8_ok),
        list.len() == 2 ==> mailboxes_bytes(list, bits8_ok) == mailbox_bytes(list[0], bits8_ok) + seq![44u8, 32u8]
            + mailbox_bytes(list[1], bits8_ok),
        forall|m: Mailbox| #[trigger] mailbox_bytes(m, bits8_ok) == match m.display_name {
            Some(name) => phrase_bytes(name, bits8_ok) + seq![32u8, 60u8] + email_bytes(m.email) + seq![62u8],
            None => email_bytes(m.email),
        },
{
    if list.len() == 2 {
        let first = list.drop_last();
        assert(first.len() == 1);
        assert(first[0] == list[0]);
        assert(mailboxes_bytes(first, bits8_ok) == mailbox_bytes(list[0], bits8_ok));
        assert(list.last() == list[1]);
    }
}

/// A mailbox can be written: its email is 7-bit or 8-bit data is supported.
pub open spec fn mailbox_encodable(mailbox: Mailbox, bits8_ok: bool) -> bool {
    bits8_ok || is_7bit(email_bytes(mailbox.email))
}

impl MailEncodable for Mailbox {
    /// Writes `email` or `display name <email>`.
    fn encode(&self, encoder: &mut MailEncoder) -> (r: Result<(), EncodingError>)
        ensures
            r is Ok <==> mailbox_encodable(*self, old(encoder)@.bits8 != Bits8State::Unsupported),
            r is Ok ==> final(encoder)@.data == old(encoder)@.data + mailbox_bytes(
                *self,
                old(encoder)@.bits8 != Bits8State::Unsupported,
            ),
            (final(encoder)@.bits8 == Bits8State::Unsupported) == (old(encoder)@.bits8
                == Bits8State::Unsupported),
    {
        let ghost start = encoder@.data;
        let ghost ok8 = encoder@.bits8 != Bits8State::Unsupported;
        match &self.display_name {
            Some(name) => {
                let _ = name.encode(encoder);
                encoder.write_fws();
                encoder.write_char('<');
                let ghost mid = encoder@.data;
                assert(mid == start + phrase_bytes(*name, ok8) + seq![32u8, 60u8]);
                let ghost mid8 = encoder@.bits8;
                match self.email.encode(encoder) {
                    Ok(()) => {},
                    Err(e) => {
                        proof {
                            lemma_prefix_append(start, phrase_bytes(*name, ok8) + seq![32u8, 60u8]);
                            assert(start + (phrase_bytes(*name, ok8) + seq![32u8, 60u8]) == mid);
                            lemma_prefix_trans(start, mid, encoder@.data);
                        }
                        return Err(e);
                    },
                }
                encoder.write_char('>');
                proof {
                    lemma_prefix_append(start, mailbox_bytes(*self, ok8));
                }
            },
            None => {
                let r = self.email.encode(encoder);
                proof {
                    if r is Ok {
                        lemma_prefix_append(start, mailbox_bytes(*self, ok8));
                    }
                }
                return r;
            },
        }
        Ok(())
    }
}

/// A message id, `<local@domain>`.
#[derive(Debug, Clone)]
pub struct MessageID {
    pub email: Email,
}

impl MailEncodable for MessageID {
    /// Writes `<email>`.
    fn encode(&self, encoder: &mut MailEncoder) -> (r: Result<(), EncodingError>)
        ensures
            r is Ok <==> (old(encoder)@.bits8 != Bits8State::Unsupported || is_7bit(
                email_bytes(self.email),
            )),
            final(encoder)@.data == old(encoder)@.data + message_id_bytes(
                *self,
                old(encoder)@.bits8 != Bits8State::Unsupported,
            ),
            (final(encoder)@.bits8 == Bits8State::Unsupported) == (old(encoder)@.bits8
                == Bits8State::Unsupported),
    {
        let ghost start = encoder@.data;
        encoder.write_char('<');
        let r = self.email.encode(encoder);
        if r.is_err() {
            proof {
                lemma_prefix_append(start, message_id_bytes(*self, old(encoder)@.bits8 != Bits8State::Unsupported));
            }
            return r;
        }
        encoder.write_char('>');
        proof {
            lemma_prefix_append(start, message_id_bytes(*self, old(encoder)@.bits8 != Bits8State::Unsupported));
        }
        Ok(())
    }
}

/// The id under which an embedded resource is referred to (`cid:` URLs).
#[derive(Debug, Clone, PartialEq, Eq, Hash)]
pub struct ContentId(String);

impl View for ContentId {
    type V = Seq<char>;

    closed spec fn view(&self) -> Seq<char> {
        self.0@
    }
}

impl ContentId {
    /// A content id with the given text.
    pub fn new(id: String) -> (r: Self)
        ensures
            r@ == id@,
    {
        ContentId(id)
    }

    /// The text of the content id.
    pub fn as_str(&self) -> (r: &str)
        ensures
            r@ == self@,
    {
        self.0.as_str()
    }
}


impl MailEncodable for ContentId {
    /// Writes `<id>`; fails if the id is not ascii and the encoder does not
    /// support 8-bit data.
    fn encode(&self, encoder: &mut MailEncoder) -> (r: Result<(), EncodingError>)
        ensures
            r is Ok <==> (old(encoder)@.bits8 != Bits8State::Unsupported || is_7bit(utf8(self@))),
            r is Ok ==> final(encoder)@.data == old(encoder)@.data + seq![60u8] + utf8(self@) + seq![62u8],
            r is Err ==> final(encoder)@.data == old(encoder)@.data + seq![60u8],
    {
        let ghost start = encoder@.data;
        encoder.write_char('<');
        let ghost mid = encoder@.data;
        proof {
            lemma_prefix_append(start, seq![60u8]);
        }
        let r = encoder.try_write_8bit_data(self.as_str().as_bytes());
        if r.is_err() {
            proof {
                assert(is_7bit(seq![60u8]));
            }
            return r;
        }
        let ghost mid2 = encoder@.data;
        encoder.write_char('>');
        proof {
            lemma_prefix_append(mid, utf8(self@));
            lemma_prefix_trans(start, mid, mid2);
            lemma_prefix_append(mid2, seq![62u8]);
            lemma_prefix_trans(start, mid2, encoder@.data);
        }
        Ok(())
    }
}

/// The bytes written for an unstructured text: ascii text as is, other text
/// as encoded word.
pub open spec fn text_bytes(text: Seq<char>) -> Seq<u8> {
    if is_ascii_str(text) {
        ascii_bytes(text)
    } else {
        encoded_word(utf8(text))
    }
}

/// The name of a disposition as written in a header.
pub open spec fn disposition_name(d: Disposition) -> Seq<char> {
    match d {
        Disposition::Inline => seq!['i', 'n', 'l', 'i', 'n', 'e'],
        Disposition::Attachment => seq!['a', 't', 't', 'a', 'c', 'h', 'm', 'e', 'n', 't'],
    }
}

/// How a body is to be presented (RFC 2183): inline or as attachment.
#[derive(Debug, Clone, Copy, PartialEq, Eq, Structural)]
pub enum Disposition {
    Inline,
    Attachment,
}

impl MailEncodable for Disposition {
    /// Writes `inline` or `attachment`.
    fn encode(&self, encoder: &mut MailEncoder) -> (r: Result<(), EncodingError>)
        ensures
            r is Ok,
            final(encoder)@.data == old(encoder)@.data + ascii_bytes(match *self {
                Disposition::Inline => seq!['i', 'n', 'l', 'i', 'n', 'e'],
                Disposition::Attachment => seq!['a', 't', 't', 'a', 'c', 'h', 'm', 'e', 'n', 't'],
            }),
    {
        let ghost start = encoder@.data;
        match self {
            Disposition::Inline => {
                let t = "inline";
                proof {
                    reveal_strlit("inline");
                }
                assert(t@ == seq!['i', 'n', 'l', 'i', 'n', 'e']);
                encoder.write_str(t);
            },
            Disposition::Attachment => {
                let t = "attachment";
                proof {
                    reveal_strlit("attachment");
                }
                assert(t@ == seq!['a', 't', 't', 'a', 'c', 'h', 'm', 'e', 'n', 't']);
                encoder.write_str(t);
            },
        }
        proof {
            lemma_prefix_append(start, ascii_bytes(match *self {
                Disposition::Inline => seq!['i', 'n', 'l', 'i', 'n', 'e'],
                Disposition::Attachment => seq!['a', 't', 't', 'a', 'c', 'h', 'm', 'e', 'n', 't'],
            }));
        }
        Ok(())
    }
}

/// A non-empty list of message ids.
#[derive(Debug, Clone)]
pub struct MessageIDList(Vec<MessageID>);

impl MessageIDList {
    pub closed spec fn ids(&self) -> Seq<MessageID> {
        self.0@
    }

    /// A list holding just `first`.
    pub fn new_with_first(first: MessageID) -> (r: Self)
        ensures
            r.ids() == seq![first],
    {
        MessageIDList(vec![first])
    }

    /// A list of the given ids; fails if there are none.
    pub fn new(list: Vec<MessageID>) -> (r: Result<Self, EncodingError>)
        ensures
            r is Err <==> list@.len() == 0,
            r matches Err(e) ==> e == EncodingError::AtLeastOneElementIsRequired,
            r matches Ok(l) ==> l.ids() == list@,
    {
        if list.len() == 0 {
            Err(EncodingError::AtLeastOneElementIsRequired)
        } else {
            Ok(MessageIDList(list))
        }
    }

    /// Appends an id.
    pub fn push(&mut self, id: MessageID)
        ensures
            final(self).ids() == old(self).ids().push(id),
    {
        self.0.push(id)
    }
}

impl MailEncodable for MessageIDList {
    /// Writes all ids one after another; a failure to write an id is ignored
    /// (leaving what was written of it).
    fn encode(&self, encoder: &mut MailEncoder) -> (r: Result<(), EncodingError>)
        ensures
            r is Ok,
            final(encoder)@.data == old(encoder)@.data + message_ids_bytes(
                self.ids(),
                old(encoder)@.bits8 != Bits8State::Unsupported,
            ),
    {
        let ghost start = encoder@.data;
        let ghost ok8 = encoder@.bits8 != Bits8State::Unsupported;
        let ghost ids = self.0@;
        assert(start + Seq::<u8>::empty() =~= start);
        assert(ids.subrange(0, 0) =~= Seq::<MessageID>::empty());
        let mut i: usize = 0;
        while i < self.0.len()
            invariant
                encoder.wf(),
                ids == self.0@,
                i <= ids.len(),
                ok8 == (encoder@.bits8 != Bits8State::Unsupported),
                encoder@.data == start + message_ids_bytes(ids.subrange(0, i as int), ok8),
            decreases self.0@.len() - i,
        {
            let _ = self.0[i].encode(encoder);
            proof {
                let p = ids.subrange(0, i + 1);
                assert(p.drop_last() =~= ids.subrange(0, i as int));
                assert(p.last() == ids[i as int]);
            }
            i += 1;
        }
        assert(ids.subrange(0, ids.len() as int) =~= ids);
        proof {
            lemma_prefix_append(start, message_ids_bytes(ids, ok8));
        }
        Ok(())
    }
}

/// An email of the form `local-part@domain` (RFC 5322 addr-spec, without `<`, `>`).
#[derive(Debug, Clone, PartialEq, Eq)]
pub struct Email {
    pub local_part: LocalPart,
    pub domain: Domain,
}

impl LocalPart {
    #[verifier::type_invariant]
    spec fn type_inv(self) -> bool {
        self.0.wf()
    }

    pub closed spec fn item(&self) -> SimpleItem {
        self.0
    }

    /// A local part holding `text` as it is, without checking or quoting it (for
    /// text made from a template, such as generated ids).
    pub(crate) fn from_template(text: String) -> (r: LocalPart)
        ensures
            r.item().text() == text@,
            r.item() is Ascii <==> is_ascii_str(text@),
    {
        LocalPart(SimpleItem::from_string(text))
    }

    /// Whether the local part needs quoting (some char is not even internationalized
    /// atext) and whether it is internationalized (some char is not ascii atext).
    pub open spec fn spec_classify(input: Seq<char>) -> (bool, MailType) {
        (
            exists|i: int| 0 <= i < input.len() && !spec_is_atext(#[trigger] input[i], MailType::Internationalized),
            if exists|i: int| 0 <= i < input.len() && !spec_is_atext(#[trigger] input[i], MailType::Ascii) {
                MailType::Internationalized
            } else {
                MailType::Ascii
            },
        )
    }

    /// Creates a local part, quoting the input if it contains chars which are not atext.
    ///
    /// The local part is internationalized if any char is not ascii atext, and ascii
    /// otherwise (then the input is ascii atext only).
    pub fn from_input(input: String) -> (r: Result<LocalPart, EncodingError>)
        ensures
            ({
                let (needs_quoting, mail_type) = Self::spec_classify(input@);
                let text = if needs_quoting {
                    spec_quote(input@)
                } else {
                    Ok(input@)
                };
                match (r, text) {
                    (Ok(lp), Ok(t)) => lp.item().text() == t && (lp.item() is Ascii <==> mail_type
                        == MailType::Ascii),
                    (Err(e), Err(e2)) => e == e2,
                    _ => false,
                }
            }),
    {
        let mut requires_quoting = false;
        let mut mail_type = MailType::Ascii;
        let len = input.as_str().unicode_len();
        let mut i: usize = 0;
        while i < len
            invariant
                i <= len,
                len == input@.len(),
                (requires_quoting, mail_type) == Self::spec_classify(input@.subrange(0, i as int)),
                requires_quoting ==> mail_type == MailType::Internationalized,
            decreases len - i,
        {
            let ch = input.as_str().get_char(i);
            let ghost pre = input@.subrange(0, i as int);
            let ghost next = input@.subrange(0, i + 1);
            assert forall|k: int| 0 <= k < i implies #[trigger] next[k] == pre[k] by {}
            assert(next[i as int] == ch);
            if !is_atext(ch, mail_type) {
                mail_type = MailType::Internationalized;
                if !is_atext(ch, mail_type) {
                    requires_quoting = true;
                }
            }
            proof {
                if spec_is_atext(ch, MailType::Ascii) {
                    assert(spec_is_atext(ch, MailType::Internationalized));
                }
                if exists|k: int| 0 <= k < next.len() && !spec_is_atext(#[trigger] next[k], MailType::Ascii) {
                    let k = choose|k: int| 0 <= k < next.len() && !spec_is_atext(#[trigger] next[k], MailType::Ascii);
                    if k < i {
                        assert(!spec_is_atext(pre[k], MailType::Ascii));
                    }
                }
                if exists|k: int| 0 <= k < next.len() && !spec_is_atext(#[trigger] next[k], MailType::Internationalized) {
                    let k = choose|k: int| 0 <= k < next.len() && !spec_is_atext(#[trigger] next[k], MailType::Internationalized);
                    if k < i {
                        assert(!spec_is_atext(pre[k], MailType::Internationalized));
                    }
                }
                if exists|k: int| 0 <= k < pre.len() && !spec_is_atext(#[trigger] pre[k], MailType::Ascii) {
                    let k = choose|k: int| 0 <= k < pre.len() && !spec_is_atext(#[trigger] pre[k], MailType::Ascii);
                    assert(!spec_is_atext(next[k], MailType::Ascii));
                }
                if exists|k: int| 0 <= k < pre.len() && !spec_is_atext(#[trigger] pre[k], MailType::Internationalized) {
                    let k = choose|k: int| 0 <= k < pre.len() && !spec_is_atext(#[trigger] pre[k], MailType::Internationalized);
                    assert(!spec_is_atext(next[k], MailType::Internationalized));
                }
            }
            i += 1;
        }
        assert(input@.subrange(0, len as int) == input@);
        let new_input = if requires_quoting {
            match quote(input.as_str()) {
                Ok(q) => q,
                Err(e) => return Err(e),
            }
        } else {
            input
        };
        match mail_type {
            MailType::Internationalized => Ok(LocalPart(SimpleItem::Utf8(new_input))),
            MailType::Ascii => {
                assert(Self::spec_classify(input@).1 == MailType::Ascii);
                proof {
                    lemma_classify_ascii(input@);
                }
                assert(new_input@ == input@);
                Ok(LocalPart(SimpleItem::Ascii(new_input)))
            },
        }
    }
}

/// A local part classified as ascii consists of ascii atext only.
proof fn lemma_classify_ascii(input: Seq<char>)
    ensures
        LocalPart::spec_classify(input).1 == MailType::Ascii ==> is_ascii_str(input),
{
    if LocalPart::spec_classify(input).1 == MailType::Ascii {
        assert forall|i: int| 0 <= i < input.len() implies '\0' <= #[trigger] input[i] <= '\u{7f}' by {
            assert(spec_is_atext(input[i], MailType::Ascii));
        }
    }
}

/// Quoting: qtext is kept, other visible chars and whitespace are escaped with `\`,
/// anything else can not be quoted.
pub open spec fn spec_quote(input: Seq<char>) -> Result<Seq<char>, EncodingError>
    decreases input.len(),
{
    if input.len() == 0 {
        Ok(Seq::empty())
    } else {
        match spec_quote(input.drop_last()) {
            Err(e) => Err(e),
            Ok(q) => {
                let ch = input.last();
                if spec_is_qtext(ch, MailType::Internationalized) {
                    Ok(q.push(ch))
                } else if spec_is_vchar(ch, MailType::Internationalized) || spec_is_ws(ch) {
                    Ok(q.push('\\').push(ch))
                } else {
                    Err(EncodingError::CanNotQuote)
                }
            },
        }
    }
}

fn quote(input: &str) -> (r: Result<String, EncodingError>)
    ensures
        match (r, spec_quote(input@)) {
            (Ok(s), Ok(q)) => s@ == q,
            (Err(e), Err(e2)) => e == e2,
            _ => false,
        },
{
    let mut out = String::new();
    let len = input.unicode_len();
    let mut i: usize = 0;
    while i < len
        invariant
            i <= len,
            len == input@.len(),
            spec_quote(input@.subrange(0, i as int)) == Ok::<Seq<char>, EncodingError>(out@),
        decreases len - i,
    {
        let ch = input.get_char(i);
        assert(input@.subrange(0, i + 1).drop_last() == input@.subrange(0, i as int));
        if is_qtext(ch, MailType::Internationalized) {
            push_char(&mut out, ch);
        } else {
            if is_vchar(ch, MailType::Internationalized) || is_ws(ch) {
                push_char(&mut out, '\\');
                push_char(&mut out, ch);
            } else {
                proof {
                    assert(spec_quote(input@.subrange(0, i + 1)) == Err::<Seq<char>, EncodingError>(
                        EncodingError::CanNotQuote,
                    ));
                    lemma_quote_err_extends(input@, i + 1);
                }
                return Err(EncodingError::CanNotQuote);
            }
        }
        i += 1;
    }
    assert(input@.subrange(0, len as int) == input@);
    Ok(out)
}

proof fn lemma_quote_err_extends(input: Seq<char>, k: int)
    requires
        0 <= k <= input.len(),
        spec_quote(input.subrange(0, k)) == Err::<Seq<char>, EncodingError>(
            EncodingError::CanNotQuote,
        ),
    ensures
        spec_quote(input) == Err::<Seq<char>, EncodingError>(EncodingError::CanNotQuote),
    decreases input.len() - k,
{
    if k == input.len() {
        assert(input.subrange(0, k) == input);
    } else {
        assert(input.subrange(0, k + 1).drop_last() == input.subrange(0, k));
        lemma_quote_err_extends(input, k + 1);
    }
}


/// Comments and folding white space; only the single folding space is supported.
#[derive(Debug, Clone, Copy, PartialEq, Eq, Structural)]
pub enum CFWS {
    SingleFws,
}

impl MailEncodable for CFWS {
    /// Writes a folding space.
    fn encode(&self, encoder: &mut MailEncoder) -> (r: Result<(), EncodingError>)
        ensures
            r is Ok,
            final(encoder)@.data == old(encoder)@.data.push(32u8),
            final(encoder)@.last_cfws == Some(old(encoder)@.data.len()),
            final(encoder)@.bits8 == old(encoder)@.bits8,
    {
        encoder.write_fws();
        Ok(())
    }
}

/// The text of a word: ascii, already encoded (an encoded word or quoted string), or utf-8.
#[derive(Debug, PartialEq, Eq)]
pub enum Item {
    Ascii(String),
    Encoded(String),
    Utf8(String),
}

impl Clone for Item {
    fn clone(&self) -> (r: Self)
        ensures
            r == *self,
    {
        match self {
            Item::Ascii(s) => Item::Ascii(s.clone()),
            Item::Encoded(s) => Item::Encoded(s.clone()),
            Item::Utf8(s) => Item::Utf8(s.clone()),
        }
    }
}

pub open spec fn is_printable_ascii(c: char) -> bool {
    '!' <= c && c <= '~'
}

/// An already encoded text: an encoded word (`=?...?=`) of printable ascii chars, or
/// a quoted string (`"..."`) of printable ascii chars, spaces and tabs.
pub open spec fn spec_is_encoded_text(t: Seq<char>) -> bool {
    ||| (t.len() >= 4 && t[0] == '=' && t[1] == '?' && t[t.len() - 2] == '?' && t[t.len() - 1]
        == '=' && forall|i: int| 0 <= i < t.len() ==> is_printable_ascii(#[trigger] t[i]))
    ||| (t.len() >= 2 && t[0] == '"' && t[t.len() - 1] == '"' && forall|i: int|
        0 <= i < t.len() ==> is_printable_ascii(#[trigger] t[i]) || t[i] == ' ' || t[i] == '\t')
}

impl Item {
    pub open spec fn text(&self) -> Seq<char> {
        match self {
            Item::Ascii(s) => s@,
            Item::Encoded(s) => s@,
            Item::Utf8(s) => s@,
        }
    }

    /// Whether the item may be used as word of a phrase.
    pub open spec fn spec_valid_word(&self) -> bool {
        match self {
            Item::Ascii(s) => forall|i: int|
                0 <= i < s@.len() ==> '\0' <= #[trigger] s@[i] <= '\u{7f}' && spec_is_atext(
                    s@[i],
                    MailType::Ascii,
                ),
            Item::Encoded(s) => spec_is_encoded_text(s@),
            Item::Utf8(s) => forall|i: int|
                0 <= i < s@.len() ==> spec_is_atext(#[trigger] s@[i], MailType::Internationalized),
        }
    }
}

fn all_chars_atext(s: &str, tp: MailType, ascii_only: bool) -> (r: bool)
    ensures
        r == forall|i: int|
            0 <= i < s@.len() ==> (!ascii_only || '\0' <= #[trigger] s@[i] <= '\u{7f}')
                && spec_is_atext(s@[i], tp),
{
    let len = s.unicode_len();
    let mut i: usize = 0;
    while i < len
        invariant
            i <= len,
            len == s@.len(),
            forall|k: int|
                0 <= k < i ==> (!ascii_only || '\0' <= #[trigger] s@[k] <= '\u{7f}')
                    && spec_is_atext(s@[k], tp),
        decreases len - i,
    {
        let ch = s.get_char(i);
        if !((!ascii_only || ch <= '\u{7f}') && is_atext(ch, tp)) {
            return false;
        }
        i += 1;
    }
    true
}

fn is_encoded_text(s: &str) -> (r: bool)
    ensures
        r == spec_is_encoded_text(s@),
{
    let len = s.unicode_len();
    if len >= 4 && s.get_char(0) == '=' && s.get_char(1) == '?' && s.get_char(len - 2) == '?'
        && s.get_char(len - 1) == '=' {
        let mut i: usize = 0;
        let mut ok = true;
        while i < len
            invariant
                i <= len,
                len == s@.len(),
                ok == forall|k: int| 0 <= k < i ==> is_printable_ascii(#[trigger] s@[k]),
            decreases len - i,
        {
            let c = s.get_char(i);
            ok = ok && '!' <= c && c <= '~';
            i += 1;
        }
        if ok {
            return true;
        }
    }
    if len >= 2 && s.get_char(0) == '"' && s.get_char(len - 1) == '"' {
        let mut i: usize = 0;
        let mut ok = true;
        while i < len
            invariant
                i <= len,
                len == s@.len(),
                ok == forall|k: int|
                    0 <= k < i ==> is_printable_ascii(#[trigger] s@[k]) || s@[k] == ' ' || s@[k]
                        == '\t',
            decreases len - i,
        {
            let c = s.get_char(i);
            ok = ok && (('!' <= c && c <= '~') || c == ' ' || c == '\t');
            i += 1;
        }
        return ok;
    }
    false
}

/// A word of a phrase: an item with optional padding.
#[derive(Debug)]
pub struct Word(Option<CFWS>, Item, Option<CFWS>);

impl Clone for Word {
    fn clone(&self) -> (r: Self)
        ensures
            r == *self,
    {
        proof {
            use_type_invariant(self);
        }
        Word(self.0, self.1.clone(), self.2)
    }
}

impl Word {
    #[verifier::type_invariant]
    spec fn type_inv(self) -> bool {
        self.1.spec_valid_word()
    }

    pub closed spec fn item(&self) -> Item {
        self.1
    }

    pub closed spec fn left_padding(&self) -> Option<CFWS> {
        self.0
    }

    pub closed spec fn right_padding(&self) -> Option<CFWS> {
        self.2
    }

    /// Checks that the item can be used as word: ascii items must be ascii atext,
    /// utf-8 items internationalized atext and encoded items encoded words or quoted strings.
    pub fn check_item_validity(item: &Item) -> (r: Result<(), EncodingError>)
        ensures
            r is Ok <==> item.spec_valid_word(),
            r matches Err(e) ==> e == EncodingError::InvalidWord,
    {
        let ok = match item {
            Item::Ascii(ascii) => all_chars_atext(ascii.as_str(), MailType::Ascii, true),
            Item::Encoded(encoded) => is_encoded_text(encoded.as_str()),
            Item::Utf8(international) => all_chars_atext(
                international.as_str(),
                MailType::Internationalized,
                false,
            ),
        };
        if ok {
            Ok(())
        } else {
            Err(EncodingError::InvalidWord)
        }
    }

    /// A word without padding; fails for items which are not valid words.
    pub fn new(item: Item) -> (r: Result<Self, EncodingError>)
        ensures
            r is Ok <==> item.spec_valid_word(),
            r matches Ok(w) ==> w.item() == item && w.left_padding() is None
                && w.right_padding() is None,
            r matches Err(e) ==> e == EncodingError::InvalidWord,
    {
        Self::check_item_validity(&item)?;
        Ok(Word(None, item, None))
    }

    /// A word with the given padding; fails for items which are not valid words.
    pub fn from_parts(left_padding: Option<CFWS>, item: Item, right_padding: Option<CFWS>) -> (r:
        Result<Self, EncodingError>)
        ensures
            r is Ok <==> item.spec_valid_word(),
            r matches Ok(w) ==> w.item() == item && w.left_padding() == left_padding
                && w.right_padding() == right_padding,
            r matches Err(e) ==> e == EncodingError::InvalidWord,
    {
        Self::check_item_validity(&item)?;
        Ok(Word(left_padding, item, right_padding))
    }

    pub fn pad_left(&mut self, padding: CFWS)
        ensures
            final(self).left_padding() == Some(padding),
            final(self).item() == old(self).item(),
            final(self).right_padding() == old(self).right_padding(),
    {
        proof {
            use_type_invariant(&*self);
        }
        self.0 = Some(padding)
    }

    pub fn pad_right(&mut self, padding: CFWS)
        ensures
            final(self).right_padding() == Some(padding),
            final(self).item() == old(self).item(),
            final(self).left_padding() == old(self).left_padding(),
    {
        proof {
            use_type_invariant(&*self);
        }
        self.2 = Some(padding)
    }
}

fn starts_with_encoded_word_marker(s: &str) -> (r: bool)
    ensures
        r == (s@.len() >= 2 && s@[0] == '=' && s@[1] == '?'),
{
    s.unicode_len() >= 2 && s.get_char(0) == '=' && s.get_char(1) == '?'
}

/// The bytes written for an item: ascii text as is (unless it starts like an
/// encoded word, then as encoded word), encoded text as is, utf-8 text as is
/// where 8-bit data is supported and as encoded word elsewhere.
pub open spec fn item_bytes(item: Item, bits8_ok: bool) -> Seq<u8> {
    match item {
        Item::Ascii(s) => if s@.len() >= 2 && s@[0] == '=' && s@[1] == '?' {
            encoded_word(utf8(s@))
        } else {
            ascii_bytes(s@)
        },
        Item::Encoded(s) => ascii_bytes(s@),
        Item::Utf8(s) => if bits8_ok {
            utf8(s@)
        } else {
            encoded_word(utf8(s@))
        },
    }
}

/// The bytes of a padding: a space if there is one.
pub open spec fn pad_bytes(pad: Option<CFWS>) -> Seq<u8> {
    match pad {
        Some(_) => seq![32u8],
        None => Seq::empty(),
    }
}

/// The bytes written for a word.
pub open spec fn word_bytes(word: Word, bits8_ok: bool) -> Seq<u8> {
    pad_bytes(word.left_padding()) + item_bytes(word.item(), bits8_ok) + pad_bytes(word.right_padding())
}

/// Writes a word with its padding: ascii text starting like an encoded word and
/// utf-8 text (unless 8-bit data is supported) are written as encoded words.
pub fn mail_encode_word(word: &Word, encoder: &mut MailEncoder) -> (r: Result<(), EncodingError>)
    requires
        old(encoder).wf(),
    ensures
        final(encoder).wf(),
        old(encoder)@.data.is_prefix_of(final(encoder)@.data),
        r is Ok,
        final(encoder)@.data == old(encoder)@.data + word_bytes(
            *word,
            old(encoder)@.bits8 != Bits8State::Unsupported,
        ),
        (final(encoder)@.bits8 == Bits8State::Unsupported) == (old(encoder)@.bits8 == Bits8State::Unsupported),
{
    proof {
        use_type_invariant(word);
    }
    let ghost start = encoder@.data;
    let ghost ok8 = encoder@.bits8 != Bits8State::Unsupported;
    if let Some(pad) = &word.0 {
        let _ = pad.encode(encoder);
    }
    let ghost mid = encoder@.data;
    assert(mid == start + pad_bytes(word.left_padding()));
    match &word.1 {
        Item::Ascii(ascii) => {
            if starts_with_encoded_word_marker(ascii.as_str()) {
                encoder.write_encoded_word(ascii.as_str());
            } else {
                encoder.write_str(ascii.as_str());
            }
        },
        Item::Encoded(enc) => {
            encoder.write_str(enc.as_str());
        },
        Item::Utf8(utf8) => {
            if encoder.bits8_support().is_supported() {
                let bytes = utf8.as_str().as_bytes();
                assert(bytes@ == vstd::utf8::encode_utf8(utf8@));
                let _ = encoder.try_write_8bit_data(bytes);
            } else {
                encoder.write_encoded_word(utf8.as_str());
            }
        },
    }
    let ghost mid2 = encoder@.data;
    assert(mid2 == mid + item_bytes(word.item(), ok8));
    if let Some(pad) = &word.2 {
        let _ = pad.encode(encoder);
    }
    assert(encoder@.data == mid2 + pad_bytes(word.right_padding()));
    proof {
        lemma_prefix_append(start, word_bytes(*word, ok8));
    }
    Ok(())
}

/// How a phrase is given: as (a non-empty sequence of) words, or as input text
/// which is split into words when written.
#[derive(Debug, Clone)]
pub enum PhraseKind {
    ItemBased(Vec<Word>),
    InputBased(String),
}

/// A phrase (e.g. a display name).
#[derive(Debug, Clone)]
pub struct Phrase(PhraseKind);

impl Phrase {
    pub closed spec fn kind(&self) -> PhraseKind {
        self.0
    }

    /// A phrase of the given (non-empty) words.
    pub fn from_words(words: Vec<Word>) -> (r: Self)
        requires
            words@.len() > 0,
        ensures
            r.kind() matches PhraseKind::ItemBased(w) && w@ == words@,
    {
        Phrase(PhraseKind::ItemBased(words))
    }

    /// A phrase of input text: when written, its whitespace is kept and each
    /// word is written as it is if it is atext, else as encoded word.
    pub fn from_input(text: String) -> (r: Self)
        ensures
            r.kind() matches PhraseKind::InputBased(t) && t@ == text@,
    {
        Phrase(PhraseKind::InputBased(text))
    }
}

/// The mail type of an encoder: internationalized where 8-bit data is supported.
pub open spec fn encoder_mail_type(bits8_ok: bool) -> MailType {
    if bits8_ok {
        MailType::Internationalized
    } else {
        MailType::Ascii
    }
}

/// The end of the run of whitespace (`ws`) or non-whitespace chars going on at `j`.
pub open spec fn run_end(text: Seq<char>, j: int, ws: bool) -> int
    decreases text.len() - j,
{
    if 0 <= j < text.len() && spec_is_ws(text[j]) == ws {
        run_end(text, j + 1, ws)
    } else {
        j
    }
}

pub proof fn lemma_run_end(text: Seq<char>, j: int, ws: bool)
    requires
        0 <= j <= text.len(),
    ensures
        j <= run_end(text, j, ws) <= text.len(),
        forall|k: int| j <= k < run_end(text, j, ws) ==> spec_is_ws(#[trigger] text[k]) == ws,
    decreases text.len() - j,
{
    if j < text.len() && spec_is_ws(text[j]) == ws {
        lemma_run_end(text, j + 1, ws);
    }
}

/// The bytes written for a word of an input-based phrase: the word as it is if
/// all its chars are atext (for the mail type), else an encoded word.
pub open spec fn input_word_bytes(word: Seq<char>, bits8_ok: bool) -> Seq<u8> {
    if forall|k: int| 0 <= k < word.len() ==> spec_is_atext(#[trigger] word[k], encoder_mail_type(bits8_ok)) {
        utf8(word)
    } else {
        encoded_word(utf8(word))
    }
}

/// The bytes written for the rest (from `i` on) of the text of an input-based
/// phrase: runs of whitespace as they are, words as by `input_word_bytes`.
pub open spec fn input_phrase_bytes_from(text: Seq<char>, i: int, bits8_ok: bool) -> Seq<u8>
    decreases text.len() - i,
{
    if i < 0 || i >= text.len() {
        Seq::empty()
    } else {
        let ws = spec_is_ws(text[i]);
        let j = run_end(text, i + 1, ws);
        proof {
            lemma_run_end(text, i + 1, ws);
        }
        let part = text.subrange(i, j);
        (if ws {
            ascii_bytes(part)
        } else {
            input_word_bytes(part, bits8_ok)
        }) + input_phrase_bytes_from(text, j, bits8_ok)
    }
}

/// The bytes written for a phrase.
pub open spec fn phrase_bytes(phrase: Phrase, bits8_ok: bool) -> Seq<u8> {
    match phrase.kind() {
        PhraseKind::ItemBased(words) => words_bytes(words@, bits8_ok),
        PhraseKind::InputBased(text) => input_phrase_bytes_from(text@, 0, bits8_ok),
    }
}

/// Writes the text of an input-based phrase: runs of whitespace as they are,
/// each word as it is if all its chars are atext for the mail type, else as
/// encoded word.
fn encode_input_phrase(text: &str, encoder: &mut MailEncoder)
    requires
        old(encoder).wf(),
    ensures
        final(encoder).wf(),
        final(encoder)@.data == old(encoder)@.data + input_phrase_bytes_from(
            text@,
            0,
            old(encoder)@.bits8 != Bits8State::Unsupported,
        ),
        (final(encoder)@.bits8 == Bits8State::Unsupported) == (old(encoder)@.bits8 == Bits8State::Unsupported),
{
    let ghost start = encoder@.data;
    let ghost t = text@;
    let ok8 = encoder.bits8_support().is_supported();
    let mail_type = if ok8 {
        MailType::Internationalized
    } else {
        MailType::Ascii
    };
    let n = text.unicode_len();
    let mut i: usize = 0;
    assert(start + Seq::<u8>::empty() =~= start);
    while i < n
        invariant
            encoder.wf(),
            t == text@,
            n == t.len(),
            i <= n,
            ok8 == (encoder@.bits8 != Bits8State::Unsupported),
            ok8 == (old(encoder)@.bits8 != Bits8State::Unsupported),
            mail_type == encoder_mail_type(ok8),
            encoder@.data + input_phrase_bytes_from(t, i as int, ok8) == start + input_phrase_bytes_from(t, 0, ok8),
        decreases n - i,
    {
        let c = text.get_char(i);
        let ws = is_ws(c);
        let mut part = String::new();
        assert(part@ =~= Seq::<char>::empty());
        push_char(&mut part, c);
        let mut all_atext = is_atext(c, mail_type);
        let mut j = i + 1;
        proof {
            lemma_run_end(t, i + 1, ws);
        }
        assert(part@ =~= t.subrange(i as int, j as int));
        while j < n && is_ws(text.get_char(j)) == ws
            invariant
                t == text@,
                n == t.len(),
                i < j <= n,
                ws == spec_is_ws(t[i as int]),
                part@ == t.subrange(i as int, j as int),
                run_end(t, j as int, ws) == run_end(t, i + 1, ws),
                all_atext == forall|k: int| i <= k < j ==> spec_is_atext(#[trigger] t[k], mail_type),
                forall|k: int| i <= k < j ==> spec_is_ws(#[trigger] t[k]) == ws,
            decreases n - j,
        {
            let d = text.get_char(j);
            push_char(&mut part, d);
            all_atext = all_atext && is_atext(d, mail_type);
            assert(part@ =~= t.subrange(i as int, j + 1));
            j += 1;
        }
        let ghost p = t.subrange(i as int, j as int);
        assert(run_end(t, j as int, ws) == j);
        let ghost before = encoder@.data;
        if ws {
            assert(is_ascii_str(part@)) by {
                assert(forall|k: int| 0 <= k < p.len() ==> #[trigger] p[k] == t[i + k]);
                assert(forall|k: int| 0 <= k < p.len() ==> spec_is_ws(#[trigger] p[k]));
            }
            encoder.write_str(part.as_str());
        } else if all_atext {
            assert(forall|k: int| 0 <= k < p.len() ==> spec_is_atext(#[trigger] p[k], mail_type)) by {
                assert(forall|k: int| 0 <= k < p.len() ==> #[trigger] p[k] == t[i + k]);
            }
            if ok8 {
                let bytes = part.as_str().as_bytes();
                assert(bytes@ == utf8(part@));
                let _ = encoder.try_write_8bit_data(bytes);
            } else {
                assert(is_ascii_str(part@)) by {
                    assert(forall|k: int| 0 <= k < p.len() ==> spec_is_atext(#[trigger] p[k], MailType::Ascii));
                }
                proof {
                    lemma_ascii_utf8(part@);
                }
                encoder.write_str(part.as_str());
            }
        } else {
            assert(!(forall|k: int| 0 <= k < p.len() ==> spec_is_atext(#[trigger] p[k], mail_type))) by {
                let k = choose|k: int| i <= k < j && !spec_is_atext(#[trigger] t[k], mail_type);
                assert(p[k - i] == t[k]);
            }
            encoder.write_encoded_word(part.as_str());
        }
        proof {
            let ghost piece = if ws { ascii_bytes(p) } else { input_word_bytes(p, ok8) };
            assert(encoder@.data == before + piece);
            assert(input_phrase_bytes_from(t, i as int, ok8) == piece + input_phrase_bytes_from(t, j as int, ok8));
            assert(encoder@.data + input_phrase_bytes_from(t, j as int, ok8) =~= before + input_phrase_bytes_from(t, i as int, ok8));
        }
        i = j;
    }
    assert(encoder@.data + Seq::<u8>::empty() =~= encoder@.data);
}

/// The bytes written for words, one after another.
pub open spec fn words_bytes(words: Seq<Word>, bits8_ok: bool) -> Seq<u8>
    decreases words.len(),
{
    if words.len() == 0 {
        Seq::empty()
    } else {
        words_bytes(words.drop_last(), bits8_ok) + word_bytes(words.last(), bits8_ok)
    }
}

/// The bytes written for phrases, separated by `,`.
pub open spec fn phrases_bytes(phrases: Seq<Phrase>, bits8_ok: bool) -> Seq<u8>
    decreases phrases.len(),
{
    if phrases.len() == 0 {
        Seq::empty()
    } else if phrases.len() == 1 {
        phrase_bytes(phrases[0], bits8_ok)
    } else {
        phrases_bytes(phrases.drop_last(), bits8_ok) + seq![44u8] + phrase_bytes(phrases.last(), bits8_ok)
    }
}

/// Writes words one after another.
fn encode_words(words: &Vec<Word>, encoder: &mut MailEncoder)
    requires
        old(encoder).wf(),
    ensures
        final(encoder).wf(),
        final(encoder)@.data == old(encoder)@.data + words_bytes(
            words@,
            old(encoder)@.bits8 != Bits8State::Unsupported,
        ),
        (final(encoder)@.bits8 == Bits8State::Unsupported) == (old(encoder)@.bits8 == Bits8State::Unsupported),
{
    let ghost start = encoder@.data;
    let ghost ok8 = encoder@.bits8 != Bits8State::Unsupported;
    let ghost ws = words@;
    assert(ws.subrange(0, 0) =~= Seq::<Word>::empty());
    assert(start + Seq::<u8>::empty() =~= start);
    let mut i: usize = 0;
    while i < words.len()
        invariant
            encoder.wf(),
            ws == words@,
            i <= ws.len(),
            ok8 == (encoder@.bits8 != Bits8State::Unsupported),
            ok8 == (old(encoder)@.bits8 != Bits8State::Unsupported),
            encoder@.data == start + words_bytes(ws.subrange(0, i as int), ok8),
        decreases ws.len() - i,
    {
        let _ = mail_encode_word(&words[i], encoder);
        proof {
            let p = ws.subrange(0, i + 1);
            assert(p.drop_last() =~= ws.subrange(0, i as int));
            assert(p.last() == ws[i as int]);
        }
        i += 1;
    }
    assert(ws.subrange(0, ws.len() as int) =~= ws);
}

impl MailEncodable for Phrase {
    /// Writes the words one after another, or the input text as
    /// `encode_input_phrase` does.
    fn encode(&self, encoder: &mut MailEncoder) -> (r: Result<(), EncodingError>)
        ensures
            r is Ok,
            final(encoder)@.data == old(encoder)@.data + phrase_bytes(
                *self,
                old(encoder)@.bits8 != Bits8State::Unsupported,
            ),
            (final(encoder)@.bits8 == Bits8State::Unsupported) == (old(encoder)@.bits8
                == Bits8State::Unsupported),
    {
        let ghost start = encoder@.data;
        let ghost ok8 = encoder@.bits8 != Bits8State::Unsupported;
        match &self.0 {
            PhraseKind::ItemBased(words) => encode_words(words, encoder),
            PhraseKind::InputBased(text) => encode_input_phrase(text.as_str(), encoder),
        }
        proof {
            lemma_prefix_append(start, phrase_bytes(*self, ok8));
        }
        Ok(())
    }
}

/// A list of phrases (e.g. the `Keywords` header).
#[derive(Debug, Clone)]
pub struct PhraseList(pub Vec<Phrase>);

impl MailEncodable for PhraseList {
    /// Writes the phrases separated by `,`; fails for an empty list.
    fn encode(&self, encoder: &mut MailEncoder) -> (r: Result<(), EncodingError>)
        ensures
            r is Err <==> self.0@.len() == 0,
            r matches Err(e) ==> e == EncodingError::AtLeastOneElementIsRequired && final(encoder)@
                == old(encoder)@,
            r is Ok ==> final(encoder)@.data == old(encoder)@.data + phrases_bytes(
                self.0@,
                old(encoder)@.bits8 != Bits8State::Unsupported,
            ),
    {
        if self.0.len() == 0 {
            assert(old(encoder)@.data + Seq::<u8>::empty() =~= old(encoder)@.data);
            proof {
                lemma_prefix_append(old(encoder)@.data, Seq::empty());
            }
            return Err(EncodingError::AtLeastOneElementIsRequired);
        }
        let ghost start = encoder@.data;
        let ghost ok8 = encoder@.bits8 != Bits8State::Unsupported;
        let ghost ps = self.0@;
        assert(start + Seq::<u8>::empty() =~= start);
        let mut i: usize = 0;
        while i < self.0.len()
            invariant
                encoder.wf(),
                ps == self.0@,
                i <= ps.len(),
                ok8 == (encoder@.bits8 != Bits8State::Unsupported),
                encoder@.data == start + phrases_bytes(ps.subrange(0, i as int), ok8),
            decreases self.0@.len() - i,
        {
            let ghost before = encoder@.data;
            if i != 0 {
                encoder.write_char(',');
            }
            let _ = self.0[i].encode(encoder);
            proof {
                let p = ps.subrange(0, i + 1);
                assert(p.drop_last() =~= ps.subrange(0, i as int));
                assert(p.last() == ps[i as int]);
                if i == 0 {
                    assert(p[0] == ps[0]);
                    assert(ps.subrange(0, 0) =~= Seq::<Phrase>::empty());
                }
            }
            i += 1;
        }
        assert(ps.subrange(0, ps.len() as int) =~= ps);
        proof {
            lemma_prefix_append(start, phrases_bytes(ps, ok8));
        }
        Ok(())
    }
}

/// Writes ascii text directly and any other text as encoded word.
fn encode_text(text: &str, encoder: &mut MailEncoder)
    requires
        old(encoder).wf(),
    ensures
        final(encoder).wf(),
        final(encoder)@.data == old(encoder)@.data + (if is_ascii_str(text@) {
            ascii_bytes(text@)
        } else {
            encoded_word(utf8(text@))
        }),
{
    if str_is_ascii(text) {
        encoder.write_str(text);
    } else {
        encoder.write_encoded_word(text);
    }
}

/// Text as in the `Comments` header (ascii or written as encoded word).
#[derive(Debug, Clone, PartialEq, Eq)]
pub struct Text {
    pub text: String,
}

impl MailEncodable for Text {
    /// Writes ascii text directly, other text as encoded word.
    fn encode(&self, encoder: &mut MailEncoder) -> (r: Result<(), EncodingError>)
        ensures
            r is Ok,
            final(encoder)@.data == old(encoder)@.data + (if is_ascii_str(self.text@) {
                ascii_bytes(self.text@)
            } else {
                encoded_word(utf8(self.text@))
            }),
    {
        encode_text(self.text.as_str(), encoder);
        Ok(())
    }
}

/// Unstructured text as in the `Subject` header (ascii or written as encoded word).
#[derive(Debug, Clone, PartialEq, Eq)]
pub struct Unstructured {
    pub text: String,
}

impl MailEncodable for Unstructured {
    /// Writes ascii text directly, other text as encoded word.
    fn encode(&self, encoder: &mut MailEncoder) -> (r: Result<(), EncodingError>)
        ensures
            r is Ok,
            final(encoder)@.data == old(encoder)@.data + (if is_ascii_str(self.text@) {
                ascii_bytes(self.text@)
            } else {
                encoded_word(utf8(self.text@))
            }),
    {
        encode_text(self.text.as_str(), encoder);
        Ok(())
    }
}

/// A word of a `Received` header.
#[derive(Debug, Clone)]
pub struct ReceivedTokenWord(Word);

impl ReceivedTokenWord {
    pub closed spec fn word(&self) -> Word {
        self.0
    }

    /// A word from an item; fails for items which are not valid words.
    pub fn new(item: Item) -> (r: Result<Self, EncodingError>)
        ensures
            r is Ok <==> item.spec_valid_word(),
            r matches Ok(w) ==> w.word().item() == item,
    {
        Ok(ReceivedTokenWord(Word::new(item)?))
    }

    /// A padded word from an item; fails for items which are not valid words.
    pub fn from_parts(left_padding: Option<CFWS>, item: Item, right_padding: Option<CFWS>) -> (r:
        Result<Self, EncodingError>)
        ensures
            r is Ok <==> item.spec_valid_word(),
            r matches Ok(w) ==> w.word().item() == item && w.word().left_padding() == left_padding
                && w.word().right_padding() == right_padding,
    {
        Ok(ReceivedTokenWord(Word::from_parts(left_padding, item, right_padding)?))
    }
}

/// A token of a `Received` header.
#[derive(Debug, Clone)]
pub enum ReceivedToken {
    Word(ReceivedTokenWord),
    Address(Email),
    Domain(Domain),
}

impl MailEncodable for ReceivedToken {
    /// Writes a word, an address (as `<address>`) or a domain.
    fn encode(&self, encoder: &mut MailEncoder) -> (r: Result<(), EncodingError>)
        ensures
            match *self {
                ReceivedToken::Word(w) => r is Ok && final(encoder)@.data == old(encoder)@.data + word_bytes(
                    w.word(),
                    old(encoder)@.bits8 != Bits8State::Unsupported,
                ),
                ReceivedToken::Address(a) => {
                    &&& r is Ok <==> (old(encoder)@.bits8 != Bits8State::Unsupported || is_7bit(
                        email_bytes(a),
                    ))
                    &&& r is Ok ==> final(encoder)@.data == old(encoder)@.data + seq![60u8] + email_bytes(a)
                        + seq![62u8]
                },
                ReceivedToken::Domain(d) => spec_try_write(
                    old(encoder)@,
                    final(encoder)@,
                    utf8(d.item().text()),
                    r is Ok,
                ),
            },
    {
        match self {
            ReceivedToken::Word(word) => {
                let _ = mail_encode_word(&word.0, encoder);
            },
            ReceivedToken::Address(addr) => {
                let ghost start = encoder@.data;
                encoder.write_char('<');
                let ghost mid = encoder@.data;
                proof {
                    lemma_prefix_append(start, seq![60u8]);
                }
                addr.encode(encoder)?;
                let ghost mid2 = encoder@.data;
                encoder.write_char('>');
                proof {
                    lemma_prefix_trans(start, mid, mid2);
                    lemma_prefix_append(mid2, seq![62u8]);
                    lemma_prefix_trans(start, mid2, encoder@.data);
                }
            },
            ReceivedToken::Domain(domain) => {
                return domain.encode(encoder);
            },
        }
        Ok(())
    }
}

/// Writes the mailboxes separated by `,` and a folding space; fails (after
/// writing the mailboxes before it) at the first mailbox that can not be written.
fn encode_list(list: &Vec<Mailbox>, encoder: &mut MailEncoder) -> (r: Result<(), EncodingError>)
    requires
        old(encoder).wf(),
    ensures
        final(encoder).wf(),
        old(encoder)@.data.is_prefix_of(final(encoder)@.data),
        r is Ok <==> forall|i: int| 0 <= i < list@.len() ==> mailbox_encodable(
            #[trigger] list@[i],
            old(encoder)@.bits8 != Bits8State::Unsupported,
        ),
        r is Ok ==> final(encoder)@.data == old(encoder)@.data + mailboxes_bytes(
            list@,
            old(encoder)@.bits8 != Bits8State::Unsupported,
        ),
{
    let ghost start = encoder@.data;
    let ghost ok8 = encoder@.bits8 != Bits8State::Unsupported;
    assert(start + Seq::<u8>::empty() =~= start);
    proof {
        lemma_prefix_append(start, Seq::empty());
    }
    let mut i: usize = 0;
    while i < list.len()
        invariant
            encoder.wf(),
            i <= list@.len(),
            start == old(encoder)@.data,
            ok8 == (old(encoder)@.bits8 != Bits8State::Unsupported),
            ok8 == (encoder@.bits8 != Bits8State::Unsupported),
            encoder@.data == start + mailboxes_bytes(list@.subrange(0, i as int), ok8),
            forall|k: int| 0 <= k < i ==> mailbox_encodable(#[trigger] list@[k], ok8),
        decreases list@.len() - i,
    {
        let ghost before = encoder@.data;
        if i != 0 {
            encoder.write_char(',');
            encoder.write_fws();
        }
        let ghost mid = encoder@.data;
        match list[i].encode(encoder) {
            Ok(()) => {},
            Err(e) => {
                proof {
                    lemma_prefix_append(start, mailboxes_bytes(list@.subrange(0, i as int), ok8));
                    if i != 0 {
                        lemma_prefix_append(before, seq![44u8, 32u8]);
                        lemma_prefix_trans(start, before, mid);
                    }
                    lemma_prefix_trans(start, mid, encoder@.data);
                }
                return Err(e);
            },
        }
        proof {
            let p = list@.subrange(0, i + 1);
            assert(p.drop_last() =~= list@.subrange(0, i as int));
            assert(p.last() == list@[i as int]);
            if i == 0 {
                assert(p[0] == list@[0]);
                assert(list@.subrange(0, 0) =~= Seq::<Mailbox>::empty());
            }
        }
        i += 1;
    }
    assert(list@.subrange(0, list@.len() as int) =~= list@);
    proof {
        lemma_prefix_append(start, mailboxes_bytes(list@, ok8));
    }
    Ok(())
}

/// A possibly empty list of mailboxes.
#[derive(Debug, Clone)]
pub struct OptMailboxList(pub Vec<Mailbox>);

/// A non-empty list of mailboxes.
#[derive(Debug)]
pub struct MailboxList(Vec<Mailbox>);

impl Clone for MailboxList {
    fn clone(&self) -> (r: Self)
        ensures
            r.mailboxes().len() == self.mailboxes().len(),
    {
        proof {
            use_type_invariant(self);
        }
        MailboxList(self.0.clone())
    }
}

impl MailboxList {
    #[verifier::type_invariant]
    spec fn type_inv(self) -> bool {
        self.0@.len() > 0
    }

    pub closed spec fn mailboxes(&self) -> Seq<Mailbox> {
        self.0@
    }

    /// A list holding just `first`.
    pub fn new(first: Mailbox) -> (r: Self)
        ensures
            r.mailboxes() == seq![first],
    {
        MailboxList(vec![first])
    }

    /// A list of the given mailboxes; fails if there are none.
    pub fn try_from_vec(list: Vec<Mailbox>) -> (r: Result<Self, EncodingError>)
        ensures
            r is Err <==> list@.len() == 0,
            r matches Err(e) ==> e == EncodingError::AtLeastOneElementIsRequired,
            r matches Ok(l) ==> l.mailboxes() == list@,
    {
        if list.len() == 0 {
            Err(EncodingError::AtLeastOneElementIsRequired)
        } else {
            Ok(MailboxList(list))
        }
    }

    /// The mailboxes; there is always at least one.
    pub fn as_slice(&self) -> (r: &[Mailbox])
        ensures
            r@ == self.mailboxes(),
            r@.len() > 0,
    {
        proof {
            use_type_invariant(self);
        }
        self.0.as_slice()
    }
}

impl MailEncodable for OptMailboxList {
    /// Writes the mailboxes separated by `,` and a folding space.
    fn encode(&self, encoder: &mut MailEncoder) -> (r: Result<(), EncodingError>)
        ensures
            r is Ok <==> forall|i: int| 0 <= i < self.0@.len() ==> mailbox_encodable(
                #[trigger] self.0@[i],
                old(encoder)@.bits8 != Bits8State::Unsupported,
            ),
            r is Ok ==> final(encoder)@.data == old(encoder)@.data + mailboxes_bytes(
                self.0@,
                old(encoder)@.bits8 != Bits8State::Unsupported,
            ),
    {
        encode_list(&self.0, encoder)
    }
}

impl MailEncodable for MailboxList {
    /// Writes the mailboxes separated by `,` and a folding space.
    fn encode(&self, encoder: &mut MailEncoder) -> (r: Result<(), EncodingError>)
        ensures
            r is Ok <==> forall|i: int| 0 <= i < self.mailboxes().len() ==> mailbox_encodable(
                #[trigger] self.mailboxes()[i],
                old(encoder)@.bits8 != Bits8State::Unsupported,
            ),
            r is Ok ==> final(encoder)@.data == old(encoder)@.data + mailboxes_bytes(
                self.mailboxes(),
                old(encoder)@.bits8 != Bits8State::Unsupported,
            ),
    {
        let r = encode_list(&self.0, encoder);
        assert(self.mailboxes() =~= self.0@);
        r
    }
}

} // verus!

verus! {

/// Quoting succeeds exactly on text made of visible chars and whitespace,
/// and leaves text made of qtext alone.
pub proof fn lemma_quote_outcome(input: Seq<char>)
    ensures
        spec_quote(input) is Ok <==> forall|i: int| 0 <= i < input.len() ==> spec_is_vchar(
            #[trigger] input[i],
            MailType::Internationalized,
        ) || spec_is_ws(input[i]),
        (forall|i: int| 0 <= i < input.len() ==> spec_is_qtext(#[trigger] input[i], MailType::Internationalized))
            ==> spec_quote(input) == Ok::<Seq<char>, EncodingError>(input),
    decreases input.len(),
{
    if input.len() > 0 {
        let init = input.drop_last();
        lemma_quote_outcome(init);
        assert forall|i: int| 0 <= i < init.len() implies #[trigger] init[i] == input[i] by {}
        if spec_quote(input) is Ok {
            assert forall|i: int| 0 <= i < input.len() implies spec_is_vchar(
                #[trigger] input[i],
                MailType::Internationalized,
            ) || spec_is_ws(input[i]) by {
                if i < init.len() {
                    assert(init[i] == input[i]);
                }
            }
        }
        if forall|i: int| 0 <= i < input.len() ==> spec_is_vchar(
            #[trigger] input[i],
            MailType::Internationalized,
        ) || spec_is_ws(input[i]) {
            assert(forall|i: int| 0 <= i < init.len() ==> spec_is_vchar(
                #[trigger] init[i],
                MailType::Internationalized,
            ) || spec_is_ws(init[i]));
            assert(spec_is_vchar(input[input.len() - 1], MailType::Internationalized) || spec_is_ws(
                input[input.len() - 1],
            ));
        }
        if forall|i: int| 0 <= i < input.len() ==> spec_is_qtext(#[trigger] input[i], MailType::Internationalized) {
            assert(forall|i: int| 0 <= i < init.len() ==> spec_is_qtext(#[trigger] init[i], MailType::Internationalized));
            assert(spec_is_qtext(input[input.len() - 1], MailType::Internationalized));
            assert(init.push(input.last()) =~= input);
        }
    } else {
        assert(input =~= Seq::<char>::empty());
    }
}

} // verus!
