use mail_types::char_validators::{
    is_any_whitespace, is_atext, is_ctext, is_ctl, is_qtext, is_space, is_token_char, is_tspecial, is_vchar,
    is_ws, MailType,
};
use mail_types::codec::{Bits8State, MailEncodable, MailEncoder};
use mail_types::components::{Domain, Email, LocalPart, MessageID, MessageIDList, Phrase, Text, Unstructured};
use mail_types::date_time::DateTime;
use mail_types::error::EncodingError;
use mail_types::file_buffer::{encode_7bit, find_encoding, FileBuffer, TransferEncodedFileBuffer, TransferEncoding};
use mail_types::media_type::MediaType;

fn buffer(mt: &str, data: &[u8]) -> FileBuffer {
    FileBuffer::new(MediaType::parse(mt).unwrap(), data.to_vec())
}

fn encode(mt: &str, data: &[u8], enc: Option<TransferEncoding>) -> Result<TransferEncodedFileBuffer, EncodingError> {
    TransferEncodedFileBuffer::encode_buffer(buffer(mt, data), enc)
}

#[test]
fn char_classes() {
    assert!(is_ws(' ') && is_ws('\t') && !is_ws('\n'));
    assert!(is_space(' ') && !is_space('\t'));
    assert!(is_vchar('~', MailType::Ascii));
    assert!(!is_vchar('ä', MailType::Ascii));
    assert!(is_vchar('ä', MailType::Internationalized));
    assert!(is_any_whitespace('\u{A0}') && is_any_whitespace('\n') && !is_any_whitespace('a'));
    assert!(is_ctext('a', MailType::Ascii) && !is_ctext('(', MailType::Ascii) && !is_ctext('\\', MailType::Ascii));
    // the RFC 2045 tspecials
    assert!(is_tspecial('/') && is_tspecial('?') && is_tspecial('=') && !is_tspecial('.') && !is_tspecial('a'));
    assert!(is_tspecial('(') && is_tspecial('"'));
    // RFC 5322 atext
    assert!(is_atext('a', MailType::Ascii) && is_atext('!', MailType::Ascii) && !is_atext('@', MailType::Ascii));
    assert!(is_atext('/', MailType::Ascii) && is_atext('=', MailType::Ascii) && is_atext('~', MailType::Ascii));
    assert!(!is_atext(' ', MailType::Ascii) && !is_atext('\u{1}', MailType::Ascii) && !is_atext('é', MailType::Ascii));
    assert!(is_atext('é', MailType::Internationalized));
    assert!(!is_atext('.', MailType::Internationalized));
    assert!(!is_qtext('"', MailType::Ascii) && !is_qtext('\\', MailType::Ascii) && is_qtext('a', MailType::Ascii));
    assert!(is_ctl('\t') && is_ctl('\u{7f}') && !is_ctl(' ') && !is_ctl('a'));
    assert!(is_token_char('a') && !is_token_char('/') && !is_token_char('é') && !is_token_char(' '));
    assert!(!is_token_char(',') && !is_token_char('\u{7}') && is_token_char('.'));
}

#[test]
fn any_whitespace_is_unicode_white_space() {
    for c in (0u32..0x11_0000).filter_map(char::from_u32) {
        assert_eq!(is_any_whitespace(c), c.is_whitespace(), "{:?}", c);
    }
}

#[test]
fn encoded_words_use_q_encoding() {
    for (input, output) in [("abcde", "=?utf8?Q?abcde?="), ("<3", "=?utf8?Q?=3C3?="), ("a b", "=?utf8?Q?a_b?="), ("a_b=c?", "=?utf8?Q?a=5Fb=3Dc=3F?=")] {
        let mut enc = MailEncoder::new(false);
        enc.write_encoded_word(input);
        assert_eq!(enc.into_ascii_string().unwrap(), output);
    }
}

#[test]
fn encoder_writes_and_folds() {
    let mut enc = MailEncoder::new(false);
    enc.write_str("ab");
    enc.write_fws();
    enc.write_str("cd");
    assert_eq!(enc.current_line_byte_length(), 5);
    enc.break_line_on_last_cfws();
    assert_eq!(enc.current_line_byte_length(), 3);
    // a second fold has no noted place left and changes nothing
    enc.break_line_on_last_cfws();
    assert_eq!(enc.into_bytes(), b"ab\r\n cd".to_vec());
}

#[test]
fn encoder_folds_before_non_space() {
    let mut enc = MailEncoder::new(false);
    enc.write_str("ab");
    enc.note_optional_fws();
    enc.write_str("cd");
    enc.break_line_on_last_cfws();
    assert_eq!(enc.into_bytes(), b"a\r\n bcd".to_vec());
}

#[test]
fn encoder_new_line_only_after_content() {
    let mut enc = MailEncoder::new(false);
    enc.write_new_line();
    enc.write_str("x");
    enc.write_new_line();
    assert_eq!(enc.current_line_byte_length(), 0);
    assert_eq!(enc.into_ascii_string().unwrap(), "x\r\n");
}

#[test]
fn encoder_8bit_data() {
    let mut enc = MailEncoder::new(false);
    assert_eq!(enc.try_write_8bit_data("ä".as_bytes()), Err(EncodingError::TriedWriting8BitBytesInto7BitData));
    assert!(enc.try_write_8bit_data(b"abc").is_ok());
    assert_eq!(enc.bits8_support(), Bits8State::Unsupported);

    let mut enc = MailEncoder::new(true);
    assert_eq!(enc.bits8_support(), Bits8State::Supported);
    assert!(enc.try_write_8bit_data("ä".as_bytes()).is_ok());
    assert_eq!(enc.bits8_support(), Bits8State::Used);
    assert!(enc.bits8_support().is_used());
    assert!(enc.into_ascii_string().is_err());
}

#[test]
fn encoder_encoded_word() {
    let mut enc = MailEncoder::new(false);
    enc.write_encoded_word("Ö");
    assert_eq!(enc.into_ascii_string().unwrap(), "=?utf8?Q?=C3=96?=");
}

#[test]
fn unstructured_and_text_encoding() {
    let mut enc = MailEncoder::new(false);
    Unstructured { text: "hi there".to_string() }.encode(&mut enc).unwrap();
    assert_eq!(enc.into_bytes(), b"hi there".to_vec());
    let mut enc = MailEncoder::new(false);
    Text { text: "Ö".to_string() }.encode(&mut enc).unwrap();
    assert_eq!(enc.into_bytes(), b"=?utf8?Q?=C3=96?=".to_vec());
}

#[test]
fn email_and_message_id_encoding() {
    let email = Email {
        local_part: LocalPart::from_input("random".to_string()).unwrap(),
        domain: Domain::from_input("this.is.no.mail".to_string()),
    };
    let mut enc = MailEncoder::new(false);
    email.encode(&mut enc).unwrap();
    assert_eq!(enc.into_bytes(), b"random@this.is.no.mail".to_vec());

    let mut enc = MailEncoder::new(false);
    MessageID { email }.encode(&mut enc).unwrap();
    assert_eq!(enc.into_bytes(), b"<random@this.is.no.mail>".to_vec());
}

#[test]
fn internationalized_email_needs_8bit() {
    let email = Email {
        local_part: LocalPart::from_input("jö.rg".to_string()).unwrap(),
        domain: Domain::from_input("x.test".to_string()),
    };
    let mut enc = MailEncoder::new(false);
    assert_eq!(email.encode(&mut enc), Err(EncodingError::TriedWriting8BitBytesInto7BitData));
    let mut enc = MailEncoder::new(true);
    assert!(email.encode(&mut enc).is_ok());
    assert_eq!(enc.into_bytes(), "jö.rg@x.test".as_bytes().to_vec());
}

#[test]
fn local_part_quoting() {
    // atext only: nothing is quoted
    let lp = LocalPart::from_input("a+b".to_string()).unwrap();
    let mut enc = MailEncoder::new(false);
    lp.encode(&mut enc).unwrap();
    assert_eq!(enc.into_bytes(), b"a+b".to_vec());
    // a space is no atext and gets escaped
    let lp = LocalPart::from_input("a b".to_string()).unwrap();
    let mut enc = MailEncoder::new(false);
    lp.encode(&mut enc).unwrap();
    assert_eq!(enc.into_bytes(), b"a\\ b".to_vec());
    // a quote char is escaped
    let lp = LocalPart::from_input("a\"b".to_string()).unwrap();
    let mut enc = MailEncoder::new(false);
    lp.encode(&mut enc).unwrap();
    assert_eq!(enc.into_bytes(), b"a\\\"b".to_vec());
    // a control char can not be quoted
    assert_eq!(LocalPart::from_input("a\u{1}b".to_string()).err(), Some(EncodingError::CanNotQuote));
}

#[test]
fn message_id_list_needs_an_element() {
    assert_eq!(MessageIDList::new(Vec::new()).err(), Some(EncodingError::AtLeastOneElementIsRequired));
    let id = MessageID {
        email: Email {
            local_part: LocalPart::from_input("a".to_string()).unwrap(),
            domain: Domain::from_input("b.c".to_string()),
        },
    };
    let mut list = MessageIDList::new_with_first(id.clone());
    list.push(id);
    let mut enc = MailEncoder::new(false);
    list.encode(&mut enc).unwrap();
    assert_eq!(enc.into_bytes(), b"<a@b.c><a@b.c>".to_vec());
}

#[test]
fn date_time_rfc2822() {
    let date = DateTime { secs: 706837272, nanos: 0 };
    assert!(date.is_rfc2822_representable());
    assert_eq!(date.to_rfc2822(), "Mon, 25 May 1992 23:41:12 +0000");
    let mut enc = MailEncoder::new(false);
    date.encode(&mut enc).unwrap();
    assert_eq!(enc.into_bytes(), b"Mon, 25 May 1992 23:41:12 +0000".to_vec());
    let far = DateTime { secs: i64::MAX, nanos: 0 };
    assert!(!far.is_rfc2822_representable());
    let mut enc = MailEncoder::new(false);
    assert_eq!(far.encode(&mut enc), Err(EncodingError::Malformed));
}

#[test]
fn transfer_encoding_7bit() {
    let enc = encode("text/plain; charset=us-ascii", b"a\r\nb", Some(TransferEncoding::_7Bit)).unwrap();
    assert_eq!(enc.as_slice(), b"a\r\nb");
    assert_eq!(*enc.transfer_encoding(), TransferEncoding::_7Bit);
    assert_eq!(
        encode("text/plain", "ä".as_bytes(), Some(TransferEncoding::_7Bit)).err(),
        Some(EncodingError::InvalidTextEncoding)
    );
    assert_eq!(encode("text/plain", b"a\nb", Some(TransferEncoding::_7Bit)).err(), Some(EncodingError::Malformed));
    assert_eq!(encode("text/plain", b"a\0b", Some(TransferEncoding::_7Bit)).err(), Some(EncodingError::Malformed));
}

#[test]
fn transfer_encoding_8bit_and_binary() {
    let enc = encode("text/plain", "ä\r\n".as_bytes(), Some(TransferEncoding::_8Bit)).unwrap();
    assert_eq!(enc.as_slice(), "ä\r\n".as_bytes());
    assert_eq!(encode("text/plain", b"a\rb", Some(TransferEncoding::_8Bit)).err(), Some(EncodingError::Malformed));
    let enc = encode("application/octet-stream", b"\0\r\xff", Some(TransferEncoding::Binary)).unwrap();
    assert_eq!(enc.as_slice(), b"\0\r\xff");
}

#[test]
fn transfer_encoding_quoted_printable_and_base64() {
    let enc = encode("text/plain; charset=utf-8", "Öse".as_bytes(), None).unwrap();
    assert_eq!(*enc.transfer_encoding(), TransferEncoding::QuotedPrintable);
    assert_eq!(enc.as_slice(), b"=C3=96se");
    let enc = encode("application/octet-stream", b"hello", None).unwrap();
    assert_eq!(*enc.transfer_encoding(), TransferEncoding::Base64);
    assert_eq!(enc.as_slice(), b"aGVsbG8=");
}

#[test]
fn find_encoding_by_media_type() {
    assert_eq!(find_encoding(&buffer("text/plain; charset=us-ascii", b"x")), TransferEncoding::_7Bit);
    assert_eq!(find_encoding(&buffer("text/html; charset=utf-8", b"x")), TransferEncoding::QuotedPrintable);
    assert_eq!(find_encoding(&buffer("image/png", b"x")), TransferEncoding::Base64);
}

#[test]
fn encoded_word_length_75() {
    // 75 bytes of text: 64 fill the first word (75 bytes with its markers), 11 go on
    let mut enc = MailEncoder::new(false);
    enc.write_encoded_word("the max length of a encoded word is 75 chars5678901234567890123456789012345");
    assert_eq!(
        enc.into_ascii_string().unwrap(),
        "=?utf8?Q?the_max_length_of_a_encoded_word_is_75_chars56789012345678901234?=\r\n =?utf8?Q?56789012345?="
    );
}

#[test]
fn encoded_words_split_between_characters() {
    // 63 bytes of text, then an "Ö" (=C3=96, six bytes) which does not fit
    let input = format!("{}Ö", "a".repeat(63));
    let mut enc = MailEncoder::new(false);
    enc.write_encoded_word(&input);
    let expected = format!("=?utf8?Q?{}?=\r\n =?utf8?Q?=C3=96?=", "a".repeat(63));
    assert_eq!(enc.current_line_byte_length(), expected.len());
    assert_eq!(enc.into_ascii_string().unwrap(), expected);
    // exactly 64 bytes of text fit into one word
    let mut enc = MailEncoder::new(false);
    enc.write_encoded_word(&"b".repeat(64));
    assert_eq!(enc.into_ascii_string().unwrap(), format!("=?utf8?Q?{}?=", "b".repeat(64)));
}

#[test]
fn seven_bit_encoding_checks_the_data() {
    let buf = |data: &[u8]| FileBuffer::new(MediaType::parse("text/plain").unwrap(), data.to_vec());
    let ok = encode_7bit(buf(b"ab\r\ncd\r")).unwrap();
    assert_eq!(ok.as_slice(), b"ab\r\ncd\r");
    assert_eq!(*ok.transfer_encoding(), TransferEncoding::_7Bit);
    assert_eq!(encode_7bit(buf(b"a\rb")).err(), Some(EncodingError::Malformed));
    assert_eq!(encode_7bit(buf(b"a\nb")).err(), Some(EncodingError::Malformed));
    assert_eq!(encode_7bit(buf(b"a\0\xff")).err(), Some(EncodingError::Malformed));
    assert_eq!(encode_7bit(buf(b"a\xff\0")).err(), Some(EncodingError::InvalidTextEncoding));
}

fn encode_phrase(text: &str, bits8: bool) -> Vec<u8> {
    let mut enc = MailEncoder::new(bits8);
    Phrase::from_input(text.to_string()).encode(&mut enc).unwrap();
    enc.into_bytes()
}

#[test]
fn input_based_phrases_split_into_words() {
    assert_eq!(encode_phrase("Max  Mueller", false), b"Max  Mueller".to_vec());
    assert_eq!(encode_phrase("Max Müller", false), b"Max =?utf8?Q?M=C3=BCller?=".to_vec());
    assert_eq!(encode_phrase("Max Müller", true), "Max Müller".as_bytes().to_vec());
    assert_eq!(encode_phrase(" a.b\tc ", false), b" =?utf8?Q?a=2Eb?=\tc ".to_vec());
    assert_eq!(encode_phrase("", false), Vec::<u8>::new());
}

#[test]
fn now_is_after_the_epoch() {
    let now = DateTime::now();
    assert!(now.secs > 1_500_000_000);
    assert!(now.nanos < 1_000_000_000);
}
