//! Character classes used by the mail grammars (RFC 5234, 5322, 2045).
use vstd::prelude::*;

verus! {

/// Whether a mail may only contain ascii or may be internationalized (RFC 6532).
#[derive(Debug, Clone, Copy, PartialEq, Eq, Structural)]
pub enum MailType {
    Ascii,
    Internationalized,
}

/// A char whose utf-8 encoding needs more than one byte.
pub open spec fn is_multibyte(ch: char) -> bool {
    ch as u32 >= 0x80
}

/// The relaxation every "internationalized" character class allows.
pub open spec fn spec_intl_extension(ch: char, tp: MailType) -> bool {
    match tp {
        MailType::Ascii => false,
        MailType::Internationalized => is_multibyte(ch),
    }
}

pub open spec fn spec_is_ws(ch: char) -> bool {
    ch == ' ' || ch == '\t'
}

pub open spec fn spec_is_vchar(ch: char, tp: MailType) -> bool {
    ('!' <= ch && ch <= '~') || spec_intl_extension(ch, tp)
}

/// The `White_Space` property of unicode, as used by `char::is_whitespace`.
pub open spec fn spec_is_unicode_whitespace(ch: char) -> bool {
    let c = ch as u32;
    ||| 0x09 <= c <= 0x0D
    ||| c == 0x20
    ||| c == 0x85
    ||| c == 0xA0
    ||| c == 0x1680
    ||| 0x2000 <= c <= 0x200A
    ||| c == 0x2028
    ||| c == 0x2029
    ||| c == 0x202F
    ||| c == 0x205F
    ||| c == 0x3000
}

pub open spec fn spec_is_ctext(ch: char, tp: MailType) -> bool {
    ||| ('!' <= ch && ch <= '\'')
    ||| ('*' <= ch && ch <= '[')
    ||| (']' <= ch && ch <= '~')
    ||| spec_intl_extension(ch, tp)
}

pub open spec fn spec_is_tspecial(ch: char) -> bool {
    ||| ch == '(' || ch == ')'
    ||| ch == '<' || ch == '>'
    ||| ch == '@' || ch == ','
    ||| ch == ';' || ch == ':'
    ||| ch == '\\' || ch == '"'
    ||| ch == '/' || ch == '['
    ||| ch == ']' || ch == '?'
    ||| ch == '='
}

/// The specials RFC 5322 allows in atext besides letters and digits.
pub open spec fn is_atext_special(ch: char) -> bool {
    ||| ch == '!' || ch == '#' || ch == '$' || ch == '%' || ch == '&' || ch == '\''
    ||| ch == '*' || ch == '+' || ch == '-' || ch == '/' || ch == '=' || ch == '?'
    ||| ch == '^' || ch == '_' || ch == '`' || ch == '{' || ch == '|' || ch == '}' || ch == '~'
}

pub open spec fn is_ascii_alphanumeric(ch: char) -> bool {
    ('0' <= ch && ch <= '9') || ('a' <= ch && ch <= 'z') || ('A' <= ch && ch <= 'Z')
}

pub open spec fn spec_is_atext(ch: char, tp: MailType) -> bool {
    is_ascii_alphanumeric(ch) || is_atext_special(ch) || spec_intl_extension(ch, tp)
}

pub open spec fn spec_is_qtext(ch: char, tp: MailType) -> bool {
    ||| ch == '!'
    ||| ('#' <= ch && ch <= '[')
    ||| (']' <= ch && ch <= '~')
    ||| spec_intl_extension(ch, tp)
}

pub open spec fn spec_is_ctl(ch: char) -> bool {
    (ch as u32) < 32 || (ch as u32) == 127
}

pub open spec fn spec_is_token_char(ch: char) -> bool {
    (ch as u32) < 128 && ch != ' ' && !spec_is_ctl(ch) && !spec_is_tspecial(ch)
}

fn intl_extension(ch: char, tp: MailType) -> (r: bool)
    ensures
        r == spec_intl_extension(ch, tp),
{
    match tp {
        MailType::Ascii => false,
        MailType::Internationalized => (ch as u32) >= 0x80,
    }
}

/// WS as defined by RFC 5234 (`WSP = SP / HTAB`).
pub fn is_ws(ch: char) -> (r: bool)
    ensures
        r == spec_is_ws(ch),
{
    ch == ' ' || ch == '\t'
}

pub fn is_space(ch: char) -> (r: bool)
    ensures
        r == (ch == ' '),
{
    ch == ' '
}

/// VCHAR as defined by RFC 5234, extended by all non ascii chars for internationalized mails.
pub fn is_vchar(ch: char, tp: MailType) -> (r: bool)
    ensures
        r == spec_is_vchar(ch, tp),
{
    if '!' <= ch && ch <= '~' {
        true
    } else {
        intl_extension(ch, tp)
    }
}

/// Any whitespace (in the sense of `char::is_whitespace`).
pub fn is_any_whitespace(ch: char) -> (r: bool)
    ensures
        r == spec_is_unicode_whitespace(ch),
{
    let c = ch as u32;
    (0x09 <= c && c <= 0x0D) || c == 0x20 || c == 0x85 || c == 0xA0 || c == 0x1680 || (0x2000 <= c && c
        <= 0x200A) || c == 0x2028 || c == 0x2029 || c == 0x202F || c == 0x205F || c == 0x3000
}

/// ctext as defined by RFC 5322 (including obs-ctext for internationalized mails).
pub fn is_ctext(ch: char, tp: MailType) -> (r: bool)
    ensures
        r == spec_is_ctext(ch, tp),
{
    if ('!' <= ch && ch <= '\'') || ('*' <= ch && ch <= '[') || (']' <= ch && ch <= '~') {
        true
    } else {
        intl_extension(ch, tp)
    }
}

/// Whether a char is a tspecial (RFC 2045).
pub fn is_tspecial(ch: char) -> (r: bool)
    ensures
        r == spec_is_tspecial(ch),
{
    match ch {
        '(' | ')' | '<' | '>' | '@' | ',' | ';' | ':' | '\\' | '"' | '/' | '[' | ']' | '?' | '=' => true,
        _ => false,
    }
}

/// Which chars are atext (RFC 5322): exactly the ascii letters and digits and
/// the chars ``!#$%&'*+-/=?^_`{|}~``, and in internationalized mails also every
/// non ascii char.
pub proof fn lemma_atext_chars(ch: char, tp: MailType)
    ensures
        spec_is_atext(ch, tp) <==> ({
            ||| ('a' <= ch && ch <= 'z') || ('A' <= ch && ch <= 'Z') || ('0' <= ch && ch <= '9')
            ||| ch == '!' || ch == '#' || ch == '$' || ch == '%' || ch == '&' || ch == '\''
            ||| ch == '*' || ch == '+' || ch == '-' || ch == '/' || ch == '=' || ch == '?'
            ||| ch == '^' || ch == '_' || ch == '`' || ch == '{' || ch == '|' || ch == '}' || ch == '~'
            ||| (tp == MailType::Internationalized && (ch as u32) >= 128)
        }),
{
}

/// atext as defined by RFC 5322: letters, digits and the specials
/// ``!#$%&'*+-/=?^_`{|}~``, and any non ascii char in internationalized mails.
pub fn is_atext(ch: char, tp: MailType) -> (r: bool)
    ensures
        r == spec_is_atext(ch, tp),
{
    if ('0' <= ch && ch <= '9') || ('a' <= ch && ch <= 'z') || ('A' <= ch && ch <= 'Z') {
        return true;
    }
    match ch {
        '!' | '#' | '$' | '%' | '&' | '\'' | '*' | '+' | '-' | '/' | '=' | '?' | '^' | '_' | '`' | '{'
        | '|' | '}' | '~' => true,
        _ => intl_extension(ch, tp),
    }
}

/// qtext as defined by RFC 5322 (including obs-qtext for internationalized mails).
pub fn is_qtext(ch: char, tp: MailType) -> (r: bool)
    ensures
        r == spec_is_qtext(ch, tp),
{
    if ch == '!' || ('#' <= ch && ch <= '[') || (']' <= ch && ch <= '~') {
        true
    } else {
        intl_extension(ch, tp)
    }
}

/// Whether the char is a CTL (RFC 822): an ascii control char or DEL.
pub fn is_ctl(ch: char) -> (r: bool)
    ensures
        r == spec_is_ctl(ch),
{
    (ch as u32) < 32 || (ch as u32) == 127
}

/// A char which can appear in a token (RFC 2045): an ascii char which is
/// neither a space, nor a CTL, nor a tspecial.
pub fn is_token_char(ch: char) -> (r: bool)
    ensures
        r == spec_is_token_char(ch),
{
    (ch as u32) < 128 && !is_space(ch) && !is_ctl(ch) && !is_tspecial(ch)
}

} // verus!
