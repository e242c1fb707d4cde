//! A byte level encoder for mail data which keeps track of the current line length,
//! of the last place where a line may be folded and of the use of 8-bit data.
use vstd::prelude::*;
use crate::char_validators::MailType;
use crate::encodings::all_ascii;
use crate::error::EncodingError;

verus! {

broadcast use vstd::string::group_string_axioms;

/// Whether an encoder supports 8-bit data and, if so, whether it was used.
#[derive(Debug, Clone, Copy, PartialEq, Eq, Hash, Structural)]
pub enum Bits8State {
    Unsupported,
    Supported,
    Used,
}

impl Bits8State {
    pub open spec fn spec_is_supported(&self) -> bool {
        *self == Bits8State::Supported || *self == Bits8State::Used
    }

    pub fn is_supported(&self) -> (r: bool)
        ensures
            r == self.spec_is_supported(),
    {
        match *self {
            Bits8State::Supported | Bits8State::Used => true,
            Bits8State::Unsupported => false,
        }
    }

    pub fn is_used(&self) -> (r: bool)
        ensures
            r == (*self == Bits8State::Used),
    {
        match *self {
            Bits8State::Used => true,
            _ => false,
        }
    }
}

/// The abstract state of a `MailEncoder`.
pub struct EncoderView {
    /// All bytes written so far.
    pub data: Seq<u8>,
    /// The bytes written since the encoder was made or the line was last folded
    /// (a CRLF inside written data does not reset it).
    pub line_len: nat,
    /// The position of the last place at which the current line may be folded.
    pub last_cfws: Option<nat>,
    pub bits8: Bits8State,
}

/// An encoder writing mail data into an in-memory buffer.
#[derive(Debug, Clone)]
pub struct MailEncoder {
    inner: Vec<u8>,
    current_line_byte_length: usize,
    last_cfws_pos: Option<usize>,
    bits8_support: Bits8State,
}

pub open spec fn is_7bit(data: Seq<u8>) -> bool {
    forall|i: int| 0 <= i < data.len() ==> #[trigger] data[i] < 128
}

/// The ascii bytes of an ascii string.
pub open spec fn ascii_bytes(s: Seq<char>) -> Seq<u8> {
    Seq::new(s.len(), |i: int| s[i] as u8)
}

pub open spec fn is_ascii_str(s: Seq<char>) -> bool {
    vstd::utf8::is_ascii_chars(s)
}

/// `=?utf8?Q?`
pub open spec fn encoded_word_prefix() -> Seq<u8> {
    seq![61u8, 63, 117, 116, 102, 56, 63, 81, 63]
}

/// `?=`
pub open spec fn encoded_word_suffix() -> Seq<u8> {
    seq![63u8, 61]
}

/// Bytes which the Q encoding (RFC 2047) writes as they are, in any
/// position of an encoded word: letters, digits and `!*+-/`.
pub open spec fn is_q_literal(b: u8) -> bool {
    ||| (97 <= b && b <= 122)
    ||| (65 <= b && b <= 90)
    ||| (48 <= b && b <= 57)
    ||| b == 33 || b == 42 || b == 43 || b == 45 || b == 47
}

/// The upper case hex digit for `n < 16`.
pub open spec fn hex_digit(n: u8) -> u8 {
    if n < 10 {
        (48 + n) as u8
    } else {
        (55 + n) as u8
    }
}

/// The Q encoding of one byte: a space becomes `_`, a literal stays, any
/// other byte becomes `=` followed by its two upper case hex digits.
pub open spec fn q_byte(b: u8) -> Seq<u8> {
    if b == 32 {
        seq![95u8]
    } else if is_q_literal(b) {
        seq![b]
    } else {
        seq![61u8, hex_digit(b / 16), hex_digit(b % 16)]
    }
}

/// The Q encoding (RFC 2047) of `data`.
pub open spec fn q_encoded(data: Seq<u8>) -> Seq<u8>
    decreases data.len(),
{
    if data.len() == 0 {
        Seq::empty()
    } else {
        q_encoded(data.drop_last()) + q_byte(data.last())
    }
}

/// Whether `b` continues a utf-8 encoded character (`10xxxxxx`).
pub open spec fn is_utf8_continuation(b: u8) -> bool {
    128 <= b && b < 192
}

/// The end of the character whose continuation bytes start at `j`: the first
/// position from `j` on that is not a continuation byte (or the end of `data`).
pub open spec fn char_end(data: Seq<u8>, j: int) -> int
    decreases data.len() - j,
{
    if 0 <= j < data.len() && is_utf8_continuation(data[j]) {
        char_end(data, j + 1)
    } else {
        j
    }
}

pub proof fn lemma_char_end(data: Seq<u8>, j: int)
    requires
        0 <= j <= data.len(),
    ensures
        j <= char_end(data, j) <= data.len(),
    decreases data.len() - j,
{
    if j < data.len() && is_utf8_continuation(data[j]) {
        lemma_char_end(data, j + 1);
    }
}

/// The most bytes of Q encoded text in one encoded word: an encoded word has at
/// most 75 bytes, 11 of which are its markers.
pub open spec fn max_encoded_text() -> nat {
    64
}

/// The bytes that follow once the utf-8 bytes `data` before `i` are written and
/// `used` bytes of Q encoded text stand in the current encoded word. Characters
/// are added whole, one at a time; one that does not fit into the current word
/// (which already holds text) ends it, and a new word starts on a folded line.
pub open spec fn encoded_words_from(data: Seq<u8>, i: int, used: nat) -> Seq<u8>
    decreases data.len() - i,
{
    if i < 0 || i >= data.len() {
        encoded_word_suffix()
    } else {
        let j = char_end(data, i + 1);
        proof {
            lemma_char_end(data, i + 1);
        }
        let unit = q_encoded(data.subrange(i, j));
        if used > 0 && used + unit.len() > max_encoded_text() {
            encoded_word_suffix() + seq![13u8, 10, 32] + encoded_word_prefix() + unit
                + encoded_words_from(data, j, unit.len())
        } else {
            unit + encoded_words_from(data, j, used + unit.len())
        }
    }
}

/// The bytes of the encoded words (RFC 2047, Q encoding) holding the utf-8 bytes
/// `data`, each of at most 75 bytes (unless a single character needs more), split
/// between characters and separated by a CRLF and a space.
pub open spec fn encoded_word(data: Seq<u8>) -> Seq<u8> {
    encoded_word_prefix() + encoded_words_from(data, 0, 0)
}

/// The Q encoding is ascii.
pub proof fn lemma_q_encoded_ascii(data: Seq<u8>)
    ensures
        all_ascii(q_encoded(data)),
    decreases data.len(),
{
    if data.len() > 0 {
        lemma_q_encoded_ascii(data.drop_last());
        let a = q_encoded(data.drop_last());
        let b = q_byte(data.last());
        assert(all_ascii(b));
        assert forall|i: int| 0 <= i < (a + b).len() implies #[trigger] (a + b)[i] < 128 by {
            if i < a.len() {
                assert((a + b)[i] == a[i]);
            } else {
                assert((a + b)[i] == b[i - a.len()]);
            }
        }
    }
}

/// The bytes inserted when folding a line at `pos` of `data`.
pub open spec fn fold_bytes(data: Seq<u8>, pos: int) -> Seq<u8> {
    if data[pos] == 32 {
        seq![13u8, 10]
    } else {
        seq![13u8, 10, 32]
    }
}

/// Folds the line at `pos`: inserts a CRLF (and a space if there is none at `pos`).
pub open spec fn folded(data: Seq<u8>, pos: int) -> Seq<u8> {
    data.subrange(0, pos) + fold_bytes(data, pos) + data.subrange(pos, data.len() as int)
}

impl View for MailEncoder {
    type V = EncoderView;

    closed spec fn view(&self) -> EncoderView {
        EncoderView {
            data: self.inner@,
            line_len: self.current_line_byte_length as nat,
            last_cfws: match self.last_cfws_pos {
                Some(p) => Some(p as nat),
                None => None,
            },
            bits8: self.bits8_support,
        }
    }
}

pub(crate) fn is_7bit_data(data: &[u8]) -> (r: bool)
    ensures
        r == is_7bit(data@),
{
    let mut i: usize = 0;
    while i < data.len()
        invariant
            i <= data@.len(),
            forall|k: int| 0 <= k < i ==> #[trigger] data@[k] < 128,
        decreases data@.len() - i,
    {
        let byte = data[i];
        assert((byte & 128u8 > 0) == (byte >= 128)) by (bit_vector);
        if byte & 128 > 0 {
            return false;
        }
        i += 1;
    }
    true
}

/// Inserts `bytes` into `vec` at `idx`.
fn insert_bytes(vec: &mut Vec<u8>, idx: usize, bytes: &[u8])
    requires
        idx <= old(vec)@.len(),
    ensures
        final(vec)@ == old(vec)@.subrange(0, idx as int) + bytes@ + old(vec)@.subrange(
            idx as int,
            old(vec)@.len() as int,
        ),
{
    let ghost start = vec@;
    let mut k: usize = 0;
    while k < bytes.len()
        invariant
            k <= bytes@.len(),
            idx <= start.len(),
            vec@ == start.subrange(0, idx as int) + bytes@.subrange(0, k as int) + start.subrange(
                idx as int,
                start.len() as int,
            ),
        decreases bytes@.len() - k,
    {
        let cur_len = vec.len();
        assert(idx + k <= cur_len);
        vec.insert(idx + k, bytes[k]);
        assert(bytes@.subrange(0, k + 1) == bytes@.subrange(0, k as int).push(bytes@[k as int]));
        assert(vec@ == start.subrange(0, idx as int) + bytes@.subrange(0, k + 1) + start.subrange(
            idx as int,
            start.len() as int,
        ));
        k += 1;
    }
    assert(bytes@.subrange(0, bytes@.len() as int) == bytes@);
}

/// Turns ascii bytes into a `String` (`String::from_utf8`).
#[verifier::external_body]
fn string_from_ascii(bytes: Vec<u8>) -> (s: String)
    requires
        all_ascii(bytes@),
    ensures
        s@ == Seq::new(bytes@.len(), |i: int| bytes@[i] as char),
{
    String::from_utf8(bytes).unwrap()
}

impl MailEncoder {
    /// The encoder's validity: the line length and the fold position lie within
    /// the written data, and all data is ascii unless 8-bit data was used.
    pub open spec fn wf(&self) -> bool {
        &&& self@.line_len <= self@.data.len()
        &&& (self@.last_cfws matches Some(p) ==> p < self@.data.len())
        &&& (self@.bits8 != Bits8State::Used ==> is_7bit(self@.data))
    }

    spec fn wf_bounds(&self) -> bool {
        &&& self@.line_len <= self@.data.len()
        &&& (self@.last_cfws matches Some(p) ==> p < self@.data.len())
    }

    /// Creates an empty encoder, supporting 8-bit data if `bits8_supported`.
    pub fn new(bits8_supported: bool) -> (r: MailEncoder)
        ensures
            r.wf(),
            r@.data == Seq::<u8>::empty(),
            r@.line_len == 0,
            r@.last_cfws is None,
            r@.bits8 == (if bits8_supported {
                Bits8State::Supported
            } else {
                Bits8State::Unsupported
            }),
    {
        let bits8_supported = if bits8_supported {
            Bits8State::Supported
        } else {
            Bits8State::Unsupported
        };
        MailEncoder {
            bits8_support: bits8_supported,
            inner: Vec::new(),
            current_line_byte_length: 0,
            last_cfws_pos: None,
        }
    }

    /// The only function writing to the inner buffer.
    fn write_byte_unchecked(&mut self, byte: u8)
        requires
            old(self).wf_bounds(),
        ensures
            final(self).wf_bounds(),
            final(self)@.data == old(self)@.data.push(byte),
            final(self)@.line_len == old(self)@.line_len + 1,
            final(self)@.last_cfws == old(self)@.last_cfws,
            final(self)@.bits8 == old(self)@.bits8,
    {
        self.inner.push(byte);
        let len = self.inner.len();
        self.current_line_byte_length += 1;
        // `last` is the byte which was just pushed
        if byte == 10u8 && self.inner[len - 1] == 13u8 {
            self.current_line_byte_length = 0;
            self.last_cfws_pos = None;
        }
    }

    fn write_data_unchecked(&mut self, data: &[u8])
        requires
            old(self).wf_bounds(),
        ensures
            final(self).wf_bounds(),
            final(self)@.data == old(self)@.data + data@,
            final(self)@.line_len == old(self)@.line_len + data@.len(),
            final(self)@.last_cfws == old(self)@.last_cfws,
            final(self)@.bits8 == old(self)@.bits8,
    {
        let ghost start = self@;
        let mut i: usize = 0;
        while i < data.len()
            invariant
                i <= data@.len(),
                self.wf_bounds(),
                self@.data == start.data + data@.subrange(0, i as int),
                self@.line_len == start.line_len + i,
                self@.last_cfws == start.last_cfws,
                self@.bits8 == start.bits8,
            decreases data@.len() - i,
        {
            self.write_byte_unchecked(data[i]);
            assert(data@.subrange(0, i + 1) == data@.subrange(0, i as int).push(data@[i as int]));
            i += 1;
        }
        assert(data@.subrange(0, data@.len() as int) == data@);
    }

    fn write_ascii_data(&mut self, data: &[u8])
        requires
            old(self).wf(),
            all_ascii(data@),
        ensures
            final(self).wf(),
            final(self)@.data == old(self)@.data + data@,
            final(self)@.line_len == old(self)@.line_len + data@.len(),
            final(self)@.last_cfws == old(self)@.last_cfws,
            final(self)@.bits8 == old(self)@.bits8,
    {
        self.write_data_unchecked(data);
        assert(forall|i: int|
            0 <= i < self@.data.len() ==> #[trigger] self@.data[i] == (if i < old(self)@.data.len() {
                old(self)@.data[i]
            } else {
                data@[i - old(self)@.data.len()]
            }));
    }

    /// Writes a CRLF, unless the current line is empty.
    pub fn write_new_line(&mut self)
        requires
            old(self).wf(),
        ensures
            final(self).wf(),
            old(self)@.line_len == 0 ==> final(self)@ == old(self)@,
            old(self)@.line_len != 0 ==> {
                &&& final(self)@.data == old(self)@.data + seq![13u8, 10u8]
                &&& final(self)@.line_len == 0
                &&& final(self)@.last_cfws is None
                &&& final(self)@.bits8 == old(self)@.bits8
            },
    {
        if self.current_line_byte_length != 0 {
            self.write_char('\r');
            self.write_char('\n');
            self.current_line_byte_length = 0;
            self.last_cfws_pos = None;
            assert(self@.data == old(self)@.data + seq![13u8, 10u8]);
        }
    }

    /// Writes a space and notes it as the place where the line may be folded.
    pub fn write_fws(&mut self)
        requires
            old(self).wf(),
        ensures
            final(self).wf(),
            final(self)@.data == old(self)@.data.push(32u8),
            final(self)@.line_len == old(self)@.line_len + 1,
            final(self)@.last_cfws == Some(old(self)@.data.len()),
            final(self)@.bits8 == old(self)@.bits8,
    {
        self.write_char(' ');
        self.last_cfws_pos = Some(self.inner.len() - 1);
    }

    /// Notes the last written byte as a place at which the line may be folded.
    pub fn note_optional_fws(&mut self)
        requires
            old(self).wf(),
        ensures
            final(self).wf(),
            final(self)@.data == old(self)@.data,
            final(self)@.line_len == old(self)@.line_len,
            final(self)@.bits8 == old(self)@.bits8,
            final(self)@.last_cfws == (if old(self)@.data.len() == 0 {
                None
            } else {
                Some((old(self)@.data.len() - 1) as nat)
            }),
    {
        self.last_cfws_pos = match self.inner.len() {
            0 => None,
            len => Some(len - 1),
        };
    }

    /// Writes an ascii string.
    pub fn write_str(&mut self, s: &str)
        requires
            old(self).wf(),
            is_ascii_str(s@),
        ensures
            final(self).wf(),
            final(self)@.data == old(self)@.data + ascii_bytes(s@),
            final(self)@.line_len == old(self)@.line_len + s@.len(),
            final(self)@.last_cfws == old(self)@.last_cfws,
            final(self)@.bits8 == old(self)@.bits8,
    {
        proof {
            assert(vstd::string::is_ascii(s));
            vstd::string::is_ascii_spec_bytes(s);
        }
        let bytes = s.as_bytes();
        assert(bytes@ == ascii_bytes(s@));
        self.write_ascii_data(bytes);
    }

    /// Writes an ascii char.
    pub fn write_char(&mut self, ch: char)
        requires
            old(self).wf(),
            (ch as u32) < 128,
        ensures
            final(self).wf(),
            final(self)@.data == old(self)@.data.push(ch as u8),
            final(self)@.line_len == old(self)@.line_len + 1,
            final(self)@.last_cfws == old(self)@.last_cfws,
            final(self)@.bits8 == old(self)@.bits8,
    {
        let b = ch as u8;
        assert(b < 128);
        self.write_byte_unchecked(b);
        assert(forall|i: int|
            0 <= i < self@.data.len() ==> #[trigger] self@.data[i] == (if i < old(self)@.data.len() {
                old(self)@.data[i]
            } else {
                b
            }));
    }

    /// Writes data which may be 8-bit data.
    ///
    /// Fails if the data is not 7-bit and the encoder does not support 8-bit data,
    /// in which case nothing is written.
    pub fn try_write_8bit_data(&mut self, data: &[u8]) -> (r: Result<(), EncodingError>)
        requires
            old(self).wf(),
        ensures
            final(self).wf(),
            r is Err <==> (old(self)@.bits8 == Bits8State::Unsupported && !is_7bit(data@)),
            r matches Err(e) ==> e == EncodingError::TriedWriting8BitBytesInto7BitData && final(self)@ == old(self)@,
            r is Ok ==> {
                &&& final(self)@.data == old(self)@.data + data@
                &&& final(self)@.line_len == old(self)@.line_len + data@.len()
                &&& final(self)@.last_cfws == old(self)@.last_cfws
                &&& final(self)@.bits8 == (if old(self)@.bits8 == Bits8State::Supported
                    && !is_7bit(data@) {
                    Bits8State::Used
                } else {
                    old(self)@.bits8
                })
            },
    {
        match self.bits8_support {
            Bits8State::Unsupported => {
                if !is_7bit_data(data) {
                    return Err(EncodingError::TriedWriting8BitBytesInto7BitData);
                }
            },
            Bits8State::Supported => {
                if !is_7bit_data(data) {
                    self.bits8_support = Bits8State::Used;
                }
            },
            _ => {},
        }
        self.write_data_unchecked(data);
        if self.bits8_support != Bits8State::Used {
            assert(forall|i: int|
                0 <= i < self@.data.len() ==> #[trigger] self@.data[i] == (if i < old(self)@.data.len() {
                    old(self)@.data[i]
                } else {
                    data@[i - old(self)@.data.len()]
                }));
        }
        Ok(())
    }

    /// Writes `data` as encoded words (`=?utf8?Q?<Q encoded data>?=`, RFC 2047) of at
    /// most 75 bytes each: where the next character does not fit, the word is closed
    /// and a new one starts after a CRLF and a space.
    pub fn write_encoded_word(&mut self, data: &str)
        requires
            old(self).wf(),
        ensures
            final(self).wf(),
            final(self)@.data == old(self)@.data + encoded_word(vstd::utf8::encode_utf8(data@)),
            final(self)@.line_len == old(self)@.line_len + encoded_word(vstd::utf8::encode_utf8(data@)).len(),
            final(self)@.last_cfws == old(self)@.last_cfws,
            final(self)@.bits8 == old(self)@.bits8,
    {
        let bytes = data.as_bytes();
        let ghost d = bytes@;
        assert(d == vstd::utf8::encode_utf8(data@));
        let n = bytes.len();
        let mut out: Vec<u8> = Vec::new();
        push_encoded_word_prefix(&mut out);
        assert(out@ =~= encoded_word_prefix());
        let mut used: usize = 0;
        let mut i: usize = 0;
        while i < n
            invariant
                d == bytes@,
                n == d.len(),
                i <= n,
                out@ + encoded_words_from(d, i as int, used as nat) == encoded_word(d),
                all_ascii(out@),
            decreases n - i,
        {
            let mut j = i + 1;
            while j < n && 128 <= bytes[j] && bytes[j] < 192
                invariant
                    d == bytes@,
                    n == d.len(),
                    i < j <= n,
                    char_end(d, j as int) == char_end(d, i + 1),
                decreases n - j,
            {
                j += 1;
            }
            let mut unit = q_encode_range(bytes, i, j);
            proof {
                lemma_q_encoded_ascii(d.subrange(i as int, j as int));
            }
            let ghost rest = encoded_words_from(d, i as int, used as nat);
            let ghost old_out = out@;
            if used > 0 && (used > 64 || unit.len() > 64 - used) {
                let ghost u = unit@;
                let ulen = unit.len();
                out.push(63u8);
                out.push(61u8);
                out.push(13u8);
                out.push(10u8);
                out.push(32u8);
                let ghost before_prefix = out@;
                push_encoded_word_prefix(&mut out);
                out.append(&mut unit);
                used = ulen;
                proof {
                    assert(rest == encoded_word_suffix() + seq![13u8, 10, 32] + encoded_word_prefix() + u
                        + encoded_words_from(d, j as int, used as nat));
                    assert(before_prefix =~= old_out + encoded_word_suffix() + seq![13u8, 10, 32]);
                    assert(out@ =~= old_out + encoded_word_suffix() + seq![13u8, 10, 32] + encoded_word_prefix() + u);
                    lemma_ascii_concat(old_out, encoded_word_suffix() + seq![13u8, 10, 32] + encoded_word_prefix() + u);
                }
            } else {
                let ghost u = unit@;
                let ulen = unit.len();
                out.append(&mut unit);
                used = used + ulen;
                proof {
                    assert(rest == u + encoded_words_from(d, j as int, used as nat));
                    lemma_ascii_concat(old_out, u);
                }
            }
            i = j;
        }
        let ghost old_out = out@;
        out.push(63u8);
        out.push(61u8);
        proof {
            assert(out@ =~= old_out + encoded_word_suffix());
            lemma_ascii_concat(old_out, encoded_word_suffix());
        }
        self.write_ascii_data(out.as_slice());
    }

    /// Folds the current line at the last noted place (if there is one).
    ///
    /// If the byte at that place is a space, a CRLF is inserted before it, else a
    /// CRLF followed by a space is inserted. The line length becomes the number of
    /// bytes following the inserted CRLF.
    pub fn break_line_on_last_cfws(&mut self)
        requires
            old(self).wf(),
        ensures
            final(self).wf(),
            final(self)@.bits8 == old(self)@.bits8,
            final(self)@.last_cfws is None,
            old(self)@.last_cfws is None ==> final(self)@ == old(self)@,
            old(self)@.last_cfws matches Some(p) ==> {
                &&& final(self)@.data == folded(old(self)@.data, p as int)
                &&& final(self)@.line_len == final(self)@.data.len() - (p + 2)
            },
    {
        if let Some(cfws_pos) = self.last_cfws_pos {
            self.last_cfws_pos = None;
            let ghost old_data = self.inner@;
            if self.inner[cfws_pos] == 32u8 {
                let crlf: Vec<u8> = vec![13u8, 10u8];
                insert_bytes(&mut self.inner, cfws_pos, crlf.as_slice());
            } else {
                let crlf_sp: Vec<u8> = vec![13u8, 10u8, 32u8];
                insert_bytes(&mut self.inner, cfws_pos, crlf_sp.as_slice());
            }
            assert(self.inner@ == folded(old_data, cfws_pos as int));
            self.current_line_byte_length = self.inner.len() - (cfws_pos + 2);
            if self.bits8_support != Bits8State::Used {
                assert forall|i: int| 0 <= i < self@.data.len() implies #[trigger] self@.data[i]
                    < 128 by {
                    let fb = fold_bytes(old_data, cfws_pos as int);
                    if i < cfws_pos {
                        assert(self@.data[i] == old_data[i]);
                    } else if i < cfws_pos + fb.len() {
                        assert(self@.data[i] == fb[i - cfws_pos]);
                    } else {
                        assert(self@.data[i] == old_data[i - fb.len()]);
                    }
                }
            }
        }
    }

    /// The byte length of the current line, as counted since the encoder was made or
    /// the line was last folded (a CRLF inside written data does not reset it).
    pub fn current_line_byte_length(&self) -> (r: usize)
        ensures
            r == self@.line_len,
    {
        self.current_line_byte_length
    }

    /// Whether 8-bit data is supported and used.
    pub fn bits8_support(&self) -> (r: Bits8State)
        ensures
            r == self@.bits8,
    {
        self.bits8_support
    }

    /// Returns the written data as an ascii string, or the encoder itself if 8-bit data was used.
    pub fn into_ascii_string(self) -> (r: Result<String, MailEncoder>)
        requires
            self.wf(),
        ensures
            r is Err <==> self@.bits8 == Bits8State::Used,
            r matches Err(e) ==> e@ == self@,
            r matches Ok(s) ==> s@ == Seq::new(self@.data.len(), |i: int| self@.data[i] as char),
    {
        if self.bits8_support.is_used() {
            Err(self)
        } else {
            Ok(string_from_ascii(self.inner))
        }
    }

    /// Returns all written bytes.
    pub fn into_bytes(self) -> (r: Vec<u8>)
        ensures
            r@ == self@.data,
    {
        self.inner
    }
}

fn push_encoded_word_prefix(out: &mut Vec<u8>)
    ensures
        final(out)@ == old(out)@ + encoded_word_prefix(),
{
    out.push(61u8);
    out.push(63u8);
    out.push(117u8);
    out.push(116u8);
    out.push(102u8);
    out.push(56u8);
    out.push(63u8);
    out.push(81u8);
    out.push(63u8);
    assert(final(out)@ =~= old(out)@ + encoded_word_prefix());
}

proof fn lemma_ascii_concat(a: Seq<u8>, b: Seq<u8>)
    requires
        all_ascii(a),
        all_ascii(b),
    ensures
        all_ascii(a + b),
{
    assert forall|i: int| 0 <= i < (a + b).len() implies #[trigger] (a + b)[i] < 128 by {
        if i < a.len() {
            assert((a + b)[i] == a[i]);
        } else {
            assert((a + b)[i] == b[i - a.len()]);
        }
    }
}

/// The Q encoding of the bytes from `start` up to `end`.
fn q_encode_range(bytes: &[u8], start: usize, end: usize) -> (r: Vec<u8>)
    requires
        start <= end <= bytes@.len(),
    ensures
        r@ == q_encoded(bytes@.subrange(start as int, end as int)),
{
    let mut out: Vec<u8> = Vec::new();
    let mut i: usize = start;
    assert(bytes@.subrange(start as int, start as int) =~= Seq::<u8>::empty());
    while i < end
        invariant
            start <= i <= end,
            end <= bytes@.len(),
            out@ == q_encoded(bytes@.subrange(start as int, i as int)),
        decreases end - i,
    {
        q_encode_byte(&mut out, bytes[i]);
        proof {
            let p = bytes@.subrange(start as int, i + 1);
            assert(p.drop_last() =~= bytes@.subrange(start as int, i as int));
            assert(p.last() == bytes@[i as int]);
        }
        i += 1;
    }
    out
}

fn q_encode_byte(out: &mut Vec<u8>, b: u8)
    ensures
        final(out)@ == old(out)@ + q_byte(b),
{
    if b == 32 {
        out.push(95u8);
    } else if (97 <= b && b <= 122) || (65 <= b && b <= 90) || (48 <= b && b <= 57) || b == 33 || b == 42
        || b == 43 || b == 45 || b == 47 {
        out.push(b);
    } else {
        let hi = b / 16;
        let lo = b % 16;
        out.push(61u8);
        out.push(if hi < 10 { 48 + hi } else { 55 + hi });
        out.push(if lo < 10 { 48 + lo } else { 55 + lo });
    }
}

/// Writes the Q encoding (RFC 2047) of the utf-8 bytes of `input` into the encoder,
/// as the text of one encoded word (`write_encoded_word` splits longer text).
pub fn q_encode_for_encoded_word(encoder: &mut MailEncoder, ctx: MailType, input: &str)
    requires
        old(encoder).wf(),
    ensures
        final(encoder).wf(),
        final(encoder)@.data == old(encoder)@.data + q_encoded(vstd::utf8::encode_utf8(input@)),
        final(encoder)@.line_len == old(encoder)@.line_len + q_encoded(vstd::utf8::encode_utf8(input@)).len(),
        final(encoder)@.last_cfws == old(encoder)@.last_cfws,
        final(encoder)@.bits8 == old(encoder)@.bits8,
{
    let bytes = input.as_bytes();
    let ghost data = bytes@;
    assert(data == vstd::utf8::encode_utf8(input@));
    let out = q_encode_range(bytes, 0, bytes.len());
    assert(data.subrange(0, data.len() as int) =~= data);
    proof {
        lemma_q_encoded_ascii(data);
    }
    encoder.write_ascii_data(out.as_slice());
}

/// Writes an (ascii) domain into the encoder.
///
/// Non ascii domains would need to be punycoded, which is not supported.
pub fn puny_code_domain(input: &str, encoder: &mut MailEncoder)
    requires
        old(encoder).wf(),
        is_ascii_str(input@),
    ensures
        final(encoder).wf(),
        final(encoder)@.data == old(encoder)@.data + ascii_bytes(input@),
        final(encoder)@.line_len == old(encoder)@.line_len + input@.len(),
        final(encoder)@.last_cfws == old(encoder)@.last_cfws,
        final(encoder)@.bits8 == old(encoder)@.bits8,
{
    encoder.write_str(input)
}

/// Being a prefix is transitive.
pub proof fn lemma_prefix_trans(a: Seq<u8>, b: Seq<u8>, c: Seq<u8>)
    requires
        a.is_prefix_of(b),
        b.is_prefix_of(c),
    ensures
        a.is_prefix_of(c),
{
    assert forall|i: int| 0 <= i < a.len() implies a[i] == c[i] by {
        assert(a[i] == b.subrange(0, a.len() as int)[i]);
        assert(b[i] == c.subrange(0, b.len() as int)[i]);
    }
    assert(a =~= c.subrange(0, a.len() as int));
}

/// Data is a prefix of itself with something appended.
pub proof fn lemma_prefix_append(a: Seq<u8>, x: Seq<u8>)
    ensures
        a.is_prefix_of(a + x),
{
    assert(a =~= (a + x).subrange(0, a.len() as int));
}

/// A value which can be written into a mail.
pub trait MailEncodable {
    fn encode(&self, encoder: &mut MailEncoder) -> (r: Result<(), EncodingError>)
        requires
            old(encoder).wf(),
        ensures
            final(encoder).wf(),
            old(encoder)@.data.is_prefix_of(final(encoder)@.data),
    ;
}

/// A value which can be read from (a part of) a mail.
pub trait MailDecodable: Sized {
    fn decode(encoded: &str) -> Result<Self, EncodingError>;
}

} // verus!

verus! {

/// Folding a line only inserts a line break (a CRLF, followed by a space
/// where the fold position holds none): dropping the inserted bytes gives
/// back the data, and folding keeps 7-bit data 7-bit.
pub proof fn lemma_fold_inserts_line_break(data: Seq<u8>, pos: int)
    requires
        0 <= pos < data.len(),
    ensures
        folded(data, pos).len() == data.len() + fold_bytes(data, pos).len(),
        folded(data, pos).subrange(pos, pos + 2) == seq![13u8, 10u8],
        folded(data, pos).subrange(0, pos) + folded(data, pos).subrange(
            pos + fold_bytes(data, pos).len(),
            folded(data, pos).len() as int,
        ) == data,
        is_7bit(data) ==> is_7bit(folded(data, pos)),
{
    let f = folded(data, pos);
    let fb = fold_bytes(data, pos);
    assert(f.subrange(pos, pos + 2) =~= seq![13u8, 10u8]);
    assert(f.subrange(0, pos) + f.subrange(pos + fb.len(), f.len() as int) =~= data);
    if is_7bit(data) {
        assert forall|i: int| 0 <= i < f.len() implies #[trigger] f[i] < 128 by {
            if i < pos {
                assert(f[i] == data[i]);
            } else if i < pos + fb.len() {
                assert(f[i] == fb[i - pos]);
            } else {
                assert(f[i] == data[i - fb.len()]);
            }
        }
    }
}

} // verus!
