//! A buffer holding the content of a (potential) file together with its media
//! type and file metadata, and the content transfer encoding of such buffers.
use vstd::prelude::*;
use crate::date_time::DateTime;
use crate::encodings::{base64_mime_encode, base64_mime_encoded, quoted_printable_encode, quoted_printable_encoded};
use crate::error::EncodingError;
use crate::media_type::{MediaType, MediaTypeView};

verus! {

/// The content transfer encodings of RFC 2045.
#[derive(Debug, Clone, Copy, PartialEq, Eq, Hash, Structural)]
pub enum TransferEncoding {
    _7Bit,
    _8Bit,
    Binary,
    QuotedPrintable,
    Base64,
}

/// Metadata of a file.
#[derive(Debug, Clone)]
pub struct FileMeta {
    pub file_name: Option<String>,
    pub creation_date: Option<DateTime>,
    pub modification_date: Option<DateTime>,
    pub read_date: Option<DateTime>,
    pub size: Option<usize>,
}

impl FileMeta {
    /// File metadata with nothing known.
    pub fn empty() -> (r: FileMeta)
        ensures
            r.file_name is None,
            r.creation_date is None,
            r.modification_date is None,
            r.read_date is None,
            r.size is None,
    {
        FileMeta {
            file_name: None,
            creation_date: None,
            modification_date: None,
            read_date: None,
            size: None,
        }
    }
}

/// A byte buffer containing the file content and associated `FileMeta` and `MediaType`.
#[derive(Debug, Clone)]
pub struct FileBuffer {
    content_type: MediaType,
    data: Vec<u8>,
    file_meta: FileMeta,
}

pub struct FileBufferView {
    pub content_type: MediaTypeView,
    pub data: Seq<u8>,
    pub file_meta: FileMeta,
}

impl View for FileBuffer {
    type V = FileBufferView;

    closed spec fn view(&self) -> FileBufferView {
        FileBufferView {
            content_type: self.content_type@,
            data: self.data@,
            file_meta: self.file_meta,
        }
    }
}

/// The encoding chosen for a buffer if none is preferred.
pub open spec fn spec_find_encoding(content_type: MediaTypeView) -> TransferEncoding {
    if content_type.has_ascii_charset() {
        TransferEncoding::_7Bit
    } else if content_type.is_text() {
        TransferEncoding::QuotedPrintable
    } else {
        TransferEncoding::Base64
    }
}

/// The default transfer encoding of a content type: text whose charset is
/// us-ascii, or which names no charset (so is us-ascii), is 7bit; other text is
/// quoted-printable; anything else is base64.
pub proof fn lemma_default_encoding(ct: MediaTypeView)
    ensures
        ct.has_ascii_charset() <==> (ct.type_ == "text"@ && (ct.param("charset"@) is None || ct.param(
            "charset"@,
        ) == Some("us-ascii"@))),
        ct.type_ == "text"@ && ct.param("charset"@) is None ==> spec_find_encoding(ct) == TransferEncoding::_7Bit,
        ct.type_ == "text"@ && ct.param("charset"@) == Some("us-ascii"@) ==> spec_find_encoding(ct)
            == TransferEncoding::_7Bit,
        ct.type_ == "text"@ && (ct.param("charset"@) matches Some(c) && c != "us-ascii"@) ==> spec_find_encoding(ct)
            == TransferEncoding::QuotedPrintable,
        ct.type_ != "text"@ ==> spec_find_encoding(ct) == TransferEncoding::Base64,
{
}

/// The byte before position `i` (a NUL byte before the first one).
pub open spec fn prev_byte(data: Seq<u8>, i: int) -> u8 {
    if i == 0 {
        0u8
    } else {
        data[i - 1]
    }
}

/// A byte which is neither NUL nor an orphan CR or LF (a CR must be followed by a
/// LF and a LF must follow a CR).
pub open spec fn line_ending_ok(data: Seq<u8>, i: int) -> bool {
    &&& data[i] != 0
    &&& (prev_byte(data, i) == 13) == (data[i] == 10)
}

pub open spec fn byte_ok_7bit(data: Seq<u8>, i: int) -> bool {
    data[i] < 128 && line_ending_ok(data, i)
}

pub open spec fn valid_7bit(data: Seq<u8>) -> bool {
    forall|i: int| 0 <= i < data.len() ==> #[trigger] byte_ok_7bit(data, i)
}

pub open spec fn valid_8bit(data: Seq<u8>) -> bool {
    forall|i: int| 0 <= i < data.len() ==> #[trigger] line_ending_ok(data, i)
}

/// The error `encode_7bit` reports for data which is not valid 7-bit data: the first
/// offending byte decides whether it is not 7-bit at all or just malformed.
pub open spec fn error_7bit(data: Seq<u8>) -> EncodingError {
    let i = choose|i: int|
        0 <= i < data.len() && !byte_ok_7bit(data, i) && forall|j: int|
            0 <= j < i ==> #[trigger] byte_ok_7bit(data, j);
    if data[i] >= 128 {
        EncodingError::InvalidTextEncoding
    } else {
        EncodingError::Malformed
    }
}

/// The result of content transfer encoding a buffer's data with the given encoding.
pub open spec fn spec_encode_data(data: Seq<u8>, encoding: TransferEncoding) -> Result<
    Seq<u8>,
    EncodingError,
> {
    match encoding {
        TransferEncoding::_7Bit => if valid_7bit(data) {
            Ok(data)
        } else {
            Err(error_7bit(data))
        },
        TransferEncoding::_8Bit => if valid_8bit(data) {
            Ok(data)
        } else {
            Err(EncodingError::Malformed)
        },
        TransferEncoding::Binary => Ok(data),
        TransferEncoding::QuotedPrintable => Ok(quoted_printable_encoded(data)),
        TransferEncoding::Base64 => Ok(base64_mime_encoded(data)),
    }
}

impl FileBuffer {
    /// Creates a new buffer from a media type and a byte buffer, with empty file metadata.
    pub fn new(content_type: MediaType, data: Vec<u8>) -> (r: FileBuffer)
        ensures
            r@.content_type == content_type@,
            r@.data == data@,
            r@.file_meta.file_name is None,
            r@.file_meta.size is None,
            r@.file_meta.creation_date is None,
            r@.file_meta.modification_date is None,
            r@.file_meta.read_date is None,
    {
        FileBuffer::with_file_meta(content_type, data, FileMeta::empty())
    }

    /// Creates a new buffer from data, a media type and a `FileMeta` instance.
    pub fn with_file_meta(content_type: MediaType, data: Vec<u8>, file_meta: FileMeta) -> (r:
        FileBuffer)
        ensures
            r@.content_type == content_type@,
            r@.data == data@,
            r@.file_meta == file_meta,
    {
        FileBuffer { content_type, data, file_meta }
    }

    /// Replaces the contained data by what `modif` makes of it.
    pub fn with_data<FN>(self, modif: FN) -> (r: Self)
        where FN: FnOnce(Vec<u8>) -> Vec<u8>,
        requires
            call_requires(modif, (self.spec_data(),)),
        ensures
            r@.content_type == self@.content_type,
            r@.file_meta == self@.file_meta,
            exists|d: Vec<u8>| call_ensures(modif, (self.spec_data(),), d) && r@.data == d@,
            self.spec_data()@ == self@.data,
    {
        let mut this = self;
        let data = this.data;
        this.data = modif(data);
        this
    }

    pub closed spec fn spec_data(&self) -> Vec<u8> {
        self.data
    }

    /// The content type associated with the buffer.
    pub fn content_type(&self) -> (r: &MediaType)
        ensures
            r@ == self@.content_type,
    {
        &self.content_type
    }

    /// The file metadata.
    pub fn file_meta(&self) -> (r: &FileMeta)
        ensures
            *r == self@.file_meta,
    {
        &self.file_meta
    }

    /// The file metadata, for changing it.
    pub fn file_meta_mut(&mut self) -> (r: &mut FileMeta)
        ensures
            *r == old(self)@.file_meta,
            final(self)@.file_meta == *final(r),
            final(self)@.data == old(self)@.data,
            final(self)@.content_type == old(self)@.content_type,
    {
        &mut self.file_meta
    }

    /// Replaces the file metadata.
    pub fn set_file_meta(&mut self, file_meta: FileMeta)
        ensures
            final(self)@.content_type == old(self)@.content_type,
            final(self)@.data == old(self)@.data,
            final(self)@.file_meta == file_meta,
    {
        self.file_meta = file_meta;
    }

    /// The contained data.
    pub fn as_slice(&self) -> (r: &[u8])
        ensures
            r@ == self@.data,
    {
        self.data.as_slice()
    }

    /// Returns true if the content type is a `text` type and the charset is `us-ascii` (or not given).
    pub fn has_ascii_charset(&self) -> (r: bool)
        ensures
            r == self@.content_type.has_ascii_charset(),
    {
        proof {
            reveal_strlit("charset");
            reveal_strlit("us-ascii");
        }
        let ct = self.content_type();
        ct.is_text() && match ct.get_param("charset") {
            Some(charset) => crate::text::str_eq(charset, "us-ascii"),
            None => true,
        }
    }

    /// Returns true if the content type is a `text` type.
    pub fn contains_text(&self) -> (r: bool)
        ensures
            r == self@.content_type.is_text(),
    {
        self.content_type().is_text()
    }

    /// Returns the data.
    pub fn into_data(self) -> (r: Vec<u8>)
        ensures
            r@ == self@.data,
    {
        self.data
    }
}

/// Tries to find a good content transfer encoding for the buffer.
///
/// `7bit` for ascii text, quoted-printable for other text and base64 for anything else.
pub fn find_encoding(buffer: &FileBuffer) -> (r: TransferEncoding)
    ensures
        r == spec_find_encoding(buffer@.content_type),
{
    if buffer.has_ascii_charset() {
        TransferEncoding::_7Bit
    } else if buffer.contains_text() {
        TransferEncoding::QuotedPrintable
    } else {
        TransferEncoding::Base64
    }
}

/// A version of a file buffer where the content had been transfer encoded.
#[derive(Debug, Clone)]
pub struct TransferEncodedFileBuffer {
    inner: FileBuffer,
    encoding: TransferEncoding,
}

pub struct TransferEncodedView {
    pub buffer: FileBufferView,
    pub encoding: TransferEncoding,
}

impl View for TransferEncodedFileBuffer {
    type V = TransferEncodedView;

    closed spec fn view(&self) -> TransferEncodedView {
        TransferEncodedView { buffer: self.inner@, encoding: self.encoding }
    }
}

/// The encoding used by `encode_buffer`: the preferred one if given, else the one
/// `find_encoding` picks.
pub open spec fn spec_chosen_encoding(
    content_type: MediaTypeView,
    preferred: Option<TransferEncoding>,
) -> TransferEncoding {
    match preferred {
        Some(e) => e,
        None => spec_find_encoding(content_type),
    }
}

impl TransferEncodedFileBuffer {
    /// Creates a buffer assuming its data to be encoded with the given content transfer encoding.
    pub fn buffer_is_encoded(buf: FileBuffer, with_encoding: TransferEncoding) -> (r: Self)
        ensures
            r@.buffer == buf@,
            r@.encoding == with_encoding,
    {
        TransferEncodedFileBuffer { inner: buf, encoding: with_encoding }
    }

    /// The content transfer encoding used when encoding this buffer.
    pub fn transfer_encoding(&self) -> (r: &TransferEncoding)
        ensures
            *r == self@.encoding,
    {
        &self.encoding
    }

    /// The (encoded) buffer.
    pub fn buffer(&self) -> (r: &FileBuffer)
        ensures
            r@ == self@.buffer,
    {
        &self.inner
    }

    /// Transforms an unencoded `FileBuffer` into a `TransferEncodedFileBuffer`.
    ///
    /// - If a preferred encoding is given it is used.
    /// - Else if the buffer has an ascii charset 7Bit encoding is used.
    /// - Else if the buffer contains text quoted-printable is used.
    /// - Else base64 encoding is used.
    ///
    /// 7Bit fails for data which is not 7-bit or contains NUL or orphan CR/LF bytes,
    /// 8Bit fails for data with NUL or orphan CR/LF bytes.
    pub fn encode_buffer(buffer: FileBuffer, preferred_encoding: Option<TransferEncoding>) -> (r:
        Result<TransferEncodedFileBuffer, EncodingError>)
        ensures
            ({
                let enc = spec_chosen_encoding(buffer@.content_type, preferred_encoding);
                match (r, spec_encode_data(buffer@.data, enc)) {
                    (Ok(b), Ok(d)) => {
                        &&& b@.encoding == enc
                        &&& b@.buffer.data == d
                        &&& b@.buffer.content_type == buffer@.content_type
                        &&& b@.buffer.file_meta == buffer@.file_meta
                    },
                    (Err(e), Err(e2)) => e == e2,
                    _ => false,
                }
            }),
    {
        let encoding = match preferred_encoding {
            Some(e) => e,
            None => find_encoding(&buffer),
        };
        match encoding {
            TransferEncoding::_7Bit => encode_7bit(buffer),
            TransferEncoding::_8Bit => encode_8bit(buffer),
            TransferEncoding::Binary => encode_binary(buffer),
            TransferEncoding::QuotedPrintable => encode_quoted_printable(buffer),
            TransferEncoding::Base64 => encode_base64(buffer),
        }
    }

    /// The content of the buffer.
    pub fn as_slice(&self) -> (r: &[u8])
        ensures
            r@ == self@.buffer.data,
    {
        self.inner.as_slice()
    }
}

/// Checks that the buffer is valid 7bit data (ascii without NUL, line breaks only as CRLF)
/// and marks it as 7bit encoded.
pub fn encode_7bit(buffer: FileBuffer) -> (r: Result<TransferEncodedFileBuffer, EncodingError>)
    ensures
        match (r, spec_encode_data(buffer@.data, TransferEncoding::_7Bit)) {
            (Ok(b), Ok(d)) => b@.encoding == TransferEncoding::_7Bit && b@.buffer == buffer@,
            (Err(e), Err(e2)) => e == e2,
            _ => false,
        },
{
    let data = buffer.as_slice();
    let mut last: u8 = 0;
    let mut i: usize = 0;
    while i < data.len()
        invariant
            i <= data@.len(),
            data@ == buffer@.data,
            last == prev_byte(data@, i as int),
            forall|k: int| 0 <= k < i ==> #[trigger] byte_ok_7bit(data@, k),
        decreases data@.len() - i,
    {
        let byte = data[i];
        if byte >= 128 {
            proof {
                lemma_first_bad_7bit(data@, i as int);
            }
            return Err(EncodingError::InvalidTextEncoding);
        }
        if byte == 0 || ((last == 13) != (byte == 10)) {
            proof {
                lemma_first_bad_7bit(data@, i as int);
            }
            return Err(EncodingError::Malformed);
        }
        last = byte;
        i += 1;
    }
    Ok(TransferEncodedFileBuffer::buffer_is_encoded(buffer, TransferEncoding::_7Bit))
}

proof fn lemma_first_bad_7bit(data: Seq<u8>, i: int)
    requires
        0 <= i < data.len(),
        !byte_ok_7bit(data, i),
        forall|k: int| 0 <= k < i ==> #[trigger] byte_ok_7bit(data, k),
    ensures
        !valid_7bit(data),
        error_7bit(data) == (if data[i] >= 128 {
            EncodingError::InvalidTextEncoding
        } else {
            EncodingError::Malformed
        }),
{
    let w = choose|j: int|
        0 <= j < data.len() && !byte_ok_7bit(data, j) && forall|m: int|
            0 <= m < j ==> #[trigger] byte_ok_7bit(data, m);
    assert(0 <= i < data.len() && !byte_ok_7bit(data, i) && forall|m: int|
        0 <= m < i ==> #[trigger] byte_ok_7bit(data, m));
    if w < i {
        assert(byte_ok_7bit(data, w));
    }
    if w > i {
        assert(byte_ok_7bit(data, i));
    }
}

fn encode_8bit(buffer: FileBuffer) -> (r: Result<TransferEncodedFileBuffer, EncodingError>)
    ensures
        match (r, spec_encode_data(buffer@.data, TransferEncoding::_8Bit)) {
            (Ok(b), Ok(d)) => b@.encoding == TransferEncoding::_8Bit && b@.buffer == buffer@,
            (Err(e), Err(e2)) => e == e2,
            _ => false,
        },
{
    let data = buffer.as_slice();
    let mut last: u8 = 0;
    let mut i: usize = 0;
    while i < data.len()
        invariant
            i <= data@.len(),
            data@ == buffer@.data,
            last == prev_byte(data@, i as int),
            forall|k: int| 0 <= k < i ==> #[trigger] line_ending_ok(data@, k),
        decreases data@.len() - i,
    {
        let byte = data[i];
        if byte == 0 || ((last == 13) != (byte == 10)) {
            assert(!line_ending_ok(data@, i as int));
            return Err(EncodingError::Malformed);
        }
        last = byte;
        i += 1;
    }
    Ok(TransferEncodedFileBuffer::buffer_is_encoded(buffer, TransferEncoding::_8Bit))
}

/// Binary data is kept as it is (RFC 2045 notes that no standardized mail
/// transport allows unencoded binary data, but some extensions do).
fn encode_binary(buffer: FileBuffer) -> (r: Result<TransferEncodedFileBuffer, EncodingError>)
    ensures
        r matches Ok(b) && b@.encoding == TransferEncoding::Binary && b@.buffer == buffer@,
{
    Ok(TransferEncodedFileBuffer::buffer_is_encoded(buffer, TransferEncoding::Binary))
}

fn encode_quoted_printable(buffer: FileBuffer) -> (r: Result<
    TransferEncodedFileBuffer,
    EncodingError,
>)
    ensures
        r matches Ok(b) && b@.encoding == TransferEncoding::QuotedPrintable && b@.buffer.data
            == quoted_printable_encoded(buffer@.data) && b@.buffer.content_type
            == buffer@.content_type && b@.buffer.file_meta == buffer@.file_meta,
{
    let FileBuffer { content_type, data, file_meta } = buffer;
    let data = quoted_printable_encode(data.as_slice());
    let encoded = FileBuffer { content_type, data, file_meta };
    Ok(TransferEncodedFileBuffer::buffer_is_encoded(encoded, TransferEncoding::QuotedPrintable))
}

fn encode_base64(buffer: FileBuffer) -> (r: Result<TransferEncodedFileBuffer, EncodingError>)
    ensures
        r matches Ok(b) && b@.encoding == TransferEncoding::Base64 && b@.buffer.data
            == base64_mime_encoded(buffer@.data) && b@.buffer.content_type == buffer@.content_type
            && b@.buffer.file_meta == buffer@.file_meta,
{
    let FileBuffer { content_type, data, file_meta } = buffer;
    let _len = crate::encodings::byte_len(data.as_slice());
    let data = base64_mime_encode(data.as_slice());
    let encoded = FileBuffer { content_type, data, file_meta };
    Ok(TransferEncodedFileBuffer::buffer_is_encoded(encoded, TransferEncoding::Base64))
}

} // verus!

verus! {

/// Data that can be sent as 7-bit data can be sent as 8-bit data; the
/// identity encodings (7-bit, 8-bit, binary) leave the data as it is when
/// they succeed; binary never fails.
pub proof fn lemma_identity_encodings(data: Seq<u8>)
    ensures
        valid_7bit(data) ==> valid_8bit(data),
        spec_encode_data(data, TransferEncoding::_7Bit) is Ok ==> spec_encode_data(data, TransferEncoding::_8Bit) is Ok,
        spec_encode_data(data, TransferEncoding::_7Bit) matches Ok(d) ==> d == data,
        spec_encode_data(data, TransferEncoding::_8Bit) matches Ok(d) ==> d == data,
        spec_encode_data(data, TransferEncoding::Binary) == Ok::<Seq<u8>, EncodingError>(data),
{
    if valid_7bit(data) {
        assert forall|i: int| 0 <= i < data.len() implies #[trigger] line_ending_ok(data, i) by {
            assert(byte_ok_7bit(data, i));
        }
    }
}

} // verus!

verus! {

/// The name of a content transfer encoding as written in a header.
pub open spec fn transfer_encoding_name(e: TransferEncoding) -> Seq<char> {
    match e {
        TransferEncoding::_7Bit => seq!['7', 'b', 'i', 't'],
        TransferEncoding::_8Bit => seq!['8', 'b', 'i', 't'],
        TransferEncoding::Binary => seq!['b', 'i', 'n', 'a', 'r', 'y'],
        TransferEncoding::QuotedPrintable => seq![
            'q', 'u', 'o', 't', 'e', 'd', '-', 'p', 'r', 'i', 'n', 't', 'a', 'b', 'l', 'e'
        ],
        TransferEncoding::Base64 => seq!['b', 'a', 's', 'e', '6', '4'],
    }
}

impl TransferEncoding {
    /// The name as written in a header.
    pub fn name(&self) -> (r: &'static str)
        ensures
            r@ == transfer_encoding_name(*self),
            crate::codec::is_ascii_str(r@),
    {
        match self {
            TransferEncoding::_7Bit => {
                proof {
                    reveal_strlit("7bit");
                }
                "7bit"
            },
            TransferEncoding::_8Bit => {
                proof {
                    reveal_strlit("8bit");
                }
                "8bit"
            },
            TransferEncoding::Binary => {
                proof {
                    reveal_strlit("binary");
                }
                "binary"
            },
            TransferEncoding::QuotedPrintable => {
                proof {
                    reveal_strlit("quoted-printable");
                }
                "quoted-printable"
            },
            TransferEncoding::Base64 => {
                proof {
                    reveal_strlit("base64");
                }
                "base64"
            },
        }
    }
}

impl crate::codec::MailEncodable for TransferEncoding {
    /// Writes the name of the encoding.
    fn encode(&self, encoder: &mut crate::codec::MailEncoder) -> (r: Result<(), EncodingError>)
        ensures
            r is Ok,
            final(encoder)@.data == old(encoder)@.data + crate::codec::ascii_bytes(transfer_encoding_name(*self)),
    {
        let ghost start = encoder@.data;
        encoder.write_str(self.name());
        proof {
            crate::codec::lemma_prefix_append(start, crate::codec::ascii_bytes(transfer_encoding_name(*self)));
        }
        Ok(())
    }
}

} // verus!

verus! {

/// 7-bit encoding succeeds exactly on data whose bytes are all below 128 and
/// not NUL, where a LF always follows a CR and a CR is always followed by a
/// LF (a CR at the very end is let through); it then leaves the data as it
/// is. Otherwise the first offending byte decides the error: a byte of 128 or
/// above gives `InvalidTextEncoding`, any other `Malformed`.
pub proof fn lemma_7bit_outcome(data: Seq<u8>)
    ensures
        spec_encode_data(data, TransferEncoding::_7Bit) is Ok <==> forall|i: int| 0 <= i < data.len() ==> {
            &&& #[trigger] data[i] < 128
            &&& data[i] != 0
            &&& (i > 0 && data[i - 1] == 13) == (data[i] == 10)
        },
        spec_encode_data(data, TransferEncoding::_7Bit) matches Ok(d) ==> d == data,
        forall|i: int|
            0 <= i < data.len() && !byte_ok_7bit(data, i) && (forall|k: int| 0 <= k < i ==> #[trigger] byte_ok_7bit(data, k))
                ==> #[trigger] spec_encode_data(data, TransferEncoding::_7Bit) == Err::<Seq<u8>, EncodingError>(
                if data[i] >= 128 {
                    EncodingError::InvalidTextEncoding
                } else {
                    EncodingError::Malformed
                },
            ),
{
    if valid_7bit(data) {
        assert forall|i: int| 0 <= i < data.len() implies {
            &&& #[trigger] data[i] < 128
            &&& data[i] != 0
            &&& (i > 0 && data[i - 1] == 13) == (data[i] == 10)
        } by {
            assert(byte_ok_7bit(data, i));
            if i == 0 {
                assert(prev_byte(data, i) == 0u8);
            }
        }
    } else {
        let i = choose|i: int| 0 <= i < data.len() && !#[trigger] byte_ok_7bit(data, i);
        if i == 0 {
            assert(prev_byte(data, i) == 0u8);
        }
        assert(!{
            &&& data[i] < 128
            &&& data[i] != 0
            &&& (i > 0 && data[i - 1] == 13) == (data[i] == 10)
        });
    }
    assert forall|i: int|
        0 <= i < data.len() && !byte_ok_7bit(data, i) && (forall|k: int| 0 <= k < i ==> #[trigger] byte_ok_7bit(data, k))
            implies #[trigger] spec_encode_data(data, TransferEncoding::_7Bit) == Err::<Seq<u8>, EncodingError>(
            if data[i] >= 128 {
                EncodingError::InvalidTextEncoding
            } else {
                EncodingError::Malformed
            },
        ) by {
        lemma_first_bad_7bit(data, i);
    }
}

} // verus!
