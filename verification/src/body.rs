//! The body of a mail part: a transfer encoded buffer which may still be
//! on its way (produced by a future that the caller polls).
use vstd::prelude::*;
use crate::error::ResourceError;
use crate::file_buffer::TransferEncodedFileBuffer;

verus! {

/// What polling the future producing a body's buffer gave.
#[derive(Debug)]
pub enum BodyPoll {
    /// The future is not done yet.
    NotReady,
    /// The future resolved to the buffer.
    Ready(TransferEncodedFileBuffer),
    /// The future resolved to an error.
    Failed(ResourceError),
}

/// Why a body has no buffer.
#[derive(Debug)]
pub enum BodyError {
    /// The future resolved to an error in an earlier poll; that error is gone.
    BodyFutureResolvedToAnError,
    /// The future resolved to this error in this poll.
    Resolved(ResourceError),
}

/// The state of a body.
#[derive(Debug)]
pub enum BodyState {
    /// A future is producing the buffer.
    Pending,
    /// The buffer the future resolved to (or which was given directly).
    Value(TransferEncodedFileBuffer),
    /// The future resolved to an error.
    Failed,
}

/// The body of a mail part.
#[derive(Debug)]
pub struct Body {
    body: BodyState,
}

impl Body {
    pub closed spec fn state(&self) -> BodyState {
        self.body
    }

    /// A body whose buffer is still being produced by a future.
    pub fn new_future() -> (r: Body)
        ensures
            r.state() is Pending,
    {
        Body { body: BodyState::Pending }
    }

    /// A body with an already transfer encoded buffer.
    pub fn new_resolved(data: TransferEncodedFileBuffer) -> (r: Body)
        ensures
            r.state() == BodyState::Value(data),
    {
        Body { body: BodyState::Value(data) }
    }

    /// The buffer, if the body holds it (i.e. the future resolved and the body
    /// knows about it).
    pub fn buffer_ref(&self) -> (r: Option<&TransferEncodedFileBuffer>)
        ensures
            match self.state() {
                BodyState::Value(b) => r == Some(&b),
                _ => r is None,
            },
    {
        match &self.body {
            BodyState::Value(value) => Some(value),
            _ => None,
        }
    }

    /// Polls the body for completion; `poll_future` polls the future producing
    /// the buffer and is only called while the body is pending.
    ///
    /// - a body which holds its buffer gives it (`Ok(Some)`),
    /// - a body whose future failed before gives `BodyFutureResolvedToAnError`,
    /// - a pending body whose future is not ready gives `Ok(None)`,
    /// - a pending body whose future is ready stores the buffer and gives it,
    /// - a pending body whose future failed becomes failed and gives the error.
    pub fn poll_body<F>(&mut self, poll_future: F) -> (r: Result<Option<&TransferEncodedFileBuffer>, BodyError>)
        where F: FnOnce() -> BodyPoll,
        requires
            old(self).state() is Pending ==> call_requires(poll_future, ()),
        ensures
            match old(self).state() {
                BodyState::Failed => final(self).state() is Failed
                    && r == Err::<Option<&TransferEncodedFileBuffer>, BodyError>(BodyError::BodyFutureResolvedToAnError),
                BodyState::Value(b) => final(self).state() == BodyState::Value(b) && r == Ok::<
                    Option<&TransferEncodedFileBuffer>,
                    BodyError,
                >(Some(&b)),
                BodyState::Pending => exists|p: BodyPoll|
                    #![trigger call_ensures(poll_future, (), p)]
                    call_ensures(poll_future, (), p) && match p {
                        BodyPoll::NotReady => final(self).state() is Pending
                            && r == Ok::<Option<&TransferEncodedFileBuffer>, BodyError>(None),
                        BodyPoll::Ready(b) => final(self).state() == BodyState::Value(b) && r == Ok::<
                            Option<&TransferEncodedFileBuffer>,
                            BodyError,
                        >(Some(&b)),
                        BodyPoll::Failed(e) => final(self).state() is Failed
                            && r == Err::<Option<&TransferEncodedFileBuffer>, BodyError>(BodyError::Resolved(e)),
                    },
            },
    {
        match &self.body {
            BodyState::Failed => {
                return Err(BodyError::BodyFutureResolvedToAnError);
            },
            BodyState::Value(_) => {
                return Ok(self.buffer_ref());
            },
            BodyState::Pending => {},
        }
        let p = poll_future();
        proof {
            assert(call_ensures(poll_future, (), p));
        }
        match p {
            BodyPoll::NotReady => Ok(None),
            BodyPoll::Ready(buffer) => {
                self.body = BodyState::Value(buffer);
                Ok(self.buffer_ref())
            },
            BodyPoll::Failed(e) => {
                self.body = BodyState::Failed;
                Err(BodyError::Resolved(e))
            },
        }
    }
}

} // verus!

verus! {

/// The encoding a body buffer gets when none is preset: 7-bit data stays
/// 7-bit (and is only checked), other text is quoted-printable encoded and
/// anything else base64 encoded.
pub open spec fn spec_body_encoding(
    data: Seq<u8>,
    content_type: crate::media_type::MediaTypeView,
    preset: Option<crate::file_buffer::TransferEncoding>,
) -> crate::file_buffer::TransferEncoding {
    match preset {
        Some(e) => e,
        None => if crate::codec::is_7bit(data) {
            crate::file_buffer::TransferEncoding::_7Bit
        } else if content_type.is_text() {
            crate::file_buffer::TransferEncoding::QuotedPrintable
        } else {
            crate::file_buffer::TransferEncoding::Base64
        },
    }
}

/// Transfer encodes the buffer a body's future resolved to, with the preset
/// encoding or the one `spec_body_encoding` picks.
pub fn encode_body_buffer(
    buffer: crate::file_buffer::FileBuffer,
    preset: Option<crate::file_buffer::TransferEncoding>,
) -> (r: Result<TransferEncodedFileBuffer, crate::error::EncodingError>)
    ensures
        ({
            let enc = spec_body_encoding(buffer@.data, buffer@.content_type, preset);
            match (r, crate::file_buffer::spec_encode_data(buffer@.data, enc)) {
                (Ok(b), Ok(d)) => {
                    &&& b@.encoding == enc
                    &&& b@.buffer.data == d
                    &&& b@.buffer.content_type == buffer@.content_type
                    &&& b@.buffer.file_meta == buffer@.file_meta
                },
                (Err(e), Err(e2)) => e == e2,
                _ => false,
            }
        }),
{
    let encoding = match preset {
        Some(e) => e,
        None => {
            if crate::codec::is_7bit_data(buffer.as_slice()) {
                crate::file_buffer::TransferEncoding::_7Bit
            } else if buffer.content_type().is_text() {
                crate::file_buffer::TransferEncoding::QuotedPrintable
            } else {
                crate::file_buffer::TransferEncoding::Base64
            }
        },
    };
    TransferEncodedFileBuffer::encode_buffer(buffer, Some(encoding))
}

} // verus!
