//! Errors produced by this crate.
use vstd::prelude::*;
use crate::iri::IRI;

verus! {

/// Encoding some data failed.
#[derive(Debug, Clone, Copy, PartialEq, Eq, Structural)]
pub enum EncodingError {
    /// 8-bit data was written into an encoder which does not support 8-bit data.
    TriedWriting8BitBytesInto7BitData,
    /// The data is not in the text encoding it is claimed to be in (e.g. not 7-bit).
    InvalidTextEncoding,
    /// The data is malformed wrt. the target encoding (e.g. `\0` or orphan `\r`, `\n`).
    Malformed,
    /// The body of a mail was accessed before it was loaded and transfer encoded.
    AccessingMailBodyFailed,
    /// A list which needs at least one element was empty.
    AtLeastOneElementIsRequired,
    /// A character which can not be represented in a quoted string.
    CanNotQuote,
    /// An item which is not valid as word (of a phrase).
    InvalidWord,
}

/// Reasons why the loading of an `Resource` can fail.
#[derive(Debug, Clone, Copy, PartialEq, Eq, Structural)]
pub enum ResourceLoadingErrorKind {
    /// The resource wasn't found.
    NotFound,
    /// Loading the resource already failed before.
    SharedResourcePoisoned,
    /// The act of loading it failed (e.g. because of an I/O-Error).
    LoadingFailed,
}

/// The loading of an Resource failed.
#[derive(Debug, Clone)]
pub struct ResourceLoadingError {
    kind: ResourceLoadingErrorKind,
    iri: Option<IRI>,
}

impl ResourceLoadingError {
    pub closed spec fn spec_kind(&self) -> ResourceLoadingErrorKind {
        self.kind
    }

    pub closed spec fn spec_iri(&self) -> Option<IRI> {
        self.iri
    }

    /// Creates an error of the given kind, with the IRI which failed to load (if known).
    pub fn new(kind: ResourceLoadingErrorKind, iri: Option<IRI>) -> (r: Self)
        ensures
            r.spec_kind() == kind,
            r.spec_iri() == iri,
    {
        ResourceLoadingError { kind, iri }
    }

    /// The kind of error which caused the loading to fail.
    pub fn kind(&self) -> (r: ResourceLoadingErrorKind)
        ensures
            r == self.spec_kind(),
    {
        self.kind
    }

    /// The source IRI which was used when failing to load the Resource.
    pub fn source_iri(&self) -> (r: Option<&IRI>)
        ensures
            r == match self.spec_iri() {
                Some(i) => Some(&i),
                None => None::<&IRI>,
            },
    {
        self.iri.as_ref()
    }

    /// Sets the source IRI if not already set and returns self.
    pub fn with_source_iri_or_else<F>(self, func: F) -> (r: Self)
        where F: FnOnce() -> Option<IRI>,
        requires
            self.spec_iri() is None ==> call_requires(func, ()),
        ensures
            r.spec_kind() == self.spec_kind(),
            self.spec_iri() is Some ==> r.spec_iri() == self.spec_iri(),
            self.spec_iri() is None ==> call_ensures(func, (), r.spec_iri()),
    {
        let mut this = self;
        if this.iri.is_none() {
            this.iri = func();
        }
        this
    }
}

/// Error caused by failing to load an `Resource`.
#[derive(Debug, Clone)]
pub enum ResourceError {
    /// The loading on itself failed.
    Loading(ResourceLoadingError),
    /// The (transfer) encoding of the resource failed.
    Encoding(EncodingError),
}

/// Some additional reasons why building a mail might fail.
#[derive(Debug, Clone, Copy, PartialEq, Eq, Structural)]
pub enum OtherBuilderErrorKind {
    /// Builder tried to insert `Content-Type` header.
    InsertingContentTypeHeader,
    /// Builder tried to insert `Content-Transfer-Encoding` header.
    InsertingContentTransferEncodingHeader,
    /// Inserting a header changing if a body is single/multipart is not allowed.
    SingleMultipartMixup,
    /// Inserting a `Content-Type` header into a singlepart body is not allowed.
    InsertSinglepartContentTypeHeader,
    /// Multipart bodies need at least one part.
    EmptyMultipartBody,
}

/// A header body of the wrong type was used for a header.
#[derive(Debug, Clone, PartialEq, Eq)]
pub struct HeaderTypeError {
    pub header_name: String,
}

/// Creating a header component from its input failed (e.g. an invalid media type).
#[derive(Debug, Clone, PartialEq, Eq)]
pub struct ComponentCreationError {
    pub component: String,
}

/// A validation of the headers of a mail failed.
#[derive(Debug, Clone, Copy, PartialEq, Eq, Structural)]
pub enum HeaderValidationError {
    /// The mail has no `From` header.
    NoFrom,
    /// The mail has a `From` header with more than one mailbox but no `Sender` header.
    MultiMailboxFromWithoutSender,
}

/// Building the mail failed.
#[derive(Debug, Clone)]
pub enum BuilderError {
    /// A header body of the wrong type was used for a header.
    Type(HeaderTypeError),
    /// Failed to create the required components.
    Component(ComponentCreationError),
    /// A different kind of error occurred (see `OtherBuilderErrorKind`).
    Other(OtherBuilderErrorKind),
}

/// General error combining most other errors wrt. mail creation and encoding.
#[derive(Debug, Clone)]
pub enum MailError {
    /// Encoding the mail failed.
    Encoding(EncodingError),
    /// Creating the mail failed.
    Creation(BuilderError),
    /// The mail has some invalid header or header combinations.
    Validation(HeaderValidationError),
    /// Loading an resource failed.
    ResourceLoading(ResourceLoadingError),
}

/// Turns a resource error into the corresponding mail error.
pub fn mail_error_from_resource_error(err: ResourceError) -> (r: MailError)
    ensures
        match err {
            ResourceError::Loading(e) => r == MailError::ResourceLoading(e),
            ResourceError::Encoding(e) => r == MailError::Encoding(e),
        },
{
    match err {
        ResourceError::Loading(e) => MailError::ResourceLoading(e),
        ResourceError::Encoding(e) => MailError::Encoding(e),
    }
}

/// Error returned when trying to unload an `Resource` and it fails.
#[derive(Debug, Clone, Copy, PartialEq, Eq, Structural)]
pub enum ResourceNotUnloadableError {
    /// The resource can not be unloaded because it's in use.
    InUse,
    /// The resource can not be unloaded because it doesn't have a source.
    NoSource,
}

} // verus!
