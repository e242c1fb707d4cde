//! Loading resources from the file system: which file a source names, and
//! how the bytes read from it become a `FileBuffer`.
//!
//! The reading itself is left to the caller; this module decides whether a
//! source can be served, the path (relative to the loader's root) to read,
//! and what is done with the bytes afterwards.
use vstd::prelude::*;
use crate::error::{ResourceLoadingError, ResourceLoadingErrorKind};
use crate::file_buffer::{FileBuffer, FileMeta};
use crate::iri::IRI;
use crate::media_type::MediaType;
use crate::resource::Source;
use crate::text::str_eq;

verus! {

broadcast use vstd::string::group_string_axioms;

/// The scheme a loader serves when none is given.
pub open spec fn default_scheme() -> Seq<char> {
    seq!['p', 'a', 't', 'h']
}

/// Every `\r` is directly followed by a `\n` and every `\n` directly
/// follows a `\r`: the data uses CRLF line endings only.
pub open spec fn crlf_only(data: Seq<u8>) -> bool {
    &&& forall|i: int| 0 <= i < data.len() && #[trigger] data[i] == 0x0Du8 ==> i + 1 < data.len() && data[i + 1] == 0x0Au8
    &&& forall|i: int| 0 <= i < data.len() && #[trigger] data[i] == 0x0Au8 ==> i > 0 && data[i - 1] == 0x0Du8
}

/// The path named by an IRI tail: a leading `///` loses its first two
/// slashes (so `path:///abs` names `/abs`), any other tail is taken as is.
pub open spec fn spec_path_from_tail(tail: Seq<char>) -> Seq<char> {
    if tail.len() >= 3 && tail[0] == '/' && tail[1] == '/' && tail[2] == '/' {
        tail.subrange(2, tail.len() as int)
    } else {
        tail
    }
}

/// A resource loader which reads files below a root directory.
///
/// `validate_scheme` decides whether the loader only serves sources whose
/// IRI has the loader's scheme (with it off the loader can sit behind a
/// dispatcher that already selected it by scheme); `fix_newlines` decides
/// whether newlines of the loaded data are normalised (meant for templates,
/// not for embeddings or attachments which get transfer encoded anyway).
#[derive(Debug, Clone, PartialEq, Eq)]
pub struct FsResourceLoader {
    root: String,
    scheme: String,
    validate_scheme: bool,
    fix_newlines: bool,
}

pub struct FsResourceLoaderView {
    pub root: Seq<char>,
    pub scheme: Seq<char>,
    pub validate_scheme: bool,
    pub fix_newlines: bool,
}

impl View for FsResourceLoader {
    type V = FsResourceLoaderView;

    closed spec fn view(&self) -> FsResourceLoaderView {
        FsResourceLoaderView {
            root: self.root@,
            scheme: self.scheme@,
            validate_scheme: self.validate_scheme,
            fix_newlines: self.fix_newlines,
        }
    }
}

impl FsResourceLoader {
    /// A loader for the `path` scheme below `root`, validating the scheme and
    /// leaving newlines as they are.
    pub fn new(root: String) -> (r: Self)
        ensures
            r@.root == root@,
            r@.scheme == default_scheme(),
            r@.validate_scheme,
            !r@.fix_newlines,
    {
        let scheme = "path";
        proof {
            reveal_strlit("path");
        }
        Self::new_with_scheme(root, scheme.to_owned())
    }

    /// A loader for the given scheme below `root`, validating the scheme and
    /// leaving newlines as they are.
    pub fn new_with_scheme(root: String, scheme: String) -> (r: Self)
        ensures
            r@.root == root@,
            r@.scheme == scheme@,
            r@.validate_scheme,
            !r@.fix_newlines,
    {
        FsResourceLoader { root, scheme, validate_scheme: true, fix_newlines: false }
    }

    /// A loader with explicit choices for scheme validation and newline fixing.
    pub fn with_options(root: String, scheme: String, validate_scheme: bool, fix_newlines: bool) -> (r: Self)
        ensures
            r@.root == root@,
            r@.scheme == scheme@,
            r@.validate_scheme == validate_scheme,
            r@.fix_newlines == fix_newlines,
    {
        FsResourceLoader { root, scheme, validate_scheme, fix_newlines }
    }

    /// The directory relative to which paths are resolved.
    pub fn root(&self) -> (r: &str)
        ensures
            r@ == self@.root,
    {
        self.root.as_str()
    }

    /// The scheme this loader serves.
    pub fn scheme(&self) -> (r: &str)
        ensures
            r@ == self@.scheme,
    {
        self.scheme.as_str()
    }

    /// Whether the loader only serves IRIs with its own scheme.
    pub fn does_validate_scheme(&self) -> (r: bool)
        ensures
            r == self@.validate_scheme,
    {
        self.validate_scheme
    }

    /// Whether the loader normalises newlines of what it loads.
    pub fn does_fix_newlines(&self) -> (r: bool)
        ensures
            r == self@.fix_newlines,
    {
        self.fix_newlines
    }

    /// Whether the IRI's scheme is the loader's scheme.
    pub fn iri_has_compatible_scheme(&self, iri: &IRI) -> (r: bool)
        ensures
            r == (iri@.scheme == self@.scheme),
    {
        str_eq(iri.scheme(), self.scheme.as_str())
    }

    /// The path (relative to the root) of the file the source names, or the
    /// `NotFound` error (carrying the source's IRI) when the loader validates
    /// schemes and the source's scheme is not its own.
    pub fn resource_path(&self, source: &Source) -> (r: Result<String, ResourceLoadingError>)
        ensures
            self@.validate_scheme && source.iri@.scheme != self@.scheme <==> r is Err,
            r matches Ok(p) ==> p@ == spec_path_from_tail(source.iri@.tail),
            r matches Err(e) ==> e.spec_kind() == ResourceLoadingErrorKind::NotFound
                && e.spec_iri() == Some(source.iri),
    {
        if self.validate_scheme && !self.iri_has_compatible_scheme(&source.iri) {
            return Err(ResourceLoadingError::new(
                ResourceLoadingErrorKind::NotFound,
                Some(source.iri.clone()),
            ));
        }
        Ok(path_from_tail(&source.iri).to_owned())
    }

    /// Turns the bytes read from a file into a `FileBuffer`.
    ///
    /// `media_type` and `name` are the ones the source asks for;
    /// `path_file_name` is the last component of the path that was read and
    /// `file_meta` what the file system knows of the file. Media type
    /// sniffing is not available, so a media type must be given; with
    /// newline fixing on, the data must already use CRLF line endings.
    pub fn finish_loading(
        &self,
        data: Vec<u8>,
        media_type: Option<MediaType>,
        name: Option<String>,
        path_file_name: Option<String>,
        file_meta: FileMeta,
    ) -> (r: FileBuffer)
        requires
            media_type is Some,
            self@.fix_newlines ==> crlf_only(data@),
        ensures
            r@.data == data@,
            r@.content_type == media_type->0@,
            r@.file_meta.file_name == (if name is Some { name } else { path_file_name }),
            r@.file_meta.creation_date == file_meta.creation_date,
            r@.file_meta.modification_date == file_meta.modification_date,
            r@.file_meta.read_date == file_meta.read_date,
            r@.file_meta.size == file_meta.size,
    {
        let mut file_meta = file_meta;
        match name {
            Some(n) => {
                file_meta.file_name = Some(n);
            },
            None => {
                file_meta.file_name = path_file_name;
            },
        }
        let data = if self.fix_newlines {
            fix_newlines(data)
        } else {
            data
        };
        FileBuffer::with_file_meta(media_type.unwrap(), data, file_meta)
    }
}

/// The path named by the IRI's tail (see `spec_path_from_tail`).
pub fn path_from_tail(path_iri: &IRI) -> (r: &str)
    ensures
        r@ == spec_path_from_tail(path_iri@.tail),
{
    let tail = path_iri.tail();
    let len = tail.unicode_len();
    if len >= 3 && tail.get_char(0) == '/' && tail.get_char(1) == '/' && tail.get_char(2) == '/' {
        tail.substring_char(2, len)
    } else {
        tail
    }
}

/// Whether the data uses CRLF line endings only.
pub fn has_only_crlf_newlines(data: &[u8]) -> (r: bool)
    ensures
        r == crlf_only(data@),
{
    let mut hit_cr = false;
    let mut i: usize = 0;
    while i < data.len()
        invariant
            i <= data@.len(),
            hit_cr == (i > 0 && data@[i - 1] == 0x0Du8),
            forall|k: int| 0 <= k < i && #[trigger] data@[k] == 0x0Du8 ==> k + 1 < data@.len() && (k + 1 >= i || data@[k + 1] == 0x0Au8),
            forall|k: int| 0 <= k < i && #[trigger] data@[k] == 0x0Au8 ==> k > 0 && data@[k - 1] == 0x0Du8,
        decreases data@.len() - i,
    {
        let b = data[i];
        if b == 0x0Du8 {
            if hit_cr {
                assert(data@[i - 1] == 0x0Du8 && data@[i as int] != 0x0Au8);
                return false;
            }
            if i + 1 >= data.len() {
                return false;
            }
            hit_cr = true;
        } else if b == 0x0Au8 {
            if !hit_cr {
                return false;
            }
            hit_cr = false;
        } else {
            if hit_cr {
                assert(data@[i - 1] == 0x0Du8 && data@[i as int] != 0x0Au8);
                return false;
            }
        }
        i += 1;
    }
    true
}

/// Newline normalisation: only data that already uses CRLF line endings is
/// accepted, and it is returned unchanged.
pub fn fix_newlines(buffer: Vec<u8>) -> (r: Vec<u8>)
    requires
        crlf_only(buffer@),
    ensures
        r@ == buffer@,
{
    buffer
}

} // verus!
