//! Resources: the bodies of (sub-)mails. A resource is either created from a
//! `Source` (and loaded on demand) or from a buffer. Loading is driven step by
//! step: the caller performs the I/O (starting to load a source and polling that
//! load) and hands the outcome to `Resource::poll_encoding_completion`, which
//! decides the next state, transfer encodes loaded buffers and reports what the
//! caller has to do next.
use vstd::prelude::*;
use crate::error::{EncodingError, ResourceError, ResourceLoadingError, ResourceLoadingErrorKind,
    ResourceNotUnloadableError};
use crate::file_buffer::{FileBuffer, TransferEncodedFileBuffer, spec_encode_data, spec_chosen_encoding};
use crate::iri::IRI;
use crate::media_type::{text_plain_utf8_view, MediaType};
use crate::text::string_into_bytes;

verus! {

/// Where a resource can be loaded from and how to treat it.
#[derive(Debug, Clone)]
pub struct Source {
    /// Points to the source from which the resource can be loaded; its
    /// interpretation is left to the resource loader.
    pub iri: IRI,
    /// An explicit media type; if `None` it is retrieved from the source.
    pub use_media_type: Option<MediaType>,
    /// An explicit name; if `None` it is derived from the source.
    pub use_name: Option<String>,
}

/// The inner state of a resource, i.e. if it is loading, loaded, etc.
#[derive(Debug, Clone, Copy, PartialEq, Eq, Hash, Structural)]
pub enum ResourceStateInfo {
    /// The resource is not loaded, but can be loaded (only reachable if it has a source).
    NotLoaded,
    /// The resource is between `NotLoaded` and `Loaded`.
    Loading,
    /// The resource is completely loaded (and content transfer encoded).
    Loaded,
    /// Loading the resource failed.
    Failed,
    /// Loading was canceled by the one driving it; someone else has to pick it up.
    Canceled,
}

/// The state of a resource.
#[derive(Debug)]
pub enum ResourceState {
    /// Not loaded (only for resources with a source).
    NotLoaded,
    /// Waiting for the buffer to be loaded.
    LoadingBuffer,
    /// Loaded but not yet transfer encoded.
    Loaded(FileBuffer),
    /// Loaded and transfer encoded.
    TransferEncoded(TransferEncodedFileBuffer),
    /// Loading failed.
    Failed,
}

/// The state info which corresponds to a state (never `Canceled`).
pub open spec fn spec_derive_state_info(state: ResourceState) -> ResourceStateInfo {
    match state {
        ResourceState::NotLoaded => ResourceStateInfo::NotLoaded,
        ResourceState::TransferEncoded(_) => ResourceStateInfo::Loaded,
        ResourceState::Failed => ResourceStateInfo::Failed,
        _ => ResourceStateInfo::Loading,
    }
}

impl ResourceState {
    /// Generates a state info from the state.
    pub fn derive_state_info(&self) -> (r: ResourceStateInfo)
        ensures
            r == spec_derive_state_info(*self),
    {
        match self {
            ResourceState::NotLoaded => ResourceStateInfo::NotLoaded,
            ResourceState::TransferEncoded(..) => ResourceStateInfo::Loaded,
            ResourceState::Failed => ResourceStateInfo::Failed,
            _ => ResourceStateInfo::Loading,
        }
    }
}

/// The outcome of polling the loading of a resource's buffer.
#[derive(Debug)]
pub enum LoadPoll {
    /// Not loaded yet (or no load is pending).
    NotReady,
    /// The buffer was loaded.
    Ready(FileBuffer),
    /// Loading failed.
    Failed(ResourceLoadingError),
}

/// What the caller driving the loading of a resource has to do next.
#[derive(Debug, Clone, Copy, PartialEq, Eq, Structural)]
pub enum PollProgress {
    /// Start loading the resource's source, then poll again with the outcome.
    StartLoading,
    /// Poll again later with the outcome of the pending load.
    NotReady,
    /// The resource is loaded and transfer encoded.
    Ready,
}

/// The source IRI of an optional source.
pub open spec fn source_iri(source: Option<Source>) -> Option<IRI> {
    match source {
        Some(s) => Some(s.iri),
        None => None,
    }
}

/// The step from a loaded buffer: transfer encode it with the encoding chosen by default.
pub open spec fn spec_encode_step(buf: FileBuffer, result: Result<(ResourceState, PollProgress), ResourceError>) -> bool {
    let enc = spec_chosen_encoding(buf@.content_type, None);
    match (result, spec_encode_data(buf@.data, enc)) {
        (Ok((ResourceState::TransferEncoded(b), PollProgress::Ready)), Ok(d)) => {
            &&& b@.encoding == enc
            &&& b@.buffer.data == d
            &&& b@.buffer.content_type == buf@.content_type
            &&& b@.buffer.file_meta == buf@.file_meta
        },
        (Err(ResourceError::Encoding(e)), Err(e2)) => e == e2,
        _ => false,
    }
}

/// One step of driving a resource towards being loaded and transfer encoded.
pub open spec fn spec_poll_step(
    state: ResourceState,
    source: Option<Source>,
    event: LoadPoll,
    result: Result<(ResourceState, PollProgress), ResourceError>,
) -> bool {
    match state {
        ResourceState::NotLoaded => result == Ok::<(ResourceState, PollProgress), ResourceError>(
            (ResourceState::LoadingBuffer, PollProgress::StartLoading),
        ),
        ResourceState::LoadingBuffer => match event {
            LoadPoll::NotReady => result == Ok::<(ResourceState, PollProgress), ResourceError>(
                (ResourceState::LoadingBuffer, PollProgress::NotReady),
            ),
            LoadPoll::Ready(buf) => spec_encode_step(buf, result),
            LoadPoll::Failed(e) => result matches Err(ResourceError::Loading(le)) && le.spec_kind()
                == e.spec_kind() && le.spec_iri() == (if e.spec_iri() is Some {
                e.spec_iri()
            } else {
                source_iri(source)
            }),
        },
        ResourceState::Loaded(buf) => spec_encode_step(buf, result),
        ResourceState::TransferEncoded(b) => result == Ok::<(ResourceState, PollProgress), ResourceError>(
            (ResourceState::TransferEncoded(b), PollProgress::Ready),
        ),
        ResourceState::Failed => result matches Err(ResourceError::Loading(le)) && le.spec_kind()
            == ResourceLoadingErrorKind::SharedResourcePoisoned && le.spec_iri() == source_iri(
            source,
        ),
    }
}

fn clone_source_iri(source: &Option<Source>) -> (r: Option<IRI>)
    ensures
        r == source_iri(*source),
{
    match source {
        Some(s) => Some(clone_iri(&s.iri)),
        None => None,
    }
}

fn clone_iri(iri: &IRI) -> (r: IRI)
    ensures
        r == *iri,
{
    iri.clone()
}

fn encode_loaded(buf: FileBuffer) -> (r: Result<(ResourceState, PollProgress), ResourceError>)
    ensures
        spec_encode_step(buf, r),
{
    match TransferEncodedFileBuffer::encode_buffer(buf, None) {
        Ok(b) => Ok((ResourceState::TransferEncoded(b), PollProgress::Ready)),
        Err(e) => Err(ResourceError::Encoding(e)),
    }
}

/// Drives the state of a resource by one step: consumes the state and produces the
/// next one, or fails.
///
/// A resource without source which is not loaded is a bug (the constructors never
/// create one), as is a loaded buffer which is too large to be encoded.
pub fn poll_encoding_completion(state: ResourceState, source: &Option<Source>, event: LoadPoll) -> (r:
    Result<(ResourceState, PollProgress), ResourceError>)
    requires
        state is NotLoaded ==> source is Some,
    ensures
        spec_poll_step(state, *source, event, r),
{
    match state {
        ResourceState::NotLoaded => Ok((ResourceState::LoadingBuffer, PollProgress::StartLoading)),
        ResourceState::LoadingBuffer => match event {
            LoadPoll::NotReady => Ok((ResourceState::LoadingBuffer, PollProgress::NotReady)),
            LoadPoll::Ready(buf) => encode_loaded(buf),
            LoadPoll::Failed(err) => {
                let iri = clone_source_iri(source);
                let kind = err.kind();
                let err_iri = match err.source_iri() {
                    Some(i) => Some(clone_iri(i)),
                    None => iri,
                };
                Err(ResourceError::Loading(ResourceLoadingError::new(kind, err_iri)))
            },
        },
        ResourceState::Loaded(buf) => encode_loaded(buf),
        ResourceState::TransferEncoded(b) => Ok((ResourceState::TransferEncoded(b), PollProgress::Ready)),
        ResourceState::Failed => {
            let iri = clone_source_iri(source);
            Err(
                ResourceError::Loading(
                    ResourceLoadingError::new(ResourceLoadingErrorKind::SharedResourcePoisoned, iri),
                ),
            )
        },
    }
}

/// Something which can be the body of a mail.
#[derive(Debug)]
pub struct Resource {
    state: ResourceState,
    source: Option<Source>,
    state_info: ResourceStateInfo,
    unload_prevention: usize,
}

impl Resource {
    /// A resource's validity: only resources with a source can be not loaded, and the
    /// state info matches the state unless loading was canceled.
    pub closed spec fn wf(&self) -> bool {
        &&& (self.state is NotLoaded ==> self.source is Some)
        &&& (self.state_info == spec_derive_state_info(self.state) || self.state_info
            == ResourceStateInfo::Canceled)
    }

    pub closed spec fn spec_state(&self) -> ResourceState {
        self.state
    }

    pub closed spec fn spec_source(&self) -> Option<Source> {
        self.source
    }

    pub closed spec fn spec_state_info(&self) -> ResourceStateInfo {
        self.state_info
    }

    /// The number of access guards which prevent unloading.
    pub closed spec fn spec_guards(&self) -> nat {
        self.unload_prevention as nat
    }

    /// The transfer encoded buffer, if the resource is loaded.
    pub open spec fn spec_encoded(&self) -> Option<TransferEncodedFileBuffer> {
        if self.spec_state_info() == ResourceStateInfo::Loaded {
            match self.spec_state() {
                ResourceState::TransferEncoded(b) => Some(b),
                _ => None,
            }
        } else {
            None
        }
    }

    /// A new (not loaded) resource from a source.
    pub fn new(source: Source) -> (r: Self)
        ensures
            r.wf(),
            r.spec_state() is NotLoaded,
            r.spec_state_info() == ResourceStateInfo::NotLoaded,
            r.spec_source() == Some(source),
            r.spec_guards() == 0,
    {
        Resource {
            state: ResourceState::NotLoaded,
            source: Some(source),
            state_info: ResourceStateInfo::NotLoaded,
            unload_prevention: 0,
        }
    }

    /// A resource without source from a buffer (not yet transfer encoded).
    pub fn sourceless_from_buffer(buffer: FileBuffer) -> (r: Self)
        ensures
            r.wf(),
            r.spec_state() == ResourceState::Loaded(buffer),
            r.spec_state_info() == ResourceStateInfo::Loading,
            r.spec_source() is None,
            r.spec_guards() == 0,
    {
        Resource {
            state: ResourceState::Loaded(buffer),
            source: None,
            state_info: ResourceStateInfo::Loading,
            unload_prevention: 0,
        }
    }

    /// A resource without source for a buffer which is loaded elsewhere; its
    /// loading is driven with the outcomes of that load.
    pub fn sourceless_loading() -> (r: Self)
        ensures
            r.wf(),
            r.spec_state() is LoadingBuffer,
            r.spec_state_info() == ResourceStateInfo::Loading,
            r.spec_source() is None,
            r.spec_guards() == 0,
    {
        Resource {
            state: ResourceState::LoadingBuffer,
            source: None,
            state_info: ResourceStateInfo::Loading,
            unload_prevention: 0,
        }
    }

    /// A resource without source holding the text as `text/plain; charset=utf-8` buffer.
    pub fn sourceless_from_string(text: String) -> (r: Self)
        ensures
            r.wf(),
            r.spec_source() is None,
            r.spec_guards() == 0,
            r.spec_state() matches ResourceState::Loaded(buf) && buf@.data == vstd::utf8::encode_utf8(
                text@,
            ) && buf@.content_type == text_plain_utf8_view(),
    {
        let data = string_into_bytes(text);
        Resource::sourceless_from_buffer(FileBuffer::new(MediaType::text_plain_utf8(), data))
    }
}


impl Resource {
    /// The state info of this resource (loading, loaded, loading failed, ...).
    pub fn state_info(&self) -> (r: ResourceStateInfo)
        ensures
            r == self.spec_state_info(),
    {
        self.state_info
    }

    /// Whether the resource is completely loaded (including transfer encoding).
    pub fn is_loaded(&self) -> (r: bool)
        ensures
            r == (self.spec_state_info() == ResourceStateInfo::Loaded),
    {
        self.state_info == ResourceStateInfo::Loaded
    }

    /// The transfer encoded buffer if the resource is loaded, `None` else wise.
    pub fn get_if_encoded(&self) -> (r: Option<&TransferEncodedFileBuffer>)
        ensures
            match (r, self.spec_encoded()) {
                (Some(b), Some(e)) => *b == e,
                (None, None) => true,
                _ => false,
            },
    {
        if self.is_loaded() {
            match &self.state {
                ResourceState::TransferEncoded(encoded) => Some(encoded),
                _ => None,
            }
        } else {
            None
        }
    }

    /// Calls `func` with the transfer encoded data if the resource is loaded;
    /// fails with `AccessingMailBodyFailed` (without calling it) otherwise.
    pub fn with_slice<F, R>(&self, func: F) -> (r: Result<R, EncodingError>)
        where F: FnOnce(&[u8]) -> Result<R, EncodingError>,
        requires
            forall|s: &[u8]| self.spec_encoded() matches Some(b) && s@ == b@.buffer.data ==> call_requires(
                func,
                (s,),
            ),
        ensures
            self.spec_encoded() is None ==> r == Err::<R, EncodingError>(EncodingError::AccessingMailBodyFailed),
            self.spec_encoded() matches Some(b) ==> exists|s: &[u8]|
                s@ == b@.buffer.data && call_ensures(func, (s,), r),
    {
        match self.get_if_encoded() {
            Some(b) => {
                let s = b.as_slice();
                let r = func(s);
                assert(call_ensures(func, (s,), r));
                r
            },
            None => Err(EncodingError::AccessingMailBodyFailed),
        }
    }

    /// The source of the resource (if any).
    pub fn source(&self) -> (r: Option<&Source>)
        ensures
            match (r, self.spec_source()) {
                (Some(a), Some(b)) => *a == b,
                (None, None) => true,
                _ => false,
            },
    {
        self.source.as_ref()
    }

    /// Drives the loading of the resource by one step (see `poll_encoding_completion`)
    /// and stores the new state; on failure the resource becomes `Failed`.
    pub fn poll_loading(&mut self, event: LoadPoll) -> (r: Result<PollProgress, ResourceError>)
        requires
            old(self).wf(),
        ensures
            final(self).wf(),
            final(self).spec_source() == old(self).spec_source(),
            final(self).spec_guards() == old(self).spec_guards(),
            exists|step: Result<(ResourceState, PollProgress), ResourceError>|
                spec_poll_step(old(self).spec_state(), old(self).spec_source(), event, step) && match (
                    step,
                    r,
                ) {
                    (Ok((st, p)), Ok(p2)) => p == p2 && final(self).spec_state() == st
                        && final(self).spec_state_info() == spec_derive_state_info(st),
                    (Err(e), Err(e2)) => e == e2 && final(self).spec_state() is Failed
                        && final(self).spec_state_info() == ResourceStateInfo::Failed,
                    _ => false,
                },
    {
        let mut state = ResourceState::Failed;
        std::mem::swap(&mut state, &mut self.state);
        match poll_encoding_completion(state, &self.source, event) {
            Ok((new_state, progress)) => {
                let info = new_state.derive_state_info();
                self.state = new_state;
                self.state_info = info;
                Ok(progress)
            },
            Err(e) => {
                self.state_info = ResourceStateInfo::Failed;
                Err(e)
            },
        }
    }

    /// Tries to transform the resource into a state where it is not loaded, to free memory.
    ///
    /// This fails for a resource which is loading or guarded by access guards (`InUse`)
    /// and for one without source, as it could not be reloaded (`NoSource`).
    pub fn try_unload(&mut self) -> (r: Result<(), ResourceNotUnloadableError>)
        requires
            old(self).wf(),
        ensures
            final(self).wf(),
            final(self).spec_source() == old(self).spec_source(),
            final(self).spec_guards() == old(self).spec_guards(),
            old(self).spec_state_info() == ResourceStateInfo::NotLoaded ==> r is Ok && *final(self) == *old(self),
            old(self).spec_state_info() == ResourceStateInfo::Loading ==> r == Err::<
                (),
                ResourceNotUnloadableError,
            >(ResourceNotUnloadableError::InUse) && *final(self) == *old(self),
            old(self).spec_state_info() != ResourceStateInfo::NotLoaded && old(self).spec_state_info()
                != ResourceStateInfo::Loading ==> {
                &&& old(self).spec_source() is None ==> r == Err::<(), ResourceNotUnloadableError>(
                    ResourceNotUnloadableError::NoSource,
                ) && *final(self) == *old(self)
                &&& old(self).spec_source() is Some && old(self).spec_guards() > 0 ==> r == Err::<
                    (),
                    ResourceNotUnloadableError,
                >(ResourceNotUnloadableError::InUse) && *final(self) == *old(self)
                &&& old(self).spec_source() is Some && old(self).spec_guards() == 0 ==> r is Ok
                    && final(self).spec_state() is NotLoaded && final(self).spec_state_info()
                    == ResourceStateInfo::NotLoaded
            },
    {
        match self.state_info {
            ResourceStateInfo::NotLoaded => Ok(()),
            ResourceStateInfo::Loading => Err(ResourceNotUnloadableError::InUse),
            _ => {
                if self.source.is_some() {
                    if self.unload_prevention == 0 {
                        self.state = ResourceState::NotLoaded;
                        self.state_info = ResourceStateInfo::NotLoaded;
                        Ok(())
                    } else {
                        Err(ResourceNotUnloadableError::InUse)
                    }
                } else {
                    Err(ResourceNotUnloadableError::NoSource)
                }
            },
        }
    }

    /// Creates an access guard (preventing unloading) and returns whether it is the
    /// first one, whose creator is responsible for driving the loading. The count of
    /// guards wraps around as an atomic counter does.
    pub fn acquire_access_guard(&mut self) -> (is_initial: bool)
        ensures
            is_initial == (old(self).spec_guards() == 0),
            final(self).spec_guards() == (if old(self).spec_guards() < usize::MAX {
                old(self).spec_guards() + 1
            } else {
                0
            }),
            final(self).spec_state() == old(self).spec_state(),
            final(self).spec_state_info() == old(self).spec_state_info(),
            final(self).spec_source() == old(self).spec_source(),
            final(self).wf() == old(self).wf(),
    {
        let prev = self.unload_prevention;
        self.unload_prevention = prev.wrapping_add(1);
        prev == 0
    }

    /// Drops an access guard (the count wraps around as an atomic counter does).
    pub fn release_access_guard(&mut self)
        ensures
            final(self).spec_guards() == (if old(self).spec_guards() > 0 {
                (old(self).spec_guards() - 1) as nat
            } else {
                usize::MAX as nat
            }),
            final(self).spec_state() == old(self).spec_state(),
            final(self).spec_state_info() == old(self).spec_state_info(),
            final(self).spec_source() == old(self).spec_source(),
            final(self).wf() == old(self).wf(),
    {
        self.unload_prevention = self.unload_prevention.wrapping_sub(1);
    }

    /// Marks the loading as canceled (the one driving it stopped), so that someone
    /// else can pick it up.
    pub fn cancel_loading(&mut self)
        requires
            old(self).wf(),
        ensures
            final(self).wf(),
            final(self).spec_state_info() == ResourceStateInfo::Canceled,
            final(self).spec_state() == old(self).spec_state(),
            final(self).spec_source() == old(self).spec_source(),
            final(self).spec_guards() == old(self).spec_guards(),
    {
        self.state_info = ResourceStateInfo::Canceled;
    }

    /// What dropping a loading future (in `poll_state`) does to its resource: a
    /// future which did not resolve cancels the loading (so that a waiting future
    /// can take over), a resolved one changes nothing. The future is done after.
    pub fn drop_loading_future(&mut self, poll_state: PollState) -> (r: PollState)
        requires
            old(self).wf(),
        ensures
            r == PollState::Done,
            final(self).wf(),
            poll_state == PollState::Done ==> *final(self) == *old(self),
            poll_state != PollState::Done ==> {
                &&& final(self).spec_state_info() == ResourceStateInfo::Canceled
                &&& final(self).spec_state() == old(self).spec_state()
                &&& final(self).spec_source() == old(self).spec_source()
                &&& final(self).spec_guards() == old(self).spec_guards()
            },
    {
        if poll_state != PollState::Done {
            self.cancel_loading();
        }
        PollState::Done
    }

    /// Replaces the state by what `modif` makes of it, if `pred` accepts the
    /// state: `modif` gets the state, and on `Ok((state, value))` the new state
    /// (with the state info derived from it) is kept and `value` returned; on
    /// `Err(e)` the resource becomes failed. If `pred` refuses, nothing changes,
    /// `modif` is not called and `None` is returned.
    pub fn try_modify_state_if<P, M, R, E>(&mut self, pred: P, modif: M) -> (r: Option<Result<R, E>>)
        where P: FnOnce(&ResourceState) -> bool, M: FnOnce(ResourceState) -> Result<(ResourceState, R), E>,
        requires
            old(self).wf(),
            call_requires(pred, (&old(self).spec_state(),)),
            forall|b: bool| #[trigger] call_ensures(pred, (&old(self).spec_state(),), b) && b ==> call_requires(
                modif,
                (old(self).spec_state(),),
            ),
            old(self).spec_source() is None ==> forall|out: Result<(ResourceState, R), E>|
                #[trigger] call_ensures(modif, (old(self).spec_state(),), out) ==> !(out matches Ok((ns, _))
                    && ns is NotLoaded),
        ensures
            final(self).wf(),
            final(self).spec_source() == old(self).spec_source(),
            final(self).spec_guards() == old(self).spec_guards(),
            exists|b: bool|
                #![trigger call_ensures(pred, (&old(self).spec_state(),), b)]
                call_ensures(pred, (&old(self).spec_state(),), b) && (!b ==> r is None && *final(self)
                    == *old(self)) && (b ==> exists|out: Result<(ResourceState, R), E>|
                    #![trigger call_ensures(modif, (old(self).spec_state(),), out)]
                    call_ensures(modif, (old(self).spec_state(),), out) && match out {
                        Ok((ns, v)) => r == Some(Ok::<R, E>(v)) && final(self).spec_state() == ns
                            && final(self).spec_state_info() == spec_derive_state_info(ns),
                        Err(e) => r == Some(Err::<R, E>(e)) && final(self).spec_state() is Failed
                            && final(self).spec_state_info() == ResourceStateInfo::Failed,
                    }),
    {
        let ok = pred(&self.state);
        proof {
            assert(call_ensures(pred, (&old(self).spec_state(),), ok));
        }
        if !ok {
            return None;
        }
        let mut state = ResourceState::Failed;
        std::mem::swap(&mut state, &mut self.state);
        let out = modif(state);
        proof {
            assert(call_ensures(modif, (old(self).spec_state(),), out));
        }
        match out {
            Ok((new_state, value)) => {
                let info = new_state.derive_state_info();
                self.state = new_state;
                self.state_info = info;
                Some(Ok(value))
            },
            Err(e) => {
                self.state_info = ResourceStateInfo::Failed;
                Some(Err(e))
            },
        }
    }

    /// Tries to be the one to continue loading after a cancel: if the state info was
    /// `Canceled` it becomes `Loading` and `Canceled` is returned (the caller now has
    /// to drive the loading), else the current state info is returned.
    pub fn try_continue_from_cancel(&mut self) -> (r: ResourceStateInfo)
        requires
            old(self).wf(),
        ensures
            final(self).wf() || old(self).spec_state_info() == ResourceStateInfo::Canceled,
            r == old(self).spec_state_info(),
            final(self).spec_state_info() == spec_continue_from_cancel(old(self).spec_state_info()).0,
            final(self).spec_state() == old(self).spec_state(),
            final(self).spec_source() == old(self).spec_source(),
            final(self).spec_guards() == old(self).spec_guards(),
    {
        let (new_info, returned) = continue_from_cancel(self.state_info);
        self.state_info = new_info;
        returned
    }
}

/// Continuing from a cancel: `Canceled` becomes `Loading`, anything else stays.
/// Returns the new and the previous state info.
pub open spec fn spec_continue_from_cancel(info: ResourceStateInfo) -> (ResourceStateInfo, ResourceStateInfo) {
    if info == ResourceStateInfo::Canceled {
        (ResourceStateInfo::Loading, ResourceStateInfo::Canceled)
    } else {
        (info, info)
    }
}

/// The compare-and-swap from `Canceled` to `Loading` of a shared state info.
pub fn continue_from_cancel(info: ResourceStateInfo) -> (r: (ResourceStateInfo, ResourceStateInfo))
    ensures
        r == spec_continue_from_cancel(info),
{
    match info {
        ResourceStateInfo::Canceled => (ResourceStateInfo::Loading, ResourceStateInfo::Canceled),
        other => (other, other),
    }
}

pub open spec fn spec_state_info_code(info: ResourceStateInfo) -> usize {
    match info {
        ResourceStateInfo::NotLoaded => 0,
        ResourceStateInfo::Loading => 1,
        ResourceStateInfo::Loaded => 2,
        ResourceStateInfo::Failed => 3,
        ResourceStateInfo::Canceled => 4,
    }
}

/// The number a state info is stored as in an atomic integer.
pub fn state_info_to_usize(info: ResourceStateInfo) -> (r: usize)
    ensures
        r == spec_state_info_code(info),
        r < 5,
{
    match info {
        ResourceStateInfo::NotLoaded => 0,
        ResourceStateInfo::Loading => 1,
        ResourceStateInfo::Loaded => 2,
        ResourceStateInfo::Failed => 3,
        ResourceStateInfo::Canceled => 4,
    }
}

/// The state info stored as the given number.
pub fn state_info_from_usize(code: usize) -> (r: ResourceStateInfo)
    requires
        code < 5,
    ensures
        spec_state_info_code(r) == code,
{
    if code == 0 {
        ResourceStateInfo::NotLoaded
    } else if code == 1 {
        ResourceStateInfo::Loading
    } else if code == 2 {
        ResourceStateInfo::Loaded
    } else if code == 3 {
        ResourceStateInfo::Failed
    } else {
        ResourceStateInfo::Canceled
    }
}

/// The state of a future driving the loading of a (possibly shared) resource.
#[derive(Debug, Clone, Copy, PartialEq, Eq, Hash, Structural)]
pub enum PollState {
    /// Not polled yet.
    NotPolled,
    /// This future drives the loading.
    CanPoll,
    /// Another future drives the loading; this one waits for it.
    SomeOneElsePolls,
    /// Resolved.
    Done,
}

/// What a loading future does when polled.
#[derive(Debug, Clone, Copy, PartialEq, Eq, Structural)]
pub enum LoadingFutureAction {
    /// Drive the resource's loading (`Resource::poll_loading`).
    DriveResource,
    /// Resolve with the access guard: the resource is loaded.
    Resolve,
    /// Fail: loading the resource failed.
    Fail,
    /// Wait (ask to be polled again): someone else loads the resource.
    Wait,
}

/// The decisions of a loading future when polled in `poll_state`.
///
/// A loaded resource resolves the future at once. Else `is_initial_guard` (whether
/// the access guard created when first polled was the first one) decides whether
/// this future drives the loading or waits for the one who does; `info` is the resource's
/// state info after `try_continue_from_cancel` (for a waiting future) or before the
/// drive (for the driving one). Returns the new poll state and the action.
/// A resolved future must not be polled again.
pub open spec fn spec_loading_future_step(poll_state: PollState, is_initial_guard: bool, info: ResourceStateInfo) -> (PollState, LoadingFutureAction) {
    if info == ResourceStateInfo::Loaded {
        (PollState::Done, LoadingFutureAction::Resolve)
    } else if spec_drives(poll_state, is_initial_guard, info) {
        (PollState::CanPoll, LoadingFutureAction::DriveResource)
    } else if poll_state == PollState::SomeOneElsePolls && info == ResourceStateInfo::Failed {
        (PollState::Done, LoadingFutureAction::Fail)
    } else {
        (PollState::SomeOneElsePolls, LoadingFutureAction::Wait)
    }
}

/// Whether the future drives the loading: it already does, or it polls for the
/// first time holding the first access guard, or it waited and the one driving
/// the loading canceled.
pub open spec fn spec_drives(poll_state: PollState, is_initial_guard: bool, info: ResourceStateInfo) -> bool {
    ||| poll_state == PollState::CanPoll
    ||| (poll_state == PollState::NotPolled && is_initial_guard)
    ||| (poll_state == PollState::SomeOneElsePolls && info == ResourceStateInfo::Canceled)
}

/// One poll of a loading future, as `spec_loading_future_step` decides it.
pub fn loading_future_step(poll_state: PollState, is_initial_guard: bool, info: ResourceStateInfo) -> (r: (PollState, LoadingFutureAction))
    requires
        poll_state != PollState::Done,
    ensures
        r == spec_loading_future_step(poll_state, is_initial_guard, info),
{
    let drive = if info == ResourceStateInfo::Loaded {
        (PollState::Done, LoadingFutureAction::Resolve)
    } else {
        (PollState::CanPoll, LoadingFutureAction::DriveResource)
    };
    match poll_state {
        PollState::NotPolled => if is_initial_guard {
            drive
        } else if info == ResourceStateInfo::Loaded {
            (PollState::Done, LoadingFutureAction::Resolve)
        } else {
            (PollState::SomeOneElsePolls, LoadingFutureAction::Wait)
        },
        PollState::CanPoll => drive,
        _ => match info {
            ResourceStateInfo::Loaded => (PollState::Done, LoadingFutureAction::Resolve),
            ResourceStateInfo::Failed => (PollState::Done, LoadingFutureAction::Fail),
            ResourceStateInfo::Canceled => drive,
            _ => (PollState::SomeOneElsePolls, LoadingFutureAction::Wait),
        },
    }
}

} // verus!

verus! {

/// Driving a resource never takes it back to "not loaded"; it reports `Ready`
/// exactly when it ends up transfer encoded; a transfer encoded resource stays
/// as it is; and a resource whose loading failed keeps failing.
pub proof fn lemma_poll_step_progress(
    state: ResourceState,
    source: Option<Source>,
    event: LoadPoll,
    result: Result<(ResourceState, PollProgress), ResourceError>,
)
    requires
        spec_poll_step(state, source, event, result),
    ensures
        result matches Ok((s, p)) ==> !(s is NotLoaded) && (p == PollProgress::Ready <==> s is TransferEncoded),
        result matches Ok((s, _)) ==> (spec_derive_state_info(s) == ResourceStateInfo::Loaded <==> s is TransferEncoded),
        state is TransferEncoded ==> result == Ok::<(ResourceState, PollProgress), ResourceError>(
            (state, PollProgress::Ready),
        ),
        state is Failed ==> result is Err,
{
}

/// The numeric codes of state infos are distinct, so converting a state info
/// to its code and back gives the same state info.
pub proof fn lemma_state_info_code_injective(a: ResourceStateInfo, b: ResourceStateInfo)
    requires
        spec_state_info_code(a) == spec_state_info_code(b),
    ensures
        a == b,
{
}

/// The loading future resolves only for a loaded resource and fails only for
/// a failed one, and it is done exactly when it resolves or fails.
pub proof fn lemma_loading_future_step_outcome(poll_state: PollState, is_initial_guard: bool, info: ResourceStateInfo)
    ensures
        spec_loading_future_step(poll_state, is_initial_guard, info).1 == LoadingFutureAction::Resolve
            ==> info == ResourceStateInfo::Loaded,
        spec_loading_future_step(poll_state, is_initial_guard, info).1 == LoadingFutureAction::Fail
            ==> info == ResourceStateInfo::Failed,
        (spec_loading_future_step(poll_state, is_initial_guard, info).0 == PollState::Done) <==> (
        spec_loading_future_step(poll_state, is_initial_guard, info).1 == LoadingFutureAction::Resolve
            || spec_loading_future_step(poll_state, is_initial_guard, info).1
            == LoadingFutureAction::Fail),
{
}

/// A valid resource whose state info is `Loaded` holds its transfer encoded
/// buffer, so `get_if_encoded` gives it.
pub proof fn lemma_loaded_has_buffer(r: &Resource)
    requires
        r.wf(),
        r.spec_state_info() == ResourceStateInfo::Loaded,
    ensures
        r.spec_encoded() is Some,
        r.spec_state() is TransferEncoded,
{
}

} // verus!
