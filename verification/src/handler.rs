//! The request pipeline: a state machine that is told what the collaborators
//! answered and says what to do next.
//!
//! A request starts with a cache lookup. A hit is replayed; a miss, or a
//! replay that fails, leads through validation, download, transmission and
//! the cache store. Every run ends with one `Finish` action, which carries
//! the notice for the user (if the run failed), the status for the audit log
//! and the local files to remove.
//!
//! A cache entry whose replay failed is not removed: the store that ends the
//! next successful run for the link replaces it.

use vstd::prelude::*;
use vstd::string::*;
use crate::concurrency::{acquire, ConcurrencyLimiter, LockGuard};
use crate::downloader::{
    download_error_text, local_paths, DownloadError, DownloadErrorView, DownloadedMedia,
    DownloadedMediaView, MediaMetadata, MediaType,
};
use crate::source_url::{canonical, cleanup_url, SourceUrl};
use crate::storage::{file_views, AuditStatus, CachedFile, CachedFileView, CachedMedia};
use crate::telegram_api::{
    batch_types, batch_views, build_media_group, build_replay, group_batch, replay_batch, upload,
    upload_of, OutgoingMedia, OutgoingMediaView,
};
use crate::text::{opt_view, views};
use crate::validator::{
    validate_with_limits, validation, validation_error_text, ValidationLimits,
};

verus! {

/// A link to retrieve for a chat, in reply to one of its messages. The link
/// is canonical.
#[derive(Clone, Debug, PartialEq, Eq)]
pub struct MediaRequest {
    pub url: SourceUrl,
    pub chat_id: i64,
    pub message_id: i32,
}

impl MediaRequest {
    /// The request for a link as it was posted: the link is made canonical.
    pub fn new(original_url: &SourceUrl, chat_id: i64, message_id: i32) -> (request: Self)
        ensures
            request.url@ == canonical(original_url@),
            request.chat_id == chat_id,
            request.message_id == message_id,
    {
        MediaRequest { url: cleanup_url(original_url), chat_id, message_id }
    }
}

/// Holds the local files of a download until the request is over. The paths
/// leave the guard once, when it is released.
#[derive(Debug, PartialEq, Eq)]
pub struct FileCleanupGuard {
    paths: Vec<String>,
}

impl FileCleanupGuard {
    /// The paths that the guard holds.
    pub closed spec fn staged(&self) -> Seq<Seq<char>> {
        views(self.paths@)
    }

    /// A guard over every local path of a download.
    pub fn attach(media: &DownloadedMedia) -> (guard: Self)
        ensures
            guard.staged() == local_paths(media@),
    {
        FileCleanupGuard { paths: media.local_paths() }
    }

    /// Ends the guard and hands out its paths for removal.
    pub fn release(self) -> (paths: Vec<String>)
        ensures
            views(paths@) == self.staged(),
    {
        self.paths
    }
}

/// The notice for a descriptor that could not be fetched.
pub open spec fn fetch_failure_text(error: DownloadErrorView) -> Seq<char> {
    "Sorry, I could not fetch information for that link. It might be private or invalid. Error: "@
        + download_error_text(error)
}

/// The notice for a download that failed; one that ran out of time has a
/// wording of its own.
pub open spec fn download_failure_text(error: DownloadErrorView) -> Seq<char> {
    match error {
        DownloadErrorView::Timeout => "Sorry, the download is taking too long. Please try again later."@,
        _ => "Sorry, I could not download the media: "@ + download_error_text(error),
    }
}

/// The notice for a single file that cannot be transmitted.
pub open spec fn unsupported_single_text() -> Seq<char> {
    "Sorry, the single media item downloaded had an unsupported type."@
}

/// The notice for a playlist without any file that can be transmitted.
pub open spec fn unsupported_group_text() -> Seq<char> {
    "Sorry, although multiple items were found, none were of a supported type for a media group."@
}

/// The notice for a transmission that failed.
pub open spec fn send_failure_text() -> Seq<char> {
    "Sorry, I encountered an error while sending the media."@
}

/// The notice for a chat that has a request under way.
pub open spec fn busy_text() -> Seq<char> {
    "I'm already working on a request for you. Please wait until it's finished!"@
}

/// Where a request stands.
#[derive(Debug, PartialEq, Eq)]
pub enum PipelineState {
    /// The cache is being asked for the link.
    CacheCheck,
    /// A cached delivery is being replayed.
    Replay,
    /// The descriptor is being fetched.
    Validate,
    /// The media is being downloaded; the caption is ready.
    Download { caption: String },
    /// The files are being transmitted; they are under guard from here on.
    Transmit { caption: String, sent_types: Vec<MediaType>, guard: FileCleanupGuard },
    /// The delivery is being written to the cache.
    CacheStore { guard: FileCleanupGuard },
    /// The request is over.
    Done { status: AuditStatus },
}

/// A state with its texts as sequences, and the paths under guard in place
/// of the guard.
pub enum PipelineStateView {
    CacheCheck,
    Replay,
    Validate,
    Download { caption: Seq<char> },
    Transmit { caption: Seq<char>, sent_types: Seq<MediaType>, staged: Seq<Seq<char>> },
    CacheStore { staged: Seq<Seq<char>> },
    Done { status: AuditStatus },
}

impl View for PipelineState {
    type V = PipelineStateView;

    open spec fn view(&self) -> PipelineStateView {
        match self {
            PipelineState::CacheCheck => PipelineStateView::CacheCheck,
            PipelineState::Replay => PipelineStateView::Replay,
            PipelineState::Validate => PipelineStateView::Validate,
            PipelineState::Download { caption } => PipelineStateView::Download {
                caption: caption@,
            },
            PipelineState::Transmit { caption, sent_types, guard } => PipelineStateView::Transmit {
                caption: caption@,
                sent_types: sent_types@,
                staged: guard.staged(),
            },
            PipelineState::CacheStore { guard } => PipelineStateView::CacheStore {
                staged: guard.staged(),
            },
            PipelineState::Done { status } => PipelineStateView::Done { status: *status },
        }
    }
}

/// What a collaborator answered.
#[derive(Debug, PartialEq, Eq)]
pub enum PipelineEvent {
    /// The cache was asked: the entry for the link, if it has one. A lookup
    /// that failed counts as no entry.
    CacheLookup(Option<CachedMedia>),
    /// The descriptor was fetched, or could not be.
    MetadataFetched(Result<MediaMetadata, DownloadError>),
    /// The download ended.
    Downloaded(Result<DownloadedMedia, DownloadError>),
    /// A transmission ended, be it a replay or the delivery of a download:
    /// the handles that the provider gave to the files, in order, or `None`
    /// if the transport failed.
    Transmitted(Option<Vec<String>>),
    /// The cache store was attempted; its failure changes nothing.
    CacheStored,
}

/// What the caller is to do next.
#[derive(Debug, PartialEq, Eq)]
pub enum PipelineAction {
    /// Ask the cache for the request's link and answer with `CacheLookup`.
    LookupCache,
    /// Fetch the descriptor of the request's link and answer with
    /// `MetadataFetched`.
    FetchMetadata,
    /// Download the media and answer with `Downloaded`.
    Download { metadata: MediaMetadata },
    /// Send one file, by upload or by its handle, and answer with
    /// `Transmitted`.
    SendSingle { media: OutgoingMedia },
    /// Send the files as one group, in one transmission, and answer with
    /// `Transmitted`. The batch is never empty.
    SendGroup { batch: Vec<OutgoingMedia> },
    /// Write the delivery to the cache under the request's link and answer
    /// with `CacheStored`.
    StoreCache { caption: String, files: Vec<CachedFile> },
    /// The request is over: send the notice, if there is one, append the
    /// status to the audit log, and remove the files.
    Finish { notice: Option<String>, status: AuditStatus, cleanup: Vec<String> },
    /// Nothing: the event does not belong to the state.
    Wait,
}

/// An action with its texts and lists as sequences.
pub enum PipelineActionView {
    LookupCache,
    FetchMetadata,
    Download { metadata: MediaMetadata },
    SendSingle { media: OutgoingMediaView },
    SendGroup { batch: Seq<OutgoingMediaView> },
    StoreCache { caption: Seq<char>, files: Seq<CachedFileView> },
    Finish { notice: Option<Seq<char>>, status: AuditStatus, cleanup: Seq<Seq<char>> },
    Wait,
}

impl View for PipelineAction {
    type V = PipelineActionView;

    open spec fn view(&self) -> PipelineActionView {
        match self {
            PipelineAction::LookupCache => PipelineActionView::LookupCache,
            PipelineAction::FetchMetadata => PipelineActionView::FetchMetadata,
            PipelineAction::Download { metadata } => PipelineActionView::Download {
                metadata: *metadata,
            },
            PipelineAction::SendSingle { media } => PipelineActionView::SendSingle {
                media: media@,
            },
            PipelineAction::SendGroup { batch } => PipelineActionView::SendGroup {
                batch: batch_views(batch@),
            },
            PipelineAction::StoreCache { caption, files } => PipelineActionView::StoreCache {
                caption: caption@,
                files: file_views(files@),
            },
            PipelineAction::Finish { notice, status, cleanup } => PipelineActionView::Finish {
                notice: opt_view(*notice),
                status: *status,
                cleanup: views(cleanup@),
            },
            PipelineAction::Wait => PipelineActionView::Wait,
        }
    }
}

/// The end of a request: the state is `Done` and the action is `Finish`.
pub open spec fn finished(notice: Option<Seq<char>>, status: AuditStatus, cleanup: Seq<Seq<char>>)
    -> (PipelineStateView, PipelineActionView) {
    (PipelineStateView::Done { status }, PipelineActionView::Finish { notice, status, cleanup })
}

/// The action that replays the files of a cache entry, of which no shape is
/// stored: one file is sent alone, more are sent as one group.
pub open spec fn replay_action(batch: Seq<OutgoingMediaView>) -> PipelineActionView {
    if batch.len() == 1 {
        PipelineActionView::SendSingle { media: batch[0] }
    } else {
        PipelineActionView::SendGroup { batch }
    }
}

/// After the cache lookup: an entry with files is replayed, anything else is
/// a miss and the descriptor is fetched.
pub open spec fn after_cache_lookup(entry: Option<CachedMedia>) -> (
    PipelineStateView,
    PipelineActionView,
) {
    match entry {
        Some(entry) => if entry.files@.len() > 0 {
            (
                PipelineStateView::Replay,
                replay_action(replay_batch(file_views(entry.files@), entry.caption@)),
            )
        } else {
            (PipelineStateView::Validate, PipelineActionView::FetchMetadata)
        },
        None => (PipelineStateView::Validate, PipelineActionView::FetchMetadata),
    }
}

/// After the replay: a delivered replay ends the request as `cached`; a
/// failed one is followed by a full run, and the user is told nothing of
/// the failure.
pub open spec fn after_replay(handles: Option<Vec<String>>) -> (
    PipelineStateView,
    PipelineActionView,
) {
    match handles {
        Some(_) => finished(None, AuditStatus::Cached, Seq::empty()),
        None => (PipelineStateView::Validate, PipelineActionView::FetchMetadata),
    }
}

/// After the descriptor was fetched: a failure and a refusal end the request
/// with their notice; an accepted descriptor is downloaded, and its caption
/// is kept.
pub open spec fn after_metadata(
    url: Seq<char>,
    limits: ValidationLimits,
    fetched: Result<MediaMetadata, DownloadError>,
) -> (PipelineStateView, PipelineActionView) {
    match fetched {
        Ok(metadata) => match validation(metadata, limits) {
            Ok(_) => (
                PipelineStateView::Download { caption: metadata.caption_text(url) },
                PipelineActionView::Download { metadata },
            ),
            Err(refusal) => finished(
                Some(validation_error_text(refusal)),
                AuditStatus::ValidationError,
                Seq::empty(),
            ),
        },
        Err(error) => finished(
            Some(fetch_failure_text(error@)),
            AuditStatus::Error,
            Seq::empty(),
        ),
    }
}

/// After the download: a failure ends the request with its notice. The files
/// of a download are under guard at once. A single file is sent as what it
/// is; a playlist is sent as the batch of its files in one group
/// transmission, however many files the batch holds. Where nothing can be
/// sent the request ends with a notice, and the transport is not called.
pub open spec fn after_download(
    caption: Seq<char>,
    outcome: Result<DownloadedMedia, DownloadError>,
) -> (PipelineStateView, PipelineActionView) {
    match outcome {
        Ok(media) => {
            let staged = local_paths(media@);
            match media@ {
                DownloadedMediaView::Single(item) => match item.media_type {
                    Some(media_type) => (
                        PipelineStateView::Transmit {
                            caption,
                            sent_types: seq![media_type],
                            staged,
                        },
                        PipelineActionView::SendSingle {
                            media: upload_of(item, media_type, caption),
                        },
                    ),
                    None => finished(Some(unsupported_single_text()), AuditStatus::Error, staged),
                },
                DownloadedMediaView::Group(items) => {
                    let batch = group_batch(items, caption);
                    if batch.len() == 0 {
                        finished(Some(unsupported_group_text()), AuditStatus::Error, staged)
                    } else {
                        (
                            PipelineStateView::Transmit {
                                caption,
                                sent_types: batch_types(batch),
                                staged,
                            },
                            PipelineActionView::SendGroup { batch },
                        )
                    }
                },
            }
        },
        Err(error) => finished(
            Some(download_failure_text(error@)),
            AuditStatus::Error,
            Seq::empty(),
        ),
    }
}

/// The records of a transmission: for each file that was sent, its handle
/// and its media type. Where fewer handles came back than files were sent,
/// it is not known which file a handle belongs to, and there are no records;
/// handles beyond the number of files are left out.
pub open spec fn sent_records(handles: Seq<Seq<char>>, sent_types: Seq<MediaType>) -> Seq<
    CachedFileView,
> {
    if handles.len() < sent_types.len() {
        Seq::empty()
    } else {
        Seq::new(
            sent_types.len(),
            |i: int| CachedFileView { telegram_file_id: handles[i], media_type: sent_types[i] },
        )
    }
}

/// After the transmission: a failure ends the request with its notice, and
/// nothing is cached. A delivery is written to the cache with its caption;
/// one for which the provider did not name every file is a success that
/// cannot be cached.
pub open spec fn after_transmission(
    caption: Seq<char>,
    sent_types: Seq<MediaType>,
    staged: Seq<Seq<char>>,
    handles: Option<Vec<String>>,
) -> (PipelineStateView, PipelineActionView) {
    match handles {
        Some(handles) => if sent_records(views(handles@), sent_types).len() > 0 {
            (
                PipelineStateView::CacheStore { staged },
                PipelineActionView::StoreCache {
                    caption,
                    files: sent_records(views(handles@), sent_types),
                },
            )
        } else {
            finished(None, AuditStatus::Success, staged)
        },
        None => finished(Some(send_failure_text()), AuditStatus::Error, staged),
    }
}

/// What an event leads to in a state: the next state and the action. An event
/// that does not answer what the state waits for changes nothing.
pub open spec fn transition(
    url: Seq<char>,
    limits: ValidationLimits,
    state: PipelineStateView,
    event: PipelineEvent,
) -> (PipelineStateView, PipelineActionView) {
    match (state, event) {
        (PipelineStateView::CacheCheck, PipelineEvent::CacheLookup(entry)) => after_cache_lookup(
            entry,
        ),
        (PipelineStateView::Replay, PipelineEvent::Transmitted(handles)) => after_replay(
            handles,
        ),
        (PipelineStateView::Validate, PipelineEvent::MetadataFetched(fetched)) => after_metadata(
            url,
            limits,
            fetched,
        ),
        (PipelineStateView::Download { caption }, PipelineEvent::Downloaded(outcome)) =>
            after_download(caption, outcome),
        (
            PipelineStateView::Transmit { caption, sent_types, staged },
            PipelineEvent::Transmitted(handles),
        ) => after_transmission(caption, sent_types, staged, handles),
        (PipelineStateView::CacheStore { staged }, PipelineEvent::CacheStored) => finished(
            None,
            AuditStatus::Success,
            staged,
        ),
        _ => (state, PipelineActionView::Wait),
    }
}

/// A request on its way through the pipeline.
#[derive(Debug, PartialEq, Eq)]
pub struct Pipeline {
    pub request: MediaRequest,
    pub limits: ValidationLimits,
    pub state: PipelineState,
}

fn finish(notice: Option<String>, status: AuditStatus, cleanup: Vec<String>) -> (end: (
    PipelineState,
    PipelineAction,
))
    ensures
        (end.0@, end.1@) == finished(opt_view(notice), status, views(cleanup@)),
{
    (PipelineState::Done { status }, PipelineAction::Finish { notice, status, cleanup })
}

fn replay_all(batch: Vec<OutgoingMedia>) -> (action: PipelineAction)
    ensures
        action@ == replay_action(batch_views(batch@)),
{
    let mut batch = batch;
    if batch.len() == 1 {
        match batch.pop() {
            Some(media) => PipelineAction::SendSingle { media },
            None => PipelineAction::SendGroup { batch },
        }
    } else {
        PipelineAction::SendGroup { batch }
    }
}

fn on_cache_lookup(entry: Option<CachedMedia>) -> (next: (PipelineState, PipelineAction))
    ensures
        (next.0@, next.1@) == after_cache_lookup(entry),
{
    match entry {
        Some(entry) => {
            if entry.files.len() > 0 {
                let batch = build_replay(&entry.files, entry.caption.as_str());
                (PipelineState::Replay, replay_all(batch))
            } else {
                (PipelineState::Validate, PipelineAction::FetchMetadata)
            }
        },
        None => (PipelineState::Validate, PipelineAction::FetchMetadata),
    }
}

fn on_replayed(handles: Option<Vec<String>>) -> (next: (PipelineState, PipelineAction))
    ensures
        (next.0@, next.1@) == after_replay(handles),
{
    match handles {
        Some(_) => finish(None, AuditStatus::Cached, no_files()),
        None => (PipelineState::Validate, PipelineAction::FetchMetadata),
    }
}

/// The notice for an error of the fetching tool while the descriptor was
/// fetched.
pub fn fetch_failure_message(error: &DownloadError) -> (text: String)
    ensures
        text@ == fetch_failure_text(error@),
{
    let mut text = String::from_str(
        "Sorry, I could not fetch information for that link. It might be private or invalid. Error: ",
    );
    text.append(error.message().as_str());
    text
}

/// The notice for an error of the fetching tool during the download.
pub fn download_failure_message(error: &DownloadError) -> (text: String)
    ensures
        text@ == download_failure_text(error@),
{
    match error {
        DownloadError::Timeout => String::from_str(
            "Sorry, the download is taking too long. Please try again later.",
        ),
        _ => {
            let mut text = String::from_str("Sorry, I could not download the media: ");
            text.append(error.message().as_str());
            text
        },
    }
}

/// The notice for a chat that has a request under way.
pub fn busy_message() -> (text: String)
    ensures
        text@ == busy_text(),
{
    String::from_str("I'm already working on a request for you. Please wait until it's finished!")
}

fn no_files() -> (cleanup: Vec<String>)
    ensures
        views(cleanup@) == Seq::<Seq<char>>::empty(),
{
    let cleanup: Vec<String> = Vec::new();
    assert(views(cleanup@) =~= Seq::<Seq<char>>::empty());
    cleanup
}

fn on_metadata(
    url: &SourceUrl,
    limits: &ValidationLimits,
    fetched: Result<MediaMetadata, DownloadError>,
) -> (next: (PipelineState, PipelineAction))
    ensures
        (next.0@, next.1@) == after_metadata(url.text(), *limits, fetched),
{
    match fetched {
        Ok(metadata) => match validate_with_limits(&metadata, limits) {
            Ok(_) => {
                let caption = metadata.caption(url);
                (PipelineState::Download { caption }, PipelineAction::Download { metadata })
            },
            Err(refusal) => finish(
                Some(refusal.message()),
                AuditStatus::ValidationError,
                no_files(),
            ),
        },
        Err(error) => finish(Some(fetch_failure_message(&error)), AuditStatus::Error, no_files()),
    }
}

fn types_of(batch: &Vec<OutgoingMedia>) -> (types: Vec<MediaType>)
    ensures
        types@ == batch_types(batch_views(batch@)),
{
    let mut types: Vec<MediaType> = Vec::new();
    let mut i: usize = 0;
    while i < batch.len()
        invariant
            i <= batch.len(),
            types.len() == i,
            forall|k: int| 0 <= k < i ==> types@[k] == (#[trigger] batch@[k]).media_type,
        decreases batch.len() - i,
    {
        types.push(batch[i].media_type);
        i = i + 1;
    }
    assert(types@ =~= batch_types(batch_views(batch@)));
    types
}

fn on_downloaded(caption: String, outcome: Result<DownloadedMedia, DownloadError>) -> (next: (
    PipelineState,
    PipelineAction,
))
    ensures
        (next.0@, next.1@) == after_download(caption@, outcome),
{
    match outcome {
        Ok(media) => {
            let guard = FileCleanupGuard::attach(&media);
            match media {
                DownloadedMedia::Single(item) => match item.media_type {
                    Some(media_type) => {
                        let outgoing = upload(&item, media_type, caption.clone());
                        let sent_types: Vec<MediaType> = vec![media_type];
                        assert(sent_types@ =~= seq![media_type]);
                        (
                            PipelineState::Transmit { caption, sent_types, guard },
                            PipelineAction::SendSingle { media: outgoing },
                        )
                    },
                    None => finish(
                        Some(
                            String::from_str(
                                "Sorry, the single media item downloaded had an unsupported type.",
                            ),
                        ),
                        AuditStatus::Error,
                        guard.release(),
                    ),
                },
                DownloadedMedia::Group(items) => {
                    let batch = build_media_group(&items, caption.as_str());
                    if batch.len() > 0 {
                        let sent_types = types_of(&batch);
                        (
                            PipelineState::Transmit { caption, sent_types, guard },
                            PipelineAction::SendGroup { batch },
                        )
                    } else {
                        finish(
                            Some(
                                String::from_str(
                                    "Sorry, although multiple items were found, none were of a supported type for a media group.",
                                ),
                            ),
                            AuditStatus::Error,
                            guard.release(),
                        )
                    }
                },
            }
        },
        Err(error) => finish(
            Some(download_failure_message(&error)),
            AuditStatus::Error,
            no_files(),
        ),
    }
}

fn records_of(handles: &Vec<String>, sent_types: &Vec<MediaType>) -> (files: Vec<CachedFile>)
    ensures
        file_views(files@) == sent_records(views(handles@), sent_types@),
{
    let count: usize = if handles.len() < sent_types.len() {
        0
    } else {
        sent_types.len()
    };
    let mut files: Vec<CachedFile> = Vec::new();
    let mut i: usize = 0;
    while i < count
        invariant
            i <= count,
            count <= handles.len(),
            count <= sent_types.len(),
            files.len() == i,
            forall|k: int|
                0 <= k < i ==> (#[trigger] files@[k])@ == (CachedFileView {
                    telegram_file_id: handles@[k]@,
                    media_type: sent_types@[k],
                }),
        decreases count - i,
    {
        files.push(
            CachedFile { telegram_file_id: handles[i].clone(), media_type: sent_types[i] },
        );
        i = i + 1;
    }
    assert(file_views(files@) =~= sent_records(views(handles@), sent_types@));
    files
}

fn on_transmitted(
    caption: String,
    sent_types: Vec<MediaType>,
    guard: FileCleanupGuard,
    handles: Option<Vec<String>>,
) -> (next: (PipelineState, PipelineAction))
    ensures
        (next.0@, next.1@) == after_transmission(caption@, sent_types@, guard.staged(), handles),
{
    match handles {
        Some(handles) => {
            let files = records_of(&handles, &sent_types);
            if files.len() > 0 {
                (PipelineState::CacheStore { guard }, PipelineAction::StoreCache { caption, files })
            } else {
                finish(None, AuditStatus::Success, guard.release())
            }
        },
        None => finish(
            Some(String::from_str("Sorry, I encountered an error while sending the media.")),
            AuditStatus::Error,
            guard.release(),
        ),
    }
}

impl Pipeline {
    /// The link of the request as text.
    pub open spec fn url_text(&self) -> Seq<char> {
        self.request.url.text()
    }

    /// A request at its start: the cache is to be asked.
    pub fn start(request: MediaRequest, limits: ValidationLimits) -> (begun: (
        Pipeline,
        PipelineAction,
    ))
        ensures
            begun.0.request == request,
            begun.0.limits == limits,
            begun.0.state@ == PipelineStateView::CacheCheck,
            begun.1@ == PipelineActionView::LookupCache,
    {
        (Pipeline { request, limits, state: PipelineState::CacheCheck }, PipelineAction::LookupCache)
    }

    /// Takes the answer of a collaborator and says what to do next.
    pub fn step(self, event: PipelineEvent) -> (next: (Pipeline, PipelineAction))
        ensures
            next.0.request == self.request,
            next.0.limits == self.limits,
            (next.0.state@, next.1@) == transition(
                self.url_text(),
                self.limits,
                self.state@,
                event,
            ),
    {
        let Pipeline { request, limits, state } = self;
        let (state, action) = match state {
            PipelineState::CacheCheck => match event {
                PipelineEvent::CacheLookup(entry) => on_cache_lookup(entry),
                _ => (PipelineState::CacheCheck, PipelineAction::Wait),
            },
            PipelineState::Replay => match event {
                PipelineEvent::Transmitted(handles) => on_replayed(handles),
                _ => (PipelineState::Replay, PipelineAction::Wait),
            },
            PipelineState::Validate => match event {
                PipelineEvent::MetadataFetched(fetched) => on_metadata(
                    &request.url,
                    &limits,
                    fetched,
                ),
                _ => (PipelineState::Validate, PipelineAction::Wait),
            },
            PipelineState::Download { caption } => match event {
                PipelineEvent::Downloaded(outcome) => on_downloaded(caption, outcome),
                _ => (PipelineState::Download { caption }, PipelineAction::Wait),
            },
            PipelineState::Transmit { caption, sent_types, guard } => match event {
                PipelineEvent::Transmitted(handles) => on_transmitted(
                    caption,
                    sent_types,
                    guard,
                    handles,
                ),
                _ => (PipelineState::Transmit { caption, sent_types, guard }, PipelineAction::Wait),
            },
            PipelineState::CacheStore { guard } => match event {
                PipelineEvent::CacheStored => finish(
                    None,
                    AuditStatus::Success,
                    guard.release(),
                ),
                _ => (PipelineState::CacheStore { guard }, PipelineAction::Wait),
            },
            PipelineState::Done { status } => (
                PipelineState::Done { status },
                PipelineAction::Wait,
            ),
        };
        (Pipeline { request, limits, state }, action)
    }

    /// Whether the request is over.
    pub fn is_done(&self) -> (done: bool)
        ensures
            done == (self.state@ is Done),
    {
        match &self.state {
            PipelineState::Done { status } => true,
            _ => false,
        }
    }
}

/// The state that a run of events leaves, from a given state on.
pub open spec fn run_state(
    url: Seq<char>,
    limits: ValidationLimits,
    state: PipelineStateView,
    events: Seq<PipelineEvent>,
) -> PipelineStateView
    decreases events.len(),
{
    if events.len() == 0 {
        state
    } else {
        transition(url, limits, run_state(url, limits, state, events.drop_last()), events.last()).0
    }
}

/// The actions that a run of events asks for, one for each event, from a
/// given state on.
pub open spec fn run_actions(
    url: Seq<char>,
    limits: ValidationLimits,
    state: PipelineStateView,
    events: Seq<PipelineEvent>,
) -> Seq<PipelineActionView>
    decreases events.len(),
{
    if events.len() == 0 {
        Seq::empty()
    } else {
        run_actions(url, limits, state, events.drop_last()).push(
            transition(
                url,
                limits,
                run_state(url, limits, state, events.drop_last()),
                events.last(),
            ).1,
        )
    }
}

/// The views of the actions of a list.
pub open spec fn action_views(actions: Seq<PipelineAction>) -> Seq<PipelineActionView> {
    Seq::new(actions.len(), |i: int| actions[i]@)
}

/// Runs a request against the answers of the collaborators, given in the
/// order in which they came: returns where the request stands after them and
/// every action that was asked for, the cache lookup first.
pub fn process_download_request(
    url: &SourceUrl,
    chat_id: i64,
    message_id: i32,
    limits: ValidationLimits,
    events: Vec<PipelineEvent>,
) -> (run: (Pipeline, Vec<PipelineAction>))
    ensures
        run.0.request.url@ == canonical(url@),
        run.0.request.chat_id == chat_id,
        run.0.request.message_id == message_id,
        run.0.limits == limits,
        run.0.state@ == run_state(
            run.0.url_text(),
            limits,
            PipelineStateView::CacheCheck,
            events@,
        ),
        action_views(run.1@) == seq![PipelineActionView::LookupCache] + run_actions(
            run.0.url_text(),
            limits,
            PipelineStateView::CacheCheck,
            events@,
        ),
{
    let request = MediaRequest::new(url, chat_id, message_id);
    let ghost link = request.url.text();
    let ghost wanted = request;
    let (mut pipeline, first) = Pipeline::start(request, limits);
    let mut actions: Vec<PipelineAction> = Vec::new();
    actions.push(first);
    let ghost all = events@;
    proof {
        assert(all.take(0) =~= Seq::<PipelineEvent>::empty());
        assert(action_views(actions@) =~= seq![PipelineActionView::LookupCache] + run_actions(
            link,
            limits,
            PipelineStateView::CacheCheck,
            all.take(0),
        ));
    }
    for event in it: events.into_iter()
        invariant
            it.seq() == all,
            pipeline.request == wanted,
            pipeline.url_text() == link,
            pipeline.limits == limits,
            pipeline.state@ == run_state(
                link,
                limits,
                PipelineStateView::CacheCheck,
                all.take(it.index()),
            ),
            action_views(actions@) == seq![PipelineActionView::LookupCache] + run_actions(
                link,
                limits,
                PipelineStateView::CacheCheck,
                all.take(it.index()),
            ),
    {
        proof {
            assert(all.take(it.index() + 1).drop_last() =~= all.take(it.index()));
            assert(all.take(it.index() + 1).last() == event);
        }
        let (next, action) = pipeline.step(event);
        proof {
            assert(action_views(actions@.push(action)) =~= action_views(actions@).push(action@));
        }
        pipeline = next;
        actions.push(action);
    }
    assert(all.take(all.len() as int) =~= all);
    (pipeline, actions)
}

/// Whether a request may start.
#[derive(Debug)]
pub enum Admission {
    /// The chat has a request under way: the notice is sent and nothing else
    /// is done.
    Busy { notice: String },
    /// The request has started. The guard is handed back to the limiter when
    /// the request is over.
    Started { guard: LockGuard, pipeline: Pipeline, action: PipelineAction },
}

/// Starts a request for a link as it was posted, unless its chat has a
/// request under way.
pub fn begin_request(
    limiter: &mut ConcurrencyLimiter,
    url: &SourceUrl,
    chat_id: i64,
    message_id: i32,
    limits: ValidationLimits,
) -> (admission: Admission)
    ensures
        final(limiter).held() == acquire(old(limiter).held(), chat_id).0,
        match admission {
            Admission::Busy { notice } => !acquire(old(limiter).held(), chat_id).1 && notice@
                == busy_text(),
            Admission::Started { guard, pipeline, action } => acquire(
                old(limiter).held(),
                chat_id,
            ).1 && guard.chat() == chat_id && pipeline.request.url@ == canonical(url@)
                && pipeline.request.chat_id == chat_id && pipeline.request.message_id
                == message_id && pipeline.limits == limits && pipeline.state@
                == PipelineStateView::CacheCheck && action@ == PipelineActionView::LookupCache,
        },
{
    match limiter.try_lock(chat_id) {
        Some(guard) => {
            let (pipeline, action) = Pipeline::start(
                MediaRequest::new(url, chat_id, message_id),
                limits,
            );
            Admission::Started { guard, pipeline, action }
        },
        None => Admission::Busy { notice: busy_message() },
    }
}

/// The place of a state in the order of a run.
pub open spec fn phase(state: PipelineStateView) -> nat {
    match state {
        PipelineStateView::CacheCheck => 0,
        PipelineStateView::Replay => 1,
        PipelineStateView::Validate => 2,
        PipelineStateView::Download { .. } => 3,
        PipelineStateView::Transmit { .. } => 4,
        PipelineStateView::CacheStore { .. } => 5,
        PipelineStateView::Done { .. } => 6,
    }
}

/// The local files that a state holds under guard.
pub open spec fn staged_paths(state: PipelineStateView) -> Seq<Seq<char>> {
    match state {
        PipelineStateView::Transmit { staged, .. } => staged,
        PipelineStateView::CacheStore { staged } => staged,
        _ => Seq::empty(),
    }
}

/// The local files that an action submits for removal.
pub open spec fn submitted_by(action: PipelineActionView) -> Seq<Seq<char>> {
    match action {
        PipelineActionView::Finish { cleanup, .. } => cleanup,
        _ => Seq::empty(),
    }
}

/// The local files that come under guard when an event is taken in a state:
/// those of a download that is answered while the request waits for it.
pub open spec fn attached_by(state: PipelineStateView, event: PipelineEvent) -> Seq<Seq<char>> {
    match (state, event) {
        (PipelineStateView::Download { .. }, PipelineEvent::Downloaded(Ok(media))) => local_paths(
            media@,
        ),
        _ => Seq::empty(),
    }
}

/// Every local file submitted for removal in the course of some actions.
pub open spec fn submitted(actions: Seq<PipelineActionView>) -> Seq<Seq<char>>
    decreases actions.len(),
{
    if actions.len() == 0 {
        Seq::empty()
    } else {
        submitted(actions.drop_last()) + submitted_by(actions.last())
    }
}

/// Every local file that came under guard in the course of a run.
pub open spec fn attached(
    url: Seq<char>,
    limits: ValidationLimits,
    state: PipelineStateView,
    events: Seq<PipelineEvent>,
) -> Seq<Seq<char>>
    decreases events.len(),
{
    if events.len() == 0 {
        Seq::empty()
    } else {
        attached(url, limits, state, events.drop_last()) + attached_by(
            run_state(url, limits, state, events.drop_last()),
            events.last(),
        )
    }
}

/// Whether an action calls on the fetching tool.
pub open spec fn calls_fetcher(action: PipelineActionView) -> bool {
    action is FetchMetadata || action is Download
}

/// One step never goes back: it leaves the state as it is and asks for
/// nothing, or ends the request, or moves to the state that follows in the
/// order cache check, replay, validation, download, transmission, cache
/// store; only the cache check may pass over the replay. A request that is
/// over stays as it is.
pub proof fn lemma_step_advances(
    url: Seq<char>,
    limits: ValidationLimits,
    state: PipelineStateView,
    event: PipelineEvent,
)
    ensures
        ({
            let (next, action) = transition(url, limits, state, event);
            ||| next == state && action is Wait
            ||| !(state is Done) && next is Done
            ||| phase(next) == phase(state) + 1
            ||| state is CacheCheck && next is Validate
        }),
        state is Done ==> transition(url, limits, state, event) == (
            state,
            PipelineActionView::Wait,
        ),
{
}

/// The step that ends a request, and no other, asks for `Finish`, with the
/// status of the end. The user is given a notice exactly where the request
/// ends as an error or as a validation error.
pub proof fn lemma_step_finishes(
    url: Seq<char>,
    limits: ValidationLimits,
    state: PipelineStateView,
    event: PipelineEvent,
)
    ensures
        ({
            let (next, action) = transition(url, limits, state, event);
            &&& action is Finish <==> !(state is Done) && next is Done
            &&& match action {
                PipelineActionView::Finish { notice, status, .. } => {
                    &&& next == (PipelineStateView::Done { status })
                    &&& notice is Some <==> status == AuditStatus::Error || status
                        == AuditStatus::ValidationError
                },
                _ => true,
            }
        }),
{
}

/// How a request can end from where it stands: as cached only from the
/// replay, as a validation error only from the validation, as a success only
/// from the cache store or, where the provider did not name every file,
/// from the transmission.
pub proof fn lemma_step_status(
    url: Seq<char>,
    limits: ValidationLimits,
    state: PipelineStateView,
    event: PipelineEvent,
)
    requires
        !(state is Done),
    ensures
        match transition(url, limits, state, event).0 {
            PipelineStateView::Done { status } => match status {
                AuditStatus::Cached => state is Replay,
                AuditStatus::Success => state is CacheStore || state is Transmit,
                AuditStatus::ValidationError => state is Validate,
                AuditStatus::Error => !(state is Replay) && !(state is CacheStore) && !(state
                    is CacheCheck),
            },
            _ => true,
        },
        state is Replay && transition(url, limits, state, event).0 is Done ==> transition(
            url,
            limits,
            state,
            event,
        ).0 == (PipelineStateView::Done { status: AuditStatus::Cached }),
{
}

/// The fetching tool is called on only where the request moves on to the
/// state that waits for its answer.
pub proof fn lemma_step_calls_fetcher(
    url: Seq<char>,
    limits: ValidationLimits,
    state: PipelineStateView,
    event: PipelineEvent,
)
    ensures
        ({
            let (next, action) = transition(url, limits, state, event);
            &&& action is FetchMetadata ==> next is Validate && (state is CacheCheck || state
                is Replay)
            &&& action is Download ==> next is Download && state is Validate
        }),
{
}

/// What is under guard is never lost and never submitted twice: in one step,
/// the files held before it and those that it attaches are the files that it
/// submits and those held after it. A state that is over holds none.
pub proof fn lemma_step_conserves_files(
    url: Seq<char>,
    limits: ValidationLimits,
    state: PipelineStateView,
    event: PipelineEvent,
)
    ensures
        ({
            let (next, action) = transition(url, limits, state, event);
            &&& staged_paths(state) + attached_by(state, event) == submitted_by(action)
                + staged_paths(next)
            &&& next is Done ==> staged_paths(next) == Seq::<Seq<char>>::empty()
        }),
{
    let (next, action) = transition(url, limits, state, event);
    assert(staged_paths(state) + attached_by(state, event) =~= submitted_by(action) + staged_paths(
        next,
    ));
}

/// Over a whole run, the files held at its start and those attached on the
/// way are, in order, the files submitted for removal and those still held.
/// So once a run from the start is over, every file that came under guard
/// has been submitted, once.
pub proof fn lemma_run_conserves_files(
    url: Seq<char>,
    limits: ValidationLimits,
    state: PipelineStateView,
    events: Seq<PipelineEvent>,
)
    ensures
        staged_paths(state) + attached(url, limits, state, events) == submitted(
            run_actions(url, limits, state, events),
        ) + staged_paths(run_state(url, limits, state, events)),
        run_state(url, limits, state, events) is Done && staged_paths(state).len() == 0
            ==> submitted(run_actions(url, limits, state, events)) == attached(
            url,
            limits,
            state,
            events,
        ),
    decreases events.len(),
{
    let held = staged_paths(state);
    let all_attached = attached(url, limits, state, events);
    let all_submitted = submitted(run_actions(url, limits, state, events));
    let end = run_state(url, limits, state, events);
    if events.len() == 0 {
        assert(held + all_attached =~= all_submitted + staged_paths(end));
    } else {
        let before = events.drop_last();
        let middle = run_state(url, limits, state, before);
        lemma_run_conserves_files(url, limits, state, before);
        lemma_step_conserves_files(url, limits, middle, events.last());
        let action = transition(url, limits, middle, events.last()).1;
        assert(run_actions(url, limits, state, events).drop_last() =~= run_actions(
            url,
            limits,
            state,
            before,
        ));
        assert(run_actions(url, limits, state, events).last() == action);
        let earlier = submitted(run_actions(url, limits, state, before));
        assert(all_submitted == earlier + submitted_by(action));
        assert(held + all_attached =~= (held + attached(url, limits, state, before))
            + attached_by(middle, events.last()));
        assert((earlier + staged_paths(middle)) + attached_by(middle, events.last()) =~= earlier
            + (staged_paths(middle) + attached_by(middle, events.last())));
        assert(earlier + (submitted_by(action) + staged_paths(end)) =~= all_submitted
            + staged_paths(end));
    }
    if end is Done && held.len() == 0 {
        lemma_done_holds_nothing(url, limits, state, events);
        assert(held =~= Seq::<Seq<char>>::empty());
        assert(held + all_attached =~= all_attached);
        assert(all_submitted + staged_paths(end) =~= all_submitted);
    }
}

/// A request that is over holds no file.
pub proof fn lemma_done_holds_nothing(
    url: Seq<char>,
    limits: ValidationLimits,
    state: PipelineStateView,
    events: Seq<PipelineEvent>,
)
    ensures
        run_state(url, limits, state, events) is Done ==> staged_paths(
            run_state(url, limits, state, events),
        ) == Seq::<Seq<char>>::empty(),
{
}

/// A run never goes back, and a request that is over stays as it is: every
/// later event is answered with `Wait`.
pub proof fn lemma_run_advances(
    url: Seq<char>,
    limits: ValidationLimits,
    state: PipelineStateView,
    events: Seq<PipelineEvent>,
)
    ensures
        phase(state) <= phase(run_state(url, limits, state, events)),
        state is Done ==> run_state(url, limits, state, events) == state && forall|k: int|
            0 <= k < events.len() ==> (#[trigger] run_actions(url, limits, state, events)[k])
                is Wait,
        run_actions(url, limits, state, events).len() == events.len(),
    decreases events.len(),
{
    if events.len() > 0 {
        let before = events.drop_last();
        lemma_run_advances(url, limits, state, before);
        lemma_step_advances(url, limits, run_state(url, limits, state, before), events.last());
        if state is Done {
            assert forall|k: int| 0 <= k < events.len() implies (#[trigger] run_actions(
                url,
                limits,
                state,
                events,
            )[k]) is Wait by {
                if k < events.len() - 1 {
                    assert(run_actions(url, limits, state, events)[k] == run_actions(
                        url,
                        limits,
                        state,
                        before,
                    )[k]);
                }
            }
        }
    }
}

/// How many of the actions end a request.
pub open spec fn finish_count(actions: Seq<PipelineActionView>) -> nat
    decreases actions.len(),
{
    if actions.len() == 0 {
        0
    } else {
        finish_count(actions.drop_last()) + if actions.last() is Finish {
            1nat
        } else {
            0nat
        }
    }
}

/// A request ends once: a run that is over has asked for exactly one
/// `Finish`, so that one record goes to the audit log and at most one notice
/// to the user; a run that is not over has asked for none.
pub proof fn lemma_run_finishes_once(
    url: Seq<char>,
    limits: ValidationLimits,
    state: PipelineStateView,
    events: Seq<PipelineEvent>,
)
    requires
        !(state is Done),
    ensures
        finish_count(run_actions(url, limits, state, events)) == (if run_state(
            url,
            limits,
            state,
            events,
        ) is Done {
            1nat
        } else {
            0nat
        }),
    decreases events.len(),
{
    if events.len() > 0 {
        let before = events.drop_last();
        let middle = run_state(url, limits, state, before);
        lemma_run_finishes_once(url, limits, state, before);
        lemma_step_advances(url, limits, middle, events.last());
        lemma_step_finishes(url, limits, middle, events.last());
        assert(run_actions(url, limits, state, events).drop_last() =~= run_actions(
            url,
            limits,
            state,
            before,
        ));
    }
}

/// Whether an event answers a download with exactly the given local files.
pub open spec fn delivers(event: PipelineEvent, paths: Seq<Seq<char>>) -> bool {
    match event {
        PipelineEvent::Downloaded(Ok(media)) => local_paths(media@) == paths,
        _ => false,
    }
}

/// At most one download comes under guard in a run, and none once the
/// download is past: the files attached are those of one download that was
/// answered, or none.
pub proof fn lemma_one_download_is_attached(
    url: Seq<char>,
    limits: ValidationLimits,
    state: PipelineStateView,
    events: Seq<PipelineEvent>,
)
    ensures
        phase(state) > 3 ==> attached(url, limits, state, events) == Seq::<Seq<char>>::empty(),
        phase(run_state(url, limits, state, events)) <= 3 ==> attached(
            url,
            limits,
            state,
            events,
        ) == Seq::<Seq<char>>::empty(),
        attached(url, limits, state, events) == Seq::<Seq<char>>::empty() || exists|k: int|
            0 <= k < events.len() && delivers(
                #[trigger] events[k],
                attached(url, limits, state, events),
            ),
    decreases events.len(),
{
    if events.len() > 0 {
        let before = events.drop_last();
        let middle = run_state(url, limits, state, before);
        lemma_one_download_is_attached(url, limits, state, before);
        lemma_run_advances(url, limits, state, before);
        lemma_step_advances(url, limits, middle, events.last());
        let earlier = attached(url, limits, state, before);
        let now = attached_by(middle, events.last());
        if now =~= Seq::<Seq<char>>::empty() {
            assert(earlier + now =~= earlier);
            if !(earlier =~= Seq::<Seq<char>>::empty()) {
                let k = choose|k: int|
                    0 <= k < before.len() && delivers(#[trigger] before[k], earlier);
                assert(events[k] == before[k]);
            }
        } else {
            assert(middle is Download);
            assert(earlier =~= Seq::<Seq<char>>::empty());
            assert(earlier + now =~= now);
            assert(events[events.len() - 1] == events.last());
        }
    }
}

/// Whether a state is what a run may come to next after another: the same
/// state, the end, or the state that follows in the order of a run.
pub open spec fn follows(state: PipelineStateView, next: PipelineStateView) -> bool {
    next == state || next is Done || phase(next) == phase(state) + 1
}

/// A run for a link that the cache does not hold goes from the cache check
/// to the validation and from there, state by state, through download,
/// transmission and cache store, unless it ends before; it never replays,
/// and where it ends, it ends as a success, an error or a validation error,
/// never as cached.
pub proof fn lemma_fresh_link_run(
    url: Seq<char>,
    limits: ValidationLimits,
    events: Seq<PipelineEvent>,
)
    requires
        events.len() > 0,
        events[0] == PipelineEvent::CacheLookup(None),
    ensures
        run_state(url, limits, PipelineStateView::CacheCheck, events.take(1))
            == PipelineStateView::Validate,
        run_actions(url, limits, PipelineStateView::CacheCheck, events)[0]
            == PipelineActionView::FetchMetadata,
        forall|n: int|
            1 <= n <= events.len() ==> phase(
                #[trigger] run_state(url, limits, PipelineStateView::CacheCheck, events.take(n)),
            ) >= 2,
        forall|n: int|
            1 <= n < events.len() ==> follows(
                #[trigger] run_state(url, limits, PipelineStateView::CacheCheck, events.take(n)),
                run_state(url, limits, PipelineStateView::CacheCheck, events.take(n + 1)),
            ),
        run_state(url, limits, PipelineStateView::CacheCheck, events)
            matches PipelineStateView::Done { status } ==> status == AuditStatus::Success
            || status == AuditStatus::Error || status == AuditStatus::ValidationError,
{
    let start = PipelineStateView::CacheCheck;
    assert forall|n: int| 1 <= n <= events.len() implies fresh_so_far(
        #[trigger] run_state(url, limits, start, events.take(n)),
    ) by {
        lemma_fresh_prefix(url, limits, events, n);
    }
    assert forall|n: int| 1 <= n < events.len() implies follows(
        #[trigger] run_state(url, limits, start, events.take(n)),
        run_state(url, limits, start, events.take(n + 1)),
    ) by {
        lemma_fresh_prefix(url, limits, events, n);
        assert(events.take(n + 1).drop_last() =~= events.take(n));
        lemma_step_advances(
            url,
            limits,
            run_state(url, limits, start, events.take(n)),
            events.take(n + 1).last(),
        );
    }
    lemma_fresh_prefix(url, limits, events, 1);
    lemma_fresh_prefix(url, limits, events, events.len() as int);
    assert(events.take(events.len() as int) =~= events);
    lemma_first_action(url, limits, start, events);
    assert(events.take(1).drop_last() =~= Seq::<PipelineEvent>::empty());
}

/// A state past the replay that is not a cached end.
pub open spec fn fresh_so_far(state: PipelineStateView) -> bool {
    phase(state) >= 2 && !(state matches PipelineStateView::Done { status } && status
        == AuditStatus::Cached)
}

proof fn lemma_fresh_prefix(
    url: Seq<char>,
    limits: ValidationLimits,
    events: Seq<PipelineEvent>,
    n: int,
)
    requires
        1 <= n <= events.len(),
        events[0] == PipelineEvent::CacheLookup(None),
    ensures
        fresh_so_far(run_state(url, limits, PipelineStateView::CacheCheck, events.take(n))),
        n == 1 ==> run_state(url, limits, PipelineStateView::CacheCheck, events.take(n))
            == PipelineStateView::Validate,
    decreases n,
{
    let start = PipelineStateView::CacheCheck;
    assert(events.take(n).drop_last() =~= events.take(n - 1));
    assert(events.take(n).last() == events[n - 1]);
    if n == 1 {
        assert(events.take(0) =~= Seq::<PipelineEvent>::empty());
        assert(run_state(url, limits, start, events.take(0)) == start);
    } else {
        lemma_fresh_prefix(url, limits, events, n - 1);
        lemma_step_advances(
            url,
            limits,
            run_state(url, limits, start, events.take(n - 1)),
            events[n - 1],
        );
    }
}

proof fn lemma_first_action(
    url: Seq<char>,
    limits: ValidationLimits,
    state: PipelineStateView,
    events: Seq<PipelineEvent>,
)
    requires
        events.len() > 0,
    ensures
        run_actions(url, limits, state, events).len() == events.len(),
        run_actions(url, limits, state, events)[0] == transition(url, limits, state, events[0]).1,
    decreases events.len(),
{
    if events.len() == 1 {
        assert(events.drop_last() =~= Seq::<PipelineEvent>::empty());
        assert(run_actions(url, limits, state, events.drop_last()) =~= Seq::<
            PipelineActionView,
        >::empty());
        assert(run_state(url, limits, state, events.drop_last()) == state);
        assert(events.last() == events[0]);
    } else {
        lemma_first_action(url, limits, state, events.drop_last());
        assert(events.drop_last()[0] == events[0]);
    }
}

/// A run may be taken in two parts: the second part goes on from where the
/// first one ended, and the actions of the whole are those of the parts.
pub proof fn lemma_run_splits(
    url: Seq<char>,
    limits: ValidationLimits,
    state: PipelineStateView,
    first: Seq<PipelineEvent>,
    rest: Seq<PipelineEvent>,
)
    ensures
        run_state(url, limits, state, first + rest) == run_state(
            url,
            limits,
            run_state(url, limits, state, first),
            rest,
        ),
        run_actions(url, limits, state, first + rest) == run_actions(url, limits, state, first)
            + run_actions(url, limits, run_state(url, limits, state, first), rest),
    decreases rest.len(),
{
    let middle = run_state(url, limits, state, first);
    if rest.len() == 0 {
        assert(first + rest =~= first);
        assert(run_actions(url, limits, state, first) + run_actions(url, limits, middle, rest)
            =~= run_actions(url, limits, state, first));
    } else {
        lemma_run_splits(url, limits, state, first, rest.drop_last());
        assert((first + rest).drop_last() =~= first + rest.drop_last());
        assert((first + rest).last() == rest.last());
        assert(run_actions(url, limits, state, first + rest) =~= run_actions(
            url,
            limits,
            state,
            first,
        ) + run_actions(url, limits, middle, rest));
    }
}

/// Once a run is past the replay, it cannot end as cached.
pub proof fn lemma_full_run_is_never_cached(
    url: Seq<char>,
    limits: ValidationLimits,
    state: PipelineStateView,
    events: Seq<PipelineEvent>,
)
    requires
        fresh_so_far(state),
    ensures
        fresh_so_far(run_state(url, limits, state, events)),
    decreases events.len(),
{
    if events.len() > 0 {
        lemma_full_run_is_never_cached(url, limits, state, events.drop_last());
        lemma_step_advances(
            url,
            limits,
            run_state(url, limits, state, events.drop_last()),
            events.last(),
        );
    }
}

/// A replay that fails is followed by a full run, as if the cache had held
/// nothing: the descriptor is fetched next, and however the run goes on, it
/// does not end as cached. The entry is left as it is; the store that ends a
/// successful run replaces it.
pub proof fn lemma_failed_replay_falls_back(
    url: Seq<char>,
    limits: ValidationLimits,
    entry: CachedMedia,
    events: Seq<PipelineEvent>,
)
    requires
        entry.files@.len() > 0,
    ensures
        ({
            let opening = seq![
                PipelineEvent::CacheLookup(Some(entry)),
                PipelineEvent::Transmitted(None),
            ];
            let start = PipelineStateView::CacheCheck;
            &&& run_state(url, limits, start, opening) == PipelineStateView::Validate
            &&& run_actions(url, limits, start, opening)[1] == PipelineActionView::FetchMetadata
            &&& fresh_so_far(run_state(url, limits, start, opening + events))
        }),
{
    let opening = seq![PipelineEvent::CacheLookup(Some(entry)), PipelineEvent::Transmitted(None)];
    let start = PipelineStateView::CacheCheck;
    let first = opening.drop_last();
    assert(first.drop_last() =~= Seq::<PipelineEvent>::empty());
    assert(first.last() == opening[0]);
    assert(opening.last() == opening[1]);
    assert(run_state(url, limits, start, first.drop_last()) == start);
    assert(run_state(url, limits, start, first) == PipelineStateView::Replay);
    assert(run_state(url, limits, start, opening) == PipelineStateView::Validate);
    lemma_run_advances(url, limits, start, opening);
    lemma_run_splits(url, limits, start, opening, events);
    lemma_full_run_is_never_cached(url, limits, PipelineStateView::Validate, events);
}

/// A run whose cache lookup finds an entry with files, and whose replay is
/// delivered, ends as cached after these two events and never calls on the
/// fetching tool, whatever events follow: nothing is fetched and nothing is
/// downloaded.
pub proof fn lemma_cached_run_skips_fetcher(
    url: Seq<char>,
    limits: ValidationLimits,
    entry: CachedMedia,
    handles: Vec<String>,
    events: Seq<PipelineEvent>,
)
    requires
        entry.files@.len() > 0,
        events.len() >= 2,
        events[0] == PipelineEvent::CacheLookup(Some(entry)),
        events[1] == PipelineEvent::Transmitted(Some(handles)),
    ensures
        run_state(url, limits, PipelineStateView::CacheCheck, events)
            == (PipelineStateView::Done { status: AuditStatus::Cached }),
        run_actions(url, limits, PipelineStateView::CacheCheck, events).len() == events.len(),
        forall|k: int|
            0 <= k < events.len() ==> !calls_fetcher(
                #[trigger] run_actions(url, limits, PipelineStateView::CacheCheck, events)[k],
            ),
        attached(url, limits, PipelineStateView::CacheCheck, events) == Seq::<Seq<char>>::empty(),
    decreases events.len(),
{
    let start = PipelineStateView::CacheCheck;
    let done = PipelineStateView::Done { status: AuditStatus::Cached };
    let before = events.drop_last();
    lemma_first_action(url, limits, start, events);
    if events.len() == 2 {
        assert(before.drop_last() =~= Seq::<PipelineEvent>::empty());
        assert(before.last() == events[0]);
        assert(events.last() == events[1]);
        assert(run_state(url, limits, start, before.drop_last()) == start);
        assert(run_state(url, limits, start, before) == PipelineStateView::Replay);
        assert(run_actions(url, limits, start, before.drop_last()) =~= Seq::<
            PipelineActionView,
        >::empty());
        assert(attached(url, limits, start, before.drop_last()) =~= Seq::<Seq<char>>::empty());
        assert(attached(url, limits, start, before) =~= Seq::<Seq<char>>::empty());
        assert(attached(url, limits, start, events) =~= Seq::<Seq<char>>::empty());
        let actions = run_actions(url, limits, start, events);
        assert forall|k: int| 0 <= k < events.len() implies !calls_fetcher(
            #[trigger] actions[k],
        ) by {
            if k == 0 {
                assert(actions[0] == run_actions(url, limits, start, before)[0]);
            }
        }
    } else {
        assert(before[0] == events[0]);
        assert(before[1] == events[1]);
        lemma_cached_run_skips_fetcher(url, limits, entry, handles, before);
        let actions = run_actions(url, limits, start, events);
        assert forall|k: int| 0 <= k < events.len() implies !calls_fetcher(
            #[trigger] actions[k],
        ) by {
            if k < events.len() - 1 {
                assert(actions[k] == run_actions(url, limits, start, before)[k]);
            }
        }
        assert(attached(url, limits, start, events) =~= Seq::<Seq<char>>::empty());
    }
}

} // verus!
