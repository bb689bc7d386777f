//! What the durable store holds: cache entries, their rows, and the audit log.

use vstd::prelude::*;
use vstd::string::*;
use crate::downloader::MediaType;
use crate::text::str_eq;

verus! {

/// A delivered file, replayable through its provider handle.
#[derive(Clone, Debug, PartialEq, Eq)]
pub struct CachedFile {
    pub telegram_file_id: String,
    pub media_type: MediaType,
}

/// A cached file with its handle as a sequence of characters.
pub struct CachedFileView {
    pub telegram_file_id: Seq<char>,
    pub media_type: MediaType,
}

impl View for CachedFile {
    type V = CachedFileView;

    open spec fn view(&self) -> CachedFileView {
        CachedFileView { telegram_file_id: self.telegram_file_id@, media_type: self.media_type }
    }
}

/// The views of the files of a list.
pub open spec fn file_views(files: Seq<CachedFile>) -> Seq<CachedFileView> {
    Seq::new(files.len(), |i: int| files[i]@)
}

/// What the cache holds for one canonical link: the caption and the files of
/// its delivery, in the order in which they were sent.
#[derive(Clone, Debug, PartialEq, Eq)]
pub struct CachedMedia {
    pub caption: String,
    pub files: Vec<CachedFile>,
}

/// A cache entry with its caption and files as sequences.
pub struct CachedMediaView {
    pub caption: Seq<char>,
    pub files: Seq<CachedFileView>,
}

impl View for CachedMedia {
    type V = CachedMediaView;

    open spec fn view(&self) -> CachedMediaView {
        CachedMediaView { caption: self.caption@, files: file_views(self.files@) }
    }
}

impl CachedMedia {
    /// An entry is usable only with at least one file.
    pub open spec fn well_formed(&self) -> bool {
        self.files@.len() > 0
    }
}

/// The name under which a media type is stored.
pub open spec fn media_type_name(media_type: MediaType) -> Seq<char> {
    match media_type {
        MediaType::Video => "video"@,
        MediaType::Photo => "photo"@,
    }
}

/// The media type that a stored name stands for, if any.
pub open spec fn media_type_named(name: Seq<char>) -> Option<MediaType> {
    if name == "video"@ {
        Some(MediaType::Video)
    } else if name == "photo"@ {
        Some(MediaType::Photo)
    } else {
        None
    }
}

pub fn media_type_to_str(media_type: MediaType) -> (name: &'static str)
    ensures
        name@ == media_type_name(media_type),
{
    match media_type {
        MediaType::Video => "video",
        MediaType::Photo => "photo",
    }
}

pub fn str_to_media_type(s: &str) -> (media_type: Option<MediaType>)
    ensures
        media_type == media_type_named(s@),
{
    if str_eq(s, "video") {
        Some(MediaType::Video)
    } else if str_eq(s, "photo") {
        Some(MediaType::Photo)
    } else {
        None
    }
}

/// Reading a stored name back gives the media type that was written.
pub proof fn lemma_media_type_name_round_trip(media_type: MediaType)
    ensures
        media_type_named(media_type_name(media_type)) == Some(media_type),
{
    reveal_strlit("video");
    reveal_strlit("photo");
    assert("video"@.len() == 5);
    assert("photo"@[0] == 'p');
    assert("video"@[0] == 'v');
}

/// A file of a cache entry as the store holds it.
#[derive(Clone, Debug, PartialEq, Eq)]
pub struct CachedFileRow {
    pub telegram_file_id: String,
    pub media_type: String,
    pub position: usize,
}

/// The files that the rows resolve to: each row whose media type has a known
/// name, in the order of the rows.
pub open spec fn resolved_files(rows: Seq<CachedFileRow>) -> Seq<CachedFileView>
    decreases rows.len(),
{
    if rows.len() == 0 {
        Seq::empty()
    } else {
        let before = resolved_files(rows.drop_last());
        match media_type_named(rows.last().media_type@) {
            Some(media_type) => before.push(
                CachedFileView { telegram_file_id: rows.last().telegram_file_id@, media_type },
            ),
            None => before,
        }
    }
}

/// The cache entry that a caption and the rows of its files amount to. Rows
/// that resolve to no file at all are no entry.
pub fn cached_media_from_rows(caption: String, file_rows: &Vec<CachedFileRow>) -> (entry: Option<
    CachedMedia,
>)
    ensures
        match entry {
            Some(entry) => entry.well_formed() && entry@ == (CachedMediaView {
                caption: caption@,
                files: resolved_files(file_rows@),
            }),
            None => resolved_files(file_rows@).len() == 0,
        },
{
    let mut files: Vec<CachedFile> = Vec::new();
    let mut i: usize = 0;
    proof {
        assert(file_rows@.take(0) =~= Seq::<CachedFileRow>::empty());
        assert(file_views(files@) =~= resolved_files(file_rows@.take(0)));
    }
    while i < file_rows.len()
        invariant
            i <= file_rows.len(),
            file_views(files@) == resolved_files(file_rows@.take(i as int)),
        decreases file_rows.len() - i,
    {
        proof {
            assert(file_rows@.take(i + 1).drop_last() =~= file_rows@.take(i as int));
            assert(file_rows@.take(i + 1).last() == file_rows@[i as int]);
        }
        match str_to_media_type(file_rows[i].media_type.as_str()) {
            Some(media_type) => {
                let file = CachedFile {
                    telegram_file_id: file_rows[i].telegram_file_id.clone(),
                    media_type,
                };
                proof {
                    assert(file_views(files@.push(file)) =~= file_views(files@).push(file@));
                }
                files.push(file);
            },
            None => {},
        }
        i = i + 1;
    }
    assert(file_rows@.take(file_rows.len() as int) =~= file_rows@);
    if files.len() == 0 {
        None
    } else {
        Some(CachedMedia { caption, files })
    }
}

/// The rows under which the files of an entry are stored: one per file, with
/// the name of its media type and its position in the delivery.
pub open spec fn stored_rows(files: Seq<CachedFileView>) -> Seq<(Seq<char>, Seq<char>, int)> {
    Seq::new(
        files.len(),
        |i: int| (files[i].telegram_file_id, media_type_name(files[i].media_type), i),
    )
}

/// The view of a list of rows.
pub open spec fn row_views(rows: Seq<CachedFileRow>) -> Seq<(Seq<char>, Seq<char>, int)> {
    Seq::new(
        rows.len(),
        |i: int| (rows[i].telegram_file_id@, rows[i].media_type@, rows[i].position as int),
    )
}

/// The rows to store for the files of a delivery.
pub fn cache_file_rows(files: &Vec<CachedFile>) -> (rows: Vec<CachedFileRow>)
    ensures
        row_views(rows@) == stored_rows(file_views(files@)),
{
    let mut rows: Vec<CachedFileRow> = Vec::new();
    let mut i: usize = 0;
    while i < files.len()
        invariant
            i <= files.len(),
            rows.len() == i,
            forall|k: int|
                0 <= k < i ==> (#[trigger] rows@[k]).telegram_file_id@
                    == files@[k].telegram_file_id@ && rows@[k].media_type@ == media_type_name(
                    files@[k].media_type,
                ) && rows@[k].position == k,
        decreases files.len() - i,
    {
        rows.push(
            CachedFileRow {
                telegram_file_id: files[i].telegram_file_id.clone(),
                media_type: String::from_str(media_type_to_str(files[i].media_type)),
                position: i,
            },
        );
        i = i + 1;
    }
    assert(row_views(rows@) =~= stored_rows(file_views(files@)));
    rows
}

/// Rows written for an entry resolve to the files of that entry: what is
/// stored is what a later lookup replays.
pub proof fn lemma_stored_rows_resolve(files: Seq<CachedFile>, rows: Seq<CachedFileRow>)
    requires
        row_views(rows) == stored_rows(file_views(files)),
    ensures
        resolved_files(rows) == file_views(files),
    decreases rows.len(),
{
    assert(rows.len() == row_views(rows).len());
    assert(files.len() == stored_rows(file_views(files)).len());
    if rows.len() > 0 {
        let n = rows.len() - 1;
        assert(row_views(rows.drop_last()) =~= stored_rows(file_views(files.drop_last()))) by {
            assert forall|i: int| 0 <= i < n implies row_views(rows.drop_last())[i]
                == stored_rows(file_views(files.drop_last()))[i] by {
                assert(row_views(rows)[i] == stored_rows(file_views(files))[i]);
            }
        }
        lemma_stored_rows_resolve(files.drop_last(), rows.drop_last());
        assert(row_views(rows)[n] == stored_rows(file_views(files))[n]);
        lemma_media_type_name_round_trip(files[n].media_type);
        assert(file_views(files.drop_last()).push(files[n]@) =~= file_views(files));
    } else {
        assert(file_views(files) =~= Seq::<CachedFileView>::empty());
    }
}

/// How a request ended, as the audit log records it.
#[derive(Clone, Copy, Debug, PartialEq, Eq, Structural)]
pub enum AuditStatus {
    Cached,
    Success,
    Error,
    ValidationError,
}

/// The name of a status in the audit log.
pub open spec fn audit_status_name(status: AuditStatus) -> Seq<char> {
    match status {
        AuditStatus::Cached => "cached"@,
        AuditStatus::Success => "success"@,
        AuditStatus::Error => "error"@,
        AuditStatus::ValidationError => "validation_error"@,
    }
}

impl AuditStatus {
    pub fn as_str(&self) -> (name: &'static str)
        ensures
            name@ == audit_status_name(*self),
    {
        match self {
            AuditStatus::Cached => "cached",
            AuditStatus::Success => "success",
            AuditStatus::Error => "error",
            AuditStatus::ValidationError => "validation_error",
        }
    }
}

/// One line of the audit log.
#[derive(Clone, Debug, PartialEq, Eq)]
pub struct AuditRecord {
    pub chat_id: i64,
    pub source_url: String,
    pub status: String,
    pub processing_time_ms: i32,
}

/// A duration as the log's column holds it: kept within the range of `i32`.
pub open spec fn clamped_ms(elapsed_ms: i64) -> i32 {
    if elapsed_ms > i32::MAX {
        i32::MAX
    } else if elapsed_ms < i32::MIN {
        i32::MIN
    } else {
        elapsed_ms as i32
    }
}

/// The record of a request that ended with `status` after `elapsed_ms`.
pub fn audit_record(chat_id: i64, source_url: &str, status: AuditStatus, elapsed_ms: i64) -> (record:
    AuditRecord)
    ensures
        record.chat_id == chat_id,
        record.source_url@ == source_url@,
        record.status@ == audit_status_name(status),
        record.processing_time_ms == clamped_ms(elapsed_ms),
{
    let processing_time_ms: i32 = if elapsed_ms > 2_147_483_647 {
        2_147_483_647
    } else if elapsed_ms < -2_147_483_648 {
        -2_147_483_648
    } else {
        elapsed_ms as i32
    };
    AuditRecord {
        chat_id,
        source_url: String::from_str(source_url),
        status: String::from_str(status.as_str()),
        processing_time_ms,
    }
}

} // verus!
