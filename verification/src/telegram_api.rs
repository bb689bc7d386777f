//! What is handed to the chat transport: files with their captions, single or
//! as an ordered batch.

use vstd::prelude::*;
use vstd::string::*;
use crate::downloader::{DownloadedItem, DownloadedItemView, MediaType};
use crate::storage::{CachedFile, CachedFileView};
use crate::text::opt_view;

verus! {

/// What the chat shows while a delivery is prepared.
#[derive(Clone, Copy, Debug, PartialEq, Eq, Structural)]
pub enum ChatAction {
    Typing,
    UploadVideo,
    UploadPhoto,
}

/// Where a file to send comes from: a local path to upload, or the handle
/// that the provider gave to an earlier upload.
#[derive(Clone, Debug, PartialEq, Eq)]
pub enum OutgoingFile {
    Path(String),
    FileId(String),
}

/// The source of a file with its text as a sequence of characters.
pub enum OutgoingFileView {
    Path(Seq<char>),
    FileId(Seq<char>),
}

impl View for OutgoingFile {
    type V = OutgoingFileView;

    open spec fn view(&self) -> OutgoingFileView {
        match self {
            OutgoingFile::Path(path) => OutgoingFileView::Path(path@),
            OutgoingFile::FileId(id) => OutgoingFileView::FileId(id@),
        }
    }
}

/// One file as it is sent: its source, its media type, the caption shown
/// with it (HTML; empty for none) and, for a video, an optional thumbnail.
#[derive(Clone, Debug, PartialEq, Eq)]
pub struct OutgoingMedia {
    pub file: OutgoingFile,
    pub media_type: MediaType,
    pub caption: String,
    pub thumbnail: Option<String>,
}

/// A file to send with its texts as sequences of characters.
pub struct OutgoingMediaView {
    pub file: OutgoingFileView,
    pub media_type: MediaType,
    pub caption: Seq<char>,
    pub thumbnail: Option<Seq<char>>,
}

impl View for OutgoingMedia {
    type V = OutgoingMediaView;

    open spec fn view(&self) -> OutgoingMediaView {
        OutgoingMediaView {
            file: self.file@,
            media_type: self.media_type,
            caption: self.caption@,
            thumbnail: opt_view(self.thumbnail),
        }
    }
}

/// The views of the files of a batch.
pub open spec fn batch_views(batch: Seq<OutgoingMedia>) -> Seq<OutgoingMediaView> {
    Seq::new(batch.len(), |i: int| batch[i]@)
}

/// A downloaded file as it is sent with the given caption. Only a video
/// takes its thumbnail along.
pub open spec fn upload_of(item: DownloadedItemView, media_type: MediaType, caption: Seq<char>)
    -> OutgoingMediaView {
    OutgoingMediaView {
        file: OutgoingFileView::Path(item.filepath),
        media_type,
        caption,
        thumbnail: match media_type {
            MediaType::Video => item.thumbnail_filepath,
            MediaType::Photo => None,
        },
    }
}

/// The batch for the files of a playlist: those with a media type, in order;
/// the first of the batch carries the caption, the others an empty one.
pub open spec fn group_batch(items: Seq<DownloadedItemView>, caption: Seq<char>) -> Seq<
    OutgoingMediaView,
>
    decreases items.len(),
{
    if items.len() == 0 {
        Seq::empty()
    } else {
        let before = group_batch(items.drop_last(), caption);
        match items.last().media_type {
            Some(media_type) => before.push(
                upload_of(
                    items.last(),
                    media_type,
                    if before.len() == 0 {
                        caption
                    } else {
                        Seq::empty()
                    },
                ),
            ),
            None => before,
        }
    }
}

/// The batch that replays a cached delivery: every file by its handle, in
/// the stored order; the first carries the stored caption, the others an
/// empty one.
pub open spec fn replay_batch(files: Seq<CachedFileView>, caption: Seq<char>) -> Seq<
    OutgoingMediaView,
> {
    Seq::new(
        files.len(),
        |i: int|
            OutgoingMediaView {
                file: OutgoingFileView::FileId(files[i].telegram_file_id),
                media_type: files[i].media_type,
                caption: if i == 0 {
                    caption
                } else {
                    Seq::empty()
                },
                thumbnail: None,
            },
    )
}

/// The media types of a batch, in order.
pub open spec fn batch_types(batch: Seq<OutgoingMediaView>) -> Seq<MediaType> {
    Seq::new(batch.len(), |i: int| batch[i].media_type)
}

/// In a batch for a playlist only the first file carries the caption; every
/// file of the batch is a local file with a media type, and no file of the
/// playlist occurs that has none.
pub proof fn lemma_group_batch_captions(items: Seq<DownloadedItemView>, caption: Seq<char>)
    ensures
        group_batch(items, caption).len() <= items.len(),
        group_batch(items, caption).len() > 0 ==> group_batch(items, caption)[0].caption
            == caption,
        forall|i: int|
            0 < i < group_batch(items, caption).len() ==> (#[trigger] group_batch(
                items,
                caption,
            )[i]).caption == Seq::<char>::empty(),
        group_batch(items, caption).len() == 0 <==> forall|k: int|
            0 <= k < items.len() ==> (#[trigger] items[k]).media_type is None,
    decreases items.len(),
{
    if items.len() > 0 {
        lemma_group_batch_captions(items.drop_last(), caption);
        let before = group_batch(items.drop_last(), caption);
        if group_batch(items, caption).len() == 0 {
            assert forall|k: int| 0 <= k < items.len() implies (#[trigger] items[k]).media_type
                is None by {
                if k < items.len() - 1 {
                    assert(items.drop_last()[k] == items[k]);
                }
            }
        } else if items.last().media_type is None {
            let k = choose|k: int|
                0 <= k < items.drop_last().len() && !((#[trigger] items.drop_last()[k]).media_type
                    is None);
            assert(items[k] == items.drop_last()[k]);
        } else {
            assert(items[items.len() - 1].media_type is Some);
        }
    }
}

/// A file is sent as what its media type says.
pub fn upload(item: &DownloadedItem, media_type: MediaType, caption: String) -> (media:
    OutgoingMedia)
    ensures
        media@ == upload_of(item@, media_type, caption@),
{
    let thumbnail = match media_type {
        MediaType::Video => match &item.thumbnail_filepath {
            Some(path) => Some(path.clone()),
            None => None,
        },
        MediaType::Photo => None,
    };
    OutgoingMedia {
        file: OutgoingFile::Path(item.filepath.clone()),
        media_type,
        caption,
        thumbnail,
    }
}

/// Builds the batch for the files of a playlist.
pub fn build_media_group(items: &Vec<DownloadedItem>, caption: &str) -> (batch: Vec<
    OutgoingMedia,
>)
    ensures
        batch_views(batch@) == group_batch(crate::downloader::item_views(items@), caption@),
{
    let ghost all = crate::downloader::item_views(items@);
    let mut batch: Vec<OutgoingMedia> = Vec::new();
    let mut i: usize = 0;
    proof {
        assert(all.take(0) =~= Seq::<DownloadedItemView>::empty());
        assert(batch_views(batch@) =~= group_batch(all.take(0), caption@));
    }
    while i < items.len()
        invariant
            i <= items.len(),
            all == crate::downloader::item_views(items@),
            batch_views(batch@) == group_batch(all.take(i as int), caption@),
        decreases items.len() - i,
    {
        proof {
            assert(all.take(i + 1).drop_last() =~= all.take(i as int));
            assert(all.take(i + 1).last() == items@[i as int]@);
            assert(batch_views(batch@).len() == batch@.len());
        }
        match items[i].media_type {
            Some(media_type) => {
                let item_caption = if batch.len() == 0 {
                    String::from_str(caption)
                } else {
                    String::new()
                };
                let media = upload(&items[i], media_type, item_caption);
                proof {
                    assert(batch_views(batch@.push(media)) =~= batch_views(batch@).push(media@));
                }
                batch.push(media);
            },
            None => {},
        }
        i = i + 1;
    }
    assert(all.take(items.len() as int) =~= all);
    batch
}

/// Builds the batch that replays a cached delivery.
pub fn build_replay(files: &Vec<CachedFile>, caption: &str) -> (batch: Vec<OutgoingMedia>)
    ensures
        batch_views(batch@) == replay_batch(crate::storage::file_views(files@), caption@),
{
    let mut batch: Vec<OutgoingMedia> = Vec::new();
    let mut i: usize = 0;
    while i < files.len()
        invariant
            i <= files.len(),
            batch.len() == i,
            forall|k: int|
                0 <= k < i ==> (#[trigger] batch@[k])@ == replay_batch(
                    crate::storage::file_views(files@),
                    caption@,
                )[k],
        decreases files.len() - i,
    {
        let item_caption = if i == 0 {
            String::from_str(caption)
        } else {
            String::new()
        };
        batch.push(
            OutgoingMedia {
                file: OutgoingFile::FileId(files[i].telegram_file_id.clone()),
                media_type: files[i].media_type,
                caption: item_caption,
                thumbnail: None,
            },
        );
        i = i + 1;
    }
    assert(batch_views(batch@) =~= replay_batch(crate::storage::file_views(files@), caption@));
    batch
}

/// Whether a batch holds a video.
pub open spec fn has_video(media: Seq<OutgoingMedia>) -> bool {
    exists|i: int| 0 <= i < media.len() && (#[trigger] media[i]).media_type == MediaType::Video
}

/// What the chat shows while a file of the given type is uploaded.
pub fn upload_action(media_type: MediaType) -> (action: ChatAction)
    ensures
        action == (match media_type {
            MediaType::Video => ChatAction::UploadVideo,
            MediaType::Photo => ChatAction::UploadPhoto,
        }),
{
    match media_type {
        MediaType::Video => ChatAction::UploadVideo,
        MediaType::Photo => ChatAction::UploadPhoto,
    }
}

/// What the chat shows while a batch is uploaded: the upload of a video if the
/// batch holds one, else that of a photo.
pub fn get_media_group_action(media: &Vec<OutgoingMedia>) -> (action: ChatAction)
    ensures
        action == (if has_video(media@) {
            ChatAction::UploadVideo
        } else {
            ChatAction::UploadPhoto
        }),
{
    let mut i: usize = 0;
    while i < media.len()
        invariant
            i <= media.len(),
            forall|k: int| 0 <= k < i ==> (#[trigger] media@[k]).media_type != MediaType::Video,
        decreases media.len() - i,
    {
        match media[i].media_type {
            MediaType::Video => {
                return ChatAction::UploadVideo;
            },
            MediaType::Photo => {},
        }
        i = i + 1;
    }
    ChatAction::UploadPhoto
}

} // verus!
