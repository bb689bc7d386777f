//! Media descriptors, the classification of files by extension, the caption
//! shown with a delivery, and what the external fetching tool is asked and
//! answers.

use vstd::prelude::*;
use vstd::string::*;
use crate::text::{
    escape_html, html_escaped, opt_view, push_escaped, push_range, str_eq, to_chars, trim_bounds,
    trimmed, views,
};
use crate::source_url::SourceUrl;

verus! {

/// How a file is transmitted and cached.
#[derive(Clone, Copy, Debug, PartialEq, Eq, Structural)]
pub enum MediaType {
    Video,
    Photo,
}

/// Why the fetching tool could not deliver.
#[derive(Clone, Debug, PartialEq, Eq)]
pub enum DownloadError {
    CommandFailed(String),
    ParsingFailed(String),
    IoError(String),
    ThumbnailError(String),
    Timeout,
}

/// A download error with its detail as a sequence of characters.
pub enum DownloadErrorView {
    CommandFailed(Seq<char>),
    ParsingFailed(Seq<char>),
    IoError(Seq<char>),
    ThumbnailError(Seq<char>),
    Timeout,
}

impl View for DownloadError {
    type V = DownloadErrorView;

    open spec fn view(&self) -> DownloadErrorView {
        match self {
            DownloadError::CommandFailed(detail) => DownloadErrorView::CommandFailed(detail@),
            DownloadError::ParsingFailed(detail) => DownloadErrorView::ParsingFailed(detail@),
            DownloadError::IoError(detail) => DownloadErrorView::IoError(detail@),
            DownloadError::ThumbnailError(detail) => DownloadErrorView::ThumbnailError(detail@),
            DownloadError::Timeout => DownloadErrorView::Timeout,
        }
    }
}

/// The text that describes an error of the fetching tool.
pub open spec fn download_error_text(error: DownloadErrorView) -> Seq<char> {
    match error {
        DownloadErrorView::CommandFailed(detail) => "yt-dlp command failed: "@ + detail,
        DownloadErrorView::ParsingFailed(detail) => "Failed to parse yt-dlp output: "@ + detail,
        DownloadErrorView::IoError(detail) => "Could not create temporary directory: "@ + detail,
        DownloadErrorView::ThumbnailError(detail) => "Could not find downloaded thumbnail: "@
            + detail,
        DownloadErrorView::Timeout => "yt-dlp timed out"@,
    }
}

impl DownloadError {
    pub fn message(&self) -> (text: String)
        ensures
            text@ == download_error_text(self@),
    {
        match self {
            DownloadError::CommandFailed(detail) => String::from_str(
                "yt-dlp command failed: ",
            ).concat(detail.as_str()),
            DownloadError::ParsingFailed(detail) => String::from_str(
                "Failed to parse yt-dlp output: ",
            ).concat(detail.as_str()),
            DownloadError::IoError(detail) => String::from_str(
                "Could not create temporary directory: ",
            ).concat(detail.as_str()),
            DownloadError::ThumbnailError(detail) => String::from_str(
                "Could not find downloaded thumbnail: ",
            ).concat(detail.as_str()),
            DownloadError::Timeout => String::from_str("yt-dlp timed out"),
        }
    }
}

/// What the fetching tool reports of a link before anything is downloaded, and
/// of each file once it is.
///
/// `duration` is in milliseconds and `filesize` in bytes. `entries` is present
/// for a playlist and holds one descriptor for each of its items.
#[derive(Debug, PartialEq, Eq)]
pub struct MediaMetadata {
    pub id: String,
    pub filepath: Option<String>,
    pub ext: Option<String>,
    pub thumbnail_filepath: Option<String>,
    pub title: Option<String>,
    pub description: Option<String>,
    pub media_type: Option<String>,
    pub uploader: Option<String>,
    pub playlist_uploader: Option<String>,
    pub thumbnail: Option<String>,
    pub duration: Option<u64>,
    pub filesize: Option<u64>,
    pub entries: Option<Vec<MediaMetadata>>,
    pub resolution: Option<String>,
    pub width: Option<u32>,
    pub height: Option<u32>,
    pub final_caption: String,
}

/// The media type that a file extension stands for: five extensions are
/// videos, five are photos, every other one is not transmitted.
pub open spec fn media_type_for_ext(ext: Option<Seq<char>>) -> Option<MediaType> {
    match ext {
        Some(ext) => if ext == "mp4"@ || ext == "webm"@ || ext == "gif"@ || ext == "mov"@ || ext
            == "mkv"@ {
            Some(MediaType::Video)
        } else if ext == "jpg"@ || ext == "jpeg"@ || ext == "png"@ || ext == "webp"@ || ext
            == "heic"@ {
            Some(MediaType::Photo)
        } else {
            None
        },
        None => None,
    }
}

/// The media type of a file with the given extension.
pub fn classify_extension(ext: &Option<String>) -> (media_type: Option<MediaType>)
    ensures
        media_type == media_type_for_ext(opt_view(*ext)),
{
    match ext {
        Some(ext) => {
            let ext = ext.as_str();
            if str_eq(ext, "mp4") || str_eq(ext, "webm") || str_eq(ext, "gif") || str_eq(
                ext,
                "mov",
            ) || str_eq(ext, "mkv") {
                Some(MediaType::Video)
            } else if str_eq(ext, "jpg") || str_eq(ext, "jpeg") || str_eq(ext, "png") || str_eq(
                ext,
                "webp",
            ) || str_eq(ext, "heic") {
                Some(MediaType::Photo)
            } else {
                None
            }
        },
        None => None,
    }
}

/// The most characters a caption may hold.
pub const CAPTION_LIMIT: usize = 1024;

/// Characters set aside for the scaffolding around the quote: the blank line,
/// the two tags and the ellipsis marker.
pub const CAPTION_SCAFFOLD: usize = 32;

/// The two links that open every caption; the second one leads to `url`.
pub open spec fn caption_header(url: Seq<char>) -> Seq<char> {
    "<a href=\"https://t.me/crabberbot?start=c\">CrabberBot</a> \u{1F980} <a href=\""@ + url
        + "\">Source</a>"@
}

/// The first of two optional texts that is present.
pub open spec fn first_present(first: Option<Seq<char>>, second: Option<Seq<char>>) -> Option<
    Seq<char>,
> {
    if first is Some {
        first
    } else {
        second
    }
}

/// The quote's line for the uploader: escaped and in italics. There is none
/// where no uploader is known or its name is empty.
pub open spec fn uploader_line(uploader: Option<Seq<char>>, playlist_uploader: Option<Seq<char>>)
    -> Option<Seq<char>> {
    match first_present(uploader, playlist_uploader) {
        Some(name) => if name.len() > 0 {
            Some("<i>"@ + html_escaped(name) + "</i>"@)
        } else {
            None
        },
        None => None,
    }
}

/// The quote's line for the description, or for the title where there is no
/// description: trimmed and escaped. There is none where the text is blank.
pub open spec fn description_line(description: Option<Seq<char>>, title: Option<Seq<char>>)
    -> Option<Seq<char>> {
    match first_present(description, title) {
        Some(text) => if trimmed(text).len() > 0 {
            Some(html_escaped(trimmed(text)))
        } else {
            None
        },
        None => None,
    }
}

/// The lines of the quote, joined by a line break.
pub open spec fn joined_lines(first: Option<Seq<char>>, second: Option<Seq<char>>) -> Seq<char> {
    match (first, second) {
        (Some(first), Some(second)) => first + "\n"@ + second,
        (Some(first), None) => first,
        (None, Some(second)) => second,
        (None, None) => Seq::empty(),
    }
}

/// How many characters the quote may take after a header of the given length.
pub open spec fn quote_budget(header_len: nat) -> nat {
    if header_len + CAPTION_SCAFFOLD <= CAPTION_LIMIT {
        (CAPTION_LIMIT - CAPTION_SCAFFOLD - header_len) as nat
    } else {
        0
    }
}

/// The quote as it is shown: whole where it fits the budget, else cut to the
/// budget and followed by the ellipsis marker.
pub open spec fn fitted_quote(quote: Seq<char>, budget: nat) -> Seq<char> {
    if quote.len() > budget {
        quote.take(budget as int) + "[...]"@
    } else {
        quote
    }
}

impl MediaMetadata {
    /// The uncut text of the quote block.
    pub open spec fn quote_text(&self) -> Seq<char> {
        joined_lines(
            uploader_line(opt_view(self.uploader), opt_view(self.playlist_uploader)),
            description_line(opt_view(self.description), opt_view(self.title)),
        )
    }

    /// The caption for a delivery of this media from `url`: the header, a
    /// blank line, and the quote block.
    pub open spec fn caption_text(&self, url: Seq<char>) -> Seq<char> {
        let header = caption_header(url);
        header + "\n\n<blockquote>"@ + fitted_quote(self.quote_text(), quote_budget(header.len()))
            + "</blockquote>"@
    }

    /// The media type under which this file is transmitted, judged by its
    /// extension.
    pub fn telegram_media_type(&self) -> (media_type: Option<MediaType>)
        ensures
            media_type == media_type_for_ext(opt_view(self.ext)),
    {
        classify_extension(&self.ext)
    }

    fn uploader_part(&self) -> (line: Option<String>)
        ensures
            opt_view(line) == uploader_line(
                opt_view(self.uploader),
                opt_view(self.playlist_uploader),
            ),
    {
        let chosen = match &self.uploader {
            Some(name) => Some(name),
            None => match &self.playlist_uploader {
                Some(name) => Some(name),
                None => None,
            },
        };
        match chosen {
            Some(name) => {
                if name.as_str().is_empty() {
                    None
                } else {
                    let mut line = String::from_str("<i>");
                    line.append(escape_html(name.as_str()).as_str());
                    line.append("</i>");
                    Some(line)
                }
            },
            None => None,
        }
    }

    fn description_part(&self) -> (line: Option<String>)
        ensures
            opt_view(line) == description_line(opt_view(self.description), opt_view(self.title)),
    {
        let chosen = match &self.description {
            Some(text) => Some(text),
            None => match &self.title {
                Some(text) => Some(text),
                None => None,
            },
        };
        match chosen {
            Some(text) => {
                let chars = to_chars(text.as_str());
                let bounds = trim_bounds(&chars);
                if bounds.0 == bounds.1 {
                    None
                } else {
                    let mut line = String::new();
                    push_escaped(&mut line, &chars, bounds.0, bounds.1);
                    assert(line@ =~= html_escaped(trimmed(text@)));
                    Some(line)
                }
            },
            None => None,
        }
    }

    /// The caption for a delivery of this media from `source_url`.
    pub fn caption(&self, source_url: &SourceUrl) -> (caption: String)
        ensures
            caption@ == self.caption_text(source_url.text()),
    {
        let mut header = String::from_str(
            "<a href=\"https://t.me/crabberbot?start=c\">CrabberBot</a> \u{1F980} <a href=\"",
        );
        header.append(source_url.to_text().as_str());
        header.append("\">Source</a>");
        let header_len = header.as_str().unicode_len();
        let budget: usize = if header_len <= CAPTION_LIMIT - CAPTION_SCAFFOLD {
            CAPTION_LIMIT - CAPTION_SCAFFOLD - header_len
        } else {
            0
        };
        let quote = match (self.uploader_part(), self.description_part()) {
            (Some(first), Some(second)) => {
                let mut quote = first;
                quote.append("\n");
                quote.append(second.as_str());
                quote
            },
            (Some(first), None) => first,
            (None, Some(second)) => second,
            (None, None) => String::new(),
        };
        assert(quote@ == self.quote_text());
        let quote_chars = to_chars(quote.as_str());
        let mut caption = header;
        caption.append("\n\n<blockquote>");
        if quote_chars.len() > budget {
            push_range(&mut caption, &quote_chars, 0, budget);
            caption.append("[...]");
            assert(quote_chars@.subrange(0, budget as int) == quote@.take(budget as int));
        } else {
            caption.append(quote.as_str());
        }
        caption.append("</blockquote>");
        proof {
            assert(caption@ =~= self.caption_text(source_url.text()));
        }
        caption
    }

    /// Builds the caption and keeps it in `final_caption`; nothing else changes.
    pub fn build_caption(&mut self, source_url: &SourceUrl)
        ensures
            final(self).final_caption@ == old(self).caption_text(source_url.text()),
            *final(self) == (MediaMetadata { final_caption: final(self).final_caption, ..*old(self) }),
    {
        let caption = self.caption(source_url);
        self.final_caption = caption;
    }
}

/// The longest link whose header leaves room for the scaffolding.
pub const LONGEST_FITTING_LINK: usize = 912;

/// The caption for a link of at most 912 characters stays within the limit,
/// whatever the descriptor holds.
pub proof fn lemma_caption_within_limit(metadata: MediaMetadata, url: Seq<char>)
    requires
        url.len() <= LONGEST_FITTING_LINK,
    ensures
        metadata.caption_text(url).len() <= CAPTION_LIMIT,
{
    lemma_caption_length(metadata, url);
}

/// The header is the link and 80 characters more, and every caption starts
/// with its whole header. A caption exceeds the limit only where its header
/// leaves no room for the scaffolding, and then it exceeds the header by no
/// more than the scaffolding.
pub proof fn lemma_caption_length(metadata: MediaMetadata, url: Seq<char>)
    ensures
        caption_header(url).len() == url.len() + 80,
        caption_header(url).is_prefix_of(metadata.caption_text(url)),
        metadata.caption_text(url).len() >= caption_header(url).len() + 27,
        metadata.caption_text(url).len() <= (if caption_header(url).len() + CAPTION_SCAFFOLD
            <= CAPTION_LIMIT {
            CAPTION_LIMIT as int
        } else {
            caption_header(url).len() + CAPTION_SCAFFOLD
        }),
{
    reveal_strlit(
        "<a href=\"https://t.me/crabberbot?start=c\">CrabberBot</a> \u{1F980} <a href=\"",
    );
    reveal_strlit("\">Source</a>");
    reveal_strlit("\n\n<blockquote>");
    reveal_strlit("</blockquote>");
    reveal_strlit("[...]");
    let header = caption_header(url);
    assert(metadata.caption_text(url).subrange(0, header.len() as int) =~= header);
}

/// A file that the fetching tool left on disk. `media_type` is `None` for a
/// file that cannot be transmitted; the file is kept in the result so that it
/// is still removed.
#[derive(Clone, Debug, PartialEq, Eq)]
pub struct DownloadedItem {
    pub filepath: String,
    pub media_type: Option<MediaType>,
    pub thumbnail_filepath: Option<String>,
}

/// A downloaded file with its paths as sequences of characters.
pub struct DownloadedItemView {
    pub filepath: Seq<char>,
    pub media_type: Option<MediaType>,
    pub thumbnail_filepath: Option<Seq<char>>,
}

impl View for DownloadedItem {
    type V = DownloadedItemView;

    open spec fn view(&self) -> DownloadedItemView {
        DownloadedItemView {
            filepath: self.filepath@,
            media_type: self.media_type,
            thumbnail_filepath: opt_view(self.thumbnail_filepath),
        }
    }
}

/// The views of the items of a list.
pub open spec fn item_views(items: Seq<DownloadedItem>) -> Seq<DownloadedItemView> {
    Seq::new(items.len(), |i: int| items[i]@)
}

/// What a download produced: one file, or the files of a playlist in order.
#[derive(Clone, Debug, PartialEq, Eq)]
pub enum DownloadedMedia {
    Single(DownloadedItem),
    Group(Vec<DownloadedItem>),
}

/// A download with its files seen as `DownloadedItemView`.
pub enum DownloadedMediaView {
    Single(DownloadedItemView),
    Group(Seq<DownloadedItemView>),
}

impl View for DownloadedMedia {
    type V = DownloadedMediaView;

    open spec fn view(&self) -> DownloadedMediaView {
        match self {
            DownloadedMedia::Single(item) => DownloadedMediaView::Single(item@),
            DownloadedMedia::Group(items) => DownloadedMediaView::Group(item_views(items@)),
        }
    }
}

/// The local paths of one item: its file, then its thumbnail if it has one.
pub open spec fn item_paths(item: DownloadedItemView) -> Seq<Seq<char>> {
    match item.thumbnail_filepath {
        Some(thumbnail) => seq![item.filepath, thumbnail],
        None => seq![item.filepath],
    }
}

/// The local paths of the items of a list, in order.
pub open spec fn group_paths(items: Seq<DownloadedItemView>) -> Seq<Seq<char>>
    decreases items.len(),
{
    if items.len() == 0 {
        Seq::empty()
    } else {
        group_paths(items.drop_last()) + item_paths(items.last())
    }
}

/// Every local path that a download left behind.
pub open spec fn local_paths(media: DownloadedMediaView) -> Seq<Seq<char>> {
    match media {
        DownloadedMediaView::Single(item) => item_paths(item),
        DownloadedMediaView::Group(items) => group_paths(items),
    }
}

fn push_item_paths(paths: &mut Vec<String>, item: &DownloadedItem)
    ensures
        views(final(paths)@) == views(old(paths)@) + item_paths(item@),
{
    paths.push(item.filepath.clone());
    match &item.thumbnail_filepath {
        Some(thumbnail) => {
            paths.push(thumbnail.clone());
        },
        None => {},
    }
    assert(views(paths@) =~= views(old(paths)@) + item_paths(item@));
}

impl DownloadedMedia {
    /// Every local path of the download, in order: the ones to remove once
    /// the request is over.
    pub fn local_paths(&self) -> (paths: Vec<String>)
        ensures
            views(paths@) == local_paths(self@),
    {
        let mut paths: Vec<String> = Vec::new();
        match self {
            DownloadedMedia::Single(item) => {
                push_item_paths(&mut paths, item);
                assert(views(paths@) =~= item_paths(item@));
            },
            DownloadedMedia::Group(items) => {
                let mut i: usize = 0;
                assert(item_views(items@).take(0) =~= Seq::<DownloadedItemView>::empty());
                assert(views(paths@) =~= group_paths(item_views(items@).take(0)));
                while i < items.len()
                    invariant
                        i <= items.len(),
                        views(paths@) == group_paths(item_views(items@).take(i as int)),
                    decreases items.len() - i,
                {
                    push_item_paths(&mut paths, &items[i]);
                    proof {
                        let next = item_views(items@).take(i + 1);
                        assert(next.drop_last() =~= item_views(items@).take(i as int));
                        assert(next.last() == items@[i as int]@);
                    }
                    i = i + 1;
                }
                assert(item_views(items@).take(items.len() as int) =~= item_views(items@));
            },
        }
        paths
    }
}

/// The path under which the tool reported the file with the given id: that
/// of the last report with this id that names a path.
pub open spec fn downloaded_path(reports: Seq<MediaMetadata>, id: Seq<char>) -> Option<Seq<char>>
    decreases reports.len(),
{
    if reports.len() == 0 {
        None
    } else {
        match reports.last().filepath {
            Some(path) => if reports.last().id@ == id {
                Some(path@)
            } else {
                downloaded_path(reports.drop_last(), id)
            },
            None => downloaded_path(reports.drop_last(), id),
        }
    }
}

/// Whether any report names a path.
pub open spec fn any_downloaded(reports: Seq<MediaMetadata>) -> bool {
    exists|i: int| 0 <= i < reports.len() && (#[trigger] reports[i]).filepath is Some
}

/// The items of a playlist that were downloaded: for each entry with a
/// reported path, in the order of the entries, the path and the media type
/// that the entry's extension stands for.
pub open spec fn group_items(entries: Seq<MediaMetadata>, reports: Seq<MediaMetadata>) -> Seq<
    DownloadedItemView,
>
    decreases entries.len(),
{
    if entries.len() == 0 {
        Seq::empty()
    } else {
        let before = group_items(entries.drop_last(), reports);
        match downloaded_path(reports, entries.last().id@) {
            Some(path) => before.push(
                DownloadedItemView {
                    filepath: path,
                    media_type: media_type_for_ext(opt_view(entries.last().ext)),
                    thumbnail_filepath: None,
                },
            ),
            None => before,
        }
    }
}

/// The text of the error for an output that names no usable file.
pub open spec fn nothing_extracted() -> DownloadErrorView {
    DownloadErrorView::ParsingFailed(
        "Could not extract any media metadata from yt-dlp output."@,
    )
}

/// What a download of `metadata` amounts to, given the reports that the tool
/// printed and the outcome of fetching a thumbnail.
///
/// Without any reported path the output is unusable. A playlist gives a
/// group. A single item needs a report under its own id; the thumbnail's
/// outcome then decides: its error is the download's error, its path goes
/// with the item.
pub open spec fn assembled(
    metadata: MediaMetadata,
    reports: Seq<MediaMetadata>,
    thumbnail: Result<Option<Seq<char>>, DownloadErrorView>,
) -> Result<DownloadedMediaView, DownloadErrorView> {
    if !any_downloaded(reports) {
        Err(nothing_extracted())
    } else {
        match metadata.entries {
            Some(entries) => Ok(DownloadedMediaView::Group(group_items(entries@, reports))),
            None => match downloaded_path(reports, metadata.id@) {
                Some(path) => match thumbnail {
                    Ok(thumbnail_filepath) => Ok(
                        DownloadedMediaView::Single(
                            DownloadedItemView {
                                filepath: path,
                                media_type: media_type_for_ext(opt_view(metadata.ext)),
                                thumbnail_filepath,
                            },
                        ),
                    ),
                    Err(error) => Err(error),
                },
                None => Err(nothing_extracted()),
            },
        }
    }
}

/// The view of a thumbnail's outcome.
pub open spec fn thumbnail_view(thumbnail: Result<Option<String>, DownloadError>) -> Result<
    Option<Seq<char>>,
    DownloadErrorView,
> {
    match thumbnail {
        Ok(path) => Ok(opt_view(path)),
        Err(error) => Err(error@),
    }
}

/// The view of a download's outcome.
pub open spec fn download_view(outcome: Result<DownloadedMedia, DownloadError>) -> Result<
    DownloadedMediaView,
    DownloadErrorView,
> {
    match outcome {
        Ok(media) => Ok(media@),
        Err(error) => Err(error@),
    }
}

fn find_downloaded_path(reports: &Vec<MediaMetadata>, id: &str) -> (path: Option<String>)
    ensures
        opt_view(path) == downloaded_path(reports@, id@),
{
    let mut path: Option<String> = None;
    let mut i: usize = 0;
    assert(reports@.take(0) =~= Seq::<MediaMetadata>::empty());
    while i < reports.len()
        invariant
            i <= reports.len(),
            opt_view(path) == downloaded_path(reports@.take(i as int), id@),
        decreases reports.len() - i,
    {
        proof {
            assert(reports@.take(i + 1).drop_last() =~= reports@.take(i as int));
            assert(reports@.take(i + 1).last() == reports@[i as int]);
        }
        match &reports[i].filepath {
            Some(reported) => {
                if str_eq(reports[i].id.as_str(), id) {
                    path = Some(reported.clone());
                }
            },
            None => {},
        }
        i = i + 1;
    }
    assert(reports@.take(reports.len() as int) =~= reports@);
    path
}

fn has_downloaded(reports: &Vec<MediaMetadata>) -> (any: bool)
    ensures
        any == any_downloaded(reports@),
{
    let mut i: usize = 0;
    while i < reports.len()
        invariant
            i <= reports.len(),
            forall|k: int| 0 <= k < i ==> (#[trigger] reports@[k]).filepath is None,
        decreases reports.len() - i,
    {
        if reports[i].filepath.is_some() {
            return true;
        }
        i = i + 1;
    }
    false
}

fn nothing_extracted_error() -> (error: DownloadError)
    ensures
        error@ == nothing_extracted(),
{
    DownloadError::ParsingFailed(
        String::from_str("Could not extract any media metadata from yt-dlp output."),
    )
}

/// Puts a download together from the descriptor, the reports that the tool
/// printed (one per output line that could be read) and the outcome of
/// fetching a thumbnail.
pub fn assemble_download(
    metadata: &MediaMetadata,
    reports: &Vec<MediaMetadata>,
    thumbnail: Result<Option<String>, DownloadError>,
) -> (outcome: Result<DownloadedMedia, DownloadError>)
    ensures
        download_view(outcome) == assembled(*metadata, reports@, thumbnail_view(thumbnail)),
{
    if !has_downloaded(reports) {
        return Err(nothing_extracted_error());
    }
    match &metadata.entries {
        Some(entries) => {
            let mut items: Vec<DownloadedItem> = Vec::new();
            let mut i: usize = 0;
            proof {
                assert(entries@.take(0) =~= Seq::<MediaMetadata>::empty());
                assert(item_views(items@) =~= group_items(entries@.take(0), reports@));
            }
            while i < entries.len()
                invariant
                    i <= entries.len(),
                    item_views(items@) == group_items(entries@.take(i as int), reports@),
                decreases entries.len() - i,
            {
                proof {
                    assert(entries@.take(i + 1).drop_last() =~= entries@.take(i as int));
                    assert(entries@.take(i + 1).last() == entries@[i as int]);
                }
                match find_downloaded_path(reports, entries[i].id.as_str()) {
                    Some(filepath) => {
                        let item = DownloadedItem {
                            filepath,
                            media_type: classify_extension(&entries[i].ext),
                            thumbnail_filepath: None,
                        };
                        proof {
                            assert(item_views(items@.push(item)) =~= item_views(items@).push(
                                item@,
                            ));
                        }
                        items.push(item);
                    },
                    None => {},
                }
                i = i + 1;
            }
            assert(entries@.take(entries.len() as int) =~= entries@);
            Ok(DownloadedMedia::Group(items))
        },
        None => match find_downloaded_path(reports, metadata.id.as_str()) {
            Some(filepath) => match thumbnail {
                Ok(thumbnail_filepath) => Ok(
                    DownloadedMedia::Single(
                        DownloadedItem {
                            filepath,
                            media_type: classify_extension(&metadata.ext),
                            thumbnail_filepath,
                        },
                    ),
                ),
                Err(error) => Err(error),
            },
            None => Err(nothing_extracted_error()),
        },
    }
}

/// Whether a thumbnail is to be fetched for a download: only for a single
/// item that was downloaded and whose descriptor names a thumbnail.
pub open spec fn thumbnail_wanted(metadata: MediaMetadata, reports: Seq<MediaMetadata>) -> bool {
    metadata.entries is None && metadata.thumbnail is Some && downloaded_path(
        reports,
        metadata.id@,
    ) is Some
}

pub fn wants_thumbnail(metadata: &MediaMetadata, reports: &Vec<MediaMetadata>) -> (wanted: bool)
    ensures
        wanted == thumbnail_wanted(*metadata, reports@),
{
    metadata.entries.is_none() && metadata.thumbnail.is_some() && find_downloaded_path(
        reports,
        metadata.id.as_str(),
    ).is_some()
}

/// A program and the arguments it is started with.
#[derive(Clone, Debug, PartialEq, Eq)]
pub struct CommandLine {
    pub program: String,
    pub args: Vec<String>,
}

/// The two arguments that every call of the tool starts with.
pub open spec fn base_args() -> Seq<Seq<char>> {
    seq!["--no-warnings"@, "--ignore-config"@]
}

/// The arguments that ask for the descriptor of a link.
pub open spec fn metadata_args(url: Seq<char>) -> Seq<Seq<char>> {
    base_args() + seq!["--dump-single-json"@, url]
}

/// The name pattern for downloaded files, made unique by a token.
pub open spec fn filename_template(token: Seq<char>) -> Seq<char> {
    "./"@ + token + ".%(id)s.%(ext)s"@
}

/// The arguments that download a link: one report per file is printed, the
/// formats are ranked so that the result plays everywhere, and the files are
/// named after the template of `token`.
pub open spec fn download_args(token: Seq<char>, url: Seq<char>) -> Seq<Seq<char>> {
    base_args() + seq![
        "--print-json"@,
        "-S vcodec:h264,res,acodec:m4a"@,
        "-o"@,
        filename_template(token),
        url,
    ]
}

/// The arguments that fetch only the thumbnail of a link.
pub open spec fn thumbnail_args(url: Seq<char>) -> Seq<Seq<char>> {
    base_args() + seq![
        "--write-thumbnail"@,
        "--skip-download"@,
        "-o"@,
        "./thumbnail.%(id)s.%(ext)s"@,
        url,
    ]
}

/// The glob pattern that finds the thumbnail of the item with the given id.
pub open spec fn thumbnail_pattern(id: Seq<char>) -> Seq<char> {
    "thumbnail."@ + id + ".*"@
}

/// How a run of the tool ended. The output is given as text.
#[derive(Clone, Debug, PartialEq, Eq)]
pub enum CommandOutcome {
    /// The program could not be started; the reason is given.
    SpawnFailed(String),
    /// The run was given up after its time limit.
    TimedOut,
    /// The program ran and ended.
    Exited { success: bool, stdout: String, stderr: String },
}

/// What a run of the tool yields: its standard output where it ended well,
/// the reason where it could not start, its error output where it failed.
pub open spec fn command_result(outcome: CommandOutcome) -> Result<Seq<char>, DownloadErrorView> {
    match outcome {
        CommandOutcome::SpawnFailed(reason) => Err(DownloadErrorView::CommandFailed(reason@)),
        CommandOutcome::TimedOut => Err(DownloadErrorView::Timeout),
        CommandOutcome::Exited { success, stdout, stderr } => if success {
            Ok(stdout@)
        } else {
            Err(DownloadErrorView::CommandFailed(stderr@))
        },
    }
}

/// What is done once the command for a thumbnail has ended.
#[derive(Clone, Debug, PartialEq, Eq)]
pub enum ThumbnailStep {
    /// The download fails with this error.
    Fail(DownloadError),
    /// There is no thumbnail; the download goes on without one.
    Skip,
    /// The file is looked for under this glob pattern.
    Search(String),
}

/// What the search for a thumbnail's file found.
#[derive(Clone, Debug, PartialEq, Eq)]
pub enum ThumbnailSearch {
    /// The pattern was refused; the reason is given.
    BadPattern(String),
    /// No file matches.
    NoMatch,
    /// The first match could not be read; the reason is given.
    Unreadable(String),
    /// The first match has a path that is not Unicode text.
    NotUnicode,
    /// The path of the first match.
    Found(String),
}

/// The thumbnail that a search yields, or the error that it ends the download
/// with. That no file matches is no error.
pub open spec fn thumbnail_found(search: ThumbnailSearch) -> Result<
    Option<Seq<char>>,
    DownloadErrorView,
> {
    match search {
        ThumbnailSearch::BadPattern(reason) => Err(DownloadErrorView::ThumbnailError(reason@)),
        ThumbnailSearch::NoMatch => Ok(None),
        ThumbnailSearch::Unreadable(reason) => Err(DownloadErrorView::ThumbnailError(reason@)),
        ThumbnailSearch::NotUnicode => Err(
            DownloadErrorView::ThumbnailError("couldn't get the thumbnail path"@),
        ),
        ThumbnailSearch::Found(path) => Ok(Some(path@)),
    }
}

/// Calls `uuid::Uuid::new_v4` and renders the identifier with its `Display`.
/// The identifier is random, so nothing is claimed of the text.
#[verifier::external_body]
fn random_token() -> String {
    ::uuid::Uuid::new_v4().to_string()
}

/// The external fetching tool, named by the path of its executable.
#[derive(Clone, Debug, PartialEq, Eq)]
pub struct YtDlpDownloader {
    pub yt_dlp_path: String,
}

impl Default for YtDlpDownloader {
    fn default() -> (downloader: Self)
        ensures
            downloader.yt_dlp_path@ == "yt-dlp"@,
    {
        YtDlpDownloader::new(None)
    }
}

impl YtDlpDownloader {
    /// The tool at the configured path, or `yt-dlp` as found by the system
    /// where none is configured.
    pub fn new(configured: Option<String>) -> (downloader: Self)
        ensures
            downloader.yt_dlp_path@ == match configured {
                Some(path) => path@,
                None => "yt-dlp"@,
            },
    {
        match configured {
            Some(path) => YtDlpDownloader { yt_dlp_path: path },
            None => YtDlpDownloader { yt_dlp_path: String::from_str("yt-dlp") },
        }
    }

    fn build_base_command(&self) -> (command: CommandLine)
        ensures
            command.program@ == self.yt_dlp_path@,
            views(command.args@) == base_args(),
    {
        let mut args: Vec<String> = Vec::new();
        args.push(String::from_str("--no-warnings"));
        args.push(String::from_str("--ignore-config"));
        assert(views(args@) =~= base_args());
        CommandLine { program: self.yt_dlp_path.clone(), args }
    }

    /// The command that prints the descriptor of `url`.
    pub fn metadata_command(&self, url: &str) -> (command: CommandLine)
        ensures
            command.program@ == self.yt_dlp_path@,
            views(command.args@) == metadata_args(url@),
    {
        let mut command = self.build_base_command();
        command.args.push(String::from_str("--dump-single-json"));
        command.args.push(String::from_str(url));
        assert(views(command.args@) =~= metadata_args(url@));
        command
    }

    /// The command that downloads `url` into files named after `token`.
    pub fn download_command_with(&self, token: &str, url: &str) -> (command: CommandLine)
        ensures
            command.program@ == self.yt_dlp_path@,
            views(command.args@) == download_args(token@, url@),
    {
        let mut command = self.build_base_command();
        let mut template = String::from_str("./");
        template.append(token);
        template.append(".%(id)s.%(ext)s");
        command.args.push(String::from_str("--print-json"));
        command.args.push(String::from_str("-S vcodec:h264,res,acodec:m4a"));
        command.args.push(String::from_str("-o"));
        command.args.push(template);
        command.args.push(String::from_str(url));
        assert(views(command.args@) =~= download_args(token@, url@));
        command
    }

    /// The command that downloads `url` into files named after a fresh random
    /// token.
    pub fn download_command(&self, url: &str) -> (command: CommandLine)
        ensures
            command.program@ == self.yt_dlp_path@,
            exists|token: Seq<char>| views(command.args@) == download_args(token, url@),
    {
        let token = random_token();
        self.download_command_with(token.as_str(), url)
    }

    /// The command that fetches only the thumbnail of `url`.
    pub fn thumbnail_command(&self, url: &str) -> (command: CommandLine)
        ensures
            command.program@ == self.yt_dlp_path@,
            views(command.args@) == thumbnail_args(url@),
    {
        let mut command = self.build_base_command();
        command.args.push(String::from_str("--write-thumbnail"));
        command.args.push(String::from_str("--skip-download"));
        command.args.push(String::from_str("-o"));
        command.args.push(String::from_str("./thumbnail.%(id)s.%(ext)s"));
        command.args.push(String::from_str(url));
        assert(views(command.args@) =~= thumbnail_args(url@));
        command
    }

    /// What a run of the tool yields: its output, or the error it ended with.
    pub fn read_output(outcome: CommandOutcome) -> (output: Result<String, DownloadError>)
        ensures
            match output {
                Ok(stdout) => command_result(outcome) == Ok::<Seq<char>, DownloadErrorView>(
                    stdout@,
                ),
                Err(error) => command_result(outcome) == Err::<Seq<char>, DownloadErrorView>(
                    error@,
                ),
            },
    {
        match outcome {
            CommandOutcome::SpawnFailed(reason) => Err(DownloadError::CommandFailed(reason)),
            CommandOutcome::TimedOut => Err(DownloadError::Timeout),
            CommandOutcome::Exited { success, stdout, stderr } => {
                if success {
                    Ok(stdout)
                } else {
                    Err(DownloadError::CommandFailed(stderr))
                }
            },
        }
    }

    /// The descriptor that was read from the tool's output, or the error for
    /// an output that could not be read, with the reason why it could not.
    pub fn parsed_metadata(parsed: Result<MediaMetadata, String>) -> (metadata: Result<
        MediaMetadata,
        DownloadError,
    >)
        ensures
            match parsed {
                Ok(read) => metadata == Ok::<MediaMetadata, DownloadError>(read),
                Err(reason) => metadata matches Err(error) && error@
                    == DownloadErrorView::ParsingFailed(reason@),
            },
    {
        match parsed {
            Ok(read) => Ok(read),
            Err(reason) => Err(DownloadError::ParsingFailed(reason)),
        }
    }

    /// What follows the thumbnail's command for the item with the given id:
    /// a program that could not be started, or ran out of time, fails the
    /// download; a failed run means no thumbnail; a good run is followed by
    /// the search for the file.
    pub fn thumbnail_step(outcome: &CommandOutcome, id: &str) -> (step: ThumbnailStep)
        ensures
            match *outcome {
                CommandOutcome::SpawnFailed(reason) => step matches ThumbnailStep::Fail(error)
                    && error@ == DownloadErrorView::CommandFailed(reason@),
                CommandOutcome::TimedOut => step matches ThumbnailStep::Fail(error) && error@
                    == DownloadErrorView::Timeout,
                CommandOutcome::Exited { success, stdout, stderr } => if success {
                    step matches ThumbnailStep::Search(pattern) && pattern@ == thumbnail_pattern(
                        id@,
                    )
                } else {
                    step is Skip
                },
            },
    {
        match outcome {
            CommandOutcome::SpawnFailed(reason) => ThumbnailStep::Fail(
                DownloadError::CommandFailed(reason.clone()),
            ),
            CommandOutcome::TimedOut => ThumbnailStep::Fail(DownloadError::Timeout),
            CommandOutcome::Exited { success, stdout, stderr } => {
                if *success {
                    let mut pattern = String::from_str("thumbnail.");
                    pattern.append(id);
                    pattern.append(".*");
                    ThumbnailStep::Search(pattern)
                } else {
                    ThumbnailStep::Skip
                }
            },
        }
    }

    /// The thumbnail that a search yields, or the error that ends the
    /// download.
    pub fn thumbnail_from_search(search: ThumbnailSearch) -> (thumbnail: Result<
        Option<String>,
        DownloadError,
    >)
        ensures
            thumbnail_view(thumbnail) == thumbnail_found(search),
    {
        match search {
            ThumbnailSearch::BadPattern(reason) => Err(DownloadError::ThumbnailError(reason)),
            ThumbnailSearch::NoMatch => Ok(None),
            ThumbnailSearch::Unreadable(reason) => Err(DownloadError::ThumbnailError(reason)),
            ThumbnailSearch::NotUnicode => Err(
                DownloadError::ThumbnailError(String::from_str("couldn't get the thumbnail path")),
            ),
            ThumbnailSearch::Found(path) => Ok(Some(path)),
        }
    }
}

} // verus!
