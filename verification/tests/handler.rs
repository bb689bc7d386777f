use crabberbot::concurrency::ConcurrencyLimiter;
use crabberbot::downloader::{
    assemble_download, DownloadError, DownloadedItem, DownloadedMedia, MediaMetadata, MediaType,
};
use crabberbot::handler::{
    begin_request, busy_message, download_failure_message, fetch_failure_message,
    process_download_request, Admission, FileCleanupGuard, MediaRequest, Pipeline, PipelineAction,
    PipelineEvent, PipelineState,
};
use crabberbot::source_url::SourceUrl;
use crabberbot::storage::{AuditStatus, CachedFile, CachedMedia};
use crabberbot::telegram_api::{OutgoingFile, OutgoingMedia};
use crabberbot::validator::ValidationLimits;

fn create_test_metadata() -> MediaMetadata {
    MediaMetadata {
        id: "123".to_string(),
        description: Some("".to_string()),
        duration: None,
        entries: None,
        ext: Some("".to_string()),
        filepath: Some("".to_string()),
        filesize: None,
        final_caption: "".to_string(),
        height: None,
        media_type: None,
        playlist_uploader: None,
        resolution: None,
        thumbnail: Some("http://example.com/thumb.jpg".to_string()),
        thumbnail_filepath: None,
        title: Some("".to_string()),
        uploader: None,
        width: None,
    }
}

fn link(text: &str) -> SourceUrl {
    SourceUrl::parse(text).unwrap()
}

fn caption_for(url: &str) -> String {
    format!(
        "<a href=\"https://t.me/crabberbot?start=c\">CrabberBot</a> \u{1F980} <a href=\"{}\">Source</a>\n\n<blockquote></blockquote>",
        url
    )
}

fn run(url: &str, events: Vec<PipelineEvent>) -> (Pipeline, Vec<PipelineAction>) {
    process_download_request(&link(url), 123, 456, ValidationLimits::default(), events)
}

fn downloaded(metadata: MediaMetadata, files: &[(&str, &str)]) -> DownloadedMedia {
    let reports: Vec<MediaMetadata> = files
        .iter()
        .map(|(id, path)| {
            let mut report = create_test_metadata();
            report.id = id.to_string();
            report.filepath = Some(path.to_string());
            report
        })
        .collect();
    assemble_download(&metadata, &reports, Ok(None)).unwrap()
}

fn finish(notice: Option<&str>, status: AuditStatus, cleanup: &[&str]) -> PipelineAction {
    PipelineAction::Finish {
        notice: notice.map(|text| text.to_string()),
        status,
        cleanup: cleanup.iter().map(|path| path.to_string()).collect(),
    }
}

fn cached_entry() -> CachedMedia {
    CachedMedia {
        caption: "stored caption".to_string(),
        files: vec![CachedFile {
            telegram_file_id: "handle-1".to_string(),
            media_type: MediaType::Video,
        }],
    }
}

#[test]
fn test_process_download_request_sends_video_on_success() {
    let url = "https://instagram.com/p/valid_post";
    let mut with_ext = create_test_metadata();
    with_ext.ext = Some("mp4".to_string());
    let (pipeline, actions) = run(
        url,
        vec![
            PipelineEvent::CacheLookup(None),
            PipelineEvent::MetadataFetched(Ok(create_test_metadata())),
            PipelineEvent::Downloaded(Ok(downloaded(with_ext, &[("123", "/tmp/video.mp4")]))),
            PipelineEvent::Transmitted(Some(vec!["handle-1".to_string()])),
            PipelineEvent::CacheStored,
        ],
    );
    assert_eq!(
        actions,
        vec![
            PipelineAction::LookupCache,
            PipelineAction::FetchMetadata,
            PipelineAction::Download {
                metadata: create_test_metadata()
            },
            PipelineAction::SendSingle {
                media: OutgoingMedia {
                    file: OutgoingFile::Path("/tmp/video.mp4".to_string()),
                    media_type: MediaType::Video,
                    caption: caption_for(url),
                    thumbnail: None,
                }
            },
            PipelineAction::StoreCache {
                caption: caption_for(url),
                files: vec![CachedFile {
                    telegram_file_id: "handle-1".to_string(),
                    media_type: MediaType::Video
                }],
            },
            finish(None, AuditStatus::Success, &["/tmp/video.mp4"]),
        ]
    );
    assert_eq!(
        pipeline.state,
        PipelineState::Done {
            status: AuditStatus::Success
        }
    );
    assert_eq!(pipeline.request.chat_id, 123);
    assert_eq!(pipeline.request.message_id, 456);
}

#[test]
fn test_process_download_request_sends_photo_on_success() {
    let url = "https://instagram.com/p/valid_photo";
    let mut with_ext = create_test_metadata();
    with_ext.ext = Some("jpg".to_string());
    let (_, actions) = run(
        url,
        vec![
            PipelineEvent::CacheLookup(None),
            PipelineEvent::MetadataFetched(Ok(create_test_metadata())),
            PipelineEvent::Downloaded(Ok(downloaded(with_ext, &[("123", "/tmp/photo.jpg")]))),
        ],
    );
    assert_eq!(actions.len(), 4);
    assert_eq!(
        actions[3],
        PipelineAction::SendSingle {
            media: OutgoingMedia {
                file: OutgoingFile::Path("/tmp/photo.jpg".to_string()),
                media_type: MediaType::Photo,
                caption: caption_for(url),
                thumbnail: None,
            }
        }
    );
}

#[test]
fn test_process_download_request_sends_media_group_on_multiple_items() {
    let url = "https://instagram.com/p/multiple_media";
    let mut pre_download_meta = create_test_metadata();
    pre_download_meta.entries = Some(vec![create_test_metadata(), create_test_metadata()]);

    let mut video_item = create_test_metadata();
    video_item.id = "v".to_string();
    video_item.ext = Some("mp4".to_string());
    let mut photo_item = create_test_metadata();
    photo_item.id = "p".to_string();
    photo_item.ext = Some("jpg".to_string());
    let mut result_meta = create_test_metadata();
    result_meta.entries = Some(vec![video_item, photo_item]);

    let (_, actions) = run(
        url,
        vec![
            PipelineEvent::CacheLookup(None),
            PipelineEvent::MetadataFetched(Ok(pre_download_meta)),
            PipelineEvent::Downloaded(Ok(downloaded(
                result_meta,
                &[("v", "/tmp/item1.mp4"), ("p", "/tmp/item2.jpg")],
            ))),
        ],
    );
    match &actions[3] {
        PipelineAction::SendGroup { batch } => {
            assert_eq!(batch.len(), 2);
            assert_eq!(batch[0].media_type, MediaType::Video);
            assert_eq!(batch[0].file, OutgoingFile::Path("/tmp/item1.mp4".to_string()));
            assert!(!batch[0].caption.is_empty());
            assert_eq!(batch[0].caption, caption_for(url));
            assert_eq!(batch[1].media_type, MediaType::Photo);
            assert_eq!(batch[1].file, OutgoingFile::Path("/tmp/item2.jpg".to_string()));
            assert!(batch[1].caption.is_empty());
        }
        other => panic!("expected a group, got {:?}", other),
    }
}

#[test]
fn test_process_download_request_stops_if_pre_check_fails() {
    let mut meta = create_test_metadata();
    meta.duration = Some(9_999_000);
    let (pipeline, actions) = run(
        "https://instagram.com/p/too_long",
        vec![
            PipelineEvent::CacheLookup(None),
            PipelineEvent::MetadataFetched(Ok(meta)),
        ],
    );
    assert_eq!(actions.len(), 3);
    match &actions[2] {
        PipelineAction::Finish {
            notice: Some(msg),
            status,
            cleanup,
        } => {
            assert!(msg.contains("too long"));
            assert_eq!(
                msg,
                "The media is too long: 167 minutes is over the 10 minute limit."
            );
            assert_eq!(*status, AuditStatus::ValidationError);
            assert!(cleanup.is_empty());
        }
        other => panic!("expected a refusal, got {:?}", other),
    }
    assert!(!actions
        .iter()
        .any(|action| matches!(action, PipelineAction::Download { .. })));
    assert!(pipeline.is_done());
}

#[test]
fn test_process_download_request_sends_error_on_download_failure() {
    let (pipeline, actions) = run(
        "https://instagram.com/p/invalid_post",
        vec![
            PipelineEvent::CacheLookup(None),
            PipelineEvent::MetadataFetched(Ok(create_test_metadata())),
            PipelineEvent::Downloaded(Err(DownloadError::CommandFailed(
                "yt-dlp exploded".to_string(),
            ))),
        ],
    );
    assert_eq!(actions.len(), 4);
    match &actions[3] {
        PipelineAction::Finish {
            notice: Some(msg), ..
        } => assert!(msg.contains("could not download the media")),
        other => panic!("expected a failure, got {:?}", other),
    }
    assert_eq!(
        actions[3],
        finish(
            Some("Sorry, I could not download the media: yt-dlp command failed: yt-dlp exploded"),
            AuditStatus::Error,
            &[]
        )
    );
    assert!(!actions.iter().any(|action| matches!(
        action,
        PipelineAction::SendSingle { .. } | PipelineAction::SendGroup { .. }
    )));
    assert_eq!(
        pipeline.state,
        PipelineState::Done {
            status: AuditStatus::Error
        }
    );
}

#[test]
fn the_request_is_made_for_the_canonical_link() {
    let request = MediaRequest::new(
        &link("https://www.youtube.com/watch?v=abc&si=xyz#t=1"),
        5,
        6,
    );
    assert_eq!(request.url.to_text(), "https://www.youtube.com/watch?v=abc");
    let (pipeline, actions) = run("https://instagram.com/p/a/?igsh=1#x", Vec::new());
    assert_eq!(pipeline.request.url.to_text(), "https://instagram.com/p/a/");
    assert_eq!(actions, vec![PipelineAction::LookupCache]);
    assert_eq!(pipeline.state, PipelineState::CacheCheck);
}

#[test]
fn a_cache_hit_is_replayed_and_ends_as_cached() {
    let (pipeline, actions) = run(
        "https://instagram.com/p/seen",
        vec![
            PipelineEvent::CacheLookup(Some(cached_entry())),
            PipelineEvent::Transmitted(Some(vec!["handle-1".to_string()])),
        ],
    );
    assert_eq!(
        actions,
        vec![
            PipelineAction::LookupCache,
            PipelineAction::SendSingle {
                media: OutgoingMedia {
                    file: OutgoingFile::FileId("handle-1".to_string()),
                    media_type: MediaType::Video,
                    caption: "stored caption".to_string(),
                    thumbnail: None,
                }
            },
            finish(None, AuditStatus::Cached, &[]),
        ]
    );
    assert_eq!(
        pipeline.state,
        PipelineState::Done {
            status: AuditStatus::Cached
        }
    );
}

#[test]
fn a_cached_run_never_calls_the_fetcher() {
    let (_, actions) = run(
        "https://instagram.com/p/seen",
        vec![
            PipelineEvent::CacheLookup(Some(cached_entry())),
            PipelineEvent::Transmitted(Some(vec!["handle-1".to_string()])),
            PipelineEvent::MetadataFetched(Ok(create_test_metadata())),
            PipelineEvent::Downloaded(Err(DownloadError::Timeout)),
            PipelineEvent::CacheStored,
        ],
    );
    assert_eq!(actions.len(), 6);
    assert!(!actions.iter().any(|action| matches!(
        action,
        PipelineAction::FetchMetadata | PipelineAction::Download { .. }
    )));
    assert_eq!(actions[3], PipelineAction::Wait);
    assert_eq!(actions[4], PipelineAction::Wait);
    assert_eq!(actions[5], PipelineAction::Wait);
}

#[test]
fn a_failed_replay_falls_back_to_a_full_run() {
    let url = "https://instagram.com/p/stale";
    let mut with_ext = create_test_metadata();
    with_ext.ext = Some("mp4".to_string());
    let (pipeline, actions) = run(
        url,
        vec![
            PipelineEvent::CacheLookup(Some(cached_entry())),
            PipelineEvent::Transmitted(None),
            PipelineEvent::MetadataFetched(Ok(create_test_metadata())),
            PipelineEvent::Downloaded(Ok(downloaded(with_ext, &[("123", "/tmp/video.mp4")]))),
            PipelineEvent::Transmitted(Some(vec!["fresh-handle".to_string()])),
            PipelineEvent::CacheStored,
        ],
    );
    assert_eq!(actions.len(), 7);
    assert!(matches!(actions[1], PipelineAction::SendSingle { .. }));
    assert_eq!(actions[2], PipelineAction::FetchMetadata);
    assert!(matches!(actions[3], PipelineAction::Download { .. }));
    assert!(matches!(actions[4], PipelineAction::SendSingle { .. }));
    assert_eq!(
        actions[5],
        PipelineAction::StoreCache {
            caption: caption_for(url),
            files: vec![CachedFile {
                telegram_file_id: "fresh-handle".to_string(),
                media_type: MediaType::Video
            }],
        }
    );
    assert_eq!(
        actions[6],
        finish(None, AuditStatus::Success, &["/tmp/video.mp4"])
    );
    assert_eq!(
        pipeline.state,
        PipelineState::Done {
            status: AuditStatus::Success
        }
    );
    let notices = actions
        .iter()
        .filter(|action| matches!(action, PipelineAction::Finish { notice: Some(_), .. }))
        .count();
    assert_eq!(notices, 0);
}

#[test]
fn a_cache_entry_without_files_is_a_miss() {
    let (pipeline, actions) = run(
        "https://instagram.com/p/empty",
        vec![PipelineEvent::CacheLookup(Some(CachedMedia {
            caption: "c".to_string(),
            files: Vec::new(),
        }))],
    );
    assert_eq!(
        actions,
        vec![PipelineAction::LookupCache, PipelineAction::FetchMetadata]
    );
    assert_eq!(pipeline.state, PipelineState::Validate);
}

#[test]
fn a_fetch_failure_ends_with_one_notice() {
    let (_, actions) = run(
        "https://instagram.com/p/private",
        vec![
            PipelineEvent::CacheLookup(None),
            PipelineEvent::MetadataFetched(Err(DownloadError::CommandFailed(
                "private".to_string(),
            ))),
        ],
    );
    assert_eq!(
        actions[2],
        finish(
            Some("Sorry, I could not fetch information for that link. It might be private or invalid. Error: yt-dlp command failed: private"),
            AuditStatus::Error,
            &[]
        )
    );
}

#[test]
fn a_download_that_times_out_has_its_own_wording() {
    assert_eq!(
        download_failure_message(&DownloadError::Timeout),
        "Sorry, the download is taking too long. Please try again later."
    );
    assert_eq!(
        download_failure_message(&DownloadError::ParsingFailed("x".to_string())),
        "Sorry, I could not download the media: Failed to parse yt-dlp output: x"
    );
    assert_eq!(
        fetch_failure_message(&DownloadError::Timeout),
        "Sorry, I could not fetch information for that link. It might be private or invalid. Error: yt-dlp timed out"
    );
    let (_, actions) = run(
        "https://instagram.com/p/slow",
        vec![
            PipelineEvent::CacheLookup(None),
            PipelineEvent::MetadataFetched(Ok(create_test_metadata())),
            PipelineEvent::Downloaded(Err(DownloadError::Timeout)),
        ],
    );
    assert_eq!(
        actions[3],
        finish(
            Some("Sorry, the download is taking too long. Please try again later."),
            AuditStatus::Error,
            &[]
        )
    );
}

#[test]
fn a_transport_failure_removes_the_files_and_caches_nothing() {
    let media = DownloadedMedia::Single(DownloadedItem {
        filepath: "/tmp/v.mp4".to_string(),
        media_type: Some(MediaType::Video),
        thumbnail_filepath: Some("/tmp/t.jpg".to_string()),
    });
    let (pipeline, actions) = run(
        "https://instagram.com/p/unsendable",
        vec![
            PipelineEvent::CacheLookup(None),
            PipelineEvent::MetadataFetched(Ok(create_test_metadata())),
            PipelineEvent::Downloaded(Ok(media)),
            PipelineEvent::Transmitted(None),
            PipelineEvent::CacheStored,
        ],
    );
    match &actions[3] {
        PipelineAction::SendSingle { media } => {
            assert_eq!(media.thumbnail, Some("/tmp/t.jpg".to_string()))
        }
        other => panic!("expected a single file, got {:?}", other),
    }
    assert_eq!(
        actions[4],
        finish(
            Some("Sorry, I encountered an error while sending the media."),
            AuditStatus::Error,
            &["/tmp/v.mp4", "/tmp/t.jpg"]
        )
    );
    assert_eq!(actions[5], PipelineAction::Wait);
    assert!(!actions
        .iter()
        .any(|action| matches!(action, PipelineAction::StoreCache { .. })));
    assert!(pipeline.is_done());
}

#[test]
fn an_unsupported_single_file_is_not_sent_but_removed() {
    let media = DownloadedMedia::Single(DownloadedItem {
        filepath: "/tmp/doc.pdf".to_string(),
        media_type: None,
        thumbnail_filepath: None,
    });
    let (_, actions) = run(
        "https://instagram.com/p/doc",
        vec![
            PipelineEvent::CacheLookup(None),
            PipelineEvent::MetadataFetched(Ok(create_test_metadata())),
            PipelineEvent::Downloaded(Ok(media)),
        ],
    );
    assert_eq!(
        actions[3],
        finish(
            Some("Sorry, the single media item downloaded had an unsupported type."),
            AuditStatus::Error,
            &["/tmp/doc.pdf"]
        )
    );
}

#[test]
fn a_group_without_supported_files_is_not_sent_but_removed() {
    let media = DownloadedMedia::Group(vec![
        DownloadedItem {
            filepath: "/tmp/a.pdf".to_string(),
            media_type: None,
            thumbnail_filepath: None,
        },
        DownloadedItem {
            filepath: "/tmp/b.txt".to_string(),
            media_type: None,
            thumbnail_filepath: None,
        },
    ]);
    let (_, actions) = run(
        "https://instagram.com/p/docs",
        vec![
            PipelineEvent::CacheLookup(None),
            PipelineEvent::MetadataFetched(Ok(create_test_metadata())),
            PipelineEvent::Downloaded(Ok(media)),
        ],
    );
    assert_eq!(
        actions[3],
        finish(
            Some("Sorry, although multiple items were found, none were of a supported type for a media group."),
            AuditStatus::Error,
            &["/tmp/a.pdf", "/tmp/b.txt"]
        )
    );
}

#[test]
fn every_downloaded_file_is_submitted_for_removal_exactly_once() {
    let media = || {
        DownloadedMedia::Group(vec![
            DownloadedItem {
                filepath: "/tmp/a.mp4".to_string(),
                media_type: Some(MediaType::Video),
                thumbnail_filepath: None,
            },
            DownloadedItem {
                filepath: "/tmp/b.pdf".to_string(),
                media_type: None,
                thumbnail_filepath: None,
            },
            DownloadedItem {
                filepath: "/tmp/c.jpg".to_string(),
                media_type: Some(MediaType::Photo),
                thumbnail_filepath: None,
            },
        ])
    };
    let endings: Vec<Vec<PipelineEvent>> = vec![
        vec![PipelineEvent::Transmitted(None)],
        vec![
            PipelineEvent::Transmitted(Some(vec!["h1".to_string(), "h2".to_string()])),
            PipelineEvent::CacheStored,
        ],
        vec![PipelineEvent::Transmitted(Some(Vec::new()))],
        vec![
            PipelineEvent::Downloaded(Ok(media())),
            PipelineEvent::Transmitted(None),
            PipelineEvent::Transmitted(None),
            PipelineEvent::CacheStored,
        ],
    ];
    for ending in endings {
        let mut events = vec![
            PipelineEvent::CacheLookup(None),
            PipelineEvent::MetadataFetched(Ok(create_test_metadata())),
            PipelineEvent::Downloaded(Ok(media())),
        ];
        events.extend(ending);
        let (pipeline, actions) = run("https://instagram.com/p/group", events);
        assert!(pipeline.is_done());
        let mut submitted: Vec<String> = Vec::new();
        for action in &actions {
            if let PipelineAction::Finish { cleanup, .. } = action {
                submitted.extend(cleanup.iter().cloned());
            }
        }
        assert_eq!(
            submitted,
            vec![
                "/tmp/a.mp4".to_string(),
                "/tmp/b.pdf".to_string(),
                "/tmp/c.jpg".to_string()
            ]
        );
    }
}

#[test]
fn handles_are_recorded_with_the_types_of_the_sent_files() {
    let media = DownloadedMedia::Group(vec![
        DownloadedItem {
            filepath: "/tmp/a.mp4".to_string(),
            media_type: Some(MediaType::Video),
            thumbnail_filepath: None,
        },
        DownloadedItem {
            filepath: "/tmp/b.pdf".to_string(),
            media_type: None,
            thumbnail_filepath: None,
        },
        DownloadedItem {
            filepath: "/tmp/c.jpg".to_string(),
            media_type: Some(MediaType::Photo),
            thumbnail_filepath: None,
        },
    ]);
    let url = "https://instagram.com/p/group";
    let (_, actions) = run(
        url,
        vec![
            PipelineEvent::CacheLookup(None),
            PipelineEvent::MetadataFetched(Ok(create_test_metadata())),
            PipelineEvent::Downloaded(Ok(media)),
            PipelineEvent::Transmitted(Some(vec![
                "h1".to_string(),
                "h2".to_string(),
                "h3".to_string(),
            ])),
        ],
    );
    assert_eq!(
        actions[4],
        PipelineAction::StoreCache {
            caption: caption_for(url),
            files: vec![
                CachedFile {
                    telegram_file_id: "h1".to_string(),
                    media_type: MediaType::Video
                },
                CachedFile {
                    telegram_file_id: "h2".to_string(),
                    media_type: MediaType::Photo
                },
            ],
        }
    );
}

#[test]
fn a_delivery_without_handles_is_a_success_that_is_not_cached() {
    let media = DownloadedMedia::Single(DownloadedItem {
        filepath: "/tmp/v.mp4".to_string(),
        media_type: Some(MediaType::Video),
        thumbnail_filepath: None,
    });
    let (_, actions) = run(
        "https://instagram.com/p/nohandle",
        vec![
            PipelineEvent::CacheLookup(None),
            PipelineEvent::MetadataFetched(Ok(create_test_metadata())),
            PipelineEvent::Downloaded(Ok(media)),
            PipelineEvent::Transmitted(Some(Vec::new())),
        ],
    );
    assert_eq!(
        actions[4],
        finish(None, AuditStatus::Success, &["/tmp/v.mp4"])
    );
}

#[test]
fn an_event_that_answers_nothing_changes_nothing() {
    let (pipeline, first) = Pipeline::start(
        MediaRequest::new(&link("https://example.com/a"), 1, 2),
        ValidationLimits::default(),
    );
    assert_eq!(first, PipelineAction::LookupCache);
    let (pipeline, action) = pipeline.step(PipelineEvent::Transmitted(Some(vec!["handle-1".to_string()])));
    assert_eq!(action, PipelineAction::Wait);
    assert_eq!(pipeline.state, PipelineState::CacheCheck);
    let (pipeline, action) = pipeline.step(PipelineEvent::CacheStored);
    assert_eq!(action, PipelineAction::Wait);
    assert!(!pipeline.is_done());
    let (pipeline, action) = pipeline.step(PipelineEvent::CacheLookup(None));
    assert_eq!(action, PipelineAction::FetchMetadata);
    let (pipeline, action) = pipeline.step(PipelineEvent::CacheLookup(None));
    assert_eq!(action, PipelineAction::Wait);
    assert_eq!(pipeline.state, PipelineState::Validate);
}

#[test]
fn configured_limits_decide_the_validation() {
    let limits = ValidationLimits {
        max_duration_ms: 1_800_000,
        ..ValidationLimits::default()
    };
    let mut meta = create_test_metadata();
    meta.duration = Some(3_000_000);
    let (_, actions) = process_download_request(
        &link("https://example.com/long"),
        1,
        2,
        limits,
        vec![
            PipelineEvent::CacheLookup(None),
            PipelineEvent::MetadataFetched(Ok(meta)),
        ],
    );
    assert_eq!(
        actions[2],
        finish(
            Some("The media is too long: 50 minutes is over the 30 minute limit."),
            AuditStatus::ValidationError,
            &[]
        )
    );
    let mut accepted = create_test_metadata();
    accepted.duration = Some(1_000_000);
    let (pipeline, actions) = process_download_request(
        &link("https://example.com/long"),
        1,
        2,
        limits,
        vec![
            PipelineEvent::CacheLookup(None),
            PipelineEvent::MetadataFetched(Ok(accepted)),
        ],
    );
    assert!(matches!(actions[2], PipelineAction::Download { .. }));
    assert!(matches!(pipeline.state, PipelineState::Download { .. }));
}

#[test]
fn the_guard_hands_out_the_paths_of_the_download() {
    let media = DownloadedMedia::Single(DownloadedItem {
        filepath: "/tmp/v.mp4".to_string(),
        media_type: Some(MediaType::Video),
        thumbnail_filepath: Some("/tmp/t.jpg".to_string()),
    });
    let guard = FileCleanupGuard::attach(&media);
    assert_eq!(
        guard.release(),
        vec!["/tmp/v.mp4".to_string(), "/tmp/t.jpg".to_string()]
    );
}

#[test]
fn a_chat_with_a_request_under_way_is_told_to_wait() {
    let mut limiter = ConcurrencyLimiter::new();
    let url = link("https://instagram.com/p/a/?x=1");
    let first = begin_request(&mut limiter, &url, 9, 1, ValidationLimits::default());
    let second = begin_request(&mut limiter, &url, 9, 2, ValidationLimits::default());
    let guard = match first {
        Admission::Started {
            guard,
            pipeline,
            action,
        } => {
            assert_eq!(action, PipelineAction::LookupCache);
            assert_eq!(pipeline.state, PipelineState::CacheCheck);
            assert_eq!(pipeline.request.url.to_text(), "https://instagram.com/p/a/");
            assert_eq!(pipeline.request.chat_id, 9);
            assert_eq!(pipeline.request.message_id, 1);
            assert_eq!(guard.chat_id(), 9);
            guard
        }
        Admission::Busy { .. } => panic!("the first request must start"),
    };
    match second {
        Admission::Busy { notice } => {
            assert_eq!(
                notice,
                "I'm already working on a request for you. Please wait until it's finished!"
            );
            assert_eq!(notice, busy_message());
        }
        Admission::Started { .. } => panic!("the second request must wait"),
    }
    let other = begin_request(&mut limiter, &url, 10, 3, ValidationLimits::default());
    assert!(matches!(other, Admission::Started { .. }));
    limiter.unlock(guard);
    let again = begin_request(&mut limiter, &url, 9, 4, ValidationLimits::default());
    assert!(matches!(again, Admission::Started { .. }));
}

#[test]
fn a_playlist_with_one_sendable_file_is_sent_as_a_group_of_one() {
    let media = DownloadedMedia::Group(vec![
        DownloadedItem {
            filepath: "/tmp/a.pdf".to_string(),
            media_type: None,
            thumbnail_filepath: None,
        },
        DownloadedItem {
            filepath: "/tmp/b.jpg".to_string(),
            media_type: Some(MediaType::Photo),
            thumbnail_filepath: None,
        },
    ]);
    let url = "https://instagram.com/p/one";
    let (_, actions) = run(
        url,
        vec![
            PipelineEvent::CacheLookup(None),
            PipelineEvent::MetadataFetched(Ok(create_test_metadata())),
            PipelineEvent::Downloaded(Ok(media)),
            PipelineEvent::Transmitted(Some(vec!["h".to_string()])),
            PipelineEvent::CacheStored,
        ],
    );
    assert_eq!(
        actions[3],
        PipelineAction::SendGroup {
            batch: vec![OutgoingMedia {
                file: OutgoingFile::Path("/tmp/b.jpg".to_string()),
                media_type: MediaType::Photo,
                caption: caption_for(url),
                thumbnail: None,
            }]
        }
    );
    assert_eq!(
        actions[4],
        PipelineAction::StoreCache {
            caption: caption_for(url),
            files: vec![CachedFile {
                telegram_file_id: "h".to_string(),
                media_type: MediaType::Photo
            }],
        }
    );
    assert_eq!(
        actions[5],
        finish(None, AuditStatus::Success, &["/tmp/a.pdf", "/tmp/b.jpg"])
    );
}

#[test]
fn every_finished_run_asks_for_exactly_one_finish() {
    let scripts: Vec<Vec<PipelineEvent>> = vec![
        vec![
            PipelineEvent::CacheLookup(Some(cached_entry())),
            PipelineEvent::Transmitted(Some(vec!["handle-1".to_string()])),
            PipelineEvent::Transmitted(Some(vec!["handle-1".to_string()])),
        ],
        vec![
            PipelineEvent::CacheLookup(None),
            PipelineEvent::MetadataFetched(Err(DownloadError::Timeout)),
            PipelineEvent::MetadataFetched(Err(DownloadError::Timeout)),
        ],
        vec![
            PipelineEvent::CacheLookup(None),
            PipelineEvent::MetadataFetched(Ok(create_test_metadata())),
            PipelineEvent::Downloaded(Err(DownloadError::IoError("disk".to_string()))),
            PipelineEvent::CacheStored,
        ],
    ];
    for events in scripts {
        let (pipeline, actions) = run("https://example.com/x", events);
        assert!(pipeline.is_done());
        let finishes = actions
            .iter()
            .filter(|action| matches!(action, PipelineAction::Finish { .. }))
            .count();
        assert_eq!(finishes, 1);
    }
}

#[test]
fn a_cached_group_is_replayed_as_one_group() {
    let entry = CachedMedia {
        caption: "stored caption".to_string(),
        files: vec![
            CachedFile {
                telegram_file_id: "h1".to_string(),
                media_type: MediaType::Photo,
            },
            CachedFile {
                telegram_file_id: "h2".to_string(),
                media_type: MediaType::Video,
            },
        ],
    };
    let (pipeline, actions) = run(
        "https://instagram.com/p/album",
        vec![PipelineEvent::CacheLookup(Some(entry))],
    );
    assert_eq!(pipeline.state, PipelineState::Replay);
    assert_eq!(
        actions[1],
        PipelineAction::SendGroup {
            batch: vec![
                OutgoingMedia {
                    file: OutgoingFile::FileId("h1".to_string()),
                    media_type: MediaType::Photo,
                    caption: "stored caption".to_string(),
                    thumbnail: None,
                },
                OutgoingMedia {
                    file: OutgoingFile::FileId("h2".to_string()),
                    media_type: MediaType::Video,
                    caption: String::new(),
                    thumbnail: None,
                },
            ]
        }
    );
}

#[test]
fn an_unsupported_file_before_a_video_leaves_a_group_of_the_video_with_the_caption() {
    let media = DownloadedMedia::Group(vec![
        DownloadedItem {
            filepath: "/tmp/a.txt".to_string(),
            media_type: None,
            thumbnail_filepath: None,
        },
        DownloadedItem {
            filepath: "/tmp/b.mp4".to_string(),
            media_type: Some(MediaType::Video),
            thumbnail_filepath: None,
        },
    ]);
    let url = "https://instagram.com/p/mixed";
    let (_, actions) = run(
        url,
        vec![
            PipelineEvent::CacheLookup(None),
            PipelineEvent::MetadataFetched(Ok(create_test_metadata())),
            PipelineEvent::Downloaded(Ok(media)),
        ],
    );
    assert_eq!(actions.len(), 4);
    assert_eq!(
        actions[3],
        PipelineAction::SendGroup {
            batch: vec![OutgoingMedia {
                file: OutgoingFile::Path("/tmp/b.mp4".to_string()),
                media_type: MediaType::Video,
                caption: caption_for(url),
                thumbnail: None,
            }]
        }
    );
}

#[test]
fn fewer_handles_than_files_cache_nothing() {
    let media = || {
        DownloadedMedia::Group(vec![
            DownloadedItem {
                filepath: "/tmp/a.mp4".to_string(),
                media_type: Some(MediaType::Video),
                thumbnail_filepath: None,
            },
            DownloadedItem {
                filepath: "/tmp/b.jpg".to_string(),
                media_type: Some(MediaType::Photo),
                thumbnail_filepath: None,
            },
        ])
    };
    let (pipeline, actions) = run(
        "https://instagram.com/p/short",
        vec![
            PipelineEvent::CacheLookup(None),
            PipelineEvent::MetadataFetched(Ok(create_test_metadata())),
            PipelineEvent::Downloaded(Ok(media())),
            PipelineEvent::Transmitted(Some(vec!["only-one".to_string()])),
        ],
    );
    assert_eq!(
        actions[4],
        finish(None, AuditStatus::Success, &["/tmp/a.mp4", "/tmp/b.jpg"])
    );
    assert!(!actions
        .iter()
        .any(|action| matches!(action, PipelineAction::StoreCache { .. })));
    assert!(pipeline.is_done());

    let url = "https://instagram.com/p/exact";
    let (_, actions) = run(
        url,
        vec![
            PipelineEvent::CacheLookup(None),
            PipelineEvent::MetadataFetched(Ok(create_test_metadata())),
            PipelineEvent::Downloaded(Ok(media())),
            PipelineEvent::Transmitted(Some(vec!["h1".to_string(), "h2".to_string()])),
        ],
    );
    assert_eq!(
        actions[4],
        PipelineAction::StoreCache {
            caption: caption_for(url),
            files: vec![
                CachedFile {
                    telegram_file_id: "h1".to_string(),
                    media_type: MediaType::Video
                },
                CachedFile {
                    telegram_file_id: "h2".to_string(),
                    media_type: MediaType::Photo
                },
            ],
        }
    );
}
