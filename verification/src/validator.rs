//! The limits that a descriptor must keep before anything is downloaded.

use vstd::prelude::*;
use vstd::string::*;
use crate::downloader::MediaMetadata;
use crate::text::{decimal, push_decimal, str_eq};

verus! {

/// Longest accepted duration, in milliseconds: ten minutes.
pub const MAX_DURATION_MS: u64 = 600_000;

/// Largest accepted size, in bytes: 500 MB.
pub const MAX_FILESIZE_BYTES: u64 = 500 * 1024 * 1024;

/// Most items of a playlist whose first item is a video.
pub const MAX_VIDEO_PLAYLIST_ITEMS: usize = 5;

/// Most items of any other playlist.
pub const MAX_IMAGE_PLAYLIST_ITEMS: usize = 10;

/// The ceilings that validation enforces. Durations are in milliseconds.
#[derive(Clone, Copy, Debug, PartialEq, Eq, Structural)]
pub struct ValidationLimits {
    pub max_duration_ms: u64,
    pub max_filesize_bytes: u64,
    pub max_video_playlist_items: usize,
    pub max_image_playlist_items: usize,
}

/// The ceilings that apply where none are configured.
pub open spec fn default_limits() -> ValidationLimits {
    ValidationLimits {
        max_duration_ms: MAX_DURATION_MS,
        max_filesize_bytes: MAX_FILESIZE_BYTES,
        max_video_playlist_items: MAX_VIDEO_PLAYLIST_ITEMS,
        max_image_playlist_items: MAX_IMAGE_PLAYLIST_ITEMS,
    }
}

impl Default for ValidationLimits {
    fn default() -> (limits: Self)
        ensures
            limits == default_limits(),
    {
        ValidationLimits {
            max_duration_ms: MAX_DURATION_MS,
            max_filesize_bytes: MAX_FILESIZE_BYTES,
            max_video_playlist_items: MAX_VIDEO_PLAYLIST_ITEMS,
            max_image_playlist_items: MAX_IMAGE_PLAYLIST_ITEMS,
        }
    }
}

/// Why a descriptor is refused. The durations of `TooLong` are in
/// milliseconds.
#[derive(Clone, Copy, Debug, PartialEq, Eq, Structural)]
#[allow(inconsistent_fields)]
pub enum ValidationError {
    TooLong { found: u64, limit: u64 },
    TooLarge { found_mb: u64, limit_mb: u64 },
    TooManyItems { found: usize, limit: usize },
}

/// A duration in whole minutes, rounded to the nearest minute; a duration
/// half way between two minutes goes to the even one.
pub open spec fn rounded_minutes(ms: nat) -> nat {
    let whole = ms / 60_000;
    let rest = ms % 60_000;
    if rest > 30_000 || (rest == 30_000 && whole % 2 == 1) {
        whole + 1
    } else {
        whole
    }
}

/// The message that tells the user which limit was exceeded.
pub open spec fn validation_error_text(error: ValidationError) -> Seq<char> {
    match error {
        ValidationError::TooLong { found, limit } => "The media is too long: "@ + decimal(
            rounded_minutes(found as nat),
        ) + " minutes is over the "@ + decimal(rounded_minutes(limit as nat))
            + " minute limit."@,
        ValidationError::TooLarge { found_mb, limit_mb } => "The media file is too large: "@
            + decimal(found_mb as nat) + " MB is over the "@ + decimal(limit_mb as nat)
            + " MB limit."@,
        ValidationError::TooManyItems { found, limit } => "The playlist is too long: "@ + decimal(
            found as nat,
        ) + " items is more than the maximum of "@ + decimal(limit as nat) + "."@,
    }
}

fn minutes_rounded(ms: u64) -> (minutes: u64)
    ensures
        minutes == rounded_minutes(ms as nat),
{
    let whole: u64 = ms / 60_000;
    let rest: u64 = ms % 60_000;
    if rest > 30_000 || (rest == 30_000 && whole % 2 == 1) {
        whole + 1
    } else {
        whole
    }
}

impl ValidationError {
    /// The message that tells the user which limit was exceeded.
    pub fn message(&self) -> (text: String)
        ensures
            text@ == validation_error_text(*self),
    {
        match *self {
            ValidationError::TooLong { found, limit } => {
                let mut text = String::from_str("The media is too long: ");
                push_decimal(&mut text, minutes_rounded(found));
                text.append(" minutes is over the ");
                push_decimal(&mut text, minutes_rounded(limit));
                text.append(" minute limit.");
                text
            },
            ValidationError::TooLarge { found_mb, limit_mb } => {
                let mut text = String::from_str("The media file is too large: ");
                push_decimal(&mut text, found_mb);
                text.append(" MB is over the ");
                push_decimal(&mut text, limit_mb);
                text.append(" MB limit.");
                text
            },
            ValidationError::TooManyItems { found, limit } => {
                let mut text = String::from_str("The playlist is too long: ");
                push_decimal(&mut text, found as u64);
                text.append(" items is more than the maximum of ");
                push_decimal(&mut text, limit as u64);
                text.append(".");
                text
            },
        }
    }
}

/// Whether a value is stated and lies above its limit.
pub open spec fn exceeds(stated: Option<u64>, limit: u64) -> bool {
    match stated {
        Some(value) => value > limit,
        None => false,
    }
}

/// Whether a playlist counts as one of videos: its first item is marked as a
/// video.
pub open spec fn is_video_playlist(entries: Seq<MediaMetadata>) -> bool {
    entries.len() > 0 && match entries[0].media_type {
        Some(kind) => kind@ == "video"@,
        None => false,
    }
}

/// The most items that the playlist may have.
pub open spec fn playlist_limit(entries: Seq<MediaMetadata>, limits: ValidationLimits) -> usize {
    if is_video_playlist(entries) {
        limits.max_video_playlist_items
    } else {
        limits.max_image_playlist_items
    }
}

/// The verdict on a descriptor. A playlist is judged by the number of its
/// items alone; a single item by its duration, then by its size. What the
/// descriptor does not state is never held against it.
pub open spec fn validation(metadata: MediaMetadata, limits: ValidationLimits) -> Result<
    (),
    ValidationError,
> {
    match metadata.entries {
        Some(entries) => if entries.len() > playlist_limit(entries@, limits) {
            Err(
                ValidationError::TooManyItems {
                    found: entries.len(),
                    limit: playlist_limit(entries@, limits),
                },
            )
        } else {
            Ok(())
        },
        None => if exceeds(metadata.duration, limits.max_duration_ms) {
            Err(
                ValidationError::TooLong {
                    found: metadata.duration->0,
                    limit: limits.max_duration_ms,
                },
            )
        } else if exceeds(metadata.filesize, limits.max_filesize_bytes) {
            Err(
                ValidationError::TooLarge {
                    found_mb: (metadata.filesize->0 / 1024 / 1024) as u64,
                    limit_mb: (limits.max_filesize_bytes / 1024 / 1024) as u64,
                },
            )
        } else {
            Ok(())
        },
    }
}

/// Validates a descriptor against the given limits.
pub fn validate_with_limits(metadata: &MediaMetadata, limits: &ValidationLimits) -> (verdict:
    Result<(), ValidationError>)
    ensures
        verdict == validation(*metadata, *limits),
{
    match &metadata.entries {
        Some(entries) => {
            let is_video = entries.len() > 0 && match &entries[0].media_type {
                Some(kind) => str_eq(kind.as_str(), "video"),
                None => false,
            };
            let limit = if is_video {
                limits.max_video_playlist_items
            } else {
                limits.max_image_playlist_items
            };
            if entries.len() > limit {
                return Err(ValidationError::TooManyItems { found: entries.len(), limit });
            }
        },
        None => {
            match metadata.duration {
                Some(duration) => {
                    if duration > limits.max_duration_ms {
                        return Err(
                            ValidationError::TooLong {
                                found: duration,
                                limit: limits.max_duration_ms,
                            },
                        );
                    }
                },
                None => {},
            }
            match metadata.filesize {
                Some(filesize) => {
                    if filesize > limits.max_filesize_bytes {
                        return Err(
                            ValidationError::TooLarge {
                                found_mb: filesize / 1024 / 1024,
                                limit_mb: limits.max_filesize_bytes / 1024 / 1024,
                            },
                        );
                    }
                },
                None => {},
            }
        },
    }
    Ok(())
}

/// Validates a descriptor against the default limits.
pub fn validate_media_metadata(metadata: &MediaMetadata) -> (verdict: Result<(), ValidationError>)
    ensures
        verdict == validation(*metadata, default_limits()),
{
    let limits = ValidationLimits::default();
    validate_with_limits(metadata, &limits)
}

/// A descriptor that states neither items, duration nor size is accepted under
/// every limit, and a refusal always names a limit that was exceeded.
pub proof fn lemma_validation_fails_only_on_breach(
    metadata: MediaMetadata,
    limits: ValidationLimits,
)
    ensures
        metadata.entries is None && metadata.duration is None && metadata.filesize is None
            ==> validation(metadata, limits) is Ok,
        validation(metadata, limits) matches Err(ValidationError::TooLong { found, limit })
            ==> found > limit && limit == limits.max_duration_ms && metadata.duration == Some(
            found,
        ),
        validation(metadata, limits) matches Err(ValidationError::TooManyItems { found, limit })
            ==> found > limit && metadata.entries is Some,
        validation(metadata, limits) matches Err(ValidationError::TooLarge { found_mb, limit_mb })
            ==> metadata.filesize is Some && metadata.filesize->0 > limits.max_filesize_bytes,
{
}

} // verus!
