//! Request-orchestration core of a media-retrieval relay.
//!
//! Given a link posted in a chat, the library decides whether an earlier
//! delivery can be replayed from the cache and otherwise drives the steps of a
//! full retrieval: validation of the descriptor, download, transmission, cache
//! population and audit logging. The callers perform the I/O that the returned
//! actions describe. The contracts are proved with Verus; what is believed of
//! outside crates is stated at each trusted item.

pub mod text;
pub mod source_url;
pub mod downloader;
pub mod storage;
pub mod validator;
pub mod concurrency;
pub mod telegram_api;
pub mod handler;

pub use downloader::DownloadError;
pub use handler::process_download_request;
