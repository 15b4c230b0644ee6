use vstd::prelude::*;

use crate::client::DownloadOutput;

verus! {

/// Errors raised while resolving versions and manifests.
///
/// Failures coming from the HTTP layer or the JSON decoder are carried
/// as their rendered message, so that the error type stays plain data.
#[derive(Debug)]
pub enum ClientDownloaderError {
    UnknownError,
    NoSuchVersion,
    NoSuchLibrary,
    Request(String),
    Json(String),
    Download(DownloadError),
}

/// Errors raised while reading a version manifest.
#[derive(Debug)]
pub enum ManifestError {
    GameDirNotExist,
    JavaBinNotExist,
    UnknownError,
    IO(String),
    Json(String),
}

/// Per-descriptor download failures.
#[derive(Debug)]
pub enum DownloadError {
    /// The destination could not be prepared (directories, exclusive create).
    Setup(String),
    /// A definition of a download, or a whole batch, is incomplete.
    DownloadDefinition(String),
    /// Writing into a file failed during download.
    File(DownloadOutput),
    /// All attempts were spent without a successful response.
    Download(DownloadOutput),
    /// Download file verification failed.
    Verification(DownloadOutput),
}

} // verus!
