use vstd::prelude::*;

verus! {

/// Progress bookkeeping for a batch of file downloads.
pub struct DownloadProgress {
    pub files_count: i16,
    pub files_downloaded: i16,
    pub current_file: Option<String>,
    pub progress: i16,
    pub finished: bool,
}

impl DownloadProgress {
    pub fn new() -> (r: Self)
        ensures
            r.files_count == 0,
            r.files_downloaded == 0,
            r.current_file is None,
            r.progress == 0,
            !r.finished,
    {
        DownloadProgress {
            current_file: None,
            files_count: 0,
            files_downloaded: 0,
            finished: false,
            progress: 0,
        }
    }
}

} // verus!
