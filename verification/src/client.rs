use vstd::prelude::*;

use crate::error::{ClientDownloaderError, DownloadError};
use crate::manifest::Manifest;

pub mod client_downloader;
pub mod downloader;
pub mod verify;

pub use client_downloader::{AssetObject, ClientDownloader};
pub use downloader::{BatchRun, DownloadData, DownloaderService, FetchJob, HttpSettings};
pub use verify::VerifyStatus;

verus! {

pub type DownloadResult = Result<DownloadOutput, DownloadError>;

/// Terminal record of one descriptor's processing: last observed HTTP
/// status, the file it was written to, and the verification flag.
#[derive(Debug)]
pub struct DownloadOutput {
    pub status: u16,
    pub file_name: String,
    pub file_path: String,
    pub verified: VerifyStatus,
}

impl Clone for DownloadOutput {
    fn clone(&self) -> (res: Self)
        ensures
            res == *self,
    {
        DownloadOutput {
            status: self.status,
            file_name: self.file_name.clone(),
            file_path: self.file_path.clone(),
            verified: self.verified,
        }
    }
}

impl Default for DownloadOutput {
    fn default() -> (res: Self)
        ensures
            res.status == 0,
            res.file_name@ == Seq::<char>::empty(),
            res.file_path@ == Seq::<char>::empty(),
            res.verified == VerifyStatus::NotVerified,
    {
        DownloadOutput {
            status: 0,
            file_name: String::new(),
            file_path: String::new(),
            verified: VerifyStatus::NotVerified,
        }
    }
}

/// An interface for progress reporters, implemented by the caller.
///
/// The batch engine promises: `setup` is invoked exactly once, before any
/// `progress` call; `done` exactly once, after every `progress` call.
pub trait Reporter: Send + Sync {
    fn setup(&self, max_progress: u64);

    /// Report that `current` more bytes were durably written.
    fn progress(&self, current: u64);

    /// Finish up after progress reporting is done.
    fn done(&self);
}

pub trait DownloadVersion {
    fn download_version<R: Reporter>(
        &self,
        version_id: &str,
        game_path: &str,
        manifest_path: Option<&str>,
        version_path: Option<&str>,
        progress: Option<R>,
    ) -> Result<Vec<DownloadResult>, ClientDownloaderError>;

    fn download_by_manifest<R: Reporter>(
        &self,
        manifest: &Manifest,
        game_path: &str,
        version_path: Option<&str>,
        progress: Option<R>,
    ) -> Result<Vec<DownloadResult>, ClientDownloaderError>;
}

pub trait DownloadJava {
    fn check_version(&self, root_path: &str, expected_version: &str) -> bool;

    fn download_java<R: Reporter>(&self, root_path: &str, version: &str, progress: Option<R>);
}

/// The decimal digits of `n`, most significant first.
pub open spec fn spec_decimal(n: int) -> Seq<char>
    recommends
        n >= 0,
    decreases n,
{
    if n < 10 {
        seq![crate::client::verify::hex_digit(n)]
    } else {
        spec_decimal(n / 10).push(crate::client::verify::hex_digit(n % 10))
    }
}

/// Render a status code in decimal.
pub fn u16_to_string(n: u16) -> (r: String)
    ensures
        r@ == spec_decimal(n as int),
    decreases n,
{
    if n < 10 {
        let d = crate::client::verify::hex_digit_str(n as u8);
        proof {
            assert(d@ =~= spec_decimal(n as int));
        }
        d.to_owned()
    } else {
        let mut s = u16_to_string(n / 10);
        let d = crate::client::verify::hex_digit_str((n % 10) as u8);
        s.append(d);
        proof {
            assert(s@ =~= spec_decimal(n as int));
        }
        s
    }
}

/// The label the outcome line shows for a verification flag. The
/// unverified case reads `unverified` here, unlike the flag's own
/// [`VerifyStatus::label`].
pub open spec fn spec_line_label(v: VerifyStatus) -> Seq<char> {
    match v {
        VerifyStatus::NotVerified => "unverified"@,
        VerifyStatus::Failed => "FAILED"@,
        VerifyStatus::Passed => "Ok"@,
    }
}

fn line_label(v: &VerifyStatus) -> (r: &'static str)
    ensures
        r@ == spec_line_label(*v),
{
    match v {
        VerifyStatus::NotVerified => "unverified",
        VerifyStatus::Failed => "FAILED",
        VerifyStatus::Passed => "Ok",
    }
}

/// The line an outcome renders as: name, verification label, status.
pub open spec fn spec_output_line(out: DownloadOutput) -> Seq<char> {
    out.file_name@ + ": (verification: "@ + spec_line_label(out.verified) + ") Status: "@
        + spec_decimal(out.status as int) + "\n"@
}

/// Render an outcome as its one-line summary.
pub fn download_result_to_fmt(summary: &DownloadOutput) -> (r: String)
    ensures
        r@ == spec_output_line(*summary),
{
    let mut s = summary.file_name.clone();
    s.append(": (verification: ");
    s.append(line_label(&summary.verified));
    s.append(") Status: ");
    let num = u16_to_string(summary.status);
    s.append(num.as_str());
    s.append("\n");
    proof {
        assert(s@ =~= spec_output_line(*summary));
    }
    s
}

impl DownloadOutput {
    /// The one-line rendering of this outcome.
    pub fn to_display_string(&self) -> (r: String)
        ensures
            r@ == spec_output_line(*self),
    {
        download_result_to_fmt(self)
    }
}

/// How many outcomes of a batch are failures.
pub open spec fn spec_count_failures(s: Seq<DownloadResult>) -> int
    decreases s.len(),
{
    if s.len() == 0 {
        0
    } else {
        spec_count_failures(s.drop_last()) + (if s.last() is Err {
            1int
        } else {
            0int
        })
    }
}

proof fn lemma_count_failures_step(s: Seq<DownloadResult>, i: int)
    requires
        0 <= i < s.len(),
    ensures
        spec_count_failures(s.take(i + 1)) == spec_count_failures(s.take(i)) + (if s[i] is Err {
            1int
        } else {
            0int
        }),
{
    assert(s.take(i + 1).drop_last() =~= s.take(i));
    assert(s.take(i + 1).last() == s[i]);
}

/// Law and policy of the batch's caller: an empty result set, or
/// failures in more than half of the descriptors, is an error of the
/// whole batch — even though successfully written files remain on disk;
/// any other mix stands as it is.
pub fn aggregate_results(results: &Vec<DownloadResult>) -> (r: Result<(), DownloadError>)
    ensures
        match r {
            Ok(_) => results@.len() > 0 && 2 * spec_count_failures(results@) <= results@.len(),
            Err(e) => match e {
                DownloadError::DownloadDefinition(m) => {
                    &&& (results@.len() == 0 || 2 * spec_count_failures(results@)
                        > results@.len())
                    &&& (results@.len() == 0 ==> m@ == "No Downloaded files"@)
                    &&& (results@.len() > 0 ==> m@
                        == "More than half of the downloads failed"@)
                },
                _ => false,
            },
        },
{
    if results.len() == 0 {
        return Err(DownloadError::DownloadDefinition("No Downloaded files".to_owned()));
    }
    let mut failures: usize = 0;
    let mut i: usize = 0;
    proof {
        assert(results@.take(0) =~= Seq::<DownloadResult>::empty());
    }
    while i < results.len()
        invariant
            i <= results@.len(),
            failures <= i,
            failures == spec_count_failures(results@.take(i as int)),
        decreases results@.len() - i,
    {
        proof {
            lemma_count_failures_step(results@, i as int);
        }
        match &results[i] {
            Ok(_) => {},
            Err(_) => {
                failures = failures + 1;
            },
        }
        i += 1;
    }
    proof {
        assert(results@.take(results@.len() as int) =~= results@);
    }
    if failures > results.len() / 2 {
        Err(DownloadError::DownloadDefinition("More than half of the downloads failed".to_owned()))
    } else {
        Ok(())
    }
}

} // verus!
