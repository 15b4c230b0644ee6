use std::sync::{Arc, Mutex};

use mc_downloader::client::downloader::{AttemptDirective, DownloaderService};
use mc_downloader::client::verify::{compute_digest_hex, VerifyStatus};
use mc_downloader::client::{DownloadData, Reporter};
use mc_downloader::error::DownloadError;
use mc_downloader::manifest::ManifestFile;

#[derive(Debug, Clone, PartialEq)]
enum SinkCall {
    Setup(u64),
    Progress(u64),
    Done,
}

struct RecSink {
    calls: Arc<Mutex<Vec<SinkCall>>>,
}

impl Reporter for RecSink {
    fn setup(&self, max_progress: u64) {
        self.calls.lock().unwrap().push(SinkCall::Setup(max_progress));
    }

    fn progress(&self, current: u64) {
        self.calls.lock().unwrap().push(SinkCall::Progress(current));
    }

    fn done(&self) {
        self.calls.lock().unwrap().push(SinkCall::Done);
    }
}

fn descriptor(url: &str, path: &str, sha1: &str, size: u64) -> DownloadData {
    DownloadData::from_manifest_file(&ManifestFile {
        path: Some(path.to_string()),
        sha1: sha1.to_string(),
        size,
        url: url.to_string(),
    })
    .expect("url should carry a file name")
}

fn recording_service(downloads: Vec<DownloadData>) -> (DownloaderService, Arc<Mutex<Vec<SinkCall>>>, RecSink) {
    let calls = Arc::new(Mutex::new(Vec::new()));
    let sink = RecSink { calls: calls.clone() };
    let mut service = DownloaderService::new("/downloads");
    service.with_downloads(downloads);
    (service, calls, sink)
}

#[test]
fn three_descriptors_all_succeed() {
    let bodies: [&[u8]; 3] = [&[1u8; 10], &[2u8; 20], &[3u8; 30]];
    let downloads = vec![
        descriptor("http://host/a.bin", "a/a.bin", &compute_digest_hex(bodies[0]), 10),
        descriptor("http://host/b.bin", "b/b.bin", &compute_digest_hex(bodies[1]), 20),
        descriptor("http://host/c.bin", "c/c.bin", &compute_digest_hex(bodies[2]), 30),
    ];
    let (service, calls, sink) = recording_service(downloads);
    let mut batch = service.start(Some(sink));

    for expected_index in 0..3usize {
        let job = batch.next_job().expect("a descriptor should be admitted");
        assert_eq!(job.index, expected_index);
        assert_eq!(job.absolute_path.starts_with("/downloads/"), true);
        let directive = batch.opened(job.index);
        assert_eq!(directive, AttemptDirective::Retry);
        batch.chunk_written(bodies[job.index].len() as u64);
        let directive = batch.attempt_finished(job.index, 200);
        assert_eq!(directive, AttemptDirective::Verify);
        let digest = compute_digest_hex(bodies[job.index]);
        batch.report_digest(job.index, Some(&digest));
    }
    assert!(batch.is_done());
    let (results, _) = batch.finish();

    assert_eq!(results.len(), 3);
    let names = ["a.bin", "b.bin", "c.bin"];
    for (i, result) in results.iter().enumerate() {
        let out = result.as_ref().expect("all three should succeed");
        assert_eq!(out.status, 200);
        assert_eq!(out.file_name, names[i]);
        assert_eq!(out.verified, VerifyStatus::Passed);
    }

    let calls = calls.lock().unwrap();
    assert_eq!(calls[0], SinkCall::Setup(60));
    assert_eq!(*calls.last().unwrap(), SinkCall::Done);
    assert_eq!(calls.iter().filter(|c| matches!(c, SinkCall::Setup(_))).count(), 1);
    assert_eq!(calls.iter().filter(|c| matches!(c, SinkCall::Done)).count(), 1);
    let progressed: u64 = calls
        .iter()
        .map(|c| match c {
            SinkCall::Progress(d) => *d,
            _ => 0,
        })
        .sum();
    assert_eq!(progressed, 60);
}

#[test]
fn result_sequence_aligns_with_input() {
    let downloads = vec![
        descriptor("http://host/one.jar", "one.jar", "", 0),
        descriptor("http://host/two.jar", "two.jar", "", 0),
        descriptor("http://host/three.jar", "three.jar", "", 0),
        descriptor("http://host/four.jar", "four.jar", "", 0),
    ];
    let (service, _, sink) = recording_service(downloads);
    let mut batch = service.start(Some(sink));

    // Admit everything first; completion order differs from submission.
    let jobs: Vec<_> = std::iter::from_fn(|| batch.next_job()).collect();
    assert_eq!(jobs.len(), 4);
    for job in jobs.iter().rev() {
        assert_eq!(batch.opened(job.index), AttemptDirective::Retry);
        let directive = batch.attempt_finished(job.index, if job.index == 2 { 503 } else { 200 });
        assert_eq!(directive, AttemptDirective::Closed);
    }
    assert!(batch.is_done());
    let (results, _) = batch.finish();

    assert_eq!(results.len(), 4);
    let names = ["one.jar", "two.jar", "three.jar", "four.jar"];
    for (i, result) in results.iter().enumerate() {
        match result {
            Ok(out) => {
                assert_ne!(i, 2);
                assert_eq!(out.file_name, names[i]);
            }
            Err(DownloadError::Download(out)) => {
                assert_eq!(i, 2);
                assert_eq!(out.file_name, names[i]);
                assert_eq!(out.status, 503);
            }
            other => panic!("unexpected result: {:?}", other),
        }
    }
}

#[test]
fn empty_checksum_passes_without_verification() {
    let downloads = vec![descriptor("http://host/raw.bin", "raw.bin", "", 5)];
    let (service, _, sink) = recording_service(downloads);
    let mut batch = service.start(Some(sink));
    let job = batch.next_job().unwrap();
    assert_eq!(batch.opened(job.index), AttemptDirective::Retry);
    // Closed at once: no digest is ever requested.
    assert_eq!(batch.attempt_finished(job.index, 200), AttemptDirective::Closed);
    let (results, _) = batch.finish();
    let out = results[0].as_ref().unwrap();
    assert_eq!(out.verified, VerifyStatus::Passed);
    assert_eq!(out.status, 200);
}

#[test]
fn matching_checksum_passes() {
    let body: &[u8] = b"hello world";
    let digest = compute_digest_hex(body);
    let downloads = vec![descriptor("http://host/hello.txt", "hello.txt", &digest, 11)];
    let (service, _, sink) = recording_service(downloads);
    let mut batch = service.start(Some(sink));
    let job = batch.next_job().unwrap();
    batch.opened(job.index);
    assert_eq!(batch.attempt_finished(job.index, 200), AttemptDirective::Verify);
    batch.report_digest(job.index, Some(&digest));
    let (results, _) = batch.finish();
    let out = results[0].as_ref().unwrap();
    assert_eq!(out.status, 200);
    assert_eq!(out.verified, VerifyStatus::Passed);
}

#[test]
fn checksum_mismatch_is_still_a_success_outcome() {
    let digest = compute_digest_hex(b"expected content");
    let downloads = vec![descriptor("http://host/f.txt", "f.txt", &digest, 1)];
    let (service, _, sink) = recording_service(downloads);
    let mut batch = service.start(Some(sink));
    let job = batch.next_job().unwrap();
    batch.opened(job.index);
    assert_eq!(batch.attempt_finished(job.index, 200), AttemptDirective::Verify);
    let wrong = compute_digest_hex(b"what was actually written");
    batch.report_digest(job.index, Some(&wrong));
    let (results, _) = batch.finish();
    let out = results[0].as_ref().expect("a mismatch must not become an error");
    assert_eq!(out.verified, VerifyStatus::Failed);
    assert_eq!(out.status, 200);
}

#[test]
fn server_error_aborts_after_one_attempt() {
    let downloads = vec![descriptor("http://host/f.bin", "f.bin", "", 0)];
    let (service, _, sink) = recording_service(downloads);
    let mut batch = service.start(Some(sink));
    let job = batch.next_job().unwrap();
    assert_eq!(batch.opened(job.index), AttemptDirective::Retry);
    // One 5xx response: closed at once, no retry offered.
    assert_eq!(batch.attempt_finished(job.index, 500), AttemptDirective::Closed);
    assert!(batch.is_done());
    let (results, _) = batch.finish();
    match &results[0] {
        Err(DownloadError::Download(out)) => assert_eq!(out.status, 500),
        other => panic!("expected a download error, got {:?}", other),
    }
}

#[test]
fn retryable_status_spends_whole_budget() {
    let downloads = vec![descriptor("http://host/gone.bin", "gone.bin", "", 0)];
    let (service, _, sink) = recording_service(downloads);
    let mut batch = service.start(Some(sink));
    let job = batch.next_job().unwrap();
    assert_eq!(batch.opened(job.index), AttemptDirective::Retry);
    // Default budget is three attempts: two retries, then closed.
    assert_eq!(batch.attempt_finished(job.index, 404), AttemptDirective::Retry);
    assert_eq!(batch.attempt_finished(job.index, 404), AttemptDirective::Retry);
    assert_eq!(batch.attempt_finished(job.index, 404), AttemptDirective::Closed);
    let (results, _) = batch.finish();
    match &results[0] {
        Err(DownloadError::Download(out)) => assert_eq!(out.status, 404),
        other => panic!("expected a download error, got {:?}", other),
    }
}

#[test]
fn existing_path_is_a_setup_error_local_to_its_descriptor() {
    let downloads = vec![
        descriptor("http://host/clash.bin", "clash.bin", "", 0),
        descriptor("http://host/fine.bin", "fine.bin", "", 0),
    ];
    let (service, _, sink) = recording_service(downloads);
    let mut batch = service.start(Some(sink));

    let job0 = batch.next_job().unwrap();
    batch.setup_failed(job0.index, "destination already exists".to_string());

    let job1 = batch.next_job().unwrap();
    batch.opened(job1.index);
    assert_eq!(batch.attempt_finished(job1.index, 200), AttemptDirective::Closed);

    let (results, _) = batch.finish();
    match &results[0] {
        Err(DownloadError::Setup(msg)) => assert_eq!(msg, "destination already exists"),
        other => panic!("expected a setup error, got {:?}", other),
    }
    let out = results[1].as_ref().expect("the second descriptor is unaffected");
    assert_eq!(out.file_name, "fine.bin");
    assert_eq!(out.verified, VerifyStatus::Passed);
}

#[test]
fn parallelism_bounds_admission() {
    let downloads = vec![
        descriptor("http://host/1.bin", "1.bin", "", 0),
        descriptor("http://host/2.bin", "2.bin", "", 0),
        descriptor("http://host/3.bin", "3.bin", "", 0),
    ];
    let (mut service, _, sink) = recording_service(downloads);
    service.with_parallel_requests(2);
    let mut batch = service.start(Some(sink));

    let job0 = batch.next_job().expect("slot one");
    let _job1 = batch.next_job().expect("slot two");
    assert!(batch.next_job().is_none(), "the bound is two in flight");

    batch.opened(job0.index);
    batch.attempt_finished(job0.index, 200);
    let job2 = batch.next_job().expect("a finished fetch frees a slot");
    assert_eq!(job2.index, 2);
}

#[test]
fn batch_without_sink_runs_through() {
    let downloads = vec![descriptor("http://host/x.bin", "x.bin", "", 0)];
    let mut service = DownloaderService::new("");
    service.with_downloads(downloads);
    let mut batch = service.start(None::<RecSink>);
    let job = batch.next_job().unwrap();
    assert_eq!(job.absolute_path, "x.bin");
    batch.opened(job.index);
    batch.chunk_written(17);
    batch.attempt_finished(job.index, 204);
    let (results, _) = batch.finish();
    let out = results[0].as_ref().unwrap();
    assert_eq!(out.status, 204);
}

#[test]
fn empty_batch_finishes_at_once_and_is_rejected_by_policy() {
    let (service, calls, sink) = recording_service(Vec::new());
    let mut batch = service.start(Some(sink));
    assert!(batch.next_job().is_none());
    assert!(batch.is_done());
    let (results, _) = batch.finish();
    assert_eq!(results.len(), 0);
    {
        let calls = calls.lock().unwrap();
        assert_eq!(calls.as_slice(), &[SinkCall::Setup(0), SinkCall::Done]);
    }
    match mc_downloader::client::aggregate_results(&results) {
        Err(DownloadError::DownloadDefinition(m)) => assert_eq!(m, "No Downloaded files"),
        other => panic!("an empty batch must be rejected, got {:?}", other),
    }
}

#[test]
fn status_classification_boundaries() {
    let downloads = vec![
        descriptor("http://host/a.bin", "a.bin", "", 0),
        descriptor("http://host/b.bin", "b.bin", "", 0),
        descriptor("http://host/c.bin", "c.bin", "", 0),
    ];
    let (service, _, sink) = recording_service(downloads);
    let mut batch = service.start(Some(sink));
    let j0 = batch.next_job().unwrap();
    let j1 = batch.next_job().unwrap();
    let j2 = batch.next_job().unwrap();
    batch.opened(j0.index);
    batch.opened(j1.index);
    batch.opened(j2.index);
    // 299 is still a success; 300 merely spends an attempt; 599 aborts.
    assert_eq!(batch.attempt_finished(j0.index, 299), AttemptDirective::Closed);
    assert_eq!(batch.attempt_finished(j1.index, 300), AttemptDirective::Retry);
    assert_eq!(batch.attempt_finished(j2.index, 599), AttemptDirective::Closed);
    assert_eq!(batch.attempt_finished(j1.index, 300), AttemptDirective::Retry);
    assert_eq!(batch.attempt_finished(j1.index, 300), AttemptDirective::Closed);
    let (results, _) = batch.finish();
    assert!(results[0].is_ok());
    assert!(matches!(&results[1], Err(DownloadError::Download(out)) if out.status == 300));
    assert!(matches!(&results[2], Err(DownloadError::Download(out)) if out.status == 599));
}

#[test]
fn zero_attempt_budget_fails_with_initial_status() {
    let downloads = vec![descriptor("http://host/never.bin", "never.bin", "", 0)];
    let (mut service, _, sink) = recording_service(downloads);
    service.with_retries(0);
    let mut batch = service.start(Some(sink));
    let job = batch.next_job().unwrap();
    assert_eq!(batch.opened(job.index), AttemptDirective::Closed);
    let (results, _) = batch.finish();
    match &results[0] {
        Err(DownloadError::Download(out)) => assert_eq!(out.status, 200),
        other => panic!("expected a download error, got {:?}", other),
    }
}
