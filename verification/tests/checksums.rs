use mc_downloader::client::verify::{
    compute_digest_hex, str_eq, str_eq_ignore_ascii_case, to_hex_lower, verify_bytes,
    verify_digest, VerifyStatus,
};

#[test]
fn sha1_of_known_vector() {
    // The classic SHA-1 test vector.
    assert_eq!(compute_digest_hex(b"abc"), "a9993e364706816aba3e25717850c26c9cd0d89d");
}

#[test]
fn sha1_of_empty_input() {
    assert_eq!(compute_digest_hex(b""), "da39a3ee5e6b4b0d3255bfef95601890afd80709");
}

#[test]
fn hex_rendering_is_lower_case_two_digits_per_byte() {
    assert_eq!(to_hex_lower(&[0x00, 0xab, 0x0f, 0xf0]), "00ab0ff0");
    assert_eq!(to_hex_lower(&[]), "");
}

#[test]
fn digest_comparison_ignores_ascii_case() {
    assert_eq!(
        verify_digest("A9993E364706816ABA3E25717850C26C9CD0D89D", "a9993e364706816aba3e25717850c26c9cd0d89d"),
        VerifyStatus::Passed
    );
    assert_eq!(
        verify_digest("a9993e364706816aba3e25717850c26c9cd0d89d", "da39a3ee5e6b4b0d3255bfef95601890afd80709"),
        VerifyStatus::Failed
    );
}

#[test]
fn verify_bytes_matches_and_mismatches() {
    assert_eq!(verify_bytes("a9993e364706816aba3e25717850c26c9cd0d89d", b"abc"), VerifyStatus::Passed);
    assert_eq!(verify_bytes("A9993E364706816ABA3E25717850C26C9CD0D89D", b"abc"), VerifyStatus::Passed);
    assert_eq!(verify_bytes("a9993e364706816aba3e25717850c26c9cd0d89d", b"abd"), VerifyStatus::Failed);
    assert_eq!(verify_bytes("", b"abc"), VerifyStatus::Failed);
}

#[test]
fn string_comparisons() {
    assert!(str_eq("release", "release"));
    assert!(!str_eq("release", "Release"));
    assert!(str_eq_ignore_ascii_case("Release", "rELEASE"));
    assert!(!str_eq_ignore_ascii_case("release", "releases"));
    assert!(str_eq_ignore_ascii_case("", ""));
}

#[test]
fn default_verify_status_is_not_verified() {
    assert_eq!(VerifyStatus::default(), VerifyStatus::NotVerified);
    assert_eq!(VerifyStatus::NotVerified.label(), "Not Verified");
    assert_eq!(VerifyStatus::Failed.label(), "FAILED");
    assert_eq!(VerifyStatus::Passed.label(), "Ok");
}
