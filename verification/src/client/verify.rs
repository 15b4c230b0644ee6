use vstd::prelude::*;

use sha1::Digest;

verus! {

/// Verification flag of a completed download.
#[derive(Clone, Copy, Debug, PartialEq, Eq, Structural)]
pub enum VerifyStatus {
    /// The file has not been verified.
    NotVerified,
    /// The file failed the verification process.
    Failed,
    /// The file passed the verification process.
    Passed,
}

impl Default for VerifyStatus {
    fn default() -> (res: Self)
        ensures
            res == VerifyStatus::NotVerified,
    {
        VerifyStatus::NotVerified
    }
}

impl VerifyStatus {
    pub open spec fn spec_label(self) -> Seq<char> {
        match self {
            VerifyStatus::NotVerified => "Not Verified"@,
            VerifyStatus::Failed => "FAILED"@,
            VerifyStatus::Passed => "Ok"@,
        }
    }

    /// The label shown when a status is rendered.
    pub fn label(&self) -> (r: &'static str)
        ensures
            r@ == self.spec_label(),
    {
        match self {
            VerifyStatus::NotVerified => "Not Verified",
            VerifyStatus::Failed => "FAILED",
            VerifyStatus::Passed => "Ok",
        }
    }
}

/// ASCII case folding: the code point of `c`, with `A`..`Z` mapped to
/// lower case and every other character left alone.
pub open spec fn spec_fold_case(c: char) -> int {
    if 65 <= c as int && c as int <= 90 {
        c as int + 32
    } else {
        c as int
    }
}

/// Two strings are equal up to ASCII case.
pub open spec fn eq_ignore_ascii_case(a: Seq<char>, b: Seq<char>) -> bool {
    &&& a.len() == b.len()
    &&& forall|i: int| 0 <= i < a.len() ==> spec_fold_case(a[i]) == spec_fold_case(b[i])
}

fn fold_case(c: char) -> (r: u32)
    ensures
        r == spec_fold_case(c),
{
    let u = c as u32;
    if 65 <= u && u <= 90 {
        u + 32
    } else {
        u
    }
}

/// Compare two strings exactly, character by character.
pub fn str_eq(a: &str, b: &str) -> (r: bool)
    ensures
        r == (a@ == b@),
{
    let a_len = a.unicode_len();
    let b_len = b.unicode_len();
    if a_len != b_len {
        return false;
    }
    let mut i: usize = 0;
    while i < a_len
        invariant
            a_len == a@.len(),
            b_len == b@.len(),
            a_len == b_len,
            i <= a_len,
            forall|j: int| 0 <= j < i ==> a@[j] == b@[j],
        decreases a_len - i,
    {
        if a.get_char(i) != b.get_char(i) {
            return false;
        }
        i += 1;
    }
    proof {
        assert(a@ =~= b@);
    }
    true
}

/// Compare two strings ignoring ASCII case.
pub fn str_eq_ignore_ascii_case(a: &str, b: &str) -> (r: bool)
    ensures
        r == eq_ignore_ascii_case(a@, b@),
{
    let a_len = a.unicode_len();
    let b_len = b.unicode_len();
    if a_len != b_len {
        return false;
    }
    let mut i: usize = 0;
    while i < a_len
        invariant
            a_len == a@.len(),
            b_len == b@.len(),
            a_len == b_len,
            i <= a_len,
            forall|j: int| 0 <= j < i ==> spec_fold_case(a@[j]) == spec_fold_case(b@[j]),
        decreases a_len - i,
    {
        if fold_case(a.get_char(i)) != fold_case(b.get_char(i)) {
            return false;
        }
        i += 1;
    }
    true
}

/// The lower-case hex digit for a value below 16.
pub open spec fn hex_digit(n: int) -> char {
    if n == 0 {
        '0'
    } else if n == 1 {
        '1'
    } else if n == 2 {
        '2'
    } else if n == 3 {
        '3'
    } else if n == 4 {
        '4'
    } else if n == 5 {
        '5'
    } else if n == 6 {
        '6'
    } else if n == 7 {
        '7'
    } else if n == 8 {
        '8'
    } else if n == 9 {
        '9'
    } else if n == 10 {
        'a'
    } else if n == 11 {
        'b'
    } else if n == 12 {
        'c'
    } else if n == 13 {
        'd'
    } else if n == 14 {
        'e'
    } else {
        'f'
    }
}

/// Lower-case hex encoding: two digits per byte, high nibble first.
pub open spec fn hex_of(bytes: Seq<u8>) -> Seq<char> {
    Seq::new(
        bytes.len() * 2,
        |i: int|
            if i % 2 == 0 {
                hex_digit(bytes[i / 2] as int / 16)
            } else {
                hex_digit(bytes[i / 2] as int % 16)
            },
    )
}

pub(crate) fn hex_digit_str(d: u8) -> (r: &'static str)
    requires
        d < 16,
    ensures
        r@.len() == 1,
        r@[0] == hex_digit(d as int),
{
    proof {
        reveal_strlit("0");
        reveal_strlit("1");
        reveal_strlit("2");
        reveal_strlit("3");
        reveal_strlit("4");
        reveal_strlit("5");
        reveal_strlit("6");
        reveal_strlit("7");
        reveal_strlit("8");
        reveal_strlit("9");
        reveal_strlit("a");
        reveal_strlit("b");
        reveal_strlit("c");
        reveal_strlit("d");
        reveal_strlit("e");
        reveal_strlit("f");
    }
    match d {
        0 => "0",
        1 => "1",
        2 => "2",
        3 => "3",
        4 => "4",
        5 => "5",
        6 => "6",
        7 => "7",
        8 => "8",
        9 => "9",
        10 => "a",
        11 => "b",
        12 => "c",
        13 => "d",
        14 => "e",
        _ => "f",
    }
}

/// Render bytes as a lower-case hex string.
pub fn to_hex_lower(bytes: &[u8]) -> (r: String)
    ensures
        r@ == hex_of(bytes@),
{
    let mut s = String::new();
    let mut i: usize = 0;
    while i < bytes.len()
        invariant
            i <= bytes@.len(),
            s@ == hex_of(bytes@.take(i as int)),
        decreases bytes@.len() - i,
    {
        let b = bytes[i];
        let hi = hex_digit_str(b / 16);
        let lo = hex_digit_str(b % 16);
        s.append(hi);
        s.append(lo);
        proof {
            assert(s@ =~= hex_of(bytes@.take(i as int + 1)));
        }
        i += 1;
    }
    proof {
        assert(bytes@.take(bytes@.len() as int) =~= bytes@);
    }
    s
}

/// The SHA-1 digest of a byte sequence; fixed by the bytes alone.
pub uninterp spec fn sha1_of(data: Seq<u8>) -> Seq<u8>;

/// Relies on `sha1::Sha1::digest`: the SHA-1 digest of the input bytes,
/// a function of the bytes alone, 20 bytes long.
#[verifier::external_body]
fn sha1_digest(data: &[u8]) -> (r: Vec<u8>)
    ensures
        r@ == sha1_of(data@),
        r@.len() == 20,
{
    sha1::Sha1::digest(data).to_vec()
}

/// What comparing a computed digest against an expected hex string yields.
pub open spec fn spec_verify_digest(expected: Seq<char>, digest_hex: Seq<char>) -> VerifyStatus {
    if eq_ignore_ascii_case(expected, digest_hex) {
        VerifyStatus::Passed
    } else {
        VerifyStatus::Failed
    }
}

/// Compare a digest rendered as hex against the expected hex string,
/// ignoring ASCII case.
pub fn verify_digest(expected_sha1: &str, digest_hex: &str) -> (r: VerifyStatus)
    ensures
        r == spec_verify_digest(expected_sha1@, digest_hex@),
{
    if str_eq_ignore_ascii_case(expected_sha1, digest_hex) {
        VerifyStatus::Passed
    } else {
        VerifyStatus::Failed
    }
}

/// The SHA-1 digest of `data`, as a lower-case hex string.
pub fn compute_digest_hex(data: &[u8]) -> (r: String)
    ensures
        r@ == hex_of(sha1_of(data@)),
{
    let d = sha1_digest(data);
    to_hex_lower(d.as_slice())
}

/// Hash `data` and compare the digest against `expected_sha1`.
pub fn verify_bytes(expected_sha1: &str, data: &[u8]) -> (r: VerifyStatus)
    ensures
        r == spec_verify_digest(expected_sha1@, hex_of(sha1_of(data@))),
{
    let hexd = compute_digest_hex(data);
    verify_digest(expected_sha1, hexd.as_str())
}

} // verus!
