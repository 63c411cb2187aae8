//! The request being processed, the error type, and helpers shared by the handlers.
use vstd::prelude::*;
use crate::text::{
    str_chars, string_from_chars, push_all, nat_dec, u64_chars, is_upper, lemma_nat_dec_injective,
};
use crate::downloader::Filename;
use crate::config::ConfigCleanup;
use sha2::Digest;

verus! {

broadcast use vstd::string::group_string_axioms;

/// Why a job, or a step of it, failed.
#[derive(Debug)]
pub enum Error {
    /// Failure reported by the downloader
    DownloadError(String),
    /// Failure reported by the converter
    FFMPEGError(String),
    /// Content blocked in this region; may be bypassed through the external lib
    DMCAError,
    /// Unavailable (login, region lock etc)
    NotAvailable,
    /// Quality not available: valid input, but unavailable
    QualityNotAvailable,
    /// Error that the downloader throws at random for some DASH containers
    ExtractorError,
    /// Wrong quality: invalid input, always unavailable
    InputError(String),
    /// Unexpected internal error
    InternalError(String),
    /// No handler accepts this URL
    UnknownURL,
    /// Database error, with the database's message
    DBError(String),
    /// Database row conversion error, with its message
    DBRowError(String),
}

/// All data concerning one request.
#[derive(Debug)]
pub struct Request {
    pub url: String,
    pub quality: i16,
    pub playlist: bool,
    /// split up a playlist request into multiple requests instead of one big file
    pub split: bool,
    /// query id
    pub qid: u64,
    /// Reserved to specify other options in case quality & playlist codes aren't enough
    pub r_type: i16,
    pub from: i16,
    pub to: i16,
    /// Folder for finished files
    pub path: String,
    /// Folder for temporary files
    pub temp_path: String,
    /// User ID, needed for creating new query & job entries
    pub uid: u32,
}

/// The character that `url_sanitize` puts in place of `c`: ASCII characters
/// stay, every other one becomes `_`.
pub open spec fn sanitize_char(c: char) -> char {
    if c <= '\u{7f}' {
        c
    } else {
        '_'
    }
}

pub open spec fn sanitized(s: Seq<char>) -> Seq<char> {
    s.map_values(|c: char| sanitize_char(c))
}

/// A sanitized text has the same length as the input and only ASCII
/// characters; sanitizing it again changes nothing, and ASCII input comes
/// back unchanged.
pub proof fn lemma_sanitized(s: Seq<char>)
    ensures
        sanitized(s).len() == s.len(),
        forall|j: int| 0 <= j < s.len() ==> #[trigger] sanitized(s)[j] <= '\u{7f}',
        sanitized(sanitized(s)) == sanitized(s),
        (forall|j: int| 0 <= j < s.len() ==> #[trigger] s[j] <= '\u{7f}') ==> sanitized(s) == s,
{
    assert(sanitized(sanitized(s)) =~= sanitized(s));
    if forall|j: int| 0 <= j < s.len() ==> #[trigger] s[j] <= '\u{7f}' {
        assert(sanitized(s) =~= s);
    }
}

/// `sanitized` on a character vector.
pub fn sanitize_chars(v: &[char]) -> (r: Vec<char>)
    ensures
        r@ == sanitized(v@),
{
    let mut out: Vec<char> = Vec::new();
    let mut k: usize = 0;
    while k < v.len()
        invariant
            k <= v@.len(),
            out@ == sanitized(v@.take(k as int)),
        decreases v@.len() - k,
    {
        let c = v[k];
        out.push(if c <= '\u{7f}' { c } else { '_' });
        assert(out@ =~= sanitized(v@.take(k + 1)));
        k = k + 1;
    }
    assert(v@.take(v@.len() as int) =~= v@);
    out
}

/// Returns a sanitized String, usable via url encode: every non-ASCII
/// character replaced by `_`.
pub fn url_sanitize(input: &str) -> (r: String)
    ensures
        r@ == sanitized(input@),
{
    let v = str_chars(input);
    let out = sanitize_chars(v.as_slice());
    string_from_chars(out.as_slice())
}

/// The value of an `Ok`; the caller guarantees that there is one.
pub fn l_expect<T, E>(result: Result<T, E>, msg: &'static str) -> (r: T)
    requires
        result is Ok,
    ensures
        result == Ok::<T, E>(r),
{
    match result {
        Ok(v) => v,
        Err(_) => vstd::pervasive::unreached(),
    }
}

/// The data of a request without its connection, for comparing requests.
#[derive(Debug)]
pub struct ReqCore {
    pub url: String,
    pub quality: i16,
    pub playlist: bool,
    pub split: bool,
    pub qid: u64,
    pub r_type: i16,
    pub from: i16,
    pub to: i16,
    pub path: String,
    pub temp_path: String,
    pub uid: u32,
}

impl ReqCore {
    pub open spec fn same_as(&self, input: &Request) -> bool {
        &&& self.url@ == input.url@
        &&& self.quality == input.quality
        &&& self.split == input.split
        &&& self.qid == input.qid
        &&& self.r_type == input.r_type
        &&& self.from == input.from
        &&& self.to == input.to
        &&& self.playlist == input.playlist
        &&& self.path@ == input.path@
        &&& self.temp_path@ == input.temp_path@
        &&& self.uid == input.uid
    }

    /// Whether `input` holds exactly this data.
    pub fn verify(&self, input: &Request) -> (r: bool)
        ensures
            r == self.same_as(input),
    {
        self.url == input.url && self.quality == input.quality && self.split == input.split
            && self.qid == input.qid && self.r_type == input.r_type && self.from == input.from
            && self.to == input.to && self.playlist == input.playlist && self.path == input.path
            && self.temp_path == input.temp_path && self.uid == input.uid
    }
}

// ---------------------------------------------------------------------------
// Status codes of a query
// ---------------------------------------------------------------------------

pub const CODE_WAITING: i8 = -1;
pub const CODE_STARTED: i8 = 0;
pub const CODE_IN_PROGRESS: i8 = 1;
pub const CODE_SUCCESS: i8 = 2;
/// finished with warnings
pub const CODE_SUCCESS_WARNINGS: i8 = 3;
/// internal error
pub const CODE_FAILED_INTERNAL: i8 = 10;
/// quality not available
pub const CODE_FAILED_QUALITY: i8 = 11;
/// source unavailable (private / removed)
pub const CODE_FAILED_UNAVAILABLE: i8 = 12;
/// URL invalid, no handler
pub const CODE_FAILED_UNKNOWN: i8 = 13;

/// The status code that a finished job leaves in the database.
pub open spec fn code_of(result: Result<(), Error>) -> i8 {
    match result {
        Ok(_) => CODE_SUCCESS,
        Err(Error::NotAvailable) => CODE_FAILED_UNAVAILABLE,
        Err(Error::ExtractorError) => CODE_FAILED_UNAVAILABLE,
        Err(Error::QualityNotAvailable) => CODE_FAILED_QUALITY,
        Err(Error::UnknownURL) => CODE_FAILED_UNKNOWN,
        Err(_) => CODE_FAILED_INTERNAL,
    }
}

/// The status codes that a finished job leaves, as the README lists them:
/// 2 for success, 12 for a source that is unavailable (including the
/// downloader's extractor failure), 11 for a quality that is not available,
/// 13 for a URL that no handler takes, and 10 for every other failure.
pub proof fn lemma_status_codes(result: Result<(), Error>)
    ensures
        result is Ok ==> code_of(result) == 2,
        (result matches Err(Error::NotAvailable)) ==> code_of(result) == 12,
        (result matches Err(Error::ExtractorError)) ==> code_of(result) == 12,
        (result matches Err(Error::QualityNotAvailable)) ==> code_of(result) == 11,
        (result matches Err(Error::UnknownURL)) ==> code_of(result) == 13,
        (result matches Err(e) && !(e is NotAvailable || e is ExtractorError
            || e is QualityNotAvailable || e is UnknownURL)) ==> code_of(result) == 10,
{
}

/// Status code of a finished job: success, or the failure class of its error.
pub fn result_code(result: &Result<(), Error>) -> (r: i8)
    ensures
        r == code_of(*result),
{
    match result {
        Ok(_) => CODE_SUCCESS,
        Err(e) => match e {
            Error::NotAvailable => CODE_FAILED_UNAVAILABLE,
            Error::ExtractorError => CODE_FAILED_UNAVAILABLE,
            Error::QualityNotAvailable => CODE_FAILED_QUALITY,
            Error::UnknownURL => CODE_FAILED_UNKNOWN,
            _ => CODE_FAILED_INTERNAL,
        },
    }
}

// ---------------------------------------------------------------------------
// SHA-256 check of a downloaded program
// ---------------------------------------------------------------------------

/// The SHA-256 digest of `data`.
pub uninterp spec fn sha256_of(data: Seq<u8>) -> Seq<u8>;

/// `Sha256::digest` of sha2: the SHA-256 digest of the bytes. Stated: the
/// result is a function of the bytes and has 32 bytes, the output size of
/// `Sha256`.
#[verifier::external_body]
fn sha256_digest(data: &[u8]) -> (r: Vec<u8>)
    ensures
        r@ == sha256_of(data@),
        r@.len() == 32,
{
    sha2::Sha256::digest(data).to_vec()
}

pub open spec fn hex_digit(d: int) -> char {
    if d < 10 {
        (48 + d) as char
    } else {
        (87 + d) as char
    }
}

/// Lower-case hexadecimal rendering, two digits per byte.
pub open spec fn hex_lower(b: Seq<u8>) -> Seq<char>
    decreases b.len(),
{
    if b.len() == 0 {
        Seq::empty()
    } else {
        hex_lower(b.drop_last()) + seq![
            hex_digit(b.last() as int / 16),
            hex_digit(b.last() as int % 16),
        ]
    }
}

fn hex_char(d: u8) -> (c: char)
    requires
        d < 16,
    ensures
        c == hex_digit(d as int),
{
    let table = str_chars("0123456789abcdef");
    proof {
        reveal_strlit("0123456789abcdef");
    }
    assert(table@.len() == 16);
    let c = table[d as usize];
    assert(c == "0123456789abcdef"@[d as int]);
    c
}

fn hex_lower_chars(b: &[u8]) -> (r: Vec<char>)
    ensures
        r@ == hex_lower(b@),
{
    let mut out: Vec<char> = Vec::new();
    let mut k: usize = 0;
    while k < b.len()
        invariant
            k <= b@.len(),
            out@ == hex_lower(b@.take(k as int)),
        decreases b@.len() - k,
    {
        let x = b[k];
        out.push(hex_char(x / 16));
        out.push(hex_char(x % 16));
        assert(b@.take(k + 1).drop_last() =~= b@.take(k as int));
        assert(out@ =~= hex_lower(b@.take(k + 1)));
        k = k + 1;
    }
    assert(b@.take(b@.len() as int) =~= b@);
    out
}

/// Whether `expected`, which has to be in lower case, is the hexadecimal
/// SHA-256 of `data`.
pub fn check_SHA256(data: &[u8], expected: &str) -> (r: bool)
    ensures
        r == (hex_lower(sha256_of(data@)) == expected@),
{
    let digest = sha256_digest(data);
    let hex = hex_lower_chars(digest.as_slice());
    let e = str_chars(expected);
    if hex.len() != e.len() {
        return false;
    }
    let mut k: usize = 0;
    while k < hex.len()
        invariant
            k <= hex@.len() == e@.len(),
            hex@ == hex_lower(sha256_of(data@)),
            e@ == expected@,
            forall|j: int| 0 <= j < k ==> hex@[j] == e@[j],
        decreases hex@.len() - k,
    {
        if hex[k] != e[k] {
            assert(hex@[k as int] != e@[k as int]);
            return false;
        }
        k = k + 1;
    }
    assert(hex@ =~= e@);
    true
}

/// Lower-case hexadecimal has no upper-case letter.
pub proof fn lemma_hex_lower_no_upper(b: Seq<u8>)
    ensures
        forall|j: int| 0 <= j < hex_lower(b).len() ==> !is_upper(#[trigger] hex_lower(b)[j]),
        hex_lower(b).len() == 2 * b.len(),
    decreases b.len(),
{
    if b.len() > 0 {
        lemma_hex_lower_no_upper(b.drop_last());
        let h = hex_lower(b);
        let p = hex_lower(b.drop_last());
        assert forall|j: int| 0 <= j < h.len() implies !is_upper(#[trigger] h[j]) by {
            if j < p.len() {
                assert(h[j] == p[j]);
            }
        }
    }
}

/// A digest written with an upper-case letter never matches: the expected
/// value has to be in lower case.
pub proof fn lemma_upper_case_never_matches(data: Seq<u8>, expected: Seq<char>, j: int)
    requires
        0 <= j < expected.len(),
        is_upper(expected[j]),
    ensures
        hex_lower(sha256_of(data)) != expected,
{
    lemma_hex_lower_no_upper(sha256_of(data));
}

/// The program downloaded as an update is accepted only with the expected
/// digest; otherwise the update fails with `InternalError("Hash mismatch")`.
pub fn inner_update(data: &[u8], sha2: &str) -> (r: Result<(), Error>)
    ensures
        hex_lower(sha256_of(data@)) == sha2@ ==> r is Ok,
        hex_lower(sha256_of(data@)) != sha2@ ==> (r matches Err(Error::InternalError(m)) && m@
            == "Hash mismatch"@),
{
    if check_SHA256(data, sha2) {
        Ok(())
    } else {
        Err(Error::InternalError("Hash mismatch".to_string()))
    }
}

// ---------------------------------------------------------------------------
// Where finished files go
// ---------------------------------------------------------------------------

/// The file name for a finished file: the sanitized name with its extension,
/// and from the first retry on `-{attempt}` before the dot.
pub open spec fn save_name_spec(name: Seq<char>, extension: Seq<char>, attempt: nat) -> Seq<char> {
    if attempt == 0 {
        sanitized(name) + seq!['.'] + extension
    } else {
        sanitized(name) + seq!['-'] + nat_dec(attempt) + seq!['.'] + extension
    }
}

/// Different attempts give different file names.
pub proof fn lemma_save_names_distinct(name: Seq<char>, extension: Seq<char>, a: nat, b: nat)
    requires
        a != b,
    ensures
        save_name_spec(name, extension, a) != save_name_spec(name, extension, b),
{
    let p = sanitized(name);
    let l = p.len() as int;
    let sa = save_name_spec(name, extension, a);
    let sb = save_name_spec(name, extension, b);
    if a == 0 || b == 0 {
        assert(sa[l] != sb[l]);
    } else if sa == sb {
        let da = nat_dec(a);
        let db = nat_dec(b);
        assert(sa == p + seq!['-'] + da + seq!['.'] + extension);
        assert(sb == p + seq!['-'] + db + seq!['.'] + extension);
        assert(sa.len() == l + 1 + da.len() + 1 + extension.len());
        assert(sb.len() == l + 1 + db.len() + 1 + extension.len());
        assert(da.len() == db.len());
        assert(sa.subrange(l + 1, l + 1 + da.len()) =~= da);
        assert(sb.subrange(l + 1, l + 1 + db.len()) =~= db);
        lemma_nat_dec_injective(a, b);
    }
}

/// One candidate of the save path's file name; `free_save_attempt` picks the
/// first one that does not exist yet.
pub fn save_file_name(fname: &Filename, attempt: u32) -> (r: String)
    ensures
        r@ == save_name_spec(fname.name@, fname.extension@, attempt as nat),
{
    let n = str_chars(fname.name.as_str());
    let mut v = sanitize_chars(n.as_slice());
    if attempt > 0 {
        v.push('-');
        let d = u64_chars(attempt as u64);
        push_all(&mut v, d.as_slice());
    }
    v.push('.');
    let e = str_chars(fname.extension.as_str());
    push_all(&mut v, e.as_slice());
    string_from_chars(v.as_slice())
}

/// The first save-name candidate that is free, given for the candidates
/// `0..=n` whether their files exist, the last of them being free: the least
/// attempt whose file does not exist.
pub fn free_save_attempt(exists: &Vec<bool>) -> (r: u32)
    requires
        1 <= exists@.len() <= u32::MAX + 1,
        !exists@[exists@.len() - 1],
    ensures
        r < exists@.len(),
        !exists@[r as int],
        forall|j: int| 0 <= j < r ==> exists@[j],
{
    let mut a: usize = 0;
    while exists[a]
        invariant
            a < exists@.len() <= u32::MAX + 1,
            !exists@[exists@.len() - 1],
            forall|j: int| 0 <= j < a ==> exists@[j],
        decreases exists@.len() - a,
    {
        a = a + 1;
    }
    a as u32
}

// ---------------------------------------------------------------------------
// Cleanup of finished files
// ---------------------------------------------------------------------------

/// What a cleanup does with the entries of the files it removed.
#[derive(Debug, Clone, Copy, PartialEq, Eq)]
pub enum DeleteAction {
    /// Delete the requests and file entries
    DeleteRequests,
    /// Keep the entries, clear their delete flag and mark them invalid
    ClearFlags,
}

pub fn delete_action(cleanup: &ConfigCleanup) -> (r: DeleteAction)
    ensures
        cleanup.auto_delete_request ==> r == DeleteAction::DeleteRequests,
        !cleanup.auto_delete_request ==> r == DeleteAction::ClearFlags,
{
    if cleanup.auto_delete_request {
        DeleteAction::DeleteRequests
    } else {
        DeleteAction::ClearFlags
    }
}

/// A file counts as gone when removing it worked, or when it no longer exists.
pub open spec fn file_gone(removed: bool, still_exists: bool) -> bool {
    removed || !still_exists
}

/// The entries of the files that are gone, in order; `outcomes[i]` tells
/// whether removing file `i` worked and whether it still exists afterwards.
pub open spec fn gone_files(files: Seq<(u64, String)>, outcomes: Seq<(bool, bool)>) -> Seq<(u64, String)>
    decreases files.len(),
{
    if files.len() == 0 || outcomes.len() == 0 {
        Seq::empty()
    } else {
        let rest = gone_files(files.drop_last(), outcomes.drop_last());
        if file_gone(outcomes.last().0, outcomes.last().1) {
            rest.push(files.last())
        } else {
            rest
        }
    }
}

/// Keeps the entries of the files that are gone.
pub fn retain_removed(files: Vec<(u64, String)>, outcomes: &Vec<(bool, bool)>) -> (r: Vec<(u64, String)>)
    requires
        files@.len() == outcomes@.len(),
    ensures
        r@ == gone_files(files@, outcomes@),
{
    let ghost fs = files@;
    let mut kept: Vec<(u64, String)> = Vec::new();
    let mut k: usize = 0;
    let mut files = files;
    assert(files@ =~= fs.skip(0));
    while k < outcomes.len()
        invariant
            k <= outcomes@.len() == fs.len(),
            files@ == fs.skip(k as int),
            kept@ == gone_files(fs.take(k as int), outcomes@.take(k as int)),
        decreases outcomes@.len() - k,
    {
        let f = files.remove(0);
        assert(f == fs[k as int]);
        assert(files@ =~= fs.skip(k + 1));
        let (removed, exists) = outcomes[k];
        assert(fs.take(k + 1).drop_last() =~= fs.take(k as int));
        assert(outcomes@.take(k + 1).drop_last() =~= outcomes@.take(k as int));
        if removed || !exists {
            kept.push(f);
        }
        k = k + 1;
    }
    assert(fs.take(fs.len() as int) =~= fs);
    assert(outcomes@.take(fs.len() as int) =~= outcomes@);
    kept
}

} // verus!
