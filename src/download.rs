//! Downloading an image: where its name comes from, how its digest is checked,
//! and the session that orders the steps.
use vstd::prelude::*;
use vstd::string::StrSliceExecFns;
use crate::path::file_name_of;
use crate::text::{
    chars_contain, chars_of, find_first_index, find_last_index, first_index_of, first_word,
    first_word_of, contains, lower_of, lowercase, push_str, sha_hex, is_sha_hex,
    string_of,
};

verus! {

/// The part of a URL before its query string.
pub open spec fn url_path(url: Seq<char>) -> Seq<char> {
    match first_index_of(url, '?', 0) {
        Some(i) => url.subrange(0, i),
        None => url,
    }
}

/// The file name that a URL names: the last `/`-separated segment of its
/// path, when that is not empty.
pub open spec fn url_filename(url: Seq<char>) -> Option<Seq<char>> {
    let f = file_name_of(url_path(url));
    if f.len() == 0 {
        None
    } else {
        Some(f)
    }
}

/// The file name in a URL, or an error when its path ends in `/` or is empty.
pub fn extract_filename(url: &str) -> (r: Result<&str, String>)
    ensures
        r matches Ok(f) ==> url_filename(url@) == Some(f@),
        r matches Err(m) ==> url_filename(url@) is None && m@ == "Invalid URL: no filename"@,
{
    let cs = chars_of(url);
    let n = cs.len();
    let end = match find_first_index(&cs, '?') {
        Some(i) => i,
        None => n,
    };
    let path = crate::text::sub_chars(&cs, 0, end);
    proof {
        if first_index_of(url@, '?', 0) is None {
            assert(path@ =~= url@);
        }
    }
    let start = match find_last_index(&path, '/') {
        Some(i) => i + 1,
        None => 0,
    };
    if start == end {
        proof {
            if crate::text::last_index_of(path@, '/', path@.len() as int) is None {
                assert(file_name_of(path@) == path@);
            }
        }
        return Err(String::from_str("Invalid URL: no filename"));
    }
    Ok(url.substring_char(start, end))
}

pub open spec fn release_host() -> Seq<char> {
    seq!['g', 'i', 't', 'h', 'u', 'b', '.', 'c', 'o', 'm']
}

/// Whether a URL belongs to the release host whose metadata lists digests.
pub fn is_github_url(url: &str) -> (r: bool)
    ensures
        r == contains(url@, release_host()),
{
    let cs = chars_of(url);
    let host = vec!['g', 'i', 't', 'h', 'u', 'b', '.', 'c', 'o', 'm'];
    assert(host@ =~= release_host());
    chars_contain(&cs, &host)
}

/// Where the expected digest of a download comes from.
#[derive(Clone, Copy, Debug, PartialEq, Eq, Structural)]
pub enum VerifyMethod {
    /// Looked up by file name in the release host's metadata.
    ReleaseMetadata,
    /// Read from a sidecar `.sha` file.
    Sidecar,
    /// Neither is available: the download goes unchecked.
    Unverified,
}

pub open spec fn method_for(url: Seq<char>, has_sidecar: bool) -> VerifyMethod {
    if contains(url, release_host()) {
        VerifyMethod::ReleaseMetadata
    } else if has_sidecar {
        VerifyMethod::Sidecar
    } else {
        VerifyMethod::Unverified
    }
}

/// How a download from `url` is verified: release metadata for the release
/// host, else the sidecar file when one is given, else not at all.
pub fn verify_method(url: &str, has_sidecar: bool) -> (r: VerifyMethod)
    ensures
        r == method_for(url@, has_sidecar),
{
    if is_github_url(url) {
        VerifyMethod::ReleaseMetadata
    } else if has_sidecar {
        VerifyMethod::Sidecar
    } else {
        VerifyMethod::Unverified
    }
}

/// The expected digest in an already lower-cased sidecar word: accepted when
/// it is 64 hexadecimal digits.
pub fn check_sha_token(lowered: &str) -> (r: Result<String, String>)
    ensures
        r matches Ok(h) ==> sha_hex(lowered@) && h@ == lowered@,
        r matches Err(m) ==> !sha_hex(lowered@) && m@ == "Invalid SHA256 hash format: "@
            + lowered@,
{
    let cs = chars_of(lowered);
    if is_sha_hex(&cs) {
        Ok(string_of(&cs))
    } else {
        let mut m = String::new();
        push_str(&mut m, "Invalid SHA256 hash format: ");
        push_str(&mut m, lowered);
        Err(m)
    }
}

/// The expected digest in the text of a sidecar file ("hash  filename"): its
/// first word, lower-cased, which must be 64 hexadecimal digits.
pub fn parse_sha_file(content: &str) -> (r: Result<String, String>)
    ensures
        first_word(content@) is None ==> (r matches Err(m) && m@ == "Invalid SHA file format"@),
        first_word(content@) matches Some(w) ==> {
            &&& r matches Ok(h) ==> sha_hex(lower_of(w)) && h@ == lower_of(w)
            &&& r matches Err(m) ==> !sha_hex(lower_of(w)) && m@ == "Invalid SHA256 hash format: "@
                + lower_of(w)
        },
{
    let cs = chars_of(content);
    match first_word_of(&cs) {
        None => Err(String::from_str("Invalid SHA file format")),
        Some(w) => {
            let word = string_of(&w);
            let lowered = lowercase(word.as_str());
            check_sha_token(lowered.as_str())
        },
    }
}

/// Compares the expected digest with the one computed from the file.
pub fn compare_digests(expected: &str, actual: &str) -> (r: Result<(), String>)
    ensures
        r is Ok <==> expected@ == actual@,
        r matches Err(m) ==> m@ == "SHA256 mismatch: expected "@ + expected@ + ", got "@
            + actual@,
{
    let a = chars_of(expected);
    let b = chars_of(actual);
    if crate::text::chars_eq(&a, &b) {
        Ok(())
    } else {
        let mut m = String::new();
        push_str(&mut m, "SHA256 mismatch: expected ");
        push_str(&mut m, expected);
        push_str(&mut m, ", got ");
        push_str(&mut m, actual);
        Err(m)
    }
}

} // verus!

verus! {

/// What a download will do, fixed before any I/O.
pub struct DownloadPlan {
    /// The file name that the URL names.
    pub filename: String,
    /// The name in the cache: without `.xz` when the image is expanded.
    pub output_name: String,
    /// The name of the partial download: `<filename>.downloading`.
    pub temp_name: String,
    pub verify: VerifyMethod,
    /// Whether the download is an `.xz` image that is expanded after it is
    /// checked.
    pub decompress: bool,
}

/// Plans the download of `url`; `keep_compressed` keeps an `.xz` image as it
/// came. Fails when the URL names no file.
pub fn plan_download(url: &str, has_sidecar: bool, keep_compressed: bool) -> (r: Result<
    DownloadPlan,
    String,
>)
    ensures
        r is Err <==> url_filename(url@) is None,
        r matches Err(m) ==> m@ == "Invalid URL: no filename"@,
        r matches Ok(p) ==> {
            let f = url_filename(url@)->0;
            &&& p.filename@ == f
            &&& p.temp_name@ == f + ".downloading"@
            &&& p.verify == method_for(url@, has_sidecar)
            &&& p.decompress == (!keep_compressed && crate::text::ends_with(
                f,
                crate::path::xz_suffix(),
            ))
            &&& p.output_name@ == if keep_compressed {
                f
            } else {
                crate::decompress::trim_suffix_all(f, crate::path::xz_suffix())
            }
        },
{
    let filename = match extract_filename(url) {
        Ok(f) => f,
        Err(m) => return Err(m),
    };
    let cs = chars_of(filename);
    let is_xz = crate::text::chars_end_with(&cs, &crate::path::xz_chars());
    let output_name = if keep_compressed {
        string_of(&cs)
    } else {
        let trimmed = crate::decompress::trim_all(&cs, &crate::path::xz_chars());
        string_of(&trimmed)
    };
    let mut temp_name = string_of(&cs);
    push_str(&mut temp_name, ".downloading");
    Ok(
        DownloadPlan {
            filename: string_of(&cs),
            output_name,
            temp_name,
            verify: verify_method(url, has_sidecar),
            decompress: !keep_compressed && is_xz,
        },
    )
}

/// Where a download session stands.
#[derive(Clone, Copy, Debug, PartialEq, Eq, Structural)]
pub enum DownloadPhase {
    CheckingCache,
    Requesting,
    Streaming,
    Verifying,
    Decompressing,
    Moving,
    Done,
    Failed,
    Cancelled,
}

/// What the I/O around a session reports back to it.
#[derive(Clone, Copy, Debug, PartialEq, Eq, Structural)]
pub enum DownloadEvent {
    CacheHit,
    CacheMiss,
    ResponseOk { content_length: u64 },
    ResponseFailed,
    /// A chunk was written to the partial file.
    Chunk { len: u64 },
    StreamFailed,
    StreamEnded,
    Verified,
    VerifyFailed,
    Decompressed,
    DecompressFailed,
    Moved,
    MoveFailed,
    Cancel,
}

/// What the I/O around a session must do next.
#[derive(Clone, Copy, Debug, PartialEq, Eq, Structural)]
pub enum DownloadStep {
    /// Hand back the cached file; nothing is fetched.
    ReturnCached,
    /// Send the request for the image.
    SendRequest,
    /// Create the partial file and receive the body into it.
    ReceiveBody,
    /// Go on receiving.
    Continue,
    /// Compute the file's digest and compare it with the expected one.
    VerifyDigest,
    /// Expand the partial file into the output.
    Decompress,
    /// Rename the partial file to the output.
    MoveTemp,
    /// Done; remove the partial file first when asked.
    Finish { remove_temp: bool },
    /// Failed; remove the partial file when asked, keep everything else.
    Fail { remove_temp: bool },
    /// Cancelled; remove what is named.
    Stop { remove_temp: bool, remove_output: bool },
    /// The event changes nothing.
    Ignore,
}

/// The state of one download (or of one local decompression), with the files
/// it has made: the partial download and the output it is writing.
#[derive(Clone, Copy, Debug, PartialEq, Eq, Structural)]
pub struct DownloadSession {
    pub phase: DownloadPhase,
    pub verify: VerifyMethod,
    pub decompress: bool,
    /// Whether a request has gone out.
    pub requested: bool,
    pub temp_exists: bool,
    pub output_exists: bool,
    pub total_bytes: u64,
    pub received_bytes: u64,
}

pub open spec fn terminal(p: DownloadPhase) -> bool {
    p == DownloadPhase::Done || p == DownloadPhase::Failed || p == DownloadPhase::Cancelled
}

impl DownloadSession {
    /// The files a session holds fit its phase.
    pub open spec fn wf(self) -> bool {
        &&& (self.phase == DownloadPhase::CheckingCache ==> !self.requested)
        &&& (self.phase == DownloadPhase::CheckingCache || self.phase == DownloadPhase::Requesting
            || self.phase == DownloadPhase::Cancelled) ==> !self.temp_exists && !self.output_exists
        &&& (self.phase == DownloadPhase::Streaming || self.phase == DownloadPhase::Verifying
            || self.phase == DownloadPhase::Moving) ==> self.temp_exists && !self.output_exists
        &&& self.phase == DownloadPhase::Decompressing ==> self.output_exists && self.decompress
        &&& self.phase == DownloadPhase::Verifying ==> self.verify != VerifyMethod::Unverified
    }

    /// The session for a planned download, about to consult the cache.
    pub fn start(plan: &DownloadPlan) -> (r: DownloadSession)
        ensures
            r.wf(),
            r.phase == DownloadPhase::CheckingCache,
            r.verify == plan.verify,
            r.decompress == plan.decompress,
            !r.requested && !r.temp_exists && !r.output_exists,
            r.total_bytes == 0 && r.received_bytes == 0,
    {
        DownloadSession {
            phase: DownloadPhase::CheckingCache,
            verify: plan.verify,
            decompress: plan.decompress,
            requested: false,
            temp_exists: false,
            output_exists: false,
            total_bytes: 0,
            received_bytes: 0,
        }
    }

    /// The session for expanding a local file into a new output.
    pub fn local_decompress(input_size: u64) -> (r: DownloadSession)
        ensures
            r.wf(),
            r.phase == DownloadPhase::Decompressing,
            !r.requested && !r.temp_exists && r.output_exists,
            r.total_bytes == input_size,
    {
        DownloadSession {
            phase: DownloadPhase::Decompressing,
            verify: VerifyMethod::Unverified,
            decompress: true,
            requested: false,
            temp_exists: false,
            output_exists: true,
            total_bytes: input_size,
            received_bytes: 0,
        }
    }
}

/// After the digest is settled: expand an `.xz` image, or move the file.
pub open spec fn after_verify(s: DownloadSession) -> (DownloadSession, DownloadStep) {
    if s.decompress {
        (
            DownloadSession { phase: DownloadPhase::Decompressing, output_exists: true, ..s },
            DownloadStep::Decompress,
        )
    } else {
        (DownloadSession { phase: DownloadPhase::Moving, ..s }, DownloadStep::MoveTemp)
    }
}

/// One transition of a download session.
pub open spec fn download_next(s: DownloadSession, e: DownloadEvent) -> (DownloadSession, DownloadStep) {
    if terminal(s.phase) {
        (s, DownloadStep::Ignore)
    } else if e == DownloadEvent::Cancel {
        (
            DownloadSession {
                phase: DownloadPhase::Cancelled,
                temp_exists: false,
                output_exists: false,
                ..s
            },
            DownloadStep::Stop { remove_temp: s.temp_exists, remove_output: s.output_exists },
        )
    } else {
        match (s.phase, e) {
            (DownloadPhase::CheckingCache, DownloadEvent::CacheHit) => (
                DownloadSession { phase: DownloadPhase::Done, ..s },
                DownloadStep::ReturnCached,
            ),
            (DownloadPhase::CheckingCache, DownloadEvent::CacheMiss) => (
                DownloadSession { phase: DownloadPhase::Requesting, requested: true, ..s },
                DownloadStep::SendRequest,
            ),
            (DownloadPhase::Requesting, DownloadEvent::ResponseOk { content_length }) => (
                DownloadSession {
                    phase: DownloadPhase::Streaming,
                    temp_exists: true,
                    total_bytes: content_length,
                    ..s
                },
                DownloadStep::ReceiveBody,
            ),
            (DownloadPhase::Requesting, DownloadEvent::ResponseFailed) => (
                DownloadSession { phase: DownloadPhase::Failed, ..s },
                DownloadStep::Fail { remove_temp: false },
            ),
            (DownloadPhase::Streaming, DownloadEvent::Chunk { len }) => (
                DownloadSession {
                    received_bytes: if s.received_bytes + len > u64::MAX {
                        u64::MAX
                    } else {
                        (s.received_bytes + len) as u64
                    },
                    ..s
                },
                DownloadStep::Continue,
            ),
            (DownloadPhase::Streaming, DownloadEvent::StreamFailed) => (
                DownloadSession { phase: DownloadPhase::Failed, ..s },
                DownloadStep::Fail { remove_temp: false },
            ),
            (DownloadPhase::Streaming, DownloadEvent::StreamEnded) => if s.verify
                == VerifyMethod::Unverified {
                after_verify(s)
            } else {
                (
                    DownloadSession { phase: DownloadPhase::Verifying, ..s },
                    DownloadStep::VerifyDigest,
                )
            },
            (DownloadPhase::Verifying, DownloadEvent::Verified) => after_verify(s),
            (DownloadPhase::Verifying, DownloadEvent::VerifyFailed) => (
                DownloadSession { phase: DownloadPhase::Failed, temp_exists: false, ..s },
                DownloadStep::Fail { remove_temp: true },
            ),
            (DownloadPhase::Decompressing, DownloadEvent::Decompressed) => (
                DownloadSession { phase: DownloadPhase::Done, temp_exists: false, ..s },
                DownloadStep::Finish { remove_temp: s.temp_exists },
            ),
            (DownloadPhase::Decompressing, DownloadEvent::DecompressFailed) => (
                DownloadSession { phase: DownloadPhase::Failed, ..s },
                DownloadStep::Fail { remove_temp: false },
            ),
            (DownloadPhase::Moving, DownloadEvent::Moved) => (
                DownloadSession {
                    phase: DownloadPhase::Done,
                    temp_exists: false,
                    output_exists: true,
                    ..s
                },
                DownloadStep::Finish { remove_temp: false },
            ),
            (DownloadPhase::Moving, DownloadEvent::MoveFailed) => (
                DownloadSession { phase: DownloadPhase::Failed, ..s },
                DownloadStep::Fail { remove_temp: false },
            ),
            _ => (s, DownloadStep::Ignore),
        }
    }
}

} // verus!

verus! {

fn settle_verify(s: &mut DownloadSession) -> (r: DownloadStep)
    ensures
        (*final(s), r) == after_verify(*old(s)),
{
    if s.decompress {
        s.phase = DownloadPhase::Decompressing;
        s.output_exists = true;
        DownloadStep::Decompress
    } else {
        s.phase = DownloadPhase::Moving;
        DownloadStep::MoveTemp
    }
}

fn fail(s: &mut DownloadSession, remove_temp: bool) -> (r: DownloadStep)
    ensures
        *final(s) == (DownloadSession { phase: DownloadPhase::Failed, ..*old(s) }),
        r == (DownloadStep::Fail { remove_temp }),
{
    s.phase = DownloadPhase::Failed;
    DownloadStep::Fail { remove_temp }
}

impl DownloadSession {
    pub fn is_terminal(&self) -> (r: bool)
        ensures
            r == terminal(self.phase),
    {
        match self.phase {
            DownloadPhase::Done | DownloadPhase::Failed | DownloadPhase::Cancelled => true,
            _ => false,
        }
    }

    /// Takes one event and says what to do next.
    pub fn handle(&mut self, e: DownloadEvent) -> (r: DownloadStep)
        ensures
            (*final(self), r) == download_next(*old(self), e),
    {
        if self.is_terminal() {
            return DownloadStep::Ignore;
        }
        if let DownloadEvent::Cancel = e {
            let step = DownloadStep::Stop {
                remove_temp: self.temp_exists,
                remove_output: self.output_exists,
            };
            self.phase = DownloadPhase::Cancelled;
            self.temp_exists = false;
            self.output_exists = false;
            return step;
        }
        match (self.phase, e) {
            (DownloadPhase::CheckingCache, DownloadEvent::CacheHit) => {
                self.phase = DownloadPhase::Done;
                DownloadStep::ReturnCached
            },
            (DownloadPhase::CheckingCache, DownloadEvent::CacheMiss) => {
                self.phase = DownloadPhase::Requesting;
                self.requested = true;
                DownloadStep::SendRequest
            },
            (DownloadPhase::Requesting, DownloadEvent::ResponseOk { content_length }) => {
                self.phase = DownloadPhase::Streaming;
                self.temp_exists = true;
                self.total_bytes = content_length;
                DownloadStep::ReceiveBody
            },
            (DownloadPhase::Requesting, DownloadEvent::ResponseFailed) => fail(self, false),
            (DownloadPhase::Streaming, DownloadEvent::Chunk { len }) => {
                self.received_bytes = self.received_bytes.saturating_add(len);
                DownloadStep::Continue
            },
            (DownloadPhase::Streaming, DownloadEvent::StreamFailed) => fail(self, false),
            (DownloadPhase::Streaming, DownloadEvent::StreamEnded) => {
                if let VerifyMethod::Unverified = self.verify {
                    settle_verify(self)
                } else {
                    self.phase = DownloadPhase::Verifying;
                    DownloadStep::VerifyDigest
                }
            },
            (DownloadPhase::Verifying, DownloadEvent::Verified) => settle_verify(self),
            (DownloadPhase::Verifying, DownloadEvent::VerifyFailed) => {
                self.temp_exists = false;
                fail(self, true)
            },
            (DownloadPhase::Decompressing, DownloadEvent::Decompressed) => {
                let remove_temp = self.temp_exists;
                self.phase = DownloadPhase::Done;
                self.temp_exists = false;
                DownloadStep::Finish { remove_temp }
            },
            (DownloadPhase::Decompressing, DownloadEvent::DecompressFailed) => fail(self, false),
            (DownloadPhase::Moving, DownloadEvent::Moved) => {
                self.phase = DownloadPhase::Done;
                self.temp_exists = false;
                self.output_exists = true;
                DownloadStep::Finish { remove_temp: false }
            },
            (DownloadPhase::Moving, DownloadEvent::MoveFailed) => fail(self, false),
            _ => DownloadStep::Ignore,
        }
    }
}

/// Every transition keeps a session's files consistent with its phase.
pub proof fn lemma_download_next_wf(s: DownloadSession, e: DownloadEvent)
    requires
        s.wf(),
    ensures
        download_next(s, e).0.wf(),
{
}

/// Cancelling a download or a decompression that is under way removes the
/// partial download and the partial output, and leaves neither behind;
/// cancelling again changes nothing.
pub proof fn lemma_cancel_cleans_up(s: DownloadSession)
    requires
        s.wf(),
        !terminal(s.phase),
    ensures
        download_next(s, DownloadEvent::Cancel).0.phase == DownloadPhase::Cancelled,
        !download_next(s, DownloadEvent::Cancel).0.temp_exists,
        !download_next(s, DownloadEvent::Cancel).0.output_exists,
        download_next(s, DownloadEvent::Cancel).1 == (DownloadStep::Stop {
            remove_temp: s.temp_exists,
            remove_output: s.output_exists,
        }),
        download_next(download_next(s, DownloadEvent::Cancel).0, DownloadEvent::Cancel) == (
            download_next(s, DownloadEvent::Cancel).0,
            DownloadStep::Ignore,
        ),
{
}

/// A download whose image is in the cache hands back the cached file and
/// never sends a request, whatever is reported afterwards.
pub proof fn lemma_cache_hit_sends_nothing(s: DownloadSession, later: DownloadEvent)
    requires
        s.wf(),
        s.phase == DownloadPhase::CheckingCache,
    ensures
        download_next(s, DownloadEvent::CacheHit).1 == DownloadStep::ReturnCached,
        download_next(s, DownloadEvent::CacheHit).0.phase == DownloadPhase::Done,
        !download_next(s, DownloadEvent::CacheHit).0.requested,
        download_next(download_next(s, DownloadEvent::CacheHit).0, later) == (
            download_next(s, DownloadEvent::CacheHit).0,
            DownloadStep::Ignore,
        ),
{
}

} // verus!
