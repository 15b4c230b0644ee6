use vstd::prelude::*;
use vstd::pervasive::VecAdditionalExecFns;

use crate::client::verify::{spec_verify_digest, verify_digest, VerifyStatus};
use crate::client::{DownloadOutput, DownloadResult, Reporter};
use crate::error::DownloadError;
use crate::manifest::ManifestFile;

verus! {

/// One remote file to fetch: source URL, destination path relative to the
/// download root, and optional integrity and size hints.
#[derive(Debug)]
pub struct DownloadData {
    pub url: String,
    pub file_name: String,
    pub output_path: String,
    pub sha1: String,
    pub total_size: u64,
}

impl Clone for DownloadData {
    fn clone(&self) -> (res: Self)
        ensures
            res == *self,
    {
        DownloadData {
            url: self.url.clone(),
            file_name: self.file_name.clone(),
            output_path: self.output_path.clone(),
            sha1: self.sha1.clone(),
            total_size: self.total_size,
        }
    }
}

/// The component of a path after its last separator.
pub open spec fn spec_tail_component(p: Seq<char>) -> Seq<char>
    decreases p.len(),
{
    if p.len() == 0 {
        Seq::empty()
    } else if p.last() == '/' {
        Seq::empty()
    } else {
        spec_tail_component(p.drop_last()).push(p.last())
    }
}

/// The file name a path carries: the component after the last separator,
/// or `None` when that component is empty or a dot component.
pub open spec fn spec_path_file_name(p: Seq<char>) -> Option<Seq<char>> {
    let tail = spec_tail_component(p);
    if tail.len() == 0 || tail == "."@ || tail == ".."@ {
        None
    } else {
        Some(tail)
    }
}

proof fn lemma_tail_component(p: Seq<char>, j: int)
    requires
        -1 <= j < p.len(),
        j >= 0 ==> p[j] == '/',
        forall|k: int| j < k < p.len() ==> p[k] != '/',
    ensures
        spec_tail_component(p) == p.subrange(j + 1, p.len() as int),
    decreases p.len(),
{
    if p.len() == 0 {
        assert(spec_tail_component(p) =~= p.subrange(j + 1, p.len() as int));
    } else if j == p.len() - 1 {
        assert(spec_tail_component(p) =~= p.subrange(j + 1, p.len() as int));
    } else {
        assert(p[p.len() - 1] != '/');
        lemma_tail_component(p.drop_last(), j);
        assert(spec_tail_component(p.drop_last()).push(p.last()) =~= p.subrange(
            j + 1,
            p.len() as int,
        ));
    }
}

/// The file-name component of a path, or `None` when it has none.
pub fn path_file_name(p: &str) -> (r: Option<String>)
    ensures
        match r {
            Some(s) => spec_path_file_name(p@) is Some && s@ == spec_path_file_name(p@)->Some_0,
            None => spec_path_file_name(p@) is None,
        },
{
    proof {
        reveal_strlit(".");
        reveal_strlit("..");
    }
    let n = p.unicode_len();
    let mut idx: usize = 0;
    let mut found = false;
    let mut i: usize = 0;
    while i < n
        invariant
            n == p@.len(),
            i <= n,
            found ==> idx < i && p@[idx as int] == '/' && (forall|k: int|
                idx < k < i ==> p@[k] != '/'),
            !found ==> forall|k: int| 0 <= k < i ==> p@[k] != '/',
        decreases n - i,
    {
        if p.get_char(i) == '/' {
            idx = i;
            found = true;
        }
        i += 1;
    }
    let start = if found {
        idx + 1
    } else {
        0
    };
    proof {
        lemma_tail_component(
            p@,
            if found {
                idx as int
            } else {
                -1
            },
        );
    }
    let tail = p.substring_char(start, n);
    let tail_len = tail.unicode_len();
    if tail_len == 0 {
        return None;
    }
    if tail_len == 1 && tail.get_char(0) == '.' {
        proof {
            assert(tail@ =~= "."@);
        }
        return None;
    }
    if tail_len == 2 && tail.get_char(0) == '.' && tail.get_char(1) == '.' {
        proof {
            assert(tail@ =~= ".."@);
        }
        return None;
    }
    proof {
        assert(tail@ != "."@);
        assert(tail@ != ".."@);
    }
    Some(tail.to_owned())
}

/// The last path segment of a URL, if it parses and carries segments at
/// all; fixed by the URL string alone.
pub uninterp spec fn url_last_segment_of(url: Seq<char>) -> Option<Seq<char>>;

/// Relies on `reqwest::Url::parse` and `Url::path_segments`: the last
/// path segment of a URL. Parsing is a function of the URL string
/// alone; `None` comes back when the URL does not parse or carries no
/// path segments.
#[verifier::external_body]
fn url_last_segment(url: &str) -> (r: Option<String>)
    ensures
        r is Some <==> url_last_segment_of(url@) is Some,
        r matches Some(s) ==> s@ == url_last_segment_of(url@)->Some_0,
{
    let parsed = match reqwest::Url::parse(url) {
        Ok(u) => u,
        Err(_) => return None,
    };
    parsed.path_segments().and_then(|segments| segments.last()).map(|s| s.to_owned())
}

/// The file name a URL points at: the file-name component of its last
/// path segment. A URL segment holds no separator, so this is what
/// `Path::file_name` yields on that segment.
pub open spec fn spec_url_file_name(url: Seq<char>) -> Option<Seq<char>> {
    match url_last_segment_of(url) {
        Some(segment) => spec_path_file_name(segment),
        None => None,
    }
}

fn url_file_name(url: &str) -> (r: Option<String>)
    ensures
        match r {
            Some(s) => spec_url_file_name(url@) is Some && s@ == spec_url_file_name(url@)->Some_0,
            None => spec_url_file_name(url@) is None,
        },
{
    match url_last_segment(url) {
        Some(segment) => path_file_name(segment.as_str()),
        None => None,
    }
}

impl DownloadData {
    /// A descriptor for `url`, written to `path`, with no checksum and an
    /// unknown size. The URL must carry a file-name component.
    pub fn new(url: &str, path: &str) -> (r: Self)
        requires
            spec_url_file_name(url@) is Some,
        ensures
            r.url@ == url@,
            r.file_name@ == spec_url_file_name(url@)->Some_0,
            r.output_path@ == path@,
            r.sha1@ == Seq::<char>::empty(),
            r.total_size == 0,
    {
        let file_name = match url_file_name(url) {
            Some(name) => name,
            None => String::new(),
        };
        DownloadData {
            url: url.to_owned(),
            file_name,
            output_path: path.to_owned(),
            sha1: String::new(),
            total_size: 0,
        }
    }

    /// Like [`DownloadData::new`], with the URL checked first: `None`
    /// when it carries no file-name component.
    pub fn try_new(url: &str, path: &str) -> (r: Option<Self>)
        ensures
            match r {
                Some(d) => {
                    &&& spec_url_file_name(url@) is Some
                    &&& d.url@ == url@
                    &&& d.file_name@ == spec_url_file_name(url@)->Some_0
                    &&& d.output_path@ == path@
                    &&& d.sha1@ == Seq::<char>::empty()
                    &&& d.total_size == 0
                },
                None => spec_url_file_name(url@) is None,
            },
    {
        match url_file_name(url) {
            Some(_) => Some(Self::new(url, path)),
            None => None,
        }
    }

    /// A descriptor built from a manifest entry; `None` when its URL
    /// carries no file-name component. A missing manifest path stands in
    /// as the empty output path.
    pub fn from_manifest_file(manifest: &ManifestFile) -> (r: Option<Self>)
        ensures
            match r {
                Some(d) => {
                    &&& spec_url_file_name(manifest.url@) is Some
                    &&& d.url@ == manifest.url@
                    &&& d.file_name@ == spec_url_file_name(manifest.url@)->Some_0
                    &&& d.output_path@ == (match manifest.path {
                        Some(p) => p@,
                        None => Seq::<char>::empty(),
                    })
                    &&& d.sha1@ == manifest.sha1@
                    &&& d.total_size == manifest.size
                },
                None => spec_url_file_name(manifest.url@) is None,
            },
    {
        match url_file_name(manifest.url.as_str()) {
            Some(file_name) => Some(
                DownloadData {
                    url: manifest.url.clone(),
                    file_name,
                    output_path: match &manifest.path {
                        Some(p) => p.clone(),
                        None => String::new(),
                    },
                    sha1: manifest.sha1.clone(),
                    total_size: manifest.size,
                },
            ),
            None => None,
        }
    }
}

/// Unix path joining, the way `PathBuf::push` behaves: an absolute second
/// component replaces the root, and an empty root adds no separator.
pub open spec fn spec_join_path(root: Seq<char>, rel: Seq<char>) -> Seq<char> {
    if rel.len() > 0 && rel[0] == '/' {
        rel
    } else if root.len() == 0 {
        rel
    } else {
        root + seq!['/'] + rel
    }
}

/// Join a root directory and a path below it.
pub fn join_path(root: &str, rel: &str) -> (r: String)
    ensures
        r@ == spec_join_path(root@, rel@),
{
    if rel.unicode_len() > 0 && rel.get_char(0) == '/' {
        return rel.to_owned();
    }
    if root.unicode_len() == 0 {
        return rel.to_owned();
    }
    let mut s = root.to_owned();
    s.append("/");
    s.append(rel);
    proof {
        reveal_strlit("/");
        assert(s@ =~= spec_join_path(root@, rel@));
    }
    s
}

/// Shared HTTP client settings: timeouts in seconds and the user agent
/// the client identifies itself with.
pub struct HttpSettings {
    pub connect_timeout_secs: u64,
    pub total_timeout_secs: u64,
    pub user_agent: String,
}

impl Clone for HttpSettings {
    fn clone(&self) -> (res: Self)
        ensures
            res == *self,
    {
        HttpSettings {
            connect_timeout_secs: self.connect_timeout_secs,
            total_timeout_secs: self.total_timeout_secs,
            user_agent: self.user_agent.clone(),
        }
    }
}

/// Configuration of one download batch: the descriptors, the concurrency
/// bound, the attempt budget per descriptor, and the download root.
pub struct DownloaderService {
    pub settings: HttpSettings,
    pub downloads: Vec<DownloadData>,
    pub parallel_requests: u16,
    pub retries: u16,
    pub download_folder: String,
}

impl Default for DownloaderService {
    /// 32 parallel requests, 3 attempts per descriptor, a 30 s connect
    /// and 300 s total timeout.
    fn default() -> (res: Self)
        ensures
            res.settings.connect_timeout_secs == 30,
            res.settings.total_timeout_secs == 300,
            res.settings.user_agent@ == "mc_downloader/0.1.0"@,
            res.downloads@ == Seq::<DownloadData>::empty(),
            res.parallel_requests == 32,
            res.retries == 3,
            res.download_folder@ == Seq::<char>::empty(),
    {
        let downloads: Vec<DownloadData> = Vec::new();
        proof {
            assert(downloads@ =~= Seq::<DownloadData>::empty());
        }
        DownloaderService {
            settings: HttpSettings {
                connect_timeout_secs: 30,
                total_timeout_secs: 300,
                user_agent: "mc_downloader/0.1.0".to_owned(),
            },
            downloads,
            parallel_requests: 32,
            retries: 3,
            download_folder: String::new(),
        }
    }
}

impl DownloaderService {
    /// A default service writing below `download_folder`.
    pub fn new(download_folder: &str) -> (res: Self)
        ensures
            res.settings.connect_timeout_secs == 30,
            res.settings.total_timeout_secs == 300,
            res.settings.user_agent@ == "mc_downloader/0.1.0"@,
            res.downloads@ == Seq::<DownloadData>::empty(),
            res.parallel_requests == 32,
            res.retries == 3,
            res.download_folder@ == download_folder@,
    {
        let mut res = Self::default();
        res.download_folder = download_folder.to_owned();
        res
    }

    pub fn with_settings(&mut self, settings: HttpSettings) -> (ret: &mut Self)
        ensures
            *ret == (DownloaderService { settings: settings, ..*old(self) }),
            *final(self) == *final(ret),
    {
        self.settings = settings;
        self
    }

    pub fn with_downloads(&mut self, downloads: Vec<DownloadData>) -> (ret: &mut Self)
        ensures
            *ret == (DownloaderService { downloads: downloads, ..*old(self) }),
            *final(self) == *final(ret),
    {
        self.downloads = downloads;
        self
    }

    pub fn with_parallel_requests(&mut self, parallel_requests: u16) -> (ret: &mut Self)
        ensures
            *ret == (DownloaderService { parallel_requests: parallel_requests, ..*old(self) }),
            *final(self) == *final(ret),
    {
        self.parallel_requests = parallel_requests;
        self
    }

    pub fn with_retries(&mut self, retries: u16) -> (ret: &mut Self)
        ensures
            *ret == (DownloaderService { retries: retries, ..*old(self) }),
            *final(self) == *final(ret),
    {
        self.retries = retries;
        self
    }

    pub fn with_download_folder(&mut self, download_folder: String) -> (ret: &mut Self)
        ensures
            *ret == (DownloaderService { download_folder: download_folder, ..*old(self) }),
            *final(self) == *final(ret),
    {
        self.download_folder = download_folder;
        self
    }
}

/// Classification of a final HTTP status, deciding the attempt loop.
#[derive(Clone, Copy, Debug, PartialEq, Eq, Structural)]
pub enum StatusClass {
    /// 2xx: the download succeeded.
    Success,
    /// 5xx: the loop aborts at once, with no further attempt.
    ServerError,
    /// Anything else consumes one attempt of the budget.
    Retryable,
}

pub open spec fn spec_classify(status: u16) -> StatusClass {
    if 200 <= status && status < 300 {
        StatusClass::Success
    } else if 500 <= status && status < 600 {
        StatusClass::ServerError
    } else {
        StatusClass::Retryable
    }
}

/// Classify a final HTTP status.
pub fn classify_status(status: u16) -> (c: StatusClass)
    ensures
        c == spec_classify(status),
{
    if 200 <= status && status < 300 {
        StatusClass::Success
    } else if 500 <= status && status < 600 {
        StatusClass::ServerError
    } else {
        StatusClass::Retryable
    }
}

/// One call delivered to the progress sink.
pub enum SinkEvent {
    Setup(u64),
    Progress(u64),
    Done,
}

/// Where a batch stands in the sink-call protocol.
#[derive(Clone, Copy, Debug, PartialEq, Eq, Structural)]
pub enum SinkPhase {
    NotStarted,
    Active,
    Closed,
}

/// The shape a delivered call history has in each phase: nothing before
/// `setup`; one `Setup` first, then only `Progress` calls while active;
/// one closing `Done`. Without a sink no call is delivered.
pub open spec fn history_matches_phase(h: Seq<SinkEvent>, phase: SinkPhase, has_sink: bool) -> bool {
    if !has_sink {
        h.len() == 0
    } else {
        match phase {
            SinkPhase::NotStarted => h.len() == 0,
            SinkPhase::Active => {
                &&& h.len() >= 1
                &&& h[0] is Setup
                &&& forall|i: int| 1 <= i < h.len() ==> h[i] is Progress
            },
            SinkPhase::Closed => {
                &&& h.len() >= 2
                &&& h[0] is Setup
                &&& h[h.len() - 1] is Done
                &&& forall|i: int| 1 <= i < h.len() - 1 ==> h[i] is Progress
            },
        }
    }
}

/// The progress sink of one batch, with the call protocol enforced: the
/// phase orders `setup`, `progress` and `done`, and the ghost history
/// records every call delivered to the sink.
pub struct ProgressChannel<R: Reporter> {
    sink: Option<R>,
    phase: SinkPhase,
    history: Ghost<Seq<SinkEvent>>,
}

impl<R: Reporter> ProgressChannel<R> {
    pub closed spec fn phase(self) -> SinkPhase {
        self.phase
    }

    pub closed spec fn history(self) -> Seq<SinkEvent> {
        self.history@
    }

    pub closed spec fn has_sink(self) -> bool {
        self.sink is Some
    }

    pub open spec fn wf(self) -> bool {
        history_matches_phase(self.history(), self.phase(), self.has_sink())
    }

    pub fn new(sink: Option<R>) -> (r: Self)
        ensures
            r.wf(),
            r.phase() == SinkPhase::NotStarted,
            r.history() == Seq::<SinkEvent>::empty(),
            r.has_sink() == (sink is Some),
    {
        ProgressChannel { sink, phase: SinkPhase::NotStarted, history: Ghost(Seq::empty()) }
    }

    /// Deliver `setup(total)`: the opening call of the protocol.
    pub fn send_setup(&mut self, total: u64)
        requires
            old(self).wf(),
            old(self).phase() == SinkPhase::NotStarted,
        ensures
            final(self).wf(),
            final(self).phase() == SinkPhase::Active,
            final(self).has_sink() == old(self).has_sink(),
            final(self).history() == (if old(self).has_sink() {
                old(self).history().push(SinkEvent::Setup(total))
            } else {
                old(self).history()
            }),
    {
        match &self.sink {
            Some(s) => {
                s.setup(total);
                self.history = Ghost(self.history@.push(SinkEvent::Setup(total)));
            },
            None => {},
        }
        self.phase = SinkPhase::Active;
    }

    /// Deliver `progress(delta)`; only between `setup` and `done`.
    pub fn send_progress(&mut self, delta: u64)
        requires
            old(self).wf(),
            old(self).phase() == SinkPhase::Active,
        ensures
            final(self).wf(),
            final(self).phase() == SinkPhase::Active,
            final(self).has_sink() == old(self).has_sink(),
            final(self).history() == (if old(self).has_sink() {
                old(self).history().push(SinkEvent::Progress(delta))
            } else {
                old(self).history()
            }),
    {
        match &self.sink {
            Some(s) => {
                s.progress(delta);
                self.history = Ghost(self.history@.push(SinkEvent::Progress(delta)));
            },
            None => {},
        }
    }

    /// Deliver `done`: the closing call of the protocol.
    pub fn send_done(&mut self)
        requires
            old(self).wf(),
            old(self).phase() == SinkPhase::Active,
        ensures
            final(self).wf(),
            final(self).phase() == SinkPhase::Closed,
            final(self).has_sink() == old(self).has_sink(),
            final(self).history() == (if old(self).has_sink() {
                old(self).history().push(SinkEvent::Done)
            } else {
                old(self).history()
            }),
    {
        match &self.sink {
            Some(s) => {
                s.done();
                self.history = Ghost(self.history@.push(SinkEvent::Done));
            },
            None => {},
        }
        self.phase = SinkPhase::Closed;
    }
}

/// Law: a closed batch delivered `setup` exactly once, as the very first
/// call; `done` exactly once, as the very last; every call in between
/// reported progress. A batch without a sink delivered no call at all.
pub proof fn lemma_sink_protocol(h: Seq<SinkEvent>, has_sink: bool)
    requires
        history_matches_phase(h, SinkPhase::Closed, has_sink),
    ensures
        has_sink ==> h.len() >= 2,
        has_sink ==> h[0] is Setup,
        has_sink ==> h[h.len() - 1] is Done,
        has_sink ==> forall|i: int| 0 <= i < h.len() ==> (h[i] is Setup <==> i == 0),
        has_sink ==> forall|i: int| 0 <= i < h.len() ==> (h[i] is Done <==> i == h.len() - 1),
        !has_sink ==> h.len() == 0,
{
}

/// Per-descriptor state of the fetch loop.
pub enum SlotState {
    /// Not yet admitted to the pool.
    Pending,
    /// Admitted; the destination is being prepared.
    Preparing,
    /// Attempt number `attempt` of the budget is underway.
    Fetching { attempt: u16 },
    /// A successful response arrived; the file's digest is awaited.
    Verifying { status: u16 },
    /// Terminal: the outcome the batch will return for this descriptor.
    Finished(DownloadResult),
}

/// What the driver of a batch is to do next for a descriptor.
#[derive(Clone, Copy, Debug, PartialEq, Eq, Structural)]
pub enum AttemptDirective {
    /// Spend another attempt on the same descriptor.
    Retry,
    /// Hash the written file and report its digest.
    Verify,
    /// The descriptor reached a terminal state.
    Closed,
}

/// The outcome record of a descriptor that stopped with `status`.
pub open spec fn spec_outcome(status: u16, d: DownloadData, verified: VerifyStatus) -> DownloadOutput {
    DownloadOutput { status, file_name: d.file_name, file_path: d.output_path, verified }
}

/// How one final status steps the fetch loop: success leaves it (either
/// closing at once or awaiting verification), a server error aborts it at
/// once, anything else spends one attempt of the budget.
pub open spec fn spec_attempt_step(
    slot: SlotState,
    d: DownloadData,
    status: u16,
    max_attempts: u16,
) -> SlotState
    recommends
        slot is Fetching,
{
    match spec_classify(status) {
        StatusClass::Success => if d.sha1@.len() == 0 {
            SlotState::Finished(Ok(spec_outcome(status, d, VerifyStatus::Passed)))
        } else {
            SlotState::Verifying { status }
        },
        StatusClass::ServerError => SlotState::Finished(
            Err(DownloadError::Download(spec_outcome(status, d, VerifyStatus::NotVerified))),
        ),
        StatusClass::Retryable => if slot->Fetching_attempt < max_attempts {
            SlotState::Fetching { attempt: (slot->Fetching_attempt + 1) as u16 }
        } else {
            SlotState::Finished(
                Err(DownloadError::Download(spec_outcome(status, d, VerifyStatus::NotVerified))),
            )
        },
    }
}

/// The directive handed to the driver alongside [`spec_attempt_step`].
pub open spec fn spec_attempt_directive(
    slot: SlotState,
    d: DownloadData,
    status: u16,
    max_attempts: u16,
) -> AttemptDirective {
    match spec_classify(status) {
        StatusClass::Success => if d.sha1@.len() == 0 {
            AttemptDirective::Closed
        } else {
            AttemptDirective::Verify
        },
        StatusClass::ServerError => AttemptDirective::Closed,
        StatusClass::Retryable => if slot->Fetching_attempt < max_attempts {
            AttemptDirective::Retry
        } else {
            AttemptDirective::Closed
        },
    }
}

/// How the digest the driver reports resolves verification: an unreadable
/// file fails it; otherwise the hex strings are compared ignoring case.
pub open spec fn spec_digest_outcome(expected: Seq<char>, digest_hex: Option<Seq<char>>) -> VerifyStatus {
    match digest_hex {
        Some(h) => spec_verify_digest(expected, h),
        None => VerifyStatus::Failed,
    }
}

/// The terminal state verification leads to: a successful outcome in
/// every case, with only the flag recording a mismatch.
pub open spec fn spec_digest_step(status: u16, d: DownloadData, digest_hex: Option<Seq<char>>) -> SlotState {
    SlotState::Finished(Ok(spec_outcome(status, d, spec_digest_outcome(d.sha1@, digest_hex))))
}

pub open spec fn is_active(s: SlotState) -> bool {
    s is Preparing || s is Fetching || s is Verifying
}

/// How many descriptors are admitted and not yet terminal.
pub open spec fn count_active(s: Seq<SlotState>) -> int
    decreases s.len(),
{
    if s.len() == 0 {
        0
    } else {
        count_active(s.drop_last()) + (if is_active(s.last()) {
            1int
        } else {
            0int
        })
    }
}

/// What a terminal outcome says of its descriptor.
pub open spec fn result_wf(r: DownloadResult, d: DownloadData, max_attempts: u16) -> bool {
    match r {
        Ok(out) => {
            &&& out.file_name == d.file_name
            &&& out.file_path == d.output_path
            &&& spec_classify(out.status) is Success
            &&& out.verified != VerifyStatus::NotVerified
            &&& d.sha1@.len() == 0 ==> out.verified == VerifyStatus::Passed
        },
        Err(e) => match e {
            DownloadError::Setup(_) => true,
            DownloadError::Download(out) => {
                &&& out.file_name == d.file_name
                &&& out.file_path == d.output_path
                &&& out.verified == VerifyStatus::NotVerified
                &&& max_attempts >= 1 ==> !(spec_classify(out.status) is Success)
            },
            _ => false,
        },
    }
}

pub open spec fn slot_wf(s: SlotState, d: DownloadData, max_attempts: u16) -> bool {
    match s {
        SlotState::Pending => true,
        SlotState::Preparing => true,
        SlotState::Fetching { attempt } => 1 <= attempt && attempt <= max_attempts,
        SlotState::Verifying { status } => spec_classify(status) is Success && d.sha1@.len() > 0,
        SlotState::Finished(r) => result_wf(r, d, max_attempts),
    }
}

pub open spec fn spec_all_finished(s: Seq<SlotState>) -> bool {
    forall|i: int| 0 <= i < s.len() ==> (#[trigger] s[i]) is Finished
}

proof fn lemma_count_active_update(s: Seq<SlotState>, i: int, v: SlotState)
    requires
        0 <= i < s.len(),
    ensures
        count_active(s.update(i, v)) == count_active(s) - (if is_active(s[i]) {
            1int
        } else {
            0int
        }) + (if is_active(v) {
            1int
        } else {
            0int
        }),
    decreases s.len(),
{
    let t = s.update(i, v);
    if i == s.len() - 1 {
        assert(t.drop_last() =~= s.drop_last());
    } else {
        assert(t.drop_last() =~= s.drop_last().update(i, v));
        lemma_count_active_update(s.drop_last(), i, v);
        assert(t.last() == s.last());
    }
}

proof fn lemma_count_active_none(s: Seq<SlotState>)
    requires
        forall|i: int| 0 <= i < s.len() ==> !is_active(#[trigger] s[i]),
    ensures
        count_active(s) == 0,
    decreases s.len(),
{
    if s.len() > 0 {
        assert(!is_active(s[s.len() - 1]));
        lemma_count_active_none(s.drop_last());
    }
}

proof fn lemma_count_active_bounds(s: Seq<SlotState>)
    ensures
        0 <= count_active(s) <= s.len(),
    decreases s.len(),
{
    if s.len() > 0 {
        lemma_count_active_bounds(s.drop_last());
    }
}

proof fn lemma_count_active_at_least_one(s: Seq<SlotState>, i: int)
    requires
        0 <= i < s.len(),
        is_active(s[i]),
    ensures
        count_active(s) >= 1,
{
    lemma_count_active_update(s, i, SlotState::Pending);
    lemma_count_active_bounds(s.update(i, SlotState::Pending));
}

proof fn lemma_count_active_pos(s: Seq<SlotState>)
    requires
        count_active(s) > 0,
    ensures
        exists|i: int| 0 <= i < s.len() && is_active(#[trigger] s[i]),
    decreases s.len(),
{
    if s.len() > 0 {
        if is_active(s.last()) {
            assert(is_active(s[s.len() - 1]));
        } else {
            lemma_count_active_pos(s.drop_last());
            let i = choose|i: int| 0 <= i < s.drop_last().len() && is_active(#[trigger] s.drop_last()[i]);
            assert(is_active(s[i]));
        }
    }
}

/// The advisory total of a descriptor list: the sum of its sizes.
pub open spec fn spec_total_size(s: Seq<DownloadData>) -> int
    decreases s.len(),
{
    if s.len() == 0 {
        0
    } else {
        spec_total_size(s.drop_last()) + s.last().total_size
    }
}

proof fn lemma_total_size_step(s: Seq<DownloadData>, i: int)
    requires
        0 <= i < s.len(),
    ensures
        spec_total_size(s.take(i + 1)) == spec_total_size(s.take(i)) + s[i].total_size,
{
    assert(s.take(i + 1).drop_last() =~= s.take(i));
    assert(s.take(i + 1).last() == s[i]);
}

proof fn lemma_total_size_mono(s: Seq<DownloadData>, i: int)
    requires
        0 <= i <= s.len(),
    ensures
        spec_total_size(s.take(i)) <= spec_total_size(s),
    decreases s.len() - i,
{
    if i == s.len() {
        assert(s.take(i) =~= s);
    } else {
        lemma_total_size_step(s, i);
        lemma_total_size_mono(s, i + 1);
    }
}

/// The advisory total used for `setup`; `None` when it exceeds `u64`.
pub fn total_expected_size(downloads: &Vec<DownloadData>) -> (r: Option<u64>)
    ensures
        match r {
            Some(t) => t == spec_total_size(downloads@),
            None => spec_total_size(downloads@) > u64::MAX,
        },
{
    let mut total: u64 = 0;
    let mut i: usize = 0;
    proof {
        assert(downloads@.take(0) =~= Seq::<DownloadData>::empty());
    }
    while i < downloads.len()
        invariant
            i <= downloads@.len(),
            total == spec_total_size(downloads@.take(i as int)),
        decreases downloads@.len() - i,
    {
        let size = downloads[i].total_size;
        proof {
            lemma_total_size_step(downloads@, i as int);
        }
        if size > u64::MAX - total {
            proof {
                lemma_total_size_mono(downloads@, i as int + 1);
            }
            return None;
        }
        total = total + size;
        i += 1;
    }
    proof {
        assert(downloads@.take(downloads@.len() as int) =~= downloads@);
    }
    Some(total)
}

/// One admitted fetch: which descriptor, its URL, and the absolute
/// destination path below the download root.
pub struct FetchJob {
    pub index: usize,
    pub url: String,
    pub absolute_path: String,
}

/// A running batch: one slot per descriptor, admitted in submission
/// order under the concurrency bound, stepped by the driver's events and
/// closed by [`BatchRun::finish`].
pub struct BatchRun<R: Reporter> {
    downloads: Vec<DownloadData>,
    max_attempts: u16,
    parallelism: u16,
    download_folder: String,
    slots: Vec<SlotState>,
    in_flight: usize,
    next_pending: usize,
    channel: ProgressChannel<R>,
}

impl<R: Reporter> BatchRun<R> {
    pub closed spec fn downloads(self) -> Seq<DownloadData> {
        self.downloads@
    }

    pub closed spec fn slots(self) -> Seq<SlotState> {
        self.slots@
    }

    pub closed spec fn max_attempts(self) -> u16 {
        self.max_attempts
    }

    pub closed spec fn parallelism(self) -> u16 {
        self.parallelism
    }

    pub closed spec fn folder(self) -> Seq<char> {
        self.download_folder@
    }

    pub closed spec fn in_flight(self) -> int {
        self.in_flight as int
    }

    pub closed spec fn next_pending(self) -> int {
        self.next_pending as int
    }

    pub closed spec fn has_sink(self) -> bool {
        self.channel.has_sink()
    }

    pub closed spec fn history(self) -> Seq<SinkEvent> {
        self.channel.history()
    }

    pub closed spec fn sink_phase(self) -> SinkPhase {
        self.channel.phase()
    }

    pub open spec fn wf(self) -> bool {
        &&& self.slots().len() == self.downloads().len()
        &&& 0 <= self.next_pending() <= self.slots().len()
        &&& forall|i: int|
            0 <= i < self.slots().len() ==> ((#[trigger] self.slots()[i]) is Pending <==> i
                >= self.next_pending())
        &&& self.in_flight() == count_active(self.slots())
        &&& self.in_flight() <= self.parallelism()
        &&& forall|i: int|
            0 <= i < self.slots().len() ==> slot_wf(
                #[trigger] self.slots()[i],
                self.downloads()[i],
                self.max_attempts(),
            )
        &&& self.sink_phase() == SinkPhase::Active
        &&& history_matches_phase(self.history(), self.sink_phase(), self.has_sink())
    }

    /// The parts of a batch that its events never change.
    pub open spec fn same_setup(self, other: Self) -> bool {
        &&& self.downloads() == other.downloads()
        &&& self.max_attempts() == other.max_attempts()
        &&& self.parallelism() == other.parallelism()
        &&& self.folder() == other.folder()
        &&& self.has_sink() == other.has_sink()
    }

    /// Admit the next descriptor, when one is waiting and the concurrency
    /// bound leaves room; `None` otherwise.
    pub fn next_job(&mut self) -> (r: Option<FetchJob>)
        requires
            old(self).wf(),
        ensures
            final(self).wf(),
            final(self).same_setup(*old(self)),
            final(self).history() == old(self).history(),
            match r {
                Some(job) => {
                    &&& old(self).next_pending() < old(self).downloads().len()
                    &&& old(self).in_flight() < old(self).parallelism()
                    &&& job.index == old(self).next_pending()
                    &&& job.url == old(self).downloads()[job.index as int].url
                    &&& job.absolute_path@ == spec_join_path(
                        old(self).folder(),
                        old(self).downloads()[job.index as int].output_path@,
                    )
                    &&& final(self).slots() == old(self).slots().update(
                        job.index as int,
                        SlotState::Preparing,
                    )
                    &&& final(self).next_pending() == old(self).next_pending() + 1
                    &&& final(self).in_flight() == old(self).in_flight() + 1
                },
                None => {
                    &&& *final(self) == *old(self)
                    &&& (old(self).next_pending() == old(self).downloads().len() || old(
                        self,
                    ).in_flight() >= old(self).parallelism())
                },
            },
    {
        if self.next_pending < self.slots.len() && self.in_flight < self.parallelism as usize {
            let i = self.next_pending;
            let url = self.downloads[i].url.clone();
            let absolute_path = join_path(
                self.download_folder.as_str(),
                self.downloads[i].output_path.as_str(),
            );
            proof {
                lemma_count_active_update(self.slots@, i as int, SlotState::Preparing);
            }
            self.slots.set(i, SlotState::Preparing);
            self.in_flight = self.in_flight + 1;
            self.next_pending = i + 1;
            Some(FetchJob { index: i, url, absolute_path })
        } else {
            None
        }
    }

    /// The driver could not prepare the destination — directories failed,
    /// or the file already exists: a terminal Setup error for `index`.
    pub fn setup_failed(&mut self, index: usize, message: String)
        requires
            old(self).wf(),
            index < old(self).slots().len(),
            old(self).slots()[index as int] is Preparing,
        ensures
            final(self).wf(),
            final(self).same_setup(*old(self)),
            final(self).history() == old(self).history(),
            final(self).next_pending() == old(self).next_pending(),
            final(self).slots() == old(self).slots().update(
                index as int,
                SlotState::Finished(Err(DownloadError::Setup(message))),
            ),
            final(self).in_flight() == old(self).in_flight() - 1,
    {
        proof {
            lemma_count_active_at_least_one(self.slots@, index as int);
            lemma_count_active_update(
                self.slots@,
                index as int,
                SlotState::Finished(Err(DownloadError::Setup(message))),
            );
        }
        let new_slot = SlotState::Finished(Err(DownloadError::Setup(message)));
        self.slots.set(index, new_slot);
        self.in_flight = self.in_flight - 1;
    }

    /// The destination is ready: begin the attempt loop. With no attempt
    /// budget at all, the descriptor terminates at once as a Download
    /// error carrying the initial OK status, no attempt having been made.
    pub fn opened(&mut self, index: usize) -> (r: AttemptDirective)
        requires
            old(self).wf(),
            index < old(self).slots().len(),
            old(self).slots()[index as int] is Preparing,
        ensures
            final(self).wf(),
            final(self).same_setup(*old(self)),
            final(self).history() == old(self).history(),
            final(self).next_pending() == old(self).next_pending(),
            old(self).max_attempts() >= 1 ==> {
                &&& r == AttemptDirective::Retry
                &&& final(self).slots() == old(self).slots().update(
                    index as int,
                    SlotState::Fetching { attempt: 1 },
                )
                &&& final(self).in_flight() == old(self).in_flight()
            },
            old(self).max_attempts() == 0 ==> {
                &&& r == AttemptDirective::Closed
                &&& final(self).slots() == old(self).slots().update(
                    index as int,
                    SlotState::Finished(
                        Err(
                            DownloadError::Download(
                                spec_outcome(
                                    200,
                                    old(self).downloads()[index as int],
                                    VerifyStatus::NotVerified,
                                ),
                            ),
                        ),
                    ),
                )
                &&& final(self).in_flight() == old(self).in_flight() - 1
            },
    {
        if self.max_attempts >= 1 {
            proof {
                lemma_count_active_update(self.slots@, index as int, SlotState::Fetching { attempt: 1 });
            }
            self.slots.set(index, SlotState::Fetching { attempt: 1 });
            AttemptDirective::Retry
        } else {
            let out = DownloadOutput {
                status: 200,
                file_name: self.downloads[index].file_name.clone(),
                file_path: self.downloads[index].output_path.clone(),
                verified: VerifyStatus::NotVerified,
            };
            let new_slot = SlotState::Finished(Err(DownloadError::Download(out)));
            proof {
                lemma_count_active_at_least_one(self.slots@, index as int);
                lemma_count_active_update(self.slots@, index as int, new_slot);
            }
            self.slots.set(index, new_slot);
            self.in_flight = self.in_flight - 1;
            AttemptDirective::Closed
        }
    }

    /// A chunk was durably written for some descriptor: its length goes
    /// to the sink, cumulatively over the whole batch.
    pub fn chunk_written(&mut self, delta: u64)
        requires
            old(self).wf(),
        ensures
            final(self).wf(),
            final(self).same_setup(*old(self)),
            final(self).slots() == old(self).slots(),
            final(self).next_pending() == old(self).next_pending(),
            final(self).in_flight() == old(self).in_flight(),
            final(self).history() == (if old(self).has_sink() {
                old(self).history().push(SinkEvent::Progress(delta))
            } else {
                old(self).history()
            }),
    {
        self.channel.send_progress(delta);
    }

    /// One attempt ended with final status `status` (the driver renders a
    /// transport failure as 400, the way the HTTP layer reports it).
    pub fn attempt_finished(&mut self, index: usize, status: u16) -> (r: AttemptDirective)
        requires
            old(self).wf(),
            index < old(self).slots().len(),
            old(self).slots()[index as int] is Fetching,
        ensures
            final(self).wf(),
            final(self).same_setup(*old(self)),
            final(self).history() == old(self).history(),
            final(self).next_pending() == old(self).next_pending(),
            final(self).slots() == old(self).slots().update(
                index as int,
                spec_attempt_step(
                    old(self).slots()[index as int],
                    old(self).downloads()[index as int],
                    status,
                    old(self).max_attempts(),
                ),
            ),
            r == spec_attempt_directive(
                old(self).slots()[index as int],
                old(self).downloads()[index as int],
                status,
                old(self).max_attempts(),
            ),
            final(self).in_flight() == old(self).in_flight() - (if spec_attempt_step(
                old(self).slots()[index as int],
                old(self).downloads()[index as int],
                status,
                old(self).max_attempts(),
            ) is Finished {
                1int
            } else {
                0int
            }),
    {
        let attempt: u16 = match &self.slots[index] {
            SlotState::Fetching { attempt } => *attempt,
            _ => 1,
        };
        let class = classify_status(status);
        let sha_empty = self.downloads[index].sha1.as_str().is_empty();
        let file_name = self.downloads[index].file_name.clone();
        let file_path = self.downloads[index].output_path.clone();
        let (new_slot, directive): (SlotState, AttemptDirective) = match class {
            StatusClass::Success => if sha_empty {
                (
                    SlotState::Finished(
                        Ok(
                            DownloadOutput {
                                status,
                                file_name,
                                file_path,
                                verified: VerifyStatus::Passed,
                            },
                        ),
                    ),
                    AttemptDirective::Closed,
                )
            } else {
                (SlotState::Verifying { status }, AttemptDirective::Verify)
            },
            StatusClass::ServerError => (
                SlotState::Finished(
                    Err(
                        DownloadError::Download(
                            DownloadOutput {
                                status,
                                file_name,
                                file_path,
                                verified: VerifyStatus::NotVerified,
                            },
                        ),
                    ),
                ),
                AttemptDirective::Closed,
            ),
            StatusClass::Retryable => if attempt < self.max_attempts {
                (SlotState::Fetching { attempt: attempt + 1 }, AttemptDirective::Retry)
            } else {
                (
                    SlotState::Finished(
                        Err(
                            DownloadError::Download(
                                DownloadOutput {
                                    status,
                                    file_name,
                                    file_path,
                                    verified: VerifyStatus::NotVerified,
                                },
                            ),
                        ),
                    ),
                    AttemptDirective::Closed,
                )
            },
        };
        let closes = match &new_slot {
            SlotState::Finished(_) => true,
            _ => false,
        };
        proof {
            lemma_count_active_at_least_one(self.slots@, index as int);
            lemma_count_active_update(self.slots@, index as int, new_slot);
        }
        self.slots.set(index, new_slot);
        if closes {
            self.in_flight = self.in_flight - 1;
        }
        directive
    }

    /// The driver hashed the written file — or could not read it and
    /// passes `None`: verification resolves and the descriptor closes,
    /// successfully in either case.
    pub fn report_digest(&mut self, index: usize, digest_hex: Option<&str>)
        requires
            old(self).wf(),
            index < old(self).slots().len(),
            old(self).slots()[index as int] is Verifying,
        ensures
            final(self).wf(),
            final(self).same_setup(*old(self)),
            final(self).history() == old(self).history(),
            final(self).next_pending() == old(self).next_pending(),
            final(self).slots() == old(self).slots().update(
                index as int,
                spec_digest_step(
                    old(self).slots()[index as int]->Verifying_status,
                    old(self).downloads()[index as int],
                    match digest_hex {
                        Some(h) => Some(h@),
                        None => None,
                    },
                ),
            ),
            final(self).in_flight() == old(self).in_flight() - 1,
    {
        let status: u16 = match &self.slots[index] {
            SlotState::Verifying { status } => *status,
            _ => 0,
        };
        let verified = match digest_hex {
            Some(h) => verify_digest(self.downloads[index].sha1.as_str(), h),
            None => VerifyStatus::Failed,
        };
        let out = DownloadOutput {
            status,
            file_name: self.downloads[index].file_name.clone(),
            file_path: self.downloads[index].output_path.clone(),
            verified,
        };
        let new_slot = SlotState::Finished(Ok(out));
        proof {
            lemma_count_active_at_least_one(self.slots@, index as int);
            lemma_count_active_update(self.slots@, index as int, new_slot);
        }
        self.slots.set(index, new_slot);
        self.in_flight = self.in_flight - 1;
    }

    /// Whether every descriptor reached a terminal state.
    pub fn is_done(&self) -> (r: bool)
        requires
            self.wf(),
        ensures
            r == spec_all_finished(self.slots()),
    {
        let r = self.next_pending == self.slots.len() && self.in_flight == 0;
        proof {
            if r {
                lemma_count_active_none_inverse(self.slots@);
            } else {
                if self.next_pending < self.slots.len() {
                    assert(self.slots()[self.next_pending() as int] is Pending);
                } else {
                    lemma_count_active_pos(self.slots@);
                }
            }
        }
        r
    }

    /// Close the batch: deliver `done` and hand back one outcome per
    /// descriptor, in submission order, together with the history of
    /// calls the sink received.
    pub fn finish(self) -> (r: (Vec<DownloadResult>, Ghost<Seq<SinkEvent>>))
        requires
            self.wf(),
            spec_all_finished(self.slots()),
        ensures
            r.0@.len() == self.downloads().len(),
            forall|i: int|
                0 <= i < r.0@.len() ==> r.0@[i] == (#[trigger] self.slots()[i])->Finished_0,
            forall|i: int|
                0 <= i < r.0@.len() ==> result_wf(
                    #[trigger] r.0@[i],
                    self.downloads()[i],
                    self.max_attempts(),
                ),
            r.1@ == (if self.has_sink() {
                self.history().push(SinkEvent::Done)
            } else {
                self.history()
            }),
            history_matches_phase(r.1@, SinkPhase::Closed, self.has_sink()),
    {
        let ghost initial_slots = self.slots@;
        let ghost n = self.slots@.len() as int;
        let BatchRun { downloads: _, max_attempts: _, parallelism: _, download_folder: _, slots, in_flight: _, next_pending: _, mut channel } = self;
        channel.send_done();
        let mut slots = slots;
        let mut reversed: Vec<DownloadResult> = Vec::new();
        proof {
            assert(initial_slots.take(n) =~= initial_slots);
        }
        while slots.len() > 0
            invariant
                n == initial_slots.len(),
                slots@ == initial_slots.take(slots@.len() as int),
                slots@.len() + reversed@.len() == n,
                forall|i: int| 0 <= i < n ==> (#[trigger] initial_slots[i]) is Finished,
                forall|j: int|
                    0 <= j < reversed@.len() ==> #[trigger] reversed@[j] == initial_slots[n - 1
                        - j]->Finished_0,
            decreases slots@.len(),
        {
            let ghost k = slots@.len() as int;
            proof {
                assert(slots@[k - 1] == initial_slots[k - 1]);
            }
            match slots.pop() {
                Some(SlotState::Finished(res)) => {
                    reversed.push(res);
                },
                _ => {
                    proof {
                        assert(false);
                    }
                },
            }
            proof {
                assert(slots@ =~= initial_slots.take(slots@.len() as int));
            }
        }
        let mut results: Vec<DownloadResult> = Vec::new();
        while reversed.len() > 0
            invariant
                n == initial_slots.len(),
                results@.len() + reversed@.len() == n,
                forall|j: int|
                    0 <= j < reversed@.len() ==> #[trigger] reversed@[j] == initial_slots[n - 1
                        - j]->Finished_0,
                forall|i: int|
                    0 <= i < results@.len() ==> #[trigger] results@[i] == initial_slots[i]->Finished_0,
            decreases reversed@.len(),
        {
            match reversed.pop() {
                Some(res) => {
                    results.push(res);
                },
                None => {},
            }
        }
        (results, Ghost(channel.history()))
    }
}

impl DownloaderService {
    /// Begin a batch over this service's descriptors: `setup` is
    /// delivered once with the advisory total, every slot starts pending,
    /// and the driver then pumps the returned batch.
    pub fn start<R: Reporter>(&self, sink: Option<R>) -> (r: BatchRun<R>)
        requires
            spec_total_size(self.downloads@) <= u64::MAX,
        ensures
            r.wf(),
            r.downloads() == self.downloads@,
            r.max_attempts() == self.retries,
            r.parallelism() == self.parallel_requests,
            r.folder() == self.download_folder@,
            r.slots().len() == self.downloads@.len(),
            forall|i: int| 0 <= i < r.slots().len() ==> (#[trigger] r.slots()[i]) is Pending,
            r.next_pending() == 0,
            r.in_flight() == 0,
            r.has_sink() == (sink is Some),
            r.history() == (if sink is Some {
                seq![SinkEvent::Setup(spec_total_size(self.downloads@) as u64)]
            } else {
                Seq::<SinkEvent>::empty()
            }),
    {
        let total = match total_expected_size(&self.downloads) {
            Some(t) => t,
            None => 0,
        };
        let mut channel = ProgressChannel::new(sink);
        channel.send_setup(total);
        let downloads = self.downloads.clone();
        proof {
            assert(downloads@ =~= self.downloads@);
        }
        let n = downloads.len();
        let mut slots: Vec<SlotState> = Vec::new();
        let mut k: usize = 0;
        while k < n
            invariant
                k <= n,
                slots@.len() == k,
                forall|i: int| 0 <= i < k ==> (#[trigger] slots@[i]) is Pending,
            decreases n - k,
        {
            slots.push(SlotState::Pending);
            k += 1;
        }
        proof {
            lemma_count_active_none(slots@);
            if sink is Some {
                assert(Seq::<SinkEvent>::empty().push(SinkEvent::Setup(total)) =~= seq![
                    SinkEvent::Setup(total),
                ]);
            }
        }
        BatchRun {
            downloads,
            max_attempts: self.retries,
            parallelism: self.parallel_requests,
            download_folder: self.download_folder.clone(),
            slots,
            in_flight: 0,
            next_pending: 0,
            channel,
        }
    }
}

/// Iterate the attempt loop over a run of final statuses, from `slot`.
pub open spec fn apply_attempts(
    slot: SlotState,
    d: DownloadData,
    max_attempts: u16,
    statuses: Seq<u16>,
) -> SlotState
    decreases statuses.len(),
{
    if statuses.len() == 0 || !(slot is Fetching) {
        slot
    } else {
        apply_attempts(
            spec_attempt_step(slot, d, statuses[0], max_attempts),
            d,
            max_attempts,
            statuses.drop_first(),
        )
    }
}

proof fn lemma_retry_chain(d: DownloadData, max_attempts: u16, statuses: Seq<u16>, attempt: u16)
    requires
        1 <= attempt,
        attempt <= max_attempts,
        forall|i: int| 0 <= i < statuses.len() ==> spec_classify(#[trigger] statuses[i]) is Retryable,
        attempt + statuses.len() <= max_attempts + 1,
    ensures
        attempt + statuses.len() <= max_attempts ==> apply_attempts(
            SlotState::Fetching { attempt },
            d,
            max_attempts,
            statuses,
        ) == (SlotState::Fetching { attempt: (attempt + statuses.len()) as u16 }),
        attempt + statuses.len() == max_attempts + 1 ==> apply_attempts(
            SlotState::Fetching { attempt },
            d,
            max_attempts,
            statuses,
        ) == SlotState::Finished(
            Err(
                DownloadError::Download(
                    spec_outcome(statuses[statuses.len() - 1], d, VerifyStatus::NotVerified),
                ),
            ),
        ),
    decreases statuses.len(),
{
    if statuses.len() == 0 {
    } else {
        let s0 = statuses[0];
        assert(spec_classify(s0) is Retryable);
        let rest = statuses.drop_first();
        assert forall|i: int| 0 <= i < rest.len() implies spec_classify(
            #[trigger] rest[i],
        ) is Retryable by {
            assert(rest[i] == statuses[i + 1]);
        }
        if attempt < max_attempts {
            let stepped = spec_attempt_step(SlotState::Fetching { attempt }, d, s0, max_attempts);
            assert(stepped == (SlotState::Fetching { attempt: (attempt + 1) as u16 }));
            lemma_retry_chain(d, max_attempts, rest, (attempt + 1) as u16);
            if rest.len() > 0 {
                assert(rest[rest.len() - 1] == statuses[statuses.len() - 1]);
            }
        } else {
            assert(statuses.len() == 1);
            let stepped = spec_attempt_step(SlotState::Fetching { attempt }, d, s0, max_attempts);
            assert(stepped == SlotState::Finished(
                Err(
                    DownloadError::Download(spec_outcome(s0, d, VerifyStatus::NotVerified)),
                ),
            ));
            assert(apply_attempts(stepped, d, max_attempts, rest) == stepped);
        }
    }
}

/// Law: when every response is merely retryable (a 404 among them), the
/// loop runs through the whole attempt budget — after `k` responses
/// attempt `k + 1` is underway — and the descriptor then terminates as a
/// Download error carrying the last observed status.
pub proof fn lemma_retryable_exhausts_budget(d: DownloadData, max_attempts: u16, statuses: Seq<u16>)
    requires
        max_attempts >= 1,
        statuses.len() == max_attempts,
        forall|i: int| 0 <= i < statuses.len() ==> spec_classify(#[trigger] statuses[i]) is Retryable,
    ensures
        apply_attempts(SlotState::Fetching { attempt: 1 }, d, max_attempts, statuses)
            == SlotState::Finished(
            Err(
                DownloadError::Download(
                    spec_outcome(statuses[statuses.len() - 1], d, VerifyStatus::NotVerified),
                ),
            ),
        ),
        forall|k: int|
            0 <= k < max_attempts ==> apply_attempts(
                SlotState::Fetching { attempt: 1 },
                d,
                max_attempts,
                #[trigger] statuses.take(k),
            ) == (SlotState::Fetching { attempt: (k + 1) as u16 }),
{
    lemma_retry_chain(d, max_attempts, statuses, 1);
    assert forall|k: int|
        0 <= k < max_attempts implies apply_attempts(
        SlotState::Fetching { attempt: 1 },
        d,
        max_attempts,
        #[trigger] statuses.take(k),
    ) == (SlotState::Fetching { attempt: (k + 1) as u16 }) by {
        let prefix = statuses.take(k);
        assert forall|i: int| 0 <= i < prefix.len() implies spec_classify(
            #[trigger] prefix[i],
        ) is Retryable by {
            assert(prefix[i] == statuses[i]);
        }
        lemma_retry_chain(d, max_attempts, prefix, 1);
    }
}

/// Law: a server-error response aborts the loop at once — one attempt
/// spent, a Download error, whatever statuses would have followed.
pub proof fn lemma_server_error_aborts(d: DownloadData, max_attempts: u16, statuses: Seq<u16>)
    requires
        statuses.len() >= 1,
        spec_classify(statuses[0]) is ServerError,
    ensures
        apply_attempts(SlotState::Fetching { attempt: 1 }, d, max_attempts, statuses)
            == SlotState::Finished(
            Err(
                DownloadError::Download(spec_outcome(statuses[0], d, VerifyStatus::NotVerified)),
            ),
        ),
{
    let stepped = spec_attempt_step(SlotState::Fetching { attempt: 1 }, d, statuses[0], max_attempts);
    assert(apply_attempts(stepped, d, max_attempts, statuses.drop_first()) == stepped);
}

/// Law: on a successful response, a descriptor with no expected checksum
/// closes at once with verification passed, whatever was written.
pub proof fn lemma_no_checksum_verifies_ok(
    slot: SlotState,
    d: DownloadData,
    max_attempts: u16,
    status: u16,
)
    requires
        slot is Fetching,
        spec_classify(status) is Success,
        d.sha1@.len() == 0,
    ensures
        spec_attempt_step(slot, d, status, max_attempts) == SlotState::Finished(
            Ok(spec_outcome(status, d, VerifyStatus::Passed)),
        ),
{
}

/// Law: a first successful response whose content matches the expected
/// checksum closes the descriptor with that status and a passed
/// verification.
pub proof fn lemma_success_with_matching_digest(
    d: DownloadData,
    max_attempts: u16,
    status: u16,
    digest: Seq<char>,
)
    requires
        spec_classify(status) is Success,
        d.sha1@.len() > 0,
        crate::client::verify::eq_ignore_ascii_case(d.sha1@, digest),
    ensures
        spec_attempt_step(SlotState::Fetching { attempt: 1 }, d, status, max_attempts)
            == (SlotState::Verifying { status }),
        spec_digest_step(status, d, Some(digest)) == SlotState::Finished(
            Ok(spec_outcome(status, d, VerifyStatus::Passed)),
        ),
{
}

/// Law: a digest mismatch still closes the descriptor successfully; only
/// the verification flag records the failure.
pub proof fn lemma_digest_mismatch_nonfatal(status: u16, d: DownloadData, digest: Seq<char>)
    requires
        !crate::client::verify::eq_ignore_ascii_case(d.sha1@, digest),
    ensures
        spec_digest_step(status, d, Some(digest)) == SlotState::Finished(
            Ok(spec_outcome(status, d, VerifyStatus::Failed)),
        ),
{
}

proof fn lemma_count_active_none_inverse(s: Seq<SlotState>)
    requires
        count_active(s) == 0,
    ensures
        forall|i: int| 0 <= i < s.len() ==> !is_active(#[trigger] s[i]),
{
    assert forall|i: int| 0 <= i < s.len() implies !is_active(#[trigger] s[i]) by {
        if is_active(s[i]) {
            lemma_count_active_at_least_one(s, i);
        }
    }
}

} // verus!
