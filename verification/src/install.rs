//! The installation of one artifact, step by step: what is done next, given what came of the step
//! before. The caller performs each action and hands back the event.
use crate::catalog::{Artifact, ArtifactView};
use crate::download::{
    already_downloaded, artifact_dir, artifact_target, ensure_free_space, http_status_error,
    is_hf_url, on_hf, part_of, ranges_of, ranges_supported, resumed_bytes, rewrite_hf_url,
    rewritten, space_problem, status_error, supports_ranges, target_dir, target_of, temp_dir_of,
    temp_paths, unauthorized, Mount, MountView, RangeState,
};
use crate::outside::{status_line, status_text, valid_status};
use crate::paths::{parent, parent_of};
use crate::text::{
    cat2, cat3, cat4, cat6, decimal, decimal_text, parse_u64, parsed_u64, same_text, trim_end_char,
    without_trailing, Text,
};
use vstd::prelude::*;
use vstd::string::*;

verus! {

/// How often a request is made before it is given up.
pub const ATTEMPTS: u32 = 8;

/// The longest pause between two attempts, in seconds.
pub const LONGEST_PAUSE: u32 = 5;

/// The pause after the attempt with the number `attempt`, counted from 0.
pub open spec fn pause_after(attempt: u32) -> u64 {
    if attempt + 1 <= LONGEST_PAUSE {
        (attempt + 1) as u64
    } else {
        LONGEST_PAUSE as u64
    }
}

fn pause_seconds(attempt: u32) -> (r: u64)
    ensures
        r == pause_after(attempt),
{
    if attempt < LONGEST_PAUSE {
        (attempt + 1) as u64
    } else {
        LONGEST_PAUSE as u64
    }
}

/// The download of one byte range, with its retries.
pub struct RangeFetch {
    pub start: u64,
    pub end: u64,
    pub url: String,
    pub token_present: bool,
    pub attempt: u32,
    pub last_error: Option<String>,
    pub unreachable: bool,
}

/// What a [`RangeFetch`] holds.
pub struct FetchView {
    pub start: u64,
    pub end: u64,
    pub url: Text,
    pub token_present: bool,
    pub attempt: u32,
    pub last_error: Option<Text>,
    pub unreachable: bool,
}

impl DeepView for RangeFetch {
    type V = FetchView;

    open spec fn deep_view(&self) -> FetchView {
        FetchView {
            start: self.start,
            end: self.end,
            url: self.url@,
            token_present: self.token_present,
            attempt: self.attempt,
            last_error: self.last_error.deep_view(),
            unreachable: self.unreachable,
        }
    }
}

/// What came of a step of a range's download.
pub enum FetchEvent {
    /// The server replied.
    Replied { status: u16 },
    /// The body was read.
    Body { bytes: u64 },
    /// The server could not be reached, or broke off.
    Failed { message: String },
    /// The pause is over.
    Waited,
}

/// What a [`FetchEvent`] holds.
pub enum FetchEventView {
    Replied { status: u16 },
    Body { bytes: u64 },
    Failed { message: Text },
    Waited,
}

impl DeepView for FetchEvent {
    type V = FetchEventView;

    open spec fn deep_view(&self) -> FetchEventView {
        match self {
            FetchEvent::Replied { status } => FetchEventView::Replied { status: *status },
            FetchEvent::Body { bytes } => FetchEventView::Body { bytes: *bytes },
            FetchEvent::Failed { message } => FetchEventView::Failed { message: message@ },
            FetchEvent::Waited => FetchEventView::Waited,
        }
    }
}

/// What is done next for a range.
pub enum FetchAction {
    /// Send the request.
    Request,
    /// Read the body of the reply.
    ReadBody,
    /// The body is the range: write it.
    Accept,
    /// Pause.
    Wait { seconds: u64 },
    /// Give up.
    Fail { message: String, unreachable: bool },
}

/// What a [`FetchAction`] holds.
pub enum FetchActionView {
    Request,
    ReadBody,
    Accept,
    Wait { seconds: u64 },
    Fail { message: Text, unreachable: bool },
}

impl DeepView for FetchAction {
    type V = FetchActionView;

    open spec fn deep_view(&self) -> FetchActionView {
        match self {
            FetchAction::Request => FetchActionView::Request,
            FetchAction::ReadBody => FetchActionView::ReadBody,
            FetchAction::Accept => FetchActionView::Accept,
            FetchAction::Wait { seconds } => FetchActionView::Wait { seconds: *seconds },
            FetchAction::Fail { message, unreachable } => FetchActionView::Fail {
                message: message@,
                unreachable: *unreachable,
            },
        }
    }
}

impl FetchView {
    /// The range has bytes, and no more than can be counted.
    pub open spec fn well_formed(self) -> bool {
        self.start <= self.end && self.end - self.start < u64::MAX
    }

    /// The range as messages name it.
    pub open spec fn label(self) -> Text {
        decimal(self.start as nat) + "-"@ + decimal(self.end as nat)
    }

    /// The fetch after an attempt that brought nothing.
    pub open spec fn after_failure(self, message: Text, unreachable: bool) -> (
        FetchView,
        FetchActionView,
    ) {
        if self.attempt < ATTEMPTS {
            (
                FetchView {
                    attempt: (self.attempt + 1) as u32,
                    last_error: Some(message),
                    unreachable,
                    ..self
                },
                FetchActionView::Wait { seconds: pause_after(self.attempt) },
            )
        } else {
            (self, FetchActionView::Fail { message, unreachable })
        }
    }

    /// The fetch after an event, and what is done next.
    pub open spec fn after(self, event: FetchEventView) -> (FetchView, FetchActionView) {
        match event {
            FetchEventView::Replied { status } => if status == 206 {
                (self, FetchActionView::ReadBody)
            } else if unauthorized(status) {
                (
                    self,
                    FetchActionView::Fail {
                        message: status_error(
                            "range download"@,
                            self.url,
                            status,
                            self.token_present,
                        ),
                        unreachable: false,
                    },
                )
            } else {
                self.after_failure(
                    "range request "@ + self.label() + " failed with "@ + status_line(status),
                    false,
                )
            },
            FetchEventView::Body { bytes } => if bytes == self.end - self.start + 1 {
                (self, FetchActionView::Accept)
            } else {
                self.after_failure(
                    "range "@ + self.label() + " returned "@ + decimal(bytes as nat)
                        + " bytes, expected "@ + decimal((self.end - self.start + 1) as nat),
                    false,
                )
            },
            FetchEventView::Failed { message } => self.after_failure(message, true),
            FetchEventView::Waited => if self.attempt < ATTEMPTS {
                (self, FetchActionView::Request)
            } else {
                (
                    self,
                    FetchActionView::Fail {
                        message: match self.last_error {
                            Some(m) => m,
                            None => "range "@ + self.label() + " failed"@,
                        },
                        unreachable: self.unreachable,
                    },
                )
            },
        }
    }
}

impl RangeFetch {
    /// The download of the bytes from `start` to `end`, before its first request.
    pub fn new(start: u64, end: u64, url: String, token_present: bool) -> (r: RangeFetch)
        ensures
            r.deep_view() == (FetchView {
                start,
                end,
                url: url@,
                token_present,
                attempt: 0,
                last_error: None,
                unreachable: false,
            }),
    {
        RangeFetch {
            start,
            end,
            url,
            token_present,
            attempt: 0,
            last_error: None,
            unreachable: false,
        }
    }

    fn label(&self) -> (r: String)
        ensures
            r@ == self.deep_view().label(),
    {
        let a = decimal_text(self.start);
        let b = decimal_text(self.end);
        cat3(a.as_str(), "-", b.as_str())
    }

    fn fail_attempt(&mut self, message: String, unreachable: bool) -> (r: FetchAction)
        ensures
            (final(self).deep_view(), r.deep_view()) == old(self).deep_view().after_failure(
                message@,
                unreachable,
            ),
    {
        if self.attempt < ATTEMPTS {
            let seconds = pause_seconds(self.attempt);
            self.attempt += 1;
            self.last_error = Some(message);
            self.unreachable = unreachable;
            FetchAction::Wait { seconds }
        } else {
            FetchAction::Fail { message, unreachable }
        }
    }

    /// Takes in an event and says what is done next: a reply with the whole range is accepted, one
    /// that is not authorized ends the download, and anything else is tried again after a pause.
    pub fn step(&mut self, event: FetchEvent) -> (r: FetchAction)
        requires
            old(self).deep_view().well_formed(),
            event matches FetchEvent::Replied { status } ==> valid_status(status),
        ensures
            (final(self).deep_view(), r.deep_view()) == old(self).deep_view().after(
                event.deep_view(),
            ),
    {
        match event {
            FetchEvent::Replied { status } => {
                if status == 206 {
                    FetchAction::ReadBody
                } else if status == 401 || status == 403 {
                    let message = http_status_error(
                        "range download",
                        self.url.as_str(),
                        status,
                        self.token_present,
                    );
                    FetchAction::Fail { message, unreachable: false }
                } else {
                    let label = self.label();
                    let line = status_text(status);
                    let message = cat4(
                        "range request ",
                        label.as_str(),
                        " failed with ",
                        line.as_str(),
                    );
                    self.fail_attempt(message, false)
                }
            },
            FetchEvent::Body { bytes } => {
                let want: u64 = self.end - self.start + 1;
                if bytes == want {
                    FetchAction::Accept
                } else {
                    let label = self.label();
                    let got = decimal_text(bytes);
                    let wanted = decimal_text(want);
                    let message = cat6(
                        "range ",
                        label.as_str(),
                        " returned ",
                        got.as_str(),
                        " bytes, expected ",
                        wanted.as_str(),
                    );
                    self.fail_attempt(message, false)
                }
            },
            FetchEvent::Failed { message } => self.fail_attempt(message, true),
            FetchEvent::Waited => {
                if self.attempt < ATTEMPTS {
                    FetchAction::Request
                } else {
                    let message = match &self.last_error {
                        Some(m) => m.clone(),
                        None => {
                            let label = self.label();
                            cat3("range ", label.as_str(), " failed")
                        },
                    };
                    FetchAction::Fail { message, unreachable: self.unreachable }
                }
            },
        }
    }
}

/// What came of an installation.
pub enum InstallOutcome {
    AlreadyInstalled,
    Installed(String),
    Resumed(String),
}

/// What an [`InstallOutcome`] holds.
pub enum OutcomeView {
    AlreadyInstalled,
    Installed(Text),
    Resumed(Text),
}

impl DeepView for InstallOutcome {
    type V = OutcomeView;

    open spec fn deep_view(&self) -> OutcomeView {
        match self {
            InstallOutcome::AlreadyInstalled => OutcomeView::AlreadyInstalled,
            InstallOutcome::Installed(p) => OutcomeView::Installed(p@),
            InstallOutcome::Resumed(p) => OutcomeView::Resumed(p@),
        }
    }
}

/// The step that an installation waits for.
#[derive(Clone, Copy, Debug, PartialEq, Eq, Structural)]
pub enum InstallPhase {
    InspectTarget,
    HashTarget,
    Head,
    ReadProgress,
    MeasureSpace,
    CreateDir,
    Transfer,
    MeasurePart,
    HashPart,
    Publish,
    RemoveTemp,
    Over,
}

/// The installation of one artifact.
pub struct InstallRun {
    pub comfy_root: String,
    pub artifact: Artifact,
    pub force: bool,
    pub hf_endpoint: Option<String>,
    pub token_present: bool,
    pub phase: InstallPhase,
    pub switched: bool,
    pub attempt: u32,
    pub expected: u64,
    pub ranged: bool,
    pub resumed: bool,
    pub required: u64,
    pub windows: bool,
}

/// What an [`InstallRun`] holds.
pub struct RunView {
    pub root: Text,
    pub artifact: ArtifactView,
    pub force: bool,
    pub endpoint: Option<Text>,
    pub token_present: bool,
    pub phase: InstallPhase,
    pub switched: bool,
    pub attempt: u32,
    pub expected: u64,
    pub ranged: bool,
    pub resumed: bool,
    pub required: u64,
    pub windows: bool,
}

impl DeepView for InstallRun {
    type V = RunView;

    open spec fn deep_view(&self) -> RunView {
        RunView {
            root: self.comfy_root@,
            artifact: self.artifact.deep_view(),
            force: self.force,
            endpoint: self.hf_endpoint.deep_view(),
            token_present: self.token_present,
            phase: self.phase,
            switched: self.switched,
            attempt: self.attempt,
            expected: self.expected,
            ranged: self.ranged,
            resumed: self.resumed,
            required: self.required,
            windows: self.windows,
        }
    }
}

/// What came of a step of an installation.
pub enum InstallEvent {
    /// The length of the final file, where it is there.
    Target { length: Option<u64> },
    /// Whether a file has the expected hash.
    Hashed { matches: bool },
    /// The reply to the metadata request.
    Head { status: u16, content_length: Option<String>, accept_ranges: Option<String> },
    /// The pause is over.
    Waited,
    /// What was saved of an earlier download.
    Progress { saved: Option<RangeState>, part_exists: bool },
    /// The mounted volumes.
    Space { mounts: Vec<Mount> },
    /// The step is done.
    Done,
    /// The length of the `.part` file.
    Part { length: u64 },
    /// The step failed; `unreachable` says that the server could not be reached.
    Failed { message: String, unreachable: bool },
}

/// What an [`InstallEvent`] holds.
pub enum InstallEventView {
    Target { length: Option<u64> },
    Hashed { matches: bool },
    Head { status: u16, content_length: Option<Text>, accept_ranges: Option<Text> },
    Waited,
    Progress { saved: Option<RangeState>, part_exists: bool },
    Space { mounts: Seq<MountView> },
    Done,
    Part { length: u64 },
    Failed { message: Text, unreachable: bool },
}

impl DeepView for InstallEvent {
    type V = InstallEventView;

    open spec fn deep_view(&self) -> InstallEventView {
        match self {
            InstallEvent::Target { length } => InstallEventView::Target { length: *length },
            InstallEvent::Hashed { matches } => InstallEventView::Hashed { matches: *matches },
            InstallEvent::Head { status, content_length, accept_ranges } => InstallEventView::Head {
                status: *status,
                content_length: content_length.deep_view(),
                accept_ranges: accept_ranges.deep_view(),
            },
            InstallEvent::Waited => InstallEventView::Waited,
            InstallEvent::Progress { saved, part_exists } => InstallEventView::Progress {
                saved: *saved,
                part_exists: *part_exists,
            },
            InstallEvent::Space { mounts } => InstallEventView::Space {
                mounts: mounts.deep_view(),
            },
            InstallEvent::Done => InstallEventView::Done,
            InstallEvent::Part { length } => InstallEventView::Part { length: *length },
            InstallEvent::Failed { message, unreachable } => InstallEventView::Failed {
                message: message@,
                unreachable: *unreachable,
            },
        }
    }
}

/// What is done next for an installation.
pub enum InstallAction {
    /// Look at the final file.
    InspectTarget { path: String },
    /// Compare a file with a hash.
    HashFile { path: String, expected: String },
    /// Ask the server about the file.
    RequestHead { url: String },
    /// Pause.
    Wait { seconds: u64 },
    /// Report the notice and ask another server about the file.
    SwitchEndpoint { url: String, notice: String },
    /// Look for what an earlier download left.
    ReadProgress { part: String, ranges: String },
    /// Look at the free space where `path` is.
    MeasureSpace { path: String },
    /// Create a directory.
    CreateDir { path: String },
    /// Download the missing ranges.
    DownloadRanged { url: String, part: String, ranges: String, expected: u64 },
    /// Download the file from its beginning.
    DownloadSequential { url: String, part: String, expected: u64 },
    /// Look at the `.part` file.
    MeasurePart { path: String },
    /// Create `dir` and put the `.part` file in its final place.
    Publish { part: String, target: String, dir: Option<String>, force: bool },
    /// Remove the temporary directory.
    RemoveTemp { path: String },
    /// The installation is over.
    Finish(InstallOutcome),
    /// The installation has failed.
    Fail { message: String },
    /// The event does not belong to the step that was waited for.
    Ignore,
}

/// What an [`InstallAction`] holds.
pub enum InstallActionView {
    InspectTarget { path: Text },
    HashFile { path: Text, expected: Text },
    RequestHead { url: Text },
    Wait { seconds: u64 },
    SwitchEndpoint { url: Text, notice: Text },
    ReadProgress { part: Text, ranges: Text },
    MeasureSpace { path: Text },
    CreateDir { path: Text },
    DownloadRanged { url: Text, part: Text, ranges: Text, expected: u64 },
    DownloadSequential { url: Text, part: Text, expected: u64 },
    MeasurePart { path: Text },
    Publish { part: Text, target: Text, dir: Option<Text>, force: bool },
    RemoveTemp { path: Text },
    Finish(OutcomeView),
    Fail { message: Text },
    Ignore,
}

impl DeepView for InstallAction {
    type V = InstallActionView;

    open spec fn deep_view(&self) -> InstallActionView {
        match self {
            InstallAction::InspectTarget { path } => InstallActionView::InspectTarget {
                path: path@,
            },
            InstallAction::HashFile { path, expected } => InstallActionView::HashFile {
                path: path@,
                expected: expected@,
            },
            InstallAction::RequestHead { url } => InstallActionView::RequestHead { url: url@ },
            InstallAction::Wait { seconds } => InstallActionView::Wait { seconds: *seconds },
            InstallAction::SwitchEndpoint { url, notice } => InstallActionView::SwitchEndpoint {
                url: url@,
                notice: notice@,
            },
            InstallAction::ReadProgress { part, ranges } => InstallActionView::ReadProgress {
                part: part@,
                ranges: ranges@,
            },
            InstallAction::MeasureSpace { path } => InstallActionView::MeasureSpace {
                path: path@,
            },
            InstallAction::CreateDir { path } => InstallActionView::CreateDir { path: path@ },
            InstallAction::DownloadRanged { url, part, ranges, expected } =>
            InstallActionView::DownloadRanged {
                url: url@,
                part: part@,
                ranges: ranges@,
                expected: *expected,
            },
            InstallAction::DownloadSequential { url, part, expected } =>
            InstallActionView::DownloadSequential { url: url@, part: part@, expected: *expected },
            InstallAction::MeasurePart { path } => InstallActionView::MeasurePart { path: path@ },
            InstallAction::Publish { part, target, dir, force } => InstallActionView::Publish {
                part: part@,
                target: target@,
                dir: dir.deep_view(),
                force: *force,
            },
            InstallAction::RemoveTemp { path } => InstallActionView::RemoveTemp { path: path@ },
            InstallAction::Finish(o) => InstallActionView::Finish(o.deep_view()),
            InstallAction::Fail { message } => InstallActionView::Fail { message: message@ },
            InstallAction::Ignore => InstallActionView::Ignore,
        }
    }
}

/// The endpoint of the mirror.
pub open spec fn hf_mirror() -> Text {
    "https://hf-mirror.com"@
}

/// The endpoint that is tried when `endpoint` cannot be reached: the mirror for the official one,
/// the official one for any other.
pub open spec fn other_endpoint(endpoint: Option<Text>) -> Text {
    match endpoint {
        None => hf_mirror(),
        Some(e) => if without_trailing(e, '/') == crate::download::hf_official() {
            hf_mirror()
        } else {
            crate::download::hf_official()
        },
    }
}

/// The endpoint that is tried when `endpoint` cannot be reached.
pub fn failover_endpoint(endpoint: &Option<String>) -> (r: &'static str)
    ensures
        r@ == other_endpoint(endpoint.deep_view()),
{
    match endpoint {
        None => "https://hf-mirror.com",
        Some(e) => {
            let base = trim_end_char(e.as_str(), '/');
            if same_text(base.as_str(), "https://huggingface.co") {
                "https://hf-mirror.com"
            } else {
                "https://huggingface.co"
            }
        },
    }
}

impl RunView {
    /// The endpoint that is in use.
    pub open spec fn endpoint_now(self) -> Option<Text> {
        if self.switched {
            Some(other_endpoint(self.endpoint))
        } else {
            self.endpoint
        }
    }

    /// The address that is asked.
    pub open spec fn url(self) -> Text {
        rewritten(self.artifact.url, self.endpoint_now())
    }

    /// Whether another endpoint is left to be tried.
    pub open spec fn can_switch(self) -> bool {
        !self.switched && on_hf(self.artifact.url)
    }

    pub open spec fn target(self) -> Text {
        target_of(self.windows, self.root, self.artifact)
    }

    pub open spec fn failed(self, message: Text) -> (RunView, InstallActionView) {
        (RunView { phase: InstallPhase::Over, ..self }, InstallActionView::Fail { message })
    }

    pub open spec fn finished(self, outcome: OutcomeView) -> (RunView, InstallActionView) {
        (RunView { phase: InstallPhase::Over, ..self }, InstallActionView::Finish(outcome))
    }

    /// The file is to be downloaded.
    pub open spec fn ask(self) -> (RunView, InstallActionView) {
        (
            RunView { phase: InstallPhase::Head, attempt: 0, ..self },
            InstallActionView::RequestHead { url: self.url() },
        )
    }

    /// The final file is there and is not the artifact.
    pub open spec fn mismatched(self) -> (RunView, InstallActionView) {
        if self.force {
            self.ask()
        } else {
            self.failed(
                self.target()
                    + " already exists but does not match catalog; use --force to replace"@,
            )
        }
    }

    pub open spec fn after_target(self, length: Option<u64>) -> (RunView, InstallActionView) {
        match length {
            None => self.ask(),
            Some(n) => if self.artifact.size_bytes is None || self.artifact.size_bytes == Some(n) {
                match self.artifact.sha256 {
                    Some(h) => (
                        RunView { phase: InstallPhase::HashTarget, ..self },
                        InstallActionView::HashFile { path: self.target(), expected: h },
                    ),
                    None => self.finished(OutcomeView::AlreadyInstalled),
                }
            } else {
                self.mismatched()
            },
        }
    }

    /// The other endpoint is asked.
    pub open spec fn switch(self, message: Text) -> (RunView, InstallActionView) {
        let next = RunView { phase: InstallPhase::Head, switched: true, attempt: 0, ..self };
        (
            next,
            InstallActionView::SwitchEndpoint {
                url: next.url(),
                notice: message + "; switching to "@ + other_endpoint(self.endpoint),
            },
        )
    }

    /// The server could not be asked about the file.
    pub open spec fn after_head_failure(self, message: Text, unreachable: bool) -> (
        RunView,
        InstallActionView,
    ) {
        let full = "HEAD "@ + self.url() + ": "@ + message;
        if !unreachable {
            self.failed(full)
        } else if self.attempt + 1 < ATTEMPTS {
            (
                RunView { attempt: (self.attempt + 1) as u32, ..self },
                InstallActionView::Wait { seconds: pause_after(self.attempt) },
            )
        } else if self.can_switch() {
            self.switch(full)
        } else {
            self.failed(full)
        }
    }

    pub open spec fn after_head(
        self,
        status: u16,
        content_length: Option<Text>,
        accept_ranges: Option<Text>,
    ) -> (RunView, InstallActionView) {
        let remote = match content_length {
            Some(t) => parsed_u64(t),
            None => None,
        };
        if !(200 <= status < 300) {
            self.failed(
                status_error(
                    "remote metadata request"@,
                    self.artifact.name,
                    status,
                    self.token_present,
                ),
            )
        } else if self.artifact.size_bytes is None && remote is None {
            self.failed("remote did not provide Content-Length and catalog has no size"@)
        } else if self.artifact.size_bytes is Some && remote is Some && self.artifact.size_bytes
            != remote {
            self.failed(
                "remote size changed for "@ + self.artifact.name + ": catalog="@ + decimal(
                    self.artifact.size_bytes->0 as nat,
                ) + " remote="@ + decimal(remote->0 as nat),
            )
        } else {
            (
                RunView {
                    phase: InstallPhase::ReadProgress,
                    expected: match self.artifact.size_bytes {
                        Some(n) => n,
                        None => remote->0,
                    },
                    ranged: ranges_supported(accept_ranges),
                    ..self
                },
                InstallActionView::ReadProgress {
                    part: part_of(self.windows, self.root, self.artifact),
                    ranges: ranges_of(self.windows, self.root, self.artifact),
                },
            )
        }
    }

    pub open spec fn after_progress(self, saved: Option<RangeState>, part_exists: bool) -> (
        RunView,
        InstallActionView,
    ) {
        let done = resumed_bytes(saved, self.expected);
        (
            RunView {
                phase: InstallPhase::MeasureSpace,
                required: space_needed(self.expected, done),
                resumed: part_exists && done > 0,
                ..self
            },
            InstallActionView::MeasureSpace {
                path: target_dir(self.windows, self.root, self.artifact),
            },
        )
    }

    pub open spec fn transfer(self) -> InstallActionView {
        if self.ranged {
            InstallActionView::DownloadRanged {
                url: self.url(),
                part: part_of(self.windows, self.root, self.artifact),
                ranges: ranges_of(self.windows, self.root, self.artifact),
                expected: self.expected,
            }
        } else {
            InstallActionView::DownloadSequential {
                url: self.url(),
                part: part_of(self.windows, self.root, self.artifact),
                expected: self.expected,
            }
        }
    }

    /// The file did not come. Ranges have been asked for again already; a download without them
    /// starts again from the beginning.
    pub open spec fn after_transfer_failure(self, message: Text, unreachable: bool) -> (
        RunView,
        InstallActionView,
    ) {
        if !unreachable {
            self.failed(message)
        } else if !self.ranged && self.attempt + 1 < ATTEMPTS {
            (
                RunView { attempt: (self.attempt + 1) as u32, ..self },
                InstallActionView::Wait { seconds: pause_after(self.attempt) },
            )
        } else if self.can_switch() {
            self.switch(message)
        } else {
            self.failed(message)
        }
    }

    pub open spec fn publish(self) -> (RunView, InstallActionView) {
        (
            RunView { phase: InstallPhase::Publish, ..self },
            InstallActionView::Publish {
                part: part_of(self.windows, self.root, self.artifact),
                target: self.target(),
                dir: parent_of(self.windows, self.target()),
                force: self.force,
            },
        )
    }

    pub open spec fn after_part(self, length: u64) -> (RunView, InstallActionView) {
        if length != self.expected {
            self.failed(
                "downloaded size mismatch for "@ + self.artifact.name + ": got "@ + decimal(
                    length as nat,
                ) + ", expected "@ + decimal(self.expected as nat),
            )
        } else {
            match self.artifact.sha256 {
                Some(h) => (
                    RunView { phase: InstallPhase::HashPart, ..self },
                    InstallActionView::HashFile {
                        path: part_of(self.windows, self.root, self.artifact),
                        expected: h,
                    },
                ),
                None => self.publish(),
            }
        }
    }

    /// The installation after an event, and what is done next.
    pub open spec fn after(self, event: InstallEventView) -> (RunView, InstallActionView) {
        match (self.phase, event) {
            (InstallPhase::InspectTarget, InstallEventView::Target { length }) => self.after_target(
                length,
            ),
            (InstallPhase::HashTarget, InstallEventView::Hashed { matches }) => if matches {
                self.finished(OutcomeView::AlreadyInstalled)
            } else {
                self.mismatched()
            },
            (
                InstallPhase::Head,
                InstallEventView::Head { status, content_length, accept_ranges },
            ) => self.after_head(status, content_length, accept_ranges),
            (InstallPhase::Head, InstallEventView::Failed { message, unreachable }) =>
            self.after_head_failure(message, unreachable),
            (InstallPhase::Head, InstallEventView::Waited) => (
                self,
                InstallActionView::RequestHead { url: self.url() },
            ),
            (InstallPhase::ReadProgress, InstallEventView::Progress { saved, part_exists }) =>
            self.after_progress(saved, part_exists),
            (InstallPhase::MeasureSpace, InstallEventView::Space { mounts }) =>
            match space_problem(
                self.windows,
                mounts,
                target_dir(self.windows, self.root, self.artifact),
                self.required,
            ) {
                Some(m) => self.failed(m),
                None => (
                    RunView { phase: InstallPhase::CreateDir, ..self },
                    InstallActionView::CreateDir {
                        path: temp_dir_of(self.windows, self.root, self.artifact),
                    },
                ),
            },
            (InstallPhase::CreateDir, InstallEventView::Done) => (
                RunView { phase: InstallPhase::Transfer, attempt: 0, ..self },
                self.transfer(),
            ),
            (InstallPhase::Transfer, InstallEventView::Done) => (
                RunView { phase: InstallPhase::MeasurePart, ..self },
                InstallActionView::MeasurePart {
                    path: part_of(self.windows, self.root, self.artifact),
                },
            ),
            (InstallPhase::Transfer, InstallEventView::Failed { message, unreachable }) =>
            self.after_transfer_failure(message, unreachable),
            (InstallPhase::Transfer, InstallEventView::Waited) => (self, self.transfer()),
            (InstallPhase::MeasurePart, InstallEventView::Part { length }) => self.after_part(
                length,
            ),
            (InstallPhase::HashPart, InstallEventView::Hashed { matches }) => if matches {
                self.publish()
            } else {
                self.failed("SHA-256 mismatch for "@ + self.artifact.name)
            },
            (InstallPhase::Publish, InstallEventView::Done) => (
                RunView { phase: InstallPhase::RemoveTemp, ..self },
                InstallActionView::RemoveTemp {
                    path: temp_dir_of(self.windows, self.root, self.artifact),
                },
            ),
            (InstallPhase::RemoveTemp, InstallEventView::Done) => self.finished(
                if self.resumed {
                    OutcomeView::Resumed(self.target())
                } else {
                    OutcomeView::Installed(self.target())
                },
            ),
            (InstallPhase::Over, _) => (self, InstallActionView::Ignore),
            (_, InstallEventView::Failed { message, unreachable }) => self.failed(message),
            _ => (self, InstallActionView::Ignore),
        }
    }
}

/// The free space that a download asks for: what is missing, and a fiftieth of the file, or a GiB
/// where that is more.
pub open spec fn space_needed(expected: u64, done: u64) -> u64 {
    let missing: int = if expected >= done {
        expected - done
    } else {
        0
    };
    let spare: int = if expected / 50 >= 1073741824 {
        (expected / 50) as int
    } else {
        1073741824
    };
    if missing + spare <= u64::MAX {
        (missing + spare) as u64
    } else {
        u64::MAX
    }
}

fn required_space(expected: u64, done: u64) -> (r: u64)
    ensures
        r == space_needed(expected, done),
{
    let missing: u64 = if expected >= done {
        expected - done
    } else {
        0
    };
    let spare: u64 = if expected / 50 >= 1073741824 {
        expected / 50
    } else {
        1073741824
    };
    if missing <= u64::MAX - spare {
        missing + spare
    } else {
        u64::MAX
    }
}

/// The message that reports the stage that begins with a phase.
pub open spec fn stage_words(phase: InstallPhase) -> Option<Text> {
    match phase {
        InstallPhase::Head => Some("phase:resolving"@),
        InstallPhase::Transfer => Some("phase:downloading"@),
        InstallPhase::MeasurePart => Some("phase:processing"@),
        InstallPhase::Publish => Some("phase:installing"@),
        _ => None,
    }
}

/// The message that reports the stage that begins with a phase.
pub fn stage_message(phase: InstallPhase) -> (r: Option<&'static str>)
    ensures
        crate::state::opt_text(r) == stage_words(phase),
{
    match phase {
        InstallPhase::Head => Some("phase:resolving"),
        InstallPhase::Transfer => Some("phase:downloading"),
        InstallPhase::MeasurePart => Some("phase:processing"),
        InstallPhase::Publish => Some("phase:installing"),
        _ => None,
    }
}

impl InstallRun {
    /// The installation of `artifact` below `comfy_root`, before its first step.
    pub fn new(
        comfy_root: String,
        artifact: Artifact,
        force: bool,
        hf_endpoint: Option<String>,
        token_present: bool,
        windows: bool,
    ) -> (r: InstallRun)
        ensures
            r.deep_view() == (RunView {
                root: comfy_root@,
                artifact: artifact.deep_view(),
                force,
                endpoint: hf_endpoint.deep_view(),
                token_present,
                phase: InstallPhase::InspectTarget,
                switched: false,
                attempt: 0,
                expected: 0,
                ranged: false,
                resumed: false,
                required: 0,
                windows,
            }),
    {
        InstallRun {
            comfy_root,
            artifact,
            force,
            hf_endpoint,
            token_present,
            phase: InstallPhase::InspectTarget,
            switched: false,
            attempt: 0,
            expected: 0,
            ranged: false,
            resumed: false,
            required: 0,
            windows,
        }
    }

    /// The first action.
    pub fn first_action(&self) -> (r: InstallAction)
        ensures
            r.deep_view() == (InstallActionView::InspectTarget { path: self.deep_view().target() }),
    {
        InstallAction::InspectTarget { path: self.target() }
    }

    fn target(&self) -> (r: String)
        ensures
            r@ == self.deep_view().target(),
    {
        artifact_target(self.windows, self.comfy_root.as_str(), &self.artifact)
    }

    /// The address that is asked.
    pub fn url(&self) -> (r: String)
        ensures
            r@ == self.deep_view().url(),
    {
        if self.switched {
            rewrite_hf_url(self.artifact.url.as_str(), Some(failover_endpoint(&self.hf_endpoint)))
        } else {
            match &self.hf_endpoint {
                Some(e) => rewrite_hf_url(self.artifact.url.as_str(), Some(e.as_str())),
                None => rewrite_hf_url(self.artifact.url.as_str(), None),
            }
        }
    }

    fn fail(&mut self, message: String) -> (r: InstallAction)
        ensures
            (final(self).deep_view(), r.deep_view()) == old(self).deep_view().failed(message@),
    {
        self.phase = InstallPhase::Over;
        InstallAction::Fail { message }
    }

    fn finish(&mut self, outcome: InstallOutcome) -> (r: InstallAction)
        ensures
            (final(self).deep_view(), r.deep_view()) == old(self).deep_view().finished(
                outcome.deep_view(),
            ),
    {
        self.phase = InstallPhase::Over;
        InstallAction::Finish(outcome)
    }

    fn ask(&mut self) -> (r: InstallAction)
        ensures
            (final(self).deep_view(), r.deep_view()) == old(self).deep_view().ask(),
    {
        self.phase = InstallPhase::Head;
        self.attempt = 0;
        InstallAction::RequestHead { url: self.url() }
    }

    fn mismatch(&mut self) -> (r: InstallAction)
        ensures
            (final(self).deep_view(), r.deep_view()) == old(self).deep_view().mismatched(),
    {
        if self.force {
            self.ask()
        } else {
            let target = self.target();
            let message = cat2(
                target.as_str(),
                " already exists but does not match catalog; use --force to replace",
            );
            self.fail(message)
        }
    }

    fn can_switch(&self) -> (r: bool)
        ensures
            r == self.deep_view().can_switch(),
    {
        !self.switched && is_hf_url(self.artifact.url.as_str())
    }

    fn switch(&mut self, message: String) -> (r: InstallAction)
        ensures
            (final(self).deep_view(), r.deep_view()) == old(self).deep_view().switch(message@),
    {
        let other = failover_endpoint(&self.hf_endpoint);
        let notice = cat3(message.as_str(), "; switching to ", other);
        self.phase = InstallPhase::Head;
        self.switched = true;
        self.attempt = 0;
        InstallAction::SwitchEndpoint { url: self.url(), notice }
    }

    fn on_target(&mut self, length: Option<u64>) -> (r: InstallAction)
        ensures
            (final(self).deep_view(), r.deep_view()) == old(self).deep_view().after_target(length),
    {
        match length {
            None => self.ask(),
            Some(n) => {
                let same = match self.artifact.size_bytes {
                    Some(size) => size == n,
                    None => true,
                };
                if same {
                    match &self.artifact.sha256 {
                        Some(h) => {
                            let expected = h.clone();
                            let path = self.target();
                            self.phase = InstallPhase::HashTarget;
                            InstallAction::HashFile { path, expected }
                        },
                        None => self.finish(InstallOutcome::AlreadyInstalled),
                    }
                } else {
                    self.mismatch()
                }
            },
        }
    }

    fn on_head_failure(&mut self, message: String, unreachable: bool) -> (r: InstallAction)
        ensures
            (final(self).deep_view(), r.deep_view()) == old(self).deep_view().after_head_failure(
                message@,
                unreachable,
            ),
    {
        let url = self.url();
        let full = cat4("HEAD ", url.as_str(), ": ", message.as_str());
        if !unreachable {
            self.fail(full)
        } else if self.attempt < ATTEMPTS - 1 {
            let seconds = pause_seconds(self.attempt);
            self.attempt += 1;
            InstallAction::Wait { seconds }
        } else if self.can_switch() {
            self.switch(full)
        } else {
            self.fail(full)
        }
    }

    fn on_head(
        &mut self,
        status: u16,
        content_length: Option<String>,
        accept_ranges: Option<String>,
    ) -> (r: InstallAction)
        requires
            valid_status(status),
        ensures
            (final(self).deep_view(), r.deep_view()) == old(self).deep_view().after_head(
                status,
                content_length.deep_view(),
                accept_ranges.deep_view(),
            ),
    {
        if !(200 <= status && status < 300) {
            let message = http_status_error(
                "remote metadata request",
                self.artifact.name.as_str(),
                status,
                self.token_present,
            );
            return self.fail(message);
        }
        let remote: Option<u64> = match &content_length {
            Some(t) => parse_u64(t.as_str()),
            None => None,
        };
        let expected: u64 = match (self.artifact.size_bytes, remote) {
            (Some(size), Some(there)) => {
                if size != there {
                    let a = decimal_text(size);
                    let b = decimal_text(there);
                    let message = cat6(
                        "remote size changed for ",
                        self.artifact.name.as_str(),
                        ": catalog=",
                        a.as_str(),
                        " remote=",
                        b.as_str(),
                    );
                    return self.fail(message);
                }
                size
            },
            (Some(size), None) => size,
            (None, Some(there)) => there,
            (None, None) => {
                return self.fail(
                    "remote did not provide Content-Length and catalog has no size".to_owned(),
                );
            },
        };
        self.expected = expected;
        self.ranged = supports_ranges(&accept_ranges);
        self.phase = InstallPhase::ReadProgress;
        let (_, part, ranges) = temp_paths(self.comfy_root.as_str(), &self.artifact, self.windows);
        match ranges {
            Some(ranges) => InstallAction::ReadProgress { part, ranges },
            None => InstallAction::Ignore,
        }
    }

    fn on_progress(&mut self, saved: Option<RangeState>, part_exists: bool) -> (r: InstallAction)
        ensures
            (final(self).deep_view(), r.deep_view()) == old(self).deep_view().after_progress(
                saved,
                part_exists,
            ),
    {
        let done: u64 = already_downloaded(&saved, self.expected);
        self.required = required_space(self.expected, done);
        self.resumed = part_exists && done > 0;
        self.phase = InstallPhase::MeasureSpace;
        InstallAction::MeasureSpace {
            path: artifact_dir(self.windows, self.comfy_root.as_str(), &self.artifact),
        }
    }

    fn part_path(&self) -> (r: String)
        ensures
            r@ == part_of(self.windows, self.comfy_root@, self.artifact.deep_view()),
    {
        temp_paths(self.comfy_root.as_str(), &self.artifact, self.windows).1
    }

    fn temp_dir(&self) -> (r: String)
        ensures
            r@ == temp_dir_of(self.windows, self.comfy_root@, self.artifact.deep_view()),
    {
        temp_paths(self.comfy_root.as_str(), &self.artifact, self.windows).0
    }

    fn transfer(&self) -> (r: InstallAction)
        ensures
            r.deep_view() == self.deep_view().transfer(),
    {
        let url = self.url();
        let (_, part, ranges) = temp_paths(self.comfy_root.as_str(), &self.artifact, self.windows);
        match ranges {
            Some(ranges) => if self.ranged {
                InstallAction::DownloadRanged { url, part, ranges, expected: self.expected }
            } else {
                InstallAction::DownloadSequential { url, part, expected: self.expected }
            },
            None => InstallAction::Ignore,
        }
    }

    fn on_transfer_failure(&mut self, message: String, unreachable: bool) -> (r: InstallAction)
        ensures
            (final(self).deep_view(), r.deep_view()) == old(
                self,
            ).deep_view().after_transfer_failure(message@, unreachable),
    {
        if !unreachable {
            self.fail(message)
        } else if !self.ranged && self.attempt < ATTEMPTS - 1 {
            let seconds = pause_seconds(self.attempt);
            self.attempt += 1;
            InstallAction::Wait { seconds }
        } else if self.can_switch() {
            self.switch(message)
        } else {
            self.fail(message)
        }
    }

    fn publish(&mut self) -> (r: InstallAction)
        ensures
            (final(self).deep_view(), r.deep_view()) == old(self).deep_view().publish(),
    {
        let part = self.part_path();
        let target = self.target();
        let dir = parent(self.windows, target.as_str());
        self.phase = InstallPhase::Publish;
        InstallAction::Publish { part, target, dir, force: self.force }
    }

    fn on_part(&mut self, length: u64) -> (r: InstallAction)
        ensures
            (final(self).deep_view(), r.deep_view()) == old(self).deep_view().after_part(length),
    {
        if length != self.expected {
            let got = decimal_text(length);
            let want = decimal_text(self.expected);
            let message = cat6(
                "downloaded size mismatch for ",
                self.artifact.name.as_str(),
                ": got ",
                got.as_str(),
                ", expected ",
                want.as_str(),
            );
            return self.fail(message);
        }
        match &self.artifact.sha256 {
            Some(h) => {
                let expected = h.clone();
                let path = self.part_path();
                self.phase = InstallPhase::HashPart;
                InstallAction::HashFile { path, expected }
            },
            None => self.publish(),
        }
    }

    /// Takes in what came of the step before and says what is done next.
    pub fn step(&mut self, event: InstallEvent) -> (r: InstallAction)
        requires
            event matches InstallEvent::Head { status, .. } ==> valid_status(status),
        ensures
            (final(self).deep_view(), r.deep_view()) == old(self).deep_view().after(
                event.deep_view(),
            ),
    {
        match (self.phase, event) {
            (InstallPhase::InspectTarget, InstallEvent::Target { length }) => self.on_target(length),
            (InstallPhase::HashTarget, InstallEvent::Hashed { matches }) => {
                if matches {
                    self.finish(InstallOutcome::AlreadyInstalled)
                } else {
                    self.mismatch()
                }
            },
            (InstallPhase::Head, InstallEvent::Head { status, content_length, accept_ranges }) =>
            self.on_head(status, content_length, accept_ranges),
            (InstallPhase::Head, InstallEvent::Failed { message, unreachable }) =>
            self.on_head_failure(message, unreachable),
            (InstallPhase::Head, InstallEvent::Waited) => InstallAction::RequestHead {
                url: self.url(),
            },
            (InstallPhase::ReadProgress, InstallEvent::Progress { saved, part_exists }) =>
            self.on_progress(saved, part_exists),
            (InstallPhase::MeasureSpace, InstallEvent::Space { mounts }) => {
                let dir = artifact_dir(self.windows, self.comfy_root.as_str(), &self.artifact);
                match ensure_free_space(&mounts, dir.as_str(), self.required, self.windows) {
                    Err(m) => self.fail(m),
                    Ok(_) => {
                        self.phase = InstallPhase::CreateDir;
                        InstallAction::CreateDir { path: self.temp_dir() }
                    },
                }
            },
            (InstallPhase::CreateDir, InstallEvent::Done) => {
                self.phase = InstallPhase::Transfer;
                self.attempt = 0;
                self.transfer()
            },
            (InstallPhase::Transfer, InstallEvent::Done) => {
                self.phase = InstallPhase::MeasurePart;
                InstallAction::MeasurePart { path: self.part_path() }
            },
            (InstallPhase::Transfer, InstallEvent::Failed { message, unreachable }) =>
            self.on_transfer_failure(message, unreachable),
            (InstallPhase::Transfer, InstallEvent::Waited) => self.transfer(),
            (InstallPhase::MeasurePart, InstallEvent::Part { length }) => self.on_part(length),
            (InstallPhase::HashPart, InstallEvent::Hashed { matches }) => {
                if matches {
                    self.publish()
                } else {
                    let message = cat2("SHA-256 mismatch for ", self.artifact.name.as_str());
                    self.fail(message)
                }
            },
            (InstallPhase::Publish, InstallEvent::Done) => {
                self.phase = InstallPhase::RemoveTemp;
                InstallAction::RemoveTemp { path: self.temp_dir() }
            },
            (InstallPhase::RemoveTemp, InstallEvent::Done) => {
                let target = self.target();
                if self.resumed {
                    self.finish(InstallOutcome::Resumed(target))
                } else {
                    self.finish(InstallOutcome::Installed(target))
                }
            },
            (InstallPhase::Over, _) => InstallAction::Ignore,
            (_, InstallEvent::Failed { message, unreachable }) => self.fail(message),
            _ => InstallAction::Ignore,
        }
    }
}

}
