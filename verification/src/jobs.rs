//! The download manager's records, and how each operation changes them.
use crate::catalog::{
    Artifact, ArtifactView, CustomNode, NodeView, SystemDependency, SystemDependencyView,
};
use crate::download::{temp_dir_of, DownloadOptions, OptionsView};
use crate::paths::joined_path;
use crate::text::{decimal, joined, two_digit_text, two_digits, Text};
use vstd::prelude::*;
use vstd::string::*;

verus! {

/// How many log lines are kept.
pub const MAX_LOG_LINES: usize = 1000;

/// How many events are taken in at a time.
pub const EVENTS_PER_TICK: usize = 512;

/// How far a job has come.
#[derive(Clone, Copy, Debug, PartialEq, Eq, Structural)]
pub enum JobStatus {
    Queued,
    Resolving,
    Downloading,
    Processing,
    Installing,
    Paused,
    Failed,
    Completed,
}

impl JobStatus {
    pub open spec fn words(self) -> Text {
        match self {
            JobStatus::Queued => "QUEUED"@,
            JobStatus::Resolving => "RESOLVING"@,
            JobStatus::Downloading => "DOWNLOADING"@,
            JobStatus::Processing => "PROCESSING"@,
            JobStatus::Installing => "INSTALLING"@,
            JobStatus::Paused => "PAUSED"@,
            JobStatus::Failed => "FAILED"@,
            JobStatus::Completed => "DONE"@,
        }
    }

    /// The job is not over and not paused.
    pub open spec fn active(self) -> bool {
        self != JobStatus::Paused && self != JobStatus::Failed && self != JobStatus::Completed
    }

    /// The job takes up one of the places for jobs that run at a time.
    pub open spec fn occupies(self) -> bool {
        self.active() && self != JobStatus::Queued
    }

    /// The status in words.
    pub fn label(self) -> (r: &'static str)
        ensures
            r@ == self.words(),
    {
        match self {
            JobStatus::Queued => "QUEUED",
            JobStatus::Resolving => "RESOLVING",
            JobStatus::Downloading => "DOWNLOADING",
            JobStatus::Processing => "PROCESSING",
            JobStatus::Installing => "INSTALLING",
            JobStatus::Paused => "PAUSED",
            JobStatus::Failed => "FAILED",
            JobStatus::Completed => "DONE",
        }
    }

    /// Whether the job is not over and not paused.
    pub fn is_active(self) -> (r: bool)
        ensures
            r == self.active(),
    {
        match self {
            JobStatus::Queued => true,
            JobStatus::Resolving => true,
            JobStatus::Downloading => true,
            JobStatus::Processing => true,
            JobStatus::Installing => true,
            _ => false,
        }
    }
}

/// The time: of day, and of a clock that only goes forward.
#[derive(Clone, Copy, Debug, PartialEq, Eq, Structural)]
pub struct Clock {
    /// Seconds since the epoch.
    pub seconds: u64,
    /// Nanoseconds of a clock that only goes forward.
    pub nanos: u64,
}

/// How many bytes came in how many nanoseconds.
#[derive(Clone, Copy, Debug, PartialEq, Eq, Structural)]
pub struct Speed {
    pub bytes: u64,
    pub nanos: u64,
}

/// The speed of a job that downloads nothing.
pub open spec fn no_speed() -> Speed {
    Speed { bytes: 0, nanos: 1 }
}

/// The time of day as `hours:minutes:seconds`.
pub open spec fn time_of_day(seconds: u64) -> Text {
    let s = seconds as nat % 86400;
    two_digits(s / 3600) + ":"@ + two_digits(s / 60 % 60) + ":"@ + two_digits(s % 60)
}

/// The time of day as `hours:minutes:seconds`.
pub fn timestamp(seconds: u64) -> (r: String)
    ensures
        r@ == time_of_day(seconds),
{
    let s: u64 = seconds % 86400;
    let h = two_digit_text(s / 3600);
    let m = two_digit_text(s / 60 % 60);
    let t = two_digit_text(s % 60);
    crate::text::cat5(h.as_str(), ":", m.as_str(), ":", t.as_str())
}

/// The download of one artifact.
pub struct Job {
    pub artifact: Artifact,
    pub root: String,
    pub options: DownloadOptions,
    pub status: JobStatus,
    pub downloaded_bytes: u64,
    pub total_bytes: Option<u64>,
    pub speed: Speed,
    pub last_progress: u64,
    pub last_bytes: u64,
    pub error: Option<String>,
    /// A task works on it that can be aborted.
    pub running: bool,
}

/// What a [`Job`] holds.
pub struct JobView {
    pub artifact: ArtifactView,
    pub root: Text,
    pub options: OptionsView,
    pub status: JobStatus,
    pub downloaded_bytes: u64,
    pub total_bytes: Option<u64>,
    pub speed: Speed,
    pub last_progress: u64,
    pub last_bytes: u64,
    pub error: Option<Text>,
    pub running: bool,
}

impl DeepView for Job {
    type V = JobView;

    open spec fn deep_view(&self) -> JobView {
        JobView {
            artifact: self.artifact.deep_view(),
            root: self.root@,
            options: self.options.deep_view(),
            status: self.status,
            downloaded_bytes: self.downloaded_bytes,
            total_bytes: self.total_bytes,
            speed: self.speed,
            last_progress: self.last_progress,
            last_bytes: self.last_bytes,
            error: self.error.deep_view(),
            running: self.running,
        }
    }
}

/// The installation of Python dependencies.
pub struct Operation {
    pub root: String,
    pub pip_index_url: String,
    pub status: JobStatus,
    pub error: Option<String>,
    pub running: bool,
}

/// What an [`Operation`] holds.
pub struct OperationView {
    pub root: Text,
    pub pip_index_url: Text,
    pub status: JobStatus,
    pub error: Option<Text>,
    pub running: bool,
}

impl DeepView for Operation {
    type V = OperationView;

    open spec fn deep_view(&self) -> OperationView {
        OperationView {
            root: self.root@,
            pip_index_url: self.pip_index_url@,
            status: self.status,
            error: self.error.deep_view(),
            running: self.running,
        }
    }
}

/// The installation of packages of the operating system.
pub struct SystemOperation {
    pub dependencies: Vec<SystemDependency>,
    pub status: JobStatus,
    pub error: Option<String>,
    pub running: bool,
}

/// What a [`SystemOperation`] holds.
pub struct SystemOperationView {
    pub dependencies: Seq<SystemDependencyView>,
    pub status: JobStatus,
    pub error: Option<Text>,
    pub running: bool,
}

impl DeepView for SystemOperation {
    type V = SystemOperationView;

    open spec fn deep_view(&self) -> SystemOperationView {
        SystemOperationView {
            dependencies: self.dependencies.deep_view(),
            status: self.status,
            error: self.error.deep_view(),
            running: self.running,
        }
    }
}

/// The installation of one custom node.
pub struct CustomNodeOperation {
    pub node: CustomNode,
    pub root: String,
    pub status: JobStatus,
    pub error: Option<String>,
    pub running: bool,
}

/// What a [`CustomNodeOperation`] holds.
pub struct NodeOperationView {
    pub node: NodeView,
    pub root: Text,
    pub status: JobStatus,
    pub error: Option<Text>,
    pub running: bool,
}

impl DeepView for CustomNodeOperation {
    type V = NodeOperationView;

    open spec fn deep_view(&self) -> NodeOperationView {
        NodeOperationView {
            node: self.node.deep_view(),
            root: self.root@,
            status: self.status,
            error: self.error.deep_view(),
            running: self.running,
        }
    }
}

/// What is saved of a job.
pub struct PersistedJob {
    pub artifact_id: String,
    pub root: String,
    pub status: JobStatus,
    pub downloaded_bytes: u64,
    pub total_bytes: Option<u64>,
    pub endpoint: Option<String>,
    pub force: bool,
}

/// What a [`PersistedJob`] holds.
pub struct PersistedView {
    pub artifact_id: Text,
    pub root: Text,
    pub status: JobStatus,
    pub downloaded_bytes: u64,
    pub total_bytes: Option<u64>,
    pub endpoint: Option<Text>,
    pub force: bool,
}

impl DeepView for PersistedJob {
    type V = PersistedView;

    open spec fn deep_view(&self) -> PersistedView {
        PersistedView {
            artifact_id: self.artifact_id@,
            root: self.root@,
            status: self.status,
            downloaded_bytes: self.downloaded_bytes,
            total_bytes: self.total_bytes,
            endpoint: self.endpoint.deep_view(),
            force: self.force,
        }
    }
}

impl JobView {
    /// What is saved of the job.
    pub open spec fn persisted(self) -> PersistedView {
        PersistedView {
            artifact_id: self.artifact.id,
            root: self.root,
            status: self.status,
            downloaded_bytes: self.downloaded_bytes,
            total_bytes: self.total_bytes,
            endpoint: self.options.hf_endpoint,
            force: self.options.force,
        }
    }
}

/// The task that works on something.
pub enum TaskKey {
    Download(String),
    CustomNode(String),
    PythonDeps,
    SystemDeps,
}

/// What a [`TaskKey`] holds.
pub enum TaskKeyView {
    Download(Text),
    CustomNode(Text),
    PythonDeps,
    SystemDeps,
}

impl DeepView for TaskKey {
    type V = TaskKeyView;

    open spec fn deep_view(&self) -> TaskKeyView {
        match self {
            TaskKey::Download(id) => TaskKeyView::Download(id@),
            TaskKey::CustomNode(id) => TaskKeyView::CustomNode(id@),
            TaskKey::PythonDeps => TaskKeyView::PythonDeps,
            TaskKey::SystemDeps => TaskKeyView::SystemDeps,
        }
    }
}

/// What the caller is asked to do.
pub enum Effect {
    /// Abort the task.
    Abort(TaskKey),
    /// Append the line to the log file.
    AppendLog(String),
    /// Save the jobs.
    Save(Vec<PersistedJob>),
    /// Start a download.
    StartDownload { artifact: Artifact, root: String, options: DownloadOptions },
    /// Start the installation of a custom node.
    StartCustomNode { node: CustomNode, root: String },
    /// Start the installation of Python dependencies.
    StartPythonDeps { root: String, pip_index_url: String },
    /// Start the installation of system packages.
    StartSystemDeps { dependencies: Vec<SystemDependency> },
}

/// What an [`Effect`] holds.
pub enum EffectView {
    Abort(TaskKeyView),
    AppendLog(Text),
    Save(Seq<PersistedView>),
    StartDownload { artifact: ArtifactView, root: Text, options: OptionsView },
    StartCustomNode { node: NodeView, root: Text },
    StartPythonDeps { root: Text, pip_index_url: Text },
    StartSystemDeps { dependencies: Seq<SystemDependencyView> },
}

impl DeepView for Effect {
    type V = EffectView;

    open spec fn deep_view(&self) -> EffectView {
        match self {
            Effect::Abort(key) => EffectView::Abort(key.deep_view()),
            Effect::AppendLog(line) => EffectView::AppendLog(line@),
            Effect::Save(jobs) => EffectView::Save(jobs.deep_view()),
            Effect::StartDownload { artifact, root, options } => EffectView::StartDownload {
                artifact: artifact.deep_view(),
                root: root@,
                options: options.deep_view(),
            },
            Effect::StartCustomNode { node, root } => EffectView::StartCustomNode {
                node: node.deep_view(),
                root: root@,
            },
            Effect::StartPythonDeps { root, pip_index_url } => EffectView::StartPythonDeps {
                root: root@,
                pip_index_url: pip_index_url@,
            },
            Effect::StartSystemDeps { dependencies } => EffectView::StartSystemDeps {
                dependencies: dependencies.deep_view(),
            },
        }
    }
}

/// What a task reports.
pub enum QueueEvent {
    Progress { artifact_id: String, downloaded_bytes: u64, total_bytes: u64 },
    Stage { artifact_id: String, status: JobStatus },
    Finished { artifact_id: String, result: Result<(), String> },
    Log(String),
    OperationFinished(Result<(), String>),
    SystemOperationFinished(Result<(), String>),
    CustomNodeFinished { node_id: String, result: Result<(), String> },
}

/// What a [`QueueEvent`] holds; a result as its error, where it has one.
pub enum QueueEventView {
    Progress { artifact_id: Text, downloaded_bytes: u64, total_bytes: u64 },
    Stage { artifact_id: Text, status: JobStatus },
    Finished { artifact_id: Text, error: Option<Text> },
    Log(Text),
    OperationFinished(Option<Text>),
    SystemOperationFinished(Option<Text>),
    CustomNodeFinished { node_id: Text, error: Option<Text> },
}

/// The error of a result.
pub open spec fn error_in(r: Result<(), String>) -> Option<Text> {
    match r {
        Ok(_) => None,
        Err(m) => Some(m@),
    }
}

impl DeepView for QueueEvent {
    type V = QueueEventView;

    open spec fn deep_view(&self) -> QueueEventView {
        match self {
            QueueEvent::Progress { artifact_id, downloaded_bytes, total_bytes } =>
            QueueEventView::Progress {
                artifact_id: artifact_id@,
                downloaded_bytes: *downloaded_bytes,
                total_bytes: *total_bytes,
            },
            QueueEvent::Stage { artifact_id, status } => QueueEventView::Stage {
                artifact_id: artifact_id@,
                status: *status,
            },
            QueueEvent::Finished { artifact_id, result } => QueueEventView::Finished {
                artifact_id: artifact_id@,
                error: error_in(*result),
            },
            QueueEvent::Log(m) => QueueEventView::Log(m@),
            QueueEvent::OperationFinished(r) => QueueEventView::OperationFinished(error_in(*r)),
            QueueEvent::SystemOperationFinished(r) => QueueEventView::SystemOperationFinished(
                error_in(*r),
            ),
            QueueEvent::CustomNodeFinished { node_id, result } =>
            QueueEventView::CustomNodeFinished { node_id: node_id@, error: error_in(*result) },
        }
    }
}

/// What is shown of a job.
pub struct JobSnapshot {
    pub artifact_id: String,
    pub name: String,
    pub relative_path: String,
    pub status: JobStatus,
    pub downloaded_bytes: u64,
    pub total_bytes: Option<u64>,
    pub speed: Speed,
    pub error: Option<String>,
    pub endpoint: Option<String>,
}

/// What a [`JobSnapshot`] holds.
pub struct SnapshotView {
    pub artifact_id: Text,
    pub name: Text,
    pub relative_path: Text,
    pub status: JobStatus,
    pub downloaded_bytes: u64,
    pub total_bytes: Option<u64>,
    pub speed: Speed,
    pub error: Option<Text>,
    pub endpoint: Option<Text>,
}

impl DeepView for JobSnapshot {
    type V = SnapshotView;

    open spec fn deep_view(&self) -> SnapshotView {
        SnapshotView {
            artifact_id: self.artifact_id@,
            name: self.name@,
            relative_path: self.relative_path@,
            status: self.status,
            downloaded_bytes: self.downloaded_bytes,
            total_bytes: self.total_bytes,
            speed: self.speed,
            error: self.error.deep_view(),
            endpoint: self.endpoint.deep_view(),
        }
    }
}

/// The download manager, as its operations change it.
pub struct QueueView {
    pub jobs: Seq<JobView>,
    pub python_deps: Option<OperationView>,
    pub system_deps: Option<SystemOperationView>,
    pub custom_nodes: Seq<NodeOperationView>,
    pub logs: Seq<Text>,
    pub server_log_path: Option<Text>,
    pub server_log_offset: u64,
    pub server_log_partial: Text,
    pub effects: Seq<EffectView>,
    pub windows: bool,
}

/// What an index of the list of jobs stands for.
pub enum Slot {
    Download(int),
    CustomNode(int),
    PythonDeps,
    SystemDeps,
    Nothing,
}

/// The index of the first job of the artifact from `at` on; -1 where there is none.
pub open spec fn job_at(jobs: Seq<JobView>, id: Text, at: int) -> int
    decreases jobs.len() - at,
{
    if at < 0 || at >= jobs.len() {
        -1
    } else if jobs[at].artifact.id == id {
        at
    } else {
        job_at(jobs, id, at + 1)
    }
}

/// The index of the first operation of the custom node from `at` on; -1 where there is none.
pub open spec fn node_at(nodes: Seq<NodeOperationView>, id: Text, at: int) -> int
    decreases nodes.len() - at,
{
    if at < 0 || at >= nodes.len() {
        -1
    } else if nodes[at].node.id == id {
        at
    } else {
        node_at(nodes, id, at + 1)
    }
}

/// The index of the first queued job from `at` on; -1 where there is none.
pub open spec fn queued_job_at(jobs: Seq<JobView>, at: int) -> int
    decreases jobs.len() - at,
{
    if at < 0 || at >= jobs.len() {
        -1
    } else if jobs[at].status == JobStatus::Queued {
        at
    } else {
        queued_job_at(jobs, at + 1)
    }
}

/// The index of the first queued operation from `at` on; -1 where there is none.
pub open spec fn queued_node_at(nodes: Seq<NodeOperationView>, at: int) -> int
    decreases nodes.len() - at,
{
    if at < 0 || at >= nodes.len() {
        -1
    } else if nodes[at].status == JobStatus::Queued {
        at
    } else {
        queued_node_at(nodes, at + 1)
    }
}

/// How many jobs run.
pub open spec fn running_jobs(jobs: Seq<JobView>) -> nat
    decreases jobs.len(),
{
    if jobs.len() == 0 {
        0
    } else {
        running_jobs(jobs.drop_last()) + if jobs.last().status.occupies() {
            1nat
        } else {
            0nat
        }
    }
}

/// How many installations of custom nodes run.
pub open spec fn running_nodes(nodes: Seq<NodeOperationView>) -> nat
    decreases nodes.len(),
{
    if nodes.len() == 0 {
        0
    } else {
        running_nodes(nodes.drop_last()) + if nodes.last().status.occupies() {
            1nat
        } else {
            0nat
        }
    }
}

/// Some job of the artifact is active.
pub open spec fn has_active_job(jobs: Seq<JobView>, id: Text) -> bool {
    exists|i: int|
        0 <= i < jobs.len() && (#[trigger] jobs[i]).artifact.id == id && jobs[i].status.active()
}

/// Some installation of the custom node is active.
pub open spec fn has_active_node(nodes: Seq<NodeOperationView>, id: Text) -> bool {
    exists|i: int|
        0 <= i < nodes.len() && (#[trigger] nodes[i]).node.id == id && nodes[i].status.active()
}

/// `logs` with one more line; the oldest leaves where there is no room.
pub open spec fn with_line(logs: Seq<Text>, line: Text) -> Seq<Text> {
    if logs.len() == MAX_LOG_LINES {
        logs.skip(1).push(line)
    } else {
        logs.push(line)
    }
}

/// The names of the packages.
pub open spec fn package_names(d: Seq<SystemDependencyView>) -> Seq<Text> {
    Seq::new(d.len(), |i: int| d[i].package)
}

impl QueueView {
    /// The queue after a message was logged.
    pub open spec fn logged(self, message: Text, now: Clock) -> QueueView {
        let line = "["@ + time_of_day(now.seconds) + "] "@ + message;
        QueueView {
            logs: with_line(self.logs, line),
            effects: self.effects.push(EffectView::AppendLog(line)),
            ..self
        }
    }

    pub open spec fn with_effect(self, effect: EffectView) -> QueueView {
        QueueView { effects: self.effects.push(effect), ..self }
    }

    /// What is saved of the queue.
    pub open spec fn persisted(self) -> Seq<PersistedView> {
        self.jobs.map_values(|j: JobView| j.persisted())
    }

    /// The queue after it was saved.
    pub open spec fn saved(self) -> QueueView {
        self.with_effect(EffectView::Save(self.persisted()))
    }

    pub open spec fn with_job(self, at: int, job: JobView) -> QueueView {
        QueueView { jobs: self.jobs.update(at, job), ..self }
    }

    pub open spec fn with_node(self, at: int, op: NodeOperationView) -> QueueView {
        QueueView { custom_nodes: self.custom_nodes.update(at, op), ..self }
    }

    /// What an index of the list of jobs stands for: the downloads come first, then the custom
    /// nodes, the Python dependencies and the system packages.
    pub open spec fn slot(self, index: int) -> Slot {
        let past = index - self.jobs.len();
        let rest = past - self.custom_nodes.len();
        let python: int = if self.python_deps is Some {
            1
        } else {
            0
        };
        if index < self.jobs.len() {
            Slot::Download(index)
        } else if past < self.custom_nodes.len() {
            Slot::CustomNode(past)
        } else if rest == 0 && self.python_deps is Some {
            Slot::PythonDeps
        } else if rest == python && self.system_deps is Some {
            Slot::SystemDeps
        } else {
            Slot::Nothing
        }
    }

    /// The queue after one artifact was queued: one that is queued or downloading stays as it is,
    /// a known one is queued again, and a new one comes at the end.
    pub open spec fn queue_artifact(
        self,
        root: Text,
        artifact: ArtifactView,
        options: OptionsView,
        now: Clock,
    ) -> QueueView {
        let at = job_at(self.jobs, artifact.id, 0);
        if has_active_job(self.jobs, artifact.id) {
            self.logged(artifact.name + " is already queued or downloading"@, now)
        } else if at >= 0 {
            self.with_job(
                at,
                JobView {
                    root,
                    options,
                    status: JobStatus::Queued,
                    error: None,
                    speed: no_speed(),
                    running: false,
                    ..self.jobs[at]
                },
            )
        } else {
            QueueView {
                jobs: self.jobs.push(
                    JobView {
                        artifact,
                        root,
                        options,
                        status: JobStatus::Queued,
                        downloaded_bytes: 0,
                        total_bytes: artifact.size_bytes,
                        speed: no_speed(),
                        last_progress: now.nanos,
                        last_bytes: 0,
                        error: None,
                        running: false,
                    },
                ),
                ..self
            }
        }
    }

    /// The queue after artifacts were queued in order, and how many were.
    pub open spec fn queue_artifacts(
        self,
        root: Text,
        artifacts: Seq<ArtifactView>,
        options: OptionsView,
        now: Clock,
    ) -> (QueueView, nat)
        decreases artifacts.len(),
    {
        if artifacts.len() == 0 {
            (self, 0)
        } else {
            let (q, n) = self.queue_artifacts(root, artifacts.drop_last(), options, now);
            let a = artifacts.last();
            (
                q.queue_artifact(root, a, options, now),
                if has_active_job(q.jobs, a.id) {
                    n
                } else {
                    n + 1
                },
            )
        }
    }

    /// The queue after artifacts were queued, with the note of how many and the save.
    pub open spec fn enqueued(
        self,
        root: Text,
        artifacts: Seq<ArtifactView>,
        options: OptionsView,
        now: Clock,
    ) -> (QueueView, nat) {
        let (q, n) = self.queue_artifacts(root, artifacts, options, now);
        if n > 0 {
            (q.logged("queued "@ + decimal(n) + " artifact download(s)"@, now).saved(), n)
        } else {
            (q, n)
        }
    }

    /// The queue after one custom node was queued.
    pub open spec fn queue_node(self, root: Text, node: NodeView, now: Clock) -> QueueView {
        if has_active_node(self.custom_nodes, node.id) {
            self.logged(node.name + " is already queued or installing"@, now)
        } else {
            let q = self.logged("queued custom-node download "@ + node.name, now);
            let at = node_at(q.custom_nodes, node.id, 0);
            let op = NodeOperationView {
                node,
                root,
                status: JobStatus::Queued,
                error: None,
                running: false,
            };
            if at >= 0 {
                q.with_node(at, op)
            } else {
                QueueView { custom_nodes: q.custom_nodes.push(op), ..q }
            }
        }
    }

    /// The queue after custom nodes were queued in order.
    pub open spec fn queue_nodes(self, root: Text, nodes: Seq<NodeView>, now: Clock) -> QueueView
        decreases nodes.len(),
    {
        if nodes.len() == 0 {
            self
        } else {
            self.queue_nodes(root, nodes.drop_last(), now).queue_node(root, nodes.last(), now)
        }
    }

    /// The queue after the Python dependencies were queued.
    pub open spec fn queue_python(self, root: Text, pip_index_url: Text, now: Clock) -> QueueView {
        QueueView {
            python_deps: Some(
                OperationView {
                    root,
                    pip_index_url,
                    status: JobStatus::Queued,
                    error: None,
                    running: false,
                },
            ),
            ..self
        }.logged("queued ComfyUI Python dependencies via "@ + pip_index_url, now)
    }

    /// The queue after system packages were queued.
    pub open spec fn queue_system(
        self,
        dependencies: Seq<SystemDependencyView>,
        now: Clock,
    ) -> QueueView {
        QueueView {
            system_deps: Some(
                SystemOperationView {
                    dependencies,
                    status: JobStatus::Queued,
                    error: None,
                    running: false,
                },
            ),
            ..self
        }.logged(
            "queued system dependencies: "@ + joined(package_names(dependencies), ", "@),
            now,
        )
    }

    /// The queue after a task reported progress.
    pub open spec fn progressed(self, id: Text, downloaded: u64, total: u64, now: Clock) -> QueueView {
        let at = job_at(self.jobs, id, 0);
        if at < 0 {
            self
        } else {
            let job = self.jobs[at];
            let elapsed = now.nanos - job.last_progress;
            if elapsed > SAMPLE_NANOS {
                self.with_job(
                    at,
                    JobView {
                        speed: Speed {
                            bytes: if downloaded >= job.last_bytes {
                                (downloaded - job.last_bytes) as u64
                            } else {
                                0
                            },
                            nanos: elapsed as u64,
                        },
                        last_progress: now.nanos,
                        last_bytes: downloaded,
                        downloaded_bytes: downloaded,
                        total_bytes: Some(total),
                        ..job
                    },
                )
            } else {
                self.with_job(
                    at,
                    JobView { downloaded_bytes: downloaded, total_bytes: Some(total), ..job },
                )
            }
        }
    }

    /// The queue after a download came to another stage.
    pub open spec fn staged(self, id: Text, status: JobStatus) -> QueueView {
        let at = job_at(self.jobs, id, 0);
        if at < 0 {
            self
        } else {
            self.with_job(
                at,
                JobView {
                    status,
                    speed: if status != JobStatus::Downloading {
                        no_speed()
                    } else {
                        self.jobs[at].speed
                    },
                    ..self.jobs[at]
                },
            )
        }
    }

    /// The queue after a download was over.
    pub open spec fn finished(self, id: Text, error: Option<Text>, now: Clock) -> QueueView {
        let at = job_at(self.jobs, id, 0);
        if at < 0 {
            self
        } else {
            let job = JobView { running: false, speed: no_speed(), ..self.jobs[at] };
            match error {
                None => self.with_job(
                    at,
                    JobView {
                        status: JobStatus::Completed,
                        downloaded_bytes: match job.total_bytes {
                            Some(n) => n,
                            None => job.downloaded_bytes,
                        },
                        ..job
                    },
                ).logged("completed "@ + job.artifact.name, now),
                Some(e) => self.with_job(
                    at,
                    JobView { status: JobStatus::Failed, error: Some(e), ..job },
                ).logged("failed "@ + job.artifact.name + ": "@ + e, now),
            }
        }
    }

    /// The queue after the installation of a custom node was over.
    pub open spec fn node_finished(self, id: Text, error: Option<Text>, now: Clock) -> QueueView {
        let at = node_at(self.custom_nodes, id, 0);
        if at < 0 {
            self
        } else {
            let op = NodeOperationView { running: false, ..self.custom_nodes[at] };
            match error {
                None => self.with_node(
                    at,
                    NodeOperationView { status: JobStatus::Completed, ..op },
                ).logged("completed custom-node download "@ + op.node.name, now),
                Some(e) => self.with_node(
                    at,
                    NodeOperationView { status: JobStatus::Failed, error: Some(e), ..op },
                ).logged("failed custom-node download "@ + op.node.name + ": "@ + e, now),
            }
        }
    }

    /// The queue after the installation of Python dependencies was over.
    pub open spec fn python_finished(self, error: Option<Text>, now: Clock) -> QueueView {
        match (self.python_deps, error) {
            (None, _) => self,
            (Some(op), None) => QueueView {
                python_deps: Some(
                    OperationView { status: JobStatus::Completed, running: false, ..op },
                ),
                ..self
            }.logged("completed ComfyUI Python dependencies"@, now),
            (Some(op), Some(e)) => QueueView {
                python_deps: Some(
                    OperationView {
                        status: JobStatus::Failed,
                        running: false,
                        error: Some(e),
                        ..op
                    },
                ),
                ..self
            }.logged("failed ComfyUI Python dependencies: "@ + e, now),
        }
    }

    /// The queue after the installation of system packages was over.
    pub open spec fn system_finished(self, error: Option<Text>, now: Clock) -> QueueView {
        match (self.system_deps, error) {
            (None, _) => self,
            (Some(op), None) => QueueView {
                system_deps: Some(
                    SystemOperationView { status: JobStatus::Completed, running: false, ..op },
                ),
                ..self
            }.logged("completed system dependencies"@, now),
            (Some(op), Some(e)) => QueueView {
                system_deps: Some(
                    SystemOperationView {
                        status: JobStatus::Failed,
                        running: false,
                        error: Some(e),
                        ..op
                    },
                ),
                ..self
            }.logged("failed system dependencies: "@ + e, now),
        }
    }

    /// The queue after an event.
    pub open spec fn after(self, event: QueueEventView, now: Clock) -> QueueView {
        match event {
            QueueEventView::Log(m) => self.logged(m, now),
            QueueEventView::OperationFinished(e) => self.python_finished(e, now),
            QueueEventView::SystemOperationFinished(e) => self.system_finished(e, now),
            QueueEventView::CustomNodeFinished { node_id, error } => self.node_finished(
                node_id,
                error,
                now,
            ),
            QueueEventView::Progress { artifact_id, downloaded_bytes, total_bytes } =>
            self.progressed(artifact_id, downloaded_bytes, total_bytes, now),
            QueueEventView::Stage { artifact_id, status } => self.staged(artifact_id, status),
            QueueEventView::Finished { artifact_id, error } => self.finished(
                artifact_id,
                error,
                now,
            ),
        }
    }

    /// An event after which the jobs are saved.
    pub open spec fn ends_job(self, event: QueueEventView) -> bool {
        event matches QueueEventView::Finished { artifact_id, .. } && job_at(
            self.jobs,
            artifact_id,
            0,
        ) >= 0
    }

    /// The queue after events, in order, and whether one of them ended a job.
    pub open spec fn after_all(self, events: Seq<QueueEventView>, now: Clock) -> (QueueView, bool)
        decreases events.len(),
    {
        if events.len() == 0 {
            (self, false)
        } else {
            let (q, ended) = self.after_all(events.drop_last(), now);
            (q.after(events.last(), now), ended || q.ends_job(events.last()))
        }
    }

    /// The queue after a download was started.
    pub open spec fn start_job(self, at: int, now: Clock) -> QueueView {
        let job = self.jobs[at];
        self.with_job(
            at,
            JobView {
                status: JobStatus::Resolving,
                last_progress: now.nanos,
                last_bytes: job.downloaded_bytes,
                error: None,
                running: true,
                ..job
            },
        ).logged("started "@ + job.artifact.name, now).with_effect(
            EffectView::StartDownload {
                artifact: job.artifact,
                root: job.root,
                options: job.options,
            },
        )
    }

    /// The queue after the installation of a custom node was started.
    pub open spec fn start_node(self, at: int, now: Clock) -> QueueView {
        let op = self.custom_nodes[at];
        self.with_node(
            at,
            NodeOperationView { status: JobStatus::Installing, error: None, running: true, ..op },
        ).logged("started custom-node download "@ + op.node.name, now).with_effect(
            EffectView::StartCustomNode { node: op.node, root: op.root },
        )
    }

    /// How many places are taken.
    pub open spec fn running(self) -> nat {
        running_jobs(self.jobs) + running_nodes(self.custom_nodes)
    }

    /// Something is queued that waits for a place.
    pub open spec fn has_queued(self) -> bool {
        queued_job_at(self.jobs, 0) >= 0 || queued_node_at(self.custom_nodes, 0) >= 0
    }

    /// The queue after what is queued was started, downloads before custom nodes, while fewer than
    /// `limit` places are taken.
    pub open spec fn start_ready(self, taken: int, limit: int, now: Clock) -> QueueView
        decreases limit - taken,
    {
        if taken >= limit {
            self
        } else if queued_job_at(self.jobs, 0) >= 0 {
            self.start_job(queued_job_at(self.jobs, 0), now).start_ready(taken + 1, limit, now)
        } else if queued_node_at(self.custom_nodes, 0) >= 0 {
            self.start_node(queued_node_at(self.custom_nodes, 0), now).start_ready(
                taken + 1,
                limit,
                now,
            )
        } else {
            self
        }
    }

    pub open spec fn python_queued(self) -> bool {
        self.python_deps matches Some(op) && op.status == JobStatus::Queued
    }

    pub open spec fn system_queued(self) -> bool {
        self.system_deps matches Some(op) && op.status == JobStatus::Queued
    }

    /// The queue after queued Python dependencies were started.
    pub open spec fn start_python(self, now: Clock) -> QueueView {
        match self.python_deps {
            Some(op) => if op.status == JobStatus::Queued {
                QueueView {
                    python_deps: Some(
                        OperationView { status: JobStatus::Installing, running: true, ..op },
                    ),
                    ..self
                }.logged("started ComfyUI Python dependencies"@, now).with_effect(
                    EffectView::StartPythonDeps {
                        root: op.root,
                        pip_index_url: op.pip_index_url,
                    },
                )
            } else {
                self
            },
            None => self,
        }
    }

    /// The queue after queued system packages were started.
    pub open spec fn start_system(self, now: Clock) -> QueueView {
        match self.system_deps {
            Some(op) => if op.status == JobStatus::Queued {
                QueueView {
                    system_deps: Some(
                        SystemOperationView { status: JobStatus::Installing, running: true, ..op },
                    ),
                    ..self
                }.logged("started system dependencies"@, now).with_effect(
                    EffectView::StartSystemDeps { dependencies: op.dependencies },
                )
            } else {
                self
            },
            None => self,
        }
    }

    /// The queue after one round: events are taken in, what is queued is started as far as there
    /// are places, and the jobs are saved where a download ended or something was started.
    pub open spec fn ticked(self, events: Seq<QueueEventView>, max_concurrent: usize, now: Clock) -> QueueView {
        let limit: int = if max_concurrent >= 1 {
            max_concurrent as int
        } else {
            1
        };
        let (q, ended) = self.after_all(events, now);
        let starting = q.running() < limit && q.has_queued();
        let next = q.start_ready(q.running() as int, limit, now).start_python(now).start_system(
            now,
        );
        if ended || starting {
            next.saved()
        } else {
            next
        }
    }

    /// Whether the round changes anything.
    pub open spec fn tick_changes(
        self,
        events: Seq<QueueEventView>,
        max_concurrent: usize,
        now: Clock,
    ) -> bool {
        let limit: int = if max_concurrent >= 1 {
            max_concurrent as int
        } else {
            1
        };
        let q = self.after_all(events, now).0;
        events.len() > 0 || (q.running() < limit && q.has_queued()) || q.python_queued()
            || q.system_queued()
    }

    /// The queue after the task that works on something was aborted.
    pub open spec fn abort_if(self, running: bool, key: TaskKeyView) -> QueueView {
        if running {
            self.with_effect(EffectView::Abort(key))
        } else {
            self
        }
    }

    /// The queue after something was paused.
    pub open spec fn paused(self, index: int, now: Clock) -> QueueView {
        match self.slot(index) {
            Slot::Download(i) => {
                let job = self.jobs[i];
                let q = self.abort_if(job.running, TaskKeyView::Download(job.artifact.id));
                if job.status.active() {
                    q.with_job(
                        i,
                        JobView {
                            running: false,
                            status: JobStatus::Paused,
                            speed: no_speed(),
                            ..job
                        },
                    ).logged(
                        "paused "@ + job.artifact.name + "; verified chunks were retained"@,
                        now,
                    ).saved()
                } else {
                    q.with_job(i, JobView { running: false, ..job })
                }
            },
            Slot::CustomNode(i) => {
                let op = self.custom_nodes[i];
                let q = self.abort_if(op.running, TaskKeyView::CustomNode(op.node.id));
                if op.status.active() {
                    q.with_node(
                        i,
                        NodeOperationView { running: false, status: JobStatus::Paused, ..op },
                    ).logged("paused custom-node install "@ + op.node.name, now)
                } else {
                    q.with_node(i, NodeOperationView { running: false, ..op })
                }
            },
            Slot::PythonDeps => {
                let op = self.python_deps->0;
                let q = self.abort_if(op.running, TaskKeyView::PythonDeps);
                QueueView {
                    python_deps: Some(
                        OperationView { running: false, status: JobStatus::Paused, ..op },
                    ),
                    ..q
                }.logged("paused ComfyUI Python dependencies"@, now)
            },
            Slot::SystemDeps => self.logged(
                "system dependency installation cannot be paused safely; let apt-get finish"@,
                now,
            ),
            Slot::Nothing => self,
        }
    }

    /// The queue after something whose status is `from` was queued again.
    pub open spec fn requeued(
        self,
        index: int,
        from: JobStatus,
        before: Text,
        after: Text,
        now: Clock,
    ) -> QueueView {
        match self.slot(index) {
            Slot::Download(i) => {
                let job = self.jobs[i];
                if job.status == from {
                    self.with_job(
                        i,
                        JobView { status: JobStatus::Queued, error: None, ..job },
                    ).logged(before + job.artifact.name + after, now).saved()
                } else {
                    self
                }
            },
            Slot::CustomNode(i) => {
                let op = self.custom_nodes[i];
                if op.status == from {
                    self.with_node(
                        i,
                        NodeOperationView { status: JobStatus::Queued, error: None, ..op },
                    )
                } else {
                    self
                }
            },
            Slot::PythonDeps => {
                let op = self.python_deps->0;
                if op.status == from {
                    QueueView {
                        python_deps: Some(
                            OperationView { status: JobStatus::Queued, error: None, ..op },
                        ),
                        ..self
                    }
                } else {
                    self
                }
            },
            Slot::SystemDeps => {
                let op = self.system_deps->0;
                if op.status == from {
                    QueueView {
                        system_deps: Some(
                            SystemOperationView { status: JobStatus::Queued, error: None, ..op },
                        ),
                        ..self
                    }
                } else {
                    self
                }
            },
            Slot::Nothing => self,
        }
    }

    /// The queue after something paused was continued.
    pub open spec fn resumed(self, index: int, now: Clock) -> QueueView {
        self.requeued(
            index,
            JobStatus::Paused,
            "continued "@,
            " from retained download state"@,
            now,
        )
    }

    /// The queue after something that failed was tried again.
    pub open spec fn retried(self, index: int, now: Clock) -> QueueView {
        self.requeued(index, JobStatus::Failed, "retrying failed download "@, ""@, now)
    }

    /// The snapshots of everything, in the order of the slots.
    pub open spec fn snapshots(self) -> Seq<SnapshotView> {
        self.jobs.map_values(|j: JobView| job_snapshot(j)) + self.custom_nodes.map_values(
            |n: NodeOperationView| node_snapshot(self.windows, n),
        ) + (match self.python_deps {
            Some(op) => seq![python_snapshot(self.windows, op)],
            None => Seq::empty(),
        }) + (match self.system_deps {
            Some(op) => seq![system_snapshot(op)],
            None => Seq::empty(),
        })
    }

    /// Something is active.
    pub open spec fn any_active(self) -> bool {
        ||| exists|i: int| 0 <= i < self.jobs.len() && (#[trigger] self.jobs[i]).status.active()
        ||| self.python_deps matches Some(op) && op.status.active()
        ||| self.system_deps matches Some(op) && op.status.active()
        ||| exists|i: int|
            0 <= i < self.custom_nodes.len() && (#[trigger] self.custom_nodes[i]).status.active()
    }

    /// The queue after the number of chunks at a time was set: downloads under way keep theirs, and
    /// installations of custom nodes that run are aborted and paused.
    pub open spec fn with_parallelism(self, parallelism: usize, now: Clock) -> QueueView {
        let n: usize = if parallelism >= 1 {
            parallelism
        } else {
            1
        };
        QueueView {
            jobs: self.jobs.map_values(|j: JobView| job_with_parallelism(j, n)),
            custom_nodes: self.custom_nodes.map_values(|op: NodeOperationView| node_stopped(op)),
            effects: self.effects + node_aborts(self.custom_nodes),
            ..self
        }.logged("per-file chunk parallelism set to "@ + decimal(n as nat), now)
    }

    /// The queue after the jobs of the artifacts were forgotten.
    pub open spec fn forgotten(self, ids: Set<Text>) -> QueueView {
        QueueView {
            jobs: kept_jobs(self.jobs, ids),
            effects: self.effects + forgotten_aborts(self.jobs, ids),
            ..self
        }.saved()
    }

    /// The queue after it was closed: what runs is aborted and paused, and the jobs are saved.
    pub open spec fn closed_down(self) -> QueueView {
        let q = QueueView {
            jobs: self.jobs.map_values(|j: JobView| job_stopped(j)),
            effects: self.effects + job_aborts(self.jobs),
            ..self
        };
        let q = match q.python_deps {
            Some(op) => if op.running {
                QueueView {
                    python_deps: Some(
                        OperationView { running: false, status: JobStatus::Paused, ..op },
                    ),
                    ..q.with_effect(EffectView::Abort(TaskKeyView::PythonDeps))
                }
            } else {
                q
            },
            None => q,
        };
        q.saved()
    }
}

/// The least time between two samples of a download's speed: a twentieth of a second.
pub const SAMPLE_NANOS: u64 = 50000000;

/// What is shown of a download.
pub open spec fn job_snapshot(job: JobView) -> SnapshotView {
    SnapshotView {
        artifact_id: job.artifact.id,
        name: job.artifact.name,
        relative_path: job.artifact.relative_path,
        status: job.status,
        downloaded_bytes: job.downloaded_bytes,
        total_bytes: job.total_bytes,
        speed: job.speed,
        error: job.error,
        endpoint: job.options.hf_endpoint,
    }
}

/// What is shown of the installation of a custom node.
pub open spec fn node_snapshot(windows: bool, op: NodeOperationView) -> SnapshotView {
    SnapshotView {
        artifact_id: "custom-node:"@ + op.node.id,
        name: op.node.name,
        relative_path: joined_path(
            windows,
            joined_path(windows, op.root, "custom_nodes"@),
            op.node.folder_name,
        ),
        status: op.status,
        downloaded_bytes: 0,
        total_bytes: None,
        speed: no_speed(),
        error: op.error,
        endpoint: Some(op.node.git_url),
    }
}

/// What is shown of the installation of Python dependencies.
pub open spec fn python_snapshot(windows: bool, op: OperationView) -> SnapshotView {
    SnapshotView {
        artifact_id: "python-dependencies"@,
        name: "ComfyUI Python dependencies"@,
        relative_path: joined_path(windows, op.root, ".venv"@),
        status: op.status,
        downloaded_bytes: 0,
        total_bytes: None,
        speed: no_speed(),
        error: op.error,
        endpoint: Some(op.pip_index_url),
    }
}

/// What is shown of the installation of system packages.
pub open spec fn system_snapshot(op: SystemOperationView) -> SnapshotView {
    SnapshotView {
        artifact_id: "system-dependencies"@,
        name: "System dependencies"@,
        relative_path: joined(package_names(op.dependencies), ", "@),
        status: op.status,
        downloaded_bytes: 0,
        total_bytes: None,
        speed: no_speed(),
        error: op.error,
        endpoint: Some("apt-get"@),
    }
}

/// `job` with another number of chunks at a time, unless it is downloading.
pub open spec fn job_with_parallelism(job: JobView, n: usize) -> JobView {
    if job.status != JobStatus::Downloading {
        JobView { options: OptionsView { parallelism: n, ..job.options }, ..job }
    } else {
        job
    }
}

/// `job` after its task was aborted, where it has one.
pub open spec fn job_stopped(job: JobView) -> JobView {
    if job.running {
        JobView { running: false, status: JobStatus::Paused, ..job }
    } else {
        job
    }
}

/// `op` after its task was aborted, where it has one.
pub open spec fn node_stopped(op: NodeOperationView) -> NodeOperationView {
    if op.running {
        NodeOperationView { running: false, status: JobStatus::Paused, ..op }
    } else {
        op
    }
}

/// The aborts of the custom nodes' tasks.
pub open spec fn node_aborts(nodes: Seq<NodeOperationView>) -> Seq<EffectView>
    decreases nodes.len(),
{
    if nodes.len() == 0 {
        Seq::empty()
    } else {
        let rest = node_aborts(nodes.drop_last());
        if nodes.last().running {
            rest.push(EffectView::Abort(TaskKeyView::CustomNode(nodes.last().node.id)))
        } else {
            rest
        }
    }
}

/// The aborts of the downloads' tasks.
pub open spec fn job_aborts(jobs: Seq<JobView>) -> Seq<EffectView>
    decreases jobs.len(),
{
    if jobs.len() == 0 {
        Seq::empty()
    } else {
        let rest = job_aborts(jobs.drop_last());
        if jobs.last().running {
            rest.push(EffectView::Abort(TaskKeyView::Download(jobs.last().artifact.id)))
        } else {
            rest
        }
    }
}

/// The aborts of the tasks of forgotten downloads.
pub open spec fn forgotten_aborts(jobs: Seq<JobView>, ids: Set<Text>) -> Seq<EffectView>
    decreases jobs.len(),
{
    if jobs.len() == 0 {
        Seq::empty()
    } else {
        let rest = forgotten_aborts(jobs.drop_last(), ids);
        if ids.contains(jobs.last().artifact.id) && jobs.last().running {
            rest.push(EffectView::Abort(TaskKeyView::Download(jobs.last().artifact.id)))
        } else {
            rest
        }
    }
}

/// The jobs whose artifacts are not forgotten, in order.
pub open spec fn kept_jobs(jobs: Seq<JobView>, ids: Set<Text>) -> Seq<JobView>
    decreases jobs.len(),
{
    if jobs.len() == 0 {
        Seq::empty()
    } else {
        let rest = kept_jobs(jobs.drop_last(), ids);
        if ids.contains(jobs.last().artifact.id) {
            rest
        } else {
            rest.push(jobs.last())
        }
    }
}

/// What a removal leaves to be done: the temporary data to delete, and what is noted after that.
pub struct Removal {
    /// The temporary directory to delete.
    pub temp_dir: Option<String>,
    /// The custom node whose temporary directories are to be deleted, with the ComfyUI root.
    pub node_temp: Option<(String, String)>,
    pub message: String,
    /// The jobs are to be saved.
    pub save: bool,
}

/// What a [`Removal`] holds.
pub struct RemovalView {
    pub temp_dir: Option<Text>,
    pub node_temp: Option<(Text, Text)>,
    pub message: Text,
    pub save: bool,
}

impl DeepView for Removal {
    type V = RemovalView;

    open spec fn deep_view(&self) -> RemovalView {
        RemovalView {
            temp_dir: self.temp_dir.deep_view(),
            node_temp: self.node_temp.deep_view(),
            message: self.message@,
            save: self.save,
        }
    }
}

impl QueueView {
    /// The queue after a record was taken out, and what is left to be done; an error where nothing
    /// is taken out.
    pub open spec fn removed(self, index: int, delete_temp: bool) -> (
        QueueView,
        Result<RemovalView, Text>,
    ) {
        match self.slot(index) {
            Slot::Download(i) => {
                let job = self.jobs[i];
                (
                    QueueView {
                        jobs: self.jobs.remove(i),
                        ..self.abort_if(job.running, TaskKeyView::Download(job.artifact.id))
                    },
                    Ok(
                        RemovalView {
                            temp_dir: if delete_temp {
                                Some(temp_dir_of(self.windows, job.root, job.artifact))
                            } else {
                                None
                            },
                            node_temp: None,
                            message: "removed "@ + job.artifact.name + " from download manager"@
                                + if delete_temp {
                                " and deleted temporary data"@
                            } else {
                                "; installed artifact and temporary data were left untouched"@
                            },
                            save: true,
                        },
                    ),
                )
            },
            Slot::CustomNode(i) => {
                let op = self.custom_nodes[i];
                (
                    QueueView {
                        custom_nodes: self.custom_nodes.remove(i),
                        ..self.abort_if(op.running, TaskKeyView::CustomNode(op.node.id))
                    },
                    Ok(
                        RemovalView {
                            temp_dir: None,
                            node_temp: if delete_temp {
                                Some((op.root, op.node.id))
                            } else {
                                None
                            },
                            message: "removed "@ + op.node.name + " from download manager"@,
                            save: false,
                        },
                    ),
                )
            },
            Slot::PythonDeps => (
                QueueView {
                    python_deps: None,
                    ..self.abort_if(self.python_deps->0.running, TaskKeyView::PythonDeps)
                },
                Ok(
                    RemovalView {
                        temp_dir: None,
                        node_temp: None,
                        message: "removed Python dependency operation from download manager"@,
                        save: false,
                    },
                ),
            ),
            Slot::SystemDeps => if self.system_deps->0.status.active() {
                (self, Err("active system package installation cannot be removed safely"@))
            } else {
                (
                    QueueView { system_deps: None, ..self },
                    Ok(
                        RemovalView {
                            temp_dir: None,
                            node_temp: None,
                            message: "removed system dependency operation from download manager"@,
                            save: false,
                        },
                    ),
                )
            },
            Slot::Nothing => (self, Err("download record no longer exists"@)),
        }
    }

    /// The queue after a removal was done.
    pub open spec fn removal_noted(self, removal: RemovalView, now: Clock) -> QueueView {
        let q = self.logged(removal.message, now);
        if removal.save {
            q.saved()
        } else {
            q
        }
    }
}

}
