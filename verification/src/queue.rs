//! The download manager: downloads and installations that are queued, run, paused, retried and
//! removed. Every operation works on the records alone; what is to be done outside is collected
//! as effects for the caller.
use crate::catalog::{
    copy_dependencies, Artifact, Catalog, CatalogView, CustomNode, SystemDependency,
};
use crate::config::AppConfig;
use crate::download::{DownloadOptions, OptionsView};
use crate::ids::IdSet;
use crate::jobs::{
    error_in, has_active_job, has_active_node, job_at, no_speed, node_at, package_names,
    queued_job_at, queued_node_at, running_jobs, running_nodes, timestamp, with_line, Clock,
    CustomNodeOperation, Effect, Job, JobStatus, JobView, Operation, PersistedJob, PersistedView,
    QueueEvent, QueueEventView, QueueView, Speed, SystemOperation, EVENTS_PER_TICK, MAX_LOG_LINES,
    SAMPLE_NANOS,
};
use crate::text::{
    cat2, cat3, cat4, clone_opt, decimal_text, join_texts, lines, lines_of, replace_text,
    replaced_from, same_text, Text,
};
use vstd::prelude::*;
use vstd::string::*;

verus! {

/// The download manager.
pub struct DownloadQueue {
    pub jobs: Vec<Job>,
    pub python_deps: Option<Operation>,
    pub system_deps: Option<SystemOperation>,
    pub custom_nodes: Vec<CustomNodeOperation>,
    pub logs: Vec<String>,
    pub server_log_path: Option<String>,
    pub server_log_offset: u64,
    pub server_log_partial: String,
    pub effects: Vec<Effect>,
    pub windows: bool,
}

impl DeepView for DownloadQueue {
    type V = QueueView;

    open spec fn deep_view(&self) -> QueueView {
        QueueView {
            jobs: self.jobs.deep_view(),
            python_deps: self.python_deps.deep_view(),
            system_deps: self.system_deps.deep_view(),
            custom_nodes: self.custom_nodes.deep_view(),
            logs: self.logs.deep_view(),
            server_log_path: self.server_log_path.deep_view(),
            server_log_offset: self.server_log_offset,
            server_log_partial: self.server_log_partial@,
            effects: self.effects.deep_view(),
            windows: self.windows,
        }
    }
}

/// The saved queue with the older status `Stopped` read as `Paused`.
pub fn migrate_saved_queue(raw: &str) -> (r: String)
    ensures
        r@ == replaced_from(raw@, "\"Stopped\""@, "\"Paused\""@, 0),
{
    proof {
        reveal_strlit("\"Stopped\"");
    }
    replace_text(raw, "\"Stopped\"", "\"Paused\"")
}

/// The job that a saved one becomes: what was active is paused.
pub open spec fn restored(
    saved: PersistedView,
    artifact: crate::catalog::ArtifactView,
    parallelism: usize,
    chunk_size_bytes: u64,
    token: Option<Text>,
    now: Clock,
) -> JobView {
    JobView {
        artifact,
        root: saved.root,
        options: OptionsView {
            parallelism,
            chunk_size_bytes,
            force: saved.force,
            hf_endpoint: saved.endpoint,
            hf_token: token,
        },
        status: if saved.status.active() {
            JobStatus::Paused
        } else {
            saved.status
        },
        downloaded_bytes: saved.downloaded_bytes,
        total_bytes: saved.total_bytes,
        speed: no_speed(),
        last_progress: now.nanos,
        last_bytes: saved.downloaded_bytes,
        error: None,
        running: false,
    }
}

/// The jobs that saved ones become, in order; those of unknown artifacts are left out.
pub open spec fn restored_jobs(
    saved: Seq<PersistedView>,
    c: CatalogView,
    parallelism: usize,
    chunk_size_bytes: u64,
    token: Option<Text>,
    now: Clock,
) -> Seq<JobView>
    decreases saved.len(),
{
    if saved.len() == 0 {
        Seq::empty()
    } else {
        let rest = restored_jobs(
            saved.drop_last(),
            c,
            parallelism,
            chunk_size_bytes,
            token,
            now,
        );
        match crate::catalog::found::<Artifact>(c.artifacts, saved.last().artifact_id) {
            Some(a) => rest.push(
                restored(saved.last(), a, parallelism, chunk_size_bytes, token, now),
            ),
            None => rest,
        }
    }
}

/// The last `n` of `s`.
pub open spec fn last_of(s: Seq<Text>, n: int) -> Seq<Text> {
    if s.len() <= n {
        s
    } else {
        s.skip(s.len() - n)
    }
}

/// The lines of the log file that are shown.
pub open spec fn shown_lines(log: Option<Text>) -> Seq<Text> {
    match log {
        Some(t) => last_of(lines_of(t), MAX_LOG_LINES as int),
        None => Seq::empty(),
    }
}

fn last_lines(text: &str) -> (r: Vec<String>)
    ensures
        r.deep_view() == last_of(lines_of(text@), MAX_LOG_LINES as int),
{
    let all = lines(text);
    let ghost views = all.deep_view();
    if all.len() <= MAX_LOG_LINES {
        return all;
    }
    let from: usize = all.len() - MAX_LOG_LINES;
    let mut out: Vec<String> = Vec::new();
    let mut i: usize = from;
    assert(out.deep_view() =~= views.skip(from as int).take(0));
    while i < all.len()
        invariant
            from <= i <= all@.len(),
            views == all.deep_view(),
            out.deep_view() == views.skip(from as int).take(i - from),
        decreases all@.len() - i,
    {
        let ghost before = out.deep_view();
        out.push(all[i].clone());
        assert(out.deep_view() =~= before.push(views[i as int]));
        assert(out.deep_view() =~= views.skip(from as int).take(i - from + 1));
        i += 1;
    }
    assert(out.deep_view() =~= views.skip(from as int));
    out
}

/// The stage that a message of the download engine reports.
pub open spec fn stage_in(message: Text) -> Option<JobStatus> {
    if message == "phase:resolving"@ {
        Some(JobStatus::Resolving)
    } else if message == "phase:downloading"@ {
        Some(JobStatus::Downloading)
    } else if message == "phase:processing"@ {
        Some(JobStatus::Processing)
    } else if message == "phase:installing"@ {
        Some(JobStatus::Installing)
    } else {
        None
    }
}

/// What a message of a download tells the queue: its stage, where it names one, and a line of log.
pub open spec fn events_of(artifact: Text, message: Text) -> Seq<QueueEventView> {
    (match stage_in(message) {
        Some(status) => seq![QueueEventView::Stage { artifact_id: artifact, status }],
        None => Seq::empty(),
    }).push(QueueEventView::Log("[DOWNLOAD] "@ + message))
}

/// The events of a message of the download engine: the stage that it reports, and a line of log.
pub fn message_events(artifact_id: &str, message: &str) -> (r: Vec<QueueEvent>)
    ensures
        r.deep_view() == events_of(artifact_id@, message@),
{
    let stage = if same_text(message, "phase:resolving") {
        Some(JobStatus::Resolving)
    } else if same_text(message, "phase:downloading") {
        Some(JobStatus::Downloading)
    } else if same_text(message, "phase:processing") {
        Some(JobStatus::Processing)
    } else if same_text(message, "phase:installing") {
        Some(JobStatus::Installing)
    } else {
        None
    };
    assert(stage == stage_in(message@));
    let mut out: Vec<QueueEvent> = Vec::new();
    if let Some(status) = stage {
        out.push(QueueEvent::Stage { artifact_id: artifact_id.to_owned(), status });
    }
    out.push(QueueEvent::Log(cat2("[DOWNLOAD] ", message)));
    assert(out.deep_view() =~= (match stage {
        Some(status) => seq![QueueEventView::Stage { artifact_id: artifact_id@, status }],
        None => Seq::empty(),
    }).push(QueueEventView::Log("[DOWNLOAD] "@ + message@)));
    out
}

pub(crate) fn find_job(jobs: &Vec<Job>, id: &str) -> (r: Option<usize>)
    ensures
        match r {
            Some(i) => i < jobs@.len() && job_at(jobs.deep_view(), id@, 0) == i,
            None => job_at(jobs.deep_view(), id@, 0) == -1,
        },
{
    let ghost views = jobs.deep_view();
    let mut i: usize = 0;
    while i < jobs.len()
        invariant
            i <= jobs@.len(),
            views == jobs.deep_view(),
            job_at(views, id@, 0) == job_at(views, id@, i as int),
        decreases jobs@.len() - i,
    {
        assert(views[i as int] == jobs@[i as int].deep_view());
        if same_text(jobs[i].artifact.id.as_str(), id) {
            return Some(i);
        }
        i += 1;
    }
    None
}

pub(crate) fn find_node(nodes: &Vec<CustomNodeOperation>, id: &str) -> (r: Option<usize>)
    ensures
        match r {
            Some(i) => i < nodes@.len() && node_at(nodes.deep_view(), id@, 0) == i,
            None => node_at(nodes.deep_view(), id@, 0) == -1,
        },
{
    let ghost views = nodes.deep_view();
    let mut i: usize = 0;
    while i < nodes.len()
        invariant
            i <= nodes@.len(),
            views == nodes.deep_view(),
            node_at(views, id@, 0) == node_at(views, id@, i as int),
        decreases nodes@.len() - i,
    {
        assert(views[i as int] == nodes@[i as int].deep_view());
        if same_text(nodes[i].node.id.as_str(), id) {
            return Some(i);
        }
        i += 1;
    }
    None
}

fn find_queued_job(jobs: &Vec<Job>) -> (r: Option<usize>)
    ensures
        match r {
            Some(i) => i < jobs@.len() && queued_job_at(jobs.deep_view(), 0) == i,
            None => queued_job_at(jobs.deep_view(), 0) == -1,
        },
{
    let ghost views = jobs.deep_view();
    let mut i: usize = 0;
    while i < jobs.len()
        invariant
            i <= jobs@.len(),
            views == jobs.deep_view(),
            queued_job_at(views, 0) == queued_job_at(views, i as int),
        decreases jobs@.len() - i,
    {
        assert(views[i as int] == jobs@[i as int].deep_view());
        if jobs[i].status == JobStatus::Queued {
            return Some(i);
        }
        i += 1;
    }
    None
}

fn find_queued_node(nodes: &Vec<CustomNodeOperation>) -> (r: Option<usize>)
    ensures
        match r {
            Some(i) => i < nodes@.len() && queued_node_at(nodes.deep_view(), 0) == i,
            None => queued_node_at(nodes.deep_view(), 0) == -1,
        },
{
    let ghost views = nodes.deep_view();
    let mut i: usize = 0;
    while i < nodes.len()
        invariant
            i <= nodes@.len(),
            views == nodes.deep_view(),
            queued_node_at(views, 0) == queued_node_at(views, i as int),
        decreases nodes@.len() - i,
    {
        assert(views[i as int] == nodes@[i as int].deep_view());
        if nodes[i].status == JobStatus::Queued {
            return Some(i);
        }
        i += 1;
    }
    None
}

fn any_active_job(jobs: &Vec<Job>, id: &str) -> (r: bool)
    ensures
        r == has_active_job(jobs.deep_view(), id@),
{
    let ghost views = jobs.deep_view();
    let mut i: usize = 0;
    while i < jobs.len()
        invariant
            i <= jobs@.len(),
            views == jobs.deep_view(),
            forall|k: int|
                0 <= k < i ==> !((#[trigger] views[k]).artifact.id == id@
                    && views[k].status.active()),
        decreases jobs@.len() - i,
    {
        assert(views[i as int] == jobs@[i as int].deep_view());
        if same_text(jobs[i].artifact.id.as_str(), id) && jobs[i].status.is_active() {
            return true;
        }
        i += 1;
    }
    false
}

fn any_active_node(nodes: &Vec<CustomNodeOperation>, id: &str) -> (r: bool)
    ensures
        r == has_active_node(nodes.deep_view(), id@),
{
    let ghost views = nodes.deep_view();
    let mut i: usize = 0;
    while i < nodes.len()
        invariant
            i <= nodes@.len(),
            views == nodes.deep_view(),
            forall|k: int|
                0 <= k < i ==> !((#[trigger] views[k]).node.id == id@ && views[k].status.active()),
        decreases nodes@.len() - i,
    {
        assert(views[i as int] == nodes@[i as int].deep_view());
        if same_text(nodes[i].node.id.as_str(), id) && nodes[i].status.is_active() {
            return true;
        }
        i += 1;
    }
    false
}

fn occupies_place(status: JobStatus) -> (r: bool)
    ensures
        r == status.occupies(),
{
    status.is_active() && status != JobStatus::Queued
}

fn count_running_jobs(jobs: &Vec<Job>) -> (r: usize)
    ensures
        r == running_jobs(jobs.deep_view()),
        r <= jobs@.len(),
{
    let ghost views = jobs.deep_view();
    let mut n: usize = 0;
    let mut i: usize = 0;
    assert(views.take(0) =~= Seq::empty());
    while i < jobs.len()
        invariant
            i <= jobs@.len(),
            n <= i,
            views == jobs.deep_view(),
            n == running_jobs(views.take(i as int)),
        decreases jobs@.len() - i,
    {
        proof {
            assert(views[i as int] == jobs@[i as int].deep_view());
            assert(views.take(i + 1).drop_last() =~= views.take(i as int));
        }
        if occupies_place(jobs[i].status) {
            n += 1;
        }
        i += 1;
    }
    assert(views.take(views.len() as int) =~= views);
    n
}

fn count_running_nodes(nodes: &Vec<CustomNodeOperation>) -> (r: usize)
    ensures
        r == running_nodes(nodes.deep_view()),
        r <= nodes@.len(),
{
    let ghost views = nodes.deep_view();
    let mut n: usize = 0;
    let mut i: usize = 0;
    assert(views.take(0) =~= Seq::empty());
    while i < nodes.len()
        invariant
            i <= nodes@.len(),
            n <= i,
            views == nodes.deep_view(),
            n == running_nodes(views.take(i as int)),
        decreases nodes@.len() - i,
    {
        proof {
            assert(views[i as int] == nodes@[i as int].deep_view());
            assert(views.take(i + 1).drop_last() =~= views.take(i as int));
        }
        if occupies_place(nodes[i].status) {
            n += 1;
        }
        i += 1;
    }
    assert(views.take(views.len() as int) =~= views);
    n
}

pub(crate) fn zero_speed() -> (r: Speed)
    ensures
        r == no_speed(),
{
    Speed { bytes: 0, nanos: 1 }
}

pub(crate) fn packages_in(d: &Vec<SystemDependency>) -> (r: Vec<String>)
    ensures
        r.deep_view() == package_names(d.deep_view()),
{
    let ghost names = package_names(d.deep_view());
    let mut out: Vec<String> = Vec::new();
    let mut i: usize = 0;
    while i < d.len()
        invariant
            i <= d@.len(),
            names == package_names(d.deep_view()),
            out.deep_view() == names.take(i as int),
        decreases d@.len() - i,
    {
        let ghost before = out.deep_view();
        out.push(d[i].package.clone());
        assert(out.deep_view() =~= before.push(names[i as int]));
        assert(out.deep_view() =~= names.take(i + 1));
        i += 1;
    }
    assert(names.take(names.len() as int) =~= names);
    out
}

/// Why Python dependencies cannot be installed, where they cannot.
pub open spec fn python_order(main_is_file: bool, requirements_is_file: bool) -> Option<Text> {
    if main_is_file && requirements_is_file {
        None
    } else {
        Some("install or locate ComfyUI before installing Python dependencies"@)
    }
}

/// Why system packages cannot be installed, where they cannot.
pub open spec fn system_order(linux: bool, apt_exists: bool) -> Option<Text> {
    if !linux {
        Some("automatic system dependency installation is only supported on Linux"@)
    } else if !apt_exists {
        Some("apt-get is unavailable; install the manifest system packages manually"@)
    } else {
        None
    }
}

/// The queue after the system packages that are missing were queued, where any are.
pub open spec fn system_ordered(
    q: QueueView,
    dependencies: Seq<crate::catalog::SystemDependencyView>,
    installed: Set<Text>,
    now: Clock,
) -> QueueView {
    let missing = missing_packages(dependencies, installed);
    if missing.len() == 0 {
        q.logged("all manifest system dependencies are already installed"@, now)
    } else {
        q.queue_system(missing, now)
    }
}

/// The dependencies whose packages are not installed, in order.
pub open spec fn missing_packages(
    d: Seq<crate::catalog::SystemDependencyView>,
    installed: Set<Text>,
) -> Seq<crate::catalog::SystemDependencyView>
    decreases d.len(),
{
    if d.len() == 0 {
        Seq::empty()
    } else {
        let rest = missing_packages(d.drop_last(), installed);
        if installed.contains(d.last().package) {
            rest
        } else {
            rest.push(d.last())
        }
    }
}

impl DownloadQueue {
    /// The lines of the log, the oldest first.
    pub fn logs(&self) -> (r: &Vec<String>)
        ensures
            *r == self.logs,
    {
        &self.logs
    }

    /// The queue of a new session, from what was saved of the last one. What was active then is
    /// paused now.
    pub fn load(
        cfg: &AppConfig,
        catalog: &Catalog,
        persisted: Vec<PersistedJob>,
        token: Option<String>,
        log: Option<String>,
        now: Clock,
        windows: bool,
    ) -> (r: DownloadQueue)
        ensures
            r.deep_view() == (QueueView {
                jobs: restored_jobs(
                    persisted.deep_view(),
                    catalog.deep_view(),
                    cfg.download_parallelism,
                    cfg.chunk_size_bytes,
                    token.deep_view(),
                    now,
                ),
                python_deps: None,
                system_deps: None,
                custom_nodes: Seq::empty(),
                logs: shown_lines(log.deep_view()),
                server_log_path: None,
                server_log_offset: 0,
                server_log_partial: Seq::empty(),
                effects: Seq::empty(),
                windows,
            }),
    {
        let ghost all = persisted.deep_view();
        let ghost c = catalog.deep_view();
        let mut jobs: Vec<Job> = Vec::new();
        assert(all.take(0) =~= Seq::empty());
        assert(jobs.deep_view() =~= Seq::empty());
        for saved in it: persisted.into_iter()
            invariant
                it.seq() == persisted@,
                all == persisted.deep_view(),
                c == catalog.deep_view(),
                jobs.deep_view() == restored_jobs(
                    all.take(it.index() as int),
                    c,
                    cfg.download_parallelism,
                    cfg.chunk_size_bytes,
                    token.deep_view(),
                    now,
                ),
        {
            let ghost k = it.index() as int;
            let ghost view = saved.deep_view();
            let ghost before = jobs.deep_view();
            proof {
                assert(all.take(k + 1).drop_last() =~= all.take(k));
                assert(all.take(k + 1).last() == view);
            }
            if let Some(artifact) = catalog.artifact(saved.artifact_id.as_str()) {
                let status = if saved.status.is_active() {
                    JobStatus::Paused
                } else {
                    saved.status
                };
                let job = Job {
                    artifact: artifact.copy(),
                    root: saved.root,
                    options: DownloadOptions {
                        parallelism: cfg.download_parallelism,
                        chunk_size_bytes: cfg.chunk_size_bytes,
                        force: saved.force,
                        hf_endpoint: saved.endpoint,
                        hf_token: clone_opt(&token),
                    },
                    status,
                    downloaded_bytes: saved.downloaded_bytes,
                    total_bytes: saved.total_bytes,
                    speed: zero_speed(),
                    last_progress: now.nanos,
                    last_bytes: saved.downloaded_bytes,
                    error: None,
                    running: false,
                };
                let ghost job_view = job.deep_view();
                jobs.push(job);
                assert(jobs.deep_view() =~= before.push(job_view));
            }
        }
        assert(all.take(all.len() as int) =~= all);
        let logs = match &log {
            Some(text) => last_lines(text.as_str()),
            None => Vec::new(),
        };
        assert(log is None ==> logs.deep_view() =~= Seq::empty());
        let custom_nodes: Vec<CustomNodeOperation> = Vec::new();
        assert(custom_nodes.deep_view() =~= Seq::empty());
        let effects: Vec<Effect> = Vec::new();
        assert(effects.deep_view() =~= Seq::empty());
        DownloadQueue {
            jobs,
            python_deps: None,
            system_deps: None,
            custom_nodes,
            logs,
            server_log_path: None,
            server_log_offset: 0,
            server_log_partial: String::new(),
            effects,
            windows,
        }
    }

    /// What the caller is asked to do since the last call, in order.
    pub fn take_effects(&mut self) -> (r: Vec<Effect>)
        ensures
            r.deep_view() == old(self).deep_view().effects,
            final(self).deep_view() == (QueueView {
                effects: Seq::empty(),
                ..old(self).deep_view()
            }),
    {
        let mut out: Vec<Effect> = Vec::new();
        core::mem::swap(&mut out, &mut self.effects);
        assert(self.effects.deep_view() =~= Seq::empty());
        out
    }

    pub(crate) fn emit(&mut self, effect: Effect)
        ensures
            final(self).deep_view() == old(self).deep_view().with_effect(effect.deep_view()),
    {
        let ghost before = self.effects.deep_view();
        let ghost view = effect.deep_view();
        self.effects.push(effect);
        assert(self.effects.deep_view() =~= before.push(view));
    }

    pub(crate) fn push_log_line(&mut self, line: String)
        ensures
            final(self).deep_view() == (QueueView {
                logs: with_line(old(self).deep_view().logs, line@),
                ..old(self).deep_view()
            }),
    {
        let ghost before = self.logs.deep_view();
        let ghost view = line@;
        if self.logs.len() == MAX_LOG_LINES {
            self.logs.remove(0);
            assert(self.logs.deep_view() =~= before.skip(1));
        }
        let ghost middle = self.logs.deep_view();
        self.logs.push(line);
        assert(self.logs.deep_view() =~= middle.push(view));
    }

    pub(crate) fn log(&mut self, message: &str, now: Clock)
        ensures
            final(self).deep_view() == old(self).deep_view().logged(message@, now),
    {
        let time = timestamp(now.seconds);
        let line = cat4("[", time.as_str(), "] ", message);
        self.push_log_line(line.clone());
        self.emit(Effect::AppendLog(line));
    }

    /// Adds a message to the log.
    pub fn record(&mut self, message: &str, now: Clock)
        ensures
            final(self).deep_view() == old(self).deep_view().logged(message@, now),
    {
        self.log(message, now);
    }

    /// What is saved of the queue.
    pub fn persisted(&self) -> (r: Vec<PersistedJob>)
        ensures
            r.deep_view() == self.deep_view().persisted(),
    {
        let ghost want = self.deep_view().persisted();
        let mut out: Vec<PersistedJob> = Vec::new();
        let mut i: usize = 0;
        while i < self.jobs.len()
            invariant
                i <= self.jobs@.len(),
                want == self.deep_view().persisted(),
                out.deep_view() == want.take(i as int),
            decreases self.jobs@.len() - i,
        {
            let ghost before = out.deep_view();
            let job = &self.jobs[i];
            out.push(
                PersistedJob {
                    artifact_id: job.artifact.id.clone(),
                    root: job.root.clone(),
                    status: job.status,
                    downloaded_bytes: job.downloaded_bytes,
                    total_bytes: job.total_bytes,
                    endpoint: clone_opt(&job.options.hf_endpoint),
                    force: job.options.force,
                },
            );
            assert(out.deep_view() =~= before.push(want[i as int]));
            assert(out.deep_view() =~= want.take(i + 1));
            i += 1;
        }
        assert(want.take(want.len() as int) =~= want);
        out
    }

    pub(crate) fn save(&mut self)
        ensures
            final(self).deep_view() == old(self).deep_view().saved(),
    {
        let jobs = self.persisted();
        self.emit(Effect::Save(jobs));
    }

    fn queue_artifact(
        &mut self,
        root: &str,
        artifact: Artifact,
        options: &DownloadOptions,
        now: Clock,
    ) -> (r: bool)
        ensures
            final(self).deep_view() == old(self).deep_view().queue_artifact(
                root@,
                artifact.deep_view(),
                options.deep_view(),
                now,
            ),
            r == !has_active_job(old(self).deep_view().jobs, artifact.id@),
    {
        if any_active_job(&self.jobs, artifact.id.as_str()) {
            let message = cat2(artifact.name.as_str(), " is already queued or downloading");
            self.log(message.as_str(), now);
            return false;
        }
        let ghost before = self.jobs.deep_view();
        match find_job(&self.jobs, artifact.id.as_str()) {
            Some(i) => {
                let existing = &mut self.jobs[i];
                existing.root = root.to_owned();
                existing.options = options.copy();
                existing.status = JobStatus::Queued;
                existing.error = None;
                existing.speed = zero_speed();
                existing.running = false;
                assert(self.jobs.deep_view() =~= before.update(
                    i as int,
                    self.jobs@[i as int].deep_view(),
                ));
            },
            None => {
                let job = Job {
                    total_bytes: artifact.size_bytes,
                    artifact,
                    root: root.to_owned(),
                    options: options.copy(),
                    status: JobStatus::Queued,
                    downloaded_bytes: 0,
                    speed: zero_speed(),
                    last_progress: now.nanos,
                    last_bytes: 0,
                    error: None,
                    running: false,
                };
                let ghost view = job.deep_view();
                self.jobs.push(job);
                assert(self.jobs.deep_view() =~= before.push(view));
            },
        }
        true
    }

    /// Queues downloads; how many were queued. One that is queued or downloading already is left
    /// as it is.
    pub fn enqueue(
        &mut self,
        root: &str,
        artifacts: Vec<Artifact>,
        options: &DownloadOptions,
        now: Clock,
    ) -> (r: usize)
        ensures
            (final(self).deep_view(), r as nat) == old(self).deep_view().enqueued(
                root@,
                artifacts.deep_view(),
                options.deep_view(),
                now,
            ),
    {
        let ghost q = self.deep_view();
        let ghost all = artifacts.deep_view();
        let ghost opts = options.deep_view();
        let mut added: usize = 0;
        let total: usize = artifacts.len();
        assert(all.take(0) =~= Seq::empty());
        for artifact in it: artifacts.into_iter()
            invariant
                it.seq() == artifacts@,
                all == artifacts.deep_view(),
                opts == options.deep_view(),
                added <= it.index(),
                it.index() <= artifacts@.len() == total,
                (self.deep_view(), added as nat) == q.queue_artifacts(
                    root@,
                    all.take(it.index() as int),
                    opts,
                    now,
                ),
        {
            let ghost k = it.index() as int;
            proof {
                assert(all.take(k + 1).drop_last() =~= all.take(k));
                assert(all.take(k + 1).last() == artifact.deep_view());
            }
            if self.queue_artifact(root, artifact, options, now) {
                added += 1;
            }
        }
        assert(all.take(all.len() as int) =~= all);
        if added > 0 {
            let n = decimal_text(added as u64);
            let message = cat3("queued ", n.as_str(), " artifact download(s)");
            self.log(message.as_str(), now);
            self.save();
        }
        added
    }

    fn queue_node(&mut self, root: &str, node: CustomNode, now: Clock)
        ensures
            final(self).deep_view() == old(self).deep_view().queue_node(
                root@,
                node.deep_view(),
                now,
            ),
    {
        if any_active_node(&self.custom_nodes, node.id.as_str()) {
            let message = cat2(node.name.as_str(), " is already queued or installing");
            self.log(message.as_str(), now);
            return ;
        }
        let message = cat2("queued custom-node download ", node.name.as_str());
        self.log(message.as_str(), now);
        let ghost before = self.custom_nodes.deep_view();
        let at = find_node(&self.custom_nodes, node.id.as_str());
        let operation = CustomNodeOperation {
            node,
            root: root.to_owned(),
            status: JobStatus::Queued,
            error: None,
            running: false,
        };
        let ghost view = operation.deep_view();
        match at {
            Some(i) => {
                self.custom_nodes.set(i, operation);
                assert(self.custom_nodes.deep_view() =~= before.update(i as int, view));
            },
            None => {
                self.custom_nodes.push(operation);
                assert(self.custom_nodes.deep_view() =~= before.push(view));
            },
        }
    }

    /// Queues installations of custom nodes. One that is queued or installing already is left as
    /// it is.
    pub fn enqueue_custom_nodes(&mut self, root: &str, nodes: Vec<CustomNode>, now: Clock)
        ensures
            final(self).deep_view() == old(self).deep_view().queue_nodes(
                root@,
                nodes.deep_view(),
                now,
            ),
    {
        let ghost q = self.deep_view();
        let ghost all = nodes.deep_view();
        assert(all.take(0) =~= Seq::empty());
        for node in it: nodes.into_iter()
            invariant
                it.seq() == nodes@,
                all == nodes.deep_view(),
                self.deep_view() == q.queue_nodes(root@, all.take(it.index() as int), now),
        {
            let ghost k = it.index() as int;
            proof {
                assert(all.take(k + 1).drop_last() =~= all.take(k));
                assert(all.take(k + 1).last() == node.deep_view());
            }
            self.queue_node(root, node, now);
        }
        assert(all.take(all.len() as int) =~= all);
    }

    /// Queues the Python dependencies of the installation `root`; refused where `main.py` or
    /// `requirements.txt` is not there.
    pub fn enqueue_python_deps(
        &mut self,
        root: &str,
        pip_index_url: &str,
        main_is_file: bool,
        requirements_is_file: bool,
        now: Clock,
    ) -> (r: Result<(), String>)
        ensures
            match python_order(main_is_file, requirements_is_file) {
                Some(m) => *final(self) == *old(self) && (r matches Err(e) && e@ == m),
                None => r is Ok && final(self).deep_view() == old(self).deep_view().queue_python(
                    root@,
                    pip_index_url@,
                    now,
                ),
            },
    {
        if !main_is_file || !requirements_is_file {
            return Err(
                "install or locate ComfyUI before installing Python dependencies".to_owned(),
            );
        }
        self.python_deps = Some(
            Operation {
                root: root.to_owned(),
                pip_index_url: pip_index_url.to_owned(),
                status: JobStatus::Queued,
                error: None,
                running: false,
            },
        );
        let message = cat2("queued ComfyUI Python dependencies via ", pip_index_url);
        self.log(message.as_str(), now);
        Ok(())
    }

    /// Queues the system packages that are not installed; refused where there is no `apt-get`.
    pub fn enqueue_system_deps(
        &mut self,
        dependencies: Vec<SystemDependency>,
        linux: bool,
        apt_exists: bool,
        installed: &IdSet,
        now: Clock,
    ) -> (r: Result<(), String>)
        ensures
            match system_order(linux, apt_exists) {
                Some(m) => *final(self) == *old(self) && (r matches Err(e) && e@ == m),
                None => r is Ok && final(self).deep_view() == system_ordered(
                    old(self).deep_view(),
                    dependencies.deep_view(),
                    installed@,
                    now,
                ),
            },
    {
        if !linux {
            return Err(
                "automatic system dependency installation is only supported on Linux".to_owned(),
            );
        }
        if !apt_exists {
            return Err(
                "apt-get is unavailable; install the manifest system packages manually".to_owned(),
            );
        }
        let ghost q = self.deep_view();
        let ghost all = dependencies.deep_view();
        let mut missing: Vec<SystemDependency> = Vec::new();
        assert(all.take(0) =~= Seq::empty());
        assert(missing.deep_view() =~= Seq::empty());
        for dependency in it: dependencies.into_iter()
            invariant
                it.seq() == dependencies@,
                all == dependencies.deep_view(),
                missing.deep_view() == missing_packages(all.take(it.index() as int), installed@),
        {
            let ghost k = it.index() as int;
            let ghost before = missing.deep_view();
            let ghost view = dependency.deep_view();
            proof {
                assert(all.take(k + 1).drop_last() =~= all.take(k));
                assert(all.take(k + 1).last() == view);
            }
            if !installed.contains(dependency.package.as_str()) {
                missing.push(dependency);
                assert(missing.deep_view() =~= before.push(view));
            }
        }
        assert(all.take(all.len() as int) =~= all);
        if missing.len() == 0 {
            self.log("all manifest system dependencies are already installed", now);
            return Ok(());
        }
        let names = packages_in(&missing);
        let list = join_texts(&names, ", ");
        self.system_deps = Some(
            SystemOperation {
                dependencies: missing,
                status: JobStatus::Queued,
                error: None,
                running: false,
            },
        );
        let message = cat2("queued system dependencies: ", list.as_str());
        self.log(message.as_str(), now);
        Ok(())
    }

    fn on_progress(&mut self, id: &str, downloaded: u64, total: u64, now: Clock)
        ensures
            final(self).deep_view() == old(self).deep_view().progressed(
                id@,
                downloaded,
                total,
                now,
            ),
    {
        if let Some(i) = find_job(&self.jobs, id) {
            let ghost before = self.jobs.deep_view();
            assert(before[i as int] == self.jobs@[i as int].deep_view());
            let job = &mut self.jobs[i];
            if now.nanos > job.last_progress && now.nanos - job.last_progress > SAMPLE_NANOS {
                let elapsed: u64 = now.nanos - job.last_progress;
                let delta: u64 = if downloaded >= job.last_bytes {
                    downloaded - job.last_bytes
                } else {
                    0
                };
                job.speed = Speed { bytes: delta, nanos: elapsed };
                job.last_progress = now.nanos;
                job.last_bytes = downloaded;
            }
            job.downloaded_bytes = downloaded;
            job.total_bytes = Some(total);
            assert(self.jobs.deep_view() =~= before.update(
                i as int,
                self.jobs@[i as int].deep_view(),
            ));
        }
    }

    fn on_stage(&mut self, id: &str, status: JobStatus)
        ensures
            final(self).deep_view() == old(self).deep_view().staged(id@, status),
    {
        if let Some(i) = find_job(&self.jobs, id) {
            let ghost before = self.jobs.deep_view();
            assert(before[i as int] == self.jobs@[i as int].deep_view());
            let job = &mut self.jobs[i];
            job.status = status;
            if status != JobStatus::Downloading {
                job.speed = zero_speed();
            }
            assert(self.jobs.deep_view() =~= before.update(
                i as int,
                self.jobs@[i as int].deep_view(),
            ));
        }
    }

    fn on_finished(&mut self, id: &str, result: Result<(), String>, now: Clock) -> (r: bool)
        ensures
            final(self).deep_view() == old(self).deep_view().finished(id@, error_in(result), now),
            r == (job_at(old(self).deep_view().jobs, id@, 0) >= 0),
    {
        match find_job(&self.jobs, id) {
            None => false,
            Some(i) => {
                let ghost before = self.jobs.deep_view();
                assert(before[i as int] == self.jobs@[i as int].deep_view());
                let name = self.jobs[i].artifact.name.clone();
                let job = &mut self.jobs[i];
                job.running = false;
                job.speed = zero_speed();
                match result {
                    Ok(_) => {
                        job.status = JobStatus::Completed;
                        if let Some(total) = job.total_bytes {
                            job.downloaded_bytes = total;
                        }
                        assert(self.jobs.deep_view() =~= before.update(
                            i as int,
                            self.jobs@[i as int].deep_view(),
                        ));
                        let message = cat2("completed ", name.as_str());
                        self.log(message.as_str(), now);
                    },
                    Err(error) => {
                        job.status = JobStatus::Failed;
                        let message = cat4("failed ", name.as_str(), ": ", error.as_str());
                        job.error = Some(error);
                        assert(self.jobs.deep_view() =~= before.update(
                            i as int,
                            self.jobs@[i as int].deep_view(),
                        ));
                        self.log(message.as_str(), now);
                    },
                }
                true
            },
        }
    }

    fn on_node_finished(&mut self, id: &str, result: Result<(), String>, now: Clock)
        ensures
            final(self).deep_view() == old(self).deep_view().node_finished(
                id@,
                error_in(result),
                now,
            ),
    {
        if let Some(i) = find_node(&self.custom_nodes, id) {
            let ghost before = self.custom_nodes.deep_view();
            assert(before[i as int] == self.custom_nodes@[i as int].deep_view());
            let name = self.custom_nodes[i].node.name.clone();
            let operation = &mut self.custom_nodes[i];
            operation.running = false;
            match result {
                Ok(_) => {
                    operation.status = JobStatus::Completed;
                    assert(self.custom_nodes.deep_view() =~= before.update(
                        i as int,
                        self.custom_nodes@[i as int].deep_view(),
                    ));
                    let message = cat2("completed custom-node download ", name.as_str());
                    self.log(message.as_str(), now);
                },
                Err(error) => {
                    operation.status = JobStatus::Failed;
                    let message = cat4(
                        "failed custom-node download ",
                        name.as_str(),
                        ": ",
                        error.as_str(),
                    );
                    operation.error = Some(error);
                    assert(self.custom_nodes.deep_view() =~= before.update(
                        i as int,
                        self.custom_nodes@[i as int].deep_view(),
                    ));
                    self.log(message.as_str(), now);
                },
            }
        }
    }

    fn on_python_finished(&mut self, result: Result<(), String>, now: Clock)
        ensures
            final(self).deep_view() == old(self).deep_view().python_finished(
                error_in(result),
                now,
            ),
    {
        if let Some(operation) = &mut self.python_deps {
            operation.running = false;
            match result {
                Ok(_) => {
                    operation.status = JobStatus::Completed;
                    self.log("completed ComfyUI Python dependencies", now);
                },
                Err(error) => {
                    operation.status = JobStatus::Failed;
                    let message = cat2("failed ComfyUI Python dependencies: ", error.as_str());
                    operation.error = Some(error);
                    self.log(message.as_str(), now);
                },
            }
        }
    }

    fn on_system_finished(&mut self, result: Result<(), String>, now: Clock)
        ensures
            final(self).deep_view() == old(self).deep_view().system_finished(
                error_in(result),
                now,
            ),
    {
        if let Some(operation) = &mut self.system_deps {
            operation.running = false;
            match result {
                Ok(_) => {
                    operation.status = JobStatus::Completed;
                    self.log("completed system dependencies", now);
                },
                Err(error) => {
                    operation.status = JobStatus::Failed;
                    let message = cat2("failed system dependencies: ", error.as_str());
                    operation.error = Some(error);
                    self.log(message.as_str(), now);
                },
            }
        }
    }

    /// Takes in one event; whether it ended a download.
    pub fn apply(&mut self, event: QueueEvent, now: Clock) -> (r: bool)
        ensures
            final(self).deep_view() == old(self).deep_view().after(event.deep_view(), now),
            r == old(self).deep_view().ends_job(event.deep_view()),
    {
        match event {
            QueueEvent::Log(message) => {
                self.log(message.as_str(), now);
                false
            },
            QueueEvent::OperationFinished(result) => {
                self.on_python_finished(result, now);
                false
            },
            QueueEvent::SystemOperationFinished(result) => {
                self.on_system_finished(result, now);
                false
            },
            QueueEvent::CustomNodeFinished { node_id, result } => {
                self.on_node_finished(node_id.as_str(), result, now);
                false
            },
            QueueEvent::Progress { artifact_id, downloaded_bytes, total_bytes } => {
                self.on_progress(artifact_id.as_str(), downloaded_bytes, total_bytes, now);
                false
            },
            QueueEvent::Stage { artifact_id, status } => {
                self.on_stage(artifact_id.as_str(), status);
                false
            },
            QueueEvent::Finished { artifact_id, result } => self.on_finished(
                artifact_id.as_str(),
                result,
                now,
            ),
        }
    }

    fn start(&mut self, index: usize, now: Clock)
        requires
            index < old(self).jobs@.len(),
        ensures
            final(self).deep_view() == old(self).deep_view().start_job(index as int, now),
    {
        let ghost before = self.jobs.deep_view();
        assert(before[index as int] == self.jobs@[index as int].deep_view());
        let artifact = self.jobs[index].artifact.copy();
        let root = self.jobs[index].root.clone();
        let options = self.jobs[index].options.copy();
        let message = cat2("started ", artifact.name.as_str());
        let job = &mut self.jobs[index];
        job.status = JobStatus::Resolving;
        job.last_progress = now.nanos;
        job.last_bytes = job.downloaded_bytes;
        job.error = None;
        job.running = true;
        assert(self.jobs.deep_view() =~= before.update(
            index as int,
            self.jobs@[index as int].deep_view(),
        ));
        self.log(message.as_str(), now);
        self.emit(Effect::StartDownload { artifact, root, options });
    }

    fn start_custom_node(&mut self, index: usize, now: Clock)
        requires
            index < old(self).custom_nodes@.len(),
        ensures
            final(self).deep_view() == old(self).deep_view().start_node(index as int, now),
    {
        let ghost before = self.custom_nodes.deep_view();
        assert(before[index as int] == self.custom_nodes@[index as int].deep_view());
        let node = self.custom_nodes[index].node.copy();
        let root = self.custom_nodes[index].root.clone();
        let message = cat2("started custom-node download ", node.name.as_str());
        let operation = &mut self.custom_nodes[index];
        operation.status = JobStatus::Installing;
        operation.error = None;
        operation.running = true;
        assert(self.custom_nodes.deep_view() =~= before.update(
            index as int,
            self.custom_nodes@[index as int].deep_view(),
        ));
        self.log(message.as_str(), now);
        self.emit(Effect::StartCustomNode { node, root });
    }

    fn start_python_deps(&mut self, now: Clock) -> (r: bool)
        ensures
            final(self).deep_view() == old(self).deep_view().start_python(now),
            r == old(self).deep_view().python_queued(),
    {
        if let Some(operation) = &mut self.python_deps {
            if operation.status == JobStatus::Queued {
                let root = operation.root.clone();
                let pip_index_url = operation.pip_index_url.clone();
                operation.status = JobStatus::Installing;
                operation.running = true;
                self.log("started ComfyUI Python dependencies", now);
                self.emit(Effect::StartPythonDeps { root, pip_index_url });
                return true;
            }
        }
        false
    }

    fn start_system_deps(&mut self, now: Clock) -> (r: bool)
        ensures
            final(self).deep_view() == old(self).deep_view().start_system(now),
            r == old(self).deep_view().system_queued(),
    {
        if let Some(operation) = &mut self.system_deps {
            if operation.status == JobStatus::Queued {
                let dependencies = copy_dependencies(&operation.dependencies);
                operation.status = JobStatus::Installing;
                operation.running = true;
                self.log("started system dependencies", now);
                self.emit(Effect::StartSystemDeps { dependencies });
                return true;
            }
        }
        false
    }

    /// One round: takes in events, at most [`EVENTS_PER_TICK`] of them, starts what is queued
    /// while there are places, and saves the jobs where a download ended or something was
    /// started. Whether anything has changed.
    pub fn tick(&mut self, pending: &mut Vec<QueueEvent>, max_concurrent: usize, now: Clock) -> (r:
        bool)
        ensures
            ({
                let all = old(pending).deep_view();
                let n: int = if all.len() <= EVENTS_PER_TICK {
                    all.len() as int
                } else {
                    EVENTS_PER_TICK as int
                };
                &&& final(pending).deep_view() == all.skip(n)
                &&& final(self).deep_view() == old(self).deep_view().ticked(
                    all.take(n),
                    max_concurrent,
                    now,
                )
                &&& r == old(self).deep_view().tick_changes(all.take(n), max_concurrent, now)
            }),
    {
        let ghost q0 = self.deep_view();
        let ghost all = pending.deep_view();
        let mut events: Vec<QueueEvent> = Vec::new();
        core::mem::swap(&mut events, pending);
        let n: usize = if events.len() <= EVENTS_PER_TICK {
            events.len()
        } else {
            EVENTS_PER_TICK
        };
        let total: usize = events.len();
        let mut rest: Vec<QueueEvent> = Vec::new();
        let mut seen: usize = 0;
        let mut ended = false;
        let ghost taken = all.take(n as int);
        assert(taken.take(0) =~= Seq::empty());
        assert(rest.deep_view() =~= all.subrange(n as int, n as int));
        for event in it: events.into_iter()
            invariant
                it.seq() == events@,
                events.deep_view() == all,
                n <= all.len(),
                seen == it.index(),
                it.index() <= events@.len() == total,
                taken == all.take(n as int),
                (self.deep_view(), ended) == q0.after_all(
                    taken.take(
                        if seen <= n {
                            seen as int
                        } else {
                            n as int
                        },
                    ),
                    now,
                ),
                rest.deep_view() == all.subrange(
                    n as int,
                    if seen <= n {
                        n as int
                    } else {
                        seen as int
                    },
                ),
        {
            let ghost view = event.deep_view();
            assert(view == all[seen as int]);
            if seen < n {
                proof {
                    assert(taken.take(seen + 1).drop_last() =~= taken.take(seen as int));
                    assert(taken.take(seen + 1).last() == view);
                }
                if self.apply(event, now) {
                    ended = true;
                }
            } else {
                let ghost before = rest.deep_view();
                rest.push(event);
                assert(rest.deep_view() =~= before.push(view));
                assert(rest.deep_view() =~= all.subrange(n as int, seen + 1));
            }
            seen += 1;
        }
        assert(taken.take(n as int) =~= taken);
        assert(all.subrange(n as int, all.len() as int) =~= all.skip(n as int));
        *pending = rest;
        let ghost q = self.deep_view();
        let limit: usize = if max_concurrent >= 1 {
            max_concurrent
        } else {
            1
        };
        let jobs_running: usize = count_running_jobs(&self.jobs);
        let nodes_running: usize = count_running_nodes(&self.custom_nodes);
        // How many places are left; none where the two together do not fit a count.
        let mut places: usize = if jobs_running < limit && nodes_running < limit - jobs_running {
            limit - jobs_running - nodes_running
        } else {
            0
        };
        let ghost start = q.running() as int;
        let mut started = false;
        let ghost all_started = q.start_ready(start, limit as int, now);
        assert(places == 0 ==> start >= limit);
        assert(places > 0 ==> start == limit - places);
        while places > 0
            invariant
                all_started == self.deep_view().start_ready(limit - places, limit as int, now)
                    || (places == 0 && all_started == self.deep_view()),
                started || self.deep_view() == q,
                !started ==> start == limit - places || places == 0 && start >= limit,
                started ==> start < limit && q.has_queued(),
                places <= limit,
            ensures
                all_started == self.deep_view(),
                started == (start < limit && q.has_queued()),
            decreases places,
        {
            if let Some(index) = find_queued_job(&self.jobs) {
                self.start(index, now);
            } else if let Some(index) = find_queued_node(&self.custom_nodes) {
                self.start_custom_node(index, now);
            } else {
                break ;
            }
            places -= 1;
            started = true;
        }
        let python = self.start_python_deps(now);
        let system = self.start_system_deps(now);
        proof {
            start_ready_keeps_operations(q, start, limit as int, now);
        }
        if ended || started {
            self.save();
        }
        n > 0 || started || python || system
    }
}

/// Starting downloads and custom nodes leaves the other operations as they are.
proof fn start_ready_keeps_operations(q: QueueView, taken: int, limit: int, now: Clock)
    ensures
        q.start_ready(taken, limit, now).python_deps == q.python_deps,
        q.start_ready(taken, limit, now).system_deps == q.system_deps,
    decreases limit - taken,
{
    if taken >= limit {
    } else if queued_job_at(q.jobs, 0) >= 0 {
        start_ready_keeps_operations(
            q.start_job(queued_job_at(q.jobs, 0), now),
            taken + 1,
            limit,
            now,
        );
    } else if queued_node_at(q.custom_nodes, 0) >= 0 {
        start_ready_keeps_operations(
            q.start_node(queued_node_at(q.custom_nodes, 0), now),
            taken + 1,
            limit,
            now,
        );
    }
}

}
