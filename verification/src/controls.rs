//! The controls of the download manager: pausing, continuing, retrying and removing, what is shown
//! of it, and the tail of the server's log.
use crate::download::temp_paths;
use crate::ids::IdSet;
use crate::jobs::{
    forgotten_aborts, job_aborts, job_at, job_snapshot, job_stopped, job_with_parallelism,
    kept_jobs, node_aborts, node_at, node_snapshot, node_stopped, python_snapshot, system_snapshot,
    with_line, Clock, Effect, Job, JobSnapshot, JobStatus, JobView, NodeOperationView, QueueView,
    Removal, RemovalView, Slot, SnapshotView, TaskKey,
};
use crate::outside::{lossy_text, lossy_utf8};
use crate::paths::{components_of, join_path};
use crate::queue::{find_job, find_node, packages_in, zero_speed, DownloadQueue};
use crate::text::{
    cat2, cat3, cat4, clone_opt, decimal_text, join_texts, same_text, split_at, split_text, Text,
};
use vstd::prelude::*;
use vstd::string::*;

verus! {

enum Found {
    Download(usize),
    CustomNode(usize),
    PythonDeps,
    SystemDeps,
    Nothing,
}

spec fn slot_of(f: Found) -> Slot {
    match f {
        Found::Download(i) => Slot::Download(i as int),
        Found::CustomNode(i) => Slot::CustomNode(i as int),
        Found::PythonDeps => Slot::PythonDeps,
        Found::SystemDeps => Slot::SystemDeps,
        Found::Nothing => Slot::Nothing,
    }
}

/// What is said of the snapshots that are active, from `at` on.
pub open spec fn descriptions(s: Seq<SnapshotView>, at: int) -> Seq<Text>
    decreases s.len() - at,
{
    if at < 0 || at >= s.len() {
        Seq::empty()
    } else if s[at].status.active() {
        seq![s[at].name + ": "@ + s[at].status.words()] + descriptions(s, at + 1)
    } else {
        descriptions(s, at + 1)
    }
}

/// `logs` with the lines that are not empty, marked as the server's.
pub open spec fn with_server_lines(logs: Seq<Text>, lines: Seq<Text>) -> Seq<Text>
    decreases lines.len(),
{
    if lines.len() == 0 {
        logs
    } else {
        let rest = with_server_lines(logs, lines.drop_last());
        if lines.last().len() == 0 {
            rest
        } else {
            with_line(rest, "[COMFYUI] "@ + lines.last())
        }
    }
}

/// Some line is not empty.
pub open spec fn any_text(lines: Seq<Text>) -> bool {
    exists|i: int| 0 <= i < lines.len() && (#[trigger] lines[i]).len() > 0
}

/// How much of a log that is new is shown.
pub const TAIL_BYTES: u64 = 65536;

impl QueueView {
    /// The status of the first download of the artifact.
    pub open spec fn status_of(self, artifact: Text) -> Option<JobStatus> {
        let at = job_at(self.jobs, artifact, 0);
        if at >= 0 {
            Some(self.jobs[at].status)
        } else {
            None
        }
    }

    /// The status of the first installation of the custom node.
    pub open spec fn node_status_of(self, node: Text) -> Option<JobStatus> {
        let at = node_at(self.custom_nodes, node, 0);
        if at >= 0 {
            Some(self.custom_nodes[at].status)
        } else {
            None
        }
    }

    /// The status of the Python dependencies or the system packages, by their identifiers.
    pub open spec fn operation_status_of(self, id: Text) -> Option<JobStatus> {
        if id == "python-dependencies"@ {
            match self.python_deps {
                Some(op) => Some(op.status),
                None => None,
            }
        } else if id == "system-dependencies"@ {
            match self.system_deps {
                Some(op) => Some(op.status),
                None => None,
            }
        } else {
            None
        }
    }

    /// The queue before the server's log of `length` bytes is read: a new file is read near its
    /// end, and one that has become shorter from its beginning.
    pub open spec fn tail_opened(self, path: Text, length: u64) -> QueueView {
        if !(self.server_log_path matches Some(p) && components_of(self.windows, p)
            == components_of(self.windows, path)) {
            QueueView {
                server_log_path: Some(path),
                server_log_offset: if length >= TAIL_BYTES {
                    (length - TAIL_BYTES) as u64
                } else {
                    0
                },
                server_log_partial: Seq::empty(),
                ..self
            }
        } else if length < self.server_log_offset {
            QueueView { server_log_offset: 0, server_log_partial: Seq::empty(), ..self }
        } else {
            self
        }
    }

    /// The queue after more of the server's log was read. What follows the last line feed is kept
    /// until its line is complete.
    pub open spec fn tail_taken(self, text: Text, bytes: int) -> QueueView {
        let pieces = split_at(self.server_log_partial + text, '\n');
        QueueView {
            server_log_offset: (self.server_log_offset + bytes) as u64,
            server_log_partial: pieces.last(),
            logs: with_server_lines(self.logs, pieces.drop_last()),
            ..self
        }
    }

    /// Whether a line is added when more of the server's log is read.
    pub open spec fn tail_shows(self, text: Text) -> bool {
        any_text(split_at(self.server_log_partial + text, '\n').drop_last())
    }
}

impl DownloadQueue {
    fn locate(&self, index: usize) -> (r: Found)
        ensures
            slot_of(r) == self.deep_view().slot(index as int),
            match r {
                Found::Download(i) => i < self.jobs@.len(),
                Found::CustomNode(i) => i < self.custom_nodes@.len(),
                Found::PythonDeps => self.python_deps is Some,
                Found::SystemDeps => self.system_deps is Some,
                Found::Nothing => true,
            },
    {
        if index < self.jobs.len() {
            return Found::Download(index);
        }
        let past: usize = index - self.jobs.len();
        if past < self.custom_nodes.len() {
            return Found::CustomNode(past);
        }
        let rest: usize = past - self.custom_nodes.len();
        let python: usize = if self.python_deps.is_some() {
            1
        } else {
            0
        };
        if rest == 0 && self.python_deps.is_some() {
            Found::PythonDeps
        } else if rest == python && self.system_deps.is_some() {
            Found::SystemDeps
        } else {
            Found::Nothing
        }
    }

    fn abort_if(&mut self, running: bool, key: TaskKey)
        ensures
            final(self).deep_view() == old(self).deep_view().abort_if(running, key.deep_view()),
            final(self).jobs == old(self).jobs,
            final(self).custom_nodes == old(self).custom_nodes,
            final(self).python_deps == old(self).python_deps,
            final(self).system_deps == old(self).system_deps,
    {
        if running {
            let ghost before = self.effects.deep_view();
            let effect = Effect::Abort(key);
            let ghost view = effect.deep_view();
            self.effects.push(effect);
            assert(self.effects.deep_view() =~= before.push(view));
        }
    }

    fn pause_job(&mut self, index: usize, now: Clock)
        requires
            index < old(self).jobs@.len(),
        ensures
            final(self).deep_view() == old(self).deep_view().paused(index as int, now),
    {
        let ghost before = self.jobs.deep_view();
        assert(before[index as int] == self.jobs@[index as int].deep_view());
        let id = self.jobs[index].artifact.id.clone();
        let running = self.jobs[index].running;
        self.abort_if(running, TaskKey::Download(id));
        let job = &mut self.jobs[index];
        job.running = false;
        if job.status.is_active() {
            job.status = JobStatus::Paused;
            job.speed = zero_speed();
            let message = cat3(
                "paused ",
                job.artifact.name.as_str(),
                "; verified chunks were retained",
            );
            assert(self.jobs.deep_view() =~= before.update(
                index as int,
                self.jobs@[index as int].deep_view(),
            ));
            self.log(message.as_str(), now);
            self.save();
        } else {
            assert(self.jobs.deep_view() =~= before.update(
                index as int,
                self.jobs@[index as int].deep_view(),
            ));
        }
    }

    fn pause_node(&mut self, index: usize, now: Clock)
        requires
            index < old(self).custom_nodes@.len(),
        ensures
            final(self).deep_view() == old(self).deep_view().paused(
                old(self).jobs@.len() + index,
                now,
            ),
    {
        let ghost before = self.custom_nodes.deep_view();
        assert(before[index as int] == self.custom_nodes@[index as int].deep_view());
        let id = self.custom_nodes[index].node.id.clone();
        let running = self.custom_nodes[index].running;
        self.abort_if(running, TaskKey::CustomNode(id));
        let operation = &mut self.custom_nodes[index];
        operation.running = false;
        if operation.status.is_active() {
            operation.status = JobStatus::Paused;
            let message = cat2("paused custom-node install ", operation.node.name.as_str());
            assert(self.custom_nodes.deep_view() =~= before.update(
                index as int,
                self.custom_nodes@[index as int].deep_view(),
            ));
            self.log(message.as_str(), now);
        } else {
            assert(self.custom_nodes.deep_view() =~= before.update(
                index as int,
                self.custom_nodes@[index as int].deep_view(),
            ));
        }
    }

    /// Pauses what stands at `index`: its task is aborted, and what was downloaded is kept.
    pub fn pause(&mut self, index: usize, now: Clock)
        ensures
            final(self).deep_view() == old(self).deep_view().paused(index as int, now),
    {
        match self.locate(index) {
            Found::Download(i) => self.pause_job(i, now),
            Found::CustomNode(i) => self.pause_node(i, now),
            Found::PythonDeps => {
                let running = match &self.python_deps {
                    Some(operation) => operation.running,
                    None => false,
                };
                self.abort_if(running, TaskKey::PythonDeps);
                if let Some(operation) = &mut self.python_deps {
                    operation.running = false;
                    operation.status = JobStatus::Paused;
                }
                self.log("paused ComfyUI Python dependencies", now);
            },
            Found::SystemDeps => self.log(
                "system dependency installation cannot be paused safely; let apt-get finish",
                now,
            ),
            Found::Nothing => {},
        }
    }

    fn requeue(&mut self, index: usize, from: JobStatus, before: &str, after: &str, now: Clock)
        ensures
            final(self).deep_view() == old(self).deep_view().requeued(
                index as int,
                from,
                before@,
                after@,
                now,
            ),
    {
        match self.locate(index) {
            Found::Download(i) => {
                let ghost jobs = self.jobs.deep_view();
                assert(jobs[i as int] == self.jobs@[i as int].deep_view());
                let job = &mut self.jobs[i];
                if job.status == from {
                    job.status = JobStatus::Queued;
                    job.error = None;
                    let message = cat3(before, job.artifact.name.as_str(), after);
                    assert(self.jobs.deep_view() =~= jobs.update(
                        i as int,
                        self.jobs@[i as int].deep_view(),
                    ));
                    self.log(message.as_str(), now);
                    self.save();
                } else {
                    assert(self.jobs.deep_view() =~= jobs);
                }
            },
            Found::CustomNode(i) => {
                let ghost nodes = self.custom_nodes.deep_view();
                assert(nodes[i as int] == self.custom_nodes@[i as int].deep_view());
                let operation = &mut self.custom_nodes[i];
                if operation.status == from {
                    operation.status = JobStatus::Queued;
                    operation.error = None;
                    assert(self.custom_nodes.deep_view() =~= nodes.update(
                        i as int,
                        self.custom_nodes@[i as int].deep_view(),
                    ));
                } else {
                    assert(self.custom_nodes.deep_view() =~= nodes);
                }
            },
            Found::PythonDeps => {
                if let Some(operation) = &mut self.python_deps {
                    if operation.status == from {
                        operation.status = JobStatus::Queued;
                        operation.error = None;
                    }
                }
            },
            Found::SystemDeps => {
                if let Some(operation) = &mut self.system_deps {
                    if operation.status == from {
                        operation.status = JobStatus::Queued;
                        operation.error = None;
                    }
                }
            },
            Found::Nothing => {},
        }
    }

    /// Continues what stands at `index`, where it is paused.
    pub fn resume(&mut self, index: usize, now: Clock)
        ensures
            final(self).deep_view() == old(self).deep_view().resumed(index as int, now),
    {
        self.requeue(
            index,
            JobStatus::Paused,
            "continued ",
            " from retained download state",
            now,
        );
    }

    /// Tries again what stands at `index`, where it failed.
    pub fn retry(&mut self, index: usize, now: Clock)
        ensures
            final(self).deep_view() == old(self).deep_view().retried(index as int, now),
    {
        self.requeue(index, JobStatus::Failed, "retrying failed download ", "", now);
    }

    fn remove_job(&mut self, index: usize, delete_temp: bool) -> (r: Removal)
        requires
            index < old(self).jobs@.len(),
        ensures
            (final(self).deep_view(), Ok::<RemovalView, Text>(r.deep_view())) == old(
                self,
            ).deep_view().removed(index as int, delete_temp),
    {
        let ghost before = self.jobs.deep_view();
        assert(before[index as int] == self.jobs@[index as int].deep_view());
        let id = self.jobs[index].artifact.id.clone();
        let running = self.jobs[index].running;
        self.abort_if(running, TaskKey::Download(id));
        let job = self.jobs.remove(index);
        assert(self.jobs.deep_view() =~= before.remove(index as int));
        let temp_dir = if delete_temp {
            Some(temp_paths(job.root.as_str(), &job.artifact, self.windows).0)
        } else {
            None
        };
        let message = cat4(
            "removed ",
            job.artifact.name.as_str(),
            " from download manager",
            if delete_temp {
                " and deleted temporary data"
            } else {
                "; installed artifact and temporary data were left untouched"
            },
        );
        Removal { temp_dir, node_temp: None, message, save: true }
    }

    fn remove_node(&mut self, index: usize, delete_temp: bool) -> (r: Removal)
        requires
            index < old(self).custom_nodes@.len(),
        ensures
            (final(self).deep_view(), Ok::<RemovalView, Text>(r.deep_view())) == old(
                self,
            ).deep_view().removed(old(self).jobs@.len() + index, delete_temp),
    {
        let ghost before = self.custom_nodes.deep_view();
        assert(before[index as int] == self.custom_nodes@[index as int].deep_view());
        let id = self.custom_nodes[index].node.id.clone();
        let running = self.custom_nodes[index].running;
        self.abort_if(running, TaskKey::CustomNode(id));
        let operation = self.custom_nodes.remove(index);
        assert(self.custom_nodes.deep_view() =~= before.remove(index as int));
        let message = cat3("removed ", operation.node.name.as_str(), " from download manager");
        let node_temp = if delete_temp {
            Some((operation.root, operation.node.id))
        } else {
            None
        };
        Removal { temp_dir: None, node_temp, message, save: false }
    }

    /// Takes out the record at `index` and aborts its task. The caller deletes the temporary data
    /// that the result names and then calls [`DownloadQueue::finish_removal`].
    pub fn remove_download(&mut self, index: usize, delete_temp: bool) -> (r: Result<
        Removal,
        String,
    >)
        ensures
            (
                final(self).deep_view(),
                match r {
                    Ok(removal) => Ok::<RemovalView, Text>(removal.deep_view()),
                    Err(m) => Err::<RemovalView, Text>(m@),
                },
            ) == old(self).deep_view().removed(index as int, delete_temp),
    {
        match self.locate(index) {
            Found::Download(i) => Ok(self.remove_job(i, delete_temp)),
            Found::CustomNode(i) => Ok(self.remove_node(i, delete_temp)),
            Found::PythonDeps => {
                let running = match &self.python_deps {
                    Some(operation) => operation.running,
                    None => false,
                };
                self.abort_if(running, TaskKey::PythonDeps);
                self.python_deps = None;
                Ok(
                    Removal {
                        temp_dir: None,
                        node_temp: None,
                        message: "removed Python dependency operation from download manager".to_owned(),
                        save: false,
                    },
                )
            },
            Found::SystemDeps => {
                let active = match &self.system_deps {
                    Some(operation) => operation.status.is_active(),
                    None => false,
                };
                if active {
                    return Err(
                        "active system package installation cannot be removed safely".to_owned(),
                    );
                }
                self.system_deps = None;
                Ok(
                    Removal {
                        temp_dir: None,
                        node_temp: None,
                        message: "removed system dependency operation from download manager".to_owned(),
                        save: false,
                    },
                )
            },
            Found::Nothing => Err("download record no longer exists".to_owned()),
        }
    }

    /// Notes a removal whose temporary data was deleted.
    pub fn finish_removal(&mut self, removal: &Removal, now: Clock)
        ensures
            final(self).deep_view() == old(self).deep_view().removal_noted(
                removal.deep_view(),
                now,
            ),
    {
        self.log(removal.message.as_str(), now);
        if removal.save {
            self.save();
        }
    }

    /// Forgets the jobs of the artifacts `ids`; their tasks are aborted.
    pub fn forget_artifacts(&mut self, ids: &IdSet)
        ensures
            final(self).deep_view() == old(self).deep_view().forgotten(ids@),
    {
        let ghost q = self.deep_view();
        let ghost all = self.jobs.deep_view();
        let mut jobs: Vec<Job> = Vec::new();
        core::mem::swap(&mut jobs, &mut self.jobs);
        assert(jobs.deep_view() == all);
        assert(all.take(0) =~= Seq::empty());
        assert(self.jobs.deep_view() =~= Seq::empty());
        assert(self.effects.deep_view() =~= q.effects + forgotten_aborts(all.take(0), ids@));
        for job in it: jobs.into_iter()
            invariant
                it.seq() == jobs@,
                jobs.deep_view() == all,
                self.deep_view() == (QueueView {
                    jobs: kept_jobs(all.take(it.index() as int), ids@),
                    effects: q.effects + forgotten_aborts(all.take(it.index() as int), ids@),
                    ..q
                }),
        {
            let ghost k = it.index() as int;
            let ghost view = job.deep_view();
            let ghost aborts = forgotten_aborts(all.take(k), ids@);
            proof {
                assert(view == all[k]);
                assert(all.take(k + 1).drop_last() =~= all.take(k));
                assert(all.take(k + 1).last() == view);
            }
            if ids.contains(job.artifact.id.as_str()) {
                self.abort_if(job.running, TaskKey::Download(job.artifact.id));
                assert(self.effects.deep_view() =~= q.effects + forgotten_aborts(
                    all.take(k + 1),
                    ids@,
                ));
            } else {
                let ghost before = self.jobs.deep_view();
                self.jobs.push(job);
                assert(self.jobs.deep_view() =~= before.push(view));
            }
        }
        assert(all.take(all.len() as int) =~= all);
        self.save();
    }

    fn job_snapshots(&self) -> (r: Vec<JobSnapshot>)
        ensures
            r.deep_view() == self.deep_view().jobs.map_values(|j: JobView| job_snapshot(j)),
    {
        let ghost want = self.deep_view().jobs.map_values(|j: JobView| job_snapshot(j));
        let mut out: Vec<JobSnapshot> = Vec::new();
        let mut i: usize = 0;
        while i < self.jobs.len()
            invariant
                i <= self.jobs@.len(),
                want == self.deep_view().jobs.map_values(|j: JobView| job_snapshot(j)),
                out.deep_view() == want.take(i as int),
            decreases self.jobs@.len() - i,
        {
            let ghost before = out.deep_view();
            let job = &self.jobs[i];
            out.push(
                JobSnapshot {
                    artifact_id: job.artifact.id.clone(),
                    name: job.artifact.name.clone(),
                    relative_path: job.artifact.relative_path.clone(),
                    status: job.status,
                    downloaded_bytes: job.downloaded_bytes,
                    total_bytes: job.total_bytes,
                    speed: job.speed,
                    error: clone_opt(&job.error),
                    endpoint: clone_opt(&job.options.hf_endpoint),
                },
            );
            assert(out.deep_view() =~= before.push(want[i as int]));
            assert(out.deep_view() =~= want.take(i + 1));
            i += 1;
        }
        assert(want.take(want.len() as int) =~= want);
        out
    }

    /// What is shown of everything: downloads, custom nodes, Python dependencies, system packages.
    pub fn snapshots(&self) -> (r: Vec<JobSnapshot>)
        ensures
            r.deep_view() == self.deep_view().snapshots(),
    {
        let mut out = self.job_snapshots();
        let ghost first = out.deep_view();
        let ghost want = self.deep_view().custom_nodes.map_values(
            |n: NodeOperationView| node_snapshot(self.windows, n),
        );
        let mut i: usize = 0;
        assert(first =~= first + want.take(0));
        while i < self.custom_nodes.len()
            invariant
                i <= self.custom_nodes@.len(),
                want == self.deep_view().custom_nodes.map_values(
                    |n: NodeOperationView| node_snapshot(self.windows, n),
                ),
                out.deep_view() == first + want.take(i as int),
            decreases self.custom_nodes@.len() - i,
        {
            let ghost before = out.deep_view();
            let operation = &self.custom_nodes[i];
            let base = join_path(self.windows, operation.root.as_str(), "custom_nodes");
            let snapshot = JobSnapshot {
                artifact_id: cat2("custom-node:", operation.node.id.as_str()),
                name: operation.node.name.clone(),
                relative_path: join_path(
                    self.windows,
                    base.as_str(),
                    operation.node.folder_name.as_str(),
                ),
                status: operation.status,
                downloaded_bytes: 0,
                total_bytes: None,
                speed: zero_speed(),
                error: clone_opt(&operation.error),
                endpoint: Some(operation.node.git_url.clone()),
            };
            assert(snapshot.deep_view() == want[i as int]);
            out.push(snapshot);
            assert(out.deep_view() =~= before.push(want[i as int]));
            assert(out.deep_view() =~= first + want.take(i + 1));
            i += 1;
        }
        assert(want.take(want.len() as int) =~= want);
        let ghost second = out.deep_view();
        if let Some(operation) = &self.python_deps {
            let snapshot = JobSnapshot {
                artifact_id: "python-dependencies".to_owned(),
                name: "ComfyUI Python dependencies".to_owned(),
                relative_path: join_path(self.windows, operation.root.as_str(), ".venv"),
                status: operation.status,
                downloaded_bytes: 0,
                total_bytes: None,
                speed: zero_speed(),
                error: clone_opt(&operation.error),
                endpoint: Some(operation.pip_index_url.clone()),
            };
            assert(snapshot.deep_view() == python_snapshot(self.windows, operation.deep_view()));
            out.push(snapshot);
            assert(out.deep_view() =~= second.push(
                python_snapshot(self.windows, operation.deep_view()),
            ));
        }
        let ghost third = out.deep_view();
        if let Some(operation) = &self.system_deps {
            let names = packages_in(&operation.dependencies);
            let snapshot = JobSnapshot {
                artifact_id: "system-dependencies".to_owned(),
                name: "System dependencies".to_owned(),
                relative_path: join_texts(&names, ", "),
                status: operation.status,
                downloaded_bytes: 0,
                total_bytes: None,
                speed: zero_speed(),
                error: clone_opt(&operation.error),
                endpoint: Some("apt-get".to_owned()),
            };
            assert(snapshot.deep_view() == system_snapshot(operation.deep_view()));
            out.push(snapshot);
            assert(out.deep_view() =~= third.push(system_snapshot(operation.deep_view())));
        }
        assert(out.deep_view() =~= self.deep_view().snapshots());
        out
    }

    /// The status of the download of the artifact.
    pub fn artifact_status(&self, artifact_id: &str) -> (r: Option<JobStatus>)
        ensures
            r == self.deep_view().status_of(artifact_id@),
    {
        match find_job(&self.jobs, artifact_id) {
            Some(i) => Some(self.jobs[i].status),
            None => None,
        }
    }

    /// The status of the installation of the custom node.
    pub fn custom_node_status(&self, node_id: &str) -> (r: Option<JobStatus>)
        ensures
            r == self.deep_view().node_status_of(node_id@),
    {
        match find_node(&self.custom_nodes, node_id) {
            Some(i) => Some(self.custom_nodes[i].status),
            None => None,
        }
    }

    /// The status of the Python dependencies or the system packages.
    pub fn operation_status(&self, id: &str) -> (r: Option<JobStatus>)
        ensures
            r == self.deep_view().operation_status_of(id@),
    {
        if same_text(id, "python-dependencies") {
            match &self.python_deps {
                Some(operation) => Some(operation.status),
                None => None,
            }
        } else if same_text(id, "system-dependencies") {
            match &self.system_deps {
                Some(operation) => Some(operation.status),
                None => None,
            }
        } else {
            None
        }
    }

    /// Whether something is active.
    pub fn has_active_operations(&self) -> (r: bool)
        ensures
            r == self.deep_view().any_active(),
    {
        let ghost q = self.deep_view();
        let mut i: usize = 0;
        while i < self.jobs.len()
            invariant
                i <= self.jobs@.len(),
                q == self.deep_view(),
                forall|k: int| 0 <= k < i ==> !(#[trigger] q.jobs[k]).status.active(),
            decreases self.jobs@.len() - i,
        {
            assert(q.jobs[i as int] == self.jobs@[i as int].deep_view());
            if self.jobs[i].status.is_active() {
                return true;
            }
            i += 1;
        }
        if let Some(operation) = &self.python_deps {
            if operation.status.is_active() {
                return true;
            }
        }
        if let Some(operation) = &self.system_deps {
            if operation.status.is_active() {
                return true;
            }
        }
        let mut i: usize = 0;
        while i < self.custom_nodes.len()
            invariant
                i <= self.custom_nodes@.len(),
                q == self.deep_view(),
                forall|k: int| 0 <= k < i ==> !(#[trigger] q.custom_nodes[k]).status.active(),
            decreases self.custom_nodes@.len() - i,
        {
            assert(q.custom_nodes[i as int] == self.custom_nodes@[i as int].deep_view());
            if self.custom_nodes[i].status.is_active() {
                return true;
            }
            i += 1;
        }
        false
    }

    /// The names and statuses of what is active.
    pub fn active_descriptions(&self) -> (r: Vec<String>)
        ensures
            r.deep_view() == descriptions(self.deep_view().snapshots(), 0),
    {
        let snapshots = self.snapshots();
        let ghost all = snapshots.deep_view();
        let mut out: Vec<String> = Vec::new();
        let mut i: usize = 0;
        assert(out.deep_view() + descriptions(all, 0) =~= descriptions(all, 0));
        while i < snapshots.len()
            invariant
                i <= snapshots@.len(),
                all == snapshots.deep_view(),
                out.deep_view() + descriptions(all, i as int) == descriptions(all, 0),
            decreases snapshots@.len() - i,
        {
            let job = &snapshots[i];
            let ghost before = out.deep_view();
            assert(all[i as int] == job.deep_view());
            if job.status.is_active() {
                let line = cat3(job.name.as_str(), ": ", job.status.label());
                let ghost view = line@;
                out.push(line);
                assert(out.deep_view() =~= before.push(view));
                assert(out.deep_view() + descriptions(all, i + 1) =~= before + descriptions(
                    all,
                    i as int,
                ));
            }
            i += 1;
        }
        assert(out.deep_view() =~= descriptions(all, 0));
        out
    }

    /// How many records there are.
    pub fn len(&self) -> (r: usize)
        ensures
            ({
                let n = self.deep_view().snapshots().len();
                r == if n <= usize::MAX {
                    n as usize
                } else {
                    usize::MAX
                }
            }),
    {
        let python: usize = if self.python_deps.is_some() {
            1
        } else {
            0
        };
        let system: usize = if self.system_deps.is_some() {
            1
        } else {
            0
        };
        let a = self.jobs.len().saturating_add(self.custom_nodes.len());
        a.saturating_add(python).saturating_add(system)
    }

    /// Sets how many chunks of a file are downloaded at a time. Downloads under way keep theirs;
    /// installations of custom nodes that run are aborted and paused.
    pub fn update_chunk_parallelism(&mut self, parallelism: usize, now: Clock)
        ensures
            final(self).deep_view() == old(self).deep_view().with_parallelism(parallelism, now),
    {
        let n: usize = if parallelism >= 1 {
            parallelism
        } else {
            1
        };
        let ghost q = self.deep_view();
        let ghost jobs = q.jobs;
        let ghost want = jobs.map_values(|j: JobView| job_with_parallelism(j, n));
        let mut i: usize = 0;
        assert(want.take(0) + jobs.skip(0) =~= jobs);
        while i < self.jobs.len()
            invariant
                i <= self.jobs@.len() == jobs.len(),
                want == jobs.map_values(|j: JobView| job_with_parallelism(j, n)),
                self.deep_view() == (QueueView {
                    jobs: want.take(i as int) + jobs.skip(i as int),
                    ..q
                }),
            decreases self.jobs@.len() - i,
        {
            let ghost before = self.jobs.deep_view();
            assert(before[i as int] == jobs[i as int]);
            let job = &mut self.jobs[i];
            if job.status != JobStatus::Downloading {
                job.options.parallelism = n;
            }
            assert(self.jobs.deep_view() =~= before.update(i as int, want[i as int]));
            assert(self.jobs.deep_view() =~= want.take(i + 1) + jobs.skip(i + 1));
            i += 1;
        }
        assert(self.jobs.deep_view() =~= want);
        let ghost nodes = q.custom_nodes;
        let ghost stopped = nodes.map_values(|op: NodeOperationView| node_stopped(op));
        let mut i: usize = 0;
        assert(stopped.take(0) + nodes.skip(0) =~= nodes);
        assert(nodes.take(0) =~= Seq::empty());
        assert(q.effects + node_aborts(nodes.take(0)) =~= q.effects);
        while i < self.custom_nodes.len()
            invariant
                i <= self.custom_nodes@.len() == nodes.len(),
                nodes == q.custom_nodes,
                stopped == nodes.map_values(|op: NodeOperationView| node_stopped(op)),
                self.deep_view() == (QueueView {
                    jobs: want,
                    custom_nodes: stopped.take(i as int) + nodes.skip(i as int),
                    effects: q.effects + node_aborts(nodes.take(i as int)),
                    ..q
                }),
            decreases self.custom_nodes@.len() - i,
        {
            let ghost before = self.custom_nodes.deep_view();
            assert(before[i as int] == nodes[i as int]);
            assert(before[i as int] == self.custom_nodes@[i as int].deep_view());
            proof {
                assert(nodes.take(i + 1).drop_last() =~= nodes.take(i as int));
            }
            let running = self.custom_nodes[i].running;
            let id = self.custom_nodes[i].node.id.clone();
            self.abort_if(running, TaskKey::CustomNode(id));
            if running {
                let operation = &mut self.custom_nodes[i];
                operation.running = false;
                operation.status = JobStatus::Paused;
            }
            assert(self.custom_nodes.deep_view() =~= before.update(i as int, stopped[i as int]));
            assert(self.custom_nodes.deep_view() =~= stopped.take(i + 1) + nodes.skip(i + 1));
            assert(self.effects.deep_view() =~= q.effects + node_aborts(nodes.take(i + 1)));
            i += 1;
        }
        assert(self.custom_nodes.deep_view() =~= stopped);
        assert(nodes.take(nodes.len() as int) =~= nodes);
        let text = decimal_text(n as u64);
        let message = cat2("per-file chunk parallelism set to ", text.as_str());
        self.log(message.as_str(), now);
    }

    /// Closes the queue: what runs is aborted and paused, and the jobs are saved.
    pub fn close(&mut self)
        ensures
            final(self).deep_view() == old(self).deep_view().closed_down(),
    {
        let ghost q = self.deep_view();
        let ghost jobs = q.jobs;
        let ghost want = jobs.map_values(|j: JobView| job_stopped(j));
        let mut i: usize = 0;
        assert(want.take(0) + jobs.skip(0) =~= jobs);
        assert(jobs.take(0) =~= Seq::empty());
        assert(q.effects + job_aborts(jobs.take(0)) =~= q.effects);
        while i < self.jobs.len()
            invariant
                i <= self.jobs@.len() == jobs.len(),
                want == jobs.map_values(|j: JobView| job_stopped(j)),
                self.deep_view() == (QueueView {
                    jobs: want.take(i as int) + jobs.skip(i as int),
                    effects: q.effects + job_aborts(jobs.take(i as int)),
                    ..q
                }),
            decreases self.jobs@.len() - i,
        {
            let ghost before = self.jobs.deep_view();
            assert(before[i as int] == jobs[i as int]);
            assert(before[i as int] == self.jobs@[i as int].deep_view());
            proof {
                assert(jobs.take(i + 1).drop_last() =~= jobs.take(i as int));
            }
            let running = self.jobs[i].running;
            let id = self.jobs[i].artifact.id.clone();
            self.abort_if(running, TaskKey::Download(id));
            if running {
                let job = &mut self.jobs[i];
                job.running = false;
                job.status = JobStatus::Paused;
            }
            assert(self.jobs.deep_view() =~= before.update(i as int, want[i as int]));
            assert(self.jobs.deep_view() =~= want.take(i + 1) + jobs.skip(i + 1));
            assert(self.effects.deep_view() =~= q.effects + job_aborts(jobs.take(i + 1)));
            i += 1;
        }
        assert(self.jobs.deep_view() =~= want);
        assert(jobs.take(jobs.len() as int) =~= jobs);
        let running = match &self.python_deps {
            Some(operation) => operation.running,
            None => false,
        };
        self.abort_if(running, TaskKey::PythonDeps);
        if running {
            if let Some(operation) = &mut self.python_deps {
                operation.running = false;
                operation.status = JobStatus::Paused;
            }
        }
        self.save();
    }

    /// Looks at the server's log before it is read: where the reading begins, or none where there
    /// is nothing new.
    pub fn tail_start(&mut self, path: &str, length: Option<u64>) -> (r: Option<u64>)
        ensures
            match length {
                None => r is None && *final(self) == *old(self),
                Some(n) => {
                    let q = old(self).deep_view().tail_opened(path@, n);
                    final(self).deep_view() == q && r == if q.server_log_offset == n {
                        None
                    } else {
                        Some(q.server_log_offset)
                    }
                },
            },
    {
        match length {
            None => None,
            Some(n) => {
                let same = match &self.server_log_path {
                    Some(p) => crate::comfy::same_path(p.as_str(), path, self.windows),
                    None => false,
                };
                if !same {
                    self.server_log_path = Some(path.to_owned());
                    self.server_log_offset = if n >= TAIL_BYTES {
                        n - TAIL_BYTES
                    } else {
                        0
                    };
                    self.server_log_partial = String::new();
                } else if n < self.server_log_offset {
                    self.server_log_offset = 0;
                    self.server_log_partial = String::new();
                }
                if n == self.server_log_offset {
                    None
                } else {
                    Some(self.server_log_offset)
                }
            },
        }
    }

    /// Takes in more of the server's log as text; whether a line was added.
    pub fn tail_text(&mut self, text: &str, bytes: u64) -> (r: bool)
        requires
            old(self).server_log_offset + bytes <= u64::MAX,
        ensures
            final(self).deep_view() == old(self).deep_view().tail_taken(text@, bytes as int),
            r == old(self).deep_view().tail_shows(text@),
    {
        let ghost q = self.deep_view();
        self.server_log_offset = self.server_log_offset + bytes;
        let full = cat2(self.server_log_partial.as_str(), text);
        let mut pieces = split_text(full.as_str(), '\n');
        let ghost all = pieces.deep_view();
        let last = match pieces.pop() {
            Some(p) => p,
            None => String::new(),
        };
        let ghost lines = pieces.deep_view();
        assert(lines =~= all.drop_last());
        self.server_log_partial = last;
        let mut changed = false;
        let mut i: usize = 0;
        let ghost opened = self.deep_view();
        assert(lines.take(0) =~= Seq::empty());
        while i < pieces.len()
            invariant
                i <= pieces@.len(),
                lines == pieces.deep_view(),
                self.deep_view() == (QueueView {
                    logs: with_server_lines(q.logs, lines.take(i as int)),
                    ..opened
                }),
                changed == any_text(lines.take(i as int)),
            decreases pieces@.len() - i,
        {
            proof {
                assert(lines[i as int] == pieces@[i as int]@);
                assert(lines.take(i + 1).drop_last() =~= lines.take(i as int));
                assert(lines.take(i + 1).last() == lines[i as int]);
                if any_text(lines.take(i as int)) {
                    let k = choose|k: int|
                        0 <= k < lines.take(i as int).len() && (#[trigger] lines.take(
                            i as int,
                        )[k]).len() > 0;
                    assert(lines.take(i + 1)[k].len() > 0);
                }
                if any_text(lines.take(i + 1)) && lines[i as int].len() == 0 {
                    let k = choose|k: int|
                        0 <= k < lines.take(i + 1).len() && (#[trigger] lines.take(
                            i + 1,
                        )[k]).len() > 0;
                    assert(lines.take(i as int)[k].len() > 0);
                }
            }
            if !pieces[i].as_str().is_empty() {
                let line = cat2("[COMFYUI] ", pieces[i].as_str());
                self.push_log_line(line);
                changed = true;
                assert(lines.take(i + 1)[i as int].len() > 0);
            }
            i += 1;
        }
        assert(lines.take(lines.len() as int) =~= lines);
        changed
    }

    /// Takes in more of the server's log; whether a line was added.
    pub fn tail_comfyui_log(&mut self, bytes: &Vec<u8>) -> (r: bool)
        requires
            old(self).server_log_offset + bytes@.len() <= u64::MAX,
        ensures
            final(self).deep_view() == old(self).deep_view().tail_taken(
                lossy_text(bytes@),
                bytes@.len() as int,
            ),
            r == old(self).deep_view().tail_shows(lossy_text(bytes@)),
    {
        let text = lossy_utf8(bytes);
        self.tail_text(text.as_str(), bytes.len() as u64)
    }
}

}
