//! Laws of single downloads and operations: what their events, the controls and a restart make of
//! them, what is saved, and what is shown.
use crate::catalog::{found, Artifact, CatalogView, SystemDependencyView};
use crate::jobs::{
    job_at, node_at, Clock, EffectView, JobStatus, JobView, NodeOperationView, OperationView,
    PersistedView, QueueEventView, QueueView, SystemOperationView, TaskKeyView,
};
use crate::laws::queue::one_job_each;
use crate::queue::{missing_packages, restored_jobs};
use crate::text::Text;
use vstd::prelude::*;

verus! {

proof fn only_job_is_found(jobs: Seq<JobView>, i: int, at: int)
    requires
        0 <= at <= i < jobs.len(),
        one_job_each(jobs),
    ensures
        job_at(jobs, jobs[i].artifact.id, at) == i,
    decreases i - at,
{
    if at < i {
        assert(jobs[at].artifact.id != jobs[i].artifact.id);
        only_job_is_found(jobs, i, at + 1);
    }
}

/// No two operations are for the same custom node.
pub open spec fn one_operation_each(nodes: Seq<NodeOperationView>) -> bool {
    forall|i: int, j: int|
        0 <= i < j < nodes.len() ==> (#[trigger] nodes[i]).node.id != (#[trigger] nodes[j]).node.id
}

proof fn only_node_is_found(nodes: Seq<NodeOperationView>, i: int, at: int)
    requires
        0 <= at <= i < nodes.len(),
        one_operation_each(nodes),
    ensures
        node_at(nodes, nodes[i].node.id, at) == i,
    decreases i - at,
{
    if at < i {
        assert(nodes[at].node.id != nodes[i].node.id);
        only_node_is_found(nodes, i, at + 1);
    }
}

/// Progress is that of the download it is reported for: how many bytes there are, and of how many.
/// Nothing else about it changes but its speed, and no other download does.
pub proof fn progress_is_taken_in(q: QueueView, i: int, downloaded: u64, total: u64, now: Clock)
    requires
        0 <= i < q.jobs.len(),
        one_job_each(q.jobs),
    ensures
        ({
            let r = q.after(
                QueueEventView::Progress {
                    artifact_id: q.jobs[i].artifact.id,
                    downloaded_bytes: downloaded,
                    total_bytes: total,
                },
                now,
            );
            &&& r.jobs == q.jobs.update(i, r.jobs[i])
            &&& r.jobs[i].downloaded_bytes == downloaded
            &&& r.jobs[i].total_bytes == Some(total)
            &&& r.jobs[i].status == q.jobs[i].status
            &&& r.jobs[i].artifact == q.jobs[i].artifact
            &&& r.jobs[i].options == q.jobs[i].options
            &&& r.jobs[i].root == q.jobs[i].root
            &&& r.jobs[i].running == q.jobs[i].running
            &&& r.effects == q.effects
            &&& now.nanos - q.jobs[i].last_progress > 50_000_000 ==> r.jobs[i].speed.nanos
                == now.nanos - q.jobs[i].last_progress && (downloaded >= q.jobs[i].last_bytes
                ==> r.jobs[i].speed.bytes == downloaded - q.jobs[i].last_bytes)
                && r.jobs[i].last_bytes == downloaded && r.jobs[i].last_progress == now.nanos
            &&& now.nanos - q.jobs[i].last_progress <= 50_000_000 ==> r.jobs[i].speed
                == q.jobs[i].speed && r.jobs[i].last_bytes == q.jobs[i].last_bytes
        }),
{
    only_job_is_found(q.jobs, i, 0);
    let r = q.after(
        QueueEventView::Progress {
            artifact_id: q.jobs[i].artifact.id,
            downloaded_bytes: downloaded,
            total_bytes: total,
        },
        now,
    );
    assert(r.jobs =~= q.jobs.update(i, r.jobs[i]));
}

/// A stage is that of the download it is reported for.
pub proof fn stages_are_taken_in(q: QueueView, i: int, status: JobStatus, now: Clock)
    requires
        0 <= i < q.jobs.len(),
        one_job_each(q.jobs),
    ensures
        ({
            let r = q.after(
                QueueEventView::Stage { artifact_id: q.jobs[i].artifact.id, status },
                now,
            );
            &&& r.jobs == q.jobs.update(i, r.jobs[i])
            &&& r.jobs[i].status == status
            &&& r.jobs[i].downloaded_bytes == q.jobs[i].downloaded_bytes
            &&& r.jobs[i].options == q.jobs[i].options
            &&& status != JobStatus::Downloading ==> r.jobs[i].speed.bytes == 0
        }),
{
    only_job_is_found(q.jobs, i, 0);
    let r = q.after(QueueEventView::Stage { artifact_id: q.jobs[i].artifact.id, status }, now);
    assert(r.jobs =~= q.jobs.update(i, r.jobs[i]));
}

/// A download that ended without an error is complete, with all its bytes; one that ended with an
/// error has failed, with that error, and keeps what it had. Neither runs any more.
pub proof fn ends_are_taken_in(q: QueueView, i: int, error: Option<Text>, now: Clock)
    requires
        0 <= i < q.jobs.len(),
        one_job_each(q.jobs),
    ensures
        ({
            let r = q.after(
                QueueEventView::Finished { artifact_id: q.jobs[i].artifact.id, error },
                now,
            );
            &&& r.jobs == q.jobs.update(i, r.jobs[i])
            &&& !r.jobs[i].running
            &&& r.jobs[i].speed.bytes == 0
            &&& r.jobs[i].artifact == q.jobs[i].artifact
            &&& r.jobs[i].options == q.jobs[i].options
            &&& r.jobs[i].root == q.jobs[i].root
            &&& r.jobs[i].total_bytes == q.jobs[i].total_bytes
            &&& error is None ==> r.jobs[i].status == JobStatus::Completed && (
            q.jobs[i].total_bytes matches Some(n) ==> r.jobs[i].downloaded_bytes == n)
            &&& error matches Some(e) ==> r.jobs[i].status == JobStatus::Failed && r.jobs[i].error
                == Some(e) && r.jobs[i].downloaded_bytes == q.jobs[i].downloaded_bytes
        }),
{
    only_job_is_found(q.jobs, i, 0);
    let r = q.after(QueueEventView::Finished { artifact_id: q.jobs[i].artifact.id, error }, now);
    assert(r.jobs =~= q.jobs.update(i, r.jobs[i]));
}

/// The end of the other operations: complete without an error, failed with it.
pub proof fn ends_of_operations_are_taken_in(q: QueueView, i: int, error: Option<Text>, now: Clock)
    requires
        0 <= i < q.custom_nodes.len(),
        one_operation_each(q.custom_nodes),
    ensures
        ({
            let r = q.after(
                QueueEventView::CustomNodeFinished { node_id: q.custom_nodes[i].node.id, error },
                now,
            );
            &&& r.custom_nodes == q.custom_nodes.update(i, r.custom_nodes[i])
            &&& !r.custom_nodes[i].running
            &&& r.custom_nodes[i].node == q.custom_nodes[i].node
            &&& error is None ==> r.custom_nodes[i].status == JobStatus::Completed
            &&& error is Some ==> r.custom_nodes[i].status == JobStatus::Failed
                && r.custom_nodes[i].error == error
        }),
        q.python_deps is Some ==> ({
            let r = q.after(QueueEventView::OperationFinished(error), now);
            &&& r.python_deps matches Some(op) && !op.running && op.status == if error is None {
                JobStatus::Completed
            } else {
                JobStatus::Failed
            } && (error is Some ==> op.error == error)
            &&& r.jobs == q.jobs
            &&& r.custom_nodes == q.custom_nodes
            &&& r.system_deps == q.system_deps
        }),
        q.system_deps is Some ==> ({
            let r = q.after(QueueEventView::SystemOperationFinished(error), now);
            &&& r.system_deps matches Some(op) && !op.running && op.status == if error is None {
                JobStatus::Completed
            } else {
                JobStatus::Failed
            } && (error is Some ==> op.error == error)
            &&& r.jobs == q.jobs
            &&& r.custom_nodes == q.custom_nodes
            &&& r.python_deps == q.python_deps
        }),
{
    only_node_is_found(q.custom_nodes, i, 0);
    let r = q.after(
        QueueEventView::CustomNodeFinished { node_id: q.custom_nodes[i].node.id, error },
        now,
    );
    assert(r.custom_nodes =~= q.custom_nodes.update(i, r.custom_nodes[i]));
}

/// Queued Python dependencies and system packages are started by the next round, whatever the
/// limit, with what they were queued with, and only then.
pub proof fn operations_are_started(q: QueueView, max_concurrent: usize, now: Clock)
    ensures
        ({
            let r = q.ticked(Seq::empty(), max_concurrent, now);
            let added = r.effects.skip(q.effects.len() as int);
            &&& (q.python_deps matches Some(op) && op.status == JobStatus::Queued) ==> (
            r.python_deps matches Some(p) && p.status == JobStatus::Installing && p.running
                && p.root == q.python_deps->0.root) && added.contains(
                EffectView::StartPythonDeps {
                    root: q.python_deps->0.root,
                    pip_index_url: q.python_deps->0.pip_index_url,
                },
            )
            &&& !(q.python_deps matches Some(op) && op.status == JobStatus::Queued)
                ==> r.python_deps == q.python_deps
            &&& (q.system_deps matches Some(op) && op.status == JobStatus::Queued) ==> (
            r.system_deps matches Some(p) && p.status == JobStatus::Installing && p.running)
                && added.contains(
                EffectView::StartSystemDeps { dependencies: q.system_deps->0.dependencies },
            )
            &&& !(q.system_deps matches Some(op) && op.status == JobStatus::Queued)
                ==> r.system_deps == q.system_deps
        }),
{
    let limit: int = if max_concurrent >= 1 {
        max_concurrent as int
    } else {
        1
    };
    let before = q.after_all(Seq::empty(), now).0;
    assert(before == q);
    let a = q.start_ready(q.running() as int, limit, now);
    start_ready_keeps_operations(q, q.running() as int, limit, now);
    let b = a.start_python(now);
    let c = b.start_system(now);
    let r = q.ticked(Seq::empty(), max_concurrent, now);
    let n = q.effects.len() as int;
    let added = r.effects.skip(n);
    if let Some(op) = q.python_deps {
        if op.status == JobStatus::Queued {
            let at: int = a.effects.len() as int + 1;
            assert(b.effects[at] == (EffectView::StartPythonDeps {
                root: op.root,
                pip_index_url: op.pip_index_url,
            }));
            assert(c.effects[at] == b.effects[at]);
            assert(r.effects[at] == b.effects[at]);
            assert(added[at - n] == b.effects[at]);
        }
    }
    if let Some(op) = q.system_deps {
        if op.status == JobStatus::Queued {
            let at: int = b.effects.len() as int + 1;
            assert(c.effects[at] == (EffectView::StartSystemDeps {
                dependencies: op.dependencies,
            }));
            assert(r.effects[at] == c.effects[at]);
            assert(added[at - n] == c.effects[at]);
        }
    }
}

proof fn start_ready_keeps_operations(q: QueueView, taken: int, limit: int, now: Clock)
    ensures
        q.start_ready(taken, limit, now).python_deps == q.python_deps,
        q.start_ready(taken, limit, now).system_deps == q.system_deps,
        q.start_ready(taken, limit, now).effects.len() >= q.effects.len(),
    decreases limit - taken,
{
    if taken < limit {
        let at = crate::jobs::queued_job_at(q.jobs, 0);
        let node = crate::jobs::queued_node_at(q.custom_nodes, 0);
        if at >= 0 {
            start_ready_keeps_operations(q.start_job(at, now), taken + 1, limit, now);
        } else if node >= 0 {
            start_ready_keeps_operations(q.start_node(node, now), taken + 1, limit, now);
        }
    }
}

/// What is saved of a download: its artifact, its place, how far it is, its endpoint and whether it
/// replaces. The token is not saved.
pub open spec fn saved_as(p: PersistedView, job: JobView) -> bool {
    &&& p.artifact_id == job.artifact.id
    &&& p.root == job.root
    &&& p.status == job.status
    &&& p.downloaded_bytes == job.downloaded_bytes
    &&& p.total_bytes == job.total_bytes
    &&& p.endpoint == job.options.hf_endpoint
    &&& p.force == job.options.force
}

/// The last effect saves every download as it is now.
pub open spec fn saves_all(r: QueueView) -> bool {
    r.effects.len() > 0 && (r.effects.last() matches EffectView::Save(list) && list.len()
        == r.jobs.len() && forall|i: int|
        0 <= i < r.jobs.len() ==> saved_as(list[i], #[trigger] r.jobs[i]))
}

proof fn saved_saves_all(q: QueueView)
    ensures
        saves_all(q.saved()),
{
    let list = q.persisted();
    assert forall|i: int| 0 <= i < q.jobs.len() implies saved_as(list[i], #[trigger] q.jobs[i]) by {
        assert(list[i] == q.jobs[i].persisted());
    }
}

/// Whatever changes the downloads for good saves them: queueing, pausing, continuing, trying again,
/// forgetting and closing, and a round in which one ended or one was started.
pub proof fn changes_are_saved(
    q: QueueView,
    root: Text,
    artifacts: Seq<crate::catalog::ArtifactView>,
    options: crate::download::OptionsView,
    i: int,
    ids: Set<Text>,
    now: Clock,
)
    requires
        0 <= i < q.jobs.len(),
    ensures
        q.enqueued(root, artifacts, options, now).1 > 0 ==> saves_all(
            q.enqueued(root, artifacts, options, now).0,
        ),
        q.jobs[i].status.active() ==> saves_all(q.paused(i, now)),
        q.jobs[i].status == JobStatus::Paused ==> saves_all(q.resumed(i, now)),
        q.jobs[i].status == JobStatus::Failed ==> saves_all(q.retried(i, now)),
        saves_all(q.forgotten(ids)),
        saves_all(q.closed_down()),
{
    let (e, n) = q.queue_artifacts(root, artifacts, options, now);
    saved_saves_all(
        e.logged("queued "@ + crate::text::decimal(n) + " artifact download(s)"@, now),
    );
    let job = q.jobs[i];
    saved_saves_all(
        q.abort_if(job.running, TaskKeyView::Download(job.artifact.id)).with_job(
            i,
            JobView {
                running: false,
                status: JobStatus::Paused,
                speed: crate::jobs::no_speed(),
                ..job
            },
        ).logged("paused "@ + job.artifact.name + "; verified chunks were retained"@, now),
    );
    let again = q.with_job(i, JobView { status: JobStatus::Queued, error: None, ..job });
    saved_saves_all(
        again.logged("continued "@ + job.artifact.name + " from retained download state"@, now),
    );
    saved_saves_all(again.logged("retrying failed download "@ + job.artifact.name + ""@, now));
    saved_saves_all(
        QueueView {
            jobs: crate::jobs::kept_jobs(q.jobs, ids),
            effects: q.effects + crate::jobs::forgotten_aborts(q.jobs, ids),
            ..q
        },
    );
    let closed = q.closed_down();
    let list = closed.effects.last()->Save_0;
    assert forall|k: int| 0 <= k < closed.jobs.len() implies saved_as(
        list[k],
        #[trigger] closed.jobs[k],
    ) by {
        assert(list[k] == closed.jobs[k].persisted());
    }
}

/// A round in which a download ended, or in which one waits and a place is free, ends with a save.
pub proof fn rounds_are_saved(
    q: QueueView,
    events: Seq<QueueEventView>,
    max_concurrent: usize,
    now: Clock,
)
    ensures
        ({
            let r = q.ticked(events, max_concurrent, now);
            let before = q.after_all(events, now).0;
            r.jobs != before.jobs ==> saves_all(r)
        }),
        events.len() == 1 && (events[0] matches QueueEventView::Finished { artifact_id, .. }
            && exists|i: int|
            0 <= i < q.jobs.len() && (#[trigger] q.jobs[i]).artifact.id == artifact_id)
            ==> saves_all(q.ticked(events, max_concurrent, now)),
{
    let limit: int = if max_concurrent >= 1 {
        max_concurrent as int
    } else {
        1
    };
    let (before, ended) = q.after_all(events, now);
    let a = before.start_ready(before.running() as int, limit, now);
    let c = a.start_python(now).start_system(now);
    saved_saves_all(c);
    let r = q.ticked(events, max_concurrent, now);
    if !(before.running() < limit && before.has_queued()) {
        assert(a == before);
        assert(c.jobs == before.jobs);
        assert(r.jobs == before.jobs);
    }
    if events.len() == 1 {
        if let QueueEventView::Finished { artifact_id, error } = events[0] {
            if exists|i: int|
                0 <= i < q.jobs.len() && (#[trigger] q.jobs[i]).artifact.id == artifact_id {
                let i = choose|i: int|
                    0 <= i < q.jobs.len() && (#[trigger] q.jobs[i]).artifact.id == artifact_id;
                found_when_there(q.jobs, artifact_id, i, 0);
                assert(events.drop_last() =~= Seq::<QueueEventView>::empty());
                assert(events.last() == events[0]);
                reveal_with_fuel(QueueView::after_all, 2);
                assert(ended);
            }
        }
    }
}

proof fn found_when_there(jobs: Seq<JobView>, id: Text, i: int, at: int)
    requires
        0 <= at <= i < jobs.len(),
        jobs[i].artifact.id == id,
    ensures
        job_at(jobs, id, at) >= 0,
    decreases i - at,
{
    if jobs[at].artifact.id != id {
        found_when_there(jobs, id, i, at + 1);
    }
}

/// After a restart a saved download of a known artifact is there again, in its place among the
/// others, with its root, endpoint and progress and whether it replaces, with the token and the
/// settings of the new session; it is paused where something worked on it or was to.
pub proof fn restarts_bring_downloads_back(
    saved: Seq<PersistedView>,
    c: CatalogView,
    parallelism: usize,
    chunk_size_bytes: u64,
    token: Option<Text>,
    now: Clock,
    i: int,
)
    requires
        forall|k: int|
            0 <= k < saved.len() ==> found::<Artifact>(
                c.artifacts,
                (#[trigger] saved[k]).artifact_id,
            ) is Some,
        0 <= i < saved.len(),
    ensures
        ({
            let back = restored_jobs(saved, c, parallelism, chunk_size_bytes, token, now);
            &&& back.len() == saved.len()
            &&& Some(back[i].artifact) == found::<Artifact>(c.artifacts, saved[i].artifact_id)
            &&& back[i].root == saved[i].root
            &&& back[i].options.hf_endpoint == saved[i].endpoint
            &&& back[i].options.force == saved[i].force
            &&& back[i].options.hf_token == token
            &&& back[i].options.parallelism == parallelism
            &&& back[i].options.chunk_size_bytes == chunk_size_bytes
            &&& back[i].downloaded_bytes == saved[i].downloaded_bytes
            &&& back[i].last_bytes == saved[i].downloaded_bytes
            &&& back[i].total_bytes == saved[i].total_bytes
            &&& back[i].error is None
            &&& !back[i].running
            &&& back[i].status == if saved[i].status == JobStatus::Failed {
                JobStatus::Failed
            } else if saved[i].status == JobStatus::Completed {
                JobStatus::Completed
            } else {
                JobStatus::Paused
            }
        }),
    decreases saved.len(),
{
    let front = saved.drop_last();
    assert forall|k: int| 0 <= k < front.len() implies found::<Artifact>(
        c.artifacts,
        (#[trigger] front[k]).artifact_id,
    ) is Some by {
        assert(front[k] == saved[k]);
    }
    assert(found::<Artifact>(c.artifacts, saved[saved.len() - 1].artifact_id) is Some);
    if front.len() > 0 {
        restarts_bring_downloads_back(
            front,
            c,
            parallelism,
            chunk_size_bytes,
            token,
            now,
            if i < front.len() {
                i
            } else {
                0
            },
        );
    }
}

/// A paused custom node or paused Python dependencies wait again when they are continued, and failed
/// ones when they are tried again; the task of what is paused is aborted.
pub proof fn operations_are_paused_and_continued(q: QueueView, i: int, now: Clock, later: Clock)
    requires
        0 <= i < q.custom_nodes.len(),
    ensures
        ({
            let index = q.jobs.len() + i;
            let op = q.custom_nodes[i];
            let p = q.paused(index, now);
            &&& p.custom_nodes == q.custom_nodes.update(i, p.custom_nodes[i])
            &&& p.jobs == q.jobs
            &&& !p.custom_nodes[i].running
            &&& op.status != JobStatus::Failed && op.status != JobStatus::Completed
                ==> p.custom_nodes[i].status == JobStatus::Paused
            &&& op.running ==> p.effects[q.effects.len() as int] == EffectView::Abort(
                TaskKeyView::CustomNode(op.node.id),
            )
            &&& op.status == JobStatus::Paused ==> q.resumed(index, now).custom_nodes
                == q.custom_nodes.update(
                i,
                NodeOperationView { status: JobStatus::Queued, error: None, ..op },
            )
            &&& op.status == JobStatus::Failed ==> q.retried(index, now).custom_nodes
                == q.custom_nodes.update(
                i,
                NodeOperationView { status: JobStatus::Queued, error: None, ..op },
            )
            &&& op.status != JobStatus::Paused ==> q.resumed(index, now) == q
            &&& op.status != JobStatus::Failed ==> q.retried(index, now) == q
        }),
        q.python_deps is Some ==> ({
            let index = q.jobs.len() + q.custom_nodes.len();
            let op = q.python_deps->0;
            let p = q.paused(index as int, now);
            &&& p.python_deps == Some(
                OperationView { running: false, status: JobStatus::Paused, ..op },
            )
            &&& op.running ==> p.effects[q.effects.len() as int] == EffectView::Abort(
                TaskKeyView::PythonDeps,
            )
            &&& op.status == JobStatus::Paused ==> q.resumed(index as int, now).python_deps == Some(
                OperationView { status: JobStatus::Queued, error: None, ..op },
            )
            &&& op.status == JobStatus::Failed ==> q.retried(index as int, now).python_deps == Some(
                OperationView { status: JobStatus::Queued, error: None, ..op },
            )
        }),
{
    let index = q.jobs.len() + i;
    let p = q.paused(index, now);
    assert(p.custom_nodes =~= q.custom_nodes.update(i, p.custom_nodes[i]));
}

/// What is shown: first the downloads, then the custom nodes, the Python dependencies and the system
/// packages, each with its own name, status, progress, error and source.
pub proof fn everything_is_shown(q: QueueView, i: int)
    ensures
        q.snapshots().len() == q.jobs.len() + q.custom_nodes.len() + (if q.python_deps is Some {
            1int
        } else {
            0
        }) + (if q.system_deps is Some {
            1int
        } else {
            0
        }),
        0 <= i < q.jobs.len() ==> ({
            let s = q.snapshots()[i];
            let job = q.jobs[i];
            &&& s.artifact_id == job.artifact.id
            &&& s.name == job.artifact.name
            &&& s.relative_path == job.artifact.relative_path
            &&& s.status == job.status
            &&& s.downloaded_bytes == job.downloaded_bytes
            &&& s.total_bytes == job.total_bytes
            &&& s.speed == job.speed
            &&& s.error == job.error
            &&& s.endpoint == job.options.hf_endpoint
        }),
        0 <= i < q.custom_nodes.len() ==> ({
            let s = q.snapshots()[q.jobs.len() + i];
            let op = q.custom_nodes[i];
            &&& s.name == op.node.name
            &&& s.status == op.status
            &&& s.error == op.error
            &&& s.endpoint == Some(op.node.git_url)
            &&& s.artifact_id == "custom-node:"@ + op.node.id
        }),
        q.python_deps matches Some(op) ==> ({
            let s = q.snapshots()[(q.jobs.len() + q.custom_nodes.len()) as int];
            s.status == op.status && s.error == op.error && s.endpoint == Some(op.pip_index_url)
        }),
        q.system_deps matches Some(op) ==> q.snapshots().last().status == op.status
            && q.snapshots().last().error == op.error,
{
}

/// Setting the number of chunks changes it, to one at least, for every download that is not under
/// way, and nothing else about the downloads.
pub proof fn chunks_are_set(q: QueueView, parallelism: usize, now: Clock, i: int)
    requires
        0 <= i < q.jobs.len(),
    ensures
        ({
            let r = q.with_parallelism(parallelism, now);
            &&& r.jobs.len() == q.jobs.len()
            &&& q.jobs[i].status == JobStatus::Downloading ==> r.jobs[i] == q.jobs[i]
            &&& q.jobs[i].status != JobStatus::Downloading ==> r.jobs[i].options.parallelism == if parallelism
                == 0 {
                1
            } else {
                parallelism
            } && r.jobs[i] == (JobView {
                options: crate::download::OptionsView {
                    parallelism: r.jobs[i].options.parallelism,
                    ..q.jobs[i].options
                },
                ..q.jobs[i]
            })
        }),
{
}

/// Only packages that are not installed are installed, and all of those.
pub proof fn missing_packages_are_installed(
    d: Seq<SystemDependencyView>,
    installed: Set<Text>,
    x: SystemDependencyView,
)
    ensures
        missing_packages(d, installed).contains(x) <==> d.contains(x) && !installed.contains(
            x.package,
        ),
    decreases d.len(),
{
    let kept = missing_packages(d, installed);
    if d.len() > 0 {
        let front = d.drop_last();
        missing_packages_are_installed(front, installed, x);
        let rest = missing_packages(front, installed);
        assert(d[d.len() - 1] == d.last());
        if d.contains(x) {
            let k = choose|k: int| 0 <= k < d.len() && d[k] == x;
            if k < front.len() {
                assert(front[k] == x);
            }
        }
        if front.contains(x) {
            let k = choose|k: int| 0 <= k < front.len() && front[k] == x;
            assert(d[k] == x);
        }
        if !installed.contains(d.last().package) {
            assert(kept[rest.len() as int] == d.last());
            if rest.contains(x) {
                let k = choose|k: int| 0 <= k < rest.len() && rest[k] == x;
                assert(kept[k] == x);
            }
            if kept.contains(x) {
                let k = choose|k: int| 0 <= k < kept.len() && kept[k] == x;
                if k < rest.len() {
                    assert(rest[k] == x);
                }
            }
        }
    }
}

/// What is queued as an operation is started with what it was queued with.
pub proof fn operations_are_queued_as_asked(
    q: QueueView,
    root: Text,
    pip_index_url: Text,
    d: Seq<SystemDependencyView>,
    now: Clock,
)
    ensures
        q.queue_python(root, pip_index_url, now).python_deps == Some(
            OperationView {
                root,
                pip_index_url,
                status: JobStatus::Queued,
                error: None,
                running: false,
            },
        ),
        q.queue_python(root, pip_index_url, now).jobs == q.jobs,
        q.queue_system(d, now).system_deps == Some(
            SystemOperationView {
                dependencies: d,
                status: JobStatus::Queued,
                error: None,
                running: false,
            },
        ),
        q.queue_system(d, now).jobs == q.jobs,
{
}

proof fn closing_aborts(jobs: Seq<JobView>, i: int)
    requires
        0 <= i < jobs.len(),
        jobs[i].running,
    ensures
        crate::jobs::job_aborts(jobs).contains(
            EffectView::Abort(TaskKeyView::Download(jobs[i].artifact.id)),
        ),
    decreases jobs.len(),
{
    let front = jobs.drop_last();
    let all = crate::jobs::job_aborts(jobs);
    let rest = crate::jobs::job_aborts(front);
    let wanted = EffectView::Abort(TaskKeyView::Download(jobs[i].artifact.id));
    if i < front.len() {
        assert(front[i] == jobs[i]);
        closing_aborts(front, i);
        let k = choose|k: int| 0 <= k < rest.len() && rest[k] == wanted;
        assert(all[k] == wanted);
    } else {
        assert(jobs.last() == jobs[i]);
        assert(all[all.len() - 1] == wanted);
    }
}

proof fn forgetting_aborts(jobs: Seq<JobView>, ids: Set<Text>, i: int)
    requires
        0 <= i < jobs.len(),
        jobs[i].running,
        ids.contains(jobs[i].artifact.id),
    ensures
        crate::jobs::forgotten_aborts(jobs, ids).contains(
            EffectView::Abort(TaskKeyView::Download(jobs[i].artifact.id)),
        ),
    decreases jobs.len(),
{
    let front = jobs.drop_last();
    let all = crate::jobs::forgotten_aborts(jobs, ids);
    let rest = crate::jobs::forgotten_aborts(front, ids);
    let wanted = EffectView::Abort(TaskKeyView::Download(jobs[i].artifact.id));
    if i < front.len() {
        assert(front[i] == jobs[i]);
        forgetting_aborts(front, ids, i);
        let k = choose|k: int| 0 <= k < rest.len() && rest[k] == wanted;
        assert(all[k] == wanted);
    } else {
        assert(jobs.last() == jobs[i]);
        assert(all[all.len() - 1] == wanted);
    }
}

/// Whatever runs is aborted when the queue is closed, and when it is forgotten; what is forgotten is
/// no longer in the queue, and everything else is.
pub proof fn what_runs_is_aborted(q: QueueView, ids: Set<Text>, i: int)
    requires
        0 <= i < q.jobs.len(),
    ensures
        q.jobs[i].running ==> q.closed_down().effects.contains(
            EffectView::Abort(TaskKeyView::Download(q.jobs[i].artifact.id)),
        ),
        (q.python_deps matches Some(op) && op.running) ==> q.closed_down().effects.contains(
            EffectView::Abort(TaskKeyView::PythonDeps),
        ),
        q.jobs[i].running && ids.contains(q.jobs[i].artifact.id) ==> q.forgotten(
            ids,
        ).effects.contains(EffectView::Abort(TaskKeyView::Download(q.jobs[i].artifact.id))),
        q.forgotten(ids).jobs.contains(q.jobs[i]) <==> !ids.contains(q.jobs[i].artifact.id),
        q.forgotten(ids).custom_nodes == q.custom_nodes,
{
    let wanted = EffectView::Abort(TaskKeyView::Download(q.jobs[i].artifact.id));
    let n = q.effects.len() as int;
    let aborts = crate::jobs::job_aborts(q.jobs);
    let closed = q.closed_down();
    if q.jobs[i].running {
        closing_aborts(q.jobs, i);
        let k = choose|k: int| 0 <= k < aborts.len() && aborts[k] == wanted;
        assert(closed.effects[n + k] == wanted);
    }
    if let Some(op) = q.python_deps {
        if op.running {
            assert(closed.effects[n + aborts.len()] == EffectView::Abort(TaskKeyView::PythonDeps));
        }
    }
    if q.jobs[i].running && ids.contains(q.jobs[i].artifact.id) {
        forgetting_aborts(q.jobs, ids, i);
        let list = crate::jobs::forgotten_aborts(q.jobs, ids);
        let k = choose|k: int| 0 <= k < list.len() && list[k] == wanted;
        assert(q.forgotten(ids).effects[n + k] == wanted);
    }
    crate::laws::queue::forgotten_jobs_are_gone(q.jobs, ids, q.jobs[i]);
    assert(q.jobs.contains(q.jobs[i]));
}

/// A removal deletes the temporary data of the download it removes, where that was asked for, and no
/// other; a record of an operation is removed alone. What runs is aborted. Only active system
/// packages cannot be removed, and nothing where there is no record.
pub proof fn removals_are_of_one_record(q: QueueView, i: int, delete_temp: bool)
    ensures
        0 <= i < q.jobs.len() ==> (q.removed(i, true).1 matches Ok(x) && x.temp_dir == Some(
            crate::download::temp_dir_of(q.windows, q.jobs[i].root, q.jobs[i].artifact),
        ) && x.save),
        0 <= i < q.jobs.len() ==> (q.removed(i, false).1 matches Ok(x) && x.temp_dir is None
            && x.save),
        0 <= i < q.custom_nodes.len() ==> ({
            let (r, left) = q.removed(q.jobs.len() + i, delete_temp);
            &&& r.custom_nodes == q.custom_nodes.remove(i)
            &&& r.jobs == q.jobs
            &&& q.custom_nodes[i].running ==> r.effects == q.effects.push(
                EffectView::Abort(TaskKeyView::CustomNode(q.custom_nodes[i].node.id)),
            )
            &&& left matches Ok(x) && x.temp_dir is None && x.node_temp == if delete_temp {
                Some((q.custom_nodes[i].root, q.custom_nodes[i].node.id))
            } else {
                None
            }
        }),
        q.python_deps is Some ==> ({
            let (r, left) = q.removed((q.jobs.len() + q.custom_nodes.len()) as int, delete_temp);
            &&& r.python_deps is None && left is Ok
            &&& r.jobs == q.jobs && r.custom_nodes == q.custom_nodes && r.system_deps
                == q.system_deps
            &&& q.python_deps->0.running ==> r.effects == q.effects.push(
                EffectView::Abort(TaskKeyView::PythonDeps),
            )
        }),
        q.python_deps is None && q.system_deps is Some ==> ({
            let (r, left) = q.removed((q.jobs.len() + q.custom_nodes.len()) as int, delete_temp);
            let over = q.system_deps->0.status == JobStatus::Completed
                || q.system_deps->0.status == JobStatus::Failed || q.system_deps->0.status
                == JobStatus::Paused;
            &&& over ==> r.system_deps is None && left is Ok
            &&& !over ==> r == q && left is Err
        }),
        i >= q.jobs.len() + q.custom_nodes.len() + 2 ==> q.removed(i, delete_temp).0 == q
            && q.removed(i, delete_temp).1 is Err,
{
}

/// A download that failed is tried again as it was, without its error.
pub proof fn failed_downloads_are_tried_again_as_they_were(q: QueueView, i: int, now: Clock)
    requires
        0 <= i < q.jobs.len(),
        q.jobs[i].status == JobStatus::Failed,
    ensures
        q.retried(i, now).jobs == q.jobs.update(
            i,
            JobView { status: JobStatus::Queued, error: None, ..q.jobs[i] },
        ),
        q.retried(i, now).custom_nodes == q.custom_nodes,
{
}

}
