//! Laws of the download manager.
use crate::catalog::{found, found_from, Artifact, ArtifactView, CatalogView, NodeView};
use crate::controls::with_server_lines;
use crate::download::OptionsView;
use crate::jobs::{
    has_active_job, job_at, kept_jobs, no_speed, queued_job_at, queued_node_at, running_jobs,
    running_nodes, Clock, EffectView, JobStatus, JobView, NodeOperationView, PersistedView,
    QueueEventView, QueueView, RemovalView, TaskKeyView, MAX_LOG_LINES,
};
use crate::queue::restored_jobs;
use crate::text::Text;
use vstd::prelude::*;

verus! {

/// No more log lines are kept than the limit.
pub open spec fn log_bounded(q: QueueView) -> bool {
    q.logs.len() <= MAX_LOG_LINES
}

proof fn after_keeps_bound(q: QueueView, event: QueueEventView, now: Clock)
    requires
        log_bounded(q),
    ensures
        log_bounded(q.after(event, now)),
{
}

proof fn after_all_keeps_bound(q: QueueView, events: Seq<QueueEventView>, now: Clock)
    requires
        log_bounded(q),
    ensures
        log_bounded(q.after_all(events, now).0),
    decreases events.len(),
{
    if events.len() > 0 {
        after_all_keeps_bound(q, events.drop_last(), now);
        after_keeps_bound(q.after_all(events.drop_last(), now).0, events.last(), now);
    }
}

proof fn start_ready_keeps_bound(q: QueueView, taken: int, limit: int, now: Clock)
    requires
        log_bounded(q),
    ensures
        log_bounded(q.start_ready(taken, limit, now)),
    decreases limit - taken,
{
    if taken < limit {
        if queued_job_at(q.jobs, 0) >= 0 {
            start_ready_keeps_bound(
                q.start_job(queued_job_at(q.jobs, 0), now),
                taken + 1,
                limit,
                now,
            );
        } else if queued_node_at(q.custom_nodes, 0) >= 0 {
            start_ready_keeps_bound(
                q.start_node(queued_node_at(q.custom_nodes, 0), now),
                taken + 1,
                limit,
                now,
            );
        }
    }
}

/// A round keeps the log within its limit.
pub proof fn rounds_keep_the_log_bounded(
    q: QueueView,
    events: Seq<QueueEventView>,
    max_concurrent: usize,
    now: Clock,
)
    requires
        log_bounded(q),
    ensures
        log_bounded(q.ticked(events, max_concurrent, now)),
{
    let limit: int = if max_concurrent >= 1 {
        max_concurrent as int
    } else {
        1
    };
    after_all_keeps_bound(q, events, now);
    let next = q.after_all(events, now).0;
    start_ready_keeps_bound(next, next.running() as int, limit, now);
}

proof fn queue_artifacts_keeps_bound(
    q: QueueView,
    root: Text,
    artifacts: Seq<ArtifactView>,
    options: OptionsView,
    now: Clock,
)
    requires
        log_bounded(q),
    ensures
        log_bounded(q.queue_artifacts(root, artifacts, options, now).0),
    decreases artifacts.len(),
{
    if artifacts.len() > 0 {
        queue_artifacts_keeps_bound(q, root, artifacts.drop_last(), options, now);
    }
}

proof fn queue_nodes_keeps_bound(q: QueueView, root: Text, nodes: Seq<NodeView>, now: Clock)
    requires
        log_bounded(q),
    ensures
        log_bounded(q.queue_nodes(root, nodes, now)),
    decreases nodes.len(),
{
    if nodes.len() > 0 {
        queue_nodes_keeps_bound(q, root, nodes.drop_last(), now);
    }
}

proof fn server_lines_keep_bound(logs: Seq<Text>, lines: Seq<Text>)
    requires
        logs.len() <= MAX_LOG_LINES,
    ensures
        with_server_lines(logs, lines).len() <= MAX_LOG_LINES,
    decreases lines.len(),
{
    if lines.len() > 0 {
        server_lines_keep_bound(logs, lines.drop_last());
    }
}

/// Every control keeps the log within its limit.
pub proof fn controls_keep_the_log_bounded(
    q: QueueView,
    root: Text,
    artifacts: Seq<ArtifactView>,
    nodes: Seq<NodeView>,
    options: OptionsView,
    index: int,
    parallelism: usize,
    text: Text,
    removal: RemovalView,
    now: Clock,
)
    requires
        log_bounded(q),
    ensures
        log_bounded(q.enqueued(root, artifacts, options, now).0),
        log_bounded(q.queue_nodes(root, nodes, now)),
        log_bounded(q.paused(index, now)),
        log_bounded(q.resumed(index, now)),
        log_bounded(q.retried(index, now)),
        log_bounded(q.removal_noted(removal, now)),
        log_bounded(q.with_parallelism(parallelism, now)),
        log_bounded(q.tail_taken(text, 0)),
        log_bounded(q.closed_down()),
{
    queue_artifacts_keeps_bound(q, root, artifacts, options, now);
    queue_nodes_keeps_bound(q, root, nodes, now);
    server_lines_keep_bound(
        q.logs,
        crate::text::split_at(q.server_log_partial + text, '\n').drop_last(),
    );
}

/// The effects of `b` are those of `a` and more, none of which aborts a task.
pub open spec fn aborts_nothing(a: QueueView, b: QueueView) -> bool {
    &&& a.effects.len() <= b.effects.len()
    &&& forall|i: int| 0 <= i < a.effects.len() ==> #[trigger] b.effects[i] == a.effects[i]
    &&& forall|i: int|
        a.effects.len() <= i < b.effects.len() ==> !(#[trigger] b.effects[i] is Abort)
}

proof fn aborts_nothing_transitive(a: QueueView, b: QueueView, c: QueueView)
    requires
        aborts_nothing(a, b),
        aborts_nothing(b, c),
    ensures
        aborts_nothing(a, c),
{
    assert forall|i: int| 0 <= i < a.effects.len() implies #[trigger] c.effects[i] == a.effects[i] by {
        assert(b.effects[i] == a.effects[i]);
    }
    assert forall|i: int| a.effects.len() <= i < c.effects.len() implies !(
    #[trigger] c.effects[i] is Abort) by {
        if i < b.effects.len() {
            assert(c.effects[i] == b.effects[i]);
        }
    }
}

proof fn after_all_aborts_nothing(q: QueueView, events: Seq<QueueEventView>, now: Clock)
    ensures
        aborts_nothing(q, q.after_all(events, now).0),
    decreases events.len(),
{
    if events.len() > 0 {
        let before = q.after_all(events.drop_last(), now).0;
        after_all_aborts_nothing(q, events.drop_last(), now);
        aborts_nothing_transitive(q, before, before.after(events.last(), now));
    }
}

proof fn start_ready_aborts_nothing(q: QueueView, taken: int, limit: int, now: Clock)
    ensures
        aborts_nothing(q, q.start_ready(taken, limit, now)),
    decreases limit - taken,
{
    if taken < limit {
        if queued_job_at(q.jobs, 0) >= 0 {
            let next = q.start_job(queued_job_at(q.jobs, 0), now);
            start_ready_aborts_nothing(next, taken + 1, limit, now);
            aborts_nothing_transitive(q, next, next.start_ready(taken + 1, limit, now));
        } else if queued_node_at(q.custom_nodes, 0) >= 0 {
            let next = q.start_node(queued_node_at(q.custom_nodes, 0), now);
            start_ready_aborts_nothing(next, taken + 1, limit, now);
            aborts_nothing_transitive(q, next, next.start_ready(taken + 1, limit, now));
        }
    }
}

/// A round never aborts a task, however low the limit has become: transfers under way finish.
pub proof fn lowering_the_limit_kills_nothing(
    q: QueueView,
    events: Seq<QueueEventView>,
    max_concurrent: usize,
    now: Clock,
)
    ensures
        aborts_nothing(q, q.ticked(events, max_concurrent, now)),
{
    let limit: int = if max_concurrent >= 1 {
        max_concurrent as int
    } else {
        1
    };
    let a = q.after_all(events, now).0;
    after_all_aborts_nothing(q, events, now);
    let b = a.start_ready(a.running() as int, limit, now);
    start_ready_aborts_nothing(a, a.running() as int, limit, now);
    aborts_nothing_transitive(q, a, b);
    let c = b.start_python(now);
    aborts_nothing_transitive(q, b, c);
    let d = c.start_system(now);
    aborts_nothing_transitive(q, c, d);
    aborts_nothing_transitive(q, d, d.saved());
}

proof fn queued_job_facts(jobs: Seq<JobView>, at: int)
    requires
        0 <= at <= jobs.len(),
    ensures
        queued_job_at(jobs, at) >= 0 ==> at <= queued_job_at(jobs, at) < jobs.len()
            && jobs[queued_job_at(jobs, at)].status == JobStatus::Queued,
        queued_job_at(jobs, at) < 0 ==> forall|i: int|
            at <= i < jobs.len() ==> (#[trigger] jobs[i]).status != JobStatus::Queued,
    decreases jobs.len() - at,
{
    if at < jobs.len() {
        queued_job_facts(jobs, at + 1);
    }
}

proof fn queued_node_facts(nodes: Seq<NodeOperationView>, at: int)
    requires
        0 <= at <= nodes.len(),
    ensures
        queued_node_at(nodes, at) >= 0 ==> at <= queued_node_at(nodes, at) < nodes.len()
            && nodes[queued_node_at(nodes, at)].status == JobStatus::Queued,
        queued_node_at(nodes, at) < 0 ==> forall|i: int|
            at <= i < nodes.len() ==> (#[trigger] nodes[i]).status != JobStatus::Queued,
    decreases nodes.len() - at,
{
    if at < nodes.len() {
        queued_node_facts(nodes, at + 1);
    }
}

proof fn running_jobs_update(jobs: Seq<JobView>, at: int, job: JobView)
    requires
        0 <= at < jobs.len(),
        !jobs[at].status.occupies(),
        job.status.occupies(),
    ensures
        running_jobs(jobs.update(at, job)) == running_jobs(jobs) + 1,
    decreases jobs.len(),
{
    let u = jobs.update(at, job);
    if at == jobs.len() - 1 {
        assert(u.drop_last() =~= jobs.drop_last());
    } else {
        running_jobs_update(jobs.drop_last(), at, job);
        assert(u.drop_last() =~= jobs.drop_last().update(at, job));
    }
}

proof fn running_nodes_update(nodes: Seq<NodeOperationView>, at: int, op: NodeOperationView)
    requires
        0 <= at < nodes.len(),
        !nodes[at].status.occupies(),
        op.status.occupies(),
    ensures
        running_nodes(nodes.update(at, op)) == running_nodes(nodes) + 1,
    decreases nodes.len(),
{
    let u = nodes.update(at, op);
    if at == nodes.len() - 1 {
        assert(u.drop_last() =~= nodes.drop_last());
    } else {
        running_nodes_update(nodes.drop_last(), at, op);
        assert(u.drop_last() =~= nodes.drop_last().update(at, op));
    }
}

proof fn start_ready_fills_places(q: QueueView, limit: int, now: Clock)
    ensures
        ({
            let r = q.start_ready(q.running() as int, limit, now);
            &&& q.running() <= r.running()
            &&& q.running() <= limit ==> r.running() <= limit
            &&& q.running() > limit ==> r.running() == q.running()
            &&& r.running() >= limit || !r.has_queued()
        }),
    decreases limit - q.running(),
{
    if q.running() < limit {
        queued_job_facts(q.jobs, 0);
        queued_node_facts(q.custom_nodes, 0);
        if queued_job_at(q.jobs, 0) >= 0 {
            let at = queued_job_at(q.jobs, 0);
            let next = q.start_job(at, now);
            running_jobs_update(q.jobs, at, next.jobs[at]);
            assert(next.jobs =~= q.jobs.update(at, next.jobs[at]));
            assert(next.running() == q.running() + 1);
            start_ready_fills_places(next, limit, now);
        } else if queued_node_at(q.custom_nodes, 0) >= 0 {
            let at = queued_node_at(q.custom_nodes, 0);
            let next = q.start_node(at, now);
            running_nodes_update(q.custom_nodes, at, next.custom_nodes[at]);
            assert(next.custom_nodes =~= q.custom_nodes.update(at, next.custom_nodes[at]));
            assert(next.running() == q.running() + 1);
            start_ready_fills_places(next, limit, now);
        }
    }
}

/// After a round either the places are taken or nothing waits for one; no more is started than
/// there are places; and what runs goes on, also above a limit that was lowered.
pub proof fn queued_jobs_wait_for_places(
    q: QueueView,
    events: Seq<QueueEventView>,
    max_concurrent: usize,
    now: Clock,
)
    ensures
        ({
            let limit: int = if max_concurrent >= 1 {
                max_concurrent as int
            } else {
                1
            };
            let before = q.after_all(events, now).0;
            let r = q.ticked(events, max_concurrent, now);
            &&& r.running() >= limit || !r.has_queued()
            &&& before.running() <= limit ==> r.running() <= limit
            &&& before.running() > limit ==> r.running() == before.running()
        }),
{
    let limit: int = if max_concurrent >= 1 {
        max_concurrent as int
    } else {
        1
    };
    let before = q.after_all(events, now).0;
    start_ready_fills_places(before, limit, now);
}

/// A saved job that was active is paused when it is loaded; nothing runs then.
pub proof fn loaded_jobs_are_not_active(
    saved: Seq<PersistedView>,
    c: CatalogView,
    parallelism: usize,
    chunk_size_bytes: u64,
    token: Option<Text>,
    now: Clock,
)
    ensures
        forall|i: int|
            0 <= i < restored_jobs(saved, c, parallelism, chunk_size_bytes, token, now).len()
                ==> !(#[trigger] restored_jobs(
                saved,
                c,
                parallelism,
                chunk_size_bytes,
                token,
                now,
            )[i]).status.active() && !restored_jobs(
                saved,
                c,
                parallelism,
                chunk_size_bytes,
                token,
                now,
            )[i].running,
    decreases saved.len(),
{
    if saved.len() > 0 {
        loaded_jobs_are_not_active(
            saved.drop_last(),
            c,
            parallelism,
            chunk_size_bytes,
            token,
            now,
        );
    }
}

proof fn found_id(s: Seq<ArtifactView>, id: Text, at: int)
    ensures
        found_from::<Artifact>(s, id, at) matches Some(a) ==> a.id == id,
    decreases s.len() - at,
{
    if 0 <= at < s.len() {
        found_id(s, id, at + 1);
    }
}

/// What a load gives back of a save: every job whose artifact the catalog still has, in order,
/// with its place, progress, endpoint and force, its status kept or paused.
pub proof fn loading_gives_back_what_was_saved(
    jobs: Seq<JobView>,
    c: CatalogView,
    parallelism: usize,
    chunk_size_bytes: u64,
    token: Option<Text>,
    now: Clock,
)
    requires
        forall|i: int|
            0 <= i < jobs.len() ==> found::<Artifact>(
                c.artifacts,
                (#[trigger] jobs[i]).artifact.id,
            ) is Some,
    ensures
        ({
            let saved = jobs.map_values(|j: JobView| j.persisted());
            let back = restored_jobs(saved, c, parallelism, chunk_size_bytes, token, now);
            &&& back.len() == jobs.len()
            &&& forall|i: int|
                0 <= i < jobs.len() ==> (#[trigger] back[i]).persisted() == (PersistedView {
                    status: if jobs[i].status.active() {
                        JobStatus::Paused
                    } else {
                        jobs[i].status
                    },
                    ..jobs[i].persisted()
                })
        }),
    decreases jobs.len(),
{
    let saved = jobs.map_values(|j: JobView| j.persisted());
    let back = restored_jobs(saved, c, parallelism, chunk_size_bytes, token, now);
    if jobs.len() > 0 {
        let front = jobs.drop_last();
        assert forall|i: int| 0 <= i < front.len() implies found::<Artifact>(
            c.artifacts,
            (#[trigger] front[i]).artifact.id,
        ) is Some by {
            assert(jobs[i] == front[i]);
        }
        loading_gives_back_what_was_saved(front, c, parallelism, chunk_size_bytes, token, now);
        assert(saved.drop_last() =~= front.map_values(|j: JobView| j.persisted()));
        let last = jobs.last();
        assert(jobs[jobs.len() - 1] == last);
        found_id(c.artifacts, last.artifact.id, 0);
        let rest = restored_jobs(
            saved.drop_last(),
            c,
            parallelism,
            chunk_size_bytes,
            token,
            now,
        );
        assert forall|i: int| 0 <= i < jobs.len() implies (#[trigger] back[i]).persisted() == (
        PersistedView {
            status: if jobs[i].status.active() {
                JobStatus::Paused
            } else {
                jobs[i].status
            },
            ..jobs[i].persisted()
        }) by {
            if i < rest.len() {
                assert(back[i] == rest[i]);
                assert(front[i] == jobs[i]);
            }
        }
    }
}

/// Closing aborts what runs and pauses it: afterwards no download runs.
pub proof fn nothing_runs_after_closing(q: QueueView, i: int)
    requires
        0 <= i < q.jobs.len(),
    ensures
        !q.closed_down().jobs[i].running,
        q.jobs[i].running ==> q.closed_down().jobs[i].status == JobStatus::Paused,
        !q.jobs[i].running ==> q.closed_down().jobs[i] == q.jobs[i],
        q.closed_down().python_deps matches Some(op) ==> !op.running,
{
}

/// A download that is paused and then continued is queued with what it had, and its task was
/// aborted.
pub proof fn pausing_keeps_progress(q: QueueView, i: int, now: Clock, later: Clock)
    requires
        0 <= i < q.jobs.len(),
        q.jobs[i].status.active(),
    ensures
        ({
            let p = q.paused(i, now);
            let r = p.resumed(i, later);
            &&& p.jobs[i].status == JobStatus::Paused
            &&& !p.jobs[i].running
            &&& r.jobs[i] == (JobView {
                status: JobStatus::Queued,
                error: None,
                speed: no_speed(),
                running: false,
                ..q.jobs[i]
            })
            &&& q.jobs[i].running ==> p.effects[q.effects.len() as int] == EffectView::Abort(
                TaskKeyView::Download(q.jobs[i].artifact.id),
            )
        }),
{
}

/// Only what is paused is continued, and only what failed is tried again; anything else stays as
/// it is.
pub proof fn only_paused_is_continued_and_only_failed_is_retried(q: QueueView, i: int, now: Clock)
    requires
        0 <= i < q.jobs.len(),
    ensures
        q.jobs[i].status != JobStatus::Paused ==> q.resumed(i, now) == q,
        q.jobs[i].status != JobStatus::Failed ==> q.retried(i, now) == q,
        q.jobs[i].status == JobStatus::Paused ==> q.resumed(i, now).jobs[i].status
            == JobStatus::Queued,
        q.jobs[i].status == JobStatus::Failed ==> q.retried(i, now).jobs[i].status
            == JobStatus::Queued,
{
}

/// An index past the end stands for nothing: the controls leave the queue as it is.
pub proof fn stale_indexes_do_nothing(q: QueueView, index: int, now: Clock)
    requires
        index >= q.snapshots().len(),
    ensures
        q.paused(index, now) == q,
        q.resumed(index, now) == q,
        q.retried(index, now) == q,
        q.removed(index, true).0 == q,
        q.removed(index, true).1 is Err,
{
}

/// No two jobs are for the same artifact.
pub open spec fn one_job_each(jobs: Seq<JobView>) -> bool {
    forall|i: int, j: int|
        0 <= i < j < jobs.len() ==> (#[trigger] jobs[i]).artifact.id != (
        #[trigger] jobs[j]).artifact.id
}

proof fn job_at_facts(jobs: Seq<JobView>, id: Text, at: int)
    requires
        0 <= at <= jobs.len(),
    ensures
        job_at(jobs, id, at) >= 0 ==> at <= job_at(jobs, id, at) < jobs.len() && jobs[job_at(
            jobs,
            id,
            at,
        )].artifact.id == id,
        job_at(jobs, id, at) < 0 ==> forall|i: int|
            at <= i < jobs.len() ==> (#[trigger] jobs[i]).artifact.id != id,
    decreases jobs.len() - at,
{
    if at < jobs.len() {
        job_at_facts(jobs, id, at + 1);
    }
}

proof fn queue_artifact_keeps_one(
    q: QueueView,
    root: Text,
    a: ArtifactView,
    options: OptionsView,
    now: Clock,
)
    requires
        one_job_each(q.jobs),
    ensures
        one_job_each(q.queue_artifact(root, a, options, now).jobs),
{
    job_at_facts(q.jobs, a.id, 0);
    let r = q.queue_artifact(root, a, options, now).jobs;
    assert forall|i: int, j: int| 0 <= i < j < r.len() implies (#[trigger] r[i]).artifact.id != (
    #[trigger] r[j]).artifact.id by {
        if j < q.jobs.len() {
            assert(q.jobs[i].artifact.id != q.jobs[j].artifact.id);
        } else {
            assert(q.jobs[i].artifact.id != a.id);
        }
    }
}

/// Queueing an artifact twice gives one job.
pub proof fn artifacts_have_one_job_each(
    q: QueueView,
    root: Text,
    artifacts: Seq<ArtifactView>,
    options: OptionsView,
    now: Clock,
)
    requires
        one_job_each(q.jobs),
    ensures
        one_job_each(q.enqueued(root, artifacts, options, now).0.jobs),
{
    queue_artifacts_keep_one(q, root, artifacts, options, now);
}

proof fn queue_artifacts_keep_one(
    q: QueueView,
    root: Text,
    artifacts: Seq<ArtifactView>,
    options: OptionsView,
    now: Clock,
)
    requires
        one_job_each(q.jobs),
    ensures
        one_job_each(q.queue_artifacts(root, artifacts, options, now).0.jobs),
    decreases artifacts.len(),
{
    if artifacts.len() > 0 {
        queue_artifacts_keep_one(q, root, artifacts.drop_last(), options, now);
        queue_artifact_keeps_one(
            q.queue_artifacts(root, artifacts.drop_last(), options, now).0,
            root,
            artifacts.last(),
            options,
            now,
        );
    }
}

/// An artifact that is queued or downloading stays as it is when it is queued again.
pub proof fn active_jobs_are_left_alone(
    q: QueueView,
    root: Text,
    a: ArtifactView,
    options: OptionsView,
    now: Clock,
)
    requires
        has_active_job(q.jobs, a.id),
    ensures
        q.queue_artifact(root, a, options, now).jobs == q.jobs,
{
}

/// No job of a forgotten artifact is left, and every other job is.
pub proof fn forgotten_jobs_are_gone(jobs: Seq<JobView>, ids: Set<Text>, job: JobView)
    ensures
        kept_jobs(jobs, ids).contains(job) <==> jobs.contains(job) && !ids.contains(
            job.artifact.id,
        ),
    decreases jobs.len(),
{
    let kept = kept_jobs(jobs, ids);
    if jobs.len() > 0 {
        let front = jobs.drop_last();
        forgotten_jobs_are_gone(front, ids, job);
        let rest = kept_jobs(front, ids);
        assert(jobs[jobs.len() - 1] == jobs.last());
        if jobs.contains(job) {
            let k = choose|k: int| 0 <= k < jobs.len() && jobs[k] == job;
            if k < front.len() {
                assert(front[k] == job);
            }
        }
        if front.contains(job) {
            let k = choose|k: int| 0 <= k < front.len() && front[k] == job;
            assert(jobs[k] == job);
        }
        if !ids.contains(jobs.last().artifact.id) {
            assert(kept[rest.len() as int] == jobs.last());
            if rest.contains(job) {
                let k = choose|k: int| 0 <= k < rest.len() && rest[k] == job;
                assert(kept[k] == job);
            }
            if kept.contains(job) {
                let k = choose|k: int| 0 <= k < kept.len() && kept[k] == job;
                if k < rest.len() {
                    assert(rest[k] == job);
                }
            }
        }
    }
}

/// Removing a download takes out its record alone, and aborts its task where one runs.
pub proof fn removal_takes_out_one_record(q: QueueView, i: int, delete_temp: bool)
    requires
        0 <= i < q.jobs.len(),
    ensures
        ({
            let (r, left) = q.removed(i, delete_temp);
            &&& r.jobs == q.jobs.remove(i)
            &&& r.custom_nodes == q.custom_nodes
            &&& left matches Ok(x) && (x.temp_dir is Some <==> delete_temp)
            &&& r.effects == if q.jobs[i].running {
                q.effects.push(
                    EffectView::Abort(TaskKeyView::Download(q.jobs[i].artifact.id)),
                )
            } else {
                q.effects
            }
        }),
{
}

/// System packages under installation can be neither paused nor removed.
pub proof fn system_packages_run_to_their_end(q: QueueView, index: int, now: Clock)
    requires
        q.slot(index) is SystemDeps,
        q.system_deps->0.status.active(),
    ensures
        q.paused(index, now).system_deps == q.system_deps,
        q.removed(index, false).1 is Err,
        q.removed(index, false).0 == q,
{
}

}
