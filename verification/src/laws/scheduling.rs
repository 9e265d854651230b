//! Laws of what the download manager starts, in what order and with what, and of what its events,
//! controls and saves do.
use crate::catalog::{ArtifactView, NodeView};
use crate::download::OptionsView;
use crate::jobs::{
    has_active_job, has_active_node, job_at, node_at, queued_job_at, queued_node_at, running_jobs,
    running_nodes, Clock, EffectView, JobStatus, JobView, NodeOperationView, QueueEventView,
    QueueView,
};
use crate::laws::queue::one_job_each;
use crate::text::Text;
use vstd::prelude::*;
use vstd::string::*;

verus! {

/// A task works on something with this status.
pub open spec fn busy(s: JobStatus) -> bool {
    s == JobStatus::Resolving || s == JobStatus::Downloading || s == JobStatus::Processing || s
        == JobStatus::Installing
}

/// How many of the downloads are busy.
pub open spec fn busy_jobs(jobs: Seq<JobView>) -> nat
    decreases jobs.len(),
{
    if jobs.len() == 0 {
        0
    } else {
        busy_jobs(jobs.drop_last()) + if busy(jobs.last().status) {
            1nat
        } else {
            0nat
        }
    }
}

/// How many of the installations of custom nodes are busy.
pub open spec fn busy_nodes(nodes: Seq<NodeOperationView>) -> nat
    decreases nodes.len(),
{
    if nodes.len() == 0 {
        0
    } else {
        busy_nodes(nodes.drop_last()) + if busy(nodes.last().status) {
            1nat
        } else {
            0nat
        }
    }
}

/// The downloads that wait, in order.
pub open spec fn waiting(jobs: Seq<JobView>) -> Seq<JobView>
    decreases jobs.len(),
{
    if jobs.len() == 0 {
        Seq::empty()
    } else if jobs.last().status == JobStatus::Queued {
        waiting(jobs.drop_last()).push(jobs.last())
    } else {
        waiting(jobs.drop_last())
    }
}

/// The custom nodes that wait, in order.
pub open spec fn waiting_nodes(nodes: Seq<NodeOperationView>) -> Seq<NodeOperationView>
    decreases nodes.len(),
{
    if nodes.len() == 0 {
        Seq::empty()
    } else if nodes.last().status == JobStatus::Queued {
        waiting_nodes(nodes.drop_last()).push(nodes.last())
    } else {
        waiting_nodes(nodes.drop_last())
    }
}

/// Those of the effects that start downloads, in order.
pub open spec fn starts(effects: Seq<EffectView>) -> Seq<EffectView>
    decreases effects.len(),
{
    if effects.len() == 0 {
        Seq::empty()
    } else if effects.last() is StartDownload {
        starts(effects.drop_last()).push(effects.last())
    } else {
        starts(effects.drop_last())
    }
}

/// Those of the effects that start the installation of custom nodes, in order.
pub open spec fn node_starts(effects: Seq<EffectView>) -> Seq<EffectView>
    decreases effects.len(),
{
    if effects.len() == 0 {
        Seq::empty()
    } else if effects.last() is StartCustomNode {
        node_starts(effects.drop_last()).push(effects.last())
    } else {
        node_starts(effects.drop_last())
    }
}

/// The start of a download with what it was queued with.
pub open spec fn start_of(job: JobView) -> EffectView {
    EffectView::StartDownload { artifact: job.artifact, root: job.root, options: job.options }
}

/// The start of the installation of a custom node with what it was queued with.
pub open spec fn node_start_of(op: NodeOperationView) -> EffectView {
    EffectView::StartCustomNode { node: op.node, root: op.root }
}

/// `n`, but at least 0 and at most `most`.
pub open spec fn within(n: int, most: nat) -> int {
    if n < 0 {
        0
    } else if n > most {
        most as int
    } else {
        n
    }
}

proof fn busy_is_running(q: QueueView)
    ensures
        busy_jobs(q.jobs) == running_jobs(q.jobs),
        busy_nodes(q.custom_nodes) == running_nodes(q.custom_nodes),
{
    busy_jobs_run(q.jobs);
    busy_nodes_run(q.custom_nodes);
}

proof fn busy_jobs_run(jobs: Seq<JobView>)
    ensures
        busy_jobs(jobs) == running_jobs(jobs),
    decreases jobs.len(),
{
    if jobs.len() > 0 {
        busy_jobs_run(jobs.drop_last());
    }
}

proof fn busy_nodes_run(nodes: Seq<NodeOperationView>)
    ensures
        busy_nodes(nodes) == running_nodes(nodes),
    decreases nodes.len(),
{
    if nodes.len() > 0 {
        busy_nodes_run(nodes.drop_last());
    }
}

proof fn starts_concat(a: Seq<EffectView>, b: Seq<EffectView>)
    ensures
        starts(a + b) == starts(a) + starts(b),
        node_starts(a + b) == node_starts(a) + node_starts(b),
    decreases b.len(),
{
    if b.len() == 0 {
        assert(a + b =~= a);
        assert(starts(a) + starts(b) =~= starts(a));
        assert(node_starts(a) + node_starts(b) =~= node_starts(a));
    } else {
        starts_concat(a, b.drop_last());
        assert((a + b).drop_last() =~= a + b.drop_last());
        assert((a + b).last() == b.last());
        assert(starts(a + b) =~= starts(a) + starts(b));
        assert(node_starts(a + b) =~= node_starts(a) + node_starts(b));
    }
}

proof fn first_queued(jobs: Seq<JobView>, at: int)
    requires
        0 <= at <= jobs.len(),
    ensures
        queued_job_at(jobs, at) < 0 ==> forall|i: int|
            at <= i < jobs.len() ==> (#[trigger] jobs[i]).status != JobStatus::Queued,
        queued_job_at(jobs, at) >= 0 ==> at <= queued_job_at(jobs, at) < jobs.len()
            && jobs[queued_job_at(jobs, at)].status == JobStatus::Queued && forall|i: int|
            at <= i < queued_job_at(jobs, at) ==> (#[trigger] jobs[i]).status != JobStatus::Queued,
    decreases jobs.len() - at,
{
    if at < jobs.len() {
        first_queued(jobs, at + 1);
    }
}

proof fn first_queued_node(nodes: Seq<NodeOperationView>, at: int)
    requires
        0 <= at <= nodes.len(),
    ensures
        queued_node_at(nodes, at) < 0 ==> forall|i: int|
            at <= i < nodes.len() ==> (#[trigger] nodes[i]).status != JobStatus::Queued,
        queued_node_at(nodes, at) >= 0 ==> at <= queued_node_at(nodes, at) < nodes.len()
            && nodes[queued_node_at(nodes, at)].status == JobStatus::Queued && forall|i: int|
            at <= i < queued_node_at(nodes, at) ==> (#[trigger] nodes[i]).status
                != JobStatus::Queued,
    decreases nodes.len() - at,
{
    if at < nodes.len() {
        first_queued_node(nodes, at + 1);
    }
}

proof fn none_waits(jobs: Seq<JobView>)
    requires
        forall|i: int| 0 <= i < jobs.len() ==> (#[trigger] jobs[i]).status != JobStatus::Queued,
    ensures
        waiting(jobs).len() == 0,
    decreases jobs.len(),
{
    if jobs.len() > 0 {
        assert(jobs[jobs.len() - 1] == jobs.last());
        assert forall|i: int| 0 <= i < jobs.drop_last().len() implies (
        #[trigger] jobs.drop_last()[i]).status != JobStatus::Queued by {
            assert(jobs[i].status != JobStatus::Queued);
        }
        none_waits(jobs.drop_last());
    }
}

proof fn no_node_waits(nodes: Seq<NodeOperationView>)
    requires
        forall|i: int| 0 <= i < nodes.len() ==> (#[trigger] nodes[i]).status != JobStatus::Queued,
    ensures
        waiting_nodes(nodes).len() == 0,
    decreases nodes.len(),
{
    if nodes.len() > 0 {
        assert(nodes[nodes.len() - 1] == nodes.last());
        assert forall|i: int| 0 <= i < nodes.drop_last().len() implies (
        #[trigger] nodes.drop_last()[i]).status != JobStatus::Queued by {
            assert(nodes[i].status != JobStatus::Queued);
        }
        no_node_waits(nodes.drop_last());
    }
}

proof fn first_leaves(jobs: Seq<JobView>, i: int, job: JobView)
    requires
        0 <= i < jobs.len(),
        jobs[i].status == JobStatus::Queued,
        job.status != JobStatus::Queued,
        forall|k: int| 0 <= k < i ==> (#[trigger] jobs[k]).status != JobStatus::Queued,
    ensures
        waiting(jobs).len() > 0,
        waiting(jobs)[0] == jobs[i],
        waiting(jobs.update(i, job)) == waiting(jobs).skip(1),
    decreases jobs.len(),
{
    let front = jobs.drop_last();
    if i == jobs.len() - 1 {
        assert forall|k: int| 0 <= k < front.len() implies (#[trigger] front[k]).status
            != JobStatus::Queued by {
            assert(jobs[k].status != JobStatus::Queued);
        }
        none_waits(front);
        assert(jobs.update(i, job).drop_last() =~= front);
        assert(waiting(jobs) =~= seq![jobs[i]]);
        assert(waiting(jobs.update(i, job)) =~= waiting(jobs).skip(1));
    } else {
        assert forall|k: int| 0 <= k < i implies (#[trigger] front[k]).status
            != JobStatus::Queued by {
            assert(jobs[k].status != JobStatus::Queued);
        }
        first_leaves(front, i, job);
        assert(jobs.update(i, job).drop_last() =~= front.update(i, job));
        assert(waiting(jobs.update(i, job)) =~= waiting(jobs).skip(1));
    }
}

proof fn first_node_leaves(nodes: Seq<NodeOperationView>, i: int, op: NodeOperationView)
    requires
        0 <= i < nodes.len(),
        nodes[i].status == JobStatus::Queued,
        op.status != JobStatus::Queued,
        forall|k: int| 0 <= k < i ==> (#[trigger] nodes[k]).status != JobStatus::Queued,
    ensures
        waiting_nodes(nodes).len() > 0,
        waiting_nodes(nodes)[0] == nodes[i],
        waiting_nodes(nodes.update(i, op)) == waiting_nodes(nodes).skip(1),
    decreases nodes.len(),
{
    let front = nodes.drop_last();
    if i == nodes.len() - 1 {
        assert forall|k: int| 0 <= k < front.len() implies (#[trigger] front[k]).status
            != JobStatus::Queued by {
            assert(nodes[k].status != JobStatus::Queued);
        }
        no_node_waits(front);
        assert(nodes.update(i, op).drop_last() =~= front);
        assert(waiting_nodes(nodes) =~= seq![nodes[i]]);
        assert(waiting_nodes(nodes.update(i, op)) =~= waiting_nodes(nodes).skip(1));
    } else {
        assert forall|k: int| 0 <= k < i implies (#[trigger] front[k]).status
            != JobStatus::Queued by {
            assert(nodes[k].status != JobStatus::Queued);
        }
        first_node_leaves(front, i, op);
        assert(nodes.update(i, op).drop_last() =~= front.update(i, op));
        assert(waiting_nodes(nodes.update(i, op)) =~= waiting_nodes(nodes).skip(1));
    }
}

/// What a round makes of a download: nothing, or a start with all that it was queued with.
pub open spec fn at_most_started(before: JobView, after: JobView) -> bool {
    after == before || before.status == JobStatus::Queued && after.status == JobStatus::Resolving
        && after.running && after.error is None && after.artifact == before.artifact && after.root
        == before.root && after.options == before.options && after.downloaded_bytes
        == before.downloaded_bytes && after.total_bytes == before.total_bytes
}

/// What a round makes of a custom node: nothing, or a start with all that it was queued with.
pub open spec fn node_at_most_started(before: NodeOperationView, after: NodeOperationView) -> bool {
    after == before || before.status == JobStatus::Queued && after == (NodeOperationView {
        status: JobStatus::Installing,
        error: None,
        running: true,
        ..before
    })
}

/// `r` is `q` after the first `k` waiting downloads and then the first `m` waiting custom nodes were
/// started, and nothing else.
pub open spec fn started_first(q: QueueView, r: QueueView, k: int, m: int) -> bool {
    let added = r.effects.skip(q.effects.len() as int);
    &&& r.effects.len() >= q.effects.len()
    &&& r.effects.take(q.effects.len() as int) == q.effects
    &&& starts(added) == waiting(q.jobs).take(k).map_values(|j: JobView| start_of(j))
    &&& node_starts(added) == waiting_nodes(q.custom_nodes).take(m).map_values(
        |n: NodeOperationView| node_start_of(n),
    )
    &&& waiting(r.jobs) == waiting(q.jobs).skip(k)
    &&& waiting_nodes(r.custom_nodes) == waiting_nodes(q.custom_nodes).skip(m)
    &&& r.jobs.len() == q.jobs.len()
    &&& r.custom_nodes.len() == q.custom_nodes.len()
    &&& forall|i: int| 0 <= i < q.jobs.len() ==> at_most_started(q.jobs[i], #[trigger] r.jobs[i])
    &&& forall|i: int|
        0 <= i < q.custom_nodes.len() ==> node_at_most_started(
            q.custom_nodes[i],
            #[trigger] r.custom_nodes[i],
        )
}

proof fn ready_ones_start(q: QueueView, taken: int, limit: int, now: Clock)
    ensures
        ({
            let k = within(limit - taken, waiting(q.jobs).len());
            let m = within(limit - taken - k, waiting_nodes(q.custom_nodes).len());
            started_first(q, q.start_ready(taken, limit, now), k, m)
        }),
    decreases limit - taken,
{
    let r = q.start_ready(taken, limit, now);
    let k = within(limit - taken, waiting(q.jobs).len());
    let m = within(limit - taken - k, waiting_nodes(q.custom_nodes).len());
    let n = q.effects.len() as int;
    first_queued(q.jobs, 0);
    first_queued_node(q.custom_nodes, 0);
    let at = queued_job_at(q.jobs, 0);
    let node = queued_node_at(q.custom_nodes, 0);
    let w = waiting(q.jobs);
    let v = waiting_nodes(q.custom_nodes);
    if taken < limit && at >= 0 {
        let q1 = q.start_job(at, now);
        let job = q1.jobs[at];
        first_leaves(q.jobs, at, job);
        assert(q1.jobs =~= q.jobs.update(at, job));
        ready_ones_start(q1, taken + 1, limit, now);
        let w1 = waiting(q1.jobs);
        let k1 = within(limit - taken - 1, w1.len());
        assert(k1 == k - 1);
        let log = q1.effects[n];
        let first = seq![log, start_of(q.jobs[at])];
        assert(q1.effects =~= q.effects + first);
        let rest = r.effects.skip(q1.effects.len() as int);
        assert(r.effects.take(n) =~= r.effects.take(q1.effects.len() as int).take(n));
        assert(q1.effects.take(n) =~= q.effects);
        assert(r.effects.skip(n) =~= first + rest) by {
            assert(r.effects.take(q1.effects.len() as int) == q1.effects);
            assert forall|i: int| 0 <= i < r.effects.skip(n).len() implies r.effects.skip(n)[i]
                == (first + rest)[i] by {
                if i < 2 {
                    assert(r.effects.take(q1.effects.len() as int)[n + i] == q1.effects[n + i]);
                }
            }
        }
        starts_concat(first, rest);
        assert(first.drop_last() =~= seq![log]);
        assert(seq![log].drop_last() =~= Seq::<EffectView>::empty());
        assert(starts(first) =~= seq![start_of(q.jobs[at])]) by {
            reveal_with_fuel(starts, 3);
        }
        assert(node_starts(first) =~= Seq::<EffectView>::empty()) by {
            reveal_with_fuel(node_starts, 3);
        }
        assert(starts(r.effects.skip(n)) =~= w.take(k).map_values(|j: JobView| start_of(j))) by {
            assert(w1 == w.skip(1));
            assert(w.take(k)[0] == q.jobs[at]);
            let want = w.take(k).map_values(|j: JobView| start_of(j));
            let tail = w1.take(k1).map_values(|j: JobView| start_of(j));
            assert(want =~= seq![start_of(q.jobs[at])] + tail);
        }
        assert(node_starts(r.effects.skip(n)) =~= node_starts(rest));
        assert(waiting(r.jobs) =~= w.skip(k));
        assert forall|i: int| 0 <= i < q.jobs.len() implies at_most_started(
            q.jobs[i],
            #[trigger] r.jobs[i],
        ) by {
            assert(at_most_started(q1.jobs[i], r.jobs[i]));
            if i == at {
                assert(at_most_started(q.jobs[i], q1.jobs[i]));
            }
        }
    } else if taken < limit && node >= 0 {
        none_waits(q.jobs);
        let q1 = q.start_node(node, now);
        let op = q1.custom_nodes[node];
        first_node_leaves(q.custom_nodes, node, op);
        assert(q1.custom_nodes =~= q.custom_nodes.update(node, op));
        ready_ones_start(q1, taken + 1, limit, now);
        let v1 = waiting_nodes(q1.custom_nodes);
        let m1 = within(limit - taken - 1, v1.len());
        assert(m1 == m - 1);
        let log = q1.effects[n];
        let first = seq![log, node_start_of(q.custom_nodes[node])];
        assert(q1.effects =~= q.effects + first);
        let rest = r.effects.skip(q1.effects.len() as int);
        assert(r.effects.take(n) =~= r.effects.take(q1.effects.len() as int).take(n));
        assert(q1.effects.take(n) =~= q.effects);
        assert(r.effects.skip(n) =~= first + rest) by {
            assert(r.effects.take(q1.effects.len() as int) == q1.effects);
            assert forall|i: int| 0 <= i < r.effects.skip(n).len() implies r.effects.skip(n)[i]
                == (first + rest)[i] by {
                if i < 2 {
                    assert(r.effects.take(q1.effects.len() as int)[n + i] == q1.effects[n + i]);
                }
            }
        }
        starts_concat(first, rest);
        assert(first.drop_last() =~= seq![log]);
        assert(seq![log].drop_last() =~= Seq::<EffectView>::empty());
        assert(starts(first) =~= Seq::<EffectView>::empty()) by {
            reveal_with_fuel(starts, 3);
        }
        assert(node_starts(first) =~= seq![node_start_of(q.custom_nodes[node])]) by {
            reveal_with_fuel(node_starts, 3);
        }
        assert(starts(r.effects.skip(n)) =~= w.take(k).map_values(|j: JobView| start_of(j)));
        assert(node_starts(r.effects.skip(n)) =~= v.take(m).map_values(
            |x: NodeOperationView| node_start_of(x),
        )) by {
            assert(v.take(m)[0] == q.custom_nodes[node]);
            let want = v.take(m).map_values(|x: NodeOperationView| node_start_of(x));
            let tail = v1.take(m1).map_values(|x: NodeOperationView| node_start_of(x));
            assert(want =~= seq![node_start_of(q.custom_nodes[node])] + tail);
        }
        assert(waiting(r.jobs) =~= w.skip(k));
        assert(waiting_nodes(r.custom_nodes) =~= v.skip(m));
        assert forall|i: int| 0 <= i < q.custom_nodes.len() implies node_at_most_started(
            q.custom_nodes[i],
            #[trigger] r.custom_nodes[i],
        ) by {
            assert(node_at_most_started(q1.custom_nodes[i], r.custom_nodes[i]));
            if i == node {
                assert(node_at_most_started(q.custom_nodes[i], q1.custom_nodes[i]));
            }
        }
    } else {
        if at < 0 {
            none_waits(q.jobs);
        }
        if node < 0 {
            no_node_waits(q.custom_nodes);
        }
        assert(r == q);
        assert(r.effects.skip(n) =~= Seq::<EffectView>::empty());
        assert(r.effects.take(n) =~= q.effects);
        assert(k == 0);
        assert(m == 0);
        assert(w.take(0).map_values(|j: JobView| start_of(j)) =~= Seq::<EffectView>::empty());
        assert(v.take(0).map_values(|x: NodeOperationView| node_start_of(x)) =~= Seq::<
            EffectView,
        >::empty());
        assert(w.skip(0) =~= w);
        assert(v.skip(0) =~= v);
    }
}

/// A round fills the free places: the downloads that wait come first, in order, then the custom
/// nodes. Each is started once, with the artifact, the root and all the options it was queued with;
/// whatever else there is stays as it is. With a limit of none there is still one place.
pub proof fn rounds_start_what_waits(
    q: QueueView,
    events: Seq<QueueEventView>,
    max_concurrent: usize,
    now: Clock,
)
    ensures
        ({
            let before = q.after_all(events, now).0;
            let limit: int = if max_concurrent == 0 {
                1
            } else {
                max_concurrent as int
            };
            let free = limit - busy_jobs(before.jobs) - busy_nodes(before.custom_nodes);
            let k = within(free, waiting(before.jobs).len());
            let m = within(free - k, waiting_nodes(before.custom_nodes).len());
            started_first(before, q.ticked(events, max_concurrent, now), k, m)
        }),
{
    let before = q.after_all(events, now).0;
    let limit: int = if max_concurrent == 0 {
        1
    } else {
        max_concurrent as int
    };
    busy_is_running(before);
    let taken = before.running() as int;
    ready_ones_start(before, taken, limit, now);
    let a = before.start_ready(taken, limit, now);
    let r = q.ticked(events, max_concurrent, now);
    let n = before.effects.len() as int;
    let na = a.effects.len() as int;
    let more = r.effects.skip(na);
    later_effects_start_nothing(a, r, q, events, max_concurrent, now);
    assert(r.effects.skip(n) =~= a.effects.skip(n) + more);
    starts_concat(a.effects.skip(n), more);
    assert(starts(r.effects.skip(n)) =~= starts(a.effects.skip(n)));
    assert(node_starts(r.effects.skip(n)) =~= node_starts(a.effects.skip(n)));
    assert(r.effects.take(n) =~= a.effects.take(n));
}

proof fn later_effects_start_nothing(
    a: QueueView,
    r: QueueView,
    q: QueueView,
    events: Seq<QueueEventView>,
    max_concurrent: usize,
    now: Clock,
)
    requires
        r == q.ticked(events, max_concurrent, now),
        ({
            let before = q.after_all(events, now).0;
            let limit: int = if max_concurrent == 0 {
                1
            } else {
                max_concurrent as int
            };
            a == before.start_ready(before.running() as int, limit, now)
        }),
    ensures
        r.jobs == a.jobs,
        r.custom_nodes == a.custom_nodes,
        r.effects.len() >= a.effects.len(),
        r.effects.take(a.effects.len() as int) == a.effects,
        starts(r.effects.skip(a.effects.len() as int)).len() == 0,
        node_starts(r.effects.skip(a.effects.len() as int)).len() == 0,
{
    let na = a.effects.len() as int;
    let b = a.start_python(now);
    let c = b.start_system(now);
    let more = r.effects.skip(na);
    assert(b.effects.take(na) =~= a.effects);
    assert(c.effects.take(na) =~= a.effects);
    assert(r.effects.take(na) =~= a.effects);
    assert forall|i: int| 0 <= i < more.len() implies !((#[trigger] more[i]) is StartDownload)
        && !(more[i] is StartCustomNode) by {
        let e = r.effects[na + i];
        if na + i < b.effects.len() {
            assert(e == b.effects[na + i]);
        } else if na + i < c.effects.len() {
            assert(e == c.effects[na + i]);
        }
    }
    no_starts(more);
}

proof fn no_starts(effects: Seq<EffectView>)
    requires
        forall|i: int|
            0 <= i < effects.len() ==> !((#[trigger] effects[i]) is StartDownload) && !(
            effects[i] is StartCustomNode),
    ensures
        starts(effects).len() == 0,
        node_starts(effects).len() == 0,
    decreases effects.len(),
{
    if effects.len() > 0 {
        assert(!(effects[effects.len() - 1] is StartDownload));
        assert forall|i: int| 0 <= i < effects.drop_last().len() implies !((
        #[trigger] effects.drop_last()[i]) is StartDownload) && !(
        effects.drop_last()[i] is StartCustomNode) by {
            assert(effects.drop_last()[i] == effects[i]);
        }
        no_starts(effects.drop_last());
    }
}

/// Nothing works on the artifact, and nothing is to: every download of it is paused or over.
pub open spec fn at_rest(jobs: Seq<JobView>, id: Text) -> bool {
    forall|i: int|
        0 <= i < jobs.len() && (#[trigger] jobs[i]).artifact.id == id ==> jobs[i].status
            == JobStatus::Paused || jobs[i].status == JobStatus::Failed || jobs[i].status
            == JobStatus::Completed
}

proof fn rest_is_not_active(jobs: Seq<JobView>, id: Text)
    ensures
        at_rest(jobs, id) <==> !has_active_job(jobs, id),
{
    if !at_rest(jobs, id) {
        let i = choose|i: int|
            0 <= i < jobs.len() && (#[trigger] jobs[i]).artifact.id == id && !(jobs[i].status
                == JobStatus::Paused || jobs[i].status == JobStatus::Failed || jobs[i].status
                == JobStatus::Completed);
        assert(jobs[i].status.active());
    }
}

proof fn found_job(jobs: Seq<JobView>, id: Text, at: int)
    requires
        0 <= at <= jobs.len(),
    ensures
        job_at(jobs, id, at) >= 0 ==> at <= job_at(jobs, id, at) < jobs.len() && jobs[job_at(
            jobs,
            id,
            at,
        )].artifact.id == id,
        job_at(jobs, id, at) < 0 ==> forall|i: int|
            at <= i < jobs.len() ==> (#[trigger] jobs[i]).artifact.id != id,
    decreases jobs.len() - at,
{
    if at < jobs.len() {
        found_job(jobs, id, at + 1);
    }
}

proof fn found_node(nodes: Seq<NodeOperationView>, id: Text, at: int)
    requires
        0 <= at <= nodes.len(),
    ensures
        node_at(nodes, id, at) >= 0 ==> at <= node_at(nodes, id, at) < nodes.len()
            && nodes[node_at(nodes, id, at)].node.id == id,
        node_at(nodes, id, at) < 0 ==> forall|i: int|
            at <= i < nodes.len() ==> (#[trigger] nodes[i]).node.id != id,
    decreases nodes.len() - at,
{
    if at < nodes.len() {
        found_node(nodes, id, at + 1);
    }
}

/// The download at `i` waits with what was asked for.
pub open spec fn waits_with(job: JobView, id: Text, root: Text, options: OptionsView) -> bool {
    job.artifact.id == id && job.status == JobStatus::Queued && job.root == root && job.options
        == options && job.error is None && !job.running
}

/// An artifact that nothing works on waits, once it is queued, with the root and the options that
/// were asked for. One that was not known comes last, with nothing downloaded; one that was keeps
/// its place and its progress. No other download changes.
pub proof fn downloads_are_queued_as_asked(
    q: QueueView,
    root: Text,
    a: ArtifactView,
    options: OptionsView,
    now: Clock,
)
    requires
        at_rest(q.jobs, a.id),
    ensures
        ({
            let (r, n) = q.enqueued(root, seq![a], options, now);
            &&& n == 1
            &&& (forall|i: int| 0 <= i < q.jobs.len() ==> (#[trigger] q.jobs[i]).artifact.id != a.id)
                ==> r.jobs.len() == q.jobs.len() + 1 && waits_with(
                r.jobs.last(),
                a.id,
                root,
                options,
            ) && r.jobs.last().artifact == a && r.jobs.last().downloaded_bytes == 0
                && r.jobs.last().total_bytes == a.size_bytes && r.jobs.drop_last() == q.jobs
            &&& (exists|i: int| 0 <= i < q.jobs.len() && (#[trigger] q.jobs[i]).artifact.id == a.id)
                ==> exists|i: int|
                0 <= i < q.jobs.len() && waits_with(#[trigger] r.jobs[i], a.id, root, options)
                    && r.jobs[i].artifact == q.jobs[i].artifact && r.jobs[i].downloaded_bytes
                    == q.jobs[i].downloaded_bytes && r.jobs[i].total_bytes
                    == q.jobs[i].total_bytes && r.jobs == q.jobs.update(i, r.jobs[i])
        }),
{
    rest_is_not_active(q.jobs, a.id);
    found_job(q.jobs, a.id, 0);
    let one = seq![a];
    assert(one.drop_last() =~= Seq::<ArtifactView>::empty());
    assert(one.last() == a);
    reveal_with_fuel(QueueView::queue_artifacts, 2);
    let r = q.enqueued(root, one, options, now).0;
    let at = job_at(q.jobs, a.id, 0);
    if at >= 0 {
        assert(waits_with(r.jobs[at], a.id, root, options));
        assert(r.jobs =~= q.jobs.update(at, r.jobs[at]));
    } else {
        assert(r.jobs.drop_last() =~= q.jobs);
    }
}

proof fn queueing_keeps_active(
    q: QueueView,
    root: Text,
    a: ArtifactView,
    options: OptionsView,
    now: Clock,
    id: Text,
)
    requires
        has_active_job(q.jobs, id) || id == a.id,
    ensures
        has_active_job(q.queue_artifact(root, a, options, now).jobs, id),
{
    let r = q.queue_artifact(root, a, options, now);
    found_job(q.jobs, a.id, 0);
    let at = job_at(q.jobs, a.id, 0);
    if has_active_job(q.jobs, id) {
        let i = choose|i: int|
            0 <= i < q.jobs.len() && (#[trigger] q.jobs[i]).artifact.id == id
                && q.jobs[i].status.active();
        if !has_active_job(q.jobs, a.id) && at == i {
            assert(false);
        }
        assert(r.jobs[i] == q.jobs[i]);
    } else if at >= 0 {
        assert(r.jobs[at].artifact.id == id);
    } else {
        assert(r.jobs[q.jobs.len() as int].artifact.id == id);
    }
}

/// Of artifacts that are queued together, none is left out: each waits or is worked on then.
pub proof fn every_artifact_is_queued(
    q: QueueView,
    root: Text,
    artifacts: Seq<ArtifactView>,
    options: OptionsView,
    now: Clock,
    k: int,
)
    requires
        0 <= k < artifacts.len(),
    ensures
        !at_rest(q.enqueued(root, artifacts, options, now).0.jobs, artifacts[k].id),
    decreases artifacts.len(),
{
    every_artifact_is_active(q, root, artifacts, options, now, k);
    rest_is_not_active(q.enqueued(root, artifacts, options, now).0.jobs, artifacts[k].id);
}

proof fn every_artifact_is_active(
    q: QueueView,
    root: Text,
    artifacts: Seq<ArtifactView>,
    options: OptionsView,
    now: Clock,
    k: int,
)
    requires
        0 <= k < artifacts.len(),
    ensures
        has_active_job(q.queue_artifacts(root, artifacts, options, now).0.jobs, artifacts[k].id),
    decreases artifacts.len(),
{
    let front = artifacts.drop_last();
    let q1 = q.queue_artifacts(root, front, options, now).0;
    if k < front.len() {
        every_artifact_is_active(q, root, front, options, now, k);
    }
    queueing_keeps_active(q1, root, artifacts.last(), options, now, artifacts[k].id);
}

/// A custom node that nothing works on waits, once it is queued, with the root that was asked for.
pub proof fn custom_nodes_are_queued_as_asked(q: QueueView, root: Text, node: NodeView, now: Clock)
    requires
        forall|i: int|
            0 <= i < q.custom_nodes.len() && (#[trigger] q.custom_nodes[i]).node.id == node.id
                ==> q.custom_nodes[i].status == JobStatus::Paused || q.custom_nodes[i].status
                == JobStatus::Failed || q.custom_nodes[i].status == JobStatus::Completed,
    ensures
        ({
            let r = q.queue_nodes(root, seq![node], now);
            exists|i: int|
                0 <= i < r.custom_nodes.len() && (#[trigger] r.custom_nodes[i]) == (
                NodeOperationView {
                    node,
                    root,
                    status: JobStatus::Queued,
                    error: None,
                    running: false,
                }) && (i < q.custom_nodes.len() ==> q.custom_nodes[i].node.id == node.id
                    && r.custom_nodes == q.custom_nodes.update(i, r.custom_nodes[i])) && (i
                    >= q.custom_nodes.len() ==> r.custom_nodes == q.custom_nodes.push(
                    r.custom_nodes[i],
                ))
        }),
{
    let one = seq![node];
    assert(one.drop_last() =~= Seq::<NodeView>::empty());
    reveal_with_fuel(QueueView::queue_nodes, 2);
    let r = q.queue_nodes(root, one, now);
    found_node(q.custom_nodes, node.id, 0);
    let at = node_at(q.custom_nodes, node.id, 0);
    assert(!has_active_node(q.custom_nodes, node.id));
    if at >= 0 {
        assert(r.custom_nodes =~= q.custom_nodes.update(at, r.custom_nodes[at]));
    } else {
        let i = q.custom_nodes.len() as int;
        assert(r.custom_nodes =~= q.custom_nodes.push(r.custom_nodes[i]));
    }
}

proof fn waiting_comes_from(jobs: Seq<JobView>, k: int) -> (i: int)
    requires
        0 <= k < waiting(jobs).len(),
    ensures
        0 <= i < jobs.len(),
        waiting(jobs)[k] == jobs[i],
        i >= k,
    decreases jobs.len(),
{
    let front = jobs.drop_last();
    if k < waiting(front).len() {
        let i = waiting_comes_from(front, k);
        assert(front[i] == jobs[i]);
        i
    } else {
        waiting_is_shorter(front);
        jobs.len() - 1
    }
}

proof fn waiting_is_shorter(jobs: Seq<JobView>)
    ensures
        waiting(jobs).len() <= jobs.len(),
    decreases jobs.len(),
{
    if jobs.len() > 0 {
        waiting_is_shorter(jobs.drop_last());
    }
}

proof fn waiting_in_order(jobs: Seq<JobView>, a: int, b: int) -> (r: (int, int))
    requires
        0 <= a < b < waiting(jobs).len(),
    ensures
        0 <= r.0 < r.1 < jobs.len(),
        waiting(jobs)[a] == jobs[r.0],
        waiting(jobs)[b] == jobs[r.1],
    decreases jobs.len(),
{
    let front = jobs.drop_last();
    if b < waiting(front).len() {
        let r = waiting_in_order(front, a, b);
        assert(front[r.0] == jobs[r.0]);
        assert(front[r.1] == jobs[r.1]);
        r
    } else {
        let i = waiting_comes_from(front, a);
        assert(front[i] == jobs[i]);
        (i, jobs.len() - 1)
    }
}

proof fn waiting_has(jobs: Seq<JobView>, i: int) -> (k: int)
    requires
        0 <= i < jobs.len(),
        jobs[i].status == JobStatus::Queued,
    ensures
        0 <= k < waiting(jobs).len(),
        waiting(jobs)[k] == jobs[i],
    decreases jobs.len(),
{
    let front = jobs.drop_last();
    if i < front.len() {
        assert(front[i] == jobs[i]);
        waiting_has(front, i)
    } else {
        waiting(front).len() as int
    }
}

/// The start is one of the artifact with the identifier.
pub open spec fn starts_artifact(effect: EffectView, id: Text) -> bool {
    effect matches EffectView::StartDownload { artifact, .. } && artifact.id == id
}

/// A download is started with what it was queued with: the round that starts it asks for exactly one
/// start of it, with the root and all the options, the token among them, that it was queued with.
pub proof fn downloads_start_with_what_they_were_queued_with(
    q: QueueView,
    root: Text,
    a: ArtifactView,
    options: OptionsView,
    now: Clock,
    max_concurrent: usize,
    later: Clock,
    i: int,
)
    requires
        at_rest(q.jobs, a.id),
        one_job_each(q.jobs),
        ({
            let queued = q.enqueued(root, seq![a], options, now).0;
            let r = queued.ticked(Seq::empty(), max_concurrent, later);
            0 <= i < r.jobs.len() && r.jobs[i].artifact.id == a.id && r.jobs[i].status
                != JobStatus::Queued
        }),
    ensures
        ({
            let queued = q.enqueued(root, seq![a], options, now).0;
            let r = queued.ticked(Seq::empty(), max_concurrent, later);
            let added = starts(r.effects.skip(queued.effects.len() as int));
            exists|k: int|
                0 <= k < added.len() && (#[trigger] added[k]) == (EffectView::StartDownload {
                    artifact: queued.jobs[i].artifact,
                    root,
                    options,
                }) && queued.jobs[i].artifact.id == a.id && forall|m: int|
                    0 <= m < added.len() && m != k ==> !starts_artifact(#[trigger] added[m], a.id)
        }),
{
    let queued = q.enqueued(root, seq![a], options, now).0;
    let r = queued.ticked(Seq::empty(), max_concurrent, later);
    let before = queued.after_all(Seq::empty(), later).0;
    assert(before == queued);
    downloads_are_queued_as_asked(q, root, a, options, now);
    crate::laws::queue::artifacts_have_one_job_each(q, root, seq![a], options, now);
    rounds_start_what_waits(queued, Seq::empty(), max_concurrent, later);
    let w = waiting(queued.jobs);
    let added = starts(r.effects.skip(queued.effects.len() as int));
    let limit: int = if max_concurrent == 0 {
        1
    } else {
        max_concurrent as int
    };
    let k = within(
        limit - busy_jobs(queued.jobs) - busy_nodes(queued.custom_nodes),
        w.len(),
    );
    assert(at_most_started(queued.jobs[i], r.jobs[i]));
    assert(queued.jobs[i].artifact.id == a.id);
    let at = choose|at: int|
        0 <= at < queued.jobs.len() && waits_with(#[trigger] queued.jobs[at], a.id, root, options);
    if at != i {
        if at < i {
            assert(queued.jobs[at].artifact.id != queued.jobs[i].artifact.id);
        } else {
            assert(queued.jobs[i].artifact.id != queued.jobs[at].artifact.id);
        }
    }
    let p = waiting_has(queued.jobs, i);
    if p >= k {
        let left = waiting(r.jobs);
        assert(left[p - k] == w[p]);
        let j = waiting_comes_from(r.jobs, p - k);
        assert(r.jobs[j].artifact.id == a.id);
        assert(r.jobs[j].status == JobStatus::Queued) by {
            waiting_waits(r.jobs, p - k);
        }
        assert(at_most_started(queued.jobs[j], r.jobs[j]));
        assert(queued.jobs[j].artifact.id == a.id);
        if j < i {
            assert(queued.jobs[j].artifact.id != queued.jobs[i].artifact.id);
        } else if i < j {
            assert(queued.jobs[i].artifact.id != queued.jobs[j].artifact.id);
        }
        assert(false);
    }
    assert(added[p] == start_of(w.take(k)[p]));
    assert forall|m: int| 0 <= m < added.len() && m != p implies !starts_artifact(
        #[trigger] added[m],
        a.id,
    ) by {
        assert(added[m] == start_of(w.take(k)[m]));
        if m < p {
            let t = waiting_in_order(queued.jobs, m, p);
            assert(queued.jobs[t.0].artifact.id != queued.jobs[t.1].artifact.id);
        } else {
            let t = waiting_in_order(queued.jobs, p, m);
            assert(queued.jobs[t.0].artifact.id != queued.jobs[t.1].artifact.id);
        }
    }
}

proof fn waiting_waits(jobs: Seq<JobView>, k: int)
    requires
        0 <= k < waiting(jobs).len(),
    ensures
        waiting(jobs)[k].status == JobStatus::Queued,
    decreases jobs.len(),
{
    let front = jobs.drop_last();
    if k < waiting(front).len() {
        waiting_waits(front, k);
    }
}

}
