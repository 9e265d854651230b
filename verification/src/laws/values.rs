//! Laws of what is looked up, counted, written out and named.
use crate::actions::{
    browse_labels_of, catalog_names, dependency_there, free_space_of, from_source, named_in,
    selection_artifacts, selection_nodes, selection_problem, without_json, SelectionTarget,
};
use crate::auth::cache_paths;
use crate::catalog::{
    found_from, CatalogView, Package, SystemDependencyView, WorkflowDefinition, WorkflowView,
};
use crate::controls::descriptions;
use crate::download::{
    mount_of, range_request, ranges_supported, resumed_bytes, space_problem, CompletedRange,
    MountView, RangeState,
};
use crate::ids::ascending;
use crate::jobs::{
    job_at, node_at, time_of_day, Clock, EffectView, JobStatus, JobView, NodeOperationView,
    QueueEventView, QueueView, SnapshotView,
};
use crate::json::{member, JsonView};
use crate::laws::bundles::{entries_are_found, has_artifact, has_node};
use crate::laws::setup::selections_name_their_artifacts;
use crate::node_runtime::{libegl_there, package_there};
use crate::packages::{models_in, nodes_for, search_address, workflow_target_of};
use crate::paths::{extension_of, file_name_of, joined_path, lies_under};
use crate::plan::SelectionView;
use crate::queue::{events_of, missing_packages, python_order, system_order, system_ordered};
use crate::state::{artifact_held, node_held, ManagedInstall};
use crate::text::{
    byte_len, contains_text, decimal, digits_value, has_suffix, lower_text, parsed_u64,
    replaced_from, split_at, stands_at, text_lt, two_digits, without_leading, without_trailing,
    Text,
};
use vstd::prelude::*;
use vstd::string::*;

verus! {

/// The custom nodes of a list are those that it names, in order; refused where the catalog does not
/// have one of them.
pub proof fn lists_name_their_custom_nodes(c: CatalogView, ids: Seq<Text>, end: int)
    requires
        0 <= end <= ids.len(),
    ensures
        nodes_for(c, ids, end) is Ok <==> forall|i: int|
            0 <= i < end ==> has_node(c, #[trigger] ids[i]),
        nodes_for(c, ids, end) matches Ok(v) ==> v.len() == end && forall|i: int|
            0 <= i < end ==> (#[trigger] v[i]).id == ids[i] && c.custom_nodes.contains(v[i]),
    decreases end,
{
    if end > 0 {
        lists_name_their_custom_nodes(c, ids, end - 1);
        entries_are_found(c, ids[end - 1]);
    }
}

/// A selection is refused exactly where its package or workflow, one of its artifacts or one of its
/// custom nodes is not in the catalog.
pub proof fn selections_are_refused_when_unknown(
    c: CatalogView,
    target: SelectionTarget,
    s: SelectionView,
)
    ensures
        selection_problem(c, target, s) is None <==> {
            &&& target == SelectionTarget::Package ==> exists|i: int|
                0 <= i < c.packages.len() && (#[trigger] c.packages[i]).id == s.id
            &&& target == SelectionTarget::Workflow ==> exists|i: int|
                0 <= i < c.workflows.len() && (#[trigger] c.workflows[i]).id == s.id
            &&& forall|i: int|
                0 <= i < s.artifact_sources.len() ==> has_artifact(
                    c,
                    (#[trigger] s.artifact_sources[i]).0,
                )
            &&& forall|i: int|
                0 <= i < s.custom_node_ids.len() ==> has_node(c, #[trigger] s.custom_node_ids[i])
        },
{
    selections_name_their_artifacts(c, s.artifact_sources, s.artifact_sources.len() as int);
    lists_name_their_custom_nodes(c, s.custom_node_ids, s.custom_node_ids.len() as int);
    package_found(c, s.id, 0);
    workflow_found(c, s.id, 0);
}

proof fn package_found(c: CatalogView, id: Text, at: int)
    requires
        0 <= at <= c.packages.len(),
    ensures
        found_from::<Package>(c.packages, id, at) is Some <==> exists|k: int|
            at <= k < c.packages.len() && (#[trigger] c.packages[k]).id == id,
    decreases c.packages.len() - at,
{
    if at < c.packages.len() {
        package_found(c, id, at + 1);
        if c.packages[at].id != id && found_from::<Package>(c.packages, id, at + 1) is Some {
            let k = choose|k: int|
                at + 1 <= k < c.packages.len() && (#[trigger] c.packages[k]).id == id;
            assert(c.packages[k].id == id);
        }
    }
}

proof fn workflow_found(c: CatalogView, id: Text, at: int)
    requires
        0 <= at <= c.workflows.len(),
    ensures
        found_from::<WorkflowDefinition>(c.workflows, id, at) is Some <==> exists|k: int|
            at <= k < c.workflows.len() && (#[trigger] c.workflows[k]).id == id,
    decreases c.workflows.len() - at,
{
    if at < c.workflows.len() {
        workflow_found(c, id, at + 1);
        if c.workflows[at].id != id && found_from::<WorkflowDefinition>(
            c.workflows,
            id,
            at + 1,
        ) is Some {
            let k = choose|k: int|
                at + 1 <= k < c.workflows.len() && (#[trigger] c.workflows[k]).id == id;
            assert(c.workflows[k].id == id);
        }
    }
}

/// The catalogs of a directory are its files with the extensions `toml` and `json`.
pub proof fn catalogs_are_found_by_extension(windows: bool, names: Seq<Text>, x: Text, end: int)
    requires
        0 <= end <= names.len(),
    ensures
        catalog_names(windows, names, end).contains(x) <==> names.take(end).contains(x) && (
        extension_of(windows, x) == Some("toml"@) || extension_of(windows, x) == Some("json"@)),
    decreases end,
{
    if end > 0 {
        catalogs_are_found_by_extension(windows, names, x, end - 1);
        let shorter = names.take(end - 1);
        let longer = names.take(end);
        if shorter.contains(x) {
            let i = choose|i: int| 0 <= i < shorter.len() && shorter[i] == x;
            assert(longer[i] == x);
        }
        if longer.contains(x) {
            let i = choose|i: int| 0 <= i < longer.len() && longer[i] == x;
            if i < end - 1 {
                assert(shorter[i] == x);
            }
        }
        assert(longer[end - 1] == names[end - 1]);
    }
}

proof fn longest_mount(windows: bool, ms: Seq<MountView>, path: Text, end: int)
    requires
        0 <= end <= ms.len(),
    ensures
        ({
            let at = mount_of(windows, ms, path, end);
            &&& at < end
            &&& at >= 0 ==> lies_under(windows, path, ms[at].mount_point)
            &&& forall|i: int|
                0 <= i < end && lies_under(windows, path, (#[trigger] ms[i]).mount_point) ==> at >= 0
                    && byte_len(ms[i].mount_point) <= byte_len(ms[at].mount_point)
        }),
    decreases end,
{
    if end > 0 {
        longest_mount(windows, ms, path, end - 1);
    }
}

/// The space that is free for a path is that of the volume it lies on: the one with the longest
/// mount point above it.
pub proof fn space_is_that_of_the_volume(windows: bool, ms: Seq<MountView>, path: Text)
    ensures
        free_space_of(windows, ms, path) matches Some(n) ==> exists|k: int|
            0 <= k < ms.len() && lies_under(windows, path, (#[trigger] ms[k]).mount_point)
                && ms[k].available == n && forall|i: int|
                0 <= i < ms.len() && lies_under(windows, path, (#[trigger] ms[i]).mount_point)
                    ==> byte_len(ms[i].mount_point) <= byte_len(ms[k].mount_point),
        free_space_of(windows, ms, path) is None <==> forall|i: int|
            0 <= i < ms.len() ==> !lies_under(windows, path, (#[trigger] ms[i]).mount_point),
{
    longest_mount(windows, ms, path, ms.len() as int);
    let at = mount_of(windows, ms, path, ms.len() as int);
    if at >= 0 {
        assert(lies_under(windows, path, ms[at].mount_point) && ms[at].available == ms[at].available);
    }
}

/// Where Hugging Face keeps its token: below `HF_HOME`, then in the two places of the home
/// directory.
pub proof fn caches_are_looked_at_in_order(windows: bool, hf_home: Text, home: Text)
    ensures
        cache_paths(windows, Some(hf_home), Some(home)) == seq![
            joined_path(windows, hf_home, "token"@),
            joined_path(windows, home, ".cache/huggingface/token"@),
            joined_path(windows, home, ".huggingface/token"@),
        ],
        cache_paths(windows, None, Some(home)) == seq![
            joined_path(windows, home, ".cache/huggingface/token"@),
            joined_path(windows, home, ".huggingface/token"@),
        ],
        cache_paths(windows, Some(hf_home), None) == seq![joined_path(windows, hf_home, "token"@)],
        cache_paths(windows, None, None).len() == 0,
{
    assert(cache_paths(windows, Some(hf_home), Some(home)) =~= seq![
        joined_path(windows, hf_home, "token"@),
        joined_path(windows, home, ".cache/huggingface/token"@),
        joined_path(windows, home, ".huggingface/token"@),
    ]);
}

proof fn first_job(jobs: Seq<JobView>, id: Text, at: int)
    requires
        0 <= at <= jobs.len(),
    ensures
        ({
            let k = job_at(jobs, id, at);
            &&& k == -1 || at <= k < jobs.len() && jobs[k].artifact.id == id
            &&& forall|i: int| at <= i < jobs.len() && (#[trigger] jobs[i]).artifact.id == id ==> 0
                <= k <= i
        }),
    decreases jobs.len() - at,
{
    if at < jobs.len() && jobs[at].artifact.id != id {
        first_job(jobs, id, at + 1);
    }
}

proof fn first_node(nodes: Seq<NodeOperationView>, id: Text, at: int)
    requires
        0 <= at <= nodes.len(),
    ensures
        ({
            let k = node_at(nodes, id, at);
            &&& k == -1 || at <= k < nodes.len() && nodes[k].node.id == id
            &&& forall|i: int| at <= i < nodes.len() && (#[trigger] nodes[i]).node.id == id ==> 0
                <= k <= i
        }),
    decreases nodes.len() - at,
{
    if at < nodes.len() && nodes[at].node.id != id {
        first_node(nodes, id, at + 1);
    }
}

/// The status of what is in the queue is told by its identifier, and of nothing else.
pub proof fn statuses_are_told(q: QueueView, id: Text)
    ensures
        q.status_of(id) is Some <==> exists|i: int|
            0 <= i < q.jobs.len() && (#[trigger] q.jobs[i]).artifact.id == id,
        q.status_of(id) matches Some(s) ==> exists|i: int|
            0 <= i < q.jobs.len() && (#[trigger] q.jobs[i]).artifact.id == id && q.jobs[i].status
                == s,
        q.node_status_of(id) is Some <==> exists|i: int|
            0 <= i < q.custom_nodes.len() && (#[trigger] q.custom_nodes[i]).node.id == id,
        q.node_status_of(id) matches Some(s) ==> exists|i: int|
            0 <= i < q.custom_nodes.len() && (#[trigger] q.custom_nodes[i]).node.id == id
                && q.custom_nodes[i].status == s,
        q.python_deps matches Some(op) ==> q.operation_status_of("python-dependencies"@) == Some(
            op.status,
        ),
        q.system_deps matches Some(op) ==> q.operation_status_of("system-dependencies"@) == Some(
            op.status,
        ),
        q.python_deps is None ==> q.operation_status_of("python-dependencies"@) is None,
        q.system_deps is None ==> q.operation_status_of("system-dependencies"@) is None,
{
    first_job(q.jobs, id, 0);
    first_node(q.custom_nodes, id, 0);
    reveal_strlit("python-dependencies");
    reveal_strlit("system-dependencies");
    assert("python-dependencies"@[0] == 'p');
    assert("system-dependencies"@[0] == 's');
}

/// What is active: everything that is neither paused nor failed nor completed.
pub open spec fn works(s: JobStatus) -> bool {
    s is Queued || s is Resolving || s is Downloading || s is Processing || s is Installing
}

/// The queue is active exactly where something in it is: a download, a custom node, the Python
/// dependencies or the system packages; and the descriptions are of what is.
pub proof fn activity_is_told(q: QueueView, s: Seq<SnapshotView>, x: Text)
    ensures
        q.any_active() <==> {
            ||| exists|i: int| 0 <= i < q.jobs.len() && works((#[trigger] q.jobs[i]).status)
            ||| exists|i: int|
                0 <= i < q.custom_nodes.len() && works((#[trigger] q.custom_nodes[i]).status)
            ||| q.python_deps matches Some(op) && works(op.status)
            ||| q.system_deps matches Some(op) && works(op.status)
        },
        descriptions(s, 0).contains(x) <==> exists|i: int|
            0 <= i < s.len() && works((#[trigger] s[i]).status) && x == s[i].name + ": "@
                + s[i].status.words(),
{
    described(s, 0, x);
    if exists|i: int| 0 <= i < q.jobs.len() && works((#[trigger] q.jobs[i]).status) {
        let i = choose|i: int| 0 <= i < q.jobs.len() && works((#[trigger] q.jobs[i]).status);
        assert(q.jobs[i].status.active());
    }
    if exists|i: int| 0 <= i < q.custom_nodes.len() && works((#[trigger] q.custom_nodes[i]).status) {
        let i = choose|i: int|
            0 <= i < q.custom_nodes.len() && works((#[trigger] q.custom_nodes[i]).status);
        assert(q.custom_nodes[i].status.active());
    }
}

proof fn described(s: Seq<SnapshotView>, at: int, x: Text)
    requires
        0 <= at <= s.len(),
    ensures
        descriptions(s, at).contains(x) <==> exists|i: int|
            at <= i < s.len() && works((#[trigger] s[i]).status) && x == s[i].name + ": "@
                + s[i].status.words(),
    decreases s.len() - at,
{
    if at < s.len() {
        described(s, at + 1, x);
        let rest = descriptions(s, at + 1);
        let line = s[at].name + ": "@ + s[at].status.words();
        if s[at].status.active() {
            let all = descriptions(s, at);
            assert(all =~= seq![line] + rest);
            assert(all[0] == line);
            if rest.contains(x) {
                let i = choose|i: int| 0 <= i < rest.len() && rest[i] == x;
                assert(all[i + 1] == x);
            }
            if all.contains(x) {
                let i = choose|i: int| 0 <= i < all.len() && all[i] == x;
                if i > 0 {
                    assert(rest[i - 1] == x);
                } else {
                    assert(works(s[at].status) && x == line);
                }
            }
        }
        if rest.contains(x) {
            let i = choose|i: int|
                at + 1 <= i < s.len() && works((#[trigger] s[i]).status) && x == s[i].name + ": "@
                    + s[i].status.words();
            assert(at <= i < s.len() && works(s[i].status));
        }
    }
}

/// What is downloaded already is the bytes of the ranges that are recorded of a file of this size;
/// each range counts for what it spans.
pub proof fn recorded_bytes_count(
    state: RangeState,
    longer: RangeState,
    range: CompletedRange,
    expected: u64,
)
    requires
        range.start <= range.end,
        state.expected_size == longer.expected_size,
        longer.completed@ == state.completed@.push(range),
        longer.expected_size == expected,
        resumed_bytes(Some(state), expected) + (range.end - range.start + 1) <= u64::MAX,
    ensures
        resumed_bytes(Some(longer), expected) == resumed_bytes(Some(state), expected) + (range.end
            - range.start + 1),
        forall|other: u64| #[trigger]
            resumed_bytes(Some(state), other) != 0 ==> other == state.expected_size,
        resumed_bytes(None, expected) == 0,
        state.completed@.len() == 0 ==> resumed_bytes(Some(state), expected) == 0,
{
    assert(longer.completed@.drop_last() =~= state.completed@);
    assert(longer.completed@.last() == range);
}

/// A range is asked for by its first and last byte; ranges can be asked for where the header of the
/// reply mentions bytes, in any case.
pub proof fn ranges_are_asked_for(start: u64, end: u64, header: Text)
    ensures
        range_request(start, end) == "bytes="@ + decimal(start as nat) + "-"@ + decimal(end as nat),
        contains_text(lower_text(header), "bytes"@) <==> ranges_supported(Some(header)),
        !ranges_supported(None),
{
}

/// The value of a text of decimal digits.
pub open spec fn value_of(s: Text) -> nat
    decreases s.len(),
{
    if s.len() == 0 {
        0
    } else {
        value_of(s.drop_last()) * 10 + (s.last() as nat - 48) as nat
    }
}

/// A number is written out in decimal digits: reading them gives the number back.
pub proof fn numbers_are_written_in_decimal(n: nat)
    ensures
        value_of(decimal(n)) == n,
        forall|i: int| 0 <= i < decimal(n).len() ==> '0' <= #[trigger] decimal(n)[i] <= '9',
        decimal(n).len() >= 1,
        n > 0 ==> decimal(n)[0] != '0',
    decreases n,
{
    reveal_with_fuel(value_of, 2);
    if n < 10 {
        assert(decimal(n).drop_last() =~= Seq::<char>::empty());
    } else {
        numbers_are_written_in_decimal(n / 10);
        assert(decimal(n).drop_last() =~= decimal(n / 10));
        assert(decimal(n)[0] == decimal(n / 10)[0]);
        assert forall|i: int| 0 <= i < decimal(n).len() implies '0' <= #[trigger] decimal(n)[i]
            <= '9' by {
            if i < decimal(n).len() - 1 {
                assert(decimal(n)[i] == decimal(n / 10)[i]);
            }
        }
    }
}

/// A time is shown by its hours, minutes and seconds of the day, each with two digits.
pub proof fn times_are_shown(seconds: u64, h: nat, m: nat, s: nat)
    requires
        h < 24,
        m < 60,
        s < 60,
        seconds % 86400 == h * 3600 + m * 60 + s,
    ensures
        time_of_day(seconds) == two_digits(h) + ":"@ + two_digits(m) + ":"@ + two_digits(s),
        value_of(two_digits(h)) == h,
        two_digits(h).len() == 2,
{
    let t = seconds as nat % 86400;
    assert(t / 3600 == h) by (nonlinear_arith)
        requires
            t == h * 3600 + m * 60 + s,
            m < 60,
            s < 60,
    ;
    assert(t / 60 == h * 60 + m) by (nonlinear_arith)
        requires
            t == h * 3600 + m * 60 + s,
            s < 60,
    ;
    assert((h * 60 + m) % 60 == m) by (nonlinear_arith)
        requires
            m < 60,
    ;
    assert(t % 60 == s) by (nonlinear_arith)
        requires
            t == h * 3600 + m * 60 + s,
            s < 60,
    ;
    numbers_are_written_in_decimal(h);
    reveal_strlit("0");
    reveal_with_fuel(value_of, 3);
    reveal_with_fuel(decimal, 2);
    if h < 10 {
        let d = "0"@ + decimal(h);
        assert(d.drop_last() =~= "0"@);
        assert("0"@.drop_last() =~= Seq::<char>::empty());
        assert(d.last() == decimal(h).last());
    }
}

/// A line is noted with its time, in the log that is shown and in the one that is kept; nothing else
/// of the queue changes.
pub proof fn lines_are_logged(q: QueueView, message: Text, now: Clock)
    ensures
        ({
            let line = "["@ + time_of_day(now.seconds) + "] "@ + message;
            let next = q.logged(message, now);
            &&& next.logs.last() == line
            &&& next.effects == q.effects.push(EffectView::AppendLog(line))
            &&& next.jobs == q.jobs
            &&& next.custom_nodes == q.custom_nodes
            &&& next.python_deps == q.python_deps
            &&& next.system_deps == q.system_deps
        }),
{
}

proof fn packages_that_are_missing(
    d: Seq<SystemDependencyView>,
    installed: Set<Text>,
    x: SystemDependencyView,
)
    ensures
        missing_packages(d, installed).contains(x) <==> d.contains(x) && !installed.contains(
            x.package,
        ),
    decreases d.len(),
{
    if d.len() > 0 {
        let rest = d.drop_last();
        packages_that_are_missing(rest, installed, x);
        let before = missing_packages(rest, installed);
        let all = missing_packages(d, installed);
        if rest.contains(x) {
            let i = choose|i: int| 0 <= i < rest.len() && rest[i] == x;
            assert(d[i] == x);
        }
        if d.contains(x) {
            let i = choose|i: int| 0 <= i < d.len() && d[i] == x;
            if i < rest.len() {
                assert(rest[i] == x);
            }
        }
        assert(d[d.len() - 1] == d.last());
        if !installed.contains(d.last().package) {
            assert(all[all.len() - 1] == d.last());
            if before.contains(x) {
                let i = choose|i: int| 0 <= i < before.len() && before[i] == x;
                assert(all[i] == x);
            }
            if all.contains(x) {
                let i = choose|i: int| 0 <= i < all.len() && all[i] == x;
                if i < before.len() {
                    assert(before[i] == x);
                }
            }
        }
    }
}

/// Python dependencies are queued only for a root with `main.py` and requirements; system packages
/// only on Linux with `apt-get`. What is installed of the system packages is exactly what is not
/// there; where all are, nothing is queued.
pub proof fn dependencies_are_ordered(
    q: QueueView,
    d: Seq<SystemDependencyView>,
    installed: Set<Text>,
    now: Clock,
    x: SystemDependencyView,
)
    ensures
        python_order(true, true) is None,
        python_order(false, true) is Some,
        python_order(true, false) is Some,
        python_order(false, false) is Some,
        system_order(true, true) is None,
        system_order(false, true) is Some,
        system_order(true, false) is Some,
        system_order(false, false) is Some,
        ({
            let next = system_ordered(q, d, installed, now);
            &&& (forall|i: int| 0 <= i < d.len() ==> installed.contains((#[trigger] d[i]).package))
                ==> next.system_deps == q.system_deps && next.jobs == q.jobs
            &&& d.contains(x) && !installed.contains(x.package) && (q.system_deps is None
                || !works(q.system_deps->0.status)) ==> next.system_deps is Some
                && next.system_deps->0.dependencies.contains(x) && next.system_deps->0.status
                == JobStatus::Queued
        }),
{
    packages_that_are_missing(d, installed, x);
    if forall|i: int| 0 <= i < d.len() ==> installed.contains((#[trigger] d[i]).package) {
        let missing = missing_packages(d, installed);
        if missing.len() > 0 {
            let y = missing[0];
            packages_that_are_missing(d, installed, y);
            assert(missing.contains(y));
        }
    }
}

proof fn models_from(items: Seq<JsonView>, at: int, x: Text)
    requires
        0 <= at <= items.len(),
    ensures
        crate::packages::ids_from(items, at).contains(x) <==> exists|i: int|
            at <= i < items.len() && member(#[trigger] items[i], "id"@) == Some(JsonView::Text(x)),
    decreases items.len() - at,
{
    if at < items.len() {
        models_from(items, at + 1, x);
        let rest = crate::packages::ids_from(items, at + 1);
        let all = crate::packages::ids_from(items, at);
        match crate::json::text_in(member(items[at], "id"@)) {
            Some(id) => {
                assert(all[0] == id);
                if rest.contains(x) {
                    let i = choose|i: int| 0 <= i < rest.len() && rest[i] == x;
                    assert(all[i + 1] == x);
                }
                if all.contains(x) {
                    let i = choose|i: int| 0 <= i < all.len() && all[i] == x;
                    if i > 0 {
                        assert(rest[i - 1] == x);
                    } else {
                        assert(member(items[at], "id"@) == Some(JsonView::Text(x)));
                    }
                }
            },
            None => {},
        }
        if rest.contains(x) {
            let i = choose|i: int|
                at + 1 <= i < items.len() && member(#[trigger] items[i], "id"@) == Some(
                    JsonView::Text(x),
                );
            assert(at <= i < items.len());
        }
    }
}

/// The models of a reply are the identifiers of its items. They are asked for at Hugging Face, by
/// the words and with the limit of the search.
pub proof fn searches_find_models(items: Seq<JsonView>, query: Text, limit: usize, x: Text)
    ensures
        models_in(JsonView::Array(items)).contains(x) <==> exists|i: int|
            0 <= i < items.len() && member(#[trigger] items[i], "id"@) == Some(JsonView::Text(x)),
        search_address(query, limit) == "https://huggingface.co/api/models?search="@
            + crate::outside::percent_encoded(vstd::utf8::encode_utf8(query)) + "&limit="@ + decimal(
            limit as nat,
        ),
{
    models_from(items, 0, x);
}

/// A workflow is installed among the user's workflows, under the name of its file.
pub proof fn workflows_are_installed_under_their_names(
    windows: bool,
    root: Text,
    w: WorkflowView,
    name: Text,
)
    requires
        file_name_of(windows, w.file) == Some(name),
    ensures
        workflow_target_of(windows, root, w) == joined_path(
            windows,
            joined_path(windows, root, "user/default/workflows"@),
            name,
        ),
{
}

/// Something is held by another owner exactly where the record of one that is not excepted has it.
pub proof fn holders_are_looked_up(
    m: Map<Text, ManagedInstall>,
    x: Text,
    except: Option<Text>,
    owner: Text,
)
    requires
        m.contains_key(owner),
        except != Some(owner),
    ensures
        m[owner].artifact_ids@.contains(x) ==> artifact_held(m, x, except),
        m[owner].custom_node_ids@.contains(x) ==> node_held(m, x, except),
        (forall|id: Text|
            #[trigger] m.contains_key(id) && m[id].artifact_ids@.contains(x) ==> Some(id) == except)
            ==> !artifact_held(m, x, except),
        (forall|id: Text|
            #[trigger] m.contains_key(id) && m[id].custom_node_ids@.contains(x) ==> Some(id)
                == except) ==> !node_held(m, x, except),
{
}

/// The pieces of a text between a character: none has the character, and with it between them they
/// are the text.
pub proof fn texts_are_split(s: Text, c: char)
    ensures
        split_at(s, c).len() >= 1,
        forall|i: int|
            0 <= i < split_at(s, c).len() ==> !(#[trigger] split_at(s, c)[i]).contains(c),
        crate::text::joined(split_at(s, c), seq![c]) == s,
    decreases s.len(),
{
    if s.len() > 0 {
        let front = s.drop_last();
        texts_are_split(front, c);
        let before = split_at(front, c);
        let after = split_at(s, c);
        assert(before.drop_last().push(before.last()) =~= before);
        if s.last() == c {
            joined_with(before, seq![c], Seq::empty());
            assert(s =~= front + seq![c] + Seq::<char>::empty());
        } else {
            let last = before.last();
            assert(!before[before.len() - 1].contains(c));
            assert forall|i: int| 0 <= i < after.len() implies !(#[trigger] after[i]).contains(c) by {
                if i < after.len() - 1 {
                    assert(after[i] == before[i]);
                } else if after[i].contains(c) {
                    let k = choose|k: int| 0 <= k < after[i].len() && after[i][k] == c;
                    if k < last.len() {
                        assert(last[k] == c);
                    }
                }
            }
            joined_longer(before, seq![c], s.last());
            assert(s =~= front.push(s.last()));
        }
    }
}

proof fn joined_with(pieces: Seq<Text>, between: Text, last: Text)
    requires
        pieces.len() >= 1,
    ensures
        crate::text::joined(pieces.push(last), between) == crate::text::joined(pieces, between)
            + between + last,
{
    assert(pieces.push(last).drop_last() =~= pieces);
}

proof fn joined_longer(pieces: Seq<Text>, between: Text, c: char)
    requires
        pieces.len() >= 1,
    ensures
        crate::text::joined(
            pieces.drop_last().push(pieces.last().push(c)),
            between,
        ) == crate::text::joined(pieces, between).push(c),
{
    let longer = pieces.drop_last().push(pieces.last().push(c));
    assert(longer.drop_last() =~= pieces.drop_last());
}

/// An older record is read with `"Paused"` for every `"Stopped"`: what comes before the first one is
/// kept, and what follows it is read in the same way. Where there is none, all is kept.
pub proof fn older_records_are_read(head: Text, tail: Text)
    requires
        forall|i: int|
            0 <= i < head.len() ==> !stands_at(
                head + "\"Stopped\""@ + tail,
                "\"Stopped\""@,
                #[trigger] nth(i),
            ),
    ensures
        replaced_from(head + "\"Stopped\""@ + tail, "\"Stopped\""@, "\"Paused\""@, 0) == head
            + "\"Paused\""@ + replaced_from(tail, "\"Stopped\""@, "\"Paused\""@, 0),
{
    reveal_strlit("\"Stopped\"");
    let from = "\"Stopped\""@;
    let to = "\"Paused\""@;
    let s = head + from + tail;
    kept_head(s, from, to, 0, head.len() as int);
    let at = head.len() as int;
    assert(s.subrange(at, at + from.len()) =~= from);
    assert(stands_at(s, from, at));
    read_tail(head + from, tail, from, to, 0);
    assert((head + from) + tail =~= s);
    assert(s.subrange(0, at) =~= head);
}

/// A place in a text.
pub open spec fn nth(i: int) -> int {
    i
}

proof fn kept_head(s: Text, from: Text, to: Text, at: int, end: int)
    requires
        0 <= at <= end <= s.len(),
        from.len() > 0,
        forall|i: int| 0 <= i < end ==> !stands_at(s, from, #[trigger] nth(i)),
    ensures
        replaced_from(s, from, to, at) == s.subrange(at, end) + replaced_from(s, from, to, end),
    decreases end - at,
{
    if at < end {
        assert(nth(at) == at);
        assert(!stands_at(s, from, nth(at)));
        kept_head(s, from, to, at + 1, end);
        assert(s.subrange(at, end) =~= seq![s[at]] + s.subrange(at + 1, end));
    } else {
        assert(s.subrange(at, end) =~= Seq::<char>::empty());
        assert(s.subrange(at, end) + replaced_from(s, from, to, end) =~= replaced_from(
            s,
            from,
            to,
            end,
        ));
    }
}

proof fn read_tail(head: Text, tail: Text, from: Text, to: Text, at: int)
    requires
        0 <= at <= tail.len() + from.len(),
        from.len() > 0,
    ensures
        replaced_from(head + tail, from, to, head.len() + at) == replaced_from(tail, from, to, at),
    decreases tail.len() + from.len() - at,
{
    let s = head + tail;
    if at < tail.len() {
        let place = head.len() + at;
        assert(stands_at(s, from, place) == stands_at(tail, from, at)) by {
            if at + from.len() <= tail.len() {
                assert(s.subrange(place, place + from.len()) =~= tail.subrange(at, at + from.len()));
            }
        }
        assert(s[place] == tail[at]);
        if stands_at(tail, from, at) {
            read_tail(head, tail, from, to, at + from.len());
        } else {
            read_tail(head, tail, from, to, at + 1);
        }
    }
}

/// A message of a download is logged; where it names a stage, the stage is told first.
pub proof fn messages_are_passed_on(artifact: Text, message: Text)
    ensures
        events_of(artifact, message).last() == QueueEventView::Log("[DOWNLOAD] "@ + message),
        events_of(artifact, "phase:resolving"@)[0] == (QueueEventView::Stage {
            artifact_id: artifact,
            status: JobStatus::Resolving,
        }),
        events_of(artifact, "phase:downloading"@)[0] == (QueueEventView::Stage {
            artifact_id: artifact,
            status: JobStatus::Downloading,
        }),
        events_of(artifact, "phase:processing"@)[0] == (QueueEventView::Stage {
            artifact_id: artifact,
            status: JobStatus::Processing,
        }),
        events_of(artifact, "phase:installing"@)[0] == (QueueEventView::Stage {
            artifact_id: artifact,
            status: JobStatus::Installing,
        }),
        message != "phase:resolving"@ && message != "phase:downloading"@ && message
            != "phase:processing"@ && message != "phase:installing"@ ==> events_of(
            artifact,
            message,
        ).len() == 1,
{
    reveal_strlit("phase:resolving");
    reveal_strlit("phase:downloading");
    reveal_strlit("phase:processing");
    reveal_strlit("phase:installing");
    assert("phase:resolving"@[6] == 'r');
    assert("phase:downloading"@[6] == 'd');
    assert("phase:processing"@[6] == 'p');
    assert("phase:installing"@[6] == 'i');
}

/// When a system dependency is there: the library where the linker lists it or its file is there, the
/// program where it runs, a package where the package manager says so.
pub proof fn dependencies_are_detected(succeeded: bool, output: Text, listed: bool)
    ensures
        dependency_there("libegl"@, true, succeeded, output) <==> contains_text(
            output,
            "libEGL.so.1"@,
        ),
        dependency_there("ffmpeg"@, true, succeeded, output) <==> succeeded,
        !dependency_there("libegl"@, false, succeeded, output),
        !dependency_there("ffmpeg"@, false, succeeded, output),
        libegl_there(true, listed, output),
        libegl_there(false, listed, output) <==> listed && contains_text(output, "libEGL.so.1"@),
        package_there(true, output) <==> contains_text(output, "install ok installed"@),
        !package_there(false, output),
{
    reveal_strlit("libegl");
    reveal_strlit("ffmpeg");
    assert("libegl"@[0] == 'l' && "ffmpeg"@[0] == 'f');
}

proof fn brackets_come_off(name: Text)
    requires
        name.len() > 0,
        name[0] != '[',
        name.last() != ']',
    ensures
        named_in("["@ + name + "]"@) == name,
{
    reveal_strlit("[");
    reveal_strlit("]");
    let label = "["@ + name + "]"@;
    reveal_with_fuel(without_leading, 2);
    reveal_with_fuel(without_trailing, 2);
    let rest = label.drop_first();
    assert(rest =~= name + "]"@);
    assert(without_leading(label, '[') == rest);
    assert(rest.drop_last() =~= name);
    assert(without_trailing(rest, ']') == name);
}

/// Every directory is offered under its name in brackets, after this one and the one above; and what
/// is chosen is the directory of the name.
pub proof fn directories_are_offered(names: Set<Text>, has_parent: bool, k: int, name: Text)
    ensures
        ({
            let r = browse_labels_of(names, has_parent);
            let first: int = if has_parent {
                2
            } else {
                1
            };
            &&& r[0] == "[select this directory]"@
            &&& has_parent ==> r[1] == "[..]"@
            &&& r.len() == first + ascending(names).len()
            &&& 0 <= k < ascending(names).len() ==> r[first + k] == "["@ + ascending(names)[k]
                + "]"@
        }),
        name.len() > 0 && name[0] != '[' && name.last() != ']' ==> named_in(
            "["@ + name + "]"@,
        ) == name,
{
    if name.len() > 0 && name[0] != '[' && name.last() != ']' {
        brackets_come_off(name);
    }
}

/// A server's log that is new is read from 64 KiB before its end, one that has become shorter from
/// its beginning, and any other from where it was left.
pub proof fn logs_are_followed(q: QueueView, path: Text, length: u64)
    ensures
        q.server_log_path is None && length >= 65536 ==> q.tail_opened(path, length).server_log_offset
            == length - 65536,
        q.server_log_path is None && length < 65536 ==> q.tail_opened(path, length).server_log_offset
            == 0,
        q.server_log_path is None ==> q.tail_opened(path, length).server_log_path == Some(path),
        q.server_log_path == Some(path) && length >= q.server_log_offset ==> q.tail_opened(
            path,
            length,
        ) == q,
        q.server_log_path == Some(path) && length < q.server_log_offset ==> q.tail_opened(
            path,
            length,
        ).server_log_offset == 0,
        q.tail_opened(path, length).logs == q.logs,
        q.tail_opened(path, length).jobs == q.jobs,
{
}

/// A line of the server's log is noted once it is complete, whatever pieces it was read in; what
/// follows the last line end waits for more.
pub proof fn server_lines_are_noted(q: QueueView, line: Text, rest: Text, bytes: int)
    requires
        q.server_log_partial.len() == 0,
        q.logs.len() < 1000,
        line.len() > 0,
        !line.contains('\n'),
        !rest.contains('\n'),
        0 <= q.server_log_offset + bytes <= u64::MAX,
    ensures
        ({
            let next = q.tail_taken(line.push('\n') + rest, bytes);
            &&& next.logs == q.logs.push("[COMFYUI] "@ + line)
            &&& next.server_log_partial == rest
            &&& next.server_log_offset == q.server_log_offset + bytes
            &&& next.jobs == q.jobs
        }),
        q.tail_shows(line.push('\n') + rest),
        q.tail_taken(rest, bytes).logs == q.logs,
        q.tail_taken(rest, bytes).server_log_partial == rest,
        !q.tail_shows(rest),
{
    reveal_with_fuel(crate::controls::with_server_lines, 2);
    let text = line.push('\n') + rest;
    assert(q.server_log_partial + text =~= text);
    assert(q.server_log_partial + rest =~= rest);
    split_plain(rest, '\n');
    split_once(line, rest, '\n');
    let pieces = split_at(text, '\n');
    assert(pieces =~= seq![line, rest]);
    assert(pieces.drop_last() =~= seq![line]);
    assert(seq![line].drop_last() =~= Seq::<Text>::empty());
    assert(pieces.drop_last()[0].len() > 0);
    assert(seq![rest].drop_last() =~= Seq::<Text>::empty());
}

proof fn split_plain(s: Text, c: char)
    requires
        !s.contains(c),
    ensures
        split_at(s, c) == seq![s],
    decreases s.len(),
{
    if s.len() > 0 {
        let front = s.drop_last();
        assert(s.contains(s[s.len() - 1]));
        if front.contains(c) {
            let i = choose|i: int| 0 <= i < front.len() && front[i] == c;
            assert(s[i] == c);
        }
        split_plain(front, c);
        assert(front.push(s.last()) =~= s);
        assert(split_at(s, c) =~= seq![s]);
    } else {
        assert(s =~= Seq::<char>::empty());
    }
}

proof fn split_once(line: Text, rest: Text, c: char)
    requires
        !line.contains(c),
        !rest.contains(c),
    ensures
        split_at(line.push(c) + rest, c) == seq![line, rest],
    decreases rest.len(),
{
    let s = line.push(c) + rest;
    if rest.len() > 0 {
        let front = rest.drop_last();
        assert(rest.contains(rest[rest.len() - 1]));
        if front.contains(c) {
            let i = choose|i: int| 0 <= i < front.len() && front[i] == c;
            assert(rest[i] == c);
        }
        split_once(line, front, c);
        assert(s.drop_last() =~= line.push(c) + front);
        assert(s.last() == rest.last());
        assert(front.push(rest.last()) =~= rest);
        assert(split_at(s, c) =~= seq![line, rest]);
    } else {
        assert(s =~= line.push(c));
        assert(s.drop_last() =~= line);
        split_plain(line, c);
        assert(rest =~= Seq::<char>::empty());
        assert(split_at(s, c) =~= seq![line, rest]);
    }
}

/// A download is refused for want of space exactly where the volume it goes to is known and has less
/// than it asks for.
pub proof fn space_is_asked_of_the_volume(
    windows: bool,
    ms: Seq<MountView>,
    path: Text,
    required: u64,
)
    ensures
        space_problem(windows, ms, path, required) is Some <==> (free_space_of(
            windows,
            ms,
            path,
        ) matches Some(n) && n < required),
{
}

proof fn values_agree(s: Text)
    requires
        forall|i: int| 0 <= i < s.len() ==> '0' <= #[trigger] s[i] <= '9',
    ensures
        digits_value(s) == value_of(s),
    decreases s.len(),
{
    if s.len() > 0 {
        values_agree(s.drop_last());
        assert(s.last() == s[s.len() - 1]);
    }
}

/// A number is read from its decimal digits, with or without a plus before them; anything else, and
/// what does not fit, is no number.
pub proof fn numbers_are_read(n: u64, s: Text)
    ensures
        parsed_u64(decimal(n as nat)) == Some(n),
        parsed_u64("+"@ + decimal(n as nat)) == Some(n),
        parsed_u64(Seq::empty()) is None,
        (exists|i: int| 1 <= i < s.len() && !('0' <= #[trigger] s[i] <= '9')) ==> parsed_u64(
            s,
        ) is None,
        s.len() > 0 && s[0] != '+' && !('0' <= s[0] <= '9') ==> parsed_u64(s) is None,
{
    let d = decimal(n as nat);
    numbers_are_written_in_decimal(n as nat);
    values_agree(d);
    reveal_strlit("+");
    assert(("+"@ + d).skip(1) =~= d);
    assert(d[0] != '+');
    if exists|i: int| 1 <= i < s.len() && !('0' <= #[trigger] s[i] <= '9') {
        let i = choose|i: int| 1 <= i < s.len() && !('0' <= #[trigger] s[i] <= '9');
        if s[0] == '+' {
            assert(s.skip(1)[i - 1] == s[i]);
        }
    }
}

/// The identifier of a workflow is the name of its file without the `.json` at its end.
pub proof fn workflow_identifiers_have_no_extension(name: Text)
    ensures
        without_json(name + ".json"@) == without_json(name),
        !has_suffix(name, ".json"@) ==> without_json(name) == name,
        !has_suffix(without_json(name), ".json"@),
    decreases name.len(),
{
    reveal_strlit(".json");
    let longer = name + ".json"@;
    assert(longer.skip(longer.len() - 5) =~= ".json"@);
    assert(longer.take(longer.len() - 5) =~= name);
    if has_suffix(name, ".json"@) {
        workflow_identifiers_have_no_extension(name.take(name.len() - 5));
    }
}

/// What is ordered for a selection: the artifacts that it names, each from its chosen source, and
/// the custom nodes that it names, in order.
pub proof fn selections_are_ordered_as_chosen(c: CatalogView, s: SelectionView, k: int)
    requires
        selection_problem(c, SelectionTarget::Artifact, s) is None,
    ensures
        selection_artifacts(c, s).len() == s.artifact_sources.len(),
        0 <= k < s.artifact_sources.len() ==> exists|i: int|
            0 <= i < c.artifacts.len() && (#[trigger] c.artifacts[i]).id == s.artifact_sources[k].0
                && selection_artifacts(c, s)[k] == from_source(
                c.artifacts[i],
                s.artifact_sources[k].1,
            ),
        selection_nodes(c, s).len() == s.custom_node_ids.len(),
        0 <= k < s.custom_node_ids.len() ==> selection_nodes(c, s)[k].id == s.custom_node_ids[k]
            && c.custom_nodes.contains(selection_nodes(c, s)[k]),
{
    selections_name_their_artifacts(c, s.artifact_sources, s.artifact_sources.len() as int);
    lists_name_their_custom_nodes(c, s.custom_node_ids, s.custom_node_ids.len() as int);
    if 0 <= k < s.artifact_sources.len() {
        assert(selection_artifacts(c, s)[k].id == s.artifact_sources[k].0);
    }
    if 0 <= k < s.custom_node_ids.len() {
        assert(selection_nodes(c, s)[k].id == s.custom_node_ids[k]);
    }
}

/// A round that reports no change has changed nothing; one with events reports a change.
pub proof fn rounds_report_changes(
    q: QueueView,
    events: Seq<QueueEventView>,
    max_concurrent: usize,
    now: Clock,
)
    ensures
        !q.tick_changes(events, max_concurrent, now) ==> q.ticked(events, max_concurrent, now) == q,
        events.len() > 0 ==> q.tick_changes(events, max_concurrent, now),
{
}

/// An event ends a download exactly where it tells the end of one that is in the queue.
pub proof fn ends_are_noticed(q: QueueView, id: Text, error: Option<Text>)
    ensures
        q.ends_job(QueueEventView::Finished { artifact_id: id, error }) <==> exists|i: int|
            0 <= i < q.jobs.len() && (#[trigger] q.jobs[i]).artifact.id == id,
        !q.ends_job(QueueEventView::Log(id)),
{
    first_job(q.jobs, id, 0);
}

/// Texts are ordered by the first character in which they differ; one that the other continues
/// comes first.
pub proof fn texts_are_ordered(common: Text, a: Text, b: Text)
    ensures
        a.len() > 0 && b.len() > 0 && a[0] < b[0] ==> text_lt(common + a, common + b),
        a.len() > 0 && b.len() > 0 && a[0] > b[0] ==> !text_lt(common + a, common + b),
        b.len() > 0 ==> text_lt(common, common + b),
        !text_lt(common, common),
        !text_lt(common + b, common),
    decreases common.len(),
{
    if common.len() > 0 {
        let rest = common.drop_first();
        texts_are_ordered(rest, a, b);
        assert((common + a).drop_first() =~= rest + a);
        assert((common + b).drop_first() =~= rest + b);
    } else {
        assert(common + a =~= a);
        assert(common + b =~= b);
    }
}

/// Where temporary data lies: that of a clone of ComfyUI beside it, that of a custom node among the
/// custom nodes, the wheels of an installation below its root.
pub proof fn temporary_data_has_its_places(windows: bool, dir: Text, node: Text, id: Text)
    ensures
        crate::clone::clone_dir(windows, dir, id) == joined_path(
            windows,
            joined_path(windows, dir, ".comfybox-tmp"@),
            "comfyui-"@ + id,
        ),
        crate::node_runtime::node_temp_dir(windows, dir, node, id) == joined_path(
            windows,
            joined_path(windows, joined_path(windows, dir, "custom_nodes"@), ".comfybox-tmp"@),
            node + "-"@ + id,
        ),
        crate::comfy::wheelhouse_dir(windows, dir, id) == joined_path(
            windows,
            joined_path(windows, dir, ".comfybox-tmp"@),
            "pip-"@ + id,
        ),
{
}

}
