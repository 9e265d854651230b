//! Laws of packages, workflows, their dependencies and volumes.
use crate::actions::{builtin_order, builtin_rank, merged_before, with_rank};
use crate::catalog::{ArtifactView, CatalogView, PackageView};
use crate::ids::{ascending, ascending_exists, ascends};
use crate::node_runtime::{alphanumeric, folded};
use crate::outside::{hex_digit, hex_text, sha256_digest};
use crate::packages::{
    needed_by_other, package_artifact_step, package_node_step, planned_artifacts,
    removal_candidates, shared_artifact, shared_node, workflow_artifact_step,
};
use crate::python_deps::{marker_fits, marker_of, PythonInstallView, PythonPhase};
use crate::state::{artifact_held, ManagedState};
use crate::steps::StepEventView;
use crate::storage::{by_space, first_suitable, placed_by_space, suitable, StorageView};
use crate::text::{
    ascii_lower, is_white_space, lower_text, text_lt, trim_end, trim_start, trimmed, Text,
};
use crate::workflow::{artifact_meant, inspected, model_like};
use vstd::prelude::*;

verus! {

/// A removal, with dependencies or without, keeps every artifact that another package or a workflow
/// holds, and every one that another installed package of the catalog refers to, and no others.
pub proof fn shared_dependencies_are_kept(
    windows: bool,
    c: CatalogView,
    state: ManagedState,
    root: Text,
    artifact: Text,
    package: Text,
    present: Set<Text>,
)
    ensures
        package_artifact_step(windows, c, state, root, artifact, package, present) is Keep
            <==> shared_artifact(state, artifact, Some(package)) || needed_by_other(
            c,
            artifact,
            package,
            present,
        ),
{
}

/// A removal keeps every custom node that another package or a workflow holds.
pub proof fn shared_nodes_are_kept(
    windows: bool,
    c: CatalogView,
    state: ManagedState,
    root: Text,
    node: Text,
    package: Text,
)
    ensures
        package_node_step(windows, c, state, root, node, package) is Remove ==> !shared_node(
            state,
            node,
            Some(package),
        ),
{
}

/// The removal of a workflow's dependencies keeps whatever anything recorded holds.
pub proof fn recorded_dependencies_are_kept(
    windows: bool,
    c: CatalogView,
    state: ManagedState,
    root: Text,
    artifact: Text,
    owner: Text,
)
    requires
        state.packages@.contains_key(owner) && state.packages@[owner].artifact_ids@.contains(
            artifact,
        ) || state.workflows@.contains_key(owner)
            && state.workflows@[owner].artifact_ids@.contains(artifact),
    ensures
        workflow_artifact_step(windows, c, state, root, artifact) is Keep,
{
    if state.packages@.contains_key(owner) && state.packages@[owner].artifact_ids@.contains(
        artifact,
    ) {
        assert(Some(owner) != None::<Text>);
        assert(artifact_held(state.packages@, artifact, None));
    } else {
        assert(Some(owner) != None::<Text>);
        assert(artifact_held(state.workflows@, artifact, None));
    }
}

/// Without its dependencies only a package's primary artifacts are removed.
pub proof fn dependencies_stay_unless_asked_for(
    p: PackageView,
    recorded: Option<Set<Text>>,
    artifact: Text,
)
    requires
        removal_candidates(p, recorded, false).contains(artifact),
    ensures
        p.primary_artifact_ids.contains(artifact),
{
    assert(p.primary_artifact_ids.to_set().contains(artifact));
}

/// What is installed for a package is what a removal of it, with its dependencies, looks at.
pub proof fn removal_looks_at_what_was_installed(
    p: PackageView,
    with_deps: bool,
    chosen: Seq<Text>,
    artifact: Text,
)
    ensures
        removal_candidates(p, Some(planned_artifacts(p, with_deps, chosen)), true).contains(
            artifact,
        ) <==> planned_artifacts(p, with_deps, chosen).contains(artifact),
{
}

proof fn placed_facts(s: Seq<StorageView>, x: StorageView, y: StorageView)
    requires
        forall|i: int, j: int|
            0 <= i < j < s.len() ==> (#[trigger] s[i]).available_bytes >= (
            #[trigger] s[j]).available_bytes,
    ensures
        placed_by_space(s, x).contains(y) <==> s.contains(y) || x == y,
        forall|i: int, j: int|
            0 <= i < j < placed_by_space(s, x).len() ==> (#[trigger] placed_by_space(
                s,
                x,
            )[i]).available_bytes >= (#[trigger] placed_by_space(s, x)[j]).available_bytes,
        forall|i: int|
            0 <= i < placed_by_space(s, x).len() ==> (#[trigger] placed_by_space(
                s,
                x,
            )[i]).available_bytes >= x.available_bytes || (s.len() > 0 && placed_by_space(
                s,
                x,
            )[i].available_bytes >= s.last().available_bytes),
    decreases s.len(),
{
    let p = placed_by_space(s, x);
    if s.len() == 0 || s.last().available_bytes >= x.available_bytes {
        assert(p[s.len() as int] == x);
        if s.contains(y) {
            let k = choose|k: int| 0 <= k < s.len() && s[k] == y;
            assert(p[k] == y);
        }
        if p.contains(y) && x != y {
            let k = choose|k: int| 0 <= k < p.len() && p[k] == y;
            assert(s[k] == y);
        }
        assert forall|i: int| 0 <= i < s.len() implies (#[trigger] s[i]).available_bytes
            >= x.available_bytes by {
            if i < s.len() - 1 {
                assert(s[i].available_bytes >= s[s.len() - 1].available_bytes);
            }
        }
        assert forall|i: int, j: int| 0 <= i < j < p.len() implies (#[trigger] p[i]).available_bytes
            >= (#[trigger] p[j]).available_bytes by {
            if j < s.len() {
                assert(s[i].available_bytes >= s[j].available_bytes);
            } else {
                assert(s[i].available_bytes >= x.available_bytes);
            }
        }
    } else {
        let front = s.drop_last();
        assert forall|i: int, j: int| 0 <= i < j < front.len() implies (
        #[trigger] front[i]).available_bytes >= (#[trigger] front[j]).available_bytes by {
            assert(s[i].available_bytes >= s[j].available_bytes);
        }
        placed_facts(front, x, y);
        let q = placed_by_space(front, x);
        assert(p[q.len() as int] == s.last());
        if p.contains(y) {
            let k = choose|k: int| 0 <= k < p.len() && p[k] == y;
            if k < q.len() {
                assert(q[k] == y);
                if front.contains(y) {
                    let m = choose|m: int| 0 <= m < front.len() && front[m] == y;
                    assert(s[m] == y);
                }
            } else {
                assert(s[s.len() - 1] == y);
            }
        }
        if s.contains(y) {
            let k = choose|k: int| 0 <= k < s.len() && s[k] == y;
            if k < front.len() {
                assert(front[k] == y);
            }
        }
        if q.contains(y) {
            let k = choose|k: int| 0 <= k < q.len() && q[k] == y;
            assert(p[k] == y);
        }
        assert forall|i: int| 0 <= i < q.len() implies (#[trigger] q[i]).available_bytes
            >= s.last().available_bytes by {
            if front.len() > 0 {
                assert(s[front.len() - 1].available_bytes >= s[s.len() - 1].available_bytes);
            }
        }
        assert forall|i: int, j: int| 0 <= i < j < p.len() implies (#[trigger] p[i]).available_bytes
            >= (#[trigger] p[j]).available_bytes by {
            assert(p[i] == q[i]);
            if j < q.len() {
                assert(p[j] == q[j]);
                assert(q[i].available_bytes >= q[j].available_bytes);
            }
        }
    }
}

/// The volumes are listed by their available space, the most first, and each is listed.
pub proof fn volumes_are_listed_by_space(s: Seq<StorageView>, y: StorageView)
    ensures
        by_space(s).contains(y) <==> s.contains(y),
        forall|i: int, j: int|
            0 <= i < j < by_space(s).len() ==> (#[trigger] by_space(s)[i]).available_bytes >= (
            #[trigger] by_space(s)[j]).available_bytes,
    decreases s.len(),
{
    if s.len() > 0 {
        let front = s.drop_last();
        volumes_are_listed_by_space(front, y);
        placed_facts(by_space(front), s.last(), y);
        assert(s[s.len() - 1] == s.last());
        if s.contains(y) {
            let k = choose|k: int| 0 <= k < s.len() && s[k] == y;
            if k < front.len() {
                assert(front[k] == y);
            }
        }
        if front.contains(y) {
            let k = choose|k: int| 0 <= k < front.len() && front[k] == y;
            assert(s[k] == y);
        }
    }
}

proof fn first_suitable_facts(s: Seq<StorageView>, at: int)
    requires
        0 <= at <= s.len(),
    ensures
        match first_suitable(s, at) {
            Some(x) => exists|k: int|
                at <= k < s.len() && #[trigger] s[k] == x && suitable(x) && (forall|i: int|
                    at <= i < k ==> !suitable(#[trigger] s[i])),
            None => forall|i: int| at <= i < s.len() ==> !suitable(#[trigger] s[i]),
        },
    decreases s.len() - at,
{
    if at < s.len() {
        if suitable(s[at]) {
            assert(s[at] == s[at]);
        } else {
            first_suitable_facts(s, at + 1);
            match first_suitable(s, at + 1) {
                Some(x) => {
                    let k = choose|k: int|
                        at + 1 <= k < s.len() && #[trigger] s[k] == x && suitable(x) && (forall|
                            i: int,
                        |
                            at + 1 <= i < k ==> !suitable(#[trigger] s[i]));
                    assert(s[k] == x);
                },
                None => {},
            }
        }
    }
}

/// The recommended volume is suitable and has the most space of all that are; where one is
/// suitable, one is recommended.
pub proof fn the_largest_suitable_volume_is_recommended(s: Seq<StorageView>, y: StorageView)
    requires
        s.contains(y),
        suitable(y),
    ensures
        first_suitable(by_space(s), 0) matches Some(x) && s.contains(x) && suitable(x)
            && x.available_bytes >= y.available_bytes,
{
    let t = by_space(s);
    volumes_are_listed_by_space(s, y);
    first_suitable_facts(t, 0);
    let m = choose|m: int| 0 <= m < t.len() && t[m] == y;
    match first_suitable(t, 0) {
        Some(x) => {
            let k = choose|k: int|
                0 <= k < t.len() && #[trigger] t[k] == x && suitable(x) && (forall|i: int|
                    0 <= i < k ==> !suitable(#[trigger] t[i]));
            volumes_are_listed_by_space(s, x);
            assert(t[k] == x);
            if m < k {
                assert(!suitable(t[m]));
            } else if k < m {
                assert(t[k].available_bytes >= t[m].available_bytes);
            }
        },
        None => {
            assert(!suitable(t[m]));
        },
    }
}

/// The failure of one custom node does not stop the installation: its runtime is verified, the
/// next node follows, and the failure is kept.
pub proof fn node_failures_are_isolated(run: PythonInstallView, message: Text)
    requires
        run.well_formed(),
        run.folders.len() <= usize::MAX,
    ensures
        run.phase == PythonPhase::NodeRequirements ==> ({
            let (next, step) = run.after(StepEventView::Failed(message));
            next.phase == PythonPhase::NodeRuntime && next.at == run.at && next.errors
                == run.errors.push(run.folders[run.at as int] + ": "@ + message)
                && step.action is VerifyRuntime
        }),
        run.phase == PythonPhase::NodeRuntime && run.at + 1 < run.folders.len() ==> ({
            let (next, step) = run.after(StepEventView::Failed(message));
            next.phase == PythonPhase::CheckNode && next.at == run.at + 1 && next.errors.len()
                == run.errors.len() + 1 && step.action is CheckFile
        }),
{
}

/// The marker is written only after every custom node, and only where none has failed.
pub proof fn failures_leave_no_marker(run: PythonInstallView, event: StepEventView)
    requires
        run.well_formed(),
        run.after(event).1.action is WriteMarker,
    ensures
        run.after(event).0.errors.len() == 0,
        run.after(event).0.at >= run.after(event).0.folders.len(),
        !(event is Failed),
{
}

/// The temporary wheels are removed whether the installation from them succeeds or fails.
pub proof fn wheels_are_removed(run: PythonInstallView, message: Text)
    requires
        run.phase == PythonPhase::Install,
    ensures
        run.after(StepEventView::Done).1.remove == Some(run.wheelhouse),
        run.after(StepEventView::Failed(message)).1.remove == Some(run.wheelhouse),
{
}

/// The name of a custom node's folder is compared piece by piece.
pub(crate) proof fn folded_in_pieces(s: Text, t: Text)
    ensures
        folded(s + t) == folded(s) + folded(t),
    decreases t.len(),
{
    if t.len() == 0 {
        assert(s + t =~= s);
        assert(folded(s) + folded(t) =~= folded(s));
    } else {
        assert((s + t).drop_last() =~= s + t.drop_last());
        folded_in_pieces(s, t.drop_last());
        assert(folded(s + t) =~= folded(s) + folded(t));
    }
}

/// Hyphens, underscores and whatever else is no letter or digit do not matter when the folder of a
/// custom node is looked for, wherever they stand.
pub proof fn folder_names_ignore_separators(s: Text, c: char, t: Text)
    requires
        !alphanumeric(c),
    ensures
        folded(s.push(c) + t) == folded(s + t),
{
    assert(s.push(c).drop_last() =~= s);
    folded_in_pieces(s.push(c), t);
    folded_in_pieces(s, t);
}

/// Case does not matter when the folder of a custom node is looked for.
pub proof fn folder_names_ignore_case(s: Text, t: Text)
    requires
        lower_text(s) == lower_text(t),
    ensures
        folded(s) == folded(t),
    decreases s.len(),
{
    assert(lower_text(s).len() == s.len());
    assert(lower_text(t).len() == t.len());
    if s.len() > 0 {
        assert(lower_text(s).last() == ascii_lower(s.last()));
        assert(lower_text(t).last() == ascii_lower(t.last()));
        assert(lower_text(s.drop_last()) =~= lower_text(s).drop_last());
        assert(lower_text(t.drop_last()) =~= lower_text(t).drop_last());
        folder_names_ignore_case(s.drop_last(), t.drop_last());
        assert(alphanumeric(s.last()) == alphanumeric(ascii_lower(s.last())));
        assert(alphanumeric(t.last()) == alphanumeric(ascii_lower(t.last())));
    }
}

proof fn hex_digits_differ(a: nat, b: nat)
    requires
        a < 16,
        b < 16,
        hex_digit(a) == hex_digit(b),
    ensures
        a == b,
{
}

proof fn hex_places(bytes: Seq<u8>, i: int)
    requires
        0 <= i < bytes.len(),
    ensures
        hex_text(bytes)[2 * i] == hex_digit(bytes[i] as nat / 16),
        hex_text(bytes)[2 * i + 1] == hex_digit(bytes[i] as nat % 16),
{
    assert((2 * i) % 2 == 0 && (2 * i) / 2 == i);
    assert((2 * i + 1) % 2 == 1 && (2 * i + 1) / 2 == i);
}

proof fn hex_is_unique(a: Seq<u8>, b: Seq<u8>)
    requires
        hex_text(a) == hex_text(b),
    ensures
        a == b,
{
    assert(hex_text(a).len() == 2 * a.len());
    assert(hex_text(b).len() == 2 * b.len());
    assert forall|i: int| 0 <= i < a.len() implies a[i] == b[i] by {
        hex_places(a, i);
        hex_places(b, i);
        hex_digits_differ(a[i] as nat / 16, b[i] as nat / 16);
        hex_digits_differ(a[i] as nat % 16, b[i] as nat % 16);
    }
    assert(a =~= b);
}

proof fn markers_are_trimmed(bytes: Seq<u8>)
    ensures
        trimmed(marker_of(bytes)) == marker_of(bytes),
{
    reveal_strlit("v7:");
    let m = marker_of(bytes);
    let h = hex_text(sha256_digest(bytes));
    assert(m[0] == 'v');
    assert(trim_start(m) == m);
    if h.len() > 0 {
        let d: nat = sha256_digest(bytes)[(h.len() - 1) / 2] as nat % 16;
        assert((h.len() - 1) % 2 == 1);
        assert(m.last() == h.last());
        assert(h.last() == hex_digit(d));
        assert(!is_white_space(hex_digit(d)));
    } else {
        assert(m.last() == ':');
    }
    assert(trim_end(m) == m);
}

/// What a finished installation records makes the same requirements ready. Other requirements are
/// ready with it only where their digest is the same: a change sends them back.
pub proof fn readiness_follows_the_requirements(installed: Seq<u8>, now: Seq<u8>)
    ensures
        marker_fits(Some(installed), Some(marker_of(installed))),
        marker_fits(Some(now), Some(marker_of(installed))) <==> sha256_digest(now)
            == sha256_digest(installed),
{
    markers_are_trimmed(installed);
    let a = hex_text(sha256_digest(installed));
    let b = hex_text(sha256_digest(now));
    if marker_of(now) == marker_of(installed) {
        assert((("v7:"@) + a).skip("v7:"@.len() as int) =~= a);
        assert((("v7:"@) + b).skip("v7:"@.len() as int) =~= b);
        hex_is_unique(sha256_digest(installed), sha256_digest(now));
    }
}

/// Every identifier that an inspection finds is that of an artifact of the catalog: none is made
/// up.
pub proof fn inspections_invent_nothing(windows: bool, strings: Seq<Text>, c: CatalogView, id: Text)
    requires
        inspected(windows, strings, c).artifact_ids.contains(id),
    ensures
        exists|i: int| 0 <= i < c.artifacts.len() && (#[trigger] c.artifacts[i]).id == id,
    decreases strings.len(),
{
    if strings.len() > 0 {
        let rest = strings.drop_last();
        if inspected(windows, rest, c).artifact_ids.contains(id) {
            inspections_invent_nothing(windows, rest, c, id);
        } else {
            let s = strings.last();
            named_artifacts_exist(windows, c.artifacts, s, c.artifacts.len() as int);
            named_artifacts_exist(windows, 
                c.artifacts,
                crate::workflow::base_name(s),
                c.artifacts.len() as int,
            );
        }
    }
}

proof fn named_artifacts_exist(windows: bool, arts: Seq<ArtifactView>, name: Text, end: int)
    requires
        0 <= end <= arts.len(),
    ensures
        crate::workflow::artifact_named(windows, arts, name, end) matches Some(id) ==> exists|i: int|
            0 <= i < arts.len() && (#[trigger] arts[i]).id == id,
    decreases end,
{
    if end > 0 {
        if crate::paths::file_name_of(windows, arts[end - 1].relative_path) == Some(name) {
            assert(arts[end - 1].id == arts[end - 1].id);
        } else {
            named_artifacts_exist(windows, arts, name, end - 1);
        }
    }
}

/// A model file that no artifact is known for is reported, not guessed at.
pub proof fn unknown_models_are_reported(windows: bool, strings: Seq<Text>, c: CatalogView, s: Text)
    requires
        strings.contains(s),
        model_like(s),
        artifact_meant(windows, c.artifacts, s) is None,
    ensures
        inspected(windows, strings, c).unresolved_model_filenames.contains(s),
    decreases strings.len(),
{
    let k = choose|k: int| 0 <= k < strings.len() && strings[k] == s;
    if k < strings.len() - 1 {
        assert(strings.drop_last()[k] == s);
        unknown_models_are_reported(windows, strings.drop_last(), c, s);
    }
}

/// Each comes before those after it.
pub open spec fn in_merge_order(s: Seq<Text>) -> bool {
    forall|i: int, j: int|
        0 <= i < j < s.len() ==> merged_before(#[trigger] s[i], #[trigger] s[j])
}

proof fn with_rank_facts(all: Seq<Text>, rank: nat, end: int)
    requires
        ascends(all),
        0 <= end <= all.len(),
    ensures
        in_merge_order(with_rank(all, rank, end)),
        forall|i: int|
            0 <= i < with_rank(all, rank, end).len() ==> builtin_rank(
                #[trigger] with_rank(all, rank, end)[i],
            ) == rank,
        forall|i: int|
            0 <= i < with_rank(all, rank, end).len() ==> exists|k: int|
                0 <= k < end && #[trigger] all[k] == #[trigger] with_rank(all, rank, end)[i],
    decreases end,
{
    if end > 0 {
        with_rank_facts(all, rank, end - 1);
        let rest = with_rank(all, rank, end - 1);
        let r = with_rank(all, rank, end);
        assert forall|i: int| 0 <= i < r.len() implies exists|k: int|
            0 <= k < end && #[trigger] all[k] == #[trigger] r[i] by {
            if i < rest.len() {
                let k = choose|k: int| 0 <= k < end - 1 && #[trigger] all[k] == rest[i];
                assert(all[k] == r[i]);
            } else {
                assert(all[end - 1] == r[i]);
            }
        }
        assert forall|i: int, j: int| 0 <= i < j < r.len() implies merged_before(
            #[trigger] r[i],
            #[trigger] r[j],
        ) by {
            if j < rest.len() {
                assert(merged_before(rest[i], rest[j]));
            } else {
                let k = choose|k: int| 0 <= k < end - 1 && #[trigger] all[k] == rest[i];
                assert(text_lt(all[k], all[end - 1]));
            }
        }
    }
}

proof fn ranks_in_order(a: Seq<Text>, b: Seq<Text>, low: nat, high: nat)
    requires
        in_merge_order(a),
        in_merge_order(b),
        low < high,
        forall|i: int| 0 <= i < a.len() ==> builtin_rank(#[trigger] a[i]) <= low,
        forall|i: int| 0 <= i < b.len() ==> builtin_rank(#[trigger] b[i]) == high,
    ensures
        in_merge_order(a + b),
        forall|i: int| 0 <= i < (a + b).len() ==> builtin_rank(#[trigger] (a + b)[i]) <= high,
{
    let r = a + b;
    assert forall|i: int, j: int| 0 <= i < j < r.len() implies merged_before(
        #[trigger] r[i],
        #[trigger] r[j],
    ) by {
        if j < a.len() {
            assert(merged_before(a[i], a[j]));
        } else if i >= a.len() {
            assert(merged_before(b[i - a.len()], b[j - a.len()]));
        } else {
            assert(builtin_rank(a[i]) <= low);
            assert(builtin_rank(b[j - a.len()]) == high);
        }
    }
}

/// The built-in catalogs are merged by rank and, within a rank, by name: what refers to artifacts
/// comes after them.
pub proof fn builtin_catalogs_are_merged_in_order(names: Seq<Text>)
    ensures
        in_merge_order(builtin_order(names.to_set())),
{
    ascending_exists(names);
    let all = ascending(names.to_set());
    let n = all.len() as int;
    with_rank_facts(all, 0, n);
    with_rank_facts(all, 1, n);
    with_rank_facts(all, 2, n);
    with_rank_facts(all, 3, n);
    with_rank_facts(all, 4, n);
    ranks_in_order(with_rank(all, 0, n), with_rank(all, 1, n), 0, 1);
    let a = with_rank(all, 0, n) + with_rank(all, 1, n);
    ranks_in_order(a, with_rank(all, 2, n), 1, 2);
    let b = a + with_rank(all, 2, n);
    ranks_in_order(b, with_rank(all, 3, n), 2, 3);
    let c = b + with_rank(all, 3, n);
    ranks_in_order(c, with_rank(all, 4, n), 3, 4);
}

proof fn ranked_members(all: Seq<Text>, rank: nat, end: int, x: Text)
    requires
        0 <= end <= all.len(),
    ensures
        with_rank(all, rank, end).contains(x) <==> builtin_rank(x) == rank && exists|k: int|
            0 <= k < end && #[trigger] all[k] == x,
    decreases end,
{
    if end > 0 {
        ranked_members(all, rank, end - 1, x);
        let rest = with_rank(all, rank, end - 1);
        let r = with_rank(all, rank, end);
        if rest.contains(x) {
            let i = choose|i: int| 0 <= i < rest.len() && rest[i] == x;
            assert(r[i] == x);
        }
        if r.contains(x) {
            let i = choose|i: int| 0 <= i < r.len() && r[i] == x;
            if i < rest.len() {
                assert(rest[i] == x);
            } else {
                assert(all[end - 1] == x);
            }
        }
        if builtin_rank(all[end - 1]) == rank {
            assert(r[rest.len() as int] == all[end - 1]);
        }
        if builtin_rank(x) == rank && exists|k: int| 0 <= k < end && #[trigger] all[k] == x {
            let k = choose|k: int| 0 <= k < end && #[trigger] all[k] == x;
            if k < end - 1 {
                assert(all[k] == x);
                assert(rest.contains(x));
            }
        }
    }
}

proof fn in_one_of_two(a: Seq<Text>, b: Seq<Text>, x: Text)
    ensures
        (a + b).contains(x) <==> a.contains(x) || b.contains(x),
{
    let r = a + b;
    if a.contains(x) {
        let i = choose|i: int| 0 <= i < a.len() && a[i] == x;
        assert(r[i] == x);
    }
    if b.contains(x) {
        let i = choose|i: int| 0 <= i < b.len() && b[i] == x;
        assert(r[a.len() + i] == x);
    }
    if r.contains(x) {
        let i = choose|i: int| 0 <= i < r.len() && r[i] == x;
        if i < a.len() {
            assert(a[i] == x);
        } else {
            assert(b[i - a.len()] == x);
        }
    }
}

/// Every built-in catalog is merged, and nothing else.
pub proof fn every_builtin_catalog_is_merged(names: Seq<Text>, x: Text)
    ensures
        builtin_order(names.to_set()).contains(x) <==> names.contains(x),
{
    ascending_exists(names);
    let all = ascending(names.to_set());
    let n = all.len() as int;
    ranked_members(all, 0, n, x);
    ranked_members(all, 1, n, x);
    ranked_members(all, 2, n, x);
    ranked_members(all, 3, n, x);
    ranked_members(all, 4, n, x);
    let a = with_rank(all, 0, n) + with_rank(all, 1, n);
    let b = a + with_rank(all, 2, n);
    let c = b + with_rank(all, 3, n);
    in_one_of_two(with_rank(all, 0, n), with_rank(all, 1, n), x);
    in_one_of_two(a, with_rank(all, 2, n), x);
    in_one_of_two(b, with_rank(all, 3, n), x);
    in_one_of_two(c, with_rank(all, 4, n), x);
    assert(all.to_set().contains(x) == all.contains(x));
    assert(names.to_set().contains(x) == names.contains(x));
    if all.contains(x) {
        let k = choose|k: int| 0 <= k < all.len() && all[k] == x;
        assert(all[k] == x);
    }
}

/// One of the catalogs that refer to others: nodes, packages, workflows and dependencies, in this
/// order.
pub open spec fn place_of(name: Text) -> int {
    if name == "custom_nodes.json"@ {
        1
    } else if name == "packages.json"@ {
        2
    } else if name == "workflows.json"@ {
        3
    } else if name == "dependencies.json"@ {
        4
    } else {
        0
    }
}

/// The catalogs of artifacts are merged first, then the custom nodes, the packages, the workflows
/// and the dependencies.
pub proof fn referring_catalogs_are_merged_later(names: Seq<Text>, i: int, j: int)
    requires
        0 <= i < builtin_order(names.to_set()).len(),
        0 <= j < builtin_order(names.to_set()).len(),
        place_of(builtin_order(names.to_set())[i]) < place_of(builtin_order(names.to_set())[j]),
    ensures
        i < j,
{
    builtin_catalogs_are_merged_in_order(names);
    let o = builtin_order(names.to_set());
    if j < i {
        assert(merged_before(o[j], o[i]));
    }
}

}
