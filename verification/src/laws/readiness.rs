//! Laws of health: when an artifact, a package or a workflow is ready, and what is said where it is
//! not.
use crate::catalog::{found, Artifact, ArtifactView, CatalogView, PackageView, WorkflowView};
use crate::health::{installed_nodes, surveyed, FactsView, Health, HealthView};
use crate::inventory::{status_of, ArtifactFiles, ArtifactStatus};
use crate::laws::bundles::{entries_are_found, has_artifact, has_node};
use crate::text::Text;
use vstd::prelude::*;

verus! {

/// The health of every artifact of the catalog was looked at, and is one that files can have.
pub open spec fn looked_at(f: FactsView, c: CatalogView) -> bool {
    forall|id: Text| #[trigger]
        has_artifact(c, id) ==> f.by_id.contains_key(id) && (f.by_id[id] == Health::Ready
            || f.by_id[id] == Health::Missing || f.by_id[id] == Health::Paused || f.by_id[id]
            == Health::Broken)
}

/// The artifact is broken: the catalog does not have it, or its file does not match.
pub open spec fn is_broken(f: FactsView, c: CatalogView, id: Text) -> bool {
    !has_artifact(c, id) || f.by_id[id] == Health::Broken
}

/// The artifact is not there, and cannot be had without a token.
pub open spec fn is_blocked(f: FactsView, c: CatalogView, id: Text) -> bool {
    !f.has_token && f.by_id[id] != Health::Ready && (found::<Artifact>(c.artifacts, id) matches Some(
        a,
    ) && a.gated)
}

/// What the artifacts from `at` on come to, where those before came to `before`: broken, blocked,
/// paused, missing and ready, the first of these that holds.
spec fn comes_to(
    f: FactsView,
    c: CatalogView,
    ids: Seq<Text>,
    at: int,
    before: Health,
    result: Health,
) -> bool {
    let broken = exists|k: int| at <= k < ids.len() && is_broken(f, c, #[trigger] ids[k]);
    let blocked = before == Health::Blocked || exists|k: int|
        at <= k < ids.len() && is_blocked(f, c, #[trigger] ids[k]);
    let paused = before == Health::Paused || exists|k: int|
        at <= k < ids.len() && f.by_id[#[trigger] ids[k]] == Health::Paused;
    let missing = before == Health::Missing || exists|k: int|
        at <= k < ids.len() && f.by_id[#[trigger] ids[k]] == Health::Missing;
    result == if broken {
        Health::Broken
    } else if blocked {
        Health::Blocked
    } else if paused {
        Health::Paused
    } else if missing {
        Health::Missing
    } else {
        Health::Ready
    }
}

proof fn ids_come_to(f: FactsView, c: CatalogView, ids: Seq<Text>, at: int, before: Health)
    requires
        looked_at(f, c),
        0 <= at <= ids.len(),
        before == Health::Ready || before == Health::Missing || before == Health::Paused || before
            == Health::Blocked,
    ensures
        comes_to(f, c, ids, at, before, f.ids_from(c, ids, at, before)),
    decreases ids.len() - at,
{
    if at < ids.len() {
        let id = ids[at];
        entries_are_found(c, id);
        if has_artifact(c, id) && f.by_id[id] != Health::Broken {
            let a = found::<Artifact>(c.artifacts, id)->0;
            let next = f.with_artifact(before, id, a.gated);
            ids_come_to(f, c, ids, at + 1, next);
            let r = f.ids_from(c, ids, at, before);
            assert(r == f.ids_from(c, ids, at + 1, next));
            assert(!is_broken(f, c, id));
            assert((exists|k: int| at <= k < ids.len() && is_broken(f, c, #[trigger] ids[k])) == (
            exists|k: int| at + 1 <= k < ids.len() && is_broken(f, c, #[trigger] ids[k]))) by {
                if exists|k: int| at <= k < ids.len() && is_broken(f, c, #[trigger] ids[k]) {
                    let k = choose|k: int|
                        at <= k < ids.len() && is_broken(f, c, #[trigger] ids[k]);
                    assert(k != at);
                }
            }
            assert((exists|k: int| at <= k < ids.len() && is_blocked(f, c, #[trigger] ids[k])) == (
            is_blocked(f, c, id) || exists|k: int|
                at + 1 <= k < ids.len() && is_blocked(f, c, #[trigger] ids[k])));
            assert((exists|k: int|
                at <= k < ids.len() && f.by_id[#[trigger] ids[k]] == Health::Paused) == (f.by_id[id]
                == Health::Paused || exists|k: int|
                at + 1 <= k < ids.len() && f.by_id[#[trigger] ids[k]] == Health::Paused));
            assert((exists|k: int|
                at <= k < ids.len() && f.by_id[#[trigger] ids[k]] == Health::Missing) == (
            f.by_id[id] == Health::Missing || exists|k: int|
                at + 1 <= k < ids.len() && f.by_id[#[trigger] ids[k]] == Health::Missing));
        } else {
            assert(is_broken(f, c, ids[at]));
        }
    }
}

/// What a list of artifacts comes to, in a valid installation: broken where one is broken, else
/// blocked where one cannot be had without a token, else paused where one is there in part, else
/// missing where one is, else ready.
pub proof fn the_worst_artifact_decides(f: FactsView, c: CatalogView, ids: Seq<Text>)
    requires
        looked_at(f, c),
        f.root_valid,
    ensures
        f.ids(c, ids) == Health::Broken <==> exists|k: int|
            0 <= k < ids.len() && is_broken(f, c, #[trigger] ids[k]),
        f.ids(c, ids) == Health::Blocked ==> exists|k: int|
            0 <= k < ids.len() && is_blocked(f, c, #[trigger] ids[k]),
        (exists|k: int| 0 <= k < ids.len() && is_blocked(f, c, #[trigger] ids[k])) ==> f.ids(c, ids)
            == Health::Blocked || f.ids(c, ids) == Health::Broken,
        f.ids(c, ids) == Health::Paused ==> exists|k: int|
            0 <= k < ids.len() && f.by_id[#[trigger] ids[k]] == Health::Paused,
        (exists|k: int| 0 <= k < ids.len() && f.by_id[#[trigger] ids[k]] == Health::Paused)
            ==> f.ids(c, ids) == Health::Paused || f.ids(c, ids) == Health::Blocked || f.ids(c, ids)
            == Health::Broken,
        f.ids(c, ids) == Health::Ready <==> forall|k: int|
            0 <= k < ids.len() ==> has_artifact(c, #[trigger] ids[k]) && f.by_id[ids[k]]
                == Health::Ready,
        f.ids(c, ids) != Health::Discovery,
{
    ids_come_to(f, c, ids, 0, Health::Ready);
    if forall|k: int|
        0 <= k < ids.len() ==> has_artifact(c, #[trigger] ids[k]) && f.by_id[ids[k]]
            == Health::Ready {
    } else {
        let k = choose|k: int|
            0 <= k < ids.len() && !(has_artifact(c, #[trigger] ids[k]) && f.by_id[ids[k]]
                == Health::Ready);
        if has_artifact(c, ids[k]) {
            assert(f.by_id[ids[k]] == Health::Missing || f.by_id[ids[k]] == Health::Paused
                || is_broken(f, c, ids[k]));
        } else {
            assert(is_broken(f, c, ids[k]));
        }
    }
}

/// The custom nodes are all known and installed.
pub open spec fn all_installed(f: FactsView, c: CatalogView, ids: Seq<Text>) -> bool {
    forall|k: int|
        0 <= k < ids.len() ==> has_node(c, #[trigger] ids[k]) && f.installed_nodes.contains(ids[k])
}

proof fn nodes_come_to(f: FactsView, c: CatalogView, ids: Seq<Text>, at: int)
    requires
        0 <= at <= ids.len(),
    ensures
        f.nodes_from(c, ids, at) == Health::Ready <==> forall|k: int|
            at <= k < ids.len() ==> has_node(c, #[trigger] ids[k]) && f.installed_nodes.contains(
                ids[k],
            ),
        f.nodes_from(c, ids, at) == Health::Broken ==> exists|k: int|
            at <= k < ids.len() && !has_node(c, #[trigger] ids[k]),
        f.nodes_from(c, ids, at) == Health::Ready || f.nodes_from(c, ids, at) == Health::Broken
            || f.nodes_from(c, ids, at) == Health::Missing,
    decreases ids.len() - at,
{
    if at < ids.len() {
        entries_are_found(c, ids[at]);
        nodes_come_to(f, c, ids, at + 1);
        assert(has_node(c, ids[at]) || !has_node(c, ids[at]));
    }
}

/// A package is ready exactly where the installation is valid, it has primary artifacts, every one of
/// its primary artifacts and of its dependencies is known and ready, and every one of its custom
/// nodes is known and installed.
pub proof fn packages_are_ready_when_all_is_there(f: FactsView, c: CatalogView, p: PackageView)
    requires
        looked_at(f, c),
    ensures
        f.package(c, p) == Health::Ready <==> ({
            &&& p.primary_artifact_ids.len() > 0
            &&& f.root_valid
            &&& forall|k: int|
                0 <= k < p.primary_artifact_ids.len() ==> has_artifact(
                    c,
                    #[trigger] p.primary_artifact_ids[k],
                ) && f.by_id[p.primary_artifact_ids[k]] == Health::Ready
            &&& forall|k: int|
                0 <= k < p.dependency_artifact_ids.len() ==> has_artifact(
                    c,
                    #[trigger] p.dependency_artifact_ids[k],
                ) && f.by_id[p.dependency_artifact_ids[k]] == Health::Ready
            &&& all_installed(f, c, p.custom_node_ids)
        }),
        f.package(c, p) == Health::Discovery <==> p.primary_artifact_ids.len() == 0,
{
    let ids = p.primary_artifact_ids + p.dependency_artifact_ids;
    let n = p.primary_artifact_ids.len() as int;
    nodes_come_to(f, c, p.custom_node_ids, 0);
    if f.root_valid {
        the_worst_artifact_decides(f, c, ids);
        if f.ids(c, ids) == Health::Ready {
            assert forall|k: int| 0 <= k < n implies has_artifact(
                c,
                #[trigger] p.primary_artifact_ids[k],
            ) && f.by_id[p.primary_artifact_ids[k]] == Health::Ready by {
                assert(ids[k] == p.primary_artifact_ids[k]);
            }
            assert forall|k: int| 0 <= k < p.dependency_artifact_ids.len() implies has_artifact(
                c,
                #[trigger] p.dependency_artifact_ids[k],
            ) && f.by_id[p.dependency_artifact_ids[k]] == Health::Ready by {
                assert(ids[n + k] == p.dependency_artifact_ids[k]);
            }
        } else {
            let k = choose|k: int|
                0 <= k < ids.len() && !(has_artifact(c, #[trigger] ids[k]) && f.by_id[ids[k]]
                    == Health::Ready);
            if k < n {
                assert(ids[k] == p.primary_artifact_ids[k]);
            } else {
                assert(ids[k] == p.dependency_artifact_ids[k - n]);
            }
        }
    }
}

/// One broken primary artifact or dependency breaks a package. One that cannot be had without a
/// token blocks it, and one that is there in part pauses it, unless there is worse.
pub proof fn packages_fare_as_their_artifacts(
    f: FactsView,
    c: CatalogView,
    p: PackageView,
    id: Text,
)
    requires
        looked_at(f, c),
        f.root_valid,
        p.primary_artifact_ids.len() > 0,
        p.primary_artifact_ids.contains(id) || p.dependency_artifact_ids.contains(id),
    ensures
        is_broken(f, c, id) ==> f.package(c, p) == Health::Broken,
        is_blocked(f, c, id) ==> f.package(c, p) == Health::Blocked || f.package(c, p)
            == Health::Broken,
        f.by_id[id] == Health::Paused ==> f.package(c, p) == Health::Paused || f.package(c, p)
            == Health::Blocked || f.package(c, p) == Health::Broken,
        f.by_id[id] != Health::Ready ==> f.package(c, p) != Health::Ready,
{
    let ids = p.primary_artifact_ids + p.dependency_artifact_ids;
    let n = p.primary_artifact_ids.len() as int;
    let k = if p.primary_artifact_ids.contains(id) {
        choose|k: int| 0 <= k < n && p.primary_artifact_ids[k] == id
    } else {
        n + choose|k: int|
            0 <= k < p.dependency_artifact_ids.len() && p.dependency_artifact_ids[k] == id
    };
    assert(ids[k] == id);
    the_worst_artifact_decides(f, c, ids);
    nodes_come_to(f, c, p.custom_node_ids, 0);
}

/// A workflow is ready exactly where the installation is valid, its own file is there, every one of
/// its artifacts is known and ready, and every one of its custom nodes is known and installed. One
/// broken artifact breaks it.
pub proof fn workflows_are_ready_when_all_is_there(
    f: FactsView,
    c: CatalogView,
    w: WorkflowView,
    file: bool,
)
    requires
        looked_at(f, c),
    ensures
        f.workflow(c, w, file) == Health::Ready <==> ({
            &&& f.root_valid
            &&& file
            &&& forall|k: int|
                0 <= k < w.artifact_ids.len() ==> has_artifact(c, #[trigger] w.artifact_ids[k])
                    && f.by_id[w.artifact_ids[k]] == Health::Ready
            &&& all_installed(f, c, w.custom_node_ids)
        }),
        f.root_valid && (exists|k: int|
            0 <= k < w.artifact_ids.len() && is_broken(f, c, #[trigger] w.artifact_ids[k]))
            ==> f.workflow(c, w, file) == Health::Broken,
        !f.root_valid ==> f.workflow(c, w, file) == Health::Missing,
{
    nodes_come_to(f, c, w.custom_node_ids, 0);
    if f.root_valid {
        the_worst_artifact_decides(f, c, w.artifact_ids);
    }
}

/// What files say of an artifact: of the right length, where one is known, it is installed; of
/// another length it is mismatched; without the file it is there in part where the temporary one
/// is, and else missing.
pub proof fn files_tell_the_status(a: ArtifactView, files: ArtifactFiles)
    ensures
        status_of(a, files) is Installed <==> files.target_length is Some && (a.size_bytes is Some
            ==> a.size_bytes == files.target_length),
        status_of(a, files) is SizeMismatch <==> files.target_length is Some && a.size_bytes is Some
            && a.size_bytes != files.target_length,
        status_of(a, files) is Partial <==> files.target_length is None && files.part_exists,
        status_of(a, files) is Missing <==> files.target_length is None && !files.part_exists,
        status_of(a, files) matches ArtifactStatus::SizeMismatch { actual, expected }
            ==> files.target_length == Some(actual) && a.size_bytes == Some(expected),
        status_of(a, files) matches ArtifactStatus::Partial { downloaded_bytes, expected_bytes }
            ==> expected_bytes == a.size_bytes && (files.saved is None ==> downloaded_bytes == 0),
{
}

/// How many of the first `end` statuses are of the sort.
pub open spec fn count_of(statuses: Seq<ArtifactStatus>, health: Health, end: int) -> int
    decreases end,
{
    if end <= 0 {
        0
    } else {
        count_of(statuses, health, end - 1) + if (match statuses[end - 1] {
            ArtifactStatus::Installed => Health::Ready,
            ArtifactStatus::Partial { .. } => Health::Paused,
            ArtifactStatus::SizeMismatch { .. } => Health::Broken,
            ArtifactStatus::Missing => Health::Missing,
        }) == health {
            1int
        } else {
            0int
        }
    }
}

/// A survey counts the artifacts of each sort, and says of each what its own files say: installed is
/// ready, in part is paused, mismatched is broken.
pub proof fn surveys_count_and_tell(
    arts: Seq<ArtifactView>,
    statuses: Seq<ArtifactStatus>,
    end: int,
    i: int,
)
    requires
        0 <= i < end <= arts.len(),
        arts.len() == statuses.len(),
        forall|a: int, b: int|
            0 <= a < b < arts.len() ==> (#[trigger] arts[a]).id != (#[trigger] arts[b]).id,
    ensures
        ({
            let r = surveyed(arts, statuses, end);
            &&& r.ready == count_of(statuses, Health::Ready, end)
            &&& r.missing == count_of(statuses, Health::Missing, end)
            &&& r.paused == count_of(statuses, Health::Paused, end)
            &&& r.broken == count_of(statuses, Health::Broken, end)
            &&& r.by_id.contains_key(arts[i].id)
            &&& r.by_id[arts[i].id] == match statuses[i] {
                ArtifactStatus::Installed => Health::Ready,
                ArtifactStatus::Partial { .. } => Health::Paused,
                ArtifactStatus::SizeMismatch { .. } => Health::Broken,
                ArtifactStatus::Missing => Health::Missing,
            }
        }),
    decreases end,
{
    if end > 1 {
        surveys_count_and_tell(
            arts,
            statuses,
            end - 1,
            if i < end - 1 {
                i
            } else {
                0
            },
        );
        if i < end - 1 {
            assert(arts[i].id != arts[end - 1].id);
        }
    } else {
        assert(surveyed(arts, statuses, 0) == (HealthView {
            ready: 0,
            missing: 0,
            paused: 0,
            broken: 0,
            by_id: Map::empty(),
        }));
        reveal_with_fuel(count_of, 2);
    }
}

/// A custom node counts as installed exactly where a directory among the entries has its folder's
/// name, whatever the case and the separators.
pub proof fn custom_nodes_are_recognised(
    nodes: Seq<crate::catalog::NodeView>,
    entries: Seq<crate::steps::EntryView>,
    end: int,
    id: Text,
)
    requires
        0 <= end <= nodes.len(),
    ensures
        installed_nodes(nodes, entries, end).contains(id) <==> exists|k: int, e: int|
            0 <= k < end && 0 <= e < entries.len() && (#[trigger] nodes[k]).id == id && (
            #[trigger] entries[e]).is_dir && crate::node_runtime::folded(entries[e].name)
                == crate::node_runtime::folded(nodes[k].folder_name),
    decreases end,
{
    if end > 0 {
        custom_nodes_are_recognised(nodes, entries, end - 1, id);
        folder_is_found(entries, nodes[end - 1].folder_name, 0);
        if exists|k: int, e: int|
            0 <= k < end - 1 && 0 <= e < entries.len() && (#[trigger] nodes[k]).id == id && (
            #[trigger] entries[e]).is_dir && crate::node_runtime::folded(entries[e].name)
                == crate::node_runtime::folded(nodes[k].folder_name) {
            let (k, e) = choose|k: int, e: int|
                0 <= k < end - 1 && 0 <= e < entries.len() && (#[trigger] nodes[k]).id == id && (
                #[trigger] entries[e]).is_dir && crate::node_runtime::folded(entries[e].name)
                    == crate::node_runtime::folded(nodes[k].folder_name);
            assert(nodes[k].id == id && entries[e].is_dir);
        }
        if nodes[end - 1].id == id && crate::node_runtime::equivalent_from(
            entries,
            nodes[end - 1].folder_name,
            0,
        ) is Some {
            let e = choose|e: int|
                0 <= e < entries.len() && (#[trigger] entries[e]).is_dir
                    && crate::node_runtime::folded(entries[e].name) == crate::node_runtime::folded(
                    nodes[end - 1].folder_name,
                );
            assert(nodes[end - 1].id == id && entries[e].is_dir);
        }
    }
}

proof fn folder_is_found(entries: Seq<crate::steps::EntryView>, name: Text, at: int)
    requires
        0 <= at <= entries.len(),
    ensures
        crate::node_runtime::equivalent_from(entries, name, at) is Some <==> exists|e: int|
            at <= e < entries.len() && (#[trigger] entries[e]).is_dir
                && crate::node_runtime::folded(entries[e].name) == crate::node_runtime::folded(name),
    decreases entries.len() - at,
{
    if at < entries.len() {
        folder_is_found(entries, name, at + 1);
        if exists|e: int|
            at + 1 <= e < entries.len() && (#[trigger] entries[e]).is_dir
                && crate::node_runtime::folded(entries[e].name) == crate::node_runtime::folded(
                name,
            ) {
            let e = choose|e: int|
                at + 1 <= e < entries.len() && (#[trigger] entries[e]).is_dir
                    && crate::node_runtime::folded(entries[e].name) == crate::node_runtime::folded(
                    name,
                );
            assert(entries[e].is_dir);
        }
        assert(entries[at].is_dir || !entries[at].is_dir);
    }
}

/// Something has to be done before what is in this health can be used.
pub open spec fn falls_short(h: Health) -> bool {
    h == Health::Missing || h == Health::Paused || h == Health::Blocked || h == Health::Broken
}

proof fn trouble_stays(f: FactsView, c: CatalogView, ids: Seq<Text>, at: int, health: Health)
    requires
        0 <= at <= ids.len(),
        falls_short(health),
    ensures
        falls_short(f.ids_from(c, ids, at, health)),
    decreases ids.len() - at,
{
    if at < ids.len() {
        if let Some(a) = found::<Artifact>(c.artifacts, ids[at]) {
            trouble_stays(f, c, ids, at + 1, f.with_artifact(health, ids[at], a.gated));
        }
    }
}

proof fn trouble_shows(
    f: FactsView,
    c: CatalogView,
    ids: Seq<Text>,
    at: int,
    health: Health,
    k: int,
)
    requires
        0 <= at <= k < ids.len(),
        !has_artifact(c, ids[k]) || f.by_id.contains_key(ids[k]) && (f.by_id[ids[k]]
            == Health::Missing || f.by_id[ids[k]] == Health::Paused || f.by_id[ids[k]]
            == Health::Broken),
    ensures
        falls_short(f.ids_from(c, ids, at, health)),
        !has_artifact(c, ids[k]) || f.by_id[ids[k]] == Health::Broken ==> f.ids_from(
            c,
            ids,
            at,
            health,
        ) == Health::Broken,
    decreases k - at,
{
    entries_are_found(c, ids[k]);
    if at < k {
        if let Some(a) = found::<Artifact>(c.artifacts, ids[at]) {
            trouble_shows(f, c, ids, at + 1, f.with_artifact(health, ids[at], a.gated), k);
        }
    } else if let Some(a) = found::<Artifact>(c.artifacts, ids[k]) {
        if f.by_id[ids[k]] != Health::Broken {
            trouble_stays(f, c, ids, k + 1, f.with_artifact(health, ids[k], a.gated));
        }
    }
}

/// One artifact that is known to be missing, paused or broken, or that the catalog does not have,
/// keeps a package from being ready, whether it is among the primary ones or the dependencies; where
/// it is broken or unknown, the package is broken. This holds whatever is known of the others.
pub proof fn one_artifact_is_enough(f: FactsView, c: CatalogView, p: PackageView, id: Text)
    requires
        f.root_valid,
        p.primary_artifact_ids.len() > 0,
        p.primary_artifact_ids.contains(id) || p.dependency_artifact_ids.contains(id),
        !has_artifact(c, id) || f.by_id.contains_key(id) && (f.by_id[id] == Health::Missing
            || f.by_id[id] == Health::Paused || f.by_id[id] == Health::Broken),
    ensures
        f.package(c, p) != Health::Ready,
        !has_artifact(c, id) || f.by_id[id] == Health::Broken ==> f.package(c, p)
            == Health::Broken,
{
    let ids = p.primary_artifact_ids + p.dependency_artifact_ids;
    let n = p.primary_artifact_ids.len() as int;
    let k = if p.primary_artifact_ids.contains(id) {
        choose|k: int| 0 <= k < n && p.primary_artifact_ids[k] == id
    } else {
        n + choose|k: int|
            0 <= k < p.dependency_artifact_ids.len() && p.dependency_artifact_ids[k] == id
    };
    assert(ids[k] == id);
    trouble_shows(f, c, ids, 0, Health::Ready, k);
    nodes_come_to(f, c, p.custom_node_ids, 0);
}

}
