//! Laws of what packages and workflows refer to: which catalogs are valid, what a package installs,
//! and what the removal of a package leaves for the others.
use crate::catalog::{
    found, found_from, group_artifacts_from, group_nodes_from, merged, Artifact, ArtifactView,
    CatalogView, CustomNode, GroupView, Package, PackageView, SystemDependency, WorkflowDefinition,
};
use crate::inventory::ArtifactStatus;
use crate::laws::catalog::{
    distinct, later_entries_override, package_closed, valid_means_sound, workflow_closed,
};
use crate::packages::{
    any_present, artifacts_for, chosen_artifacts, chosen_nodes, group_from, install_problem,
    mark_of, needed_by_other, nodes_for, package_artifact_step, package_node_step,
    planned_artifacts, planned_nodes, recorded_artifacts, removal_candidates, shared_artifact,
    shared_node, unknown_group, workflow_artifact_step, PackageMark, RemovalStepView,
};
use crate::paths::joined_path;
use crate::state::ManagedState;
use crate::text::Text;
use vstd::prelude::*;

verus! {

/// The package refers to the artifact: as a primary one, as a dependency or in an optional group.
pub open spec fn refers_to(p: PackageView, artifact: Text) -> bool {
    ||| p.primary_artifact_ids.contains(artifact)
    ||| p.dependency_artifact_ids.contains(artifact)
    ||| exists|g: int|
        0 <= g < p.optional_groups.len() && (
        #[trigger] p.optional_groups[g]).artifact_ids.contains(artifact)
}

/// The package refers to the custom node: by itself or in an optional group.
pub open spec fn refers_to_node(p: PackageView, node: Text) -> bool {
    ||| p.custom_node_ids.contains(node)
    ||| exists|g: int|
        0 <= g < p.optional_groups.len() && (
        #[trigger] p.optional_groups[g]).custom_node_ids.contains(node)
}

/// The catalog has an artifact with the identifier.
pub open spec fn has_artifact(c: CatalogView, id: Text) -> bool {
    exists|k: int| 0 <= k < c.artifacts.len() && (#[trigger] c.artifacts[k]).id == id
}

/// The catalog has a custom node with the identifier.
pub open spec fn has_node(c: CatalogView, id: Text) -> bool {
    exists|k: int| 0 <= k < c.custom_nodes.len() && (#[trigger] c.custom_nodes[k]).id == id
}

proof fn in_either(a: Seq<Text>, b: Seq<Text>, x: Text)
    ensures
        (a + b).contains(x) <==> a.contains(x) || b.contains(x),
{
    let all = a + b;
    if a.contains(x) {
        let i = choose|i: int| 0 <= i < a.len() && a[i] == x;
        assert(all[i] == x);
    }
    if b.contains(x) {
        let i = choose|i: int| 0 <= i < b.len() && b[i] == x;
        assert(all[a.len() + i] == x);
    }
    if all.contains(x) {
        let i = choose|i: int| 0 <= i < all.len() && all[i] == x;
        if i < a.len() {
            assert(a[i] == x);
        } else {
            assert(b[i - a.len()] == x);
        }
    }
}

proof fn group_members(g: Seq<GroupView>, at: int, x: Text)
    requires
        0 <= at <= g.len(),
    ensures
        group_artifacts_from(g, at).contains(x) <==> exists|i: int|
            at <= i < g.len() && (#[trigger] g[i]).artifact_ids.contains(x),
        group_nodes_from(g, at).contains(x) <==> exists|i: int|
            at <= i < g.len() && (#[trigger] g[i]).custom_node_ids.contains(x),
    decreases g.len() - at,
{
    if at < g.len() {
        group_members(g, at + 1, x);
        in_either(g[at].artifact_ids, group_artifacts_from(g, at + 1), x);
        in_either(g[at].custom_node_ids, group_nodes_from(g, at + 1), x);
        if exists|i: int| at <= i < g.len() && (#[trigger] g[i]).artifact_ids.contains(x) {
            let i = choose|i: int| at <= i < g.len() && (#[trigger] g[i]).artifact_ids.contains(x);
            if i > at {
                assert(g[i].artifact_ids.contains(x));
            }
        }
        if exists|i: int| at <= i < g.len() && (#[trigger] g[i]).custom_node_ids.contains(x) {
            let i = choose|i: int|
                at <= i < g.len() && (#[trigger] g[i]).custom_node_ids.contains(x);
            if i > at {
                assert(g[i].custom_node_ids.contains(x));
            }
        }
    }
}

/// The references of a package are those to its primary artifacts, its dependencies and the members
/// of its optional groups, and to the custom nodes likewise.
pub proof fn references_are_all_that_is_listed(p: PackageView, x: Text)
    ensures
        p.artifact_refs().contains(x) <==> refers_to(p, x),
        p.node_refs().contains(x) <==> refers_to_node(p, x),
{
    group_members(p.optional_groups, 0, x);
    in_either(p.primary_artifact_ids, p.dependency_artifact_ids, x);
    in_either(
        p.primary_artifact_ids + p.dependency_artifact_ids,
        group_artifacts_from(p.optional_groups, 0),
        x,
    );
    in_either(p.custom_node_ids, group_nodes_from(p.optional_groups, 0), x);
}

proof fn found_where_there(c: CatalogView, id: Text, at: int)
    requires
        0 <= at <= c.artifacts.len(),
    ensures
        found_from::<Artifact>(c.artifacts, id, at) is Some <==> exists|k: int|
            at <= k < c.artifacts.len() && (#[trigger] c.artifacts[k]).id == id,
        found_from::<Artifact>(c.artifacts, id, at) matches Some(a) ==> a.id == id
            && c.artifacts.contains(a),
    decreases c.artifacts.len() - at,
{
    if at < c.artifacts.len() {
        found_where_there(c, id, at + 1);
        if c.artifacts[at].id != id && found_from::<Artifact>(c.artifacts, id, at + 1) is Some {
            let k = choose|k: int|
                at + 1 <= k < c.artifacts.len() && (#[trigger] c.artifacts[k]).id == id;
            assert(c.artifacts[k].id == id);
        }
    }
}

proof fn node_found_where_there(c: CatalogView, id: Text, at: int)
    requires
        0 <= at <= c.custom_nodes.len(),
    ensures
        found_from::<CustomNode>(c.custom_nodes, id, at) is Some <==> exists|k: int|
            at <= k < c.custom_nodes.len() && (#[trigger] c.custom_nodes[k]).id == id,
        found_from::<CustomNode>(c.custom_nodes, id, at) matches Some(a) ==> a.id == id
            && c.custom_nodes.contains(a),
    decreases c.custom_nodes.len() - at,
{
    if at < c.custom_nodes.len() {
        node_found_where_there(c, id, at + 1);
        if c.custom_nodes[at].id != id && found_from::<CustomNode>(
            c.custom_nodes,
            id,
            at + 1,
        ) is Some {
            let k = choose|k: int|
                at + 1 <= k < c.custom_nodes.len() && (#[trigger] c.custom_nodes[k]).id == id;
            assert(c.custom_nodes[k].id == id);
        }
    }
}

/// A look-up finds an entry of the catalog with the identifier, wherever there is one.
pub proof fn entries_are_found(c: CatalogView, id: Text)
    ensures
        found::<Artifact>(c.artifacts, id) is Some <==> has_artifact(c, id),
        found::<Artifact>(c.artifacts, id) matches Some(a) ==> a.id == id && c.artifacts.contains(a),
        found::<CustomNode>(c.custom_nodes, id) is Some <==> has_node(c, id),
        found::<CustomNode>(c.custom_nodes, id) matches Some(n) ==> n.id == id
            && c.custom_nodes.contains(n),
{
    found_where_there(c, id, 0);
    node_found_where_there(c, id, 0);
}

/// One of the primary artifacts of the package is known and on disk.
pub open spec fn on_disk(c: CatalogView, p: PackageView, present: Set<Text>) -> bool {
    exists|k: int|
        0 <= k < p.primary_artifact_ids.len() && has_artifact(
            c,
            #[trigger] p.primary_artifact_ids[k],
        ) && present.contains(p.primary_artifact_ids[k])
}

/// Something recorded other than the package holds the artifact: another package, or a workflow.
pub open spec fn held_elsewhere(state: ManagedState, artifact: Text, package: Text) -> bool {
    ||| exists|id: Text| #[trigger]
        state.packages@.contains_key(id) && id != package
            && state.packages@[id].artifact_ids@.contains(artifact)
    ||| exists|id: Text| #[trigger]
        state.workflows@.contains_key(id) && state.workflows@[id].artifact_ids@.contains(artifact)
}

/// Something recorded other than the package holds the custom node.
pub open spec fn node_held_elsewhere(state: ManagedState, node: Text, package: Text) -> bool {
    ||| exists|id: Text| #[trigger]
        state.packages@.contains_key(id) && id != package
            && state.packages@[id].custom_node_ids@.contains(node)
    ||| exists|id: Text| #[trigger]
        state.workflows@.contains_key(id) && state.workflows@[id].custom_node_ids@.contains(node)
}

/// The removal of a package keeps an artifact for every other package of the catalog that is on disk
/// and refers to it in any way.
pub proof fn installed_packages_keep_what_they_refer_to(
    windows: bool,
    c: CatalogView,
    state: ManagedState,
    root: Text,
    artifact: Text,
    package: Text,
    present: Set<Text>,
    other: int,
)
    requires
        0 <= other < c.packages.len(),
        c.packages[other].id != package,
        on_disk(c, c.packages[other], present),
        refers_to(c.packages[other], artifact),
    ensures
        package_artifact_step(windows, c, state, root, artifact, package, present)
            == RemovalStepView::Keep,
{
    disk_is_present(c, c.packages[other], present);
    references_are_all_that_is_listed(c.packages[other], artifact);
    assert(needed_by_other(c, artifact, package, present));
}

proof fn disk_is_present(c: CatalogView, p: PackageView, present: Set<Text>)
    ensures
        any_present(c, p.primary_artifact_ids, present) <==> on_disk(c, p, present),
{
    if on_disk(c, p, present) {
        let k = choose|k: int|
            0 <= k < p.primary_artifact_ids.len() && has_artifact(
                c,
                #[trigger] p.primary_artifact_ids[k],
            ) && present.contains(p.primary_artifact_ids[k]);
        entries_are_found(c, p.primary_artifact_ids[k]);
    }
    if any_present(c, p.primary_artifact_ids, present) {
        let k = choose|k: int|
            0 <= k < p.primary_artifact_ids.len() && found::<Artifact>(
                c.artifacts,
                #[trigger] p.primary_artifact_ids[k],
            ) is Some && present.contains(p.primary_artifact_ids[k]);
        entries_are_found(c, p.primary_artifact_ids[k]);
    }
}

/// What the removal of a package does with an artifact: it is kept exactly where something else that
/// is recorded holds it, or where another package that is on disk refers to it. Else the file of the
/// catalog's artifact goes, below the root, and nothing happens where the catalog has none.
pub proof fn removals_keep_exactly_what_others_need(
    windows: bool,
    c: CatalogView,
    state: ManagedState,
    root: Text,
    artifact: Text,
    package: Text,
    present: Set<Text>,
)
    ensures
        ({
            let step = package_artifact_step(
                windows,
                c,
                state,
                root,
                artifact,
                package,
                present,
            );
            let needed = exists|i: int|
                0 <= i < c.packages.len() && (#[trigger] c.packages[i]).id != package && on_disk(
                    c,
                    c.packages[i],
                    present,
                ) && refers_to(c.packages[i], artifact);
            &&& step is Keep <==> held_elsewhere(state, artifact, package) || needed
            &&& step is Remove ==> has_artifact(c, artifact)
            &&& step is Nothing ==> !has_artifact(c, artifact)
            &&& step matches RemovalStepView::Remove { path } ==> exists|k: int|
                0 <= k < c.artifacts.len() && (#[trigger] c.artifacts[k]).id == artifact && path
                    == joined_path(windows, root, c.artifacts[k].relative_path)
        }),
{
    let step = package_artifact_step(windows, c, state, root, artifact, package, present);
    entries_are_found(c, artifact);
    if exists|i: int|
        0 <= i < c.packages.len() && (#[trigger] c.packages[i]).id != package && on_disk(
            c,
            c.packages[i],
            present,
        ) && refers_to(c.packages[i], artifact) {
        let i = choose|i: int|
            0 <= i < c.packages.len() && (#[trigger] c.packages[i]).id != package && on_disk(
                c,
                c.packages[i],
                present,
            ) && refers_to(c.packages[i], artifact);
        installed_packages_keep_what_they_refer_to(
            windows,
            c,
            state,
            root,
            artifact,
            package,
            present,
            i,
        );
    }
    if needed_by_other(c, artifact, package, present) {
        let i = choose|i: int|
            0 <= i < c.packages.len() && (#[trigger] c.packages[i]).id != package && any_present(
                c,
                c.packages[i].primary_artifact_ids,
                present,
            ) && c.packages[i].artifact_refs().contains(artifact);
        disk_is_present(c, c.packages[i], present);
        references_are_all_that_is_listed(c.packages[i], artifact);
        assert(c.packages[i].id != package);
    }
    shared_is_held(state, artifact, package);
    if let RemovalStepView::Remove { path } = step {
        let a = found::<Artifact>(c.artifacts, artifact)->0;
        let k = choose|k: int| 0 <= k < c.artifacts.len() && c.artifacts[k] == a;
        assert(c.artifacts[k].id == artifact);
    }
}

proof fn shared_is_held(state: ManagedState, x: Text, package: Text)
    ensures
        shared_artifact(state, x, Some(package)) <==> held_elsewhere(state, x, package),
        shared_node(state, x, Some(package)) <==> node_held_elsewhere(state, x, package),
        shared_artifact(state, x, None) <==> (held_elsewhere(state, x, package) || (
        state.packages@.contains_key(package) && state.packages@[package].artifact_ids@.contains(
            x,
        ))),
{
    assert(Some(package) != None::<Text>);
    if exists|id: Text| #[trigger]
        state.workflows@.contains_key(id) && state.workflows@[id].artifact_ids@.contains(x) {
        let id = choose|id: Text| #[trigger]
            state.workflows@.contains_key(id) && state.workflows@[id].artifact_ids@.contains(x);
        assert(Some(id) != None::<Text>);
    }
    if exists|id: Text| #[trigger]
        state.workflows@.contains_key(id) && state.workflows@[id].custom_node_ids@.contains(x) {
        let id = choose|id: Text| #[trigger]
            state.workflows@.contains_key(id) && state.workflows@[id].custom_node_ids@.contains(x);
        assert(Some(id) != None::<Text>);
    }
    if exists|id: Text| #[trigger]
        state.packages@.contains_key(id) && id != package
            && state.packages@[id].artifact_ids@.contains(x) {
        let id = choose|id: Text| #[trigger]
            state.packages@.contains_key(id) && id != package
                && state.packages@[id].artifact_ids@.contains(x);
        assert(Some(id) != Some(package));
        assert(Some(id) != None::<Text>);
    }
    if exists|id: Text| #[trigger]
        state.packages@.contains_key(id) && id != package
            && state.packages@[id].custom_node_ids@.contains(x) {
        let id = choose|id: Text| #[trigger]
            state.packages@.contains_key(id) && id != package
                && state.packages@[id].custom_node_ids@.contains(x);
        assert(Some(id) != Some(package));
    }
    if state.packages@.contains_key(package) && state.packages@[package].artifact_ids@.contains(
        x,
    ) {
        assert(crate::state::artifact_held(state.packages@, x, None));
    }
}

/// What the removal of a package does with a custom node: it is kept exactly where something else
/// that is recorded holds it; else its folder among the custom nodes goes.
pub proof fn removals_keep_custom_nodes_that_others_need(
    windows: bool,
    c: CatalogView,
    state: ManagedState,
    root: Text,
    node: Text,
    package: Text,
)
    ensures
        ({
            let step = package_node_step(windows, c, state, root, node, package);
            &&& step is Keep <==> node_held_elsewhere(state, node, package)
            &&& step is Nothing <==> !node_held_elsewhere(state, node, package) && !has_node(c, node)
            &&& step matches RemovalStepView::Remove { path } ==> exists|k: int|
                0 <= k < c.custom_nodes.len() && (#[trigger] c.custom_nodes[k]).id == node && path
                    == joined_path(
                    windows,
                    joined_path(windows, root, "custom_nodes"@),
                    c.custom_nodes[k].folder_name,
                )
        }),
{
    shared_is_held(state, node, package);
    entries_are_found(c, node);
    if let RemovalStepView::Remove { path } = package_node_step(
        windows,
        c,
        state,
        root,
        node,
        package,
    ) {
        let n = found::<CustomNode>(c.custom_nodes, node)->0;
        let k = choose|k: int| 0 <= k < c.custom_nodes.len() && c.custom_nodes[k] == n;
        assert(c.custom_nodes[k].id == node);
    }
}

/// The removal of a workflow's dependencies keeps exactly what anything recorded holds.
pub proof fn workflow_removals_keep_what_is_recorded(
    windows: bool,
    c: CatalogView,
    state: ManagedState,
    root: Text,
    artifact: Text,
)
    ensures
        ({
            let step = workflow_artifact_step(windows, c, state, root, artifact);
            &&& step is Keep <==> (exists|id: Text| #[trigger]
                state.packages@.contains_key(id) && state.packages@[id].artifact_ids@.contains(
                    artifact,
                )) || (exists|id: Text| #[trigger]
                state.workflows@.contains_key(id) && state.workflows@[id].artifact_ids@.contains(
                    artifact,
                ))
            &&& step matches RemovalStepView::Remove { path } ==> exists|k: int|
                0 <= k < c.artifacts.len() && (#[trigger] c.artifacts[k]).id == artifact && path
                    == joined_path(windows, root, c.artifacts[k].relative_path)
        }),
{
    entries_are_found(c, artifact);
    let step = workflow_artifact_step(windows, c, state, root, artifact);
    if exists|id: Text| #[trigger]
        state.packages@.contains_key(id) && state.packages@[id].artifact_ids@.contains(artifact) {
        let id = choose|id: Text| #[trigger]
            state.packages@.contains_key(id) && state.packages@[id].artifact_ids@.contains(
                artifact,
            );
        assert(Some(id) != None::<Text>);
    }
    if exists|id: Text| #[trigger]
        state.workflows@.contains_key(id) && state.workflows@[id].artifact_ids@.contains(
            artifact,
        ) {
        let id = choose|id: Text| #[trigger]
            state.workflows@.contains_key(id) && state.workflows@[id].artifact_ids@.contains(
                artifact,
            );
        assert(Some(id) != None::<Text>);
    }
    if let RemovalStepView::Remove { path } = step {
        let a = found::<Artifact>(c.artifacts, artifact)->0;
        let k = choose|k: int| 0 <= k < c.artifacts.len() && c.artifacts[k] == a;
        assert(c.artifacts[k].id == artifact);
    }
}

/// The artifacts that a removal looks at: what was recorded for the package or, where nothing was,
/// its primary artifacts; without the dependencies only the primary ones of these.
pub proof fn removals_look_at(
    p: PackageView,
    state: ManagedState,
    with_deps: bool,
    artifact: Text,
)
    ensures
        removal_candidates(p, recorded_artifacts(state, p.id), with_deps).contains(artifact) <==> ({
            &&& state.packages@.contains_key(p.id) ==> state.packages@[p.id].artifact_ids@.contains(
                artifact,
            )
            &&& !state.packages@.contains_key(p.id) || !with_deps
                ==> p.primary_artifact_ids.contains(artifact)
        }),
{
    assert(p.primary_artifact_ids.to_set().contains(artifact) == p.primary_artifact_ids.contains(
        artifact,
    ));
}

proof fn group_found(groups: Seq<GroupView>, id: Text, at: int)
    requires
        0 <= at <= groups.len(),
    ensures
        group_from(groups, id, at) is Some <==> exists|i: int|
            at <= i < groups.len() && (#[trigger] groups[i]).id == id,
        group_from(groups, id, at) matches Some(g) ==> g.id == id && groups.contains(g),
    decreases groups.len() - at,
{
    if at < groups.len() {
        group_found(groups, id, at + 1);
        if groups[at].id != id && group_from(groups, id, at + 1) is Some {
            let i = choose|i: int|
                at + 1 <= i < groups.len() && (#[trigger] groups[i]).id == id;
            assert(groups[i].id == id);
        }
    }
}

/// No two groups have the same identifier.
pub open spec fn distinct_groups(groups: Seq<GroupView>) -> bool {
    forall|i: int, j: int|
        0 <= i < j < groups.len() ==> (#[trigger] groups[i]).id != (#[trigger] groups[j]).id
}

proof fn distinct_group_found(groups: Seq<GroupView>, i: int, at: int)
    requires
        0 <= at <= i < groups.len(),
        distinct_groups(groups),
    ensures
        group_from(groups, groups[i].id, at) == Some(groups[i]),
    decreases i - at,
{
    if at < i {
        assert(groups[at].id != groups[i].id);
        distinct_group_found(groups, i, at + 1);
    }
}

/// Some chosen group has the artifact.
pub open spec fn in_chosen_group(groups: Seq<GroupView>, chosen: Seq<Text>, artifact: Text) -> bool {
    exists|g: int|
        0 <= g < groups.len() && chosen.contains((#[trigger] groups[g]).id)
            && groups[g].artifact_ids.contains(artifact)
}

/// Some chosen group has the custom node.
pub open spec fn node_in_chosen_group(
    groups: Seq<GroupView>,
    chosen: Seq<Text>,
    node: Text,
) -> bool {
    exists|g: int|
        0 <= g < groups.len() && chosen.contains((#[trigger] groups[g]).id)
            && groups[g].custom_node_ids.contains(node)
}

proof fn chosen_members(groups: Seq<GroupView>, chosen: Seq<Text>, end: int, x: Text)
    requires
        0 <= end <= chosen.len(),
        distinct_groups(groups),
    ensures
        chosen_artifacts(groups, chosen, end).contains(x) <==> in_chosen_group(
            groups,
            chosen.take(end),
            x,
        ),
        chosen_nodes(groups, chosen, end).contains(x) <==> node_in_chosen_group(
            groups,
            chosen.take(end),
            x,
        ),
    decreases end,
{
    let some = chosen.take(end);
    if end > 0 {
        let fewer = chosen.take(end - 1);
        let last = chosen[end - 1];
        chosen_members(groups, chosen, end - 1, x);
        group_found(groups, last, 0);
        assert forall|id: Text| some.contains(id) <==> fewer.contains(id) || id == last by {
            if some.contains(id) {
                let k = choose|k: int| 0 <= k < some.len() && some[k] == id;
                if k < fewer.len() {
                    assert(fewer[k] == id);
                }
            }
            if fewer.contains(id) {
                let k = choose|k: int| 0 <= k < fewer.len() && fewer[k] == id;
                assert(some[k] == id);
            }
            assert(some[end - 1] == last);
        }
        if in_chosen_group(groups, some, x) {
            let g = choose|g: int|
                0 <= g < groups.len() && some.contains((#[trigger] groups[g]).id)
                    && groups[g].artifact_ids.contains(x);
            distinct_group_found(groups, g, 0);
            assert(groups[g].artifact_ids.to_set().contains(x));
            if fewer.contains(groups[g].id) {
                assert(in_chosen_group(groups, fewer, x));
            }
        }
        if node_in_chosen_group(groups, some, x) {
            let g = choose|g: int|
                0 <= g < groups.len() && some.contains((#[trigger] groups[g]).id)
                    && groups[g].custom_node_ids.contains(x);
            distinct_group_found(groups, g, 0);
            assert(groups[g].custom_node_ids.to_set().contains(x));
            if fewer.contains(groups[g].id) {
                assert(node_in_chosen_group(groups, fewer, x));
            }
        }
        if in_chosen_group(groups, fewer, x) {
            let g = choose|g: int|
                0 <= g < groups.len() && fewer.contains((#[trigger] groups[g]).id)
                    && groups[g].artifact_ids.contains(x);
            assert(some.contains(groups[g].id));
        }
        if node_in_chosen_group(groups, fewer, x) {
            let g = choose|g: int|
                0 <= g < groups.len() && fewer.contains((#[trigger] groups[g]).id)
                    && groups[g].custom_node_ids.contains(x);
            assert(some.contains(groups[g].id));
        }
        if let Some(group) = group_from(groups, last, 0) {
            let g = choose|g: int| 0 <= g < groups.len() && groups[g] == group;
            assert(groups[g].id == last);
            if group.artifact_ids.contains(x) {
                assert(in_chosen_group(groups, some, x));
            }
            if group.custom_node_ids.contains(x) {
                assert(node_in_chosen_group(groups, some, x));
            }
        }
    } else {
        assert(some =~= Seq::<Text>::empty());
    }
}

/// A package installs its primary artifacts, its dependencies unless they were declined, and the
/// artifacts of the chosen optional groups; with them its custom nodes and those of the groups.
pub proof fn packages_install(
    p: PackageView,
    with_deps: bool,
    chosen: Seq<Text>,
    x: Text,
)
    requires
        distinct_groups(p.optional_groups),
    ensures
        planned_artifacts(p, with_deps, chosen).contains(x) <==> p.primary_artifact_ids.contains(x)
            || (with_deps && p.dependency_artifact_ids.contains(x)) || in_chosen_group(
            p.optional_groups,
            chosen,
            x,
        ),
        planned_nodes(p, chosen).contains(x) <==> p.custom_node_ids.contains(x)
            || node_in_chosen_group(p.optional_groups, chosen, x),
{
    assert(chosen.take(chosen.len() as int) =~= chosen);
    chosen_members(p.optional_groups, chosen, chosen.len() as int, x);
    assert(p.primary_artifact_ids.to_set().contains(x) == p.primary_artifact_ids.contains(x));
    assert(p.dependency_artifact_ids.to_set().contains(x) == p.dependency_artifact_ids.contains(
        x,
    ));
    assert(p.custom_node_ids.to_set().contains(x) == p.custom_node_ids.contains(x));
}

proof fn unknown_groups(groups: Seq<GroupView>, chosen: Seq<Text>, at: int)
    requires
        0 <= at <= chosen.len(),
    ensures
        unknown_group(groups, chosen, at) is None <==> forall|k: int|
            at <= k < chosen.len() ==> group_from(groups, #[trigger] chosen[k], 0) is Some,
        unknown_group(groups, chosen, at) matches Some(id) ==> group_from(groups, id, 0) is None
            && chosen.contains(id),
    decreases chosen.len() - at,
{
    if at < chosen.len() {
        unknown_groups(groups, chosen, at + 1);
    }
}

/// A package can be installed exactly where the catalog has it, it has primary artifacts, and every
/// chosen group is one of its own.
pub proof fn packages_can_be_installed(c: CatalogView, id: Text, chosen: Seq<Text>)
    ensures
        install_problem(c, id, chosen) is None <==> (found::<Package>(c.packages, id) matches Some(p)
            && p.primary_artifact_ids.len() > 0 && forall|k: int|
            0 <= k < chosen.len() ==> exists|g: int|
                0 <= g < p.optional_groups.len() && (#[trigger] p.optional_groups[g]).id
                    == #[trigger] chosen[k]),
{
    if let Some(p) = found::<Package>(c.packages, id) {
        unknown_groups(p.optional_groups, chosen, 0);
        assert forall|k: int| 0 <= k < chosen.len() implies (group_from(
            p.optional_groups,
            #[trigger] chosen[k],
            0,
        ) is Some <==> exists|g: int|
            0 <= g < p.optional_groups.len() && (#[trigger] p.optional_groups[g]).id
                == chosen[k]) by {
            group_found(p.optional_groups, chosen[k], 0);
        }
    }
}

/// How far a package is installed: all of its primary artifacts, some of them in part, or neither.
pub proof fn packages_are_marked(primary: Seq<Text>, statuses: Seq<ArtifactStatus>)
    ensures
        mark_of(primary, statuses) == PackageMark::Discovery <==> primary.len() == 0,
        primary.len() > 0 ==> (mark_of(primary, statuses) == PackageMark::Installed <==> forall|
            i: int,
        |
            0 <= i < statuses.len() ==> #[trigger] statuses[i] == ArtifactStatus::Installed),
        primary.len() > 0 && (exists|i: int|
            0 <= i < statuses.len() && (#[trigger] statuses[i]) is Partial) ==> mark_of(
            primary,
            statuses,
        ) == PackageMark::Partial,
        primary.len() > 0 && mark_of(primary, statuses) == PackageMark::Partial ==> exists|i: int|
            0 <= i < statuses.len() && (#[trigger] statuses[i]) is Partial,
{
}

/// The entries that identifiers stand for: one for each, in order, with that identifier and of the
/// catalog; refused where the catalog has none for one of them.
pub proof fn identifiers_are_looked_up(c: CatalogView, ids: Seq<Text>, end: int)
    requires
        0 <= end <= ids.len(),
    ensures
        artifacts_for(c, ids, end) is Ok <==> forall|i: int|
            0 <= i < end ==> has_artifact(c, #[trigger] ids[i]),
        artifacts_for(c, ids, end) matches Ok(v) ==> v.len() == end && forall|i: int|
            0 <= i < end ==> (#[trigger] v[i]).id == ids[i] && c.artifacts.contains(v[i]),
        artifacts_for(c, ids, end) matches Err(m) ==> exists|i: int|
            0 <= i < end && !has_artifact(c, #[trigger] ids[i]) && m == "unknown artifact "@ + ids[i],
        nodes_for(c, ids, end) is Ok <==> forall|i: int|
            0 <= i < end ==> has_node(c, #[trigger] ids[i]),
        nodes_for(c, ids, end) matches Ok(v) ==> v.len() == end && forall|i: int|
            0 <= i < end ==> (#[trigger] v[i]).id == ids[i] && c.custom_nodes.contains(v[i]),
        nodes_for(c, ids, end) matches Err(m) ==> exists|i: int|
            0 <= i < end && !has_node(c, #[trigger] ids[i]) && m == "unknown custom node "@ + ids[i],
    decreases end,
{
    if end > 0 {
        identifiers_are_looked_up(c, ids, end - 1);
        entries_are_found(c, ids[end - 1]);
    }
}

/// Every reference of the package is to something that the catalog has.
pub open spec fn complete(c: CatalogView, p: PackageView) -> bool {
    (forall|x: Text| #[trigger] refers_to(p, x) ==> has_artifact(c, x)) && (forall|x: Text|
        #[trigger] refers_to_node(p, x) ==> has_node(c, x))
}

/// A catalog is valid exactly where no two artifacts, packages, workflows or custom nodes have the
/// same identifier, and whatever a package refers to, its optional groups included, and whatever a
/// workflow refers to, is in it.
pub proof fn catalogs_are_valid_when_complete(c: CatalogView)
    ensures
        c.problem() is None <==> ({
            &&& forall|i: int, j: int|
                0 <= i < j < c.artifacts.len() ==> (#[trigger] c.artifacts[i]).id != (
                #[trigger] c.artifacts[j]).id
            &&& forall|i: int, j: int|
                0 <= i < j < c.packages.len() ==> (#[trigger] c.packages[i]).id != (
                #[trigger] c.packages[j]).id
            &&& forall|i: int, j: int|
                0 <= i < j < c.workflows.len() ==> (#[trigger] c.workflows[i]).id != (
                #[trigger] c.workflows[j]).id
            &&& forall|i: int, j: int|
                0 <= i < j < c.custom_nodes.len() ==> (#[trigger] c.custom_nodes[i]).id != (
                #[trigger] c.custom_nodes[j]).id
            &&& forall|i: int| 0 <= i < c.packages.len() ==> complete(c, #[trigger] c.packages[i])
            &&& forall|i: int, k: int|
                0 <= i < c.workflows.len() && 0 <= k < c.workflows[i].artifact_ids.len()
                    ==> has_artifact(c, #[trigger] c.workflows[i].artifact_ids[k])
            &&& forall|i: int, k: int|
                0 <= i < c.workflows.len() && 0 <= k < c.workflows[i].custom_node_ids.len()
                    ==> has_node(c, #[trigger] c.workflows[i].custom_node_ids[k])
        }),
{
    valid_means_sound(c);
    assert forall|x: Text| #[trigger] c.artifact_ids().contains(x) <==> has_artifact(c, x) by {
        if has_artifact(c, x) {
            let k = choose|k: int| 0 <= k < c.artifacts.len() && (#[trigger] c.artifacts[k]).id == x;
            assert(c.artifact_ids()[k] == x);
        }
        if c.artifact_ids().contains(x) {
            let k = choose|k: int| 0 <= k < c.artifact_ids().len() && c.artifact_ids()[k] == x;
            assert(c.artifacts[k].id == x);
        }
    }
    assert forall|x: Text| #[trigger] c.node_ids().contains(x) <==> has_node(c, x) by {
        if has_node(c, x) {
            let k = choose|k: int|
                0 <= k < c.custom_nodes.len() && (#[trigger] c.custom_nodes[k]).id == x;
            assert(c.node_ids()[k] == x);
        }
        if c.node_ids().contains(x) {
            let k = choose|k: int| 0 <= k < c.node_ids().len() && c.node_ids()[k] == x;
            assert(c.custom_nodes[k].id == x);
        }
    }
    assert forall|i: int| 0 <= i < c.packages.len() implies (package_closed(
        c,
        #[trigger] c.packages[i],
    ) <==> complete(c, c.packages[i])) by {
        let p = c.packages[i];
        if package_closed(c, p) {
            assert forall|x: Text| #[trigger] refers_to(p, x) implies has_artifact(c, x) by {
                references_are_all_that_is_listed(p, x);
                let k = choose|k: int| 0 <= k < p.artifact_refs().len() && p.artifact_refs()[k] == x;
                assert(c.artifact_ids().contains(p.artifact_refs()[k]));
            }
            assert forall|x: Text| #[trigger] refers_to_node(p, x) implies has_node(c, x) by {
                references_are_all_that_is_listed(p, x);
                let k = choose|k: int| 0 <= k < p.node_refs().len() && p.node_refs()[k] == x;
                assert(c.node_ids().contains(p.node_refs()[k]));
            }
        }
        if complete(c, p) {
            assert forall|k: int| 0 <= k < p.artifact_refs().len() implies c.artifact_ids().contains(
                #[trigger] p.artifact_refs()[k],
            ) by {
                let x = p.artifact_refs()[k];
                assert(p.artifact_refs().contains(x));
                references_are_all_that_is_listed(p, x);
                assert(refers_to(p, x));
            }
            assert forall|k: int| 0 <= k < p.node_refs().len() implies c.node_ids().contains(
                #[trigger] p.node_refs()[k],
            ) by {
                let x = p.node_refs()[k];
                assert(p.node_refs().contains(x));
                references_are_all_that_is_listed(p, x);
                assert(refers_to_node(p, x));
            }
        }
    }
    workflows_are_closed(c);
}

/// Every reference of the workflows is to something that the catalog has.
spec fn workflows_complete(c: CatalogView) -> bool {
    &&& forall|i: int, k: int|
        0 <= i < c.workflows.len() && 0 <= k < c.workflows[i].artifact_ids.len() ==> has_artifact(
            c,
            #[trigger] c.workflows[i].artifact_ids[k],
        )
    &&& forall|i: int, k: int|
        0 <= i < c.workflows.len() && 0 <= k < c.workflows[i].custom_node_ids.len() ==> has_node(
            c,
            #[trigger] c.workflows[i].custom_node_ids[k],
        )
}

proof fn workflows_are_closed(c: CatalogView)
    ensures
        workflows_complete(c) <==> forall|i: int|
            0 <= i < c.workflows.len() ==> workflow_closed(c, #[trigger] c.workflows[i]),
{
    if workflows_complete(c) {
        assert forall|i: int| 0 <= i < c.workflows.len() implies workflow_closed(
            c,
            #[trigger] c.workflows[i],
        ) by {
            let w = c.workflows[i];
            assert forall|k: int| 0 <= k < w.artifact_ids.len() implies c.artifact_ids().contains(
                #[trigger] w.artifact_ids[k],
            ) by {
                let x = c.workflows[i].artifact_ids[k];
                let n = choose|n: int|
                    0 <= n < c.artifacts.len() && (#[trigger] c.artifacts[n]).id == x;
                assert(c.artifact_ids()[n] == x);
            }
            assert forall|k: int| 0 <= k < w.custom_node_ids.len() implies c.node_ids().contains(
                #[trigger] w.custom_node_ids[k],
            ) by {
                let x = c.workflows[i].custom_node_ids[k];
                let n = choose|n: int|
                    0 <= n < c.custom_nodes.len() && (#[trigger] c.custom_nodes[n]).id == x;
                assert(c.node_ids()[n] == x);
            }
        }
    }
    if forall|i: int|
        0 <= i < c.workflows.len() ==> workflow_closed(c, #[trigger] c.workflows[i]) {
        assert forall|i: int, k: int|
            0 <= i < c.workflows.len() && 0 <= k
                < c.workflows[i].artifact_ids.len() implies has_artifact(
            c,
            #[trigger] c.workflows[i].artifact_ids[k],
        ) by {
            assert(workflow_closed(c, c.workflows[i]));
            let x = c.workflows[i].artifact_ids[k];
            let n = choose|n: int| 0 <= n < c.artifact_ids().len() && c.artifact_ids()[n] == x;
            assert(c.artifacts[n].id == x);
        }
        assert forall|i: int, k: int|
            0 <= i < c.workflows.len() && 0 <= k
                < c.workflows[i].custom_node_ids.len() implies has_node(
            c,
            #[trigger] c.workflows[i].custom_node_ids[k],
        ) by {
            assert(workflow_closed(c, c.workflows[i]));
            let x = c.workflows[i].custom_node_ids[k];
            let n = choose|n: int| 0 <= n < c.node_ids().len() && c.node_ids()[n] == x;
            assert(c.custom_nodes[n].id == x);
        }
    }
}

/// A merge keeps what the two catalogs have: of every sort of entry the later one is found where it
/// has it, else the earlier one. The artifacts keep their address, path, hash, name and gate, and
/// gain only sizes.
pub proof fn merges_override_by_identifier(a: CatalogView, b: CatalogView, id: Text)
    requires
        a.problem() is None,
        b.problem() is None,
        distinct::<SystemDependency>(a.system_dependencies),
        distinct::<SystemDependency>(b.system_dependencies),
    ensures
        ({
            let r = a.joined_with(b);
            &&& found::<Package>(r.packages, id) == match found::<Package>(b.packages, id) {
                Some(x) => Some(x),
                None => found::<Package>(a.packages, id),
            }
            &&& found::<WorkflowDefinition>(r.workflows, id) == match found::<WorkflowDefinition>(
                b.workflows,
                id,
            ) {
                Some(x) => Some(x),
                None => found::<WorkflowDefinition>(a.workflows, id),
            }
            &&& found::<CustomNode>(r.custom_nodes, id) == match found::<CustomNode>(
                b.custom_nodes,
                id,
            ) {
                Some(x) => Some(x),
                None => found::<CustomNode>(a.custom_nodes, id),
            }
            &&& found::<SystemDependency>(r.system_dependencies, id) == match found::<
                SystemDependency,
            >(b.system_dependencies, id) {
                Some(x) => Some(x),
                None => found::<SystemDependency>(a.system_dependencies, id),
            }
            &&& match (
                found::<Artifact>(r.artifacts, id),
                found::<Artifact>(b.artifacts, id),
                found::<Artifact>(a.artifacts, id),
            ) {
                (Some(x), Some(y), _) => same_file(x, y),
                (Some(x), None, Some(y)) => same_file(x, y),
                (None, None, None) => true,
                _ => false,
            }
            &&& b.python_dependencies is Some ==> r.python_dependencies == b.python_dependencies
            &&& b.python_dependencies is None ==> r.python_dependencies == a.python_dependencies
        }),
{
    valid_means_sound(a);
    valid_means_sound(b);
    later_entries_override::<Package>(a.packages, b.packages, id);
    later_entries_override::<WorkflowDefinition>(a.workflows, b.workflows, id);
    later_entries_override::<CustomNode>(a.custom_nodes, b.custom_nodes, id);
    later_entries_override::<SystemDependency>(a.system_dependencies, b.system_dependencies, id);
    later_entries_override::<Artifact>(a.artifacts, b.artifacts, id);
    let m = merged::<Artifact>(a.artifacts, b.artifacts);
    enriching_keeps_files(m, id, 0);
}

/// The two artifacts are the same file: the same identifier, name, address, path, hash and gate, and
/// as many sources at the same addresses; and where the second has a size, the same.
pub open spec fn same_file(x: ArtifactView, y: ArtifactView) -> bool {
    &&& x.id == y.id
    &&& x.name == y.name
    &&& x.url == y.url
    &&& x.relative_path == y.relative_path
    &&& x.sha256 == y.sha256
    &&& x.gated == y.gated
    &&& y.size_bytes is Some ==> x.size_bytes == y.size_bytes
    &&& x.sources.len() == y.sources.len()
    &&& forall|i: int|
        0 <= i < x.sources.len() ==> (#[trigger] x.sources[i]).url == y.sources[i].url
            && x.sources[i].title == y.sources[i].title
}

proof fn enriching_keeps_files(m: Seq<ArtifactView>, id: Text, at: int)
    requires
        0 <= at <= m.len(),
    ensures
        match (
            found_from::<Artifact>(crate::catalog::enriched_artifacts(m), id, at),
            found_from::<Artifact>(m, id, at),
        ) {
            (Some(x), Some(y)) => same_file(x, y),
            (None, None) => true,
            _ => false,
        },
    decreases m.len() - at,
{
    let e = crate::catalog::enriched_artifacts(m);
    if at < m.len() {
        assert(e[at] == crate::catalog::enriched(
            m[at],
            crate::catalog::known_size(m, m[at].relative_path, m.len() as int),
        ));
        enriching_keeps_files(m, id, at + 1);
    }
}

/// An artifact that lists no source but has an address has that as its only source, with its own
/// name and size; one that lists sources keeps them, the first of them first.
pub proof fn addresses_are_the_default_sources(c: CatalogView, i: int)
    requires
        0 <= i < c.artifacts.len(),
    ensures
        ({
            let a = c.artifacts[i];
            let r = crate::catalog::normalized_catalog(c).artifacts[i];
            &&& crate::catalog::normalized_catalog(c).artifacts.len() == c.artifacts.len()
            &&& a.sources.len() > 0 ==> r == a
            &&& a.sources.len() == 0 && a.url.len() > 0 ==> r.sources.len() == 1 && r.sources[0].url
                == a.url && r.sources[0].size_bytes == a.size_bytes && r.sources[0].title == a.name
                && r.id == a.id && r.url == a.url && r.relative_path == a.relative_path && r.sha256
                == a.sha256 && r.size_bytes == a.size_bytes && r.gated == a.gated
            &&& a.sources.len() == 0 && a.url.len() == 0 ==> r == a
        }),
{
}

/// An artifact is needed by another installed package exactly where one that is on disk refers to it:
/// among its primary artifacts, its dependencies or the artifacts of its optional groups.
pub proof fn others_need_all_that_they_refer_to(
    c: CatalogView,
    artifact: Text,
    package: Text,
    present: Set<Text>,
)
    ensures
        needed_by_other(c, artifact, package, present) <==> exists|i: int|
            0 <= i < c.packages.len() && (#[trigger] c.packages[i]).id != package && on_disk(
                c,
                c.packages[i],
                present,
            ) && refers_to(c.packages[i], artifact),
{
    if exists|i: int|
        0 <= i < c.packages.len() && (#[trigger] c.packages[i]).id != package && on_disk(
            c,
            c.packages[i],
            present,
        ) && refers_to(c.packages[i], artifact) {
        let i = choose|i: int|
            0 <= i < c.packages.len() && (#[trigger] c.packages[i]).id != package && on_disk(
                c,
                c.packages[i],
                present,
            ) && refers_to(c.packages[i], artifact);
        disk_is_present(c, c.packages[i], present);
        references_are_all_that_is_listed(c.packages[i], artifact);
    }
    if needed_by_other(c, artifact, package, present) {
        let i = choose|i: int|
            0 <= i < c.packages.len() && (#[trigger] c.packages[i]).id != package && any_present(
                c,
                c.packages[i].primary_artifact_ids,
                present,
            ) && c.packages[i].artifact_refs().contains(artifact);
        disk_is_present(c, c.packages[i], present);
        references_are_all_that_is_listed(c.packages[i], artifact);
        assert(c.packages[i].id != package);
    }
}

}
