//! Packages and workflows: what is installed for them, what is recorded, and what may be removed.
use crate::catalog::{
    found, Artifact, ArtifactView, Catalog, CatalogView, CustomNode, GroupView, NodeView,
    OptionalGroup, Package, PackageView, WorkflowDefinition, WorkflowView,
};
use crate::download::{artifact_target, gib, gib_text, target_of};
use crate::ids::{ascending, IdSet};
use crate::inventory::ArtifactStatus;
use crate::json::{items_in, json_view, member, text_in, Json, JsonView};
use crate::outside::{percent_encoded, url_encode};
use crate::paths::{file_name, file_name_of, join_path, joined_path};
use crate::state::{artifact_held, node_held, ManagedInstall, ManagedState};
use crate::text::{cat2, cat3, cat4, decimal, decimal_text, has_text, same_text, Text};
use vstd::prelude::*;
use vstd::string::*;

verus! {

/// How far a package is installed.
#[derive(Clone, Copy, Debug, PartialEq, Eq, Structural)]
pub enum PackageMark {
    /// It has no files of its own and is for discovery only.
    Discovery,
    Installed,
    Partial,
    Missing,
}

impl PackageMark {
    pub open spec fn sign(self) -> Text {
        match self {
            PackageMark::Discovery => "?"@,
            PackageMark::Installed => "✓"@,
            PackageMark::Partial => "◐"@,
            PackageMark::Missing => "○"@,
        }
    }

    /// The sign that lists show.
    pub fn symbol(self) -> (r: &'static str)
        ensures
            r@ == self.sign(),
    {
        match self {
            PackageMark::Discovery => "?",
            PackageMark::Installed => "✓",
            PackageMark::Partial => "◐",
            PackageMark::Missing => "○",
        }
    }
}

/// How far a package with these primary artifacts is installed.
pub open spec fn mark_of(primary: Seq<Text>, statuses: Seq<ArtifactStatus>) -> PackageMark {
    if primary.len() == 0 {
        PackageMark::Discovery
    } else if forall|i: int|
        0 <= i < statuses.len() ==> (#[trigger] statuses[i]) is Installed {
        PackageMark::Installed
    } else if exists|i: int| 0 <= i < statuses.len() && (#[trigger] statuses[i]) is Partial {
        PackageMark::Partial
    } else {
        PackageMark::Missing
    }
}

/// How far a package is installed, given the statuses of its primary artifacts.
pub fn package_mark(package: &Package, statuses: &Vec<ArtifactStatus>) -> (r: PackageMark)
    ensures
        r == mark_of(package.deep_view().primary_artifact_ids, statuses@),
{
    if package.primary_artifact_ids.len() == 0 {
        return PackageMark::Discovery;
    }
    let mut all = true;
    let mut partial = false;
    let mut i: usize = 0;
    while i < statuses.len()
        invariant
            i <= statuses@.len(),
            all == (forall|k: int| 0 <= k < i ==> (#[trigger] statuses@[k]) is Installed),
            partial == (exists|k: int| 0 <= k < i && (#[trigger] statuses@[k]) is Partial),
        decreases statuses@.len() - i,
    {
        match statuses[i] {
            ArtifactStatus::Installed => {},
            ArtifactStatus::Partial { .. } => {
                all = false;
                partial = true;
                assert(statuses@[i as int] is Partial);
            },
            _ => {
                all = false;
                assert(!(statuses@[i as int] is Installed));
            },
        }
        i += 1;
    }
    if all {
        PackageMark::Installed
    } else if partial {
        PackageMark::Partial
    } else {
        PackageMark::Missing
    }
}

/// How an artifact's status is listed.
pub open spec fn status_words(s: ArtifactStatus) -> Text {
    match s {
        ArtifactStatus::Installed => "✓ installed"@,
        ArtifactStatus::Partial { downloaded_bytes, expected_bytes } => "◐ "@ + gib(
            downloaded_bytes,
        ) + " GiB partial"@,
        ArtifactStatus::SizeMismatch { actual, expected } => "! mismatch"@,
        ArtifactStatus::Missing => "○ missing"@,
    }
}

/// How an artifact's status is listed.
pub fn status_mark(s: ArtifactStatus) -> (r: String)
    ensures
        r@ == status_words(s),
{
    match s {
        ArtifactStatus::Installed => "✓ installed".to_owned(),
        ArtifactStatus::Partial { downloaded_bytes, .. } => {
            let n = gib_text(downloaded_bytes);
            cat3("◐ ", n.as_str(), " GiB partial")
        },
        ArtifactStatus::SizeMismatch { .. } => "! mismatch".to_owned(),
        ArtifactStatus::Missing => "○ missing".to_owned(),
    }
}

/// The first group from `at` on with the identifier.
pub open spec fn group_from(groups: Seq<GroupView>, id: Text, at: int) -> Option<GroupView>
    decreases groups.len() - at,
{
    if at < 0 || at >= groups.len() {
        None
    } else if groups[at].id == id {
        Some(groups[at])
    } else {
        group_from(groups, id, at + 1)
    }
}

fn find_group<'a>(groups: &'a Vec<OptionalGroup>, id: &str) -> (r: Option<&'a OptionalGroup>)
    ensures
        (match r {
            Some(g) => Some(g.deep_view()),
            None => None,
        }) == group_from(groups.deep_view(), id@, 0),
{
    let ghost all = groups.deep_view();
    let mut i: usize = 0;
    while i < groups.len()
        invariant
            i <= groups@.len(),
            all == groups.deep_view(),
            group_from(all, id@, 0) == group_from(all, id@, i as int),
        decreases groups@.len() - i,
    {
        assert(all[i as int] == groups@[i as int].deep_view());
        if same_text(groups[i].id.as_str(), id) {
            return Some(&groups[i]);
        }
        i += 1;
    }
    None
}

/// The first of the chosen groups, from `at` on, that the package does not have.
pub open spec fn unknown_group(groups: Seq<GroupView>, chosen: Seq<Text>, at: int) -> Option<Text>
    decreases chosen.len() - at,
{
    if at < 0 || at >= chosen.len() {
        None
    } else if group_from(groups, chosen[at], 0) is None {
        Some(chosen[at])
    } else {
        unknown_group(groups, chosen, at + 1)
    }
}

/// The artifacts of the first `end` chosen groups.
pub open spec fn chosen_artifacts(groups: Seq<GroupView>, chosen: Seq<Text>, end: int) -> Set<Text>
    decreases end,
{
    if end <= 0 {
        Set::empty()
    } else {
        let rest = chosen_artifacts(groups, chosen, end - 1);
        match group_from(groups, chosen[end - 1], 0) {
            Some(g) => rest.union(g.artifact_ids.to_set()),
            None => rest,
        }
    }
}

/// The custom nodes of the first `end` chosen groups.
pub open spec fn chosen_nodes(groups: Seq<GroupView>, chosen: Seq<Text>, end: int) -> Set<Text>
    decreases end,
{
    if end <= 0 {
        Set::empty()
    } else {
        let rest = chosen_nodes(groups, chosen, end - 1);
        match group_from(groups, chosen[end - 1], 0) {
            Some(g) => rest.union(g.custom_node_ids.to_set()),
            None => rest,
        }
    }
}

/// What is installed for a package.
pub struct InstallPlan {
    pub package_id: String,
    pub name: String,
    pub artifact_ids: IdSet,
    pub node_ids: IdSet,
}

/// The refusal of a package's installation, where it is refused.
pub open spec fn install_problem(c: CatalogView, id: Text, chosen: Seq<Text>) -> Option<Text> {
    match found::<Package>(c.packages, id) {
        None => Some("unknown package "@ + id),
        Some(p) => if p.primary_artifact_ids.len() == 0 {
            Some(
                p.name + " is discovery-only; use `comfybox models discover "@
                    + (match p.discover_query {
                    Some(q) => q,
                    None => p.id,
                }) + "` until a verified manifest is added"@,
            )
        } else {
            match unknown_group(p.optional_groups, chosen, 0) {
                Some(g) => Some("unknown optional group "@ + g),
                None => None,
            }
        },
    }
}

/// The artifacts that are installed for a package.
pub open spec fn planned_artifacts(p: PackageView, with_deps: bool, chosen: Seq<Text>) -> Set<Text> {
    let own = p.primary_artifact_ids.to_set();
    let base = if with_deps {
        own.union(p.dependency_artifact_ids.to_set())
    } else {
        own
    };
    base.union(chosen_artifacts(p.optional_groups, chosen, chosen.len() as int))
}

/// The custom nodes that are installed for a package.
pub open spec fn planned_nodes(p: PackageView, chosen: Seq<Text>) -> Set<Text> {
    p.custom_node_ids.to_set().union(
        chosen_nodes(p.optional_groups, chosen, chosen.len() as int),
    )
}

/// What is installed for the package `id`: its primary artifacts, its dependencies where they are
/// wanted, and the chosen optional groups, each artifact once in ascending order.
pub fn plan_package(catalog: &Catalog, id: &str, with_deps: bool, optional: &Vec<String>) -> (r: Result<
    InstallPlan,
    String,
>)
    ensures
        match install_problem(catalog.deep_view(), id@, optional.deep_view()) {
            Some(m) => r matches Err(e) && e@ == m,
            None => r matches Ok(plan) && (found::<Package>(
                catalog.deep_view().packages,
                id@,
            ) matches Some(p) && plan.package_id@ == p.id && plan.name@ == p.name
                && plan.artifact_ids@ == planned_artifacts(p, with_deps, optional.deep_view())
                && plan.node_ids@ == planned_nodes(p, optional.deep_view())),
        },
{
    let p = match catalog.package(id) {
        None => {
            return Err(cat2("unknown package ", id));
        },
        Some(p) => p,
    };
    let ghost view = p.deep_view();
    if p.primary_artifact_ids.len() == 0 {
        let query = match &p.discover_query {
            Some(q) => q.as_str(),
            None => p.id.as_str(),
        };
        return Err(
            cat4(
                p.name.as_str(),
                " is discovery-only; use `comfybox models discover ",
                query,
                "` until a verified manifest is added",
            ),
        );
    }
    let mut artifact_ids = IdSet::from_texts(&p.primary_artifact_ids);
    if with_deps {
        artifact_ids.extend(&p.dependency_artifact_ids);
    }
    let mut node_ids = IdSet::from_texts(&p.custom_node_ids);
    let ghost chosen = optional.deep_view();
    let ghost base = artifact_ids@;
    let ghost nodes = node_ids@;
    let mut i: usize = 0;
    assert(artifact_ids@ =~= base.union(chosen_artifacts(view.optional_groups, chosen, 0)));
    assert(node_ids@ =~= nodes.union(chosen_nodes(view.optional_groups, chosen, 0)));
    while i < optional.len()
        invariant
            i <= optional@.len(),
            chosen == optional.deep_view(),
            view == p.deep_view(),
            view.primary_artifact_ids.len() > 0,
            found::<Package>(catalog.deep_view().packages, id@) == Some(view),
            unknown_group(view.optional_groups, chosen, 0) == unknown_group(
                view.optional_groups,
                chosen,
                i as int,
            ),
            artifact_ids@ == base.union(chosen_artifacts(view.optional_groups, chosen, i as int)),
            node_ids@ == nodes.union(chosen_nodes(view.optional_groups, chosen, i as int)),
        decreases optional@.len() - i,
    {
        assert(chosen[i as int] == optional@[i as int]@);
        match find_group(&p.optional_groups, optional[i].as_str()) {
            None => {
                return Err(cat2("unknown optional group ", optional[i].as_str()));
            },
            Some(g) => {
                artifact_ids.extend(&g.artifact_ids);
                node_ids.extend(&g.custom_node_ids);
                assert(artifact_ids@ =~= base.union(
                    chosen_artifacts(view.optional_groups, chosen, i + 1),
                ));
                assert(node_ids@ =~= nodes.union(
                    chosen_nodes(view.optional_groups, chosen, i + 1),
                ));
            },
        }
        i += 1;
    }
    Ok(InstallPlan { package_id: p.id.clone(), name: p.name.clone(), artifact_ids, node_ids })
}

/// `after` is `before` with what was installed for `id` in place of what was recorded for it.
pub open spec fn noted(
    before: Map<Text, ManagedInstall>,
    after: Map<Text, ManagedInstall>,
    id: Text,
    artifacts: Set<Text>,
    nodes: Set<Text>,
) -> bool {
    &&& after.dom() == before.dom().insert(id)
    &&& after[id].artifact_ids@ == artifacts
    &&& after[id].custom_node_ids@ == nodes
    &&& forall|k: Text| k != id && before.contains_key(k) ==> #[trigger] after[k] == before[k]
}

/// Records what was installed for a package.
pub fn record_package(state: &mut ManagedState, plan: InstallPlan)
    ensures
        noted(
            old(state).packages@,
            final(state).packages@,
            plan.package_id@,
            plan.artifact_ids@,
            plan.node_ids@,
        ),
        final(state).workflows == old(state).workflows,
        final(state).comfy_pid == old(state).comfy_pid,
        final(state).comfy_log == old(state).comfy_log,
{
    let install = ManagedInstall {
        artifact_ids: plan.artifact_ids,
        custom_node_ids: plan.node_ids,
    };
    state.packages.insert(plan.package_id, install);
    assert(state.packages@.dom() =~= old(state).packages@.dom().insert(plan.package_id@));
}

/// Records what was installed for a workflow.
pub fn record_workflow(state: &mut ManagedState, workflow: &WorkflowDefinition, id: &str)
    ensures
        noted(
            old(state).workflows@,
            final(state).workflows@,
            id@,
            workflow.deep_view().artifact_ids.to_set(),
            workflow.deep_view().custom_node_ids.to_set(),
        ),
        final(state).packages == old(state).packages,
        final(state).comfy_pid == old(state).comfy_pid,
        final(state).comfy_log == old(state).comfy_log,
{
    let install = ManagedInstall {
        artifact_ids: IdSet::from_texts(&workflow.artifact_ids),
        custom_node_ids: IdSet::from_texts(&workflow.custom_node_ids),
    };
    state.workflows.insert(id.to_owned(), install);
    assert(state.workflows@.dom() =~= old(state).workflows@.dom().insert(id@));
}

/// The artifacts that the removal of a package looks at: those recorded for it, or its primary
/// ones; without its dependencies, only the primary ones of them.
pub open spec fn removal_candidates(
    p: PackageView,
    recorded: Option<Set<Text>>,
    with_deps: bool,
) -> Set<Text> {
    let primary = p.primary_artifact_ids.to_set();
    let all = match recorded {
        Some(s) => s,
        None => primary,
    };
    if with_deps {
        all
    } else {
        all.intersect(primary)
    }
}

/// What is recorded for a package.
pub open spec fn recorded_artifacts(state: ManagedState, id: Text) -> Option<Set<Text>> {
    if state.packages@.contains_key(id) {
        Some(state.packages@[id].artifact_ids@)
    } else {
        None
    }
}

fn intersection(a: &IdSet, b: &Vec<String>) -> (r: IdSet)
    ensures
        r@ == a@.intersect(b.deep_view().to_set()),
{
    let ghost all = b.deep_view();
    let mut out = IdSet::new();
    let mut i: usize = 0;
    assert(out@ =~= a@.intersect(all.take(0).to_set()));
    while i < b.len()
        invariant
            i <= b@.len(),
            all == b.deep_view(),
            out@ == a@.intersect(all.take(i as int).to_set()),
        decreases b@.len() - i,
    {
        assert(all[i as int] == b@[i as int]@);
        if a.contains(b[i].as_str()) {
            out.insert(b[i].clone());
        }
        proof {
            crate::ids::take_one_more(all, i as int);
            assert(out@ =~= a@.intersect(all.take(i + 1).to_set()));
        }
        i += 1;
    }
    assert(all.take(all.len() as int) =~= all);
    out
}

/// The artifacts that the removal of the package `id` looks at.
pub fn removal_ids(catalog: &Catalog, state: &ManagedState, id: &str, with_deps: bool) -> (r: Result<
    IdSet,
    String,
>)
    ensures
        match found::<Package>(catalog.deep_view().packages, id@) {
            None => r matches Err(m) && m@ == "unknown package "@ + id@,
            Some(p) => r matches Ok(s) && s@ == removal_candidates(
                p,
                recorded_artifacts(*state, id@),
                with_deps,
            ),
        },
{
    let p = match catalog.package(id) {
        None => {
            return Err(cat2("unknown package ", id));
        },
        Some(p) => p,
    };
    let all = match state.packages.get(id) {
        Some(r) => r.artifact_ids.clone(),
        None => IdSet::from_texts(&p.primary_artifact_ids),
    };
    if with_deps {
        Ok(all)
    } else {
        Ok(intersection(&all, &p.primary_artifact_ids))
    }
}

/// Some of the artifacts from `at` on is known and present.
pub open spec fn any_present(c: CatalogView, ids: Seq<Text>, present: Set<Text>) -> bool {
    exists|i: int|
        0 <= i < ids.len() && found::<Artifact>(c.artifacts, #[trigger] ids[i]) is Some
            && present.contains(ids[i])
}

/// A package other than `except` refers to the artifact, and one of its primary artifacts is on
/// disk.
pub open spec fn needed_by_other(
    c: CatalogView,
    artifact: Text,
    except: Text,
    present: Set<Text>,
) -> bool {
    exists|i: int|
        0 <= i < c.packages.len() && (#[trigger] c.packages[i]).id != except && any_present(
            c,
            c.packages[i].primary_artifact_ids,
            present,
        ) && c.packages[i].artifact_refs().contains(artifact)
}

fn has_present(catalog: &Catalog, ids: &Vec<String>, present: &IdSet) -> (r: bool)
    ensures
        r == any_present(catalog.deep_view(), ids.deep_view(), present@),
{
    let ghost all = ids.deep_view();
    let mut i: usize = 0;
    while i < ids.len()
        invariant
            i <= ids@.len(),
            all == ids.deep_view(),
            forall|k: int|
                0 <= k < i ==> !(found::<Artifact>(
                    catalog.deep_view().artifacts,
                    #[trigger] all[k],
                ) is Some && present@.contains(all[k])),
        decreases ids@.len() - i,
    {
        assert(all[i as int] == ids@[i as int]@);
        if catalog.artifact(ids[i].as_str()).is_some() && present.contains(ids[i].as_str()) {
            return true;
        }
        i += 1;
    }
    false
}

/// Whether a package other than `except_id` of which a primary artifact is on disk refers to the
/// artifact. `present` holds the artifacts whose files are there.
pub fn catalog_artifact_needed_by_other_installed_package(
    catalog: &Catalog,
    artifact_id: &str,
    except_id: &str,
    present: &IdSet,
) -> (r: bool)
    ensures
        r == needed_by_other(catalog.deep_view(), artifact_id@, except_id@, present@),
{
    let ghost c = catalog.deep_view();
    let mut i: usize = 0;
    while i < catalog.packages.len()
        invariant
            i <= catalog.packages@.len(),
            c == catalog.deep_view(),
            forall|k: int|
                0 <= k < i ==> !((#[trigger] c.packages[k]).id != except_id@ && any_present(
                    c,
                    c.packages[k].primary_artifact_ids,
                    present@,
                ) && c.packages[k].artifact_refs().contains(artifact_id@)),
        decreases catalog.packages@.len() - i,
    {
        let p = &catalog.packages[i];
        assert(c.packages[i as int] == p.deep_view());
        if !same_text(p.id.as_str(), except_id) && has_present(
            catalog,
            &p.primary_artifact_ids,
            present,
        ) {
            let refs = p.artifact_refs();
            if has_text(&refs, artifact_id) {
                return true;
            }
        }
        i += 1;
    }
    false
}

/// What a removal does with a file.
pub enum RemovalStep {
    /// Something else needs it.
    Keep,
    /// It is removed, where it is there.
    Remove { path: String },
    /// The catalog does not know it.
    Nothing,
}

/// What a [`RemovalStep`] holds.
pub enum RemovalStepView {
    Keep,
    Remove { path: Text },
    Nothing,
}

impl DeepView for RemovalStep {
    type V = RemovalStepView;

    open spec fn deep_view(&self) -> RemovalStepView {
        match self {
            RemovalStep::Keep => RemovalStepView::Keep,
            RemovalStep::Remove { path } => RemovalStepView::Remove { path: path@ },
            RemovalStep::Nothing => RemovalStepView::Nothing,
        }
    }
}

/// The artifact is held by another package or by a workflow.
pub open spec fn shared_artifact(state: ManagedState, artifact: Text, package: Option<Text>) -> bool {
    artifact_held(state.packages@, artifact, package) || artifact_held(
        state.workflows@,
        artifact,
        None,
    )
}

/// The custom node is held by another package or by a workflow.
pub open spec fn shared_node(state: ManagedState, node: Text, package: Option<Text>) -> bool {
    node_held(state.packages@, node, package) || node_held(state.workflows@, node, None)
}

/// What becomes of a file that nothing needs.
pub open spec fn delete_artifact(
    windows: bool,
    c: CatalogView,
    root: Text,
    artifact: Text,
) -> RemovalStepView {
    match found::<Artifact>(c.artifacts, artifact) {
        Some(a) => RemovalStepView::Remove { path: target_of(windows, root, a) },
        None => RemovalStepView::Nothing,
    }
}

/// What the removal of a package does with an artifact: one that another package or a workflow holds
/// is kept, and so is one that another installed package of the catalog refers to.
pub open spec fn package_artifact_step(
    windows: bool,
    c: CatalogView,
    state: ManagedState,
    root: Text,
    artifact: Text,
    package: Text,
    present: Set<Text>,
) -> RemovalStepView {
    if shared_artifact(state, artifact, Some(package)) || needed_by_other(
        c,
        artifact,
        package,
        present,
    ) {
        RemovalStepView::Keep
    } else {
        delete_artifact(windows, c, root, artifact)
    }
}

fn delete_step(windows: bool, catalog: &Catalog, root: &str, artifact_id: &str) -> (r: RemovalStep)
    ensures
        r.deep_view() == delete_artifact(windows, catalog.deep_view(), root@, artifact_id@),
{
    match catalog.artifact(artifact_id) {
        Some(a) => RemovalStep::Remove { path: artifact_target(windows, root, a) },
        None => RemovalStep::Nothing,
    }
}

/// What the removal of a package does with one of its artifacts: one that another package or a
/// workflow needs is kept, whether or not the dependencies are removed too.
pub fn remove_package_artifact(
    catalog: &Catalog,
    state: &ManagedState,
    root: &str,
    artifact_id: &str,
    package_id: &str,
    present: &IdSet,
    windows: bool,
) -> (r: RemovalStep)
    ensures
        r.deep_view() == package_artifact_step(
            windows,
            catalog.deep_view(),
            *state,
            root@,
            artifact_id@,
            package_id@,
            present@,
        ),
{
    if state.artifact_referenced_elsewhere(artifact_id, Some(package_id), None)
        || catalog_artifact_needed_by_other_installed_package(
        catalog,
        artifact_id,
        package_id,
        present,
    ) {
        RemovalStep::Keep
    } else {
        delete_step(windows, catalog, root, artifact_id)
    }
}

/// What the removal of a package with its dependencies does with a custom node.
pub open spec fn package_node_step(
    windows: bool,
    c: CatalogView,
    state: ManagedState,
    root: Text,
    node: Text,
    package: Text,
) -> RemovalStepView {
    if shared_node(state, node, Some(package)) {
        RemovalStepView::Keep
    } else {
        match found::<CustomNode>(c.custom_nodes, node) {
            Some(n) => RemovalStepView::Remove {
                path: joined_path(
                    windows,
                    joined_path(windows, root, "custom_nodes"@),
                    n.folder_name,
                ),
            },
            None => RemovalStepView::Nothing,
        }
    }
}

/// What the removal of a package with its dependencies does with one of its custom nodes.
pub fn remove_package_node(
    catalog: &Catalog,
    state: &ManagedState,
    root: &str,
    node_id: &str,
    package_id: &str,
    windows: bool,
) -> (r: RemovalStep)
    ensures
        r.deep_view() == package_node_step(
            windows,
            catalog.deep_view(),
            *state,
            root@,
            node_id@,
            package_id@,
        ),
{
    if state.custom_node_referenced_elsewhere(node_id, Some(package_id), None) {
        return RemovalStep::Keep;
    }
    match catalog.custom_node(node_id) {
        Some(n) => {
            let base = join_path(windows, root, "custom_nodes");
            RemovalStep::Remove { path: join_path(windows, base.as_str(), n.folder_name.as_str()) }
        },
        None => RemovalStep::Nothing,
    }
}

/// Forgets a package.
pub fn forget_package(state: &mut ManagedState, id: &str)
    ensures
        final(state).packages@ == old(state).packages@.remove(id@),
        final(state).workflows == old(state).workflows,
        final(state).comfy_pid == old(state).comfy_pid,
        final(state).comfy_log == old(state).comfy_log,
{
    state.packages.remove(id);
}

/// What the removal of a workflow's dependencies does with an artifact.
pub open spec fn workflow_artifact_step(
    windows: bool,
    c: CatalogView,
    state: ManagedState,
    root: Text,
    artifact: Text,
) -> RemovalStepView {
    if shared_artifact(state, artifact, None) {
        RemovalStepView::Keep
    } else {
        delete_artifact(windows, c, root, artifact)
    }
}

/// What the removal of a workflow's dependencies does with an artifact: one that anything recorded
/// needs is kept.
pub fn remove_workflow_artifact(
    catalog: &Catalog,
    state: &ManagedState,
    root: &str,
    artifact_id: &str,
    windows: bool,
) -> (r: RemovalStep)
    ensures
        r.deep_view() == workflow_artifact_step(
            windows,
            catalog.deep_view(),
            *state,
            root@,
            artifact_id@,
        ),
{
    if state.artifact_referenced_elsewhere(artifact_id, None, None) {
        RemovalStep::Keep
    } else {
        delete_step(windows, catalog, root, artifact_id)
    }
}

/// The artifacts with the identifiers, in order, or the first identifier that is unknown.
pub open spec fn artifacts_for(c: CatalogView, ids: Seq<Text>, end: int) -> Result<
    Seq<ArtifactView>,
    Text,
>
    decreases end,
{
    if end <= 0 {
        Ok(Seq::empty())
    } else {
        match artifacts_for(c, ids, end - 1) {
            Err(e) => Err(e),
            Ok(rest) => match found::<Artifact>(c.artifacts, ids[end - 1]) {
                Some(a) => Ok(rest.push(a)),
                None => Err("unknown artifact "@ + ids[end - 1]),
            },
        }
    }
}

/// The custom nodes with the identifiers, in order, or the first identifier that is unknown.
pub open spec fn nodes_for(c: CatalogView, ids: Seq<Text>, end: int) -> Result<Seq<NodeView>, Text>
    decreases end,
{
    if end <= 0 {
        Ok(Seq::empty())
    } else {
        match nodes_for(c, ids, end - 1) {
            Err(e) => Err(e),
            Ok(rest) => match found::<CustomNode>(c.custom_nodes, ids[end - 1]) {
                Some(n) => Ok(rest.push(n)),
                None => Err("unknown custom node "@ + ids[end - 1]),
            },
        }
    }
}

proof fn artifacts_for_fails(c: CatalogView, ids: Seq<Text>, at: int, end: int)
    requires
        0 <= at <= end <= ids.len(),
        artifacts_for(c, ids, at) is Err,
    ensures
        artifacts_for(c, ids, end) == artifacts_for(c, ids, at),
    decreases end - at,
{
    if at < end {
        artifacts_for_fails(c, ids, at, end - 1);
    }
}

proof fn nodes_for_fails(c: CatalogView, ids: Seq<Text>, at: int, end: int)
    requires
        0 <= at <= end <= ids.len(),
        nodes_for(c, ids, at) is Err,
    ensures
        nodes_for(c, ids, end) == nodes_for(c, ids, at),
    decreases end - at,
{
    if at < end {
        nodes_for_fails(c, ids, at, end - 1);
    }
}

/// Copies of the artifacts with the identifiers, in order.
pub fn artifacts_named(catalog: &Catalog, ids: &Vec<String>) -> (r: Result<Vec<Artifact>, String>)
    ensures
        match r {
            Ok(v) => artifacts_for(catalog.deep_view(), ids.deep_view(), ids@.len() as int) == Ok::<
                Seq<ArtifactView>,
                Text,
            >(v.deep_view()),
            Err(m) => artifacts_for(catalog.deep_view(), ids.deep_view(), ids@.len() as int)
                == Err::<Seq<ArtifactView>, Text>(m@),
        },
{
    let ghost c = catalog.deep_view();
    let ghost all = ids.deep_view();
    let mut out: Vec<Artifact> = Vec::new();
    let mut i: usize = 0;
    assert(out.deep_view() =~= Seq::empty());
    while i < ids.len()
        invariant
            i <= ids@.len(),
            c == catalog.deep_view(),
            all == ids.deep_view(),
            artifacts_for(c, all, i as int) == Ok::<Seq<ArtifactView>, Text>(out.deep_view()),
        decreases ids@.len() - i,
    {
        assert(all[i as int] == ids@[i as int]@);
        match catalog.artifact(ids[i].as_str()) {
            Some(a) => {
                let ghost before = out.deep_view();
                let copied = a.copy();
                let ghost view = copied.deep_view();
                out.push(copied);
                assert(out.deep_view() =~= before.push(view));
            },
            None => {
                proof {
                    artifacts_for_fails(c, all, i + 1, all.len() as int);
                }
                return Err(cat2("unknown artifact ", ids[i].as_str()));
            },
        }
        i += 1;
    }
    Ok(out)
}

/// Copies of the custom nodes with the identifiers, in order.
pub fn nodes_named(catalog: &Catalog, ids: &Vec<String>) -> (r: Result<Vec<CustomNode>, String>)
    ensures
        match r {
            Ok(v) => nodes_for(catalog.deep_view(), ids.deep_view(), ids@.len() as int) == Ok::<
                Seq<NodeView>,
                Text,
            >(v.deep_view()),
            Err(m) => nodes_for(catalog.deep_view(), ids.deep_view(), ids@.len() as int) == Err::<
                Seq<NodeView>,
                Text,
            >(m@),
        },
{
    let ghost c = catalog.deep_view();
    let ghost all = ids.deep_view();
    let mut out: Vec<CustomNode> = Vec::new();
    let mut i: usize = 0;
    assert(out.deep_view() =~= Seq::empty());
    while i < ids.len()
        invariant
            i <= ids@.len(),
            c == catalog.deep_view(),
            all == ids.deep_view(),
            nodes_for(c, all, i as int) == Ok::<Seq<NodeView>, Text>(out.deep_view()),
        decreases ids@.len() - i,
    {
        assert(all[i as int] == ids@[i as int]@);
        match catalog.custom_node(ids[i].as_str()) {
            Some(n) => {
                let ghost before = out.deep_view();
                let copied = n.copy();
                let ghost view = copied.deep_view();
                out.push(copied);
                assert(out.deep_view() =~= before.push(view));
            },
            None => {
                proof {
                    nodes_for_fails(c, all, i + 1, all.len() as int);
                }
                return Err(cat2("unknown custom node ", ids[i].as_str()));
            },
        }
        i += 1;
    }
    Ok(out)
}

/// The directory that workflow files go to.
pub open spec fn workflows_dir(windows: bool, root: Text) -> Text {
    joined_path(windows, root, "user/default/workflows"@)
}

/// Where a workflow's file goes.
pub open spec fn workflow_target_of(windows: bool, root: Text, w: WorkflowView) -> Text {
    joined_path(
        windows,
        workflows_dir(windows, root),
        match file_name_of(windows, w.file) {
            Some(n) => n,
            None => Seq::empty(),
        },
    )
}

/// The directory that workflow files go to, and where a workflow's file goes.
pub fn workflow_target(root: &str, workflow: &WorkflowDefinition, windows: bool) -> (r: (
    String,
    String,
))
    ensures
        r.0@ == workflows_dir(windows, root@),
        r.1@ == workflow_target_of(windows, root@, workflow.deep_view()),
{
    let dir = join_path(windows, root, "user/default/workflows");
    let name = match file_name(windows, workflow.file.as_str()) {
        Some(n) => n,
        None => String::new(),
    };
    let target = join_path(windows, dir.as_str(), name.as_str());
    (dir, target)
}

/// The workflow `id`, or an error that says that it is unknown.
pub fn require_workflow<'a>(catalog: &'a Catalog, id: &str) -> (r: Result<
    &'a WorkflowDefinition,
    String,
>)
    ensures
        match found::<WorkflowDefinition>(catalog.deep_view().workflows, id@) {
            Some(w) => r matches Ok(x) && x.deep_view() == w,
            None => r matches Err(m) && m@ == "unknown workflow "@ + id@,
        },
{
    match catalog.workflow(id) {
        Some(w) => Ok(w),
        None => Err(cat2("unknown workflow ", id)),
    }
}

/// Where a search for models on Hugging Face is sent.
pub open spec fn search_address(query: Text, limit: usize) -> Text {
    "https://huggingface.co/api/models?search="@ + percent_encoded(
        vstd::utf8::encode_utf8(query),
    ) + "&limit="@ + decimal(limit as nat)
}

/// Where a search for models on Hugging Face is sent.
pub fn discover_url(query: &str, limit: usize) -> (r: String)
    ensures
        r@ == search_address(query@, limit),
{
    let q = url_encode(query);
    let n = decimal_text(limit as u64);
    cat4("https://huggingface.co/api/models?search=", q.as_str(), "&limit=", n.as_str())
}

/// The identifiers of the entries from `at` on.
pub open spec fn ids_from(items: Seq<JsonView>, at: int) -> Seq<Text>
    decreases items.len() - at,
{
    if at < 0 || at >= items.len() {
        Seq::empty()
    } else {
        let rest = ids_from(items, at + 1);
        match text_in(member(items[at], "id"@)) {
            Some(id) => seq![id] + rest,
            None => rest,
        }
    }
}

/// The models that a reply to a search lists.
pub open spec fn models_in(reply: JsonView) -> Seq<Text> {
    match items_in(Some(reply)) {
        Some(items) => ids_from(items, 0),
        None => Seq::empty(),
    }
}

/// The models that a reply to a search lists.
pub fn discovered_models(reply: &Json) -> (r: Vec<String>)
    ensures
        r.deep_view() == models_in(json_view(*reply)),
{
    let mut out: Vec<String> = Vec::new();
    assert(out.deep_view() =~= Seq::empty());
    match reply.as_array() {
        None => out,
        Some(items) => {
            let ghost views = crate::json::json_items(items@);
            let mut i: usize = 0;
            assert(out.deep_view() + ids_from(views, 0) =~= ids_from(views, 0));
            while i < items.len()
                invariant
                    i <= items@.len(),
                    views == crate::json::json_items(items@),
                    out.deep_view() + ids_from(views, i as int) == ids_from(views, 0),
                decreases items@.len() - i,
            {
                let ghost before = out.deep_view();
                assert(views[i as int] == json_view(items@[i as int]));
                if let Some(id) = items[i].get("id") {
                    if let Some(s) = id.as_str() {
                        out.push(s.clone());
                        assert(out.deep_view() =~= before.push(s@));
                        assert(out.deep_view() + ids_from(views, i + 1) =~= before + ids_from(
                            views,
                            i as int,
                        ));
                    }
                }
                i += 1;
            }
            assert(out.deep_view() =~= ids_from(views, 0));
            out
        },
    }
}

/// The models that the body of a reply to a search lists; an error where it is no JSON.
pub fn read_discovered_models(raw: &str) -> (r: Result<Vec<String>, String>)
    ensures
        match crate::json::json_text_value(raw@) {
            Ok(v) => r matches Ok(ids) && ids.deep_view() == models_in(v),
            Err(m) => r matches Err(e) && e@ == m,
        },
{
    match crate::json::parse_json(raw) {
        Ok(reply) => Ok(discovered_models(&reply)),
        Err(m) => Err(m),
    }
}

}
