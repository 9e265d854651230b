//! How artifacts, packages and workflows fare: what is ready, missing, paused, broken or blocked.
use crate::catalog::{
    found, Artifact, ArtifactView, Catalog, CatalogView, CustomNode, Package, PackageView,
    WorkflowDefinition, WorkflowView,
};
use crate::ids::{IdMap, IdSet};
use crate::inventory::ArtifactStatus;
use crate::node_runtime::{equivalent_from, find_equivalent_node_folder};
use crate::size::{format_human_size, human_size};
use crate::steps::{DirEntry, EntryView};
use crate::text::{cat4, clone_texts, decimal, decimal_text, push_all, Text};
use vstd::prelude::*;
use vstd::string::*;

verus! {

/// How something fares.
#[derive(Clone, Copy, Debug, PartialEq, Eq, Structural)]
pub enum Health {
    Ready,
    Missing,
    Paused,
    Broken,
    /// A token is needed.
    Blocked,
    Discovery,
}

/// A colour of the dashboard.
#[derive(Clone, Copy, Debug, PartialEq, Eq, Structural)]
pub enum Tone {
    Plain,
    White,
    Accent,
    Green,
    Yellow,
    Red,
    Muted,
    /// Black on the accent colour.
    Chosen,
}

impl Health {
    pub open spec fn words(self) -> Text {
        match self {
            Health::Ready => "READY"@,
            Health::Missing => "MISSING"@,
            Health::Paused => "PAUSED"@,
            Health::Broken => "BROKEN"@,
            Health::Blocked => "TOKEN"@,
            Health::Discovery => "DISCOVER"@,
        }
    }

    pub open spec fn tone(self) -> Tone {
        match self {
            Health::Ready => Tone::Green,
            Health::Missing => Tone::Muted,
            Health::Paused => Tone::Yellow,
            Health::Broken => Tone::Red,
            Health::Blocked => Tone::Yellow,
            Health::Discovery => Tone::Accent,
        }
    }

    /// Recovery comes first: the lower, the more it needs attention.
    pub open spec fn rank(self) -> usize {
        match self {
            Health::Broken => 0,
            Health::Paused => 1,
            Health::Blocked => 2,
            Health::Missing => 3,
            Health::Ready => 4,
            Health::Discovery => 5,
        }
    }

    /// The word that lists show.
    pub fn label(self) -> (r: &'static str)
        ensures
            r@ == self.words(),
    {
        match self {
            Health::Ready => "READY",
            Health::Missing => "MISSING",
            Health::Paused => "PAUSED",
            Health::Broken => "BROKEN",
            Health::Blocked => "TOKEN",
            Health::Discovery => "DISCOVER",
        }
    }

    /// The colour that lists show it in.
    pub fn color(self) -> (r: Tone)
        ensures
            r == self.tone(),
    {
        match self {
            Health::Ready => Tone::Green,
            Health::Missing => Tone::Muted,
            Health::Paused => Tone::Yellow,
            Health::Broken => Tone::Red,
            Health::Blocked => Tone::Yellow,
            Health::Discovery => Tone::Accent,
        }
    }
}

/// How much something needs attention: the lower, the more.
pub fn health_rank(health: Health) -> (r: usize)
    ensures
        r == health.rank(),
{
    match health {
        Health::Broken => 0,
        Health::Paused => 1,
        Health::Blocked => 2,
        Health::Missing => 3,
        Health::Ready => 4,
        Health::Discovery => 5,
    }
}

/// The one of the two that needs more attention.
pub open spec fn worse(left: Health, right: Health) -> Health {
    if left.rank() <= right.rank() {
        left
    } else {
        right
    }
}

/// The one of the two that needs more attention.
pub fn worse_health(left: Health, right: Health) -> (r: Health)
    ensures
        r == worse(left, right),
{
    if health_rank(left) <= health_rank(right) {
        left
    } else {
        right
    }
}

/// The health of an artifact on disk.
pub open spec fn health_of(s: ArtifactStatus) -> Health {
    match s {
        ArtifactStatus::Installed => Health::Ready,
        ArtifactStatus::Missing => Health::Missing,
        ArtifactStatus::Partial { downloaded_bytes, expected_bytes } => Health::Paused,
        ArtifactStatus::SizeMismatch { actual, expected } => Health::Broken,
    }
}

fn status_health(s: ArtifactStatus) -> (r: Health)
    ensures
        r == health_of(s),
{
    match s {
        ArtifactStatus::Installed => Health::Ready,
        ArtifactStatus::Missing => Health::Missing,
        ArtifactStatus::Partial { .. } => Health::Paused,
        ArtifactStatus::SizeMismatch { .. } => Health::Broken,
    }
}

/// The health of every artifact, and how many have which.
pub struct ArtifactHealthSnapshot {
    pub ready: usize,
    pub missing: usize,
    pub paused: usize,
    pub broken: usize,
    pub by_id: IdMap<Health>,
}

/// What an [`ArtifactHealthSnapshot`] holds.
pub struct HealthView {
    pub ready: int,
    pub missing: int,
    pub paused: int,
    pub broken: int,
    pub by_id: Map<Text, Health>,
}

impl DeepView for ArtifactHealthSnapshot {
    type V = HealthView;

    open spec fn deep_view(&self) -> HealthView {
        HealthView {
            ready: self.ready as int,
            missing: self.missing as int,
            paused: self.paused as int,
            broken: self.broken as int,
            by_id: self.by_id@,
        }
    }
}

/// The snapshot of the first `end` artifacts.
pub open spec fn surveyed(arts: Seq<ArtifactView>, statuses: Seq<ArtifactStatus>, end: int) -> HealthView
    decreases end,
{
    if end <= 0 {
        HealthView { ready: 0, missing: 0, paused: 0, broken: 0, by_id: Map::empty() }
    } else {
        let rest = surveyed(arts, statuses, end - 1);
        let health = health_of(statuses[end - 1]);
        let rest = HealthView { by_id: rest.by_id.insert(arts[end - 1].id, health), ..rest };
        match health {
            Health::Ready => HealthView { ready: rest.ready + 1, ..rest },
            Health::Missing => HealthView { missing: rest.missing + 1, ..rest },
            Health::Paused => HealthView { paused: rest.paused + 1, ..rest },
            _ => HealthView { broken: rest.broken + 1, ..rest },
        }
    }
}

/// The health of the artifacts of the catalog, given their statuses in order; nothing is known
/// without a valid installation.
pub fn collect_artifact_health(
    root_valid: bool,
    catalog: &Catalog,
    statuses: &Vec<ArtifactStatus>,
) -> (r: ArtifactHealthSnapshot)
    requires
        root_valid ==> statuses@.len() == catalog.artifacts@.len(),
    ensures
        r.deep_view() == surveyed(
            catalog.deep_view().artifacts,
            statuses@,
            if root_valid {
                catalog.artifacts@.len() as int
            } else {
                0
            },
        ),
{
    let mut snapshot = ArtifactHealthSnapshot {
        ready: 0,
        missing: 0,
        paused: 0,
        broken: 0,
        by_id: IdMap::new(),
    };
    if !root_valid {
        return snapshot;
    }
    let ghost arts = catalog.deep_view().artifacts;
    let mut i: usize = 0;
    while i < catalog.artifacts.len()
        invariant
            i <= catalog.artifacts@.len() == statuses@.len(),
            arts == catalog.deep_view().artifacts,
            snapshot.deep_view() == surveyed(arts, statuses@, i as int),
            snapshot.ready + snapshot.missing + snapshot.paused + snapshot.broken == i,
        decreases catalog.artifacts@.len() - i,
    {
        assert(arts[i as int] == catalog.artifacts@[i as int].deep_view());
        let health = status_health(statuses[i]);
        snapshot.by_id.insert(catalog.artifacts[i].id.clone(), health);
        match health {
            Health::Ready => {
                snapshot.ready += 1;
            },
            Health::Missing => {
                snapshot.missing += 1;
            },
            Health::Paused => {
                snapshot.paused += 1;
            },
            _ => {
                snapshot.broken += 1;
            },
        }
        i += 1;
    }
    snapshot
}

/// The custom nodes, of the first `end`, whose folders are among the entries.
pub open spec fn installed_nodes(
    nodes: Seq<crate::catalog::NodeView>,
    entries: Seq<EntryView>,
    end: int,
) -> Set<Text>
    decreases end,
{
    if end <= 0 {
        Set::empty()
    } else {
        let rest = installed_nodes(nodes, entries, end - 1);
        if equivalent_from(entries, nodes[end - 1].folder_name, 0) is Some {
            rest.insert(nodes[end - 1].id)
        } else {
            rest
        }
    }
}

/// The custom nodes of the catalog whose folders are among the entries of the directory of custom
/// nodes.
pub fn collect_installed_custom_nodes(catalog: &Catalog, entries: &Vec<DirEntry>) -> (r: IdSet)
    ensures
        r@ == installed_nodes(
            catalog.deep_view().custom_nodes,
            entries.deep_view(),
            catalog.custom_nodes@.len() as int,
        ),
{
    let ghost nodes = catalog.deep_view().custom_nodes;
    let mut out = IdSet::new();
    let mut i: usize = 0;
    while i < catalog.custom_nodes.len()
        invariant
            i <= catalog.custom_nodes@.len(),
            nodes == catalog.deep_view().custom_nodes,
            out@ == installed_nodes(nodes, entries.deep_view(), i as int),
        decreases catalog.custom_nodes@.len() - i,
    {
        let node = &catalog.custom_nodes[i];
        assert(nodes[i as int] == node.deep_view());
        if find_equivalent_node_folder(entries, node.folder_name.as_str()).is_some() {
            out.insert(node.id.clone());
        }
        i += 1;
    }
    out
}

/// What health is judged by.
pub struct HealthFacts {
    pub root_valid: bool,
    pub has_token: bool,
    pub by_id: IdMap<Health>,
    pub installed_nodes: IdSet,
}

/// What [`HealthFacts`] hold.
pub struct FactsView {
    pub root_valid: bool,
    pub has_token: bool,
    pub by_id: Map<Text, Health>,
    pub installed_nodes: Set<Text>,
}

impl DeepView for HealthFacts {
    type V = FactsView;

    open spec fn deep_view(&self) -> FactsView {
        FactsView {
            root_valid: self.root_valid,
            has_token: self.has_token,
            by_id: self.by_id@,
            installed_nodes: self.installed_nodes@,
        }
    }
}

impl FactsView {
    /// The health of an artifact; one that is not known is missing.
    pub open spec fn artifact(self, id: Text) -> Health {
        if self.by_id.contains_key(id) {
            self.by_id[id]
        } else {
            Health::Missing
        }
    }

    /// The health of a list of artifacts after one more of them.
    pub open spec fn with_artifact(self, health: Health, id: Text, gated: bool) -> Health {
        let own = if self.by_id.contains_key(id) {
            Some(self.by_id[id])
        } else {
            None
        };
        if own == Some(Health::Ready) {
            health
        } else if gated && !self.has_token {
            Health::Blocked
        } else if own == Some(Health::Paused) && health != Health::Blocked {
            Health::Paused
        } else if own == Some(Health::Missing) && health != Health::Paused && health
            != Health::Blocked {
            Health::Missing
        } else {
            health
        }
    }

    /// The health of the artifacts from `at` on, after those before.
    pub open spec fn ids_from(self, c: CatalogView, ids: Seq<Text>, at: int, health: Health) -> Health
        decreases ids.len() - at,
    {
        if at < 0 || at >= ids.len() {
            health
        } else {
            match found::<Artifact>(c.artifacts, ids[at]) {
                None => Health::Broken,
                Some(a) => if self.by_id.contains_key(ids[at]) && self.by_id[ids[at]]
                    == Health::Broken {
                    Health::Broken
                } else {
                    self.ids_from(c, ids, at + 1, self.with_artifact(health, ids[at], a.gated))
                },
            }
        }
    }

    /// The health of a list of artifacts.
    pub open spec fn ids(self, c: CatalogView, ids: Seq<Text>) -> Health {
        if !self.root_valid {
            Health::Missing
        } else {
            self.ids_from(c, ids, 0, Health::Ready)
        }
    }

    /// The health of the custom nodes from `at` on.
    pub open spec fn nodes_from(self, c: CatalogView, ids: Seq<Text>, at: int) -> Health
        decreases ids.len() - at,
    {
        if at < 0 || at >= ids.len() {
            Health::Ready
        } else if found::<CustomNode>(c.custom_nodes, ids[at]) is None {
            Health::Broken
        } else if !self.installed_nodes.contains(ids[at]) {
            Health::Missing
        } else {
            self.nodes_from(c, ids, at + 1)
        }
    }

    /// The health of a list of custom nodes.
    pub open spec fn nodes(self, c: CatalogView, ids: Seq<Text>) -> Health {
        if !self.root_valid {
            Health::Missing
        } else {
            self.nodes_from(c, ids, 0)
        }
    }

    /// The health of a package: of its required artifacts and its custom nodes, the worse.
    pub open spec fn package(self, c: CatalogView, p: PackageView) -> Health {
        if p.primary_artifact_ids.len() == 0 {
            Health::Discovery
        } else {
            worse(
                self.ids(c, p.primary_artifact_ids + p.dependency_artifact_ids),
                self.nodes(c, p.custom_node_ids),
            )
        }
    }

    /// The health of a workflow: of its artifacts and custom nodes, the worse; where these are
    /// ready or missing, its file has to be there too.
    pub open spec fn workflow(self, c: CatalogView, w: WorkflowView, file_installed: bool) -> Health {
        let deps = worse(self.ids(c, w.artifact_ids), self.nodes(c, w.custom_node_ids));
        if !self.root_valid {
            Health::Missing
        } else if !file_installed && (deps == Health::Ready || deps == Health::Missing) {
            Health::Missing
        } else {
            deps
        }
    }
}

/// Both lists, one after the other.
pub(crate) fn chained(a: &Vec<String>, b: &Vec<String>) -> (r: Vec<String>)
    ensures
        r.deep_view() == a.deep_view() + b.deep_view(),
{
    let mut out = clone_texts(a);
    push_all(&mut out, b);
    out
}

impl HealthFacts {
    /// The health of an artifact; one that is not known is missing.
    pub fn artifact_health(&self, id: &str) -> (r: Health)
        ensures
            r == self.deep_view().artifact(id@),
    {
        match self.by_id.get(id) {
            Some(h) => *h,
            None => Health::Missing,
        }
    }

    fn with_artifact(&self, health: Health, id: &str, gated: bool) -> (r: Health)
        ensures
            r == self.deep_view().with_artifact(health, id@, gated),
    {
        let own: Option<Health> = match self.by_id.get(id) {
            Some(h) => Some(*h),
            None => None,
        };
        if let Some(Health::Ready) = own {
            return health;
        }
        if gated && !self.has_token {
            return Health::Blocked;
        }
        match own {
            Some(Health::Paused) => if health != Health::Blocked {
                Health::Paused
            } else {
                health
            },
            Some(Health::Missing) => if health != Health::Paused && health != Health::Blocked {
                Health::Missing
            } else {
                health
            },
            _ => health,
        }
    }

    /// The health of a list of artifacts: one that is unknown or broken decides, else what keeps
    /// one of them from being ready.
    pub fn ids_health(&self, catalog: &Catalog, ids: &Vec<String>) -> (r: Health)
        ensures
            r == self.deep_view().ids(catalog.deep_view(), ids.deep_view()),
    {
        if !self.root_valid {
            return Health::Missing;
        }
        let ghost c = catalog.deep_view();
        let ghost all = ids.deep_view();
        let ghost f = self.deep_view();
        let mut health = Health::Ready;
        let mut i: usize = 0;
        while i < ids.len()
            invariant
                i <= ids@.len(),
                c == catalog.deep_view(),
                all == ids.deep_view(),
                f == self.deep_view(),
                f.root_valid,
                f.ids(c, all) == f.ids_from(c, all, i as int, health),
            decreases ids@.len() - i,
        {
            assert(all[i as int] == ids@[i as int]@);
            let gated = match catalog.artifact(ids[i].as_str()) {
                None => {
                    return Health::Broken;
                },
                Some(a) => a.gated,
            };
            if let Some(Health::Broken) = self.by_id.get(ids[i].as_str()) {
                return Health::Broken;
            }
            health = self.with_artifact(health, ids[i].as_str(), gated);
            i += 1;
        }
        health
    }

    /// The health of a list of custom nodes: the first that is unknown or not installed decides.
    pub fn custom_nodes_health(&self, catalog: &Catalog, ids: &Vec<String>) -> (r: Health)
        ensures
            r == self.deep_view().nodes(catalog.deep_view(), ids.deep_view()),
    {
        if !self.root_valid {
            return Health::Missing;
        }
        let ghost c = catalog.deep_view();
        let ghost all = ids.deep_view();
        let ghost f = self.deep_view();
        let mut i: usize = 0;
        while i < ids.len()
            invariant
                i <= ids@.len(),
                c == catalog.deep_view(),
                all == ids.deep_view(),
                f == self.deep_view(),
                f.root_valid,
                f.nodes(c, all) == f.nodes_from(c, all, i as int),
            decreases ids@.len() - i,
        {
            assert(all[i as int] == ids@[i as int]@);
            if catalog.custom_node(ids[i].as_str()).is_none() {
                return Health::Broken;
            }
            if !self.installed_nodes.contains(ids[i].as_str()) {
                return Health::Missing;
            }
            i += 1;
        }
        Health::Ready
    }

    /// The health of a package.
    pub fn package_health(&self, catalog: &Catalog, package: &Package) -> (r: Health)
        ensures
            r == self.deep_view().package(catalog.deep_view(), package.deep_view()),
    {
        if package.primary_artifact_ids.len() == 0 {
            return Health::Discovery;
        }
        let ids = chained(&package.primary_artifact_ids, &package.dependency_artifact_ids);
        worse_health(
            self.ids_health(catalog, &ids),
            self.custom_nodes_health(catalog, &package.custom_node_ids),
        )
    }

    /// The health of a workflow, given whether its file is there.
    pub fn workflow_health(
        &self,
        catalog: &Catalog,
        workflow: &WorkflowDefinition,
        file_installed: bool,
    ) -> (r: Health)
        ensures
            r == self.deep_view().workflow(
                catalog.deep_view(),
                workflow.deep_view(),
                file_installed,
            ),
    {
        let deps = worse_health(
            self.ids_health(catalog, &workflow.artifact_ids),
            self.custom_nodes_health(catalog, &workflow.custom_node_ids),
        );
        if !self.root_valid {
            return Health::Missing;
        }
        if !file_installed && (deps == Health::Ready || deps == Health::Missing) {
            Health::Missing
        } else {
            deps
        }
    }
}

/// The size of an artifact: that of its first source, else its own.
pub open spec fn default_size(a: ArtifactView) -> Option<u64> {
    if a.sources.len() > 0 && a.sources[0].size_bytes is Some {
        a.sources[0].size_bytes
    } else {
        a.size_bytes
    }
}

/// The sum of the known sizes of the first `end` artifacts, as far as it can be counted.
pub open spec fn known_total(c: CatalogView, ids: Seq<Text>, end: int) -> u64
    decreases end,
{
    if end <= 0 {
        0
    } else {
        let rest = known_total(c, ids, end - 1);
        match found::<Artifact>(c.artifacts, ids[end - 1]) {
            Some(a) => match default_size(a) {
                Some(n) => if rest + n <= u64::MAX {
                    (rest + n) as u64
                } else {
                    u64::MAX
                },
                None => rest,
            },
            None => rest,
        }
    }
}

/// How many of the first `end` artifacts have no known size.
pub open spec fn unknown_count(c: CatalogView, ids: Seq<Text>, end: int) -> nat
    decreases end,
{
    if end <= 0 {
        0
    } else {
        let rest = unknown_count(c, ids, end - 1);
        match found::<Artifact>(c.artifacts, ids[end - 1]) {
            Some(a) => if default_size(a) is Some {
                rest
            } else {
                rest + 1
            },
            None => rest + 1,
        }
    }
}

/// What is said of the size of the artifacts together.
pub open spec fn total_label(c: CatalogView, ids: Seq<Text>) -> Text {
    let total = known_total(c, ids, ids.len() as int);
    let unknown = unknown_count(c, ids, ids.len() as int);
    if total == 0 && unknown == 0 {
        "0 B"@
    } else if total == 0 {
        "size unknown"@
    } else if unknown == 0 {
        human_size(total as nat)
    } else {
        human_size(total as nat) + " + "@ + decimal(unknown) + " unknown"@
    }
}

/// What is said of the size of the artifacts together.
pub fn artifact_ids_size(catalog: &Catalog, ids: &Vec<String>) -> (r: String)
    ensures
        r@ == total_label(catalog.deep_view(), ids.deep_view()),
{
    let ghost c = catalog.deep_view();
    let ghost all = ids.deep_view();
    let mut total: u64 = 0;
    let mut unknown: usize = 0;
    let mut i: usize = 0;
    while i < ids.len()
        invariant
            i <= ids@.len(),
            unknown <= i,
            c == catalog.deep_view(),
            all == ids.deep_view(),
            total == known_total(c, all, i as int),
            unknown == unknown_count(c, all, i as int),
        decreases ids@.len() - i,
    {
        assert(all[i as int] == ids@[i as int]@);
        let size: Option<u64> = match catalog.artifact(ids[i].as_str()) {
            Some(a) => {
                let first: Option<u64> = if a.sources.len() > 0 {
                    assert(a.sources.deep_view()[0] == a.sources@[0].deep_view());
                    a.sources[0].size_bytes
                } else {
                    None
                };
                if first.is_some() {
                    first
                } else {
                    a.size_bytes
                }
            },
            None => None,
        };
        match size {
            Some(n) => {
                total = if n <= u64::MAX - total {
                    total + n
                } else {
                    u64::MAX
                };
            },
            None => {
                unknown += 1;
            },
        }
        i += 1;
    }
    if total == 0 && unknown == 0 {
        "0 B".to_owned()
    } else if total == 0 {
        "size unknown".to_owned()
    } else if unknown == 0 {
        format_human_size(total)
    } else {
        let size = format_human_size(total);
        let n = decimal_text(unknown as u64);
        cat4(size.as_str(), " + ", n.as_str(), " unknown")
    }
}

}
