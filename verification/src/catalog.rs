//! The catalog: downloadable files, the packages and workflows that refer to them, and the custom
//! nodes they need.
use crate::json::{opt_json_view, Json, JsonView};
use crate::size::{format_human_size, human_size};
use crate::text::{cat4, cat6, clone_opt, clone_texts, push_all, same_text, Text};
use vstd::prelude::*;
use vstd::string::*;

verus! {

/// One place that an artifact can be had from.
pub struct ArtifactSource {
    pub title: String,
    pub url: String,
    pub size: Option<String>,
    pub size_bytes: Option<u64>,
    pub description: String,
}

/// One downloadable file and its path below the ComfyUI root.
pub struct Artifact {
    pub id: String,
    pub name: String,
    pub url: String,
    pub relative_path: String,
    pub size_bytes: Option<u64>,
    pub sha256: Option<String>,
    pub gated: bool,
    pub description: Option<String>,
    pub sources: Vec<ArtifactSource>,
}

/// A package of the operating system.
pub struct SystemDependency {
    pub id: String,
    pub platform: String,
    pub package: String,
    pub detect: String,
    pub install: String,
    pub required_by: Vec<String>,
}

/// A group of a package's parts that the user may leave out.
pub struct OptionalGroup {
    pub id: String,
    pub name: String,
    pub artifact_ids: Vec<String>,
    pub custom_node_ids: Vec<String>,
}

/// An installable product. One without primary artifacts is for discovery only.
pub struct Package {
    pub id: String,
    pub name: String,
    pub family: String,
    pub description: Option<String>,
    pub primary_artifact_ids: Vec<String>,
    pub dependency_artifact_ids: Vec<String>,
    pub custom_node_ids: Vec<String>,
    pub optional_groups: Vec<OptionalGroup>,
    pub discover_query: Option<String>,
}

/// A workflow file and what it needs.
pub struct WorkflowDefinition {
    pub id: String,
    pub name: String,
    pub file: String,
    pub artifact_ids: Vec<String>,
    pub custom_node_ids: Vec<String>,
}

/// A git repository with ComfyUI nodes.
pub struct CustomNode {
    pub id: String,
    pub name: String,
    pub git_url: String,
    pub folder_name: String,
    pub node_types: Vec<String>,
}

/// Everything that can be installed.
pub struct Catalog {
    pub artifacts: Vec<Artifact>,
    pub packages: Vec<Package>,
    pub workflows: Vec<WorkflowDefinition>,
    pub custom_nodes: Vec<CustomNode>,
    pub system_dependencies: Vec<SystemDependency>,
    pub python_dependencies: Option<Json>,
}

/// What an [`ArtifactSource`] holds.
pub struct SourceView {
    pub title: Text,
    pub url: Text,
    pub size: Option<Text>,
    pub size_bytes: Option<u64>,
    pub description: Text,
}

/// What an [`Artifact`] holds.
pub struct ArtifactView {
    pub id: Text,
    pub name: Text,
    pub url: Text,
    pub relative_path: Text,
    pub size_bytes: Option<u64>,
    pub sha256: Option<Text>,
    pub gated: bool,
    pub description: Option<Text>,
    pub sources: Seq<SourceView>,
}

/// What a [`SystemDependency`] holds.
pub struct SystemDependencyView {
    pub id: Text,
    pub platform: Text,
    pub package: Text,
    pub detect: Text,
    pub install: Text,
    pub required_by: Seq<Text>,
}

/// What an [`OptionalGroup`] holds.
pub struct GroupView {
    pub id: Text,
    pub name: Text,
    pub artifact_ids: Seq<Text>,
    pub custom_node_ids: Seq<Text>,
}

/// What a [`Package`] holds.
pub struct PackageView {
    pub id: Text,
    pub name: Text,
    pub family: Text,
    pub description: Option<Text>,
    pub primary_artifact_ids: Seq<Text>,
    pub dependency_artifact_ids: Seq<Text>,
    pub custom_node_ids: Seq<Text>,
    pub optional_groups: Seq<GroupView>,
    pub discover_query: Option<Text>,
}

/// What a [`WorkflowDefinition`] holds.
pub struct WorkflowView {
    pub id: Text,
    pub name: Text,
    pub file: Text,
    pub artifact_ids: Seq<Text>,
    pub custom_node_ids: Seq<Text>,
}

/// What a [`CustomNode`] holds.
pub struct NodeView {
    pub id: Text,
    pub name: Text,
    pub git_url: Text,
    pub folder_name: Text,
    pub node_types: Seq<Text>,
}

/// What a [`Catalog`] holds.
pub struct CatalogView {
    pub artifacts: Seq<ArtifactView>,
    pub packages: Seq<PackageView>,
    pub workflows: Seq<WorkflowView>,
    pub custom_nodes: Seq<NodeView>,
    pub system_dependencies: Seq<SystemDependencyView>,
    pub python_dependencies: Option<JsonView>,
}

impl DeepView for ArtifactSource {
    type V = SourceView;

    open spec fn deep_view(&self) -> SourceView {
        SourceView {
            title: self.title@,
            url: self.url@,
            size: self.size.deep_view(),
            size_bytes: self.size_bytes,
            description: self.description@,
        }
    }
}

impl DeepView for Artifact {
    type V = ArtifactView;

    open spec fn deep_view(&self) -> ArtifactView {
        ArtifactView {
            id: self.id@,
            name: self.name@,
            url: self.url@,
            relative_path: self.relative_path@,
            size_bytes: self.size_bytes,
            sha256: self.sha256.deep_view(),
            gated: self.gated,
            description: self.description.deep_view(),
            sources: self.sources.deep_view(),
        }
    }
}

impl DeepView for SystemDependency {
    type V = SystemDependencyView;

    open spec fn deep_view(&self) -> SystemDependencyView {
        SystemDependencyView {
            id: self.id@,
            platform: self.platform@,
            package: self.package@,
            detect: self.detect@,
            install: self.install@,
            required_by: self.required_by.deep_view(),
        }
    }
}

impl DeepView for OptionalGroup {
    type V = GroupView;

    open spec fn deep_view(&self) -> GroupView {
        GroupView {
            id: self.id@,
            name: self.name@,
            artifact_ids: self.artifact_ids.deep_view(),
            custom_node_ids: self.custom_node_ids.deep_view(),
        }
    }
}

impl DeepView for Package {
    type V = PackageView;

    open spec fn deep_view(&self) -> PackageView {
        PackageView {
            id: self.id@,
            name: self.name@,
            family: self.family@,
            description: self.description.deep_view(),
            primary_artifact_ids: self.primary_artifact_ids.deep_view(),
            dependency_artifact_ids: self.dependency_artifact_ids.deep_view(),
            custom_node_ids: self.custom_node_ids.deep_view(),
            optional_groups: self.optional_groups.deep_view(),
            discover_query: self.discover_query.deep_view(),
        }
    }
}

impl DeepView for WorkflowDefinition {
    type V = WorkflowView;

    open spec fn deep_view(&self) -> WorkflowView {
        WorkflowView {
            id: self.id@,
            name: self.name@,
            file: self.file@,
            artifact_ids: self.artifact_ids.deep_view(),
            custom_node_ids: self.custom_node_ids.deep_view(),
        }
    }
}

impl DeepView for CustomNode {
    type V = NodeView;

    open spec fn deep_view(&self) -> NodeView {
        NodeView {
            id: self.id@,
            name: self.name@,
            git_url: self.git_url@,
            folder_name: self.folder_name@,
            node_types: self.node_types.deep_view(),
        }
    }
}

impl DeepView for Catalog {
    type V = CatalogView;

    open spec fn deep_view(&self) -> CatalogView {
        CatalogView {
            artifacts: self.artifacts.deep_view(),
            packages: self.packages.deep_view(),
            workflows: self.workflows.deep_view(),
            custom_nodes: self.custom_nodes.deep_view(),
            system_dependencies: self.system_dependencies.deep_view(),
            python_dependencies: opt_json_view(self.python_dependencies),
        }
    }
}

impl ArtifactSource {
    /// A source that holds the same.
    pub fn copy(&self) -> (r: ArtifactSource)
        ensures
            r.deep_view() == self.deep_view(),
    {
        ArtifactSource {
            title: self.title.clone(),
            url: self.url.clone(),
            size: clone_opt(&self.size),
            size_bytes: self.size_bytes,
            description: self.description.clone(),
        }
    }
}

/// Sources that hold the same.
pub fn copy_sources(v: &Vec<ArtifactSource>) -> (r: Vec<ArtifactSource>)
    ensures
        r.deep_view() == v.deep_view(),
{
    let mut out: Vec<ArtifactSource> = Vec::new();
    let mut i: usize = 0;
    while i < v.len()
        invariant
            i <= v@.len(),
            out.deep_view() == v.deep_view().take(i as int),
        decreases v@.len() - i,
    {
        let ghost before = out.deep_view();
        out.push(v[i].copy());
        assert(out.deep_view() =~= before.push(v@[i as int].deep_view()));
        assert(out.deep_view() =~= v.deep_view().take(i + 1));
        i += 1;
    }
    assert(v.deep_view().take(v@.len() as int) =~= v.deep_view());
    out
}

impl Artifact {
    /// An artifact that holds the same.
    pub fn copy(&self) -> (r: Artifact)
        ensures
            r.deep_view() == self.deep_view(),
    {
        Artifact {
            id: self.id.clone(),
            name: self.name.clone(),
            url: self.url.clone(),
            relative_path: self.relative_path.clone(),
            size_bytes: self.size_bytes,
            sha256: clone_opt(&self.sha256),
            gated: self.gated,
            description: clone_opt(&self.description),
            sources: copy_sources(&self.sources),
        }
    }
}

impl CustomNode {
    /// A node that holds the same.
    pub fn copy(&self) -> (r: CustomNode)
        ensures
            r.deep_view() == self.deep_view(),
    {
        CustomNode {
            id: self.id.clone(),
            name: self.name.clone(),
            git_url: self.git_url.clone(),
            folder_name: self.folder_name.clone(),
            node_types: clone_texts(&self.node_types),
        }
    }
}

impl SystemDependency {
    /// A dependency that holds the same.
    pub fn copy(&self) -> (r: SystemDependency)
        ensures
            r.deep_view() == self.deep_view(),
    {
        SystemDependency {
            id: self.id.clone(),
            platform: self.platform.clone(),
            package: self.package.clone(),
            detect: self.detect.clone(),
            install: self.install.clone(),
            required_by: clone_texts(&self.required_by),
        }
    }
}

/// Dependencies that hold the same.
pub fn copy_dependencies(v: &Vec<SystemDependency>) -> (r: Vec<SystemDependency>)
    ensures
        r.deep_view() == v.deep_view(),
{
    let mut out: Vec<SystemDependency> = Vec::new();
    let mut i: usize = 0;
    while i < v.len()
        invariant
            i <= v@.len(),
            out.deep_view() == v.deep_view().take(i as int),
        decreases v@.len() - i,
    {
        let ghost before = out.deep_view();
        out.push(v[i].copy());
        assert(out.deep_view() =~= before.push(v@[i as int].deep_view()));
        assert(out.deep_view() =~= v.deep_view().take(i + 1));
        i += 1;
    }
    assert(v.deep_view().take(v@.len() as int) =~= v.deep_view());
    out
}

/// Something that a catalog finds by its identifier.
pub trait Identified: DeepView {
    spec fn id_in(v: Self::V) -> Text;

    fn id_ref(&self) -> (r: &String)
        ensures
            r@ == Self::id_in(self.deep_view()),
    ;
}

impl Identified for Artifact {
    open spec fn id_in(v: ArtifactView) -> Text {
        v.id
    }

    fn id_ref(&self) -> (r: &String) {
        &self.id
    }
}

impl Identified for Package {
    open spec fn id_in(v: PackageView) -> Text {
        v.id
    }

    fn id_ref(&self) -> (r: &String) {
        &self.id
    }
}

impl Identified for WorkflowDefinition {
    open spec fn id_in(v: WorkflowView) -> Text {
        v.id
    }

    fn id_ref(&self) -> (r: &String) {
        &self.id
    }
}

impl Identified for CustomNode {
    open spec fn id_in(v: NodeView) -> Text {
        v.id
    }

    fn id_ref(&self) -> (r: &String) {
        &self.id
    }
}

impl Identified for SystemDependency {
    open spec fn id_in(v: SystemDependencyView) -> Text {
        v.id
    }

    fn id_ref(&self) -> (r: &String) {
        &self.id
    }
}

/// The identifiers of `s`, in order.
pub open spec fn ids_of<T: Identified>(s: Seq<T::V>) -> Seq<Text> {
    Seq::new(s.len(), |i: int| T::id_in(s[i]))
}

/// The first of `s` from `at` on whose identifier is `id`.
pub open spec fn found_from<T: Identified>(s: Seq<T::V>, id: Text, at: int) -> Option<T::V>
    decreases s.len() - at,
{
    if at < 0 || at >= s.len() {
        None
    } else if T::id_in(s[at]) == id {
        Some(s[at])
    } else {
        found_from::<T>(s, id, at + 1)
    }
}

/// The first of `s` whose identifier is `id`.
pub open spec fn found<T: Identified>(s: Seq<T::V>, id: Text) -> Option<T::V> {
    found_from::<T>(s, id, 0)
}

fn find_by_id<'a, T: Identified>(v: &'a Vec<T>, id: &str) -> (r: Option<&'a T>)
    ensures
        r is Some <==> found::<T>(v.deep_view(), id@) is Some,
        r matches Some(x) ==> found::<T>(v.deep_view(), id@) == Some(x.deep_view()),
{
    let mut i: usize = 0;
    while i < v.len()
        invariant
            i <= v@.len(),
            found::<T>(v.deep_view(), id@) == found_from::<T>(v.deep_view(), id@, i as int),
        decreases v@.len() - i,
    {
        assert(v.deep_view()[i as int] == v@[i as int].deep_view());
        if same_text(v[i].id_ref().as_str(), id) {
            return Some(&v[i]);
        }
        i += 1;
    }
    None
}

/// The index of the last of `s` before `end` whose identifier is `id`; -1 where there is none.
pub open spec fn last_place<T: Identified>(s: Seq<T::V>, id: Text, end: int) -> int
    decreases end,
{
    if end <= 0 {
        -1
    } else if T::id_in(s[end - 1]) == id {
        end - 1
    } else {
        last_place::<T>(s, id, end - 1)
    }
}

/// `base` with `item` in the place of the last entry of the same identifier, or at the end.
pub open spec fn merged_one<T: Identified>(base: Seq<T::V>, item: T::V) -> Seq<T::V> {
    let at = last_place::<T>(base, T::id_in(item), base.len() as int);
    if at >= 0 {
        base.update(at, item)
    } else {
        base.push(item)
    }
}

/// `base` after every entry of `incoming` was merged into it, in order.
pub open spec fn merged<T: Identified>(base: Seq<T::V>, incoming: Seq<T::V>) -> Seq<T::V>
    decreases incoming.len(),
{
    if incoming.len() == 0 {
        base
    } else {
        merged_one::<T>(merged::<T>(base, incoming.drop_last()), incoming.last())
    }
}

fn merge_by_id<T: Identified>(base: Vec<T>, incoming: Vec<T>) -> (r: Vec<T>)
    ensures
        r.deep_view() == merged::<T>(base.deep_view(), incoming.deep_view()),
{
    let mut out = base;
    let ghost all = incoming.deep_view();
    let ghost start = base.deep_view();
    assert(all.take(0) =~= Seq::empty());
    for item in it: incoming.into_iter()
        invariant
            it.seq() == incoming@,
            all == incoming.deep_view(),
            out.deep_view() == merged::<T>(start, all.take(it.index() as int)),
    {
        let ghost k = it.index() as int;
        let ghost before = out.deep_view();
        let ghost view = item.deep_view();
        proof {
            assert(all.take(k + 1).drop_last() =~= all.take(k));
            assert(all.take(k + 1).last() == view);
        }
        let mut i: usize = out.len();
        let ghost id = T::id_in(view);
        while i > 0 && !same_text(out[i - 1].id_ref().as_str(), item.id_ref().as_str())
            invariant
                i <= out@.len(),
                before == out.deep_view(),
                id == T::id_in(item.deep_view()),
                last_place::<T>(before, id, before.len() as int) == last_place::<T>(
                    before,
                    id,
                    i as int,
                ),
            decreases i,
        {
            assert(before[i - 1] == out@[i - 1].deep_view());
            i -= 1;
        }
        if i > 0 {
            assert(before[i - 1] == out@[i - 1].deep_view());
            out.set(i - 1, item);
            assert(out.deep_view() =~= before.update(i - 1, view));
        } else {
            out.push(item);
            assert(out.deep_view() =~= before.push(view));
        }
    }
    assert(all.take(all.len() as int) =~= all);
    out
}

/// The source that stands for an artifact's own address.
pub open spec fn default_source(a: ArtifactView) -> SourceView {
    SourceView {
        title: a.name,
        url: a.url,
        size: size_text(a.size_bytes),
        size_bytes: a.size_bytes,
        description: match a.description {
            Some(d) => d,
            None => "Default catalog source"@,
        },
    }
}

/// The label of a size that may be unknown.
pub open spec fn size_text(n: Option<u64>) -> Option<Text> {
    match n {
        Some(n) => Some(human_size(n as nat)),
        None => None,
    }
}

fn size_label(n: Option<u64>) -> (r: Option<String>)
    ensures
        r.deep_view() == size_text(n),
{
    match n {
        Some(n) => Some(format_human_size(n)),
        None => None,
    }
}

/// `a` with its own address as its source, where it lists none.
pub open spec fn normalized(a: ArtifactView) -> ArtifactView {
    if a.sources.len() == 0 && a.url.len() > 0 {
        ArtifactView { sources: seq![default_source(a)], ..a }
    } else {
        a
    }
}

/// `c` with every artifact normalized.
pub open spec fn normalized_catalog(c: CatalogView) -> CatalogView {
    CatalogView { artifacts: c.artifacts.map_values(|a: ArtifactView| normalized(a)), ..c }
}

fn normalize_artifact(artifact: &mut Artifact)
    ensures
        final(artifact).deep_view() == normalized(old(artifact).deep_view()),
{
    if artifact.sources.len() == 0 && !artifact.url.as_str().is_empty() {
        let ghost a = artifact.deep_view();
        let source = ArtifactSource {
            title: artifact.name.clone(),
            url: artifact.url.clone(),
            size: size_label(artifact.size_bytes),
            size_bytes: artifact.size_bytes,
            description: match &artifact.description {
                Some(d) => d.clone(),
                None => "Default catalog source".to_owned(),
            },
        };
        assert(source.deep_view() == default_source(a));
        artifact.sources.push(source);
        assert(artifact.sources.deep_view() =~= seq![default_source(a)]);
    }
}

/// The size of the last of the first `end` artifacts that has the path and a known size.
pub open spec fn known_size(s: Seq<ArtifactView>, path: Text, end: int) -> Option<u64>
    decreases end,
{
    if end <= 0 {
        None
    } else if s[end - 1].relative_path == path && s[end - 1].size_bytes is Some {
        s[end - 1].size_bytes
    } else {
        known_size(s, path, end - 1)
    }
}

/// `s` with the artifact's size where it is the only source and has none, and with a label.
pub open spec fn enriched_source(s: SourceView, single: bool, size: Option<u64>) -> SourceView {
    let bytes = if single && s.size_bytes is None {
        size
    } else {
        s.size_bytes
    };
    SourceView {
        size_bytes: bytes,
        size: if s.size is None {
            size_text(bytes)
        } else {
            s.size
        },
        ..s
    }
}

/// `a` with a size known for its path, where it has none, and with its sources enriched.
pub open spec fn enriched(a: ArtifactView, known: Option<u64>) -> ArtifactView {
    let size = if a.size_bytes is None {
        known
    } else {
        a.size_bytes
    };
    ArtifactView {
        size_bytes: size,
        sources: a.sources.map_values(
            |s: SourceView| enriched_source(s, a.sources.len() == 1, size),
        ),
        ..a
    }
}

/// `s` with what artifacts of the same path know shared among them.
pub open spec fn enriched_artifacts(s: Seq<ArtifactView>) -> Seq<ArtifactView> {
    s.map_values(
        |a: ArtifactView| enriched(a, known_size(s, a.relative_path, s.len() as int)),
    )
}

fn enrich_artifact(artifact: &mut Artifact, known: Option<u64>)
    ensures
        final(artifact).deep_view() == enriched(old(artifact).deep_view(), known),
{
    let ghost a = artifact.deep_view();
    if artifact.size_bytes.is_none() {
        artifact.size_bytes = known;
    }
    let size = artifact.size_bytes;
    let single = artifact.sources.len() == 1;
    let ghost want = enriched(a, known).sources;
    let mut i: usize = 0;
    while i < artifact.sources.len()
        invariant
            i <= artifact.sources@.len() == a.sources.len(),
            size == artifact.size_bytes,
            size == enriched(a, known).size_bytes,
            single == (a.sources.len() == 1),
            want == enriched(a, known).sources,
            artifact.deep_view() == (ArtifactView {
                size_bytes: size,
                sources: artifact.sources.deep_view(),
                ..a
            }),
            artifact.sources.deep_view() == want.take(i as int) + a.sources.skip(i as int),
        decreases artifact.sources@.len() - i,
    {
        let ghost before = artifact.sources.deep_view();
        assert(before[i as int] == a.sources[i as int]);
        let source = &mut artifact.sources[i];
        if single && source.size_bytes.is_none() {
            source.size_bytes = size;
        }
        if source.size.is_none() {
            source.size = size_label(source.size_bytes);
        }
        assert(artifact.sources.deep_view() =~= before.update(i as int, want[i as int]));
        assert(artifact.sources.deep_view() =~= want.take(i + 1) + a.sources.skip(i + 1));
        i += 1;
    }
    assert(artifact.sources.deep_view() =~= want);
}

fn known_size_of(artifacts: &Vec<Artifact>, path: &str) -> (r: Option<u64>)
    ensures
        r == known_size(artifacts.deep_view(), path@, artifacts@.len() as int),
{
    let ghost s = artifacts.deep_view();
    let mut i: usize = artifacts.len();
    while i > 0
        invariant
            i <= artifacts@.len(),
            s == artifacts.deep_view(),
            known_size(s, path@, s.len() as int) == known_size(s, path@, i as int),
        decreases i,
    {
        let a = &artifacts[i - 1];
        assert(s[i - 1] == a.deep_view());
        if same_text(a.relative_path.as_str(), path) && a.size_bytes.is_some() {
            return a.size_bytes;
        }
        i -= 1;
    }
    None
}

/// The sort of an entry of the catalog.
#[derive(Clone, Copy, Debug, PartialEq, Eq, Structural)]
pub enum Entry {
    Artifact,
    Package,
    Workflow,
    CustomNode,
}

impl Entry {
    pub open spec fn word(self) -> Text {
        match self {
            Entry::Artifact => "artifact"@,
            Entry::Package => "package"@,
            Entry::Workflow => "workflow"@,
            Entry::CustomNode => "custom node"@,
        }
    }

    /// The word that messages use for the entry.
    pub fn name(self) -> (r: &'static str)
        ensures
            r@ == self.word(),
    {
        match self {
            Entry::Artifact => "artifact",
            Entry::Package => "package",
            Entry::Workflow => "workflow",
            Entry::CustomNode => "custom node",
        }
    }
}

/// What makes a catalog invalid.
pub enum CatalogError {
    /// Two entries of one sort have the same identifier.
    Duplicate { what: Entry, id: String },
    /// An entry refers to one that is not there.
    Unknown { owner: Entry, owner_id: String, what: Entry, id: String },
}

/// What a [`CatalogError`] holds.
pub enum CatalogProblem {
    Duplicate { what: Entry, id: Text },
    Unknown { owner: Entry, owner_id: Text, what: Entry, id: Text },
}

impl DeepView for CatalogError {
    type V = CatalogProblem;

    open spec fn deep_view(&self) -> CatalogProblem {
        match self {
            CatalogError::Duplicate { what, id } => CatalogProblem::Duplicate {
                what: *what,
                id: id@,
            },
            CatalogError::Unknown { owner, owner_id, what, id } => CatalogProblem::Unknown {
                owner: *owner,
                owner_id: owner_id@,
                what: *what,
                id: id@,
            },
        }
    }
}

impl CatalogProblem {
    /// The problem in words.
    pub open spec fn words(self) -> Text {
        match self {
            CatalogProblem::Duplicate { what, id } => "duplicate "@ + what.word() + " id: "@ + id,
            CatalogProblem::Unknown { owner, owner_id, what, id } => owner.word() + " "@ + owner_id
                + " references unknown "@ + what.word() + " "@ + id,
        }
    }
}

impl CatalogError {
    /// The error in words.
    pub fn message(&self) -> (r: String)
        ensures
            r@ == self.deep_view().words(),
    {
        match self {
            CatalogError::Duplicate { what, id } => cat4(
                "duplicate ",
                what.name(),
                " id: ",
                id.as_str(),
            ),
            CatalogError::Unknown { owner, owner_id, what, id } => {
                let head = cat6(
                    owner.name(),
                    " ",
                    owner_id.as_str(),
                    " references unknown ",
                    what.name(),
                    " ",
                );
                crate::text::cat2(head.as_str(), id.as_str())
            },
        }
    }
}

/// The first of `ids` from `at` on that stands before it too.
pub open spec fn repeat_from(ids: Seq<Text>, at: int) -> Option<Text>
    decreases ids.len() - at,
{
    if at < 0 || at >= ids.len() {
        None
    } else if ids.take(at).contains(ids[at]) {
        Some(ids[at])
    } else {
        repeat_from(ids, at + 1)
    }
}

/// The problem of an identifier that occurs twice in `ids`, the first such.
pub open spec fn repeat_problem(ids: Seq<Text>, what: Entry) -> Option<CatalogProblem> {
    match repeat_from(ids, 0) {
        Some(id) => Some(CatalogProblem::Duplicate { what, id }),
        None => None,
    }
}

/// The first of `refs` from `at` on that is not among `known`.
pub open spec fn missing_from(refs: Seq<Text>, known: Seq<Text>, at: int) -> Option<Text>
    decreases refs.len() - at,
{
    if at < 0 || at >= refs.len() {
        None
    } else if !known.contains(refs[at]) {
        Some(refs[at])
    } else {
        missing_from(refs, known, at + 1)
    }
}

/// The problem of a reference that leads nowhere, the first such of `refs`.
pub open spec fn missing_problem(
    refs: Seq<Text>,
    known: Seq<Text>,
    owner: Entry,
    owner_id: Text,
    what: Entry,
) -> Option<CatalogProblem> {
    match missing_from(refs, known, 0) {
        Some(id) => Some(CatalogProblem::Unknown { owner, owner_id, what, id }),
        None => None,
    }
}

/// The artifacts of the groups from `at` on.
pub open spec fn group_artifacts_from(g: Seq<GroupView>, at: int) -> Seq<Text>
    decreases g.len() - at,
{
    if at < 0 || at >= g.len() {
        Seq::empty()
    } else {
        g[at].artifact_ids + group_artifacts_from(g, at + 1)
    }
}

/// The custom nodes of the groups from `at` on.
pub open spec fn group_nodes_from(g: Seq<GroupView>, at: int) -> Seq<Text>
    decreases g.len() - at,
{
    if at < 0 || at >= g.len() {
        Seq::empty()
    } else {
        g[at].custom_node_ids + group_nodes_from(g, at + 1)
    }
}

impl PackageView {
    /// Every artifact that the package refers to.
    pub open spec fn artifact_refs(self) -> Seq<Text> {
        self.primary_artifact_ids + self.dependency_artifact_ids + group_artifacts_from(
            self.optional_groups,
            0,
        )
    }

    /// Every custom node that the package refers to.
    pub open spec fn node_refs(self) -> Seq<Text> {
        self.custom_node_ids + group_nodes_from(self.optional_groups, 0)
    }
}

/// The first of two problems.
pub open spec fn first_problem(
    a: Option<CatalogProblem>,
    b: Option<CatalogProblem>,
) -> Option<CatalogProblem> {
    match a {
        Some(p) => Some(p),
        None => b,
    }
}

/// The first problem of the packages from `at` on.
pub open spec fn package_problem(
    ps: Seq<PackageView>,
    artifacts: Seq<Text>,
    nodes: Seq<Text>,
    at: int,
) -> Option<CatalogProblem>
    decreases ps.len() - at,
{
    if at < 0 || at >= ps.len() {
        None
    } else {
        let p = ps[at];
        first_problem(
            missing_problem(p.artifact_refs(), artifacts, Entry::Package, p.id, Entry::Artifact),
            first_problem(
                missing_problem(p.node_refs(), nodes, Entry::Package, p.id, Entry::CustomNode),
                package_problem(ps, artifacts, nodes, at + 1),
            ),
        )
    }
}

/// The first problem of the workflows from `at` on.
pub open spec fn workflow_problem(
    ws: Seq<WorkflowView>,
    artifacts: Seq<Text>,
    nodes: Seq<Text>,
    at: int,
) -> Option<CatalogProblem>
    decreases ws.len() - at,
{
    if at < 0 || at >= ws.len() {
        None
    } else {
        let w = ws[at];
        first_problem(
            missing_problem(w.artifact_ids, artifacts, Entry::Workflow, w.id, Entry::Artifact),
            first_problem(
                missing_problem(w.custom_node_ids, nodes, Entry::Workflow, w.id, Entry::CustomNode),
                workflow_problem(ws, artifacts, nodes, at + 1),
            ),
        )
    }
}

impl CatalogView {
    pub open spec fn artifact_ids(self) -> Seq<Text> {
        ids_of::<Artifact>(self.artifacts)
    }

    pub open spec fn node_ids(self) -> Seq<Text> {
        ids_of::<CustomNode>(self.custom_nodes)
    }

    /// What makes the catalog invalid, the first such thing; `None` where it is valid.
    pub open spec fn problem(self) -> Option<CatalogProblem> {
        first_problem(
            repeat_problem(self.artifact_ids(), Entry::Artifact),
            first_problem(
                repeat_problem(ids_of::<Package>(self.packages), Entry::Package),
                first_problem(
                    repeat_problem(ids_of::<WorkflowDefinition>(self.workflows), Entry::Workflow),
                    first_problem(
                        repeat_problem(self.node_ids(), Entry::CustomNode),
                        first_problem(
                            package_problem(
                                self.packages,
                                self.artifact_ids(),
                                self.node_ids(),
                                0,
                            ),
                            workflow_problem(
                                self.workflows,
                                self.artifact_ids(),
                                self.node_ids(),
                                0,
                            ),
                        ),
                    ),
                ),
            ),
        )
    }

    /// The catalog with the entries of `other` merged in.
    pub open spec fn joined_with(self, other: CatalogView) -> CatalogView {
        CatalogView {
            artifacts: enriched_artifacts(merged::<Artifact>(self.artifacts, other.artifacts)),
            packages: merged::<Package>(self.packages, other.packages),
            workflows: merged::<WorkflowDefinition>(self.workflows, other.workflows),
            custom_nodes: merged::<CustomNode>(self.custom_nodes, other.custom_nodes),
            system_dependencies: merged::<SystemDependency>(
                self.system_dependencies,
                other.system_dependencies,
            ),
            python_dependencies: if other.python_dependencies is Some {
                other.python_dependencies
            } else {
                self.python_dependencies
            },
        }
    }
}

fn ids_in<T: Identified>(v: &Vec<T>) -> (r: Vec<String>)
    ensures
        r.deep_view() == ids_of::<T>(v.deep_view()),
{
    let mut out: Vec<String> = Vec::new();
    let mut i: usize = 0;
    while i < v.len()
        invariant
            i <= v@.len(),
            out.deep_view() == ids_of::<T>(v.deep_view()).take(i as int),
        decreases v@.len() - i,
    {
        let ghost before = out.deep_view();
        out.push(v[i].id_ref().clone());
        assert(out.deep_view() =~= before.push(T::id_in(v@[i as int].deep_view())));
        assert(out.deep_view() =~= ids_of::<T>(v.deep_view()).take(i + 1));
        i += 1;
    }
    assert(ids_of::<T>(v.deep_view()).take(v@.len() as int) =~= ids_of::<T>(v.deep_view()));
    out
}

fn ensure_unique(ids: &Vec<String>, what: Entry) -> (r: Result<(), CatalogError>)
    ensures
        problem_in(r) == repeat_problem(ids.deep_view(), what),
{
    let ghost all = ids.deep_view();
    let mut seen = crate::ids::IdSet::new();
    let mut i: usize = 0;
    assert(all.take(0).to_set() =~= Set::<Text>::empty());
    while i < ids.len()
        invariant
            i <= ids@.len(),
            all == ids.deep_view(),
            seen@ == all.take(i as int).to_set(),
            repeat_from(all, 0) == repeat_from(all, i as int),
        decreases ids@.len() - i,
    {
        assert(all[i as int] == ids@[i as int]@);
        assert(seen@.contains(all[i as int]) == all.take(i as int).contains(all[i as int]));
        if !seen.insert(ids[i].clone()) {
            return Err(CatalogError::Duplicate { what, id: ids[i].clone() });
        }
        proof {
            crate::ids::take_one_more(all, i as int);
        }
        i += 1;
    }
    Ok(())
}

/// The problem that a validation reports.
pub open spec fn problem_in(r: Result<(), CatalogError>) -> Option<CatalogProblem> {
    match r {
        Ok(_) => None,
        Err(e) => Some(e.deep_view()),
    }
}

fn first_missing<'a>(refs: &'a Vec<String>, known: &crate::ids::IdSet) -> (r: Option<&'a String>)
    ensures
        forall|ids: Seq<Text>|
            ids.to_set() == known@ ==> #[trigger] missing_from(refs.deep_view(), ids, 0) == (match r {
                Some(s) => Some(s@),
                None => None,
            }),
{
    let ghost all = refs.deep_view();
    let mut i: usize = 0;
    while i < refs.len()
        invariant
            i <= refs@.len(),
            all == refs.deep_view(),
            forall|ids: Seq<Text>|
                ids.to_set() == known@ ==> #[trigger] missing_from(all, ids, 0) == missing_from(
                    all,
                    ids,
                    i as int,
                ),
        decreases refs@.len() - i,
    {
        assert(all[i as int] == refs@[i as int]@);
        assert forall|ids: Seq<Text>| ids.to_set() == known@ implies ids.contains(all[i as int])
            == known@.contains(all[i as int]) by {
            assert(ids.to_set().contains(all[i as int]) == ids.contains(all[i as int]));
        }
        if !known.contains(refs[i].as_str()) {
            return Some(&refs[i]);
        }
        i += 1;
    }
    None
}

impl Package {
    /// Every artifact that the package refers to, those of its optional groups last.
    pub fn artifact_refs(&self) -> (r: Vec<String>)
        ensures
            r.deep_view() == self.deep_view().artifact_refs(),
    {
        let ghost p = self.deep_view();
        let mut out = clone_texts(&self.primary_artifact_ids);
        push_all(&mut out, &self.dependency_artifact_ids);
        let mut i: usize = 0;
        while i < self.optional_groups.len()
            invariant
                i <= self.optional_groups@.len(),
                p == self.deep_view(),
                p.artifact_refs() == out.deep_view() + group_artifacts_from(
                    p.optional_groups,
                    i as int,
                ),
            decreases self.optional_groups@.len() - i,
        {
            let ghost before = out.deep_view();
            push_all(&mut out, &self.optional_groups[i].artifact_ids);
            proof {
                assert(p.optional_groups[i as int] == self.optional_groups@[i as int].deep_view());
                assert(p.artifact_refs() =~= out.deep_view() + group_artifacts_from(
                    p.optional_groups,
                    i + 1,
                ));
            }
            i += 1;
        }
        assert(p.artifact_refs() =~= out.deep_view());
        out
    }

    /// Every custom node that the package refers to, those of its optional groups last.
    pub fn node_refs(&self) -> (r: Vec<String>)
        ensures
            r.deep_view() == self.deep_view().node_refs(),
    {
        let ghost p = self.deep_view();
        let mut out = clone_texts(&self.custom_node_ids);
        let mut i: usize = 0;
        while i < self.optional_groups.len()
            invariant
                i <= self.optional_groups@.len(),
                p == self.deep_view(),
                p.node_refs() == out.deep_view() + group_nodes_from(p.optional_groups, i as int),
            decreases self.optional_groups@.len() - i,
        {
            let ghost before = out.deep_view();
            push_all(&mut out, &self.optional_groups[i].custom_node_ids);
            proof {
                assert(p.optional_groups[i as int] == self.optional_groups@[i as int].deep_view());
                assert(p.node_refs() =~= out.deep_view() + group_nodes_from(
                    p.optional_groups,
                    i + 1,
                ));
            }
            i += 1;
        }
        assert(p.node_refs() =~= out.deep_view());
        out
    }
}

fn check_refs(
    refs: &Vec<String>,
    known: &crate::ids::IdSet,
    owner: Entry,
    owner_id: &String,
    what: Entry,
) -> (r: Result<(), CatalogError>)
    ensures
        forall|ids: Seq<Text>|
            ids.to_set() == known@ ==> #[trigger] missing_problem(
                refs.deep_view(),
                ids,
                owner,
                owner_id@,
                what,
            ) == problem_in(r),
{
    match first_missing(refs, known) {
        Some(id) => Err(
            CatalogError::Unknown { owner, owner_id: owner_id.clone(), what, id: id.clone() },
        ),
        None => Ok(()),
    }
}

impl Default for Catalog {
    fn default() -> (r: Catalog)
        ensures
            r.deep_view() == (CatalogView {
                artifacts: Seq::empty(),
                packages: Seq::empty(),
                workflows: Seq::empty(),
                custom_nodes: Seq::empty(),
                system_dependencies: Seq::empty(),
                python_dependencies: None,
            }),
    {
        let r = Catalog {
            artifacts: Vec::new(),
            packages: Vec::new(),
            workflows: Vec::new(),
            custom_nodes: Vec::new(),
            system_dependencies: Vec::new(),
            python_dependencies: None,
        };
        assert(r.artifacts.deep_view() =~= Seq::empty());
        assert(r.packages.deep_view() =~= Seq::empty());
        assert(r.workflows.deep_view() =~= Seq::empty());
        assert(r.custom_nodes.deep_view() =~= Seq::empty());
        assert(r.system_dependencies.deep_view() =~= Seq::empty());
        r
    }
}

impl Catalog {
    /// Makes a complete catalog out of one that was just parsed: every artifact gets a source, and
    /// the catalog is validated.
    pub fn from_parsed(parsed: Catalog) -> (r: Result<Catalog, CatalogError>)
        ensures
            match r {
                Ok(c) => c.deep_view() == normalized_catalog(parsed.deep_view())
                    && c.deep_view().problem() is None,
                Err(e) => normalized_catalog(parsed.deep_view()).problem() == Some(e.deep_view()),
            },
    {
        let mut cat = parsed;
        cat.normalize_sources();
        match cat.validate() {
            Ok(_) => Ok(cat),
            Err(e) => Err(e),
        }
    }

    /// Makes one fragment of a split catalog out of one that was just parsed. Its references are
    /// validated by [`Catalog::merge`], once it is combined with the files before it.
    pub fn from_fragment(parsed: Catalog) -> (r: Catalog)
        ensures
            r.deep_view() == normalized_catalog(parsed.deep_view()),
    {
        let mut cat = parsed;
        cat.normalize_sources();
        cat
    }

    /// Gives every artifact that lists no source its own address as one.
    pub fn normalize_sources(&mut self)
        ensures
            final(self).deep_view() == normalized_catalog(old(self).deep_view()),
    {
        let ghost start = self.deep_view();
        let ghost want = normalized_catalog(start).artifacts;
        let mut i: usize = 0;
        assert(want.take(0) + start.artifacts.skip(0) =~= start.artifacts);
        while i < self.artifacts.len()
            invariant
                i <= self.artifacts@.len() == start.artifacts.len(),
                want == normalized_catalog(start).artifacts,
                self.deep_view() == (CatalogView {
                    artifacts: self.artifacts.deep_view(),
                    ..start
                }),
                self.artifacts.deep_view() == want.take(i as int) + start.artifacts.skip(i as int),
            decreases self.artifacts@.len() - i,
        {
            let ghost before = self.artifacts.deep_view();
            assert(before[i as int] == start.artifacts[i as int]);
            normalize_artifact(&mut self.artifacts[i]);
            assert(self.artifacts.deep_view() =~= before.update(i as int, want[i as int]));
            assert(self.artifacts.deep_view() =~= want.take(i + 1) + start.artifacts.skip(i + 1));
            i += 1;
        }
        assert(self.artifacts.deep_view() =~= want);
    }

    /// The catalog with the entries of `other` merged in: one with a known identifier takes the
    /// place of what was there.
    pub fn merge(self, other: Catalog) -> (r: Result<Catalog, CatalogError>)
        ensures
            match r {
                Ok(c) => c.deep_view() == self.deep_view().joined_with(other.deep_view())
                    && c.deep_view().problem() is None,
                Err(e) => self.deep_view().joined_with(other.deep_view()).problem() == Some(
                    e.deep_view(),
                ),
            },
    {
        let mut cat = Catalog {
            artifacts: merge_by_id(self.artifacts, other.artifacts),
            packages: merge_by_id(self.packages, other.packages),
            workflows: merge_by_id(self.workflows, other.workflows),
            custom_nodes: merge_by_id(self.custom_nodes, other.custom_nodes),
            system_dependencies: merge_by_id(self.system_dependencies, other.system_dependencies),
            python_dependencies: match other.python_dependencies {
                Some(j) => Some(j),
                None => self.python_dependencies,
            },
        };
        cat.enrich_shared_artifact_metadata();
        match cat.validate() {
            Ok(_) => Ok(cat),
            Err(e) => Err(e),
        }
    }

    /// Shares known sizes among artifacts of the same path, and completes their sources.
    pub fn enrich_shared_artifact_metadata(&mut self)
        ensures
            final(self).deep_view() == (CatalogView {
                artifacts: enriched_artifacts(old(self).deep_view().artifacts),
                ..old(self).deep_view()
            }),
    {
        let ghost start = self.deep_view();
        let ghost s = start.artifacts;
        let mut known: Vec<Option<u64>> = Vec::new();
        let mut i: usize = 0;
        while i < self.artifacts.len()
            invariant
                i <= self.artifacts@.len(),
                start == self.deep_view(),
                s == start.artifacts,
                known@.len() == i,
                forall|k: int|
                    0 <= k < i ==> #[trigger] known@[k] == known_size(
                        s,
                        s[k].relative_path,
                        s.len() as int,
                    ),
            decreases self.artifacts@.len() - i,
        {
            assert(s[i as int] == self.artifacts@[i as int].deep_view());
            known.push(known_size_of(&self.artifacts, self.artifacts[i].relative_path.as_str()));
            i += 1;
        }
        let ghost want = enriched_artifacts(s);
        let mut i: usize = 0;
        assert(want.take(0) + s.skip(0) =~= s);
        while i < self.artifacts.len()
            invariant
                i <= self.artifacts@.len() == s.len(),
                s == start.artifacts,
                want == enriched_artifacts(s),
                known@.len() == s.len(),
                forall|k: int|
                    0 <= k < s.len() ==> #[trigger] known@[k] == known_size(
                        s,
                        s[k].relative_path,
                        s.len() as int,
                    ),
                self.deep_view() == (CatalogView {
                    artifacts: self.artifacts.deep_view(),
                    ..start
                }),
                self.artifacts.deep_view() == want.take(i as int) + s.skip(i as int),
            decreases self.artifacts@.len() - i,
        {
            let ghost before = self.artifacts.deep_view();
            assert(before[i as int] == s[i as int]);
            enrich_artifact(&mut self.artifacts[i], known[i]);
            assert(self.artifacts.deep_view() =~= before.update(i as int, want[i as int]));
            assert(self.artifacts.deep_view() =~= want.take(i + 1) + s.skip(i + 1));
            i += 1;
        }
        assert(self.artifacts.deep_view() =~= want);
    }

    /// Whether identifiers are unique and every reference leads somewhere; the first problem
    /// otherwise.
    pub fn validate(&self) -> (r: Result<(), CatalogError>)
        ensures
            problem_in(r) == self.deep_view().problem(),
    {
        let ghost c = self.deep_view();
        let artifact_ids = ids_in(&self.artifacts);
        let node_ids = ids_in(&self.custom_nodes);
        if let Err(e) = ensure_unique(&artifact_ids, Entry::Artifact) {
            return Err(e);
        }
        if let Err(e) = ensure_unique(&ids_in(&self.packages), Entry::Package) {
            return Err(e);
        }
        if let Err(e) = ensure_unique(&ids_in(&self.workflows), Entry::Workflow) {
            return Err(e);
        }
        if let Err(e) = ensure_unique(&node_ids, Entry::CustomNode) {
            return Err(e);
        }
        let artifacts = crate::ids::IdSet::from_texts(&artifact_ids);
        let nodes = crate::ids::IdSet::from_texts(&node_ids);
        let mut i: usize = 0;
        while i < self.packages.len()
            invariant
                i <= self.packages@.len(),
                c == self.deep_view(),
                artifacts@ == c.artifact_ids().to_set(),
                nodes@ == c.node_ids().to_set(),
                c.problem() == first_problem(
                    package_problem(c.packages, c.artifact_ids(), c.node_ids(), i as int),
                    workflow_problem(c.workflows, c.artifact_ids(), c.node_ids(), 0),
                ),
            decreases self.packages@.len() - i,
        {
            let p = &self.packages[i];
            assert(c.packages[i as int] == p.deep_view());
            if let Err(e) = check_refs(
                &p.artifact_refs(),
                &artifacts,
                Entry::Package,
                &p.id,
                Entry::Artifact,
            ) {
                return Err(e);
            }
            if let Err(e) = check_refs(
                &p.node_refs(),
                &nodes,
                Entry::Package,
                &p.id,
                Entry::CustomNode,
            ) {
                return Err(e);
            }
            i += 1;
        }
        let mut i: usize = 0;
        while i < self.workflows.len()
            invariant
                i <= self.workflows@.len(),
                c == self.deep_view(),
                artifacts@ == c.artifact_ids().to_set(),
                nodes@ == c.node_ids().to_set(),
                c.problem() == workflow_problem(
                    c.workflows,
                    c.artifact_ids(),
                    c.node_ids(),
                    i as int,
                ),
            decreases self.workflows@.len() - i,
        {
            let w = &self.workflows[i];
            assert(c.workflows[i as int] == w.deep_view());
            if let Err(e) = check_refs(
                &w.artifact_ids,
                &artifacts,
                Entry::Workflow,
                &w.id,
                Entry::Artifact,
            ) {
                return Err(e);
            }
            if let Err(e) = check_refs(
                &w.custom_node_ids,
                &nodes,
                Entry::Workflow,
                &w.id,
                Entry::CustomNode,
            ) {
                return Err(e);
            }
            i += 1;
        }
        Ok(())
    }

    /// The artifact `id`.
    pub fn artifact(&self, id: &str) -> (r: Option<&Artifact>)
        ensures
            r is Some <==> found::<Artifact>(self.deep_view().artifacts, id@) is Some,
            r matches Some(x) ==> found::<Artifact>(self.deep_view().artifacts, id@) == Some(
                x.deep_view(),
            ),
    {
        find_by_id(&self.artifacts, id)
    }

    /// The package `id`.
    pub fn package(&self, id: &str) -> (r: Option<&Package>)
        ensures
            r is Some <==> found::<Package>(self.deep_view().packages, id@) is Some,
            r matches Some(x) ==> found::<Package>(self.deep_view().packages, id@) == Some(
                x.deep_view(),
            ),
    {
        find_by_id(&self.packages, id)
    }

    /// The workflow `id`.
    pub fn workflow(&self, id: &str) -> (r: Option<&WorkflowDefinition>)
        ensures
            r is Some <==> found::<WorkflowDefinition>(self.deep_view().workflows, id@) is Some,
            r matches Some(x) ==> found::<WorkflowDefinition>(self.deep_view().workflows, id@)
                == Some(x.deep_view()),
    {
        find_by_id(&self.workflows, id)
    }

    /// The custom node `id`.
    pub fn custom_node(&self, id: &str) -> (r: Option<&CustomNode>)
        ensures
            r is Some <==> found::<CustomNode>(self.deep_view().custom_nodes, id@) is Some,
            r matches Some(x) ==> found::<CustomNode>(self.deep_view().custom_nodes, id@) == Some(
                x.deep_view(),
            ),
    {
        find_by_id(&self.custom_nodes, id)
    }
}

}
