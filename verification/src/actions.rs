//! What the commands and the dashboard's actions decide: endpoints, package indexes, selections,
//! catalog files, directories.
use crate::auth::HfTokenSource;
use crate::catalog::{
    found, Artifact, ArtifactView, Catalog, CatalogView, CustomNode, NodeView, Package,
    WorkflowDefinition,
};
use crate::comfy::{own_python, system_python, system_python_name, ComfySource, PythonFacts};
use crate::config::{AppConfig, ConfigView};
use crate::download::{holding_mount, mount_of, DownloadOptions, Mount, MountView, OptionsView};
use crate::ids::{ascending, sorted_unique, IdSet};
use crate::jobs::{Clock, QueueView};
use crate::outside::{lossy_text, lossy_utf8};
use crate::packages::{nodes_for, nodes_named};
use crate::paths::{extension, extension_of, join_path, joined_path};
use crate::plan::{ActionView, DashboardAction, InstallSelection, SelectionView};
use crate::queue::DownloadQueue;
use crate::state::{ManagedInstall, ManagedState};
use crate::text::{
    cat2, cat3, cat6, contains, contains_text, decimal, decimal_text, ends_with, has_suffix,
    same_text, text_lt, trim_end_char, trim, trimmed, trim_start_char, without_leading,
    without_trailing, Text,
};
use vstd::prelude::*;
use vstd::string::*;

verus! {

/// The Hugging Face endpoint to go by: the configured one, else that of the environment.
pub open spec fn endpoint_of(configured: Option<Text>, environment: Option<Text>) -> Option<Text> {
    match configured {
        Some(e) => Some(e),
        None => environment,
    }
}

/// The Hugging Face endpoint to go by: the configured one, else that of the environment.
pub fn effective_endpoint(cfg: &AppConfig, environment: Option<String>) -> (r: Option<String>)
    ensures
        r.deep_view() == endpoint_of(cfg.deep_view().hf_endpoint, environment.deep_view()),
{
    match &cfg.hf_endpoint {
        Some(e) => Some(e.clone()),
        None => environment,
    }
}

/// The endpoint as it is shown.
pub fn endpoint_label(endpoint: &Option<String>) -> (r: String)
    ensures
        r@ == match endpoint.deep_view() {
            Some(e) => e,
            None => "https://huggingface.co"@,
        },
{
    match endpoint {
        Some(e) => e.clone(),
        None => "https://huggingface.co".to_owned(),
    }
}

/// How downloads are carried out under the configuration.
pub open spec fn options_of(
    cfg: ConfigView,
    endpoint: Option<Text>,
    token: Option<Text>,
    force: bool,
) -> OptionsView {
    OptionsView {
        parallelism: cfg.download_parallelism,
        chunk_size_bytes: cfg.chunk_size_bytes,
        force,
        hf_endpoint: endpoint,
        hf_token: token,
    }
}

/// How downloads are carried out under the configuration.
pub fn download_options(
    cfg: &AppConfig,
    endpoint: Option<String>,
    token: Option<String>,
    force: bool,
) -> (r: DownloadOptions)
    ensures
        r.deep_view() == options_of(
            cfg.deep_view(),
            endpoint.deep_view(),
            token.deep_view(),
            force,
        ),
{
    DownloadOptions {
        parallelism: cfg.download_parallelism,
        chunk_size_bytes: cfg.chunk_size_bytes,
        force,
        hf_endpoint: endpoint,
        hf_token: token,
    }
}

/// The choices of a Hugging Face endpoint.
#[derive(Clone, Copy, Debug, PartialEq, Eq, Structural)]
pub enum HfSource {
    Mirror,
    Official,
}

impl HfSource {
    pub open spec fn address(self) -> Text {
        match self {
            HfSource::Mirror => "https://hf-mirror.com"@,
            HfSource::Official => "https://huggingface.co"@,
        }
    }

    pub open spec fn words(self) -> Text {
        match self {
            HfSource::Mirror => "China mirror — https://hf-mirror.com"@,
            HfSource::Official => "Official Hugging Face — https://huggingface.co"@,
        }
    }

    /// The endpoint.
    pub fn url(self) -> (r: &'static str)
        ensures
            r@ == self.address(),
    {
        match self {
            HfSource::Mirror => "https://hf-mirror.com",
            HfSource::Official => "https://huggingface.co",
        }
    }

    /// The choice in words.
    pub fn label(self) -> (r: &'static str)
        ensures
            r@ == self.words(),
    {
        match self {
            HfSource::Mirror => "China mirror — https://hf-mirror.com",
            HfSource::Official => "Official Hugging Face — https://huggingface.co",
        }
    }
}

/// A Python package index.
#[derive(Clone, Copy, Debug, PartialEq, Eq, Structural)]
pub enum PypiSource {
    Official,
    Alibaba,
    Tsinghua,
}

impl PypiSource {
    pub open spec fn address(self) -> Text {
        match self {
            PypiSource::Official => "https://pypi.org/simple"@,
            PypiSource::Alibaba => "https://mirrors.aliyun.com/pypi/simple/"@,
            PypiSource::Tsinghua => "https://pypi.tuna.tsinghua.edu.cn/simple"@,
        }
    }

    pub open spec fn words(self) -> Text {
        match self {
            PypiSource::Official => "Official PyPI — pypi.org"@,
            PypiSource::Alibaba => "China mirror (Alibaba Cloud) — faster inside China"@,
            PypiSource::Tsinghua => "China mirror (Tsinghua University)"@,
        }
    }

    /// The address of the index.
    pub fn url(self) -> (r: &'static str)
        ensures
            r@ == self.address(),
    {
        match self {
            PypiSource::Official => "https://pypi.org/simple",
            PypiSource::Alibaba => "https://mirrors.aliyun.com/pypi/simple/",
            PypiSource::Tsinghua => "https://pypi.tuna.tsinghua.edu.cn/simple",
        }
    }

    /// The index in words.
    pub fn label(self) -> (r: &'static str)
        ensures
            r@ == self.words(),
    {
        match self {
            PypiSource::Official => "Official PyPI — pypi.org",
            PypiSource::Alibaba => "China mirror (Alibaba Cloud) — faster inside China",
            PypiSource::Tsinghua => "China mirror (Tsinghua University)",
        }
    }
}

/// The indexes to choose from: the current one first.
pub open spec fn pypi_order(current: Text) -> Seq<PypiSource> {
    if current == PypiSource::Alibaba.address() {
        seq![PypiSource::Alibaba, PypiSource::Official, PypiSource::Tsinghua]
    } else if current == PypiSource::Tsinghua.address() {
        seq![PypiSource::Tsinghua, PypiSource::Official, PypiSource::Alibaba]
    } else {
        seq![PypiSource::Official, PypiSource::Alibaba, PypiSource::Tsinghua]
    }
}

/// The indexes to choose from: the current one first.
pub fn pypi_choices(current: &str) -> (r: Vec<PypiSource>)
    ensures
        r@ == pypi_order(current@),
{
    let mut out: Vec<PypiSource> = Vec::new();
    if same_text(current, PypiSource::Alibaba.url()) {
        out.push(PypiSource::Alibaba);
        out.push(PypiSource::Official);
        out.push(PypiSource::Tsinghua);
    } else if same_text(current, PypiSource::Tsinghua.url()) {
        out.push(PypiSource::Tsinghua);
        out.push(PypiSource::Official);
        out.push(PypiSource::Alibaba);
    } else {
        out.push(PypiSource::Official);
        out.push(PypiSource::Alibaba);
        out.push(PypiSource::Tsinghua);
    }
    assert(out@ =~= pypi_order(current@));
    out
}

/// Where ComfyUI is cloned from, in words.
pub open spec fn comfy_source_words(source: ComfySource) -> Text {
    match source {
        ComfySource::Gitee => "China mirror (Gitee) — faster and more reliable inside China"@,
        ComfySource::GitHub => "Official ComfyUI repository (GitHub)"@,
    }
}

/// Where ComfyUI is cloned from, in words.
pub fn comfy_source_label(source: ComfySource) -> (r: &'static str)
    ensures
        r@ == comfy_source_words(source),
{
    match source {
        ComfySource::Gitee => "China mirror (Gitee) — faster and more reliable inside China",
        ComfySource::GitHub => "Official ComfyUI repository (GitHub)",
    }
}

/// A token that was found there is handed to child processes in the environment.
pub open spec fn handed_on(source: HfTokenSource) -> bool {
    source != HfTokenSource::Environment
}

/// Whether a token that was found is handed to child processes in the environment: one from there
/// is in it already.
pub fn exports_token(source: HfTokenSource) -> (r: bool)
    ensures
        r == handed_on(source),
{
    source != HfTokenSource::Environment
}

/// The artifact with the address of the chosen source, and its size where the source gives one.
pub open spec fn from_source(a: ArtifactView, source: usize) -> ArtifactView {
    if source < a.sources.len() {
        let s = a.sources[source as int];
        ArtifactView {
            url: s.url,
            size_bytes: if s.size_bytes is Some {
                s.size_bytes
            } else {
                a.size_bytes
            },
            ..a
        }
    } else {
        a
    }
}

/// A copy of the artifact with the address of the chosen source.
pub fn artifact_from_source(artifact: &Artifact, source: usize) -> (r: Artifact)
    ensures
        r.deep_view() == from_source(artifact.deep_view(), source),
{
    let mut out = artifact.copy();
    if source < artifact.sources.len() {
        let s = &artifact.sources[source];
        assert(artifact.deep_view().sources[source as int] == s.deep_view());
        out.url = s.url.clone();
        if s.size_bytes.is_some() {
            out.size_bytes = s.size_bytes;
        }
    }
    out
}

/// The first `end` artifacts of a selection, each from its source, or the first that is unknown.
pub open spec fn selection_for(c: CatalogView, chosen: Seq<(Text, usize)>, end: int) -> Result<
    Seq<ArtifactView>,
    Text,
>
    decreases end,
{
    if end <= 0 {
        Ok(Seq::empty())
    } else {
        match selection_for(c, chosen, end - 1) {
            Err(e) => Err(e),
            Ok(rest) => match found::<Artifact>(c.artifacts, chosen[end - 1].0) {
                Some(a) => Ok(rest.push(from_source(a, chosen[end - 1].1))),
                None => Err("unknown artifact "@ + chosen[end - 1].0),
            },
        }
    }
}

proof fn selection_fails(c: CatalogView, chosen: Seq<(Text, usize)>, at: int, end: int)
    requires
        0 <= at <= end <= chosen.len(),
        selection_for(c, chosen, at) is Err,
    ensures
        selection_for(c, chosen, end) == selection_for(c, chosen, at),
    decreases end - at,
{
    if at < end {
        selection_fails(c, chosen, at, end - 1);
    }
}

/// The artifacts of a selection, each from its source.
pub fn selected_artifacts(catalog: &Catalog, selection: &InstallSelection) -> (r: Result<
    Vec<Artifact>,
    String,
>)
    ensures
        ({
            let chosen = selection.deep_view().artifact_sources;
            match r {
                Ok(v) => selection_for(catalog.deep_view(), chosen, chosen.len() as int) == Ok::<
                    Seq<ArtifactView>,
                    Text,
                >(v.deep_view()),
                Err(m) => selection_for(catalog.deep_view(), chosen, chosen.len() as int) == Err::<
                    Seq<ArtifactView>,
                    Text,
                >(m@),
            }
        }),
{
    let ghost c = catalog.deep_view();
    let ghost chosen = selection.deep_view().artifact_sources;
    let mut out: Vec<Artifact> = Vec::new();
    let mut i: usize = 0;
    assert(out.deep_view() =~= Seq::empty());
    while i < selection.artifact_sources.len()
        invariant
            i <= selection.artifact_sources@.len(),
            c == catalog.deep_view(),
            chosen == selection.deep_view().artifact_sources,
            selection_for(c, chosen, i as int) == Ok::<Seq<ArtifactView>, Text>(out.deep_view()),
        decreases selection.artifact_sources@.len() - i,
    {
        let entry = &selection.artifact_sources[i];
        assert(chosen[i as int] == entry.deep_view());
        match catalog.artifact(entry.0.as_str()) {
            Some(a) => {
                let ghost before = out.deep_view();
                let copied = artifact_from_source(a, entry.1);
                let ghost view = copied.deep_view();
                out.push(copied);
                assert(out.deep_view() =~= before.push(view));
            },
            None => {
                proof {
                    selection_fails(c, chosen, i + 1, chosen.len() as int);
                }
                return Err(cat2("unknown artifact ", entry.0.as_str()));
            },
        }
        i += 1;
    }
    Ok(out)
}

/// The identifiers of the first `end` chosen artifacts.
pub open spec fn selected_ids(chosen: Seq<(Text, usize)>, end: int) -> Set<Text>
    decreases end,
{
    if end <= 0 {
        Set::empty()
    } else {
        selected_ids(chosen, end - 1).insert(chosen[end - 1].0)
    }
}

/// What is recorded for a selection.
pub fn selection_install(selection: &InstallSelection) -> (r: ManagedInstall)
    ensures
        r.artifact_ids@ == selected_ids(
            selection.deep_view().artifact_sources,
            selection.artifact_sources@.len() as int,
        ),
        r.custom_node_ids@ == selection.deep_view().custom_node_ids.to_set(),
{
    let ghost chosen = selection.deep_view().artifact_sources;
    let mut ids = IdSet::new();
    let mut i: usize = 0;
    while i < selection.artifact_sources.len()
        invariant
            i <= selection.artifact_sources@.len(),
            chosen == selection.deep_view().artifact_sources,
            ids@ == selected_ids(chosen, i as int),
        decreases selection.artifact_sources@.len() - i,
    {
        let entry = &selection.artifact_sources[i];
        assert(chosen[i as int] == entry.deep_view());
        ids.insert(entry.0.clone());
        i += 1;
    }
    ManagedInstall {
        artifact_ids: ids,
        custom_node_ids: IdSet::from_texts(&selection.custom_node_ids),
    }
}

/// What a selection is recorded for.
#[derive(Clone, Copy, Debug, PartialEq, Eq, Structural)]
pub enum SelectionOwner {
    Package,
    Workflow,
}

/// What the state records for a selection.
pub open spec fn recorded_selection(m: ManagedInstall, s: SelectionView) -> bool {
    m.artifact_ids@ == selected_ids(s.artifact_sources, s.artifact_sources.len() as int)
        && m.custom_node_ids@ == s.custom_node_ids.to_set()
}

/// `after` is `before` with the record of a selection in place of what was recorded for its owner.
pub open spec fn selection_noted(
    before: Map<Text, ManagedInstall>,
    after: Map<Text, ManagedInstall>,
    s: SelectionView,
) -> bool {
    &&& after.contains_key(s.id)
    &&& recorded_selection(after[s.id], s)
    &&& after.remove(s.id) == before.remove(s.id)
}

/// Records what was chosen for a package or a workflow, in place of what was recorded before.
pub fn record_selection(
    state: &mut ManagedState,
    owner: SelectionOwner,
    selection: &InstallSelection,
)
    ensures
        ({
            let id = selection.id@;
            let (now, then, kept) = match owner {
                SelectionOwner::Package => (
                    final(state).packages@,
                    old(state).packages@,
                    final(state).workflows == old(state).workflows,
                ),
                SelectionOwner::Workflow => (
                    final(state).workflows@,
                    old(state).workflows@,
                    final(state).packages == old(state).packages,
                ),
            };
            &&& kept
            &&& selection_noted(then, now, selection.deep_view())
        }),
        final(state).comfy_pid == old(state).comfy_pid,
        final(state).comfy_log == old(state).comfy_log,
{
    let install = selection_install(selection);
    match owner {
        SelectionOwner::Package => {
            state.packages.insert(selection.id.clone(), install);
            assert(state.packages@.remove(selection.id@) =~= old(state).packages@.remove(
                selection.id@,
            ));
        },
        SelectionOwner::Workflow => {
            state.workflows.insert(selection.id.clone(), install);
            assert(state.workflows@.remove(selection.id@) =~= old(state).workflows@.remove(
                selection.id@,
            ));
        },
    }
}

/// Whether an action only queues work, so that the dashboard comes back at once.
pub open spec fn runs_in_background(a: ActionView) -> bool {
    a is InstallPackage || a is InstallArtifact || a is InstallCustomNode || a is InstallWorkflow
        || a is InstallPythonDeps || a is InstallSystemDeps
}

/// Whether an action only queues work, so that the dashboard comes back at once.
pub fn queues_downloads(action: &DashboardAction) -> (r: bool)
    ensures
        r == runs_in_background(action.deep_view()),
{
    match action {
        DashboardAction::InstallPackage(_) => true,
        DashboardAction::InstallArtifact(_) => true,
        DashboardAction::InstallCustomNode(_) => true,
        DashboardAction::InstallWorkflow(_) => true,
        DashboardAction::InstallPythonDeps => true,
        DashboardAction::InstallSystemDeps => true,
        _ => false,
    }
}

/// A file that holds a catalog, by its extension.
pub open spec fn catalog_file(windows: bool, path: Text) -> bool {
    extension_of(windows, path) == Some("toml"@) || extension_of(windows, path) == Some("json"@)
}

/// The catalog is in JSON.
pub fn is_json_catalog(path: &str, windows: bool) -> (r: bool)
    ensures
        r == (extension_of(windows, path@) == Some("json"@)),
{
    match extension(windows, path) {
        Some(e) => same_text(e.as_str(), "json"),
        None => false,
    }
}

/// The names of the catalog files among the first `end` names.
pub open spec fn catalog_names(windows: bool, names: Seq<Text>, end: int) -> Set<Text>
    decreases end,
{
    if end <= 0 {
        Set::empty()
    } else {
        let rest = catalog_names(windows, names, end - 1);
        if catalog_file(windows, names[end - 1]) {
            rest.insert(names[end - 1])
        } else {
            rest
        }
    }
}

/// The catalog files of a directory with these names, in the order in which they are merged.
pub fn catalog_files(names: &Vec<String>, windows: bool) -> (r: Vec<String>)
    ensures
        r.deep_view() == ascending(catalog_names(windows, names.deep_view(), names@.len() as int)),
{
    let ghost all = names.deep_view();
    let mut out = IdSet::new();
    let mut i: usize = 0;
    while i < names.len()
        invariant
            i <= names@.len(),
            all == names.deep_view(),
            out@ == catalog_names(windows, all, i as int),
        decreases names@.len() - i,
    {
        assert(all[i as int] == names@[i as int]@);
        let chosen = match extension(windows, names[i].as_str()) {
            Some(e) => same_text(e.as_str(), "toml") || same_text(e.as_str(), "json"),
            None => false,
        };
        if chosen {
            out.insert(names[i].clone());
        }
        i += 1;
    }
    out.to_texts()
}

/// When a built-in catalog is merged: the artifacts first, then what refers to them.
pub open spec fn builtin_rank(name: Text) -> nat {
    if name == "custom_nodes.json"@ {
        1
    } else if name == "packages.json"@ {
        2
    } else if name == "workflows.json"@ {
        3
    } else if name == "dependencies.json"@ {
        4
    } else {
        0
    }
}

fn rank_of(name: &str) -> (r: u8)
    ensures
        r == builtin_rank(name@),
{
    if same_text(name, "custom_nodes.json") {
        1
    } else if same_text(name, "packages.json") {
        2
    } else if same_text(name, "workflows.json") {
        3
    } else if same_text(name, "dependencies.json") {
        4
    } else {
        0
    }
}

/// `a` is merged before `b`.
pub open spec fn merged_before(a: Text, b: Text) -> bool {
    builtin_rank(a) < builtin_rank(b) || (builtin_rank(a) == builtin_rank(b) && text_lt(a, b))
}

/// Those of `names` with the rank, in order.
pub open spec fn with_rank(names: Seq<Text>, rank: nat, end: int) -> Seq<Text>
    decreases end,
{
    if end <= 0 {
        Seq::empty()
    } else {
        let rest = with_rank(names, rank, end - 1);
        if builtin_rank(names[end - 1]) == rank {
            rest.push(names[end - 1])
        } else {
            rest
        }
    }
}

/// The built-in catalogs in the order in which they are merged: by rank, then by name.
pub open spec fn builtin_order(names: Set<Text>) -> Seq<Text> {
    let all = ascending(names);
    let n = all.len() as int;
    with_rank(all, 0, n) + with_rank(all, 1, n) + with_rank(all, 2, n) + with_rank(all, 3, n)
        + with_rank(all, 4, n)
}

fn push_rank(out: &mut Vec<String>, names: &Vec<String>, rank: u8)
    ensures
        final(out).deep_view() == old(out).deep_view() + with_rank(
            names.deep_view(),
            rank as nat,
            names@.len() as int,
        ),
{
    let ghost start = out.deep_view();
    let ghost all = names.deep_view();
    let mut i: usize = 0;
    assert(start =~= start + with_rank(all, rank as nat, 0));
    while i < names.len()
        invariant
            i <= names@.len(),
            all == names.deep_view(),
            out.deep_view() == start + with_rank(all, rank as nat, i as int),
        decreases names@.len() - i,
    {
        assert(all[i as int] == names@[i as int]@);
        if rank_of(names[i].as_str()) == rank {
            let ghost before = out.deep_view();
            out.push(names[i].clone());
            assert(out.deep_view() =~= before.push(all[i as int]));
            assert(out.deep_view() =~= start + with_rank(all, rank as nat, i + 1));
        }
        i += 1;
    }
}

/// The built-in catalogs in the order in which they are merged.
pub fn builtin_catalog_order(names: &Vec<String>) -> (r: Vec<String>)
    ensures
        r.deep_view() == builtin_order(names.deep_view().to_set()),
{
    let all = sorted_unique(names);
    let mut out: Vec<String> = Vec::new();
    assert(out.deep_view() =~= Seq::empty());
    let ghost a = all.deep_view();
    let ghost n = a.len() as int;
    push_rank(&mut out, &all, 0);
    push_rank(&mut out, &all, 1);
    push_rank(&mut out, &all, 2);
    push_rank(&mut out, &all, 3);
    push_rank(&mut out, &all, 4);
    assert(out.deep_view() =~= with_rank(a, 0, n) + with_rank(a, 1, n) + with_rank(a, 2, n)
        + with_rank(a, 3, n) + with_rank(a, 4, n));
    out
}

/// `name` without every `.json` at its end.
pub open spec fn without_json(name: Text) -> Text
    decreases name.len(),
{
    if has_suffix(name, ".json"@) && ".json"@.len() > 0 {
        without_json(name.take(name.len() - ".json"@.len()))
    } else {
        name
    }
}

/// The identifier of a bundled workflow, by the name of its file.
pub fn workflow_id(file: &str) -> (r: String)
    ensures
        r@ == without_json(file@),
{
    proof {
        reveal_strlit(".json");
    }
    let mut name = file.to_owned();
    while ends_with(name.as_str(), ".json")
        invariant
            without_json(name@) == without_json(file@),
            ".json"@.len() == 5,
        decreases name@.len(),
    {
        let v = crate::text::chars_of(name.as_str());
        let n = v.len();
        let shorter = crate::text::text_between(&v, 0, n - 5);
        assert(name@.take(n - 5) =~= v@.subrange(0, n - 5));
        name = shorter;
    }
    name
}

/// Where a workflow that a command names is read from.
pub enum WorkflowSource {
    File(String),
    Bundled(String),
}

/// Where a workflow that a command names is read from: the file where one is given, else the
/// bundled one with the identifier.
pub fn resolve_workflow(id: Option<&str>, file: Option<String>, catalog: &Catalog) -> (r: Result<
    WorkflowSource,
    String,
>)
    ensures
        match (file, id) {
            (Some(f), _) => r == Ok::<WorkflowSource, String>(WorkflowSource::File(f)),
            (None, None) => r matches Err(m) && m@ == "provide workflow id or --file"@,
            (None, Some(i)) => match found::<WorkflowDefinition>(
                catalog.deep_view().workflows,
                i@,
            ) {
                Some(_) => r matches Ok(WorkflowSource::Bundled(b)) && b@ == i@,
                None => r matches Err(m) && m@ == "unknown workflow "@ + i@,
            },
        },
{
    if let Some(f) = file {
        return Ok(WorkflowSource::File(f));
    }
    match id {
        None => Err("provide workflow id or --file".to_owned()),
        Some(i) => match catalog.workflow(i) {
            Some(_) => Ok(WorkflowSource::Bundled(i.to_owned())),
            None => Err(cat2("unknown workflow ", i)),
        },
    }
}

/// The free space where `path` is, as far as its volume is known.
pub open spec fn free_space_of(windows: bool, ms: Seq<MountView>, path: Text) -> Option<u64> {
    let at = mount_of(windows, ms, path, ms.len() as int);
    if at >= 0 {
        Some(ms[at].available)
    } else {
        None
    }
}

/// The free space where `path` is, as far as its volume is known.
pub fn disk_free_for(mounts: &Vec<Mount>, path: &str, windows: bool) -> (r: Option<u64>)
    ensures
        r == free_space_of(windows, mounts.deep_view(), path@),
{
    let ghost ms = mounts.deep_view();
    match holding_mount(windows, mounts, path) {
        Some(b) => {
            assert(ms[b as int] == mounts@[b as int].deep_view());
            Some(mounts[b].available)
        },
        None => None,
    }
}

/// The Python that is shown for an installation: its embedded one on Windows, its own, else that
/// of the system.
pub open spec fn shown_python(
    root: Text,
    windows: bool,
    embedded: bool,
    facts: PythonFacts,
    system: bool,
) -> Option<Text> {
    if windows && embedded {
        Some(joined_path(windows, root, "python_embeded/python.exe"@))
    } else if own_python(root, windows, facts) is Some {
        own_python(root, windows, facts)
    } else if system {
        Some(system_python_name(windows))
    } else {
        None
    }
}

/// The Python that is shown for an installation.
pub fn find_any_python(
    root: &str,
    windows: bool,
    embedded: bool,
    facts: PythonFacts,
    system: bool,
) -> (r: Option<String>)
    ensures
        r.deep_view() == shown_python(root@, windows, embedded, facts, system),
{
    if windows && embedded {
        return Some(join_path(windows, root, "python_embeded/python.exe"));
    }
    match crate::comfy::find_python(root, windows, facts) {
        Some(p) => Some(p),
        None => if system {
            Some(system_python(windows).to_owned())
        } else {
            None
        },
    }
}

/// The program that tells whether a system dependency is there, and its argument; none for one that
/// is not known.
pub open spec fn probe_of(id: Text) -> Option<(Text, Text)> {
    if id == "libegl"@ {
        Some(("ldconfig"@, "-p"@))
    } else if id == "ffmpeg"@ {
        Some(("ffmpeg"@, "-version"@))
    } else {
        None
    }
}

/// The program that tells whether a system dependency is there, and its argument.
pub fn system_dependency_probe(id: &str) -> (r: Option<(&'static str, &'static str)>)
    ensures
        (match r {
            Some((program, argument)) => Some((program@, argument@)),
            None => None,
        }) == probe_of(id@),
{
    if same_text(id, "libegl") {
        Some(("ldconfig", "-p"))
    } else if same_text(id, "ffmpeg") {
        Some(("ffmpeg", "-version"))
    } else {
        None
    }
}

/// What a probe says of a system dependency: the library is listed, or the program runs.
pub open spec fn dependency_there(id: Text, ran: bool, succeeded: bool, output: Text) -> bool {
    ran && (if id == "libegl"@ {
        contains_text(output, "libEGL.so.1"@)
    } else {
        id == "ffmpeg"@ && succeeded
    })
}

/// Whether a system dependency is there, given what its probe printed and whether it succeeded.
pub fn system_dependency_ready(id: &str, ran: bool, succeeded: bool, output: &str) -> (r: bool)
    ensures
        r == dependency_there(id@, ran, succeeded, output@),
{
    if !ran {
        return false;
    }
    if same_text(id, "libegl") {
        contains(output, "libEGL.so.1")
    } else {
        same_text(id, "ffmpeg") && succeeded
    }
}

/// What was chosen in the list of a directory.
pub enum BrowseChoice {
    /// This directory.
    Here,
    /// The one above.
    Up,
    /// One in it.
    Into(String),
}

/// The label of an entry of a directory.
pub open spec fn entry_label(name: Text) -> Text {
    "["@ + name + "]"@
}

/// The labels of a directory's list: the directory itself, the one above where there is one, and
/// its directories in ascending order.
pub open spec fn browse_labels_of(names: Set<Text>, has_parent: bool) -> Seq<Text> {
    seq!["[select this directory]"@] + (if has_parent {
        seq!["[..]"@]
    } else {
        Seq::empty()
    }) + ascending(names).map_values(|n: Text| entry_label(n))
}

/// The labels of a directory's list.
pub fn browse_labels(names: &Vec<String>, has_parent: bool) -> (r: Vec<String>)
    ensures
        r.deep_view() == browse_labels_of(names.deep_view().to_set(), has_parent),
{
    let sorted = sorted_unique(names);
    let ghost all = sorted.deep_view();
    let ghost want = all.map_values(|n: Text| entry_label(n));
    let mut out: Vec<String> = Vec::new();
    out.push("[select this directory]".to_owned());
    if has_parent {
        out.push("[..]".to_owned());
    }
    let ghost head = seq!["[select this directory]"@] + (if has_parent {
        seq!["[..]"@]
    } else {
        Seq::empty()
    });
    assert(out.deep_view() =~= head);
    let mut i: usize = 0;
    assert(head =~= head + want.take(0));
    while i < sorted.len()
        invariant
            i <= sorted@.len(),
            all == sorted.deep_view(),
            want == all.map_values(|n: Text| entry_label(n)),
            out.deep_view() == head + want.take(i as int),
        decreases sorted@.len() - i,
    {
        let ghost before = out.deep_view();
        out.push(cat3("[", sorted[i].as_str(), "]"));
        assert(out.deep_view() =~= before.push(want[i as int]));
        assert(out.deep_view() =~= head + want.take(i + 1));
        i += 1;
    }
    assert(want.take(want.len() as int) =~= want);
    out
}

/// The directory that a label stands for: a name in brackets.
pub open spec fn named_in(label: Text) -> Text {
    without_trailing(without_leading(label, '['), ']')
}

/// What a label of a directory's list stands for.
pub fn browse_choice(label: &str) -> (r: BrowseChoice)
    ensures
        if label@ == "[select this directory]"@ {
            r is Here
        } else if label@ == "[..]"@ {
            r is Up
        } else {
            r matches BrowseChoice::Into(n) && n@ == named_in(label@)
        },
{
    if same_text(label, "[select this directory]") {
        return BrowseChoice::Here;
    }
    if same_text(label, "[..]") {
        return BrowseChoice::Up;
    }
    let start = trim_start_char(label, '[');
    BrowseChoice::Into(trim_end_char(start.as_str(), ']'))
}

/// How many artifacts, packages and workflows a catalog has, with `sep` between.
pub open spec fn counts_of(c: CatalogView, sep: Text) -> Text {
    decimal(c.artifacts.len()) + " artifacts"@ + sep + decimal(c.packages.len()) + " packages"@
        + sep + decimal(c.workflows.len()) + " workflows"@
}

/// How many artifacts, packages and workflows a catalog has.
pub fn catalog_counts(catalog: &Catalog, sep: &str) -> (r: String)
    ensures
        r@ == counts_of(catalog.deep_view(), sep@),
{
    let a = decimal_text(catalog.artifacts.len() as u64);
    let p = decimal_text(catalog.packages.len() as u64);
    let w = decimal_text(catalog.workflows.len() as u64);
    let head = cat6(a.as_str(), " artifacts", sep, p.as_str(), " packages", sep);
    cat3(head.as_str(), w.as_str(), " workflows")
}

/// Whether a directory holds temporary data of ComfyBox, by its name.
pub fn is_temp_dir(name: &str) -> (r: bool)
    ensures
        r == (name@ == ".comfybox-tmp"@),
{
    same_text(name, ".comfybox-tmp")
}

/// What a selection is installed for.
#[derive(Clone, Copy, Debug, PartialEq, Eq, Structural)]
pub enum SelectionTarget {
    Package,
    Artifact,
    Workflow,
}

/// What keeps a selection from being installed: its package or workflow is unknown, or one of its
/// artifacts or custom nodes is.
pub open spec fn selection_problem(c: CatalogView, target: SelectionTarget, s: SelectionView) -> Option<
    Text,
> {
    let artifacts = selection_for(c, s.artifact_sources, s.artifact_sources.len() as int);
    let nodes = nodes_for(c, s.custom_node_ids, s.custom_node_ids.len() as int);
    let owner = match target {
        SelectionTarget::Package => if found::<Package>(c.packages, s.id) is None {
            Some("unknown package "@ + s.id)
        } else {
            None
        },
        SelectionTarget::Workflow => if found::<WorkflowDefinition>(c.workflows, s.id) is None {
            Some("unknown workflow "@ + s.id)
        } else {
            None
        },
        SelectionTarget::Artifact => None,
    };
    match owner {
        Some(m) => Some(m),
        None => if target == SelectionTarget::Workflow {
            match (nodes, artifacts) {
                (Err(m), _) => Some(m),
                (_, Err(m)) => Some(m),
                _ => None,
            }
        } else {
            match (artifacts, nodes) {
                (Err(m), _) => Some(m),
                (_, Err(m)) => Some(m),
                _ => None,
            }
        },
    }
}

/// The artifacts of a selection that can be installed.
pub open spec fn selection_artifacts(c: CatalogView, s: SelectionView) -> Seq<ArtifactView> {
    match selection_for(c, s.artifact_sources, s.artifact_sources.len() as int) {
        Ok(v) => v,
        Err(_) => Seq::empty(),
    }
}

/// The custom nodes of a selection that can be installed.
pub open spec fn selection_nodes(c: CatalogView, s: SelectionView) -> Seq<NodeView> {
    match nodes_for(c, s.custom_node_ids, s.custom_node_ids.len() as int) {
        Ok(v) => v,
        Err(_) => Seq::empty(),
    }
}

/// What a selection is made of.
pub struct SelectionOrder {
    pub artifacts: Vec<Artifact>,
    pub nodes: Vec<CustomNode>,
}

/// The artifacts and custom nodes of a selection, or what keeps it from being installed.
pub fn order_selection(
    catalog: &Catalog,
    target: SelectionTarget,
    selection: &InstallSelection,
) -> (r: Result<SelectionOrder, String>)
    ensures
        match selection_problem(catalog.deep_view(), target, selection.deep_view()) {
            Some(m) => r matches Err(e) && e@ == m,
            None => r matches Ok(order) && order.artifacts.deep_view() == selection_artifacts(
                catalog.deep_view(),
                selection.deep_view(),
            ) && order.nodes.deep_view() == selection_nodes(
                catalog.deep_view(),
                selection.deep_view(),
            ),
        },
{
    match target {
        SelectionTarget::Package => {
            if catalog.package(selection.id.as_str()).is_none() {
                return Err(cat2("unknown package ", selection.id.as_str()));
            }
        },
        SelectionTarget::Workflow => {
            if catalog.workflow(selection.id.as_str()).is_none() {
                return Err(cat2("unknown workflow ", selection.id.as_str()));
            }
        },
        SelectionTarget::Artifact => {},
    }
    let artifacts = selected_artifacts(catalog, selection);
    let nodes = nodes_named(catalog, &selection.custom_node_ids);
    if target == SelectionTarget::Workflow {
        match (nodes, artifacts) {
            (Err(m), _) => Err(m),
            (Ok(_), Err(m)) => Err(m),
            (Ok(nodes), Ok(artifacts)) => Ok(SelectionOrder { artifacts, nodes }),
        }
    } else {
        match (artifacts, nodes) {
            (Err(m), _) => Err(m),
            (Ok(_), Err(m)) => Err(m),
            (Ok(artifacts), Ok(nodes)) => Ok(SelectionOrder { artifacts, nodes }),
        }
    }
}

/// The queue with the artifacts of a selection, and then its custom nodes, queued; and how many
/// artifacts were.
pub open spec fn selection_queued(
    q: QueueView,
    c: CatalogView,
    root: Text,
    s: SelectionView,
    options: OptionsView,
    now: Clock,
) -> (QueueView, nat) {
    let (next, n) = q.enqueued(root, selection_artifacts(c, s), options, now);
    (next.queue_nodes(root, selection_nodes(c, s), now), n)
}

/// A selection is recorded for its package or its workflow; for an artifact nothing is.
pub open spec fn selection_kept(
    target: SelectionTarget,
    before: ManagedState,
    after: ManagedState,
    s: SelectionView,
) -> bool {
    match target {
        SelectionTarget::Package => after.workflows == before.workflows && selection_noted(
            before.packages@,
            after.packages@,
            s,
        ),
        SelectionTarget::Workflow => after.packages == before.packages && selection_noted(
            before.workflows@,
            after.workflows@,
            s,
        ),
        SelectionTarget::Artifact => after == before,
    }
}

/// Queues what was chosen in the plan editor, and records it for its package or workflow. Where
/// something is unknown nothing changes.
pub fn install_selection(
    catalog: &Catalog,
    queue: &mut DownloadQueue,
    state: &mut ManagedState,
    root: &str,
    target: SelectionTarget,
    selection: &InstallSelection,
    options: &DownloadOptions,
    now: Clock,
) -> (r: Result<usize, String>)
    ensures
        match selection_problem(catalog.deep_view(), target, selection.deep_view()) {
            Some(m) => (r matches Err(e) && e@ == m) && *final(queue) == *old(queue)
                && *final(state) == *old(state),
            None => {
                let (q, n) = selection_queued(
                    old(queue).deep_view(),
                    catalog.deep_view(),
                    root@,
                    selection.deep_view(),
                    options.deep_view(),
                    now,
                );
                &&& r matches Ok(added) && added == n
                &&& final(queue).deep_view() == q
                &&& selection_kept(target, *old(state), *final(state), selection.deep_view())
            },
        },
        final(state).comfy_pid == old(state).comfy_pid,
        final(state).comfy_log == old(state).comfy_log,
{
    let order = match order_selection(catalog, target, selection) {
        Err(m) => {
            return Err(m);
        },
        Ok(order) => order,
    };
    let added = queue.enqueue(root, order.artifacts, options, now);
    queue.enqueue_custom_nodes(root, order.nodes, now);
    match target {
        SelectionTarget::Package => record_selection(state, SelectionOwner::Package, selection),
        SelectionTarget::Workflow => record_selection(state, SelectionOwner::Workflow, selection),
        SelectionTarget::Artifact => {},
    }
    Ok(added)
}

/// What the server's switch does.
#[derive(Clone, Copy, Debug, PartialEq, Eq, Structural)]
pub enum ServerSwitch {
    Stop,
    Start,
}

/// What the server's switch does, or why it is refused.
pub open spec fn switch_of(dependencies_ready: bool, running: bool) -> Result<ServerSwitch, Text> {
    if !dependencies_ready {
        Err("install the ComfyUI Python dependencies before starting or stopping the server"@)
    } else if running {
        Ok(ServerSwitch::Stop)
    } else {
        Ok(ServerSwitch::Start)
    }
}

/// What the server's switch does: refused while the Python dependencies are not ready.
pub fn server_switch(dependencies_ready: bool, running: bool) -> (r: Result<ServerSwitch, String>)
    ensures
        match switch_of(dependencies_ready, running) {
            Ok(s) => r == Ok::<ServerSwitch, String>(s),
            Err(m) => r matches Err(e) && e@ == m,
        },
{
    if !dependencies_ready {
        return Err(
            "install the ComfyUI Python dependencies before starting or stopping the server".to_owned(),
        );
    }
    if running {
        Ok(ServerSwitch::Stop)
    } else {
        Ok(ServerSwitch::Start)
    }
}

/// The arguments of Python that write an index to pip's configuration.
pub fn pip_index_args(url: &str) -> (r: Vec<String>)
    ensures
        r.deep_view() == seq!["-m"@, "pip"@, "config"@, "set"@, "global.index-url"@, url@],
{
    let mut args: Vec<String> = Vec::new();
    args.push("-m".to_owned());
    args.push("pip".to_owned());
    args.push("config".to_owned());
    args.push("set".to_owned());
    args.push("global.index-url".to_owned());
    args.push(url.to_owned());
    assert(args.deep_view() =~= seq![
        "-m"@,
        "pip"@,
        "config"@,
        "set"@,
        "global.index-url"@,
        url@,
    ]);
    args
}

/// What is reported where pip's configuration could not be written.
pub fn pip_config_error(stderr: &Vec<u8>) -> (r: String)
    ensures
        r@ == "pip configuration failed: "@ + trimmed(lossy_text(stderr@)),
{
    let text = lossy_utf8(stderr);
    let short = trim(text.as_str());
    cat2("pip configuration failed: ", short.as_str())
}

/// What the doctor says of the configuration.
pub open spec fn doctor_report(
    c: CatalogView,
    cfg: ConfigView,
    environment: Option<Text>,
    has_token: bool,
) -> Seq<Text> {
    seq![
        "catalog: "@ + counts_of(c, " / "@),
        "ComfyUI: "@ + match cfg.comfy_path {
            Some(p) => p,
            None => "not configured"@,
        },
        "HF endpoint: "@ + match endpoint_of(cfg.hf_endpoint, environment) {
            Some(e) => e,
            None => "https://huggingface.co"@,
        },
        "HF token: "@ + if has_token {
            "present"@
        } else {
            "not set"@
        },
    ]
}

/// What the doctor says of the configuration.
pub fn doctor_lines(
    catalog: &Catalog,
    cfg: &AppConfig,
    environment: Option<String>,
    has_token: bool,
) -> (r: Vec<String>)
    ensures
        r.deep_view() == doctor_report(
            catalog.deep_view(),
            cfg.deep_view(),
            environment.deep_view(),
            has_token,
        ),
{
    let ghost env = environment.deep_view();
    let counts = catalog_counts(catalog, " / ");
    let path: &str = match &cfg.comfy_path {
        Some(p) => p.as_str(),
        None => "not configured",
    };
    let endpoint = endpoint_label(&effective_endpoint(cfg, environment));
    let token = if has_token {
        "present"
    } else {
        "not set"
    };
    let mut out: Vec<String> = Vec::new();
    out.push(cat2("catalog: ", counts.as_str()));
    out.push(cat2("ComfyUI: ", path));
    out.push(cat2("HF endpoint: ", endpoint.as_str()));
    out.push(cat2("HF token: ", token));
    assert(out.deep_view() =~= doctor_report(catalog.deep_view(), cfg.deep_view(), env, has_token));
    out
}

}
