//! The install plan editor: which sources and dependencies of a package, an artifact or a workflow
//! are to be installed.
use crate::catalog::{
    found, group_artifacts_from, Artifact, ArtifactView, Catalog, CatalogView, CustomNode, Package,
    WorkflowDefinition,
};
use crate::health::{chained, HealthFacts, FactsView};
use crate::ids::{ascending, sorted_unique, IdMap, IdSet};
use crate::size::{format_human_size, human_size};
use crate::text::{
    cat2, cat3, cat4, cat5, cat6, clone_texts, decimal, decimal_text, has_prefix, has_text,
    starts_with, Text,
};
use vstd::prelude::*;
use vstd::string::*;

verus! {

/// What the dashboard asks its caller to do.
#[derive(Debug)]
pub enum DashboardAction {
    Quit,
    InstallComfyUi,
    LocateComfyUi,
    InstallPythonDeps,
    InstallSystemDeps,
    ConfigurePypi,
    SetHfToken,
    ToggleServer,
    InstallPackage(InstallSelection),
    InstallArtifact(InstallSelection),
    InstallCustomNode(String),
    InstallWorkflow(InstallSelection),
}

/// What was chosen in the plan editor: artifacts, each with the index of its source, and custom
/// nodes.
#[derive(Debug)]
pub struct InstallSelection {
    pub id: String,
    pub artifact_sources: Vec<(String, usize)>,
    pub custom_node_ids: Vec<String>,
}

/// What an [`InstallSelection`] holds.
pub struct SelectionView {
    pub id: Text,
    pub artifact_sources: Seq<(Text, usize)>,
    pub custom_node_ids: Seq<Text>,
}

impl DeepView for InstallSelection {
    type V = SelectionView;

    open spec fn deep_view(&self) -> SelectionView {
        SelectionView {
            id: self.id@,
            artifact_sources: self.artifact_sources.deep_view(),
            custom_node_ids: self.custom_node_ids.deep_view(),
        }
    }
}

/// What a [`DashboardAction`] holds.
pub enum ActionView {
    Quit,
    InstallComfyUi,
    LocateComfyUi,
    InstallPythonDeps,
    InstallSystemDeps,
    ConfigurePypi,
    SetHfToken,
    ToggleServer,
    InstallPackage(SelectionView),
    InstallArtifact(SelectionView),
    InstallCustomNode(Text),
    InstallWorkflow(SelectionView),
}

impl DeepView for DashboardAction {
    type V = ActionView;

    open spec fn deep_view(&self) -> ActionView {
        match self {
            DashboardAction::Quit => ActionView::Quit,
            DashboardAction::InstallComfyUi => ActionView::InstallComfyUi,
            DashboardAction::LocateComfyUi => ActionView::LocateComfyUi,
            DashboardAction::InstallPythonDeps => ActionView::InstallPythonDeps,
            DashboardAction::InstallSystemDeps => ActionView::InstallSystemDeps,
            DashboardAction::ConfigurePypi => ActionView::ConfigurePypi,
            DashboardAction::SetHfToken => ActionView::SetHfToken,
            DashboardAction::ToggleServer => ActionView::ToggleServer,
            DashboardAction::InstallPackage(s) => ActionView::InstallPackage(s.deep_view()),
            DashboardAction::InstallArtifact(s) => ActionView::InstallArtifact(s.deep_view()),
            DashboardAction::InstallCustomNode(id) => ActionView::InstallCustomNode(id@),
            DashboardAction::InstallWorkflow(s) => ActionView::InstallWorkflow(s.deep_view()),
        }
    }
}

/// A key, as far as the dashboard tells keys apart.
#[derive(Clone, Copy, Debug, PartialEq, Eq, Structural)]
pub enum Key {
    Esc,
    Enter,
    Tab,
    BackTab,
    Left,
    Right,
    Up,
    Down,
    Char { c: char, control: bool },
    Other,
}

/// What a plan is for.
pub enum PlanTarget {
    Package(String),
    Artifact(String),
    Workflow(String),
}

/// What a [`PlanTarget`] holds.
pub enum TargetView {
    Package(Text),
    Artifact(Text),
    Workflow(Text),
}

impl DeepView for PlanTarget {
    type V = TargetView;

    open spec fn deep_view(&self) -> TargetView {
        match self {
            PlanTarget::Package(id) => TargetView::Package(id@),
            PlanTarget::Artifact(id) => TargetView::Artifact(id@),
            PlanTarget::Workflow(id) => TargetView::Workflow(id@),
        }
    }
}

/// The plan editor.
pub struct PlanEditor {
    pub target: PlanTarget,
    pub cursor: usize,
    pub deps_expanded: bool,
    pub expanded_artifacts: IdSet,
    pub selected_sources: IdMap<usize>,
    pub disabled_dependencies: IdSet,
}

/// What a [`PlanEditor`] holds.
pub struct PlanView {
    pub target: TargetView,
    pub cursor: usize,
    pub deps_expanded: bool,
    pub expanded_artifacts: Set<Text>,
    pub selected_sources: Map<Text, usize>,
    pub disabled_dependencies: Set<Text>,
}

impl DeepView for PlanEditor {
    type V = PlanView;

    open spec fn deep_view(&self) -> PlanView {
        PlanView {
            target: self.target.deep_view(),
            cursor: self.cursor,
            deps_expanded: self.deps_expanded,
            expanded_artifacts: self.expanded_artifacts@,
            selected_sources: self.selected_sources@,
            disabled_dependencies: self.disabled_dependencies@,
        }
    }
}

/// A row of the plan editor.
pub enum PlanRow {
    Model(String),
    ModelSource(String, usize),
    Dependencies,
    DependencyArtifact(String),
    DependencySource(String, usize),
    DependencyNode(String),
    Accept,
    Cancel,
}

/// What a [`PlanRow`] holds.
pub enum RowView {
    Model(Text),
    ModelSource(Text, usize),
    Dependencies,
    DependencyArtifact(Text),
    DependencySource(Text, usize),
    DependencyNode(Text),
    Accept,
    Cancel,
}

impl DeepView for PlanRow {
    type V = RowView;

    open spec fn deep_view(&self) -> RowView {
        match self {
            PlanRow::Model(id) => RowView::Model(id@),
            PlanRow::ModelSource(id, i) => RowView::ModelSource(id@, *i),
            PlanRow::Dependencies => RowView::Dependencies,
            PlanRow::DependencyArtifact(id) => RowView::DependencyArtifact(id@),
            PlanRow::DependencySource(id, i) => RowView::DependencySource(id@, *i),
            PlanRow::DependencyNode(id) => RowView::DependencyNode(id@),
            PlanRow::Accept => RowView::Accept,
            PlanRow::Cancel => RowView::Cancel,
        }
    }
}

/// What a plan lists: models, dependencies and custom nodes.
pub struct PlanLists {
    pub models: Seq<Text>,
    pub dependencies: Seq<Text>,
    pub nodes: Seq<Text>,
}

/// The lists of a plan.
pub struct PlanParts {
    pub models: Vec<String>,
    pub dependencies: Vec<String>,
    pub nodes: Vec<String>,
}

impl DeepView for PlanParts {
    type V = PlanLists;

    open spec fn deep_view(&self) -> PlanLists {
        PlanLists {
            models: self.models.deep_view(),
            dependencies: self.dependencies.deep_view(),
            nodes: self.nodes.deep_view(),
        }
    }
}

/// The lists of a plan for nothing.
pub open spec fn empty_lists() -> PlanLists {
    PlanLists { models: Seq::empty(), dependencies: Seq::empty(), nodes: Seq::empty() }
}

/// The artifact is a model that generates images or videos.
pub open spec fn main_model(c: CatalogView, id: Text) -> bool {
    found::<Artifact>(c.artifacts, id) matches Some(a) && (has_prefix(
        a.relative_path,
        "models/diffusion_models/"@,
    ) || has_prefix(a.relative_path, "models/checkpoints/"@))
}

/// Those of the first `end` artifacts that are main models.
pub open spec fn main_models(c: CatalogView, ids: Seq<Text>, end: int) -> Seq<Text>
    decreases end,
{
    if end <= 0 {
        Seq::empty()
    } else {
        let rest = main_models(c, ids, end - 1);
        if main_model(c, ids[end - 1]) {
            rest.push(ids[end - 1])
        } else {
            rest
        }
    }
}

/// The models of a workflow: its main ones, or its first artifact where it has none.
pub open spec fn workflow_models(c: CatalogView, ids: Seq<Text>) -> Seq<Text> {
    let models = main_models(c, ids, ids.len() as int);
    if models.len() == 0 && ids.len() > 0 {
        seq![ids[0]]
    } else {
        models
    }
}

/// Those of the first `end` of `ids` that are not in `without`.
pub open spec fn others(ids: Seq<Text>, without: Seq<Text>, end: int) -> Seq<Text>
    decreases end,
{
    if end <= 0 {
        Seq::empty()
    } else {
        let rest = others(ids, without, end - 1);
        if without.contains(ids[end - 1]) {
            rest
        } else {
            rest.push(ids[end - 1])
        }
    }
}

/// What a plan lists. A package's dependencies and custom nodes, those of its optional groups
/// too, come in ascending order, each once.
pub open spec fn plan_lists(c: CatalogView, target: TargetView) -> PlanLists {
    match target {
        TargetView::Package(id) => match found::<Package>(c.packages, id) {
            Some(p) => PlanLists {
                models: p.primary_artifact_ids,
                dependencies: ascending(
                    (p.dependency_artifact_ids + group_artifacts_from(
                        p.optional_groups,
                        0,
                    )).to_set(),
                ),
                nodes: ascending(p.node_refs().to_set()),
            },
            None => empty_lists(),
        },
        TargetView::Artifact(id) => match found::<Artifact>(c.artifacts, id) {
            Some(_) => PlanLists {
                models: seq![id],
                dependencies: Seq::empty(),
                nodes: Seq::empty(),
            },
            None => empty_lists(),
        },
        TargetView::Workflow(id) => match found::<WorkflowDefinition>(c.workflows, id) {
            Some(w) => PlanLists {
                models: workflow_models(c, w.artifact_ids),
                dependencies: others(
                    w.artifact_ids,
                    workflow_models(c, w.artifact_ids),
                    w.artifact_ids.len() as int,
                ),
                nodes: w.custom_node_ids,
            },
            None => empty_lists(),
        },
    }
}

fn no_parts() -> (r: PlanParts)
    ensures
        r.deep_view() == empty_lists(),
{
    let r = PlanParts { models: Vec::new(), dependencies: Vec::new(), nodes: Vec::new() };
    assert(r.models.deep_view() =~= Seq::empty());
    assert(r.dependencies.deep_view() =~= Seq::empty());
    assert(r.nodes.deep_view() =~= Seq::empty());
    r
}

fn is_main_model(catalog: &Catalog, id: &str) -> (r: bool)
    ensures
        r == main_model(catalog.deep_view(), id@),
{
    match catalog.artifact(id) {
        Some(a) => starts_with(a.relative_path.as_str(), "models/diffusion_models/")
            || starts_with(a.relative_path.as_str(), "models/checkpoints/"),
        None => false,
    }
}

fn models_of_workflow(catalog: &Catalog, ids: &Vec<String>) -> (r: Vec<String>)
    ensures
        r.deep_view() == workflow_models(catalog.deep_view(), ids.deep_view()),
{
    let ghost c = catalog.deep_view();
    let ghost all = ids.deep_view();
    let mut out: Vec<String> = Vec::new();
    let mut i: usize = 0;
    assert(out.deep_view() =~= Seq::empty());
    while i < ids.len()
        invariant
            i <= ids@.len(),
            c == catalog.deep_view(),
            all == ids.deep_view(),
            out.deep_view() == main_models(c, all, i as int),
        decreases ids@.len() - i,
    {
        assert(all[i as int] == ids@[i as int]@);
        if is_main_model(catalog, ids[i].as_str()) {
            let ghost before = out.deep_view();
            out.push(ids[i].clone());
            assert(out.deep_view() =~= before.push(all[i as int]));
        }
        i += 1;
    }
    if out.len() == 0 && ids.len() > 0 {
        out.push(ids[0].clone());
        assert(out.deep_view() =~= seq![all[0]]);
    }
    out
}

fn texts_without(ids: &Vec<String>, without: &Vec<String>) -> (r: Vec<String>)
    ensures
        r.deep_view() == others(ids.deep_view(), without.deep_view(), ids@.len() as int),
{
    let ghost all = ids.deep_view();
    let ghost w = without.deep_view();
    let mut out: Vec<String> = Vec::new();
    let mut i: usize = 0;
    assert(out.deep_view() =~= Seq::empty());
    while i < ids.len()
        invariant
            i <= ids@.len(),
            all == ids.deep_view(),
            w == without.deep_view(),
            out.deep_view() == others(all, w, i as int),
        decreases ids@.len() - i,
    {
        assert(all[i as int] == ids@[i as int]@);
        if !has_text(without, ids[i].as_str()) {
            let ghost before = out.deep_view();
            out.push(ids[i].clone());
            assert(out.deep_view() =~= before.push(all[i as int]));
        }
        i += 1;
    }
    out
}

fn package_dependencies(p: &Package) -> (r: Vec<String>)
    ensures
        r.deep_view() == ascending(
            (p.deep_view().dependency_artifact_ids + group_artifacts_from(
                p.deep_view().optional_groups,
                0,
            )).to_set(),
        ),
{
    let ghost v = p.deep_view();
    let mut all = clone_texts(&p.dependency_artifact_ids);
    let ghost want = v.dependency_artifact_ids + group_artifacts_from(v.optional_groups, 0);
    let mut i: usize = 0;
    while i < p.optional_groups.len()
        invariant
            i <= p.optional_groups@.len(),
            v == p.deep_view(),
            want == all.deep_view() + group_artifacts_from(v.optional_groups, i as int),
        decreases p.optional_groups@.len() - i,
    {
        let more = chained(&all, &p.optional_groups[i].artifact_ids);
        proof {
            assert(v.optional_groups[i as int] == p.optional_groups@[i as int].deep_view());
            assert(want =~= more.deep_view() + group_artifacts_from(v.optional_groups, i + 1));
        }
        all = more;
        i += 1;
    }
    assert(want =~= all.deep_view());
    sorted_unique(&all)
}

/// The models, dependencies and custom nodes that a plan lists.
pub fn plan_artifacts(catalog: &Catalog, target: &PlanTarget) -> (r: PlanParts)
    ensures
        r.deep_view() == plan_lists(catalog.deep_view(), target.deep_view()),
{
    match target {
        PlanTarget::Package(id) => match catalog.package(id.as_str()) {
            Some(p) => {
                let refs = p.node_refs();
                PlanParts {
                    models: clone_texts(&p.primary_artifact_ids),
                    dependencies: package_dependencies(p),
                    nodes: sorted_unique(&refs),
                }
            },
            None => no_parts(),
        },
        PlanTarget::Artifact(id) => match catalog.artifact(id.as_str()) {
            Some(_) => {
                let mut parts = no_parts();
                parts.models.push(id.clone());
                assert(parts.models.deep_view() =~= seq![id@]);
                parts
            },
            None => no_parts(),
        },
        PlanTarget::Workflow(id) => match catalog.workflow(id.as_str()) {
            Some(w) => {
                let models = models_of_workflow(catalog, &w.artifact_ids);
                let dependencies = texts_without(&w.artifact_ids, &models);
                PlanParts { models, dependencies, nodes: clone_texts(&w.custom_node_ids) }
            },
            None => no_parts(),
        },
    }
}

/// How many rows the sources of an artifact take.
pub open spec fn source_rows(a: ArtifactView) -> nat {
    if a.sources.len() >= 1 {
        a.sources.len()
    } else {
        1
    }
}

impl PlanView {
    /// The rows of an artifact's sources, where it is expanded.
    pub open spec fn sources_of(self, c: CatalogView, id: Text, model: bool) -> Seq<RowView> {
        match found::<Artifact>(c.artifacts, id) {
            Some(a) => if self.expanded_artifacts.contains(id) {
                Seq::new(
                    source_rows(a),
                    |i: int|
                        if model {
                            RowView::ModelSource(id, i as usize)
                        } else {
                            RowView::DependencySource(id, i as usize)
                        },
                )
            } else {
                Seq::empty()
            },
            None => Seq::empty(),
        }
    }

    /// The row of an artifact and the rows of its sources.
    pub open spec fn artifact_rows(self, c: CatalogView, id: Text, model: bool) -> Seq<RowView> {
        seq![
            if model {
                RowView::Model(id)
            } else {
                RowView::DependencyArtifact(id)
            },
        ] + self.sources_of(c, id, model)
    }

    /// The rows of the first `end` artifacts.
    pub open spec fn rows_of(self, c: CatalogView, ids: Seq<Text>, model: bool, end: int) -> Seq<RowView>
        decreases end,
    {
        if end <= 0 {
            Seq::empty()
        } else {
            self.rows_of(c, ids, model, end - 1) + self.artifact_rows(c, ids[end - 1], model)
        }
    }

    /// The rows of the editor: the models, the dependencies where they are expanded, and the two
    /// rows that end it.
    pub open spec fn rows(self, c: CatalogView) -> Seq<RowView> {
        let lists = plan_lists(c, self.target);
        self.rows_of(c, lists.models, true, lists.models.len() as int) + seq![
            RowView::Dependencies,
        ] + (if self.deps_expanded {
            self.rows_of(c, lists.dependencies, false, lists.dependencies.len() as int)
                + lists.nodes.map_values(|id: Text| RowView::DependencyNode(id))
        } else {
            Seq::empty()
        }) + seq![RowView::Accept, RowView::Cancel]
    }

    /// The source that is chosen for an artifact: the first, unless another was.
    pub open spec fn source_for(self, id: Text) -> usize {
        if self.selected_sources.contains_key(id) {
            self.selected_sources[id]
        } else {
            0
        }
    }

    /// The dependency is to be installed.
    pub open spec fn enabled(self, id: Text) -> bool {
        !self.disabled_dependencies.contains(id)
    }

    /// The size that is shown of an artifact.
    pub open spec fn size_shown(self, c: CatalogView, id: Text, source: usize) -> Text {
        match found::<Artifact>(c.artifacts, id) {
            None => "size unknown"@,
            Some(a) => if source < a.sources.len() && a.sources[source as int].size is Some {
                a.sources[source as int].size->0
            } else {
                match a.size_bytes {
                    Some(n) => human_size(n as nat),
                    None => "size unknown"@,
                }
            },
        }
    }

    /// The name that is shown of an artifact.
    pub open spec fn name_shown(self, c: CatalogView, id: Text) -> Text {
        match found::<Artifact>(c.artifacts, id) {
            Some(a) => a.name,
            None => id,
        }
    }

    /// The title that is shown of an artifact's source.
    pub open spec fn title_shown(self, c: CatalogView, id: Text, source: usize) -> Text {
        match found::<Artifact>(c.artifacts, id) {
            Some(a) => if source < a.sources.len() {
                a.sources[source as int].title
            } else {
                a.name
            },
            None => "source"@,
        }
    }

    pub open spec fn arrow(self, open: bool) -> Text {
        if open {
            "▾"@
        } else {
            "▸"@
        }
    }

    pub open spec fn check(self, enabled: bool) -> Text {
        if enabled {
            "x"@
        } else {
            " "@
        }
    }

    /// `[health · size]`.
    pub open spec fn state_shown(self, f: FactsView, id: Text, size: Text) -> Text {
        "  ["@ + f.artifact(id).words() + " · "@ + size + "]"@
    }

    /// How many of the first `end` identifiers are enabled.
    pub open spec fn enabled_count(self, ids: Seq<Text>, end: int) -> nat
        decreases end,
    {
        if end <= 0 {
            0
        } else {
            self.enabled_count(ids, end - 1) + if self.enabled(ids[end - 1]) {
                1nat
            } else {
                0nat
            }
        }
    }

    /// What a row says.
    pub open spec fn row_text(self, c: CatalogView, f: FactsView, row: RowView) -> Text {
        match row {
            RowView::Model(id) => self.arrow(self.expanded_artifacts.contains(id)) + " Model  "@
                + self.name_shown(c, id) + self.state_shown(
                f,
                id,
                self.size_shown(c, id, self.source_for(id)),
            ),
            RowView::ModelSource(id, i) => self.source_text(c, f, id, i),
            RowView::DependencySource(id, i) => self.source_text(c, f, id, i),
            RowView::Dependencies => {
                let lists = plan_lists(c, self.target);
                let all = lists.dependencies + lists.nodes;
                self.arrow(self.deps_expanded) + " Dependencies  "@ + decimal(
                    self.enabled_count(all, all.len() as int),
                ) + "/"@ + decimal(all.len()) + " selected"@
            },
            RowView::DependencyArtifact(id) => "    "@ + self.arrow(
                self.expanded_artifacts.contains(id),
            ) + " ["@ + self.check(self.enabled(id)) + "] "@ + self.name_shown(c, id)
                + self.state_shown(f, id, self.size_shown(c, id, self.source_for(id))),
            RowView::DependencyNode(id) => "    ["@ + self.check(self.enabled(id)) + "] "@ + (
            match found::<CustomNode>(c.custom_nodes, id) {
                Some(n) => n.name,
                None => id,
            }) + "  ["@ + (if f.installed_nodes.contains(id) {
                "READY"@
            } else {
                "MISSING"@
            }) + "]"@,
            RowView::Accept => "              [ OK — start downloads ]"@,
            RowView::Cancel => "              [ Cancel ]"@,
        }
    }

    /// What the row of a source says.
    pub open spec fn source_text(self, c: CatalogView, f: FactsView, id: Text, i: usize) -> Text {
        "      "@ + (if self.source_for(id) == i {
            "●"@
        } else {
            "○"@
        }) + " "@ + self.title_shown(c, id, i) + self.state_shown(f, id, self.size_shown(c, id, i))
    }

    /// The line of a row, with its mark.
    pub open spec fn line_text(self, c: CatalogView, f: FactsView, row: RowView, selected: bool) -> Text {
        (if selected {
            "› "@
        } else {
            "  "@
        }) + self.row_text(c, f, row)
    }

    /// The row that the cursor is on.
    pub open spec fn cursor_row(self, c: CatalogView) -> int {
        let n = self.rows(c).len();
        if self.cursor < n {
            self.cursor as int
        } else {
            n - 1
        }
    }

    /// The editor with its cursor on a row.
    pub open spec fn clamped(self, c: CatalogView) -> PlanView {
        PlanView { cursor: self.cursor_row(c) as usize, ..self }
    }

    /// The lines of the editor.
    pub open spec fn lines(self, c: CatalogView, f: FactsView) -> Seq<(Text, bool)> {
        let rows = self.rows(c);
        Seq::new(
            rows.len(),
            |i: int|
                (
                    self.line_text(c, f, rows[i], i == self.cursor_row(c)),
                    i == self.cursor_row(c),
                ),
        )
    }

    pub open spec fn toggle_expanded(self, id: Text) -> PlanView {
        PlanView { expanded_artifacts: toggled(self.expanded_artifacts, id), ..self }
    }

    pub open spec fn toggle_disabled(self, id: Text) -> PlanView {
        PlanView { disabled_dependencies: toggled(self.disabled_dependencies, id), ..self }
    }

    /// The enabled ones of the first `end` identifiers, each with its source.
    pub open spec fn chosen_sources(self, ids: Seq<Text>, end: int) -> Seq<(Text, usize)>
        decreases end,
    {
        if end <= 0 {
            Seq::empty()
        } else {
            let rest = self.chosen_sources(ids, end - 1);
            if self.enabled(ids[end - 1]) {
                rest.push((ids[end - 1], self.source_for(ids[end - 1])))
            } else {
                rest
            }
        }
    }

    /// The enabled ones of the first `end` identifiers.
    pub open spec fn chosen(self, ids: Seq<Text>, end: int) -> Seq<Text>
        decreases end,
    {
        if end <= 0 {
            Seq::empty()
        } else {
            let rest = self.chosen(ids, end - 1);
            if self.enabled(ids[end - 1]) {
                rest.push(ids[end - 1])
            } else {
                rest
            }
        }
    }

    /// What is installed when the plan is accepted.
    pub open spec fn action(self, c: CatalogView) -> ActionView {
        let lists = plan_lists(c, self.target);
        let ids = lists.models + lists.dependencies;
        let sources = self.chosen_sources(ids, ids.len() as int);
        let nodes = self.chosen(lists.nodes, lists.nodes.len() as int);
        match self.target {
            TargetView::Package(id) => ActionView::InstallPackage(
                SelectionView { id, artifact_sources: sources, custom_node_ids: nodes },
            ),
            TargetView::Artifact(id) => ActionView::InstallArtifact(
                SelectionView { id, artifact_sources: sources, custom_node_ids: nodes },
            ),
            TargetView::Workflow(id) => ActionView::InstallWorkflow(
                SelectionView { id, artifact_sources: sources, custom_node_ids: nodes },
            ),
        }
    }

    /// The editor after its row was pressed, and what came of it. `space` says that the key enables
    /// and disables.
    pub open spec fn pressed(self, c: CatalogView, row: RowView, space: bool) -> (
        Option<PlanView>,
        Option<ActionView>,
    ) {
        match row {
            RowView::Model(id) => (Some(self.toggle_expanded(id).clamped(c)), None),
            RowView::ModelSource(id, i) => (
                Some(
                    PlanView {
                        selected_sources: self.selected_sources.insert(id, i),
                        ..self
                    }.clamped(c),
                ),
                None,
            ),
            RowView::DependencySource(id, i) => (
                Some(
                    PlanView {
                        selected_sources: self.selected_sources.insert(id, i),
                        ..self
                    }.clamped(c),
                ),
                None,
            ),
            RowView::Dependencies => (
                Some(PlanView { deps_expanded: !self.deps_expanded, ..self }.clamped(c)),
                None,
            ),
            RowView::DependencyArtifact(id) => if space {
                (Some(self.toggle_disabled(id).clamped(c)), None)
            } else {
                (Some(self.toggle_expanded(id).clamped(c)), None)
            },
            RowView::DependencyNode(id) => (Some(self.toggle_disabled(id).clamped(c)), None),
            RowView::Accept => (Some(self), Some(self.action(c))),
            RowView::Cancel => (None, None),
        }
    }

    /// The editor after a key, gone where it was left, and what came of it.
    pub open spec fn after(self, c: CatalogView, key: Key) -> (Option<PlanView>, Option<ActionView>) {
        let e = self.clamped(c);
        let n = e.rows(c).len();
        let row = e.rows(c)[e.cursor as int];
        if key == Key::Esc || key == Key::Left {
            (None, None)
        } else if key == Key::Down || key == Key::Tab || key_char(key, 'j') {
            (
                Some(
                    PlanView {
                        cursor: if e.cursor + 1 < n {
                            (e.cursor + 1) as usize
                        } else {
                            0
                        },
                        ..e
                    },
                ),
                None,
            )
        } else if key == Key::Up || key == Key::BackTab || key_char(key, 'k') {
            (
                Some(
                    PlanView {
                        cursor: if e.cursor > 0 {
                            (e.cursor - 1) as usize
                        } else {
                            (n - 1) as usize
                        },
                        ..e
                    },
                ),
                None,
            )
        } else if key == Key::Enter || key == Key::Right || key_char(key, ' ') {
            e.pressed(c, row, key_char(key, ' '))
        } else {
            (Some(e), None)
        }
    }
}

/// The key of a character.
pub open spec fn key_char(key: Key, want: char) -> bool {
    key matches Key::Char { c, .. } && c == want
}

/// Whether the key is that of a character.
pub fn is_char(key: Key, want: char) -> (r: bool)
    ensures
        r == key_char(key, want),
{
    match key {
        Key::Char { c, .. } => c == want,
        _ => false,
    }
}

/// `s` without `id` where it is in it, with it where it is not.
pub open spec fn toggled(s: Set<Text>, id: Text) -> Set<Text> {
    if s.contains(id) {
        s.remove(id)
    } else {
        s.insert(id)
    }
}

fn toggle(s: &mut IdSet, id: &String)
    ensures
        final(s)@ == toggled(old(s)@, id@),
{
    if s.contains(id.as_str()) {
        s.remove(id.as_str());
    } else {
        s.insert(id.clone());
    }
}

proof fn rows_of_ignore_cursor(
    e: PlanView,
    cursor: usize,
    c: CatalogView,
    ids: Seq<Text>,
    model: bool,
    end: int,
)
    ensures
        (PlanView { cursor, ..e }).rows_of(c, ids, model, end) == e.rows_of(c, ids, model, end),
    decreases end,
{
    if end > 0 {
        rows_of_ignore_cursor(e, cursor, c, ids, model, end - 1);
        let moved = PlanView { cursor, ..e };
        assert(moved.sources_of(c, ids[end - 1], model) =~= e.sources_of(c, ids[end - 1], model));
    }
}

/// The rows of the editor do not depend on where its cursor is.
pub proof fn rows_ignore_cursor(e: PlanView, cursor: usize, c: CatalogView)
    ensures
        (PlanView { cursor, ..e }).rows(c) == e.rows(c),
{
    let lists = plan_lists(c, e.target);
    rows_of_ignore_cursor(e, cursor, c, lists.models, true, lists.models.len() as int);
    rows_of_ignore_cursor(e, cursor, c, lists.dependencies, false, lists.dependencies.len() as int);
}

/// What came of a key in the plan editor.
pub enum PlanOutcome {
    /// The editor stays open.
    Stay,
    /// The editor is left.
    Close,
    /// The plan is accepted.
    Install(DashboardAction),
}

/// A line of the plan editor, and whether it is selected.
pub struct PlanLine {
    pub text: String,
    pub selected: bool,
}

impl DeepView for PlanLine {
    type V = (Text, bool);

    open spec fn deep_view(&self) -> (Text, bool) {
        (self.text@, self.selected)
    }
}

impl PlanEditor {
    fn push_sources(&self, rows: &mut Vec<PlanRow>, catalog: &Catalog, id: &String, model: bool)
        ensures
            final(rows).deep_view() == old(rows).deep_view() + self.deep_view().sources_of(
                catalog.deep_view(),
                id@,
                model,
            ),
    {
        let ghost start = rows.deep_view();
        let ghost want = self.deep_view().sources_of(catalog.deep_view(), id@, model);
        if !self.expanded_artifacts.contains(id.as_str()) {
            assert(rows.deep_view() =~= start + want);
            return ;
        }
        match catalog.artifact(id.as_str()) {
            None => {
                assert(rows.deep_view() =~= start + want);
            },
            Some(a) => {
                let n: usize = if a.sources.len() >= 1 {
                    a.sources.len()
                } else {
                    1
                };
                let mut i: usize = 0;
                assert(start =~= start + want.take(0));
                while i < n
                    invariant
                        i <= n,
                        n == want.len(),
                        want == Seq::new(
                            n as nat,
                            |i: int|
                                if model {
                                    RowView::ModelSource(id@, i as usize)
                                } else {
                                    RowView::DependencySource(id@, i as usize)
                                },
                        ),
                        rows.deep_view() == start + want.take(i as int),
                    decreases n - i,
                {
                    let ghost before = rows.deep_view();
                    if model {
                        rows.push(PlanRow::ModelSource(id.clone(), i));
                    } else {
                        rows.push(PlanRow::DependencySource(id.clone(), i));
                    }
                    assert(rows.deep_view() =~= before.push(want[i as int]));
                    assert(rows.deep_view() =~= start + want.take(i + 1));
                    i += 1;
                }
                assert(want.take(want.len() as int) =~= want);
            },
        }
    }

    fn push_artifacts(
        &self,
        rows: &mut Vec<PlanRow>,
        catalog: &Catalog,
        ids: &Vec<String>,
        model: bool,
    )
        ensures
            final(rows).deep_view() == old(rows).deep_view() + self.deep_view().rows_of(
                catalog.deep_view(),
                ids.deep_view(),
                model,
                ids@.len() as int,
            ),
    {
        let ghost start = rows.deep_view();
        let ghost e = self.deep_view();
        let ghost c = catalog.deep_view();
        let ghost all = ids.deep_view();
        let mut i: usize = 0;
        assert(start =~= start + e.rows_of(c, all, model, 0));
        while i < ids.len()
            invariant
                i <= ids@.len(),
                e == self.deep_view(),
                c == catalog.deep_view(),
                all == ids.deep_view(),
                rows.deep_view() == start + e.rows_of(c, all, model, i as int),
            decreases ids@.len() - i,
        {
            let ghost before = rows.deep_view();
            let ghost head = if model {
                RowView::Model(all[i as int])
            } else {
                RowView::DependencyArtifact(all[i as int])
            };
            if model {
                rows.push(PlanRow::Model(ids[i].clone()));
            } else {
                rows.push(PlanRow::DependencyArtifact(ids[i].clone()));
            }
            assert(rows.deep_view() =~= before.push(head));
            self.push_sources(rows, catalog, &ids[i], model);
            assert(rows.deep_view() =~= start + e.rows_of(c, all, model, i + 1));
            i += 1;
        }
    }

    /// The rows of the editor.
    pub fn plan_rows(&self, catalog: &Catalog) -> (r: Vec<PlanRow>)
        ensures
            r.deep_view() == self.deep_view().rows(catalog.deep_view()),
            r@.len() >= 3,
    {
        let ghost e = self.deep_view();
        let ghost c = catalog.deep_view();
        let parts = plan_artifacts(catalog, &self.target);
        let ghost lists = parts.deep_view();
        let mut rows: Vec<PlanRow> = Vec::new();
        assert(rows.deep_view() =~= Seq::empty());
        self.push_artifacts(&mut rows, catalog, &parts.models, true);
        let ghost a = e.rows_of(c, lists.models, true, lists.models.len() as int);
        assert(rows.deep_view() =~= a);
        rows.push(PlanRow::Dependencies);
        let ghost b = a + seq![RowView::Dependencies];
        assert(rows.deep_view() =~= b);
        let ghost mut middle = Seq::<RowView>::empty();
        if self.deps_expanded {
            self.push_artifacts(&mut rows, catalog, &parts.dependencies, false);
            let ghost deps = e.rows_of(
                c,
                lists.dependencies,
                false,
                lists.dependencies.len() as int,
            );
            let ghost want = lists.nodes.map_values(|id: Text| RowView::DependencyNode(id));
            let mut i: usize = 0;
            assert(rows.deep_view() =~= b + deps + want.take(0));
            while i < parts.nodes.len()
                invariant
                    i <= parts.nodes@.len(),
                    lists == parts.deep_view(),
                    want == lists.nodes.map_values(|id: Text| RowView::DependencyNode(id)),
                    rows.deep_view() == b + deps + want.take(i as int),
                decreases parts.nodes@.len() - i,
            {
                let ghost before = rows.deep_view();
                rows.push(PlanRow::DependencyNode(parts.nodes[i].clone()));
                assert(rows.deep_view() =~= before.push(want[i as int]));
                assert(rows.deep_view() =~= b + deps + want.take(i + 1));
                i += 1;
            }
            assert(want.take(want.len() as int) =~= want);
            proof {
                middle = deps + want;
            }
        }
        assert(rows.deep_view() =~= b + middle);
        rows.push(PlanRow::Accept);
        rows.push(PlanRow::Cancel);
        assert(rows.deep_view() =~= b + middle + seq![RowView::Accept, RowView::Cancel]);
        rows
    }

    fn source_for(&self, id: &str) -> (r: usize)
        ensures
            r == self.deep_view().source_for(id@),
    {
        match self.selected_sources.get(id) {
            Some(i) => *i,
            None => 0,
        }
    }

    fn enabled(&self, id: &str) -> (r: bool)
        ensures
            r == self.deep_view().enabled(id@),
    {
        !self.disabled_dependencies.contains(id)
    }

    fn size_shown(&self, catalog: &Catalog, id: &str, source: usize) -> (r: String)
        ensures
            r@ == self.deep_view().size_shown(catalog.deep_view(), id@, source),
    {
        match catalog.artifact(id) {
            None => "size unknown".to_owned(),
            Some(a) => {
                if source < a.sources.len() {
                    assert(a.deep_view().sources[source as int]
                        == a.sources@[source as int].deep_view());
                    if let Some(s) = &a.sources[source].size {
                        return s.clone();
                    }
                }
                match a.size_bytes {
                    Some(n) => format_human_size(n),
                    None => "size unknown".to_owned(),
                }
            },
        }
    }

    fn name_shown(&self, catalog: &Catalog, id: &str) -> (r: String)
        ensures
            r@ == self.deep_view().name_shown(catalog.deep_view(), id@),
    {
        match catalog.artifact(id) {
            Some(a) => a.name.clone(),
            None => id.to_owned(),
        }
    }

    fn title_shown(&self, catalog: &Catalog, id: &str, source: usize) -> (r: String)
        ensures
            r@ == self.deep_view().title_shown(catalog.deep_view(), id@, source),
    {
        match catalog.artifact(id) {
            Some(a) => {
                if source < a.sources.len() {
                    assert(a.deep_view().sources[source as int]
                        == a.sources@[source as int].deep_view());
                    a.sources[source].title.clone()
                } else {
                    a.name.clone()
                }
            },
            None => "source".to_owned(),
        }
    }

    fn arrow(&self, open: bool) -> (r: &'static str)
        ensures
            r@ == self.deep_view().arrow(open),
    {
        if open {
            "▾"
        } else {
            "▸"
        }
    }

    fn check(&self, enabled: bool) -> (r: &'static str)
        ensures
            r@ == self.deep_view().check(enabled),
    {
        if enabled {
            "x"
        } else {
            " "
        }
    }

    fn state_shown(&self, facts: &HealthFacts, id: &str, size: &str) -> (r: String)
        ensures
            r@ == self.deep_view().state_shown(facts.deep_view(), id@, size@),
    {
        cat5("  [", facts.artifact_health(id).label(), " · ", size, "]")
    }

    fn count_enabled(&self, ids: &Vec<String>) -> (r: usize)
        ensures
            r == self.deep_view().enabled_count(ids.deep_view(), ids@.len() as int),
    {
        let ghost e = self.deep_view();
        let ghost all = ids.deep_view();
        let mut n: usize = 0;
        let mut i: usize = 0;
        while i < ids.len()
            invariant
                i <= ids@.len(),
                n <= i,
                e == self.deep_view(),
                all == ids.deep_view(),
                n == e.enabled_count(all, i as int),
            decreases ids@.len() - i,
        {
            assert(all[i as int] == ids@[i as int]@);
            if self.enabled(ids[i].as_str()) {
                n += 1;
            }
            i += 1;
        }
        n
    }

    fn source_text(&self, catalog: &Catalog, facts: &HealthFacts, id: &str, i: usize) -> (r: String)
        ensures
            r@ == self.deep_view().source_text(
                catalog.deep_view(),
                facts.deep_view(),
                id@,
                i,
            ),
    {
        let size = self.size_shown(catalog, id, i);
        let state = self.state_shown(facts, id, size.as_str());
        let title = self.title_shown(catalog, id, i);
        let mark = if self.source_for(id) == i {
            "●"
        } else {
            "○"
        };
        cat5("      ", mark, " ", title.as_str(), state.as_str())
    }

    /// What a row says.
    pub fn row_text(&self, catalog: &Catalog, facts: &HealthFacts, row: &PlanRow) -> (r: String)
        ensures
            r@ == self.deep_view().row_text(
                catalog.deep_view(),
                facts.deep_view(),
                row.deep_view(),
            ),
    {
        match row {
            PlanRow::Model(id) => {
                let size = self.size_shown(catalog, id.as_str(), self.source_for(id.as_str()));
                let state = self.state_shown(facts, id.as_str(), size.as_str());
                let name = self.name_shown(catalog, id.as_str());
                let arrow = self.arrow(self.expanded_artifacts.contains(id.as_str()));
                cat4(arrow, " Model  ", name.as_str(), state.as_str())
            },
            PlanRow::ModelSource(id, i) => self.source_text(catalog, facts, id.as_str(), *i),
            PlanRow::DependencySource(id, i) => self.source_text(catalog, facts, id.as_str(), *i),
            PlanRow::Dependencies => {
                let parts = plan_artifacts(catalog, &self.target);
                let all = chained(&parts.dependencies, &parts.nodes);
                let n = decimal_text(self.count_enabled(&all) as u64);
                let total = decimal_text(all.len() as u64);
                cat6(
                    self.arrow(self.deps_expanded),
                    " Dependencies  ",
                    n.as_str(),
                    "/",
                    total.as_str(),
                    " selected",
                )
            },
            PlanRow::DependencyArtifact(id) => {
                let size = self.size_shown(catalog, id.as_str(), self.source_for(id.as_str()));
                let state = self.state_shown(facts, id.as_str(), size.as_str());
                let name = self.name_shown(catalog, id.as_str());
                let arrow = self.arrow(self.expanded_artifacts.contains(id.as_str()));
                let head = cat5(
                    "    ",
                    arrow,
                    " [",
                    self.check(self.enabled(id.as_str())),
                    "] ",
                );
                cat3(head.as_str(), name.as_str(), state.as_str())
            },
            PlanRow::DependencyNode(id) => {
                let name = match catalog.custom_node(id.as_str()) {
                    Some(n) => n.name.clone(),
                    None => id.clone(),
                };
                let ready = if facts.installed_nodes.contains(id.as_str()) {
                    "READY"
                } else {
                    "MISSING"
                };
                let head = cat4(
                    "    [",
                    self.check(self.enabled(id.as_str())),
                    "] ",
                    name.as_str(),
                );
                cat4(head.as_str(), "  [", ready, "]")
            },
            PlanRow::Accept => "              [ OK — start downloads ]".to_owned(),
            PlanRow::Cancel => "              [ Cancel ]".to_owned(),
        }
    }

    /// The lines of the editor.
    pub fn render_plan_lines(&self, catalog: &Catalog, facts: &HealthFacts) -> (r: Vec<PlanLine>)
        ensures
            r.deep_view() == self.deep_view().lines(catalog.deep_view(), facts.deep_view()),
    {
        let rows = self.plan_rows(catalog);
        let ghost e = self.deep_view();
        let ghost c = catalog.deep_view();
        let ghost f = facts.deep_view();
        let ghost views = rows.deep_view();
        let ghost want = e.lines(c, f);
        let at: usize = if self.cursor < rows.len() {
            self.cursor
        } else {
            rows.len() - 1
        };
        let mut out: Vec<PlanLine> = Vec::new();
        let mut i: usize = 0;
        assert(out.deep_view() =~= want.take(0));
        while i < rows.len()
            invariant
                i <= rows@.len(),
                e == self.deep_view(),
                c == catalog.deep_view(),
                f == facts.deep_view(),
                views == rows.deep_view(),
                views == e.rows(c),
                want == e.lines(c, f),
                at == e.cursor_row(c),
                out.deep_view() == want.take(i as int),
            decreases rows@.len() - i,
        {
            let ghost before = out.deep_view();
            assert(views[i as int] == rows@[i as int].deep_view());
            let selected = i == at;
            let text = self.row_text(catalog, facts, &rows[i]);
            let mark = if selected {
                "› "
            } else {
                "  "
            };
            let line = PlanLine { text: cat2(mark, text.as_str()), selected };
            assert(line.deep_view() == want[i as int]);
            out.push(line);
            assert(out.deep_view() =~= before.push(want[i as int]));
            assert(out.deep_view() =~= want.take(i + 1));
            i += 1;
        }
        assert(want.take(want.len() as int) =~= want);
        out
    }

    fn chosen_sources(&self, ids: &Vec<String>) -> (r: Vec<(String, usize)>)
        ensures
            r.deep_view() == self.deep_view().chosen_sources(ids.deep_view(), ids@.len() as int),
    {
        let ghost e = self.deep_view();
        let ghost all = ids.deep_view();
        let mut out: Vec<(String, usize)> = Vec::new();
        let mut i: usize = 0;
        assert(out.deep_view() =~= Seq::empty());
        while i < ids.len()
            invariant
                i <= ids@.len(),
                e == self.deep_view(),
                all == ids.deep_view(),
                out.deep_view() == e.chosen_sources(all, i as int),
            decreases ids@.len() - i,
        {
            assert(all[i as int] == ids@[i as int]@);
            if self.enabled(ids[i].as_str()) {
                let ghost before = out.deep_view();
                let source = self.source_for(ids[i].as_str());
                out.push((ids[i].clone(), source));
                assert(out.deep_view() =~= before.push((all[i as int], source)));
            }
            i += 1;
        }
        out
    }

    fn chosen(&self, ids: &Vec<String>) -> (r: Vec<String>)
        ensures
            r.deep_view() == self.deep_view().chosen(ids.deep_view(), ids@.len() as int),
    {
        let ghost e = self.deep_view();
        let ghost all = ids.deep_view();
        let mut out: Vec<String> = Vec::new();
        let mut i: usize = 0;
        assert(out.deep_view() =~= Seq::empty());
        while i < ids.len()
            invariant
                i <= ids@.len(),
                e == self.deep_view(),
                all == ids.deep_view(),
                out.deep_view() == e.chosen(all, i as int),
            decreases ids@.len() - i,
        {
            assert(all[i as int] == ids@[i as int]@);
            if self.enabled(ids[i].as_str()) {
                let ghost before = out.deep_view();
                out.push(ids[i].clone());
                assert(out.deep_view() =~= before.push(all[i as int]));
            }
            i += 1;
        }
        out
    }

    /// What is installed when the plan is accepted.
    pub fn action(&self, catalog: &Catalog) -> (r: DashboardAction)
        ensures
            r.deep_view() == self.deep_view().action(catalog.deep_view()),
    {
        let parts = plan_artifacts(catalog, &self.target);
        let ids = chained(&parts.models, &parts.dependencies);
        let artifact_sources = self.chosen_sources(&ids);
        let custom_node_ids = self.chosen(&parts.nodes);
        match &self.target {
            PlanTarget::Package(id) => DashboardAction::InstallPackage(
                InstallSelection { id: id.clone(), artifact_sources, custom_node_ids },
            ),
            PlanTarget::Artifact(id) => DashboardAction::InstallArtifact(
                InstallSelection { id: id.clone(), artifact_sources, custom_node_ids },
            ),
            PlanTarget::Workflow(id) => DashboardAction::InstallWorkflow(
                InstallSelection { id: id.clone(), artifact_sources, custom_node_ids },
            ),
        }
    }

    fn clamp(&mut self, catalog: &Catalog)
        ensures
            final(self).deep_view() == old(self).deep_view().clamped(catalog.deep_view()),
    {
        let n = self.plan_rows(catalog).len();
        if self.cursor >= n {
            self.cursor = n - 1;
        }
    }

    fn press(&mut self, catalog: &Catalog, row: &PlanRow, space: bool) -> (r: PlanOutcome)
        ensures
            ({
                let want = old(self).deep_view().pressed(
                    catalog.deep_view(),
                    row.deep_view(),
                    space,
                );
                match r {
                    PlanOutcome::Stay => want == (
                        Some(final(self).deep_view()),
                        None::<ActionView>,
                    ),
                    PlanOutcome::Close => want == (None::<PlanView>, None::<ActionView>),
                    PlanOutcome::Install(a) => want == (
                        Some(final(self).deep_view()),
                        Some(a.deep_view()),
                    ),
                }
            }),
    {
        match row {
            PlanRow::Model(id) => {
                toggle(&mut self.expanded_artifacts, id);
            },
            PlanRow::ModelSource(id, i) => {
                self.selected_sources.insert(id.clone(), *i);
            },
            PlanRow::DependencySource(id, i) => {
                self.selected_sources.insert(id.clone(), *i);
            },
            PlanRow::Dependencies => {
                self.deps_expanded = !self.deps_expanded;
            },
            PlanRow::DependencyArtifact(id) => {
                if space {
                    toggle(&mut self.disabled_dependencies, id);
                } else {
                    toggle(&mut self.expanded_artifacts, id);
                }
            },
            PlanRow::DependencyNode(id) => {
                toggle(&mut self.disabled_dependencies, id);
            },
            PlanRow::Accept => {
                return PlanOutcome::Install(self.action(catalog));
            },
            PlanRow::Cancel => {
                return PlanOutcome::Close;
            },
        }
        self.clamp(catalog);
        PlanOutcome::Stay
    }

    /// Takes in a key: moves the cursor, expands and enables rows, chooses sources, accepts or
    /// leaves the plan.
    pub fn handle_key(&mut self, catalog: &Catalog, key: Key) -> (r: PlanOutcome)
        ensures
            ({
                let want = old(self).deep_view().after(catalog.deep_view(), key);
                match r {
                    PlanOutcome::Stay => want == (
                        Some(final(self).deep_view()),
                        None::<ActionView>,
                    ),
                    PlanOutcome::Close => want == (None::<PlanView>, None::<ActionView>),
                    PlanOutcome::Install(a) => want == (
                        Some(final(self).deep_view()),
                        Some(a.deep_view()),
                    ),
                }
            }),
    {
        if key == Key::Esc || key == Key::Left {
            return PlanOutcome::Close;
        }
        let ghost before = self.deep_view();
        self.clamp(catalog);
        proof {
            rows_ignore_cursor(before, self.cursor, catalog.deep_view());
        }
        let rows = self.plan_rows(catalog);
        let n = rows.len();
        if key == Key::Down || key == Key::Tab || is_char(key, 'j') {
            self.cursor = if self.cursor < n - 1 {
                self.cursor + 1
            } else {
                0
            };
            return PlanOutcome::Stay;
        }
        if key == Key::Up || key == Key::BackTab || is_char(key, 'k') {
            self.cursor = if self.cursor > 0 {
                self.cursor - 1
            } else {
                n - 1
            };
            return PlanOutcome::Stay;
        }
        if key == Key::Enter || key == Key::Right || is_char(key, ' ') {
            assert(rows.deep_view()[self.cursor as int] == rows@[self.cursor as int].deep_view());
            return self.press(catalog, &rows[self.cursor], is_char(key, ' '));
        }
        PlanOutcome::Stay
    }
}

}
