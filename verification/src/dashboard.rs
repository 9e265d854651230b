//! The dashboard's state: its sections, what is selected in them, and what keys do.
use crate::catalog::{found, Artifact, ArtifactView, Catalog, CatalogView, GroupView, Package};
use crate::config::{AppConfig, ConfigView};
use crate::health::chained;
use crate::ids::{IdMap, IdSet};
use crate::jobs::{Clock, QueueView};
use crate::plan::{
    is_char, key_char, plan_artifacts, plan_lists, ActionView, DashboardAction, InstallSelection,
    Key, PlanEditor, PlanOutcome, PlanTarget, PlanView, SelectionView, TargetView,
};
use crate::queue::DownloadQueue;
use crate::text::{has_prefix, starts_with, Text};
use vstd::prelude::*;
use vstd::string::*;

verus! {

/// A view of the dashboard.
#[derive(Clone, Copy, Debug, PartialEq, Eq, Structural)]
pub enum Section {
    Overview,
    Models,
    Loras,
    Vaes,
    TextEncoders,
    Upscalers,
    RuntimeModels,
    CustomNodes,
    Workflows,
    Downloads,
    Logs,
    Settings,
    System,
}

/// How many sections there are.
pub const SECTIONS: usize = 13;

impl Section {
    pub open spec fn order(self) -> usize {
        match self {
            Section::Overview => 0,
            Section::Models => 1,
            Section::Loras => 2,
            Section::Vaes => 3,
            Section::TextEncoders => 4,
            Section::Upscalers => 5,
            Section::RuntimeModels => 6,
            Section::CustomNodes => 7,
            Section::Workflows => 8,
            Section::Downloads => 9,
            Section::Logs => 10,
            Section::Settings => 11,
            Section::System => 12,
        }
    }

    pub open spec fn words(self) -> Text {
        match self {
            Section::Overview => "Overview"@,
            Section::Models => "Models"@,
            Section::Loras => "LoRAs"@,
            Section::Vaes => "VAEs"@,
            Section::TextEncoders => "Text Encoders"@,
            Section::Upscalers => "Upscalers"@,
            Section::RuntimeModels => "Runtime"@,
            Section::CustomNodes => "Custom Nodes"@,
            Section::Workflows => "Workflows"@,
            Section::Downloads => "Downloads"@,
            Section::Logs => "Logs"@,
            Section::Settings => "Settings"@,
            Section::System => "System"@,
        }
    }

    pub open spec fn short_words(self) -> Text {
        match self {
            Section::Overview => "Home"@,
            Section::Models => "Models"@,
            Section::Loras => "LoRA"@,
            Section::Vaes => "VAE"@,
            Section::TextEncoders => "Text"@,
            Section::Upscalers => "Up"@,
            Section::RuntimeModels => "Run"@,
            Section::CustomNodes => "Nodes"@,
            Section::Workflows => "Flows"@,
            Section::Downloads => "DL"@,
            Section::Logs => "Logs"@,
            Section::Settings => "Set"@,
            Section::System => "Sys"@,
        }
    }

    /// A library of artifacts.
    pub open spec fn is_library(self) -> bool {
        self == Section::Loras || self == Section::Vaes || self == Section::TextEncoders || self
            == Section::Upscalers || self == Section::RuntimeModels
    }

    /// Where the library's artifacts lie below the ComfyUI root.
    pub open spec fn prefix(self) -> Option<Text> {
        match self {
            Section::Loras => Some("models/loras/"@),
            Section::Vaes => Some("models/vae/"@),
            Section::TextEncoders => Some("models/text_encoders/"@),
            Section::Upscalers => Some("models/upscale_models/"@),
            Section::RuntimeModels => Some("runtime_models/"@),
            _ => None,
        }
    }

    /// The section with the number `i`.
    pub fn at(i: usize) -> (r: Section)
        requires
            i < SECTIONS,
        ensures
            r.order() == i,
    {
        if i == 0 {
            Section::Overview
        } else if i == 1 {
            Section::Models
        } else if i == 2 {
            Section::Loras
        } else if i == 3 {
            Section::Vaes
        } else if i == 4 {
            Section::TextEncoders
        } else if i == 5 {
            Section::Upscalers
        } else if i == 6 {
            Section::RuntimeModels
        } else if i == 7 {
            Section::CustomNodes
        } else if i == 8 {
            Section::Workflows
        } else if i == 9 {
            Section::Downloads
        } else if i == 10 {
            Section::Logs
        } else if i == 11 {
            Section::Settings
        } else {
            Section::System
        }
    }

    /// The number of the section.
    pub fn index(self) -> (r: usize)
        ensures
            r == self.order(),
            r < SECTIONS,
    {
        match self {
            Section::Overview => 0,
            Section::Models => 1,
            Section::Loras => 2,
            Section::Vaes => 3,
            Section::TextEncoders => 4,
            Section::Upscalers => 5,
            Section::RuntimeModels => 6,
            Section::CustomNodes => 7,
            Section::Workflows => 8,
            Section::Downloads => 9,
            Section::Logs => 10,
            Section::Settings => 11,
            Section::System => 12,
        }
    }

    /// The title of the section.
    pub fn title(self) -> (r: &'static str)
        ensures
            r@ == self.words(),
    {
        match self {
            Section::Overview => "Overview",
            Section::Models => "Models",
            Section::Loras => "LoRAs",
            Section::Vaes => "VAEs",
            Section::TextEncoders => "Text Encoders",
            Section::Upscalers => "Upscalers",
            Section::RuntimeModels => "Runtime",
            Section::CustomNodes => "Custom Nodes",
            Section::Workflows => "Workflows",
            Section::Downloads => "Downloads",
            Section::Logs => "Logs",
            Section::Settings => "Settings",
            Section::System => "System",
        }
    }

    /// The title of the section where there is little room.
    pub fn short_title(self) -> (r: &'static str)
        ensures
            r@ == self.short_words(),
    {
        match self {
            Section::Overview => "Home",
            Section::Models => "Models",
            Section::Loras => "LoRA",
            Section::Vaes => "VAE",
            Section::TextEncoders => "Text",
            Section::Upscalers => "Up",
            Section::RuntimeModels => "Run",
            Section::CustomNodes => "Nodes",
            Section::Workflows => "Flows",
            Section::Downloads => "DL",
            Section::Logs => "Logs",
            Section::Settings => "Set",
            Section::System => "Sys",
        }
    }

    fn library_prefix(self) -> (r: Option<&'static str>)
        ensures
            crate::state::opt_text(r) == self.prefix(),
            r is Some <==> self.is_library(),
    {
        match self {
            Section::Loras => Some("models/loras/"),
            Section::Vaes => Some("models/vae/"),
            Section::TextEncoders => Some("models/text_encoders/"),
            Section::Upscalers => Some("models/upscale_models/"),
            Section::RuntimeModels => Some("runtime_models/"),
            _ => None,
        }
    }

    pub open spec fn next_of(self) -> usize {
        if self.order() + 1 < SECTIONS {
            (self.order() + 1) as usize
        } else {
            0
        }
    }

    pub open spec fn previous_of(self) -> usize {
        if self.order() > 0 {
            (self.order() - 1) as usize
        } else {
            (SECTIONS - 1) as usize
        }
    }

    /// The section to the right, the first after the last.
    pub fn next(self) -> (r: Section)
        ensures
            r.order() == self.next_of(),
    {
        let i: usize = self.index();
        Section::at(
            if i + 1 < SECTIONS {
                i + 1
            } else {
                0
            },
        )
    }

    /// The section to the left, the last before the first.
    pub fn previous(self) -> (r: Section)
        ensures
            r.order() == self.previous_of(),
    {
        let i: usize = self.index();
        Section::at(
            if i > 0 {
                i - 1
            } else {
                SECTIONS - 1
            },
        )
    }
}

/// The section with the number `i`.
pub open spec fn section_at(i: usize) -> Section {
    choose|s: Section| s.order() == i
}

/// A section is known by its number.
pub proof fn sections_differ(a: Section, b: Section)
    requires
        a.order() == b.order(),
    ensures
        a == b,
{
}

/// Those of the first `end` artifacts that lie below the prefix.
pub open spec fn below(arts: Seq<ArtifactView>, prefix: Text, end: int) -> Seq<ArtifactView>
    decreases end,
{
    if end <= 0 {
        Seq::empty()
    } else {
        let rest = below(arts, prefix, end - 1);
        if has_prefix(arts[end - 1].relative_path, prefix) {
            rest.push(arts[end - 1])
        } else {
            rest
        }
    }
}

/// The artifacts of a section.
pub open spec fn library_of(c: CatalogView, section: Section) -> Seq<ArtifactView> {
    match section.prefix() {
        Some(p) => below(c.artifacts, p, c.artifacts.len() as int),
        None => Seq::empty(),
    }
}

/// The artifacts of a section.
pub fn artifacts_for_section<'a>(catalog: &'a Catalog, section: Section) -> (r: Vec<&'a Artifact>)
    ensures
        r.deep_view() == library_of(catalog.deep_view(), section),
{
    let ghost arts = catalog.deep_view().artifacts;
    let mut out: Vec<&Artifact> = Vec::new();
    assert(out.deep_view() =~= Seq::empty());
    if let Some(prefix) = section.library_prefix() {
        let mut i: usize = 0;
        while i < catalog.artifacts.len()
            invariant
                i <= catalog.artifacts@.len(),
                arts == catalog.deep_view().artifacts,
                out.deep_view() == below(arts, prefix@, i as int),
            decreases catalog.artifacts@.len() - i,
        {
            let a = &catalog.artifacts[i];
            assert(arts[i as int] == a.deep_view());
            if starts_with(a.relative_path.as_str(), prefix) {
                let ghost before = out.deep_view();
                out.push(a);
                assert(out.deep_view() =~= before.push(a.deep_view()));
            }
            i += 1;
        }
    }
    out
}

/// The state of the dashboard.
pub struct Dashboard {
    pub section: Section,
    pub model_index: usize,
    pub artifact_index: usize,
    pub custom_node_index: usize,
    pub workflow_index: usize,
    pub download_index: usize,
    pub download_detail: bool,
    pub plan_editor: Option<PlanEditor>,
    pub clear_before_draw: bool,
}

/// What a [`Dashboard`] holds.
pub struct DashView {
    pub section: Section,
    pub model_index: usize,
    pub artifact_index: usize,
    pub custom_node_index: usize,
    pub workflow_index: usize,
    pub download_index: usize,
    pub download_detail: bool,
    pub plan_editor: Option<PlanView>,
    pub clear_before_draw: bool,
}

impl DeepView for Dashboard {
    type V = DashView;

    open spec fn deep_view(&self) -> DashView {
        DashView {
            section: self.section,
            model_index: self.model_index,
            artifact_index: self.artifact_index,
            custom_node_index: self.custom_node_index,
            workflow_index: self.workflow_index,
            download_index: self.download_index,
            download_detail: self.download_detail,
            plan_editor: self.plan_editor.deep_view(),
            clear_before_draw: self.clear_before_draw,
        }
    }
}

/// What a key asks of the caller.
pub enum KeyOutcome {
    Nothing,
    /// Leave the dashboard and do this.
    Act(DashboardAction),
    /// Look whether the Python dependencies are ready, and call [`Dashboard::server_key`].
    CheckServer,
    /// Save the configuration.
    SaveConfig,
    /// Look at everything again.
    Refresh,
}

/// What a [`KeyOutcome`] holds.
pub enum KeyOutcomeView {
    Nothing,
    Act(ActionView),
    CheckServer,
    SaveConfig,
    Refresh,
}

impl DeepView for KeyOutcome {
    type V = KeyOutcomeView;

    open spec fn deep_view(&self) -> KeyOutcomeView {
        match self {
            KeyOutcome::Nothing => KeyOutcomeView::Nothing,
            KeyOutcome::Act(a) => KeyOutcomeView::Act(a.deep_view()),
            KeyOutcome::CheckServer => KeyOutcomeView::CheckServer,
            KeyOutcome::SaveConfig => KeyOutcomeView::SaveConfig,
            KeyOutcome::Refresh => KeyOutcomeView::Refresh,
        }
    }
}

/// What keys work on.
pub struct Board {
    pub dash: DashView,
    pub cfg: ConfigView,
    pub queue: QueueView,
}

/// The most files, and the most chunks of one, that are downloaded at a time.
pub const MOST_PARALLEL: usize = 32;

pub open spec fn one_more(n: usize) -> usize {
    if n + 1 <= MOST_PARALLEL {
        (n + 1) as usize
    } else {
        MOST_PARALLEL
    }
}

pub open spec fn one_less(n: usize) -> usize {
    if n >= 2 {
        (n - 1) as usize
    } else {
        1
    }
}

fn more_of(n: usize) -> (r: usize)
    ensures
        r == one_more(n),
{
    if n < MOST_PARALLEL {
        n + 1
    } else {
        MOST_PARALLEL
    }
}

fn less_of(n: usize) -> (r: usize)
    ensures
        r == one_less(n),
{
    if n >= 2 {
        n - 1
    } else {
        1
    }
}

/// The index after a step down or up a list of `len` entries that goes round.
pub open spec fn stepped(index: usize, len: nat, down: bool) -> usize {
    if len == 0 {
        0
    } else if down {
        ((index + 1) % (len as int)) as usize
    } else {
        ((index - 1) % (len as int)) as usize
    }
}

fn step_index(index: usize, len: usize, down: bool) -> (r: usize)
    ensures
        r == stepped(index, len as nat, down),
{
    if len == 0 {
        return 0;
    }
    let at: usize = index % len;
    let ghost n: int = len as int;
    proof {
        let q = index as int / n;
        assert(index == q * n + at) by (nonlinear_arith)
            requires
                q == index as int / n,
                at == index as int % n,
                n > 0,
        ;
        if down {
            if at + 1 < n {
                vstd::arithmetic::div_mod::lemma_fundamental_div_mod_converse(
                    index + 1,
                    n,
                    q,
                    at + 1,
                );
            } else {
                assert((q + 1) * n == q * n + n) by (nonlinear_arith);
                vstd::arithmetic::div_mod::lemma_fundamental_div_mod_converse(
                    index + 1,
                    n,
                    q + 1,
                    0,
                );
            }
        } else {
            if at > 0 {
                vstd::arithmetic::div_mod::lemma_fundamental_div_mod_converse(
                    index - 1,
                    n,
                    q,
                    at - 1,
                );
            } else {
                assert((q - 1) * n == q * n - n) by (nonlinear_arith);
                vstd::arithmetic::div_mod::lemma_fundamental_div_mod_converse(
                    index - 1,
                    n,
                    q - 1,
                    n - 1,
                );
            }
        }
    }
    if down {
        if at < len - 1 {
            at + 1
        } else {
            0
        }
    } else if at > 0 {
        at - 1
    } else {
        len - 1
    }
}

/// The entry that an index into a list stands for: the last where it is past the end.
pub open spec fn within(index: usize, len: nat) -> int {
    if index < len {
        index as int
    } else {
        len - 1
    }
}

/// How many records a queue lists, as far as they can be counted.
pub open spec fn record_count(q: QueueView) -> nat {
    if q.snapshots().len() <= usize::MAX {
        q.snapshots().len()
    } else {
        usize::MAX as nat
    }
}

/// The artifacts and custom nodes of the first `end` groups.
pub open spec fn optional_ids(groups: Seq<GroupView>, end: int) -> Set<Text>
    decreases end,
{
    if end <= 0 {
        Set::empty()
    } else {
        optional_ids(groups, end - 1).union(groups[end - 1].artifact_ids.to_set()).union(
            groups[end - 1].custom_node_ids.to_set(),
        )
    }
}

/// The plan editor as it opens: everything is expanded, and optional groups are disabled.
pub open spec fn opened(c: CatalogView, target: TargetView) -> PlanView {
    let lists = plan_lists(c, target);
    PlanView {
        target,
        cursor: 0,
        deps_expanded: true,
        expanded_artifacts: (lists.models + lists.dependencies).to_set(),
        selected_sources: Map::empty(),
        disabled_dependencies: match target {
            TargetView::Package(id) => match found::<Package>(c.packages, id) {
                Some(p) => optional_ids(p.optional_groups, p.optional_groups.len() as int),
                None => Set::empty(),
            },
            _ => Set::empty(),
        },
    }
}

impl DashView {
    /// What a plan would be for, where one can be opened.
    pub open spec fn plan_target(self, c: CatalogView) -> Option<TargetView> {
        if self.section == Section::Models {
            if self.model_index < c.packages.len()
                && c.packages[self.model_index as int].primary_artifact_ids.len() > 0 {
                Some(TargetView::Package(c.packages[self.model_index as int].id))
            } else {
                None
            }
        } else if self.section == Section::Workflows {
            if self.workflow_index < c.workflows.len() {
                Some(TargetView::Workflow(c.workflows[self.workflow_index as int].id))
            } else {
                None
            }
        } else if self.section.is_library() {
            let arts = library_of(c, self.section);
            if arts.len() > 0 {
                Some(TargetView::Artifact(arts[within(self.artifact_index, arts.len())].id))
            } else {
                None
            }
        } else {
            None
        }
    }

    /// The dashboard after the plan editor was asked for.
    pub open spec fn with_plan(self, c: CatalogView, root_valid: bool) -> DashView {
        match self.plan_target(c) {
            Some(t) => if root_valid {
                DashView { plan_editor: Some(opened(c, t)), ..self }
            } else {
                self
            },
            None => self,
        }
    }

    /// The dashboard after the selection was moved.
    pub open spec fn moved(self, c: CatalogView, q: QueueView, down: bool) -> DashView {
        if self.section == Section::Models {
            DashView { model_index: stepped(self.model_index, c.packages.len(), down), ..self }
        } else if self.section.is_library() {
            DashView {
                artifact_index: stepped(
                    self.artifact_index,
                    library_of(c, self.section).len(),
                    down,
                ),
                ..self
            }
        } else if self.section == Section::CustomNodes {
            DashView {
                custom_node_index: stepped(self.custom_node_index, c.custom_nodes.len(), down),
                ..self
            }
        } else if self.section == Section::Workflows {
            DashView {
                workflow_index: stepped(self.workflow_index, c.workflows.len(), down),
                ..self
            }
        } else if self.section == Section::Downloads {
            DashView { download_index: stepped(self.download_index, record_count(q), down), ..self }
        } else {
            self
        }
    }

    /// What Enter asks for where it opens no plan.
    pub open spec fn selected(self, c: CatalogView, root_valid: bool) -> Option<ActionView> {
        if self.section.is_library() {
            let arts = library_of(c, self.section);
            if root_valid && arts.len() > 0 {
                let id = arts[within(self.artifact_index, arts.len())].id;
                Some(
                    ActionView::InstallArtifact(
                        SelectionView {
                            id,
                            artifact_sources: seq![(id, 0usize)],
                            custom_node_ids: Seq::empty(),
                        },
                    ),
                )
            } else {
                None
            }
        } else if self.section == Section::CustomNodes {
            if root_valid && self.custom_node_index < c.custom_nodes.len() {
                Some(
                    ActionView::InstallCustomNode(c.custom_nodes[self.custom_node_index as int].id),
                )
            } else {
                None
            }
        } else if self.section == Section::System {
            if c.system_dependencies.len() > 0 {
                Some(ActionView::InstallSystemDeps)
            } else {
                None
            }
        } else {
            None
        }
    }

    pub open spec fn at_section(self, i: usize) -> DashView {
        DashView { section: section_at(i), clear_before_draw: true, ..self }
    }
}

/// The digit of a key, from 1 to 9.
pub open spec fn key_digit(key: Key) -> Option<usize> {
    match key {
        Key::Char { c, .. } => if '1' <= c <= '9' {
            Some((c as int - '0' as int) as usize)
        } else {
            None
        },
        _ => None,
    }
}

impl Board {
    pub open spec fn quiet(self) -> (Board, KeyOutcomeView) {
        (self, KeyOutcomeView::Nothing)
    }

    pub open spec fn act(self, action: ActionView) -> (Board, KeyOutcomeView) {
        (self, KeyOutcomeView::Act(action))
    }

    pub open spec fn with_dash(self, dash: DashView) -> (Board, KeyOutcomeView) {
        (Board { dash, ..self }, KeyOutcomeView::Nothing)
    }

    pub open spec fn with_queue(self, queue: QueueView) -> (Board, KeyOutcomeView) {
        (Board { queue, ..self }, KeyOutcomeView::Nothing)
    }

    /// What keys of the plan editor do.
    pub open spec fn plan_key(self, c: CatalogView, e: PlanView, key: Key) -> (
        Board,
        KeyOutcomeView,
    ) {
        let (editor, action) = e.after(c, key);
        (
            Board { dash: DashView { plan_editor: editor, ..self.dash }, ..self },
            match action {
                Some(a) => KeyOutcomeView::Act(a),
                None => KeyOutcomeView::Nothing,
            },
        )
    }

    /// What the keys of the Downloads section do.
    pub open spec fn downloads_key(self, key: Key, now: Clock) -> Option<(Board, KeyOutcomeView)> {
        let at = self.dash.download_index as int;
        if key_char(key, 'x') {
            Some(self.with_queue(self.queue.paused(at, now)))
        } else if key_char(key, 'c') {
            Some(self.with_queue(self.queue.resumed(at, now)))
        } else if key_char(key, 'r') {
            Some(self.with_queue(self.queue.retried(at, now)))
        } else if key == Key::Enter {
            Some(self.with_dash(DashView { download_detail: true, ..self.dash }))
        } else {
            None
        }
    }

    /// What the keys of the Settings section do.
    pub open spec fn settings_key(self, key: Key, now: Clock) -> Option<(Board, KeyOutcomeView)> {
        let more = one_more(self.cfg.download_parallelism);
        let less = one_less(self.cfg.download_parallelism);
        if key_char(key, 'y') {
            Some(self.act(ActionView::ConfigurePypi))
        } else if key_char(key, '+') || key_char(key, '=') {
            Some(
                (
                    Board {
                        cfg: ConfigView {
                            max_concurrent_downloads: one_more(self.cfg.max_concurrent_downloads),
                            ..self.cfg
                        },
                        ..self
                    },
                    KeyOutcomeView::SaveConfig,
                ),
            )
        } else if key_char(key, '-') {
            Some(
                (
                    Board {
                        cfg: ConfigView {
                            max_concurrent_downloads: one_less(self.cfg.max_concurrent_downloads),
                            ..self.cfg
                        },
                        ..self
                    },
                    KeyOutcomeView::SaveConfig,
                ),
            )
        } else if key_char(key, ']') {
            Some(
                (
                    Board {
                        cfg: ConfigView { download_parallelism: more, ..self.cfg },
                        queue: self.queue.with_parallelism(more, now),
                        ..self
                    },
                    KeyOutcomeView::SaveConfig,
                ),
            )
        } else if key_char(key, '[') {
            Some(
                (
                    Board {
                        cfg: ConfigView { download_parallelism: less, ..self.cfg },
                        queue: self.queue.with_parallelism(less, now),
                        ..self
                    },
                    KeyOutcomeView::SaveConfig,
                ),
            )
        } else {
            None
        }
    }

    /// What a key does after those of the section.
    pub open spec fn other_key(self, c: CatalogView, key: Key, root_valid: bool, now: Clock) -> (
        Board,
        KeyOutcomeView,
    ) {
        if key_char(key, 'r') {
            (
                Board {
                    queue: self.queue.logged("refreshed and cached dependency health"@, now),
                    ..self
                },
                KeyOutcomeView::Refresh,
            )
        } else if key == Key::Enter {
            if self.dash.section == Section::Models || self.dash.section == Section::Workflows
                || self.dash.section.is_library() {
                self.with_dash(self.dash.with_plan(c, root_valid))
            } else {
                match self.dash.selected(c, root_valid) {
                    Some(a) => self.act(a),
                    None => self.quiet(),
                }
            }
        } else {
            self.quiet()
        }
    }

    /// What a key does outside the plan editor. `root_valid` says that a valid ComfyUI
    /// installation is configured.
    pub open spec fn main_key(self, c: CatalogView, key: Key, root_valid: bool, now: Clock) -> (
        Board,
        KeyOutcomeView,
    ) {
        let dash = self.dash;
        if key == Key::Esc && dash.download_detail {
            self.with_dash(DashView { download_detail: false, ..dash })
        } else if key_char(key, 'b') && dash.section == Section::Downloads {
            self.with_dash(DashView { download_detail: false, ..dash })
        } else if key_char(key, 'q') || key == Key::Esc {
            self.act(ActionView::Quit)
        } else if key == (Key::Char { c: 'c', control: true }) {
            self.act(ActionView::Quit)
        } else if key == Key::Right || key == Key::Tab {
            self.with_dash(dash.at_section(dash.section.next_of()))
        } else if key == Key::Left || key == Key::BackTab {
            self.with_dash(dash.at_section(dash.section.previous_of()))
        } else if key_digit(key) is Some {
            self.with_dash(dash.at_section((key_digit(key)->0 - 1) as usize))
        } else if key == Key::Down || key_char(key, 'j') {
            self.with_dash(dash.moved(c, self.queue, true))
        } else if key == Key::Up || key_char(key, 'k') {
            self.with_dash(dash.moved(c, self.queue, false))
        } else if key_char(key, 's') {
            if root_valid {
                (self, KeyOutcomeView::CheckServer)
            } else {
                self.quiet()
            }
        } else if key_char(key, 'l') {
            self.act(ActionView::LocateComfyUi)
        } else if key_char(key, 'i') {
            self.act(ActionView::InstallComfyUi)
        } else if key_char(key, 't') {
            self.act(ActionView::SetHfToken)
        } else if key_char(key, 'p') {
            if root_valid {
                self.act(ActionView::InstallPythonDeps)
            } else {
                self.with_queue(
                    self.queue.logged(
                        "Python dependency install blocked: install or locate ComfyUI first"@,
                        now,
                    ),
                )
            }
        } else if dash.section == Section::Downloads && self.downloads_key(key, now) is Some {
            self.downloads_key(key, now)->0
        } else if dash.section == Section::Settings && self.settings_key(key, now) is Some {
            self.settings_key(key, now)->0
        } else {
            self.other_key(c, key, root_valid, now)
        }
    }

    /// What a key does.
    pub open spec fn after(self, c: CatalogView, key: Key, root_valid: bool, now: Clock) -> (
        Board,
        KeyOutcomeView,
    ) {
        match self.dash.plan_editor {
            Some(e) => self.plan_key(c, e, key),
            None => self.main_key(c, key, root_valid, now),
        }
    }
}

fn digit_of(key: Key) -> (r: Option<usize>)
    ensures
        r == key_digit(key),
        r matches Some(n) ==> 1 <= n <= 9,
{
    match key {
        Key::Char { c, .. } => {
            if '1' <= c && c <= '9' {
                let n: u32 = c as u32 - '0' as u32;
                Some(n as usize)
            } else {
                None
            }
        },
        _ => None,
    }
}

fn ids_of_groups(package: &Package) -> (r: IdSet)
    ensures
        r@ == optional_ids(
            package.deep_view().optional_groups,
            package.optional_groups@.len() as int,
        ),
{
    let ghost groups = package.deep_view().optional_groups;
    let mut out = IdSet::new();
    let mut i: usize = 0;
    while i < package.optional_groups.len()
        invariant
            i <= package.optional_groups@.len(),
            groups == package.deep_view().optional_groups,
            out@ == optional_ids(groups, i as int),
        decreases package.optional_groups@.len() - i,
    {
        assert(groups[i as int] == package.optional_groups@[i as int].deep_view());
        out.extend(&package.optional_groups[i].artifact_ids);
        out.extend(&package.optional_groups[i].custom_node_ids);
        i += 1;
    }
    out
}

fn open_editor(catalog: &Catalog, target: PlanTarget) -> (r: PlanEditor)
    ensures
        r.deep_view() == opened(catalog.deep_view(), target.deep_view()),
{
    let disabled_dependencies = match &target {
        PlanTarget::Package(id) => match catalog.package(id.as_str()) {
            Some(p) => ids_of_groups(p),
            None => IdSet::new(),
        },
        _ => IdSet::new(),
    };
    let parts = plan_artifacts(catalog, &target);
    let ids = chained(&parts.models, &parts.dependencies);
    PlanEditor {
        target,
        cursor: 0,
        deps_expanded: true,
        expanded_artifacts: IdSet::from_texts(&ids),
        selected_sources: IdMap::new(),
        disabled_dependencies,
    }
}

impl Dashboard {
    /// The dashboard as it opens.
    pub fn new() -> (r: Dashboard)
        ensures
            r.deep_view() == (DashView {
                section: Section::Overview,
                model_index: 0,
                artifact_index: 0,
                custom_node_index: 0,
                workflow_index: 0,
                download_index: 0,
                download_detail: false,
                plan_editor: None,
                clear_before_draw: false,
            }),
    {
        Dashboard {
            section: Section::Overview,
            model_index: 0,
            artifact_index: 0,
            custom_node_index: 0,
            workflow_index: 0,
            download_index: 0,
            download_detail: false,
            plan_editor: None,
            clear_before_draw: false,
        }
    }

    fn plan_target(&self, catalog: &Catalog) -> (r: Option<PlanTarget>)
        ensures
            (match r {
                Some(t) => Some(t.deep_view()),
                None => None,
            }) == self.deep_view().plan_target(catalog.deep_view()),
    {
        if self.section == Section::Models {
            if self.model_index < catalog.packages.len() {
                let p = &catalog.packages[self.model_index];
                assert(catalog.deep_view().packages[self.model_index as int] == p.deep_view());
                if p.primary_artifact_ids.len() > 0 {
                    return Some(PlanTarget::Package(p.id.clone()));
                }
            }
            None
        } else if self.section == Section::Workflows {
            if self.workflow_index < catalog.workflows.len() {
                let w = &catalog.workflows[self.workflow_index];
                assert(catalog.deep_view().workflows[self.workflow_index as int] == w.deep_view());
                return Some(PlanTarget::Workflow(w.id.clone()));
            }
            None
        } else {
            let arts = artifacts_for_section(catalog, self.section);
            if arts.len() > 0 {
                let at = if self.artifact_index < arts.len() {
                    self.artifact_index
                } else {
                    arts.len() - 1
                };
                assert(arts.deep_view()[at as int] == arts@[at as int].deep_view());
                Some(PlanTarget::Artifact(arts[at].id.clone()))
            } else {
                None
            }
        }
    }

    /// Opens the plan editor for what is selected, where that can be installed.
    pub fn open_plan_editor(&mut self, catalog: &Catalog, root_valid: bool)
        ensures
            final(self).deep_view() == old(self).deep_view().with_plan(
                catalog.deep_view(),
                root_valid,
            ),
    {
        if !root_valid {
            return ;
        }
        if let Some(target) = self.plan_target(catalog) {
            self.plan_editor = Some(open_editor(catalog, target));
        }
    }

    /// Moves the selection of the section one down or up; it goes round.
    pub fn move_selection(&mut self, catalog: &Catalog, queue: &DownloadQueue, down: bool)
        ensures
            final(self).deep_view() == old(self).deep_view().moved(
                catalog.deep_view(),
                queue.deep_view(),
                down,
            ),
    {
        if self.section == Section::Models {
            self.model_index = step_index(self.model_index, catalog.packages.len(), down);
        } else if self.section == Section::CustomNodes {
            self.custom_node_index = step_index(
                self.custom_node_index,
                catalog.custom_nodes.len(),
                down,
            );
        } else if self.section == Section::Workflows {
            self.workflow_index = step_index(self.workflow_index, catalog.workflows.len(), down);
        } else if self.section == Section::Downloads {
            self.download_index = step_index(self.download_index, queue.len(), down);
        } else if self.section.library_prefix().is_some() {
            let arts = artifacts_for_section(catalog, self.section);
            self.artifact_index = step_index(self.artifact_index, arts.len(), down);
        }
    }

    /// What Enter asks for where it opens no plan.
    pub fn selected_action(&self, catalog: &Catalog, root_valid: bool) -> (r: Option<
        DashboardAction,
    >)
        ensures
            (match r {
                Some(a) => Some(a.deep_view()),
                None => None,
            }) == self.deep_view().selected(catalog.deep_view(), root_valid),
    {
        if self.section.library_prefix().is_some() {
            if !root_valid {
                return None;
            }
            let arts = artifacts_for_section(catalog, self.section);
            if arts.len() == 0 {
                return None;
            }
            let at = if self.artifact_index < arts.len() {
                self.artifact_index
            } else {
                arts.len() - 1
            };
            assert(arts.deep_view()[at as int] == arts@[at as int].deep_view());
            let id = arts[at].id.clone();
            let mut artifact_sources: Vec<(String, usize)> = Vec::new();
            artifact_sources.push((id.clone(), 0));
            assert(artifact_sources.deep_view() =~= seq![(id@, 0usize)]);
            let custom_node_ids: Vec<String> = Vec::new();
            assert(custom_node_ids.deep_view() =~= Seq::empty());
            Some(
                DashboardAction::InstallArtifact(
                    InstallSelection { id, artifact_sources, custom_node_ids },
                ),
            )
        } else if self.section == Section::CustomNodes {
            if root_valid && self.custom_node_index < catalog.custom_nodes.len() {
                let node = &catalog.custom_nodes[self.custom_node_index];
                assert(catalog.deep_view().custom_nodes[self.custom_node_index as int]
                    == node.deep_view());
                Some(DashboardAction::InstallCustomNode(node.id.clone()))
            } else {
                None
            }
        } else if self.section == Section::System {
            if catalog.system_dependencies.len() > 0 {
                Some(DashboardAction::InstallSystemDeps)
            } else {
                None
            }
        } else {
            None
        }
    }

    fn go_to(&mut self, section: Section)
        ensures
            final(self).deep_view() == old(self).deep_view().at_section(section.order()),
    {
        proof {
            sections_differ(section, section_at(section.order()));
        }
        self.section = section;
        self.clear_before_draw = true;
    }

    fn handle_plan_key(&mut self, catalog: &Catalog, key: Key) -> (r: KeyOutcome)
        requires
            old(self).plan_editor is Some,
        ensures
            ({
                let e = old(self).plan_editor->0.deep_view();
                let (editor, action) = e.after(catalog.deep_view(), key);
                &&& final(self).deep_view() == (DashView {
                    plan_editor: editor,
                    ..old(self).deep_view()
                })
                &&& r.deep_view() == match action {
                    Some(a) => KeyOutcomeView::Act(a),
                    None => KeyOutcomeView::Nothing,
                }
            }),
    {
        let outcome = match &mut self.plan_editor {
            Some(editor) => editor.handle_key(catalog, key),
            None => PlanOutcome::Stay,
        };
        match outcome {
            PlanOutcome::Stay => KeyOutcome::Nothing,
            PlanOutcome::Close => {
                self.plan_editor = None;
                KeyOutcome::Nothing
            },
            PlanOutcome::Install(action) => KeyOutcome::Act(action),
        }
    }

    fn handle_downloads_key(
        &mut self,
        key: Key,
        cfg: &AppConfig,
        queue: &mut DownloadQueue,
        now: Clock,
    ) -> (r: bool)
        ensures
            ({
                let board = Board {
                    dash: old(self).deep_view(),
                    cfg: cfg.deep_view(),
                    queue: old(queue).deep_view(),
                };
                match board.downloads_key(key, now) {
                    Some((next, outcome)) => r && next == (Board {
                        dash: final(self).deep_view(),
                        cfg: cfg.deep_view(),
                        queue: final(queue).deep_view(),
                    }) && outcome == KeyOutcomeView::Nothing,
                    None => !r && *final(self) == *old(self) && *final(queue) == *old(queue),
                }
            }),
    {
        if is_char(key, 'x') {
            queue.pause(self.download_index, now);
            true
        } else if is_char(key, 'c') {
            queue.resume(self.download_index, now);
            true
        } else if is_char(key, 'r') {
            queue.retry(self.download_index, now);
            true
        } else if key == Key::Enter {
            self.download_detail = true;
            true
        } else {
            false
        }
    }

    fn handle_settings_key(
        &self,
        key: Key,
        cfg: &mut AppConfig,
        queue: &mut DownloadQueue,
        now: Clock,
    ) -> (r: Option<KeyOutcome>)
        ensures
            ({
                let board = Board {
                    dash: self.deep_view(),
                    cfg: old(cfg).deep_view(),
                    queue: old(queue).deep_view(),
                };
                match board.settings_key(key, now) {
                    Some((next, outcome)) => r matches Some(o) && o.deep_view() == outcome && next
                        == (Board {
                        dash: self.deep_view(),
                        cfg: final(cfg).deep_view(),
                        queue: final(queue).deep_view(),
                    }),
                    None => r is None && *final(cfg) == *old(cfg) && *final(queue) == *old(queue),
                }
            }),
    {
        if is_char(key, 'y') {
            Some(KeyOutcome::Act(DashboardAction::ConfigurePypi))
        } else if is_char(key, '+') || is_char(key, '=') {
            cfg.max_concurrent_downloads = more_of(cfg.max_concurrent_downloads);
            Some(KeyOutcome::SaveConfig)
        } else if is_char(key, '-') {
            cfg.max_concurrent_downloads = less_of(cfg.max_concurrent_downloads);
            Some(KeyOutcome::SaveConfig)
        } else if is_char(key, ']') {
            cfg.download_parallelism = more_of(cfg.download_parallelism);
            queue.update_chunk_parallelism(cfg.download_parallelism, now);
            Some(KeyOutcome::SaveConfig)
        } else if is_char(key, '[') {
            cfg.download_parallelism = less_of(cfg.download_parallelism);
            queue.update_chunk_parallelism(cfg.download_parallelism, now);
            Some(KeyOutcome::SaveConfig)
        } else {
            None
        }
    }

    /// Takes in a key. `root_valid` says that a valid ComfyUI installation is configured.
    pub fn handle_key(
        &mut self,
        key: Key,
        catalog: &Catalog,
        cfg: &mut AppConfig,
        queue: &mut DownloadQueue,
        root_valid: bool,
        now: Clock,
    ) -> (r: KeyOutcome)
        ensures
            (
                Board {
                    dash: final(self).deep_view(),
                    cfg: final(cfg).deep_view(),
                    queue: final(queue).deep_view(),
                },
                r.deep_view(),
            ) == (Board {
                dash: old(self).deep_view(),
                cfg: old(cfg).deep_view(),
                queue: old(queue).deep_view(),
            }).after(catalog.deep_view(), key, root_valid, now),
    {
        if self.plan_editor.is_some() {
            return self.handle_plan_key(catalog, key);
        }
        if key == Key::Esc && self.download_detail {
            self.download_detail = false;
            return KeyOutcome::Nothing;
        }
        if is_char(key, 'b') && self.section == Section::Downloads {
            self.download_detail = false;
            return KeyOutcome::Nothing;
        }
        if is_char(key, 'q') || key == Key::Esc {
            return KeyOutcome::Act(DashboardAction::Quit);
        }
        if key == (Key::Char { c: 'c', control: true }) {
            return KeyOutcome::Act(DashboardAction::Quit);
        }
        if key == Key::Right || key == Key::Tab {
            self.go_to(self.section.next());
            return KeyOutcome::Nothing;
        }
        if key == Key::Left || key == Key::BackTab {
            self.go_to(self.section.previous());
            return KeyOutcome::Nothing;
        }
        if let Some(n) = digit_of(key) {
            self.go_to(Section::at(n - 1));
            return KeyOutcome::Nothing;
        }
        if key == Key::Down || is_char(key, 'j') {
            self.move_selection(catalog, queue, true);
            return KeyOutcome::Nothing;
        }
        if key == Key::Up || is_char(key, 'k') {
            self.move_selection(catalog, queue, false);
            return KeyOutcome::Nothing;
        }
        if is_char(key, 's') {
            return if root_valid {
                KeyOutcome::CheckServer
            } else {
                KeyOutcome::Nothing
            };
        }
        if is_char(key, 'l') {
            return KeyOutcome::Act(DashboardAction::LocateComfyUi);
        }
        if is_char(key, 'i') {
            return KeyOutcome::Act(DashboardAction::InstallComfyUi);
        }
        if is_char(key, 't') {
            return KeyOutcome::Act(DashboardAction::SetHfToken);
        }
        if is_char(key, 'p') {
            if root_valid {
                return KeyOutcome::Act(DashboardAction::InstallPythonDeps);
            }
            queue.record("Python dependency install blocked: install or locate ComfyUI first", now);
            return KeyOutcome::Nothing;
        }
        if self.section == Section::Downloads {
            if self.handle_downloads_key(key, cfg, queue, now) {
                return KeyOutcome::Nothing;
            }
        }
        if self.section == Section::Settings {
            if let Some(outcome) = self.handle_settings_key(key, cfg, queue, now) {
                return outcome;
            }
        }
        if is_char(key, 'r') {
            queue.record("refreshed and cached dependency health", now);
            return KeyOutcome::Refresh;
        }
        if key == Key::Enter {
            if self.section == Section::Models || self.section == Section::Workflows
                || self.section.library_prefix().is_some() {
                self.open_plan_editor(catalog, root_valid);
                return KeyOutcome::Nothing;
            }
            return match self.selected_action(catalog, root_valid) {
                Some(action) => KeyOutcome::Act(action),
                None => KeyOutcome::Nothing,
            };
        }
        KeyOutcome::Nothing
    }

    /// What the server's key asks for, given whether the Python dependencies are ready; where they
    /// are not, the log says so.
    pub fn server_key(ready: bool, queue: &mut DownloadQueue, now: Clock) -> (r: Option<
        DashboardAction,
    >)
        ensures
            if ready {
                *final(queue) == *old(queue) && (r matches Some(a) && a.deep_view()
                    == ActionView::ToggleServer)
            } else {
                r is None && final(queue).deep_view() == old(queue).deep_view().logged(
                    "server action blocked: install Python dependencies first"@,
                    now,
                )
            },
    {
        if ready {
            Some(DashboardAction::ToggleServer)
        } else {
            queue.record("server action blocked: install Python dependencies first", now);
            None
        }
    }
}

/// How long the dashboard waits between two looks at the server: two seconds.
pub const SERVER_CHECK_NANOS: u64 = 2000000000;

/// When the dashboard is drawn and the server is looked at.
#[derive(Clone, Copy, Debug, PartialEq, Eq, Structural)]
pub struct Pacing {
    pub needs_draw: bool,
    pub running: bool,
    pub check_pending: bool,
    pub last_check: u64,
}

impl Pacing {
    /// The pacing of a dashboard that opens at `now`.
    pub fn new(running: bool, now: u64) -> (r: Pacing)
        ensures
            r == (Pacing { needs_draw: true, running, check_pending: false, last_check: now }),
    {
        Pacing { needs_draw: true, running, check_pending: false, last_check: now }
    }

    /// Something that is shown has changed, or not.
    pub fn changed(&mut self, changed: bool)
        ensures
            *final(self) == (Pacing {
                needs_draw: old(self).needs_draw || changed,
                ..*old(self)
            }),
    {
        if changed {
            self.needs_draw = true;
        }
    }

    /// Takes in what was seen of the server.
    pub fn server_seen(&mut self, running: bool)
        ensures
            *final(self) == (Pacing {
                needs_draw: true,
                running,
                check_pending: false,
                ..*old(self)
            }),
    {
        self.running = running;
        self.check_pending = false;
        self.needs_draw = true;
    }

    /// Whether the server is to be looked at now: when the time has come and no look is under way.
    pub fn check_due(&mut self, now: u64) -> (r: bool)
        ensures
            r == (now - old(self).last_check >= SERVER_CHECK_NANOS && !old(self).check_pending),
            *final(self) == if r {
                Pacing { check_pending: true, last_check: now, ..*old(self) }
            } else {
                *old(self)
            },
    {
        if now >= self.last_check && now - self.last_check >= SERVER_CHECK_NANOS
            && !self.check_pending {
            self.check_pending = true;
            self.last_check = now;
            true
        } else {
            false
        }
    }

    /// Whether the dashboard is to be drawn; it is then taken as drawn.
    pub fn take_draw(&mut self) -> (r: bool)
        ensures
            r == old(self).needs_draw,
            *final(self) == (Pacing { needs_draw: false, ..*old(self) }),
    {
        let r = self.needs_draw;
        self.needs_draw = false;
        r
    }
}

}
