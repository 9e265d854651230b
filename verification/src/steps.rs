//! Steps of a background installation: what the caller does next, and what it reports of it.
use crate::text::Text;
use vstd::prelude::*;
use vstd::string::*;

verus! {

/// What a program finds in its environment, beside what it inherits.
pub enum CommandEnv {
    Inherited,
    /// `PIP_INDEX_URL` is set.
    PipIndex(String),
    /// `PIP_INDEX_URL` is taken out.
    NoPipIndex,
    /// `DEBIAN_FRONTEND` is `noninteractive`.
    NonInteractive,
}

/// What a [`CommandEnv`] holds.
pub enum EnvironmentView {
    Inherited,
    PipIndex(Text),
    NoPipIndex,
    NonInteractive,
}

impl DeepView for CommandEnv {
    type V = EnvironmentView;

    open spec fn deep_view(&self) -> EnvironmentView {
        match self {
            CommandEnv::Inherited => EnvironmentView::Inherited,
            CommandEnv::PipIndex(url) => EnvironmentView::PipIndex(url@),
            CommandEnv::NoPipIndex => EnvironmentView::NoPipIndex,
            CommandEnv::NonInteractive => EnvironmentView::NonInteractive,
        }
    }
}

/// What the caller does next.
pub enum StepAction {
    /// Look whether there is a file.
    CheckFile { path: String },
    /// Look whether there is a directory.
    CheckDir { path: String },
    /// Look whether there is anything.
    CheckExists { path: String },
    /// List a directory.
    ListDir { path: String },
    /// Create a directory.
    CreateDir { path: String },
    /// Run a program and log its output.
    Run { program: String, args: Vec<String>, env: CommandEnv },
    /// Clone a repository.
    Clone { url: String, target: String },
    /// Rename a directory.
    Rename { from: String, to: String },
    /// Verify the runtime of a custom node.
    VerifyRuntime { python: String, folder: String },
    /// Look for `libEGL.so.1`.
    ProbeLibEgl,
    /// Create `dir` and write the marker of the requirements to `path`.
    WriteMarker { dir: String, path: String, requirements: String },
    /// The installation is over.
    Finish,
    /// The installation has failed.
    Fail { message: String },
}

/// What a [`StepAction`] holds.
pub enum StepActionView {
    CheckFile { path: Text },
    CheckDir { path: Text },
    CheckExists { path: Text },
    ListDir { path: Text },
    CreateDir { path: Text },
    Run { program: Text, args: Seq<Text>, env: EnvironmentView },
    Clone { url: Text, target: Text },
    Rename { from: Text, to: Text },
    VerifyRuntime { python: Text, folder: Text },
    ProbeLibEgl,
    WriteMarker { dir: Text, path: Text, requirements: Text },
    Finish,
    Fail { message: Text },
}

impl DeepView for StepAction {
    type V = StepActionView;

    open spec fn deep_view(&self) -> StepActionView {
        match self {
            StepAction::CheckFile { path } => StepActionView::CheckFile { path: path@ },
            StepAction::CheckDir { path } => StepActionView::CheckDir { path: path@ },
            StepAction::CheckExists { path } => StepActionView::CheckExists { path: path@ },
            StepAction::ListDir { path } => StepActionView::ListDir { path: path@ },
            StepAction::CreateDir { path } => StepActionView::CreateDir { path: path@ },
            StepAction::Run { program, args, env } => StepActionView::Run {
                program: program@,
                args: args.deep_view(),
                env: env.deep_view(),
            },
            StepAction::Clone { url, target } => StepActionView::Clone {
                url: url@,
                target: target@,
            },
            StepAction::Rename { from, to } => StepActionView::Rename { from: from@, to: to@ },
            StepAction::VerifyRuntime { python, folder } => StepActionView::VerifyRuntime {
                python: python@,
                folder: folder@,
            },
            StepAction::ProbeLibEgl => StepActionView::ProbeLibEgl,
            StepAction::WriteMarker { dir, path, requirements } => StepActionView::WriteMarker {
                dir: dir@,
                path: path@,
                requirements: requirements@,
            },
            StepAction::Finish => StepActionView::Finish,
            StepAction::Fail { message } => StepActionView::Fail { message: message@ },
        }
    }
}

/// One step: a directory to remove with all that is in it, an empty directory to remove, lines to
/// log, and what is done then. Removals are tried, and go on where they fail.
pub struct Step {
    pub remove: Option<String>,
    pub remove_empty: Option<String>,
    pub log: Option<String>,
    pub action: StepAction,
}

/// What a [`Step`] holds.
pub struct StepView {
    pub remove: Option<Text>,
    pub remove_empty: Option<Text>,
    pub log: Option<Text>,
    pub action: StepActionView,
}

impl DeepView for Step {
    type V = StepView;

    open spec fn deep_view(&self) -> StepView {
        StepView {
            remove: self.remove.deep_view(),
            remove_empty: self.remove_empty.deep_view(),
            log: self.log.deep_view(),
            action: self.action.deep_view(),
        }
    }
}

/// A step that only has an action.
pub open spec fn plain(action: StepActionView) -> StepView {
    StepView { remove: None, remove_empty: None, log: None, action }
}

/// A step that logs a line before its action.
pub open spec fn noted(log: Text, action: StepActionView) -> StepView {
    StepView { remove: None, remove_empty: None, log: Some(log), action }
}

/// A step that ends with an error.
pub open spec fn failing(message: Text) -> StepView {
    plain(StepActionView::Fail { message })
}

pub(crate) fn plain_step(action: StepAction) -> (r: Step)
    ensures
        r.deep_view() == plain(action.deep_view()),
{
    Step { remove: None, remove_empty: None, log: None, action }
}

pub(crate) fn noted_step(log: String, action: StepAction) -> (r: Step)
    ensures
        r.deep_view() == noted(log@, action.deep_view()),
{
    Step { remove: None, remove_empty: None, log: Some(log), action }
}

pub(crate) fn fail_step(message: String) -> (r: Step)
    ensures
        r.deep_view() == failing(message@),
{
    plain_step(StepAction::Fail { message })
}

/// An entry of a directory.
pub struct DirEntry {
    pub name: String,
    pub is_dir: bool,
}

/// What a [`DirEntry`] holds.
pub struct EntryView {
    pub name: Text,
    pub is_dir: bool,
}

impl DeepView for DirEntry {
    type V = EntryView;

    open spec fn deep_view(&self) -> EntryView {
        EntryView { name: self.name@, is_dir: self.is_dir }
    }
}

/// What came of a step.
pub enum StepEvent {
    /// Whether it was found.
    Found(bool),
    /// The entries of the directory.
    Listed(Vec<DirEntry>),
    /// It is done.
    Done,
    /// It failed.
    Failed(String),
}

/// What a [`StepEvent`] holds.
pub enum StepEventView {
    Found(bool),
    Listed(Seq<EntryView>),
    Done,
    Failed(Text),
}

impl DeepView for StepEvent {
    type V = StepEventView;

    open spec fn deep_view(&self) -> StepEventView {
        match self {
            StepEvent::Found(b) => StepEventView::Found(*b),
            StepEvent::Listed(v) => StepEventView::Listed(v.deep_view()),
            StepEvent::Done => StepEventView::Done,
            StepEvent::Failed(m) => StepEventView::Failed(m@),
        }
    }
}

}
