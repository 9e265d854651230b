//! Repositories that are cloned beside their place and published there when the clone is complete.
use crate::catalog::CustomNode;
use crate::comfy::{
    clone_arguments, clone_step, find_python, own_python, CloneStep, ComfyInstance, ComfyManager,
    ComfySource, InstanceView, PythonFacts,
};
use crate::node_runtime::{node_temp_dir, nodes_dir};
use crate::outside::{new_uuid, uuid_shaped};
use crate::paths::{join_path, joined_path};
use crate::text::{cat2, cat3, cat4, Text};
use vstd::prelude::*;
use vstd::string::*;

verus! {

/// Where ComfyUI is cloned to before it is published.
pub open spec fn clone_dir(windows: bool, parent: Text, id: Text) -> Text {
    joined_path(windows, joined_path(windows, parent, ".comfybox-tmp"@), "comfyui-"@ + id)
}

/// What is cloned.
pub enum CloneSubject {
    /// ComfyUI itself: refused where something is in its place.
    ComfyUi,
    /// The custom node with the name: left alone where something is in its place.
    Node(String),
}

/// What a [`CloneSubject`] holds.
pub enum SubjectView {
    ComfyUi,
    Node(Text),
}

impl DeepView for CloneSubject {
    type V = SubjectView;

    open spec fn deep_view(&self) -> SubjectView {
        match self {
            CloneSubject::ComfyUi => SubjectView::ComfyUi,
            CloneSubject::Node(name) => SubjectView::Node(name@),
        }
    }
}

/// The step that a clone waits for.
#[derive(Clone, Copy, Debug, PartialEq, Eq, Structural)]
pub enum ClonePhase {
    Start,
    CreateBase,
    CheckTarget,
    CreateTemp,
    Clone,
    Publish,
    Over,
}

/// A repository on its way to its place.
pub struct CloneRun {
    pub subject: CloneSubject,
    pub url: String,
    pub base: String,
    pub target: String,
    pub temp_base: String,
    pub temporary: String,
    pub attempt: u32,
    pub phase: ClonePhase,
}

/// What a [`CloneRun`] holds.
pub struct CloneView {
    pub subject: SubjectView,
    pub url: Text,
    pub base: Text,
    pub target: Text,
    pub temp_base: Text,
    pub temporary: Text,
    pub attempt: u32,
    pub phase: ClonePhase,
}

impl DeepView for CloneRun {
    type V = CloneView;

    open spec fn deep_view(&self) -> CloneView {
        CloneView {
            subject: self.subject.deep_view(),
            url: self.url@,
            base: self.base@,
            target: self.target@,
            temp_base: self.temp_base@,
            temporary: self.temporary@,
            attempt: self.attempt,
            phase: self.phase,
        }
    }
}

/// What the caller does next.
pub enum CloneAction {
    /// Create a directory.
    CreateDir { path: String },
    /// Look whether there is anything.
    CheckExists { path: String },
    /// Run `git`.
    Git { args: Vec<String> },
    /// Rename a directory.
    Rename { from: String, to: String },
    /// The repository is in its place.
    Finish,
    /// The clone has failed.
    Fail { message: String },
}

/// What a [`CloneAction`] holds.
pub enum CloneActionView {
    CreateDir { path: Text },
    CheckExists { path: Text },
    Git { args: Seq<Text> },
    Rename { from: Text, to: Text },
    Finish,
    Fail { message: Text },
}

impl DeepView for CloneAction {
    type V = CloneActionView;

    open spec fn deep_view(&self) -> CloneActionView {
        match self {
            CloneAction::CreateDir { path } => CloneActionView::CreateDir { path: path@ },
            CloneAction::CheckExists { path } => CloneActionView::CheckExists { path: path@ },
            CloneAction::Git { args } => CloneActionView::Git { args: args.deep_view() },
            CloneAction::Rename { from, to } => CloneActionView::Rename { from: from@, to: to@ },
            CloneAction::Finish => CloneActionView::Finish,
            CloneAction::Fail { message } => CloneActionView::Fail { message: message@ },
        }
    }
}

/// One turn: a directory to remove with all that is in it, an empty directory to remove, and what
/// is done then. Removals are tried, and go on where they fail.
pub struct CloneTurn {
    pub remove: Option<String>,
    pub remove_empty: Option<String>,
    pub action: CloneAction,
}

/// What a [`CloneTurn`] holds.
pub struct TurnView {
    pub remove: Option<Text>,
    pub remove_empty: Option<Text>,
    pub action: CloneActionView,
}

impl DeepView for CloneTurn {
    type V = TurnView;

    open spec fn deep_view(&self) -> TurnView {
        TurnView {
            remove: self.remove.deep_view(),
            remove_empty: self.remove_empty.deep_view(),
            action: self.action.deep_view(),
        }
    }
}

/// What came of the turn before.
pub enum CloneEvent {
    /// It was done. Of a look: whether anything is there. Of `git`: whether it succeeded.
    Done(bool),
    /// It could not be done.
    Failed(String),
}

/// What a [`CloneEvent`] holds.
pub enum CloneEventView {
    Done(bool),
    Failed(Text),
}

impl DeepView for CloneEvent {
    type V = CloneEventView;

    open spec fn deep_view(&self) -> CloneEventView {
        match self {
            CloneEvent::Done(b) => CloneEventView::Done(*b),
            CloneEvent::Failed(m) => CloneEventView::Failed(m@),
        }
    }
}

/// A turn that only has an action.
pub open spec fn only(action: CloneActionView) -> TurnView {
    TurnView { remove: None, remove_empty: None, action }
}

fn only_turn(action: CloneAction) -> (r: CloneTurn)
    ensures
        r.deep_view() == only(action.deep_view()),
{
    CloneTurn { remove: None, remove_empty: None, action }
}

/// What is reported where no attempt to clone has succeeded.
pub open spec fn clone_failure(subject: SubjectView) -> Text {
    match subject {
        SubjectView::ComfyUi => "git clone ComfyUI failed"@,
        SubjectView::Node(name) => "git clone failed for "@ + name,
    }
}

/// What is reported where `git` cannot be run.
pub open spec fn launch_failure(subject: SubjectView, reason: Text) -> Text {
    match subject {
        SubjectView::ComfyUi => "failed to launch git; install Git first: "@ + reason,
        SubjectView::Node(name) => "git clone failed for "@ + name
            + ": failed to launch git; install Git first: "@ + reason,
    }
}

impl CloneView {
    pub open spec fn at(self, phase: ClonePhase) -> CloneView {
        CloneView { phase, ..self }
    }

    pub open spec fn fail(self, remove: Option<Text>, message: Text) -> (CloneView, TurnView) {
        (
            self.at(ClonePhase::Over),
            TurnView { remove, ..only(CloneActionView::Fail { message }) },
        )
    }

    /// The attempt that is due, after the removal of what the one before left.
    pub open spec fn git(self, remove: Option<Text>) -> (CloneView, TurnView) {
        (
            self.at(ClonePhase::Clone),
            TurnView {
                remove,
                ..only(
                    CloneActionView::Git {
                        args: clone_arguments(self.url, self.temporary, self.attempt),
                    },
                )
            },
        )
    }

    pub open spec fn begin(self) -> (CloneView, TurnView) {
        (
            self.at(ClonePhase::CreateBase),
            only(CloneActionView::CreateDir { path: self.base }),
        )
    }

    /// The clone after an event, and what is done next.
    pub open spec fn after(self, event: CloneEventView) -> (CloneView, TurnView) {
        match (self.phase, event) {
            (ClonePhase::CreateBase, CloneEventView::Done(_)) => (
                self.at(ClonePhase::CheckTarget),
                only(CloneActionView::CheckExists { path: self.target }),
            ),
            (ClonePhase::CheckTarget, CloneEventView::Done(there)) => if !there {
                (
                    self.at(ClonePhase::CreateTemp),
                    only(CloneActionView::CreateDir { path: self.temp_base }),
                )
            } else if self.subject is ComfyUi {
                self.fail(None, self.target + " already exists"@)
            } else {
                (self.at(ClonePhase::Over), only(CloneActionView::Finish))
            },
            (ClonePhase::CreateTemp, CloneEventView::Done(_)) => self.git(None),
            (ClonePhase::Clone, CloneEventView::Done(succeeded)) => match clone_step(
                self.attempt,
                succeeded,
            ) {
                CloneStep::Publish => (
                    self.at(ClonePhase::Publish),
                    only(CloneActionView::Rename { from: self.temporary, to: self.target }),
                ),
                CloneStep::CleanAndRetry => CloneView {
                    attempt: (self.attempt + 1) as u32,
                    ..self
                }.git(Some(self.temporary)),
                CloneStep::CleanAndFail => self.fail(
                    Some(self.temporary),
                    clone_failure(self.subject),
                ),
            },
            (ClonePhase::Clone, CloneEventView::Failed(m)) => self.fail(
                Some(self.temporary),
                launch_failure(self.subject, m),
            ),
            (ClonePhase::Publish, CloneEventView::Done(_)) => (
                self.at(ClonePhase::Over),
                TurnView {
                    remove_empty: Some(self.temp_base),
                    ..only(CloneActionView::Finish)
                },
            ),
            (ClonePhase::Publish, CloneEventView::Failed(m)) => self.fail(
                if self.subject is ComfyUi {
                    Some(self.temporary)
                } else {
                    None
                },
                m,
            ),
            (_, CloneEventView::Failed(m)) => self.fail(None, m),
            _ => self.fail(None, "unexpected step"@),
        }
    }
}

impl ComfyManager {
    /// The installation of ComfyUI below `parent`, before its first turn.
    pub fn install(parent: &str, source: ComfySource, windows: bool) -> (r: CloneRun)
        ensures
            exists|id: Text|
                uuid_shaped(id) && r.deep_view() == (CloneView {
                    subject: SubjectView::ComfyUi,
                    url: source.address(),
                    base: parent@,
                    target: joined_path(windows, parent@, "ComfyUI"@),
                    temp_base: joined_path(windows, parent@, ".comfybox-tmp"@),
                    temporary: #[trigger] clone_dir(windows, parent@, id),
                    attempt: 0,
                    phase: ClonePhase::Start,
                }),
    {
        let temp_base = join_path(windows, parent, ".comfybox-tmp");
        let id = new_uuid();
        let name = cat2("comfyui-", id.as_str());
        let temporary = join_path(windows, temp_base.as_str(), name.as_str());
        assert(temporary@ == clone_dir(windows, parent@, id@));
        CloneRun {
            subject: CloneSubject::ComfyUi,
            url: source.url().to_owned(),
            base: parent.to_owned(),
            target: join_path(windows, parent, "ComfyUI"),
            temp_base,
            temporary,
            attempt: 0,
            phase: ClonePhase::Start,
        }
    }
}

impl CloneRun {
    /// The installation of a custom node's files below `root`, before its first turn. `unique`
    /// tells its temporary directory from that of others.
    pub fn custom_node(root: &str, node: &CustomNode, unique: &str, windows: bool) -> (r:
        CloneRun)
        ensures
            r.deep_view() == (CloneView {
                subject: SubjectView::Node(node.name@),
                url: node.git_url@,
                base: nodes_dir(windows, root@),
                target: joined_path(windows, nodes_dir(windows, root@), node.folder_name@),
                temp_base: joined_path(windows, nodes_dir(windows, root@), ".comfybox-tmp"@),
                temporary: node_temp_dir(windows, root@, node.id@, unique@),
                attempt: 0,
                phase: ClonePhase::Start,
            }),
    {
        let base = join_path(windows, root, "custom_nodes");
        let target = join_path(windows, base.as_str(), node.folder_name.as_str());
        let temp_base = join_path(windows, base.as_str(), ".comfybox-tmp");
        let name = cat3(node.id.as_str(), "-", unique);
        let temporary = join_path(windows, temp_base.as_str(), name.as_str());
        CloneRun {
            subject: CloneSubject::Node(node.name.clone()),
            url: node.git_url.clone(),
            base,
            target,
            temp_base,
            temporary,
            attempt: 0,
            phase: ClonePhase::Start,
        }
    }

    fn fail(&mut self, remove: Option<String>, message: String) -> (r: CloneTurn)
        ensures
            (final(self).deep_view(), r.deep_view()) == old(self).deep_view().fail(
                remove.deep_view(),
                message@,
            ),
    {
        self.phase = ClonePhase::Over;
        CloneTurn { remove, remove_empty: None, action: CloneAction::Fail { message } }
    }

    fn git(&mut self, remove: Option<String>) -> (r: CloneTurn)
        ensures
            (final(self).deep_view(), r.deep_view()) == old(self).deep_view().git(
                remove.deep_view(),
            ),
    {
        self.phase = ClonePhase::Clone;
        let args = ComfyManager::clone_args(
            self.url.as_str(),
            self.temporary.as_str(),
            self.attempt,
        );
        CloneTurn { remove, remove_empty: None, action: CloneAction::Git { args } }
    }

    /// The first turn.
    pub fn begin(&mut self) -> (r: CloneTurn)
        ensures
            (final(self).deep_view(), r.deep_view()) == old(self).deep_view().begin(),
    {
        self.phase = ClonePhase::CreateBase;
        only_turn(CloneAction::CreateDir { path: self.base.clone() })
    }

    fn check_target(&mut self, there: bool) -> (r: CloneTurn)
        requires
            old(self).phase == ClonePhase::CheckTarget,
        ensures
            (final(self).deep_view(), r.deep_view()) == old(self).deep_view().after(
                CloneEventView::Done(there),
            ),
    {
        if !there {
            self.phase = ClonePhase::CreateTemp;
            return only_turn(CloneAction::CreateDir { path: self.temp_base.clone() });
        }
        match &self.subject {
            CloneSubject::ComfyUi => {
                let message = cat2(self.target.as_str(), " already exists");
                self.fail(None, message)
            },
            CloneSubject::Node(_) => {
                self.phase = ClonePhase::Over;
                only_turn(CloneAction::Finish)
            },
        }
    }

    fn after_git(&mut self, succeeded: bool) -> (r: CloneTurn)
        requires
            old(self).phase == ClonePhase::Clone,
        ensures
            (final(self).deep_view(), r.deep_view()) == old(self).deep_view().after(
                CloneEventView::Done(succeeded),
            ),
    {
        let temporary = self.temporary.clone();
        match ComfyManager::after_clone(self.attempt, succeeded) {
            CloneStep::Publish => {
                self.phase = ClonePhase::Publish;
                only_turn(CloneAction::Rename { from: temporary, to: self.target.clone() })
            },
            CloneStep::CleanAndRetry => {
                self.attempt = self.attempt + 1;
                self.git(Some(temporary))
            },
            CloneStep::CleanAndFail => {
                let message = match &self.subject {
                    CloneSubject::ComfyUi => "git clone ComfyUI failed".to_owned(),
                    CloneSubject::Node(name) => cat2("git clone failed for ", name.as_str()),
                };
                self.fail(Some(temporary), message)
            },
        }
    }

    /// Takes in what came of the turn before and says what is done next.
    pub fn step(&mut self, event: CloneEvent) -> (r: CloneTurn)
        ensures
            (final(self).deep_view(), r.deep_view()) == old(self).deep_view().after(
                event.deep_view(),
            ),
    {
        match (self.phase, event) {
            (ClonePhase::CreateBase, CloneEvent::Done(_)) => {
                self.phase = ClonePhase::CheckTarget;
                only_turn(CloneAction::CheckExists { path: self.target.clone() })
            },
            (ClonePhase::CheckTarget, CloneEvent::Done(there)) => self.check_target(there),
            (ClonePhase::CreateTemp, CloneEvent::Done(_)) => self.git(None),
            (ClonePhase::Clone, CloneEvent::Done(succeeded)) => self.after_git(succeeded),
            (ClonePhase::Clone, CloneEvent::Failed(m)) => {
                let message = match &self.subject {
                    CloneSubject::ComfyUi => cat2(
                        "failed to launch git; install Git first: ",
                        m.as_str(),
                    ),
                    CloneSubject::Node(name) => cat4(
                        "git clone failed for ",
                        name.as_str(),
                        ": failed to launch git; install Git first: ",
                        m.as_str(),
                    ),
                };
                let temporary = self.temporary.clone();
                self.fail(Some(temporary), message)
            },
            (ClonePhase::Publish, CloneEvent::Done(_)) => {
                self.phase = ClonePhase::Over;
                CloneTurn {
                    remove: None,
                    remove_empty: Some(self.temp_base.clone()),
                    action: CloneAction::Finish,
                }
            },
            (ClonePhase::Publish, CloneEvent::Failed(m)) => {
                let remove = match &self.subject {
                    CloneSubject::ComfyUi => Some(self.temporary.clone()),
                    CloneSubject::Node(_) => None,
                };
                self.fail(remove, m)
            },
            (_, CloneEvent::Failed(m)) => self.fail(None, m),
            _ => self.fail(None, "unexpected step".to_owned()),
        }
    }

    /// The installation that is in its place now, given which interpreters it has.
    pub fn instance(&self, windows: bool, facts: PythonFacts) -> (r: ComfyInstance)
        ensures
            r.deep_view() == (InstanceView {
                root: self.target@,
                python: own_python(self.target@, windows, facts),
            }),
    {
        ComfyInstance {
            root: self.target.clone(),
            python: find_python(self.target.as_str(), windows, facts),
        }
    }
}

}
