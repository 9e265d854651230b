//! The background installation of Python dependencies and of system packages, and the marker that
//! says that the former are up to date.
use crate::comfy::{
    dot_venv_python, python_paths, system_python, system_python_name, wheelhouse_dir,
};
use crate::download::FileHasher;
use crate::ids::ascending;
use crate::jobs::package_names;
use crate::node_runtime::{
    install_custom_node_python_requirements, install_requirements, known_node_runtime_spec,
    nodes_dir, runtime_of,
};
use crate::outside::{hex_text, new_uuid, sha256_digest, uuid_shaped};
use crate::paths::{join_path, joined_path};
use crate::queue::packages_in;
use crate::steps::{
    fail_step, failing, noted, noted_step, plain, plain_step, CommandEnv, DirEntry, EntryView,
    EnvironmentView, Step, StepAction, StepActionView, StepEvent, StepEventView, StepView,
};
use crate::text::{cat2, cat3, join_texts, joined, same_text, trim, trimmed, Text};
use vstd::prelude::*;
use vstd::string::*;

verus! {

/// What the marker holds when the dependencies of these requirements are installed.
pub open spec fn marker_of(requirements: Seq<u8>) -> Text {
    "v7:"@ + hex_text(sha256_digest(requirements))
}

/// What the marker holds when the dependencies of these requirements are installed.
pub fn deps_marker(requirements: &[u8]) -> (r: String)
    ensures
        r@ == marker_of(requirements@),
{
    let mut h = FileHasher::new();
    h.update(requirements);
    assert(h@ =~= requirements@);
    let hash = h.hex_digest();
    cat2("v7:", hash.as_str())
}

/// The marker, where it is there, is that of the requirements, where they can be read.
pub open spec fn marker_fits(requirements: Option<Seq<u8>>, marker: Option<Text>) -> bool {
    requirements matches Some(bytes) && marker matches Some(m) && trimmed(m) == marker_of(bytes)
}

/// Whether the marker, where it is there, is that of the requirements, where they can be read.
pub fn marker_matches(requirements: &Option<Vec<u8>>, marker: &Option<String>) -> (r: bool)
    ensures
        r == marker_fits(requirements.deep_view(), marker.deep_view()),
{
    match (requirements, marker) {
        (Some(bytes), Some(m)) => {
            assert(bytes.deep_view() =~= bytes@);
            let want = deps_marker(bytes.as_slice());
            let have = trim(m.as_str());
            same_text(have.as_str(), want.as_str())
        },
        _ => false,
    }
}

/// The folders of the custom nodes whose runtimes are imported before the dependencies count as
/// ready.
pub open spec fn critical_folders() -> Seq<Text> {
    seq!["ComfyUI_FaceAnalysis"@, "ComfyUI-outputlists-combiner"@, "ComfyUI-Easy-Use"@]
}

fn critical_folder_names() -> (r: Vec<String>)
    ensures
        r.deep_view() == critical_folders(),
{
    let mut out: Vec<String> = Vec::new();
    out.push("ComfyUI_FaceAnalysis".to_owned());
    out.push("ComfyUI-outputlists-combiner".to_owned());
    out.push("ComfyUI-Easy-Use".to_owned());
    assert(out.deep_view() =~= critical_folders());
    out
}

/// The imports of those of `folders` from `at` on that are installed.
pub open spec fn imports_from(folders: Seq<Text>, entries: Seq<EntryView>, at: int) -> Seq<Text>
    decreases folders.len() - at,
{
    if at < 0 || at >= folders.len() {
        Seq::empty()
    } else {
        let rest = imports_from(folders, entries, at + 1);
        match (
            crate::node_runtime::equivalent_from(entries, folders[at], 0),
            runtime_of(folders[at]),
        ) {
            (Some(_), Some((_, import))) => seq![import] + rest,
            _ => rest,
        }
    }
}

/// The imports that have to succeed before the dependencies count as ready: those of the known
/// nodes that are among the entries of the directory of custom nodes.
pub fn required_imports(entries: &Vec<DirEntry>) -> (r: Vec<String>)
    ensures
        r.deep_view() == imports_from(critical_folders(), entries.deep_view(), 0),
{
    let folders = critical_folder_names();
    let ghost names = folders.deep_view();
    let ghost all = entries.deep_view();
    let mut out: Vec<String> = Vec::new();
    let mut i: usize = 0;
    assert(out.deep_view() + imports_from(names, all, 0) =~= imports_from(names, all, 0));
    while i < folders.len()
        invariant
            i <= folders@.len(),
            names == folders.deep_view(),
            all == entries.deep_view(),
            out.deep_view() + imports_from(names, all, i as int) == imports_from(names, all, 0),
        decreases folders@.len() - i,
    {
        let ghost before = out.deep_view();
        assert(names[i as int] == folders@[i as int]@);
        let found = crate::node_runtime::find_equivalent_node_folder(
            entries,
            folders[i].as_str(),
        ).is_some();
        if let Some((_, import)) = known_node_runtime_spec(folders[i].as_str()) {
            if found {
                out.push(import.to_owned());
                assert(out.deep_view() =~= before.push(import@));
                assert(out.deep_view() + imports_from(names, all, i + 1) =~= before + imports_from(
                    names,
                    all,
                    i as int,
                ));
            }
        }
        i += 1;
    }
    assert(out.deep_view() =~= imports_from(names, all, 0));
    out
}

/// Whether the dependencies are ready: the marker is that of the requirements, and every required
/// import has succeeded.
pub fn python_dependencies_ready(
    requirements: &Option<Vec<u8>>,
    marker: &Option<String>,
    imports_succeed: bool,
) -> (r: bool)
    ensures
        r == (marker_fits(requirements.deep_view(), marker.deep_view()) && imports_succeed),
{
    marker_matches(requirements, marker) && imports_succeed
}

/// The step that the installation of Python dependencies waits for.
#[derive(Clone, Copy, Debug, PartialEq, Eq, Structural)]
pub enum PythonPhase {
    Start,
    CheckRequirements,
    CheckPython,
    CreateVenv,
    Configure,
    CreateWheelhouse,
    Download,
    Install,
    Manager,
    CheckNodes,
    ListNodes,
    CheckNode,
    NodeRequirements,
    NodeRuntime,
    Marker,
    Over,
}

/// The installation of the Python dependencies of ComfyUI, of its node manager and of every custom
/// node. The failure of one custom node does not stop the others.
pub struct PythonInstall {
    pub root: String,
    pub pip_index_url: String,
    pub windows: bool,
    pub wheelhouse: String,
    pub folders: Vec<String>,
    pub at: usize,
    pub errors: Vec<String>,
    pub phase: PythonPhase,
}

/// What a [`PythonInstall`] holds.
pub struct PythonInstallView {
    pub root: Text,
    pub pip_index_url: Text,
    pub windows: bool,
    pub wheelhouse: Text,
    pub folders: Seq<Text>,
    pub at: usize,
    pub errors: Seq<Text>,
    pub phase: PythonPhase,
}

impl DeepView for PythonInstall {
    type V = PythonInstallView;

    open spec fn deep_view(&self) -> PythonInstallView {
        PythonInstallView {
            root: self.root@,
            pip_index_url: self.pip_index_url@,
            windows: self.windows,
            wheelhouse: self.wheelhouse@,
            folders: self.folders.deep_view(),
            at: self.at,
            errors: self.errors.deep_view(),
            phase: self.phase,
        }
    }
}

/// The names of the directories among the entries.
pub open spec fn dir_names(entries: Seq<EntryView>) -> Set<Text>
    decreases entries.len(),
{
    if entries.len() == 0 {
        Set::empty()
    } else if entries.last().is_dir {
        dir_names(entries.drop_last()).insert(entries.last().name)
    } else {
        dir_names(entries.drop_last())
    }
}

fn sorted_dirs(entries: &Vec<DirEntry>) -> (r: Vec<String>)
    ensures
        r.deep_view() == ascending(dir_names(entries.deep_view())),
{
    let ghost all = entries.deep_view();
    let mut names = crate::ids::IdSet::new();
    let mut i: usize = 0;
    assert(all.take(0) =~= Seq::empty());
    while i < entries.len()
        invariant
            i <= entries@.len(),
            all == entries.deep_view(),
            names@ == dir_names(all.take(i as int)),
        decreases entries@.len() - i,
    {
        proof {
            assert(all[i as int] == entries@[i as int].deep_view());
            assert(all.take(i + 1).drop_last() =~= all.take(i as int));
        }
        if entries[i].is_dir {
            names.insert(entries[i].name.clone());
        }
        i += 1;
    }
    assert(all.take(all.len() as int) =~= all);
    names.to_texts()
}

/// A run of pip.
pub open spec fn pip(python: Text, args: Seq<Text>, env: EnvironmentView) -> StepActionView {
    StepActionView::Run { program: python, args: seq!["-m"@, "pip"@] + args, env }
}

impl PythonInstallView {
    pub open spec fn at_phase(self, phase: PythonPhase) -> PythonInstallView {
        PythonInstallView { phase, ..self }
    }

    pub open spec fn fail(self, message: Text) -> (PythonInstallView, StepView) {
        (self.at_phase(PythonPhase::Over), failing(message))
    }

    pub open spec fn requirements(self) -> Text {
        joined_path(self.windows, self.root, "requirements.txt"@)
    }

    pub open spec fn python(self) -> Text {
        dot_venv_python(self.root, self.windows)
    }

    pub open spec fn indexed(self) -> EnvironmentView {
        EnvironmentView::PipIndex(self.pip_index_url)
    }

    pub open spec fn node_folder(self) -> Text {
        joined_path(self.windows, nodes_dir(self.windows, self.root), self.folders[self.at as int])
    }

    pub open spec fn node_requirements(self) -> Text {
        joined_path(self.windows, self.node_folder(), "requirements.txt"@)
    }

    pub open spec fn begin(self) -> (PythonInstallView, StepView) {
        (
            self.at_phase(PythonPhase::CheckRequirements),
            plain(StepActionView::CheckFile { path: self.requirements() }),
        )
    }

    /// The index is written to pip's configuration.
    pub open spec fn configure(self) -> (PythonInstallView, StepView) {
        (
            self.at_phase(PythonPhase::Configure),
            noted(
                "[PYTHON] Configuring pip index: "@ + self.pip_index_url,
                pip(
                    self.python(),
                    seq!["config"@, "set"@, "global.index-url"@, self.pip_index_url],
                    self.indexed(),
                ),
            ),
        )
    }

    pub open spec fn write_marker(self) -> (PythonInstallView, StepView) {
        (
            self.at_phase(PythonPhase::Marker),
            plain(
                StepActionView::WriteMarker {
                    dir: joined_path(self.windows, self.root, ".comfybox"@),
                    path: joined_path(self.windows, joined_path(self.windows, self.root, ".comfybox"@), "python-deps.sha256"@),
                    requirements: self.requirements(),
                },
            ),
        )
    }

    /// The next custom node, or the end: the failures of the nodes together, or the marker.
    pub open spec fn next_node(self) -> (PythonInstallView, StepView) {
        if self.at < self.folders.len() {
            (
                self.at_phase(PythonPhase::CheckNode),
                plain(StepActionView::CheckFile { path: self.node_requirements() }),
            )
        } else if self.errors.len() > 0 {
            self.fail("custom-node dependency failures: "@ + joined(self.errors, "; "@))
        } else {
            self.write_marker()
        }
    }

    pub open spec fn node_runtime(self) -> (PythonInstallView, StepView) {
        (
            self.at_phase(PythonPhase::NodeRuntime),
            plain(
                StepActionView::VerifyRuntime {
                    python: self.python(),
                    folder: self.folders[self.at as int],
                },
            ),
        )
    }

    /// The installation with one more failure, and the step with its line of log.
    pub open spec fn with_error(self, message: Text) -> PythonInstallView {
        PythonInstallView { errors: self.errors.push(message), ..self }
    }

    pub open spec fn past_node(self) -> PythonInstallView {
        PythonInstallView { at: (self.at + 1) as usize, ..self }
    }

    /// The installation works at a custom node.
    pub open spec fn at_node(self) -> bool {
        self.phase == PythonPhase::CheckNode || self.phase == PythonPhase::NodeRequirements
            || self.phase == PythonPhase::NodeRuntime
    }

    /// The installation is at a custom node where its phase says so, and before the first node it
    /// knows none and none has failed.
    pub open spec fn well_formed(self) -> bool {
        &&& self.at_node() ==> self.at < self.folders.len()
        &&& !self.at_node() && self.phase != PythonPhase::Marker && self.phase != PythonPhase::Over
            ==> self.folders.len() == 0 && self.errors.len() == 0
    }

    /// The installation after an event of the part before the custom nodes.
    pub open spec fn after_base(self, event: StepEventView) -> (PythonInstallView, StepView) {
        match (self.phase, event) {
            (PythonPhase::CheckRequirements, StepEventView::Found(there)) => if there {
                (
                    self.at_phase(PythonPhase::CheckPython),
                    plain(StepActionView::CheckFile { path: self.python() }),
                )
            } else {
                self.fail("requirements.txt not found in "@ + self.root)
            },
            (PythonPhase::CheckPython, StepEventView::Found(there)) => if there {
                self.configure()
            } else {
                (
                    self.at_phase(PythonPhase::CreateVenv),
                    plain(
                        StepActionView::Run {
                            program: system_python_name(self.windows),
                            args: seq!["-m"@, "venv"@, joined_path(self.windows, self.root, ".venv"@)],
                            env: EnvironmentView::Inherited,
                        },
                    ),
                )
            },
            (PythonPhase::CreateVenv, StepEventView::Done) => self.configure(),
            (PythonPhase::Configure, StepEventView::Done) => (
                self.at_phase(PythonPhase::CreateWheelhouse),
                plain(StepActionView::CreateDir { path: self.wheelhouse }),
            ),
            (PythonPhase::CreateWheelhouse, StepEventView::Done) => (
                self.at_phase(PythonPhase::Download),
                plain(
                    pip(
                        self.python(),
                        seq!["download"@, "-r"@, self.requirements(), "-d"@, self.wheelhouse],
                        self.indexed(),
                    ),
                ),
            ),
            (PythonPhase::Download, StepEventView::Done) => (
                self.at_phase(PythonPhase::Install),
                plain(
                    pip(
                        self.python(),
                        seq![
                            "install"@,
                            "--no-index"@,
                            "--find-links"@,
                            self.wheelhouse,
                            "-r"@,
                            self.requirements(),
                        ],
                        EnvironmentView::Inherited,
                    ),
                ),
            ),
            (PythonPhase::Download, StepEventView::Failed(m)) => (
                self.at_phase(PythonPhase::Over),
                StepView { remove: Some(self.wheelhouse), ..failing(m) },
            ),
            (PythonPhase::Install, StepEventView::Failed(m)) => (
                self.at_phase(PythonPhase::Over),
                StepView { remove: Some(self.wheelhouse), ..failing(m) },
            ),
            (PythonPhase::Install, StepEventView::Done) => (
                self.at_phase(PythonPhase::Manager),
                StepView {
                    remove: Some(self.wheelhouse),
                    ..noted(
                        "[PYTHON] Installing/upgrading ComfyUI Node Manager"@,
                        pip(
                            self.python(),
                            seq!["install"@, "-U"@, "--pre"@, "comfyui-manager"@],
                            self.indexed(),
                        ),
                    )
                },
            ),
            (PythonPhase::Manager, StepEventView::Done) => (
                self.at_phase(PythonPhase::CheckNodes),
                plain(StepActionView::CheckDir { path: nodes_dir(self.windows, self.root) }),
            ),
            (_, StepEventView::Failed(m)) => self.fail(m),
            _ => self.fail("unexpected step"@),
        }
    }

    /// The installation after an event, and what is done next.
    pub open spec fn after(self, event: StepEventView) -> (PythonInstallView, StepView) {
        match (self.phase, event) {
            (PythonPhase::CheckNodes, StepEventView::Found(there)) => if there {
                (
                    self.at_phase(PythonPhase::ListNodes),
                    plain(StepActionView::ListDir { path: nodes_dir(self.windows, self.root) }),
                )
            } else {
                self.write_marker()
            },
            (PythonPhase::ListNodes, StepEventView::Listed(entries)) => PythonInstallView {
                folders: ascending(dir_names(entries)),
                at: 0,
                errors: Seq::empty(),
                ..self
            }.next_node(),
            (PythonPhase::CheckNode, StepEventView::Found(there)) => if there {
                (
                    self.at_phase(PythonPhase::NodeRequirements),
                    noted(
                        "[PYTHON] Installing requirements for "@ + self.folders[self.at as int],
                        install_requirements(
                            self.python(),
                            self.folders[self.at as int],
                            self.node_requirements(),
                        ),
                    ),
                )
            } else {
                self.node_runtime()
            },
            (PythonPhase::NodeRequirements, StepEventView::Done) => self.node_runtime(),
            (PythonPhase::NodeRequirements, StepEventView::Failed(m)) => {
                let message = self.folders[self.at as int] + ": "@ + m;
                let (next, step) = self.with_error(message).node_runtime();
                (next, StepView { log: Some("[PYTHON] FAILED "@ + message), ..step })
            },
            (PythonPhase::NodeRuntime, StepEventView::Done) => self.past_node().next_node(),
            (PythonPhase::NodeRuntime, StepEventView::Failed(m)) => {
                let message = self.folders[self.at as int] + " runtime verification: "@ + m;
                let (next, step) = self.with_error(message).past_node().next_node();
                (next, StepView { log: Some("[PYTHON] FAILED "@ + message), ..step })
            },
            (PythonPhase::Marker, StepEventView::Done) => (
                self.at_phase(PythonPhase::Over),
                plain(StepActionView::Finish),
            ),
            _ => self.after_base(event),
        }
    }
}

fn pip_run(python: String, args: Vec<String>, env: CommandEnv) -> (r: StepAction)
    ensures
        r.deep_view() == pip(python@, args.deep_view(), env.deep_view()),
{
    let ghost rest = args.deep_view();
    let mut all: Vec<String> = Vec::new();
    all.push("-m".to_owned());
    all.push("pip".to_owned());
    let ghost head = seq!["-m"@, "pip"@];
    assert(all.deep_view() =~= head + rest.take(0));
    for a in it: args.into_iter()
        invariant
            it.seq() == args@,
            rest == args.deep_view(),
            all.deep_view() == head + rest.take(it.index() as int),
    {
        let ghost before = all.deep_view();
        let ghost t = a@;
        all.push(a);
        assert(all.deep_view() =~= before.push(t));
        assert(all.deep_view() =~= head + rest.take(it.index() + 1));
    }
    assert(rest.take(rest.len() as int) =~= rest);
    StepAction::Run { program: python, args: all, env }
}

impl PythonInstall {
    /// The installation of the dependencies of `root`, before its first step.
    pub fn new(root: String, pip_index_url: String, windows: bool) -> (r: PythonInstall)
        ensures
            r.root@ == root@,
            r.pip_index_url@ == pip_index_url@,
            r.windows == windows,
            r.folders.deep_view() == Seq::<Text>::empty(),
            r.at == 0,
            r.errors.deep_view() == Seq::<Text>::empty(),
            r.phase == PythonPhase::Start,
            r.deep_view().well_formed(),
            exists|id: Text|
                uuid_shaped(id) && r.wheelhouse@ == #[trigger] wheelhouse_dir(windows, root@, id),
    {
        let id = new_uuid();
        let name = cat2("pip-", id.as_str());
        let tmp = join_path(windows, root.as_str(), ".comfybox-tmp");
        let wheelhouse = join_path(windows, tmp.as_str(), name.as_str());
        assert(wheelhouse@ == wheelhouse_dir(windows, root@, id@));
        let folders: Vec<String> = Vec::new();
        let errors: Vec<String> = Vec::new();
        assert(folders.deep_view() =~= Seq::<Text>::empty());
        assert(errors.deep_view() =~= Seq::<Text>::empty());
        PythonInstall {
            root,
            pip_index_url,
            windows,
            wheelhouse,
            folders,
            at: 0,
            errors,
            phase: PythonPhase::Start,
        }
    }

    fn requirements(&self) -> (r: String)
        ensures
            r@ == self.deep_view().requirements(),
    {
        join_path(self.windows, self.root.as_str(), "requirements.txt")
    }

    fn python(&self) -> (r: String)
        ensures
            r@ == self.deep_view().python(),
    {
        python_paths(self.root.as_str(), self.windows).0
    }

    fn nodes(&self) -> (r: String)
        ensures
            r@ == nodes_dir(self.windows, self.root@),
    {
        join_path(self.windows, self.root.as_str(), "custom_nodes")
    }

    fn indexed(&self) -> (r: CommandEnv)
        ensures
            r.deep_view() == self.deep_view().indexed(),
    {
        CommandEnv::PipIndex(self.pip_index_url.clone())
    }

    fn fail(&mut self, message: String) -> (r: Step)
        ensures
            (final(self).deep_view(), r.deep_view()) == old(self).deep_view().fail(message@),
    {
        self.phase = PythonPhase::Over;
        fail_step(message)
    }

    /// The first step.
    pub fn begin(&mut self) -> (r: Step)
        ensures
            (final(self).deep_view(), r.deep_view()) == old(self).deep_view().begin(),
            old(self).deep_view().well_formed() && old(self).phase == PythonPhase::Start
                ==> final(self).deep_view().well_formed(),
    {
        self.phase = PythonPhase::CheckRequirements;
        plain_step(StepAction::CheckFile { path: self.requirements() })
    }

    fn configure(&mut self) -> (r: Step)
        ensures
            (final(self).deep_view(), r.deep_view()) == old(self).deep_view().configure(),
    {
        self.phase = PythonPhase::Configure;
        let mut args: Vec<String> = Vec::new();
        args.push("config".to_owned());
        args.push("set".to_owned());
        args.push("global.index-url".to_owned());
        args.push(self.pip_index_url.clone());
        assert(args.deep_view() =~= seq![
            "config"@,
            "set"@,
            "global.index-url"@,
            self.pip_index_url@,
        ]);
        noted_step(
            cat2("[PYTHON] Configuring pip index: ", self.pip_index_url.as_str()),
            pip_run(self.python(), args, self.indexed()),
        )
    }

    fn write_marker(&mut self) -> (r: Step)
        ensures
            (final(self).deep_view(), r.deep_view()) == old(self).deep_view().write_marker(),
    {
        self.phase = PythonPhase::Marker;
        let dir = join_path(self.windows, self.root.as_str(), ".comfybox");
        let path = join_path(self.windows, dir.as_str(), "python-deps.sha256");
        plain_step(StepAction::WriteMarker { dir, path, requirements: self.requirements() })
    }

    fn node_requirements(&self) -> (r: String)
        requires
            self.at < self.folders@.len(),
        ensures
            r@ == self.deep_view().node_requirements(),
    {
        let folder = join_path(self.windows, self.nodes().as_str(), self.folders[self.at].as_str());
        join_path(self.windows, folder.as_str(), "requirements.txt")
    }

    fn next_node(&mut self) -> (r: Step)
        ensures
            (final(self).deep_view(), r.deep_view()) == old(self).deep_view().next_node(),
            final(self).deep_view().well_formed(),
    {
        if self.at < self.folders.len() {
            self.phase = PythonPhase::CheckNode;
            plain_step(StepAction::CheckFile { path: self.node_requirements() })
        } else if self.errors.len() > 0 {
            let list = join_texts(&self.errors, "; ");
            self.fail(cat2("custom-node dependency failures: ", list.as_str()))
        } else {
            self.write_marker()
        }
    }

    fn node_runtime(&mut self) -> (r: Step)
        requires
            old(self).at < old(self).folders@.len(),
        ensures
            (final(self).deep_view(), r.deep_view()) == old(self).deep_view().node_runtime(),
    {
        self.phase = PythonPhase::NodeRuntime;
        plain_step(
            StepAction::VerifyRuntime {
                python: self.python(),
                folder: self.folders[self.at].clone(),
            },
        )
    }

    fn add_error(&mut self, message: String)
        ensures
            final(self).deep_view() == old(self).deep_view().with_error(message@),
            final(self).folders == old(self).folders,
    {
        let ghost before = self.errors.deep_view();
        let ghost m = message@;
        self.errors.push(message);
        assert(self.errors.deep_view() =~= before.push(m));
    }

    fn base_step(&mut self, event: StepEvent) -> (r: Step)
        ensures
            (final(self).deep_view(), r.deep_view()) == old(self).deep_view().after_base(
                event.deep_view(),
            ),
            final(self).phase != PythonPhase::CheckNode,
            final(self).phase != PythonPhase::NodeRequirements,
            final(self).phase != PythonPhase::NodeRuntime,
    {
        match (self.phase, event) {
            (PythonPhase::CheckRequirements, StepEvent::Found(there)) => {
                if there {
                    self.phase = PythonPhase::CheckPython;
                    plain_step(StepAction::CheckFile { path: self.python() })
                } else {
                    let message = cat2("requirements.txt not found in ", self.root.as_str());
                    self.fail(message)
                }
            },
            (PythonPhase::CheckPython, StepEvent::Found(there)) => {
                if there {
                    self.configure()
                } else {
                    self.phase = PythonPhase::CreateVenv;
                    let mut args: Vec<String> = Vec::new();
                    args.push("-m".to_owned());
                    args.push("venv".to_owned());
                    args.push(join_path(self.windows, self.root.as_str(), ".venv"));
                    assert(args.deep_view() =~= seq![
                        "-m"@,
                        "venv"@,
                        joined_path(self.windows, self.root@, ".venv"@),
                    ]);
                    plain_step(
                        StepAction::Run {
                            program: system_python(self.windows).to_owned(),
                            args,
                            env: CommandEnv::Inherited,
                        },
                    )
                }
            },
            (PythonPhase::CreateVenv, StepEvent::Done) => self.configure(),
            (PythonPhase::Configure, StepEvent::Done) => {
                self.phase = PythonPhase::CreateWheelhouse;
                plain_step(StepAction::CreateDir { path: self.wheelhouse.clone() })
            },
            (PythonPhase::CreateWheelhouse, StepEvent::Done) => {
                self.phase = PythonPhase::Download;
                let mut args: Vec<String> = Vec::new();
                args.push("download".to_owned());
                args.push("-r".to_owned());
                args.push(self.requirements());
                args.push("-d".to_owned());
                args.push(self.wheelhouse.clone());
                assert(args.deep_view() =~= seq![
                    "download"@,
                    "-r"@,
                    self.deep_view().requirements(),
                    "-d"@,
                    self.wheelhouse@,
                ]);
                plain_step(pip_run(self.python(), args, self.indexed()))
            },
            (PythonPhase::Download, StepEvent::Done) => {
                self.phase = PythonPhase::Install;
                let mut args: Vec<String> = Vec::new();
                args.push("install".to_owned());
                args.push("--no-index".to_owned());
                args.push("--find-links".to_owned());
                args.push(self.wheelhouse.clone());
                args.push("-r".to_owned());
                args.push(self.requirements());
                assert(args.deep_view() =~= seq![
                    "install"@,
                    "--no-index"@,
                    "--find-links"@,
                    self.wheelhouse@,
                    "-r"@,
                    self.deep_view().requirements(),
                ]);
                plain_step(pip_run(self.python(), args, CommandEnv::Inherited))
            },
            (PythonPhase::Download, StepEvent::Failed(m)) => {
                self.phase = PythonPhase::Over;
                Step {
                    remove: Some(self.wheelhouse.clone()),
                    remove_empty: None,
                    log: None,
                    action: StepAction::Fail { message: m },
                }
            },
            (PythonPhase::Install, StepEvent::Failed(m)) => {
                self.phase = PythonPhase::Over;
                Step {
                    remove: Some(self.wheelhouse.clone()),
                    remove_empty: None,
                    log: None,
                    action: StepAction::Fail { message: m },
                }
            },
            (PythonPhase::Install, StepEvent::Done) => {
                self.phase = PythonPhase::Manager;
                let mut args: Vec<String> = Vec::new();
                args.push("install".to_owned());
                args.push("-U".to_owned());
                args.push("--pre".to_owned());
                args.push("comfyui-manager".to_owned());
                assert(args.deep_view() =~= seq!["install"@, "-U"@, "--pre"@, "comfyui-manager"@]);
                Step {
                    remove: Some(self.wheelhouse.clone()),
                    remove_empty: None,
                    log: Some("[PYTHON] Installing/upgrading ComfyUI Node Manager".to_owned()),
                    action: pip_run(self.python(), args, self.indexed()),
                }
            },
            (PythonPhase::Manager, StepEvent::Done) => {
                self.phase = PythonPhase::CheckNodes;
                plain_step(StepAction::CheckDir { path: self.nodes() })
            },
            (_, StepEvent::Failed(m)) => self.fail(m),
            _ => self.fail("unexpected step".to_owned()),
        }
    }

    /// Takes in what came of the step before and says what is done next.
    pub fn step(&mut self, event: StepEvent) -> (r: Step)
        requires
            old(self).deep_view().well_formed(),
        ensures
            (final(self).deep_view(), r.deep_view()) == old(self).deep_view().after(
                event.deep_view(),
            ),
            final(self).deep_view().well_formed(),
    {
        match (self.phase, event) {
            (PythonPhase::CheckNodes, StepEvent::Found(there)) => {
                if there {
                    self.phase = PythonPhase::ListNodes;
                    plain_step(StepAction::ListDir { path: self.nodes() })
                } else {
                    self.write_marker()
                }
            },
            (PythonPhase::ListNodes, StepEvent::Listed(entries)) => {
                self.folders = sorted_dirs(&entries);
                self.at = 0;
                self.errors = Vec::new();
                assert(self.errors.deep_view() =~= Seq::empty());
                self.next_node()
            },
            (PythonPhase::CheckNode, StepEvent::Found(there)) => {
                if there {
                    self.phase = PythonPhase::NodeRequirements;
                    let python = self.python();
                    let requirements = self.node_requirements();
                    let folder = &self.folders[self.at];
                    noted_step(
                        cat2("[PYTHON] Installing requirements for ", folder.as_str()),
                        install_custom_node_python_requirements(
                            python.as_str(),
                            folder.as_str(),
                            requirements.as_str(),
                        ),
                    )
                } else {
                    self.node_runtime()
                }
            },
            (PythonPhase::NodeRequirements, StepEvent::Done) => self.node_runtime(),
            (PythonPhase::NodeRequirements, StepEvent::Failed(m)) => {
                let message = cat3(self.folders[self.at].as_str(), ": ", m.as_str());
                let line = cat2("[PYTHON] FAILED ", message.as_str());
                self.add_error(message);
                let step = self.node_runtime();
                Step {
                    remove: step.remove,
                    remove_empty: step.remove_empty,
                    log: Some(line),
                    action: step.action,
                }
            },
            (PythonPhase::NodeRuntime, StepEvent::Done) => {
                let total: usize = self.folders.len();
                assert(self.at < total);
                self.at = self.at + 1;
                self.next_node()
            },
            (PythonPhase::NodeRuntime, StepEvent::Failed(m)) => {
                let message = cat3(
                    self.folders[self.at].as_str(),
                    " runtime verification: ",
                    m.as_str(),
                );
                let line = cat2("[PYTHON] FAILED ", message.as_str());
                self.add_error(message);
                let total: usize = self.folders.len();
                assert(self.at < total);
                self.at = self.at + 1;
                let step = self.next_node();
                Step {
                    remove: step.remove,
                    remove_empty: step.remove_empty,
                    log: Some(line),
                    action: step.action,
                }
            },
            (PythonPhase::Marker, StepEvent::Done) => {
                self.phase = PythonPhase::Over;
                plain_step(StepAction::Finish)
            },
            (_, event) => self.base_step(event),
        }
    }
}

/// The step that the installation of system packages waits for.
#[derive(Clone, Copy, Debug, PartialEq, Eq, Structural)]
pub enum SystemPhase {
    Start,
    Update,
    Install,
    Verify,
    Over,
}

/// The installation of system packages.
pub struct SystemInstall {
    pub packages: Vec<String>,
    pub phase: SystemPhase,
}

/// What a [`SystemInstall`] holds.
pub struct SystemInstallView {
    pub packages: Seq<Text>,
    pub phase: SystemPhase,
}

impl DeepView for SystemInstall {
    type V = SystemInstallView;

    open spec fn deep_view(&self) -> SystemInstallView {
        SystemInstallView { packages: self.packages.deep_view(), phase: self.phase }
    }
}

/// The first of the packages from `at` on that is not installed.
pub open spec fn first_absent(packages: Seq<Text>, installed: Set<Text>, at: int) -> Option<Text>
    decreases packages.len() - at,
{
    if at < 0 || at >= packages.len() {
        None
    } else if !installed.contains(packages[at]) {
        Some(packages[at])
    } else {
        first_absent(packages, installed, at + 1)
    }
}

impl SystemInstallView {
    pub open spec fn begin(self) -> (SystemInstallView, StepView) {
        (
            SystemInstallView { phase: SystemPhase::Update, ..self },
            noted(
                "[SYSTEM] Installing "@ + joined(self.packages, ", "@),
                StepActionView::Run {
                    program: "apt-get"@,
                    args: seq!["update"@],
                    env: EnvironmentView::Inherited,
                },
            ),
        )
    }

    /// The installation after an event, and what is done next. After the last run of `apt-get` the
    /// caller looks which packages are there.
    pub open spec fn after(self, event: StepEventView) -> (SystemInstallView, StepView) {
        match (self.phase, event) {
            (SystemPhase::Update, StepEventView::Done) => (
                SystemInstallView { phase: SystemPhase::Install, ..self },
                plain(
                    StepActionView::Run {
                        program: "apt-get"@,
                        args: seq!["install"@, "-y"@] + self.packages,
                        env: EnvironmentView::NonInteractive,
                    },
                ),
            ),
            (SystemPhase::Install, StepEventView::Done) => (
                SystemInstallView { phase: SystemPhase::Verify, ..self },
                plain(StepActionView::Finish),
            ),
            (_, StepEventView::Failed(m)) => (
                SystemInstallView { phase: SystemPhase::Over, ..self },
                failing(m),
            ),
            _ => (
                SystemInstallView { phase: SystemPhase::Over, ..self },
                failing("unexpected step"@),
            ),
        }
    }
}

impl SystemInstall {
    /// The installation of the dependencies, before its first step.
    pub fn new(dependencies: &Vec<crate::catalog::SystemDependency>) -> (r: SystemInstall)
        ensures
            r.deep_view() == (SystemInstallView {
                packages: package_names(dependencies.deep_view()),
                phase: SystemPhase::Start,
            }),
    {
        SystemInstall { packages: packages_in(dependencies), phase: SystemPhase::Start }
    }

    /// The first step.
    pub fn begin(&mut self) -> (r: Step)
        ensures
            (final(self).deep_view(), r.deep_view()) == old(self).deep_view().begin(),
    {
        self.phase = SystemPhase::Update;
        let list = join_texts(&self.packages, ", ");
        let mut args: Vec<String> = Vec::new();
        args.push("update".to_owned());
        assert(args.deep_view() =~= seq!["update"@]);
        noted_step(
            cat2("[SYSTEM] Installing ", list.as_str()),
            StepAction::Run { program: "apt-get".to_owned(), args, env: CommandEnv::Inherited },
        )
    }

    /// Takes in what came of the step before and says what is done next.
    pub fn step(&mut self, event: StepEvent) -> (r: Step)
        ensures
            (final(self).deep_view(), r.deep_view()) == old(self).deep_view().after(
                event.deep_view(),
            ),
    {
        match (self.phase, event) {
            (SystemPhase::Update, StepEvent::Done) => {
                self.phase = SystemPhase::Install;
                let ghost names = self.packages.deep_view();
                let ghost head = seq!["install"@, "-y"@];
                let mut args: Vec<String> = Vec::new();
                args.push("install".to_owned());
                args.push("-y".to_owned());
                let mut i: usize = 0;
                assert(args.deep_view() =~= head + names.take(0));
                while i < self.packages.len()
                    invariant
                        i <= self.packages@.len(),
                        names == self.packages.deep_view(),
                        args.deep_view() == head + names.take(i as int),
                    decreases self.packages@.len() - i,
                {
                    let ghost before = args.deep_view();
                    args.push(self.packages[i].clone());
                    assert(args.deep_view() =~= before.push(names[i as int]));
                    assert(args.deep_view() =~= head + names.take(i + 1));
                    i += 1;
                }
                assert(names.take(names.len() as int) =~= names);
                plain_step(
                    StepAction::Run {
                        program: "apt-get".to_owned(),
                        args,
                        env: CommandEnv::NonInteractive,
                    },
                )
            },
            (SystemPhase::Install, StepEvent::Done) => {
                self.phase = SystemPhase::Verify;
                plain_step(StepAction::Finish)
            },
            (_, StepEvent::Failed(m)) => {
                self.phase = SystemPhase::Over;
                fail_step(m)
            },
            _ => {
                self.phase = SystemPhase::Over;
                fail_step("unexpected step".to_owned())
            },
        }
    }

    /// Whether every package is there after the last run of `apt-get`.
    pub fn verify(&self, installed: &crate::ids::IdSet) -> (r: Result<(), String>)
        ensures
            match first_absent(self.deep_view().packages, installed@, 0) {
                Some(p) => r matches Err(m) && m@ == p
                    + " was not detected after apt-get completed"@,
                None => r is Ok,
            },
    {
        let ghost names = self.packages.deep_view();
        let mut i: usize = 0;
        while i < self.packages.len()
            invariant
                i <= self.packages@.len(),
                names == self.packages.deep_view(),
                first_absent(names, installed@, 0) == first_absent(names, installed@, i as int),
            decreases self.packages@.len() - i,
        {
            assert(names[i as int] == self.packages@[i as int]@);
            if !installed.contains(self.packages[i].as_str()) {
                return Err(
                    cat2(
                        self.packages[i].as_str(),
                        " was not detected after apt-get completed",
                    ),
                );
            }
            i += 1;
        }
        Ok(())
    }
}

}
