//! Custom nodes on disk: how their folders are recognised, what their runtimes need, and how they
//! are installed.
use crate::catalog::{CustomNode, NodeView};
use crate::comfy::dot_venv_python;
use crate::outside::{new_uuid, uuid_shaped};
use crate::paths::{join_path, joined_path};
use crate::steps::{
    fail_step, failing, noted, noted_step, plain, plain_step, CommandEnv, DirEntry, EntryView,
    EnvironmentView, Step, StepAction, StepActionView, StepEvent, StepEventView, StepView,
};
use crate::text::{
    ascii_lower, cat2, cat3, cat4, chars_of, contains, contains_text, has_prefix, lower_char,
    same_text, starts_with, Text,
};
use vstd::prelude::*;
use vstd::string::*;

verus! {

/// An ASCII letter or digit.
pub open spec fn alphanumeric(c: char) -> bool {
    '0' <= c <= '9' || 'a' <= c <= 'z' || 'A' <= c <= 'Z'
}

/// The ASCII letters and digits of `s`, in lower case.
pub open spec fn folded(s: Text) -> Text
    decreases s.len(),
{
    if s.len() == 0 {
        Seq::empty()
    } else if alphanumeric(s.last()) {
        folded(s.drop_last()).push(ascii_lower(s.last()))
    } else {
        folded(s.drop_last())
    }
}

/// The name of a node's folder without its case and whatever is no letter or digit.
pub fn normalized_node_name(name: &str) -> (r: String)
    ensures
        r@ == folded(name@),
{
    let v = chars_of(name);
    let mut out = String::new();
    let mut i: usize = 0;
    assert(v@.take(0) =~= Seq::empty());
    while i < v.len()
        invariant
            i <= v@.len(),
            out@ == folded(v@.take(i as int)),
        decreases v@.len() - i,
    {
        let c = v[i];
        proof {
            assert(v@.take(i + 1).drop_last() =~= v@.take(i as int));
        }
        if ('0' <= c && c <= '9') || ('a' <= c && c <= 'z') || ('A' <= c && c <= 'Z') {
            out.push(lower_char(c));
        }
        i += 1;
    }
    assert(v@.take(v@.len() as int) =~= v@);
    out
}

/// The first directory from `at` on whose name is the same but for case and separators.
pub open spec fn equivalent_from(entries: Seq<EntryView>, expected: Text, at: int) -> Option<Text>
    decreases entries.len() - at,
{
    if at < 0 || at >= entries.len() {
        None
    } else if entries[at].is_dir && folded(entries[at].name) == folded(expected) {
        Some(entries[at].name)
    } else {
        equivalent_from(entries, expected, at + 1)
    }
}

/// The directory of the node among the entries: the first whose name is the same but for case and
/// separators.
pub fn find_equivalent_node_folder<'a>(entries: &'a Vec<DirEntry>, expected: &str) -> (r: Option<
    &'a String,
>)
    ensures
        (match r {
            Some(s) => Some(s@),
            None => None,
        }) == equivalent_from(entries.deep_view(), expected@, 0),
{
    let want = normalized_node_name(expected);
    let ghost all = entries.deep_view();
    let mut i: usize = 0;
    while i < entries.len()
        invariant
            i <= entries@.len(),
            all == entries.deep_view(),
            want@ == folded(expected@),
            equivalent_from(all, expected@, 0) == equivalent_from(all, expected@, i as int),
        decreases entries@.len() - i,
    {
        assert(all[i as int] == entries@[i as int].deep_view());
        if entries[i].is_dir {
            let name = normalized_node_name(entries[i].name.as_str());
            if same_text(name.as_str(), want.as_str()) {
                return Some(&entries[i].name);
            }
        }
        i += 1;
    }
    None
}

/// The packages that a known node's runtime needs, and the import that proves that they are there.
pub open spec fn runtime_of(folder: Text) -> Option<(Seq<Text>, Text)> {
    let name = folded(folder);
    if name == "comfyuifaceanalysis"@ {
        Some(
            (
                seq![
                    "setuptools"@,
                    "onnx"@,
                    "onnxruntime"@,
                    "insightface==0.7.3"@,
                    "color_matcher"@,
                ],
                "from insightface.app import FaceAnalysis"@,
            ),
        )
    } else if name == "comfyuioutputlistscombiner"@ {
        Some((seq!["skia-python"@], "import skia"@))
    } else if name == "comfyuieasyuse"@ {
        Some((seq!["opencv-python-headless"@], "import cv2"@))
    } else {
        None
    }
}

/// The packages that a known node's runtime needs, and the import that proves that they are there.
pub fn known_node_runtime_spec(folder_name: &str) -> (r: Option<(Vec<String>, &'static str)>)
    ensures
        match r {
            Some((packages, import)) => runtime_of(folder_name@) == Some(
                (packages.deep_view(), import@),
            ),
            None => runtime_of(folder_name@) is None,
        },
{
    let name = normalized_node_name(folder_name);
    let mut packages: Vec<String> = Vec::new();
    if same_text(name.as_str(), "comfyuifaceanalysis") {
        packages.push("setuptools".to_owned());
        packages.push("onnx".to_owned());
        packages.push("onnxruntime".to_owned());
        packages.push("insightface==0.7.3".to_owned());
        packages.push("color_matcher".to_owned());
        assert(packages.deep_view() =~= seq![
            "setuptools"@,
            "onnx"@,
            "onnxruntime"@,
            "insightface==0.7.3"@,
            "color_matcher"@,
        ]);
        Some((packages, "from insightface.app import FaceAnalysis"))
    } else if same_text(name.as_str(), "comfyuioutputlistscombiner") {
        packages.push("skia-python".to_owned());
        assert(packages.deep_view() =~= seq!["skia-python"@]);
        Some((packages, "import skia"))
    } else if same_text(name.as_str(), "comfyuieasyuse") {
        packages.push("opencv-python-headless".to_owned());
        assert(packages.deep_view() =~= seq!["opencv-python-headless"@]);
        Some((packages, "import cv2"))
    } else {
        None
    }
}

/// The arguments of Python that install a node's requirements. FaceAnalysis gets its supported
/// backend in place of its own list.
pub open spec fn requirement_args(folder: Text, requirements: Text) -> Seq<Text> {
    seq!["-m"@, "pip"@, "install"@] + if folded(folder) == "comfyuifaceanalysis"@ {
        seq!["onnxruntime"@, "insightface"@, "color_matcher"@]
    } else {
        seq!["-r"@, requirements]
    }
}

/// The run of pip that installs a node's requirements.
pub open spec fn install_requirements(python: Text, folder: Text, requirements: Text) -> StepActionView {
    StepActionView::Run {
        program: python,
        args: requirement_args(folder, requirements),
        env: EnvironmentView::NoPipIndex,
    }
}

/// The run of pip that installs a node's requirements.
pub fn install_custom_node_python_requirements(
    python: &str,
    folder_name: &str,
    requirements: &str,
) -> (r: StepAction)
    ensures
        r.deep_view() == install_requirements(python@, folder_name@, requirements@),
{
    let mut args: Vec<String> = Vec::new();
    args.push("-m".to_owned());
    args.push("pip".to_owned());
    args.push("install".to_owned());
    let name = normalized_node_name(folder_name);
    if same_text(name.as_str(), "comfyuifaceanalysis") {
        args.push("onnxruntime".to_owned());
        args.push("insightface".to_owned());
        args.push("color_matcher".to_owned());
    } else {
        args.push("-r".to_owned());
        args.push(requirements.to_owned());
    }
    assert(args.deep_view() =~= requirement_args(folder_name@, requirements@));
    StepAction::Run { program: python.to_owned(), args, env: CommandEnv::NoPipIndex }
}

/// Where `libEGL.so.1` is looked for.
pub fn libegl_paths() -> (r: Vec<String>)
    ensures
        r.deep_view() == seq![
            "/usr/lib/x86_64-linux-gnu/libEGL.so.1"@,
            "/lib/x86_64-linux-gnu/libEGL.so.1"@,
            "/usr/lib/aarch64-linux-gnu/libEGL.so.1"@,
            "/lib/aarch64-linux-gnu/libEGL.so.1"@,
        ],
{
    let mut out: Vec<String> = Vec::new();
    out.push("/usr/lib/x86_64-linux-gnu/libEGL.so.1".to_owned());
    out.push("/lib/x86_64-linux-gnu/libEGL.so.1".to_owned());
    out.push("/usr/lib/aarch64-linux-gnu/libEGL.so.1".to_owned());
    out.push("/lib/aarch64-linux-gnu/libEGL.so.1".to_owned());
    assert(out.deep_view() =~= seq![
        "/usr/lib/x86_64-linux-gnu/libEGL.so.1"@,
        "/lib/x86_64-linux-gnu/libEGL.so.1"@,
        "/usr/lib/aarch64-linux-gnu/libEGL.so.1"@,
        "/lib/aarch64-linux-gnu/libEGL.so.1"@,
    ]);
    out
}

/// `libEGL.so.1` is there: as a file, or in the list of the dynamic linker.
pub open spec fn libegl_there(any_path_exists: bool, listed: bool, list: Text) -> bool {
    any_path_exists || (listed && contains_text(list, "libEGL.so.1"@))
}

/// Whether `libEGL.so.1` is there: at a known path, or in the linker's list.
pub fn linux_has_libegl(any_path_exists: bool, ldconfig_ok: bool, ldconfig_output: &str) -> (r: bool)
    ensures
        r == libegl_there(any_path_exists, ldconfig_ok, ldconfig_output@),
{
    any_path_exists || (ldconfig_ok && contains(ldconfig_output, "libEGL.so.1"))
}

/// A query of the package manager answers that a package is installed.
pub open spec fn package_there(query_ok: bool, output: Text) -> bool {
    query_ok && contains_text(output, "install ok installed"@)
}

/// Whether `dpkg-query` says that a package is installed.
pub fn system_package_installed(query_ok: bool, output: &str) -> (r: bool)
    ensures
        r == package_there(query_ok, output@),
{
    query_ok && contains(output, "install ok installed")
}

/// Whether a temporary directory belongs to the custom node.
pub fn is_node_temp(name: &str, node_id: &str) -> (r: bool)
    ensures
        r == has_prefix(name@, node_id@ + "-"@),
{
    let prefix = cat2(node_id, "-");
    starts_with(name, prefix.as_str())
}

/// The step that a verification of a runtime waits for.
#[derive(Clone, Copy, Debug, PartialEq, Eq, Structural)]
pub enum RuntimePhase {
    Start,
    Packages,
    Probe,
    AptInstall,
    AptUpdate,
    AptRetry,
    ProbeAgain,
    Import,
    Over,
}

/// The verification of a custom node's runtime: its packages are installed and imported.
pub struct RuntimeCheck {
    pub python: String,
    pub folder: String,
    pub linux: bool,
    pub phase: RuntimePhase,
}

/// What a [`RuntimeCheck`] holds.
pub struct RuntimeView {
    pub python: Text,
    pub folder: Text,
    pub linux: bool,
    pub phase: RuntimePhase,
}

impl DeepView for RuntimeCheck {
    type V = RuntimeView;

    open spec fn deep_view(&self) -> RuntimeView {
        RuntimeView {
            python: self.python@,
            folder: self.folder@,
            linux: self.linux,
            phase: self.phase,
        }
    }
}

/// The run of `apt-get` that installs `libegl1`.
pub open spec fn apt_libegl() -> StepActionView {
    StepActionView::Run {
        program: "apt-get"@,
        args: seq!["install"@, "-y"@, "libegl1"@],
        env: EnvironmentView::NonInteractive,
    }
}

fn apt_libegl_action() -> (r: StepAction)
    ensures
        r.deep_view() == apt_libegl(),
{
    let mut args: Vec<String> = Vec::new();
    args.push("install".to_owned());
    args.push("-y".to_owned());
    args.push("libegl1".to_owned());
    assert(args.deep_view() =~= seq!["install"@, "-y"@, "libegl1"@]);
    StepAction::Run { program: "apt-get".to_owned(), args, env: CommandEnv::NonInteractive }
}

/// The run of `apt-get` that refreshes its package lists.
pub open spec fn apt_update() -> StepActionView {
    StepActionView::Run {
        program: "apt-get"@,
        args: seq!["update"@],
        env: EnvironmentView::NonInteractive,
    }
}

fn apt_update_action() -> (r: StepAction)
    ensures
        r.deep_view() == apt_update(),
{
    let mut args: Vec<String> = Vec::new();
    args.push("update".to_owned());
    assert(args.deep_view() =~= seq!["update"@]);
    StepAction::Run { program: "apt-get".to_owned(), args, env: CommandEnv::NonInteractive }
}

impl RuntimeView {
    pub open spec fn at(self, phase: RuntimePhase) -> RuntimeView {
        RuntimeView { phase, ..self }
    }

    pub open spec fn fail(self, message: Text) -> (RuntimeView, StepView) {
        (self.at(RuntimePhase::Over), failing(message))
    }

    /// The import that proves that the runtime is there.
    pub open spec fn import(self) -> (RuntimeView, StepView) {
        match runtime_of(self.folder) {
            Some((_, import)) => (
                self.at(RuntimePhase::Import),
                plain(
                    StepActionView::Run {
                        program: self.python,
                        args: seq!["-c"@, import],
                        env: EnvironmentView::Inherited,
                    },
                ),
            ),
            None => (self.at(RuntimePhase::Over), plain(StepActionView::Finish)),
        }
    }

    /// The first step: nothing is to be done for a node that is not known.
    pub open spec fn begin(self) -> (RuntimeView, StepView) {
        match runtime_of(self.folder) {
            Some((packages, _)) => (
                self.at(RuntimePhase::Packages),
                noted(
                    "[PYTHON] Verifying runtime for "@ + self.folder,
                    StepActionView::Run {
                        program: self.python,
                        args: seq!["-m"@, "pip"@, "install"@] + packages,
                        env: EnvironmentView::NoPipIndex,
                    },
                ),
            ),
            None => (self.at(RuntimePhase::Over), plain(StepActionView::Finish)),
        }
    }

    /// The verification after an event, and what is done next.
    pub open spec fn after(self, event: StepEventView) -> (RuntimeView, StepView) {
        match (self.phase, event) {
            (RuntimePhase::Packages, StepEventView::Done) => if self.linux && folded(self.folder)
                == "comfyuioutputlistscombiner"@ {
                (self.at(RuntimePhase::Probe), plain(StepActionView::ProbeLibEgl))
            } else {
                self.import()
            },
            (RuntimePhase::Probe, StepEventView::Found(there)) => if there {
                self.import()
            } else {
                (
                    self.at(RuntimePhase::AptInstall),
                    noted(
                        "[SYSTEM] libEGL.so.1 is missing; installing Debian/Ubuntu package libegl1"@,
                        apt_libegl(),
                    ),
                )
            },
            (RuntimePhase::AptInstall, StepEventView::Done) => (
                self.at(RuntimePhase::ProbeAgain),
                plain(StepActionView::ProbeLibEgl),
            ),
            (RuntimePhase::AptInstall, StepEventView::Failed(_)) => (
                self.at(RuntimePhase::AptUpdate),
                noted(
                    "[SYSTEM] Refreshing apt package metadata before retrying libegl1"@,
                    apt_update(),
                ),
            ),
            (RuntimePhase::AptUpdate, StepEventView::Done) => (
                self.at(RuntimePhase::AptRetry),
                plain(apt_libegl()),
            ),
            (RuntimePhase::AptUpdate, StepEventView::Failed(m)) => self.fail(
                "libEGL.so.1 is missing and apt metadata refresh failed; install `libegl1` manually: "@
                    + m,
            ),
            (RuntimePhase::AptRetry, StepEventView::Done) => (
                self.at(RuntimePhase::ProbeAgain),
                plain(StepActionView::ProbeLibEgl),
            ),
            (RuntimePhase::AptRetry, StepEventView::Failed(m)) => self.fail(
                "libEGL.so.1 is missing; install Debian/Ubuntu package `libegl1` manually: "@ + m,
            ),
            (RuntimePhase::ProbeAgain, StepEventView::Found(there)) => if there {
                self.import()
            } else {
                self.fail(
                    "installed libegl1 but libEGL.so.1 is still unavailable to the dynamic linker"@,
                )
            },
            (RuntimePhase::Import, StepEventView::Done) => (
                self.at(RuntimePhase::Over),
                plain(StepActionView::Finish),
            ),
            (_, StepEventView::Failed(m)) => self.fail(m),
            _ => self.fail("unexpected step"@),
        }
    }
}

impl RuntimeCheck {
    /// The verification of the runtime of the node in `folder`, before its first step.
    pub fn new(python: String, folder: String, linux: bool) -> (r: RuntimeCheck)
        ensures
            r.deep_view() == (RuntimeView {
                python: python@,
                folder: folder@,
                linux,
                phase: RuntimePhase::Start,
            }),
    {
        RuntimeCheck { python, folder, linux, phase: RuntimePhase::Start }
    }

    fn fail(&mut self, message: String) -> (r: Step)
        ensures
            (final(self).deep_view(), r.deep_view()) == old(self).deep_view().fail(message@),
    {
        self.phase = RuntimePhase::Over;
        fail_step(message)
    }

    fn import(&mut self) -> (r: Step)
        ensures
            (final(self).deep_view(), r.deep_view()) == old(self).deep_view().import(),
    {
        match known_node_runtime_spec(self.folder.as_str()) {
            Some((_, import)) => {
                self.phase = RuntimePhase::Import;
                let mut args: Vec<String> = Vec::new();
                args.push("-c".to_owned());
                args.push(import.to_owned());
                assert(args.deep_view() =~= seq!["-c"@, import@]);
                plain_step(
                    StepAction::Run {
                        program: self.python.clone(),
                        args,
                        env: CommandEnv::Inherited,
                    },
                )
            },
            None => {
                self.phase = RuntimePhase::Over;
                plain_step(StepAction::Finish)
            },
        }
    }

    /// The first step.
    pub fn begin(&mut self) -> (r: Step)
        ensures
            (final(self).deep_view(), r.deep_view()) == old(self).deep_view().begin(),
    {
        match known_node_runtime_spec(self.folder.as_str()) {
            Some((packages, _)) => {
                self.phase = RuntimePhase::Packages;
                let ghost all = packages.deep_view();
                let mut args: Vec<String> = Vec::new();
                args.push("-m".to_owned());
                args.push("pip".to_owned());
                args.push("install".to_owned());
                let ghost head = seq!["-m"@, "pip"@, "install"@];
                assert(args.deep_view() =~= head + all.take(0));
                for p in it: packages.into_iter()
                    invariant
                        it.seq() == packages@,
                        all == packages.deep_view(),
                        args.deep_view() == head + all.take(it.index() as int),
                {
                    let ghost before = args.deep_view();
                    let ghost t = p@;
                    args.push(p);
                    assert(args.deep_view() =~= before.push(t));
                    assert(args.deep_view() =~= head + all.take(it.index() + 1));
                }
                assert(all.take(all.len() as int) =~= all);
                noted_step(
                    cat2("[PYTHON] Verifying runtime for ", self.folder.as_str()),
                    StepAction::Run {
                        program: self.python.clone(),
                        args,
                        env: CommandEnv::NoPipIndex,
                    },
                )
            },
            None => {
                self.phase = RuntimePhase::Over;
                plain_step(StepAction::Finish)
            },
        }
    }

    /// Takes in what came of the step before and says what is done next.
    pub fn step(&mut self, event: StepEvent) -> (r: Step)
        ensures
            (final(self).deep_view(), r.deep_view()) == old(self).deep_view().after(
                event.deep_view(),
            ),
    {
        match (self.phase, event) {
            (RuntimePhase::Packages, StepEvent::Done) => {
                let name = normalized_node_name(self.folder.as_str());
                if self.linux && same_text(name.as_str(), "comfyuioutputlistscombiner") {
                    self.phase = RuntimePhase::Probe;
                    plain_step(StepAction::ProbeLibEgl)
                } else {
                    self.import()
                }
            },
            (RuntimePhase::Probe, StepEvent::Found(there)) => {
                if there {
                    self.import()
                } else {
                    self.phase = RuntimePhase::AptInstall;
                    noted_step(
                        "[SYSTEM] libEGL.so.1 is missing; installing Debian/Ubuntu package libegl1".to_owned(),
                        apt_libegl_action(),
                    )
                }
            },
            (RuntimePhase::AptInstall, StepEvent::Done) => {
                self.phase = RuntimePhase::ProbeAgain;
                plain_step(StepAction::ProbeLibEgl)
            },
            (RuntimePhase::AptInstall, StepEvent::Failed(_)) => {
                self.phase = RuntimePhase::AptUpdate;
                noted_step(
                    "[SYSTEM] Refreshing apt package metadata before retrying libegl1".to_owned(),
                    apt_update_action(),
                )
            },
            (RuntimePhase::AptUpdate, StepEvent::Done) => {
                self.phase = RuntimePhase::AptRetry;
                plain_step(apt_libegl_action())
            },
            (RuntimePhase::AptUpdate, StepEvent::Failed(m)) => self.fail(
                cat2(
                    "libEGL.so.1 is missing and apt metadata refresh failed; install `libegl1` manually: ",
                    m.as_str(),
                ),
            ),
            (RuntimePhase::AptRetry, StepEvent::Done) => {
                self.phase = RuntimePhase::ProbeAgain;
                plain_step(StepAction::ProbeLibEgl)
            },
            (RuntimePhase::AptRetry, StepEvent::Failed(m)) => self.fail(
                cat2(
                    "libEGL.so.1 is missing; install Debian/Ubuntu package `libegl1` manually: ",
                    m.as_str(),
                ),
            ),
            (RuntimePhase::ProbeAgain, StepEvent::Found(there)) => {
                if there {
                    self.import()
                } else {
                    self.fail(
                        "installed libegl1 but libEGL.so.1 is still unavailable to the dynamic linker".to_owned(),
                    )
                }
            },
            (RuntimePhase::Import, StepEvent::Done) => {
                self.phase = RuntimePhase::Over;
                plain_step(StepAction::Finish)
            },
            (_, StepEvent::Failed(m)) => self.fail(m),
            _ => self.fail("unexpected step".to_owned()),
        }
    }
}

/// The step that the installation of a custom node waits for.
#[derive(Clone, Copy, Debug, PartialEq, Eq, Structural)]
pub enum NodePhase {
    Start,
    CreateBase,
    ListBase,
    CheckTarget,
    CreateTemp,
    Clone,
    Publish,
    CheckPython,
    CheckRequirements,
    Requirements,
    Runtime,
    Over,
}

/// The installation of a custom node below the ComfyUI root.
pub struct NodeInstall {
    pub root: String,
    pub node: CustomNode,
    pub windows: bool,
    pub target: String,
    pub temporary: String,
    pub phase: NodePhase,
}

/// What a [`NodeInstall`] holds.
pub struct NodeInstallView {
    pub root: Text,
    pub node: NodeView,
    pub windows: bool,
    pub target: Text,
    pub temporary: Text,
    pub phase: NodePhase,
}

impl DeepView for NodeInstall {
    type V = NodeInstallView;

    open spec fn deep_view(&self) -> NodeInstallView {
        NodeInstallView {
            root: self.root@,
            node: self.node.deep_view(),
            windows: self.windows,
            target: self.target@,
            temporary: self.temporary@,
            phase: self.phase,
        }
    }
}

/// The directory of the custom nodes.
pub open spec fn nodes_dir(windows: bool, root: Text) -> Text {
    joined_path(windows, root, "custom_nodes"@)
}

/// The directory that a custom node is cloned to first.
pub open spec fn node_temp_dir(windows: bool, root: Text, node_id: Text, id: Text) -> Text {
    joined_path(windows, joined_path(windows, nodes_dir(windows, root), ".comfybox-tmp"@), node_id + "-"@ + id)
}

impl NodeInstallView {
    pub open spec fn at(self, phase: NodePhase) -> NodeInstallView {
        NodeInstallView { phase, ..self }
    }

    pub open spec fn fail(self, message: Text) -> (NodeInstallView, StepView) {
        (self.at(NodePhase::Over), failing(message))
    }

    pub open spec fn temp_base(self) -> Text {
        joined_path(self.windows, nodes_dir(self.windows, self.root), ".comfybox-tmp"@)
    }

    pub open spec fn python(self) -> Text {
        dot_venv_python(self.root, self.windows)
    }

    pub open spec fn requirements(self) -> Text {
        joined_path(self.windows, self.target, "requirements.txt"@)
    }

    /// The node's files are there: its Python side follows.
    pub open spec fn check_python(self) -> (NodeInstallView, StepView) {
        (
            self.at(NodePhase::CheckPython),
            plain(StepActionView::CheckFile { path: self.python() }),
        )
    }

    pub open spec fn runtime(self) -> (NodeInstallView, StepView) {
        (
            self.at(NodePhase::Runtime),
            plain(
                StepActionView::VerifyRuntime {
                    python: self.python(),
                    folder: self.node.folder_name,
                },
            ),
        )
    }

    pub open spec fn begin(self) -> (NodeInstallView, StepView) {
        (
            self.at(NodePhase::CreateBase),
            plain(StepActionView::CreateDir { path: nodes_dir(self.windows, self.root) }),
        )
    }

    /// The installation after an event, and what is done next.
    pub open spec fn after(self, event: StepEventView) -> (NodeInstallView, StepView) {
        match (self.phase, event) {
            (NodePhase::CreateBase, StepEventView::Done) => (
                self.at(NodePhase::ListBase),
                plain(StepActionView::ListDir { path: nodes_dir(self.windows, self.root) }),
            ),
            (NodePhase::ListBase, StepEventView::Listed(entries)) => {
                let next = NodeInstallView {
                    target: joined_path(
                        self.windows,
                        nodes_dir(self.windows, self.root),
                        match equivalent_from(entries, self.node.folder_name, 0) {
                            Some(name) => name,
                            None => self.node.folder_name,
                        },
                    ),
                    ..self
                };
                (
                    next.at(NodePhase::CheckTarget),
                    plain(StepActionView::CheckExists { path: next.target }),
                )
            },
            (NodePhase::ListBase, StepEventView::Failed(_)) => {
                let next = NodeInstallView {
                    target: joined_path(
                        self.windows,
                        nodes_dir(self.windows, self.root),
                        self.node.folder_name,
                    ),
                    ..self
                };
                (
                    next.at(NodePhase::CheckTarget),
                    plain(StepActionView::CheckExists { path: next.target }),
                )
            },
            (NodePhase::CheckTarget, StepEventView::Found(there)) => if there {
                self.check_python()
            } else {
                (
                    self.at(NodePhase::CreateTemp),
                    plain(StepActionView::CreateDir { path: self.temp_base() }),
                )
            },
            (NodePhase::CreateTemp, StepEventView::Done) => (
                self.at(NodePhase::Clone),
                noted(
                    "[GIT] Cloning "@ + self.node.name + " from "@ + self.node.git_url,
                    StepActionView::Clone { url: self.node.git_url, target: self.temporary },
                ),
            ),
            (NodePhase::Clone, StepEventView::Done) => (
                self.at(NodePhase::Publish),
                plain(StepActionView::Rename { from: self.temporary, to: self.target }),
            ),
            (NodePhase::Clone, StepEventView::Failed(m)) => (
                self.at(NodePhase::Over),
                StepView {
                    remove: Some(self.temporary),
                    ..failing("git clone failed for "@ + self.node.name + ": "@ + m)
                },
            ),
            (NodePhase::Publish, StepEventView::Done) => (
                self.at(NodePhase::CheckPython),
                StepView {
                    remove_empty: Some(self.temp_base()),
                    ..noted(
                        "[GIT] Installed "@ + self.node.name + " at "@ + self.target,
                        StepActionView::CheckFile { path: self.python() },
                    )
                },
            ),
            (NodePhase::CheckPython, StepEventView::Found(there)) => if there {
                (
                    self.at(NodePhase::CheckRequirements),
                    plain(StepActionView::CheckFile { path: self.requirements() }),
                )
            } else {
                self.fail(
                    "ComfyUI virtual environment is missing; install Python dependencies first"@,
                )
            },
            (NodePhase::CheckRequirements, StepEventView::Found(there)) => if there {
                (
                    self.at(NodePhase::Requirements),
                    noted(
                        "[PYTHON] Installing requirements for "@ + self.node.name,
                        install_requirements(
                            self.python(),
                            self.node.folder_name,
                            self.requirements(),
                        ),
                    ),
                )
            } else {
                self.runtime()
            },
            (NodePhase::Requirements, StepEventView::Done) => self.runtime(),
            (NodePhase::Runtime, StepEventView::Done) => (
                self.at(NodePhase::Over),
                plain(StepActionView::Finish),
            ),
            (_, StepEventView::Failed(m)) => self.fail(m),
            _ => self.fail("unexpected step"@),
        }
    }
}

impl NodeInstall {
    /// The installation of `node` below `root`, before its first step.
    pub fn new(root: String, node: CustomNode, windows: bool) -> (r: NodeInstall)
        ensures
            r.root@ == root@,
            r.node.deep_view() == node.deep_view(),
            r.windows == windows,
            r.phase == NodePhase::Start,
            r.target@ == Text::empty(),
            exists|id: Text|
                uuid_shaped(id) && r.temporary@ == #[trigger] node_temp_dir(
                    windows,
                    root@,
                    node.id@,
                    id,
                ),
    {
        let base = join_path(windows, root.as_str(), "custom_nodes");
        let tmp = join_path(windows, base.as_str(), ".comfybox-tmp");
        let id = new_uuid();
        let name = cat3(node.id.as_str(), "-", id.as_str());
        let temporary = join_path(windows, tmp.as_str(), name.as_str());
        assert(temporary@ == node_temp_dir(windows, root@, node.id@, id@));
        NodeInstall {
            root,
            node,
            windows,
            target: String::new(),
            temporary,
            phase: NodePhase::Start,
        }
    }

    fn base(&self) -> (r: String)
        ensures
            r@ == nodes_dir(self.windows, self.root@),
    {
        join_path(self.windows, self.root.as_str(), "custom_nodes")
    }

    fn temp_base(&self) -> (r: String)
        ensures
            r@ == self.deep_view().temp_base(),
    {
        join_path(self.windows, self.base().as_str(), ".comfybox-tmp")
    }

    fn python(&self) -> (r: String)
        ensures
            r@ == self.deep_view().python(),
    {
        crate::comfy::python_paths(self.root.as_str(), self.windows).0
    }

    fn requirements(&self) -> (r: String)
        ensures
            r@ == self.deep_view().requirements(),
    {
        join_path(self.windows, self.target.as_str(), "requirements.txt")
    }

    fn fail(&mut self, message: String) -> (r: Step)
        ensures
            (final(self).deep_view(), r.deep_view()) == old(self).deep_view().fail(message@),
    {
        self.phase = NodePhase::Over;
        fail_step(message)
    }

    fn check_python(&mut self) -> (r: Step)
        ensures
            (final(self).deep_view(), r.deep_view()) == old(self).deep_view().check_python(),
    {
        self.phase = NodePhase::CheckPython;
        plain_step(StepAction::CheckFile { path: self.python() })
    }

    fn runtime(&mut self) -> (r: Step)
        ensures
            (final(self).deep_view(), r.deep_view()) == old(self).deep_view().runtime(),
    {
        self.phase = NodePhase::Runtime;
        plain_step(
            StepAction::VerifyRuntime {
                python: self.python(),
                folder: self.node.folder_name.clone(),
            },
        )
    }

    /// The first step.
    pub fn begin(&mut self) -> (r: Step)
        ensures
            (final(self).deep_view(), r.deep_view()) == old(self).deep_view().begin(),
    {
        self.phase = NodePhase::CreateBase;
        plain_step(StepAction::CreateDir { path: self.base() })
    }

    /// Takes in what came of the step before and says what is done next.
    pub fn step(&mut self, event: StepEvent) -> (r: Step)
        ensures
            (final(self).deep_view(), r.deep_view()) == old(self).deep_view().after(
                event.deep_view(),
            ),
    {
        match (self.phase, event) {
            (NodePhase::CreateBase, StepEvent::Done) => {
                self.phase = NodePhase::ListBase;
                plain_step(StepAction::ListDir { path: self.base() })
            },
            (NodePhase::ListBase, StepEvent::Listed(entries)) => {
                let base = self.base();
                let folder = match find_equivalent_node_folder(
                    &entries,
                    self.node.folder_name.as_str(),
                ) {
                    Some(name) => name.clone(),
                    None => self.node.folder_name.clone(),
                };
                self.target = join_path(self.windows, base.as_str(), folder.as_str());
                self.phase = NodePhase::CheckTarget;
                plain_step(StepAction::CheckExists { path: self.target.clone() })
            },
            (NodePhase::ListBase, StepEvent::Failed(_)) => {
                let base = self.base();
                let folder = self.node.folder_name.as_str();
                self.target = join_path(self.windows, base.as_str(), folder);
                self.phase = NodePhase::CheckTarget;
                plain_step(StepAction::CheckExists { path: self.target.clone() })
            },
            (NodePhase::CheckTarget, StepEvent::Found(there)) => {
                if there {
                    self.check_python()
                } else {
                    self.phase = NodePhase::CreateTemp;
                    plain_step(StepAction::CreateDir { path: self.temp_base() })
                }
            },
            (NodePhase::CreateTemp, StepEvent::Done) => {
                self.phase = NodePhase::Clone;
                noted_step(
                    cat4(
                        "[GIT] Cloning ",
                        self.node.name.as_str(),
                        " from ",
                        self.node.git_url.as_str(),
                    ),
                    StepAction::Clone {
                        url: self.node.git_url.clone(),
                        target: self.temporary.clone(),
                    },
                )
            },
            (NodePhase::Clone, StepEvent::Done) => {
                self.phase = NodePhase::Publish;
                plain_step(
                    StepAction::Rename { from: self.temporary.clone(), to: self.target.clone() },
                )
            },
            (NodePhase::Clone, StepEvent::Failed(m)) => {
                self.phase = NodePhase::Over;
                let message = cat4(
                    "git clone failed for ",
                    self.node.name.as_str(),
                    ": ",
                    m.as_str(),
                );
                Step {
                    remove: Some(self.temporary.clone()),
                    remove_empty: None,
                    log: None,
                    action: StepAction::Fail { message },
                }
            },
            (NodePhase::Publish, StepEvent::Done) => {
                self.phase = NodePhase::CheckPython;
                let line = cat4(
                    "[GIT] Installed ",
                    self.node.name.as_str(),
                    " at ",
                    self.target.as_str(),
                );
                Step {
                    remove: None,
                    remove_empty: Some(self.temp_base()),
                    log: Some(line),
                    action: StepAction::CheckFile { path: self.python() },
                }
            },
            (NodePhase::CheckPython, StepEvent::Found(there)) => {
                if there {
                    self.phase = NodePhase::CheckRequirements;
                    plain_step(StepAction::CheckFile { path: self.requirements() })
                } else {
                    self.fail(
                        "ComfyUI virtual environment is missing; install Python dependencies first".to_owned(),
                    )
                }
            },
            (NodePhase::CheckRequirements, StepEvent::Found(there)) => {
                if there {
                    self.phase = NodePhase::Requirements;
                    let python = self.python();
                    let requirements = self.requirements();
                    noted_step(
                        cat2("[PYTHON] Installing requirements for ", self.node.name.as_str()),
                        install_custom_node_python_requirements(
                            python.as_str(),
                            self.node.folder_name.as_str(),
                            requirements.as_str(),
                        ),
                    )
                } else {
                    self.runtime()
                }
            },
            (NodePhase::Requirements, StepEvent::Done) => self.runtime(),
            (NodePhase::Runtime, StepEvent::Done) => {
                self.phase = NodePhase::Over;
                plain_step(StepAction::Finish)
            },
            (_, StepEvent::Failed(m)) => self.fail(m),
            _ => self.fail("unexpected step".to_owned()),
        }
    }
}

}
