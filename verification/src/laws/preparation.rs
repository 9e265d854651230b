//! Laws of clones and of what is run for Python, custom nodes and system packages: in which order,
//! with which arguments, and when it is over.
use crate::clone::{CloneActionView, CloneEventView, CloneView};
use crate::comfy::{DepsActionView, DepsEvent, DepsView, PythonFacts};
use crate::ids::ascends;
use crate::laws::packages::folded_in_pieces;
use crate::node_runtime::{alphanumeric, folded, NodeInstallView, RuntimeView};
use crate::paths::joined_path;
use crate::python_deps::{
    critical_folders, dir_names, first_absent, imports_from, marker_fits, PythonInstallView,
    PythonPhase, SystemInstallView,
};
use crate::steps::{EntryView, EnvironmentView, StepActionView, StepEventView, StepView};
use crate::text::{ascii_lower, lower_text, trimmed, Text};
use vstd::prelude::*;
use vstd::string::*;

verus! {

/// A path of the installation: `rest` below `root`.
pub open spec fn below(windows: bool, root: Text, rest: Text) -> Text {
    joined_path(windows, root, rest)
}

/// The interpreter of the environment that dependencies are installed to.
pub open spec fn environment_python(windows: bool, root: Text) -> Text {
    below(
        windows,
        root,
        if windows {
            ".venv/Scripts/python.exe"@
        } else {
            ".venv/bin/python"@
        },
    )
}

/// The step runs the program with these arguments and this environment.
pub open spec fn runs(step: StepView, program: Text, args: Seq<Text>, env: EnvironmentView) -> bool {
    step.action == StepActionView::Run { program, args, env }
}

/// The step looks for a file.
pub open spec fn looks_for(step: StepView, path: Text) -> bool {
    step.action == StepActionView::CheckFile { path }
}

/// The Python dependencies are installed in this order: the requirements and the environment are
/// looked for, the index is configured, the wheels are downloaded from it, installed from where they
/// were downloaded to alone, and removed; the node manager follows, then the custom nodes; and the
/// marker is written before the installation is over.
pub proof fn python_dependencies_are_installed_in_order(run: PythonInstallView)
    ensures
        ({
            let python = environment_python(run.windows, run.root);
            let requirements = below(run.windows, run.root, "requirements.txt"@);
            let index = EnvironmentView::PipIndex(run.pip_index_url);
            let (r0, s0) = run.begin();
            let (r1, s1) = r0.after(StepEventView::Found(true));
            let (r2, s2) = r1.after(StepEventView::Found(true));
            let (r3, s3) = r2.after(StepEventView::Done);
            let (r4, s4) = r3.after(StepEventView::Done);
            let (r5, s5) = r4.after(StepEventView::Done);
            let (r6, s6) = r5.after(StepEventView::Done);
            let (r7, s7) = r6.after(StepEventView::Done);
            let (r8, s8) = r7.after(StepEventView::Found(false));
            let (_, s9) = r8.after(StepEventView::Done);
            &&& looks_for(s0, requirements)
            &&& looks_for(s1, python)
            &&& runs(
                s2,
                python,
                seq!["-m"@, "pip"@, "config"@, "set"@, "global.index-url"@, run.pip_index_url],
                index,
            )
            &&& s3.action == StepActionView::CreateDir { path: run.wheelhouse }
            &&& runs(
                s4,
                python,
                seq!["-m"@, "pip"@, "download"@, "-r"@, requirements, "-d"@, run.wheelhouse],
                index,
            )
            &&& runs(
                s5,
                python,
                seq![
                    "-m"@,
                    "pip"@,
                    "install"@,
                    "--no-index"@,
                    "--find-links"@,
                    run.wheelhouse,
                    "-r"@,
                    requirements,
                ],
                EnvironmentView::Inherited,
            )
            &&& s6.remove == Some(run.wheelhouse)
            &&& runs(
                s6,
                python,
                seq!["-m"@, "pip"@, "install"@, "-U"@, "--pre"@, "comfyui-manager"@],
                index,
            )
            &&& s7.action == StepActionView::CheckDir {
                path: below(run.windows, run.root, "custom_nodes"@),
            }
            &&& s8.action == StepActionView::WriteMarker {
                dir: below(run.windows, run.root, ".comfybox"@),
                path: below(
                    run.windows,
                    below(run.windows, run.root, ".comfybox"@),
                    "python-deps.sha256"@,
                ),
                requirements,
            }
            &&& s9.action is Finish
        }),
{
    let python = environment_python(run.windows, run.root);
    let requirements = below(run.windows, run.root, "requirements.txt"@);
    assert(seq!["-m"@, "pip"@] + seq!["config"@, "set"@, "global.index-url"@, run.pip_index_url]
        =~= seq!["-m"@, "pip"@, "config"@, "set"@, "global.index-url"@, run.pip_index_url]);
    assert(seq!["-m"@, "pip"@] + seq!["download"@, "-r"@, requirements, "-d"@, run.wheelhouse]
        =~= seq!["-m"@, "pip"@, "download"@, "-r"@, requirements, "-d"@, run.wheelhouse]);
    assert(seq!["-m"@, "pip"@] + seq![
        "install"@,
        "--no-index"@,
        "--find-links"@,
        run.wheelhouse,
        "-r"@,
        requirements,
    ] =~= seq![
        "-m"@,
        "pip"@,
        "install"@,
        "--no-index"@,
        "--find-links"@,
        run.wheelhouse,
        "-r"@,
        requirements,
    ]);
    assert(seq!["-m"@, "pip"@] + seq!["install"@, "-U"@, "--pre"@, "comfyui-manager"@] =~= seq![
        "-m"@,
        "pip"@,
        "install"@,
        "-U"@,
        "--pre"@,
        "comfyui-manager"@,
    ]);
}

/// An environment is created by the system's Python where there is none; the installation goes on
/// with the configuration of the index, as it does where there is one.
pub proof fn environments_are_created(run: PythonInstallView)
    ensures
        ({
            let (r1, _) = run.begin().0.after(StepEventView::Found(true));
            let (r2, s2) = r1.after(StepEventView::Found(false));
            &&& runs(
                s2,
                if run.windows {
                    "python"@
                } else {
                    "python3"@
                },
                seq!["-m"@, "venv"@, below(run.windows, run.root, ".venv"@)],
                EnvironmentView::Inherited,
            )
            &&& r2.after(StepEventView::Done) == r1.after(StepEventView::Found(true))
        }),
        run.begin().0.after(StepEventView::Found(false)).1.action is Fail,
{
}

proof fn directories(entries: Seq<EntryView>, name: Text)
    ensures
        dir_names(entries).contains(name) <==> exists|i: int|
            0 <= i < entries.len() && (#[trigger] entries[i]).is_dir && entries[i].name == name,
    decreases entries.len(),
{
    if entries.len() > 0 {
        let rest = entries.drop_last();
        directories(rest, name);
        if dir_names(rest).contains(name) {
            let i = choose|i: int|
                0 <= i < rest.len() && (#[trigger] rest[i]).is_dir && rest[i].name == name;
            assert(entries[i].is_dir && entries[i].name == name);
        }
        if exists|i: int|
            0 <= i < entries.len() && (#[trigger] entries[i]).is_dir && entries[i].name == name {
            let i = choose|i: int|
                0 <= i < entries.len() && (#[trigger] entries[i]).is_dir && entries[i].name == name;
            if i < rest.len() {
                assert(rest[i].is_dir && rest[i].name == name);
            } else {
                assert(entries.last().is_dir && entries.last().name == name);
            }
        } else {
            assert(entries.last() == entries[entries.len() - 1]);
        }
    }
}

/// Every directory of the custom nodes is gone through, once and in ascending order, and nothing
/// else is.
pub proof fn every_custom_node_is_prepared(
    run: PythonInstallView,
    entries: Seq<EntryView>,
    name: Text,
)
    requires
        run.phase == PythonPhase::ListNodes,
    ensures
        ({
            let next = run.after(StepEventView::Listed(entries)).0;
            &&& next.at == 0
            &&& next.errors.len() == 0
            &&& ascends(next.folders)
            &&& next.folders.contains(name) <==> exists|i: int|
                0 <= i < entries.len() && (#[trigger] entries[i]).is_dir && entries[i].name == name
        }),
{
    let names = dir_names(entries);
    directories(entries, name);
    finite_names(entries);
    let listed = names.to_seq();
    names.lemma_to_seq_to_set_id();
    crate::ids::ascending_exists(listed);
    let next = run.after(StepEventView::Listed(entries)).0;
    assert(next.folders.to_set().contains(name) == next.folders.contains(name));
}

proof fn finite_names(entries: Seq<EntryView>)
    ensures
        dir_names(entries).finite(),
    decreases entries.len(),
{
    if entries.len() > 0 {
        finite_names(entries.drop_last());
    }
}

/// A custom node's requirements, where it lists some, are installed without the configured index;
/// its runtime is verified in any case; the next node follows. After the last the marker is written,
/// or the failures are reported where there was one.
pub proof fn custom_nodes_are_prepared_one_by_one(run: PythonInstallView)
    requires
        run.phase == PythonPhase::CheckNode,
        run.at < run.folders.len(),
        run.folders.len() <= usize::MAX,
    ensures
        ({
            let folder = run.folders[run.at as int];
            let python = environment_python(run.windows, run.root);
            let nodes = below(run.windows, run.root, "custom_nodes"@);
            let (r1, s1) = run.after(StepEventView::Found(true));
            let (r2, s2) = r1.after(StepEventView::Done);
            let (r3, s3) = r2.after(StepEventView::Done);
            &&& folded(folder) != "comfyuifaceanalysis"@ ==> runs(
                s1,
                python,
                seq![
                    "-m"@,
                    "pip"@,
                    "install"@,
                    "-r"@,
                    below(
                        run.windows,
                        below(run.windows, nodes, folder),
                        "requirements.txt"@,
                    ),
                ],
                EnvironmentView::NoPipIndex,
            )
            &&& folded(folder) == "comfyuifaceanalysis"@ ==> runs(
                s1,
                python,
                seq!["-m"@, "pip"@, "install"@, "onnxruntime"@, "insightface"@, "color_matcher"@],
                EnvironmentView::NoPipIndex,
            )
            &&& s2.action == StepActionView::VerifyRuntime { python, folder }
            &&& run.after(StepEventView::Found(false)).1.action == s2.action
            &&& r1.after(StepEventView::Failed("reason"@)).1.action == s2.action
            &&& r3.errors == run.errors
            &&& run.at + 1 < run.folders.len() ==> r3.at == run.at + 1 && looks_for(
                s3,
                below(
                    run.windows,
                    below(run.windows, nodes, run.folders[run.at + 1]),
                    "requirements.txt"@,
                ),
            )
            &&& run.at + 1 == run.folders.len() && run.errors.len() == 0 ==> s3.action
                is WriteMarker
            &&& run.at + 1 == run.folders.len() && run.errors.len() > 0 ==> s3.action is Fail
        }),
{
    let folder = run.folders[run.at as int];
    let requirements = below(
        run.windows,
        below(run.windows, below(run.windows, run.root, "custom_nodes"@), folder),
        "requirements.txt"@,
    );
    assert(seq!["-m"@, "pip"@, "install"@] + seq!["-r"@, requirements] =~= seq![
        "-m"@,
        "pip"@,
        "install"@,
        "-r"@,
        requirements,
    ]);
    assert(seq!["-m"@, "pip"@, "install"@] + seq!["onnxruntime"@, "insightface"@, "color_matcher"@]
        =~= seq![
        "-m"@,
        "pip"@,
        "install"@,
        "onnxruntime"@,
        "insightface"@,
        "color_matcher"@,
    ]);
}

/// The known node of a name, by the letters and digits of the name: the packages of its runtime, and
/// the statement that proves that they are there.
pub open spec fn known_node(name: Text, packages: Seq<Text>, statement: Text) -> bool {
    ||| name == "comfyuifaceanalysis"@ && packages == seq![
        "setuptools"@,
        "onnx"@,
        "onnxruntime"@,
        "insightface==0.7.3"@,
        "color_matcher"@,
    ] && statement == "from insightface.app import FaceAnalysis"@
    ||| name == "comfyuioutputlistscombiner"@ && packages == seq!["skia-python"@] && statement
        == "import skia"@
    ||| name == "comfyuieasyuse"@ && packages == seq!["opencv-python-headless"@] && statement
        == "import cv2"@
}

/// The runtime of a known node is verified by the installation of its packages and by its import; no
/// other node needs anything.
pub proof fn runtimes_are_verified(run: RuntimeView, packages: Seq<Text>, statement: Text)
    ensures
        known_node(folded(run.folder), packages, statement) && !(run.linux && folded(run.folder)
            == "comfyuioutputlistscombiner"@) ==> ({
            let (r0, s0) = run.begin();
            let (r1, s1) = r0.after(StepEventView::Done);
            let (_, s2) = r1.after(StepEventView::Done);
            &&& runs(
                s0,
                run.python,
                seq!["-m"@, "pip"@, "install"@] + packages,
                EnvironmentView::NoPipIndex,
            )
            &&& runs(s1, run.python, seq!["-c"@, statement], EnvironmentView::Inherited)
            &&& s2.action is Finish
            &&& r0.after(StepEventView::Failed("reason"@)).1.action is Fail
            &&& r1.after(StepEventView::Failed("reason"@)).1.action is Fail
        }),
        folded(run.folder) != "comfyuifaceanalysis"@ && folded(run.folder)
            != "comfyuioutputlistscombiner"@ && folded(run.folder) != "comfyuieasyuse"@
            ==> run.begin().1.action is Finish,
{
    reveal_strlit("comfyuifaceanalysis");
    reveal_strlit("comfyuioutputlistscombiner");
    reveal_strlit("comfyuieasyuse");
    assert("comfyuifaceanalysis"@.len() == 19);
    assert("comfyuioutputlistscombiner"@.len() == 26);
    assert("comfyuieasyuse"@.len() == 14);
}

/// The lists combiner needs `libEGL.so.1` on Linux: it is looked for before the import, installed
/// where it is not there, after a refresh of the package lists where that fails, and looked for
/// again.
pub proof fn missing_libraries_are_installed(run: RuntimeView, reason: Text)
    requires
        run.linux,
        folded(run.folder) == "comfyuioutputlistscombiner"@,
    ensures
        ({
            let install = seq!["install"@, "-y"@, "libegl1"@];
            let (r1, s1) = run.begin().0.after(StepEventView::Done);
            let (_, there) = r1.after(StepEventView::Found(true));
            let (r2, s2) = r1.after(StepEventView::Found(false));
            let (r3, s3) = r2.after(StepEventView::Failed(reason));
            let (r4, s4) = r3.after(StepEventView::Done);
            let (r5, s5) = r4.after(StepEventView::Done);
            &&& s1.action is ProbeLibEgl
            &&& runs(there, run.python, seq!["-c"@, "import skia"@], EnvironmentView::Inherited)
            &&& runs(s2, "apt-get"@, install, EnvironmentView::NonInteractive)
            &&& runs(s3, "apt-get"@, seq!["update"@], EnvironmentView::NonInteractive)
            &&& runs(s4, "apt-get"@, install, EnvironmentView::NonInteractive)
            &&& s5.action is ProbeLibEgl
            &&& r2.after(StepEventView::Done) == (r5, s5)
            &&& r5.after(StepEventView::Found(true)) == r1.after(StepEventView::Found(true))
            &&& r5.after(StepEventView::Found(false)).1.action is Fail
            &&& r3.after(StepEventView::Failed(reason)).1.action is Fail
            &&& r4.after(StepEventView::Failed(reason)).1.action is Fail
        }),
{
    reveal_strlit("comfyuifaceanalysis");
    reveal_strlit("comfyuioutputlistscombiner");
    assert("comfyuifaceanalysis"@.len() == 19);
    assert("comfyuioutputlistscombiner"@.len() == 26);
}

/// A directory of the name, but for case and separators.
pub open spec fn has_folder(entries: Seq<EntryView>, name: Text) -> bool {
    exists|i: int|
        0 <= i < entries.len() && (#[trigger] entries[i]).is_dir && folded(entries[i].name)
            == folded(name)
}

proof fn folders_are_found(entries: Seq<EntryView>, name: Text, at: int)
    requires
        0 <= at <= entries.len(),
    ensures
        crate::node_runtime::equivalent_from(entries, name, at) is Some <==> exists|i: int|
            at <= i < entries.len() && (#[trigger] entries[i]).is_dir && folded(entries[i].name)
                == folded(name),
        crate::node_runtime::equivalent_from(entries, name, at) matches Some(n) ==> exists|i: int|
            at <= i < entries.len() && (#[trigger] entries[i]).is_dir && entries[i].name == n
                && folded(n) == folded(name),
    decreases entries.len() - at,
{
    if at < entries.len() {
        folders_are_found(entries, name, at + 1);
        if entries[at].is_dir && folded(entries[at].name) == folded(name) {
        } else if crate::node_runtime::equivalent_from(entries, name, at + 1) is Some {
            let n = crate::node_runtime::equivalent_from(entries, name, at + 1)->0;
            let i = choose|i: int|
                at + 1 <= i < entries.len() && (#[trigger] entries[i]).is_dir && entries[i].name == n
                    && folded(n) == folded(name);
            assert(at <= i < entries.len() && entries[i].is_dir && entries[i].name == n);
        }
    }
}

/// A custom node is cloned below the installation's custom nodes, to the folder that is there under
/// its name but for case and separators, and published from its temporary directory; what is there
/// is not cloned again. Then its requirements are installed and its runtime is verified.
pub proof fn custom_nodes_are_installed_in_order(run: NodeInstallView, entries: Seq<EntryView>)
    ensures
        ({
            let python = environment_python(run.windows, run.root);
            let nodes = below(run.windows, run.root, "custom_nodes"@);
            let (r0, s0) = run.begin();
            let (r1, s1) = r0.after(StepEventView::Done);
            let (r2, s2) = r1.after(StepEventView::Listed(entries));
            let (r3, s3) = r2.after(StepEventView::Found(false));
            let (r4, s4) = r3.after(StepEventView::Done);
            let (r5, s5) = r4.after(StepEventView::Done);
            let (r6, s6) = r5.after(StepEventView::Done);
            let (r7, s7) = r6.after(StepEventView::Found(true));
            let (r8, s8) = r7.after(StepEventView::Found(true));
            let (r9, s9) = r8.after(StepEventView::Done);
            let (_, end) = r9.after(StepEventView::Done);
            &&& s0.action == StepActionView::CreateDir { path: nodes }
            &&& s1.action == StepActionView::ListDir { path: nodes }
            &&& s2.action == StepActionView::CheckExists { path: r2.target }
            &&& !has_folder(entries, run.node.folder_name) ==> r2.target == below(
                run.windows,
                nodes,
                run.node.folder_name,
            )
            &&& has_folder(entries, run.node.folder_name) ==> exists|i: int|
                0 <= i < entries.len() && (#[trigger] entries[i]).is_dir && folded(entries[i].name)
                    == folded(run.node.folder_name) && r2.target == below(
                    run.windows,
                    nodes,
                    entries[i].name,
                )
            &&& s4.action == StepActionView::Clone {
                url: run.node.git_url,
                target: run.temporary,
            }
            &&& s5.action == StepActionView::Rename { from: run.temporary, to: r2.target }
            &&& looks_for(s6, python)
            &&& looks_for(r2.after(StepEventView::Found(true)).1, python)
            &&& looks_for(s7, below(run.windows, r2.target, "requirements.txt"@))
            &&& folded(run.node.folder_name) != "comfyuifaceanalysis"@ ==> runs(
                s8,
                python,
                seq![
                    "-m"@,
                    "pip"@,
                    "install"@,
                    "-r"@,
                    below(run.windows, r2.target, "requirements.txt"@),
                ],
                EnvironmentView::NoPipIndex,
            )
            &&& s9.action == StepActionView::VerifyRuntime { python, folder: run.node.folder_name }
            &&& r7.after(StepEventView::Found(false)).1.action == s9.action
            &&& end.action is Finish
            &&& r6.after(StepEventView::Found(false)).1.action is Fail
        }),
{
    folders_are_found(entries, run.node.folder_name, 0);
    let nodes = below(run.windows, run.root, "custom_nodes"@);
    let r2 = run.begin().0.after(StepEventView::Done).0.after(StepEventView::Listed(entries)).0;
    let requirements = below(run.windows, r2.target, "requirements.txt"@);
    assert(seq!["-m"@, "pip"@, "install"@] + seq!["-r"@, requirements] =~= seq![
        "-m"@,
        "pip"@,
        "install"@,
        "-r"@,
        requirements,
    ]);
    if has_folder(entries, run.node.folder_name) {
        let n = crate::node_runtime::equivalent_from(entries, run.node.folder_name, 0)->0;
        let i = choose|i: int|
            0 <= i < entries.len() && (#[trigger] entries[i]).is_dir && entries[i].name == n && folded(
                n,
            ) == folded(run.node.folder_name);
        assert(r2.target == below(run.windows, nodes, entries[i].name));
    }
}

/// System packages are installed all together after a refresh of the package lists, without
/// questions; they are in order exactly where every one of them is there afterwards.
pub proof fn system_packages_are_installed(
    run: SystemInstallView,
    installed: Set<Text>,
    reason: Text,
)
    ensures
        ({
            let (r0, s0) = run.begin();
            let (r1, s1) = r0.after(StepEventView::Done);
            let (_, s2) = r1.after(StepEventView::Done);
            &&& runs(s0, "apt-get"@, seq!["update"@], EnvironmentView::Inherited)
            &&& runs(
                s1,
                "apt-get"@,
                seq!["install"@, "-y"@] + run.packages,
                EnvironmentView::NonInteractive,
            )
            &&& s2.action is Finish
            &&& r0.after(StepEventView::Failed(reason)).1.action == (StepActionView::Fail {
                message: reason,
            })
            &&& r1.after(StepEventView::Failed(reason)).1.action == (StepActionView::Fail {
                message: reason,
            })
        }),
        first_absent(run.packages, installed, 0) is None <==> forall|i: int|
            0 <= i < run.packages.len() ==> installed.contains(#[trigger] run.packages[i]),
        first_absent(run.packages, installed, 0) matches Some(p) ==> run.packages.contains(p)
            && !installed.contains(p),
{
    absent_package(run.packages, installed, 0);
}

proof fn absent_package(packages: Seq<Text>, installed: Set<Text>, at: int)
    requires
        0 <= at <= packages.len(),
    ensures
        first_absent(packages, installed, at) is None <==> forall|i: int|
            at <= i < packages.len() ==> installed.contains(#[trigger] packages[i]),
        first_absent(packages, installed, at) matches Some(p) ==> packages.contains(p)
            && !installed.contains(p),
    decreases packages.len() - at,
{
    if at < packages.len() {
        absent_package(packages, installed, at + 1);
        if installed.contains(packages[at]) {
            if first_absent(packages, installed, at + 1) is None {
                assert forall|i: int| at <= i < packages.len() implies installed.contains(
                    #[trigger] packages[i],
                ) by {
                    if i > at {
                        assert(at + 1 <= i < packages.len());
                    }
                }
            }
        }
    }
}

/// The dependencies count as installed exactly where the marker is that of the requirements: its
/// version and their hash.
pub proof fn markers_are_of_the_requirements(requirements: Seq<u8>, marker: Text)
    ensures
        marker_fits(Some(requirements), Some(marker)) <==> trimmed(marker) == "v7:"@
            + crate::outside::hex_text(crate::outside::sha256_digest(requirements)),
        !marker_fits(None, Some(marker)),
        !marker_fits(Some(requirements), None),
{
}

/// What has to be imported before the dependencies count as ready: the statements of exactly those
/// of the three known nodes whose folders are there.
pub proof fn installed_nodes_have_to_be_imported(entries: Seq<EntryView>, statement: Text)
    ensures
        imports_from(critical_folders(), entries, 0).contains(statement) <==> {
            ||| statement == "from insightface.app import FaceAnalysis"@ && has_folder(
                entries,
                "ComfyUI_FaceAnalysis"@,
            )
            ||| statement == "import skia"@ && has_folder(entries, "ComfyUI-outputlists-combiner"@)
            ||| statement == "import cv2"@ && has_folder(entries, "ComfyUI-Easy-Use"@)
        },
{
    let f = critical_folders();
    known_names();
    folders_are_found(entries, f[0], 0);
    folders_are_found(entries, f[1], 0);
    folders_are_found(entries, f[2], 0);
    let i3 = imports_from(f, entries, 3);
    let i2 = imports_from(f, entries, 2);
    let i1 = imports_from(f, entries, 1);
    let i0 = imports_from(f, entries, 0);
    assert(i3 =~= Seq::empty());
    one_more(i3, i2, "import cv2"@, has_folder(entries, f[2]), statement);
    one_more(i2, i1, "import skia"@, has_folder(entries, f[1]), statement);
    one_more(
        i1,
        i0,
        "from insightface.app import FaceAnalysis"@,
        has_folder(entries, f[0]),
        statement,
    );
}

proof fn one_more(rest: Seq<Text>, all: Seq<Text>, first: Text, there: bool, x: Text)
    requires
        all == if there {
            seq![first] + rest
        } else {
            rest
        },
    ensures
        all.contains(x) <==> there && x == first || rest.contains(x),
{
    if there {
        assert(all[0] == first);
        if rest.contains(x) {
            let i = choose|i: int| 0 <= i < rest.len() && rest[i] == x;
            assert(all[i + 1] == x);
        }
        if all.contains(x) {
            let i = choose|i: int| 0 <= i < all.len() && all[i] == x;
            if i > 0 {
                assert(rest[i - 1] == x);
            }
        }
    }
}

proof fn plain_name(s: Text)
    requires
        forall|i: int| 0 <= i < s.len() ==> alphanumeric(#[trigger] s[i]),
    ensures
        folded(s) == lower_text(s),
    decreases s.len(),
{
    if s.len() > 0 {
        plain_name(s.drop_last());
        assert(alphanumeric(s.last()));
        assert(lower_text(s) =~= lower_text(s.drop_last()).push(ascii_lower(s.last())));
    } else {
        assert(lower_text(s) =~= folded(s));
    }
}

proof fn separator(s: Text)
    requires
        s.len() == 1,
        !alphanumeric(s[0]),
    ensures
        folded(s) == Seq::<char>::empty(),
{
    reveal_with_fuel(folded, 2);
    assert(s.last() == s[0]);
    assert(s.drop_last() =~= Seq::<char>::empty());
}

proof fn known_names()
    ensures
        folded("ComfyUI_FaceAnalysis"@) == "comfyuifaceanalysis"@,
        folded("ComfyUI-outputlists-combiner"@) == "comfyuioutputlistscombiner"@,
        folded("ComfyUI-Easy-Use"@) == "comfyuieasyuse"@,
        "comfyuifaceanalysis"@ != "comfyuioutputlistscombiner"@,
        "comfyuifaceanalysis"@ != "comfyuieasyuse"@,
        "comfyuioutputlistscombiner"@ != "comfyuieasyuse"@,
{
    reveal_strlit("ComfyUI");
    reveal_strlit("_");
    reveal_strlit("-");
    plain_name("ComfyUI"@);
    separator("_"@);
    separator("-"@);
    face_analysis();
    lists_combiner();
    easy_use();
    reveal_strlit("comfyuifaceanalysis");
    reveal_strlit("comfyuioutputlistscombiner");
    reveal_strlit("comfyuieasyuse");
    assert("comfyuifaceanalysis"@.len() == 19);
    assert("comfyuioutputlistscombiner"@.len() == 26);
    assert("comfyuieasyuse"@.len() == 14);
}

proof fn face_analysis()
    ensures
        folded("ComfyUI_FaceAnalysis"@) == "comfyuifaceanalysis"@,
{
    reveal_strlit("ComfyUI");
    reveal_strlit("_");
    reveal_strlit("FaceAnalysis");
    reveal_strlit("ComfyUI_FaceAnalysis");
    reveal_strlit("comfyuifaceanalysis");
    plain_name("ComfyUI"@);
    separator("_"@);
    plain_name("FaceAnalysis"@);
    folded_in_pieces("ComfyUI"@ + "_"@, "FaceAnalysis"@);
    folded_in_pieces("ComfyUI"@, "_"@);
    assert("ComfyUI_FaceAnalysis"@ =~= "ComfyUI"@ + "_"@ + "FaceAnalysis"@);
    assert(lower_text("ComfyUI"@) + Seq::<char>::empty() + lower_text("FaceAnalysis"@)
        =~= "comfyuifaceanalysis"@);
}

proof fn lists_combiner()
    ensures
        folded("ComfyUI-outputlists-combiner"@) == "comfyuioutputlistscombiner"@,
{
    reveal_strlit("ComfyUI");
    reveal_strlit("-");
    reveal_strlit("outputlists");
    reveal_strlit("combiner");
    reveal_strlit("ComfyUI-outputlists-combiner");
    reveal_strlit("comfyuioutputlistscombiner");
    plain_name("ComfyUI"@);
    separator("-"@);
    plain_name("outputlists"@);
    plain_name("combiner"@);
    folded_in_pieces("ComfyUI"@ + "-"@ + "outputlists"@ + "-"@, "combiner"@);
    folded_in_pieces("ComfyUI"@ + "-"@ + "outputlists"@, "-"@);
    folded_in_pieces("ComfyUI"@ + "-"@, "outputlists"@);
    folded_in_pieces("ComfyUI"@, "-"@);
    assert("ComfyUI-outputlists-combiner"@ =~= "ComfyUI"@ + "-"@ + "outputlists"@ + "-"@
        + "combiner"@);
    assert(lower_text("ComfyUI"@) + Seq::<char>::empty() + lower_text("outputlists"@) + Seq::<
        char,
    >::empty() + lower_text("combiner"@) =~= "comfyuioutputlistscombiner"@);
}

proof fn easy_use()
    ensures
        folded("ComfyUI-Easy-Use"@) == "comfyuieasyuse"@,
{
    reveal_strlit("ComfyUI");
    reveal_strlit("-");
    reveal_strlit("Easy");
    reveal_strlit("Use");
    reveal_strlit("ComfyUI-Easy-Use");
    reveal_strlit("comfyuieasyuse");
    plain_name("ComfyUI"@);
    separator("-"@);
    plain_name("Easy"@);
    plain_name("Use"@);
    folded_in_pieces("ComfyUI"@ + "-"@ + "Easy"@ + "-"@, "Use"@);
    folded_in_pieces("ComfyUI"@ + "-"@ + "Easy"@, "-"@);
    folded_in_pieces("ComfyUI"@ + "-"@, "Easy"@);
    folded_in_pieces("ComfyUI"@, "-"@);
    assert("ComfyUI-Easy-Use"@ =~= "ComfyUI"@ + "-"@ + "Easy"@ + "-"@ + "Use"@);
    assert(lower_text("ComfyUI"@) + Seq::<char>::empty() + lower_text("Easy"@) + Seq::<
        char,
    >::empty() + lower_text("Use"@) =~= "comfyuieasyuse"@);
}

/// The dependencies of a new installation: an environment where it has none, then the requirements,
/// downloaded first and installed from what was downloaded alone; the wheels are removed at the end,
/// and where a step with them fails.
pub proof fn new_installations_get_their_dependencies(run: DepsView, facts: PythonFacts)
    requires
        run.python is None,
        facts.dot_venv,
    ensures
        ({
            let python = environment_python(run.windows, run.root);
            let requirements = below(run.windows, run.root, "requirements.txt"@);
            let (r0, s0) = run.begin();
            let (r1, s1) = r0.after(DepsEvent::Done(true));
            let (r2, s2) = r1.after(DepsEvent::Python(facts));
            let (r3, s3) = r2.after(DepsEvent::Done(true));
            let (r4, s4) = r3.after(DepsEvent::Done(true));
            let (r5, s5) = r4.after(DepsEvent::Done(true));
            let (_, s6) = r5.after(DepsEvent::Done(true));
            &&& s0 == DepsActionView::Run {
                program: if run.windows {
                    "python"@
                } else {
                    "python3"@
                },
                args: seq!["-m"@, "venv"@, below(run.windows, run.root, ".venv"@)],
            }
            &&& s1 is FindPython
            &&& s2 == DepsActionView::CheckFile { path: requirements }
            &&& s3 == DepsActionView::CreateDir { path: run.wheelhouse }
            &&& s4 == DepsActionView::Run {
                program: python,
                args: seq![
                    "-m"@,
                    "pip"@,
                    "download"@,
                    "-r"@,
                    requirements,
                    "-d"@,
                    run.wheelhouse,
                ],
            }
            &&& s5 == DepsActionView::Run {
                program: python,
                args: seq![
                    "-m"@,
                    "pip"@,
                    "install"@,
                    "--no-index"@,
                    "--find-links"@,
                    run.wheelhouse,
                    "-r"@,
                    requirements,
                ],
            }
            &&& s6 == DepsActionView::Finish { remove: run.wheelhouse, python }
            &&& r0.after(DepsEvent::Done(false)).1 is Fail
            &&& r2.after(DepsEvent::Done(false)).1 is Fail
            &&& r3.after(DepsEvent::Done(false)).1 is Fail
            &&& r4.after(DepsEvent::Done(false)).1 matches DepsActionView::Fail { remove, .. }
                && remove == Some(run.wheelhouse)
            &&& r5.after(DepsEvent::Done(false)).1 matches DepsActionView::Fail { remove, .. }
                && remove == Some(run.wheelhouse)
        }),
{
}

/// An environment that is there is used: the requirements are looked for at once, and everything is
/// run by its Python.
pub proof fn environments_that_are_there_are_used(run: DepsView, python: Text)
    requires
        run.python == Some(python),
    ensures
        ({
            let requirements = below(run.windows, run.root, "requirements.txt"@);
            let (r0, s0) = run.begin();
            let (r1, _) = r0.after(DepsEvent::Done(true));
            let (r2, s2) = r1.after(DepsEvent::Done(true));
            let (r3, s3) = r2.after(DepsEvent::Done(true));
            let (_, s4) = r3.after(DepsEvent::Done(true));
            &&& s0 == DepsActionView::CheckFile { path: requirements }
            &&& s2 matches DepsActionView::Run { program, .. } && program == python
            &&& s3 matches DepsActionView::Run { program, .. } && program == python
            &&& s4 == DepsActionView::Finish { remove: run.wheelhouse, python }
        }),
{
}

/// A repository is cloned to its temporary directory and then renamed to its place; up to two failed
/// attempts are cleaned and followed by another, over HTTP/1.1.
pub proof fn repositories_are_cloned_and_published(run: CloneView)
    requires
        run.attempt == 0,
    ensures
        ({
            let plainly = seq!["clone"@, "--depth"@, "1"@, run.url, run.temporary];
            let safely = seq!["-c"@, "http.version=HTTP/1.1"@] + plainly;
            let (r0, t0) = run.begin();
            let (r1, t1) = r0.after(CloneEventView::Done(true));
            let (r2, t2) = r1.after(CloneEventView::Done(false));
            let (r3, t3) = r2.after(CloneEventView::Done(true));
            let (r4, t4) = r3.after(CloneEventView::Done(false));
            let (r5, t5) = r4.after(CloneEventView::Done(false));
            let (_, t6) = r5.after(CloneEventView::Done(false));
            let publish = CloneActionView::Rename { from: run.temporary, to: run.target };
            &&& t0.action == CloneActionView::CreateDir { path: run.base }
            &&& t1.action == CloneActionView::CheckExists { path: run.target }
            &&& t2.action == CloneActionView::CreateDir { path: run.temp_base }
            &&& t3.action == CloneActionView::Git { args: plainly }
            &&& t4.action == CloneActionView::Git { args: safely }
            &&& t4.remove == Some(run.temporary)
            &&& t5.action == CloneActionView::Git { args: safely }
            &&& t5.remove == Some(run.temporary)
            &&& t6.action is Fail
            &&& t6.remove == Some(run.temporary)
            &&& r3.after(CloneEventView::Done(true)).1.action == publish
            &&& r4.after(CloneEventView::Done(true)).1.action == publish
            &&& r5.after(CloneEventView::Done(true)).1.action == publish
            &&& r3.after(CloneEventView::Done(true)).0.after(
                CloneEventView::Done(true),
            ).1.action is Finish
            &&& run.subject is ComfyUi ==> r1.after(CloneEventView::Done(true)).1.action is Fail
            &&& run.subject is Node ==> r1.after(CloneEventView::Done(true)).1.action is Finish
        }),
{
    let plainly = seq!["clone"@, "--depth"@, "1"@, run.url, run.temporary];
    assert(Seq::<Text>::empty() + plainly =~= plainly);
}

}
