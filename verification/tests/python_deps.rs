use comfybox::catalog::{CustomNode, SystemDependency};
use comfybox::ids::IdSet;
use comfybox::node_runtime::{
    find_equivalent_node_folder, is_node_temp, known_node_runtime_spec, libegl_paths,
    linux_has_libegl, normalized_node_name, system_package_installed, NodeInstall, RuntimeCheck,
};
use comfybox::python_deps::{
    deps_marker, marker_matches, python_dependencies_ready, required_imports, PythonInstall,
    SystemInstall,
};
use comfybox::steps::{CommandEnv, DirEntry, Step, StepAction, StepEvent};

fn dir(name: &str) -> DirEntry {
    DirEntry { name: name.to_owned(), is_dir: true }
}

fn args(step: &Step) -> Vec<String> {
    match &step.action {
        StepAction::Run { args, .. } => args.clone(),
        _ => panic!("no run"),
    }
}

fn failed(step: &Step) -> String {
    match &step.action {
        StepAction::Fail { message } => message.clone(),
        _ => panic!("no failure"),
    }
}

fn lost(message: &str) -> StepEvent {
    StepEvent::Failed(message.to_owned())
}

#[test]
fn folder_names_ignore_case_and_separators() {
    assert_eq!(normalized_node_name("ComfyUI_Face-Analysis é1"), "comfyuifaceanalysis1");
    let entries = vec![
        DirEntry { name: "comfyui_faceanalysis".to_owned(), is_dir: false },
        dir("x"),
        dir("comfyui-FaceAnalysis"),
    ];
    assert_eq!(
        find_equivalent_node_folder(&entries, "ComfyUI_FaceAnalysis").map(String::as_str),
        Some("comfyui-FaceAnalysis")
    );
    assert!(find_equivalent_node_folder(&entries, "other").is_none());
    assert!(is_node_temp("n1-abc", "n1") && !is_node_temp("n10-abc", "n1"));
}

#[test]
fn known_runtimes() {
    let (packages, import) = known_node_runtime_spec("comfyui-outputlists-combiner").unwrap();
    assert_eq!(packages, vec!["skia-python"]);
    assert_eq!(import, "import skia");
    assert_eq!(known_node_runtime_spec("ComfyUI_FaceAnalysis").unwrap().0.len(), 5);
    assert_eq!(known_node_runtime_spec("ComfyUI-Easy-Use").unwrap().1, "import cv2");
    assert!(known_node_runtime_spec("other").is_none());
    assert_eq!(libegl_paths().len(), 4);
    assert!(linux_has_libegl(true, false, ""));
    assert!(linux_has_libegl(false, true, "libEGL.so.1 (libc6)"));
    assert!(!linux_has_libegl(false, false, "libEGL.so.1"));
    assert!(system_package_installed(true, "install ok installed"));
    assert!(!system_package_installed(true, "deinstall ok config-files"));
}

#[test]
fn the_marker_is_that_of_the_requirements() {
    let marker = deps_marker(b"abc");
    assert_eq!(
        marker,
        "v7:ba7816bf8f01cfea414140de5dae2223b00361a396177a9cb410ff61f20015ad"
    );
    assert!(marker_matches(&Some(b"abc".to_vec()), &Some(format!("{marker}\n"))));
    assert!(!marker_matches(&Some(b"abd".to_vec()), &Some(marker.clone())));
    assert!(!marker_matches(&None, &Some(marker.clone())));
    assert!(!python_dependencies_ready(&Some(b"abc".to_vec()), &Some(marker.clone()), false));
    assert!(python_dependencies_ready(&Some(b"abc".to_vec()), &Some(marker), true));
    assert_eq!(
        required_imports(&vec![dir("comfyui_easy_use"), dir("ComfyUI_FaceAnalysis")]),
        vec!["from insightface.app import FaceAnalysis", "import cv2"]
    );
}

#[test]
fn a_runtime_is_installed_and_imported() {
    let mut c = RuntimeCheck::new("/py".to_owned(), "other".to_owned(), true);
    assert!(matches!(c.begin().action, StepAction::Finish));
    let mut c = RuntimeCheck::new("/py".to_owned(), "ComfyUI-Easy-Use".to_owned(), true);
    let step = c.begin();
    assert_eq!(step.log.as_deref(), Some("[PYTHON] Verifying runtime for ComfyUI-Easy-Use"));
    assert_eq!(args(&step), vec!["-m", "pip", "install", "opencv-python-headless"]);
    assert_eq!(args(&c.step(StepEvent::Done)), vec!["-c", "import cv2"]);
    assert!(matches!(c.step(StepEvent::Done).action, StepAction::Finish));
    let mut c = RuntimeCheck::new("/py".to_owned(), "ComfyUI-Easy-Use".to_owned(), true);
    c.begin();
    assert_eq!(failed(&c.step(lost("pip"))), "pip");
}

#[test]
fn libegl_is_installed_where_it_is_missing() {
    let begin = || {
        let mut c = RuntimeCheck::new("/py".to_owned(), "ComfyUI-outputlists-combiner".to_owned(), true);
        c.begin();
        assert!(matches!(c.step(StepEvent::Done).action, StepAction::ProbeLibEgl));
        c
    };
    let mut c = begin();
    assert_eq!(args(&c.step(StepEvent::Found(true))), vec!["-c", "import skia"]);
    let mut c = begin();
    assert_eq!(args(&c.step(StepEvent::Found(false))), vec!["install", "-y", "libegl1"]);
    assert!(matches!(c.step(StepEvent::Done).action, StepAction::ProbeLibEgl));
    assert_eq!(
        failed(&c.step(StepEvent::Found(false))),
        "installed libegl1 but libEGL.so.1 is still unavailable to the dynamic linker"
    );
    let mut c = begin();
    c.step(StepEvent::Found(false));
    assert_eq!(args(&c.step(lost("x"))), vec!["update"]);
    assert_eq!(
        failed(&c.step(lost("net"))),
        "libEGL.so.1 is missing and apt metadata refresh failed; install `libegl1` manually: net"
    );
    let mut c = begin();
    c.step(StepEvent::Found(false));
    c.step(lost("x"));
    assert_eq!(args(&c.step(StepEvent::Done)), vec!["install", "-y", "libegl1"]);
    assert_eq!(
        failed(&c.step(lost("y"))),
        "libEGL.so.1 is missing; install Debian/Ubuntu package `libegl1` manually: y"
    );
    let mut c = RuntimeCheck::new("/py".to_owned(), "ComfyUI-outputlists-combiner".to_owned(), false);
    c.begin();
    assert_eq!(args(&c.step(StepEvent::Done)), vec!["-c", "import skia"]);
}

fn node() -> CustomNode {
    CustomNode {
        id: "face".to_owned(),
        name: "Face".to_owned(),
        git_url: "https://example.com/f.git".to_owned(),
        folder_name: "ComfyUI_FaceAnalysis".to_owned(),
        node_types: Vec::new(),
    }
}

#[test]
fn a_custom_node_is_cloned_and_completed() {
    let mut n = NodeInstall::new("/c".to_owned(), node(), false);
    assert!(n.temporary.starts_with("/c/custom_nodes/.comfybox-tmp/face-"));
    assert!(matches!(n.begin().action, StepAction::CreateDir { path } if path == "/c/custom_nodes"));
    assert!(matches!(n.step(StepEvent::Done).action, StepAction::ListDir { .. }));
    assert!(matches!(
        n.step(StepEvent::Listed(vec![dir("other")])).action,
        StepAction::CheckExists { path } if path == "/c/custom_nodes/ComfyUI_FaceAnalysis"
    ));
    assert!(matches!(n.step(StepEvent::Found(false)).action, StepAction::CreateDir { .. }));
    let step = n.step(StepEvent::Done);
    assert_eq!(step.log.as_deref(), Some("[GIT] Cloning Face from https://example.com/f.git"));
    assert!(matches!(n.step(StepEvent::Done).action, StepAction::Rename { .. }));
    let step = n.step(StepEvent::Done);
    assert_eq!(
        step.log.as_deref(),
        Some("[GIT] Installed Face at /c/custom_nodes/ComfyUI_FaceAnalysis")
    );
    assert_eq!(step.remove_empty.as_deref(), Some("/c/custom_nodes/.comfybox-tmp"));
    assert!(matches!(step.action, StepAction::CheckFile { path } if path == "/c/.venv/bin/python"));
    n.step(StepEvent::Found(true));
    let step = n.step(StepEvent::Found(true));
    assert_eq!(
        args(&step),
        vec!["-m", "pip", "install", "onnxruntime", "insightface", "color_matcher"]
    );
    assert!(matches!(
        n.step(StepEvent::Done).action,
        StepAction::VerifyRuntime { folder, .. } if folder == "ComfyUI_FaceAnalysis"
    ));
    assert!(matches!(n.step(StepEvent::Done).action, StepAction::Finish));
}

#[test]
fn an_equivalent_folder_is_used() {
    let mut n = NodeInstall::new("/c".to_owned(), node(), false);
    n.begin();
    n.step(StepEvent::Done);
    n.step(StepEvent::Listed(vec![dir("comfyui-faceanalysis")]));
    assert_eq!(n.target, "/c/custom_nodes/comfyui-faceanalysis");
    n.step(StepEvent::Found(true));
    assert_eq!(
        failed(&n.step(StepEvent::Found(false))),
        "ComfyUI virtual environment is missing; install Python dependencies first"
    );
    let mut n = NodeInstall::new("/c".to_owned(), node(), false);
    n.begin();
    n.step(StepEvent::Done);
    n.step(lost("unreadable"));
    n.step(StepEvent::Found(false));
    n.step(StepEvent::Done);
    let step = n.step(lost("no net"));
    assert_eq!(failed(&step), "git clone failed for Face: no net");
    assert!(step.remove.is_some());
}

fn installing() -> PythonInstall {
    let mut p = PythonInstall::new("/c".to_owned(), "https://idx".to_owned(), false);
    p.begin();
    p.step(StepEvent::Found(true));
    p.step(StepEvent::Found(true));
    p.step(StepEvent::Done);
    p.step(StepEvent::Done);
    p.step(StepEvent::Done);
    p
}

#[test]
fn python_dependencies_are_installed() {
    let mut p = PythonInstall::new("/c".to_owned(), "https://idx".to_owned(), false);
    assert!(matches!(p.begin().action, StepAction::CheckFile { path } if path == "/c/requirements.txt"));
    p.step(StepEvent::Found(true));
    assert_eq!(args(&p.step(StepEvent::Found(false))), vec!["-m", "venv", "/c/.venv"]);
    let step = p.step(StepEvent::Done);
    assert_eq!(step.log.as_deref(), Some("[PYTHON] Configuring pip index: https://idx"));
    assert_eq!(
        args(&step),
        vec!["-m", "pip", "config", "set", "global.index-url", "https://idx"]
    );
    assert!(matches!(
        &step.action,
        StepAction::Run { env: CommandEnv::PipIndex(u), .. } if u == "https://idx"
    ));
    p.step(StepEvent::Done);
    assert_eq!(args(&p.step(StepEvent::Done))[2], "download");
    assert_eq!(args(&p.step(StepEvent::Done))[3], "--no-index");
    let step = p.step(StepEvent::Done);
    assert!(step.remove.is_some());
    assert_eq!(args(&step), vec!["-m", "pip", "install", "-U", "--pre", "comfyui-manager"]);
    assert!(matches!(p.step(StepEvent::Done).action, StepAction::CheckDir { .. }));
    assert!(matches!(
        p.step(StepEvent::Found(false)).action,
        StepAction::WriteMarker { path, .. } if path == "/c/.comfybox/python-deps.sha256"
    ));
    assert!(matches!(p.step(StepEvent::Done).action, StepAction::Finish));
    let mut p = PythonInstall::new("/c".to_owned(), "u".to_owned(), false);
    p.begin();
    assert_eq!(failed(&p.step(StepEvent::Found(false))), "requirements.txt not found in /c");
}

#[test]
fn node_failures_are_isolated_and_reported() {
    let mut p = installing();
    p.step(StepEvent::Done);
    p.step(StepEvent::Done);
    p.step(StepEvent::Found(true));
    let entries = vec![
        dir("b"),
        DirEntry { name: "file".to_owned(), is_dir: false },
        dir("a"),
    ];
    assert!(matches!(
        p.step(StepEvent::Listed(entries)).action,
        StepAction::CheckFile { path } if path == "/c/custom_nodes/a/requirements.txt"
    ));
    let step = p.step(StepEvent::Found(true));
    assert_eq!(step.log.as_deref(), Some("[PYTHON] Installing requirements for a"));
    assert_eq!(
        args(&step),
        vec!["-m", "pip", "install", "-r", "/c/custom_nodes/a/requirements.txt"]
    );
    let step = p.step(lost("boom"));
    assert_eq!(step.log.as_deref(), Some("[PYTHON] FAILED a: boom"));
    assert!(matches!(step.action, StepAction::VerifyRuntime { .. }));
    p.step(StepEvent::Done);
    assert!(matches!(
        p.step(StepEvent::Found(false)).action,
        StepAction::VerifyRuntime { folder, .. } if folder == "b"
    ));
    let step = p.step(lost("import"));
    assert_eq!(step.log.as_deref(), Some("[PYTHON] FAILED b runtime verification: import"));
    assert_eq!(
        failed(&step),
        "custom-node dependency failures: a: boom; b runtime verification: import"
    );
}

#[test]
fn wheels_are_removed_when_something_fails() {
    let mut p = installing();
    let step = p.step(lost("install"));
    assert!(step.remove.is_some());
    assert_eq!(failed(&step), "install");
}

#[test]
fn system_packages_are_installed_and_verified() {
    let dependency = |package: &str| SystemDependency {
        id: package.to_owned(),
        platform: "linux".to_owned(),
        package: package.to_owned(),
        detect: String::new(),
        install: String::new(),
        required_by: Vec::new(),
    };
    let mut s = SystemInstall::new(&vec![dependency("x"), dependency("y")]);
    let step = s.begin();
    assert_eq!(step.log.as_deref(), Some("[SYSTEM] Installing x, y"));
    assert_eq!(args(&step), vec!["update"]);
    assert_eq!(args(&s.step(StepEvent::Done)), vec!["install", "-y", "x", "y"]);
    assert!(matches!(s.step(StepEvent::Done).action, StepAction::Finish));
    let mut installed = IdSet::new();
    installed.insert("x".to_owned());
    assert_eq!(
        s.verify(&installed).unwrap_err(),
        "y was not detected after apt-get completed"
    );
    installed.insert("y".to_owned());
    assert!(s.verify(&installed).is_ok());
    let mut s = SystemInstall::new(&Vec::new());
    s.begin();
    assert_eq!(failed(&s.step(lost("apt"))), "apt");
}
