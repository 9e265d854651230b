use comfybox::catalog::CustomNode;
use comfybox::clone::{CloneAction, CloneEvent, CloneRun};
use comfybox::comfy::{
    configured_instance, find_python, process_looks_like_comfy, CloneStep, ComfyInstance,
    ComfyManager, ComfySource, DepsAction, DepsEvent, Discovery, ProcessFacts, PythonFacts,
    RootFacts, StartOptions, StopPlan,
};
use comfybox::config::AppConfig;
use comfybox::state::ManagedState;
use comfybox::storage::{recommend_storage, storage_candidates, StorageCandidate};

const WHOLE: RootFacts = RootFacts { main_is_file: true, comfy_is_dir: true, models_is_dir: true };
const NO_PYTHON: PythonFacts = PythonFacts { dot_venv: false, venv: false };
const VENV: PythonFacts = PythonFacts { dot_venv: true, venv: true };

fn instance(python: Option<&str>) -> ComfyInstance {
    ComfyInstance { root: "/comfy".to_owned(), python: python.map(str::to_owned) }
}

fn process(command: &[&str], cwd: Option<&str>) -> ProcessFacts {
    ProcessFacts {
        command: command.iter().map(|s| s.to_string()).collect(),
        cwd: cwd.map(str::to_owned),
    }
}

#[test]
fn roots_and_interpreters_are_recognised() {
    assert!(ComfyManager::is_comfy_root(WHOLE));
    assert!(!ComfyManager::is_comfy_root(RootFacts { models_is_dir: false, ..WHOLE }));
    assert_eq!(ComfyManager::root_paths("/c", false).1, "/c/comfy");
    assert!(ComfyManager::named_like_root("/home/u/comfyui", false));
    assert!(!ComfyManager::named_like_root("/home/u/other", false));
    assert!(ComfyManager::named_like_root(r"C:\x\ComfyUI", true));
    assert!(!ComfyManager::named_like_root(r"C:\x\ComfyUI", false));
    assert_eq!(ComfyManager::root_paths(r"C:\x", true).0, r"C:\x\main.py");
    assert_eq!(find_python("/c", false, VENV).as_deref(), Some("/c/.venv/bin/python"));
    assert_eq!(
        find_python(r"C:\c", true, PythonFacts { dot_venv: false, venv: true }).as_deref(),
        Some(r"C:\c\venv/Scripts/python.exe")
    );
    assert_eq!(find_python("/c", false, NO_PYTHON), None);
}

#[test]
fn installations_are_found_once() {
    let mut d = Discovery::new();
    d.add("/a/ComfyUI".to_owned(), false, VENV);
    d.add("/b/ComfyUI".to_owned(), false, NO_PYTHON);
    d.add("/a/ComfyUI".to_owned(), false, NO_PYTHON);
    let found = d.into_found();
    assert_eq!(found.len(), 2);
    assert_eq!(found[0].python.as_deref(), Some("/a/ComfyUI/.venv/bin/python"));
    assert_eq!(
        ComfyManager::search_roots(
            Some("/cwd".to_owned()),
            None,
            vec!["/x".to_owned()],
            vec!["/".to_owned()]
        ),
        vec!["/cwd".to_owned(), "/x".to_owned(), "/".to_owned()]
    );
}

#[test]
fn the_configured_installation_has_to_be_valid() {
    let mut cfg = AppConfig::default();
    assert_eq!(
        configured_instance(&cfg, WHOLE, false, VENV).err().unwrap(),
        "ComfyUI path is not configured; run `comfybox locate` first"
    );
    cfg.comfy_path = Some("/c".to_owned());
    assert_eq!(
        configured_instance(&cfg, RootFacts { main_is_file: false, ..WHOLE }, false, VENV)
            .err()
            .unwrap(),
        "configured path is not a valid ComfyUI root: /c"
    );
    let i = configured_instance(&cfg, WHOLE, false, VENV).ok().unwrap();
    assert_eq!((i.root.as_str(), i.python.as_deref()), ("/c", Some("/c/.venv/bin/python")));
}

#[test]
fn clones_are_retried_over_http_1() {
    assert_eq!(
        ComfyManager::clone_args("u", "/t", 0),
        vec!["clone", "--depth", "1", "u", "/t"]
    );
    assert_eq!(
        ComfyManager::clone_args("u", "/t", 1),
        vec!["-c", "http.version=HTTP/1.1", "clone", "--depth", "1", "u", "/t"]
    );
    assert_eq!(ComfyManager::after_clone(0, false), CloneStep::CleanAndRetry);
    assert_eq!(ComfyManager::after_clone(2, false), CloneStep::CleanAndFail);
    assert_eq!(ComfyManager::after_clone(2, true), CloneStep::Publish);
    assert_eq!(ComfySource::Gitee.url(), "https://gitee.com/mirrors/comfyui");
    assert_eq!(ComfySource::GitHub.url(), "https://github.com/Comfy-Org/ComfyUI.git");
    assert_eq!(ComfySource::GitHub.name(), "GitHub");
}

/// The actions of a clone, as words, with what is removed before each.
fn turns(run: &mut CloneRun, events: Vec<CloneEvent>) -> Vec<(Option<String>, String)> {
    let mut turn = run.begin();
    let mut out = Vec::new();
    let mut events = events.into_iter();
    loop {
        let words = match turn.action {
            CloneAction::CreateDir { path } => format!("create {path}"),
            CloneAction::CheckExists { path } => format!("check {path}"),
            CloneAction::Git { args } => format!("git {}", args[0]),
            CloneAction::Rename { to, .. } => format!("rename {to}"),
            CloneAction::Finish => "finish".to_owned(),
            CloneAction::Fail { message } => message,
        };
        out.push((turn.remove, words));
        match events.next() {
            Some(event) => turn = run.step(event),
            None => return out,
        }
    }
}

fn words(turns: Vec<(Option<String>, String)>) -> Vec<String> {
    turns.into_iter().map(|turn| turn.1).collect()
}

#[test]
fn comfyui_is_cloned_beside_its_destination() {
    let mut run = ComfyManager::install("/data", ComfySource::Gitee, false);
    assert!(run.temporary.starts_with("/data/.comfybox-tmp/comfyui-"));
    assert_eq!(run.temporary.len(), "/data/.comfybox-tmp/comfyui-".len() + 36);
    assert_eq!(run.url, "https://gitee.com/mirrors/comfyui");
    let done = || CloneEvent::Done(true);
    let all = turns(&mut run, vec![done(), CloneEvent::Done(false), done(), done(), done()]);
    assert_eq!(
        words(all),
        vec![
            "create /data",
            "check /data/ComfyUI",
            "create /data/.comfybox-tmp",
            "git clone",
            "rename /data/ComfyUI",
            "finish",
        ]
    );
    let instance = run.instance(false, VENV);
    assert_eq!(instance.root, "/data/ComfyUI");
    assert_eq!(instance.python.unwrap(), "/data/ComfyUI/.venv/bin/python");
    let mut again = ComfyManager::install("/data", ComfySource::GitHub, false);
    assert_eq!(
        words(turns(&mut again, vec![done(), done()])),
        vec!["create /data", "check /data/ComfyUI", "/data/ComfyUI already exists"]
    );
}

#[test]
fn failed_clones_are_cleaned_and_retried() {
    let mut run = ComfyManager::install("/data", ComfySource::GitHub, false);
    let temporary = Some(run.temporary.clone());
    let no = || CloneEvent::Done(false);
    let all = turns(&mut run, vec![no(), no(), no(), no(), no(), no()]);
    assert_eq!(all[3], (None, "git clone".to_owned()));
    assert_eq!(all[4], (temporary.clone(), "git -c".to_owned()));
    assert_eq!(all[5], (temporary.clone(), "git -c".to_owned()));
    assert_eq!(all[6], (temporary.clone(), "git clone ComfyUI failed".to_owned()));
    let mut run = ComfyManager::install("/data", ComfySource::GitHub, false);
    let missing = || CloneEvent::Failed("no such file".to_owned());
    let all = turns(&mut run, vec![no(), no(), no(), missing()]);
    assert_eq!(all[4].1, "failed to launch git; install Git first: no such file");
    let mut run = ComfyManager::install("/data", ComfySource::GitHub, false);
    let all = turns(&mut run, vec![no(), no(), no(), CloneEvent::Done(true), missing()]);
    assert!(all[5].0.is_some());
    assert_eq!(all[5].1, "no such file");
    let mut run = ComfyManager::install("/data", ComfySource::GitHub, false);
    assert_eq!(words(turns(&mut run, vec![missing()]))[1], "no such file");
}

#[test]
fn custom_nodes_that_are_there_are_left_alone() {
    let node = CustomNode {
        id: "n".to_owned(),
        name: "Node".to_owned(),
        git_url: "u".to_owned(),
        folder_name: "Folder".to_owned(),
        node_types: Vec::new(),
    };
    let mut run = CloneRun::custom_node("/comfy", &node, "7", false);
    assert_eq!(run.temporary, "/comfy/custom_nodes/.comfybox-tmp/n-7");
    let done = || CloneEvent::Done(true);
    assert_eq!(
        words(turns(&mut run, vec![done(), done()])),
        vec!["create /comfy/custom_nodes", "check /comfy/custom_nodes/Folder", "finish"]
    );
    let no = || CloneEvent::Done(false);
    let mut run = CloneRun::custom_node("/comfy", &node, "7", false);
    let all = turns(&mut run, vec![no(), no(), no(), no(), no(), no()]);
    assert_eq!(all[6].1, "git clone failed for Node");
    let mut run = CloneRun::custom_node("/comfy", &node, "7", false);
    let all = turns(&mut run, vec![no(), no(), no(), done(), CloneEvent::Failed("busy".to_owned())]);
    assert_eq!(all[5], (None, "busy".to_owned()));
}

#[test]
fn a_server_is_started_once() {
    let mut state = ManagedState::default();
    let opts = StartOptions { host: "127.0.0.1", port: 8188 };
    let plan = ComfyManager::start(&instance(None), None, false, opts, &state).ok().unwrap();
    assert_eq!(plan.program, "python3");
    assert_eq!(
        plan.args,
        vec!["main.py", "--listen", "127.0.0.1", "--port", "8188", "--enable-manager"]
    );
    assert_eq!(plan.log_path, "/comfy/.comfybox/comfyui.log");
    assert_eq!(
        ComfyManager::started(&mut state, Some("exit 1".to_owned()), Some(7), &plan.log_path)
            .unwrap_err(),
        "ComfyUI exited immediately with exit 1; see /comfy/.comfybox/comfyui.log"
    );
    assert_eq!(
        ComfyManager::started(&mut state, None, None, &plan.log_path).unwrap_err(),
        "ComfyUI started without PID"
    );
    assert_eq!(ComfyManager::started(&mut state, None, Some(7), &plan.log_path), Ok(7));
    assert_eq!(state.comfy_pid, Some(7));
    assert_eq!(
        ComfyManager::start(&instance(Some("/p")), None, false, opts, &state).err().unwrap(),
        "ComfyUI already has a managed PID; run status/stop first"
    );
}

#[test]
fn a_stale_pid_is_not_killed() {
    let mut state = ManagedState::default();
    assert_eq!(
        ComfyManager::stop(&state, &None, "/comfy", false).unwrap_err(),
        "no managed ComfyUI process"
    );
    state.comfy_pid = Some(42);
    let other = Some(process(&["vim", "notes"], Some("/comfy")));
    assert_eq!(
        ComfyManager::stop(&state, &other, "/comfy", false).unwrap_err(),
        "PID 42 no longer looks like this ComfyUI process; refusing to kill it"
    );
    assert_eq!(ComfyManager::status(&mut state, &other, "/comfy", false), (false, false));
    let ours = Some(process(&["python", "main.py"], Some("/comfy/")));
    assert_eq!(ComfyManager::stop(&state, &ours, "/comfy", false), Ok(StopPlan::Signal(42)));
    assert_eq!(ComfyManager::status(&mut state, &ours, "/comfy", false), (true, false));
    assert_eq!(
        ComfyManager::stopped(&mut state, StopPlan::Signal(42), false).unwrap_err(),
        "failed to signal ComfyUI process 42"
    );
    assert_eq!(state.comfy_pid, Some(42));
    assert_eq!(ComfyManager::stop(&state, &None, "/comfy", false), Ok(StopPlan::Forget));
    assert_eq!(ComfyManager::status(&mut state, &None, "/comfy", false), (false, true));
    assert_eq!(state.comfy_pid, None);
    assert!(process_looks_like_comfy(&process(&["python", "/x/ComfyUI/main.py"], None), "/comfy", false));
    assert!(!process_looks_like_comfy(&process(&["python", "main.py"], None), "/comfy", false));
}

#[test]
fn dependencies_are_installed_from_a_wheelhouse() {
    let mut run = ComfyManager::install_python_deps(&instance(None), false);
    match run.begin() {
        DepsAction::Run { program, args } => {
            assert_eq!(program, "python3");
            assert_eq!(args, vec!["-m", "venv", "/comfy/.venv"]);
        }
        _ => panic!("no environment"),
    }
    assert!(matches!(run.step(DepsEvent::Done(true)), DepsAction::FindPython));
    assert!(matches!(run.step(DepsEvent::Python(VENV)), DepsAction::CheckFile { path } if path == "/comfy/requirements.txt"));
    assert!(matches!(run.step(DepsEvent::Done(true)), DepsAction::CreateDir { path } if path.starts_with("/comfy/.comfybox-tmp/pip-")));
    assert!(matches!(run.step(DepsEvent::Done(true)), DepsAction::Run { args, .. } if args[2] == "download"));
    assert!(matches!(run.step(DepsEvent::Done(true)), DepsAction::Run { args, .. } if args[3] == "--no-index"));
    assert!(matches!(run.step(DepsEvent::Done(true)), DepsAction::Finish { python, .. } if python == "/comfy/.venv/bin/python"));
    let fails = |events: &[DepsEvent]| {
        let mut run = ComfyManager::install_python_deps(&instance(Some("/p")), false);
        let mut last = run.begin();
        for e in events {
            last = run.step(*e);
        }
        match last {
            DepsAction::Fail { remove, message } => (remove.is_some(), message),
            _ => panic!("no failure"),
        }
    };
    let ok = DepsEvent::Done(true);
    let no = DepsEvent::Done(false);
    assert_eq!(fails(&[no]), (false, "requirements.txt not found".to_owned()));
    assert_eq!(fails(&[ok, ok, no]), (true, "pip download failed".to_owned()));
    assert_eq!(fails(&[ok, ok, ok, no]), (true, "pip install failed".to_owned()));
    let mut run = ComfyManager::install_python_deps(&instance(None), false);
    run.begin();
    run.step(ok);
    assert!(matches!(run.step(DepsEvent::Python(NO_PYTHON)), DepsAction::Fail { message, .. } if message == "venv created but Python executable not found"));
    let mut run = ComfyManager::install_python_deps(&instance(None), false);
    run.begin();
    assert!(matches!(run.step(no), DepsAction::Fail { message, .. } if message == "failed to create Python virtualenv"));
}

fn volume(mount: &str, gib: u64, removable: bool) -> StorageCandidate {
    StorageCandidate {
        mount_point: mount.to_owned(),
        available_bytes: gib * 1024 * 1024 * 1024,
        total_bytes: 0,
        file_system: "ext4".to_owned(),
        removable,
    }
}

#[test]
fn the_largest_fixed_volume_is_recommended() {
    let all = || {
        vec![
            volume("/a", 3, false),
            volume("/usb", 900, true),
            volume("/b", 50, false),
            volume("/c", 50, false),
        ]
    };
    let order: Vec<String> = storage_candidates(all()).into_iter().map(|v| v.mount_point).collect();
    assert_eq!(order, vec!["/usb", "/b", "/c", "/a"]);
    assert_eq!(recommend_storage(all()).unwrap().mount_point, "/b");
    assert!(recommend_storage(vec![volume("/small", 2, false)]).is_none());
}
