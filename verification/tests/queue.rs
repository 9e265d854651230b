use comfybox::catalog::{Artifact, Catalog, CustomNode, SystemDependency};
use comfybox::config::AppConfig;
use comfybox::download::DownloadOptions;
use comfybox::ids::IdSet;
use comfybox::jobs::{
    timestamp, Clock, Effect, JobStatus, PersistedJob, QueueEvent, Speed, TaskKey, MAX_LOG_LINES,
};
use comfybox::queue::{message_events, migrate_saved_queue, DownloadQueue};

fn artifact(id: &str) -> Artifact {
    Artifact {
        id: id.to_owned(),
        name: id.to_uppercase(),
        url: format!("https://huggingface.co/{id}"),
        relative_path: format!("models/vae/{id}"),
        size_bytes: Some(100),
        sha256: None,
        gated: false,
        description: None,
        sources: Vec::new(),
    }
}

fn node(id: &str) -> CustomNode {
    CustomNode {
        id: id.to_owned(),
        name: format!("Node {id}"),
        git_url: "https://example.com/n.git".to_owned(),
        folder_name: format!("folder-{id}"),
        node_types: Vec::new(),
    }
}

fn dependency(package: &str) -> SystemDependency {
    SystemDependency {
        id: package.to_owned(),
        platform: "linux".to_owned(),
        package: package.to_owned(),
        detect: String::new(),
        install: String::new(),
        required_by: Vec::new(),
    }
}

fn at(seconds: u64) -> Clock {
    Clock { seconds, nanos: seconds * 1_000_000_000 }
}

fn empty() -> DownloadQueue {
    DownloadQueue::load(&AppConfig::default(), &Catalog::default(), Vec::new(), None, None, at(0), false)
}

fn with(ids: &[&str]) -> DownloadQueue {
    let mut q = empty();
    let artifacts = ids.iter().map(|id| artifact(id)).collect();
    assert_eq!(q.enqueue("/comfy", artifacts, &DownloadOptions::default(), at(0)), ids.len());
    q
}

fn tick(q: &mut DownloadQueue, events: Vec<QueueEvent>, limit: usize) -> bool {
    let mut pending = events;
    let changed = q.tick(&mut pending, limit, at(10));
    assert!(pending.is_empty());
    changed
}

fn finished(id: &str, error: Option<&str>) -> QueueEvent {
    QueueEvent::Finished {
        artifact_id: id.to_owned(),
        result: match error {
            None => Ok(()),
            Some(e) => Err(e.to_owned()),
        },
    }
}

fn started(q: &mut DownloadQueue) -> Vec<String> {
    q.take_effects()
        .into_iter()
        .filter_map(|e| match e {
            Effect::StartDownload { artifact, .. } => Some(artifact.id),
            Effect::StartCustomNode { node, .. } => Some(node.id),
            Effect::StartPythonDeps { .. } => Some("python".to_owned()),
            Effect::StartSystemDeps { .. } => Some("system".to_owned()),
            _ => None,
        })
        .collect()
}

fn aborted(q: &mut DownloadQueue) -> Vec<String> {
    q.take_effects()
        .into_iter()
        .filter_map(|e| match e {
            Effect::Abort(TaskKey::Download(id)) => Some(id),
            Effect::Abort(TaskKey::CustomNode(id)) => Some(id),
            Effect::Abort(TaskKey::PythonDeps) => Some("python".to_owned()),
            Effect::Abort(TaskKey::SystemDeps) => Some("system".to_owned()),
            _ => None,
        })
        .collect()
}

#[test]
fn statuses_have_labels() {
    assert_eq!(JobStatus::Completed.label(), "DONE");
    assert_eq!(JobStatus::Queued.label(), "QUEUED");
    assert!(JobStatus::Queued.is_active() && JobStatus::Installing.is_active());
    assert!(!JobStatus::Paused.is_active() && !JobStatus::Failed.is_active());
    assert_eq!(timestamp(86_400 + 3_661), "01:01:01");
}

#[test]
fn queued_downloads_start_while_there_are_places() {
    let mut q = with(&["a", "b", "c"]);
    q.enqueue_custom_nodes("/comfy", vec![node("n")], at(1));
    q.take_effects();
    assert!(tick(&mut q, Vec::new(), 2));
    assert_eq!(started(&mut q), vec!["a", "b"]);
    assert!(!tick(&mut q, Vec::new(), 2));
    assert!(tick(&mut q, Vec::new(), 3));
    assert_eq!(started(&mut q), vec!["c"]);
    assert!(tick(&mut q, vec![finished("a", None)], 3));
    assert_eq!(started(&mut q), vec!["n"]);
    assert_eq!(q.artifact_status("a"), Some(JobStatus::Completed));
    assert_eq!(q.artifact_status("b"), Some(JobStatus::Resolving));
    assert_eq!(q.custom_node_status("n"), Some(JobStatus::Installing));
    assert_eq!(q.artifact_status("z"), None);
}

#[test]
fn lowering_the_limit_kills_nothing() {
    let mut q = with(&["a", "b", "c"]);
    tick(&mut q, Vec::new(), 2);
    q.take_effects();
    tick(&mut q, Vec::new(), 1);
    assert!(aborted(&mut q).is_empty());
    tick(&mut q, vec![finished("a", None)], 1);
    assert!(started(&mut q).is_empty());
    tick(&mut q, vec![finished("b", None)], 1);
    assert_eq!(started(&mut q), vec!["c"]);
    let mut zero = with(&["a"]);
    zero.take_effects();
    tick(&mut zero, Vec::new(), 0);
    assert_eq!(started(&mut zero), vec!["a"]);
}

#[test]
fn at_most_so_many_events_are_taken_in_at_a_time() {
    let mut q = empty();
    let mut pending: Vec<QueueEvent> =
        (0..600).map(|i| QueueEvent::Log(format!("line {i}"))).collect();
    assert!(q.tick(&mut pending, 1, at(0)));
    assert_eq!(pending.len(), 88);
    assert_eq!(q.logs.len(), 512);
    assert!(q.tick(&mut pending, 1, at(0)));
    assert!(pending.is_empty());
    assert!(!q.tick(&mut pending, 1, at(0)));
}

#[test]
fn the_log_keeps_its_last_lines() {
    let mut q = empty();
    for i in 0..1005 {
        q.record(&format!("m{i}"), at(1));
    }
    assert_eq!(q.logs.len(), MAX_LOG_LINES);
    assert_eq!(q.logs[0], "[00:00:01] m5");
    assert_eq!(q.logs[999], "[00:00:01] m1004");
    let file: String = (0..1500).map(|i| format!("{i}\n")).collect();
    let loaded = DownloadQueue::load(
        &AppConfig::default(),
        &Catalog::default(),
        Vec::new(),
        None,
        Some(file),
        at(0),
        false,
    );
    assert_eq!(loaded.logs.len(), 1000);
    assert_eq!(loaded.logs[0], "500");
}

#[test]
fn an_artifact_has_one_job() {
    let mut q = with(&["a"]);
    assert_eq!(q.enqueue("/comfy", vec![artifact("a")], &DownloadOptions::default(), at(0)), 0);
    assert_eq!(q.logs.last().unwrap(), "[00:00:00] A is already queued or downloading");
    assert_eq!(q.jobs.len(), 1);
    tick(&mut q, Vec::new(), 1);
    tick(&mut q, vec![finished("a", Some("boom"))], 1);
    assert_eq!(q.jobs[0].error.as_deref(), Some("boom"));
    assert_eq!(q.enqueue("/other", vec![artifact("a")], &DownloadOptions::default(), at(0)), 1);
    assert_eq!(q.jobs.len(), 1);
    assert_eq!((q.jobs[0].status, q.jobs[0].root.as_str()), (JobStatus::Queued, "/other"));
    assert!(q.jobs[0].error.is_none());
}

#[test]
fn progress_is_sampled() {
    let mut q = with(&["a"]);
    tick(&mut q, Vec::new(), 1);
    let progress = |bytes| QueueEvent::Progress {
        artifact_id: "a".to_owned(),
        downloaded_bytes: bytes,
        total_bytes: 100,
    };
    let start = q.jobs[0].last_progress;
    let now = |nanos| Clock { seconds: 10, nanos: start + nanos };
    q.apply(progress(30), now(50_000_000));
    assert_eq!((q.jobs[0].downloaded_bytes, q.jobs[0].last_bytes), (30, 0));
    q.apply(progress(40), now(50_000_001));
    assert_eq!(q.jobs[0].speed, Speed { bytes: 40, nanos: 50_000_001 });
    assert_eq!(q.jobs[0].last_bytes, 40);
    q.apply(
        QueueEvent::Stage { artifact_id: "a".to_owned(), status: JobStatus::Processing },
        now(50_000_002),
    );
    assert_eq!(q.jobs[0].speed.bytes, 0);
    assert!(q.apply(finished("a", None), now(60_000_000)));
    assert_eq!(q.jobs[0].downloaded_bytes, 100);
    assert!(!q.apply(finished("unknown", None), now(60_000_000)));
}

#[test]
fn engine_messages_become_stages_and_log_lines() {
    let events = message_events("a", "phase:downloading");
    assert_eq!(events.len(), 2);
    assert!(matches!(
        &events[0],
        QueueEvent::Stage { artifact_id, status: JobStatus::Downloading } if artifact_id == "a"
    ));
    assert!(matches!(&events[1], QueueEvent::Log(m) if m == "[DOWNLOAD] phase:downloading"));
    assert_eq!(message_events("a", "hello").len(), 1);
}

#[test]
fn a_paused_download_is_continued() {
    let mut q = with(&["a"]);
    tick(&mut q, Vec::new(), 1);
    q.take_effects();
    q.pause(0, at(20));
    assert_eq!(q.artifact_status("a"), Some(JobStatus::Paused));
    assert_eq!(q.logs.last().unwrap(), "[00:00:20] paused A; verified chunks were retained");
    assert_eq!(aborted(&mut q), vec!["a"]);
    q.retry(0, at(21));
    assert_eq!(q.artifact_status("a"), Some(JobStatus::Paused));
    q.resume(0, at(22));
    assert_eq!(q.artifact_status("a"), Some(JobStatus::Queued));
    assert_eq!(q.logs.last().unwrap(), "[00:00:22] continued A from retained download state");
    q.resume(0, at(23));
    assert_eq!(q.artifact_status("a"), Some(JobStatus::Queued));
}

#[test]
fn a_failed_download_is_retried() {
    let mut q = with(&["a"]);
    tick(&mut q, Vec::new(), 1);
    tick(&mut q, vec![finished("a", Some("reset"))], 1);
    assert_eq!(q.logs.last().unwrap(), "[00:00:10] failed A: reset");
    q.resume(0, at(11));
    assert_eq!(q.artifact_status("a"), Some(JobStatus::Failed));
    q.retry(0, at(11));
    assert_eq!(q.artifact_status("a"), Some(JobStatus::Queued));
    assert_eq!(q.logs.last().unwrap(), "[00:00:11] retrying failed download A");
}

#[test]
fn operations_follow_the_downloads_in_the_list() {
    let mut q = with(&["a"]);
    q.enqueue_custom_nodes("/comfy", vec![node("n")], at(0));
    assert!(q.enqueue_python_deps("/comfy", "https://pypi.org/simple", true, true, at(0)).is_ok());
    assert!(q
        .enqueue_system_deps(vec![dependency("x")], true, true, &IdSet::new(), at(0))
        .is_ok());
    assert_eq!(q.len(), 4);
    let names: Vec<String> = q.snapshots().into_iter().map(|s| s.artifact_id).collect();
    assert_eq!(names, vec!["a", "custom-node:n", "python-dependencies", "system-dependencies"]);
    assert_eq!(q.snapshots()[1].relative_path, "/comfy/custom_nodes/folder-n");
    assert_eq!(q.snapshots()[3].relative_path, "x");
    assert!(q.has_active_operations());
    assert_eq!(q.active_descriptions()[2], "ComfyUI Python dependencies: QUEUED");
    q.take_effects();
    tick(&mut q, Vec::new(), 5);
    assert_eq!(started(&mut q), vec!["a", "n", "python", "system"]);
    q.pause(1, at(1));
    assert_eq!(q.custom_node_status("n"), Some(JobStatus::Paused));
    q.pause(2, at(1));
    assert_eq!(q.operation_status("python-dependencies"), Some(JobStatus::Paused));
    q.pause(3, at(1));
    assert_eq!(q.operation_status("system-dependencies"), Some(JobStatus::Installing));
    assert_eq!(
        q.logs.last().unwrap(),
        "[00:00:01] system dependency installation cannot be paused safely; let apt-get finish"
    );
    q.resume(2, at(2));
    assert_eq!(q.operation_status("python-dependencies"), Some(JobStatus::Queued));
    let before = q.logs.len();
    q.pause(9, at(2));
    assert_eq!(q.logs.len(), before);
    tick(&mut q, vec![QueueEvent::SystemOperationFinished(Err("no net".to_owned()))], 5);
    assert_eq!(q.operation_status("system-dependencies"), Some(JobStatus::Failed));
    q.retry(3, at(3));
    assert_eq!(q.operation_status("system-dependencies"), Some(JobStatus::Queued));
    tick(&mut q, vec![QueueEvent::OperationFinished(Ok(()))], 5);
    assert_eq!(q.operation_status("python-dependencies"), Some(JobStatus::Completed));
    assert_eq!(q.operation_status("other"), None);
    tick(
        &mut q,
        vec![QueueEvent::CustomNodeFinished {
            node_id: "n".to_owned(),
            result: Err("git".to_owned()),
        }],
        5,
    );
    assert_eq!(q.custom_node_status("n"), Some(JobStatus::Failed));
}

#[test]
fn records_are_removed() {
    let mut q = with(&["a", "b"]);
    tick(&mut q, Vec::new(), 1);
    q.take_effects();
    let removal = q.remove_download(0, true).ok().unwrap();
    assert_eq!(removal.temp_dir.as_deref(), Some("/comfy/models/vae/.comfybox-tmp/a"));
    assert_eq!(removal.message, "removed A from download manager and deleted temporary data");
    assert!(removal.save);
    assert_eq!(aborted(&mut q), vec!["a"]);
    assert_eq!(q.jobs.len(), 1);
    q.finish_removal(&removal, at(5));
    assert!(matches!(q.take_effects().last(), Some(Effect::Save(jobs)) if jobs.len() == 1));
    let removal = q.remove_download(0, false).ok().unwrap();
    assert!(removal.temp_dir.is_none());
    assert_eq!(
        removal.message,
        "removed B from download manager; installed artifact and temporary data were left untouched"
    );
    assert_eq!(q.remove_download(0, false).err().unwrap(), "download record no longer exists");
    q.enqueue_system_deps(vec![dependency("x")], true, true, &IdSet::new(), at(0)).unwrap();
    assert_eq!(
        q.remove_download(0, false).err().unwrap(),
        "active system package installation cannot be removed safely"
    );
    q.enqueue_custom_nodes("/comfy", vec![node("n")], at(0));
    let removal = q.remove_download(0, true).ok().unwrap();
    assert_eq!(removal.node_temp, Some(("/comfy".to_owned(), "n".to_owned())));
    q.enqueue_python_deps("/comfy", "u", true, true, at(0)).unwrap();
    assert_eq!(
        q.remove_download(0, false).ok().unwrap().message,
        "removed Python dependency operation from download manager"
    );
}

#[test]
fn installations_are_refused_without_their_files() {
    let mut q = empty();
    assert_eq!(
        q.enqueue_python_deps("/comfy", "u", true, false, at(0)).unwrap_err(),
        "install or locate ComfyUI before installing Python dependencies"
    );
    assert_eq!(
        q.enqueue_system_deps(Vec::new(), false, true, &IdSet::new(), at(0)).unwrap_err(),
        "automatic system dependency installation is only supported on Linux"
    );
    assert_eq!(
        q.enqueue_system_deps(Vec::new(), true, false, &IdSet::new(), at(0)).unwrap_err(),
        "apt-get is unavailable; install the manifest system packages manually"
    );
    let mut installed = IdSet::new();
    installed.insert("x".to_owned());
    q.enqueue_system_deps(vec![dependency("x")], true, true, &installed, at(0)).unwrap();
    assert_eq!(
        q.logs.last().unwrap(),
        "[00:00:00] all manifest system dependencies are already installed"
    );
    q.enqueue_system_deps(
        vec![dependency("x"), dependency("y"), dependency("z")],
        true,
        true,
        &installed,
        at(0),
    )
    .unwrap();
    assert_eq!(q.logs.last().unwrap(), "[00:00:00] queued system dependencies: y, z");
}

#[test]
fn forgotten_artifacts_leave_the_queue() {
    let mut q = with(&["a", "b", "c"]);
    tick(&mut q, Vec::new(), 1);
    q.take_effects();
    let mut ids = IdSet::new();
    ids.insert("a".to_owned());
    ids.insert("c".to_owned());
    q.forget_artifacts(&ids);
    assert_eq!(q.jobs.len(), 1);
    assert_eq!(q.jobs[0].artifact.id, "b");
    assert_eq!(aborted(&mut q), vec!["a"]);
}

#[test]
fn unfinished_jobs_come_back_paused() {
    let mut catalog = Catalog::default();
    catalog.artifacts.push(artifact("a"));
    catalog.artifacts.push(artifact("b"));
    let mut q = with(&["a", "b", "gone"]);
    tick(&mut q, Vec::new(), 1);
    tick(&mut q, vec![finished("a", None)], 1);
    q.close();
    assert_eq!(q.artifact_status("b"), Some(JobStatus::Paused));
    let saved = match q.take_effects().pop() {
        Some(Effect::Save(jobs)) => jobs,
        _ => panic!("not saved"),
    };
    let back = DownloadQueue::load(
        &AppConfig::default(),
        &catalog,
        saved,
        Some("hf_x".to_owned()),
        None,
        at(100),
        false,
    );
    assert_eq!(back.jobs.len(), 2);
    assert_eq!(back.artifact_status("a"), Some(JobStatus::Completed));
    assert_eq!(back.artifact_status("b"), Some(JobStatus::Paused));
    assert_eq!(back.jobs[0].downloaded_bytes, 100);
    assert_eq!(back.jobs[0].options.hf_token.as_deref(), Some("hf_x"));
    let active = vec![PersistedJob {
        artifact_id: "a".to_owned(),
        root: "/comfy".to_owned(),
        status: JobStatus::Downloading,
        downloaded_bytes: 7,
        total_bytes: Some(100),
        endpoint: Some("https://hf-mirror.com".to_owned()),
        force: true,
    }];
    let back = DownloadQueue::load(&AppConfig::default(), &catalog, active, None, None, at(0), false);
    assert_eq!(back.jobs[0].status, JobStatus::Paused);
    assert_eq!((back.jobs[0].downloaded_bytes, back.jobs[0].options.force), (7, true));
    assert_eq!(
        migrate_saved_queue(r#"[{"status":"Stopped"},{"status":"Failed"}]"#),
        r#"[{"status":"Paused"},{"status":"Failed"}]"#
    );
}

#[test]
fn parallelism_is_set_for_what_is_not_downloading() {
    let mut q = with(&["a", "b"]);
    q.enqueue_custom_nodes("/comfy", vec![node("n")], at(0));
    tick(&mut q, Vec::new(), 3);
    q.apply(
        QueueEvent::Stage { artifact_id: "a".to_owned(), status: JobStatus::Downloading },
        at(11),
    );
    q.take_effects();
    q.update_chunk_parallelism(0, at(12));
    assert_eq!(q.jobs[0].options.parallelism, 4);
    assert_eq!(q.jobs[1].options.parallelism, 1);
    assert_eq!(q.custom_node_status("n"), Some(JobStatus::Paused));
    assert_eq!(q.logs.last().unwrap(), "[00:00:12] per-file chunk parallelism set to 1");
    assert_eq!(aborted(&mut q), vec!["n"]);
}

#[test]
fn the_server_log_is_followed() {
    let mut q = empty();
    assert_eq!(q.tail_start("/log", None), None);
    assert_eq!(q.tail_start("/log", Some(70_000)), Some(70_000 - 65_536));
    assert!(q.tail_comfyui_log(&b"one\n\ntw".to_vec()));
    assert_eq!(q.logs, vec!["[COMFYUI] one".to_owned()]);
    assert_eq!(q.server_log_partial, "tw");
    assert_eq!(q.tail_start("/log", Some(q.server_log_offset)), None);
    assert!(q.tail_comfyui_log(&b"o\n".to_vec()));
    assert_eq!(q.logs[1], "[COMFYUI] two");
    assert!(!q.tail_text("more", 4));
    assert_eq!(q.tail_start("/log", Some(3)), Some(0));
    assert_eq!(q.server_log_partial, "");
    assert_eq!(q.tail_start("/other", Some(10)), Some(0));
    assert!(q.tail_comfyui_log(&vec![0xff, b'x', b'\n']));
    assert_eq!(q.logs[2], "[COMFYUI] \u{fffd}x");
}
