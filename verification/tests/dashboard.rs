use comfybox::catalog::{
    Artifact, ArtifactSource, Catalog, CustomNode, OptionalGroup, Package, SystemDependency,
    WorkflowDefinition,
};
use comfybox::config::AppConfig;
use comfybox::dashboard::{artifacts_for_section, Dashboard, KeyOutcome, Pacing, Section};
use comfybox::health::{
    artifact_ids_size, collect_artifact_health, collect_installed_custom_nodes, health_rank,
    worse_health, Health, HealthFacts, Tone,
};
use comfybox::ids::{IdMap, IdSet};
use comfybox::inventory::ArtifactStatus;
use comfybox::jobs::{Clock, JobSnapshot, JobStatus, Speed};
use comfybox::json::Json;
use comfybox::plan::{DashboardAction, InstallSelection, Key};
use comfybox::queue::DownloadQueue;
use comfybox::screen;
use comfybox::screen::{Line, SystemFacts, SystemSnapshot};
use comfybox::steps::DirEntry;

fn texts(items: &[&str]) -> Vec<String> {
    items.iter().map(|s| s.to_string()).collect()
}

fn artifact(id: &str, path: &str, size: Option<u64>) -> Artifact {
    Artifact {
        id: id.to_owned(),
        name: id.to_uppercase(),
        url: format!("https://example.com/{id}"),
        relative_path: path.to_owned(),
        size_bytes: size,
        sha256: None,
        gated: false,
        description: None,
        sources: Vec::new(),
    }
}

fn catalog() -> Catalog {
    let mut c = Catalog::default();
    c.artifacts.push(artifact("unet", "models/diffusion_models/u", Some(2048)));
    c.artifacts.push(artifact("vae", "models/vae/v", None));
    c.artifacts.push(artifact("lora", "models/loras/l", Some(1024)));
    for (title, size) in [("First", Some("1.0 KiB")), ("Second", None)] {
        c.artifacts[0].sources.push(ArtifactSource {
            title: title.to_owned(),
            url: title.to_owned(),
            size: size.map(str::to_owned),
            size_bytes: None,
            description: String::new(),
        });
    }
    c.packages.push(Package {
        id: "p".to_owned(),
        name: "Pack".to_owned(),
        family: "Fam".to_owned(),
        description: None,
        primary_artifact_ids: texts(&["unet"]),
        dependency_artifact_ids: texts(&["vae"]),
        custom_node_ids: texts(&["n"]),
        optional_groups: vec![OptionalGroup {
            id: "g".to_owned(),
            name: "G".to_owned(),
            artifact_ids: texts(&["lora"]),
            custom_node_ids: Vec::new(),
        }],
        discover_query: None,
    });
    c.custom_nodes.push(CustomNode {
        id: "n".to_owned(),
        name: "Node".to_owned(),
        git_url: "git".to_owned(),
        folder_name: "Folder_N".to_owned(),
        node_types: texts(&["A", "B"]),
    });
    c.workflows.push(WorkflowDefinition {
        id: "w".to_owned(),
        name: "Flow".to_owned(),
        file: "w.json".to_owned(),
        artifact_ids: texts(&["vae", "unet"]),
        custom_node_ids: texts(&["n"]),
    });
    c
}

fn facts(c: &Catalog, statuses: Vec<ArtifactStatus>) -> HealthFacts {
    HealthFacts {
        root_valid: true,
        has_token: false,
        by_id: collect_artifact_health(true, c, &statuses).by_id,
        installed_nodes: IdSet::new(),
    }
}

fn line(l: &Line) -> String {
    l.iter().map(|s| s.text.as_str()).collect::<Vec<_>>().join("")
}

fn now() -> Clock {
    Clock { seconds: 0, nanos: 0 }
}

struct Board {
    dash: Dashboard,
    cfg: AppConfig,
    queue: DownloadQueue,
    catalog: Catalog,
}

fn board() -> Board {
    let catalog = catalog();
    let cfg = AppConfig::default();
    let queue = DownloadQueue::load(&cfg, &catalog, Vec::new(), None, None, now(), false);
    Board { dash: Dashboard::new(), cfg, queue, catalog }
}

fn press(b: &mut Board, key: Key) -> KeyOutcome {
    b.dash.handle_key(key, &b.catalog, &mut b.cfg, &mut b.queue, true, now())
}

fn c(character: char) -> Key {
    Key::Char { c: character, control: false }
}

#[test]
fn health_priority_puts_recovery_first() {
    assert!(health_rank(Health::Broken) < health_rank(Health::Paused));
    assert!(health_rank(Health::Paused) < health_rank(Health::Missing));
    assert!(health_rank(Health::Missing) < health_rank(Health::Ready));
}

#[test]
fn the_worse_health_decides() {
    assert_eq!(worse_health(Health::Ready, Health::Broken), Health::Broken);
    assert_eq!(worse_health(Health::Paused, Health::Missing), Health::Paused);
    assert_eq!(Health::Blocked.label(), "TOKEN");
    assert_eq!(Health::Blocked.color(), Tone::Yellow);
}

#[test]
fn health_is_collected_and_judged() {
    let mut cat = catalog();
    let partial = ArtifactStatus::Partial { downloaded_bytes: 1, expected_bytes: None };
    let wrong = ArtifactStatus::SizeMismatch { actual: 1, expected: 2 };
    let snapshot = collect_artifact_health(true, &cat, &vec![ArtifactStatus::Installed, partial, wrong]);
    assert_eq!((snapshot.ready, snapshot.missing, snapshot.paused, snapshot.broken), (1, 0, 1, 1));
    assert_eq!(collect_artifact_health(false, &cat, &Vec::new()).by_id.len(), 0);
    let all = vec![ArtifactStatus::Installed; 3];
    let mut f = facts(&cat, all.clone());
    assert_eq!(f.package_health(&cat, &cat.packages[0]), Health::Missing);
    f.installed_nodes = collect_installed_custom_nodes(
        &cat,
        &vec![DirEntry { name: "folder-n".to_owned(), is_dir: true }],
    );
    assert_eq!(f.package_health(&cat, &cat.packages[0]), Health::Ready);
    assert_eq!(f.workflow_health(&cat, &cat.workflows[0], false), Health::Missing);
    assert_eq!(f.workflow_health(&cat, &cat.workflows[0], true), Health::Ready);
    let ids = texts(&["unet", "vae"]);
    let with = |s: Vec<ArtifactStatus>| facts(&cat, s).ids_health(&cat, &ids);
    assert_eq!(with(vec![wrong, ArtifactStatus::Missing, wrong]), Health::Broken);
    assert_eq!(with(vec![ArtifactStatus::Missing, partial, wrong]), Health::Paused);
    assert_eq!(with(vec![partial, ArtifactStatus::Missing, wrong]), Health::Paused);
    assert_eq!(with(vec![ArtifactStatus::Installed, ArtifactStatus::Missing, wrong]), Health::Missing);
    assert_eq!(facts(&cat, all).ids_health(&cat, &texts(&["ghost"])), Health::Broken);
    cat.artifacts[1].gated = true;
    let mut f = facts(&cat, vec![partial, ArtifactStatus::Missing, wrong]);
    assert_eq!(f.ids_health(&cat, &ids), Health::Blocked);
    f.has_token = true;
    assert_eq!(f.ids_health(&cat, &ids), Health::Paused);
    f.root_valid = false;
    assert_eq!(f.ids_health(&cat, &ids), Health::Missing);
    assert_eq!(f.custom_nodes_health(&cat, &texts(&["zzz"])), Health::Missing);
    cat.packages[0].primary_artifact_ids.clear();
    assert_eq!(f.package_health(&cat, &cat.packages[0]), Health::Discovery);
}

#[test]
fn sizes_are_summed() {
    let cat = catalog();
    assert_eq!(artifact_ids_size(&cat, &texts(&["unet", "lora"])), "3.0 KiB");
    assert_eq!(artifact_ids_size(&cat, &texts(&["unet", "vae", "x"])), "2.0 KiB + 2 unknown");
    assert_eq!(artifact_ids_size(&cat, &texts(&["vae"])), "size unknown");
    assert_eq!(artifact_ids_size(&cat, &Vec::new()), "0 B");
}

#[test]
fn sections_go_round() {
    let mut s = Section::Overview;
    for i in 0..13 {
        assert_eq!(s.index(), i);
        assert_eq!(s.next().previous(), s);
        s = s.next();
    }
    assert_eq!(s, Section::Overview);
    assert_eq!(Section::RuntimeModels.title(), "Runtime");
    let mut b = board();
    press(&mut b, Key::Left);
    assert_eq!(b.dash.section, Section::System);
    assert!(b.dash.clear_before_draw);
    press(&mut b, Key::Tab);
    assert_eq!(b.dash.section, Section::Overview);
    press(&mut b, c('9'));
    assert_eq!(b.dash.section, Section::Workflows);
    let cat = catalog();
    assert_eq!(artifacts_for_section(&cat, Section::Loras).len(), 1);
    assert!(artifacts_for_section(&cat, Section::Models).is_empty());
}

#[test]
fn global_keys_ask_for_actions() {
    let mut b = board();
    assert!(matches!(press(&mut b, c('q')), KeyOutcome::Act(DashboardAction::Quit)));
    assert!(matches!(press(&mut b, Key::Esc), KeyOutcome::Act(DashboardAction::Quit)));
    assert!(matches!(
        press(&mut b, Key::Char { c: 'c', control: true }),
        KeyOutcome::Act(DashboardAction::Quit)
    ));
    assert!(matches!(press(&mut b, c('c')), KeyOutcome::Nothing));
    assert!(matches!(press(&mut b, c('l')), KeyOutcome::Act(DashboardAction::LocateComfyUi)));
    assert!(matches!(press(&mut b, c('i')), KeyOutcome::Act(DashboardAction::InstallComfyUi)));
    assert!(matches!(press(&mut b, c('t')), KeyOutcome::Act(DashboardAction::SetHfToken)));
    assert!(matches!(press(&mut b, c('p')), KeyOutcome::Act(DashboardAction::InstallPythonDeps)));
    assert!(matches!(press(&mut b, c('s')), KeyOutcome::CheckServer));
    assert!(matches!(press(&mut b, c('r')), KeyOutcome::Refresh));
    assert_eq!(b.queue.logs.last().unwrap(), "[00:00:00] refreshed and cached dependency health");
    let outcome = b.dash.handle_key(c('s'), &b.catalog, &mut b.cfg, &mut b.queue, false, now());
    assert!(matches!(outcome, KeyOutcome::Nothing));
    b.dash.handle_key(c('p'), &b.catalog, &mut b.cfg, &mut b.queue, false, now());
    assert_eq!(
        b.queue.logs.last().unwrap(),
        "[00:00:00] Python dependency install blocked: install or locate ComfyUI first"
    );
    assert!(matches!(
        Dashboard::server_key(true, &mut b.queue, now()),
        Some(DashboardAction::ToggleServer)
    ));
    assert!(Dashboard::server_key(false, &mut b.queue, now()).is_none());
    assert_eq!(
        b.queue.logs.last().unwrap(),
        "[00:00:00] server action blocked: install Python dependencies first"
    );
}

#[test]
fn settings_stay_in_range() {
    let mut b = board();
    b.dash.section = Section::Settings;
    assert!(matches!(press(&mut b, c('+')), KeyOutcome::SaveConfig));
    assert_eq!(b.cfg.max_concurrent_downloads, 3);
    for _ in 0..40 {
        press(&mut b, c('='));
        press(&mut b, c(']'));
    }
    assert_eq!((b.cfg.max_concurrent_downloads, b.cfg.download_parallelism), (32, 32));
    for _ in 0..40 {
        press(&mut b, c('-'));
        press(&mut b, c('['));
    }
    assert_eq!((b.cfg.max_concurrent_downloads, b.cfg.download_parallelism), (1, 1));
    assert!(matches!(press(&mut b, c('y')), KeyOutcome::Act(DashboardAction::ConfigurePypi)));
    assert!(b.queue.logs.last().unwrap().ends_with("per-file chunk parallelism set to 1"));
}

#[test]
fn downloads_are_controlled() {
    let mut b = board();
    b.queue.enqueue(
        "/comfy",
        vec![artifact("x", "models/x", None), artifact("y", "models/y", None)],
        &comfybox::download::DownloadOptions::default(),
        now(),
    );
    b.dash.section = Section::Downloads;
    press(&mut b, Key::Down);
    assert_eq!(b.dash.download_index, 1);
    press(&mut b, c('x'));
    assert_eq!(b.queue.artifact_status("y"), Some(JobStatus::Paused));
    press(&mut b, c('c'));
    assert_eq!(b.queue.artifact_status("y"), Some(JobStatus::Queued));
    press(&mut b, c('j'));
    assert_eq!(b.dash.download_index, 0);
    press(&mut b, c('k'));
    assert_eq!(b.dash.download_index, 1);
    press(&mut b, Key::Enter);
    assert!(b.dash.download_detail);
    press(&mut b, Key::Esc);
    assert!(!b.dash.download_detail);
    press(&mut b, Key::Enter);
    press(&mut b, c('b'));
    assert!(!b.dash.download_detail);
    assert!(matches!(press(&mut b, c('r')), KeyOutcome::Nothing));
}

fn selection(outcome: KeyOutcome) -> InstallSelection {
    match outcome {
        KeyOutcome::Act(DashboardAction::InstallPackage(s)) => s,
        KeyOutcome::Act(DashboardAction::InstallWorkflow(s)) => s,
        KeyOutcome::Act(DashboardAction::InstallArtifact(s)) => s,
        _ => panic!("nothing selected"),
    }
}

#[test]
fn a_plan_is_edited_and_accepted() {
    let mut b = board();
    b.dash.section = Section::Models;
    press(&mut b, Key::Enter);
    let f = facts(&b.catalog, vec![ArtifactStatus::Missing; 3]);
    let lines = |b: &Board| -> Vec<String> {
        b.dash
            .plan_editor
            .as_ref()
            .unwrap()
            .render_plan_lines(&b.catalog, &f)
            .into_iter()
            .map(|l| l.text)
            .collect()
    };
    assert_eq!(
        lines(&b),
        vec![
            "› ▾ Model  UNET  [MISSING · 1.0 KiB]",
            "        ● First  [MISSING · 1.0 KiB]",
            "        ○ Second  [MISSING · 2.0 KiB]",
            "  ▾ Dependencies  2/3 selected",
            "      ▾ [ ] LORA  [MISSING · 1.0 KiB]",
            "        ● LORA  [MISSING · 1.0 KiB]",
            "      ▾ [x] VAE  [MISSING · size unknown]",
            "        ● VAE  [MISSING · size unknown]",
            "      [x] Node  [MISSING]",
            "                [ OK — start downloads ]",
            "                [ Cancel ]",
        ]
    );
    for _ in 0..2 {
        press(&mut b, Key::Down);
    }
    press(&mut b, Key::Enter);
    for _ in 0..2 {
        press(&mut b, Key::Down);
    }
    press(&mut b, c(' '));
    for _ in 0..4 {
        press(&mut b, c('j'));
    }
    press(&mut b, c(' '));
    press(&mut b, Key::Down);
    let s = selection(press(&mut b, Key::Enter));
    assert_eq!(s.id, "p");
    assert_eq!(
        s.artifact_sources,
        vec![("unet".to_owned(), 1), ("lora".to_owned(), 0), ("vae".to_owned(), 0)]
    );
    assert!(s.custom_node_ids.is_empty());
    press(&mut b, Key::Up);
    press(&mut b, c(' '));
    press(&mut b, Key::Down);
    assert_eq!(selection(press(&mut b, Key::Enter)).custom_node_ids, texts(&["n"]));
    press(&mut b, Key::Down);
    press(&mut b, Key::Enter);
    assert!(b.dash.plan_editor.is_none());
}

#[test]
fn rows_are_expanded_and_the_cursor_goes_round() {
    let mut b = board();
    b.dash.section = Section::Models;
    press(&mut b, Key::Enter);
    let rows = |b: &Board| b.dash.plan_editor.as_ref().unwrap().plan_rows(&b.catalog).len();
    let cursor = |b: &Board| b.dash.plan_editor.as_ref().unwrap().cursor;
    assert_eq!(rows(&b), 11);
    press(&mut b, Key::Enter);
    assert_eq!(rows(&b), 9);
    press(&mut b, Key::Right);
    assert_eq!(rows(&b), 11);
    press(&mut b, Key::Up);
    assert_eq!(cursor(&b), 10);
    press(&mut b, Key::Down);
    assert_eq!(cursor(&b), 0);
    for _ in 0..3 {
        press(&mut b, Key::Tab);
    }
    press(&mut b, Key::Enter);
    assert_eq!(rows(&b), 6);
    press(&mut b, c('z'));
    assert_eq!(cursor(&b), 3);
    press(&mut b, Key::Left);
    assert!(b.dash.plan_editor.is_none());
    press(&mut b, Key::Enter);
    press(&mut b, Key::Esc);
    assert!(b.dash.plan_editor.is_none());
}

#[test]
fn workflows_and_libraries_have_plans() {
    let mut b = board();
    b.dash.section = Section::Workflows;
    press(&mut b, Key::Enter);
    for _ in 0..2 {
        press(&mut b, Key::Up);
    }
    let s = selection(press(&mut b, Key::Enter));
    assert_eq!(s.artifact_sources, vec![("unet".to_owned(), 0), ("vae".to_owned(), 0)]);
    press(&mut b, Key::Esc);
    b.dash.section = Section::Loras;
    b.dash.artifact_index = 5;
    press(&mut b, Key::Enter);
    for _ in 0..2 {
        press(&mut b, Key::Up);
    }
    assert_eq!(selection(press(&mut b, Key::Enter)).id, "lora");
    press(&mut b, Key::Esc);
    let s = selection(KeyOutcome::Act(b.dash.selected_action(&b.catalog, true).unwrap()));
    assert_eq!(s.artifact_sources, vec![("lora".to_owned(), 0)]);
    assert!(b.dash.selected_action(&b.catalog, false).is_none());
    b.dash.section = Section::CustomNodes;
    assert!(matches!(
        press(&mut b, Key::Enter),
        KeyOutcome::Act(DashboardAction::InstallCustomNode(id)) if id == "n"
    ));
    b.dash.section = Section::System;
    assert!(matches!(press(&mut b, Key::Enter), KeyOutcome::Nothing));
    b.catalog.system_dependencies.push(SystemDependency {
        id: "libegl".to_owned(),
        platform: "linux".to_owned(),
        package: "libegl1".to_owned(),
        detect: String::new(),
        install: "apt".to_owned(),
        required_by: texts(&["a", "b"]),
    });
    assert!(matches!(
        press(&mut b, Key::Enter),
        KeyOutcome::Act(DashboardAction::InstallSystemDeps)
    ));
    b.dash.section = Section::Models;
    b.dash.handle_key(Key::Enter, &b.catalog, &mut b.cfg, &mut b.queue, false, now());
    assert!(b.dash.plan_editor.is_none());
}

#[test]
fn cards_say_what_needs_attention() {
    let lines: Vec<String> =
        screen::render_attention_card(false, false, false, 3, 1).iter().map(line).collect();
    assert_eq!(lines[0], "● No valid ComfyUI installation is configured.");
    assert_eq!(lines[2], "● HF_TOKEN is not set.");
    assert_eq!(lines.len(), 4);
    let lines: Vec<String> =
        screen::render_attention_card(true, true, false, 3, 1).iter().map(line).collect();
    assert_eq!(lines[0], "● ComfyUI Python dependencies are not ready.");
    assert_eq!(lines[2], "● 3 interrupted download(s) can be resumed from Downloads.");
    assert_eq!(lines[3], "● 1 mismatched artifact(s) need force repair.");
    let lines: Vec<String> =
        screen::render_attention_card(true, true, true, 0, 0).iter().map(line).collect();
    assert_eq!(lines, vec!["✓ No action needed. ComfyBox is ready."]);
    let cat = catalog();
    let health = collect_artifact_health(true, &cat, &vec![ArtifactStatus::Installed; 3]);
    assert_eq!(line(&screen::render_library_card(true, &health)[0]), "   3 Ready");
    assert_eq!(
        line(&screen::render_library_card(false, &health)[0]),
        "Configure a valid ComfyUI installation to scan models."
    );
    let header = screen::render_header(true, false, "0.1.0");
    assert_eq!(line(&header), " COMFYBOX v0.1.0   COMFYUI READY    ○ STOPPED ");
    assert_eq!(screen::render_tabs(80)[0], " Home ");
    assert_eq!(screen::render_tabs(120)[12], " System ");
    assert!(screen::terminal_fits(72, 20) && !screen::terminal_fits(71, 20));
    assert!(screen::has_two_columns(108) && !screen::has_two_columns(107));
    assert_eq!(screen::plan_scroll(10, 14), 8);
    assert_eq!(screen::plan_scroll(0, 40), 0);
}

#[test]
fn lists_and_details_are_shown() {
    let b = board();
    let f = facts(&b.catalog, vec![ArtifactStatus::Installed; 3]);
    assert_eq!(
        line(&screen::render_model_list(&b.catalog, &f)[0]),
        "MISSING  Pack  p  2.0 KiB + 1 unknown"
    );
    let details: Vec<String> =
        screen::render_model_details(&b.dash, &b.catalog, &f).iter().map(line).collect();
    assert_eq!(details[1], "Family: Fam");
    assert_eq!(details[2], "Required artifacts: 2");
    assert_eq!(details[4], "Optional groups: 1");
    assert_eq!(details[6], "Enter installs the package and its required dependencies.");
    assert_eq!(details[8], "[ Enter ] Configure install    [ r ] Refresh checks");
    let mut b = board();
    b.dash.section = Section::Vaes;
    assert_eq!(line(&screen::render_artifact_list(&b.dash, &b.catalog, &f)[0]), "READY    VAE");
    let details: Vec<String> =
        screen::render_artifact_details(&b.dash, &b.catalog, &f).iter().map(line).collect();
    assert_eq!(details[2], "Sources: 1");
    assert_eq!(line(&screen::render_node_list(&b.catalog, &f)[0]), "MISSING  Node");
    let details: Vec<String> =
        screen::render_node_details(&b.dash, &b.catalog).iter().map(line).collect();
    assert_eq!(details[3], "Aliases: A, B");
    assert_eq!(
        line(&screen::render_workflow_list(&b.catalog, &f, &vec![true])[0]),
        "MISSING  Flow  w"
    );
    let details: Vec<String> =
        screen::render_workflow_details(&b.dash, &b.catalog, &f).iter().map(line).collect();
    assert_eq!(details[2], "Models: 2");
    b.dash.section = Section::Workflows;
    press(&mut b, Key::Enter);
    let details = screen::render_workflow_details(&b.dash, &b.catalog, &f);
    assert_eq!(details[8][0].tone, Tone::Chosen);
    assert!(screen::render_footer(&b.dash, 200).contains("Space enable/disable dep"));
    press(&mut b, Key::Esc);
    assert!(screen::render_footer(&b.dash, 200).contains(" Enter install  r refresh checks "));
    assert!(screen::render_footer(&b.dash, 80).starts_with(" ←/→ tabs  ↑/↓ select  Enter install"));
}

fn job(id: &str, total: Option<u64>) -> JobSnapshot {
    JobSnapshot {
        artifact_id: id.to_owned(),
        name: "Job".to_owned(),
        relative_path: "models/x".to_owned(),
        status: JobStatus::Downloading,
        downloaded_bytes: 1024,
        total_bytes: total,
        speed: Speed { bytes: 0, nanos: 1 },
        error: Some("oops".to_owned()),
        endpoint: None,
    }
}

#[test]
fn jobs_are_shown() {
    assert_eq!(
        line(&screen::render_job_item(&job("a", Some(2048)), " 50.0")),
        "DOWNLOADING Job   50.0%  1.0 KiB / 2.0 KiB"
    );
    assert_eq!(
        line(&screen::render_job_item(&job("a", None), "")),
        "DOWNLOADING Job  1.0 KiB"
    );
    let details: Vec<String> =
        screen::job_details(&job("a", Some(2048)), "50.0", 2048, Some(125)).iter().map(line).collect();
    assert_eq!(details[2], "Progress: 50.0% · 1.0 KiB / 2.0 KiB");
    assert_eq!(details[3], "Speed: 2.0 KiB/s");
    assert_eq!(details[4], "ETA: 2m 05s");
    assert_eq!(details[6], "Source: https://huggingface.co");
    assert_eq!(details[11], "Error: oops");
    let details: Vec<String> =
        screen::job_details(&job("a", None), "", 0, None).iter().map(line).collect();
    assert_eq!(details[4], "ETA: —");
    let logs: Vec<String> = (0..12).map(|i| format!("[PYTHON] {i}")).chain(texts(&["other"])).collect();
    let python = job("python-dependencies", None);
    let window = screen::render_download_window(Some(&python), Vec::new(), &logs);
    let shown: Vec<String> = window.iter().map(line).collect();
    assert_eq!(shown.len(), 10);
    assert_eq!((shown[1].as_str(), shown[2].as_str()), ("Live process output", "[PYTHON] 4"));
    assert_eq!(
        line(&screen::render_download_window(None, Vec::new(), &logs)[0]),
        "No download selected."
    );
    let shown: Vec<String> = screen::render_logs(&logs, 4).iter().map(line).collect();
    assert_eq!(shown, vec!["[PYTHON] 11", "other"]);
    assert!(screen::render_logs(&logs, 1).is_empty());
}

#[test]
fn settings_and_system_are_shown() {
    let mut b = board();
    b.cfg.chunk_size_bytes = 16 * 1024 * 1024;
    b.cfg.pypi_index_url = "https://pypi.tuna.tsinghua.edu.cn/simple".to_owned();
    let settings: Vec<String> =
        screen::render_settings(&b.cfg, &vec![job("a", None)]).iter().map(line).collect();
    assert_eq!(settings[0], "Files        2  −/+ change");
    assert_eq!(settings[2], "Chunk size   16 MiB");
    assert_eq!(settings[3], "Active now   1");
    assert_eq!(settings[4], "Python index China mirror (Tsinghua)  y change");
    b.catalog.system_dependencies.push(SystemDependency {
        id: "libegl".to_owned(),
        platform: "linux".to_owned(),
        package: "libegl1".to_owned(),
        detect: String::new(),
        install: "apt-get install libegl1".to_owned(),
        required_by: texts(&["a", "b"]),
    });
    b.catalog.python_dependencies = Some(Json::Object(vec![
        ("environment".to_owned(), Json::Text(".venv".to_owned())),
        ("custom_node_requirements".to_owned(), Json::Text("isolated".to_owned())),
    ]));
    let system = SystemSnapshot {
        git: true,
        python: None,
        disk: Some(1610612736),
        token_status: screen::token_status(Some(comfybox::auth::HfTokenSource::Environment)),
        has_token: true,
        dependency_status: vec![("libegl".to_owned(), false)],
        python_dependencies_ready: false,
    };
    let facts = SystemFacts { root_valid: true, running: false, packages: 2, workflows: 1, log: None };
    let lines: Vec<String> =
        screen::render_system(&facts, &system, &b.cfg, &b.catalog).iter().map(line).collect();
    assert_eq!(lines[0], "ComfyUI      configured");
    assert_eq!(lines[3], "Python       missing");
    assert_eq!(lines[5], "HF_TOKEN     present · environment");
    assert_eq!(lines[6], "Free disk    1.5 GiB");
    assert_eq!(lines[9], "State records2 packages / 1 workflows");
    assert_eq!(lines[10], "Log          not created");
    assert_eq!(lines[13], "libegl1      missing  a, b");
    assert_eq!(lines[14], "  install: apt-get install libegl1");
    assert_eq!(lines[17], "Environment  .venv");
    assert_eq!(lines[18], "isolated");
    assert_eq!(lines[20], "[ Enter ] Install missing system dependencies");
    let env: Vec<String> = screen::render_environment_card(&None, &None, &system, "e")
        .iter()
        .map(line)
        .collect();
    assert_eq!(env[0], "Path         Not configured");
    assert_eq!(env[3], "HF token     present · environment");
    let mut by_id: IdMap<Health> = IdMap::new();
    by_id.insert("unet".to_owned(), Health::Ready);
    assert_eq!(screen::token_status(None), "missing");
}

#[test]
fn the_server_is_looked_at_every_two_seconds() {
    let mut pacing = Pacing::new(false, 5);
    assert!(pacing.take_draw());
    assert!(!pacing.take_draw());
    assert!(!pacing.check_due(2_000_000_004));
    assert!(pacing.check_due(2_000_000_005));
    assert!(!pacing.check_due(9_000_000_000));
    pacing.changed(false);
    assert!(!pacing.take_draw());
    pacing.server_seen(true);
    assert!(pacing.running);
    assert!(pacing.take_draw());
    assert!(!pacing.check_due(4_000_000_004));
    assert!(pacing.check_due(9_000_000_000));
}
