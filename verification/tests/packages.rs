use comfybox::actions::{
    artifact_from_source, browse_choice, browse_labels, builtin_catalog_order, catalog_counts,
    catalog_files, comfy_source_label, disk_free_for, doctor_lines, download_options,
    effective_endpoint, endpoint_label, exports_token, find_any_python, install_selection,
    is_json_catalog, is_temp_dir, order_selection, pip_config_error, pip_index_args, pypi_choices,
    queues_downloads, record_selection, resolve_workflow, selected_artifacts, server_switch,
    system_dependency_probe, system_dependency_ready, workflow_id, BrowseChoice, HfSource, PypiSource, SelectionOwner,
    SelectionTarget, ServerSwitch, WorkflowSource,
};
use comfybox::auth::HfTokenSource;
use comfybox::catalog::{
    Artifact, ArtifactSource, Catalog, CustomNode, OptionalGroup, Package, WorkflowDefinition,
};
use comfybox::comfy::{ComfySource, PythonFacts};
use comfybox::config::AppConfig;
use comfybox::download::{DownloadOptions, Mount};
use comfybox::ids::IdSet;
use comfybox::inventory::ArtifactStatus;
use comfybox::jobs::{Clock, JobStatus};
use comfybox::json::Json;
use comfybox::packages::{
    artifacts_named, discover_url, discovered_models, forget_package, nodes_named, package_mark,
    plan_package, read_discovered_models, record_package, record_workflow, removal_ids,
    remove_package_artifact, remove_package_node, remove_workflow_artifact, require_workflow,
    status_mark, workflow_target, PackageMark, RemovalStep,
};
use comfybox::plan::{DashboardAction, InstallSelection};
use comfybox::queue::DownloadQueue;
use comfybox::state::{ManagedInstall, ManagedState};
use comfybox::workflow::{inspect_json, inspect_workflow, looks_like_model};

fn texts(items: &[&str]) -> Vec<String> {
    items.iter().map(|s| s.to_string()).collect()
}

fn ids(items: &[&str]) -> IdSet {
    IdSet::from_texts(&texts(items))
}

fn artifact(id: &str, path: &str) -> Artifact {
    Artifact {
        id: id.to_owned(),
        name: id.to_uppercase(),
        url: format!("https://example.com/{id}"),
        relative_path: path.to_owned(),
        size_bytes: None,
        sha256: None,
        gated: false,
        description: None,
        sources: Vec::new(),
    }
}

fn package(id: &str, primary: &[&str], deps: &[&str]) -> Package {
    Package {
        id: id.to_owned(),
        name: format!("Package {id}"),
        family: "F".to_owned(),
        description: None,
        primary_artifact_ids: texts(primary),
        dependency_artifact_ids: texts(deps),
        custom_node_ids: texts(&["n1"]),
        optional_groups: vec![OptionalGroup {
            id: "extra".to_owned(),
            name: "Extra".to_owned(),
            artifact_ids: texts(&["lora", "vae"]),
            custom_node_ids: texts(&["n2"]),
        }],
        discover_query: None,
    }
}

fn catalog() -> Catalog {
    let mut c = Catalog::default();
    c.artifacts.push(artifact("unet", "models/diffusion_models/unet.safetensors"));
    c.artifacts.push(artifact("vae", "models/vae/ae.safetensors"));
    c.artifacts.push(artifact("lora", "models/loras/l.safetensors"));
    c.artifacts.push(artifact("other", "models/checkpoints/o.ckpt"));
    c.packages.push(package("p", &["unet"], &["vae"]));
    c.packages.push(package("q", &["other"], &["vae"]));
    let mut d = package("d", &[], &[]);
    d.discover_query = Some("SDXL".to_owned());
    c.packages.push(d);
    for id in ["n1", "n2"] {
        c.custom_nodes.push(CustomNode {
            id: id.to_owned(),
            name: id.to_owned(),
            git_url: "g".to_owned(),
            folder_name: format!("folder-{id}"),
            node_types: texts(&["FaceNode"]),
        });
    }
    c.workflows.push(WorkflowDefinition {
        id: "w".to_owned(),
        name: "W".to_owned(),
        file: "sub/w.json".to_owned(),
        artifact_ids: texts(&["unet", "vae"]),
        custom_node_ids: texts(&["n1"]),
    });
    c
}

#[test]
fn packages_are_marked() {
    let c = catalog();
    let partial = ArtifactStatus::Partial { downloaded_bytes: 1, expected_bytes: None };
    let p = &c.packages[0];
    assert_eq!(package_mark(&c.packages[2], &Vec::new()), PackageMark::Discovery);
    assert_eq!(package_mark(p, &vec![ArtifactStatus::Installed]).symbol(), "✓");
    assert_eq!(package_mark(p, &vec![ArtifactStatus::Installed, partial]).symbol(), "◐");
    assert_eq!(package_mark(p, &vec![ArtifactStatus::Missing]).symbol(), "○");
    assert_eq!(PackageMark::Discovery.symbol(), "?");
    let half = ArtifactStatus::Partial { downloaded_bytes: 1610612736, expected_bytes: None };
    assert_eq!(status_mark(half), "◐ 1.5 GiB partial");
    assert_eq!(status_mark(ArtifactStatus::SizeMismatch { actual: 1, expected: 2 }), "! mismatch");
    assert_eq!(status_mark(ArtifactStatus::Installed), "✓ installed");
    assert_eq!(status_mark(ArtifactStatus::Missing), "○ missing");
}

#[test]
fn packages_are_planned() {
    let c = catalog();
    let plan = plan_package(&c, "p", true, &texts(&["extra"])).ok().unwrap();
    assert_eq!(plan.artifact_ids.to_texts(), texts(&["lora", "unet", "vae"]));
    assert_eq!(plan.node_ids.to_texts(), texts(&["n1", "n2"]));
    let plan = plan_package(&c, "p", false, &Vec::new()).ok().unwrap();
    assert_eq!(plan.artifact_ids.to_texts(), texts(&["unet"]));
    assert_eq!(plan_package(&c, "x", true, &Vec::new()).err().unwrap(), "unknown package x");
    assert_eq!(
        plan_package(&c, "d", true, &Vec::new()).err().unwrap(),
        "Package d is discovery-only; use `comfybox models discover SDXL` until a verified manifest is added"
    );
    assert_eq!(
        plan_package(&c, "p", true, &texts(&["nope"])).err().unwrap(),
        "unknown optional group nope"
    );
}

#[test]
fn shared_dependencies_are_kept() {
    let c = catalog();
    let mut state = ManagedState::default();
    record_package(&mut state, plan_package(&c, "p", true, &Vec::new()).ok().unwrap());
    assert!(state.artifact_referenced_elsewhere("vae", None, None));
    assert!(!state.artifact_referenced_elsewhere("vae", Some("p"), None));
    assert!(state.custom_node_referenced_elsewhere("n1", Some("q"), None));
    assert_eq!(removal_ids(&c, &state, "p", true).ok().unwrap().to_texts(), texts(&["unet", "vae"]));
    assert_eq!(removal_ids(&c, &state, "p", false).ok().unwrap().to_texts(), texts(&["unet"]));
    assert_eq!(removal_ids(&c, &state, "q", true).ok().unwrap().to_texts(), texts(&["other"]));
    assert_eq!(removal_ids(&c, &state, "x", true).err().unwrap(), "unknown package x");
    let step = |state: &ManagedState, id: &str, present: &IdSet| {
        match remove_package_artifact(&c, state, "/c", id, "p", present, false) {
            RemovalStep::Keep => "keep".to_owned(),
            RemovalStep::Remove { path } => path,
            RemovalStep::Nothing => "nothing".to_owned(),
        }
    };
    assert_eq!(step(&state, "vae", &ids(&[])), "/c/models/vae/ae.safetensors");
    assert_eq!(step(&state, "vae", &ids(&["other"])), "keep");
    assert_eq!(step(&state, "ghost", &ids(&[])), "nothing");
    record_workflow(&mut state, &c.workflows[0], "w");
    assert_eq!(step(&state, "vae", &ids(&[])), "keep");
    assert_eq!(removal_ids(&c, &state, "p", false).ok().unwrap().to_texts(), texts(&["unet"]));
    assert_eq!(step(&state, "unet", &ids(&[])), "keep");
    assert!(matches!(remove_package_node(&c, &state, "/c", "n1", "p", false), RemovalStep::Keep));
    assert!(matches!(
        remove_package_node(&c, &state, "/c", "n2", "p", false),
        RemovalStep::Remove { path } if path == "/c/custom_nodes/folder-n2"
    ));
    assert!(matches!(remove_workflow_artifact(&c, &state, "/c", "unet", false), RemovalStep::Keep));
    assert!(matches!(
        remove_workflow_artifact(&c, &state, "/c", "lora", false),
        RemovalStep::Remove { path } if path == "/c/models/loras/l.safetensors"
    ));
    forget_package(&mut state, "p");
    assert_eq!(state.packages.len(), 0);
    assert_eq!(ManagedInstall::default().artifact_ids.len(), 0);
}

#[test]
fn entries_are_looked_up_by_identifier() {
    let c = catalog();
    assert_eq!(artifacts_named(&c, &texts(&["vae", "unet"])).ok().unwrap()[0].id, "vae");
    assert_eq!(
        artifacts_named(&c, &texts(&["vae", "x", "y"])).err().unwrap(),
        "unknown artifact x"
    );
    assert_eq!(nodes_named(&c, &texts(&["n2"])).ok().unwrap().len(), 1);
    assert_eq!(nodes_named(&c, &texts(&["z"])).err().unwrap(), "unknown custom node z");
    assert_eq!(require_workflow(&c, "z").err().unwrap(), "unknown workflow z");
    let (dir, target) = workflow_target("/c", require_workflow(&c, "w").ok().unwrap(), false);
    assert_eq!(dir, "/c/user/default/workflows");
    assert_eq!(target, "/c/user/default/workflows/w.json");
    assert!(matches!(
        resolve_workflow(Some("w"), None, &c),
        Ok(WorkflowSource::Bundled(id)) if id == "w"
    ));
    assert!(matches!(
        resolve_workflow(None, Some("f.json".to_owned()), &c),
        Ok(WorkflowSource::File(f)) if f == "f.json"
    ));
    assert_eq!(resolve_workflow(None, None, &c).err().unwrap(), "provide workflow id or --file");
    assert_eq!(resolve_workflow(Some("z"), None, &c).err().unwrap(), "unknown workflow z");
    assert_eq!(catalog_counts(&c, " / "), "4 artifacts / 3 packages / 1 workflows");
}

#[test]
fn models_are_discovered() {
    assert_eq!(
        discover_url("Wan Animate é/~", 30),
        "https://huggingface.co/api/models?search=Wan%20Animate%20%C3%A9%2F~&limit=30"
    );
    assert_eq!(
        read_discovered_models(r#"[{"id":"a/b"},{"x":1},{"id":2},{"id":"c"}]"#).ok().unwrap(),
        texts(&["a/b", "c"])
    );
    assert!(read_discovered_models(r#"{"id":"a"}"#).ok().unwrap().is_empty());
    assert!(read_discovered_models("[").is_err());
    let reply = Json::Array(vec![Json::Object(vec![(
        "id".to_owned(),
        Json::Text("m".to_owned()),
    )])]);
    assert_eq!(discovered_models(&reply), texts(&["m"]));
}

#[test]
fn workflows_are_inspected() {
    let c = catalog();
    let raw = r#"{"nodes":[
        {"type":"FaceNode","widgets_values":["sub\\ae.safetensors",{"deep":["unknown.CKPT","x/y"]},3,null]},
        {"type":7},
        {"type":"Plain"}
    ],"extra":"unet.safetensors"}"#;
    let r = inspect_workflow(raw, &c, false).ok().unwrap();
    assert_eq!(r.artifact_ids.to_texts(), texts(&["vae"]));
    assert_eq!(r.custom_node_ids.to_texts(), texts(&["n1", "n2"]));
    assert_eq!(r.unresolved_model_filenames.to_texts(), texts(&["unknown.CKPT"]));
    assert_eq!(r.node_types.to_texts(), texts(&["FaceNode", "Plain", "unknown.CKPT"]));
    let r = inspect_workflow(r#"{"a":{"b":"dir/unet.safetensors"}}"#, &c, false).ok().unwrap();
    assert_eq!(r.artifact_ids.to_texts(), texts(&["unet"]));
    assert!(inspect_workflow("{", &c, false).err().unwrap().starts_with("parse workflow JSON: "));
    assert!(looks_like_model("A.PTH") && looks_like_model("x.onnx") && !looks_like_model("x.txt"));
    let nested = Json::Array(vec![Json::Bool(true), Json::Number("3".to_owned())]);
    assert!(inspect_json(&nested, &c, false).node_types.is_empty());
}

fn selection() -> InstallSelection {
    InstallSelection {
        id: "p".to_owned(),
        artifact_sources: vec![("unet".to_owned(), 1), ("vae".to_owned(), 0)],
        custom_node_ids: texts(&["n1"]),
    }
}

#[test]
fn selections_choose_sources() {
    let mut c = catalog();
    for (url, size) in [("u0", None), ("u1", Some(9))] {
        c.artifacts[0].sources.push(ArtifactSource {
            title: "T".to_owned(),
            url: url.to_owned(),
            size: None,
            size_bytes: size,
            description: String::new(),
        });
    }
    let chosen = selected_artifacts(&c, &selection()).ok().unwrap();
    assert_eq!((chosen[0].url.as_str(), chosen[0].size_bytes), ("u1", Some(9)));
    assert_eq!(chosen[1].url, "https://example.com/vae");
    assert_eq!(artifact_from_source(&c.artifacts[0], 0).size_bytes, None);
    assert_eq!(artifact_from_source(&c.artifacts[0], 7).url, "https://example.com/unet");
    let mut wrong = selection();
    wrong.artifact_sources.push(("ghost".to_owned(), 0));
    assert_eq!(selected_artifacts(&c, &wrong).err().unwrap(), "unknown artifact ghost");
    let mut state = ManagedState::default();
    record_selection(&mut state, SelectionOwner::Package, &selection());
    record_selection(&mut state, SelectionOwner::Workflow, &selection());
    assert_eq!(state.packages.get("p").unwrap().artifact_ids.to_texts(), texts(&["unet", "vae"]));
    assert_eq!(state.workflows.get("p").unwrap().custom_node_ids.to_texts(), texts(&["n1"]));
    assert!(queues_downloads(&DashboardAction::InstallPackage(selection())));
    assert!(!queues_downloads(&DashboardAction::Quit));
}

#[test]
fn sources_are_chosen() {
    let mut cfg = AppConfig::default();
    assert_eq!(effective_endpoint(&cfg, Some("e".to_owned())).as_deref(), Some("e"));
    cfg.hf_endpoint = Some("c".to_owned());
    assert_eq!(effective_endpoint(&cfg, Some("e".to_owned())).as_deref(), Some("c"));
    assert_eq!(endpoint_label(&None), "https://huggingface.co");
    let o = download_options(&cfg, Some("c".to_owned()), None, true);
    assert_eq!((o.parallelism, o.force, o.hf_endpoint.as_deref()), (4, true, Some("c")));
    assert_eq!(HfSource::Mirror.url(), "https://hf-mirror.com");
    assert_eq!(HfSource::Official.label(), "Official Hugging Face — https://huggingface.co");
    assert_eq!(
        pypi_choices("https://mirrors.aliyun.com/pypi/simple/"),
        vec![PypiSource::Alibaba, PypiSource::Official, PypiSource::Tsinghua]
    );
    assert_eq!(pypi_choices("x")[0], PypiSource::Official);
    assert_eq!(pypi_choices(PypiSource::Tsinghua.url())[0].label(), "China mirror (Tsinghua University)");
    assert_eq!(comfy_source_label(ComfySource::GitHub), "Official ComfyUI repository (GitHub)");
    assert!(exports_token(HfTokenSource::Session) && !exports_token(HfTokenSource::Environment));
}

#[test]
fn catalog_files_are_merged_in_order() {
    assert_eq!(
        catalog_files(&texts(&["b.json", "a.toml", "c.txt", "toml", ".json", "d.JSON"]), false),
        texts(&["a.toml", "b.json"])
    );
    assert!(is_json_catalog("/x/a.json", false) && !is_json_catalog("/x/a.toml", false));
    assert_eq!(
        builtin_catalog_order(&texts(&[
            "workflows.json",
            "vae.json",
            "dependencies.json",
            "packages.json",
            "custom_nodes.json",
            "loras.json"
        ])),
        texts(&[
            "loras.json",
            "vae.json",
            "custom_nodes.json",
            "packages.json",
            "workflows.json",
            "dependencies.json"
        ])
    );
    assert_eq!(workflow_id("krea2-generate.json"), "krea2-generate");
    assert_eq!(workflow_id("a.json.json"), "a");
    assert_eq!(workflow_id("plain"), "plain");
}

#[test]
fn directories_are_browsed() {
    assert_eq!(
        browse_labels(&texts(&["b", "a"]), true),
        texts(&["[select this directory]", "[..]", "[a]", "[b]"])
    );
    assert_eq!(browse_labels(&Vec::new(), false), texts(&["[select this directory]"]));
    assert!(matches!(browse_choice("[select this directory]"), BrowseChoice::Here));
    assert!(matches!(browse_choice("[..]"), BrowseChoice::Up));
    assert!(matches!(browse_choice("[x y]"), BrowseChoice::Into(n) if n == "x y"));
    assert!(is_temp_dir(".comfybox-tmp") && !is_temp_dir("tmp"));
}

#[test]
fn the_system_is_described() {
    let mounts = vec![
        Mount { mount_point: "/".to_owned(), available: 5 },
        Mount { mount_point: "/data".to_owned(), available: 7 },
    ];
    assert_eq!(disk_free_for(&mounts, "/data/x", false), Some(7));
    assert_eq!(disk_free_for(&mounts, "/home", false), Some(5));
    assert_eq!(disk_free_for(&Vec::new(), "/home", false), None);
    let none = PythonFacts { dot_venv: false, venv: false };
    let own = PythonFacts { dot_venv: false, venv: true };
    assert_eq!(find_any_python("/c", false, true, own, true).as_deref(), Some("/c/venv/bin/python"));
    assert_eq!(
        find_any_python(r"\\?\C:\c", true, true, own, true).as_deref(),
        Some(r"\\?\C:\c\python_embeded\python.exe")
    );
    assert_eq!(find_any_python("/c", false, false, none, true).as_deref(), Some("python3"));
    assert_eq!(find_any_python("/c", false, false, none, false), None);
    assert_eq!(system_dependency_probe("libegl"), Some(("ldconfig", "-p")));
    assert_eq!(system_dependency_probe("ffmpeg"), Some(("ffmpeg", "-version")));
    assert_eq!(system_dependency_probe("other"), None);
    assert!(system_dependency_ready("libegl", true, false, "x libEGL.so.1 y"));
    assert!(system_dependency_ready("ffmpeg", true, true, ""));
    assert!(!system_dependency_ready("ffmpeg", false, true, ""));
    assert!(!system_dependency_ready("other", true, true, ""));
}

fn chosen(id: &str, artifacts: &[&str], nodes: &[&str]) -> InstallSelection {
    InstallSelection {
        id: id.to_owned(),
        artifact_sources: artifacts.iter().map(|a| (a.to_string(), 0)).collect(),
        custom_node_ids: texts(nodes),
    }
}

#[test]
fn selections_are_queued_and_recorded() {
    let c = catalog();
    let now = Clock { seconds: 0, nanos: 0 };
    let config = AppConfig::default();
    let mut queue = DownloadQueue::load(&config, &c, Vec::new(), None, None, now, false);
    let mut state = ManagedState::default();
    let selection = chosen("p", &["unet", "vae"], &["n2"]);
    let options = DownloadOptions::default();
    let target = SelectionTarget::Package;
    let added = install_selection(
        &c, &mut queue, &mut state, "/comfy", target, &selection, &options, now,
    );
    assert_eq!(added, Ok(2));
    assert_eq!(queue.artifact_status("vae"), Some(JobStatus::Queued));
    assert!(queue.artifact_status("lora").is_none());
    assert_eq!(queue.custom_node_status("n2"), Some(JobStatus::Queued));
    let recorded = state.packages.get("p").unwrap();
    assert_eq!(recorded.artifact_ids.to_texts(), texts(&["unet", "vae"]));
    assert_eq!(recorded.custom_node_ids.to_texts(), texts(&["n2"]));
    assert!(state.workflows.get("p").is_none());
    let single = chosen("lora", &["lora"], &[]);
    let target = SelectionTarget::Artifact;
    let added =
        install_selection(&c, &mut queue, &mut state, "/comfy", target, &single, &options, now);
    assert_eq!(added, Ok(1));
    assert!(state.packages.get("lora").is_none());
    let workflow = chosen("w", &["unet"], &["n1"]);
    let target = SelectionTarget::Workflow;
    let added =
        install_selection(&c, &mut queue, &mut state, "/comfy", target, &workflow, &options, now);
    assert_eq!(added, Ok(0));
    assert_eq!(state.workflows.get("w").unwrap().artifact_ids.to_texts(), texts(&["unet"]));
}

#[test]
fn selections_of_what_is_unknown_are_refused() {
    let c = catalog();
    let problem = |target, selection: InstallSelection| {
        order_selection(&c, target, &selection).err().unwrap()
    };
    assert_eq!(problem(SelectionTarget::Package, chosen("x", &[], &[])), "unknown package x");
    assert_eq!(problem(SelectionTarget::Workflow, chosen("x", &[], &[])), "unknown workflow x");
    let both = || chosen("p", &["x"], &["y"]);
    assert_eq!(problem(SelectionTarget::Package, both()), "unknown artifact x");
    assert_eq!(problem(SelectionTarget::Artifact, both()), "unknown artifact x");
    let flow = chosen("w", &["x"], &["y"]);
    assert_eq!(problem(SelectionTarget::Workflow, flow), "unknown custom node y");
    let order = order_selection(&c, SelectionTarget::Package, &chosen("p", &["vae"], &["n1"]));
    let order = order.ok().unwrap();
    assert_eq!(order.artifacts[0].id, "vae");
    assert_eq!(order.nodes[0].id, "n1");
}

#[test]
fn the_server_waits_for_its_dependencies() {
    assert_eq!(
        server_switch(false, true).unwrap_err(),
        "install the ComfyUI Python dependencies before starting or stopping the server"
    );
    assert_eq!(server_switch(true, true), Ok(ServerSwitch::Stop));
    assert_eq!(server_switch(true, false), Ok(ServerSwitch::Start));
}

#[test]
fn the_package_index_is_written_to_the_configuration_of_pip() {
    assert_eq!(
        pip_index_args("https://pypi.org/simple"),
        vec!["-m", "pip", "config", "set", "global.index-url", "https://pypi.org/simple"]
    );
    assert_eq!(pip_config_error(&b" no pip \n".to_vec()), "pip configuration failed: no pip");
    assert_eq!(
        pip_config_error(&vec![b'a', 0xff]),
        "pip configuration failed: a\u{fffd}"
    );
}

#[test]
fn the_doctor_reports_the_configuration() {
    let mut cfg = AppConfig::default();
    assert_eq!(
        doctor_lines(&catalog(), &cfg, None, false),
        vec![
            "catalog: 4 artifacts / 3 packages / 1 workflows",
            "ComfyUI: not configured",
            "HF endpoint: https://huggingface.co",
            "HF token: not set",
        ]
    );
    cfg.comfy_path = Some("/comfy".to_owned());
    let lines = doctor_lines(&catalog(), &cfg, Some("https://hf-mirror.com".to_owned()), true);
    assert_eq!(lines[1], "ComfyUI: /comfy");
    assert_eq!(lines[2], "HF endpoint: https://hf-mirror.com");
    assert_eq!(lines[3], "HF token: present");
}
