use comfybox::catalog::{
    Artifact, ArtifactSource, Catalog, CatalogError, CustomNode, Entry, OptionalGroup, Package,
    SystemDependency, WorkflowDefinition,
};
use comfybox::config::{AppConfig, DEFAULT_RESERVE_VRAM_BITS};
use comfybox::json::Json;

fn text(table: &toml::Table, key: &str) -> String {
    table[key].as_str().unwrap().to_owned()
}

fn catalog_from_toml(raw: &str) -> Result<Catalog, CatalogError> {
    let table: toml::Table = toml::from_str(raw).unwrap();
    let mut parsed = Catalog::default();
    for entry in table["artifacts"].as_array().unwrap() {
        let a = entry.as_table().unwrap();
        parsed.artifacts.push(Artifact {
            id: text(a, "id"),
            name: text(a, "name"),
            url: text(a, "url"),
            relative_path: text(a, "relative_path"),
            size_bytes: a.get("size_bytes").map(|n| n.as_integer().unwrap() as u64),
            sha256: None,
            gated: false,
            description: None,
            sources: Vec::new(),
        });
    }
    Catalog::from_parsed(parsed)
}

fn artifact(id: &str, path: &str, size: Option<u64>) -> Artifact {
    Artifact {
        id: id.to_owned(),
        name: id.to_uppercase(),
        url: format!("https://example.com/{id}"),
        relative_path: path.to_owned(),
        size_bytes: size,
        sha256: None,
        gated: false,
        description: None,
        sources: Vec::new(),
    }
}

fn package(id: &str, primary: &[&str], nodes: &[&str]) -> Package {
    Package {
        id: id.to_owned(),
        name: id.to_owned(),
        family: "F".to_owned(),
        description: None,
        primary_artifact_ids: primary.iter().map(|s| s.to_string()).collect(),
        dependency_artifact_ids: Vec::new(),
        custom_node_ids: nodes.iter().map(|s| s.to_string()).collect(),
        optional_groups: Vec::new(),
        discover_query: None,
    }
}

fn node(id: &str) -> CustomNode {
    CustomNode {
        id: id.to_owned(),
        name: id.to_owned(),
        git_url: "https://example.com/x.git".to_owned(),
        folder_name: id.to_owned(),
        node_types: Vec::new(),
    }
}

fn message(catalog: Catalog) -> String {
    match Catalog::from_parsed(catalog) {
        Ok(_) => "valid".to_owned(),
        Err(e) => e.message(),
    }
}

#[test]
fn legacy_artifact_url_becomes_a_visible_default_source() {
    let catalog = catalog_from_toml(
        r#"
                [[artifacts]]
                id = "model"
                name = "Model"
                url = "https://example.com/model.safetensors"
                relative_path = "models/diffusion_models/model.safetensors"
                size_bytes = 1073741824
            "#,
    )
    .ok()
    .unwrap();
    let artifact = catalog.artifact("model").unwrap();
    assert_eq!(artifact.sources.len(), 1);
    assert_eq!(artifact.sources[0].title, "Model");
    assert_eq!(artifact.sources[0].size.as_deref(), Some("1.0 GiB"));
    assert_eq!(artifact.sources[0].description, "Default catalog source");
}

#[test]
fn merge_shares_known_size_for_the_same_target_file() {
    let base = catalog_from_toml(
        r#"
                [[artifacts]]
                id = "curated"
                name = "Curated"
                url = "https://example.com/model.safetensors"
                relative_path = "models/diffusion_models/model.safetensors"
                size_bytes = 2048
            "#,
    )
    .ok()
    .unwrap();
    let incoming = catalog_from_toml(
        r#"
                [[artifacts]]
                id = "workflow-model"
                name = "Workflow model"
                url = "https://example.com/model.safetensors"
                relative_path = "models/diffusion_models/model.safetensors"
            "#,
    )
    .ok()
    .unwrap();
    let merged = base.merge(incoming).ok().unwrap();
    let artifact = merged.artifact("workflow-model").unwrap();
    assert_eq!(artifact.size_bytes, Some(2048));
    assert_eq!(artifact.sources[0].size_bytes, Some(2048));
    assert_eq!(artifact.sources[0].size.as_deref(), Some("2.0 KiB"));
}

#[test]
fn defaults_reserve_four_gib_for_comfyui() {
    assert_eq!(f32::from_bits(AppConfig::default().comfy_reserve_vram_bits), 4.0);
}

#[test]
fn legacy_config_without_reserve_gets_safe_default() {
    let value: serde_json::Value = serde_json::from_str(
        r#"{"comfy_path":null,"hf_endpoint":null,"pypi_index_url":"https://pypi.org/simple","download_parallelism":4,"chunk_size_bytes":16777216,"max_concurrent_downloads":2}"#,
    )
    .unwrap();
    let reserve = value
        .get("comfy_reserve_vram_gb")
        .and_then(|x| x.as_f64())
        .map(|x| (x as f32).to_bits())
        .unwrap_or(DEFAULT_RESERVE_VRAM_BITS);
    let config = AppConfig::load(Some(AppConfig {
        comfy_path: None,
        hf_endpoint: None,
        pypi_index_url: value["pypi_index_url"].as_str().unwrap().to_owned(),
        download_parallelism: value["download_parallelism"].as_u64().unwrap() as usize,
        chunk_size_bytes: value["chunk_size_bytes"].as_u64().unwrap(),
        max_concurrent_downloads: value["max_concurrent_downloads"].as_u64().unwrap() as usize,
        comfy_reserve_vram_bits: reserve,
    }));
    assert_eq!(f32::from_bits(config.comfy_reserve_vram_bits), 4.0);
    assert_eq!(config.max_concurrent_downloads, 2);
}

#[test]
fn zeros_in_the_configuration_are_replaced() {
    let mut saved = AppConfig::default();
    saved.download_parallelism = 0;
    saved.chunk_size_bytes = 0;
    saved.max_concurrent_downloads = 0;
    saved.pypi_index_url = String::new();
    saved.hf_endpoint = Some("https://hf-mirror.com".to_owned());
    let cfg = AppConfig::load(Some(saved));
    assert_eq!(cfg.download_parallelism, 4);
    assert_eq!(cfg.chunk_size_bytes, 16 * 1024 * 1024);
    assert_eq!(cfg.max_concurrent_downloads, 2);
    assert_eq!(cfg.pypi_index_url, "https://pypi.org/simple");
    assert_eq!(cfg.hf_endpoint.as_deref(), Some("https://hf-mirror.com"));
    assert_eq!(AppConfig::load(None).download_parallelism, 4);
    assert_eq!(AppConfig::config_path("/c", false), "/c/config.json");
    assert_eq!(AppConfig::state_path("/c", false), "/c/state.json");
    assert_eq!(AppConfig::download_queue_path("/c", false), "/c/downloads.json");
    assert_eq!(AppConfig::catalog_dir("/c", false), "/c/catalog.d");
}

#[test]
fn duplicate_identifiers_are_refused() {
    let mut c = Catalog::default();
    c.artifacts.push(artifact("a", "models/a", None));
    c.artifacts.push(artifact("a", "models/b", None));
    assert_eq!(message(c), "duplicate artifact id: a");
    let mut c = Catalog::default();
    c.custom_nodes.push(node("n"));
    c.custom_nodes.push(node("n"));
    assert_eq!(message(c), "duplicate custom node id: n");
    let mut c = Catalog::default();
    c.packages.push(package("p", &[], &[]));
    c.packages.push(package("p", &[], &[]));
    assert_eq!(message(c), "duplicate package id: p");
    let mut c = Catalog::default();
    for _ in 0..2 {
        c.workflows.push(WorkflowDefinition {
            id: "w".to_owned(),
            name: "W".to_owned(),
            file: "w.json".to_owned(),
            artifact_ids: Vec::new(),
            custom_node_ids: Vec::new(),
        });
    }
    assert_eq!(message(c), "duplicate workflow id: w");
}

#[test]
fn unknown_references_are_refused() {
    let mut c = Catalog::default();
    c.packages.push(package("p", &["x"], &[]));
    assert_eq!(message(c), "package p references unknown artifact x");
    let mut c = Catalog::default();
    c.packages.push(package("p", &[], &["n"]));
    assert_eq!(message(c), "package p references unknown custom node n");
    let mut c = Catalog::default();
    let mut p = package("p", &[], &[]);
    p.optional_groups.push(OptionalGroup {
        id: "g".to_owned(),
        name: "G".to_owned(),
        artifact_ids: vec!["y".to_owned()],
        custom_node_ids: Vec::new(),
    });
    c.packages.push(p);
    assert_eq!(message(c), "package p references unknown artifact y");
    let mut c = Catalog::default();
    c.workflows.push(WorkflowDefinition {
        id: "w".to_owned(),
        name: "W".to_owned(),
        file: "w.json".to_owned(),
        artifact_ids: vec!["x".to_owned()],
        custom_node_ids: vec!["n".to_owned()],
    });
    assert_eq!(message(c), "workflow w references unknown artifact x");
    let mut c = Catalog::default();
    c.workflows.push(WorkflowDefinition {
        id: "w".to_owned(),
        name: "W".to_owned(),
        file: "w.json".to_owned(),
        artifact_ids: Vec::new(),
        custom_node_ids: vec!["n".to_owned()],
    });
    assert_eq!(message(c), "workflow w references unknown custom node n");
    assert_eq!(Entry::CustomNode.name(), "custom node");
}

#[test]
fn later_entries_override_earlier_ones_in_place() {
    let mut base = Catalog::default();
    base.artifacts.push(artifact("a", "models/a", Some(1)));
    base.artifacts.push(artifact("b", "models/b", Some(2)));
    base.packages.push(package("p", &["a"], &[]));
    base.python_dependencies = Some(Json::Text("old".to_owned()));
    let mut other = Catalog::default();
    other.artifacts.push(artifact("c", "models/c", None));
    other.artifacts.push(artifact("a", "models/new", Some(9)));
    other.system_dependencies.push(SystemDependency {
        id: "libegl".to_owned(),
        platform: "linux".to_owned(),
        package: "libegl1".to_owned(),
        detect: "x".to_owned(),
        install: "apt-get install libegl1".to_owned(),
        required_by: Vec::new(),
    });
    let merged = base.merge(other).ok().unwrap();
    let ids: Vec<&str> = merged.artifacts.iter().map(|a| a.id.as_str()).collect();
    assert_eq!(ids, vec!["a", "b", "c"]);
    assert_eq!(merged.artifact("a").unwrap().relative_path, "models/new");
    assert_eq!(merged.artifact("a").unwrap().size_bytes, Some(9));
    assert!(merged.artifact("z").is_none());
    assert_eq!(merged.system_dependencies.len(), 1);
    assert_eq!(merged.python_dependencies.unwrap().as_str().unwrap(), "old");
}

#[test]
fn fragments_are_validated_once_they_are_merged() {
    let mut fragment = Catalog::default();
    fragment.packages.push(package("p", &["a"], &[]));
    let fragment = Catalog::from_fragment(fragment);
    let mut base = Catalog::default();
    base.artifacts.push(artifact("a", "models/a", None));
    assert!(base.merge(fragment).is_ok());
    let mut fragment = Catalog::default();
    fragment.packages.push(package("p", &["a"], &[]));
    match Catalog::default().merge(fragment) {
        Ok(_) => panic!("merged"),
        Err(e) => assert_eq!(e.message(), "package p references unknown artifact a"),
    }
}

#[test]
fn completing_sources_twice_changes_nothing() {
    let mut c = Catalog::default();
    c.artifacts.push(artifact("a", "models/a", Some(5)));
    let mut with_source = artifact("b", "models/b", None);
    with_source.sources.push(ArtifactSource {
        title: "T".to_owned(),
        url: "u".to_owned(),
        size: None,
        size_bytes: Some(2048),
        description: "D".to_owned(),
    });
    c.artifacts.push(with_source);
    c.normalize_sources();
    c.normalize_sources();
    assert_eq!(c.artifacts[0].sources.len(), 1);
    assert_eq!(c.artifacts[0].sources[0].size.as_deref(), Some("5.0 B"));
    assert_eq!(c.artifacts[1].sources.len(), 1);
    c.enrich_shared_artifact_metadata();
    c.enrich_shared_artifact_metadata();
    assert_eq!(c.artifacts[1].sources[0].size.as_deref(), Some("2.0 KiB"));
    assert_eq!(c.artifacts[1].size_bytes, None);
}
