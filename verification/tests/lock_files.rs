use hive_lock::assemble::{
    assemble_lock_file, build_lock_file, extract_deployment_metadata, gather_deployments,
    hash_flake_lock, hex_text, record_deployment,
};
use hive_lock::evaluate::EvaluationResult;
use hive_lock::lock_file::{accept_lock_file, load_lock_file};
use hive_lock::merge::{merge_with_template, serialize_lock_file, LOCK_FILE_MODE};
use hive_lock::name_map::NameMap;
use hive_lock::toml_lock::{TomlDefaults, TomlDeployment, TomlLockFile, TomlNode};

fn owned(parts: &[&str]) -> Vec<String> {
    parts.iter().map(|p| p.to_string()).collect()
}

fn result(name: &str, drv: &str) -> EvaluationResult {
    EvaluationResult {
        node_name: name.to_string(),
        drv_path: drv.to_string(),
        system_path: None,
        duration_secs: 1,
    }
}

fn on_port(port: u16) -> TomlDeployment {
    TomlDeployment {
        target_host: None,
        target_user: None,
        target_port: Some(port),
        tags: None,
        build_on_target: None,
        allow_local_deployment: None,
        replace_unknown_profiles: None,
        privilege_escalation_command: None,
        extra_ssh_options: None,
        keys: None,
    }
}

fn port(node: &TomlNode) -> Option<u16> {
    node.deployment.as_ref().and_then(|d| d.target_port)
}

fn built() -> TomlLockFile {
    let mut deployments = NameMap::new();
    deployments.insert("web".to_string(), on_port(22));
    assemble_lock_file(
        vec![
            result("web", "/nix/store/old.drv"),
            result("db", "/nix/store/db.drv"),
            result("web", "/nix/store/web.drv"),
        ],
        &deployments,
        "sha256:x".to_string(),
        "2024-05-01T10:00:00+00:00".to_string(),
        "1.2.3".to_string(),
    )
}

fn template() -> TomlLockFile {
    TomlLockFile::new(
        "hand".to_string(),
        "never".to_string(),
        "none".to_string(),
        "0".to_string(),
    )
}

#[test]
fn hexadecimal() {
    assert_eq!(hex_text(&[]), "");
    assert_eq!(hex_text(&[10, 20, 30]), "0a141e");
    assert_eq!(hex_text(&[0, 255, 0x5b]), "00ff5b");
}

#[test]
fn flake_lock_is_hashed() {
    assert_eq!(
        hash_flake_lock(Some(b"abc".to_vec())).unwrap(),
        "sha256:ba7816bf8f01cfea414140de5dae2223b00361a396177a9cb410ff61f20015ad"
    );
    assert_eq!(
        hash_flake_lock(Some(Vec::new())).unwrap(),
        "sha256:e3b0c44298fc1c149afbf4c8996fb92427ae41e4649b934ca495991b7852b855"
    );
    let e = hash_flake_lock(None).unwrap_err();
    assert_eq!(e.message(), "flake.lock not found in current directory");
}

#[test]
fn deployments_are_recorded() {
    assert!(extract_deployment_metadata().unwrap().is_none());
    let mut deployments = NameMap::new();
    let mut lines = Vec::new();
    record_deployment(&mut deployments, &mut lines, "web", None);
    assert_eq!((deployments.len(), lines.len()), (0, 0));
    record_deployment(&mut deployments, &mut lines, "web", Some(on_port(7)));
    assert_eq!(deployments.get("web").unwrap().target_port, Some(7));
    assert_eq!(lines, owned(&["  ├─ web: found in colmena output"]));
    for has_colmena in [false, true] {
        let (none, lines) = gather_deployments(&owned(&["web", "db"]), has_colmena).unwrap();
        assert_eq!((none.len(), lines.len()), (0, 0));
    }
}

#[test]
fn assembled_nodes_are_the_last_results() {
    let lock = built();
    assert_eq!(lock.meta.generated_from, "flake.nix");
    assert_eq!(lock.meta.generator_version, "1.2.3");
    assert_eq!(lock.nodes.len(), 2);
    let web = lock.nodes.get("web").unwrap();
    assert_eq!(web.system_drv, "/nix/store/web.drv");
    assert_eq!(web.flake_attr, "nixosConfigurations.web");
    assert_eq!(port(web), Some(22));
    let db = lock.nodes.get("db").unwrap();
    assert!(db.deployment.is_none());
    assert!(db.system_config.is_none());
}

#[test]
fn built_lock_file_holds_hash_and_time() {
    let mut with_path = result("web", "/nix/store/web.drv");
    with_path.system_path = Some("/nix/store/system".to_string());
    let lock = build_lock_file(
        vec![with_path],
        &NameMap::new(),
        Some(b"abc".to_vec()),
        "1.2.3".to_string(),
    )
    .unwrap();
    assert_eq!(
        lock.meta.flake_lock_hash,
        "sha256:ba7816bf8f01cfea414140de5dae2223b00361a396177a9cb410ff61f20015ad"
    );
    let at = &lock.meta.generated_at;
    assert!(at.ends_with("+00:00"));
    assert!(matches!(at.len(), 25 | 29 | 32 | 35));
    let shape: String =
        at.chars().map(|c| if c.is_ascii_digit() { 'd' } else { c }).take(19).collect();
    assert_eq!(shape, "dddd-dd-ddTdd:dd:dd");
    let fraction = &at[19..at.len() - 6];
    assert!(fraction.is_empty() || fraction.starts_with('.'));
    assert!(fraction.chars().skip(1).all(|c| c.is_ascii_digit()));
    assert!(chrono::DateTime::parse_from_rfc3339(at).is_ok());
    assert_eq!(
        lock.nodes.get("web").unwrap().system_config,
        Some("/nix/store/system".to_string())
    );
    let table: toml::Table = lock.header_comment().parse().unwrap();
    assert!(table.is_empty());
    let e = build_lock_file(Vec::new(), &NameMap::new(), None, String::new()).unwrap_err();
    assert_eq!(e.message(), "flake.lock not found in current directory");
}

#[test]
fn template_decides_what_it_states() {
    let mut t = template();
    t.meta.allow_apply_all = Some(false);
    t.defaults = Some(TomlDefaults { deployment: Some(on_port(1)) });
    let mut web = TomlNode::new("other".to_string(), "other".to_string());
    web.system_config = Some("other".to_string());
    web.deployment = Some(on_port(99));
    t.add_node("web".to_string(), web);
    t.add_node("db".to_string(), TomlNode::new("other".to_string(), "other".to_string()));
    let mut absent = TomlNode::new("other".to_string(), "other".to_string());
    absent.deployment = Some(on_port(5));
    t.add_node("absent".to_string(), absent);

    let merged = merge_with_template(built(), t.clone());
    assert_eq!(merged.meta.allow_apply_all, Some(false));
    assert_eq!(merged.meta.generated_from, "flake.nix");
    assert_eq!(merged.schema_version, "1.0");
    let defaults = merged.defaults.as_ref().unwrap();
    assert_eq!(defaults.deployment.as_ref().unwrap().target_port, Some(1));
    assert_eq!(merged.nodes.len(), 2);
    let web = merged.nodes.get("web").unwrap();
    assert_eq!(port(web), Some(99));
    assert_eq!(web.system_drv, "/nix/store/web.drv");
    assert_eq!(web.flake_attr, "nixosConfigurations.web");
    assert!(web.system_config.is_none());
    assert_eq!(port(merged.nodes.get("db").unwrap()), None);

    let again = merge_with_template(merged.clone(), t);
    assert_eq!(again.meta.allow_apply_all, merged.meta.allow_apply_all);
    assert_eq!(again.nodes.len(), merged.nodes.len());
    assert_eq!(port(again.nodes.get("web").unwrap()), Some(99));
}

#[test]
fn silent_template_changes_nothing() {
    let mut lock = built();
    lock.meta.allow_apply_all = Some(true);
    let mut t = template();
    t.add_node("web".to_string(), TomlNode::new("other".to_string(), "other".to_string()));
    let merged = merge_with_template(lock.clone(), t);
    assert_eq!(format!("{:?}", merged), format!("{:?}", lock));
}

#[test]
fn text_is_header_and_encoding() {
    let lock = built();
    let text = serialize_lock_file(&lock, Ok("a = 1\n".to_string())).unwrap();
    assert_eq!(text, format!("{}a = 1\n", lock.header_comment()));
    let e = serialize_lock_file(&lock, Err("why".to_string())).unwrap_err();
    assert_eq!(e.message(), "Failed to serialize TOML: why");
    assert_eq!(LOCK_FILE_MODE, 0o644);
}

#[test]
fn text_decodes_as_its_encoding() {
    let lock = built();
    let encoding = "schema_version = \"1\"\n\n[nodes.web]\nsystem_drv = \"/nix/store/web.drv\"\n";
    let text = serialize_lock_file(&lock, Ok(encoding.to_string())).unwrap();
    assert_ne!(text, encoding);
    let decoded: toml::Table = text.parse().unwrap();
    assert_eq!(decoded, encoding.parse::<toml::Table>().unwrap());
    assert_eq!(decoded["nodes"]["web"]["system_drv"].as_str(), Some("/nix/store/web.drv"));
}

#[test]
fn locked_paths_name_derivations() {
    let mut t = template();
    t.add_node("db".to_string(), TomlNode::new("/tmp/other".to_string(), "x".to_string()));
    let lock = merge_with_template(built(), t);
    for (_, node) in lock.nodes.entries() {
        assert!(node.system_drv.starts_with("/nix/store/") && node.system_drv.ends_with(".drv"));
    }
    assert_eq!(lock.nodes.get("db").unwrap().system_drv, "/nix/store/db.drv");
}

fn parse(path: &String) -> Result<String, String> {
    if path.starts_with("/nix/store/") {
        Ok(format!("drv {}", path))
    } else {
        Err(format!("bad {}", path))
    }
}

#[test]
fn derivations_are_loaded_back() {
    let lock = merge_with_template(built(), template());
    let found = load_lock_file(Some(&lock), &owned(&["db", "web", "db"]), parse).unwrap().unwrap();
    assert_eq!(found.len(), 2);
    assert_eq!(found.get("web").unwrap(), "drv /nix/store/web.drv");
    assert_eq!(found.get("db").unwrap(), "drv /nix/store/db.drv");
    assert_eq!(load_lock_file(Some(&lock), &[], parse).unwrap().unwrap().len(), 0);
}

#[test]
fn nothing_is_loaded_where_something_is_missing() {
    let lock = built();
    assert!(load_lock_file(None, &owned(&["web"]), parse).unwrap().is_none());
    assert!(load_lock_file(Some(&lock), &owned(&["web", "new"]), parse).unwrap().is_none());
}

#[test]
fn first_fault_decides() {
    let mut lock = built();
    lock.add_node("bad".to_string(), TomlNode::new("/tmp/x".to_string(), "f".to_string()));
    let e = load_lock_file(Some(&lock), &owned(&["web", "bad", "new"]), parse).unwrap_err();
    assert_eq!(e, "bad /tmp/x");
    assert!(load_lock_file(Some(&lock), &owned(&["new", "bad"]), parse).unwrap().is_none());
}

#[test]
fn unparsable_lock_file() {
    let e = accept_lock_file("hive-lock.toml", Err("why".to_string())).unwrap_err();
    assert_eq!(e.message(), "Failed to parse hive-lock.toml: why");
    assert_eq!(accept_lock_file("x", Ok(built())).unwrap().nodes.len(), 2);
}
