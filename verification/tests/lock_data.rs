use hive_lock::name_map::NameMap;
use hive_lock::toml_lock::{
    Key, TomlDefaults, TomlDeployment, TomlLockFile, TomlNode, SCHEMA_VERSION,
};

fn lock() -> TomlLockFile {
    TomlLockFile::new(
        "flake.nix".to_string(),
        "2024-05-01T10:00:00+00:00".to_string(),
        "sha256:00".to_string(),
        "0.5.0".to_string(),
    )
}

fn deployment() -> TomlDeployment {
    let mut keys = NameMap::new();
    keys.insert("token".to_string(), Key { content: "user = \"root\"\n".to_string() });
    TomlDeployment {
        target_host: Some("web.example.org".to_string()),
        target_user: None,
        target_port: Some(2222),
        tags: Some(vec!["web".to_string(), "prod".to_string()]),
        build_on_target: Some(true),
        allow_local_deployment: None,
        replace_unknown_profiles: Some(false),
        privilege_escalation_command: Some(vec!["doas".to_string()]),
        extra_ssh_options: None,
        keys: Some(keys),
    }
}

#[test]
fn new_lock_file_has_metadata_and_no_nodes() {
    let lock = lock();
    assert_eq!(SCHEMA_VERSION, "1.0");
    assert_eq!(lock.schema_version, "1.0");
    assert_eq!(lock.meta.generated_from, "flake.nix");
    assert_eq!(lock.meta.generated_at, "2024-05-01T10:00:00+00:00");
    assert_eq!(lock.meta.flake_lock_hash, "sha256:00");
    assert_eq!(lock.meta.generator_version, "0.5.0");
    assert_eq!(lock.meta.allow_apply_all, None);
    assert!(lock.defaults.is_none());
    assert_eq!(lock.nodes.len(), 0);
}

#[test]
fn new_node_has_required_fields() {
    let node = TomlNode::new("/nix/store/a.drv".to_string(), "nixosConfigurations.a".to_string());
    assert_eq!(node.system_drv, "/nix/store/a.drv");
    assert_eq!(node.flake_attr, "nixosConfigurations.a");
    assert!(node.system_config.is_none());
    assert!(node.deployment.is_none());
}

#[test]
fn added_node_replaces_the_one_of_its_name() {
    let mut lock = lock();
    lock.add_node("a".to_string(), TomlNode::new("one".to_string(), "x".to_string()));
    lock.add_node("b".to_string(), TomlNode::new("two".to_string(), "y".to_string()));
    lock.add_node("a".to_string(), TomlNode::new("three".to_string(), "z".to_string()));
    assert_eq!(lock.nodes.len(), 2);
    assert_eq!(lock.nodes.get("a").unwrap().system_drv, "three");
    assert_eq!(lock.nodes.get("b").unwrap().system_drv, "two");
    assert!(lock.nodes.get("c").is_none());
}

#[test]
fn header_comment_names_source_and_time() {
    assert_eq!(
        lock().header_comment(),
        "# hive-lock.toml\n\
         # Auto-generated lock file - DO NOT EDIT MANUALLY\n\
         # Generated from: flake.nix\n\
         # Generated at: 2024-05-01T10:00:00+00:00\n\
         # Regenerate with: colmena generate-toml\n\n"
    );
}

#[test]
fn header_is_a_toml_comment() {
    let lock = lock();
    let text = lock.header_comment();
    assert!(text.ends_with('\n'));
    for line in text.lines() {
        assert!(line.is_empty() || line.starts_with('#'));
    }
    let table: toml::Table = text.parse().unwrap();
    assert!(table.is_empty());
}

#[test]
fn clones_say_the_same() {
    let mut lock = lock();
    lock.defaults = Some(TomlDefaults { deployment: Some(deployment()) });
    let mut node = TomlNode::new("d".to_string(), "f".to_string());
    node.system_config = Some("s".to_string());
    node.deployment = Some(deployment());
    lock.add_node("web".to_string(), node);
    let copy = lock.clone();
    assert_eq!(format!("{:?}", copy), format!("{:?}", lock));
    let keys = copy.nodes.get("web").unwrap().deployment.as_ref().unwrap().keys.as_ref().unwrap();
    assert_eq!(keys.get("token").unwrap().content, "user = \"root\"\n");
}

#[test]
fn name_map_has_one_entry_for_each_name() {
    let mut map: NameMap<u32> = NameMap::new();
    map.insert("b".to_string(), 1);
    map.insert("a".to_string(), 2);
    map.insert("c".to_string(), 3);
    map.insert("b".to_string(), 4);
    assert_eq!(map.len(), 3);
    let mut entries = map.entries().clone();
    entries.sort();
    assert_eq!(
        entries,
        vec![("a".to_string(), 2), ("b".to_string(), 4), ("c".to_string(), 3)]
    );
    assert_eq!(map.remove("a"), Some(2));
    assert_eq!(map.remove("a"), None);
    assert_eq!(map.get("a"), None);
    assert_eq!(map.get("c"), Some(&3));
    let mut copied = map.clone().into_entries();
    copied.sort();
    assert_eq!(copied, vec![("b".to_string(), 4), ("c".to_string(), 3)]);
    assert_eq!(map.len(), 2);
}
