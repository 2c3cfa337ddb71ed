use hive_lock::evaluate::EvaluationResult;
use hive_lock::generate::{Discovery, Emission, Opts, NO_CONFIGURATIONS};
use hive_lock::lock_file::load_lock_file;
use hive_lock::toml_lock::{TomlLockFile, TomlNode};

fn owned(parts: &[&str]) -> Vec<String> {
    parts.iter().map(|p| p.to_string()).collect()
}

fn result(name: &str) -> EvaluationResult {
    EvaluationResult {
        node_name: name.to_string(),
        drv_path: format!("/nix/store/{}.drv", name),
        system_path: None,
        duration_secs: 2,
    }
}

#[test]
fn default_options() {
    let opts = Opts::default();
    assert_eq!(opts.output, "hive-lock.toml");
    assert_eq!(opts.parallel, 4);
    assert!(opts.on.is_none() && opts.template.is_none());
    assert!(!opts.build && !opts.dry_run && !opts.keep_going);
}

#[test]
fn flake_without_configurations() {
    let (discovery, lines) = Discovery::begin(Opts::default());
    assert_eq!(lines, owned(&["[1/4] Discovering configurations..."]));
    let e = discovery.discovered(Vec::new()).unwrap_err();
    assert_eq!(e.message(), NO_CONFIGURATIONS);
    assert_eq!(
        e.message(),
        "No NixOS configurations found in flake\n\n\
         Hint: Add nixosConfigurations to your flake.nix:\n\
         outputs = { nixpkgs, ... }: {\n\
           nixosConfigurations.my-server = nixpkgs.lib.nixosSystem {\n\
             modules = [ ./configuration.nix ];\n\
           };\n\
         };"
    );
}

#[test]
fn lock_file_is_written() {
    let mut opts = Opts::default();
    opts.on = Some("a,c".to_string());
    opts.template = Some("t.toml".to_string());
    opts.keep_going = true;
    let (discovery, _) = Discovery::begin(opts);
    let selection = discovery.discovered(owned(&["a", "b", "c"])).unwrap();
    let (evaluation, lines) = selection.select(Some(owned(&["a", "c"]))).unwrap();
    assert_eq!(
        lines,
        owned(&[
            "  ├─ Found 3 nixosConfigurations: a, b, c",
            "  └─ Filtered to 2 nodes: a, c",
            "[2/4] Evaluating configurations...",
        ])
    );
    let outcomes: Vec<(String, Result<EvaluationResult, String>)> =
        vec![("a".to_string(), Ok(result("a"))), ("c".to_string(), Err("no".to_string()))];
    let (extraction, lines) = evaluation.evaluated(outcomes).unwrap();
    assert_eq!(
        lines,
        owned(&[
            "  └─ ⚠️  1 node(s) failed, continuing with 1 successful nodes",
            "  ├─ a: 2s",
            "      └─ /nix/store/a.drv",
            "[3/4] Extracting deployment metadata...",
        ])
    );
    let (assembly, lines) = extraction.extracted(true).unwrap();
    assert_eq!(lines, owned(&["[4/4] Generating hive-lock.toml..."]));
    let (merging, lines) =
        assembly.assembled(Some(b"abc".to_vec()), "9".to_string()).unwrap();
    assert_eq!(lines, owned(&["  ├─ Merging with template: t.toml"]));
    let mut template =
        TomlLockFile::new(String::new(), String::new(), String::new(), String::new());
    template.meta.allow_apply_all = Some(true);
    let (output, lines) = merging.merged(Some(Ok(template))).unwrap();
    assert!(lines.is_empty());
    assert_eq!(output.lock_file.meta.allow_apply_all, Some(true));
    let header = output.lock_file.header_comment();
    match output.encoded(Ok("x = 1\n".to_string())).unwrap() {
        Emission::Write { content, mode, lines, evaluated } => {
            assert_eq!(content, format!("{}x = 1\n", header));
            assert_eq!(mode, 0o644);
            assert_eq!(lines, owned(&["  ├─ Added 1 nodes", "  └─ Written to hive-lock.toml"]));
            assert_eq!(evaluated, 2);
        }
        Emission::Show { .. } => panic!("shown"),
    }
}

#[test]
fn dry_run_is_shown() {
    let mut opts = Opts::default();
    opts.dry_run = true;
    let selection = Discovery::begin(opts).0.discovered(owned(&["a"])).unwrap();
    let (evaluation, lines) = selection.select(None).unwrap();
    assert_eq!(
        lines,
        owned(&["  ├─ Found 1 nixosConfigurations: a", "[2/4] Evaluating configurations..."])
    );
    let outcomes: Vec<(String, Result<EvaluationResult, String>)> =
        vec![("a".to_string(), Ok(result("a")))];
    let extraction = evaluation.evaluated(outcomes).unwrap().0;
    let assembly = extraction.extracted(false).unwrap().0;
    let (merging, lines) = assembly.assembled(Some(Vec::new()), "9".to_string()).unwrap();
    assert!(lines.is_empty());
    let (output, lines) = merging.merged(None).unwrap();
    assert_eq!(lines, owned(&["  └─ Dry run - not writing file"]));
    let header = output.lock_file.header_comment();
    match output.encoded(Ok("x = 1\n".to_string())).unwrap() {
        Emission::Show { text, evaluated } => {
            assert_eq!(text, format!("\n{}x = 1\n", header));
            assert_eq!(evaluated, 1);
        }
        Emission::Write { .. } => panic!("written"),
    }
}

#[test]
fn course_ends_with_the_first_error() {
    let mut opts = Opts::default();
    opts.on = Some("x".to_string());
    let selection = Discovery::begin(opts).0.discovered(owned(&["a", "b"])).unwrap();
    let e = selection.select(Some(Vec::new())).unwrap_err();
    assert_eq!(e.message(), "No nodes matched the filter. Available nodes: a, b");

    let start = |template: Option<String>| {
        let mut opts = Opts::default();
        opts.template = template;
        Discovery::begin(opts).0.discovered(owned(&["a", "b"])).unwrap().select(None).unwrap().0
    };
    let outcomes = vec![
        ("a".to_string(), Err("one".to_string())),
        ("b".to_string(), Err("two".to_string())),
    ];
    assert_eq!(start(None).evaluated(outcomes).unwrap_err(), "one");

    let all = || -> Vec<(String, Result<EvaluationResult, String>)> {
        vec![("a".to_string(), Ok(result("a"))), ("b".to_string(), Ok(result("b")))]
    };
    let assembly =
        start(None).evaluated(all()).unwrap().0.extracted(true).unwrap().0;
    let e = assembly.assembled(None, "9".to_string()).unwrap_err();
    assert_eq!(e.message(), "flake.lock not found in current directory");

    let assembly = start(Some("t".to_string())).evaluated(all()).unwrap().0.extracted(true).unwrap().0;
    let merging = assembly.assembled(Some(Vec::new()), "9".to_string()).unwrap().0;
    let e = merging.merged(Some(Err("why".to_string()))).unwrap_err();
    assert_eq!(e.message(), "Failed to parse template TOML: why");

    let assembly =
        start(None).evaluated(all()).unwrap().0.extracted(true).unwrap().0;
    let output = assembly.assembled(Some(Vec::new()), "9".to_string()).unwrap().0.merged(None).unwrap().0;
    let e = output.encoded(Err("why".to_string())).unwrap_err();
    assert_eq!(e.message(), "Failed to serialize TOML: why");
}

#[test]
fn selected_nodes_are_found_in_the_generated_lock_file() {
    let mut opts = Opts::default();
    opts.template = Some("t.toml".to_string());
    let selection = Discovery::begin(opts).0.discovered(owned(&["a", "b"])).unwrap();
    let evaluation = selection.select(None).unwrap().0;
    let filtered = evaluation.filtered.clone();
    let outcomes: Vec<(String, Result<EvaluationResult, String>)> =
        filtered.iter().map(|name| (name.clone(), Ok(result(name)))).collect();
    let extraction = evaluation.evaluated(outcomes).unwrap().0;
    let assembly = extraction.extracted(true).unwrap().0;
    let merging = assembly.assembled(Some(Vec::new()), "9".to_string()).unwrap().0;
    let mut template =
        TomlLockFile::new(String::new(), String::new(), String::new(), String::new());
    template.add_node("c".to_string(), TomlNode::new("x".to_string(), "y".to_string()));
    let output = merging.merged(Some(Ok(template))).unwrap().0;
    assert!(output.lock_file.nodes.get("c").is_none());
    let found = load_lock_file(Some(&output.lock_file), &filtered, |path: &String| {
        Ok::<String, String>(path.clone())
    });
    let found = found.unwrap().unwrap();
    assert_eq!(found.len(), 2);
    assert_eq!(found.get("a").unwrap(), "/nix/store/a.drv");
    assert_eq!(found.get("b").unwrap(), "/nix/store/b.drv");
}
