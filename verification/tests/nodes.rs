use hive_lock::assemble::check_colmena_output;
use hive_lock::command::{build_args, colmena_args, discover_args, evaluate_args, CommandOutput};
use hive_lock::discover::{
    discover_configurations, filter_nodes, node_names, sort_configurations,
};
use hive_lock::evaluate::{
    accept_drv_path, build_system, collect_evaluations, evaluate_single_node, read_drv_path,
    thread_pool_error, validate_drv_path, EvaluationResult, ValidNode,
};

fn owned(parts: &[&str]) -> Vec<String> {
    parts.iter().map(|p| p.to_string()).collect()
}

fn printed(stdout: &[u8]) -> CommandOutput {
    CommandOutput { success: true, stdout: stdout.to_vec(), stderr: Vec::new() }
}

fn failed(stderr: &[u8]) -> CommandOutput {
    CommandOutput { success: false, stdout: Vec::new(), stderr: stderr.to_vec() }
}

fn result(name: &str) -> EvaluationResult {
    EvaluationResult {
        node_name: name.to_string(),
        drv_path: format!("/nix/store/{}.drv", name),
        system_path: None,
        duration_secs: 1,
    }
}

#[test]
fn arguments_of_nix() {
    assert_eq!(
        discover_args("."),
        owned(&[
            "eval",
            "--json",
            "--apply",
            "configs: builtins.attrNames configs",
            ".#nixosConfigurations",
        ])
    );
    assert_eq!(
        evaluate_args("git+file:x", "web"),
        owned(&[
            "eval",
            "git+file:x#nixosConfigurations.web.config.system.build.toplevel.drvPath",
            "--json",
        ])
    );
    assert_eq!(
        build_args(".", "web"),
        owned(&[
            "build",
            ".#nixosConfigurations.web.config.system.build.toplevel",
            "--no-link",
            "--print-out-paths",
        ])
    );
    assert_eq!(colmena_args("."), owned(&["eval", "--apply", "x: true", ".#colmena"]));
}

#[test]
fn configurations_come_sorted() {
    let names = discover_configurations(&printed(b"[\"web\", \"db\", \"\\u00e9\", \"cache\"]\n"));
    assert_eq!(names.unwrap(), owned(&["cache", "db", "web", "é"]));
}

#[test]
fn discovery_errors() {
    let e = discover_configurations(&failed(b"no flake\xff")).unwrap_err();
    assert_eq!(e.message(), "Failed to discover nixosConfigurations:\nno flake\u{fffd}");
    let e = discover_configurations(&printed(b"[1]")).unwrap_err();
    assert_eq!(
        e.message(),
        "Failed to parse configuration names: invalid type: integer `1`, expected a string at line 1 column 2"
    );
    let e = sort_configurations(Err("why".to_string())).unwrap_err();
    assert_eq!(e.message(), "Failed to parse configuration names: why");
}

#[test]
fn names_that_name_a_node() {
    let names = node_names(&owned(&["a", "", "b"]), |name: &String| !name.is_empty());
    assert_eq!(names, owned(&["a", "b"]));
    assert_eq!(node_names(&names, |name: &String| !name.is_empty()), names);
}

#[test]
fn rejected_names_do_not_matter_to_filters() {
    let is_node_name = |name: &String| !name.starts_with('-');
    let all = owned(&["-x", "a", "b", "-y"]);
    let rest = owned(&["a", "b"]);
    let matching = |names: Vec<String>| names.into_iter().filter(|n| n != "a").collect::<Vec<_>>();
    let matched = matching(node_names(&all, is_node_name));
    let matched_without = matching(node_names(&rest, is_node_name));
    assert_eq!(filter_nodes(&all, matched).unwrap(), owned(&["b"]));
    assert_eq!(filter_nodes(&rest, matched_without).unwrap(), owned(&["b"]));
    assert!(node_names(&owned(&["-x", "-y"]), is_node_name).is_empty());
}

#[test]
fn colmena_output_is_there_where_the_command_succeeds() {
    assert!(check_colmena_output(&printed(b"true\n")));
    assert!(check_colmena_output(&printed(b"")));
    assert!(!check_colmena_output(&failed(b"does not provide attribute 'colmena'")));
}

#[test]
fn filters_must_match() {
    let all = owned(&["a", "b"]);
    assert_eq!(filter_nodes(&all, owned(&["b"])).unwrap(), owned(&["b"]));
    let e = filter_nodes(&all, Vec::new()).unwrap_err();
    assert_eq!(e.message(), "No nodes matched the filter. Available nodes: a, b");
}

#[test]
fn derivation_paths_are_read() {
    assert_eq!(
        read_drv_path("web", &printed(b"\"/nix/store/w.drv\"\n")).unwrap(),
        "/nix/store/w.drv"
    );
    let e = read_drv_path("web", &failed(b"boom")).unwrap_err();
    assert_eq!(e.message(), "Failed to evaluate node 'web':\nboom");
    let e = read_drv_path("web", &printed(b"")).unwrap_err();
    assert_eq!(
        e.message(),
        "Failed to parse derivation path JSON: EOF while parsing a value at line 1 column 0"
    );
    let e = accept_drv_path(Err("why".to_string())).unwrap_err();
    assert_eq!(e.message(), "Failed to parse derivation path JSON: why");
}

#[test]
fn derivation_paths_are_validated() {
    assert!(validate_drv_path("/nix/store/w.drv", true).is_ok());
    let e = validate_drv_path("/tmp/w.drv", true).unwrap_err();
    assert_eq!(e.message(), "Invalid derivation path: must be in /nix/store");
    let e = validate_drv_path("/tmp/w", false).unwrap_err();
    assert_eq!(e.message(), "Invalid derivation path: must be in /nix/store");
    let e = validate_drv_path("/nix/store/w", false).unwrap_err();
    assert_eq!(e.message(), "Invalid derivation path: must end with .drv");
    let e = validate_drv_path("/nix/store/w.drv", false).unwrap_err();
    assert_eq!(e.message(), "Derivation path does not exist: /nix/store/w.drv");
}

#[test]
fn build_output_is_trimmed() {
    assert_eq!(build_system("web", printed(b" /nix/store/s\n")).unwrap(), "/nix/store/s");
    let e = build_system("web", failed(b"boom")).unwrap_err();
    assert_eq!(e.message(), "Failed to build node 'web':\nboom");
    let e = build_system("web", printed(b"a\xff")).unwrap_err();
    assert_eq!(
        e.message(),
        "Failed to parse build output: invalid utf-8 sequence of 1 bytes from index 1"
    );
}

#[test]
fn nodes_are_evaluated() {
    let node = ValidNode::check("web", "/nix/store/w.drv".to_string(), true, false).unwrap();
    assert!(node.build_command(".").is_none());
    let result = evaluate_single_node(node, None, 3).unwrap();
    assert_eq!(result.node_name, "web");
    assert_eq!(result.drv_path, "/nix/store/w.drv");
    assert_eq!(result.system_path, None);
    assert_eq!(result.duration_secs, 3);

    let node = ValidNode::check("web", "/nix/store/w.drv".to_string(), true, true).unwrap();
    assert_eq!(node.build_command("."), Some(build_args(".", "web")));
    let result = evaluate_single_node(node, Some(printed(b"/nix/store/s\n")), 3).unwrap();
    assert_eq!(result.system_path, Some("/nix/store/s".to_string()));

    let node = ValidNode::check("web", "/nix/store/w.drv".to_string(), true, true).unwrap();
    let e = evaluate_single_node(node, Some(failed(b"x")), 3).unwrap_err();
    assert_eq!(e.message(), "Failed to build node 'web':\nx");

    let e = ValidNode::check("web", "/nix/store/w".to_string(), true, true).unwrap_err();
    assert_eq!(e.message(), "Invalid derivation path: must end with .drv");
}

#[test]
fn evaluations_are_collected() {
    let outcomes = || {
        vec![
            ("a".to_string(), Ok(result("a"))),
            ("b".to_string(), Err("first")),
            ("c".to_string(), Ok(result("c"))),
            ("d".to_string(), Err("second")),
        ]
    };
    assert_eq!(collect_evaluations(outcomes(), false).unwrap_err(), "first");
    let kept = collect_evaluations(outcomes(), true).unwrap();
    let kept: Vec<String> = kept.into_iter().map(|r| r.node_name).collect();
    assert_eq!(kept, owned(&["a", "c"]));
    let all: Vec<(String, Result<EvaluationResult, String>)> =
        vec![("a".to_string(), Ok(result("a"))), ("b".to_string(), Ok(result("b")))];
    assert_eq!(collect_evaluations(all, false).unwrap().len(), 2);
    assert_eq!(thread_pool_error("x").message(), "Failed to create thread pool: x");
}
