use hive_lock::order::{not_after, sort_names};
use hive_lock::report::{
    list_names, report_completion, report_failed, report_progress, report_results,
    report_selection, report_written,
};
use hive_lock::evaluate::EvaluationResult;
use hive_lock::text::{
    decimal_text, ends_with, is_white_space, join_all, join_first, starts_with, trim,
};

fn names(count: usize) -> Vec<String> {
    (0..count).map(|i| format!("n{}", i)).collect()
}

fn owned(parts: &[&str]) -> Vec<String> {
    parts.iter().map(|p| p.to_string()).collect()
}

#[test]
fn decimals() {
    for n in [0u64, 7, 9, 10, 11, 99, 100, 1234567890, u64::MAX] {
        assert_eq!(decimal_text(n), n.to_string());
    }
}

#[test]
fn joins() {
    let parts = owned(&["a", "b", "c"]);
    assert_eq!(join_all(&parts, ", "), "a, b, c");
    assert_eq!(join_first(&parts, 2, "-"), "a-b");
    assert_eq!(join_first(&parts, 0, "-"), "");
    assert_eq!(join_all(&[], ", "), "");
}

#[test]
fn prefixes_and_suffixes() {
    assert!(starts_with("/nix/store/x", "/nix/store/"));
    assert!(!starts_with("/nix/stor", "/nix/store/"));
    assert!(!starts_with("x/nix/store/", "/nix/store/"));
    assert!(ends_with("héé.drv", ".drv"));
    assert!(!ends_with("drv", ".drv"));
    assert!(ends_with("abc", ""));
}

#[test]
fn white_space_is_that_of_unicode() {
    for u in 0..=0x10ffffu32 {
        if let Some(c) = char::from_u32(u) {
            assert_eq!(is_white_space(c), c.is_whitespace());
        }
    }
}

#[test]
fn trims() {
    for s in ["", "  ", "a", " a b \n", "\u{2003}é\u{a0}", "x\n\n", "\t\t/nix/store/p\r\n"] {
        assert_eq!(trim(s), s.trim());
    }
}

#[test]
fn sorts_like_std() {
    let given = owned(&["web", "db", "é", "z", "", "web", "Web", "w", "web-2", "\u{10000}", "\u{ffff}"]);
    let mut expected = given.clone();
    expected.sort();
    assert_eq!(sort_names(given), expected);
    assert!(not_after("a", "a"));
    assert!(not_after("a", "ab"));
    assert!(!not_after("b", "ab"));
}

#[test]
fn listings() {
    assert_eq!(list_names(&names(3)), "n0, n1, n2");
    assert_eq!(list_names(&names(10)), "n0, n1, n2, n3, n4, n5, n6, n7, n8, n9");
    assert_eq!(list_names(&names(11)), "n0, n1, n2, n3, n4, ... (6 more)");
}

#[test]
fn selection_report() {
    let all = names(12);
    assert_eq!(
        report_selection(&all, &all),
        vec!["  ├─ Found 12 nixosConfigurations: n0, n1, n2, n3, n4, ... (7 more)".to_string()]
    );
    assert_eq!(
        report_selection(&all, &names(2)),
        vec![
            "  ├─ Found 12 nixosConfigurations: n0, n1, n2, n3, n4, ... (7 more)".to_string(),
            "  └─ Filtered to 2 nodes: n0, n1".to_string(),
        ]
    );
}

#[test]
fn other_reports() {
    assert_eq!(report_progress(1, 12, "web", None), "  ├─ [1/12] web: ✓");
    assert_eq!(
        report_progress(2, 12, "db", Some("bad".to_string())),
        "  ├─ [2/12] db: ✗ (bad)"
    );
    assert_eq!(
        report_failed(2, 3),
        "  └─ ⚠️  2 node(s) failed, continuing with 3 successful nodes"
    );
    let result = EvaluationResult {
        node_name: "web".to_string(),
        drv_path: "/nix/store/w.drv".to_string(),
        system_path: None,
        duration_secs: 17,
    };
    assert_eq!(
        report_results(&[result]),
        vec!["  ├─ web: 17s".to_string(), "      └─ /nix/store/w.drv".to_string()]
    );
    assert_eq!(
        report_written(4, "out.toml"),
        vec!["  ├─ Added 4 nodes".to_string(), "  └─ Written to out.toml".to_string()]
    );
    assert_eq!(
        report_completion(4, 90),
        vec!["\n✓ Generation completed in 90s".to_string(), "  └─ Evaluated 4 nodes".to_string()]
    );
}
