use nifty::dirs::Dirs;
use nifty::json::{json_get, Json};
use nifty::lint::{
    collect_typescript_files, common_ancestor, count_severity, is_typescript_file, lint_roots, lint_verdict,
    parse_tsc_output, plural, print_issues, print_roots, push_current, should_descend, tsc_config_path, tsc_outcome,
    unique_files, write_tsc_config, LintIssue,
};

fn dirs() -> Dirs {
    Dirs {
        tmp: "/t/".to_string(),
        main_client: "/c/".to_string(),
        main_server: "/s/".to_string(),
        instance_client: "/ic/".to_string(),
        instance_server: "/is/".to_string(),
        chrome_overrides: "/co/".to_string(),
    }
}

fn issue(file: Option<&str>, line: Option<u32>, col: Option<u32>, sev: &str, code: Option<&str>, msg: &str) -> LintIssue {
    LintIssue {
        file: file.map(|f| f.to_string()),
        line,
        column: col,
        severity: sev.to_string(),
        code: code.map(|c| c.to_string()),
        message: msg.to_string(),
    }
}

fn strs(v: &[&str]) -> Vec<String> {
    v.iter().map(|s| s.to_string()).collect()
}

#[test]
fn tsc_output_is_parsed_into_issues() {
    let out = "src/a.ts(3,5): error TS2322: Type 'x' is wrong.\n  more detail  \n\nerror TS5023: Unknown option.\nsrc/b.ts(10,1): warning TS6133: unused\n";
    let issues = parse_tsc_output(out).unwrap();
    assert_eq!(issues.len(), 3);
    assert_eq!(issues[0].file.as_deref(), Some("src/a.ts"));
    assert_eq!(issues[0].line, Some(3));
    assert_eq!(issues[0].column, Some(5));
    assert_eq!(issues[0].severity, "error");
    assert_eq!(issues[0].code.as_deref(), Some("TS2322"));
    assert_eq!(issues[0].message, "Type 'x' is wrong.\nmore detail");
    assert_eq!(issues[1].file, None);
    assert_eq!(issues[1].code.as_deref(), Some("TS5023"));
    assert_eq!(issues[1].message, "Unknown option.");
    assert_eq!(issues[2].severity, "warning");
    assert_eq!(count_severity(&issues, "error"), 2);
    assert_eq!(count_severity(&issues, "warning"), 1);
}

#[test]
fn text_before_any_diagnostic_is_ignored() {
    assert!(parse_tsc_output("Version 5.0\n\n").unwrap().is_empty());
}

#[test]
fn pending_issue_is_flushed() {
    let mut issues = Vec::new();
    let mut current = Some(issue(None, None, None, "error", None, "m"));
    push_current(&mut issues, &mut current);
    assert!(current.is_none());
    assert_eq!(issues.len(), 1);
    push_current(&mut issues, &mut current);
    assert_eq!(issues.len(), 1);
}

#[test]
fn verdicts() {
    assert_eq!(plural(1), "");
    assert_eq!(plural(0), "s");
    assert_eq!(lint_verdict(&vec![], true), Ok(()));
    assert_eq!(lint_verdict(&vec![], false), Err("tsc failed without parseable diagnostics".to_string()));
    let issues = vec![issue(Some("a.ts"), Some(1), Some(1), "error", Some("TS1"), "x")];
    assert_eq!(lint_verdict(&issues, true), Err("lint found 1 error and 0 warnings".to_string()));
}

#[test]
fn tsc_run_outcome() {
    assert_eq!(tsc_outcome("out", "err", false, "exit status: 2"), Ok(("outerr".to_string(), false)));
    assert_eq!(tsc_outcome(" ", "\n", false, "exit status: 2"), Err("tsc failed with status exit status: 2".to_string()));
    assert_eq!(tsc_outcome("", "", true, "exit status: 0"), Ok((String::new(), true)));
}

#[test]
fn roots_and_walk_rules() {
    let roots = lint_roots(&dirs());
    assert_eq!(roots[1], ("core server".to_string(), "/s/src/".to_string()));
    assert_eq!(roots[3], ("instance server".to_string(), "/is/".to_string()));
    assert_eq!(print_roots(&roots)[0], "Roots:");
    assert_eq!(print_roots(&roots)[1], "  \u{2022} core client     /c/");
    assert!(!should_descend("node_modules"));
    assert!(!should_descend(".git"));
    assert!(should_descend("src"));
    assert!(is_typescript_file("/a/b.tsx"));
    assert!(is_typescript_file("/a/b.mts"));
    assert!(!is_typescript_file("/a/b.js"));
    assert!(!is_typescript_file("/a/ts"));
    assert_eq!(tsc_config_path(&dirs(), 77), "/t/configs/nifty-lint-tsconfig-77.json");
}

#[test]
fn working_directory_is_deepest_common_ancestor() {
    assert_eq!(common_ancestor(&strs(&["/a/b/c", "/a/b/d/e"])), Some("/a/b".to_string()));
    assert_eq!(common_ancestor(&strs(&["/a/b/c"])), Some("/a/b/c".to_string()));
    assert_eq!(common_ancestor(&strs(&["/a/b", "/x"])), Some("/".to_string()));
    assert_eq!(common_ancestor(&vec![]), None);
}

#[test]
fn issue_report() {
    let issues = vec![
        issue(Some("a.ts"), Some(3), Some(5), "error", Some("TS2322"), "bad\nworse"),
        issue(Some("a.ts"), Some(12), Some(1), "warning", Some("TS6133"), "unused"),
        issue(None, None, None, "error", None, "global"),
    ];
    let lines = print_issues(&issues, "raw");
    assert_eq!(
        lines,
        strs(&[
            "\n\u{2717} Found 2 errors and 1 warning:\n",
            "a.ts",
            "  \u{2716}      3:5 TS2322 bad",
            "             worse",
            "  \u{26a0}     12:1 TS6133 unused",
            "<global>",
            "  \u{2716}        - TS global",
        ])
    );
    assert_eq!(print_issues(&vec![], ""), strs(&["\n\u{2713} No TypeScript errors or warnings found."]));
    assert_eq!(print_issues(&vec![], "x"), strs(&["\nTypeScript output:\nx"]));
}

#[test]
fn files_are_deduplicated_in_first_found_order() {
    assert_eq!(unique_files(&strs(&["b", "a", "b", "c", "a"])), strs(&["b", "a", "c"]));
}

#[test]
fn typescript_files_are_filtered_deduplicated_and_sorted_by_path() {
    let found = strs(&["/c/b.ts", "/c/a.ts", "/c/x.js", "/c/a.ts", "/c/a/z.ts", "/c/a-b.ts", "/c/d.d.mts"]);
    assert_eq!(
        collect_typescript_files(&found),
        strs(&["/c/a/z.ts", "/c/a-b.ts", "/c/a.ts", "/c/b.ts", "/c/d.d.mts"])
    );
}

#[test]
fn checker_configuration() {
    let cfg = write_tsc_config(&strs(&["/c/a.ts", "/c/b.ts"]));
    match json_get(&cfg, "files") {
        Some(Json::Array(items)) => {
            assert_eq!(items.len(), 2);
            assert!(matches!(&items[1], Json::Str(s) if s == "/c/b.ts"));
        },
        other => panic!("unexpected {:?}", other),
    }
    let opts = json_get(&cfg, "compilerOptions").unwrap();
    assert!(matches!(json_get(opts, "noEmit"), Some(Json::Bool(true))));
    assert!(matches!(json_get(opts, "strict"), Some(Json::Bool(false))));
    assert!(matches!(json_get(opts, "module"), Some(Json::Str(s)) if s == "NodeNext"));
}
