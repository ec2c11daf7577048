use nifty::bundle::{
    bundle_list, esbuild_args, extract_static_load, generate_lazy_list, minified_viewloads, set_gen_list, views_dirs,
    viewloads_source, ClassElementInfo, ClassProperty, LazyDir, ListedEntry, TopLevelInfo,
};
use nifty::devbuild::{handle_core, handle_css_files, handle_lazy, reset_dev_dirs, BuildTask, CoreStep};
use nifty::dirs::Dirs;
use nifty::helpers::{
    chrome_overrides_root, compile_single_ts, copy_deep, copy_deep_pattern, copy_if_changed, handle_server_js,
    handle_thirdparty_js, is_saved_css, process_file as override_target, run_swc, run_swc_cli, FileStamp,
    InvocationError,
};
use nifty::initial::{
    dist_summary, is_component_module, is_skip_entry, is_view_module, process_file, process_js,
    process_js_html_css_combined, process_js_parts_import_statements, process_minify_js, record_js, write_js_path,
    OutputKind, PartDir, ProcessedStatsT,
};

fn dirs() -> Dirs {
    Dirs {
        tmp: "/t/".to_string(),
        main_client: "/c/".to_string(),
        main_server: "/s/".to_string(),
        instance_client: "/ic/".to_string(),
        instance_server: "/is/".to_string(),
        chrome_overrides: "/co/".to_string(),
    }
}

fn strs(v: &[&str]) -> Vec<String> {
    v.iter().map(|s| s.to_string()).collect()
}

fn swc_of(t: &BuildTask) -> (String, String, Vec<String>) {
    match t {
        BuildTask::Swc { src, dest, globs } => (src.clone(), dest.clone(), globs.clone()),
        other => panic!("not a compile task: {:?}", other),
    }
}

#[test]
fn core_build_phases() {
    let steps = handle_core(&dirs(), 0);
    assert_eq!(steps.len(), 3);
    assert!(matches!(steps[0], CoreStep::Manifest));
    assert!(matches!(steps[2], CoreStep::IndexAndMain));
    let steps = handle_core(&dirs(), 4);
    assert_eq!(steps.len(), 4);
    assert!(matches!(steps[3], CoreStep::DevVersionStamps));
}

#[test]
fn core_build_tasks() {
    let steps = handle_core(&dirs(), 0);
    let tasks = match &steps[1] {
        CoreStep::SideBySide(tasks) => tasks,
        other => panic!("unexpected {:?}", other),
    };
    assert_eq!(tasks.len(), 5);
    assert_eq!(
        swc_of(&tasks[0]),
        ("/c/".to_string(), "/s/static_dev/".to_string(), strs(&["sw.ts", "shared_worker.ts", "main.ts", "alwaysload/**/*", "defs*.ts"]))
    );
    assert_eq!(
        swc_of(&tasks[1]),
        ("/ic/".to_string(), "/s/static_dev/instance/".to_string(), strs(&["main.ts", "alwaysload/**/*", "defs*.ts"]))
    );
    match &tasks[4] {
        BuildTask::CopyIfChanged { src, dest } => {
            assert_eq!(src, "/ic/icons.css");
            assert_eq!(dest, "/s/static_dev/instance/icons.css");
        },
        other => panic!("unexpected {:?}", other),
    }
    assert_eq!(handle_css_files(&dirs()).len(), 3);
}

#[test]
fn lazy_build_tasks() {
    let tasks = handle_lazy(&dirs());
    assert_eq!(swc_of(&tasks[0]).2, strs(&["lazy/**/*"]));
    match &tasks[3] {
        BuildTask::CopyDeep { src, dest, glob, skip } => {
            assert_eq!(src, "/ic/lazy/");
            assert_eq!(dest, "/s/static_dev/instance/lazy/");
            assert_eq!(glob, "**/*");
            assert_eq!(skip, "**/*.ts");
        },
        other => panic!("unexpected {:?}", other),
    }
}

#[test]
fn server_thirdparty_and_media_tasks() {
    let server = nifty::server::runit(&dirs());
    assert_eq!(swc_of(&server[0]), ("/s/src/".to_string(), "/s/build/".to_string(), strs(&["*.ts"])));
    assert_eq!(swc_of(&server[1]), ("/is/".to_string(), "/s/build/instance/".to_string(), strs(&["**/*.ts"])));
    match &nifty::thirdparty::runit(&dirs())[1] {
        BuildTask::BundleThirdParty { src, dest } => {
            assert_eq!(src, "/ic/thirdparty/");
            assert_eq!(dest, "/s/static_dev/instance/thirdparty/");
        },
        other => panic!("unexpected {:?}", other),
    }
    match &nifty::media::runit(&dirs())[0] {
        BuildTask::CopyDeep { src, dest, glob, skip } => {
            assert_eq!(src, "/c/media/");
            assert_eq!(dest, "/s/static_dev/media/");
            assert_eq!(glob, "**/*");
            assert_eq!(skip, "_____");
        },
        other => panic!("unexpected {:?}", other),
    }
    let (gone, made) = reset_dev_dirs(&dirs());
    assert_eq!(gone, strs(&["/s/static_dev/", "/s/build/"]));
    assert_eq!(made, strs(&["/s/static_dev/", "/s/build/", "/s/static_dev/instance/"]));
}

fn stamp(len: u64, modified: Option<i128>) -> Option<FileStamp> {
    Some(FileStamp { len, modified })
}

#[test]
fn copy_only_when_out_of_date() {
    assert!(!copy_if_changed(stamp(3, Some(5)), stamp(3, Some(5))));
    assert!(!copy_if_changed(stamp(3, Some(5)), stamp(3, Some(9))));
    assert!(copy_if_changed(stamp(3, Some(9)), stamp(3, Some(5))));
    assert!(copy_if_changed(stamp(3, Some(5)), stamp(4, Some(9))));
    assert!(copy_if_changed(stamp(3, None), stamp(3, Some(9))));
    assert!(copy_if_changed(stamp(3, Some(5)), None));
    assert!(copy_if_changed(None, stamp(3, Some(5))));
}

#[test]
fn tree_copy_plan() {
    assert_eq!(copy_deep_pattern("/c/media/", "**/*"), "/c/media/**/*");
    let files = strs(&["/c/lazy/a.css", "/c/lazy/v/b.ts", "/c/lazy/v/c.html"]);
    let plan = copy_deep("/c/lazy/", "/s/static_dev/lazy/", "**/*.ts", &files).unwrap();
    assert_eq!(
        plan,
        vec![
            ("/c/lazy/a.css".to_string(), "/s/static_dev/lazy/a.css".to_string()),
            ("/c/lazy/v/c.html".to_string(), "/s/static_dev/lazy/v/c.html".to_string()),
        ]
    );
    let all = copy_deep("/c/lazy/", "/d/", "_____", &files).unwrap();
    assert_eq!(all.len(), 3);
    let err = copy_deep("/c/lazy/", "/d/", "_____", &strs(&["/c/lazy/a", "/other/x"])).unwrap_err();
    assert_eq!(err.path, "/other/x");
}

#[test]
fn compiler_invocations() {
    let globs = vec!["main.ts", "lazy/**/*"];
    let inv = run_swc("/c/", "/s/static_dev/", "/t/configs/swcrc", &globs).unwrap();
    assert_eq!(inv.cwd, "/");
    assert_eq!(
        inv.args,
        strs(&["c", "-d", "/s/static_dev", "--config-file", "/t/configs/swcrc", "--strip-leading-paths", "--only", "c/main.ts", "--only", "c/lazy/**/*"])
    );
    assert_eq!(run_swc("/", "/d/", "x", &globs).unwrap_err(), InvocationError::NoFolderName);
    let server = handle_server_js("/s/src/", "/s/build/", "/t/configs/swcrc", &vec!["*.ts"]).unwrap();
    assert_eq!(server.cwd, "/s");
    assert_eq!(server.args[0], "src");
    let single = compile_single_ts("/c/a/b.ts", "/s/static_dev/a/b.js", "/t/configs/swcrc").unwrap();
    assert_eq!(single.cwd, "/c/a");
    assert_eq!(single.args, strs(&["/c/a/b.ts", "-o", "/s/static_dev/a/b.js", "--config-file", "/t/configs/swcrc"]));
}

#[test]
fn compiler_failure_report() {
    let args = strs(&["c", "-d", "/x"]);
    assert_eq!(run_swc_cli("/", &args, true, "exit status: 0", "", ""), Ok(()));
    assert_eq!(
        run_swc_cli("/", &args, false, "exit status: 1", "out", "  "),
        Err("swc command failed in /\ncommand: swc c -d /x\nstatus: exit status: 1\nstdout:\nout".to_string())
    );
    assert_eq!(
        run_swc_cli("/", &args, false, "exit status: 1", "", "bad"),
        Err("swc command failed in /\ncommand: swc c -d /x\nstatus: exit status: 1\nstderr:\nbad".to_string())
    );
}

#[test]
fn thirdparty_bundler_arguments() {
    assert_eq!(
        handle_thirdparty_js("/c/thirdparty/", "/s/static_dev/thirdparty/"),
        strs(&["/c/thirdparty/*", "--bundle", "--outdir=/s/static_dev/thirdparty"])
    );
}

#[test]
fn browser_style_edits_go_back_to_sources() {
    assert_eq!(chrome_overrides_root(&dirs(), "3000"), "/co/localhost:3000/assets/");
    assert!(is_saved_css("/co/a.CSS"));
    assert!(!is_saved_css("/co/a.js"));
    assert_eq!(override_target("/co/localhost:3000/assets/instance/x.css", "/c/", "/ic/", "3000"), "/ic/x.css");
    assert_eq!(override_target("/co/localhost:3000/assets/main.css", "/c/", "/ic/", "3000"), "/c/main.css");
}

#[test]
fn lazy_modules_are_listed() {
    let listing = vec![
        LazyDir {
            path: "/t/files/lazy/views".to_string(),
            is_dir: true,
            entries: vec![
                ListedEntry { path: "/t/files/lazy/views/home".to_string(), name: "home".to_string(), is_dir: true },
                ListedEntry { path: "/t/files/lazy/views/x.js".to_string(), name: "x.js".to_string(), is_dir: false },
                ListedEntry { path: "/t/files/lazy/views/n.css".to_string(), name: "n.css".to_string(), is_dir: false },
            ],
        },
        LazyDir { path: "/t/files/lazy/readme".to_string(), is_dir: false, entries: vec![] },
    ];
    assert_eq!(generate_lazy_list(&listing), strs(&["/t/files/lazy/views/home/home.js", "/t/files/lazy/views/x.js"]));
    assert_eq!(set_gen_list(&dirs()), strs(&["/t/files/main.js"]));
    let all = bundle_list(&dirs(), &strs(&["/l/a.js"]), &strs(&["/li/b.js"]));
    assert_eq!(all, strs(&["/l/a.js", "/li/b.js", "/t/files/main.js", "/s/static_dist/"]));
    assert_eq!(
        esbuild_args(&all).unwrap(),
        strs(&["--bundle", "--platform=browser", "--target=esnext", "--minify", "--outdir=/s/static_dist/", "--loader:.js=ts", "/l/a.js", "/li/b.js", "/t/files/main.js"])
    );
    assert!(esbuild_args(&vec![]).is_none());
}

fn prop(is_static: bool, key: Option<&str>, value: Option<&str>) -> ClassElementInfo {
    ClassElementInfo::Property(ClassProperty {
        is_static,
        key_name: key.map(|k| k.to_string()),
        value_text: value.map(|v| v.to_string()),
    })
}

#[test]
fn static_load_functions_are_extracted() {
    let items = vec![
        TopLevelInfo::Other,
        TopLevelInfo::Class(vec![prop(false, Some("load"), Some("()=>1")), prop(true, Some("load"), None), ClassElementInfo::Other]),
        TopLevelInfo::Class(vec![prop(true, Some("load"), Some("async()=>2"))]),
    ];
    assert_eq!(extract_static_load(&items, "HomeView"), Some(("load_homeview".to_string(), "async()=>2".to_string())));
    assert_eq!(extract_static_load(&vec![TopLevelInfo::Other], "x"), None);
    assert_eq!(views_dirs(&dirs()), strs(&["/t/files/lazy/views/", "/t/files/instance/lazy/views/"]));
    let loads = vec![("load_a".to_string(), "()=>1".to_string()), ("load_b".to_string(), "()=>2".to_string())];
    assert_eq!(viewloads_source(&loads), "const load_a=()=>1;\nconst load_b=()=>2;\nexport default{load_a,load_b};");
    let min = minified_viewloads(&loads).unwrap();
    assert_ne!(min, viewloads_source(&loads));
    assert!(min.len() < viewloads_source(&loads).len());
}

#[test]
fn first_pass_counts_and_classifies() {
    let mut stats = ProcessedStatsT { js_files_count: 0, html_files_count: 0, css_files_count: 0, lines_of_js: 0 };
    assert!(!is_skip_entry("media"));
    assert!(is_skip_entry("lazy"));
    assert_eq!(process_file("/s/static_dev/index.html", &mut stats), OutputKind::Html);
    assert_eq!(process_file("/s/static_dev/a.css", &mut stats), OutputKind::Css);
    assert_eq!(process_file("/s/static_dev/a.js", &mut stats), OutputKind::Js);
    assert_eq!(process_file("/s/static_dev/a.png", &mut stats), OutputKind::Other);
    record_js(&mut stats, "a\nb\nc");
    assert_eq!(stats, ProcessedStatsT { js_files_count: 1, html_files_count: 1, css_files_count: 1, lines_of_js: 3 });
    assert!(is_component_module("/s/static_dev/lazy/views/home/home.js"));
    assert!(is_component_module("/x/lazy/components/c/c.js"));
    assert!(!is_component_module("/x/views/v.js"));
    assert!(is_view_module("/x/lazy/views/v.js"));
    assert!(!is_view_module("/x/lazy/components/v.js"));
}

#[test]
fn component_assembly() {
    let out = process_js_html_css_combined("a{--css--}b{--html--}c", Some("x{}"), None, true, "import 'p';\n");
    assert_eq!(out, "import 'p';\na<style>x{}</style>b<link rel='stylesheet' href='/assets/main.css'> c");
    let out = process_js_html_css_combined("{--html--}", None, Some("<p>"), false, "");
    assert_eq!(out, "<p>");
    let parts = vec![
        PartDir { name: "nav".to_string(), is_dir: true, has_module: true },
        PartDir { name: "x.txt".to_string(), is_dir: false, has_module: false },
        PartDir { name: "empty".to_string(), is_dir: true, has_module: false },
    ];
    assert_eq!(process_js_parts_import_statements(&parts), "import './parts/nav/nav.js';      \n");
}

#[test]
fn scripts_are_minified_counted_and_placed() {
    let src = "// comment\nvar  answer  =  42 ;\n\n\nfunction  f ( a ) {  return  a ; }\n";
    let min = process_minify_js(src).unwrap();
    assert_ne!(min, src);
    assert!(min.len() < src.len());
    let mut stats = ProcessedStatsT { js_files_count: 0, html_files_count: 0, css_files_count: 0, lines_of_js: 0 };
    let out = process_js("/s/static_dev/main.js", src, None, None, "", &mut stats).unwrap();
    assert_eq!(out, min);
    assert_eq!(stats.js_files_count, 1);
    assert_eq!(stats.lines_of_js, 5);
    assert_eq!(write_js_path(&dirs(), "/s/static_dev/lazy/a.js"), Some("/t/files/lazy/a.js".to_string()));
    assert_eq!(write_js_path(&dirs(), "/elsewhere/a.js"), None);
    assert_eq!(
        dist_summary(7, &stats),
        strs(&["APPVersion 7", "Processed 1 JS files", "Processed 0 HTML files", "Processed 0 CSS files", "Processed 5 lines of JS"])
    );
}
