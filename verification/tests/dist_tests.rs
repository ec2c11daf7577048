use std::io::Read;

use nifty::dirs::Dirs;
use nifty::dist::{
    brotli_path, css_esbuild_args, css_outcome, dist_glob, entry_html, handle_defs_files, iterate_manifest_appversion,
    process_brotli, process_css, process_css_urls, process_indexhtml, process_manifest, process_media, process_server,
    process_sw, process_thirdparty, reset_dist_dirs, runit, should_compress, CssJob, CssOutcome, DistError, GenStep,
};

fn dirs() -> Dirs {
    Dirs {
        tmp: "/t/".to_string(),
        main_client: "/c/".to_string(),
        main_server: "/s/".to_string(),
        instance_client: "/ic/".to_string(),
        instance_server: "/is/".to_string(),
        chrome_overrides: "/co/".to_string(),
    }
}

#[test]
fn version_bump_increments_and_rewrites_every_field() {
    let (v, text) = iterate_manifest_appversion("{\n  \"version\": \"41\",\n  \"v\": {\"version\":\"41\"}\n}").unwrap();
    assert_eq!(v, 42);
    assert_eq!(text, "{\n  \"version\":\"42\",\n  \"v\": {\"version\":\"42\"}\n}");
}

#[test]
fn version_bump_errors() {
    assert_eq!(iterate_manifest_appversion("{\"name\": \"x\"}").unwrap_err(), DistError::NoVersion);
    assert_eq!(iterate_manifest_appversion("{\"version\": \"99999999999\"}").unwrap_err(), DistError::BadVersion);
    assert_eq!(iterate_manifest_appversion("{\"version\": \"4294967295\"}").unwrap_err(), DistError::VersionOverflow);
}

#[test]
fn generation_steps_in_order() {
    let steps = runit(&dirs());
    assert_eq!(steps.len(), 11);
    match &steps[0] {
        GenStep::Manifest { src, dest } => {
            assert_eq!(src, "/s/static_dev/app.webmanifest");
            assert_eq!(dest, "/s/static_dist/app.webmanifest");
        },
        other => panic!("unexpected {:?}", other),
    }
    assert!(matches!(steps[1], GenStep::IndexHtml { .. }));
    assert!(matches!(steps[2], GenStep::CopyFile { .. }));
    assert!(matches!(steps[3], GenStep::ServiceWorker { .. }));
    assert!(matches!(steps[4], GenStep::CopyText { .. }));
    match &steps[6] {
        GenStep::CopyTree { src, dest } => {
            assert_eq!(src, "/s/static_dev/instance/thirdparty/");
            assert_eq!(dest, "/s/static_dist/instance/thirdparty/");
        },
        other => panic!("unexpected {:?}", other),
    }
    assert!(matches!(steps[7], GenStep::Css));
    match &steps[10] {
        GenStep::ServerVersion { path } => assert_eq!(path, "/s/build/index.js"),
        other => panic!("unexpected {:?}", other),
    }
    assert_eq!(process_thirdparty(&dirs()).len(), 2);
    match &process_media(&dirs())[0] {
        GenStep::CopyTree { src, dest } => {
            assert_eq!(src, "/s/static_dev/media/");
            assert_eq!(dest, "/s/static_dist/media/");
        },
        other => panic!("unexpected {:?}", other),
    }
}

#[test]
fn dist_manifest_and_pages() {
    assert_eq!(process_manifest("{\"version\": \"1\", \"b\": {\"version\": \"1\"}}", 3).unwrap(), "{\"version\": \"3\", \"b\": {\"version\": \"1\"}}");
    assert_eq!(process_indexhtml("APPVERSION=0 APPUPDATE_TS=0", 3, 1700000000), "APPVERSION=3 APPUPDATE_TS=1700000000");
    assert_eq!(process_sw("'cacheV__0__'\nexport { };", 8), "'cacheV__8__'\n");
    assert_eq!(process_server("const APPVERSION = 1; const APPVERSION = 2;", 5).unwrap(), "const APPVERSION = 5; const APPVERSION = 5;");
}

#[test]
fn css_urls_point_into_dev_output() {
    assert_eq!(
        process_css_urls("@font-face{src:url(\"/assets/fonts/a.woff2\")}", "/s/static_dev/"),
        "@font-face{src:url(\"/s/static_dev/fonts/a.woff2\")}"
    );
    assert_eq!(css_esbuild_args("/x/index.css", true), vec!["/x/index.css", "--bundle", "--minify", "--loader:.woff2=dataurl"]);
    assert_eq!(css_esbuild_args("/x/main.css", false), vec!["/x/main.css", "--minify"]);
}

#[test]
fn style_sheet_jobs() {
    let jobs = process_css(&dirs());
    let v: Vec<(&str, &str, &str, bool, bool)> =
        jobs.iter().map(|j| (j.name.as_str(), j.input.as_str(), j.output.as_str(), j.bundle, j.required)).collect();
    assert_eq!(
        v,
        vec![
            ("index.css", "/s/static_dev/index.css", "/s/static_dist/index.css", true, false),
            ("main.css", "/s/static_dev/main.css", "/s/static_dist/main.css", false, false),
            ("icons.css", "/s/static_dev/instance/icons.css", "/s/static_dist/instance/icons.css", false, true),
        ]
    );
}

fn job(name: &str, required: bool) -> CssJob {
    CssJob { name: name.to_string(), input: "/in.css".to_string(), output: "/out.css".to_string(), bundle: false, required }
}

#[test]
fn style_sheet_outcomes() {
    match css_outcome(&job("main.css", false), true, Some(0), "a{}", "") {
        CssOutcome::Write { path, content } => {
            assert_eq!(path, "/out.css");
            assert_eq!(content, "a{}");
        },
        other => panic!("unexpected {:?}", other),
    }
    match css_outcome(&job("main.css", false), false, Some(1), "", "boom") {
        CssOutcome::Report { lines } => assert_eq!(
            lines,
            vec!["esbuild main.css error: boom", "esbuild main.css command failed with exit code: Some(1)"]
        ),
        other => panic!("unexpected {:?}", other),
    }
    match css_outcome(&job("icons.css", true), false, None, "partial", "bad") {
        CssOutcome::Fail { lines, message } => {
            assert_eq!(lines, vec!["esbuild icons.css error: bad", "esbuild icons.css: partial"]);
            assert_eq!(message, "esbuild icons.css command failed with exit code: None");
        },
        other => panic!("unexpected {:?}", other),
    }
    match css_outcome(&job("icons.css", true), false, Some(-2), "", "") {
        CssOutcome::Fail { lines, message } => {
            assert!(lines.is_empty());
            assert_eq!(message, "esbuild icons.css command failed with exit code: Some(-2)");
        },
        other => panic!("unexpected {:?}", other),
    }
}

#[test]
fn entry_page_is_self_contained() {
    let html = "<link rel=\"stylesheet\" href=\"/entry/index.css\"><script src=\"/entry/index.js\" type=\"module\"></script>APPVERSION=0 APPUPDATE_TS=0";
    assert_eq!(
        entry_html(html, "go()", "b{}", 4, 10),
        "<style>b{}</style><script type=\"module\">go()</script>APPVERSION=4 APPUPDATE_TS=10"
    );
}

#[test]
fn compression_choice_and_target() {
    assert!(should_compress("/d/a.js", 4001));
    assert!(!should_compress("/d/a.js", 4000));
    assert!(should_compress("/d/a.css", 5000));
    assert!(!should_compress("/d/a.html", 9000));
    assert!(!should_compress("/d/js", 9000));
    assert_eq!(brotli_path("/d/a.js", "js"), "/d/a.js.br");
    assert_eq!(dist_glob(&dirs()), "/s/static_dist//**/*");
}

#[test]
fn compressed_copy_decompresses_to_input() {
    let input: Vec<u8> = "body{margin:0}\n".repeat(300).into_bytes();
    let out = process_brotli(&input);
    assert_ne!(out, input);
    assert!(out.len() < input.len());
    let mut back = Vec::new();
    brotli::Decompressor::new(&out[..], 4096).read_to_end(&mut back).unwrap();
    assert_eq!(back, input);
}

#[test]
fn dist_folders_and_definitions() {
    let (gone, made) = reset_dist_dirs(&dirs());
    assert_eq!(gone, vec!["/s/static_dist/", "/t/"]);
    assert_eq!(made, vec!["/s/static_dist/", "/s/static_dist/instance/"]);
    let (removed, copies) = handle_defs_files(&dirs());
    assert_eq!(removed[0], "/t/defs.js");
    assert_eq!(removed[5], "/t/files/instance/defs_instance_server_symlink.js");
    assert_eq!(copies[1], ("/s/src/defs.ts".to_string(), "/t/defs_server_symlink.ts".to_string()));
    assert_eq!(copies[5], ("/is/defs.ts".to_string(), "/t/files/instance/defs_instance_server_symlink.ts".to_string()));
}
