use nifty::devfile::{file_changed, get_client_side_file_type, is_core_css_build_input, is_core_ts_build_input, is_defs_ts, ClientSideFileTypeE, DevStep, JobCondition};
use nifty::dirs::{path, pathp, Dirs, PathE};
use nifty::text::to_chars;

fn dirs() -> Dirs {
    Dirs {
        tmp: "/t/".to_string(),
        main_client: "/c/".to_string(),
        main_server: "/s/".to_string(),
        instance_client: "/ic/".to_string(),
        instance_server: "/is/".to_string(),
        chrome_overrides: "/co/".to_string(),
    }
}

fn jobs(step: &DevStep) -> Vec<(String, String, JobCondition)> {
    match step {
        DevStep::CompileTs(js) => js.iter().map(|j| (j.src.clone(), j.dest.clone(), j.condition)).collect(),
        other => panic!("not a compile step: {:?}", other),
    }
}

fn job(src: &str, dest: &str, c: JobCondition) -> (String, String, JobCondition) {
    (src.to_string(), dest.to_string(), c)
}

#[test]
fn layout_locations() {
    let d = dirs();
    assert_eq!(path(&d, PathE::ClientOutputDev), "/s/static_dev/");
    assert_eq!(path(&d, PathE::InstanceClientOutputDev), "/s/static_dev/instance/");
    assert_eq!(path(&d, PathE::InstanceServerOutput), "/s/build/instance/");
    assert_eq!(path(&d, PathE::InstanceClientOutputTMP), "/t/files/instance/");
    assert_eq!(pathp(&d, PathE::TMPDirConfigs, "swcrc"), "/t/configs/swcrc");
    assert_eq!(pathp(&d, PathE::ClientSrc, "main.ts"), "/c/main.ts");
}

#[test]
fn core_main_recompiles_both_mains_and_splices() {
    let d = dirs();
    let steps = file_changed(&d, "/c/main.ts");
    assert_eq!(steps.len(), 2);
    assert_eq!(
        jobs(&steps[0]),
        vec![
            job("/c/main.ts", "/s/static_dev/main.js", JobCondition::Always),
            job("/ic/main.ts", "/s/static_dev/instance/main.js", JobCondition::IfTargetMissing),
        ]
    );
    assert!(matches!(steps[1], DevStep::RefreshMainJsAndJson));
}

#[test]
fn instance_main_always_recompiles_instance_main() {
    let steps = file_changed(&dirs(), "/ic/main.ts");
    assert_eq!(jobs(&steps[0])[1].2, JobCondition::Always);
}

#[test]
fn lazy_typescript_is_compiled_to_js() {
    let steps = file_changed(&dirs(), "/c/lazy/views/home/home.ts");
    assert_eq!(steps.len(), 1);
    assert_eq!(jobs(&steps[0]), vec![job("/c/lazy/views/home/home.ts", "/s/static_dev/lazy/views/home/home.js", JobCondition::Always)]);
}

#[test]
fn lazy_other_files_are_copied() {
    let steps = file_changed(&dirs(), "/ic/lazy/views/home/home.css");
    match &steps[..] {
        [DevStep::CopyFile { src, dest }] => {
            assert_eq!(src, "/ic/lazy/views/home/home.css");
            assert_eq!(dest, "/s/static_dev/instance/lazy/views/home/home.css");
        },
        other => panic!("unexpected {:?}", other),
    }
}

#[test]
fn thirdparty_change_rebundles_folder() {
    let steps = file_changed(&dirs(), "/c/thirdparty/lib/x.js");
    match &steps[..] {
        [DevStep::BundleThirdParty { src, dest }] => {
            assert_eq!(src, "/c/thirdparty/");
            assert_eq!(dest, "/s/static_dev/thirdparty/");
        },
        other => panic!("unexpected {:?}", other),
    }
}

#[test]
fn service_worker_change_also_stamps_version() {
    let steps = file_changed(&dirs(), "/c/sw.ts");
    assert_eq!(jobs(&steps[0]), vec![job("/c/sw.ts", "/s/static_dev/sw.js", JobCondition::Always)]);
    assert!(matches!(steps[1], DevStep::ApplyDevAppVersionSw));
}

#[test]
fn manifest_and_index_refresh_shell() {
    let steps = file_changed(&dirs(), "/c/app.webmanifest");
    assert!(matches!(steps[..], [DevStep::RefreshManifestAndIndexHtml]));
    let steps = file_changed(&dirs(), "/ic/index.html");
    assert!(matches!(steps[..], [DevStep::RefreshManifestAndIndexHtml]));
}

#[test]
fn settings_change_refreshes_main() {
    let steps = file_changed(&dirs(), "/c/main.json");
    assert_eq!(jobs(&steps[0])[1].2, JobCondition::IfTargetMissing);
    assert!(matches!(steps[1], DevStep::RefreshMainJsAndJson));
}

#[test]
fn core_style_sheets_are_copied_others_ignored() {
    let steps = file_changed(&dirs(), "/c/index.css");
    match &steps[..] {
        [DevStep::CopyFile { src, dest }] => {
            assert_eq!(src, "/c/index.css");
            assert_eq!(dest, "/s/static_dev/index.css");
        },
        other => panic!("unexpected {:?}", other),
    }
    assert!(file_changed(&dirs(), "/ic/index.css").is_empty());
    assert_eq!(file_changed(&dirs(), "/ic/icons.css").len(), 1);
    assert!(file_changed(&dirs(), "/c/notes.md").is_empty());
    assert!(file_changed(&dirs(), "/c/other.ts").is_empty());
}

#[test]
fn client_defs_compiles_instance_link() {
    let steps = file_changed(&dirs(), "/c/defs.ts");
    assert_eq!(
        jobs(&steps[0]),
        vec![
            job("/c/defs.ts", "/s/static_dev/defs.js", JobCondition::Always),
            job("/ic/defs_client_symlink.ts", "/s/static_dev/instance/defs_client_symlink.js", JobCondition::IfSourceExists),
        ]
    );
}

#[test]
fn server_defs_compiles_client_links() {
    let steps = file_changed(&dirs(), "/s/src/defs.ts");
    assert_eq!(
        jobs(&steps[0]),
        vec![
            job("/s/src/defs.ts", "/s/build/defs.js", JobCondition::Always),
            job("/c/defs_server_symlink.ts", "/s/static_dev/defs_server_symlink.js", JobCondition::IfSourceExists),
            job("/ic/defs_server_symlink.ts", "/s/static_dev/instance/defs_server_symlink.js", JobCondition::IfSourceExists),
        ]
    );
    let steps = file_changed(&dirs(), "/is/defs.ts");
    assert_eq!(
        jobs(&steps[0]),
        vec![
            job("/is/defs.ts", "/s/build/instance/defs.js", JobCondition::Always),
            job("/ic/defs_instance_server_symlink.ts", "/s/static_dev/instance/defs_instance_server_symlink.js", JobCondition::IfSourceExists),
        ]
    );
}

#[test]
fn server_entry_is_postprocessed() {
    let steps = file_changed(&dirs(), "/s/src/index.ts");
    assert_eq!(jobs(&steps[0]), vec![job("/s/src/index.ts", "/s/build/index.js", JobCondition::Always)]);
    assert!(matches!(steps[1], DevStep::PostprocessServerIndexJs));
    let steps = file_changed(&dirs(), "/is/index.ts");
    assert_eq!(steps.len(), 1);
}

#[test]
fn server_non_typescript_is_ignored() {
    assert!(file_changed(&dirs(), "/is/readme.md").is_empty());
}

#[test]
fn unrelated_file_triggers_nothing() {
    assert!(file_changed(&dirs(), "/elsewhere/a.ts").is_empty());
}

#[test]
fn classification_helpers() {
    let d = dirs();
    assert!(is_defs_ts(&to_chars("defs_extra.ts")));
    assert!(!is_defs_ts(&to_chars("mydefs.ts")));
    assert!(is_core_ts_build_input(&to_chars("alwaysload/x.ts"), true));
    assert!(!is_core_ts_build_input(&to_chars("sw.ts"), true));
    assert!(is_core_ts_build_input(&to_chars("shared_worker.ts"), false));
    assert!(is_core_css_build_input(&to_chars("main.css"), false));
    assert!(!is_core_css_build_input(&to_chars("main.css"), true));
    assert_eq!(get_client_side_file_type(&d, &to_chars("/c/lazy/x.ts"), false), ClientSideFileTypeE::Lazy);
    assert_eq!(get_client_side_file_type(&d, &to_chars("/ic/thirdparty/x.js"), true), ClientSideFileTypeE::ThirdParty);
    assert_eq!(get_client_side_file_type(&d, &to_chars("/c/main.ts"), false), ClientSideFileTypeE::Core);
}
