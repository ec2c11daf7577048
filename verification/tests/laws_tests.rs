use nifty::devfile::file_changed;
use nifty::devtext::{devappversion_from, version_text};
use nifty::dirs::Dirs;
use nifty::json::{json_get, Json};
use nifty::lint::{common_ancestor, unique_files};
use nifty::manifest::{inline_manifest_media_as_datauris, overlay_instance_fields};
use nifty::pathorder::path_less_exec;
use nifty::text::{parse_u32, replace, to_chars};

fn dirs() -> Dirs {
    Dirs {
        tmp: "/t/".to_string(),
        main_client: "/c/".to_string(),
        main_server: "/s/".to_string(),
        instance_client: "/ic/".to_string(),
        instance_server: "/is/".to_string(),
        chrome_overrides: "/co/".to_string(),
    }
}

#[test]
fn written_versions_read_back() {
    for v in [0u32, 7, 10, 4096, 4294967295] {
        assert_eq!(parse_u32(&to_chars(&version_text(v))), Some(v));
        assert_eq!(devappversion_from(Some(&version_text(v))), v);
    }
}

#[test]
fn replacing_absent_text_changes_nothing() {
    assert_eq!(replace("const a = 1;", "{--css--}", "<style></style>"), "const a = 1;");
}

#[test]
fn files_outside_the_trees_trigger_nothing() {
    for f in ["/x.ts", "/s/static_dev/main.js", "/t/files/a.ts", "/cc/main.ts"] {
        assert!(file_changed(&dirs(), f).is_empty(), "{}", f);
    }
}

fn obj(fields: Vec<(&str, Json)>) -> Json {
    Json::Object(fields.into_iter().map(|(k, v)| (k.to_string(), v)).collect())
}

fn text(j: Option<&Json>) -> Option<String> {
    match j {
        Some(Json::Str(s)) => Some(s.clone()),
        _ => None,
    }
}

#[test]
fn owned_fields_come_from_instance_others_from_core() {
    let core = obj(vec![("version", Json::Str("1".into())), ("display", Json::Str("standalone".into()))]);
    let inst = obj(vec![("version", Json::Str("9".into())), ("display", Json::Str("browser".into()))]);
    let m = overlay_instance_fields(core, &inst);
    assert_eq!(text(json_get(&m, "version")), Some("9".to_string()));
    assert_eq!(text(json_get(&m, "display")), Some("standalone".to_string()));
}

#[test]
fn lint_working_directory_is_deepest_shared() {
    let roots = vec!["/w/app/client".to_string(), "/w/app/server/src".to_string(), "/w/app2".to_string()];
    assert_eq!(common_ancestor(&roots), Some("/w".to_string()));
}

#[test]
fn dropping_repeats_keeps_every_file() {
    let files: Vec<String> = ["a", "b", "a", "c", "b"].iter().map(|s| s.to_string()).collect();
    let u = unique_files(&files);
    for f in &files {
        assert!(u.contains(f));
    }
    assert_eq!(u.len(), 3);
}

#[test]
fn each_inlined_entry_takes_content_at_its_request_position() {
    let icon = |src: &str| obj(vec![("src", Json::Str(src.to_string()))]);
    let m = obj(vec![("icons", Json::Array(vec![icon("/assets/media/a.png"), icon("http://x"), icon("/assets/media/b.png")]))]);
    let out = inline_manifest_media_as_datauris(&dirs(), m, &vec![b"PNG".to_vec(), b"GIF89".to_vec()]);
    match json_get(&out, "icons") {
        Some(Json::Array(items)) => {
            assert_eq!(text(json_get(&items[0], "src")), Some("data:image/png;base64,UE5H".to_string()));
            assert_eq!(text(json_get(&items[1], "src")), Some("http://x".to_string()));
            assert_eq!(text(json_get(&items[2], "src")), Some("data:image/png;base64,R0lGODk=".to_string()));
        },
        _ => panic!("no icons"),
    }
}

#[test]
fn path_order_is_a_strict_total_order_on_examples() {
    let ps = ["/", "/a", "/a/b", "/a-b", "/a.b", "/b", ".", "./x", "..", "a", "a/b"];
    for x in ps {
        assert!(!path_less_exec(x, x));
        for y in ps {
            let same = nifty::paths::same_path_exec(&to_chars(x), &to_chars(y));
            let n = [path_less_exec(x, y), same, path_less_exec(y, x)].iter().filter(|b| **b).count();
            assert_eq!(n, 1, "{} {}", x, y);
            for z in ps {
                if path_less_exec(x, y) && path_less_exec(y, z) {
                    assert!(path_less_exec(x, z));
                }
            }
        }
    }
}

#[test]
fn copies_keep_their_place_below_the_roots() {
    let files = vec!["/c/lazy/v/a.css".to_string(), "/c/lazy//w/./b.html".to_string()];
    let plan = nifty::helpers::copy_deep("/c/lazy", "/d", "_____", &files).unwrap();
    assert_eq!(plan[0].1, "/d/v/a.css");
    assert_eq!(plan[1].1, "/d/w/b.html");
    let plan = nifty::helpers::copy_deep("/c/lazy/", "out/", "_____", &files).unwrap();
    assert_eq!(plan[0].1, "out/v/a.css");
}
