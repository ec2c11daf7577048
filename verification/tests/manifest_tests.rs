use nifty::dirs::Dirs;
use nifty::json::{json_clone, json_get, json_set, Json};
use nifty::manifest::{
    data_uri_exec, handle_manifest, inline_manifest_media_as_datauris, manifest_info, media_requests,
    overlay_instance_fields,
};

fn dirs() -> Dirs {
    Dirs {
        tmp: "/t/".to_string(),
        main_client: "/c/".to_string(),
        main_server: "/s/".to_string(),
        instance_client: "/ic/".to_string(),
        instance_server: "/is/".to_string(),
        chrome_overrides: "/co/".to_string(),
    }
}

fn st(s: &str) -> Json {
    Json::Str(s.to_string())
}

fn obj(fields: Vec<(&str, Json)>) -> Json {
    Json::Object(fields.into_iter().map(|(k, v)| (k.to_string(), v)).collect())
}

fn text(j: Option<&Json>) -> Option<String> {
    match j {
        Some(Json::Str(s)) => Some(s.clone()),
        _ => None,
    }
}

#[test]
fn json_fields_get_and_set() {
    let j = obj(vec![("a", st("1")), ("b", Json::Null)]);
    assert_eq!(text(json_get(&j, "a")), Some("1".to_string()));
    assert!(json_get(&j, "z").is_none());
    let j2 = json_set(json_clone(&j), "a", st("2"));
    assert_eq!(text(json_get(&j2, "a")), Some("2".to_string()));
    let j3 = json_set(j2, "c", Json::Bool(true));
    match &j3 {
        Json::Object(fs) => assert_eq!(fs.iter().map(|f| f.0.as_str()).collect::<Vec<_>>(), vec!["a", "b", "c"]),
        _ => panic!("not an object"),
    }
    let from_null = json_set(Json::Null, "k", st("v"));
    assert_eq!(text(json_get(&from_null, "k")), Some("v".to_string()));
}

#[test]
fn instance_fields_overlay_core_manifest() {
    let core = obj(vec![("name", st("Core")), ("start_url", st("/")), ("theme_color", st("#000"))]);
    let inst = obj(vec![("name", st("Shop")), ("short_name", st("S")), ("start_url", st("/shop"))]);
    let m = overlay_instance_fields(core, &inst);
    assert_eq!(text(json_get(&m, "name")), Some("Shop".to_string()));
    assert_eq!(text(json_get(&m, "short_name")), Some("S".to_string()));
    assert_eq!(text(json_get(&m, "start_url")), Some("/".to_string()));
    assert_eq!(text(json_get(&m, "theme_color")), Some("#000".to_string()));
    assert_eq!(manifest_info(&m), ("S".to_string(), "#000".to_string()));
}

#[test]
fn manifest_info_defaults() {
    let m = obj(vec![("short_name", Json::Number("3".to_string()))]);
    assert_eq!(manifest_info(&m), (String::new(), "#FFFFFF".to_string()));
}

fn icon(src: &str) -> Json {
    obj(vec![("src", st(src)), ("sizes", st("1x1"))])
}

#[test]
fn local_media_is_requested_and_inlined_in_order() {
    let d = dirs();
    let m = obj(vec![
        ("icons", Json::Array(vec![icon("/assets/media/a.png"), icon("data:xyz"), icon("https://x/y.png"), icon("/assets/instance/media/b.svg")])),
        ("screenshots", Json::Array(vec![icon("/assets/media/s.gif"), icon("/elsewhere/s.png")])),
    ]);
    let reqs = media_requests(&d, &m);
    assert_eq!(reqs, vec!["/c/media/a.png", "/ic/media/b.svg", "/c/media/s.gif"]);
    let contents = vec![b"PNG".to_vec(), b"<svg/>".to_vec(), b"GIF89".to_vec()];
    let out = inline_manifest_media_as_datauris(&d, m, &contents);
    let icons = match json_get(&out, "icons") {
        Some(Json::Array(items)) => items,
        _ => panic!("no icons"),
    };
    assert_eq!(text(json_get(&icons[0], "src")), Some("data:image/png;base64,UE5H".to_string()));
    assert_eq!(text(json_get(&icons[0], "type")), Some("image/png".to_string()));
    assert_eq!(text(json_get(&icons[0], "sizes")), Some("1x1".to_string()));
    assert_eq!(text(json_get(&icons[1], "src")), Some("data:xyz".to_string()));
    assert!(json_get(&icons[1], "type").is_none());
    assert_eq!(text(json_get(&icons[2], "src")), Some("https://x/y.png".to_string()));
    assert_eq!(text(json_get(&icons[3], "src")), Some("data:image/svg+xml;base64,PHN2Zy8+".to_string()));
    let shots = match json_get(&out, "screenshots") {
        Some(Json::Array(items)) => items,
        _ => panic!("no screenshots"),
    };
    assert_eq!(text(json_get(&shots[0], "src")), Some("data:image/gif;base64,R0lGODk=".to_string()));
    assert_eq!(text(json_get(&shots[1], "src")), Some("/elsewhere/s.png".to_string()));
}

#[test]
fn data_uri_of_a_file() {
    assert_eq!(data_uri_exec("/x/a.webp", b"PNG"), "data:image/webp;base64,UE5H");
}

#[test]
fn combined_manifest_and_shell_info() {
    let d = dirs();
    let core = obj(vec![("short_name", st("Core")), ("icons", Json::Array(vec![icon("/assets/media/a.png")]))]);
    let inst = obj(vec![("theme_color", st("#abc"))]);
    let (m, info) = handle_manifest(&d, core, &inst, &vec![b"PNG".to_vec()]);
    assert_eq!(info.short_name, "Core");
    assert_eq!(info.theme_color, "#abc");
    match json_get(&m, "icons") {
        Some(Json::Array(items)) => assert_eq!(text(json_get(&items[0], "src")), Some("data:image/png;base64,UE5H".to_string())),
        _ => panic!("no icons"),
    }
}
