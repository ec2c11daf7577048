use nifty::devtext::{
    apply_devappversion_index, apply_devappversion_indexjs, apply_devappversion_manifest, apply_devappversion_sw,
    build_favicon_link_tag, combined_json, devappversion_from, favicon_source, handle_indexhtml, handle_indexjs,
    handle_mainjs_n_json, main_js_text, mime_for_media_path, postprocess_indexjs, resolve_media_src_path, version_text,
};
use nifty::dirs::Dirs;

fn dirs() -> Dirs {
    Dirs {
        tmp: "/t/".to_string(),
        main_client: "/c/".to_string(),
        main_server: "/s/".to_string(),
        instance_client: "/ic/".to_string(),
        instance_server: "/is/".to_string(),
        chrome_overrides: "/co/".to_string(),
    }
}

#[test]
fn index_html_gets_name_colour_and_favicon() {
    let out = handle_indexhtml(
        "<title></title><meta content=\"{--themecolor--}\"><h1>{--appname--}</h1><!--{--favicon--}-->",
        "Shop",
        "#123456",
        "<link rel=\"icon\">",
    );
    assert_eq!(out, "<title>Shop</title><meta content=\"#123456\"><h1>Shop</h1><link rel=\"icon\">");
}

#[test]
fn favicon_is_inlined_as_base64() {
    assert_eq!(build_favicon_link_tag(b"<svg/>"), "<link rel=\"icon\" href=\"data:image/svg+xml;base64,PHN2Zy8+\">");
}

#[test]
fn favicon_prefers_instance_file() {
    assert_eq!(favicon_source(&dirs(), true), "/ic/media/favicon.svg");
    assert_eq!(favicon_source(&dirs(), false), "/c/media/pwticons/favicon.svg");
}

#[test]
fn settings_are_combined_and_spliced() {
    assert_eq!(combined_json("{\"a\":1}", "{\"b\":2}"), "{ \"MAIN\": {\"a\":1}, \"INSTANCE\": {\"b\":2} }");
    assert_eq!(main_js_text("x;//{--replace_slot.js--}", "i();", "{}"), "x;i(); const SETTINGS={};");
    let (js, json) = handle_mainjs_n_json("x;//{--replace_slot.js--}y", "inst();", "{}", "[]");
    assert_eq!(json, "{ \"MAIN\": {}, \"INSTANCE\": [] }");
    assert_eq!(js, "x;inst(); const SETTINGS={ \"MAIN\": {}, \"INSTANCE\": [] };y");
}

#[test]
fn versions_are_written_in_decimal() {
    assert_eq!(version_text(0), "0");
    assert_eq!(version_text(4294967295), "4294967295");
}

#[test]
fn manifest_dev_version_replaces_first_version() {
    let out = apply_devappversion_manifest("{\"version\": \"3\", \"x\": {\"version\":\"4\"}}", 7).unwrap();
    assert_eq!(out, Some("{\"version\": \"7\", \"x\": {\"version\":\"4\"}}".to_string()));
    assert_eq!(apply_devappversion_manifest("{\"version\": \"3\"}", 0).unwrap(), None);
}

#[test]
fn index_dev_version_stamp() {
    assert_eq!(apply_devappversion_index("let APPVERSION=0;", 5), Some("let APPVERSION=5;".to_string()));
    assert_eq!(apply_devappversion_index("let APPVERSION=0;", 0), None);
}

#[test]
fn service_worker_dev_version_stamp() {
    assert_eq!(
        apply_devappversion_sw("const c='cacheV__0__';export { };", 9),
        Some("const c='cacheV__9__';".to_string())
    );
    assert_eq!(apply_devappversion_sw("x", 0), None);
}

#[test]
fn server_entry_links_instance_and_stamps_version() {
    assert_eq!(handle_indexjs("//{--index_instance.js--}\nrun()"), "import INSTANCE from './instance/index.js'\nrun()");
    assert_eq!(
        apply_devappversion_indexjs("const APPVERSION = 0; const APPVERSION = 33;", 12).unwrap(),
        Some("const APPVERSION = 12; const APPVERSION = 12;".to_string())
    );
    assert_eq!(
        postprocess_indexjs("//{--index_instance.js--}\nconst APPVERSION = 0;", 12).unwrap(),
        "import INSTANCE from './instance/index.js'\nconst APPVERSION = 12;"
    );
    assert_eq!(
        postprocess_indexjs("//{--index_instance.js--}\nconst APPVERSION = 0;", 0).unwrap(),
        "import INSTANCE from './instance/index.js'\nconst APPVERSION = 0;"
    );
}

#[test]
fn recorded_dev_version() {
    assert_eq!(devappversion_from(Some(" 17\n")), 17);
    assert_eq!(devappversion_from(Some("abc")), 0);
    assert_eq!(devappversion_from(Some("")), 0);
    assert_eq!(devappversion_from(None), 0);
}

#[test]
fn media_types_by_extension() {
    assert_eq!(mime_for_media_path("/a/b.png"), "image/png");
    assert_eq!(mime_for_media_path("x.jpeg"), "image/jpeg");
    assert_eq!(mime_for_media_path("x.jpg"), "image/jpeg");
    assert_eq!(mime_for_media_path("x.svg"), "image/svg+xml");
    assert_eq!(mime_for_media_path("x.webp"), "image/webp");
    assert_eq!(mime_for_media_path("x.gif"), "image/gif");
    assert_eq!(mime_for_media_path("x.PNG"), "application/octet-stream");
    assert_eq!(mime_for_media_path("x"), "application/octet-stream");
}

#[test]
fn media_urls_map_back_to_sources() {
    let d = dirs();
    assert_eq!(resolve_media_src_path(&d, "/assets/instance/media/logo.svg"), Some("/ic/media/logo.svg".to_string()));
    assert_eq!(resolve_media_src_path(&d, "/assets/media/pwticons/a.png"), Some("/c/media/pwticons/a.png".to_string()));
    assert_eq!(resolve_media_src_path(&d, "/other/a.png"), None);
}
