//! Text rewrites applied to the development outputs: the app shell, the
//! main bundle with its settings, the service worker, the server entry, and
//! the development version stamp.

use vstd::prelude::*;
use crate::dirs::{Dirs, PathE, location_with, location_with_chars};
use crate::external::{base64_standard, base64_encode, regex_accepts, regex_replaced_first, regex_replaced_all, regex_replace_first, regex_replace_all};
use crate::paths::{extension_of, extension_exec};
use crate::text::{replaced, trimmed, parsed_u32, decimal, has_prefix, to_chars, from_chars, push_str, push_chars, replace, trim_chars, parse_u32, u64_decimal, starts_with, slice_chars};

verus! {

/// A regex that the rewrite depends on was rejected by the regex engine.
#[derive(Debug, Clone, Copy, PartialEq, Eq)]
pub struct PatternRejected;

/// The pattern that finds the version field of a web manifest.
pub open spec fn manifest_version_pattern() -> Seq<char> {
    "\"version\":\\s*\"(\\d+)\""@
}

/// The pattern that finds the version constant of the server entry.
pub open spec fn server_version_pattern() -> Seq<char> {
    "APPVERSION = \\d+"@
}

/// `index.html` with the app name, theme colour and favicon filled in.
pub open spec fn index_html_spec(index: Seq<char>, name: Seq<char>, theme: Seq<char>, favicon_tag: Seq<char>) -> Seq<char> {
    let a = replaced(index, "<title></title>"@, "<title>"@ + name + "</title>"@);
    let b = replaced(a, "{--appname--}"@, name);
    let c = replaced(b, "{--themecolor--}"@, theme);
    replaced(c, "<!--{--favicon--}-->"@, favicon_tag)
}

/// Fills the app name, theme colour and favicon into `index.html`.
pub fn handle_indexhtml(index: &str, manifestname: &str, theme_color: &str, favicon_tag: &str) -> (r: String)
    ensures
        r@ == index_html_spec(index@, manifestname@, theme_color@, favicon_tag@),
{
    let mut title = to_chars("<title>");
    push_str(&mut title, manifestname);
    push_str(&mut title, "</title>");
    let title = from_chars(&title);
    let a = replace(index, "<title></title>", title.as_str());
    let b = replace(a.as_str(), "{--appname--}", manifestname);
    let c = replace(b.as_str(), "{--themecolor--}", theme_color);
    replace(c.as_str(), "<!--{--favicon--}-->", favicon_tag)
}

/// The favicon link tag with the SVG inlined as a base64 data URI.
pub open spec fn favicon_tag_spec(svg: Seq<u8>) -> Seq<char> {
    "<link rel=\"icon\" href=\"data:image/svg+xml;base64,"@ + base64_standard(svg) + "\">"@
}

/// The favicon link tag with the SVG inlined, so that the browser never
/// requests a favicon file.
pub fn build_favicon_link_tag(svg: &[u8]) -> (r: String)
    ensures
        r@ == favicon_tag_spec(svg@),
{
    let mut t = to_chars("<link rel=\"icon\" href=\"data:image/svg+xml;base64,");
    push_str(&mut t, base64_encode(svg).as_str());
    push_str(&mut t, "\">");
    from_chars(&t)
}

/// The favicon used: the instance's own where it has one, else the core's.
pub open spec fn favicon_source_spec(d: Dirs, instance_favicon_exists: bool) -> Seq<char> {
    if instance_favicon_exists {
        location_with(d, PathE::InstanceClientSrc, "media/favicon.svg"@)
    } else {
        location_with(d, PathE::ClientSrc, "media/pwticons/favicon.svg"@)
    }
}

/// Which favicon file to inline.
pub fn favicon_source(d: &Dirs, instance_favicon_exists: bool) -> (r: String)
    ensures
        r@ == favicon_source_spec(*d, instance_favicon_exists),
{
    if instance_favicon_exists {
        from_chars(&location_with_chars(d, PathE::InstanceClientSrc, "media/favicon.svg"))
    } else {
        from_chars(&location_with_chars(d, PathE::ClientSrc, "media/pwticons/favicon.svg"))
    }
}

/// The combined settings document.
pub open spec fn combined_json_spec(main_json: Seq<char>, instance_json: Seq<char>) -> Seq<char> {
    "{ \"MAIN\": "@ + main_json + ", \"INSTANCE\": "@ + instance_json + " }"@
}

/// The main bundle with the instance bundle and the settings spliced in.
pub open spec fn main_js_spec(main_js: Seq<char>, instance_js: Seq<char>, combined: Seq<char>) -> Seq<char> {
    replaced(main_js, "//{--replace_slot.js--}"@, instance_js + " const SETTINGS="@ + combined + ";"@)
}

/// The combined settings document: core and instance settings side by side.
pub fn combined_json(main_json: &str, instance_json: &str) -> (r: String)
    ensures
        r@ == combined_json_spec(main_json@, instance_json@),
{
    let mut t = to_chars("{ \"MAIN\": ");
    push_str(&mut t, main_json);
    push_str(&mut t, ", \"INSTANCE\": ");
    push_str(&mut t, instance_json);
    push_str(&mut t, " }");
    from_chars(&t)
}

/// Splices the instance bundle and the settings into the main bundle.
pub fn main_js_text(main_js: &str, instance_js: &str, combined: &str) -> (r: String)
    ensures
        r@ == main_js_spec(main_js@, instance_js@, combined@),
{
    let mut slot = to_chars(instance_js);
    push_str(&mut slot, " const SETTINGS=");
    push_str(&mut slot, combined);
    push_str(&mut slot, ";");
    let slot = from_chars(&slot);
    replace(main_js, "//{--replace_slot.js--}", slot.as_str())
}

/// The main bundle with the instance bundle and the settings spliced in, and
/// the combined settings document: what the main bundle and `main.json` of
/// the development output become.
pub fn handle_mainjs_n_json(main_js: &str, instance_js: &str, main_json: &str, instance_json: &str) -> (r: (String, String))
    ensures
        r.1@ == combined_json_spec(main_json@, instance_json@),
        r.0@ == main_js_spec(main_js@, instance_js@, combined_json_spec(main_json@, instance_json@)),
{
    let combined = combined_json(main_json, instance_json);
    let js = main_js_text(main_js, instance_js, combined.as_str());
    (js, combined)
}

/// The decimal text of a version.
pub fn version_text(v: u32) -> (r: String)
    ensures
        r@ == decimal(v as nat),
{
    from_chars(&u64_decimal(v as u64))
}

/// The manifest with its version field set to `v` (the first match only).
pub open spec fn manifest_devversion_spec(content: Seq<char>, v: u32) -> Seq<char> {
    regex_replaced_first(manifest_version_pattern(), content, "\"version\": \""@ + decimal(v as nat) + "\""@)
}

/// The dev-version stamp of the combined manifest: nothing to do for version
/// 0; otherwise the rewritten text.
pub fn apply_devappversion_manifest(content: &str, devappversion: u32) -> (r: Result<Option<String>, PatternRejected>)
    ensures
        devappversion == 0 ==> r == Ok::<Option<String>, PatternRejected>(None),
        devappversion != 0 ==> match r {
            Ok(Some(s)) => regex_accepts(manifest_version_pattern()) && s@ == manifest_devversion_spec(content@, devappversion),
            Ok(None) => false,
            Err(_) => !regex_accepts(manifest_version_pattern()),
        },
{
    if devappversion == 0 {
        return Ok(None);
    }
    let mut rep = to_chars("\"version\": \"");
    push_str(&mut rep, version_text(devappversion).as_str());
    push_str(&mut rep, "\"");
    let rep = from_chars(&rep);
    match regex_replace_first("\"version\":\\s*\"(\\d+)\"", content, rep.as_str()) {
        Some(s) => Ok(Some(s)),
        None => Err(PatternRejected),
    }
}

/// `index.html` with the version placeholder stamped.
pub open spec fn index_devversion_spec(content: Seq<char>, v: u32) -> Seq<char> {
    replaced(content, "APPVERSION=0"@, "APPVERSION="@ + decimal(v as nat))
}

/// The dev-version stamp of `index.html`: nothing for version 0.
pub fn apply_devappversion_index(content: &str, devappversion: u32) -> (r: Option<String>)
    ensures
        devappversion == 0 ==> r.is_none(),
        devappversion != 0 ==> (r matches Some(s) && s@ == index_devversion_spec(content@, devappversion)),
{
    if devappversion == 0 {
        return None;
    }
    let mut rep = to_chars("APPVERSION=");
    push_str(&mut rep, version_text(devappversion).as_str());
    let rep = from_chars(&rep);
    Some(replace(content, "APPVERSION=0", rep.as_str()))
}

/// The service worker with its cache name stamped and the empty export
/// removed.
pub open spec fn sw_version_spec(content: Seq<char>, v: u32) -> Seq<char> {
    replaced(replaced(content, "cacheV__0__"@, "cacheV__"@ + decimal(v as nat) + "__"@), "export { };"@, ""@)
}

/// Stamps a version into the service worker.
pub fn sw_version_text(content: &str, v: u32) -> (r: String)
    ensures
        r@ == sw_version_spec(content@, v),
{
    let mut rep = to_chars("cacheV__");
    push_str(&mut rep, version_text(v).as_str());
    push_str(&mut rep, "__");
    let rep = from_chars(&rep);
    let a = replace(content, "cacheV__0__", rep.as_str());
    replace(a.as_str(), "export { };", "")
}

/// The dev-version stamp of the service worker: nothing for version 0.
pub fn apply_devappversion_sw(content: &str, devappversion: u32) -> (r: Option<String>)
    ensures
        devappversion == 0 ==> r.is_none(),
        devappversion != 0 ==> (r matches Some(s) && s@ == sw_version_spec(content@, devappversion)),
{
    if devappversion == 0 {
        None
    } else {
        Some(sw_version_text(content, devappversion))
    }
}

/// The server entry with the instance module imported.
pub open spec fn server_index_spec(content: Seq<char>) -> Seq<char> {
    replaced(content, "//{--index_instance.js--}"@, "import INSTANCE from './instance/index.js'"@)
}

/// Links the instance module into the server entry.
pub fn handle_indexjs(content: &str) -> (r: String)
    ensures
        r@ == server_index_spec(content@),
{
    replace(content, "//{--index_instance.js--}", "import INSTANCE from './instance/index.js'")
}

/// The server entry with every version constant set to `v`.
pub open spec fn server_version_spec(content: Seq<char>, v: u32) -> Seq<char> {
    regex_replaced_all(server_version_pattern(), content, "APPVERSION = "@ + decimal(v as nat))
}

/// Stamps a version into the server entry.
pub fn server_version_text(content: &str, v: u32) -> (r: Result<String, PatternRejected>)
    ensures
        match r {
            Ok(s) => regex_accepts(server_version_pattern()) && s@ == server_version_spec(content@, v),
            Err(_) => !regex_accepts(server_version_pattern()),
        },
{
    let mut rep = to_chars("APPVERSION = ");
    push_str(&mut rep, version_text(v).as_str());
    let rep = from_chars(&rep);
    match regex_replace_all("APPVERSION = \\d+", content, rep.as_str()) {
        Some(s) => Ok(s),
        None => Err(PatternRejected),
    }
}

/// The dev-version stamp of the server entry: nothing for version 0.
pub fn apply_devappversion_indexjs(content: &str, devappversion: u32) -> (r: Result<Option<String>, PatternRejected>)
    ensures
        devappversion == 0 ==> r == Ok::<Option<String>, PatternRejected>(None),
        devappversion != 0 ==> match r {
            Ok(Some(s)) => regex_accepts(server_version_pattern()) && s@ == server_version_spec(content@, devappversion),
            Ok(None) => false,
            Err(_) => !regex_accepts(server_version_pattern()),
        },
{
    if devappversion == 0 {
        return Ok(None);
    }
    match server_version_text(content, devappversion) {
        Ok(s) => Ok(Some(s)),
        Err(e) => Err(e),
    }
}

/// The server entry after a server build: the instance module linked in,
/// then, for a development version other than 0, that version stamped.
pub open spec fn postprocess_indexjs_spec(content: Seq<char>, devappversion: u32) -> Seq<char> {
    if devappversion == 0 {
        server_index_spec(content)
    } else {
        server_version_spec(server_index_spec(content), devappversion)
    }
}

/// Links the instance module into the server entry and stamps the
/// development version.
pub fn postprocess_indexjs(content: &str, devappversion: u32) -> (r: Result<String, PatternRejected>)
    ensures
        match r {
            Ok(s) => (devappversion == 0 || regex_accepts(server_version_pattern())) && s@ == postprocess_indexjs_spec(content@, devappversion),
            Err(_) => devappversion != 0 && !regex_accepts(server_version_pattern()),
        },
{
    let linked = handle_indexjs(content);
    match apply_devappversion_indexjs(linked.as_str(), devappversion) {
        Ok(Some(s)) => Ok(s),
        Ok(None) => Ok(linked),
        Err(e) => Err(e),
    }
}

/// The development version recorded in the scratch directory: the trimmed
/// file content read as a `u32`; 0 where the file is missing or unreadable.
pub open spec fn devappversion_spec(content: Option<Seq<char>>) -> u32 {
    let text = match content {
        Some(c) => c,
        None => "0"@,
    };
    match parsed_u32(trimmed(text)) {
        Some(v) => v,
        None => 0,
    }
}

/// Reads the development version from the recorded text.
pub fn devappversion_from(content: Option<&str>) -> (r: u32)
    ensures
        r == devappversion_spec(match content { Some(c) => Some(c@), None => None }),
{
    let text = match content {
        Some(c) => to_chars(c),
        None => to_chars("0"),
    };
    match parse_u32(&trim_chars(&text)) {
        Some(v) => v,
        None => 0,
    }
}

/// The MIME type served for a media file, by its extension.
pub open spec fn mime_spec(file_path: Seq<char>) -> Seq<char> {
    let e = match extension_of(file_path) {
        Some(e) => e,
        None => seq![],
    };
    if e == "svg"@ {
        "image/svg+xml"@
    } else if e == "png"@ {
        "image/png"@
    } else if e == "jpg"@ || e == "jpeg"@ {
        "image/jpeg"@
    } else if e == "webp"@ {
        "image/webp"@
    } else if e == "gif"@ {
        "image/gif"@
    } else {
        "application/octet-stream"@
    }
}

fn is_lit(a: &[char], lit: &str) -> (r: bool)
    ensures
        r == (a@ == lit@),
{
    let l = to_chars(lit);
    crate::paths::chars_eq(a, &l)
}

/// The MIME type served for a media file.
pub fn mime_for_media_path(file_path: &str) -> (r: String)
    ensures
        r@ == mime_spec(file_path@),
{
    let p = to_chars(file_path);
    let e = match extension_exec(&p) {
        Some(e) => e,
        None => Vec::new(),
    };
    if is_lit(&e, "svg") {
        String::from_str("image/svg+xml")
    } else if is_lit(&e, "png") {
        String::from_str("image/png")
    } else if is_lit(&e, "jpg") || is_lit(&e, "jpeg") {
        String::from_str("image/jpeg")
    } else if is_lit(&e, "webp") {
        String::from_str("image/webp")
    } else if is_lit(&e, "gif") {
        String::from_str("image/gif")
    } else {
        String::from_str("application/octet-stream")
    }
}

/// The source file behind a media URL of the manifest: `/assets/instance/media/…`
/// lives in the instance sources, `/assets/media/…` in the core sources.
pub open spec fn media_source_spec(d: Dirs, src: Seq<char>) -> Option<Seq<char>> {
    let inst = "/assets/instance/media/"@;
    let core = "/assets/media/"@;
    if has_prefix(src, inst) {
        Some(location_with(d, PathE::InstanceClientSrc, "media/"@ + src.skip(inst.len() as int)))
    } else if has_prefix(src, core) {
        Some(location_with(d, PathE::ClientSrc, "media/"@ + src.skip(core.len() as int)))
    } else {
        None
    }
}

/// Maps a media URL of the manifest back to its source file.
pub fn resolve_media_src_path(d: &Dirs, src: &str) -> (r: Option<String>)
    ensures
        match r {
            Some(p) => media_source_spec(*d, src@) == Some(p@),
            None => media_source_spec(*d, src@).is_none(),
        },
{
    let s = to_chars(src);
    let inst = to_chars("/assets/instance/media/");
    let core = to_chars("/assets/media/");
    if starts_with(&s, &inst) {
        let mut rel = to_chars("media/");
        push_chars(&mut rel, &slice_chars(&s, inst.len(), s.len()));
        let rel = from_chars(&rel);
        Some(crate::dirs::pathp(d, PathE::InstanceClientSrc, rel.as_str()))
    } else if starts_with(&s, &core) {
        let mut rel = to_chars("media/");
        push_chars(&mut rel, &slice_chars(&s, core.len(), s.len()));
        let rel = from_chars(&rel);
        Some(crate::dirs::pathp(d, PathE::ClientSrc, rel.as_str()))
    } else {
        None
    }
}

} // verus!
