//! The first production pass over the development output: which files are
//! counted and minified, how a view or component module takes in its markup,
//! style and parts, and where the minified module goes.

use vstd::prelude::*;
use crate::dirs::{Dirs, PathE, location, location_with, location_chars, location_with_chars};
use crate::external::{js_minified, minify_js};
use crate::paths::{components, extension_of, stripped, joined_path, components_exec, extension_exec, strip_prefix_exec, join_path_exec, chars_eq};
use crate::text::{replaced, lines_of, views_of, to_chars, from_chars, push_str, push_chars, replace, lines_chars, decimal, u64_decimal, strs_view};

verus! {

/// What the pass has processed so far.
#[derive(Debug, Clone, Copy, PartialEq, Eq)]
pub struct ProcessedStatsT {
    pub js_files_count: u32,
    pub html_files_count: u32,
    pub css_files_count: u32,
    pub lines_of_js: u32,
}

/// The kind of a development output file.
#[derive(Debug, Clone, Copy, PartialEq, Eq)]
pub enum OutputKind {
    Js,
    Html,
    Css,
    Other,
}

/// The kind of an output file, by its extension.
pub open spec fn kind_spec(path: Seq<char>) -> OutputKind {
    match extension_of(path) {
        Some(e) => if e == "js"@ {
            OutputKind::Js
        } else if e == "html"@ {
            OutputKind::Html
        } else if e == "css"@ {
            OutputKind::Css
        } else {
            OutputKind::Other
        },
        None => OutputKind::Other,
    }
}

/// Whether the walk enters an entry: everything but media.
pub open spec fn skip_entry_spec(name: Seq<char>) -> bool {
    name != "media"@
}

/// Whether the walk enters an entry.
pub fn is_skip_entry(name: &str) -> (r: bool)
    ensures
        r == skip_entry_spec(name@),
{
    !chars_eq(&to_chars(name), &to_chars("media"))
}

/// Counts a markup or style file; scripts are counted when processed.
pub fn process_file(file_in_path: &str, stats: &mut ProcessedStatsT) -> (r: OutputKind)
    requires
        old(stats).html_files_count < u32::MAX,
        old(stats).css_files_count < u32::MAX,
    ensures
        r == kind_spec(file_in_path@),
        final(stats).js_files_count == old(stats).js_files_count,
        final(stats).lines_of_js == old(stats).lines_of_js,
        final(stats).html_files_count == old(stats).html_files_count + if r == OutputKind::Html { 1int } else { 0 },
        final(stats).css_files_count == old(stats).css_files_count + if r == OutputKind::Css { 1int } else { 0 },
{
    let p = to_chars(file_in_path);
    let kind = match extension_exec(&p) {
        Some(e) => if chars_eq(&e, &to_chars("js")) {
            OutputKind::Js
        } else if chars_eq(&e, &to_chars("html")) {
            OutputKind::Html
        } else if chars_eq(&e, &to_chars("css")) {
            OutputKind::Css
        } else {
            OutputKind::Other
        },
        None => OutputKind::Other,
    };
    match kind {
        OutputKind::Html => stats.html_files_count = stats.html_files_count + 1,
        OutputKind::Css => stats.css_files_count = stats.css_files_count + 1,
        _ => {},
    }
    kind
}

/// Records a processed script of `line_count` lines (the count truncated to
/// 32 bits, as the total is kept in 32 bits).
pub fn record_js(stats: &mut ProcessedStatsT, js_text: &str)
    requires
        old(stats).js_files_count < u32::MAX,
        old(stats).lines_of_js + (lines_of(js_text@).len() as u32) <= u32::MAX,
    ensures
        final(stats).js_files_count == old(stats).js_files_count + 1,
        final(stats).lines_of_js == old(stats).lines_of_js + (lines_of(js_text@).len() as u32),
        final(stats).html_files_count == old(stats).html_files_count,
        final(stats).css_files_count == old(stats).css_files_count,
{
    let n = lines_chars(&to_chars(js_text)).len();
    stats.js_files_count = stats.js_files_count + 1;
    stats.lines_of_js = stats.lines_of_js + (n as u32);
}

/// A module under `lazy` that is a view or a component takes in its markup
/// and style.
pub open spec fn component_spec(path: Seq<char>) -> bool {
    let c = components(path);
    c.contains("lazy"@) && (c.contains("views"@) || c.contains("components"@))
}

/// Whether `path` has the component `name`.
fn has_component(c: &Vec<Vec<char>>, name: &str) -> (r: bool)
    ensures
        r == views_of(c@).contains(name@),
{
    let n = to_chars(name);
    let mut i: usize = 0;
    while i < c.len()
        invariant
            i <= c.len(),
            n@ == name@,
            forall|k: int| 0 <= k < i ==> c@[k]@ != name@,
        decreases c.len() - i,
    {
        if chars_eq(&c[i], &n) {
            assert(views_of(c@)[i as int] == name@);
            return true;
        }
        i = i + 1;
    }
    assert forall|k: int| 0 <= k < views_of(c@).len() implies views_of(c@)[k] != name@ by {
        assert(views_of(c@)[k] == c@[k]@);
    }
    false
}

/// Whether a script is a view or a component module.
pub fn is_component_module(path: &str) -> (r: bool)
    ensures
        r == component_spec(path@),
{
    let c = components_exec(&to_chars(path));
    has_component(&c, "lazy") && (has_component(&c, "views") || has_component(&c, "components"))
}

/// Whether a module lies under a `views` folder.
pub open spec fn in_views_spec(path: Seq<char>) -> bool {
    components(path).contains("views"@)
}

/// Whether a module lies under a `views` folder.
pub fn is_view_module(path: &str) -> (r: bool)
    ensures
        r == in_views_spec(path@),
{
    let c = components_exec(&to_chars(path));
    has_component(&c, "views")
}

/// The text of a companion file, or a single space where it is missing.
pub open spec fn or_space(t: Option<Seq<char>>) -> Seq<char> {
    match t {
        Some(s) => s,
        None => " "@,
    }
}

/// A view or component module with its parts imported, its style inlined
/// at `{--css--}` and its markup (for views after a link to the main style
/// sheet) at `{--html--}`.
pub open spec fn combined_spec(js: Seq<char>, css: Option<Seq<char>>, html: Option<Seq<char>>, in_views: bool, imports: Seq<char>) -> Seq<char> {
    let style = "<style>"@ + or_space(css) + "</style>"@;
    let markup = (if in_views { "<link rel='stylesheet' href='/assets/main.css'>"@ } else { ""@ }) + or_space(html);
    imports + replaced(replaced(js, "{--css--}"@, style), "{--html--}"@, markup)
}

/// The view of an optional text.
pub open spec fn opt_text(o: Option<&str>) -> Option<Seq<char>> {
    match o {
        Some(s) => Some(s@),
        None => None,
    }
}

/// Assembles a view or component module.
pub fn process_js_html_css_combined(js_file_str: &str, css: Option<&str>, html: Option<&str>, in_views: bool, import_statements: &str) -> (r: String)
    ensures
        r@ == combined_spec(js_file_str@, opt_text(css), opt_text(html), in_views, import_statements@),
{
    let mut style = to_chars("<style>");
    match css {
        Some(c) => push_str(&mut style, c),
        None => push_str(&mut style, " "),
    }
    push_str(&mut style, "</style>");
    let style = from_chars(&style);
    let mut markup = if in_views { to_chars("<link rel='stylesheet' href='/assets/main.css'>") } else { to_chars("") };
    match html {
        Some(h) => push_str(&mut markup, h),
        None => push_str(&mut markup, " "),
    }
    let markup = from_chars(&markup);
    let a = replace(js_file_str, "{--css--}", style.as_str());
    let b = replace(a.as_str(), "{--html--}", markup.as_str());
    let mut out = to_chars(import_statements);
    push_str(&mut out, b.as_str());
    from_chars(&out)
}

/// A sub-folder of a module's `parts` folder.
#[derive(Debug)]
pub struct PartDir {
    /// The folder's name.
    pub name: String,
    /// Whether it is a directory.
    pub is_dir: bool,
    /// Whether it holds a script named after it.
    pub has_module: bool,
}

/// The import line for a part.
pub open spec fn import_line(name: Seq<char>) -> Seq<char> {
    "import './parts/"@ + name + "/"@ + name + ".js';      \n"@
}

/// The imports of a module's parts: one line per part folder that holds a
/// script named after it, in listing order.
pub open spec fn imports_spec(parts: Seq<PartDir>) -> Seq<char>
    decreases parts.len(),
{
    if parts.len() == 0 {
        seq![]
    } else {
        imports_spec(parts.drop_last()) + if parts.last().is_dir && parts.last().has_module {
            import_line(parts.last().name@)
        } else {
            seq![]
        }
    }
}

/// The imports of a module's parts.
pub fn process_js_parts_import_statements(parts: &Vec<PartDir>) -> (r: String)
    ensures
        r@ == imports_spec(parts@),
{
    let mut out: Vec<char> = Vec::new();
    let mut i: usize = 0;
    while i < parts.len()
        invariant
            i <= parts.len(),
            out@ == imports_spec(parts@.take(i as int)),
        decreases parts.len() - i,
    {
        assert(parts@.take(i + 1).drop_last() == parts@.take(i as int));
        if parts[i].is_dir && parts[i].has_module {
            push_str(&mut out, "import './parts/");
            push_str(&mut out, parts[i].name.as_str());
            push_str(&mut out, "/");
            push_str(&mut out, parts[i].name.as_str());
            push_str(&mut out, ".js';      \n");
        } else {
            assert(out@ =~= out@ + Seq::<char>::empty());
        }
        i = i + 1;
    }
    assert(parts@.take(parts.len() as int) == parts@);
    from_chars(&out)
}

/// The minified script; `None` where the minifier reports an error.
pub fn process_minify_js(js_str: &str) -> (r: Option<String>)
    ensures
        match r {
            Some(s) => js_minified(js_str@) == Some(s@),
            None => js_minified(js_str@).is_none(),
        },
{
    minify_js(js_str)
}

/// Where a processed script goes: the same place relative to the
/// development output, under the scratch files directory.
pub open spec fn tmp_output_spec(d: Dirs, file: Seq<char>) -> Option<Seq<char>> {
    match stripped(file, location(d, PathE::ClientOutputDev)) {
        Some(rel) => Some(joined_path(location_with(d, PathE::TMPDir, "files/"@), rel)),
        None => None,
    }
}

/// Where a processed script goes; `None` where it is not under the
/// development output.
pub fn write_js_path(d: &Dirs, file_in_path: &str) -> (r: Option<String>)
    ensures
        match r {
            Some(p) => tmp_output_spec(*d, file_in_path@) == Some(p@),
            None => tmp_output_spec(*d, file_in_path@).is_none(),
        },
{
    let prefix = location_chars(d, PathE::ClientOutputDev);
    match strip_prefix_exec(&to_chars(file_in_path), &prefix) {
        Some(rel) => {
            let base = location_with_chars(d, PathE::TMPDir, "files/");
            Some(from_chars(&join_path_exec(&base, &rel)))
        },
        None => None,
    }
}

/// The source that is minified for a script: a view or component module
/// assembled with its parts, style and markup; any other script as it is.
pub open spec fn js_source_spec(path: Seq<char>, js: Seq<char>, css: Option<Seq<char>>, html: Option<Seq<char>>, imports: Seq<char>) -> Seq<char> {
    if component_spec(path) {
        combined_spec(js, css, html, in_views_spec(path), imports)
    } else {
        js
    }
}

/// Processes one script of the development output: assembles it where it
/// is a view or component module (`css` and `html` being its companion
/// files' texts, `None` where missing, and `import_statements` its parts'
/// imports), minifies it, and counts it with its lines. Where the minifier
/// reports an error nothing is counted and `None` is returned.
pub fn process_js(
    file_in_path: &str,
    js_file_str: &str,
    css: Option<&str>,
    html: Option<&str>,
    import_statements: &str,
    stats: &mut ProcessedStatsT,
) -> (r: Option<String>)
    requires
        old(stats).js_files_count < u32::MAX,
        old(stats).lines_of_js + (lines_of(js_file_str@).len() as u32) <= u32::MAX,
    ensures
        match r {
            Some(s) => js_minified(js_source_spec(file_in_path@, js_file_str@, opt_text(css), opt_text(html), import_statements@)) == Some(s@),
            None => js_minified(js_source_spec(file_in_path@, js_file_str@, opt_text(css), opt_text(html), import_statements@)).is_none(),
        },
        r is Some ==> final(stats).js_files_count == old(stats).js_files_count + 1,
        r is Some ==> final(stats).lines_of_js == old(stats).lines_of_js + (lines_of(js_file_str@).len() as u32),
        r is None ==> *final(stats) == *old(stats),
        final(stats).html_files_count == old(stats).html_files_count,
        final(stats).css_files_count == old(stats).css_files_count,
{
    let minified = if is_component_module(file_in_path) {
        let combined = process_js_html_css_combined(js_file_str, css, html, is_view_module(file_in_path), import_statements);
        process_minify_js(combined.as_str())
    } else {
        process_minify_js(js_file_str)
    };
    if minified.is_some() {
        record_js(stats, js_file_str);
    }
    minified
}

/// The report at the end of a distribution build.
pub open spec fn dist_summary_spec(appversion: u32, stats: ProcessedStatsT) -> Seq<Seq<char>> {
    seq![
        "APPVersion "@ + decimal(appversion as nat),
        "Processed "@ + decimal(stats.js_files_count as nat) + " JS files"@,
        "Processed "@ + decimal(stats.html_files_count as nat) + " HTML files"@,
        "Processed "@ + decimal(stats.css_files_count as nat) + " CSS files"@,
        "Processed "@ + decimal(stats.lines_of_js as nat) + " lines of JS"@,
    ]
}

fn counted(head: &str, n: u32, tail: &str) -> (r: String)
    ensures
        r@ == head@ + decimal(n as nat) + tail@,
{
    let mut t = to_chars(head);
    push_chars(&mut t, &u64_decimal(n as u64));
    push_str(&mut t, tail);
    from_chars(&t)
}

/// The report at the end of a distribution build, one line each.
pub fn dist_summary(appversion: u32, stats: &ProcessedStatsT) -> (r: Vec<String>)
    ensures
        strs_view(r@) == dist_summary_spec(appversion, *stats),
{
    let mut v: Vec<String> = Vec::new();
    let first = counted("APPVersion ", appversion, "");
    proof {
        reveal_strlit("");
        assert(first@ =~= "APPVersion "@ + decimal(appversion as nat));
    }
    v.push(first);
    v.push(counted("Processed ", stats.js_files_count, " JS files"));
    v.push(counted("Processed ", stats.html_files_count, " HTML files"));
    v.push(counted("Processed ", stats.css_files_count, " CSS files"));
    v.push(counted("Processed ", stats.lines_of_js, " lines of JS"));
    assert(strs_view(v@) =~= dist_summary_spec(appversion, *stats));
    v
}

} // verus!
