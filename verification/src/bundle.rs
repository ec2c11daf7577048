//! What the production bundler is given: the lazily loaded modules, the main
//! bundle and the output directory; how view components are assembled and
//! minified; and how view load functions are collected for the server.

use vstd::prelude::*;
use crate::dirs::{Dirs, PathE, location, location_with};
use crate::external::{js_minified, lower_case, minify_js, to_lower};
use crate::paths::{joined_path, chars_eq, join_path_exec};
use crate::text::{has_suffix, joined, strs_view, views_of, lemma_strs_push, to_chars, from_chars, push_str, push_chars, ends_with, join_chars};

verus! {

/// A property definition in a class body, as the logic reads it (filled in
/// from a JavaScript syntax tree by the caller).
#[derive(Debug)]
pub struct ClassProperty {
    /// Declared `static`.
    pub is_static: bool,
    /// The key's name, where the key is a plain identifier.
    pub key_name: Option<String>,
    /// The source text of the initializer, where there is one.
    pub value_text: Option<String>,
}

/// An element of a class body.
#[derive(Debug)]
pub enum ClassElementInfo {
    Property(ClassProperty),
    Other,
}

/// A top-level statement of a program.
#[derive(Debug)]
pub enum TopLevelInfo {
    Class(Vec<ClassElementInfo>),
    Other,
}

// ---------------------------------------------------------------------------
// The bundle list
// ---------------------------------------------------------------------------

/// An entry of a folder listing.
#[derive(Debug)]
pub struct ListedEntry {
    /// The entry's path.
    pub path: String,
    /// The entry's name.
    pub name: String,
    /// Whether it is a directory.
    pub is_dir: bool,
}

/// A directory of lazily loaded modules and its listing.
#[derive(Debug)]
pub struct LazyDir {
    /// The directory's path.
    pub path: String,
    /// Whether it is a directory (non-directories are skipped).
    pub is_dir: bool,
    /// Its entries, in listing order.
    pub entries: Vec<ListedEntry>,
}

/// The module of one entry: a `.js` file itself, or for a folder the `.js`
/// file named after it inside it; nothing for anything else.
pub open spec fn module_of(e: ListedEntry) -> Seq<Seq<char>> {
    if has_suffix(e.name@, ".js"@) {
        seq![e.path@]
    } else if e.is_dir {
        seq![joined_path(e.path@, e.name@ + ".js"@)]
    } else {
        seq![]
    }
}

/// The modules of a folder's entries, in order.
pub open spec fn modules_of(es: Seq<ListedEntry>) -> Seq<Seq<char>>
    decreases es.len(),
{
    if es.len() == 0 {
        seq![]
    } else {
        modules_of(es.drop_last()) + module_of(es.last())
    }
}

/// The lazily loaded modules under a start directory, from its listing:
/// for each sub-directory in order, the modules of its entries.
pub open spec fn lazy_list_spec(dirs: Seq<LazyDir>) -> Seq<Seq<char>>
    decreases dirs.len(),
{
    if dirs.len() == 0 {
        seq![]
    } else {
        lazy_list_spec(dirs.drop_last()) + if dirs.last().is_dir { modules_of(dirs.last().entries@) } else { seq![] }
    }
}

fn module_of_exec(e: &ListedEntry, out: &mut Vec<String>)
    ensures
        strs_view(final(out)@) == strs_view(old(out)@) + module_of(*e),
{
    let name = to_chars(e.name.as_str());
    if ends_with(&name, &to_chars(".js")) {
        let p = e.path.clone();
        proof { lemma_strs_push(out@, p); }
        out.push(p);
        assert(strs_view(out@) =~= strs_view(old(out)@) + module_of(*e));
    } else if e.is_dir {
        let mut n = name;
        push_str(&mut n, ".js");
        let p = from_chars(&join_path_exec(&to_chars(e.path.as_str()), &n));
        proof { lemma_strs_push(out@, p); }
        out.push(p);
        assert(strs_view(out@) =~= strs_view(old(out)@) + module_of(*e));
    } else {
        assert(strs_view(out@) =~= strs_view(old(out)@) + module_of(*e));
    }
}

/// The lazily loaded modules under a start directory.
pub fn generate_lazy_list(dirs: &Vec<LazyDir>) -> (r: Vec<String>)
    ensures
        strs_view(r@) == lazy_list_spec(dirs@),
{
    let mut out: Vec<String> = Vec::new();
    let mut i: usize = 0;
    while i < dirs.len()
        invariant
            i <= dirs.len(),
            strs_view(out@) == lazy_list_spec(dirs@.take(i as int)),
        decreases dirs.len() - i,
    {
        assert(dirs@.take(i + 1).drop_last() == dirs@.take(i as int));
        let ghost before = strs_view(out@);
        if dirs[i].is_dir {
            let es = &dirs[i].entries;
            let mut k: usize = 0;
            while k < es.len()
                invariant
                    k <= es.len(),
                    strs_view(out@) == before + modules_of(es@.take(k as int)),
                decreases es.len() - k,
            {
                assert(es@.take(k + 1).drop_last() == es@.take(k as int));
                module_of_exec(&es[k], &mut out);
                k = k + 1;
            }
            assert(es@.take(es.len() as int) == es@);
        } else {
            assert(strs_view(out@) =~= before + Seq::<Seq<char>>::empty());
        }
        i = i + 1;
    }
    assert(dirs@.take(dirs.len() as int) == dirs@);
    out
}

/// The generated modules that are bundled too: the main bundle.
pub open spec fn gen_list_spec(d: Dirs) -> Seq<Seq<char>> {
    seq![location_with(d, PathE::TMPDirFiles, "main.js"@)]
}

/// The generated modules that are bundled too.
pub fn set_gen_list(d: &Dirs) -> (r: Vec<String>)
    ensures
        strs_view(r@) == gen_list_spec(*d),
{
    let mut v: Vec<String> = Vec::new();
    v.push(crate::dirs::pathp(d, PathE::TMPDirFiles, "main.js"));
    assert(strs_view(v@) =~= gen_list_spec(*d));
    v
}

/// The bundle instructions: the core lazy modules, the instance lazy
/// modules, the generated modules, and last the output directory.
pub open spec fn bundle_list_spec(d: Dirs, lazy: Seq<Seq<char>>, lazy_instance: Seq<Seq<char>>) -> Seq<Seq<char>> {
    lazy + lazy_instance + gen_list_spec(d) + seq![location(d, PathE::ClientOutputDist)]
}

fn append_strs(out: &mut Vec<String>, more: &Vec<String>)
    ensures
        strs_view(final(out)@) == strs_view(old(out)@) + strs_view(more@),
{
    let mut i: usize = 0;
    while i < more.len()
        invariant
            i <= more.len(),
            strs_view(out@) == strs_view(old(out)@) + strs_view(more@).take(i as int),
        decreases more.len() - i,
    {
        let s = more[i].clone();
        proof { lemma_strs_push(out@, s); }
        out.push(s);
        i = i + 1;
        assert(strs_view(out@) =~= strs_view(old(out)@) + strs_view(more@).take(i as int));
    }
    assert(strs_view(more@).take(more.len() as int) == strs_view(more@));
}

/// The bundle instructions.
pub fn bundle_list(d: &Dirs, lazy: &Vec<String>, lazy_instance: &Vec<String>) -> (r: Vec<String>)
    ensures
        strs_view(r@) == bundle_list_spec(*d, strs_view(lazy@), strs_view(lazy_instance@)),
{
    let mut all: Vec<String> = Vec::new();
    assert(strs_view(all@) =~= Seq::<Seq<char>>::empty());
    append_strs(&mut all, lazy);
    append_strs(&mut all, lazy_instance);
    append_strs(&mut all, &set_gen_list(d));
    let dist = crate::dirs::path(d, PathE::ClientOutputDist);
    proof { lemma_strs_push(all@, dist); }
    all.push(dist);
    assert(strs_view(all@) =~= bundle_list_spec(*d, strs_view(lazy@), strs_view(lazy_instance@)));
    all
}

/// The bundler's arguments for the instructions: fixed options, the output
/// directory (the last instruction), the loader, then the entry points.
pub open spec fn bundler_args_spec(instructions: Seq<Seq<char>>) -> Seq<Seq<char>> {
    seq!["--bundle"@, "--platform=browser"@, "--target=esnext"@, "--minify"@, "--outdir="@ + instructions.last(), "--loader:.js=ts"@]
        + instructions.drop_last()
}

/// The bundler's arguments; `None` where there are no instructions.
pub fn esbuild_args(instructions: &Vec<String>) -> (r: Option<Vec<String>>)
    ensures
        match r {
            Some(a) => instructions@.len() > 0 && strs_view(a@) == bundler_args_spec(strs_view(instructions@)),
            None => instructions@.len() == 0,
        },
{
    if instructions.len() == 0 {
        return None;
    }
    let mut a: Vec<String> = Vec::new();
    a.push(String::from_str("--bundle"));
    a.push(String::from_str("--platform=browser"));
    a.push(String::from_str("--target=esnext"));
    a.push(String::from_str("--minify"));
    let mut o = to_chars("--outdir=");
    push_str(&mut o, instructions[instructions.len() - 1].as_str());
    a.push(from_chars(&o));
    a.push(String::from_str("--loader:.js=ts"));
    let ghost head = strs_view(a@);
    let mut i: usize = 0;
    while i + 1 < instructions.len()
        invariant
            i + 1 <= instructions.len(),
            strs_view(a@) == head + strs_view(instructions@).drop_last().take(i as int),
        decreases instructions.len() - i,
    {
        let s = instructions[i].clone();
        proof { lemma_strs_push(a@, s); }
        a.push(s);
        i = i + 1;
        assert(strs_view(a@) =~= head + strs_view(instructions@).drop_last().take(i as int));
    }
    assert(strs_view(instructions@).drop_last().take(i as int) == strs_view(instructions@).drop_last());
    assert(strs_view(a@) =~= bundler_args_spec(strs_view(instructions@)));
    Some(a)
}

// ---------------------------------------------------------------------------
// View load functions
// ---------------------------------------------------------------------------

/// The view folders whose load functions are collected.
pub open spec fn views_dirs_spec(d: Dirs) -> Seq<Seq<char>> {
    seq![location_with(d, PathE::TMPDirFiles, "lazy/views/"@), location_with(d, PathE::InstanceClientOutputTMP, "lazy/views/"@)]
}

/// The view folders whose load functions are collected.
pub fn views_dirs(d: &Dirs) -> (r: Vec<String>)
    ensures
        strs_view(r@) == views_dirs_spec(*d),
{
    let mut v: Vec<String> = Vec::new();
    v.push(crate::dirs::pathp(d, PathE::TMPDirFiles, "lazy/views/"));
    v.push(crate::dirs::pathp(d, PathE::InstanceClientOutputTMP, "lazy/views/"));
    assert(strs_view(v@) =~= views_dirs_spec(*d));
    v
}

/// A static `load` property with an initializer.
pub open spec fn is_static_load(e: ClassElementInfo) -> bool {
    match e {
        ClassElementInfo::Property(p) => p.is_static && (p.key_name matches Some(k) && k@ == "load"@) && p.value_text is Some,
        ClassElementInfo::Other => false,
    }
}

/// The initializer of the first static `load` property among `es`.
pub open spec fn first_load_in(es: Seq<ClassElementInfo>) -> Option<Seq<char>>
    decreases es.len(),
{
    if es.len() == 0 {
        None
    } else if is_static_load(es[0]) {
        match es[0] {
            ClassElementInfo::Property(p) => Some(p.value_text->0@),
            ClassElementInfo::Other => None,
        }
    } else {
        first_load_in(es.drop_first())
    }
}

/// The initializer of the first static `load` property of a top-level class.
pub open spec fn first_load(items: Seq<TopLevelInfo>) -> Option<Seq<char>>
    decreases items.len(),
{
    if items.len() == 0 {
        None
    } else {
        match items[0] {
            TopLevelInfo::Class(es) => match first_load_in(es@) {
                Some(v) => Some(v),
                None => first_load(items.drop_first()),
            },
            TopLevelInfo::Other => first_load(items.drop_first()),
        }
    }
}

/// The load function of a view: named `load_` and the folder's lower-case
/// name, with the initializer of the first static `load` property of a
/// top-level class of the view's module.
pub open spec fn static_load_spec(items: Seq<TopLevelInfo>, folder_name: Seq<char>) -> Option<(Seq<char>, Seq<char>)> {
    match first_load(items) {
        Some(body) => Some(("load_"@ + lower_case(folder_name), body)),
        None => None,
    }
}

fn first_load_in_exec(es: &Vec<ClassElementInfo>) -> (r: Option<String>)
    ensures
        match r {
            Some(b) => first_load_in(es@) == Some(b@),
            None => first_load_in(es@).is_none(),
        },
{
    let mut i: usize = 0;
    assert(es@.skip(0) == es@);
    while i < es.len()
        invariant
            i <= es.len(),
            first_load_in(es@.skip(i as int)) == first_load_in(es@),
        decreases es.len() - i,
    {
        assert(es@.skip(i as int)[0] == es@[i as int]);
        assert(es@.skip(i as int).drop_first() == es@.skip(i + 1));
        match &es[i] {
            ClassElementInfo::Property(p) => {
                let is_load = match &p.key_name {
                    Some(k) => chars_eq(&to_chars(k.as_str()), &to_chars("load")),
                    None => false,
                };
                if p.is_static && is_load {
                    match &p.value_text {
                        Some(v) => return Some(v.clone()),
                        None => {},
                    }
                }
            },
            ClassElementInfo::Other => {},
        }
        i = i + 1;
    }
    assert(es@.skip(i as int).len() == 0);
    None
}

/// The load function of a view, from the top-level statements of its module.
pub fn extract_static_load(items: &Vec<TopLevelInfo>, folder_name: &str) -> (r: Option<(String, String)>)
    ensures
        match r {
            Some((n, b)) => static_load_spec(items@, folder_name@) == Some((n@, b@)),
            None => static_load_spec(items@, folder_name@).is_none(),
        },
{
    let mut i: usize = 0;
    assert(items@.skip(0) == items@);
    while i < items.len()
        invariant
            i <= items.len(),
            first_load(items@.skip(i as int)) == first_load(items@),
        decreases items.len() - i,
    {
        assert(items@.skip(i as int)[0] == items@[i as int]);
        assert(items@.skip(i as int).drop_first() == items@.skip(i + 1));
        match &items[i] {
            TopLevelInfo::Class(es) => {
                if let Some(body) = first_load_in_exec(es) {
                    let mut n = to_chars("load_");
                    push_str(&mut n, to_lower(folder_name).as_str());
                    return Some((from_chars(&n), body));
                }
            },
            TopLevelInfo::Other => {},
        }
        i = i + 1;
    }
    assert(items@.skip(i as int).len() == 0);
    None
}

/// The server module that exports the load functions: one constant per
/// function, then a default export of all of them.
pub open spec fn viewloads_source_spec(loads: Seq<(Seq<char>, Seq<char>)>) -> Seq<char> {
    viewloads_consts(loads) + "export default{"@ + joined(Seq::new(loads.len(), |i: int| loads[i].0), ","@) + "};"@
}

/// One `const name=body;` line per load function.
pub open spec fn viewloads_consts(loads: Seq<(Seq<char>, Seq<char>)>) -> Seq<char>
    decreases loads.len(),
{
    if loads.len() == 0 {
        seq![]
    } else {
        viewloads_consts(loads.drop_last()) + "const "@ + loads.last().0 + "="@ + loads.last().1 + ";\n"@
    }
}

/// The views of load functions.
pub open spec fn loads_view(v: Seq<(String, String)>) -> Seq<(Seq<char>, Seq<char>)> {
    Seq::new(v.len(), |i: int| (v[i].0@, v[i].1@))
}

/// The source of the server module that exports the load functions.
pub fn viewloads_source(loads: &Vec<(String, String)>) -> (r: String)
    ensures
        r@ == viewloads_source_spec(loads_view(loads@)),
{
    let ghost lv = loads_view(loads@);
    let mut out: Vec<char> = Vec::new();
    let mut names: Vec<Vec<char>> = Vec::new();
    let mut i: usize = 0;
    while i < loads.len()
        invariant
            i <= loads.len(),
            lv == loads_view(loads@),
            out@ == viewloads_consts(lv.take(i as int)),
            views_of(names@) == Seq::new(i as nat, |k: int| lv[k].0),
        decreases loads.len() - i,
    {
        assert(lv.take(i + 1).drop_last() == lv.take(i as int));
        push_str(&mut out, "const ");
        push_str(&mut out, loads[i].0.as_str());
        push_str(&mut out, "=");
        push_str(&mut out, loads[i].1.as_str());
        push_str(&mut out, ";\n");
        let n = to_chars(loads[i].0.as_str());
        proof { crate::paths::lemma_views_push(names@, n); }
        names.push(n);
        i = i + 1;
        assert(views_of(names@) =~= Seq::new(i as nat, |k: int| lv[k].0));
    }
    assert(lv.take(loads.len() as int) == lv);
    push_str(&mut out, "export default{");
    push_chars(&mut out, &join_chars(&names, &to_chars(",")));
    push_str(&mut out, "};");
    from_chars(&out)
}

/// The minified server module; `None` where the minifier reports an error.
pub fn minified_viewloads(loads: &Vec<(String, String)>) -> (r: Option<String>)
    ensures
        match r {
            Some(s) => js_minified(viewloads_source_spec(loads_view(loads@))) == Some(s@),
            None => js_minified(viewloads_source_spec(loads_view(loads@))).is_none(),
        },
{
    let src = viewloads_source(loads);
    minify_js(src.as_str())
}

} // verus!
