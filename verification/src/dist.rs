//! The production build: version bump, the ordered generation steps, the
//! rewrites of the shell, entry page, service worker and server entry, the
//! bundle list, and which outputs are compressed.

use vstd::prelude::*;
use crate::devtext::{manifest_version_pattern, server_version_pattern, sw_version_spec, server_version_spec, PatternRejected, version_text, sw_version_text, server_version_text};
use crate::dirs::{Dirs, PathE, location, location_with, location_chars};
use crate::external::{regex_accepts, regex_captured, regex_replaced_first, regex_replaced_all, regex_captures, regex_replace_first, regex_replace_all, brotli_compressed, brotli_compress};
use crate::helpers::pairs_view;
use crate::paths::{extension_of, with_extension, extension_exec, with_extension_exec, chars_eq};
use crate::text::{replaced, decimal, parsed_u32, strs_view, lemma_strs_push, to_chars, from_chars, push_str, push_chars, replace, parse_u32, u64_decimal};

verus! {

/// Why a production build step cannot go on.
#[derive(Debug, Clone, Copy, PartialEq, Eq)]
pub enum DistError {
    /// A regex that the step depends on was rejected by the regex engine.
    PatternRejected,
    /// The manifest has no version field.
    NoVersion,
    /// The version field is not a `u32`.
    BadVersion,
    /// The version cannot be increased.
    VersionOverflow,
}

// ---------------------------------------------------------------------------
// Version bump
// ---------------------------------------------------------------------------

/// The version field's digits, where the manifest has one.
pub open spec fn manifest_version_digits(content: Seq<char>) -> Option<Seq<char>> {
    match regex_captured(manifest_version_pattern(), content) {
        Some(g) => if g.len() > 1 && g[1] is Some { Some(g[1]->0) } else { None },
        None => None,
    }
}

/// The next app version and the instance manifest rewritten to carry it:
/// the version found is increased by one and every version field is set.
pub open spec fn next_appversion_spec(content: Seq<char>) -> Result<(u32, Seq<char>), DistError> {
    match manifest_version_digits(content) {
        None => Err(DistError::NoVersion),
        Some(digits) => match parsed_u32(digits) {
            None => Err(DistError::BadVersion),
            Some(v) => if v == u32::MAX {
                Err(DistError::VersionOverflow)
            } else {
                Ok(((v + 1) as u32, regex_replaced_all(manifest_version_pattern(), content, "\"version\":\""@ + decimal((v + 1) as nat) + "\""@)))
            },
        },
    }
}

/// Increases the app version recorded in the instance manifest.
pub fn iterate_manifest_appversion(content: &str) -> (r: Result<(u32, String), DistError>)
    ensures
        match r {
            Ok((v, s)) => regex_accepts(manifest_version_pattern()) && next_appversion_spec(content@) == Ok::<(u32, Seq<char>), DistError>((v, s@)),
            Err(DistError::PatternRejected) => !regex_accepts(manifest_version_pattern()),
            Err(e) => regex_accepts(manifest_version_pattern()) && next_appversion_spec(content@) == Err::<(u32, Seq<char>), DistError>(e),
        },
{
    let pattern = "\"version\":\\s*\"(\\d+)\"";
    let groups = match regex_captures(pattern, content) {
        None => return Err(DistError::PatternRejected),
        Some(None) => return Err(DistError::NoVersion),
        Some(Some(g)) => g,
    };
    if groups.len() < 2 {
        return Err(DistError::NoVersion);
    }
    let digits = match &groups[1] {
        Some(t) => to_chars(t.as_str()),
        None => return Err(DistError::NoVersion),
    };
    let v = match parse_u32(&digits) {
        Some(v) => v,
        None => return Err(DistError::BadVersion),
    };
    if v == 4294967295u32 {
        return Err(DistError::VersionOverflow);
    }
    let next = v + 1;
    let mut rep = to_chars("\"version\":\"");
    push_str(&mut rep, version_text(next).as_str());
    push_str(&mut rep, "\"");
    let rep = from_chars(&rep);
    match regex_replace_all(pattern, content, rep.as_str()) {
        Some(s) => Ok((next, s)),
        None => Err(DistError::PatternRejected),
    }
}

// ---------------------------------------------------------------------------
// Generation steps
// ---------------------------------------------------------------------------

/// One step of generating the distribution from the development output.
#[derive(Debug)]
pub enum GenStep {
    /// Copy the manifest with its version set.
    Manifest { src: String, dest: String },
    /// Copy the shell page with the version and update time stamped.
    IndexHtml { src: String, dest: String },
    /// Copy a file byte for byte.
    CopyFile { src: String, dest: String },
    /// Copy the service worker with its cache name stamped.
    ServiceWorker { src: String, dest: String },
    /// Copy a text file.
    CopyText { src: String, dest: String },
    /// Copy a whole folder.
    CopyTree { src: String, dest: String },
    /// Bundle and minify the style sheets.
    Css,
    /// Stamp the version into the server entry in place.
    ServerVersion { path: String },
}

/// The plain content of a generation step.
pub enum GenStepV {
    Manifest { src: Seq<char>, dest: Seq<char> },
    IndexHtml { src: Seq<char>, dest: Seq<char> },
    CopyFile { src: Seq<char>, dest: Seq<char> },
    ServiceWorker { src: Seq<char>, dest: Seq<char> },
    CopyText { src: Seq<char>, dest: Seq<char> },
    CopyTree { src: Seq<char>, dest: Seq<char> },
    Css,
    ServerVersion { path: Seq<char> },
}

impl View for GenStep {
    type V = GenStepV;

    open spec fn view(&self) -> GenStepV {
        match self {
            GenStep::Manifest { src, dest } => GenStepV::Manifest { src: src@, dest: dest@ },
            GenStep::IndexHtml { src, dest } => GenStepV::IndexHtml { src: src@, dest: dest@ },
            GenStep::CopyFile { src, dest } => GenStepV::CopyFile { src: src@, dest: dest@ },
            GenStep::ServiceWorker { src, dest } => GenStepV::ServiceWorker { src: src@, dest: dest@ },
            GenStep::CopyText { src, dest } => GenStepV::CopyText { src: src@, dest: dest@ },
            GenStep::CopyTree { src, dest } => GenStepV::CopyTree { src: src@, dest: dest@ },
            GenStep::Css => GenStepV::Css,
            GenStep::ServerVersion { path } => GenStepV::ServerVersion { path: path@ },
        }
    }
}

/// The views of generation steps.
pub open spec fn gen_view(v: Seq<GenStep>) -> Seq<GenStepV> {
    Seq::new(v.len(), |i: int| v[i]@)
}

/// A file of the development output and the same file in the distribution.
pub open spec fn dev_to_dist(d: Dirs, name: Seq<char>) -> (Seq<char>, Seq<char>) {
    (location_with(d, PathE::ClientOutputDev, name), location_with(d, PathE::ClientOutputDist, name))
}

/// The third-party folders of the distribution: core, then instance.
pub open spec fn thirdparty_trees(d: Dirs) -> Seq<GenStepV> {
    seq![
        GenStepV::CopyTree { src: dev_to_dist(d, "thirdparty/"@).0, dest: dev_to_dist(d, "thirdparty/"@).1 },
        GenStepV::CopyTree {
            src: location_with(d, PathE::InstanceClientOutputDev, "thirdparty/"@),
            dest: location_with(d, PathE::InstanceClientOutputDist, "thirdparty/"@),
        },
    ]
}

/// The media folders of the distribution: core, then instance.
pub open spec fn media_trees(d: Dirs) -> Seq<GenStepV> {
    seq![
        GenStepV::CopyTree { src: dev_to_dist(d, "media/"@).0, dest: dev_to_dist(d, "media/"@).1 },
        GenStepV::CopyTree {
            src: location_with(d, PathE::InstanceClientOutputDev, "media/"@),
            dest: location_with(d, PathE::InstanceClientOutputDist, "media/"@),
        },
    ]
}

/// The generation steps, in order: manifest, shell page, settings, service
/// worker, shared worker, third-party code (core, instance), style sheets,
/// media (core, instance), server entry.
pub open spec fn gen_plan(d: Dirs) -> Seq<GenStepV> {
    seq![
        GenStepV::Manifest { src: dev_to_dist(d, "app.webmanifest"@).0, dest: dev_to_dist(d, "app.webmanifest"@).1 },
        GenStepV::IndexHtml { src: dev_to_dist(d, "index.html"@).0, dest: dev_to_dist(d, "index.html"@).1 },
        GenStepV::CopyFile { src: dev_to_dist(d, "main.json"@).0, dest: dev_to_dist(d, "main.json"@).1 },
        GenStepV::ServiceWorker { src: dev_to_dist(d, "sw.js"@).0, dest: dev_to_dist(d, "sw.js"@).1 },
        GenStepV::CopyText { src: dev_to_dist(d, "shared_worker.js"@).0, dest: dev_to_dist(d, "shared_worker.js"@).1 },
    ] + thirdparty_trees(d) + seq![GenStepV::Css] + media_trees(d) + seq![
        GenStepV::ServerVersion { path: location_with(d, PathE::ServerOutput, "index.js"@) },
    ]
}

fn dev_dist(d: &Dirs, name: &str) -> (r: (String, String))
    ensures
        (r.0@, r.1@) == dev_to_dist(*d, name@),
{
    (crate::dirs::pathp(d, PathE::ClientOutputDev, name), crate::dirs::pathp(d, PathE::ClientOutputDist, name))
}

fn push_gen(v: &mut Vec<GenStep>, s: GenStep)
    ensures
        gen_view(final(v)@) == gen_view(old(v)@).push(s@),
{
    v.push(s);
    assert(gen_view(v@) =~= gen_view(old(v)@).push(s@));
}

fn append_gen(v: &mut Vec<GenStep>, w: Vec<GenStep>)
    ensures
        gen_view(final(v)@) == gen_view(old(v)@) + gen_view(w@),
{
    let mut w = w;
    let ghost wv = w@;
    v.append(&mut w);
    assert(gen_view(v@) =~= gen_view(old(v)@) + gen_view(wv));
}

/// The third-party folders of the distribution.
pub fn process_thirdparty(d: &Dirs) -> (r: Vec<GenStep>)
    ensures
        gen_view(r@) == thirdparty_trees(*d),
{
    let mut v: Vec<GenStep> = Vec::new();
    let (s, t) = dev_dist(d, "thirdparty/");
    push_gen(&mut v, GenStep::CopyTree { src: s, dest: t });
    push_gen(&mut v, GenStep::CopyTree {
        src: crate::dirs::pathp(d, PathE::InstanceClientOutputDev, "thirdparty/"),
        dest: crate::dirs::pathp(d, PathE::InstanceClientOutputDist, "thirdparty/"),
    });
    assert(gen_view(v@) =~= thirdparty_trees(*d));
    v
}

/// The media folders of the distribution.
pub fn process_media(d: &Dirs) -> (r: Vec<GenStep>)
    ensures
        gen_view(r@) == media_trees(*d),
{
    let mut v: Vec<GenStep> = Vec::new();
    let (s, t) = dev_dist(d, "media/");
    push_gen(&mut v, GenStep::CopyTree { src: s, dest: t });
    push_gen(&mut v, GenStep::CopyTree {
        src: crate::dirs::pathp(d, PathE::InstanceClientOutputDev, "media/"),
        dest: crate::dirs::pathp(d, PathE::InstanceClientOutputDist, "media/"),
    });
    assert(gen_view(v@) =~= media_trees(*d));
    v
}

/// The steps that generate the distribution from the development output.
pub fn runit(d: &Dirs) -> (r: Vec<GenStep>)
    ensures
        gen_view(r@) == gen_plan(*d),
{
    let mut v: Vec<GenStep> = Vec::new();
    let (s, t) = dev_dist(d, "app.webmanifest");
    push_gen(&mut v, GenStep::Manifest { src: s, dest: t });
    let (s, t) = dev_dist(d, "index.html");
    push_gen(&mut v, GenStep::IndexHtml { src: s, dest: t });
    let (s, t) = dev_dist(d, "main.json");
    push_gen(&mut v, GenStep::CopyFile { src: s, dest: t });
    let (s, t) = dev_dist(d, "sw.js");
    push_gen(&mut v, GenStep::ServiceWorker { src: s, dest: t });
    let (s, t) = dev_dist(d, "shared_worker.js");
    push_gen(&mut v, GenStep::CopyText { src: s, dest: t });
    append_gen(&mut v, process_thirdparty(d));
    push_gen(&mut v, GenStep::Css);
    append_gen(&mut v, process_media(d));
    push_gen(&mut v, GenStep::ServerVersion { path: crate::dirs::pathp(d, PathE::ServerOutput, "index.js") });
    assert(gen_view(v@) =~= gen_plan(*d));
    v
}

// ---------------------------------------------------------------------------
// Distribution folders and shared definitions
// ---------------------------------------------------------------------------

/// The folders a distribution build removes (where they exist: the
/// distribution and the scratch directory) and then creates.
pub open spec fn reset_dist_plan(d: Dirs) -> (Seq<Seq<char>>, Seq<Seq<char>>) {
    (
        seq![location(d, PathE::ClientOutputDist), location(d, PathE::TMPDir)],
        seq![location(d, PathE::ClientOutputDist), location(d, PathE::InstanceClientOutputDist)],
    )
}

/// The folders a distribution build removes and then creates.
pub fn reset_dist_dirs(d: &Dirs) -> (r: (Vec<String>, Vec<String>))
    ensures
        (strs_view(r.0@), strs_view(r.1@)) == reset_dist_plan(*d),
{
    let mut gone: Vec<String> = Vec::new();
    gone.push(crate::dirs::path(d, PathE::ClientOutputDist));
    gone.push(crate::dirs::path(d, PathE::TMPDir));
    let mut made: Vec<String> = Vec::new();
    made.push(crate::dirs::path(d, PathE::ClientOutputDist));
    made.push(crate::dirs::path(d, PathE::InstanceClientOutputDist));
    assert(strs_view(gone@) =~= reset_dist_plan(*d).0);
    assert(strs_view(made@) =~= reset_dist_plan(*d).1);
    (gone, made)
}

/// The compiled definitions removed before bundling: the scratch copies and
/// the instance's links.
pub open spec fn defs_removals(d: Dirs) -> Seq<Seq<char>> {
    seq![
        location_with(d, PathE::TMPDir, "defs.js"@),
        location_with(d, PathE::TMPDir, "defs_server_symlink.js"@),
        location_with(d, PathE::InstanceClientOutputTMP, "defs.js"@),
        location_with(d, PathE::InstanceClientOutputTMP, "defs_client_symlink.js"@),
        location_with(d, PathE::InstanceClientOutputTMP, "defs_server_symlink.js"@),
        location_with(d, PathE::InstanceClientOutputTMP, "defs_instance_server_symlink.js"@),
    ]
}

/// The definition sources copied in their place, source then target.
pub open spec fn defs_copies(d: Dirs) -> Seq<(Seq<char>, Seq<char>)> {
    seq![
        (location_with(d, PathE::ClientSrc, "defs.ts"@), location_with(d, PathE::TMPDir, "defs.ts"@)),
        (location_with(d, PathE::ServerSrc, "defs.ts"@), location_with(d, PathE::TMPDir, "defs_server_symlink.ts"@)),
        (location_with(d, PathE::InstanceClientSrc, "defs.ts"@), location_with(d, PathE::InstanceClientOutputTMP, "defs.ts"@)),
        (location_with(d, PathE::ClientSrc, "defs.ts"@), location_with(d, PathE::InstanceClientOutputTMP, "defs_client_symlink.ts"@)),
        (location_with(d, PathE::ServerSrc, "defs.ts"@), location_with(d, PathE::InstanceClientOutputTMP, "defs_server_symlink.ts"@)),
        (
            location_with(d, PathE::InstanceServerSrc, "defs.ts"@),
            location_with(d, PathE::InstanceClientOutputTMP, "defs_instance_server_symlink.ts"@),
        ),
    ]
}

fn push_pair(v: &mut Vec<(String, String)>, a: String, b: String)
    ensures
        pairs_view(final(v)@) == pairs_view(old(v)@).push((a@, b@)),
{
    v.push((a, b));
    assert(pairs_view(v@) =~= pairs_view(old(v)@).push((a@, b@)));
}

/// The definition files removed, then the definition sources copied, before
/// the bundle is built.
pub fn handle_defs_files(d: &Dirs) -> (r: (Vec<String>, Vec<(String, String)>))
    ensures
        strs_view(r.0@) == defs_removals(*d),
        pairs_view(r.1@) == defs_copies(*d),
{
    let mut gone: Vec<String> = Vec::new();
    gone.push(crate::dirs::pathp(d, PathE::TMPDir, "defs.js"));
    gone.push(crate::dirs::pathp(d, PathE::TMPDir, "defs_server_symlink.js"));
    gone.push(crate::dirs::pathp(d, PathE::InstanceClientOutputTMP, "defs.js"));
    gone.push(crate::dirs::pathp(d, PathE::InstanceClientOutputTMP, "defs_client_symlink.js"));
    gone.push(crate::dirs::pathp(d, PathE::InstanceClientOutputTMP, "defs_server_symlink.js"));
    gone.push(crate::dirs::pathp(d, PathE::InstanceClientOutputTMP, "defs_instance_server_symlink.js"));
    let mut copies: Vec<(String, String)> = Vec::new();
    push_pair(&mut copies, crate::dirs::pathp(d, PathE::ClientSrc, "defs.ts"), crate::dirs::pathp(d, PathE::TMPDir, "defs.ts"));
    push_pair(&mut copies, crate::dirs::pathp(d, PathE::ServerSrc, "defs.ts"), crate::dirs::pathp(d, PathE::TMPDir, "defs_server_symlink.ts"));
    push_pair(&mut copies, crate::dirs::pathp(d, PathE::InstanceClientSrc, "defs.ts"), crate::dirs::pathp(d, PathE::InstanceClientOutputTMP, "defs.ts"));
    push_pair(&mut copies, crate::dirs::pathp(d, PathE::ClientSrc, "defs.ts"), crate::dirs::pathp(d, PathE::InstanceClientOutputTMP, "defs_client_symlink.ts"));
    push_pair(&mut copies, crate::dirs::pathp(d, PathE::ServerSrc, "defs.ts"), crate::dirs::pathp(d, PathE::InstanceClientOutputTMP, "defs_server_symlink.ts"));
    push_pair(
        &mut copies,
        crate::dirs::pathp(d, PathE::InstanceServerSrc, "defs.ts"),
        crate::dirs::pathp(d, PathE::InstanceClientOutputTMP, "defs_instance_server_symlink.ts"),
    );
    assert(strs_view(gone@) =~= defs_removals(*d));
    assert(pairs_view(copies@) =~= defs_copies(*d));
    (gone, copies)
}

// ---------------------------------------------------------------------------
// Rewrites
// ---------------------------------------------------------------------------

/// The manifest with its first version field set to `v`.
pub open spec fn manifest_dist_spec(content: Seq<char>, v: u32) -> Seq<char> {
    regex_replaced_first(manifest_version_pattern(), content, "\"version\": \""@ + decimal(v as nat) + "\""@)
}

/// The distribution manifest.
pub fn process_manifest(content: &str, appversion: u32) -> (r: Result<String, PatternRejected>)
    ensures
        match r {
            Ok(s) => regex_accepts(manifest_version_pattern()) && s@ == manifest_dist_spec(content@, appversion),
            Err(_) => !regex_accepts(manifest_version_pattern()),
        },
{
    let mut rep = to_chars("\"version\": \"");
    push_str(&mut rep, version_text(appversion).as_str());
    push_str(&mut rep, "\"");
    let rep = from_chars(&rep);
    match regex_replace_first("\"version\":\\s*\"(\\d+)\"", content, rep.as_str()) {
        Some(s) => Ok(s),
        None => Err(PatternRejected),
    }
}

/// The page with the app version and the update time stamped.
pub open spec fn stamped_spec(html: Seq<char>, v: u32, now: u64) -> Seq<char> {
    replaced(
        replaced(html, "APPVERSION=0"@, "APPVERSION="@ + decimal(v as nat)),
        "APPUPDATE_TS=0"@,
        "APPUPDATE_TS="@ + decimal(now as nat),
    )
}

/// Stamps the app version and the update time (seconds since the epoch).
pub fn process_indexhtml(html: &str, appversion: u32, now: u64) -> (r: String)
    ensures
        r@ == stamped_spec(html@, appversion, now),
{
    let mut a = to_chars("APPVERSION=");
    push_str(&mut a, version_text(appversion).as_str());
    let a = from_chars(&a);
    let mut b = to_chars("APPUPDATE_TS=");
    push_chars(&mut b, &u64_decimal(now));
    let b = from_chars(&b);
    let h = replace(html, "APPVERSION=0", a.as_str());
    replace(h.as_str(), "APPUPDATE_TS=0", b.as_str())
}

/// The distribution service worker.
pub fn process_sw(content: &str, appversion: u32) -> (r: String)
    ensures
        r@ == sw_version_spec(content@, appversion),
{
    sw_version_text(content, appversion)
}

/// The server entry with the app version.
pub fn process_server(content: &str, appversion: u32) -> (r: Result<String, PatternRejected>)
    ensures
        match r {
            Ok(s) => regex_accepts(server_version_pattern()) && s@ == server_version_spec(content@, appversion),
            Err(_) => !regex_accepts(server_version_pattern()),
        },
{
    server_version_text(content, appversion)
}

/// The core style sheet with its asset URLs pointing into the development
/// output, so that the bundler can inline the fonts.
pub open spec fn css_urls_spec(content: Seq<char>, dev_out: Seq<char>) -> Seq<char> {
    replaced(content, "url(\"/assets/"@, "url(\""@ + dev_out)
}

/// Points the style sheet's asset URLs into the development output.
pub fn process_css_urls(content: &str, dev_out: &str) -> (r: String)
    ensures
        r@ == css_urls_spec(content@, dev_out@),
{
    let mut rep = to_chars("url(\"");
    push_str(&mut rep, dev_out);
    let rep = from_chars(&rep);
    replace(content, "url(\"/assets/", rep.as_str())
}

/// One style sheet of the distribution: its name (for messages), where it
/// is read and written, whether it is bundled (asset URLs pointed into the
/// development output, fonts inlined) and whether a failure stops the build.
#[derive(Debug)]
pub struct CssJob {
    pub name: String,
    pub input: String,
    pub output: String,
    pub bundle: bool,
    pub required: bool,
}

/// The plain content of a style sheet job.
pub struct CssJobV {
    pub name: Seq<char>,
    pub input: Seq<char>,
    pub output: Seq<char>,
    pub bundle: bool,
    pub required: bool,
}

impl View for CssJob {
    type V = CssJobV;

    open spec fn view(&self) -> CssJobV {
        CssJobV { name: self.name@, input: self.input@, output: self.output@, bundle: self.bundle, required: self.required }
    }
}

/// The views of style sheet jobs.
pub open spec fn css_jobs_view(v: Seq<CssJob>) -> Seq<CssJobV> {
    Seq::new(v.len(), |i: int| v[i]@)
}

/// The style sheets, in order: the core `index.css` (bundled), the core
/// `main.css` and the instance `icons.css`; only the last one is required.
pub open spec fn css_plan(d: Dirs) -> Seq<CssJobV> {
    seq![
        CssJobV {
            name: "index.css"@,
            input: location_with(d, PathE::ClientOutputDev, "index.css"@),
            output: location_with(d, PathE::ClientOutputDist, "index.css"@),
            bundle: true,
            required: false,
        },
        CssJobV {
            name: "main.css"@,
            input: location_with(d, PathE::ClientOutputDev, "main.css"@),
            output: location_with(d, PathE::ClientOutputDist, "main.css"@),
            bundle: false,
            required: false,
        },
        CssJobV {
            name: "icons.css"@,
            input: location_with(d, PathE::InstanceClientOutputDev, "icons.css"@),
            output: location_with(d, PathE::InstanceClientOutputDist, "icons.css"@),
            bundle: false,
            required: true,
        },
    ]
}

fn push_css(v: &mut Vec<CssJob>, j: CssJob)
    ensures
        css_jobs_view(final(v)@) == css_jobs_view(old(v)@).push(j@),
{
    v.push(j);
    assert(css_jobs_view(v@) =~= css_jobs_view(old(v)@).push(j@));
}

/// The style sheets of the distribution, in the order they are built.
pub fn process_css(d: &Dirs) -> (r: Vec<CssJob>)
    ensures
        css_jobs_view(r@) == css_plan(*d),
{
    let mut v: Vec<CssJob> = Vec::new();
    let (i, o) = dev_dist(d, "index.css");
    push_css(&mut v, CssJob { name: String::from_str("index.css"), input: i, output: o, bundle: true, required: false });
    let (i, o) = dev_dist(d, "main.css");
    push_css(&mut v, CssJob { name: String::from_str("main.css"), input: i, output: o, bundle: false, required: false });
    push_css(&mut v, CssJob {
        name: String::from_str("icons.css"),
        input: crate::dirs::pathp(d, PathE::InstanceClientOutputDev, "icons.css"),
        output: crate::dirs::pathp(d, PathE::InstanceClientOutputDist, "icons.css"),
        bundle: false,
        required: true,
    });
    assert(css_jobs_view(v@) =~= css_plan(*d));
    v
}

/// The folder the style sheet bundler runs in.
pub open spec fn css_cwd_spec(d: Dirs) -> Seq<char> {
    location_with(d, PathE::TMPDir, "files/"@)
}

/// The folder the style sheet bundler runs in.
pub fn css_cwd(d: &Dirs) -> (r: String)
    ensures
        r@ == css_cwd_spec(*d),
{
    crate::dirs::pathp(d, PathE::TMPDir, "files/")
}

/// What became of one run of the style sheet bundler.
#[derive(Debug)]
pub enum CssOutcome {
    /// It succeeded: write its output.
    Write { path: String, content: String },
    /// It failed on an optional sheet: report and go on.
    Report { lines: Vec<String> },
    /// It failed on a required sheet: report and stop with `message`.
    Fail { lines: Vec<String>, message: String },
}

/// The plain content of an outcome.
pub enum CssOutcomeV {
    Write { path: Seq<char>, content: Seq<char> },
    Report { lines: Seq<Seq<char>> },
    Fail { lines: Seq<Seq<char>>, message: Seq<char> },
}

impl View for CssOutcome {
    type V = CssOutcomeV;

    open spec fn view(&self) -> CssOutcomeV {
        match self {
            CssOutcome::Write { path, content } => CssOutcomeV::Write { path: path@, content: content@ },
            CssOutcome::Report { lines } => CssOutcomeV::Report { lines: strs_view(lines@) },
            CssOutcome::Fail { lines, message } => CssOutcomeV::Fail { lines: strs_view(lines@), message: message@ },
        }
    }
}

/// An `i32` as `{:?}` writes it.
pub open spec fn i32_text_spec(c: i32) -> Seq<char> {
    if c < 0 {
        "-"@ + decimal((0 - c) as nat)
    } else {
        decimal(c as nat)
    }
}

/// An exit code as `{:?}` writes an `Option<i32>`.
pub open spec fn exit_code_text(code: Option<i32>) -> Seq<char> {
    match code {
        Some(c) => "Some("@ + i32_text_spec(c) + ")"@,
        None => "None"@,
    }
}

/// The bundler's error output and standard output, each where it is not empty.
pub open spec fn css_failure_lines(name: Seq<char>, stdout: Seq<char>, stderr: Seq<char>) -> Seq<Seq<char>> {
    (if stderr.len() > 0 { seq!["esbuild "@ + name + " error: "@ + stderr] } else { seq![] })
        + (if stdout.len() > 0 { seq!["esbuild "@ + name + ": "@ + stdout] } else { seq![] })
}

/// The line that gives the bundler's exit code.
pub open spec fn css_exit_line(name: Seq<char>, code: Option<i32>) -> Seq<char> {
    "esbuild "@ + name + " command failed with exit code: "@ + exit_code_text(code)
}

/// A successful run writes its standard output to the sheet's output; a
/// failed one reports its output and exit code, and stops the build only for
/// a required sheet.
pub open spec fn css_outcome_spec(job: CssJobV, success: bool, code: Option<i32>, stdout: Seq<char>, stderr: Seq<char>) -> CssOutcomeV {
    if success {
        CssOutcomeV::Write { path: job.output, content: stdout }
    } else if job.required {
        CssOutcomeV::Fail { lines: css_failure_lines(job.name, stdout, stderr), message: css_exit_line(job.name, code) }
    } else {
        CssOutcomeV::Report { lines: css_failure_lines(job.name, stdout, stderr).push(css_exit_line(job.name, code)) }
    }
}

fn i32_text(c: i32) -> (r: Vec<char>)
    ensures
        r@ == i32_text_spec(c),
{
    if c < 0 {
        let mut t = to_chars("-");
        let m: i64 = 0 - (c as i64);
        push_chars(&mut t, &u64_decimal(m as u64));
        t
    } else {
        u64_decimal(c as u64)
    }
}

fn exit_code_chars(code: Option<i32>) -> (r: Vec<char>)
    ensures
        r@ == exit_code_text(code),
{
    match code {
        Some(c) => {
            let mut t = to_chars("Some(");
            push_chars(&mut t, &i32_text(c));
            push_str(&mut t, ")");
            t
        },
        None => to_chars("None"),
    }
}

fn labelled(name: &str, middle: &str, tail: &[char]) -> (r: String)
    ensures
        r@ == "esbuild "@ + name@ + middle@ + tail@,
{
    let mut t = to_chars("esbuild ");
    push_str(&mut t, name);
    push_str(&mut t, middle);
    push_chars(&mut t, tail);
    from_chars(&t)
}

/// What to do with one run of the style sheet bundler for `job`.
pub fn css_outcome(job: &CssJob, success: bool, code: Option<i32>, stdout: &str, stderr: &str) -> (r: CssOutcome)
    ensures
        r@ == css_outcome_spec(job@, success, code, stdout@, stderr@),
{
    if success {
        return CssOutcome::Write { path: job.output.clone(), content: String::from_str(stdout) };
    }
    let mut lines: Vec<String> = Vec::new();
    assert(strs_view(lines@) =~= Seq::<Seq<char>>::empty());
    let err = to_chars(stderr);
    let out = to_chars(stdout);
    if err.len() > 0 {
        let l = labelled(job.name.as_str(), " error: ", &err);
        proof { lemma_strs_push(lines@, l); }
        lines.push(l);
    }
    if out.len() > 0 {
        let l = labelled(job.name.as_str(), ": ", &out);
        proof { lemma_strs_push(lines@, l); }
        lines.push(l);
    }
    assert(strs_view(lines@) =~= css_failure_lines(job.name@, stdout@, stderr@));
    let exit = labelled(job.name.as_str(), " command failed with exit code: ", &exit_code_chars(code));
    if job.required {
        CssOutcome::Fail { lines, message: exit }
    } else {
        proof { lemma_strs_push(lines@, exit); }
        lines.push(exit);
        CssOutcome::Report { lines }
    }
}

/// The bundler arguments for a style sheet: with inlined fonts for the core
/// sheet, minified only for the others.
pub open spec fn css_args_spec(input: Seq<char>, bundle: bool) -> Seq<Seq<char>> {
    if bundle {
        seq![input, "--bundle"@, "--minify"@, "--loader:.woff2=dataurl"@]
    } else {
        seq![input, "--minify"@]
    }
}

/// The bundler arguments for a style sheet.
pub fn css_esbuild_args(input: &str, bundle: bool) -> (r: Vec<String>)
    ensures
        strs_view(r@) == css_args_spec(input@, bundle),
{
    let mut v: Vec<String> = Vec::new();
    v.push(String::from_str(input));
    if bundle {
        v.push(String::from_str("--bundle"));
        v.push(String::from_str("--minify"));
        v.push(String::from_str("--loader:.woff2=dataurl"));
    } else {
        v.push(String::from_str("--minify"));
    }
    assert(strs_view(v@) =~= css_args_spec(input@, bundle));
    v
}

/// The entry page with its script and style inlined and the version and
/// update time stamped.
pub open spec fn entry_html_spec(html: Seq<char>, js: Seq<char>, css: Seq<char>, v: u32, now: u64) -> Seq<char> {
    let a = replaced(html, "<script src=\"/entry/index.js\" type=\"module\"></script>"@, "<script type=\"module\">"@ + js + "</script>"@);
    let b = replaced(a, "<link rel=\"stylesheet\" href=\"/entry/index.css\">"@, "<style>"@ + css + "</style>"@);
    stamped_spec(b, v, now)
}

/// The self-contained entry page.
pub fn entry_html(html: &str, js: &str, css: &str, appversion: u32, now: u64) -> (r: String)
    ensures
        r@ == entry_html_spec(html@, js@, css@, appversion, now),
{
    let mut js_tag = to_chars("<script type=\"module\">");
    push_str(&mut js_tag, js);
    push_str(&mut js_tag, "</script>");
    let js_tag = from_chars(&js_tag);
    let a = replace(html, "<script src=\"/entry/index.js\" type=\"module\"></script>", js_tag.as_str());
    let mut css_tag = to_chars("<style>");
    push_str(&mut css_tag, css);
    push_str(&mut css_tag, "</style>");
    let css_tag = from_chars(&css_tag);
    let b = replace(a.as_str(), "<link rel=\"stylesheet\" href=\"/entry/index.css\">", css_tag.as_str());
    process_indexhtml(b.as_str(), appversion, now)
}

// ---------------------------------------------------------------------------
// Compression
// ---------------------------------------------------------------------------

/// Outputs that get a compressed copy: scripts and style sheets over 4000 bytes.
pub open spec fn compress_spec(path: Seq<char>, size: u64) -> bool {
    match extension_of(path) {
        Some(e) => (e == "js"@ || e == "css"@) && size > 4000,
        None => false,
    }
}

/// Whether an output gets a compressed copy.
pub fn should_compress(path: &str, size: u64) -> (r: bool)
    ensures
        r == compress_spec(path@, size),
{
    let p = to_chars(path);
    match extension_exec(&p) {
        Some(e) => (chars_eq(&e, &to_chars("js")) || chars_eq(&e, &to_chars("css"))) && size > 4000,
        None => false,
    }
}

/// Where the compressed copy goes: the extension gets `.br` appended.
pub open spec fn brotli_path_spec(path: Seq<char>, ext: Seq<char>) -> Seq<char> {
    with_extension(path, ext + ".br"@)
}

/// Where the compressed copy of an output goes.
pub fn brotli_path(path: &str, ext: &str) -> (r: String)
    ensures
        r@ == brotli_path_spec(path@, ext@),
{
    let mut e = to_chars(ext);
    push_str(&mut e, ".br");
    from_chars(&with_extension_exec(&to_chars(path), &e))
}

/// The compressed copy: buffer 4096, quality 11, window 22.
pub fn process_brotli(input: &[u8]) -> (r: Vec<u8>)
    ensures
        r@ == brotli_compressed(input@, 4096, 11, 22),
{
    brotli_compress(input, 4096, 11, 22)
}

/// The pattern that lists every file of the distribution.
pub open spec fn dist_glob_spec(d: Dirs) -> Seq<char> {
    location(d, PathE::ClientOutputDist) + "/**/*"@
}

/// The pattern that lists every file of the distribution.
pub fn dist_glob(d: &Dirs) -> (r: String)
    ensures
        r@ == dist_glob_spec(*d),
{
    let mut g = location_chars(d, PathE::ClientOutputDist);
    push_str(&mut g, "/**/*");
    from_chars(&g)
}

} // verus!
