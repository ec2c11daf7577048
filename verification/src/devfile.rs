//! What a changed source file triggers during development: which TypeScript
//! files are recompiled to where, which assets are copied, and which
//! generated outputs are refreshed.

use vstd::prelude::*;
use crate::dirs::{Dirs, PathE, location, location_with, location_chars, location_with_chars};
use crate::paths::{path_has_prefix, same_path, stripped, joined_path, with_extension, extension_text, file_name, path_has_prefix_exec, same_path_exec, strip_prefix_exec, join_path_exec, with_extension_exec, extension_text_exec, file_name_exec, chars_eq};
use crate::text::{has_prefix, has_suffix, to_chars, from_chars, starts_with, ends_with};

verus! {

/// When a compile job runs.
#[derive(Clone, Copy, Debug, PartialEq, Eq)]
pub enum JobCondition {
    /// Always.
    Always,
    /// Only where the source file exists.
    IfSourceExists,
    /// Only where the output file does not exist yet.
    IfTargetMissing,
}

/// One TypeScript file compiled to one JavaScript file.
#[derive(Debug)]
pub struct CompileJob {
    pub src: String,
    pub dest: String,
    pub condition: JobCondition,
}

/// The plain content of a compile job.
pub struct CompileJobV {
    pub src: Seq<char>,
    pub dest: Seq<char>,
    pub condition: JobCondition,
}

impl View for CompileJob {
    type V = CompileJobV;

    open spec fn view(&self) -> CompileJobV {
        CompileJobV { src: self.src@, dest: self.dest@, condition: self.condition }
    }
}

/// One step of the work that a file change triggers, in order.
#[derive(Debug)]
pub enum DevStep {
    /// Compile these jobs (they are independent of each other).
    CompileTs(Vec<CompileJob>),
    /// Copy a file unless the target is already up to date.
    CopyFile { src: String, dest: String },
    /// Bundle the third-party folder `src` into `dest`.
    BundleThirdParty { src: String, dest: String },
    /// Rebuild the combined manifest and `index.html`, and stamp the dev version.
    RefreshManifestAndIndexHtml,
    /// Splice instance code and settings into `main.js` and rewrite `main.json`.
    RefreshMainJsAndJson,
    /// Stamp the dev version into the service worker.
    ApplyDevAppVersionSw,
    /// Link the instance into the server entry and stamp the dev version.
    PostprocessServerIndexJs,
}

/// The plain content of a step.
pub enum DevStepV {
    CompileTs(Seq<CompileJobV>),
    CopyFile { src: Seq<char>, dest: Seq<char> },
    BundleThirdParty { src: Seq<char>, dest: Seq<char> },
    RefreshManifestAndIndexHtml,
    RefreshMainJsAndJson,
    ApplyDevAppVersionSw,
    PostprocessServerIndexJs,
}

/// The views of a vector of jobs.
pub open spec fn jobs_view(v: Seq<CompileJob>) -> Seq<CompileJobV> {
    Seq::new(v.len(), |i: int| v[i]@)
}

impl View for DevStep {
    type V = DevStepV;

    open spec fn view(&self) -> DevStepV {
        match self {
            DevStep::CompileTs(jobs) => DevStepV::CompileTs(jobs_view(jobs@)),
            DevStep::CopyFile { src, dest } => DevStepV::CopyFile { src: src@, dest: dest@ },
            DevStep::BundleThirdParty { src, dest } => DevStepV::BundleThirdParty { src: src@, dest: dest@ },
            DevStep::RefreshManifestAndIndexHtml => DevStepV::RefreshManifestAndIndexHtml,
            DevStep::RefreshMainJsAndJson => DevStepV::RefreshMainJsAndJson,
            DevStep::ApplyDevAppVersionSw => DevStepV::ApplyDevAppVersionSw,
            DevStep::PostprocessServerIndexJs => DevStepV::PostprocessServerIndexJs,
        }
    }
}

/// The views of a vector of steps.
pub open spec fn steps_view(v: Seq<DevStep>) -> Seq<DevStepV> {
    Seq::new(v.len(), |i: int| v[i]@)
}

/// Which part of a client source tree a file belongs to.
#[derive(Clone, Copy, Debug, PartialEq, Eq)]
pub enum ClientSideFileTypeE {
    Core,
    Lazy,
    ThirdParty,
}

// ---------------------------------------------------------------------------
// Specification
// ---------------------------------------------------------------------------

/// Where a client source file belongs: under `lazy`, under `thirdparty`, or
/// the core.
pub open spec fn client_file_type(d: Dirs, abs: Seq<char>, is_instance: bool) -> ClientSideFileTypeE {
    let beg = if is_instance { location(d, PathE::InstanceClientSrc) } else { location(d, PathE::ClientSrc) };
    if path_has_prefix(abs, joined_path(beg, "lazy"@)) {
        ClientSideFileTypeE::Lazy
    } else if path_has_prefix(abs, joined_path(beg, "thirdparty"@)) {
        ClientSideFileTypeE::ThirdParty
    } else {
        ClientSideFileTypeE::Core
    }
}

/// The core TypeScript entry points that are compiled on change.
pub open spec fn core_ts_input(rel: Seq<char>, is_instance: bool) -> bool {
    same_path(rel, "main.ts"@) || (!is_instance && (same_path(rel, "sw.ts"@) || same_path(
        rel,
        "shared_worker.ts"@,
    ))) || path_has_prefix(rel, "alwaysload"@)
}

/// The core style sheets that are copied on change.
pub open spec fn core_css_input(rel: Seq<char>, is_instance: bool) -> bool {
    (!is_instance && (same_path(rel, "index.css"@) || same_path(rel, "main.css"@))) || (is_instance
        && same_path(rel, "icons.css"@))
}

/// A shared-definitions file: its name starts with `defs` and ends in `.ts`.
pub open spec fn defs_ts(rel: Seq<char>) -> bool {
    match file_name(rel) {
        Some(n) => has_prefix(n, "defs"@) && has_suffix(n, ".ts"@),
        None => false,
    }
}

/// The file has the `ts` extension.
pub open spec fn is_ts(p: Seq<char>) -> bool {
    extension_text(p) == "ts"@
}

/// The job that compiles `abs` to the `.js` counterpart of `rel` under `prefix`.
pub open spec fn job_for(abs: Seq<char>, rel: Seq<char>, prefix: Seq<char>, c: JobCondition) -> CompileJobV {
    CompileJobV { src: abs, dest: joined_path(prefix, with_extension(rel, "js"@)), condition: c }
}

/// Recompile the main bundles (the instance one where it changed or was
/// never built), then splice them with the settings.
pub open spec fn refresh_main_plan(d: Dirs, changed_instance_main: bool) -> Seq<DevStepV> {
    seq![
        DevStepV::CompileTs(seq![
            CompileJobV {
                src: location_with(d, PathE::ClientSrc, "main.ts"@),
                dest: location_with(d, PathE::ClientOutputDev, "main.js"@),
                condition: JobCondition::Always,
            },
            CompileJobV {
                src: location_with(d, PathE::InstanceClientSrc, "main.ts"@),
                dest: location_with(d, PathE::InstanceClientOutputDev, "main.js"@),
                condition: if changed_instance_main { JobCondition::Always } else { JobCondition::IfTargetMissing },
            },
        ]),
        DevStepV::RefreshMainJsAndJson,
    ]
}

/// A changed client definitions file, and the instance's link to the core one.
pub open spec fn client_defs_plan(d: Dirs, abs: Seq<char>, rel: Seq<char>, is_instance: bool) -> Seq<DevStepV> {
    let out = if is_instance { location(d, PathE::InstanceClientOutputDev) } else { location(d, PathE::ClientOutputDev) };
    let first = seq![job_for(abs, rel, out, JobCondition::Always)];
    let extra = if !is_instance && same_path(rel, "defs.ts"@) {
        seq![job_for(
            location_with(d, PathE::InstanceClientSrc, "defs_client_symlink.ts"@),
            "defs_client_symlink.ts"@,
            location(d, PathE::InstanceClientOutputDev),
            JobCondition::IfSourceExists,
        )]
    } else {
        seq![]
    };
    seq![DevStepV::CompileTs(first + extra)]
}

/// A changed server definitions file, and the client links to it.
pub open spec fn server_defs_plan(d: Dirs, abs: Seq<char>, rel: Seq<char>, is_instance: bool) -> Seq<DevStepV> {
    let out = if is_instance { location(d, PathE::InstanceServerOutput) } else { location(d, PathE::ServerOutput) };
    let first = seq![job_for(abs, rel, out, JobCondition::Always)];
    let extra = if !is_instance && same_path(rel, "defs.ts"@) {
        seq![
            job_for(
                location_with(d, PathE::ClientSrc, "defs_server_symlink.ts"@),
                "defs_server_symlink.ts"@,
                location(d, PathE::ClientOutputDev),
                JobCondition::IfSourceExists,
            ),
            job_for(
                location_with(d, PathE::InstanceClientSrc, "defs_server_symlink.ts"@),
                "defs_server_symlink.ts"@,
                location(d, PathE::InstanceClientOutputDev),
                JobCondition::IfSourceExists,
            ),
        ]
    } else if is_instance && same_path(rel, "defs.ts"@) {
        seq![job_for(
            location_with(d, PathE::InstanceClientSrc, "defs_instance_server_symlink.ts"@),
            "defs_instance_server_symlink.ts"@,
            location(d, PathE::InstanceClientOutputDev),
            JobCondition::IfSourceExists,
        )]
    } else {
        seq![]
    };
    seq![DevStepV::CompileTs(first + extra)]
}

/// Compile one file to its `.js` counterpart under `prefix`.
pub open spec fn compile_plan(abs: Seq<char>, rel: Seq<char>, prefix: Seq<char>) -> Seq<DevStepV> {
    seq![DevStepV::CompileTs(seq![job_for(abs, rel, prefix, JobCondition::Always)])]
}

/// Copy one file to the same relative place under `prefix`.
pub open spec fn copy_plan(abs: Seq<char>, rel: Seq<char>, prefix: Seq<char>) -> Seq<DevStepV> {
    seq![DevStepV::CopyFile { src: abs, dest: joined_path(prefix, rel) }]
}

/// A changed core client file.
pub open spec fn client_core_plan(
    d: Dirs,
    abs: Seq<char>,
    rel: Seq<char>,
    prefix: Seq<char>,
    is_instance: bool,
) -> Seq<DevStepV> {
    if is_ts(abs) {
        if same_path(rel, "main.ts"@) {
            refresh_main_plan(d, is_instance)
        } else if defs_ts(rel) {
            client_defs_plan(d, abs, rel, is_instance)
        } else if core_ts_input(rel, is_instance) {
            compile_plan(abs, rel, prefix) + if !is_instance && same_path(rel, "sw.ts"@) {
                seq![DevStepV::ApplyDevAppVersionSw]
            } else {
                seq![]
            }
        } else {
            seq![]
        }
    } else if same_path(rel, "app.webmanifest"@) || same_path(rel, "index.html"@) {
        seq![DevStepV::RefreshManifestAndIndexHtml]
    } else if same_path(rel, "main.json"@) {
        refresh_main_plan(d, false)
    } else if core_css_input(rel, is_instance) {
        copy_plan(abs, rel, prefix)
    } else {
        seq![]
    }
}

/// A changed lazily loaded client file.
pub open spec fn lazy_plan(abs: Seq<char>, rel: Seq<char>, prefix: Seq<char>) -> Seq<DevStepV> {
    if is_ts(abs) {
        compile_plan(abs, rel, prefix)
    } else {
        copy_plan(abs, rel, prefix)
    }
}

/// A changed third-party file: the whole third-party folder is rebundled.
pub open spec fn thirdparty_plan(d: Dirs, is_instance: bool) -> Seq<DevStepV> {
    if is_instance {
        seq![DevStepV::BundleThirdParty {
            src: location_with(d, PathE::InstanceClientSrc, "thirdparty/"@),
            dest: location_with(d, PathE::InstanceClientOutputDev, "thirdparty/"@),
        }]
    } else {
        seq![DevStepV::BundleThirdParty {
            src: location_with(d, PathE::ClientSrc, "thirdparty/"@),
            dest: location_with(d, PathE::ClientOutputDev, "thirdparty/"@),
        }]
    }
}

/// A changed client file.
pub open spec fn client_plan(
    d: Dirs,
    abs: Seq<char>,
    rel: Seq<char>,
    prefix: Seq<char>,
    is_instance: bool,
) -> Seq<DevStepV> {
    match client_file_type(d, abs, is_instance) {
        ClientSideFileTypeE::Core => client_core_plan(d, abs, rel, prefix, is_instance),
        ClientSideFileTypeE::Lazy => lazy_plan(abs, rel, prefix),
        ClientSideFileTypeE::ThirdParty => thirdparty_plan(d, is_instance),
    }
}

/// A changed server file: TypeScript only.
pub open spec fn server_plan(
    d: Dirs,
    abs: Seq<char>,
    rel: Seq<char>,
    prefix: Seq<char>,
    is_instance: bool,
) -> Seq<DevStepV> {
    if !is_ts(abs) {
        seq![]
    } else if defs_ts(rel) {
        server_defs_plan(d, abs, rel, is_instance)
    } else {
        compile_plan(abs, rel, prefix) + if !is_instance && same_path(rel, "index.ts"@) {
            seq![DevStepV::PostprocessServerIndexJs]
        } else {
            seq![]
        }
    }
}

/// What a change of the file at `abs` triggers: it is routed by the source
/// tree it lies in (core client, instance client, core server, instance
/// server, in that order of precedence); files elsewhere trigger nothing.
pub open spec fn change_plan(d: Dirs, abs: Seq<char>) -> Seq<DevStepV> {
    let cs = location(d, PathE::ClientSrc);
    let ics = location(d, PathE::InstanceClientSrc);
    let ss = location(d, PathE::ServerSrc);
    let iss = location(d, PathE::InstanceServerSrc);
    if path_has_prefix(abs, cs) {
        client_plan(d, abs, stripped(abs, cs).unwrap(), location(d, PathE::ClientOutputDev), false)
    } else if path_has_prefix(abs, ics) {
        client_plan(d, abs, stripped(abs, ics).unwrap(), location(d, PathE::InstanceClientOutputDev), true)
    } else if path_has_prefix(abs, ss) {
        server_plan(d, abs, stripped(abs, ss).unwrap(), location(d, PathE::ServerOutput), false)
    } else if path_has_prefix(abs, iss) {
        server_plan(d, abs, stripped(abs, iss).unwrap(), location(d, PathE::InstanceServerOutput), true)
    } else {
        seq![]
    }
}

// ---------------------------------------------------------------------------
// Implementation
// ---------------------------------------------------------------------------

fn lit_path_eq(p: &[char], lit: &str) -> (r: bool)
    ensures
        r == same_path(p@, lit@),
{
    let l = to_chars(lit);
    same_path_exec(p, &l)
}

/// The file's extension, empty where it has none.
pub fn extension(p: &[char]) -> (r: Vec<char>)
    ensures
        r@ == extension_text(p@),
{
    extension_text_exec(p)
}

fn is_ts_exec(p: &[char]) -> (r: bool)
    ensures
        r == is_ts(p@),
{
    let e = extension(p);
    let ts = to_chars("ts");
    chars_eq(&e, &ts)
}

/// Whether a file is a shared-definitions file.
pub fn is_defs_ts(rel_file_path: &[char]) -> (r: bool)
    ensures
        r == defs_ts(rel_file_path@),
{
    match file_name_exec(rel_file_path) {
        Some(n) => {
            let p = to_chars("defs");
            let s = to_chars(".ts");
            starts_with(&n, &p) && ends_with(&n, &s)
        },
        None => false,
    }
}

/// Whether a core TypeScript file is one of the compiled entry points.
pub fn is_core_ts_build_input(rel_file_path: &[char], is_instance: bool) -> (r: bool)
    ensures
        r == core_ts_input(rel_file_path@, is_instance),
{
    let al = to_chars("alwaysload");
    lit_path_eq(rel_file_path, "main.ts") || (!is_instance && (lit_path_eq(rel_file_path, "sw.ts")
        || lit_path_eq(rel_file_path, "shared_worker.ts"))) || path_has_prefix_exec(rel_file_path, &al)
}

/// Whether a core style sheet is one that is copied on change.
pub fn is_core_css_build_input(rel_file_path: &[char], is_instance: bool) -> (r: bool)
    ensures
        r == core_css_input(rel_file_path@, is_instance),
{
    (!is_instance && (lit_path_eq(rel_file_path, "index.css") || lit_path_eq(rel_file_path, "main.css")))
        || (is_instance && lit_path_eq(rel_file_path, "icons.css"))
}

/// Which part of a client source tree a file belongs to.
pub fn get_client_side_file_type(d: &Dirs, abs_file_path: &[char], is_instance: bool) -> (r: ClientSideFileTypeE)
    ensures
        r == client_file_type(*d, abs_file_path@, is_instance),
{
    let beg = if is_instance { location_chars(d, PathE::InstanceClientSrc) } else { location_chars(d, PathE::ClientSrc) };
    let lazy = join_path_exec(&beg, &to_chars("lazy"));
    let third = join_path_exec(&beg, &to_chars("thirdparty"));
    if path_has_prefix_exec(abs_file_path, &lazy) {
        ClientSideFileTypeE::Lazy
    } else if path_has_prefix_exec(abs_file_path, &third) {
        ClientSideFileTypeE::ThirdParty
    } else {
        ClientSideFileTypeE::Core
    }
}

/// The job that compiles `abs` to the `.js` counterpart of `rel` under `prefix`.
pub fn compile_job_for_rel(abs_file_path: &[char], rel_file_path: &[char], prefix_out_path: &[char], condition: JobCondition) -> (r: CompileJob)
    ensures
        r@ == job_for(abs_file_path@, rel_file_path@, prefix_out_path@, condition),
{
    let js = to_chars("js");
    let js_rel = with_extension_exec(rel_file_path, &js);
    let dest = join_path_exec(prefix_out_path, &js_rel);
    CompileJob { src: from_chars(abs_file_path), dest: from_chars(&dest), condition }
}

fn one_step(s: DevStep) -> (r: Vec<DevStep>)
    ensures
        steps_view(r@) == seq![s@],
{
    let mut v: Vec<DevStep> = Vec::new();
    v.push(s);
    assert(steps_view(v@) =~= seq![s@]);
    v
}

fn jobs_step(jobs: Vec<CompileJob>) -> (r: DevStep)
    ensures
        r@ == DevStepV::CompileTs(jobs_view(jobs@)),
{
    DevStep::CompileTs(jobs)
}

fn push_step(v: &mut Vec<DevStep>, s: DevStep)
    ensures
        steps_view(final(v)@) == steps_view(old(v)@).push(s@),
{
    v.push(s);
    assert(steps_view(v@) =~= steps_view(old(v)@).push(s@));
}

fn push_job(v: &mut Vec<CompileJob>, j: CompileJob)
    ensures
        jobs_view(final(v)@) == jobs_view(old(v)@).push(j@),
{
    v.push(j);
    assert(jobs_view(v@) =~= jobs_view(old(v)@).push(j@));
}

/// Compile one changed file to its output place.
pub fn compile_ts_to_output(abs_file_path: &[char], rel_file_path: &[char], prefix_out_path: &[char]) -> (r: Vec<DevStep>)
    ensures
        steps_view(r@) == compile_plan(abs_file_path@, rel_file_path@, prefix_out_path@),
{
    let mut jobs: Vec<CompileJob> = Vec::new();
    push_job(&mut jobs, compile_job_for_rel(abs_file_path, rel_file_path, prefix_out_path, JobCondition::Always));
    assert(jobs_view(jobs@) =~= seq![job_for(abs_file_path@, rel_file_path@, prefix_out_path@, JobCondition::Always)]);
    one_step(jobs_step(jobs))
}

/// Copy one changed file to its output place.
pub fn copy_file_to_output(abs_file_path: &[char], rel_file_path: &[char], prefix_out_path: &[char]) -> (r: Vec<DevStep>)
    ensures
        steps_view(r@) == copy_plan(abs_file_path@, rel_file_path@, prefix_out_path@),
{
    let dest = join_path_exec(prefix_out_path, rel_file_path);
    one_step(DevStep::CopyFile { src: from_chars(abs_file_path), dest: from_chars(&dest) })
}

/// Recompile the main bundles and splice them with the settings.
pub fn refresh_main_js_after_change(d: &Dirs, changed_instance_main: bool) -> (r: Vec<DevStep>)
    ensures
        steps_view(r@) == refresh_main_plan(*d, changed_instance_main),
{
    let mut jobs: Vec<CompileJob> = Vec::new();
    push_job(&mut jobs, CompileJob {
        src: from_chars(&location_with_chars(d, PathE::ClientSrc, "main.ts")),
        dest: from_chars(&location_with_chars(d, PathE::ClientOutputDev, "main.js")),
        condition: JobCondition::Always,
    });
    push_job(&mut jobs, CompileJob {
        src: from_chars(&location_with_chars(d, PathE::InstanceClientSrc, "main.ts")),
        dest: from_chars(&location_with_chars(d, PathE::InstanceClientOutputDev, "main.js")),
        condition: if changed_instance_main { JobCondition::Always } else { JobCondition::IfTargetMissing },
    });
    let ghost plan = refresh_main_plan(*d, changed_instance_main);
    assert(jobs_view(jobs@) =~= plan[0]->CompileTs_0);
    let mut steps = one_step(jobs_step(jobs));
    push_step(&mut steps, DevStep::RefreshMainJsAndJson);
    assert(steps_view(steps@) =~= refresh_main_plan(*d, changed_instance_main));
    steps
}

/// A changed client definitions file.
pub fn handle_client_defs_file(d: &Dirs, abs_file_path: &[char], rel_file_path: &[char], is_instance: bool) -> (r: Vec<DevStep>)
    ensures
        steps_view(r@) == client_defs_plan(*d, abs_file_path@, rel_file_path@, is_instance),
{
    let out = if is_instance { location_chars(d, PathE::InstanceClientOutputDev) } else { location_chars(d, PathE::ClientOutputDev) };
    let mut jobs: Vec<CompileJob> = Vec::new();
    push_job(&mut jobs, compile_job_for_rel(abs_file_path, rel_file_path, &out, JobCondition::Always));
    if !is_instance && lit_path_eq(rel_file_path, "defs.ts") {
        push_job(&mut jobs, compile_job_for_rel(
            &location_with_chars(d, PathE::InstanceClientSrc, "defs_client_symlink.ts"),
            &to_chars("defs_client_symlink.ts"),
            &location_chars(d, PathE::InstanceClientOutputDev),
            JobCondition::IfSourceExists,
        ));
    }
    let ghost plan = client_defs_plan(*d, abs_file_path@, rel_file_path@, is_instance);
    assert(jobs_view(jobs@) =~= plan[0]->CompileTs_0);
    let r = one_step(jobs_step(jobs));
    assert(steps_view(r@) =~= client_defs_plan(*d, abs_file_path@, rel_file_path@, is_instance));
    r
}

/// A changed server definitions file.
pub fn handle_server_defs_file(d: &Dirs, abs_file_path: &[char], rel_file_path: &[char], is_instance: bool) -> (r: Vec<DevStep>)
    ensures
        steps_view(r@) == server_defs_plan(*d, abs_file_path@, rel_file_path@, is_instance),
{
    let out = if is_instance { location_chars(d, PathE::InstanceServerOutput) } else { location_chars(d, PathE::ServerOutput) };
    let mut jobs: Vec<CompileJob> = Vec::new();
    push_job(&mut jobs, compile_job_for_rel(abs_file_path, rel_file_path, &out, JobCondition::Always));
    let is_defs = lit_path_eq(rel_file_path, "defs.ts");
    if !is_instance && is_defs {
        push_job(&mut jobs, compile_job_for_rel(
            &location_with_chars(d, PathE::ClientSrc, "defs_server_symlink.ts"),
            &to_chars("defs_server_symlink.ts"),
            &location_chars(d, PathE::ClientOutputDev),
            JobCondition::IfSourceExists,
        ));
        push_job(&mut jobs, compile_job_for_rel(
            &location_with_chars(d, PathE::InstanceClientSrc, "defs_server_symlink.ts"),
            &to_chars("defs_server_symlink.ts"),
            &location_chars(d, PathE::InstanceClientOutputDev),
            JobCondition::IfSourceExists,
        ));
    } else if is_instance && is_defs {
        push_job(&mut jobs, compile_job_for_rel(
            &location_with_chars(d, PathE::InstanceClientSrc, "defs_instance_server_symlink.ts"),
            &to_chars("defs_instance_server_symlink.ts"),
            &location_chars(d, PathE::InstanceClientOutputDev),
            JobCondition::IfSourceExists,
        ));
    }
    let ghost plan = server_defs_plan(*d, abs_file_path@, rel_file_path@, is_instance);
    assert(jobs_view(jobs@) =~= plan[0]->CompileTs_0);
    let r = one_step(jobs_step(jobs));
    assert(steps_view(r@) =~= server_defs_plan(*d, abs_file_path@, rel_file_path@, is_instance));
    r
}

/// A changed core client file.
pub fn handle_client_core_file(
    d: &Dirs,
    abs_file_path: &[char],
    rel_file_path: &[char],
    prefix_out_path: &[char],
    is_instance: bool,
) -> (r: Vec<DevStep>)
    ensures
        steps_view(r@) == client_core_plan(*d, abs_file_path@, rel_file_path@, prefix_out_path@, is_instance),
{
    if is_ts_exec(abs_file_path) {
        if lit_path_eq(rel_file_path, "main.ts") {
            refresh_main_js_after_change(d, is_instance)
        } else if is_defs_ts(rel_file_path) {
            handle_client_defs_file(d, abs_file_path, rel_file_path, is_instance)
        } else if is_core_ts_build_input(rel_file_path, is_instance) {
            let mut r = compile_ts_to_output(abs_file_path, rel_file_path, prefix_out_path);
            if !is_instance && lit_path_eq(rel_file_path, "sw.ts") {
                push_step(&mut r, DevStep::ApplyDevAppVersionSw);
            } else {
                assert(steps_view(r@) + seq![] =~= steps_view(r@));
            }
            r
        } else {
            Vec::new()
        }
    } else if lit_path_eq(rel_file_path, "app.webmanifest") || lit_path_eq(rel_file_path, "index.html") {
        one_step(DevStep::RefreshManifestAndIndexHtml)
    } else if lit_path_eq(rel_file_path, "main.json") {
        refresh_main_js_after_change(d, false)
    } else if is_core_css_build_input(rel_file_path, is_instance) {
        copy_file_to_output(abs_file_path, rel_file_path, prefix_out_path)
    } else {
        let r: Vec<DevStep> = Vec::new();
        assert(steps_view(r@) =~= Seq::<DevStepV>::empty());
        r
    }
}

/// A changed lazily loaded client file.
pub fn handle_lazy_file(abs_file_path: &[char], rel_file_path: &[char], prefix_out_path: &[char]) -> (r: Vec<DevStep>)
    ensures
        steps_view(r@) == lazy_plan(abs_file_path@, rel_file_path@, prefix_out_path@),
{
    if is_ts_exec(abs_file_path) {
        compile_ts_to_output(abs_file_path, rel_file_path, prefix_out_path)
    } else {
        copy_file_to_output(abs_file_path, rel_file_path, prefix_out_path)
    }
}

/// A changed third-party file.
pub fn handle_thirdparty_file(d: &Dirs, is_instance: bool) -> (r: Vec<DevStep>)
    ensures
        steps_view(r@) == thirdparty_plan(*d, is_instance),
{
    let (src, dest) = if is_instance {
        (location_with_chars(d, PathE::InstanceClientSrc, "thirdparty/"), location_with_chars(d, PathE::InstanceClientOutputDev, "thirdparty/"))
    } else {
        (location_with_chars(d, PathE::ClientSrc, "thirdparty/"), location_with_chars(d, PathE::ClientOutputDev, "thirdparty/"))
    };
    one_step(DevStep::BundleThirdParty { src: from_chars(&src), dest: from_chars(&dest) })
}

/// A changed client file.
pub fn handle_client_file(
    d: &Dirs,
    abs_file_path: &[char],
    rel_file_path: &[char],
    prefix_out_path: &[char],
    is_instance: bool,
    client_side_file_type: ClientSideFileTypeE,
) -> (r: Vec<DevStep>)
    requires
        client_side_file_type == client_file_type(*d, abs_file_path@, is_instance),
    ensures
        steps_view(r@) == client_plan(*d, abs_file_path@, rel_file_path@, prefix_out_path@, is_instance),
{
    match client_side_file_type {
        ClientSideFileTypeE::Core => handle_client_core_file(d, abs_file_path, rel_file_path, prefix_out_path, is_instance),
        ClientSideFileTypeE::Lazy => handle_lazy_file(abs_file_path, rel_file_path, prefix_out_path),
        ClientSideFileTypeE::ThirdParty => handle_thirdparty_file(d, is_instance),
    }
}

/// A changed server file.
pub fn handle_server_file(
    d: &Dirs,
    abs_file_path: &[char],
    rel_file_path: &[char],
    prefix_out_path: &[char],
    is_instance: bool,
) -> (r: Vec<DevStep>)
    ensures
        steps_view(r@) == server_plan(*d, abs_file_path@, rel_file_path@, prefix_out_path@, is_instance),
{
    if !is_ts_exec(abs_file_path) {
        let r: Vec<DevStep> = Vec::new();
        assert(steps_view(r@) =~= Seq::<DevStepV>::empty());
        return r;
    }
    if is_defs_ts(rel_file_path) {
        handle_server_defs_file(d, abs_file_path, rel_file_path, is_instance)
    } else {
        let mut r = compile_ts_to_output(abs_file_path, rel_file_path, prefix_out_path);
        if !is_instance && lit_path_eq(rel_file_path, "index.ts") {
            push_step(&mut r, DevStep::PostprocessServerIndexJs);
        } else {
            assert(steps_view(r@) + seq![] =~= steps_view(r@));
        }
        r
    }
}

/// What a change of the file at `abs_file_path` triggers, in order.
pub fn file_changed(d: &Dirs, abs_file_path: &str) -> (r: Vec<DevStep>)
    ensures
        steps_view(r@) == change_plan(*d, abs_file_path@),
{
    let abs = to_chars(abs_file_path);
    let cs = location_chars(d, PathE::ClientSrc);
    let ics = location_chars(d, PathE::InstanceClientSrc);
    let ss = location_chars(d, PathE::ServerSrc);
    let iss = location_chars(d, PathE::InstanceServerSrc);
    if let Some(rel) = strip_prefix_exec(&abs, &cs) {
        let t = get_client_side_file_type(d, &abs, false);
        handle_client_file(d, &abs, &rel, &location_chars(d, PathE::ClientOutputDev), false, t)
    } else if let Some(rel) = strip_prefix_exec(&abs, &ics) {
        let t = get_client_side_file_type(d, &abs, true);
        handle_client_file(d, &abs, &rel, &location_chars(d, PathE::InstanceClientOutputDev), true, t)
    } else if let Some(rel) = strip_prefix_exec(&abs, &ss) {
        handle_server_file(d, &abs, &rel, &location_chars(d, PathE::ServerOutput), false)
    } else if let Some(rel) = strip_prefix_exec(&abs, &iss) {
        handle_server_file(d, &abs, &rel, &location_chars(d, PathE::InstanceServerOutput), true)
    } else {
        let r: Vec<DevStep> = Vec::new();
        assert(steps_view(r@) =~= Seq::<DevStepV>::empty());
        r
    }
}

} // verus!
