//! The full development builds: which source trees are compiled with which
//! patterns, which folders are copied or bundled, and which files are reset,
//! for the core, the lazily loaded parts, the server, third-party code and
//! media.

use vstd::prelude::*;
use crate::dirs::{Dirs, PathE, location, location_with, path, pathp};
use crate::text::strs_view;

verus! {

/// One unit of build work.
#[derive(Debug)]
pub enum BuildTask {
    /// Compile the TypeScript files of `src` that match one of `globs` into `dest`.
    Swc { src: String, dest: String, globs: Vec<String> },
    /// Copy the files of `src` that match `glob` and not `skip` into `dest`.
    CopyDeep { src: String, dest: String, glob: String, skip: String },
    /// Copy a file unless the copy is already up to date.
    CopyIfChanged { src: String, dest: String },
    /// Bundle the third-party folder `src` into `dest`.
    BundleThirdParty { src: String, dest: String },
}

/// The plain content of a build task.
pub enum BuildTaskV {
    Swc { src: Seq<char>, dest: Seq<char>, globs: Seq<Seq<char>> },
    CopyDeep { src: Seq<char>, dest: Seq<char>, glob: Seq<char>, skip: Seq<char> },
    CopyIfChanged { src: Seq<char>, dest: Seq<char> },
    BundleThirdParty { src: Seq<char>, dest: Seq<char> },
}

impl View for BuildTask {
    type V = BuildTaskV;

    open spec fn view(&self) -> BuildTaskV {
        match self {
            BuildTask::Swc { src, dest, globs } => BuildTaskV::Swc { src: src@, dest: dest@, globs: strs_view(globs@) },
            BuildTask::CopyDeep { src, dest, glob, skip } => BuildTaskV::CopyDeep { src: src@, dest: dest@, glob: glob@, skip: skip@ },
            BuildTask::CopyIfChanged { src, dest } => BuildTaskV::CopyIfChanged { src: src@, dest: dest@ },
            BuildTask::BundleThirdParty { src, dest } => BuildTaskV::BundleThirdParty { src: src@, dest: dest@ },
        }
    }
}

/// The views of build tasks.
pub open spec fn tasks_view(v: Seq<BuildTask>) -> Seq<BuildTaskV> {
    Seq::new(v.len(), |i: int| v[i]@)
}

/// The pattern that matches no file name, for copies that skip nothing.
pub open spec fn skip_nothing() -> Seq<char> {
    "_____"@
}

// ---------------------------------------------------------------------------
// Plans
// ---------------------------------------------------------------------------

/// The core style sheets and where they are copied.
pub open spec fn css_copy_plan(d: Dirs) -> Seq<BuildTaskV> {
    seq![
        BuildTaskV::CopyIfChanged {
            src: location_with(d, PathE::ClientSrc, "index.css"@),
            dest: location_with(d, PathE::ClientOutputDev, "index.css"@),
        },
        BuildTaskV::CopyIfChanged {
            src: location_with(d, PathE::ClientSrc, "main.css"@),
            dest: location_with(d, PathE::ClientOutputDev, "main.css"@),
        },
        BuildTaskV::CopyIfChanged {
            src: location_with(d, PathE::InstanceClientSrc, "icons.css"@),
            dest: location_with(d, PathE::InstanceClientOutputDev, "icons.css"@),
        },
    ]
}

/// The work of a core build that runs side by side after the manifest and
/// before the shell page and the main bundle are assembled: the core client
/// entry points (service worker, shared worker, main, always-loaded code,
/// definitions), the instance's (main, always-loaded code, definitions), and
/// the style sheets.
pub open spec fn core_tasks_plan(d: Dirs) -> Seq<BuildTaskV> {
    seq![
        BuildTaskV::Swc {
            src: location(d, PathE::ClientSrc),
            dest: location(d, PathE::ClientOutputDev),
            globs: seq!["sw.ts"@, "shared_worker.ts"@, "main.ts"@, "alwaysload/**/*"@, "defs*.ts"@],
        },
        BuildTaskV::Swc {
            src: location(d, PathE::InstanceClientSrc),
            dest: location(d, PathE::InstanceClientOutputDev),
            globs: seq!["main.ts"@, "alwaysload/**/*"@, "defs*.ts"@],
        },
    ] + css_copy_plan(d)
}

/// The work of a build of the lazily loaded code: compile it, core and
/// instance, and copy everything else under `lazy/` that is not TypeScript.
pub open spec fn lazy_build_plan(d: Dirs) -> Seq<BuildTaskV> {
    seq![
        BuildTaskV::Swc { src: location(d, PathE::ClientSrc), dest: location(d, PathE::ClientOutputDev), globs: seq!["lazy/**/*"@] },
        BuildTaskV::Swc {
            src: location(d, PathE::InstanceClientSrc),
            dest: location(d, PathE::InstanceClientOutputDev),
            globs: seq!["lazy/**/*"@],
        },
        BuildTaskV::CopyDeep {
            src: location_with(d, PathE::ClientSrc, "lazy/"@),
            dest: location_with(d, PathE::ClientOutputDev, "lazy/"@),
            glob: "**/*"@,
            skip: "**/*.ts"@,
        },
        BuildTaskV::CopyDeep {
            src: location_with(d, PathE::InstanceClientSrc, "lazy/"@),
            dest: location_with(d, PathE::InstanceClientOutputDev, "lazy/"@),
            glob: "**/*"@,
            skip: "**/*.ts"@,
        },
    ]
}

/// The server build: the core server's top-level TypeScript files (not the
/// instance folder below them) and all of the instance server's.
pub open spec fn server_plan(d: Dirs) -> Seq<BuildTaskV> {
    seq![
        BuildTaskV::Swc { src: location(d, PathE::ServerSrc), dest: location(d, PathE::ServerOutput), globs: seq!["*.ts"@] },
        BuildTaskV::Swc {
            src: location(d, PathE::InstanceServerSrc),
            dest: location(d, PathE::InstanceServerOutput),
            globs: seq!["**/*.ts"@],
        },
    ]
}

/// The third-party bundles, core and instance.
pub open spec fn thirdparty_build_plan(d: Dirs) -> Seq<BuildTaskV> {
    seq![
        BuildTaskV::BundleThirdParty {
            src: location_with(d, PathE::ClientSrc, "thirdparty/"@),
            dest: location_with(d, PathE::ClientOutputDev, "thirdparty/"@),
        },
        BuildTaskV::BundleThirdParty {
            src: location_with(d, PathE::InstanceClientSrc, "thirdparty/"@),
            dest: location_with(d, PathE::InstanceClientOutputDev, "thirdparty/"@),
        },
    ]
}

/// The media copies, core and instance, every file.
pub open spec fn media_plan(d: Dirs) -> Seq<BuildTaskV> {
    seq![
        BuildTaskV::CopyDeep {
            src: location_with(d, PathE::ClientSrc, "media/"@),
            dest: location_with(d, PathE::ClientOutputDev, "media/"@),
            glob: "**/*"@,
            skip: skip_nothing(),
        },
        BuildTaskV::CopyDeep {
            src: location_with(d, PathE::InstanceClientSrc, "media/"@),
            dest: location_with(d, PathE::InstanceClientOutputDev, "media/"@),
            glob: "**/*"@,
            skip: skip_nothing(),
        },
    ]
}

/// The folders a full development build removes (where they exist) and then
/// creates.
pub open spec fn reset_dev_plan(d: Dirs) -> (Seq<Seq<char>>, Seq<Seq<char>>) {
    (
        seq![location(d, PathE::ClientOutputDev), location(d, PathE::ServerOutput)],
        seq![location(d, PathE::ClientOutputDev), location(d, PathE::ServerOutput), location(d, PathE::InstanceClientOutputDev)],
    )
}

// ---------------------------------------------------------------------------
// Implementation
// ---------------------------------------------------------------------------

pub(crate) fn push_task(v: &mut Vec<BuildTask>, t: BuildTask)
    ensures
        tasks_view(final(v)@) == tasks_view(old(v)@).push(t@),
{
    v.push(t);
    assert(tasks_view(v@) =~= tasks_view(old(v)@).push(t@));
}

fn strings(items: &[&str]) -> (r: Vec<String>)
    ensures
        r@.len() == items@.len(),
        forall|i: int| 0 <= i < items@.len() ==> #[trigger] r@[i]@ == items@[i]@,
{
    let mut r: Vec<String> = Vec::new();
    let mut i: usize = 0;
    while i < items.len()
        invariant
            i <= items@.len(),
            r@.len() == i,
            forall|k: int| 0 <= k < i ==> #[trigger] r@[k]@ == items@[k]@,
        decreases items@.len() - i,
    {
        r.push(String::from_str(items[i]));
        i = i + 1;
    }
    r
}

pub(crate) fn swc(src: String, dest: String, globs: &[&str]) -> (r: BuildTask)
    ensures
        r@ == (BuildTaskV::Swc { src: src@, dest: dest@, globs: Seq::new(globs@.len(), |i: int| globs@[i]@) }),
{
    let g = strings(globs);
    let r = BuildTask::Swc { src, dest, globs: g };
    assert(strs_view(g@) =~= Seq::new(globs@.len(), |i: int| globs@[i]@));
    r
}

pub(crate) fn deep_copy_task(src: String, dest: String, glob: &str, skip: &str) -> (r: BuildTask)
    ensures
        r@ == (BuildTaskV::CopyDeep { src: src@, dest: dest@, glob: glob@, skip: skip@ }),
{
    BuildTask::CopyDeep { src, dest, glob: String::from_str(glob), skip: String::from_str(skip) }
}

fn css_into(d: &Dirs, v: &mut Vec<BuildTask>)
    ensures
        tasks_view(final(v)@) == tasks_view(old(v)@) + css_copy_plan(*d),
{
    push_task(v, BuildTask::CopyIfChanged { src: pathp(d, PathE::ClientSrc, "index.css"), dest: pathp(d, PathE::ClientOutputDev, "index.css") });
    push_task(v, BuildTask::CopyIfChanged { src: pathp(d, PathE::ClientSrc, "main.css"), dest: pathp(d, PathE::ClientOutputDev, "main.css") });
    push_task(v, BuildTask::CopyIfChanged {
        src: pathp(d, PathE::InstanceClientSrc, "icons.css"),
        dest: pathp(d, PathE::InstanceClientOutputDev, "icons.css"),
    });
    assert(tasks_view(v@) =~= tasks_view(old(v)@) + css_copy_plan(*d));
}

/// The three core style sheet copies.
pub fn handle_css_files(d: &Dirs) -> (r: Vec<BuildTask>)
    ensures
        tasks_view(r@) == css_copy_plan(*d),
{
    let mut v: Vec<BuildTask> = Vec::new();
    css_into(d, &mut v);
    assert(tasks_view(v@) =~= css_copy_plan(*d));
    v
}

fn core_tasks(d: &Dirs) -> (r: Vec<BuildTask>)
    ensures
        tasks_view(r@) == core_tasks_plan(*d),
{
    let client: [&str; 5] = ["sw.ts", "shared_worker.ts", "main.ts", "alwaysload/**/*", "defs*.ts"];
    let instance: [&str; 3] = ["main.ts", "alwaysload/**/*", "defs*.ts"];
    let mut v: Vec<BuildTask> = Vec::new();
    push_task(&mut v, swc(path(d, PathE::ClientSrc), path(d, PathE::ClientOutputDev), &client));
    push_task(&mut v, swc(path(d, PathE::InstanceClientSrc), path(d, PathE::InstanceClientOutputDev), &instance));
    css_into(d, &mut v);
    assert(Seq::new(client@.len(), |i: int| client@[i]@) =~= seq!["sw.ts"@, "shared_worker.ts"@, "main.ts"@, "alwaysload/**/*"@, "defs*.ts"@]);
    assert(Seq::new(instance@.len(), |i: int| instance@[i]@) =~= seq!["main.ts"@, "alwaysload/**/*"@, "defs*.ts"@]);
    assert(tasks_view(v@) =~= core_tasks_plan(*d));
    v
}

/// One phase of a core build, in order.
#[derive(Debug)]
pub enum CoreStep {
    /// Build the combined manifest; the shell page takes its short name and
    /// theme colour from it.
    Manifest,
    /// Run these tasks side by side.
    SideBySide(Vec<BuildTask>),
    /// Fill in the shell page and splice the main bundle, side by side.
    IndexAndMain,
    /// Stamp the development version into the manifest, the shell page and
    /// the service worker.
    DevVersionStamps,
}

/// The plain content of a core build phase.
pub enum CoreStepV {
    Manifest,
    SideBySide(Seq<BuildTaskV>),
    IndexAndMain,
    DevVersionStamps,
}

impl View for CoreStep {
    type V = CoreStepV;

    open spec fn view(&self) -> CoreStepV {
        match self {
            CoreStep::Manifest => CoreStepV::Manifest,
            CoreStep::SideBySide(tasks) => CoreStepV::SideBySide(tasks_view(tasks@)),
            CoreStep::IndexAndMain => CoreStepV::IndexAndMain,
            CoreStep::DevVersionStamps => CoreStepV::DevVersionStamps,
        }
    }
}

/// The views of core build phases.
pub open spec fn core_steps_view(v: Seq<CoreStep>) -> Seq<CoreStepV> {
    Seq::new(v.len(), |i: int| v[i]@)
}

/// A core build: the manifest first, then the entry points and style
/// sheets side by side, then the shell page and main bundle, and last the
/// development version stamps, which a development version of 0 skips.
pub open spec fn core_plan(d: Dirs, devappversion: u32) -> Seq<CoreStepV> {
    seq![CoreStepV::Manifest, CoreStepV::SideBySide(core_tasks_plan(d)), CoreStepV::IndexAndMain]
        + if devappversion == 0 { seq![] } else { seq![CoreStepV::DevVersionStamps] }
}

/// The phases of a core build.
pub fn handle_core(d: &Dirs, devappversion: u32) -> (r: Vec<CoreStep>)
    ensures
        core_steps_view(r@) == core_plan(*d, devappversion),
{
    let mut v: Vec<CoreStep> = Vec::new();
    v.push(CoreStep::Manifest);
    v.push(CoreStep::SideBySide(core_tasks(d)));
    v.push(CoreStep::IndexAndMain);
    if devappversion != 0 {
        v.push(CoreStep::DevVersionStamps);
    }
    assert(core_steps_view(v@) =~= core_plan(*d, devappversion));
    v
}

/// The work of a build of the lazily loaded code.
pub fn handle_lazy(d: &Dirs) -> (r: Vec<BuildTask>)
    ensures
        tasks_view(r@) == lazy_build_plan(*d),
{
    let lazy: [&str; 1] = ["lazy/**/*"];
    let mut v: Vec<BuildTask> = Vec::new();
    push_task(&mut v, swc(path(d, PathE::ClientSrc), path(d, PathE::ClientOutputDev), &lazy));
    push_task(&mut v, swc(path(d, PathE::InstanceClientSrc), path(d, PathE::InstanceClientOutputDev), &lazy));
    push_task(&mut v, deep_copy_task(pathp(d, PathE::ClientSrc, "lazy/"), pathp(d, PathE::ClientOutputDev, "lazy/"), "**/*", "**/*.ts"));
    push_task(&mut v, deep_copy_task(pathp(d, PathE::InstanceClientSrc, "lazy/"), pathp(d, PathE::InstanceClientOutputDev, "lazy/"), "**/*", "**/*.ts"));
    assert(Seq::new(lazy@.len(), |i: int| lazy@[i]@) =~= seq!["lazy/**/*"@]);
    assert(tasks_view(v@) =~= lazy_build_plan(*d));
    v
}

/// The folders a full development build removes and then creates.
pub fn reset_dev_dirs(d: &Dirs) -> (r: (Vec<String>, Vec<String>))
    ensures
        (strs_view(r.0@), strs_view(r.1@)) == reset_dev_plan(*d),
{
    let mut gone: Vec<String> = Vec::new();
    gone.push(path(d, PathE::ClientOutputDev));
    gone.push(path(d, PathE::ServerOutput));
    let mut made: Vec<String> = Vec::new();
    made.push(path(d, PathE::ClientOutputDev));
    made.push(path(d, PathE::ServerOutput));
    made.push(path(d, PathE::InstanceClientOutputDev));
    assert(strs_view(gone@) =~= reset_dev_plan(*d).0);
    assert(strs_view(made@) =~= reset_dev_plan(*d).1);
    (gone, made)
}

} // verus!
