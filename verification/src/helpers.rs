//! Shared build helpers: when a copy is needed, what a tree copy copies,
//! and how the TypeScript compiler and the bundler are invoked.

use vstd::prelude::*;
use crate::dirs::{Dirs, PathE, location, location_chars};
use crate::external::{glob_matches, glob_match};
use crate::paths::{file_name, parent_of, stripped, joined_path, extension_of, file_name_exec, parent_exec, strip_prefix_exec, join_path_exec, extension_exec};
use crate::text::{trimmed_end_char, trimmed, joined, last_piece, contains, eq_ascii_nocase, strs_view, lemma_strs_push, to_chars, from_chars, push_str, push_chars, trim_end_char, is_blank, last_piece_exec, contains_exec, eq_ascii_nocase_exec, join_chars, views_of};

verus! {

// ---------------------------------------------------------------------------
// Copying
// ---------------------------------------------------------------------------

/// What the copy decision reads of a file: its length and, where the
/// platform reports it, its modification time in nanoseconds since the epoch.
#[derive(Debug, Clone, Copy, PartialEq, Eq)]
pub struct FileStamp {
    pub len: u64,
    pub modified: Option<i128>,
}

/// A file is copied unless both files exist with the same length and the
/// target is at least as recent as the source.
pub open spec fn copy_needed(src: Option<FileStamp>, dest: Option<FileStamp>) -> bool {
    match (src, dest) {
        (Some(s), Some(t)) => !(s.len == t.len && (s.modified matches Some(sm) && t.modified matches Some(tm) && tm >= sm)),
        _ => true,
    }
}

/// Whether `copy_if_changed` copies the source over its target (and so
/// reports a copy), from what it reads of the two files.
pub fn copy_if_changed(src: Option<FileStamp>, dest: Option<FileStamp>) -> (r: bool)
    ensures
        r == copy_needed(src, dest),
{
    match (src, dest) {
        (Some(s), Some(t)) => {
            if s.len == t.len {
                match (s.modified, t.modified) {
                    (Some(sm), Some(tm)) => tm < sm,
                    _ => true,
                }
            } else {
                true
            }
        },
        _ => true,
    }
}

/// The pattern that lists a tree for copying.
pub fn copy_deep_pattern(src_path: &str, glob_str: &str) -> (r: String)
    ensures
        r@ == src_path@ + glob_str@,
{
    let mut t = to_chars(src_path);
    push_str(&mut t, glob_str);
    from_chars(&t)
}

/// A file found under a tree does not lie under its source root.
#[derive(Debug, Clone, PartialEq, Eq)]
pub struct NotUnderSource {
    pub path: String,
}

/// The copies of a tree copy, for the files listed: each file that the skip
/// pattern does not match goes to the same relative place under `dest`.
pub open spec fn copy_plan_spec(src: Seq<char>, dest: Seq<char>, skip: Seq<char>, files: Seq<Seq<char>>) -> Result<Seq<(Seq<char>, Seq<char>)>, Seq<char>>
    decreases files.len(),
{
    if files.len() == 0 {
        Ok(seq![])
    } else {
        match copy_plan_spec(src, dest, skip, files.drop_last()) {
            Err(e) => Err(e),
            Ok(done) => {
                let f = files.last();
                if glob_matches(skip, f) {
                    Ok(done)
                } else {
                    match stripped(f, src) {
                        Some(rel) => Ok(done.push((f, joined_path(dest, rel)))),
                        None => Err(f),
                    }
                }
            },
        }
    }
}

proof fn lemma_plan_err_sticky(src: Seq<char>, dest: Seq<char>, skip: Seq<char>, files: Seq<Seq<char>>, i: int)
    requires
        0 <= i <= files.len(),
        copy_plan_spec(src, dest, skip, files.take(i)) is Err,
    ensures
        copy_plan_spec(src, dest, skip, files) == copy_plan_spec(src, dest, skip, files.take(i)),
    decreases files.len() - i,
{
    if i == files.len() {
        assert(files.take(i) == files);
    } else {
        assert(files.take(i + 1).drop_last() == files.take(i));
        lemma_plan_err_sticky(src, dest, skip, files, i + 1);
    }
}

/// The views of copy jobs.
pub open spec fn pairs_view(v: Seq<(String, String)>) -> Seq<(Seq<char>, Seq<char>)> {
    Seq::new(v.len(), |i: int| (v[i].0@, v[i].1@))
}

/// The copies of a tree copy, `files` being what the tree's pattern lists
/// (files only); fails on the first listed file that is not under the
/// source root.
pub fn copy_deep(src_path: &str, dest_path: &str, glob_skip_str: &str, files: &Vec<String>) -> (r: Result<Vec<(String, String)>, NotUnderSource>)
    ensures
        match r {
            Ok(v) => copy_plan_spec(src_path@, dest_path@, glob_skip_str@, strs_view(files@)) == Ok::<Seq<(Seq<char>, Seq<char>)>, Seq<char>>(pairs_view(v@)),
            Err(e) => copy_plan_spec(src_path@, dest_path@, glob_skip_str@, strs_view(files@)) == Err::<Seq<(Seq<char>, Seq<char>)>, Seq<char>>(e.path@),
        },
{
    let src = to_chars(src_path);
    let dest = to_chars(dest_path);
    let mut out: Vec<(String, String)> = Vec::new();
    let mut i: usize = 0;
    assert(pairs_view(out@) =~= Seq::<(Seq<char>, Seq<char>)>::empty());
    assert(strs_view(files@).take(0) =~= Seq::<Seq<char>>::empty());
    while i < files.len()
        invariant
            i <= files.len(),
            src@ == src_path@,
            dest@ == dest_path@,
            copy_plan_spec(src_path@, dest_path@, glob_skip_str@, strs_view(files@).take(i as int)) == Ok::<Seq<(Seq<char>, Seq<char>)>, Seq<char>>(pairs_view(out@)),
        decreases files.len() - i,
    {
        assert(strs_view(files@).take(i + 1).drop_last() == strs_view(files@).take(i as int));
        assert(strs_view(files@).take(i + 1).last() == files@[i as int]@);
        let f = files[i].as_str();
        if !glob_match(glob_skip_str, f) {
            match strip_prefix_exec(&to_chars(f), &src) {
                Some(rel) => {
                    let target = from_chars(&join_path_exec(&dest, &rel));
                    let ghost before = out@;
                    out.push((files[i].clone(), target));
                    assert(pairs_view(out@) =~= pairs_view(before).push((files@[i as int]@, target@)));
                },
                None => {
                    proof {
                        lemma_plan_err_sticky(src_path@, dest_path@, glob_skip_str@, strs_view(files@), i + 1);
                    }
                    return Err(NotUnderSource { path: files[i].clone() });
                },
            }
        }
        i = i + 1;
    }
    assert(strs_view(files@).take(files.len() as int) == strs_view(files@));
    Ok(out)
}

// ---------------------------------------------------------------------------
// Compiler and bundler invocations
// ---------------------------------------------------------------------------

/// A program run: the working directory and the arguments.
#[derive(Debug)]
pub struct Invocation {
    pub cwd: String,
    pub args: Vec<String>,
}

/// Why an invocation cannot be formed.
#[derive(Debug, Clone, Copy, PartialEq, Eq)]
pub enum InvocationError {
    /// The source folder has no name (so the run has no folder to work on).
    NoFolderName,
}

/// The compiler run for a source tree: run in the tree's parent, on the
/// tree's folder, writing to `dest` (without trailing `/`), restricted to
/// each of the patterns under the folder.
pub open spec fn swc_spec(src: Seq<char>, dest: Seq<char>, swcrc: Seq<char>, globs: Seq<Seq<char>>) -> Result<(Seq<char>, Seq<Seq<char>>), InvocationError> {
    match file_name(src) {
        None => Err(InvocationError::NoFolderName),
        Some(folder) => match parent_of(src) {
            None => Err(InvocationError::NoFolderName),
            Some(parent) => Ok((
                parent,
                seq![folder, "-d"@, trimmed_end_char(dest, '/'), "--config-file"@, swcrc, "--strip-leading-paths"@]
                    + only_args(folder, globs),
            )),
        },
    }
}

/// `--only folder/pattern` for each pattern.
pub open spec fn only_args(folder: Seq<char>, globs: Seq<Seq<char>>) -> Seq<Seq<char>>
    decreases globs.len(),
{
    if globs.len() == 0 {
        seq![]
    } else {
        only_args(folder, globs.drop_last()) + seq!["--only"@, folder + "/"@ + globs.last()]
    }
}

/// The compiler run for a source tree.
pub fn run_swc(src: &str, dest: &str, swcrc: &str, glob_files: &Vec<&str>) -> (r: Result<Invocation, InvocationError>)
    ensures
        match r {
            Ok(inv) => swc_spec(src@, dest@, swcrc@, glob_files@.map_values(|g: &str| g@)) == Ok::<(Seq<char>, Seq<Seq<char>>), InvocationError>((inv.cwd@, strs_view(inv.args@))),
            Err(e) => swc_spec(src@, dest@, swcrc@, glob_files@.map_values(|g: &str| g@)) == Err::<(Seq<char>, Seq<Seq<char>>), InvocationError>(e),
        },
{
    let s = to_chars(src);
    let folder = match file_name_exec(&s) {
        Some(f) => f,
        None => return Err(InvocationError::NoFolderName),
    };
    let parent = match parent_exec(&s) {
        Some(p) => p,
        None => return Err(InvocationError::NoFolderName),
    };
    let mut args: Vec<String> = Vec::new();
    args.push(from_chars(&folder));
    args.push(String::from_str("-d"));
    args.push(from_chars(&trim_end_char(&to_chars(dest), '/')));
    args.push(String::from_str("--config-file"));
    args.push(String::from_str(swcrc));
    args.push(String::from_str("--strip-leading-paths"));
    let ghost gv = glob_files@.map_values(|g: &str| g@);
    let ghost head = strs_view(args@);
    assert(head == seq![folder@, "-d"@, trimmed_end_char(dest@, '/'), "--config-file"@, swcrc@, "--strip-leading-paths"@]);
    let mut i: usize = 0;
    while i < glob_files.len()
        invariant
            i <= glob_files.len(),
            gv == glob_files@.map_values(|g: &str| g@),
            strs_view(args@) == head + only_args(folder@, gv.take(i as int)),
        decreases glob_files.len() - i,
    {
        assert(gv.take(i + 1).drop_last() == gv.take(i as int));
        let only = String::from_str("--only");
        proof { lemma_strs_push(args@, only); }
        args.push(only);
        let mut o = slice_folder(&folder);
        push_str(&mut o, "/");
        push_str(&mut o, glob_files[i]);
        let o = from_chars(&o);
        proof { lemma_strs_push(args@, o); }
        args.push(o);
        i = i + 1;
        assert(strs_view(args@) =~= head + only_args(folder@, gv.take(i as int)));
    }
    assert(gv.take(glob_files.len() as int) == gv);
    Ok(Invocation { cwd: from_chars(&parent), args })
}

fn slice_folder(f: &Vec<char>) -> (r: Vec<char>)
    ensures
        r@ == f@,
{
    let r = crate::text::slice_chars(f, 0, f.len());
    assert(r@ =~= f@);
    r
}

/// The server compile run for a source tree.
pub fn handle_server_js(src: &str, dest: &str, swcrc: &str, glob_files: &Vec<&str>) -> (r: Result<Invocation, InvocationError>)
    ensures
        match r {
            Ok(inv) => swc_spec(src@, dest@, swcrc@, glob_files@.map_values(|g: &str| g@)) == Ok::<(Seq<char>, Seq<Seq<char>>), InvocationError>((inv.cwd@, strs_view(inv.args@))),
            Err(e) => swc_spec(src@, dest@, swcrc@, glob_files@.map_values(|g: &str| g@)) == Err::<(Seq<char>, Seq<Seq<char>>), InvocationError>(e),
        },
{
    run_swc(src, dest, swcrc, glob_files)
}

/// The compiler run for one changed file: in its folder, to `out`.
pub open spec fn single_ts_spec(abs: Seq<char>, out: Seq<char>, swcrc: Seq<char>) -> Option<(Seq<char>, Seq<Seq<char>>)> {
    match parent_of(abs) {
        Some(parent) => Some((parent, seq![abs, "-o"@, out, "--config-file"@, swcrc])),
        None => None,
    }
}

/// The compiler run for one changed file; `None` where it has no parent folder.
pub fn compile_single_ts(abs_file_path: &str, js_out_path: &str, swcrc_path: &str) -> (r: Option<Invocation>)
    ensures
        match r {
            Some(inv) => single_ts_spec(abs_file_path@, js_out_path@, swcrc_path@) == Some((inv.cwd@, strs_view(inv.args@))),
            None => single_ts_spec(abs_file_path@, js_out_path@, swcrc_path@).is_none(),
        },
{
    match parent_exec(&to_chars(abs_file_path)) {
        Some(p) => {
            let mut args: Vec<String> = Vec::new();
            args.push(String::from_str(abs_file_path));
            args.push(String::from_str("-o"));
            args.push(String::from_str(js_out_path));
            args.push(String::from_str("--config-file"));
            args.push(String::from_str(swcrc_path));
            assert(strs_view(args@) =~= seq![abs_file_path@, "-o"@, js_out_path@, "--config-file"@, swcrc_path@]);
            Some(Invocation { cwd: from_chars(&p), args })
        },
        None => None,
    }
}

/// The report of a failed compiler run: where, the command, the status, and
/// the non-blank error and output streams.
pub open spec fn swc_failure_spec(cwd: Seq<char>, args: Seq<Seq<char>>, status: Seq<char>, stdout: Seq<char>, stderr: Seq<char>) -> Seq<char> {
    "swc command failed in "@ + cwd + "\ncommand: swc "@ + joined(args, " "@) + "\nstatus: "@ + status
        + (if trimmed(stderr).len() > 0 { "\nstderr:\n"@ + stderr } else { seq![] })
        + (if trimmed(stdout).len() > 0 { "\nstdout:\n"@ + stdout } else { seq![] })
}

/// The result of a compiler run: nothing on success, else the report of
/// the failure.
pub fn run_swc_cli(cwd: &str, args: &Vec<String>, success: bool, status: &str, stdout: &str, stderr: &str) -> (r: Result<(), String>)
    ensures
        success ==> r is Ok,
        !success ==> (r matches Err(m) && m@ == swc_failure_spec(cwd@, strs_view(args@), status@, stdout@, stderr@)),
{
    if success {
        return Ok(());
    }
    let mut m = to_chars("swc command failed in ");
    push_str(&mut m, cwd);
    push_str(&mut m, "\ncommand: swc ");
    let mut parts: Vec<Vec<char>> = Vec::new();
    let mut i: usize = 0;
    while i < args.len()
        invariant
            i <= args.len(),
            views_of(parts@) == strs_view(args@).take(i as int),
        decreases args.len() - i,
    {
        let a = to_chars(args[i].as_str());
        proof { crate::paths::lemma_views_push(parts@, a); }
        parts.push(a);
        i = i + 1;
        assert(views_of(parts@) =~= strs_view(args@).take(i as int));
    }
    assert(strs_view(args@).take(args.len() as int) == strs_view(args@));
    push_chars(&mut m, &join_chars(&parts, &to_chars(" ")));
    push_str(&mut m, "\nstatus: ");
    push_str(&mut m, status);
    let ghost base = m@;
    if !is_blank(&to_chars(stderr)) {
        push_str(&mut m, "\nstderr:\n");
        push_str(&mut m, stderr);
    } else {
        assert(m@ =~= base + Seq::<char>::empty());
    }
    let ghost mid = m@;
    if !is_blank(&to_chars(stdout)) {
        push_str(&mut m, "\nstdout:\n");
        push_str(&mut m, stdout);
    } else {
        assert(m@ =~= mid + Seq::<char>::empty());
    }
    Err(from_chars(&m))
}

/// The bundler run for a third-party folder: every file in it, bundled into
/// `dest` (without trailing `/`).
pub open spec fn thirdparty_args_spec(src: Seq<char>, dest: Seq<char>) -> Seq<Seq<char>> {
    seq![src + "*"@, "--bundle"@, "--outdir="@ + trimmed_end_char(dest, '/')]
}

/// The bundler arguments for a third-party folder.
pub fn handle_thirdparty_js(src: &str, dest: &str) -> (r: Vec<String>)
    ensures
        strs_view(r@) == thirdparty_args_spec(src@, dest@),
{
    let mut a = to_chars(src);
    push_str(&mut a, "*");
    let mut o = to_chars("--outdir=");
    push_chars(&mut o, &trim_end_char(&to_chars(dest), '/'));
    let mut v: Vec<String> = Vec::new();
    v.push(from_chars(&a));
    v.push(String::from_str("--bundle"));
    v.push(from_chars(&o));
    assert(strs_view(v@) =~= thirdparty_args_spec(src@, dest@));
    v
}

// ---------------------------------------------------------------------------
// Style edits made in the browser
// ---------------------------------------------------------------------------

/// The folder where the browser saves edited assets of the local server.
pub open spec fn overrides_root_spec(d: Dirs, port: Seq<char>) -> Seq<char> {
    location(d, PathE::ChromeOverridesDir) + "localhost:"@ + port + "/assets/"@
}

/// The folder where the browser saves edited assets of the local server.
pub fn chrome_overrides_root(d: &Dirs, port: &str) -> (r: String)
    ensures
        r@ == overrides_root_spec(*d, port@),
{
    let mut t = location_chars(d, PathE::ChromeOverridesDir);
    push_str(&mut t, "localhost:");
    push_str(&mut t, port);
    push_str(&mut t, "/assets/");
    from_chars(&t)
}

/// Saved style sheets: extension `css` in any letter case.
pub open spec fn saved_css_spec(path: Seq<char>) -> bool {
    match extension_of(path) {
        Some(e) => eq_ascii_nocase(e, "css"@),
        None => false,
    }
}

/// Whether a saved file is a style sheet.
pub fn is_saved_css(path: &str) -> (r: bool)
    ensures
        r == saved_css_spec(path@),
{
    match extension_exec(&to_chars(path)) {
        Some(e) => eq_ascii_nocase_exec(&e, &to_chars("css")),
        None => false,
    }
}

/// Where a saved style sheet goes back to: instance assets into the instance
/// sources, other assets into the core sources, by the text after the
/// asset prefix.
pub open spec fn override_target_spec(file: Seq<char>, main_folder: Seq<char>, instance_folder: Seq<char>, port: Seq<char>) -> Seq<char> {
    let inst = "localhost:"@ + port + "/assets/instance/"@;
    let main = "localhost:"@ + port + "/assets/"@;
    if contains(file, inst) {
        instance_folder + last_piece(file, inst)
    } else {
        main_folder + last_piece(file, main)
    }
}

/// Where a saved style sheet goes back to.
pub fn process_file(file: &str, main_folder: &str, instance_folder: &str, port: &str) -> (r: String)
    ensures
        r@ == override_target_spec(file@, main_folder@, instance_folder@, port@),
{
    let f = to_chars(file);
    let mut inst = to_chars("localhost:");
    push_str(&mut inst, port);
    push_str(&mut inst, "/assets/instance/");
    let mut main = to_chars("localhost:");
    push_str(&mut main, port);
    push_str(&mut main, "/assets/");
    if contains_exec(&f, &inst) {
        let mut t = to_chars(instance_folder);
        push_chars(&mut t, &last_piece_exec(&f, &inst));
        from_chars(&t)
    } else {
        let mut t = to_chars(main_folder);
        push_chars(&mut t, &last_piece_exec(&f, &main));
        from_chars(&t)
    }
}

} // verus!
