//! Setting up an instance: the shell profile line that selects it, where
//! its directories are configured, the definition links between the core
//! and the instance, and the generated tool configurations.

use vstd::prelude::*;
use crate::dirs::{Dirs, PathE, location, location_chars};
use crate::external::{upper_case, to_upper};
use crate::paths::{joined_path, join_path_exec};
use crate::text::{lines_of, has_prefix, joined, last_piece, first_index_of, trimmed_char, contains, strs_view, views_of, to_chars, from_chars, push_str, push_chars, lines_chars, starts_with, join_chars, last_piece_exec, index_of_char, slice_chars, trim_char, contains_exec};

verus! {

/// An instance name must be at least three bytes long.
pub open spec fn instance_name_ok_spec(instance: &str) -> bool {
    instance.len() >= 3
}

/// Whether an instance name is long enough.
pub fn instance_name_ok(instance: &str) -> (r: bool)
    ensures
        r == instance_name_ok_spec(instance),
{
    instance.len() >= 3
}

/// The profile line that selects the instance.
pub open spec fn selector_prefix() -> Seq<char> {
    "export NIFTY_INSTANCE="@
}

/// A profile line, with the selector line rewritten to name `instance`.
pub open spec fn rewritten_line(line: Seq<char>, instance: Seq<char>) -> Seq<char> {
    if has_prefix(line, selector_prefix()) {
        selector_prefix() + instance
    } else {
        line
    }
}

/// The profile with its selector line naming `instance`; the lines are
/// joined with `'\n'` (line ending style and a final line ending are not kept).
pub open spec fn setinstance_spec(content: Seq<char>, instance: Seq<char>) -> Seq<char> {
    let ls = lines_of(content);
    joined(Seq::new(ls.len(), |i: int| rewritten_line(ls[i], instance)), "\n"@)
}

/// Rewrites the profile to select `instance`.
pub fn setinstance(content: &str, instance: &str) -> (r: String)
    ensures
        r@ == setinstance_spec(content@, instance@),
{
    let ls = lines_chars(&to_chars(content));
    let prefix = to_chars("export NIFTY_INSTANCE=");
    let mut out: Vec<Vec<char>> = Vec::new();
    let ghost lv = lines_of(content@);
    let mut i: usize = 0;
    while i < ls.len()
        invariant
            i <= ls.len(),
            prefix@ == selector_prefix(),
            lv == lines_of(content@),
            ls@.len() == lv.len(),
            forall|k: int| 0 <= k < ls@.len() ==> #[trigger] ls@[k]@ == lv[k],
            views_of(out@) == Seq::new(i as nat, |k: int| rewritten_line(lv[k], instance@)),
        decreases ls.len() - i,
    {
        let line = if starts_with(&ls[i], &prefix) {
            let mut l = to_chars("export NIFTY_INSTANCE=");
            push_str(&mut l, instance);
            l
        } else {
            slice_chars(&ls[i], 0, ls[i].len())
        };
        assert(line@ =~= rewritten_line(lv[i as int], instance@));
        proof { crate::paths::lemma_views_push(out@, line); }
        out.push(line);
        i = i + 1;
        assert(views_of(out@) =~= Seq::new(i as nat, |k: int| rewritten_line(lv[k], instance@)));
    }
    from_chars(&join_chars(&out, &to_chars("\n")))
}

/// The reminder shown after the profile was changed.
pub open spec fn reminder_spec(config_file: Seq<char>) -> Seq<char> {
    "Remember to run 'source ~/"@ + last_piece(config_file, "/"@) + "' to apply changes"@
}

/// The reminder shown after the profile was changed.
pub fn setinstance_reminder(config_file: &str) -> (r: String)
    ensures
        r@ == reminder_spec(config_file@),
{
    let mut t = to_chars("Remember to run 'source ~/");
    push_chars(&mut t, &last_piece_exec(&to_chars(config_file), &to_chars("/")));
    push_str(&mut t, "' to apply changes");
    from_chars(&t)
}

/// The text between the first and the second `'='` of a line (to the end
/// where there is no second one); `None` where there is no `'='`.
pub open spec fn second_field(line: Seq<char>) -> Option<Seq<char>> {
    let k = first_index_of(line, '=');
    if k < line.len() {
        let rest = line.skip(k + 1);
        Some(rest.take(first_index_of(rest, '=')))
    } else {
        None
    }
}

/// The first line of `ls` that starts with `prefix`.
pub open spec fn first_line_with(ls: Seq<Seq<char>>, prefix: Seq<char>) -> Option<Seq<char>>
    decreases ls.len(),
{
    if ls.len() == 0 {
        None
    } else if has_prefix(ls[0], prefix) {
        Some(ls[0])
    } else {
        first_line_with(ls.drop_first(), prefix)
    }
}

/// A directory configured in the profile: the value of the first line that
/// starts with `prefix`, without surrounding quotes; empty where none.
pub open spec fn configured_value(content: Seq<char>, prefix: Seq<char>) -> Seq<char> {
    match first_line_with(lines_of(content), prefix) {
        Some(line) => match second_field(line) {
            Some(v) => trimmed_char(v, '"'),
            None => ""@,
        },
        None => ""@,
    }
}

/// The profile line prefix that configures an instance directory.
pub open spec fn dir_prefix(instance: Seq<char>, which: Seq<char>) -> Seq<char> {
    "export NIFTY_INSTANCE_"@ + upper_case(instance) + "_"@ + which + "_DIR="@
}

fn second_field_exec(line: &[char]) -> (r: Option<Vec<char>>)
    ensures
        match r {
            Some(v) => second_field(line@) == Some(v@),
            None => second_field(line@).is_none(),
        },
{
    let k = index_of_char(line, '=', 0);
    assert(line@.skip(0) == line@);
    if k < line.len() {
        let rest = slice_chars(line, k + 1, line.len());
        assert(rest@ == line@.skip(k + 1));
        let e = index_of_char(&rest, '=', 0);
        assert(rest@.skip(0) == rest@);
        Some(slice_chars(&rest, 0, e))
    } else {
        None
    }
}

fn value_of_line(line: &[char]) -> (r: Vec<char>)
    ensures
        r@ == match second_field(line@) {
            Some(v) => trimmed_char(v, '"'),
            None => ""@,
        },
{
    match second_field_exec(line) {
        Some(v) => trim_char(&v, '"'),
        None => to_chars(""),
    }
}

fn configured_value_exec(content: &str, prefix: &[char]) -> (r: Vec<char>)
    ensures
        r@ == configured_value(content@, prefix@),
{
    let ls = lines_chars(&to_chars(content));
    let ghost lv = lines_of(content@);
    let mut i: usize = 0;
    assert(lv.skip(0) == lv);
    while i < ls.len()
        invariant
            i <= ls.len(),
            lv == lines_of(content@),
            ls@.len() == lv.len(),
            forall|k: int| 0 <= k < ls@.len() ==> #[trigger] ls@[k]@ == lv[k],
            first_line_with(lv.skip(i as int), prefix@) == first_line_with(lv, prefix@),
        decreases ls.len() - i,
    {
        assert(lv.skip(i as int)[0] == lv[i as int]);
        assert(lv.skip(i as int).drop_first() == lv.skip(i + 1));
        if starts_with(&ls[i], prefix) {
            return value_of_line(&ls[i]);
        }
        i = i + 1;
    }
    assert(lv.skip(i as int).len() == 0);
    to_chars("")
}

/// A definitions link: the file linked to and the link.
pub open spec fn defs_links_spec(d: Dirs, instance_server: Seq<char>, instance_client: Seq<char>) -> Seq<(Seq<char>, Seq<char>)> {
    let server = location(d, PathE::ServerSrc);
    let client = location(d, PathE::ClientSrc);
    seq![
        (joined_path(server, "defs.ts"@), joined_path(client, "defs_server_symlink.ts"@)),
        (joined_path(server, "defs.ts"@), joined_path(instance_server, "defs_server_symlink.ts"@)),
        (joined_path(server, "defs.ts"@), joined_path(instance_client, "defs_server_symlink.ts"@)),
        (joined_path(instance_server, "defs.ts"@), joined_path(instance_client, "defs_instance_server_symlink.ts"@)),
        (joined_path(client, "defs.ts"@), joined_path(instance_client, "defs_client_symlink.ts"@)),
    ]
}

fn join_lit(base: &[char], rel: &str) -> (r: String)
    ensures
        r@ == joined_path(base@, rel@),
{
    from_chars(&join_path_exec(base, &to_chars(rel)))
}

/// The definitions links for an instance, with its directories read from
/// the profile.
pub fn handle_defs_symlinks(d: &Dirs, instance: &str, content: &str) -> (r: Vec<(String, String)>)
    ensures
        crate::helpers::pairs_view(r@) == defs_links_spec(
            *d,
            configured_value(content@, dir_prefix(instance@, "SERVER"@)),
            configured_value(content@, dir_prefix(instance@, "CLIENT"@)),
        ),
{
    let up = to_upper(instance);
    let mut p = to_chars("export NIFTY_INSTANCE_");
    push_str(&mut p, up.as_str());
    push_str(&mut p, "_");
    push_str(&mut p, "SERVER");
    push_str(&mut p, "_DIR=");
    let iserver = configured_value_exec(content, &p);
    let mut q = to_chars("export NIFTY_INSTANCE_");
    push_str(&mut q, up.as_str());
    push_str(&mut q, "_");
    push_str(&mut q, "CLIENT");
    push_str(&mut q, "_DIR=");
    let iclient = configured_value_exec(content, &q);
    let server = location_chars(d, PathE::ServerSrc);
    let client = location_chars(d, PathE::ClientSrc);
    let mut v: Vec<(String, String)> = Vec::new();
    v.push((join_lit(&server, "defs.ts"), join_lit(&client, "defs_server_symlink.ts")));
    v.push((join_lit(&server, "defs.ts"), join_lit(&iserver, "defs_server_symlink.ts")));
    v.push((join_lit(&server, "defs.ts"), join_lit(&iclient, "defs_server_symlink.ts")));
    v.push((join_lit(&iserver, "defs.ts"), join_lit(&iclient, "defs_instance_server_symlink.ts")));
    v.push((join_lit(&client, "defs.ts"), join_lit(&iclient, "defs_client_symlink.ts")));
    assert(crate::helpers::pairs_view(v@) =~= defs_links_spec(*d, iserver@, iclient@));
    v
}

/// The platform, as far as the profile choice is concerned.
#[derive(Debug, Clone, Copy, PartialEq, Eq)]
pub enum OsKind {
    MacOs,
    Linux,
    Unknown,
}

/// The login shell, as far as the profile choice is concerned.
#[derive(Debug, Clone, Copy, PartialEq, Eq)]
pub enum ShellKind {
    Zsh,
    Bash,
    Fish,
    Unknown,
}

/// The shell named by `$SHELL`: the first of zsh, bash, fish that it mentions.
pub open spec fn shell_kind_spec(shell: Seq<char>) -> ShellKind {
    if contains(shell, "zsh"@) {
        ShellKind::Zsh
    } else if contains(shell, "bash"@) {
        ShellKind::Bash
    } else if contains(shell, "fish"@) {
        ShellKind::Fish
    } else {
        ShellKind::Unknown
    }
}

/// The shell named by `$SHELL`.
pub fn shell_kind(shell: &str) -> (r: ShellKind)
    ensures
        r == shell_kind_spec(shell@),
{
    let s = to_chars(shell);
    if contains_exec(&s, &to_chars("zsh")) {
        ShellKind::Zsh
    } else if contains_exec(&s, &to_chars("bash")) {
        ShellKind::Bash
    } else if contains_exec(&s, &to_chars("fish")) {
        ShellKind::Fish
    } else {
        ShellKind::Unknown
    }
}

/// A file in the home directory.
pub open spec fn home_file(home: Seq<char>, name: Seq<char>) -> Seq<char> {
    home + "/"@ + name
}

/// The profile files to try, in order of preference.
pub open spec fn candidates_spec(home: Seq<char>, os: OsKind, shell: ShellKind) -> Seq<Seq<char>> {
    match (os, shell) {
        (OsKind::MacOs, ShellKind::Zsh) => seq![home_file(home, ".zprofile"@), home_file(home, ".zshrc"@), home_file(home, ".profile"@)],
        (OsKind::MacOs, ShellKind::Bash) => seq![home_file(home, ".bash_profile"@), home_file(home, ".bashrc"@), home_file(home, ".profile"@)],
        (OsKind::Linux, ShellKind::Zsh) => seq![home_file(home, ".zshrc"@), home_file(home, ".profile"@)],
        (OsKind::Linux, ShellKind::Bash) => seq![home_file(home, ".bashrc"@), home_file(home, ".profile"@)],
        (OsKind::Linux, ShellKind::Fish) => seq![home_file(home, ".config/fish/config.fish"@)],
        _ => seq![home_file(home, ".profile"@), home_file(home, ".bashrc"@)],
    }
}

fn home_file_exec(home: &str, name: &str) -> (r: String)
    ensures
        r@ == home_file(home@, name@),
{
    let mut t = to_chars(home);
    push_str(&mut t, "/");
    push_str(&mut t, name);
    from_chars(&t)
}

/// The profile files to try, in order of preference.
pub fn config_candidates(home: &str, os: OsKind, shell: ShellKind) -> (r: Vec<String>)
    ensures
        strs_view(r@) == candidates_spec(home@, os, shell),
{
    let mut v: Vec<String> = Vec::new();
    match (os, shell) {
        (OsKind::MacOs, ShellKind::Zsh) => {
            v.push(home_file_exec(home, ".zprofile"));
            v.push(home_file_exec(home, ".zshrc"));
            v.push(home_file_exec(home, ".profile"));
        },
        (OsKind::MacOs, ShellKind::Bash) => {
            v.push(home_file_exec(home, ".bash_profile"));
            v.push(home_file_exec(home, ".bashrc"));
            v.push(home_file_exec(home, ".profile"));
        },
        (OsKind::Linux, ShellKind::Zsh) => {
            v.push(home_file_exec(home, ".zshrc"));
            v.push(home_file_exec(home, ".profile"));
        },
        (OsKind::Linux, ShellKind::Bash) => {
            v.push(home_file_exec(home, ".bashrc"));
            v.push(home_file_exec(home, ".profile"));
        },
        (OsKind::Linux, ShellKind::Fish) => {
            v.push(home_file_exec(home, ".config/fish/config.fish"));
        },
        _ => {
            v.push(home_file_exec(home, ".profile"));
            v.push(home_file_exec(home, ".bashrc"));
        },
    }
    assert(strs_view(v@) =~= candidates_spec(home@, os, shell));
    v
}

/// The profile to edit: the first candidate that exists, else `.profile`
/// in the home directory (created where missing).
pub open spec fn chosen_config(home: Seq<char>, candidates: Seq<Seq<char>>, exists: Seq<bool>) -> Seq<char>
    decreases candidates.len(),
{
    if candidates.len() == 0 || exists.len() == 0 {
        home_file(home, ".profile"@)
    } else if exists[0] {
        candidates[0]
    } else {
        chosen_config(home, candidates.drop_first(), exists.drop_first())
    }
}

/// The profile to edit, given which candidates exist.
pub fn find_config_file(home: &str, candidates: &Vec<String>, exists: &Vec<bool>) -> (r: String)
    requires
        exists@.len() == candidates@.len(),
    ensures
        r@ == chosen_config(home@, strs_view(candidates@), exists@),
{
    let mut i: usize = 0;
    assert(strs_view(candidates@).skip(0) == strs_view(candidates@));
    assert(exists@.skip(0) == exists@);
    while i < candidates.len()
        invariant
            i <= candidates.len(),
            exists@.len() == candidates@.len(),
            chosen_config(home@, strs_view(candidates@).skip(i as int), exists@.skip(i as int))
                == chosen_config(home@, strs_view(candidates@), exists@),
        decreases candidates.len() - i,
    {
        assert(strs_view(candidates@).skip(i as int)[0] == candidates@[i as int]@);
        assert(exists@.skip(i as int)[0] == exists@[i as int]);
        if exists[i] {
            return candidates[i].clone();
        }
        assert(strs_view(candidates@).skip(i as int).drop_first() == strs_view(candidates@).skip(i + 1));
        assert(exists@.skip(i as int).drop_first() == exists@.skip(i + 1));
        i = i + 1;
    }
    assert(strs_view(candidates@).skip(i as int).len() == 0);
    home_file_exec(home, ".profile")
}

/// The bundler build script's text before the scratch directory.
pub open spec fn esbuild_pre() -> Seq<char> {
    "\n        import * as esbuild from 'esbuild';\n        import { env } from 'process';\n        import path from 'path';\n        import fs from 'fs';\n\n        const files_instructions_path_str = '"@
}

/// The bundler build script's text after the scratch directory.
pub open spec fn esbuild_post() -> Seq<char> {
    "filestobundle.json'\n        const files_instructions          = JSON.parse(fs.readFileSync(files_instructions_path_str, 'utf8'))\n\n\n        const outdir_str  = files_instructions.pop();\n        const entryPoints = files_instructions;\n\n\n        const buildOptions = {\n            entryPoints,\n            platform: 'browser',\n            bundle: true, \n            outdir: outdir_str,\n            target: 'esnext',\n            minify: false, \n            sourcemap: false, \n            loader: {},\n            define: {},\n            loader: {\n                '.js': 'ts',\n            },\n        };\n\n\n        esbuild\n            .build(buildOptions)\n            .then(() => {\n            })\n            .catch((error) => {\n                console.error('Build failed:', error);\n                process.exit(1);\n            });\n    "@
}

/// The compiler configuration.
pub open spec fn swcrc_spec() -> Seq<char> {
    "\n        {\n          \"jsc\": {\n            \"parser\": {\n              \"syntax\": \"typescript\",\n              \"tsx\": false,\n              \"decorators\": true,\n              \"dynamicImport\": true\n            },\n            \"target\": \"esnext\",\n            \"transform\": {},\n            \"externalHelpers\": false\n          },\n          \"module\": {\n            \"type\": \"es6\",\n            \"strict\": true,\n            \"lazy\": false,\n            \"noInterop\": false\n          },\n          \"sourceMaps\": false,\n          \"minify\": false\n        }\n    "@
}

/// The bundler build script, reading its instructions from the scratch
/// directory `tmp_path`.
pub open spec fn esbuild_config_spec(tmp_path: Seq<char>) -> Seq<char> {
    esbuild_pre() + tmp_path + esbuild_post()
}

/// The bundler build script.
pub fn esbuild_config_text(tmp_path: &str) -> (r: String)
    ensures
        r@ == esbuild_config_spec(tmp_path@),
{
    let mut t = to_chars("\n        import * as esbuild from 'esbuild';\n        import { env } from 'process';\n        import path from 'path';\n        import fs from 'fs';\n\n        const files_instructions_path_str = '");
    push_str(&mut t, tmp_path);
    push_str(&mut t, "filestobundle.json'\n        const files_instructions          = JSON.parse(fs.readFileSync(files_instructions_path_str, 'utf8'))\n\n\n        const outdir_str  = files_instructions.pop();\n        const entryPoints = files_instructions;\n\n\n        const buildOptions = {\n            entryPoints,\n            platform: 'browser',\n            bundle: true, \n            outdir: outdir_str,\n            target: 'esnext',\n            minify: false, \n            sourcemap: false, \n            loader: {},\n            define: {},\n            loader: {\n                '.js': 'ts',\n            },\n        };\n\n\n        esbuild\n            .build(buildOptions)\n            .then(() => {\n            })\n            .catch((error) => {\n                console.error('Build failed:', error);\n                process.exit(1);\n            });\n    ");
    from_chars(&t)
}

/// The compiler configuration.
pub fn swcrc_text() -> (r: String)
    ensures
        r@ == swcrc_spec(),
{
    String::from_str("\n        {\n          \"jsc\": {\n            \"parser\": {\n              \"syntax\": \"typescript\",\n              \"tsx\": false,\n              \"decorators\": true,\n              \"dynamicImport\": true\n            },\n            \"target\": \"esnext\",\n            \"transform\": {},\n            \"externalHelpers\": false\n          },\n          \"module\": {\n            \"type\": \"es6\",\n            \"strict\": true,\n            \"lazy\": false,\n            \"noInterop\": false\n          },\n          \"sourceMaps\": false,\n          \"minify\": false\n        }\n    ")
}

/// Where the generated tool configurations go.
pub open spec fn config_file_spec(d: Dirs, name: Seq<char>) -> Seq<char> {
    joined_path(location(d, PathE::TMPDirConfigs), name)
}

/// Where a generated tool configuration goes.
pub fn config_file_path(d: &Dirs, name: &str) -> (r: String)
    ensures
        r@ == config_file_spec(*d, name@),
{
    join_lit(&location_chars(d, PathE::TMPDirConfigs), name)
}

} // verus!
