//! The TypeScript lint: which files are checked, how the type checker's
//! output is read into issues, and how the result is reported.

use vstd::prelude::*;
use crate::pathorder::{sorted_paths, keeps_order_of_equals, sort_paths};
use crate::json::Json;
use crate::dirs::{Dirs, PathE, location};
use crate::external::{regex_accepts, regex_captured, regex_captures};
use crate::paths::{components, extension_of, render, root_marker, components_exec, render_exec, extension_exec, chars_eq};
use crate::text::{lines_of, trimmed, parsed_u32, decimal, views_of, strs_view, lemma_strs_push, to_chars, from_chars, push_str, push_chars, lines_chars, trim_chars, parse_u32, u64_decimal, is_blank, slice_chars};

verus! {

/// One diagnostic of the type checker.
#[derive(Debug)]
pub struct LintIssue {
    pub file: Option<String>,
    pub line: Option<u32>,
    pub column: Option<u32>,
    pub severity: String,
    pub code: Option<String>,
    pub message: String,
}

/// The plain content of a diagnostic.
pub struct LintIssueV {
    pub file: Option<Seq<char>>,
    pub line: Option<u32>,
    pub column: Option<u32>,
    pub severity: Seq<char>,
    pub code: Option<Seq<char>>,
    pub message: Seq<char>,
}

/// The view of an optional text.
pub open spec fn opt_view(o: Option<String>) -> Option<Seq<char>> {
    match o {
        Some(s) => Some(s@),
        None => None,
    }
}

impl View for LintIssue {
    type V = LintIssueV;

    open spec fn view(&self) -> LintIssueV {
        LintIssueV {
            file: opt_view(self.file),
            line: self.line,
            column: self.column,
            severity: self.severity@,
            code: opt_view(self.code),
            message: self.message@,
        }
    }
}

/// The views of a vector of issues.
pub open spec fn issues_view(v: Seq<LintIssue>) -> Seq<LintIssueV> {
    Seq::new(v.len(), |i: int| v[i]@)
}

/// A regex that the parser depends on was rejected by the regex engine.
#[derive(Debug, Clone, Copy, PartialEq, Eq)]
pub struct LintPatternRejected;

// ---------------------------------------------------------------------------
// Reading the type checker's output
// ---------------------------------------------------------------------------

/// A diagnostic tied to a file position: `file(line,col): severity TScode: message`.
pub open spec fn file_pattern() -> Seq<char> {
    "^(.*)\\((\\d+),(\\d+)\\):\\s+(error|warning)\\s+(TS\\d+):\\s+(.*)$"@
}

/// A diagnostic without a position: `severity TScode: message`.
pub open spec fn global_pattern() -> Seq<char> {
    "^(error|warning)\\s+(TS\\d+):\\s+(.*)$"@
}

/// The text of capture group `i` (empty where the group took no part; both
/// patterns make every group take part in a match).
pub open spec fn group(g: Seq<Option<Seq<char>>>, i: int) -> Seq<char> {
    if 0 <= i < g.len() && g[i] is Some {
        g[i]->0
    } else {
        seq![]
    }
}

/// The issue that a line opens when it is a file diagnostic.
pub open spec fn file_issue(line: Seq<char>) -> Option<LintIssueV> {
    match regex_captured(file_pattern(), line) {
        Some(g) => Some(LintIssueV {
            file: Some(group(g, 1)),
            line: parsed_u32(group(g, 2)),
            column: parsed_u32(group(g, 3)),
            severity: group(g, 4),
            code: Some(group(g, 5)),
            message: group(g, 6),
        }),
        None => None,
    }
}

/// The issue that a line opens when it is a global diagnostic.
pub open spec fn global_issue(line: Seq<char>) -> Option<LintIssueV> {
    match regex_captured(global_pattern(), line) {
        Some(g) => Some(LintIssueV {
            file: None,
            line: None,
            column: None,
            severity: group(g, 1),
            code: Some(group(g, 2)),
            message: group(g, 3),
        }),
        None => None,
    }
}

/// The finished issues followed by the open one.
pub open spec fn flushed(done: Seq<LintIssueV>, cur: Option<LintIssueV>) -> Seq<LintIssueV> {
    match cur {
        Some(c) => done.push(c),
        None => done,
    }
}

/// An issue with one more line of message.
pub open spec fn continued(c: LintIssueV, line: Seq<char>) -> LintIssueV {
    LintIssueV {
        file: c.file,
        line: c.line,
        column: c.column,
        severity: c.severity,
        code: c.code,
        message: c.message + seq!['\n'] + trimmed(line),
    }
}

/// The state after reading `lines`: the finished issues and the open one. A
/// diagnostic line opens a new issue; any other non-blank line continues the
/// message of the open issue; other lines are ignored.
pub open spec fn parse_state(lines: Seq<Seq<char>>) -> (Seq<LintIssueV>, Option<LintIssueV>)
    decreases lines.len(),
{
    if lines.len() == 0 {
        (seq![], None)
    } else {
        let prev = parse_state(lines.drop_last());
        let line = lines.last();
        match file_issue(line) {
            Some(i) => (flushed(prev.0, prev.1), Some(i)),
            None => match global_issue(line) {
                Some(i) => (flushed(prev.0, prev.1), Some(i)),
                None => match prev.1 {
                    Some(c) => if trimmed(line).len() > 0 {
                        (prev.0, Some(continued(c, line)))
                    } else {
                        prev
                    },
                    None => prev,
                },
            },
        }
    }
}

/// The issues in the type checker's output, in order.
pub open spec fn parsed_issues(output: Seq<char>) -> Seq<LintIssueV> {
    let st = parse_state(lines_of(output));
    flushed(st.0, st.1)
}

fn group_text(g: &Vec<Option<String>>, i: usize) -> (r: Vec<char>)
    ensures
        r@ == group(Seq::new(g@.len(), |k: int| opt_view(g@[k])), i as int),
{
    if i < g.len() {
        match &g[i] {
            Some(t) => to_chars(t.as_str()),
            None => Vec::new(),
        }
    } else {
        Vec::new()
    }
}

fn opt_u32(t: &[char]) -> (r: Option<u32>)
    ensures
        r == parsed_u32(t@),
{
    parse_u32(t)
}

/// Turns regex groups into their plain form.
pub open spec fn groups_view(g: Seq<Option<String>>) -> Seq<Option<Seq<char>>> {
    Seq::new(g.len(), |k: int| opt_view(g[k]))
}

fn match_line(pattern: &str, line: &str) -> (r: Result<Option<Vec<Option<String>>>, LintPatternRejected>)
    ensures
        match r {
            Ok(None) => regex_accepts(pattern@) && regex_captured(pattern@, line@).is_none(),
            Ok(Some(g)) => regex_accepts(pattern@) && regex_captured(pattern@, line@) == Some(groups_view(g@)),
            Err(_) => !regex_accepts(pattern@),
        },
{
    match regex_captures(pattern, line) {
        None => Err(LintPatternRejected),
        Some(None) => Ok(None),
        Some(Some(g)) => {
            proof {
                let c = regex_captured(pattern@, line@)->0;
                assert(c =~= groups_view(g@)) by {
                    assert forall|i: int| 0 <= i < c.len() implies c[i] == groups_view(g@)[i] by {
                        match g@[i] {
                            Some(t) => {},
                            None => {},
                        }
                    }
                }
            }
            Ok(Some(g))
        },
    }
}

fn file_issue_exec(line: &str) -> (r: Result<Option<LintIssue>, LintPatternRejected>)
    ensures
        match r {
            Ok(Some(i)) => regex_accepts(file_pattern()) && file_issue(line@) == Some(i@),
            Ok(None) => regex_accepts(file_pattern()) && file_issue(line@).is_none(),
            Err(_) => !regex_accepts(file_pattern()),
        },
{
    match match_line("^(.*)\\((\\d+),(\\d+)\\):\\s+(error|warning)\\s+(TS\\d+):\\s+(.*)$", line) {
        Err(e) => Err(e),
        Ok(None) => Ok(None),
        Ok(Some(g)) => {
            let f = group_text(&g, 1);
            let l = group_text(&g, 2);
            let c = group_text(&g, 3);
            let s = group_text(&g, 4);
            let k = group_text(&g, 5);
            let m = group_text(&g, 6);
            let issue = LintIssue {
                file: Some(from_chars(&f)),
                line: opt_u32(&l),
                column: opt_u32(&c),
                severity: from_chars(&s),
                code: Some(from_chars(&k)),
                message: from_chars(&m),
            };
            Ok(Some(issue))
        },
    }
}

fn global_issue_exec(line: &str) -> (r: Result<Option<LintIssue>, LintPatternRejected>)
    ensures
        match r {
            Ok(Some(i)) => regex_accepts(global_pattern()) && global_issue(line@) == Some(i@),
            Ok(None) => regex_accepts(global_pattern()) && global_issue(line@).is_none(),
            Err(_) => !regex_accepts(global_pattern()),
        },
{
    match match_line("^(error|warning)\\s+(TS\\d+):\\s+(.*)$", line) {
        Err(e) => Err(e),
        Ok(None) => Ok(None),
        Ok(Some(g)) => {
            let s = group_text(&g, 1);
            let k = group_text(&g, 2);
            let m = group_text(&g, 3);
            let issue = LintIssue {
                file: None,
                line: None,
                column: None,
                severity: from_chars(&s),
                code: Some(from_chars(&k)),
                message: from_chars(&m),
            };
            Ok(Some(issue))
        },
    }
}

/// Moves the open issue, if any, to the finished ones.
pub fn push_current(issues: &mut Vec<LintIssue>, current: &mut Option<LintIssue>)
    ensures
        issues_view(final(issues)@) == flushed(issues_view(old(issues)@), match *old(current) {
            Some(c) => Some(c@),
            None => None,
        }),
        final(current).is_none(),
{
    if let Some(issue) = current.take() {
        issues.push(issue);
        assert(issues_view(issues@) =~= issues_view(old(issues)@).push(issues@.last()@));
    }
}

/// The view of an optional issue.
pub open spec fn opt_issue(o: Option<LintIssue>) -> Option<LintIssueV> {
    match o {
        Some(c) => Some(c@),
        None => None,
    }
}

/// Reads the type checker's output into issues.
pub fn parse_tsc_output(output: &str) -> (r: Result<Vec<LintIssue>, LintPatternRejected>)
    ensures
        match r {
            Ok(v) => issues_view(v@) == parsed_issues(output@),
            Err(_) => !regex_accepts(file_pattern()) || !regex_accepts(global_pattern()),
        },
{
    let oc = to_chars(output);
    let lines = lines_chars(&oc);
    let ghost ls = lines_of(output@);
    let mut issues: Vec<LintIssue> = Vec::new();
    let mut current: Option<LintIssue> = None;
    let mut k: usize = 0;
    while k < lines.len()
        invariant
            k <= lines.len(),
            ls == lines_of(output@),
            lines@.len() == ls.len(),
            forall|i: int| 0 <= i < lines@.len() ==> #[trigger] lines@[i]@ == ls[i],
            (issues_view(issues@), opt_issue(current)) == parse_state(ls.take(k as int)),
        decreases lines.len() - k,
    {
        let line = from_chars(&lines[k]);
        assert(ls.take(k + 1).drop_last() == ls.take(k as int));
        assert(ls.take(k + 1).last() == line@);
        let ghost prev = parse_state(ls.take(k as int));
        match file_issue_exec(line.as_str()) {
            Err(e) => return Err(e),
            Ok(Some(i)) => {
                push_current(&mut issues, &mut current);
                current = Some(i);
            },
            Ok(None) => {
                match global_issue_exec(line.as_str()) {
                    Err(e) => return Err(e),
                    Ok(Some(i)) => {
                        push_current(&mut issues, &mut current);
                        current = Some(i);
                    },
                    Ok(None) => {
                        let lc = to_chars(line.as_str());
                        let t = trim_chars(&lc);
                        if let Some(c) = current.take() {
                            if t.len() > 0 {
                                let mut m = to_chars(c.message.as_str());
                                m.push('\n');
                                push_chars(&mut m, &t);
                                assert(m@ == c.message@ + seq!['\n'] + trimmed(line@));
                                current = Some(LintIssue {
                                    file: c.file,
                                    line: c.line,
                                    column: c.column,
                                    severity: c.severity,
                                    code: c.code,
                                    message: from_chars(&m),
                                });
                            } else {
                                current = Some(c);
                            }
                        }
                    },
                }
            },
        }
        k = k + 1;
    }
    assert(ls.take(lines.len() as int) == ls);
    push_current(&mut issues, &mut current);
    Ok(issues)
}

// ---------------------------------------------------------------------------
// Counting and verdict
// ---------------------------------------------------------------------------

/// How many issues have the given severity.
pub open spec fn severity_count(issues: Seq<LintIssueV>, severity: Seq<char>) -> nat
    decreases issues.len(),
{
    if issues.len() == 0 {
        0
    } else {
        severity_count(issues.drop_last(), severity) + if issues.last().severity == severity { 1nat } else { 0nat }
    }
}

/// How many issues have the given severity.
pub fn count_severity(issues: &Vec<LintIssue>, severity: &str) -> (r: usize)
    ensures
        r == severity_count(issues_view(issues@), severity@),
{
    let sev = to_chars(severity);
    let mut n: usize = 0;
    let mut i: usize = 0;
    while i < issues.len()
        invariant
            i <= issues.len(),
            sev@ == severity@,
            n == severity_count(issues_view(issues@).take(i as int), severity@),
            n <= i,
        decreases issues.len() - i,
    {
        let s = to_chars(issues[i].severity.as_str());
        assert(issues_view(issues@).take(i + 1).drop_last() == issues_view(issues@).take(i as int));
        if chars_eq(&s, &sev) {
            n = n + 1;
        }
        i = i + 1;
    }
    assert(issues_view(issues@).take(issues.len() as int) == issues_view(issues@));
    n
}

/// The plural ending for a count: none for exactly one.
pub open spec fn plural_spec(count: int) -> Seq<char> {
    if count == 1 {
        ""@
    } else {
        "s"@
    }
}

/// The plural ending for a count.
pub fn plural(count: usize) -> (r: String)
    ensures
        r@ == plural_spec(count as int),
{
    if count == 1 {
        String::from_str("")
    } else {
        String::from_str("s")
    }
}

/// "`n` error(s) and `m` warning(s)".
pub open spec fn tally_spec(errors: nat, warnings: nat) -> Seq<char> {
    decimal(errors) + " error"@ + plural_spec(errors as int) + " and "@ + decimal(warnings) + " warning"@
        + plural_spec(warnings as int)
}

fn tally(errors: usize, warnings: usize) -> (r: Vec<char>)
    ensures
        r@ == tally_spec(errors as nat, warnings as nat),
{
    let mut t = u64_decimal(errors as u64);
    push_str(&mut t, " error");
    push_str(&mut t, plural(errors).as_str());
    push_str(&mut t, " and ");
    push_chars(&mut t, &u64_decimal(warnings as u64));
    push_str(&mut t, " warning");
    push_str(&mut t, plural(warnings).as_str());
    t
}

/// The outcome of the lint: success only where no issue was found and the
/// type checker succeeded.
pub open spec fn verdict_spec(issues: Seq<LintIssueV>, tsc_success: bool) -> Result<(), Seq<char>> {
    if issues.len() == 0 && tsc_success {
        Ok(())
    } else if issues.len() == 0 {
        Err("tsc failed without parseable diagnostics"@)
    } else {
        Err("lint found "@ + tally_spec(severity_count(issues, "error"@), severity_count(issues, "warning"@)))
    }
}

/// The outcome of the lint, with the failure message.
pub fn lint_verdict(issues: &Vec<LintIssue>, tsc_success: bool) -> (r: Result<(), String>)
    ensures
        match r {
            Ok(()) => verdict_spec(issues_view(issues@), tsc_success) == Ok::<(), Seq<char>>(()),
            Err(m) => verdict_spec(issues_view(issues@), tsc_success) == Err::<(), Seq<char>>(m@),
        },
{
    if issues.len() == 0 && tsc_success {
        Ok(())
    } else if issues.len() == 0 {
        Err(String::from_str("tsc failed without parseable diagnostics"))
    } else {
        let e = count_severity(issues, "error");
        let w = count_severity(issues, "warning");
        let mut t = to_chars("lint found ");
        push_chars(&mut t, &tally(e, w));
        Err(from_chars(&t))
    }
}

/// What the type checker run yields: its combined output and whether it
/// succeeded, or an error where it failed without saying anything.
pub open spec fn tsc_outcome_spec(stdout: Seq<char>, stderr: Seq<char>, success: bool, status: Seq<char>) -> Result<(Seq<char>, bool), Seq<char>> {
    let combined = stdout + stderr;
    if !success && trimmed(combined).len() == 0 {
        Err("tsc failed with status "@ + status)
    } else {
        Ok((combined, success))
    }
}

/// Combines the type checker's output streams and judges the run.
pub fn tsc_outcome(stdout: &str, stderr: &str, success: bool, status: &str) -> (r: Result<(String, bool), String>)
    ensures
        match r {
            Ok((c, s)) => tsc_outcome_spec(stdout@, stderr@, success, status@) == Ok::<(Seq<char>, bool), Seq<char>>((c@, s)),
            Err(m) => tsc_outcome_spec(stdout@, stderr@, success, status@) == Err::<(Seq<char>, bool), Seq<char>>(m@),
        },
{
    let mut c = to_chars(stdout);
    push_str(&mut c, stderr);
    if !success && is_blank(&c) {
        let mut m = to_chars("tsc failed with status ");
        push_str(&mut m, status);
        Err(from_chars(&m))
    } else {
        Ok((from_chars(&c), success))
    }
}

// ---------------------------------------------------------------------------
// What is checked
// ---------------------------------------------------------------------------

/// The roots that are checked, with their labels.
pub open spec fn lint_roots_spec(d: Dirs) -> Seq<(Seq<char>, Seq<char>)> {
    seq![
        ("core client"@, location(d, PathE::ClientSrc)),
        ("core server"@, location(d, PathE::ServerSrc)),
        ("instance client"@, location(d, PathE::InstanceClientSrc)),
        ("instance server"@, location(d, PathE::InstanceServerSrc)),
    ]
}

/// The views of labelled roots.
pub open spec fn roots_view(v: Seq<(String, String)>) -> Seq<(Seq<char>, Seq<char>)> {
    Seq::new(v.len(), |i: int| (v[i].0@, v[i].1@))
}

/// The roots that are checked, with their labels.
pub fn lint_roots(d: &Dirs) -> (r: Vec<(String, String)>)
    ensures
        roots_view(r@) == lint_roots_spec(*d),
{
    let mut v: Vec<(String, String)> = Vec::new();
    v.push((String::from_str("core client"), crate::dirs::path(d, PathE::ClientSrc)));
    v.push((String::from_str("core server"), crate::dirs::path(d, PathE::ServerSrc)));
    v.push((String::from_str("instance client"), crate::dirs::path(d, PathE::InstanceClientSrc)));
    v.push((String::from_str("instance server"), crate::dirs::path(d, PathE::InstanceServerSrc)));
    assert(roots_view(v@) =~= lint_roots_spec(*d));
    v
}

/// Directories that the walk does not enter.
pub open spec fn descend_spec(name: Seq<char>) -> bool {
    !(name == ".git"@ || name == "node_modules"@ || name == "build"@ || name == "dist"@ || name
        == "coverage"@ || name == "static_dev"@ || name == "static_dist"@ || name == ".next"@ || name
        == ".turbo"@)
}

fn is_lit(a: &[char], lit: &str) -> (r: bool)
    ensures
        r == (a@ == lit@),
{
    let l = to_chars(lit);
    chars_eq(a, &l)
}

/// Whether the walk enters an entry with this name.
pub fn should_descend(name: &str) -> (r: bool)
    ensures
        r == descend_spec(name@),
{
    let n = to_chars(name);
    !(is_lit(&n, ".git") || is_lit(&n, "node_modules") || is_lit(&n, "build") || is_lit(&n, "dist")
        || is_lit(&n, "coverage") || is_lit(&n, "static_dev") || is_lit(&n, "static_dist") || is_lit(
        &n,
        ".next",
    ) || is_lit(&n, ".turbo"))
}

/// TypeScript sources: extension `ts`, `tsx`, `mts` or `cts`.
pub open spec fn typescript_spec(p: Seq<char>) -> bool {
    match extension_of(p) {
        Some(e) => e == "ts"@ || e == "tsx"@ || e == "mts"@ || e == "cts"@,
        None => false,
    }
}

/// Whether a file is a TypeScript source.
pub fn is_typescript_file(path: &str) -> (r: bool)
    ensures
        r == typescript_spec(path@),
{
    let p = to_chars(path);
    match extension_exec(&p) {
        Some(e) => is_lit(&e, "ts") || is_lit(&e, "tsx") || is_lit(&e, "mts") || is_lit(&e, "cts"),
        None => false,
    }
}

/// The configuration file written for one lint run.
pub open spec fn tsc_config_path_spec(d: Dirs, pid: u32) -> Seq<char> {
    crate::dirs::location_with(d, PathE::TMPDirConfigs, "nifty-lint-tsconfig-"@ + decimal(pid as nat) + ".json"@)
}

/// The configuration file written for one lint run of process `pid`.
pub fn tsc_config_path(d: &Dirs, pid: u32) -> (r: String)
    ensures
        r@ == tsc_config_path_spec(*d, pid),
{
    let mut n = to_chars("nifty-lint-tsconfig-");
    push_chars(&mut n, &u64_decimal(pid as u64));
    push_str(&mut n, ".json");
    let n = from_chars(&n);
    crate::dirs::pathp(d, PathE::TMPDirConfigs, n.as_str())
}

// ---------------------------------------------------------------------------
// Working directory
// ---------------------------------------------------------------------------

/// The components of every path start with `prefix`.
pub open spec fn all_start_with(paths: Seq<Seq<Seq<char>>>, prefix: Seq<Seq<char>>) -> bool {
    forall|i: int| 0 <= i < paths.len() ==> prefix.len() <= #[trigger] paths[i].len() && paths[i].take(
        prefix.len() as int,
    ) == prefix
}

/// The length of the longest prefix of `c`, at most `k` long, that starts
/// every path; `None` where only the root of `c` would remain and it does not
/// start every path (a root cannot be popped).
pub open spec fn ancestor_len(c: Seq<Seq<char>>, paths: Seq<Seq<Seq<char>>>, k: int) -> Option<int>
    decreases k,
{
    if k < 0 {
        None
    } else if all_start_with(paths, c.take(k)) {
        Some(k)
    } else if k == 0 || (k == 1 && c[0] == root_marker()) {
        None
    } else {
        ancestor_len(c, paths, k - 1)
    }
}

/// The components of each path.
pub open spec fn components_all(paths: Seq<Seq<char>>) -> Seq<Seq<Seq<char>>> {
    Seq::new(paths.len(), |i: int| components(paths[i]))
}

/// The deepest directory that contains all existing roots: the first
/// existing root with trailing components removed until every existing root
/// lies under it. `None` where no root exists, or where the first is
/// absolute and another is not.
pub open spec fn common_ancestor_spec(existing: Seq<Seq<char>>) -> Option<Seq<char>> {
    if existing.len() == 0 {
        None
    } else {
        let c = components(existing[0]);
        let all = components_all(existing);
        match ancestor_len(c, all, c.len() as int) {
            Some(k) => Some(render(c.take(k))),
            None => None,
        }
    }
}

/// The deepest common directory of the existing roots.
pub fn common_ancestor(existing_roots: &Vec<String>) -> (r: Option<String>)
    ensures
        match r {
            Some(a) => common_ancestor_spec(existing_roots@.map_values(|s: String| s@)) == Some(a@),
            None => common_ancestor_spec(existing_roots@.map_values(|s: String| s@)).is_none(),
        },
{
    let ghost ex = existing_roots@.map_values(|s: String| s@);
    if existing_roots.len() == 0 {
        return None;
    }
    let mut comps: Vec<Vec<Vec<char>>> = Vec::new();
    let mut i: usize = 0;
    while i < existing_roots.len()
        invariant
            i <= existing_roots.len(),
            ex == existing_roots@.map_values(|s: String| s@),
            comps@.len() == i,
            forall|j: int| 0 <= j < i ==> views_of(#[trigger] comps@[j]@) == components(ex[j]),
        decreases existing_roots.len() - i,
    {
        let c = components_exec(&to_chars(existing_roots[i].as_str()));
        comps.push(c);
        i = i + 1;
    }
    let ghost all = components_all(ex);
    let first = components_exec(&to_chars(existing_roots[0].as_str()));
    let ghost c = components(ex[0]);
    assert(views_of(first@) == c);
    let mut k: usize = first.len();
    loop
        invariant
            k <= first.len(),
            views_of(first@) == c,
            ex == existing_roots@.map_values(|s: String| s@),
            ex.len() > 0,
            c == components(ex[0]),
            comps@.len() == ex.len(),
            all == components_all(ex),
            forall|j: int| 0 <= j < comps@.len() ==> views_of(#[trigger] comps@[j]@) == components(ex[j]),
            ancestor_len(c, all, k as int) == ancestor_len(c, all, c.len() as int),
        decreases k,
    {
        if all_have_prefix(&comps, &first, k, Ghost(all)) {
            let mut pre: Vec<Vec<char>> = Vec::new();
            let mut j: usize = 0;
            while j < k
                invariant
                    j <= k <= first.len(),
                    views_of(pre@) == c.take(j as int),
                    views_of(first@) == c,
                decreases k - j,
            {
                let piece = slice_chars(&first[j], 0, first[j].len());
                assert(piece@ =~= first@[j as int]@);
                proof { crate::paths::lemma_views_push(pre@, piece); }
                pre.push(piece);
                j = j + 1;
                assert(c.take(j as int) =~= c.take(j - 1).push(c[j - 1]));
            }
            return Some(from_chars(&render_exec(&pre)));
        }
        let at_root = k == 1 && first[0].len() == 1 && first[0][0] == '/';
        proof {
            if k == 1 {
                if c[0] == root_marker() {
                    assert(first@[0]@ == c[0]);
                    assert(first@[0]@[0] == '/');
                }
                if first@[0]@.len() == 1 && first@[0]@[0] == '/' {
                    assert(first@[0]@ =~= root_marker());
                }
            }
        }
        if k == 0 || at_root {
            return None;
        }
        k = k - 1;
    }
}

fn all_have_prefix(comps: &Vec<Vec<Vec<char>>>, first: &Vec<Vec<char>>, k: usize, Ghost(all): Ghost<Seq<Seq<Seq<char>>>>) -> (r: bool)
    requires
        k <= first.len(),
        all.len() == comps@.len(),
        forall|j: int| 0 <= j < comps@.len() ==> views_of(#[trigger] comps@[j]@) == all[j],
    ensures
        r == all_start_with(all, views_of(first@).take(k as int)),
{
    let mut i: usize = 0;
    let ghost pre = views_of(first@).take(k as int);
    while i < comps.len()
        invariant
            i <= comps.len(),
            k <= first.len(),
            all.len() == comps@.len(),
            pre == views_of(first@).take(k as int),
            forall|j: int| 0 <= j < comps@.len() ==> views_of(#[trigger] comps@[j]@) == all[j],
            forall|j: int| 0 <= j < i ==> pre.len() <= #[trigger] all[j].len() && all[j].take(pre.len() as int) == pre,
        decreases comps.len() - i,
    {
        if comps[i].len() < k {
            assert(views_of(comps@[i as int]@) == all[i as int]);
            return false;
        }
        let mut j: usize = 0;
        while j < k
            invariant
                i < comps@.len(),
                j <= k <= first.len(),
                k <= comps@[i as int]@.len(),
                all.len() == comps@.len(),
                pre == views_of(first@).take(k as int),
                forall|jj: int| 0 <= jj < comps@.len() ==> views_of(#[trigger] comps@[jj]@) == all[jj],
                forall|m: int| 0 <= m < j ==> comps@[i as int]@[m]@ == first@[m]@,
            decreases k - j,
        {
            if !chars_eq(&comps[i][j], &first[j]) {
                proof {
                    assert(views_of(comps@[i as int]@) == all[i as int]);
                    assert(all[i as int].take(pre.len() as int)[j as int] != pre[j as int]);
                }
                return false;
            }
            j = j + 1;
        }
        proof {
            assert(views_of(comps@[i as int]@) == all[i as int]);
            assert(all[i as int].take(pre.len() as int) =~= pre);
        }
        i = i + 1;
    }
    true
}


// ---------------------------------------------------------------------------
// Reporting
// ---------------------------------------------------------------------------

/// `n` spaces.
pub open spec fn spaces(n: nat) -> Seq<char> {
    Seq::new(n, |i: int| ' ')
}

/// `s` right-aligned in a field of `w` characters (`{:>w}`).
pub open spec fn pad_left(s: Seq<char>, w: nat) -> Seq<char> {
    if s.len() >= w {
        s
    } else {
        spaces((w - s.len()) as nat) + s
    }
}

/// `s` left-aligned in a field of `w` characters (`{:w}`).
pub open spec fn pad_right(s: Seq<char>, w: nat) -> Seq<char> {
    if s.len() >= w {
        s
    } else {
        s + spaces((w - s.len()) as nat)
    }
}

fn spaces_exec(n: usize) -> (r: Vec<char>)
    ensures
        r@ == spaces(n as nat),
{
    let mut v: Vec<char> = Vec::new();
    let mut i: usize = 0;
    while i < n
        invariant
            i <= n,
            v@ == spaces(i as nat),
        decreases n - i,
    {
        v.push(' ');
        i = i + 1;
        assert(v@ =~= spaces(i as nat));
    }
    v
}

fn pad_left_exec(s: &[char], w: usize) -> (r: Vec<char>)
    ensures
        r@ == pad_left(s@, w as nat),
{
    if s.len() >= w {
        slice_chars(s, 0, s.len())
    } else {
        let mut v = spaces_exec(w - s.len());
        push_chars(&mut v, s);
        v
    }
}

fn pad_right_exec(s: &[char], w: usize) -> (r: Vec<char>)
    ensures
        r@ == pad_right(s@, w as nat),
{
    let mut v = slice_chars(s, 0, s.len());
    if s.len() < w {
        push_chars(&mut v, &spaces_exec(w - s.len()));
    }
    v
}

/// The lines that introduce the checked roots.
pub open spec fn roots_report_spec(roots: Seq<(Seq<char>, Seq<char>)>) -> Seq<Seq<char>> {
    seq!["Roots:"@] + Seq::new(roots.len(), |i: int| "  \u{2022} "@ + pad_right(roots[i].0, 15) + " "@ + roots[i].1)
}

/// The lines that introduce the checked roots.
pub fn print_roots(roots: &Vec<(String, String)>) -> (r: Vec<String>)
    ensures
        strs_view(r@) == roots_report_spec(roots_view(roots@)),
{
    let mut out: Vec<String> = Vec::new();
    out.push(String::from_str("Roots:"));
    let mut i: usize = 0;
    while i < roots.len()
        invariant
            i <= roots.len(),
            strs_view(out@) == roots_report_spec(roots_view(roots@).take(i as int)),
        decreases roots.len() - i,
    {
        let mut l = to_chars("  \u{2022} ");
        push_chars(&mut l, &pad_right_exec(&to_chars(roots[i].0.as_str()), 15));
        push_str(&mut l, " ");
        push_str(&mut l, roots[i].1.as_str());
        let line = from_chars(&l);
        proof { lemma_strs_push(out@, line); }
        out.push(line);
        i = i + 1;
        assert(strs_view(out@) =~= roots_report_spec(roots_view(roots@).take(i as int)));
    }
    assert(roots_view(roots@).take(roots.len() as int) == roots_view(roots@));
    out
}

/// The file an issue is listed under.
pub open spec fn file_label(i: LintIssueV) -> Seq<char> {
    match i.file {
        Some(f) => f,
        None => "<global>"@,
    }
}

/// The marker of an issue: a warning sign or a cross.
pub open spec fn icon(i: LintIssueV) -> Seq<char> {
    if i.severity == "warning"@ {
        "\u{26a0}"@
    } else {
        "\u{2716}"@
    }
}

/// The position of an issue: `line:column`, or `-`.
pub open spec fn location_label(i: LintIssueV) -> Seq<char> {
    match (i.line, i.column) {
        (Some(l), Some(c)) => decimal(l as nat) + ":"@ + decimal(c as nat),
        _ => "-"@,
    }
}

/// The code of an issue, `TS` where it has none.
pub open spec fn code_label(i: LintIssueV) -> Seq<char> {
    match i.code {
        Some(c) => c,
        None => "TS"@,
    }
}

/// The lines of one issue: the first message line with marker, position and
/// code; further message lines indented below it.
pub open spec fn message_lines(i: LintIssueV) -> Seq<Seq<char>> {
    let ls = lines_of(i.message);
    if ls.len() == 0 {
        seq![]
    } else {
        seq!["  "@ + icon(i) + " "@ + pad_left(location_label(i), 8) + " "@ + code_label(i) + " "@ + ls[0]]
            + Seq::new((ls.len() - 1) as nat, |k: int| "             "@ + ls[k + 1])
    }
}

/// The lines for `issues`, each group under its file name where the file
/// differs from the one before.
pub open spec fn issue_lines(issues: Seq<LintIssueV>, last_file: Option<Seq<char>>) -> Seq<Seq<char>>
    decreases issues.len(),
{
    if issues.len() == 0 {
        seq![]
    } else {
        let f = file_label(issues[0]);
        (if last_file == Some(f) { seq![] } else { seq![f] }) + message_lines(issues[0]) + issue_lines(
            issues.drop_first(),
            Some(f),
        )
    }
}

/// The report of a lint run.
pub open spec fn issues_report_spec(issues: Seq<LintIssueV>, raw_output: Seq<char>) -> Seq<Seq<char>> {
    if issues.len() == 0 {
        if raw_output.len() == 0 {
            seq!["\n\u{2713} No TypeScript errors or warnings found."@]
        } else {
            seq!["\nTypeScript output:\n"@ + raw_output]
        }
    } else {
        seq!["\n\u{2717} Found "@ + tally_spec(severity_count(issues, "error"@), severity_count(issues, "warning"@)) + ":\n"@]
            + issue_lines(issues, None)
    }
}

fn issue_message_lines(issue: &LintIssue) -> (r: Vec<Vec<char>>)
    ensures
        views_of(r@) == message_lines(issue@),
{
    let msg = to_chars(issue.message.as_str());
    let ls = lines_chars(&msg);
    let mut out: Vec<Vec<char>> = Vec::new();
    if ls.len() == 0 {
        assert(views_of(out@) =~= message_lines(issue@));
        return out;
    }
    let sev = to_chars(issue.severity.as_str());
    let mut first = to_chars("  ");
    if crate::paths::chars_eq(&sev, &to_chars("warning")) {
        push_str(&mut first, "\u{26a0}");
    } else {
        push_str(&mut first, "\u{2716}");
    }
    push_str(&mut first, " ");
    let loc = match (issue.line, issue.column) {
        (Some(l), Some(c)) => {
            let mut t = u64_decimal(l as u64);
            push_str(&mut t, ":");
            push_chars(&mut t, &u64_decimal(c as u64));
            t
        },
        _ => to_chars("-"),
    };
    assert(loc@ == location_label(issue@));
    push_chars(&mut first, &pad_left_exec(&loc, 8));
    push_str(&mut first, " ");
    match &issue.code {
        Some(c) => push_str(&mut first, c.as_str()),
        None => push_str(&mut first, "TS"),
    }
    push_str(&mut first, " ");
    push_chars(&mut first, &ls[0]);
    out.push(first);
    let ghost ml = message_lines(issue@);
    let mut k: usize = 1;
    while k < ls.len()
        invariant
            1 <= k <= ls.len(),
            ls@.len() == lines_of(issue.message@).len(),
            forall|i: int| 0 <= i < ls@.len() ==> #[trigger] ls@[i]@ == lines_of(issue.message@)[i],
            ml == message_lines(issue@),
            views_of(out@) == ml.take(k as int),
        decreases ls.len() - k,
    {
        let mut l = to_chars("             ");
        push_chars(&mut l, &ls[k]);
        proof { crate::paths::lemma_views_push(out@, l); }
        out.push(l);
        k = k + 1;
        assert(views_of(out@) =~= ml.take(k as int));
    }
    assert(ml.take(ls.len() as int) == ml);
    out
}

/// The report of a lint run, line by line.
pub fn print_issues(issues: &Vec<LintIssue>, raw_output: &str) -> (r: Vec<String>)
    ensures
        strs_view(r@) == issues_report_spec(issues_view(issues@), raw_output@),
{
    let mut out: Vec<Vec<char>> = Vec::new();
    if issues.len() == 0 {
        if raw_output.is_empty() {
            out.push(to_chars("\n\u{2713} No TypeScript errors or warnings found."));
        } else {
            let mut l = to_chars("\nTypeScript output:\n");
            push_str(&mut l, raw_output);
            out.push(l);
        }
        assert(views_of(out@) =~= issues_report_spec(issues_view(issues@), raw_output@));
        return strings_of(&out);
    }
    let e = count_severity(issues, "error");
    let w = count_severity(issues, "warning");
    let mut head = to_chars("\n\u{2717} Found ");
    push_chars(&mut head, &tally(e, w));
    push_str(&mut head, ":\n");
    out.push(head);
    let ghost iv = issues_view(issues@);
    let ghost hd = views_of(out@);
    let mut last: Option<Vec<char>> = None;
    let mut i: usize = 0;
    assert(iv.skip(0) == iv);
    while i < issues.len()
        invariant
            i <= issues.len(),
            iv == issues_view(issues@),
            views_of(out@) + issue_lines(iv.skip(i as int), match last { Some(f) => Some(f@), None => None })
                == hd + issue_lines(iv, None),
        decreases issues.len() - i,
    {
        let f = match &issues[i].file {
            Some(f) => to_chars(f.as_str()),
            None => to_chars("<global>"),
        };
        assert(f@ == file_label(iv.skip(i as int)[0]));
        let same = match &last {
            Some(l) => crate::paths::chars_eq(l, &f),
            None => false,
        };
        let ghost before = views_of(out@);
        let ghost t = iv.skip(i as int);
        let ghost lastv = match last { Some(f) => Some(f@), None => None };
        assert(same == (lastv == Some(f@)));
        assert(issue_lines(t, lastv) == (if lastv == Some(f@) { seq![] } else { seq![f@] }) + message_lines(t[0]) + issue_lines(t.drop_first(), Some(f@)));
        if !same {
            let fc = slice_chars(&f, 0, f.len());
            assert(fc@ =~= f@);
            proof { crate::paths::lemma_views_push(out@, fc); }
            out.push(fc);
            assert(views_of(out@) =~= before + seq![f@]);
        } else {
            assert(views_of(out@) =~= before + Seq::<Seq<char>>::empty());
        }
        let ml = issue_message_lines(&issues[i]);
        let mut k: usize = 0;
        let ghost mid = views_of(out@);
        while k < ml.len()
            invariant
                k <= ml.len(),
                views_of(out@) == mid + views_of(ml@).take(k as int),
            decreases ml.len() - k,
        {
            let piece = slice_chars(&ml[k], 0, ml[k].len());
            assert(piece@ =~= ml@[k as int]@);
            proof { crate::paths::lemma_views_push(out@, piece); }
            out.push(piece);
            k = k + 1;
            assert(views_of(out@) =~= mid + views_of(ml@).take(k as int));
        }
        assert(views_of(ml@).take(ml.len() as int) == views_of(ml@));
        assert(iv.skip(i as int).drop_first() == iv.skip(i + 1));
        assert(iv.skip(i as int)[0] == issues[i as int]@);
        assert(views_of(out@) == before + (if lastv == Some(f@) { seq![] } else { seq![f@] }) + message_lines(t[0]));
        assert(views_of(out@) + issue_lines(t.drop_first(), Some(f@)) == before + issue_lines(t, lastv));
        last = Some(f);
        i = i + 1;
    }
    assert(iv.skip(i as int).len() == 0);
    strings_of(&out)
}

fn strings_of(v: &Vec<Vec<char>>) -> (r: Vec<String>)
    ensures
        strs_view(r@) == views_of(v@),
{
    let mut out: Vec<String> = Vec::new();
    let mut i: usize = 0;
    while i < v.len()
        invariant
            i <= v.len(),
            strs_view(out@) == views_of(v@).take(i as int),
        decreases v.len() - i,
    {
        let line = from_chars(&v[i]);
        proof { lemma_strs_push(out@, line); }
        out.push(line);
        i = i + 1;
        assert(strs_view(out@) =~= views_of(v@).take(i as int));
    }
    assert(views_of(v@).take(v.len() as int) == views_of(v@));
    out
}

// ---------------------------------------------------------------------------
// Files and configuration
// ---------------------------------------------------------------------------

/// `files` without repeated entries, first occurrences kept in order.
pub open spec fn first_occurrences(files: Seq<Seq<char>>) -> Seq<Seq<char>>
    decreases files.len(),
{
    if files.len() == 0 {
        seq![]
    } else {
        let before = first_occurrences(files.drop_last());
        if before.contains(files.last()) {
            before
        } else {
            before.push(files.last())
        }
    }
}

fn contains_str(v: &Vec<String>, x: &[char]) -> (r: bool)
    ensures
        r == strs_view(v@).contains(x@),
{
    let mut i: usize = 0;
    while i < v.len()
        invariant
            i <= v.len(),
            forall|k: int| 0 <= k < i ==> v@[k]@ != x@,
        decreases v.len() - i,
    {
        if chars_eq(&to_chars(v[i].as_str()), x) {
            assert(strs_view(v@)[i as int] == x@);
            return true;
        }
        i = i + 1;
    }
    assert forall|k: int| 0 <= k < strs_view(v@).len() implies strs_view(v@)[k] != x@ by {
        assert(strs_view(v@)[k] == v@[k]@);
    }
    false
}

/// The files found, each once, in the order first found.
pub fn unique_files(files: &Vec<String>) -> (r: Vec<String>)
    ensures
        strs_view(r@) == first_occurrences(strs_view(files@)),
{
    let mut out: Vec<String> = Vec::new();
    let mut i: usize = 0;
    while i < files.len()
        invariant
            i <= files.len(),
            strs_view(out@) == first_occurrences(strs_view(files@).take(i as int)),
        decreases files.len() - i,
    {
        assert(strs_view(files@).take(i + 1).drop_last() == strs_view(files@).take(i as int));
        assert(strs_view(files@).take(i + 1).last() == files@[i as int]@);
        let f = to_chars(files[i].as_str());
        if !contains_str(&out, &f) {
            let s = files[i].clone();
            proof { lemma_strs_push(out@, s); }
            out.push(s);
        }
        i = i + 1;
    }
    assert(strs_view(files@).take(files.len() as int) == strs_view(files@));
    out
}

/// The TypeScript sources among `files`, in order.
pub open spec fn typescript_only(files: Seq<Seq<char>>) -> Seq<Seq<char>>
    decreases files.len(),
{
    if files.len() == 0 {
        seq![]
    } else {
        typescript_only(files.drop_last()) + if typescript_spec(files.last()) {
            seq![files.last()]
        } else {
            seq![]
        }
    }
}

/// Each path occurs once among the first occurrences.
pub proof fn lemma_first_occurrences_distinct(files: Seq<Seq<char>>)
    ensures
        first_occurrences(files).no_duplicates(),
    decreases files.len(),
{
    if files.len() > 0 {
        lemma_first_occurrences_distinct(files.drop_last());
        let before = first_occurrences(files.drop_last());
        if !before.contains(files.last()) {
            let after = before.push(files.last());
            assert forall|i: int, j: int| 0 <= i < after.len() && 0 <= j < after.len() && i != j implies after[i] != after[j] by {
                if i < before.len() && j < before.len() {
                    assert(after[i] == before[i] && after[j] == before[j]);
                } else if i < before.len() {
                    assert(after[i] == before[i]);
                } else {
                    assert(after[j] == before[j]);
                }
            }
        }
    }
}

/// The found files that are TypeScript sources, each once, in path order;
/// files equal as paths in the order first found. `found` lists the files
/// that the walk of the roots reached, in walk order.
pub fn collect_typescript_files(found: &Vec<String>) -> (r: Vec<String>)
    ensures
        strs_view(r@).to_multiset() == first_occurrences(typescript_only(strs_view(found@))).to_multiset(),
        strs_view(r@).no_duplicates(),
        sorted_paths(strs_view(r@)),
        keeps_order_of_equals(strs_view(r@), first_occurrences(typescript_only(strs_view(found@)))),
{
    let ghost fv = strs_view(found@);
    let mut ts: Vec<String> = Vec::new();
    let mut i: usize = 0;
    assert(strs_view(ts@) =~= typescript_only(fv.take(0)));
    while i < found.len()
        invariant
            i <= found.len(),
            fv == strs_view(found@),
            strs_view(ts@) == typescript_only(fv.take(i as int)),
        decreases found.len() - i,
    {
        assert(fv.take(i + 1).drop_last() == fv.take(i as int));
        assert(fv.take(i + 1).last() == found@[i as int]@);
        if is_typescript_file(found[i].as_str()) {
            let f = found[i].clone();
            proof { lemma_strs_push(ts@, f); }
            ts.push(f);
            assert(strs_view(ts@) =~= typescript_only(fv.take(i + 1)));
        } else {
            assert(strs_view(ts@) =~= typescript_only(fv.take(i + 1)));
        }
        i = i + 1;
    }
    assert(fv.take(found.len() as int) == fv);
    let u = unique_files(&ts);
    proof { lemma_first_occurrences_distinct(strs_view(ts@)); }
    let r = sort_paths(&u);
    proof {
        strs_view(u@).lemma_multiset_has_no_duplicates();
        strs_view(r@).lemma_multiset_has_no_duplicates_conv();
    }
    r
}

/// The type checker configuration: no output, modern targets, lenient
/// checks, and the files to check.
pub open spec fn tsc_config_spec(files: Seq<Seq<char>>) -> crate::json::JsonV {
    crate::json::JsonV::Object(seq![
        ("compilerOptions"@, crate::json::JsonV::Object(compiler_options_spec())),
        ("files"@, crate::json::JsonV::Array(Seq::new(files.len(), |i: int| crate::json::JsonV::Str(files[i])))),
    ])
}

/// The compiler options of the type checker configuration.
pub open spec fn compiler_options_spec() -> Seq<(Seq<char>, crate::json::JsonV)> {
    seq![
        ("noEmit"@, crate::json::JsonV::Bool(true)),
        ("target"@, crate::json::JsonV::Str("ESNext"@)),
        ("module"@, crate::json::JsonV::Str("NodeNext"@)),
        ("moduleResolution"@, crate::json::JsonV::Str("NodeNext"@)),
        ("lib"@, crate::json::JsonV::Array(seq![
            crate::json::JsonV::Str("ESNext"@),
            crate::json::JsonV::Str("DOM"@),
            crate::json::JsonV::Str("DOM.Iterable"@),
            crate::json::JsonV::Str("WebWorker"@),
        ])),
        ("skipLibCheck"@, crate::json::JsonV::Bool(true)),
        ("allowImportingTsExtensions"@, crate::json::JsonV::Bool(true)),
        ("allowSyntheticDefaultImports"@, crate::json::JsonV::Bool(true)),
        ("esModuleInterop"@, crate::json::JsonV::Bool(true)),
        ("resolveJsonModule"@, crate::json::JsonV::Bool(true)),
        ("strict"@, crate::json::JsonV::Bool(false)),
        ("strictNullChecks"@, crate::json::JsonV::Bool(false)),
        ("noImplicitAny"@, crate::json::JsonV::Bool(false)),
        ("strictPropertyInitialization"@, crate::json::JsonV::Bool(false)),
    ]
}

fn field(out: &mut Vec<(String, crate::json::Json)>, key: &str, v: crate::json::Json)
    ensures
        crate::json::fields_view(final(out)@) == crate::json::fields_view(old(out)@).push((key@, v@)),
{
    proof { crate::json::lemma_fields_view(out@); }
    let k = String::from_str(key);
    out.push((k, v));
    proof { crate::json::lemma_fields_ext(out@, crate::json::fields_view(old(out)@).push((key@, v@))); }
}

fn str_item(out: &mut Vec<crate::json::Json>, s: &str)
    ensures
        crate::json::items_view(final(out)@) == crate::json::items_view(old(out)@).push(crate::json::JsonV::Str(s@)),
{
    let j = crate::json::Json::Str(String::from_str(s));
    proof { crate::json::lemma_items_push(out@, j); }
    out.push(j);
}

/// The type checker configuration for `files`.
pub fn write_tsc_config(files: &Vec<String>) -> (r: crate::json::Json)
    ensures
        r@ == tsc_config_spec(strs_view(files@)),
{
    let mut lib: Vec<Json> = Vec::new();
    assert(crate::json::items_view(lib@) =~= Seq::<crate::json::JsonV>::empty());
    str_item(&mut lib, "ESNext");
    str_item(&mut lib, "DOM");
    str_item(&mut lib, "DOM.Iterable");
    str_item(&mut lib, "WebWorker");
    let mut o: Vec<(String, Json)> = Vec::new();
    assert(crate::json::fields_view(o@) =~= Seq::<(Seq<char>, crate::json::JsonV)>::empty());
    field(&mut o, "noEmit", Json::Bool(true));
    field(&mut o, "target", Json::Str(String::from_str("ESNext")));
    field(&mut o, "module", Json::Str(String::from_str("NodeNext")));
    field(&mut o, "moduleResolution", Json::Str(String::from_str("NodeNext")));
    let ghost libv = crate::json::items_view(lib@);
    assert(crate::json::items_view(Seq::<Json>::empty()) =~= Seq::<crate::json::JsonV>::empty());
    assert(libv =~= seq![
        crate::json::JsonV::Str("ESNext"@),
        crate::json::JsonV::Str("DOM"@),
        crate::json::JsonV::Str("DOM.Iterable"@),
        crate::json::JsonV::Str("WebWorker"@),
    ]);
    field(&mut o, "lib", Json::Array(lib));
    field(&mut o, "skipLibCheck", Json::Bool(true));
    field(&mut o, "allowImportingTsExtensions", Json::Bool(true));
    field(&mut o, "allowSyntheticDefaultImports", Json::Bool(true));
    field(&mut o, "esModuleInterop", Json::Bool(true));
    field(&mut o, "resolveJsonModule", Json::Bool(true));
    field(&mut o, "strict", Json::Bool(false));
    field(&mut o, "strictNullChecks", Json::Bool(false));
    field(&mut o, "noImplicitAny", Json::Bool(false));
    field(&mut o, "strictPropertyInitialization", Json::Bool(false));
    assert(crate::json::fields_view(o@) =~= compiler_options_spec());
    let mut fl: Vec<Json> = Vec::new();
    assert(crate::json::items_view(fl@) =~= Seq::<crate::json::JsonV>::empty());
    let mut i: usize = 0;
    while i < files.len()
        invariant
            i <= files.len(),
            crate::json::items_view(fl@) == Seq::new(i as nat, |k: int| crate::json::JsonV::Str(strs_view(files@)[k])),
        decreases files.len() - i,
    {
        str_item(&mut fl, files[i].as_str());
        i = i + 1;
        assert(crate::json::items_view(fl@) =~= Seq::new(i as nat, |k: int| crate::json::JsonV::Str(strs_view(files@)[k])));
    }
    let mut top: Vec<(String, Json)> = Vec::new();
    assert(crate::json::fields_view(top@) =~= Seq::<(Seq<char>, crate::json::JsonV)>::empty());
    field(&mut top, "compilerOptions", Json::Object(o));
    field(&mut top, "files", Json::Array(fl));
    assert(crate::json::fields_view(top@) =~= seq![
        ("compilerOptions"@, crate::json::JsonV::Object(compiler_options_spec())),
        ("files"@, crate::json::JsonV::Array(Seq::new(files@.len(), |k: int| crate::json::JsonV::Str(strs_view(files@)[k])))),
    ]);
    Json::Object(top)
}

} // verus!
