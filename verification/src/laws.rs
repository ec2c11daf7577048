//! Properties that hold across the library's operations.

use vstd::prelude::*;
use crate::devfile::{change_plan, DevStepV, CompileJobV, JobCondition, is_ts, defs_ts};
use crate::devtext::devappversion_spec;
use crate::dirs::{Dirs, PathE, location};
use crate::json::{JsonV, get_field, set_field, can_take_fields, field_index, lemma_field_index, lemma_field_index_unique};
use crate::lint::{ancestor_len, all_start_with, common_ancestor_spec, components_all};
use crate::manifest::{overlaid, overlay_keys, lemma_get_set_other, requests_in, inlined_items, entry_request, with_media};
use crate::lint::{first_occurrences, file_issue, global_issue, parse_state, parsed_issues, LintIssueV};
use crate::initial::{js_source_spec, or_space};
use crate::init::{setinstance_spec, rewritten_line};
use crate::paths::{components, path_has_prefix, render, root_marker, segments_from, normal_parts, kept, leading, joined_path, stripped, same_path, with_extension};
use crate::helpers::{copy_plan_spec, override_target_spec};
use crate::text::{lines_of, joined, has_prefix, decimal, digit_char, digits_value, parsed_u32, number_digits, all_digits, is_digit, trimmed, is_white, replaced, contains, occurs_at, last_piece};

verus! {

// ---------------------------------------------------------------------------
// Numbers written and read back
// ---------------------------------------------------------------------------

proof fn lemma_digit_char(d: nat)
    requires
        d < 10,
    ensures
        is_digit(digit_char(d)),
        ((digit_char(d) as u32) - ('0' as u32)) as nat == d,
{
    assert(('0' as u32) == 48);
    assert((digit_char(d) as u32) == 48 + d);
}

proof fn lemma_decimal_digits(n: nat)
    ensures
        decimal(n).len() > 0,
        all_digits(decimal(n)),
        digits_value(decimal(n)) == n,
    decreases n,
{
    if n < 10 {
        lemma_digit_char(n);
        assert(decimal(n) == seq![digit_char(n)]);
        let s = decimal(n);
        assert(s.drop_last() =~= Seq::<char>::empty());
        assert(s.last() == digit_char(n));
        assert(digits_value(s) == digits_value(s.drop_last()) * 10 + ((s.last() as u32) - ('0' as u32)) as nat);
    } else {
        lemma_decimal_digits(n / 10);
        lemma_digit_char(n % 10);
        let s = decimal(n);
        assert(s == decimal(n / 10) + seq![digit_char(n % 10)]);
        assert(s.drop_last() =~= decimal(n / 10));
        assert(s.last() == digit_char(n % 10));
        assert(digits_value(s) == digits_value(s.drop_last()) * 10 + ((s.last() as u32) - ('0' as u32)) as nat);
        assert(n == (n / 10) * 10 + n % 10);
        assert forall|i: int| 0 <= i < s.len() implies is_digit(#[trigger] s[i]) by {
            if i < s.len() - 1 {
                assert(s[i] == decimal(n / 10)[i]);
            }
        }
    }
}

/// A version written in decimal is read back as the same version: the text
/// of `v` parses as `v`.
pub proof fn law_version_text_reads_back(v: u32)
    ensures
        parsed_u32(decimal(v as nat)) == Some(v),
{
    lemma_decimal_digits(v as nat);
    let s = decimal(v as nat);
    assert(is_digit(s[0]));
    assert(number_digits(s) == s);
}

proof fn lemma_no_white_trim(s: Seq<char>)
    requires
        forall|i: int| 0 <= i < s.len() ==> !is_white(#[trigger] s[i]),
    ensures
        trimmed(s) == s,
{
    if s.len() > 0 {
        assert(!is_white(s[0]));
        assert(!is_white(s[s.len() - 1]));
    }
}

/// The development version recorded as a number is the version read: a
/// recorded `v` (written in decimal) makes the development version `v`.
pub proof fn law_devappversion_reads_back(v: u32)
    ensures
        devappversion_spec(Some(decimal(v as nat))) == v,
{
    lemma_decimal_digits(v as nat);
    let s = decimal(v as nat);
    assert forall|i: int| 0 <= i < s.len() implies !is_white(#[trigger] s[i]) by {
        assert(is_digit(s[i]));
    }
    lemma_no_white_trim(s);
    law_version_text_reads_back(v);
}

// ---------------------------------------------------------------------------
// Rewrites
// ---------------------------------------------------------------------------

/// Replacing a text that does not occur changes nothing.
pub proof fn law_replace_absent_is_identity(s: Seq<char>, pat: Seq<char>, rep: Seq<char>)
    requires
        pat.len() > 0,
        !contains(s, pat),
    ensures
        replaced(s, pat, rep) == s,
    decreases s.len(),
{
    if s.len() >= pat.len() {
        assert(!occurs_at(s, pat, 0));
        assert(s.take(pat.len() as int) != pat) by {
            if s.take(pat.len() as int) == pat {
                assert(s.subrange(0, pat.len() as int) == s.take(pat.len() as int));
            }
        }
        let t = s.drop_first();
        assert(!contains(t, pat)) by {
            if contains(t, pat) {
                let i = choose|i: int| occurs_at(t, pat, i);
                assert(s.subrange(i + 1, i + 1 + pat.len()) == t.subrange(i, i + pat.len()));
                assert(occurs_at(s, pat, i + 1));
            }
        }
        law_replace_absent_is_identity(t, pat, rep);
        assert(s == seq![s[0]] + t);
    }
}

// ---------------------------------------------------------------------------
// File changes
// ---------------------------------------------------------------------------

/// A file outside the four source trees triggers no work.
pub proof fn law_unrelated_file_triggers_nothing(d: Dirs, abs: Seq<char>)
    requires
        !path_has_prefix(abs, location(d, PathE::ClientSrc)),
        !path_has_prefix(abs, location(d, PathE::InstanceClientSrc)),
        !path_has_prefix(abs, location(d, PathE::ServerSrc)),
        !path_has_prefix(abs, location(d, PathE::InstanceServerSrc)),
    ensures
        change_plan(d, abs).len() == 0,
{
}

// ---------------------------------------------------------------------------
// Manifest overlay
// ---------------------------------------------------------------------------

proof fn lemma_get_set_same(m: JsonV, k: Seq<char>, v: JsonV)
    requires
        can_take_fields(m),
    ensures
        get_field(set_field(m, k, v), k) == Some(v),
{
    match m {
        JsonV::Object(fs) => {
            lemma_field_index(fs, k);
            let i = field_index(fs, k);
            let gs = set_field(m, k, v)->Object_0;
            if i < fs.len() {
                assert forall|j: int| 0 <= j < i implies #[trigger] gs[j].0 != k by {
                    assert(gs[j] == fs[j]);
                }
                lemma_field_index_unique(gs, k, i);
            } else {
                assert forall|j: int| 0 <= j < fs.len() implies #[trigger] gs[j].0 != k by {
                    assert(gs[j] == fs[j]);
                }
                lemma_field_index_unique(gs, k, fs.len() as int);
            }
        },
        _ => {
            let gs = set_field(m, k, v)->Object_0;
            lemma_field_index_unique(gs, k, 0);
        },
    }
}

proof fn lemma_get_set_other_any(m: JsonV, k1: Seq<char>, v: JsonV, k2: Seq<char>)
    requires
        can_take_fields(m),
        k1 != k2,
    ensures
        get_field(set_field(m, k1, v), k2) == get_field(m, k2),
{
    if m is Object {
        lemma_get_set_other(m, k1, v, k2);
    } else {
        let gs = set_field(m, k1, v)->Object_0;
        lemma_field_index_unique(gs, k2, 1);
    }
}

proof fn lemma_overlaid_can_take(m: JsonV, inst: JsonV, keys: Seq<Seq<char>>)
    requires
        can_take_fields(m),
    ensures
        can_take_fields(overlaid(m, inst, keys)),
    decreases keys.len(),
{
    if keys.len() > 0 {
        lemma_overlaid_can_take(m, inst, keys.drop_last());
    }
}

/// The overlay of `keys` (distinct names) onto a manifest that can take
/// fields: each key the instance has takes the instance's value; any other
/// field keeps the core value.
pub proof fn law_overlay_fields(m: JsonV, inst: JsonV, keys: Seq<Seq<char>>, k: Seq<char>)
    requires
        can_take_fields(m),
        forall|i: int, j: int| 0 <= i < j < keys.len() ==> keys[i] != keys[j],
    ensures
        keys.contains(k) && get_field(inst, k).is_some() ==> get_field(overlaid(m, inst, keys), k) == get_field(inst, k),
        keys.contains(k) && get_field(inst, k).is_none() ==> get_field(overlaid(m, inst, keys), k) == get_field(m, k),
        !keys.contains(k) ==> get_field(overlaid(m, inst, keys), k) == get_field(m, k),
    decreases keys.len(),
{
    if keys.len() > 0 {
        let rest = keys.drop_last();
        let last = keys.last();
        law_overlay_fields(m, inst, rest, k);
        lemma_overlaid_can_take(m, inst, rest);
        let m1 = overlaid(m, inst, rest);
        if last == k {
            assert(!rest.contains(k)) by {
                if rest.contains(k) {
                    let i = choose|i: int| 0 <= i < rest.len() && rest[i] == k;
                    assert(keys[i] == keys[keys.len() - 1]);
                }
            }
            match get_field(inst, k) {
                Some(v) => lemma_get_set_same(m1, k, v),
                None => {},
            }
        } else {
            match get_field(inst, last) {
                Some(v) => lemma_get_set_other_any(m1, last, v, k),
                None => {},
            }
            assert(keys.contains(k) == rest.contains(k)) by {
                if keys.contains(k) {
                    let i = choose|i: int| 0 <= i < keys.len() && keys[i] == k;
                    assert(i < keys.len() - 1);
                    assert(rest[i] == k);
                }
                if rest.contains(k) {
                    let i = choose|i: int| 0 <= i < rest.len() && rest[i] == k;
                    assert(keys[i] == k);
                }
            }
            assert forall|i: int, j: int| 0 <= i < j < rest.len() implies rest[i] != rest[j] by {
                assert(rest[i] == keys[i] && rest[j] == keys[j]);
            }
        }
    }
}

/// The names that an instance manifest overlays are all different.
pub proof fn lemma_overlay_keys_distinct()
    ensures
        forall|i: int, j: int| 0 <= i < j < overlay_keys().len() ==> overlay_keys()[i] != overlay_keys()[j],
{
    reveal_strlit("name");
    reveal_strlit("short_name");
    reveal_strlit("description");
    reveal_strlit("theme_color");
    reveal_strlit("background_color");
    reveal_strlit("icons");
    reveal_strlit("screenshots");
    reveal_strlit("version");
    reveal_strlit("orientation");
    reveal_strlit("categories");
    reveal_strlit("shortcuts");
    let ks = overlay_keys();
    assert forall|i: int, j: int| 0 <= i < j < ks.len() implies ks[i] != ks[j] by {
        if ks[i].len() == ks[j].len() {
            assert(ks[i][0] != ks[j][0]);
        }
    }
}

/// The combined manifest: where the core manifest can take fields, every
/// field that the instance manifest owns and has comes from the instance,
/// and every other field stays as the core manifest has it.
pub proof fn law_instance_fields_overlay_core(m: JsonV, inst: JsonV, k: Seq<char>)
    requires
        can_take_fields(m),
    ensures
        overlay_keys().contains(k) && get_field(inst, k).is_some() ==> get_field(overlaid(m, inst, overlay_keys()), k) == get_field(inst, k),
        !(overlay_keys().contains(k) && get_field(inst, k).is_some()) ==> get_field(overlaid(m, inst, overlay_keys()), k) == get_field(m, k),
{
    lemma_overlay_keys_distinct();
    law_overlay_fields(m, inst, overlay_keys(), k);
}

// ---------------------------------------------------------------------------
// Working directory of the lint
// ---------------------------------------------------------------------------

proof fn lemma_ancestor_len(c: Seq<Seq<char>>, paths: Seq<Seq<Seq<char>>>, k: int)
    requires
        k <= c.len(),
    ensures
        ancestor_len(c, paths, k) matches Some(j) ==> {
            &&& 0 <= j <= k
            &&& all_start_with(paths, c.take(j))
            &&& forall|m: int| j < m <= k ==> !all_start_with(paths, #[trigger] c.take(m))
        },
    decreases k,
{
    if k >= 0 && !all_start_with(paths, c.take(k)) && !(k == 0 || (k == 1 && c[0] == root_marker())) {
        lemma_ancestor_len(c, paths, k - 1);
    }
}

/// The lint's working directory, where it exists, is a prefix (component by
/// component) of every existing root, and it is the longest prefix of the
/// first root that is.
pub proof fn law_common_ancestor_is_deepest(existing: Seq<Seq<char>>)
    ensures
        common_ancestor_spec(existing) matches Some(a) ==> exists|j: int| {
            &&& 0 <= j <= components(existing[0]).len()
            &&& a == render(#[trigger] components(existing[0]).take(j))
            &&& all_start_with(components_all(existing), components(existing[0]).take(j))
            &&& forall|m: int| j < m <= components(existing[0]).len() ==> !all_start_with(components_all(existing), #[trigger] components(existing[0]).take(m))
        },
{
    if existing.len() > 0 {
        let c = components(existing[0]);
        lemma_ancestor_len(c, components_all(existing), c.len() as int);
        if let Some(j) = ancestor_len(c, components_all(existing), c.len() as int) {
            assert(render(c.take(j)) == render(c.take(j)));
        }
    }
}

// ---------------------------------------------------------------------------
// Files found by the lint
// ---------------------------------------------------------------------------

/// Dropping repeats keeps every file: a file is among the first occurrences
/// exactly when it was found.
pub proof fn law_first_occurrences_keep_files(files: Seq<Seq<char>>, f: Seq<char>)
    ensures
        first_occurrences(files).contains(f) <==> files.contains(f),
    decreases files.len(),
{
    if files.len() > 0 {
        let rest = files.drop_last();
        law_first_occurrences_keep_files(rest, f);
        let before = first_occurrences(rest);
        if files.contains(f) {
            let i = choose|i: int| 0 <= i < files.len() && files[i] == f;
            if i < files.len() - 1 {
                assert(rest[i] == f);
            } else if !before.contains(f) {
                assert(before.push(f)[before.len() as int] == f);
            }
        }
        if first_occurrences(files).contains(f) && !before.contains(f) {
            assert(f == files.last());
            assert(files[files.len() - 1] == f);
        }
        if rest.contains(f) {
            let i = choose|i: int| 0 <= i < rest.len() && rest[i] == f;
            assert(files[i] == f);
            if !before.contains(files.last()) {
                let j = choose|j: int| 0 <= j < before.len() && before[j] == f;
                assert(before.push(files.last())[j] == f);
            }
        }
    }
}

// ---------------------------------------------------------------------------
// Inlined media
// ---------------------------------------------------------------------------

/// Inlining the media of a list: every entry stays in its place; an entry
/// with a local media file is inlined from the content at its position among
/// the requested files, and every other entry is kept as it is.
pub proof fn law_inlining_by_position(d: Dirs, items: Seq<JsonV>, contents: Seq<Seq<u8>>, i: int)
    requires
        0 <= i < items.len(),
        requests_in(d, items).len() <= contents.len(),
    ensures
        inlined_items(d, items, contents).len() == items.len(),
        inlined_items(d, items, contents)[i] == match entry_request(d, items[i]) {
            Some(f) => with_media(items[i], f, contents[requests_in(d, items.take(i)).len() as int]),
            None => items[i],
        },
    decreases items.len(),
{
    let rest = items.drop_first();
    let c2 = match entry_request(d, items[0]) {
        Some(_) => contents.drop_first(),
        None => contents,
    };
    let first = match entry_request(d, items[0]) {
        Some(f) => with_media(items[0], f, contents[0]),
        None => items[0],
    };
    assert(requests_in(d, items) == (match entry_request(d, items[0]) {
        Some(f) => seq![f],
        None => Seq::<Seq<char>>::empty(),
    }) + requests_in(d, rest));
    assert(requests_in(d, rest).len() <= c2.len());
    assert(inlined_items(d, items, contents) == seq![first] + inlined_items(d, rest, c2));
    lemma_inlined_len(d, rest, c2);
    if i == 0 {
        assert(items.take(0) =~= Seq::<JsonV>::empty());
        assert(requests_in(d, items.take(0)).len() == 0);
    } else {
        law_inlining_by_position(d, rest, c2, i - 1);
        lemma_requests_before(d, rest, i - 1);
        let t = items.take(i);
        assert(t.drop_first() =~= rest.take(i - 1));
        assert(t[0] == items[0]);
        assert(rest[i - 1] == items[i]);
        assert(requests_in(d, t) == (match entry_request(d, t[0]) {
            Some(f) => seq![f],
            None => Seq::<Seq<char>>::empty(),
        }) + requests_in(d, t.drop_first()));
        assert((seq![first] + inlined_items(d, rest, c2))[i] == inlined_items(d, rest, c2)[i - 1]);
    }
}

proof fn lemma_requests_before(d: Dirs, items: Seq<JsonV>, j: int)
    requires
        0 <= j < items.len(),
    ensures
        requests_in(d, items.take(j)).len() + (if entry_request(d, items[j]) is Some { 1int } else { 0int }) <= requests_in(d, items).len(),
    decreases items.len(),
{
    let rest = items.drop_first();
    if j == 0 {
        assert(items.take(0) =~= Seq::<JsonV>::empty());
    } else {
        lemma_requests_before(d, rest, j - 1);
        let t = items.take(j);
        assert(t.drop_first() =~= rest.take(j - 1));
        assert(t[0] == items[0]);
        assert(rest[j - 1] == items[j]);
    }
}

proof fn lemma_inlined_len(d: Dirs, items: Seq<JsonV>, contents: Seq<Seq<u8>>)
    requires
        requests_in(d, items).len() <= contents.len(),
    ensures
        inlined_items(d, items, contents).len() == items.len(),
    decreases items.len(),
{
    if items.len() > 0 {
        match entry_request(d, items[0]) {
            Some(_) => lemma_inlined_len(d, items.drop_first(), contents.drop_first()),
            None => lemma_inlined_len(d, items.drop_first(), contents),
        }
    }
}

// ---------------------------------------------------------------------------
// Reading the type checker's output
// ---------------------------------------------------------------------------

/// Whether a line of the type checker's output is a diagnostic.
pub open spec fn is_diagnostic_line(line: Seq<char>) -> bool {
    file_issue(line).is_some() || global_issue(line).is_some()
}

/// How many of `lines` are diagnostics.
pub open spec fn diagnostic_count(lines: Seq<Seq<char>>) -> nat
    decreases lines.len(),
{
    if lines.len() == 0 {
        0
    } else {
        diagnostic_count(lines.drop_last()) + if is_diagnostic_line(lines.last()) { 1nat } else { 0nat }
    }
}

proof fn lemma_parse_state_count(lines: Seq<Seq<char>>)
    ensures
        parse_state(lines).0.len() + (if parse_state(lines).1 is Some { 1nat } else { 0nat }) == diagnostic_count(lines),
    decreases lines.len(),
{
    if lines.len() > 0 {
        lemma_parse_state_count(lines.drop_last());
    }
}

/// Each diagnostic line of the type checker's output gives exactly one
/// issue, and no other line gives one: the issues read are as many as the
/// diagnostic lines.
pub proof fn law_one_issue_per_diagnostic_line(output: Seq<char>)
    ensures
        parsed_issues(output).len() == diagnostic_count(lines_of(output)),
{
    lemma_parse_state_count(lines_of(output));
}

// ---------------------------------------------------------------------------
// Tree copies
// ---------------------------------------------------------------------------

/// A component that names something: not empty, not `"."`, without `'/'`.
pub open spec fn is_name_part(c: Seq<char>) -> bool {
    c.len() > 0 && c != seq!['.'] && forall|k: int| 0 <= k < c.len() ==> c[k] != '/'
}

proof fn lemma_segments_shift(x: Seq<char>, y: Seq<char>, j: int, cur: Seq<char>)
    requires
        0 <= j,
    ensures
        segments_from(x + y, x.len() + j, cur) == segments_from(y, j, cur),
    decreases y.len() - j,
{
    if j < y.len() {
        assert((x + y)[x.len() + j] == y[j]);
        if y[j] == '/' {
            lemma_segments_shift(x, y, j + 1, seq![]);
        } else {
            lemma_segments_shift(x, y, j + 1, cur.push(y[j]));
        }
    }
}

proof fn lemma_segments_split(a: Seq<char>, b: Seq<char>, i: int, cur: Seq<char>)
    requires
        0 <= i <= a.len(),
    ensures
        segments_from(a + seq!['/'] + b, i, cur) == segments_from(a, i, cur) + normal_parts(b),
    decreases a.len() - i,
{
    let p = a + seq!['/'] + b;
    if i == a.len() {
        assert(p[i] == '/');
        assert(p =~= (a + seq!['/']) + b);
        lemma_segments_shift(a + seq!['/'], b, 0, seq![]);
    } else {
        assert(p[i] == a[i]);
        if a[i] == '/' {
            lemma_segments_split(a, b, i + 1, seq![]);
            assert(kept(cur) + (segments_from(a, i + 1, seq![]) + normal_parts(b))
                =~= (kept(cur) + segments_from(a, i + 1, seq![])) + normal_parts(b));
        } else {
            lemma_segments_split(a, b, i + 1, cur.push(a[i]));
        }
    }
}

proof fn lemma_components_join(a: Seq<char>, b: Seq<char>)
    requires
        a.len() > 0,
    ensures
        components(a + seq!['/'] + b) == components(a) + normal_parts(b),
{
    let p = a + seq!['/'] + b;
    lemma_segments_split(a, b, 0, seq![]);
    assert(p[0] == a[0]);
    if a.len() > 1 {
        assert(p[1] == a[1]);
    } else {
        assert(p[1] == '/');
    }
    assert(leading(p) == leading(a));
}

proof fn lemma_components_joined_path(base: Seq<char>, rel: Seq<char>)
    requires
        rel.len() == 0 || rel[0] != '/',
    ensures
        base.len() > 0 ==> components(joined_path(base, rel)) == components(base) + normal_parts(rel),
        base.len() == 0 ==> components(joined_path(base, rel)) == components(rel),
{
    if base.len() > 0 {
        if base.last() == '/' {
            let b0 = base.drop_last();
            assert(base =~= b0 + seq!['/']);
            assert(base + rel =~= b0 + seq!['/'] + rel);
            if b0.len() > 0 {
                lemma_components_join(b0, rel);
                lemma_components_join(b0, seq![]);
                assert(b0 + seq!['/'] + Seq::<char>::empty() =~= base);
                assert(normal_parts(Seq::<char>::empty()) == Seq::<Seq<char>>::empty());
            } else {
                let p = base + rel;
                assert(p =~= seq!['/'] + rel);
                lemma_segments_shift(seq!['/'], rel, 0, seq![]);
                assert(p[0] == '/');
                assert(normal_parts(p) == kept(seq![]) + segments_from(p, 1, seq![]));
                assert(normal_parts(base) == kept(seq![]) + segments_from(base, 1, seq![]));
                assert(kept(Seq::<char>::empty()) =~= Seq::<Seq<char>>::empty());
            }
        } else {
            lemma_components_join(base, rel);
        }
    } else {
        assert(joined_path(base, rel) =~= rel);
    }
}

proof fn lemma_segments_no_slash(x: Seq<char>, i: int, cur: Seq<char>)
    requires
        0 <= i <= x.len(),
        forall|k: int| i <= k < x.len() ==> x[k] != '/',
    ensures
        segments_from(x, i, cur) == kept(cur + x.skip(i)),
    decreases x.len() - i,
{
    if i < x.len() {
        lemma_segments_no_slash(x, i + 1, cur.push(x[i]));
        assert(cur.push(x[i]) + x.skip(i + 1) =~= cur + x.skip(i));
    } else {
        assert(cur + x.skip(i) =~= cur);
    }
}

proof fn lemma_kept_names(cur: Seq<char>)
    requires
        forall|k: int| 0 <= k < cur.len() ==> cur[k] != '/',
    ensures
        forall|k: int| 0 <= k < kept(cur).len() ==> is_name_part(#[trigger] kept(cur)[k]),
{
    if cur.len() > 0 && cur != seq!['.'] {
        assert(kept(cur) == seq![cur]);
        assert(is_name_part(cur));
    } else {
        assert(kept(cur).len() == 0);
    }
}

proof fn lemma_segments_are_names(p: Seq<char>, i: int, cur: Seq<char>)
    requires
        0 <= i,
        forall|k: int| 0 <= k < cur.len() ==> cur[k] != '/',
    ensures
        forall|k: int| 0 <= k < segments_from(p, i, cur).len() ==> is_name_part(#[trigger] segments_from(p, i, cur)[k]),
    decreases p.len() - i,
{
    lemma_kept_names(cur);
    if i < p.len() {
        if p[i] == '/' {
            lemma_segments_are_names(p, i + 1, seq![]);
            let a = kept(cur);
            let b = segments_from(p, i + 1, seq![]);
            assert(segments_from(p, i, cur) == a + b);
            assert forall|k: int| 0 <= k < (a + b).len() implies is_name_part(#[trigger] (a + b)[k]) by {
                if k >= a.len() {
                    assert((a + b)[k] == b[k - a.len()]);
                } else {
                    assert((a + b)[k] == a[k]);
                }
            }
        } else {
            let c2 = cur.push(p[i]);
            assert forall|k: int| 0 <= k < c2.len() implies c2[k] != '/' by {
                if k < cur.len() {
                    assert(c2[k] == cur[k]);
                }
            }
            lemma_segments_are_names(p, i + 1, c2);
            assert(segments_from(p, i, cur) == segments_from(p, i + 1, c2));
        }
    } else {
        assert(segments_from(p, i, cur) == kept(cur));
    }
}

proof fn lemma_joined_names(cs: Seq<Seq<char>>)
    requires
        forall|k: int| 0 <= k < cs.len() ==> is_name_part(#[trigger] cs[k]),
    ensures
        normal_parts(joined(cs, root_marker())) == cs,
        cs.len() > 0 ==> joined(cs, root_marker()).len() >= cs[0].len()
            && joined(cs, root_marker()).take(cs[0].len() as int) == cs[0],
    decreases cs.len(),
{
    let j = joined(cs, root_marker());
    if cs.len() == 0 {
        assert(normal_parts(j) == kept(Seq::<char>::empty()));
    } else if cs.len() == 1 {
        lemma_segments_no_slash(cs[0], 0, seq![]);
        assert(Seq::<char>::empty() + cs[0].skip(0) =~= cs[0]);
        assert(j.take(cs[0].len() as int) =~= cs[0]);
    } else {
        let d = cs.drop_last();
        assert forall|k: int| 0 <= k < d.len() implies is_name_part(#[trigger] d[k]) by {
            assert(d[k] == cs[k]);
        }
        lemma_joined_names(d);
        let jd = joined(d, root_marker());
        assert(j == jd + root_marker() + cs.last());
        assert(root_marker() =~= seq!['/']);
        lemma_segments_split(jd, cs.last(), 0, seq![]);
        lemma_segments_no_slash(cs.last(), 0, seq![]);
        assert(Seq::<char>::empty() + cs.last().skip(0) =~= cs.last());
        assert(is_name_part(cs.last()));
        assert(normal_parts(cs.last()) == seq![cs.last()]);
        assert(d.push(cs.last()) =~= cs);
        assert(d[0] == cs[0]);
        assert(j.take(cs[0].len() as int) =~= jd.take(cs[0].len() as int));
    }
}

proof fn lemma_render_names(cs: Seq<Seq<char>>)
    requires
        forall|k: int| 0 <= k < cs.len() ==> is_name_part(#[trigger] cs[k]),
    ensures
        render(cs).len() == 0 || render(cs)[0] != '/',
        components(render(cs)) == cs,
{
    lemma_joined_names(cs);
    let r = render(cs);
    if cs.len() > 0 {
        assert(cs[0] != root_marker()) by {
            if cs[0] == root_marker() {
                assert(cs[0][0] == '/');
            }
        }
        assert(r == joined(cs, root_marker()));
        assert(r[0] == cs[0][0]);
        if r[0] == '.' {
            assert(cs[0] != seq!['.']);
            assert(cs[0].len() > 1) by {
                if cs[0].len() == 1 {
                    assert(cs[0] =~= seq!['.']);
                }
            }
            assert(r[1] == cs[0][1]);
        }
        assert(leading(r) == Seq::<Seq<char>>::empty());
    } else {
        assert(leading(r) == Seq::<Seq<char>>::empty());
    }
    assert(components(r) =~= cs);
}

/// A file's components after those of a root that the file lies under are
/// names.
proof fn lemma_tail_names(f: Seq<char>, n: int)
    requires
        1 <= n <= components(f).len(),
    ensures
        forall|k: int| 0 <= k < components(f).skip(n).len() ==> is_name_part(#[trigger] components(f).skip(n)[k]),
{
    lemma_segments_are_names(f, 0, seq![]);
    let c = components(f);
    assert forall|k: int| 0 <= k < c.skip(n).len() implies is_name_part(#[trigger] c.skip(n)[k]) by {
        let l = leading(f).len();
        assert(l <= 1);
        assert(c.skip(n)[k] == c[n + k]);
        assert(c[n + k] == normal_parts(f)[n + k - l]);
    }
}

/// Each copy of a tree copy keeps the file's place relative to its root: the
/// copy's components are those of the destination followed by those of the
/// file below the source root (for a source root that names a location).
pub proof fn law_copies_keep_relative_place(src: Seq<char>, dest: Seq<char>, skip: Seq<char>, files: Seq<Seq<char>>, k: int)
    requires
        components(src).len() > 0,
        copy_plan_spec(src, dest, skip, files) is Ok,
        0 <= k < copy_plan_spec(src, dest, skip, files)->Ok_0.len(),
    ensures
        ({
            let c = copy_plan_spec(src, dest, skip, files)->Ok_0[k];
            &&& components(c.1) == components(dest) + components(c.0).skip(components(src).len() as int)
            &&& path_has_prefix(c.1, dest)
        }),
    decreases files.len(),
{
    let rest = files.drop_last();
    let done = copy_plan_spec(src, dest, skip, rest)->Ok_0;
    let f = files.last();
    if k < done.len() {
        law_copies_keep_relative_place(src, dest, skip, rest, k);
    } else {
        let n = components(src).len() as int;
        let cs = components(f).skip(n);
        lemma_tail_names(f, n);
        lemma_render_names(cs);
        lemma_components_joined_path(dest, render(cs));
        let t = joined_path(dest, render(cs));
        assert(components(t) == components(dest) + cs);
        assert((components(dest) + cs).take(components(dest).len() as int) =~= components(dest));
    }
}

// ---------------------------------------------------------------------------
// Multi-line diagnostics
// ---------------------------------------------------------------------------

/// The issue that a diagnostic line opens, where it is one.
pub open spec fn opened_issue(line: Seq<char>) -> Option<LintIssueV> {
    match file_issue(line) {
        Some(x) => Some(x),
        None => global_issue(line),
    }
}

/// `m` followed, for each of `ls` in order, by a line break and that line
/// without its surrounding whitespace.
pub open spec fn with_lines(m: Seq<char>, ls: Seq<Seq<char>>) -> Seq<char>
    decreases ls.len(),
{
    if ls.len() == 0 {
        m
    } else {
        with_lines(m, ls.drop_last()) + seq!['\n'] + trimmed(ls.last())
    }
}

/// `i` with its message replaced.
pub open spec fn with_message(i: LintIssueV, m: Seq<char>) -> LintIssueV {
    LintIssueV { file: i.file, line: i.line, column: i.column, severity: i.severity, code: i.code, message: m }
}

proof fn lemma_continued_state(d: Seq<char>, i: LintIssueV, ls: Seq<Seq<char>>)
    requires
        opened_issue(d) == Some(i),
        forall|k: int| 0 <= k < ls.len() ==> opened_issue(#[trigger] ls[k]).is_none() && trimmed(ls[k]).len() > 0,
    ensures
        parse_state(seq![d] + ls) == (Seq::<LintIssueV>::empty(), Some(with_message(i, with_lines(i.message, ls)))),
    decreases ls.len(),
{
    if ls.len() == 0 {
        assert(seq![d] + ls =~= seq![d]);
        assert(seq![d].drop_last() =~= Seq::<Seq<char>>::empty());
        assert(parse_state(Seq::<Seq<char>>::empty()) == (Seq::<LintIssueV>::empty(), None::<LintIssueV>));
        assert(parse_state(seq![d]) == (Seq::<LintIssueV>::empty(), Some(i)));
        assert(with_message(i, i.message) == i);
    } else {
        let l2 = ls.drop_last();
        assert forall|k: int| 0 <= k < l2.len() implies opened_issue(#[trigger] l2[k]).is_none() && trimmed(l2[k]).len() > 0 by {
            assert(l2[k] == ls[k]);
        }
        lemma_continued_state(d, i, l2);
        let all = seq![d] + ls;
        assert(all.drop_last() =~= seq![d] + l2);
        assert(all.last() == ls[ls.len() - 1]);
        let line = ls[ls.len() - 1];
        assert(opened_issue(line).is_none());
        assert(file_issue(line).is_none() && global_issue(line).is_none());
        assert(trimmed(line).len() > 0);
        let c = with_message(i, with_lines(i.message, l2));
        assert(with_lines(i.message, ls) == with_lines(i.message, l2) + seq!['\n'] + trimmed(line));
        assert(crate::lint::continued(c, line) == with_message(i, with_lines(i.message, ls)));
        assert(parse_state(all) == (Seq::<LintIssueV>::empty(), Some(crate::lint::continued(c, line))));
    }
}

/// A diagnostic followed by non-blank lines that are not diagnostics gives a
/// single issue, whose message is the diagnostic's message followed by every
/// one of those lines, in order, each on a line of its own and trimmed.
pub proof fn law_every_continuation_line_is_kept(output: Seq<char>, d: Seq<char>, i: LintIssueV, ls: Seq<Seq<char>>)
    requires
        lines_of(output) == seq![d] + ls,
        opened_issue(d) == Some(i),
        forall|k: int| 0 <= k < ls.len() ==> opened_issue(#[trigger] ls[k]).is_none() && trimmed(ls[k]).len() > 0,
    ensures
        parsed_issues(output) == seq![with_message(i, with_lines(i.message, ls))],
{
    lemma_continued_state(d, i, ls);
    assert(Seq::<LintIssueV>::empty().push(with_message(i, with_lines(i.message, ls))) =~= seq![with_message(i, with_lines(i.message, ls))]);
}

// ---------------------------------------------------------------------------
// Component modules
// ---------------------------------------------------------------------------

/// A view or component module (it lies under `lazy`, in `views` or
/// `components`) takes its parts' imports first, its style at `{--css--}`,
/// and at `{--html--}` its markup (a single space where it has none), led by
/// a link to the main style sheet only where the module lies under a
/// `views` folder; any other module is minified as it is.
pub proof fn law_main_style_link_only_in_views(path: Seq<char>, js: Seq<char>, css: Option<Seq<char>>, html: Option<Seq<char>>, imports: Seq<char>)
    ensures
        components(path).contains("lazy"@) && (components(path).contains("views"@) || components(path).contains("components"@))
            ==> js_source_spec(path, js, css, html, imports) == imports + replaced(
                replaced(js, "{--css--}"@, "<style>"@ + or_space(css) + "</style>"@),
                "{--html--}"@,
                (if components(path).contains("views"@) { "<link rel='stylesheet' href='/assets/main.css'>"@ } else { Seq::<char>::empty() }) + or_space(html),
            ),
        !(components(path).contains("lazy"@) && (components(path).contains("views"@) || components(path).contains("components"@)))
            ==> js_source_spec(path, js, css, html, imports) == js,
{
    if !components(path).contains("views"@) {
        reveal_strlit("");
        assert(""@ + or_space(html) =~= Seq::<char>::empty() + or_space(html));
    }
}

// ---------------------------------------------------------------------------
// Core client entry points
// ---------------------------------------------------------------------------

/// A changed TypeScript entry point of the core client (the service worker,
/// the shared worker, or always-loaded code; not the main module and not a
/// definitions file), outside its `lazy` and `thirdparty` folders, is first
/// compiled to its `.js` counterpart at the same relative place under the
/// development output.
pub proof fn law_core_entry_points_are_compiled(d: Dirs, abs: Seq<char>, rel: Seq<char>)
    requires
        path_has_prefix(abs, location(d, PathE::ClientSrc)),
        stripped(abs, location(d, PathE::ClientSrc)) == Some(rel),
        !path_has_prefix(abs, joined_path(location(d, PathE::ClientSrc), "lazy"@)),
        !path_has_prefix(abs, joined_path(location(d, PathE::ClientSrc), "thirdparty"@)),
        is_ts(abs),
        same_path(rel, "sw.ts"@) || same_path(rel, "shared_worker.ts"@) || path_has_prefix(rel, "alwaysload"@),
        !same_path(rel, "main.ts"@),
        !defs_ts(rel),
    ensures
        change_plan(d, abs).len() >= 1,
        change_plan(d, abs)[0] == DevStepV::CompileTs(seq![CompileJobV {
            src: abs,
            dest: joined_path(location(d, PathE::ClientOutputDev), with_extension(rel, "js"@)),
            condition: JobCondition::Always,
        }]),
{
}

// ---------------------------------------------------------------------------
// The profile
// ---------------------------------------------------------------------------

/// Selecting an instance rewrites exactly the profile lines that start with
/// `export NIFTY_INSTANCE=` (to name the instance) and keeps every other
/// line as it is, at its place: the result is the profile's lines, so
/// changed, joined with line breaks.
pub proof fn law_only_selector_lines_change(content: Seq<char>, instance: Seq<char>)
    ensures
        exists|xs: Seq<Seq<char>>| {
            &&& setinstance_spec(content, instance) == joined(xs, "\n"@)
            &&& xs.len() == lines_of(content).len()
            &&& forall|k: int| 0 <= k < xs.len() ==> {
                &&& has_prefix(lines_of(content)[k], "export NIFTY_INSTANCE="@) ==> #[trigger] xs[k] == "export NIFTY_INSTANCE="@ + instance
                &&& !has_prefix(lines_of(content)[k], "export NIFTY_INSTANCE="@) ==> xs[k] == lines_of(content)[k]
            }
        },
{
    let ls = lines_of(content);
    let xs = Seq::new(ls.len(), |k: int| rewritten_line(ls[k], instance));
    assert(setinstance_spec(content, instance) == joined(xs, "\n"@));
}

// ---------------------------------------------------------------------------
// Style sheets saved by the browser
// ---------------------------------------------------------------------------

/// `s` has no `':'`.
pub open spec fn colon_free(s: Seq<char>) -> bool {
    forall|k: int| 0 <= k < s.len() ==> s[k] != ':'
}

/// Of a text that has its only `':'` at position `c`, a pattern whose only
/// `':'` is at position 9 can occur only at `c - 9`.
proof fn lemma_colon_anchor(f: Seq<char>, q: Seq<char>, c: int, p: int)
    requires
        0 <= c < f.len(),
        f[c] == ':',
        forall|k: int| 0 <= k < f.len() && k != c ==> f[k] != ':',
        9 < q.len(),
        q[9] == ':',
        occurs_at(f, q, p),
    ensures
        p == c - 9,
{
    assert(f.subrange(p, p + q.len())[9] == f[p + 9]);
}

/// The text after the only occurrence of `pat` is the last piece of a split
/// at `pat`.
proof fn lemma_last_piece_single(s: Seq<char>, pat: Seq<char>, p: int)
    requires
        pat.len() > 0,
        occurs_at(s, pat, p),
        forall|q: int| occurs_at(s, pat, q) ==> q == p,
    ensures
        last_piece(s, pat) == s.skip(p + pat.len()),
    decreases p,
{
    assert(contains(s, pat));
    if p == 0 {
        let t = s.skip(pat.len() as int);
        assert(!contains(t, pat)) by {
            if contains(t, pat) {
                let q = choose|q: int| occurs_at(t, pat, q);
                assert(s.subrange(q + pat.len(), q + pat.len() + pat.len()) =~= t.subrange(q, q + pat.len()));
                assert(occurs_at(s, pat, q + pat.len()));
            }
        }
        assert(last_piece(t, pat) == t);
    } else {
        assert(!has_prefix(s, pat));
        let t = s.drop_first();
        assert(t.subrange(p - 1, p - 1 + pat.len()) =~= s.subrange(p, p + pat.len()));
        assert forall|q: int| occurs_at(t, pat, q) implies q == p - 1 by {
            assert(s.subrange(q + 1, q + 1 + pat.len()) =~= t.subrange(q, q + pat.len()));
            assert(occurs_at(s, pat, q + 1));
        }
        lemma_last_piece_single(t, pat, p - 1);
        assert(t.skip(p - 1 + pat.len()) =~= s.skip(p + pat.len()));
    }
}

/// The only `':'` of `before + mid + rest` is the one at position 9 of `mid`.
proof fn lemma_single_colon(before: Seq<char>, mid: Seq<char>, rest: Seq<char>)
    requires
        colon_free(before),
        colon_free(rest),
        9 < mid.len(),
        mid[9] == ':',
        forall|k: int| 0 <= k < mid.len() && k != 9 ==> mid[k] != ':',
    ensures
        (before + mid + rest)[before.len() as int + 9] == ':',
        forall|k: int| 0 <= k < (before + mid + rest).len() && k != before.len() + 9 ==> (before + mid + rest)[k] != ':',
{
    let f = before + mid + rest;
    assert forall|k: int| 0 <= k < f.len() && k != before.len() + 9 implies f[k] != ':' by {
        if k < before.len() {
            assert(f[k] == before[k]);
        } else if k < before.len() + mid.len() {
            assert(f[k] == mid[k - before.len()]);
        } else {
            assert(f[k] == rest[k - before.len() - mid.len()]);
        }
    }
    assert(f[before.len() as int + 9] == mid[9]);
}

/// A style sheet saved by the browser under `localhost:port/assets/` goes
/// back to the same path below the core sources, sub-folders included; one
/// saved under `localhost:port/assets/instance/` goes back to the same path
/// below the instance sources (for paths and ports without `':'`, as the
/// browser's saved files have them).
pub proof fn law_saved_style_keeps_path_below_assets(
    before: Seq<char>,
    port: Seq<char>,
    rest: Seq<char>,
    main_folder: Seq<char>,
    instance_folder: Seq<char>,
)
    requires
        colon_free(before),
        colon_free(port),
        colon_free(rest),
    ensures
        !has_prefix(rest, "instance/"@) ==> override_target_spec(
            before + ("localhost:"@ + port + "/assets/"@) + rest,
            main_folder,
            instance_folder,
            port,
        ) == main_folder + rest,
        override_target_spec(before + ("localhost:"@ + port + "/assets/instance/"@) + rest, main_folder, instance_folder, port)
            == instance_folder + rest,
{
    reveal_strlit("localhost:");
    reveal_strlit("/assets/");
    reveal_strlit("/assets/instance/");
    reveal_strlit("instance/");
    let lh = "localhost:"@;
    let m = lh + port + "/assets/"@;
    let inst = lh + port + "/assets/instance/"@;
    assert(lh.len() == 10 && lh[9] == ':');
    assert forall|k: int| 0 <= k < m.len() && k != 9 implies m[k] != ':' by {
        if k < 10 {
            assert(m[k] == lh[k]);
        } else if k < 10 + port.len() {
            assert(m[k] == port[k - 10]);
        } else {
            assert(m[k] == "/assets/"@[k - 10 - port.len()]);
        }
    }
    assert forall|k: int| 0 <= k < inst.len() && k != 9 implies inst[k] != ':' by {
        if k < 10 {
            assert(inst[k] == lh[k]);
        } else if k < 10 + port.len() {
            assert(inst[k] == port[k - 10]);
        } else {
            assert(inst[k] == "/assets/instance/"@[k - 10 - port.len()]);
        }
    }
    assert(m[9] == ':' && inst[9] == ':');
    let b: int = before.len() as int;
    let ml: int = m.len() as int;
    let il: int = inst.len() as int;
    let c: int = b + 9;

    // Saved under the core assets.
    let f = before + m + rest;
    lemma_single_colon(before, m, rest);
    assert(f.subrange(b, b + ml) =~= m);
    assert(occurs_at(f, m, b));
    assert forall|q: int| occurs_at(f, m, q) implies q == b by {
        lemma_colon_anchor(f, m, c, q);
    }
    if !has_prefix(rest, "instance/"@) {
        assert(!contains(f, inst)) by {
            if contains(f, inst) {
                let q = choose|q: int| occurs_at(f, inst, q);
                lemma_colon_anchor(f, inst, c, q);
                assert(inst =~= m + "instance/"@);
                assert(q == b);
                assert(il == ml + 9);
                assert(rest.len() >= 9);
                assert(rest.subrange(0, 9) =~= f.subrange(b + ml, b + ml + 9));
                assert(f.subrange(b + ml, b + ml + 9)
                    =~= f.subrange(q, q + inst.len()).subrange(ml, il));
                assert(inst.subrange(ml, il) =~= "instance/"@);
                assert(rest.subrange(0, 9) =~= "instance/"@);
                assert(occurs_at(rest, "instance/"@, 0));
                assert(has_prefix(rest, "instance/"@));
            }
        }
        lemma_last_piece_single(f, m, b);
        assert(f.skip(b + ml) =~= rest);
    }

    // Saved under the instance assets.
    let g = before + inst + rest;
    lemma_single_colon(before, inst, rest);
    assert(g.subrange(b, b + il) =~= inst);
    assert(occurs_at(g, inst, b));
    assert(contains(g, inst));
    assert forall|q: int| occurs_at(g, inst, q) implies q == b by {
        lemma_colon_anchor(g, inst, c, q);
    }
    lemma_last_piece_single(g, inst, b);
    assert(g.skip(b + il) =~= rest);
}

} // verus!
