//! The order of paths (that of `Path`'s `Ord`): component by component, the
//! root before `"."`, `"."` before `".."`, `".."` before names, and names by
//! their characters (code point order, which is the order of their UTF-8
//! bytes); and a stable sort of paths in that order.

use vstd::prelude::*;
use crate::paths::{components, components_exec, root_marker, cur_marker, same_path, chars_eq};
use crate::text::{views_of, strs_view, to_chars};

verus! {

// ---------------------------------------------------------------------------
// Specification
// ---------------------------------------------------------------------------

/// Strict lexicographic order of texts by code point.
pub open spec fn text_less(a: Seq<char>, b: Seq<char>) -> bool
    decreases a.len(),
{
    if a.len() == 0 {
        b.len() > 0
    } else if b.len() == 0 {
        false
    } else if a[0] != b[0] {
        a[0] < b[0]
    } else {
        text_less(a.drop_first(), b.drop_first())
    }
}

/// The parent-directory component.
pub open spec fn parent_marker() -> Seq<char> {
    seq!['.', '.']
}

/// The rank of a component: root, current directory, parent directory, name.
pub open spec fn comp_rank(c: Seq<char>) -> int {
    if c == root_marker() {
        1
    } else if c == cur_marker() {
        2
    } else if c == parent_marker() {
        3
    } else {
        4
    }
}

/// Strict order of components: by rank, names by their text.
pub open spec fn comp_less(a: Seq<char>, b: Seq<char>) -> bool {
    if comp_rank(a) != comp_rank(b) {
        comp_rank(a) < comp_rank(b)
    } else {
        comp_rank(a) == 4 && text_less(a, b)
    }
}

/// Strict lexicographic order of component sequences.
pub open spec fn comps_less(a: Seq<Seq<char>>, b: Seq<Seq<char>>) -> bool
    decreases a.len(),
{
    if a.len() == 0 {
        b.len() > 0
    } else if b.len() == 0 {
        false
    } else if comp_less(a[0], b[0]) {
        true
    } else if comp_less(b[0], a[0]) {
        false
    } else {
        comps_less(a.drop_first(), b.drop_first())
    }
}

/// `a` comes before `b` in path order.
pub open spec fn path_less(a: Seq<char>, b: Seq<char>) -> bool {
    comps_less(components(a), components(b))
}

/// No path comes after a later one.
pub open spec fn sorted_paths(s: Seq<Seq<char>>) -> bool {
    forall|i: int, j: int| 0 <= i < j < s.len() ==> !path_less(#[trigger] s[j], #[trigger] s[i])
}

/// Paths that are equal as paths keep the order they have in `u`.
pub open spec fn keeps_order_of_equals(s: Seq<Seq<char>>, u: Seq<Seq<char>>) -> bool {
    forall|i: int, j: int, a: int, b: int|
        #![trigger s[i], s[j], u[a], u[b]]
        0 <= i < j < s.len() && 0 <= a < u.len() && 0 <= b < u.len() && u[a] == s[i] && u[b] == s[j] && same_path(s[i], s[j]) ==> a < b
}

// ---------------------------------------------------------------------------
// The orders are strict total orders
// ---------------------------------------------------------------------------

proof fn lemma_text_irrefl(a: Seq<char>)
    ensures
        !text_less(a, a),
    decreases a.len(),
{
    if a.len() > 0 {
        lemma_text_irrefl(a.drop_first());
    }
}

proof fn lemma_text_trans(a: Seq<char>, b: Seq<char>, c: Seq<char>)
    requires
        text_less(a, b),
        text_less(b, c),
    ensures
        text_less(a, c),
    decreases a.len(),
{
    if a.len() > 0 && b.len() > 0 && c.len() > 0 && a[0] == b[0] && b[0] == c[0] {
        lemma_text_trans(a.drop_first(), b.drop_first(), c.drop_first());
    }
}

proof fn lemma_text_total(a: Seq<char>, b: Seq<char>)
    ensures
        text_less(a, b) || a == b || text_less(b, a),
    decreases a.len(),
{
    if a.len() == 0 && b.len() == 0 {
        assert(a =~= b);
    } else if a.len() > 0 && b.len() > 0 && a[0] == b[0] {
        let a1 = a.drop_first();
        let b1 = b.drop_first();
        lemma_text_total(a1, b1);
        if a1 == b1 {
            assert(a.len() == b.len());
            assert forall|i: int| 0 <= i < a.len() implies a[i] == b[i] by {
                if i > 0 {
                    assert(a[i] == a1[i - 1]);
                    assert(b[i] == b1[i - 1]);
                }
            }
            assert(a =~= b);
        }
    }
}

proof fn lemma_comp_irrefl(a: Seq<char>)
    ensures
        !comp_less(a, a),
{
    lemma_text_irrefl(a);
}

proof fn lemma_comp_trans(a: Seq<char>, b: Seq<char>, c: Seq<char>)
    requires
        comp_less(a, b),
        comp_less(b, c),
    ensures
        comp_less(a, c),
{
    if comp_rank(a) == 4 && comp_rank(b) == 4 && comp_rank(c) == 4 {
        lemma_text_trans(a, b, c);
    }
}

proof fn lemma_comp_total(a: Seq<char>, b: Seq<char>)
    ensures
        comp_less(a, b) || a == b || comp_less(b, a),
{
    lemma_text_total(a, b);
}

proof fn lemma_comps_irrefl(a: Seq<Seq<char>>)
    ensures
        !comps_less(a, a),
    decreases a.len(),
{
    if a.len() > 0 {
        lemma_comp_irrefl(a[0]);
        lemma_comps_irrefl(a.drop_first());
    }
}

proof fn lemma_comps_trans(a: Seq<Seq<char>>, b: Seq<Seq<char>>, c: Seq<Seq<char>>)
    requires
        comps_less(a, b),
        comps_less(b, c),
    ensures
        comps_less(a, c),
    decreases a.len(),
{
    if a.len() > 0 && b.len() > 0 && c.len() > 0 {
        lemma_comp_total(a[0], b[0]);
        lemma_comp_total(b[0], c[0]);
        lemma_comp_total(a[0], c[0]);
        lemma_comp_irrefl(a[0]);
        lemma_comp_irrefl(b[0]);
        if comp_less(a[0], b[0]) && comp_less(b[0], c[0]) {
            lemma_comp_trans(a[0], b[0], c[0]);
        } else if comp_less(a[0], b[0]) {
            assert(b[0] == c[0]);
        } else if comp_less(b[0], c[0]) {
            assert(a[0] == b[0]);
        } else {
            assert(a[0] == b[0]);
            assert(b[0] == c[0]);
            lemma_comps_trans(a.drop_first(), b.drop_first(), c.drop_first());
        }
    }
}

proof fn lemma_comps_total(a: Seq<Seq<char>>, b: Seq<Seq<char>>)
    ensures
        comps_less(a, b) || a == b || comps_less(b, a),
    decreases a.len(),
{
    if a.len() == 0 && b.len() == 0 {
        assert(a =~= b);
    } else if a.len() > 0 && b.len() > 0 {
        lemma_comp_total(a[0], b[0]);
        if a[0] == b[0] {
            lemma_comp_irrefl(a[0]);
            let a1 = a.drop_first();
            let b1 = b.drop_first();
            lemma_comps_total(a1, b1);
            if a1 == b1 {
                assert(a.len() == b.len());
                assert forall|i: int| 0 <= i < a.len() implies a[i] == b[i] by {
                    if i > 0 {
                        assert(a[i] == a1[i - 1]);
                        assert(b[i] == b1[i - 1]);
                    }
                }
                assert(a =~= b);
            }
        }
    }
}

/// Path order is irreflexive.
pub proof fn lemma_path_irrefl(a: Seq<char>)
    ensures
        !path_less(a, a),
{
    lemma_comps_irrefl(components(a));
}

/// Path order is transitive.
pub proof fn lemma_path_trans(a: Seq<char>, b: Seq<char>, c: Seq<char>)
    requires
        path_less(a, b),
        path_less(b, c),
    ensures
        path_less(a, c),
{
    lemma_comps_trans(components(a), components(b), components(c));
}

/// Of two paths one comes first, or they are equal as paths.
pub proof fn lemma_path_total(a: Seq<char>, b: Seq<char>)
    ensures
        path_less(a, b) || same_path(a, b) || path_less(b, a),
{
    lemma_comps_total(components(a), components(b));
}

/// Paths equal as paths are ordered alike against any third path.
pub proof fn lemma_path_same(a: Seq<char>, b: Seq<char>, c: Seq<char>)
    requires
        same_path(a, b),
    ensures
        path_less(a, c) == path_less(b, c),
        path_less(c, a) == path_less(c, b),
{
}

// ---------------------------------------------------------------------------
// Comparison
// ---------------------------------------------------------------------------

fn text_less_exec(a: &[char], b: &[char]) -> (r: bool)
    ensures
        r == text_less(a@, b@),
{
    let mut i: usize = 0;
    assert(a@.skip(0) =~= a@);
    assert(b@.skip(0) =~= b@);
    while i < a.len() && i < b.len()
        invariant
            i <= a.len(),
            i <= b.len(),
            text_less(a@, b@) == text_less(a@.skip(i as int), b@.skip(i as int)),
        decreases a.len() - i,
    {
        let ghost sa = a@.skip(i as int);
        let ghost sb = b@.skip(i as int);
        assert(sa[0] == a@[i as int]);
        assert(sb[0] == b@[i as int]);
        if a[i] != b[i] {
            return a[i] < b[i];
        }
        assert(sa.drop_first() =~= a@.skip(i + 1));
        assert(sb.drop_first() =~= b@.skip(i + 1));
        i = i + 1;
    }
    assert(a@.skip(i as int).len() == a.len() - i);
    assert(b@.skip(i as int).len() == b.len() - i);
    i == a.len() && i < b.len()
}

fn comp_rank_exec(c: &[char]) -> (r: u8)
    ensures
        r as int == comp_rank(c@),
{
    let root: [char; 1] = ['/'];
    let cur: [char; 1] = ['.'];
    let parent: [char; 2] = ['.', '.'];
    assert(root@ =~= root_marker());
    assert(cur@ =~= cur_marker());
    assert(parent@ =~= parent_marker());
    if chars_eq(c, &root) {
        1
    } else if chars_eq(c, &cur) {
        2
    } else if chars_eq(c, &parent) {
        3
    } else {
        4
    }
}

fn comp_less_exec(a: &[char], b: &[char]) -> (r: bool)
    ensures
        r == comp_less(a@, b@),
{
    let ra = comp_rank_exec(a);
    let rb = comp_rank_exec(b);
    if ra != rb {
        ra < rb
    } else {
        ra == 4 && text_less_exec(a, b)
    }
}

fn comps_less_exec(a: &Vec<Vec<char>>, b: &Vec<Vec<char>>) -> (r: bool)
    ensures
        r == comps_less(views_of(a@), views_of(b@)),
{
    let ghost va = views_of(a@);
    let ghost vb = views_of(b@);
    let mut i: usize = 0;
    assert(va.skip(0) =~= va);
    assert(vb.skip(0) =~= vb);
    while i < a.len() && i < b.len()
        invariant
            i <= a.len(),
            i <= b.len(),
            va == views_of(a@),
            vb == views_of(b@),
            comps_less(va, vb) == comps_less(va.skip(i as int), vb.skip(i as int)),
        decreases a.len() - i,
    {
        let ghost sa = va.skip(i as int);
        let ghost sb = vb.skip(i as int);
        assert(sa[0] == a@[i as int]@);
        assert(sb[0] == b@[i as int]@);
        if comp_less_exec(&a[i], &b[i]) {
            return true;
        }
        if comp_less_exec(&b[i], &a[i]) {
            return false;
        }
        assert(sa.drop_first() =~= va.skip(i + 1));
        assert(sb.drop_first() =~= vb.skip(i + 1));
        i = i + 1;
    }
    assert(va.skip(i as int).len() == a.len() - i);
    assert(vb.skip(i as int).len() == b.len() - i);
    i == a.len() && i < b.len()
}

/// Whether `a` comes before `b` in path order.
pub fn path_less_exec(a: &str, b: &str) -> (r: bool)
    ensures
        r == path_less(a@, b@),
{
    let ca = components_exec(&to_chars(a));
    let cb = components_exec(&to_chars(b));
    comps_less_exec(&ca, &cb)
}

/// No two entries of `s` are equal as paths unless they are the same entry.
pub open spec fn distinct_as_paths(s: Seq<Seq<char>>) -> bool {
    forall|i: int, j: int| 0 <= i < s.len() && 0 <= j < s.len() && i != j ==> !same_path(#[trigger] s[i], #[trigger] s[j])
}

/// Sorting is determined by the paths alone: two sorted lists of the same
/// paths (as many times each), none equal to another as paths, are the same
/// list, whatever order the paths came in.
pub proof fn law_sorted_paths_unique(a: Seq<Seq<char>>, b: Seq<Seq<char>>)
    requires
        sorted_paths(a),
        sorted_paths(b),
        a.to_multiset() == b.to_multiset(),
        distinct_as_paths(a),
    ensures
        a == b,
    decreases a.len(),
{
    vstd::seq_lib::to_multiset_len(a);
    vstd::seq_lib::to_multiset_len(b);
    if a.len() == 0 {
        assert(a =~= b);
    } else {
        vstd::seq_lib::to_multiset_contains(a, b[0]);
        vstd::seq_lib::to_multiset_contains(b, b[0]);
        vstd::seq_lib::to_multiset_contains(b, a[0]);
        vstd::seq_lib::to_multiset_contains(a, a[0]);
        assert(b.contains(b[0]));
        assert(a.contains(a[0]));
        let i = choose|i: int| 0 <= i < a.len() && a[i] == b[0];
        let j = choose|j: int| 0 <= j < b.len() && b[j] == a[0];
        if i != 0 {
            assert(!path_less(a[i], a[0]));
        }
        if j != 0 {
            assert(!path_less(b[j], b[0]));
        }
        lemma_path_irrefl(a[0]);
        lemma_path_total(a[0], b[0]);
        if a[0] != b[0] {
            assert(i != 0);
            assert(same_path(a[0], a[i]));
            assert(false);
        }
        let a1 = a.drop_first();
        let b1 = b.drop_first();
        vstd::seq_lib::to_multiset_remove(a, 0);
        vstd::seq_lib::to_multiset_remove(b, 0);
        assert(a.remove(0) =~= a1);
        assert(b.remove(0) =~= b1);
        assert forall|x: int, y: int| 0 <= x < y < a1.len() implies !path_less(#[trigger] a1[y], #[trigger] a1[x]) by {
            assert(a1[x] == a[x + 1] && a1[y] == a[y + 1]);
        }
        assert forall|x: int, y: int| 0 <= x < y < b1.len() implies !path_less(#[trigger] b1[y], #[trigger] b1[x]) by {
            assert(b1[x] == b[x + 1] && b1[y] == b[y + 1]);
        }
        assert forall|x: int, y: int| 0 <= x < a1.len() && 0 <= y < a1.len() && x != y implies !same_path(#[trigger] a1[x], #[trigger] a1[y]) by {
            assert(a1[x] == a[x + 1] && a1[y] == a[y + 1]);
        }
        law_sorted_paths_unique(a1, b1);
        assert(a =~= b) by {
            assert forall|x: int| 0 <= x < a.len() implies a[x] == b[x] by {
                if x > 0 {
                    assert(a[x] == a1[x - 1] && b[x] == b1[x - 1]);
                }
            }
        }
    }
}

// ---------------------------------------------------------------------------
// Sorting
// ---------------------------------------------------------------------------

/// Inserting `x` at `p`, after every path that does not come after it and
/// before the first one that does, keeps a sequence sorted, and every path
/// after `x` comes strictly after it.
proof fn lemma_insert_sorted(s: Seq<Seq<char>>, x: Seq<char>, p: int)
    requires
        sorted_paths(s),
        0 <= p <= s.len(),
        forall|q: int| 0 <= q < p ==> !path_less(x, #[trigger] s[q]),
        p < s.len() ==> path_less(x, s[p]),
    ensures
        sorted_paths(s.insert(p, x)),
        forall|j: int| p < j < s.len() + 1 ==> path_less(x, #[trigger] s.insert(p, x)[j]),
{
    let t = s.insert(p, x);
    assert forall|j: int| p < j < s.len() + 1 implies path_less(x, #[trigger] t[j]) by {
        assert(t[j] == s[j - 1]);
        lemma_path_total(s[j - 1], s[p]);
        if j - 1 == p {
        } else if path_less(s[j - 1], s[p]) {
            assert(!path_less(s[j - 1], s[p]));
        } else if same_path(s[j - 1], s[p]) {
            lemma_path_same(s[j - 1], s[p], x);
        } else {
            lemma_path_trans(x, s[p], s[j - 1]);
        }
    }
    assert forall|i: int, j: int| 0 <= i < j < t.len() implies !path_less(#[trigger] t[j], #[trigger] t[i]) by {
        if i == p {
            assert(path_less(x, t[j]));
            if path_less(t[j], x) {
                lemma_path_trans(x, t[j], x);
                lemma_path_irrefl(x);
            }
        } else if j == p {
            assert(t[i] == s[i]);
        } else {
            let i0 = if i < p { i } else { i - 1 };
            let j0 = if j < p { j } else { j - 1 };
            assert(t[i] == s[i0]);
            assert(t[j] == s[j0]);
        }
    }
}

/// Paths sorted in path order, paths equal as paths kept in the order they
/// come in (for a list without repeats); the same paths as `files`, as
/// many times each.
pub fn sort_paths(files: &Vec<String>) -> (r: Vec<String>)
    ensures
        strs_view(r@).to_multiset() == strs_view(files@).to_multiset(),
        sorted_paths(strs_view(r@)),
        strs_view(files@).no_duplicates() ==> keeps_order_of_equals(strs_view(r@), strs_view(files@)),
{
    let ghost u = strs_view(files@);
    let mut out: Vec<String> = Vec::new();
    let mut k: usize = 0;
    assert(u.take(0) =~= Seq::<Seq<char>>::empty());
    assert(strs_view(out@) =~= Seq::<Seq<char>>::empty());
    while k < files.len()
        invariant
            k <= files.len(),
            u == strs_view(files@),
            strs_view(out@).to_multiset() == u.take(k as int).to_multiset(),
            sorted_paths(strs_view(out@)),
            u.no_duplicates() ==> keeps_order_of_equals(strs_view(out@), u),
        decreases files.len() - k,
    {
        let ghost s = strs_view(out@);
        let x = &files[k];
        assert(u[k as int] == x@);
        let mut p: usize = 0;
        while p < out.len() && !path_less_exec(x.as_str(), out[p].as_str())
            invariant
                p <= out.len(),
                s == strs_view(out@),
                forall|q: int| 0 <= q < p ==> !path_less(x@, #[trigger] s[q]),
            decreases out.len() - p,
        {
            p = p + 1;
        }
        proof {
            if p < out.len() {
                assert(s[p as int] == out@[p as int]@);
            }
            lemma_insert_sorted(s, x@, p as int);
        }
        let c = x.clone();
        out.insert(p, c);
        let ghost t = strs_view(out@);
        assert(t =~= s.insert(p as int, x@));
        assert(u.take(k + 1) =~= u.take(k as int).push(x@));
        proof {
            vstd::seq_lib::to_multiset_insert(s, p as int, x@);
            vstd::seq_lib::to_multiset_build(u.take(k as int), x@);
        }
        proof {
            if u.no_duplicates() {
                assert forall|i: int, j: int, a: int, b: int|
                    #![trigger t[i], t[j], u[a], u[b]]
                    0 <= i < j < t.len() && 0 <= a < u.len() && 0 <= b < u.len() && u[a] == t[i] && u[b] == t[j] && same_path(t[i], t[j])
                    implies a < b by {
                    if i == p {
                        assert(path_less(x@, t[j]));
                        lemma_path_same(t[i], t[j], t[j]);
                        lemma_path_irrefl(t[j]);
                    } else if j == p {
                        assert(t[i] == s[i]);
                        assert(u[b] == u[k as int]);
                        assert(b == k);
                        assert(s.contains(s[i]));
                        vstd::seq_lib::to_multiset_contains(s, s[i]);
                        vstd::seq_lib::to_multiset_contains(u.take(k as int), s[i]);
                        assert(u.take(k as int).contains(s[i]));
                        let a0 = choose|a0: int| 0 <= a0 < u.take(k as int).len() && u.take(k as int)[a0] == s[i];
                        assert(u[a0] == u[a]);
                    } else {
                        let i0 = if i < p { i } else { i - 1 };
                        let j0 = if j < p { j } else { j - 1 };
                        assert(t[i] == s[i0]);
                        assert(t[j] == s[j0]);
                        assert(u[a] == s[i0] && u[b] == s[j0]);
                    }
                }
            }
        }
        k = k + 1;
    }
    assert(u.take(files.len() as int) =~= u);
    out
}

} // verus!
