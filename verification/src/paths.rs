//! Unix path algebra over UTF-8 text: components, prefix tests, joining and
//! file-name parts, following the documented behaviour of `std::path`.

use vstd::prelude::*;
use crate::text::{joined, push_chars, slice_chars, views_of, join_chars};

verus! {

// ---------------------------------------------------------------------------
// Specifications
// ---------------------------------------------------------------------------

/// A segment between separators that names something (not empty, not ".").
pub open spec fn kept(seg: Seq<char>) -> Seq<Seq<char>> {
    if seg.len() == 0 || seg == seq!['.'] {
        seq![]
    } else {
        seq![seg]
    }
}

/// The segments of `p` from position `i` on, where `cur` is the part of the
/// current segment read so far.
pub open spec fn segments_from(p: Seq<char>, i: int, cur: Seq<char>) -> Seq<Seq<char>>
    decreases p.len() - i,
{
    if i >= p.len() {
        kept(cur)
    } else if p[i] == '/' {
        kept(cur) + segments_from(p, i + 1, seq![])
    } else {
        segments_from(p, i + 1, cur.push(p[i]))
    }
}

/// The normal components of `p`: the pieces between `'/'` separators, without
/// empty pieces and `"."` pieces.
pub open spec fn normal_parts(p: Seq<char>) -> Seq<Seq<char>> {
    segments_from(p, 0, seq![])
}

/// The root marker.
pub open spec fn root_marker() -> Seq<char> {
    seq!['/']
}

/// The current-directory marker.
pub open spec fn cur_marker() -> Seq<char> {
    seq!['.']
}

/// The leading component: the root of an absolute path, or the `"."` that a
/// relative path begins with.
pub open spec fn leading(p: Seq<char>) -> Seq<Seq<char>> {
    if p.len() > 0 && p[0] == '/' {
        seq![root_marker()]
    } else if p.len() > 0 && p[0] == '.' && (p.len() == 1 || p[1] == '/') {
        seq![cur_marker()]
    } else {
        seq![]
    }
}

/// `Path::components`, each component as its text (`"/"` for the root).
pub open spec fn components(p: Seq<char>) -> Seq<Seq<char>> {
    leading(p) + normal_parts(p)
}

/// `Path::starts_with`: the components of `base` are a prefix of those of `p`.
pub open spec fn path_has_prefix(p: Seq<char>, base: Seq<char>) -> bool {
    let c = components(p);
    let b = components(base);
    b.len() <= c.len() && c.take(b.len() as int) == b
}

/// Path equality (`Path == Path` compares components).
pub open spec fn same_path(a: Seq<char>, b: Seq<char>) -> bool {
    components(a) == components(b)
}

/// The text of a component sequence.
pub open spec fn render(c: Seq<Seq<char>>) -> Seq<char> {
    if c.len() > 0 && c[0] == root_marker() {
        root_marker() + joined(c.drop_first(), root_marker())
    } else {
        joined(c, root_marker())
    }
}

/// `Path::strip_prefix`: the remaining components, where `base` is a prefix.
pub open spec fn stripped(p: Seq<char>, base: Seq<char>) -> Option<Seq<char>> {
    if path_has_prefix(p, base) {
        Some(render(components(p).skip(components(base).len() as int)))
    } else {
        None
    }
}

/// `PathBuf::push`/`Path::join` on Unix: an absolute `rel` replaces `base`;
/// otherwise a separator is inserted unless `base` is empty or ends with one.
pub open spec fn joined_path(base: Seq<char>, rel: Seq<char>) -> Seq<char> {
    if rel.len() > 0 && rel[0] == '/' {
        rel
    } else if base.len() == 0 || base.last() == '/' {
        base + rel
    } else {
        base + seq!['/'] + rel
    }
}

/// A component that is a name (not the root, `"."` or `".."`).
pub open spec fn is_name(c: Seq<char>) -> bool {
    c != root_marker() && c != cur_marker() && c != seq!['.', '.']
}

/// `Path::file_name`.
pub open spec fn file_name(p: Seq<char>) -> Option<Seq<char>> {
    let c = components(p);
    if c.len() > 0 && is_name(c.last()) {
        Some(c.last())
    } else {
        None
    }
}

/// The position of the last `'.'` in `s`, or -1.
pub open spec fn last_dot(s: Seq<char>) -> int
    decreases s.len(),
{
    if s.len() == 0 {
        -1
    } else if s.last() == '.' {
        s.len() - 1
    } else {
        last_dot(s.drop_last())
    }
}

/// The extension of a file name: the text after its last `'.'`, where that
/// dot is not the first character.
pub open spec fn name_extension(name: Seq<char>) -> Option<Seq<char>> {
    let d = last_dot(name);
    if d > 0 {
        Some(name.skip(d + 1))
    } else {
        None
    }
}

/// A file name without its extension.
pub open spec fn name_stem(name: Seq<char>) -> Seq<char> {
    let d = last_dot(name);
    if d > 0 {
        name.take(d)
    } else {
        name
    }
}

/// `Path::extension`.
pub open spec fn extension_of(p: Seq<char>) -> Option<Seq<char>> {
    match file_name(p) {
        Some(n) => name_extension(n),
        None => None,
    }
}

/// `Path::extension` as text, empty where there is none.
pub open spec fn extension_text(p: Seq<char>) -> Seq<char> {
    match extension_of(p) {
        Some(e) => e,
        None => seq![],
    }
}

/// `PathBuf::set_extension`: where `p` has a file name, its extension is
/// replaced by `ext` (removed for an empty `ext`); the result is given in
/// its plain form, components separated by single `'/'`.
pub open spec fn with_extension(p: Seq<char>, ext: Seq<char>) -> Seq<char> {
    match file_name(p) {
        Some(n) => {
            let stem = name_stem(n);
            let name = if ext.len() == 0 { stem } else { stem + seq!['.'] + ext };
            render(components(p).drop_last().push(name))
        },
        None => p,
    }
}

// ---------------------------------------------------------------------------
// Executable operations
// ---------------------------------------------------------------------------

fn is_single_dot(seg: &[char]) -> (r: bool)
    ensures
        r == (seg@ == cur_marker()),
{
    if seg.len() == 1 && seg[0] == '.' {
        assert(seg@ =~= cur_marker());
        true
    } else {
        if seg.len() == 1 {
            assert(seg@[0] != cur_marker()[0]);
        }
        false
    }
}

/// `Path::components`, each component as its text.
pub fn components_exec(p: &[char]) -> (r: Vec<Vec<char>>)
    ensures
        views_of(r@) == components(p@),
{
    let mut out: Vec<Vec<char>> = Vec::new();
    if p.len() > 0 && p[0] == '/' {
        let mut m: Vec<char> = Vec::new();
        m.push('/');
        assert(m@ =~= root_marker());
        out.push(m);
    } else if p.len() > 0 && p[0] == '.' && (p.len() == 1 || p[1] == '/') {
        let mut m: Vec<char> = Vec::new();
        m.push('.');
        assert(m@ =~= cur_marker());
        out.push(m);
    }
    assert(views_of(out@) =~= leading(p@));
    let ghost lead = views_of(out@);
    let mut cur: Vec<char> = Vec::new();
    let mut i: usize = 0;
    while i < p.len()
        invariant
            i <= p.len(),
            views_of(out@) + segments_from(p@, i as int, cur@) == lead + normal_parts(p@),
        decreases p.len() - i,
    {
        let ghost out0 = views_of(out@);
        let ghost cur0 = cur@;
        if p[i] == '/' {
            assert(segments_from(p@, i as int, cur0) == kept(cur0) + segments_from(p@, i + 1, seq![]));
            assert(out0 + (kept(cur0) + segments_from(p@, i + 1, seq![])) == (out0 + kept(cur0)) + segments_from(p@, i + 1, seq![]));
            if cur.len() > 0 && !is_single_dot(&cur) {
                let ghost before = views_of(out@);
                out.push(cur);
                assert(views_of(out@) =~= before + kept(cur@));
            } else {
                assert(kept(cur@) =~= Seq::<Seq<char>>::empty());
                assert(views_of(out@) + kept(cur@) =~= views_of(out@));
            }
            cur = Vec::new();
            assert(cur@ == Seq::<char>::empty());
        } else {
            cur.push(p[i]);
        }
        i = i + 1;
    }
    if cur.len() > 0 && !is_single_dot(&cur) {
        let ghost before = views_of(out@);
        out.push(cur);
        assert(views_of(out@) =~= before + kept(cur@));
    } else {
        assert(kept(cur@) =~= Seq::<Seq<char>>::empty());
        assert(views_of(out@) + kept(cur@) =~= views_of(out@));
    }
    out
}


/// Pushing onto a vector pushes its view onto the views.
pub proof fn lemma_views_push(v: Seq<Vec<char>>, x: Vec<char>)
    ensures
        views_of(v.push(x)) == views_of(v).push(x@),
{
    assert(views_of(v.push(x)) =~= views_of(v).push(x@));
}

/// Whether two character vectors are equal.
pub fn chars_eq(a: &[char], b: &[char]) -> (r: bool)
    ensures
        r == (a@ == b@),
{
    if a.len() != b.len() {
        return false;
    }
    let mut i: usize = 0;
    while i < a.len()
        invariant
            a.len() == b.len(),
            i <= a.len(),
            forall|j: int| 0 <= j < i ==> a@[j] == b@[j],
        decreases a.len() - i,
    {
        if a[i] != b[i] {
            return false;
        }
        i = i + 1;
    }
    assert(a@ =~= b@);
    true
}

/// Whether the first `n` components of `a` and `b` agree.
fn prefix_agrees(a: &Vec<Vec<char>>, b: &Vec<Vec<char>>, n: usize) -> (r: bool)
    requires
        n <= a.len(),
        n <= b.len(),
    ensures
        r == (views_of(a@).take(n as int) == views_of(b@).take(n as int)),
{
    let mut i: usize = 0;
    while i < n
        invariant
            n <= a.len(),
            n <= b.len(),
            i <= n,
            forall|j: int| 0 <= j < i ==> a@[j]@ == b@[j]@,
        decreases n - i,
    {
        if !chars_eq(&a[i], &b[i]) {
            assert(views_of(a@).take(n as int)[i as int] != views_of(b@).take(n as int)[i as int]);
            return false;
        }
        i = i + 1;
    }
    assert(views_of(a@).take(n as int) =~= views_of(b@).take(n as int));
    true
}

/// `Path::starts_with`.
pub fn path_has_prefix_exec(p: &[char], base: &[char]) -> (r: bool)
    ensures
        r == path_has_prefix(p@, base@),
{
    let c = components_exec(p);
    let b = components_exec(base);
    if b.len() > c.len() {
        return false;
    }
    let r = prefix_agrees(&c, &b, b.len());
    assert(views_of(b@).take(b.len() as int) == views_of(b@));
    r
}

/// Path equality.
pub fn same_path_exec(a: &[char], b: &[char]) -> (r: bool)
    ensures
        r == same_path(a@, b@),
{
    let ca = components_exec(a);
    let cb = components_exec(b);
    if ca.len() != cb.len() {
        return false;
    }
    let r = prefix_agrees(&ca, &cb, ca.len());
    assert(views_of(ca@).take(ca.len() as int) == views_of(ca@));
    assert(views_of(cb@).take(cb.len() as int) == views_of(cb@));
    r
}

/// The text of a component sequence.
pub fn render_exec(c: &Vec<Vec<char>>) -> (r: Vec<char>)
    ensures
        r@ == render(views_of(c@)),
{
    let mut sep: Vec<char> = Vec::new();
    sep.push('/');
    assert(sep@ =~= root_marker());
    if c.len() > 0 && chars_eq(&c[0], &sep) {
        let mut rest: Vec<Vec<char>> = Vec::new();
        let mut i: usize = 1;
        while i < c.len()
            invariant
                1 <= i <= c.len(),
                views_of(rest@) == views_of(c@).subrange(1, i as int),
            decreases c.len() - i,
        {
            let piece = slice_chars(&c[i], 0, c[i].len());
            assert(piece@ =~= c@[i as int]@);
            proof { lemma_views_push(rest@, piece); }
            rest.push(piece);
            i = i + 1;
            assert(views_of(rest@) =~= views_of(c@).subrange(1, i as int));
        }
        assert(views_of(c@).drop_first() =~= views_of(c@).subrange(1, c.len() as int));
        let tail = join_chars(&rest, &sep);
        let mut out = sep.clone();
        push_chars(&mut out, &tail);
        out
    } else {
        join_chars(c, &sep)
    }
}

/// `Path::strip_prefix`, with the remainder in plain form.
pub fn strip_prefix_exec(p: &[char], base: &[char]) -> (r: Option<Vec<char>>)
    ensures
        match r {
            Some(s) => stripped(p@, base@) == Some(s@),
            None => stripped(p@, base@).is_none(),
        },
{
    let c = components_exec(p);
    let b = components_exec(base);
    if b.len() > c.len() {
        return None;
    }
    assert(views_of(b@).take(b.len() as int) == views_of(b@));
    if !prefix_agrees(&c, &b, b.len()) {
        return None;
    }
    let mut rest: Vec<Vec<char>> = Vec::new();
    let mut i: usize = b.len();
    while i < c.len()
        invariant
            b.len() <= i <= c.len(),
            views_of(rest@) == views_of(c@).subrange(b.len() as int, i as int),
        decreases c.len() - i,
    {
        let piece = slice_chars(&c[i], 0, c[i].len());
        assert(piece@ =~= c@[i as int]@);
        proof { lemma_views_push(rest@, piece); }
        rest.push(piece);
        i = i + 1;
        assert(views_of(rest@) =~= views_of(c@).subrange(b.len() as int, i as int));
    }
    assert(views_of(c@).skip(b.len() as int) =~= views_of(c@).subrange(b.len() as int, c.len() as int));
    Some(render_exec(&rest))
}

/// `Path::join`.
pub fn join_path_exec(base: &[char], rel: &[char]) -> (r: Vec<char>)
    ensures
        r@ == joined_path(base@, rel@),
{
    if rel.len() > 0 && rel[0] == '/' {
        slice_chars(rel, 0, rel.len())
    } else {
        let mut out = slice_chars(base, 0, base.len());
        if base.len() > 0 && base[base.len() - 1] != '/' {
            out.push('/');
        }
        push_chars(&mut out, rel);
        out
    }
}

/// `Path::file_name`.
pub fn file_name_exec(p: &[char]) -> (r: Option<Vec<char>>)
    ensures
        match r {
            Some(n) => file_name(p@) == Some(n@),
            None => file_name(p@).is_none(),
        },
{
    let c = components_exec(p);
    if c.len() == 0 {
        return None;
    }
    let last = &c[c.len() - 1];
    assert(last@ == components(p@).last());
    let is_root = last.len() == 1 && last[0] == '/';
    let is_cur = last.len() == 1 && last[0] == '.';
    let is_up = last.len() == 2 && last[0] == '.' && last[1] == '.';
    proof {
        if last@.len() == 1 {
            assert(last@ == root_marker() ==> last@[0] == '/');
            assert(last@ == cur_marker() ==> last@[0] == '.');
            if last@[0] == '/' { assert(last@ =~= root_marker()); }
            if last@[0] == '.' { assert(last@ =~= cur_marker()); }
        }
        if last@.len() == 2 && last@[0] == '.' && last@[1] == '.' {
            assert(last@ =~= seq!['.', '.']);
        }
        if last@ == seq!['.', '.'] {
            assert(last@[0] == '.' && last@[1] == '.');
        }
    }
    if is_root || is_cur || is_up {
        None
    } else {
        Some(last.clone())
    }
}

/// The position of the last `'.'` in `s`, or `s.len()` where there is none.
fn last_dot_exec(s: &[char]) -> (r: usize)
    ensures
        r <= s.len(),
        r < s.len() ==> r == last_dot(s@),
        r == s.len() ==> last_dot(s@) == -1,
{
    let mut k = s.len();
    assert(s@.take(s.len() as int) == s@);
    while k > 0 && s[k - 1] != '.'
        invariant
            k <= s.len(),
            last_dot(s@.take(k as int)) == last_dot(s@),
        decreases k,
    {
        assert(s@.take(k as int).drop_last() == s@.take(k - 1));
        k = k - 1;
    }
    if k == 0 {
        s.len()
    } else {
        assert(s@.take(k as int).last() == '.');
        k - 1
    }
}

/// Splits a file name into stem and extension.
fn split_name(name: &[char]) -> (r: (Vec<char>, Option<Vec<char>>))
    ensures
        r.0@ == name_stem(name@),
        match r.1 {
            Some(e) => name_extension(name@) == Some(e@),
            None => name_extension(name@).is_none(),
        },
{
    let d = last_dot_exec(name);
    if d < name.len() && d > 0 {
        let stem = slice_chars(name, 0, d);
        let ext = slice_chars(name, d + 1, name.len());
        assert(stem@ == name@.take(d as int));
        assert(ext@ == name@.skip(d + 1));
        assert(last_dot(name@) == d);
        assert(name_stem(name@) == stem@);
        assert(name_extension(name@) == Some(ext@));
        (stem, Some(ext))
    } else {
        let all = slice_chars(name, 0, name.len());
        assert(all@ =~= name@);
        assert(last_dot(name@) <= 0);
        (all, None)
    }
}

/// `Path::extension`.
pub fn extension_exec(p: &[char]) -> (r: Option<Vec<char>>)
    ensures
        match r {
            Some(e) => extension_of(p@) == Some(e@),
            None => extension_of(p@).is_none(),
        },
{
    match file_name_exec(p) {
        Some(n) => split_name(&n).1,
        None => None,
    }
}

/// `Path::extension` as text, empty where there is none.
pub fn extension_text_exec(p: &[char]) -> (r: Vec<char>)
    ensures
        r@ == extension_text(p@),
{
    match extension_exec(p) {
        Some(e) => e,
        None => Vec::new(),
    }
}

/// `PathBuf::set_extension`, with the result in plain form.
pub fn with_extension_exec(p: &[char], ext: &[char]) -> (r: Vec<char>)
    ensures
        r@ == with_extension(p@, ext@),
{
    match file_name_exec(p) {
        Some(n) => {
            let (stem, _) = split_name(&n);
            let mut name = stem;
            if ext.len() > 0 {
                name.push('.');
                push_chars(&mut name, ext);
                assert(name@ =~= stem@ + seq!['.'] + ext@);
            }
            let mut c = components_exec(p);
            let ghost cv = views_of(c@);
            assert(cv == components(p@));
            assert(n@ == cv.last());
            let _ = c.pop();
            c.push(name);
            assert(views_of(c@) =~= cv.drop_last().push(name@));
            let r = render_exec(&c);
            assert(with_extension(p@, ext@) == render(cv.drop_last().push(name@)));
            r
        },
        None => {
            let r = slice_chars(p, 0, p.len());
            assert(r@ =~= p@);
            r
        },
    }
}

/// `Path::parent`: the path without its last component; `None` for the
/// root and for a path without components.
pub open spec fn parent_of(p: Seq<char>) -> Option<Seq<char>> {
    let c = components(p);
    if c.len() > 0 && c.last() != root_marker() {
        Some(render(c.drop_last()))
    } else {
        None
    }
}

/// `Path::parent`, with the result in plain form.
pub fn parent_exec(p: &[char]) -> (r: Option<Vec<char>>)
    ensures
        match r {
            Some(q) => parent_of(p@) == Some(q@),
            None => parent_of(p@).is_none(),
        },
{
    let mut c = components_exec(p);
    if c.len() == 0 {
        return None;
    }
    let mut sep: Vec<char> = Vec::new();
    sep.push('/');
    assert(sep@ =~= root_marker());
    if chars_eq(&c[c.len() - 1], &sep) {
        return None;
    }
    let ghost cv = views_of(c@);
    let _ = c.pop();
    assert(views_of(c@) =~= cv.drop_last());
    Some(render_exec(&c))
}

} // verus!
