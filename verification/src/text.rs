//! Character-level text utilities with exact specifications.
//!
//! Strings are specified through their views (`Seq<char>`); the operations
//! here follow the documented behaviour of the corresponding `str` methods.

use vstd::prelude::*;

verus! {

// ---------------------------------------------------------------------------
// Specifications
// ---------------------------------------------------------------------------

/// `pat` occurs in `s` at position `i`.
pub open spec fn occurs_at(s: Seq<char>, pat: Seq<char>, i: int) -> bool {
    0 <= i && i + pat.len() <= s.len() && s.subrange(i, i + pat.len()) == pat
}

/// `s` begins with `p`.
pub open spec fn has_prefix(s: Seq<char>, p: Seq<char>) -> bool {
    occurs_at(s, p, 0)
}

/// `s` ends with `p`.
pub open spec fn has_suffix(s: Seq<char>, p: Seq<char>) -> bool {
    occurs_at(s, p, s.len() - p.len())
}

/// `pat` occurs somewhere in `s`.
pub open spec fn contains(s: Seq<char>, pat: Seq<char>) -> bool {
    exists|i: int| occurs_at(s, pat, i)
}

/// `str::replace`: every non-overlapping occurrence of `pat`, scanned from the
/// left, is replaced by `rep`; an empty `pat` matches before every character
/// and at the end.
pub open spec fn replaced(s: Seq<char>, pat: Seq<char>, rep: Seq<char>) -> Seq<char>
    decreases s.len(),
{
    if pat.len() == 0 {
        if s.len() == 0 {
            rep
        } else {
            rep + seq![s[0]] + replaced(s.drop_first(), pat, rep)
        }
    } else if s.len() < pat.len() {
        s
    } else if s.take(pat.len() as int) == pat {
        rep + replaced(s.skip(pat.len() as int), pat, rep)
    } else {
        seq![s[0]] + replaced(s.drop_first(), pat, rep)
    }
}

/// The last piece of `str::split(pat)`: the text after the last of the
/// non-overlapping occurrences of `pat` scanned from the left, or all of `s`
/// where `pat` does not occur.
pub open spec fn last_piece(s: Seq<char>, pat: Seq<char>) -> Seq<char>
    decreases s.len(),
{
    if pat.len() == 0 {
        seq![]
    } else if !contains(s, pat) {
        s
    } else if has_prefix(s, pat) {
        last_piece(s.skip(pat.len() as int), pat)
    } else if s.len() == 0 {
        s
    } else {
        last_piece(s.drop_first(), pat)
    }
}

/// The position of the first `c` in `s`, or `s.len()` where there is none.
pub open spec fn first_index_of(s: Seq<char>, c: char) -> int
    decreases s.len(),
{
    if s.len() == 0 {
        0
    } else if s[0] == c {
        0
    } else {
        1 + first_index_of(s.drop_first(), c)
    }
}

/// A line without its `'\r'` terminator, where it has one.
pub open spec fn without_cr(line: Seq<char>) -> Seq<char> {
    if line.len() > 0 && line.last() == '\r' {
        line.drop_last()
    } else {
        line
    }
}

/// `str::lines`: pieces separated by `'\n'` (a `'\r'` right before a `'\n'`
/// belongs to the line ending); a final line ending adds no empty line.
pub open spec fn lines_of(s: Seq<char>) -> Seq<Seq<char>>
    decreases s.len(),
{
    if s.len() == 0 {
        seq![]
    } else {
        let k = first_index_of(s, '\n');
        proof {
            lemma_first_index_of(s, '\n');
        }
        if k >= s.len() {
            seq![s]
        } else {
            seq![without_cr(s.take(k))] + lines_of(s.skip(k + 1))
        }
    }
}

/// `char::is_whitespace`: the characters with the Unicode `White_Space` property.
pub open spec fn is_white(c: char) -> bool {
    ||| '\u{9}' <= c <= '\u{d}'
    ||| c == ' '
    ||| c == '\u{85}'
    ||| c == '\u{a0}'
    ||| c == '\u{1680}'
    ||| '\u{2000}' <= c <= '\u{200a}'
    ||| c == '\u{2028}'
    ||| c == '\u{2029}'
    ||| c == '\u{202f}'
    ||| c == '\u{205f}'
    ||| c == '\u{3000}'
}

/// `s` without its leading whitespace.
pub open spec fn trimmed_start(s: Seq<char>) -> Seq<char>
    decreases s.len(),
{
    if s.len() > 0 && is_white(s[0]) {
        trimmed_start(s.drop_first())
    } else {
        s
    }
}

/// `s` without its trailing whitespace.
pub open spec fn trimmed_end(s: Seq<char>) -> Seq<char>
    decreases s.len(),
{
    if s.len() > 0 && is_white(s.last()) {
        trimmed_end(s.drop_last())
    } else {
        s
    }
}

/// `str::trim`.
pub open spec fn trimmed(s: Seq<char>) -> Seq<char> {
    trimmed_end(trimmed_start(s))
}

/// `s` without any trailing `c`.
pub open spec fn trimmed_end_char(s: Seq<char>, c: char) -> Seq<char>
    decreases s.len(),
{
    if s.len() > 0 && s.last() == c {
        trimmed_end_char(s.drop_last(), c)
    } else {
        s
    }
}

/// `s` without any leading `c`.
pub open spec fn trimmed_start_char(s: Seq<char>, c: char) -> Seq<char>
    decreases s.len(),
{
    if s.len() > 0 && s[0] == c {
        trimmed_start_char(s.drop_first(), c)
    } else {
        s
    }
}

/// `str::trim_matches(c)` for a single character.
pub open spec fn trimmed_char(s: Seq<char>, c: char) -> Seq<char> {
    trimmed_end_char(trimmed_start_char(s, c), c)
}

/// The pieces of `parts` with `sep` between consecutive ones (`[T]::join`).
pub open spec fn joined(parts: Seq<Seq<char>>, sep: Seq<char>) -> Seq<char>
    decreases parts.len(),
{
    if parts.len() == 0 {
        seq![]
    } else if parts.len() == 1 {
        parts[0]
    } else {
        joined(parts.drop_last(), sep) + sep + parts.last()
    }
}

/// ASCII lower case of one character.
pub open spec fn ascii_lower(c: char) -> char {
    if 'A' <= c <= 'Z' {
        ((c as u32) + 32) as char
    } else {
        c
    }
}

/// `str::eq_ignore_ascii_case`.
pub open spec fn eq_ascii_nocase(a: Seq<char>, b: Seq<char>) -> bool {
    a.len() == b.len() && forall|i: int| 0 <= i < a.len() ==> ascii_lower(#[trigger] a[i]) == ascii_lower(b[i])
}

/// A decimal digit.
pub open spec fn is_digit(c: char) -> bool {
    '0' <= c <= '9'
}

/// The value of a string of decimal digits.
pub open spec fn digits_value(s: Seq<char>) -> nat
    decreases s.len(),
{
    if s.len() == 0 {
        0
    } else {
        digits_value(s.drop_last()) * 10 + ((s.last() as u32) - ('0' as u32)) as nat
    }
}

/// The digits that `u32::from_str` reads: all of `s` after an optional `'+'`.
pub open spec fn number_digits(s: Seq<char>) -> Seq<char> {
    if s.len() > 0 && s[0] == '+' {
        s.drop_first()
    } else {
        s
    }
}

/// `u32::from_str`: an optional `'+'`, then one or more decimal digits whose
/// value fits in a `u32`.
pub open spec fn parsed_u32(s: Seq<char>) -> Option<u32> {
    let d = number_digits(s);
    if d.len() > 0 && all_digits(d) && digits_value(d) <= u32::MAX {
        Some(digits_value(d) as u32)
    } else {
        None
    }
}

/// Every character of `d` is a decimal digit.
pub open spec fn all_digits(d: Seq<char>) -> bool {
    forall|i: int| 0 <= i < d.len() ==> is_digit(#[trigger] d[i])
}

/// The decimal text of `n` (as `format!("{}", n)` writes it).
pub open spec fn decimal(n: nat) -> Seq<char>
    decreases n,
{
    if n < 10 {
        seq![digit_char(n)]
    } else {
        decimal(n / 10) + seq![digit_char(n % 10)]
    }
}

/// The digit character for `d < 10`.
pub open spec fn digit_char(d: nat) -> char {
    (('0' as u32) + d) as char
}

// ---------------------------------------------------------------------------
// Lemmas
// ---------------------------------------------------------------------------

proof fn lemma_replaced_step(t: Seq<char>, pat: Seq<char>, rep: Seq<char>)
    requires
        pat.len() > 0,
        t.len() > 0,
        !occurs_at(t, pat, 0),
    ensures
        replaced(t, pat, rep) == seq![t[0]] + replaced(t.drop_first(), pat, rep),
{
    if t.len() < pat.len() {
        assert(t.drop_first().len() < pat.len());
        assert(replaced(t.drop_first(), pat, rep) == t.drop_first());
        assert(t == seq![t[0]] + t.drop_first());
    } else {
        assert(t.take(pat.len() as int) == t.subrange(0, pat.len() as int));
    }
}

/// Where `pat` does not occur before `j` and occurs at `j`, the last piece is
/// that of the text after that occurrence.
proof fn lemma_last_piece_skip(t: Seq<char>, pat: Seq<char>, j: int)
    requires
        pat.len() > 0,
        occurs_at(t, pat, j),
        forall|k: int| 0 <= k < j ==> !occurs_at(t, pat, k),
    ensures
        last_piece(t, pat) == last_piece(t.skip(j + pat.len()), pat),
    decreases j,
{
    assert(contains(t, pat));
    if j == 0 {
    } else {
        assert(!has_prefix(t, pat));
        let u = t.drop_first();
        assert(occurs_at(u, pat, j - 1)) by {
            assert(u.subrange(j - 1, j - 1 + pat.len()) == t.subrange(j, j + pat.len()));
        }
        assert forall|k: int| 0 <= k < j - 1 implies !occurs_at(u, pat, k) by {
            if occurs_at(u, pat, k) {
                assert(t.subrange(k + 1, k + 1 + pat.len()) == u.subrange(k, k + pat.len()));
                assert(occurs_at(t, pat, k + 1));
            }
        }
        lemma_last_piece_skip(u, pat, j - 1);
        assert(u.skip(j - 1 + pat.len()) == t.skip(j + pat.len()));
    }
}

proof fn lemma_last_piece_none(t: Seq<char>, pat: Seq<char>)
    requires
        pat.len() > 0,
        forall|k: int| 0 <= k ==> !occurs_at(t, pat, k),
    ensures
        last_piece(t, pat) == t,
{
    assert(!contains(t, pat));
}

pub proof fn lemma_first_index_of(s: Seq<char>, c: char)
    ensures
        0 <= first_index_of(s, c) <= s.len(),
        forall|i: int| 0 <= i < first_index_of(s, c) ==> s[i] != c,
        first_index_of(s, c) < s.len() ==> s[first_index_of(s, c)] == c,
    decreases s.len(),
{
    if s.len() > 0 && s[0] != c {
        lemma_first_index_of(s.drop_first(), c);
        assert forall|i: int| 0 <= i < first_index_of(s, c) implies s[i] != c by {
            if i > 0 {
                assert(s[i] == s.drop_first()[i - 1]);
            }
        }
    }
}

proof fn lemma_first_index_unique(s: Seq<char>, c: char, k: int)
    requires
        0 <= k <= s.len(),
        forall|i: int| 0 <= i < k ==> s[i] != c,
        k < s.len() ==> s[k] == c,
    ensures
        first_index_of(s, c) == k,
    decreases s.len(),
{
    if s.len() > 0 && s[0] != c {
        assert forall|i: int| 0 <= i < k - 1 implies s.drop_first()[i] != c by {
            assert(s.drop_first()[i] == s[i + 1]);
        }
        lemma_first_index_unique(s.drop_first(), c, k - 1);
    }
}

proof fn lemma_trimmed_start_white(s: Seq<char>)
    ensures
        trimmed_start(s).len() == 0 <==> (forall|i: int| 0 <= i < s.len() ==> is_white(#[trigger] s[i])),
    decreases s.len(),
{
    if s.len() > 0 && is_white(s[0]) {
        lemma_trimmed_start_white(s.drop_first());
        if trimmed_start(s).len() == 0 {
            assert forall|i: int| 0 <= i < s.len() implies is_white(#[trigger] s[i]) by {
                if i > 0 {
                    assert(s[i] == s.drop_first()[i - 1]);
                }
            }
        } else {
            let i = choose|i: int| 0 <= i < s.drop_first().len() && !is_white(#[trigger] s.drop_first()[i]);
            assert(s[i + 1] == s.drop_first()[i]);
        }
    }
}

/// The text is whitespace only exactly when trimming leaves nothing.
pub proof fn lemma_trim_empty_iff_white(s: Seq<char>)
    ensures
        trimmed(s).len() == 0 <==> (forall|i: int| 0 <= i < s.len() ==> is_white(#[trigger] s[i])),
{
    lemma_trimmed_start_white(s);
    lemma_trimmed_start_head(s);
    lemma_trimmed_end_keeps_nonwhite(trimmed_start(s));
}

proof fn lemma_trimmed_start_head(s: Seq<char>)
    ensures
        trimmed_start(s).len() > 0 ==> !is_white(trimmed_start(s)[0]),
    decreases s.len(),
{
    if s.len() > 0 && is_white(s[0]) {
        lemma_trimmed_start_head(s.drop_first());
    }
}

proof fn lemma_trimmed_end_keeps_nonwhite(s: Seq<char>)
    ensures
        trimmed_end(s).len() == 0 <==> (forall|i: int| 0 <= i < s.len() ==> is_white(#[trigger] s[i])),
    decreases s.len(),
{
    if s.len() > 0 && is_white(s.last()) {
        lemma_trimmed_end_keeps_nonwhite(s.drop_last());
        if trimmed_end(s).len() == 0 {
            assert forall|i: int| 0 <= i < s.len() implies is_white(#[trigger] s[i]) by {
                if i < s.len() - 1 {
                    assert(s[i] == s.drop_last()[i]);
                }
            }
        } else {
            let i = choose|i: int| 0 <= i < s.drop_last().len() && !is_white(#[trigger] s.drop_last()[i]);
            assert(s[i] == s.drop_last()[i]);
        }
    } else if s.len() > 0 {
        assert(!is_white(s[s.len() - 1]));
    }
}

// ---------------------------------------------------------------------------
// Conversions
// ---------------------------------------------------------------------------

/// The characters of `s`, in order.
pub fn to_chars(s: &str) -> (r: Vec<char>)
    ensures
        r@ == s@,
{
    let mut r: Vec<char> = Vec::new();
    for c in it: s.chars()
        invariant
            r@ == it.seq().take(it.index()),
    {
        r.push(c);
    }
    r
}

/// Collects characters into a `String` (std's `FromIterator<char>` for
/// `String`, which appends each character in order).
#[verifier::external_body]
pub(crate) fn from_chars(v: &[char]) -> (r: String)
    ensures
        r@ == v@,
{
    v.iter().collect()
}

/// Appends the characters of `s` to `out`.
pub fn push_str(out: &mut Vec<char>, s: &str)
    ensures
        final(out)@ == old(out)@ + s@,
{
    let c = to_chars(s);
    push_chars(out, &c);
}

/// Appends `s` to `out`.
pub fn push_chars(out: &mut Vec<char>, s: &[char])
    ensures
        final(out)@ == old(out)@ + s@,
{
    let ghost start = out@;
    let mut i: usize = 0;
    while i < s.len()
        invariant
            i <= s.len(),
            out@ == start + s@.take(i as int),
        decreases s.len() - i,
    {
        out.push(s[i]);
        i = i + 1;
        assert(s@.take(i as int) == s@.take((i - 1) as int).push(s@[i - 1]));
    }
    assert(s@.take(s.len() as int) == s@);
}

/// `s[from..to]` as a new vector.
pub fn slice_chars(s: &[char], from: usize, to: usize) -> (r: Vec<char>)
    requires
        from <= to <= s.len(),
    ensures
        r@ == s@.subrange(from as int, to as int),
{
    let mut r: Vec<char> = Vec::new();
    let mut i = from;
    while i < to
        invariant
            from <= i <= to <= s.len(),
            r@ == s@.subrange(from as int, i as int),
        decreases to - i,
    {
        r.push(s[i]);
        i = i + 1;
        assert(s@.subrange(from as int, i as int) == s@.subrange(from as int, (i - 1) as int).push(s@[i - 1]));
    }
    r
}

/// The decimal text of `n`.
pub fn u64_decimal(n: u64) -> (r: Vec<char>)
    ensures
        r@ == decimal(n as nat),
    decreases n,
{
    let d = (n % 10) as u32;
    let c = char_of_digit(d);
    if n < 10 {
        vec![c]
    } else {
        let mut r = u64_decimal(n / 10);
        r.push(c);
        r
    }
}

fn char_of_digit(d: u32) -> (c: char)
    requires
        d < 10,
    ensures
        c == digit_char(d as nat),
{
    if d == 0 { '0' } else if d == 1 { '1' } else if d == 2 { '2' } else if d == 3 { '3' }
    else if d == 4 { '4' } else if d == 5 { '5' } else if d == 6 { '6' } else if d == 7 { '7' }
    else if d == 8 { '8' } else { '9' }
}

// ---------------------------------------------------------------------------
// Searching
// ---------------------------------------------------------------------------

/// Whether `pat` occurs in `s` at position `i`.
pub fn occurs_at_exec(s: &[char], pat: &[char], i: usize) -> (r: bool)
    ensures
        r == occurs_at(s@, pat@, i as int),
{
    if i > s.len() || pat.len() > s.len() - i {
        return false;
    }
    let mut k: usize = 0;
    while k < pat.len()
        invariant
            i + pat.len() <= s.len(),
            k <= pat.len(),
            forall|j: int| 0 <= j < k ==> s@[i + j] == pat@[j],
        decreases pat.len() - k,
    {
        if s[i + k] != pat[k] {
            assert(s@.subrange(i as int, i + pat.len())[k as int] != pat@[k as int]);
            return false;
        }
        k = k + 1;
    }
    assert(s@.subrange(i as int, i + pat.len()) =~= pat@);
    true
}

/// Whether `s` begins with `p`.
pub fn starts_with(s: &[char], p: &[char]) -> (r: bool)
    ensures
        r == has_prefix(s@, p@),
{
    occurs_at_exec(s, p, 0)
}

/// Whether `s` ends with `p`.
pub fn ends_with(s: &[char], p: &[char]) -> (r: bool)
    ensures
        r == has_suffix(s@, p@),
{
    if p.len() > s.len() {
        false
    } else {
        occurs_at_exec(s, p, s.len() - p.len())
    }
}

/// The first position at or after `from` where `pat` occurs.
pub fn find_from(s: &[char], pat: &[char], from: usize) -> (r: Option<usize>)
    ensures
        match r {
            Some(k) => from <= k && occurs_at(s@, pat@, k as int) && forall|j: int|
                from <= j < k ==> !occurs_at(s@, pat@, j),
            None => forall|j: int| from <= j ==> !occurs_at(s@, pat@, j),
        },
{
    if pat.len() > s.len() || from > s.len() - pat.len() {
        return None;
    }
    if pat.len() == 0 {
        assert(s@.subrange(from as int, from as int) =~= pat@);
        return Some(from);
    }
    let mut k = from;
    while k <= s.len() - pat.len()
        invariant
            0 < pat.len() <= s.len(),
            from <= k <= s.len() - pat.len() + 1,
            forall|j: int| from <= j < k ==> !occurs_at(s@, pat@, j),
        decreases s.len() - pat.len() + 1 - k,
    {
        if occurs_at_exec(s, pat, k) {
            return Some(k);
        }
        k = k + 1;
    }
    None
}

/// Whether `pat` occurs in `s`.
pub fn contains_exec(s: &[char], pat: &[char]) -> (r: bool)
    ensures
        r == contains(s@, pat@),
{
    match find_from(s, pat, 0) {
        Some(k) => true,
        None => {
            assert(!contains(s@, pat@));
            false
        },
    }
}

// ---------------------------------------------------------------------------
// Rewriting
// ---------------------------------------------------------------------------

/// `str::replace` on characters.
pub fn replace_chars(s: &[char], pat: &[char], rep: &[char]) -> (r: Vec<char>)
    ensures
        r@ == replaced(s@, pat@, rep@),
{
    let mut out: Vec<char> = Vec::new();
    let mut i: usize = 0;
    assert(s@.skip(0) == s@);
    while i < s.len()
        invariant
            i <= s.len(),
            out@ + replaced(s@.skip(i as int), pat@, rep@) == replaced(s@, pat@, rep@),
        decreases s.len() - i,
    {
        let ghost t = s@.skip(i as int);
        if pat.len() > 0 && occurs_at_exec(s, pat, i) {
            assert(t.take(pat.len() as int) == s@.subrange(i as int, i + pat.len()));
            assert(t.skip(pat.len() as int) == s@.skip(i + pat.len()));
            push_chars(&mut out, rep);
            i = i + pat.len();
        } else {
            if pat.len() > 0 {
                assert(!occurs_at(t, pat@, 0)) by {
                    if occurs_at(t, pat@, 0) {
                        assert(t.subrange(0, pat.len() as int) == s@.subrange(i as int, i + pat.len()));
                    }
                }
                proof { lemma_replaced_step(t, pat@, rep@); }
            } else {
                push_chars(&mut out, rep);
            }
            assert(t.drop_first() == s@.skip(i + 1));
            out.push(s[i]);
            i = i + 1;
        }
    }
    if pat.len() == 0 {
        push_chars(&mut out, rep);
    }
    assert(s@.skip(i as int).len() == 0);
    out
}

/// `str::replace`.
pub fn replace(s: &str, pat: &str, rep: &str) -> (r: String)
    ensures
        r@ == replaced(s@, pat@, rep@),
{
    let sc = to_chars(s);
    let pc = to_chars(pat);
    let rc = to_chars(rep);
    let out = replace_chars(&sc, &pc, &rc);
    from_chars(&out)
}

/// The last piece of `s.split(pat)`.
pub fn last_piece_exec(s: &[char], pat: &[char]) -> (r: Vec<char>)
    ensures
        r@ == last_piece(s@, pat@),
{
    if pat.len() == 0 {
        return Vec::new();
    }
    let mut i: usize = 0;
    assert(s@.skip(0) == s@);
    loop
        invariant
            pat.len() > 0,
            i <= s.len(),
            last_piece(s@.skip(i as int), pat@) == last_piece(s@, pat@),
        decreases s.len() - i,
    {
        let ghost t = s@.skip(i as int);
        match find_from(s, pat, i) {
            Some(k) => {
                assert(occurs_at(t, pat@, k - i)) by {
                    assert(t.subrange(k - i, k - i + pat.len()) == s@.subrange(k as int, k + pat.len()));
                }
                assert forall|j: int| 0 <= j < k - i implies !occurs_at(t, pat@, j) by {
                    if occurs_at(t, pat@, j) {
                        assert(t.subrange(j, j + pat.len()) == s@.subrange(i + j, i + j + pat.len()));
                        assert(occurs_at(s@, pat@, i + j));
                    }
                }
                proof { lemma_last_piece_skip(t, pat@, (k - i) as int); }
                assert(t.skip(k - i + pat.len()) == s@.skip(k + pat.len()));
                i = k + pat.len();
            },
            None => {
                assert forall|j: int| 0 <= j implies !occurs_at(t, pat@, j) by {
                    if occurs_at(t, pat@, j) {
                        assert(t.subrange(j, j + pat.len()) == s@.subrange(i + j, i + j + pat.len()));
                        assert(occurs_at(s@, pat@, i + j));
                    }
                }
                proof { lemma_last_piece_none(t, pat@); }
                let r = slice_chars(s, i, s.len());
                assert(r@ == t);
                return r;
            },
        }
    }
}

/// The position of the first `c` in `s` at or after `from`, or `s.len()`.
pub fn index_of_char(s: &[char], c: char, from: usize) -> (r: usize)
    requires
        from <= s.len(),
    ensures
        from <= r <= s.len(),
        r - from == first_index_of(s@.skip(from as int), c),
{
    let mut k = from;
    while k < s.len() && s[k] != c
        invariant
            from <= k <= s.len(),
            forall|j: int| from <= j < k ==> s@[j] != c,
        decreases s.len() - k,
    {
        k = k + 1;
    }
    proof {
        let t = s@.skip(from as int);
        assert forall|j: int| 0 <= j < k - from implies t[j] != c by {
            assert(t[j] == s@[from + j]);
        }
        if k < s.len() {
            assert(t[k - from] == s@[k as int]);
        }
        lemma_first_index_unique(t, c, k - from);
    }
    k
}

/// `str::lines`.
pub fn lines_chars(s: &[char]) -> (r: Vec<Vec<char>>)
    ensures
        r@.len() == lines_of(s@).len(),
        forall|i: int| 0 <= i < r@.len() ==> #[trigger] r@[i]@ == lines_of(s@)[i],
{
    let mut out: Vec<Vec<char>> = Vec::new();
    let ghost mut done: Seq<Seq<char>> = seq![];
    let mut i: usize = 0;
    assert(s@.skip(0) == s@);
    while i < s.len()
        invariant
            i <= s.len(),
            out@.len() == done.len(),
            forall|j: int| 0 <= j < out@.len() ==> #[trigger] out@[j]@ == done[j],
            done + lines_of(s@.skip(i as int)) == lines_of(s@),
        decreases s.len() - i,
    {
        let ghost t = s@.skip(i as int);
        let k = index_of_char(s, '\n', i);
        if k == s.len() {
            let line = slice_chars(s, i, s.len());
            assert(line@ == t);
            assert(lines_of(t) == seq![t]);
            proof {
                done = done.push(t);
            }
            out.push(line);
            i = s.len();
            assert(s@.skip(i as int).len() == 0);
            assert(lines_of(s@.skip(i as int)) == Seq::<Seq<char>>::empty());
        } else {
            let mut end = k;
            if k > i && s[k - 1] == '\r' {
                end = k - 1;
            }
            let line = slice_chars(s, i, end);
            assert(t.take(k - i) == s@.subrange(i as int, k as int));
            assert(line@ == without_cr(t.take(k - i)));
            assert(t.skip(k - i + 1) == s@.skip(k + 1));
            proof {
                done = done.push(line@);
            }
            out.push(line);
            i = k + 1;
        }
    }
    assert(s@.skip(i as int).len() == 0);
    assert(done + lines_of(s@.skip(i as int)) == done);
    out
}

/// Whether `c` is Unicode whitespace (`char::is_whitespace`).
pub fn is_white_exec(c: char) -> (r: bool)
    ensures
        r == is_white(c),
{
    ('\u{9}' <= c && c <= '\u{d}') || c == ' ' || c == '\u{85}' || c == '\u{a0}' || c == '\u{1680}'
        || ('\u{2000}' <= c && c <= '\u{200a}') || c == '\u{2028}' || c == '\u{2029}'
        || c == '\u{202f}' || c == '\u{205f}' || c == '\u{3000}'
}

/// `str::trim` on characters.
pub fn trim_chars(s: &[char]) -> (r: Vec<char>)
    ensures
        r@ == trimmed(s@),
{
    let mut a: usize = 0;
    assert(s@.skip(0) == s@);
    while a < s.len() && is_white_exec(s[a])
        invariant
            a <= s.len(),
            trimmed_start(s@.skip(a as int)) == trimmed_start(s@),
        decreases s.len() - a,
    {
        assert(s@.skip(a as int).drop_first() == s@.skip(a + 1));
        a = a + 1;
    }
    let ghost u = s@.skip(a as int);
    assert(trimmed_start(u) == u);
    let mut b: usize = s.len();
    assert(u.take(u.len() as int) == u);
    while b > a && is_white_exec(s[b - 1])
        invariant
            a <= b <= s.len(),
            u == s@.skip(a as int),
            trimmed_end(s@.subrange(a as int, b as int)) == trimmed_end(u),
        decreases b,
    {
        assert(s@.subrange(a as int, b as int).drop_last() == s@.subrange(a as int, b - 1));
        b = b - 1;
    }
    assert(trimmed_end(s@.subrange(a as int, b as int)) == s@.subrange(a as int, b as int));
    slice_chars(s, a, b)
}

/// Whether `s` is empty once trimmed, i.e. all whitespace.
pub fn is_blank(s: &[char]) -> (r: bool)
    ensures
        r == (trimmed(s@).len() == 0),
{
    let mut i: usize = 0;
    while i < s.len()
        invariant
            i <= s.len(),
            forall|j: int| 0 <= j < i ==> is_white(#[trigger] s@[j]),
        decreases s.len() - i,
    {
        if !is_white_exec(s[i]) {
            proof {
                lemma_trim_empty_iff_white(s@);
            }
            return false;
        }
        i = i + 1;
    }
    proof {
        lemma_trim_empty_iff_white(s@);
    }
    true
}

/// `s` without trailing `c`.
pub fn trim_end_char(s: &[char], c: char) -> (r: Vec<char>)
    ensures
        r@ == trimmed_end_char(s@, c),
{
    let mut b: usize = s.len();
    assert(s@.subrange(0, s.len() as int) == s@);
    while b > 0 && s[b - 1] == c
        invariant
            b <= s.len(),
            trimmed_end_char(s@.subrange(0, b as int), c) == trimmed_end_char(s@, c),
        decreases b,
    {
        assert(s@.subrange(0, b as int).drop_last() == s@.subrange(0, b - 1));
        b = b - 1;
    }
    slice_chars(s, 0, b)
}

/// `str::trim_matches(c)` for one character.
pub fn trim_char(s: &[char], c: char) -> (r: Vec<char>)
    ensures
        r@ == trimmed_char(s@, c),
{
    let mut a: usize = 0;
    assert(s@.skip(0) == s@);
    while a < s.len() && s[a] == c
        invariant
            a <= s.len(),
            trimmed_start_char(s@.skip(a as int), c) == trimmed_start_char(s@, c),
        decreases s.len() - a,
    {
        assert(s@.skip(a as int).drop_first() == s@.skip(a + 1));
        a = a + 1;
    }
    let rest = slice_chars(s, a, s.len());
    assert(rest@ == s@.skip(a as int));
    trim_end_char(&rest, c)
}

/// The views of a vector of character vectors.
pub open spec fn views_of(v: Seq<Vec<char>>) -> Seq<Seq<char>> {
    Seq::new(v.len(), |i: int| v[i]@)
}

/// The views of a vector of strings.
pub open spec fn strs_view(v: Seq<String>) -> Seq<Seq<char>> {
    Seq::new(v.len(), |i: int| v[i]@)
}

/// Pushing onto a vector of strings pushes the view onto the views.
pub proof fn lemma_strs_push(v: Seq<String>, x: String)
    ensures
        strs_view(v.push(x)) == strs_view(v).push(x@),
{
    assert(strs_view(v.push(x)) =~= strs_view(v).push(x@));
}

/// `parts.join(sep)`.
pub fn join_chars(parts: &Vec<Vec<char>>, sep: &[char]) -> (r: Vec<char>)
    ensures
        r@ == joined(views_of(parts@), sep@),
{
    let ghost views = views_of(parts@);
    let mut out: Vec<char> = Vec::new();
    let mut i: usize = 0;
    while i < parts.len()
        invariant
            i <= parts.len(),
            views == views_of(parts@),
            out@ == joined(views.take(i as int), sep@),
        decreases parts.len() - i,
    {
        if i > 0 {
            push_chars(&mut out, sep);
        }
        push_chars(&mut out, &parts[i]);
        assert(views.take(i + 1).drop_last() == views.take(i as int));
        i = i + 1;
    }
    assert(views.take(parts.len() as int) == views);
    out
}

/// `a.eq_ignore_ascii_case(b)`.
pub fn eq_ascii_nocase_exec(a: &[char], b: &[char]) -> (r: bool)
    ensures
        r == eq_ascii_nocase(a@, b@),
{
    if a.len() != b.len() {
        return false;
    }
    let mut i: usize = 0;
    while i < a.len()
        invariant
            a.len() == b.len(),
            i <= a.len(),
            forall|j: int| 0 <= j < i ==> ascii_lower(#[trigger] a@[j]) == ascii_lower(b@[j]),
        decreases a.len() - i,
    {
        if lower_ascii(a[i]) != lower_ascii(b[i]) {
            return false;
        }
        i = i + 1;
    }
    true
}

/// `char::to_ascii_lowercase`.
pub fn lower_ascii(c: char) -> (r: char)
    ensures
        r == ascii_lower(c),
{
    if 'A' <= c && c <= 'Z' {
        let n = (c as u32) + 32;
        assert('a' as u32 <= n <= 'z' as u32);
        char_from_ascii(n)
    } else {
        c
    }
}

fn char_from_ascii(n: u32) -> (c: char)
    requires
        n < 128,
    ensures
        c == n as char,
{
    let b = n as u8;
    assert(b as u32 == n);
    b as char
}

/// `u32::from_str`.
pub fn parse_u32(s: &[char]) -> (r: Option<u32>)
    ensures
        r == parsed_u32(s@),
{
    let mut i: usize = 0;
    if s.len() > 0 && s[0] == '+' {
        i = 1;
    }
    let ghost d = number_digits(s@);
    assert(d == s@.skip(i as int));
    if i >= s.len() {
        return None;
    }
    let mut v: u64 = 0;
    let mut k = i;
    while k < s.len()
        invariant
            i <= k <= s.len(),
            i < s.len(),
            d == s@.skip(i as int),
            d == number_digits(s@),
            forall|j: int| 0 <= j < k - i ==> is_digit(#[trigger] d[j]),
            v == digits_value(d.take(k - i)),
            v <= u32::MAX,
        decreases s.len() - k,
    {
        let c = s[k];
        if !('0' <= c && c <= '9') {
            assert(d[k - i] == s@[k as int]);
            assert(!is_digit(d[k - i]));
            assert(!all_digits(d));
            return None;
        }
        let dv = (c as u32 - '0' as u32) as u64;
        assert(d.take(k - i + 1).drop_last() == d.take(k - i));
        assert(d.take(k - i + 1).last() == c);
        let nv = v * 10 + dv;
        assert(d[k - i] == s@[k as int]);
        assert(digits_value(d.take(k - i + 1)) == nv);
        if nv > 4294967295u64 {
            proof {
                if all_digits(d) {
                    lemma_digits_prefix_bound(d, k - i + 1);
                }
            }
            return None;
        }
        v = nv;
        k = k + 1;
    }
    assert(d.take(k - i) == d);
    Some(v as u32)
}

proof fn lemma_digits_prefix_bound(d: Seq<char>, n: int)
    requires
        0 < n <= d.len(),
        forall|j: int| 0 <= j < d.len() ==> is_digit(#[trigger] d[j]),
    ensures
        digits_value(d.take(n)) <= digits_value(d),
    decreases d.len() - n,
{
    if n < d.len() {
        lemma_digits_prefix_bound(d, n + 1);
        assert(d.take(n + 1).drop_last() == d.take(n));
    } else {
        assert(d.take(n) == d);
    }
}

} // verus!
