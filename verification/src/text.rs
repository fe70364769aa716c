//! Character-level text primitives with specifications over `Seq<char>`.
//!
//! Strings are handled through their `Seq<char>` view; executable code
//! works on `Vec<char>` buffers and converts at the boundary.

use vstd::prelude::*;

verus! {

/// `String::push` (std): appends one character.
#[verifier::external_body]
pub(crate) fn push_char(s: &mut String, c: char)
    ensures
        final(s)@ == old(s)@.push(c),
{
    s.push(c);
}

/// The characters of `s`, in order.
pub fn chars_of(s: &str) -> (v: Vec<char>)
    ensures
        v@ == s@,
{
    let mut v: Vec<char> = Vec::new();
    for c in it: s.chars()
        invariant
            v@ == it.seq().take(it.index() as int),
            it.seq() == s@,
    {
        v.push(c);
    }
    v
}


/// The string whose characters are `v`.
pub fn string_of(v: &Vec<char>) -> (s: String)
    ensures
        s@ == v@,
{
    let mut s = String::new();
    push_chars(&mut s, v);
    s
}

/// Appends every character of `v` to `s`.
pub fn push_chars(s: &mut String, v: &Vec<char>)
    ensures
        final(s)@ == old(s)@ + v@,
{
    let ghost start = s@;
    let mut i: usize = 0;
    while i < v.len()
        invariant
            i <= v.len(),
            s@ == start + v@.take(i as int),
        decreases v.len() - i,
    {
        push_char(s, v[i]);
        i += 1;
        assert(v@.take(i as int) =~= v@.take((i - 1) as int).push(v@[i - 1]));
    }
    assert(v@.take(v.len() as int) =~= v@);
}

/// Appends every character of `t` to `s`.
pub fn push_str(s: &mut String, t: &str)
    ensures
        final(s)@ == old(s)@ + t@,
{
    let v = chars_of(t);
    push_chars(s, &v);
}

/// Appends every character of `t` to the buffer `v`.
pub fn extend_chars(v: &mut Vec<char>, t: &Vec<char>)
    ensures
        final(v)@ == old(v)@ + t@,
{
    let ghost start = v@;
    let mut i: usize = 0;
    while i < t.len()
        invariant
            i <= t.len(),
            v@ == start + t@.take(i as int),
        decreases t.len() - i,
    {
        v.push(t[i]);
        i += 1;
        assert(t@.take(i as int) =~= t@.take((i - 1) as int).push(t@[i - 1]));
    }
    assert(t@.take(t.len() as int) =~= t@);
}

/// Appends every character of the string `t` to the buffer `v`.
pub fn extend_str(v: &mut Vec<char>, t: &str)
    ensures
        final(v)@ == old(v)@ + t@,
{
    let w = chars_of(t);
    extend_chars(v, &w);
}

/// A buffer holding a copy of `src`.
pub fn copy_chars(src: &Vec<char>) -> (v: Vec<char>)
    ensures
        v@ == src@,
{
    let mut v: Vec<char> = Vec::new();
    extend_chars(&mut v, src);
    assert(v@ =~= src@);
    v
}

/// The characters of `s` from index `lo` (inclusive) to `hi` (exclusive).
pub fn slice_chars(s: &Vec<char>, lo: usize, hi: usize) -> (v: Vec<char>)
    requires
        lo <= hi <= s.len(),
    ensures
        v@ == s@.subrange(lo as int, hi as int),
{
    let mut v: Vec<char> = Vec::new();
    let mut i: usize = lo;
    while i < hi
        invariant
            lo <= i <= hi <= s.len(),
            v@ == s@.subrange(lo as int, i as int),
        decreases hi - i,
    {
        v.push(s[i]);
        i += 1;
        assert(s@.subrange(lo as int, i as int) =~= s@.subrange(lo as int, (i - 1) as int).push(s@[i - 1]));
    }
    v
}

/// Character-sequence equality.
pub fn chars_eq(a: &Vec<char>, b: &Vec<char>) -> (r: bool)
    ensures
        r == (a@ == b@),
{
    if a.len() != b.len() {
        return false;
    }
    let mut i: usize = 0;
    while i < a.len()
        invariant
            a.len() == b.len(),
            i <= a.len(),
            forall|j: int| 0 <= j < i ==> a@[j] == b@[j],
        decreases a.len() - i,
    {
        if a[i] != b[i] {
            return false;
        }
        i += 1;
    }
    assert(a@ =~= b@);
    true
}

/// Whether buffer `a` holds exactly the characters of `b`.
pub fn chars_eq_str(a: &Vec<char>, b: &str) -> (r: bool)
    ensures
        r == (a@ == b@),
{
    let bv = chars_of(b);
    chars_eq(a, &bv)
}

/// String equality over character views.
pub fn str_eq(a: &str, b: &str) -> (r: bool)
    ensures
        r == (a@ == b@),
{
    let av = chars_of(a);
    let bv = chars_of(b);
    chars_eq(&av, &bv)
}

/// Unicode `White_Space`, the set that `char::is_whitespace` tests.
pub open spec fn is_ws(c: char) -> bool {
    ||| ('\u{9}' <= c && c <= '\u{d}')
    ||| c == ' '
    ||| c == '\u{85}'
    ||| c == '\u{a0}'
    ||| c == '\u{1680}'
    ||| ('\u{2000}' <= c && c <= '\u{200a}')
    ||| c == '\u{2028}'
    ||| c == '\u{2029}'
    ||| c == '\u{202f}'
    ||| c == '\u{205f}'
    ||| c == '\u{3000}'
}

/// Executable test for `is_ws`.
pub fn is_whitespace(c: char) -> (r: bool)
    ensures
        r == is_ws(c),
{
    ('\u{9}' <= c && c <= '\u{d}') || c == ' ' || c == '\u{85}' || c == '\u{a0}'
        || c == '\u{1680}' || ('\u{2000}' <= c && c <= '\u{200a}') || c == '\u{2028}'
        || c == '\u{2029}' || c == '\u{202f}' || c == '\u{205f}' || c == '\u{3000}'
}

/// `s` without its leading white space (`str::trim_start`).
pub open spec fn trim_start(s: Seq<char>) -> Seq<char>
    decreases s.len(),
{
    if s.len() > 0 && is_ws(s[0]) {
        trim_start(s.drop_first())
    } else {
        s
    }
}

/// `s` without its trailing white space (`str::trim_end`).
pub open spec fn trim_end(s: Seq<char>) -> Seq<char>
    decreases s.len(),
{
    if s.len() > 0 && is_ws(s.last()) {
        trim_end(s.drop_last())
    } else {
        s
    }
}

/// `s` without leading and trailing white space (`str::trim`).
pub open spec fn trim(s: Seq<char>) -> Seq<char> {
    trim_end(trim_start(s))
}

/// Index of the first character of `s` that `trim_start` keeps.
pub fn trim_start_index(s: &Vec<char>) -> (i: usize)
    ensures
        i <= s.len(),
        trim_start(s@) == s@.skip(i as int),
{
    let mut i: usize = 0;
    assert(s@.skip(0) =~= s@);
    while i < s.len() && is_whitespace(s[i])
        invariant
            i <= s.len(),
            trim_start(s@) == trim_start(s@.skip(i as int)),
        decreases s.len() - i,
    {
        assert(s@.skip(i as int).drop_first() =~= s@.skip(i + 1));
        i += 1;
    }
    i
}

/// One past the index of the last character at or after `lo` that
/// `trim_end` keeps in `s.subrange(lo, len)`.
pub fn trim_end_index(s: &Vec<char>, lo: usize) -> (j: usize)
    requires
        lo <= s.len(),
    ensures
        lo <= j <= s.len(),
        trim_end(s@.skip(lo as int)) == s@.subrange(lo as int, j as int),
{
    let mut j: usize = s.len();
    assert(s@.skip(lo as int) =~= s@.subrange(lo as int, j as int));
    while j > lo && is_whitespace(s[j - 1])
        invariant
            lo <= j <= s.len(),
            trim_end(s@.skip(lo as int)) == trim_end(s@.subrange(lo as int, j as int)),
        decreases j,
    {
        assert(s@.subrange(lo as int, j as int).drop_last() =~= s@.subrange(lo as int, j - 1));
        j -= 1;
    }
    j
}

/// `trim` on a buffer.
pub fn trim_chars(s: &Vec<char>) -> (t: Vec<char>)
    ensures
        t@ == trim(s@),
{
    let i = trim_start_index(s);
    let j = trim_end_index(s, i);
    slice_chars(s, i, j)
}

/// `trim_end` on a buffer.
pub fn trim_end_chars(s: &Vec<char>) -> (t: Vec<char>)
    ensures
        t@ == trim_end(s@),
{
    let j = trim_end_index(s, 0);
    assert(s@.skip(0) =~= s@);
    slice_chars(s, 0, j)
}

/// `trim` on a string.
pub fn trim_str(s: &str) -> (t: String)
    ensures
        t@ == trim(s@),
{
    let v = chars_of(s);
    let t = trim_chars(&v);
    string_of(&t)
}


/// The character views of a sequence of buffers.
pub open spec fn views(v: Seq<Vec<char>>) -> Seq<Seq<char>> {
    v.map_values(|x: Vec<char>| x@)
}

/// Index of the first `'\n'` in `s`, or `s.len()` when there is none.
pub open spec fn nl_index(s: Seq<char>) -> nat
    decreases s.len(),
{
    if s.len() == 0 {
        0
    } else if s[0] == '\n' {
        0
    } else {
        1 + nl_index(s.drop_first())
    }
}

/// `s` without one trailing `'\r'`.
pub open spec fn strip_cr(s: Seq<char>) -> Seq<char> {
    if s.len() > 0 && s.last() == '\r' {
        s.drop_last()
    } else {
        s
    }
}

/// The lines of `s` as `str::lines` yields them: split after each `'\n'`,
/// the `'\n'` (and a `'\r'` just before it) removed, and no final empty
/// line when `s` ends with `'\n'`.
pub open spec fn lines(s: Seq<char>) -> Seq<Seq<char>>
    decreases s.len(),
{
    if s.len() == 0 {
        seq![]
    } else {
        let k = nl_index(s);
        if k >= s.len() {
            seq![s]
        } else {
            seq![strip_cr(s.take(k as int))] + lines(s.skip(k as int + 1))
        }
    }
}

/// `nl_index` is the first newline position.
pub proof fn lemma_nl_index(s: Seq<char>, j: int)
    requires
        0 <= j <= s.len(),
        forall|i: int| 0 <= i < j ==> s[i] != '\n',
        j == s.len() || s[j] == '\n',
    ensures
        nl_index(s) == j,
    decreases j,
{
    if j > 0 {
        lemma_nl_index(s.drop_first(), j - 1);
    }
}

/// `nl_index` stops at the first newline, or at the end when there is none.
pub proof fn lemma_nl_index_props(s: Seq<char>)
    ensures
        nl_index(s) <= s.len(),
        forall|i: int| 0 <= i < nl_index(s) ==> s[i] != '\n',
        nl_index(s) < s.len() ==> s[nl_index(s) as int] == '\n',
    decreases s.len(),
{
    if s.len() > 0 && s[0] != '\n' {
        lemma_nl_index_props(s.drop_first());
        assert forall|i: int| 0 <= i < nl_index(s) implies s[i] != '\n' by {
            if i > 0 {
                assert(s[i] == s.drop_first()[i - 1]);
            }
        }
    }
}

/// No line of `s` holds a newline.
pub proof fn lemma_lines_no_newline(s: Seq<char>)
    ensures
        forall|i: int| 0 <= i < lines(s).len() ==> !(#[trigger] lines(s)[i]).contains('\n'),
    decreases s.len(),
{
    if s.len() > 0 {
        lemma_nl_index_props(s);
        let k = nl_index(s);
        if k < s.len() {
            lemma_lines_no_newline(s.skip(k as int + 1));
            let first = strip_cr(s.take(k as int));
            assert(!first.contains('\n')) by {
                if first.contains('\n') {
                    let j = choose|j: int| 0 <= j < first.len() && first[j] == '\n';
                    assert(s[j] == '\n');
                }
            }
            assert forall|i: int| 0 <= i < lines(s).len() implies !(#[trigger] lines(s)[i]).contains('\n') by {
                if i > 0 {
                    assert(lines(s)[i] == lines(s.skip(k as int + 1))[i - 1]);
                }
            }
        } else {
            assert(!s.contains('\n')) by {
                if s.contains('\n') {
                    let j = choose|j: int| 0 <= j < s.len() && s[j] == '\n';
                }
            }
        }
    }
}

/// `join` taken apart at the front.
pub proof fn lemma_join_front(w: Seq<char>, rest: Seq<Seq<char>>, sep: Seq<char>)
    requires
        rest.len() >= 1,
    ensures
        join(seq![w] + rest, sep) == w + sep + join(rest, sep),
    decreases rest.len(),
{
    let ws = seq![w] + rest;
    assert(ws.len() >= 2);
    assert(ws.last() == rest.last());
    if rest.len() == 1 {
        assert(ws.drop_last() =~= seq![w]);
        assert(join(seq![w], sep) == w);
        assert(join(rest, sep) == rest[0]);
        assert(join(ws, sep) == join(ws.drop_last(), sep) + sep + ws.last());
    } else {
        lemma_join_front(w, rest.drop_last(), sep);
        assert(ws.drop_last() =~= seq![w] + rest.drop_last());
        assert(join(ws, sep) == join(ws.drop_last(), sep) + sep + ws.last());
        assert(join(rest, sep) == join(rest.drop_last(), sep) + sep + rest.last());
        assert(w + sep + join(rest.drop_last(), sep) + sep + rest.last() =~= w + sep + (join(
            rest.drop_last(),
            sep,
        ) + sep + rest.last()));
    }
}

/// A line that ends with a carriage return.
pub open spec fn ends_with_cr(l: Seq<char>) -> bool {
    l.len() > 0 && l.last() == '\r'
}

/// `ws` as `lines` reads it back after joining with newlines: a last line
/// that is empty leaves no trace.
pub open spec fn lines_read_back(ws: Seq<Seq<char>>) -> Seq<Seq<char>> {
    if ws.len() > 0 && ws.last().len() == 0 {
        ws.drop_last()
    } else {
        ws
    }
}

/// Joining lines with newlines and reading the lines back gives them
/// again (but an empty last line), provided no line holds a newline and
/// none but the last ends with a carriage return.
pub proof fn lemma_lines_of_joined(ws: Seq<Seq<char>>)
    requires
        forall|i: int| 0 <= i < ws.len() ==> !(#[trigger] ws[i]).contains('\n'),
        forall|i: int| 0 <= i < ws.len() - 1 ==> !ends_with_cr(#[trigger] ws[i]),
    ensures
        lines(join(ws, seq!['\n'])) == lines_read_back(ws),
    decreases ws.len(),
{
    if ws.len() == 0 {
    } else if ws.len() == 1 {
        let w = ws[0];
        assert(join(ws, seq!['\n']) == w);
        if w.len() > 0 {
            lemma_nl_index_props(w);
            if nl_index(w) < w.len() {
                assert(w.contains('\n'));
            }
        }
    } else {
        let w = ws[0];
        let rest = ws.skip(1);
        assert(ws =~= seq![w] + rest);
        lemma_join_front(w, rest, seq!['\n']);
        lemma_lines_of_joined(rest);
        let j = join(rest, seq!['\n']);
        let s = w + seq!['\n'] + j;
        assert(!w.contains('\n'));
        lemma_nl_index(s, w.len() as int);
        assert(s.take(w.len() as int) =~= w);
        assert(s.skip(w.len() as int + 1) =~= j);
        assert(!ends_with_cr(ws[0]));
        assert(strip_cr(w) == w);
        assert(lines(s) == seq![w] + lines(j));
        if rest.last().len() == 0 {
            assert(seq![w] + rest.drop_last() =~= ws.drop_last());
        }
    }
}

/// The lines of a buffer.
pub fn lines_of(s: &Vec<char>) -> (out: Vec<Vec<char>>)
    ensures
        views(out@) == lines(s@),
{
    let mut out: Vec<Vec<char>> = Vec::new();
    let mut st: usize = 0;
    let mut i: usize = 0;
    assert(s@.skip(0) =~= s@);
    while i < s.len()
        invariant
            st <= i <= s.len(),
            forall|k: int| st <= k < i ==> s@[k] != '\n',
            views(out@) + lines(s@.skip(st as int)) == lines(s@),
        decreases s.len() - i,
    {
        if s[i] == '\n' {
            let mut seg = slice_chars(s, st, i);
            if seg.len() > 0 && seg[seg.len() - 1] == '\r' {
                seg.pop();
            }
            proof {
                let rest = s@.skip(st as int);
                lemma_nl_index(rest, i - st);
                assert(rest.take(i - st) =~= s@.subrange(st as int, i as int));
                assert(rest.skip(i - st + 1) =~= s@.skip(i + 1));
                assert(seg@ == strip_cr(rest.take(i - st)));
                assert(views(out@.push(seg)) =~= views(out@).push(seg@));
                assert(lines(rest) == seq![strip_cr(rest.take(i - st))] + lines(s@.skip(i + 1)));
                assert(views(out@).push(seg@) + lines(s@.skip(i + 1)) =~= views(out@) + lines(rest));
            }
            out.push(seg);
            st = i + 1;
        }
        i += 1;
    }
    if st < s.len() {
        let seg = slice_chars(s, st, s.len());
        proof {
            let rest = s@.skip(st as int);
            lemma_nl_index(rest, rest.len() as int);
            assert(seg@ =~= rest);
            assert(views(out@.push(seg)) =~= views(out@).push(seg@));
            assert(views(out@).push(seg@) =~= views(out@) + lines(rest));
        }
        out.push(seg);
    } else {
        assert(s@.skip(st as int) =~= Seq::<char>::empty());
        assert(views(out@) + lines(s@.skip(st as int)) =~= views(out@));
    }
    out
}

/// Decimal digit character for `d < 10`.
pub open spec fn digit_char(d: nat) -> char {
    ((48 + d) as u8) as char
}

/// Decimal rendering of `n` (`n.to_string()` for unsigned integers).
pub open spec fn decimal(n: nat) -> Seq<char>
    decreases n,
{
    if n < 10 {
        seq![digit_char(n)]
    } else {
        decimal(n / 10).push(digit_char(n % 10))
    }
}

/// The character for the digit `d`.
pub fn digit(d: u64) -> (c: char)
    requires
        d < 10,
    ensures
        c == digit_char(d as nat),
{
    let b: u8 = 48u8 + (d as u8);
    b as char
}

/// Appends `decimal(n)` to the buffer.
pub fn push_decimal(out: &mut Vec<char>, n: u64)
    ensures
        final(out)@ == old(out)@ + decimal(n as nat),
    decreases n,
{
    if n >= 10 {
        push_decimal(out, n / 10);
    }
    out.push(digit(n % 10));
    proof {
        if n >= 10 {
            assert(decimal(n as nat) == decimal((n / 10) as nat).push(digit_char((n % 10) as nat)));
        }
    }
    assert(final(out)@ =~= old(out)@ + decimal(n as nat)) by {
        if n >= 10 {
            assert(old(out)@ + decimal((n / 10) as nat) + seq![digit_char((n % 10) as nat)]
                =~= old(out)@ + decimal(n as nat));
        }
    };
}

/// `n` left-padded with `'0'` to at least `width` characters (`{:0width$}`).
pub open spec fn zero_padded(n: nat, width: nat) -> Seq<char> {
    let d = decimal(n);
    if d.len() >= width {
        d
    } else {
        Seq::new((width - d.len()) as nat, |i: int| '0') + d
    }
}

/// Whether `p` occurs in `s` starting at index `i`.
pub open spec fn matches_at(s: Seq<char>, p: Seq<char>, i: int) -> bool {
    0 <= i && i + p.len() <= s.len() && s.subrange(i, i + p.len()) == p
}

/// Whether `p` occurs in `s` (`str::contains`).
pub open spec fn contains(s: Seq<char>, p: Seq<char>) -> bool {
    exists|i: int| matches_at(s, p, i)
}

/// `s` begins with `p`.
pub open spec fn starts_with(s: Seq<char>, p: Seq<char>) -> bool {
    matches_at(s, p, 0)
}

/// `s` ends with `p`.
pub open spec fn ends_with(s: Seq<char>, p: Seq<char>) -> bool {
    matches_at(s, p, s.len() - p.len())
}

/// Executable `matches_at`.
pub fn matches_at_exec(s: &Vec<char>, p: &Vec<char>, i: usize) -> (r: bool)
    ensures
        r == matches_at(s@, p@, i as int),
{
    if i > s.len() || p.len() > s.len() - i {
        return false;
    }
    let mut k: usize = 0;
    while k < p.len()
        invariant
            i + p.len() <= s.len(),
            k <= p.len(),
            forall|m: int| 0 <= m < k ==> s@[i + m] == p@[m],
        decreases p.len() - k,
    {
        if s[i + k] != p[k] {
            assert(s@.subrange(i as int, i + p.len())[k as int] != p@[k as int]);
            return false;
        }
        k += 1;
    }
    assert(s@.subrange(i as int, i + p.len()) =~= p@);
    true
}

/// First occurrence of `p` in `s` at or after `from`.
pub fn find_from(s: &Vec<char>, p: &Vec<char>, from: usize) -> (r: Option<usize>)
    ensures
        match r {
            Some(i) => from <= i && matches_at(s@, p@, i as int) && forall|j: int|
                from <= j < i ==> !matches_at(s@, p@, j),
            None => forall|j: int| from <= j ==> !matches_at(s@, p@, j),
        },
{
    if from > s.len() {
        return None;
    }
    let mut i: usize = from;
    while i < s.len()
        invariant
            from <= i <= s.len(),
            forall|j: int| from <= j < i ==> !matches_at(s@, p@, j),
        decreases s.len() - i,
    {
        if matches_at_exec(s, p, i) {
            return Some(i);
        }
        i += 1;
    }
    if matches_at_exec(s, p, i) {
        return Some(i);
    }
    None
}

/// Whether `p` occurs in `s`.
pub fn contains_chars(s: &Vec<char>, p: &Vec<char>) -> (r: bool)
    ensures
        r == contains(s@, p@),
{
    match find_from(s, p, 0) {
        Some(i) => true,
        None => {
            assert(forall|j: int| !matches_at(s@, p@, j));
            false
        },
    }
}

/// Whether the string `p` occurs in the buffer `s`.
pub fn contains_str(s: &Vec<char>, p: &str) -> (r: bool)
    ensures
        r == contains(s@, p@),
{
    let pv = chars_of(p);
    contains_chars(s, &pv)
}

/// Whether the buffer `s` ends with the string `p`.
pub fn ends_with_str(s: &Vec<char>, p: &str) -> (r: bool)
    ensures
        r == ends_with(s@, p@),
{
    let pv = chars_of(p);
    if pv.len() > s.len() {
        return false;
    }
    matches_at_exec(s, &pv, s.len() - pv.len())
}

/// Whether the buffer `s` starts with the string `p`.
pub fn starts_with_str(s: &Vec<char>, p: &str) -> (r: bool)
    ensures
        r == starts_with(s@, p@),
{
    let pv = chars_of(p);
    matches_at_exec(s, &pv, 0)
}

/// `s` with every leftmost, non-overlapping occurrence of the non-empty
/// pattern `p` replaced by `r` (`str::replace`).
pub open spec fn replace_all(s: Seq<char>, p: Seq<char>, r: Seq<char>) -> Seq<char>
    decreases s.len(),
{
    if s.len() == 0 || p.len() == 0 {
        s
    } else if matches_at(s, p, 0) {
        r + replace_all(s.skip(p.len() as int), p, r)
    } else {
        seq![s[0]] + replace_all(s.drop_first(), p, r)
    }
}

/// A match one position into `s` is a match in `s` without its first
/// character.
pub proof fn lemma_matches_at_drop_first(s: Seq<char>, p: Seq<char>, i: int)
    requires
        s.len() > 0,
    ensures
        matches_at(s.drop_first(), p, i) ==> matches_at(s, p, i + 1),
{
    if matches_at(s.drop_first(), p, i) {
        assert(s.drop_first().subrange(i, i + p.len()) =~= s.subrange(i + 1, i + 1 + p.len()));
    }
}

/// Replacing a pattern that does not occur changes nothing.
pub proof fn lemma_replace_absent(s: Seq<char>, p: Seq<char>, r: Seq<char>)
    requires
        forall|i: int| !matches_at(s, p, i),
    ensures
        replace_all(s, p, r) == s,
    decreases s.len(),
{
    if s.len() > 0 && p.len() > 0 {
        assert(!matches_at(s, p, 0));
        assert forall|i: int| !matches_at(s.drop_first(), p, i) by {
            lemma_matches_at_drop_first(s, p, i);
        }
        lemma_replace_absent(s.drop_first(), p, r);
        assert(seq![s[0]] + s.drop_first() =~= s);
    }
}

/// Replacing a pattern that occurs once, between `x` and `y`, puts the
/// replacement there.
pub proof fn lemma_replace_once(x: Seq<char>, p: Seq<char>, y: Seq<char>, r: Seq<char>)
    requires
        p.len() > 0,
        forall|i: int| 0 <= i < x.len() ==> !matches_at(x + p + y, p, i),
        forall|i: int| !matches_at(y, p, i),
    ensures
        replace_all(x + p + y, p, r) == x + r + y,
    decreases x.len(),
{
    let s = x + p + y;
    if x.len() == 0 {
        assert(s =~= p + y);
        assert(s.subrange(0, p.len() as int) =~= p);
        assert(matches_at(s, p, 0));
        assert(s.skip(p.len() as int) =~= y);
        lemma_replace_absent(y, p, r);
        assert(x + r + y =~= r + y);
    } else {
        assert(!matches_at(s, p, 0));
        let x2 = x.drop_first();
        assert(s.drop_first() =~= x2 + p + y);
        assert forall|i: int| 0 <= i < x2.len() implies !matches_at(x2 + p + y, p, i) by {
            lemma_matches_at_drop_first(s, p, i);
        }
        lemma_replace_once(x2, p, y, r);
        assert(seq![x[0]] + (x2 + r + y) =~= x + r + y);
    }
}

/// Executable `replace_all`.
pub fn replace_chars(s: &Vec<char>, p: &Vec<char>, r: &Vec<char>) -> (out: Vec<char>)
    requires
        p.len() > 0,
    ensures
        out@ == replace_all(s@, p@, r@),
{
    let mut out: Vec<char> = Vec::new();
    let mut i: usize = 0;
    assert(s@.skip(0) =~= s@);
    while i < s.len()
        invariant
            p.len() > 0,
            i <= s.len(),
            out@ + replace_all(s@.skip(i as int), p@, r@) == replace_all(s@, p@, r@),
        decreases s.len() - i,
    {
        let ghost rest = s@.skip(i as int);
        let m = matches_at_exec(s, p, i);
        proof {
            if m {
                assert(rest.subrange(0, p.len() as int) =~= s@.subrange(i as int, i + p.len()));
                assert(matches_at(rest, p@, 0));
            } else if p.len() <= rest.len() {
                assert(rest.subrange(0, p.len() as int) =~= s@.subrange(i as int, i + p.len()));
            }
        }
        if m {
            let ghost before = out@;
            extend_chars(&mut out, r);
            assert(rest.skip(p.len() as int) =~= s@.skip(i + p.len()));
            assert(before + replace_all(rest, p@, r@) =~= out@ + replace_all(s@.skip(i + p.len()), p@, r@));
            i += p.len();
        } else {
            let ghost before = out@;
            out.push(s[i]);
            assert(rest.drop_first() =~= s@.skip(i + 1));
            assert(before + replace_all(rest, p@, r@) =~= out@ + replace_all(s@.skip(i + 1), p@, r@));
            i += 1;
        }
    }
    assert(s@.skip(i as int) =~= Seq::<char>::empty());
    assert(out@ + replace_all(s@.skip(i as int), p@, r@) =~= out@);
    out
}


/// Number of leading characters of `s` that satisfy `is_ws`.
pub open spec fn lead_ws(s: Seq<char>) -> nat
    decreases s.len(),
{
    if s.len() > 0 && is_ws(s[0]) {
        1 + lead_ws(s.drop_first())
    } else {
        0
    }
}

/// Index of the first white-space character of `s`, or `s.len()`.
pub open spec fn ws_index(s: Seq<char>) -> nat
    decreases s.len(),
{
    if s.len() == 0 || is_ws(s[0]) {
        0
    } else {
        1 + ws_index(s.drop_first())
    }
}

pub proof fn lemma_lead_ws(s: Seq<char>, j: int)
    requires
        0 <= j <= s.len(),
        forall|i: int| 0 <= i < j ==> is_ws(s[i]),
        j == s.len() || !is_ws(s[j]),
    ensures
        lead_ws(s) == j,
    decreases j,
{
    if j > 0 {
        lemma_lead_ws(s.drop_first(), j - 1);
    }
}

pub proof fn lemma_lead_ws_bound(s: Seq<char>)
    ensures
        lead_ws(s) <= s.len(),
        lead_ws(s) < s.len() ==> !is_ws(s[lead_ws(s) as int]),
    decreases s.len(),
{
    if s.len() > 0 && is_ws(s[0]) {
        lemma_lead_ws_bound(s.drop_first());
    }
}

pub proof fn lemma_ws_index(s: Seq<char>, j: int)
    requires
        0 <= j <= s.len(),
        forall|i: int| 0 <= i < j ==> !is_ws(s[i]),
        j == s.len() || is_ws(s[j]),
    ensures
        ws_index(s) == j,
    decreases j,
{
    if j > 0 {
        lemma_ws_index(s.drop_first(), j - 1);
    }
}

pub proof fn lemma_ws_index_bound(s: Seq<char>)
    ensures
        ws_index(s) <= s.len(),
    decreases s.len(),
{
    if s.len() > 0 && !is_ws(s[0]) {
        lemma_ws_index_bound(s.drop_first());
    }
}

/// The white-space separated words of `s` (`str::split_whitespace`).
pub open spec fn words(s: Seq<char>) -> Seq<Seq<char>>
    decreases s.len(),
{
    let t = s.skip(lead_ws(s) as int);
    if lead_ws(s) >= s.len() {
        seq![]
    } else {
        let k = ws_index(t);
        if k == 0 {
            seq![]
        } else {
            proof {
                lemma_ws_index_bound(t);
            }
            seq![t.take(k as int)] + words(t.skip(k as int))
        }
    }
}

/// The words of a buffer.
pub fn split_whitespace(s: &Vec<char>) -> (out: Vec<Vec<char>>)
    ensures
        views(out@) == words(s@),
{
    let mut out: Vec<Vec<char>> = Vec::new();
    let mut i: usize = 0;
    assert(s@.skip(0) =~= s@);
    while i < s.len()
        invariant
            i <= s.len(),
            views(out@) + words(s@.skip(i as int)) == words(s@),
        decreases s.len() - i,
    {
        let ghost rest = s@.skip(i as int);
        let mut j: usize = i;
        while j < s.len() && is_whitespace(s[j])
            invariant
                i <= j <= s.len(),
                forall|m: int| i <= m < j ==> is_ws(s@[m]),
            decreases s.len() - j,
        {
            j += 1;
        }
        proof {
            lemma_lead_ws(rest, j - i);
        }
        if j == s.len() {
            assert(words(rest) == Seq::<Seq<char>>::empty());
            i = j;
            assert(s@.skip(i as int) =~= Seq::<char>::empty());
            assert(words(s@.skip(i as int)) == Seq::<Seq<char>>::empty());
        } else {
            let mut e: usize = j;
            while e < s.len() && !is_whitespace(s[e])
                invariant
                    j <= e <= s.len(),
                    forall|m: int| j <= m < e ==> !is_ws(s@[m]),
                decreases s.len() - e,
            {
                e += 1;
            }
            let w = slice_chars(s, j, e);
            proof {
                let t = rest.skip(j - i);
                assert(t =~= s@.skip(j as int));
                lemma_ws_index(t, e - j);
                assert(t.take(e - j) =~= w@);
                assert(t.skip(e - j) =~= s@.skip(e as int));
                assert(words(rest) == seq![w@] + words(s@.skip(e as int)));
                assert(views(out@.push(w)) =~= views(out@).push(w@));
                assert(views(out@).push(w@) + words(s@.skip(e as int)) =~= views(out@) + words(rest));
            }
            out.push(w);
            i = e;
        }
    }
    assert(s@.skip(i as int) =~= Seq::<char>::empty());
    assert(views(out@) + words(s@.skip(i as int)) =~= views(out@));
    out
}

/// ASCII upper-casing of one character.
pub open spec fn ascii_upper(c: char) -> char {
    if 'a' <= c && c <= 'z' {
        ((c as u32) - 32) as char
    } else {
        c
    }
}

/// ASCII lower-casing of one character.
pub open spec fn ascii_lower(c: char) -> char {
    if 'A' <= c && c <= 'Z' {
        ((c as u32) + 32) as char
    } else {
        c
    }
}

/// `s` with ASCII letters upper-cased.
pub open spec fn ascii_upper_seq(s: Seq<char>) -> Seq<char> {
    s.map_values(|c: char| ascii_upper(c))
}

/// Case-insensitive comparison over ASCII letters (`str::eq_ignore_ascii_case`).
pub open spec fn eq_ignore_ascii_case(a: Seq<char>, b: Seq<char>) -> bool {
    a.len() == b.len() && forall|i: int| 0 <= i < a.len() ==> ascii_lower(a[i]) == ascii_lower(b[i])
}

pub fn to_ascii_upper_char(c: char) -> (r: char)
    ensures
        r == ascii_upper(c),
{
    if 'a' <= c && c <= 'z' {
        let b: u8 = ((c as u32) - 32) as u8;
        b as char
    } else {
        c
    }
}

pub fn to_ascii_lower_char(c: char) -> (r: char)
    ensures
        r == ascii_lower(c),
{
    if 'A' <= c && c <= 'Z' {
        let b: u8 = ((c as u32) + 32) as u8;
        b as char
    } else {
        c
    }
}

/// ASCII upper-casing of a buffer.
pub fn to_ascii_upper(s: &Vec<char>) -> (r: Vec<char>)
    ensures
        r@ == ascii_upper_seq(s@),
{
    let mut r: Vec<char> = Vec::new();
    let mut i: usize = 0;
    while i < s.len()
        invariant
            i <= s.len(),
            r@ == ascii_upper_seq(s@.take(i as int)),
        decreases s.len() - i,
    {
        r.push(to_ascii_upper_char(s[i]));
        i += 1;
        assert(ascii_upper_seq(s@.take(i as int)) =~= ascii_upper_seq(s@.take((i - 1) as int)).push(ascii_upper(s@[i - 1])));
    }
    assert(s@.take(s.len() as int) =~= s@);
    r
}

/// Executable `eq_ignore_ascii_case` against a string.
pub fn eq_ignore_ascii_case_str(a: &Vec<char>, b: &str) -> (r: bool)
    ensures
        r == eq_ignore_ascii_case(a@, b@),
{
    let bv = chars_of(b);
    if a.len() != bv.len() {
        return false;
    }
    let mut i: usize = 0;
    while i < a.len()
        invariant
            a.len() == bv.len(),
            bv@ == b@,
            i <= a.len(),
            forall|j: int| 0 <= j < i ==> ascii_lower(a@[j]) == ascii_lower(bv@[j]),
        decreases a.len() - i,
    {
        if to_ascii_lower_char(a[i]) != to_ascii_lower_char(bv[i]) {
            assert(ascii_lower(a@[i as int]) != ascii_lower(b@[i as int]));
            return false;
        }
        i += 1;
    }
    true
}

/// `n` copies of `c`.
pub open spec fn repeat(c: char, n: nat) -> Seq<char> {
    Seq::new(n, |i: int| c)
}

/// Appends `n` copies of `c` to the buffer.
pub fn push_repeat(v: &mut Vec<char>, c: char, n: usize)
    ensures
        final(v)@ == old(v)@ + repeat(c, n as nat),
{
    let ghost start = v@;
    let mut i: usize = 0;
    while i < n
        invariant
            i <= n,
            v@ == start + repeat(c, i as nat),
        decreases n - i,
    {
        v.push(c);
        i += 1;
        assert(start + repeat(c, i as nat) =~= (start + repeat(c, (i - 1) as nat)).push(c));
    }
}

/// `s` padded on the right with spaces to at least `w` characters (`{:<w}`).
pub open spec fn pad_right(s: Seq<char>, w: nat) -> Seq<char> {
    if s.len() >= w {
        s
    } else {
        s + repeat(' ', (w - s.len()) as nat)
    }
}

/// Number of occurrences of `c` in `s`.
pub open spec fn count_char(s: Seq<char>, c: char) -> nat
    decreases s.len(),
{
    if s.len() == 0 {
        0
    } else {
        count_char(s.drop_last(), c) + if s.last() == c { 1nat } else { 0nat }
    }
}

/// Executable `count_char`.
pub fn count_char_exec(s: &Vec<char>, c: char) -> (n: usize)
    ensures
        n == count_char(s@, c),
{
    let mut n: usize = 0;
    let mut i: usize = 0;
    while i < s.len()
        invariant
            i <= s.len(),
            n == count_char(s@.take(i as int), c),
            n <= i,
        decreases s.len() - i,
    {
        assert(s@.take((i + 1) as int).drop_last() =~= s@.take(i as int));
        if s[i] == c {
            n += 1;
        }
        i += 1;
    }
    assert(s@.take(s.len() as int) =~= s@);
    n
}

/// Whether every character of `s` is `c`.
pub open spec fn all_chars(s: Seq<char>, c: char) -> bool {
    forall|i: int| 0 <= i < s.len() ==> s[i] == c
}

pub fn all_chars_exec(s: &Vec<char>, c: char) -> (r: bool)
    ensures
        r == all_chars(s@, c),
{
    let mut i: usize = 0;
    while i < s.len()
        invariant
            i <= s.len(),
            forall|j: int| 0 <= j < i ==> s@[j] == c,
        decreases s.len() - i,
    {
        if s[i] != c {
            return false;
        }
        i += 1;
    }
    true
}

/// `str::split_once`: the text before and after the first occurrence of
/// the non-empty separator `p`.
pub open spec fn split_once(s: Seq<char>, p: Seq<char>) -> Option<(Seq<char>, Seq<char>)> {
    if contains(s, p) {
        let i = choose|i: int| matches_at(s, p, i) && forall|j: int| 0 <= j < i ==> !matches_at(s, p, j);
        Some((s.take(i), s.skip(i + p.len())))
    } else {
        None
    }
}

/// Executable `split_once`.
pub fn split_once_chars(s: &Vec<char>, p: &Vec<char>) -> (r: Option<(Vec<char>, Vec<char>)>)
    ensures
        match r {
            Some(pair) => split_once(s@, p@) == Some((pair.0@, pair.1@)),
            None => split_once(s@, p@) is None,
        },
{
    match find_from(s, p, 0) {
        Some(i) => {
            assert(i + p.len() <= s.len());
            let a = slice_chars(s, 0, i);
            let b = slice_chars(s, i + p.len(), s.len());
            proof {
                let k = choose|k: int| matches_at(s@, p@, k) && forall|j: int| 0 <= j < k ==> !matches_at(s@, p@, j);
                assert(k == i as int) by {
                    if k < i {
                    } else if k > i {
                    }
                };
                assert(a@ =~= s@.take(i as int));
                assert(b@ =~= s@.skip(i + p.len()));
            }
            Some((a, b))
        },
        None => {
            assert(!contains(s@, p@));
            None
        },
    }
}


/// What `format!("{:?}", s)` renders for a string (std `Debug for str`).
pub uninterp spec fn debug_str_spec(s: Seq<char>) -> Seq<char>;

/// `format!("{:?}", s)`: the string quoted and escaped as std's `Debug`
/// impl for `str` does. The contract names the rendering and states what
/// the documentation promises of its shape: surrounding double quotes.
#[verifier::external_body]
pub(crate) fn debug_str(s: &str) -> (r: String)
    ensures
        r@ == debug_str_spec(s@),
        r@.len() >= 2,
        r@[0] == '"',
        r@.last() == '"',
{
    format!("{:?}", s)
}

/// `parts` joined with `sep` between consecutive parts (`[T]::join`).
pub open spec fn join(parts: Seq<Seq<char>>, sep: Seq<char>) -> Seq<char>
    decreases parts.len(),
{
    if parts.len() == 0 {
        seq![]
    } else if parts.len() == 1 {
        parts[0]
    } else {
        join(parts.drop_last(), sep) + sep + parts.last()
    }
}

/// Executable `join`.
pub fn join_chars(parts: &Vec<Vec<char>>, sep: &str) -> (r: Vec<char>)
    ensures
        r@ == join(views(parts@), sep@),
{
    let mut r: Vec<char> = Vec::new();
    let mut i: usize = 0;
    while i < parts.len()
        invariant
            i <= parts.len(),
            r@ == join(views(parts@).take(i as int), sep@),
        decreases parts.len() - i,
    {
        let ghost pv = views(parts@);
        if i > 0 {
            extend_str(&mut r, sep);
        }
        extend_chars(&mut r, &parts[i]);
        proof {
            assert(pv.take(i + 1).drop_last() =~= pv.take(i as int));
            if i == 0 {
                assert(pv.take(1) =~= seq![parts@[0]@]);
                assert(r@ =~= join(pv.take(1), sep@));
            } else {
                assert(pv.take(i + 1).last() == parts@[i as int]@);
            }
        }
        i += 1;
    }
    assert(views(parts@).take(parts.len() as int) =~= views(parts@));
    r
}

/// Number of lines of `s` as the backlog counts them (0 for empty text).
pub open spec fn line_count(s: Seq<char>) -> nat {
    if s.len() == 0 {
        0
    } else {
        lines(s).len()
    }
}

/// Executable `line_count`.
pub fn line_count_chars(s: &Vec<char>) -> (n: usize)
    ensures
        n == line_count(s@),
{
    if s.len() == 0 {
        0
    } else {
        let ls = lines_of(s);
        assert(views(ls@).len() == ls@.len());
        ls.len()
    }
}


/// Number of bytes UTF-8 uses to encode `c`.
pub open spec fn utf8_width(c: char) -> nat {
    if (c as u32) < 0x80 {
        1
    } else if (c as u32) < 0x800 {
        2
    } else if (c as u32) < 0x10000 {
        3
    } else {
        4
    }
}

/// Byte length of the UTF-8 encoding of `s` (`str::len`).
pub open spec fn utf8_len(s: Seq<char>) -> nat
    decreases s.len(),
{
    if s.len() == 0 {
        0
    } else {
        utf8_len(s.drop_last()) + utf8_width(s.last())
    }
}

pub fn utf8_width_exec(c: char) -> (n: usize)
    ensures
        n == utf8_width(c),
{
    let u = c as u32;
    if u < 0x80 {
        1
    } else if u < 0x800 {
        2
    } else if u < 0x10000 {
        3
    } else {
        4
    }
}

/// The number of characters of `s` whose encoding takes exactly `b`
/// bytes, when byte offset `b` falls on a character boundary.
pub open spec fn char_boundary(s: Seq<char>, b: nat) -> Option<nat>
    decreases s.len(),
{
    if b == 0 {
        Some(0)
    } else if s.len() == 0 {
        None
    } else if utf8_width(s[0]) > b {
        None
    } else {
        match char_boundary(s.drop_first(), (b - utf8_width(s[0])) as nat) {
            Some(k) => Some(k + 1),
            None => None,
        }
    }
}

/// Executable `char_boundary`.
pub fn char_boundary_exec(s: &Vec<char>, b: usize) -> (r: Option<usize>)
    ensures
        match r {
            Some(k) => char_boundary(s@, b as nat) == Some(k as nat) && k <= s.len(),
            None => char_boundary(s@, b as nat) is None,
        },
{
    let mut k: usize = 0;
    let mut rem: usize = b;
    assert(s@.skip(0) =~= s@);
    while rem > 0 && k < s.len() && utf8_width_exec(s[k]) <= rem
        invariant
            k <= s.len(),
            rem <= b,
            char_boundary(s@, b as nat) == match char_boundary(s@.skip(k as int), rem as nat) {
                Some(j) => Some((j + k) as nat),
                None => None,
            },
        decreases rem,
    {
        let w = utf8_width_exec(s[k]);
        assert(s@.skip(k as int).drop_first() =~= s@.skip(k + 1));
        assert(s@.skip(k as int)[0] == s@[k as int]);
        rem -= w;
        k += 1;
    }
    if rem == 0 {
        Some(k)
    } else {
        None
    }
}

/// An owned copy of `s`.
pub fn owned(s: &str) -> (r: String)
    ensures
        r@ == s@,
{
    string_of(&chars_of(s))
}

/// A copy of `s` with the same characters.
pub fn clone_string(s: &String) -> (r: String)
    ensures
        r@ == s@,
{
    s.clone()
}

/// An ASCII decimal digit.
pub open spec fn is_digit(c: char) -> bool {
    '0' <= c && c <= '9'
}

/// The value of a string of decimal digits.
pub open spec fn digits_value(s: Seq<char>) -> nat
    decreases s.len(),
{
    if s.len() == 0 {
        0
    } else {
        digits_value(s.drop_last()) * 10 + ((s.last() as int) - ('0' as int)) as nat
    }
}

/// `s` without one leading `+`.
pub open spec fn unsigned_digits(s: Seq<char>) -> Seq<char> {
    if s.len() > 0 && s[0] == '+' {
        s.skip(1)
    } else {
        s
    }
}

/// Every character is an ASCII digit.
pub open spec fn all_digits(d: Seq<char>) -> bool {
    forall|i: int| 0 <= i < d.len() ==> is_digit(#[trigger] d[i])
}

/// What `str::parse::<usize>` accepts: an optional `+`, then one or more
/// ASCII digits whose value fits in a `usize`.
pub open spec fn parse_usize_spec(s: Seq<char>) -> Option<nat> {
    let d = unsigned_digits(s);
    if d.len() > 0 && all_digits(d) && digits_value(d) <= usize::MAX {
        Some(digits_value(d))
    } else {
        None
    }
}

/// A decimal digit's character is an ASCII digit worth that digit.
pub proof fn lemma_digit_char(d: nat)
    requires
        d < 10,
    ensures
        is_digit(digit_char(d)),
        !is_ws(digit_char(d)),
        digit_char(d) != '+',
        (digit_char(d) as int) - ('0' as int) == d,
{
    assert(((48 + d) as u8) as int == 48 + d);
}

/// The decimal rendering of `n` is a non-empty run of digits worth `n`,
/// with no white space around it.
pub proof fn lemma_decimal_reads_back(n: nat)
    ensures
        decimal(n).len() > 0,
        all_digits(decimal(n)),
        digits_value(decimal(n)) == n,
        trim(decimal(n)) == decimal(n),
        decimal(n)[0] != '+',
    decreases n,
{
    if n < 10 {
        lemma_digit_char(n);
        assert(decimal(n).drop_last() =~= Seq::<char>::empty());
        assert(decimal(n).last() == digit_char(n));
        assert(digits_value(decimal(n)) == digits_value(decimal(n).drop_last()) * 10 + ((decimal(n).last() as int)
            - ('0' as int)) as nat);
    } else {
        lemma_decimal_reads_back(n / 10);
        lemma_digit_char(n % 10);
        let d = decimal(n);
        assert(d.drop_last() =~= decimal(n / 10));
        assert(d[0] == decimal(n / 10)[0]);
        assert forall|i: int| 0 <= i < d.len() implies is_digit(#[trigger] d[i]) by {
            if i < d.len() - 1 {
                assert(d[i] == decimal(n / 10)[i]);
            }
        }
        assert(d.last() == digit_char(n % 10));
        assert(digits_value(d) == digits_value(d.drop_last()) * 10 + ((d.last() as int) - ('0' as int)) as nat);
        assert((n / 10) * 10 + n % 10 == n) by (nonlinear_arith);
    }
    let d = decimal(n);
    assert(!is_ws(d[0]));
    assert(!is_ws(d.last()));
    assert(trim_start(d) == d);
    assert(trim_end(d) == d);
}

/// `parse::<usize>` reads a decimal rendering back.
pub proof fn lemma_parse_decimal(n: nat)
    requires
        n <= usize::MAX,
    ensures
        parse_usize_spec(trim(decimal(n))) == Some(n),
{
    lemma_decimal_reads_back(n);
}

pub proof fn lemma_digits_value_mono(d: Seq<char>, i: int, j: int)
    requires
        0 <= i <= j <= d.len(),
        forall|k: int| 0 <= k < d.len() ==> is_digit(#[trigger] d[k]),
    ensures
        digits_value(d.take(i)) <= digits_value(d.take(j)),
    decreases j - i,
{
    if i < j {
        lemma_digits_value_mono(d, i, j - 1);
        assert(d.take(j).drop_last() =~= d.take(j - 1));
        assert(is_digit(d[j - 1]));
    }
}

proof fn lemma_parse_overflow(d: Seq<char>, i: int, v: nat)
    requires
        0 <= i < d.len(),
        forall|k: int| 0 <= k <= i ==> is_digit(#[trigger] d[k]),
        v == digits_value(d.take(i + 1)),
        v > usize::MAX,
    ensures
        !(d.len() > 0 && all_digits(d) && digits_value(d) <= usize::MAX),
{
    if all_digits(d) {
        lemma_digits_value_mono(d, i + 1, d.len() as int);
        assert(d.take(d.len() as int) =~= d);
    }
}

/// `str::parse::<usize>` on the characters of `s`.
pub fn parse_usize(s: &Vec<char>) -> (r: Option<usize>)
    ensures
        match r {
            Some(n) => parse_usize_spec(s@) == Some(n as nat),
            None => parse_usize_spec(s@) is None,
        },
{
    let start: usize = if s.len() > 0 && s[0] == '+' {
        1
    } else {
        0
    };
    let ghost d = unsigned_digits(s@);
    assert(d =~= s@.skip(start as int));
    if start >= s.len() {
        return None;
    }
    let mut val: usize = 0;
    let mut i: usize = start;
    assert(d.take(0) =~= seq![]);
    while i < s.len()
        invariant
            start <= i <= s.len(),
            start < s.len(),
            d =~= s@.skip(start as int),
            d == unsigned_digits(s@),
            forall|k: int| 0 <= k < i - start ==> is_digit(#[trigger] d[k]),
            val as nat == digits_value(d.take(i - start)),
        decreases s.len() - i,
    {
        let c = s[i];
        assert(d[i - start] == c);
        if !('0' <= c && c <= '9') {
            assert(!is_digit(d[i - start]));
            assert(!all_digits(d));
            return None;
        }
        let digit: usize = ((c as u32) - ('0' as u32)) as usize;
        assert(d.take(i - start + 1).drop_last() =~= d.take(i - start));
        let m = match val.checked_mul(10) {
            Some(m) => m,
            None => {
                proof {
                    lemma_parse_overflow(d, (i - start) as int, val as nat * 10 + digit as nat);
                }
                return None;
            },
        };
        let v2 = match m.checked_add(digit) {
            Some(v2) => v2,
            None => {
                proof {
                    lemma_parse_overflow(d, (i - start) as int, m as nat + digit as nat);
                }
                return None;
            },
        };
        val = v2;
        i += 1;
    }
    assert(d.take(i - start) =~= d);
    Some(val)
}

/// `str::replace`: every non-overlapping occurrence of `p`, left to
/// right, replaced by `r`.
pub fn replace_str(s: &str, p: &str, r: &str) -> (out: String)
    requires
        p@.len() > 0,
    ensures
        out@ == replace_all(s@, p@, r@),
{
    let sv = chars_of(s);
    let pv = chars_of(p);
    let rv = chars_of(r);
    string_of(&replace_chars(&sv, &pv, &rv))
}

} // verus!
