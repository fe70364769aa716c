//! Path arithmetic on plain strings (Unix separators).

use vstd::prelude::*;

use crate::text::{chars_of, chars_eq_str, extend_chars, extend_str, join, join_chars, string_of, views};

verus! {

/// The final component of `p` as `std::path::Path::file_name` reports it.
pub uninterp spec fn path_file_name(p: Seq<char>) -> Option<Seq<char>>;

/// `p` without its final component as `std::path::Path::parent` reports it.
pub uninterp spec fn path_parent(p: Seq<char>) -> Option<Seq<char>>;

/// `std::path::Path::file_name`, converted to an owned string. The
/// contract names the component (a function of the path text alone) and
/// states what the documentation says of it: the final component when it
/// is a normal one, none when the path ends in `..`, is a root or `.`, or
/// is empty.
#[verifier::external_body]
pub(crate) fn file_name_of(p: &str) -> (r: Option<String>)
    ensures
        match r {
            Some(n) => path_file_name(p@) == Some(n@),
            None => path_file_name(p@) is None,
        },
        r is Some <==> (path_components(p@).len() > 0 && path_components(p@).last() != ".."@
            && path_components(p@).last() != "."@),
        r matches Some(n) ==> n@ == path_components(p@).last(),
{
    match std::path::Path::new(p).file_name() {
        Some(n) => Some(n.to_string_lossy().to_string()),
        None => None,
    }
}

/// `std::path::Path::parent`, converted to an owned string. The contract
/// names the parent, a function of the path text alone, and claims what
/// the documentation says of it: the path without its final component
/// (so strictly shorter, rooted as the path is), and none for a root or
/// an empty path.
#[verifier::external_body]
pub(crate) fn parent_of(p: &str) -> (r: Option<String>)
    ensures
        match r {
            Some(n) => path_parent(p@) == Some(n@) && n@.len() < p@.len(),
            None => path_parent(p@) is None,
        },
        r is Some <==> path_components(p@).len() > 0,
        r matches Some(n) ==> path_components(n@) == path_components(p@).drop_last() && is_rooted(n@)
            == is_rooted(p@),
{
    match std::path::Path::new(p).parent() {
        Some(n) => Some(n.to_string_lossy().to_string()),
        None => None,
    }
}

/// `base.join(rel)` for Unix paths: an absolute `rel` replaces `base`;
/// otherwise `rel` is appended after a `/` unless `base` is empty or
/// already ends in one.
pub open spec fn path_join(base: Seq<char>, rel: Seq<char>) -> Seq<char> {
    if rel.len() > 0 && rel[0] == '/' {
        rel
    } else if base.len() == 0 || base.last() == '/' {
        base + rel
    } else {
        base + seq!['/'] + rel
    }
}

/// Executable `path_join`.
pub fn join_path(base: &str, rel: &str) -> (r: String)
    ensures
        r@ == path_join(base@, rel@),
{
    let b = chars_of(base);
    let r = chars_of(rel);
    if r.len() > 0 && r[0] == '/' {
        return string_of(&r);
    }
    let mut out = b;
    if out.len() > 0 && out[out.len() - 1] != '/' {
        out.push('/');
    }
    extend_chars(&mut out, &r);
    assert(out@ =~= path_join(base@, rel@));
    string_of(&out)
}

/// The final component of `p`, or the empty string when there is none.
pub open spec fn basename_or_empty(p: Seq<char>) -> Seq<char> {
    match path_file_name(p) {
        Some(n) => n,
        None => seq![],
    }
}

/// The final component of `p`, or the empty string when there is none.
pub fn basename_or_empty_of(p: &str) -> (r: String)
    ensures
        r@ == basename_or_empty(p@),
{
    match file_name_of(p) {
        Some(n) => n,
        None => String::new(),
    }
}

/// The grandparent of `p` (`<p>/../..` by pure path arithmetic).
pub open spec fn grandparent(p: Seq<char>) -> Option<Seq<char>> {
    match path_parent(p) {
        Some(q) => path_parent(q),
        None => None,
    }
}

/// Executable `grandparent`.
pub fn grandparent_of(p: &str) -> (r: Option<String>)
    ensures
        match r {
            Some(g) => grandparent(p@) == Some(g@),
            None => grandparent(p@) is None,
        },
{
    match parent_of(p) {
        Some(q) => parent_of(q.as_str()),
        None => None,
    }
}


/// A finished segment of a path, added to the components read so far:
/// empty segments (repeated or trailing `/`) are dropped, and so is `.`
/// unless it opens a relative path.
pub open spec fn flush_segment(parts: Seq<Seq<char>>, seg: Seq<char>, opening: bool) -> Seq<Seq<char>> {
    if seg.len() == 0 {
        parts
    } else if seg == "."@ && !opening {
        parts
    } else {
        parts.push(seg)
    }
}

/// Reading `s` (a path without its root `/`) left to right: the
/// components so far, the segment being read, and whether that segment
/// opens a relative path.
pub open spec fn segment_scan(s: Seq<char>, rooted: bool) -> (Seq<Seq<char>>, Seq<char>, bool)
    decreases s.len(),
{
    if s.len() == 0 {
        (seq![], seq![], !rooted)
    } else {
        let st = segment_scan(s.drop_last(), rooted);
        if s.last() == '/' {
            (flush_segment(st.0, st.1, st.2), seq![], false)
        } else {
            (st.0, st.1.push(s.last()), st.2)
        }
    }
}

pub open spec fn is_rooted(p: Seq<char>) -> bool {
    p.len() > 0 && p[0] == '/'
}

/// The components of a Unix path as `std::path::Path::components` reads
/// them after the root: separators repeated or trailing are ignored, and
/// `.` is kept only as the first component of a relative path.
pub open spec fn path_components(p: Seq<char>) -> Seq<Seq<char>> {
    let body = if is_rooted(p) {
        p.skip(1)
    } else {
        p
    };
    let st = segment_scan(body, is_rooted(p));
    flush_segment(st.0, st.1, st.2)
}

/// The text of a path with its components rejoined by single `/`: two
/// paths have the same key exactly when `std::path::Path` compares them
/// equal.
pub open spec fn path_key(p: Seq<char>) -> Seq<char> {
    if is_rooted(p) {
        "/"@ + join(path_components(p), "/"@)
    } else {
        join(path_components(p), "/"@)
    }
}

fn flush_segment_exec(parts: &mut Vec<Vec<char>>, seg: Vec<char>, opening: bool)
    ensures
        views(final(parts)@) == flush_segment(views(old(parts)@), seg@, opening),
{
    if seg.len() == 0 {
        return;
    }
    if chars_eq_str(&seg, ".") && !opening {
        return;
    }
    let ghost before = views(parts@);
    parts.push(seg);
    proof {
        assert(views(parts@) =~= before.push(seg@));
    }
}

/// `path_key`, computed.
pub fn normalized_path(p: &str) -> (r: String)
    ensures
        r@ == path_key(p@),
{
    let v = chars_of(p);
    let rooted = v.len() > 0 && v[0] == '/';
    let start: usize = if rooted {
        1
    } else {
        0
    };
    let ghost body = if is_rooted(p@) {
        p@.skip(1)
    } else {
        p@
    };
    let mut parts: Vec<Vec<char>> = Vec::new();
    let mut seg: Vec<char> = Vec::new();
    let mut opening = !rooted;
    let mut i: usize = start;
    assert(body.take(0) =~= Seq::<char>::empty());
    assert(views(parts@) =~= Seq::<Seq<char>>::empty());
    while i < v.len()
        invariant
            start <= i <= v.len(),
            v@ == p@,
            rooted == is_rooted(p@),
            start == (if rooted { 1usize } else { 0usize }),
            body == v@.skip(start as int),
            segment_scan(body.take(i - start), rooted) == (views(parts@), seg@, opening),
        decreases v.len() - i,
    {
        let c = v[i];
        proof {
            assert(body.take(i + 1 - start).drop_last() =~= body.take(i - start));
            assert(body.take(i + 1 - start).last() == c);
        }
        if c == '/' {
            let s2 = seg;
            seg = Vec::new();
            flush_segment_exec(&mut parts, s2, opening);
            opening = false;
        } else {
            seg.push(c);
        }
        i += 1;
    }
    assert(body.take(v.len() - start) =~= body);
    flush_segment_exec(&mut parts, seg, opening);
    let joined = join_chars(&parts, "/");
    let mut out: Vec<char> = Vec::new();
    if rooted {
        extend_str(&mut out, "/");
    }
    extend_chars(&mut out, &joined);
    proof {
        if rooted {
            assert(out@ =~= "/"@ + joined@);
        } else {
            assert(out@ =~= joined@);
        }
    }
    string_of(&out)
}

} // verus!
