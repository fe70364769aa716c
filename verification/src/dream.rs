//! When the dream phase is due: memory grew beyond its baseline word
//! count plus the configured headroom.

use vstd::prelude::*;

use crate::fs_probe::path_exists;
use crate::paths::{join_path, parent_of, path_join, path_parent};
use crate::order::views_of;
use crate::text::{
    lemma_parse_decimal, chars_of, clone_string, owned, decimal, extend_str, parse_usize, parse_usize_spec, push_decimal, split_whitespace, string_of,
    trim, trim_chars, words,
};

verus! {

/// The number of whitespace-separated words.
pub open spec fn word_count(text: Seq<char>) -> nat {
    words(text).len()
}

pub fn count_words(text: &str) -> (n: usize)
    ensures
        n == word_count(text@),
{
    let v = chars_of(text);
    let ws = split_whitespace(&v);
    ws.len()
}

/// Whether memory (its text, when readable) has grown beyond the stored
/// baseline (its text, when readable and a number) plus `headroom` words.
pub open spec fn dream_due(memory: Option<Seq<char>>, baseline: Option<Seq<char>>, headroom: nat) -> bool {
    match (memory, baseline) {
        (Some(m), Some(b)) => match parse_usize_spec(trim(b)) {
            Some(base) => word_count(m) > base + headroom,
            None => false,
        },
        _ => false,
    }
}

pub fn should_dream(memory: Option<&str>, baseline: Option<&str>, headroom: usize) -> (r: bool)
    ensures
        r == dream_due(
            match memory {
                Some(m) => Some(m@),
                None => None,
            },
            match baseline {
                Some(b) => Some(b@),
                None => None,
            },
            headroom as nat,
        ),
{
    let m = match memory {
        Some(m) => m,
        None => return false,
    };
    let b = match baseline {
        Some(b) => b,
        None => return false,
    };
    let bv = chars_of(b);
    let t = trim_chars(&bv);
    let base = match parse_usize(&t) {
        Some(n) => n,
        None => return false,
    };
    let count = count_words(m);
    match base.checked_add(headroom) {
        Some(limit) => count > limit,
        None => false,
    }
}

/// A dream is due exactly when the stored baseline reads as a number and
/// the memory has more whitespace-separated words than that number plus
/// the headroom; without memory or baseline text it is never due.
pub proof fn dream_due_beyond_baseline_plus_headroom(memory: Option<Seq<char>>, baseline: Option<Seq<char>>, headroom: nat)
    ensures
        dream_due(memory, baseline, headroom) <==> (memory matches Some(m) && baseline matches Some(b)
            && parse_usize_spec(trim(b)) matches Some(base) && words(m).len() > base + headroom),
{
}

/// Raising the stored baseline (or the headroom) never brings a dream
/// forward: what is due against a larger limit is due against a smaller.
pub proof fn larger_limit_never_brings_dream_forward(m: Seq<char>, b1: Seq<char>, b2: Seq<char>, h1: nat, h2: nat)
    requires
        parse_usize_spec(trim(b1)) is Some,
        parse_usize_spec(trim(b2)) is Some,
        parse_usize_spec(trim(b1))->0 + h1 <= parse_usize_spec(trim(b2))->0 + h2,
    ensures
        dream_due(Some(m), Some(b2), h2) ==> dream_due(Some(m), Some(b1), h1),
        dream_due(Some(m), Some(b2), h2) ==> words(m).len() > parse_usize_spec(trim(b2))->0,
{
}

/// Right after the baseline is reset to the memory's word count (the text
/// `dream_baseline_text` writes), no dream is due on that memory, whatever
/// the headroom; one becomes due once the memory grows past the count
/// plus the headroom.
pub proof fn no_dream_due_right_after_baseline_reset(m: Seq<char>, grown: Seq<char>, headroom: nat)
    requires
        word_count(m) <= usize::MAX,
    ensures
        !dream_due(Some(m), Some(decimal(word_count(m))), headroom),
        dream_due(Some(grown), Some(decimal(word_count(m))), headroom) <==> words(grown).len() > words(m).len()
            + headroom,
{
    lemma_parse_decimal(word_count(m));
}

/// The new baseline text: the memory's word count.
pub fn dream_baseline_text(memory: &str) -> (r: String)
    ensures
        r@ == decimal(word_count(memory@)),
{
    let n = count_words(memory);
    let mut v: Vec<char> = Vec::new();
    push_decimal(&mut v, n as u64);
    string_of(&v)
}

/// The directories from `p` up to the filesystem root: `p`, then each
/// parent that `Path::parent` gives, for as long as it gives one.
pub open spec fn ancestor_chain(p: Seq<char>) -> Seq<Seq<char>>
    decreases p.len(),
{
    match path_parent(p) {
        Some(q) => if q.len() < p.len() {
            seq![p] + ancestor_chain(q)
        } else {
            seq![p]
        },
        None => seq![p],
    }
}

/// `start` and its ancestors, nearest first.
pub fn ancestors_of(start: &str) -> (r: Vec<String>)
    ensures
        views_of(r@) == ancestor_chain(start@),
{
    let mut out: Vec<String> = Vec::new();
    let mut dir = owned(start);
    assert(views_of(out@) + ancestor_chain(dir@) =~= ancestor_chain(start@));
    loop
        invariant
            views_of(out@) + ancestor_chain(dir@) == ancestor_chain(start@),
        decreases dir@.len(),
    {
        let ghost d = dir@;
        let ghost before = views_of(out@);
        match parent_of(dir.as_str()) {
            Some(p) => {
                out.push(dir);
                proof {
                    assert(ancestor_chain(d) == seq![d] + ancestor_chain(p@));
                    assert(views_of(out@) =~= before.push(d));
                    assert(views_of(out@) + ancestor_chain(p@) =~= before + (seq![d] + ancestor_chain(p@)));
                }
                dir = p;
            },
            None => {
                out.push(dir);
                proof {
                    assert(ancestor_chain(d) == seq![d]);
                    assert(views_of(out@) =~= before.push(d));
                    assert(views_of(out@) =~= before + ancestor_chain(d));
                }
                return out;
            },
        }
    }
}

/// `<dir>/.git`: the entry whose presence marks a project root.
pub fn git_marker(dir: &str) -> (r: String)
    ensures
        r@ == path_join(dir@, ".git"@),
{
    join_path(dir, ".git")
}

/// `i` is the first position of `answers` (and of a chain of `n`
/// directories) whose answer is yes.
pub open spec fn is_first_yes(answers: Seq<bool>, n: int, i: int) -> bool {
    &&& 0 <= i < n
    &&& i < answers.len()
    &&& answers[i]
    &&& forall|j: int| 0 <= j < i ==> !answers[j]
}

/// The first directory of `chain` whose answer in `answers` (taken
/// position by position) is yes; none when every answer given is no.
pub open spec fn nearest_marked_spec(chain: Seq<Seq<char>>, answers: Seq<bool>) -> Option<Seq<char>> {
    if exists|i: int| is_first_yes(answers, chain.len() as int, i) {
        Some(chain[choose|i: int| is_first_yes(answers, chain.len() as int, i)])
    } else {
        None
    }
}

pub proof fn lemma_nearest_marked_is(chain: Seq<Seq<char>>, answers: Seq<bool>, i: int)
    requires
        is_first_yes(answers, chain.len() as int, i),
    ensures
        nearest_marked_spec(chain, answers) == Some(chain[i]),
{
    let c = choose|k: int| is_first_yes(answers, chain.len() as int, k);
    assert(is_first_yes(answers, chain.len() as int, c));
    if c < i {
        assert(!answers[c]);
    } else if i < c {
        assert(!answers[i]);
    }
}

/// Answers that were never given count as no: appending no-answers
/// changes nothing.
pub proof fn lemma_nearest_marked_pad(chain: Seq<Seq<char>>, answers: Seq<bool>, pad: Seq<bool>)
    requires
        forall|k: int| 0 <= k < pad.len() ==> !pad[k],
    ensures
        nearest_marked_spec(chain, answers + pad) == nearest_marked_spec(chain, answers),
{
    let n = chain.len() as int;
    let ap = answers + pad;
    if exists|i: int| is_first_yes(answers, n, i) {
        let i = choose|i: int| is_first_yes(answers, n, i);
        assert(is_first_yes(ap, n, i));
        lemma_nearest_marked_is(chain, answers, i);
        lemma_nearest_marked_is(chain, ap, i);
    } else if exists|i: int| is_first_yes(ap, n, i) {
        let i = choose|i: int| is_first_yes(ap, n, i);
        if i >= answers.len() {
            assert(!pad[i - answers.len()]);
            assert(ap[i] == pad[i - answers.len()]);
        } else {
            assert forall|j: int| 0 <= j < i implies !answers[j] by {
                assert(ap[j] == answers[j]);
            }
            assert(is_first_yes(answers, n, i));
        }
    }
}

/// The nearest directory of `chain` (nearest first) whose probe answered
/// yes, given the answers in the same order.
pub fn nearest_marked(chain: &Vec<String>, answers: &Vec<bool>) -> (r: Option<String>)
    ensures
        match nearest_marked_spec(views_of(chain@), answers@) {
            Some(d) => r matches Some(x) && x@ == d,
            None => r is None,
        },
{
    let ghost cv = views_of(chain@);
    let mut i: usize = 0;
    while i < chain.len() && i < answers.len()
        invariant
            i <= chain.len(),
            i <= answers.len(),
            cv == views_of(chain@),
            forall|j: int| 0 <= j < i ==> !answers@[j],
        decreases chain.len() - i,
    {
        if answers[i] {
            proof {
                assert(is_first_yes(answers@, cv.len() as int, i as int));
                lemma_nearest_marked_is(cv, answers@, i as int);
            }
            return Some(clone_string(&chain[i]));
        }
        i += 1;
    }
    proof {
        if exists|k: int| is_first_yes(answers@, cv.len() as int, k) {
            let k = choose|k: int| is_first_yes(answers@, cv.len() as int, k);
            if k < i {
                assert(!answers@[k]);
            }
        }
    }
    None
}

/// Ask, from the nearest directory up, whether each holds a `.git` entry,
/// stopping at the first that does.
fn probe_markers(chain: &Vec<String>) -> (a: Vec<bool>)
    ensures
        a.len() <= chain.len(),
{
    let mut a: Vec<bool> = Vec::new();
    let mut i: usize = 0;
    while i < chain.len()
        invariant
            i <= chain.len(),
            a.len() == i,
        decreases chain.len() - i,
    {
        let marker = git_marker(chain[i].as_str());
        let found = path_exists(marker.as_str());
        a.push(found);
        if found {
            return a;
        }
        i += 1;
    }
    a
}

/// `n` answers of no.
pub open spec fn all_no(n: nat) -> Seq<bool> {
    Seq::new(n, |k: int| false)
}

/// The nearest of `start` and its ancestors that holds a `.git` entry.
/// Which one that is depends on the disk: the result is what
/// `nearest_marked_spec` gives for some answer to each directory's probe.
pub fn marked_ancestor(start: &str) -> (r: Option<String>)
    ensures
        exists|answers: Seq<bool>|
            #![trigger nearest_marked_spec(ancestor_chain(start@), answers)]
            answers.len() == ancestor_chain(start@).len() && match nearest_marked_spec(
                ancestor_chain(start@),
                answers,
            ) {
                Some(d) => r matches Some(x) && x@ == d,
                None => r is None,
            },
{
    let chain = ancestors_of(start);
    let answers = probe_markers(&chain);
    let r = nearest_marked(&chain, &answers);
    proof {
        let pad = all_no((chain.len() - answers.len()) as nat);
        lemma_nearest_marked_pad(views_of(chain@), answers@, pad);
        let full = answers@ + pad;
        assert(full.len() == ancestor_chain(start@).len());
        assert(nearest_marked_spec(ancestor_chain(start@), full) == nearest_marked_spec(views_of(chain@), answers@));
    }
    r
}

/// The text of the error when no directory above `start_dir` holds `.git`.
pub open spec fn no_git_text(start_dir: Seq<char>) -> Seq<char> {
    "No .git found above "@ + start_dir
}

/// Where the walk for a project root starts: the canonical start when it
/// could be had, else the start as given.
pub open spec fn walk_start(start_dir: &str, canonical: Option<&str>) -> Seq<char> {
    match canonical {
        Some(c) => c@,
        None => start_dir@,
    }
}

/// The project root above `start_dir`: the nearest of the canonical start
/// (`canonical`, or `start_dir` itself when it could not be had) and its
/// ancestors that holds a `.git` entry. Which directory holds one depends
/// on the disk; the result is what `nearest_marked_spec` gives for some
/// answer to each directory's probe, and the error names `start_dir`.
pub fn find_project_root(start_dir: &str, canonical: Option<&str>) -> (r: Result<String, String>)
    ensures
        exists|answers: Seq<bool>|
            #![trigger nearest_marked_spec(ancestor_chain(walk_start(start_dir, canonical)), answers)]
            answers.len() == ancestor_chain(walk_start(start_dir, canonical)).len() && match nearest_marked_spec(
                ancestor_chain(walk_start(start_dir, canonical)),
                answers,
            ) {
                Some(d) => r matches Ok(x) && x@ == d,
                None => r matches Err(e) && e@ == no_git_text(start_dir@),
            },
{
    let start = match canonical {
        Some(c) => c,
        None => start_dir,
    };
    let found = marked_ancestor(start);
    let ghost ch = ancestor_chain(start@);
    let ghost ans = choose|answers: Seq<bool>|
        #![trigger nearest_marked_spec(ch, answers)]
        answers.len() == ch.len() && match nearest_marked_spec(ch, answers) {
            Some(d) => found matches Some(x) && x@ == d,
            None => found is None,
        };
    let r = match found {
        Some(d) => Ok(d),
        None => {
            let mut v: Vec<char> = Vec::new();
            extend_str(&mut v, "No .git found above ");
            extend_str(&mut v, start_dir);
            Err(string_of(&v))
        },
    };
    assert(ans.len() == ch.len() && match nearest_marked_spec(ch, ans) {
        Some(d) => r matches Ok(x) && x@ == d,
        None => r matches Err(e) && e@ == no_git_text(start_dir@),
    });
    assert(ch == ancestor_chain(walk_start(start_dir, canonical)));
    r
}

} // verus!
