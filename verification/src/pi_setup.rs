//! Preparing a project for the pi agent: whether its subagent extension
//! is installed, and the subagent definitions deployed into the project
//! (front matter normalised, body kept). Running `pi install` and writing
//! the files belong to the binary.

use vstd::prelude::*;

use crate::json::{get, jget, json_of, parse_json, JsonValue};
use crate::regex_support::{opt_strs, regex_captures, regex_captures_of, regex_compiles};
use crate::text::{
    chars_of, clone_string, contains, contains_str, ends_with, ends_with_str, extend_chars, extend_str, join,
    join_chars, lines, lines_of, matches_at, owned, string_of, views,
};

verus! {

/// The package that provides pi's subagent support.
pub const SUBAGENT_PACKAGE: &'static str = "npm:@mjakl/pi-subagent";

/// Whether one entry of `packages` names the subagent extension.
pub open spec fn names_extension(v: JsonValue) -> bool {
    match v {
        JsonValue::Str(s) => contains(s@, "pi-subagent"@),
        _ => false,
    }
}

/// Whether pi's settings (when they could be read as JSON) list the
/// subagent extension among their `packages`.
pub open spec fn extension_listed(settings: Option<JsonValue>) -> bool {
    match settings {
        Some(v) => match jget(v, "packages"@) {
            Some(JsonValue::Array(ps)) => exists|i: int| 0 <= i < ps@.len() && names_extension(#[trigger] ps@[i]),
            _ => false,
        },
        None => false,
    }
}

fn extension_installed(settings: Option<&JsonValue>) -> (r: bool)
    ensures
        r == extension_listed(
            match settings {
                Some(v) => Some(*v),
                None => None,
            },
        ),
{
    let v = match settings {
        Some(v) => v,
        None => return false,
    };
    match get(v, "packages") {
        Some(JsonValue::Array(ps)) => {
            let mut i: usize = 0;
            while i < ps.len()
                invariant
                    i <= ps.len(),
                    settings == Some(v),
                    jget(*v, "packages"@) == Some(JsonValue::Array(*ps)),
                    forall|j: int| 0 <= j < i ==> !names_extension(#[trigger] ps@[j]),
                decreases ps.len() - i,
            {
                match &ps[i] {
                    JsonValue::Str(s) => {
                        let sv = chars_of(s.as_str());
                        if contains_str(&sv, "pi-subagent") {
                            assert(names_extension(ps@[i as int]));
                            assert(match jget(*v, "packages"@) {
                                Some(JsonValue::Array(q)) => q@ == ps@,
                                _ => false,
                            });
                            assert(exists|j: int| 0 <= j < ps@.len() && names_extension(#[trigger] ps@[j]));
                            assert(extension_listed(Some(*v)));
                            return true;
                        }
                    },
                    _ => {},
                }
                i += 1;
            }
            false
        },
        _ => false,
    }
}

/// Whether pi's `settings.json` (its text, when the file exists) lists
/// the subagent extension. Text that is not JSON lists nothing: the
/// result is then the parser's message, for a warning.
pub fn extension_installed_in(settings_text: Option<&str>) -> (r: Result<bool, String>)
    ensures
        match settings_text {
            None => r == Ok::<bool, String>(false),
            Some(t) => match json_of(t@) {
                Ok(v) => r == Ok::<bool, String>(extension_listed(Some(v))),
                Err(e) => r matches Err(m) && m@ == e,
            },
        },
{
    match settings_text {
        None => Ok(false),
        Some(t) => match parse_json(t) {
            Ok(v) => Ok(extension_installed(Some(&v))),
            Err(e) => Err(e),
        },
    }
}

/// `s` without every leading repetition of `p`.
pub open spec fn strip_prefixes(s: Seq<char>, p: Seq<char>) -> Seq<char>
    decreases s.len(),
{
    if p.len() > 0 && p.len() <= s.len() && s.subrange(0, p.len() as int) == p {
        strip_prefixes(s.skip(p.len() as int), p)
    } else {
        s
    }
}

/// The file name a subagent definition is deployed under: its path with
/// the directory prefix stripped, when it is a Markdown file.
pub open spec fn subagent_file(rel_path: Seq<char>, prefix: Seq<char>) -> Option<Seq<char>> {
    let f = strip_prefixes(rel_path, prefix);
    if ends_with(f, ".md"@) {
        Some(f)
    } else {
        None
    }
}

pub fn subagent_file_name(rel_path: &str, prefix: &str) -> (r: Option<String>)
    ensures
        match subagent_file(rel_path@, prefix@) {
            Some(f) => r matches Some(x) && x@ == f,
            None => r is None,
        },
{
    let v = chars_of(rel_path);
    let p = chars_of(prefix);
    let mut start: usize = 0;
    assert(v@.skip(0) =~= v@);
    while p.len() > 0 && p.len() <= v.len() - start && crate::text::matches_at_exec(&v, &p, start)
        invariant
            start <= v.len(),
            strip_prefixes(v@, p@) == strip_prefixes(v@.skip(start as int), p@),
        decreases v.len() - start,
    {
        let ghost rest = v@.skip(start as int);
        assert(matches_at(v@, p@, start as int));
        assert(rest.subrange(0, p@.len() as int) =~= v@.subrange(start as int, start + p@.len()));
        assert(rest.skip(p@.len() as int) =~= v@.skip(start + p.len()));
        start = start + p.len();
    }
    let f = crate::text::slice_chars(&v, start, v.len());
    assert(f@ =~= v@.skip(start as int));
    proof {
        let rest = v@.skip(start as int);
        if p@.len() > 0 && p@.len() <= rest.len() && rest.subrange(0, p@.len() as int) == p@ {
            assert(v@.subrange(start as int, start + p@.len()) =~= rest.subrange(0, p@.len() as int));
            assert(matches_at(v@, p@, start as int));
        }
    }
    if ends_with_str(&f, ".md") {
        Some(string_of(&f))
    } else {
        None
    }
}

/// `---\n<front matter>\n---\n<body>` (the body may span lines).
pub const FRONTMATTER_PATTERN: &'static str = "(?s)^---\\n(.*?)\\n---\\n(.*)$";

/// The front matter and body of a definition, as the pattern splits it.
pub open spec fn frontmatter_split(raw: Seq<char>) -> Option<(Seq<char>, Seq<char>)> {
    if regex_compiles(FRONTMATTER_PATTERN@) {
        match regex_captures(FRONTMATTER_PATTERN@, raw) {
            Some(gs) => if gs.len() > 2 && gs[1] is Some && gs[2] is Some {
                Some((gs[1]->0, gs[2]->0))
            } else {
                None
            },
            None => None,
        }
    } else {
        None
    }
}

pub fn split_frontmatter(raw: &str) -> (r: Option<(String, String)>)
    ensures
        match frontmatter_split(raw@) {
            Some((f, b)) => r matches Some((x, y)) && x@ == f && y@ == b,
            None => r is None,
        },
{
    match regex_captures_of(FRONTMATTER_PATTERN, raw) {
        Some(Some(gs)) => {
            if gs.len() > 2 {
                match (&gs[1], &gs[2]) {
                    (Some(f), Some(b)) => Some((clone_string(f), clone_string(b))),
                    _ => None,
                }
            } else {
                None
            }
        },
        _ => None,
    }
}

/// The front matter of a subagent definition.
#[derive(Debug, Clone)]
pub struct SkillFrontmatter {
    pub name: String,
    pub description: String,
    pub tools: Option<Vec<String>>,
    pub model: Option<String>,
    pub thinking: Option<String>,
}

pub open spec fn strs(v: Seq<String>) -> Seq<Seq<char>> {
    v.map_values(|s: String| s@)
}

/// The deployed definition: normalised front matter, a blank line, the body.
pub open spec fn subagent_text(fm: SkillFrontmatter, body: Seq<char>) -> Seq<char> {
    "---\nname: "@ + fm.name@ + "\ndescription: "@ + fm.description@ + "\n"@ + match fm.tools {
        Some(ts) => "tools: "@ + join(strs(ts@), ", "@) + "\n"@,
        None => seq![],
    } + match fm.model {
        Some(m) => "model: "@ + m@ + "\n"@,
        None => seq![],
    } + match fm.thinking {
        Some(t) => "thinking: "@ + t@ + "\n"@,
        None => seq![],
    } + "---\n\n"@ + body
}

pub fn render_subagent(fm: &SkillFrontmatter, body: &str) -> (r: String)
    ensures
        r@ == subagent_text(*fm, body@),
{
    let mut v: Vec<char> = Vec::new();
    extend_str(&mut v, "---\nname: ");
    extend_str(&mut v, fm.name.as_str());
    extend_str(&mut v, "\ndescription: ");
    extend_str(&mut v, fm.description.as_str());
    extend_str(&mut v, "\n");
    let ghost a = v@;
    match &fm.tools {
        Some(ts) => {
            extend_str(&mut v, "tools: ");
            let mut parts: Vec<Vec<char>> = Vec::new();
            let mut i: usize = 0;
            while i < ts.len()
                invariant
                    i <= ts.len(),
                    views(parts@) == strs(ts@.take(i as int)),
                decreases ts.len() - i,
            {
                let ghost before = parts@;
                parts.push(chars_of(ts[i].as_str()));
                assert(views(parts@) =~= views(before).push(ts@[i as int]@));
                assert(strs(ts@.take(i + 1)) =~= strs(ts@.take(i as int)).push(ts@[i as int]@));
                i += 1;
            }
            assert(ts@.take(i as int) =~= ts@);
            let j = join_chars(&parts, ", ");
            extend_chars(&mut v, &j);
            extend_str(&mut v, "\n");
        },
        None => {},
    }
    match &fm.model {
        Some(m) => {
            extend_str(&mut v, "model: ");
            extend_str(&mut v, m.as_str());
            extend_str(&mut v, "\n");
        },
        None => {},
    }
    match &fm.thinking {
        Some(t) => {
            extend_str(&mut v, "thinking: ");
            extend_str(&mut v, t.as_str());
            extend_str(&mut v, "\n");
        },
        None => {},
    }
    extend_str(&mut v, "---\n\n");
    extend_str(&mut v, body);
    assert(v@ =~= subagent_text(*fm, body@));
    string_of(&v)
}

/// Every line of `body` indented by four spaces, joined by newlines.
pub open spec fn indented(body: Seq<char>) -> Seq<char> {
    join(lines(body).map_values(|l: Seq<char>| "    "@ + l), "\n"@)
}

pub fn indent_block(body: &str) -> (r: String)
    ensures
        r@ == indented(body@),
{
    let bv = chars_of(body);
    let ls = lines_of(&bv);
    let ghost lv = views(ls@);
    let mut parts: Vec<Vec<char>> = Vec::new();
    let mut i: usize = 0;
    while i < ls.len()
        invariant
            i <= ls.len(),
            lv == views(ls@),
            views(parts@) == lv.take(i as int).map_values(|l: Seq<char>| "    "@ + l),
        decreases ls.len() - i,
    {
        let mut l: Vec<char> = Vec::new();
        extend_str(&mut l, "    ");
        extend_chars(&mut l, &ls[i]);
        let ghost before = parts@;
        parts.push(l);
        assert(views(parts@) =~= views(before).push("    "@ + lv[i as int]));
        assert(lv.take(i + 1).map_values(|l: Seq<char>| "    "@ + l) =~= lv.take(i as int).map_values(
            |l: Seq<char>| "    "@ + l,
        ).push("    "@ + lv[i as int]));
        i += 1;
    }
    assert(lv.take(i as int) =~= lv);
    let j = join_chars(&parts, "\n");
    string_of(&j)
}

} // verus!
