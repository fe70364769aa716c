//! Per-user projects catalog: `<config_root>/projects.yaml`.
//!
//! Maps project names to absolute paths. Shared edge lists reference
//! projects by name; this catalog is the per-user name → path resolver.
//! The catalog keeps names unique and paths unique; every operation here
//! keeps that so. Reading, parsing and the atomic write belong to the
//! binary.

use vstd::prelude::*;

use crate::paths::{file_name_of, normalized_path, path_file_name, path_key};
use crate::text::{clone_string, decimal, extend_str, owned, push_decimal, str_eq, string_of, trim, trim_str};

verus! {

pub const CATALOG_FILE: &'static str = "projects.yaml";

/// Only schema version in circulation; bump when the on-disk shape
/// changes incompatibly.
pub const SCHEMA_VERSION: u32 = 1;

#[derive(Debug, Clone, PartialEq, Eq)]
pub struct ProjectEntry {
    pub name: String,
    pub path: String,
}

#[derive(Debug, Clone, PartialEq, Eq)]
pub struct ProjectsCatalog {
    pub schema_version: u32,
    pub projects: Vec<ProjectEntry>,
}

impl Default for ProjectsCatalog {
    fn default() -> (c: ProjectsCatalog)
        ensures
            c.schema_version == SCHEMA_VERSION,
            c.projects@.len() == 0,
    {
        ProjectsCatalog { schema_version: SCHEMA_VERSION, projects: Vec::new() }
    }
}

/// The catalog's entries as (name, path) pairs.
pub open spec fn entries(ps: Seq<ProjectEntry>) -> Seq<(Seq<char>, Seq<char>)> {
    ps.map_values(|e: ProjectEntry| (e.name@, e.path@))
}

pub open spec fn names_of(es: Seq<(Seq<char>, Seq<char>)>) -> Seq<Seq<char>> {
    es.map_values(|e: (Seq<char>, Seq<char>)| e.0)
}

/// The entries' paths, each by `path_key`: entries are found by path as
/// `std::path::Path` compares paths, ignoring repeated or trailing
/// separators and `.` components.
pub open spec fn paths_of(es: Seq<(Seq<char>, Seq<char>)>) -> Seq<Seq<char>> {
    es.map_values(|e: (Seq<char>, Seq<char>)| path_key(e.1))
}

/// `i` is the first position of `k` in `keys`.
pub open spec fn is_first(keys: Seq<Seq<char>>, k: Seq<char>, i: int) -> bool {
    &&& 0 <= i < keys.len()
    &&& keys[i] == k
    &&& forall|j: int| 0 <= j < i ==> keys[j] != k
}

/// The first position of `k` in `keys`, if any.
pub open spec fn first_index(keys: Seq<Seq<char>>, k: Seq<char>) -> Option<int> {
    if exists|i: int| is_first(keys, k, i) {
        Some(choose|i: int| is_first(keys, k, i))
    } else {
        None
    }
}

pub proof fn lemma_first_index_is(keys: Seq<Seq<char>>, k: Seq<char>, i: int)
    requires
        is_first(keys, k, i),
    ensures
        first_index(keys, k) == Some(i),
{
    let c = choose|j: int| is_first(keys, k, j);
    assert(is_first(keys, k, c));
    if c < i {
        assert(keys[c] != k);
    } else if i < c {
        assert(keys[i] != k);
    }
}

pub proof fn lemma_first_index_some_contains(keys: Seq<Seq<char>>, k: Seq<char>)
    requires
        keys.contains(k),
    ensures
        first_index(keys, k) is Some,
    decreases keys.len(),
{
    if keys.last() == k && !keys.drop_last().contains(k) {
        let i = keys.len() - 1;
        assert forall|j: int| 0 <= j < i implies keys[j] != k by {
            assert(keys.drop_last()[j] == keys[j]);
        }
        assert(is_first(keys, k, i));
    } else {
        let d = keys.drop_last();
        if keys.last() != k {
            let w = choose|w: int| 0 <= w < keys.len() && keys[w] == k;
            assert(w < keys.len() - 1);
            assert(d[w] == k);
        }
        lemma_first_index_some_contains(d, k);
        let i = first_index(d, k)->0;
        assert(is_first(d, k, i));
        assert forall|j: int| 0 <= j < i implies keys[j] != k by {
            assert(keys[j] == d[j]);
        }
        assert(keys[i] == d[i]);
        assert(is_first(keys, k, i));
    }
}

/// No key occurs twice.
pub open spec fn distinct(keys: Seq<Seq<char>>) -> bool {
    forall|i: int, j: int| 0 <= i < j < keys.len() ==> keys[i] != keys[j]
}

/// The catalog's invariant: names are unique and paths are unique.
pub open spec fn catalog_ok(es: Seq<(Seq<char>, Seq<char>)>) -> bool {
    distinct(names_of(es)) && distinct(paths_of(es))
}

/// Position of the first entry named `name`.
fn position_by_name(ps: &Vec<ProjectEntry>, name: &str) -> (r: Option<usize>)
    ensures
        match r {
            Some(i) => first_index(names_of(entries(ps@)), name@) == Some(i as int) && i < ps@.len(),
            None => first_index(names_of(entries(ps@)), name@) is None,
        },
{
    let ghost ks = names_of(entries(ps@));
    let mut i: usize = 0;
    while i < ps.len()
        invariant
            i <= ps.len(),
            ks == names_of(entries(ps@)),
            forall|j: int| 0 <= j < i ==> ks[j] != name@,
        decreases ps.len() - i,
    {
        if str_eq(ps[i].name.as_str(), name) {
            proof {
                assert(is_first(ks, name@, i as int));
                lemma_first_index_is(ks, name@, i as int);
            }
            return Some(i);
        }
        i += 1;
    }
    None
}

/// Position of the first entry at `path`.
fn position_by_path(ps: &Vec<ProjectEntry>, path: &str) -> (r: Option<usize>)
    ensures
        match r {
            Some(i) => first_index(paths_of(entries(ps@)), path_key(path@)) == Some(i as int) && i < ps@.len(),
            None => first_index(paths_of(entries(ps@)), path_key(path@)) is None,
        },
{
    let ghost ks = paths_of(entries(ps@));
    let key = normalized_path(path);
    let mut i: usize = 0;
    while i < ps.len()
        invariant
            i <= ps.len(),
            ks == paths_of(entries(ps@)),
            key@ == path_key(path@),
            forall|j: int| 0 <= j < i ==> ks[j] != key@,
        decreases ps.len() - i,
    {
        let k = normalized_path(ps[i].path.as_str());
        assert(ks[i as int] == k@);
        if str_eq(k.as_str(), key.as_str()) {
            proof {
                assert(is_first(ks, key@, i as int));
                lemma_first_index_is(ks, key@, i as int);
            }
            return Some(i);
        }
        i += 1;
    }
    None
}

impl ProjectsCatalog {
    /// The first entry named `name`.
    pub fn find_by_name(&self, name: &str) -> (r: Option<&ProjectEntry>)
        ensures
            match first_index(names_of(entries(self.projects@)), name@) {
                Some(i) => r matches Some(e) && *e == self.projects@[i],
                None => r is None,
            },
    {
        match position_by_name(&self.projects, name) {
            Some(i) => Some(&self.projects[i]),
            None => None,
        }
    }

    /// The first entry at `path`.
    pub fn find_by_path(&self, path: &str) -> (r: Option<&ProjectEntry>)
        ensures
            match first_index(paths_of(entries(self.projects@)), path_key(path@)) {
                Some(i) => r matches Some(e) && *e == self.projects@[i],
                None => r is None,
            },
    {
        match position_by_path(&self.projects, path) {
            Some(i) => Some(&self.projects[i]),
            None => None,
        }
    }
}

/// Outcome of attempting to add a project by its directory basename. The
/// caller decides what to do on `NameCollision` (typically prompt and
/// retry with `try_add_named`).
#[derive(Debug, PartialEq, Eq)]
pub enum AutoAddOutcome {
    /// The path is already catalogued; `name` is the existing entry.
    AlreadyCatalogued { name: String },
    /// Added to the in-memory catalog under `name`. Caller must persist.
    Added { name: String },
    /// The basename is already used by a different path.
    NameCollision { attempted_name: String, existing_path: String },
}

/// `AutoAddOutcome` with its strings as character sequences.
pub enum AutoAddView {
    AlreadyCatalogued(Seq<char>),
    Added(Seq<char>),
    NameCollision(Seq<char>, Seq<char>),
}

impl View for AutoAddOutcome {
    type V = AutoAddView;

    open spec fn view(&self) -> AutoAddView {
        match self {
            AutoAddOutcome::AlreadyCatalogued { name } => AutoAddView::AlreadyCatalogued(name@),
            AutoAddOutcome::Added { name } => AutoAddView::Added(name@),
            AutoAddOutcome::NameCollision { attempted_name, existing_path } => AutoAddView::NameCollision(
                attempted_name@,
                existing_path@,
            ),
        }
    }
}

/// The error when a path has no basename to use as a name.
pub open spec fn no_basename_text(p: Seq<char>) -> Seq<char> {
    "project path "@ + p + " has no directory basename usable as a project name"@
}

/// A project's directory basename as a name.
pub open spec fn basename_name(p: Seq<char>) -> Result<Seq<char>, Seq<char>> {
    match path_file_name(p) {
        Some(n) => Ok(n),
        None => Err(no_basename_text(p)),
    }
}

fn basename_as_name(project_path: &str) -> (r: Result<String, String>)
    ensures
        match r {
            Ok(n) => basename_name(project_path@) == Ok::<Seq<char>, Seq<char>>(n@),
            Err(e) => basename_name(project_path@) == Err::<Seq<char>, Seq<char>>(e@),
        },
{
    match file_name_of(project_path) {
        Some(n) => Ok(n),
        None => {
            let mut v: Vec<char> = Vec::new();
            extend_str(&mut v, "project path ");
            extend_str(&mut v, project_path);
            extend_str(&mut v, " has no directory basename usable as a project name");
            Err(string_of(&v))
        },
    }
}

/// What `auto_add` does to entries `es` for `p`: the outcome and the new
/// entries, or the error (entries unchanged).
pub open spec fn auto_add_spec(es: Seq<(Seq<char>, Seq<char>)>, p: Seq<char>) -> Result<
    (AutoAddView, Seq<(Seq<char>, Seq<char>)>),
    Seq<char>,
> {
    match basename_name(p) {
        Err(e) => Err(e),
        Ok(n) => match first_index(paths_of(es), path_key(p)) {
            Some(i) => Ok((AutoAddView::AlreadyCatalogued(es[i].0), es)),
            None => match first_index(names_of(es), n) {
                Some(i) => Ok((AutoAddView::NameCollision(n, es[i].1), es)),
                None => Ok((AutoAddView::Added(n), es.push((n, p)))),
            },
        },
    }
}

/// Attempt to add `project_path` under its directory basename. Does not
/// persist; the caller saves on `Added`.
pub fn auto_add(catalog: &mut ProjectsCatalog, project_path: &str) -> (r: Result<AutoAddOutcome, String>)
    ensures
        final(catalog).schema_version == old(catalog).schema_version,
        match r {
            Ok(o) => auto_add_spec(entries(old(catalog).projects@), project_path@) == Ok::<
                (AutoAddView, Seq<(Seq<char>, Seq<char>)>),
                Seq<char>,
            >((o@, entries(final(catalog).projects@))),
            Err(e) => auto_add_spec(entries(old(catalog).projects@), project_path@) == Err::<
                (AutoAddView, Seq<(Seq<char>, Seq<char>)>),
                Seq<char>,
            >(e@) && final(catalog).projects@ == old(catalog).projects@,
        },
        catalog_ok(entries(old(catalog).projects@)) ==> catalog_ok(entries(final(catalog).projects@)),
{
    let name = match basename_as_name(project_path) {
        Ok(n) => n,
        Err(e) => return Err(e),
    };
    if let Some(i) = position_by_path(&catalog.projects, project_path) {
        return Ok(AutoAddOutcome::AlreadyCatalogued { name: clone_string(&catalog.projects[i].name) });
    }
    if let Some(i) = position_by_name(&catalog.projects, name.as_str()) {
        return Ok(
            AutoAddOutcome::NameCollision {
                attempted_name: name,
                existing_path: clone_string(&catalog.projects[i].path),
            },
        );
    }
    let ghost es = entries(catalog.projects@);
    let entry = ProjectEntry { name: clone_string(&name), path: owned(project_path) };
    catalog.projects.push(entry);
    proof {
        let es2 = entries(catalog.projects@);
        assert(es2 =~= es.push((name@, project_path@)));
        assert(names_of(es2) =~= names_of(es).push(name@));
        assert(paths_of(es2) =~= paths_of(es).push(path_key(project_path@)));
        lemma_not_first_absent(names_of(es), name@);
        lemma_not_first_absent(paths_of(es), path_key(project_path@));
    }
    Ok(AutoAddOutcome::Added { name })
}

pub proof fn lemma_not_first_absent(keys: Seq<Seq<char>>, k: Seq<char>)
    requires
        first_index(keys, k) is None,
    ensures
        !keys.contains(k),
        distinct(keys) ==> distinct(keys.push(k)),
{
    if keys.contains(k) {
        lemma_first_index_some_contains(keys, k);
    }
}

/// Adding a path twice by basename changes nothing the second time: the
/// second call reports the path as already catalogued, under the name
/// the first call gave it.
pub proof fn auto_add_is_idempotent(es: Seq<(Seq<char>, Seq<char>)>, p: Seq<char>)
    requires
        auto_add_spec(es, p) is Ok,
    ensures
        ({
            let (o, es2) = auto_add_spec(es, p)->Ok_0;
            &&& auto_add_spec(es2, p) is Ok
            &&& auto_add_spec(es2, p)->Ok_0.1 == es2
            &&& (o matches AutoAddView::Added(n) ==> auto_add_spec(es2, p)->Ok_0.0
                == AutoAddView::AlreadyCatalogued(n))
            &&& (o is AlreadyCatalogued ==> auto_add_spec(es2, p)->Ok_0.0 == o)
        }),
{
    let n = basename_name(p)->Ok_0;
    if first_index(paths_of(es), path_key(p)) is None && first_index(names_of(es), n) is None {
        let es2 = es.push((n, p));
        assert(paths_of(es2) =~= paths_of(es).push(path_key(p)));
        lemma_not_first_absent(paths_of(es), path_key(p));
        let i = es.len() as int;
        assert(is_first(paths_of(es2), path_key(p), i));
        lemma_first_index_is(paths_of(es2), path_key(p), i);
    }
}

/// What `try_add_named` does to entries `es`.
pub open spec fn try_add_named_spec(es: Seq<(Seq<char>, Seq<char>)>, name: Seq<char>, p: Seq<char>) -> Result<
    Seq<(Seq<char>, Seq<char>)>,
    Seq<char>,
> {
    match first_index(paths_of(es), path_key(p)) {
        Some(i) => if es[i].0 == name {
            Ok(es)
        } else {
            Err("project path "@ + p + " is already catalogued under name '"@ + es[i].0
                + "'; refusing to re-add as '"@ + name + "'"@)
        },
        None => match first_index(names_of(es), name) {
            Some(i) => Err("project name '"@ + name + "' is already in use for path "@ + es[i].1
                + "; pick a different name"@),
            None => Ok(es.push((name, p))),
        },
    }
}

/// Add `project_path` under an explicit `name`. Errors if the name is
/// taken by a different path or the path is catalogued under a different
/// name; a no-op when the same entry is present. Does not persist.
pub fn try_add_named(catalog: &mut ProjectsCatalog, name: &str, project_path: &str) -> (r: Result<(), String>)
    ensures
        final(catalog).schema_version == old(catalog).schema_version,
        match r {
            Ok(()) => try_add_named_spec(entries(old(catalog).projects@), name@, project_path@) == Ok::<
                Seq<(Seq<char>, Seq<char>)>,
                Seq<char>,
            >(entries(final(catalog).projects@)),
            Err(e) => try_add_named_spec(entries(old(catalog).projects@), name@, project_path@) == Err::<
                Seq<(Seq<char>, Seq<char>)>,
                Seq<char>,
            >(e@) && final(catalog).projects@ == old(catalog).projects@,
        },
        catalog_ok(entries(old(catalog).projects@)) ==> catalog_ok(entries(final(catalog).projects@)),
{
    if let Some(i) = position_by_path(&catalog.projects, project_path) {
        if str_eq(catalog.projects[i].name.as_str(), name) {
            return Ok(());
        }
        let mut v: Vec<char> = Vec::new();
        extend_str(&mut v, "project path ");
        extend_str(&mut v, project_path);
        extend_str(&mut v, " is already catalogued under name '");
        extend_str(&mut v, catalog.projects[i].name.as_str());
        extend_str(&mut v, "'; refusing to re-add as '");
        extend_str(&mut v, name);
        extend_str(&mut v, "'");
        return Err(string_of(&v));
    }
    if let Some(i) = position_by_name(&catalog.projects, name) {
        let mut v: Vec<char> = Vec::new();
        extend_str(&mut v, "project name '");
        extend_str(&mut v, name);
        extend_str(&mut v, "' is already in use for path ");
        extend_str(&mut v, catalog.projects[i].path.as_str());
        extend_str(&mut v, "; pick a different name");
        return Err(string_of(&v));
    }
    let ghost es = entries(catalog.projects@);
    catalog.projects.push(ProjectEntry { name: owned(name), path: owned(project_path) });
    proof {
        let es2 = entries(catalog.projects@);
        assert(es2 =~= es.push((name@, project_path@)));
        assert(names_of(es2) =~= names_of(es).push(name@));
        assert(paths_of(es2) =~= paths_of(es).push(path_key(project_path@)));
        lemma_not_first_absent(names_of(es), name@);
        lemma_not_first_absent(paths_of(es), path_key(project_path@));
    }
    Ok(())
}

/// Adding the same (name, path) entry a second time is a no-op.
pub proof fn try_add_named_twice_is_noop(es: Seq<(Seq<char>, Seq<char>)>, name: Seq<char>, p: Seq<char>)
    requires
        try_add_named_spec(es, name, p) is Ok,
    ensures
        try_add_named_spec(try_add_named_spec(es, name, p)->Ok_0, name, p) == try_add_named_spec(es, name, p),
{
    if first_index(paths_of(es), path_key(p)) is None {
        let es2 = es.push((name, p));
        assert(paths_of(es2) =~= paths_of(es).push(path_key(p)));
        lemma_not_first_absent(paths_of(es), path_key(p));
        let i = es.len() as int;
        assert(is_first(paths_of(es2), path_key(p), i));
        lemma_first_index_is(paths_of(es2), path_key(p), i);
    }
}

/// Accept a parsed catalog (`None` when the file is absent: an empty
/// catalog) only at the schema version this build understands.
/// `catalog_file` is the file's path, for the message.
pub fn load_or_empty(parsed: Option<ProjectsCatalog>, catalog_file: &str) -> (r: Result<ProjectsCatalog, String>)
    ensures
        match parsed {
            None => r matches Ok(c) && c.schema_version == SCHEMA_VERSION && c.projects@.len() == 0,
            Some(c) => if c.schema_version == SCHEMA_VERSION {
                r == Ok::<ProjectsCatalog, String>(c)
            } else {
                r matches Err(e) && e@ == catalog_file@ + " has schema_version "@ + decimal(
                    c.schema_version as nat,
                ) + " but this ravel-lite expects "@ + decimal(SCHEMA_VERSION as nat)
                    + "; aborting to avoid data loss"@
            },
        },
{
    match parsed {
        None => Ok(ProjectsCatalog { schema_version: SCHEMA_VERSION, projects: Vec::new() }),
        Some(c) => {
            if c.schema_version == SCHEMA_VERSION {
                Ok(c)
            } else {
                let mut v: Vec<char> = Vec::new();
                extend_str(&mut v, catalog_file);
                extend_str(&mut v, " has schema_version ");
                push_decimal(&mut v, c.schema_version as u64);
                extend_str(&mut v, " but this ravel-lite expects ");
                push_decimal(&mut v, SCHEMA_VERSION as u64);
                extend_str(&mut v, "; aborting to avoid data loss");
                Err(string_of(&v))
            }
        },
    }
}

/// The name `run_add` uses: the explicit one, else the basename.
pub open spec fn resolved_name(name: Option<Seq<char>>, p: Seq<char>) -> Result<Seq<char>, Seq<char>> {
    match name {
        Some(n) => Ok(n),
        None => basename_name(p),
    }
}

/// Add a project under `name` (or its basename) at `absolute_path`, the
/// project path already resolved against the working directory.
pub fn run_add(catalog: &mut ProjectsCatalog, name: Option<&str>, absolute_path: &str) -> (r: Result<(), String>)
    ensures
        final(catalog).schema_version == old(catalog).schema_version,
        match resolved_name(
            match name {
                Some(n) => Some(n@),
                None => None,
            },
            absolute_path@,
        ) {
            Err(e) => r matches Err(x) && x@ == e && final(catalog).projects@ == old(catalog).projects@,
            Ok(n) => match r {
                Ok(()) => try_add_named_spec(entries(old(catalog).projects@), n, absolute_path@) == Ok::<
                    Seq<(Seq<char>, Seq<char>)>,
                    Seq<char>,
                >(entries(final(catalog).projects@)),
                Err(e) => try_add_named_spec(entries(old(catalog).projects@), n, absolute_path@) == Err::<
                    Seq<(Seq<char>, Seq<char>)>,
                    Seq<char>,
                >(e@) && final(catalog).projects@ == old(catalog).projects@,
            },
        },
        catalog_ok(entries(old(catalog).projects@)) ==> catalog_ok(entries(final(catalog).projects@)),
{
    let resolved = match name {
        Some(n) => owned(n),
        None => match basename_as_name(absolute_path) {
            Ok(n) => n,
            Err(e) => return Err(e),
        },
    };
    try_add_named(catalog, resolved.as_str(), absolute_path)
}

/// The entries without those named `name`, in order.
pub open spec fn without_name(es: Seq<(Seq<char>, Seq<char>)>, name: Seq<char>) -> Seq<(Seq<char>, Seq<char>)>
    decreases es.len(),
{
    if es.len() == 0 {
        seq![]
    } else {
        without_name(es.drop_last(), name) + if es.last().0 == name {
            seq![]
        } else {
            seq![es.last()]
        }
    }
}

pub proof fn lemma_without_name_sub(es: Seq<(Seq<char>, Seq<char>)>, name: Seq<char>)
    ensures
        without_name(es, name).len() <= es.len(),
        forall|k: int|
            #![trigger without_name(es, name)[k]]
            0 <= k < without_name(es, name).len() ==> exists|j: int|
                0 <= j < es.len() && #[trigger] es[j] == without_name(es, name)[k],
        (without_name(es, name).len() == es.len()) <==> !names_of(es).contains(name),
    decreases es.len(),
{
    if es.len() > 0 {
        let d = es.drop_last();
        lemma_without_name_sub(d, name);
        let w = without_name(es, name);
        let wd = without_name(d, name);
        assert forall|k: int| #![trigger w[k]] 0 <= k < w.len() implies exists|j: int|
            0 <= j < es.len() && #[trigger] es[j] == w[k] by {
            if k < wd.len() {
                assert(w[k] == wd[k]);
                let j = choose|j: int| 0 <= j < d.len() && #[trigger] d[j] == wd[k];
                assert(es[j] == d[j]);
            } else {
                assert(w[k] == es[es.len() - 1]);
            }
        }
        assert(names_of(es) =~= names_of(d).push(es.last().0));
        if names_of(d).contains(name) {
            let i = choose|i: int| 0 <= i < names_of(d).len() && names_of(d)[i] == name;
            assert(names_of(es)[i] == name);
        }
        if es.last().0 == name {
            assert(names_of(es)[es.len() - 1] == name);
            assert(w =~= wd);
        } else {
            assert(w =~= wd.push(es.last()));
            if names_of(es).contains(name) {
                let i = choose|i: int| 0 <= i < names_of(es).len() && names_of(es)[i] == name;
                assert(i < es.len() - 1);
                assert(names_of(d)[i] == name);
            }
        }
    }
}

/// Removing entries keeps names and paths unique.
pub proof fn lemma_without_name_ok(es: Seq<(Seq<char>, Seq<char>)>, name: Seq<char>)
    requires
        catalog_ok(es),
    ensures
        catalog_ok(without_name(es, name)),
    decreases es.len(),
{
    if es.len() > 0 {
        let d = es.drop_last();
        assert(names_of(d) =~= names_of(es).drop_last());
        assert(paths_of(d) =~= paths_of(es).drop_last());
        lemma_without_name_ok(d, name);
        lemma_without_name_sub(d, name);
        let w = without_name(es, name);
        let wd = without_name(d, name);
        if es.last().0 != name {
            assert(w =~= wd.push(es.last()));
            assert(names_of(w) =~= names_of(wd).push(es.last().0));
            assert(paths_of(w) =~= paths_of(wd).push(path_key(es.last().1)));
            assert forall|i: int, j: int| 0 <= i < j < names_of(w).len() implies names_of(w)[i] != names_of(w)[j] by {
                if j == wd.len() {
                    assert(w[i] == wd[i]);
                    let k = choose|k: int| 0 <= k < d.len() && #[trigger] d[k] == wd[i];
                    assert(names_of(es)[k] != names_of(es)[es.len() - 1]);
                } else {
                    assert(w[i] == wd[i] && w[j] == wd[j]);
                    assert(names_of(wd)[i] != names_of(wd)[j]);
                }
            }
            assert forall|i: int, j: int| 0 <= i < j < paths_of(w).len() implies paths_of(w)[i] != paths_of(w)[j] by {
                if j == wd.len() {
                    assert(w[i] == wd[i]);
                    let k = choose|k: int| 0 <= k < d.len() && #[trigger] d[k] == wd[i];
                    assert(paths_of(es)[k] != paths_of(es)[es.len() - 1]);
                } else {
                    assert(w[i] == wd[i] && w[j] == wd[j]);
                    assert(paths_of(wd)[i] != paths_of(wd)[j]);
                }
            }
        } else {
            assert(w =~= wd);
        }
    }
}

/// Remove every entry named `name`. Errors, leaving the catalog as it
/// was, when there is none; `catalog_file` is named in that message.
pub fn run_remove(catalog: &mut ProjectsCatalog, name: &str, catalog_file: &str) -> (r: Result<(), String>)
    ensures
        final(catalog).schema_version == old(catalog).schema_version,
        names_of(entries(old(catalog).projects@)).contains(name@) ==> r is Ok && entries(final(catalog).projects@)
            == without_name(entries(old(catalog).projects@), name@),
        !names_of(entries(old(catalog).projects@)).contains(name@) ==> (r matches Err(e) && e@ == "no project named '"@
            + name@ + "' in catalog at "@ + catalog_file@) && final(catalog).projects@ == old(catalog).projects@,
        catalog_ok(entries(old(catalog).projects@)) ==> catalog_ok(entries(final(catalog).projects@)),
{
    let ghost es = entries(catalog.projects@);
    let mut kept: Vec<ProjectEntry> = Vec::new();
    let mut i: usize = 0;
    while i < catalog.projects.len()
        invariant
            i <= catalog.projects.len(),
            es == entries(catalog.projects@),
            entries(kept@) == without_name(es.take(i as int), name@),
        decreases catalog.projects.len() - i,
    {
        assert(es.take(i + 1).drop_last() =~= es.take(i as int));
        let e = &catalog.projects[i];
        if !str_eq(e.name.as_str(), name) {
            let ghost before = entries(kept@);
            kept.push(ProjectEntry { name: clone_string(&e.name), path: clone_string(&e.path) });
            assert(entries(kept@) =~= before.push(es[i as int]));
        }
        i += 1;
    }
    assert(es.take(es.len() as int) =~= es);
    proof {
        lemma_without_name_sub(es, name@);
    }
    if kept.len() == catalog.projects.len() {
        let mut v: Vec<char> = Vec::new();
        extend_str(&mut v, "no project named '");
        extend_str(&mut v, name);
        extend_str(&mut v, "' in catalog at ");
        extend_str(&mut v, catalog_file);
        return Err(string_of(&v));
    }
    proof {
        if catalog_ok(es) {
            lemma_without_name_ok(es, name@);
        }
    }
    catalog.projects = kept;
    Ok(())
}

/// What `run_rename` does to entries `es`: `Ok(None)` when the names are
/// equal (nothing to save), `Ok(Some(new entries))`, or the error.
pub open spec fn rename_spec(es: Seq<(Seq<char>, Seq<char>)>, old_name: Seq<char>, new_name: Seq<char>) -> Result<
    Option<Seq<(Seq<char>, Seq<char>)>>,
    Seq<char>,
> {
    if old_name == new_name {
        Ok(None)
    } else if first_index(names_of(es), new_name) is Some {
        Err("cannot rename to '"@ + new_name + "': name already in use"@)
    } else {
        match first_index(names_of(es), old_name) {
            None => Err("no project named '"@ + old_name + "' in catalog"@),
            Some(i) => Ok(Some(es.update(i, (new_name, es[i].1)))),
        }
    }
}

/// Rename project `old_name` to `new_name`. `Ok(true)` when the catalog
/// changed and must be saved (and edge lists cascaded); `Ok(false)` when
/// the names are equal.
pub fn run_rename(catalog: &mut ProjectsCatalog, old_name: &str, new_name: &str) -> (r: Result<bool, String>)
    ensures
        final(catalog).schema_version == old(catalog).schema_version,
        match r {
            Ok(changed) => match rename_spec(entries(old(catalog).projects@), old_name@, new_name@) {
                Ok(None) => !changed && final(catalog).projects@ == old(catalog).projects@,
                Ok(Some(es2)) => changed && entries(final(catalog).projects@) == es2,
                Err(_) => false,
            },
            Err(e) => rename_spec(entries(old(catalog).projects@), old_name@, new_name@) == Err::<
                Option<Seq<(Seq<char>, Seq<char>)>>,
                Seq<char>,
            >(e@) && final(catalog).projects@ == old(catalog).projects@,
        },
        catalog_ok(entries(old(catalog).projects@)) ==> catalog_ok(entries(final(catalog).projects@)),
{
    if str_eq(old_name, new_name) {
        return Ok(false);
    }
    if position_by_name(&catalog.projects, new_name).is_some() {
        let mut v: Vec<char> = Vec::new();
        extend_str(&mut v, "cannot rename to '");
        extend_str(&mut v, new_name);
        extend_str(&mut v, "': name already in use");
        return Err(string_of(&v));
    }
    match position_by_name(&catalog.projects, old_name) {
        None => {
            let mut v: Vec<char> = Vec::new();
            extend_str(&mut v, "no project named '");
            extend_str(&mut v, old_name);
            extend_str(&mut v, "' in catalog");
            Err(string_of(&v))
        },
        Some(i) => {
            let ghost es = entries(catalog.projects@);
            let path = clone_string(&catalog.projects[i].path);
            catalog.projects.set(i, ProjectEntry { name: owned(new_name), path });
            proof {
                let es2 = entries(catalog.projects@);
                assert(es2 =~= es.update(i as int, (new_name@, es[i as int].1)));
                assert(paths_of(es2) =~= paths_of(es));
                lemma_not_first_absent(names_of(es), new_name@);
                assert(names_of(es2) =~= names_of(es).update(i as int, new_name@));
            }
            Ok(true)
        },
    }
}

/// The question put when a basename is taken by another path.
pub fn collision_prompt(attempted_name: &str, existing_path: &str, project_path: &str) -> (r: String)
    ensures
        r@ == "project name '"@ + attempted_name@ + "' is already used for a different path:\n  existing: "@
            + existing_path@ + "\n  adding:   "@ + project_path@ + "\nenter a different name (blank to abort): "@,
{
    let mut v: Vec<char> = Vec::new();
    extend_str(&mut v, "project name '");
    extend_str(&mut v, attempted_name);
    extend_str(&mut v, "' is already used for a different path:\n  existing: ");
    extend_str(&mut v, existing_path);
    extend_str(&mut v, "\n  adding:   ");
    extend_str(&mut v, project_path);
    extend_str(&mut v, "\nenter a different name (blank to abort): ");
    string_of(&v)
}

/// The answer to the collision prompt, checked: blank aborts, a name in
/// use is refused, anything else is the name to add under.
pub fn resolve_alternative_name(catalog: &ProjectsCatalog, answer: &str, project_path: &str) -> (r: Result<
    String,
    String,
>)
    ensures
        trim(answer@).len() == 0 ==> (r matches Err(e) && e@
            == "project catalog add aborted by user; resolve manually with `ravel-lite state projects add --name <name> --path "@
            + project_path@ + "`"@),
        trim(answer@).len() > 0 && names_of(entries(catalog.projects@)).contains(trim(answer@)) ==> (r matches Err(e)
            && e@ == "name '"@ + trim(answer@)
            + "' is also already in use; resolve manually with `ravel-lite state projects add --name <name> --path "@
            + project_path@ + "`"@),
        trim(answer@).len() > 0 && !names_of(entries(catalog.projects@)).contains(trim(answer@)) ==> (r matches Ok(n)
            && n@ == trim(answer@)),
{
    let chosen = trim_str(answer);
    if chosen.as_str().is_empty() {
        let mut v: Vec<char> = Vec::new();
        extend_str(&mut v, "project catalog add aborted by user; resolve manually with `ravel-lite state projects add --name <name> --path ");
        extend_str(&mut v, project_path);
        extend_str(&mut v, "`");
        return Err(string_of(&v));
    }
    match position_by_name(&catalog.projects, chosen.as_str()) {
        Some(_) => {
            proof {
                let ks = names_of(entries(catalog.projects@));
                let i = first_index(ks, chosen@)->0;
                assert(is_first(ks, chosen@, i));
                assert(ks[i] == chosen@);
            }
            let mut v: Vec<char> = Vec::new();
            extend_str(&mut v, "name '");
            extend_str(&mut v, chosen.as_str());
            extend_str(&mut v, "' is also already in use; resolve manually with `ravel-lite state projects add --name <name> --path ");
            extend_str(&mut v, project_path);
            extend_str(&mut v, "`");
            Err(string_of(&v))
        },
        None => {
            proof {
                let ks = names_of(entries(catalog.projects@));
                if ks.contains(chosen@) {
                    lemma_first_index_some_contains(ks, chosen@);
                }
            }
            Ok(chosen)
        },
    }
}

/// The name chosen in answer to the collision prompt, or why none is.
pub open spec fn alternative_name(es: Seq<(Seq<char>, Seq<char>)>, answer: Seq<char>, p: Seq<char>) -> Result<
    Seq<char>,
    Seq<char>,
> {
    let t = trim(answer);
    if t.len() == 0 {
        Err(
            "project catalog add aborted by user; resolve manually with `ravel-lite state projects add --name <name> --path "@
                + p + "`"@,
        )
    } else if names_of(es).contains(t) {
        Err(
            "name '"@ + t + "' is also already in use; resolve manually with `ravel-lite state projects add --name <name> --path "@
                + p + "`"@,
        )
    } else {
        Ok(t)
    }
}

pub open spec fn collision_text(attempted: Seq<char>, existing: Seq<char>, p: Seq<char>) -> Seq<char> {
    "project name '"@ + attempted + "' is already used for a different path:\n  existing: "@ + existing
        + "\n  adding:   "@ + p + "\nenter a different name (blank to abort): "@
}

/// One step of putting a project in the catalog when the user may be asked
/// for a name.
pub enum CatalogStep {
    /// Already catalogued under this name; nothing to save.
    Known(String),
    /// Added under this name; the catalog must be saved.
    Added(String),
    /// Show this prompt, read a line, and take the step again with it.
    Ask(String),
    /// Give up with this error.
    Failed(String),
}

/// Make sure `project_path` is catalogued, adding it under its basename;
/// when the basename names another path, the user is asked for another
/// name: without `answer` the step is the prompt to show, with it the
/// answer is checked and used.
pub fn ensure_in_catalog_interactive(catalog: &mut ProjectsCatalog, project_path: &str, answer: Option<&str>) -> (r:
    CatalogStep)
    ensures
        final(catalog).schema_version == old(catalog).schema_version,
        catalog_ok(entries(old(catalog).projects@)) ==> catalog_ok(entries(final(catalog).projects@)),
        ({
            let es = entries(old(catalog).projects@);
            let now = entries(final(catalog).projects@);
            let p = project_path@;
            match auto_add_spec(es, p) {
                Err(e) => r matches CatalogStep::Failed(m) && m@ == e && now == es,
                Ok((AutoAddView::AlreadyCatalogued(n), _)) => r matches CatalogStep::Known(m) && m@ == n && now == es,
                Ok((AutoAddView::Added(n), es2)) => r matches CatalogStep::Added(m) && m@ == n && now == es2,
                Ok((AutoAddView::NameCollision(a, ex), _)) => match answer {
                    None => r matches CatalogStep::Ask(m) && m@ == collision_text(a, ex, p) && now == es,
                    Some(ans) => match alternative_name(es, ans@, p) {
                        Err(e) => r matches CatalogStep::Failed(m) && m@ == e && now == es,
                        Ok(n) => match try_add_named_spec(es, n, p) {
                            Err(e) => r matches CatalogStep::Failed(m) && m@ == e && now == es,
                            Ok(es2) => r matches CatalogStep::Added(m) && m@ == n && now == es2,
                        },
                    },
                },
            }
        }),
{
    let outcome = match auto_add(catalog, project_path) {
        Err(e) => return CatalogStep::Failed(e),
        Ok(o) => o,
    };
    match outcome {
        AutoAddOutcome::AlreadyCatalogued { name } => CatalogStep::Known(name),
        AutoAddOutcome::Added { name } => CatalogStep::Added(name),
        AutoAddOutcome::NameCollision { attempted_name, existing_path } => {
            let ans = match answer {
                None => {
                    return CatalogStep::Ask(
                        collision_prompt(attempted_name.as_str(), existing_path.as_str(), project_path),
                    );
                },
                Some(a) => a,
            };
            let name = match resolve_alternative_name(catalog, ans, project_path) {
                Err(e) => return CatalogStep::Failed(e),
                Ok(n) => n,
            };
            match try_add_named(catalog, name.as_str(), project_path) {
                Err(e) => CatalogStep::Failed(e),
                Ok(()) => CatalogStep::Added(name),
            }
        },
    }
}

} // verus!
