//! YAML values as the configuration loader merges them: a base file's
//! value and an optional `*.local.yaml` overlay are deep-merged before the
//! result is read into a typed config. Scalars and sequences of the
//! overlay replace the base's; mappings merge key by key, so keys present
//! only in the base survive.
//!
//! Sequences and mappings are linked lists so that the merge can be
//! stated as a function on values. Numbers keep their text.

use vstd::prelude::*;

use crate::text::str_eq;

verus! {

pub enum YamlValue {
    Null,
    Bool(bool),
    Number(String),
    Text(String),
    Sequence(YamlList),
    Mapping(YamlMap),
    Tagged(String, Box<YamlValue>),
}

/// The elements of a sequence, in order.
pub enum YamlList {
    Empty,
    Item(Box<YamlValue>, Box<YamlList>),
}

/// The entries (key, value) of a mapping, in order.
pub enum YamlMap {
    Empty,
    Entry(Box<YamlValue>, Box<YamlValue>, Box<YamlMap>),
}

pub open spec fn ysize(v: YamlValue) -> nat
    decreases v,
{
    match v {
        YamlValue::Sequence(l) => 1 + lsize(l),
        YamlValue::Mapping(m) => 1 + msize(m),
        YamlValue::Tagged(_, b) => 1 + ysize(*b),
        _ => 1,
    }
}

pub open spec fn lsize(l: YamlList) -> nat
    decreases l,
{
    match l {
        YamlList::Empty => 0,
        YamlList::Item(x, rest) => 1 + ysize(*x) + lsize(*rest),
    }
}

pub open spec fn msize(m: YamlMap) -> nat
    decreases m,
{
    match m {
        YamlMap::Empty => 0,
        YamlMap::Entry(k, v, rest) => 1 + ysize(*k) + ysize(*v) + msize(*rest),
    }
}

/// Two values are the same YAML value: same shape, same scalars (by
/// text), same elements and entries in the same order.
pub open spec fn ysame(a: YamlValue, b: YamlValue) -> bool
    decreases a,
{
    match a {
        YamlValue::Null => b is Null,
        YamlValue::Bool(x) => match b {
            YamlValue::Bool(y) => x == y,
            _ => false,
        },
        YamlValue::Number(x) => match b {
            YamlValue::Number(y) => x@ == y@,
            _ => false,
        },
        YamlValue::Text(x) => match b {
            YamlValue::Text(y) => x@ == y@,
            _ => false,
        },
        YamlValue::Sequence(xs) => match b {
            YamlValue::Sequence(ys) => lsame(xs, ys),
            _ => false,
        },
        YamlValue::Mapping(xs) => match b {
            YamlValue::Mapping(ys) => msame(xs, ys),
            _ => false,
        },
        YamlValue::Tagged(t, x) => match b {
            YamlValue::Tagged(u, y) => t@ == u@ && ysame(*x, *y),
            _ => false,
        },
    }
}

pub open spec fn lsame(a: YamlList, b: YamlList) -> bool
    decreases a,
{
    match a {
        YamlList::Empty => b is Empty,
        YamlList::Item(x, xs) => match b {
            YamlList::Item(y, ys) => ysame(*x, *y) && lsame(*xs, *ys),
            _ => false,
        },
    }
}

pub open spec fn msame(a: YamlMap, b: YamlMap) -> bool
    decreases a,
{
    match a {
        YamlMap::Empty => b is Empty,
        YamlMap::Entry(k, v, rest) => match b {
            YamlMap::Entry(k2, v2, rest2) => ysame(*k, *k2) && ysame(*v, *v2) && msame(*rest, *rest2),
            _ => false,
        },
    }
}

/// Executable `ysame`.
pub fn same_value(a: &YamlValue, b: &YamlValue) -> (r: bool)
    ensures
        r == ysame(*a, *b),
    decreases *a,
{
    match a {
        YamlValue::Null => match b {
            YamlValue::Null => true,
            _ => false,
        },
        YamlValue::Bool(x) => match b {
            YamlValue::Bool(y) => *x == *y,
            _ => false,
        },
        YamlValue::Number(x) => match b {
            YamlValue::Number(y) => str_eq(x.as_str(), y.as_str()),
            _ => false,
        },
        YamlValue::Text(x) => match b {
            YamlValue::Text(y) => str_eq(x.as_str(), y.as_str()),
            _ => false,
        },
        YamlValue::Sequence(xs) => match b {
            YamlValue::Sequence(ys) => same_list(xs, ys),
            _ => false,
        },
        YamlValue::Mapping(xs) => match b {
            YamlValue::Mapping(ys) => same_map(xs, ys),
            _ => false,
        },
        YamlValue::Tagged(t, x) => match b {
            YamlValue::Tagged(u, y) => str_eq(t.as_str(), u.as_str()) && same_value(x, y),
            _ => false,
        },
    }
}

fn same_list(a: &YamlList, b: &YamlList) -> (r: bool)
    ensures
        r == lsame(*a, *b),
    decreases *a,
{
    match a {
        YamlList::Empty => match b {
            YamlList::Empty => true,
            _ => false,
        },
        YamlList::Item(x, xs) => match b {
            YamlList::Item(y, ys) => same_value(x, y) && same_list(xs, ys),
            _ => false,
        },
    }
}

fn same_map(a: &YamlMap, b: &YamlMap) -> (r: bool)
    ensures
        r == msame(*a, *b),
    decreases *a,
{
    match a {
        YamlMap::Empty => match b {
            YamlMap::Empty => true,
            _ => false,
        },
        YamlMap::Entry(k, v, rest) => match b {
            YamlMap::Entry(k2, v2, rest2) => same_value(k, k2) && same_value(v, v2) && same_map(rest, rest2),
            _ => false,
        },
    }
}

/// The merge: mappings merge entry by entry (in the overlay's order),
/// anything else is replaced by the overlay.
pub open spec fn merge(base: YamlValue, overlay: YamlValue) -> YamlValue
    decreases ysize(overlay), 0nat,
{
    match overlay {
        YamlValue::Mapping(om) => match base {
            YamlValue::Mapping(bm) => YamlValue::Mapping(merge_maps(bm, om)),
            _ => overlay,
        },
        _ => overlay,
    }
}

/// `acc` with every entry of `om` merged in, first to last.
pub open spec fn merge_maps(acc: YamlMap, om: YamlMap) -> YamlMap
    decreases msize(om), 1nat,
{
    match om {
        YamlMap::Empty => acc,
        YamlMap::Entry(k, v, rest) => merge_maps(merge_entry(acc, *k, *v), *rest),
    }
}

/// `acc` with `(k, v)` merged in: the value of the first entry with the
/// same key merges with `v`; without one, the entry is appended.
pub open spec fn merge_entry(acc: YamlMap, k: YamlValue, v: YamlValue) -> YamlMap
    decreases ysize(v), 2 + msize(acc),
{
    match acc {
        YamlMap::Empty => YamlMap::Entry(Box::new(k), Box::new(v), Box::new(YamlMap::Empty)),
        YamlMap::Entry(k2, v2, rest) => if ysame(*k2, k) {
            YamlMap::Entry(k2, Box::new(merge(*v2, v)), rest)
        } else {
            YamlMap::Entry(k2, v2, Box::new(merge_entry(*rest, k, v)))
        },
    }
}

fn merge_entry_exec(acc: YamlMap, k: YamlValue, v: YamlValue) -> (r: YamlMap)
    ensures
        r == merge_entry(acc, k, v),
    decreases ysize(v), 2 + msize(acc),
{
    match acc {
        YamlMap::Empty => YamlMap::Entry(Box::new(k), Box::new(v), Box::new(YamlMap::Empty)),
        YamlMap::Entry(k2, v2, rest) => {
            if same_value(&k2, &k) {
                YamlMap::Entry(k2, Box::new(merge_values(*v2, v)), rest)
            } else {
                YamlMap::Entry(k2, v2, Box::new(merge_entry_exec(*rest, k, v)))
            }
        },
    }
}

fn merge_maps_exec(acc: YamlMap, om: YamlMap) -> (r: YamlMap)
    ensures
        r == merge_maps(acc, om),
    decreases msize(om), 1nat,
{
    match om {
        YamlMap::Empty => acc,
        YamlMap::Entry(k, v, rest) => {
            let merged = merge_entry_exec(acc, *k, *v);
            merge_maps_exec(merged, *rest)
        },
    }
}

/// Executable `merge`.
pub fn merge_values(base: YamlValue, overlay: YamlValue) -> (r: YamlValue)
    ensures
        r == merge(base, overlay),
    decreases ysize(overlay), 0nat,
{
    match overlay {
        YamlValue::Mapping(om) => match base {
            YamlValue::Mapping(bm) => YamlValue::Mapping(merge_maps_exec(bm, om)),
            _ => YamlValue::Mapping(om),
        },
        _ => overlay,
    }
}

/// Merge `overlay` into `base` in place.
pub fn merge_yaml(base: &mut YamlValue, overlay: YamlValue)
    ensures
        *final(base) == merge(*old(base), overlay),
{
    let mut taken = YamlValue::Null;
    std::mem::swap(&mut taken, base);
    *base = merge_values(taken, overlay);
}

/// The value of the first entry of `m` whose key is `k`.
pub open spec fn map_get(m: YamlMap, k: YamlValue) -> Option<YamlValue>
    decreases m,
{
    match m {
        YamlMap::Empty => None,
        YamlMap::Entry(k2, v, rest) => if ysame(*k2, k) {
            Some(*v)
        } else {
            map_get(*rest, k)
        },
    }
}

/// No two entries of `m` have the same key, as in any parsed mapping.
pub open spec fn keys_distinct(m: YamlMap) -> bool
    decreases m,
{
    match m {
        YamlMap::Empty => true,
        YamlMap::Entry(k, _, rest) => map_get(*rest, *k) is None && keys_distinct(*rest),
    }
}

/// What the key `q` holds after merging an overlay mapping whose entry for
/// `q` is `over` into a base mapping whose entry for `q` is `base`.
pub open spec fn merged_entry(base: Option<YamlValue>, over: Option<YamlValue>) -> Option<YamlValue> {
    match over {
        None => base,
        Some(ov) => Some(
            match base {
                Some(bv) => merge(bv, ov),
                None => ov,
            },
        ),
    }
}

proof fn ysame_refl(a: YamlValue)
    ensures
        ysame(a, a),
    decreases a,
{
    match a {
        YamlValue::Sequence(xs) => lsame_refl(xs),
        YamlValue::Mapping(xs) => msame_refl(xs),
        YamlValue::Tagged(_, x) => ysame_refl(*x),
        _ => {},
    }
}

proof fn lsame_refl(a: YamlList)
    ensures
        lsame(a, a),
    decreases a,
{
    match a {
        YamlList::Empty => {},
        YamlList::Item(x, xs) => {
            ysame_refl(*x);
            lsame_refl(*xs);
        },
    }
}

proof fn msame_refl(a: YamlMap)
    ensures
        msame(a, a),
    decreases a,
{
    match a {
        YamlMap::Empty => {},
        YamlMap::Entry(k, v, rest) => {
            ysame_refl(*k);
            ysame_refl(*v);
            msame_refl(*rest);
        },
    }
}

proof fn ysame_sym(a: YamlValue, b: YamlValue)
    requires
        ysame(a, b),
    ensures
        ysame(b, a),
    decreases a,
{
    match a {
        YamlValue::Sequence(xs) => match b {
            YamlValue::Sequence(ys) => lsame_sym(xs, ys),
            _ => {},
        },
        YamlValue::Mapping(xs) => match b {
            YamlValue::Mapping(ys) => msame_sym(xs, ys),
            _ => {},
        },
        YamlValue::Tagged(_, x) => match b {
            YamlValue::Tagged(_, y) => ysame_sym(*x, *y),
            _ => {},
        },
        _ => {},
    }
}

proof fn lsame_sym(a: YamlList, b: YamlList)
    requires
        lsame(a, b),
    ensures
        lsame(b, a),
    decreases a,
{
    match a {
        YamlList::Empty => {},
        YamlList::Item(x, xs) => match b {
            YamlList::Item(y, ys) => {
                ysame_sym(*x, *y);
                lsame_sym(*xs, *ys);
            },
            _ => {},
        },
    }
}

proof fn msame_sym(a: YamlMap, b: YamlMap)
    requires
        msame(a, b),
    ensures
        msame(b, a),
    decreases a,
{
    match a {
        YamlMap::Empty => {},
        YamlMap::Entry(k, v, rest) => match b {
            YamlMap::Entry(k2, v2, rest2) => {
                ysame_sym(*k, *k2);
                ysame_sym(*v, *v2);
                msame_sym(*rest, *rest2);
            },
            _ => {},
        },
    }
}

proof fn ysame_trans(a: YamlValue, b: YamlValue, c: YamlValue)
    requires
        ysame(a, b),
        ysame(b, c),
    ensures
        ysame(a, c),
    decreases a,
{
    match a {
        YamlValue::Sequence(xs) => match b {
            YamlValue::Sequence(ys) => match c {
                YamlValue::Sequence(zs) => lsame_trans(xs, ys, zs),
                _ => {},
            },
            _ => {},
        },
        YamlValue::Mapping(xs) => match b {
            YamlValue::Mapping(ys) => match c {
                YamlValue::Mapping(zs) => msame_trans(xs, ys, zs),
                _ => {},
            },
            _ => {},
        },
        YamlValue::Tagged(_, x) => match b {
            YamlValue::Tagged(_, y) => match c {
                YamlValue::Tagged(_, z) => ysame_trans(*x, *y, *z),
                _ => {},
            },
            _ => {},
        },
        _ => {},
    }
}

proof fn lsame_trans(a: YamlList, b: YamlList, c: YamlList)
    requires
        lsame(a, b),
        lsame(b, c),
    ensures
        lsame(a, c),
    decreases a,
{
    match a {
        YamlList::Empty => {},
        YamlList::Item(x, xs) => match b {
            YamlList::Item(y, ys) => match c {
                YamlList::Item(z, zs) => {
                    ysame_trans(*x, *y, *z);
                    lsame_trans(*xs, *ys, *zs);
                },
                _ => {},
            },
            _ => {},
        },
    }
}

proof fn msame_trans(a: YamlMap, b: YamlMap, c: YamlMap)
    requires
        msame(a, b),
        msame(b, c),
    ensures
        msame(a, c),
    decreases a,
{
    match a {
        YamlMap::Empty => {},
        YamlMap::Entry(k, v, rest) => match b {
            YamlMap::Entry(k2, v2, rest2) => match c {
                YamlMap::Entry(k3, v3, rest3) => {
                    ysame_trans(*k, *k2, *k3);
                    ysame_trans(*v, *v2, *v3);
                    msame_trans(*rest, *rest2, *rest3);
                },
                _ => {},
            },
            _ => {},
        },
    }
}

/// Looking a key up gives the same answer for keys that are the same value.
proof fn map_get_same_key(m: YamlMap, k: YamlValue, q: YamlValue)
    requires
        ysame(k, q),
    ensures
        map_get(m, k) == map_get(m, q),
    decreases m,
{
    match m {
        YamlMap::Empty => {},
        YamlMap::Entry(k2, _, rest) => {
            if ysame(*k2, k) {
                ysame_trans(*k2, k, q);
            } else if ysame(*k2, q) {
                ysame_sym(k, q);
                ysame_trans(*k2, q, k);
            }
            map_get_same_key(*rest, k, q);
        },
    }
}

proof fn merge_entry_other_key(acc: YamlMap, k: YamlValue, v: YamlValue, q: YamlValue)
    requires
        !ysame(k, q),
    ensures
        map_get(merge_entry(acc, k, v), q) == map_get(acc, q),
    decreases acc,
{
    match acc {
        YamlMap::Empty => {},
        YamlMap::Entry(k2, _, rest) => {
            if ysame(*k2, k) {
                if ysame(*k2, q) {
                    ysame_sym(*k2, k);
                    ysame_trans(k, *k2, q);
                }
            } else {
                merge_entry_other_key(*rest, k, v, q);
            }
        },
    }
}

proof fn merge_entry_same_key(acc: YamlMap, k: YamlValue, v: YamlValue)
    ensures
        map_get(merge_entry(acc, k, v), k) == merged_entry(map_get(acc, k), Some(v)),
    decreases acc,
{
    match acc {
        YamlMap::Empty => ysame_refl(k),
        YamlMap::Entry(k2, _, rest) => {
            if !ysame(*k2, k) {
                merge_entry_same_key(*rest, k, v);
            }
        },
    }
}

proof fn merge_maps_by_key(acc: YamlMap, om: YamlMap, q: YamlValue)
    requires
        keys_distinct(om),
    ensures
        map_get(merge_maps(acc, om), q) == merged_entry(map_get(acc, q), map_get(om, q)),
    decreases om,
{
    match om {
        YamlMap::Empty => {},
        YamlMap::Entry(k, v, rest) => {
            let next = merge_entry(acc, *k, *v);
            merge_maps_by_key(next, *rest, q);
            if ysame(*k, q) {
                map_get_same_key(*rest, *k, q);
                map_get_same_key(next, *k, q);
                map_get_same_key(acc, *k, q);
                merge_entry_same_key(acc, *k, *v);
            } else {
                merge_entry_other_key(acc, *k, *v, q);
            }
        },
    }
}

/// An overlay that is not a mapping, or a base that is not one, ends the
/// merge: the overlay's value is taken whole.
pub proof fn overlay_wins_unless_both_mappings(base: YamlValue, overlay: YamlValue)
    requires
        !(base is Mapping) || !(overlay is Mapping),
    ensures
        merge(base, overlay) == overlay,
{
}

/// Merging two mappings gives a mapping in which, key by key, a key only
/// in the base keeps the base's value, a key only in the overlay takes the
/// overlay's, and a key in both holds the merge of the two values.
pub proof fn mappings_merge_key_by_key(base: YamlMap, overlay: YamlMap, key: YamlValue)
    requires
        keys_distinct(overlay),
    ensures
        merge(YamlValue::Mapping(base), YamlValue::Mapping(overlay)) matches YamlValue::Mapping(m)
            && map_get(m, key) == merged_entry(map_get(base, key), map_get(overlay, key)),
{
    merge_maps_by_key(base, overlay, key);
}

/// The value that `key` holds in the mapping `v`; `None` where `v` is no
/// mapping or has no such key.
pub fn lookup<'a>(v: &'a YamlValue, key: &YamlValue) -> (r: Option<&'a YamlValue>)
    ensures
        match *v {
            YamlValue::Mapping(m) => match r {
                Some(x) => map_get(m, *key) == Some(*x),
                None => map_get(m, *key) is None,
            },
            _ => r is None,
        },
{
    match v {
        YamlValue::Mapping(m) => lookup_in(m, key),
        _ => None,
    }
}

fn lookup_in<'a>(m: &'a YamlMap, key: &YamlValue) -> (r: Option<&'a YamlValue>)
    ensures
        match r {
            Some(x) => map_get(*m, *key) == Some(*x),
            None => map_get(*m, *key) is None,
        },
    decreases *m,
{
    match m {
        YamlMap::Empty => None,
        YamlMap::Entry(k, v, rest) => {
            if same_value(k, key) {
                Some(&**v)
            } else {
                lookup_in(rest, key)
            }
        },
    }
}


#[verifier::external_type_specification]
#[verifier::external_body]
pub struct ExParsedYaml(serde_yaml::Value);

/// What `serde_yaml::from_str::<serde_yaml::Value>` makes of `text`: the
/// value (entries in document order, numbers by their text, tags kept), or
/// the parser's error message. A function of the text alone.
pub uninterp spec fn yaml_of(text: Seq<char>) -> Result<YamlValue, Seq<char>>;

/// The value tree of a parsed `serde_yaml::Value`, node for node. Used
/// only to convert the parser's result.
#[verifier::external_body]
fn yaml_value_from(v: &serde_yaml::Value) -> YamlValue {
    match v {
        serde_yaml::Value::Null => YamlValue::Null,
        serde_yaml::Value::Bool(b) => YamlValue::Bool(*b),
        serde_yaml::Value::Number(n) => YamlValue::Number(n.to_string()),
        serde_yaml::Value::String(s) => YamlValue::Text(s.clone()),
        serde_yaml::Value::Sequence(xs) => YamlValue::Sequence(yaml_list_from(xs.iter().collect())),
        serde_yaml::Value::Mapping(m) => YamlValue::Mapping(yaml_map_from(m.iter().collect())),
        serde_yaml::Value::Tagged(t) => YamlValue::Tagged(t.tag.to_string(), Box::new(yaml_value_from(&t.value))),
    }
}

/// The elements of a parsed sequence, converted, as a list in order.
#[verifier::external_body]
fn yaml_list_from(xs: Vec<&serde_yaml::Value>) -> YamlList {
    xs.into_iter().rev().fold(YamlList::Empty, |l, x| YamlList::Item(Box::new(yaml_value_from(x)), Box::new(l)))
}

/// The entries of a parsed mapping, converted, as a list in order.
#[verifier::external_body]
fn yaml_map_from(es: Vec<(&serde_yaml::Value, &serde_yaml::Value)>) -> YamlMap {
    es.into_iter().rev().fold(
        YamlMap::Empty,
        |m, (k, x)| YamlMap::Entry(Box::new(yaml_value_from(k)), Box::new(yaml_value_from(x)), Box::new(m)),
    )
}

/// `serde_yaml::from_str::<serde_yaml::Value>` on `text`, converted to the
/// library's value tree, or the parser's error message. The contract names
/// the outcome by `yaml_of`: the same text always gives the same outcome.
#[verifier::external_body]
pub(crate) fn parse_yaml(text: &str) -> (r: Result<YamlValue, String>)
    ensures
        match r {
            Ok(v) => yaml_of(text@) == Ok::<YamlValue, Seq<char>>(v),
            Err(e) => yaml_of(text@) == Err::<YamlValue, Seq<char>>(e@),
        },
{
    match serde_yaml::from_str::<serde_yaml::Value>(text) {
        Ok(v) => Ok(yaml_value_from(&v)),
        Err(e) => Err(e.to_string()),
    }
}

/// Which of a config's two files failed to parse.
#[derive(Debug, Clone, Copy, PartialEq, Eq)]
pub enum ConfigSource {
    Base,
    Overlay,
}

/// A config file that is not YAML: which one, and the parser's message.
#[derive(Debug)]
pub struct ConfigParseError {
    pub source: ConfigSource,
    pub message: String,
}

/// A config's base text deep-merged with its optional overlay text: the
/// merged value, or which file is not YAML.
pub fn merged_config(base: &str, overlay: Option<&str>) -> (r: Result<YamlValue, ConfigParseError>)
    ensures
        match yaml_of(base@) {
            Err(e) => r matches Err(x) && x.source == ConfigSource::Base && x.message@ == e,
            Ok(b) => match overlay {
                None => r matches Ok(v) && v == b,
                Some(o) => match yaml_of(o@) {
                    Err(e) => r matches Err(x) && x.source == ConfigSource::Overlay && x.message@ == e,
                    Ok(ov) => r matches Ok(v) && v == merge(b, ov),
                },
            },
        },
{
    let mut merged = match parse_yaml(base) {
        Ok(v) => v,
        Err(e) => return Err(ConfigParseError { source: ConfigSource::Base, message: e }),
    };
    match overlay {
        None => Ok(merged),
        Some(o) => match parse_yaml(o) {
            Ok(ov) => {
                merge_yaml(&mut merged, ov);
                Ok(merged)
            },
            Err(e) => Err(ConfigParseError { source: ConfigSource::Overlay, message: e }),
        },
    }
}

} // verus!
