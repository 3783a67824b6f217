//! Finding where a value stands in its source text.

use vstd::prelude::*;
use crate::strutil::{str_eq, strs_view};

verus! {

broadcast use vstd::string::group_string_axioms;

/// A byte range of the source text.
#[derive(Debug, Clone, Copy, PartialEq, Eq, Structural)]
pub struct SpanInfo {
    pub start: usize,
    pub end: usize,
}

/// A YAML value with the byte range it was read from.
#[derive(Debug, PartialEq)]
pub struct SpannedYaml {
    pub start: usize,
    pub end: usize,
    pub value: SpannedValue,
}

/// A spanned YAML value. A number is held as an integer, or by its text (as
/// a document read from text holds every number); a tagged value holds the
/// value it tags.
#[derive(Debug, PartialEq)]
pub enum SpannedValue {
    Null,
    Bool(bool),
    Int(i128),
    Real(String),
    Str(String),
    Sequence(Vec<SpannedYaml>),
    Mapping(Vec<(SpannedYaml, SpannedYaml)>),
    Tagged(Box<SpannedYaml>),
}

/// The span of a value.
pub open spec fn span_of(n: SpannedYaml) -> SpanInfo {
    SpanInfo { start: n.start, end: n.end }
}

/// Whether a spanned value is the string `s`.
pub open spec fn is_str(n: SpannedYaml, s: Seq<char>) -> bool {
    n.value matches SpannedValue::Str(t) && t@ == s
}

/// Index of the first entry, from `start` on, whose key is the string `key`.
pub open spec fn first_key_from(m: Seq<(SpannedYaml, SpannedYaml)>, key: Seq<char>, start: int) -> Option<int>
    decreases m.len() - start,
{
    if start < 0 || start >= m.len() {
        None
    } else if is_str(m[start].0, key) {
        Some(start)
    } else {
        first_key_from(m, key, start + 1)
    }
}

/// The value under `key` in a mapping (its first such entry).
pub open spec fn field(n: SpannedYaml, key: Seq<char>) -> Option<SpannedYaml> {
    match n.value {
        SpannedValue::Mapping(m) => match first_key_from(m@, key, 0) {
            Some(i) => Some(m@[i].1),
            None => None,
        },
        _ => None,
    }
}

/// The value at a path of keys.
pub open spec fn find_path(n: SpannedYaml, path: Seq<Seq<char>>) -> Option<SpannedYaml>
    decreases path.len(),
{
    if path.len() == 0 {
        Some(n)
    } else {
        match field(n, path[0]) {
            Some(next) => find_path(next, path.drop_first()),
            None => None,
        }
    }
}

/// Index of the first item, from `start` on, that is the string `s`.
pub open spec fn first_str_item_from(items: Seq<SpannedYaml>, s: Seq<char>, start: int) -> Option<int>
    decreases items.len() - start,
{
    if start < 0 || start >= items.len() {
        None
    } else if is_str(items[start], s) {
        Some(start)
    } else {
        first_str_item_from(items, s, start + 1)
    }
}

/// The span of the first item of the sequence at `path` that is the string `item`.
pub open spec fn spec_array_item_span(root: SpannedYaml, path: Seq<Seq<char>>, item: Seq<char>) -> Option<SpanInfo> {
    match find_path(root, path) {
        Some(n) => match n.value {
            SpannedValue::Sequence(items) => match first_str_item_from(items@, item, 0) {
                Some(i) => Some(span_of(items@[i])),
                None => None,
            },
            _ => None,
        },
        None => None,
    }
}

/// Where a cache restore entry names `name`: the entry itself when it is the
/// string, or its `name` value when it is a mapping whose `name` is the string.
pub open spec fn cache_ref_at(item: SpannedYaml, name: Seq<char>) -> Option<SpanInfo> {
    if is_str(item, name) {
        Some(span_of(item))
    } else {
        match item.value {
            SpannedValue::Mapping(_) => match field(item, "name"@) {
                Some(v) => if is_str(v, name) { Some(span_of(v)) } else { None },
                None => None,
            },
            _ => None,
        }
    }
}

/// The first reference to cache `name` among restore entries, from `start` on.
pub open spec fn first_cache_ref_from(items: Seq<SpannedYaml>, name: Seq<char>, start: int) -> Option<SpanInfo>
    decreases items.len() - start,
{
    if start < 0 || start >= items.len() {
        None
    } else {
        match cache_ref_at(items[start], name) {
            Some(s) => Some(s),
            None => first_cache_ref_from(items, name, start + 1),
        }
    }
}

/// The span of the first reference to cache `name` under `restore_cache`.
pub open spec fn spec_cache_reference_span(root: SpannedYaml, name: Seq<char>) -> Option<SpanInfo> {
    match find_path(root, seq!["restore_cache"@]) {
        Some(n) => match n.value {
            SpannedValue::Sequence(items) => first_cache_ref_from(items@, name, 0),
            _ => None,
        },
        None => None,
    }
}

/// Finds spans in a spanned YAML document.
pub struct SpanFinder<'a> {
    pub root: &'a SpannedYaml,
}

/// The value under `key` in a mapping.
fn field_exec<'a>(n: &'a SpannedYaml, key: &str) -> (r: Option<&'a SpannedYaml>)
    ensures
        match r {
            Some(v) => field(*n, key@) == Some(*v),
            None => field(*n, key@) is None,
        },
{
    match &n.value {
        SpannedValue::Mapping(m) => {
            let len = m.len();
            let mut i: usize = 0;
            while i < len
                invariant
                    len == m@.len(),
                    i <= len,
                    n.value == SpannedValue::Mapping(*m),
                    first_key_from(m@, key@, i as int) == first_key_from(m@, key@, 0),
                decreases len - i,
            {
                let hit = match &m[i].0.value {
                    SpannedValue::Str(s) => str_eq(s.as_str(), key),
                    _ => false,
                };
                if hit {
                    assert(first_key_from(m@, key@, i as int) == Some(i as int));
                    return Some(&m[i].1);
                }
                i = i + 1;
            }
            None
        },
        _ => None,
    }
}

impl<'a> SpanFinder<'a> {
    /// A finder over `root`.
    pub fn new(root: &'a SpannedYaml) -> (r: Self)
        ensures
            *r.root == *root,
    {
        SpanFinder { root }
    }

    /// The value at a path of keys.
    pub fn find_field_value(&self, path: &Vec<&str>) -> (r: Option<&'a SpannedYaml>)
        ensures
            match r {
                Some(v) => find_path(*self.root, path@.map_values(|s: &str| s@)) == Some(*v),
                None => find_path(*self.root, path@.map_values(|s: &str| s@)) is None,
            },
    {
        let ghost p = path@.map_values(|s: &str| s@);
        let mut current: &'a SpannedYaml = self.root;
        let n = path.len();
        let mut i: usize = 0;
        assert(p.subrange(0, n as int) =~= p);
        while i < n
            invariant
                n == path@.len(),
                i <= n,
                p == path@.map_values(|s: &str| s@),
                find_path(*self.root, p) == find_path(*current, p.subrange(i as int, n as int)),
            decreases n - i,
        {
            proof {
                let rest = p.subrange(i as int, n as int);
                assert(rest[0] == path@[i as int]@);
                assert(rest.drop_first() =~= p.subrange(i + 1, n as int));
            }
            match field_exec(current, path[i]) {
                Some(next) => {
                    current = next;
                },
                None => {
                    return None;
                },
            }
            i = i + 1;
        }
        assert(p.subrange(n as int, n as int) =~= Seq::<Seq<char>>::empty());
        Some(current)
    }

    /// The span of the value at a path of keys.
    pub fn find_field_span(&self, path: &Vec<&str>) -> (r: Option<SpanInfo>)
        ensures
            r == match find_path(*self.root, path@.map_values(|s: &str| s@)) {
                Some(v) => Some(span_of(v)),
                None => None::<SpanInfo>,
            },
    {
        match self.find_field_value(path) {
            Some(v) => Some(SpanInfo { start: v.start, end: v.end }),
            None => None,
        }
    }

    /// The span of the first item of the sequence at `path` that is the string `item_value`.
    pub fn find_array_item_span(&self, path: &Vec<&str>, item_value: &str) -> (r: Option<SpanInfo>)
        ensures
            r == spec_array_item_span(*self.root, path@.map_values(|s: &str| s@), item_value@),
    {
        let node = match self.find_field_value(path) {
            Some(v) => v,
            None => return None,
        };
        match &node.value {
            SpannedValue::Sequence(items) => {
                let len = items.len();
                let mut i: usize = 0;
                while i < len
                    invariant
                        len == items@.len(),
                        i <= len,
                        node.value == SpannedValue::Sequence(*items),
                        find_path(*self.root, path@.map_values(|s: &str| s@)) == Some(*node),
                        first_str_item_from(items@, item_value@, i as int) == first_str_item_from(items@, item_value@, 0),
                    decreases len - i,
                {
                    let hit = match &items[i].value {
                        SpannedValue::Str(s) => str_eq(s.as_str(), item_value),
                        _ => false,
                    };
                    if hit {
                        assert(first_str_item_from(items@, item_value@, i as int) == Some(i as int));
                        return Some(SpanInfo { start: items[i].start, end: items[i].end });
                    }
                    i = i + 1;
                }
                None
            },
            _ => None,
        }
    }

    /// The span of the first reference to cache `cache_name` under `restore_cache`.
    pub fn find_cache_reference_span(&self, cache_name: &str) -> (r: Option<SpanInfo>)
        ensures
            r == spec_cache_reference_span(*self.root, cache_name@),
    {
        let mut path: Vec<&str> = Vec::new();
        path.push("restore_cache");
        assert(path@.map_values(|s: &str| s@) =~= seq!["restore_cache"@]);
        let node = match self.find_field_value(&path) {
            Some(v) => v,
            None => return None,
        };
        match &node.value {
            SpannedValue::Sequence(items) => {
                let len = items.len();
                let mut i: usize = 0;
                while i < len
                    invariant
                        len == items@.len(),
                        i <= len,
                        node.value == SpannedValue::Sequence(*items),
                        find_path(*self.root, seq!["restore_cache"@]) == Some(*node),
                        first_cache_ref_from(items@, cache_name@, i as int) == first_cache_ref_from(items@, cache_name@, 0),
                    decreases len - i,
                {
                    let item = &items[i];
                    match &item.value {
                        SpannedValue::Str(s) => {
                            if str_eq(s.as_str(), cache_name) {
                                assert(cache_ref_at(items@[i as int], cache_name@) == Some(span_of(items@[i as int])));
                                return Some(SpanInfo { start: item.start, end: item.end });
                            }
                        },
                        SpannedValue::Mapping(_) => {
                            proof { reveal_strlit("name"); }
                            match field_exec(item, "name") {
                                Some(name_value) => {
                                    let hit = match &name_value.value {
                                        SpannedValue::Str(s) => str_eq(s.as_str(), cache_name),
                                        _ => false,
                                    };
                                    if hit {
                                        assert(!is_str(items@[i as int], cache_name@));
                                        assert(cache_ref_at(items@[i as int], cache_name@) == Some(span_of(*name_value)));
                                        return Some(SpanInfo { start: name_value.start, end: name_value.end });
                                    }
                                },
                                None => {},
                            }
                        },
                        _ => {},
                    }
                    i = i + 1;
                }
                None
            },
            _ => None,
        }
    }
}

} // verus!
