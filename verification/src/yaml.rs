//! A YAML value model.
//!
//! Mapping entries keep their order and their keys may be any value, as in
//! YAML itself; numbers are held as integers (a number that is not an
//! integer is held by its text).

use vstd::prelude::*;
use crate::strutil::{str_eq, to_owned_string};

verus! {

/// A YAML value.
#[derive(Debug, PartialEq)]
pub enum YamlValue {
    Null,
    Bool(bool),
    Int(i128),
    /// A number that is not an integer, by its text.
    Real(String),
    Str(String),
    Sequence(Vec<YamlValue>),
    Mapping(Vec<(YamlValue, YamlValue)>),
}

/// The mathematical value of a `YamlValue`.
pub enum YamlView {
    Null,
    Bool(bool),
    Int(int),
    Real(Seq<char>),
    Str(Seq<char>),
    Sequence(Seq<YamlView>),
    Mapping(Seq<(YamlView, YamlView)>),
}

/// The view of a value.
pub open spec fn yaml_view(v: YamlValue) -> YamlView
    decreases v,
{
    match v {
        YamlValue::Null => YamlView::Null,
        YamlValue::Bool(b) => YamlView::Bool(b),
        YamlValue::Int(i) => YamlView::Int(i as int),
        YamlValue::Real(s) => YamlView::Real(s@),
        YamlValue::Str(s) => YamlView::Str(s@),
        YamlValue::Sequence(items) => {
            proof {
                assert(decreases_to!(v => items));
                assert(decreases_to!(items => items@));
            }
            YamlView::Sequence(views_of(items@))
        },
        YamlValue::Mapping(entries) => {
            proof {
                assert(decreases_to!(v => entries));
                assert(decreases_to!(entries => entries@));
            }
            YamlView::Mapping(entry_views_of(entries@))
        },
    }
}

/// The views of a sequence of values.
pub open spec fn views_of(s: Seq<YamlValue>) -> Seq<YamlView>
    decreases s,
{
    if s.len() == 0 {
        Seq::empty()
    } else {
        proof {
            assert(decreases_to!(s => s[0]));
            assert(decreases_to!(s => s.subrange(1, s.len() as int)));
        }
        seq![yaml_view(s[0])] + views_of(s.subrange(1, s.len() as int))
    }
}

/// The views of a sequence of mapping entries.
pub open spec fn entry_views_of(s: Seq<(YamlValue, YamlValue)>) -> Seq<(YamlView, YamlView)>
    decreases s,
{
    if s.len() == 0 {
        Seq::empty()
    } else {
        proof {
            assert(decreases_to!(s => s[0]));
            assert(decreases_to!(s[0] => s[0].0));
            assert(decreases_to!(s[0] => s[0].1));
            assert(decreases_to!(s => s.subrange(1, s.len() as int)));
        }
        seq![(yaml_view(s[0].0), yaml_view(s[0].1))] + entry_views_of(s.subrange(1, s.len() as int))
    }
}

impl View for YamlValue {
    type V = YamlView;

    open spec fn view(&self) -> YamlView {
        yaml_view(*self)
    }
}

pub proof fn lemma_views_of(s: Seq<YamlValue>)
    ensures
        views_of(s).len() == s.len(),
        forall|i: int| 0 <= i < s.len() ==> #[trigger] views_of(s)[i] == yaml_view(s[i]),
    decreases s.len(),
{
    if s.len() > 0 {
        let rest = s.subrange(1, s.len() as int);
        lemma_views_of(rest);
        assert forall|i: int| 0 <= i < s.len() implies #[trigger] views_of(s)[i] == yaml_view(s[i]) by {
            if i > 0 {
                assert(rest[i - 1] == s[i]);
            }
        }
    }
}

pub proof fn lemma_entry_views_of(s: Seq<(YamlValue, YamlValue)>)
    ensures
        entry_views_of(s).len() == s.len(),
        forall|i: int| 0 <= i < s.len() ==> #[trigger] entry_views_of(s)[i] == (yaml_view(s[i].0), yaml_view(s[i].1)),
    decreases s.len(),
{
    if s.len() > 0 {
        let rest = s.subrange(1, s.len() as int);
        lemma_entry_views_of(rest);
        assert forall|i: int| 0 <= i < s.len() implies #[trigger] entry_views_of(s)[i] == (yaml_view(s[i].0), yaml_view(s[i].1)) by {
            if i > 0 {
                assert(rest[i - 1] == s[i]);
            }
        }
    }
}

/// The string held by `v`, if it is a string.
pub open spec fn spec_as_str(v: YamlView) -> Option<Seq<char>> {
    match v {
        YamlView::Str(s) => Some(s),
        _ => None,
    }
}

/// Whether the key `k` is the string `key`.
pub open spec fn key_is(k: YamlView, key: Seq<char>) -> bool {
    spec_as_str(k) == Some(key)
}

/// Index of the first entry whose key is the string `key`, from `start` on.
pub open spec fn first_key_index_from(entries: Seq<(YamlView, YamlView)>, key: Seq<char>, start: int) -> Option<int>
    decreases entries.len() - start,
{
    if start < 0 || start >= entries.len() {
        None
    } else if key_is(entries[start].0, key) {
        Some(start)
    } else {
        first_key_index_from(entries, key, start + 1)
    }
}

/// Index of the first entry whose key is the string `key`.
pub open spec fn first_key_index(entries: Seq<(YamlView, YamlView)>, key: Seq<char>) -> Option<int> {
    first_key_index_from(entries, key, 0)
}

/// The value of a mapping under the string key `key` (its first such entry).
pub open spec fn spec_get(v: YamlView, key: Seq<char>) -> Option<YamlView> {
    match v {
        YamlView::Mapping(entries) => match first_key_index(entries, key) {
            Some(i) => Some(entries[i].1),
            None => None,
        },
        _ => None,
    }
}

pub proof fn lemma_first_key_index_from_props(entries: Seq<(YamlView, YamlView)>, key: Seq<char>, start: int)
    requires
        0 <= start,
    ensures
        first_key_index_from(entries, key, start) matches Some(i) ==> start <= i < entries.len()
            && key_is(entries[i].0, key)
            && forall|j: int| start <= j < i ==> !key_is(entries[j].0, key),
        first_key_index_from(entries, key, start) is None ==> forall|j: int| start <= j < entries.len() ==> !key_is(entries[j].0, key),
    decreases entries.len() - start,
{
    if start < entries.len() && !key_is(entries[start].0, key) {
        lemma_first_key_index_from_props(entries, key, start + 1);
    }
}

/// `i` is the first index whose key is `key` exactly when it holds `key` and no earlier entry does.
pub proof fn lemma_first_key_index_is(entries: Seq<(YamlView, YamlView)>, key: Seq<char>, i: int)
    requires
        0 <= i < entries.len(),
        key_is(entries[i].0, key),
        forall|j: int| 0 <= j < i ==> !key_is(#[trigger] entries[j].0, key),
    ensures
        first_key_index(entries, key) == Some(i),
{
    lemma_first_key_index_from_props(entries, key, 0);
    let fi = first_key_index(entries, key);
    if fi is None {
        assert(!key_is(entries[i].0, key));
    } else {
        let k2 = fi->0;
        if k2 < i {
            assert(!key_is(entries[k2].0, key));
        }
        if k2 > i {
            assert(!key_is(entries[i].0, key));
        }
    }
}

impl YamlValue {
    /// The string held by this value, if it is a string.
    pub fn as_str(&self) -> (r: Option<&str>)
        ensures
            match r {
                Some(s) => spec_as_str(self@) == Some(s@),
                None => spec_as_str(self@) is None,
            },
    {
        match self {
            YamlValue::Str(s) => Some(s.as_str()),
            _ => None,
        }
    }

    /// The boolean held by this value, if it is a boolean.
    pub fn as_bool(&self) -> (r: Option<bool>)
        ensures
            r == (match self@ {
                YamlView::Bool(b) => Some(b),
                _ => None::<bool>,
            }),
    {
        match self {
            YamlValue::Bool(b) => Some(*b),
            _ => None,
        }
    }

    /// The non-negative integer held by this value, if it fits in `u64`.
    pub fn as_u64(&self) -> (r: Option<u64>)
        ensures
            r == (match self@ {
                YamlView::Int(i) => if 0 <= i <= u64::MAX { Some(i as u64) } else { None::<u64> },
                _ => None::<u64>,
            }),
    {
        match self {
            YamlValue::Int(i) => {
                if 0 <= *i && *i <= 0xffff_ffff_ffff_ffffi128 {
                    Some(*i as u64)
                } else {
                    None
                }
            },
            _ => None,
        }
    }

    /// Whether this value is a mapping.
    pub fn is_mapping(&self) -> (r: bool)
        ensures
            r == (self@ is Mapping),
    {
        match self {
            YamlValue::Mapping(_) => true,
            _ => false,
        }
    }

    /// The value of this mapping under the string key `key` (the first such entry).
    pub fn get(&self, key: &str) -> (r: Option<&YamlValue>)
        ensures
            match r {
                Some(v) => spec_get(self@, key@) == Some(v@),
                None => spec_get(self@, key@) is None,
            },
    {
        match self {
            YamlValue::Mapping(entries) => {
                proof {
                    lemma_entry_views_of(entries@);
                }
                let ghost ev = entry_views_of(entries@);
                let n = entries.len();
                let mut i: usize = 0;
                while i < n
                    invariant
                        n == entries@.len(),
                        i <= n,
                        ev == entry_views_of(entries@),
                        ev.len() == n,
                        *self == YamlValue::Mapping(*entries),
                        forall|j: int| 0 <= j < n ==> #[trigger] ev[j] == (yaml_view(entries@[j].0), yaml_view(entries@[j].1)),
                        forall|j: int| 0 <= j < i ==> !key_is(#[trigger] ev[j].0, key@),
                    decreases n - i,
                {
                    let k = &entries[i].0;
                    let hit = match k {
                        YamlValue::Str(s) => str_eq(s.as_str(), key),
                        _ => false,
                    };
                    if hit {
                        proof {
                            assert(key_is(ev[i as int].0, key@));
                            lemma_first_key_index_is(ev, key@, i as int);
                        }
                        return Some(&entries[i].1);
                    }
                    assert(!key_is(ev[i as int].0, key@));
                    i = i + 1;
                }
                proof {
                    lemma_first_key_index_from_props(ev, key@, 0);
                }
                None
            },
            _ => None,
        }
    }

    /// Number of entries of a mapping or elements of a sequence; 0 otherwise.
    pub fn len(&self) -> (r: usize)
        ensures
            r == (match self@ {
                YamlView::Mapping(e) => e.len(),
                YamlView::Sequence(s) => s.len(),
                _ => 0,
            }),
    {
        match self {
            YamlValue::Mapping(e) => {
                proof { lemma_entry_views_of(e@); }
                e.len()
            },
            YamlValue::Sequence(s) => {
                proof { lemma_views_of(s@); }
                s.len()
            },
            _ => 0,
        }
    }

    /// A copy of this value with the same view.
    pub fn deep_copy(&self) -> (r: YamlValue)
        ensures
            r@ == self@,
        decreases *self,
    {
        match self {
            YamlValue::Null => YamlValue::Null,
            YamlValue::Bool(b) => YamlValue::Bool(*b),
            YamlValue::Int(i) => YamlValue::Int(*i),
            YamlValue::Real(s) => YamlValue::Real(to_owned_string(s.as_str())),
            YamlValue::Str(s) => YamlValue::Str(to_owned_string(s.as_str())),
            YamlValue::Sequence(items) => {
                proof { lemma_views_of(items@); }
                let mut out: Vec<YamlValue> = Vec::new();
                let n = items.len();
                let mut i: usize = 0;
                while i < n
                    invariant
                        n == items@.len(),
                        i <= n,
                        out@.len() == i,
                        forall|j: int| 0 <= j < i ==> yaml_view(#[trigger] out@[j]) == yaml_view(items@[j]),
                        *self == YamlValue::Sequence(*items),
                    decreases n - i,
                {
                    proof {
                        assert(decreases_to!(*self => self->Sequence_0));
                        assert(decreases_to!(*items => items@));
                        assert(decreases_to!(items@ => items@[i as int]));
                    }
                    let c = items[i].deep_copy();
                    out.push(c);
                    i = i + 1;
                }
                proof {
                    lemma_views_of(out@);
                    assert(views_of(out@) =~= views_of(items@));
                }
                YamlValue::Sequence(out)
            },
            YamlValue::Mapping(entries) => {
                proof { lemma_entry_views_of(entries@); }
                let mut out: Vec<(YamlValue, YamlValue)> = Vec::new();
                let n = entries.len();
                let mut i: usize = 0;
                while i < n
                    invariant
                        n == entries@.len(),
                        i <= n,
                        out@.len() == i,
                        forall|j: int| 0 <= j < i ==> yaml_view(#[trigger] out@[j].0) == yaml_view(entries@[j].0)
                            && yaml_view(out@[j].1) == yaml_view(entries@[j].1),
                        *self == YamlValue::Mapping(*entries),
                    decreases n - i,
                {
                    proof {
                        assert(decreases_to!(*self => self->Mapping_0));
                        assert(decreases_to!(*entries => entries@));
                        assert(decreases_to!(entries@ => entries@[i as int]));
                        assert(decreases_to!(entries@[i as int] => entries@[i as int].0));
                        assert(decreases_to!(entries@[i as int] => entries@[i as int].1));
                    }
                    let k = entries[i].0.deep_copy();
                    let v = entries[i].1.deep_copy();
                    out.push((k, v));
                    i = i + 1;
                }
                proof {
                    lemma_entry_views_of(out@);
                    assert(entry_views_of(out@) =~= entry_views_of(entries@));
                }
                YamlValue::Mapping(out)
            },
        }
    }
}

/// A string value.
pub fn ystr(s: &str) -> (r: YamlValue)
    ensures
        r@ == YamlView::Str(s@),
{
    YamlValue::Str(to_owned_string(s))
}

/// Appends an entry to a list of mapping entries.
pub fn push_entry(entries: &mut Vec<(YamlValue, YamlValue)>, k: YamlValue, v: YamlValue)
    ensures
        entry_views_of(final(entries)@) == entry_views_of(old(entries)@).push((k@, v@)),
{
    let ghost kv = k@;
    let ghost vv = v@;
    entries.push((k, v));
    proof {
        lemma_entry_views_of(old(entries)@);
        lemma_entry_views_of(entries@);
        assert(entry_views_of(entries@) =~= entry_views_of(old(entries)@).push((kv, vv)));
    }
}

/// Appends an item to a list of sequence items.
pub fn push_item(items: &mut Vec<YamlValue>, v: YamlValue)
    ensures
        views_of(final(items)@) == views_of(old(items)@).push(v@),
{
    let ghost vv = v@;
    items.push(v);
    proof {
        lemma_views_of(old(items)@);
        lemma_views_of(items@);
        assert(views_of(items@) =~= views_of(old(items)@).push(vv));
    }
}

} // verus!
