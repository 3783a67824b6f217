//! Source positions for schema errors: a spanned YAML document is stripped to
//! its plain JSON-like value, and the span of every value is indexed by the
//! pointer (`/key/0/...`) under which a schema validator reports it.

use vstd::prelude::*;
use crate::strutil::{decimal, spec_decimal, to_owned_string, str_eq, decimal_integer, parse_decimal_integer};
use crate::yaml::{YamlValue, YamlView, yaml_view, views_of, entry_views_of, lemma_views_of, lemma_entry_views_of,
    key_is, first_key_index, lemma_first_key_index_is, lemma_first_key_index_from_props};
use super::data::spanned_yaml::{parse_spanned, spanned_parse};
use super::data::span_finder::{SpannedYaml, SpannedValue, SpanInfo, span_of};

verus! {

broadcast use vstd::string::group_string_axioms;

/// The pointer of a child value: the parent's pointer, a slash, and the
/// child's key or index.
pub open spec fn child_pointer(path: Seq<char>, seg: Seq<char>) -> Seq<char> {
    path + "/"@ + seg
}

/// The spans recorded for a value at `path`, in the order they are recorded:
/// the value's own span, then those of its children. A tagged value records
/// its own span and then the tagged value's, under the same pointer; mapping
/// entries whose key is not a string are skipped.
pub open spec fn span_log(n: SpannedYaml, path: Seq<char>) -> Seq<(Seq<char>, SpanInfo)>
    decreases n,
{
    seq![(path, span_of(n))] + match n.value {
        SpannedValue::Sequence(items) => {
            proof {
                assert(decreases_to!(n => n.value));
                assert(decreases_to!(n.value => items));
                assert(decreases_to!(items => items@));
            }
            items_log(items@, path)
        },
        SpannedValue::Mapping(m) => {
            proof {
                assert(decreases_to!(n => n.value));
                assert(decreases_to!(n.value => m));
                assert(decreases_to!(m => m@));
            }
            entries_log(m@, path)
        },
        SpannedValue::Tagged(inner) => {
            proof {
                assert(decreases_to!(n => n.value));
                assert(decreases_to!(n.value => inner));
            }
            span_log(*inner, path)
        },
        _ => Seq::empty(),
    }
}

/// The spans recorded for the items of a sequence at `path`.
pub open spec fn items_log(items: Seq<SpannedYaml>, path: Seq<char>) -> Seq<(Seq<char>, SpanInfo)>
    decreases items,
{
    if items.len() == 0 {
        Seq::empty()
    } else {
        proof {
            assert(decreases_to!(items => items.subrange(0, items.len() - 1)));
            assert(decreases_to!(items => items[items.len() - 1]));
        }
        items_log(items.subrange(0, items.len() - 1), path)
            + span_log(items[items.len() - 1], child_pointer(path, spec_decimal((items.len() - 1) as nat)))
    }
}

/// The spans recorded for the entries of a mapping at `path`.
pub open spec fn entries_log(m: Seq<(SpannedYaml, SpannedYaml)>, path: Seq<char>) -> Seq<(Seq<char>, SpanInfo)>
    decreases m,
{
    if m.len() == 0 {
        Seq::empty()
    } else {
        proof {
            assert(decreases_to!(m => m.subrange(0, m.len() - 1)));
            assert(decreases_to!(m => m[m.len() - 1]));
            assert(decreases_to!(m[m.len() - 1] => m[m.len() - 1].1));
        }
        entries_log(m.subrange(0, m.len() - 1), path) + match m[m.len() - 1].0.value {
            SpannedValue::Str(k) => span_log(m[m.len() - 1].1, child_pointer(path, k@)),
            _ => Seq::empty(),
        }
    }
}

/// Sets `key` in a JSON-like object: the entry with that key gets the value,
/// or a new entry is added at the end.
pub open spec fn object_set(entries: Seq<(YamlView, YamlView)>, key: Seq<char>, v: YamlView) -> Seq<(YamlView, YamlView)> {
    match first_key_index(entries, key) {
        Some(i) => entries.update(i, (YamlView::Str(key), v)),
        None => entries.push((YamlView::Str(key), v)),
    }
}

/// The plain value of a spanned value: spans and tags dropped, a number held
/// by its text read as an integer where it is one, and each mapping turned
/// into an object of its string-keyed entries, a repeated key keeping its
/// last value.
pub open spec fn stripped(n: SpannedYaml) -> YamlView
    decreases n,
{
    match n.value {
        SpannedValue::Null => YamlView::Null,
        SpannedValue::Bool(b) => YamlView::Bool(b),
        SpannedValue::Int(i) => YamlView::Int(i as int),
        SpannedValue::Real(t) => match decimal_integer(t@) {
            Some(v) => YamlView::Int(v),
            None => YamlView::Real(t@),
        },
        SpannedValue::Str(s) => YamlView::Str(s@),
        SpannedValue::Sequence(items) => {
            proof {
                assert(decreases_to!(n => n.value));
                assert(decreases_to!(n.value => items));
                assert(decreases_to!(items => items@));
            }
            YamlView::Sequence(stripped_items(items@))
        },
        SpannedValue::Mapping(m) => {
            proof {
                assert(decreases_to!(n => n.value));
                assert(decreases_to!(n.value => m));
                assert(decreases_to!(m => m@));
            }
            YamlView::Mapping(stripped_object(m@))
        },
        SpannedValue::Tagged(inner) => {
            proof {
                assert(decreases_to!(n => n.value));
                assert(decreases_to!(n.value => inner));
            }
            stripped(*inner)
        },
    }
}

/// The plain values of sequence items.
pub open spec fn stripped_items(items: Seq<SpannedYaml>) -> Seq<YamlView>
    decreases items,
{
    if items.len() == 0 {
        Seq::empty()
    } else {
        proof {
            assert(decreases_to!(items => items.subrange(0, items.len() - 1)));
            assert(decreases_to!(items => items[items.len() - 1]));
        }
        stripped_items(items.subrange(0, items.len() - 1)).push(stripped(items[items.len() - 1]))
    }
}

/// The object of the string-keyed entries of a mapping.
pub open spec fn stripped_object(m: Seq<(SpannedYaml, SpannedYaml)>) -> Seq<(YamlView, YamlView)>
    decreases m,
{
    if m.len() == 0 {
        Seq::empty()
    } else {
        proof {
            assert(decreases_to!(m => m.subrange(0, m.len() - 1)));
            assert(decreases_to!(m => m[m.len() - 1]));
            assert(decreases_to!(m[m.len() - 1] => m[m.len() - 1].1));
        }
        let prev = stripped_object(m.subrange(0, m.len() - 1));
        match m[m.len() - 1].0.value {
            SpannedValue::Str(k) => object_set(prev, k@, stripped(m[m.len() - 1].1)),
            _ => prev,
        }
    }
}

/// Each item's plain value stands at the item's index.
pub proof fn lemma_stripped_items(items: Seq<SpannedYaml>)
    ensures
        stripped_items(items).len() == items.len(),
        forall|j: int| 0 <= j < items.len() ==> #[trigger] stripped_items(items)[j] == stripped(items[j]),
    decreases items.len(),
{
    if items.len() > 0 {
        let prev = items.subrange(0, items.len() - 1);
        lemma_stripped_items(prev);
        assert forall|j: int| 0 <= j < items.len() implies #[trigger] stripped_items(items)[j] == stripped(items[j]) by {
            if j < items.len() - 1 {
                assert(prev[j] == items[j]);
            }
        }
    }
}

/// The view of a span index: pointers as character sequences.
pub open spec fn log_view(v: Seq<(String, SpanInfo)>) -> Seq<(Seq<char>, SpanInfo)> {
    v.map_values(|e: (String, SpanInfo)| (e.0@, e.1))
}

/// The span recorded last under `p`, if any (a later record replaces an earlier one).
pub open spec fn last_span(log: Seq<(Seq<char>, SpanInfo)>, p: Seq<char>) -> Option<SpanInfo>
    decreases log.len(),
{
    if log.len() == 0 {
        None
    } else if log[log.len() - 1].0 == p {
        Some(log[log.len() - 1].1)
    } else {
        last_span(log.subrange(0, log.len() - 1), p)
    }
}

/// The span an error at `p` is reported at: the one recorded under `p`, else
/// the document's own, else the empty span at the start.
pub open spec fn error_span(log: Seq<(Seq<char>, SpanInfo)>, p: Seq<char>) -> SpanInfo {
    match last_span(log, p) {
        Some(s) => s,
        None => match last_span(log, Seq::empty()) {
            Some(s) => s,
            None => SpanInfo { start: 0, end: 0 },
        },
    }
}

/// A schema error placed in its source text.
#[derive(Debug)]
pub struct ValidationError {
    /// The name of the source (its file path).
    pub source_name: String,
    /// The whole source text.
    pub source_code: String,
    /// Byte offset of the labelled span.
    pub offset: usize,
    /// Byte length of the labelled span.
    pub length: usize,
    pub message: String,
}

/// A parsed document with the span of each of its values.
pub struct SpannedValidator {
    spans: Vec<(String, SpanInfo)>,
    json_value: YamlValue,
    source: String,
    file_path: String,
}

/// `path` followed by a slash and `seg`.
fn child_path(path: &str, seg: &str) -> (r: String)
    ensures
        r@ == child_pointer(path@, seg@),
{
    let mut r = to_owned_string(path);
    r.append("/");
    r.append(seg);
    r
}

/// Sets `key` to `v` in an object held as entries.
fn object_insert(entries: &mut Vec<(YamlValue, YamlValue)>, key: &str, v: YamlValue)
    ensures
        entry_views_of(final(entries)@) == object_set(entry_views_of(old(entries)@), key@, v@),
{
    proof { lemma_entry_views_of(old(entries)@); }
    let ghost ev = entry_views_of(old(entries)@);
    let n = entries.len();
    let mut i: usize = 0;
    while i < n
        invariant
            n == entries@.len(),
            *entries == *old(entries),
            ev == entry_views_of(entries@),
            ev.len() == n,
            forall|j: int| 0 <= j < n ==> #[trigger] ev[j] == (yaml_view(entries@[j].0), yaml_view(entries@[j].1)),
            i <= n,
            forall|j: int| 0 <= j < i ==> !key_is(#[trigger] ev[j].0, key@),
        decreases n - i,
    {
        let found = match &entries[i].0 {
            YamlValue::Str(s) => str_eq(s.as_str(), key),
            _ => false,
        };
        if found {
            proof { lemma_first_key_index_is(ev, key@, i as int); }
            let ghost old_entries = entries@;
            entries.set(i, (YamlValue::Str(to_owned_string(key)), v));
            proof {
                lemma_entry_views_of(entries@);
                assert(entry_views_of(entries@) =~= ev.update(i as int, (YamlView::Str(key@), v@))) by {
                    assert forall|j: int| 0 <= j < n implies #[trigger] entry_views_of(entries@)[j] == ev.update(i as int, (YamlView::Str(key@), v@))[j] by {
                        if j != i as int {
                            assert(entries@[j] == old_entries[j]);
                        }
                    }
                }
            }
            return;
        }
        i = i + 1;
    }
    proof {
        lemma_first_key_index_from_props(ev, key@, 0);
    }
    entries.push((YamlValue::Str(to_owned_string(key)), v));
    proof {
        lemma_entry_views_of(entries@);
        assert(entry_views_of(entries@) =~= ev.push((YamlView::Str(key@), v@))) by {
            assert forall|j: int| 0 <= j < n + 1 implies #[trigger] entry_views_of(entries@)[j] == ev.push((YamlView::Str(key@), v@))[j] by {
                if j < n {
                    assert(entries@[j] == old(entries)@[j]);
                }
            }
        }
    }
}

impl SpannedValidator {
    /// The recorded spans, by pointer, in the order they were recorded.
    pub closed spec fn span_index(&self) -> Seq<(Seq<char>, SpanInfo)> {
        log_view(self.spans@)
    }

    /// The plain value of the document.
    pub closed spec fn json_view(&self) -> YamlView {
        self.json_value@
    }

    /// The source text.
    pub closed spec fn source_view(&self) -> Seq<char> {
        self.source@
    }

    /// The name of the source.
    pub closed spec fn file_path_view(&self) -> Seq<char> {
        self.file_path@
    }

    /// Strips the spans of a document with its positions.
    fn from_spanned(file_path: String, source: String, spanned: &SpannedYaml) -> (r: Self)
        ensures
            r.span_index() == span_log(*spanned, Seq::empty()),
            r.json_view() == stripped(*spanned),
            r.source_view() == source@,
            r.file_path_view() == file_path@,
    {
        let mut spans: Vec<(String, SpanInfo)> = Vec::new();
        let json_value = Self::strip_spans_and_index(spanned, String::new(), &mut spans);
        assert(log_view(spans@) =~= span_log(*spanned, Seq::empty()));
        SpannedValidator { spans, json_value, source, file_path }
    }

    /// Parses the text read from `file_path` with positions, strips the spans
    /// and indexes them; the parser's message when the text cannot be parsed.
    pub fn new(file_path: String, source: String) -> (r: Result<Self, String>)
        ensures
            match spanned_parse(source@) {
                Ok(root) => r matches Ok(v) && v.span_index() == span_log(root, Seq::empty())
                    && v.json_view() == stripped(root) && v.source_view() == source@ && v.file_path_view() == file_path@,
                Err(e) => r matches Err(m) && m@ == e,
            },
    {
        match parse_spanned(source.as_str()) {
            Ok(root) => Ok(Self::from_spanned(file_path, source, &root)),
            Err(e) => Err(e),
        }
    }

    /// The plain value of the document.
    pub fn get_json_value(&self) -> (r: &YamlValue)
        ensures
            r@ == self.json_view(),
    {
        &self.json_value
    }

    /// The span an error at `instance_path` is reported at.
    pub fn span_for(&self, instance_path: &str) -> (r: SpanInfo)
        ensures
            r == error_span(self.span_index(), instance_path@),
    {
        let root = "";
        proof {
            reveal_strlit("");
            assert(root@ =~= Seq::<char>::empty());
        }
        match self.last_recorded(instance_path) {
            Some(s) => s,
            None => match self.last_recorded(root) {
                Some(s) => s,
                None => SpanInfo { start: 0, end: 0 },
            },
        }
    }

    /// The span recorded last under `p`.
    fn last_recorded(&self, p: &str) -> (r: Option<SpanInfo>)
        ensures
            r == last_span(self.span_index(), p@),
    {
        let ghost log = self.span_index();
        let mut k: usize = self.spans.len();
        assert(log.subrange(0, k as int) =~= log);
        while k > 0
            invariant
                k <= self.spans@.len(),
                log == log_view(self.spans@),
                last_span(log, p@) == last_span(log.subrange(0, k as int), p@),
            decreases k,
        {
            let e = &self.spans[k - 1];
            let ghost pre = log.subrange(0, k as int);
            assert(pre.subrange(0, k - 1) =~= log.subrange(0, k - 1));
            if str_eq(e.0.as_str(), p) {
                return Some(e.1);
            }
            k = k - 1;
        }
        assert(log.subrange(0, 0) =~= Seq::<(Seq<char>, SpanInfo)>::empty());
        None
    }

    /// The error for a schema violation at `instance_path`, labelled at the
    /// span recorded for it (see `error_span`).
    pub fn create_error(&self, instance_path: &str, message: String) -> (e: ValidationError)
        requires
            error_span(self.span_index(), instance_path@).start <= error_span(self.span_index(), instance_path@).end,
        ensures
            e.source_name@ == self.file_path_view(),
            e.source_code@ == self.source_view(),
            e.offset == error_span(self.span_index(), instance_path@).start,
            e.length == error_span(self.span_index(), instance_path@).end - error_span(self.span_index(), instance_path@).start,
            e.message == message,
    {
        let span = self.span_for(instance_path);
        ValidationError {
            source_name: to_owned_string(self.file_path.as_str()),
            source_code: to_owned_string(self.source.as_str()),
            offset: span.start,
            length: span.end - span.start,
            message,
        }
    }

    /// Records the span of `spanned` and of each value inside it under its
    /// pointer, and gives its plain value.
    fn strip_spans_and_index(spanned: &SpannedYaml, path: String, spans: &mut Vec<(String, SpanInfo)>) -> (r: YamlValue)
        ensures
            r@ == stripped(*spanned),
            log_view(final(spans)@) == log_view(old(spans)@) + span_log(*spanned, path@),
        decreases spanned,
    {
        let ghost start_log = log_view(spans@);
        spans.push((to_owned_string(path.as_str()), SpanInfo { start: spanned.start, end: spanned.end }));
        assert(log_view(spans@) =~= start_log + seq![(path@, span_of(*spanned))]);
        let ghost head = log_view(spans@);
        match &spanned.value {
            SpannedValue::Null => {
                assert(log_view(spans@) =~= start_log + span_log(*spanned, path@));
                YamlValue::Null
            },
            SpannedValue::Bool(b) => {
                assert(log_view(spans@) =~= start_log + span_log(*spanned, path@));
                YamlValue::Bool(*b)
            },
            SpannedValue::Int(i) => {
                assert(log_view(spans@) =~= start_log + span_log(*spanned, path@));
                YamlValue::Int(*i)
            },
            SpannedValue::Real(t) => {
                assert(log_view(spans@) =~= start_log + span_log(*spanned, path@));
                match parse_decimal_integer(t.as_str()) {
                    Some(v) => YamlValue::Int(v),
                    None => YamlValue::Real(to_owned_string(t.as_str())),
                }
            },
            SpannedValue::Str(s) => {
                assert(log_view(spans@) =~= start_log + span_log(*spanned, path@));
                YamlValue::Str(to_owned_string(s.as_str()))
            },
            SpannedValue::Tagged(inner) => {
                proof {
                    assert(decreases_to!(*spanned => spanned.value));
                    assert(decreases_to!(spanned.value => *inner));
                }
                let r = Self::strip_spans_and_index(inner, path, spans);
                assert(log_view(spans@) =~= start_log + span_log(*spanned, path@));
                r
            },
            SpannedValue::Sequence(items) => {
                let mut out: Vec<YamlValue> = Vec::new();
                let n = items.len();
                let mut i: usize = 0;
                while i < n
                    invariant
                        n == items@.len(),
                        i <= n,
                        spanned.value == SpannedValue::Sequence(*items),
                        out@.len() == i,
                        forall|j: int| 0 <= j < i ==> #[trigger] yaml_view(out@[j]) == stripped(items@[j]),
                        log_view(spans@) == head + items_log(items@.subrange(0, i as int), path@),
                    decreases n - i,
                {
                    proof {
                        assert(decreases_to!(*spanned => spanned.value));
                        assert(decreases_to!(spanned.value => spanned.value->Sequence_0));
                        assert(decreases_to!(*items => items@));
                        assert(decreases_to!(items@ => items@[i as int]));
                    }
                    let idx = decimal(i as u128);
                    let item_path = child_path(path.as_str(), idx.as_str());
                    let ghost before = log_view(spans@);
                    let v = Self::strip_spans_and_index(&items[i], item_path, spans);
                    proof {
                        let pre = items@.subrange(0, i as int + 1);
                        assert(pre.subrange(0, i as int) =~= items@.subrange(0, i as int));
                        assert(pre[i as int] == items@[i as int]);
                        assert(items_log(pre, path@) == items_log(items@.subrange(0, i as int), path@)
                            + span_log(items@[i as int], child_pointer(path@, spec_decimal(i as nat))));
                        assert(log_view(spans@) =~= head + items_log(pre, path@));
                    }
                    out.push(v);
                    i = i + 1;
                }
                proof {
                    assert(items@.subrange(0, n as int) =~= items@);
                    lemma_views_of(out@);
                    lemma_stripped_items(items@);
                    assert(views_of(out@) =~= stripped_items(items@));
                    assert(log_view(spans@) =~= start_log + span_log(*spanned, path@));
                }
                YamlValue::Sequence(out)
            },
            SpannedValue::Mapping(m) => {
                let mut out: Vec<(YamlValue, YamlValue)> = Vec::new();
                let n = m.len();
                let mut i: usize = 0;
                assert(entry_views_of(out@) =~= stripped_object(m@.subrange(0, 0)));
                while i < n
                    invariant
                        n == m@.len(),
                        i <= n,
                        spanned.value == SpannedValue::Mapping(*m),
                        entry_views_of(out@) == stripped_object(m@.subrange(0, i as int)),
                        log_view(spans@) == head + entries_log(m@.subrange(0, i as int), path@),
                    decreases n - i,
                {
                    proof {
                        assert(decreases_to!(*spanned => spanned.value));
                        assert(decreases_to!(spanned.value => spanned.value->Mapping_0));
                        assert(decreases_to!(*m => m@));
                        assert(decreases_to!(m@ => m@[i as int]));
                        assert(decreases_to!(m@[i as int] => m@[i as int].1));
                    }
                    let ghost pre = m@.subrange(0, i as int + 1);
                    proof {
                        assert(pre.subrange(0, i as int) =~= m@.subrange(0, i as int));
                        assert(pre[i as int] == m@[i as int]);
                    }
                    match &m[i].0.value {
                        SpannedValue::Str(k) => {
                            let value_path = child_path(path.as_str(), k.as_str());
                            let v = Self::strip_spans_and_index(&m[i].1, value_path, spans);
                            object_insert(&mut out, k.as_str(), v);
                        },
                        _ => {},
                    }
                    proof {
                        assert(log_view(spans@) =~= head + entries_log(pre, path@));
                    }
                    i = i + 1;
                }
                proof {
                    assert(m@.subrange(0, n as int) =~= m@);
                    assert(log_view(spans@) =~= start_log + span_log(*spanned, path@));
                }
                YamlValue::Mapping(out)
            },
        }
    }
}

} // verus!
