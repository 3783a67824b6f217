//! The text-level steps around template rendering: which files are templates,
//! include expansion, and plain variable substitution.

use vstd::prelude::*;
use vstd::string::*;
use crate::models::{pairs_map, find_entry, lookup};
use crate::strutil::{to_owned_string, spec_replace, replace_all, signed_decimal, spec_signed_decimal};
use crate::yaml::{YamlValue, YamlView};
use super::variables::VariableResolver;

verus! {

broadcast use vstd::string::group_string_axioms;

/// The extension of a path, as `Path::extension` gives it.
pub uninterp spec fn path_extension(path: Seq<char>) -> Option<Seq<char>>;

/// The extension of a path.
///
/// Trusted: calls `std::path::Path::extension` (and `OsStr::to_str`); the result is
/// only named, as `path_extension` of the path.
#[verifier::external_body]
fn extension_of(path: &str) -> (r: Option<String>)
    ensures
        crate::strutil::opt_str_view(r) == path_extension(path@),
{
    match std::path::Path::new(path).extension() {
        Some(ext) => match ext.to_str() {
            Some(s) => Some(s.to_string()),
            None => None,
        },
        None => None,
    }
}

/// Whether a file is a template: its extension is `j2`.
pub fn is_template_file(path: &str) -> (r: bool)
    ensures
        r == (path_extension(path@) == Some("j2"@)),
{
    match extension_of(path) {
        Some(ext) => crate::strutil::str_eq(ext.as_str(), "j2"),
        None => false,
    }
}

/// The text a variable stands for in plain substitution: strings as they are,
/// numbers and booleans as written; other values have none.
pub open spec fn value_text(v: YamlView) -> Option<Seq<char>> {
    match v {
        YamlView::Str(s) => Some(s),
        YamlView::Int(i) => Some(spec_signed_decimal(i)),
        YamlView::Real(t) => Some(t),
        YamlView::Bool(b) => Some(if b { "true"@ } else { "false"@ }),
        _ => None,
    }
}

/// The text of the variable called `name`, if it has one.
pub open spec fn spec_variable_text(vars: Map<Seq<char>, YamlView>, name: Seq<char>) -> Option<Seq<char>> {
    if vars.dom().contains(name) {
        value_text(vars[name])
    } else {
        None
    }
}

/// The text of the variable called `var_name`, if it has one.
pub fn get_variable_value(resolver: &VariableResolver, var_name: &str) -> (r: Option<String>)
    requires
        resolver.wf(),
    ensures
        crate::strutil::opt_str_view(r) == spec_variable_text(resolver.view_map(), var_name@),
{
    match resolver.get_variable(var_name) {
        Some(value) => match value {
            YamlValue::Str(s) => Some(to_owned_string(s.as_str())),
            YamlValue::Int(i) => Some(signed_decimal(*i)),
            YamlValue::Real(t) => Some(to_owned_string(t.as_str())),
            YamlValue::Bool(b) => {
                proof {
                    reveal_strlit("true");
                    reveal_strlit("false");
                }
                if *b { Some(to_owned_string("true")) } else { Some(to_owned_string("false")) }
            },
            _ => None,
        },
        None => None,
    }
}

/// The views of a list of named texts.
pub open spec fn texts_view(t: Seq<(String, String)>) -> Seq<(Seq<char>, Seq<char>)> {
    t.map_values(|p: (String, String)| (p.0@, p.1@))
}

/// Whether the text holds an `{% include "name" %}` tag.
pub uninterp spec fn has_include_tag(text: Seq<char>) -> bool;

/// What replacing every include tag of the text with `include_replacement` gives.
pub uninterp spec fn includes_replaced(text: Seq<char>, templates: Seq<(Seq<char>, Seq<char>)>) -> Seq<char>;

/// What an include tag is replaced with: the named template's text, or the tag
/// itself when there is no such template.
pub open spec fn spec_include_replacement(templates: Seq<(String, String)>, name: Seq<char>, tag: Seq<char>) -> Seq<char> {
    match lookup(templates, name) {
        Some(t) => t@,
        None => tag,
    }
}

/// The text an include tag is replaced with.
pub fn include_replacement(templates: &Vec<(String, String)>, name: &str, tag: &str) -> (r: String)
    ensures
        r@ == spec_include_replacement(templates@, name@, tag@),
{
    match find_entry(templates, name) {
        Some(t) => to_owned_string(t.as_str()),
        None => to_owned_string(tag),
    }
}

/// Whether a text holds an include tag.
///
/// Trusted: calls `regex::Regex::new` on a fixed, valid pattern for
/// `{% include "name" %}` and then `Regex::is_match`; the result is only named.
#[verifier::external_body]
fn holds_include_tag(text: &str) -> (r: bool)
    ensures
        r == has_include_tag(text@),
{
    let re = regex::Regex::new(r#"\{\%\s*include\s+"([^"]+)"\s*\%\}"#).expect("valid pattern");
    re.is_match(text)
}

/// Replaces each include tag of a text.
///
/// Trusted: calls `regex::Regex::new` on the same pattern and then
/// `Regex::replace_all`, handing it a closure that calls `include_replacement`
/// with the template name and the whole tag. The result is named; the one fact
/// claimed of it is the documented one that a text without a match comes back
/// unchanged. Which text each match becomes is left unsaid.
#[verifier::external_body]
fn replace_include_tags(text: &str, templates: &Vec<(String, String)>) -> (r: String)
    ensures
        r@ == includes_replaced(text@, texts_view(templates@)),
        !has_include_tag(text@) ==> r@ == text@,
{
    let re = regex::Regex::new(r#"\{\%\s*include\s+"([^"]+)"\s*\%\}"#).expect("valid pattern");
    re.replace_all(text, |caps: &regex::Captures| include_replacement(templates, &caps[1], &caps[0])).into_owned()
}

/// Include expansion with at most `depth` more rounds: a round replaces every
/// tag; expansion stops when no tag is left or a round changes nothing.
pub open spec fn expand_includes(text: Seq<char>, templates: Seq<(Seq<char>, Seq<char>)>, depth: nat) -> Seq<char>
    decreases depth,
{
    if depth == 0 || !has_include_tag(text) {
        text
    } else {
        let next = includes_replaced(text, templates);
        if next == text {
            text
        } else {
            expand_includes(next, templates, (depth - 1) as nat)
        }
    }
}

/// Expands `{% include "name" %}` tags with the named templates, nested
/// includes too, for at most ten rounds.
pub fn preprocess_includes(templates: &Vec<(String, String)>, template: &str) -> (r: String)
    ensures
        r@ == expand_includes(template@, texts_view(templates@), 10),
{
    let mut result = to_owned_string(template);
    let mut max_depth: usize = 10;
    while max_depth > 0 && holds_include_tag(result.as_str())
        invariant
            max_depth <= 10,
            expand_includes(result@, texts_view(templates@), max_depth as nat) == expand_includes(template@, texts_view(templates@), 10),
        ensures
            expand_includes(result@, texts_view(templates@), max_depth as nat) == result@,
            expand_includes(result@, texts_view(templates@), max_depth as nat) == expand_includes(template@, texts_view(templates@), 10),
        decreases max_depth,
    {
        let new_result = replace_include_tags(result.as_str(), templates);
        if crate::strutil::str_eq(new_result.as_str(), result.as_str()) {
            break;
        }
        result = new_result;
        max_depth = max_depth - 1;
    }
    result
}

/// The simple variable references of a text, `{{ name }}`, as (whole reference, name), in order.
pub uninterp spec fn variable_refs(text: Seq<char>) -> Seq<(Seq<char>, Seq<char>)>;

/// Finds the simple variable references of a text.
///
/// Trusted: calls `regex::Regex::new` on a fixed, valid pattern for `{{ name }}`
/// and then `Regex::captures_iter`, keeping the whole match and the name; the
/// result is only named. A match holds at least its four braces.
#[verifier::external_body]
fn find_variable_refs(text: &str) -> (r: Vec<(String, String)>)
    ensures
        texts_view(r@) == variable_refs(text@),
        forall|i: int| 0 <= i < r@.len() ==> (#[trigger] r@[i]).0@.len() > 0,
{
    let re = regex::Regex::new(r"\{\{\s*([a-zA-Z_][a-zA-Z0-9_]*)\s*\}\}").expect("valid pattern");
    let mut refs = Vec::new();
    for caps in re.captures_iter(text) {
        if let (Some(whole), Some(name)) = (caps.get(0), caps.get(1)) {
            refs.push((whole.as_str().to_string(), name.as_str().to_string()));
        }
    }
    refs
}

/// Substitution of the references in turn: each reference whose variable has a
/// text is replaced, everywhere, by that text.
pub open spec fn substitute_refs(text: Seq<char>, refs: Seq<(Seq<char>, Seq<char>)>, vars: Map<Seq<char>, YamlView>) -> Seq<char>
    decreases refs.len(),
{
    if refs.len() == 0 {
        text
    } else {
        let before = substitute_refs(text, refs.drop_last(), vars);
        match spec_variable_text(vars, refs.last().1) {
            Some(v) => spec_replace(before, refs.last().0, v),
            None => before,
        }
    }
}

/// Substitutes plain `{{ name }}` references with the variables' texts,
/// leaving everything else as it is.
pub fn render_string_variables_only(resolver: &VariableResolver, content: &str) -> (r: String)
    requires
        resolver.wf(),
    ensures
        r@ == substitute_refs(content@, variable_refs(content@), resolver.view_map()),
{
    let refs = find_variable_refs(content);
    let mut result = to_owned_string(content);
    let n = refs.len();
    let mut i: usize = 0;
    while i < n
        invariant
            n == refs@.len(),
            i <= n,
            resolver.wf(),
            texts_view(refs@) == variable_refs(content@),
            forall|j: int| 0 <= j < refs@.len() ==> (#[trigger] refs@[j]).0@.len() > 0,
            result@ == substitute_refs(content@, texts_view(refs@).subrange(0, i as int), resolver.view_map()),
        decreases n - i,
    {
        proof {
            let sub = texts_view(refs@).subrange(0, i + 1);
            assert(sub.drop_last() =~= texts_view(refs@).subrange(0, i as int));
            assert(sub.last() == (refs@[i as int].0@, refs@[i as int].1@));
        }
        match get_variable_value(resolver, refs[i].1.as_str()) {
            Some(value) => {
                result = replace_all(result.as_str(), refs[i].0.as_str(), value.as_str());
            },
            None => {},
        }
        i = i + 1;
    }
    assert(texts_view(refs@).subrange(0, n as int) =~= texts_view(refs@));
    result
}

} // verus!
