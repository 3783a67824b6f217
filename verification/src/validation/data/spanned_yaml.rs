//! Reading YAML text with the byte range of each of its values.

use vstd::prelude::*;
use super::span_finder::{SpannedYaml, SpannedValue as V};
use yaml_spanned::Value as Node;
use std::ops::Range;

verus! {

#[verifier::external_type_specification]
#[verifier::external_body]
#[verifier::reject_recursive_types(T)]
pub struct ExYamlSpanned<T>(yaml_spanned::Spanned<T>);

#[verifier::external_type_specification]
#[verifier::external_body]
pub struct ExYamlNode(yaml_spanned::Value);

/// The document that `yaml_spanned::from_str` reads from a text, or the text
/// of its error.
pub uninterp spec fn yaml_spanned_document(text: Seq<char>) -> Result<yaml_spanned::Spanned<yaml_spanned::Value>, Seq<char>>;

/// The tree of ours that a `yaml_spanned` node is converted to.
pub uninterp spec fn spanned_tree(node: yaml_spanned::Spanned<yaml_spanned::Value>) -> SpannedYaml;

/// A text read with positions: the converted document, or the parser's message.
pub open spec fn spanned_parse(text: Seq<char>) -> Result<SpannedYaml, Seq<char>> {
    match yaml_spanned_document(text) {
        Ok(d) => Ok(spanned_tree(d)),
        Err(e) => Err(e),
    }
}

/// Reads a YAML document with positions.
///
/// Trusted: calls `yaml_spanned::from_str` and writes its error with
/// `Display`; the result is the document named for the text.
#[verifier::external_body]
fn read_spanned_document(text: &str) -> (r: Result<yaml_spanned::Spanned<yaml_spanned::Value>, String>)
    ensures
        match r {
            Ok(d) => yaml_spanned_document(text@) == Ok::<yaml_spanned::Spanned<yaml_spanned::Value>, Seq<char>>(d),
            Err(e) => yaml_spanned_document(text@) == Err::<yaml_spanned::Spanned<yaml_spanned::Value>, Seq<char>>(e@),
        },
{
    yaml_spanned::from_str(text).map_err(|e| e.to_string())
}

/// Converts a `yaml_spanned` node, and the nodes under it, one for one.
///
/// Trusted: takes the byte range of each node (`Range::from` on its span) and
/// its value variant by variant, a number by its `Display` text. The result is
/// the tree named for the node.
#[verifier::external_body]
fn spanned_of_node(node: &yaml_spanned::Spanned<yaml_spanned::Value>) -> (r: SpannedYaml)
    ensures
        r == spanned_tree(*node),
{
    let r = Range::<usize>::from(node.span());
    SpannedYaml { start: r.start, end: r.end, value: match &node.inner {
        Node::Null => V::Null,
        Node::Bool(b) => V::Bool(*b),
        Node::Number(n) => V::Real(n.to_string()),
        Node::String(s) => V::Str(s.clone()),
        Node::Sequence(items) => V::Sequence(items.iter().map(spanned_of_node).collect()),
        Node::Mapping(m) => V::Mapping(m.iter().map(|(k, x)| (spanned_of_node(k), spanned_of_node(x))).collect()),
        Node::Tagged(t) => V::Tagged(Box::new(spanned_of_node(&t.value))),
    } }
}

/// Parses YAML text keeping the byte range of each value; the parser's
/// message when the text is no YAML document.
pub fn parse_spanned(text: &str) -> (r: Result<SpannedYaml, String>)
    ensures
        match r {
            Ok(s) => spanned_parse(text@) == Ok::<SpannedYaml, Seq<char>>(s),
            Err(e) => spanned_parse(text@) == Err::<SpannedYaml, Seq<char>>(e@),
        },
{
    match read_spanned_document(text) {
        Ok(d) => Ok(spanned_of_node(&d)),
        Err(e) => Err(e),
    }
}

} // verus!
