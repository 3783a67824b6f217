//! A data validation problem: the file, its text, the place, and the message.

use vstd::prelude::*;
use vstd::string::*;
use crate::strutil::{to_owned_string, join, join_strings, strs_view};
use super::span_finder::SpanInfo;

verus! {

broadcast use vstd::string::group_string_axioms;

/// A reference problem found in a file.
#[derive(Debug, PartialEq)]
pub struct DataValidationError {
    /// The file's path, with a space before it (so that terminals can link it).
    pub file_path: String,
    /// The file's text.
    pub content: String,
    /// Where the problem is.
    pub span: SpanInfo,
    pub message: String,
}

impl DataValidationError {
    /// A problem at `span` of the file at `file_path`.
    pub fn new(file_path: &str, content: String, span: SpanInfo, message: String) -> (r: Self)
        ensures
            r.file_path@ == " "@ + file_path@,
            r.content == content,
            r.span == span,
            r.message == message,
    {
        let mut padded = to_owned_string(" ");
        padded.append(file_path);
        DataValidationError { file_path: padded, content, span, message }
    }

    /// What a validation refused for this problem reports once the problem
    /// itself has been shown: the same text for every problem.
    pub fn failure_message(&self) -> (r: String)
        ensures
            r@ == data_validation_failed(),
    {
        to_owned_string("Data validation failed")
    }
}

/// The text that a refused data validation is reported with.
pub open spec fn data_validation_failed() -> Seq<char> {
    "Data validation failed"@
}

/// Names quoted and separated by commas.
pub open spec fn quoted_names(names: Seq<Seq<char>>) -> Seq<char> {
    join(names.map_values(|n: Seq<char>| "'"@ + n + "'"@), ", "@)
}

/// Names quoted and separated by commas, or `none defined` when there are none.
pub open spec fn names_or_none(names: Seq<Seq<char>>) -> Seq<char> {
    if names.len() == 0 { "none defined"@ } else { quoted_names(names) }
}

/// Names quoted and separated by commas.
pub fn quote_names(names: &Vec<String>) -> (r: String)
    ensures
        r@ == quoted_names(strs_view(names@)),
{
    let mut quoted: Vec<String> = Vec::new();
    let n = names.len();
    let mut i: usize = 0;
    while i < n
        invariant
            n == names@.len(),
            i <= n,
            quoted@.len() == i,
            forall|j: int| 0 <= j < i ==> (#[trigger] quoted@[j])@ == "'"@ + names@[j]@ + "'"@,
        decreases n - i,
    {
        let mut q = to_owned_string("'");
        q.append(names[i].as_str());
        q.append("'");
        quoted.push(q);
        i = i + 1;
    }
    assert(strs_view(quoted@) =~= strs_view(names@).map_values(|n: Seq<char>| "'"@ + n + "'"@));
    join_strings(&quoted, ", ")
}

/// Names quoted and separated by commas, or `none defined`.
pub fn names_or_none_text(names: &Vec<String>) -> (r: String)
    ensures
        r@ == names_or_none(strs_view(names@)),
{
    if names.len() == 0 {
        to_owned_string("none defined")
    } else {
        quote_names(names)
    }
}

} // verus!
