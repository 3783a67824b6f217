//! Which embedded schema a schema reference names.

use vstd::prelude::*;
use vstd::string::*;
use crate::strutil::{str_eq, to_owned_string, contains_char};

verus! {

broadcast use vstd::string::group_string_axioms;

/// The embedded schemas.
#[derive(Clone, Copy, PartialEq, Eq, Structural)]
pub enum SchemaName {
    ConfigBase,
    WorkflowConfig,
    Job,
    Command,
    Definitions,
    Draft07,
}

/// Resolves schema references to the embedded schemas, offline.
pub struct SchemaRetriever;

/// The schema a reference names exactly, if any.
pub open spec fn spec_schema_named(uri: Seq<char>) -> Option<SchemaName> {
    if uri == "./config-base-schema.json"@ || uri == "https://cigen.dev/schemas/v1/config-base-schema.json"@ {
        Some(SchemaName::ConfigBase)
    } else if uri == "./workflow-config-schema.json"@ || uri == "https://cigen.dev/schemas/v1/workflow-config-schema.json"@ {
        Some(SchemaName::WorkflowConfig)
    } else if uri == "./job-schema.json"@ || uri == "https://cigen.dev/schemas/v1/job-schema.json"@ {
        Some(SchemaName::Job)
    } else if uri == "./command-schema.json"@ || uri == "https://cigen.dev/schemas/v1/command-schema.json"@ {
        Some(SchemaName::Command)
    } else if uri == "./definitions.json"@ || uri == "https://cigen.dev/schemas/v1/definitions.json"@
        || uri == "./definitions.json#/definitions/configProperties"@ || uri == "json-schema:///definitions.json"@ {
        Some(SchemaName::Definitions)
    } else if uri == "https://json-schema.org/draft-07/schema"@ || uri == "https://json-schema.org/draft-07/schema#"@
        || uri == "http://json-schema.org/draft-07/schema"@ || uri == "http://json-schema.org/draft-07/schema#"@ {
        Some(SchemaName::Draft07)
    } else {
        None
    }
}

/// The part of a reference before its first `#`.
pub open spec fn before_fragment(uri: Seq<char>) -> Seq<char>
    decreases uri.len(),
{
    if uri.len() == 0 {
        uri
    } else if uri.last() == '#' && !uri.drop_last().contains('#') {
        uri.drop_last()
    } else if uri.drop_last().contains('#') {
        before_fragment(uri.drop_last())
    } else {
        uri
    }
}

/// The schema a reference names: by the reference itself, else, for a
/// reference with a fragment, by the part before it.
pub open spec fn spec_retrieve(uri: Seq<char>) -> Result<SchemaName, Seq<char>> {
    match spec_schema_named(uri) {
        Some(s) => Ok(s),
        None => if uri.contains('#') {
            match spec_schema_named(before_fragment(uri)) {
                Some(s) => Ok(s),
                None => Err("Unknown schema URI: "@ + before_fragment(uri)),
            }
        } else {
            Err("Unknown schema URI: "@ + uri)
        },
    }
}

/// The schema a reference names exactly, if any.
fn schema_named(uri: &str) -> (r: Option<SchemaName>)
    ensures
        r == spec_schema_named(uri@),
{
    if str_eq(uri, "./config-base-schema.json") || str_eq(uri, "https://cigen.dev/schemas/v1/config-base-schema.json") {
        Some(SchemaName::ConfigBase)
    } else if str_eq(uri, "./workflow-config-schema.json") || str_eq(uri, "https://cigen.dev/schemas/v1/workflow-config-schema.json") {
        Some(SchemaName::WorkflowConfig)
    } else if str_eq(uri, "./job-schema.json") || str_eq(uri, "https://cigen.dev/schemas/v1/job-schema.json") {
        Some(SchemaName::Job)
    } else if str_eq(uri, "./command-schema.json") || str_eq(uri, "https://cigen.dev/schemas/v1/command-schema.json") {
        Some(SchemaName::Command)
    } else if str_eq(uri, "./definitions.json") || str_eq(uri, "https://cigen.dev/schemas/v1/definitions.json")
        || str_eq(uri, "./definitions.json#/definitions/configProperties") || str_eq(uri, "json-schema:///definitions.json") {
        Some(SchemaName::Definitions)
    } else if str_eq(uri, "https://json-schema.org/draft-07/schema") || str_eq(uri, "https://json-schema.org/draft-07/schema#")
        || str_eq(uri, "http://json-schema.org/draft-07/schema") || str_eq(uri, "http://json-schema.org/draft-07/schema#") {
        Some(SchemaName::Draft07)
    } else {
        None
    }
}

/// The part of `uri` before its first `#`.
fn before_fragment_exec(uri: &str) -> (r: &str)
    ensures
        r@ == before_fragment(uri@),
{
    let n = uri.unicode_len();
    let mut i: usize = 0;
    while i < n
        invariant
            n == uri@.len(),
            i <= n,
            forall|j: int| 0 <= j < i ==> uri@[j] != '#',
        decreases n - i,
    {
        if uri.get_char(i) == '#' {
            let r = uri.substring_char(0, i);
            proof {
                lemma_before_fragment_at(uri@, i as int);
            }
            return r;
        }
        i = i + 1;
    }
    proof {
        lemma_before_fragment_none(uri@);
    }
    uri
}

/// Where the first `#` is at `i`, what comes before it is the part before the fragment.
proof fn lemma_before_fragment_at(s: Seq<char>, i: int)
    requires
        0 <= i < s.len(),
        s[i] == '#',
        forall|j: int| 0 <= j < i ==> s[j] != '#',
    ensures
        before_fragment(s) == s.subrange(0, i),
    decreases s.len(),
{
    if s.len() - 1 == i {
        assert(!s.drop_last().contains('#'));
        assert(s.drop_last() =~= s.subrange(0, i));
    } else {
        assert(s.drop_last()[i] == '#');
        assert(s.drop_last().contains('#'));
        lemma_before_fragment_at(s.drop_last(), i);
        assert(s.drop_last().subrange(0, i) =~= s.subrange(0, i));
    }
}

/// Without a `#`, the whole reference comes before the fragment.
proof fn lemma_before_fragment_none(s: Seq<char>)
    requires
        forall|j: int| 0 <= j < s.len() ==> s[j] != '#',
    ensures
        before_fragment(s) == s,
{
    if s.len() > 0 {
        assert(s.last() != '#');
        assert(!s.drop_last().contains('#'));
    }
}

impl SchemaRetriever {
    /// The embedded schema a reference names, or why there is none.
    pub fn retrieve(&self, uri: &str) -> (r: Result<SchemaName, String>)
        ensures
            match (r, spec_retrieve(uri@)) {
                (Ok(a), Ok(b)) => a == b,
                (Err(m), Err(n)) => m@ == n,
                _ => false,
            },
    {
        match schema_named(uri) {
            Some(s) => Ok(s),
            None => {
                if contains_char(uri, '#') {
                    let base = before_fragment_exec(uri);
                    match schema_named(base) {
                        Some(s) => Ok(s),
                        None => {
                            let mut m = to_owned_string("Unknown schema URI: ");
                            m.append(base);
                            Err(m)
                        },
                    }
                } else {
                    let mut m = to_owned_string("Unknown schema URI: ");
                    m.append(uri);
                    Err(m)
                }
            },
        }
    }
}

} // verus!
