//! Checks that the caches a job restores are defined by some job.

use vstd::prelude::*;
use vstd::string::*;
use crate::models::{Job, CacheRestore};
use crate::strutil::{to_owned_string, strs_view, sort_strings, sorted_strs};
use crate::providers::circleci::convert::{contains_string, restored_cache_name};
use super::error::{DataValidationError, names_or_none, names_or_none_text};
use super::span_finder::{SpanFinder, SpanInfo, SpannedYaml, spec_cache_reference_span};

verus! {

broadcast use vstd::string::group_string_axioms;

/// Checks cache references against the caches that jobs define.
pub struct CacheValidator<'a> {
    pub all_defined_caches: &'a Vec<String>,
}

/// The first restored cache, from index `k` on, that no job defines and whose
/// reference can be found in the file.
pub open spec fn first_reported_cache(defined: Seq<Seq<char>>, restores: Seq<CacheRestore>, root: SpannedYaml, k: int) -> Option<(Seq<char>, SpanInfo)>
    decreases restores.len() - k,
{
    if k < 0 || k >= restores.len() {
        None
    } else {
        let name = restored_cache_name(restores[k]);
        if !defined.contains(name) && spec_cache_reference_span(root, name) is Some {
            Some((name, spec_cache_reference_span(root, name)->0))
        } else {
            first_reported_cache(defined, restores, root, k + 1)
        }
    }
}

/// The message for an unknown cache; the defined caches are listed in order.
pub open spec fn unknown_cache_message(name: Seq<char>, sorted_defined: Seq<Seq<char>>) -> Seq<char> {
    "Unknown cache '"@ + name + "'. Defined caches: "@ + names_or_none(sorted_defined)
}

/// What checking a job's cache references gives.
pub open spec fn caches_result(r: Result<(), DataValidationError>, defined: Seq<Seq<char>>, job: Job, file_path: Seq<char>, content: Seq<char>, root: SpannedYaml) -> bool {
    match job.restore_cache {
        None => r is Ok,
        Some(restores) => match first_reported_cache(defined, restores@, root, 0) {
            None => r is Ok,
            Some((name, span)) => r matches Err(e) && e.span == span && e.content@ == content
                && e.file_path@ == " "@ + file_path
                && exists|sorted: Seq<Seq<char>>| sorted_strs(sorted)
                    && sorted.to_multiset() == defined.to_multiset()
                    && e.message@ == unknown_cache_message(name, sorted),
        },
    }
}

impl<'a> CacheValidator<'a> {
    /// A validator for these defined caches.
    pub fn new(all_defined_caches: &'a Vec<String>) -> (r: Self)
        ensures
            r.all_defined_caches == all_defined_caches,
    {
        CacheValidator { all_defined_caches }
    }

    /// Reports the first cache the job restores that no job defines and whose
    /// reference can be found in the file.
    pub fn validate_job_caches(&self, job: &Job, file_path: &str, content: &str, spanned_yaml: &SpannedYaml) -> (r: Result<(), DataValidationError>)
        ensures
            caches_result(r, strs_view(self.all_defined_caches@), *job, file_path@, content@, *spanned_yaml),
    {
        let finder = SpanFinder::new(spanned_yaml);
        match &job.restore_cache {
            Some(restores) => {
                let n = restores.len();
                let mut i: usize = 0;
                while i < n
                    invariant
                        n == restores@.len(),
                        i <= n,
                        *finder.root == *spanned_yaml,
                        job.restore_cache == Some(*restores),
                        first_reported_cache(strs_view(self.all_defined_caches@), restores@, *spanned_yaml, i as int)
                            == first_reported_cache(strs_view(self.all_defined_caches@), restores@, *spanned_yaml, 0),
                    decreases n - i,
                {
                    let name: &String = match &restores[i] {
                        CacheRestore::Simple(n) => n,
                        CacheRestore::Complex { name, .. } => name,
                    };
                    assert(name@ == restored_cache_name(restores@[i as int]));
                    if !contains_string(self.all_defined_caches, name.as_str()) {
                        match finder.find_cache_reference_span(name.as_str()) {
                            Some(span) => {
                                assert(first_reported_cache(strs_view(self.all_defined_caches@), restores@, *spanned_yaml, i as int) == Some((name@, span)));
                                let sorted = sort_strings(self.all_defined_caches);
                                let mut m = to_owned_string("Unknown cache '");
                                m.append(name.as_str());
                                m.append("'. Defined caches: ");
                                let list = names_or_none_text(&sorted);
                                m.append(list.as_str());
                                let e = DataValidationError::new(file_path, to_owned_string(content), span, m);
                                assert(e.message@ == unknown_cache_message(name@, strs_view(sorted@)));
                                return Err(e);
                            },
                            None => {},
                        }
                    }
                    i = i + 1;
                }
                Ok(())
            },
            None => Ok(()),
        }
    }
}

} // verus!
