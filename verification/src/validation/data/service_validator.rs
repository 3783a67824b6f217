//! Checks that the services a job uses are defined.

use vstd::prelude::*;
use vstd::string::*;
use crate::models::Job;
use crate::strutil::{to_owned_string, strs_view};
use crate::providers::circleci::convert::contains_string;
use super::error::{DataValidationError, names_or_none, names_or_none_text};
use super::span_finder::{SpanFinder, SpanInfo, SpannedYaml, spec_array_item_span};

verus! {

broadcast use vstd::string::group_string_axioms;

/// Checks service references against the defined services.
pub struct ServiceValidator<'a> {
    pub available_services: &'a Vec<String>,
}

/// The first unknown service, from index `k` on, whose entry can be found in the file.
pub open spec fn first_reported_service(avail: Seq<Seq<char>>, services: Seq<String>, root: SpannedYaml, k: int) -> Option<(Seq<char>, SpanInfo)>
    decreases services.len() - k,
{
    if k < 0 || k >= services.len() {
        None
    } else if !avail.contains(services[k]@) && spec_array_item_span(root, seq!["services"@], services[k]@) is Some {
        Some((services[k]@, spec_array_item_span(root, seq!["services"@], services[k]@)->0))
    } else {
        first_reported_service(avail, services, root, k + 1)
    }
}

/// The message for an unknown service.
pub open spec fn unknown_service_message(service: Seq<char>, avail: Seq<Seq<char>>) -> Seq<char> {
    "Unknown service '"@ + service + "'. Available services: "@ + names_or_none(avail)
}

/// What checking a job's services gives.
pub open spec fn services_result(r: Result<(), DataValidationError>, avail: Seq<Seq<char>>, job: Job, file_path: Seq<char>, content: Seq<char>, root: SpannedYaml) -> bool {
    match job.services {
        None => r is Ok,
        Some(services) => match first_reported_service(avail, services@, root, 0) {
            None => r is Ok,
            Some((s, span)) => r matches Err(e) && e.span == span && e.content@ == content
                && e.file_path@ == " "@ + file_path
                && e.message@ == unknown_service_message(s, avail),
        },
    }
}

/// What the search from index `k` finds: an undefined service whose item is
/// found, at index `k` or later, with every reportable one before it passed.
proof fn lemma_reported_service(avail: Seq<Seq<char>>, services: Seq<String>, root: SpannedYaml, k: int, m: int)
    requires
        0 <= k <= m < services.len(),
        !avail.contains(services[m]@),
        spec_array_item_span(root, seq!["services"@], services[m]@) is Some,
        forall|j: int| k <= j < m ==> avail.contains((#[trigger] services[j])@) || spec_array_item_span(root, seq!["services"@], services[j]@) is None,
    ensures
        first_reported_service(avail, services, root, k) == Some((services[m]@, spec_array_item_span(root, seq!["services"@], services[m]@)->0)),
    decreases m - k,
{
    if k < m {
        lemma_reported_service(avail, services, root, k + 1, m);
    }
}

/// With every service defined (or not found in the file) from index `k` on,
/// nothing is reported.
proof fn lemma_no_reported_service(avail: Seq<Seq<char>>, services: Seq<String>, root: SpannedYaml, k: int)
    requires
        0 <= k,
        forall|j: int| k <= j < services.len() ==> avail.contains((#[trigger] services[j])@) || spec_array_item_span(root, seq!["services"@], services[j]@) is None,
    ensures
        first_reported_service(avail, services, root, k) is None,
    decreases services.len() - k,
{
    if k < services.len() {
        lemma_no_reported_service(avail, services, root, k + 1);
    }
}

/// Law: every service of a job is checked. The first service that is not
/// defined, and whose entry can be found in the file, is reported with the
/// defined ones listed, wherever it stands in the list (defined services
/// before it do not end the check); when every service is defined, the check
/// succeeds.
pub proof fn law_first_undefined_service_is_reported(r: Result<(), DataValidationError>, avail: Seq<Seq<char>>, job: Job,
    file_path: Seq<char>, content: Seq<char>, root: SpannedYaml, m: int)
    requires
        services_result(r, avail, job, file_path, content, root),
    ensures
        (job.services matches Some(svcs) && 0 <= m < svcs@.len()
            && !avail.contains(svcs@[m]@)
            && spec_array_item_span(root, seq!["services"@], svcs@[m]@) is Some
            && forall|j: int| 0 <= j < m ==> avail.contains((#[trigger] svcs@[j])@) || spec_array_item_span(root, seq!["services"@], svcs@[j]@) is None)
            ==> (r matches Err(e) && job.services matches Some(svcs)
                && e.span == spec_array_item_span(root, seq!["services"@], svcs@[m]@)->0
                && e.message@ == "Unknown service '"@ + svcs@[m]@ + "'. Available services: "@ + names_or_none(avail)),
        (job.services matches Some(svcs) && forall|j: int| 0 <= j < svcs@.len() ==> avail.contains((#[trigger] svcs@[j])@)) ==> r is Ok,
{
    match job.services {
        None => {},
        Some(svcs) => {
            if 0 <= m < svcs@.len() && !avail.contains(svcs@[m]@)
                && spec_array_item_span(root, seq!["services"@], svcs@[m]@) is Some
                && forall|j: int| 0 <= j < m ==> avail.contains((#[trigger] svcs@[j])@) || spec_array_item_span(root, seq!["services"@], svcs@[j]@) is None {
                lemma_reported_service(avail, svcs@, root, 0, m);
            }
            if forall|j: int| 0 <= j < svcs@.len() ==> avail.contains((#[trigger] svcs@[j])@) {
                lemma_no_reported_service(avail, svcs@, root, 0);
            }
        },
    }
}

impl<'a> ServiceValidator<'a> {
    /// A validator for these defined services.
    pub fn new(available_services: &'a Vec<String>) -> (r: Self)
        ensures
            r.available_services == available_services,
    {
        ServiceValidator { available_services }
    }

    /// Reports the first service of the job that is not defined and whose entry
    /// can be found in the file; services whose entry cannot be found are passed over.
    pub fn validate_job_services(&self, job: &Job, file_path: &str, content: &str, spanned_yaml: &SpannedYaml) -> (r: Result<(), DataValidationError>)
        ensures
            services_result(r, strs_view(self.available_services@), *job, file_path@, content@, *spanned_yaml),
    {
        let finder = SpanFinder::new(spanned_yaml);
        match &job.services {
            Some(services) => {
                let mut path: Vec<&str> = Vec::new();
                path.push("services");
                assert(path@.map_values(|s: &str| s@) =~= seq!["services"@]);
                let n = services.len();
                let mut i: usize = 0;
                while i < n
                    invariant
                        n == services@.len(),
                        i <= n,
                        *finder.root == *spanned_yaml,
                        job.services == Some(*services),
                        path@.map_values(|s: &str| s@) == seq!["services"@],
                        first_reported_service(strs_view(self.available_services@), services@, *spanned_yaml, i as int)
                            == first_reported_service(strs_view(self.available_services@), services@, *spanned_yaml, 0),
                    decreases n - i,
                {
                    let service = services[i].as_str();
                    if !contains_string(self.available_services, service) {
                        match finder.find_array_item_span(&path, service) {
                            Some(span) => {
                                assert(services@[i as int]@ == service@);
                                assert(first_reported_service(strs_view(self.available_services@), services@, *spanned_yaml, i as int) == Some((service@, span)));
                                let mut m = to_owned_string("Unknown service '");
                                m.append(service);
                                m.append("'. Available services: ");
                                let list = names_or_none_text(self.available_services);
                                m.append(list.as_str());
                                return Err(DataValidationError::new(file_path, to_owned_string(content), span, m));
                            },
                            None => {},
                        }
                    }
                    i = i + 1;
                }
                Ok(())
            },
            None => Ok(()),
        }
    }
}

} // verus!
