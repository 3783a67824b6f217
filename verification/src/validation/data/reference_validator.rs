//! Checks the references of every job against everything the whole
//! configuration defines: services, source file groups, caches and jobs.

use vstd::prelude::*;
use vstd::string::*;
use crate::models::{Config, Job, lookup, find_entry};
use crate::strutil::{to_owned_string, strs_view};
use crate::providers::circleci::convert::contains_string;
use super::error::DataValidationError;
use super::span_finder::SpannedYaml;
use super::service_validator::{ServiceValidator, services_result};
use super::source_files_validator::{SourceFilesValidator, source_files_result};
use super::cache_validator::{CacheValidator, caches_result};
use super::requires_validator::{RequiresValidator, requires_result};

use super::spanned_yaml::{parse_spanned, spanned_parse};

verus! {

broadcast use vstd::string::group_string_axioms;

/// Where a job was loaded from: the file and its text.
pub struct JobSource {
    pub file_path: String,
    pub content: String,
}

/// Why the references of a configuration were refused.
pub enum ReferenceError {
    /// A job's file could not be parsed with positions.
    SpanParse(String),
    /// A job refers to something that is not defined.
    Data(DataValidationError),
}

/// Checks the references of all jobs at once.
pub struct ReferenceValidator;

/// The names of a list of pairs, in order.
pub open spec fn entry_keys<V>(s: Seq<(String, V)>) -> Seq<Seq<char>> {
    s.map_values(|e: (String, V)| e.0@)
}

/// The names of an optional list of pairs (none when it is absent).
pub open spec fn opt_entry_keys<V>(o: Option<Vec<(String, V)>>) -> Seq<Seq<char>> {
    match o {
        Some(v) => entry_keys(v@),
        None => seq![],
    }
}

/// `acc` with each of `names` added in turn, unless it is there already.
pub open spec fn add_new_names(acc: Seq<Seq<char>>, names: Seq<Seq<char>>) -> Seq<Seq<char>>
    decreases names.len(),
{
    if names.len() == 0 {
        acc
    } else {
        let prev = add_new_names(acc, names.drop_last());
        if prev.contains(names.last()) { prev } else { prev.push(names.last()) }
    }
}

/// The caches that the first `n` jobs define, each name once.
pub open spec fn cache_names_upto(jobs: Seq<(String, Job)>, n: int) -> Seq<Seq<char>>
    decreases n,
{
    if n <= 0 || n > jobs.len() {
        seq![]
    } else {
        add_new_names(cache_names_upto(jobs, n - 1), opt_entry_keys(jobs[n - 1].1.cache))
    }
}

/// The caches that any job defines, each name once.
pub open spec fn defined_cache_names(jobs: Seq<(String, Job)>) -> Seq<Seq<char>> {
    cache_names_upto(jobs, jobs.len() as int)
}

/// What checking one job gives, against the defined services, source file
/// groups, caches and job names: nothing without a source; the parser's
/// message where the source text cannot be parsed with positions; else the first of the four
/// checks (services, source files, caches, requirements) that fails.
pub open spec fn job_outcome(
    r: Result<(), ReferenceError>,
    services: Seq<Seq<char>>,
    groups: Seq<Seq<char>>,
    caches: Seq<Seq<char>>,
    names: Seq<Seq<char>>,
    key: Seq<char>,
    job: Job,
    source: Option<JobSource>,
) -> bool {
    match source {
        None => r is Ok,
        Some(src) => match spanned_parse(src.content@) {
            Err(e) => r matches Err(ReferenceError::SpanParse(m)) && m@ == "Failed to parse YAML with spans: "@ + e,
            Ok(root) => {
                let path = src.file_path@;
                let content = src.content@;
                if !services_result(Ok(()), services, job, path, content, root) {
                    r matches Err(ReferenceError::Data(d)) && services_result(Err(d), services, job, path, content, root)
                } else if !source_files_result(Ok(()), groups, job, path, content, root) {
                    r matches Err(ReferenceError::Data(d)) && source_files_result(Err(d), groups, job, path, content, root)
                } else if !caches_result(Ok(()), caches, job, path, content, root) {
                    r matches Err(ReferenceError::Data(d)) && caches_result(Err(d), caches, job, path, content, root)
                } else if !requires_result(Ok(()), names, job, key, path, content, root) {
                    r matches Err(ReferenceError::Data(d)) && requires_result(Err(d), names, job, key, path, content, root)
                } else {
                    r is Ok
                }
            },
        },
    }
}

/// What checking job `k` of `jobs` gives, with its source looked up by name.
pub open spec fn job_check(r: Result<(), ReferenceError>, config: Config, jobs: Seq<(String, Job)>, sources: Seq<(String, JobSource)>, k: int) -> bool {
    job_outcome(
        r,
        opt_entry_keys(config.services),
        opt_entry_keys(config.source_file_groups),
        defined_cache_names(jobs),
        entry_keys(jobs),
        jobs[k].0@,
        jobs[k].1,
        lookup(sources, jobs[k].0@),
    )
}

/// Whether job `k` passes its checks.
pub open spec fn job_passes(config: Config, jobs: Seq<(String, Job)>, sources: Seq<(String, JobSource)>, k: int) -> bool {
    job_check(Ok(()), config, jobs, sources, k)
}

/// The names of a list of pairs.
pub fn entry_names<V>(entries: &Vec<(String, V)>) -> (r: Vec<String>)
    ensures
        strs_view(r@) == entry_keys(entries@),
{
    let mut out: Vec<String> = Vec::new();
    let n = entries.len();
    let mut i: usize = 0;
    while i < n
        invariant
            n == entries@.len(),
            i <= n,
            out@.len() == i,
            forall|j: int| 0 <= j < i ==> (#[trigger] out@[j])@ == entries@[j].0@,
        decreases n - i,
    {
        out.push(to_owned_string(entries[i].0.as_str()));
        i = i + 1;
    }
    assert(strs_view(out@) =~= entry_keys(entries@));
    out
}

/// The names of an optional list of pairs.
pub fn opt_entry_names<V>(entries: &Option<Vec<(String, V)>>) -> (r: Vec<String>)
    ensures
        strs_view(r@) == opt_entry_keys(*entries),
{
    match entries {
        Some(v) => entry_names(v),
        None => {
            let r: Vec<String> = Vec::new();
            assert(strs_view(r@) =~= seq![]);
            r
        },
    }
}

/// Adds the names of `entries` to `acc`, each unless it is there already.
fn add_names<V>(acc: &mut Vec<String>, entries: &Vec<(String, V)>)
    ensures
        strs_view(final(acc)@) == add_new_names(strs_view(old(acc)@), entry_keys(entries@)),
{
    let ghost start = strs_view(acc@);
    let n = entries.len();
    let mut i: usize = 0;
    while i < n
        invariant
            n == entries@.len(),
            i <= n,
            strs_view(acc@) == add_new_names(start, entry_keys(entries@).take(i as int)),
        decreases n - i,
    {
        let name = entries[i].0.as_str();
        proof {
            let keys = entry_keys(entries@);
            assert(keys.take(i + 1).drop_last() =~= keys.take(i as int));
            assert(keys.take(i + 1).last() == name@);
        }
        if !contains_string(acc, name) {
            let ghost before = acc@;
            acc.push(to_owned_string(name));
            assert(strs_view(acc@) =~= strs_view(before).push(name@));
        }
        i = i + 1;
    }
    assert(entry_keys(entries@).take(n as int) =~= entry_keys(entries@));
}

/// The caches that any job defines, each name once, in the order they first appear.
pub fn collect_cache_names(jobs: &Vec<(String, Job)>) -> (r: Vec<String>)
    ensures
        strs_view(r@) == defined_cache_names(jobs@),
{
    let mut acc: Vec<String> = Vec::new();
    assert(strs_view(acc@) =~= cache_names_upto(jobs@, 0));
    let n = jobs.len();
    let mut i: usize = 0;
    while i < n
        invariant
            n == jobs@.len(),
            i <= n,
            strs_view(acc@) == cache_names_upto(jobs@, i as int),
        decreases n - i,
    {
        match &jobs[i].1.cache {
            Some(c) => {
                add_names(&mut acc, c);
            },
            None => {
                assert(add_new_names(strs_view(acc@), seq![]) == strs_view(acc@));
            },
        }
        i = i + 1;
    }
    acc
}

/// Runs the four checks of one job.
fn check_job(
    services: &ServiceValidator,
    groups: &SourceFilesValidator,
    caches: &CacheValidator,
    required: &RequiresValidator,
    key: &str,
    job: &Job,
    source: Option<&JobSource>,
) -> (r: Result<(), ReferenceError>)
    ensures
        job_outcome(
            r,
            strs_view(services.available_services@),
            strs_view(groups.available_source_groups@),
            strs_view(caches.all_defined_caches@),
            strs_view(required.all_job_names@),
            key@,
            *job,
            match source { Some(s) => Some(*s), None => None },
        ),
{
    match source {
        None => Ok(()),
        Some(src) => match &parse_spanned(src.content.as_str()) {
            Err(e) => {
                let mut m = to_owned_string("Failed to parse YAML with spans: ");
                m.append(e.as_str());
                Err(ReferenceError::SpanParse(m))
            },
            Ok(root) => {
                let path = src.file_path.as_str();
                let content = src.content.as_str();
                match services.validate_job_services(job, path, content, root) {
                    Err(d) => { return Err(ReferenceError::Data(d)); },
                    Ok(()) => {},
                }
                match groups.validate_job_source_files(job, path, content, root) {
                    Err(d) => { return Err(ReferenceError::Data(d)); },
                    Ok(()) => {},
                }
                match caches.validate_job_caches(job, path, content, root) {
                    Err(d) => { return Err(ReferenceError::Data(d)); },
                    Ok(()) => {},
                }
                match required.validate_job_requires(job, key, path, content, root) {
                    Err(d) => { return Err(ReferenceError::Data(d)); },
                    Ok(()) => {},
                }
                Ok(())
            },
        },
    }
}

impl ReferenceValidator {
    /// A reference validator.
    pub fn new() -> (r: Self) {
        ReferenceValidator
    }

    /// Checks every job, in order, against the services and source file groups
    /// of the configuration, the caches that any job defines and the names of
    /// all jobs. A job is checked only where it has a source, and the first
    /// problem found is returned.
    pub fn validate_all_references(&self, config: &Config, jobs: &Vec<(String, Job)>, sources: &Vec<(String, JobSource)>) -> (r: Result<(), ReferenceError>)
        ensures
            r is Ok <==> forall|k: int| 0 <= k < jobs@.len() ==> job_passes(*config, jobs@, sources@, k),
            r is Err ==> exists|k: int| 0 <= k < jobs@.len()
                && (forall|j: int| 0 <= j < k ==> job_passes(*config, jobs@, sources@, j))
                && #[trigger] job_check(r, *config, jobs@, sources@, k),
    {
        let service_names = opt_entry_names(&config.services);
        let group_names = opt_entry_names(&config.source_file_groups);
        let cache_names = collect_cache_names(jobs);
        let job_names = entry_names(jobs);
        let services = ServiceValidator::new(&service_names);
        let groups = SourceFilesValidator::new(&group_names);
        let caches = CacheValidator::new(&cache_names);
        let required = RequiresValidator::new(&job_names);
        let n = jobs.len();
        let mut i: usize = 0;
        while i < n
            invariant
                n == jobs@.len(),
                i <= n,
                strs_view(services.available_services@) == opt_entry_keys(config.services),
                strs_view(groups.available_source_groups@) == opt_entry_keys(config.source_file_groups),
                strs_view(caches.all_defined_caches@) == defined_cache_names(jobs@),
                strs_view(required.all_job_names@) == entry_keys(jobs@),
                forall|j: int| 0 <= j < i ==> job_passes(*config, jobs@, sources@, j),
            decreases n - i,
        {
            let key = jobs[i].0.as_str();
            let source = find_entry(sources, key);
            let checked = check_job(&services, &groups, &caches, &required, key, &jobs[i].1, source);
            match checked {
                Err(e) => {
                    let r: Result<(), ReferenceError> = Err(e);
                    assert(job_check(r, *config, jobs@, sources@, i as int));
                    assert(!job_passes(*config, jobs@, sources@, i as int));
                    return r;
                },
                Ok(()) => {
                    assert(job_passes(*config, jobs@, sources@, i as int));
                },
            }
            i = i + 1;
        }
        Ok(())
    }
}

} // verus!
