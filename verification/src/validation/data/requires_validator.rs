//! Checks that the jobs a job depends on exist.

use vstd::prelude::*;
use vstd::string::*;
use crate::models::{Job, JobRequires, requires_list};
use crate::strutil::{to_owned_string, strs_view, sort_strings, sorted_strs, contains_char, starts_with, is_prefix, join, join_strings};
use crate::providers::circleci::convert::contains_string;
use super::error::{DataValidationError, quoted_names, quote_names};
use super::span_finder::{SpanFinder, SpanInfo, SpannedYaml, spec_array_item_span, find_path, span_of};

verus! {

broadcast use vstd::string::group_string_axioms;

/// Checks requirements against all job keys (`workflow/job`).
pub struct RequiresValidator<'a> {
    pub all_job_names: &'a Vec<String>,
}

/// Index of the first `/` of `s` from `k` on.
pub open spec fn first_slash_from(s: Seq<char>, k: int) -> Option<int>
    decreases s.len() - k,
{
    if k < 0 || k >= s.len() {
        None
    } else if s[k] == '/' {
        Some(k)
    } else {
        first_slash_from(s, k + 1)
    }
}

/// The text before the first `/` (all of it when there is none).
pub open spec fn before_slash(s: Seq<char>) -> Seq<char> {
    match first_slash_from(s, 0) {
        Some(i) => s.subrange(0, i),
        None => s,
    }
}

/// The second `/`-separated segment, or the whole text when there is only one.
pub open spec fn second_segment(s: Seq<char>) -> Seq<char> {
    match first_slash_from(s, 0) {
        Some(i) => before_slash(s.subrange(i + 1, s.len() as int)),
        None => s,
    }
}

/// The key of a requirement: as it is when it names a workflow, else in the
/// requiring job's workflow.
pub open spec fn full_job_key(req: Seq<char>, job_key: Seq<char>) -> Seq<char> {
    if req.contains('/') { req } else { before_slash(job_key) + "/"@ + req }
}

/// Where a requirement is written: the `requires` field for a single one, its
/// entry for a list.
pub open spec fn requirement_span(root: SpannedYaml, reqs: JobRequires, req: Seq<char>) -> Option<SpanInfo> {
    match reqs {
        JobRequires::Single(_) => match find_path(root, seq!["requires"@]) {
            Some(n) => Some(span_of(n)),
            None => None,
        },
        JobRequires::Multiple(_) => spec_array_item_span(root, seq!["requires"@], req),
    }
}

/// The first requirement, from index `k` on, whose job does not exist and whose
/// place can be found in the file.
pub open spec fn first_reported_requirement(names: Seq<Seq<char>>, reqs: JobRequires, job_key: Seq<char>, root: SpannedYaml, k: int) -> Option<(Seq<char>, SpanInfo)>
    decreases requires_list(reqs).len() - k,
{
    let list = requires_list(reqs);
    if k < 0 || k >= list.len() {
        None
    } else if !names.contains(full_job_key(list[k], job_key)) && requirement_span(root, reqs, list[k]) is Some {
        Some((list[k], requirement_span(root, reqs, list[k])->0))
    } else {
        first_reported_requirement(names, reqs, job_key, root, k + 1)
    }
}

/// The keys of the workflow's jobs, each by its job name, quoted, in order.
pub open spec fn same_workflow_jobs(sorted: Seq<Seq<char>>, workflow: Seq<char>) -> Seq<Seq<char>>
    decreases sorted.len(),
{
    if sorted.len() == 0 {
        Seq::empty()
    } else {
        same_workflow_jobs(sorted.drop_last(), workflow) + if is_prefix(workflow + "/"@, sorted.last()) {
            seq!["'"@ + second_segment(sorted.last()) + "'"@]
        } else {
            Seq::empty()
        }
    }
}

/// The available jobs as the message lists them: none defined; the jobs of the
/// requiring job's workflow; or, when it has none, every job key.
pub open spec fn available_jobs_text(sorted: Seq<Seq<char>>, job_key: Seq<char>) -> Seq<char> {
    if sorted.len() == 0 {
        "none defined"@
    } else {
        let same = same_workflow_jobs(sorted, before_slash(job_key));
        if same.len() == 0 { quoted_names(sorted) } else { "in this workflow: "@ + join(same, ", "@) }
    }
}

/// The message for an unknown requirement.
pub open spec fn unknown_job_message(req: Seq<char>, sorted: Seq<Seq<char>>, job_key: Seq<char>) -> Seq<char> {
    "Unknown job '"@ + req + "'. Available jobs: "@ + available_jobs_text(sorted, job_key)
}

/// Index of the first `/` of `s`.
fn first_slash(s: &str) -> (r: Option<usize>)
    ensures
        match r {
            Some(i) => first_slash_from(s@, 0) == Some(i as int) && i < s@.len(),
            None => first_slash_from(s@, 0) is None,
        },
{
    let n = s.unicode_len();
    let mut i: usize = 0;
    while i < n
        invariant
            n == s@.len(),
            i <= n,
            first_slash_from(s@, i as int) == first_slash_from(s@, 0),
        decreases n - i,
    {
        if s.get_char(i) == '/' {
            return Some(i);
        }
        i = i + 1;
    }
    None
}

/// The text before the first `/`.
fn before_slash_exec(s: &str) -> (r: &str)
    ensures
        r@ == before_slash(s@),
{
    match first_slash(s) {
        Some(i) => s.substring_char(0, i),
        None => s,
    }
}

/// The second `/`-separated segment.
fn second_segment_exec(s: &str) -> (r: &str)
    ensures
        r@ == second_segment(s@),
{
    let n = s.unicode_len();
    match first_slash(s) {
        Some(i) => before_slash_exec(s.substring_char(i + 1, n)),
        None => s,
    }
}

/// The available jobs as the message lists them.
fn available_jobs_text_exec(sorted: &Vec<String>, job_key: &str) -> (r: String)
    ensures
        r@ == available_jobs_text(strs_view(sorted@), job_key@),
{
    if sorted.len() == 0 {
        return to_owned_string("none defined");
    }
    let workflow = before_slash_exec(job_key);
    let mut prefix = to_owned_string(workflow);
    prefix.append("/");
    let mut same: Vec<String> = Vec::new();
    let n = sorted.len();
    let mut i: usize = 0;
    assert(strs_view(sorted@.subrange(0, 0)) =~= Seq::<Seq<char>>::empty());
    assert(strs_view(same@) =~= Seq::<Seq<char>>::empty());
    while i < n
        invariant
            n == sorted@.len(),
            i <= n,
            prefix@ == before_slash(job_key@) + "/"@,
            strs_view(same@) == same_workflow_jobs(strs_view(sorted@.subrange(0, i as int)), before_slash(job_key@)),
        decreases n - i,
    {
        let ghost before = strs_view(same@);
        proof {
            let sub = strs_view(sorted@.subrange(0, i + 1));
            assert(sub.drop_last() =~= strs_view(sorted@.subrange(0, i as int)));
            assert(sub.last() == sorted@[i as int]@);
        }
        if starts_with(sorted[i].as_str(), prefix.as_str()) {
            let mut q = to_owned_string("'");
            q.append(second_segment_exec(sorted[i].as_str()));
            q.append("'");
            same.push(q);
            assert(strs_view(same@) =~= before.push("'"@ + second_segment(sorted@[i as int]@) + "'"@));
        }
        assert(strs_view(same@) =~= same_workflow_jobs(strs_view(sorted@.subrange(0, i + 1)), before_slash(job_key@)));
        i = i + 1;
    }
    assert(sorted@.subrange(0, n as int) =~= sorted@);
    if same.len() == 0 {
        quote_names(sorted)
    } else {
        let mut t = to_owned_string("in this workflow: ");
        let joined = join_strings(&same, ", ");
        t.append(joined.as_str());
        t
    }
}

/// What checking a job's requirements gives.
pub open spec fn requires_result(r: Result<(), DataValidationError>, names: Seq<Seq<char>>, job: Job, job_key: Seq<char>, file_path: Seq<char>, content: Seq<char>, root: SpannedYaml) -> bool {
    match job.requires {
        None => r is Ok,
        Some(reqs) => match first_reported_requirement(names, reqs, job_key, root, 0) {
            None => r is Ok,
            Some((req, span)) => r matches Err(e) && e.span == span && e.content@ == content
                && e.file_path@ == " "@ + file_path
                && exists|sorted: Seq<Seq<char>>| sorted_strs(sorted)
                    && sorted.to_multiset() == names.to_multiset()
                    && e.message@ == unknown_job_message(req, sorted, job_key),
        },
    }
}

/// Whether the job a requirement means exists: a requirement with a `/` is a
/// job key; one without names a job of the requiring job's workflow, the text
/// of its key before the first `/`.
pub open spec fn requirement_met(names: Seq<Seq<char>>, req: Seq<char>, job_key: Seq<char>) -> bool {
    if req.contains('/') {
        names.contains(req)
    } else {
        exists|i: int| 0 <= i < names.len() && names[i] == before_slash(job_key) + "/"@ + req
    }
}

/// From index `k` on, a requirement whose job exists is never the one reported.
proof fn lemma_reported_requirement_unmet(names: Seq<Seq<char>>, reqs: JobRequires, job_key: Seq<char>, root: SpannedYaml, k: int)
    ensures
        (forall|m: int| k <= m < requires_list(reqs).len() ==> requirement_met(names, #[trigger] requires_list(reqs)[m], job_key))
            ==> first_reported_requirement(names, reqs, job_key, root, k) is None,
        first_reported_requirement(names, reqs, job_key, root, k) matches Some((q, _)) ==>
            exists|m: int| 0 <= k <= m < requires_list(reqs).len() && #[trigger] requires_list(reqs)[m] == q && !requirement_met(names, q, job_key),
    decreases requires_list(reqs).len() - k,
{
    let list = requires_list(reqs);
    if 0 <= k < list.len() {
        lemma_reported_requirement_unmet(names, reqs, job_key, root, k + 1);
        let q = list[k];
        if !q.contains('/') && requirement_met(names, q, job_key) {
            let i = choose|i: int| 0 <= i < names.len() && names[i] == before_slash(job_key) + "/"@ + q;
            assert(names.contains(full_job_key(q, job_key)));
        }
        if !requirement_met(names, q, job_key) {
            assert(!names.contains(full_job_key(q, job_key)));
        }
    } else if k < 0 && list.len() > 0 {
    }
}

/// Law: a requirement is reported only when the job it means is missing. A
/// requirement with a `/` means that job key; one without means the job of
/// that name in the requiring job's workflow. So when every requirement's job
/// exists the check succeeds, and a refusal is always about a requirement
/// whose job is missing.
pub proof fn law_requirements_resolve_in_workflow(r: Result<(), DataValidationError>, names: Seq<Seq<char>>, job: Job, job_key: Seq<char>,
    file_path: Seq<char>, content: Seq<char>, root: SpannedYaml)
    requires
        requires_result(r, names, job, job_key, file_path, content, root),
    ensures
        (forall|q: Seq<char>| #![trigger requirement_met(names, q, job_key)]
            (job.requires matches Some(reqs) && requires_list(reqs).contains(q)) ==> requirement_met(names, q, job_key)) ==> r is Ok,
        r is Err ==> (job.requires matches Some(reqs) && exists|q: Seq<char>| requires_list(reqs).contains(q) && !requirement_met(names, q, job_key)),
{
    match job.requires {
        None => {},
        Some(reqs) => {
            lemma_reported_requirement_unmet(names, reqs, job_key, root, 0);
            let list = requires_list(reqs);
            if forall|q: Seq<char>| #![trigger requirement_met(names, q, job_key)]
                (job.requires matches Some(reqs) && requires_list(reqs).contains(q)) ==> requirement_met(names, q, job_key) {
                assert forall|m: int| 0 <= m < list.len() implies requirement_met(names, #[trigger] list[m], job_key) by {
                    assert(list.contains(list[m]));
                }
            }
            if r is Err {
                let (q, sp) = first_reported_requirement(names, reqs, job_key, root, 0)->0;
                let m = choose|m: int| 0 <= 0 <= m < list.len() && #[trigger] list[m] == q && !requirement_met(names, q, job_key);
                assert(list.contains(q));
            }
        },
    }
}

impl<'a> RequiresValidator<'a> {
    /// A validator for these job keys.
    pub fn new(all_job_names: &'a Vec<String>) -> (r: Self)
        ensures
            r.all_job_names == all_job_names,
    {
        RequiresValidator { all_job_names }
    }

    /// Reports the first requirement of the job (called `job_key`) whose job does
    /// not exist and whose place can be found in the file.
    pub fn validate_job_requires(&self, job: &Job, job_key: &str, file_path: &str, content: &str, spanned_yaml: &SpannedYaml) -> (r: Result<(), DataValidationError>)
        ensures
            requires_result(r, strs_view(self.all_job_names@), *job, job_key@, file_path@, content@, *spanned_yaml),
    {
        let finder = SpanFinder::new(spanned_yaml);
        let reqs = match &job.requires {
            Some(r) => r,
            None => return Ok(()),
        };
        let required_jobs = reqs.to_vec();
        let mut path: Vec<&str> = Vec::new();
        path.push("requires");
        assert(path@.map_values(|s: &str| s@) =~= seq!["requires"@]);
        let workflow = before_slash_exec(job_key);
        let n = required_jobs.len();
        let mut i: usize = 0;
        while i < n
            invariant
                n == required_jobs@.len(),
                strs_view(required_jobs@) == requires_list(*reqs),
                job.requires == Some(*reqs),
                workflow@ == before_slash(job_key@),
                i <= n,
                *finder.root == *spanned_yaml,
                path@.map_values(|s: &str| s@) == seq!["requires"@],
                first_reported_requirement(strs_view(self.all_job_names@), *reqs, job_key@, *spanned_yaml, i as int)
                    == first_reported_requirement(strs_view(self.all_job_names@), *reqs, job_key@, *spanned_yaml, 0),
            decreases n - i,
        {
            let required_job = required_jobs[i].as_str();
            assert(requires_list(*reqs)[i as int] == required_job@);
            let full_key = if contains_char(required_job, '/') {
                to_owned_string(required_job)
            } else {
                let mut k = to_owned_string(workflow);
                k.append("/");
                k.append(required_job);
                k
            };
            if !contains_string(self.all_job_names, full_key.as_str()) {
                let span = match reqs {
                    JobRequires::Single(_) => finder.find_field_span(&path),
                    JobRequires::Multiple(_) => finder.find_array_item_span(&path, required_job),
                };
                match span {
                    Some(span) => {
                        assert(first_reported_requirement(strs_view(self.all_job_names@), *reqs, job_key@, *spanned_yaml, i as int) == Some((required_job@, span)));
                        let sorted = sort_strings(self.all_job_names);
                        let mut m = to_owned_string("Unknown job '");
                        m.append(required_job);
                        m.append("'. Available jobs: ");
                        let list = available_jobs_text_exec(&sorted, job_key);
                        m.append(list.as_str());
                        let e = DataValidationError::new(file_path, to_owned_string(content), span, m);
                        assert(e.message@ == unknown_job_message(required_job@, strs_view(sorted@), job_key@));
                        return Err(e);
                    },
                    None => {},
                }
            }
            i = i + 1;
        }
        Ok(())
    }
}

} // verus!
