//! Checks that the source file groups a job names are defined.

use vstd::prelude::*;
use vstd::string::*;
use crate::models::Job;
use crate::strutil::{to_owned_string, strs_view, strip_prefix, is_prefix, join, join_strings};
use crate::providers::circleci::convert::contains_string;
use super::error::{DataValidationError, names_or_none, names_or_none_text};
use super::span_finder::{SpanFinder, SpanInfo, SpannedYaml, find_path, span_of};

verus! {

broadcast use vstd::string::group_string_axioms;

/// Checks source file group references against the defined groups.
pub struct SourceFilesValidator<'a> {
    pub available_source_groups: &'a Vec<String>,
}

/// The groups named by `@group` entries that are not defined, in order.
pub open spec fn unknown_groups(avail: Seq<Seq<char>>, entries: Seq<Seq<char>>) -> Seq<Seq<char>>
    decreases entries.len(),
{
    if entries.len() == 0 {
        Seq::empty()
    } else {
        let e = entries.last();
        unknown_groups(avail, entries.drop_last()) + if is_prefix("@"@, e) && !avail.contains(e.subrange(1, e.len() as int)) {
            seq![e.subrange(1, e.len() as int)]
        } else {
            Seq::empty()
        }
    }
}

/// The message for unknown groups.
pub open spec fn unknown_groups_message(groups: Seq<Seq<char>>, avail: Seq<Seq<char>>) -> Seq<char> {
    "Unknown source file group(s) '"@ + join(groups, "', '"@) + "'. Available groups: "@ + names_or_none(avail)
}

/// Whether a job names source submodules without source files, at a
/// `source_submodules` field found in the file.
pub open spec fn submodules_without_files(job: Job, root: SpannedYaml) -> bool {
    job.source_submodules is Some && job.source_files is None && find_path(root, seq!["source_submodules"@]) is Some
}

/// The message for source submodules without source files.
pub open spec fn submodules_message() -> Seq<char> {
    "source_submodules requires source_files to be configured"@
}

/// What checking a job's source file groups and submodules gives: first the
/// unknown groups, reported at the `source_files` field; then submodules named
/// without source files, reported at the `source_submodules` field.
pub open spec fn source_files_result(r: Result<(), DataValidationError>, avail: Seq<Seq<char>>, job: Job, file_path: Seq<char>, content: Seq<char>, root: SpannedYaml) -> bool {
    let error_at = |node: SpannedYaml, message: Seq<char>| r matches Err(e) && e.span == span_of(node) && e.content@ == content
        && e.file_path@ == " "@ + file_path && e.message@ == message;
    match (job.source_files, find_path(root, seq!["source_files"@])) {
        (Some(sf), Some(node)) if unknown_groups(avail, strs_view(sf@)).len() > 0 =>
            error_at(node, unknown_groups_message(unknown_groups(avail, strs_view(sf@)), avail)),
        _ => if submodules_without_files(job, root) {
            error_at(find_path(root, seq!["source_submodules"@])->0, submodules_message())
        } else {
            r is Ok
        },
    }
}

impl<'a> SourceFilesValidator<'a> {
    /// A validator for these defined groups.
    pub fn new(available_source_groups: &'a Vec<String>) -> (r: Self)
        ensures
            r.available_source_groups == available_source_groups,
    {
        SourceFilesValidator { available_source_groups }
    }

    /// Reports, at the job's `source_files` field, every group it names that is
    /// not defined; then, at its `source_submodules` field, submodules named
    /// without source files. Nothing is reported of a field that cannot be
    /// found in the file.
    pub fn validate_job_source_files(&self, job: &Job, file_path: &str, content: &str, spanned_yaml: &SpannedYaml) -> (r: Result<(), DataValidationError>)
        ensures
            source_files_result(r, strs_view(self.available_source_groups@), *job, file_path@, content@, *spanned_yaml),
    {
        let finder = SpanFinder::new(spanned_yaml);
        let mut path: Vec<&str> = Vec::new();
        path.push("source_files");
        assert(path@.map_values(|s: &str| s@) =~= seq!["source_files"@]);
        match &job.source_files {
            Some(source_files) => match finder.find_field_span(&path) {
                Some(span) => {
                    match self.check_groups(source_files, file_path, content, span) {
                        Some(e) => return Err(e),
                        None => {},
                    }
                },
                None => {},
            },
            None => {},
        }
        if job.source_submodules.is_some() && job.source_files.is_none() {
            let mut sub_path: Vec<&str> = Vec::new();
            sub_path.push("source_submodules");
            assert(sub_path@.map_values(|s: &str| s@) =~= seq!["source_submodules"@]);
            match finder.find_field_span(&sub_path) {
                Some(span) => {
                    return Err(DataValidationError::new(file_path, to_owned_string(content), span,
                        to_owned_string("source_submodules requires source_files to be configured")));
                },
                None => {},
            }
        }
        Ok(())
    }

    /// The error for the undefined groups that `source_files` names, if any.
    fn check_groups(&self, source_files: &Vec<String>, file_path: &str, content: &str, span: SpanInfo) -> (r: Option<DataValidationError>)
        ensures
            match r {
                Some(e) => unknown_groups(strs_view(self.available_source_groups@), strs_view(source_files@)).len() > 0
                    && e.span == span && e.content@ == content@ && e.file_path@ == " "@ + file_path@
                    && e.message@ == unknown_groups_message(unknown_groups(strs_view(self.available_source_groups@), strs_view(source_files@)), strs_view(self.available_source_groups@)),
                None => unknown_groups(strs_view(self.available_source_groups@), strs_view(source_files@)).len() == 0,
            },
    {
        let ghost avail = strs_view(self.available_source_groups@);
        let mut unknown: Vec<String> = Vec::new();
        let n = source_files.len();
        let mut i: usize = 0;
        assert(strs_view(source_files@.subrange(0, 0)) =~= Seq::<Seq<char>>::empty());
        assert(strs_view(unknown@) =~= Seq::<Seq<char>>::empty());
        while i < n
            invariant
                n == source_files@.len(),
                i <= n,
                avail == strs_view(self.available_source_groups@),
                strs_view(unknown@) == unknown_groups(avail, strs_view(source_files@.subrange(0, i as int))),
            decreases n - i,
        {
            proof {
                reveal_strlit("@");
                let sub = strs_view(source_files@.subrange(0, i + 1));
                assert(sub.drop_last() =~= strs_view(source_files@.subrange(0, i as int)));
                assert(sub.last() == source_files@[i as int]@);
            }
            let ghost before = strs_view(unknown@);
            match strip_prefix(source_files[i].as_str(), "@") {
                Some(group) => {
                    if !contains_string(self.available_source_groups, group) {
                        unknown.push(to_owned_string(group));
                        assert(strs_view(unknown@) =~= before.push(group@));
                    }
                },
                None => {},
            }
            assert(strs_view(unknown@) =~= unknown_groups(avail, strs_view(source_files@.subrange(0, i + 1))));
            i = i + 1;
        }
        assert(source_files@.subrange(0, n as int) =~= source_files@);
        if unknown.len() > 0 {
            let mut m = to_owned_string("Unknown source file group(s) '");
            let joined = join_strings(&unknown, "', '");
            m.append(joined.as_str());
            m.append("'. Available groups: ");
            let list = names_or_none_text(self.available_source_groups);
            m.append(list.as_str());
            return Some(DataValidationError::new(file_path, to_owned_string(content), span, m));
        }
        None
    }
}

} // verus!
