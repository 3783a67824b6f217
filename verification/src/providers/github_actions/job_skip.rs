//! Job skipping for GitHub Actions: a job whose source files are unchanged since
//! its last successful run exits early.

use vstd::prelude::*;
use vstd::string::*;
use crate::models::{Config, Job, find_entry, lookup};
use crate::strutil::{to_owned_string, replace_all, spec_replace, join, join_strings, strs_view, opt_str_view, strip_prefix, is_prefix};
use super::schema::Step;

verus! {

broadcast use vstd::string::group_string_axioms;

/// Why the source files of a job cannot be expanded.
#[derive(Debug, PartialEq)]
pub enum SourceFilesError {
    /// A `@group` entry names a group that is not defined.
    GroupNotFound(String),
    /// A `@group` entry is used but no groups are defined.
    GroupsUndefined,
}

/// Generates the skip steps of a job.
pub struct JobSkipGenerator {}

/// The patterns of one source-files entry: a `@group` entry stands for the
/// group's patterns; any other entry is a pattern itself. `Err(Some(g))`: group
/// `g` is not defined; `Err(None)`: no groups are defined.
pub open spec fn expand_entry(groups: Option<Seq<(String, Vec<String>)>>, entry: Seq<char>) -> Result<Seq<Seq<char>>, Option<Seq<char>>> {
    if is_prefix("@"@, entry) {
        let name = entry.subrange(1, entry.len() as int);
        match groups {
            Some(g) => match lookup(g, name) {
                Some(ps) => Ok(strs_view(ps@)),
                None => Err(Some(name)),
            },
            None => Err(None),
        }
    } else {
        Ok(seq![entry])
    }
}

/// The patterns of all entries in order, or the error of the first entry that has one.
pub open spec fn expand_entries(groups: Option<Seq<(String, Vec<String>)>>, entries: Seq<Seq<char>>) -> Result<Seq<Seq<char>>, Option<Seq<char>>>
    decreases entries.len(),
{
    if entries.len() == 0 {
        Ok(Seq::empty())
    } else {
        match expand_entries(groups, entries.drop_last()) {
            Err(e) => Err(e),
            Ok(before) => match expand_entry(groups, entries.last()) {
                Err(e) => Err(e),
                Ok(ps) => Ok(before + ps),
            },
        }
    }
}

/// Once a prefix of the entries fails, the whole list fails with the same error.
pub proof fn lemma_expand_prefix_err(groups: Option<Seq<(String, Vec<String>)>>, s: Seq<Seq<char>>, k: int)
    requires
        0 <= k <= s.len(),
        expand_entries(groups, s.subrange(0, k)) is Err,
    ensures
        expand_entries(groups, s) == expand_entries(groups, s.subrange(0, k)),
    decreases s.len() - k,
{
    if k == s.len() {
        assert(s.subrange(0, k) =~= s);
    } else {
        let t = s.drop_last();
        assert(t.subrange(0, k) =~= s.subrange(0, k));
        lemma_expand_prefix_err(groups, t, k);
    }
}

/// The error as its specification value.
pub open spec fn source_files_error_view(e: SourceFilesError) -> Option<Seq<char>> {
    match e {
        SourceFilesError::GroupNotFound(g) => Some(g@),
        SourceFilesError::GroupsUndefined => None,
    }
}

/// The source file groups of a configuration.
pub open spec fn groups_of(config: Config) -> Option<Seq<(String, Vec<String>)>> {
    match config.source_file_groups {
        Some(g) => Some(g@),
        None => None,
    }
}

/// Expands `@group` entries into the group's patterns.
pub fn expand_source_files(groups: Option<&Vec<(String, Vec<String>)>>, entries: &Vec<String>) -> (r: Result<Vec<String>, SourceFilesError>)
    ensures
        match r {
            Ok(ps) => expand_entries(match groups { Some(g) => Some(g@), None => None }, strs_view(entries@)) == Ok::<Seq<Seq<char>>, Option<Seq<char>>>(strs_view(ps@)),
            Err(e) => expand_entries(match groups { Some(g) => Some(g@), None => None }, strs_view(entries@)) == Err::<Seq<Seq<char>>, Option<Seq<char>>>(source_files_error_view(e)),
        },
{
    let ghost gs = match groups { Some(g) => Some(g@), None => None };
    let mut patterns: Vec<String> = Vec::new();
    let n = entries.len();
    let mut i: usize = 0;
    proof { reveal_strlit("@"); }
    assert(strs_view(entries@.subrange(0, 0)) =~= Seq::<Seq<char>>::empty());
    assert(strs_view(patterns@) =~= Seq::<Seq<char>>::empty());
    while i < n
        invariant
            n == entries@.len(),
            i <= n,
            gs == match groups { Some(g) => Some(g@), None => None::<Seq<(String, Vec<String>)>> },
            expand_entries(gs, strs_view(entries@.subrange(0, i as int))) == Ok::<Seq<Seq<char>>, Option<Seq<char>>>(strs_view(patterns@)),
        decreases n - i,
    {
        let ghost sub = strs_view(entries@.subrange(0, i + 1));
        proof {
            reveal_strlit("@");
            assert(sub.drop_last() =~= strs_view(entries@.subrange(0, i as int)));
            assert(sub.last() == entries@[i as int]@);
        }
        let entry = entries[i].as_str();
        match strip_prefix(entry, "@") {
            Some(group_name) => {
                match groups {
                    Some(g) => match find_entry(g, group_name) {
                        Some(ps) => {
                            let ghost before = strs_view(patterns@);
                            let m = ps.len();
                            let mut k: usize = 0;
                            while k < m
                                invariant
                                    m == ps@.len(),
                                    k <= m,
                                    strs_view(patterns@) == before + strs_view(ps@.subrange(0, k as int)),
                                decreases m - k,
                            {
                                let ghost prev = patterns@;
                                patterns.push(to_owned_string(ps[k].as_str()));
                                proof {
                                    assert(strs_view(patterns@) =~= strs_view(prev).push(ps@[k as int]@));
                                    assert(strs_view(ps@.subrange(0, k + 1)) =~= strs_view(ps@.subrange(0, k as int)).push(ps@[k as int]@));
                                    assert(strs_view(patterns@) =~= before + strs_view(ps@.subrange(0, k + 1)));
                                }
                                k = k + 1;
                            }
                            assert(ps@.subrange(0, m as int) =~= ps@);
                        },
                        None => {
                            let r = SourceFilesError::GroupNotFound(to_owned_string(group_name));
                            proof {
                                assert(gs == Some(g@));
                                assert(expand_entry(gs, sub.last()) == Err::<Seq<Seq<char>>, Option<Seq<char>>>(Some(group_name@)));
                                assert(expand_entries(gs, sub) == Err::<Seq<Seq<char>>, Option<Seq<char>>>(Some(group_name@)));
                                assert(strs_view(entries@).subrange(0, i + 1) =~= sub);
                                lemma_expand_prefix_err(gs, strs_view(entries@), i + 1);
                            }
                            return Err(r);
                        },
                    },
                    None => {
                        proof {
                            assert(strs_view(entries@).subrange(0, i + 1) =~= sub);
                            lemma_expand_prefix_err(gs, strs_view(entries@), i + 1);
                        }
                        return Err(SourceFilesError::GroupsUndefined);
                    },
                }
            },
            None => {
                let ghost before = strs_view(patterns@);
                patterns.push(to_owned_string(entry));
                assert(strs_view(patterns@) =~= before + seq![entry@]);
            },
        }
        i = i + 1;
    }
    assert(entries@.subrange(0, n as int) =~= entries@);
    Ok(patterns)
}

/// A bash step with an id, a name and a script.
pub open spec fn is_bash_step(step: Step, id: Seq<char>, name: Seq<char>, run: Seq<char>) -> bool {
    &&& opt_str_view(step.id) == Some(id)
    &&& opt_str_view(step.name) == Some(name)
    &&& opt_str_view(step.run) == Some(run)
    &&& opt_str_view(step.shell) == Some("bash"@)
    &&& step.uses is None && step.with is None && step.env is None && step.condition is None
    &&& step.working_directory is None && step.continue_on_error is None && step.timeout_minutes is None
}

/// The lines before the per-pattern lines of the hash script.
pub open spec fn hash_script_head() -> Seq<Seq<char>> {
    seq![
        "set -e"@,
        "echo 'Calculating source file hash...'"@,
        "TEMP_HASH_FILE=\"/tmp/source_files_for_hash\""@,
        "rm -f \"$TEMP_HASH_FILE\""@,
        ""@,
    ]
}

/// The lines after the per-pattern lines of the hash script.
pub open spec fn hash_script_tail() -> Seq<Seq<char>> {
    seq![
        ""@,
        "if [ -s \"$TEMP_HASH_FILE\" ]; then"@,
        "  # Calculate hash of file contents"@,
        "  JOB_HASH=$(xargs -I{{}} sh -c 'cat \"{{}}\"' < \"$TEMP_HASH_FILE\" | sha256sum | cut -d' ' -f1)"@,
        "  echo \"Hash calculated: $JOB_HASH\""@,
        "  echo \"JOB_HASH=$JOB_HASH\" >> $GITHUB_ENV"@,
        "else"@,
        "  JOB_HASH=\"empty\""@,
        "  echo \"No source files found, using empty hash\""@,
        "  echo \"JOB_HASH=$JOB_HASH\" >> $GITHUB_ENV"@,
        "fi"@,
    ]
}

/// The line that lists the files matching a pattern (single quotes escaped).
pub open spec fn find_line(pattern: Seq<char>) -> Seq<char> {
    "find . -path './"@ + spec_replace(pattern, "'"@, "'\\''"@) + "' -type f 2>/dev/null | sort >> \"$TEMP_HASH_FILE\" || true"@
}

/// The find lines of the patterns, in order.
pub open spec fn find_lines(patterns: Seq<Seq<char>>) -> Seq<Seq<char>> {
    patterns.map_values(|p: Seq<char>| find_line(p))
}

/// The hash script for a list of patterns.
pub open spec fn hash_script(patterns: Seq<Seq<char>>) -> Seq<char> {
    join(hash_script_head() + find_lines(patterns) + hash_script_tail(), "\n"@)
}

/// The skip check script for an architecture.
pub open spec fn skip_check_script(architecture: Seq<char>) -> Seq<char> {
    "set -e\nSKIP_CACHE_DIR=\"/tmp/cigen_skip_cache\"\nSKIP_MARKER=\"$SKIP_CACHE_DIR/job_${{ env.JOB_HASH }}_"@
        + architecture
        + "\"\n\nif [ -f \"$SKIP_MARKER\" ]; then\n  echo \"\u{2713} Job already completed successfully for this file hash. Skipping...\"\n  exit 0\nelse\n  echo \"\u{2192} No previous successful run found. Proceeding with job...\"\n  mkdir -p \"$SKIP_CACHE_DIR\"\nfi"@
}

/// The completion script for an architecture.
pub open spec fn completion_script(architecture: Seq<char>) -> Seq<char> {
    "set -e\nSKIP_CACHE_DIR=\"/tmp/cigen_skip_cache\"\nSKIP_MARKER=\"$SKIP_CACHE_DIR/job_${{ env.JOB_HASH }}_"@
        + architecture
        + "\"\n\necho \"Recording successful completion for hash ${{ env.JOB_HASH }}\"\nmkdir -p \"$SKIP_CACHE_DIR\"\necho \"$(date): Job completed successfully\" > \"$SKIP_MARKER\""@
}

/// Appends the view of each string to a list of lines.
fn push_lines(out: &mut Vec<String>, lines: &[&str])
    ensures
        strs_view(final(out)@) == strs_view(old(out)@) + lines@.map_values(|s: &str| s@),
{
    let n = lines.len();
    let mut i: usize = 0;
    while i < n
        invariant
            n == lines@.len(),
            i <= n,
            strs_view(out@) == strs_view(old(out)@) + lines@.subrange(0, i as int).map_values(|s: &str| s@),
        decreases n - i,
    {
        let ghost prev = out@;
        out.push(to_owned_string(lines[i]));
        proof {
            assert(strs_view(out@) =~= strs_view(prev).push(lines@[i as int]@));
            assert(lines@.subrange(0, i + 1).map_values(|s: &str| s@) =~= lines@.subrange(0, i as int).map_values(|s: &str| s@).push(lines@[i as int]@));
            assert(strs_view(out@) =~= strs_view(old(out)@) + lines@.subrange(0, i + 1).map_values(|s: &str| s@));
        }
        i = i + 1;
    }
    assert(lines@.subrange(0, n as int) =~= lines@);
}

impl JobSkipGenerator {
    /// A skip step generator.
    pub fn new() -> (r: Self) {
        JobSkipGenerator {}
    }

    /// The step that hashes the job's source files into `JOB_HASH`.
    pub fn build_hash_calculation_step(&self, config: &Config, source_files: &Vec<String>) -> (r: Result<Step, SourceFilesError>)
        ensures
            match r {
                Ok(step) => expand_entries(groups_of(*config), strs_view(source_files@)) matches Ok(ps)
                    && is_bash_step(step, "calculate_hash"@, "Calculate source file hash"@, hash_script(ps)),
                Err(e) => expand_entries(groups_of(*config), strs_view(source_files@)) == Err::<Seq<Seq<char>>, Option<Seq<char>>>(source_files_error_view(e)),
            },
    {
        let groups = match &config.source_file_groups {
            Some(g) => Some(g),
            None => None,
        };
        let patterns = match expand_source_files(groups, source_files) {
            Ok(p) => p,
            Err(e) => return Err(e),
        };
        let mut lines: Vec<String> = Vec::new();
        let head: [&str; 5] = [
            "set -e",
            "echo 'Calculating source file hash...'",
            "TEMP_HASH_FILE=\"/tmp/source_files_for_hash\"",
            "rm -f \"$TEMP_HASH_FILE\"",
            "",
        ];
        push_lines(&mut lines, &head);
        assert(head@.map_values(|s: &str| s@) =~= hash_script_head());
        let ghost after_head = strs_view(lines@);
        let n = patterns.len();
        let mut i: usize = 0;
        proof { reveal_strlit("'"); }
        while i < n
            invariant
                n == patterns@.len(),
                i <= n,
                after_head == hash_script_head(),
                strs_view(lines@) == after_head + find_lines(strs_view(patterns@.subrange(0, i as int))),
            decreases n - i,
        {
            proof { reveal_strlit("'"); }
            let escaped = replace_all(patterns[i].as_str(), "'", "'\\''");
            let mut line = to_owned_string("find . -path './");
            line.append(escaped.as_str());
            line.append("' -type f 2>/dev/null | sort >> \"$TEMP_HASH_FILE\" || true");
            let ghost prev = lines@;
            lines.push(line);
            proof {
                assert(strs_view(lines@) =~= strs_view(prev).push(lines@[prev.len() as int]@));
                assert(find_lines(strs_view(patterns@.subrange(0, i + 1))) =~=
                    find_lines(strs_view(patterns@.subrange(0, i as int))).push(find_line(patterns@[i as int]@)));
                assert(strs_view(lines@) =~= after_head + find_lines(strs_view(patterns@.subrange(0, i + 1))));
            }
            i = i + 1;
        }
        assert(patterns@.subrange(0, n as int) =~= patterns@);
        let ghost before_tail = strs_view(lines@);
        let tail: [&str; 11] = [
            "",
            "if [ -s \"$TEMP_HASH_FILE\" ]; then",
            "  # Calculate hash of file contents",
            "  JOB_HASH=$(xargs -I{{}} sh -c 'cat \"{{}}\"' < \"$TEMP_HASH_FILE\" | sha256sum | cut -d' ' -f1)",
            "  echo \"Hash calculated: $JOB_HASH\"",
            "  echo \"JOB_HASH=$JOB_HASH\" >> $GITHUB_ENV",
            "else",
            "  JOB_HASH=\"empty\"",
            "  echo \"No source files found, using empty hash\"",
            "  echo \"JOB_HASH=$JOB_HASH\" >> $GITHUB_ENV",
            "fi",
        ];
        push_lines(&mut lines, &tail);
        assert(tail@.map_values(|s: &str| s@) =~= hash_script_tail());
        assert(strs_view(lines@) =~= hash_script_head() + find_lines(strs_view(patterns@)) + hash_script_tail());
        let mut step = Step::empty();
        step.id = Some(to_owned_string("calculate_hash"));
        step.name = Some(to_owned_string("Calculate source file hash"));
        step.run = Some(join_strings(&lines, "\n"));
        step.shell = Some(to_owned_string("bash"));
        Ok(step)
    }

    /// The step that exits early when the job already succeeded for this hash.
    pub fn build_skip_check_step(&self, architecture: &str) -> (r: Step)
        ensures
            is_bash_step(r, "check_skip"@, "Check if job should be skipped"@, skip_check_script(architecture@)),
    {
        let mut command = to_owned_string("set -e\nSKIP_CACHE_DIR=\"/tmp/cigen_skip_cache\"\nSKIP_MARKER=\"$SKIP_CACHE_DIR/job_${{ env.JOB_HASH }}_");
        command.append(architecture);
        command.append("\"\n\nif [ -f \"$SKIP_MARKER\" ]; then\n  echo \"\u{2713} Job already completed successfully for this file hash. Skipping...\"\n  exit 0\nelse\n  echo \"\u{2192} No previous successful run found. Proceeding with job...\"\n  mkdir -p \"$SKIP_CACHE_DIR\"\nfi");
        let mut step = Step::empty();
        step.id = Some(to_owned_string("check_skip"));
        step.name = Some(to_owned_string("Check if job should be skipped"));
        step.run = Some(command);
        step.shell = Some(to_owned_string("bash"));
        step
    }

    /// The step that records the job's success for this hash.
    pub fn build_completion_step(&self, architecture: &str) -> (r: Step)
        ensures
            is_bash_step(r, "record_completion"@, "Record job completion"@, completion_script(architecture@)),
    {
        let mut command = to_owned_string("set -e\nSKIP_CACHE_DIR=\"/tmp/cigen_skip_cache\"\nSKIP_MARKER=\"$SKIP_CACHE_DIR/job_${{ env.JOB_HASH }}_");
        command.append(architecture);
        command.append("\"\n\necho \"Recording successful completion for hash ${{ env.JOB_HASH }}\"\nmkdir -p \"$SKIP_CACHE_DIR\"\necho \"$(date): Job completed successfully\" > \"$SKIP_MARKER\"");
        let mut step = Step::empty();
        step.id = Some(to_owned_string("record_completion"));
        step.name = Some(to_owned_string("Record job completion"));
        step.run = Some(command);
        step.shell = Some(to_owned_string("bash"));
        step
    }

    /// The hash, skip check and completion steps of a job with source files; none
    /// for a job without.
    pub fn generate_skip_steps(&self, config: &Config, job: &Job, architecture: &str) -> (r: Result<Option<(Step, Step, Step)>, SourceFilesError>)
        ensures
            match job.source_files {
                None => r == Ok::<Option<(Step, Step, Step)>, SourceFilesError>(None),
                Some(sf) => match r {
                    Ok(Some((h, s, c))) => expand_entries(groups_of(*config), strs_view(sf@)) matches Ok(ps)
                        && is_bash_step(h, "calculate_hash"@, "Calculate source file hash"@, hash_script(ps))
                        && is_bash_step(s, "check_skip"@, "Check if job should be skipped"@, skip_check_script(architecture@))
                        && is_bash_step(c, "record_completion"@, "Record job completion"@, completion_script(architecture@)),
                    Ok(None) => false,
                    Err(e) => expand_entries(groups_of(*config), strs_view(sf@)) == Err::<Seq<Seq<char>>, Option<Seq<char>>>(source_files_error_view(e)),
                },
            },
    {
        match &job.source_files {
            Some(source_files) => {
                let hash_step = match self.build_hash_calculation_step(config, source_files) {
                    Ok(s) => s,
                    Err(e) => return Err(e),
                };
                let skip_check_step = self.build_skip_check_step(architecture);
                let completion_step = self.build_completion_step(architecture);
                Ok(Some((hash_step, skip_check_step, completion_step)))
            },
            None => Ok(None),
        }
    }
}

} // verus!
