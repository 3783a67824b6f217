//! Checks that every step of a job names something that exists.

use vstd::prelude::*;
use vstd::string::*;
use crate::models::{Command, Job, has_key};
use crate::providers::circleci::builtin_steps::spec_is_builtin_step;
use crate::providers::circleci::schema::is_builtin_step;
use crate::providers::circleci::template_commands::{is_template_command, spec_is_template_command};
use crate::strutil::{contains_char, decimal, spec_decimal, str_eq, to_owned_string, join, join_strings, strs_view};
use crate::yaml::{YamlValue, YamlView, spec_as_str, lemma_entry_views_of};

verus! {

broadcast use vstd::string::group_string_axioms;

/// Validates that all step references in jobs are valid.
pub struct StepValidator;

/// The start of a message about a step.
pub open spec fn step_prefix(job_name: Seq<char>, step_num: nat) -> Seq<char> {
    "Job '"@ + job_name + "' step "@ + spec_decimal(step_num) + ": "@
}

/// Whether a command named `name` is available.
pub open spec fn command_available(cmds: Seq<(String, Command)>, name: Seq<char>) -> bool {
    spec_is_template_command(name) || has_key(cmds, name)
}

/// The problem with a CircleCI step, if any. A string step must be a built-in
/// step or an available command; a single-entry mapping with a string key must
/// be a built-in or known step type, an available command or an orb command
/// (holding `/`); other mappings pass; anything else is malformed.
pub open spec fn circleci_step_error(v: YamlView, cmds: Seq<(String, Command)>, job_name: Seq<char>, step_num: nat) -> Option<Seq<char>> {
    match v {
        YamlView::Str(c) => if spec_is_builtin_step(c) || command_available(cmds, c) {
            None
        } else {
            Some(step_prefix(job_name, step_num) + "command '"@ + c + "' is not defined"@)
        },
        YamlView::Mapping(e) => if e.len() == 1 && spec_as_str(e[0].0) is Some {
            let t = spec_as_str(e[0].0)->0;
            if spec_is_builtin_step(t) || command_available(cmds, t) || t.contains('/') || t == "commit_and_push_changed_files"@ {
                None
            } else {
                Some(step_prefix(job_name, step_num) + "unknown step type '"@ + t + "'"@)
            }
        } else {
            None
        },
        _ => Some(step_prefix(job_name, step_num) + "invalid step format"@),
    }
}

/// The problem with a step for a provider: only CircleCI steps are checked.
pub open spec fn step_error(v: YamlView, cmds: Seq<(String, Command)>, provider: Seq<char>, job_name: Seq<char>, step_num: nat) -> Option<Seq<char>> {
    if provider == "circleci"@ {
        circleci_step_error(v, cmds, job_name, step_num)
    } else {
        None
    }
}

/// The problems with the first `k` steps of a job, in order; steps are numbered from 1.
pub open spec fn job_step_errors(steps: Seq<YamlValue>, cmds: Seq<(String, Command)>, provider: Seq<char>, job_name: Seq<char>, k: int) -> Seq<Seq<char>>
    decreases k,
{
    if k <= 0 {
        Seq::empty()
    } else {
        job_step_errors(steps, cmds, provider, job_name, k - 1) + match step_error(steps[k - 1]@, cmds, provider, job_name, k as nat) {
            Some(m) => seq![m],
            None => Seq::empty(),
        }
    }
}

/// The problems with all steps of a job.
pub open spec fn job_errors(job_name: Seq<char>, job: Job, cmds: Seq<(String, Command)>, provider: Seq<char>) -> Seq<Seq<char>> {
    match job.steps {
        Some(s) => job_step_errors(s@, cmds, provider, job_name, s@.len() as int),
        None => Seq::empty(),
    }
}

/// The problems with the steps of all jobs, job by job.
pub open spec fn all_step_errors(jobs: Seq<(String, Job)>, cmds: Seq<(String, Command)>, provider: Seq<char>) -> Seq<Seq<char>>
    decreases jobs.len(),
{
    if jobs.len() == 0 {
        Seq::empty()
    } else {
        all_step_errors(jobs.drop_last(), cmds, provider) + job_errors(jobs.last().0@, jobs.last().1, cmds, provider)
    }
}

/// Whether a command is available by name.
fn command_available_exec(cmds: &Vec<(String, Command)>, name: &str) -> (r: bool)
    ensures
        r == command_available(cmds@, name@),
{
    if is_template_command(name) {
        return true;
    }
    let n = cmds.len();
    let mut i: usize = 0;
    while i < n
        invariant
            n == cmds@.len(),
            i <= n,
            forall|j: int| 0 <= j < i ==> (#[trigger] cmds@[j]).0@ != name@,
        decreases n - i,
    {
        if str_eq(cmds[i].0.as_str(), name) {
            assert(cmds@[i as int].0@ == name@);
            return true;
        }
        i = i + 1;
    }
    false
}

/// The start of a message about a step.
fn step_prefix_exec(job_name: &str, step_num: usize) -> (r: String)
    ensures
        r@ == step_prefix(job_name@, step_num as nat),
{
    let mut m = to_owned_string("Job '");
    m.append(job_name);
    m.append("' step ");
    let num = decimal(step_num as u128);
    m.append(num.as_str());
    m.append(": ");
    m
}

impl StepValidator {
    /// A step validator.
    pub fn new() -> (r: Self) {
        StepValidator
    }

    /// Checks one CircleCI step.
    pub fn validate_circleci_step(&self, step: &YamlValue, available_commands: &Vec<(String, Command)>, job_name: &str, step_num: usize) -> (r: Result<(), String>)
        ensures
            match r {
                Ok(()) => circleci_step_error(step@, available_commands@, job_name@, step_num as nat) is None,
                Err(m) => circleci_step_error(step@, available_commands@, job_name@, step_num as nat) == Some(m@),
            },
    {
        match step {
            YamlValue::Str(cmd_name) => {
                if is_builtin_step(cmd_name.as_str()) {
                    return Ok(());
                }
                if !command_available_exec(available_commands, cmd_name.as_str()) {
                    let mut m = step_prefix_exec(job_name, step_num);
                    m.append("command '");
                    m.append(cmd_name.as_str());
                    m.append("' is not defined");
                    return Err(m);
                }
                Ok(())
            },
            YamlValue::Mapping(map) => {
                proof { lemma_entry_views_of(map@); }
                if map.len() == 1 {
                    if let Some(step_type) = map[0].0.as_str() {
                        if is_builtin_step(step_type) || command_available_exec(available_commands, step_type) || contains_char(step_type, '/') {
                            return Ok(());
                        }
                        if !str_eq(step_type, "commit_and_push_changed_files") {
                            let mut m = step_prefix_exec(job_name, step_num);
                            m.append("unknown step type '");
                            m.append(step_type);
                            m.append("'");
                            return Err(m);
                        }
                    }
                }
                Ok(())
            },
            _ => {
                let mut m = step_prefix_exec(job_name, step_num);
                m.append("invalid step format");
                Err(m)
            },
        }
    }

    /// Checks one step for a provider; only CircleCI steps are checked.
    pub fn validate_step(&self, step: &YamlValue, available_commands: &Vec<(String, Command)>, provider: &str, job_name: &str, step_num: usize) -> (r: Result<(), String>)
        ensures
            match r {
                Ok(()) => step_error(step@, available_commands@, provider@, job_name@, step_num as nat) is None,
                Err(m) => step_error(step@, available_commands@, provider@, job_name@, step_num as nat) == Some(m@),
            },
    {
        if str_eq(provider, "circleci") {
            self.validate_circleci_step(step, available_commands, job_name, step_num)
        } else {
            Ok(())
        }
    }

    /// Validates all step references in the given jobs. Every problem is
    /// collected, job by job and step by step, and reported together.
    pub fn validate_step_references(&self, jobs: &Vec<(String, Job)>, available_commands: &Vec<(String, Command)>, provider: &str) -> (r: Result<(), String>)
        ensures
            match r {
                Ok(()) => all_step_errors(jobs@, available_commands@, provider@).len() == 0,
                Err(m) => all_step_errors(jobs@, available_commands@, provider@).len() > 0
                    && m@ == "Step validation errors:\n"@ + join(all_step_errors(jobs@, available_commands@, provider@), "\n"@),
            },
    {
        let mut errors: Vec<String> = Vec::new();
        let n = jobs.len();
        let mut i: usize = 0;
        while i < n
            invariant
                n == jobs@.len(),
                i <= n,
                strs_view(errors@) == all_step_errors(jobs@.subrange(0, i as int), available_commands@, provider@),
            decreases n - i,
        {
            proof {
                let sub = jobs@.subrange(0, i + 1);
                assert(sub.drop_last() =~= jobs@.subrange(0, i as int));
            }
            let ghost before = strs_view(errors@);
            let job_name = &jobs[i].0;
            let job = &jobs[i].1;
            match &job.steps {
                Some(steps) => {
                    let m = steps.len();
                    let mut k: usize = 0;
                    while k < m
                        invariant
                            m == steps@.len(),
                            k <= m,
                            strs_view(errors@) == before + job_step_errors(steps@, available_commands@, provider@, job_name@, k as int),
                        decreases m - k,
                    {
                        let ghost prev = errors@;
                        match self.validate_step(&steps[k], available_commands, provider, job_name.as_str(), k + 1) {
                            Err(e) => {
                                errors.push(e);
                                assert(strs_view(errors@) =~= strs_view(prev).push(errors@[prev.len() as int]@));
                            },
                            Ok(()) => {},
                        }
                        assert(strs_view(errors@) =~= before + job_step_errors(steps@, available_commands@, provider@, job_name@, k + 1));
                        k = k + 1;
                    }
                },
                None => {
                    assert(strs_view(errors@) =~= before + job_errors(job_name@, *job, available_commands@, provider@));
                },
            }
            i = i + 1;
        }
        assert(jobs@.subrange(0, n as int) =~= jobs@);
        if errors.len() > 0 {
            let mut m = to_owned_string("Step validation errors:\n");
            let joined = join_strings(&errors, "\n");
            m.append(joined.as_str());
            return Err(m);
        }
        Ok(())
    }
}

} // verus!
