//! Assembling a CircleCI configuration: the jobs of a workflow converted for
//! each of their architectures, the commands they use, and the settings of the
//! whole pipeline.

use vstd::prelude::*;
use vstd::string::*;
use crate::models::{Config, Job, Command, unique_keys, pairs_map, map_insert, lookup, find_entry, has_key, lemma_pairs_map_unique, lemma_lookup};
use crate::strutil::{strs_view, to_owned_string, opt_ref_view, opt_str_view, str_pairs_view, copy_str_pairs, join};
use crate::models::Service;
use super::config::CircleCIExecutor;
use crate::validation::steps::{StepValidator, all_step_errors};
use super::config::{CircleCIJob, CircleCICommand, CircleCIConfig, CircleCIWorkflow, spec_detect_step_type};
use super::command_scan::{uses_template, uses_command};
use super::convert::steps_typed;
use super::template_commands::{spec_is_template_command, template_commands};
use crate::yaml::YamlView;
use super::generator::{params_converted, command_step_view};
use super::convert::{workflow_jobs_are, workflow_entries, contains_string, docker_image_error_message, hash_step_error_message};
use super::docker_build::{no_dups, augmented, required_images, is_required};
use super::convert::{job_architectures, variant_name, conversion_fails, conversion_error_ok, converted_job_ok, ConvertJobError};
use super::docker_build::is_approval_type;
use super::generator::CircleCIGenerator;

verus! {

broadcast use vstd::string::group_string_axioms;

/// Whether `k` names the variant of job `j` (no approval job) for its
/// architecture number `a`.
pub open spec fn variant_of(jobs: Seq<(String, Job)>, k: Seq<char>, j: int, a: int) -> bool {
    &&& 0 <= j < jobs.len()
    &&& !is_approval_type(jobs[j].1)
    &&& 0 <= a < job_architectures(jobs[j].1).len()
    &&& k == variant_name(jobs[j].0@, job_architectures(jobs[j].1), job_architectures(jobs[j].1)[a])
}

/// Whether the variants of the first `n` jobs (and the first `m`
/// architectures of job `n`) convert.
pub open spec fn converts_upto(config: Config, jobs: Seq<(String, Job)>, base_hash: Option<Seq<char>>, n: int, m: int) -> bool {
    forall|j: int, a: int| 0 <= j <= n && 0 <= j < jobs.len() && !is_approval_type(jobs[j].1)
        && 0 <= a < job_architectures(jobs[j].1).len() && (j < n || a < m)
        ==> !#[trigger] conversion_fails(config, jobs[j].1, job_architectures(jobs[j].1)[a], base_hash)
}

/// Whether every variant of every job (approval jobs aside) converts.
pub open spec fn all_convert(config: Config, jobs: Seq<(String, Job)>, base_hash: Option<Seq<char>>) -> bool {
    forall|j: int, a: int| 0 <= j < jobs.len() && !is_approval_type(jobs[j].1) && 0 <= a < job_architectures(jobs[j].1).len()
        ==> !#[trigger] conversion_fails(config, jobs[j].1, job_architectures(jobs[j].1)[a], base_hash)
}

/// Converted jobs added under their variant names: every variant name is there,
/// holding a conversion of a job variant of that name; other names keep their jobs.
pub open spec fn variants_added(new_jobs: Seq<(String, CircleCIJob)>, old_jobs: Seq<(String, CircleCIJob)>, config: Config,
    jobs: Seq<(String, Job)>, base_hash: Option<Seq<char>>, n: int, m: int) -> bool {
    let fm = pairs_map(new_jobs);
    let om = pairs_map(old_jobs);
    &&& forall|k: Seq<char>| #[trigger] fm.dom().contains(k) <==> (om.dom().contains(k)
        || exists|j: int, a: int| #[trigger] variant_of(jobs, k, j, a) && (j < n || (j == n && a < m)))
    &&& forall|k: Seq<char>| #[trigger] fm.dom().contains(k) && !om.dom().contains(k) ==> exists|j: int, a: int|
        #[trigger] variant_of(jobs, k, j, a) && (j < n || (j == n && a < m))
        && converted_job_ok(fm[k], config, jobs[j].0@, jobs[j].1, job_architectures(jobs[j].1)[a], base_hash)
    &&& forall|k: Seq<char>| #[trigger] fm.dom().contains(k) && om.dom().contains(k) ==> (fm[k] == om[k] || exists|j: int, a: int|
        #[trigger] variant_of(jobs, k, j, a) && (j < n || (j == n && a < m))
        && converted_job_ok(fm[k], config, jobs[j].0@, jobs[j].1, job_architectures(jobs[j].1)[a], base_hash))
    &&& forall|k: Seq<char>| #[trigger] om.dom().contains(k) && !(exists|j: int, a: int| #[trigger] variant_of(jobs, k, j, a) && (j < n || (j == n && a < m)))
        ==> fm[k] == om[k]
}

/// The name of a job's variant for an architecture.
fn variant_name_exec(name: &str, archs: &Vec<String>, arch: &str) -> (r: String)
    ensures
        r@ == variant_name(name@, strs_view(archs@), arch@),
{
    if archs.len() > 1 {
        let mut v = to_owned_string(name);
        v.append("_");
        v.append(arch);
        v
    } else {
        to_owned_string(name)
    }
}

impl CircleCIGenerator {
    /// Converts every job of a workflow (approval jobs aside) for each of its
    /// architectures and adds it to `out` under its variant name. Fails with the
    /// first conversion that fails.
    pub fn convert_workflow_jobs(&self, config: &Config, jobs: &Vec<(String, Job)>, base_hash: Option<&str>, out: &mut Vec<(String, CircleCIJob)>) -> (r: Result<(), ConvertJobError>)
        requires
            unique_keys(old(out)@),
        ensures
            unique_keys(final(out)@),
            r is Ok <==> all_convert(*config, jobs@, opt_ref_view(base_hash)),
            r is Ok ==> variants_added(final(out)@, old(out)@, *config, jobs@, opt_ref_view(base_hash), jobs@.len() as int, 0),
            r matches Err(e) ==> exists|j: int, a: int| 0 <= j < jobs@.len() && !is_approval_type(jobs@[j].1) && 0 <= a < job_architectures(jobs@[j].1).len()
                && #[trigger] conversion_error_ok(e, *config, jobs@[j].1, job_architectures(jobs@[j].1)[a], opt_ref_view(base_hash)),
    {
        let ghost bh = match base_hash { Some(h) => Some(h@), None => None::<Seq<char>> };
        let ghost start = out@;
        let n = jobs.len();
        let mut i: usize = 0;
        while i < n
            invariant
                n == jobs@.len(),
                i <= n,
                bh == match base_hash { Some(h) => Some(h@), None => None::<Seq<char>> },
                start == old(out)@,
                unique_keys(out@),
                converts_upto(*config, jobs@, bh, i as int, 0),
                variants_added(out@, start, *config, jobs@, bh, i as int, 0),
            decreases n - i,
        {
            let name = jobs[i].0.as_str();
            let job = &jobs[i].1;
            let approval = match &job.job_type {
                Some(t) => crate::strutil::str_eq(t.as_str(), "approval"),
                None => false,
            };
            assert(approval == is_approval_type(jobs@[i as int].1));
            let ghost mut mm: int = 0;
            if !approval {
                let archs = match &job.architectures {
                    Some(a) => crate::strutil::copy_strings(a),
                    None => {
                        let mut v: Vec<String> = Vec::new();
                        v.push(to_owned_string("amd64"));
                        assert(strs_view(v@) =~= seq!["amd64"@]);
                        v
                    },
                };
                assert(strs_view(archs@) == job_architectures(jobs@[i as int].1));
                let m = archs.len();
                let mut t: usize = 0;
                while t < m
                    invariant
                        n == jobs@.len(),
                        i < n,
                        m == archs@.len(),
                        t <= m,
                        *job == jobs@[i as int].1,
                        name@ == jobs@[i as int].0@,
                        !is_approval_type(jobs@[i as int].1),
                        strs_view(archs@) == job_architectures(jobs@[i as int].1),
                        bh == match base_hash { Some(h) => Some(h@), None => None::<Seq<char>> },
                        start == old(out)@,
                        unique_keys(out@),
                        converts_upto(*config, jobs@, bh, i as int, t as int),
                        variants_added(out@, start, *config, jobs@, bh, i as int, t as int),
                    decreases m - t,
                {
                    let arch = archs[t].as_str();
                    assert(job_architectures(jobs@[i as int].1)[t as int] == arch@);
                    match self.convert_job_with_architecture(config, job, arch, name, base_hash) {
                        Err(e) => {
                            assert(conversion_error_ok(e, *config, jobs@[i as int].1, job_architectures(jobs@[i as int].1)[t as int], bh));
                            assert(conversion_fails(*config, jobs@[i as int].1, job_architectures(jobs@[i as int].1)[t as int], bh));
                            assert(!all_convert(*config, jobs@, bh));
                            return Err(e);
                        },
                        Ok(cj) => {
                            let variant = variant_name_exec(name, &archs, arch);
                            let ghost vk = variant@;
                            let ghost before = out@;
                            assert(variant_of(jobs@, vk, i as int, t as int));
                            assert(converted_job_ok(cj, *config, jobs@[i as int].0@, jobs@[i as int].1, job_architectures(jobs@[i as int].1)[t as int], bh));
                            map_insert(out, variant, cj);
                            proof {
                                let fm = pairs_map(out@);
                                let bm = pairs_map(before);
                                let om = pairs_map(start);
                                assert forall|k: Seq<char>| #[trigger] fm.dom().contains(k) <==> (om.dom().contains(k)
                                    || exists|j: int, a: int| #[trigger] variant_of(jobs@, k, j, a) && (j < i || (j == i && a < t + 1))) by {
                                    if exists|j: int, a: int| #[trigger] variant_of(jobs@, k, j, a) && (j < i || (j == i && a < t + 1)) {
                                        let (j, a) = choose|j: int, a: int| #[trigger] variant_of(jobs@, k, j, a) && (j < i || (j == i && a < t + 1));
                                        if !(j < i || (j == i && a < t)) {
                                            assert(a == t && j == i);
                                        }
                                    }
                                }
                                assert forall|k: Seq<char>| #[trigger] fm.dom().contains(k) && !om.dom().contains(k) implies exists|j: int, a: int|
                                    #[trigger] variant_of(jobs@, k, j, a) && (j < i || (j == i && a < t + 1))
                                    && converted_job_ok(fm[k], *config, jobs@[j].0@, jobs@[j].1, job_architectures(jobs@[j].1)[a], bh) by {
                                    if k != vk {
                                        assert(bm.dom().contains(k));
                                        let (j, a) = choose|j: int, a: int| #[trigger] variant_of(jobs@, k, j, a) && (j < i || (j == i && a < t))
                                            && converted_job_ok(bm[k], *config, jobs@[j].0@, jobs@[j].1, job_architectures(jobs@[j].1)[a], bh);
                                        assert(variant_of(jobs@, k, j, a) && (j < i || (j == i && a < t + 1)));
                                    } else {
                                        assert(variant_of(jobs@, k, i as int, t as int));
                                    }
                                }
                                assert forall|k: Seq<char>| #[trigger] fm.dom().contains(k) && om.dom().contains(k) implies (fm[k] == om[k] || exists|j: int, a: int|
                                    #[trigger] variant_of(jobs@, k, j, a) && (j < i || (j == i && a < t + 1))
                                    && converted_job_ok(fm[k], *config, jobs@[j].0@, jobs@[j].1, job_architectures(jobs@[j].1)[a], bh)) by {
                                    if k != vk {
                                        assert(bm.dom().contains(k));
                                        if bm[k] != om[k] {
                                            let (j, a) = choose|j: int, a: int| #[trigger] variant_of(jobs@, k, j, a) && (j < i || (j == i && a < t))
                                                && converted_job_ok(bm[k], *config, jobs@[j].0@, jobs@[j].1, job_architectures(jobs@[j].1)[a], bh);
                                            assert(variant_of(jobs@, k, j, a) && (j < i || (j == i && a < t + 1)));
                                        }
                                    } else {
                                        assert(variant_of(jobs@, k, i as int, t as int));
                                    }
                                }
                                assert forall|k: Seq<char>| #[trigger] om.dom().contains(k) && !(exists|j: int, a: int| #[trigger] variant_of(jobs@, k, j, a) && (j < i || (j == i && a < t + 1)))
                                    implies fm[k] == om[k] by {
                                    if k == vk {
                                        assert(variant_of(jobs@, k, i as int, t as int));
                                    }
                                    if exists|j: int, a: int| #[trigger] variant_of(jobs@, k, j, a) && (j < i || (j == i && a < t)) {
                                        let (j, a) = choose|j: int, a: int| #[trigger] variant_of(jobs@, k, j, a) && (j < i || (j == i && a < t));
                                        assert(variant_of(jobs@, k, j, a) && (j < i || (j == i && a < t + 1)));
                                    }
                                }
                                assert forall|j: int, a: int| 0 <= j <= i && 0 <= j < jobs@.len() && !is_approval_type(jobs@[j].1)
                                    && 0 <= a < job_architectures(jobs@[j].1).len() && (j < i || a < t + 1)
                                    implies !#[trigger] conversion_fails(*config, jobs@[j].1, job_architectures(jobs@[j].1)[a], bh) by {
                                    if j == i && a == t {
                                    } else {
                                        assert(j < i || a < t);
                                    }
                                }
                            }
                        },
                    }
                    t = t + 1;
                }
                proof {
                    mm = m as int;
                }
            }
            proof {
                assert(variants_added(out@, start, *config, jobs@, bh, i as int, mm));
                assert(converts_upto(*config, jobs@, bh, i as int, mm));
                assert forall|k: Seq<char>, j: int, a: int| #[trigger] variant_of(jobs@, k, j, a) implies
                    ((j < i || (j == i && a < mm)) <==> (j < i + 1 || (j == i + 1 && a < 0))) by {
                }
                let fm = pairs_map(out@);
                let om = pairs_map(start);
                assert forall|k: Seq<char>| #[trigger] fm.dom().contains(k) <==> (om.dom().contains(k)
                    || exists|j: int, a: int| #[trigger] variant_of(jobs@, k, j, a) && (j < i + 1 || (j == i + 1 && a < 0))) by {
                    if exists|j: int, a: int| #[trigger] variant_of(jobs@, k, j, a) && (j < i + 1 || (j == i + 1 && a < 0)) {
                        let (j, a) = choose|j: int, a: int| #[trigger] variant_of(jobs@, k, j, a) && (j < i + 1 || (j == i + 1 && a < 0));
                        assert(j < i || (j == i && a < mm));
                    }
                    if exists|j: int, a: int| #[trigger] variant_of(jobs@, k, j, a) && (j < i || (j == i && a < mm)) {
                        let (j, a) = choose|j: int, a: int| #[trigger] variant_of(jobs@, k, j, a) && (j < i || (j == i && a < mm));
                        assert(j < i + 1);
                    }
                }
                assert forall|k: Seq<char>| #[trigger] fm.dom().contains(k) && !om.dom().contains(k) implies exists|j: int, a: int|
                    #[trigger] variant_of(jobs@, k, j, a) && (j < i + 1 || (j == i + 1 && a < 0))
                    && converted_job_ok(fm[k], *config, jobs@[j].0@, jobs@[j].1, job_architectures(jobs@[j].1)[a], bh) by {
                    let (j, a) = choose|j: int, a: int| #[trigger] variant_of(jobs@, k, j, a) && (j < i || (j == i && a < mm))
                        && converted_job_ok(fm[k], *config, jobs@[j].0@, jobs@[j].1, job_architectures(jobs@[j].1)[a], bh);
                    assert(j < i + 1);
                }
                assert forall|k: Seq<char>| #[trigger] fm.dom().contains(k) && om.dom().contains(k) implies (fm[k] == om[k] || exists|j: int, a: int|
                    #[trigger] variant_of(jobs@, k, j, a) && (j < i + 1 || (j == i + 1 && a < 0))
                    && converted_job_ok(fm[k], *config, jobs@[j].0@, jobs@[j].1, job_architectures(jobs@[j].1)[a], bh)) by {
                    if fm[k] != om[k] {
                        let (j, a) = choose|j: int, a: int| #[trigger] variant_of(jobs@, k, j, a) && (j < i || (j == i && a < mm))
                            && converted_job_ok(fm[k], *config, jobs@[j].0@, jobs@[j].1, job_architectures(jobs@[j].1)[a], bh);
                        assert(j < i + 1);
                    }
                }
                assert forall|k: Seq<char>| #[trigger] om.dom().contains(k) && !(exists|j: int, a: int| #[trigger] variant_of(jobs@, k, j, a) && (j < i + 1 || (j == i + 1 && a < 0)))
                    implies fm[k] == om[k] by {
                    if exists|j: int, a: int| #[trigger] variant_of(jobs@, k, j, a) && (j < i || (j == i && a < mm)) {
                        let (j, a) = choose|j: int, a: int| #[trigger] variant_of(jobs@, k, j, a) && (j < i || (j == i && a < mm));
                        assert(j < i + 1);
                    }
                }
                assert forall|j: int, a: int| 0 <= j <= i + 1 && 0 <= j < jobs@.len() && !is_approval_type(jobs@[j].1)
                    && 0 <= a < job_architectures(jobs@[j].1).len() && (j < i + 1 || a < 0)
                    implies !#[trigger] conversion_fails(*config, jobs@[j].1, job_architectures(jobs@[j].1)[a], bh) by {
                    assert(j < i || (j == i && a < mm));
                }
            }
            i = i + 1;
        }
        Ok(())
    }
}

/// Whether `r` is the command `c` converted: its description, its parameters
/// converted, and each step converted in order.
pub open spec fn command_converted(r: CircleCICommand, c: Command) -> bool {
    &&& opt_str_view(r.description) == Some(c.description@)
    &&& match c.parameters {
        Some(p) => r.parameters matches Some(q) && params_converted(q@, p@),
        None => r.parameters is None,
    }
    &&& r.steps@.len() == c.steps@.len()
    &&& forall|j: int| 0 <= j < r.steps@.len() ==> (#[trigger] r.steps@[j]).raw@ == command_step_view(c.steps@[j])
        && opt_str_view(r.steps@[j].step_type) == spec_detect_step_type(r.steps@[j].raw@)
}

/// The commands section: each used template command that is available, and
/// each used user command converted (in place of a template of the same name).
pub open spec fn commands_ok(all: Seq<(String, CircleCICommand)>, jobs: Seq<(String, CircleCIJob)>,
    commands: Seq<(String, Command)>, templates: Seq<(String, CircleCICommand)>) -> bool {
    let m = pairs_map(all);
    &&& unique_keys(all)
    &&& forall|n: Seq<char>| #[trigger] m.dom().contains(n) <==> ((uses_template(jobs, n) && has_key(templates, n)) || uses_command(jobs, commands, n))
    &&& forall|n: Seq<char>| #[trigger] m.dom().contains(n) && uses_command(jobs, commands, n) ==> command_converted(m[n], lookup(commands, n)->0)
    &&& forall|n: Seq<char>| #[trigger] m.dom().contains(n) && !uses_command(jobs, commands, n) ==> m[n] == pairs_map(templates)[n]
}

/// Whether a list holds the built-in template commands, each once.
pub open spec fn builtin_templates(t: Seq<(String, CircleCICommand)>) -> bool {
    &&& unique_keys(t)
    &&& forall|n: Seq<char>| has_key(t, n) <==> spec_is_template_command(n)
}

/// The commands section of a configuration: the used commands, or none when
/// no command is used.
pub open spec fn commands_section_ok(section: Option<Vec<(String, CircleCICommand)>>, jobs: Seq<(String, CircleCIJob)>,
    commands: Seq<(String, Command)>, templates: Seq<(String, CircleCICommand)>) -> bool {
    match section {
        Some(all) => all@.len() > 0 && commands_ok(all@, jobs, commands, templates),
        None => commands_ok(Seq::empty(), jobs, commands, templates),
    }
}

/// Law: with the built-in template commands, the commands section defines
/// every template command that a step of the jobs uses, whether the step is
/// the command's bare name or a mapping keyed by it, so the configuration
/// names no undefined command.
pub proof fn law_used_template_commands_are_defined(all: Seq<(String, CircleCICommand)>, jobs: Seq<(String, CircleCIJob)>,
    commands: Seq<(String, Command)>, templates: Seq<(String, CircleCICommand)>, k: int, s: int, t: Seq<char>)
    requires
        commands_ok(all, jobs, commands, templates),
        0 <= k < jobs.len(),
        0 <= s < jobs[k].1.steps@.len(),
        steps_typed(jobs[k].1.steps@),
        builtin_templates(templates),
        spec_is_template_command(t),
        jobs[k].1.steps@[s].raw@ == YamlView::Str(t)
            || (jobs[k].1.steps@[s].raw@ matches YamlView::Mapping(e) && e.len() == 1 && e[0].0 == YamlView::Str(t)),
    ensures
        pairs_map(all).dom().contains(t),
{
    assert(opt_str_view(jobs[k].1.steps@[s].step_type) == spec_detect_step_type(jobs[k].1.steps@[s].raw@));
    assert(opt_str_view(jobs[k].1.steps@[s].step_type) == Some(t));
    assert(uses_template(jobs, t));
}

impl CircleCIGenerator {
    /// The commands section for the jobs of `config`: the used template
    /// commands among `templates`, and the used user commands converted.
    pub fn collect_commands(&self, config: &CircleCIConfig, commands: &Vec<(String, Command)>, templates: Vec<(String, CircleCICommand)>) -> (r: Vec<(String, CircleCICommand)>)
        requires
            unique_keys(templates@),
        ensures
            commands_ok(r@, config.jobs@, commands@, templates@),
    {
        let ghost orig = templates@;
        proof {
            lemma_pairs_map_unique(orig);
        }
        let used_templates = self.scan_for_template_commands(config);
        let used_commands = self.scan_for_user_commands(config, commands);
        let mut all: Vec<(String, CircleCICommand)> = Vec::new();
        let mut rest = templates;
        while rest.len() > 0
            invariant
                rest@ == orig.take(rest@.len() as int),
                rest@.len() <= orig.len(),
                unique_keys(orig),
                unique_keys(all@),
                forall|n: Seq<char>| #[trigger] strs_view(used_templates@).contains(n) <==> uses_template(config.jobs@, n),
                forall|n: Seq<char>| #[trigger] pairs_map(all@).dom().contains(n) <==> (uses_template(config.jobs@, n)
                    && exists|j: int| rest@.len() <= j < orig.len() && (#[trigger] orig[j]).0@ == n),
                forall|j: int| rest@.len() <= j < orig.len() && uses_template(config.jobs@, (#[trigger] orig[j]).0@)
                    ==> pairs_map(all@)[orig[j].0@] == orig[j].1,
            decreases rest@.len(),
        {
            let ghost len0 = rest@.len();
            let (name, cmd) = rest.pop().unwrap();
            assert(rest@ =~= orig.take(len0 - 1));
            assert(orig[len0 - 1] == (name, cmd));
            if contains_string(&used_templates, name.as_str()) {
                let ghost nv = name@;
                map_insert(&mut all, name, cmd);
                proof {
                    assert forall|j: int| rest@.len() <= j < orig.len() && uses_template(config.jobs@, (#[trigger] orig[j]).0@)
                        implies pairs_map(all@)[orig[j].0@] == orig[j].1 by {
                        if j != len0 - 1 {
                            assert(orig[j].0@ != orig[len0 - 1].0@);
                        }
                    }
                    assert forall|n: Seq<char>| #[trigger] pairs_map(all@).dom().contains(n) <==> (uses_template(config.jobs@, n)
                        && exists|j: int| rest@.len() <= j < orig.len() && (#[trigger] orig[j]).0@ == n) by {
                        if n == nv {
                            assert(orig[len0 - 1].0@ == n);
                        }
                        if exists|j: int| rest@.len() <= j < orig.len() && (#[trigger] orig[j]).0@ == n {
                            let j = choose|j: int| rest@.len() <= j < orig.len() && (#[trigger] orig[j]).0@ == n;
                            if j != len0 - 1 {
                                assert(exists|j2: int| len0 <= j2 < orig.len() && (#[trigger] orig[j2]).0@ == n);
                            }
                        }
                    }
                }
            } else {
                proof {
                    assert forall|n: Seq<char>| #[trigger] pairs_map(all@).dom().contains(n) <==> (uses_template(config.jobs@, n)
                        && exists|j: int| rest@.len() <= j < orig.len() && (#[trigger] orig[j]).0@ == n) by {
                        if uses_template(config.jobs@, n) && exists|j: int| rest@.len() <= j < orig.len() && (#[trigger] orig[j]).0@ == n {
                            let j = choose|j: int| rest@.len() <= j < orig.len() && (#[trigger] orig[j]).0@ == n;
                            if j == len0 - 1 {
                                assert(strs_view(used_templates@).contains(n));
                            } else {
                                assert(exists|j2: int| len0 <= j2 < orig.len() && (#[trigger] orig[j2]).0@ == n);
                            }
                        }
                    }
                }
            }
        }
        let ghost tmap = pairs_map(all@);
        proof {
            assert forall|n: Seq<char>| #[trigger] tmap.dom().contains(n) <==> (uses_template(config.jobs@, n) && has_key(orig, n)) by {
                if has_key(orig, n) {
                    let j = choose|j: int| 0 <= j < orig.len() && (#[trigger] orig[j]).0@ == n;
                    assert(0 <= j < orig.len());
                }
            }
            assert forall|n: Seq<char>| #[trigger] tmap.dom().contains(n) implies tmap[n] == pairs_map(orig)[n] by {
                let j = choose|j: int| 0 <= j < orig.len() && (#[trigger] orig[j]).0@ == n;
                assert(pairs_map(orig)[orig[j].0@] == orig[j].1);
            }
        }
        let n = used_commands.len();
        let mut i: usize = 0;
        while i < n
            invariant
                n == used_commands@.len(),
                i <= n,
                unique_keys(all@),
                forall|d: Seq<char>| #[trigger] strs_view(used_commands@).contains(d) <==> uses_command(config.jobs@, commands@, d),
                forall|m: Seq<char>| #[trigger] tmap.dom().contains(m) <==> (uses_template(config.jobs@, m) && has_key(orig, m)),
                forall|m: Seq<char>| #[trigger] tmap.dom().contains(m) ==> tmap[m] == pairs_map(orig)[m],
                forall|m: Seq<char>| #[trigger] pairs_map(all@).dom().contains(m) <==> (tmap.dom().contains(m) || strs_view(used_commands@).take(i as int).contains(m)),
                forall|m: Seq<char>| #[trigger] pairs_map(all@).dom().contains(m) && strs_view(used_commands@).take(i as int).contains(m)
                    ==> command_converted(pairs_map(all@)[m], lookup(commands@, m)->0),
                forall|m: Seq<char>| #[trigger] pairs_map(all@).dom().contains(m) && !strs_view(used_commands@).take(i as int).contains(m)
                    ==> pairs_map(all@)[m] == tmap[m],
            decreases n - i,
        {
            let name = used_commands[i].as_str();
            assert(strs_view(used_commands@)[i as int] == name@);
            assert(strs_view(used_commands@).take(i + 1) =~= strs_view(used_commands@).take(i as int).push(name@));
            match find_entry(commands, name) {
                Some(user_cmd) => {
                    let converted = self.convert_user_command(user_cmd);
                    assert(command_converted(converted, lookup(commands@, name@)->0));
                    map_insert(&mut all, to_owned_string(name), converted);
                    proof {
                        assert forall|m: Seq<char>| #[trigger] pairs_map(all@).dom().contains(m) <==> (tmap.dom().contains(m) || strs_view(used_commands@).take(i + 1).contains(m)) by {
                            super::docker_build::lemma_push_contains(strs_view(used_commands@).take(i as int), name@, m);
                        }
                        assert forall|m: Seq<char>| #[trigger] pairs_map(all@).dom().contains(m) && strs_view(used_commands@).take(i + 1).contains(m)
                            implies command_converted(pairs_map(all@)[m], lookup(commands@, m)->0) by {
                            super::docker_build::lemma_push_contains(strs_view(used_commands@).take(i as int), name@, m);
                        }
                        assert forall|m: Seq<char>| #[trigger] pairs_map(all@).dom().contains(m) && !strs_view(used_commands@).take(i + 1).contains(m)
                            implies pairs_map(all@)[m] == tmap[m] by {
                            super::docker_build::lemma_push_contains(strs_view(used_commands@).take(i as int), name@, m);
                        }
                    }
                },
                None => {
                    proof {
                        lemma_lookup(commands@, name@);
                        assert(strs_view(used_commands@).contains(name@));
                        assert(uses_command(config.jobs@, commands@, name@));
                        let r = choose|r: Seq<char>| #[trigger] super::command_scan::directly_used(config.jobs@, commands@, r)
                            && super::command_scan::cmd_reaches_in(commands@, r, name@, commands@.len() as nat);
                        let path = choose|path: Seq<Seq<char>>| 1 <= path.len() <= commands@.len() + 1 && path[0] == r && path.last() == name@
                            && #[trigger] super::command_scan::cmd_chain(commands@, path);
                        if path.len() > 1 {
                            let q = path.len() - 2;
                            assert(super::command_scan::refers(commands@, path[q], path[q + 1]));
                            assert(path[q + 1] == name@);
                        }
                        assert(has_key(commands@, name@));
                        let j = choose|j: int| 0 <= j < commands@.len() && (#[trigger] commands@[j]).0@ == name@;
                        assert(false);
                    }
                },
            }
            i = i + 1;
        }
        assert(strs_view(used_commands@).take(n as int) =~= strs_view(used_commands@));
        all
    }
}

/// Why a CircleCI configuration could not be built.
#[derive(Debug)]
pub enum BuildConfigError {
    /// Steps refer to commands that do not exist.
    StepValidation(String),
    /// Images must be built but the docker base hash is not known.
    BaseHashUnavailable,
    /// A job could not be converted.
    Convert(ConvertJobError),
}

/// The text of a configuration build error.
pub open spec fn build_config_error_message(e: BuildConfigError) -> Seq<char> {
    match e {
        BuildConfigError::StepValidation(m) => m@,
        BuildConfigError::BaseHashUnavailable => "Failed to compute docker base hash"@,
        BuildConfigError::Convert(ConvertJobError::Image(ie)) => docker_image_error_message(ie),
        BuildConfigError::Convert(ConvertJobError::HashStep(he)) => hash_step_error_message(he),
    }
}

impl BuildConfigError {
    /// The text of the error.
    pub fn message(&self) -> (r: String)
        ensures
            r@ == build_config_error_message(*self),
    {
        match self {
            BuildConfigError::StepValidation(m) => to_owned_string(m.as_str()),
            BuildConfigError::BaseHashUnavailable => to_owned_string("Failed to compute docker base hash"),
            BuildConfigError::Convert(ConvertJobError::Image(ie)) => ie.message(),
            BuildConfigError::Convert(ConvertJobError::HashStep(he)) => he.message(),
        }
    }
}

/// Whether docker building is enabled and some image of the jobs must be built.
pub open spec fn needs_docker_builds(config: Config, jobs: Seq<(String, Job)>) -> bool {
    &&& config.docker_build matches Some(db)
    &&& db.enabled
    &&& exists|y: Seq<char>| #[trigger] is_required(db.images@, jobs, y)
}

/// The jobs of a workflow ready for conversion: with the docker builds added
/// where images must be built, else as they are.
pub open spec fn jobs_prepared(prepared: Seq<(String, Job)>, jobs: Seq<(String, Job)>, config: Config, base_hash: Option<Seq<char>>) -> bool {
    if needs_docker_builds(config, jobs) {
        base_hash matches Some(h) && augmented(prepared, jobs, config, config.docker_build->0, h)
    } else {
        prepared == jobs
    }
}

/// Whether `cc` is the configuration assembled from the prepared jobs of one workflow.
pub open spec fn assembled_ok(cc: CircleCIConfig, config: Config, workflow_name: Seq<char>, prepared: Seq<(String, Job)>,
    commands: Seq<(String, Command)>, templates: Seq<(String, CircleCICommand)>, base_hash: Option<Seq<char>>) -> bool {
    &&& cc.version@ == "2.1"@
    &&& cc.workflows@.len() == 1 && cc.workflows@[0].0@ == workflow_name
    &&& cc.workflows@[0].1.when is None && cc.workflows@[0].1.unless is None
    &&& workflow_jobs_are(cc.workflows@[0].1.jobs@, workflow_entries(prepared, prepared.len() as int))
    &&& unique_keys(cc.jobs@)
    &&& variants_added(cc.jobs@, Seq::empty(), config, prepared, base_hash, prepared.len() as int, 0)
    &&& match config.services {
        Some(_) => cc.executors matches Some(e) && e@.len() == 0,
        None => cc.executors is None,
    }
    &&& cc.setup == (if config.setup == Some(true) || config.dynamic == Some(true) { Some(true) } else { None })
    &&& match config.parameters {
        Some(p) => cc.parameters matches Some(q) && params_converted(q@, p@),
        None => cc.parameters is None,
    }
    &&& match config.orbs {
        Some(o) => cc.orbs matches Some(q) && str_pairs_view(q@) == str_pairs_view(o@),
        None => cc.orbs is None,
    }
    &&& match cc.commands {
        Some(all) => all@.len() > 0 && commands_ok(all@, cc.jobs@, commands, templates),
        None => commands_ok(Seq::empty(), cc.jobs@, commands, templates),
    }
}

impl CircleCIGenerator {
    /// The executors made from the services: none are made yet.
    pub fn build_executors(&self, services: &Vec<(String, Service)>) -> (r: Vec<(String, CircleCIExecutor)>)
        ensures
            r@.len() == 0,
    {
        Vec::new()
    }

    /// Adds the docker builds to the jobs where images must be built; that
    /// needs the docker base hash.
    pub fn prepare_jobs(&self, config: &Config, jobs: Vec<(String, Job)>, base_hash: Option<&str>) -> (r: Result<Vec<(String, Job)>, BuildConfigError>)
        requires
            unique_keys(jobs@),
        ensures
            match r {
                Ok(prepared) => unique_keys(prepared@) && jobs_prepared(prepared@, jobs@, *config, opt_ref_view(base_hash)),
                Err(e) => e == BuildConfigError::BaseHashUnavailable && needs_docker_builds(*config, jobs@) && base_hash is None,
            },
    {
        let mut jobs = jobs;
        let ghost orig = jobs@;
        match &config.docker_build {
            Some(db) => {
                if db.enabled {
                    let req = required_images(&db.images, &jobs);
                    if req.len() > 0 {
                        proof {
                            assert(has_key(req@, req@[0].0@));
                            assert(is_required(db.images@, orig, req@[0].0@));
                        }
                        match base_hash {
                            Some(h) => {
                                self.augment_with_docker_build(config, &mut jobs, h);
                            },
                            None => {
                                return Err(BuildConfigError::BaseHashUnavailable);
                            },
                        }
                    } else {
                        proof {
                            if exists|y: Seq<char>| #[trigger] is_required(db.images@, orig, y) {
                                let y = choose|y: Seq<char>| #[trigger] is_required(db.images@, orig, y);
                                assert(has_key(req@, y));
                            }
                        }
                    }
                }
            },
            None => {},
        }
        Ok(jobs)
    }

    /// Assembles the configuration of one workflow from its prepared jobs.
    pub fn assemble_config(&self, config: &Config, workflow_name: &str, prepared: &Vec<(String, Job)>, commands: &Vec<(String, Command)>,
        templates: Vec<(String, CircleCICommand)>, base_hash: Option<&str>) -> (r: Result<CircleCIConfig, ConvertJobError>)
        requires
            unique_keys(templates@),
        ensures
            r is Ok <==> all_convert(*config, prepared@, opt_ref_view(base_hash)),
            match r {
                Ok(cc) => assembled_ok(cc, *config, workflow_name@, prepared@, commands@, templates@, opt_ref_view(base_hash)),
                Err(e) => exists|j: int, a: int| 0 <= j < prepared@.len() && !is_approval_type(prepared@[j].1) && 0 <= a < job_architectures(prepared@[j].1).len()
                    && #[trigger] conversion_error_ok(e, *config, prepared@[j].1, job_architectures(prepared@[j].1)[a], opt_ref_view(base_hash)),
            },
    {
        let mut cc = CircleCIConfig::new();
        let workflow = self.build_workflow(workflow_name, prepared);
        cc.workflows.push((to_owned_string(workflow_name), workflow));
        let mut jobs_out: Vec<(String, CircleCIJob)> = Vec::new();
        match self.convert_workflow_jobs(config, prepared, base_hash, &mut jobs_out) {
            Ok(()) => {},
            Err(e) => { return Err(e); },
        }
        cc.jobs = jobs_out;
        match &config.services {
            Some(services) => { cc.executors = Some(self.build_executors(services)); },
            None => {},
        }
        let setup = match config.setup { Some(b) => b, None => false } || match config.dynamic { Some(b) => b, None => false };
        if setup {
            cc.setup = Some(true);
        }
        match &config.parameters {
            Some(p) => { cc.parameters = Some(self.convert_parameters(p)); },
            None => {},
        }
        match &config.orbs {
            Some(o) => { cc.orbs = Some(copy_str_pairs(o)); },
            None => {},
        }
        let all = self.collect_commands(&cc, commands, templates);
        if all.len() > 0 {
            cc.commands = Some(all);
        } else {
            assert(all@ =~= Seq::<(String, CircleCICommand)>::empty());
        }
        Ok(cc)
    }

    /// Builds the configuration of one workflow: checks the step references,
    /// adds the docker builds, and assembles the workflow, the jobs converted for
    /// their architectures, the executors, the setup flag, the parameters, the
    /// orbs and the used commands, the built-in template commands among them.
    pub fn build_config(&self, config: &Config, workflow_name: &str, jobs: Vec<(String, Job)>, commands: &Vec<(String, Command)>, base_hash: Option<&str>) -> (r: Result<CircleCIConfig, BuildConfigError>)
        requires
            unique_keys(jobs@),
        ensures
            match r {
                Ok(cc) => all_step_errors(jobs@, commands@, "circleci"@).len() == 0
                    && exists|prepared: Seq<(String, Job)>, t: Seq<(String, CircleCICommand)>| builtin_templates(t)
                        && jobs_prepared(prepared, jobs@, *config, opt_ref_view(base_hash))
                        && all_convert(*config, prepared, opt_ref_view(base_hash))
                        && #[trigger] assembled_ok(cc, *config, workflow_name@, prepared, commands@, t, opt_ref_view(base_hash)),
                Err(BuildConfigError::StepValidation(m)) => all_step_errors(jobs@, commands@, "circleci"@).len() > 0
                    && m@ == "Step validation errors:\n"@ + join(all_step_errors(jobs@, commands@, "circleci"@), "\n"@),
                Err(BuildConfigError::BaseHashUnavailable) => all_step_errors(jobs@, commands@, "circleci"@).len() == 0
                    && needs_docker_builds(*config, jobs@) && base_hash is None,
                Err(BuildConfigError::Convert(e)) => all_step_errors(jobs@, commands@, "circleci"@).len() == 0
                    && exists|prepared: Seq<(String, Job)>| #[trigger] jobs_prepared(prepared, jobs@, *config, opt_ref_view(base_hash))
                        && !all_convert(*config, prepared, opt_ref_view(base_hash))
                        && exists|j: int, a: int| 0 <= j < prepared.len() && !is_approval_type(prepared[j].1) && 0 <= a < job_architectures(prepared[j].1).len()
                            && #[trigger] conversion_error_ok(e, *config, prepared[j].1, job_architectures(prepared[j].1)[a], opt_ref_view(base_hash)),
            },
    {
        let templates = template_commands();
        self.build_config_with(config, workflow_name, jobs, commands, templates, base_hash)
    }

    /// Builds the configuration of one workflow: checks the step references,
    /// adds the docker builds, and assembles the workflow, the jobs converted for
    /// their architectures, the executors, the setup flag, the parameters, the
    /// orbs and the used commands.
    fn build_config_with(&self, config: &Config, workflow_name: &str, jobs: Vec<(String, Job)>, commands: &Vec<(String, Command)>,
        templates: Vec<(String, CircleCICommand)>, base_hash: Option<&str>) -> (r: Result<CircleCIConfig, BuildConfigError>)
        requires
            unique_keys(jobs@),
            unique_keys(templates@),
        ensures
            match r {
                Ok(cc) => all_step_errors(jobs@, commands@, "circleci"@).len() == 0
                    && exists|prepared: Seq<(String, Job)>| jobs_prepared(prepared, jobs@, *config, opt_ref_view(base_hash))
                        && all_convert(*config, prepared, opt_ref_view(base_hash))
                        && #[trigger] assembled_ok(cc, *config, workflow_name@, prepared, commands@, templates@, opt_ref_view(base_hash)),
                Err(BuildConfigError::StepValidation(m)) => all_step_errors(jobs@, commands@, "circleci"@).len() > 0
                    && m@ == "Step validation errors:\n"@ + join(all_step_errors(jobs@, commands@, "circleci"@), "\n"@),
                Err(BuildConfigError::BaseHashUnavailable) => all_step_errors(jobs@, commands@, "circleci"@).len() == 0
                    && needs_docker_builds(*config, jobs@) && base_hash is None,
                Err(BuildConfigError::Convert(e)) => all_step_errors(jobs@, commands@, "circleci"@).len() == 0
                    && exists|prepared: Seq<(String, Job)>| #[trigger] jobs_prepared(prepared, jobs@, *config, opt_ref_view(base_hash))
                        && !all_convert(*config, prepared, opt_ref_view(base_hash))
                        && exists|j: int, a: int| 0 <= j < prepared.len() && !is_approval_type(prepared[j].1) && 0 <= a < job_architectures(prepared[j].1).len()
                            && #[trigger] conversion_error_ok(e, *config, prepared[j].1, job_architectures(prepared[j].1)[a], opt_ref_view(base_hash)),
            },
    {
        let validator = StepValidator::new();
        match validator.validate_step_references(&jobs, commands, "circleci") {
            Err(m) => { return Err(BuildConfigError::StepValidation(m)); },
            Ok(()) => {},
        }
        let ghost orig = jobs@;
        let prepared = match self.prepare_jobs(config, jobs, base_hash) {
            Ok(p) => p,
            Err(e) => { return Err(e); },
        };
        match self.assemble_config(config, workflow_name, &prepared, commands, templates, base_hash) {
            Ok(cc) => {
                assert(assembled_ok(cc, *config, workflow_name@, prepared@, commands@, templates@, opt_ref_view(base_hash)));
                Ok(cc)
            },
            Err(e) => {
                assert(jobs_prepared(prepared@, orig, *config, opt_ref_view(base_hash)));
                Err(BuildConfigError::Convert(e))
            },
        }
    }
}

/// Whether `k` names a variant of a job of one of the prepared workflows.
pub open spec fn is_variant_any(ps: Seq<Seq<(String, Job)>>, k: Seq<char>) -> bool {
    exists|w: int, j: int, a: int| 0 <= w < ps.len() && #[trigger] variant_of(ps[w], k, j, a)
}

/// The jobs of all prepared workflows converted: every variant name is there,
/// holding a conversion of a job variant of that name from one of the workflows.
pub open spec fn all_jobs_ok(out: Seq<(String, CircleCIJob)>, config: Config, ps: Seq<Seq<(String, Job)>>, base_hash: Option<Seq<char>>) -> bool {
    let m = pairs_map(out);
    &&& unique_keys(out)
    &&& forall|k: Seq<char>| #[trigger] m.dom().contains(k) <==> is_variant_any(ps, k)
    &&& forall|k: Seq<char>| #[trigger] m.dom().contains(k) ==> exists|w: int, j: int, a: int| 0 <= w < ps.len() && #[trigger] variant_of(ps[w], k, j, a)
        && converted_job_ok(m[k], config, ps[w][j].0@, ps[w][j].1, job_architectures(ps[w][j].1)[a], base_hash)
}

/// Whether the workflows of the configuration are the prepared workflows', each under its name.
pub open spec fn all_workflows_ok(out: Seq<(String, CircleCIWorkflow)>, names: Seq<Seq<char>>, ps: Seq<Seq<(String, Job)>>) -> bool {
    let m = pairs_map(out);
    &&& unique_keys(out)
    &&& forall|k: Seq<char>| #[trigger] m.dom().contains(k) <==> names.contains(k)
    &&& forall|w: int| 0 <= w < names.len() ==> #[trigger] m[names[w]].when is None && m[names[w]].unless is None
        && workflow_jobs_are(m[names[w]].jobs@, workflow_entries(ps[w], ps[w].len() as int))
}

/// The workflow names of a list of workflows.
pub open spec fn workflow_names(workflows: Seq<(String, Vec<(String, Job)>)>) -> Seq<Seq<char>> {
    workflows.map_values(|e: (String, Vec<(String, Job)>)| e.0@)
}

/// Whether every workflow has unique job names, and the workflow names are unique.
pub open spec fn workflows_ok(workflows: Seq<(String, Vec<(String, Job)>)>) -> bool {
    &&& unique_keys(workflows)
    &&& forall|w: int| 0 <= w < workflows.len() ==> unique_keys((#[trigger] workflows[w]).1@)
}

/// The step validation errors of the first workflow that has any.
pub open spec fn first_step_errors(workflows: Seq<(String, Vec<(String, Job)>)>, commands: Seq<(String, Command)>, w: int) -> bool {
    &&& 0 <= w < workflows.len()
    &&& all_step_errors(workflows[w].1@, commands, "circleci"@).len() > 0
    &&& forall|v: int| 0 <= v < w ==> all_step_errors((#[trigger] workflows[v]).1@, commands, "circleci"@).len() == 0
}

/// Whether no workflow has step validation errors.
pub open spec fn no_step_errors(workflows: Seq<(String, Vec<(String, Job)>)>, commands: Seq<(String, Command)>) -> bool {
    forall|v: int| 0 <= v < workflows.len() ==> all_step_errors((#[trigger] workflows[v]).1@, commands, "circleci"@).len() == 0
}

/// Whether the settings of the whole pipeline are as configured.
pub open spec fn pipeline_settings_ok(cc: CircleCIConfig, config: Config) -> bool {
    &&& cc.version@ == "2.1"@
    &&& match config.services {
        Some(_) => cc.executors matches Some(e) && e@.len() == 0,
        None => cc.executors is None,
    }
    &&& cc.setup == (if config.setup == Some(true) || config.dynamic == Some(true) { Some(true) } else { None })
    &&& match config.parameters {
        Some(p) => cc.parameters matches Some(q) && params_converted(q@, p@),
        None => cc.parameters is None,
    }
    &&& match config.orbs {
        Some(o) => cc.orbs matches Some(q) && str_pairs_view(q@) == str_pairs_view(o@),
        None => cc.orbs is None,
    }
}

impl CircleCIGenerator {
    /// Checks the step references of every workflow; the first workflow with
    /// problems gives the error.
    fn validate_all_steps(&self, workflows: &Vec<(String, Vec<(String, Job)>)>, commands: &Vec<(String, Command)>) -> (r: Result<(), String>)
        ensures
            match r {
                Ok(()) => no_step_errors(workflows@, commands@),
                Err(m) => exists|w: int| #[trigger] first_step_errors(workflows@, commands@, w)
                    && m@ == "Step validation errors:\n"@ + join(all_step_errors(workflows@[w].1@, commands@, "circleci"@), "\n"@),
            },
    {
        let validator = StepValidator::new();
        let n = workflows.len();
        let mut i: usize = 0;
        while i < n
            invariant
                n == workflows@.len(),
                i <= n,
                forall|v: int| 0 <= v < i ==> all_step_errors((#[trigger] workflows@[v]).1@, commands@, "circleci"@).len() == 0,
            decreases n - i,
        {
            match validator.validate_step_references(&workflows[i].1, commands, "circleci") {
                Err(m) => {
                    assert(first_step_errors(workflows@, commands@, i as int));
                    return Err(m);
                },
                Ok(()) => {},
            }
            i = i + 1;
        }
        Ok(())
    }

    /// Builds the configuration of all workflows (when the pipeline is not
    /// dynamic): checks the step references of every workflow, then for each
    /// workflow adds the docker builds, its workflow and its jobs converted for
    /// their architectures; then the executors, setup flag, parameters, orbs and
    /// the used commands, the built-in template commands among them.
    #[verifier::rlimit(50)]
    pub fn build_all_config(&self, config: &Config, workflows: Vec<(String, Vec<(String, Job)>)>, commands: &Vec<(String, Command)>, base_hash: Option<&str>) -> (r: Result<CircleCIConfig, BuildConfigError>)
        requires
            workflows_ok(workflows@),
        ensures
            match r {
                Ok(cc) => no_step_errors(workflows@, commands@)
                    && exists|ps: Seq<Seq<(String, Job)>>| ps.len() == workflows@.len()
                        && (forall|w: int| 0 <= w < ps.len() ==> jobs_prepared(#[trigger] ps[w], workflows@[w].1@, *config, opt_ref_view(base_hash))
                            && all_convert(*config, ps[w], opt_ref_view(base_hash)))
                        && #[trigger] all_jobs_ok(cc.jobs@, *config, ps, opt_ref_view(base_hash))
                        && all_workflows_ok(cc.workflows@, workflow_names(workflows@), ps)
                        && pipeline_settings_ok(cc, *config)
                        && exists|t: Seq<(String, CircleCICommand)>| builtin_templates(t) && #[trigger] commands_section_ok(cc.commands, cc.jobs@, commands@, t),
                Err(BuildConfigError::StepValidation(m)) => exists|w: int| #[trigger] first_step_errors(workflows@, commands@, w)
                    && m@ == "Step validation errors:\n"@ + join(all_step_errors(workflows@[w].1@, commands@, "circleci"@), "\n"@),
                Err(BuildConfigError::BaseHashUnavailable) => no_step_errors(workflows@, commands@)
                    && base_hash is None && exists|w: int| 0 <= w < workflows@.len() && #[trigger] needs_docker_builds(*config, workflows@[w].1@),
                Err(BuildConfigError::Convert(e)) => no_step_errors(workflows@, commands@)
                    && exists|w: int, prepared: Seq<(String, Job)>| 0 <= w < workflows@.len()
                        && #[trigger] jobs_prepared(prepared, workflows@[w].1@, *config, opt_ref_view(base_hash))
                        && exists|j: int, a: int| 0 <= j < prepared.len() && !is_approval_type(prepared[j].1) && 0 <= a < job_architectures(prepared[j].1).len()
                            && #[trigger] conversion_error_ok(e, *config, prepared[j].1, job_architectures(prepared[j].1)[a], opt_ref_view(base_hash)),
            },
    {
        let templates = template_commands();
        let r = self.build_all_config_with(config, workflows, commands, templates, base_hash);
        proof {
            if r is Ok {
                let cc = r->Ok_0;
                assert(commands_section_ok(cc.commands, cc.jobs@, commands@, templates@));
            }
        }
        r
    }

    /// Builds the configuration of all workflows (when the pipeline is not
    /// dynamic): checks the step references of every workflow, then for each
    /// workflow adds the docker builds, its workflow and its jobs converted for
    /// their architectures; then the executors, setup flag, parameters, orbs and
    /// the used commands.
    #[verifier::rlimit(50)]
    fn build_all_config_with(&self, config: &Config, workflows: Vec<(String, Vec<(String, Job)>)>, commands: &Vec<(String, Command)>,
        templates: Vec<(String, CircleCICommand)>, base_hash: Option<&str>) -> (r: Result<CircleCIConfig, BuildConfigError>)
        requires
            workflows_ok(workflows@),
            unique_keys(templates@),
        ensures
            match r {
                Ok(cc) => no_step_errors(workflows@, commands@)
                    && exists|ps: Seq<Seq<(String, Job)>>| ps.len() == workflows@.len()
                        && (forall|w: int| 0 <= w < ps.len() ==> jobs_prepared(#[trigger] ps[w], workflows@[w].1@, *config, opt_ref_view(base_hash))
                            && all_convert(*config, ps[w], opt_ref_view(base_hash)))
                        && #[trigger] all_jobs_ok(cc.jobs@, *config, ps, opt_ref_view(base_hash))
                        && all_workflows_ok(cc.workflows@, workflow_names(workflows@), ps)
                        && pipeline_settings_ok(cc, *config)
                        && match cc.commands {
                            Some(all) => all@.len() > 0 && commands_ok(all@, cc.jobs@, commands@, templates@),
                            None => commands_ok(Seq::empty(), cc.jobs@, commands@, templates@),
                        },
                Err(BuildConfigError::StepValidation(m)) => exists|w: int| #[trigger] first_step_errors(workflows@, commands@, w)
                    && m@ == "Step validation errors:\n"@ + join(all_step_errors(workflows@[w].1@, commands@, "circleci"@), "\n"@),
                Err(BuildConfigError::BaseHashUnavailable) => no_step_errors(workflows@, commands@)
                    && base_hash is None && exists|w: int| 0 <= w < workflows@.len() && #[trigger] needs_docker_builds(*config, workflows@[w].1@),
                Err(BuildConfigError::Convert(e)) => no_step_errors(workflows@, commands@)
                    && exists|w: int, prepared: Seq<(String, Job)>| 0 <= w < workflows@.len()
                        && #[trigger] jobs_prepared(prepared, workflows@[w].1@, *config, opt_ref_view(base_hash))
                        && exists|j: int, a: int| 0 <= j < prepared.len() && !is_approval_type(prepared[j].1) && 0 <= a < job_architectures(prepared[j].1).len()
                            && #[trigger] conversion_error_ok(e, *config, prepared[j].1, job_architectures(prepared[j].1)[a], opt_ref_view(base_hash)),
            },
    {
        match self.validate_all_steps(&workflows, commands) {
            Err(m) => { return Err(BuildConfigError::StepValidation(m)); },
            Ok(()) => {},
        }
        let ghost orig = workflows@;
        let ghost bh = opt_ref_view(base_hash);
        let mut cc = CircleCIConfig::new();
        let mut wfs: Vec<(String, CircleCIWorkflow)> = Vec::new();
        let mut jobs_out: Vec<(String, CircleCIJob)> = Vec::new();
        let ghost mut ps: Seq<Seq<(String, Job)>> = Seq::empty();
        let mut rest = workflows;
        let n = rest.len();
        let mut i: usize = 0;
        while i < n
            invariant
                n == orig.len(),
                i <= n,
                rest@ == orig.subrange(i as int, n as int),
                workflows_ok(orig),
                no_step_errors(orig, commands@),
                orig == workflows@,
                bh == opt_ref_view(base_hash),
                ps.len() == i,
                forall|w: int| 0 <= w < i ==> jobs_prepared(#[trigger] ps[w], orig[w].1@, *config, bh) && all_convert(*config, ps[w], bh),
                all_jobs_ok(jobs_out@, *config, ps, bh),
                all_workflows_ok(wfs@, workflow_names(orig).take(i as int), ps),
            decreases n - i,
        {
            let ghost before_rest = rest@;
            let (wf_name, jobs) = rest.remove(0);
            assert(rest@ =~= orig.subrange(i + 1, n as int));
            assert(before_rest[0] == orig[i as int]);
            assert(unique_keys(orig[i as int].1@));
            let ghost jobs_orig = jobs@;
            assert(jobs_orig == orig[i as int].1@);
            let prepared = match self.prepare_jobs(config, jobs, base_hash) {
                Ok(p) => p,
                Err(e) => {
                    assert(needs_docker_builds(*config, orig[i as int].1@));
                    assert(no_step_errors(orig, commands@));
                    assert(exists|w: int| 0 <= w < orig.len() && #[trigger] needs_docker_builds(*config, orig[w].1@));
                    return Err(e);
                },
            };
            let workflow = self.build_workflow(wf_name.as_str(), &prepared);
            let ghost before_jobs = jobs_out@;
            match self.convert_workflow_jobs(config, &prepared, base_hash, &mut jobs_out) {
                Ok(()) => {},
                Err(e) => {
                    assert(jobs_prepared(prepared@, orig[i as int].1@, *config, bh));
                    return Err(BuildConfigError::Convert(e));
                },
            }
            let ghost before_wfs = wfs@;
            let ghost name_v = wf_name@;
            map_insert(&mut wfs, wf_name, workflow);
            proof {
                let ps2 = ps.push(prepared@);
                let fm = pairs_map(jobs_out@);
                let bm = pairs_map(before_jobs);
                assert forall|k: Seq<char>| #[trigger] fm.dom().contains(k) <==> is_variant_any(ps2, k) by {
                    if bm.dom().contains(k) {
                        let (w, j, a) = choose|w: int, j: int, a: int| 0 <= w < ps.len() && #[trigger] variant_of(ps[w], k, j, a);
                        assert(ps2[w] == ps[w]);
                    }
                    if is_variant_any(ps2, k) {
                        let (w, j, a) = choose|w: int, j: int, a: int| 0 <= w < ps2.len() && #[trigger] variant_of(ps2[w], k, j, a);
                        if w < ps.len() {
                            assert(ps2[w] == ps[w]);
                            assert(is_variant_any(ps, k));
                        } else {
                            assert(variant_of(prepared@, k, j, a));
                        }
                    }
                    if exists|j: int, a: int| #[trigger] variant_of(prepared@, k, j, a) && (j < prepared@.len() || (j == prepared@.len() && a < 0)) {
                        let (j, a) = choose|j: int, a: int| #[trigger] variant_of(prepared@, k, j, a) && (j < prepared@.len() || (j == prepared@.len() && a < 0));
                        assert(variant_of(ps2[i as int], k, j, a));
                    }
                }
                assert forall|k: Seq<char>| #[trigger] fm.dom().contains(k) implies exists|w: int, j: int, a: int| 0 <= w < ps2.len() && #[trigger] variant_of(ps2[w], k, j, a)
                    && converted_job_ok(fm[k], *config, ps2[w][j].0@, ps2[w][j].1, job_architectures(ps2[w][j].1)[a], bh) by {
                    if bm.dom().contains(k) && fm[k] == bm[k] {
                        let (w, j, a) = choose|w: int, j: int, a: int| 0 <= w < ps.len() && #[trigger] variant_of(ps[w], k, j, a)
                            && converted_job_ok(bm[k], *config, ps[w][j].0@, ps[w][j].1, job_architectures(ps[w][j].1)[a], bh);
                        assert(ps2[w] == ps[w]);
                        assert(variant_of(ps2[w], k, j, a));
                    } else {
                        let (j, a) = choose|j: int, a: int| #[trigger] variant_of(prepared@, k, j, a) && (j < prepared@.len() || (j == prepared@.len() && a < 0))
                            && converted_job_ok(fm[k], *config, prepared@[j].0@, prepared@[j].1, job_architectures(prepared@[j].1)[a], bh);
                        assert(ps2[i as int] == prepared@);
                        assert(variant_of(ps2[i as int], k, j, a));
                    }
                }
                let names = workflow_names(orig);
                assert(names.take(i + 1) =~= names.take(i as int).push(name_v));
                assert(names[i as int] == name_v);
                let wm = pairs_map(wfs@);
                let wb = pairs_map(before_wfs);
                assert forall|k: Seq<char>| #[trigger] wm.dom().contains(k) <==> names.take(i + 1).contains(k) by {
                    super::docker_build::lemma_push_contains(names.take(i as int), name_v, k);
                }
                assert forall|w: int| 0 <= w < i + 1 implies #[trigger] wm[names.take(i + 1)[w]].when is None && wm[names.take(i + 1)[w]].unless is None
                    && workflow_jobs_are(wm[names.take(i + 1)[w]].jobs@, workflow_entries(ps2[w], ps2[w].len() as int)) by {
                    if w < i {
                        assert(names.take(i + 1)[w] == names.take(i as int)[w]);
                        assert(names[w] != names[i as int]) by {
                            assert(orig[w].0@ != orig[i as int].0@);
                        }
                        assert(ps2[w] == ps[w]);
                    } else {
                        assert(ps2[w] == prepared@);
                    }
                }
                ps = ps2;
            }
            i = i + 1;
        }
        cc.workflows = wfs;
        cc.jobs = jobs_out;
        match &config.services {
            Some(services) => { cc.executors = Some(self.build_executors(services)); },
            None => {},
        }
        let setup = match config.setup { Some(b) => b, None => false } || match config.dynamic { Some(b) => b, None => false };
        if setup {
            cc.setup = Some(true);
        }
        match &config.parameters {
            Some(p) => { cc.parameters = Some(self.convert_parameters(p)); },
            None => {},
        }
        match &config.orbs {
            Some(o) => { cc.orbs = Some(copy_str_pairs(o)); },
            None => {},
        }
        let all = self.collect_commands(&cc, commands, templates);
        if all.len() > 0 {
            cc.commands = Some(all);
        } else {
            assert(all@ =~= Seq::<(String, CircleCICommand)>::empty());
        }
        assert(workflow_names(orig).take(n as int) =~= workflow_names(orig));
        assert(all_jobs_ok(cc.jobs@, *config, ps, bh));
        assert(all_workflows_ok(cc.workflows@, workflow_names(workflows@), ps));
        assert(pipeline_settings_ok(cc, *config));
        assert(forall|w: int| 0 <= w < ps.len() ==> jobs_prepared(#[trigger] ps[w], workflows@[w].1@, *config, opt_ref_view(base_hash))
            && all_convert(*config, ps[w], opt_ref_view(base_hash)));
        Ok(cc)
    }
}

} // verus!
