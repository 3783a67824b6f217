//! The setup configurations of dynamic CircleCI pipelines: a setup workflow
//! whose job generates the continuation configuration and continues the pipeline.

use vstd::prelude::*;
use vstd::string::*;
use crate::models::{Config, Job, lookup, find_entry, unique_keys, pairs_map, map_insert, has_key};
use crate::strutil::{strs_view, opt_ref_view};
use super::convert::{spec_hash_step, hash_step_matches, build_hash_calculation_step, HashStepError, ConvertJobError, restore_cache_view, restore_cache_step,
    job_architectures, variant_name, converted_job_ok, conversion_error_ok};
use super::convert::{workflow_jobs_are, workflow_entries};
use super::assemble::{all_jobs_ok, is_variant_any, variant_of, all_convert, variants_added};
use super::docker_build::is_approval_type;
use super::generator::params_converted;
use crate::yaml::push_entry;
use crate::strutil::{to_owned_string, opt_str_view, str_pairs_view, copy_str_pairs};
use crate::yaml::{YamlValue, YamlView, ystr};
use super::config::{CircleCIConfig, CircleCIJob, CircleCIStep, CircleCIWorkflow, CircleCIWorkflowJob, CircleCIDockerImage, spec_detect_step_type};
use super::convert::{step_views, steps_typed, plain_image};
use super::generator::{CircleCIGenerator, run_step, run_step_view, vstr};

verus! {

broadcast use vstd::string::group_string_axioms;

/// The command that continues the pipeline with the generated configuration,
/// choosing it by the pipeline parameters.
pub open spec fn synthesized_continue_command() -> Seq<char> {
    "if [ -z \"${CIRCLE_CONTINUATION_KEY}\" ]; then\n  echo \"CIRCLE_CONTINUATION_KEY is required. Make sure setup workflows are enabled.\"\n  exit 1\nfi\n\nCONFIG_PATH=\".circleci/main.yml\"\n# Branch to specific continuation config based on pipeline parameters\nif [ \"${CIRCLE_PIPELINE_PARAMETERS_check_package_versions}\" = \"true\" ]; then\n  CONFIG_PATH=\".circleci/package_updates_config.yml\"\nelif [ \"${CIRCLE_PIPELINE_PARAMETERS_run_staging_postman_tests}\" = \"true\" ]; then\n  CONFIG_PATH=\".circleci/staging_postman_tests_config.yml\"\nfi\nif [ ! -f \"$CONFIG_PATH\" ]; then\n  echo \"Continuation config not found at $CONFIG_PATH\" >&2\n  exit 1\nfi\n\njq -n \\\n  --arg continuation \"$CIRCLE_CONTINUATION_KEY\" \\\n  --rawfile config \"$CONFIG_PATH\" \\\n  '{\"continuation-key\": $continuation, \"configuration\": $config}' \\\n  > /tmp/continuation.json\n\ncat /tmp/continuation.json\n\n[[ $(curl \\\n  -o /dev/stderr \\\n  -w '%{http_code}' \\\n  -XPOST \\\n  -H \"Content-Type: application/json\" \\\n  -H \"Accept: application/json\" \\\n  --data \"@/tmp/continuation.json\" \\\n  \"https://circleci.com/api/v2/pipeline/continue\") -eq 200 ]]"@
}

/// The steps of the synthesized setup job: checkout, generation of the
/// continuation configuration, and the continuation.
pub open spec fn synthesized_steps() -> Seq<YamlView> {
    seq![
        vstr("checkout"@),
        run_step_view("Generate continuation config"@, "cigen generate"@),
        run_step_view("Continue Pipeline"@, synthesized_continue_command()),
    ]
}

/// Whether `job` is a small setup job on `image` (with nothing else set) with these steps.
pub open spec fn setup_job_ok(job: CircleCIJob, image: Seq<char>, steps: Seq<YamlView>) -> bool {
    &&& job.executor is None
    &&& job.docker matches Some(d) && d@.len() == 1 && d@[0].image@ == image && plain_image(d@[0]) && d@[0].auth is None
    &&& job.machine is None && job.working_directory is None && job.parallelism is None
    &&& job.environment is None && job.parameters is None
    &&& opt_str_view(job.resource_class) == Some("small"@)
    &&& steps_typed(job.steps@)
    &&& step_views(job.steps@) == steps
}

/// Whether `w` is the setup workflow: only the job `generate_config`, unconditionally.
pub open spec fn setup_workflow_ok(w: CircleCIWorkflow) -> bool {
    &&& w.when is None && w.unless is None
    &&& w.jobs@.len() == 1
    &&& w.jobs@[0] matches CircleCIWorkflowJob::Simple(n) && n@ == "generate_config"@
}

/// Appends a step holding `raw`.
pub fn push_raw_step(steps: &mut Vec<CircleCIStep>, raw: YamlValue)
    requires
        steps_typed(old(steps)@),
    ensures
        steps_typed(final(steps)@),
        step_views(final(steps)@) == step_views(old(steps)@).push(raw@),
{
    let ghost before = steps@;
    let ghost rv = raw@;
    steps.push(CircleCIStep::new(raw));
    assert(step_views(steps@) =~= step_views(before).push(rv));
}

/// A small setup job on `image` with the given steps.
fn setup_job(image: &str, steps: Vec<CircleCIStep>) -> (r: CircleCIJob)
    requires
        steps_typed(steps@),
    ensures
        setup_job_ok(r, image@, step_views(steps@)),
{
    let img = CircleCIDockerImage {
        image: to_owned_string(image),
        auth: None,
        name: None,
        entrypoint: None,
        command: None,
        user: None,
        environment: None,
    };
    let mut docker: Vec<CircleCIDockerImage> = Vec::new();
    docker.push(img);
    CircleCIJob {
        executor: None,
        docker: Some(docker),
        machine: None,
        resource_class: Some(to_owned_string("small")),
        working_directory: None,
        parallelism: None,
        environment: None,
        parameters: None,
        steps,
    }
}

/// The setup workflow.
fn setup_workflow() -> (r: CircleCIWorkflow)
    ensures
        setup_workflow_ok(r),
{
    let mut jobs: Vec<CircleCIWorkflowJob> = Vec::new();
    jobs.push(CircleCIWorkflowJob::Simple(to_owned_string("generate_config")));
    CircleCIWorkflow { when: None, unless: None, jobs }
}

impl CircleCIGenerator {
    /// The configuration of a synthesized setup pipeline: a setup workflow whose
    /// job generates the continuation configuration and continues the pipeline;
    /// with the configured orbs.
    pub fn build_synthesized_setup_config(&self, config: &Config) -> (cc: CircleCIConfig)
        ensures
            cc.version@ == "2.1"@,
            cc.setup == Some(true),
            match config.orbs {
                Some(o) => cc.orbs matches Some(q) && str_pairs_view(q@) == str_pairs_view(o@),
                None => cc.orbs is None,
            },
            cc.executors is None && cc.commands is None && cc.parameters is None,
            cc.workflows@.len() == 1 && cc.workflows@[0].0@ == "setup"@ && setup_workflow_ok(cc.workflows@[0].1),
            cc.jobs@.len() == 1 && cc.jobs@[0].0@ == "generate_config"@,
            setup_job_ok(cc.jobs@[0].1, "cimg/ruby:3.3.5"@, synthesized_steps()),
    {
        let mut cc = CircleCIConfig::new();
        cc.setup = Some(true);
        match &config.orbs {
            Some(o) => { cc.orbs = Some(copy_str_pairs(o)); },
            None => {},
        }
        cc.workflows.push((to_owned_string("setup"), setup_workflow()));
        let mut steps: Vec<CircleCIStep> = Vec::new();
        assert(step_views(steps@) =~= Seq::<YamlView>::empty());
        push_raw_step(&mut steps, ystr("checkout"));
        push_raw_step(&mut steps, run_step("Generate continuation config", "cigen generate"));
        push_raw_step(&mut steps, run_step("Continue Pipeline", "if [ -z \"${CIRCLE_CONTINUATION_KEY}\" ]; then\n  echo \"CIRCLE_CONTINUATION_KEY is required. Make sure setup workflows are enabled.\"\n  exit 1\nfi\n\nCONFIG_PATH=\".circleci/main.yml\"\n# Branch to specific continuation config based on pipeline parameters\nif [ \"${CIRCLE_PIPELINE_PARAMETERS_check_package_versions}\" = \"true\" ]; then\n  CONFIG_PATH=\".circleci/package_updates_config.yml\"\nelif [ \"${CIRCLE_PIPELINE_PARAMETERS_run_staging_postman_tests}\" = \"true\" ]; then\n  CONFIG_PATH=\".circleci/staging_postman_tests_config.yml\"\nfi\nif [ ! -f \"$CONFIG_PATH\" ]; then\n  echo \"Continuation config not found at $CONFIG_PATH\" >&2\n  exit 1\nfi\n\njq -n \\\n  --arg continuation \"$CIRCLE_CONTINUATION_KEY\" \\\n  --rawfile config \"$CONFIG_PATH\" \\\n  '{\"continuation-key\": $continuation, \"configuration\": $config}' \\\n  > /tmp/continuation.json\n\ncat /tmp/continuation.json\n\n[[ $(curl \\\n  -o /dev/stderr \\\n  -w '%{http_code}' \\\n  -XPOST \\\n  -H \"Content-Type: application/json\" \\\n  -H \"Accept: application/json\" \\\n  --data \"@/tmp/continuation.json\" \\\n  \"https://circleci.com/api/v2/pipeline/continue\") -eq 200 ]]"));
        assert(step_views(steps@) =~= synthesized_steps());
        cc.jobs.push((to_owned_string("generate_config"), setup_job("cimg/ruby:3.3.5", steps)));
        cc
    }
}

/// The condition of a workflow that runs when a pipeline parameter is true.
pub open spec fn param_condition(param: Seq<char>) -> YamlView {
    YamlView::Mapping(seq![(vstr("equal"@), YamlView::Sequence(seq![vstr("true"@), vstr("<< pipeline.parameters."@ + param + " >>"@)]))])
}

/// The command that installs cigen when it is missing.
pub open spec fn install_command() -> Seq<char> {
    "if ! command -v cigen >/dev/null 2>&1; then\n  echo \"Installing cigen...\"\n  curl -fsSL https://docspring.github.io/cigen/install.sh | bash\nfi"@
}

/// The self-check script: it fails on drift, and commits the regenerated
/// entrypoint first when asked to.
pub open spec fn self_check_command(commit: bool) -> Seq<char> {
    if commit { "mkdir -p .circleci_check\ncigen generate -o .circleci_check\nif ! diff -q .circleci/config.yml .circleci_check/config.yml >/dev/null 2>&1; then\n  echo \"config.yml drift detected. Committing and failing...\"\n  git config user.email \"ci@docspring.com\"\n  git config user.name \"docspring-ci\"\n  cp .circleci_check/config.yml .circleci/config.yml\n  git add .circleci/config.yml\n  git commit -m \"ci: update .circleci/config.yml from cigen\"\n  git push || true\n  exit 1\nfi"@ } else { "mkdir -p .circleci_check\ncigen generate -o .circleci_check\nif ! diff -q .circleci/config.yml .circleci_check/config.yml >/dev/null 2>&1; then\n  echo \"config.yml drift detected. Please update .circleci/config.yml via cigen and push.\" >&2\n  exit 1\nfi"@ }
}

/// The self-check step, when it is enabled.
pub open spec fn self_check_views(config: Config) -> Seq<YamlView> {
    match config.setup_options {
        Some(o) => match o.self_check {
            Some(sc) => if sc.enabled {
                seq![run_step_view("Self-check entrypoint"@, self_check_command(sc.commit_on_diff == Some(true)))]
            } else {
                Seq::empty()
            },
            None => Seq::empty(),
        },
        None => Seq::empty(),
    }
}

/// The command that continues the pipeline with the generated main configuration.
pub open spec fn continue_main_command() -> Seq<char> {
    "\nif [ -z \"${CIRCLE_CONTINUATION_KEY}\" ]; then\n  echo \"CIRCLE_CONTINUATION_KEY is required. Make sure setup workflows are enabled.\"\n  exit 1\nfi\n\nCONFIG_PATH=\".circleci/main.yml\"\nif [ ! -f \"$CONFIG_PATH\" ]; then\n  echo \"Continuation config not found at $CONFIG_PATH\" >&2\n  exit 1\nfi\n\njq -n \\\n  --arg continuation \"$CIRCLE_CONTINUATION_KEY\" \\\n  --rawfile config \"$CONFIG_PATH\" \\\n  '{\"continuation-key\": $continuation, \"configuration\": $config}' \\\n  > /tmp/continuation.json\n\ncat /tmp/continuation.json\n\n[[ $(curl \\\n  -o /dev/stderr \\\n  -w '%{http_code}' \\\n  -XPOST \\\n  -H \"Content-Type: application/json\" \\\n  -H \"Accept: application/json\" \\\n  --data \"@/tmp/continuation.json\" \\\n  \"https://circleci.com/api/v2/pipeline/continue\") -eq 200 ]]\n"@
}

/// The steps that decide whether a job variant can be skipped: its variables,
/// its hash, its key, the restore of its exists-marker and the probe.
pub open spec fn variant_probe_views(v: Seq<char>, arch: Seq<char>, hash: YamlView) -> Seq<YamlView> {
    seq![
        run_step_view("Set variant env: "@ + v, "export DOCKER_ARCH=\""@ + arch + "\"\nexport JOB_NAME=\""@ + v + "\""@),
        hash,
        run_step_view("Prepare job key (exists): "@ + v, "mkdir -p /tmp/setup_keys/"@ + v
            + " && echo \"${JOB_NAME}-${DOCKER_ARCH}-${JOB_HASH}\" > /tmp/setup_keys/"@ + v + "/job-key"@),
        restore_cache_view(seq!["job_status-exists-v1-{{ checksum \"/tmp/setup_keys/"@ + v + "/job-key\" }}"@, "job_status-exists-v1-"@]),
        run_step_view("Probe exists: "@ + v, "if [ -f '/tmp/cigen_job_exists/done_${JOB_HASH}' ]; then echo '"@ + v
            + "' >> /tmp/skip/main.txt; fi\nrm -rf /tmp/cigen_job_exists"@),
    ]
}

/// The probe steps for the first `n` architectures of a job.
pub open spec fn arch_probe_views(name: Seq<char>, archs: Seq<Seq<char>>, hash: YamlView, n: int) -> Seq<YamlView>
    decreases n,
{
    if n <= 0 || n > archs.len() {
        Seq::empty()
    } else {
        arch_probe_views(name, archs, hash, n - 1) + variant_probe_views(variant_name(name, archs, archs[n - 1]), archs[n - 1], hash)
    }
}

/// The probe steps of a main job: none without source files; for each
/// architecture otherwise (none when its hash step cannot be built).
pub open spec fn job_probe_views(config: Config, name: Seq<char>, job: Job) -> Option<Seq<YamlView>> {
    match job.source_files {
        None => Some(Seq::empty()),
        Some(sf) => match spec_hash_step(config, strs_view(sf@)) {
            Ok(h) => Some(arch_probe_views(name, job_architectures(job), h, job_architectures(job).len() as int)),
            Err(_) => None,
        },
    }
}

/// The probe steps of the first `n` main jobs (none when a hash step cannot be built).
pub open spec fn probe_views_upto(config: Config, main: Seq<(String, Job)>, n: int) -> Option<Seq<YamlView>>
    decreases n,
{
    if n <= 0 || n > main.len() {
        Some(Seq::empty())
    } else {
        match (probe_views_upto(config, main, n - 1), job_probe_views(config, main[n - 1].0@, main[n - 1].1)) {
            (Some(a), Some(b)) => Some(a + b),
            _ => None,
        }
    }
}

/// The steps of the setup job of a dynamic pipeline, given the probe steps of
/// the main workflow (when there is one).
pub open spec fn dynamic_setup_steps(config: Config, probes: Option<Seq<YamlView>>) -> Seq<YamlView> {
    seq![vstr("checkout"@), run_step_view("Install cigen"@, install_command())]
        + self_check_views(config)
        + seq![run_step_view("Generate main workflow"@, "cigen generate --workflow main"@)]
        + match probes {
            Some(p) => seq![run_step_view("Prepare skip list"@, "rm -rf /tmp/skip && mkdir -p /tmp/skip /tmp/setup_keys"@)] + p,
            None => Seq::empty(),
        }
        + seq![
            run_step_view("Generate filtered main"@, "if [ -f /tmp/skip/main.txt ]; then CIGEN_SKIP_JOBS_FILE=/tmp/skip/main.txt cigen generate --workflow main; else echo 'No skip list'; fi"@),
            run_step_view("Continue Pipeline"@, continue_main_command()),
        ]
}

/// The image of the setup job: the configured one, else `cimg/base:current`.
pub open spec fn setup_image(config: Config) -> Seq<char> {
    match config.setup_options {
        Some(o) => match o.runtime_image {
            Some(i) => i@,
            None => "cimg/base:current"@,
        },
        None => "cimg/base:current"@,
    }
}

/// Law: the setup job runs on the configured runtime image, and on
/// `cimg/base:current` only when none is configured.
pub proof fn law_setup_job_runs_on_runtime_image(config: Config, job: CircleCIJob, steps: Seq<YamlView>)
    requires
        setup_job_ok(job, setup_image(config), steps),
    ensures
        job.docker matches Some(d) && d@.len() == 1,
        config.setup_options matches Some(o) ==> (o.runtime_image matches Some(i) ==> job.docker->0@[0].image@ == i@),
        !(config.setup_options matches Some(o) && o.runtime_image is Some) ==> job.docker->0@[0].image@ == "cimg/base:current"@,
{
}

/// The index of the first main job whose hash step cannot be built.
pub open spec fn first_probe_failure(config: Config, main: Seq<(String, Job)>, j: int) -> bool {
    &&& 0 <= j < main.len()
    &&& job_probe_views(config, main[j].0@, main[j].1) is None
    &&& probe_views_upto(config, main, j) is Some
}

/// Whether the workflow named `wf_name`, if there is one, converts.
pub open spec fn conditional_ok(config: Config, workflows: Seq<(String, Vec<(String, Job)>)>, wf_name: Seq<char>, base_hash: Option<Seq<char>>) -> bool {
    match lookup(workflows, wf_name) {
        Some(jobs) => all_convert(config, jobs@, base_hash),
        None => true,
    }
}

/// The workflow named `wf_name` among the generated ones, when `workflows`
/// has one: it runs only when the pipeline parameter `param` is true, and its
/// jobs are the workflow's jobs.
pub open spec fn conditional_workflow_ok(wfs: Map<Seq<char>, CircleCIWorkflow>, workflows: Seq<(String, Vec<(String, Job)>)>,
    wf_name: Seq<char>, param: Seq<char>) -> bool {
    lookup(workflows, wf_name) matches Some(jobs) ==> {
        &&& wfs.dom().contains(wf_name)
        &&& wfs[wf_name].when matches Some(w) && w@ == param_condition(param)
        &&& wfs[wf_name].unless is None
        &&& workflow_jobs_are(wfs[wf_name].jobs@, workflow_entries(jobs@, jobs@.len() as int))
    }
}

/// Whether `e` is what converting a job of the workflow named `wf_name` gives.
pub open spec fn conditional_error(e: ConvertJobError, config: Config, workflows: Seq<(String, Vec<(String, Job)>)>, wf_name: Seq<char>, base_hash: Option<Seq<char>>) -> bool {
    lookup(workflows, wf_name) matches Some(jobs) && exists|j: int, a: int| 0 <= j < jobs@.len() && !is_approval_type(jobs@[j].1)
        && 0 <= a < job_architectures(jobs@[j].1).len()
        && #[trigger] conversion_error_ok(e, config, jobs@[j].1, job_architectures(jobs@[j].1)[a], base_hash)
}

/// The job lists of the conditional workflows that exist, in order.
pub open spec fn conditional_jobs(workflows: Seq<(String, Vec<(String, Job)>)>) -> Seq<Seq<(String, Job)>> {
    (match lookup(workflows, "package_updates"@) { Some(j) => seq![j@], None => Seq::empty() })
        + (match lookup(workflows, "staging_postman_tests"@) { Some(j) => seq![j@], None => Seq::empty() })
}

/// Whether the probe steps of the main workflow, if there is one, can be built.
pub open spec fn probes_ok(config: Config, workflows: Seq<(String, Vec<(String, Job)>)>) -> bool {
    match lookup(workflows, "main"@) {
        Some(m) => probe_views_upto(config, m@, m@.len() as int) is Some,
        None => true,
    }
}

/// Once a main job's probe steps cannot be built, no longer prefix's can.
proof fn lemma_probe_failure(config: Config, main: Seq<(String, Job)>, j: int, n: int)
    requires
        first_probe_failure(config, main, j),
        j < n <= main.len(),
    ensures
        probe_views_upto(config, main, n) is None,
    decreases n,
{
    if n > j + 1 {
        lemma_probe_failure(config, main, j, n - 1);
    }
}

/// Adding the jobs of one more workflow to the converted jobs of earlier ones.
proof fn lemma_jobs_step(out: Seq<(String, CircleCIJob)>, before: Seq<(String, CircleCIJob)>, config: Config,
    ps: Seq<Seq<(String, Job)>>, jobs: Seq<(String, Job)>, base_hash: Option<Seq<char>>)
    requires
        all_jobs_ok(before, config, ps, base_hash),
        unique_keys(out),
        variants_added(out, before, config, jobs, base_hash, jobs.len() as int, 0),
    ensures
        all_jobs_ok(out, config, ps.push(jobs), base_hash),
{
    let ps2 = ps.push(jobs);
    let fm = pairs_map(out);
    let bm = pairs_map(before);
    let i = ps.len() as int;
    assert forall|k: Seq<char>| #[trigger] fm.dom().contains(k) <==> is_variant_any(ps2, k) by {
        if bm.dom().contains(k) {
            let (w, j, a) = choose|w: int, j: int, a: int| 0 <= w < ps.len() && #[trigger] variant_of(ps[w], k, j, a);
            assert(ps2[w] == ps[w]);
        }
        if is_variant_any(ps2, k) {
            let (w, j, a) = choose|w: int, j: int, a: int| 0 <= w < ps2.len() && #[trigger] variant_of(ps2[w], k, j, a);
            if w < ps.len() {
                assert(ps2[w] == ps[w]);
                assert(is_variant_any(ps, k));
            } else {
                assert(variant_of(jobs, k, j, a));
            }
        }
        if exists|j: int, a: int| #[trigger] variant_of(jobs, k, j, a) && (j < jobs.len() || (j == jobs.len() && a < 0)) {
            let (j, a) = choose|j: int, a: int| #[trigger] variant_of(jobs, k, j, a) && (j < jobs.len() || (j == jobs.len() && a < 0));
            assert(variant_of(ps2[i], k, j, a));
        }
    }
    assert forall|k: Seq<char>| #[trigger] fm.dom().contains(k) implies exists|w: int, j: int, a: int| 0 <= w < ps2.len() && #[trigger] variant_of(ps2[w], k, j, a)
        && converted_job_ok(fm[k], config, ps2[w][j].0@, ps2[w][j].1, job_architectures(ps2[w][j].1)[a], base_hash) by {
        if bm.dom().contains(k) && fm[k] == bm[k] {
            let (w, j, a) = choose|w: int, j: int, a: int| 0 <= w < ps.len() && #[trigger] variant_of(ps[w], k, j, a)
                && converted_job_ok(bm[k], config, ps[w][j].0@, ps[w][j].1, job_architectures(ps[w][j].1)[a], base_hash);
            assert(ps2[w] == ps[w]);
            assert(variant_of(ps2[w], k, j, a));
        } else {
            let (j, a) = choose|j: int, a: int| #[trigger] variant_of(jobs, k, j, a) && (j < jobs.len() || (j == jobs.len() && a < 0))
                && converted_job_ok(fm[k], config, jobs[j].0@, jobs[j].1, job_architectures(jobs[j].1)[a], base_hash);
            assert(ps2[i] == jobs);
            assert(variant_of(ps2[i], k, j, a));
        }
    }
}

/// Appends the probe steps of one job variant.
fn push_variant_probe(steps: &mut Vec<CircleCIStep>, v: &str, arch: &str, hash: &YamlValue)
    requires
        steps_typed(old(steps)@),
    ensures
        steps_typed(final(steps)@),
        step_views(final(steps)@) == step_views(old(steps)@) + variant_probe_views(v@, arch@, hash@),
{
    let ghost start = step_views(steps@);
    let mut env = to_owned_string("export DOCKER_ARCH=\"");
    env.append(arch);
    env.append("\"\nexport JOB_NAME=\"");
    env.append(v);
    env.append("\"");
    let mut env_name = to_owned_string("Set variant env: ");
    env_name.append(v);
    push_raw_step(steps, run_step(env_name.as_str(), env.as_str()));
    push_raw_step(steps, hash.deep_copy());
    let mut key_cmd = to_owned_string("mkdir -p /tmp/setup_keys/");
    key_cmd.append(v);
    key_cmd.append(" && echo \"${JOB_NAME}-${DOCKER_ARCH}-${JOB_HASH}\" > /tmp/setup_keys/");
    key_cmd.append(v);
    key_cmd.append("/job-key");
    let mut key_name = to_owned_string("Prepare job key (exists): ");
    key_name.append(v);
    push_raw_step(steps, run_step(key_name.as_str(), key_cmd.as_str()));
    let mut first_key = to_owned_string("job_status-exists-v1-{{ checksum \"/tmp/setup_keys/");
    first_key.append(v);
    first_key.append("/job-key\" }}");
    let mut keys: Vec<String> = Vec::new();
    keys.push(first_key);
    keys.push(to_owned_string("job_status-exists-v1-"));
    assert(strs_view(keys@) =~= seq!["job_status-exists-v1-{{ checksum \"/tmp/setup_keys/"@ + v@ + "/job-key\" }}"@, "job_status-exists-v1-"@]);
    push_raw_step(steps, restore_cache_step(&keys));
    let mut probe = to_owned_string("if [ -f '/tmp/cigen_job_exists/done_${JOB_HASH}' ]; then echo '");
    probe.append(v);
    probe.append("' >> /tmp/skip/main.txt; fi\nrm -rf /tmp/cigen_job_exists");
    let mut probe_name = to_owned_string("Probe exists: ");
    probe_name.append(v);
    push_raw_step(steps, run_step(probe_name.as_str(), probe.as_str()));
    assert(step_views(steps@) =~= start + variant_probe_views(v@, arch@, hash@));
}

/// Appends the probe steps of the main jobs; fails with the first hash step
/// that cannot be built.
fn push_main_probes(config: &Config, main: &Vec<(String, Job)>, steps: &mut Vec<CircleCIStep>) -> (r: Result<(), HashStepError>)
    requires
        steps_typed(old(steps)@),
    ensures
        steps_typed(final(steps)@),
        match r {
            Ok(()) => probe_views_upto(*config, main@, main@.len() as int) matches Some(p) && step_views(final(steps)@) == step_views(old(steps)@) + p,
            Err(e) => exists|j: int| #[trigger] first_probe_failure(*config, main@, j)
                && hash_step_matches(Err(e), *config, strs_view(main@[j].1.source_files->0@)),
        },
{
    let ghost start = step_views(steps@);
    let n = main.len();
    let mut i: usize = 0;
    while i < n
        invariant
            n == main@.len(),
            i <= n,
            steps_typed(steps@),
            probe_views_upto(*config, main@, i as int) matches Some(p) && step_views(steps@) == start + p,
        decreases n - i,
    {
        let name = main[i].0.as_str();
        let job = &main[i].1;
        let ghost before = step_views(steps@);
        let ghost prev = probe_views_upto(*config, main@, i as int)->0;
        match &job.source_files {
            None => {
                assert(step_views(steps@) =~= start + (prev + Seq::<YamlView>::empty()));
            },
            Some(sf) => {
                let hash = match build_hash_calculation_step(config, sf) {
                    Ok(h) => h,
                    Err(e) => {
                        assert(first_probe_failure(*config, main@, i as int));
                        return Err(e);
                    },
                };
                let archs = match &job.architectures {
                    Some(a) => crate::strutil::copy_strings(a),
                    None => {
                        let mut v: Vec<String> = Vec::new();
                        v.push(to_owned_string("amd64"));
                        assert(strs_view(v@) =~= seq!["amd64"@]);
                        v
                    },
                };
                assert(strs_view(archs@) == job_architectures(main@[i as int].1));
                let m = archs.len();
                let mut t: usize = 0;
                while t < m
                    invariant
                        m == archs@.len(),
                        t <= m,
                        steps_typed(steps@),
                        step_views(steps@) == before + arch_probe_views(name@, strs_view(archs@), hash@, t as int),
                    decreases m - t,
                {
                    let arch = archs[t].as_str();
                    let variant = if archs.len() > 1 {
                        let mut v = to_owned_string(name);
                        v.append("_");
                        v.append(arch);
                        v
                    } else {
                        to_owned_string(name)
                    };
                    assert(strs_view(archs@)[t as int] == arch@);
                    assert(variant@ == variant_name(name@, strs_view(archs@), arch@));
                    push_variant_probe(steps, variant.as_str(), arch, &hash);
                    t = t + 1;
                }
            },
        }
        i = i + 1;
    }
    Ok(())
}

impl CircleCIGenerator {
    /// Adds a workflow of `workflows`, when there is one named `wf_name`: it
    /// runs only when the pipeline parameter `param` is true, and its jobs are
    /// converted for their architectures.
    fn add_conditional_workflow(&self, config: &Config, workflows: &Vec<(String, Vec<(String, Job)>)>, wf_name: &str, param: &str,
        base_hash: Option<&str>, wfs: &mut Vec<(String, CircleCIWorkflow)>, jobs_out: &mut Vec<(String, CircleCIJob)>) -> (r: Result<(), ConvertJobError>)
        requires
            unique_keys(old(wfs)@),
            unique_keys(old(jobs_out)@),
        ensures
            unique_keys(final(wfs)@),
            unique_keys(final(jobs_out)@),
            match lookup(workflows@, wf_name@) {
                None => r is Ok && final(wfs)@ == old(wfs)@ && final(jobs_out)@ == old(jobs_out)@,
                Some(jobs) => match r {
                    Ok(()) => {
                        &&& all_convert(*config, jobs@, crate::strutil::opt_ref_view(base_hash))
                        &&& variants_added(final(jobs_out)@, old(jobs_out)@, *config, jobs@, crate::strutil::opt_ref_view(base_hash), jobs@.len() as int, 0)
                        &&& pairs_map(final(wfs)@) == pairs_map(old(wfs)@).insert(wf_name@, pairs_map(final(wfs)@)[wf_name@])
                        &&& pairs_map(final(wfs)@)[wf_name@].when matches Some(w) && w@ == param_condition(param@)
                        &&& pairs_map(final(wfs)@)[wf_name@].unless is None
                        &&& workflow_jobs_are(pairs_map(final(wfs)@)[wf_name@].jobs@, workflow_entries(jobs@, jobs@.len() as int))
                    },
                    Err(e) => !all_convert(*config, jobs@, crate::strutil::opt_ref_view(base_hash)) && exists|j: int, a: int| 0 <= j < jobs@.len() && !is_approval_type(jobs@[j].1) && 0 <= a < job_architectures(jobs@[j].1).len()
                        && #[trigger] conversion_error_ok(e, *config, jobs@[j].1, job_architectures(jobs@[j].1)[a], crate::strutil::opt_ref_view(base_hash)),
                },
            },
    {
        match find_entry(workflows, wf_name) {
            None => Ok(()),
            Some(jobs) => {
                match self.convert_workflow_jobs(config, jobs, base_hash, jobs_out) {
                    Ok(()) => {},
                    Err(e) => {
                        assert(lookup(workflows@, wf_name@) == Some(*jobs));
                        let ghost lj = lookup(workflows@, wf_name@)->0;
                        assert(lj == *jobs);
                        assert(exists|j: int, a: int| 0 <= j < lj@.len() && !is_approval_type(lj@[j].1) && 0 <= a < job_architectures(lj@[j].1).len()
                            && #[trigger] conversion_error_ok(e, *config, lj@[j].1, job_architectures(lj@[j].1)[a], crate::strutil::opt_ref_view(base_hash)));
                        assert(exists|j: int, a: int| 0 <= j < jobs@.len() && !is_approval_type(jobs@[j].1) && 0 <= a < job_architectures(jobs@[j].1).len()
                            && #[trigger] conversion_error_ok(e, *config, jobs@[j].1, job_architectures(jobs@[j].1)[a], crate::strutil::opt_ref_view(base_hash)));
                        return Err(e);
                    },
                }
                let mut wf = self.build_workflow(wf_name, jobs);
                let mut items: Vec<YamlValue> = Vec::new();
                items.push(ystr("true"));
                let mut p = to_owned_string("<< pipeline.parameters.");
                p.append(param);
                p.append(" >>");
                items.push(ystr(p.as_str()));
                let seqv = YamlValue::Sequence(items);
                proof {
                    crate::yaml::lemma_views_of(items@);
                    assert(crate::yaml::views_of(items@) =~= seq![vstr("true"@), vstr("<< pipeline.parameters."@ + param@ + " >>"@)]);
                    assert(seqv@ == YamlView::Sequence(seq![vstr("true"@), vstr("<< pipeline.parameters."@ + param@ + " >>"@)]));
                }
                let mut cond: Vec<(YamlValue, YamlValue)> = Vec::new();
                push_entry(&mut cond, ystr("equal"), seqv);
                let when = YamlValue::Mapping(cond);
                assert(when@ =~= param_condition(param@));
                wf.when = Some(when);
                let ghost wv = wf;
                map_insert(wfs, to_owned_string(wf_name), wf);
                Ok(())
            },
        }
    }

    /// The steps of the setup job of a dynamic pipeline; fails with the first
    /// main job whose hash step cannot be built.
    fn dynamic_setup_job_steps(&self, config: &Config, workflows: &Vec<(String, Vec<(String, Job)>)>) -> (r: Result<Vec<CircleCIStep>, HashStepError>)
        ensures
            r is Ok <==> probes_ok(*config, workflows@),
            match r {
                Ok(steps) => steps_typed(steps@) && step_views(steps@) == dynamic_setup_steps(*config, match lookup(workflows@, "main"@) {
                    Some(m) => probe_views_upto(*config, m@, m@.len() as int),
                    None => None,
                }),
                Err(e) => lookup(workflows@, "main"@) matches Some(m) && exists|j: int| #[trigger] first_probe_failure(*config, m@, j)
                    && hash_step_matches(Err(e), *config, strs_view(m@[j].1.source_files->0@)),
            },
    {
        let mut steps: Vec<CircleCIStep> = Vec::new();
        assert(step_views(steps@) =~= Seq::<YamlView>::empty());
        push_raw_step(&mut steps, ystr("checkout"));
        push_raw_step(&mut steps, run_step("Install cigen", "if ! command -v cigen >/dev/null 2>&1; then\n  echo \"Installing cigen...\"\n  curl -fsSL https://docspring.github.io/cigen/install.sh | bash\nfi"));
        let ghost s1 = step_views(steps@);
        match &config.setup_options {
            Some(o) => match &o.self_check {
                Some(sc) => {
                    if sc.enabled {
                        let commit = match sc.commit_on_diff { Some(b) => b, None => false };
                        if commit {
                            push_raw_step(&mut steps, run_step("Self-check entrypoint", "mkdir -p .circleci_check\ncigen generate -o .circleci_check\nif ! diff -q .circleci/config.yml .circleci_check/config.yml >/dev/null 2>&1; then\n  echo \"config.yml drift detected. Committing and failing...\"\n  git config user.email \"ci@docspring.com\"\n  git config user.name \"docspring-ci\"\n  cp .circleci_check/config.yml .circleci/config.yml\n  git add .circleci/config.yml\n  git commit -m \"ci: update .circleci/config.yml from cigen\"\n  git push || true\n  exit 1\nfi"));
                        } else {
                            push_raw_step(&mut steps, run_step("Self-check entrypoint", "mkdir -p .circleci_check\ncigen generate -o .circleci_check\nif ! diff -q .circleci/config.yml .circleci_check/config.yml >/dev/null 2>&1; then\n  echo \"config.yml drift detected. Please update .circleci/config.yml via cigen and push.\" >&2\n  exit 1\nfi"));
                        }
                    }
                },
                None => {},
            },
            None => {},
        }
        assert(step_views(steps@) =~= s1 + self_check_views(*config));
        push_raw_step(&mut steps, run_step("Generate main workflow", "cigen generate --workflow main"));
        let ghost s2 = step_views(steps@);
        match find_entry(workflows, "main") {
            Some(main_jobs) => {
                push_raw_step(&mut steps, run_step("Prepare skip list", "rm -rf /tmp/skip && mkdir -p /tmp/skip /tmp/setup_keys"));
                match push_main_probes(config, main_jobs, &mut steps) {
                    Ok(()) => {},
                    Err(e) => {
                        proof {
                            let j = choose|j: int| #[trigger] first_probe_failure(*config, main_jobs@, j)
                                && hash_step_matches(Err(e), *config, strs_view(main_jobs@[j].1.source_files->0@));
                            lemma_probe_failure(*config, main_jobs@, j, main_jobs@.len() as int);
                        }
                        return Err(e);
                    },
                }
            },
            None => {
                assert(step_views(steps@) =~= s2 + Seq::<YamlView>::empty());
            },
        }
        let ghost s3 = step_views(steps@);
        push_raw_step(&mut steps, run_step("Generate filtered main", "if [ -f /tmp/skip/main.txt ]; then CIGEN_SKIP_JOBS_FILE=/tmp/skip/main.txt cigen generate --workflow main; else echo 'No skip list'; fi"));
        push_raw_step(&mut steps, run_step("Continue Pipeline", "\nif [ -z \"${CIRCLE_CONTINUATION_KEY}\" ]; then\n  echo \"CIRCLE_CONTINUATION_KEY is required. Make sure setup workflows are enabled.\"\n  exit 1\nfi\n\nCONFIG_PATH=\".circleci/main.yml\"\nif [ ! -f \"$CONFIG_PATH\" ]; then\n  echo \"Continuation config not found at $CONFIG_PATH\" >&2\n  exit 1\nfi\n\njq -n \\\n  --arg continuation \"$CIRCLE_CONTINUATION_KEY\" \\\n  --rawfile config \"$CONFIG_PATH\" \\\n  '{\"continuation-key\": $continuation, \"configuration\": $config}' \\\n  > /tmp/continuation.json\n\ncat /tmp/continuation.json\n\n[[ $(curl \\\n  -o /dev/stderr \\\n  -w '%{http_code}' \\\n  -XPOST \\\n  -H \"Content-Type: application/json\" \\\n  -H \"Accept: application/json\" \\\n  --data \"@/tmp/continuation.json\" \\\n  \"https://circleci.com/api/v2/pipeline/continue\") -eq 200 ]]\n"));
        assert(step_views(steps@) =~= dynamic_setup_steps(*config, match lookup(workflows@, "main"@) {
            Some(m) => probe_views_upto(*config, m@, m@.len() as int),
            None => None,
        }));
        Ok(steps)
    }

    /// The workflows of a dynamic pipeline that run on a pipeline parameter,
    /// with their jobs converted.
    fn conditional_workflows(&self, config: &Config, workflows: &Vec<(String, Vec<(String, Job)>)>, base_hash: Option<&str>)
        -> (r: Result<(Vec<(String, CircleCIWorkflow)>, Vec<(String, CircleCIJob)>), ConvertJobError>)
        ensures
            r is Ok <==> (conditional_ok(*config, workflows@, "package_updates"@, crate::strutil::opt_ref_view(base_hash))
                && conditional_ok(*config, workflows@, "staging_postman_tests"@, crate::strutil::opt_ref_view(base_hash))),
            r matches Err(e) ==> conditional_error(e, *config, workflows@, "package_updates"@, crate::strutil::opt_ref_view(base_hash))
                || conditional_error(e, *config, workflows@, "staging_postman_tests"@, crate::strutil::opt_ref_view(base_hash)),
            r matches Ok((wfs, jobs_out)) ==> unique_keys(wfs@) && unique_keys(jobs_out@)
                && all_jobs_ok(jobs_out@, *config, conditional_jobs(workflows@), crate::strutil::opt_ref_view(base_hash))
                && (forall|k: Seq<char>| #[trigger] pairs_map(wfs@).dom().contains(k) <==>
                    ((k == "package_updates"@ || k == "staging_postman_tests"@) && has_key(workflows@, k)))
                && conditional_workflow_ok(pairs_map(wfs@), workflows@, "package_updates"@, "check_package_versions"@)
                && conditional_workflow_ok(pairs_map(wfs@), workflows@, "staging_postman_tests"@, "run_staging_postman_tests"@),
    {
        let mut wfs: Vec<(String, CircleCIWorkflow)> = Vec::new();
        let mut jobs_out: Vec<(String, CircleCIJob)> = Vec::new();
        let ghost bh = crate::strutil::opt_ref_view(base_hash);
        proof {
            crate::models::lemma_lookup(workflows@, "package_updates"@);
            crate::models::lemma_lookup(workflows@, "staging_postman_tests"@);
            assert(all_jobs_ok(jobs_out@, *config, Seq::empty(), bh)) by {
                assert forall|k: Seq<char>| #[trigger] pairs_map(jobs_out@).dom().contains(k) <==> is_variant_any(Seq::<Seq<(String, Job)>>::empty(), k) by {}
            }
        }
        let ghost j0 = jobs_out@;
        match self.add_conditional_workflow(config, workflows, "package_updates", "check_package_versions", base_hash, &mut wfs, &mut jobs_out) {
            Ok(()) => {},
            Err(e) => { return Err(e); },
        }
        let ghost ps1: Seq<Seq<(String, Job)>> = match lookup(workflows@, "package_updates"@) { Some(j) => seq![j@], None => Seq::empty() };
        proof {
            match lookup(workflows@, "package_updates"@) {
                Some(j) => {
                    lemma_jobs_step(jobs_out@, j0, *config, Seq::empty(), j@, bh);
                    assert(Seq::<Seq<(String, Job)>>::empty().push(j@) =~= ps1);
                },
                None => {},
            }
        }
        let ghost w1 = wfs@;
        let ghost j1 = jobs_out@;
        assert(conditional_workflow_ok(pairs_map(w1), workflows@, "package_updates"@, "check_package_versions"@));
        match self.add_conditional_workflow(config, workflows, "staging_postman_tests", "run_staging_postman_tests", base_hash, &mut wfs, &mut jobs_out) {
            Ok(()) => {},
            Err(e) => { return Err(e); },
        }
        proof {
            match lookup(workflows@, "staging_postman_tests"@) {
                Some(j) => {
                    lemma_jobs_step(jobs_out@, j1, *config, ps1, j@, bh);
                    assert(ps1.push(j@) =~= conditional_jobs(workflows@));
                },
                None => {
                    assert(ps1 =~= conditional_jobs(workflows@));
                },
            }
        }
        proof {
            reveal_strlit("package_updates");
            reveal_strlit("staging_postman_tests");
            assert("package_updates"@.len() != "staging_postman_tests"@.len());
            assert(conditional_workflow_ok(pairs_map(wfs@), workflows@, "package_updates"@, "check_package_versions"@));
            assert forall|k: Seq<char>| #[trigger] pairs_map(wfs@).dom().contains(k) <==>
                ((k == "package_updates"@ || k == "staging_postman_tests"@) && has_key(workflows@, k)) by {
                if has_key(workflows@, k) && (k == "package_updates"@ || k == "staging_postman_tests"@) {
                    let i = choose|i: int| 0 <= i < workflows@.len() && (#[trigger] workflows@[i]).0@ == k;
                    assert(lookup(workflows@, k) is Some);
                }
            }
        }
        Ok((wfs, jobs_out))
    }

    /// The combined configuration of a dynamic pipeline: the package update and
    /// staging test workflows (each when its pipeline parameter is true), and a
    /// setup workflow whose job installs cigen, optionally checks the entrypoint,
    /// generates the main configuration, probes which main jobs can be skipped
    /// and continues the pipeline. Fails with the first job that cannot be
    /// converted, then with the first main job whose hash step cannot be built.
    pub fn build_dynamic_combined_config(&self, config: &Config, workflows: &Vec<(String, Vec<(String, Job)>)>, base_hash: Option<&str>) -> (r: Result<CircleCIConfig, ConvertJobError>)
        ensures
            r is Ok <==> (conditional_ok(*config, workflows@, "package_updates"@, opt_ref_view(base_hash))
                && conditional_ok(*config, workflows@, "staging_postman_tests"@, opt_ref_view(base_hash))
                && probes_ok(*config, workflows@)),
            match r {
                Ok(cc) => {
                    &&& cc.version@ == "2.1"@
                    &&& cc.setup == Some(true)
                    &&& cc.executors is None && cc.commands is None
                    &&& match config.parameters {
                        Some(p) => cc.parameters matches Some(q) && params_converted(q@, p@),
                        None => cc.parameters is None,
                    }
                    &&& match config.orbs {
                        Some(o) => cc.orbs matches Some(q) && str_pairs_view(q@) == str_pairs_view(o@),
                        None => cc.orbs is None,
                    }
                    &&& unique_keys(cc.workflows@)
                    &&& pairs_map(cc.workflows@).dom().contains("setup"@)
                    &&& setup_workflow_ok(pairs_map(cc.workflows@)["setup"@])
                    &&& forall|k: Seq<char>| #[trigger] pairs_map(cc.workflows@).dom().contains(k) <==> (k == "setup"@
                        || ((k == "package_updates"@ || k == "staging_postman_tests"@) && has_key(workflows@, k)))
                    &&& conditional_workflow_ok(pairs_map(cc.workflows@), workflows@, "package_updates"@, "check_package_versions"@)
                    &&& conditional_workflow_ok(pairs_map(cc.workflows@), workflows@, "staging_postman_tests"@, "run_staging_postman_tests"@)
                    &&& unique_keys(cc.jobs@)
                    &&& pairs_map(cc.jobs@).dom().contains("generate_config"@)
                    &&& forall|k: Seq<char>| k != "generate_config"@ ==> (#[trigger] pairs_map(cc.jobs@).dom().contains(k) <==> is_variant_any(conditional_jobs(workflows@), k))
                    &&& forall|k: Seq<char>| k != "generate_config"@ && #[trigger] pairs_map(cc.jobs@).dom().contains(k) ==> exists|w: int, j: int, a: int|
                        0 <= w < conditional_jobs(workflows@).len() && #[trigger] variant_of(conditional_jobs(workflows@)[w], k, j, a)
                        && converted_job_ok(pairs_map(cc.jobs@)[k], *config, conditional_jobs(workflows@)[w][j].0@, conditional_jobs(workflows@)[w][j].1,
                            job_architectures(conditional_jobs(workflows@)[w][j].1)[a], opt_ref_view(base_hash))
                    &&& setup_job_ok(pairs_map(cc.jobs@)["generate_config"@], setup_image(*config),
                        dynamic_setup_steps(*config, match lookup(workflows@, "main"@) {
                            Some(m) => probe_views_upto(*config, m@, m@.len() as int),
                            None => None,
                        }))
                },
                Err(e) => conditional_error(e, *config, workflows@, "package_updates"@, opt_ref_view(base_hash))
                    || conditional_error(e, *config, workflows@, "staging_postman_tests"@, opt_ref_view(base_hash))
                    || (e matches ConvertJobError::HashStep(he) && lookup(workflows@, "main"@) matches Some(m)
                        && exists|j: int| #[trigger] first_probe_failure(*config, m@, j)
                            && hash_step_matches(Err(he), *config, strs_view(m@[j].1.source_files->0@))),
            },
    {
        let mut cc = CircleCIConfig::new();
        cc.setup = Some(true);
        match &config.parameters {
            Some(p) => { cc.parameters = Some(self.convert_parameters(p)); },
            None => {},
        }
        match &config.orbs {
            Some(o) => { cc.orbs = Some(copy_str_pairs(o)); },
            None => {},
        }
        let (mut wfs, mut jobs_out) = match self.conditional_workflows(config, workflows, base_hash) {
            Ok(x) => x,
            Err(e) => { return Err(e); },
        };
        let ghost before_wfs = wfs@;
        map_insert(&mut wfs, to_owned_string("setup"), setup_workflow());
        proof {
            reveal_strlit("setup");
            reveal_strlit("package_updates");
            reveal_strlit("staging_postman_tests");
            assert("setup"@.len() != "package_updates"@.len() && "setup"@.len() != "staging_postman_tests"@.len());
            assert(conditional_workflow_ok(pairs_map(before_wfs), workflows@, "package_updates"@, "check_package_versions"@));
            assert(conditional_workflow_ok(pairs_map(before_wfs), workflows@, "staging_postman_tests"@, "run_staging_postman_tests"@));
            if lookup(workflows@, "package_updates"@) is Some {
                assert(pairs_map(wfs@)["package_updates"@] == pairs_map(before_wfs)["package_updates"@]);
            }
            if lookup(workflows@, "staging_postman_tests"@) is Some {
                assert(pairs_map(wfs@)["staging_postman_tests"@] == pairs_map(before_wfs)["staging_postman_tests"@]);
            }
            assert(conditional_workflow_ok(pairs_map(wfs@), workflows@, "package_updates"@, "check_package_versions"@));
            assert(conditional_workflow_ok(pairs_map(wfs@), workflows@, "staging_postman_tests"@, "run_staging_postman_tests"@));
            assert forall|k: Seq<char>| #[trigger] pairs_map(wfs@).dom().contains(k) <==> (k == "setup"@
                || ((k == "package_updates"@ || k == "staging_postman_tests"@) && has_key(workflows@, k))) by {
                assert(pairs_map(before_wfs).dom().contains(k) <==> ((k == "package_updates"@ || k == "staging_postman_tests"@) && has_key(workflows@, k)));
            }
        }
        let image = match &config.setup_options {
            Some(o) => match &o.runtime_image {
                Some(i) => i.as_str(),
                None => "cimg/base:current",
            },
            None => "cimg/base:current",
        };
        let steps = match self.dynamic_setup_job_steps(config, workflows) {
            Ok(s) => s,
            Err(e) => { return Err(ConvertJobError::HashStep(e)); },
        };
        map_insert(&mut jobs_out, to_owned_string("generate_config"), setup_job(image, steps));
        cc.workflows = wfs;
        cc.jobs = jobs_out;
        Ok(cc)
    }
}

/// Whether the configuration generates a dynamic CircleCI pipeline: a combined
/// setup configuration, with the `main` workflow written on its own.
pub fn is_dynamic_pipeline(config: &Config) -> (r: bool)
    ensures
        r == (config.provider@ == "circleci"@ && config.dynamic == Some(true)),
{
    crate::strutil::str_eq(config.provider.as_str(), "circleci") && match config.dynamic { Some(d) => d, None => false }
}

/// The position of the first workflow named `main`, if any.
pub fn main_workflow_index(workflows: &Vec<(String, Vec<(String, Job)>)>) -> (r: Option<usize>)
    ensures
        match r {
            Some(i) => i < workflows@.len() && workflows@[i as int].0@ == "main"@
                && forall|j: int| 0 <= j < i ==> (#[trigger] workflows@[j]).0@ != "main"@,
            None => forall|j: int| 0 <= j < workflows@.len() ==> (#[trigger] workflows@[j]).0@ != "main"@,
        },
{
    let n = workflows.len();
    let mut i: usize = 0;
    while i < n
        invariant
            n == workflows@.len(),
            i <= n,
            forall|j: int| 0 <= j < i ==> (#[trigger] workflows@[j]).0@ != "main"@,
        decreases n - i,
    {
        if crate::strutil::str_eq(workflows[i].0.as_str(), "main") {
            return Some(i);
        }
        i = i + 1;
    }
    None
}

} // verus!
