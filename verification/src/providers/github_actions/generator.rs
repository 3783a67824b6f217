//! Decisions of the GitHub Actions generator: triggers, runners, matrix, and
//! the conversion of steps.

use vstd::prelude::*;
use vstd::string::*;
use crate::models::{Config, Job, CheckoutSetting, WorkflowConfig, has_key};
use crate::strutil::{to_owned_string, starts_with, is_prefix, opt_str_view, strs_view, str_eq, str_pairs_view, copy_strings, copy_str_pairs};
use crate::yaml::{YamlValue, YamlView, spec_get, spec_as_str, lemma_entry_views_of, lemma_views_of, entry_views_of, views_of, yaml_view};
use super::cache::{CacheGenerator, cache_steps_ok, declared_restores};
use super::job_skip::{is_bash_step, hash_script, skip_check_script, completion_script};
use super::job_skip::{JobSkipGenerator, SourceFilesError, expand_entries, groups_of, source_files_error_view};
use crate::models::{unique_keys, pairs_map, lemma_pairs_map_unique};
use super::schema::{Step, Strategy, TriggerConfig, WorkflowTrigger, RunsOn, Permissions, Environment, Concurrency, Workflow};
use super::schema::Job as GHJob;

verus! {

broadcast use vstd::string::group_string_axioms;

/// The GitHub Actions generator.
pub struct GitHubActionsGenerator {
    cache_generator: CacheGenerator,
    job_skip_generator: JobSkipGenerator,
}

/// The trigger filters `branches: [main]`.
pub open spec fn is_main_trigger(t: TriggerConfig) -> bool {
    &&& t.branches matches Some(b) && strs_view(b@) == seq!["main"@]
    &&& t.tags is None && t.paths is None && t.types is None
}

/// The default triggers: pushes and pull requests to `main`.
pub open spec fn is_default_triggers(t: WorkflowTrigger) -> bool {
    &&& t matches WorkflowTrigger::Detailed(events)
    &&& events@.len() == 2
    &&& events@[0].0@ == "push"@ && is_main_trigger(events@[0].1)
    &&& events@[1].0@ == "pull_request"@ && is_main_trigger(events@[1].1)
}

/// The runner of a job: `ubuntu-latest` for ubuntu and rust images,
/// `macos-latest` for macos images, else the image itself.
pub open spec fn spec_runs_on(image: Seq<char>) -> Seq<char> {
    if is_prefix("ubuntu"@, image) || is_prefix("rust"@, image) {
        "ubuntu-latest"@
    } else if is_prefix("macos"@, image) {
        "macos-latest"@
    } else {
        image
    }
}

/// A matrix over the architectures when a job has more than one, else none.
pub open spec fn matrix_ok(r: Option<Strategy>, job: Job) -> bool {
    match job.architectures {
        Some(a) if a@.len() > 1 => {
            &&& r matches Some(s)
            &&& s.fail_fast is None && s.max_parallel is None
            &&& s.matrix@.len() == 1
            &&& s.matrix@[0].0@ == "arch"@
            &&& views_of(s.matrix@[0].1@) == strs_view(a@).map_values(|x: Seq<char>| YamlView::Str(x))
        },
        _ => r is None,
    }
}

/// Whether a key can be the key of a JSON object (strings, booleans, integers and
/// finite numbers can).
pub open spec fn json_key_ok(k: YamlView) -> bool {
    match k {
        YamlView::Str(_) | YamlView::Bool(_) | YamlView::Int(_) => true,
        YamlView::Real(t) => t != "inf"@ && t != "-inf"@ && t != "NaN"@,
        _ => false,
    }
}

/// Whether a value converts to JSON: every mapping key, at any depth, can be a JSON key.
pub open spec fn json_ok(v: YamlView) -> bool
    decreases v,
{
    match v {
        YamlView::Sequence(s) => {
            proof { assert(decreases_to!(v => s)); }
            items_json_ok(s)
        },
        YamlView::Mapping(e) => {
            proof { assert(decreases_to!(v => e)); }
            entries_json_ok(e)
        },
        _ => true,
    }
}

/// Every item converts to JSON.
pub open spec fn items_json_ok(s: Seq<YamlView>) -> bool
    decreases s,
{
    if s.len() == 0 {
        true
    } else {
        proof {
            assert(decreases_to!(s => s[0]));
            assert(decreases_to!(s => s.subrange(1, s.len() as int)));
        }
        json_ok(s[0]) && items_json_ok(s.subrange(1, s.len() as int))
    }
}

/// Every entry has a JSON key and a value that converts to JSON.
pub open spec fn entries_json_ok(e: Seq<(YamlView, YamlView)>) -> bool
    decreases e,
{
    if e.len() == 0 {
        true
    } else {
        proof {
            assert(decreases_to!(e => e[0]));
            assert(decreases_to!(e[0] => e[0].1));
            assert(decreases_to!(e => e.subrange(1, e.len() as int)));
        }
        json_key_ok(e[0].0) && json_ok(e[0].1) && entries_json_ok(e.subrange(1, e.len() as int))
    }
}

/// `items_json_ok` holds when every item converts.
pub proof fn lemma_items_json_ok(s: Seq<YamlView>)
    ensures
        items_json_ok(s) <==> forall|i: int| 0 <= i < s.len() ==> json_ok(#[trigger] s[i]),
    decreases s.len(),
{
    if s.len() > 0 {
        let rest = s.subrange(1, s.len() as int);
        lemma_items_json_ok(rest);
        assert forall|i: int| 1 <= i < s.len() implies s[i] == rest[i - 1] by {}
        if (forall|i: int| 0 <= i < s.len() ==> json_ok(#[trigger] s[i])) {
            assert forall|i: int| 0 <= i < rest.len() implies json_ok(#[trigger] rest[i]) by {
                assert(rest[i] == s[i + 1]);
            }
        }
        if items_json_ok(s) {
            assert forall|i: int| 0 <= i < s.len() implies json_ok(#[trigger] s[i]) by {
                if i > 0 { assert(rest[i - 1] == s[i]); }
            }
        }
    }
}

/// `entries_json_ok` holds when every entry is fine.
pub proof fn lemma_entries_json_ok(e: Seq<(YamlView, YamlView)>)
    ensures
        entries_json_ok(e) <==> forall|i: int| 0 <= i < e.len() ==> json_key_ok((#[trigger] e[i]).0) && json_ok(e[i].1),
    decreases e.len(),
{
    if e.len() > 0 {
        let rest = e.subrange(1, e.len() as int);
        lemma_entries_json_ok(rest);
        if (forall|i: int| 0 <= i < e.len() ==> json_key_ok((#[trigger] e[i]).0) && json_ok(e[i].1)) {
            assert forall|i: int| 0 <= i < rest.len() implies json_key_ok((#[trigger] rest[i]).0) && json_ok(rest[i].1) by {
                assert(rest[i] == e[i + 1]);
            }
        }
        if entries_json_ok(e) {
            assert forall|i: int| 0 <= i < e.len() implies json_key_ok((#[trigger] e[i]).0) && json_ok(e[i].1) by {
                if i > 0 { assert(rest[i - 1] == e[i]); }
            }
        }
    }
}

/// Whether a value converts to JSON.
pub fn is_json_convertible(v: &YamlValue) -> (r: bool)
    ensures
        r == json_ok(v@),
    decreases *v,
{
    match v {
        YamlValue::Sequence(items) => {
            proof { lemma_views_of(items@); }
            let n = items.len();
            let mut i: usize = 0;
            while i < n
                invariant
                    n == items@.len(),
                    i <= n,
                    *v == YamlValue::Sequence(*items),
                    views_of(items@).len() == n,
                    forall|j: int| 0 <= j < n ==> #[trigger] views_of(items@)[j] == yaml_view(items@[j]),
                    forall|j: int| 0 <= j < i ==> json_ok(#[trigger] views_of(items@)[j]),
                decreases n - i,
            {
                proof {
                    assert(decreases_to!(*v => v->Sequence_0));
                    assert(decreases_to!(*items => items@));
                    assert(decreases_to!(items@ => items@[i as int]));
                }
                if !is_json_convertible(&items[i]) {
                    assert(!json_ok(views_of(items@)[i as int]));
                    proof { lemma_items_json_ok(views_of(items@)); }
                    return false;
                }
                i = i + 1;
            }
            proof { lemma_items_json_ok(views_of(items@)); }
            true
        },
        YamlValue::Mapping(entries) => {
            proof { lemma_entry_views_of(entries@); }
            let n = entries.len();
            let mut i: usize = 0;
            while i < n
                invariant
                    n == entries@.len(),
                    i <= n,
                    *v == YamlValue::Mapping(*entries),
                    entry_views_of(entries@).len() == n,
                    forall|j: int| 0 <= j < n ==> #[trigger] entry_views_of(entries@)[j] == (yaml_view(entries@[j].0), yaml_view(entries@[j].1)),
                    forall|j: int| 0 <= j < i ==> json_key_ok((#[trigger] entry_views_of(entries@)[j]).0) && json_ok(entry_views_of(entries@)[j].1),
                decreases n - i,
            {
                proof {
                    assert(decreases_to!(*v => v->Mapping_0));
                    assert(decreases_to!(*entries => entries@));
                    assert(decreases_to!(entries@ => entries@[i as int]));
                    assert(decreases_to!(entries@[i as int] => entries@[i as int].1));
                }
                let key_ok = match &entries[i].0 {
                    YamlValue::Str(_) | YamlValue::Bool(_) | YamlValue::Int(_) => true,
                    YamlValue::Real(t) => {
                        proof {
                            reveal_strlit("inf");
                            reveal_strlit("-inf");
                            reveal_strlit("NaN");
                        }
                        !str_eq(t.as_str(), "inf") && !str_eq(t.as_str(), "-inf") && !str_eq(t.as_str(), "NaN")
                    },
                    _ => false,
                };
                if !key_ok || !is_json_convertible(&entries[i].1) {
                    assert(!(json_key_ok(entry_views_of(entries@)[i as int].0) && json_ok(entry_views_of(entries@)[i as int].1)));
                    proof { lemma_entries_json_ok(entry_views_of(entries@)); }
                    return false;
                }
                i = i + 1;
            }
            proof { lemma_entries_json_ok(entry_views_of(entries@)); }
            true
        },
        _ => true,
    }
}

/// Why a step cannot be converted.
#[derive(Debug, PartialEq)]
pub enum BuildStepError {
    /// The step names a command, which is not expanded for GitHub Actions.
    CommandReference(String),
    /// The step has no form that GitHub Actions supports.
    Unsupported,
}

/// The text of a step conversion error.
pub open spec fn build_step_error_message(e: BuildStepError) -> Seq<char> {
    match e {
        BuildStepError::CommandReference(k) => "Command reference '"@ + k@ + "' not yet expanded for GitHub Actions"@,
        BuildStepError::Unsupported => "Unsupported step format for GitHub Actions"@,
    }
}

impl BuildStepError {
    /// The text of the error.
    pub fn message(&self) -> (r: String)
        ensures
            r@ == build_step_error_message(*self),
    {
        match self {
            BuildStepError::CommandReference(k) => {
                let mut m = to_owned_string("Command reference '");
                m.append(k.as_str());
                m.append("' not yet expanded for GitHub Actions");
                m
            },
            BuildStepError::Unsupported => to_owned_string("Unsupported step format for GitHub Actions"),
        }
    }
}

/// The string under `key` of a mapping view, if it is a string.
pub open spec fn get_str(v: YamlView, key: Seq<char>) -> Option<Seq<char>> {
    match spec_get(v, key) {
        Some(x) => spec_as_str(x),
        None => None,
    }
}

/// The `with` parameters of a `uses` step: the entries with string keys whose
/// values convert to JSON, in order.
pub open spec fn with_params(e: Seq<(YamlView, YamlView)>) -> Seq<(Seq<char>, YamlView)>
    decreases e.len(),
{
    if e.len() == 0 {
        Seq::empty()
    } else {
        with_params(e.drop_last()) + match e.last().0 {
            YamlView::Str(k) => if json_ok(e.last().1) { seq![(k, e.last().1)] } else { Seq::empty() },
            _ => Seq::empty(),
        }
    }
}

/// The environment of a `uses` step: the entries whose key and value are strings, in order.
pub open spec fn env_params(e: Seq<(YamlView, YamlView)>) -> Seq<(Seq<char>, Seq<char>)>
    decreases e.len(),
{
    if e.len() == 0 {
        Seq::empty()
    } else {
        env_params(e.drop_last()) + match (e.last().0, e.last().1) {
            (YamlView::Str(k), YamlView::Str(x)) => seq![(k, x)],
            _ => Seq::empty(),
        }
    }
}

/// A step given as a mapping with `run:` holding a mapping with a string `command`.
pub open spec fn is_circleci_run(v: YamlView) -> bool {
    &&& spec_get(v, "run"@) matches Some(rm)
    &&& rm is Mapping
    &&& get_str(rm, "command"@) is Some
}

/// A step given as a mapping with `name` and `run`.
pub open spec fn is_native_run(v: YamlView) -> bool {
    spec_get(v, "name"@) is Some && spec_get(v, "run"@) is Some
}

/// The step that a step as written becomes, when it is one.
pub open spec fn step_converted(r: Step, v: YamlView) -> bool {
    if is_circleci_run(v) {
        let rm = spec_get(v, "run"@)->0;
        &&& r.id is None && r.uses is None && r.with is None && r.env is None
        &&& opt_str_view(r.name) == get_str(rm, "name"@)
        &&& opt_str_view(r.run) == get_str(rm, "command"@)
        &&& r.condition is None && r.working_directory is None && r.shell is None
        &&& r.continue_on_error is None && r.timeout_minutes is None
    } else if is_native_run(v) {
        &&& opt_str_view(r.id) == get_str(v, "id"@)
        &&& opt_str_view(r.name) == get_str(v, "name"@)
        &&& r.uses is None
        &&& opt_str_view(r.run) == get_str(v, "run"@)
        &&& r.with is None && r.env is None
        &&& r.condition is None && r.working_directory is None && r.shell is None
        &&& r.continue_on_error is None && r.timeout_minutes is None
    } else {
        &&& opt_str_view(r.id) == get_str(v, "id"@)
        &&& opt_str_view(r.name) == get_str(v, "name"@)
        &&& opt_str_view(r.uses) == get_str(v, "uses"@)
        &&& r.run is None
        &&& match spec_get(v, "with"@) {
                Some(YamlView::Mapping(e)) => r.with matches Some(w) && w@.map_values(|p: (String, YamlValue)| (p.0@, p.1@)) == with_params(e),
                _ => r.with is None,
            }
        &&& match spec_get(v, "env"@) {
                Some(YamlView::Mapping(e)) => r.env matches Some(w) && w@.map_values(|p: (String, String)| (p.0@, p.1@)) == env_params(e),
                _ => r.env is None,
            }
        &&& opt_str_view(r.condition) == get_str(v, "if"@)
        &&& opt_str_view(r.working_directory) == get_str(v, "working-directory"@)
        &&& opt_str_view(r.shell) == get_str(v, "shell"@)
        &&& r.continue_on_error == match spec_get(v, "continue-on-error"@) { Some(YamlView::Bool(b)) => Some(b), _ => None::<bool> }
        &&& r.timeout_minutes == match spec_get(v, "timeout-minutes"@) {
                Some(YamlView::Int(n)) => if 0 <= n <= u64::MAX { Some((n as u64) as u32) } else { None::<u32> },
                _ => None::<u32>,
            }
    }
}

/// What converting a step gives: a `run` step for a CircleCI-style run with a
/// command or a native run, a `uses` step, else an error — naming the command
/// for a single-entry mapping with a string key.
pub open spec fn build_step_ok(r: Result<Step, BuildStepError>, v: YamlView) -> bool {
    if v is Mapping && (is_circleci_run(v) || is_native_run(v) || spec_get(v, "uses"@) is Some) {
        r matches Ok(step) && step_converted(step, v)
    } else {
        match v {
            YamlView::Mapping(e) if e.len() == 1 && spec_as_str(e[0].0) is Some =>
                r matches Err(BuildStepError::CommandReference(name)) && Some(name@) == spec_as_str(e[0].0),
            _ => r == Err::<Step, BuildStepError>(BuildStepError::Unsupported),
        }
    }
}

/// The string under `key` of a mapping value, copied.
fn get_string(v: &YamlValue, key: &str) -> (r: Option<String>)
    ensures
        opt_str_view(r) == get_str(v@, key@),
{
    match v.get(key) {
        Some(x) => match x.as_str() {
            Some(s) => Some(to_owned_string(s)),
            None => None,
        },
        None => None,
    }
}

impl GitHubActionsGenerator {
    /// A generator.
    pub fn new() -> (r: Self) {
        GitHubActionsGenerator { cache_generator: CacheGenerator::new(), job_skip_generator: JobSkipGenerator::new() }
    }

    /// The default CI triggers: pushes and pull requests to `main`.
    pub fn default_ci_triggers(&self) -> (r: WorkflowTrigger)
        ensures
            is_default_triggers(r),
    {
        let mut push_branches: Vec<String> = Vec::new();
        push_branches.push(to_owned_string("main"));
        let mut pr_branches: Vec<String> = Vec::new();
        pr_branches.push(to_owned_string("main"));
        let mut triggers: Vec<(String, TriggerConfig)> = Vec::new();
        triggers.push((to_owned_string("push"), TriggerConfig { branches: Some(push_branches), tags: None, paths: None, types: None }));
        triggers.push((to_owned_string("pull_request"), TriggerConfig { branches: Some(pr_branches), tags: None, paths: None, types: None }));
        proof {
            assert(strs_view(push_branches@) =~= seq!["main"@]);
            assert(strs_view(pr_branches@) =~= seq!["main"@]);
        }
        WorkflowTrigger::Detailed(triggers)
    }

    /// The triggers of a workflow: the default CI triggers, whether or not the
    /// workflow has settings of its own.
    pub fn build_workflow_triggers(&self, config: &Config, workflow_name: &str) -> (r: Option<WorkflowTrigger>)
        ensures
            r matches Some(t) && is_default_triggers(t),
    {
        Some(self.default_ci_triggers())
    }

    /// The runner of a job, from its image.
    pub fn runs_on(image: &str) -> (r: RunsOn)
        ensures
            r matches RunsOn::Single(s) && s@ == spec_runs_on(image@),
    {
        if starts_with(image, "ubuntu") || starts_with(image, "rust") {
            RunsOn::Single(to_owned_string("ubuntu-latest"))
        } else if starts_with(image, "macos") {
            RunsOn::Single(to_owned_string("macos-latest"))
        } else {
            RunsOn::Single(to_owned_string(image))
        }
    }

    /// A matrix over the architectures of a job that has more than one.
    pub fn build_matrix_strategy(&self, job: &Job) -> (r: Option<Strategy>)
        ensures
            matrix_ok(r, *job),
    {
        match &job.architectures {
            Some(architectures) => {
                if architectures.len() > 1 {
                    let mut values: Vec<YamlValue> = Vec::new();
                    let n = architectures.len();
                    let mut i: usize = 0;
                    while i < n
                        invariant
                            n == architectures@.len(),
                            i <= n,
                            views_of(values@) == strs_view(architectures@.subrange(0, i as int)).map_values(|x: Seq<char>| YamlView::Str(x)),
                        decreases n - i,
                    {
                        crate::yaml::push_item(&mut values, YamlValue::Str(to_owned_string(architectures[i].as_str())));
                        proof {
                            assert(strs_view(architectures@.subrange(0, i + 1)).map_values(|x: Seq<char>| YamlView::Str(x)) =~=
                                strs_view(architectures@.subrange(0, i as int)).map_values(|x: Seq<char>| YamlView::Str(x)).push(YamlView::Str(architectures@[i as int]@)));
                        }
                        i = i + 1;
                    }
                    assert(architectures@.subrange(0, n as int) =~= architectures@);
                    let mut matrix: Vec<(String, Vec<YamlValue>)> = Vec::new();
                    matrix.push((to_owned_string("arch"), values));
                    Some(Strategy { matrix, fail_fast: None, max_parallel: None })
                } else {
                    None
                }
            },
            None => None,
        }
    }

    /// Converts a step as written into a GitHub Actions step.
    pub fn build_step(&self, step_value: &YamlValue) -> (r: Result<Step, BuildStepError>)
        ensures
            build_step_ok(r, step_value@),
    {
        let ghost v = step_value@;
        if let YamlValue::Mapping(entries) = step_value {
            proof { lemma_entry_views_of(entries@); }
            // A CircleCI-style run step with a command.
            if let Some(run_value) = step_value.get("run") {
                if run_value.is_mapping() {
                    let command = get_string(run_value, "command");
                    if let Some(cmd) = command {
                        let mut step = Step::empty();
                        step.name = get_string(run_value, "name");
                        step.run = Some(cmd);
                        return Ok(step);
                    }
                }
            }
            // A native run step.
            if step_value.get("name").is_some() && step_value.get("run").is_some() {
                let mut step = Step::empty();
                step.id = get_string(step_value, "id");
                step.name = get_string(step_value, "name");
                step.run = get_string(step_value, "run");
                return Ok(step);
            }
            // A uses step.
            if let Some(uses_value) = step_value.get("uses") {
                let with = match step_value.get("with") {
                    Some(YamlValue::Mapping(with_map)) => Some(Self::with_parameters(with_map)),
                    _ => None,
                };
                let env = match step_value.get("env") {
                    Some(YamlValue::Mapping(env_map)) => Some(Self::env_parameters(env_map)),
                    _ => None,
                };
                let mut step = Step::empty();
                step.id = get_string(step_value, "id");
                step.name = get_string(step_value, "name");
                step.uses = match uses_value.as_str() {
                    Some(s) => Some(to_owned_string(s)),
                    None => None,
                };
                step.with = with;
                step.env = env;
                step.condition = get_string(step_value, "if");
                step.working_directory = get_string(step_value, "working-directory");
                step.shell = get_string(step_value, "shell");
                step.continue_on_error = match step_value.get("continue-on-error") {
                    Some(x) => x.as_bool(),
                    None => None,
                };
                step.timeout_minutes = match step_value.get("timeout-minutes") {
                    Some(x) => match x.as_u64() {
                        Some(n) => Some(n as u32),
                        None => None,
                    },
                    None => None,
                };
                return Ok(step);
            }
            // A command reference.
            if entries.len() == 1 {
                if let Some(key) = entries[0].0.as_str() {
                    return Err(BuildStepError::CommandReference(to_owned_string(key)));
                }
            }
        }
        Err(BuildStepError::Unsupported)
    }

    /// The `with` parameters of a `uses` step.
    fn with_parameters(with_map: &Vec<(YamlValue, YamlValue)>) -> (r: Vec<(String, YamlValue)>)
        ensures
            r@.map_values(|p: (String, YamlValue)| (p.0@, p.1@)) == with_params(entry_views_of(with_map@)),
    {
        proof { lemma_entry_views_of(with_map@); }
        let mut out: Vec<(String, YamlValue)> = Vec::new();
        let n = with_map.len();
        let mut i: usize = 0;
        while i < n
            invariant
                n == with_map@.len(),
                i <= n,
                entry_views_of(with_map@).len() == n,
                forall|j: int| 0 <= j < n ==> #[trigger] entry_views_of(with_map@)[j] == (yaml_view(with_map@[j].0), yaml_view(with_map@[j].1)),
                out@.map_values(|p: (String, YamlValue)| (p.0@, p.1@)) == with_params(entry_views_of(with_map@).subrange(0, i as int)),
            decreases n - i,
        {
            let ghost prev = out@;
            proof {
                let sub = entry_views_of(with_map@).subrange(0, i + 1);
                assert(sub.drop_last() =~= entry_views_of(with_map@).subrange(0, i as int));
                assert(sub.last() == entry_views_of(with_map@)[i as int]);
            }
            if let Some(k) = with_map[i].0.as_str() {
                if is_json_convertible(&with_map[i].1) {
                    out.push((to_owned_string(k), with_map[i].1.deep_copy()));
                    assert(out@.map_values(|p: (String, YamlValue)| (p.0@, p.1@)) =~= prev.map_values(|p: (String, YamlValue)| (p.0@, p.1@)).push((k@, with_map@[i as int].1@)));
                }
            }
            assert(out@.map_values(|p: (String, YamlValue)| (p.0@, p.1@)) =~= with_params(entry_views_of(with_map@).subrange(0, i + 1)));
            i = i + 1;
        }
        assert(entry_views_of(with_map@).subrange(0, n as int) =~= entry_views_of(with_map@));
        out
    }

    /// The environment of a `uses` step.
    fn env_parameters(env_map: &Vec<(YamlValue, YamlValue)>) -> (r: Vec<(String, String)>)
        ensures
            r@.map_values(|p: (String, String)| (p.0@, p.1@)) == env_params(entry_views_of(env_map@)),
    {
        proof { lemma_entry_views_of(env_map@); }
        let mut out: Vec<(String, String)> = Vec::new();
        let n = env_map.len();
        let mut i: usize = 0;
        while i < n
            invariant
                n == env_map@.len(),
                i <= n,
                entry_views_of(env_map@).len() == n,
                forall|j: int| 0 <= j < n ==> #[trigger] entry_views_of(env_map@)[j] == (yaml_view(env_map@[j].0), yaml_view(env_map@[j].1)),
                out@.map_values(|p: (String, String)| (p.0@, p.1@)) == env_params(entry_views_of(env_map@).subrange(0, i as int)),
            decreases n - i,
        {
            let ghost prev = out@;
            proof {
                let sub = entry_views_of(env_map@).subrange(0, i + 1);
                assert(sub.drop_last() =~= entry_views_of(env_map@).subrange(0, i as int));
                assert(sub.last() == entry_views_of(env_map@)[i as int]);
            }
            match (env_map[i].0.as_str(), env_map[i].1.as_str()) {
                (Some(k), Some(x)) => {
                    out.push((to_owned_string(k), to_owned_string(x)));
                    assert(out@.map_values(|p: (String, String)| (p.0@, p.1@)) =~= prev.map_values(|p: (String, String)| (p.0@, p.1@)).push((k@, x@)));
                },
                _ => {},
            }
            assert(out@.map_values(|p: (String, String)| (p.0@, p.1@)) =~= env_params(entry_views_of(env_map@).subrange(0, i + 1)));
            i = i + 1;
        }
        assert(entry_views_of(env_map@).subrange(0, n as int) =~= entry_views_of(env_map@));
        out
    }
}

/// Whether a job's code is checked out: unless checkout is switched off.
pub open spec fn should_checkout(job: Job) -> bool {
    match job.checkout {
        Some(CheckoutSetting::Bool(b)) => b,
        _ => true,
    }
}

/// The architecture a job's steps are built for: its first, else amd64.
pub open spec fn job_architecture(job: Job) -> Seq<char> {
    match job.architectures {
        Some(a) if a@.len() > 0 => a@[0]@,
        _ => "amd64"@,
    }
}

/// The steps of a job as written.
pub open spec fn user_steps(job: Job) -> Seq<YamlValue> {
    match job.steps {
        Some(s) => s@,
        None => Seq::empty(),
    }
}

/// The number of cache restore steps of a job.
pub open spec fn cache_step_count(job: Job) -> int {
    declared_restores(job).len() + match job.restore_cache { Some(r) => r@.len() as int, None => 0 }
}

/// The checkout step.
pub open spec fn is_checkout_step(s: Step) -> bool {
    &&& opt_str_view(s.name) == Some("Checkout code"@)
    &&& opt_str_view(s.uses) == Some("actions/checkout@v4"@)
    &&& s.id is None && s.run is None && s.with is None && s.env is None && s.condition is None
    &&& s.working_directory is None && s.shell is None && s.continue_on_error is None && s.timeout_minutes is None
}

/// A step as written that converts.
pub open spec fn step_converts(v: YamlView) -> bool {
    v is Mapping && (is_circleci_run(v) || is_native_run(v) || spec_get(v, "uses"@) is Some)
}

/// Every step as written converts, into the steps from `start` on, in order.
pub open spec fn user_steps_converted(steps: Seq<Step>, start: int, user: Seq<YamlValue>) -> bool {
    &&& forall|j: int| 0 <= j < user.len() ==> step_converts((#[trigger] user[j])@)
    &&& forall|j: int| 0 <= j < user.len() ==> #[trigger] build_step_ok(Ok(steps[start + j]), user[j]@)
}

/// The steps of a job: the checkout step (unless switched off); for a job with
/// source files the hash and skip check steps; the cache restore steps; the
/// job's steps converted; and for a job with source files the completion step.
pub open spec fn build_steps_ok(steps: Seq<Step>, config: Config, job: Job) -> bool {
    let c0: int = if should_checkout(job) { 1 } else { 0 };
    let arch = job_architecture(job);
    let u = user_steps(job);
    let nc = cache_step_count(job);
    &&& should_checkout(job) ==> is_checkout_step(steps[0])
    &&& match job.source_files {
        Some(sf) => {
            &&& expand_entries(groups_of(config), strs_view(sf@)) matches Ok(ps)
            &&& steps.len() == c0 + 2 + nc + u.len() + 1
            &&& is_bash_step(steps[c0], "calculate_hash"@, "Calculate source file hash"@, hash_script(ps))
            &&& is_bash_step(steps[c0 + 1], "check_skip"@, "Check if job should be skipped"@, skip_check_script(arch))
            &&& cache_steps_ok(steps.subrange(c0 + 2, c0 + 2 + nc), config, job, arch)
            &&& user_steps_converted(steps, c0 + 2 + nc, u)
            &&& is_bash_step(steps[steps.len() - 1], "record_completion"@, "Record job completion"@, completion_script(arch))
        },
        None => {
            &&& steps.len() == c0 + nc + u.len()
            &&& cache_steps_ok(steps.subrange(c0, c0 + nc), config, job, arch)
            &&& user_steps_converted(steps, c0 + nc, u)
        },
    }
}

/// Why the steps of a job cannot be built.
#[derive(Debug, PartialEq)]
pub enum BuildStepsError {
    SourceFiles(SourceFilesError),
    Step(BuildStepError),
}

/// The error of building a job's steps: the source files' error, or the error of
/// the first step as written that does not convert.
pub open spec fn build_steps_err(e: BuildStepsError, config: Config, job: Job) -> bool {
    match e {
        BuildStepsError::SourceFiles(se) => job.source_files matches Some(sf)
            && expand_entries(groups_of(config), strs_view(sf@)) == Err::<Seq<Seq<char>>, Option<Seq<char>>>(source_files_error_view(se)),
        BuildStepsError::Step(be) => {
            &&& (job.source_files matches Some(sf) ==> expand_entries(groups_of(config), strs_view(sf@)) is Ok)
            &&& exists|j: int| 0 <= j < user_steps(job).len()
                && (forall|k: int| 0 <= k < j ==> step_converts((#[trigger] user_steps(job)[k])@))
                && #[trigger] build_step_ok(Err(be), user_steps(job)[j]@)
        },
    }
}

impl GitHubActionsGenerator {
    /// Converts the steps of a job in order, after `steps`.
    fn convert_user_steps(&self, job: &Job, steps: &mut Vec<Step>) -> (r: Result<(), BuildStepError>)
        ensures
            match r {
                Ok(()) => final(steps)@.len() == old(steps)@.len() + user_steps(*job).len()
                    && final(steps)@.subrange(0, old(steps)@.len() as int) == old(steps)@
                    && user_steps_converted(final(steps)@, old(steps)@.len() as int, user_steps(*job)),
                Err(be) => exists|j: int| 0 <= j < user_steps(*job).len()
                    && (forall|k: int| 0 <= k < j ==> step_converts((#[trigger] user_steps(*job)[k])@))
                    && #[trigger] build_step_ok(Err(be), user_steps(*job)[j]@),
            },
    {
        let ghost start = steps@.len() as int;
        match &job.steps {
            Some(job_steps) => {
                let n = job_steps.len();
                let mut i: usize = 0;
                while i < n
                    invariant
                        n == job_steps@.len(),
                        job_steps@ == user_steps(*job),
                        i <= n,
                        start == old(steps)@.len(),
                        steps@.len() == start + i,
                        steps@.subrange(0, start) == old(steps)@,
                        forall|j: int| 0 <= j < i ==> step_converts((#[trigger] job_steps@[j])@),
                        forall|j: int| 0 <= j < i ==> #[trigger] build_step_ok(Ok(steps@[start + j]), job_steps@[j]@),
                    decreases n - i,
                {
                    match self.build_step(&job_steps[i]) {
                        Ok(step) => {
                            let ghost prev = steps@;
                            assert(step_converts(job_steps@[i as int]@));
                            steps.push(step);
                            proof {
                                assert(steps@.subrange(0, start) =~= prev.subrange(0, start));
                                assert(steps@[start + i] == step);
                                assert forall|j: int| 0 <= j < i + 1 implies #[trigger] build_step_ok(Ok(steps@[start + j]), job_steps@[j]@) by {
                                    if j < i {
                                        assert(steps@[start + j] == prev[start + j]);
                                    }
                                }
                            }
                        },
                        Err(e) => {
                            proof {
                                assert forall|k: int| 0 <= k < i implies step_converts((#[trigger] user_steps(*job)[k])@) by {
                                    assert(job_steps@[k] == user_steps(*job)[k]);
                                }
                                assert(build_step_ok(Err(e), user_steps(*job)[i as int]@));
                            }
                            return Err(e);
                        },
                    }
                    i = i + 1;
                }
                assert(user_steps_converted(steps@, start, user_steps(*job)));
            },
            None => {
                assert(steps@.subrange(0, start) =~= old(steps)@);
            },
        }
        Ok(())
    }

    /// Builds the steps of a job.
    pub fn build_steps(&self, config: &Config, job: &Job) -> (r: Result<Vec<Step>, BuildStepsError>)
        ensures
            match r {
                Ok(steps) => build_steps_ok(steps@, *config, *job),
                Err(e) => build_steps_err(e, *config, *job),
            },
    {
        let mut steps: Vec<Step> = Vec::new();
        let checkout = match &job.checkout {
            Some(CheckoutSetting::Bool(b)) => *b,
            _ => true,
        };
        if checkout {
            let mut step = Step::empty();
            step.name = Some(to_owned_string("Checkout code"));
            step.uses = Some(to_owned_string("actions/checkout@v4"));
            steps.push(step);
        }
        let ghost c0: int = if should_checkout(*job) { 1 } else { 0 };
        let architecture: &str = match &job.architectures {
            Some(a) => if a.len() > 0 { a[0].as_str() } else { "amd64" },
            None => "amd64",
        };
        proof { reveal_strlit("amd64"); }
        assert(architecture@ == job_architecture(*job));
        let skip = match self.job_skip_generator.generate_skip_steps(config, job, architecture) {
            Ok(s) => s,
            Err(e) => return Err(BuildStepsError::SourceFiles(e)),
        };
        match skip {
            Some((hash_step, skip_check_step, completion_step)) => {
                steps.push(hash_step);
                steps.push(skip_check_step);
                let ghost before_cache = steps@;
                let cache_steps = self.cache_generator.generate_cache_steps(config, job, architecture);
                let mut cache_steps = cache_steps;
                let ghost cs = cache_steps@;
                steps.append(&mut cache_steps);
                let ghost before_user = steps@;
                match self.convert_user_steps(job, &mut steps) {
                    Ok(()) => {},
                    Err(e) => {
                        return Err(BuildStepsError::Step(e));
                    },
                }
                let ghost before_completion = steps@;
                steps.push(completion_step);
                proof {
                    let nc = cache_step_count(*job);
                    assert(cs.len() == nc);
                    assert(steps@.subrange(c0 + 2, c0 + 2 + nc) =~= cs) by {
                        assert forall|j: int| 0 <= j < nc implies steps@[c0 + 2 + j] == cs[j] by {
                            assert(steps@[c0 + 2 + j] == before_completion[c0 + 2 + j]);
                            assert(before_completion[c0 + 2 + j] == before_user[c0 + 2 + j]);
                        }
                    }
                    assert(steps@[c0] == before_cache[c0]) by {
                        assert(before_completion[c0] == before_user[c0]);
                    }
                    assert(steps@[c0 + 1] == before_cache[c0 + 1]) by {
                        assert(before_completion[c0 + 1] == before_user[c0 + 1]);
                    }
                    if should_checkout(*job) {
                        assert(steps@[0] == before_cache[0]) by {
                            assert(before_completion[0] == before_user[0]);
                        }
                    }
                    let u = user_steps(*job);
                    assert forall|j: int| 0 <= j < u.len() implies #[trigger] build_step_ok(Ok(steps@[c0 + 2 + nc + j]), u[j]@) by {
                        assert(steps@[c0 + 2 + nc + j] == before_completion[c0 + 2 + nc + j]);
                        assert(build_step_ok(Ok(before_completion[before_user.len() + j]), u[j]@));
                    }
                }
            },
            None => {
                let ghost before_cache = steps@;
                let mut cache_steps = self.cache_generator.generate_cache_steps(config, job, architecture);
                let ghost cs = cache_steps@;
                steps.append(&mut cache_steps);
                let ghost before_user = steps@;
                match self.convert_user_steps(job, &mut steps) {
                    Ok(()) => {},
                    Err(e) => {
                        return Err(BuildStepsError::Step(e));
                    },
                }
                proof {
                    let nc = cache_step_count(*job);
                    assert(steps@.subrange(c0, c0 + nc) =~= cs) by {
                        assert forall|j: int| 0 <= j < nc implies steps@[c0 + j] == cs[j] by {
                            assert(steps@[c0 + j] == before_user[c0 + j]);
                        }
                    }
                    if should_checkout(*job) {
                        assert(steps@[0] == before_cache[0]) by {
                            assert(steps@[0] == before_user[0]);
                        }
                    }
                }
            },
        }
        Ok(steps)
    }
}

/// The view of an optional list of strings.
pub open spec fn opt_strs_view(v: Option<Vec<String>>) -> Option<Seq<Seq<char>>> {
    match v {
        Some(x) => Some(strs_view(x@)),
        None => None,
    }
}

/// The view of an optional list of string pairs.
pub open spec fn opt_pairs_view(v: Option<Vec<(String, String)>>) -> Option<Seq<(Seq<char>, Seq<char>)>> {
    match v {
        Some(x) => Some(str_pairs_view(x@)),
        None => None,
    }
}

/// Whether `j` is the GitHub Actions job built from `job`: no name; the runner
/// from its image; its requirements as needs; no condition; its steps; its
/// environment; the explicit strategy, else a matrix over its architectures;
/// no services, container, timeout or outputs; and the given permissions and
/// environment.
pub open spec fn gh_job_ok(j: GHJob, config: Config, job: Job, explicit_strategy: Option<Strategy>,
    permissions: Option<Permissions>, environment: Option<Environment>) -> bool {
    &&& j.name is None
    &&& j.runs_on matches Some(RunsOn::Single(ro)) && ro@ == spec_runs_on(job.image@)
    &&& opt_strs_view(j.needs) == crate::models::opt_requires_list(job.requires)
    &&& j.condition is None
    &&& j.steps matches Some(s) && build_steps_ok(s@, config, job)
    &&& opt_pairs_view(j.env) == opt_pairs_view(job.env)
    &&& match explicit_strategy {
            Some(st) => j.strategy == Some(st),
            None => matrix_ok(j.strategy, job),
        }
    &&& j.services is None && j.container is None && j.timeout_minutes is None && j.outputs is None
    &&& j.permissions == permissions && j.environment == environment
}

/// What a job gives itself, already read: an explicit strategy, permissions
/// and an environment.
pub struct JobSettings {
    pub strategy: Option<Strategy>,
    pub permissions: Option<Permissions>,
    pub environment: Option<Environment>,
}

/// What a workflow's configuration gives it, already read: its triggers,
/// permissions, concurrency and environment.
pub struct WorkflowSettings {
    pub on: Option<WorkflowTrigger>,
    pub permissions: Option<Permissions>,
    pub concurrency: Option<Concurrency>,
    pub env: Option<Vec<(String, String)>>,
}

impl GitHubActionsGenerator {
    /// Builds a GitHub Actions job. An explicit strategy, permissions and
    /// environment are those the job gives (already read); without an explicit
    /// strategy, a job with several architectures gets a matrix over them.
    pub fn build_job(
        &self,
        config: &Config,
        job: &Job,
        explicit_strategy: Option<Strategy>,
        permissions: Option<Permissions>,
        environment: Option<Environment>,
    ) -> (r: Result<GHJob, BuildStepsError>)
        ensures
            match r {
                Ok(j) => gh_job_ok(j, *config, *job, explicit_strategy, permissions, environment),
                Err(e) => build_steps_err(e, *config, *job),
            },
    {
        let steps = match self.build_steps(config, job) {
            Ok(s) => s,
            Err(e) => return Err(e),
        };
        let needs = match &job.requires {
            Some(r) => Some(r.to_vec()),
            None => None,
        };
        let strategy = match explicit_strategy {
            Some(st) => Some(st),
            None => self.build_matrix_strategy(job),
        };
        let env = match &job.env {
            Some(e) => Some(copy_str_pairs(e)),
            None => None,
        };
        Ok(GHJob {
            name: None,
            runs_on: Some(Self::runs_on(job.image.as_str())),
            needs,
            condition: None,
            strategy,
            steps: Some(steps),
            env,
            services: None,
            container: None,
            timeout_minutes: None,
            outputs: None,
            permissions,
            environment,
        })
    }

    /// The service containers of a job: none are made yet.
    pub fn build_services(&self, job: &Job) -> (r: Option<Vec<(String, super::schema::Service)>>)
        ensures
            r is None,
    {
        None
    }

    /// Builds a workflow: its name, its triggers (the configured ones, else
    /// the defaults), its permissions, concurrency and environment, and each
    /// job built with its own settings. Fails with the first job whose steps
    /// cannot be built.
    pub fn build_workflow(&self, config: &Config, workflow_name: &str, jobs: &Vec<(String, Job)>, job_settings: Vec<JobSettings>,
        settings: WorkflowSettings) -> (r: Result<Workflow, BuildStepsError>)
        requires
            job_settings@.len() == jobs@.len(),
            unique_keys(jobs@),
        ensures
            match r {
                Ok(w) => {
                    &&& w.name@ == workflow_name@
                    &&& match settings.on {
                        Some(t) => w.on == Some(t),
                        None => w.on matches Some(t) && is_default_triggers(t),
                    }
                    &&& w.permissions == settings.permissions
                    &&& w.concurrency == settings.concurrency
                    &&& opt_pairs_view(w.env) == opt_pairs_view(settings.env)
                    &&& unique_keys(w.jobs@)
                    &&& forall|k: Seq<char>| #[trigger] pairs_map(w.jobs@).dom().contains(k) <==> has_key(jobs@, k)
                    &&& forall|i: int| 0 <= i < jobs@.len() ==> gh_job_ok(pairs_map(w.jobs@)[(#[trigger] jobs@[i]).0@], *config, jobs@[i].1,
                        job_settings@[i].strategy, job_settings@[i].permissions, job_settings@[i].environment)
                },
                Err(e) => exists|i: int| 0 <= i < jobs@.len() && #[trigger] build_steps_err(e, *config, jobs@[i].1),
            },
    {
        let ghost orig = job_settings@;
        let mut rest = job_settings;
        let mut gh_jobs: Vec<(String, GHJob)> = Vec::new();
        let n = jobs.len();
        let mut i: usize = 0;
        while i < n
            invariant
                n == jobs@.len(),
                orig.len() == n,
                i <= n,
                rest@ == orig.subrange(i as int, n as int),
                unique_keys(jobs@),
                gh_jobs@.len() == i,
                forall|j: int| 0 <= j < i ==> (#[trigger] gh_jobs@[j]).0@ == jobs@[j].0@
                    && gh_job_ok(gh_jobs@[j].1, *config, jobs@[j].1, orig[j].strategy, orig[j].permissions, orig[j].environment),
            decreases n - i,
        {
            let ghost before = rest@;
            let js = rest.remove(0);
            assert(rest@ =~= orig.subrange(i + 1, n as int));
            assert(before[0] == orig[i as int]);
            match self.build_job(config, &jobs[i].1, js.strategy, js.permissions, js.environment) {
                Ok(gj) => {
                    gh_jobs.push((to_owned_string(jobs[i].0.as_str()), gj));
                },
                Err(e) => {
                    return Err(e);
                },
            }
            i = i + 1;
        }
        proof {
            assert(unique_keys(gh_jobs@)) by {
                assert forall|a: int, b: int| 0 <= a < b < gh_jobs@.len() implies (#[trigger] gh_jobs@[a]).0@ != (#[trigger] gh_jobs@[b]).0@ by {
                    assert(jobs@[a].0@ != jobs@[b].0@);
                }
            }
            lemma_pairs_map_unique(gh_jobs@);
            assert forall|k: Seq<char>| #[trigger] pairs_map(gh_jobs@).dom().contains(k) <==> has_key(jobs@, k) by {
                if has_key(gh_jobs@, k) {
                    let j = choose|j: int| 0 <= j < gh_jobs@.len() && (#[trigger] gh_jobs@[j]).0@ == k;
                    assert(jobs@[j].0@ == k);
                }
                if has_key(jobs@, k) {
                    let j = choose|j: int| 0 <= j < jobs@.len() && (#[trigger] jobs@[j]).0@ == k;
                    assert(gh_jobs@[j].0@ == k);
                }
            }
            assert forall|i2: int| 0 <= i2 < jobs@.len() implies gh_job_ok(pairs_map(gh_jobs@)[(#[trigger] jobs@[i2]).0@], *config, jobs@[i2].1,
                orig[i2].strategy, orig[i2].permissions, orig[i2].environment) by {
                assert(gh_jobs@[i2].0@ == jobs@[i2].0@);
                assert(pairs_map(gh_jobs@)[gh_jobs@[i2].0@] == gh_jobs@[i2].1);
            }
        }
        let on = match settings.on {
            Some(t) => Some(t),
            None => self.build_workflow_triggers(config, workflow_name),
        };
        Ok(Workflow {
            name: to_owned_string(workflow_name),
            on,
            permissions: settings.permissions,
            jobs: gh_jobs,
            env: settings.env,
            concurrency: settings.concurrency,
        })
    }
}

} // verus!
