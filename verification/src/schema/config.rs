//! The main `cigen.yml` configuration and its validation.

use vstd::prelude::*;
use crate::strutil::{str_eq, is_blank, spec_is_blank, to_owned_string};
use vstd::string::*;
use crate::yaml::{YamlValue, YamlView, ystr, lemma_entry_views_of};
use super::command::CommandDefinition;
use super::job::Job;
use super::workflow::{WorkflowCondition, WorkflowConditionKind, WorkflowConfig};

verus! {

broadcast use vstd::string::group_string_axioms;

/// The main configuration.
#[derive(Debug, PartialEq)]
pub struct CigenConfig {
    pub project: Option<ProjectConfig>,
    /// Providers to generate configurations for.
    pub providers: Vec<String>,
    /// Packages available to all jobs.
    pub packages: Vec<String>,
    /// Named groups of source file patterns, in order.
    pub source_file_groups: Vec<(String, Vec<String>)>,
    /// Job definitions, in order.
    pub jobs: Vec<(String, Job)>,
    /// Reusable commands, in order.
    pub commands: Vec<(String, CommandDefinition)>,
    /// Cache definitions, in order.
    pub caches: Vec<(String, CacheDefinition)>,
    /// Runner definitions, in order.
    pub runners: Vec<(String, RunnerDefinition)>,
    /// Provider-specific configuration, in order.
    pub provider_config: Vec<(String, YamlValue)>,
    /// Workflow metadata keyed by workflow id, in order.
    pub workflows: Vec<(String, WorkflowConfig)>,
    /// The merged configuration as written.
    pub raw: YamlValue,
}

/// Project metadata.
#[derive(Debug, Clone, PartialEq)]
pub struct ProjectConfig {
    /// Human-readable project name.
    pub name: String,
    /// Project type for special handling.
    pub project_type: Option<ProjectType>,
    /// Default runner for all jobs.
    pub default_runner: Option<String>,
}

/// Project type.
#[derive(Debug, Clone, Copy, PartialEq, Eq, Structural)]
pub enum ProjectType {
    Turborepo,
    Default,
}

/// A cache definition.
#[derive(Debug, Clone, PartialEq)]
pub struct CacheDefinition {
    /// Paths to cache.
    pub paths: Vec<String>,
    /// Components of the cache key.
    pub key_parts: Vec<String>,
    pub backend: CacheBackend,
}

/// The backend a cache is kept in when none is given: the provider's native caching.
pub fn default_cache_backend() -> (r: CacheBackend)
    ensures
        r == CacheBackend::Native,
{
    CacheBackend::Native
}

/// Cache backend.
#[derive(Debug, Clone, Copy, PartialEq, Eq, Structural)]
pub enum CacheBackend {
    Native,
    Redis,
    S3,
}

/// A runner definition.
#[derive(Debug, PartialEq)]
pub struct RunnerDefinition {
    /// Provider-specific configuration, in order.
    pub provider_config: Vec<(String, YamlValue)>,
}

/// Why a configuration is invalid.
#[derive(Debug, PartialEq)]
pub enum ConfigError {
    /// No job is defined.
    NoJobs,
    /// A job needs a job that is not defined.
    UnknownNeed { job: String, needed: String },
    /// A job needs itself.
    SelfDependency { job: String },
    /// A workflow condition names none of parameter, variable, env, expression.
    MissingConditionKind { workflow: String },
    /// A workflow has an expression condition whose expression is blank.
    EmptyExpression { workflow: String },
    /// A provider does not support the kind of a workflow condition.
    UnsupportedCondition { workflow: String, kind: WorkflowConditionKind, provider: String },
}

/// The name of a condition kind, as it is shown.
pub open spec fn kind_name(kind: WorkflowConditionKind) -> Seq<char> {
    match kind {
        WorkflowConditionKind::Parameter => "Parameter"@,
        WorkflowConditionKind::Variable => "Variable"@,
        WorkflowConditionKind::Env => "Env"@,
        WorkflowConditionKind::Expression => "Expression"@,
    }
}

/// The text of a configuration error.
pub open spec fn spec_error_message(e: ConfigError) -> Seq<char> {
    match e {
        ConfigError::NoJobs => "Configuration must define at least one job"@,
        ConfigError::UnknownNeed { job, needed } => "Job '"@ + job@ + "' references unknown job '"@ + needed@ + "' in needs"@,
        ConfigError::SelfDependency { job } => "Job '"@ + job@ + "' cannot depend on itself"@,
        ConfigError::MissingConditionKind { workflow } => "Invalid condition in workflow '"@ + workflow@
            + "': workflow condition must specify one of: parameter, variable, env, expression"@,
        ConfigError::EmptyExpression { workflow } => "Workflow '"@ + workflow@ + "' has an expression condition with an empty expression"@,
        ConfigError::UnsupportedCondition { workflow, kind, provider } => "Workflow '"@ + workflow@ + "' uses a "@ + kind_name(kind)
            + " condition that is not supported by provider '"@ + provider@ + "'"@,
    }
}

impl ConfigError {
    /// The text of the error.
    pub fn message(&self) -> (r: String)
        ensures
            r@ == spec_error_message(*self),
    {
        match self {
            ConfigError::NoJobs => to_owned_string("Configuration must define at least one job"),
            ConfigError::UnknownNeed { job, needed } => {
                let mut m = to_owned_string("Job '");
                m.append(job.as_str());
                m.append("' references unknown job '");
                m.append(needed.as_str());
                m.append("' in needs");
                m
            },
            ConfigError::SelfDependency { job } => {
                let mut m = to_owned_string("Job '");
                m.append(job.as_str());
                m.append("' cannot depend on itself");
                m
            },
            ConfigError::MissingConditionKind { workflow } => {
                let mut m = to_owned_string("Invalid condition in workflow '");
                m.append(workflow.as_str());
                m.append("': workflow condition must specify one of: parameter, variable, env, expression");
                m
            },
            ConfigError::EmptyExpression { workflow } => {
                let mut m = to_owned_string("Workflow '");
                m.append(workflow.as_str());
                m.append("' has an expression condition with an empty expression");
                m
            },
            ConfigError::UnsupportedCondition { workflow, kind, provider } => {
                let mut m = to_owned_string("Workflow '");
                m.append(workflow.as_str());
                m.append("' uses a ");
                let name = match kind {
                    WorkflowConditionKind::Parameter => "Parameter",
                    WorkflowConditionKind::Variable => "Variable",
                    WorkflowConditionKind::Env => "Env",
                    WorkflowConditionKind::Expression => "Expression",
                };
                m.append(name);
                m.append(" condition that is not supported by provider '");
                m.append(provider.as_str());
                m.append("'");
                m
            },
        }
    }
}

/// The providers generated for when none is listed.
pub open spec fn default_providers() -> Seq<Seq<char>> {
    seq!["github"@, "circleci"@, "buildkite"@]
}

/// Whether a provider supports a workflow condition kind (a missing kind counts as a parameter).
pub open spec fn spec_provider_supports(provider: Seq<char>, kind: Option<WorkflowConditionKind>) -> bool {
    let k = match kind {
        Some(k) => k,
        None => WorkflowConditionKind::Parameter,
    };
    if provider == "circleci"@ {
        k == WorkflowConditionKind::Parameter
    } else if provider == "github"@ {
        k == WorkflowConditionKind::Expression
    } else {
        false
    }
}

/// Whether `provider` supports conditions of `kind`: CircleCI supports parameter
/// conditions, GitHub expression conditions, every other provider none. A missing
/// kind is treated as a parameter condition.
pub fn provider_supports_condition(provider: &str, kind: Option<WorkflowConditionKind>) -> (r: bool)
    ensures
        r == spec_provider_supports(provider@, kind),
{
    let k = match kind {
        Some(k) => k,
        None => WorkflowConditionKind::Parameter,
    };
    proof {
        reveal_strlit("circleci");
        reveal_strlit("github");
    }
    if str_eq(provider, "circleci") {
        matches!(k, WorkflowConditionKind::Parameter)
    } else if str_eq(provider, "github") {
        matches!(k, WorkflowConditionKind::Expression)
    } else {
        false
    }
}

/// Whether a job named `name` is defined.
pub open spec fn has_job(jobs: Seq<(String, Job)>, name: Seq<char>) -> bool {
    exists|i: int| 0 <= i < jobs.len() && (#[trigger] jobs[i]).0@ == name
}

/// Every need of `job` up to index `k` names a defined job.
pub open spec fn needs_known_upto(jobs: Seq<(String, Job)>, job: Job, k: int) -> bool {
    forall|j: int| 0 <= j < k ==> has_job(jobs, (#[trigger] job.needs@[j])@)
}

/// The job does not need itself.
pub open spec fn not_self_dependent(name: Seq<char>, job: Job) -> bool {
    forall|j: int| 0 <= j < job.needs@.len() ==> (#[trigger] job.needs@[j])@ != name
}

/// The job at index `i` needs only defined jobs and not itself.
pub open spec fn job_ok(jobs: Seq<(String, Job)>, i: int) -> bool {
    needs_known_upto(jobs, jobs[i].1, jobs[i].1.needs@.len() as int) && not_self_dependent(jobs[i].0@, jobs[i].1)
}

/// The jobs before index `i` are all fine.
pub open spec fn jobs_ok_upto(jobs: Seq<(String, Job)>, i: int) -> bool {
    forall|j: int| 0 <= j < i ==> #[trigger] job_ok(jobs, j)
}

/// The providers a condition is checked against.
pub open spec fn condition_targets(c: WorkflowCondition, providers: Seq<Seq<char>>) -> Seq<Seq<char>> {
    match c.provider {
        Some(p) => seq![p@],
        None => providers,
    }
}

/// Every target provider up to index `k` supports the kind of the condition.
pub open spec fn targets_supported_upto(c: WorkflowCondition, providers: Seq<Seq<char>>, k: int) -> bool {
    forall|j: int| 0 <= j < k ==> spec_provider_supports(#[trigger] condition_targets(c, providers)[j], c.spec_kind())
}

/// The expression of an expression condition is not blank.
pub open spec fn expression_ok(c: WorkflowCondition) -> bool {
    c.spec_kind() == Some(WorkflowConditionKind::Expression) ==> !spec_is_blank(c.expression->0@)
}

/// A condition has a kind, a non-blank expression if it is one, and every target provider supports it.
pub open spec fn condition_ok(c: WorkflowCondition, providers: Seq<Seq<char>>) -> bool {
    &&& c.spec_kind() is Some
    &&& expression_ok(c)
    &&& targets_supported_upto(c, providers, condition_targets(c, providers).len() as int)
}

/// The conditions before index `k` are fine.
pub open spec fn conditions_ok_upto(conds: Seq<WorkflowCondition>, providers: Seq<Seq<char>>, k: int) -> bool {
    forall|j: int| 0 <= j < k ==> condition_ok(#[trigger] conds[j], providers)
}

/// The workflows before index `w` have only fine conditions.
pub open spec fn workflows_ok_upto(wfs: Seq<(String, WorkflowConfig)>, providers: Seq<Seq<char>>, w: int) -> bool {
    forall|j: int| 0 <= j < w ==> conditions_ok_upto((#[trigger] wfs[j]).1.run_when@, providers, wfs[j].1.run_when@.len() as int)
}

impl CigenConfig {
    /// A configuration with nothing in it.
    pub fn default() -> (r: Self)
        ensures
            r.project is None && r.providers@.len() == 0 && r.packages@.len() == 0,
            r.source_file_groups@.len() == 0 && r.jobs@.len() == 0 && r.commands@.len() == 0,
            r.caches@.len() == 0 && r.runners@.len() == 0 && r.provider_config@.len() == 0,
            r.workflows@.len() == 0 && r.raw == YamlValue::Null,
    {
        CigenConfig {
            project: None,
            providers: Vec::new(),
            packages: Vec::new(),
            source_file_groups: Vec::new(),
            jobs: Vec::new(),
            commands: Vec::new(),
            caches: Vec::new(),
            runners: Vec::new(),
            provider_config: Vec::new(),
            workflows: Vec::new(),
            raw: YamlValue::Null,
        }
    }

    /// The providers to generate for: the listed ones, or github, circleci and buildkite.
    pub open spec fn spec_providers(&self) -> Seq<Seq<char>> {
        if self.providers@.len() == 0 {
            default_providers()
        } else {
            self.providers@.map_values(|s: String| s@)
        }
    }

    /// A configuration is valid when it defines a job, every job needs only defined
    /// jobs and not itself, and every workflow condition is valid and supported.
    pub open spec fn spec_valid(&self) -> bool {
        &&& self.jobs@.len() > 0
        &&& jobs_ok_upto(self.jobs@, self.jobs@.len() as int)
        &&& workflows_ok_upto(self.workflows@, self.spec_providers(), self.workflows@.len() as int)
    }

    /// All providers to generate for.
    pub fn get_providers(&self) -> (r: Vec<&str>)
        ensures
            r@.map_values(|s: &str| s@) == self.spec_providers(),
    {
        let mut out: Vec<&str> = Vec::new();
        if self.providers.len() == 0 {
            out.push("github");
            out.push("circleci");
            out.push("buildkite");
            proof {
                assert(out@.map_values(|s: &str| s@) =~= default_providers());
            }
        } else {
            let n = self.providers.len();
            let mut i: usize = 0;
            while i < n
                invariant
                    n == self.providers@.len(),
                    i <= n,
                    out@.len() == i,
                    forall|j: int| 0 <= j < i ==> (#[trigger] out@[j])@ == self.providers@[j]@,
                decreases n - i,
            {
                out.push(self.providers[i].as_str());
                i = i + 1;
            }
            proof {
                assert(out@.map_values(|s: &str| s@) =~= self.providers@.map_values(|s: String| s@));
            }
        }
        out
    }

    /// Validates the configuration. Jobs are checked in order, each first for
    /// needs that are not defined, then for needing itself; then the conditions of
    /// each workflow in order. The first problem found is returned.
    pub fn validate(&self) -> (r: Result<(), ConfigError>)
        ensures
            r is Ok <==> self.spec_valid(),
            r matches Err(ConfigError::NoJobs) <==> self.jobs@.len() == 0,
            r matches Err(ConfigError::UnknownNeed { job, needed }) ==> exists|i: int, k: int|
                0 <= i < self.jobs@.len() && jobs_ok_upto(self.jobs@, i)
                && self.jobs@[i].0@ == job@
                && 0 <= k < self.jobs@[i].1.needs@.len()
                && needs_known_upto(self.jobs@, self.jobs@[i].1, k)
                && (#[trigger] self.jobs@[i].1.needs@[k])@ == needed@
                && !has_job(self.jobs@, needed@),
            r matches Err(ConfigError::SelfDependency { job }) ==> exists|i: int|
                0 <= i < self.jobs@.len() && jobs_ok_upto(self.jobs@, i)
                && (#[trigger] self.jobs@[i]).0@ == job@
                && needs_known_upto(self.jobs@, self.jobs@[i].1, self.jobs@[i].1.needs@.len() as int)
                && !not_self_dependent(job@, self.jobs@[i].1),
            r matches Err(ConfigError::MissingConditionKind { workflow }) ==> exists|w: int, c: int| #![trigger self.workflows@[w].1.run_when@[c]]
                self.jobs@.len() > 0 && jobs_ok_upto(self.jobs@, self.jobs@.len() as int)
                && 0 <= w < self.workflows@.len() && workflows_ok_upto(self.workflows@, self.spec_providers(), w)
                && self.workflows@[w].0@ == workflow@
                && 0 <= c < self.workflows@[w].1.run_when@.len()
                && conditions_ok_upto(self.workflows@[w].1.run_when@, self.spec_providers(), c)
                && self.workflows@[w].1.run_when@[c].spec_kind() is None,
            r matches Err(ConfigError::EmptyExpression { workflow }) ==> exists|w: int, c: int| #![trigger self.workflows@[w].1.run_when@[c]]
                self.jobs@.len() > 0 && jobs_ok_upto(self.jobs@, self.jobs@.len() as int)
                && 0 <= w < self.workflows@.len() && workflows_ok_upto(self.workflows@, self.spec_providers(), w)
                && self.workflows@[w].0@ == workflow@
                && 0 <= c < self.workflows@[w].1.run_when@.len()
                && conditions_ok_upto(self.workflows@[w].1.run_when@, self.spec_providers(), c)
                && self.workflows@[w].1.run_when@[c].spec_kind() is Some
                && !expression_ok(self.workflows@[w].1.run_when@[c]),
            r matches Err(ConfigError::UnsupportedCondition { workflow, kind, provider }) ==> exists|w: int, c: int, t: int| #![trigger condition_targets(self.workflows@[w].1.run_when@[c], self.spec_providers())[t]]
                self.jobs@.len() > 0 && jobs_ok_upto(self.jobs@, self.jobs@.len() as int)
                && 0 <= w < self.workflows@.len() && workflows_ok_upto(self.workflows@, self.spec_providers(), w)
                && self.workflows@[w].0@ == workflow@
                && 0 <= c < self.workflows@[w].1.run_when@.len()
                && conditions_ok_upto(self.workflows@[w].1.run_when@, self.spec_providers(), c)
                && self.workflows@[w].1.run_when@[c].spec_kind() == Some(kind)
                && expression_ok(self.workflows@[w].1.run_when@[c])
                && 0 <= t < condition_targets(self.workflows@[w].1.run_when@[c], self.spec_providers()).len()
                && targets_supported_upto(self.workflows@[w].1.run_when@[c], self.spec_providers(), t)
                && condition_targets(self.workflows@[w].1.run_when@[c], self.spec_providers())[t] == provider@
                && !spec_provider_supports(provider@, Some(kind)),
    {
        if self.jobs.len() == 0 {
            return Err(ConfigError::NoJobs);
        }
        let n = self.jobs.len();
        let mut i: usize = 0;
        while i < n
            invariant
                n == self.jobs@.len(),
                n > 0,
                i <= n,
                jobs_ok_upto(self.jobs@, i as int),
            decreases n - i,
        {
            let name = &self.jobs[i].0;
            let job = &self.jobs[i].1;
            let m = job.needs.len();
            let mut k: usize = 0;
            while k < m
                invariant
                    n == self.jobs@.len(),
                    i < n,
                    *name == self.jobs@[i as int].0,
                    *job == self.jobs@[i as int].1,
                    m == job.needs@.len(),
                    k <= m,
                    jobs_ok_upto(self.jobs@, i as int),
                    needs_known_upto(self.jobs@, *job, k as int),
                decreases m - k,
            {
                let needed = &job.needs[k];
                if !self.contains_job(needed.as_str()) {
                    proof {
                        assert(!has_job(self.jobs@, job.needs@[k as int]@));
                        assert(!needs_known_upto(self.jobs@, *job, m as int));
                        assert(!job_ok(self.jobs@, i as int));
                    }
                    return Err(ConfigError::UnknownNeed {
                        job: to_owned_string(name.as_str()),
                        needed: to_owned_string(needed.as_str()),
                    });
                }
                k = k + 1;
            }
            let mut k: usize = 0;
            while k < m
                invariant
                    n == self.jobs@.len(),
                    i < n,
                    *name == self.jobs@[i as int].0,
                    *job == self.jobs@[i as int].1,
                    m == job.needs@.len(),
                    k <= m,
                    jobs_ok_upto(self.jobs@, i as int),
                    needs_known_upto(self.jobs@, *job, m as int),
                    forall|j: int| 0 <= j < k ==> (#[trigger] job.needs@[j])@ != name@,
                decreases m - k,
            {
                if str_eq(job.needs[k].as_str(), name.as_str()) {
                    proof {
                        assert(job.needs@[k as int]@ == name@);
                        assert(!not_self_dependent(name@, *job));
                        assert(!job_ok(self.jobs@, i as int));
                    }
                    return Err(ConfigError::SelfDependency { job: to_owned_string(name.as_str()) });
                }
                k = k + 1;
            }
            assert(job_ok(self.jobs@, i as int));
            i = i + 1;
        }
        let providers = self.get_providers();
        let ghost pv = self.spec_providers();
        let nw = self.workflows.len();
        let mut w: usize = 0;
        while w < nw
            invariant
                n == self.jobs@.len(),
                n > 0,
                jobs_ok_upto(self.jobs@, n as int),
                providers@.map_values(|s: &str| s@) == pv,
                pv == self.spec_providers(),
                nw == self.workflows@.len(),
                w <= nw,
                workflows_ok_upto(self.workflows@, pv, w as int),
            decreases nw - w,
        {
            let wf_name = &self.workflows[w].0;
            let conds = &self.workflows[w].1.run_when;
            let nc = conds.len();
            let mut c: usize = 0;
            while c < nc
                invariant
                    n == self.jobs@.len(),
                    n > 0,
                    jobs_ok_upto(self.jobs@, n as int),
                    providers@.map_values(|s: &str| s@) == pv,
                    pv == self.spec_providers(),
                    nw == self.workflows@.len(),
                    w < nw,
                    workflows_ok_upto(self.workflows@, pv, w as int),
                    *wf_name == self.workflows@[w as int].0,
                    *conds == self.workflows@[w as int].1.run_when,
                    nc == conds@.len(),
                    c <= nc,
                    conditions_ok_upto(conds@, pv, c as int),
                decreases nc - c,
            {
                let cond = &conds[c];
                if cond.validate().is_err() {
                    return Err(ConfigError::MissingConditionKind { workflow: to_owned_string(wf_name.as_str()) });
                }
                let kind = cond.kind();
                let is_expr = match kind {
                    Some(WorkflowConditionKind::Expression) => true,
                    _ => false,
                };
                if is_expr {
                    let blank = match &cond.expression {
                        Some(e) => is_blank(e.as_str()),
                        None => true,
                    };
                    if blank {
                        return Err(ConfigError::EmptyExpression { workflow: to_owned_string(wf_name.as_str()) });
                    }
                }
                let ghost targets = condition_targets(*cond, pv);
                let mut single: Vec<&str> = Vec::new();
                let target_list: &Vec<&str> = match &cond.provider {
                    Some(p) => {
                        single.push(p.as_str());
                        proof {
                            assert(single@.map_values(|s: &str| s@) =~= targets);
                        }
                        &single
                    },
                    None => &providers,
                };
                let nt = target_list.len();
                let mut t: usize = 0;
                while t < nt
                    invariant
                        target_list@.map_values(|s: &str| s@) == targets,
                        targets == condition_targets(*cond, pv),
                        nt == target_list@.len(),
                        t <= nt,
                        n == self.jobs@.len(),
                        n > 0,
                        jobs_ok_upto(self.jobs@, n as int),
                        pv == self.spec_providers(),
                        nw == self.workflows@.len(),
                        w < nw,
                        workflows_ok_upto(self.workflows@, pv, w as int),
                        *wf_name == self.workflows@[w as int].0,
                        *conds == self.workflows@[w as int].1.run_when,
                        nc == conds@.len(),
                        c < nc,
                        *cond == conds@[c as int],
                        conditions_ok_upto(conds@, pv, c as int),
                        kind == cond.spec_kind(),
                        kind is Some,
                        expression_ok(*cond),
                        targets_supported_upto(*cond, pv, t as int),
                    decreases nt - t,
                {
                    let p = target_list[t];
                    proof {
                        assert(target_list@.map_values(|s: &str| s@)[t as int] == p@);
                    }
                    if !provider_supports_condition(p, kind) {
                        return Err(ConfigError::UnsupportedCondition {
                            workflow: to_owned_string(wf_name.as_str()),
                            kind: kind.unwrap(),
                            provider: to_owned_string(p),
                        });
                    }
                    t = t + 1;
                }
                assert(condition_ok(*cond, pv));
                c = c + 1;
            }
            assert(conditions_ok_upto(self.workflows@[w as int].1.run_when@, pv, self.workflows@[w as int].1.run_when@.len() as int));
            w = w + 1;
        }
        Ok(())
    }

    /// Whether a job named `name` is defined.
    pub fn contains_job(&self, name: &str) -> (r: bool)
        ensures
            r == has_job(self.jobs@, name@),
    {
        let n = self.jobs.len();
        let mut i: usize = 0;
        while i < n
            invariant
                n == self.jobs@.len(),
                i <= n,
                forall|j: int| 0 <= j < i ==> (#[trigger] self.jobs@[j]).0@ != name@,
            decreases n - i,
        {
            if str_eq(self.jobs[i].0.as_str(), name) {
                assert(self.jobs@[i as int].0@ == name@);
                return true;
            }
            i = i + 1;
        }
        false
    }
}

/// The configuration as written, as a mapping: the document itself when it
/// is a mapping, else a mapping of `root` to it.
pub fn extract_mapping(document: YamlValue) -> (r: YamlValue)
    ensures
        r is Mapping,
        r@ == extract_mapping_view(document@),
{
    match document {
        YamlValue::Mapping(entries) => YamlValue::Mapping(entries),
        other => {
            let ghost ov = other@;
            let mut entries: Vec<(YamlValue, YamlValue)> = Vec::new();
            entries.push((ystr("root"), other));
            proof {
                lemma_entry_views_of(entries@);
                assert(crate::yaml::entry_views_of(entries@) =~= seq![(YamlView::Str("root"@), ov)]);
            }
            YamlValue::Mapping(entries)
        },
    }
}

/// The view of `extract_mapping`'s result.
pub open spec fn extract_mapping_view(document: YamlView) -> YamlView {
    match document {
        YamlView::Mapping(_) => document,
        other => YamlView::Mapping(seq![(YamlView::Str("root"@), other)]),
    }
}

} // verus!
