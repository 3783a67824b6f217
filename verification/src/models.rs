//! The provider-facing model: the configuration, jobs and commands that the
//! generators turn into provider files. Maps are kept as ordered lists of
//! `(name, value)` pairs; a lookup takes the first entry with the name.

use vstd::prelude::*;
use crate::yaml::YamlValue;

verus! {

/// A docker image with optional per-architecture variants.
#[derive(Debug, Clone, PartialEq)]
pub struct DockerImageConfig {
    /// The image used when no architecture variant applies.
    pub default: String,
    /// Architecture name to image.
    pub architectures: Option<Vec<(String, String)>>,
}

/// Credentials for a docker registry.
#[derive(Debug, Clone, PartialEq)]
pub struct DockerAuth {
    pub username: String,
    pub password: String,
}

/// Docker settings: named credentials and the default among them.
#[derive(Debug, Clone, PartialEq)]
pub struct DockerConfig {
    pub default_auth: Option<String>,
    pub auth: Option<Vec<(String, DockerAuth)>>,
}

/// An image that the pipeline builds itself.
#[derive(Debug, Clone, PartialEq)]
pub struct DockerBuildImage {
    pub name: String,
    pub dockerfile: String,
    /// The build context directory.
    pub context: String,
    /// Names of the images this one is built on.
    pub depends_on: Vec<String>,
    /// Build arguments, as name-value pairs.
    pub build_args: Option<Vec<(String, String)>>,
    /// Glob patterns of the files whose content decides the image's hash.
    pub hash_sources: Vec<String>,
    /// Whether the image is pushed (the registry's setting when absent).
    pub push: Option<bool>,
}

/// Where built images are pushed.
#[derive(Debug, Clone, PartialEq)]
pub struct DockerRegistry {
    pub repo: String,
    /// Whether images are pushed by default.
    pub push: bool,
}

/// Settings for building docker images in the pipeline.
#[derive(Debug, Clone, PartialEq)]
pub struct DockerBuildConfig {
    pub enabled: bool,
    pub layer_caching: Option<bool>,
    pub registry: DockerRegistry,
    pub images: Vec<DockerBuildImage>,
}

/// Options for the checkout step.
#[derive(Debug, Clone, PartialEq)]
pub struct CheckoutConfig {
    /// Use the shallow-clone command instead of the provider's checkout.
    pub shallow: bool,
    pub clone_options: Option<String>,
    pub fetch_options: Option<String>,
    pub tag_fetch_options: Option<String>,
    /// Host name to whether its keys are scanned.
    pub keyscan: Option<Vec<(String, bool)>>,
    pub path: Option<String>,
}

/// A checkout setting: on/off, or detailed options.
#[derive(Debug, Clone, PartialEq)]
pub enum CheckoutSetting {
    Bool(bool),
    Config(CheckoutConfig),
}

/// Workflow-level settings.
#[derive(Debug, Clone, PartialEq)]
pub struct WorkflowConfig {
    pub checkout: Option<CheckoutSetting>,
}

/// A parameter of a command or pipeline.
#[derive(Debug, PartialEq)]
pub struct ParameterConfig {
    pub param_type: String,
    pub default: Option<YamlValue>,
    pub description: Option<String>,
}

/// A step of a reusable command.
#[derive(Debug, PartialEq)]
pub enum CommandStep {
    /// A named shell command, optionally conditional.
    Simple { name: String, run: String, when: Option<String> },
    /// A reference to another command by name.
    CommandRef(String),
    /// A step given as raw YAML.
    Raw(YamlValue),
}

/// A reusable command.
#[derive(Debug, PartialEq)]
pub struct Command {
    pub description: String,
    pub parameters: Option<Vec<(String, ParameterConfig)>>,
    pub steps: Vec<CommandStep>,
}

/// Environment of a service: name-value pairs, or `KEY=value` entries.
#[derive(Debug, Clone, PartialEq)]
pub enum ServiceEnvironment {
    Pairs(Vec<(String, String)>),
    Array(Vec<String>),
}

/// A service container.
#[derive(Debug, Clone, PartialEq)]
pub struct Service {
    pub image: String,
    pub environment: Option<ServiceEnvironment>,
    /// Name of the credentials to pull the image with.
    pub auth: Option<String>,
}

/// Where a cache's paths come from: a path, or detection by file names.
#[derive(Debug, Clone, PartialEq)]
pub enum PathOrDetect {
    Path(String),
    Detect(Vec<String>),
}

/// A named cache: its key template and its paths.
#[derive(Debug, Clone, PartialEq)]
pub struct CacheDefinition {
    pub key: Option<String>,
    pub paths: Option<Vec<PathOrDetect>>,
}

/// A cache that a job declares.
#[derive(Debug, Clone, PartialEq)]
pub struct JobCache {
    pub paths: Vec<String>,
    /// Whether the cache is restored before the job's steps.
    pub restore: bool,
}

/// A cache that a job restores by name.
#[derive(Debug, Clone, PartialEq)]
pub enum CacheRestore {
    Simple(String),
    Complex { name: String, dependency: Option<bool> },
}

/// The jobs a job requires: one, or several.
#[derive(Debug, Clone, PartialEq)]
pub enum JobRequires {
    Single(String),
    Multiple(Vec<String>),
}

/// The required jobs as a list.
pub open spec fn requires_list(r: JobRequires) -> Seq<Seq<char>> {
    match r {
        JobRequires::Single(s) => seq![s@],
        JobRequires::Multiple(v) => v@.map_values(|s: String| s@),
    }
}

/// The required jobs of an optional requirement.
pub open spec fn opt_requires_list(r: Option<JobRequires>) -> Option<Seq<Seq<char>>> {
    match r {
        Some(x) => Some(requires_list(x)),
        None => None,
    }
}

impl JobRequires {
    /// The required jobs as a list.
    pub fn to_vec(&self) -> (r: Vec<String>)
        ensures
            r@.map_values(|s: String| s@) == requires_list(*self),
    {
        match self {
            JobRequires::Single(s) => {
                let mut v: Vec<String> = Vec::new();
                v.push(crate::strutil::to_owned_string(s.as_str()));
                assert(v@.map_values(|s: String| s@) =~= requires_list(*self));
                v
            },
            JobRequires::Multiple(v) => crate::strutil::copy_strings(v),
        }
    }
}

/// A job as the generators see it.
#[derive(Debug, PartialEq)]
pub struct Job {
    /// Image name or full image reference.
    pub image: String,
    pub architectures: Option<Vec<String>>,
    pub resource_class: Option<String>,
    pub source_files: Option<Vec<String>>,
    /// Git submodules whose commits count among the job's sources.
    pub source_submodules: Option<Vec<String>>,
    pub parallelism: Option<u32>,
    pub requires: Option<JobRequires>,
    pub services: Option<Vec<String>>,
    /// Steps as raw YAML.
    pub steps: Option<Vec<YamlValue>>,
    pub checkout: Option<CheckoutSetting>,
    pub job_type: Option<String>,
    pub cache: Option<Vec<(String, JobCache)>>,
    pub restore_cache: Option<Vec<CacheRestore>>,
    pub env: Option<Vec<(String, String)>>,
}

/// Where job completion is recorded.
#[derive(Debug, PartialEq)]
pub struct JobStatusCache {
    /// `native` (the provider's cache) or `redis`.
    pub backend: String,
    /// Backend settings (for redis: `url`, `ttl_seconds`).
    pub config: Option<Vec<(String, YamlValue)>>,
}

/// Cache settings of the configuration.
#[derive(Debug, PartialEq)]
pub struct CachesConfig {
    pub job_status: Option<JobStatusCache>,
}

/// The configuration as the generators see it.
#[derive(Debug, PartialEq)]
pub struct Config {
    pub provider: String,
    pub docker_images: Option<Vec<(String, DockerImageConfig)>>,
    pub docker: Option<DockerConfig>,
    pub docker_build: Option<DockerBuildConfig>,
    pub checkout: Option<CheckoutSetting>,
    pub services: Option<Vec<(String, Service)>>,
    pub source_file_groups: Option<Vec<(String, Vec<String>)>>,
    pub cache_definitions: Option<Vec<(String, CacheDefinition)>>,
    pub workflows: Option<Vec<(String, WorkflowConfig)>>,
    /// Whether CircleCI dynamic configuration (a setup workflow) is used.
    pub dynamic: Option<bool>,
    pub caches: Option<CachesConfig>,
    /// Whether the generated CircleCI configuration is a setup configuration.
    pub setup: Option<bool>,
    /// Pipeline parameters.
    pub parameters: Option<Vec<(String, ParameterConfig)>>,
    /// Orbs by name, with their references.
    pub orbs: Option<Vec<(String, String)>>,
    /// Options of the synthesized setup job.
    pub setup_options: Option<SetupOptions>,
    /// Name of the file the configuration is written to.
    pub output_filename: Option<String>,
}

/// The check that the committed entrypoint configuration is up to date.
#[derive(Debug, Clone, PartialEq)]
pub struct SelfCheck {
    pub enabled: bool,
    /// Whether drift is committed back (and the job still fails).
    pub commit_on_diff: Option<bool>,
}

/// Options of the synthesized setup job.
#[derive(Debug, Clone, PartialEq)]
pub struct SetupOptions {
    /// The image the setup job runs on.
    pub runtime_image: Option<String>,
    pub self_check: Option<SelfCheck>,
}

impl Job {
    /// A job on `image` with nothing else set.
    pub fn new(image: String) -> (r: Self)
        ensures
            r.image == image,
            r.architectures is None && r.resource_class is None && r.source_files is None,
            r.source_submodules is None,
            r.parallelism is None && r.requires is None && r.services is None && r.steps is None,
            r.checkout is None && r.job_type is None && r.cache is None && r.restore_cache is None,
            r.env is None,
    {
        Job {
            image,
            architectures: None,
            resource_class: None,
            source_files: None,
            source_submodules: None,
            parallelism: None,
            requires: None,
            services: None,
            steps: None,
            checkout: None,
            job_type: None,
            cache: None,
            restore_cache: None,
            env: None,
        }
    }
}

impl Config {
    /// A configuration for `provider` with nothing else set.
    pub fn new(provider: String) -> (r: Self)
        ensures
            r.provider == provider,
            r.docker_images is None,
            r.docker is None,
            r.docker_build is None,
            r.checkout is None,
            r.services is None,
            r.source_file_groups is None,
            r.cache_definitions is None,
            r.workflows is None,
            r.dynamic is None,
            r.caches is None,
            r.setup is None,
            r.parameters is None,
            r.orbs is None,
            r.setup_options is None,
            r.output_filename is None,
    {
        Config {
            provider,
            docker_images: None,
            docker: None,
            docker_build: None,
            checkout: None,
            services: None,
            source_file_groups: None,
            cache_definitions: None,
            workflows: None,
            dynamic: None,
            caches: None,
            setup: None,
            parameters: None,
            orbs: None,
            setup_options: None,
            output_filename: None,
        }
    }
}

/// The value paired with the first occurrence of `key`, if any.
pub open spec fn lookup<V>(entries: Seq<(String, V)>, key: Seq<char>) -> Option<V>
    decreases entries.len(),
{
    if entries.len() == 0 {
        None
    } else if entries[0].0@ == key {
        Some(entries[0].1)
    } else {
        lookup(entries.subrange(1, entries.len() as int), key)
    }
}

/// `lookup` finds the entry at the first index whose name is `key`.
pub proof fn lemma_lookup<V>(entries: Seq<(String, V)>, key: Seq<char>)
    ensures
        lookup(entries, key) is None <==> forall|j: int| 0 <= j < entries.len() ==> (#[trigger] entries[j]).0@ != key,
        lookup(entries, key) matches Some(v) ==> exists|i: int| 0 <= i < entries.len()
            && (#[trigger] entries[i]).0@ == key && entries[i].1 == v
            && forall|j: int| 0 <= j < i ==> (#[trigger] entries[j]).0@ != key,
    decreases entries.len(),
{
    if entries.len() > 0 && entries[0].0@ != key {
        let rest = entries.subrange(1, entries.len() as int);
        lemma_lookup(rest, key);
        assert forall|j: int| 1 <= j < entries.len() implies entries[j] == rest[j - 1] by {}
        if lookup(rest, key) is None {
            assert forall|j: int| 0 <= j < entries.len() implies (#[trigger] entries[j]).0@ != key by {
                if j > 0 {
                    assert(rest[j - 1] == entries[j]);
                }
            }
        } else {
            let i = choose|i: int| 0 <= i < rest.len() && (#[trigger] rest[i]).0@ == key
                && rest[i].1 == lookup(rest, key)->0
                && forall|j: int| 0 <= j < i ==> (#[trigger] rest[j]).0@ != key;
            assert(entries[i + 1] == rest[i]);
            assert forall|j: int| 0 <= j < i + 1 implies (#[trigger] entries[j]).0@ != key by {
                if j > 0 {
                    assert(rest[j - 1] == entries[j]);
                }
            }
        }
    } else if entries.len() > 0 {
        assert(entries[0].0@ == key);
    }
}

/// Finds the value for `key` in an ordered list of pairs (the first match).
pub fn find_entry<'a, V>(entries: &'a Vec<(String, V)>, key: &str) -> (r: Option<&'a V>)
    ensures
        match r {
            Some(v) => lookup(entries@, key@) == Some(*v),
            None => lookup(entries@, key@) is None,
        },
{
    proof {
        lemma_lookup(entries@, key@);
    }
    let n = entries.len();
    let mut i: usize = 0;
    while i < n
        invariant
            n == entries@.len(),
            i <= n,
            forall|j: int| 0 <= j < i ==> (#[trigger] entries@[j]).0@ != key@,
        decreases n - i,
    {
        if crate::strutil::str_eq(entries[i].0.as_str(), key) {
            proof {
                lemma_lookup_at(entries@, key@, i as int);
            }
            return Some(&entries[i].1);
        }
        i = i + 1;
    }
    None
}

/// If `i` is the first index named `key`, `lookup` gives its value.
pub proof fn lemma_lookup_at<V>(entries: Seq<(String, V)>, key: Seq<char>, i: int)
    requires
        0 <= i < entries.len(),
        entries[i].0@ == key,
        forall|j: int| 0 <= j < i ==> (#[trigger] entries[j]).0@ != key,
    ensures
        lookup(entries, key) == Some(entries[i].1),
    decreases i,
{
    if i > 0 {
        let rest = entries.subrange(1, entries.len() as int);
        assert forall|j: int| 0 <= j < i - 1 implies (#[trigger] rest[j]).0@ != key by {
            assert(rest[j] == entries[j + 1]);
        }
        assert(rest[i - 1] == entries[i]);
        lemma_lookup_at(rest, key, i - 1);
        assert(entries[0].0@ != key);
    }
}

/// Whether an entry named `key` exists.
pub open spec fn has_key<V>(entries: Seq<(String, V)>, key: Seq<char>) -> bool {
    exists|i: int| 0 <= i < entries.len() && (#[trigger] entries[i]).0@ == key
}

} // verus!

verus! {

/// The map that a list of pairs stands for: each pair written in turn, so that a
/// later pair with the same name replaces an earlier one.
pub open spec fn pairs_map<V>(s: Seq<(String, V)>) -> Map<Seq<char>, V>
    decreases s.len(),
{
    if s.len() == 0 {
        Map::empty()
    } else {
        pairs_map(s.drop_last()).insert(s.last().0@, s.last().1)
    }
}

/// No two pairs have the same name.
pub open spec fn unique_keys<V>(s: Seq<(String, V)>) -> bool {
    forall|i: int, j: int| 0 <= i < j < s.len() ==> (#[trigger] s[i]).0@ != (#[trigger] s[j]).0@
}

/// With unique names, the map holds exactly the listed names, each with its value.
pub proof fn lemma_pairs_map_unique<V>(s: Seq<(String, V)>)
    requires
        unique_keys(s),
    ensures
        forall|k: Seq<char>| #[trigger] pairs_map(s).dom().contains(k) <==> has_key(s, k),
        forall|i: int| 0 <= i < s.len() ==> pairs_map(s)[(#[trigger] s[i]).0@] == s[i].1,
    decreases s.len(),
{
    if s.len() > 0 {
        let t = s.drop_last();
        assert(unique_keys(t)) by {
            assert forall|i: int, j: int| 0 <= i < j < t.len() implies (#[trigger] t[i]).0@ != (#[trigger] t[j]).0@ by {
                assert(t[i] == s[i] && t[j] == s[j]);
            }
        }
        lemma_pairs_map_unique(t);
        assert forall|k: Seq<char>| #[trigger] pairs_map(s).dom().contains(k) <==> has_key(s, k) by {
            if has_key(s, k) {
                let i = choose|i: int| 0 <= i < s.len() && (#[trigger] s[i]).0@ == k;
                if i < s.len() - 1 {
                    assert(t[i] == s[i]);
                    assert(has_key(t, k));
                }
            }
            if pairs_map(s).dom().contains(k) && k != s.last().0@ {
                assert(pairs_map(t).dom().contains(k));
                assert(has_key(t, k));
                let i = choose|i: int| 0 <= i < t.len() && (#[trigger] t[i]).0@ == k;
                assert(s[i] == t[i]);
            }
        }
        assert forall|i: int| 0 <= i < s.len() implies pairs_map(s)[(#[trigger] s[i]).0@] == s[i].1 by {
            if i < s.len() - 1 {
                assert(t[i] == s[i]);
                assert(s[i].0@ != s[s.len() - 1].0@);
            }
        }
    }
}

/// Writes `value` under `key`: replaces the pair named `key`, or appends one.
pub fn map_insert<V>(entries: &mut Vec<(String, V)>, key: String, value: V)
    requires
        unique_keys(old(entries)@),
    ensures
        unique_keys(final(entries)@),
        pairs_map(final(entries)@) == pairs_map(old(entries)@).insert(key@, value),
{
    proof {
        lemma_pairs_map_unique(entries@);
    }
    let ghost s = entries@;
    let n = entries.len();
    let mut i: usize = 0;
    while i < n
        invariant
            n == entries@.len(),
            entries@ == s,
            s == old(entries)@,
            unique_keys(s),
            i <= n,
            forall|j: int| 0 <= j < i ==> (#[trigger] s[j]).0@ != key@,
        decreases n - i,
    {
        if crate::strutil::str_eq(entries[i].0.as_str(), key.as_str()) {
            let ghost kv = key@;
            assert(s[i as int].0@ == kv);
            entries.set(i, (key, value));
            proof {
                let u = entries@;
                assert(u[i as int].0@ == kv);
                assert(u[i as int].1 == value);
                assert(u == s.update(i as int, u[i as int]));
                assert(unique_keys(u)) by {
                    assert forall|a: int, b: int| 0 <= a < b < u.len() implies (#[trigger] u[a]).0@ != (#[trigger] u[b]).0@ by {
                        if a != i && b != i {
                            assert(u[a] == s[a] && u[b] == s[b]);
                        } else if a == i {
                            assert(u[b] == s[b]);
                            assert(s[a].0@ == kv);
                        } else {
                            assert(u[a] == s[a]);
                            assert(s[b].0@ == kv);
                        }
                    }
                }
                lemma_pairs_map_unique(u);
                lemma_pairs_map_unique(s);
                assert(pairs_map(u) =~= pairs_map(s).insert(kv, u[i as int].1)) by {
                    assert forall|k: Seq<char>| pairs_map(u).dom().contains(k) <==> pairs_map(s).insert(kv, u[i as int].1).dom().contains(k) by {
                        if has_key(u, k) {
                            let j = choose|j: int| 0 <= j < u.len() && (#[trigger] u[j]).0@ == k;
                            if j != i { assert(u[j] == s[j]); assert(has_key(s, k)); }
                        }
                        if has_key(s, k) {
                            let j = choose|j: int| 0 <= j < s.len() && (#[trigger] s[j]).0@ == k;
                            if j != i { assert(u[j] == s[j]); }
                            assert(has_key(u, k));
                        }
                        if k == kv { assert(u[i as int].0@ == kv); assert(has_key(u, k)); }
                        assert(pairs_map(u).dom().contains(k) == has_key(u, k));
                        assert(pairs_map(s).dom().contains(k) == has_key(s, k));
                    }
                    assert forall|k: Seq<char>| #[trigger] pairs_map(u).dom().contains(k) implies pairs_map(u)[k] == pairs_map(s).insert(kv, u[i as int].1)[k] by {
                        assert(has_key(u, k));
                        let j = choose|j: int| 0 <= j < u.len() && (#[trigger] u[j]).0@ == k;
                        if j != i { assert(u[j] == s[j]); assert(pairs_map(s)[s[j].0@] == s[j].1); }
                        assert(pairs_map(u)[u[j].0@] == u[j].1);
                    }
                }
            }
            return;
        }
        i = i + 1;
    }
    entries.push((key, value));
    proof {
        let u = entries@;
        assert(u.drop_last() =~= s);
        assert(unique_keys(u)) by {
            assert forall|a: int, b: int| 0 <= a < b < u.len() implies (#[trigger] u[a]).0@ != (#[trigger] u[b]).0@ by {
                assert(u[a] == s[a]);
                if b < s.len() { assert(u[b] == s[b]); }
            }
        }
    }
}

/// The value written under `key`, in a list without repeated names.
pub fn map_get<'a, V>(entries: &'a Vec<(String, V)>, key: &str) -> (r: Option<&'a V>)
    requires
        unique_keys(entries@),
    ensures
        match r {
            Some(v) => pairs_map(entries@).dom().contains(key@) && pairs_map(entries@)[key@] == *v,
            None => !pairs_map(entries@).dom().contains(key@),
        },
{
    proof {
        lemma_pairs_map_unique(entries@);
    }
    let n = entries.len();
    let mut i: usize = 0;
    while i < n
        invariant
            n == entries@.len(),
            unique_keys(entries@),
            i <= n,
            forall|j: int| 0 <= j < i ==> (#[trigger] entries@[j]).0@ != key@,
        decreases n - i,
    {
        if crate::strutil::str_eq(entries[i].0.as_str(), key) {
            assert(entries@[i as int].0@ == key@);
            proof { lemma_pairs_map_unique(entries@); }
            assert(pairs_map(entries@)[entries@[i as int].0@] == entries@[i as int].1);
            return Some(&entries[i].1);
        }
        i = i + 1;
    }
    proof {
        if has_key(entries@, key@) {
            let j = choose|j: int| 0 <= j < entries@.len() && (#[trigger] entries@[j]).0@ == key@;
            assert(entries@[j].0@ != key@);
        }
    }
    None
}

} // verus!
