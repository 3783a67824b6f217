//! Cache restore steps for GitHub Actions (`actions/cache@v4`). The cache action
//! saves on success by itself, so only restore steps are generated.

use vstd::prelude::*;
use vstd::string::*;
use crate::models::{Config, Job, CacheDefinition, CacheRestore, PathOrDetect, lookup, find_entry};
use crate::strutil::{to_owned_string, replace_all, spec_replace, join, join_strings, strs_view, opt_str_view};
use crate::yaml::{YamlValue, YamlView, ystr};
use super::schema::Step;

verus! {

broadcast use vstd::string::group_string_axioms;

/// What rewriting CircleCI `{{ checksum "file" }}` calls (quoted either way, with or
/// without parentheses) into GitHub `${{ hashFiles('file') }}` calls gives.
pub uninterp spec fn checksum_rewrite(s: Seq<char>) -> Seq<char>;

/// Rewrites CircleCI checksum calls into GitHub `hashFiles` calls.
///
/// Trusted: calls `regex::Regex::new` on a fixed, valid pattern and then
/// `Regex::replace_all`; the result is only named, as `checksum_rewrite` of the input.
#[verifier::external_body]
fn rewrite_checksum_calls(s: &str) -> (r: String)
    ensures
        r@ == checksum_rewrite(s@),
{
    let re = regex::Regex::new(r#"\{\{\s*checksum\s*\(?\s*["']([^"']+)["']\s*\)?\s*\}\}"#).expect("valid pattern");
    re.replace_all(s, "$${{ hashFiles('$1') }}").into_owned()
}

/// Generates cache restore steps.
pub struct CacheGenerator {}

/// The key of a cache when its definition gives no key template.
pub open spec fn default_cache_key(cache_name: Seq<char>, architecture: Seq<char>) -> Seq<char> {
    "${{ runner.os }}-"@ + architecture + "-"@ + cache_name + "-${{ hashFiles('**/lockfile') }}"@
}

/// The fallback key prefix of a cache.
pub open spec fn restore_key_prefix(cache_name: Seq<char>, architecture: Seq<char>) -> Seq<char> {
    "${{ runner.os }}-"@ + architecture + "-"@ + cache_name + "-"@
}

/// A CircleCI key template converted: `{{ arch }}` replaced by the architecture,
/// then checksum calls rewritten.
pub open spec fn spec_convert_cache_key_template(template: Seq<char>, architecture: Seq<char>) -> Seq<char> {
    checksum_rewrite(spec_replace(template, "{{ arch }}"@, architecture))
}

/// The key of a cache: its definition's template converted, else the default key.
pub open spec fn spec_cache_key(cache_name: Seq<char>, cache_config: Option<CacheDefinition>, architecture: Seq<char>) -> Seq<char> {
    match cache_config {
        Some(c) => match c.key {
            Some(t) => spec_convert_cache_key_template(t@, architecture),
            None => default_cache_key(cache_name, architecture),
        },
        None => default_cache_key(cache_name, architecture),
    }
}

/// The definition of a named cache in the configuration.
pub open spec fn cache_definition(config: Config, cache_name: Seq<char>) -> Option<CacheDefinition> {
    match config.cache_definitions {
        Some(defs) => lookup(defs@, cache_name),
        None => None,
    }
}

/// The paths of a cache definition that are given as paths.
pub open spec fn definition_paths(cache_config: Option<CacheDefinition>) -> Seq<Seq<char>>
{
    match cache_config {
        Some(c) => match c.paths {
            Some(ps) => given_paths(ps@),
            None => Seq::empty(),
        },
        None => Seq::empty(),
    }
}

/// The entries given as paths, in order.
pub open spec fn given_paths(ps: Seq<PathOrDetect>) -> Seq<Seq<char>>
    decreases ps.len(),
{
    if ps.len() == 0 {
        Seq::empty()
    } else {
        given_paths(ps.drop_last()) + match ps.last() {
            PathOrDetect::Path(p) => seq![p@],
            PathOrDetect::Detect(_) => Seq::empty(),
        }
    }
}

/// The view of a list of named values.
pub open spec fn with_view(w: Seq<(String, YamlValue)>) -> Seq<(Seq<char>, YamlView)> {
    w.map_values(|p: (String, YamlValue)| (p.0@, p.1@))
}

/// A restore step of `actions/cache@v4` for a cache with these paths and keys.
pub open spec fn is_cache_step(step: Step, cache_name: Seq<char>, paths: Seq<Seq<char>>, key: Seq<char>, restore_keys: Seq<Seq<char>>) -> bool {
    &&& step.id is None
    &&& opt_str_view(step.name) == Some("Restore "@ + cache_name + " cache"@)
    &&& opt_str_view(step.uses) == Some("actions/cache@v4"@)
    &&& step.run is None
    &&& step.with matches Some(w) && with_view(w@) == seq![
            ("path"@, YamlView::Str(join(paths, "\n"@))),
            ("key"@, YamlView::Str(key)),
            ("restore-keys"@, YamlView::Str(join(restore_keys, "\n"@))),
        ]
    &&& step.env is None && step.condition is None && step.working_directory is None
    &&& step.shell is None && step.continue_on_error is None && step.timeout_minutes is None
}

/// The restore step of a cache that a job declares, with its paths.
pub open spec fn is_job_cache_step(step: Step, config: Config, cache_name: Seq<char>, paths: Seq<Seq<char>>, architecture: Seq<char>) -> bool {
    is_cache_step(step, cache_name, paths,
        spec_cache_key(cache_name, cache_definition(config, cache_name), architecture),
        seq![restore_key_prefix(cache_name, architecture)])
}

/// The restore step of a cache that a job restores by name, with its definition's paths.
pub open spec fn is_restore_cache_step(step: Step, config: Config, cache_name: Seq<char>, architecture: Seq<char>) -> bool {
    is_job_cache_step(step, config, cache_name, definition_paths(cache_definition(config, cache_name)), architecture)
}

/// The name of a restored cache.
pub open spec fn restore_name(c: CacheRestore) -> Seq<char> {
    match c {
        CacheRestore::Simple(n) => n@,
        CacheRestore::Complex { name, .. } => name@,
    }
}

/// The declared caches that are restored, by name and paths.
pub open spec fn restored_job_caches(caches: Seq<(String, crate::models::JobCache)>) -> Seq<(Seq<char>, Seq<Seq<char>>)>
    decreases caches.len(),
{
    if caches.len() == 0 {
        Seq::empty()
    } else {
        restored_job_caches(caches.drop_last()) + if caches.last().1.restore {
            seq![(caches.last().0@, strs_view(caches.last().1.paths@))]
        } else {
            Seq::empty()
        }
    }
}

/// The declared caches of a job that are restored.
pub open spec fn declared_restores(job: Job) -> Seq<(Seq<char>, Seq<Seq<char>>)> {
    match job.cache {
        Some(c) => restored_job_caches(c@),
        None => Seq::empty(),
    }
}

/// The steps for a job: a restore step for each declared cache that is
/// restored, in order, then one for each cache it restores by name.
pub open spec fn cache_steps_ok(steps: Seq<Step>, config: Config, job: Job, architecture: Seq<char>) -> bool {
    let declared = declared_restores(job);
    let by_name = match job.restore_cache { Some(r) => r@, None => Seq::empty() };
    &&& steps.len() == declared.len() + by_name.len()
    &&& forall|j: int| 0 <= j < declared.len() ==> is_job_cache_step(#[trigger] steps[j], config, declared[j].0, declared[j].1, architecture)
    &&& forall|j: int| 0 <= j < by_name.len() ==> is_restore_cache_step(#[trigger] steps[declared.len() + j], config, restore_name(by_name[j]), architecture)
}

impl CacheGenerator {
    /// A cache step generator.
    pub fn new() -> (r: Self) {
        CacheGenerator {}
    }

    /// Converts a CircleCI cache key template to GitHub Actions form.
    pub fn convert_cache_key_template(&self, template: &str, architecture: &str) -> (r: String)
        ensures
            r@ == spec_convert_cache_key_template(template@, architecture@),
    {
        proof { reveal_strlit("{{ arch }}"); }
        let replaced = replace_all(template, "{{ arch }}", architecture);
        rewrite_checksum_calls(replaced.as_str())
    }

    /// The cache key and the fallback key prefixes.
    pub fn generate_cache_keys(&self, cache_name: &str, cache_config: Option<&CacheDefinition>, architecture: &str) -> (r: (String, Vec<String>))
        ensures
            r.0@ == spec_cache_key(cache_name@, match cache_config { Some(c) => Some(*c), None => None }, architecture@),
            strs_view(r.1@) == seq![restore_key_prefix(cache_name@, architecture@)],
    {
        let template: Option<&String> = match cache_config {
            Some(c) => match &c.key {
                Some(t) => Some(t),
                None => None,
            },
            None => None,
        };
        let key = match template {
            Some(t) => self.convert_cache_key_template(t.as_str(), architecture),
            None => {
                let mut k = to_owned_string("${{ runner.os }}-");
                k.append(architecture);
                k.append("-");
                k.append(cache_name);
                k.append("-${{ hashFiles('**/lockfile') }}");
                k
            },
        };
        let mut prefix = to_owned_string("${{ runner.os }}-");
        prefix.append(architecture);
        prefix.append("-");
        prefix.append(cache_name);
        prefix.append("-");
        let mut restore_keys: Vec<String> = Vec::new();
        restore_keys.push(prefix);
        assert(strs_view(restore_keys@) =~= seq![restore_key_prefix(cache_name@, architecture@)]);
        (key, restore_keys)
    }

    /// A restore step for a cache with these paths and keys.
    fn cache_step(&self, cache_name: &str, paths: &Vec<String>, key: String, restore_keys: &Vec<String>) -> (r: Step)
        ensures
            is_cache_step(r, cache_name@, strs_view(paths@), key@, strs_view(restore_keys@)),
    {
        let mut with: Vec<(String, YamlValue)> = Vec::new();
        let path_text = join_strings(paths, "\n");
        let restore_text = join_strings(restore_keys, "\n");
        with.push((to_owned_string("path"), YamlValue::Str(path_text)));
        with.push((to_owned_string("key"), YamlValue::Str(key)));
        with.push((to_owned_string("restore-keys"), YamlValue::Str(restore_text)));
        let mut name = to_owned_string("Restore ");
        name.append(cache_name);
        name.append(" cache");
        let mut step = Step::empty();
        step.name = Some(name);
        step.uses = Some(to_owned_string("actions/cache@v4"));
        proof {
            assert(with_view(with@) =~= seq![
                ("path"@, YamlView::Str(join(strs_view(paths@), "\n"@))),
                ("key"@, YamlView::Str(key@)),
                ("restore-keys"@, YamlView::Str(join(strs_view(restore_keys@), "\n"@))),
            ]);
        }
        step.with = Some(with);
        step
    }

    /// The restore step of a cache that a job declares.
    pub fn build_cache_step_from_job_cache(&self, config: &Config, cache_name: &str, paths: &Vec<String>, architecture: &str) -> (r: Step)
        ensures
            is_job_cache_step(r, *config, cache_name@, strs_view(paths@), architecture@),
    {
        let cache_config = match &config.cache_definitions {
            Some(defs) => find_entry(defs, cache_name),
            None => None,
        };
        let (key, restore_keys) = self.generate_cache_keys(cache_name, cache_config, architecture);
        self.cache_step(cache_name, paths, key, &restore_keys)
    }

    /// The restore step of a cache restored by name: the paths are those of its definition.
    pub fn build_cache_step_from_restore(&self, config: &Config, cache_name: &str, architecture: &str) -> (r: Step)
        ensures
            is_restore_cache_step(r, *config, cache_name@, architecture@),
    {
        let cache_config = match &config.cache_definitions {
            Some(defs) => find_entry(defs, cache_name),
            None => None,
        };
        let (key, restore_keys) = self.generate_cache_keys(cache_name, cache_config, architecture);
        let mut paths: Vec<String> = Vec::new();
        match cache_config {
            Some(c) => match &c.paths {
                Some(ps) => {
                    let n = ps.len();
                    let mut i: usize = 0;
                    while i < n
                        invariant
                            n == ps@.len(),
                            i <= n,
                            strs_view(paths@) == given_paths(ps@.subrange(0, i as int)),
                        decreases n - i,
                    {
                        proof {
                            let sub = ps@.subrange(0, i + 1);
                            assert(sub.drop_last() =~= ps@.subrange(0, i as int));
                        }
                        match &ps[i] {
                            PathOrDetect::Path(p) => {
                                let ghost before = strs_view(paths@);
                                paths.push(to_owned_string(p.as_str()));
                                assert(strs_view(paths@) =~= before + seq![p@]);
                            },
                            PathOrDetect::Detect(_) => {},
                        }
                        i = i + 1;
                    }
                    assert(ps@.subrange(0, n as int) =~= ps@);
                },
                None => {
                    assert(strs_view(paths@) =~= Seq::<Seq<char>>::empty());
                },
            },
            None => {
                assert(strs_view(paths@) =~= Seq::<Seq<char>>::empty());
            },
        }
        self.cache_step(cache_name, &paths, key, &restore_keys)
    }

    /// The cache restore steps of a job: one per declared cache that is
    /// restored, then one per cache it restores by name.
    pub fn generate_cache_steps(&self, config: &Config, job: &Job, architecture: &str) -> (r: Vec<Step>)
        ensures
            cache_steps_ok(r@, *config, *job, architecture@),
    {
        let mut steps: Vec<Step> = Vec::new();
        let ghost declared = declared_restores(*job);
        match &job.cache {
            Some(defs) => {
                let n = defs.len();
                let mut i: usize = 0;
                while i < n
                    invariant
                        n == defs@.len(),
                        i <= n,
                        steps@.len() == restored_job_caches(defs@.subrange(0, i as int)).len(),
                        forall|j: int| 0 <= j < steps@.len() ==> is_job_cache_step(#[trigger] steps@[j], *config,
                            restored_job_caches(defs@.subrange(0, i as int))[j].0, restored_job_caches(defs@.subrange(0, i as int))[j].1, architecture@),
                    decreases n - i,
                {
                    let ghost prev = restored_job_caches(defs@.subrange(0, i as int));
                    proof {
                        let sub = defs@.subrange(0, i + 1);
                        assert(sub.drop_last() =~= defs@.subrange(0, i as int));
                    }
                    if defs[i].1.restore {
                        let step = self.build_cache_step_from_job_cache(config, defs[i].0.as_str(), &defs[i].1.paths, architecture);
                        steps.push(step);
                        proof {
                            let now = restored_job_caches(defs@.subrange(0, i + 1));
                            assert(now == prev + seq![(defs@[i as int].0@, strs_view(defs@[i as int].1.paths@))]);
                            assert forall|j: int| 0 <= j < steps@.len() implies is_job_cache_step(#[trigger] steps@[j], *config, now[j].0, now[j].1, architecture@) by {
                                if j < prev.len() {
                                    assert(now[j] == prev[j]);
                                }
                            }
                        }
                    } else {
                        proof {
                            let now = restored_job_caches(defs@.subrange(0, i + 1));
                            assert(now =~= prev);
                        }
                    }
                    i = i + 1;
                }
                assert(defs@.subrange(0, n as int) =~= defs@);
            },
            None => {},
        }
        let base = steps.len();
        match &job.restore_cache {
            Some(restores) => {
                let n = restores.len();
                let mut i: usize = 0;
                while i < n
                    invariant
                        n == restores@.len(),
                        i <= n,
                        base == declared.len(),
                        declared == declared_restores(*job),
                        steps@.len() == base + i,
                        forall|j: int| 0 <= j < declared.len() ==> is_job_cache_step(#[trigger] steps@[j], *config, declared[j].0, declared[j].1, architecture@),
                        forall|j: int| 0 <= j < i ==> is_restore_cache_step(#[trigger] steps@[base + j], *config, restore_name(restores@[j]), architecture@),
                    decreases n - i,
                {
                    let name: &String = match &restores[i] {
                        CacheRestore::Simple(n) => n,
                        CacheRestore::Complex { name, .. } => name,
                    };
                    let step = self.build_cache_step_from_restore(config, name.as_str(), architecture);
                    let ghost before = steps@;
                    steps.push(step);
                    proof {
                        assert forall|j: int| 0 <= j < i + 1 implies is_restore_cache_step(#[trigger] steps@[base + j], *config, restore_name(restores@[j]), architecture@) by {
                            if j < i {
                                assert(steps@[base + j] == before[base + j]);
                            }
                        }
                    }
                    i = i + 1;
                }
            },
            None => {},
        }
        steps
    }
}

} // verus!
