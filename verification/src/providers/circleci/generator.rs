//! Decisions of the CircleCI generator: the steps, images and parameters that
//! go into the generated configuration.

use vstd::prelude::*;
use vstd::string::*;
use crate::models::{Config, Job, CheckoutConfig, CheckoutSetting, WorkflowConfig, ParameterConfig, Service, ServiceEnvironment, Command, CommandStep, lookup, find_entry, pairs_map, unique_keys, map_insert};
use crate::strutil::{opt_str_view, str_pairs_view, copy_str_pairs};
use super::config::{CircleCIParameter, CircleCIDockerImage, CircleCIDockerAuth, CircleCICommand, CircleCIStep, spec_detect_step_type};
use crate::strutil::to_owned_string;
use super::base_hash::{sha256_hex, file_content_hash, base_hash_input};
use crate::yaml::{YamlValue, YamlView, lemma_entry_views_of, entry_views_of, yaml_view, ystr, push_entry, spec_as_str, spec_get};

verus! {

broadcast use vstd::string::group_string_axioms;

/// The CircleCI generator. It remembers the docker base hash and the file
/// hashes that it has computed.
pub struct CircleCIGenerator {
    base_hash_cache: Option<String>,
    file_hash_cache: Vec<(String, String)>,
}

impl CircleCIGenerator {
    /// Nothing has been computed yet.
    pub closed spec fn is_fresh(&self) -> bool {
        self.base_hash_cache is None && self.file_hash_cache@.len() == 0
    }

    /// A generator with empty caches.
    pub fn new() -> (r: Self)
        ensures
            r.is_fresh(),
    {
        CircleCIGenerator { base_hash_cache: None, file_hash_cache: Vec::new() }
    }

    /// The remembered content hash of the file at `path`, if any.
    pub closed spec fn file_hash_of(&self, path: Seq<char>) -> Option<Seq<char>> {
        match lookup(self.file_hash_cache@, path) {
            Some(h) => Some(h@),
            None => None,
        }
    }

    /// The remembered docker base hash, if any.
    pub closed spec fn remembered_base_hash(&self) -> Option<Seq<char>> {
        opt_str_view(self.base_hash_cache)
    }

    /// A fresh generator remembers no file hash and no base hash.
    pub proof fn lemma_fresh(&self)
        requires
            self.is_fresh(),
        ensures
            self.remembered_base_hash() is None,
            forall|p: Seq<char>| self.file_hash_of(p) is None,
    {
    }

    /// The content hash remembered for the file at `path`, if any.
    pub fn cached_file_hash(&self, path: &str) -> (r: Option<String>)
        ensures
            opt_str_view(r) == self.file_hash_of(path@),
    {
        match find_entry(&self.file_hash_cache, path) {
            Some(h) => Some(to_owned_string(h.as_str())),
            None => None,
        }
    }

    /// Hashes a file's content and remembers the hash for its path; other
    /// paths and the base hash are left as they were.
    pub fn record_file_hash(&mut self, path: &str, content: &Vec<u8>) -> (r: String)
        ensures
            r@ == sha256_hex(content@),
            final(self).file_hash_of(path@) == Some(r@),
            forall|p: Seq<char>| p != path@ ==> #[trigger] final(self).file_hash_of(p) == old(self).file_hash_of(p),
            final(self).remembered_base_hash() == old(self).remembered_base_hash(),
    {
        let h = file_content_hash(content);
        let ghost before = self.file_hash_cache@;
        self.file_hash_cache.insert(0, (to_owned_string(path), to_owned_string(h.as_str())));
        proof {
            let after = self.file_hash_cache@;
            assert(after.subrange(1, after.len() as int) =~= before);
            assert forall|p: Seq<char>| p != path@ implies #[trigger] lookup(after, p) == lookup(before, p) by {
                assert(after[0].0@ == path@);
            }
        }
        h
    }

    /// The base hash remembered for this generation pass, if any.
    pub fn cached_base_hash(&self) -> (r: Option<String>)
        ensures
            opt_str_view(r) == self.remembered_base_hash(),
    {
        match &self.base_hash_cache {
            Some(h) => Some(to_owned_string(h.as_str())),
            None => None,
        }
    }

    /// Remembers the base hash of this generation pass; file hashes stay.
    pub fn remember_base_hash(&mut self, hash: &str)
        ensures
            final(self).remembered_base_hash() == Some(hash@),
            forall|p: Seq<char>| #[trigger] final(self).file_hash_of(p) == old(self).file_hash_of(p),
    {
        self.base_hash_cache = Some(to_owned_string(hash));
    }

    /// The base hash of this generation pass: the remembered one, else the one
    /// computed over `files` (then remembered); none when docker building is not
    /// enabled and nothing is remembered.
    pub fn get_cached_docker_base_hash(&mut self, config: &Config, files: &Vec<(Option<String>, String)>) -> (r: Option<String>)
        ensures
            match old(self).remembered_base_hash() {
                Some(h) => opt_str_view(r) == Some(h) && final(self).remembered_base_hash() == Some(h),
                None => match config.docker_build {
                    Some(db) => if db.enabled {
                        r matches Some(h) && h@ == sha256_hex(base_hash_input(files@))
                            && final(self).remembered_base_hash() == Some(h@)
                    } else {
                        r is None && final(self).remembered_base_hash() is None
                    },
                    None => r is None && final(self).remembered_base_hash() is None,
                },
            },
            forall|p: Seq<char>| #[trigger] final(self).file_hash_of(p) == old(self).file_hash_of(p),
    {
        match self.cached_base_hash() {
            Some(h) => Some(h),
            None => {
                let computed = self.compute_docker_base_hash(config, files);
                match &computed {
                    Some(h) => self.remember_base_hash(h.as_str()),
                    None => {},
                }
                computed
            },
        }
    }

    /// Forgets the base hash, as each generation pass starts; file hashes stay.
    pub fn reset_base_hash(&mut self)
        ensures
            final(self).remembered_base_hash() is None,
            forall|p: Seq<char>| #[trigger] final(self).file_hash_of(p) == old(self).file_hash_of(p),
    {
        self.base_hash_cache = None;
    }
}

/// A string value.
pub open spec fn vstr(s: Seq<char>) -> YamlView {
    YamlView::Str(s)
}

/// A `run` step with a name and a command.
pub open spec fn run_step_view(name: Seq<char>, command: Seq<char>) -> YamlView {
    YamlView::Mapping(seq![(vstr("run"@), YamlView::Mapping(seq![
        (vstr("name"@), vstr(name)),
        (vstr("command"@), vstr(command)),
    ]))])
}

/// A mapping value holding `entries`, whose view is the entries' views.
pub fn ymap(entries: Vec<(YamlValue, YamlValue)>) -> (r: YamlValue)
    ensures
        r@ == YamlView::Mapping(entry_views_of(entries@)),
        entry_views_of(entries@).len() == entries@.len(),
        forall|j: int| 0 <= j < entries@.len() ==> #[trigger] entry_views_of(entries@)[j] == (entries@[j].0@, entries@[j].1@),
{
    proof {
        lemma_entry_views_of(entries@);
    }
    YamlValue::Mapping(entries)
}

/// A `run` step with a name and a command.
pub fn run_step(name: &str, command: &str) -> (r: YamlValue)
    ensures
        r@ == run_step_view(name@, command@),
{
    let mut inner: Vec<(YamlValue, YamlValue)> = Vec::new();
    inner.push((ystr("name"), ystr(name)));
    inner.push((ystr("command"), ystr(command)));
    let inner_v = ymap(inner);
    let mut m: Vec<(YamlValue, YamlValue)> = Vec::new();
    m.push((ystr("run"), inner_v));
    let r = ymap(m);
    proof {
        assert(entry_views_of(inner@) =~= seq![(vstr("name"@), vstr(name@)), (vstr("command"@), vstr(command@))]);
        assert(r@ =~= run_step_view(name@, command@));
    }
    r
}

/// Characters that start a glob.
pub open spec fn is_glob_char(c: char) -> bool {
    c == '*' || c == '?' || c == '[' || c == '{'
}

/// Index of the first glob character of `s` from `i` on.
pub open spec fn first_glob_from(s: Seq<char>, i: int) -> Option<int>
    decreases s.len() - i,
{
    if i < 0 || i >= s.len() {
        None
    } else if is_glob_char(s[i]) {
        Some(i)
    } else {
        first_glob_from(s, i + 1)
    }
}

/// Index of the last `/` before index `k`, or 0 if there is none.
pub open spec fn last_slash_before(s: Seq<char>, k: int) -> int
    decreases k,
{
    if k <= 0 {
        0
    } else if s[k - 1] == '/' {
        k - 1
    } else {
        last_slash_before(s, k - 1)
    }
}

/// A glob pattern split into the directory before its first glob character,
/// the rest of the pattern, and whether it has a glob at all. The directory is
/// the text up to the last `/` before the glob, or `.` when there is none (or
/// it is the first character); a pattern without a glob is a literal path.
pub open spec fn spec_split_pattern_root(s: Seq<char>) -> (Seq<char>, Seq<char>, bool) {
    match first_glob_from(s, 0) {
        Some(idx) => {
            let root_end = last_slash_before(s, idx);
            if root_end == 0 {
                ("."@, s, true)
            } else {
                (s.subrange(0, root_end), s.subrange(root_end + 1, s.len() as int), true)
            }
        },
        None => (s, Seq::empty(), false),
    }
}

impl CircleCIGenerator {
    /// Split a glob pattern into (root directory without glob, local glob, has glob).
    pub fn split_pattern_root(pat: &str) -> (r: (String, String, bool))
        ensures
            (r.0@, r.1@, r.2) == spec_split_pattern_root(pat@),
    {
        let n = pat.unicode_len();
        let mut i: usize = 0;
        let mut first_glob: Option<usize> = None;
        while i < n
            invariant_except_break
                first_glob is None,
            invariant
                n == pat@.len(),
                i <= n,
                first_glob_from(pat@, i as int) == first_glob_from(pat@, 0),
            ensures
                first_glob matches Some(idx) ==> idx < n && first_glob_from(pat@, 0) == Some(idx as int),
                first_glob is None ==> first_glob_from(pat@, 0) is None,
            decreases n - i,
        {
            let c = pat.get_char(i);
            if c == '*' || c == '?' || c == '[' || c == '{' {
                first_glob = Some(i);
                assert(first_glob_from(pat@, i as int) == Some(i as int));
                break;
            }
            i = i + 1;
        }
        proof {
            if first_glob is None {
                assert(first_glob_from(pat@, n as int) is None);
            }
        }
        match first_glob {
            Some(idx) => {
                let mut k: usize = idx;
                while k > 0
                    invariant
                        n == pat@.len(),
                        k <= idx < n,
                        last_slash_before(pat@, k as int) == last_slash_before(pat@, idx as int),
                    ensures
                        k > 0 ==> pat@[k - 1] == '/',
                        last_slash_before(pat@, k as int) == last_slash_before(pat@, idx as int),
                    decreases k,
                {
                    if pat.get_char(k - 1) == '/' {
                        break;
                    }
                    k = k - 1;
                }
                let root_end: usize = if k == 0 { 0 } else { k - 1 };
                assert(root_end == last_slash_before(pat@, idx as int));
                proof { reveal_strlit("."); }
                if root_end == 0 {
                    (to_owned_string("."), to_owned_string(pat), true)
                } else {
                    (to_owned_string(pat.substring_char(0, root_end)), to_owned_string(pat.substring_char(root_end + 1, n)), true)
                }
            },
            None => {
                proof {
                    assert(first_glob_from(pat@, n as int) is None);
                }
                (to_owned_string(pat), String::new(), false)
            },
        }
    }
}

/// The checkout setting that applies to a job: the job's own, else its workflow's,
/// else the global one.
pub open spec fn spec_checkout_setting(config: Config, workflow_config: Option<WorkflowConfig>, job: Job) -> Option<CheckoutSetting> {
    match job.checkout {
        Some(s) => Some(s),
        None => match workflow_config {
            Some(w) if w.checkout is Some => w.checkout,
            _ => config.checkout,
        },
    }
}

/// Checkout options when none are given: a shallow clone.
pub open spec fn default_checkout_config() -> CheckoutConfig {
    CheckoutConfig {
        shallow: true,
        clone_options: None,
        fetch_options: None,
        tag_fetch_options: None,
        keyscan: None,
        path: None,
    }
}

/// One `key: value` entry when the option is set, none otherwise.
pub open spec fn opt_str_entry(key: Seq<char>, v: Option<String>) -> Seq<(YamlView, YamlView)> {
    match v {
        Some(s) => seq![(vstr(key), vstr(s@))],
        None => Seq::empty(),
    }
}

/// A `keyscan_<host>: true` entry when keys of `host` are scanned.
pub open spec fn keyscan_entry(keyscan: Seq<(String, bool)>, host: Seq<char>) -> Seq<(YamlView, YamlView)> {
    if lookup(keyscan, host) == Some(true) {
        seq![(vstr("keyscan_"@ + host), YamlView::Bool(true))]
    } else {
        Seq::empty()
    }
}

/// The keyscan entries for GitHub, GitLab and Bitbucket, in that order.
pub open spec fn keyscan_entries(keyscan: Option<Vec<(String, bool)>>) -> Seq<(YamlView, YamlView)> {
    match keyscan {
        Some(ks) => keyscan_entry(ks@, "github"@) + keyscan_entry(ks@, "gitlab"@) + keyscan_entry(ks@, "bitbucket"@),
        None => Seq::empty(),
    }
}

/// The parameters of the shallow checkout command.
pub open spec fn shallow_params(c: CheckoutConfig) -> Seq<(YamlView, YamlView)> {
    opt_str_entry("clone_options"@, c.clone_options)
        + opt_str_entry("fetch_options"@, c.fetch_options)
        + opt_str_entry("tag_fetch_options"@, c.tag_fetch_options)
        + keyscan_entries(c.keyscan)
        + opt_str_entry("path"@, c.path)
}

/// The checkout step for checkout options: the shallow-clone command (bare, or with
/// its parameters), or CircleCI's own checkout (with its path, if one is given).
pub open spec fn checkout_step_view(c: CheckoutConfig) -> YamlView {
    if c.shallow {
        let params = shallow_params(c);
        if params.len() == 0 {
            vstr("cigen_shallow_checkout"@)
        } else {
            YamlView::Mapping(seq![(vstr("cigen_shallow_checkout"@), YamlView::Mapping(params))])
        }
    } else {
        match c.path {
            Some(p) => YamlView::Mapping(seq![(vstr("checkout"@), YamlView::Mapping(seq![(vstr("path"@), vstr(p@))]))]),
            None => YamlView::Mapping(seq![(vstr("checkout"@), YamlView::Null)]),
        }
    }
}

/// The checkout step of a job, if it has one: none when checkout is switched off,
/// the default shallow clone when it is switched on or not set.
pub open spec fn spec_checkout_step(config: Config, workflow_config: Option<WorkflowConfig>, job: Job) -> Option<YamlView> {
    match spec_checkout_setting(config, workflow_config, job) {
        Some(CheckoutSetting::Bool(false)) => None,
        Some(CheckoutSetting::Bool(true)) => Some(checkout_step_view(default_checkout_config())),
        Some(CheckoutSetting::Config(c)) => Some(checkout_step_view(c)),
        None => Some(checkout_step_view(default_checkout_config())),
    }
}

/// Law: the most specific checkout setting decides. A job's own setting gives
/// the same checkout step whatever the workflow and global settings are, and a
/// job that switches checkout off gets none; without one, a workflow's setting
/// gives the same step whatever the global one is; the global setting counts
/// only when neither is set, and then acts as the job's own would; with no
/// setting at all, a job is checked out as if it had switched checkout on.
pub proof fn law_checkout_most_specific_setting_decides(c1: Config, c2: Config, w1: Option<WorkflowConfig>, w2: Option<WorkflowConfig>, job: Job)
    ensures
        job.checkout is Some ==> spec_checkout_step(c1, w1, job) == spec_checkout_step(c2, w2, job),
        job.checkout == Some(CheckoutSetting::Bool(false)) ==> spec_checkout_step(c1, w1, job) is None,
        (job.checkout is None && (w1 matches Some(w) && w.checkout is Some)) ==> spec_checkout_step(c1, w1, job) == spec_checkout_step(c2, w1, job),
        (job.checkout is None && !(w1 matches Some(w) && w.checkout is Some) && c1.checkout is Some)
            ==> spec_checkout_step(c1, w1, job) == spec_checkout_step(c2, w2, Job { checkout: c1.checkout, ..job }),
        (job.checkout is None && !(w1 matches Some(w) && w.checkout is Some) && c1.checkout is None)
            ==> spec_checkout_step(c1, w1, job) == spec_checkout_step(c2, w2, Job { checkout: Some(CheckoutSetting::Bool(true)), ..job }),
        (job.checkout is None && w1 is None && c1.checkout == Some(CheckoutSetting::Bool(false))) ==> spec_checkout_step(c1, w1, job) is None,
{
}

/// The view of an optional value.
pub open spec fn opt_view(v: Option<YamlValue>) -> Option<YamlView> {
    match v {
        Some(x) => Some(x@),
        None => None,
    }
}

/// Appends `key: value` when the option is set.
fn push_opt_str(entries: &mut Vec<(YamlValue, YamlValue)>, key: &str, v: &Option<String>)
    ensures
        entry_views_of(final(entries)@) == entry_views_of(old(entries)@) + opt_str_entry(key@, *v),
{
    match v {
        Some(s) => {
            push_entry(entries, ystr(key), ystr(s.as_str()));
            assert(entry_views_of(entries@) =~= entry_views_of(old(entries)@) + opt_str_entry(key@, *v));
        },
        None => {
            assert(entry_views_of(entries@) =~= entry_views_of(old(entries)@) + opt_str_entry(key@, *v));
        },
    }
}

/// Appends `keyscan_<host>: true` when keys of `host` are scanned.
fn push_keyscan(entries: &mut Vec<(YamlValue, YamlValue)>, keyscan: &Vec<(String, bool)>, host: &str, key: &str)
    requires
        key@ == "keyscan_"@ + host@,
    ensures
        entry_views_of(final(entries)@) == entry_views_of(old(entries)@) + keyscan_entry(keyscan@, host@),
{
    let on = match find_entry(keyscan, host) {
        Some(b) => *b,
        None => false,
    };
    if on {
        push_entry(entries, ystr(key), YamlValue::Bool(true));
    }
    assert(entry_views_of(entries@) =~= entry_views_of(old(entries)@) + keyscan_entry(keyscan@, host@));
}

/// The checkout step for checkout options.
fn checkout_step(c: &CheckoutConfig) -> (r: YamlValue)
    ensures
        r@ == checkout_step_view(*c),
{
    if c.shallow {
        let mut params: Vec<(YamlValue, YamlValue)> = Vec::new();
        proof { lemma_entry_views_of(params@); }
        assert(entry_views_of(params@) =~= Seq::<(YamlView, YamlView)>::empty());
        push_opt_str(&mut params, "clone_options", &c.clone_options);
        push_opt_str(&mut params, "fetch_options", &c.fetch_options);
        push_opt_str(&mut params, "tag_fetch_options", &c.tag_fetch_options);
        let ghost before_keyscan = entry_views_of(params@);
        if let Some(ks) = &c.keyscan {
            proof {
                reveal_strlit("keyscan_github");
                reveal_strlit("keyscan_gitlab");
                reveal_strlit("keyscan_bitbucket");
                reveal_strlit("keyscan_");
                reveal_strlit("github");
                reveal_strlit("gitlab");
                reveal_strlit("bitbucket");
                assert("keyscan_github"@ =~= "keyscan_"@ + "github"@);
                assert("keyscan_gitlab"@ =~= "keyscan_"@ + "gitlab"@);
                assert("keyscan_bitbucket"@ =~= "keyscan_"@ + "bitbucket"@);
            }
            push_keyscan(&mut params, ks, "github", "keyscan_github");
            push_keyscan(&mut params, ks, "gitlab", "keyscan_gitlab");
            push_keyscan(&mut params, ks, "bitbucket", "keyscan_bitbucket");
        }
        assert(entry_views_of(params@) =~= before_keyscan + keyscan_entries(c.keyscan));
        push_opt_str(&mut params, "path", &c.path);
        assert(entry_views_of(params@) =~= shallow_params(*c));
        proof { lemma_entry_views_of(params@); }
        if params.len() == 0 {
            ystr("cigen_shallow_checkout")
        } else {
            let mut step: Vec<(YamlValue, YamlValue)> = Vec::new();
            push_entry(&mut step, ystr("cigen_shallow_checkout"), ymap(params));
            let r = ymap(step);
            assert(r@ =~= checkout_step_view(*c));
            r
        }
    } else {
        let mut step: Vec<(YamlValue, YamlValue)> = Vec::new();
        match &c.path {
            Some(p) => {
                let mut params: Vec<(YamlValue, YamlValue)> = Vec::new();
                push_entry(&mut params, ystr("path"), ystr(p.as_str()));
                push_entry(&mut step, ystr("checkout"), ymap(params));
            },
            None => {
                push_entry(&mut step, ystr("checkout"), YamlValue::Null);
            },
        }
        let r = ymap(step);
        assert(r@ =~= checkout_step_view(*c));
        r
    }
}

impl CircleCIGenerator {
    /// The checkout step of a job. The setting is taken from the job, else its
    /// workflow, else the configuration; switched off it gives no step, switched
    /// on or unset the default shallow clone.
    pub fn resolve_checkout_step(&self, config: &Config, workflow_config: Option<&WorkflowConfig>, job: &Job) -> (r: Option<YamlValue>)
        ensures
            opt_view(r) == spec_checkout_step(*config, match workflow_config { Some(w) => Some(*w), None => None }, *job),
    {
        let setting: Option<&CheckoutSetting> = match &job.checkout {
            Some(s) => Some(s),
            None => {
                let from_workflow = match workflow_config {
                    Some(w) => match &w.checkout {
                        Some(s) => Some(s),
                        None => None,
                    },
                    None => None,
                };
                match from_workflow {
                    Some(s) => Some(s),
                    None => match &config.checkout {
                        Some(s) => Some(s),
                        None => None,
                    },
                }
            },
        };
        let default_config = CheckoutConfig {
            shallow: true,
            clone_options: None,
            fetch_options: None,
            tag_fetch_options: None,
            keyscan: None,
            path: None,
        };
        match setting {
            Some(CheckoutSetting::Bool(b)) => {
                if !*b {
                    return None;
                }
                Some(checkout_step(&default_config))
            },
            Some(CheckoutSetting::Config(cfg)) => Some(checkout_step(cfg)),
            None => Some(checkout_step(&default_config)),
        }
    }
}

/// The `setup_remote_docker` step: with docker layer caching when the docker
/// build settings ask for it, else the bare step.
pub open spec fn spec_setup_remote_docker_step(config: Config) -> YamlView {
    if config.docker_build matches Some(db) && db.layer_caching == Some(true) {
        YamlView::Mapping(seq![(vstr("setup_remote_docker"@), YamlView::Mapping(seq![
            (vstr("docker_layer_caching"@), YamlView::Bool(true)),
        ]))])
    } else {
        vstr("setup_remote_docker"@)
    }
}

/// A job is an approval job when its only step is a mapping whose `type` is `approval`.
pub open spec fn spec_is_approval_job(job: Job) -> bool {
    &&& job.steps matches Some(steps)
    &&& steps@.len() == 1
    &&& steps@[0]@ is Mapping
    &&& spec_get(steps@[0]@, "type"@) == Some(vstr("approval"@))
}

/// The text before and after the first `=` of an entry, if it has one.
pub open spec fn split_at_eq(s: Seq<char>) -> Option<(Seq<char>, Seq<char>)> {
    if s.contains('=') {
        let i = choose|i: int| 0 <= i < s.len() && s[i] == '=' && forall|j: int| 0 <= j < i ==> s[j] != '=';
        Some((s.subrange(0, i), s.subrange(i + 1, s.len() as int)))
    } else {
        None
    }
}

/// The environment written by `KEY=value` entries in turn; entries without `=` are skipped.
pub open spec fn env_of_entries(entries: Seq<String>) -> Map<Seq<char>, Seq<char>>
    decreases entries.len(),
{
    if entries.len() == 0 {
        Map::empty()
    } else {
        let m = env_of_entries(entries.drop_last());
        match split_at_eq(entries.last()@) {
            Some((k, v)) => m.insert(k, v),
            None => m,
        }
    }
}

/// The credentials named `name` in the docker settings, if any.
pub open spec fn named_auth(config: Config, name: Seq<char>) -> Option<crate::models::DockerAuth> {
    match config.docker {
        Some(d) => match d.auth {
            Some(a) => lookup(a@, name),
            None => None,
        },
        None => None,
    }
}

/// The auth entry of an image is the named credentials.
pub open spec fn auth_matches(out: Option<CircleCIDockerAuth>, auth: Option<crate::models::DockerAuth>) -> bool {
    match (out, auth) {
        (Some(o), Some(a)) => o.username@ == a.username@ && o.password@ == a.password@,
        (None, None) => true,
        _ => false,
    }
}

/// The text before and after the first `=` of `s`, if it has one.
fn split_once_eq(s: &str) -> (r: Option<(String, String)>)
    ensures
        match r {
            Some((k, v)) => split_at_eq(s@) == Some((k@, v@)),
            None => split_at_eq(s@) is None,
        },
{
    let n = s.unicode_len();
    let mut i: usize = 0;
    while i < n
        invariant
            n == s@.len(),
            i <= n,
            forall|j: int| 0 <= j < i ==> s@[j] != '=',
        decreases n - i,
    {
        if s.get_char(i) == '=' {
            proof {
                let w = choose|w: int| 0 <= w < s@.len() && s@[w] == '=' && forall|j: int| 0 <= j < w ==> s@[j] != '=';
                assert(w == i as int) by {
                    if w < i { assert(s@[w] != '='); }
                    if w > i { assert(s@[i as int] == '='); }
                }
            }
            return Some((to_owned_string(s.substring_char(0, i)), to_owned_string(s.substring_char(i + 1, n))));
        }
        i = i + 1;
    }
    proof {
        if s@.contains('=') {
            let k = choose|k: int| 0 <= k < s@.len() && s@[k] == '=';
            assert(s@[k] != '=');
        }
    }
    None
}

/// The credentials called `name` as an image's auth entry.
fn auth_for(config: &Config, name: &str) -> (r: Option<CircleCIDockerAuth>)
    ensures
        auth_matches(r, named_auth(*config, name@)),
{
    match &config.docker {
        Some(d) => match &d.auth {
            Some(a) => match find_entry(a, name) {
                Some(auth) => Some(CircleCIDockerAuth {
                    username: to_owned_string(auth.username.as_str()),
                    password: to_owned_string(auth.password.as_str()),
                }),
                None => None,
            },
            None => None,
        },
        None => None,
    }
}

/// The docker image of a service: its image, its environment (`KEY=value`
/// entries split at the first `=`), and the credentials it names.
pub open spec fn service_image_ok(r: CircleCIDockerImage, config: Config, service: Service) -> bool {
    &&& r.image@ == service.image@
    &&& r.name is None && r.entrypoint is None && r.command is None && r.user is None
    &&& match service.environment {
            None => r.environment is None,
            Some(ServiceEnvironment::Pairs(p)) => r.environment matches Some(e) && str_pairs_view(e@) == str_pairs_view(p@),
            Some(ServiceEnvironment::Array(a)) => r.environment matches Some(e) && unique_keys(e@)
                && pairs_map(e@).map_values(|s: String| s@) == env_of_entries(a@),
        }
    &&& auth_matches(r.auth, match service.auth { Some(n) => named_auth(config, n@), None => None })
}

/// The parameter declaration for a parameter: a boolean parameter for type
/// `boolean` (its default kept if it is a boolean), else a string parameter (its
/// default kept if it is a string).
pub open spec fn param_converted(out: CircleCIParameter, p: ParameterConfig) -> bool {
    if p.param_type@ == "boolean"@ {
        &&& out matches CircleCIParameter::Boolean { param_type, default, description }
        &&& param_type@ == p.param_type@
        &&& default == match p.default { Some(v) => match v@ { YamlView::Bool(b) => Some(b), _ => None }, None => None::<bool> }
        &&& opt_str_view(description) == opt_str_view(p.description)
    } else {
        &&& out matches CircleCIParameter::String { param_type, default, description }
        &&& param_type@ == p.param_type@
        &&& opt_str_view(default) == match p.default { Some(v) => spec_as_str(v@), None => None }
        &&& opt_str_view(description) == opt_str_view(p.description)
    }
}

/// Each parameter converted, in order, under its name.
pub open spec fn params_converted(out: Seq<(String, CircleCIParameter)>, params: Seq<(String, ParameterConfig)>) -> bool {
    &&& out.len() == params.len()
    &&& forall|j: int| 0 <= j < params.len() ==> (#[trigger] out[j]).0@ == params[j].0@ && param_converted(out[j].1, params[j].1)
}

/// Converts one parameter.
fn convert_parameter(p: &ParameterConfig) -> (r: CircleCIParameter)
    ensures
        param_converted(r, *p),
{
    proof { reveal_strlit("boolean"); }
    let description = match &p.description {
        Some(d) => Some(to_owned_string(d.as_str())),
        None => None,
    };
    if crate::strutil::str_eq(p.param_type.as_str(), "boolean") {
        let default = match &p.default {
            Some(v) => v.as_bool(),
            None => None,
        };
        CircleCIParameter::Boolean { param_type: to_owned_string(p.param_type.as_str()), default, description }
    } else {
        let default = match &p.default {
            Some(v) => match v.as_str() {
                Some(s) => Some(to_owned_string(s)),
                None => None,
            },
            None => None,
        };
        CircleCIParameter::String { param_type: to_owned_string(p.param_type.as_str()), default, description }
    }
}

/// The step that a command step becomes: a named `run` step (with its condition),
/// the referenced command's name, or the raw step.
pub open spec fn command_step_view(s: CommandStep) -> YamlView {
    match s {
        CommandStep::Simple { name, run, when } => YamlView::Mapping(seq![(vstr("run"@), YamlView::Mapping(
            seq![(vstr("name"@), vstr(name@)), (vstr("command"@), vstr(run@))]
                + match when { Some(w) => seq![(vstr("when"@), vstr(w@))], None => Seq::empty() },
        ))]),
        CommandStep::CommandRef(r) => vstr(r@),
        CommandStep::Raw(v) => v@,
    }
}

impl CircleCIGenerator {
    /// The `setup_remote_docker` step, with docker layer caching when configured.
    pub fn setup_remote_docker_step(&self, config: &Config) -> (r: YamlValue)
        ensures
            r@ == spec_setup_remote_docker_step(*config),
    {
        let caching = match &config.docker_build {
            Some(db) => match db.layer_caching {
                Some(b) => b,
                None => false,
            },
            None => false,
        };
        if caching {
            let mut inner: Vec<(YamlValue, YamlValue)> = Vec::new();
            push_entry(&mut inner, ystr("docker_layer_caching"), YamlValue::Bool(true));
            let mut m: Vec<(YamlValue, YamlValue)> = Vec::new();
            push_entry(&mut m, ystr("setup_remote_docker"), ymap(inner));
            let r = ymap(m);
            assert(r@ =~= spec_setup_remote_docker_step(*config));
            r
        } else {
            ystr("setup_remote_docker")
        }
    }

    /// Whether a job is an approval job: its only step is a mapping with `type: approval`.
    pub fn is_approval_job(job: &Job) -> (r: bool)
        ensures
            r == spec_is_approval_job(*job),
    {
        match &job.steps {
            Some(steps) => {
                if steps.len() == 1 && steps[0].is_mapping() {
                    match steps[0].get("type") {
                        Some(v) => {
                            proof { reveal_strlit("approval"); }
                            match v.as_str() {
                                Some(t) => crate::strutil::str_eq(t, "approval"),
                                None => false,
                            }
                        },
                        None => false,
                    }
                } else {
                    false
                }
            },
            None => false,
        }
    }

    /// The docker image of a service: its image, its environment (`KEY=value`
    /// entries split at the first `=`), and the credentials it names.
    pub fn build_service_image(&self, config: &Config, service: &Service) -> (r: CircleCIDockerImage)
        ensures
            service_image_ok(r, *config, *service),
    {
        let environment = match &service.environment {
            None => None,
            Some(ServiceEnvironment::Pairs(p)) => Some(copy_str_pairs(p)),
            Some(ServiceEnvironment::Array(arr)) => {
                let mut env_map: Vec<(String, String)> = Vec::new();
                assert(pairs_map(env_map@).map_values(|s: String| s@) =~= env_of_entries(arr@.subrange(0, 0)));
                let n = arr.len();
                let mut i: usize = 0;
                while i < n
                    invariant
                        n == arr@.len(),
                        i <= n,
                        unique_keys(env_map@),
                        pairs_map(env_map@).map_values(|s: String| s@) == env_of_entries(arr@.subrange(0, i as int)),
                    decreases n - i,
                {
                    let ghost before = pairs_map(env_map@).map_values(|s: String| s@);
                    match split_once_eq(arr[i].as_str()) {
                        Some((k, v)) => {
                            let ghost kv = k@;
                            let ghost vv = v@;
                            map_insert(&mut env_map, k, v);
                            assert(pairs_map(env_map@).map_values(|s: String| s@) =~= before.insert(kv, vv));
                        },
                        None => {},
                    }
                    proof {
                        let sub = arr@.subrange(0, i + 1);
                        assert(sub.drop_last() =~= arr@.subrange(0, i as int));
                    }
                    i = i + 1;
                }
                assert(arr@.subrange(0, n as int) =~= arr@);
                Some(env_map)
            },
        };
        let auth = match &service.auth {
            Some(name) => auth_for(config, name.as_str()),
            None => None,
        };
        CircleCIDockerImage {
            image: to_owned_string(service.image.as_str()),
            auth,
            name: None,
            entrypoint: None,
            command: None,
            user: None,
            environment,
        }
    }

    /// Converts parameter definitions into CircleCI parameter declarations.
    pub fn convert_parameters(&self, parameters: &Vec<(String, ParameterConfig)>) -> (r: Vec<(String, CircleCIParameter)>)
        ensures
            params_converted(r@, parameters@),
    {
        let mut out: Vec<(String, CircleCIParameter)> = Vec::new();
        let n = parameters.len();
        let mut i: usize = 0;
        while i < n
            invariant
                n == parameters@.len(),
                i <= n,
                params_converted(out@, parameters@.subrange(0, i as int)),
            decreases n - i,
        {
            let c = convert_parameter(&parameters[i].1);
            out.push((to_owned_string(parameters[i].0.as_str()), c));
            proof {
                let sub = parameters@.subrange(0, i + 1);
                assert forall|j: int| 0 <= j < sub.len() implies (#[trigger] out@[j]).0@ == sub[j].0@ && param_converted(out@[j].1, sub[j].1) by {
                    if j < i {
                        assert(sub[j] == parameters@.subrange(0, i as int)[j]);
                    }
                }
            }
            i = i + 1;
        }
        assert(parameters@.subrange(0, n as int) =~= parameters@);
        out
    }

    /// Converts a command into a CircleCI command: its description, its
    /// parameters converted, and each step converted in order.
    pub fn convert_user_command(&self, user_cmd: &Command) -> (r: CircleCICommand)
        ensures
            opt_str_view(r.description) == Some(user_cmd.description@),
            match user_cmd.parameters {
                Some(p) => r.parameters matches Some(q) && params_converted(q@, p@),
                None => r.parameters is None,
            },
            r.steps@.len() == user_cmd.steps@.len(),
            forall|j: int| 0 <= j < r.steps@.len() ==> (#[trigger] r.steps@[j]).raw@ == command_step_view(user_cmd.steps@[j])
                && opt_str_view(r.steps@[j].step_type) == spec_detect_step_type(r.steps@[j].raw@),
    {
        let mut steps: Vec<CircleCIStep> = Vec::new();
        let n = user_cmd.steps.len();
        let mut i: usize = 0;
        while i < n
            invariant
                n == user_cmd.steps@.len(),
                i <= n,
                steps@.len() == i,
                forall|j: int| 0 <= j < i ==> (#[trigger] steps@[j]).raw@ == command_step_view(user_cmd.steps@[j])
                    && opt_str_view(steps@[j].step_type) == spec_detect_step_type(steps@[j].raw@),
            decreases n - i,
        {
            let raw = match &user_cmd.steps[i] {
                CommandStep::Simple { name, run, when } => {
                    let mut details: Vec<(YamlValue, YamlValue)> = Vec::new();
                    push_entry(&mut details, ystr("name"), ystr(name.as_str()));
                    push_entry(&mut details, ystr("command"), ystr(run.as_str()));
                    let ghost base = entry_views_of(details@);
                    match when {
                        Some(w) => {
                            push_entry(&mut details, ystr("when"), ystr(w.as_str()));
                        },
                        None => {},
                    }
                    assert(entry_views_of(details@) =~= seq![(vstr("name"@), vstr(name@)), (vstr("command"@), vstr(run@))]
                        + match when { Some(w) => seq![(vstr("when"@), vstr(w@))], None => Seq::empty() });
                    let mut m: Vec<(YamlValue, YamlValue)> = Vec::new();
                    push_entry(&mut m, ystr("run"), ymap(details));
                    let r = ymap(m);
                    assert(r@ =~= command_step_view(user_cmd.steps@[i as int]));
                    r
                },
                CommandStep::CommandRef(name) => ystr(name.as_str()),
                CommandStep::Raw(v) => v.deep_copy(),
            };
            steps.push(CircleCIStep::new(raw));
            i = i + 1;
        }
        let parameters = match &user_cmd.parameters {
            Some(p) => Some(self.convert_parameters(p)),
            None => None,
        };
        CircleCICommand {
            description: Some(to_owned_string(user_cmd.description.as_str())),
            parameters,
            steps,
        }
    }
}

} // verus!
