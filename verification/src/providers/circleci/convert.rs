//! Turning one job into a CircleCI job for one architecture: its images, its
//! checkout, its job-status skip logic, its caches and its steps.

use vstd::prelude::*;
use vstd::string::*;
use crate::models::{Config, Job, lookup, find_entry, DockerBuildImage};
use crate::strutil::{opt_str_view, contains_char, str_eq};
use super::config::{CircleCIDockerImage, CircleCIDockerAuth, CircleCIJob, CircleCIStep, CircleCIWorkflow, CircleCIWorkflowJob, CircleCIWorkflowJobDetails, spec_detect_step_type};
use super::docker_images::{resolve_docker_image, spec_resolve_docker_image, is_full_reference};
use super::generator::{CircleCIGenerator, named_auth, auth_matches, opt_view, spec_checkout_step, spec_is_approval_job, service_image_ok};
use crate::models::{JobCache, CacheRestore, Service, DockerAuth};
use super::docker_images::result_view;
use crate::strutil::{occurs_at, lemma_replace_at_first, lemma_replace_none};
use crate::strutil::{to_owned_string, replace_all, spec_replace, join, join_strings, strs_view, strip_prefix, is_prefix, is_suffix, starts_with, ends_with, decimal, spec_decimal};
use crate::yaml::{YamlValue, YamlView, ystr, push_entry, push_item, views_of, entry_views_of, lemma_views_of};
use super::generator::{vstr, run_step, run_step_view, ymap};

verus! {

broadcast use vstd::string::group_string_axioms;

/// A sequence of strings.
pub open spec fn str_seq_view(items: Seq<Seq<char>>) -> YamlView {
    YamlView::Sequence(items.map_values(|s: Seq<char>| YamlView::Str(s)))
}

/// A sequence value of strings.
pub fn ystr_seq(items: &Vec<String>) -> (r: YamlValue)
    ensures
        r@ == str_seq_view(strs_view(items@)),
{
    let mut out: Vec<YamlValue> = Vec::new();
    let n = items.len();
    let mut i: usize = 0;
    while i < n
        invariant
            n == items@.len(),
            i <= n,
            views_of(out@) == strs_view(items@.subrange(0, i as int)).map_values(|s: Seq<char>| YamlView::Str(s)),
        decreases n - i,
    {
        push_item(&mut out, ystr(items[i].as_str()));
        assert(strs_view(items@.subrange(0, i + 1)).map_values(|s: Seq<char>| YamlView::Str(s)) =~=
            strs_view(items@.subrange(0, i as int)).map_values(|s: Seq<char>| YamlView::Str(s)).push(YamlView::Str(items@[i as int]@)));
        i = i + 1;
    }
    assert(items@.subrange(0, n as int) =~= items@);
    let r = YamlValue::Sequence(out);
    proof { lemma_views_of(out@); }
    r
}

/// A `restore_cache` step with these keys.
pub open spec fn restore_cache_view(keys: Seq<Seq<char>>) -> YamlView {
    YamlView::Mapping(seq![(vstr("restore_cache"@), YamlView::Mapping(seq![(vstr("keys"@), str_seq_view(keys))]))])
}

/// A `save_cache` step with a key and paths.
pub open spec fn save_cache_view(key: Seq<char>, paths: Seq<Seq<char>>) -> YamlView {
    YamlView::Mapping(seq![(vstr("save_cache"@), YamlView::Mapping(seq![
        (vstr("key"@), vstr(key)),
        (vstr("paths"@), str_seq_view(paths)),
    ]))])
}

/// A `restore_cache` step.
pub fn restore_cache_step(keys: &Vec<String>) -> (r: YamlValue)
    ensures
        r@ == restore_cache_view(strs_view(keys@)),
{
    let mut cfg: Vec<(YamlValue, YamlValue)> = Vec::new();
    push_entry(&mut cfg, ystr("keys"), ystr_seq(keys));
    let mut m: Vec<(YamlValue, YamlValue)> = Vec::new();
    push_entry(&mut m, ystr("restore_cache"), ymap(cfg));
    let r = ymap(m);
    assert(r@ =~= restore_cache_view(strs_view(keys@)));
    r
}

/// A `save_cache` step.
pub fn save_cache_step(key: &str, paths: &Vec<String>) -> (r: YamlValue)
    ensures
        r@ == save_cache_view(key@, strs_view(paths@)),
{
    let mut cfg: Vec<(YamlValue, YamlValue)> = Vec::new();
    push_entry(&mut cfg, ystr("key"), ystr(key));
    push_entry(&mut cfg, ystr("paths"), ystr_seq(paths));
    assert(entry_views_of(cfg@) =~= seq![(vstr("key"@), vstr(key@)), (vstr("paths"@), str_seq_view(strs_view(paths@)))]);
    let mut m: Vec<(YamlValue, YamlValue)> = Vec::new();
    push_entry(&mut m, ystr("save_cache"), ymap(cfg));
    let r = ymap(m);
    assert(r@ =~= save_cache_view(key@, strs_view(paths@)));
    r
}

/// The CircleCI key of a cache for an architecture: its definition's template with
/// `{{ arch }}` replaced (CircleCI evaluates the checksums itself); a definition
/// without a key checksums `keyless_file`; a cache that is not defined checksums
/// `cache_key`.
pub open spec fn spec_circleci_cache_key(config: Config, name: Seq<char>, architecture: Seq<char>, keyless_file: Seq<char>) -> Seq<char> {
    let fallback = |file: Seq<char>| name + "-"@ + architecture + "-{{ checksum \""@ + file + "\" }}"@;
    match config.cache_definitions {
        Some(defs) => match lookup(defs@, name) {
            Some(c) => match c.key {
                Some(t) => spec_replace(t@, "{{ arch }}"@, architecture),
                None => fallback(keyless_file),
            },
            None => fallback("cache_key"@),
        },
        None => fallback("cache_key"@),
    }
}

/// The CircleCI key of a cache.
pub fn circleci_cache_key(config: &Config, name: &str, architecture: &str, keyless_file: &str) -> (r: String)
    ensures
        r@ == spec_circleci_cache_key(*config, name@, architecture@, keyless_file@),
{
    let definition = match &config.cache_definitions {
        Some(defs) => find_entry(defs, name),
        None => None,
    };
    let mut file = keyless_file;
    match definition {
        Some(c) => match &c.key {
            Some(t) => {
                proof { reveal_strlit("{{ arch }}"); }
                return replace_all(t.as_str(), "{{ arch }}", architecture);
            },
            None => {},
        },
        None => {
            file = "cache_key";
        },
    }
    let mut k = to_owned_string(name);
    k.append("-");
    k.append(architecture);
    k.append("-{{ checksum \"");
    k.append(file);
    k.append("\" }}");
    k
}

/// Law: a defined cache with a key template gets the template with each
/// `{{ arch }}` (from the left, not overlapping) replaced by the architecture.
/// The text before the first `{{ arch }}` stays, the architecture stands where
/// it was, so jobs on different architectures get different keys; and a
/// template without `{{ arch }}` gives the same key on every architecture.
pub proof fn law_cache_key_template_takes_architecture(config: Config, name: Seq<char>, architecture: Seq<char>, keyless_file: Seq<char>, template: Seq<char>)
    requires
        config.cache_definitions matches Some(defs) && lookup(defs@, name) matches Some(c) && c.key matches Some(k) && k@ == template,
    ensures
        spec_circleci_cache_key(config, name, architecture, keyless_file) == spec_replace(template, "{{ arch }}"@, architecture),
        forall|i: int| #![trigger occurs_at(template, "{{ arch }}"@, i)]
            occurs_at(template, "{{ arch }}"@, i) && (forall|j: int| 0 <= j < i ==> !occurs_at(template, "{{ arch }}"@, j)) ==> {
                &&& spec_circleci_cache_key(config, name, architecture, keyless_file).subrange(0, i) == template.subrange(0, i)
                &&& spec_circleci_cache_key(config, name, architecture, keyless_file).subrange(i, i + architecture.len()) == architecture
            },
        (forall|j: int| 0 <= j ==> !occurs_at(template, "{{ arch }}"@, j))
            ==> spec_circleci_cache_key(config, name, architecture, keyless_file) == template,
{
    reveal_strlit("{{ arch }}");
    let marker = "{{ arch }}"@;
    assert(marker.len() == 10);
    let key = spec_circleci_cache_key(config, name, architecture, keyless_file);
    assert forall|i: int| #![trigger occurs_at(template, "{{ arch }}"@, i)]
        occurs_at(template, marker, i) && (forall|j: int| 0 <= j < i ==> !occurs_at(template, marker, j)) implies {
            &&& key.subrange(0, i) == template.subrange(0, i)
            &&& key.subrange(i, i + architecture.len()) == architecture
        } by {
        lemma_replace_at_first(template, marker, architecture, i);
        let rest = spec_replace(template.subrange(i + marker.len(), template.len() as int), marker, architecture);
        assert(key == template.subrange(0, i) + architecture + rest);
        assert(key.subrange(0, i) =~= template.subrange(0, i));
        assert(key.subrange(i, i + architecture.len()) =~= architecture);
    }
    if forall|j: int| 0 <= j ==> !occurs_at(template, marker, j) {
        lemma_replace_none(template, marker, architecture);
    }
}

/// The fallback key prefix of a CircleCI cache.
pub open spec fn circleci_cache_prefix(name: Seq<char>, architecture: Seq<char>) -> Seq<char> {
    name + "-"@ + architecture + "-"@
}

/// The restore step of a cache: its key, then its prefix.
pub open spec fn cache_restore_view(config: Config, name: Seq<char>, architecture: Seq<char>, keyless_file: Seq<char>) -> YamlView {
    restore_cache_view(seq![spec_circleci_cache_key(config, name, architecture, keyless_file), circleci_cache_prefix(name, architecture)])
}

/// The restore step of a cache.
pub fn cache_restore_step(config: &Config, name: &str, architecture: &str, keyless_file: &str) -> (r: YamlValue)
    ensures
        r@ == cache_restore_view(*config, name@, architecture@, keyless_file@),
{
    let key = circleci_cache_key(config, name, architecture, keyless_file);
    let mut prefix = to_owned_string(name);
    prefix.append("-");
    prefix.append(architecture);
    prefix.append("-");
    let mut keys: Vec<String> = Vec::new();
    keys.push(key);
    keys.push(prefix);
    assert(strs_view(keys@) =~= seq![spec_circleci_cache_key(*config, name@, architecture@, keyless_file@), circleci_cache_prefix(name@, architecture@)]);
    restore_cache_step(&keys)
}

/// Why the hash step of a job cannot be built.
#[derive(Debug, PartialEq)]
pub enum HashStepError {
    /// The configuration defines no source file groups.
    GroupsUndefined,
    /// A `@group` entry names a group that is not defined.
    GroupNotFound(String),
}

/// The text of a hash step error.
pub open spec fn hash_step_error_message(e: HashStepError) -> Seq<char> {
    match e {
        HashStepError::GroupsUndefined => "source_file_groups not defined in config"@,
        HashStepError::GroupNotFound(g) => "source_files group '"@ + g@ + "' not found in source_file_groups"@,
    }
}

impl HashStepError {
    /// The text of the error.
    pub fn message(&self) -> (r: String)
        ensures
            r@ == hash_step_error_message(*self),
    {
        match self {
            HashStepError::GroupsUndefined => to_owned_string("source_file_groups not defined in config"),
            HashStepError::GroupNotFound(g) => {
                let mut m = to_owned_string("source_files group '");
                m.append(g.as_str());
                m.append("' not found in source_file_groups");
                m
            },
        }
    }
}

/// The patterns of the source-files entries: a `@group` entry stands for the
/// group's patterns, any other entry for itself; `Err(g)` names the first
/// group that is not defined.
pub open spec fn expand_groups(groups: Seq<(String, Vec<String>)>, entries: Seq<Seq<char>>) -> Result<Seq<Seq<char>>, Seq<char>>
    decreases entries.len(),
{
    if entries.len() == 0 {
        Ok(Seq::empty())
    } else {
        match expand_groups(groups, entries.drop_last()) {
            Err(g) => Err(g),
            Ok(before) => {
                let e = entries.last();
                if is_prefix("@"@, e) {
                    match lookup(groups, e.subrange(1, e.len() as int)) {
                        Some(ps) => Ok(before + strs_view(ps@)),
                        None => Err(e.subrange(1, e.len() as int)),
                    }
                } else {
                    Ok(before + seq![e])
                }
            },
        }
    }
}

/// Once a prefix of the entries fails, the whole list fails with the same group.
pub proof fn lemma_expand_groups_prefix_err(groups: Seq<(String, Vec<String>)>, s: Seq<Seq<char>>, k: int)
    requires
        0 <= k <= s.len(),
        expand_groups(groups, s.subrange(0, k)) is Err,
    ensures
        expand_groups(groups, s) == expand_groups(groups, s.subrange(0, k)),
    decreases s.len() - k,
{
    if k == s.len() {
        assert(s.subrange(0, k) =~= s);
    } else {
        let t = s.drop_last();
        assert(t.subrange(0, k) =~= s.subrange(0, k));
        lemma_expand_groups_prefix_err(groups, t, k);
    }
}

/// The command that lists a directory pattern's files.
pub open spec fn find_dir_command(p: Seq<char>) -> Seq<char> {
    "find "@ + p + " -type f 2>/dev/null || true"@
}

/// The command that lists a file pattern if it exists.
pub open spec fn find_file_command(p: Seq<char>) -> Seq<char> {
    "[ -f "@ + p + " ] && echo "@ + p + " || true"@
}

/// The listing command of a pattern: directories (ending in `/`) are searched, files checked.
pub open spec fn find_command(p: Seq<char>) -> Seq<char> {
    if is_suffix("/"@, p) { find_dir_command(p) } else { find_file_command(p) }
}

/// The listing commands of one pattern: a `(group)` pattern lists each pattern of
/// that group (none when it is not defined); any other pattern lists itself.
pub open spec fn pattern_commands(groups: Seq<(String, Vec<String>)>, p: Seq<char>) -> Seq<Seq<char>> {
    if is_prefix("("@, p) && is_suffix(")"@, p) && p.len() >= 2 {
        match lookup(groups, p.subrange(1, p.len() - 1)) {
            Some(ps) => strs_view(ps@).map_values(|q: Seq<char>| find_command(q)),
            None => Seq::empty(),
        }
    } else {
        seq![find_command(p)]
    }
}

/// The listing commands of all patterns, in order.
pub open spec fn all_pattern_commands(groups: Seq<(String, Vec<String>)>, ps: Seq<Seq<char>>) -> Seq<Seq<char>>
    decreases ps.len(),
{
    if ps.len() == 0 {
        Seq::empty()
    } else {
        all_pattern_commands(groups, ps.drop_last()) + pattern_commands(groups, ps.last())
    }
}

/// The hash script around the listing commands.
pub open spec fn circleci_hash_script(commands: Seq<Seq<char>>) -> Seq<char> {
    "echo \"Calculating hash for source files...\"\nTEMP_HASH_FILE=\"/tmp/source_files_for_hash\"\nrm -f \"$TEMP_HASH_FILE\"\n\n"@
        + join(commands.map_values(|c: Seq<char>| c + " >> \"$TEMP_HASH_FILE\""@), "\n"@)
        + "\n\nif [ -f \"$TEMP_HASH_FILE\" ]; then\n    export JOB_HASH=$(sort \"$TEMP_HASH_FILE\" | xargs sha256sum | sha256sum | cut -d' ' -f1)\n    echo \"Hash calculated: $JOB_HASH\"\nelse\n    export JOB_HASH=\"empty\"\n    echo \"No source files found, using empty hash\"\nfi"@
}

/// The listing hash step, with which the setup workflow hashes a job's source
/// files: the source files expanded, each pattern listed, and the listing
/// hashed into `JOB_HASH`.
pub open spec fn spec_hash_step(config: Config, source_files: Seq<Seq<char>>) -> Result<YamlView, HashStepError> {
    match config.source_file_groups {
        None => Err(HashStepError::GroupsUndefined),
        Some(groups) => match expand_groups(groups@, source_files) {
            Err(g) => Err(HashStepError::GroupNotFound(choose|s: String| s@ == g)),
            Ok(ps) => Ok(run_step_view("Calculate source file hash"@, circleci_hash_script(all_pattern_commands(groups@, ps)))),
        },
    }
}

/// The view of a hash step result.
pub open spec fn hash_step_matches(r: Result<YamlValue, HashStepError>, config: Config, source_files: Seq<Seq<char>>) -> bool {
    match (r, spec_hash_step(config, source_files)) {
        (Ok(v), Ok(w)) => v@ == w,
        (Err(HashStepError::GroupsUndefined), Err(HashStepError::GroupsUndefined)) => true,
        (Err(HashStepError::GroupNotFound(a)), Err(HashStepError::GroupNotFound(b))) => a@ == b@,
        _ => false,
    }
}

/// The listing command of a pattern.
fn find_command_exec(p: &str) -> (r: String)
    ensures
        r@ == find_command(p@),
{
    proof { reveal_strlit("/"); }
    if ends_with(p, "/") {
        let mut c = to_owned_string("find ");
        c.append(p);
        c.append(" -type f 2>/dev/null || true");
        c
    } else {
        let mut c = to_owned_string("[ -f ");
        c.append(p);
        c.append(" ] && echo ");
        c.append(p);
        c.append(" || true");
        c
    }
}

/// The patterns of source-files entries: a `@group` entry stands for the
/// group's patterns, any other entry for itself.
pub fn expand_source_files(config: &Config, source_files: &Vec<String>) -> (r: Result<Vec<String>, HashStepError>)
    ensures
        match r {
            Ok(ps) => config.source_file_groups matches Some(g)
                && expand_groups(g@, strs_view(source_files@)) == Ok::<Seq<Seq<char>>, Seq<char>>(strs_view(ps@)),
            Err(e) => hash_step_matches(Err(e), *config, strs_view(source_files@)),
        },
{
    let groups = match &config.source_file_groups {
        Some(g) => g,
        None => return Err(HashStepError::GroupsUndefined),
    };
    // Expand the entries into patterns.
    let mut patterns: Vec<String> = Vec::new();
    let n = source_files.len();
    let mut i: usize = 0;
    assert(strs_view(source_files@.subrange(0, 0)) =~= Seq::<Seq<char>>::empty());
    assert(strs_view(patterns@) =~= Seq::<Seq<char>>::empty());
    while i < n
        invariant
            n == source_files@.len(),
            i <= n,
            config.source_file_groups == Some(*groups),
            expand_groups(groups@, strs_view(source_files@.subrange(0, i as int))) == Ok::<Seq<Seq<char>>, Seq<char>>(strs_view(patterns@)),
        decreases n - i,
    {
        let ghost sub = strs_view(source_files@.subrange(0, i + 1));
        proof {
            reveal_strlit("@");
            assert(sub.drop_last() =~= strs_view(source_files@.subrange(0, i as int)));
            assert(sub.last() == source_files@[i as int]@);
        }
        let entry = source_files[i].as_str();
        match strip_prefix(entry, "@") {
            Some(group_name) => match find_entry(groups, group_name) {
                Some(ps) => {
                    let ghost before = strs_view(patterns@);
                    let m = ps.len();
                    let mut k: usize = 0;
                    while k < m
                        invariant
                            m == ps@.len(),
                            k <= m,
                            strs_view(patterns@) == before + strs_view(ps@.subrange(0, k as int)),
                        decreases m - k,
                    {
                        let ghost prev = patterns@;
                        patterns.push(to_owned_string(ps[k].as_str()));
                        proof {
                            assert(strs_view(patterns@) =~= strs_view(prev).push(ps@[k as int]@));
                            assert(strs_view(ps@.subrange(0, k + 1)) =~= strs_view(ps@.subrange(0, k as int)).push(ps@[k as int]@));
                            assert(strs_view(patterns@) =~= before + strs_view(ps@.subrange(0, k + 1)));
                        }
                        k = k + 1;
                    }
                    assert(ps@.subrange(0, m as int) =~= ps@);
                },
                None => {
                    let e = HashStepError::GroupNotFound(to_owned_string(group_name));
                    proof {
                        assert(expand_groups(groups@, sub) == Err::<Seq<Seq<char>>, Seq<char>>(group_name@));
                        assert(strs_view(source_files@).subrange(0, i + 1) =~= sub);
                        lemma_expand_groups_prefix_err(groups@, strs_view(source_files@), i + 1);
                    }
                    return Err(e);
                },
            },
            None => {
                let ghost before = strs_view(patterns@);
                patterns.push(to_owned_string(entry));
                assert(strs_view(patterns@) =~= before + seq![entry@]);
            },
        }
        i = i + 1;
    }
    assert(source_files@.subrange(0, n as int) =~= source_files@);
    Ok(patterns)
}

/// Builds the listing hash step of source files.
pub fn build_hash_calculation_step(config: &Config, source_files: &Vec<String>) -> (r: Result<YamlValue, HashStepError>)
    ensures
        hash_step_matches(r, *config, strs_view(source_files@)),
{
    let groups = match &config.source_file_groups {
        Some(g) => g,
        None => return Err(HashStepError::GroupsUndefined),
    };
    let patterns = match expand_source_files(config, source_files) {
        Ok(p) => p,
        Err(e) => return Err(e),
    };
    // List each pattern.
    let mut commands: Vec<String> = Vec::new();
    let np = patterns.len();
    let mut j: usize = 0;
    assert(strs_view(patterns@.subrange(0, 0)) =~= Seq::<Seq<char>>::empty());
    assert(strs_view(commands@) =~= Seq::<Seq<char>>::empty());
    while j < np
        invariant
            np == patterns@.len(),
            j <= np,
            strs_view(commands@) == all_pattern_commands(groups@, strs_view(patterns@.subrange(0, j as int))),
        decreases np - j,
    {
        let ghost before = strs_view(commands@);
        let ghost sub = strs_view(patterns@.subrange(0, j + 1));
        proof {
            reveal_strlit("(");
            reveal_strlit(")");
            assert(sub.drop_last() =~= strs_view(patterns@.subrange(0, j as int)));
            assert(sub.last() == patterns@[j as int]@);
        }
        let p = patterns[j].as_str();
        let plen = p.unicode_len();
        if starts_with(p, "(") && ends_with(p, ")") && plen >= 2 {
            let inner = p.substring_char(1, plen - 1);
            match find_entry(groups, inner) {
                Some(refs) => {
                    let m = refs.len();
                    let mut k: usize = 0;
                    while k < m
                        invariant
                            m == refs@.len(),
                            k <= m,
                            strs_view(commands@) == before + strs_view(refs@.subrange(0, k as int)).map_values(|q: Seq<char>| find_command(q)),
                        decreases m - k,
                    {
                        let ghost prev = commands@;
                        commands.push(find_command_exec(refs[k].as_str()));
                        proof {
                            assert(strs_view(commands@) =~= strs_view(prev).push(find_command(refs@[k as int]@)));
                            assert(strs_view(refs@.subrange(0, k + 1)).map_values(|q: Seq<char>| find_command(q)) =~=
                                strs_view(refs@.subrange(0, k as int)).map_values(|q: Seq<char>| find_command(q)).push(find_command(refs@[k as int]@)));
                        }
                        k = k + 1;
                    }
                    assert(refs@.subrange(0, m as int) =~= refs@);
                },
                None => {
                    assert(strs_view(commands@) =~= before + pattern_commands(groups@, p@));
                },
            }
        } else {
            commands.push(find_command_exec(p));
            assert(strs_view(commands@) =~= before + seq![find_command(p@)]);
        }
        j = j + 1;
    }
    assert(patterns@.subrange(0, np as int) =~= patterns@);
    // Append the output redirection to each command and join them.
    let mut lines: Vec<String> = Vec::new();
    let nc = commands.len();
    let mut c: usize = 0;
    while c < nc
        invariant
            nc == commands@.len(),
            c <= nc,
            lines@.len() == c,
            forall|x: int| 0 <= x < c ==> (#[trigger] lines@[x])@ == commands@[x]@ + " >> \"$TEMP_HASH_FILE\""@,
        decreases nc - c,
    {
        let mut line = to_owned_string(commands[c].as_str());
        line.append(" >> \"$TEMP_HASH_FILE\"");
        lines.push(line);
        c = c + 1;
    }
    assert(strs_view(lines@) =~= strs_view(commands@).map_values(|x: Seq<char>| x + " >> \"$TEMP_HASH_FILE\""@));
    let joined = join_strings(&lines, "\n");
    let mut command = to_owned_string("echo \"Calculating hash for source files...\"\nTEMP_HASH_FILE=\"/tmp/source_files_for_hash\"\nrm -f \"$TEMP_HASH_FILE\"\n\n");
    command.append(joined.as_str());
    command.append("\n\nif [ -f \"$TEMP_HASH_FILE\" ]; then\n    export JOB_HASH=$(sort \"$TEMP_HASH_FILE\" | xargs sha256sum | sha256sum | cut -d' ' -f1)\n    echo \"Hash calculated: $JOB_HASH\"\nelse\n    export JOB_HASH=\"empty\"\n    echo \"No source files found, using empty hash\"\nfi");
    Ok(run_step("Calculate source file hash", command.as_str()))
}

/// The script that stops the job when it already succeeded for this hash.
pub open spec fn skip_check_command() -> Seq<char> {
    "if [ -f \"/tmp/cigen_job_status/done_${JOB_HASH}\" ]; then\n    echo \"Job already completed successfully for this file hash. Skipping...\"\n    circleci step halt\nelse\n    echo \"No previous successful run found. Proceeding with job...\"\n    mkdir -p /tmp/cigen_job_status\nfi"@
}

/// The skip check step.
pub open spec fn skip_check_view() -> YamlView {
    run_step_view("Check if job should be skipped"@, skip_check_command())
}

/// Builds the skip check step.
pub fn build_skip_check_step() -> (r: YamlValue)
    ensures
        r@ == skip_check_view(),
{
    run_step("Check if job should be skipped", "if [ -f \"/tmp/cigen_job_status/done_${JOB_HASH}\" ]; then\n    echo \"Job already completed successfully for this file hash. Skipping...\"\n    circleci step halt\nelse\n    echo \"No previous successful run found. Proceeding with job...\"\n    mkdir -p /tmp/cigen_job_status\nfi")
}

/// A name as it appears in a file name: `/` and `_` become `-`.
pub open spec fn file_slug(s: Seq<char>) -> Seq<char> {
    s.map_values(|c: char| if c == '/' || c == '_' { '-' } else { c })
}

/// Turns a name into its file-name form.
fn file_slug_of(s: &str) -> (r: String)
    ensures
        r@ == file_slug(s@),
{
    let mut out = String::new();
    let n = s.unicode_len();
    let mut i: usize = 0;
    while i < n
        invariant
            n == s@.len(),
            i <= n,
            out@ == file_slug(s@.subrange(0, i as int)),
        decreases n - i,
    {
        let c = s.get_char(i);
        let d = if c == '/' || c == '_' { '-' } else { c };
        crate::strutil::push_char(&mut out, d);
        assert(file_slug(s@.subrange(0, i + 1)) =~= file_slug(s@.subrange(0, i as int)).push(d));
        i = i + 1;
    }
    assert(s@.subrange(0, n as int) =~= s@);
    out
}

/// The file that a job writes a submodule's commit to.
pub open spec fn submodule_hash_file(job_name: Seq<char>, submodule: Seq<char>) -> Seq<char> {
    "/tmp/cigen/submodule-hashes/"@ + file_slug(job_name) + "-"@ + file_slug(submodule) + ".commit"@
}

/// Builds the file that a job writes a submodule's commit to.
fn submodule_hash_file_of(job_name: &str, submodule: &str) -> (r: String)
    ensures
        r@ == submodule_hash_file(job_name@, submodule@),
{
    let mut file = to_owned_string("/tmp/cigen/submodule-hashes/");
    let job_slug = file_slug_of(job_name);
    file.append(job_slug.as_str());
    file.append("-");
    let sub_slug = file_slug_of(submodule);
    file.append(sub_slug.as_str());
    file.append(".commit");
    file
}

/// The step that writes a submodule's commit to its file.
pub open spec fn submodule_step_view(job_name: Seq<char>, submodule: Seq<char>) -> YamlView {
    YamlView::Mapping(seq![(vstr("cigen_write_submodule_commit_hash"@), YamlView::Mapping(seq![
        (vstr("submodule"@), vstr(submodule)),
        (vstr("output_file"@), vstr(submodule_hash_file(job_name, submodule))),
    ]))])
}

/// Builds the step that writes a submodule's commit for a job.
pub fn build_submodule_step(job_name: &str, submodule: &str) -> (r: YamlValue)
    ensures
        r@ == submodule_step_view(job_name@, submodule@),
{
    let file = submodule_hash_file_of(job_name, submodule);
    let mut inner: Vec<(YamlValue, YamlValue)> = Vec::new();
    inner.push((ystr("submodule"), ystr(submodule)));
    inner.push((ystr("output_file"), ystr(file.as_str())));
    let inner_v = ymap(inner);
    let mut m: Vec<(YamlValue, YamlValue)> = Vec::new();
    m.push((ystr("cigen_write_submodule_commit_hash"), inner_v));
    let r = ymap(m);
    proof {
        assert(entry_views_of(inner@) =~= seq![(vstr("submodule"@), vstr(submodule@)), (vstr("output_file"@), vstr(submodule_hash_file(job_name@, submodule@)))]);
        assert(r@ =~= submodule_step_view(job_name@, submodule@));
    }
    r
}

/// The hash step: the patterns, one per line, and (when there are any) the
/// patterns that bypass ignore filtering, one per line.
pub open spec fn sha256_step_view(patterns: Seq<Seq<char>>, unfiltered: Seq<Seq<char>>) -> YamlView {
    YamlView::Mapping(seq![(vstr("cigen_calculate_sha256"@), YamlView::Mapping(
        seq![(vstr("patterns"@), vstr(join(patterns, "\n"@)))]
            + if unfiltered.len() == 0 { Seq::empty() } else { seq![(vstr("unfiltered_patterns"@), vstr(join(unfiltered, "\n"@)))] }
    ))])
}

/// Builds the hash step over these patterns.
pub fn build_sha256_step(patterns: &Vec<String>, unfiltered: &Vec<String>) -> (r: YamlValue)
    ensures
        r@ == sha256_step_view(strs_view(patterns@), strs_view(unfiltered@)),
{
    let mut inner: Vec<(YamlValue, YamlValue)> = Vec::new();
    let joined = join_strings(patterns, "\n");
    inner.push((ystr("patterns"), ystr(joined.as_str())));
    if unfiltered.len() > 0 {
        let joined_unfiltered = join_strings(unfiltered, "\n");
        inner.push((ystr("unfiltered_patterns"), ystr(joined_unfiltered.as_str())));
    }
    let ghost ev = entry_views_of(inner@);
    let inner_v = ymap(inner);
    let mut m: Vec<(YamlValue, YamlValue)> = Vec::new();
    m.push((ystr("cigen_calculate_sha256"), inner_v));
    let r = ymap(m);
    proof {
        let u = strs_view(unfiltered@);
        assert(u.len() == unfiltered@.len());
        assert(ev =~= seq![(vstr("patterns"@), vstr(join(strs_view(patterns@), "\n"@)))]
            + if u.len() == 0 { Seq::empty() } else { seq![(vstr("unfiltered_patterns"@), vstr(join(u, "\n"@)))] });
        assert(r@ =~= sha256_step_view(strs_view(patterns@), u));
    }
    r
}

/// The submodules of a job (none when it names none).
pub open spec fn job_submodules(job: Job) -> Seq<Seq<char>> {
    match job.source_submodules {
        Some(s) => strs_view(s@),
        None => Seq::empty(),
    }
}

/// The script that records the job's success for this hash.
pub open spec fn record_completion_command() -> Seq<char> {
    "echo \"Recording successful completion for hash ${JOB_HASH}\"\nmkdir -p \"/tmp/cigen_job_status\"\nmkdir -p \"/tmp/cigen_job_exists\"\ntouch \"/tmp/cigen_job_status/done_${JOB_HASH}\"\ntouch \"/tmp/cigen_job_exists/done_${JOB_HASH}\""@
}

/// The steps that record completion: the record script, then saving the status
/// markers, and the exists markers under `exists_key`.
pub open spec fn completion_views(exists_key: Seq<char>) -> Seq<YamlView> {
    seq![
        run_step_view("Record job completion"@, record_completion_command()),
        save_cache_view("job_status-v1-{{ checksum \"/tmp/cigen_job_status/job-key\" }}"@, seq!["/tmp/cigen_job_status"@]),
        save_cache_view(exists_key, seq!["/tmp/cigen_job_exists"@]),
    ]
}

/// The key of the exists markers of a job on an architecture.
pub open spec fn job_exists_key(job_name: Seq<char>, architecture: Seq<char>) -> Seq<char> {
    "job_status-exists-v1-"@ + job_name + "-"@ + architecture + "-{{ checksum \"/tmp/cigen_job_status/job-key\" }}"@
}

/// Builds the key of the exists markers of a job on an architecture.
fn job_exists_key_of(job_name: &str, architecture: &str) -> (r: String)
    ensures
        r@ == job_exists_key(job_name@, architecture@),
{
    let mut k = to_owned_string("job_status-exists-v1-");
    k.append(job_name);
    k.append("-");
    k.append(architecture);
    k.append("-{{ checksum \"/tmp/cigen_job_status/job-key\" }}");
    k
}

/// The job-status backend: the configured one, else `native`.
pub open spec fn job_status_backend(config: Config) -> Seq<char> {
    match config.caches {
        Some(c) => match c.job_status {
            Some(b) => b.backend@,
            None => "native"@,
        },
        None => "native"@,
    }
}

/// The redis URL and expiry from the job-status settings.
pub open spec fn redis_settings(config: Config) -> (Seq<char>, Option<u64>) {
    let default_url = "redis://127.0.0.1:6379"@;
    match config.caches {
        Some(c) => match c.job_status {
            Some(b) => match b.config {
                Some(cfg) => (
                    match lookup(cfg@, "url"@) {
                        Some(v) => match v@ { YamlView::Str(u) => u, _ => default_url },
                        None => default_url,
                    },
                    match lookup(cfg@, "ttl_seconds"@) {
                        Some(v) => match v@ {
                            YamlView::Int(n) => if 0 <= n <= u64::MAX { Some(n as u64) } else { None },
                            _ => None,
                        },
                        None => None,
                    },
                ),
                None => (default_url, None),
            },
            None => (default_url, None),
        },
        None => (default_url, None),
    }
}

/// The command that records completion in redis.
pub open spec fn redis_record_command(url: Seq<char>, ttl: Option<u64>) -> Seq<char> {
    let set = "redis-cli -u "@ + url + " SET \"$JOB_STATUS_KEY\" done >/dev/null 2>&1 || true"@;
    match ttl {
        Some(t) => set + "\nredis-cli -u "@ + url + " EXPIRE \"$JOB_STATUS_KEY\" "@ + spec_decimal(t as nat) + " >/dev/null 2>&1 || true"@,
        None => set,
    }
}

/// The steps of the job-status check for the backend: with redis, a key, a check
/// and a record step; natively, a key file, a restore of the status cache and
/// the skip check.
pub open spec fn backend_views(config: Config) -> Seq<YamlView> {
    if job_status_backend(config) == "redis"@ {
        let (url, ttl) = redis_settings(config);
        seq![
            run_step_view("Prepare job status key"@, "export JOB_STATUS_KEY=\"job_status:${CIRCLE_JOB}-${DOCKER_ARCH}-${JOB_HASH}\""@),
            run_step_view("Check job status (redis)"@, "VAL=$(redis-cli -u "@ + url + " GET \"$JOB_STATUS_KEY\" 2>/dev/null || true)\nif [ \"$VAL\" = \"done\" ]; then\n  echo 'Job already completed successfully for this file hash. Skipping...';\n  circleci step halt;\nfi"@),
            run_step_view("Record job completion (redis)"@, redis_record_command(url, ttl)),
        ]
    } else {
        seq![
            run_step_view("Prepare job status key"@, "mkdir -p /tmp/cigen_job_status && echo \"${CIRCLE_JOB}-$(echo $DOCKER_ARCH)-${JOB_HASH}\" > /tmp/cigen_job_status/job-key"@),
            restore_cache_view(seq!["job_status-v1-{{ checksum \"/tmp/cigen_job_status/job-key\" }}"@, "job_status-v1-"@]),
            skip_check_view(),
        ]
    }
}

/// Appends a step holding `raw`.
fn push_step(steps: &mut Vec<CircleCIStep>, raw: YamlValue)
    ensures
        final(steps)@.len() == old(steps)@.len() + 1,
        final(steps)@.subrange(0, old(steps)@.len() as int) == old(steps)@,
        final(steps)@.last().raw@ == raw@,
        steps_typed(final(steps)@) <== steps_typed(old(steps)@),
{
    let ghost rv = raw@;
    let ghost before = steps@;
    steps.push(CircleCIStep::new(raw));
    assert(steps@.subrange(0, before.len() as int) =~= before);
}

/// Every step's type is the one detected from it.
pub open spec fn steps_typed(steps: Seq<CircleCIStep>) -> bool {
    forall|i: int| 0 <= i < steps.len() ==> opt_str_view((#[trigger] steps[i]).step_type) == spec_detect_step_type(steps[i].raw@)
}

/// The views of the steps.
pub open spec fn step_views(steps: Seq<CircleCIStep>) -> Seq<YamlView> {
    steps.map_values(|s: CircleCIStep| s.raw@)
}

/// Appends the completion steps.
fn push_record_completion_steps(steps: &mut Vec<CircleCIStep>, exists_key: &str)
    requires
        steps_typed(old(steps)@),
    ensures
        steps_typed(final(steps)@),
        step_views(final(steps)@) == step_views(old(steps)@) + completion_views(exists_key@),
{
    let ghost before = step_views(steps@);
    push_step(steps, run_step("Record job completion", "echo \"Recording successful completion for hash ${JOB_HASH}\"\nmkdir -p \"/tmp/cigen_job_status\"\nmkdir -p \"/tmp/cigen_job_exists\"\ntouch \"/tmp/cigen_job_status/done_${JOB_HASH}\"\ntouch \"/tmp/cigen_job_exists/done_${JOB_HASH}\""));
    let ghost s1 = steps@;
    let mut status_paths: Vec<String> = Vec::new();
    status_paths.push(to_owned_string("/tmp/cigen_job_status"));
    assert(strs_view(status_paths@) =~= seq!["/tmp/cigen_job_status"@]);
    push_step(steps, save_cache_step("job_status-v1-{{ checksum \"/tmp/cigen_job_status/job-key\" }}", &status_paths));
    let ghost s2 = steps@;
    let mut exists_paths: Vec<String> = Vec::new();
    exists_paths.push(to_owned_string("/tmp/cigen_job_exists"));
    assert(strs_view(exists_paths@) =~= seq!["/tmp/cigen_job_exists"@]);
    push_step(steps, save_cache_step(exists_key, &exists_paths));
    proof {
        assert(step_views(steps@) =~= before + completion_views(exists_key@)) by {
            assert(steps@[s2.len() as int - 1] == s2[s2.len() as int - 1]);
            assert(steps@[s1.len() as int - 1] == s1[s1.len() as int - 1]);
            assert forall|k: int| 0 <= k < before.len() implies steps@[k] == old(steps)@[k] by {
                assert(s1[k] == old(steps)@[k]);
                assert(s2[k] == s1[k]);
            }
        }
    }
}

/// Whether two jobs agree on everything but their steps.
pub open spec fn same_but_steps(a: CircleCIJob, b: CircleCIJob) -> bool {
    &&& a.executor == b.executor && a.docker == b.docker && a.machine == b.machine
    &&& a.resource_class == b.resource_class && a.working_directory == b.working_directory
    &&& a.parallelism == b.parallelism && a.environment == b.environment && a.parameters == b.parameters
}

/// The hash step over source files for a job: their patterns, and the commit
/// files of the submodules as patterns that bypass filtering (nothing when
/// the patterns do not expand).
pub open spec fn source_hash_view(config: Config, job_name: Seq<char>, source_files: Seq<Seq<char>>, submodules: Seq<Seq<char>>) -> YamlView {
    match config.source_file_groups {
        Some(groups) => match expand_groups(groups@, source_files) {
            Ok(ps) => sha256_step_view(ps, submodules.map_values(|x: Seq<char>| submodule_hash_file(job_name, x))),
            Err(_) => YamlView::Null,
        },
        None => YamlView::Null,
    }
}

/// The first job-status steps: one step per submodule writing its commit, the
/// hash step, then the skip check.
pub open spec fn initial_skip_views(config: Config, job_name: Seq<char>, source_files: Seq<Seq<char>>, submodules: Seq<Seq<char>>) -> Seq<YamlView> {
    submodules.map_values(|x: Seq<char>| submodule_step_view(job_name, x))
        + seq![source_hash_view(config, job_name, source_files, submodules), skip_check_view()]
}

/// Appends the submodule commit steps, the hash step and the skip check; fails,
/// leaving the steps unchanged, when the source files do not expand.
fn push_initial_skip_steps(config: &Config, job_name: &str, source_files: &Vec<String>, submodules: &Vec<String>, steps: &mut Vec<CircleCIStep>) -> (r: Result<(), HashStepError>)
    requires
        steps_typed(old(steps)@),
    ensures
        steps_typed(final(steps)@),
        match r {
            Ok(()) => {
                &&& spec_hash_step(*config, strs_view(source_files@)) is Ok
                &&& step_views(final(steps)@) == step_views(old(steps)@) + initial_skip_views(*config, job_name@, strs_view(source_files@), strs_view(submodules@))
            },
            Err(e) => hash_step_matches(Err(e), *config, strs_view(source_files@)) && final(steps)@ == old(steps)@,
        },
{
    let patterns = match expand_source_files(config, source_files) {
        Ok(p) => p,
        Err(e) => return Err(e),
    };
    let ghost start = step_views(steps@);
    let mut files: Vec<String> = Vec::new();
    let n = submodules.len();
    let mut i: usize = 0;
    assert(strs_view(submodules@.subrange(0, 0)) =~= Seq::<Seq<char>>::empty());
    assert(strs_view(files@) =~= Seq::<Seq<char>>::empty());
    assert(step_views(steps@) =~= start + strs_view(submodules@.subrange(0, 0)).map_values(|x: Seq<char>| submodule_step_view(job_name@, x)));
    while i < n
        invariant
            n == submodules@.len(),
            i <= n,
            steps_typed(steps@),
            step_views(steps@) == start
                + strs_view(submodules@.subrange(0, i as int)).map_values(|x: Seq<char>| submodule_step_view(job_name@, x)),
            strs_view(files@) == strs_view(submodules@.subrange(0, i as int)).map_values(|x: Seq<char>| submodule_hash_file(job_name@, x)),
        decreases n - i,
    {
        let ghost b = steps@;
        let ghost fb = strs_view(files@);
        let sub = submodules[i].as_str();
        push_step(steps, build_submodule_step(job_name, sub));
        proof { lemma_push_views(b, steps@, submodule_step_view(job_name@, sub@)); }
        files.push(submodule_hash_file_of(job_name, sub));
        proof {
            let pre = strs_view(submodules@.subrange(0, i as int));
            assert(strs_view(submodules@.subrange(0, i + 1)) =~= pre.push(sub@));
            assert(pre.push(sub@).map_values(|x: Seq<char>| submodule_step_view(job_name@, x)) =~=
                pre.map_values(|x: Seq<char>| submodule_step_view(job_name@, x)).push(submodule_step_view(job_name@, sub@)));
            assert(pre.push(sub@).map_values(|x: Seq<char>| submodule_hash_file(job_name@, x)) =~=
                pre.map_values(|x: Seq<char>| submodule_hash_file(job_name@, x)).push(submodule_hash_file(job_name@, sub@)));
            assert(strs_view(files@) =~= fb.push(submodule_hash_file(job_name@, sub@)));
        }
        i = i + 1;
    }
    assert(submodules@.subrange(0, n as int) =~= submodules@);
    let hash_step = build_sha256_step(&patterns, &files);
    let ghost hv = hash_step@;
    assert(hv == source_hash_view(*config, job_name@, strs_view(source_files@), strs_view(submodules@)));
    let ghost b = steps@;
    push_step(steps, hash_step);
    proof { lemma_push_views(b, steps@, hv); }
    let ghost b2 = steps@;
    push_step(steps, build_skip_check_step());
    proof {
        lemma_push_views(b2, steps@, skip_check_view());
        assert(step_views(steps@) =~= start + initial_skip_views(*config, job_name@, strs_view(source_files@), strs_view(submodules@)));
    }
    Ok(())
}

impl CircleCIGenerator {
    /// Appends to a job the steps that record its success for the source hash:
    /// the markers, then the saves of the status markers and of the exists
    /// markers, keyed by the job's name and architecture.
    pub fn add_record_completion_step(&self, job: &mut CircleCIJob, job_name: &str, architecture: &str)
        requires
            steps_typed(old(job).steps@),
        ensures
            same_but_steps(*final(job), *old(job)),
            steps_typed(final(job).steps@),
            step_views(final(job).steps@) == step_views(old(job).steps@) + completion_views(job_exists_key(job_name@, architecture@)),
    {
        let key = job_exists_key_of(job_name, architecture);
        push_record_completion_steps(&mut job.steps, key.as_str());
    }

    /// Appends to a job the commit steps of its submodules, its source hash
    /// step and the skip check; fails when the source files do not expand (the
    /// steps are then unchanged).
    pub fn add_skip_check_initial_steps(&self, job: &mut CircleCIJob, config: &Config, source_files: &Vec<String>,
        source_submodules: &Vec<String>, job_name: &str, architecture: &str) -> (r: Result<(), HashStepError>)
        requires
            steps_typed(old(job).steps@),
        ensures
            same_but_steps(*final(job), *old(job)),
            steps_typed(final(job).steps@),
            match r {
                Ok(()) => {
                    &&& spec_hash_step(*config, strs_view(source_files@)) is Ok
                    &&& step_views(final(job).steps@) == step_views(old(job).steps@)
                        + initial_skip_views(*config, job_name@, strs_view(source_files@), strs_view(source_submodules@))
                },
                Err(e) => hash_step_matches(Err(e), *config, strs_view(source_files@)) && final(job).steps@ == old(job).steps@,
            },
    {
        push_initial_skip_steps(config, job_name, source_files, source_submodules, &mut job.steps)
    }
}

/// Appends the job-status check steps of the configured backend.
fn push_backend_steps(config: &Config, steps: &mut Vec<CircleCIStep>)
    requires
        steps_typed(old(steps)@),
    ensures
        steps_typed(final(steps)@),
        step_views(final(steps)@) == step_views(old(steps)@) + backend_views(*config),
{
    let ghost before = step_views(steps@);
    let backend: &str = match &config.caches {
        Some(c) => match &c.job_status {
            Some(b) => b.backend.as_str(),
            None => "native",
        },
        None => "native",
    };
    assert(backend@ == job_status_backend(*config));
    if str_eq(backend, "redis") {
        let default_url = "redis://127.0.0.1:6379";
        let (url, ttl): (&str, Option<u64>) = match &config.caches {
            Some(c) => match &c.job_status {
                Some(b) => match &b.config {
                    Some(cfg) => {
                        proof {
                            reveal_strlit("url");
                            reveal_strlit("ttl_seconds");
                        }
                        let url = match find_entry(cfg, "url") {
                            Some(v) => match v {
                                YamlValue::Str(u) => u.as_str(),
                                _ => default_url,
                            },
                            None => default_url,
                        };
                        let ttl = match find_entry(cfg, "ttl_seconds") {
                            Some(v) => v.as_u64(),
                            None => None,
                        };
                        (url, ttl)
                    },
                    None => (default_url, None),
                },
                None => (default_url, None),
            },
            None => (default_url, None),
        };
        assert((url@, ttl) == redis_settings(*config));
        push_step(steps, run_step("Prepare job status key", "export JOB_STATUS_KEY=\"job_status:${CIRCLE_JOB}-${DOCKER_ARCH}-${JOB_HASH}\""));
        let ghost s1 = steps@;
        let mut check = to_owned_string("VAL=$(redis-cli -u ");
        check.append(url);
        check.append(" GET \"$JOB_STATUS_KEY\" 2>/dev/null || true)\nif [ \"$VAL\" = \"done\" ]; then\n  echo 'Job already completed successfully for this file hash. Skipping...';\n  circleci step halt;\nfi");
        push_step(steps, run_step("Check job status (redis)", check.as_str()));
        let ghost s2 = steps@;
        let mut set = to_owned_string("redis-cli -u ");
        set.append(url);
        set.append(" SET \"$JOB_STATUS_KEY\" done >/dev/null 2>&1 || true");
        match ttl {
            Some(t) => {
                set.append("\nredis-cli -u ");
                set.append(url);
                set.append(" EXPIRE \"$JOB_STATUS_KEY\" ");
                let d = decimal(t as u128);
                set.append(d.as_str());
                set.append(" >/dev/null 2>&1 || true");
            },
            None => {},
        }
        assert(set@ == redis_record_command(url@, ttl));
        push_step(steps, run_step("Record job completion (redis)", set.as_str()));
        proof {
            assert(step_views(steps@) =~= before + backend_views(*config)) by {
                assert(steps@[s2.len() as int - 1] == s2[s2.len() as int - 1]);
                assert(steps@[s1.len() as int - 1] == s1[s1.len() as int - 1]);
                assert forall|k: int| 0 <= k < before.len() implies steps@[k] == old(steps)@[k] by {
                    assert(s1[k] == old(steps)@[k]);
                    assert(s2[k] == s1[k]);
                }
            }
        }
    } else {
        push_step(steps, run_step("Prepare job status key", "mkdir -p /tmp/cigen_job_status && echo \"${CIRCLE_JOB}-$(echo $DOCKER_ARCH)-${JOB_HASH}\" > /tmp/cigen_job_status/job-key"));
        let ghost s1 = steps@;
        let mut keys: Vec<String> = Vec::new();
        keys.push(to_owned_string("job_status-v1-{{ checksum \"/tmp/cigen_job_status/job-key\" }}"));
        keys.push(to_owned_string("job_status-v1-"));
        assert(strs_view(keys@) =~= seq!["job_status-v1-{{ checksum \"/tmp/cigen_job_status/job-key\" }}"@, "job_status-v1-"@]);
        push_step(steps, restore_cache_step(&keys));
        let ghost s2 = steps@;
        push_step(steps, build_skip_check_step());
        proof {
            assert(step_views(steps@) =~= before + backend_views(*config)) by {
                assert(steps@[s2.len() as int - 1] == s2[s2.len() as int - 1]);
                assert(steps@[s1.len() as int - 1] == s1[s1.len() as int - 1]);
                assert forall|k: int| 0 <= k < before.len() implies steps@[k] == old(steps)@[k] by {
                    assert(s1[k] == old(steps)@[k]);
                    assert(s2[k] == s1[k]);
                }
            }
        }
    }
}

/// Why the image of a job cannot be given.
#[derive(Debug, PartialEq)]
pub enum DockerImageError {
    /// The job runs on an image the pipeline builds, and its base hash is not known.
    BaseHashUnavailable,
    /// The image name is not configured.
    Resolve(String),
}

/// The text of an image error.
pub open spec fn docker_image_error_message(e: DockerImageError) -> Seq<char> {
    match e {
        DockerImageError::BaseHashUnavailable => "Failed to compute docker base hash"@,
        DockerImageError::Resolve(m) => "Failed to resolve docker image: "@ + m@,
    }
}

impl DockerImageError {
    /// The text of the error.
    pub fn message(&self) -> (r: String)
        ensures
            r@ == docker_image_error_message(*self),
    {
        match self {
            DockerImageError::BaseHashUnavailable => to_owned_string("Failed to compute docker base hash"),
            DockerImageError::Resolve(m) => {
                let mut s = to_owned_string("Failed to resolve docker image: ");
                s.append(m.as_str());
                s
            },
        }
    }
}

/// The names of the images that the pipeline builds.
pub open spec fn built_image_names(images: Seq<DockerBuildImage>) -> Seq<Seq<char>> {
    images.map_values(|i: DockerBuildImage| i.name@)
}

/// Whether a job's image is one that the pipeline builds: docker builds are
/// enabled and the image is a bare name among the built images.
pub open spec fn uses_built_image(config: Config, image: Seq<char>) -> bool {
    &&& config.docker_build matches Some(db)
    &&& db.enabled
    &&& !is_full_reference(image)
    &&& built_image_names(db.images@).contains(image)
}

/// The reference of a built image: `<repo>/<image>:<base hash>-<architecture>`.
pub open spec fn built_image_ref(config: Config, image: Seq<char>, base_hash: Seq<char>, architecture: Seq<char>) -> Seq<char> {
    config.docker_build->0.registry.repo@ + "/"@ + image + ":"@ + base_hash + "-"@ + architecture
}

/// The default credentials of the docker settings.
pub open spec fn default_auth(config: Config) -> Option<DockerAuth> {
    match config.docker {
        Some(d) => match d.default_auth {
            Some(n) => named_auth(config, n@),
            None => None,
        },
        None => None,
    }
}

/// The job image for an architecture: a built image tagged with the base hash, else
/// the image resolved for the architecture; with the default credentials.
pub open spec fn job_image_ok(r: Result<CircleCIDockerImage, DockerImageError>, config: Config, image: Seq<char>, architecture: Seq<char>, base_hash: Option<Seq<char>>) -> bool {
    if uses_built_image(config, image) {
        match base_hash {
            None => r == Err::<CircleCIDockerImage, DockerImageError>(DockerImageError::BaseHashUnavailable),
            Some(h) => r matches Ok(img) && img.image@ == built_image_ref(config, image, h, architecture)
                && plain_image(img) && auth_matches(img.auth, default_auth(config)),
        }
    } else {
        match spec_resolve_docker_image(image, Some(architecture), config) {
            Ok(resolved) => r matches Ok(img) && img.image@ == resolved
                && plain_image(img) && auth_matches(img.auth, default_auth(config)),
            Err(m) => r matches Err(DockerImageError::Resolve(e)) && e@ == m,
        }
    }
}

/// An image with nothing set but its reference and credentials.
pub open spec fn plain_image(img: CircleCIDockerImage) -> bool {
    img.name is None && img.entrypoint is None && img.command is None && img.user is None && img.environment is None
}

/// Whether a name is among the built images.
fn is_built_image(images: &Vec<DockerBuildImage>, image: &str) -> (r: bool)
    ensures
        r == built_image_names(images@).contains(image@),
{
    let n = images.len();
    let mut i: usize = 0;
    while i < n
        invariant
            n == images@.len(),
            i <= n,
            forall|j: int| 0 <= j < i ==> (#[trigger] images@[j]).name@ != image@,
        decreases n - i,
    {
        if str_eq(images[i].name.as_str(), image) {
            assert(built_image_names(images@)[i as int] == image@);
            return true;
        }
        i = i + 1;
    }
    proof {
        if built_image_names(images@).contains(image@) {
            let k = choose|k: int| 0 <= k < built_image_names(images@).len() && built_image_names(images@)[k] == image@;
            assert(images@[k].name@ != image@);
        }
    }
    false
}

/// Whether an image is one the pipeline builds.
pub fn is_pipeline_built_image(config: &Config, image: &str) -> (r: bool)
    ensures
        r == uses_built_image(*config, image@),
{
    match &config.docker_build {
        Some(db) => db.enabled && !contains_char(image, '/') && !contains_char(image, ':') && is_built_image(&db.images, image),
        None => false,
    }
}

/// Whether any of the jobs runs on an image the pipeline builds, so that the
/// docker base hash is needed.
pub fn needs_docker_base_hash(config: &Config, jobs: &Vec<(String, Job)>) -> (r: bool)
    ensures
        r == exists|j: int| 0 <= j < jobs@.len() && uses_built_image(*config, (#[trigger] jobs@[j]).1.image@),
{
    let n = jobs.len();
    let mut i: usize = 0;
    while i < n
        invariant
            n == jobs@.len(),
            i <= n,
            forall|j: int| 0 <= j < i ==> !uses_built_image(*config, (#[trigger] jobs@[j]).1.image@),
        decreases n - i,
    {
        if is_pipeline_built_image(config, jobs[i].1.image.as_str()) {
            return true;
        }
        i = i + 1;
    }
    false
}

impl CircleCIGenerator {
    /// The image of a job for an architecture. `base_hash` is the docker base hash,
    /// if it could be computed; it is needed only for images the pipeline builds.
    pub fn build_docker_image_with_architecture(&self, config: &Config, image: &str, architecture: &str, base_hash: Option<&str>) -> (r: Result<CircleCIDockerImage, DockerImageError>)
        ensures
            job_image_ok(r, *config, image@, architecture@, match base_hash { Some(h) => Some(h@), None => None }),
    {
        let built = is_pipeline_built_image(config, image);
        let resolved = if built {
            match base_hash {
                None => return Err(DockerImageError::BaseHashUnavailable),
                Some(h) => {
                    let db = match &config.docker_build { Some(db) => db, None => { return Err(DockerImageError::BaseHashUnavailable); } };
                    let mut r = to_owned_string(db.registry.repo.as_str());
                    r.append("/");
                    r.append(image);
                    r.append(":");
                    r.append(h);
                    r.append("-");
                    r.append(architecture);
                    r
                },
            }
        } else {
            match resolve_docker_image(image, Some(architecture), config) {
                Ok(img) => img,
                Err(e) => return Err(DockerImageError::Resolve(e)),
            }
        };
        let auth = match &config.docker {
            Some(d) => match &d.default_auth {
                Some(name) => match &d.auth {
                    Some(a) => match find_entry(a, name.as_str()) {
                        Some(cred) => Some(CircleCIDockerAuth {
                            username: to_owned_string(cred.username.as_str()),
                            password: to_owned_string(cred.password.as_str()),
                        }),
                        None => None,
                    },
                    None => None,
                },
                None => None,
            },
            None => None,
        };
        Ok(CircleCIDockerImage { image: resolved, auth, name: None, entrypoint: None, command: None, user: None, environment: None })
    }
}

/// The name of a restored cache.
pub open spec fn restored_cache_name(c: CacheRestore) -> Seq<char> {
    match c {
        CacheRestore::Simple(n) => n@,
        CacheRestore::Complex { name, .. } => name@,
    }
}

/// The restore steps of the declared caches that are restored, in order.
pub open spec fn cache_restore_views(config: Config, caches: Seq<(String, JobCache)>, architecture: Seq<char>) -> Seq<YamlView>
    decreases caches.len(),
{
    if caches.len() == 0 {
        Seq::empty()
    } else {
        cache_restore_views(config, caches.drop_last(), architecture) + if caches.last().1.restore {
            seq![cache_restore_view(config, caches.last().0@, architecture, "Gemfile.lock"@)]
        } else {
            Seq::empty()
        }
    }
}

/// The restore steps of the caches restored by name, in order.
pub open spec fn legacy_restore_views(config: Config, restores: Seq<CacheRestore>, architecture: Seq<char>) -> Seq<YamlView> {
    restores.map_values(|c: CacheRestore| cache_restore_view(config, restored_cache_name(c), architecture, "cache_key"@))
}

/// The save steps of the declared caches that have paths, in order.
pub open spec fn cache_save_views(config: Config, caches: Seq<(String, JobCache)>, architecture: Seq<char>) -> Seq<YamlView>
    decreases caches.len(),
{
    if caches.len() == 0 {
        Seq::empty()
    } else {
        cache_save_views(config, caches.drop_last(), architecture) + if caches.last().1.paths@.len() > 0 {
            seq![save_cache_view(spec_circleci_cache_key(config, caches.last().0@, architecture, "Gemfile.lock"@), strs_view(caches.last().1.paths@))]
        } else {
            Seq::empty()
        }
    }
}

/// Whether the configuration uses CircleCI dynamic setup.
pub open spec fn is_dynamic(config: Config) -> bool {
    config.dynamic == Some(true)
}

/// The checkout step of a job, unless it is an approval job.
pub open spec fn checkout_views(config: Config, job: Job) -> Seq<YamlView> {
    if !spec_is_approval_job(job) {
        match spec_checkout_step(config, None, job) {
            Some(v) => seq![v],
            None => Seq::empty(),
        }
    } else {
        Seq::empty()
    }
}

/// Whether a job gets the job-status skip steps: it has source files and the
/// configuration is not dynamic (the setup workflow gates jobs then).
pub open spec fn has_skip_logic(config: Config, job: Job) -> bool {
    !is_dynamic(config) && job.source_files is Some
}

/// The job-status steps of a job with source files: the first ones (submodule
/// commits, hash, skip check), then the checks of the configured backend.
pub open spec fn skip_views(config: Config, job_name: Seq<char>, job: Job) -> Seq<YamlView> {
    initial_skip_views(config, job_name, strs_view(job.source_files->0@), job_submodules(job)) + backend_views(config)
}

/// The steps of a job for an architecture: its checkout (unless an approval job);
/// the job-status steps (with source files, unless dynamic); the restores of its
/// declared caches and of the caches it names; its own steps; the saves of its
/// caches; and the completion steps, whose exists markers are keyed by the job's
/// name and architecture (with source files).
pub open spec fn job_step_views(config: Config, job_name: Seq<char>, job: Job, architecture: Seq<char>) -> Seq<YamlView> {
    checkout_views(config, job)
        + (if has_skip_logic(config, job) { skip_views(config, job_name, job) } else { Seq::empty() })
        + match job.cache { Some(c) => cache_restore_views(config, c@, architecture), None => Seq::empty() }
        + match job.restore_cache { Some(r) => legacy_restore_views(config, r@, architecture), None => Seq::empty() }
        + match job.steps { Some(st) => st@.map_values(|v: YamlValue| v@), None => Seq::empty() }
        + match job.cache { Some(c) => cache_save_views(config, c@, architecture), None => Seq::empty() }
        + (if job.source_files is Some { completion_views(job_exists_key(job_name, architecture)) } else { Seq::empty() })
}

/// Law: the git checkout comes first: a job that is no approval job and has a
/// checkout step starts with it, before any skip, cache or user step.
pub proof fn law_checkout_comes_first(config: Config, job_name: Seq<char>, job: Job, architecture: Seq<char>)
    requires
        !spec_is_approval_job(job),
        spec_checkout_step(config, None, job) is Some,
    ensures
        job_step_views(config, job_name, job, architecture).len() > 0,
        job_step_views(config, job_name, job, architecture)[0] == spec_checkout_step(config, None, job)->0,
{
}

/// The services of a job that the configuration defines, in order.
pub open spec fn job_services(config: Config, refs: Seq<String>) -> Seq<Service>
    decreases refs.len(),
{
    if refs.len() == 0 {
        Seq::empty()
    } else {
        job_services(config, refs.drop_last()) + match config.services {
            Some(svcs) => match lookup(svcs@, refs.last()@) {
                Some(sv) => seq![sv],
                None => Seq::empty(),
            },
            None => Seq::empty(),
        }
    }
}

/// The services a job uses.
pub open spec fn services_of(config: Config, job: Job) -> Seq<Service> {
    match (job.services, config.services) {
        (Some(refs), Some(_)) => job_services(config, refs@),
        _ => Seq::empty(),
    }
}

/// Why a job cannot be converted.
#[derive(Debug, PartialEq)]
pub enum ConvertJobError {
    Image(DockerImageError),
    HashStep(HashStepError),
}

/// Whether a job's image cannot be given for an architecture: a built image
/// without a base hash, or an image name that does not resolve.
pub open spec fn image_fails(config: Config, image: Seq<char>, architecture: Seq<char>, base_hash: Option<Seq<char>>) -> bool {
    if uses_built_image(config, image) {
        base_hash is None
    } else {
        spec_resolve_docker_image(image, Some(architecture), config) is Err
    }
}

/// Whether a job's hash step cannot be built (it has skip logic and its source
/// file groups do not expand).
pub open spec fn hash_fails(config: Config, job: Job) -> bool {
    has_skip_logic(config, job) && spec_hash_step(config, strs_view(job.source_files->0@)) is Err
}

/// Whether converting a job for an architecture fails.
pub open spec fn conversion_fails(config: Config, job: Job, architecture: Seq<char>, base_hash: Option<Seq<char>>) -> bool {
    image_fails(config, job.image@, architecture, base_hash) || hash_fails(config, job)
}

/// What a failed conversion of a job for an architecture gives.
pub open spec fn conversion_error_ok(e: ConvertJobError, config: Config, job: Job, architecture: Seq<char>, base_hash: Option<Seq<char>>) -> bool {
    match e {
        ConvertJobError::Image(ie) => job_image_ok(Err(ie), config, job.image@, architecture, base_hash),
        ConvertJobError::HashStep(he) => has_skip_logic(config, job) && hash_step_matches(Err(he), config, strs_view(job.source_files->0@)),
    }
}

/// The converted job for an architecture.
pub open spec fn converted_job_ok(cj: CircleCIJob, config: Config, job_name: Seq<char>, job: Job, architecture: Seq<char>, base_hash: Option<Seq<char>>) -> bool {
    let services = services_of(config, job);
    &&& cj.docker matches Some(d)
    &&& d@.len() == 1 + services.len()
    &&& job_image_ok(Ok(d@[0]), config, job.image@, architecture, base_hash)
    &&& forall|k: int| 0 <= k < services.len() ==> service_image_ok(#[trigger] d@[1 + k], config, services[k])
    &&& cj.environment matches Some(e) && crate::strutil::str_pairs_view(e@) == seq![("DOCKER_ARCH"@, architecture)]
    &&& opt_str_view(cj.resource_class) == opt_str_view(job.resource_class)
    &&& cj.parallelism == job.parallelism
    &&& cj.executor is None && cj.machine is None && cj.working_directory is None && cj.parameters is None
    &&& steps_typed(cj.steps@)
    &&& step_views(cj.steps@) == job_step_views(config, job_name, job, architecture)
}

/// Appends a step and records it in the views.
proof fn lemma_push_views(before: Seq<CircleCIStep>, after: Seq<CircleCIStep>, v: YamlView)
    requires
        after.len() == before.len() + 1,
        after.subrange(0, before.len() as int) == before,
        after.last().raw@ == v,
    ensures
        step_views(after) == step_views(before).push(v),
{
    assert forall|k: int| 0 <= k < before.len() implies after[k] == before[k] by {
        assert(after.subrange(0, before.len() as int)[k] == after[k]);
    }
    assert(step_views(after) =~= step_views(before).push(v));
}

/// The images of a job: its own image, then its services' images.
pub open spec fn job_images_ok(d: Seq<CircleCIDockerImage>, config: Config, job: Job, architecture: Seq<char>, base_hash: Option<Seq<char>>) -> bool {
    let services = services_of(config, job);
    &&& d.len() == 1 + services.len()
    &&& job_image_ok(Ok(d[0]), config, job.image@, architecture, base_hash)
    &&& forall|k: int| 0 <= k < services.len() ==> service_image_ok(#[trigger] d[1 + k], config, services[k])
}

/// Appends the restore steps of the declared caches that are restored.
fn push_cache_restores(config: &Config, caches: &Vec<(String, JobCache)>, architecture: &str, steps: &mut Vec<CircleCIStep>)
    requires
        steps_typed(old(steps)@),
    ensures
        steps_typed(final(steps)@),
        step_views(final(steps)@) == step_views(old(steps)@) + cache_restore_views(*config, caches@, architecture@),
{
    let ghost start = step_views(steps@);
    let n = caches.len();
    let mut i: usize = 0;
    assert(start + cache_restore_views(*config, caches@.subrange(0, 0), architecture@) =~= start);
    while i < n
        invariant
            n == caches@.len(),
            i <= n,
            steps_typed(steps@),
            step_views(steps@) == start + cache_restore_views(*config, caches@.subrange(0, i as int), architecture@),
        decreases n - i,
    {
        let ghost prev = cache_restore_views(*config, caches@.subrange(0, i as int), architecture@);
        proof {
            let sub = caches@.subrange(0, i + 1);
            assert(sub.drop_last() =~= caches@.subrange(0, i as int));
        }
        if caches[i].1.restore {
            let step = cache_restore_step(config, caches[i].0.as_str(), architecture, "Gemfile.lock");
            let ghost v = step@;
            let ghost b = steps@;
            push_step(steps, step);
            proof { lemma_push_views(b, steps@, v); }
            assert(step_views(steps@) =~= start + cache_restore_views(*config, caches@.subrange(0, i + 1), architecture@));
        } else {
            assert(cache_restore_views(*config, caches@.subrange(0, i + 1), architecture@) =~= prev);
        }
        i = i + 1;
    }
    assert(caches@.subrange(0, n as int) =~= caches@);
}

/// Appends the restore steps of the caches named by the job.
fn push_legacy_restores(config: &Config, restores: &Vec<CacheRestore>, architecture: &str, steps: &mut Vec<CircleCIStep>)
    requires
        steps_typed(old(steps)@),
    ensures
        steps_typed(final(steps)@),
        step_views(final(steps)@) == step_views(old(steps)@) + legacy_restore_views(*config, restores@, architecture@),
{
    let ghost start = step_views(steps@);
    let n = restores.len();
    let mut i: usize = 0;
    assert(start + legacy_restore_views(*config, restores@.subrange(0, 0), architecture@) =~= start);
    while i < n
        invariant
            n == restores@.len(),
            i <= n,
            steps_typed(steps@),
            step_views(steps@) == start + legacy_restore_views(*config, restores@.subrange(0, i as int), architecture@),
        decreases n - i,
    {
        let name: &String = match &restores[i] {
            CacheRestore::Simple(n) => n,
            CacheRestore::Complex { name, .. } => name,
        };
        let step = cache_restore_step(config, name.as_str(), architecture, "cache_key");
        let ghost v = step@;
        let ghost b = steps@;
        push_step(steps, step);
        proof {
            lemma_push_views(b, steps@, v);
            assert(legacy_restore_views(*config, restores@.subrange(0, i + 1), architecture@) =~=
                legacy_restore_views(*config, restores@.subrange(0, i as int), architecture@).push(v));
        }
        i = i + 1;
    }
    assert(restores@.subrange(0, n as int) =~= restores@);
}

/// Appends copies of the job's own steps.
fn push_raw_steps(raw_steps: &Vec<YamlValue>, steps: &mut Vec<CircleCIStep>)
    requires
        steps_typed(old(steps)@),
    ensures
        steps_typed(final(steps)@),
        step_views(final(steps)@) == step_views(old(steps)@) + raw_steps@.map_values(|v: YamlValue| v@),
{
    let ghost start = step_views(steps@);
    let n = raw_steps.len();
    let mut i: usize = 0;
    assert(start + raw_steps@.subrange(0, 0).map_values(|v: YamlValue| v@) =~= start);
    while i < n
        invariant
            n == raw_steps@.len(),
            i <= n,
            steps_typed(steps@),
            step_views(steps@) == start + raw_steps@.subrange(0, i as int).map_values(|v: YamlValue| v@),
        decreases n - i,
    {
        let copy = raw_steps[i].deep_copy();
        let ghost v = copy@;
        let ghost b = steps@;
        push_step(steps, copy);
        proof {
            lemma_push_views(b, steps@, v);
            assert(raw_steps@.subrange(0, i + 1).map_values(|v: YamlValue| v@) =~=
                raw_steps@.subrange(0, i as int).map_values(|v: YamlValue| v@).push(v));
        }
        i = i + 1;
    }
    assert(raw_steps@.subrange(0, n as int) =~= raw_steps@);
}

/// Appends the save steps of the declared caches that have paths.
fn push_cache_saves(config: &Config, caches: &Vec<(String, JobCache)>, architecture: &str, steps: &mut Vec<CircleCIStep>)
    requires
        steps_typed(old(steps)@),
    ensures
        steps_typed(final(steps)@),
        step_views(final(steps)@) == step_views(old(steps)@) + cache_save_views(*config, caches@, architecture@),
{
    let ghost start = step_views(steps@);
    let n = caches.len();
    let mut i: usize = 0;
    assert(start + cache_save_views(*config, caches@.subrange(0, 0), architecture@) =~= start);
    while i < n
        invariant
            n == caches@.len(),
            i <= n,
            steps_typed(steps@),
            step_views(steps@) == start + cache_save_views(*config, caches@.subrange(0, i as int), architecture@),
        decreases n - i,
    {
        let ghost prev = cache_save_views(*config, caches@.subrange(0, i as int), architecture@);
        proof {
            let sub = caches@.subrange(0, i + 1);
            assert(sub.drop_last() =~= caches@.subrange(0, i as int));
        }
        if caches[i].1.paths.len() > 0 {
            let key = circleci_cache_key(config, caches[i].0.as_str(), architecture, "Gemfile.lock");
            let step = save_cache_step(key.as_str(), &caches[i].1.paths);
            let ghost v = step@;
            let ghost b = steps@;
            push_step(steps, step);
            proof { lemma_push_views(b, steps@, v); }
            assert(step_views(steps@) =~= start + cache_save_views(*config, caches@.subrange(0, i + 1), architecture@));
        } else {
            assert(cache_save_views(*config, caches@.subrange(0, i + 1), architecture@) =~= prev);
        }
        i = i + 1;
    }
    assert(caches@.subrange(0, n as int) =~= caches@);
}

impl CircleCIGenerator {
    /// The images of a job for an architecture: its own, then those of the
    /// services it uses that the configuration defines.
    pub fn job_docker_images(&self, config: &Config, job: &Job, architecture: &str, base_hash: Option<&str>) -> (r: Result<Vec<CircleCIDockerImage>, DockerImageError>)
        ensures
            match r {
                Ok(d) => job_images_ok(d@, *config, *job, architecture@, match base_hash { Some(h) => Some(h@), None => None }),
                Err(e) => job_image_ok(Err(e), *config, job.image@, architecture@, match base_hash { Some(h) => Some(h@), None => None }),
            },
    {
        let ghost bh = match base_hash { Some(h) => Some(h@), None => None::<Seq<char>> };
        let image = match self.build_docker_image_with_architecture(config, job.image.as_str(), architecture, base_hash) {
            Ok(img) => img,
            Err(e) => return Err(e),
        };
        let mut docker: Vec<CircleCIDockerImage> = Vec::new();
        docker.push(image);
        match (&job.services, &config.services) {
            (Some(refs), Some(svcs)) => {
                let n = refs.len();
                let mut i: usize = 0;
                assert(job_services(*config, refs@.subrange(0, 0)) =~= Seq::<Service>::empty());
                while i < n
                    invariant
                        n == refs@.len(),
                        i <= n,
                        config.services == Some(*svcs),
                        docker@.len() == 1 + job_services(*config, refs@.subrange(0, i as int)).len(),
                        job_image_ok(Ok(docker@[0]), *config, job.image@, architecture@, bh),
                        forall|k: int| 0 <= k < job_services(*config, refs@.subrange(0, i as int)).len() ==>
                            service_image_ok(#[trigger] docker@[1 + k], *config, job_services(*config, refs@.subrange(0, i as int))[k]),
                    decreases n - i,
                {
                    let ghost prev = job_services(*config, refs@.subrange(0, i as int));
                    let ghost before = docker@;
                    proof {
                        let sub = refs@.subrange(0, i + 1);
                        assert(sub.drop_last() =~= refs@.subrange(0, i as int));
                    }
                    match find_entry(svcs, refs[i].as_str()) {
                        Some(sv) => {
                            let img = self.build_service_image(config, sv);
                            docker.push(img);
                            proof {
                                let now = job_services(*config, refs@.subrange(0, i + 1));
                                assert(now == prev + seq![*sv]);
                                assert forall|k: int| 0 <= k < now.len() implies service_image_ok(#[trigger] docker@[1 + k], *config, now[k]) by {
                                    if k < prev.len() {
                                        assert(docker@[1 + k] == before[1 + k]);
                                    }
                                }
                            }
                        },
                        None => {
                            assert(job_services(*config, refs@.subrange(0, i + 1)) =~= prev);
                        },
                    }
                    i = i + 1;
                }
                assert(refs@.subrange(0, n as int) =~= refs@);
            },
            _ => {},
        }
        Ok(docker)
    }

    /// Appends the checkout step (unless an approval job) and, with skip logic,
    /// the job-status steps.
    fn push_checkout_and_skip(&self, config: &Config, job_name: &str, job: &Job, steps: &mut Vec<CircleCIStep>) -> (r: Result<(), HashStepError>)
        requires
            steps_typed(old(steps)@),
            step_views(old(steps)@) == Seq::<YamlView>::empty(),
        ensures
            steps_typed(final(steps)@),
            match r {
                Ok(()) => step_views(final(steps)@) == checkout_views(*config, *job)
                    + (if has_skip_logic(*config, *job) { skip_views(*config, job_name@, *job) } else { Seq::empty() })
                    && !hash_fails(*config, *job),
                Err(e) => has_skip_logic(*config, *job) && hash_step_matches(Err(e), *config, strs_view(job.source_files->0@)),
            },
    {
        if !Self::is_approval_job(job) {
            match self.resolve_checkout_step(config, None, job) {
                Some(checkout) => {
                    let ghost v = checkout@;
                    let ghost b = steps@;
                    push_step(steps, checkout);
                    proof { lemma_push_views(b, steps@, v); }
                },
                None => {},
            }
        }
        assert(step_views(steps@) =~= checkout_views(*config, *job));
        let ghost after_checkout = step_views(steps@);
        let dynamic = match config.dynamic { Some(d) => d, None => false };
        if !dynamic {
            match &job.source_files {
                Some(source_files) => {
                    let none: Vec<String> = Vec::new();
                    let subs = match &job.source_submodules {
                        Some(x) => x,
                        None => &none,
                    };
                    assert(strs_view(subs@) =~= job_submodules(*job));
                    match push_initial_skip_steps(config, job_name, source_files, subs, steps) {
                        Ok(()) => {},
                        Err(e) => return Err(e),
                    }
                    push_backend_steps(config, steps);
                    assert(step_views(steps@) =~= after_checkout + skip_views(*config, job_name@, *job));
                },
                None => {},
            }
        }
        assert(step_views(steps@) =~= after_checkout
            + (if has_skip_logic(*config, *job) { skip_views(*config, job_name@, *job) } else { Seq::<YamlView>::empty() }));
        Ok(())
    }

    /// Converts the job named `job_name` into a CircleCI job for one architecture.
    /// `base_hash` is the docker base hash, if it could be computed.
    pub fn convert_job_with_architecture(&self, config: &Config, job: &Job, architecture: &str, job_name: &str, base_hash: Option<&str>) -> (r: Result<CircleCIJob, ConvertJobError>)
        ensures
            r is Ok <==> !conversion_fails(*config, *job, architecture@, match base_hash { Some(h) => Some(h@), None => None }),
            match r {
                Ok(cj) => converted_job_ok(cj, *config, job_name@, *job, architecture@, match base_hash { Some(h) => Some(h@), None => None }),
                Err(ConvertJobError::Image(e)) => job_image_ok(Err(e), *config, job.image@, architecture@, match base_hash { Some(h) => Some(h@), None => None }),
                Err(ConvertJobError::HashStep(e)) => has_skip_logic(*config, *job)
                    && hash_step_matches(Err(e), *config, strs_view(job.source_files->0@)),
            },
    {
        let docker = match self.job_docker_images(config, job, architecture, base_hash) {
            Ok(d) => d,
            Err(e) => return Err(ConvertJobError::Image(e)),
        };
        let mut environment: Vec<(String, String)> = Vec::new();
        environment.push((to_owned_string("DOCKER_ARCH"), to_owned_string(architecture)));
        assert(crate::strutil::str_pairs_view(environment@) =~= seq![("DOCKER_ARCH"@, architecture@)]);
        let mut steps: Vec<CircleCIStep> = Vec::new();
        assert(step_views(steps@) =~= Seq::<YamlView>::empty());
        match self.push_checkout_and_skip(config, job_name, job, &mut steps) {
            Ok(()) => {},
            Err(e) => return Err(ConvertJobError::HashStep(e)),
        }
        let ghost p1 = step_views(steps@);
        match &job.cache {
            Some(caches) => push_cache_restores(config, caches, architecture, &mut steps),
            None => {},
        }
        let ghost p2 = step_views(steps@);
        match &job.restore_cache {
            Some(restores) => push_legacy_restores(config, restores, architecture, &mut steps),
            None => {},
        }
        let ghost p3 = step_views(steps@);
        match &job.steps {
            Some(raw_steps) => push_raw_steps(raw_steps, &mut steps),
            None => {},
        }
        let ghost p4 = step_views(steps@);
        match &job.cache {
            Some(caches) => push_cache_saves(config, caches, architecture, &mut steps),
            None => {},
        }
        let ghost p5 = step_views(steps@);
        if job.source_files.is_some() {
            let exists_key = job_exists_key_of(job_name, architecture);
            push_record_completion_steps(&mut steps, exists_key.as_str());
        }
        proof {
            assert(p2 =~= p1 + match job.cache { Some(c) => cache_restore_views(*config, c@, architecture@), None => Seq::empty() });
            assert(p3 =~= p2 + match job.restore_cache { Some(r) => legacy_restore_views(*config, r@, architecture@), None => Seq::empty() });
            assert(p4 =~= p3 + match job.steps { Some(st) => st@.map_values(|v: YamlValue| v@), None => Seq::empty() });
            assert(p5 =~= p4 + match job.cache { Some(c) => cache_save_views(*config, c@, architecture@), None => Seq::empty() });
            assert(step_views(steps@) =~= p5 + (if job.source_files is Some { completion_views(job_exists_key(job_name@, architecture@)) } else { Seq::empty() }));
            assert(step_views(steps@) =~= job_step_views(*config, job_name@, *job, architecture@));
        }
        Ok(CircleCIJob {
            executor: None,
            docker: Some(docker),
            machine: None,
            resource_class: match &job.resource_class { Some(rc) => Some(to_owned_string(rc.as_str())), None => None },
            working_directory: None,
            parallelism: job.parallelism,
            environment: Some(environment),
            parameters: None,
            steps,
        })
    }
}


/// A job entry of a workflow, as the specification sees it: its name, whether
/// it has options, the jobs it requires, and whether it is an approval.
pub struct WorkflowJobView {
    pub name: Seq<char>,
    pub detailed: bool,
    pub required: Option<Seq<Seq<char>>>,
    pub approval: bool,
}

/// Whether a workflow job entry is the one described.
pub open spec fn workflow_job_is(j: CircleCIWorkflowJob, v: WorkflowJobView) -> bool {
    match j {
        CircleCIWorkflowJob::Simple(n) => !v.detailed && n@ == v.name && v.required is None && !v.approval,
        CircleCIWorkflowJob::Detailed { job } => {
            &&& v.detailed
            &&& job@.len() == 1
            &&& job@[0].0@ == v.name
            &&& opt_strs(job@[0].1.requires) == v.required
            &&& (if v.approval { opt_str_view(job@[0].1.job_type) == Some("approval"@) } else { job@[0].1.job_type is None })
            &&& job@[0].1.context is None && job@[0].1.filters is None && job@[0].1.name is None
            &&& job@[0].1.pre_steps is None && job@[0].1.post_steps is None
        },
    }
}

/// The view of an optional list of strings.
pub open spec fn opt_strs(v: Option<Vec<String>>) -> Option<Seq<Seq<char>>> {
    match v {
        Some(x) => Some(strs_view(x@)),
        None => None,
    }
}

/// The architectures of a job: its own, else amd64.
pub open spec fn job_architectures(job: Job) -> Seq<Seq<char>> {
    match job.architectures {
        Some(a) => strs_view(a@),
        None => seq!["amd64"@],
    }
}

/// The name of a job's variant for an architecture: suffixed with it when the job
/// has several architectures.
pub open spec fn variant_name(name: Seq<char>, archs: Seq<Seq<char>>, arch: Seq<char>) -> Seq<char> {
    if archs.len() > 1 { name + "_"@ + arch } else { name }
}

/// A requirement for an architecture variant: the required job's variant when
/// that job has several architectures including this one, else the job itself.
pub open spec fn required_variant(jobs: Seq<(String, Job)>, req: Seq<char>, arch: Seq<char>) -> Seq<char> {
    match lookup(jobs, req) {
        Some(rj) => match rj.architectures {
            Some(ra) => if ra@.len() > 1 && strs_view(ra@).contains(arch) { req + "_"@ + arch } else { req },
            None => req,
        },
        None => req,
    }
}

/// The workflow entries of one job: an approval entry for an approval job, else
/// one entry per architecture, with its requirements mapped to variants.
pub open spec fn job_workflow_entries(jobs: Seq<(String, Job)>, name: Seq<char>, job: Job) -> Seq<WorkflowJobView> {
    if opt_str_view(job.job_type) == Some("approval"@) {
        seq![WorkflowJobView { name, detailed: true, required: crate::models::opt_requires_list(job.requires), approval: true }]
    } else {
        let archs = job_architectures(job);
        archs.map_values(|arch: Seq<char>| match job.requires {
            Some(reqs) => WorkflowJobView {
                name: variant_name(name, archs, arch),
                detailed: true,
                required: Some(crate::models::requires_list(reqs).map_values(|req: Seq<char>| required_variant(jobs, req, arch))),
                approval: false,
            },
            None => WorkflowJobView { name: variant_name(name, archs, arch), detailed: false, required: None, approval: false },
        })
    }
}

/// The workflow entries of the first `k` jobs, in order.
pub open spec fn workflow_entries(jobs: Seq<(String, Job)>, k: int) -> Seq<WorkflowJobView>
    decreases k,
{
    if k <= 0 {
        Seq::empty()
    } else {
        workflow_entries(jobs, k - 1) + job_workflow_entries(jobs, jobs[k - 1].0@, jobs[k - 1].1)
    }
}

/// The workflow's entries are those described.
pub open spec fn workflow_jobs_are(js: Seq<CircleCIWorkflowJob>, vs: Seq<WorkflowJobView>) -> bool {
    js.len() == vs.len() && forall|i: int| 0 <= i < js.len() ==> workflow_job_is(#[trigger] js[i], vs[i])
}

/// The variant of a requirement.
fn required_variant_exec(jobs: &Vec<(String, Job)>, req: &str, arch: &str) -> (r: String)
    ensures
        r@ == required_variant(jobs@, req@, arch@),
{
    match find_entry(jobs, req) {
        Some(rj) => match &rj.architectures {
            Some(ra) => {
                if ra.len() > 1 && contains_string(ra, arch) {
                    let mut s = to_owned_string(req);
                    s.append("_");
                    s.append(arch);
                    s
                } else {
                    to_owned_string(req)
                }
            },
            None => to_owned_string(req),
        },
        None => to_owned_string(req),
    }
}

/// Whether a list holds the string.
pub fn contains_string(v: &Vec<String>, s: &str) -> (r: bool)
    ensures
        r == strs_view(v@).contains(s@),
{
    let n = v.len();
    let mut i: usize = 0;
    while i < n
        invariant
            n == v@.len(),
            i <= n,
            forall|j: int| 0 <= j < i ==> (#[trigger] v@[j])@ != s@,
        decreases n - i,
    {
        if str_eq(v[i].as_str(), s) {
            assert(strs_view(v@)[i as int] == s@);
            return true;
        }
        i = i + 1;
    }
    proof {
        if strs_view(v@).contains(s@) {
            let k = choose|k: int| 0 <= k < strs_view(v@).len() && strs_view(v@)[k] == s@;
            assert(v@[k]@ != s@);
        }
    }
    false
}

/// The workflow entries of one job.
fn push_job_entries(jobs: &Vec<(String, Job)>, name: &str, job: &Job, out: &mut Vec<CircleCIWorkflowJob>)
    ensures
        final(out)@.len() == old(out)@.len() + job_workflow_entries(jobs@, name@, *job).len(),
        final(out)@.subrange(0, old(out)@.len() as int) == old(out)@,
        forall|i: int| 0 <= i < job_workflow_entries(jobs@, name@, *job).len() ==>
            workflow_job_is(#[trigger] final(out)@[old(out)@.len() + i], job_workflow_entries(jobs@, name@, *job)[i]),
{
    let ghost start = out@.len();
    let ghost entries = job_workflow_entries(jobs@, name@, *job);
    proof { reveal_strlit("approval"); reveal_strlit("amd64"); }
    let is_approval = match &job.job_type {
        Some(t) => str_eq(t.as_str(), "approval"),
        None => false,
    };
    if is_approval {
        let required = match &job.requires {
            Some(r) => Some(r.to_vec()),
            None => None,
        };
        let details = CircleCIWorkflowJobDetails {
            requires: required,
            context: None,
            filters: None,
            name: None,
            job_type: Some(to_owned_string("approval")),
            pre_steps: None,
            post_steps: None,
        };
        let mut job_map: Vec<(String, CircleCIWorkflowJobDetails)> = Vec::new();
        job_map.push((to_owned_string(name), details));
        out.push(CircleCIWorkflowJob::Detailed { job: job_map });
        assert(out@.subrange(0, start as int) =~= old(out)@);
        return;
    }
    let mut default_archs: Vec<String> = Vec::new();
    default_archs.push(to_owned_string("amd64"));
    let archs: &Vec<String> = match &job.architectures {
        Some(a) => a,
        None => &default_archs,
    };
    assert(strs_view(default_archs@) =~= seq!["amd64"@]);
    assert(strs_view(archs@) == job_architectures(*job));
    let n = archs.len();
    let mut k: usize = 0;
    while k < n
        invariant
            n == archs@.len(),
            strs_view(archs@) == job_architectures(*job),
            entries == job_workflow_entries(jobs@, name@, *job),
            opt_str_view(job.job_type) != Some("approval"@),
            entries.len() == n,
            k <= n,
            out@.len() == start + k,
            start == old(out)@.len(),
            out@.subrange(0, start as int) == old(out)@,
            forall|i: int| 0 <= i < k ==> workflow_job_is(#[trigger] out@[start + i], entries[i]),
        decreases n - k,
    {
        let arch = archs[k].as_str();
        let variant = if n > 1 {
            let mut v = to_owned_string(name);
            v.append("_");
            v.append(arch);
            v
        } else {
            to_owned_string(name)
        };
        let ghost b = out@;
        match &job.requires {
            Some(job_reqs) => {
                let reqs = job_reqs.to_vec();
                let mut mapped: Vec<String> = Vec::new();
                let m = reqs.len();
                let mut q: usize = 0;
                while q < m
                    invariant
                        m == reqs@.len(),
                        q <= m,
                        mapped@.len() == q,
                        forall|x: int| 0 <= x < q ==> (#[trigger] mapped@[x])@ == required_variant(jobs@, reqs@[x]@, arch@),
                    decreases m - q,
                {
                    mapped.push(required_variant_exec(jobs, reqs[q].as_str(), arch));
                    q = q + 1;
                }
                assert(strs_view(mapped@) =~= crate::models::requires_list(*job_reqs).map_values(|req: Seq<char>| required_variant(jobs@, req, arch@)));
                let details = CircleCIWorkflowJobDetails {
                    requires: Some(mapped),
                    context: None,
                    filters: None,
                    name: None,
                    job_type: None,
                    pre_steps: None,
                    post_steps: None,
                };
                let mut job_map: Vec<(String, CircleCIWorkflowJobDetails)> = Vec::new();
                job_map.push((variant, details));
                out.push(CircleCIWorkflowJob::Detailed { job: job_map });
            },
            None => {
                out.push(CircleCIWorkflowJob::Simple(variant));
            },
        }
        proof {
            assert(out@.subrange(0, start as int) =~= b.subrange(0, start as int));
            assert forall|i: int| 0 <= i < k + 1 implies workflow_job_is(#[trigger] out@[start + i], entries[i]) by {
                if i < k {
                    assert(out@[start + i] == b[start + i]);
                }
            }
        }
        k = k + 1;
    }
}

impl CircleCIGenerator {
    /// The workflow of a set of jobs: each job's entries, in order.
    pub fn build_workflow(&self, workflow_name: &str, jobs: &Vec<(String, Job)>) -> (r: CircleCIWorkflow)
        ensures
            r.when is None && r.unless is None,
            workflow_jobs_are(r.jobs@, workflow_entries(jobs@, jobs@.len() as int)),
    {
        let mut out: Vec<CircleCIWorkflowJob> = Vec::new();
        let n = jobs.len();
        let mut i: usize = 0;
        while i < n
            invariant
                n == jobs@.len(),
                i <= n,
                workflow_jobs_are(out@, workflow_entries(jobs@, i as int)),
            decreases n - i,
        {
            let ghost prev = workflow_entries(jobs@, i as int);
            let ghost b = out@;
            push_job_entries(jobs, jobs[i].0.as_str(), &jobs[i].1, &mut out);
            proof {
                let added = job_workflow_entries(jobs@, jobs@[i as int].0@, jobs@[i as int].1);
                let now = workflow_entries(jobs@, i + 1);
                assert(now == prev + added);
                assert forall|x: int| 0 <= x < out@.len() implies workflow_job_is(#[trigger] out@[x], now[x]) by {
                    if x < b.len() {
                        assert(out@[x] == out@.subrange(0, b.len() as int)[x]);
                        assert(out@[x] == b[x]);
                    } else {
                        let y = x - b.len();
                        assert(workflow_job_is(out@[b.len() + y], added[y]));
                    }
                }
            }
            i = i + 1;
        }
        CircleCIWorkflow { when: None, unless: None, jobs: out }
    }
}

} // verus!
