//! Which commands a generated configuration uses: the template commands its
//! jobs name, and the user commands its jobs name together with every command
//! those refer to, directly or not.

use vstd::prelude::*;
use vstd::string::*;
use crate::models::{Command, CommandStep, has_key, lookup, find_entry, lemma_lookup};
use crate::strutil::{strs_view, to_owned_string, opt_str_view};
use crate::yaml::{YamlValue, YamlView, entry_views_of, views_of, lemma_entry_views_of, lemma_views_of};
use super::config::{CircleCIJob, CircleCIStep};
use super::convert::contains_string;
use super::docker_build::{no_dups, lemma_push_contains};
use super::template_commands::{is_template_command, spec_is_template_command};
use super::generator::CircleCIGenerator;
use super::config::CircleCIConfig;

verus! {

broadcast use vstd::string::group_string_axioms;

/// The string keys of every mapping in a value, at any depth, in order.
pub open spec fn key_names(v: YamlView) -> Seq<Seq<char>>
    decreases v,
{
    match v {
        YamlView::Mapping(es) => {
            proof {
                assert(decreases_to!(v => es));
            }
            entry_key_names(es)
        },
        YamlView::Sequence(items) => {
            proof {
                assert(decreases_to!(v => items));
            }
            item_key_names(items)
        },
        _ => Seq::empty(),
    }
}

/// The string keys of mapping entries and of their values, at any depth.
pub open spec fn entry_key_names(es: Seq<(YamlView, YamlView)>) -> Seq<Seq<char>>
    decreases es,
{
    if es.len() == 0 {
        Seq::empty()
    } else {
        proof {
            assert(decreases_to!(es => es.subrange(0, es.len() - 1)));
            assert(decreases_to!(es => es[es.len() - 1]));
            assert(decreases_to!(es[es.len() - 1] => es[es.len() - 1].1));
        }
        entry_key_names(es.subrange(0, es.len() - 1)) + match es[es.len() - 1].0 {
            YamlView::Str(k) => seq![k],
            _ => Seq::empty(),
        } + key_names(es[es.len() - 1].1)
    }
}

/// The string keys of the mappings in a list of values, at any depth.
pub open spec fn item_key_names(items: Seq<YamlView>) -> Seq<Seq<char>>
    decreases items,
{
    if items.len() == 0 {
        Seq::empty()
    } else {
        proof {
            assert(decreases_to!(items => items.subrange(0, items.len() - 1)));
            assert(decreases_to!(items => items[items.len() - 1]));
        }
        item_key_names(items.subrange(0, items.len() - 1)) + key_names(items[items.len() - 1])
    }
}

/// Appends the string keys of every mapping in `v`, at any depth.
pub fn collect_keys(v: &YamlValue, out: &mut Vec<String>)
    ensures
        strs_view(final(out)@) == strs_view(old(out)@) + key_names(v@),
    decreases *v,
{
    let ghost start = strs_view(out@);
    match v {
        YamlValue::Mapping(entries) => {
            proof {
                lemma_entry_views_of(entries@);
            }
            let ghost es = entry_views_of(entries@);
            let n = entries.len();
            let mut i: usize = 0;
            assert(es.subrange(0, 0) =~= Seq::<(YamlView, YamlView)>::empty());
            while i < n
                invariant
                    n == entries@.len(),
                    i <= n,
                    es == entry_views_of(entries@),
                    es.len() == n,
                    forall|j: int| 0 <= j < n ==> #[trigger] es[j] == (yaml_view_of(entries@[j].0), yaml_view_of(entries@[j].1)),
                    *v == YamlValue::Mapping(*entries),
                    strs_view(out@) == start + entry_key_names(es.subrange(0, i as int)),
                decreases n - i,
            {
                proof {
                    assert(decreases_to!(*v => v->Mapping_0));
                    assert(decreases_to!(*entries => entries@));
                    assert(decreases_to!(entries@ => entries@[i as int]));
                    assert(decreases_to!(entries@[i as int] => entries@[i as int].1));
                }
                let ghost before = strs_view(out@);
                match &entries[i].0 {
                    YamlValue::Str(k) => {
                        out.push(to_owned_string(k.as_str()));
                        assert(strs_view(out@) =~= before + seq![k@]);
                    },
                    _ => {
                        assert(strs_view(out@) =~= before + Seq::<Seq<char>>::empty());
                    },
                }
                let ghost mid = strs_view(out@);
                collect_keys(&entries[i].1, out);
                proof {
                    let sub = es.subrange(0, i + 1);
                    assert(sub.subrange(0, sub.len() - 1) =~= es.subrange(0, i as int));
                    assert(sub[sub.len() - 1] == es[i as int]);
                    assert(es[i as int].1 == entries@[i as int].1@);
                    assert(mid == before + match es[i as int].0 { YamlView::Str(k) => seq![k], _ => Seq::<Seq<char>>::empty() });
                    assert(strs_view(out@) =~= start + entry_key_names(sub));
                }
                i = i + 1;
            }
            assert(es.subrange(0, n as int) =~= es);
        },
        YamlValue::Sequence(items) => {
            proof {
                lemma_views_of(items@);
            }
            let ghost vs = views_of(items@);
            let n = items.len();
            let mut i: usize = 0;
            assert(vs.subrange(0, 0) =~= Seq::<YamlView>::empty());
            while i < n
                invariant
                    n == items@.len(),
                    i <= n,
                    vs == views_of(items@),
                    vs.len() == n,
                    forall|j: int| 0 <= j < n ==> #[trigger] vs[j] == yaml_view_of(items@[j]),
                    *v == YamlValue::Sequence(*items),
                    strs_view(out@) == start + item_key_names(vs.subrange(0, i as int)),
                decreases n - i,
            {
                proof {
                    assert(decreases_to!(*v => v->Sequence_0));
                    assert(decreases_to!(*items => items@));
                    assert(decreases_to!(items@ => items@[i as int]));
                }
                collect_keys(&items[i], out);
                proof {
                    let sub = vs.subrange(0, i + 1);
                    assert(sub.subrange(0, sub.len() - 1) =~= vs.subrange(0, i as int));
                    assert(sub[sub.len() - 1] == vs[i as int]);
                    assert(strs_view(out@) =~= start + item_key_names(sub));
                }
                i = i + 1;
            }
            assert(vs.subrange(0, n as int) =~= vs);
        },
        _ => {
            assert(strs_view(out@) =~= start + key_names(v@));
        },
    }
}

/// The view of a value (spelled out for triggers).
pub open spec fn yaml_view_of(v: YamlValue) -> YamlView {
    v@
}

/// Whether a template command is named by the type of a step of the jobs.
pub open spec fn uses_template(jobs: Seq<(String, CircleCIJob)>, n: Seq<char>) -> bool {
    spec_is_template_command(n) && exists|k: int, s: int| 0 <= k < jobs.len() && 0 <= s < jobs[k].1.steps@.len()
        && #[trigger] opt_str_view(jobs[k].1.steps@[s].step_type) == Some(n)
}

/// Whether a step of a generated job names `d`: as the whole step, as its
/// type, or as a key anywhere in it.
pub open spec fn step_names(step: CircleCIStep, d: Seq<char>) -> bool {
    step.raw@ == YamlView::Str(d) || opt_str_view(step.step_type) == Some(d) || key_names(step.raw@).contains(d)
}

/// Whether an available command is named by a step of the jobs.
pub open spec fn directly_used(jobs: Seq<(String, CircleCIJob)>, commands: Seq<(String, Command)>, d: Seq<char>) -> bool {
    has_key(commands, d) && exists|k: int, s: int| 0 <= k < jobs.len() && 0 <= s < jobs[k].1.steps@.len()
        && #[trigger] step_names(jobs[k].1.steps@[s], d)
}

/// The names a command step refers to: the command it references, or the keys
/// anywhere in a raw step.
pub open spec fn step_refs(s: CommandStep) -> Seq<Seq<char>> {
    match s {
        CommandStep::CommandRef(n) => seq![n@],
        CommandStep::Raw(v) => key_names(v@),
        CommandStep::Simple { .. } => Seq::empty(),
    }
}

/// The names the steps refer to, in order.
pub open spec fn steps_refs(steps: Seq<CommandStep>) -> Seq<Seq<char>>
    decreases steps.len(),
{
    if steps.len() == 0 {
        Seq::empty()
    } else {
        steps_refs(steps.drop_last()) + step_refs(steps.last())
    }
}

/// Whether the command named `c` refers to the available command `d`.
pub open spec fn refers(commands: Seq<(String, Command)>, c: Seq<char>, d: Seq<char>) -> bool {
    &&& has_key(commands, d)
    &&& lookup(commands, c) matches Some(cmd) && steps_refs(cmd.steps@).contains(d)
}

/// Whether each command of `path` refers to the next.
pub open spec fn cmd_chain(commands: Seq<(String, Command)>, path: Seq<Seq<char>>) -> bool {
    forall|i: int| 0 <= i < path.len() - 1 ==> #[trigger] refers(commands, path[i], path[i + 1])
}

/// Whether `y` is `r`, or is referred to from `r` through at most `k` references.
pub open spec fn cmd_reaches_in(commands: Seq<(String, Command)>, r: Seq<char>, y: Seq<char>, k: nat) -> bool {
    exists|path: Seq<Seq<char>>| 1 <= path.len() <= k + 1 && path[0] == r && path.last() == y
        && #[trigger] cmd_chain(commands, path)
}

/// Whether the available command `d` is used: named by a job step, or referred
/// to from such a command, directly or not. (A chain of distinct commands has
/// no more references than there are commands.)
pub open spec fn uses_command(jobs: Seq<(String, CircleCIJob)>, commands: Seq<(String, Command)>, d: Seq<char>) -> bool {
    exists|r: Seq<char>| #[trigger] directly_used(jobs, commands, r) && cmd_reaches_in(commands, r, d, commands.len() as nat)
}

/// One more reference: what is reached through `k + 1` references is what is
/// reached through `k`, and what those refer to.
pub proof fn lemma_cmd_reaches_step(commands: Seq<(String, Command)>, r: Seq<char>, y: Seq<char>, k: nat)
    ensures
        cmd_reaches_in(commands, r, y, k + 1) == (cmd_reaches_in(commands, r, y, k)
            || exists|x: Seq<char>| #[trigger] cmd_reaches_in(commands, r, x, k) && refers(commands, x, y)),
{
    if cmd_reaches_in(commands, r, y, k + 1) && !cmd_reaches_in(commands, r, y, k) {
        let path = choose|path: Seq<Seq<char>>| 1 <= path.len() <= k + 2 && path[0] == r && path.last() == y
            && #[trigger] cmd_chain(commands, path);
        if path.len() <= k + 1 {
            assert(cmd_reaches_in(commands, r, y, k));
        }
        let prefix = path.drop_last();
        let x = prefix.last();
        assert(cmd_chain(commands, prefix)) by {
            assert forall|i: int| 0 <= i < prefix.len() - 1 implies #[trigger] refers(commands, prefix[i], prefix[i + 1]) by {
                assert(refers(commands, path[i], path[i + 1]));
            }
        }
        assert(cmd_reaches_in(commands, r, x, k));
        assert(refers(commands, path[k as int], path[k as int + 1]));
    }
    if exists|x: Seq<char>| #[trigger] cmd_reaches_in(commands, r, x, k) && refers(commands, x, y) {
        let x = choose|x: Seq<char>| #[trigger] cmd_reaches_in(commands, r, x, k) && refers(commands, x, y);
        let path = choose|path: Seq<Seq<char>>| 1 <= path.len() <= k + 1 && path[0] == r && path.last() == x
            && #[trigger] cmd_chain(commands, path);
        let longer = path.push(y);
        assert(cmd_chain(commands, longer)) by {
            assert forall|i: int| 0 <= i < longer.len() - 1 implies #[trigger] refers(commands, longer[i], longer[i + 1]) by {
                if i < path.len() - 1 {
                    assert(refers(commands, path[i], path[i + 1]));
                }
            }
        }
        assert(cmd_reaches_in(commands, r, y, k + 1));
    }
    if cmd_reaches_in(commands, r, y, k) {
        let path = choose|path: Seq<Seq<char>>| 1 <= path.len() <= k + 1 && path[0] == r && path.last() == y
            && #[trigger] cmd_chain(commands, path);
        assert(cmd_reaches_in(commands, r, y, k + 1));
    }
}

/// Through no reference, only `r` itself is reached.
pub proof fn lemma_cmd_reaches_zero(commands: Seq<(String, Command)>, r: Seq<char>, y: Seq<char>)
    ensures
        cmd_reaches_in(commands, r, y, 0) == (y == r),
{
    if y == r {
        let path = seq![r];
        assert(cmd_chain(commands, path));
    }
}

/// The names of the available commands.
pub open spec fn command_names(commands: Seq<(String, Command)>) -> Set<Seq<char>> {
    commands.map_values(|e: (String, Command)| e.0@).to_set()
}

/// The command names reached from `r` through at most `k` references.
pub open spec fn reached_commands(commands: Seq<(String, Command)>, r: Seq<char>, k: nat) -> Set<Seq<char>> {
    command_names(commands).filter(|x: Seq<char>| cmd_reaches_in(commands, r, x, k))
}

/// Whether one more reference reaches something new.
pub open spec fn cmd_grows(commands: Seq<(String, Command)>, r: Seq<char>, k: nat) -> bool {
    exists|y: Seq<char>| #[trigger] cmd_reaches_in(commands, r, y, k + 1) && !cmd_reaches_in(commands, r, y, k)
}

/// A command that refers to something is an available command.
proof fn lemma_referrer_named(commands: Seq<(String, Command)>, x: Seq<char>, y: Seq<char>)
    requires
        refers(commands, x, y),
    ensures
        command_names(commands).contains(x),
{
    lemma_lookup(commands, x);
    let i = choose|i: int| 0 <= i < commands.len() && (#[trigger] commands[i]).0@ == x && commands[i].1 == lookup(commands, x)->0
        && forall|j: int| 0 <= j < i ==> (#[trigger] commands[j]).0@ != x;
    assert(commands.map_values(|e: (String, Command)| e.0@)[i] == x);
}

proof fn lemma_cmd_no_growth_stays(commands: Seq<(String, Command)>, r: Seq<char>, k: nat)
    requires
        !cmd_grows(commands, r, k),
    ensures
        !cmd_grows(commands, r, k + 1),
{
    assert forall|y: Seq<char>| #[trigger] cmd_reaches_in(commands, r, y, k + 2) implies cmd_reaches_in(commands, r, y, k + 1) by {
        lemma_cmd_reaches_step(commands, r, y, k + 1);
        if !cmd_reaches_in(commands, r, y, k + 1) {
            let x = choose|x: Seq<char>| #[trigger] cmd_reaches_in(commands, r, x, k + 1) && refers(commands, x, y);
            assert(cmd_reaches_in(commands, r, x, k));
            lemma_cmd_reaches_step(commands, r, y, k);
        }
    }
}

proof fn lemma_cmd_no_growth_from(commands: Seq<(String, Command)>, r: Seq<char>, j: nat, m: nat)
    requires
        !cmd_grows(commands, r, j),
        j <= m,
    ensures
        !cmd_grows(commands, r, m),
    decreases m - j,
{
    if j < m {
        lemma_cmd_no_growth_stays(commands, r, j);
        lemma_cmd_no_growth_from(commands, r, j + 1, m);
    }
}

/// Each reference that reaches something new adds a command to what was reached.
proof fn lemma_cmd_growth_counts(commands: Seq<(String, Command)>, r: Seq<char>, k: nat)
    requires
        forall|j: nat| j <= k ==> #[trigger] cmd_grows(commands, r, j),
    ensures
        reached_commands(commands, r, k).finite(),
        reached_commands(commands, r, k).len() >= k + 1,
    decreases k,
{
    broadcast use vstd::seq_lib::seq_to_set_is_finite;
    vstd::set_lib::lemma_len_subset(reached_commands(commands, r, k), command_names(commands));
    assert(cmd_grows(commands, r, k));
    let y = choose|y: Seq<char>| #[trigger] cmd_reaches_in(commands, r, y, k + 1) && !cmd_reaches_in(commands, r, y, k);
    lemma_cmd_reaches_step(commands, r, y, k);
    let x = choose|x: Seq<char>| #[trigger] cmd_reaches_in(commands, r, x, k) && refers(commands, x, y);
    lemma_referrer_named(commands, x, y);
    assert(reached_commands(commands, r, k).contains(x));
    if k == 0 {
        assert(reached_commands(commands, r, k).remove(x).len() == reached_commands(commands, r, k).len() - 1);
    } else {
        let km = (k - 1) as nat;
        lemma_cmd_growth_counts(commands, r, km);
        if cmd_reaches_in(commands, r, x, km) {
            lemma_cmd_reaches_step(commands, r, y, km);
            assert(false);
        }
        assert(reached_commands(commands, r, km).subset_of(reached_commands(commands, r, k).remove(x))) by {
            assert forall|z: Seq<char>| reached_commands(commands, r, km).contains(z) implies reached_commands(commands, r, k).remove(x).contains(z) by {
                lemma_cmd_reaches_step(commands, r, z, km);
            }
        }
        vstd::set_lib::lemma_len_subset(reached_commands(commands, r, km), reached_commands(commands, r, k).remove(x));
    }
}

/// What is reached through more references than there are commands is reached
/// through as many references as there are commands.
proof fn lemma_cmd_reaches_stable(commands: Seq<(String, Command)>, r: Seq<char>, y: Seq<char>)
    requires
        cmd_reaches_in(commands, r, y, commands.len() as nat + 1),
    ensures
        cmd_reaches_in(commands, r, y, commands.len() as nat),
{
    broadcast use vstd::seq_lib::seq_to_set_is_finite;
    let n = commands.len() as nat;
    if !cmd_reaches_in(commands, r, y, n) {
        assert(cmd_grows(commands, r, n));
        assert forall|j: nat| j <= n implies #[trigger] cmd_grows(commands, r, j) by {
            if !cmd_grows(commands, r, j) {
                lemma_cmd_no_growth_from(commands, r, j, n);
            }
        }
        lemma_cmd_growth_counts(commands, r, n);
        let names = commands.map_values(|e: (String, Command)| e.0@);
        names.lemma_cardinality_of_set();
        vstd::set_lib::lemma_len_subset(reached_commands(commands, r, n), command_names(commands));
    }
}

/// Law: the used commands are closed under reference: an available command
/// that a used command refers to is used too.
pub proof fn law_used_commands_closed(jobs: Seq<(String, CircleCIJob)>, commands: Seq<(String, Command)>, d: Seq<char>, e: Seq<char>)
    requires
        uses_command(jobs, commands, d),
        refers(commands, d, e),
    ensures
        uses_command(jobs, commands, e),
{
    let r = choose|r: Seq<char>| #[trigger] directly_used(jobs, commands, r) && cmd_reaches_in(commands, r, d, commands.len() as nat);
    lemma_cmd_reaches_step(commands, r, e, commands.len() as nat);
    lemma_cmd_reaches_stable(commands, r, e);
}

/// Adds to `out` each of `names` that is an available command and not there yet.
fn add_available(out: &mut Vec<String>, names: &Vec<String>, commands: &Vec<(String, Command)>)
    requires
        no_dups(strs_view(old(out)@)),
    ensures
        no_dups(strs_view(final(out)@)),
        forall|d: Seq<char>| #[trigger] strs_view(final(out)@).contains(d) <==> (strs_view(old(out)@).contains(d)
            || (strs_view(names@).contains(d) && has_key(commands@, d))),
{
    let ghost start = strs_view(out@);
    let n = names.len();
    let mut i: usize = 0;
    while i < n
        invariant
            n == names@.len(),
            i <= n,
            no_dups(strs_view(out@)),
            forall|d: Seq<char>| #[trigger] strs_view(out@).contains(d) <==> (start.contains(d)
                || (strs_view(names@).take(i as int).contains(d) && has_key(commands@, d))),
        decreases n - i,
    {
        let x = names[i].as_str();
        let ghost before = strs_view(out@);
        let available = find_entry(commands, x).is_some();
        proof {
            crate::models::lemma_lookup(commands@, x@);
            if available {
                let j = choose|j: int| 0 <= j < commands@.len() && (#[trigger] commands@[j]).0@ == x@
                    && commands@[j].1 == lookup(commands@, x@)->0
                    && forall|j2: int| 0 <= j2 < j ==> (#[trigger] commands@[j2]).0@ != x@;
                assert(has_key(commands@, x@));
            } else {
                assert(!has_key(commands@, x@));
            }
        }
        if available && !contains_string(out, x) {
            out.push(to_owned_string(x));
            assert(strs_view(out@) =~= before.push(x@));
            assert forall|p: int, q: int| 0 <= p < q < strs_view(out@).len() implies strs_view(out@)[p] != strs_view(out@)[q] by {
                if q == before.len() {
                    assert(before[p] == strs_view(out@)[p]);
                    assert(before.contains(before[p]));
                }
            }
        }
        assert(strs_view(names@).take(i + 1) =~= strs_view(names@).take(i as int).push(x@));
        assert forall|d: Seq<char>| #[trigger] strs_view(out@).contains(d) <==> (start.contains(d)
            || (strs_view(names@).take(i + 1).contains(d) && has_key(commands@, d))) by {
            lemma_push_contains(strs_view(names@).take(i as int), x@, d);
            lemma_push_contains(before, x@, d);
        }
        i = i + 1;
    }
    assert(strs_view(names@).take(n as int) =~= strs_view(names@));
}

/// The available commands that the command named `c` refers to, each once.
fn command_refs(commands: &Vec<(String, Command)>, c: &str) -> (r: Vec<String>)
    ensures
        no_dups(strs_view(r@)),
        forall|d: Seq<char>| #[trigger] strs_view(r@).contains(d) <==> refers(commands@, c@, d),
{
    let mut out: Vec<String> = Vec::new();
    match find_entry(commands, c) {
        Some(cmd) => {
            let mut all: Vec<String> = Vec::new();
            let n = cmd.steps.len();
            let mut i: usize = 0;
            assert(cmd.steps@.take(0) =~= Seq::<CommandStep>::empty());
            assert(strs_view(all@) =~= Seq::<Seq<char>>::empty());
            while i < n
                invariant
                    n == cmd.steps@.len(),
                    i <= n,
                    strs_view(all@) == steps_refs(cmd.steps@.take(i as int)),
                decreases n - i,
            {
                let ghost before = strs_view(all@);
                match &cmd.steps[i] {
                    CommandStep::CommandRef(name) => {
                        all.push(to_owned_string(name.as_str()));
                        assert(strs_view(all@) =~= before + seq![name@]);
                    },
                    CommandStep::Raw(v) => {
                        collect_keys(v, &mut all);
                    },
                    CommandStep::Simple { .. } => {
                        assert(strs_view(all@) =~= before + Seq::<Seq<char>>::empty());
                    },
                }
                assert(cmd.steps@.take(i + 1).drop_last() =~= cmd.steps@.take(i as int));
                assert(cmd.steps@.take(i + 1).last() == cmd.steps@[i as int]);
                i = i + 1;
            }
            assert(cmd.steps@.take(n as int) =~= cmd.steps@);
            add_available(&mut out, &all, commands);
        },
        None => {},
    }
    out
}

/// The available commands named by the steps of the jobs, each once.
fn direct_uses(jobs: &Vec<(String, CircleCIJob)>, commands: &Vec<(String, Command)>) -> (r: Vec<String>)
    ensures
        no_dups(strs_view(r@)),
        forall|d: Seq<char>| #[trigger] strs_view(r@).contains(d) <==> directly_used(jobs@, commands@, d),
{
    let mut out: Vec<String> = Vec::new();
    let n = jobs.len();
    let mut k: usize = 0;
    while k < n
        invariant
            n == jobs@.len(),
            k <= n,
            no_dups(strs_view(out@)),
            forall|d: Seq<char>| #[trigger] strs_view(out@).contains(d) <==> (has_key(commands@, d)
                && exists|k2: int, s: int| 0 <= k2 < k && 0 <= s < jobs@[k2].1.steps@.len() && #[trigger] step_names(jobs@[k2].1.steps@[s], d)),
        decreases n - k,
    {
        let steps = &jobs[k].1.steps;
        let m = steps.len();
        let mut t: usize = 0;
        while t < m
            invariant
                n == jobs@.len(),
                k < n,
                m == steps@.len(),
                *steps == jobs@[k as int].1.steps,
                t <= m,
                no_dups(strs_view(out@)),
                forall|d: Seq<char>| #[trigger] strs_view(out@).contains(d) <==> (has_key(commands@, d)
                    && ((exists|k2: int, s: int| 0 <= k2 < k && 0 <= s < jobs@[k2].1.steps@.len() && #[trigger] step_names(jobs@[k2].1.steps@[s], d))
                        || exists|s: int| 0 <= s < t && #[trigger] step_names(steps@[s], d))),
            decreases m - t,
        {
            let step = &steps[t];
            let mut names: Vec<String> = Vec::new();
            match &step.raw {
                YamlValue::Str(x) => { names.push(to_owned_string(x.as_str())); },
                _ => {},
            }
            match &step.step_type {
                Some(x) => { names.push(to_owned_string(x.as_str())); },
                None => {},
            }
            let ghost firsts = strs_view(names@);
            collect_keys(&step.raw, &mut names);
            proof {
                assert forall|d: Seq<char>| strs_view(names@).contains(d) <==> step_names(*step, d) by {
                    assert(strs_view(names@) == firsts + key_names(step.raw@));
                    if step.raw@ == YamlView::Str(d) {
                        assert(firsts[0] == d);
                        assert(strs_view(names@)[0] == d);
                    }
                    if opt_str_view(step.step_type) == Some(d) {
                        let p = firsts.len() - 1;
                        assert(firsts[p] == d);
                        assert(strs_view(names@)[p] == d);
                    }
                    if key_names(step.raw@).contains(d) {
                        let q = choose|q: int| 0 <= q < key_names(step.raw@).len() && key_names(step.raw@)[q] == d;
                        assert(strs_view(names@)[firsts.len() + q] == d);
                    }
                    if strs_view(names@).contains(d) {
                        let q = choose|q: int| 0 <= q < strs_view(names@).len() && strs_view(names@)[q] == d;
                        if q >= firsts.len() {
                            assert(key_names(step.raw@)[q - firsts.len()] == d);
                        }
                    }
                }
            }
            add_available(&mut out, &names, commands);
            assert forall|d: Seq<char>| #[trigger] strs_view(out@).contains(d) <==> (has_key(commands@, d)
                && ((exists|k2: int, s: int| 0 <= k2 < k && 0 <= s < jobs@[k2].1.steps@.len() && #[trigger] step_names(jobs@[k2].1.steps@[s], d))
                    || exists|s: int| 0 <= s < t + 1 && #[trigger] step_names(steps@[s], d))) by {
                if exists|s: int| 0 <= s < t + 1 && #[trigger] step_names(steps@[s], d) {
                    let s = choose|s: int| 0 <= s < t + 1 && #[trigger] step_names(steps@[s], d);
                    if s < t {
                        assert(exists|s2: int| 0 <= s2 < t && #[trigger] step_names(steps@[s2], d));
                    }
                }
                if step_names(steps@[t as int], d) {
                    assert(0 <= t < t + 1);
                }
            }
            t = t + 1;
        }
        assert forall|d: Seq<char>| #[trigger] strs_view(out@).contains(d) <==> (has_key(commands@, d)
            && exists|k2: int, s: int| 0 <= k2 < k + 1 && 0 <= s < jobs@[k2].1.steps@.len() && #[trigger] step_names(jobs@[k2].1.steps@[s], d)) by {
            if exists|k2: int, s: int| 0 <= k2 < k + 1 && 0 <= s < jobs@[k2].1.steps@.len() && #[trigger] step_names(jobs@[k2].1.steps@[s], d) {
                let (k2, s) = choose|k2: int, s: int| 0 <= k2 < k + 1 && 0 <= s < jobs@[k2].1.steps@.len() && #[trigger] step_names(jobs@[k2].1.steps@[s], d);
                if k2 < k {
                    assert(exists|k3: int, s3: int| 0 <= k3 < k && 0 <= s3 < jobs@[k3].1.steps@.len() && #[trigger] step_names(jobs@[k3].1.steps@[s3], d));
                } else {
                    assert(step_names(steps@[s], d));
                }
            }
            if exists|s: int| 0 <= s < m && #[trigger] step_names(steps@[s], d) {
                let s = choose|s: int| 0 <= s < m && #[trigger] step_names(steps@[s], d);
                assert(step_names(jobs@[k as int].1.steps@[s], d));
            }
            if exists|k2: int, s: int| 0 <= k2 < k && 0 <= s < jobs@[k2].1.steps@.len() && #[trigger] step_names(jobs@[k2].1.steps@[s], d) {
                let (k2, s) = choose|k2: int, s: int| 0 <= k2 < k && 0 <= s < jobs@[k2].1.steps@.len() && #[trigger] step_names(jobs@[k2].1.steps@[s], d);
                assert(step_names(jobs@[k2].1.steps@[s], d));
            }
        }
        k = k + 1;
    }
    out
}

/// `cur` with every available command that a command in `cur` refers to added.
fn uses_round(commands: &Vec<(String, Command)>, cur: &Vec<String>) -> (r: Vec<String>)
    requires
        no_dups(strs_view(cur@)),
    ensures
        no_dups(strs_view(r@)),
        forall|y: Seq<char>| #[trigger] strs_view(r@).contains(y) <==> (strs_view(cur@).contains(y)
            || exists|x: Seq<char>| strs_view(cur@).contains(x) && #[trigger] refers(commands@, x, y)),
{
    let mut out = crate::strutil::copy_strings(cur);
    let ghost cv = strs_view(cur@);
    let n = cur.len();
    let mut i: usize = 0;
    while i < n
        invariant
            n == cur@.len(),
            i <= n,
            cv == strs_view(cur@),
            no_dups(strs_view(out@)),
            forall|y: Seq<char>| #[trigger] strs_view(out@).contains(y) <==> (cv.contains(y)
                || exists|j: int| 0 <= j < i && #[trigger] refers(commands@, cv[j], y)),
        decreases n - i,
    {
        let refs = command_refs(commands, cur[i].as_str());
        let ghost before = strs_view(out@);
        super::docker_build::add_all(&mut out, &refs);
        assert forall|y: Seq<char>| #[trigger] strs_view(out@).contains(y) <==> (cv.contains(y)
            || exists|j: int| 0 <= j < i + 1 && #[trigger] refers(commands@, cv[j], y)) by {
            if refers(commands@, cv[i as int], y) {
                assert(strs_view(refs@).contains(y));
            }
            if exists|j: int| 0 <= j < i + 1 && #[trigger] refers(commands@, cv[j], y) {
                let j = choose|j: int| 0 <= j < i + 1 && #[trigger] refers(commands@, cv[j], y);
                if j < i {
                    assert(exists|j2: int| 0 <= j2 < i && #[trigger] refers(commands@, cv[j2], y));
                }
            }
        }
        i = i + 1;
    }
    assert forall|y: Seq<char>| #[trigger] strs_view(out@).contains(y) <==> (cv.contains(y)
        || exists|x: Seq<char>| cv.contains(x) && #[trigger] refers(commands@, x, y)) by {
        if exists|j: int| 0 <= j < n && #[trigger] refers(commands@, cv[j], y) {
            let j = choose|j: int| 0 <= j < n && #[trigger] refers(commands@, cv[j], y);
            assert(cv.contains(cv[j]));
        }
        if exists|x: Seq<char>| cv.contains(x) && #[trigger] refers(commands@, x, y) {
            let x = choose|x: Seq<char>| cv.contains(x) && #[trigger] refers(commands@, x, y);
            let j = choose|j: int| 0 <= j < cv.len() && cv[j] == x;
            assert(refers(commands@, cv[j], y));
        }
    }
    out
}

impl CircleCIGenerator {
    /// The template commands that steps of the jobs name by their type, each once.
    pub fn scan_for_template_commands(&self, config: &CircleCIConfig) -> (r: Vec<String>)
        ensures
            no_dups(strs_view(r@)),
            forall|n: Seq<char>| #[trigger] strs_view(r@).contains(n) <==> uses_template(config.jobs@, n),
    {
        let jobs = &config.jobs;
        let mut out: Vec<String> = Vec::new();
        let n = jobs.len();
        let mut k: usize = 0;
        while k < n
            invariant
                n == jobs@.len(),
                k <= n,
                no_dups(strs_view(out@)),
                forall|d: Seq<char>| #[trigger] strs_view(out@).contains(d) <==> (spec_is_template_command(d)
                    && exists|k2: int, s: int| 0 <= k2 < k && 0 <= s < jobs@[k2].1.steps@.len()
                        && #[trigger] opt_str_view(jobs@[k2].1.steps@[s].step_type) == Some(d)),
            decreases n - k,
        {
            let steps = &jobs[k].1.steps;
            let m = steps.len();
            let mut t: usize = 0;
            while t < m
                invariant
                    n == jobs@.len(),
                    k < n,
                    m == steps@.len(),
                    *steps == jobs@[k as int].1.steps,
                    t <= m,
                    no_dups(strs_view(out@)),
                    forall|d: Seq<char>| #[trigger] strs_view(out@).contains(d) <==> (spec_is_template_command(d)
                        && ((exists|k2: int, s: int| 0 <= k2 < k && 0 <= s < jobs@[k2].1.steps@.len()
                            && #[trigger] opt_str_view(jobs@[k2].1.steps@[s].step_type) == Some(d))
                            || exists|s: int| 0 <= s < t && #[trigger] opt_str_view(steps@[s].step_type) == Some(d))),
                decreases m - t,
            {
                let ghost before = strs_view(out@);
                match &steps[t].step_type {
                    Some(x) => {
                        if is_template_command(x.as_str()) && !contains_string(&out, x.as_str()) {
                            out.push(to_owned_string(x.as_str()));
                            assert(strs_view(out@) =~= before.push(x@));
                            assert forall|p: int, q: int| 0 <= p < q < strs_view(out@).len() implies strs_view(out@)[p] != strs_view(out@)[q] by {
                                if q == before.len() {
                                    assert(before[p] == strs_view(out@)[p]);
                                    assert(before.contains(before[p]));
                                }
                            }
                        }
                    },
                    None => {},
                }
                assert forall|d: Seq<char>| #[trigger] strs_view(out@).contains(d) <==> (spec_is_template_command(d)
                    && ((exists|k2: int, s: int| 0 <= k2 < k && 0 <= s < jobs@[k2].1.steps@.len()
                        && #[trigger] opt_str_view(jobs@[k2].1.steps@[s].step_type) == Some(d))
                        || exists|s: int| 0 <= s < t + 1 && #[trigger] opt_str_view(steps@[s].step_type) == Some(d))) by {
                    if let Some(x) = steps@[t as int].step_type {
                        lemma_push_contains(before, x@, d);
                    }
                    if exists|s: int| 0 <= s < t + 1 && #[trigger] opt_str_view(steps@[s].step_type) == Some(d) {
                        let s = choose|s: int| 0 <= s < t + 1 && #[trigger] opt_str_view(steps@[s].step_type) == Some(d);
                        if s < t {
                            assert(exists|s2: int| 0 <= s2 < t && #[trigger] opt_str_view(steps@[s2].step_type) == Some(d));
                        }
                    }
                    if opt_str_view(steps@[t as int].step_type) == Some(d) {
                        assert(0 <= t < t + 1);
                    }
                }
                t = t + 1;
            }
            assert forall|d: Seq<char>| #[trigger] strs_view(out@).contains(d) <==> (spec_is_template_command(d)
                && exists|k2: int, s: int| 0 <= k2 < k + 1 && 0 <= s < jobs@[k2].1.steps@.len()
                    && #[trigger] opt_str_view(jobs@[k2].1.steps@[s].step_type) == Some(d)) by {
                if exists|k2: int, s: int| 0 <= k2 < k + 1 && 0 <= s < jobs@[k2].1.steps@.len() && #[trigger] opt_str_view(jobs@[k2].1.steps@[s].step_type) == Some(d) {
                    let (k2, s) = choose|k2: int, s: int| 0 <= k2 < k + 1 && 0 <= s < jobs@[k2].1.steps@.len() && #[trigger] opt_str_view(jobs@[k2].1.steps@[s].step_type) == Some(d);
                    if k2 < k {
                        assert(exists|k3: int, s3: int| 0 <= k3 < k && 0 <= s3 < jobs@[k3].1.steps@.len() && #[trigger] opt_str_view(jobs@[k3].1.steps@[s3].step_type) == Some(d));
                    } else {
                        assert(opt_str_view(steps@[s].step_type) == Some(d));
                    }
                }
                if exists|s: int| 0 <= s < m && #[trigger] opt_str_view(steps@[s].step_type) == Some(d) {
                    let s = choose|s: int| 0 <= s < m && #[trigger] opt_str_view(steps@[s].step_type) == Some(d);
                    assert(opt_str_view(jobs@[k as int].1.steps@[s].step_type) == Some(d));
                }
                if exists|k2: int, s: int| 0 <= k2 < k && 0 <= s < jobs@[k2].1.steps@.len() && #[trigger] opt_str_view(jobs@[k2].1.steps@[s].step_type) == Some(d) {
                    let (k2, s) = choose|k2: int, s: int| 0 <= k2 < k && 0 <= s < jobs@[k2].1.steps@.len() && #[trigger] opt_str_view(jobs@[k2].1.steps@[s].step_type) == Some(d);
                    assert(opt_str_view(jobs@[k2].1.steps@[s].step_type) == Some(d));
                }
            }
            k = k + 1;
        }
        out
    }

    /// The user commands the jobs use, each once: those their steps name (as
    /// the step, its type, or a key in it), and every command those refer to,
    /// directly or not.
    pub fn scan_for_user_commands(&self, config: &CircleCIConfig, available_commands: &Vec<(String, Command)>) -> (r: Vec<String>)
        ensures
            no_dups(strs_view(r@)),
            forall|d: Seq<char>| #[trigger] strs_view(r@).contains(d) <==> uses_command(config.jobs@, available_commands@, d),
    {
        let commands = available_commands;
        let mut cur = direct_uses(&config.jobs, commands);
        assert forall|y: Seq<char>| #[trigger] strs_view(cur@).contains(y) <==> exists|r: Seq<char>|
            #[trigger] directly_used(config.jobs@, commands@, r) && cmd_reaches_in(commands@, r, y, 0) by {
            lemma_cmd_reaches_zero(commands@, y, y);
            if exists|r: Seq<char>| #[trigger] directly_used(config.jobs@, commands@, r) && cmd_reaches_in(commands@, r, y, 0) {
                let r = choose|r: Seq<char>| #[trigger] directly_used(config.jobs@, commands@, r) && cmd_reaches_in(commands@, r, y, 0);
                lemma_cmd_reaches_zero(commands@, r, y);
            }
        }
        let n = commands.len();
        let mut k: usize = 0;
        while k < n
            invariant
                n == commands@.len(),
                k <= n,
                no_dups(strs_view(cur@)),
                forall|y: Seq<char>| #[trigger] strs_view(cur@).contains(y) <==> exists|r: Seq<char>|
                    #[trigger] directly_used(config.jobs@, commands@, r) && cmd_reaches_in(commands@, r, y, k as nat),
            decreases n - k,
        {
            let next = uses_round(commands, &cur);
            assert forall|y: Seq<char>| #[trigger] strs_view(next@).contains(y) <==> exists|r: Seq<char>|
                #[trigger] directly_used(config.jobs@, commands@, r) && cmd_reaches_in(commands@, r, y, (k + 1) as nat) by {
                if strs_view(next@).contains(y) {
                    if strs_view(cur@).contains(y) {
                        let r = choose|r: Seq<char>| #[trigger] directly_used(config.jobs@, commands@, r) && cmd_reaches_in(commands@, r, y, k as nat);
                        lemma_cmd_reaches_step(commands@, r, y, k as nat);
                    } else {
                        let x = choose|x: Seq<char>| strs_view(cur@).contains(x) && #[trigger] refers(commands@, x, y);
                        let r = choose|r: Seq<char>| #[trigger] directly_used(config.jobs@, commands@, r) && cmd_reaches_in(commands@, r, x, k as nat);
                        lemma_cmd_reaches_step(commands@, r, y, k as nat);
                    }
                }
                if exists|r: Seq<char>| #[trigger] directly_used(config.jobs@, commands@, r) && cmd_reaches_in(commands@, r, y, (k + 1) as nat) {
                    let r = choose|r: Seq<char>| #[trigger] directly_used(config.jobs@, commands@, r) && cmd_reaches_in(commands@, r, y, (k + 1) as nat);
                    lemma_cmd_reaches_step(commands@, r, y, k as nat);
                    if !cmd_reaches_in(commands@, r, y, k as nat) {
                        let x = choose|x: Seq<char>| #[trigger] cmd_reaches_in(commands@, r, x, k as nat) && refers(commands@, x, y);
                        assert(strs_view(cur@).contains(x));
                    } else {
                        assert(strs_view(cur@).contains(y));
                    }
                }
            }
            cur = next;
            k = k + 1;
        }
        cur
    }
}

} // verus!
