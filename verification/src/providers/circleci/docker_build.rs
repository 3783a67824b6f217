//! Docker images built by the pipeline itself: which images the jobs need (with
//! the images they are built on), and the jobs that build them.

use vstd::prelude::*;
use crate::models::{Config, DockerBuildConfig, DockerBuildImage, Job, JobRequires, has_key, unique_keys, lookup, find_entry, pairs_map, opt_requires_list, map_insert, lemma_pairs_map_unique};
use crate::yaml::{YamlValue, YamlView, views_of, push_item};
use crate::strutil::{str_eq, strs_view, to_owned_string, contains_char, decimal, spec_decimal};
use super::convert::{contains_string, job_architectures, job_status_backend, redis_settings, restore_cache_view, save_cache_view, restore_cache_step, save_cache_step};
use super::generator::{CircleCIGenerator, run_step, run_step_view, spec_setup_remote_docker_step};
use super::docker_images::is_full_reference;

verus! {

broadcast use vstd::string::group_string_axioms;

/// The image named `name`; where several share the name, the last one counts.
pub open spec fn image_named(images: Seq<DockerBuildImage>, name: Seq<char>) -> Option<DockerBuildImage>
    decreases images.len(),
{
    if images.len() == 0 {
        None
    } else if images.last().name@ == name {
        Some(images.last())
    } else {
        image_named(images.drop_last(), name)
    }
}

/// The names the image named `x` is built on (none when no image has that name).
pub open spec fn deps_of(images: Seq<DockerBuildImage>, x: Seq<char>) -> Seq<Seq<char>> {
    match image_named(images, x) {
        Some(img) => strs_view(img.depends_on@),
        None => seq![],
    }
}

/// Whether `path` is a chain of images: each name after the first is one the
/// image named by the one before it is built on.
pub open spec fn is_chain(images: Seq<DockerBuildImage>, path: Seq<Seq<char>>) -> bool {
    forall|i: int| 0 <= i < path.len() - 1 ==> #[trigger] deps_of(images, path[i]).contains(path[i + 1])
}

/// Whether `y` is `r`, or is reached from `r` in at most `k` steps from an
/// image to a name it is built on.
pub open spec fn reaches_in(images: Seq<DockerBuildImage>, r: Seq<char>, y: Seq<char>, k: nat) -> bool {
    exists|path: Seq<Seq<char>>| 1 <= path.len() <= k + 1 && path[0] == r && path.last() == y
        && #[trigger] is_chain(images, path)
}

/// One more step: what is reached in `k + 1` steps is what is reached in `k`,
/// and the names that those are built on.
pub proof fn lemma_reaches_step(images: Seq<DockerBuildImage>, r: Seq<char>, y: Seq<char>, k: nat)
    ensures
        reaches_in(images, r, y, k + 1) == (reaches_in(images, r, y, k)
            || exists|x: Seq<char>| #[trigger] reaches_in(images, r, x, k) && deps_of(images, x).contains(y)),
{
    if reaches_in(images, r, y, k + 1) && !reaches_in(images, r, y, k) {
        let path = choose|path: Seq<Seq<char>>| 1 <= path.len() <= k + 2 && path[0] == r && path.last() == y
            && #[trigger] is_chain(images, path);
        if path.len() <= k + 1 {
            assert(reaches_in(images, r, y, k));
        }
        assert(path.len() == k + 2);
        let prefix = path.drop_last();
        let x = prefix.last();
        assert(is_chain(images, prefix)) by {
            assert forall|i: int| 0 <= i < prefix.len() - 1 implies #[trigger] deps_of(images, prefix[i]).contains(prefix[i + 1]) by {
                assert(deps_of(images, path[i]).contains(path[i + 1]));
            }
        }
        assert(reaches_in(images, r, x, k));
        assert(deps_of(images, path[k as int]).contains(path[k as int + 1]));
    }
    if exists|x: Seq<char>| #[trigger] reaches_in(images, r, x, k) && deps_of(images, x).contains(y) {
        let x = choose|x: Seq<char>| #[trigger] reaches_in(images, r, x, k) && deps_of(images, x).contains(y);
        let path = choose|path: Seq<Seq<char>>| 1 <= path.len() <= k + 1 && path[0] == r && path.last() == x
            && #[trigger] is_chain(images, path);
        let longer = path.push(y);
        assert(is_chain(images, longer)) by {
            assert forall|i: int| 0 <= i < longer.len() - 1 implies #[trigger] deps_of(images, longer[i]).contains(longer[i + 1]) by {
                if i < path.len() - 1 {
                    assert(deps_of(images, path[i]).contains(path[i + 1]));
                }
            }
        }
        assert(reaches_in(images, r, y, k + 1));
    }
    if reaches_in(images, r, y, k) {
        let path = choose|path: Seq<Seq<char>>| 1 <= path.len() <= k + 1 && path[0] == r && path.last() == y
            && #[trigger] is_chain(images, path);
        assert(reaches_in(images, r, y, k + 1));
    }
}

/// In no steps, only `r` itself is reached.
pub proof fn lemma_reaches_zero(images: Seq<DockerBuildImage>, r: Seq<char>, y: Seq<char>)
    ensures
        reaches_in(images, r, y, 0) == (y == r),
{
    if y == r {
        let path = seq![r];
        assert(is_chain(images, path));
    }
}

/// The names of the images.
pub open spec fn image_names(images: Seq<DockerBuildImage>) -> Set<Seq<char>> {
    images.map_values(|i: DockerBuildImage| i.name@).to_set()
}

/// A name that an image has, or that something is built on and is an image's, is among the names.
proof fn lemma_named_in_names(images: Seq<DockerBuildImage>, x: Seq<char>)
    requires
        image_named(images, x) is Some,
    ensures
        image_names(images).contains(x),
    decreases images.len(),
{
    if images.last().name@ == x {
        assert(images.map_values(|i: DockerBuildImage| i.name@)[images.len() - 1] == x);
    } else {
        lemma_named_in_names(images.drop_last(), x);
        let prev = images.drop_last().map_values(|i: DockerBuildImage| i.name@);
        let i = choose|i: int| 0 <= i < prev.len() && #[trigger] prev[i] == x;
        assert(images.map_values(|i: DockerBuildImage| i.name@)[i] == x);
    }
}

/// The image names reached from `r` in at most `k` steps.
pub open spec fn reached_names(images: Seq<DockerBuildImage>, r: Seq<char>, k: nat) -> Set<Seq<char>> {
    image_names(images).filter(|x: Seq<char>| reaches_in(images, r, x, k))
}

/// Whether one more step reaches something new.
pub open spec fn grows(images: Seq<DockerBuildImage>, r: Seq<char>, k: nat) -> bool {
    exists|y: Seq<char>| #[trigger] reaches_in(images, r, y, k + 1) && !reaches_in(images, r, y, k)
}

/// Once a step reaches nothing new, the next one does not either.
proof fn lemma_no_growth_stays(images: Seq<DockerBuildImage>, r: Seq<char>, k: nat)
    requires
        !grows(images, r, k),
    ensures
        !grows(images, r, k + 1),
{
    assert forall|y: Seq<char>| #[trigger] reaches_in(images, r, y, k + 2) implies reaches_in(images, r, y, k + 1) by {
        lemma_reaches_step(images, r, y, k + 1);
        if !reaches_in(images, r, y, k + 1) {
            let x = choose|x: Seq<char>| #[trigger] reaches_in(images, r, x, k + 1) && deps_of(images, x).contains(y);
            assert(reaches_in(images, r, x, k));
            lemma_reaches_step(images, r, y, k);
        }
    }
}

proof fn lemma_no_growth_from(images: Seq<DockerBuildImage>, r: Seq<char>, j: nat, m: nat)
    requires
        !grows(images, r, j),
        j <= m,
    ensures
        !grows(images, r, m),
    decreases m - j,
{
    if j < m {
        lemma_no_growth_stays(images, r, j);
        lemma_no_growth_from(images, r, j + 1, m);
    }
}

/// Each step that reaches something new adds an image name to what was reached.
proof fn lemma_growth_counts(images: Seq<DockerBuildImage>, r: Seq<char>, k: nat)
    requires
        forall|j: nat| j <= k ==> #[trigger] grows(images, r, j),
    ensures
        reached_names(images, r, k).finite(),
        reached_names(images, r, k).len() >= k + 1,
    decreases k,
{
    broadcast use vstd::seq_lib::seq_to_set_is_finite;
    let names = image_names(images);
    vstd::set_lib::lemma_len_subset(reached_names(images, r, k), names);
    assert(grows(images, r, k));
    let y = choose|y: Seq<char>| #[trigger] reaches_in(images, r, y, k + 1) && !reaches_in(images, r, y, k);
    lemma_reaches_step(images, r, y, k);
    let x = choose|x: Seq<char>| #[trigger] reaches_in(images, r, x, k) && deps_of(images, x).contains(y);
    assert(image_named(images, x) is Some);
    lemma_named_in_names(images, x);
    assert(reached_names(images, r, k).contains(x));
    if k == 0 {
        assert(reached_names(images, r, k).remove(x).len() == reached_names(images, r, k).len() - 1);
    } else {
        let km = (k - 1) as nat;
        lemma_growth_counts(images, r, km);
        if reaches_in(images, r, x, km) {
            lemma_reaches_step(images, r, y, km);
            assert(false);
        }
        assert(reached_names(images, r, km).subset_of(reached_names(images, r, k).remove(x))) by {
            assert forall|z: Seq<char>| reached_names(images, r, km).contains(z) implies reached_names(images, r, k).remove(x).contains(z) by {
                lemma_reaches_step(images, r, z, km);
            }
        }
        vstd::set_lib::lemma_len_subset(reached_names(images, r, km), reached_names(images, r, k).remove(x));
    }
}

/// Whatever is reached in more steps than there are images is reached within
/// as many steps as there are images.
proof fn lemma_reaches_stable(images: Seq<DockerBuildImage>, r: Seq<char>, y: Seq<char>)
    requires
        reaches_in(images, r, y, images.len() as nat + 1),
    ensures
        reaches_in(images, r, y, images.len() as nat),
{
    broadcast use vstd::seq_lib::seq_to_set_is_finite;
    let n = images.len() as nat;
    if !reaches_in(images, r, y, n) {
        assert(grows(images, r, n));
        assert forall|j: nat| j <= n implies #[trigger] grows(images, r, j) by {
            if !grows(images, r, j) {
                lemma_no_growth_from(images, r, j, n);
            }
        }
        lemma_growth_counts(images, r, n);
        let names = images.map_values(|i: DockerBuildImage| i.name@);
        names.lemma_cardinality_of_set();
        vstd::set_lib::lemma_len_subset(reached_names(images, r, n), image_names(images));
    }
}

/// Whether `y` is `r` or something `r` is built on, directly or not. (Without
/// cycles, a chain has no more steps than there are images.)
pub open spec fn reaches(images: Seq<DockerBuildImage>, r: Seq<char>, y: Seq<char>) -> bool {
    reaches_in(images, r, y, images.len() as nat)
}

/// What a sequence holds after a push.
pub proof fn lemma_push_contains(s: Seq<Seq<char>>, v: Seq<char>, y: Seq<char>)
    ensures
        s.push(v).contains(y) == (s.contains(y) || y == v),
{
    if s.contains(y) {
        let k = choose|k: int| 0 <= k < s.len() && s[k] == y;
        assert(s.push(v)[k] == y);
    }
    if y == v {
        assert(s.push(v)[s.len() as int] == y);
    }
    if s.push(v).contains(y) {
        let k = choose|k: int| 0 <= k < s.push(v).len() && s.push(v)[k] == y;
        if k < s.len() {
            assert(s[k] == y);
        }
    }
}

/// Finds the image named `name` (the last such).
pub fn find_image<'a>(images: &'a Vec<DockerBuildImage>, name: &str) -> (r: Option<&'a DockerBuildImage>)
    ensures
        match r {
            Some(img) => image_named(images@, name@) == Some(*img),
            None => image_named(images@, name@) is None,
        },
{
    let mut i = images.len();
    assert(images@.subrange(0, i as int) =~= images@);
    while i > 0
        invariant
            i <= images@.len(),
            image_named(images@, name@) == image_named(images@.subrange(0, i as int), name@),
        decreases i,
    {
        proof {
            assert(images@.subrange(0, i as int).drop_last() =~= images@.subrange(0, i - 1));
        }
        if str_eq(images[i - 1].name.as_str(), name) {
            return Some(&images[i - 1]);
        }
        i = i - 1;
    }
    None
}

/// `cur` with every name that an image in `cur` is built on added.
fn reach_round(images: &Vec<DockerBuildImage>, cur: &Vec<String>) -> (r: Vec<String>)
    ensures
        forall|y: Seq<char>| #[trigger] strs_view(r@).contains(y) <==> (strs_view(cur@).contains(y)
            || exists|x: Seq<char>| strs_view(cur@).contains(x) && #[trigger] deps_of(images@, x).contains(y)),
{
    broadcast use vstd::seq_lib::group_seq_properties;
    let ghost cv = strs_view(cur@);
    let mut out: Vec<String> = Vec::new();
    let n = cur.len();
    let mut i: usize = 0;
    while i < n
        invariant
            n == cur@.len(),
            i <= n,
            cv == strs_view(cur@),
            forall|y: Seq<char>| #[trigger] strs_view(out@).contains(y) <==> (cv.take(i as int).contains(y)
                || exists|j: int| 0 <= j < i && #[trigger] deps_of(images@, cv[j]).contains(y)),
        decreases n - i,
    {
        let name = cur[i].as_str();
        assert(cv[i as int] == name@);
        let ghost before = strs_view(out@);
        if !contains_string(&out, name) {
            out.push(to_owned_string(name));
            assert(strs_view(out@) =~= before.push(name@));
        }
        assert(cv.take(i + 1) =~= cv.take(i as int).push(name@));
        assert forall|y: Seq<char>| #[trigger] strs_view(out@).contains(y) <==> (cv.take(i + 1).contains(y)
            || exists|j: int| 0 <= j < i && #[trigger] deps_of(images@, cv[j]).contains(y)) by {
            lemma_push_contains(cv.take(i as int), name@, y);
            lemma_push_contains(before, name@, y);
        }
        match find_image(images, name) {
            Some(img) => {
                let deps = &img.depends_on;
                let m = deps.len();
                let mut t: usize = 0;
                while t < m
                    invariant
                        m == deps@.len(),
                        t <= m,
                        i < n,
                        n == cur@.len(),
                        cv == strs_view(cur@),
                        cv[i as int] == name@,
                        deps_of(images@, name@) == strs_view(deps@),
                        forall|y: Seq<char>| #[trigger] strs_view(out@).contains(y) <==> (cv.take(i + 1).contains(y)
                            || (exists|j: int| 0 <= j < i && #[trigger] deps_of(images@, cv[j]).contains(y))
                            || strs_view(deps@).take(t as int).contains(y)),
                    decreases m - t,
                {
                    let d = deps[t].as_str();
                    let ghost before = strs_view(out@);
                    if !contains_string(&out, d) {
                        out.push(to_owned_string(d));
                        assert(strs_view(out@) =~= before.push(d@));
                    }
                    assert(strs_view(deps@).take(t + 1) =~= strs_view(deps@).take(t as int).push(d@));
                    assert forall|y: Seq<char>| #[trigger] strs_view(out@).contains(y) <==> (cv.take(i + 1).contains(y)
                        || (exists|j: int| 0 <= j < i && #[trigger] deps_of(images@, cv[j]).contains(y))
                        || strs_view(deps@).take(t + 1).contains(y)) by {
                        lemma_push_contains(strs_view(deps@).take(t as int), d@, y);
                        lemma_push_contains(before, d@, y);
                    }
                    t = t + 1;
                }
                assert(strs_view(deps@).take(m as int) =~= strs_view(deps@));
            },
            None => {
                assert(deps_of(images@, name@) =~= seq![]);
            },
        }
        assert forall|y: Seq<char>| #[trigger] strs_view(out@).contains(y) <==> (cv.take(i + 1).contains(y)
            || exists|j: int| 0 <= j < i + 1 && #[trigger] deps_of(images@, cv[j]).contains(y)) by {
            if deps_of(images@, cv[i as int]).contains(y) {
                assert(0 <= i < i + 1);
            }
        }
        i = i + 1;
    }
    assert(cv.take(n as int) =~= cv);
    assert forall|y: Seq<char>| #[trigger] strs_view(out@).contains(y) <==> (cv.contains(y)
        || exists|x: Seq<char>| cv.contains(x) && #[trigger] deps_of(images@, x).contains(y)) by {
        if exists|j: int| 0 <= j < n && #[trigger] deps_of(images@, cv[j]).contains(y) {
            let j = choose|j: int| 0 <= j < n && #[trigger] deps_of(images@, cv[j]).contains(y);
            assert(cv.contains(cv[j]));
        }
        if exists|x: Seq<char>| cv.contains(x) && #[trigger] deps_of(images@, x).contains(y) {
            let x = choose|x: Seq<char>| cv.contains(x) && #[trigger] deps_of(images@, x).contains(y);
            let j = choose|j: int| 0 <= j < cv.len() && cv[j] == x;
            assert(deps_of(images@, cv[j]).contains(y));
        }
    }
    out
}

/// `r` and everything it is built on, directly or not.
pub fn reach_list(images: &Vec<DockerBuildImage>, r: &str) -> (out: Vec<String>)
    ensures
        forall|y: Seq<char>| #[trigger] strs_view(out@).contains(y) <==> reaches(images@, r@, y),
{
    broadcast use vstd::seq_lib::group_seq_properties;
    let mut cur: Vec<String> = Vec::new();
    cur.push(to_owned_string(r));
    assert(strs_view(cur@) =~= seq![r@]);
    assert forall|y: Seq<char>| #[trigger] strs_view(cur@).contains(y) <==> reaches_in(images@, r@, y, 0) by {
        lemma_reaches_zero(images@, r@, y);
        if y == r@ {
            assert(strs_view(cur@)[0] == y);
        }
    }
    let n = images.len();
    let mut k: usize = 0;
    while k < n
        invariant
            n == images@.len(),
            k <= n,
            forall|y: Seq<char>| #[trigger] strs_view(cur@).contains(y) <==> reaches_in(images@, r@, y, k as nat),
        decreases n - k,
    {
        let next = reach_round(images, &cur);
        assert forall|y: Seq<char>| #[trigger] strs_view(next@).contains(y) <==> reaches_in(images@, r@, y, (k + 1) as nat) by {
            let kk = (k + 1) as nat;
            lemma_reaches_step(images@, r@, y, k as nat);
            if strs_view(next@).contains(y) {
                if strs_view(cur@).contains(y) {
                    assert(reaches_in(images@, r@, y, k as nat));
                } else {
                    let x = choose|x: Seq<char>| strs_view(cur@).contains(x) && #[trigger] deps_of(images@, x).contains(y);
                    assert(reaches_in(images@, r@, x, k as nat));
                }
            }
            if reaches_in(images@, r@, y, kk) {
                if !reaches_in(images@, r@, y, k as nat) {
                    let x = choose|x: Seq<char>| #[trigger] reaches_in(images@, r@, x, k as nat) && deps_of(images@, x).contains(y);
                    assert(strs_view(cur@).contains(x));
                } else {
                    assert(strs_view(cur@).contains(y));
                }
            }
        }
        cur = next;
        k = k + 1;
    }
    cur
}

/// No name occurs twice.
pub open spec fn no_dups(s: Seq<Seq<char>>) -> bool {
    forall|i: int, j: int| 0 <= i < j < s.len() ==> s[i] != s[j]
}

/// Named lists without repeated names, and without repeats in any list.
pub open spec fn multimap_ok(acc: Seq<(String, Vec<String>)>) -> bool {
    &&& unique_keys(acc)
    &&& forall|i: int| 0 <= i < acc.len() ==> no_dups(strs_view((#[trigger] acc[i]).1@))
}

/// Whether the list named `k` holds `a`.
pub open spec fn mm_has(acc: Seq<(String, Vec<String>)>, k: Seq<char>, a: Seq<char>) -> bool {
    exists|i: int| 0 <= i < acc.len() && (#[trigger] acc[i]).0@ == k && strs_view(acc[i].1@).contains(a)
}

/// Adds `items` to `list`, each unless it is there already.
pub fn add_all(list: &mut Vec<String>, items: &Vec<String>)
    requires
        no_dups(strs_view(old(list)@)),
    ensures
        no_dups(strs_view(final(list)@)),
        forall|a: Seq<char>| #[trigger] strs_view(final(list)@).contains(a) <==> (strs_view(old(list)@).contains(a) || strs_view(items@).contains(a)),
{
    let ghost start = strs_view(list@);
    let n = items.len();
    let mut i: usize = 0;
    while i < n
        invariant
            n == items@.len(),
            i <= n,
            no_dups(strs_view(list@)),
            forall|a: Seq<char>| #[trigger] strs_view(list@).contains(a) <==> (start.contains(a) || strs_view(items@).take(i as int).contains(a)),
        decreases n - i,
    {
        let x = items[i].as_str();
        let ghost before = strs_view(list@);
        if !contains_string(list, x) {
            list.push(to_owned_string(x));
            assert(strs_view(list@) =~= before.push(x@));
            assert forall|p: int, q: int| 0 <= p < q < strs_view(list@).len() implies strs_view(list@)[p] != strs_view(list@)[q] by {
                if q == before.len() {
                    assert(before[p] == strs_view(list@)[p]);
                    assert(before.contains(before[p]));
                }
            }
        }
        assert(strs_view(items@).take(i + 1) =~= strs_view(items@).take(i as int).push(x@));
        assert forall|a: Seq<char>| #[trigger] strs_view(list@).contains(a) <==> (start.contains(a) || strs_view(items@).take(i + 1).contains(a)) by {
            lemma_push_contains(strs_view(items@).take(i as int), x@, a);
            lemma_push_contains(before, x@, a);
        }
        i = i + 1;
    }
    assert(strs_view(items@).take(n as int) =~= strs_view(items@));
}

/// The index of the list named `key`, if any.
fn key_index(acc: &Vec<(String, Vec<String>)>, key: &str) -> (r: Option<usize>)
    ensures
        match r {
            Some(p) => p < acc@.len() && acc@[p as int].0@ == key@,
            None => !has_key(acc@, key@),
        },
{
    let n = acc.len();
    let mut i: usize = 0;
    while i < n
        invariant
            n == acc@.len(),
            i <= n,
            forall|j: int| 0 <= j < i ==> (#[trigger] acc@[j]).0@ != key@,
        decreases n - i,
    {
        if str_eq(acc[i].0.as_str(), key) {
            return Some(i);
        }
        i = i + 1;
    }
    None
}

/// Adds `items` to the list named `key`, which is created when there is none.
fn merge_into(acc: &mut Vec<(String, Vec<String>)>, key: &str, items: &Vec<String>)
    requires
        multimap_ok(old(acc)@),
    ensures
        multimap_ok(final(acc)@),
        forall|k: Seq<char>| #[trigger] has_key(final(acc)@, k) <==> (has_key(old(acc)@, k) || k == key@),
        forall|k: Seq<char>, a: Seq<char>| #[trigger] mm_has(final(acc)@, k, a) <==> (mm_has(old(acc)@, k, a) || (k == key@ && strs_view(items@).contains(a))),
{
    let ghost old_acc = acc@;
    match key_index(acc, key) {
        Some(p) => {
            let (k0, mut v) = acc.remove(p);
            add_all(&mut v, items);
            acc.insert(p, (k0, v));
            assert(acc@ =~= old_acc.update(p as int, (k0, v)));
            assert forall|i: int, j: int| 0 <= i < j < acc@.len() implies (#[trigger] acc@[i]).0@ != (#[trigger] acc@[j]).0@ by {
                assert(old_acc[i].0@ != old_acc[j].0@);
            }
            assert forall|i: int| 0 <= i < acc@.len() implies no_dups(strs_view((#[trigger] acc@[i]).1@)) by {
                if i != p {
                    assert(acc@[i] == old_acc[i]);
                }
            }
            assert forall|k: Seq<char>| #[trigger] has_key(acc@, k) <==> (has_key(old_acc, k) || k == key@) by {
                if has_key(acc@, k) {
                    let i = choose|i: int| 0 <= i < acc@.len() && (#[trigger] acc@[i]).0@ == k;
                    assert(old_acc[i].0@ == k);
                }
                if has_key(old_acc, k) {
                    let i = choose|i: int| 0 <= i < old_acc.len() && (#[trigger] old_acc[i]).0@ == k;
                    assert(acc@[i].0@ == k);
                }
                if k == key@ {
                    assert(acc@[p as int].0@ == k);
                }
            }
            assert forall|k: Seq<char>, a: Seq<char>| #[trigger] mm_has(acc@, k, a) <==> (mm_has(old_acc, k, a) || (k == key@ && strs_view(items@).contains(a))) by {
                if mm_has(acc@, k, a) {
                    let i = choose|i: int| 0 <= i < acc@.len() && (#[trigger] acc@[i]).0@ == k && strs_view(acc@[i].1@).contains(a);
                    if i != p {
                        assert(old_acc[i] == acc@[i]);
                    } else if !strs_view(items@).contains(a) {
                        assert(strs_view(old_acc[i].1@).contains(a));
                    }
                }
                if mm_has(old_acc, k, a) {
                    let i = choose|i: int| 0 <= i < old_acc.len() && (#[trigger] old_acc[i]).0@ == k && strs_view(old_acc[i].1@).contains(a);
                    if i != p {
                        assert(old_acc[i] == acc@[i]);
                    } else {
                        assert(strs_view(acc@[i].1@).contains(a));
                    }
                }
                if k == key@ && strs_view(items@).contains(a) {
                    assert(strs_view(acc@[p as int].1@).contains(a));
                }
            }
        },
        None => {
            let mut v: Vec<String> = Vec::new();
            assert(no_dups(strs_view(v@)));
            add_all(&mut v, items);
            acc.push((to_owned_string(key), v));
            let ghost n = old_acc.len() as int;
            assert(acc@ =~= old_acc.push(acc@[n]));
            assert forall|i: int, j: int| 0 <= i < j < acc@.len() implies (#[trigger] acc@[i]).0@ != (#[trigger] acc@[j]).0@ by {
                if j == n {
                    assert(old_acc[i] == acc@[i]);
                } else {
                    assert(old_acc[i].0@ != old_acc[j].0@);
                }
            }
            assert forall|i: int| 0 <= i < acc@.len() implies no_dups(strs_view((#[trigger] acc@[i]).1@)) by {
                if i < n {
                    assert(acc@[i] == old_acc[i]);
                }
            }
            assert forall|k: Seq<char>| #[trigger] has_key(acc@, k) <==> (has_key(old_acc, k) || k == key@) by {
                if has_key(acc@, k) {
                    let i = choose|i: int| 0 <= i < acc@.len() && (#[trigger] acc@[i]).0@ == k;
                    if i < n {
                        assert(old_acc[i].0@ == k);
                    }
                }
                if has_key(old_acc, k) {
                    let i = choose|i: int| 0 <= i < old_acc.len() && (#[trigger] old_acc[i]).0@ == k;
                    assert(acc@[i].0@ == k);
                }
                if k == key@ {
                    assert(acc@[n].0@ == k);
                }
            }
            assert forall|k: Seq<char>, a: Seq<char>| #[trigger] mm_has(acc@, k, a) <==> (mm_has(old_acc, k, a) || (k == key@ && strs_view(items@).contains(a))) by {
                if mm_has(acc@, k, a) {
                    let i = choose|i: int| 0 <= i < acc@.len() && (#[trigger] acc@[i]).0@ == k && strs_view(acc@[i].1@).contains(a);
                    if i < n {
                        assert(old_acc[i] == acc@[i]);
                    }
                }
                if mm_has(old_acc, k, a) {
                    let i = choose|i: int| 0 <= i < old_acc.len() && (#[trigger] old_acc[i]).0@ == k && strs_view(old_acc[i].1@).contains(a);
                    assert(old_acc[i] == acc@[i]);
                }
                if k == key@ && strs_view(items@).contains(a) {
                    assert(strs_view(acc@[n].1@).contains(a));
                }
            }
        },
    }
}

/// The built image a job runs on by its short name, if it does.
pub open spec fn job_root(images: Seq<DockerBuildImage>, job: Job) -> Option<Seq<char>> {
    if !is_full_reference(job.image@) && image_named(images, job.image@) is Some {
        Some(job.image@)
    } else {
        None
    }
}

/// Whether one of the first `n` jobs runs on the built image `r`.
pub open spec fn root_among(images: Seq<DockerBuildImage>, jobs: Seq<(String, Job)>, n: int, r: Seq<char>) -> bool {
    exists|j: int| 0 <= j < n && #[trigger] job_root(images, jobs[j].1) == Some(r)
}

/// Whether one of the first `n` jobs runs on the built image `r` for architecture `a`.
pub open spec fn root_arch_among(images: Seq<DockerBuildImage>, jobs: Seq<(String, Job)>, n: int, r: Seq<char>, a: Seq<char>) -> bool {
    exists|j: int| 0 <= j < n && #[trigger] job_root(images, jobs[j].1) == Some(r) && job_architectures(jobs[j].1).contains(a)
}

/// Whether the image named `y` must be built: some job runs on a built image
/// that is `y` or is built on it, directly or not.
pub open spec fn is_required(images: Seq<DockerBuildImage>, jobs: Seq<(String, Job)>, y: Seq<char>) -> bool {
    exists|r: Seq<char>| #[trigger] root_among(images, jobs, jobs.len() as int, r) && reaches(images, r, y)
}

/// Whether the image named `y` must be built for architecture `a`: some job for
/// `a` runs on a built image that is `y` or is built on it.
pub open spec fn required_arch(images: Seq<DockerBuildImage>, jobs: Seq<(String, Job)>, y: Seq<char>, a: Seq<char>) -> bool {
    exists|r: Seq<char>| #[trigger] root_arch_among(images, jobs, jobs.len() as int, r, a) && reaches(images, r, y)
}

/// Whether an image reference is given in full.
pub fn is_full_image_ref(image: &str) -> (r: bool)
    ensures
        r == is_full_reference(image@),
{
    contains_char(image, '/') || contains_char(image, ':')
}

/// A job's architectures (`amd64` when it names none).
fn architectures_of(job: &Job) -> (r: Vec<String>)
    ensures
        strs_view(r@) == job_architectures(*job),
{
    match &job.architectures {
        Some(a) => crate::strutil::copy_strings(a),
        None => {
            let mut v: Vec<String> = Vec::new();
            v.push(to_owned_string("amd64"));
            assert(strs_view(v@) =~= seq!["amd64"@]);
            v
        },
    }
}

/// The built images that jobs run on by short name, each with the architectures
/// of those jobs.
fn collect_roots(images: &Vec<DockerBuildImage>, jobs: &Vec<(String, Job)>) -> (roots: Vec<(String, Vec<String>)>)
    ensures
        multimap_ok(roots@),
        forall|r: Seq<char>| #[trigger] has_key(roots@, r) <==> root_among(images@, jobs@, jobs@.len() as int, r),
        forall|r: Seq<char>, a: Seq<char>| #[trigger] mm_has(roots@, r, a) <==> root_arch_among(images@, jobs@, jobs@.len() as int, r, a),
{
    let mut roots: Vec<(String, Vec<String>)> = Vec::new();
    let n = jobs.len();
    let mut i: usize = 0;
    while i < n
        invariant
            n == jobs@.len(),
            i <= n,
            multimap_ok(roots@),
            forall|r: Seq<char>| #[trigger] has_key(roots@, r) <==> root_among(images@, jobs@, i as int, r),
            forall|r: Seq<char>, a: Seq<char>| #[trigger] mm_has(roots@, r, a) <==> root_arch_among(images@, jobs@, i as int, r, a),
        decreases n - i,
    {
        let job = &jobs[i].1;
        let image = job.image.as_str();
        let is_root = !is_full_image_ref(image) && find_image(images, image).is_some();
        assert(is_root == (job_root(images@, *job) is Some));
        let ghost old_roots = roots@;
        if is_root {
            let archs = architectures_of(job);
            merge_into(&mut roots, image, &archs);
        }
        assert forall|r: Seq<char>| #[trigger] has_key(roots@, r) <==> root_among(images@, jobs@, i + 1, r) by {
            if root_among(images@, jobs@, i + 1, r) && !root_among(images@, jobs@, i as int, r) {
                let j = choose|j: int| 0 <= j < i + 1 && #[trigger] job_root(images@, jobs@[j].1) == Some(r);
                assert(j == i);
            }
            if root_among(images@, jobs@, i as int, r) {
                let j = choose|j: int| 0 <= j < i && #[trigger] job_root(images@, jobs@[j].1) == Some(r);
                assert(0 <= j < i + 1);
            }
            if is_root && r == image@ {
                assert(job_root(images@, jobs@[i as int].1) == Some(r));
            }
        }
        assert forall|r: Seq<char>, a: Seq<char>| #[trigger] mm_has(roots@, r, a) <==> root_arch_among(images@, jobs@, i + 1, r, a) by {
            if root_arch_among(images@, jobs@, i + 1, r, a) && !root_arch_among(images@, jobs@, i as int, r, a) {
                let j = choose|j: int| 0 <= j < i + 1 && #[trigger] job_root(images@, jobs@[j].1) == Some(r) && job_architectures(jobs@[j].1).contains(a);
                assert(j == i);
            }
            if root_arch_among(images@, jobs@, i as int, r, a) {
                let j = choose|j: int| 0 <= j < i && #[trigger] job_root(images@, jobs@[j].1) == Some(r) && job_architectures(jobs@[j].1).contains(a);
                assert(0 <= j < i + 1);
            }
            if is_root && r == image@ && job_architectures(*job).contains(a) {
                assert(job_root(images@, jobs@[i as int].1) == Some(r));
            }
        }
        i = i + 1;
    }
    roots
}

/// Whether `y` is reached from one of the first `n` roots.
pub open spec fn required_among(images: Seq<DockerBuildImage>, roots: Seq<(String, Vec<String>)>, n: int, y: Seq<char>) -> bool {
    exists|j: int| 0 <= j < n && #[trigger] reaches(images, roots[j].0@, y)
}

/// Whether `y` is reached from one of the first `n` roots that has architecture `a`.
pub open spec fn required_arch_among(images: Seq<DockerBuildImage>, roots: Seq<(String, Vec<String>)>, n: int, y: Seq<char>, a: Seq<char>) -> bool {
    exists|j: int| 0 <= j < n && #[trigger] reaches(images, roots[j].0@, y) && strs_view(roots[j].1@).contains(a)
}

/// The images that must be built, each with the architectures it must be built
/// for: those that jobs run on by short name, and the images those are built on,
/// directly or not, for the architectures of the jobs that need them.
pub fn required_images(images: &Vec<DockerBuildImage>, jobs: &Vec<(String, Job)>) -> (req: Vec<(String, Vec<String>)>)
    ensures
        multimap_ok(req@),
        forall|y: Seq<char>| #[trigger] has_key(req@, y) <==> is_required(images@, jobs@, y),
        forall|y: Seq<char>, a: Seq<char>| #[trigger] mm_has(req@, y, a) <==> required_arch(images@, jobs@, y, a),
{
    broadcast use vstd::seq_lib::group_seq_properties;
    let roots = collect_roots(images, jobs);
    let mut req: Vec<(String, Vec<String>)> = Vec::new();
    let n = roots.len();
    let mut i: usize = 0;
    while i < n
        invariant
            n == roots@.len(),
            i <= n,
            multimap_ok(req@),
            forall|y: Seq<char>| #[trigger] has_key(req@, y) <==> required_among(images@, roots@, i as int, y),
            forall|y: Seq<char>, a: Seq<char>| #[trigger] mm_has(req@, y, a) <==> required_arch_among(images@, roots@, i as int, y, a),
        decreases n - i,
    {
        let reach = reach_list(images, roots[i].0.as_str());
        let archs = &roots[i].1;
        let m = reach.len();
        let mut t: usize = 0;
        while t < m
            invariant
                n == roots@.len(),
                i < n,
                m == reach@.len(),
                t <= m,
                *archs == roots@[i as int].1,
                forall|y: Seq<char>| #[trigger] strs_view(reach@).contains(y) <==> reaches(images@, roots@[i as int].0@, y),
                multimap_ok(req@),
                forall|y: Seq<char>| #[trigger] has_key(req@, y) <==> (required_among(images@, roots@, i as int, y) || strs_view(reach@).take(t as int).contains(y)),
                forall|y: Seq<char>, a: Seq<char>| #[trigger] mm_has(req@, y, a) <==> (required_arch_among(images@, roots@, i as int, y, a)
                    || (strs_view(reach@).take(t as int).contains(y) && strs_view(archs@).contains(a))),
            decreases m - t,
        {
            let y = reach[t].as_str();
            merge_into(&mut req, y, archs);
            assert(strs_view(reach@).take(t + 1) =~= strs_view(reach@).take(t as int).push(y@));
            assert forall|z: Seq<char>| #[trigger] has_key(req@, z) <==> (required_among(images@, roots@, i as int, z) || strs_view(reach@).take(t + 1).contains(z)) by {
                lemma_push_contains(strs_view(reach@).take(t as int), y@, z);
            }
            assert forall|z: Seq<char>, a: Seq<char>| #[trigger] mm_has(req@, z, a) <==> (required_arch_among(images@, roots@, i as int, z, a)
                || (strs_view(reach@).take(t + 1).contains(z) && strs_view(archs@).contains(a))) by {
                lemma_push_contains(strs_view(reach@).take(t as int), y@, z);
            }
            t = t + 1;
        }
        assert(strs_view(reach@).take(m as int) =~= strs_view(reach@));
        assert forall|y: Seq<char>| #[trigger] has_key(req@, y) <==> required_among(images@, roots@, i + 1, y) by {
            if required_among(images@, roots@, i + 1, y) && !required_among(images@, roots@, i as int, y) {
                let j = choose|j: int| 0 <= j < i + 1 && #[trigger] reaches(images@, roots@[j].0@, y);
                assert(j == i);
            }
            if required_among(images@, roots@, i as int, y) {
                let j = choose|j: int| 0 <= j < i && #[trigger] reaches(images@, roots@[j].0@, y);
                assert(0 <= j < i + 1);
            }
            if strs_view(reach@).contains(y) {
                assert(reaches(images@, roots@[i as int].0@, y));
            }
        }
        assert forall|y: Seq<char>, a: Seq<char>| #[trigger] mm_has(req@, y, a) <==> required_arch_among(images@, roots@, i + 1, y, a) by {
            if required_arch_among(images@, roots@, i + 1, y, a) && !required_arch_among(images@, roots@, i as int, y, a) {
                let j = choose|j: int| 0 <= j < i + 1 && #[trigger] reaches(images@, roots@[j].0@, y) && strs_view(roots@[j].1@).contains(a);
                assert(j == i);
            }
            if required_arch_among(images@, roots@, i as int, y, a) {
                let j = choose|j: int| 0 <= j < i && #[trigger] reaches(images@, roots@[j].0@, y) && strs_view(roots@[j].1@).contains(a);
                assert(0 <= j < i + 1);
            }
            if strs_view(reach@).contains(y) && strs_view(archs@).contains(a) {
                assert(reaches(images@, roots@[i as int].0@, y));
            }
        }
        i = i + 1;
    }
    assert forall|y: Seq<char>| #[trigger] has_key(req@, y) <==> is_required(images@, jobs@, y) by {
        if required_among(images@, roots@, n as int, y) {
            let j = choose|j: int| 0 <= j < n && #[trigger] reaches(images@, roots@[j].0@, y);
            assert(has_key(roots@, roots@[j].0@));
            assert(root_among(images@, jobs@, jobs@.len() as int, roots@[j].0@));
        }
        if is_required(images@, jobs@, y) {
            let r = choose|r: Seq<char>| #[trigger] root_among(images@, jobs@, jobs@.len() as int, r) && reaches(images@, r, y);
            assert(has_key(roots@, r));
            let j = choose|j: int| 0 <= j < roots@.len() && (#[trigger] roots@[j]).0@ == r;
            assert(reaches(images@, roots@[j].0@, y));
        }
    }
    assert forall|y: Seq<char>, a: Seq<char>| #[trigger] mm_has(req@, y, a) <==> required_arch(images@, jobs@, y, a) by {
        if required_arch_among(images@, roots@, n as int, y, a) {
            let j = choose|j: int| 0 <= j < n && #[trigger] reaches(images@, roots@[j].0@, y) && strs_view(roots@[j].1@).contains(a);
            assert(mm_has(roots@, roots@[j].0@, a));
            assert(root_arch_among(images@, jobs@, jobs@.len() as int, roots@[j].0@, a));
        }
        if required_arch(images@, jobs@, y, a) {
            let r = choose|r: Seq<char>| #[trigger] root_arch_among(images@, jobs@, jobs@.len() as int, r, a) && reaches(images@, r, y);
            assert(mm_has(roots@, r, a));
            let j = choose|j: int| 0 <= j < roots@.len() && (#[trigger] roots@[j]).0@ == r && strs_view(roots@[j].1@).contains(a);
            assert(reaches(images@, roots@[j].0@, y));
        }
    }
    req
}

/// Whether the built image named `y` is pushed: its own setting, else the registry's.
pub open spec fn push_enabled(db: DockerBuildConfig, y: Seq<char>) -> bool {
    match image_named(db.images@, y) {
        Some(img) => match img.push {
            Some(p) => p,
            None => db.registry.push,
        },
        None => db.registry.push,
    }
}

/// The docker login step with the default credentials, when they are defined.
pub open spec fn login_view(config: Config) -> Option<YamlView> {
    match config.docker {
        Some(d) => match (d.default_auth, d.auth) {
            (Some(da), Some(auths)) => match lookup(auths@, da@) {
                Some(auth) => Some(run_step_view("Docker login"@,
                    "echo '"@ + auth.password@ + "' | docker login -u '"@ + auth.username@ + "' --password-stdin"@)),
                None => None,
            },
            _ => None,
        },
        None => None,
    }
}

/// The first steps of a build job: the job-status check of the backend (keyed
/// by the base hash) and the remote docker setup; with redis, also the docker
/// login where the image is pushed and default credentials are defined.
pub open spec fn build_status_views(config: Config, db: DockerBuildConfig, y: Seq<char>, base_hash: Seq<char>) -> Seq<YamlView> {
    if job_status_backend(config) == "redis"@ {
        let url = redis_settings(config).0;
        seq![
            run_step_view("Prepare job status key"@, "export JOB_STATUS_KEY=\"job_status:${CIRCLE_JOB}-${DOCKER_ARCH}-"@ + base_hash + "\""@),
            run_step_view("Check job status (redis)"@, "VAL=$(redis-cli -u "@ + url
                + " GET \"$JOB_STATUS_KEY\" 2>/dev/null || true)\nif [ \"$VAL\" = \"done\" ]; then\n  echo 'Job already completed successfully for this base hash. Skipping...';\n  circleci step halt;\nfi"@),
            spec_setup_remote_docker_step(config),
        ] + (if push_enabled(db, y) && login_view(config) is Some { seq![login_view(config)->0] } else { seq![] })
    } else {
        seq![
            run_step_view("Prepare job status key"@, "mkdir -p /tmp/cigen_job_status && echo \"${CIRCLE_JOB}-${DOCKER_ARCH}-"@ + base_hash + "\" > /tmp/cigen_job_status/job-key"@),
            restore_cache_view(seq!["job_status-v1-{{ checksum \"/tmp/cigen_job_status/job-key\" }}"@, "job_status-v1-"@]),
            run_step_view("Check if build should be skipped"@, "if [ -f '/tmp/cigen_job_status/done_"@ + base_hash
                + "' ]; then\n  echo 'Build already done for this base hash. Skipping...';\n  circleci step halt;\nfi"@),
            spec_setup_remote_docker_step(config),
        ]
    }
}

/// The build arguments as command-line options.
pub open spec fn build_args_text(args: Seq<(String, String)>) -> Seq<char>
    decreases args.len(),
{
    if args.len() == 0 {
        Seq::empty()
    } else {
        build_args_text(args.drop_last()) + " --build-arg "@ + args.last().0@ + "="@ + args.last().1@ + " "@
    }
}

/// The tag an image is built and pushed under.
pub open spec fn image_tag(db: DockerBuildConfig, y: Seq<char>, base_hash: Seq<char>) -> Seq<char> {
    db.registry.repo@ + "/"@ + y + ":"@ + base_hash + "-${DOCKER_ARCH}"@
}

/// The command that builds an image.
pub open spec fn build_command(db: DockerBuildConfig, img: DockerBuildImage, y: Seq<char>, base_hash: Seq<char>) -> Seq<char> {
    "docker build -f "@ + img.dockerfile@ + " -t "@ + image_tag(db, y, base_hash) + " "@ + img.context@
        + match img.build_args {
            Some(a) => build_args_text(a@),
            None => Seq::empty(),
        }
}

/// The steps that record a finished build for the base hash.
pub open spec fn build_record_views(config: Config, base_hash: Seq<char>) -> Seq<YamlView> {
    if job_status_backend(config) == "redis"@ {
        let (url, ttl) = redis_settings(config);
        let key = "\"job_status:${CIRCLE_JOB}-${DOCKER_ARCH}-"@ + base_hash + "\""@;
        let set = "redis-cli -u "@ + url + " SET "@ + key + " done >/dev/null 2>&1 || true"@;
        let cmd = match ttl {
            Some(t) => set + "\nredis-cli -u "@ + url + " EXPIRE "@ + key + " "@ + spec_decimal(t as nat) + " >/dev/null 2>&1 || true"@,
            None => set,
        };
        seq![run_step_view("Record job completion (redis)"@, cmd)]
    } else {
        seq![
            run_step_view("Record job completion"@, "mkdir -p /tmp/cigen_job_status && touch '/tmp/cigen_job_status/done_"@ + base_hash + "'"@),
            save_cache_view("job_status-v1-{{ checksum \"/tmp/cigen_job_status/job-key\" }}"@, seq!["/tmp/cigen_job_status"@]),
        ]
    }
}

/// The steps of the job that builds the image named `y`: the status steps, then,
/// for a defined image, its build, its push (when pushed) and the record steps.
pub open spec fn build_job_step_views(config: Config, db: DockerBuildConfig, y: Seq<char>, base_hash: Seq<char>) -> Seq<YamlView> {
    build_status_views(config, db, y, base_hash) + match image_named(db.images@, y) {
        Some(img) => seq![run_step_view("Build docker image"@, build_command(db, img, y, base_hash))]
            + (if push_enabled(db, y) { seq![run_step_view("Push docker image"@, "docker push "@ + image_tag(db, y, base_hash))] } else { Seq::empty() })
            + build_record_views(config, base_hash),
        None => Seq::empty(),
    }
}

/// The name of the job that builds the image named `y`.
pub open spec fn build_job_name(y: Seq<char>) -> Seq<char> {
    "build_"@ + y
}

/// Whether `job` is the job that builds the image named `y` for the
/// architectures `archs` (each once).
pub open spec fn build_job_ok(job: Job, config: Config, db: DockerBuildConfig, y: Seq<char>, archs: Set<Seq<char>>, base_hash: Seq<char>) -> bool {
    &&& job.image@ == "cimg/base:current"@
    &&& job.architectures matches Some(a) && no_dups(strs_view(a@)) && strs_view(a@).to_set() == archs
    &&& match image_named(db.images@, y) {
        Some(img) if img.depends_on@.len() > 0 => job.requires matches Some(JobRequires::Multiple(v))
            && strs_view(v@) == strs_view(img.depends_on@).map_values(|d: Seq<char>| build_job_name(d)),
        _ => job.requires is None,
    }
    &&& job.steps matches Some(s) && views_of(s@) == build_job_step_views(config, db, y, base_hash)
    &&& job.resource_class is None && job.source_files is None && job.source_submodules is None
    &&& job.parallelism is None
    &&& job.services is None && job.checkout is None && job.job_type is None
    &&& job.cache is None && job.restore_cache is None && job.env is None
}

/// Whether the job-status backend is redis.
fn uses_redis(config: &Config) -> (r: bool)
    ensures
        r == (job_status_backend(*config) == "redis"@),
{
    let backend: &str = match &config.caches {
        Some(c) => match &c.job_status {
            Some(b) => b.backend.as_str(),
            None => "native",
        },
        None => "native",
    };
    str_eq(backend, "redis")
}

/// The redis URL and expiry of the job-status settings.
fn redis_url_ttl(config: &Config) -> (r: (&str, Option<u64>))
    ensures
        (r.0@, r.1) == redis_settings(*config),
{
    let default_url = "redis://127.0.0.1:6379";
    match &config.caches {
        Some(c) => match &c.job_status {
            Some(b) => match &b.config {
                Some(cfg) => {
                    proof {
                        reveal_strlit("url");
                        reveal_strlit("ttl_seconds");
                    }
                    let url = match find_entry(cfg, "url") {
                        Some(v) => match v {
                            YamlValue::Str(u) => u.as_str(),
                            _ => default_url,
                        },
                        None => default_url,
                    };
                    let ttl = match find_entry(cfg, "ttl_seconds") {
                        Some(v) => v.as_u64(),
                        None => None,
                    };
                    (url, ttl)
                },
                None => (default_url, None),
            },
            None => (default_url, None),
        },
        None => (default_url, None),
    }
}

/// The docker login step, when default credentials are defined.
fn login_step(config: &Config) -> (r: Option<YamlValue>)
    ensures
        match r {
            Some(v) => login_view(*config) == Some(v@),
            None => login_view(*config) is None,
        },
{
    let d = match &config.docker { Some(d) => d, None => { return None; } };
    let da = match &d.default_auth { Some(x) => x, None => { return None; } };
    let auths = match &d.auth { Some(x) => x, None => { return None; } };
    match find_entry(auths, da.as_str()) {
        Some(auth) => {
            let mut cmd = to_owned_string("echo '");
            cmd.append(auth.password.as_str());
            cmd.append("' | docker login -u '");
            cmd.append(auth.username.as_str());
            cmd.append("' --password-stdin");
            Some(run_step("Docker login", cmd.as_str()))
        },
        None => None,
    }
}

/// Whether the image named `y` is pushed.
fn is_pushed(db: &DockerBuildConfig, y: &str) -> (r: bool)
    ensures
        r == push_enabled(*db, y@),
{
    match find_image(&db.images, y) {
        Some(img) => match img.push {
            Some(p) => p,
            None => db.registry.push,
        },
        None => db.registry.push,
    }
}

/// The tag an image is built and pushed under.
fn image_tag_text(db: &DockerBuildConfig, y: &str, base_hash: &str) -> (r: String)
    ensures
        r@ == image_tag(*db, y@, base_hash@),
{
    let mut t = to_owned_string(db.registry.repo.as_str());
    t.append("/");
    t.append(y);
    t.append(":");
    t.append(base_hash);
    t.append("-${DOCKER_ARCH}");
    t
}

/// The command that builds an image.
fn build_command_text(db: &DockerBuildConfig, img: &DockerBuildImage, y: &str, base_hash: &str) -> (r: String)
    ensures
        r@ == build_command(*db, *img, y@, base_hash@),
{
    let mut c = to_owned_string("docker build -f ");
    c.append(img.dockerfile.as_str());
    c.append(" -t ");
    let tag = image_tag_text(db, y, base_hash);
    c.append(tag.as_str());
    c.append(" ");
    c.append(img.context.as_str());
    match &img.build_args {
        Some(args) => {
            let ghost start = c@;
            let n = args.len();
            let mut i: usize = 0;
            while i < n
                invariant
                    n == args@.len(),
                    i <= n,
                    c@ == start + build_args_text(args@.take(i as int)),
                decreases n - i,
            {
                c.append(" --build-arg ");
                c.append(args[i].0.as_str());
                c.append("=");
                c.append(args[i].1.as_str());
                c.append(" ");
                assert(args@.take(i + 1).drop_last() =~= args@.take(i as int));
                i = i + 1;
            }
            assert(args@.take(n as int) =~= args@);
        },
        None => {
            assert(c@ =~= c@ + Seq::<char>::empty());
        },
    }
    c
}

/// Appends the status steps of a build job.
fn push_build_status_steps(steps: &mut Vec<YamlValue>, config: &Config, db: &DockerBuildConfig, y: &str, base_hash: &str)
    ensures
        views_of(final(steps)@) == views_of(old(steps)@) + build_status_views(*config, *db, y@, base_hash@),
{
    let ghost start = views_of(steps@);
    let generator = CircleCIGenerator::new();
    if uses_redis(config) {
        let (url, _ttl) = redis_url_ttl(config);
        let mut key_cmd = to_owned_string("export JOB_STATUS_KEY=\"job_status:${CIRCLE_JOB}-${DOCKER_ARCH}-");
        key_cmd.append(base_hash);
        key_cmd.append("\"");
        push_item(steps, run_step("Prepare job status key", key_cmd.as_str()));
        let mut check = to_owned_string("VAL=$(redis-cli -u ");
        check.append(url);
        check.append(" GET \"$JOB_STATUS_KEY\" 2>/dev/null || true)\nif [ \"$VAL\" = \"done\" ]; then\n  echo 'Job already completed successfully for this base hash. Skipping...';\n  circleci step halt;\nfi");
        push_item(steps, run_step("Check job status (redis)", check.as_str()));
        push_item(steps, generator.setup_remote_docker_step(config));
        let ghost three = views_of(steps@);
        if is_pushed(db, y) {
            match login_step(config) {
                Some(login) => {
                    push_item(steps, login);
                },
                None => {},
            }
        }
        assert(views_of(steps@) =~= start + build_status_views(*config, *db, y@, base_hash@));
    } else {
        let mut key_cmd = to_owned_string("mkdir -p /tmp/cigen_job_status && echo \"${CIRCLE_JOB}-${DOCKER_ARCH}-");
        key_cmd.append(base_hash);
        key_cmd.append("\" > /tmp/cigen_job_status/job-key");
        push_item(steps, run_step("Prepare job status key", key_cmd.as_str()));
        let mut keys: Vec<String> = Vec::new();
        keys.push(to_owned_string("job_status-v1-{{ checksum \"/tmp/cigen_job_status/job-key\" }}"));
        keys.push(to_owned_string("job_status-v1-"));
        assert(strs_view(keys@) =~= seq!["job_status-v1-{{ checksum \"/tmp/cigen_job_status/job-key\" }}"@, "job_status-v1-"@]);
        push_item(steps, restore_cache_step(&keys));
        let mut check = to_owned_string("if [ -f '/tmp/cigen_job_status/done_");
        check.append(base_hash);
        check.append("' ]; then\n  echo 'Build already done for this base hash. Skipping...';\n  circleci step halt;\nfi");
        push_item(steps, run_step("Check if build should be skipped", check.as_str()));
        push_item(steps, generator.setup_remote_docker_step(config));
        assert(views_of(steps@) =~= start + build_status_views(*config, *db, y@, base_hash@));
    }
}

/// Appends the record steps of a build job.
fn push_build_record_steps(steps: &mut Vec<YamlValue>, config: &Config, base_hash: &str)
    ensures
        views_of(final(steps)@) == views_of(old(steps)@) + build_record_views(*config, base_hash@),
{
    let ghost start = views_of(steps@);
    if uses_redis(config) {
        let (url, ttl) = redis_url_ttl(config);
        let mut key = to_owned_string("\"job_status:${CIRCLE_JOB}-${DOCKER_ARCH}-");
        key.append(base_hash);
        key.append("\"");
        let mut cmd = to_owned_string("redis-cli -u ");
        cmd.append(url);
        cmd.append(" SET ");
        cmd.append(key.as_str());
        cmd.append(" done >/dev/null 2>&1 || true");
        match ttl {
            Some(t) => {
                cmd.append("\nredis-cli -u ");
                cmd.append(url);
                cmd.append(" EXPIRE ");
                cmd.append(key.as_str());
                cmd.append(" ");
                let digits = decimal(t as u128);
                cmd.append(digits.as_str());
                cmd.append(" >/dev/null 2>&1 || true");
            },
            None => {},
        }
        push_item(steps, run_step("Record job completion (redis)", cmd.as_str()));
        assert(views_of(steps@) =~= start + build_record_views(*config, base_hash@));
    } else {
        let mut cmd = to_owned_string("mkdir -p /tmp/cigen_job_status && touch '/tmp/cigen_job_status/done_");
        cmd.append(base_hash);
        cmd.append("'");
        push_item(steps, run_step("Record job completion", cmd.as_str()));
        let mut paths: Vec<String> = Vec::new();
        paths.push(to_owned_string("/tmp/cigen_job_status"));
        assert(strs_view(paths@) =~= seq!["/tmp/cigen_job_status"@]);
        push_item(steps, save_cache_step("job_status-v1-{{ checksum \"/tmp/cigen_job_status/job-key\" }}", &paths));
        assert(views_of(steps@) =~= start + build_record_views(*config, base_hash@));
    }
}

/// The job that builds the image named `y` for the architectures `archs`.
pub fn build_image_job(config: &Config, db: &DockerBuildConfig, y: &str, archs: &Vec<String>, base_hash: &str) -> (job: Job)
    requires
        no_dups(strs_view(archs@)),
    ensures
        build_job_ok(job, *config, *db, y@, strs_view(archs@).to_set(), base_hash@),
{
    let mut steps: Vec<YamlValue> = Vec::new();
    assert(views_of(steps@) =~= Seq::<YamlView>::empty());
    push_build_status_steps(&mut steps, config, db, y, base_hash);
    let ghost status = views_of(steps@);
    let mut needs: Option<JobRequires> = None;
    match find_image(&db.images, y) {
        Some(img) => {
            if img.depends_on.len() > 0 {
                let mut reqs: Vec<String> = Vec::new();
                let n = img.depends_on.len();
                let mut i: usize = 0;
                while i < n
                    invariant
                        n == img.depends_on@.len(),
                        i <= n,
                        strs_view(reqs@) == strs_view(img.depends_on@).take(i as int).map_values(|d: Seq<char>| build_job_name(d)),
                    decreases n - i,
                {
                    let mut name = to_owned_string("build_");
                    name.append(img.depends_on[i].as_str());
                    let ghost prev = strs_view(reqs@);
                    let ghost nv = name@;
                    reqs.push(name);
                    assert(strs_view(reqs@) =~= prev.push(nv));
                    assert(strs_view(img.depends_on@).take(i + 1) =~= strs_view(img.depends_on@).take(i as int).push(img.depends_on@[i as int]@));
                    assert(strs_view(img.depends_on@).take(i + 1).map_values(|d: Seq<char>| build_job_name(d))
                        =~= strs_view(img.depends_on@).take(i as int).map_values(|d: Seq<char>| build_job_name(d)).push(nv));
                    assert(strs_view(reqs@) =~= strs_view(img.depends_on@).take(i + 1).map_values(|d: Seq<char>| build_job_name(d)));
                    i = i + 1;
                }
                assert(strs_view(img.depends_on@).take(n as int) =~= strs_view(img.depends_on@));
                needs = Some(JobRequires::Multiple(reqs));
            }
            let cmd = build_command_text(db, img, y, base_hash);
            push_item(&mut steps, run_step("Build docker image", cmd.as_str()));
            let ghost with_build = views_of(steps@);
            if is_pushed(db, y) {
                let mut push_cmd = to_owned_string("docker push ");
                let tag = image_tag_text(db, y, base_hash);
                push_cmd.append(tag.as_str());
                push_item(&mut steps, run_step("Push docker image", push_cmd.as_str()));
            }
            let ghost with_push = views_of(steps@);
            push_build_record_steps(&mut steps, config, base_hash);
            assert(views_of(steps@) =~= build_job_step_views(*config, *db, y@, base_hash@));
        },
        None => {
            assert(views_of(steps@) =~= build_job_step_views(*config, *db, y@, base_hash@));
        },
    }
    let archs_copy = crate::strutil::copy_strings(archs);
    let mut job = Job::new(to_owned_string("cimg/base:current"));
    job.architectures = Some(archs_copy);
    job.requires = needs;
    job.steps = Some(steps);
    job
}

/// Different images have differently named build jobs.
pub proof fn lemma_build_job_name_injective(a: Seq<char>, b: Seq<char>)
    ensures
        build_job_name(a) == build_job_name(b) ==> a == b,
{
    reveal_strlit("build_");
    if build_job_name(a) == build_job_name(b) {
        assert(build_job_name(a).subrange(6, build_job_name(a).len() as int) =~= a);
        assert(build_job_name(b).subrange(6, build_job_name(b).len() as int) =~= b);
    }
}

/// Whether two jobs agree on everything but their requirements.
pub open spec fn same_but_requires(a: Job, b: Job) -> bool {
    &&& a.image == b.image && a.architectures == b.architectures && a.resource_class == b.resource_class
    &&& a.source_files == b.source_files && a.source_submodules == b.source_submodules
    &&& a.parallelism == b.parallelism && a.services == b.services
    &&& a.steps == b.steps && a.checkout == b.checkout && a.job_type == b.job_type
    &&& a.cache == b.cache && a.restore_cache == b.restore_cache && a.env == b.env
}

/// Whether a job is an approval job by its type.
pub open spec fn is_approval_type(job: Job) -> bool {
    job.job_type matches Some(t) && t@ == "approval"@
}

/// Whether a job must wait for the build of its image: it is no approval job and
/// runs, by short name, on an image that must be built.
pub open spec fn needs_build(images: Seq<DockerBuildImage>, jobs: Seq<(String, Job)>, job: Job) -> bool {
    !is_approval_type(job) && !is_full_reference(job.image@) && is_required(images, jobs, job.image@)
}

/// A job's requirements with the build job of its image added, unless already there.
pub open spec fn with_build_requirement(job: Job) -> Seq<Seq<char>> {
    let current = match opt_requires_list(job.requires) {
        Some(l) => l,
        None => Seq::empty(),
    };
    if current.contains(build_job_name(job.image@)) { current } else { current.push(build_job_name(job.image@)) }
}

/// What becomes of a job that is no build job: where it must wait for the build
/// of its image, it requires that build job (its requirements become a list);
/// else it is unchanged.
pub open spec fn injected_ok(new: Job, old: Job, images: Seq<DockerBuildImage>, jobs: Seq<(String, Job)>) -> bool {
    if needs_build(images, jobs, old) {
        &&& same_but_requires(new, old)
        &&& new.requires matches Some(JobRequires::Multiple(v)) && strs_view(v@) == with_build_requirement(old)
    } else {
        new == old
    }
}

/// Whether `k` names the build job of an image that must be built.
pub open spec fn is_build_job_name(images: Seq<DockerBuildImage>, jobs: Seq<(String, Job)>, k: Seq<char>) -> bool {
    exists|y: Seq<char>| #[trigger] is_required(images, jobs, y) && k == build_job_name(y)
}

/// The jobs after adding the docker builds: a build job for each image that
/// must be built (replacing any job of that name), with the architectures it is
/// needed for; and every other job waiting for the build of its image.
pub open spec fn augmented(new_jobs: Seq<(String, Job)>, old_jobs: Seq<(String, Job)>, config: Config, db: DockerBuildConfig, base_hash: Seq<char>) -> bool {
    let images = db.images@;
    let fm = pairs_map(new_jobs);
    let om = pairs_map(old_jobs);
    &&& forall|k: Seq<char>| #[trigger] fm.dom().contains(k) <==> (om.dom().contains(k) || is_build_job_name(images, old_jobs, k))
    &&& forall|y: Seq<char>| #[trigger] is_required(images, old_jobs, y) ==> build_job_ok(fm[build_job_name(y)], config, db, y,
            Set::new(|a: Seq<char>| required_arch(images, old_jobs, y, a)), base_hash)
    &&& forall|k: Seq<char>| #[trigger] om.dom().contains(k) && !is_build_job_name(images, old_jobs, k) ==> injected_ok(fm[k], om[k], images, old_jobs)
}

/// Law: what must be built is closed under `depends_on`: an image that a
/// required image is built on must be built too.
pub proof fn law_required_images_closed(images: Seq<DockerBuildImage>, jobs: Seq<(String, Job)>, y: Seq<char>, d: Seq<char>)
    requires
        is_required(images, jobs, y),
        deps_of(images, y).contains(d),
    ensures
        is_required(images, jobs, d),
{
    let r = choose|r: Seq<char>| #[trigger] root_among(images, jobs, jobs.len() as int, r) && reaches(images, r, y);
    lemma_reaches_step(images, r, d, images.len() as nat);
    lemma_reaches_stable(images, r, d);
    assert(root_among(images, jobs, jobs.len() as int, r) && reaches(images, r, d));
}

/// Law: a job that is no approval job and runs, by the short name of an image
/// that must be built, on that image ends up requiring the image's build job,
/// and keeps every job it required before.
pub proof fn law_jobs_require_their_image_build(new_jobs: Seq<(String, Job)>, old_jobs: Seq<(String, Job)>, config: Config,
    db: DockerBuildConfig, base_hash: Seq<char>, k: Seq<char>)
    requires
        augmented(new_jobs, old_jobs, config, db, base_hash),
        pairs_map(old_jobs).dom().contains(k),
        !is_build_job_name(db.images@, old_jobs, k),
        needs_build(db.images@, old_jobs, pairs_map(old_jobs)[k]),
    ensures
        pairs_map(new_jobs).dom().contains(k),
        opt_requires_list(pairs_map(new_jobs)[k].requires) matches Some(l)
            && l.contains(build_job_name(pairs_map(old_jobs)[k].image@))
            && (opt_requires_list(pairs_map(old_jobs)[k].requires) matches Some(before)
                ==> forall|x: Seq<char>| before.contains(x) ==> l.contains(x)),
{
    let old = pairs_map(old_jobs)[k];
    let new = pairs_map(new_jobs)[k];
    assert(injected_ok(new, old, db.images@, old_jobs));
    let current = match opt_requires_list(old.requires) {
        Some(l) => l,
        None => Seq::empty(),
    };
    let y = build_job_name(old.image@);
    if !current.contains(y) {
        assert(current.push(y)[current.len() as int] == y);
    }
    assert forall|x: Seq<char>| current.contains(x) implies with_build_requirement(old).contains(x) by {
        if !current.contains(y) {
            let i = choose|i: int| 0 <= i < current.len() && current[i] == x;
            assert(current.push(y)[i] == x);
        }
    }
}

/// Law: a job whose image is a full reference (it holds `/` or `:`), and that
/// is not itself the build job of a required image, is left as it was.
pub proof fn law_full_references_untouched(new_jobs: Seq<(String, Job)>, old_jobs: Seq<(String, Job)>, config: Config,
    db: DockerBuildConfig, base_hash: Seq<char>, k: Seq<char>)
    requires
        augmented(new_jobs, old_jobs, config, db, base_hash),
        pairs_map(old_jobs).dom().contains(k),
        !is_build_job_name(db.images@, old_jobs, k),
        is_full_reference(pairs_map(old_jobs)[k].image@),
    ensures
        pairs_map(new_jobs).dom().contains(k),
        pairs_map(new_jobs)[k] == pairs_map(old_jobs)[k],
{
    assert(injected_ok(pairs_map(new_jobs)[k], pairs_map(old_jobs)[k], db.images@, old_jobs));
}

/// Law: every image that must be built has its build job among the jobs.
pub proof fn law_required_images_have_build_jobs(new_jobs: Seq<(String, Job)>, old_jobs: Seq<(String, Job)>, config: Config,
    db: DockerBuildConfig, base_hash: Seq<char>, y: Seq<char>)
    requires
        augmented(new_jobs, old_jobs, config, db, base_hash),
        is_required(db.images@, old_jobs, y),
    ensures
        pairs_map(new_jobs).dom().contains(build_job_name(y)),
        build_job_ok(pairs_map(new_jobs)[build_job_name(y)], config, db, y,
            Set::new(|a: Seq<char>| required_arch(db.images@, old_jobs, y, a)), base_hash),
{
    assert(is_build_job_name(db.images@, old_jobs, build_job_name(y)));
}

/// Adds the build requirements to the jobs that run on images that must be built.
fn add_build_requirements(jobs: &mut Vec<(String, Job)>, images: &Vec<DockerBuildImage>, req: &Vec<(String, Vec<String>)>, Ghost(orig): Ghost<Seq<(String, Job)>>)
    requires
        unique_keys(old(jobs)@),
        forall|y: Seq<char>| #[trigger] has_key(req@, y) <==> is_required(images@, orig, y),
    ensures
        unique_keys(final(jobs)@),
        final(jobs)@.len() == old(jobs)@.len(),
        forall|j: int| 0 <= j < old(jobs)@.len() ==> (#[trigger] final(jobs)@[j]).0 == old(jobs)@[j].0
            && injected_ok(final(jobs)@[j].1, old(jobs)@[j].1, images@, orig),
{
    let ghost start = jobs@;
    let n = jobs.len();
    let mut i: usize = 0;
    while i < n
        invariant
            n == jobs@.len(),
            n == start.len(),
            i <= n,
            unique_keys(start),
            forall|y: Seq<char>| #[trigger] has_key(req@, y) <==> is_required(images@, orig, y),
            forall|j: int| 0 <= j < n ==> (#[trigger] jobs@[j]).0 == start[j].0,
            forall|j: int| 0 <= j < i ==> injected_ok((#[trigger] jobs@[j]).1, start[j].1, images@, orig),
            forall|j: int| i <= j < n ==> #[trigger] jobs@[j] == start[j],
        decreases n - i,
    {
        let approval = match &jobs[i].1.job_type {
            Some(t) => str_eq(t.as_str(), "approval"),
            None => false,
        };
        let image = jobs[i].1.image.as_str();
        let found = key_index(req, image);
        proof {
            if let Some(p) = found {
                assert(req@[p as int].0@ == image@);
                assert(has_key(req@, image@));
            }
        }
        let wait = !approval && !is_full_image_ref(image) && found.is_some();
        assert(jobs@[i as int] == start[i as int]);
        assert(wait == needs_build(images@, orig, start[i as int].1));
        if wait {
            let ghost before = jobs@;
            let (name, mut job) = jobs.remove(i);
            let mut reqs: Vec<String> = match &job.requires {
                Some(r) => r.to_vec(),
                None => Vec::new(),
            };
            let ghost current = strs_view(reqs@);
            assert(current == match opt_requires_list(job.requires) { Some(l) => l, None => Seq::<Seq<char>>::empty() }) by {
                if job.requires is None {
                    assert(current =~= Seq::<Seq<char>>::empty());
                }
            }
            let mut b = to_owned_string("build_");
            b.append(job.image.as_str());
            if !contains_string(&reqs, b.as_str()) {
                let ghost bv = b@;
                reqs.push(b);
                assert(strs_view(reqs@) =~= current.push(bv));
            }
            job.requires = Some(JobRequires::Multiple(reqs));
            jobs.insert(i, (name, job));
            assert(jobs@ =~= before.update(i as int, jobs@[i as int]));
        }
        i = i + 1;
    }
}

/// Adds the build job of each image that must be built.
fn add_build_jobs(jobs: &mut Vec<(String, Job)>, config: &Config, db: &DockerBuildConfig, req: &Vec<(String, Vec<String>)>, base_hash: &str)
    requires
        unique_keys(old(jobs)@),
        multimap_ok(req@),
    ensures
        unique_keys(final(jobs)@),
        forall|k: Seq<char>| #[trigger] pairs_map(final(jobs)@).dom().contains(k) <==> (pairs_map(old(jobs)@).dom().contains(k)
            || exists|s: int| 0 <= s < req@.len() && k == build_job_name((#[trigger] req@[s]).0@)),
        forall|s: int| 0 <= s < req@.len() ==> build_job_ok(pairs_map(final(jobs)@)[build_job_name((#[trigger] req@[s]).0@)],
            *config, *db, req@[s].0@, strs_view(req@[s].1@).to_set(), base_hash@),
        forall|k: Seq<char>| #[trigger] pairs_map(old(jobs)@).dom().contains(k) && !(exists|s: int| 0 <= s < req@.len() && k == build_job_name((#[trigger] req@[s]).0@))
            ==> pairs_map(final(jobs)@)[k] == pairs_map(old(jobs)@)[k],
{
    let ghost start = pairs_map(jobs@);
    let n = req.len();
    let mut t: usize = 0;
    while t < n
        invariant
            n == req@.len(),
            t <= n,
            multimap_ok(req@),
            unique_keys(jobs@),
            start == pairs_map(old(jobs)@),
            forall|k: Seq<char>| #[trigger] pairs_map(jobs@).dom().contains(k) <==> (start.dom().contains(k)
                || exists|s: int| 0 <= s < t && k == build_job_name((#[trigger] req@[s]).0@)),
            forall|s: int| 0 <= s < t ==> build_job_ok(pairs_map(jobs@)[build_job_name((#[trigger] req@[s]).0@)],
                *config, *db, req@[s].0@, strs_view(req@[s].1@).to_set(), base_hash@),
            forall|k: Seq<char>| #[trigger] start.dom().contains(k) && !(exists|s: int| 0 <= s < t && k == build_job_name((#[trigger] req@[s]).0@))
                ==> pairs_map(jobs@)[k] == start[k],
        decreases n - t,
    {
        let y = req[t].0.as_str();
        assert(no_dups(strs_view(req@[t as int].1@)));
        let job = build_image_job(config, db, y, &req[t].1, base_hash);
        let mut name = to_owned_string("build_");
        name.append(y);
        let ghost before = pairs_map(jobs@);
        let ghost nv = name@;
        map_insert(jobs, name, job);
        assert forall|s: int| 0 <= s < t + 1 implies build_job_ok(pairs_map(jobs@)[build_job_name((#[trigger] req@[s]).0@)],
            *config, *db, req@[s].0@, strs_view(req@[s].1@).to_set(), base_hash@) by {
            if s < t {
                lemma_build_job_name_injective(req@[s].0@, y@);
                assert(req@[s].0@ != req@[t as int].0@);
            }
        }
        assert forall|k: Seq<char>| #[trigger] pairs_map(jobs@).dom().contains(k) <==> (start.dom().contains(k)
            || exists|s: int| 0 <= s < t + 1 && k == build_job_name((#[trigger] req@[s]).0@)) by {
            if k == nv {
                assert(k == build_job_name(req@[t as int].0@));
            }
            if exists|s: int| 0 <= s < t + 1 && k == build_job_name((#[trigger] req@[s]).0@) {
                let s = choose|s: int| 0 <= s < t + 1 && k == build_job_name((#[trigger] req@[s]).0@);
                if s < t {
                    assert(exists|s2: int| 0 <= s2 < t && k == build_job_name((#[trigger] req@[s2]).0@));
                }
            }
        }
        assert forall|k: Seq<char>| #[trigger] start.dom().contains(k) && !(exists|s: int| 0 <= s < t + 1 && k == build_job_name((#[trigger] req@[s]).0@))
            implies pairs_map(jobs@)[k] == start[k] by {
            assert(k != build_job_name(req@[t as int].0@));
            if exists|s: int| 0 <= s < t && k == build_job_name((#[trigger] req@[s]).0@) {
                let s = choose|s: int| 0 <= s < t && k == build_job_name((#[trigger] req@[s]).0@);
                assert(0 <= s < t + 1);
            }
        }
        t = t + 1;
    }
}

impl CircleCIGenerator {
    /// Adds the docker builds to the jobs of a workflow, when docker building is
    /// enabled: a build job for each image that must be built (keyed by the base
    /// hash of the image sources), and a requirement on it for each job that runs
    /// on that image by its short name. Otherwise the jobs are unchanged.
    pub fn augment_with_docker_build(&self, config: &Config, jobs: &mut Vec<(String, Job)>, base_hash: &str)
        requires
            unique_keys(old(jobs)@),
        ensures
            unique_keys(final(jobs)@),
            match config.docker_build {
                Some(db) => if db.enabled {
                    augmented(final(jobs)@, old(jobs)@, *config, db, base_hash@)
                } else {
                    final(jobs)@ == old(jobs)@
                },
                None => final(jobs)@ == old(jobs)@,
            },
    {
        let db = match &config.docker_build {
            Some(db) => db,
            None => { return; },
        };
        if !db.enabled {
            return;
        }
        let ghost orig = jobs@;
        let req = required_images(&db.images, jobs);
        add_build_requirements(jobs, &db.images, &req, Ghost(orig));
        let ghost mid = jobs@;
        proof {
            lemma_pairs_map_unique(orig);
            lemma_pairs_map_unique(mid);
            assert forall|k: Seq<char>| #[trigger] pairs_map(mid).dom().contains(k) <==> pairs_map(orig).dom().contains(k) by {
                if has_key(mid, k) {
                    let j = choose|j: int| 0 <= j < mid.len() && (#[trigger] mid[j]).0@ == k;
                    assert(orig[j].0@ == k);
                }
                if has_key(orig, k) {
                    let j = choose|j: int| 0 <= j < orig.len() && (#[trigger] orig[j]).0@ == k;
                    assert(mid[j].0@ == k);
                }
            }
            assert forall|k: Seq<char>| #[trigger] pairs_map(orig).dom().contains(k) implies
                injected_ok(pairs_map(mid)[k], pairs_map(orig)[k], db.images@, orig) by {
                let j = choose|j: int| 0 <= j < orig.len() && (#[trigger] orig[j]).0@ == k;
                assert(mid[j].0@ == k);
                assert(pairs_map(mid)[mid[j].0@] == mid[j].1);
                assert(pairs_map(orig)[orig[j].0@] == orig[j].1);
            }
        }
        add_build_jobs(jobs, config, db, &req, base_hash);
        proof {
            let images = db.images@;
            assert forall|k: Seq<char>| (exists|s: int| 0 <= s < req@.len() && k == build_job_name((#[trigger] req@[s]).0@))
                <==> is_build_job_name(images, orig, k) by {
                if exists|s: int| 0 <= s < req@.len() && k == build_job_name((#[trigger] req@[s]).0@) {
                    let s = choose|s: int| 0 <= s < req@.len() && k == build_job_name((#[trigger] req@[s]).0@);
                    assert(has_key(req@, req@[s].0@));
                    assert(is_required(images, orig, req@[s].0@));
                }
                if is_build_job_name(images, orig, k) {
                    let y = choose|y: Seq<char>| #[trigger] is_required(images, orig, y) && k == build_job_name(y);
                    assert(has_key(req@, y));
                    let s = choose|s: int| 0 <= s < req@.len() && (#[trigger] req@[s]).0@ == y;
                    assert(k == build_job_name(req@[s].0@));
                }
            }
            let fm = pairs_map(jobs@);
            let om = pairs_map(orig);
            assert forall|k: Seq<char>| #[trigger] fm.dom().contains(k) <==> (om.dom().contains(k) || is_build_job_name(images, orig, k)) by {
                assert(pairs_map(mid).dom().contains(k) == om.dom().contains(k));
            }
            assert forall|k: Seq<char>| #[trigger] om.dom().contains(k) && !is_build_job_name(images, orig, k) implies injected_ok(fm[k], om[k], images, orig) by {
                assert(pairs_map(mid).dom().contains(k));
                assert(fm[k] == pairs_map(mid)[k]);
            }
            assert forall|y: Seq<char>| #[trigger] is_required(images, orig, y) implies build_job_ok(pairs_map(jobs@)[build_job_name(y)], *config, *db, y,
                Set::new(|a: Seq<char>| required_arch(images, orig, y, a)), base_hash@) by {
                assert(has_key(req@, y));
                let s = choose|s: int| 0 <= s < req@.len() && (#[trigger] req@[s]).0@ == y;
                assert(strs_view(req@[s].1@).to_set() =~= Set::new(|a: Seq<char>| required_arch(images, orig, y, a))) by {
                    assert forall|a: Seq<char>| strs_view(req@[s].1@).to_set().contains(a) <==> required_arch(images, orig, y, a) by {
                        if strs_view(req@[s].1@).contains(a) {
                            assert(mm_has(req@, y, a));
                        }
                        if required_arch(images, orig, y, a) {
                            assert(mm_has(req@, y, a));
                            let i = choose|i: int| 0 <= i < req@.len() && (#[trigger] req@[i]).0@ == y && strs_view(req@[i].1@).contains(a);
                            assert(i == s);
                        }
                    }
                }
            }
        }
    }
}

} // verus!
