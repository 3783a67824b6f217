//! The base hash of the docker images the pipeline builds: a SHA-256 over the
//! files that the images' hash sources match, in order, each given by its
//! relative path and the SHA-256 of its content.

use vstd::prelude::*;
use vstd::string::*;
use vstd::utf8::encode_utf8;
use sha2::{Digest, Sha256};
use crate::models::{Config, DockerBuildConfig};
use crate::strutil::{find_from, find_str, strs_view, to_owned_string, str_eq};
use super::convert::contains_string;
use super::docker_build::{no_dups, lemma_push_contains};

verus! {

broadcast use vstd::string::group_string_axioms;

/// The SHA-256 digest of `data`, as lowercase hexadecimal digits.
pub uninterp spec fn sha256_hex(data: Seq<u8>) -> Seq<char>;

/// Whether a character is a lowercase hexadecimal digit.
pub open spec fn is_lower_hex(c: char) -> bool {
    ('0' <= c && c <= '9') || ('a' <= c && c <= 'f')
}

/// Calls `sha2::Sha256::digest` and writes the 32-byte digest with `{:x}`:
/// the result is the named digest of the bytes, 64 lowercase hexadecimal digits.
#[verifier::external_body]
pub(crate) fn sha256_hex_of(data: &[u8]) -> (r: String)
    ensures
        r@ == sha256_hex(data@),
        r@.len() == 64,
        forall|i: int| 0 <= i < 64 ==> is_lower_hex(#[trigger] r@[i]),
{
    format!("{:x}", Sha256::digest(data))
}

/// The hash of a file's content.
pub fn file_content_hash(content: &Vec<u8>) -> (r: String)
    ensures
        r@ == sha256_hex(content@),
        r@.len() == 64,
        forall|i: int| 0 <= i < 64 ==> is_lower_hex(#[trigger] r@[i]),
{
    sha256_hex_of(content.as_slice())
}

/// Paths that never count toward the base hash: anything under these directories.
pub open spec fn hash_excludes() -> Seq<Seq<char>> {
    seq![".git/"@, "node_modules/"@, "target/"@, "tmp/"@, "log/"@, ".circleci/"@, ".cigen/"@, "docs/dist/"@, "public/assets/"@]
}

/// Whether `s` occurs in `path`.
pub open spec fn occurs_in(s: Seq<char>, path: Seq<char>) -> bool {
    find_from(path, s, 0) is Some
}

/// Whether a found file is left out of the base hash: its path contains one of
/// the excluded directories.
pub open spec fn spec_is_hash_excluded(path: Seq<char>) -> bool {
    exists|i: int| 0 <= i < hash_excludes().len() && occurs_in(#[trigger] hash_excludes()[i], path)
}

/// Whether a file found by walking a directory is left out of the base hash.
pub fn is_hash_excluded(path: &str) -> (r: bool)
    ensures
        r == spec_is_hash_excluded(path@),
{
    let ex: [&str; 9] = [".git/", "node_modules/", "target/", "tmp/", "log/", ".circleci/", ".cigen/", "docs/dist/", "public/assets/"];
    let ghost exs = hash_excludes();
    assert(ex@.map_values(|s: &str| s@) =~= exs);
    let mut i: usize = 0;
    while i < 9
        invariant
            i <= 9,
            exs == hash_excludes(),
            ex@.map_values(|s: &str| s@) == exs,
            forall|j: int| 0 <= j < i ==> !occurs_in(#[trigger] exs[j], path@),
        decreases 9 - i,
    {
        assert(ex@.map_values(|s: &str| s@)[i as int] == ex[i as int]@);
        if find_str(path, ex[i]).is_some() {
            assert(occurs_in(exs[i as int], path@));
            return true;
        }
        i = i + 1;
    }
    false
}

/// The hash source patterns named by the images of a docker build.
pub open spec fn hash_pattern_set(db: DockerBuildConfig) -> Set<Seq<char>> {
    Set::new(|p: Seq<char>| exists|i: int| 0 <= i < db.images@.len() && strs_view(db.images@[i].hash_sources@).contains(p))
}

/// Law: the hash patterns follow from the set of hash sources alone: two
/// builds whose images name the same sources (in any order, repeated or split
/// between images differently) get lists of the same patterns, each once, and
/// so of the same length.
pub proof fn law_hash_patterns_follow_source_set(db1: DockerBuildConfig, db2: DockerBuildConfig, v1: Seq<Seq<char>>, v2: Seq<Seq<char>>)
    requires
        hash_pattern_set(db1) == hash_pattern_set(db2),
        no_dups(v1),
        v1.to_set() == hash_pattern_set(db1),
        no_dups(v2),
        v2.to_set() == hash_pattern_set(db2),
    ensures
        v1.to_set() == v2.to_set(),
        forall|p: Seq<char>| v1.contains(p) <==> v2.contains(p),
        v1.len() == v2.len(),
{
    assert forall|p: Seq<char>| v1.contains(p) <==> v2.contains(p) by {
        assert(v1.to_set().contains(p) <==> v1.contains(p));
        assert(v2.to_set().contains(p) <==> v2.contains(p));
    }
    assert(v1.no_duplicates());
    assert(v2.no_duplicates());
    v1.unique_seq_to_set();
    v2.unique_seq_to_set();
}

/// The hash source patterns of all built images, each once, when docker
/// building is enabled.
pub fn docker_hash_patterns(config: &Config) -> (r: Option<Vec<String>>)
    ensures
        match config.docker_build {
            Some(db) => if db.enabled {
                r matches Some(v) && no_dups(strs_view(v@))
                    && strs_view(v@).to_set() == hash_pattern_set(db)
                    && forall|p: Seq<char>| #[trigger] strs_view(v@).contains(p) <==> exists|i: int| 0 <= i < db.images@.len()
                        && strs_view((#[trigger] db.images@[i]).hash_sources@).contains(p)
            } else {
                r is None
            },
            None => r is None,
        },
{
    let db = match &config.docker_build {
        Some(db) => db,
        None => { return None; },
    };
    if !db.enabled {
        return None;
    }
    let images = &db.images;
    let mut out: Vec<String> = Vec::new();
    let n = images.len();
    let mut i: usize = 0;
    while i < n
        invariant
            n == images@.len(),
            i <= n,
            no_dups(strs_view(out@)),
            forall|p: Seq<char>| #[trigger] strs_view(out@).contains(p) <==> exists|j: int| 0 <= j < i
                && strs_view((#[trigger] images@[j]).hash_sources@).contains(p),
        decreases n - i,
    {
        let sources = &images[i].hash_sources;
        let m = sources.len();
        let mut t: usize = 0;
        while t < m
            invariant
                n == images@.len(),
                i < n,
                m == sources@.len(),
                *sources == images@[i as int].hash_sources,
                t <= m,
                no_dups(strs_view(out@)),
                forall|p: Seq<char>| #[trigger] strs_view(out@).contains(p) <==> ((exists|j: int| 0 <= j < i
                    && strs_view((#[trigger] images@[j]).hash_sources@).contains(p)) || strs_view(sources@).take(t as int).contains(p)),
            decreases m - t,
        {
            let p = sources[t].as_str();
            let ghost before = strs_view(out@);
            if !contains_string(&out, p) {
                out.push(to_owned_string(p));
                assert(strs_view(out@) =~= before.push(p@));
                assert forall|a: int, b: int| 0 <= a < b < strs_view(out@).len() implies strs_view(out@)[a] != strs_view(out@)[b] by {
                    if b == before.len() {
                        assert(before[a] == strs_view(out@)[a]);
                        assert(before.contains(before[a]));
                    }
                }
            }
            assert(strs_view(sources@).take(t + 1) =~= strs_view(sources@).take(t as int).push(p@));
            assert forall|q: Seq<char>| #[trigger] strs_view(out@).contains(q) <==> ((exists|j: int| 0 <= j < i
                && strs_view((#[trigger] images@[j]).hash_sources@).contains(q)) || strs_view(sources@).take(t + 1).contains(q)) by {
                lemma_push_contains(strs_view(sources@).take(t as int), p@, q);
                lemma_push_contains(before, p@, q);
            }
            t = t + 1;
        }
        assert(strs_view(sources@).take(m as int) =~= strs_view(sources@));
        assert forall|p: Seq<char>| #[trigger] strs_view(out@).contains(p) <==> exists|j: int| 0 <= j < i + 1
            && strs_view((#[trigger] images@[j]).hash_sources@).contains(p) by {
            if exists|j: int| 0 <= j < i + 1 && strs_view((#[trigger] images@[j]).hash_sources@).contains(p) {
                let j = choose|j: int| 0 <= j < i + 1 && strs_view((#[trigger] images@[j]).hash_sources@).contains(p);
                if j < i {
                    assert(exists|j2: int| 0 <= j2 < i && strs_view((#[trigger] images@[j2]).hash_sources@).contains(p));
                }
            }
            if exists|j: int| 0 <= j < i && strs_view((#[trigger] images@[j]).hash_sources@).contains(p) {
                let j = choose|j: int| 0 <= j < i && strs_view((#[trigger] images@[j]).hash_sources@).contains(p);
                assert(0 <= j < i + 1);
            }
        }
        i = i + 1;
    }
    assert(strs_view(out@).to_set() =~= hash_pattern_set(*db));
    Some(out)
}

/// The rank of a character in path order: `/` before every other character,
/// the others by their code.
pub open spec fn path_char_rank(c: char) -> int {
    if c == '/' { -1 } else { (c as u32) as int }
}

/// Path order: character by character, `/` first, a path before its
/// extensions. On paths without empty or `.` components this is the order of
/// paths compared component by component.
pub open spec fn path_lt(a: Seq<char>, b: Seq<char>) -> bool
    decreases a.len(),
{
    if b.len() == 0 {
        false
    } else if a.len() == 0 {
        true
    } else if a[0] != b[0] {
        path_char_rank(a[0]) < path_char_rank(b[0])
    } else {
        path_lt(a.drop_first(), b.drop_first())
    }
}

/// No path comes before itself.
pub proof fn lemma_path_lt_irreflexive(a: Seq<char>)
    ensures
        !path_lt(a, a),
    decreases a.len(),
{
    if a.len() > 0 {
        lemma_path_lt_irreflexive(a.drop_first());
    }
}

/// Path order is transitive.
pub proof fn lemma_path_lt_transitive(a: Seq<char>, b: Seq<char>, c: Seq<char>)
    requires
        path_lt(a, b),
        path_lt(b, c),
    ensures
        path_lt(a, c),
    decreases a.len(),
{
    if a.len() > 0 && b.len() > 0 && c.len() > 0 && a[0] == b[0] && b[0] == c[0] {
        lemma_path_lt_transitive(a.drop_first(), b.drop_first(), c.drop_first());
    }
}

/// Of two different paths, one comes first, and not both.
pub proof fn lemma_path_lt_total(a: Seq<char>, b: Seq<char>)
    ensures
        a != b ==> (path_lt(a, b) || path_lt(b, a)),
        !(path_lt(a, b) && path_lt(b, a)),
    decreases a.len(),
{
    if a.len() > 0 && b.len() > 0 && a[0] == b[0] {
        lemma_path_lt_total(a.drop_first(), b.drop_first());
        if a.drop_first() == b.drop_first() {
            assert(a =~= seq![a[0]] + a.drop_first());
            assert(b =~= seq![b[0]] + b.drop_first());
        }
    } else if a.len() > 0 && b.len() > 0 {
        assert(a[0] != b[0]);
        assert(path_char_rank(a[0]) != path_char_rank(b[0])) by {
            if a[0] != '/' && b[0] != '/' {
                vstd::utf8::char_u32_cast(a[0], a[0] as u32);
                vstd::utf8::char_u32_cast(b[0], b[0] as u32);
            }
        }
    } else if a.len() == 0 && b.len() == 0 {
        assert(a =~= b);
    }
}

/// Whether paths are in strict path order (so each occurs once).
pub open spec fn paths_ordered(s: Seq<Seq<char>>) -> bool {
    forall|i: int, j: int| 0 <= i < j < s.len() ==> path_lt(#[trigger] s[i], #[trigger] s[j])
}

/// Law: the ordered list of a set of paths is the only one: two lists in
/// strict path order that hold the same paths are the same list, whatever
/// order and repeats the paths were found in.
pub proof fn law_ordered_paths_are_unique(s1: Seq<Seq<char>>, s2: Seq<Seq<char>>)
    requires
        paths_ordered(s1),
        paths_ordered(s2),
        s1.to_set() == s2.to_set(),
    ensures
        s1 == s2,
    decreases s1.len(),
{
    if s1.len() == 0 {
        if s2.len() > 0 {
            assert(s2.to_set().contains(s2[0]));
            assert(!s1.to_set().contains(s2[0]));
        }
        assert(s1 =~= s2);
    } else {
        assert(s1.to_set().contains(s1[0]));
        assert(s2.contains(s1[0]));
        assert(s2.len() > 0);
        assert(s2.to_set().contains(s2[0]));
        assert(s1.contains(s2[0]));
        let i1 = choose|i: int| 0 <= i < s1.len() && s1[i] == s2[0];
        let i2 = choose|i: int| 0 <= i < s2.len() && s2[i] == s1[0];
        if s1[0] != s2[0] {
            lemma_path_lt_total(s1[0], s2[0]);
            assert(i1 > 0 && i2 > 0);
            assert(path_lt(s1[0], s1[i1]));
            assert(path_lt(s2[0], s2[i2]));
            assert(false);
        }
        let t1 = s1.drop_first();
        let t2 = s2.drop_first();
        assert forall|p: Seq<char>| t1.to_set().contains(p) <==> t2.to_set().contains(p) by {
            if t1.contains(p) {
                let k = choose|k: int| 0 <= k < t1.len() && t1[k] == p;
                assert(s1[k + 1] == p);
                assert(path_lt(s1[0], p));
                lemma_path_lt_irreflexive(p);
                assert(s2.to_set().contains(p));
                let m = choose|m: int| 0 <= m < s2.len() && s2[m] == p;
                assert(m != 0);
                assert(t2[m - 1] == p);
            }
            if t2.contains(p) {
                let k = choose|k: int| 0 <= k < t2.len() && t2[k] == p;
                assert(s2[k + 1] == p);
                assert(path_lt(s2[0], p));
                lemma_path_lt_irreflexive(p);
                assert(s1.to_set().contains(p));
                let m = choose|m: int| 0 <= m < s1.len() && s1[m] == p;
                assert(m != 0);
                assert(t1[m - 1] == p);
            }
        }
        assert(t1.to_set() =~= t2.to_set());
        assert(paths_ordered(t1)) by {
            assert forall|i: int, j: int| 0 <= i < j < t1.len() implies path_lt(#[trigger] t1[i], #[trigger] t1[j]) by {
                assert(t1[i] == s1[i + 1] && t1[j] == s1[j + 1]);
            }
        }
        assert(paths_ordered(t2)) by {
            assert forall|i: int, j: int| 0 <= i < j < t2.len() implies path_lt(#[trigger] t2[i], #[trigger] t2[j]) by {
                assert(t2[i] == s2[i + 1] && t2[j] == s2[j + 1]);
            }
        }
        law_ordered_paths_are_unique(t1, t2);
        assert(s1 =~= seq![s1[0]] + t1);
        assert(s2 =~= seq![s2[0]] + t2);
    }
}

/// Whether `a` comes before `b` in path order.
pub fn path_before(a: &str, b: &str) -> (r: bool)
    ensures
        r == path_lt(a@, b@),
{
    let na = a.unicode_len();
    let nb = b.unicode_len();
    let mut i: usize = 0;
    assert(a@.subrange(0, na as int) =~= a@);
    assert(b@.subrange(0, nb as int) =~= b@);
    while i < na && i < nb
        invariant
            na == a@.len(),
            nb == b@.len(),
            i <= na,
            i <= nb,
            path_lt(a@, b@) == path_lt(a@.subrange(i as int, na as int), b@.subrange(i as int, nb as int)),
        decreases na - i,
    {
        let ca = a.get_char(i);
        let cb = b.get_char(i);
        let ghost ra = a@.subrange(i as int, na as int);
        let ghost rb = b@.subrange(i as int, nb as int);
        if ca != cb {
            assert(ra[0] == ca && rb[0] == cb);
            let lt = if ca == '/' { true } else if cb == '/' { false } else { (ca as u32) < (cb as u32) };
            return lt;
        }
        assert(ra.drop_first() =~= a@.subrange(i + 1, na as int));
        assert(rb.drop_first() =~= b@.subrange(i + 1, nb as int));
        i = i + 1;
    }
    i == na && i < nb
}

/// Puts `p` into an ordered list of paths, unless it is there already.
fn insert_path(out: &mut Vec<String>, p: &str)
    requires
        paths_ordered(strs_view(old(out)@)),
    ensures
        paths_ordered(strs_view(final(out)@)),
        strs_view(final(out)@).to_set() == strs_view(old(out)@).to_set().insert(p@),
{
    let ghost before = strs_view(out@);
    let n = out.len();
    let mut i: usize = 0;
    while i < n && path_before(out[i].as_str(), p)
        invariant
            n == out@.len(),
            i <= n,
            before == strs_view(out@),
            paths_ordered(before),
            forall|j: int| 0 <= j < i ==> path_lt(#[trigger] before[j], p@),
        decreases n - i,
    {
        i = i + 1;
    }
    if i < n && str_eq(out[i].as_str(), p) {
        assert(before.to_set().insert(p@) =~= before.to_set()) by {
            assert(before[i as int] == p@);
        }
        return;
    }
    proof {
        if i < n {
            lemma_path_lt_total(before[i as int], p@);
        }
    }
    out.insert(i, to_owned_string(p));
    let ghost after = strs_view(out@);
    assert(after =~= before.insert(i as int, p@));
    assert forall|a: int, b: int| 0 <= a < b < after.len() implies path_lt(#[trigger] after[a], #[trigger] after[b]) by {
        if b < i {
        } else if a < i && b == i {
        } else if a < i && b > i {
            assert(after[b] == before[b - 1]);
            if i < n {
                lemma_path_lt_transitive(before[a], p@, before[i as int]);
                if b - 1 > i {
                    lemma_path_lt_transitive(before[a], before[i as int], before[b - 1]);
                }
            }
        } else if a == i {
            assert(after[b] == before[b - 1]);
            if b - 1 > i {
                lemma_path_lt_transitive(p@, before[i as int], before[b - 1]);
            }
        } else {
            assert(after[a] == before[a - 1] && after[b] == before[b - 1]);
        }
    }
    assert forall|q: Seq<char>| after.to_set().contains(q) <==> before.to_set().insert(p@).contains(q) by {
        if after.contains(q) {
            let k = choose|k: int| 0 <= k < after.len() && after[k] == q;
            if k < i { assert(before[k] == q); } else if k > i { assert(before[k - 1] == q); }
        }
        if before.contains(q) {
            let k = choose|k: int| 0 <= k < before.len() && before[k] == q;
            if k < i { assert(after[k] == q); } else { assert(after[k + 1] == q); }
        }
        if q == p@ {
            assert(after[i as int] == q);
        }
    }
    assert(after.to_set() =~= before.to_set().insert(p@));
}

/// The matched files of the base hash in path order, each once: the list
/// depends only on which files were matched, not on the order or the
/// repeats they were found in.
pub fn order_hash_files(found: &Vec<String>) -> (r: Vec<String>)
    ensures
        paths_ordered(strs_view(r@)),
        strs_view(r@).to_set() == strs_view(found@).to_set(),
{
    let mut out: Vec<String> = Vec::new();
    let n = found.len();
    let mut i: usize = 0;
    assert(strs_view(out@).to_set() =~= strs_view(found@.subrange(0, 0)).to_set());
    while i < n
        invariant
            n == found@.len(),
            i <= n,
            paths_ordered(strs_view(out@)),
            strs_view(out@).to_set() == strs_view(found@.subrange(0, i as int)).to_set(),
        decreases n - i,
    {
        insert_path(&mut out, found[i].as_str());
        assert(strs_view(found@.subrange(0, i + 1)) =~= strs_view(found@.subrange(0, i as int)).push(found@[i as int]@));
        proof {
            let pre = strs_view(found@.subrange(0, i as int));
            pre.lemma_push_to_set_commute(found@[i as int]@);
        }
        i = i + 1;
    }
    assert(found@.subrange(0, n as int) =~= found@);
    out
}

/// The bytes the base hash is computed over: for each file in turn, its
/// relative path (where it has one) and the hash of its content.
pub open spec fn base_hash_input(files: Seq<(Option<String>, String)>) -> Seq<u8>
    decreases files.len(),
{
    if files.len() == 0 {
        Seq::empty()
    } else {
        let (rel, hash) = files.last();
        base_hash_input(files.drop_last()) + match rel {
            Some(r) => encode_utf8(r@),
            None => Seq::empty(),
        } + encode_utf8(hash@)
    }
}

/// The base hash over files given in order by relative path and content hash.
pub fn aggregate_base_hash(files: &Vec<(Option<String>, String)>) -> (r: String)
    ensures
        r@ == sha256_hex(base_hash_input(files@)),
        r@.len() == 64,
        forall|i: int| 0 <= i < 64 ==> is_lower_hex(#[trigger] r@[i]),
{
    let mut data: Vec<u8> = Vec::new();
    let n = files.len();
    let mut i: usize = 0;
    while i < n
        invariant
            n == files@.len(),
            i <= n,
            data@ == base_hash_input(files@.take(i as int)),
        decreases n - i,
    {
        assert(files@.take(i + 1).drop_last() =~= files@.take(i as int));
        assert(files@.take(i + 1).last() == files@[i as int]);
        let ghost before = data@;
        match &files[i].0 {
            Some(rel) => {
                let mut bytes = rel.as_str().as_bytes_vec();
                data.append(&mut bytes);
            },
            None => {},
        }
        let ghost mid = data@;
        assert(mid == before + match files@[i as int].0 { Some(r) => encode_utf8(r@), None => Seq::<u8>::empty() });
        let mut hb = files[i].1.as_str().as_bytes_vec();
        data.append(&mut hb);
        i = i + 1;
    }
    assert(files@.take(n as int) =~= files@);
    sha256_hex_of(data.as_slice())
}

impl super::generator::CircleCIGenerator {
    /// The base hash of the built docker images, over the matched files given
    /// in order (relative path where it has one, and content hash); none when
    /// docker building is not enabled.
    pub fn compute_docker_base_hash(&self, config: &Config, files: &Vec<(Option<String>, String)>) -> (r: Option<String>)
        ensures
            match config.docker_build {
                Some(db) => if db.enabled {
                    r matches Some(h) && h@ == sha256_hex(base_hash_input(files@))
                        && h@.len() == 64 && forall|i: int| 0 <= i < 64 ==> is_lower_hex(#[trigger] h@[i])
                } else {
                    r is None
                },
                None => r is None,
            },
    {
        match &config.docker_build {
            Some(db) => if db.enabled { Some(aggregate_base_hash(files)) } else { None },
            None => None,
        }
    }
}

} // verus!
