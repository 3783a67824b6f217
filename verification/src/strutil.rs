//! String helpers with exact contracts over `Seq<char>`.

use vstd::prelude::*;
use vstd::string::*;

verus! {

broadcast use vstd::string::group_string_axioms;

/// The view of an optional string.
pub open spec fn opt_str_view(o: Option<String>) -> Option<Seq<char>> {
    match o {
        Some(s) => Some(s@),
        None => None,
    }
}

/// The view of an optional string slice.
pub open spec fn opt_ref_view(o: Option<&str>) -> Option<Seq<char>> {
    match o {
        Some(s) => Some(s@),
        None => None,
    }
}

/// Appends one character to a string.
///
/// Trusted: calls `String::push`, which appends the character at the end.
#[verifier::external_body]
pub fn push_char(s: &mut String, c: char)
    ensures
        final(s)@ == old(s)@.push(c),
{
    s.push(c);
}

/// Character equality of two strings.
pub fn str_eq(a: &str, b: &str) -> (r: bool)
    ensures
        r == (a@ == b@),
{
    let n = a.unicode_len();
    let m = b.unicode_len();
    if n != m {
        return false;
    }
    let mut i: usize = 0;
    while i < n
        invariant
            n == a@.len(),
            m == b@.len(),
            n == m,
            i <= n,
            forall|j: int| 0 <= j < i ==> a@[j] == b@[j],
        decreases n - i,
    {
        if a.get_char(i) != b.get_char(i) {
            return false;
        }
        i = i + 1;
    }
    assert(a@ =~= b@);
    true
}

/// `p` is a prefix of `s`.
pub open spec fn is_prefix(p: Seq<char>, s: Seq<char>) -> bool {
    p.len() <= s.len() && s.subrange(0, p.len() as int) == p
}

/// `p` is a suffix of `s`.
pub open spec fn is_suffix(p: Seq<char>, s: Seq<char>) -> bool {
    p.len() <= s.len() && s.subrange(s.len() - p.len(), s.len() as int) == p
}

/// Whether `s` starts with `p`.
pub fn starts_with(s: &str, p: &str) -> (r: bool)
    ensures
        r == is_prefix(p@, s@),
{
    let n = s.unicode_len();
    let m = p.unicode_len();
    if m > n {
        return false;
    }
    let mut i: usize = 0;
    while i < m
        invariant
            n == s@.len(),
            m == p@.len(),
            m <= n,
            i <= m,
            forall|j: int| 0 <= j < i ==> s@[j] == p@[j],
        decreases m - i,
    {
        if s.get_char(i) != p.get_char(i) {
            assert(s@.subrange(0, m as int)[i as int] != p@[i as int]);
            return false;
        }
        i = i + 1;
    }
    assert(s@.subrange(0, m as int) =~= p@);
    true
}

/// Whether `p` occurs in `s` at index `i`.
pub open spec fn occurs_at(s: Seq<char>, p: Seq<char>, i: int) -> bool {
    0 <= i && i + p.len() <= s.len() && s.subrange(i, i + p.len()) == p
}

/// The first index, from `k` on, at which `p` occurs in `s`.
pub open spec fn find_from(s: Seq<char>, p: Seq<char>, k: int) -> Option<int>
    decreases s.len() + 1 - k,
{
    if k < 0 || k + p.len() > s.len() {
        None
    } else if occurs_at(s, p, k) {
        Some(k)
    } else {
        find_from(s, p, k + 1)
    }
}

/// What `find_from` finds is an occurrence, and none comes before it.
pub proof fn lemma_find_from(s: Seq<char>, p: Seq<char>, k: int)
    requires
        0 <= k,
    ensures
        match find_from(s, p, k) {
            Some(i) => k <= i && occurs_at(s, p, i) && forall|j: int| k <= j < i ==> !occurs_at(s, p, j),
            None => forall|j: int| k <= j ==> !occurs_at(s, p, j),
        },
    decreases s.len() + 1 - k,
{
    if k + p.len() <= s.len() && !occurs_at(s, p, k) {
        lemma_find_from(s, p, k + 1);
    }
}

/// The first index (counted in characters) at which `p` occurs in `s`.
pub fn find_str(s: &str, p: &str) -> (r: Option<usize>)
    ensures
        match r {
            Some(i) => find_from(s@, p@, 0) == Some(i as int) && i + p@.len() <= s@.len(),
            None => find_from(s@, p@, 0) is None,
        },
{
    proof {
        lemma_find_from(s@, p@, 0);
    }
    let n = s.unicode_len();
    let m = p.unicode_len();
    if m > n {
        return None;
    }
    let mut k: usize = 0;
    loop
        invariant
            n == s@.len(),
            m == p@.len(),
            m <= n,
            k <= n - m,
            find_from(s@, p@, 0) == find_from(s@, p@, k as int),
        decreases n - m - k,
    {
        let rest = s.substring_char(k, n);
        let found = starts_with(rest, p);
        assert(rest@.subrange(0, m as int) =~= s@.subrange(k as int, k + m));
        if found {
            return Some(k);
        }
        if k == n - m {
            assert(find_from(s@, p@, k + 1) is None);
            return None;
        }
        k = k + 1;
    }
}

/// Whether `s` ends with `p`.
pub fn ends_with(s: &str, p: &str) -> (r: bool)
    ensures
        r == is_suffix(p@, s@),
{
    let n = s.unicode_len();
    let m = p.unicode_len();
    if m > n {
        return false;
    }
    let off = n - m;
    let mut i: usize = 0;
    while i < m
        invariant
            n == s@.len(),
            m == p@.len(),
            m <= n,
            off == n - m,
            i <= m,
            forall|j: int| 0 <= j < i ==> s@[off + j] == p@[j],
        decreases m - i,
    {
        if s.get_char(off + i) != p.get_char(i) {
            assert(s@.subrange(off as int, n as int)[i as int] != p@[i as int]);
            return false;
        }
        i = i + 1;
    }
    assert(s@.subrange(off as int, n as int) =~= p@);
    true
}

/// Whether character `c` occurs in `s`.
pub fn contains_char(s: &str, c: char) -> (r: bool)
    ensures
        r == s@.contains(c),
{
    let n = s.unicode_len();
    let mut i: usize = 0;
    while i < n
        invariant
            n == s@.len(),
            i <= n,
            forall|j: int| 0 <= j < i ==> s@[j] != c,
        decreases n - i,
    {
        if s.get_char(i) == c {
            assert(s@[i as int] == c);
            return true;
        }
        i = i + 1;
    }
    false
}

/// The text after a leading `p`, if `s` starts with `p`.
pub fn strip_prefix<'a>(s: &'a str, p: &str) -> (r: Option<&'a str>)
    ensures
        r is Some <==> is_prefix(p@, s@),
        r matches Some(rest) ==> rest@ == s@.subrange(p@.len() as int, s@.len() as int),
{
    if starts_with(s, p) {
        let n = s.unicode_len();
        let m = p.unicode_len();
        Some(s.substring_char(m, n))
    } else {
        None
    }
}

/// A copy of `s` as an owned string.
pub fn to_owned_string(s: &str) -> (r: String)
    ensures
        r@ == s@,
{
    String::from_str(s)
}

/// Unicode `White_Space` characters, as `char::is_whitespace` classifies them.
pub open spec fn spec_is_whitespace(c: char) -> bool {
    let u = c as u32;
    (0x9 <= u <= 0xd) || u == 0x20 || u == 0x85 || u == 0xa0 || u == 0x1680
        || (0x2000 <= u <= 0x200a) || u == 0x2028 || u == 0x2029 || u == 0x202f
        || u == 0x205f || u == 0x3000
}

/// Whether `c` is a Unicode white-space character.
pub fn is_whitespace(c: char) -> (r: bool)
    ensures
        r == spec_is_whitespace(c),
{
    let u = c as u32;
    (0x9 <= u && u <= 0xd) || u == 0x20 || u == 0x85 || u == 0xa0 || u == 0x1680
        || (0x2000 <= u && u <= 0x200a) || u == 0x2028 || u == 0x2029 || u == 0x202f
        || u == 0x205f || u == 0x3000
}

/// Whether every character of `s` is white space, i.e. `s.trim()` is empty.
pub open spec fn spec_is_blank(s: Seq<char>) -> bool {
    forall|i: int| 0 <= i < s.len() ==> spec_is_whitespace(#[trigger] s[i])
}

/// Whether `s` trims to the empty string.
pub fn is_blank(s: &str) -> (r: bool)
    ensures
        r == spec_is_blank(s@),
{
    let n = s.unicode_len();
    let mut i: usize = 0;
    while i < n
        invariant
            n == s@.len(),
            i <= n,
            forall|j: int| 0 <= j < i ==> spec_is_whitespace(#[trigger] s@[j]),
        decreases n - i,
    {
        if !is_whitespace(s.get_char(i)) {
            return false;
        }
        i = i + 1;
    }
    true
}

/// `s` with every occurrence of `pat` replaced by `rep`, scanning from the left
/// and not overlapping (as `str::replace` does).
pub open spec fn spec_replace(s: Seq<char>, pat: Seq<char>, rep: Seq<char>) -> Seq<char>
    decreases s.len(),
{
    if pat.len() == 0 || s.len() < pat.len() {
        s
    } else if is_prefix(pat, s) {
        rep + spec_replace(s.subrange(pat.len() as int, s.len() as int), pat, rep)
    } else {
        seq![s[0]] + spec_replace(s.subrange(1, s.len() as int), pat, rep)
    }
}

/// Replacing leaves the text before the first occurrence as it is, puts `rep`
/// where that occurrence was, and goes on after it.
pub proof fn lemma_replace_at_first(s: Seq<char>, pat: Seq<char>, rep: Seq<char>, i: int)
    requires
        pat.len() > 0,
        occurs_at(s, pat, i),
        forall|j: int| 0 <= j < i ==> !occurs_at(s, pat, j),
    ensures
        spec_replace(s, pat, rep) == s.subrange(0, i) + rep + spec_replace(s.subrange(i + pat.len(), s.len() as int), pat, rep),
    decreases i,
{
    if i == 0 {
        assert(is_prefix(pat, s));
        assert(s.subrange(0, 0) =~= Seq::<char>::empty());
        assert(Seq::<char>::empty() + rep =~= rep);
    } else {
        assert(!occurs_at(s, pat, 0));
        assert(!is_prefix(pat, s));
        let t = s.subrange(1, s.len() as int);
        assert forall|j: int| 0 <= j < i - 1 implies !occurs_at(t, pat, j) by {
            assert(t.subrange(j, j + pat.len()) =~= s.subrange(j + 1, j + 1 + pat.len()));
            assert(!occurs_at(s, pat, j + 1));
        }
        assert(t.subrange(i - 1, i - 1 + pat.len()) =~= s.subrange(i, i + pat.len()));
        lemma_replace_at_first(t, pat, rep, i - 1);
        assert(t.subrange(i - 1 + pat.len(), t.len() as int) =~= s.subrange(i + pat.len(), s.len() as int));
        assert(seq![s[0]] + t.subrange(0, i - 1) =~= s.subrange(0, i));
        assert(seq![s[0]] + (t.subrange(0, i - 1) + rep + spec_replace(t.subrange(i - 1 + pat.len(), t.len() as int), pat, rep))
            =~= s.subrange(0, i) + rep + spec_replace(s.subrange(i + pat.len(), s.len() as int), pat, rep));
    }
}

/// A text without an occurrence is left as it is.
pub proof fn lemma_replace_none(s: Seq<char>, pat: Seq<char>, rep: Seq<char>)
    requires
        pat.len() > 0,
        forall|j: int| 0 <= j ==> !occurs_at(s, pat, j),
    ensures
        spec_replace(s, pat, rep) == s,
    decreases s.len(),
{
    if s.len() >= pat.len() {
        assert(!occurs_at(s, pat, 0));
        let t = s.subrange(1, s.len() as int);
        assert forall|j: int| 0 <= j implies !occurs_at(t, pat, j) by {
            if j + pat.len() <= t.len() {
                assert(t.subrange(j, j + pat.len()) =~= s.subrange(j + 1, j + 1 + pat.len()));
                assert(!occurs_at(s, pat, j + 1));
            }
        }
        lemma_replace_none(t, pat, rep);
        assert(seq![s[0]] + t =~= s);
    }
}

/// Replaces every occurrence of a non-empty `pat` in `s` by `rep`.
pub fn replace_all(s: &str, pat: &str, rep: &str) -> (r: String)
    requires
        pat@.len() > 0,
    ensures
        r@ == spec_replace(s@, pat@, rep@),
{
    let n = s.unicode_len();
    let m = pat.unicode_len();
    let mut out = String::new();
    let mut i: usize = 0;
    proof {
        assert(s@.subrange(0, n as int) =~= s@);
    }
    while i < n
        invariant
            n == s@.len(),
            m == pat@.len(),
            m > 0,
            i <= n,
            out@ + spec_replace(s@.subrange(i as int, n as int), pat@, rep@) == spec_replace(s@, pat@, rep@),
        decreases n - i,
    {
        let rest = s.substring_char(i, n);
        let ghost t = rest@;
        if m <= n - i && starts_with(rest, pat) {
            proof {
                assert(t.subrange(m as int, t.len() as int) =~= s@.subrange((i + m) as int, n as int));
                assert(spec_replace(t, pat@, rep@) == rep@ + spec_replace(s@.subrange((i + m) as int, n as int), pat@, rep@));
                assert(out@ + rep@ + spec_replace(s@.subrange((i + m) as int, n as int), pat@, rep@)
                    =~= out@ + (rep@ + spec_replace(s@.subrange((i + m) as int, n as int), pat@, rep@)));
            }
            out.append(rep);
            i = i + m;
        } else {
            let c = s.get_char(i);
            proof {
                assert(t.subrange(1, t.len() as int) =~= s@.subrange((i + 1) as int, n as int));
                assert(t[0] == c);
                assert(spec_replace(t, pat@, rep@) == seq![c] + spec_replace(s@.subrange((i + 1) as int, n as int), pat@, rep@));
                assert(out@.push(c) + spec_replace(s@.subrange((i + 1) as int, n as int), pat@, rep@)
                    =~= out@ + (seq![c] + spec_replace(s@.subrange((i + 1) as int, n as int), pat@, rep@)));
            }
            push_char(&mut out, c);
            i = i + 1;
        }
    }
    proof {
        assert(s@.subrange(n as int, n as int) =~= Seq::<char>::empty());
        assert(out@ + Seq::<char>::empty() =~= out@);
    }
    out
}

/// The lines joined with `sep` between them.
pub open spec fn join(lines: Seq<Seq<char>>, sep: Seq<char>) -> Seq<char>
    decreases lines.len(),
{
    if lines.len() == 0 {
        Seq::empty()
    } else if lines.len() == 1 {
        lines[0]
    } else {
        join(lines.drop_last(), sep) + sep + lines.last()
    }
}

/// The views of a list of strings.
pub open spec fn strs_view(v: Seq<String>) -> Seq<Seq<char>> {
    v.map_values(|s: String| s@)
}

/// Joins strings with `sep` between them.
pub fn join_strings(lines: &Vec<String>, sep: &str) -> (r: String)
    ensures
        r@ == join(strs_view(lines@), sep@),
{
    let mut out = String::new();
    let n = lines.len();
    let mut i: usize = 0;
    while i < n
        invariant
            n == lines@.len(),
            i <= n,
            out@ == join(strs_view(lines@.subrange(0, i as int)), sep@),
        decreases n - i,
    {
        proof {
            let sub = strs_view(lines@.subrange(0, i + 1));
            assert(sub.drop_last() =~= strs_view(lines@.subrange(0, i as int)));
            assert(sub.last() == lines@[i as int]@);
        }
        if i > 0 {
            out.append(sep);
        }
        out.append(lines[i].as_str());
        i = i + 1;
    }
    assert(lines@.subrange(0, n as int) =~= lines@);
    out
}

/// The view of a list of string pairs.
pub open spec fn str_pairs_view(v: Seq<(String, String)>) -> Seq<(Seq<char>, Seq<char>)> {
    v.map_values(|p: (String, String)| (p.0@, p.1@))
}

/// Copies a list of strings.
pub fn copy_strings(v: &Vec<String>) -> (r: Vec<String>)
    ensures
        strs_view(r@) == strs_view(v@),
{
    let mut out: Vec<String> = Vec::new();
    let n = v.len();
    let mut i: usize = 0;
    while i < n
        invariant
            n == v@.len(),
            i <= n,
            out@.len() == i,
            forall|j: int| 0 <= j < i ==> (#[trigger] out@[j])@ == v@[j]@,
        decreases n - i,
    {
        out.push(to_owned_string(v[i].as_str()));
        i = i + 1;
    }
    assert(strs_view(out@) =~= strs_view(v@));
    out
}

/// Copies a list of string pairs.
pub fn copy_str_pairs(v: &Vec<(String, String)>) -> (r: Vec<(String, String)>)
    ensures
        str_pairs_view(r@) == str_pairs_view(v@),
{
    let mut out: Vec<(String, String)> = Vec::new();
    let n = v.len();
    let mut i: usize = 0;
    while i < n
        invariant
            n == v@.len(),
            i <= n,
            out@.len() == i,
            forall|j: int| 0 <= j < i ==> (#[trigger] out@[j]).0@ == v@[j].0@ && out@[j].1@ == v@[j].1@,
        decreases n - i,
    {
        out.push((to_owned_string(v[i].0.as_str()), to_owned_string(v[i].1.as_str())));
        i = i + 1;
    }
    assert(str_pairs_view(out@) =~= str_pairs_view(v@));
    out
}

/// Whether a character is a decimal digit.
pub open spec fn is_digit(c: char) -> bool {
    '0' <= c && c <= '9'
}

/// The value of a string of decimal digits.
pub open spec fn digits_value(s: Seq<char>) -> nat
    decreases s.len(),
{
    if s.len() == 0 {
        0
    } else {
        digits_value(s.drop_last()) * 10 + (s.last() as int - '0' as int) as nat
    }
}

/// Ten to the power `k`.
pub open spec fn pow10(k: nat) -> nat
    decreases k,
{
    if k == 0 { 1 } else { 10 * pow10((k - 1) as nat) }
}

/// Powers of ten grow with the exponent.
proof fn lemma_pow10_monotone(a: nat, b: nat)
    requires
        a <= b,
    ensures
        pow10(a) <= pow10(b),
    decreases b,
{
    if a < b {
        lemma_pow10_monotone(a, (b - 1) as nat);
    }
}

/// Whether a number's text starts with `-`.
pub open spec fn has_minus(t: Seq<char>) -> bool {
    t.len() > 0 && t[0] == '-'
}

/// The digits of a number's text: what follows a leading `-`.
pub open spec fn number_digits(t: Seq<char>) -> Seq<char> {
    if has_minus(t) { t.subrange(1, t.len() as int) } else { t }
}

/// The integer a number's text stands for, when it is an optional `-`
/// followed by one to twenty decimal digits.
pub open spec fn decimal_integer(t: Seq<char>) -> Option<int> {
    let ds = number_digits(t);
    if 1 <= ds.len() <= 20 && forall|i: int| 0 <= i < ds.len() ==> is_digit(#[trigger] number_digits(t)[i]) {
        Some(if has_minus(t) { -(digits_value(ds) as int) } else { digits_value(ds) as int })
    } else {
        None
    }
}

/// Reads an integer from a number's text (see `decimal_integer`).
pub fn parse_decimal_integer(t: &str) -> (r: Option<i128>)
    ensures
        match r {
            Some(v) => decimal_integer(t@) == Some(v as int),
            None => decimal_integer(t@) is None,
        },
{
    let n = t.unicode_len();
    let neg = n > 0 && t.get_char(0) == '-';
    let start: usize = if neg { 1 } else { 0 };
    let ghost ds = number_digits(t@);
    assert(ds =~= t@.subrange(start as int, n as int));
    if n - start < 1 || n - start > 20 {
        return None;
    }
    let mut acc: u128 = 0;
    let mut i: usize = start;
    assert(ds.subrange(0, 0) =~= Seq::<char>::empty());
    while i < n
        invariant
            start <= i <= n,
            n == t@.len(),
            n - start <= 20,
            ds == t@.subrange(start as int, n as int),
            neg == has_minus(t@),
            ds == number_digits(t@),
            forall|j: int| 0 <= j < i - start ==> is_digit(#[trigger] number_digits(t@)[j]),
            acc == digits_value(ds.subrange(0, i - start)),
            acc < pow10((i - start) as nat),
        decreases n - i,
    {
        let c = t.get_char(i);
        assert(c == ds[i - start]);
        if !('0' <= c && c <= '9') {
            proof {
                let k = i - start;
                assert(!is_digit(number_digits(t@)[k]));
            }
            return None;
        }
        proof {
            lemma_pow10_monotone((i - start) as nat, 19);
            assert(pow10(19) == 10000000000000000000) by { reveal_with_fuel(pow10, 20); }
        }
        let d: u128 = (c as u32 - '0' as u32) as u128;
        let ghost prev = ds.subrange(0, i - start);
        acc = acc * 10 + d;
        assert(ds.subrange(0, i + 1 - start).drop_last() =~= prev);
        i = i + 1;
    }
    assert(ds.subrange(0, n - start) =~= ds);
    proof {
        lemma_pow10_monotone((n - start) as nat, 20);
        assert(pow10(20) == 100000000000000000000) by { reveal_with_fuel(pow10, 21); }
    }
    let v = acc as i128;
    if neg { Some(-v) } else { Some(v) }
}

/// The decimal digit for `d` (0 to 9).
pub open spec fn digit_char(d: nat) -> char {
    if d == 0 { '0' } else if d == 1 { '1' } else if d == 2 { '2' } else if d == 3 { '3' }
    else if d == 4 { '4' } else if d == 5 { '5' } else if d == 6 { '6' } else if d == 7 { '7' }
    else if d == 8 { '8' } else { '9' }
}

/// The decimal text of `n`, without leading zeros.
pub open spec fn spec_decimal(n: nat) -> Seq<char>
    decreases n,
{
    if n < 10 {
        seq![digit_char(n)]
    } else {
        spec_decimal(n / 10) + seq![digit_char(n % 10)]
    }
}

/// The decimal digit for `d`.
fn digit(d: u128) -> (c: char)
    requires
        d < 10,
    ensures
        c == digit_char(d as nat),
{
    if d == 0 { '0' } else if d == 1 { '1' } else if d == 2 { '2' } else if d == 3 { '3' }
    else if d == 4 { '4' } else if d == 5 { '5' } else if d == 6 { '6' } else if d == 7 { '7' }
    else if d == 8 { '8' } else { '9' }
}

/// The decimal text of `n`.
pub fn decimal(n: u128) -> (r: String)
    ensures
        r@ == spec_decimal(n as nat),
    decreases n,
{
    if n < 10 {
        let mut s = String::new();
        push_char(&mut s, digit(n));
        assert(s@ =~= seq![digit_char(n as nat)]);
        s
    } else {
        let mut s = decimal(n / 10);
        push_char(&mut s, digit(n % 10));
        s
    }
}

/// The decimal text of a signed integer.
pub open spec fn spec_signed_decimal(i: int) -> Seq<char> {
    if i < 0 {
        "-"@ + spec_decimal((-i) as nat)
    } else {
        spec_decimal(i as nat)
    }
}

/// The decimal text of a signed integer.
pub fn signed_decimal(i: i128) -> (r: String)
    ensures
        r@ == spec_signed_decimal(i as int),
{
    if i < 0 {
        let u: u128 = ((-(i + 1)) as u128) + 1;
        let mut s = to_owned_string("-");
        let d = decimal(u);
        s.append(d.as_str());
        proof { reveal_strlit("-"); }
        s
    } else {
        decimal(i as u128)
    }
}

/// Whether `a` sorts before `b`, comparing characters in order (the order of
/// `String`'s `Ord`: UTF-8 bytes compare as their characters do).
pub open spec fn lex_lt(a: Seq<char>, b: Seq<char>) -> bool
    decreases a.len(),
{
    if b.len() == 0 {
        false
    } else if a.len() == 0 {
        true
    } else if a[0] != b[0] {
        (a[0] as u32) < (b[0] as u32)
    } else {
        lex_lt(a.drop_first(), b.drop_first())
    }
}

/// The order is transitive.
pub proof fn lemma_lex_lt_transitive(a: Seq<char>, b: Seq<char>, c: Seq<char>)
    requires
        lex_lt(a, b),
        lex_lt(b, c),
    ensures
        lex_lt(a, c),
    decreases a.len(),
{
    if a.len() > 0 && b.len() > 0 && c.len() > 0 && a[0] == b[0] && b[0] == c[0] {
        lemma_lex_lt_transitive(a.drop_first(), b.drop_first(), c.drop_first());
    }
}

/// Nothing sorts before itself.
pub proof fn lemma_lex_lt_irreflexive(a: Seq<char>)
    ensures
        !lex_lt(a, a),
    decreases a.len(),
{
    if a.len() > 0 {
        lemma_lex_lt_irreflexive(a.drop_first());
    }
}

/// Whether `a` sorts before `b`.
pub fn str_lt(a: &str, b: &str) -> (r: bool)
    ensures
        r == lex_lt(a@, b@),
{
    let n = a.unicode_len();
    let m = b.unicode_len();
    let mut i: usize = 0;
    assert(a@.subrange(0, n as int) =~= a@);
    assert(b@.subrange(0, m as int) =~= b@);
    while i < n && i < m
        invariant
            n == a@.len(),
            m == b@.len(),
            i <= n,
            i <= m,
            lex_lt(a@.subrange(i as int, n as int), b@.subrange(i as int, m as int)) == lex_lt(a@, b@),
        decreases n - i,
    {
        let x = a.get_char(i);
        let y = b.get_char(i);
        proof {
            let sa = a@.subrange(i as int, n as int);
            let sb = b@.subrange(i as int, m as int);
            assert(sa[0] == x && sb[0] == y);
            assert(sa.drop_first() =~= a@.subrange(i + 1, n as int));
            assert(sb.drop_first() =~= b@.subrange(i + 1, m as int));
        }
        if x != y {
            return (x as u32) < (y as u32);
        }
        i = i + 1;
    }
    proof {
        assert(a@.subrange(i as int, n as int).len() == n - i);
        assert(b@.subrange(i as int, m as int).len() == m - i);
    }
    i == n && i < m
}

/// The strings are in order.
pub open spec fn sorted_strs(s: Seq<Seq<char>>) -> bool {
    forall|i: int, j: int| 0 <= i < j < s.len() ==> !lex_lt(#[trigger] s[j], #[trigger] s[i])
}

/// The strings in order (equal ones keep their order).
pub fn sort_strings(v: &Vec<String>) -> (r: Vec<String>)
    ensures
        sorted_strs(strs_view(r@)),
        strs_view(r@).to_multiset() == strs_view(v@).to_multiset(),
{
    let mut out: Vec<String> = Vec::new();
    let n = v.len();
    let mut i: usize = 0;
    assert(strs_view(out@) =~= strs_view(v@.subrange(0, 0)));
    while i < n
        invariant
            n == v@.len(),
            i <= n,
            sorted_strs(strs_view(out@)),
            strs_view(out@).to_multiset() == strs_view(v@.subrange(0, i as int)).to_multiset(),
        decreases n - i,
    {
        let x = v[i].as_str();
        let ghost so = strs_view(out@);
        let m = out.len();
        let mut p: usize = 0;
        while p < m && !str_lt(x, out[p].as_str())
            invariant
                m == out@.len(),
                so == strs_view(out@),
                p <= m,
                forall|j: int| 0 <= j < p ==> !lex_lt(x@, #[trigger] so[j]),
            decreases m - p,
        {
            p = p + 1;
        }
        out.insert(p, to_owned_string(x));
        proof {
            let sn = strs_view(out@);
            assert(sn =~= so.insert(p as int, x@));
            assert forall|a: int, b: int| 0 <= a < b < sn.len() implies !lex_lt(#[trigger] sn[b], #[trigger] sn[a]) by {
                if b < p {
                    assert(sn[a] == so[a] && sn[b] == so[b]);
                } else if a < p && b == p {
                    assert(sn[a] == so[a]);
                } else if a < p && b > p {
                    assert(sn[a] == so[a] && sn[b] == so[b - 1]);
                } else if a == p {
                    assert(sn[b] == so[b - 1]);
                    if lex_lt(sn[b], x@) {
                        assert(p < m);
                        assert(lex_lt(x@, so[p as int]));
                        lemma_lex_lt_transitive(so[b - 1], x@, so[p as int]);
                        if b - 1 > p {
                            assert(!lex_lt(so[b - 1], so[p as int]));
                        } else {
                            lemma_lex_lt_irreflexive(so[p as int]);
                        }
                    }
                } else {
                    assert(sn[a] == so[a - 1] && sn[b] == so[b - 1]);
                }
            }
            let sub = strs_view(v@.subrange(0, i + 1));
            assert(sub =~= strs_view(v@.subrange(0, i as int)).push(x@));
            vstd::seq_lib::to_multiset_insert(so, p as int, x@);
            vstd::seq_lib::to_multiset_build(strs_view(v@.subrange(0, i as int)), x@);
        }
        i = i + 1;
    }
    assert(v@.subrange(0, n as int) =~= v@);
    out
}

} // verus!
