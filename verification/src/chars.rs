//! Character-level helpers for header names and values.
//!
//! Header names are compared case-insensitively; header values keep their
//! original casing. Only the ASCII letters take part in case folding, which
//! is what HTTP header syntax calls for.

use vstd::prelude::*;

verus! {

/// ASCII lower-casing of a single character: 'A'..'Z' map to 'a'..'z',
/// everything else is unchanged.
pub open spec fn lower_char(c: char) -> char {
    if 65 <= c as u32 && c as u32 <= 90 {
        (c as u32 + 32) as char
    } else {
        c
    }
}

/// ASCII lower-casing of a whole string.
pub open spec fn lower(s: Seq<char>) -> Seq<char> {
    s.map_values(|c: char| lower_char(c))
}

/// Case-insensitive (ASCII) string equality.
pub open spec fn eq_ignore_case(a: Seq<char>, b: Seq<char>) -> bool {
    lower(a) == lower(b)
}

/// `sub` occurs contiguously somewhere in `s`.
pub open spec fn contains_seq(s: Seq<char>, sub: Seq<char>) -> bool {
    exists|i: int|
        0 <= i <= s.len() - sub.len() && #[trigger] s.subrange(i, i + sub.len() as int) == sub
}

/// The whitespace characters that can surround a header value.
pub open spec fn is_space(c: char) -> bool {
    c == ' ' || c == '\t' || c == '\r' || c == '\n'
}

/// A string with leading whitespace removed.
pub open spec fn trim_front(s: Seq<char>) -> Seq<char>
    decreases s.len(),
{
    if s.len() > 0 && is_space(s[0]) {
        trim_front(s.drop_first())
    } else {
        s
    }
}

/// A string with trailing whitespace removed.
pub open spec fn trim_back(s: Seq<char>) -> Seq<char>
    decreases s.len(),
{
    if s.len() > 0 && is_space(s.last()) {
        trim_back(s.drop_last())
    } else {
        s
    }
}

/// A string with surrounding whitespace removed.
pub open spec fn trim(s: Seq<char>) -> Seq<char> {
    trim_back(trim_front(s))
}

/// The values joined with the separator between neighbours:
/// `[a, b, c]` becomes `a sep b sep c`.
pub open spec fn joined(vs: Seq<Seq<char>>, sep: Seq<char>) -> Seq<char>
    decreases vs.len(),
{
    if vs.len() == 0 {
        Seq::empty()
    } else if vs.len() == 1 {
        vs[0]
    } else {
        joined(vs.drop_last(), sep) + sep + vs.last()
    }
}

/// Strings of different lengths are never equal, even ignoring case.
pub proof fn lemma_eq_ignore_case_len(a: Seq<char>, b: Seq<char>)
    ensures
        a.len() != b.len() ==> !eq_ignore_case(a, b),
{
    assert(lower(a).len() == a.len());
    assert(lower(b).len() == b.len());
}

/// Removing leading whitespace is removing everything up to the first
/// non-space position.
proof fn lemma_trim_front_exact(s: Seq<char>, a: int)
    requires
        0 <= a <= s.len(),
        forall|k: int| 0 <= k < a ==> is_space(s[k]),
        a < s.len() ==> !is_space(s[a]),
    ensures
        trim_front(s) == s.skip(a),
    decreases a,
{
    if a == 0 {
        assert(s.skip(0) =~= s);
    } else {
        lemma_trim_front_exact(s.drop_first(), a - 1);
        assert(s.drop_first().skip(a - 1) =~= s.skip(a));
    }
}

/// Removing trailing whitespace is keeping everything before the last
/// non-space position.
proof fn lemma_trim_back_exact(s: Seq<char>, b: int)
    requires
        0 <= b <= s.len(),
        forall|k: int| b <= k < s.len() ==> is_space(s[k]),
        b > 0 ==> !is_space(s[b - 1]),
    ensures
        trim_back(s) == s.take(b),
    decreases s.len(),
{
    if b < s.len() {
        assert(is_space(s.last()));
        lemma_trim_back_exact(s.drop_last(), b);
        assert(s.drop_last().take(b) =~= s.take(b));
    } else {
        assert(s.take(b) =~= s);
    }
}

/// Executable test for the whitespace that can surround a header value.
pub fn is_space_exec(c: char) -> (r: bool)
    ensures
        r == is_space(c),
{
    c == ' ' || c == '\t' || c == '\r' || c == '\n'
}

/// A copy of the string with surrounding whitespace removed.
pub fn trim_str(s: &str) -> (r: String)
    ensures
        r@ == trim(s@),
{
    let n = s.unicode_len();
    let mut a: usize = 0;
    while a < n && is_space_exec(s.get_char(a))
        invariant
            n == s@.len(),
            0 <= a <= n,
            forall|k: int| 0 <= k < a ==> is_space(s@[k]),
        decreases n - a,
    {
        a += 1;
    }
    let mut b: usize = n;
    while b > a && is_space_exec(s.get_char(b - 1))
        invariant
            n == s@.len(),
            a <= b <= n,
            forall|k: int| b <= k < n ==> is_space(s@[k]),
        decreases b,
    {
        b -= 1;
    }
    proof {
        lemma_trim_front_exact(s@, a as int);
        let t = s@.skip(a as int);
        assert forall|k: int| b - a <= k < t.len() implies is_space(t[k]) by {
            assert(t[k] == s@[k + a]);
        }
        if b > a {
            assert(t[b - a - 1] == s@[b - 1]);
        }
        lemma_trim_back_exact(t, b - a);
        assert(t.take(b - a) =~= s@.subrange(a as int, b as int));
    }
    s.substring_char(a, b).to_owned()
}

/// The values joined with the separator between neighbours, executable
/// form.
pub fn join_with(vals: &Vec<String>, sep: &str) -> (r: String)
    ensures
        r@ == joined(vals@.map_values(|v: String| v@), sep@),
{
    let ghost vs = vals@.map_values(|v: String| v@);
    let n = vals.len();
    let mut r = String::new();
    let mut i: usize = 0;
    while i < n
        invariant
            n == vals@.len(),
            vs == vals@.map_values(|v: String| v@),
            0 <= i <= n,
            r@ == joined(vs.take(i as int), sep@),
        decreases n - i,
    {
        if i > 0 {
            r.append(sep);
        }
        r.append(vals[i].as_str());
        proof {
            assert(vs.take(i + 1).drop_last() =~= vs.take(i as int));
            assert(vs.take(i + 1).last() == vs[i as int]);
            assert(vs[i as int] == vals@[i as int]@);
            if i == 0 {
                assert(Seq::<char>::empty() + vs[0] =~= vs[0]);
            }
        }
        i += 1;
    }
    proof {
        assert(vs.take(n as int) =~= vs);
    }
    r
}

/// Executable ASCII lower-casing of one character.
pub fn lower_char_exec(c: char) -> (r: char)
    ensures
        r == lower_char(c),
{
    let u = c as u32;
    if 65 <= u && u <= 90 {
        ((u + 32) as u8) as char
    } else {
        c
    }
}

/// Exact string equality, stated over the views.
pub fn str_eq(a: &str, b: &str) -> (r: bool)
    ensures
        r == (a@ == b@),
{
    let n = a.unicode_len();
    if n != b.unicode_len() {
        return false;
    }
    let mut i: usize = 0;
    while i < n
        invariant
            n == a@.len(),
            n == b@.len(),
            0 <= i <= n,
            forall|k: int| 0 <= k < i ==> a@[k] == b@[k],
        decreases n - i,
    {
        if a.get_char(i) != b.get_char(i) {
            return false;
        }
        i += 1;
    }
    proof {
        assert(a@ =~= b@);
    }
    true
}

/// Case-insensitive (ASCII) string equality, executable form.
pub fn str_eq_ignore_case(a: &str, b: &str) -> (r: bool)
    ensures
        r == eq_ignore_case(a@, b@),
{
    let n = a.unicode_len();
    if n != b.unicode_len() {
        proof {
            assert(lower(a@).len() == a@.len());
            assert(lower(b@).len() == b@.len());
        }
        return false;
    }
    let mut i: usize = 0;
    while i < n
        invariant
            n == a@.len(),
            n == b@.len(),
            0 <= i <= n,
            forall|k: int| 0 <= k < i ==> lower_char(a@[k]) == lower_char(b@[k]),
        decreases n - i,
    {
        if lower_char_exec(a.get_char(i)) != lower_char_exec(b.get_char(i)) {
            proof {
                assert(lower(a@)[i as int] == lower_char(a@[i as int]));
                assert(lower(b@)[i as int] == lower_char(b@[i as int]));
            }
            return false;
        }
        i += 1;
    }
    proof {
        assert(lower(a@) =~= lower(b@));
    }
    true
}

/// Whether the ASCII-lowered form of `s` matches `needle` exactly at
/// offset `i`.
fn match_at(s: &str, needle: &str, i: usize) -> (r: bool)
    requires
        i + needle@.len() <= s@.len(),
        s@.len() <= usize::MAX,
    ensures
        r == (lower(s@).subrange(i as int, i + needle@.len() as int) == needle@),
{
    let m = needle.unicode_len();
    let mut j: usize = 0;
    while j < m
        invariant
            m == needle@.len(),
            i + m <= s@.len(),
            s@.len() <= usize::MAX,
            0 <= j <= m,
            forall|t: int| 0 <= t < j ==> lower_char(s@[i + t]) == needle@[t],
        decreases m - j,
    {
        if lower_char_exec(s.get_char(i + j)) != needle.get_char(j) {
            proof {
                assert(lower(s@)[i + j] == lower_char(s@[i + j]));
                assert(lower(s@).subrange(i as int, i + m as int)[j as int] == lower(s@)[i + j]);
            }
            return false;
        }
        j += 1;
    }
    proof {
        assert(lower(s@).subrange(i as int, i + m as int) =~= needle@);
    }
    true
}

/// Whether the ASCII-lowered form of `s` contains `needle` as a substring.
/// This matches looking for an already-lowercase word in a header value
/// of arbitrary casing.
pub fn contains_lower(s: &str, needle: &str) -> (r: bool)
    ensures
        r == contains_seq(lower(s@), needle@),
{
    let n = s.unicode_len();
    let m = needle.unicode_len();
    if m > n {
        return false;
    }
    if m == 0 {
        proof {
            assert(lower(s@).len() == s@.len());
            assert(lower(s@).subrange(0, 0 + needle@.len() as int) =~= needle@);
        }
        return true;
    }
    let mut i: usize = 0;
    while i <= n - m
        invariant
            n == s@.len(),
            m == needle@.len(),
            1 <= m <= n,
            0 <= i <= n - m + 1,
            forall|k: int|
                0 <= k < i ==> #[trigger] lower(s@).subrange(k, k + m as int) != needle@,
        decreases n - m + 1 - i,
    {
        if match_at(s, needle, i) {
            return true;
        }
        i += 1;
    }
    false
}

} // verus!
