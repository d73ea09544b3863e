//! Plain text analysis: ASCII lowercasing, substring search, and the content
//! fingerprint that gives utterances their deterministic identity.

use vstd::prelude::*;

verus! {

/// A character lowered: ASCII capitals map to their small forms, everything
/// else is unchanged.
pub open spec fn spec_lower_char(c: char) -> char {
    if 'A' <= c && c <= 'Z' {
        (((c as u8) + 32) as char)
    } else {
        c
    }
}

/// A text lowered character by character.
pub open spec fn spec_lower(s: Seq<char>) -> Seq<char> {
    Seq::new(s.len(), |i: int| spec_lower_char(s[i]))
}

/// Whether `needle` occurs contiguously in `hay`.
pub open spec fn spec_contains_seq(hay: Seq<char>, needle: Seq<char>) -> bool {
    exists|k: int|
        0 <= k && k + needle.len() <= hay.len() && #[trigger] hay.subrange(k, k + needle.len())
            == needle
}

/// Whether `hay` starts with `needle`.
pub open spec fn spec_starts_with(hay: Seq<char>, needle: Seq<char>) -> bool {
    needle.len() <= hay.len() && hay.subrange(0, needle.len() as int) == needle
}

/// The polynomial fold that fingerprints one more character onto a hash.
pub open spec fn spec_fp_step(h: u64, c: char) -> u64 {
    ((((h ^ (c as u64)) as nat) * 0x100000001b3) % 0x1_0000_0000_0000_0000) as u64
}

/// The fingerprint of a text: a fold of `spec_fp_step` over its characters,
/// from a fixed seed. A pure function of the characters alone.
pub open spec fn spec_fingerprint_from(h: u64, s: Seq<char>) -> u64
    decreases s.len(),
{
    if s.len() == 0 {
        h
    } else {
        spec_fingerprint_from(spec_fp_step(h, s[0]), s.drop_first())
    }
}

/// The fingerprint of a text.
pub open spec fn spec_fingerprint(s: Seq<char>) -> u64 {
    spec_fingerprint_from(0xcbf29ce484222325u64, s)
}

/// Lower one character.
pub fn lower_char(c: char) -> (r: char)
    ensures
        r == spec_lower_char(c),
{
    if c >= 'A' && c <= 'Z' {
        ((c as u8) + 32) as char
    } else {
        c
    }
}

/// The lowered characters of a text.
pub fn lower_chars(s: &str) -> (r: Vec<char>)
    ensures
        r@ == spec_lower(s@),
{
    let n: usize = s.unicode_len();
    let mut r: Vec<char> = Vec::new();
    let mut i: usize = 0;
    while i < n
        invariant
            i <= n,
            n == s@.len(),
            r@.len() == i,
            forall|j: int| 0 <= j < i ==> r@[j] == spec_lower_char(s@[j]),
        decreases n - i,
    {
        r.push(lower_char(s.get_char(i)));
        i = i + 1;
    }
    proof {
        assert(r@ =~= spec_lower(s@));
    }
    r
}

/// The characters of a text, unchanged.
pub fn chars_of(s: &str) -> (r: Vec<char>)
    ensures
        r@ == s@,
{
    let n: usize = s.unicode_len();
    let mut r: Vec<char> = Vec::new();
    let mut i: usize = 0;
    while i < n
        invariant
            i <= n,
            n == s@.len(),
            r@.len() == i,
            forall|j: int| 0 <= j < i ==> r@[j] == s@[j],
        decreases n - i,
    {
        r.push(s.get_char(i));
        i = i + 1;
    }
    proof {
        assert(r@ =~= s@);
    }
    r
}

/// Whether `hay` holds `needle` starting at position `k`.
fn matches_at(hay: &Vec<char>, needle: &Vec<char>, k: usize) -> (r: bool)
    requires
        k + needle@.len() <= hay@.len(),
    ensures
        r == (hay@.subrange(k as int, k + needle@.len()) == needle@),
{
    let m: usize = needle.len();
    let hl: usize = hay.len();
    let mut j: usize = 0;
    while j < m
        invariant
            j <= m,
            m == needle@.len(),
            hl == hay@.len(),
            k + m <= hl,
            forall|t: int| 0 <= t < j ==> hay@[k + t] == needle@[t],
        decreases m - j,
    {
        if hay[k + j] != needle[j] {
            proof {
                assert(hay@.subrange(k as int, k + needle@.len())[j as int] != needle@[j as int]);
            }
            return false;
        }
        j = j + 1;
    }
    proof {
        assert(hay@.subrange(k as int, k + needle@.len()) =~= needle@);
    }
    true
}

/// Whether `needle` occurs contiguously in `hay`.
pub fn contains_seq(hay: &Vec<char>, needle: &Vec<char>) -> (r: bool)
    ensures
        r == spec_contains_seq(hay@, needle@),
{
    let n: usize = hay.len();
    let m: usize = needle.len();
    if m > n {
        return false;
    }
    if m == 0 {
        proof {
            assert(hay@.subrange(0, 0 + needle@.len() as int) =~= needle@);
        }
        return true;
    }
    let mut k: usize = 0;
    while k <= n - m
        invariant
            0 < m <= n,
            n == hay@.len(),
            m == needle@.len(),
            k <= n - m + 1,
            forall|t: int|
                0 <= t < k ==> #[trigger] hay@.subrange(t, t + needle@.len()) != needle@,
        decreases n - k,
    {
        if matches_at(hay, needle, k) {
            return true;
        }
        k = k + 1;
    }
    false
}

/// Whether `hay` starts with `needle`.
pub fn starts_with(hay: &Vec<char>, needle: &Vec<char>) -> (r: bool)
    ensures
        r == spec_starts_with(hay@, needle@),
{
    let m: usize = needle.len();
    if m > hay.len() {
        return false;
    }
    matches_at(hay, needle, 0)
}

/// Whether a character is ASCII whitespace.
pub open spec fn spec_is_ws(c: char) -> bool {
    c == ' ' || c == '\t' || c == '\n' || c == '\r'
}

/// A text with leading whitespace removed.
pub open spec fn spec_trim_front(s: Seq<char>) -> Seq<char>
    decreases s.len(),
{
    if s.len() > 0 && spec_is_ws(s[0]) {
        spec_trim_front(s.drop_first())
    } else {
        s
    }
}

/// A text with trailing whitespace removed.
pub open spec fn spec_trim_back(s: Seq<char>) -> Seq<char>
    decreases s.len(),
{
    if s.len() > 0 && spec_is_ws(s.last()) {
        spec_trim_back(s.drop_last())
    } else {
        s
    }
}

/// A text with surrounding whitespace removed.
pub open spec fn spec_trim(s: Seq<char>) -> Seq<char> {
    spec_trim_back(spec_trim_front(s))
}

fn is_ws(c: char) -> (r: bool)
    ensures
        r == spec_is_ws(c),
{
    c == ' ' || c == '\t' || c == '\n' || c == '\r'
}

/// The trimmed region of a text: the bounds that cut its surrounding
/// whitespace.
pub fn trim_range(v: &Vec<char>) -> (r: (usize, usize))
    ensures
        r.0 <= r.1 <= v@.len(),
        v@.subrange(r.0 as int, r.1 as int) == spec_trim(v@),
{
    let n: usize = v.len();
    let mut start: usize = 0;
    proof {
        assert(v@.subrange(0, n as int) =~= v@);
    }
    while start < n && is_ws(v[start])
        invariant
            start <= n,
            n == v@.len(),
            spec_trim_front(v@.subrange(start as int, n as int)) == spec_trim_front(v@),
        decreases n - start,
    {
        proof {
            assert(v@.subrange(start as int, n as int).drop_first() =~= v@.subrange(
                start + 1,
                n as int,
            ));
        }
        start = start + 1;
    }
    proof {
        assert(v@.subrange(0, n as int) =~= v@);
        if start < n {
            assert(!spec_is_ws(v@.subrange(start as int, n as int)[0]));
        }
        assert(spec_trim_front(v@.subrange(start as int, n as int)) == v@.subrange(
            start as int,
            n as int,
        ));
    }
    let mut end: usize = n;
    while end > start && is_ws(v[end - 1])
        invariant
            start <= end <= n,
            n == v@.len(),
            v@.subrange(start as int, n as int) == spec_trim_front(v@),
            spec_trim_back(v@.subrange(start as int, end as int)) == spec_trim_back(
                spec_trim_front(v@),
            ),
        decreases end,
    {
        proof {
            assert(v@.subrange(start as int, end as int).drop_last() =~= v@.subrange(
                start as int,
                end - 1,
            ));
            assert(v@.subrange(start as int, end as int).last() == v@[end - 1]);
        }
        end = end - 1;
    }
    proof {
        if end > start {
            assert(v@.subrange(start as int, end as int).last() == v@[end - 1]);
            assert(!spec_is_ws(v@.subrange(start as int, end as int).last()));
        }
        assert(spec_trim_back(v@.subrange(start as int, end as int)) == v@.subrange(
            start as int,
            end as int,
        ));
    }
    (start, end)
}

/// Whether the trimmed text equals the needle exactly.
pub fn trimmed_equals(v: &Vec<char>, needle: &Vec<char>) -> (r: bool)
    ensures
        r == (spec_trim(v@) == needle@),
{
    let (start, end) = trim_range(v);
    let m: usize = needle.len();
    if end - start != m {
        proof {
            assert(spec_trim(v@).len() != needle@.len());
        }
        return false;
    }
    let mut j: usize = 0;
    while j < m
        invariant
            j <= m,
            m == needle@.len(),
            start <= end <= v@.len(),
            end - start == m,
            v@.subrange(start as int, end as int) == spec_trim(v@),
            forall|t: int| 0 <= t < j ==> v@[start + t] == needle@[t],
        decreases m - j,
    {
        if v[start + j] != needle[j] {
            proof {
                assert(spec_trim(v@)[j as int] != needle@[j as int]);
            }
            return false;
        }
        j = j + 1;
    }
    proof {
        assert(spec_trim(v@) =~= needle@);
    }
    true
}

/// The fingerprint of a text: a pure, deterministic function of its
/// characters, used to give equal utterances equal identities across runs.
pub fn fingerprint(s: &str) -> (r: u64)
    ensures
        r == spec_fingerprint(s@),
{
    let n: usize = s.unicode_len();
    let mut h: u64 = 0xcbf29ce484222325;
    let mut i: usize = 0;
    proof {
        assert(s@.subrange(0, n as int) =~= s@);
    }
    while i < n
        invariant
            i <= n,
            n == s@.len(),
            spec_fingerprint_from(h, s@.subrange(i as int, n as int)) == spec_fingerprint(s@),
        decreases n - i,
    {
        let ghost rest = s@.subrange(i as int, n as int);
        let c = s.get_char(i);
        h = (h ^ (c as u64)).wrapping_mul(0x100000001b3);
        proof {
            assert(rest[0] == s@[i as int]);
            assert(rest.drop_first() =~= s@.subrange(i + 1, n as int));
        }
        i = i + 1;
    }
    proof {
        assert(s@.subrange(0, n as int) =~= s@);
        assert(s@.subrange(n as int, n as int) =~= Seq::<char>::empty());
    }
    h
}

} // verus!
