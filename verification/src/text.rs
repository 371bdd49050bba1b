//! Character-level scanning primitives: substring search, ASCII case folding,
//! and first/last occurrences of a character. Everything here is stated over
//! `Seq<char>`, the view of `&str` and `String`.

use vstd::prelude::*;
use vstd::string::StrSliceExecFns;

verus! {

/// `needle` occurs in `hay` starting at index `i`.
pub open spec fn occurs_at(hay: Seq<char>, needle: Seq<char>, i: int) -> bool {
    0 <= i && i + needle.len() <= hay.len() && hay.subrange(i, i + needle.len()) == needle
}

/// `needle` occurs somewhere in `hay` (the empty needle occurs everywhere).
pub open spec fn contains_seq(hay: Seq<char>, needle: Seq<char>) -> bool {
    exists|i: int| occurs_at(hay, needle, i)
}

/// ASCII lower-casing of one character; other characters are unchanged.
pub open spec fn lower_char(c: char) -> char {
    if 'A' <= c && c <= 'Z' {
        (((c as u8) + 32) as char)
    } else {
        c
    }
}

/// ASCII lower-casing of a whole sequence.
pub open spec fn lower_seq(s: Seq<char>) -> Seq<char> {
    s.map_values(|c: char| lower_char(c))
}

/// The characters of `s`, as a vector with constant-time indexing.
pub fn chars_of(s: &str) -> (r: Vec<char>)
    ensures
        r@ == s@,
{
    let n = s.unicode_len();
    let mut r: Vec<char> = Vec::new();
    let mut i: usize = 0;
    while i < n
        invariant
            i <= n,
            n == s@.len(),
            r@ == s@.subrange(0, i as int),
        decreases n - i,
    {
        r.push(s.get_char(i));
        proof {
            assert(r@ =~= s@.subrange(0, i + 1));
        }
        i += 1;
    }
    proof {
        assert(r@ =~= s@);
    }
    r
}

/// Whether `needle` occurs in `hay` at index `i`; total in `i`.
pub fn occurs_at_exec(hay: &Vec<char>, needle: &Vec<char>, i: usize) -> (r: bool)
    ensures
        r == occurs_at(hay@, needle@, i as int),
{
    if i > hay.len() || needle.len() > hay.len() - i {
        return false;
    }
    let hlen = hay.len();
    let mut k: usize = 0;
    while k < needle.len()
        invariant
            k <= needle@.len(),
            hlen == hay@.len(),
            i + needle@.len() <= hlen,
            forall|m: int| 0 <= m < k ==> hay@[i + m] == needle@[m],
        decreases needle@.len() - k,
    {
        if hay[i + k] != needle[k] {
            proof {
                assert(hay@.subrange(i as int, i + needle@.len()) == needle@ ==> hay@.subrange(
                    i as int,
                    i + needle@.len(),
                )[k as int] == needle@[k as int]);
            }
            return false;
        }
        k += 1;
    }
    proof {
        assert(hay@.subrange(i as int, i + needle@.len()) =~= needle@);
    }
    true
}

/// Substring search over character vectors.
pub fn contains_chars(hay: &Vec<char>, needle: &Vec<char>) -> (r: bool)
    ensures
        r == contains_seq(hay@, needle@),
{
    if needle.len() > hay.len() {
        proof {
            assert(forall|i: int| !occurs_at(hay@, needle@, i));
        }
        return false;
    }
    if needle.len() == 0 {
        proof {
            assert(hay@.subrange(0, 0) =~= needle@);
            assert(occurs_at(hay@, needle@, 0));
        }
        return true;
    }
    let bound = hay.len() - needle.len();
    let mut i: usize = 0;
    while i <= bound
        invariant
            bound == hay@.len() - needle@.len(),
            bound < usize::MAX,
            i <= bound + 1,
            forall|j: int| 0 <= j < i ==> !occurs_at(hay@, needle@, j),
        decreases bound + 1 - i,
    {
        if occurs_at_exec(hay, needle, i) {
            return true;
        }
        i += 1;
    }
    proof {
        assert(forall|j: int| occurs_at(hay@, needle@, j) ==> 0 <= j < i);
    }
    false
}

/// Substring search over string slices.
pub fn contains_str(hay: &str, needle: &str) -> (r: bool)
    ensures
        r == contains_seq(hay@, needle@),
{
    let h = chars_of(hay);
    let n = chars_of(needle);
    contains_chars(&h, &n)
}

/// ASCII lower-casing of a character vector.
pub fn lower_ascii(v: &Vec<char>) -> (r: Vec<char>)
    ensures
        r@ == lower_seq(v@),
{
    let mut r: Vec<char> = Vec::new();
    let mut i: usize = 0;
    while i < v.len()
        invariant
            i <= v@.len(),
            r@.len() == i,
            forall|m: int| 0 <= m < i ==> r@[m] == lower_char(v@[m]),
        decreases v@.len() - i,
    {
        let c = v[i];
        if 'A' <= c && c <= 'Z' {
            r.push(((c as u8) + 32) as char);
        } else {
            r.push(c);
        }
        i += 1;
    }
    proof {
        assert(r@ =~= lower_seq(v@));
    }
    r
}

/// Index of the first occurrence of `c` in `v` at or after `from`.
pub fn first_index_from(v: &Vec<char>, c: char, from: usize) -> (r: Option<usize>)
    ensures
        match r {
            Some(k) => from <= k < v@.len() && v@[k as int] == c && forall|m: int|
                from <= m < k ==> v@[m] != c,
            None => forall|m: int| from <= m < v@.len() ==> v@[m] != c,
        },
{
    let mut i: usize = from;
    while i < v.len()
        invariant
            from <= i,
            forall|m: int| from <= m < i ==> v@[m] != c,
        decreases v@.len() - i,
    {
        if v[i] == c {
            return Some(i);
        }
        i += 1;
    }
    None
}

/// Index of the last occurrence of `c` in `v`.
pub fn last_index_of(v: &Vec<char>, c: char) -> (r: Option<usize>)
    ensures
        match r {
            Some(k) => k < v@.len() && v@[k as int] == c && forall|m: int|
                k < m < v@.len() ==> v@[m] != c,
            None => forall|m: int| 0 <= m < v@.len() ==> v@[m] != c,
        },
{
    let mut i: usize = v.len();
    while i > 0
        invariant
            i <= v@.len(),
            forall|m: int| i <= m < v@.len() ==> v@[m] != c,
        decreases i,
    {
        i -= 1;
        if v[i] == c {
            return Some(i);
        }
    }
    None
}

/// A copy of `v[a..b]`.
pub fn subvec(v: &Vec<char>, a: usize, b: usize) -> (r: Vec<char>)
    requires
        a <= b <= v@.len(),
    ensures
        r@ == v@.subrange(a as int, b as int),
{
    let mut r: Vec<char> = Vec::new();
    let mut i: usize = a;
    while i < b
        invariant
            a <= i <= b <= v@.len(),
            r@ == v@.subrange(a as int, i as int),
        decreases b - i,
    {
        r.push(v[i]);
        proof {
            assert(r@ =~= v@.subrange(a as int, i + 1));
        }
        i += 1;
    }
    r
}

/// Appends one character to a `String`; relies on `String::push`, which the
/// standard library documents as appending the given char to the end.
pub assume_specification[ String::push ](s: &mut String, c: char)
    ensures
        final(s)@ == old(s)@.push(c),
;

/// The string whose characters are `v[a..b]`.
pub fn string_from_range(v: &Vec<char>, a: usize, b: usize) -> (r: String)
    requires
        a <= b <= v@.len(),
    ensures
        r@ == v@.subrange(a as int, b as int),
{
    let mut r = String::new();
    let mut i: usize = a;
    while i < b
        invariant
            a <= i <= b <= v@.len(),
            r@ == v@.subrange(a as int, i as int),
        decreases b - i,
    {
        r.push(v[i]);
        proof {
            assert(r@ =~= v@.subrange(a as int, i + 1));
        }
        i += 1;
    }
    r
}

/// If `c` occurs before `bound`, it has a last occurrence before `bound`.
pub proof fn lemma_last_occurrence_before(s: Seq<char>, c: char, bound: int)
    requires
        0 <= bound <= s.len(),
        exists|i: int| 0 <= i < bound && s[i] == c,
    ensures
        exists|i: int|
            0 <= i < bound && s[i] == c && forall|m: int| i < m < bound ==> s[m] != c,
    decreases bound,
{
    if s[bound - 1] == c {
        assert(0 <= bound - 1 < bound && s[bound - 1] == c && forall|m: int|
            bound - 1 < m < bound ==> s[m] != c);
    } else {
        assert(exists|i: int| 0 <= i < bound - 1 && s[i] == c);
        lemma_last_occurrence_before(s, c, bound - 1);
        let i = choose|i: int|
            0 <= i < bound - 1 && s[i] == c && forall|m: int| i < m < bound - 1 ==> s[m] != c;
        assert(forall|m: int| i < m < bound ==> s[m] != c);
    }
}

/// If `c` occurs at or after `from`, it has a first occurrence there.
pub proof fn lemma_first_occurrence_from(s: Seq<char>, c: char, from: int)
    requires
        0 <= from <= s.len(),
        exists|i: int| from <= i < s.len() && s[i] == c,
    ensures
        exists|i: int|
            from <= i < s.len() && s[i] == c && forall|m: int| from <= m < i ==> s[m] != c,
    decreases s.len() - from,
{
    if s[from] == c {
        assert(from <= from < s.len() && s[from] == c && forall|m: int|
            from <= m < from ==> s[m] != c);
    } else {
        assert(exists|i: int| from + 1 <= i < s.len() && s[i] == c);
        lemma_first_occurrence_from(s, c, from + 1);
        let i = choose|i: int|
            from + 1 <= i < s.len() && s[i] == c && forall|m: int|
                from + 1 <= m < i ==> s[m] != c;
        assert(forall|m: int| from <= m < i ==> s[m] != c);
    }
}

} // verus!
