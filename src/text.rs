use vstd::prelude::*;

verus! {

/// The character with ASCII upper-case letters mapped to lower case; every
/// other character is kept.
pub open spec fn ascii_lower(c: char) -> char {
    if 'A' <= c && c <= 'Z' {
        (((c as u8) + 32) as u8) as char
    } else {
        c
    }
}

/// The string with ASCII letters folded to lower case.
pub open spec fn ascii_folded(s: Seq<char>) -> Seq<char> {
    s.map_values(|c: char| ascii_lower(c))
}

/// `needle` occurs in `hay` when ASCII letters are compared without regard
/// to case; every other character, `%`, `_` and quotes included, must match
/// exactly.
pub open spec fn contains_ignoring_ascii_case(hay: Seq<char>, needle: Seq<char>) -> bool {
    contains_substring(ascii_folded(hay), ascii_folded(needle))
}

/// `needle` occurs in `hay` at position `k`.
pub open spec fn occurs_at(needle: Seq<char>, hay: Seq<char>, k: int) -> bool {
    0 <= k && k + needle.len() <= hay.len() && hay.subrange(k, k + needle.len()) == needle
}

/// `needle` is a contiguous substring of `hay` (the empty string is one of every string).
pub open spec fn contains_substring(hay: Seq<char>, needle: Seq<char>) -> bool {
    exists|k: int| occurs_at(needle, hay, k)
}

/// The character with ASCII upper-case letters mapped to lower case.
fn lower_char(c: char) -> (r: char)
    ensures
        r == ascii_lower(c),
{
    if 'A' <= c && c <= 'Z' {
        ((c as u8) + 32) as char
    } else {
        c
    }
}

/// Whether `needle` occurs at position `k` of `hay`, compared character by
/// character with ASCII letters folded.
fn matches_at(hay: &str, needle: &str, k: usize) -> (r: bool)
    requires
        k + needle@.len() <= hay@.len(),
        hay@.len() <= usize::MAX,
    ensures
        r == occurs_at(ascii_folded(needle@), ascii_folded(hay@), k as int),
{
    let n = needle.unicode_len();
    let mut j: usize = 0;
    while j < n
        invariant
            n == needle@.len(),
            k + n <= hay@.len(),
            hay@.len() <= usize::MAX,
            j <= n,
            forall|t: int| 0 <= t < j ==> ascii_lower(hay@[k + t]) == ascii_lower(needle@[t]),
        decreases n - j,
    {
        if lower_char(hay.get_char(k + j)) != lower_char(needle.get_char(j)) {
            assert(ascii_folded(hay@).subrange(k as int, k + n)[j as int] != ascii_folded(
                needle@,
            )[j as int]);
            return false;
        }
        j = j + 1;
    }
    assert(ascii_folded(hay@).subrange(k as int, k + n) =~= ascii_folded(needle@));
    true
}

/// Whether `needle` occurs anywhere in `hay`, ASCII letters compared
/// without regard to case.
pub fn contains_text(hay: &str, needle: &str) -> (r: bool)
    ensures
        r == contains_ignoring_ascii_case(hay@, needle@),
{
    let ghost fh = ascii_folded(hay@);
    let ghost fn_ = ascii_folded(needle@);
    let h = hay.unicode_len();
    let n = needle.unicode_len();
    if n == 0 {
        assert(fh.subrange(0, 0) =~= fn_);
        assert(occurs_at(fn_, fh, 0));
        return true;
    }
    if n > h {
        assert forall|k: int| !occurs_at(fn_, fh, k) by {}
        return false;
    }
    let mut k: usize = 0;
    while k <= h - n
        invariant
            h == hay@.len(),
            n == needle@.len(),
            1 <= n <= h,
            k <= h - n + 1,
            fh == ascii_folded(hay@),
            fn_ == ascii_folded(needle@),
            forall|t: int| 0 <= t < k ==> !occurs_at(fn_, fh, t),
        decreases h - n + 1 - k,
    {
        if matches_at(hay, needle, k) {
            return true;
        }
        k = k + 1;
    }
    assert forall|t: int| !occurs_at(fn_, fh, t) by {
        if 0 <= t && t < k {
        }
    }
    false
}

} // verus!
