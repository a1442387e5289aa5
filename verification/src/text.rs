//! Character-level string helpers used by the classification rules.

use vstd::prelude::*;
use vstd::string::StrSliceExecFns;

verus! {

/// ASCII lower-casing of one character; every other character is unchanged.
pub open spec fn ascii_lower_char(c: char) -> char {
    if 65 <= (c as u32) && (c as u32) <= 90 {
        ((c as u32) + 32) as char
    } else {
        c
    }
}

/// ASCII lower-casing of a whole string.
pub open spec fn ascii_lower(s: Seq<char>) -> Seq<char> {
    Seq::new(s.len(), |i: int| ascii_lower_char(s[i]))
}

/// `needle` occurs in `haystack` as a contiguous run of characters.
pub open spec fn occurs_in(haystack: Seq<char>, needle: Seq<char>) -> bool {
    exists|i: int|
        0 <= i && i + needle.len() <= haystack.len() && #[trigger] haystack.subrange(
            i,
            i + needle.len(),
        ) == needle
}

/// Index of the first occurrence of `c` in `s`, if any.
pub open spec fn first_index_of(s: Seq<char>, c: char) -> Option<int>
    decreases s.len(),
{
    if s.len() == 0 {
        None
    } else if s[0] == c {
        Some(0)
    } else {
        match first_index_of(s.drop_first(), c) {
            Some(i) => Some(i + 1),
            None => None,
        }
    }
}

/// Index of the last occurrence of `c` in `s`, if any.
pub open spec fn last_index_of(s: Seq<char>, c: char) -> Option<int>
    decreases s.len(),
{
    if s.len() == 0 {
        None
    } else if s.last() == c {
        Some(s.len() - 1)
    } else {
        last_index_of(s.drop_last(), c)
    }
}

/// The text after the last `c` (all of `s` when `c` does not occur).
pub open spec fn after_last(s: Seq<char>, c: char) -> Seq<char> {
    match last_index_of(s, c) {
        Some(i) => s.subrange(i + 1, s.len() as int),
        None => s,
    }
}

/// The text before the first `c`, when `c` occurs.
pub open spec fn before_first(s: Seq<char>, c: char) -> Option<Seq<char>> {
    match first_index_of(s, c) {
        Some(i) => Some(s.subrange(0, i)),
        None => None,
    }
}

/// `first_index_of` finds the first occurrence of `c`, or tells that none exists.
pub proof fn lemma_first_index_of(s: Seq<char>, c: char)
    ensures
        match first_index_of(s, c) {
            Some(i) => 0 <= i < s.len() && s[i] == c && forall|j: int| 0 <= j < i ==> s[j] != c,
            None => forall|j: int| 0 <= j < s.len() ==> s[j] != c,
        },
    decreases s.len(),
{
    if s.len() > 0 && s[0] != c {
        lemma_first_index_of(s.drop_first(), c);
        match first_index_of(s.drop_first(), c) {
            Some(i) => {
                assert forall|j: int| 0 <= j < i + 1 implies s[j] != c by {
                    if j > 0 {
                        assert(s[j] == s.drop_first()[j - 1]);
                    }
                }
            },
            None => {
                assert forall|j: int| 0 <= j < s.len() implies s[j] != c by {
                    if j > 0 {
                        assert(s[j] == s.drop_first()[j - 1]);
                    }
                }
            },
        }
    }
}

/// `last_index_of` finds the last occurrence of `c`, or tells that none exists.
pub proof fn lemma_last_index_of(s: Seq<char>, c: char)
    ensures
        match last_index_of(s, c) {
            Some(i) => 0 <= i < s.len() && s[i] == c && forall|j: int| i < j < s.len() ==> s[j]
                != c,
            None => forall|j: int| 0 <= j < s.len() ==> s[j] != c,
        },
    decreases s.len(),
{
    if s.len() > 0 && s.last() != c {
        lemma_last_index_of(s.drop_last(), c);
        assert forall|j: int| 0 <= j < s.len() - 1 implies s.drop_last()[j] == s[j] by {}
    }
}

/// `needle` matches `haystack` at position `start`, from the needle's `j`-th
/// character on.
pub open spec fn matches_from(haystack: Seq<char>, needle: Seq<char>, start: int, j: int) -> bool
    decreases needle.len() - j,
{
    if j >= needle.len() {
        true
    } else if start + j < 0 || start + j >= haystack.len() {
        false
    } else {
        haystack[start + j] == needle[j] && matches_from(haystack, needle, start, j + 1)
    }
}

/// `needle` occurs in `haystack` at some position at or after `start`,
/// checked position by position.
pub open spec fn occurs_from(haystack: Seq<char>, needle: Seq<char>, start: int) -> bool
    decreases haystack.len() - start,
{
    if start < 0 || start + needle.len() > haystack.len() {
        false
    } else {
        matches_from(haystack, needle, start, 0) || occurs_from(haystack, needle, start + 1)
    }
}

proof fn lemma_subrange_matches(haystack: Seq<char>, needle: Seq<char>, start: int, j: int)
    requires
        0 <= start,
        start + needle.len() <= haystack.len(),
        0 <= j <= needle.len(),
        haystack.subrange(start, start + needle.len()) == needle,
    ensures
        matches_from(haystack, needle, start, j),
    decreases needle.len() - j,
{
    if j < needle.len() {
        assert(haystack.subrange(start, start + needle.len())[j] == haystack[start + j]);
        lemma_subrange_matches(haystack, needle, start, j + 1);
    }
}

proof fn lemma_match_occurs_from(haystack: Seq<char>, needle: Seq<char>, from: int, start: int)
    requires
        0 <= from <= start,
        start + needle.len() <= haystack.len(),
        matches_from(haystack, needle, start, 0),
    ensures
        occurs_from(haystack, needle, from),
    decreases start - from,
{
    if from < start {
        lemma_match_occurs_from(haystack, needle, from + 1, start);
    }
}

/// A position-by-position check that finds no occurrence shows that there is
/// none.
pub proof fn lemma_no_occurrence(haystack: Seq<char>, needle: Seq<char>)
    requires
        !occurs_from(haystack, needle, 0),
    ensures
        !occurs_in(haystack, needle),
{
    if occurs_in(haystack, needle) {
        let i = choose|i: int|
            0 <= i && i + needle.len() <= haystack.len() && #[trigger] haystack.subrange(
                i,
                i + needle.len(),
            ) == needle;
        lemma_subrange_matches(haystack, needle, i, 0);
        lemma_match_occurs_from(haystack, needle, 0, i);
    }
}

/// Appends one character to a string (`String::push`).
#[verifier::external_body]
pub(crate) fn push_char(s: &mut String, c: char)
    ensures
        final(s)@ == old(s)@.push(c),
{
    s.push(c);
}

/// Lower-cases the ASCII letters of `s`, as `str::to_ascii_lowercase` does.
pub fn to_ascii_lowercase(s: &str) -> (res: String)
    ensures
        res@ == ascii_lower(s@),
{
    let n = s.unicode_len();
    let mut out = String::new();
    let mut i: usize = 0;
    while i < n
        invariant
            n == s@.len(),
            i <= n,
            out@ == ascii_lower(s@).subrange(0, i as int),
        decreases n - i,
    {
        let c = s.get_char(i);
        let lc = if 'A' <= c && c <= 'Z' {
            ((c as u8) + 32) as char
        } else {
            c
        };
        push_char(&mut out, lc);
        assert(ascii_lower(s@).subrange(0, i + 1) =~= ascii_lower(s@).subrange(0, i as int).push(
            lc,
        ));
        i = i + 1;
    }
    assert(ascii_lower(s@).subrange(0, n as int) =~= ascii_lower(s@));
    out
}

/// Character-wise equality of two string slices.
pub fn str_equal(a: &str, b: &str) -> (res: bool)
    ensures
        res == (a@ == b@),
{
    let n = a.unicode_len();
    let m = b.unicode_len();
    if n != m {
        return false;
    }
    let mut i: usize = 0;
    while i < n
        invariant
            n == a@.len(),
            m == b@.len(),
            n == m,
            i <= n,
            forall|j: int| 0 <= j < i ==> a@[j] == b@[j],
        decreases n - i,
    {
        if a.get_char(i) != b.get_char(i) {
            return false;
        }
        i = i + 1;
    }
    assert(a@ =~= b@);
    true
}

/// Equality up to ASCII case, as `str::eq_ignore_ascii_case` does.
pub fn eq_ignore_ascii_case(a: &str, b: &str) -> (res: bool)
    ensures
        res == (ascii_lower(a@) == ascii_lower(b@)),
{
    let n = a.unicode_len();
    let m = b.unicode_len();
    if n != m {
        assert(ascii_lower(a@).len() != ascii_lower(b@).len());
        return false;
    }
    let mut i: usize = 0;
    while i < n
        invariant
            n == a@.len(),
            m == b@.len(),
            n == m,
            i <= n,
            forall|j: int| 0 <= j < i ==> ascii_lower(a@)[j] == ascii_lower(b@)[j],
        decreases n - i,
    {
        let x = a.get_char(i);
        let y = b.get_char(i);
        let lx = if 'A' <= x && x <= 'Z' {
            ((x as u8) + 32) as char
        } else {
            x
        };
        let ly = if 'A' <= y && y <= 'Z' {
            ((y as u8) + 32) as char
        } else {
            y
        };
        if lx != ly {
            assert(ascii_lower(a@)[i as int] != ascii_lower(b@)[i as int]);
            return false;
        }
        i = i + 1;
    }
    assert(ascii_lower(a@) =~= ascii_lower(b@));
    true
}

/// Substring search, as `str::contains` with a string pattern does.
pub fn contains_str(haystack: &str, needle: &str) -> (res: bool)
    ensures
        res == occurs_in(haystack@, needle@),
{
    let n = haystack.unicode_len();
    let m = needle.unicode_len();
    if m == 0 {
        assert(haystack@.subrange(0int, 0int + needle@.len()) =~= needle@);
        return true;
    }
    if m > n {
        assert forall|i: int|
            0 <= i && i + needle@.len() <= haystack@.len() implies #[trigger] haystack@.subrange(
            i,
            i + needle@.len(),
        ) != needle@ by {}
        return false;
    }
    let mut i: usize = 0;
    while i <= n - m
        invariant
            n == haystack@.len(),
            m == needle@.len(),
            1 <= m <= n,
            i <= n - m + 1,
            forall|k: int|
                0 <= k < i ==> #[trigger] haystack@.subrange(k, k + m as int) != needle@,
        decreases n - m + 1 - i,
    {
        let mut j: usize = 0;
        let mut matched = true;
        while j < m
            invariant
                n == haystack@.len(),
                m == needle@.len(),
                i + m <= n,
                j <= m,
                matched ==> forall|t: int| 0 <= t < j ==> haystack@[i + t] == needle@[t],
                !matched ==> haystack@.subrange(i as int, i + m as int) != needle@,
            decreases m - j,
        {
            if matched && haystack.get_char(i + j) != needle.get_char(j) {
                matched = false;
                assert(haystack@.subrange(i as int, i + m as int)[j as int] != needle@[j as int]);
            }
            j = j + 1;
        }
        if matched {
            assert(haystack@.subrange(i as int, i + m as int) =~= needle@);
            return true;
        }
        i = i + 1;
    }
    assert forall|k: int|
        0 <= k && k + needle@.len() <= haystack@.len() implies #[trigger] haystack@.subrange(
        k,
        k + needle@.len(),
    ) != needle@ by {}
    false
}

/// The text after the last `.` of `s`, lower-cased: the first item of
/// `s.rsplit('.')`, passed through `to_ascii_lowercase`.
pub fn lowercase_extension(s: &str) -> (res: String)
    ensures
        res@ == ascii_lower(after_last(s@, '.')),
{
    let n = s.unicode_len();
    let mut i: usize = n;
    let mut found = false;
    while i > 0 && !found
        invariant
            n == s@.len(),
            i <= n,
            found ==> i > 0 && s@[i - 1] == '.',
            forall|j: int| i <= j < n ==> s@[j] != '.',
        decreases i + (if found { 0int } else { 1int }),
    {
        if s.get_char(i - 1) == '.' {
            found = true;
        } else {
            i = i - 1;
        }
    }
    proof {
        lemma_last_index_of(s@, '.');
    }
    let tail = s.substring_char(i, n);
    proof {
        if i == 0 {
            assert(last_index_of(s@, '.') is None) by {
                if last_index_of(s@, '.') is Some {
                    let k = last_index_of(s@, '.')->0;
                    if k >= i as int {
                        assert(s@[k] != '.');
                    }
                }
            }
            assert(tail@ =~= s@);
        } else {
            assert(s@[i - 1] == '.');
            assert(last_index_of(s@, '.') == Some(i - 1)) by {
                let k = last_index_of(s@, '.');
                if k is None {
                } else {
                    let kk = k->0;
                    if kk < i - 1 {
                        assert(s@[i - 1] != '.');
                    } else if kk > i - 1 {
                        assert(s@[kk] != '.');
                    }
                }
            }
        }
    }
    to_ascii_lowercase(tail)
}

/// The text before the first `c` of `s`, as `s.split_once(c).map(|(a, _)| a)`.
pub fn prefix_before(s: &str, c: char) -> (res: Option<&str>)
    ensures
        match res {
            Some(p) => before_first(s@, c) == Some(p@),
            None => before_first(s@, c) is None,
        },
{
    let n = s.unicode_len();
    let mut i: usize = 0;
    while i < n
        invariant
            n == s@.len(),
            i <= n,
            forall|j: int| 0 <= j < i ==> s@[j] != c,
        decreases n - i,
    {
        if s.get_char(i) == c {
            proof {
                lemma_first_index_of(s@, c);
                let k = first_index_of(s@, c);
                assert(k == Some(i as int)) by {
                    if k is None {
                    } else {
                        let kk = k->0;
                        if kk < i {
                            assert(s@[kk] != c);
                        } else if kk > i {
                            assert(s@[i as int] != c);
                        }
                    }
                }
            }
            return Some(s.substring_char(0, i));
        }
        i = i + 1;
    }
    proof {
        lemma_first_index_of(s@, c);
        if first_index_of(s@, c) is Some {
            let kk = first_index_of(s@, c)->0;
            assert(s@[kk] != c);
        }
    }
    None
}

} // verus!
