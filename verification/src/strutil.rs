//! Character-sequence utilities shared by the parsers and the resolver.
//!
//! The library works on `Vec<char>` internally; every helper here carries an
//! exact specification over `Seq<char>`, so that the parsing code built on top
//! can state its own contracts directly over views of the input strings.

use vstd::prelude::*;
use vstd::string::StrSliceExecFns;
use vstd::string::StringExecFns;

verus! {

/// Whitespace for the purposes of trimming: the ASCII blank characters.
pub open spec fn is_space_char(c: char) -> bool {
    c == ' ' || c == '\t' || c == '\n' || c == '\r' || c == '\u{b}' || c == '\u{c}'
}

pub fn is_space(c: char) -> (b: bool)
    ensures
        b == is_space_char(c),
{
    c == ' ' || c == '\t' || c == '\n' || c == '\r' || c == '\u{b}' || c == '\u{c}'
}

/// Number of whitespace characters at the front of `s`.
pub open spec fn leading_spaces(s: Seq<char>) -> int
    decreases s.len(),
{
    if s.len() == 0 || !is_space_char(s[0]) {
        0
    } else {
        1 + leading_spaces(s.drop_first())
    }
}

/// Number of whitespace characters at the back of `s`.
pub open spec fn trailing_spaces(s: Seq<char>) -> int
    decreases s.len(),
{
    if s.len() == 0 || !is_space_char(s.last()) {
        0
    } else {
        1 + trailing_spaces(s.drop_last())
    }
}

/// `s` with leading and trailing whitespace removed.
pub open spec fn spec_trim(s: Seq<char>) -> Seq<char> {
    if leading_spaces(s) == s.len() {
        Seq::empty()
    } else {
        s.subrange(leading_spaces(s), s.len() - trailing_spaces(s))
    }
}

pub proof fn lemma_leading_spaces(s: Seq<char>)
    ensures
        0 <= leading_spaces(s) <= s.len(),
        forall|i: int| 0 <= i < leading_spaces(s) ==> is_space_char(s[i]),
        leading_spaces(s) < s.len() ==> !is_space_char(s[leading_spaces(s)]),
    decreases s.len(),
{
    if s.len() != 0 && is_space_char(s[0]) {
        lemma_leading_spaces(s.drop_first());
        assert forall|i: int| 0 <= i < leading_spaces(s) implies is_space_char(s[i]) by {
            if i > 0 {
                assert(s.drop_first()[i - 1] == s[i]);
            }
        }
        if leading_spaces(s) < s.len() {
            assert(s.drop_first()[leading_spaces(s) - 1] == s[leading_spaces(s)]);
        }
    }
}

pub proof fn lemma_leading_spaces_unique(s: Seq<char>, j: int)
    requires
        0 <= j <= s.len(),
        forall|i: int| 0 <= i < j ==> is_space_char(s[i]),
        j < s.len() ==> !is_space_char(s[j]),
    ensures
        leading_spaces(s) == j,
    decreases s.len(),
{
    if s.len() == 0 {
    } else if j == 0 {
    } else {
        assert(is_space_char(s[0]));
        assert forall|i: int| 0 <= i < j - 1 implies is_space_char(s.drop_first()[i]) by {
            assert(s.drop_first()[i] == s[i + 1]);
        }
        if j - 1 < s.drop_first().len() {
            assert(s.drop_first()[j - 1] == s[j]);
        }
        lemma_leading_spaces_unique(s.drop_first(), j - 1);
    }
}

pub proof fn lemma_trailing_spaces(s: Seq<char>)
    ensures
        0 <= trailing_spaces(s) <= s.len(),
        forall|i: int| s.len() - trailing_spaces(s) <= i < s.len() ==> is_space_char(s[i]),
        trailing_spaces(s) < s.len() ==> !is_space_char(s[s.len() - trailing_spaces(s) - 1]),
    decreases s.len(),
{
    if s.len() != 0 && is_space_char(s.last()) {
        lemma_trailing_spaces(s.drop_last());
        assert forall|i: int| s.len() - trailing_spaces(s) <= i < s.len() implies is_space_char(
            s[i],
        ) by {
            if i < s.len() - 1 {
                assert(s.drop_last()[i] == s[i]);
            }
        }
        if trailing_spaces(s) < s.len() {
            assert(s.drop_last()[s.len() - trailing_spaces(s) - 1] == s[s.len() - trailing_spaces(
                s,
            ) - 1]);
        }
    }
}

pub proof fn lemma_trailing_spaces_unique(s: Seq<char>, j: int)
    requires
        0 <= j <= s.len(),
        forall|i: int| s.len() - j <= i < s.len() ==> is_space_char(s[i]),
        j < s.len() ==> !is_space_char(s[s.len() - j - 1]),
    ensures
        trailing_spaces(s) == j,
    decreases s.len(),
{
    if s.len() == 0 {
    } else if j == 0 {
    } else {
        assert(is_space_char(s.last()));
        assert forall|i: int| s.drop_last().len() - (j - 1) <= i < s.drop_last().len() implies
            is_space_char(s.drop_last()[i]) by {
            assert(s.drop_last()[i] == s[i]);
        }
        if j - 1 < s.drop_last().len() {
            assert(s.drop_last()[s.drop_last().len() - (j - 1) - 1] == s[s.len() - j - 1]);
        }
        lemma_trailing_spaces_unique(s.drop_last(), j - 1);
    }
}

/// A trimmed sequence trims to itself.
pub proof fn lemma_trim_idempotent(s: Seq<char>)
    ensures
        spec_trim(spec_trim(s)) == spec_trim(s),
{
    lemma_leading_spaces(s);
    lemma_trailing_spaces(s);
    let t = spec_trim(s);
    if leading_spaces(s) == s.len() {
        lemma_leading_spaces_unique(t, 0);
        assert(t =~= spec_trim(t));
    } else {
        if trailing_spaces(s) >= s.len() - leading_spaces(s) {
            assert(is_space_char(s[leading_spaces(s)]));
            assert(false);
        }
        assert(t[0] == s[leading_spaces(s)]);
        assert(!is_space_char(t[0]));
        lemma_leading_spaces_unique(t, 0);
        assert(t.last() == s[s.len() - trailing_spaces(s) - 1]);
        assert(!is_space_char(t.last()));
        lemma_trailing_spaces_unique(t, 0);
        assert(t =~= spec_trim(t));
    }
}

/// Copies `v[lo..hi]` into a fresh vector.
pub fn subvec(v: &Vec<char>, lo: usize, hi: usize) -> (r: Vec<char>)
    requires
        lo <= hi <= v@.len(),
    ensures
        r@ == v@.subrange(lo as int, hi as int),
{
    let mut r: Vec<char> = Vec::new();
    assert(r@ =~= v@.subrange(lo as int, lo as int));
    let mut i: usize = lo;
    while i < hi
        invariant
            lo <= i <= hi <= v@.len(),
            r@ == v@.subrange(lo as int, i as int),
        decreases hi - i,
    {
        r.push(v[i]);
        assert(r@ =~= v@.subrange(lo as int, i + 1 as int));
        i += 1;
    }
    r
}

/// `v` with leading and trailing whitespace removed.
pub fn trimmed(v: &Vec<char>) -> (r: Vec<char>)
    ensures
        r@ == spec_trim(v@),
{
    let n = v.len();
    let mut lo: usize = 0;
    while lo < n && is_space(v[lo])
        invariant
            lo <= n == v@.len(),
            forall|i: int| 0 <= i < lo ==> is_space_char(v@[i]),
        decreases n - lo,
    {
        lo += 1;
    }
    proof {
        lemma_leading_spaces_unique(v@, lo as int);
    }
    if lo == n {
        let r: Vec<char> = Vec::new();
        assert(r@ =~= spec_trim(v@));
        r
    } else {
        let mut hi: usize = n;
        while hi > lo && is_space(v[hi - 1])
            invariant
                lo <= hi <= n == v@.len(),
                forall|i: int| hi <= i < n ==> is_space_char(v@[i]),
            decreases hi,
        {
            hi -= 1;
        }
        proof {
            assert(!is_space_char(v@[lo as int]));
            assert(hi > lo);
            lemma_trailing_spaces_unique(v@, n - hi);
        }
        subvec(v, lo, hi)
    }
}

/// The characters of `s`, in order.
pub fn chars_of(s: &str) -> (v: Vec<char>)
    ensures
        v@ == s@,
{
    let n = s.unicode_len();
    let mut v: Vec<char> = Vec::new();
    assert(v@ =~= s@.subrange(0, 0));
    let mut i: usize = 0;
    while i < n
        invariant
            n == s@.len(),
            i <= n,
            v@ == s@.subrange(0, i as int),
        decreases n - i,
    {
        v.push(s.get_char(i));
        assert(v@ =~= s@.subrange(0, i + 1 as int));
        i += 1;
    }
    assert(v@ =~= s@);
    v
}

/// Relies on `String`'s `FromIterator<char>` implementation: collecting an
/// iterator over characters yields the string made of exactly those
/// characters, in order.
#[verifier::external_body]
pub fn string_from_chars(v: &Vec<char>) -> (s: String)
    ensures
        s@ == v@,
{
    v.iter().collect()
}

pub fn eq_chars(a: &Vec<char>, b: &Vec<char>) -> (r: bool)
    ensures
        r == (a@ == b@),
{
    if a.len() != b.len() {
        return false;
    }
    let n = a.len();
    let mut i: usize = 0;
    while i < n
        invariant
            i <= n,
            a@.len() == n,
            b@.len() == n,
            forall|j: int| 0 <= j < i ==> a@[j] == b@[j],
        decreases n - i,
    {
        if a[i] != b[i] {
            return false;
        }
        i += 1;
    }
    proof {
        assert(a@ =~= b@);
    }
    true
}

/// Compares a character vector against a string slice.
pub fn eq_str(a: &Vec<char>, s: &str) -> (r: bool)
    ensures
        r == (a@ == s@),
{
    let b = chars_of(s);
    eq_chars(a, &b)
}

/// `pat` occurs in `s` at position `i`.
pub open spec fn match_at(s: Seq<char>, pat: Seq<char>, i: int) -> bool {
    0 <= i && i + pat.len() <= s.len() && s.subrange(i, i + pat.len()) == pat
}

/// The first position at or after `i` where `pat` occurs in `s`.
pub open spec fn find_from(s: Seq<char>, pat: Seq<char>, i: int) -> Option<int>
    recommends
        0 <= i,
    decreases s.len() - i + pat.len() + 1,
{
    if i < 0 || i + pat.len() > s.len() {
        None
    } else if match_at(s, pat, i) {
        Some(i)
    } else {
        find_from(s, pat, i + 1)
    }
}

/// The first position where `pat` occurs in `s`.
pub open spec fn spec_find(s: Seq<char>, pat: Seq<char>) -> Option<int> {
    find_from(s, pat, 0)
}

pub open spec fn has_sub(s: Seq<char>, pat: Seq<char>) -> bool {
    spec_find(s, pat) is Some
}

pub proof fn lemma_find_from(s: Seq<char>, pat: Seq<char>, i: int)
    requires
        0 <= i,
    ensures
        match find_from(s, pat, i) {
            Some(j) => i <= j && match_at(s, pat, j) && forall|k: int|
                i <= k < j ==> !match_at(s, pat, k),
            None => forall|k: int| i <= k ==> !match_at(s, pat, k),
        },
    decreases s.len() - i + pat.len() + 1,
{
    if i + pat.len() > s.len() {
    } else if match_at(s, pat, i) {
    } else {
        lemma_find_from(s, pat, i + 1);
    }
}

/// Does `pat` occur at position `i` of `v`?  Executable form of `match_at`.
pub fn matches_at(v: &Vec<char>, pat: &Vec<char>, i: usize) -> (r: bool)
    requires
        i + pat@.len() <= v@.len(),
    ensures
        r == match_at(v@, pat@, i as int),
{
    let n = v.len();
    let m = pat.len();
    let mut j: usize = 0;
    while j < m
        invariant
            j <= m == pat@.len(),
            i + m <= n == v@.len(),
            forall|k: int| 0 <= k < j ==> v@[i + k] == pat@[k],
        decreases m - j,
    {
        assert(i + j < n);
        if v[i + j] != pat[j] {
            proof {
                assert(v@.subrange(i as int, i + pat@.len())[j as int] == v@[i + j]);
            }
            return false;
        }
        j += 1;
    }
    proof {
        assert(v@.subrange(i as int, i + pat@.len()) =~= pat@);
    }
    true
}

/// First occurrence of `pat` in `v` at or after `from`.
pub fn find_sub_from(v: &Vec<char>, pat: &Vec<char>, from: usize) -> (r: Option<usize>)
    ensures
        match r {
            Some(j) => from <= j && find_from(v@, pat@, from as int) == Some(j as int),
            None => find_from(v@, pat@, from as int) is None,
        },
{
    let n = v.len();
    let m = pat.len();
    if m > n || from > n - m {
        return None;
    }
    if m == 0 {
        proof {
            assert(v@.subrange(from as int, from as int) =~= pat@);
        }
        return Some(from);
    }
    let mut i: usize = from;
    while i <= n - m
        invariant
            from <= i,
            i <= n - m + 1,
            1 <= m <= n,
            n == v@.len(),
            m == pat@.len(),
            forall|k: int| from <= k < i ==> !match_at(v@, pat@, k),
        decreases n - i,
    {
        if matches_at(v, pat, i) {
            proof {
                lemma_find_from(v@, pat@, from as int);
                match find_from(v@, pat@, from as int) {
                    Some(j) => {
                        if j < i as int {
                            assert(match_at(v@, pat@, j));
                            assert(false);
                        }
                        if j > i as int {
                            assert(!match_at(v@, pat@, i as int));
                            assert(false);
                        }
                    },
                    None => {
                        assert(!match_at(v@, pat@, i as int));
                        assert(false);
                    },
                }
            }
            return Some(i);
        }
        i += 1;
    }
    proof {
        lemma_find_from(v@, pat@, from as int);
        match find_from(v@, pat@, from as int) {
            Some(j) => {
                assert(match_at(v@, pat@, j));
                assert(j + m <= n);
                assert(from <= j < i);
                assert(false);
            },
            None => {},
        }
    }
    None
}

pub fn find_sub(v: &Vec<char>, pat: &Vec<char>) -> (r: Option<usize>)
    ensures
        match r {
            Some(j) => spec_find(v@, pat@) == Some(j as int),
            None => spec_find(v@, pat@) is None,
        },
{
    find_sub_from(v, pat, 0)
}

pub fn contains_sub(v: &Vec<char>, pat: &Vec<char>) -> (r: bool)
    ensures
        r == has_sub(v@, pat@),
{
    match find_sub(v, pat) {
        Some(_) => true,
        None => false,
    }
}

/// `s` begins with `pat`.
pub open spec fn spec_starts_with(s: Seq<char>, pat: Seq<char>) -> bool {
    match_at(s, pat, 0)
}

pub fn starts_with_sub(v: &Vec<char>, pat: &Vec<char>) -> (r: bool)
    ensures
        r == spec_starts_with(v@, pat@),
{
    if pat.len() > v.len() {
        return false;
    }
    matches_at(v, pat, 0)
}

/// `s` ends with `pat`.
pub open spec fn spec_ends_with(s: Seq<char>, pat: Seq<char>) -> bool {
    match_at(s, pat, s.len() - pat.len())
}

pub fn ends_with_sub(v: &Vec<char>, pat: &Vec<char>) -> (r: bool)
    ensures
        r == spec_ends_with(v@, pat@),
{
    if pat.len() > v.len() {
        return false;
    }
    matches_at(v, pat, v.len() - pat.len())
}

/// First occurrence of character `c` in `s` at or after `i`.
pub open spec fn find_char_from(s: Seq<char>, c: char, i: int) -> Option<int>
    recommends
        0 <= i,
    decreases s.len() - i + 1,
{
    if i < 0 || i >= s.len() {
        None
    } else if s[i] == c {
        Some(i)
    } else {
        find_char_from(s, c, i + 1)
    }
}

pub proof fn lemma_find_char_from(s: Seq<char>, c: char, i: int)
    requires
        0 <= i,
    ensures
        match find_char_from(s, c, i) {
            Some(j) => i <= j < s.len() && s[j] == c && forall|k: int| i <= k < j ==> s[k] != c,
            None => forall|k: int| i <= k < s.len() ==> s[k] != c,
        },
    decreases s.len() - i + 1,
{
    if 0 <= i < s.len() && s[i] != c {
        lemma_find_char_from(s, c, i + 1);
    }
}

pub fn find_char(v: &Vec<char>, c: char, from: usize) -> (r: Option<usize>)
    ensures
        match r {
            Some(j) => from <= j && find_char_from(v@, c, from as int) == Some(j as int),
            None => find_char_from(v@, c, from as int) is None,
        },
{
    let n = v.len();
    let mut i: usize = from;
    while i < n
        invariant
            from <= i,
            n == v@.len(),
            forall|k: int| from <= k < i && k < n ==> v@[k] != c,
        decreases n - i,
    {
        if v[i] == c {
            proof {
                lemma_find_char_from(v@, c, from as int);
            }
            return Some(i);
        }
        i += 1;
    }
    proof {
        lemma_find_char_from(v@, c, from as int);
    }
    None
}

/// Last occurrence of character `c` in `s`.
pub open spec fn rfind_char(s: Seq<char>, c: char) -> Option<int>
    decreases s.len(),
{
    if s.len() == 0 {
        None
    } else if s.last() == c {
        Some(s.len() - 1)
    } else {
        rfind_char(s.drop_last(), c)
    }
}

pub proof fn lemma_rfind_char(s: Seq<char>, c: char)
    ensures
        match rfind_char(s, c) {
            Some(j) => 0 <= j < s.len() && s[j] == c && forall|k: int| j < k < s.len() ==> s[k] != c,
            None => forall|k: int| 0 <= k < s.len() ==> s[k] != c,
        },
    decreases s.len(),
{
    if s.len() != 0 && s.last() != c {
        lemma_rfind_char(s.drop_last(), c);
        assert forall|k: int| 0 <= k < s.drop_last().len() implies s.drop_last()[k] == s[k] by {}
    }
}

pub fn rfind_char_exec(v: &Vec<char>, c: char) -> (r: Option<usize>)
    ensures
        match r {
            Some(j) => rfind_char(v@, c) == Some(j as int),
            None => rfind_char(v@, c) is None,
        },
{
    let n = v.len();
    let mut i: usize = n;
    while i > 0
        invariant
            i <= n == v@.len(),
            forall|k: int| i <= k < n ==> v@[k] != c,
        decreases i,
    {
        i -= 1;
        if v[i] == c {
            proof {
                lemma_rfind_char(v@, c);
                match rfind_char(v@, c) {
                    Some(j) => {
                        if j < i as int {
                            assert(v@[i as int] == c);
                            assert(false);
                        }
                        if j > i as int {
                            assert(v@[j] != c);
                            assert(false);
                        }
                    },
                    None => {
                        assert(v@[i as int] != c);
                        assert(false);
                    },
                }
            }
            return Some(i);
        }
    }
    proof {
        lemma_rfind_char(v@, c);
    }
    None
}

/// ASCII lowercasing of a single character; everything outside `A`..`Z`
/// is left unchanged.
pub open spec fn spec_lower_char(c: char) -> char {
    match c {
        'A' => 'a',
        'B' => 'b',
        'C' => 'c',
        'D' => 'd',
        'E' => 'e',
        'F' => 'f',
        'G' => 'g',
        'H' => 'h',
        'I' => 'i',
        'J' => 'j',
        'K' => 'k',
        'L' => 'l',
        'M' => 'm',
        'N' => 'n',
        'O' => 'o',
        'P' => 'p',
        'Q' => 'q',
        'R' => 'r',
        'S' => 's',
        'T' => 't',
        'U' => 'u',
        'V' => 'v',
        'W' => 'w',
        'X' => 'x',
        'Y' => 'y',
        'Z' => 'z',
        _ => c,
    }
}

pub fn lower_char(c: char) -> (r: char)
    ensures
        r == spec_lower_char(c),
{
    match c {
        'A' => 'a',
        'B' => 'b',
        'C' => 'c',
        'D' => 'd',
        'E' => 'e',
        'F' => 'f',
        'G' => 'g',
        'H' => 'h',
        'I' => 'i',
        'J' => 'j',
        'K' => 'k',
        'L' => 'l',
        'M' => 'm',
        'N' => 'n',
        'O' => 'o',
        'P' => 'p',
        'Q' => 'q',
        'R' => 'r',
        'S' => 's',
        'T' => 't',
        'U' => 'u',
        'V' => 'v',
        'W' => 'w',
        'X' => 'x',
        'Y' => 'y',
        'Z' => 'z',
        _ => c,
    }
}

pub open spec fn spec_lower(s: Seq<char>) -> Seq<char> {
    s.map_values(|c: char| spec_lower_char(c))
}

pub fn lower_chars(v: &Vec<char>) -> (r: Vec<char>)
    ensures
        r@ == spec_lower(v@),
{
    let n = v.len();
    let mut r: Vec<char> = Vec::new();
    let mut i: usize = 0;
    while i < n
        invariant
            i <= n == v@.len(),
            r@.len() == i,
            forall|k: int| 0 <= k < i ==> r@[k] == spec_lower_char(v@[k]),
        decreases n - i,
    {
        r.push(lower_char(v[i]));
        i += 1;
    }
    proof {
        assert(r@ =~= spec_lower(v@));
    }
    r
}

/// `s` with every occurrence of `from` replaced by `to`.
pub open spec fn spec_replace(s: Seq<char>, from: char, to: char) -> Seq<char> {
    s.map_values(|c: char| if c == from { to } else { c })
}

pub fn replace_chars(v: &Vec<char>, from: char, to: char) -> (r: Vec<char>)
    ensures
        r@ == spec_replace(v@, from, to),
{
    let n = v.len();
    let mut r: Vec<char> = Vec::new();
    let mut i: usize = 0;
    while i < n
        invariant
            i <= n == v@.len(),
            r@.len() == i,
            forall|k: int| 0 <= k < i ==> r@[k] == (if v@[k] == from { to } else { v@[k] }),
        decreases n - i,
    {
        if v[i] == from {
            r.push(to);
        } else {
            r.push(v[i]);
        }
        i += 1;
    }
    proof {
        assert(r@ =~= spec_replace(v@, from, to));
    }
    r
}

/// Appends all characters of `src` to `dst`.
pub fn push_all(dst: &mut Vec<char>, src: &Vec<char>)
    ensures
        final(dst)@ == old(dst)@ + src@,
{
    let n = src.len();
    let mut i: usize = 0;
    while i < n
        invariant
            i <= n == src@.len(),
            dst@ == old(dst)@ + src@.subrange(0, i as int),
        decreases n - i,
    {
        dst.push(src[i]);
        assert(dst@ =~= old(dst)@ + src@.subrange(0, i + 1 as int));
        i += 1;
    }
    assert(dst@ =~= old(dst)@ + src@);
}

/// Appends the characters of the literal/slice `s` to `dst`.
pub fn push_str_chars(dst: &mut Vec<char>, s: &str)
    ensures
        final(dst)@ == old(dst)@ + s@,
{
    let v = chars_of(s);
    push_all(dst, &v);
}

/// Builds an owned `String` out of a character vector.
pub fn to_string_of(v: &Vec<char>) -> (s: String)
    ensures
        s@ == v@,
{
    string_from_chars(v)
}

/// Copies a string slice into an owned `String`.
pub fn str_to_string(s: &str) -> (r: String)
    ensures
        r@ == s@,
{
    let v = chars_of(s);
    to_string_of(&v)
}

/// `s` with every leading occurrence of `c` removed.
pub open spec fn drop_lead_char(s: Seq<char>, c: char) -> Seq<char>
    decreases s.len(),
{
    if s.len() > 0 && s[0] == c {
        drop_lead_char(s.drop_first(), c)
    } else {
        s
    }
}

/// `s` with every trailing occurrence of `c` removed.
pub open spec fn drop_trail_char(s: Seq<char>, c: char) -> Seq<char>
    decreases s.len(),
{
    if s.len() > 0 && s.last() == c {
        drop_trail_char(s.drop_last(), c)
    } else {
        s
    }
}

/// `s` with every leading and trailing occurrence of `c` removed, as
/// `str::trim_matches` does for a single pattern character.
pub open spec fn spec_trim_char(s: Seq<char>, c: char) -> Seq<char> {
    drop_trail_char(drop_lead_char(s, c), c)
}

pub proof fn lemma_drop_lead_char(s: Seq<char>, c: char, j: int)
    requires
        0 <= j <= s.len(),
        forall|i: int| 0 <= i < j ==> s[i] == c,
        j < s.len() ==> s[j] != c,
    ensures
        drop_lead_char(s, c) == s.subrange(j, s.len() as int),
    decreases s.len(),
{
    if s.len() > 0 && s[0] == c {
        assert(j >= 1);
        assert forall|i: int| 0 <= i < j - 1 implies s.drop_first()[i] == c by {
            assert(s.drop_first()[i] == s[i + 1]);
        }
        if j - 1 < s.drop_first().len() {
            assert(s.drop_first()[j - 1] == s[j]);
        }
        lemma_drop_lead_char(s.drop_first(), c, j - 1);
        assert(s.drop_first().subrange(j - 1, s.drop_first().len() as int) =~= s.subrange(
            j,
            s.len() as int,
        ));
    } else {
        assert(j == 0);
        assert(s.subrange(0, s.len() as int) =~= s);
    }
}

pub proof fn lemma_drop_trail_char(s: Seq<char>, c: char, j: int)
    requires
        0 <= j <= s.len(),
        forall|i: int| s.len() - j <= i < s.len() ==> s[i] == c,
        j < s.len() ==> s[s.len() - j - 1] != c,
    ensures
        drop_trail_char(s, c) == s.subrange(0, s.len() - j),
    decreases s.len(),
{
    if s.len() > 0 && s.last() == c {
        assert(j >= 1);
        assert forall|i: int|
            s.drop_last().len() - (j - 1) <= i < s.drop_last().len() implies s.drop_last()[i]
            == c by {
            assert(s.drop_last()[i] == s[i]);
        }
        if j - 1 < s.drop_last().len() {
            assert(s.drop_last()[s.drop_last().len() - (j - 1) - 1] == s[s.len() - j - 1]);
        }
        lemma_drop_trail_char(s.drop_last(), c, j - 1);
        assert(s.drop_last().subrange(0, s.drop_last().len() - (j - 1)) =~= s.subrange(
            0,
            s.len() - j,
        ));
    } else {
        assert(j == 0);
        assert(s.subrange(0, s.len() as int) =~= s);
    }
}

/// `v` with every leading and trailing occurrence of `c` removed.
pub fn trim_char_ends(v: &Vec<char>, c: char) -> (r: Vec<char>)
    ensures
        r@ == spec_trim_char(v@, c),
{
    let n = v.len();
    let mut lo: usize = 0;
    while lo < n && v[lo] == c
        invariant
            lo <= n == v@.len(),
            forall|i: int| 0 <= i < lo ==> v@[i] == c,
        decreases n - lo,
    {
        lo += 1;
    }
    proof {
        lemma_drop_lead_char(v@, c, lo as int);
    }
    let mut hi: usize = n;
    while hi > lo && v[hi - 1] == c
        invariant
            lo <= hi <= n == v@.len(),
            forall|i: int| hi <= i < n ==> v@[i] == c,
        decreases hi,
    {
        hi -= 1;
    }
    proof {
        let mid = v@.subrange(lo as int, n as int);
        assert forall|i: int| mid.len() - (n - hi) <= i < mid.len() implies mid[i] == c by {
            assert(mid[i] == v@[lo + i]);
        }
        if hi > lo {
            assert(mid[hi - lo - 1] == v@[hi - 1]);
            assert((n as int) - ((n as int) - (hi as int)) - (lo as int) - 1 == hi - lo - 1);
        }
        lemma_drop_trail_char(mid, c, n - hi);
        assert(mid.subrange(0, mid.len() - (n - hi)) =~= v@.subrange(lo as int, hi as int));
    }
    subvec(v, lo, hi)
}

} // verus!
