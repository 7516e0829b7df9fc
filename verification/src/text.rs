use vstd::prelude::*;
use vstd::arithmetic::div_mod::lemma_fundamental_div_mod;
use vstd::arithmetic::mul::lemma_mul_inequality;
use vstd::string::StrSliceExecFns;

verus! {

// ---------------------------------------------------------------------------
// Substring occurrence
// ---------------------------------------------------------------------------

/// `pat` occurs in `s` starting at position `i`.
pub open spec fn occurs_at(s: Seq<char>, pat: Seq<char>, i: int) -> bool {
    &&& 0 <= i
    &&& i + pat.len() <= s.len()
    &&& s.subrange(i, i + pat.len() as int) == pat
}

/// Position of the first occurrence of `pat` in `s` at or after `from`,
/// if there is one.
pub open spec fn first_occ_from(s: Seq<char>, pat: Seq<char>, from: int) -> Option<int>
    decreases s.len() + 1 - from,
{
    if from + pat.len() > s.len() {
        None
    } else if occurs_at(s, pat, from) {
        Some(from)
    } else {
        first_occ_from(s, pat, from + 1)
    }
}

pub open spec fn has_pattern(s: Seq<char>, pat: Seq<char>) -> bool {
    first_occ_from(s, pat, 0) is Some
}

/// Position of the first occurrence of the character `c` in `s` at or after
/// `from`, if there is one.
pub open spec fn first_char_from(s: Seq<char>, c: char, from: int) -> Option<int>
    decreases s.len() + 1 - from,
{
    if from >= s.len() {
        None
    } else if from < 0 {
        first_char_from(s, c, 0)
    } else if s[from] == c {
        Some(from)
    } else {
        first_char_from(s, c, from + 1)
    }
}

pub proof fn lemma_first_occ_from_props(s: Seq<char>, pat: Seq<char>, from: int)
    ensures
        match first_occ_from(s, pat, from) {
            Some(i) => {
                &&& from <= i
                &&& occurs_at(s, pat, i)
                &&& forall|k: int| from <= k < i ==> !occurs_at(s, pat, k)
            },
            None => forall|k: int| from <= k ==> !occurs_at(s, pat, k),
        },
    decreases s.len() + 1 - from,
{
    if from + pat.len() > s.len() {
    } else if occurs_at(s, pat, from) {
    } else {
        lemma_first_occ_from_props(s, pat, from + 1);
    }
}

pub proof fn lemma_first_char_from_props(s: Seq<char>, c: char, from: int)
    requires
        0 <= from,
    ensures
        match first_char_from(s, c, from) {
            Some(q) => {
                &&& from <= q < s.len()
                &&& s[q] == c
                &&& forall|k: int| from <= k < q ==> s[k] != c
            },
            None => forall|k: int| from <= k < s.len() ==> s[k] != c,
        },
    decreases s.len() + 1 - from,
{
    if from >= s.len() {
    } else if s[from] == c {
    } else {
        lemma_first_char_from_props(s, c, from + 1);
    }
}

/// Whether `pat` occurs at position `i` of `s`, by character comparison.
pub fn pattern_at(s: &str, pat: &str, i: usize) -> (b: bool)
    requires
        i + pat@.len() <= s@.len(),
        s@.len() <= usize::MAX,
    ensures
        b == occurs_at(s@, pat@, i as int),
{
    let plen = pat.unicode_len();
    let mut k: usize = 0;
    while k < plen
        invariant
            k <= plen,
            plen == pat@.len(),
            i + plen <= s@.len() <= usize::MAX,
            forall|m: int| 0 <= m < k ==> s@[i + m] == pat@[m],
        decreases plen - k,
    {
        if s.get_char(i + k) != pat.get_char(k) {
            proof {
                assert(s@.subrange(i as int, i + plen as int)[k as int] == s@[i + k]);
            }
            return false;
        }
        k += 1;
    }
    proof {
        assert(s@.subrange(i as int, i + plen as int) =~= pat@);
    }
    true
}

/// First occurrence of `pat` in `s` at or after `from`.
pub fn find_pattern_from(s: &str, pat: &str, from: usize) -> (r: Option<usize>)
    ensures
        match r {
            Some(i) => Some(i as int) == first_occ_from(s@, pat@, from as int),
            None => first_occ_from(s@, pat@, from as int) is None,
        },
{
    let n = s.unicode_len();
    let plen = pat.unicode_len();
    if plen == 0 {
        if from <= n {
            proof {
                assert(s@.subrange(from as int, from as int) =~= pat@);
            }
            return Some(from);
        } else {
            return None;
        }
    }
    if plen > n {
        proof {
            lemma_first_occ_from_props(s@, pat@, from as int);
            if first_occ_from(s@, pat@, from as int) is Some {
                let i = first_occ_from(s@, pat@, from as int)->0;
                assert(occurs_at(s@, pat@, i));
            }
        }
        return None;
    }
    let bound = n - plen;
    if from > bound {
        return None;
    }
    let mut i: usize = from;
    while i <= bound
        invariant
            plen == pat@.len(),
            n == s@.len(),
            1 <= plen <= n,
            bound == n - plen,
            from <= i,
            i <= bound + 1,
            first_occ_from(s@, pat@, from as int) == first_occ_from(s@, pat@, i as int),
        decreases bound + 1 - i,
    {
        if pattern_at(s, pat, i) {
            return Some(i);
        }
        proof {
            assert(first_occ_from(s@, pat@, i as int) == first_occ_from(s@, pat@, i + 1));
        }
        i += 1;
    }
    None
}

/// First occurrence of the character `c` in `s` at or after `from`.
pub fn find_char_from(s: &str, c: char, from: usize) -> (r: Option<usize>)
    ensures
        match r {
            Some(q) => Some(q as int) == first_char_from(s@, c, from as int),
            None => first_char_from(s@, c, from as int) is None,
        },
{
    let n = s.unicode_len();
    if from >= n {
        return None;
    }
    let mut i: usize = from;
    while i < n
        invariant
            n == s@.len(),
            from <= i <= n,
            first_char_from(s@, c, from as int) == first_char_from(s@, c, i as int),
        decreases n - i,
    {
        if s.get_char(i) == c {
            return Some(i);
        }
        proof {
            assert(first_char_from(s@, c, i as int) == first_char_from(s@, c, i + 1));
        }
        i += 1;
    }
    None
}

/// Whether two strings hold the same characters.
pub fn str_eq(a: &str, b: &str) -> (r: bool)
    ensures
        r == (a@ == b@),
{
    let n = a.unicode_len();
    if n != b.unicode_len() {
        return false;
    }
    let mut i: usize = 0;
    while i < n
        invariant
            n == a@.len(),
            n == b@.len(),
            i <= n,
            forall|k: int| 0 <= k < i ==> a@[k] == b@[k],
        decreases n - i,
    {
        if a.get_char(i) != b.get_char(i) {
            return false;
        }
        i += 1;
    }
    proof {
        assert(a@ =~= b@);
    }
    true
}

/// Whether the character `c` occurs anywhere in `s`.
pub fn str_contains_char(s: &str, c: char) -> (b: bool)
    ensures
        b == s@.contains(c),
{
    let n = s.unicode_len();
    let mut i: usize = 0;
    while i < n
        invariant
            n == s@.len(),
            i <= n,
            forall|k: int| 0 <= k < i ==> s@[k] != c,
        decreases n - i,
    {
        if s.get_char(i) == c {
            proof {
                assert(s@[i as int] == c);
            }
            return true;
        }
        i += 1;
    }
    false
}

// ---------------------------------------------------------------------------
// Quote-bounded attribute capture
// ---------------------------------------------------------------------------

/// The text between the first occurrence of `pat` and the next double quote,
/// if both are present: the capture of an attribute pattern that ends in an
/// opening quote.
pub open spec fn quoted_capture_after(s: Seq<char>, pat: Seq<char>) -> Option<Seq<char>> {
    match first_occ_from(s, pat, 0) {
        None => None,
        Some(i) => match first_char_from(s, '"', i + pat.len() as int) {
            None => None,
            Some(q) => Some(s.subrange(i + pat.len() as int, q)),
        },
    }
}

/// Capture the quote-bounded text that follows the first occurrence of `pat`.
pub fn capture_quoted(s: &str, pat: &str) -> (r: Option<String>)
    ensures
        match r {
            Some(v) => quoted_capture_after(s@, pat@) == Some(v@),
            None => quoted_capture_after(s@, pat@) is None,
        },
{
    let n = s.unicode_len();
    let plen = pat.unicode_len();
    match find_pattern_from(s, pat, 0) {
        None => None,
        Some(i) => {
            proof {
                lemma_first_occ_from_props(s@, pat@, 0);
                assert(i + plen <= n);
            }
            let start = i + plen;
            match find_char_from(s, '"', start) {
                None => None,
                Some(q) => {
                    proof {
                        lemma_first_char_from_props(s@, '"', start as int);
                    }
                    Some(s.substring_char(start, q).to_owned())
                },
            }
        },
    }
}

// ---------------------------------------------------------------------------
// Decimal numbers
// ---------------------------------------------------------------------------

pub open spec fn is_dec_digit(c: char) -> bool {
    '0' as int <= c as int && c as int <= '9' as int
}

pub open spec fn all_digits(s: Seq<char>) -> bool {
    forall|i: int| 0 <= i < s.len() ==> is_dec_digit(s[i])
}

/// The value of a string of decimal digits, most significant first.
pub open spec fn dec_value(s: Seq<char>) -> int
    decreases s.len(),
{
    if s.len() == 0 {
        0
    } else {
        dec_value(s.drop_last()) * 10 + (s.last() as int - '0' as int)
    }
}

pub proof fn lemma_dec_value_nonneg(s: Seq<char>)
    requires
        all_digits(s),
    ensures
        dec_value(s) >= 0,
    decreases s.len(),
{
    if s.len() > 0 {
        assert(all_digits(s.drop_last()));
        lemma_dec_value_nonneg(s.drop_last());
    }
}

/// A digit string's value only grows as digits are appended.
pub proof fn lemma_dec_value_prefix_le(s: Seq<char>, j: int)
    requires
        0 <= j <= s.len(),
        all_digits(s),
    ensures
        dec_value(s.take(j)) <= dec_value(s),
    decreases s.len() - j,
{
    if j == s.len() {
        assert(s.take(j) =~= s);
    } else {
        assert(s.take(j + 1).drop_last() =~= s.take(j));
        assert(s.take(j + 1).last() == s[j]);
        assert(all_digits(s.take(j)));
        lemma_dec_value_nonneg(s.take(j));
        assert(dec_value(s.take(j)) <= dec_value(s.take(j + 1)));
        lemma_dec_value_prefix_le(s, j + 1);
    }
}

/// Parse a non-empty, all-digit decimal string into a `usize`; `None` on an
/// empty string, a non-digit, or a value that does not fit.
pub fn parse_usize(s: &str) -> (r: Option<usize>)
    ensures
        match r {
            Some(v) => s@.len() > 0 && all_digits(s@) && v as int == dec_value(s@),
            None => s@.len() == 0 || !all_digits(s@) || dec_value(s@) > usize::MAX,
        },
{
    let n = s.unicode_len();
    if n == 0 {
        return None;
    }
    let mut acc: usize = 0;
    let mut i: usize = 0;
    while i < n
        invariant
            n == s@.len(),
            i <= n,
            forall|k: int| 0 <= k < i ==> is_dec_digit(s@[k]),
            acc as int == dec_value(s@.take(i as int)),
        decreases n - i,
    {
        let c = s.get_char(i);
        let u = c as u32;
        if u < 48 || u > 57 {
            return None;
        }
        let d: usize = (u - 48) as usize;
        let limit: usize = (usize::MAX - d) / 10;
        proof {
            assert(s@.take(i + 1).drop_last() =~= s@.take(i as int));
            assert(s@.take(i + 1).last() == s@[i as int]);
            let m = usize::MAX as int;
            let a = acc as int;
            let dd = d as int;
            lemma_fundamental_div_mod(m - dd, 10);
            if a <= (m - dd) / 10 {
                lemma_mul_inequality(a, (m - dd) / 10, 10);
                assert(a * 10 + dd <= m);
            } else {
                lemma_mul_inequality((m - dd) / 10 + 1, a, 10);
                assert(a * 10 + dd > m);
            }
        }
        if acc > limit {
            proof {
                if all_digits(s@) {
                    lemma_dec_value_prefix_le(s@, i + 1);
                }
            }
            return None;
        }
        acc = acc * 10 + d;
        i += 1;
    }
    proof {
        assert(s@.take(n as int) =~= s@);
    }
    Some(acc)
}

} // verus!
