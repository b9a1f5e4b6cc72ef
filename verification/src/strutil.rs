//! Verified string primitives the pipeline is built on: substring search,
//! leftmost-occurrence replacement, path-stem extraction, decimal rendering,
//! and association-list lookup. All contracts are stated over `Seq<char>`
//! views.

use vstd::prelude::*;
use vstd::string::StrSliceExecFns;
use vstd::string::StringExecFns;

verus! {

/// The needle `n` occurs in `h` starting at position `i`.
pub open spec fn matches_at(h: Seq<char>, n: Seq<char>, i: int) -> bool {
    0 <= i && i + n.len() <= h.len() && h.subrange(i, i + n.len() as int) == n
}

/// The needle `n` occurs somewhere in `h`.
pub open spec fn contains_seq(h: Seq<char>, n: Seq<char>) -> bool {
    exists|i: int| matches_at(h, n, i)
}

/// Character-by-character test of one candidate position.
pub fn match_at(h: &str, n: &str, i: usize) -> (r: bool)
    requires
        i + n@.len() <= h@.len(),
    ensures
        r == matches_at(h@, n@, i as int),
{
    let h_len = h.unicode_len();
    let n_len = n.unicode_len();
    let mut j: usize = 0;
    while j < n_len
        invariant
            0 <= j <= n_len,
            n_len == n@.len(),
            h_len == h@.len(),
            i + n_len <= h_len,
            forall|k: int| 0 <= k < j ==> h@[i + k] == n@[k],
        decreases n_len - j,
    {
        let hc = h.get_char(i + j);
        let nc = n.get_char(j);
        if hc != nc {
            proof {
                assert(h@.subrange(i as int, i + n@.len() as int)[j as int] == h@[i + j]);
            }
            return false;
        }
        j += 1;
    }
    proof {
        assert(h@.subrange(i as int, i + n@.len() as int) =~= n@);
    }
    true
}

/// Position of the leftmost occurrence of `n` in `h`, if any.
pub fn find_first(h: &str, n: &str) -> (r: Option<usize>)
    ensures
        match r {
            Some(i) => matches_at(h@, n@, i as int) && forall|j: int|
                0 <= j < i ==> !matches_at(h@, n@, j),
            None => forall|j: int| !matches_at(h@, n@, j),
        },
{
    let h_len = h.unicode_len();
    let n_len = n.unicode_len();
    if n_len > h_len {
        return None;
    }
    if n_len == 0 {
        proof {
            assert(h@.subrange(0, 0) =~= n@);
        }
        return Some(0);
    }
    let mut i: usize = 0;
    while i <= h_len - n_len
        invariant
            h_len == h@.len(),
            n_len == n@.len(),
            0 < n_len <= h_len,
            0 <= i <= h_len - n_len + 1,
            forall|j: int| 0 <= j < i ==> !matches_at(h@, n@, j),
        decreases h_len - i,
    {
        if match_at(h, n, i) {
            return Some(i);
        }
        i += 1;
    }
    None
}

/// Position of the rightmost occurrence of `n` in `h`, if any.
pub fn find_last(h: &str, n: &str) -> (r: Option<usize>)
    ensures
        match r {
            Some(i) => matches_at(h@, n@, i as int) && forall|j: int|
                i < j ==> !matches_at(h@, n@, j),
            None => forall|j: int| !matches_at(h@, n@, j),
        },
{
    let h_len = h.unicode_len();
    let n_len = n.unicode_len();
    if n_len > h_len {
        return None;
    }
    let mut i: usize = h_len - n_len;
    loop
        invariant
            h_len == h@.len(),
            n_len == n@.len(),
            n_len <= h_len,
            0 <= i <= h_len - n_len,
            forall|j: int| i < j ==> !matches_at(h@, n@, j),
        decreases i,
    {
        if match_at(h, n, i) {
            return Some(i);
        }
        if i == 0 {
            return None;
        }
        i -= 1;
    }
}

/// Whether `h` contains `n`.
pub fn contains_sub(h: &str, n: &str) -> (r: bool)
    ensures
        r == contains_seq(h@, n@),
{
    match find_first(h, n) {
        Some(i) => {
            proof {
                assert(matches_at(h@, n@, i as int));
            }
            true
        },
        None => false,
    }
}

/// Equality of two string slices, stated over their views.
pub fn str_eq(a: &str, b: &str) -> (r: bool)
    ensures
        r == (a@ == b@),
{
    let a_len = a.unicode_len();
    let b_len = b.unicode_len();
    if a_len != b_len {
        return false;
    }
    let r = match_at(a, b, 0);
    proof {
        assert(a@.subrange(0, a@.len() as int) =~= a@);
    }
    r
}

/// Result of replacing every leftmost, non-overlapping occurrence of `pat`
/// in `s` by `rep`, scanning left to right.
pub open spec fn spec_replace(s: Seq<char>, pat: Seq<char>, rep: Seq<char>) -> Seq<char>
    recommends
        pat.len() > 0,
    decreases s.len(),
{
    if pat.len() == 0 || s.len() < pat.len() {
        s
    } else if s.subrange(0, pat.len() as int) == pat {
        rep + spec_replace(s.skip(pat.len() as int), pat, rep)
    } else {
        seq![s[0]] + spec_replace(s.skip(1), pat, rep)
    }
}

/// Leftmost, non-overlapping replacement of `pat` by `rep` throughout `s`.
pub fn replace_all(s: &str, pat: &str, rep: &str) -> (r: String)
    requires
        pat@.len() > 0,
    ensures
        r@ == spec_replace(s@, pat@, rep@),
    decreases s@.len(),
{
    let s_len = s.unicode_len();
    let p_len = pat.unicode_len();
    if s_len < p_len {
        String::from_str(s)
    } else if match_at(s, pat, 0) {
        let tail = s.substring_char(p_len, s_len);
        proof {
            assert(tail@ =~= s@.skip(p_len as int));
        }
        let mut r = String::from_str(rep);
        let rest = replace_all(tail, pat, rep);
        r.append(rest.as_str());
        r
    } else {
        let head = s.substring_char(0, 1);
        let tail = s.substring_char(1, s_len);
        proof {
            assert(head@ =~= seq![s@[0]]);
            assert(tail@ =~= s@.skip(1));
        }
        let mut r = String::from_str(head);
        let rest = replace_all(tail, pat, rep);
        r.append(rest.as_str());
        r
    }
}

/// The suffix of `s` strictly after the last occurrence of `c`; all of `s`
/// when `c` does not occur.
pub open spec fn after_last(s: Seq<char>, c: char) -> Seq<char>
    decreases s.len(),
{
    if s.len() == 0 {
        s
    } else if s.last() == c {
        Seq::empty()
    } else {
        after_last(s.drop_last(), c).push(s.last())
    }
}

/// The prefix of `s` strictly before the last occurrence of `c`; `None` when
/// `c` does not occur.
pub open spec fn before_last(s: Seq<char>, c: char) -> Option<Seq<char>>
    decreases s.len(),
{
    if s.len() == 0 {
        None
    } else if s.last() == c {
        Some(s.drop_last())
    } else {
        before_last(s.drop_last(), c)
    }
}

fn after_last_exec(s: &str, c: char) -> (r: String)
    ensures
        r@ == after_last(s@, c),
    decreases s@.len(),
{
    let len = s.unicode_len();
    if len == 0 {
        let r = String::new();
        proof {
            assert(r@ =~= s@);
        }
        r
    } else {
        let last = s.get_char(len - 1);
        if last == c {
            String::new()
        } else {
            let init = s.substring_char(0, len - 1);
            proof {
                assert(init@ =~= s@.drop_last());
            }
            let mut r = after_last_exec(init, c);
            let last_str = s.substring_char(len - 1, len);
            r.append(last_str);
            proof {
                assert(last_str@ =~= seq![s@.last()]);
                assert(r@ =~= after_last(s@.drop_last(), c).push(s@.last()));
            }
            r
        }
    }
}

fn before_last_exec(s: &str, c: char) -> (r: Option<String>)
    ensures
        match r {
            Some(p) => before_last(s@, c) == Some(p@),
            None => before_last(s@, c) is None,
        },
    decreases s@.len(),
{
    let len = s.unicode_len();
    if len == 0 {
        None
    } else {
        let last = s.get_char(len - 1);
        let init = s.substring_char(0, len - 1);
        proof {
            assert(init@ =~= s@.drop_last());
        }
        if last == c {
            Some(String::from_str(init))
        } else {
            before_last_exec(init, c)
        }
    }
}

/// The stem of the last path component of `p`: everything after the last
/// `/`, with the extension after the last `.` stripped unless the component
/// starts with that `.`. These semantics are this crate's own, fixed here
/// once: a path whose last component is empty (empty path, or a trailing
/// `/`) has no stem and gives `None`, and a component of dots keeps
/// everything before its final dot (`..` gives `.`); no normalization of
/// the directory part is attempted.
pub open spec fn spec_file_stem(p: Seq<char>) -> Option<Seq<char>> {
    let name = after_last(p, '/');
    if name.len() == 0 {
        None
    } else {
        match before_last(name, '.') {
            Some(st) => if st.len() > 0 {
                Some(st)
            } else {
                Some(name)
            },
            None => Some(name),
        }
    }
}

/// Stem of the last path component, as `spec_file_stem` describes.
pub fn file_stem(p: &str) -> (r: Option<String>)
    ensures
        match r {
            Some(st) => spec_file_stem(p@) == Some(st@),
            None => spec_file_stem(p@) is None,
        },
{
    let name = after_last_exec(p, '/');
    if name.unicode_len() == 0 {
        return None;
    }
    match before_last_exec(name.as_str(), '.') {
        Some(st) => {
            if st.unicode_len() > 0 {
                Some(st)
            } else {
                Some(name)
            }
        },
        None => Some(name),
    }
}

/// The character standing for a single decimal digit.
pub open spec fn spec_digit(d: int) -> char {
    if d == 0 {
        '0'
    } else if d == 1 {
        '1'
    } else if d == 2 {
        '2'
    } else if d == 3 {
        '3'
    } else if d == 4 {
        '4'
    } else if d == 5 {
        '5'
    } else if d == 6 {
        '6'
    } else if d == 7 {
        '7'
    } else if d == 8 {
        '8'
    } else {
        '9'
    }
}

/// Usual decimal rendering of a non-negative integer, no sign, no leading
/// zeros (a lone zero for 0).
pub open spec fn spec_dec(n: int) -> Seq<char>
    recommends
        n >= 0,
    decreases n,
{
    if n < 10 {
        seq![spec_digit(n)]
    } else {
        spec_dec(n / 10).push(spec_digit(n % 10))
    }
}

fn digit_str(d: u64) -> (r: &'static str)
    requires
        d < 10,
    ensures
        r@ == seq![spec_digit(d as int)],
{
    proof {
        reveal_strlit("0");
        reveal_strlit("1");
        reveal_strlit("2");
        reveal_strlit("3");
        reveal_strlit("4");
        reveal_strlit("5");
        reveal_strlit("6");
        reveal_strlit("7");
        reveal_strlit("8");
        reveal_strlit("9");
    }
    let r = if d == 0 {
        "0"
    } else if d == 1 {
        "1"
    } else if d == 2 {
        "2"
    } else if d == 3 {
        "3"
    } else if d == 4 {
        "4"
    } else if d == 5 {
        "5"
    } else if d == 6 {
        "6"
    } else if d == 7 {
        "7"
    } else if d == 8 {
        "8"
    } else {
        "9"
    };
    proof {
        assert(r@ =~= seq![spec_digit(d as int)]);
    }
    r
}

/// Decimal rendering of `n`.
pub fn u64_to_dec(n: u64) -> (r: String)
    ensures
        r@ == spec_dec(n as int),
    decreases n,
{
    if n < 10 {
        String::from_str(digit_str(n))
    } else {
        let mut r = u64_to_dec(n / 10);
        r.append(digit_str(n % 10));
        proof {
            assert(r@ =~= spec_dec((n / 10) as int).push(spec_digit((n % 10) as int)));
        }
        r
    }
}

/// First value bound to the key `k` in the association list `m`, scanning
/// front to back.
pub open spec fn assoc_find(m: Seq<(String, String)>, k: Seq<char>) -> Option<Seq<char>>
    decreases m.len(),
{
    if m.len() == 0 {
        None
    } else if m[0].0@ == k {
        Some(m[0].1@)
    } else {
        assoc_find(m.drop_first(), k)
    }
}

/// Front-to-back lookup of `k` among the pairs of `m`.
pub fn assoc_lookup<'a>(m: &'a Vec<(String, String)>, k: &str) -> (r: Option<&'a String>)
    ensures
        match r {
            Some(v) => assoc_find(m@, k@) == Some(v@),
            None => assoc_find(m@, k@) is None,
        },
{
    proof {
        assert(m@.skip(0) =~= m@);
    }
    let mut i: usize = 0;
    while i < m.len()
        invariant
            0 <= i <= m@.len(),
            assoc_find(m@, k@) == assoc_find(m@.skip(i as int), k@),
        decreases m@.len() - i,
    {
        proof {
            assert(m@.skip(i as int).drop_first() =~= m@.skip(i + 1));
            assert(m@.skip(i as int)[0] == m@[i as int]);
        }
        if str_eq(m[i].0.as_str(), k) {
            return Some(&m[i].1);
        }
        i += 1;
    }
    None
}

} // verus!
