//! Substring search and splitting over character sequences, for the textual
//! encodings the platform uses (the build-settings environment string, the
//! linker flag extraction).

use vstd::prelude::*;
use vstd::string::StrSliceExecFns;
use vstd::string::StringExecFns;

verus! {

/// The position of the first occurrence of `pat` in `s`; an empty pattern
/// occurs at the start.
pub open spec fn spec_find_sub(s: Seq<char>, pat: Seq<char>) -> Option<int>
    decreases s.len(),
{
    if pat.len() == 0 {
        Some(0int)
    } else if s.len() < pat.len() {
        None
    } else if s.take(pat.len() as int) == pat {
        Some(0int)
    } else {
        match spec_find_sub(s.skip(1), pat) {
            Some(i) => Some(i + 1),
            None => None,
        }
    }
}

/// Whether `pat` occurs in `s` starting at `p`.
pub open spec fn occurs_at(s: Seq<char>, pat: Seq<char>, p: int) -> bool {
    0 <= p && p + pat.len() <= s.len() && s.subrange(p, p + pat.len()) == pat
}

/// What a find result means: the first position `pat` occurs at, or a miss
/// exactly when it occurs nowhere.
pub proof fn lemma_find_sub_characterization(s: Seq<char>, pat: Seq<char>)
    ensures
        match spec_find_sub(s, pat) {
            Some(i) => occurs_at(s, pat, i) && (forall|p: int| 0 <= p < i ==> !occurs_at(s, pat, p)),
            None => forall|p: int| !occurs_at(s, pat, p),
        },
    decreases s.len(),
{
    if pat.len() == 0 {
        assert(s.subrange(0, 0) =~= pat);
    } else if s.len() < pat.len() {
        assert forall|p: int| !occurs_at(s, pat, p) by {}
    } else if s.take(pat.len() as int) == pat {
        assert(s.subrange(0, pat.len() as int) =~= s.take(pat.len() as int));
    } else {
        lemma_find_sub_characterization(s.skip(1), pat);
        assert(!occurs_at(s, pat, 0)) by {
            assert(s.subrange(0, pat.len() as int) =~= s.take(pat.len() as int));
        }
        assert forall|p: int|
            1 <= p && p + pat.len() <= s.len() implies occurs_at(s, pat, p) == occurs_at(
            s.skip(1),
            pat,
            p - 1,
        ) by {
            assert(s.skip(1).subrange(p - 1, p - 1 + pat.len()) =~= s.subrange(p, p + pat.len()));
        }
    }
}

/// The converse: an occurrence behind only non-occurrences is what the find
/// returns.
pub proof fn lemma_find_sub_complete(s: Seq<char>, pat: Seq<char>, i: int)
    requires
        occurs_at(s, pat, i),
        forall|p: int| 0 <= p < i ==> !occurs_at(s, pat, p),
    ensures
        spec_find_sub(s, pat) == Some(i),
{
    lemma_find_sub_characterization(s, pat);
}

/// Whether `pat` matches `s` at position `p`, character by character.
fn match_at(s: &str, pat: &str, p: usize) -> (r: bool)
    requires
        p + pat@.len() <= s@.len(),
    ensures
        r == occurs_at(s@, pat@, p as int),
{
    let n = s.unicode_len();
    let m = pat.unicode_len();
    let mut j: usize = 0;
    while j < m
        invariant
            n == s@.len(),
            m == pat@.len(),
            p + m <= n,
            j <= m,
            forall|t: int| 0 <= t < j ==> s@[p + t] == pat@[t],
        decreases m - j,
    {
        if s.get_char(p + j) != pat.get_char(j) {
            proof {
                assert(s@.subrange(p as int, p + pat@.len())[j as int] == s@[p + j]);
            }
            return false;
        }
        j = j + 1;
    }
    proof {
        assert(s@.subrange(p as int, p + pat@.len()) =~= pat@);
    }
    true
}

/// Find the first occurrence of `pat` in `s`, as a character position.
pub fn find_sub(s: &str, pat: &str) -> (r: Option<usize>)
    requires
        pat@.len() >= 1,
    ensures
        match r {
            Some(i) => spec_find_sub(s@, pat@) == Some(i as int),
            None => spec_find_sub(s@, pat@) is None,
        },
{
    let n = s.unicode_len();
    let m = pat.unicode_len();
    if m > n {
        proof {
            lemma_find_sub_characterization(s@, pat@);
            if spec_find_sub(s@, pat@) is Some {
                let i = spec_find_sub(s@, pat@)->Some_0;
                assert(occurs_at(s@, pat@, i));
            }
        }
        return None;
    }
    let mut p: usize = 0;
    while p <= n - m
        invariant
            s@.len() == n,
            pat@.len() == m,
            1 <= m <= n,
            p <= n - m + 1,
            forall|q: int| 0 <= q < p ==> !occurs_at(s@, pat@, q),
        decreases n - p,
    {
        if match_at(s, pat, p) {
            proof {
                lemma_find_sub_complete(s@, pat@, p as int);
            }
            return Some(p);
        }
        p = p + 1;
    }
    proof {
        lemma_find_sub_characterization(s@, pat@);
        if spec_find_sub(s@, pat@) is Some {
            let i = spec_find_sub(s@, pat@)->Some_0;
            assert(occurs_at(s@, pat@, i));
        }
    }
    None
}

/// Whether `s` begins with `pre`.
pub fn starts_with(s: &str, pre: &str) -> (r: bool)
    ensures
        r == (s@.len() >= pre@.len() && s@.take(pre@.len() as int) == pre@),
{
    let n = s.unicode_len();
    let m = pre.unicode_len();
    if m > n {
        return false;
    }
    let r = match_at(s, pre, 0);
    proof {
        assert(s@.subrange(0, pre@.len() as int) =~= s@.take(pre@.len() as int));
    }
    r
}

/// Whether `s` ends with `suf`.
pub fn ends_with(s: &str, suf: &str) -> (r: bool)
    ensures
        r == (s@.len() >= suf@.len() && s@.skip(s@.len() - suf@.len()) == suf@),
{
    let n = s.unicode_len();
    let m = suf.unicode_len();
    if m > n {
        return false;
    }
    let r = match_at(s, suf, n - m);
    proof {
        assert(s@.subrange(s@.len() - suf@.len(), s@.len() - suf@.len() + suf@.len()) =~= s@.skip(
            s@.len() - suf@.len(),
        ));
    }
    r
}

/// Whether two strings hold the same characters.
pub fn eq_str(s: &str, t: &str) -> (r: bool)
    ensures
        r == (s@ == t@),
{
    let n = s.unicode_len();
    let m = t.unicode_len();
    if n != m {
        return false;
    }
    let r = match_at(s, t, 0);
    proof {
        assert(s@.subrange(0, t@.len() as int) =~= s@);
    }
    r
}

/// The position of the last occurrence of `c` in `s`.
pub open spec fn spec_rfind_char(s: Seq<char>, c: char) -> Option<int>
    decreases s.len(),
{
    if s.len() == 0 {
        None
    } else if s.last() == c {
        Some(s.len() - 1)
    } else {
        spec_rfind_char(s.drop_last(), c)
    }
}

/// What an rfind result means: the last position carrying `c`, or a miss
/// exactly when no position does.
pub proof fn lemma_rfind_char_characterization(s: Seq<char>, c: char)
    ensures
        match spec_rfind_char(s, c) {
            Some(i) => 0 <= i < s.len() && s[i] == c && (forall|j: int|
                i < j < s.len() ==> s[j] != c),
            None => forall|j: int| 0 <= j < s.len() ==> s[j] != c,
        },
    decreases s.len(),
{
    if s.len() > 0 && s.last() != c {
        lemma_rfind_char_characterization(s.drop_last(), c);
        assert forall|j: int| 0 <= j < s.len() - 1 implies s.drop_last()[j] == s[j] by {}
    }
}

proof fn lemma_rfind_char_complete(s: Seq<char>, c: char, i: int)
    requires
        0 <= i < s.len(),
        s[i] == c,
        forall|j: int| i < j < s.len() ==> s[j] != c,
    ensures
        spec_rfind_char(s, c) == Some(i),
{
    lemma_rfind_char_characterization(s, c);
}

/// Find the last occurrence of `c` in `s`, as a character position.
pub fn rfind_char(s: &str, c: char) -> (r: Option<usize>)
    ensures
        match r {
            Some(i) => spec_rfind_char(s@, c) == Some(i as int),
            None => spec_rfind_char(s@, c) is None,
        },
{
    let n = s.unicode_len();
    let mut i: usize = n;
    while i > 0
        invariant
            n == s@.len(),
            i <= n,
            forall|j: int| i <= j < n ==> s@[j] != c,
        decreases i,
    {
        i = i - 1;
        if s.get_char(i) == c {
            proof {
                lemma_rfind_char_complete(s@, c, i as int);
            }
            return Some(i);
        }
    }
    proof {
        lemma_rfind_char_characterization(s@, c);
        if spec_rfind_char(s@, c) is Some {
            let w = spec_rfind_char(s@, c)->Some_0;
            assert(s@[w] == c);
        }
    }
    None
}

/// `s` split on every occurrence of `pat`, scanning left to right; the
/// separators themselves are dropped. An empty pattern leaves `s` whole.
pub open spec fn spec_split(s: Seq<char>, pat: Seq<char>) -> Seq<Seq<char>>
    decreases s.len(),
{
    if pat.len() == 0 {
        seq![s]
    } else {
        match spec_find_sub(s, pat) {
            None => seq![s],
            Some(i) => if 0 <= i && i + pat.len() <= s.len() {
                seq![s.take(i)] + spec_split(s.skip(i + pat.len()), pat)
            } else {
                seq![s]
            },
        }
    }
}

proof fn lemma_find_sub_in_range(s: Seq<char>, pat: Seq<char>)
    ensures
        spec_find_sub(s, pat) matches Some(i) ==> 0 <= i && i + pat.len() <= s.len(),
{
    lemma_find_sub_characterization(s, pat);
}

/// Split `s` on every occurrence of `pat`.
pub fn split_by(s: &String, pat: &str) -> (r: Vec<String>)
    requires
        pat@.len() >= 1,
    ensures
        crate::imports::names_view(r@) == spec_split(s@, pat@),
{
    let mut out: Vec<String> = Vec::new();
    let mut rest: String = s.clone();
    let ghost whole = s@;
    proof {
        assert(crate::imports::names_view(Seq::<String>::empty()) =~= Seq::<Seq<char>>::empty());
        assert(Seq::<Seq<char>>::empty() + spec_split(whole, pat@) =~= spec_split(whole, pat@));
    }
    loop
        invariant
            pat@.len() >= 1,
            whole == s@,
            crate::imports::names_view(out@) + spec_split(rest@, pat@) == spec_split(whole, pat@),
        decreases rest@.len(),
    {
        match find_sub(rest.as_str(), pat) {
            None => {
                let ghost pre = out@;
                let ghost rest_v = rest@;
                out.push(rest);
                proof {
                    assert(spec_split(rest_v, pat@) == seq![rest_v]);
                    assert(crate::imports::names_view(out@) =~= crate::imports::names_view(pre)
                        + seq![rest_v]);
                }
                return out;
            },
            Some(i) => {
                proof {
                    lemma_find_sub_in_range(rest@, pat@);
                }
                let pat_len = pat.unicode_len();
                let rest_len = rest.as_str().unicode_len();
                let head = rest.as_str().substring_char(0, i).to_owned();
                let tail = rest.as_str().substring_char(i + pat_len, rest_len).to_owned();
                let ghost pre = out@;
                let ghost pre_rest = rest@;
                out.push(head);
                rest = tail;
                proof {
                    assert(pre_rest.take(i as int) =~= pre_rest.subrange(0, i as int));
                    assert(pre_rest.skip(i + pat@.len()) =~= pre_rest.subrange(
                        i + pat@.len(),
                        pre_rest.len() as int,
                    ));
                    assert(spec_split(pre_rest, pat@) == seq![pre_rest.take(i as int)]
                        + spec_split(pre_rest.skip(i + pat@.len()), pat@));
                    assert(crate::imports::names_view(out@) =~= crate::imports::names_view(pre)
                        + seq![pre_rest.take(i as int)]);
                    assert(crate::imports::names_view(pre) + (seq![pre_rest.take(i as int)]
                        + spec_split(rest@, pat@)) =~= (crate::imports::names_view(pre) + seq![
                        pre_rest.take(i as int),
                    ]) + spec_split(rest@, pat@));
                }
            },
        }
    }
}

/// The character of one decimal digit.
pub open spec fn spec_digit(d: nat) -> char {
    if d == 0 {
        '0'
    } else if d == 1 {
        '1'
    } else if d == 2 {
        '2'
    } else if d == 3 {
        '3'
    } else if d == 4 {
        '4'
    } else if d == 5 {
        '5'
    } else if d == 6 {
        '6'
    } else if d == 7 {
        '7'
    } else if d == 8 {
        '8'
    } else {
        '9'
    }
}

/// The decimal rendering of a number, most significant digit first.
pub open spec fn spec_decimal(n: nat) -> Seq<char>
    decreases n,
{
    if n < 10 {
        seq![spec_digit(n)]
    } else {
        spec_decimal(n / 10) + seq![spec_digit(n % 10)]
    }
}

fn digit_str(d: u32) -> (r: &'static str)
    requires
        d < 10,
    ensures
        r@ == seq![spec_digit(d as nat)],
{
    proof {
        reveal_strlit("0");
        reveal_strlit("1");
        reveal_strlit("2");
        reveal_strlit("3");
        reveal_strlit("4");
        reveal_strlit("5");
        reveal_strlit("6");
        reveal_strlit("7");
        reveal_strlit("8");
        reveal_strlit("9");
        assert("0"@ =~= seq!['0']);
        assert("1"@ =~= seq!['1']);
        assert("2"@ =~= seq!['2']);
        assert("3"@ =~= seq!['3']);
        assert("4"@ =~= seq!['4']);
        assert("5"@ =~= seq!['5']);
        assert("6"@ =~= seq!['6']);
        assert("7"@ =~= seq!['7']);
        assert("8"@ =~= seq!['8']);
        assert("9"@ =~= seq!['9']);
    }
    match d {
        0 => "0",
        1 => "1",
        2 => "2",
        3 => "3",
        4 => "4",
        5 => "5",
        6 => "6",
        7 => "7",
        8 => "8",
        _ => "9",
    }
}

/// Render a number in decimal.
pub fn u32_decimal(x: u32) -> (r: String)
    ensures
        r@ == spec_decimal(x as nat),
    decreases x,
{
    if x < 10 {
        digit_str(x).to_owned()
    } else {
        let mut s = u32_decimal(x / 10);
        s.append(digit_str(x % 10));
        s
    }
}

} // verus!
