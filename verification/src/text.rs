//! Character-level string helpers with exact specifications.

use vstd::prelude::*;
use vstd::string::*;

verus! {

/// Whether `pat` occurs in `s` starting at index `i`.
pub open spec fn occurs_at(s: Seq<char>, pat: Seq<char>, i: int) -> bool {
    &&& 0 <= i
    &&& i + pat.len() <= s.len()
    &&& s.subrange(i, i + pat.len()) == pat
}

/// The first index at or after `i` where `pat` occurs in `s`.
pub open spec fn find_from(s: Seq<char>, pat: Seq<char>, i: int) -> Option<int>
    decreases s.len() - i,
{
    if i < 0 || i + pat.len() > s.len() {
        None
    } else if occurs_at(s, pat, i) {
        Some(i)
    } else if i >= s.len() {
        None
    } else {
        find_from(s, pat, i + 1)
    }
}

/// The first index where `pat` occurs in `s`, as `str::find` reports it.
pub open spec fn find_first(s: Seq<char>, pat: Seq<char>) -> Option<int> {
    find_from(s, pat, 0)
}

/// Whether `s` begins with `prefix`.
pub open spec fn has_prefix(s: Seq<char>, prefix: Seq<char>) -> bool {
    prefix.len() <= s.len() && s.subrange(0, prefix.len() as int) == prefix
}

/// The decimal digit that stands for `d`.
pub open spec fn digit_char(d: nat) -> char {
    if d == 0 { '0' }
    else if d == 1 { '1' }
    else if d == 2 { '2' }
    else if d == 3 { '3' }
    else if d == 4 { '4' }
    else if d == 5 { '5' }
    else if d == 6 { '6' }
    else if d == 7 { '7' }
    else if d == 8 { '8' }
    else { '9' }
}

/// The decimal representation of `n`, without leading zeros.
pub open spec fn decimal(n: nat) -> Seq<char>
    decreases n,
{
    if n < 10 {
        seq![digit_char(n)]
    } else {
        decimal(n / 10).push(digit_char(n % 10))
    }
}

/// Appends one character to a string: `String::push`, which the contract
/// claims adds exactly `c` at the end.
#[verifier::external_body]
pub(crate) fn push_char(s: &mut String, c: char)
    ensures
        final(s)@ == old(s)@.push(c),
{
    s.push(c)
}

fn digit(d: u64) -> (c: char)
    requires
        d < 10,
    ensures
        c == digit_char(d as nat),
{
    match d {
        0 => '0',
        1 => '1',
        2 => '2',
        3 => '3',
        4 => '4',
        5 => '5',
        6 => '6',
        7 => '7',
        8 => '8',
        _ => '9',
    }
}

/// Appends the decimal representation of `n` to `s`.
pub fn push_decimal(s: &mut String, n: u64)
    ensures
        final(s)@ == old(s)@ + decimal(n as nat),
    decreases n,
{
    if n < 10 {
        push_char(s, digit(n));
        assert(decimal(n as nat) == seq![digit_char(n as nat)]);
        assert(old(s)@.push(digit_char(n as nat)) =~= old(s)@ + seq![digit_char(n as nat)]);
    } else {
        push_decimal(s, n / 10);
        push_char(s, digit(n % 10));
        assert(final(s)@ =~= old(s)@ + decimal(n as nat)) by {
            assert(decimal(n as nat) == decimal((n / 10) as nat).push(digit_char((n % 10) as nat)));
        }
    }
}

/// Whether `pat` occurs in `s` at char index `i`.
pub fn matches_at(s: &str, pat: &str, i: usize) -> (r: bool)
    ensures
        r == occurs_at(s@, pat@, i as int),
{
    let n = s.unicode_len();
    let m = pat.unicode_len();
    if m > n || i > n - m {
        return false;
    }
    let mut j: usize = 0;
    while j < m
        invariant
            n == s@.len(),
            m == pat@.len(),
            i + m <= n,
            j <= m,
            forall|k: int| 0 <= k < j ==> s@[i + k] == pat@[k],
        decreases m - j,
    {
        if s.get_char(i + j) != pat.get_char(j) {
            assert(s@.subrange(i as int, i + m)[j as int] != pat@[j as int]);
            return false;
        }
        j = j + 1;
    }
    assert(s@.subrange(i as int, i + m) =~= pat@);
    true
}

/// The char index of the first occurrence of `pat` in `s` (`str::find`).
pub fn find_str(s: &str, pat: &str) -> (r: Option<usize>)
    ensures
        r matches Some(i) ==> find_first(s@, pat@) == Some(i as int),
        r is None ==> find_first(s@, pat@) is None,
{
    let n = s.unicode_len();
    let m = pat.unicode_len();
    if m > n {
        return None;
    }
    if m == 0 {
        assert(occurs_at(s@, pat@, 0)) by {
            assert(s@.subrange(0, 0) =~= pat@);
        }
        return Some(0);
    }
    let mut i: usize = 0;
    while i <= n - m
        invariant
            n == s@.len(),
            m == pat@.len(),
            0 < m <= n,
            i <= n - m + 1,
            find_first(s@, pat@) == find_from(s@, pat@, i as int),
        decreases n - m + 1 - i,
    {
        if matches_at(s, pat, i) {
            return Some(i);
        }
        i = i + 1;
    }
    None
}

/// Whether `s` begins with `prefix` (`str::starts_with`).
pub fn starts_with(s: &str, prefix: &str) -> (r: bool)
    ensures
        r == has_prefix(s@, prefix@),
{
    matches_at(s, prefix, 0)
}

/// The concatenation of `a` and `b`.
pub fn concat_str(a: &str, b: &str) -> (r: String)
    ensures
        r@ == a@ + b@,
{
    let mut r = a.to_owned();
    r.append(b);
    r
}

/// A match that `find_from` reports lies inside the string.
pub proof fn lemma_find_from_in_range(s: Seq<char>, pat: Seq<char>, i: int)
    ensures
        find_from(s, pat, i) matches Some(j) ==> i <= j && j + pat.len() <= s.len() && occurs_at(
            s,
            pat,
            j,
        ),
    decreases s.len() - i,
{
    if i < 0 || i + pat.len() > s.len() {
    } else if occurs_at(s, pat, i) {
    } else if i >= s.len() {
    } else {
        lemma_find_from_in_range(s, pat, i + 1);
    }
}

/// The characters of `s`, in order.
pub fn chars_of(s: &str) -> (r: Vec<char>)
    ensures
        r@ == s@,
{
    let mut v: Vec<char> = Vec::new();
    for c in it: s.chars()
        invariant
            v@ == it.seq().take(it.index() as int),
    {
        v.push(c);
    }
    v
}

/// `l` without one trailing carriage return.
pub open spec fn strip_cr(l: Seq<char>) -> Seq<char> {
    if l.len() > 0 && l.last() == '\r' {
        l.drop_last()
    } else {
        l
    }
}

/// The lines of `s`, as `str::lines` gives them: the pieces between line
/// feeds, each without a carriage return that ends it before the line feed;
/// a line feed at the end opens no further line.
pub open spec fn spec_lines(s: Seq<char>) -> Seq<Seq<char>>
    decreases s.len(),
{
    if s.len() == 0 {
        Seq::empty()
    } else {
        match find_first(s, seq!['\n']) {
            None => seq![s],
            Some(i) => {
                proof {
                    lemma_find_from_in_range(s, seq!['\n'], 0);
                }
                seq![strip_cr(s.take(i))] + spec_lines(s.skip(i + 1))
            },
        }
    }
}

proof fn lemma_occurs_char(t: Seq<char>, c: char, k: int)
    requires
        0 <= k < t.len(),
    ensures
        occurs_at(t, seq![c], k) == (t[k] == c),
{
    assert(t.subrange(k, k + 1) =~= seq![t[k]]);
    if occurs_at(t, seq![c], k) {
        assert(t.subrange(k, k + 1)[0] == c);
    }
}

/// A character found first at `j` (searching from `a`) is reported there.
proof fn lemma_find_char(t: Seq<char>, c: char, a: int, j: int)
    requires
        0 <= a <= j < t.len(),
        t[j] == c,
        forall|k: int| a <= k < j ==> t[k] != c,
    ensures
        find_from(t, seq![c], a) == Some(j),
    decreases j - a,
{
    lemma_occurs_char(t, c, a);
    if a < j {
        lemma_find_char(t, c, a + 1, j);
    }
}

/// A character absent from `t` from `a` on is not found.
proof fn lemma_find_char_none(t: Seq<char>, c: char, a: int)
    requires
        0 <= a,
        forall|k: int| a <= k < t.len() ==> t[k] != c,
    ensures
        find_from(t, seq![c], a) is None,
    decreases t.len() - a,
{
    if a < t.len() {
        lemma_occurs_char(t, c, a);
        lemma_find_char_none(t, c, a + 1);
    }
}

/// The lines of `s` (`str::lines`).
pub fn lines_of(s: &str) -> (r: Vec<String>)
    ensures
        r@.len() == spec_lines(s@).len(),
        forall|i: int| 0 <= i < r@.len() ==> #[trigger] r@[i]@ == spec_lines(s@)[i],
{
    let cs = chars_of(s);
    let ghost t = s@;
    let mut out: Vec<String> = Vec::new();
    let ghost mut done: Seq<Seq<char>> = Seq::empty();
    let mut cur = String::new();
    let mut start: usize = 0;
    let mut i: usize = 0;
    assert(t.skip(0) =~= t);
    assert(done + spec_lines(t) =~= spec_lines(t));
    while i < cs.len()
        invariant
            cs@ == t,
            start <= i <= cs.len(),
            cur@ == t.subrange(start as int, i as int),
            forall|k: int| start <= k < i ==> t[k] != '\n',
            out@.len() == done.len(),
            forall|q: int| 0 <= q < out@.len() ==> #[trigger] out@[q]@ == done[q],
            spec_lines(t) == done + spec_lines(t.skip(start as int)),
        decreases cs.len() - i,
    {
        let c = cs[i];
        if c == '\n' {
            let ghost rest = t.skip(start as int);
            proof {
                assert forall|k: int| 0 <= k < i - start implies rest[k] != '\n' by {
                    assert(rest[k] == t[start + k]);
                }
                lemma_find_char(rest, '\n', 0, i - start);
                assert(rest.take(i - start) =~= cur@);
                assert(rest.skip(i - start + 1) =~= t.skip(i + 1));
            }
            let line = strip_last_cr(cur);
            proof {
                done = done.push(line@);
                assert(spec_lines(t) =~= done + spec_lines(t.skip(i + 1)));
            }
            out.push(line);
            cur = String::new();
            start = i + 1;
        } else {
            push_char(&mut cur, c);
            proof {
                assert(cur@ =~= t.subrange(start as int, i + 1));
            }
        }
        i = i + 1;
    }
    let ghost rest = t.skip(start as int);
    if start < cs.len() {
        proof {
            assert forall|k: int| 0 <= k < rest.len() implies rest[k] != '\n' by {
                assert(rest[k] == t[start + k]);
            }
            lemma_find_char_none(rest, '\n', 0);
            assert(rest =~= cur@);
            done = done.push(cur@);
            assert(spec_lines(t) =~= done);
        }
        out.push(cur);
    } else {
        proof {
            assert(rest.len() == 0);
            assert(spec_lines(t) =~= done);
        }
    }
    out
}

/// `s` without one trailing carriage return.
fn strip_last_cr(s: String) -> (r: String)
    ensures
        r@ == strip_cr(s@),
{
    let n = s.as_str().unicode_len();
    if n > 0 && s.as_str().get_char(n - 1) == '\r' {
        s.as_str().substring_char(0, n - 1).to_owned()
    } else {
        s
    }
}

} // verus!
