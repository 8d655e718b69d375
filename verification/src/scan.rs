//! Character-level scanning primitives shared by the URL and mention parsers:
//! digit runs, decimal values with their overflow behaviour, and prefix
//! matching over unicode strings.

use vstd::prelude::*;

verus! {

/// An ASCII decimal digit.
pub open spec fn is_digit(c: char) -> bool {
    '0' <= c && c <= '9'
}

/// The value of one digit character.
pub open spec fn digit_value(c: char) -> nat
    recommends
        is_digit(c),
{
    (c as int - '0' as int) as nat
}

/// The value of a digit sequence read in base ten; an empty sequence reads as
/// zero.
pub open spec fn dec_value(s: Seq<char>) -> nat
    decreases s.len(),
{
    if s.len() == 0 {
        0
    } else {
        dec_value(s.drop_last()) * 10 + digit_value(s.last())
    }
}

/// The end of the digit run that starts at `i`: the first position at or
/// after `i` that is past the end or holds a non-digit.
pub open spec fn digit_run_end(s: Seq<char>, i: int) -> int
    decreases s.len() - i,
{
    if 0 <= i < s.len() && is_digit(s[i]) {
        digit_run_end(s, i + 1)
    } else {
        i
    }
}

/// The digit run is a run of digits ending at the first non-digit.
pub proof fn lemma_digit_run_end(s: Seq<char>, i: int)
    requires
        0 <= i <= s.len(),
    ensures
        i <= digit_run_end(s, i) <= s.len(),
        forall|j: int| i <= j < digit_run_end(s, i) ==> is_digit(#[trigger] s[j]),
        digit_run_end(s, i) < s.len() ==> !is_digit(s[digit_run_end(s, i)]),
    decreases s.len() - i,
{
    if 0 <= i < s.len() && is_digit(s[i]) {
        lemma_digit_run_end(s, i + 1);
    }
}

/// A longer digit sequence never reads as a smaller value: the value of a
/// prefix is at most the value of the whole.
pub proof fn lemma_dec_value_prefix(s: Seq<char>, k: int)
    requires
        0 <= k <= s.len(),
    ensures
        dec_value(s.take(k)) <= dec_value(s),
    decreases s.len(),
{
    if k < s.len() {
        lemma_dec_value_prefix(s.drop_last(), k);
        assert(s.drop_last().take(k) =~= s.take(k));
        assert(dec_value(s.drop_last()) * 10 >= dec_value(s.drop_last())) by (nonlinear_arith);
    } else {
        assert(s.take(k) =~= s);
    }
}

/// Whether `p` occurs in `s` starting at `i`.
pub open spec fn prefix_at(s: Seq<char>, p: Seq<char>, i: int) -> bool {
    0 <= i && i + p.len() <= s.len() && s.subrange(i, i + p.len()) == p
}

/// Whether the characters of `p` stand in `s` from position `i` on.
pub fn has_prefix_at(s: &str, p: &str, i: usize) -> (r: bool)
    ensures
        r == prefix_at(s@, p@, i as int),
{
    let n = s.unicode_len();
    let m = p.unicode_len();
    if n < m || i > n - m {
        proof {
            assert(i + p@.len() > s@.len());
        }
        return false;
    }
    let mut j: usize = 0;
    while j < m
        invariant
            0 <= j <= m,
            n == s@.len(),
            m == p@.len(),
            i + m <= n,
            forall|k: int| 0 <= k < j ==> s@[i + k] == p@[k],
        decreases m - j,
    {
        if s.get_char(i + j) != p.get_char(j) {
            proof {
                assert(s@.subrange(i as int, i + p@.len())[j as int] != p@[j as int]);
            }
            return false;
        }
        j += 1;
    }
    proof {
        assert(s@.subrange(i as int, i + p@.len()) =~= p@);
    }
    true
}

/// The end of the digit run of `s` that starts at `i`.
pub fn digit_run_end_exec(s: &str, i: usize, n: usize) -> (r: usize)
    requires
        n == s@.len(),
        i <= n,
    ensures
        r == digit_run_end(s@, i as int),
        i <= r <= n,
{
    let mut j: usize = i;
    while j < n
        invariant
            i <= j <= n,
            n == s@.len(),
            digit_run_end(s@, i as int) == digit_run_end(s@, j as int),
        decreases n - j,
    {
        let c = s.get_char(j);
        if !('0' <= c && c <= '9') {
            proof {
                lemma_digit_run_end(s@, j as int);
            }
            return j;
        }
        j += 1;
    }
    proof {
        lemma_digit_run_end(s@, j as int);
    }
    j
}

/// Reads the digit run `s[start..end]` as a decimal number. `None` exactly
/// when the value does not fit an unsigned 64-bit integer.
pub fn parse_digit_run(s: &str, start: usize, end: usize, n: usize) -> (r: Option<u64>)
    requires
        n == s@.len(),
        start <= end <= n,
        forall|j: int| start <= j < end ==> is_digit(#[trigger] s@[j]),
    ensures
        match r {
            Some(v) => v as nat == dec_value(s@.subrange(start as int, end as int)),
            None => dec_value(s@.subrange(start as int, end as int)) > u64::MAX,
        },
{
    let ghost whole = s@.subrange(start as int, end as int);
    let mut acc: u64 = 0;
    let mut j: usize = start;
    proof {
        assert(s@.subrange(start as int, start as int) =~= Seq::<char>::empty());
    }
    while j < end
        invariant
            start <= j <= end,
            end <= n,
            n == s@.len(),
            whole == s@.subrange(start as int, end as int),
            forall|k: int| start <= k < end ==> is_digit(#[trigger] s@[k]),
            acc as nat == dec_value(s@.subrange(start as int, j as int)),
        decreases end - j,
    {
        let c = s.get_char(j);
        proof {
            assert(is_digit(s@[j as int]));
        }
        let d: u64 = (c as u32 - 48) as u64;
        proof {
            assert(d as nat == digit_value(c));
            assert(s@.subrange(start as int, j + 1).drop_last() =~= s@.subrange(
                start as int,
                j as int,
            ));
            assert(s@.subrange(start as int, j + 1).last() == c);
        }
        let step = match acc.checked_mul(10) {
            Some(t) => t.checked_add(d),
            None => None,
        };
        match step {
            Some(next) => {
                acc = next;
            },
            None => {
                proof {
                    assert(dec_value(s@.subrange(start as int, j + 1)) > u64::MAX);
                    lemma_dec_value_prefix(whole, j + 1 - start);
                    assert(whole.take(j + 1 - start) =~= s@.subrange(start as int, j + 1));
                }
                return None;
            },
        }
        j += 1;
    }
    Some(acc)
}

} // verus!
