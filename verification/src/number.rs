use vstd::prelude::*;

use crate::lexer::is_digit_code;
use vstd::string::StrSliceExecFns;

verus! {

/// Whether every character of `s` is a decimal digit.
pub open spec fn all_digit_chars(s: Seq<char>) -> bool {
    forall|i: int| 0 <= i < s.len() ==> is_digit_code(#[trigger] (s[i] as u32))
}

/// The value of a digit string read in base ten.
pub open spec fn digits_value(s: Seq<char>) -> int
    decreases s.len(),
{
    if s.len() == 0 {
        0
    } else {
        digits_value(s.drop_last()) * 10 + (s.last() as u32 - 48)
    }
}

/// What a numeric literal token denotes: its value when the text is a
/// nonempty digit string whose value fits a 64-bit signed integer, and
/// nothing otherwise.
pub open spec fn str_to_i64(s: Seq<char>) -> Option<i64> {
    if s.len() > 0 && all_digit_chars(s) && digits_value(s) <= i64::MAX {
        Some(digits_value(s) as i64)
    } else {
        None
    }
}

pub proof fn lemma_digits_value_nonneg(s: Seq<char>)
    requires
        all_digit_chars(s),
    ensures
        digits_value(s) >= 0,
    decreases s.len(),
{
    if s.len() > 0 {
        assert(all_digit_chars(s.drop_last()));
        lemma_digits_value_nonneg(s.drop_last());
    }
}

/// A digit string is worth at least any of its prefixes.
pub proof fn lemma_digits_value_monotone(s: Seq<char>, k: int)
    requires
        all_digit_chars(s),
        0 <= k <= s.len(),
    ensures
        digits_value(s) >= digits_value(s.subrange(0, k)),
    decreases s.len() - k,
{
    if k < s.len() {
        let p = s.subrange(0, k);
        let q = s.subrange(0, k + 1);
        assert(q.drop_last() =~= p);
        assert(all_digit_chars(p));
        lemma_digits_value_nonneg(p);
        assert(digits_value(q) == digits_value(p) * 10 + (q.last() as u32 - 48));
        assert(q.last() == s[k]);
        assert(is_digit_code(s[k] as u32));
        assert(q.last() as u32 - 48 >= 0);
        assert(digits_value(q) >= digits_value(p));
        lemma_digits_value_monotone(s, k + 1);
    } else {
        assert(s.subrange(0, k) =~= s);
    }
}

/// Reads a numeric literal's text as a base-ten 64-bit signed integer,
/// exactly when `str_to_i64` gives it a value.
pub fn parse_integer_value(s: &str) -> (r: Option<i64>)
    ensures
        r == str_to_i64(s@),
{
    let n = s.unicode_len();
    if n == 0 {
        return None;
    }
    let mut acc: i64 = 0;
    let mut i: usize = 0;
    while i < n
        invariant
            n == s@.len(),
            0 < n,
            i <= n,
            all_digit_chars(s@.subrange(0, i as int)),
            0 <= acc,
            acc as int == digits_value(s@.subrange(0, i as int)),
        decreases n - i,
    {
        let u = s.get_char(i) as u32;
        if u < 48 || u > 57 {
            proof {
                assert(!is_digit_code(s@[i as int] as u32));
                assert(!all_digit_chars(s@));
            }
            return None;
        }
        let d = (u - 48) as i64;
        proof {
            assert(s@.subrange(0, i as int + 1).drop_last() =~= s@.subrange(0, i as int));
            assert(s@.subrange(0, i as int + 1).last() == s@[i as int]);
            assert(all_digit_chars(s@.subrange(0, i as int + 1)));
            assert(digits_value(s@.subrange(0, i as int + 1)) == (acc as int) * 10 + (
            s@[i as int] as u32 - 48));
        }
        let acc10 = match acc.checked_mul(10) {
            Some(x) => x,
            None => {
                proof {
                    overflow_means_none(s@, i as int, acc as int, 10 * (acc as int));
                }
                return None;
            },
        };
        let acc2 = match acc10.checked_add(d) {
            Some(x) => x,
            None => {
                proof {
                    overflow_means_none(s@, i as int, acc as int, (acc10 as int) + (d as int));
                }
                return None;
            },
        };
        acc = acc2;
        i = i + 1;
    }
    proof {
        assert(s@.subrange(0, n as int) =~= s@);
    }
    Some(acc)
}

/// When the running value exceeds the 64-bit range at some digit, the whole
/// literal has no value: either a later character is no digit, or the full
/// digit string is worth at least the already-too-large prefix.
proof fn overflow_means_none(s: Seq<char>, i: int, acc: int, next: int)
    requires
        0 <= i < s.len(),
        all_digit_chars(s.subrange(0, i)),
        is_digit_code(s[i] as u32),
        acc == digits_value(s.subrange(0, i)),
        0 <= acc,
        next > i64::MAX,
        next <= digits_value(s.subrange(0, i + 1)),
    ensures
        str_to_i64(s) is None,
{
    assert(s.subrange(0, i + 1).drop_last() =~= s.subrange(0, i));
    assert(all_digit_chars(s.subrange(0, i + 1)));
    if all_digit_chars(s) {
        lemma_digits_value_monotone(s, i + 1);
    }
}

} // verus!
