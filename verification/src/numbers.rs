//! Parsing a signed decimal integer from text, exactly as `i32` reads one: an
//! optional sign, then one or more ASCII digits, rejected on any other
//! character and on overflow.

use vstd::prelude::*;

verus! {

/// Whether `c` is an ASCII decimal digit.
pub open spec fn is_digit_char(c: char) -> bool {
    0x30 <= c as u32 && c as u32 <= 0x39
}

/// The numeric value of a digit character.
pub open spec fn digit_val(c: char) -> int {
    c as u32 - 0x30
}

/// The value of a digit string read in base ten.
pub open spec fn digits_val(s: Seq<char>) -> int
    decreases s.len(),
{
    if s.len() == 0 {
        0
    } else {
        digits_val(s.drop_last()) * 10 + digit_val(s.last())
    }
}

pub open spec fn all_digits(s: Seq<char>) -> bool {
    forall|i: int| 0 <= i < s.len() ==> is_digit_char(s[i])
}

/// What parsing `s` as an `i32` yields: an optional `+` or `-`, then at least
/// one digit and nothing else, and a value within the `i32` range; `None` on
/// any other shape.
pub open spec fn parse_i32_spec(s: Seq<char>) -> Option<int> {
    let signed = s.len() > 0 && (s[0] == '+' || s[0] == '-');
    let neg = s.len() > 0 && s[0] == '-';
    let ds = if signed {
        s.drop_first()
    } else {
        s
    };
    if ds.len() > 0 && all_digits(ds) {
        let v = if neg {
            -digits_val(ds)
        } else {
            digits_val(ds)
        };
        if -0x8000_0000 <= v && v <= 0x7fff_ffff {
            Some(v)
        } else {
            None
        }
    } else {
        None
    }
}

pub proof fn lemma_digits_val_nonneg(s: Seq<char>)
    requires
        all_digits(s),
    ensures
        digits_val(s) >= 0,
    decreases s.len(),
{
    if s.len() > 0 {
        assert forall|i: int| 0 <= i < s.drop_last().len() implies is_digit_char(
            s.drop_last()[i],
        ) by {
            assert(s.drop_last()[i] == s[i]);
        }
        lemma_digits_val_nonneg(s.drop_last());
    }
}

/// A digit string is worth at least any of its prefixes.
pub proof fn lemma_digits_val_prefix(s: Seq<char>, k: int)
    requires
        all_digits(s),
        0 <= k <= s.len(),
    ensures
        digits_val(s.take(k)) <= digits_val(s),
    decreases s.len() - k,
{
    if k < s.len() {
        assert(s.take(k + 1).drop_last() =~= s.take(k));
        assert(s.take(k + 1).last() == s[k]);
        assert forall|i: int| 0 <= i < s.take(k).len() implies is_digit_char(s.take(k)[i]) by {
            assert(s.take(k)[i] == s[i]);
        }
        lemma_digits_val_nonneg(s.take(k));
        assert(digits_val(s.take(k + 1)) >= digits_val(s.take(k)));
        lemma_digits_val_prefix(s, k + 1);
    } else {
        assert(s.take(k) =~= s);
    }
}

/// Parses `s` as an `i32`, exactly as `str::parse::<i32>` would.
#[verifier::rlimit(50)]
pub fn parse_i32(s: &str) -> (r: Option<i32>)
    ensures
        match r {
            Some(v) => parse_i32_spec(s@) == Some(v as int),
            None => parse_i32_spec(s@) is None,
        },
{
    let n = s.unicode_len();
    if n == 0 {
        return None;
    }
    let c0 = s.get_char(0);
    let neg = c0 == '-';
    let signed = c0 == '-' || c0 == '+';
    let offset: usize = if signed {
        1
    } else {
        0
    };
    if n == offset {
        return None;
    }
    let ghost ds: Seq<char> = if signed {
        s@.drop_first()
    } else {
        s@
    };
    let mut mag: i64 = 0;
    let mut j: usize = offset;
    loop
        invariant
            offset <= j <= n,
            n == s@.len(),
            n > offset,
            offset == 0 || offset == 1,
            signed == (s@.len() > 0 && (s@[0] == '+' || s@[0] == '-')),
            neg == (s@.len() > 0 && s@[0] == '-'),
            offset == (if signed {
                1int
            } else {
                0int
            }),
            ds == (if signed {
                s@.drop_first()
            } else {
                s@
            }),
            ds.len() == n - offset,
            0 <= mag <= 0x8000_0000,
            mag == digits_val(ds.take(j - offset)),
            forall|t: int| offset <= t < j ==> is_digit_char(s@[t]),
        ensures
            j == n,
            0 <= mag <= 0x8000_0000,
            mag == digits_val(ds),
            all_digits(ds),
        decreases n - j,
    {
        if j >= n {
            proof {
                assert(ds.take(j - offset) =~= ds);
                assert forall|m: int| 0 <= m < ds.len() implies is_digit_char(ds[m]) by {
                    assert(ds[m] == s@[m + offset]);
                }
            }
            break ;
        }
        let c = s.get_char(j);
        let u = c as u32;
        if u < 0x30 || u > 0x39 {
            proof {
                assert(ds[j - offset] == s@[j as int]);
                assert(!is_digit_char(ds[j - offset]));
                assert(!all_digits(ds));
            }
            return None;
        }
        let d = (u - 0x30) as i64;
        proof {
            assert(ds[j - offset] == s@[j as int]);
            assert(ds.take(j - offset + 1).drop_last() =~= ds.take(j - offset));
            assert(ds.take(j - offset + 1).last() == ds[j - offset]);
            assert(digit_val(ds[j - offset]) == d);
        }
        mag = mag * 10 + d;
        if mag > 0x8000_0000 {
            proof {
                if all_digits(ds) {
                    lemma_digits_val_prefix(ds, j - offset + 1);
                }
            }
            return None;
        }
        j = j + 1;
    }
    if neg {
        proof {
            lemma_digits_val_nonneg(ds);
        }
        Some((-mag) as i32)
    } else {
        if mag > 0x7fff_ffff {
            None
        } else {
            Some(mag as i32)
        }
    }
}

} // verus!
