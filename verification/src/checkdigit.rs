//! The weighted modulo-10 check-digit algorithm used by numeric AI keys
//! and, optionally, by scan-data construction for retail symbologies.
//!
//! Digits are weighted 3, 1, 3, 1, ... starting from the rightmost digit
//! of the protected portion; the check digit is what brings the weighted
//! sum up to a multiple of ten.

use vstd::prelude::*;
use crate::chars::{is_dec_digit, digit_val, is_digits, char_is_digit, char_digit_val};

verus! {

/// Weight of the first (leftmost) digit of a string of `n` digits:
/// the rightmost digit always has weight 3.
pub open spec fn cd_weight(n: int) -> int {
    if n % 2 == 1 {
        3
    } else {
        1
    }
}

/// Weighted sum of a digit string, rightmost digit weighted 3.
pub open spec fn cd_sum(s: Seq<char>) -> int
    decreases s.len(),
{
    if s.len() == 0 {
        0
    } else {
        cd_weight(s.len() as int) * digit_val(s[0]) + cd_sum(s.skip(1))
    }
}

/// The check digit that completes `s` (the protected portion, without
/// the check digit itself).
pub open spec fn checksum_digit(s: Seq<char>) -> int {
    (10 - (cd_sum(s) % 10)) % 10
}

/// `s` (value with trailing check digit) carries a correct check digit.
pub open spec fn check_digit_ok(s: Seq<char>) -> bool {
    s.len() >= 1 && digit_val(s.last()) == checksum_digit(s.drop_last())
}

proof fn lemma_cd_sum_bound(s: Seq<char>)
    requires
        is_digits(s),
    ensures
        0 <= cd_sum(s) <= 27 * s.len(),
    decreases s.len(),
{
    if s.len() > 0 {
        assert(is_digits(s.skip(1)));
        lemma_cd_sum_bound(s.skip(1));
    }
}

/// Weighted modulo-10 check digit of the digit string `s`.
pub fn compute_check_digit(s: &str) -> (d: u8)
    requires
        is_digits(s@),
        s@.len() <= 0xFFFF_FFFF,
    ensures
        d == checksum_digit(s@),
        d <= 9,
{
    let n = s.unicode_len();
    let mut i: usize = 0;
    let mut acc: u64 = 0;
    proof {
        assert(s@.skip(0) =~= s@);
    }
    while i < n
        invariant
            is_digits(s@),
            n == s@.len() <= 0xFFFF_FFFF,
            i <= n,
            acc + cd_sum(s@.skip(i as int)) == cd_sum(s@),
            acc <= 27 * i,
        decreases n - i,
    {
        let c = s.get_char(i);
        let v = char_digit_val(c);
        let w: u64 = if (n - i) % 2 == 1 {
            3
        } else {
            1
        };
        proof {
            let suf = s@.skip(i as int);
            assert(suf[0] == s@[i as int]);
            assert(suf.skip(1) =~= s@.skip(i as int + 1));
            assert(is_digits(suf)) by {
                assert(forall|j: int|
                    0 <= j < suf.len() ==> #[trigger] suf[j] == s@[j + i as int]);
            }
            lemma_cd_sum_bound(suf.skip(1));
            assert(cd_sum(suf) == cd_weight(suf.len() as int) * digit_val(suf[0]) + cd_sum(
                suf.skip(1),
            ));
        }
        acc = acc + w * (v as u64);
        i = i + 1;
    }
    proof {
        assert(s@.skip(n as int) =~= Seq::<char>::empty());
    }
    let r = (10 - (acc % 10)) % 10;
    r as u8
}

/// Whether the digit string `s` ends in its own correct check digit.
pub fn verify_check_digit(s: &str) -> (r: bool)
    requires
        is_digits(s@),
        1 <= s@.len() <= 0xFFFF_FFFF,
    ensures
        r == check_digit_ok(s@),
{
    let n = s.unicode_len();
    let last = s.get_char(n - 1);
    let body = s.substring_char(0, n - 1);
    proof {
        assert(body@ =~= s@.drop_last());
        assert(is_digits(body@));
        assert(s@.last() == s@[n as int - 1]);
    }
    let d = compute_check_digit(body);
    let lv = char_digit_val(last);
    lv == d
}

} // verus!
