//! Amounts of damage as the log writes them: decimal numbers with a point.

use vstd::prelude::*;
use vstd::string::*;

verus! {

/// One of the ten digits.
pub open spec fn is_digit(c: char) -> bool {
    '0' <= c <= '9'
}

/// Every character is a digit.
pub open spec fn all_digits(s: Seq<char>) -> bool {
    forall|i: int| 0 <= i < s.len() ==> is_digit(#[trigger] s[i])
}

/// The number that a run of digits writes.
pub open spec fn decimal(s: Seq<char>) -> nat
    decreases s.len(),
{
    if s.len() == 0 {
        0
    } else {
        (decimal(s.drop_last()) * 10 + (s.last() as int - '0' as int)) as nat
    }
}

/// Ten to the power `n`.
pub open spec fn pow10(n: nat) -> nat
    decreases n,
{
    if n == 0 {
        1
    } else {
        10 * pow10((n - 1) as nat)
    }
}

/// The millionths that the digits after the point write; digits after the
/// sixth are left out.
pub open spec fn millionths(frac: Seq<char>) -> nat {
    if frac.len() >= 6 {
        decimal(frac.take(6))
    } else {
        decimal(frac) * pow10((6 - frac.len()) as nat)
    }
}

/// `text` is digits, a point at position `d`, and digits, with at least one
/// digit on each side.
pub open spec fn point_at(text: Seq<char>, d: int) -> bool {
    &&& 0 < d < text.len() - 1
    &&& text[d] == '.'
    &&& all_digits(text.take(d))
    &&& all_digits(text.skip(d + 1))
}

/// `v` in millionths, or the largest amount where `v` is beyond it.
pub open spec fn capped(v: nat) -> i64 {
    if v > i64::MAX {
        i64::MAX
    } else {
        v as i64
    }
}

/// The amount that `text` writes, in millionths: `None` where the text is
/// not digits, a point and digits.
pub open spec fn amount_of(text: Seq<char>) -> Option<i64> {
    if exists|d: int| point_at(text, d) {
        let d = choose|d: int| point_at(text, d);
        Some(capped(decimal(text.take(d)) * 1_000_000 + millionths(text.skip(d + 1))))
    } else {
        None
    }
}

/// Numbers at or beyond this many whole points are beyond every amount.
const WHOLE_LIMIT: u64 = 10_000_000_000_000;

/// `v`, or the limit where `v` is beyond it.
spec fn limited(v: nat) -> u64 {
    if v >= WHOLE_LIMIT {
        WHOLE_LIMIT
    } else {
        v as u64
    }
}

/// Reads digits of `text` from position `from` on, up to the first character
/// that is no digit, and gives the position after them and the number they
/// write, held to the limit.
fn read_digits(text: &str, from: usize, len: usize) -> (r: (usize, u64))
    requires
        from <= len,
        len == text@.len(),
    ensures
        from <= r.0 <= len,
        all_digits(text@.subrange(from as int, r.0 as int)),
        r.0 < len ==> !is_digit(text@[r.0 as int]),
        r.1 == limited(decimal(text@.subrange(from as int, r.0 as int))),
{
    let mut i: usize = from;
    let mut acc: u64 = 0;
    assert(text@.subrange(from as int, from as int) =~= Seq::<char>::empty());
    while i < len
        invariant
            from <= i <= len,
            len == text@.len(),
            all_digits(text@.subrange(from as int, i as int)),
            acc == limited(decimal(text@.subrange(from as int, i as int))),
        ensures
            i < len ==> !is_digit(text@[i as int]),
        decreases len - i,
    {
        let c = text.get_char(i);
        if !('0' <= c && c <= '9') {
            break;
        }
        let digit: u64 = (c as u32 - '0' as u32) as u64;
        proof {
            let before = text@.subrange(from as int, i as int);
            let now = text@.subrange(from as int, i as int + 1);
            assert(now.drop_last() =~= before);
            assert(now.last() == c);
            assert forall|j: int| 0 <= j < now.len() implies is_digit(#[trigger] now[j]) by {
            }
        }
        acc = acc * 10 + digit;
        if acc > WHOLE_LIMIT {
            acc = WHOLE_LIMIT;
        }
        i = i + 1;
    }
    (i, acc)
}

/// Six digits' worth of the digits after the point.
fn read_millionths(text: &str, from: usize, len: usize) -> (r: u64)
    requires
        from <= len,
        len == text@.len(),
        all_digits(text@.skip(from as int)),
    ensures
        r == millionths(text@.skip(from as int)),
        r < 1_000_000,
{
    let ghost frac = text@.skip(from as int);
    let mut i: usize = 0;
    let mut acc: u64 = 0;
    let mut bound: u64 = 1;
    while i < 6 && i < len - from
        invariant
            i <= 6,
            i <= len - from,
            from <= len,
            len == text@.len(),
            frac == text@.skip(from as int),
            all_digits(frac),
            acc == decimal(frac.take(i as int)),
            bound == pow10(i as nat),
            acc < bound,
            bound <= 1_000_000,
            i < 6 ==> bound <= 100_000,
        decreases 6 - i,
    {
        let c = text.get_char(from + i);
        assert(c == frac[i as int]);
        let digit: u64 = (c as u32 - '0' as u32) as u64;
        proof {
            let before = frac.take(i as int);
            let now = frac.take(i as int + 1);
            assert(now.drop_last() =~= before);
            assert(pow10((i + 1) as nat) == 10 * pow10(i as nat));
            assert(bound == 1 || bound == 10 || bound == 100 || bound == 1000 || bound == 10000 || bound == 100000) by {
                reveal_with_fuel(pow10, 7);
            }
        }
        acc = acc * 10 + digit;
        bound = bound * 10;
        i = i + 1;
    }
    if i < 6 {
        assert(frac.take(i as int) =~= frac);
        let mut k: usize = i;
        let ghost whole = acc;
        let mut scale: u64 = 1;
        while k < 6
            invariant
                i <= k <= 6,
                scale == pow10((k - i) as nat),
                scale > 0,
                bound == pow10(i as nat) * scale,
                acc == whole * scale,
                whole < pow10(i as nat),
                bound <= 1_000_000,
                bound == pow10(k as nat),
            decreases 6 - k,
        {
            proof {
                assert(pow10((k + 1 - i) as nat) == 10 * pow10((k - i) as nat));
                assert(bound <= 100_000) by {
                    reveal_with_fuel(pow10, 7);
                }
                assert(whole * scale < pow10(i as nat) * scale) by (nonlinear_arith)
                    requires
                        whole < pow10(i as nat),
                        scale > 0,
                ;
                assert(pow10(i as nat) * (scale * 10) == (pow10(i as nat) * scale) * 10) by (nonlinear_arith);
                assert(whole * (scale * 10) == (whole * scale) * 10) by (nonlinear_arith);
            }
            acc = acc * 10;
            scale = scale * 10;
            bound = bound * 10;
            k = k + 1;
        }
        assert(whole * scale < pow10(i as nat) * scale) by (nonlinear_arith)
            requires
                whole < pow10(i as nat),
                scale > 0,
        ;
    }
    acc
}

/// Reads an amount: digits, a point, digits. The result is in millionths;
/// digits after the sixth behind the point are left out, and an amount
/// beyond the largest that fits is the largest.
pub fn parse_amount(text: &str) -> (r: Option<i64>)
    ensures
        r == amount_of(text@),
{
    let len = text.unicode_len();
    let (d, whole) = read_digits(text, 0, len);
    proof {
        // Where the text is an amount, its point is at `d`.
        assert forall|e: int| point_at(text@, e) implies e == d by {
            if e < d {
                assert(text@.take(d as int)[e] == text@[e]);
            }
            if d < e {
                assert(text@.take(e)[d as int] == text@[d as int]);
            }
        }
    }
    if d == 0 || d >= len || len - d < 2 {
        return None;
    }
    if text.get_char(d) != '.' {
        return None;
    }
    let (end, _) = read_digits(text, d + 1, len);
    if end < len {
        proof {
            assert(text@.skip(d as int + 1)[end - d - 1] == text@[end as int]);
        }
        return None;
    }
    proof {
        assert(point_at(text@, d as int));
    }
    let frac = read_millionths(text, d + 1, len);
    let total: u128 = whole as u128 * 1_000_000 + frac as u128;
    assert(whole == limited(decimal(text@.take(d as int))));
    if total > i64::MAX as u128 {
        Some(i64::MAX)
    } else {
        Some(total as i64)
    }
}

} // verus!
