use vstd::prelude::*;
use vstd::utf8::encode_utf8;

verus! {

/// Saturation bound of the digit accumulator: above every `i64` magnitude.
const CAP: u128 = 0x1_0000_0000_0000_0000;

pub open spec fn is_digit(c: u8) -> bool {
    48 <= c <= 57
}

pub open spec fn all_digits(b: Seq<u8>) -> bool {
    b.len() > 0 && forall|i: int| 0 <= i < b.len() ==> is_digit(#[trigger] b[i])
}

/// The number that a run of ASCII decimal digits denotes.
pub open spec fn digits_value(b: Seq<u8>) -> nat
    decreases b.len(),
{
    if b.len() == 0 {
        0
    } else {
        digits_value(b.drop_last()) * 10 + (b.last() - 48) as nat
    }
}

/// The integer written as an optional minus sign followed by decimal digits.
pub open spec fn decimal_value(b: Seq<u8>) -> Option<int> {
    if b.len() > 0 && b[0] == 45 {
        if all_digits(b.drop_first()) {
            Some(-digits_value(b.drop_first()))
        } else {
            None
        }
    } else if all_digits(b) {
        Some(digits_value(b) as int)
    } else {
        None
    }
}

/// The `i64` that some bytes write in decimal, if they write one in range.
pub open spec fn i64_of_text_bytes(b: Seq<u8>) -> Option<i64> {
    match decimal_value(b) {
        Some(v) => if i64::MIN <= v <= i64::MAX {
            Some(v as i64)
        } else {
            None
        },
        None => None,
    }
}

/// The `i64` that a text writes in decimal, if it writes one in range.
pub open spec fn i64_of_text(s: Seq<char>) -> Option<i64> {
    i64_of_text_bytes(encode_utf8(s))
}

/// The shortest decimal digits of a natural number.
pub open spec fn digits_of(n: nat) -> Seq<u8>
    decreases n,
{
    if n < 10 {
        seq![(n + 48) as u8]
    } else {
        digits_of(n / 10).push((n % 10 + 48) as u8)
    }
}

/// The decimal text of an integer, with a minus sign when it is negative.
pub open spec fn decimal_text(v: int) -> Seq<u8> {
    if v < 0 {
        seq![45u8] + digits_of((-v) as nat)
    } else {
        digits_of(v as nat)
    }
}

/// Reads a decimal integer, as the ledger and the telemetry payload write
/// their timestamps.
pub fn parse_i64(s: &str) -> (r: Option<i64>)
    ensures
        r == i64_of_text(s@),
{
    let b = s.as_bytes();
    let n = b.len();
    let neg = n > 0 && b[0] == 45;
    let start: usize = if neg { 1 } else { 0 };
    if start >= n {
        return None;
    }
    let mut acc: u128 = 0;
    let mut i: usize = start;
    while i < n
        invariant
            b@ == encode_utf8(s@),
            n == b@.len(),
            start <= i <= n,
            start == (if neg { 1int } else { 0 }),
            neg == (b@.len() > 0 && b@[0] == 45),
            forall|j: int| start <= j < i ==> is_digit(#[trigger] b@[j]),
            acc <= CAP,
            acc == (if digits_value(b@.subrange(start as int, i as int)) < CAP {
                digits_value(b@.subrange(start as int, i as int)) as int
            } else {
                CAP as int
            }),
        decreases n - i,
    {
        let c = b[i];
        if c < 48 || c > 57 {
            proof {
                let tail = b@.subrange(start as int, n as int);
                assert(tail[i - start] == c);
                if neg {
                    assert(b@.drop_first() == tail);
                }
            }
            return None;
        }
        let d = (c - 48) as u128;
        let ghost prev = digits_value(b@.subrange(start as int, i as int));
        assert(b@.subrange(start as int, i + 1).drop_last() == b@.subrange(start as int, i as int));
        assert(digits_value(b@.subrange(start as int, i + 1)) == prev * 10 + d);
        if acc * 10 + d >= CAP {
            assert(prev * 10 + d >= CAP) by (nonlinear_arith)
                requires
                    acc * 10 + d >= CAP,
                    acc == (if prev < CAP { prev as int } else { CAP as int }),
            ;
            acc = CAP;
        } else {
            acc = acc * 10 + d;
        }
        i = i + 1;
    }
    proof {
        let tail = b@.subrange(start as int, n as int);
        assert(all_digits(tail));
        if neg {
            assert(b@.drop_first() == tail);
        } else {
            assert(b@ == tail);
        }
    }
    if neg {
        if acc > 0x8000_0000_0000_0000 {
            None
        } else if acc == 0x8000_0000_0000_0000 {
            Some(i64::MIN)
        } else {
            Some(-(acc as i64))
        }
    } else if acc > 0x7fff_ffff_ffff_ffff {
        None
    } else {
        Some(acc as i64)
    }
}

fn push_digits(n: u64, out: &mut Vec<u8>)
    ensures
        final(out)@ == old(out)@ + digits_of(n as nat),
    decreases n,
{
    if n < 10 {
        out.push((n + 48) as u8);
    } else {
        push_digits(n / 10, out);
        out.push((n % 10 + 48) as u8);
    }
}

/// Writes an integer in decimal at the end of a byte buffer.
pub fn push_decimal(v: i64, out: &mut Vec<u8>)
    ensures
        final(out)@ == old(out)@ + decimal_text(v as int),
{
    if v < 0 {
        out.push(45);
        let m: u64 = (0i128 - v as i128) as u64;
        push_digits(m, out);
    } else {
        push_digits(v as u64, out);
    }
}

proof fn lemma_digits_round_trip(n: nat)
    ensures
        all_digits(digits_of(n)),
        digits_value(digits_of(n)) == n,
    decreases n,
{
    let b = digits_of(n);
    if n < 10 {
        assert(b.drop_last() == Seq::<u8>::empty());
        assert(b.last() == (n + 48) as u8);
        assert(digits_value(b) == digits_value(b.drop_last()) * 10 + (b.last() - 48) as nat);
    } else {
        lemma_digits_round_trip(n / 10);
        let d = digits_of(n / 10);
        assert(b.drop_last() == d);
        assert(b.last() == (n % 10 + 48) as u8);
        assert(forall|i: int| 0 <= i < d.len() ==> b[i] == d[i]);
        assert(digits_value(b) == digits_value(d) * 10 + (b.last() - 48) as nat);
        assert((n / 10) * 10 + n % 10 == n);
    }
}

/// Reading back the decimal text of an `i64` yields the same value: stored
/// timestamps survive a write and a reload to the second.
pub proof fn law_decimal_round_trip(v: i64)
    ensures
        decimal_value(decimal_text(v as int)) == Some(v as int),
        i64_of_text_bytes(decimal_text(v as int)) == Some(v),
{
    let b = decimal_text(v as int);
    if v < 0 {
        lemma_digits_round_trip((-v) as nat);
        assert(b.drop_first() == digits_of((-v) as nat));
    } else {
        lemma_digits_round_trip(v as nat);
        assert(is_digit(b[0]));
    }
}

} // verus!
