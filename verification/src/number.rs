//! Numbers written in ASCII: a port in decimal, a chunk size in hexadecimal.

use vstd::prelude::*;

verus! {

/// The value of `b` as a digit of the base 10 or 16, where it is one.
pub open spec fn digit_value(b: u8, base: nat) -> Option<nat> {
    if 0x30 <= b <= 0x39 {
        Some((b - 0x30) as nat)
    } else if base == 16 && 0x61 <= b <= 0x66 {
        Some((b - 0x61 + 10) as nat)
    } else if base == 16 && 0x41 <= b <= 0x46 {
        Some((b - 0x41 + 10) as nat)
    } else {
        None
    }
}

/// Whether every byte of `s` is a digit of `base`.
pub open spec fn all_digits(s: Seq<u8>, base: nat) -> bool {
    forall|i: int| 0 <= i < s.len() ==> (#[trigger] digit_value(s[i], base)) is Some
}

/// The number that the digits `s` write in `base`, most significant digit
/// first. A byte that is no digit counts as 0.
pub open spec fn digits_value(s: Seq<u8>, base: nat) -> nat
    decreases s.len(),
{
    if s.len() == 0 {
        0
    } else {
        digits_value(s.drop_last(), base) * base + match digit_value(s.last(), base) {
            Some(d) => d,
            None => 0,
        }
    }
}

/// `s` without a leading `+`.
pub open spec fn after_plus(s: Seq<u8>) -> Seq<u8> {
    if s.len() > 0 && s[0] == 0x2b {
        s.skip(1)
    } else {
        s
    }
}

/// `s` without a leading `+` or `-`.
pub open spec fn after_sign(s: Seq<u8>) -> Seq<u8> {
    if s.len() > 0 && (s[0] == 0x2b || s[0] == 0x2d) {
        s.skip(1)
    } else {
        s
    }
}

/// The port that `s` writes: decimal digits, at least one, after an optional
/// `+`, with a value of at most 65535.
pub open spec fn port_number(s: Seq<u8>) -> Option<u16> {
    let digits = after_plus(s);
    if digits.len() > 0 && all_digits(digits, 10) && digits_value(digits, 10) <= 0xffff {
        Some(digits_value(digits, 10) as u16)
    } else {
        None
    }
}

/// The signed 64-bit number that `s` writes in hexadecimal: digits of either
/// case, at least one, after an optional `+` or `-`, with a value in range.
pub open spec fn hex_number(s: Seq<u8>) -> Option<i64> {
    let digits = after_sign(s);
    let magnitude = digits_value(digits, 16);
    if digits.len() == 0 || !all_digits(digits, 16) {
        None
    } else if s[0] == 0x2d {
        if magnitude <= 0x8000_0000_0000_0000 {
            Some((-magnitude) as i64)
        } else {
            None
        }
    } else {
        if magnitude <= 0x7fff_ffff_ffff_ffff {
            Some(magnitude as i64)
        } else {
            None
        }
    }
}

/// `n` written in decimal, without leading zeros.
pub open spec fn decimal(n: nat) -> Seq<u8>
    decreases n,
{
    if n < 10 {
        seq![(0x30 + n) as u8]
    } else {
        decimal(n / 10).push((0x30 + n % 10) as u8)
    }
}

/// A port written in decimal is read back as that port, and its text holds
/// digits only.
pub proof fn lemma_decimal_port(port: u16)
    ensures
        port_number(decimal(port as nat)) == Some(port),
        all_digits(decimal(port as nat), 10),
        decimal(port as nat).len() > 0,
{
    lemma_decimal(port as nat);
    let text = decimal(port as nat);
    assert(digit_value(text[0], 10) is Some);
    assert(after_plus(text) == text);
}

/// A number written in decimal is written in digits, and they write it.
pub proof fn lemma_decimal(n: nat)
    ensures
        all_digits(decimal(n), 10),
        digits_value(decimal(n), 10) == n,
        decimal(n).len() > 0,
    decreases n,
{
    let text = decimal(n);
    if n < 10 {
        assert(text.drop_last() =~= Seq::<u8>::empty());
        assert(digits_value(text.drop_last(), 10) == 0);
    } else {
        lemma_decimal(n / 10);
        assert(text.drop_last() =~= decimal(n / 10));
        assert forall|i: int| 0 <= i < text.len() implies (#[trigger] digit_value(text[i], 10))
            is Some by {
            if i < text.len() - 1 {
                assert(text[i] == decimal(n / 10)[i]);
            }
        }
    }
}

/// A number only grows as digits are appended to it.
pub proof fn lemma_digits_value_grows(s: Seq<u8>, base: nat, k: int)
    requires
        0 <= k <= s.len(),
        base >= 1,
    ensures
        digits_value(s.take(k), base) <= digits_value(s, base),
    decreases s.len(),
{
    if k == s.len() {
        assert(s.take(k) =~= s);
    } else {
        assert(s.drop_last().take(k) =~= s.take(k));
        lemma_digits_value_grows(s.drop_last(), base, k);
        assert(digits_value(s.drop_last(), base) <= digits_value(s.drop_last(), base) * base)
            by (nonlinear_arith)
            requires
                base >= 1,
        ;
    }
}

fn digit(b: u8, base: u8) -> (d: Option<u8>)
    requires
        base == 10 || base == 16,
    ensures
        match d {
            Some(v) => digit_value(b, base as nat) == Some(v as nat) && v < base,
            None => digit_value(b, base as nat) is None,
        },
{
    if 0x30 <= b && b <= 0x39 {
        Some(b - 0x30)
    } else if base == 16 && 0x61 <= b && b <= 0x66 {
        Some(b - 0x61 + 10)
    } else if base == 16 && 0x41 <= b && b <= 0x46 {
        Some(b - 0x41 + 10)
    } else {
        None
    }
}

/// Reads the digits `s[from..]` in `base`. The result is the number they
/// write, if they are all digits of `base` and the number is at most `limit`.
fn read_digits(s: &[u8], from: usize, base: u8, limit: u64) -> (r: Option<u64>)
    requires
        from <= s@.len(),
        base == 10 || base == 16,
        limit <= 0x8000_0000_0000_0000,
    ensures
        r == if all_digits(s@.skip(from as int), base as nat) && digits_value(
            s@.skip(from as int),
            base as nat,
        ) <= limit {
            Some(digits_value(s@.skip(from as int), base as nat) as u64)
        } else {
            None
        },
{
    let ghost digits = s@.skip(from as int);
    let mut value: u64 = 0;
    let mut i: usize = from;
    while i < s.len()
        invariant
            from <= i <= s@.len(),
            digits == s@.skip(from as int),
            base == 10 || base == 16,
            limit <= 0x8000_0000_0000_0000,
            value <= limit,
            value == digits_value(digits.take(i - from), base as nat),
            all_digits(digits.take(i - from), base as nat),
        decreases s@.len() - i,
    {
        let ghost k = i - from;
        proof {
            assert(digits.take(k + 1).drop_last() =~= digits.take(k));
            assert(digits.take(k + 1).last() == s@[i as int]);
        }
        match digit(s[i], base) {
            None => {
                assert(digit_value(digits[k], base as nat) is None);
                return None;
            },
            Some(d) => {
                assert(value as u128 * base as u128 <= 0x8000_0000_0000_0000 * 16)
                    by (nonlinear_arith)
                    requires
                        value <= 0x8000_0000_0000_0000,
                        base <= 16,
                ;
                let next: u128 = value as u128 * base as u128 + d as u128;
                if next > limit as u128 {
                    proof {
                        lemma_digits_value_grows(digits, base as nat, k + 1);
                    }
                    return None;
                }
                value = next as u64;
                i = i + 1;
                assert forall|j: int| 0 <= j < digits.take(k + 1).len() implies (
                #[trigger] digit_value(digits.take(k + 1)[j], base as nat)) is Some by {
                    if j < k {
                        assert(digits.take(k)[j] == digits.take(k + 1)[j]);
                    }
                }
            },
        }
    }
    assert(digits.take(i - from) =~= digits);
    Some(value)
}

/// Reads a port as `str::parse::<u16>` does.
pub fn parse_port(s: &[u8]) -> (port: Option<u16>)
    ensures
        port == port_number(s@),
{
    let from: usize = if s.len() > 0 && s[0] == 0x2b {
        1
    } else {
        0
    };
    assert(s@.skip(from as int) =~= after_plus(s@));
    if from == s.len() {
        return None;
    }
    match read_digits(s, from, 10, 0xffff) {
        Some(v) => Some(v as u16),
        None => None,
    }
}

/// Reads a signed hexadecimal number as `i64::from_str_radix(.., 16)` does.
pub fn parse_hex(s: &[u8]) -> (number: Option<i64>)
    ensures
        number == hex_number(s@),
{
    let negative: bool = s.len() > 0 && s[0] == 0x2d;
    let from: usize = if s.len() > 0 && (s[0] == 0x2b || s[0] == 0x2d) {
        1
    } else {
        0
    };
    assert(s@.skip(from as int) =~= after_sign(s@));
    if from == s.len() {
        return None;
    }
    if negative {
        match read_digits(s, from, 16, 0x8000_0000_0000_0000) {
            Some(v) => {
                if v == 0x8000_0000_0000_0000 {
                    Some(i64::MIN)
                } else {
                    Some(-(v as i64))
                }
            },
            None => None,
        }
    } else {
        match read_digits(s, from, 16, 0x7fff_ffff_ffff_ffff) {
            Some(v) => Some(v as i64),
            None => None,
        }
    }
}

} // verus!
