//! Parsing and formatting of the small textual number formats the engine
//! needs: decimal and hexadecimal unsigned integers, and decimal rendering
//! of signed 64-bit values for JSON bodies.

use vstd::prelude::*;

verus! {

/// True for the ASCII decimal digits.
pub open spec fn is_dec_digit(b: u8) -> bool {
    0x30 <= b <= 0x39
}

/// Value of an ASCII decimal digit.
pub open spec fn dec_digit_val(b: u8) -> nat {
    (b - 0x30) as nat
}

/// Mathematical value of a sequence of decimal digits, most significant first.
pub open spec fn dec_value(s: Seq<u8>) -> nat
    decreases s.len(),
{
    if s.len() == 0 {
        0
    } else {
        dec_value(s.drop_last()) * 10 + dec_digit_val(s.last())
    }
}

/// True when every byte of `s` is a decimal digit.
pub open spec fn all_dec_digits(s: Seq<u8>) -> bool {
    forall|i: int| 0 <= i < s.len() ==> is_dec_digit(#[trigger] s[i])
}

/// Parses an unsigned decimal number. Mirrors `usize::from_str`: the input
/// must be one or more digits and the value must fit in `usize`.
pub fn parse_dec_usize(s: &[u8]) -> (r: Option<usize>)
    ensures
        r is Some ==> s@.len() > 0 && all_dec_digits(s@) && r.unwrap() as nat == dec_value(s@),
        (s@.len() > 0 && all_dec_digits(s@) && dec_value(s@) <= usize::MAX as nat) ==> r is Some,
        r is None ==> s@.len() == 0 || !all_dec_digits(s@) || dec_value(s@) > usize::MAX as nat,
{
    if s.len() == 0 {
        return None;
    }
    let mut acc: usize = 0;
    let mut i: usize = 0;
    while i < s.len()
        invariant
            0 <= i <= s@.len(),
            s@.len() > 0,
            all_dec_digits(s@.take(i as int)),
            acc as nat == dec_value(s@.take(i as int)),
        decreases s@.len() - i,
    {
        let b = s[i];
        if b < 0x30 || b > 0x39 {
            assert(!all_dec_digits(s@)) by {
                assert(!is_dec_digit(s@[i as int]));
            }
            return None;
        }
        let d = (b - 0x30) as usize;
        if acc > usize::MAX / 10 || (acc == usize::MAX / 10 && d > usize::MAX % 10) {
            proof {
                assert(s@.take(i as int + 1).drop_last() =~= s@.take(i as int));
                assert(s@.take(i as int + 1).last() == s@[i as int]);
                assert(dec_value(s@.take(i as int + 1)) > usize::MAX as nat);
                if all_dec_digits(s@) {
                    lemma_dec_value_prefix_bound(s@, i as int + 1);
                }
            }
            return None;
        }
        proof {
            assert(s@.take(i as int + 1).drop_last() =~= s@.take(i as int));
            assert(s@.take(i as int + 1).last() == s@[i as int]);
        }
        acc = acc * 10 + d;
        i = i + 1;
    }
    proof {
        assert(s@.take(i as int) =~= s@);
    }
    Some(acc)
}

/// A digit prefix never exceeds the value of the whole digit string.
proof fn lemma_dec_value_prefix_bound(s: Seq<u8>, n: int)
    requires
        0 <= n <= s.len(),
        all_dec_digits(s),
    ensures
        dec_value(s.take(n)) <= dec_value(s),
    decreases s.len() - n,
{
    if n < s.len() {
        assert(s.take(n + 1).drop_last() =~= s.take(n));
        assert(dec_value(s.take(n)) <= dec_value(s.take(n + 1)));
        lemma_dec_value_prefix_bound(s, n + 1);
    } else {
        assert(s.take(n) =~= s);
    }
}

/// True for ASCII hexadecimal digits, upper or lower case.
pub open spec fn is_hex_digit(b: u8) -> bool {
    (0x30 <= b <= 0x39) || (0x41 <= b <= 0x46) || (0x61 <= b <= 0x66)
}

/// Value of an ASCII hexadecimal digit.
pub open spec fn hex_digit_val(b: u8) -> nat {
    if 0x30 <= b <= 0x39 {
        (b - 0x30) as nat
    } else if 0x41 <= b <= 0x46 {
        (b - 0x41 + 10) as nat
    } else {
        (b - 0x61 + 10) as nat
    }
}

/// Mathematical value of a sequence of hex digits, most significant first.
pub open spec fn hex_value(s: Seq<u8>) -> nat
    decreases s.len(),
{
    if s.len() == 0 {
        0
    } else {
        hex_value(s.drop_last()) * 16 + hex_digit_val(s.last())
    }
}

/// True when every byte of `s` is a hex digit.
pub open spec fn all_hex_digits(s: Seq<u8>) -> bool {
    forall|i: int| 0 <= i < s.len() ==> is_hex_digit(#[trigger] s[i])
}

/// Parses an unsigned hexadecimal number, as `usize::from_str_radix(_, 16)`
/// does: one or more digits of either case, value within `usize`.
pub fn parse_hex_usize(s: &[u8]) -> (r: Option<usize>)
    ensures
        r is Some ==> s@.len() > 0 && all_hex_digits(s@) && r.unwrap() as nat == hex_value(s@),
        (s@.len() > 0 && all_hex_digits(s@) && hex_value(s@) <= usize::MAX as nat) ==> r is Some,
        r is None ==> s@.len() == 0 || !all_hex_digits(s@) || hex_value(s@) > usize::MAX as nat,
{
    if s.len() == 0 {
        return None;
    }
    let mut acc: usize = 0;
    let mut i: usize = 0;
    while i < s.len()
        invariant
            0 <= i <= s@.len(),
            s@.len() > 0,
            all_hex_digits(s@.take(i as int)),
            acc as nat == hex_value(s@.take(i as int)),
        decreases s@.len() - i,
    {
        let b = s[i];
        let d: usize = if b >= 0x30 && b <= 0x39 {
            (b - 0x30) as usize
        } else if b >= 0x41 && b <= 0x46 {
            (b - 0x41 + 10) as usize
        } else if b >= 0x61 && b <= 0x66 {
            (b - 0x61 + 10) as usize
        } else {
            assert(!all_hex_digits(s@)) by {
                assert(!is_hex_digit(s@[i as int]));
            }
            return None;
        };
        if acc > usize::MAX / 16 || (acc == usize::MAX / 16 && d > usize::MAX % 16) {
            proof {
                assert(s@.take(i as int + 1).drop_last() =~= s@.take(i as int));
                assert(s@.take(i as int + 1).last() == s@[i as int]);
                assert(hex_value(s@.take(i as int + 1)) > usize::MAX as nat);
                if all_hex_digits(s@) {
                    lemma_hex_value_prefix_bound(s@, i as int + 1);
                }
            }
            return None;
        }
        proof {
            assert(s@.take(i as int + 1).drop_last() =~= s@.take(i as int));
            assert(s@.take(i as int + 1).last() == s@[i as int]);
        }
        acc = acc * 16 + d;
        i = i + 1;
    }
    proof {
        assert(s@.take(i as int) =~= s@);
    }
    Some(acc)
}

/// A hex digit prefix never exceeds the value of the whole digit string.
proof fn lemma_hex_value_prefix_bound(s: Seq<u8>, n: int)
    requires
        0 <= n <= s.len(),
        all_hex_digits(s),
    ensures
        hex_value(s.take(n)) <= hex_value(s),
    decreases s.len() - n,
{
    if n < s.len() {
        assert(s.take(n + 1).drop_last() =~= s.take(n));
        assert(hex_value(s.take(n)) <= hex_value(s.take(n + 1)));
        lemma_hex_value_prefix_bound(s, n + 1);
    } else {
        assert(s.take(n) =~= s);
    }
}

/// ASCII whitespace, as trimmed from the end of a chunk-length line.
pub open spec fn is_ascii_space(b: u8) -> bool {
    b == 0x20 || b == 0x09 || b == 0x0A || b == 0x0D
}

/// The sequence with trailing ASCII whitespace removed.
pub open spec fn trim_end_spec(s: Seq<u8>) -> Seq<u8>
    decreases s.len(),
{
    if s.len() > 0 && is_ascii_space(s.last()) {
        trim_end_spec(s.drop_last())
    } else {
        s
    }
}

/// Removes trailing ASCII whitespace from a byte string.
pub fn trim_end(s: &[u8]) -> (r: Vec<u8>)
    ensures
        r@ == trim_end_spec(s@),
{
    let mut end: usize = s.len();
    proof {
        assert(s@.take(s@.len() as int) =~= s@);
    }
    loop
        invariant
            0 <= end <= s@.len(),
            trim_end_spec(s@) == trim_end_spec(s@.take(end as int)),
        ensures
            0 <= end <= s@.len(),
            trim_end_spec(s@) == s@.take(end as int),
        decreases end,
    {
        if end == 0 {
            proof {
                assert(s@.take(0) =~= Seq::<u8>::empty());
            }
            break;
        }
        let b = s[end - 1];
        if !(b == 0x20 || b == 0x09 || b == 0x0A || b == 0x0D) {
            proof {
                assert(!is_ascii_space(s@.take(end as int).last()));
            }
            break;
        }
        proof {
            assert(s@.take(end as int).last() == s@[end - 1]);
            assert(s@.take(end as int).drop_last() =~= s@.take(end as int - 1));
        }
        end = end - 1;
    }
    let mut r: Vec<u8> = Vec::new();
    let mut i: usize = 0;
    while i < end
        invariant
            0 <= i <= end <= s@.len(),
            r@ == s@.take(end as int).take(i as int),
        decreases end - i,
    {
        r.push(s[i]);
        proof {
            assert(s@.take(end as int).take(i as int + 1) =~= s@.take(end as int).take(i as int).push(
                s@[i as int],
            ));
        }
        i = i + 1;
    }
    proof {
        assert(s@.take(end as int).take(end as int) =~= s@.take(end as int));
    }
    r
}

/// Decimal rendering of an unsigned 64-bit value, most significant digit
/// first, without leading zeros (`0` renders as `"0"`).
pub open spec fn dec_bytes(n: nat) -> Seq<u8>
    decreases n,
{
    if n < 10 {
        seq![(0x30 + n) as u8]
    } else {
        dec_bytes(n / 10).push((0x30 + n % 10) as u8)
    }
}

/// Renders an unsigned 64-bit value in decimal.
pub fn format_u64(n: u64) -> (r: Vec<u8>)
    ensures
        r@ == dec_bytes(n as nat),
{
    let mut r: Vec<u8> = Vec::new();
    let mut m: u64 = n;
    proof {
        assert(dec_bytes(n as nat) =~= dec_bytes(n as nat) + Seq::<u8>::empty());
    }
    // Insert digits at the front, least significant first.
    loop
        invariant_except_break
            dec_bytes(n as nat) == dec_bytes(m as nat) + r@,
        ensures
            r@ == dec_bytes(n as nat),
        decreases m,
    {
        let d: u8 = 0x30 + (m % 10) as u8;
        let ghost prev = r@;
        r.insert(0, d);
        proof {
            assert(r@ =~= seq![d] + prev);
        }
        if m < 10 {
            proof {
                assert(dec_bytes(m as nat) =~= seq![d]);
                assert(dec_bytes(m as nat) + prev =~= r@);
            }
            break;
        }
        proof {
            assert(dec_bytes(m as nat) == dec_bytes((m as nat) / 10).push(
                (0x30 + (m as nat) % 10) as u8,
            ));
            assert(dec_bytes((m as nat) / 10).push(d) + prev =~= dec_bytes((m as nat) / 10) + r@);
        }
        m = m / 10;
    }
    r
}

/// Decimal rendering of a signed 64-bit value: a minus sign for negative
/// values, then the magnitude.
pub open spec fn dec_bytes_i64(n: int) -> Seq<u8> {
    if n < 0 {
        seq![0x2Du8] + dec_bytes((-n) as nat)
    } else {
        dec_bytes(n as nat)
    }
}

/// Renders a signed 64-bit value in decimal, as JSON numbers are written.
pub fn format_i64(n: i64) -> (r: Vec<u8>)
    ensures
        r@ == dec_bytes_i64(n as int),
{
    if n >= 0 {
        format_u64(n as u64)
    } else {
        // The magnitude of any negative i64, i64::MIN included, fits in u64.
        let neg: i128 = -(n as i128);
        assert(0 <= neg <= u64::MAX);
        let mag: u64 = neg as u64;
        let mut r: Vec<u8> = Vec::new();
        r.push(0x2D);
        let mut digits = format_u64(mag);
        proof {
            assert(r@ =~= seq![0x2Du8]);
        }
        r.append(&mut digits);
        proof {
            assert(r@ =~= dec_bytes_i64(n as int));
        }
        r
    }
}

/// Parses an unsigned decimal number into a `u64`, as `u64::from_str`
/// accepts digits: one or more digits and the value must fit.
pub fn parse_dec_u64(s: &[u8]) -> (r: Option<u64>)
    ensures
        r is Some ==> s@.len() > 0 && all_dec_digits(s@) && r.unwrap() as nat == dec_value(s@),
        (s@.len() > 0 && all_dec_digits(s@) && dec_value(s@) <= u64::MAX as nat) ==> r is Some,
        r is None ==> s@.len() == 0 || !all_dec_digits(s@) || dec_value(s@) > u64::MAX as nat,
{
    if s.len() == 0 {
        return None;
    }
    let mut acc: u64 = 0;
    let mut i: usize = 0;
    while i < s.len()
        invariant
            0 <= i <= s@.len(),
            s@.len() > 0,
            all_dec_digits(s@.take(i as int)),
            acc as nat == dec_value(s@.take(i as int)),
        decreases s@.len() - i,
    {
        let b = s[i];
        if b < 0x30 || b > 0x39 {
            assert(!all_dec_digits(s@)) by {
                assert(!is_dec_digit(s@[i as int]));
            }
            return None;
        }
        let d = (b - 0x30) as u64;
        if acc > u64::MAX / 10 || (acc == u64::MAX / 10 && d > u64::MAX % 10) {
            proof {
                assert(s@.take(i as int + 1).drop_last() =~= s@.take(i as int));
                assert(s@.take(i as int + 1).last() == s@[i as int]);
                assert(dec_value(s@.take(i as int + 1)) > u64::MAX as nat);
                if all_dec_digits(s@) {
                    lemma_dec_value_prefix_bound(s@, i as int + 1);
                }
            }
            return None;
        }
        proof {
            assert(s@.take(i as int + 1).drop_last() =~= s@.take(i as int));
            assert(s@.take(i as int + 1).last() == s@[i as int]);
        }
        acc = acc * 10 + d;
        i = i + 1;
    }
    proof {
        assert(s@.take(i as int) =~= s@);
    }
    Some(acc)
}

} // verus!
