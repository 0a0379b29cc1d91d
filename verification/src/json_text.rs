//! Byte-exact JSON rendering for the fixed document shapes the engine
//! writes: the container-create body and the front-end response bodies.
//!
//! Strings are escaped byte-wise over their UTF-8 encoding: `"` and `\`
//! get a backslash, the named control escapes are used for backspace,
//! form feed, line feed, carriage return and tab, and the remaining
//! control bytes become `\u00XX` with lower-case hex. Multi-byte UTF-8
//! sequences pass through unchanged.

use vstd::prelude::*;
use vstd::string::StringSliceAdditionalSpecFns;

use crate::numeric::{dec_bytes_i64, format_i64};

verus! {

/// The UTF-8 bytes of a string slice, as written to the wire.
pub open spec fn lit_bytes(s: &str) -> Seq<u8> {
    s.spec_bytes()
}

/// Lower-case hex digit of a value below 16.
pub open spec fn hex_digit_lower(n: u8) -> u8 {
    if n < 10 {
        (0x30 + n) as u8
    } else {
        (0x61 + (n - 10)) as u8
    }
}

/// The escape of one byte inside a JSON string literal.
pub open spec fn json_escape_byte(b: u8) -> Seq<u8> {
    if b == 0x22 {
        seq![0x5Cu8, 0x22u8]
    } else if b == 0x5C {
        seq![0x5Cu8, 0x5Cu8]
    } else if b == 0x08 {
        seq![0x5Cu8, 0x62u8]
    } else if b == 0x0C {
        seq![0x5Cu8, 0x66u8]
    } else if b == 0x0A {
        seq![0x5Cu8, 0x6Eu8]
    } else if b == 0x0D {
        seq![0x5Cu8, 0x72u8]
    } else if b == 0x09 {
        seq![0x5Cu8, 0x74u8]
    } else if b < 0x20 {
        seq![0x5Cu8, 0x75u8, 0x30u8, 0x30u8, hex_digit_lower(b / 16), hex_digit_lower(b % 16)]
    } else {
        seq![b]
    }
}

/// The escaped form of a whole byte string.
pub open spec fn json_escaped(s: Seq<u8>) -> Seq<u8>
    decreases s.len(),
{
    if s.len() == 0 {
        Seq::<u8>::empty()
    } else {
        json_escape_byte(s[0]) + json_escaped(s.drop_first())
    }
}

/// A JSON string literal: quote, escaped bytes, quote.
pub open spec fn json_string(s: Seq<u8>) -> Seq<u8> {
    seq![0x22u8] + json_escaped(s) + seq![0x22u8]
}

/// Escaping distributes over appending one byte.
pub proof fn lemma_json_escaped_push(s: Seq<u8>, b: u8)
    ensures
        json_escaped(s.push(b)) == json_escaped(s) + json_escape_byte(b),
    decreases s.len(),
{
    if s.len() == 0 {
        assert(s.push(b)[0] == b);
        assert(s.push(b).drop_first() =~= Seq::<u8>::empty());
        assert(json_escaped(Seq::<u8>::empty()) == Seq::<u8>::empty());
        assert(json_escaped(s) == Seq::<u8>::empty());
        assert(json_escaped(s.push(b)) == json_escape_byte(b) + json_escaped(
            s.push(b).drop_first(),
        ));
        assert(json_escape_byte(b) + Seq::<u8>::empty() =~= json_escape_byte(b));
        assert(json_escaped(s) + json_escape_byte(b) =~= json_escape_byte(b));
    } else {
        assert(s.push(b)[0] == s[0]);
        assert(s.push(b).drop_first() =~= s.drop_first().push(b));
        lemma_json_escaped_push(s.drop_first(), b);
        assert(json_escaped(s.push(b)) =~= json_escaped(s) + json_escape_byte(b));
    }
}

/// Appends all of `data` to `out`.
pub fn append_bytes(out: &mut Vec<u8>, data: &[u8])
    ensures
        final(out)@ == old(out)@ + data@,
{
    let mut i: usize = 0;
    while i < data.len()
        invariant
            0 <= i <= data@.len(),
            out@ == old(out)@ + data@.take(i as int),
        decreases data@.len() - i,
    {
        out.push(data[i]);
        proof {
            assert(old(out)@ + data@.take(i as int + 1) =~= (old(out)@ + data@.take(i as int)).push(
                data@[i as int],
            ));
        }
        i = i + 1;
    }
    proof {
        assert(old(out)@ + data@.take(data@.len() as int) =~= old(out)@ + data@);
    }
}

/// Appends the UTF-8 bytes of a literal to `out`.
pub fn write_lit(out: &mut Vec<u8>, s: &str)
    ensures
        final(out)@ == old(out)@ + lit_bytes(s),
{
    append_bytes(out, s.as_bytes());
}

/// Appends the JSON string literal for the bytes `s` to `out`.
pub fn write_json_string_bytes(out: &mut Vec<u8>, s: &[u8])
    ensures
        final(out)@ == old(out)@ + json_string(s@),
{
    out.push(0x22);
    proof {
        assert(out@ =~= old(out)@ + seq![0x22u8] + json_escaped(s@.take(0)));
        assert(json_escaped(s@.take(0)) =~= Seq::<u8>::empty());
        assert(out@ =~= old(out)@ + seq![0x22u8] + json_escaped(s@.take(0)));
    }
    let mut i: usize = 0;
    while i < s.len()
        invariant
            0 <= i <= s@.len(),
            out@ == old(out)@ + seq![0x22u8] + json_escaped(s@.take(i as int)),
        decreases s@.len() - i,
    {
        let b = s[i];
        let ghost pre = out@;
        if b == 0x22 {
            out.push(0x5C);
            out.push(0x22);
        } else if b == 0x5C {
            out.push(0x5C);
            out.push(0x5C);
        } else if b == 0x08 {
            out.push(0x5C);
            out.push(0x62);
        } else if b == 0x0C {
            out.push(0x5C);
            out.push(0x66);
        } else if b == 0x0A {
            out.push(0x5C);
            out.push(0x6E);
        } else if b == 0x0D {
            out.push(0x5C);
            out.push(0x72);
        } else if b == 0x09 {
            out.push(0x5C);
            out.push(0x74);
        } else if b < 0x20 {
            out.push(0x5C);
            out.push(0x75);
            out.push(0x30);
            out.push(0x30);
            let hi = b / 16;
            let lo = b % 16;
            out.push(if hi < 10 {
                0x30 + hi
            } else {
                0x61 + (hi - 10)
            });
            out.push(if lo < 10 {
                0x30 + lo
            } else {
                0x61 + (lo - 10)
            });
        } else {
            out.push(b);
        }
        proof {
            assert(out@ =~= pre + json_escape_byte(b));
            assert(s@.take(i as int + 1) =~= s@.take(i as int).push(b));
            lemma_json_escaped_push(s@.take(i as int), b);
            assert(out@ =~= old(out)@ + seq![0x22u8] + json_escaped(s@.take(i as int + 1)));
        }
        i = i + 1;
    }
    out.push(0x22);
    proof {
        assert(s@.take(s@.len() as int) =~= s@);
        assert(out@ =~= old(out)@ + json_string(s@));
    }
}

/// Appends the JSON string literal for a string slice to `out`.
pub fn write_json_string(out: &mut Vec<u8>, s: &str)
    ensures
        final(out)@ == old(out)@ + json_string(lit_bytes(s)),
{
    write_json_string_bytes(out, s.as_bytes());
}

/// A JSON boolean.
pub open spec fn json_bool(b: bool) -> Seq<u8> {
    if b {
        lit_bytes("true")
    } else {
        lit_bytes("false")
    }
}

/// Appends a JSON boolean to `out`.
pub fn write_json_bool(out: &mut Vec<u8>, b: bool)
    ensures
        final(out)@ == old(out)@ + json_bool(b),
{
    if b {
        write_lit(out, "true");
    } else {
        write_lit(out, "false");
    }
}

/// Appends a JSON number for a signed 64-bit value to `out`.
pub fn write_json_i64(out: &mut Vec<u8>, n: i64)
    ensures
        final(out)@ == old(out)@ + dec_bytes_i64(n as int),
{
    let mut digits = format_i64(n);
    let ghost pre = out@;
    append_bytes(out, digits.as_slice());
}

/// The items of a JSON array of strings, first `k` elements, joined by
/// commas.
pub open spec fn json_string_items(ss: Seq<Seq<u8>>, k: int) -> Seq<u8>
    decreases k,
{
    if k <= 0 {
        Seq::<u8>::empty()
    } else if k == 1 {
        json_string(ss[0])
    } else {
        json_string_items(ss, k - 1) + lit_bytes(",") + json_string(ss[k - 1])
    }
}

/// A JSON array of strings.
pub open spec fn json_string_array(ss: Seq<Seq<u8>>) -> Seq<u8> {
    lit_bytes("[") + json_string_items(ss, ss.len() as int) + lit_bytes("]")
}

/// Appends a JSON array holding the strings of `items` to `out`.
pub fn write_json_string_array(out: &mut Vec<u8>, items: &Vec<String>)
    ensures
        final(out)@ == old(out)@ + json_string_array(
            items@.map_values(|s: String| vstd::utf8::encode_utf8(s@)),
        ),
{
    let ghost ss = items@.map_values(|s: String| vstd::utf8::encode_utf8(s@));
    write_lit(out, "[");
    let mut i: usize = 0;
    while i < items.len()
        invariant
            0 <= i <= items@.len(),
            ss == items@.map_values(|s: String| vstd::utf8::encode_utf8(s@)),
            out@ == old(out)@ + lit_bytes("[") + json_string_items(ss, i as int),
        decreases items@.len() - i,
    {
        if i > 0 {
            write_lit(out, ",");
        }
        let ghost pre = out@;
        let item = items[i].as_str();
        write_json_string(out, item);
        proof {
            assert(out@ == pre + json_string(vstd::utf8::encode_utf8(items@[i as int]@)));
            assert(ss[i as int] == vstd::utf8::encode_utf8(items@[i as int]@));
            if i == 0 {
                assert(out@ =~= old(out)@ + lit_bytes("[") + json_string_items(ss, i as int + 1));
            } else {
                assert(out@ =~= old(out)@ + lit_bytes("[") + json_string_items(ss, i as int + 1));
            }
        }
        i = i + 1;
    }
    write_lit(out, "]");
    proof {
        assert(out@ =~= old(out)@ + json_string_array(ss));
    }
}

} // verus!
