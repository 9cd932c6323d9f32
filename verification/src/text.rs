//! Byte-level text building: ASCII strings, JSON string escaping and
//! decimal rendering of integers. The JSON claims of a VAPID token are
//! assembled from these pieces, so each is specified exactly.

use vstd::prelude::*;

verus! {

/// ASCII bytes read as the characters they encode.
pub open spec fn ascii_chars_of(b: Seq<u8>) -> Seq<char> {
    Seq::new(b.len(), |i: int| b[i] as char)
}

/// All bytes below 128.
pub open spec fn is_ascii_bytes(b: Seq<u8>) -> bool {
    forall|i: int| 0 <= i < b.len() ==> b[i] < 128
}

/// Relies on `String::from_utf8`: bytes below 128 are valid UTF-8 and
/// decode to exactly those bytes as characters.
#[verifier::external_body]
pub(crate) fn string_from_ascii(b: Vec<u8>) -> (r: String)
    requires
        is_ascii_bytes(b@),
    ensures
        r@ == ascii_chars_of(b@),
{
    match String::from_utf8(b) {
        Ok(s) => s,
        Err(_) => String::new(),
    }
}

/// The decimal digits of `n` for positive `n`, empty for zero.
pub open spec fn dec_digits_of(n: int) -> Seq<u8>
    decreases n,
{
    if n <= 0 {
        Seq::empty()
    } else {
        dec_digits_of(n / 10).push((48 + n % 10) as u8)
    }
}

/// The decimal rendering of a non-negative integer.
pub open spec fn dec_nat_of(n: int) -> Seq<u8> {
    if n == 0 {
        seq![48u8]
    } else {
        dec_digits_of(n)
    }
}

/// The decimal rendering of a signed integer, with a leading `-` when
/// negative.
pub open spec fn dec_int_of(n: int) -> Seq<u8> {
    if n < 0 {
        seq![45u8] + dec_nat_of(-n)
    } else {
        dec_nat_of(n)
    }
}

fn push_dec_pos(out: &mut Vec<u8>, n: u64)
    requires
        n > 0,
    ensures
        final (out)@ == old(out)@ + dec_digits_of(n as int),
    decreases n,
{
    if n >= 10 {
        push_dec_pos(out, n / 10);
    }
    out.push(48 + (n % 10) as u8);
    proof {
        if n < 10 {
            assert(dec_digits_of(n as int / 10) =~= Seq::<u8>::empty());
        }
        assert(old(out)@ + dec_digits_of(n as int) =~= (old(out)@ + dec_digits_of(
            n as int / 10,
        )).push((48 + n as int % 10) as u8));
    }
}

/// Append the decimal rendering of `n`.
pub fn push_dec_u64(out: &mut Vec<u8>, n: u64)
    ensures
        final (out)@ == old(out)@ + dec_nat_of(n as int),
{
    if n == 0 {
        out.push(48);
        proof {
            assert(old(out)@ + dec_nat_of(0) =~= old(out)@.push(48u8));
        }
    } else {
        push_dec_pos(out, n);
    }
}

/// Append the decimal rendering of `n`, sign included.
pub fn push_dec_i64(out: &mut Vec<u8>, n: i64)
    ensures
        final (out)@ == old(out)@ + dec_int_of(n as int),
{
    if n >= 0 {
        push_dec_u64(out, n as u64);
    } else {
        out.push(45);
        let m: u64 = if n == i64::MIN {
            9223372036854775808u64
        } else {
            (-n) as u64
        };
        push_dec_u64(out, m);
        proof {
            assert(old(out)@ + dec_int_of(n as int) =~= (old(out)@.push(45u8)) + dec_nat_of(
                m as int,
            ));
        }
    }
}

/// ASCII bytes survive the round trip through characters and UTF-8.
pub proof fn lemma_encode_ascii_chars(b: Seq<u8>)
    requires
        is_ascii_bytes(b),
    ensures
        vstd::utf8::encode_utf8(ascii_chars_of(b)) == b,
{
    let chars = ascii_chars_of(b);
    assert(vstd::utf8::is_ascii_chars(chars)) by {
        assert forall|i: int| 0 <= i < chars.len() implies '\0' <= #[trigger] chars[i]
            <= '\u{7f}' by {
            assert(chars[i] == b[i] as char);
        }
    }
    vstd::utf8::is_ascii_chars_encode_utf8(chars);
    assert(vstd::utf8::encode_utf8(chars) =~= b);
}

/// Decimal digits render as ASCII digit bytes.
pub proof fn lemma_dec_digits_ascii(n: int)
    ensures
        forall|i: int|
            0 <= i < dec_digits_of(n).len() ==> (48 <= dec_digits_of(n)[i] && dec_digits_of(
                n,
            )[i] <= 57),
    decreases n,
{
    if n > 0 {
        lemma_dec_digits_ascii(n / 10);
        assert forall|i: int|
            0 <= i < dec_digits_of(n).len() implies (48 <= dec_digits_of(n)[i] && dec_digits_of(
            n,
        )[i] <= 57) by {
            if i < dec_digits_of(n).len() - 1 {
                assert(dec_digits_of(n)[i] == dec_digits_of(n / 10)[i]);
            }
        }
    }
}

/// Decimal renderings are ASCII digit bytes.
pub proof fn lemma_dec_nat_ascii(n: int)
    ensures
        forall|i: int|
            0 <= i < dec_nat_of(n).len() ==> (48 <= dec_nat_of(n)[i] && dec_nat_of(n)[i] <= 57),
{
    lemma_dec_digits_ascii(n);
}

/// A hex digit (lower case) for a value below 16.
pub open spec fn hex_digit_of(v: int) -> u8 {
    if v < 10 {
        (48 + v) as u8
    } else {
        (87 + v) as u8
    }
}

/// How one byte appears inside a JSON string literal: `"` and `\` get a
/// backslash escape, control bytes a `\u00XX` escape, and every other byte
/// stands for itself.
pub open spec fn json_escaped_byte_of(b: u8) -> Seq<u8> {
    if b == 34 {
        seq![92u8, 34u8]
    } else if b == 92 {
        seq![92u8, 92u8]
    } else if b < 32 {
        seq![92u8, 117u8, 48u8, 48u8, hex_digit_of(b as int / 16), hex_digit_of(b as int % 16)]
    } else {
        seq![b]
    }
}

/// A byte string escaped for use inside a JSON string literal.
pub open spec fn json_escaped_of(s: Seq<u8>) -> Seq<u8>
    decreases s.len(),
{
    if s.len() == 0 {
        Seq::empty()
    } else {
        json_escaped_byte_of(s[0]) + json_escaped_of(s.skip(1))
    }
}

/// Append `s` escaped for a JSON string literal.
pub fn push_json_escaped(out: &mut Vec<u8>, s: &[u8])
    ensures
        final (out)@ == old(out)@ + json_escaped_of(s@),
{
    let n = s.len();
    let mut i: usize = 0;
    proof {
        assert(s@.skip(0) =~= s@);
    }
    while i < n
        invariant
            i <= n,
            n == s@.len(),
            out@ + json_escaped_of(s@.skip(i as int)) == old(out)@ + json_escaped_of(s@),
        decreases n - i,
    {
        let b = s[i];
        let ghost prev = out@;
        proof {
            let rest = s@.skip(i as int);
            assert(rest[0] == b);
            assert(rest.skip(1) =~= s@.skip(i + 1));
        }
        if b == 34 {
            out.push(92);
            out.push(34);
        } else if b == 92 {
            out.push(92);
            out.push(92);
        } else if b < 32 {
            out.push(92);
            out.push(117);
            out.push(48);
            out.push(48);
            let hi = b / 16;
            let lo = b % 16;
            out.push(if hi < 10 { 48 + hi } else { 87 + hi });
            out.push(if lo < 10 { 48 + lo } else { 87 + lo });
        } else {
            out.push(b);
        }
        proof {
            let rest = s@.skip(i as int);
            assert(out@ =~= prev + json_escaped_byte_of(b));
            assert(json_escaped_of(rest) =~= json_escaped_byte_of(b) + json_escaped_of(
                s@.skip(i + 1),
            ));
            assert(out@ + json_escaped_of(s@.skip(i + 1)) =~= prev + json_escaped_of(rest));
        }
        i += 1;
    }
    proof {
        assert(json_escaped_of(s@.skip(n as int)) =~= Seq::<u8>::empty());
        assert(out@ =~= old(out)@ + json_escaped_of(s@));
    }
}

} // verus!
