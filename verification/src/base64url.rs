//! Base64url without padding (RFC 4648 §5), the text form of every key,
//! secret and signature this library handles.
//!
//! Encoding and decoding are implemented here and proved against the
//! specification functions below; decoding is strict (it rejects characters
//! outside the alphabet, lengths `4k+1`, and non-zero trailing bits), so
//! decoding is the exact inverse of encoding.

use vstd::prelude::*;

verus! {

/// The alphabet: value `v` in `0..64` to its base64url byte.
pub open spec fn b64_char_of(v: int) -> u8 {
    if v < 26 {
        (65 + v) as u8  // 'A'..='Z'
    } else if v < 52 {
        (97 + v - 26) as u8  // 'a'..='z'
    } else if v < 62 {
        (48 + v - 52) as u8  // '0'..='9'
    } else if v == 62 {
        45u8  // '-'
    } else {
        95u8  // '_'
    }
}

/// The inverse alphabet: a byte to its value in `0..64`, or `-1` outside
/// the alphabet.
pub open spec fn b64_val_of(c: u8) -> int {
    if 65 <= c && c <= 90 {
        c - 65
    } else if 97 <= c && c <= 122 {
        c - 97 + 26
    } else if 48 <= c && c <= 57 {
        c - 48 + 52
    } else if c == 45 {
        62
    } else if c == 95 {
        63
    } else {
        -1
    }
}

/// Base64url encoding without padding: three input bytes become four
/// characters; a final one or two bytes become two or three.
pub open spec fn b64url_encode_spec(s: Seq<u8>) -> Seq<u8>
    decreases s.len(),
{
    if s.len() == 0 {
        Seq::empty()
    } else if s.len() == 1 {
        let b0 = s[0] as int;
        seq![b64_char_of(b0 / 4), b64_char_of((b0 % 4) * 16)]
    } else if s.len() == 2 {
        let b0 = s[0] as int;
        let b1 = s[1] as int;
        seq![
            b64_char_of(b0 / 4),
            b64_char_of((b0 % 4) * 16 + b1 / 16),
            b64_char_of((b1 % 16) * 4),
        ]
    } else {
        let b0 = s[0] as int;
        let b1 = s[1] as int;
        let b2 = s[2] as int;
        seq![
            b64_char_of(b0 / 4),
            b64_char_of((b0 % 4) * 16 + b1 / 16),
            b64_char_of((b1 % 16) * 4 + b2 / 64),
            b64_char_of(b2 % 64),
        ] + b64url_encode_spec(s.skip(3))
    }
}

/// Strict base64url decoding without padding. `None` on a character outside
/// the alphabet, a length of the form `4k + 1`, or non-zero trailing bits.
pub open spec fn b64url_decode_spec(s: Seq<u8>) -> Option<Seq<u8>>
    decreases s.len(),
{
    if s.len() == 0 {
        Some(Seq::empty())
    } else if s.len() == 1 {
        None
    } else if s.len() == 2 {
        let v0 = b64_val_of(s[0]);
        let v1 = b64_val_of(s[1]);
        if v0 >= 0 && v1 >= 0 && v1 % 16 == 0 {
            Some(seq![(v0 * 4 + v1 / 16) as u8])
        } else {
            None
        }
    } else if s.len() == 3 {
        let v0 = b64_val_of(s[0]);
        let v1 = b64_val_of(s[1]);
        let v2 = b64_val_of(s[2]);
        if v0 >= 0 && v1 >= 0 && v2 >= 0 && v2 % 4 == 0 {
            Some(seq![(v0 * 4 + v1 / 16) as u8, ((v1 % 16) * 16 + v2 / 4) as u8])
        } else {
            None
        }
    } else {
        let v0 = b64_val_of(s[0]);
        let v1 = b64_val_of(s[1]);
        let v2 = b64_val_of(s[2]);
        let v3 = b64_val_of(s[3]);
        if v0 >= 0 && v1 >= 0 && v2 >= 0 && v3 >= 0 {
            match b64url_decode_spec(s.skip(4)) {
                Some(rest) => Some(
                    seq![
                        (v0 * 4 + v1 / 16) as u8,
                        ((v1 % 16) * 16 + v2 / 4) as u8,
                        ((v2 % 4) * 64 + v3) as u8,
                    ] + rest,
                ),
                None => None,
            }
        } else {
            None
        }
    }
}

/// The bytes a base64url text decodes to; empty where it does not decode.
pub open spec fn b64url_decoded_of(s: Seq<u8>) -> Seq<u8> {
    match b64url_decode_spec(s) {
        Some(v) => v,
        None => Seq::empty(),
    }
}

/// True when every byte of `s` lies in the base64url alphabet.
pub open spec fn is_b64url_text(s: Seq<u8>) -> bool {
    forall|i: int| 0 <= i < s.len() ==> b64_val_of(s[i]) >= 0
}

/// The alphabet and its inverse agree.
proof fn lemma_char_val(v: int)
    requires
        0 <= v < 64,
    ensures
        b64_val_of(b64_char_of(v)) == v,
{
}

/// Encoded text stays inside the alphabet.
pub proof fn lemma_encode_is_b64url_text(s: Seq<u8>)
    ensures
        is_b64url_text(b64url_encode_spec(s)),
    decreases s.len(),
{
    if s.len() == 0 {
    } else if s.len() == 1 {
        let b0 = s[0] as int;
        lemma_char_val(b0 / 4);
        lemma_char_val((b0 % 4) * 16);
    } else if s.len() == 2 {
        let b0 = s[0] as int;
        let b1 = s[1] as int;
        lemma_char_val(b0 / 4);
        lemma_char_val((b0 % 4) * 16 + b1 / 16);
        lemma_char_val((b1 % 16) * 4);
    } else {
        let b0 = s[0] as int;
        let b1 = s[1] as int;
        let b2 = s[2] as int;
        lemma_char_val(b0 / 4);
        lemma_char_val((b0 % 4) * 16 + b1 / 16);
        lemma_char_val((b1 % 16) * 4 + b2 / 64);
        lemma_char_val(b2 % 64);
        lemma_encode_is_b64url_text(s.skip(3));
        assert forall|i: int| 0 <= i < b64url_encode_spec(s).len() implies b64_val_of(
            b64url_encode_spec(s)[i],
        ) >= 0 by {
            if i >= 4 {
                assert(b64url_encode_spec(s)[i] == b64url_encode_spec(s.skip(3))[i - 4]);
            }
        }
    }
}

/// The length of the encoding: four characters for each full group of three
/// bytes, and two or three for a final partial group.
pub proof fn lemma_encode_len(s: Seq<u8>)
    ensures
        s.len() % 3 == 0 ==> b64url_encode_spec(s).len() == s.len() / 3 * 4,
        s.len() % 3 == 1 ==> b64url_encode_spec(s).len() == s.len() / 3 * 4 + 2,
        s.len() % 3 == 2 ==> b64url_encode_spec(s).len() == s.len() / 3 * 4 + 3,
    decreases s.len(),
{
    if s.len() >= 3 {
        lemma_encode_len(s.skip(3));
    }
}

/// Decoding inverts encoding exactly.
pub proof fn lemma_b64url_round_trip(s: Seq<u8>)
    ensures
        b64url_decode_spec(b64url_encode_spec(s)) == Some(s),
    decreases s.len(),
{
    let e = b64url_encode_spec(s);
    if s.len() == 0 {
        assert(e.len() == 0);
        assert(b64url_decode_spec(e) == Some(Seq::<u8>::empty()));
        assert(s =~= Seq::<u8>::empty());
    } else if s.len() == 1 {
        let b0 = s[0] as int;
        lemma_char_val(b0 / 4);
        lemma_char_val((b0 % 4) * 16);
        assert(b64url_decode_spec(e) matches Some(d) && d =~= s);
    } else if s.len() == 2 {
        let b0 = s[0] as int;
        let b1 = s[1] as int;
        lemma_char_val(b0 / 4);
        lemma_char_val((b0 % 4) * 16 + b1 / 16);
        lemma_char_val((b1 % 16) * 4);
        assert(b64url_decode_spec(e) matches Some(d) && d =~= s);
    } else {
        let b0 = s[0] as int;
        let b1 = s[1] as int;
        let b2 = s[2] as int;
        lemma_char_val(b0 / 4);
        lemma_char_val((b0 % 4) * 16 + b1 / 16);
        lemma_char_val((b1 % 16) * 4 + b2 / 64);
        lemma_char_val(b2 % 64);
        lemma_b64url_round_trip(s.skip(3));
        lemma_encode_len(s.skip(3));
        assert(e.len() >= 4);
        assert(e.skip(4) =~= b64url_encode_spec(s.skip(3)));
        assert(b64url_decode_spec(e) matches Some(d) && d =~= s);
    }
}

/// The alphabet byte of `v`, executable form.
fn b64_char(v: u8) -> (r: u8)
    requires
        v < 64,
    ensures
        r == b64_char_of(v as int),
{
    if v < 26 {
        65 + v
    } else if v < 52 {
        97 + (v - 26)
    } else if v < 62 {
        48 + (v - 52)
    } else if v == 62 {
        45
    } else {
        95
    }
}

/// The value of an alphabet byte, executable form; `-1` outside the alphabet.
fn b64_val(c: u8) -> (r: i8)
    ensures
        r as int == b64_val_of(c),
{
    if 65 <= c && c <= 90 {
        (c - 65) as i8
    } else if 97 <= c && c <= 122 {
        (c - 97 + 26) as i8
    } else if 48 <= c && c <= 57 {
        (c - 48 + 52) as i8
    } else if c == 45 {
        62
    } else if c == 95 {
        63
    } else {
        -1
    }
}

/// Encode `input` as base64url without padding.
pub fn b64url_encode(input: &[u8]) -> (r: Vec<u8>)
    ensures
        r@ == b64url_encode_spec(input@),
{
    let n = input.len();
    let full: usize = n - n % 3;
    let mut out: Vec<u8> = Vec::new();
    let mut i: usize = 0;
    proof {
        assert(input@.skip(0) =~= input@);
        assert(Seq::<u8>::empty() + b64url_encode_spec(input@) =~= b64url_encode_spec(input@));
    }
    while i < full
        invariant
            i <= full <= n,
            i % 3 == 0,
            full == n - n % 3,
            n == input@.len(),
            out@ + b64url_encode_spec(input@.skip(i as int)) == b64url_encode_spec(input@),
        decreases full - i,
    {
        let b0 = input[i];
        let b1 = input[i + 1];
        let b2 = input[i + 2];
        proof {
            let rest = input@.skip(i as int);
            assert(rest[0] == b0 && rest[1] == b1 && rest[2] == b2);
            assert(rest.skip(3) =~= input@.skip(i + 3));
        }
        out.push(b64_char(b0 / 4));
        out.push(b64_char((b0 % 4) * 16 + b1 / 16));
        out.push(b64_char((b1 % 16) * 4 + b2 / 64));
        out.push(b64_char(b2 % 64));
        i += 3;
    }
    if n - i == 1 {
        let b0 = input[i];
        proof {
            let rest = input@.skip(i as int);
            assert(rest[0] == b0 && rest.len() == 1);
        }
        out.push(b64_char(b0 / 4));
        out.push(b64_char((b0 % 4) * 16));
    } else if n - i == 2 {
        let b0 = input[i];
        let b1 = input[i + 1];
        proof {
            let rest = input@.skip(i as int);
            assert(rest[0] == b0 && rest[1] == b1 && rest.len() == 2);
        }
        out.push(b64_char(b0 / 4));
        out.push(b64_char((b0 % 4) * 16 + b1 / 16));
        out.push(b64_char((b1 % 16) * 4));
    } else {
        proof {
            assert(input@.skip(i as int).len() == 0);
        }
    }
    proof {
        assert(out@ =~= b64url_encode_spec(input@));
    }
    out
}

/// Decode base64url text without padding; `None` exactly where
/// [`b64url_decode_spec`] rejects.
pub fn b64url_decode(input: &[u8]) -> (r: Option<Vec<u8>>)
    ensures
        match r {
            Some(v) => b64url_decode_spec(input@) == Some(v@),
            None => b64url_decode_spec(input@) is None,
        },
{
    let n = input.len();
    let full: usize = n - n % 4;
    let mut out: Vec<u8> = Vec::new();
    let mut j: usize = 0;
    proof {
        assert(input@.skip(0) =~= input@);
        assert(forall|rest: Seq<u8>| #[trigger] (Seq::<u8>::empty() + rest) =~= rest);
    }
    while j < full
        invariant
            j <= full <= n,
            j % 4 == 0,
            full == n - n % 4,
            n == input@.len(),
            b64url_decode_spec(input@) == match b64url_decode_spec(input@.skip(j as int)) {
                Some(rest) => Some(out@ + rest),
                None => None::<Seq<u8>>,
            },
        decreases full - j,
    {
        let v0 = b64_val(input[j]);
        let v1 = b64_val(input[j + 1]);
        let v2 = b64_val(input[j + 2]);
        let v3 = b64_val(input[j + 3]);
        proof {
            let rest = input@.skip(j as int);
            assert(rest[0] == input@[j as int] && rest[1] == input@[j + 1] && rest[2] == input@[j
                + 2] && rest[3] == input@[j + 3]);
            assert(rest.skip(4) =~= input@.skip(j + 4));
        }
        if v0 < 0 || v1 < 0 || v2 < 0 || v3 < 0 {
            return None;
        }
        let u0 = v0 as u8;
        let u1 = v1 as u8;
        let u2 = v2 as u8;
        let u3 = v3 as u8;
        out.push(u0 * 4 + u1 / 16);
        out.push((u1 % 16) * 16 + u2 / 4);
        out.push((u2 % 4) * 64 + u3);
        j += 4;
    }
    if j == n {
        proof {
            assert(input@.skip(j as int).len() == 0);
            assert(out@ + Seq::<u8>::empty() =~= out@);
        }
        Some(out)
    } else if n - j == 1 {
        None
    } else if n - j == 2 {
        let v0 = b64_val(input[j]);
        let v1 = b64_val(input[j + 1]);
        proof {
            let rest = input@.skip(j as int);
            assert(rest[0] == input@[j as int] && rest[1] == input@[j + 1] && rest.len() == 2);
        }
        if v0 < 0 || v1 < 0 || v1 % 16 != 0 {
            return None;
        }
        let u0 = v0 as u8;
        let u1 = v1 as u8;
        out.push(u0 * 4 + u1 / 16);
        proof {
            assert(out@ =~= match b64url_decode_spec(input@) {
                Some(d) => d,
                None => Seq::<u8>::empty(),
            });
        }
        Some(out)
    } else {
        let v0 = b64_val(input[j]);
        let v1 = b64_val(input[j + 1]);
        let v2 = b64_val(input[j + 2]);
        proof {
            let rest = input@.skip(j as int);
            assert(rest[0] == input@[j as int] && rest[1] == input@[j + 1] && rest[2] == input@[j
                + 2] && rest.len() == 3);
        }
        if v0 < 0 || v1 < 0 || v2 < 0 || v2 % 4 != 0 {
            return None;
        }
        let u0 = v0 as u8;
        let u1 = v1 as u8;
        let u2 = v2 as u8;
        out.push(u0 * 4 + u1 / 16);
        out.push((u1 % 16) * 16 + u2 / 4);
        proof {
            assert(out@ =~= match b64url_decode_spec(input@) {
                Some(d) => d,
                None => Seq::<u8>::empty(),
            });
        }
        Some(out)
    }
}

} // verus!
