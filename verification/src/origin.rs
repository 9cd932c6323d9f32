//! Origin extraction: the `aud` claim of a VAPID token is the scheme and
//! host (with the port, when it is explicit and not the scheme's default)
//! of the subscription endpoint.
//!
//! The parser works on the endpoint's bytes: scheme up to the first
//! `"://"`, authority up to the first `/`, `?` or `#`, an optional decimal
//! port after `:`. Scheme and host are lowered to ASCII lower case, and the
//! known default ports (http 80, https 443, ws 80, wss 443, ftp 21) are
//! left out of the origin. Endpoints with userinfo, bracketed IPv6 hosts or
//! non-ASCII host bytes are rejected; push service endpoints have none of
//! these.

use crate::text::{
    ascii_chars_of, dec_nat_of, is_ascii_bytes, lemma_dec_nat_ascii, push_dec_u64,
    string_from_ascii,
};
use crate::PushError;
use vstd::prelude::*;
use vstd::slice::slice_subrange;
use vstd::string::StringSliceAdditionalSpecFns;

verus! {

pub open spec fn is_alpha(b: u8) -> bool {
    (65 <= b && b <= 90) || (97 <= b && b <= 122)
}

pub open spec fn is_digit(b: u8) -> bool {
    48 <= b && b <= 57
}

/// Bytes a scheme may contain after its leading letter.
pub open spec fn is_scheme_byte(b: u8) -> bool {
    is_alpha(b) || is_digit(b) || b == 43 || b == 45 || b == 46
}

/// A scheme: a letter, then letters, digits, `+`, `-` or `.`.
pub open spec fn valid_scheme(s: Seq<u8>) -> bool {
    s.len() >= 1 && is_alpha(s[0]) && (forall|i: int| 0 <= i < s.len() ==> is_scheme_byte(s[i]))
}

/// ASCII lower case of one byte.
pub open spec fn to_lower(b: u8) -> u8 {
    if 65 <= b && b <= 90 {
        (b + 32) as u8
    } else {
        b
    }
}

/// ASCII lower case, pointwise.
pub open spec fn lower_of(s: Seq<u8>) -> Seq<u8> {
    Seq::new(s.len(), |i: int| to_lower(s[i]))
}

/// The index of the first `"://"` in `s`; `s.len()` when there is none.
pub open spec fn find_sep(s: Seq<u8>) -> int
    decreases s.len(),
{
    if s.len() < 3 {
        s.len() as int
    } else if s[0] == 58 && s[1] == 47 && s[2] == 47 {
        0
    } else {
        1 + find_sep(s.skip(1))
    }
}

/// The index of the first `/`, `?` or `#` in `s`; `s.len()` when there is
/// none.
pub open spec fn find_delim(s: Seq<u8>) -> int
    decreases s.len(),
{
    if s.len() == 0 {
        0
    } else if s[0] == 47 || s[0] == 63 || s[0] == 35 {
        0
    } else {
        1 + find_delim(s.skip(1))
    }
}

/// The index of the first `b` in `s`; `s.len()` when there is none.
pub open spec fn find_byte(s: Seq<u8>, b: u8) -> int
    decreases s.len(),
{
    if s.len() == 0 {
        0
    } else if s[0] == b {
        0
    } else {
        1 + find_byte(s.skip(1), b)
    }
}

/// The value of a big-endian decimal digit string.
pub open spec fn dec_value_of(s: Seq<u8>) -> int
    decreases s.len(),
{
    if s.len() == 0 {
        0
    } else {
        dec_value_of(s.drop_last()) * 10 + (s.last() - 48)
    }
}

/// The default port of a scheme (over its lower-case bytes); `-1` where
/// none is known.
pub open spec fn default_port_of(scheme: Seq<u8>) -> int {
    if scheme == seq![104u8, 116u8, 116u8, 112u8] {
        80  // http
    } else if scheme == seq![104u8, 116u8, 116u8, 112u8, 115u8] {
        443  // https
    } else if scheme == seq![119u8, 115u8] {
        80  // ws
    } else if scheme == seq![119u8, 115u8, 115u8] {
        443  // wss
    } else if scheme == seq![102u8, 116u8, 112u8] {
        21  // ftp
    } else {
        -1
    }
}

/// The origin of an endpoint, or `None` where the endpoint is not a URL
/// this parser accepts.
pub open spec fn origin_spec(s: Seq<u8>) -> Option<Seq<u8>> {
    let f = find_sep(s);
    if f + 3 > s.len() {
        None
    } else if !valid_scheme(s.subrange(0, f)) {
        None
    } else {
        let rest = s.skip(f + 3);
        let auth = rest.subrange(0, find_delim(rest));
        if exists|k: int| 0 <= k < auth.len() && (auth[k] == 64 || auth[k] == 91) {
            None
        } else {
            let c = find_byte(auth, 58);
            let host = auth.subrange(0, c);
            if host.len() == 0 || !is_ascii_bytes(host) {
                None
            } else {
                let base = lower_of(s.subrange(0, f)) + seq![58u8, 47u8, 47u8] + lower_of(host);
                if c >= auth.len() || auth.skip(c + 1).len() == 0 {
                    Some(base)
                } else {
                    let ps = auth.skip(c + 1);
                    if !(forall|k: int| 0 <= k < ps.len() ==> is_digit(ps[k])) {
                        None
                    } else if dec_value_of(ps) > 65535 {
                        None
                    } else if dec_value_of(ps) == default_port_of(lower_of(s.subrange(0, f))) {
                        Some(base)
                    } else {
                        Some(base + seq![58u8] + dec_nat_of(dec_value_of(ps)))
                    }
                }
            }
        }
    }
}

/// The origin itself; empty where the endpoint is rejected.
pub open spec fn origin_of(s: Seq<u8>) -> Seq<u8> {
    match origin_spec(s) {
        Some(o) => o,
        None => Seq::empty(),
    }
}

/// An accepted origin is ASCII text.
pub proof fn lemma_origin_ascii(s: Seq<u8>)
    ensures
        origin_spec(s) matches Some(o) ==> is_ascii_bytes(o),
{
    let f = find_sep(s);
    if f + 3 <= s.len() && valid_scheme(s.subrange(0, f)) {
        let scheme = s.subrange(0, f);
        let rest = s.skip(f + 3);
        let auth = rest.subrange(0, find_delim(rest));
        let c = find_byte(auth, 58);
        let host = auth.subrange(0, c);
        if host.len() > 0 && is_ascii_bytes(host) {
            let base = lower_of(scheme) + seq![58u8, 47u8, 47u8] + lower_of(host);
            assert forall|i: int| 0 <= i < base.len() implies base[i] < 128 by {
                if i < scheme.len() {
                    assert(is_scheme_byte(scheme[i]));
                    assert(base[i] == to_lower(scheme[i]));
                } else if i >= scheme.len() + 3 {
                    assert(host[i - scheme.len() - 3] < 128);
                    assert(base[i] == to_lower(host[i - scheme.len() - 3]));
                }
            }
            assert(is_ascii_bytes(base));
            let ps = auth.skip(c + 1);
            lemma_dec_nat_ascii(dec_value_of(ps));
            let with_port = base + seq![58u8] + dec_nat_of(dec_value_of(ps));
            assert forall|i: int| 0 <= i < with_port.len() implies with_port[i] < 128 by {
                if i < base.len() {
                    assert(with_port[i] == base[i]);
                } else if i >= base.len() + 1 {
                    assert(with_port[i] == dec_nat_of(dec_value_of(ps))[i - base.len() - 1]);
                }
            }
            assert(is_ascii_bytes(with_port));
        }
    }
}

/// Where the first `"://"` sits: at `find_sep`, and nowhere earlier.
proof fn lemma_find_sep(s: Seq<u8>)
    ensures
        0 <= find_sep(s) <= s.len(),
        find_sep(s) + 3 <= s.len() ==> (s[find_sep(s)] == 58 && s[find_sep(s) + 1] == 47
            && s[find_sep(s) + 2] == 47),
        forall|k: int| #![trigger s[k]]
            0 <= k < find_sep(s) && k + 3 <= s.len() ==> !(s[k] == 58 && s[k + 1] == 47 && s[k + 2]
                == 47),
        find_sep(s) + 3 <= s.len() || find_sep(s) == s.len(),
    decreases s.len(),
{
    if s.len() >= 3 && !(s[0] == 58 && s[1] == 47 && s[2] == 47) {
        lemma_find_sep(s.skip(1));
        assert forall|k: int| #![trigger s[k]]
            0 <= k < find_sep(s) && k + 3 <= s.len() implies !(s[k] == 58 && s[k + 1] == 47 && s[k
            + 2] == 47) by {
            if k > 0 {
                assert(s.skip(1)[k - 1] == s[k]);
                assert(s.skip(1)[k] == s[k + 1]);
                assert(s.skip(1)[k + 1] == s[k + 2]);
            }
        }
    }
}

/// Where the first path/query/fragment delimiter sits.
proof fn lemma_find_delim(s: Seq<u8>)
    ensures
        0 <= find_delim(s) <= s.len(),
        find_delim(s) < s.len() ==> (s[find_delim(s)] == 47 || s[find_delim(s)] == 63
            || s[find_delim(s)] == 35),
        forall|k: int| 0 <= k < find_delim(s) ==> !(s[k] == 47 || s[k] == 63 || s[k] == 35),
    decreases s.len(),
{
    if s.len() > 0 && !(s[0] == 47 || s[0] == 63 || s[0] == 35) {
        lemma_find_delim(s.skip(1));
        assert forall|k: int|
            0 <= k < find_delim(s) implies !(s[k] == 47 || s[k] == 63 || s[k] == 35) by {
            if k > 0 {
                assert(s.skip(1)[k - 1] == s[k]);
            }
        }
    }
}

/// Where the first `b` sits.
proof fn lemma_find_byte(s: Seq<u8>, b: u8)
    ensures
        0 <= find_byte(s, b) <= s.len(),
        find_byte(s, b) < s.len() ==> s[find_byte(s, b)] == b,
        forall|k: int| 0 <= k < find_byte(s, b) ==> s[k] != b,
    decreases s.len(),
{
    if s.len() > 0 && s[0] != b {
        lemma_find_byte(s.skip(1), b);
        assert forall|k: int| 0 <= k < find_byte(s, b) implies s[k] != b by {
            if k > 0 {
                assert(s.skip(1)[k - 1] == s[k]);
            }
        }
    }
}

/// First index of `"://"` in `s`, or its length.
fn scan_sep(s: &[u8]) -> (r: usize)
    ensures
        r as int == find_sep(s@),
{
    proof {
        lemma_find_sep(s@);
    }
    let n = s.len();
    if n < 3 {
        return n;
    }
    let mut i: usize = 0;
    while i <= n - 3
        invariant
            n == s@.len(),
            n >= 3,
            0 <= i <= n - 2,
            forall|k: int| #![trigger s@[k]]
                0 <= k < i && k + 3 <= s@.len() ==> !(s@[k] == 58 && s@[k + 1] == 47 && s@[k + 2]
                    == 47),
        decreases n - i,
    {
        if s[i] == 58 && s[i + 1] == 47 && s[i + 2] == 47 {
            proof {
                lemma_find_sep(s@);
                if find_sep(s@) < i {
                    assert(false);
                }
                if find_sep(s@) > i {
                    assert(false);
                }
            }
            return i;
        }
        i += 1;
    }
    proof {
        lemma_find_sep(s@);
        if find_sep(s@) + 3 <= s@.len() {
            assert(false);
        }
    }
    n
}

/// First index of `/`, `?` or `#` in `s`, or its length.
fn scan_delim(s: &[u8]) -> (r: usize)
    ensures
        r as int == find_delim(s@),
{
    proof {
        lemma_find_delim(s@);
    }
    let n = s.len();
    let mut i: usize = 0;
    while i < n
        invariant
            n == s@.len(),
            0 <= i <= n,
            forall|k: int| 0 <= k < i ==> !(s@[k] == 47 || s@[k] == 63 || s@[k] == 35),
        decreases n - i,
    {
        if s[i] == 47 || s[i] == 63 || s[i] == 35 {
            proof {
                lemma_find_delim(s@);
                if find_delim(s@) < i {
                    assert(false);
                }
                if find_delim(s@) > i {
                    assert(false);
                }
            }
            return i;
        }
        i += 1;
    }
    proof {
        lemma_find_delim(s@);
        if find_delim(s@) < s@.len() {
            assert(false);
        }
    }
    n
}

/// First index of `b` in `s`, or its length.
fn scan_byte(s: &[u8], b: u8) -> (r: usize)
    ensures
        r as int == find_byte(s@, b),
{
    proof {
        lemma_find_byte(s@, b);
    }
    let n = s.len();
    let mut i: usize = 0;
    while i < n
        invariant
            n == s@.len(),
            0 <= i <= n,
            forall|k: int| 0 <= k < i ==> s@[k] != b,
        decreases n - i,
    {
        if s[i] == b {
            proof {
                lemma_find_byte(s@, b);
                if find_byte(s@, b) < i {
                    assert(false);
                }
                if find_byte(s@, b) > i {
                    assert(false);
                }
            }
            return i;
        }
        i += 1;
    }
    proof {
        lemma_find_byte(s@, b);
        if find_byte(s@, b) < s@.len() {
            assert(false);
        }
    }
    n
}

/// Append `s` lowered to ASCII lower case.
fn push_lower(out: &mut Vec<u8>, s: &[u8])
    ensures
        final (out)@ == old(out)@ + lower_of(s@),
{
    let n = s.len();
    let mut i: usize = 0;
    while i < n
        invariant
            n == s@.len(),
            0 <= i <= n,
            out@.len() == old(out)@.len() + i,
            forall|k: int| 0 <= k < old(out)@.len() ==> out@[k] == old(out)@[k],
            forall|k: int| 0 <= k < i ==> out@[old(out)@.len() + k] == to_lower(s@[k]),
        decreases n - i,
    {
        let b = s[i];
        if 65 <= b && b <= 90 {
            out.push(b + 32);
        } else {
            out.push(b);
        }
        i += 1;
    }
    proof {
        assert(out@ =~= old(out)@ + lower_of(s@));
    }
}

/// The default port of a scheme, or `-1`.
fn default_port(scheme: &[u8]) -> (r: i32)
    ensures
        r as int == default_port_of(scheme@),
{
    let n = scheme.len();
    if n == 4 && scheme[0] == 104 && scheme[1] == 116 && scheme[2] == 116 && scheme[3] == 112 {
        proof {
            assert(scheme@ =~= seq![104u8, 116u8, 116u8, 112u8]);
        }
        80
    } else if n == 5 && scheme[0] == 104 && scheme[1] == 116 && scheme[2] == 116 && scheme[3]
        == 112 && scheme[4] == 115 {
        proof {
            assert(scheme@ =~= seq![104u8, 116u8, 116u8, 112u8, 115u8]);
        }
        443
    } else if n == 2 && scheme[0] == 119 && scheme[1] == 115 {
        proof {
            assert(scheme@ =~= seq![119u8, 115u8]);
        }
        80
    } else if n == 3 && scheme[0] == 119 && scheme[1] == 115 && scheme[2] == 115 {
        proof {
            assert(scheme@ =~= seq![119u8, 115u8, 115u8]);
        }
        443
    } else if n == 3 && scheme[0] == 102 && scheme[1] == 116 && scheme[2] == 112 {
        proof {
            assert(scheme@ =~= seq![102u8, 116u8, 112u8]);
        }
        21
    } else {
        -1
    }
}

/// Extract the origin of a push endpoint: scheme, host, and the explicit
/// non-default port if any.
///
/// The accepted grammar is deliberately the one push service endpoints
/// use: endpoints with userinfo, bracketed IPv6 hosts or non-ASCII host
/// bytes are rejected by design, not parsed. Every rejection — those
/// forms included — is corrupt subscription data, reported as
/// `InvalidKey`; no input string can make this function panic.
pub fn extract_origin(endpoint: &str) -> (r: Result<String, PushError>)
    ensures
        r is Ok <==> origin_spec(endpoint.spec_bytes()) is Some,
        r matches Ok(s) ==> (origin_spec(endpoint.spec_bytes()) matches Some(o) && s@
            == ascii_chars_of(o)),
        r matches Err(e) ==> e is InvalidKey,
{
    let s = endpoint.as_bytes();
    let n = s.len();
    let f = scan_sep(s);
    proof {
        lemma_find_sep(s@);
    }
    if n < 3 || f > n - 3 {
        return Err(PushError::InvalidKey);
    }
    let scheme = slice_subrange(s, 0, f);
    // Validate the scheme.
    if scheme.len() == 0 {
        return Err(PushError::InvalidKey);
    }
    let s0 = scheme[0];
    if !((65 <= s0 && s0 <= 90) || (97 <= s0 && s0 <= 122)) {
        return Err(PushError::InvalidKey);
    }
    let mut i: usize = 0;
    while i < scheme.len()
        invariant
            scheme@ == endpoint.spec_bytes().subrange(0, find_sep(endpoint.spec_bytes())),
            0 <= i <= scheme@.len(),
            forall|k: int| 0 <= k < i ==> is_scheme_byte(scheme@[k]),
        decreases scheme@.len() - i,
    {
        let b = scheme[i];
        let ok = (65 <= b && b <= 90) || (97 <= b && b <= 122) || (48 <= b && b <= 57) || b == 43
            || b == 45 || b == 46;
        if !ok {
            return Err(PushError::InvalidKey);
        }
        i += 1;
    }
    proof {
        assert(valid_scheme(endpoint.spec_bytes().subrange(0, f as int)));
    }
    let rest = slice_subrange(s, f + 3, n);
    let aend = scan_delim(rest);
    proof {
        lemma_find_delim(rest@);
    }
    let auth = slice_subrange(rest, 0, aend);
    proof {
        assert(rest@ =~= endpoint.spec_bytes().skip(f + 3));
    }
    // Reject userinfo and bracketed hosts.
    let mut j: usize = 0;
    while j < auth.len()
        invariant
            auth@ == endpoint.spec_bytes().skip(find_sep(endpoint.spec_bytes()) + 3).subrange(
                0,
                find_delim(endpoint.spec_bytes().skip(find_sep(endpoint.spec_bytes()) + 3)),
            ),
            0 <= j <= auth@.len(),
            forall|k: int| 0 <= k < j ==> !(auth@[k] == 64 || auth@[k] == 91),
        decreases auth@.len() - j,
    {
        let b = auth[j];
        if b == 64 || b == 91 {
            return Err(PushError::InvalidKey);
        }
        j += 1;
    }
    let c = scan_byte(auth, 58);
    proof {
        lemma_find_byte(auth@, 58);
    }
    let host = slice_subrange(auth, 0, c);
    if host.len() == 0 {
        return Err(PushError::InvalidKey);
    }
    // Reject non-ASCII host bytes.
    let mut h: usize = 0;
    while h < host.len()
        invariant
            host@ == endpoint.spec_bytes().skip(find_sep(endpoint.spec_bytes()) + 3).subrange(
                0,
                find_delim(endpoint.spec_bytes().skip(find_sep(endpoint.spec_bytes()) + 3)),
            ).subrange(
                0,
                find_byte(
                    endpoint.spec_bytes().skip(find_sep(endpoint.spec_bytes()) + 3).subrange(
                        0,
                        find_delim(
                            endpoint.spec_bytes().skip(find_sep(endpoint.spec_bytes()) + 3),
                        ),
                    ),
                    58,
                ),
            ),
            0 <= h <= host@.len(),
            forall|k: int| 0 <= k < h ==> host@[k] < 128,
        decreases host@.len() - h,
    {
        if host[h] >= 128 {
            return Err(PushError::InvalidKey);
        }
        h += 1;
    }
    let mut low_scheme: Vec<u8> = Vec::new();
    push_lower(&mut low_scheme, scheme);
    let mut out: Vec<u8> = Vec::new();
    out.extend_from_slice(low_scheme.as_slice());
    out.push(58);
    out.push(47);
    out.push(47);
    push_lower(&mut out, host);
    let ghost base = lower_of(endpoint.spec_bytes().subrange(0, f as int)) + seq![
        58u8,
        47u8,
        47u8,
    ] + lower_of(host@);
    proof {
        assert(out@ =~= base);
        assert forall|ii: int| 0 <= ii < out@.len() implies out@[ii] < 128 by {
            assert(out@[ii] == base[ii]);
        }
    }
    if c >= auth.len() || auth.len() - c - 1 == 0 {
        proof {
            assert(endpoint.spec_bytes().skip(f as int + 3).subrange(0, aend as int).skip(
                c + 1,
            ).len() == 0 || c >= auth@.len());
        }
        return Ok(string_from_ascii(out));
    }
    let port_bytes = slice_subrange(auth, c + 1, auth.len());
    proof {
        assert(port_bytes@ =~= auth@.skip(c + 1));
    }
    // The port: all digits, value at most 65535.
    let mut value: u32 = 0;
    let mut p: usize = 0;
    while p < port_bytes.len()
        invariant
            port_bytes@ == endpoint.spec_bytes().skip(find_sep(endpoint.spec_bytes()) + 3)
                .subrange(
                0,
                find_delim(endpoint.spec_bytes().skip(find_sep(endpoint.spec_bytes()) + 3)),
            ).skip(
                find_byte(
                    endpoint.spec_bytes().skip(find_sep(endpoint.spec_bytes()) + 3).subrange(
                        0,
                        find_delim(
                            endpoint.spec_bytes().skip(find_sep(endpoint.spec_bytes()) + 3),
                        ),
                    ),
                    58,
                ) + 1,
            ),
            find_byte(
                endpoint.spec_bytes().skip(find_sep(endpoint.spec_bytes()) + 3).subrange(
                    0,
                    find_delim(endpoint.spec_bytes().skip(find_sep(endpoint.spec_bytes()) + 3)),
                ),
                58,
            ) < endpoint.spec_bytes().skip(find_sep(endpoint.spec_bytes()) + 3).subrange(
                0,
                find_delim(endpoint.spec_bytes().skip(find_sep(endpoint.spec_bytes()) + 3)),
            ).len(),
            port_bytes@.len() > 0,
            0 <= p <= port_bytes@.len(),
            forall|k: int| 0 <= k < p ==> is_digit(port_bytes@[k]),
            value <= 655359,
            dec_value_of(port_bytes@.subrange(0, p as int)) <= 65535 ==> value as int
                == dec_value_of(port_bytes@.subrange(0, p as int)),
            dec_value_of(port_bytes@.subrange(0, p as int)) > 65535 ==> value > 65535,
            dec_value_of(port_bytes@.subrange(0, p as int)) >= 0,
        decreases port_bytes@.len() - p,
    {
        let b = port_bytes[p];
        if !(48 <= b && b <= 57) {
            proof {
                assert(!is_digit(port_bytes@[p as int]));
            }
            return Err(PushError::InvalidKey);
        }
        let ghost prefix = port_bytes@.subrange(0, p as int);
        let ghost prefix1 = port_bytes@.subrange(0, p + 1);
        proof {
            assert(prefix1.drop_last() =~= prefix);
            assert(prefix1.last() == b);
        }
        if value > 65535 {
            value = 65536;
        } else {
            value = value * 10 + ((b - 48) as u32);
        }
        proof {
            assert(dec_value_of(prefix1) == dec_value_of(prefix) * 10 + (b - 48));
        }
        p += 1;
    }
    proof {
        assert(port_bytes@.subrange(0, port_bytes@.len() as int) =~= port_bytes@);
    }
    if value > 65535 {
        return Err(PushError::InvalidKey);
    }
    let dp = default_port(low_scheme.as_slice());
    if dp >= 0 && value == (dp as u32) {
        return Ok(string_from_ascii(out));
    }
    out.push(58);
    push_dec_u64(&mut out, value as u64);
    proof {
        assert(out@ =~= base + seq![58u8] + dec_nat_of(dec_value_of(port_bytes@)));
        lemma_dec_nat_ascii(dec_value_of(port_bytes@));
        assert forall|ii: int| 0 <= ii < out@.len() implies out@[ii] < 128 by {
            assert(out@[ii] == (base + seq![58u8] + dec_nat_of(dec_value_of(port_bytes@)))[ii]);
        }
    }
    Ok(string_from_ascii(out))
}

} // verus!
