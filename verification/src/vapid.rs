//! RFC 8292 VAPID authentication: a compact JWT with header
//! `{"alg":"ES256"}`, claims `{aud, exp, sub}`, and a raw 64-byte `r ‖ s`
//! ES256 signature (never ASN.1 DER), each segment base64url without
//! padding and the three joined with dots.

use crate::base64url::{
    b64url_decode, b64url_decode_spec, b64url_decoded_of, b64url_encode, b64url_encode_spec,
    b64_val_of, is_b64url_text, lemma_b64url_round_trip, lemma_encode_is_b64url_text,
};
use crate::crypto;
use crate::text::{
    ascii_chars_of, dec_int_of, is_ascii_bytes, json_escaped_of, push_dec_i64, push_json_escaped,
    string_from_ascii,
};
use crate::PushError;
use vstd::prelude::*;
use vstd::string::StringSliceAdditionalSpecFns;

verus! {

/// The bytes of `{"alg":"ES256"}`.
pub open spec fn jwt_header_json() -> Seq<u8> {
    seq![
        123u8,
        34u8,
        97u8,
        108u8,
        103u8,
        34u8,
        58u8,
        34u8,
        69u8,
        83u8,
        50u8,
        53u8,
        54u8,
        34u8,
        125u8,
    ]
}

/// The bytes of `{"aud":"<audience>","exp":<exp>,"sub":"<subject>"}`, the
/// audience and subject escaped as JSON string literals.
pub open spec fn claims_json_of(aud: Seq<u8>, sub: Seq<u8>, exp: int) -> Seq<u8> {
    seq![123u8, 34u8, 97u8, 117u8, 100u8, 34u8, 58u8, 34u8] + json_escaped_of(aud) + seq![
        34u8,
        44u8,
        34u8,
        101u8,
        120u8,
        112u8,
        34u8,
        58u8,
    ] + dec_int_of(exp) + seq![44u8, 34u8, 115u8, 117u8, 98u8, 34u8, 58u8, 34u8] + json_escaped_of(
        sub,
    ) + seq![34u8, 125u8]
}

/// What is signed: `base64url(header) ‖ "." ‖ base64url(claims)`.
pub open spec fn signing_input_of(aud: Seq<u8>, sub: Seq<u8>, exp: int) -> Seq<u8> {
    b64url_encode_spec(jwt_header_json()) + seq![46u8] + b64url_encode_spec(
        claims_json_of(aud, sub, exp),
    )
}

/// The complete token: the signing input, a dot, and the base64url of the
/// deterministic ES256 signature over the signing input.
pub open spec fn jwt_of(aud: Seq<u8>, sub: Seq<u8>, exp: int, key: Seq<u8>) -> Seq<u8> {
    signing_input_of(aud, sub, exp) + seq![46u8] + b64url_encode_spec(
        crypto::es256_sig_of(key, signing_input_of(aud, sub, exp)),
    )
}

/// Whether a base64url string decodes to a well-formed VAPID private key:
/// 32 bytes that are a valid P-256 scalar.
pub open spec fn vapid_key_ok(b64: Seq<u8>) -> bool {
    b64url_decode_spec(b64) matches Some(k) && k.len() == 32 && crypto::p256_scalar_ok(k)
}

/// Base64url text is ASCII and contains no dot.
pub proof fn lemma_b64url_text_ascii(s: Seq<u8>)
    requires
        is_b64url_text(s),
    ensures
        is_ascii_bytes(s),
        forall|i: int| 0 <= i < s.len() ==> s[i] != 46,
{
    assert forall|i: int| 0 <= i < s.len() implies s[i] < 128 && s[i] != 46 by {
        assert(b64_val_of(s[i]) >= 0);
    }
}

/// A token is ASCII text.
pub proof fn lemma_jwt_ascii(aud: Seq<u8>, sub: Seq<u8>, exp: int, key: Seq<u8>)
    ensures
        is_ascii_bytes(jwt_of(aud, sub, exp, key)),
{
    lemma_encode_is_b64url_text(jwt_header_json());
    lemma_encode_is_b64url_text(claims_json_of(aud, sub, exp));
    lemma_encode_is_b64url_text(crypto::es256_sig_of(key, signing_input_of(aud, sub, exp)));
    lemma_b64url_text_ascii(b64url_encode_spec(jwt_header_json()));
    lemma_b64url_text_ascii(b64url_encode_spec(claims_json_of(aud, sub, exp)));
    lemma_b64url_text_ascii(
        b64url_encode_spec(crypto::es256_sig_of(key, signing_input_of(aud, sub, exp))),
    );
    assert forall|i: int| 0 <= i < jwt_of(aud, sub, exp, key).len() implies jwt_of(
        aud,
        sub,
        exp,
        key,
    )[i] < 128 by {
        assert(jwt_of(aud, sub, exp, key)[i] == (signing_input_of(aud, sub, exp) + seq![46u8]
            + b64url_encode_spec(crypto::es256_sig_of(key, signing_input_of(aud, sub, exp))))[i]);
    }
}

/// The shape the token always has: three dot-joined base64url segments —
/// none of which contains a dot — where the first two decode to the header
/// and claims JSON and the third to the ES256 signature of the signing
/// input.
pub proof fn lemma_jwt_structure(aud: Seq<u8>, sub: Seq<u8>, exp: int, key: Seq<u8>)
    ensures
        jwt_of(aud, sub, exp, key) == b64url_encode_spec(jwt_header_json()) + seq![46u8]
            + b64url_encode_spec(claims_json_of(aud, sub, exp)) + seq![46u8] + b64url_encode_spec(
            crypto::es256_sig_of(key, signing_input_of(aud, sub, exp)),
        ),
        forall|i: int|
            0 <= i < b64url_encode_spec(jwt_header_json()).len() ==> b64url_encode_spec(
                jwt_header_json(),
            )[i] != 46,
        forall|i: int|
            0 <= i < b64url_encode_spec(claims_json_of(aud, sub, exp)).len()
                ==> b64url_encode_spec(claims_json_of(aud, sub, exp))[i] != 46,
        forall|i: int|
            0 <= i < b64url_encode_spec(
                crypto::es256_sig_of(key, signing_input_of(aud, sub, exp)),
            ).len() ==> b64url_encode_spec(
                crypto::es256_sig_of(key, signing_input_of(aud, sub, exp)),
            )[i] != 46,
        b64url_decode_spec(b64url_encode_spec(jwt_header_json())) == Some(jwt_header_json()),
        b64url_decode_spec(b64url_encode_spec(claims_json_of(aud, sub, exp))) == Some(
            claims_json_of(aud, sub, exp),
        ),
        b64url_decode_spec(
            b64url_encode_spec(crypto::es256_sig_of(key, signing_input_of(aud, sub, exp))),
        ) == Some(crypto::es256_sig_of(key, signing_input_of(aud, sub, exp))),
{
    lemma_encode_is_b64url_text(jwt_header_json());
    lemma_encode_is_b64url_text(claims_json_of(aud, sub, exp));
    lemma_encode_is_b64url_text(crypto::es256_sig_of(key, signing_input_of(aud, sub, exp)));
    lemma_b64url_text_ascii(b64url_encode_spec(jwt_header_json()));
    lemma_b64url_text_ascii(b64url_encode_spec(claims_json_of(aud, sub, exp)));
    lemma_b64url_text_ascii(
        b64url_encode_spec(crypto::es256_sig_of(key, signing_input_of(aud, sub, exp))),
    );
    lemma_b64url_round_trip(jwt_header_json());
    lemma_b64url_round_trip(claims_json_of(aud, sub, exp));
    lemma_b64url_round_trip(crypto::es256_sig_of(key, signing_input_of(aud, sub, exp)));
    assert(jwt_of(aud, sub, exp, key) =~= b64url_encode_spec(jwt_header_json()) + seq![46u8]
        + b64url_encode_spec(claims_json_of(aud, sub, exp)) + seq![46u8] + b64url_encode_spec(
        crypto::es256_sig_of(key, signing_input_of(aud, sub, exp)),
    ));
}

/// `{"alg":"ES256"}`, executable form.
fn build_header_json() -> (r: Vec<u8>)
    ensures
        r@ == jwt_header_json(),
{
    let mut v: Vec<u8> = Vec::new();
    v.push(123);
    v.push(34);
    v.push(97);
    v.push(108);
    v.push(103);
    v.push(34);
    v.push(58);
    v.push(34);
    v.push(69);
    v.push(83);
    v.push(50);
    v.push(53);
    v.push(54);
    v.push(34);
    v.push(125);
    proof {
        assert(v@ =~= jwt_header_json());
    }
    v
}

/// The claims JSON, executable form.
fn build_claims_json(aud: &[u8], sub: &[u8], exp: i64) -> (r: Vec<u8>)
    ensures
        r@ == claims_json_of(aud@, sub@, exp as int),
{
    let mut v: Vec<u8> = Vec::new();
    v.push(123);
    v.push(34);
    v.push(97);
    v.push(117);
    v.push(100);
    v.push(34);
    v.push(58);
    v.push(34);
    push_json_escaped(&mut v, aud);
    v.push(34);
    v.push(44);
    v.push(34);
    v.push(101);
    v.push(120);
    v.push(112);
    v.push(34);
    v.push(58);
    push_dec_i64(&mut v, exp);
    v.push(44);
    v.push(34);
    v.push(115);
    v.push(117);
    v.push(98);
    v.push(34);
    v.push(58);
    v.push(34);
    push_json_escaped(&mut v, sub);
    v.push(34);
    v.push(125);
    proof {
        assert(v@ =~= claims_json_of(aud@, sub@, exp as int));
    }
    v
}

/// Build and sign a token from the decoded 32-byte private scalar, as raw
/// ASCII bytes.
pub fn build_vapid_jwt_bytes(audience: &[u8], subject: &[u8], private_key: &[u8], exp: i64) -> (r:
    Result<Vec<u8>, PushError>)
    requires
        private_key@.len() == 32,
    ensures
        r is Ok <==> (crypto::p256_scalar_ok(private_key@) && crypto::es256_sign_ok(
            private_key@,
            signing_input_of(audience@, subject@, exp as int),
        )),
        r matches Ok(v) ==> (crypto::p256_scalar_ok(private_key@) && v@ == jwt_of(
            audience@,
            subject@,
            exp as int,
            private_key@,
        )),
        r matches Err(e) ==> (e is InvalidKey <==> !crypto::p256_scalar_ok(private_key@)),
        r matches Err(e) ==> (e is InvalidKey || e is CryptoFailure),
{
    let header = build_header_json();
    let header_b64 = b64url_encode(header.as_slice());
    let claims = build_claims_json(audience, subject, exp);
    let claims_b64 = b64url_encode(claims.as_slice());
    let mut signing_input: Vec<u8> = Vec::new();
    signing_input.extend_from_slice(header_b64.as_slice());
    signing_input.push(46);
    signing_input.extend_from_slice(claims_b64.as_slice());
    proof {
        assert(signing_input@ =~= signing_input_of(audience@, subject@, exp as int));
    }
    let sig = match crypto::es256_sign(private_key, signing_input.as_slice()) {
        Ok(s) => s,
        Err(e) => {
            return Err(e);
        },
    };
    let sig_b64 = b64url_encode(sig.as_slice());
    let mut out = signing_input;
    out.push(46);
    out.extend_from_slice(sig_b64.as_slice());
    proof {
        assert(out@ =~= jwt_of(audience@, subject@, exp as int, private_key@));
    }
    Ok(out)
}

/// Build and sign a token for the given issue time: the audience and
/// subject go into the claims as given, and `exp` is the issue time plus
/// 3600 seconds. `InvalidKey` exactly when the base64url private key does
/// not decode to a valid 32-byte scalar.
pub fn build_vapid_jwt_at(audience: &str, subject: &str, private_key_b64: &str, now: i64) -> (r:
    Result<String, PushError>)
    requires
        now <= i64::MAX - 3600,
    ensures
        r matches Ok(s) ==> s@ == ascii_chars_of(
            jwt_of(
                audience.spec_bytes(),
                subject.spec_bytes(),
                now + 3600,
                b64url_decoded_of(private_key_b64.spec_bytes()),
            ),
        ),
        r matches Ok(s) ==> vapid_key_ok(private_key_b64.spec_bytes()),
        r is Ok <==> (vapid_key_ok(private_key_b64.spec_bytes()) && crypto::es256_sign_ok(
            b64url_decoded_of(private_key_b64.spec_bytes()),
            signing_input_of(audience.spec_bytes(), subject.spec_bytes(), now + 3600),
        )),
        r matches Err(e) ==> (e is InvalidKey <==> !vapid_key_ok(private_key_b64.spec_bytes())),
        r matches Err(e) ==> (e is InvalidKey || e is CryptoFailure),
{
    let key = match b64url_decode(private_key_b64.as_bytes()) {
        Some(k) => k,
        None => {
            return Err(PushError::InvalidKey);
        },
    };
    if key.len() != 32 {
        return Err(PushError::InvalidKey);
    }
    let exp = now + 3600;
    let jwt = match build_vapid_jwt_bytes(
        audience.as_bytes(),
        subject.as_bytes(),
        key.as_slice(),
        exp,
    ) {
        Ok(v) => v,
        Err(e) => {
            return Err(e);
        },
    };
    proof {
        lemma_jwt_ascii(
            audience.spec_bytes(),
            subject.spec_bytes(),
            now + 3600,
            key@,
        );
    }
    Ok(string_from_ascii(jwt))
}

/// The last dot of a byte string.
fn rscan_dot(s: &[u8]) -> (r: Option<usize>)
    ensures
        r matches Some(d) ==> (d < s@.len() && s@[d as int] == 46 && (forall|j: int|
            d < j < s@.len() ==> s@[j] != 46)),
        r is None ==> (forall|j: int| 0 <= j < s@.len() ==> s@[j] != 46),
{
    let mut k = s.len();
    while k > 0
        invariant
            k <= s@.len(),
            forall|j: int| k <= j < s@.len() ==> s@[j] != 46,
        decreases k,
    {
        k -= 1;
        if s[k] == 46 {
            return Some(k);
        }
    }
    None
}

/// Check a token against the VAPID public key (the uncompressed SEC1
/// point): split at the last dot, decode the signature segment, and verify
/// ES256 over the signing input. A token that [`build_vapid_jwt_bytes`]
/// produced under the key pair of `vapid_pub` always passes.
pub fn verify_vapid_jwt(jwt: &str, vapid_pub: &[u8]) -> (r: bool)
    ensures
        (forall|aud: Seq<u8>, sub: Seq<u8>, exp: int, key: Seq<u8>|
            (jwt.spec_bytes() == #[trigger] jwt_of(aud, sub, exp, key) && vapid_pub@
                == crypto::p256_pub_of(key)) ==> r),
        (forall|aud: Seq<u8>, sub: Seq<u8>, exp: int, key: Seq<u8>|
            jwt.spec_bytes() == #[trigger] jwt_of(aud, sub, exp, key) ==> r
                == crypto::es256_verified(
                vapid_pub@,
                signing_input_of(aud, sub, exp),
                crypto::es256_sig_of(key, signing_input_of(aud, sub, exp)),
            )),
{
    let bytes = jwt.as_bytes();
    let d = match rscan_dot(bytes) {
        Some(d) => d,
        None => {
            proof {
                assert forall|aud: Seq<u8>, sub: Seq<u8>, exp: int, key: Seq<u8>|
                    jwt.spec_bytes() != #[trigger] jwt_of(aud, sub, exp, key) by {
                    if jwt.spec_bytes() == jwt_of(aud, sub, exp, key) {
                        lemma_jwt_structure(aud, sub, exp, key);
                        let h = b64url_encode_spec(jwt_header_json());
                        assert(jwt.spec_bytes()[h.len() as int] == 46);
                    }
                }
            }
            return false;
        },
    };
    let n = bytes.len();
    proof {
        assert(d < n);
    }
    let msg = vstd::slice::slice_subrange(bytes, 0, d);
    let sig_b64 = vstd::slice::slice_subrange(bytes, d + 1, n);
    proof {
        assert forall|aud: Seq<u8>, sub: Seq<u8>, exp: int, key: Seq<u8>|
            jwt.spec_bytes() == #[trigger] jwt_of(aud, sub, exp, key) implies (msg@
            == signing_input_of(aud, sub, exp) && sig_b64@ == b64url_encode_spec(
            crypto::es256_sig_of(key, signing_input_of(aud, sub, exp)),
        )) by {
            lemma_jwt_structure(aud, sub, exp, key);
            let si = signing_input_of(aud, sub, exp);
            let sb = b64url_encode_spec(crypto::es256_sig_of(key, si));
            let p2 = si.len() as int;
            assert(jwt.spec_bytes()[p2] == 46);
            assert forall|j: int| p2 < j < jwt.spec_bytes().len() implies jwt.spec_bytes()[j]
                != 46 by {
                assert(jwt.spec_bytes()[j] == sb[j - p2 - 1]);
            }
            assert(d as int == p2);
            assert(msg@ =~= si);
            assert(sig_b64@ =~= sb);
        }
    }
    let sig = match crate::base64url::b64url_decode(sig_b64) {
        Some(v) => v,
        None => {
            proof {
                assert forall|aud: Seq<u8>, sub: Seq<u8>, exp: int, key: Seq<u8>|
                    jwt.spec_bytes() != #[trigger] jwt_of(aud, sub, exp, key) by {
                    if jwt.spec_bytes() == jwt_of(aud, sub, exp, key) {
                        lemma_jwt_structure(aud, sub, exp, key);
                    }
                }
            }
            return false;
        },
    };
    let ok = crypto::es256_verify(vapid_pub, msg, sig.as_slice());
    proof {
        assert forall|aud: Seq<u8>, sub: Seq<u8>, exp: int, key: Seq<u8>|
            jwt.spec_bytes() == #[trigger] jwt_of(aud, sub, exp, key) implies ok
            == crypto::es256_verified(
            vapid_pub@,
            signing_input_of(aud, sub, exp),
            crypto::es256_sig_of(key, signing_input_of(aud, sub, exp)),
        ) by {
            lemma_jwt_structure(aud, sub, exp, key);
            assert(sig@ == crypto::es256_sig_of(key, signing_input_of(aud, sub, exp)));
            assert(msg@ == signing_input_of(aud, sub, exp));
        }
        assert forall|aud: Seq<u8>, sub: Seq<u8>, exp: int, key: Seq<u8>|
            (jwt.spec_bytes() == #[trigger] jwt_of(aud, sub, exp, key) && vapid_pub@
                == crypto::p256_pub_of(key)) implies ok by {
            lemma_jwt_structure(aud, sub, exp, key);
            assert(sig@ == crypto::es256_sig_of(key, signing_input_of(aud, sub, exp)));
            assert(msg@ == signing_input_of(aud, sub, exp));
        }
    }
    ok
}

/// Relies on `chrono::Utc::now` and `timestamp`: the current time as UTC
/// epoch seconds. Nothing is assumed about the value.
#[verifier::external_body]
pub(crate) fn now_unix() -> (r: i64) {
    chrono::Utc::now().timestamp()
}

/// Build and sign a token expiring 3600 seconds from now, per RFC 8292.
/// Tokens are built fresh per request; the audience varies per endpoint, so
/// nothing is cached.
pub fn build_vapid_jwt(audience: &str, subject: &str, private_key_b64: &str) -> (r: Result<
    String,
    PushError,
>)
    ensures
        r matches Ok(s) ==> (exists|t: int|
            s@ == ascii_chars_of(
                #[trigger] jwt_of(
                    audience.spec_bytes(),
                    subject.spec_bytes(),
                    t,
                    b64url_decoded_of(private_key_b64.spec_bytes()),
                ),
            )),
        r matches Ok(s) ==> vapid_key_ok(private_key_b64.spec_bytes()),
        r matches Err(e) ==> (e is InvalidKey <==> !vapid_key_ok(private_key_b64.spec_bytes())),
        r matches Err(e) ==> (e is InvalidKey || e is CryptoFailure),
        r matches Err(e) ==> (e is CryptoFailure ==> (exists|t: int|
            !crypto::es256_sign_ok(
                b64url_decoded_of(private_key_b64.spec_bytes()),
                #[trigger] signing_input_of(audience.spec_bytes(), subject.spec_bytes(), t),
            ))),
{
    let now = now_unix();
    let now = if now <= i64::MAX - 3600 {
        now
    } else {
        i64::MAX - 3600
    };
    let r = build_vapid_jwt_at(audience, subject, private_key_b64, now);
    proof {
        if r is Ok {
            assert(r->Ok_0@ == ascii_chars_of(
                jwt_of(
                    audience.spec_bytes(),
                    subject.spec_bytes(),
                    now + 3600,
                    b64url_decoded_of(private_key_b64.spec_bytes()),
                ),
            ));
        }
        if r matches Err(ref e) && e is CryptoFailure {
            assert(!crypto::es256_sign_ok(
                b64url_decoded_of(private_key_b64.spec_bytes()),
                signing_input_of(audience.spec_bytes(), subject.spec_bytes(), now + 3600),
            ));
        }
    }
    r
}

} // verus!
