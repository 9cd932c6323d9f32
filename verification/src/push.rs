//! The push dispatcher: turn one subscription, one message and the VAPID
//! identity into a complete HTTP request (body, `Authorization` header, and
//! the fixed headers), classify the push service's response, and fan a
//! batch out into one independent result per subscriber.
//!
//! The network call itself is I/O and lives with the caller: it posts
//! [`PushRequest`]s and hands the status back to
//! [`interpret_push_status`].

use crate::base64url::{b64url_decode, b64url_decode_spec, b64url_decoded_of, b64url_encode};
use crate::crypto;
use crate::origin::{extract_origin, lemma_origin_ascii, origin_of, origin_spec};
use crate::text::{ascii_chars_of, is_ascii_bytes, lemma_encode_ascii_chars, string_from_ascii};
use crate::vapid::{build_vapid_jwt_at, jwt_of, now_unix, signing_input_of, vapid_key_ok};
use crate::webpush::{encrypt_with, encrypted_payload_of};
use crate::PushError;
use vstd::prelude::*;
use vstd::string::StringExecFns;
use vstd::string::StringSliceAdditionalSpecFns;
use vstd::utf8::encode_utf8;

verus! {

/// One browser push subscription, as the subscribe call delivered it:
/// the endpoint URL, the subscriber's ECDH public key (base64url, a
/// 65-byte uncompressed point once decoded) and the 16-byte auth secret
/// (base64url).
#[derive(Debug, Clone)]
pub struct Subscription {
    pub endpoint: String,
    pub p256dh: String,
    pub auth: String,
}

/// The process-wide VAPID identity: the operator's subject (a `mailto:` or
/// URL), and the EC key pair, both halves base64url.
#[derive(Debug, Clone)]
pub struct VapidConfig {
    pub subject: String,
    pub public_key_b64: String,
    pub private_key_b64: String,
}

/// Everything one delivery needs besides the network: where to POST, the
/// `Authorization` header value, and the encrypted body.
#[derive(Debug)]
pub struct PushRequest {
    pub endpoint: String,
    pub authorization: String,
    pub body: Vec<u8>,
}

/// Whether a subscription's `p256dh` value decodes to a 65-byte point on
/// the curve.
pub open spec fn p256dh_ok(s: Seq<char>) -> bool {
    b64url_decode_spec(encode_utf8(s)) matches Some(p) && p.len() == 65 && crypto::sec1_point_ok(
        p,
    )
}

/// Whether a subscription's `auth` value decodes to 16 bytes.
pub open spec fn auth_secret_ok(s: Seq<char>) -> bool {
    b64url_decode_spec(encode_utf8(s)) matches Some(a) && a.len() == 16
}

/// Whether a delivery to this subscription under this identity can be
/// built at all: well-formed subscriber keys, a parseable endpoint origin,
/// and a well-formed VAPID private key.
pub open spec fn deliverable(sub: Subscription, vapid: VapidConfig) -> bool {
    &&& p256dh_ok(sub.p256dh@)
    &&& auth_secret_ok(sub.auth@)
    &&& origin_spec(encode_utf8(sub.endpoint@)) is Some
    &&& vapid_key_ok(encode_utf8(vapid.private_key_b64@))
}

/// The `Authorization` header of RFC 8292: `vapid t=<jwt>, k=<public key>`.
pub open spec fn auth_header_of(jwt: Seq<char>, pub_b64: Seq<char>) -> Seq<char> {
    "vapid t="@ + jwt + ", k="@ + pub_b64
}

/// Build the authorization header value.
fn build_auth_header(jwt: &str, pub_b64: &str) -> (r: String)
    ensures
        r@ == auth_header_of(jwt@, pub_b64@),
{
    let mut s = String::from_str("vapid t=");
    s.append(jwt);
    s.append(", k=");
    s.append(pub_b64);
    s
}

/// Build the request for one subscriber with the salt, ephemeral secret
/// and issue time given by the caller: deterministic in its inputs. The
/// result is pinned completely: the body is the RFC 8291 payload over the
/// decoded subscriber keys, and the authorization header carries the VAPID
/// token for the endpoint's origin. For every choice of subscription and
/// identity strings the outcome is a value, never a panic: `InvalidKey`
/// exactly where [`deliverable`] fails, and success exactly where the
/// deterministic ES256 signing succeeds on top of it.
pub fn build_push_request_with(
    sub: &Subscription,
    message: &[u8],
    vapid: &VapidConfig,
    salt: &[u8],
    eph_secret: &[u8],
    now: i64,
) -> (r: Result<PushRequest, PushError>)
    requires
        salt@.len() == 16,
        eph_secret@.len() == 32,
        crypto::p256_scalar_ok(eph_secret@),
        message@.len() + 103 <= usize::MAX,
        message@.len() < 68719476736,
        now <= i64::MAX - 3600,
    ensures
        r matches Err(e) ==> (e is InvalidKey <==> !deliverable(*sub, *vapid)),
        r matches Err(e) ==> (e is InvalidKey || e is CryptoFailure),
        r is Ok <==> (deliverable(*sub, *vapid) && crypto::es256_sign_ok(
            b64url_decoded_of(encode_utf8(vapid.private_key_b64@)),
            signing_input_of(
                origin_of(encode_utf8(sub.endpoint@)),
                encode_utf8(vapid.subject@),
                now + 3600,
            ),
        )),
        r matches Ok(req) ==> req.endpoint@ == sub.endpoint@,
        r matches Ok(req) ==> req.body@ == encrypted_payload_of(
            message@,
            b64url_decoded_of(encode_utf8(sub.p256dh@)),
            b64url_decoded_of(encode_utf8(sub.auth@)),
            salt@,
            crypto::p256_pub_of(eph_secret@),
        ),
        r matches Ok(req) ==> req.authorization@ == auth_header_of(
            ascii_chars_of(
                jwt_of(
                    origin_of(encode_utf8(sub.endpoint@)),
                    encode_utf8(vapid.subject@),
                    now + 3600,
                    b64url_decoded_of(encode_utf8(vapid.private_key_b64@)),
                ),
            ),
            vapid.public_key_b64@,
        ),
{
    let p256dh_bytes = match b64url_decode(sub.p256dh.as_str().as_bytes()) {
        Some(v) => v,
        None => {
            return Err(PushError::InvalidKey);
        },
    };
    let auth_bytes = match b64url_decode(sub.auth.as_str().as_bytes()) {
        Some(v) => v,
        None => {
            return Err(PushError::InvalidKey);
        },
    };
    let payload = match encrypt_with(
        message,
        p256dh_bytes.as_slice(),
        auth_bytes.as_slice(),
        salt,
        eph_secret,
    ) {
        Ok(v) => v,
        Err(e) => {
            return Err(e);
        },
    };
    let origin = match extract_origin(sub.endpoint.as_str()) {
        Ok(o) => o,
        Err(e) => {
            return Err(e);
        },
    };
    proof {
        lemma_origin_ascii(encode_utf8(sub.endpoint@));
        lemma_encode_ascii_chars(origin_of(encode_utf8(sub.endpoint@)));
    }
    let jwt = match build_vapid_jwt_at(
        origin.as_str(),
        vapid.subject.as_str(),
        vapid.private_key_b64.as_str(),
        now,
    ) {
        Ok(t) => t,
        Err(e) => {
            return Err(e);
        },
    };
    let authorization = build_auth_header(jwt.as_str(), vapid.public_key_b64.as_str());
    Ok(
        PushRequest {
            endpoint: sub.endpoint.clone(),
            authorization,
            body: payload,
        },
    )
}

/// Build the request for one subscriber: a fresh random salt and ephemeral
/// key pair for this one message, and a VAPID token issued now, expiring
/// in 3600 seconds.
pub fn build_push_request(sub: &Subscription, message: &[u8], vapid: &VapidConfig) -> (r: Result<
    PushRequest,
    PushError,
>)
    requires
        message@.len() + 103 <= usize::MAX,
        message@.len() < 68719476736,
    ensures
        r matches Err(e) ==> (e is InvalidKey <==> !deliverable(*sub, *vapid)),
        r matches Err(e) ==> (e is InvalidKey || e is CryptoFailure),
        r is Ok ==> deliverable(*sub, *vapid),
        r matches Err(e) ==> (e is CryptoFailure ==> (exists|t: int|
            !crypto::es256_sign_ok(
                b64url_decoded_of(encode_utf8(vapid.private_key_b64@)),
                #[trigger] signing_input_of(
                    origin_of(encode_utf8(sub.endpoint@)),
                    encode_utf8(vapid.subject@),
                    t,
                ),
            ))),
        r matches Ok(req) ==> req.endpoint@ == sub.endpoint@,
        r matches Ok(req) ==> (exists|salt: Seq<u8>, eph_secret: Seq<u8>|
            salt.len() == 16 && crypto::p256_scalar_ok(eph_secret) && req.body@
                == encrypted_payload_of(
                message@,
                b64url_decoded_of(encode_utf8(sub.p256dh@)),
                b64url_decoded_of(encode_utf8(sub.auth@)),
                salt,
                crypto::p256_pub_of(eph_secret),
            )),
        r matches Ok(req) ==> (exists|t: int|
            req.authorization@ == auth_header_of(
                ascii_chars_of(
                    #[trigger] jwt_of(
                        origin_of(encode_utf8(sub.endpoint@)),
                        encode_utf8(vapid.subject@),
                        t,
                        b64url_decoded_of(encode_utf8(vapid.private_key_b64@)),
                    ),
                ),
                vapid.public_key_b64@,
            )),
{
    let salt = crypto::random_salt16();
    let eph_secret = crypto::gen_p256_secret();
    let now = now_unix();
    let now = if now <= i64::MAX - 3600 {
        now
    } else {
        i64::MAX - 3600
    };
    let r = build_push_request_with(
        sub,
        message,
        vapid,
        salt.as_slice(),
        eph_secret.as_slice(),
        now,
    );
    proof {
        if r matches Err(ref e) && e is CryptoFailure {
            assert(!crypto::es256_sign_ok(
                b64url_decoded_of(encode_utf8(vapid.private_key_b64@)),
                signing_input_of(
                    origin_of(encode_utf8(sub.endpoint@)),
                    encode_utf8(vapid.subject@),
                    now + 3600,
                ),
            ));
        }
        if r is Ok {
            assert(salt@.len() == 16 && crypto::p256_scalar_ok(eph_secret@) && r->Ok_0.body@
                == encrypted_payload_of(
                message@,
                b64url_decoded_of(encode_utf8(sub.p256dh@)),
                b64url_decoded_of(encode_utf8(sub.auth@)),
                salt@,
                crypto::p256_pub_of(eph_secret@),
            ));
            assert(r->Ok_0.authorization@ == auth_header_of(
                ascii_chars_of(
                    jwt_of(
                        origin_of(encode_utf8(sub.endpoint@)),
                        encode_utf8(vapid.subject@),
                        now + 3600,
                        b64url_decoded_of(encode_utf8(vapid.private_key_b64@)),
                    ),
                ),
                vapid.public_key_b64@,
            ));
        }
    }
    r
}

/// Build the requests of a whole batch, one outcome per subscriber, in
/// input order: one subscriber's bad keys never touch another's request.
pub fn prepare_all(subscriptions: &Vec<Subscription>, message: &[u8], vapid: &VapidConfig) -> (r:
    Vec<Result<PushRequest, PushError>>)
    requires
        message@.len() + 103 <= usize::MAX,
        message@.len() < 68719476736,
    ensures
        r@.len() == subscriptions@.len(),
        forall|i: int|
            0 <= i < r@.len() ==> (#[trigger] r@[i] matches Err(e) ==> (e is InvalidKey
                <==> !deliverable(subscriptions@[i], *vapid))),
        forall|i: int|
            0 <= i < r@.len() ==> (#[trigger] r@[i] matches Err(e) ==> (e is InvalidKey
                || e is CryptoFailure)),
        forall|i: int|
            0 <= i < r@.len() ==> (#[trigger] r@[i] is Ok ==> deliverable(
                subscriptions@[i],
                *vapid,
            )),
        forall|i: int|
            0 <= i < r@.len() ==> (#[trigger] r@[i] matches Ok(req) ==> req.endpoint@
                == subscriptions@[i].endpoint@),
        forall|i: int|
            0 <= i < r@.len() ==> (#[trigger] r@[i] matches Err(e) ==> (e is CryptoFailure ==> (
            exists|t: int|
                !crypto::es256_sign_ok(
                    b64url_decoded_of(encode_utf8(vapid.private_key_b64@)),
                    #[trigger] signing_input_of(
                        origin_of(encode_utf8(subscriptions@[i].endpoint@)),
                        encode_utf8(vapid.subject@),
                        t,
                    ),
                )))),
{
    let n = subscriptions.len();
    let mut out: Vec<Result<PushRequest, PushError>> = Vec::new();
    let mut i: usize = 0;
    while i < n
        invariant
            n == subscriptions@.len(),
            message@.len() + 103 <= usize::MAX,
            message@.len() < 68719476736,
            0 <= i <= n,
            out@.len() == i,
            forall|k: int|
                0 <= k < i as int ==> (#[trigger] out@[k] matches Err(e) ==> (e is InvalidKey
                    <==> !deliverable(subscriptions@[k], *vapid))),
            forall|k: int|
                0 <= k < i as int ==> (#[trigger] out@[k] matches Err(e) ==> (e is InvalidKey
                    || e is CryptoFailure)),
            forall|k: int|
                0 <= k < i as int ==> (#[trigger] out@[k] is Ok ==> deliverable(
                    subscriptions@[k],
                    *vapid,
                )),
            forall|k: int|
                0 <= k < i as int ==> (#[trigger] out@[k] matches Ok(req) ==> req.endpoint@
                    == subscriptions@[k].endpoint@),
            forall|k: int|
                0 <= k < i as int ==> (#[trigger] out@[k] matches Err(e) ==> (e is CryptoFailure
                    ==> (exists|t: int|
                    !crypto::es256_sign_ok(
                        b64url_decoded_of(encode_utf8(vapid.private_key_b64@)),
                        #[trigger] signing_input_of(
                            origin_of(encode_utf8(subscriptions@[k].endpoint@)),
                            encode_utf8(vapid.subject@),
                            t,
                        ),
                    )))),
        decreases n - i,
    {
        let sub = &subscriptions[i];
        let r = build_push_request(sub, message, vapid);
        out.push(r);
        i += 1;
    }
    out
}

/// The five headers of one delivery, in order: the fixed content type,
/// content encoding, TTL and urgency of the protocol, and the request's
/// own authorization value.
pub fn request_headers(req: &PushRequest) -> (r: Vec<(String, String)>)
    ensures
        r@.len() == 5,
        (r@[0].0@ == "Content-Type"@ && r@[0].1@ == "application/octet-stream"@),
        (r@[1].0@ == "Content-Encoding"@ && r@[1].1@ == "aes128gcm"@),
        (r@[2].0@ == "Authorization"@ && r@[2].1@ == req.authorization@),
        (r@[3].0@ == "TTL"@ && r@[3].1@ == "43200"@),
        (r@[4].0@ == "Urgency"@ && r@[4].1@ == "high"@),
{
    let mut v: Vec<(String, String)> = Vec::new();
    v.push((String::from_str("Content-Type"), String::from_str("application/octet-stream")));
    v.push((String::from_str("Content-Encoding"), String::from_str("aes128gcm")));
    v.push((String::from_str("Authorization"), req.authorization.clone()));
    v.push((String::from_str("TTL"), String::from_str("43200")));
    v.push((String::from_str("Urgency"), String::from_str("high")));
    v
}

/// Classify the push service's answer: any 2xx status is success, and any
/// other status is `EndpointRejected` carrying the status and the response
/// body for the caller's retry or pruning policy.
pub fn interpret_push_status(status: u16, body: String) -> (r: Result<(), PushError>)
    ensures
        r is Ok <==> (200 <= status < 300),
        r matches Err(e) ==> (e matches PushError::EndpointRejected { status: s, body: b } && s
            == status && b@ == body@),
{
    if 200 <= status && status < 300 {
        Ok(())
    } else {
        Err(PushError::EndpointRejected { status, body })
    }
}

/// Generate a fresh VAPID key pair for operator configuration: the
/// uncompressed public point and the private scalar, both base64url
/// without padding.
pub fn generate_vapid_keys() -> (r: (String, String))
    ensures
        (exists|sk: Seq<u8>|
            sk.len() == 32 && crypto::p256_scalar_ok(sk) && r.0@ == ascii_chars_of(
                crate::base64url::b64url_encode_spec(#[trigger] crypto::p256_pub_of(sk)),
            ) && r.1@ == ascii_chars_of(crate::base64url::b64url_encode_spec(sk))),
{
    let sk = crypto::gen_p256_secret();
    let pk = match crypto::p256_public_from_secret(sk.as_slice()) {
        Ok(p) => p,
        Err(_) => {
            return (String::new(), String::new());
        },
    };
    let pk_b64 = b64url_encode(pk.as_slice());
    let sk_b64 = b64url_encode(sk.as_slice());
    proof {
        crate::base64url::lemma_encode_is_b64url_text(pk@);
        crate::base64url::lemma_encode_is_b64url_text(sk@);
        crate::vapid::lemma_b64url_text_ascii(crate::base64url::b64url_encode_spec(pk@));
        crate::vapid::lemma_b64url_text_ascii(crate::base64url::b64url_encode_spec(sk@));
    }
    let pub_s = string_from_ascii(pk_b64);
    let priv_s = string_from_ascii(sk_b64);
    proof {
        assert(sk@.len() == 32 && crypto::p256_scalar_ok(sk@) && pub_s@ == ascii_chars_of(
            crate::base64url::b64url_encode_spec(crypto::p256_pub_of(sk@)),
        ) && priv_s@ == ascii_chars_of(crate::base64url::b64url_encode_spec(sk@)));
    }
    (pub_s, priv_s)
}

} // verus!
