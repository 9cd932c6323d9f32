//! RFC 8291 payload encryption: ECDH key agreement, the two-round
//! HKDF-SHA256 key schedule, AES-128-GCM encryption of a single record, and
//! the `aes128gcm` binary framing
//! `salt(16) ‖ record-size(4, big-endian 4096) ‖ key-id-length(1, 65) ‖
//! ephemeral public point(65) ‖ ciphertext`.
//!
//! [`encrypt_with`] is deterministic in its inputs, with the per-message
//! salt and ephemeral secret passed explicitly; [`encrypt`] draws both from
//! the system's random source, fresh per call. [`decrypt`] is the matching
//! reference decryptor, and its contract states the round trip: whatever
//! [`encrypt_with`] built from a plaintext, a subscriber's public key and an
//! auth secret, [`decrypt`] returns that plaintext to the holder of the
//! subscriber's secret key.

use crate::crypto;
use crate::PushError;
use vstd::prelude::*;
use vstd::slice::{slice_subrange, slice_to_vec};

verus! {

/// `"WebPush: info" ‖ 0x00`, the prefix of the first HKDF info string.
pub open spec fn webpush_info_prefix() -> Seq<u8> {
    seq![
        87u8,
        101u8,
        98u8,
        80u8,
        117u8,
        115u8,
        104u8,
        58u8,
        32u8,
        105u8,
        110u8,
        102u8,
        111u8,
        0u8,
    ]
}

/// The first HKDF info string: `"WebPush: info" ‖ 0x00 ‖ subscriber public
/// point(65) ‖ ephemeral public point(65)`.
pub open spec fn webpush_info_of(ua_pub: Seq<u8>, eph_pub: Seq<u8>) -> Seq<u8> {
    webpush_info_prefix() + ua_pub + eph_pub
}

/// `"Content-Encoding: aes128gcm" ‖ 0x00`, the info string of the content
/// encryption key.
pub open spec fn cek_info() -> Seq<u8> {
    seq![
        67u8,
        111u8,
        110u8,
        116u8,
        101u8,
        110u8,
        116u8,
        45u8,
        69u8,
        110u8,
        99u8,
        111u8,
        100u8,
        105u8,
        110u8,
        103u8,
        58u8,
        32u8,
        97u8,
        101u8,
        115u8,
        49u8,
        50u8,
        56u8,
        103u8,
        99u8,
        109u8,
        0u8,
    ]
}

/// `"Content-Encoding: nonce" ‖ 0x00`, the info string of the nonce.
pub open spec fn nonce_info() -> Seq<u8> {
    seq![
        67u8,
        111u8,
        110u8,
        116u8,
        101u8,
        110u8,
        116u8,
        45u8,
        69u8,
        110u8,
        99u8,
        111u8,
        100u8,
        105u8,
        110u8,
        103u8,
        58u8,
        32u8,
        110u8,
        111u8,
        110u8,
        99u8,
        101u8,
        0u8,
    ]
}

/// The input keying material of the second HKDF round: the first round's
/// output over the ECDH shared secret, salted with the subscriber's auth
/// secret.
pub open spec fn ikm_of(ua_pub: Seq<u8>, eph_pub: Seq<u8>, auth: Seq<u8>) -> Seq<u8> {
    crypto::hkdf_sha256_of(
        auth,
        crypto::ecdh_shared_of(eph_pub, ua_pub),
        webpush_info_of(ua_pub, eph_pub),
        32,
    )
}

/// The 16-byte content encryption key.
pub open spec fn cek_of(ua_pub: Seq<u8>, eph_pub: Seq<u8>, auth: Seq<u8>, salt: Seq<u8>) -> Seq<
    u8,
> {
    crypto::hkdf_sha256_of(salt, ikm_of(ua_pub, eph_pub, auth), cek_info(), 16)
}

/// The 12-byte AEAD nonce.
pub open spec fn nonce_of(ua_pub: Seq<u8>, eph_pub: Seq<u8>, auth: Seq<u8>, salt: Seq<u8>) -> Seq<
    u8,
> {
    crypto::hkdf_sha256_of(salt, ikm_of(ua_pub, eph_pub, auth), nonce_info(), 12)
}

/// The single record: the plaintext with the `0x02` "last record" padding
/// delimiter appended.
pub open spec fn record_of(pt: Seq<u8>) -> Seq<u8> {
    pt.push(2u8)
}

/// The AEAD output for one message.
pub open spec fn ciphertext_of(
    pt: Seq<u8>,
    ua_pub: Seq<u8>,
    eph_pub: Seq<u8>,
    auth: Seq<u8>,
    salt: Seq<u8>,
) -> Seq<u8> {
    crypto::aes128gcm_of(
        cek_of(ua_pub, eph_pub, auth, salt),
        nonce_of(ua_pub, eph_pub, auth, salt),
        record_of(pt),
    )
}

/// Four big-endian bytes of a value below 2^32.
pub open spec fn be32_of(n: int) -> Seq<u8> {
    seq![
        (n / 16777216 % 256) as u8,
        (n / 65536 % 256) as u8,
        (n / 256 % 256) as u8,
        (n % 256) as u8,
    ]
}

/// The fixed part in front of the ciphertext: salt, record size 4096,
/// key-id length 65, ephemeral public point.
pub open spec fn payload_header_of(salt: Seq<u8>, eph_pub: Seq<u8>) -> Seq<u8> {
    salt + be32_of(4096) + seq![65u8] + eph_pub
}

/// The complete wire payload of one encrypted message.
pub open spec fn encrypted_payload_of(
    pt: Seq<u8>,
    ua_pub: Seq<u8>,
    auth: Seq<u8>,
    salt: Seq<u8>,
    eph_pub: Seq<u8>,
) -> Seq<u8> {
    payload_header_of(salt, eph_pub) + ciphertext_of(pt, ua_pub, eph_pub, auth, salt)
}

/// How the wire payload is laid out: its first 16 bytes are the salt, bytes
/// 16..20 are 4096 big-endian, byte 20 is 65, bytes 21..86 are the
/// ephemeral public point, and the rest is the ciphertext.
pub proof fn lemma_wire_format(
    pt: Seq<u8>,
    ua_pub: Seq<u8>,
    auth: Seq<u8>,
    salt: Seq<u8>,
    eph_pub: Seq<u8>,
)
    requires
        salt.len() == 16,
        eph_pub.len() == 65,
    ensures
        encrypted_payload_of(pt, ua_pub, auth, salt, eph_pub).len() == 86 + ciphertext_of(
            pt,
            ua_pub,
            eph_pub,
            auth,
            salt,
        ).len(),
        encrypted_payload_of(pt, ua_pub, auth, salt, eph_pub).subrange(0, 16) == salt,
        encrypted_payload_of(pt, ua_pub, auth, salt, eph_pub).subrange(16, 20) == be32_of(4096),
        encrypted_payload_of(pt, ua_pub, auth, salt, eph_pub)[16] == 0,
        encrypted_payload_of(pt, ua_pub, auth, salt, eph_pub)[17] == 0,
        encrypted_payload_of(pt, ua_pub, auth, salt, eph_pub)[18] == 16,
        encrypted_payload_of(pt, ua_pub, auth, salt, eph_pub)[19] == 0,
        encrypted_payload_of(pt, ua_pub, auth, salt, eph_pub)[20] == 65,
        encrypted_payload_of(pt, ua_pub, auth, salt, eph_pub).subrange(21, 86) == eph_pub,
        encrypted_payload_of(pt, ua_pub, auth, salt, eph_pub).skip(86) == ciphertext_of(
            pt,
            ua_pub,
            eph_pub,
            auth,
            salt,
        ),
{
    let p = encrypted_payload_of(pt, ua_pub, auth, salt, eph_pub);
    let ct = ciphertext_of(pt, ua_pub, eph_pub, auth, salt);
    assert(p.len() == 86 + ct.len());
    assert(p.subrange(0, 16) =~= salt);
    assert(p.subrange(16, 20) =~= be32_of(4096));
    assert(p.subrange(21, 86) =~= eph_pub);
    assert(p.skip(86) =~= ct);
}

/// `"WebPush: info" ‖ 0x00 ‖ ua_pub ‖ eph_pub`, executable form.
fn build_info(ua_pub: &[u8], eph_pub: &[u8]) -> (r: Vec<u8>)
    ensures
        r@ == webpush_info_of(ua_pub@, eph_pub@),
{
    let mut v: Vec<u8> = Vec::new();
    v.push(87);
    v.push(101);
    v.push(98);
    v.push(80);
    v.push(117);
    v.push(115);
    v.push(104);
    v.push(58);
    v.push(32);
    v.push(105);
    v.push(110);
    v.push(102);
    v.push(111);
    v.push(0);
    proof {
        assert(v@ =~= webpush_info_prefix());
    }
    v.extend_from_slice(ua_pub);
    v.extend_from_slice(eph_pub);
    proof {
        assert(v@ =~= webpush_info_of(ua_pub@, eph_pub@));
    }
    v
}

/// `"Content-Encoding: aes128gcm" ‖ 0x00`, executable form.
fn build_cek_info() -> (r: Vec<u8>)
    ensures
        r@ == cek_info(),
{
    let mut v: Vec<u8> = Vec::new();
    v.push(67);
    v.push(111);
    v.push(110);
    v.push(116);
    v.push(101);
    v.push(110);
    v.push(116);
    v.push(45);
    v.push(69);
    v.push(110);
    v.push(99);
    v.push(111);
    v.push(100);
    v.push(105);
    v.push(110);
    v.push(103);
    v.push(58);
    v.push(32);
    v.push(97);
    v.push(101);
    v.push(115);
    v.push(49);
    v.push(50);
    v.push(56);
    v.push(103);
    v.push(99);
    v.push(109);
    v.push(0);
    proof {
        assert(v@ =~= cek_info());
    }
    v
}

/// `"Content-Encoding: nonce" ‖ 0x00`, executable form.
fn build_nonce_info() -> (r: Vec<u8>)
    ensures
        r@ == nonce_info(),
{
    let mut v: Vec<u8> = Vec::new();
    v.push(67);
    v.push(111);
    v.push(110);
    v.push(116);
    v.push(101);
    v.push(110);
    v.push(116);
    v.push(45);
    v.push(69);
    v.push(110);
    v.push(99);
    v.push(111);
    v.push(100);
    v.push(105);
    v.push(110);
    v.push(103);
    v.push(58);
    v.push(32);
    v.push(110);
    v.push(111);
    v.push(110);
    v.push(99);
    v.push(101);
    v.push(0);
    proof {
        assert(v@ =~= nonce_info());
    }
    v
}

/// Encrypt one message with the salt and the ephemeral secret given by the
/// caller: deterministic, used by [`encrypt`] with fresh random values and
/// by tests with fixed ones. Succeeds exactly when the subscriber key is a
/// 65-byte point on the curve and the auth secret has 16 bytes.
pub fn encrypt_with(
    plaintext: &[u8],
    ua_pub: &[u8],
    auth_secret: &[u8],
    salt: &[u8],
    eph_secret: &[u8],
) -> (r: Result<Vec<u8>, PushError>)
    requires
        salt@.len() == 16,
        eph_secret@.len() == 32,
        crypto::p256_scalar_ok(eph_secret@),
        plaintext@.len() + 103 <= usize::MAX,
        plaintext@.len() < 68719476736,
    ensures
        r is Ok <==> (ua_pub@.len() == 65 && auth_secret@.len() == 16 && crypto::sec1_point_ok(
            ua_pub@,
        )),
        r matches Ok(v) ==> v@ == encrypted_payload_of(
            plaintext@,
            ua_pub@,
            auth_secret@,
            salt@,
            crypto::p256_pub_of(eph_secret@),
        ),
        r matches Err(e) ==> e is InvalidKey,
{
    if ua_pub.len() != 65 || auth_secret.len() != 16 {
        return Err(PushError::InvalidKey);
    }
    let shared = match crypto::ecdh_p256(eph_secret, ua_pub) {
        Ok(s) => s,
        Err(_) => {
            return Err(PushError::InvalidKey);
        },
    };
    let eph_pub = match crypto::p256_public_from_secret(eph_secret) {
        Ok(p) => p,
        Err(_) => {
            return Err(PushError::InvalidKey);
        },
    };
    // The key schedule is handled defensively, though at these output sizes
    // HKDF expansion cannot fail.
    let info = build_info(ua_pub, eph_pub.as_slice());
    let ikm = match crypto::hkdf_sha256(auth_secret, shared.as_slice(), info.as_slice(), 32) {
        Ok(v) => v,
        Err(_) => {
            return Err(PushError::CryptoFailure);
        },
    };
    let cek_info_v = build_cek_info();
    let cek = match crypto::hkdf_sha256(salt, ikm.as_slice(), cek_info_v.as_slice(), 16) {
        Ok(v) => v,
        Err(_) => {
            return Err(PushError::CryptoFailure);
        },
    };
    let nonce_info_v = build_nonce_info();
    let nonce = match crypto::hkdf_sha256(salt, ikm.as_slice(), nonce_info_v.as_slice(), 12) {
        Ok(v) => v,
        Err(_) => {
            return Err(PushError::CryptoFailure);
        },
    };
    let mut record: Vec<u8> = Vec::new();
    record.extend_from_slice(plaintext);
    record.push(2);
    proof {
        assert(record@ =~= record_of(plaintext@));
    }
    let ct = match crypto::aes128gcm_encrypt(cek.as_slice(), nonce.as_slice(), record.as_slice()) {
        Ok(c) => c,
        Err(_) => {
            return Err(PushError::CryptoFailure);
        },
    };
    let mut payload: Vec<u8> = Vec::new();
    payload.extend_from_slice(salt);
    payload.push(0);
    payload.push(0);
    payload.push(16);
    payload.push(0);
    payload.push(65);
    payload.extend_from_slice(eph_pub.as_slice());
    payload.extend_from_slice(ct.as_slice());
    proof {
        assert(be32_of(4096) =~= seq![0u8, 0u8, 16u8, 0u8]);
        assert(payload@ =~= encrypted_payload_of(
            plaintext@,
            ua_pub@,
            auth_secret@,
            salt@,
            crypto::p256_pub_of(eph_secret@),
        ));
    }
    Ok(payload)
}

/// Encrypt one message for a subscriber, RFC 8291 `aes128gcm`: a fresh
/// 16-byte salt and a fresh ephemeral key pair are drawn from the system's
/// random source for this one call, and the payload is built as
/// [`encrypted_payload_of`] says.
pub fn encrypt(plaintext: &[u8], ua_pub: &[u8], auth_secret: &[u8]) -> (r: Result<
    Vec<u8>,
    PushError,
>)
    requires
        plaintext@.len() + 103 <= usize::MAX,
        plaintext@.len() < 68719476736,
    ensures
        r is Ok <==> (ua_pub@.len() == 65 && auth_secret@.len() == 16 && crypto::sec1_point_ok(
            ua_pub@,
        )),
        r matches Ok(v) ==> (exists|salt: Seq<u8>, eph_secret: Seq<u8>|
            salt.len() == 16 && crypto::p256_scalar_ok(eph_secret) && v@ == encrypted_payload_of(
                plaintext@,
                ua_pub@,
                auth_secret@,
                salt,
                crypto::p256_pub_of(eph_secret),
            )),
        r matches Err(e) ==> e is InvalidKey,
{
    let salt = crypto::random_salt16();
    let eph_secret = crypto::gen_p256_secret();
    let r = encrypt_with(plaintext, ua_pub, auth_secret, salt.as_slice(), eph_secret.as_slice());
    proof {
        if r is Ok {
            assert(salt@.len() == 16 && crypto::p256_scalar_ok(eph_secret@) && r->Ok_0@
                == encrypted_payload_of(
                plaintext@,
                ua_pub@,
                auth_secret@,
                salt@,
                crypto::p256_pub_of(eph_secret@),
            ));
        }
    }
    r
}

/// True when `payload` is what [`encrypt_with`] builds from `pt` for the
/// key pair of `sub_secret` and the auth secret `auth`, with the salt and
/// ephemeral point the payload itself carries.
pub open spec fn decrypts_to(
    payload: Seq<u8>,
    sub_secret: Seq<u8>,
    auth: Seq<u8>,
    pt: Seq<u8>,
) -> bool {
    &&& sub_secret.len() == 32
    &&& crypto::p256_scalar_ok(sub_secret)
    &&& auth.len() == 16
    &&& payload.len() >= 87
    &&& crypto::sec1_point_ok(payload.subrange(21, 86))
    &&& payload == encrypted_payload_of(
        pt,
        crypto::p256_pub_of(sub_secret),
        auth,
        payload.subrange(0, 16),
        payload.subrange(21, 86),
    )
}

/// The reference decryptor for [`encrypt`]'s wire format, for the holder of
/// the subscriber's secret key. Its contract is the round trip: a payload
/// that [`encrypt_with`] built from `pt` under this key pair and auth
/// secret decrypts to exactly `pt`.
pub fn decrypt(payload: &[u8], sub_secret: &[u8], auth_secret: &[u8]) -> (r: Result<
    Vec<u8>,
    PushError,
>)
    ensures
        (forall|pt: Seq<u8>|
            decrypts_to(payload@, sub_secret@, auth_secret@, pt) ==> (r is Ok && r->Ok_0@ == pt)),
{
    proof {
        assert forall|pt: Seq<u8>|
            decrypts_to(payload@, sub_secret@, auth_secret@, pt) implies payload@.len() >= 87
            && payload@[16] == 0 && payload@[17] == 0 && payload@[18] == 16 && payload@[19] == 0
            && payload@[20] == 65 by {
            lemma_wire_format(
                pt,
                crypto::p256_pub_of(sub_secret@),
                auth_secret@,
                payload@.subrange(0, 16),
                payload@.subrange(21, 86),
            );
        }
    }
    if sub_secret.len() != 32 || auth_secret.len() != 16 {
        return Err(PushError::InvalidKey);
    }
    if payload.len() < 87 {
        return Err(PushError::CryptoFailure);
    }
    if payload[16] != 0 || payload[17] != 0 || payload[18] != 16 || payload[19] != 0 {
        return Err(PushError::CryptoFailure);
    }
    if payload[20] != 65 {
        return Err(PushError::CryptoFailure);
    }
    let salt = slice_subrange(payload, 0, 16);
    let eph_pub = slice_subrange(payload, 21, 86);
    let ct = slice_subrange(payload, 86, payload.len());
    let shared = match crypto::ecdh_p256(sub_secret, eph_pub) {
        Ok(s) => s,
        Err(e) => {
            return Err(e);
        },
    };
    let ua_pub = match crypto::p256_public_from_secret(sub_secret) {
        Ok(p) => p,
        Err(e) => {
            return Err(e);
        },
    };
    let info = build_info(ua_pub.as_slice(), eph_pub);
    let ikm = match crypto::hkdf_sha256(auth_secret, shared.as_slice(), info.as_slice(), 32) {
        Ok(v) => v,
        Err(e) => {
            return Err(e);
        },
    };
    let cek_info_v = build_cek_info();
    let cek = match crypto::hkdf_sha256(salt, ikm.as_slice(), cek_info_v.as_slice(), 16) {
        Ok(v) => v,
        Err(e) => {
            return Err(e);
        },
    };
    let nonce_info_v = build_nonce_info();
    let nonce = match crypto::hkdf_sha256(salt, ikm.as_slice(), nonce_info_v.as_slice(), 12) {
        Ok(v) => v,
        Err(e) => {
            return Err(e);
        },
    };
    let rec = match crypto::aes128gcm_decrypt(cek.as_slice(), nonce.as_slice(), ct) {
        Ok(v) => v,
        Err(e) => {
            proof {
                assert forall|pt: Seq<u8>|
                    !decrypts_to(payload@, sub_secret@, auth_secret@, pt) by {
                    if decrypts_to(payload@, sub_secret@, auth_secret@, pt) {
                        lemma_wire_format(
                            pt,
                            crypto::p256_pub_of(sub_secret@),
                            auth_secret@,
                            payload@.subrange(0, 16),
                            payload@.subrange(21, 86),
                        );
                        assert(payload@.skip(86) =~= payload@.subrange(
                            86,
                            payload@.len() as int,
                        ));
                        assert(ct@ == crypto::aes128gcm_of(cek@, nonce@, record_of(pt)));
                    }
                }
            }
            return Err(e);
        },
    };
    proof {
        assert forall|pt: Seq<u8>|
            decrypts_to(payload@, sub_secret@, auth_secret@, pt) implies rec@ == record_of(
            pt,
        ) by {
            lemma_wire_format(
                pt,
                crypto::p256_pub_of(sub_secret@),
                auth_secret@,
                payload@.subrange(0, 16),
                payload@.subrange(21, 86),
            );
            assert(payload@.skip(86) =~= payload@.subrange(86, payload@.len() as int));
            assert(ct@ == crypto::aes128gcm_of(cek@, nonce@, record_of(pt)));
        }
    }
    // Strip the padding: any number of trailing zero bytes, then the
    // delimiter 0x02 of the last (only) record.
    let mut end: usize = rec.len();
    while end > 0 && rec[end - 1] == 0
        invariant
            end <= rec@.len(),
            forall|k: int| end <= k < rec@.len() ==> rec@[k] == 0,
        decreases end,
    {
        end = end - 1;
    }
    proof {
        assert forall|pt: Seq<u8>|
            decrypts_to(payload@, sub_secret@, auth_secret@, pt) implies (end == rec@.len()
            && rec@.len() == pt.len() + 1 && rec@[end - 1] == 2) by {
            assert(rec@ == record_of(pt));
            assert(rec@[pt.len() as int] == 2);
            if end < rec.len() {
                assert(rec@[rec@.len() - 1] == 0);
            }
        }
    }
    if end == 0 {
        return Err(PushError::CryptoFailure);
    }
    if rec[end - 1] != 2 {
        return Err(PushError::CryptoFailure);
    }
    let out = slice_to_vec(slice_subrange(rec.as_slice(), 0, end - 1));
    proof {
        assert forall|pt: Seq<u8>|
            decrypts_to(payload@, sub_secret@, auth_secret@, pt) implies out@ == pt by {
            lemma_wire_format(
                pt,
                crypto::p256_pub_of(sub_secret@),
                auth_secret@,
                payload@.subrange(0, 16),
                payload@.subrange(21, 86),
            );
            assert(rec@ == record_of(pt));
            assert(out@ =~= pt);
        }
    }
    Ok(out)
}

} // verus!
