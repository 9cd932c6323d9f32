//! The trusted boundary around the cryptographic primitives.
//!
//! Every call into the p256, hkdf, aes-gcm and rand crates goes through one
//! of the `external_body` wrappers below. Results that are functions of the
//! arguments alone (a derived public key, an HKDF output, an AES-128-GCM
//! ciphertext, a deterministic ECDSA signature) are given uninterpreted
//! names, and the verified code reasons about those names; nothing is
//! claimed about the value of a random byte string.

use crate::PushError;
use vstd::prelude::*;

verus! {

/// Whether 32 bytes are a valid P-256 secret scalar (big-endian, non-zero,
/// below the group order), as `elliptic_curve::SecretKey::from_slice`
/// accepts them.
pub uninterp spec fn p256_scalar_ok(b: Seq<u8>) -> bool;

/// Whether a byte string is a valid SEC1 encoding of a P-256 public key,
/// as `p256::PublicKey::from_sec1_bytes` accepts it.
pub uninterp spec fn sec1_point_ok(b: Seq<u8>) -> bool;

/// The uncompressed SEC1 encoding (65 bytes) of the public key that belongs
/// to a secret scalar.
pub uninterp spec fn p256_pub_of(secret: Seq<u8>) -> Seq<u8>;

/// The raw ECDH shared secret (the x-coordinate, 32 bytes) of two P-256
/// keys, written over their public points. A shared secret is determined by
/// the pair of public points, and Diffie-Hellman gives both sides the same
/// value, so the two orders name the same bytes; the `ecdh_p256` contract
/// states that symmetry.
pub uninterp spec fn ecdh_shared_of(pub_a: Seq<u8>, pub_b: Seq<u8>) -> Seq<u8>;

/// The 64-byte raw `r ‖ s` ES256 signature of a message under a secret
/// scalar. ECDSA signing here is deterministic (RFC 6979 nonces), so the
/// signature is a function of key and message alone.
pub uninterp spec fn es256_sig_of(secret: Seq<u8>, msg: Seq<u8>) -> Seq<u8>;

/// Whether deterministic ES256 signing succeeds for this key and message.
/// Signing fails only when the RFC 6979 nonce or one of the signature
/// scalars reduces to zero, and the nonce is derived from key and message
/// alone, so success too is a function of key and message alone.
pub uninterp spec fn es256_sign_ok(secret: Seq<u8>, msg: Seq<u8>) -> bool;

/// Whether ES256 verification accepts a signature for this public point
/// and message: a function of the three byte strings alone.
pub uninterp spec fn es256_verified(pub_point: Seq<u8>, msg: Seq<u8>, sig: Seq<u8>) -> bool;

/// The HKDF-SHA256 extract-and-expand output of the given salt, input key
/// material, info string and output length.
pub uninterp spec fn hkdf_sha256_of(salt: Seq<u8>, ikm: Seq<u8>, info: Seq<u8>, n: int) -> Seq<u8>;

/// The AES-128-GCM encryption (ciphertext with the 16-byte tag appended, no
/// associated data) of a message under a 16-byte key and 12-byte nonce.
pub uninterp spec fn aes128gcm_of(key: Seq<u8>, nonce: Seq<u8>, msg: Seq<u8>) -> Seq<u8>;

/// Relies on `rand::RngCore::fill_bytes` with `rand::rngs::OsRng`: fills the
/// buffer from the operating system's random source. Nothing is assumed
/// about the bytes beyond their number.
#[verifier::external_body]
pub(crate) fn random_salt16() -> (r: Vec<u8>)
    ensures
        r@.len() == 16,
{
    let mut salt = [0u8; 16];
    rand::RngCore::fill_bytes(&mut rand::rngs::OsRng, &mut salt);
    salt.to_vec()
}

/// Relies on `p256::SecretKey::random` (with `rand::rngs::OsRng`) and
/// `to_bytes`: a freshly generated key is a valid non-zero scalar, returned
/// as 32 big-endian bytes. Nothing is assumed about which scalar it is.
#[verifier::external_body]
pub(crate) fn gen_p256_secret() -> (r: Vec<u8>)
    ensures
        r@.len() == 32,
        p256_scalar_ok(r@),
{
    let secret = p256::SecretKey::random(&mut rand::rngs::OsRng);
    secret.to_bytes().to_vec()
}

/// Relies on `p256::SecretKey::from_slice` (accepts exactly the valid
/// scalars when given 32 bytes), `public_key` and
/// `to_encoded_point(false)`: the uncompressed SEC1 encoding, 65 bytes, of
/// the derived public key, itself a valid curve point.
#[verifier::external_body]
pub(crate) fn p256_public_from_secret(secret: &[u8]) -> (r: Result<Vec<u8>, PushError>)
    requires
        secret@.len() == 32,
    ensures
        r is Ok <==> p256_scalar_ok(secret@),
        r matches Err(e) ==> e is InvalidKey,
        r matches Ok(v) ==> (v@ == p256_pub_of(secret@) && v@.len() == 65 && sec1_point_ok(v@)),
{
    let sk = match p256::SecretKey::from_slice(secret) {
        Ok(sk) => sk,
        Err(_) => {
            return Err(PushError::InvalidKey);
        },
    };
    let pk = sk.public_key();
    let point = p256::elliptic_curve::sec1::ToEncodedPoint::to_encoded_point(&pk, false);
    Ok(point.as_bytes().to_vec())
}

/// Relies on `p256::SecretKey::from_slice`, `p256::PublicKey::from_sec1_bytes`
/// and `p256::ecdh::diffie_hellman`: the raw shared secret is the 32-byte
/// x-coordinate of the peer point multiplied by the secret scalar, the same
/// value both key pairs arrive at.
#[verifier::external_body]
pub(crate) fn ecdh_p256(secret: &[u8], peer_pub: &[u8]) -> (r: Result<Vec<u8>, PushError>)
    requires
        secret@.len() == 32,
    ensures
        r is Ok <==> (p256_scalar_ok(secret@) && sec1_point_ok(peer_pub@)),
        r matches Err(e) ==> e is InvalidKey,
        r matches Ok(v) ==> (v@.len() == 32 && v@ == ecdh_shared_of(
            p256_pub_of(secret@),
            peer_pub@,
        ) && v@ == ecdh_shared_of(peer_pub@, p256_pub_of(secret@))),
{
    let sk = match p256::SecretKey::from_slice(secret) {
        Ok(sk) => sk,
        Err(_) => {
            return Err(PushError::InvalidKey);
        },
    };
    let pk = match p256::PublicKey::from_sec1_bytes(peer_pub) {
        Ok(pk) => pk,
        Err(_) => {
            return Err(PushError::InvalidKey);
        },
    };
    let shared = p256::ecdh::diffie_hellman(sk.to_nonzero_scalar(), pk.as_affine());
    Ok(shared.raw_secret_bytes().to_vec())
}

/// Relies on `p256::ecdsa::SigningKey::from_slice` and the deterministic
/// (RFC 6979) `Signer::try_sign`, with `Signature::to_bytes`: 64 raw bytes,
/// `r ‖ s` big-endian, never the DER form. Signing fails on exactly the
/// (key, message) pairs [`es256_sign_ok`] names.
#[verifier::external_body]
pub(crate) fn es256_sign(secret: &[u8], msg: &[u8]) -> (r: Result<Vec<u8>, PushError>)
    requires
        secret@.len() == 32,
    ensures
        r is Ok <==> (p256_scalar_ok(secret@) && es256_sign_ok(secret@, msg@)),
        r matches Err(e) ==> (e is InvalidKey <==> !p256_scalar_ok(secret@)),
        r matches Err(e) ==> (e is InvalidKey || e is CryptoFailure),
        r matches Ok(v) ==> (v@ == es256_sig_of(secret@, msg@) && v@.len() == 64),
{
    let sk = match p256::ecdsa::SigningKey::from_slice(secret) {
        Ok(sk) => sk,
        Err(_) => {
            return Err(PushError::InvalidKey);
        },
    };
    let sig: p256::ecdsa::Signature = match p256::ecdsa::signature::Signer::try_sign(&sk, msg) {
        Ok(sig) => sig,
        Err(_) => {
            return Err(PushError::CryptoFailure);
        },
    };
    Ok(sig.to_bytes().to_vec())
}

/// Relies on `p256::ecdsa::VerifyingKey::from_sec1_bytes`,
/// `Signature::from_slice` and `Verifier::verify`: the outcome is the
/// deterministic verdict [`es256_verified`] names, and a signature made by
/// `try_sign` under a secret scalar verifies under that scalar's public
/// key.
#[verifier::external_body]
pub(crate) fn es256_verify(pub_point: &[u8], msg: &[u8], sig: &[u8]) -> (r: bool)
    ensures
        r == es256_verified(pub_point@, msg@, sig@),
        forall|k: Seq<u8>|
            pub_point@ == p256_pub_of(k) && sig@ == es256_sig_of(k, msg@) ==> r == true,
{
    let vk = match p256::ecdsa::VerifyingKey::from_sec1_bytes(pub_point) {
        Ok(vk) => vk,
        Err(_) => {
            return false;
        },
    };
    let signature = match p256::ecdsa::Signature::from_slice(sig) {
        Ok(s) => s,
        Err(_) => {
            return false;
        },
    };
    p256::ecdsa::signature::Verifier::verify(&vk, msg, &signature).is_ok()
}

/// Relies on `hkdf::Hkdf::<sha2::Sha256>::new` and `expand`: extract with
/// the given salt, then expand with the given info; `expand` fails exactly
/// when more than 255 hash lengths (8160 bytes) are requested.
#[verifier::external_body]
pub(crate) fn hkdf_sha256(salt: &[u8], ikm: &[u8], info: &[u8], out_len: usize) -> (r: Result<
    Vec<u8>,
    PushError,
>)
    ensures
        out_len <= 8160 ==> r is Ok,
        r matches Ok(v) ==> (v@ == hkdf_sha256_of(salt@, ikm@, info@, out_len as int) && v@.len()
            == out_len),
        r matches Err(e) ==> e is CryptoFailure,
{
    let hk = hkdf::Hkdf::<sha2::Sha256>::new(Some(salt), ikm);
    let mut okm = vec![0u8; out_len];
    match hk.expand(info, &mut okm) {
        Ok(()) => Ok(okm),
        Err(_) => Err(PushError::CryptoFailure),
    }
}

/// Relies on `aes_gcm::Aes128Gcm` (`KeyInit::new_from_slice`,
/// `aead::Aead::encrypt`): the output is the ciphertext with the 16-byte
/// tag appended, and encryption fails only when the plaintext exceeds
/// 2^36 bytes.
#[verifier::external_body]
pub(crate) fn aes128gcm_encrypt(key: &[u8], nonce: &[u8], msg: &[u8]) -> (r: Result<
    Vec<u8>,
    PushError,
>)
    requires
        key@.len() == 16,
        nonce@.len() == 12,
    ensures
        msg@.len() <= 68719476736 ==> r is Ok,
        r matches Ok(v) ==> (v@ == aes128gcm_of(key@, nonce@, msg@) && v@.len() == msg@.len() + 16),
        r matches Err(e) ==> e is CryptoFailure,
{
    let cipher = match aes_gcm::KeyInit::new_from_slice(key) {
        Ok(c) => {
            let c: aes_gcm::Aes128Gcm = c;
            c
        },
        Err(_) => {
            return Err(PushError::CryptoFailure);
        },
    };
    let nonce = aes_gcm::Nonce::from_slice(nonce);
    match aes_gcm::aead::Aead::encrypt(&cipher, nonce, msg) {
        Ok(ct) => Ok(ct),
        Err(_) => Err(PushError::CryptoFailure),
    }
}

/// Relies on `aes_gcm::Aes128Gcm` (`aead::Aead::decrypt`): decryption of a
/// value that `encrypt` produced under the same key and nonce returns the
/// encrypted message; any accepted ciphertext is 16 bytes of tag over the
/// returned plaintext.
#[verifier::external_body]
pub(crate) fn aes128gcm_decrypt(key: &[u8], nonce: &[u8], ct: &[u8]) -> (r: Result<
    Vec<u8>,
    PushError,
>)
    requires
        key@.len() == 16,
        nonce@.len() == 12,
    ensures
        (forall|m: Seq<u8>|
            ct@ == aes128gcm_of(key@, nonce@, m) ==> (r is Ok && r->Ok_0@ == m)),
        r matches Ok(v) ==> (ct@.len() >= 16 && v@.len() == ct@.len() - 16),
        r matches Err(e) ==> e is CryptoFailure,
{
    let cipher = match aes_gcm::KeyInit::new_from_slice(key) {
        Ok(c) => {
            let c: aes_gcm::Aes128Gcm = c;
            c
        },
        Err(_) => {
            return Err(PushError::CryptoFailure);
        },
    };
    let nonce = aes_gcm::Nonce::from_slice(nonce);
    match aes_gcm::aead::Aead::decrypt(&cipher, nonce, ct) {
        Ok(msg) => Ok(msg),
        Err(_) => Err(PushError::CryptoFailure),
    }
}

} // verus!
