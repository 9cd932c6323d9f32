use aes_gcm::aead::{Aead, KeyInit};
use aes_gcm::{Aes128Gcm, Nonce};
use hkdf::Hkdf;
use p256::elliptic_curve::sec1::ToEncodedPoint;
use sha2::Sha256;
use webpush::webpush::{decrypt, encrypt, encrypt_with};

fn subscriber_pair() -> (p256::SecretKey, Vec<u8>) {
    let sk = p256::SecretKey::random(&mut rand::rngs::OsRng);
    let pk = sk.public_key().to_encoded_point(false).as_bytes().to_vec();
    (sk, pk)
}

/// RFC 8291 decryption written directly against the crypto crates,
/// independent of the library's code paths.
fn reference_decrypt(payload: &[u8], sub_secret: &p256::SecretKey, auth: &[u8]) -> Vec<u8> {
    let salt = &payload[0..16];
    let rs = u32::from_be_bytes([payload[16], payload[17], payload[18], payload[19]]);
    assert_eq!(rs, 4096);
    assert_eq!(payload[20], 65);
    let eph_pub = &payload[21..86];
    let ct = &payload[86..];

    let eph_point = p256::PublicKey::from_sec1_bytes(eph_pub).unwrap();
    let shared =
        p256::ecdh::diffie_hellman(sub_secret.to_nonzero_scalar(), eph_point.as_affine());
    let ua_pub = sub_secret.public_key().to_encoded_point(false);

    let mut info = b"WebPush: info\x00".to_vec();
    info.extend_from_slice(ua_pub.as_bytes());
    info.extend_from_slice(eph_pub);
    let hk = Hkdf::<Sha256>::new(Some(auth), shared.raw_secret_bytes());
    let mut ikm = [0u8; 32];
    hk.expand(&info, &mut ikm).unwrap();

    let hk2 = Hkdf::<Sha256>::new(Some(salt), &ikm);
    let mut cek = [0u8; 16];
    hk2.expand(b"Content-Encoding: aes128gcm\x00", &mut cek).unwrap();
    let mut nonce = [0u8; 12];
    hk2.expand(b"Content-Encoding: nonce\x00", &mut nonce).unwrap();

    let cipher = Aes128Gcm::new_from_slice(&cek).unwrap();
    let mut rec = cipher.decrypt(Nonce::from_slice(&nonce), ct).unwrap();
    while rec.last() == Some(&0) {
        rec.pop();
    }
    assert_eq!(rec.pop(), Some(2));
    rec
}

#[test]
fn round_trip_through_library_decrypt() {
    let (sk, pk) = subscriber_pair();
    let sk_bytes = sk.to_bytes().to_vec();
    let auth = [9u8; 16];
    for len in [0usize, 1, 2, 3, 15, 16, 17, 100, 1000, 3000] {
        let plaintext: Vec<u8> = (0..len).map(|i| (i * 13 % 256) as u8).collect();
        let payload = encrypt(&plaintext, &pk, &auth).unwrap();
        let back = decrypt(&payload, &sk_bytes, &auth).unwrap();
        assert_eq!(back, plaintext);
    }
}

#[test]
fn round_trip_against_reference_decryptor() {
    let (sk, pk) = subscriber_pair();
    let auth = [42u8; 16];
    let plaintext = b"When the weather turns, the radiator listens.".to_vec();
    let payload = encrypt(&plaintext, &pk, &auth).unwrap();
    assert_eq!(reference_decrypt(&payload, &sk, &auth), plaintext);
}

#[test]
fn plaintext_with_trailing_zeros_survives() {
    let (sk, pk) = subscriber_pair();
    let sk_bytes = sk.to_bytes().to_vec();
    let auth = [1u8; 16];
    let plaintext = vec![5u8, 0, 0, 0];
    let payload = encrypt(&plaintext, &pk, &auth).unwrap();
    assert_eq!(decrypt(&payload, &sk_bytes, &auth).unwrap(), plaintext);
    assert_eq!(reference_decrypt(&payload, &sk, &auth), plaintext);
}

#[test]
fn fresh_randomness_each_call() {
    let (_sk, pk) = subscriber_pair();
    let auth = [3u8; 16];
    let plaintext = b"same message".to_vec();
    let one = encrypt(&plaintext, &pk, &auth).unwrap();
    let two = encrypt(&plaintext, &pk, &auth).unwrap();
    // Different salt, different ephemeral point, different ciphertext.
    assert_ne!(one[0..16], two[0..16]);
    assert_ne!(one[21..86], two[21..86]);
    assert_ne!(one[86..], two[86..]);
}

#[test]
fn wire_format_fields() {
    let (_sk, pk) = subscriber_pair();
    let auth = [7u8; 16];
    let salt = [11u8; 16];
    let eph_secret = [1u8; 32];
    let plaintext = b"layout check".to_vec();
    let payload = encrypt_with(&plaintext, &pk, &auth, &salt, &eph_secret).unwrap();
    assert_eq!(&payload[0..16], &salt);
    assert_eq!(
        u32::from_be_bytes([payload[16], payload[17], payload[18], payload[19]]),
        4096
    );
    assert_eq!(payload[20], 65);
    let expected_eph = p256::SecretKey::from_slice(&eph_secret)
        .unwrap()
        .public_key()
        .to_encoded_point(false)
        .as_bytes()
        .to_vec();
    assert_eq!(&payload[21..86], expected_eph.as_slice());
    // ciphertext = plaintext + delimiter + 16-byte tag
    assert_eq!(payload.len(), 86 + plaintext.len() + 1 + 16);
}

#[test]
fn explicit_inputs_are_deterministic() {
    let (_sk, pk) = subscriber_pair();
    let auth = [7u8; 16];
    let salt = [11u8; 16];
    let eph_secret = [2u8; 32];
    let one = encrypt_with(b"abc", &pk, &auth, &salt, &eph_secret).unwrap();
    let two = encrypt_with(b"abc", &pk, &auth, &salt, &eph_secret).unwrap();
    assert_eq!(one, two);
}

#[test]
fn rejects_wrong_length_key() {
    let auth = [0u8; 16];
    // 64 bytes: looks like a point with the tag byte missing.
    let key64 = vec![4u8; 64];
    let r = encrypt(b"hello", &key64, &auth);
    assert!(matches!(r, Err(webpush::PushError::InvalidKey)));
    // 33 bytes: a compressed-length value.
    let key33 = vec![2u8; 33];
    let r = encrypt(b"hello", &key33, &auth);
    assert!(matches!(r, Err(webpush::PushError::InvalidKey)));
}

#[test]
fn rejects_non_curve_point() {
    let auth = [0u8; 16];
    let mut key = vec![0xffu8; 65];
    key[0] = 4;
    let r = encrypt(b"hello", &key, &auth);
    assert!(matches!(r, Err(webpush::PushError::InvalidKey)));
}

#[test]
fn rejects_wrong_auth_secret_length() {
    let (_sk, pk) = subscriber_pair();
    let r = encrypt(b"hello", &pk, &[0u8; 15]);
    assert!(matches!(r, Err(webpush::PushError::InvalidKey)));
}

#[test]
fn decrypt_rejects_garbage() {
    let r = decrypt(&[0u8; 40], &[1u8; 32], &[0u8; 16]);
    assert!(r.is_err());
    let r = decrypt(&[0u8; 200], &[1u8; 32], &[0u8; 16]);
    assert!(r.is_err());
}
