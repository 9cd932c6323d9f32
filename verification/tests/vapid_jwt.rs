use base64::engine::general_purpose::URL_SAFE_NO_PAD;
use base64::Engine as _;
use p256::ecdsa::signature::Verifier;
use p256::elliptic_curve::sec1::ToEncodedPoint;
use webpush::vapid::{build_vapid_jwt, build_vapid_jwt_at, verify_vapid_jwt};

fn test_identity() -> (String, Vec<u8>, p256::ecdsa::VerifyingKey) {
    let sk = p256::SecretKey::random(&mut rand::rngs::OsRng);
    let priv_b64 = URL_SAFE_NO_PAD.encode(sk.to_bytes());
    let pub_point = sk.public_key().to_encoded_point(false).as_bytes().to_vec();
    let vk = p256::ecdsa::VerifyingKey::from(sk.public_key());
    (priv_b64, pub_point, vk)
}

#[test]
fn jwt_has_three_base64url_segments() {
    let (priv_b64, _pub, _vk) = test_identity();
    let jwt = build_vapid_jwt_at(
        "https://push.example.net",
        "mailto:admin@example.org",
        &priv_b64,
        1700000000,
    )
    .unwrap();
    let parts: Vec<&str> = jwt.split('.').collect();
    assert_eq!(parts.len(), 3);
    for p in &parts {
        assert!(URL_SAFE_NO_PAD.decode(p).is_ok());
    }
    let sig = URL_SAFE_NO_PAD.decode(parts[2]).unwrap();
    assert_eq!(sig.len(), 64);
}

#[test]
fn jwt_header_is_es256() {
    let (priv_b64, _pub, _vk) = test_identity();
    let jwt =
        build_vapid_jwt_at("https://a.example", "mailto:x@y.z", &priv_b64, 1700000000).unwrap();
    let header = URL_SAFE_NO_PAD
        .decode(jwt.split('.').next().unwrap())
        .unwrap();
    assert_eq!(header, b"{\"alg\":\"ES256\"}");
}

#[test]
fn jwt_claims_hold_aud_exp_sub() {
    let (priv_b64, _pub, _vk) = test_identity();
    let now: i64 = 1700000000;
    let jwt = build_vapid_jwt_at(
        "https://push.example.net:8443",
        "mailto:admin@example.org",
        &priv_b64,
        now,
    )
    .unwrap();
    let parts: Vec<&str> = jwt.split('.').collect();
    let claims_bytes = URL_SAFE_NO_PAD.decode(parts[1]).unwrap();
    let claims: serde_json::Value = serde_json::from_slice(&claims_bytes).unwrap();
    assert_eq!(
        claims.get("aud").and_then(|v| v.as_str()),
        Some("https://push.example.net:8443")
    );
    assert_eq!(claims.get("exp").and_then(|v| v.as_i64()), Some(now + 3600));
    assert_eq!(
        claims.get("sub").and_then(|v| v.as_str()),
        Some("mailto:admin@example.org")
    );
}

#[test]
fn jwt_expiry_tracks_the_clock() {
    let (priv_b64, _pub, _vk) = test_identity();
    let before = chrono::Utc::now().timestamp();
    let jwt = build_vapid_jwt("https://a.example", "mailto:x@y.z", &priv_b64).unwrap();
    let after = chrono::Utc::now().timestamp();
    let parts: Vec<&str> = jwt.split('.').collect();
    let claims: serde_json::Value =
        serde_json::from_slice(&URL_SAFE_NO_PAD.decode(parts[1]).unwrap()).unwrap();
    let exp = claims.get("exp").and_then(|v| v.as_i64()).unwrap();
    assert!(exp >= before + 3600 && exp <= after + 3600);
}

#[test]
fn jwt_escapes_json_strings() {
    let (priv_b64, _pub, _vk) = test_identity();
    let subject = "mailto:\"quoted\"\\back\u{01}slash";
    let jwt =
        build_vapid_jwt_at("https://a.example", subject, &priv_b64, 1700000000).unwrap();
    let parts: Vec<&str> = jwt.split('.').collect();
    let claims: serde_json::Value =
        serde_json::from_slice(&URL_SAFE_NO_PAD.decode(parts[1]).unwrap()).unwrap();
    assert_eq!(claims.get("sub").and_then(|v| v.as_str()), Some(subject));
}

#[test]
fn signature_verifies_with_p256() {
    let (priv_b64, _pub, vk) = test_identity();
    let jwt = build_vapid_jwt_at(
        "https://push.example.net",
        "mailto:admin@example.org",
        &priv_b64,
        1700000000,
    )
    .unwrap();
    let dot = jwt.rfind('.').unwrap();
    let signing_input = &jwt[..dot];
    let sig_bytes = URL_SAFE_NO_PAD.decode(&jwt[dot + 1..]).unwrap();
    let sig = p256::ecdsa::Signature::from_slice(&sig_bytes).unwrap();
    vk.verify(signing_input.as_bytes(), &sig).unwrap();
}

#[test]
fn signature_verifies_through_library() {
    let (priv_b64, pub_point, _vk) = test_identity();
    let jwt = build_vapid_jwt_at(
        "https://push.example.net",
        "mailto:admin@example.org",
        &priv_b64,
        1700000000,
    )
    .unwrap();
    assert!(verify_vapid_jwt(&jwt, &pub_point));
}

#[test]
fn tampered_jwt_fails_verification() {
    let (priv_b64, pub_point, _vk) = test_identity();
    let jwt = build_vapid_jwt_at(
        "https://push.example.net",
        "mailto:admin@example.org",
        &priv_b64,
        1700000000,
    )
    .unwrap();
    // Change the audience inside the claims without re-signing.
    let other = build_vapid_jwt_at(
        "https://other.example.net",
        "mailto:admin@example.org",
        &priv_b64,
        1700000000,
    )
    .unwrap();
    let sig = jwt.rsplit('.').next().unwrap();
    let mut forged: Vec<&str> = other.split('.').take(2).collect();
    forged.push(sig);
    let forged = forged.join(".");
    assert!(!verify_vapid_jwt(&forged, &pub_point));
}

#[test]
fn invalid_private_key_is_rejected() {
    let r = build_vapid_jwt_at("https://a.example", "mailto:x@y.z", "not-32-bytes", 0);
    assert!(matches!(r, Err(webpush::PushError::InvalidKey)));
    let r = build_vapid_jwt_at("https://a.example", "mailto:x@y.z", "%%%", 0);
    assert!(matches!(r, Err(webpush::PushError::InvalidKey)));
    // 32 zero bytes: not a valid scalar.
    let zero = URL_SAFE_NO_PAD.encode([0u8; 32]);
    let r = build_vapid_jwt_at("https://a.example", "mailto:x@y.z", &zero, 0);
    assert!(matches!(r, Err(webpush::PushError::InvalidKey)));
}
