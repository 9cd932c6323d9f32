use base64::engine::general_purpose::URL_SAFE_NO_PAD;
use base64::Engine as _;
use webpush::api::{ApiResponse, Config, SubscribeRequest};
use webpush::push::{
    build_push_request, generate_vapid_keys, interpret_push_status, prepare_all, Subscription,
    VapidConfig,
};
use webpush::PushError;

fn test_vapid() -> VapidConfig {
    let (public_key_b64, private_key_b64) = generate_vapid_keys();
    VapidConfig {
        subject: "mailto:admin@example.org".to_string(),
        public_key_b64,
        private_key_b64,
    }
}

fn valid_subscription(endpoint: &str) -> Subscription {
    let (p256dh, _priv) = generate_vapid_keys();
    Subscription {
        endpoint: endpoint.to_string(),
        p256dh,
        auth: URL_SAFE_NO_PAD.encode([6u8; 16]),
    }
}

#[test]
fn generated_keys_decode_as_a_p256_pair() {
    let (pub_b64, priv_b64) = generate_vapid_keys();
    let pub_bytes = URL_SAFE_NO_PAD.decode(&pub_b64).unwrap();
    let priv_bytes = URL_SAFE_NO_PAD.decode(&priv_b64).unwrap();
    assert_eq!(pub_bytes.len(), 65);
    assert_eq!(pub_bytes[0], 4);
    assert_eq!(priv_bytes.len(), 32);
    let sk = p256::SecretKey::from_slice(&priv_bytes).unwrap();
    let derived = p256::elliptic_curve::sec1::ToEncodedPoint::to_encoded_point(
        &sk.public_key(),
        false,
    );
    assert_eq!(derived.as_bytes(), pub_bytes.as_slice());
}

#[test]
fn request_carries_endpoint_headers_and_body() {
    let vapid = test_vapid();
    let sub = valid_subscription("https://fcm.googleapis.com/fcm/send/abc123");
    let req = build_push_request(&sub, b"hello subscribers", &vapid).unwrap();
    assert_eq!(req.endpoint, sub.endpoint);
    assert!(req.authorization.starts_with("vapid t="));
    let k_part = format!(", k={}", vapid.public_key_b64);
    assert!(req.authorization.ends_with(&k_part));
    // The token inside the header is for this endpoint's origin.
    let jwt = &req.authorization["vapid t=".len()..req.authorization.len() - k_part.len()];
    let claims_b64 = jwt.split('.').nth(1).unwrap();
    let claims: serde_json::Value =
        serde_json::from_slice(&URL_SAFE_NO_PAD.decode(claims_b64).unwrap()).unwrap();
    assert_eq!(
        claims.get("aud").and_then(|v| v.as_str()),
        Some("https://fcm.googleapis.com")
    );
    // Body: aes128gcm framing around the message.
    assert_eq!(req.body.len(), 86 + b"hello subscribers".len() + 17);
    assert_eq!(
        u32::from_be_bytes([req.body[16], req.body[17], req.body[18], req.body[19]]),
        4096
    );
    assert_eq!(req.body[20], 65);
}

#[test]
fn batch_isolation_with_one_malformed_key() {
    let vapid = test_vapid();
    let good1 = valid_subscription("https://push.example.org/a");
    let mut bad = valid_subscription("https://push.example.org/b");
    bad.p256dh = URL_SAFE_NO_PAD.encode([4u8; 64]);
    let good2 = valid_subscription("https://push.example.org/c");
    let subs = vec![good1, bad, good2];
    let results = prepare_all(&subs, b"nightly summary", &vapid);
    assert_eq!(results.len(), 3);
    assert!(results[0].is_ok());
    assert!(matches!(results[1], Err(PushError::InvalidKey)));
    assert!(results[2].is_ok());
    assert_eq!(results[0].as_ref().unwrap().endpoint, "https://push.example.org/a");
    assert_eq!(results[2].as_ref().unwrap().endpoint, "https://push.example.org/c");
}

#[test]
fn batch_of_empty_list_is_empty() {
    let vapid = test_vapid();
    let results = prepare_all(&Vec::new(), b"msg", &vapid);
    assert!(results.is_empty());
}

#[test]
fn bad_endpoint_is_invalid_key_error() {
    let vapid = test_vapid();
    let mut sub = valid_subscription("https://push.example.org/a");
    sub.endpoint = "not a url".to_string();
    let r = build_push_request(&sub, b"msg", &vapid);
    assert!(matches!(r, Err(PushError::InvalidKey)));
}

#[test]
fn bad_vapid_key_is_invalid_key_error() {
    let mut vapid = test_vapid();
    vapid.private_key_b64 = "short".to_string();
    let sub = valid_subscription("https://push.example.org/a");
    let r = build_push_request(&sub, b"msg", &vapid);
    assert!(matches!(r, Err(PushError::InvalidKey)));
}

#[test]
fn statuses_are_classified() {
    assert!(interpret_push_status(200, String::new()).is_ok());
    assert!(interpret_push_status(201, String::new()).is_ok());
    assert!(interpret_push_status(299, String::new()).is_ok());
    for status in [199u16, 301, 404, 410, 413, 429, 500, 503] {
        match interpret_push_status(status, format!("body {}", status)) {
            Err(PushError::EndpointRejected { status: s, body }) => {
                assert_eq!(s, status);
                assert_eq!(body, format!("body {}", status));
            }
            other => panic!("expected EndpointRejected, got {:?}", other),
        }
    }
}

#[test]
fn error_kind_query() {
    assert!(PushError::InvalidKey.is_invalid_key());
    assert!(!PushError::Transport.is_invalid_key());
    assert!(!PushError::CryptoFailure.is_invalid_key());
}

#[test]
fn config_builds_the_vapid_identity() {
    let (public, private) = generate_vapid_keys();
    let config = Config {
        fmi_place: "helsinki".to_string(),
        port: 3000,
        db_path: "local.db".to_string(),
        vapid_subject: "mailto:admin@example.org".to_string(),
        vapid_public_key: public.clone(),
        vapid_private_key: private.clone(),
        summary_hour: 7,
    };
    let vapid = config.vapid_config();
    assert_eq!(vapid.subject, "mailto:admin@example.org");
    assert_eq!(vapid.public_key_b64, public);
    assert_eq!(vapid.private_key_b64, private);
}

#[test]
fn subscribe_request_becomes_subscription() {
    let req = SubscribeRequest {
        endpoint: "https://push.example.org/a".to_string(),
        p256dh: "key".to_string(),
        auth: "secret".to_string(),
    };
    let sub = req.into_subscription();
    assert_eq!(sub.endpoint, "https://push.example.org/a");
    assert_eq!(sub.p256dh, "key");
    assert_eq!(sub.auth, "secret");
}

#[test]
fn api_response_constructors() {
    let ok = ApiResponse::success();
    assert!(ok.ok);
    assert!(ok.error.is_none());
    let err = ApiResponse::failure("db down".to_string());
    assert!(!err.ok);
    assert_eq!(err.error.as_deref(), Some("db down"));
}
