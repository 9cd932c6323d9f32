use base64::engine::general_purpose::URL_SAFE_NO_PAD;
use base64::Engine as _;
use webpush::base64url::{b64url_decode, b64url_encode};

fn encode_str(input: &[u8]) -> String {
    String::from_utf8(b64url_encode(input)).unwrap()
}

#[test]
fn encode_known_vectors() {
    assert_eq!(encode_str(b""), "");
    assert_eq!(encode_str(b"f"), "Zg");
    assert_eq!(encode_str(b"fo"), "Zm8");
    assert_eq!(encode_str(b"foo"), "Zm9v");
    assert_eq!(encode_str(b"foob"), "Zm9vYg");
    assert_eq!(encode_str(b"fooba"), "Zm9vYmE");
    assert_eq!(encode_str(b"foobar"), "Zm9vYmFy");
}

#[test]
fn encode_matches_base64_crate() {
    let mut data: Vec<u8> = Vec::new();
    for i in 0..257u32 {
        assert_eq!(encode_str(&data), URL_SAFE_NO_PAD.encode(&data));
        data.push((i.wrapping_mul(167) % 256) as u8);
    }
}

#[test]
fn decode_known_vectors() {
    assert_eq!(b64url_decode(b""), Some(Vec::new()));
    assert_eq!(b64url_decode(b"Zg"), Some(b"f".to_vec()));
    assert_eq!(b64url_decode(b"Zm8"), Some(b"fo".to_vec()));
    assert_eq!(b64url_decode(b"Zm9v"), Some(b"foo".to_vec()));
    assert_eq!(b64url_decode(b"Zm9vYmFy"), Some(b"foobar".to_vec()));
}

#[test]
fn decode_matches_base64_crate() {
    let samples: &[&[u8]] = &[
        b"",
        b"Zg",
        b"Zm9vYmFy",
        b"A",
        b"AA",
        b"AAA",
        b"AAAA",
        b"Zg==",
        b"Zh",
        b"Zm9.v",
        b"-_-_",
        b"////",
        b"ab\xffcd",
    ];
    for s in samples {
        let ours = b64url_decode(s);
        let theirs = URL_SAFE_NO_PAD.decode(s).ok();
        assert_eq!(ours, theirs, "mismatch on {:?}", s);
    }
}

#[test]
fn decode_rejects_padding_and_stray_bytes() {
    assert_eq!(b64url_decode(b"Zg=="), None);
    assert_eq!(b64url_decode(b"A"), None);
    assert_eq!(b64url_decode(b"Zm9v!"), None);
    assert_eq!(b64url_decode(b"+abc"), None);
    assert_eq!(b64url_decode(b"/abc"), None);
}

#[test]
fn decode_rejects_nonzero_trailing_bits() {
    // 'h' carries low bits that a canonical single-byte encoding leaves zero.
    assert_eq!(b64url_decode(b"Zh"), None);
    assert_eq!(URL_SAFE_NO_PAD.decode(b"Zh").ok(), None);
}

#[test]
fn round_trip_many_lengths() {
    let mut data: Vec<u8> = Vec::new();
    for i in 0..300u32 {
        let encoded = b64url_encode(&data);
        assert_eq!(b64url_decode(&encoded), Some(data.clone()));
        data.push((i.wrapping_mul(31).wrapping_add(7) % 256) as u8);
    }
}
