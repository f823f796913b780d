use ed25519_dalek::Signer;
use flovenet::social::Post;
use flovenet::time::Timestamp;

fn post() -> Post {
    Post {
        cid: "cid-1".into(),
        author: "alice".into(),
        content: "hello \"world\"".into(),
        media: vec!["img1".into()],
        parent: None,
        reply_count: 0,
        like_count: 0,
        timestamp: Timestamp { secs: 1_700_000_000, nanos: 0 },
        signature: vec![],
    }
}

fn public_of(secret: &[u8; 32]) -> [u8; 32] {
    ed25519_dalek::SigningKey::from_bytes(secret).verifying_key().to_bytes()
}

#[test]
fn signing_payload_is_json_of_signed_fields() {
    let p = post();
    let payload = String::from_utf8(p.to_signing_payload()).unwrap();
    assert_eq!(
        payload,
        r#"{"author":"alice","content":"hello \"world\"","media":["img1"],"parent":null,"timestamp":"2023-11-14T22:13:20+00:00"}"#
    );
}

#[test]
fn signed_post_verifies_with_its_key() {
    let secret = [3u8; 32];
    let mut p = post();
    assert!(!p.verify_signature(&public_of(&secret)));
    p.sign_with(&secret);
    assert_eq!(p.signature.len(), 64);
    assert!(p.verify_signature(&public_of(&secret)));
    assert!(!p.verify_signature(&public_of(&[4u8; 32])));
}

#[test]
fn signature_survives_counter_changes_but_not_content_changes() {
    let secret = [9u8; 32];
    let mut p = post();
    p.sign_with(&secret);
    p.like_count = 10;
    p.reply_count = 2;
    p.cid = "other".into();
    assert!(p.verify_signature(&public_of(&secret)));
    p.content.push('!');
    assert!(!p.verify_signature(&public_of(&secret)));
}

#[test]
fn truncated_signature_is_invalid() {
    let secret = [1u8; 32];
    let mut p = post();
    p.sign_with(&secret);
    p.signature.pop();
    assert!(!p.verify_signature(&public_of(&secret)));
}

#[test]
fn signature_matches_dalek() {
    let secret = [5u8; 32];
    let mut p = post();
    let expected = ed25519_dalek::SigningKey::from_bytes(&secret).sign(&p.to_signing_payload()).to_bytes().to_vec();
    p.sign_with(&secret);
    assert_eq!(p.signature, expected);
}

#[test]
fn signed_post_verifies_under_library_public_key() {
    let secret = [9u8; 32];
    let pk = flovenet::social::public_key_of(&secret);
    assert_eq!(pk, public_of(&secret));
    let mut p = post();
    p.sign_with(&secret);
    assert!(p.verify_signature(&pk));
    p.cid = "other".into();
    p.like_count = 7;
    p.reply_count = 3;
    assert!(p.verify_signature(&pk));
    assert!(!p.verify_signature(&flovenet::social::public_key_of(&[8u8; 32])));
}

#[test]
fn leap_second_posts_sign_and_verify() {
    let secret = [2u8; 32];
    let mut p = post();
    p.timestamp = Timestamp { secs: 1_483_228_799, nanos: 1_000_000_000 };
    let payload = String::from_utf8(p.to_signing_payload()).unwrap();
    assert!(payload.contains("2016-12-31T23:59:60"));
    p.sign_with(&secret);
    assert!(p.verify_signature(&flovenet::social::public_key_of(&secret)));
}
