use acytel::auth::authenticate;
use acytel::proxy::AuthOutcome;
use jsonwebtoken::{encode, EncodingKey, Header};
use serde_json::Value;

const FAR_FUTURE: u64 = 4_102_444_800; // 2100-01-01
const LONG_PAST: u64 = 1_000;

fn token_with(claims: Value, secret: &[u8]) -> String {
    encode(&Header::default(), &claims, &EncodingKey::from_secret(secret)).unwrap()
}

fn standard_token(exp: u64, path: &str, secret: &[u8]) -> String {
    let mut m = serde_json::Map::new();
    m.insert("exp".to_string(), Value::from(exp));
    m.insert("storage_path".to_string(), Value::from(path));
    token_with(Value::Object(m), secret)
}

#[test]
fn valid_token_grants_its_path() {
    let t = standard_token(FAR_FUTURE, "albums/track01.mp3", b"top-secret");
    assert_eq!(
        authenticate(&t, b"top-secret"),
        AuthOutcome::Granted { storage_path: "albums/track01.mp3".to_string() }
    );
}

#[test]
fn garbage_token_denied() {
    assert_eq!(authenticate("deadbeef", b"top-secret"), AuthOutcome::Denied);
}

#[test]
fn expired_token_denied() {
    let t = standard_token(LONG_PAST, "albums/track01.mp3", b"top-secret");
    assert_eq!(authenticate(&t, b"top-secret"), AuthOutcome::Denied);
}

#[test]
fn wrong_secret_denied() {
    let t = standard_token(FAR_FUTURE, "albums/track01.mp3", b"secret-a");
    assert_eq!(authenticate(&t, b"secret-b"), AuthOutcome::Denied);
}

#[test]
fn tampered_token_denied() {
    let mut t = standard_token(FAR_FUTURE, "albums/track01.mp3", b"top-secret");
    let flipped = if t.ends_with('A') { 'B' } else { 'A' };
    t.pop();
    t.push(flipped);
    assert_eq!(authenticate(&t, b"top-secret"), AuthOutcome::Denied);
}

#[test]
fn missing_storage_path_denied() {
    let mut m = serde_json::Map::new();
    m.insert("exp".to_string(), Value::from(FAR_FUTURE));
    let t = token_with(Value::Object(m), b"top-secret");
    assert_eq!(authenticate(&t, b"top-secret"), AuthOutcome::Denied);
}

#[test]
fn missing_exp_denied() {
    let mut m = serde_json::Map::new();
    m.insert("storage_path".to_string(), Value::from("albums/track01.mp3"));
    let t = token_with(Value::Object(m), b"top-secret");
    assert_eq!(authenticate(&t, b"top-secret"), AuthOutcome::Denied);
}

#[test]
fn audience_claim_does_not_reject() {
    let mut m = serde_json::Map::new();
    m.insert("exp".to_string(), Value::from(FAR_FUTURE));
    m.insert("storage_path".to_string(), Value::from("a/b.mp3"));
    m.insert("aud".to_string(), Value::from("some-player"));
    let t = token_with(Value::Object(m), b"top-secret");
    assert_eq!(
        authenticate(&t, b"top-secret"),
        AuthOutcome::Granted { storage_path: "a/b.mp3".to_string() }
    );
}

#[test]
fn extra_claims_ignored() {
    let mut m = serde_json::Map::new();
    m.insert("exp".to_string(), Value::from(FAR_FUTURE));
    m.insert("storage_path".to_string(), Value::from("a/b.mp3"));
    m.insert("issuer_note".to_string(), Value::from("ignored"));
    m.insert("version".to_string(), Value::from(3u64));
    let t = token_with(Value::Object(m), b"top-secret");
    assert_eq!(
        authenticate(&t, b"top-secret"),
        AuthOutcome::Granted { storage_path: "a/b.mp3".to_string() }
    );
}
