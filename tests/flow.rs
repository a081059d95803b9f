use unkey_gateway::credential::{KeyCreateData, KeyVerifyData};
use unkey_gateway::gateway::{authorize, begin_generation, me, GenerateReply, Status};
use unkey_gateway::generation::GenerationError;
use unkey_gateway::session::Session;

fn credential(key: &str, key_id: &str) -> KeyCreateData {
    KeyCreateData { key: key.to_string(), key_id: key_id.to_string() }
}

fn signed_in(key: &str, key_id: &str) -> Session {
    let mut session = Session::new();
    assert!(authorize(&mut session, Some(credential(key, key_id))).is_ok());
    session
}

fn failure(reply: GenerateReply) -> (u16, String) {
    match reply {
        GenerateReply::Failure { status, message } => (status.code(), message),
        other => panic!("expected a failure, got {:?}", other),
    }
}

#[test]
fn empty_session_generate_is_unauthorized() {
    let session = Session::new();
    let reply = begin_generation(&session, "a cat".to_string()).err().unwrap();
    let (code, message) = failure(reply);
    assert_eq!(code, 401);
    assert!(message.contains("Unauthorized"));
}

#[test]
fn empty_session_me_is_unauthorized() {
    let session = Session::new();
    let e = me(&session).err().unwrap();
    assert_eq!(e.status, Status::Unauthorized);
    assert_eq!(e.message, "Unauthorized: No valid API key in cookies.");
    assert_eq!(Status::Unauthorized.code(), 401);
}

#[test]
fn authorize_then_me_shows_issued_key() {
    let mut session = Session::new();
    let redirect = authorize(&mut session, Some(credential("sk_test", "id_1"))).unwrap();
    assert_eq!(redirect.location, "/me");
    assert_eq!(session.token.as_deref(), Some(r#"{"key":"sk_test","key_id":"id_1"}"#));
    let shown = me(&session).unwrap();
    assert_eq!(shown, credential("sk_test", "id_1"));
}

#[test]
fn failed_issuance_is_unauthorized_and_keeps_session() {
    let mut session = signed_in("sk_old", "id_old");
    let before = session.clone();
    let e = authorize(&mut session, None).err().unwrap();
    assert_eq!(e.status, Status::Unauthorized);
    assert_eq!(e.message, "Unauthorized: Unable to create an API key.");
    assert_eq!(session, before);
    assert_eq!(me(&session).unwrap(), credential("sk_old", "id_old"));
}

#[test]
fn second_issuance_replaces_first() {
    let mut session = signed_in("sk_first", "id_first");
    assert!(authorize(&mut session, Some(credential("sk_second", "id_second"))).is_ok());
    let shown = me(&session).unwrap();
    assert_eq!(shown, credential("sk_second", "id_second"));
    assert!(!session.token.unwrap().contains("sk_first"));
}

#[test]
fn valid_key_generates_with_remaining_from_verification() {
    let session = signed_in("sk_test", "id_1");
    let pending = begin_generation(&session, "a cat".to_string()).ok().unwrap();
    assert_eq!(pending.key(), "sk_test");
    let verified = KeyVerifyData { valid: true, remaining: Some(5) };
    let image = pending.on_verified(Some(verified)).ok().unwrap();
    assert_eq!(image.prompt(), "a cat");
    let reply = image.on_image(Ok("https://img.example/cat.png".to_string()));
    assert_eq!(
        reply,
        GenerateReply::Image {
            image_url: "https://img.example/cat.png".to_string(),
            remaining_calls: Some(5),
        }
    );
    assert_eq!(Status::Success.code(), 200);
}

#[test]
fn untracked_quota_reports_no_remaining() {
    let session = signed_in("sk_test", "id_1");
    let pending = begin_generation(&session, "a dog".to_string()).ok().unwrap();
    let image = pending.on_verified(Some(KeyVerifyData { valid: true, remaining: None })).ok().unwrap();
    let reply = image.on_image(Ok("u".to_string()));
    assert_eq!(reply, GenerateReply::Image { image_url: "u".to_string(), remaining_calls: None });
}

#[test]
fn invalid_key_is_bad_request() {
    let session = signed_in("sk_test", "id_1");
    let pending = begin_generation(&session, "a cat".to_string()).ok().unwrap();
    let verified = KeyVerifyData { valid: false, remaining: Some(0) };
    let (code, message) = failure(pending.on_verified(Some(verified)).err().unwrap());
    assert_eq!(code, 400);
    assert!(message.contains("Quota exceeded or invalid key"));
}

#[test]
fn failed_verification_is_bad_request() {
    let session = signed_in("sk_test", "id_1");
    let pending = begin_generation(&session, "a cat".to_string()).ok().unwrap();
    let (code, message) = failure(pending.on_verified(None).err().unwrap());
    assert_eq!(code, 400);
    assert_eq!(message, "Invalid API key: Quota exceeded or invalid key.");
}

#[test]
fn generation_error_is_internal_and_keeps_session() {
    let session = signed_in("sk_test", "id_1");
    let before = session.clone();
    let pending = begin_generation(&session, "a cat".to_string()).ok().unwrap();
    let verified = KeyVerifyData { valid: true, remaining: Some(3) };
    let image = pending.on_verified(Some(verified)).ok().unwrap();
    let (code, message) = failure(image.on_image(Err(GenerationError::Transport)));
    assert_eq!(code, 500);
    assert!(message.contains("Unable to generate the image"));
    assert_eq!(session, before);
    assert_eq!(me(&session).unwrap(), credential("sk_test", "id_1"));
}

#[test]
fn empty_image_list_is_internal_error() {
    let session = signed_in("sk_test", "id_1");
    let pending = begin_generation(&session, "a cat".to_string()).ok().unwrap();
    let image = pending.on_verified(Some(KeyVerifyData { valid: true, remaining: Some(1) })).ok().unwrap();
    let (code, _) = failure(image.on_image(Err(GenerationError::NoImage)));
    assert_eq!(code, 500);
}

#[test]
fn malformed_token_is_bad_request_for_generation() {
    let session = Session::from_token(Some("not json".to_string()));
    let (code, message) = failure(begin_generation(&session, "a cat".to_string()).err().unwrap());
    assert_eq!(code, 400);
    assert_eq!(message, "Invalid API key format in cookies.");
    assert_eq!(me(&session).err().map(|e| e.status), Some(Status::Unauthorized));
}

#[test]
fn reordered_token_is_read_by_every_operation() {
    let session = Session::from_token(Some(r#"{"key_id":"id_1","key":"sk_test"}"#.to_string()));
    assert_eq!(me(&session).unwrap(), credential("sk_test", "id_1"));
    let pending = begin_generation(&session, "a cat".to_string()).ok().unwrap();
    assert_eq!(pending.key(), "sk_test");
}

#[test]
fn status_codes() {
    assert_eq!(Status::SeeOther.code(), 303);
    assert_eq!(Status::BadRequest.code(), 400);
    assert_eq!(Status::InternalServerError.code(), 500);
}
