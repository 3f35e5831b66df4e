use argon2::PasswordVerifier;
use emotes::session::{SerializedEmoteToken, admit_request, check_create_token, check_create_user, single_row_outcome, AdmissionError, MintError, Bearer, OperationError, Rejection, RowCountError};
use emotes::authz::{Caller, Denial};
use emotes::guards::FirstRunGate;
use emotes::store::{Store, TokenRow, UserRow};
use emotes::token::{decode_token, encode_token, new_secret, parse_token_payload, uuid_to_text, TokenError, SECRET_LEN};

const ID: u128 = 0x67e5504410b1426f9247bb680e5fe0c8;

#[test]
fn uuid_text_is_hyphenated_lowercase() {
    let t = uuid_to_text(ID);
    assert_eq!(String::from_utf8(t).unwrap(), "67e55044-10b1-426f-9247-bb680e5fe0c8");
    let z = uuid_to_text(0);
    assert_eq!(String::from_utf8(z).unwrap(), "00000000-0000-0000-0000-000000000000");
    for x in [1u128, u128::MAX, 0x0123456789abcdef0123456789abcdef] {
        let ours = String::from_utf8(uuid_to_text(x)).unwrap();
        assert_eq!(ours, uuid::Uuid::from_u128(x).hyphenated().to_string());
    }
}

#[test]
fn token_round_trip() {
    let t = encode_token(ID, "abcXYZ0123").unwrap();
    assert_eq!(decode_token(&t), Ok(ID));
    let t0 = encode_token(0, "").unwrap();
    assert_eq!(decode_token(&t0), Ok(0));
}

#[test]
fn token_is_base64_of_json() {
    let t = encode_token(ID, "s3cret").unwrap();
    assert_ne!(t, "{\"token_uuid\":\"67e55044-10b1-426f-9247-bb680e5fe0c8\",\"token\":\"s3cret\"}");
    let raw = base64::decode_config(&t, base64::URL_SAFE).unwrap();
    assert_eq!(
        String::from_utf8(raw).unwrap(),
        "{\"token_uuid\":\"67e55044-10b1-426f-9247-bb680e5fe0c8\",\"token\":\"s3cret\"}"
    );
}

#[test]
fn garbage_tokens_are_invalid() {
    assert_eq!(decode_token("!!!not base64!!!"), Err(TokenError::BadEncoding));
    assert_eq!(decode_token(""), Err(TokenError::BadPayload));
    let not_json = base64::encode_config("hello", base64::URL_SAFE);
    assert_eq!(decode_token(&not_json), Err(TokenError::BadPayload));
    let bad_id = base64::encode_config(
        "{\"token_uuid\":\"zze55044-10b1-426f-9247-bb680e5fe0c8\",\"token\":\"abc\"}",
        base64::URL_SAFE,
    );
    assert_eq!(decode_token(&bad_id), Err(TokenError::BadPayload));
    assert_eq!(parse_token_payload(b"{\"token_uuid\":\"x\"}"), Err(TokenError::BadPayload));
}

#[test]
fn secrets_must_be_alphanumeric() {
    assert!(encode_token(ID, "has space").is_none());
    assert!(encode_token(ID, "quote\"").is_none());
    assert!(encode_token(ID, &"a".repeat(4097)).is_none());
    assert!(encode_token(ID, &"a".repeat(4096)).is_some());
}

#[test]
fn new_secrets() {
    let s = new_secret().unwrap();
    assert_eq!(s.secret.len(), SECRET_LEN);
    assert!(s.secret.chars().all(|c| c.is_ascii_alphanumeric()));
    assert!(s.hash.starts_with("$argon2"));
    assert_ne!(s.hash, s.secret);
    let parsed = argon2::PasswordHash::new(&s.hash).unwrap();
    assert!(argon2::Argon2::default().verify_password(s.secret.as_bytes(), &parsed).is_ok());
    assert!(argon2::Argon2::default().verify_password(b"other", &parsed).is_err());
    let t = encode_token(ID, &s.secret).unwrap();
    assert_eq!(decode_token(&t), Ok(ID));
}

fn store_with_token() -> Store {
    let mut s = Store::new();
    s.users = vec![UserRow { uuid: 1, username: "alice".to_string(), administrator: true }];
    s.tokens = vec![TokenRow { uuid: ID, user: 1 }, TokenRow { uuid: 7, user: 99 }];
    s
}

#[test]
fn bearer_resolution() {
    let store = store_with_token();
    let good = encode_token(ID, "abc").unwrap();
    assert_eq!(store.resolve_bearer(&good), Ok(Caller { uuid: 1, administrator: true }));
    let unknown = encode_token(8, "abc").unwrap();
    assert_eq!(store.resolve_bearer(&unknown), Err(Rejection::UnknownToken));
    let orphan = encode_token(7, "abc").unwrap();
    assert_eq!(store.resolve_bearer(&orphan), Err(Rejection::NoUser));
    assert_eq!(store.resolve_bearer("%%%"), Err(Rejection::Malformed));
}

#[test]
fn request_admission() {
    let open = FirstRunGate::from_admin_token_count(0);
    let closed = FirstRunGate::from_admin_token_count(1);
    let c = Caller { uuid: 1, administrator: false };
    assert_eq!(admit_request(Bearer::Resolved(Ok(c)), &closed), Ok(Some(c)));
    assert_eq!(admit_request(Bearer::Resolved(Err(Rejection::Malformed)), &open), Err(AdmissionError::InvalidToken));
    assert_eq!(admit_request(Bearer::Unreadable, &open), Err(AdmissionError::UnreadableToken));
    assert_eq!(admit_request(Bearer::Absent, &open), Ok(None));
    assert_eq!(admit_request(Bearer::Absent, &closed), Err(AdmissionError::MissingToken));
}

#[test]
fn user_and_token_creation_rules() {
    let store = store_with_token();
    let mut gate = FirstRunGate::from_admin_token_count(0);
    assert_eq!(check_create_user(&store, &gate, None, true), Ok(()));
    assert_eq!(check_create_user(&store, &gate, None, false), Err(OperationError::NonAdminDuringFirstRun));
    assert_eq!(check_create_token(&store, &mut gate, None, 1), Ok(()));
    // While that mint is in flight no other may start, and the flag stays set.
    assert_eq!(check_create_token(&store, &mut gate, None, 1), Err(MintError::FirstRunMintInFlight));
    assert!(gate.is_active());
    gate.end_mint(true);
    assert!(!gate.is_active());
    assert_eq!(check_create_user(&store, &gate, None, true), Err(OperationError::Denied(Denial::NotAdministrator)));
    let admin = Caller { uuid: 1, administrator: true };
    let plain = Caller { uuid: 2, administrator: false };
    assert_eq!(check_create_user(&store, &gate, Some(admin), false), Ok(()));
    assert_eq!(check_create_token(&store, &mut gate, Some(plain), 2), Ok(()));
    assert_eq!(check_create_token(&store, &mut gate, Some(plain), 1), Err(MintError::Denied(Denial::NotAdministrator)));
    assert_eq!(check_create_token(&store, &mut gate, None, 1), Err(MintError::Denied(Denial::NotAdministrator)));
}

#[test]
fn affected_rows() {
    assert_eq!(single_row_outcome(1), Ok(true));
    assert_eq!(single_row_outcome(0), Ok(false));
    assert_eq!(single_row_outcome(3), Err(RowCountError::TooMany(3)));
}

#[test]
fn serialized_token_round_trip() {
    let t = SerializedEmoteToken { token_uuid: ID, token: "abc".to_string() };
    let text = t.serialize().unwrap();
    assert_eq!(decode_token(&text), Ok(ID));
    let store = store_with_token();
    assert_eq!(SerializedEmoteToken::to_emote_user(&store, &text), Ok(Caller { uuid: 1, administrator: true }));
    assert_eq!(SerializedEmoteToken::to_emote_user(&store, "garbage"), Err(Rejection::Malformed));
    assert!(SerializedEmoteToken { token_uuid: ID, token: "a-b".to_string() }.serialize().is_none());
}

#[test]
fn encoded_tokens_are_short_ascii() {
    let t = encode_token(u128::MAX, &"Z".repeat(4096)).unwrap();
    assert!(t.len() <= emotes::token::MAX_TOKEN_TEXT_LEN);
    assert!(t.is_ascii());
    assert_eq!(decode_token(&t), Ok(u128::MAX));
}

#[test]
fn bearer_outcomes() {
    let c = emotes::session::bearer_outcome(Ok(5), Some(1), Some(false));
    assert_eq!(c, Ok(Caller { uuid: 1, administrator: false }));
    assert_eq!(emotes::session::bearer_outcome(Err(TokenError::BadEncoding), None, None), Err(Rejection::Malformed));
    assert_eq!(emotes::session::bearer_outcome(Ok(5), None, None), Err(Rejection::UnknownToken));
    assert_eq!(emotes::session::bearer_outcome(Ok(5), Some(1), None), Err(Rejection::NoUser));
}
