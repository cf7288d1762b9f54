use roomauth::codec::InvalidReason;
use roomauth::claims::SigningKey;
use roomauth::event::{parse_event, Event, EventKind};
use roomauth::issuer::{issue_room_token, issue_webhook_token};
use roomauth::webhook::{authenticate_webhook, AuthError};

fn key(id: &str, secret: &str) -> SigningKey {
    SigningKey { id: id.as_bytes().to_vec(), secret: secret.as_bytes().to_vec() }
}

const BODY: &[u8] = br#"{"event":"room_started","room":{"name":"standup"}}"#;

#[test]
fn webhook_happy_path_returns_event() {
    let k = key("devkey", "secret");
    let header = issue_webhook_token(&k, BODY, 1000, 3600).unwrap();
    let r = authenticate_webhook(BODY, &header, &k, 2000);
    assert_eq!(r, Ok(Event { kind: EventKind::RoomStarted }));
}

#[test]
fn webhook_tampered_body_is_rejected() {
    let k = key("devkey", "secret");
    let header = issue_webhook_token(&k, BODY, 1000, 3600).unwrap();
    for i in 0..BODY.len() {
        let mut tampered = BODY.to_vec();
        tampered[i] ^= 1;
        let r = authenticate_webhook(&tampered, &header, &k, 2000);
        assert_eq!(r, Err(AuthError::BodyTampered), "flip at {}", i);
    }
}

#[test]
fn webhook_expired_token_is_unauthorized() {
    let k = key("devkey", "secret");
    let header = issue_webhook_token(&k, BODY, 1000, 10).unwrap();
    let r = authenticate_webhook(BODY, &header, &k, 1010);
    assert_eq!(r, Err(AuthError::Unauthorized(InvalidReason::Expired)));
}

#[test]
fn webhook_wrong_key_is_unauthorized() {
    let k = key("devkey", "secret");
    let other = key("devkey", "othersecret");
    let header = issue_webhook_token(&k, BODY, 1000, 3600).unwrap();
    let r = authenticate_webhook(BODY, &header, &other, 2000);
    assert_eq!(r, Err(AuthError::Unauthorized(InvalidReason::BadSignature)));
}

#[test]
fn webhook_garbage_header_is_missing_or_malformed() {
    let k = key("devkey", "secret");
    let r = authenticate_webhook(BODY, b"???", &k, 2000);
    assert_eq!(r, Err(AuthError::MissingOrMalformedHeader));
    let r = authenticate_webhook(BODY, b"", &k, 2000);
    assert_eq!(r, Err(AuthError::MissingOrMalformedHeader));
}

#[test]
fn webhook_with_access_token_certifies_no_body() {
    let k = key("devkey", "secret");
    let header = issue_room_token(&k, "standup", "alice", 1000, Some(3600)).unwrap();
    let r = authenticate_webhook(BODY, &header, &k, 2000);
    assert_eq!(r, Err(AuthError::BodyTampered));
}

#[test]
fn webhook_unknown_event_kind_is_malformed_event() {
    let k = key("devkey", "secret");
    let body = br#"{"event":"room_exploded"}"#;
    let header = issue_webhook_token(&k, body, 1000, 3600).unwrap();
    let r = authenticate_webhook(body, &header, &k, 2000);
    assert_eq!(r, Err(AuthError::MalformedEvent));
}

#[test]
fn webhook_event_member_must_come_first() {
    let k = key("devkey", "secret");
    let body = br#"{"id":"x","event":"room_started"}"#;
    let header = issue_webhook_token(&k, body, 1000, 3600).unwrap();
    let r = authenticate_webhook(body, &header, &k, 2000);
    assert_eq!(r, Err(AuthError::MalformedEvent));
}

#[test]
fn parse_event_accepts_all_known_kinds() {
    let cases: [(&[u8], EventKind); 4] = [
        (br#"{"event":"room_started"}"#, EventKind::RoomStarted),
        (br#"{"event":"room_finished"}"#, EventKind::RoomFinished),
        (br#"{"event":"participant_joined","participant":{}}"#, EventKind::ParticipantJoined),
        (br#"{"event":"participant_left","participant":{}}"#, EventKind::ParticipantLeft),
    ];
    for (body, kind) in cases {
        assert_eq!(parse_event(body), Some(Event { kind }), "body {:?}", body);
    }
}

#[test]
fn parse_event_tolerates_whitespace() {
    let body = b" \t\r\n{ \"event\" : \"room_finished\" , \"x\": 1}";
    assert_eq!(parse_event(body), Some(Event { kind: EventKind::RoomFinished }));
}

#[test]
fn parse_event_rejects_malformed_bodies() {
    let bad: [&[u8]; 7] = [
        b"",
        b"[]",
        br#"{"event":12}"#,
        br#"{"event":"room_started"#,
        br#"{"event":"room\"started"}"#,
        br#"{"Event":"room_started"}"#,
        b"not json",
    ];
    for body in bad {
        assert_eq!(parse_event(body), None, "body {:?}", body);
    }
}
