use roomauth::claims::{ClaimSet, RoomGrants, SigningKey, TokenScope};
use roomauth::codec::{sign, verify, InvalidReason, VerificationResult};
use roomauth::hexcode::{hex_decode, hex_encode};
use roomauth::issuer::{issue_room_token, issue_webhook_token, FieldName, IssueError};
use roomauth::wire::{decode_claims, encode_claims};

fn key(id: &str, secret: &str) -> SigningKey {
    SigningKey { id: id.as_bytes().to_vec(), secret: secret.as_bytes().to_vec() }
}

fn sample_claims(k: &SigningKey) -> ClaimSet {
    ClaimSet {
        issuer: k.id.clone(),
        subject: b"alice".to_vec(),
        issued_at: 1000,
        expires_at: 4600,
        scope: TokenScope::Access {
            display_name: b"alice".to_vec(),
            grants: RoomGrants { room_join: true, room: b"standup".to_vec() },
        },
    }
}

#[test]
fn round_trip_returns_original_claims() {
    let k = key("devkey", "secret");
    let c = sample_claims(&k);
    let token = sign(&c, &k).unwrap();
    match verify(&token, &k, 2000) {
        VerificationResult::Valid(got) => assert_eq!(got, c),
        other => panic!("expected valid, got {:?}", other),
    }
}

#[test]
fn issue_scenario_standup_alice() {
    let k = key("devkey", "secret");
    let token = issue_room_token(&k, "standup", "alice", 1000, Some(3600)).unwrap();
    match verify(&token, &k, 1500) {
        VerificationResult::Valid(c) => {
            assert_eq!(c.subject, b"alice".to_vec());
            assert_eq!(c.issuer, b"devkey".to_vec());
            assert_eq!(c.issued_at, 1000);
            assert_eq!(c.expires_at, 4600);
            match c.scope {
                TokenScope::Access { display_name, grants } => {
                    assert_eq!(display_name, b"alice".to_vec());
                    assert!(grants.room_join);
                    assert_eq!(grants.room, b"standup".to_vec());
                },
                other => panic!("expected access scope, got {:?}", other),
            }
        },
        other => panic!("expected valid, got {:?}", other),
    }
}

#[test]
fn issue_missing_participant_is_malformed_input() {
    let k = key("devkey", "secret");
    let r = issue_room_token(&k, "standup", "", 1000, None);
    assert_eq!(r, Err(IssueError::MalformedInput(FieldName::ParticipantName)));
}

#[test]
fn issue_missing_room_is_malformed_input() {
    let k = key("devkey", "secret");
    let r = issue_room_token(&k, "", "alice", 1000, None);
    assert_eq!(r, Err(IssueError::MalformedInput(FieldName::RoomName)));
}

#[test]
fn expired_token_is_rejected_as_expired() {
    let k = key("devkey", "secret");
    let token = issue_room_token(&k, "standup", "alice", 1000, Some(10)).unwrap();
    assert!(matches!(verify(&token, &k, 1009), VerificationResult::Valid(_)));
    assert_eq!(
        verify(&token, &k, 1010),
        VerificationResult::Invalid(InvalidReason::Expired)
    );
    assert_eq!(
        verify(&token, &k, 99999),
        VerificationResult::Invalid(InvalidReason::Expired)
    );
}

#[test]
fn expired_wins_over_bad_signature() {
    let k = key("devkey", "secret");
    let other = key("devkey", "othersecret");
    let token = issue_room_token(&k, "standup", "alice", 1000, Some(10)).unwrap();
    assert_eq!(
        verify(&token, &other, 5000),
        VerificationResult::Invalid(InvalidReason::Expired)
    );
}

#[test]
fn key_isolation_different_id() {
    let k = key("devkey", "secret");
    let other = key("otherkey", "secret");
    let token = issue_room_token(&k, "standup", "alice", 1000, Some(3600)).unwrap();
    assert_eq!(
        verify(&token, &other, 2000),
        VerificationResult::Invalid(InvalidReason::BadSignature)
    );
}

#[test]
fn key_isolation_different_secret() {
    let k = key("devkey", "secret");
    let other = key("devkey", "anothersecret");
    let token = issue_room_token(&k, "standup", "alice", 1000, Some(3600)).unwrap();
    assert_eq!(
        verify(&token, &other, 2000),
        VerificationResult::Invalid(InvalidReason::BadSignature)
    );
}

#[test]
fn signing_is_deterministic() {
    let k = key("devkey", "secret");
    let c = sample_claims(&k);
    assert_eq!(sign(&c, &k).unwrap(), sign(&c, &k).unwrap());
}

#[test]
fn tampering_with_signature_bytes_is_bad_signature() {
    let k = key("devkey", "secret");
    let token = issue_room_token(&k, "standup", "alice", 1000, Some(3600)).unwrap();
    // the last 64 hex digits carry the 32-byte signature
    let sig_start = token.len() - 64;
    for i in sig_start..token.len() {
        let mut t = token.clone();
        t[i] = if t[i] == b'0' { b'1' } else { b'0' };
        assert_eq!(
            verify(&t, &k, 2000),
            VerificationResult::Invalid(InvalidReason::BadSignature),
            "flip at {}",
            i
        );
    }
}

#[test]
fn tampering_with_any_token_byte_never_verifies() {
    let k = key("devkey", "secret");
    let token = issue_room_token(&k, "standup", "alice", 1000, Some(3600)).unwrap();
    for i in 0..token.len() {
        let mut t = token.clone();
        t[i] = if t[i] == b'0' { b'1' } else { b'0' };
        assert!(
            !matches!(verify(&t, &k, 2000), VerificationResult::Valid(_)),
            "flip at {} verified",
            i
        );
    }
}

#[test]
fn webhook_token_length_reflects_digest_size() {
    let k = key("devkey", "secret");
    let token = issue_webhook_token(&k, b"hello", 1000, 3600).unwrap();
    // tag 1, two length-prefixed six-byte key ids, two timestamps,
    // one length-prefixed 32-byte digest, 32-byte code, all in hex:
    // 2 * (1 + 14 + 14 + 16 + 40 + 32) = 234
    assert_eq!(token.len(), 234);
}

#[test]
fn hex_codec_round_trip() {
    let data = vec![0u8, 255, 16, 1, 171];
    let h = hex_encode(&data);
    assert_eq!(h, b"00ff1001ab".to_vec());
    assert_eq!(hex_decode(&h), Some(data));
}

#[test]
fn hex_decode_rejects_bad_input() {
    assert_eq!(hex_decode(b"abc"), None);
    assert_eq!(hex_decode(b"zz"), None);
    assert_eq!(hex_decode(b"AB"), None);
    assert_eq!(hex_decode(b""), Some(Vec::new()));
}

#[test]
fn claim_encoding_round_trip() {
    let k = key("devkey", "secret");
    let c = sample_claims(&k);
    let enc = encode_claims(&c);
    assert_eq!(decode_claims(&enc), Some(c));
}

#[test]
fn claim_decoding_rejects_truncation() {
    let k = key("devkey", "secret");
    let c = sample_claims(&k);
    let enc = encode_claims(&c);
    assert_eq!(decode_claims(&enc[..enc.len() - 1]), None);
    assert_eq!(decode_claims(&[]), None);
    assert_eq!(decode_claims(&[7]), None);
}

#[test]
fn garbage_token_is_malformed() {
    let k = key("devkey", "secret");
    assert_eq!(
        verify(b"not hex at all", &k, 2000),
        VerificationResult::Invalid(InvalidReason::Malformed)
    );
    assert_eq!(
        verify(b"00ff", &k, 2000),
        VerificationResult::Invalid(InvalidReason::Malformed)
    );
    assert_eq!(
        verify(b"", &k, 2000),
        VerificationResult::Invalid(InvalidReason::Malformed)
    );
}
