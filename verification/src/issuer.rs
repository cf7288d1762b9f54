//! Token issuance: building the claim set for a join capability or a
//! webhook notification and handing it to the codec to sign.

use crate::bytes::copy_range;
use crate::claims::{ClaimSet, ClaimSetModel, KeyModel, RoomGrants, RoomGrantsModel, ScopeModel,
    SigningKey, TokenScope};
use crate::codec::{sign, spec_sign, token_fits};
use crate::crypto::{sha256, sha256_of};
use vstd::prelude::*;
use vstd::string::StrSliceExecFns;
use vstd::string::StringSliceAdditionalSpecFns;

verus! {

/// The input field an issuance request failed on.
#[derive(Clone, Copy, Debug, PartialEq, Eq, Structural)]
pub enum FieldName {
    RoomName,
    ParticipantName,
}

/// Why a token was not issued: a missing or empty caller-supplied
/// field, or an internal signing fault.
#[derive(Clone, Copy, Debug, PartialEq, Eq, Structural)]
pub enum IssueError {
    MalformedInput(FieldName),
    SigningFailure,
}

/// Lifetime given to a token when the caller names none.
pub const DEFAULT_TTL_SECS: u64 = 21600;

pub open spec fn ttl_value(ttl: Option<u64>) -> u64 {
    match ttl {
        Some(t) => t,
        None => DEFAULT_TTL_SECS,
    }
}

/// The claim set of a join capability: the participant as subject and
/// display name, leave to join the one named room, valid from `now` for
/// `ttl` seconds.
pub open spec fn access_claims(
    k: KeyModel,
    room: Seq<u8>,
    participant: Seq<u8>,
    now: u64,
    ttl: u64,
) -> ClaimSetModel
    recommends
        now + ttl <= u64::MAX,
{
    ClaimSetModel {
        issuer: k.id,
        subject: participant,
        issued_at: now,
        expires_at: (now + ttl) as u64,
        scope: ScopeModel::Access {
            display_name: participant,
            grants: RoomGrantsModel { room_join: true, room },
        },
    }
}

/// The claim set of a webhook notification: issued to the key itself
/// and binding the digest of the body it certifies.
pub open spec fn webhook_claims(k: KeyModel, body: Seq<u8>, now: u64, ttl: u64) -> ClaimSetModel
    recommends
        now + ttl <= u64::MAX,
{
    ClaimSetModel {
        issuer: k.id,
        subject: k.id,
        issued_at: now,
        expires_at: (now + ttl) as u64,
        scope: ScopeModel::Webhook { body_digest: sha256_of(body) },
    }
}

/// Issues a join token for `(room_name, participant_name)`, signed with
/// `key`, valid from `now` for `ttl` seconds (a fixed default when the
/// caller gives none). An empty room or participant name is rejected,
/// the room name checked first; `SigningFailure` comes exactly when the
/// codec cannot fit the token in memory.
pub fn issue_room_token(
    key: &SigningKey,
    room_name: &str,
    participant_name: &str,
    now: u64,
    ttl: Option<u64>,
) -> (r: Result<Vec<u8>, IssueError>)
    requires
        ttl_value(ttl) >= 1,
        now + ttl_value(ttl) <= u64::MAX,
    ensures
        r matches Ok(t) ==> room_name@.len() > 0 && participant_name@.len() > 0 && t@ == spec_sign(
            access_claims(
                key@,
                room_name.spec_bytes(),
                participant_name.spec_bytes(),
                now,
                ttl_value(ttl),
            ),
            key@,
        ),
        (r == Err::<Vec<u8>, IssueError>(IssueError::MalformedInput(FieldName::RoomName)))
            <==> room_name@.len() == 0,
        (r == Err::<Vec<u8>, IssueError>(IssueError::MalformedInput(FieldName::ParticipantName)))
            <==> (room_name@.len() > 0 && participant_name@.len() == 0),
        (r == Err::<Vec<u8>, IssueError>(IssueError::SigningFailure)) <==> (room_name@.len() > 0
            && participant_name@.len() > 0 && !token_fits(
            access_claims(
                key@,
                room_name.spec_bytes(),
                participant_name.spec_bytes(),
                now,
                ttl_value(ttl),
            ),
        )),
{
    if room_name.is_empty() {
        return Err(IssueError::MalformedInput(FieldName::RoomName));
    }
    if participant_name.is_empty() {
        return Err(IssueError::MalformedInput(FieldName::ParticipantName));
    }
    let issuer = copy_range(key.id.as_slice(), 0, key.id.len());
    let subject = participant_name.as_bytes_vec();
    let display_name = participant_name.as_bytes_vec();
    let room = room_name.as_bytes_vec();
    let expires_at = now + (match ttl {
        Some(t) => t,
        None => DEFAULT_TTL_SECS,
    });
    let c = ClaimSet {
        issuer,
        subject,
        issued_at: now,
        expires_at,
        scope: TokenScope::Access { display_name, grants: RoomGrants { room_join: true, room } },
    };
    proof {
        assert(c@ =~= access_claims(
            key@,
            room_name.spec_bytes(),
            participant_name.spec_bytes(),
            now,
            ttl_value(ttl),
        ));
    }
    match sign(&c, key) {
        Ok(t) => Ok(t),
        Err(_) => Err(IssueError::SigningFailure),
    }
}

/// Issues the signed header a webhook sender attaches to `body`: a
/// token whose digest claim is the SHA-256 of exactly those bytes.
/// `SigningFailure` comes exactly when the codec cannot fit the token
/// in memory.
pub fn issue_webhook_token(key: &SigningKey, body: &[u8], now: u64, ttl: u64) -> (r: Result<
    Vec<u8>,
    IssueError,
>)
    requires
        ttl >= 1,
        now + ttl <= u64::MAX,
    ensures
        r matches Ok(t) ==> t@ == spec_sign(webhook_claims(key@, body@, now, ttl), key@),
        r is Ok <==> token_fits(webhook_claims(key@, body@, now, ttl)),
        r is Err ==> r == Err::<Vec<u8>, IssueError>(IssueError::SigningFailure),
{
    let issuer = copy_range(key.id.as_slice(), 0, key.id.len());
    let subject = copy_range(key.id.as_slice(), 0, key.id.len());
    let body_digest = sha256(body);
    let c = ClaimSet {
        issuer,
        subject,
        issued_at: now,
        expires_at: now + ttl,
        scope: TokenScope::Webhook { body_digest },
    };
    proof {
        assert(c@ =~= webhook_claims(key@, body@, now, ttl));
    }
    match sign(&c, key) {
        Ok(t) => Ok(t),
        Err(_) => Err(IssueError::SigningFailure),
    }
}

} // verus!
