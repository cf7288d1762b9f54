//! The data a signed token speaks for: who it was issued by and for,
//! how long it lasts, and what it authorizes.

use vstd::prelude::*;

verus! {

/// Shared signing secret together with its public identifier. Loaded
/// once at process start and passed by reference; never mutated.
pub struct SigningKey {
    pub id: Vec<u8>,
    pub secret: Vec<u8>,
}

pub struct KeyModel {
    pub id: Seq<u8>,
    pub secret: Seq<u8>,
}

impl View for SigningKey {
    type V = KeyModel;

    open spec fn view(&self) -> KeyModel {
        KeyModel { id: self.id@, secret: self.secret@ }
    }
}

/// Capabilities an access token grants: joining one named room.
#[derive(Clone, Debug, PartialEq, Eq)]
pub struct RoomGrants {
    pub room_join: bool,
    pub room: Vec<u8>,
}

#[verifier::ext_equal]
pub struct RoomGrantsModel {
    pub room_join: bool,
    pub room: Seq<u8>,
}

impl View for RoomGrants {
    type V = RoomGrantsModel;

    open spec fn view(&self) -> RoomGrantsModel {
        RoomGrantsModel { room_join: self.room_join, room: self.room@ }
    }
}

/// The claims specific to each of the two token flavours: an access
/// token names a participant's display name and grants; a webhook token
/// carries the digest of the body it certifies.
#[derive(Clone, Debug, PartialEq, Eq)]
pub enum TokenScope {
    Access { display_name: Vec<u8>, grants: RoomGrants },
    Webhook { body_digest: Vec<u8> },
}

#[verifier::ext_equal]
pub enum ScopeModel {
    Access { display_name: Seq<u8>, grants: RoomGrantsModel },
    Webhook { body_digest: Seq<u8> },
}

impl View for TokenScope {
    type V = ScopeModel;

    open spec fn view(&self) -> ScopeModel {
        match self {
            TokenScope::Access { display_name, grants } => ScopeModel::Access {
                display_name: display_name@,
                grants: grants@,
            },
            TokenScope::Webhook { body_digest } => ScopeModel::Webhook {
                body_digest: body_digest@,
            },
        }
    }
}

/// A full claim set: the four claims every token carries, plus the
/// flavour-specific ones.
#[derive(Clone, Debug, PartialEq, Eq)]
pub struct ClaimSet {
    pub issuer: Vec<u8>,
    pub subject: Vec<u8>,
    pub issued_at: u64,
    pub expires_at: u64,
    pub scope: TokenScope,
}

#[verifier::ext_equal]
pub struct ClaimSetModel {
    pub issuer: Seq<u8>,
    pub subject: Seq<u8>,
    pub issued_at: u64,
    pub expires_at: u64,
    pub scope: ScopeModel,
}

impl View for ClaimSet {
    type V = ClaimSetModel;

    open spec fn view(&self) -> ClaimSetModel {
        ClaimSetModel {
            issuer: self.issuer@,
            subject: self.subject@,
            issued_at: self.issued_at,
            expires_at: self.expires_at,
            scope: self.scope@,
        }
    }
}

/// Every field of a claim set fits in memory; true of any claim set an
/// executable value can hold.
pub open spec fn wf_claims(c: ClaimSetModel) -> bool {
    &&& c.issuer.len() <= usize::MAX
    &&& c.subject.len() <= usize::MAX
    &&& match c.scope {
        ScopeModel::Access { display_name, grants } => display_name.len() <= usize::MAX
            && grants.room.len() <= usize::MAX,
        ScopeModel::Webhook { body_digest } => body_digest.len() <= usize::MAX,
    }
}

} // verus!
