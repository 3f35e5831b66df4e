//! Who a request acts as, and the rules of the operations that create users
//! and tokens.
use vstd::prelude::*;
use vstd::string::StringSliceAdditionalSpecFns;
use vstd::utf8::encode_utf8;
use crate::authz::{any_allowed, authorize, Caller, Check, Column, Denial, Table};
use crate::guards::FirstRunGate;
use crate::store::{last_index, lemma_last_index_step, token_user, Store, UserRow};
use crate::token::{decode_spec, decode_token, TokenError, encode_token, is_secret, token_text};

verus! {

/// The user with id `id`, as a caller.
pub open spec fn user_of(db: Store, id: u128) -> Option<Caller> {
    match last_index(db.users@, |r: UserRow| r.uuid == id) {
        Some(i) => Some(Caller { uuid: id, administrator: db.users@[i].administrator }),
        None => None,
    }
}

/// Why a bearer token does not identify a user.
#[derive(Clone, Copy, Debug, PartialEq, Eq, Structural)]
pub enum Rejection {
    /// It does not decode to a token id.
    Malformed,
    /// No token has that id.
    UnknownToken,
    /// The token's user is gone.
    NoUser,
}

/// Whom a bearer token identifies, from its decoding, the owner of the token
/// it names (`None` when there is no such token) and that owner's
/// administrator flag (`None` when the owner is gone).
pub open spec fn bearer_outcome_spec(
    decoded: Result<u128, TokenError>,
    owner: Option<u128>,
    administrator: Option<bool>,
) -> Result<Caller, Rejection> {
    match decoded {
        Err(_) => Err(Rejection::Malformed),
        Ok(_) => match owner {
            None => Err(Rejection::UnknownToken),
            Some(u) => match administrator {
                None => Err(Rejection::NoUser),
                Some(a) => Ok(Caller { uuid: u, administrator: a }),
            },
        },
    }
}

/// The user a bearer token identifies on `db`.
pub open spec fn bearer_user(db: Store, bearer: Seq<char>) -> Result<Caller, Rejection> {
    let decoded = decode_spec(bearer);
    let owner = match decoded {
        Ok(t) => token_user(db, t),
        Err(_) => None,
    };
    let administrator = match owner {
        Some(u) => match user_of(db, u) {
            Some(c) => Some(c.administrator),
            None => None,
        },
        None => None,
    };
    bearer_outcome_spec(decoded, owner, administrator)
}

/// Whom a bearer token identifies, given its decoding and the lookups of its
/// token's owner and of that owner's administrator flag.
pub fn bearer_outcome(decoded: Result<u128, TokenError>, owner: Option<u128>, administrator: Option<bool>) -> (r:
    Result<Caller, Rejection>)
    ensures
        r == bearer_outcome_spec(decoded, owner, administrator),
{
    match decoded {
        Err(_) => Err(Rejection::Malformed),
        Ok(_) => match owner {
            None => Err(Rejection::UnknownToken),
            Some(u) => match administrator {
                None => Err(Rejection::NoUser),
                Some(a) => Ok(Caller { uuid: u, administrator: a }),
            },
        },
    }
}

impl Store {
    /// The user with id `id`, as a caller.
    pub fn user_by_id(&self, id: u128) -> (r: Option<Caller>)
        ensures
            r == user_of(*self, id),
    {
        let ghost p = |r: UserRow| r.uuid == id;
        let mut i: usize = self.users.len();
        proof {
            assert(self.users@.subrange(0, i as int) =~= self.users@);
        }
        while i > 0
            invariant
                i <= self.users@.len(),
                p == (|r: UserRow| r.uuid == id),
                last_index(self.users@, p) == last_index(self.users@.subrange(0, i as int), p),
            decreases i,
        {
            i = i - 1;
            proof {
                lemma_last_index_step(self.users@, p, i as int);
            }
            if self.users[i].uuid == id {
                return Some(Caller { uuid: id, administrator: self.users[i].administrator });
            }
        }
        None
    }

    /// The user that a bearer token identifies.
    pub fn resolve_bearer(&self, bearer: &str) -> (r: Result<Caller, Rejection>)
        requires
            bearer.spec_bytes().len() <= isize::MAX,
        ensures
            r == bearer_user(*self, bearer@),
    {
        let decoded = decode_token(bearer);
        let owner = match decoded {
            Ok(t) => self.token_user(t),
            Err(_) => None,
        };
        let administrator = match owner {
            Some(u) => match self.user_by_id(u) {
                Some(c) => Some(c.administrator),
                None => None,
            },
            None => None,
        };
        bearer_outcome(decoded, owner, administrator)
    }
}

/// The contents of a bearer token: a token id and its secret.
pub struct SerializedEmoteToken {
    pub token_uuid: u128,
    pub token: String,
}

impl SerializedEmoteToken {
    /// The bearer text of this token; `None` unless the secret is ASCII
    /// letters and digits.
    pub fn serialize(&self) -> (r: Option<String>)
        ensures
            is_secret(encode_utf8(self.token@)) ==> (r matches Some(t) && t@ == token_text(
                self.token_uuid,
                encode_utf8(self.token@),
            )),
            !is_secret(encode_utf8(self.token@)) ==> r is None,
    {
        encode_token(self.token_uuid, self.token.as_str())
    }

    /// The user that a serialized token identifies on `store`.
    pub fn to_emote_user(store: &Store, serialized_token: &str) -> (r: Result<Caller, Rejection>)
        requires
            serialized_token.spec_bytes().len() <= isize::MAX,
        ensures
            r == bearer_user(*store, serialized_token@),
    {
        store.resolve_bearer(serialized_token)
    }
}

/// What a request presents as its bearer token.
#[derive(Clone, Copy, Debug)]
pub enum Bearer {
    /// No token header.
    Absent,
    /// A token header that is not visible ASCII text.
    Unreadable,
    /// A token header, and whom it identifies.
    Resolved(Result<Caller, Rejection>),
}

/// Why a request is turned away before any operation runs.
#[derive(Clone, Copy, Debug, PartialEq, Eq, Structural)]
pub enum AdmissionError {
    InvalidToken,
    UnreadableToken,
    MissingToken,
}

pub open spec fn admission(bearer: Bearer, first_run: bool) -> Result<Option<Caller>, AdmissionError> {
    match bearer {
        Bearer::Resolved(Ok(c)) => Ok(Some(c)),
        Bearer::Resolved(Err(_)) => Err(AdmissionError::InvalidToken),
        Bearer::Unreadable => Err(AdmissionError::UnreadableToken),
        Bearer::Absent => if first_run {
            Ok(None)
        } else {
            Err(AdmissionError::MissingToken)
        },
    }
}

/// Admits a request as the caller its token identifies; a request without
/// a token is admitted, as nobody, only while the first-run gate is open.
pub fn admit_request(bearer: Bearer, gate: &FirstRunGate) -> (r: Result<Option<Caller>, AdmissionError>)
    ensures
        r == admission(bearer, gate.is_open()),
{
    match bearer {
        Bearer::Resolved(Ok(c)) => Ok(Some(c)),
        Bearer::Resolved(Err(_)) => Err(AdmissionError::InvalidToken),
        Bearer::Unreadable => Err(AdmissionError::UnreadableToken),
        Bearer::Absent => if gate.is_active() {
            Ok(None)
        } else {
            Err(AdmissionError::MissingToken)
        },
    }
}

/// Why an operation was refused.
#[derive(Clone, Copy, Debug, PartialEq, Eq, Structural)]
pub enum OperationError {
    Denied(Denial),
    /// Only administrators may be created while the first-run gate is open.
    NonAdminDuringFirstRun,
}

/// The requirement of user creation: first-run mode, or an administrator.
pub open spec fn create_user_checks() -> Seq<Check> {
    seq![Check::FirstRun, Check::Administrator]
}

/// Decides whether `caller` may create a user with this administrator flag.
pub fn check_create_user(store: &Store, gate: &FirstRunGate, caller: Option<Caller>, administrator: bool) -> (r:
    Result<(), OperationError>)
    ensures
        r is Ok <==> any_allowed(*store, gate.is_open(), caller, create_user_checks()) && (
        administrator || !gate.is_open()),
        r matches Err(OperationError::NonAdminDuringFirstRun) ==> gate.is_open() && !administrator,
        r matches Err(e) ==> (e == OperationError::NonAdminDuringFirstRun || e == OperationError::Denied(
            Denial::NotAdministrator,
        )),
{
    let checks = vec![Check::FirstRun, Check::Administrator];
    assert(checks@ =~= create_user_checks());
    match authorize(store, gate.is_active(), caller, &checks) {
        Err(d) => Err(OperationError::Denied(d)),
        Ok(()) => if !gate.permits_user_creation(administrator) {
            Err(OperationError::NonAdminDuringFirstRun)
        } else {
            Ok(())
        },
    }
}

/// The requirement of minting a token for `user`: first-run mode, the user
/// itself, or an administrator.
pub open spec fn create_token_checks(user: u128) -> Seq<Check> {
    seq![Check::FirstRun, Check::Owns(Table::EmoteUser, Column::UUID(user)), Check::Administrator]
}

/// Why a token may not be minted now.
#[derive(Clone, Copy, Debug, PartialEq, Eq, Structural)]
pub enum MintError {
    Denied(Denial),
    /// Another first-run mint is in flight; try again.
    FirstRunMintInFlight,
}

/// Decides whether `caller` may mint a token for `user`. While the first-run
/// flag is set the mint is also reserved, so that no other runs beside it;
/// end it with [`FirstRunGate::end_mint`], which clears the flag once the
/// token exists.
pub fn check_create_token(store: &Store, gate: &mut FirstRunGate, caller: Option<Caller>, user: u128) -> (r:
    Result<(), MintError>)
    ensures
        r is Ok <==> any_allowed(*store, old(gate).is_open(), caller, create_token_checks(user)) && !(
        old(gate).is_open() && old(gate).is_minting()),
        r matches Err(MintError::Denied(d)) ==> d == Denial::NotAdministrator && !any_allowed(
            *store,
            old(gate).is_open(),
            caller,
            create_token_checks(user),
        ),
        final(gate).is_open() == old(gate).is_open(),
        r is Ok && old(gate).is_open() ==> final(gate).is_minting(),
        r is Err ==> final(gate).is_minting() == old(gate).is_minting(),
{
    let checks = vec![
        Check::FirstRun,
        Check::Owns(Table::EmoteUser, Column::UUID(user)),
        Check::Administrator,
    ];
    assert(checks@ =~= create_token_checks(user));
    match authorize(store, gate.is_active(), caller, &checks) {
        Err(d) => Err(MintError::Denied(d)),
        Ok(()) => {
            if gate.is_active() {
                if !gate.begin_first_run_mint() {
                    return Err(MintError::FirstRunMintInFlight);
                }
            }
            Ok(())
        },
    }
}

/// Why a single-row write did not have the effect asked for.
#[derive(Clone, Copy, Debug, PartialEq, Eq, Structural)]
pub enum RowCountError {
    /// More than one row was affected.
    TooMany(u64),
}

/// Reads the number of rows that a single-row write affected: `true` for
/// one, `false` for none.
pub fn single_row_outcome(rows_affected: u64) -> (r: Result<bool, RowCountError>)
    ensures
        rows_affected == 1 ==> r == Ok::<bool, RowCountError>(true),
        rows_affected == 0 ==> r == Ok::<bool, RowCountError>(false),
        rows_affected > 1 ==> r == Err::<bool, RowCountError>(RowCountError::TooMany(rows_affected)),
{
    if rows_affected == 1 {
        Ok(true)
    } else if rows_affected == 0 {
        Ok(false)
    } else {
        Err(RowCountError::TooMany(rows_affected))
    }
}

} // verus!
