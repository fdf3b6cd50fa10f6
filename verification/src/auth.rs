//! Session issuer, identity guard and authorization engine: turning
//! credentials into sessions, session tokens into trusted users, and
//! `(user, channel, action)` triples into authorization decisions.

use vstd::prelude::*;
use crate::models::{map_retrieval_error, AuthError, ChannelError, DataInsertionError, Session,
    User, UserRole};
use crate::store::{has_identifier, has_session, has_user_id, is_member, role_of, session_at,
    session_by_token, store_wf, user_by_id, user_by_identifier, user_id_at, user_ident_at,
    Store, StoreView};

verus! {

/// Lifetime of a session, measured from its issue time.
pub const SESSION_TTL: u64 = 3600;

/// The digest kept in place of a secret; a function of the secret alone.
pub closed spec fn digest_of(secret: u64) -> u64 {
    secret ^ 0x517c_c1b7_2722_0a95
}

/// Hash a secret into the digest the store keeps.
pub fn hash_secret(secret: u64) -> (d: u64)
    ensures
        d == digest_of(secret),
{
    secret ^ 0x517c_c1b7_2722_0a95u64
}

/// Check a presented secret against a stored digest.
pub fn verify_secret(secret: u64, digest: u64) -> (r: bool)
    ensures
        r == (digest == digest_of(secret)),
{
    let d = hash_secret(secret);
    digest == d
}

/// The expiry minted for a session issued at `now`; saturates at the end of
/// the time scale.
pub open spec fn expiry_of(now: u64) -> u64 {
    if now <= u64::MAX - SESSION_TTL {
        (now + SESSION_TTL) as u64
    } else {
        u64::MAX
    }
}

fn session_expiry(now: u64) -> (r: u64)
    ensures
        r == expiry_of(now),
{
    if now <= u64::MAX - SESSION_TTL {
        now + SESSION_TTL
    } else {
        u64::MAX
    }
}

/// The credentials name an existing user and the secret matches their digest.
pub open spec fn login_ok(v: StoreView, identifier: u64, secret: u64) -> bool {
    has_identifier(v.users, identifier)
        && user_by_identifier(v.users, identifier).secret_digest == digest_of(secret)
}

/// What `register` does: the state after the call and the result.
pub open spec fn register_spec(v: StoreView, identifier: u64, secret: u64) -> (StoreView, Result<
    User,
    AuthError,
>) {
    if has_identifier(v.users, identifier) {
        (v, Err(AuthError::AlreadyExists))
    } else if v.next_id == u64::MAX {
        (v, Err(AuthError::InternalServerError))
    } else {
        let u = User { id: v.next_id, identifier, secret_digest: digest_of(secret) };
        (StoreView { users: v.users.push(u), next_id: (v.next_id + 1) as u64, ..v }, Ok(u))
    }
}

/// Create an account: fails with `AlreadyExists` exactly when the identifier
/// is taken, and never overwrites an existing account.
pub fn register(store: &mut Store, identifier: u64, secret: u64) -> (r: Result<User, AuthError>)
    requires
        store_wf(old(store)@),
    ensures
        store_wf(final(store)@),
        (final(store)@, r) == register_spec(old(store)@, identifier, secret),
{
    let digest = hash_secret(secret);
    let r = match store.insert_user(identifier, digest) {
        Ok(u) => Ok(u),
        Err(DataInsertionError::AlreadyExists) => Err(AuthError::AlreadyExists),
        Err(DataInsertionError::InternalError) => Err(
            AuthError::InternalServerError,
        ),
    };
    proof {
        assert(store@ =~= register_spec(old(store)@, identifier, secret).0);
    }
    r
}

/// What `login` does: the state after the call and the result.
pub open spec fn login_spec(v: StoreView, identifier: u64, secret: u64, now: u64) -> (StoreView,
    Result<Session, AuthError>,
) {
    if !login_ok(v, identifier, secret) {
        (v, Err(AuthError::InvalidCredentials))
    } else if v.next_id == u64::MAX {
        (v, Err(AuthError::InternalServerError))
    } else {
        let s = Session {
            token: v.next_id,
            user_id: user_by_identifier(v.users, identifier).id,
            issued_at: now,
            expiry: expiry_of(now),
        };
        (StoreView { sessions: v.sessions.push(s), next_id: (v.next_id + 1) as u64, ..v }, Ok(s))
    }
}

/// Verify credentials and mint a session with a fresh token; absent user and
/// digest mismatch are indistinguishable to the caller.
pub fn login(store: &mut Store, identifier: u64, secret: u64, now: u64) -> (r: Result<
    Session,
    AuthError,
>)
    requires
        store_wf(old(store)@),
    ensures
        store_wf(final(store)@),
        (final(store)@, r) == login_spec(old(store)@, identifier, secret, now),
{
    let user = match store.get_user_by_identifier(identifier) {
        Some(u) => u,
        None => {
            return Err(AuthError::InvalidCredentials);
        },
    };
    if !verify_secret(secret, user.secret_digest) {
        return Err(AuthError::InvalidCredentials);
    }
    proof {
        let j = choose|i: int| user_ident_at(store@.users, identifier, i);
        assert(user_ident_at(store@.users, identifier, j));
        assert(user_id_at(store@.users, user.id, j));
    }
    let expiry = session_expiry(now);
    let r = match store.insert_session(user.id, now, expiry) {
        Ok(s) => Ok(s),
        Err(_) => Err(AuthError::InternalServerError),
    };
    proof {
        assert(store@ =~= login_spec(old(store)@, identifier, secret, now).0);
    }
    r
}

/// The session exists and has not yet expired at `now`.
pub open spec fn session_live(s: Session, now: u64) -> bool {
    now < s.expiry
}

/// What `resolve` returns: the user behind a live session token.
pub open spec fn resolve_spec(v: StoreView, token: u64, now: u64) -> Result<User, AuthError> {
    if !has_session(v.sessions, token) {
        Err(AuthError::Unauthorized)
    } else if !session_live(session_by_token(v.sessions, token), now) {
        Err(AuthError::Unauthorized)
    } else {
        Ok(user_by_id(v.users, session_by_token(v.sessions, token).user_id))
    }
}

/// Resolve a session token into its user; an unknown or expired token never
/// resolves. Read-only.
pub fn resolve(store: &Store, token: u64, now: u64) -> (r: Result<User, AuthError>)
    requires
        store_wf(store@),
    ensures
        r == resolve_spec(store@, token, now),
{
    let sess = match store.get_session(token) {
        Some(s) => s,
        None => {
            return Err(AuthError::Unauthorized);
        },
    };
    if now >= sess.expiry {
        return Err(AuthError::Unauthorized);
    }
    proof {
        let j = choose|i: int| session_at(store@.sessions, token, i);
        assert(session_at(store@.sessions, token, j));
        assert(has_user_id(store@.users, store@.sessions[j].user_id));
    }
    match store.get_user_by_id(sess.user_id) {
        Some(u) => Ok(u),
        None => Err(AuthError::Unauthorized),
    }
}

/// Identity guard: every protected operation runs this first. An absent
/// token is itself a failure; no state is touched.
pub fn authenticate(store: &Store, token: Option<u64>, now: u64) -> (r: Result<User, AuthError>)
    requires
        store_wf(store@),
    ensures
        token is None ==> r == Err::<User, AuthError>(AuthError::Unauthorized),
        token matches Some(t) ==> r == resolve_spec(store@, t, now),
{
    match token {
        None => Err(AuthError::Unauthorized),
        Some(t) => resolve(store, t, now),
    }
}

/// The actions the authorization engine distinguishes.
#[derive(Clone, Copy, Debug, PartialEq, Eq, Structural)]
pub enum Action {
    GetChannel,
    GetMembers,
    GetMember,
    PatchChannel,
    RemoveChannel,
    AddMember,
}

pub open spec fn is_write_action_spec(a: Action) -> bool {
    match a {
        Action::PatchChannel | Action::RemoveChannel | Action::AddMember => true,
        Action::GetChannel | Action::GetMembers | Action::GetMember => false,
    }
}

/// Whether an action mutates channel or membership state.
pub fn is_write_action(a: Action) -> (r: bool)
    ensures
        r == is_write_action_spec(a),
{
    match a {
        Action::PatchChannel | Action::RemoveChannel | Action::AddMember => true,
        Action::GetChannel | Action::GetMembers | Action::GetMember => false,
    }
}

/// The single role-comparison rule: reads need membership alone, writes need
/// the `Admin` role.
pub open spec fn role_permits(role: UserRole, a: Action) -> bool {
    role == UserRole::Admin || !is_write_action_spec(a)
}

/// The authorization decision. Membership is checked before the role, so a
/// non-member sees `NotFound` — never `Unauthorized` — and cannot learn that
/// the channel exists.
pub open spec fn authorize_spec(v: StoreView, user_id: u64, channel_id: u64, a: Action) -> Result<
    UserRole,
    ChannelError,
> {
    if !is_member(v.members, channel_id, user_id) {
        Err(ChannelError::NotFound)
    } else if !role_permits(role_of(v.members, channel_id, user_id), a) {
        Err(ChannelError::Unauthorized)
    } else {
        Ok(role_of(v.members, channel_id, user_id))
    }
}

/// Authorization engine: fetch the membership of `user` on `channel_id` and
/// gate `action` on its role.
pub fn authorize(store: &Store, user: &User, channel_id: u64, action: Action) -> (r: Result<
    UserRole,
    ChannelError,
>)
    requires
        store_wf(store@),
    ensures
        r == authorize_spec(store@, user.id, channel_id, action),
{
    let role = match store.get_member(channel_id, user.id) {
        Ok(role) => role,
        Err(e) => {
            return Err(map_retrieval_error(e));
        },
    };
    if is_write_action(action) && role != UserRole::Admin {
        return Err(ChannelError::Unauthorized);
    }
    Ok(role)
}

} // verus!
