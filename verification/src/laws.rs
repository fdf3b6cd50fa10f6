//! The guarantees the core gives, stated and proved once over the
//! specification-level decision and transition functions.

use vstd::prelude::*;
use crate::auth::{authorize_spec, expiry_of, is_write_action_spec, login_ok, login_spec,
    register_spec, resolve_spec, Action};
use crate::models::{AuthError, ChannelError, Session, User, UserRole};
use crate::store::{has_identifier, has_role, is_admin, is_member, session_at, session_by_token,
    store_wf, user_by_id, user_by_identifier, user_id_at, user_ident_at, StoreView};

verus! {

/// A user who is not a member of a channel sees `NotFound` for every action
/// on it — never `Unauthorized` — so the channel's existence is not leaked.
pub proof fn lemma_nonmember_every_action_not_found(
    v: StoreView,
    user_id: u64,
    channel_id: u64,
    action: Action,
)
    requires
        !is_member(v.members, channel_id, user_id),
    ensures
        authorize_spec(v, user_id, channel_id, action) == Err::<UserRole, ChannelError>(
            ChannelError::NotFound,
        ),
        authorize_spec(v, user_id, channel_id, action) != Err::<UserRole, ChannelError>(
            ChannelError::Unauthorized,
        ),
{
}

/// A member holding the plain `Member` role is refused every write action
/// with `Unauthorized`.
pub proof fn lemma_member_write_unauthorized(
    v: StoreView,
    user_id: u64,
    channel_id: u64,
    action: Action,
)
    requires
        has_role(v.members, channel_id, user_id, UserRole::Member),
        is_write_action_spec(action),
    ensures
        authorize_spec(v, user_id, channel_id, action) == Err::<UserRole, ChannelError>(
            ChannelError::Unauthorized,
        ),
{
}

/// An `Admin` member passes authorization for every action, writes included.
pub proof fn lemma_admin_action_permitted(
    v: StoreView,
    user_id: u64,
    channel_id: u64,
    action: Action,
)
    requires
        is_admin(v.members, channel_id, user_id),
    ensures
        authorize_spec(v, user_id, channel_id, action) == Ok::<UserRole, ChannelError>(
            UserRole::Admin,
        ),
{
}

/// Read-back of channel creation: in any state where the creator holds the
/// `Admin` role — which `create_channel` guarantees — the membership lookup
/// of the authorization engine returns exactly that role.
pub proof fn lemma_admin_role_reads_back(v: StoreView, channel_id: u64, user_id: u64)
    requires
        has_role(v.members, channel_id, user_id, UserRole::Admin),
    ensures
        authorize_spec(v, user_id, channel_id, Action::GetMember) == Ok::<UserRole, ChannelError>(
            UserRole::Admin,
        ),
{
}

/// Registering a taken identifier always fails with `AlreadyExists` and
/// leaves the whole state unchanged — no silent overwrite.
pub proof fn lemma_register_duplicate_conflict(v: StoreView, identifier: u64, secret: u64)
    requires
        has_identifier(v.users, identifier),
    ensures
        register_spec(v, identifier, secret) == (v, Err::<User, AuthError>(
            AuthError::AlreadyExists,
        )),
{
}

/// Session round trip: after a successful login, resolving the minted token
/// before its expiry yields exactly the user whose identifier was supplied,
/// and resolving it at or after the expiry fails with `Unauthorized`.
pub proof fn lemma_session_round_trip(
    v: StoreView,
    identifier: u64,
    secret: u64,
    login_now: u64,
    now: u64,
)
    requires
        store_wf(v),
        login_ok(v, identifier, secret),
        v.next_id < u64::MAX,
    ensures
        login_spec(v, identifier, secret, login_now).1 matches Ok(s)
            && s.user_id == user_by_identifier(v.users, identifier).id
            && (now < s.expiry ==> resolve_spec(
                login_spec(v, identifier, secret, login_now).0, s.token, now)
                == Ok::<User, AuthError>(user_by_identifier(v.users, identifier)))
            && (now >= s.expiry ==> resolve_spec(
                login_spec(v, identifier, secret, login_now).0, s.token, now)
                == Err::<User, AuthError>(AuthError::Unauthorized)),
{
    let s = Session {
        token: v.next_id,
        user_id: user_by_identifier(v.users, identifier).id,
        issued_at: login_now,
        expiry: expiry_of(login_now),
    };
    let v2 = login_spec(v, identifier, secret, login_now).0;
    assert(v2.sessions == v.sessions.push(s));
    assert(session_at(v2.sessions, s.token, v.sessions.len() as int));
    let j = choose|i: int| session_at(v2.sessions, s.token, i);
    assert(session_at(v2.sessions, s.token, j));
    if j < v.sessions.len() {
        assert(v2.sessions[j] == v.sessions[j]);
        assert(v.sessions[j].token < v.next_id);
        assert(false);
    }
    assert(session_by_token(v2.sessions, s.token) == s);
    let i0 = choose|i: int| user_ident_at(v.users, identifier, i);
    assert(user_ident_at(v.users, identifier, i0));
    assert(user_id_at(v.users, s.user_id, i0));
    let j0 = choose|i: int| user_id_at(v.users, s.user_id, i);
    assert(user_id_at(v.users, s.user_id, j0));
    assert(j0 == i0);
    assert(user_by_id(v.users, s.user_id) == user_by_identifier(v.users, identifier));
}

} // verus!
