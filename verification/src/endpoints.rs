//! Channel and member lifecycle orchestrator: each operation authorizes the
//! acting user, delegates to the store, and maps persistence errors into the
//! API taxonomy. On an authorization failure no state is touched.

use vstd::prelude::*;
use crate::auth::{authorize, Action};
use crate::models::{apply_patch_spec, map_insertion_error, map_retrieval_error, map_set_error,
    Channel, ChannelError, ChannelInsert, ChannelPatch, Member, User, UserRole};
use crate::store::{channel_at, channel_by_id, channel_index, has_role, is_admin, is_member,
    lemma_member_channel_exists, member_at, member_index, member_of, members_of, members_without,
    store_wf, Store};

verus! {

/// Read a channel. Any member may read; a non-member learns only `NotFound`.
pub fn get_channel_by_id(id: u64, user: &User, db: &Store) -> (r: Result<Channel, ChannelError>)
    requires
        store_wf(db@),
    ensures
        !is_member(db@.members, id, user.id) ==> r == Err::<Channel, ChannelError>(
            ChannelError::NotFound,
        ),
        is_member(db@.members, id, user.id) ==> r == Ok::<Channel, ChannelError>(
            channel_by_id(db@.channels, id),
        ),
{
    match authorize(db, user, id, Action::GetChannel) {
        Ok(_) => {},
        Err(e) => {
            return Err(e);
        },
    };
    proof {
        lemma_member_channel_exists(db@, id, user.id);
    }
    match db.get_channel(id) {
        Ok(c) => Ok(c),
        Err(e) => Err(map_retrieval_error(e)),
    }
}

/// Patch a channel's attributes. Only an `Admin` member may; a plain member
/// sees `Unauthorized`, a non-member `NotFound`.
pub fn patch_channel_by_id(id: u64, user: &User, patch: ChannelPatch, db: &mut Store) -> (r: Result<
    Channel,
    ChannelError,
>)
    requires
        store_wf(old(db)@),
    ensures
        store_wf(final(db)@),
        !is_member(old(db)@.members, id, user.id) ==> (
            r == Err::<Channel, ChannelError>(ChannelError::NotFound)
            && final(db)@ == old(db)@
        ),
        is_member(old(db)@.members, id, user.id) && !is_admin(old(db)@.members, id, user.id) ==> (
            r == Err::<Channel, ChannelError>(ChannelError::Unauthorized)
            && final(db)@ == old(db)@
        ),
        is_admin(old(db)@.members, id, user.id) ==> (
            r == Ok::<Channel, ChannelError>(
                apply_patch_spec(channel_by_id(old(db)@.channels, id), patch))
            && final(db)@.channels == old(db)@.channels.update(
                channel_index(old(db)@.channels, id),
                apply_patch_spec(channel_by_id(old(db)@.channels, id), patch))
            && final(db)@.users == old(db)@.users
            && final(db)@.sessions == old(db)@.sessions
            && final(db)@.members == old(db)@.members
            && final(db)@.next_id == old(db)@.next_id
        ),
{
    match authorize(db, user, id, Action::PatchChannel) {
        Ok(_) => {},
        Err(e) => {
            return Err(e);
        },
    };
    proof {
        lemma_member_channel_exists(db@, id, user.id);
    }
    match db.patch_channel(id, patch) {
        Ok(c) => Ok(c),
        Err(e) => Err(map_set_error(e)),
    }
}

/// Delete a channel and, with it, all of its memberships. Only an `Admin`
/// member may.
pub fn remove_channel_by_id(id: u64, user: &User, db: &mut Store) -> (r: Result<
    Channel,
    ChannelError,
>)
    requires
        store_wf(old(db)@),
    ensures
        store_wf(final(db)@),
        !is_member(old(db)@.members, id, user.id) ==> (
            r == Err::<Channel, ChannelError>(ChannelError::NotFound)
            && final(db)@ == old(db)@
        ),
        is_member(old(db)@.members, id, user.id) && !is_admin(old(db)@.members, id, user.id) ==> (
            r == Err::<Channel, ChannelError>(ChannelError::Unauthorized)
            && final(db)@ == old(db)@
        ),
        is_admin(old(db)@.members, id, user.id) ==> (
            r == Ok::<Channel, ChannelError>(channel_by_id(old(db)@.channels, id))
            && final(db)@.channels == old(db)@.channels.remove(
                channel_index(old(db)@.channels, id))
            && final(db)@.members == members_without(old(db)@.members, id)
            && final(db)@.users == old(db)@.users
            && final(db)@.sessions == old(db)@.sessions
            && final(db)@.next_id == old(db)@.next_id
        ),
{
    match authorize(db, user, id, Action::RemoveChannel) {
        Ok(_) => {},
        Err(e) => {
            return Err(e);
        },
    };
    proof {
        lemma_member_channel_exists(db@, id, user.id);
    }
    match db.remove_channel(id) {
        Ok(c) => Ok(c),
        Err(_) => Err(ChannelError::InternalServerError),
    }
}

/// Create a channel and bind its creator as `Admin` in the same logical
/// step: a successful creation always reads back with the creator as an
/// `Admin` member.
pub fn create_channel(channel: ChannelInsert, user: &User, db: &mut Store) -> (r: Result<
    Channel,
    ChannelError,
>)
    requires
        store_wf(old(db)@),
    ensures
        store_wf(final(db)@),
        old(db)@.next_id == u64::MAX ==> (
            r == Err::<Channel, ChannelError>(ChannelError::InternalServerError)
            && final(db)@ == old(db)@
        ),
        old(db)@.next_id < u64::MAX ==> (
            r == Ok::<Channel, ChannelError>(
                Channel { id: old(db)@.next_id, attributes: channel.attributes })
            && final(db)@.channels == old(db)@.channels.push(
                Channel { id: old(db)@.next_id, attributes: channel.attributes })
            && final(db)@.members == old(db)@.members.push(
                Member { channel_id: old(db)@.next_id, user_id: user.id, role: UserRole::Admin })
            && final(db)@.users == old(db)@.users
            && final(db)@.sessions == old(db)@.sessions
            && final(db)@.next_id == old(db)@.next_id + 1
            && has_role(final(db)@.members, old(db)@.next_id, user.id, UserRole::Admin)
        ),
{
    let new_channel = match db.insert_channel(channel) {
        Ok(c) => c,
        Err(e) => {
            return Err(map_insertion_error(e));
        },
    };
    proof {
        // the minted id is fresh, so no membership row can name it yet
        if is_member(db@.members, new_channel.id, user.id) {
            lemma_member_channel_exists(old(db)@, new_channel.id, user.id);
            let w = channel_index(old(db)@.channels, new_channel.id);
            assert(channel_at(old(db)@.channels, new_channel.id, w));
        }
        assert(channel_at(db@.channels, new_channel.id, db@.channels.len() - 1));
    }
    match db.insert_member(new_channel.id, user.id, UserRole::Admin) {
        Ok(_) => {},
        Err(_) => {
            return Err(ChannelError::InternalServerError);
        },
    };
    proof {
        let ms = db@.members;
        assert(member_at(ms, new_channel.id, user.id, ms.len() - 1));
        let j = member_index(ms, new_channel.id, user.id);
        assert(member_at(ms, new_channel.id, user.id, j));
        assert(j == ms.len() - 1);
        assert(has_role(ms, new_channel.id, user.id, UserRole::Admin));
    }
    Ok(new_channel)
}

/// List a channel's members, in store order. Any member may; a non-member
/// learns only `NotFound`.
pub fn get_channel_members(id: u64, user: &User, db: &Store) -> (r: Result<Vec<Member>, ChannelError>)
    requires
        store_wf(db@),
    ensures
        !is_member(db@.members, id, user.id) ==> r == Err::<Vec<Member>, ChannelError>(
            ChannelError::NotFound,
        ),
        is_member(db@.members, id, user.id) ==> (
            r matches Ok(list) && list@ == members_of(db@.members, id)
        ),
{
    match authorize(db, user, id, Action::GetMembers) {
        Ok(_) => {},
        Err(e) => {
            return Err(e);
        },
    };
    proof {
        lemma_member_channel_exists(db@, id, user.id);
    }
    match db.get_members(id) {
        Ok(list) => Ok(list),
        Err(e) => Err(map_retrieval_error(e)),
    }
}

/// Read one membership row. The acting user must be a member; an absent
/// target row is `NotFound`.
pub fn get_channel_member(channel_id: u64, user_id: u64, user: &User, db: &Store) -> (r: Result<
    Member,
    ChannelError,
>)
    requires
        store_wf(db@),
    ensures
        !is_member(db@.members, channel_id, user.id) ==> r == Err::<Member, ChannelError>(
            ChannelError::NotFound,
        ),
        is_member(db@.members, channel_id, user.id)
            && !is_member(db@.members, channel_id, user_id) ==> r == Err::<Member, ChannelError>(
            ChannelError::NotFound,
        ),
        is_member(db@.members, channel_id, user.id)
            && is_member(db@.members, channel_id, user_id) ==> r == Ok::<Member, ChannelError>(
            member_of(db@.members, channel_id, user_id),
        ),
{
    match authorize(db, user, channel_id, Action::GetMember) {
        Ok(_) => {},
        Err(e) => {
            return Err(e);
        },
    };
    match db.get_member(channel_id, user_id) {
        Ok(role) => {
            proof {
                let j = member_index(db@.members, channel_id, user_id);
                assert(member_at(db@.members, channel_id, user_id, j));
            }
            Ok(Member { channel_id, user_id, role })
        },
        Err(e) => Err(map_retrieval_error(e)),
    }
}

/// Bind a new member to a channel with a given role. Only an `Admin` member
/// of the channel may; binding an existing member is a `Conflict`.
pub fn add_channel_member(channel_id: u64, member: Member, user: &User, db: &mut Store) -> (r: Result<
    Member,
    ChannelError,
>)
    requires
        store_wf(old(db)@),
    ensures
        store_wf(final(db)@),
        !is_member(old(db)@.members, channel_id, user.id) ==> (
            r == Err::<Member, ChannelError>(ChannelError::NotFound)
            && final(db)@ == old(db)@
        ),
        is_member(old(db)@.members, channel_id, user.id)
            && !is_admin(old(db)@.members, channel_id, user.id) ==> (
            r == Err::<Member, ChannelError>(ChannelError::Unauthorized)
            && final(db)@ == old(db)@
        ),
        is_admin(old(db)@.members, channel_id, user.id)
            && is_member(old(db)@.members, channel_id, member.user_id) ==> (
            r == Err::<Member, ChannelError>(ChannelError::Conflict)
            && final(db)@ == old(db)@
        ),
        is_admin(old(db)@.members, channel_id, user.id)
            && !is_member(old(db)@.members, channel_id, member.user_id) ==> (
            r == Ok::<Member, ChannelError>(
                Member { channel_id, user_id: member.user_id, role: member.role })
            && final(db)@.members == old(db)@.members.push(
                Member { channel_id, user_id: member.user_id, role: member.role })
            && final(db)@.users == old(db)@.users
            && final(db)@.sessions == old(db)@.sessions
            && final(db)@.channels == old(db)@.channels
            && final(db)@.next_id == old(db)@.next_id
        ),
{
    match authorize(db, user, channel_id, Action::AddMember) {
        Ok(_) => {},
        Err(e) => {
            return Err(e);
        },
    };
    proof {
        lemma_member_channel_exists(db@, channel_id, user.id);
    }
    match db.insert_member(channel_id, member.user_id, member.role) {
        Ok(m) => Ok(m),
        Err(e) => Err(map_insertion_error(e)),
    }
}

} // verus!
