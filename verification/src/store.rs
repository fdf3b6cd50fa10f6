//! The persistence capability: an in-memory store of users, sessions,
//! channels and members, with uniqueness and referential invariants, and the
//! CRUD operations the rest of the core builds on.

use vstd::prelude::*;
use crate::models::{apply_patch, apply_patch_spec, Channel, ChannelInsert, ChannelPatch,
    DataInsertionError, DataRemovalError, DataRetrievalError, DataSetError, Member, Session,
    User, UserRole};

verus! {

/// Mathematical view of a [`Store`].
#[verifier::ext_equal]
pub ghost struct StoreView {
    pub users: Seq<User>,
    pub sessions: Seq<Session>,
    pub channels: Seq<Channel>,
    pub members: Seq<Member>,
    pub next_id: u64,
}

// ---- lookup predicates ------------------------------------------------------

pub open spec fn user_ident_at(users: Seq<User>, identifier: u64, i: int) -> bool {
    0 <= i < users.len() && users[i].identifier == identifier
}

pub open spec fn has_identifier(users: Seq<User>, identifier: u64) -> bool {
    exists|i: int| user_ident_at(users, identifier, i)
}

pub open spec fn user_by_identifier(users: Seq<User>, identifier: u64) -> User {
    users[choose|i: int| user_ident_at(users, identifier, i)]
}

pub open spec fn user_id_at(users: Seq<User>, id: u64, i: int) -> bool {
    0 <= i < users.len() && users[i].id == id
}

pub open spec fn has_user_id(users: Seq<User>, id: u64) -> bool {
    exists|i: int| user_id_at(users, id, i)
}

pub open spec fn user_by_id(users: Seq<User>, id: u64) -> User {
    users[choose|i: int| user_id_at(users, id, i)]
}

pub open spec fn channel_at(channels: Seq<Channel>, id: u64, i: int) -> bool {
    0 <= i < channels.len() && channels[i].id == id
}

pub open spec fn has_channel(channels: Seq<Channel>, id: u64) -> bool {
    exists|i: int| channel_at(channels, id, i)
}

pub open spec fn channel_index(channels: Seq<Channel>, id: u64) -> int {
    choose|i: int| channel_at(channels, id, i)
}

pub open spec fn channel_by_id(channels: Seq<Channel>, id: u64) -> Channel {
    channels[channel_index(channels, id)]
}

pub open spec fn session_at(sessions: Seq<Session>, token: u64, i: int) -> bool {
    0 <= i < sessions.len() && sessions[i].token == token
}

pub open spec fn has_session(sessions: Seq<Session>, token: u64) -> bool {
    exists|i: int| session_at(sessions, token, i)
}

pub open spec fn session_by_token(sessions: Seq<Session>, token: u64) -> Session {
    sessions[choose|i: int| session_at(sessions, token, i)]
}

pub open spec fn member_at(members: Seq<Member>, channel_id: u64, user_id: u64, i: int) -> bool {
    0 <= i < members.len() && members[i].channel_id == channel_id && members[i].user_id == user_id
}

pub open spec fn is_member(members: Seq<Member>, channel_id: u64, user_id: u64) -> bool {
    exists|i: int| member_at(members, channel_id, user_id, i)
}

pub open spec fn member_index(members: Seq<Member>, channel_id: u64, user_id: u64) -> int {
    choose|i: int| member_at(members, channel_id, user_id, i)
}

pub open spec fn member_of(members: Seq<Member>, channel_id: u64, user_id: u64) -> Member {
    members[member_index(members, channel_id, user_id)]
}

pub open spec fn role_of(members: Seq<Member>, channel_id: u64, user_id: u64) -> UserRole {
    member_of(members, channel_id, user_id).role
}

/// `user_id` is bound to `channel_id` with exactly the role `role`.
pub open spec fn has_role(members: Seq<Member>, channel_id: u64, user_id: u64, role: UserRole) -> bool {
    is_member(members, channel_id, user_id) && role_of(members, channel_id, user_id) == role
}

pub open spec fn is_admin(members: Seq<Member>, channel_id: u64, user_id: u64) -> bool {
    has_role(members, channel_id, user_id, UserRole::Admin)
}

/// The members of channel `channel_id`, in store order.
pub open spec fn members_of(members: Seq<Member>, channel_id: u64) -> Seq<Member>
    decreases members.len(),
{
    if members.len() == 0 {
        Seq::<Member>::empty()
    } else {
        let prefix = members_of(members.drop_last(), channel_id);
        if members.last().channel_id == channel_id {
            prefix.push(members.last())
        } else {
            prefix
        }
    }
}

/// The members that survive a cascading delete of channel `channel_id`, in
/// store order.
pub open spec fn members_without(members: Seq<Member>, channel_id: u64) -> Seq<Member>
    decreases members.len(),
{
    if members.len() == 0 {
        Seq::<Member>::empty()
    } else {
        let prefix = members_without(members.drop_last(), channel_id);
        if members.last().channel_id != channel_id {
            prefix.push(members.last())
        } else {
            prefix
        }
    }
}

/// Element `a` of `sub` occurs in `src` before index `bound`.
pub open spec fn drawn_from(sub: Seq<Member>, src: Seq<Member>, bound: int, a: int) -> bool {
    exists|b: int| 0 <= b < bound && sub[a] == src[b]
}

// ---- well-formedness --------------------------------------------------------

pub open spec fn users_unique(us: Seq<User>) -> bool {
    forall|i: int, j: int| #![trigger us[i], us[j]]
        0 <= i < us.len() && 0 <= j < us.len() && i != j
            ==> us[i].id != us[j].id && us[i].identifier != us[j].identifier
}

pub open spec fn users_fresh(us: Seq<User>, next_id: u64) -> bool {
    forall|i: int| 0 <= i < us.len() ==> (#[trigger] us[i]).id < next_id
}

pub open spec fn channels_unique(cs: Seq<Channel>) -> bool {
    forall|i: int, j: int| #![trigger cs[i], cs[j]]
        0 <= i < cs.len() && 0 <= j < cs.len() && i != j ==> cs[i].id != cs[j].id
}

pub open spec fn channels_fresh(cs: Seq<Channel>, next_id: u64) -> bool {
    forall|i: int| 0 <= i < cs.len() ==> (#[trigger] cs[i]).id < next_id
}

pub open spec fn sessions_unique(ss: Seq<Session>) -> bool {
    forall|i: int, j: int| #![trigger ss[i], ss[j]]
        0 <= i < ss.len() && 0 <= j < ss.len() && i != j ==> ss[i].token != ss[j].token
}

pub open spec fn sessions_fresh(ss: Seq<Session>, next_id: u64) -> bool {
    forall|i: int| 0 <= i < ss.len() ==> (#[trigger] ss[i]).token < next_id
}

pub open spec fn sessions_ref_users(ss: Seq<Session>, us: Seq<User>) -> bool {
    forall|i: int| 0 <= i < ss.len() ==> has_user_id(us, (#[trigger] ss[i]).user_id)
}

pub open spec fn members_unique(ms: Seq<Member>) -> bool {
    forall|i: int, j: int| #![trigger ms[i], ms[j]]
        0 <= i < ms.len() && 0 <= j < ms.len() && i != j
            ==> !(ms[i].channel_id == ms[j].channel_id && ms[i].user_id == ms[j].user_id)
}

pub open spec fn members_ref_channels(ms: Seq<Member>, cs: Seq<Channel>) -> bool {
    forall|i: int| 0 <= i < ms.len() ==> has_channel(cs, (#[trigger] ms[i]).channel_id)
}

/// Store invariant: ids, identifiers, tokens and `(channel, user)` pairs are
/// unique; minted ids stay below `next_id`; sessions refer to existing users;
/// members refer to existing channels.
pub open spec fn store_wf(v: StoreView) -> bool {
    &&& users_unique(v.users)
    &&& users_fresh(v.users, v.next_id)
    &&& channels_unique(v.channels)
    &&& channels_fresh(v.channels, v.next_id)
    &&& sessions_unique(v.sessions)
    &&& sessions_fresh(v.sessions, v.next_id)
    &&& sessions_ref_users(v.sessions, v.users)
    &&& members_unique(v.members)
    &&& members_ref_channels(v.members, v.channels)
}

// ---- invariant preservation lemmas -----------------------------------------

proof fn lemma_not_has_user_id_of_fresh(us: Seq<User>, next_id: u64)
    requires
        users_fresh(us, next_id),
    ensures
        !has_user_id(us, next_id),
{
    if has_user_id(us, next_id) {
        let i = choose|i: int| user_id_at(us, next_id, i);
        assert(user_id_at(us, next_id, i));
    }
}

proof fn lemma_not_has_channel_of_fresh(cs: Seq<Channel>, next_id: u64)
    requires
        channels_fresh(cs, next_id),
    ensures
        !has_channel(cs, next_id),
{
    if has_channel(cs, next_id) {
        let i = channel_index(cs, next_id);
        assert(channel_at(cs, next_id, i));
    }
}

proof fn lemma_not_has_session_of_fresh(ss: Seq<Session>, next_id: u64)
    requires
        sessions_fresh(ss, next_id),
    ensures
        !has_session(ss, next_id),
{
    if has_session(ss, next_id) {
        let i = choose|i: int| session_at(ss, next_id, i);
        assert(session_at(ss, next_id, i));
    }
}

proof fn lemma_users_unique_push(us: Seq<User>, u: User)
    requires
        users_unique(us),
        !has_user_id(us, u.id),
        !has_identifier(us, u.identifier),
    ensures
        users_unique(us.push(u)),
{
    let post = us.push(u);
    assert forall|i: int, j: int| #![trigger post[i], post[j]]
        0 <= i < post.len() && 0 <= j < post.len() && i != j
        implies post[i].id != post[j].id && post[i].identifier != post[j].identifier by {
        if i == us.len() {
            assert(!user_id_at(us, u.id, j) && !user_ident_at(us, u.identifier, j));
            assert(post[j] == us[j]);
        } else if j == us.len() {
            assert(!user_id_at(us, u.id, i) && !user_ident_at(us, u.identifier, i));
            assert(post[i] == us[i]);
        } else {
            assert(post[i] == us[i] && post[j] == us[j]);
        }
    }
}

proof fn lemma_channels_unique_push(cs: Seq<Channel>, c: Channel)
    requires
        channels_unique(cs),
        !has_channel(cs, c.id),
    ensures
        channels_unique(cs.push(c)),
{
    let post = cs.push(c);
    assert forall|i: int, j: int| #![trigger post[i], post[j]]
        0 <= i < post.len() && 0 <= j < post.len() && i != j
        implies post[i].id != post[j].id by {
        if i == cs.len() {
            assert(!channel_at(cs, c.id, j));
            assert(post[j] == cs[j]);
        } else if j == cs.len() {
            assert(!channel_at(cs, c.id, i));
            assert(post[i] == cs[i]);
        } else {
            assert(post[i] == cs[i] && post[j] == cs[j]);
        }
    }
}

proof fn lemma_sessions_unique_push(ss: Seq<Session>, s: Session)
    requires
        sessions_unique(ss),
        !has_session(ss, s.token),
    ensures
        sessions_unique(ss.push(s)),
{
    let post = ss.push(s);
    assert forall|i: int, j: int| #![trigger post[i], post[j]]
        0 <= i < post.len() && 0 <= j < post.len() && i != j
        implies post[i].token != post[j].token by {
        if i == ss.len() {
            assert(!session_at(ss, s.token, j));
            assert(post[j] == ss[j]);
        } else if j == ss.len() {
            assert(!session_at(ss, s.token, i));
            assert(post[i] == ss[i]);
        } else {
            assert(post[i] == ss[i] && post[j] == ss[j]);
        }
    }
}

proof fn lemma_members_unique_push(ms: Seq<Member>, m: Member)
    requires
        members_unique(ms),
        !is_member(ms, m.channel_id, m.user_id),
    ensures
        members_unique(ms.push(m)),
{
    let post = ms.push(m);
    assert forall|i: int, j: int| #![trigger post[i], post[j]]
        0 <= i < post.len() && 0 <= j < post.len() && i != j
        implies !(post[i].channel_id == post[j].channel_id
            && post[i].user_id == post[j].user_id) by {
        if i == ms.len() {
            assert(!member_at(ms, m.channel_id, m.user_id, j));
            assert(post[j] == ms[j]);
        } else if j == ms.len() {
            assert(!member_at(ms, m.channel_id, m.user_id, i));
            assert(post[i] == ms[i]);
        } else {
            assert(post[i] == ms[i] && post[j] == ms[j]);
        }
    }
}

proof fn lemma_users_fresh_push(us: Seq<User>, u: User, next_id: u64)
    requires
        users_fresh(us, next_id),
        u.id < next_id,
    ensures
        users_fresh(us.push(u), next_id),
{
    let post = us.push(u);
    assert forall|i: int| 0 <= i < post.len() implies (#[trigger] post[i]).id < next_id by {
        if i < us.len() {
            assert(post[i] == us[i]);
        }
    }
}

proof fn lemma_channels_fresh_push(cs: Seq<Channel>, c: Channel, next_id: u64)
    requires
        channels_fresh(cs, next_id),
        c.id < next_id,
    ensures
        channels_fresh(cs.push(c), next_id),
{
    let post = cs.push(c);
    assert forall|i: int| 0 <= i < post.len() implies (#[trigger] post[i]).id < next_id by {
        if i < cs.len() {
            assert(post[i] == cs[i]);
        }
    }
}

proof fn lemma_sessions_fresh_push(ss: Seq<Session>, s: Session, next_id: u64)
    requires
        sessions_fresh(ss, next_id),
        s.token < next_id,
    ensures
        sessions_fresh(ss.push(s), next_id),
{
    let post = ss.push(s);
    assert forall|i: int| 0 <= i < post.len() implies (#[trigger] post[i]).token < next_id by {
        if i < ss.len() {
            assert(post[i] == ss[i]);
        }
    }
}

proof fn lemma_users_fresh_mono(us: Seq<User>, next_id: u64, larger: u64)
    requires
        users_fresh(us, next_id),
        next_id <= larger,
    ensures
        users_fresh(us, larger),
{
}

proof fn lemma_channels_fresh_mono(cs: Seq<Channel>, next_id: u64, larger: u64)
    requires
        channels_fresh(cs, next_id),
        next_id <= larger,
    ensures
        channels_fresh(cs, larger),
{
}

proof fn lemma_sessions_fresh_mono(ss: Seq<Session>, next_id: u64, larger: u64)
    requires
        sessions_fresh(ss, next_id),
        next_id <= larger,
    ensures
        sessions_fresh(ss, larger),
{
}

proof fn lemma_has_user_id_push(us: Seq<User>, u: User, x: u64)
    requires
        has_user_id(us, x),
    ensures
        has_user_id(us.push(u), x),
{
    let i = choose|i: int| user_id_at(us, x, i);
    assert(user_id_at(us, x, i));
    assert(user_id_at(us.push(u), x, i));
}

proof fn lemma_has_channel_push(cs: Seq<Channel>, c: Channel, x: u64)
    requires
        has_channel(cs, x),
    ensures
        has_channel(cs.push(c), x),
{
    let i = channel_index(cs, x);
    assert(channel_at(cs, x, i));
    assert(channel_at(cs.push(c), x, i));
}

proof fn lemma_has_channel_remove(cs: Seq<Channel>, i: int, x: u64)
    requires
        0 <= i < cs.len(),
        has_channel(cs, x),
        cs[i].id != x,
    ensures
        has_channel(cs.remove(i), x),
{
    cs.remove_ensures(i);
    let w = channel_index(cs, x);
    assert(channel_at(cs, x, w));
    if w < i {
        assert(channel_at(cs.remove(i), x, w));
    } else {
        assert(channel_at(cs.remove(i), x, w - 1));
    }
}

proof fn lemma_channels_unique_remove(cs: Seq<Channel>, r: int)
    requires
        channels_unique(cs),
        0 <= r < cs.len(),
    ensures
        channels_unique(cs.remove(r)),
{
    cs.remove_ensures(r);
    let post = cs.remove(r);
    assert forall|i: int, j: int| #![trigger post[i], post[j]]
        0 <= i < post.len() && 0 <= j < post.len() && i != j
        implies post[i].id != post[j].id by {
        let oi = if i < r { i } else { i + 1 };
        let oj = if j < r { j } else { j + 1 };
        assert(post[i] == cs[oi] && post[j] == cs[oj]);
    }
}

proof fn lemma_channels_fresh_remove(cs: Seq<Channel>, r: int, next_id: u64)
    requires
        channels_fresh(cs, next_id),
        0 <= r < cs.len(),
    ensures
        channels_fresh(cs.remove(r), next_id),
{
    cs.remove_ensures(r);
    let post = cs.remove(r);
    assert forall|i: int| 0 <= i < post.len() implies (#[trigger] post[i]).id < next_id by {
        let oi = if i < r { i } else { i + 1 };
        assert(post[i] == cs[oi]);
    }
}

proof fn lemma_channels_unique_update(cs: Seq<Channel>, r: int, c: Channel)
    requires
        channels_unique(cs),
        0 <= r < cs.len(),
        c.id == cs[r].id,
    ensures
        channels_unique(cs.update(r, c)),
{
    let post = cs.update(r, c);
    assert forall|i: int, j: int| #![trigger post[i], post[j]]
        0 <= i < post.len() && 0 <= j < post.len() && i != j
        implies post[i].id != post[j].id by {
        assert(post[i].id == cs[i].id && post[j].id == cs[j].id);
    }
}

proof fn lemma_channels_fresh_update(cs: Seq<Channel>, r: int, c: Channel, next_id: u64)
    requires
        channels_fresh(cs, next_id),
        0 <= r < cs.len(),
        c.id == cs[r].id,
    ensures
        channels_fresh(cs.update(r, c), next_id),
{
    let post = cs.update(r, c);
    assert forall|i: int| 0 <= i < post.len() implies (#[trigger] post[i]).id < next_id by {
        assert(post[i].id == cs[i].id);
        assert(cs[i].id < next_id);
    }
}

proof fn lemma_sessions_ref_users_push_user(ss: Seq<Session>, us: Seq<User>, u: User)
    requires
        sessions_ref_users(ss, us),
    ensures
        sessions_ref_users(ss, us.push(u)),
{
    assert forall|i: int| 0 <= i < ss.len()
        implies has_user_id(us.push(u), (#[trigger] ss[i]).user_id) by {
        lemma_has_user_id_push(us, u, ss[i].user_id);
    }
}

proof fn lemma_sessions_ref_users_push_session(ss: Seq<Session>, us: Seq<User>, s: Session)
    requires
        sessions_ref_users(ss, us),
        has_user_id(us, s.user_id),
    ensures
        sessions_ref_users(ss.push(s), us),
{
    let post = ss.push(s);
    assert forall|i: int| 0 <= i < post.len()
        implies has_user_id(us, (#[trigger] post[i]).user_id) by {
        if i < ss.len() {
            assert(post[i] == ss[i]);
        }
    }
}

proof fn lemma_members_ref_channels_push_channel(ms: Seq<Member>, cs: Seq<Channel>, c: Channel)
    requires
        members_ref_channels(ms, cs),
    ensures
        members_ref_channels(ms, cs.push(c)),
{
    assert forall|i: int| 0 <= i < ms.len()
        implies has_channel(cs.push(c), (#[trigger] ms[i]).channel_id) by {
        lemma_has_channel_push(cs, c, ms[i].channel_id);
    }
}

proof fn lemma_members_ref_channels_push_member(ms: Seq<Member>, cs: Seq<Channel>, m: Member)
    requires
        members_ref_channels(ms, cs),
        has_channel(cs, m.channel_id),
    ensures
        members_ref_channels(ms.push(m), cs),
{
    let post = ms.push(m);
    assert forall|i: int| 0 <= i < post.len()
        implies has_channel(cs, (#[trigger] post[i]).channel_id) by {
        if i < ms.len() {
            assert(post[i] == ms[i]);
        }
    }
}

proof fn lemma_members_ref_channels_update_channel(ms: Seq<Member>, cs: Seq<Channel>, r: int, c: Channel)
    requires
        members_ref_channels(ms, cs),
        0 <= r < cs.len(),
        c.id == cs[r].id,
    ensures
        members_ref_channels(ms, cs.update(r, c)),
{
    let post = cs.update(r, c);
    assert forall|i: int| 0 <= i < ms.len()
        implies has_channel(post, (#[trigger] ms[i]).channel_id) by {
        let w = channel_index(cs, ms[i].channel_id);
        assert(channel_at(cs, ms[i].channel_id, w));
        assert(post[w].id == cs[w].id);
        assert(channel_at(post, ms[i].channel_id, w));
    }
}

/// Referential integrity, spelled out: a membership row always names an
/// existing channel.
pub proof fn lemma_member_channel_exists(v: StoreView, channel_id: u64, user_id: u64)
    requires
        store_wf(v),
        is_member(v.members, channel_id, user_id),
    ensures
        has_channel(v.channels, channel_id),
{
    let j = member_index(v.members, channel_id, user_id);
    assert(member_at(v.members, channel_id, user_id, j));
    assert(has_channel(v.channels, v.members[j].channel_id));
}

// ---- the store --------------------------------------------------------------

/// In-memory realization of the persistence capability. `next_id` mints every
/// user id, channel id and session token, so freshness is an invariant.
pub struct Store {
    users: Vec<User>,
    sessions: Vec<Session>,
    channels: Vec<Channel>,
    members: Vec<Member>,
    next_id: u64,
}

impl View for Store {
    type V = StoreView;

    closed spec fn view(&self) -> StoreView {
        StoreView {
            users: self.users@,
            sessions: self.sessions@,
            channels: self.channels@,
            members: self.members@,
            next_id: self.next_id,
        }
    }
}

impl Store {
    /// An empty store.
    pub fn new() -> (s: Store)
        ensures
            store_wf(s@),
            s@.users.len() == 0,
            s@.sessions.len() == 0,
            s@.channels.len() == 0,
            s@.members.len() == 0,
            s@.next_id == 0,
    {
        Store {
            users: Vec::new(),
            sessions: Vec::new(),
            channels: Vec::new(),
            members: Vec::new(),
            next_id: 0,
        }
    }

    // ---- private index scans ----

    fn find_user_by_identifier(&self, identifier: u64) -> (r: Option<usize>)
        requires
            store_wf(self@),
        ensures
            match r {
                Some(i) => user_ident_at(self@.users, identifier, i as int)
                    && self@.users[i as int] == user_by_identifier(self@.users, identifier),
                None => !has_identifier(self@.users, identifier),
            },
    {
        let n = self.users.len();
        let mut i: usize = 0;
        while i < n
            invariant
                n == self.users.len(),
                i <= n,
                store_wf(self@),
                forall|k: int| 0 <= k < i ==> !user_ident_at(self@.users, identifier, k),
            decreases n - i,
        {
            if self.users[i].identifier == identifier {
                proof {
                    assert(user_ident_at(self@.users, identifier, i as int));
                    let j = choose|k: int| user_ident_at(self@.users, identifier, k);
                    assert(user_ident_at(self@.users, identifier, j));
                    assert(j == i as int);
                }
                return Some(i);
            }
            i += 1;
        }
        proof {
            if has_identifier(self@.users, identifier) {
                let j = choose|k: int| user_ident_at(self@.users, identifier, k);
                assert(user_ident_at(self@.users, identifier, j));
            }
        }
        None
    }

    fn find_user_by_id(&self, id: u64) -> (r: Option<usize>)
        requires
            store_wf(self@),
        ensures
            match r {
                Some(i) => user_id_at(self@.users, id, i as int)
                    && self@.users[i as int] == user_by_id(self@.users, id),
                None => !has_user_id(self@.users, id),
            },
    {
        let n = self.users.len();
        let mut i: usize = 0;
        while i < n
            invariant
                n == self.users.len(),
                i <= n,
                store_wf(self@),
                forall|k: int| 0 <= k < i ==> !user_id_at(self@.users, id, k),
            decreases n - i,
        {
            if self.users[i].id == id {
                proof {
                    assert(user_id_at(self@.users, id, i as int));
                    let j = choose|k: int| user_id_at(self@.users, id, k);
                    assert(user_id_at(self@.users, id, j));
                    assert(j == i as int);
                }
                return Some(i);
            }
            i += 1;
        }
        proof {
            if has_user_id(self@.users, id) {
                let j = choose|k: int| user_id_at(self@.users, id, k);
                assert(user_id_at(self@.users, id, j));
            }
        }
        None
    }

    fn find_channel(&self, id: u64) -> (r: Option<usize>)
        requires
            store_wf(self@),
        ensures
            match r {
                Some(i) => channel_at(self@.channels, id, i as int)
                    && i as int == channel_index(self@.channels, id),
                None => !has_channel(self@.channels, id),
            },
    {
        let n = self.channels.len();
        let mut i: usize = 0;
        while i < n
            invariant
                n == self.channels.len(),
                i <= n,
                store_wf(self@),
                forall|k: int| 0 <= k < i ==> !channel_at(self@.channels, id, k),
            decreases n - i,
        {
            if self.channels[i].id == id {
                proof {
                    assert(channel_at(self@.channels, id, i as int));
                    let j = channel_index(self@.channels, id);
                    assert(channel_at(self@.channels, id, j));
                    assert(j == i as int);
                }
                return Some(i);
            }
            i += 1;
        }
        proof {
            if has_channel(self@.channels, id) {
                let j = channel_index(self@.channels, id);
                assert(channel_at(self@.channels, id, j));
            }
        }
        None
    }

    fn find_session(&self, token: u64) -> (r: Option<usize>)
        requires
            store_wf(self@),
        ensures
            match r {
                Some(i) => session_at(self@.sessions, token, i as int)
                    && self@.sessions[i as int] == session_by_token(self@.sessions, token),
                None => !has_session(self@.sessions, token),
            },
    {
        let n = self.sessions.len();
        let mut i: usize = 0;
        while i < n
            invariant
                n == self.sessions.len(),
                i <= n,
                store_wf(self@),
                forall|k: int| 0 <= k < i ==> !session_at(self@.sessions, token, k),
            decreases n - i,
        {
            if self.sessions[i].token == token {
                proof {
                    assert(session_at(self@.sessions, token, i as int));
                    let j = choose|k: int| session_at(self@.sessions, token, k);
                    assert(session_at(self@.sessions, token, j));
                    assert(j == i as int);
                }
                return Some(i);
            }
            i += 1;
        }
        proof {
            if has_session(self@.sessions, token) {
                let j = choose|k: int| session_at(self@.sessions, token, k);
                assert(session_at(self@.sessions, token, j));
            }
        }
        None
    }

    fn find_member(&self, channel_id: u64, user_id: u64) -> (r: Option<usize>)
        requires
            store_wf(self@),
        ensures
            match r {
                Some(i) => member_at(self@.members, channel_id, user_id, i as int)
                    && i as int == member_index(self@.members, channel_id, user_id),
                None => !is_member(self@.members, channel_id, user_id),
            },
    {
        let n = self.members.len();
        let mut i: usize = 0;
        while i < n
            invariant
                n == self.members.len(),
                i <= n,
                store_wf(self@),
                forall|k: int| 0 <= k < i ==> !member_at(self@.members, channel_id, user_id, k),
            decreases n - i,
        {
            let m = self.members[i];
            if m.channel_id == channel_id && m.user_id == user_id {
                proof {
                    assert(member_at(self@.members, channel_id, user_id, i as int));
                    let j = member_index(self@.members, channel_id, user_id);
                    assert(member_at(self@.members, channel_id, user_id, j));
                    assert(j == i as int);
                }
                return Some(i);
            }
            i += 1;
        }
        proof {
            if is_member(self@.members, channel_id, user_id) {
                let j = member_index(self@.members, channel_id, user_id);
                assert(member_at(self@.members, channel_id, user_id, j));
            }
        }
        None
    }

    // ---- reads ----

    /// Membership lookup: the role of `user_id` on `channel_id`.
    pub fn get_member(&self, channel_id: u64, user_id: u64) -> (r: Result<UserRole, DataRetrievalError>)
        requires
            store_wf(self@),
        ensures
            is_member(self@.members, channel_id, user_id)
                ==> r == Ok::<UserRole, DataRetrievalError>(role_of(self@.members, channel_id, user_id)),
            !is_member(self@.members, channel_id, user_id)
                ==> r == Err::<UserRole, DataRetrievalError>(DataRetrievalError::NotFound),
    {
        match self.find_member(channel_id, user_id) {
            Some(i) => Ok(self.members[i].role),
            None => Err(DataRetrievalError::NotFound),
        }
    }

    /// All members of `channel_id`, in store order; `NotFound` if the channel
    /// does not exist.
    pub fn get_members(&self, channel_id: u64) -> (r: Result<Vec<Member>, DataRetrievalError>)
        requires
            store_wf(self@),
        ensures
            match r {
                Ok(list) => has_channel(self@.channels, channel_id)
                    && list@ == members_of(self@.members, channel_id),
                Err(e) => !has_channel(self@.channels, channel_id)
                    && e == DataRetrievalError::NotFound,
            },
    {
        if self.find_channel(channel_id).is_none() {
            return Err(DataRetrievalError::NotFound);
        }
        let mut list: Vec<Member> = Vec::new();
        let n = self.members.len();
        let mut i: usize = 0;
        while i < n
            invariant
                n == self.members.len(),
                i <= n,
                list@ == members_of(self@.members.take(i as int), channel_id),
            decreases n - i,
        {
            let m = self.members[i];
            proof {
                assert(self@.members.take(i + 1).drop_last() =~= self@.members.take(i as int));
                assert(self@.members.take(i + 1).last() == self@.members[i as int]);
            }
            if m.channel_id == channel_id {
                list.push(m);
            }
            i += 1;
        }
        proof {
            assert(self@.members.take(n as int) =~= self@.members);
        }
        Ok(list)
    }

    /// The channel named by `id`.
    pub fn get_channel(&self, id: u64) -> (r: Result<Channel, DataRetrievalError>)
        requires
            store_wf(self@),
        ensures
            has_channel(self@.channels, id)
                ==> r == Ok::<Channel, DataRetrievalError>(channel_by_id(self@.channels, id)),
            !has_channel(self@.channels, id)
                ==> r == Err::<Channel, DataRetrievalError>(DataRetrievalError::NotFound),
    {
        match self.find_channel(id) {
            Some(i) => Ok(self.channels[i]),
            None => Err(DataRetrievalError::NotFound),
        }
    }

    /// Credential-store lookup by unique identifier.
    pub fn get_user_by_identifier(&self, identifier: u64) -> (r: Option<User>)
        requires
            store_wf(self@),
        ensures
            has_identifier(self@.users, identifier)
                ==> r == Some(user_by_identifier(self@.users, identifier)),
            !has_identifier(self@.users, identifier) ==> r is None,
    {
        match self.find_user_by_identifier(identifier) {
            Some(i) => Some(self.users[i]),
            None => None,
        }
    }

    /// Credential-store lookup by user id.
    pub fn get_user_by_id(&self, id: u64) -> (r: Option<User>)
        requires
            store_wf(self@),
        ensures
            has_user_id(self@.users, id) ==> r == Some(user_by_id(self@.users, id)),
            !has_user_id(self@.users, id) ==> r is None,
    {
        match self.find_user_by_id(id) {
            Some(i) => Some(self.users[i]),
            None => None,
        }
    }

    /// Session lookup by token.
    pub fn get_session(&self, token: u64) -> (r: Option<Session>)
        requires
            store_wf(self@),
        ensures
            has_session(self@.sessions, token)
                ==> r == Some(session_by_token(self@.sessions, token)),
            !has_session(self@.sessions, token) ==> r is None,
    {
        match self.find_session(token) {
            Some(i) => Some(self.sessions[i]),
            None => None,
        }
    }

    // ---- writes ----

    /// Update the attributes of channel `id`; an update of an absent channel
    /// is a persistence fault.
    pub fn patch_channel(&mut self, id: u64, patch: ChannelPatch) -> (r: Result<Channel, DataSetError>)
        requires
            store_wf(old(self)@),
        ensures
            store_wf(final(self)@),
            final(self)@.users == old(self)@.users,
            final(self)@.sessions == old(self)@.sessions,
            final(self)@.members == old(self)@.members,
            final(self)@.next_id == old(self)@.next_id,
            has_channel(old(self)@.channels, id) ==> (
                r == Ok::<Channel, DataSetError>(
                    apply_patch_spec(channel_by_id(old(self)@.channels, id), patch))
                && final(self)@.channels == old(self)@.channels.update(
                    channel_index(old(self)@.channels, id),
                    apply_patch_spec(channel_by_id(old(self)@.channels, id), patch))
            ),
            !has_channel(old(self)@.channels, id) ==> (
                r == Err::<Channel, DataSetError>(DataSetError::InternalError)
                && final(self)@ == old(self)@
            ),
    {
        match self.find_channel(id) {
            None => Err(DataSetError::InternalError),
            Some(i) => {
                let updated = apply_patch(self.channels[i], patch);
                self.channels.set(i, updated);
                proof {
                    lemma_channels_unique_update(old(self)@.channels, i as int, updated);
                    lemma_channels_fresh_update(old(self)@.channels, i as int, updated,
                        old(self)@.next_id);
                    lemma_members_ref_channels_update_channel(old(self)@.members,
                        old(self)@.channels, i as int, updated);
                }
                Ok(updated)
            }
        }
    }

    /// Remove channel `id` together with all of its members (cascade);
    /// removal of an absent channel is a persistence fault.
    pub fn remove_channel(&mut self, id: u64) -> (r: Result<Channel, DataRemovalError>)
        requires
            store_wf(old(self)@),
        ensures
            store_wf(final(self)@),
            final(self)@.users == old(self)@.users,
            final(self)@.sessions == old(self)@.sessions,
            final(self)@.next_id == old(self)@.next_id,
            has_channel(old(self)@.channels, id) ==> (
                r == Ok::<Channel, DataRemovalError>(channel_by_id(old(self)@.channels, id))
                && final(self)@.channels
                    == old(self)@.channels.remove(channel_index(old(self)@.channels, id))
                && final(self)@.members == members_without(old(self)@.members, id)
            ),
            !has_channel(old(self)@.channels, id) ==> (
                r == Err::<Channel, DataRemovalError>(DataRemovalError::InternalError)
                && final(self)@ == old(self)@
            ),
    {
        match self.find_channel(id) {
            None => Err(DataRemovalError::InternalError),
            Some(i) => {
                let ch = self.channels[i];
                self.channels.remove(i);
                proof {
                    old(self)@.channels.remove_ensures(i as int);
                }
                let ghost mid = self@;
                let mut kept: Vec<Member> = Vec::new();
                let n = self.members.len();
                let mut k: usize = 0;
                while k < n
                    invariant
                        self@ == mid,
                        n == self@.members.len(),
                        k <= n,
                        members_unique(self@.members),
                        kept@ == members_without(self@.members.take(k as int), id),
                        forall|a: int| 0 <= a < kept@.len()
                            ==> (#[trigger] kept@[a]).channel_id != id,
                        forall|a: int| 0 <= a < kept@.len()
                            ==> #[trigger] drawn_from(kept@, self@.members, k as int, a),
                        forall|a1: int, a2: int| #![trigger kept@[a1], kept@[a2]]
                            0 <= a1 < kept@.len() && 0 <= a2 < kept@.len() && a1 != a2
                                ==> !(kept@[a1].channel_id == kept@[a2].channel_id
                                    && kept@[a1].user_id == kept@[a2].user_id),
                    decreases n - k,
                {
                    let m = self.members[k];
                    let ghost kept0 = kept@;
                    proof {
                        assert(self@.members.take(k + 1).drop_last() =~= self@.members.take(k as int));
                        assert(self@.members.take(k + 1).last() == self@.members[k as int]);
                    }
                    if m.channel_id != id {
                        proof {
                            assert forall|a: int| 0 <= a < kept0.len()
                                implies !(kept0[a].channel_id == m.channel_id
                                    && kept0[a].user_id == m.user_id) by {
                                assert(drawn_from(kept0, self@.members, k as int, a));
                                let b = choose|b: int| 0 <= b < k && kept0[a] == self@.members[b];
                                assert(self@.members[b] == kept0[a]);
                            }
                        }
                        kept.push(m);
                    }
                    proof {
                        assert forall|a: int| 0 <= a < kept@.len()
                            implies #[trigger] drawn_from(kept@, self@.members, k as int + 1, a) by {
                            if a < kept0.len() {
                                assert(drawn_from(kept0, self@.members, k as int, a));
                                let b = choose|b: int| 0 <= b < k && kept0[a] == self@.members[b];
                                assert(kept@[a] == kept0[a]);
                                assert(0 <= b < k as int + 1 && kept@[a] == self@.members[b]);
                            } else {
                                assert(kept@[a] == self@.members[k as int]);
                            }
                        }
                        assert forall|a1: int, a2: int| #![trigger kept@[a1], kept@[a2]]
                            0 <= a1 < kept@.len() && 0 <= a2 < kept@.len() && a1 != a2
                            implies !(kept@[a1].channel_id == kept@[a2].channel_id
                                && kept@[a1].user_id == kept@[a2].user_id) by {
                            if a1 < kept0.len() && a2 < kept0.len() {
                                assert(kept@[a1] == kept0[a1] && kept@[a2] == kept0[a2]);
                            } else if a1 < kept0.len() {
                                assert(kept@[a1] == kept0[a1]);
                            } else {
                                assert(kept@[a2] == kept0[a2]);
                            }
                        }
                        assert forall|a: int| 0 <= a < kept@.len()
                            implies (#[trigger] kept@[a]).channel_id != id by {
                            if a < kept0.len() {
                                assert(kept@[a] == kept0[a]);
                            }
                        }
                    }
                    k += 1;
                }
                proof {
                    assert(self@.members.take(n as int) =~= self@.members);
                }
                self.members = kept;
                proof {
                    lemma_channels_unique_remove(old(self)@.channels, i as int);
                    lemma_channels_fresh_remove(old(self)@.channels, i as int, old(self)@.next_id);
                    assert forall|a: int| 0 <= a < self@.members.len()
                        implies has_channel(self@.channels, (#[trigger] self@.members[a]).channel_id) by {
                        assert(drawn_from(self@.members, mid.members, n as int, a));
                        let b = choose|b: int| 0 <= b < n && self@.members[a] == mid.members[b];
                        assert(mid.members[b] == old(self)@.members[b]);
                        assert(has_channel(old(self)@.channels, old(self)@.members[b].channel_id));
                        assert(old(self)@.channels[i as int].id == id);
                        lemma_has_channel_remove(old(self)@.channels, i as int,
                            self@.members[a].channel_id);
                    }
                }
                Ok(ch)
            }
        }
    }

    /// Insert a new channel with a freshly minted id; a store whose id space
    /// is exhausted reports a persistence fault.
    pub fn insert_channel(&mut self, draft: ChannelInsert) -> (r: Result<Channel, DataInsertionError>)
        requires
            store_wf(old(self)@),
        ensures
            store_wf(final(self)@),
            final(self)@.users == old(self)@.users,
            final(self)@.sessions == old(self)@.sessions,
            final(self)@.members == old(self)@.members,
            old(self)@.next_id < u64::MAX ==> (
                r == Ok::<Channel, DataInsertionError>(
                    Channel { id: old(self)@.next_id, attributes: draft.attributes })
                && final(self)@.channels == old(self)@.channels.push(
                    Channel { id: old(self)@.next_id, attributes: draft.attributes })
                && final(self)@.next_id == old(self)@.next_id + 1
            ),
            old(self)@.next_id == u64::MAX ==> (
                r == Err::<Channel, DataInsertionError>(DataInsertionError::InternalError)
                && final(self)@ == old(self)@
            ),
    {
        if self.next_id == u64::MAX {
            return Err(DataInsertionError::InternalError);
        }
        let ch = Channel { id: self.next_id, attributes: draft.attributes };
        self.channels.push(ch);
        self.next_id = self.next_id + 1;
        proof {
            lemma_not_has_channel_of_fresh(old(self)@.channels, old(self)@.next_id);
            lemma_channels_unique_push(old(self)@.channels, ch);
            lemma_channels_fresh_mono(old(self)@.channels, old(self)@.next_id, self@.next_id);
            lemma_channels_fresh_push(old(self)@.channels, ch, self@.next_id);
            lemma_users_fresh_mono(old(self)@.users, old(self)@.next_id, self@.next_id);
            lemma_sessions_fresh_mono(old(self)@.sessions, old(self)@.next_id, self@.next_id);
            lemma_members_ref_channels_push_channel(old(self)@.members, old(self)@.channels, ch);
        }
        Ok(ch)
    }

    /// Bind `user_id` to `channel_id` with `role`. The pair must be new;
    /// binding to an absent channel is a persistence fault.
    pub fn insert_member(&mut self, channel_id: u64, user_id: u64, role: UserRole) -> (r: Result<Member, DataInsertionError>)
        requires
            store_wf(old(self)@),
        ensures
            store_wf(final(self)@),
            final(self)@.users == old(self)@.users,
            final(self)@.sessions == old(self)@.sessions,
            final(self)@.channels == old(self)@.channels,
            final(self)@.next_id == old(self)@.next_id,
            is_member(old(self)@.members, channel_id, user_id) ==> (
                r == Err::<Member, DataInsertionError>(DataInsertionError::AlreadyExists)
                && final(self)@ == old(self)@
            ),
            !is_member(old(self)@.members, channel_id, user_id)
                && !has_channel(old(self)@.channels, channel_id) ==> (
                r == Err::<Member, DataInsertionError>(DataInsertionError::InternalError)
                && final(self)@ == old(self)@
            ),
            !is_member(old(self)@.members, channel_id, user_id)
                && has_channel(old(self)@.channels, channel_id) ==> (
                r == Ok::<Member, DataInsertionError>(Member { channel_id, user_id, role })
                && final(self)@.members == old(self)@.members.push(
                    Member { channel_id, user_id, role })
            ),
    {
        if self.find_member(channel_id, user_id).is_some() {
            return Err(DataInsertionError::AlreadyExists);
        }
        if self.find_channel(channel_id).is_none() {
            return Err(DataInsertionError::InternalError);
        }
        let m = Member { channel_id, user_id, role };
        self.members.push(m);
        proof {
            lemma_members_unique_push(old(self)@.members, m);
            lemma_members_ref_channels_push_member(old(self)@.members, old(self)@.channels, m);
        }
        Ok(m)
    }

    /// Create a user with a freshly minted id; `identifier` must be new.
    pub fn insert_user(&mut self, identifier: u64, secret_digest: u64) -> (r: Result<User, DataInsertionError>)
        requires
            store_wf(old(self)@),
        ensures
            store_wf(final(self)@),
            final(self)@.sessions == old(self)@.sessions,
            final(self)@.channels == old(self)@.channels,
            final(self)@.members == old(self)@.members,
            has_identifier(old(self)@.users, identifier) ==> (
                r == Err::<User, DataInsertionError>(DataInsertionError::AlreadyExists)
                && final(self)@ == old(self)@
            ),
            !has_identifier(old(self)@.users, identifier) && old(self)@.next_id == u64::MAX ==> (
                r == Err::<User, DataInsertionError>(DataInsertionError::InternalError)
                && final(self)@ == old(self)@
            ),
            !has_identifier(old(self)@.users, identifier) && old(self)@.next_id < u64::MAX ==> (
                r == Ok::<User, DataInsertionError>(
                    User { id: old(self)@.next_id, identifier, secret_digest })
                && final(self)@.users == old(self)@.users.push(
                    User { id: old(self)@.next_id, identifier, secret_digest })
                && final(self)@.next_id == old(self)@.next_id + 1
            ),
    {
        if self.find_user_by_identifier(identifier).is_some() {
            return Err(DataInsertionError::AlreadyExists);
        }
        if self.next_id == u64::MAX {
            return Err(DataInsertionError::InternalError);
        }
        let u = User { id: self.next_id, identifier, secret_digest };
        self.users.push(u);
        self.next_id = self.next_id + 1;
        proof {
            lemma_not_has_user_id_of_fresh(old(self)@.users, old(self)@.next_id);
            lemma_users_unique_push(old(self)@.users, u);
            lemma_users_fresh_mono(old(self)@.users, old(self)@.next_id, self@.next_id);
            lemma_users_fresh_push(old(self)@.users, u, self@.next_id);
            lemma_channels_fresh_mono(old(self)@.channels, old(self)@.next_id, self@.next_id);
            lemma_sessions_fresh_mono(old(self)@.sessions, old(self)@.next_id, self@.next_id);
            lemma_sessions_ref_users_push_user(old(self)@.sessions, old(self)@.users, u);
        }
        Ok(u)
    }

    /// Mint a session with a fresh token for an existing user; a session for
    /// an absent user is a persistence fault.
    pub fn insert_session(&mut self, user_id: u64, issued_at: u64, expiry: u64) -> (r: Result<Session, DataInsertionError>)
        requires
            store_wf(old(self)@),
        ensures
            store_wf(final(self)@),
            final(self)@.users == old(self)@.users,
            final(self)@.channels == old(self)@.channels,
            final(self)@.members == old(self)@.members,
            !has_user_id(old(self)@.users, user_id) ==> (
                r == Err::<Session, DataInsertionError>(DataInsertionError::InternalError)
                && final(self)@ == old(self)@
            ),
            has_user_id(old(self)@.users, user_id) && old(self)@.next_id == u64::MAX ==> (
                r == Err::<Session, DataInsertionError>(DataInsertionError::InternalError)
                && final(self)@ == old(self)@
            ),
            has_user_id(old(self)@.users, user_id) && old(self)@.next_id < u64::MAX ==> (
                r == Ok::<Session, DataInsertionError>(
                    Session { token: old(self)@.next_id, user_id, issued_at, expiry })
                && final(self)@.sessions == old(self)@.sessions.push(
                    Session { token: old(self)@.next_id, user_id, issued_at, expiry })
                && final(self)@.next_id == old(self)@.next_id + 1
            ),
    {
        if self.find_user_by_id(user_id).is_none() {
            return Err(DataInsertionError::InternalError);
        }
        if self.next_id == u64::MAX {
            return Err(DataInsertionError::InternalError);
        }
        let s = Session { token: self.next_id, user_id, issued_at, expiry };
        self.sessions.push(s);
        self.next_id = self.next_id + 1;
        proof {
            lemma_not_has_session_of_fresh(old(self)@.sessions, old(self)@.next_id);
            lemma_sessions_unique_push(old(self)@.sessions, s);
            lemma_sessions_fresh_mono(old(self)@.sessions, old(self)@.next_id, self@.next_id);
            lemma_sessions_fresh_push(old(self)@.sessions, s, self@.next_id);
            lemma_users_fresh_mono(old(self)@.users, old(self)@.next_id, self@.next_id);
            lemma_channels_fresh_mono(old(self)@.channels, old(self)@.next_id, self@.next_id);
            lemma_sessions_ref_users_push_session(old(self)@.sessions, old(self)@.users, s);
        }
        Ok(s)
    }
}

} // verus!
