use channel_auth::auth::{authenticate, hash_secret, is_write_action, login, register, resolve,
    verify_secret, Action};
use channel_auth::endpoints::{add_channel_member, create_channel, get_channel_by_id,
    get_channel_member, get_channel_members, patch_channel_by_id, remove_channel_by_id};
use channel_auth::models::{apply_patch, auth_error_status, channel_error_status,
    map_insertion_error, map_removal_error, map_retrieval_error, map_set_error, AuthError,
    Channel, ChannelError, ChannelInsert, ChannelPatch, DataInsertionError, DataRemovalError,
    DataRetrievalError, DataSetError, Member, User, UserRole};
use channel_auth::store::Store;

const NOW: u64 = 1_000;

fn registered(store: &mut Store, identifier: u64, secret: u64) -> User {
    register(store, identifier, secret).expect("registration should succeed")
}

fn channel_of(store: &mut Store, owner: &User, attributes: u64) -> Channel {
    create_channel(ChannelInsert { attributes }, owner, store)
        .expect("channel creation should succeed")
}

#[test]
fn register_creates_account() {
    let mut store = Store::new();
    let user = registered(&mut store, 7, 42);
    assert_eq!(user.identifier, 7);
    assert_eq!(user.secret_digest, hash_secret(42));
    assert_eq!(store.get_user_by_identifier(7), Some(user));
}

#[test]
fn register_duplicate_identifier_conflicts() {
    let mut store = Store::new();
    let original = registered(&mut store, 7, 42);
    assert_eq!(register(&mut store, 7, 99), Err(AuthError::AlreadyExists));
    // the original account is untouched: its secret still logs in
    assert_eq!(store.get_user_by_identifier(7), Some(original));
    assert!(login(&mut store, 7, 42, NOW).is_ok());
    assert_eq!(login(&mut store, 7, 99, NOW), Err(AuthError::InvalidCredentials));
}

#[test]
fn login_unknown_identifier_fails() {
    let mut store = Store::new();
    assert_eq!(login(&mut store, 7, 42, NOW), Err(AuthError::InvalidCredentials));
}

#[test]
fn login_wrong_secret_fails() {
    let mut store = Store::new();
    registered(&mut store, 7, 42);
    assert_eq!(login(&mut store, 7, 43, NOW), Err(AuthError::InvalidCredentials));
}

#[test]
fn login_then_resolve_round_trip() {
    let mut store = Store::new();
    let user = registered(&mut store, 7, 42);
    let session = login(&mut store, 7, 42, NOW).expect("login should succeed");
    assert_eq!(session.user_id, user.id);
    assert_eq!(session.issued_at, NOW);
    assert_eq!(session.expiry, NOW + 3600);
    assert_eq!(resolve(&store, session.token, NOW + 1), Ok(user));
}

#[test]
fn resolve_after_expiry_fails() {
    let mut store = Store::new();
    registered(&mut store, 7, 42);
    let session = login(&mut store, 7, 42, NOW).expect("login should succeed");
    assert_eq!(resolve(&store, session.token, session.expiry), Err(AuthError::Unauthorized));
    assert_eq!(resolve(&store, session.token, session.expiry + 5), Err(AuthError::Unauthorized));
    // just before the expiry it still resolves
    assert!(resolve(&store, session.token, session.expiry - 1).is_ok());
}

#[test]
fn resolve_unknown_token_fails() {
    let mut store = Store::new();
    registered(&mut store, 7, 42);
    assert_eq!(resolve(&store, 12345, NOW), Err(AuthError::Unauthorized));
}

#[test]
fn login_near_end_of_time_saturates() {
    let mut store = Store::new();
    registered(&mut store, 7, 42);
    let session = login(&mut store, 7, 42, u64::MAX - 10).expect("login should succeed");
    assert_eq!(session.expiry, u64::MAX);
    assert!(resolve(&store, session.token, u64::MAX - 1).is_ok());
}

#[test]
fn authenticate_missing_token_fails() {
    let mut store = Store::new();
    registered(&mut store, 7, 42);
    assert_eq!(authenticate(&store, None, NOW), Err(AuthError::Unauthorized));
}

#[test]
fn authenticate_valid_token_resolves() {
    let mut store = Store::new();
    let user = registered(&mut store, 7, 42);
    let session = login(&mut store, 7, 42, NOW).expect("login should succeed");
    assert_eq!(authenticate(&store, Some(session.token), NOW + 1), Ok(user));
}

#[test]
fn create_channel_creator_is_admin() {
    // register A, login A, create X: get_member(X, A) reads back as Admin
    let mut store = Store::new();
    let a = registered(&mut store, 1, 11);
    let session = login(&mut store, 1, 11, NOW).expect("login should succeed");
    let actor = resolve(&store, session.token, NOW + 1).expect("resolve should succeed");
    let x = channel_of(&mut store, &actor, 5);
    assert_eq!(x.attributes, 5);
    let row = get_channel_member(x.id, a.id, &actor, &store).expect("member row should exist");
    assert_eq!(row.role, UserRole::Admin);
    assert_eq!(store.get_member(x.id, a.id), Ok(UserRole::Admin));
}

#[test]
fn nonmember_get_sees_not_found() {
    // register B: B reads X without membership and sees 404, not 403
    let mut store = Store::new();
    let a = registered(&mut store, 1, 11);
    let b = registered(&mut store, 2, 22);
    let x = channel_of(&mut store, &a, 5);
    assert_eq!(get_channel_by_id(x.id, &b, &store), Err(ChannelError::NotFound));
    assert_eq!(get_channel_members(x.id, &b, &store), Err(ChannelError::NotFound));
    assert_eq!(get_channel_member(x.id, a.id, &b, &store), Err(ChannelError::NotFound));
}

#[test]
fn nonmember_write_sees_not_found() {
    let mut store = Store::new();
    let a = registered(&mut store, 1, 11);
    let b = registered(&mut store, 2, 22);
    let x = channel_of(&mut store, &a, 5);
    let patch = ChannelPatch { attributes: Some(9) };
    assert_eq!(patch_channel_by_id(x.id, &b, patch, &mut store), Err(ChannelError::NotFound));
    assert_eq!(remove_channel_by_id(x.id, &b, &mut store), Err(ChannelError::NotFound));
    let draft = Member { channel_id: x.id, user_id: b.id, role: UserRole::Member };
    assert_eq!(add_channel_member(x.id, draft, &b, &mut store), Err(ChannelError::NotFound));
    // nothing happened: the channel still carries its old attributes
    assert_eq!(get_channel_by_id(x.id, &a, &store), Ok(x));
}

#[test]
fn member_delete_unauthorized() {
    // A adds B as Member; B tries to delete X and is refused with 403
    let mut store = Store::new();
    let a = registered(&mut store, 1, 11);
    let b = registered(&mut store, 2, 22);
    let x = channel_of(&mut store, &a, 5);
    let draft = Member { channel_id: x.id, user_id: b.id, role: UserRole::Member };
    add_channel_member(x.id, draft, &a, &mut store).expect("admin should add a member");
    assert_eq!(remove_channel_by_id(x.id, &b, &mut store), Err(ChannelError::Unauthorized));
    assert_eq!(get_channel_by_id(x.id, &a, &store), Ok(x));
}

#[test]
fn member_patch_unauthorized() {
    let mut store = Store::new();
    let a = registered(&mut store, 1, 11);
    let b = registered(&mut store, 2, 22);
    let x = channel_of(&mut store, &a, 5);
    let draft = Member { channel_id: x.id, user_id: b.id, role: UserRole::Member };
    add_channel_member(x.id, draft, &a, &mut store).expect("admin should add a member");
    let patch = ChannelPatch { attributes: Some(9) };
    assert_eq!(patch_channel_by_id(x.id, &b, patch, &mut store), Err(ChannelError::Unauthorized));
    assert_eq!(get_channel_by_id(x.id, &a, &store), Ok(x));
}

#[test]
fn member_add_member_unauthorized() {
    let mut store = Store::new();
    let a = registered(&mut store, 1, 11);
    let b = registered(&mut store, 2, 22);
    let c = registered(&mut store, 3, 33);
    let x = channel_of(&mut store, &a, 5);
    let draft_b = Member { channel_id: x.id, user_id: b.id, role: UserRole::Member };
    add_channel_member(x.id, draft_b, &a, &mut store).expect("admin should add a member");
    let draft_c = Member { channel_id: x.id, user_id: c.id, role: UserRole::Member };
    assert_eq!(add_channel_member(x.id, draft_c, &b, &mut store), Err(ChannelError::Unauthorized));
}

#[test]
fn admin_patch_succeeds() {
    let mut store = Store::new();
    let a = registered(&mut store, 1, 11);
    let x = channel_of(&mut store, &a, 5);
    let patched = patch_channel_by_id(x.id, &a, ChannelPatch { attributes: Some(9) }, &mut store)
        .expect("admin patch should succeed");
    assert_eq!(patched, Channel { id: x.id, attributes: 9 });
    assert_eq!(get_channel_by_id(x.id, &a, &store), Ok(patched));
    // a patch that sets nothing changes nothing
    let same = patch_channel_by_id(x.id, &a, ChannelPatch { attributes: None }, &mut store)
        .expect("empty patch should succeed");
    assert_eq!(same, patched);
}

#[test]
fn admin_delete_succeeds() {
    let mut store = Store::new();
    let a = registered(&mut store, 1, 11);
    let x = channel_of(&mut store, &a, 5);
    assert_eq!(remove_channel_by_id(x.id, &a, &mut store), Ok(x));
    // the channel is gone; even its former admin now sees NotFound
    assert_eq!(get_channel_by_id(x.id, &a, &store), Err(ChannelError::NotFound));
}

#[test]
fn admin_add_member_succeeds() {
    let mut store = Store::new();
    let a = registered(&mut store, 1, 11);
    let b = registered(&mut store, 2, 22);
    let x = channel_of(&mut store, &a, 5);
    let draft = Member { channel_id: x.id, user_id: b.id, role: UserRole::Member };
    let added = add_channel_member(x.id, draft, &a, &mut store).expect("add should succeed");
    assert_eq!(added, Member { channel_id: x.id, user_id: b.id, role: UserRole::Member });
    // the new member can now read the channel
    assert_eq!(get_channel_by_id(x.id, &b, &store), Ok(x));
}

#[test]
fn add_existing_member_conflicts() {
    let mut store = Store::new();
    let a = registered(&mut store, 1, 11);
    let x = channel_of(&mut store, &a, 5);
    let draft = Member { channel_id: x.id, user_id: a.id, role: UserRole::Member };
    assert_eq!(add_channel_member(x.id, draft, &a, &mut store), Err(ChannelError::Conflict));
    // the existing Admin row was not overwritten
    assert_eq!(store.get_member(x.id, a.id), Ok(UserRole::Admin));
}

#[test]
fn get_channel_members_lists_in_order() {
    let mut store = Store::new();
    let a = registered(&mut store, 1, 11);
    let b = registered(&mut store, 2, 22);
    let c = registered(&mut store, 3, 33);
    let x = channel_of(&mut store, &a, 5);
    let y = channel_of(&mut store, &a, 6);
    let draft_b = Member { channel_id: x.id, user_id: b.id, role: UserRole::Member };
    add_channel_member(x.id, draft_b, &a, &mut store).expect("add should succeed");
    let draft_c = Member { channel_id: y.id, user_id: c.id, role: UserRole::Member };
    add_channel_member(y.id, draft_c, &a, &mut store).expect("add should succeed");
    let listed = get_channel_members(x.id, &a, &store).expect("listing should succeed");
    assert_eq!(listed, vec![
        Member { channel_id: x.id, user_id: a.id, role: UserRole::Admin },
        Member { channel_id: x.id, user_id: b.id, role: UserRole::Member },
    ]);
}

#[test]
fn get_channel_member_reads_one_row() {
    let mut store = Store::new();
    let a = registered(&mut store, 1, 11);
    let b = registered(&mut store, 2, 22);
    let x = channel_of(&mut store, &a, 5);
    let row = get_channel_member(x.id, a.id, &a, &store).expect("row should exist");
    assert_eq!(row, Member { channel_id: x.id, user_id: a.id, role: UserRole::Admin });
    // the target is not a member: the row is absent
    assert_eq!(get_channel_member(x.id, b.id, &a, &store), Err(ChannelError::NotFound));
}

#[test]
fn remove_channel_cascades_members() {
    let mut store = Store::new();
    let a = registered(&mut store, 1, 11);
    let b = registered(&mut store, 2, 22);
    let x = channel_of(&mut store, &a, 5);
    let y = channel_of(&mut store, &a, 6);
    let draft = Member { channel_id: x.id, user_id: b.id, role: UserRole::Member };
    add_channel_member(x.id, draft, &a, &mut store).expect("add should succeed");
    remove_channel_by_id(x.id, &a, &mut store).expect("delete should succeed");
    assert_eq!(store.get_member(x.id, a.id), Err(DataRetrievalError::NotFound));
    assert_eq!(store.get_member(x.id, b.id), Err(DataRetrievalError::NotFound));
    // an unrelated channel keeps its membership
    assert_eq!(store.get_member(y.id, a.id), Ok(UserRole::Admin));
}

#[test]
fn store_patch_absent_channel_faults() {
    let mut store = Store::new();
    let patch = ChannelPatch { attributes: Some(9) };
    assert_eq!(store.patch_channel(123, patch), Err(DataSetError::InternalError));
}

#[test]
fn store_remove_absent_channel_faults() {
    let mut store = Store::new();
    assert_eq!(store.remove_channel(123), Err(DataRemovalError::InternalError));
}

#[test]
fn store_insert_member_absent_channel_faults() {
    let mut store = Store::new();
    let a = registered(&mut store, 1, 11);
    assert_eq!(
        store.insert_member(123, a.id, UserRole::Member),
        Err(DataInsertionError::InternalError)
    );
}

#[test]
fn store_insert_session_absent_user_faults() {
    let mut store = Store::new();
    assert_eq!(store.insert_session(123, NOW, NOW + 1), Err(DataInsertionError::InternalError));
}

#[test]
fn error_status_codes_are_fixed() {
    assert_eq!(channel_error_status(ChannelError::NotFound), 404);
    assert_eq!(channel_error_status(ChannelError::Unauthorized), 401);
    assert_eq!(channel_error_status(ChannelError::Conflict), 409);
    assert_eq!(channel_error_status(ChannelError::InternalServerError), 500);
    assert_eq!(auth_error_status(AuthError::InvalidCredentials), 401);
    assert_eq!(auth_error_status(AuthError::AlreadyExists), 409);
    assert_eq!(auth_error_status(AuthError::Unauthorized), 401);
    assert_eq!(auth_error_status(AuthError::InternalServerError), 500);
}

#[test]
fn persistence_errors_map_one_to_one() {
    assert_eq!(map_retrieval_error(DataRetrievalError::NotFound), ChannelError::NotFound);
    assert_eq!(
        map_retrieval_error(DataRetrievalError::InternalError),
        ChannelError::InternalServerError
    );
    assert_eq!(map_insertion_error(DataInsertionError::AlreadyExists), ChannelError::Conflict);
    assert_eq!(
        map_insertion_error(DataInsertionError::InternalError),
        ChannelError::InternalServerError
    );
    assert_eq!(map_set_error(DataSetError::InternalError), ChannelError::InternalServerError);
    assert_eq!(map_removal_error(DataRemovalError::InternalError), ChannelError::InternalServerError);
}

#[test]
fn hash_and_verify_agree() {
    assert!(verify_secret(42, hash_secret(42)));
    assert!(!verify_secret(43, hash_secret(42)));
    // the digest is not the secret itself
    assert_ne!(hash_secret(42), 42);
}

#[test]
fn apply_patch_keeps_id() {
    let c = Channel { id: 3, attributes: 5 };
    assert_eq!(apply_patch(c, ChannelPatch { attributes: Some(9) }), Channel { id: 3, attributes: 9 });
    assert_eq!(apply_patch(c, ChannelPatch { attributes: None }), c);
}

#[test]
fn write_actions_are_classified() {
    assert!(is_write_action(Action::PatchChannel));
    assert!(is_write_action(Action::RemoveChannel));
    assert!(is_write_action(Action::AddMember));
    assert!(!is_write_action(Action::GetChannel));
    assert!(!is_write_action(Action::GetMembers));
    assert!(!is_write_action(Action::GetMember));
}
