//! Data model: users, sessions, channels, members, and the error taxonomy,
//! together with the explicit persistence-error mapping table.

use vstd::prelude::*;

verus! {

/// Permission level of a member within a channel.
#[derive(Clone, Copy, Debug, PartialEq, Eq, Structural)]
pub enum UserRole {
    Admin,
    Member,
}

/// A registered account. `identifier` is unique across the store; the secret
/// is kept only as a digest.
#[derive(Clone, Copy, Debug, PartialEq, Eq, Structural)]
pub struct User {
    pub id: u64,
    pub identifier: u64,
    pub secret_digest: u64,
}

/// A login session. `token` is the opaque bearer credential, unique across
/// the store; the session resolves only while `now < expiry`.
#[derive(Clone, Copy, Debug, PartialEq, Eq, Structural)]
pub struct Session {
    pub token: u64,
    pub user_id: u64,
    pub issued_at: u64,
    pub expiry: u64,
}

/// A channel with its patchable attributes.
#[derive(Clone, Copy, Debug, PartialEq, Eq, Structural)]
pub struct Channel {
    pub id: u64,
    pub attributes: u64,
}

/// The binding of a user to a channel with a role, keyed by
/// `(channel_id, user_id)`.
#[derive(Clone, Copy, Debug, PartialEq, Eq, Structural)]
pub struct Member {
    pub channel_id: u64,
    pub user_id: u64,
    pub role: UserRole,
}

/// A draft for a new channel; the store mints the id.
#[derive(Clone, Copy, Debug, PartialEq, Eq, Structural)]
pub struct ChannelInsert {
    pub attributes: u64,
}

/// A partial update of a channel's attributes.
#[derive(Clone, Copy, Debug, PartialEq, Eq, Structural)]
pub struct ChannelPatch {
    pub attributes: Option<u64>,
}

pub open spec fn apply_patch_spec(c: Channel, p: ChannelPatch) -> Channel {
    Channel {
        id: c.id,
        attributes: match p.attributes {
            Some(a) => a,
            None => c.attributes,
        },
    }
}

/// Apply a partial update to a channel; the id never changes.
pub fn apply_patch(c: Channel, p: ChannelPatch) -> (r: Channel)
    ensures
        r == apply_patch_spec(c, p),
{
    match p.attributes {
        Some(a) => Channel { id: c.id, attributes: a },
        None => c,
    }
}

/// API-level error taxonomy for channel operations; each kind maps to one
/// fixed status code.
#[derive(Clone, Copy, Debug, PartialEq, Eq, Structural)]
pub enum ChannelError {
    NotFound,
    Unauthorized,
    Conflict,
    InternalServerError,
}

/// API-level error taxonomy for authentication operations.
#[derive(Clone, Copy, Debug, PartialEq, Eq, Structural)]
pub enum AuthError {
    InvalidCredentials,
    AlreadyExists,
    Unauthorized,
    InternalServerError,
}

/// Persistence-layer failure of a read.
#[derive(Clone, Copy, Debug, PartialEq, Eq, Structural)]
pub enum DataRetrievalError {
    NotFound,
    InternalError,
}

/// Persistence-layer failure of an insert.
#[derive(Clone, Copy, Debug, PartialEq, Eq, Structural)]
pub enum DataInsertionError {
    AlreadyExists,
    InternalError,
}

/// Persistence-layer failure of an update.
#[derive(Clone, Copy, Debug, PartialEq, Eq, Structural)]
pub enum DataSetError {
    InternalError,
}

/// Persistence-layer failure of a removal.
#[derive(Clone, Copy, Debug, PartialEq, Eq, Structural)]
pub enum DataRemovalError {
    InternalError,
}

pub open spec fn map_retrieval_error_spec(e: DataRetrievalError) -> ChannelError {
    match e {
        DataRetrievalError::NotFound => ChannelError::NotFound,
        DataRetrievalError::InternalError => ChannelError::InternalServerError,
    }
}

/// Mapping table: persistence read failures into the API taxonomy.
pub fn map_retrieval_error(e: DataRetrievalError) -> (r: ChannelError)
    ensures
        r == map_retrieval_error_spec(e),
{
    match e {
        DataRetrievalError::NotFound => ChannelError::NotFound,
        DataRetrievalError::InternalError => ChannelError::InternalServerError,
    }
}

pub open spec fn map_insertion_error_spec(e: DataInsertionError) -> ChannelError {
    match e {
        DataInsertionError::AlreadyExists => ChannelError::Conflict,
        DataInsertionError::InternalError => ChannelError::InternalServerError,
    }
}

/// Mapping table: persistence insert failures into the API taxonomy.
pub fn map_insertion_error(e: DataInsertionError) -> (r: ChannelError)
    ensures
        r == map_insertion_error_spec(e),
{
    match e {
        DataInsertionError::AlreadyExists => ChannelError::Conflict,
        DataInsertionError::InternalError => ChannelError::InternalServerError,
    }
}

pub open spec fn map_set_error_spec(e: DataSetError) -> ChannelError {
    match e {
        DataSetError::InternalError => ChannelError::InternalServerError,
    }
}

/// Mapping table: persistence update failures into the API taxonomy.
pub fn map_set_error(e: DataSetError) -> (r: ChannelError)
    ensures
        r == map_set_error_spec(e),
{
    match e {
        DataSetError::InternalError => ChannelError::InternalServerError,
    }
}

pub open spec fn map_removal_error_spec(e: DataRemovalError) -> ChannelError {
    match e {
        DataRemovalError::InternalError => ChannelError::InternalServerError,
    }
}

/// Mapping table: persistence removal failures into the API taxonomy.
pub fn map_removal_error(e: DataRemovalError) -> (r: ChannelError)
    ensures
        r == map_removal_error_spec(e),
{
    match e {
        DataRemovalError::InternalError => ChannelError::InternalServerError,
    }
}

pub open spec fn channel_error_status_spec(e: ChannelError) -> u16 {
    match e {
        ChannelError::NotFound => 404u16,
        ChannelError::Unauthorized => 401u16,
        ChannelError::Conflict => 409u16,
        ChannelError::InternalServerError => 500u16,
    }
}

/// The fixed HTTP status code of each channel error kind.
pub fn channel_error_status(e: ChannelError) -> (r: u16)
    ensures
        r == channel_error_status_spec(e),
{
    match e {
        ChannelError::NotFound => 404u16,
        ChannelError::Unauthorized => 401u16,
        ChannelError::Conflict => 409u16,
        ChannelError::InternalServerError => 500u16,
    }
}

pub open spec fn auth_error_status_spec(e: AuthError) -> u16 {
    match e {
        AuthError::InvalidCredentials => 401u16,
        AuthError::AlreadyExists => 409u16,
        AuthError::Unauthorized => 401u16,
        AuthError::InternalServerError => 500u16,
    }
}

/// The fixed HTTP status code of each authentication error kind.
pub fn auth_error_status(e: AuthError) -> (r: u16)
    ensures
        r == auth_error_status_spec(e),
{
    match e {
        AuthError::InvalidCredentials => 401u16,
        AuthError::AlreadyExists => 409u16,
        AuthError::Unauthorized => 401u16,
        AuthError::InternalServerError => 500u16,
    }
}

} // verus!
