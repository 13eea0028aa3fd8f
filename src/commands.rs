//! The logic behind the user-facing commands: API credentials kept in the
//! app metadata, the authenticated flag, sign-in responses and statistics.
use vstd::prelude::*;
use crate::collector::{authenticated_flag, CollectorError};
use crate::db::StoreError;
use crate::link::{int_dec, push_signed_decimal};
use crate::rows::DbStats;
use crate::store::Store;
use crate::text::{parse_in_range, parse_int_in};

verus! {

/// Metadata key of the client's API id.
pub const API_ID_KEY: &'static str = "tg_api_id";
/// Metadata key of the client's API hash.
pub const API_HASH_KEY: &'static str = "tg_api_hash";
/// Metadata key of the flag set after a completed login.
pub const AUTHENTICATED_KEY: &'static str = "tg_authenticated";

#[derive(Clone, Debug)]
pub struct ApiCredentials {
    pub api_id: i32,
    pub api_hash: String,
}

#[derive(Clone, Copy, Debug)]
pub struct ConnectResult {
    pub authorized: bool,
}

#[derive(Clone, Debug)]
pub struct SignInResponse {
    pub success: bool,
    pub requires_2fa: bool,
    pub hint: Option<String>,
}

/// How a submitted login code ended.
#[derive(Clone, Debug)]
pub enum SignInResult {
    Success,
    /// A second factor is needed; the hint is shown to the user.
    TwoFactorRequired { hint: String },
}

/// Failures of the commands.
#[derive(Debug)]
pub enum CommandError {
    Store(StoreError),
    Collector(CollectorError),
    /// No API credentials have been saved.
    NotConfigured,
    /// The saved API id is not a 32-bit integer.
    InvalidApiId,
    NotConnected,
    /// No login token: a code must be requested first.
    NoLoginToken,
    /// No password token: the code must be submitted first.
    NoPasswordToken,
    /// A remote call exceeded its deadline.
    Timeout,
}

pub open spec fn opt_seq(o: Option<String>) -> Option<Seq<char>> {
    match o {
        Some(s) => Some(s@),
        None => None,
    }
}

/// Credentials from the two stored values: none unless both are stored; an
/// id that does not parse as a 32-bit integer is an error.
pub fn api_credentials_from(api_id: Option<String>, api_hash: Option<String>) -> (r: Result<Option<ApiCredentials>, CommandError>)
    ensures
        (api_id is None || api_hash is None) ==> (r matches Ok(None)),
        (api_id is Some && api_hash is Some) ==> match parse_in_range(api_id->0@, i32::MIN as int, i32::MAX as int) {
            Some(v) => (r matches Ok(Some(c)) && c.api_id as int == v && c.api_hash@ == api_hash->0@),
            None => r matches Err(CommandError::InvalidApiId),
        },
{
    match (api_id, api_hash) {
        (Some(id), Some(hash)) => match parse_int_in(id.as_str(), i32::MIN as i64, i32::MAX as i64) {
            Some(v) => Ok(Some(ApiCredentials { api_id: v as i32, api_hash: hash })),
            None => Err(CommandError::InvalidApiId),
        },
        _ => Ok(None),
    }
}

/// Reads the saved credentials.
pub fn get_api_credentials(store: &Store) -> (r: Result<Option<ApiCredentials>, CommandError>) {
    let id = match store.get_meta(API_ID_KEY) {
        Ok(v) => v,
        Err(e) => return Err(CommandError::Store(e)),
    };
    let hash = match store.get_meta(API_HASH_KEY) {
        Ok(v) => v,
        Err(e) => return Err(CommandError::Store(e)),
    };
    api_credentials_from(id, hash)
}

/// The stored form of an API id: its decimal notation.
pub fn api_id_text(api_id: i32) -> (r: String)
    ensures
        r@ == int_dec(api_id as int),
{
    let mut s = String::new();
    push_signed_decimal(&mut s, api_id as i64);
    s
}

/// Saves the credentials.
pub fn save_api_credentials(store: &Store, api_id: i32, api_hash: &str) -> (r: Result<(), StoreError>) {
    let id = api_id_text(api_id);
    match store.set_meta(API_ID_KEY, id.as_str()) {
        Ok(()) => {},
        Err(e) => return Err(e),
    }
    store.set_meta(API_HASH_KEY, api_hash)
}

/// The API id needed to connect.
pub fn configured_api_id(stored: Option<String>) -> (r: Result<i32, CommandError>)
    ensures
        stored is None ==> (r matches Err(CommandError::NotConfigured)),
        stored matches Some(s) ==> match parse_in_range(s@, i32::MIN as int, i32::MAX as int) {
            Some(v) => (r matches Ok(x) && x as int == v),
            None => r matches Err(CommandError::InvalidApiId),
        },
{
    match stored {
        None => Err(CommandError::NotConfigured),
        Some(s) => match parse_int_in(s.as_str(), i32::MIN as i64, i32::MAX as i64) {
            Some(v) => Ok(v as i32),
            None => Err(CommandError::InvalidApiId),
        },
    }
}

/// Whether a completed login was recorded.
pub fn is_authenticated(store: &Store) -> (r: Result<bool, StoreError>) {
    match store.get_meta(AUTHENTICATED_KEY) {
        Ok(v) => Ok(authenticated_flag(&v)),
        Err(e) => Err(e),
    }
}

/// Records a completed login.
pub fn mark_authenticated(store: &Store) -> (r: Result<(), StoreError>) {
    store.set_meta(AUTHENTICATED_KEY, "1")
}

/// Forgets the login, e.g. when the saved session turned out stale.
pub fn clear_authenticated(store: &Store) -> (r: Result<(), StoreError>) {
    store.delete_meta(AUTHENTICATED_KEY)
}

/// The answer to a submitted login code.
pub fn sign_in_response(status: &SignInResult) -> (r: SignInResponse)
    ensures
        status is Success ==> r.success && !r.requires_2fa && r.hint is None,
        status is TwoFactorRequired ==> (!r.success && r.requires_2fa
            && r.hint is Some && r.hint->0@ == status->hint@),
{
    match status {
        SignInResult::Success => SignInResponse { success: true, requires_2fa: false, hint: None },
        SignInResult::TwoFactorRequired { hint } => SignInResponse { success: false, requires_2fa: true, hint: Some(hint.clone()) },
    }
}

/// The password hint shown to the user: the one given, or `none`.
pub fn password_hint(hint: Option<&str>) -> (r: String)
    ensures
        r@ == match hint { Some(h) => h@, None => "none"@ },
{
    match hint {
        Some(h) => String::from_str(h),
        None => String::from_str("none"),
    }
}

/// Dialog and message counts.
pub fn get_db_stats(store: &Store) -> (r: Result<DbStats, StoreError>) {
    let chats = match store.chat_count() {
        Ok(v) => v,
        Err(e) => return Err(e),
    };
    let messages = match store.message_count() {
        Ok(v) => v,
        Err(e) => return Err(e),
    };
    Ok(DbStats { chats, messages })
}

} // verus!
