//! Row types of the store, and their decoding from column values.
use vstd::prelude::*;
use crate::db::{SqlValue, StoreError};

verus! {

/// A dialog: id in the bot-API encoding, title, kind (`group`,
/// `supergroup`, `channel` or `dm`), public handle, access credential and
/// the excluded flag.
#[derive(Clone, Debug)]
pub struct ChatRow {
    pub chat_id: i64,
    pub title: String,
    pub chat_type: String,
    pub username: Option<String>,
    pub access_hash: Option<i64>,
    pub is_excluded: bool,
}

/// A stored message, keyed by (chat_id, message_id).
#[derive(Clone, Debug)]
pub struct MessageRow {
    pub message_id: i64,
    pub chat_id: i64,
    pub timestamp: i64,
    pub text_plain: String,
    pub text_stripped: String,
    pub link: Option<String>,
}

/// A message joined with its dialog's title.
#[derive(Clone, Debug)]
pub struct MessageWithChat {
    pub message_id: i64,
    pub chat_id: i64,
    pub timestamp: i64,
    pub text_plain: String,
    pub link: Option<String>,
    pub chat_title: String,
}

/// Per-dialog sync bookmark.
#[derive(Clone, Debug)]
pub struct SyncStateRow {
    pub chat_id: i64,
    pub last_message_id: i64,
    pub oldest_message_id: Option<i64>,
    pub initial_done: bool,
    pub last_sync_at: Option<String>,
}

/// Counts shown to the user.
#[derive(Clone, Copy, Debug)]
pub struct DbStats {
    pub chats: i64,
    pub messages: i64,
}

pub open spec fn int_at(row: Seq<SqlValue>, i: int) -> Option<i64> {
    if 0 <= i < row.len() {
        match row[i] {
            SqlValue::Int(v) => Some(v),
            _ => None,
        }
    } else {
        None
    }
}

pub open spec fn text_at(row: Seq<SqlValue>, i: int) -> Option<Seq<char>> {
    if 0 <= i < row.len() {
        match row[i] {
            SqlValue::Text(s) => Some(s@),
            _ => None,
        }
    } else {
        None
    }
}

pub open spec fn is_null_at(row: Seq<SqlValue>, i: int) -> bool {
    0 <= i < row.len() && row[i] is Null
}

pub fn int_col(row: &Vec<SqlValue>, i: usize) -> (r: Option<i64>)
    ensures
        r == int_at(row@, i as int),
{
    if i < row.len() {
        match &row[i] {
            SqlValue::Int(v) => Some(*v),
            _ => None,
        }
    } else {
        None
    }
}

pub fn text_col(row: &Vec<SqlValue>, i: usize) -> (r: Option<String>)
    ensures
        match r {
            Some(s) => text_at(row@, i as int) == Some(s@),
            None => text_at(row@, i as int) is None,
        },
{
    if i < row.len() {
        match &row[i] {
            SqlValue::Text(s) => Some(s.clone()),
            _ => None,
        }
    } else {
        None
    }
}

/// A nullable text column: `Ok(None)` for NULL, an error for other kinds.
pub fn opt_text_col(row: &Vec<SqlValue>, i: usize) -> (r: Result<Option<String>, StoreError>)
    ensures
        match r {
            Ok(Some(s)) => text_at(row@, i as int) == Some(s@),
            Ok(None) => is_null_at(row@, i as int),
            Err(_) => text_at(row@, i as int) is None && !is_null_at(row@, i as int),
        },
{
    if i < row.len() {
        match &row[i] {
            SqlValue::Text(s) => Ok(Some(s.clone())),
            SqlValue::Null => Ok(None),
            _ => Err(StoreError::BadRow),
        }
    } else {
        Err(StoreError::BadRow)
    }
}

/// A nullable integer column: `Ok(None)` for NULL, an error for other kinds.
pub fn opt_int_col(row: &Vec<SqlValue>, i: usize) -> (r: Result<Option<i64>, StoreError>)
    ensures
        match r {
            Ok(Some(v)) => int_at(row@, i as int) == Some(v),
            Ok(None) => is_null_at(row@, i as int),
            Err(_) => int_at(row@, i as int) is None && !is_null_at(row@, i as int),
        },
{
    if i < row.len() {
        match &row[i] {
            SqlValue::Int(v) => Ok(Some(*v)),
            SqlValue::Null => Ok(None),
            _ => Err(StoreError::BadRow),
        }
    } else {
        Err(StoreError::BadRow)
    }
}

/// Decodes `chat_id, title, chat_type, username, access_hash, is_excluded`.
pub fn decode_chat(row: &Vec<SqlValue>) -> (r: Result<ChatRow, StoreError>)
    ensures
        r is Ok <==> (int_at(row@, 0) is Some && text_at(row@, 1) is Some && text_at(row@, 2) is Some
            && (text_at(row@, 3) is Some || is_null_at(row@, 3))
            && (int_at(row@, 4) is Some || is_null_at(row@, 4)) && int_at(row@, 5) is Some),
        r matches Ok(c) ==> c.chat_id == int_at(row@, 0)->0 && c.title@ == text_at(row@, 1)->0
            && c.chat_type@ == text_at(row@, 2)->0 && c.is_excluded == (int_at(row@, 5)->0 != 0)
            && (c.access_hash == int_at(row@, 4))
            && (match c.username { Some(u) => text_at(row@, 3) == Some(u@), None => is_null_at(row@, 3) }),
{
    let chat_id = match int_col(row, 0) { Some(v) => v, None => return Err(StoreError::BadRow) };
    let title = match text_col(row, 1) { Some(v) => v, None => return Err(StoreError::BadRow) };
    let chat_type = match text_col(row, 2) { Some(v) => v, None => return Err(StoreError::BadRow) };
    let username = match opt_text_col(row, 3) { Ok(v) => v, Err(e) => return Err(e) };
    let access_hash = match opt_int_col(row, 4) { Ok(v) => v, Err(e) => return Err(e) };
    let excluded = match int_col(row, 5) { Some(v) => v, None => return Err(StoreError::BadRow) };
    Ok(ChatRow { chat_id, title, chat_type, username, access_hash, is_excluded: excluded != 0 })
}

/// Decodes `message_id, chat_id, timestamp, text_plain, text_stripped, link`.
pub fn decode_message(row: &Vec<SqlValue>) -> (r: Result<MessageRow, StoreError>)
    ensures
        r is Ok <==> (int_at(row@, 0) is Some && int_at(row@, 1) is Some && int_at(row@, 2) is Some
            && text_at(row@, 3) is Some && text_at(row@, 4) is Some
            && (text_at(row@, 5) is Some || is_null_at(row@, 5))),
        r matches Ok(m) ==> m.message_id == int_at(row@, 0)->0 && m.chat_id == int_at(row@, 1)->0
            && m.timestamp == int_at(row@, 2)->0 && m.text_plain@ == text_at(row@, 3)->0
            && m.text_stripped@ == text_at(row@, 4)->0
            && (match m.link { Some(l) => text_at(row@, 5) == Some(l@), None => is_null_at(row@, 5) }),
{
    let message_id = match int_col(row, 0) { Some(v) => v, None => return Err(StoreError::BadRow) };
    let chat_id = match int_col(row, 1) { Some(v) => v, None => return Err(StoreError::BadRow) };
    let timestamp = match int_col(row, 2) { Some(v) => v, None => return Err(StoreError::BadRow) };
    let text_plain = match text_col(row, 3) { Some(v) => v, None => return Err(StoreError::BadRow) };
    let text_stripped = match text_col(row, 4) { Some(v) => v, None => return Err(StoreError::BadRow) };
    let link = match opt_text_col(row, 5) { Ok(v) => v, Err(e) => return Err(e) };
    Ok(MessageRow { message_id, chat_id, timestamp, text_plain, text_stripped, link })
}

/// Decodes `message_id, chat_id, timestamp, text_plain, link, title`.
pub fn decode_hit(row: &Vec<SqlValue>) -> (r: Result<MessageWithChat, StoreError>)
    ensures
        r is Ok <==> (int_at(row@, 0) is Some && int_at(row@, 1) is Some && int_at(row@, 2) is Some
            && text_at(row@, 3) is Some && (text_at(row@, 4) is Some || is_null_at(row@, 4))
            && text_at(row@, 5) is Some),
        r matches Ok(m) ==> m.message_id == int_at(row@, 0)->0 && m.chat_id == int_at(row@, 1)->0
            && m.timestamp == int_at(row@, 2)->0 && m.text_plain@ == text_at(row@, 3)->0
            && m.chat_title@ == text_at(row@, 5)->0
            && (match m.link { Some(l) => text_at(row@, 4) == Some(l@), None => is_null_at(row@, 4) }),
{
    let message_id = match int_col(row, 0) { Some(v) => v, None => return Err(StoreError::BadRow) };
    let chat_id = match int_col(row, 1) { Some(v) => v, None => return Err(StoreError::BadRow) };
    let timestamp = match int_col(row, 2) { Some(v) => v, None => return Err(StoreError::BadRow) };
    let text_plain = match text_col(row, 3) { Some(v) => v, None => return Err(StoreError::BadRow) };
    let link = match opt_text_col(row, 4) { Ok(v) => v, Err(e) => return Err(e) };
    let chat_title = match text_col(row, 5) { Some(v) => v, None => return Err(StoreError::BadRow) };
    Ok(MessageWithChat { message_id, chat_id, timestamp, text_plain, link, chat_title })
}

/// Decodes `chat_id, last_message_id, oldest_message_id, initial_done, last_sync_at`.
pub fn decode_sync_state(row: &Vec<SqlValue>) -> (r: Result<SyncStateRow, StoreError>)
    ensures
        r is Ok <==> (int_at(row@, 0) is Some && int_at(row@, 1) is Some
            && (int_at(row@, 2) is Some || is_null_at(row@, 2)) && int_at(row@, 3) is Some
            && (text_at(row@, 4) is Some || is_null_at(row@, 4))),
        r matches Ok(s) ==> s.chat_id == int_at(row@, 0)->0 && s.last_message_id == int_at(row@, 1)->0
            && s.oldest_message_id == int_at(row@, 2) && s.initial_done == (int_at(row@, 3)->0 != 0)
            && (match s.last_sync_at { Some(t) => text_at(row@, 4) == Some(t@), None => is_null_at(row@, 4) }),
{
    let chat_id = match int_col(row, 0) { Some(v) => v, None => return Err(StoreError::BadRow) };
    let last_message_id = match int_col(row, 1) { Some(v) => v, None => return Err(StoreError::BadRow) };
    let oldest_message_id = match opt_int_col(row, 2) { Ok(v) => v, Err(e) => return Err(e) };
    let done = match int_col(row, 3) { Some(v) => v, None => return Err(StoreError::BadRow) };
    let last_sync_at = match opt_text_col(row, 4) { Ok(v) => v, Err(e) => return Err(e) };
    Ok(SyncStateRow { chat_id, last_message_id, oldest_message_id, initial_done: done != 0, last_sync_at })
}

} // verus!
