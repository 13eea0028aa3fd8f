//! The persistent store: schema migrations and typed access to dialogs,
//! messages, sync bookmarks and app metadata, and the search entry point.
use vstd::prelude::*;
use vstd::utf8::encode_utf8;
use crate::db::{execute, execute_batch, open_connection, query_rows, SqlArg, SqlValue, StoreError};
use crate::highlight::{lowered_terms, merge_of, spans_of};
use crate::rows::{
    decode_chat, decode_hit, decode_message, decode_sync_state, ChatRow, MessageRow, MessageWithChat,
    SyncStateRow,
};
use crate::search::{
    cursor_view, finish_page, hits_from_rows, hits_valid, item_key, item_keys, item_of, key_of, keys,
    keyset_query, plan_search, scope_chat, scope_cursor, scoped_cursor, sorts_before, strictly_ordered,
    Cursor, SearchResult, SearchScope, DEFAULT_PAGE_SIZE,
};
use crate::link::str_eq;
use crate::text::{lower_of, parse_in_range, parse_int_in, split_whitespace, strip_whitespace, strip_ws, words};

verus! {

/// Owner of the database connection.
pub struct Store {
    conn: sqlite::Connection,
}

const CONFIGURE: &'static str = "PRAGMA journal_mode = WAL; PRAGMA synchronous = NORMAL; PRAGMA cache_size = -64000; PRAGMA foreign_keys = ON;";

pub const BASE_TABLES: &'static str = "CREATE TABLE IF NOT EXISTS chats (chat_id INTEGER PRIMARY KEY, title TEXT NOT NULL, chat_type TEXT NOT NULL CHECK (chat_type IN ('group', 'supergroup', 'channel', 'dm')), username TEXT, access_hash INTEGER, is_excluded INTEGER NOT NULL DEFAULT 0, created_at TEXT NOT NULL DEFAULT (datetime('now')));
CREATE TABLE IF NOT EXISTS messages (message_id INTEGER NOT NULL, chat_id INTEGER NOT NULL, timestamp INTEGER NOT NULL, text_plain TEXT NOT NULL, text_stripped TEXT NOT NULL, link TEXT, PRIMARY KEY (chat_id, message_id), FOREIGN KEY (chat_id) REFERENCES chats(chat_id));
CREATE INDEX IF NOT EXISTS idx_messages_timestamp ON messages (timestamp DESC);
CREATE INDEX IF NOT EXISTS idx_messages_chat_timestamp ON messages (chat_id, timestamp DESC);
CREATE TABLE IF NOT EXISTS sync_state (chat_id INTEGER PRIMARY KEY, last_message_id INTEGER NOT NULL DEFAULT 0, oldest_message_id INTEGER, initial_done INTEGER NOT NULL DEFAULT 0, last_sync_at TEXT, FOREIGN KEY (chat_id) REFERENCES chats(chat_id));
CREATE TABLE IF NOT EXISTS app_meta (key TEXT PRIMARY KEY, value TEXT NOT NULL);";

pub const STEP_FTS: &'static str = "CREATE VIRTUAL TABLE IF NOT EXISTS messages_fts USING fts5(text_plain, content='messages', tokenize='trigram case_sensitive 0');
INSERT INTO messages_fts(messages_fts) VALUES('rebuild');
DROP TABLE IF EXISTS postings;
DROP TABLE IF EXISTS index_terms;
INSERT OR REPLACE INTO app_meta (key, value) VALUES ('schema_version', '2');";

pub const STEP_DM: &'static str = "PRAGMA foreign_keys = OFF;
DROP TABLE IF EXISTS chats_new;
CREATE TABLE chats_new (chat_id INTEGER PRIMARY KEY, title TEXT NOT NULL, chat_type TEXT NOT NULL CHECK (chat_type IN ('group', 'supergroup', 'channel', 'dm')), username TEXT, access_hash INTEGER, is_excluded INTEGER NOT NULL DEFAULT 0, created_at TEXT NOT NULL DEFAULT (datetime('now')));
INSERT INTO chats_new (chat_id, title, chat_type, username, access_hash, is_excluded, created_at) SELECT chat_id, title, chat_type, username, access_hash, is_excluded, created_at FROM chats;
DROP TABLE chats;
ALTER TABLE chats_new RENAME TO chats;
INSERT OR REPLACE INTO app_meta (key, value) VALUES ('schema_version', '3');
PRAGMA foreign_keys = ON;";

/// A message's stripped text is its text without whitespace.
pub open spec fn consistent(m: MessageRow) -> bool {
    m.text_stripped@ == strip_ws(m.text_plain@)
}

pub open spec fn all_consistent(ms: Seq<MessageRow>) -> bool {
    forall|i: int| 0 <= i < ms.len() ==> consistent(#[trigger] ms[i])
}

/// The newest schema version.
pub const LATEST_SCHEMA: i64 = 3;

/// The stored schema version: the stored text as an integer, 1 when it is
/// missing or unreadable.
pub open spec fn version_of(stored: Option<Seq<char>>) -> int {
    match stored {
        Some(s) => match parse_in_range(s, i64::MIN as int, i64::MAX as int) {
            Some(v) => v,
            None => 1,
        },
        None => 1,
    }
}

pub fn schema_version_of(stored: &Option<String>) -> (r: i64)
    ensures
        r as int == version_of(match stored { Some(s) => Some(s@), None => None }),
{
    match stored {
        Some(s) => match parse_int_in(s.as_str(), i64::MIN, i64::MAX) {
            Some(v) => v,
            None => 1,
        },
        None => 1,
    }
}

/// The migration steps still to run from version `v`, in order.
pub open spec fn pending_spec(v: int) -> Seq<int> {
    if v < 2 {
        seq![2int, 3int]
    } else if v < 3 {
        seq![3int]
    } else {
        Seq::empty()
    }
}

/// The version once the pending steps have run.
pub open spec fn migrated_version(v: int) -> int {
    if v < LATEST_SCHEMA { LATEST_SCHEMA as int } else { v }
}

/// The script of each pending step, in order: step 2 builds the trigram
/// index and drops the old index tables, step 3 rebuilds the dialog table
/// so that it admits direct messages.
pub open spec fn migration_plan(v: int) -> Seq<Seq<char>> {
    pending_spec(v).map_values(|step: int| if step == 2 { STEP_FTS@ } else { STEP_DM@ })
}

pub fn migration_scripts(version: i64) -> (r: Vec<&'static str>)
    ensures
        r@.map_values(|s: &str| s@) == migration_plan(version as int),
{
    let mut r: Vec<&'static str> = Vec::new();
    if version < 2 {
        r.push(STEP_FTS);
    }
    if version < 3 {
        r.push(STEP_DM);
    }
    assert(r@.map_values(|s: &str| s@) =~= migration_plan(version as int));
    r
}

/// Migrating is idempotent: from the version a run leaves, no step is
/// pending, so a second run changes neither the schema nor the version.
pub proof fn lemma_migrations_idempotent(v: int)
    ensures
        pending_spec(migrated_version(v)).len() == 0,
        migrated_version(migrated_version(v)) == migrated_version(v),
        migrated_version(v) >= v,
        migration_plan(migrated_version(v)).len() == 0,
{
}

fn first_text(rows: &Vec<Vec<SqlValue>>) -> (r: Option<String>) {
    if rows.len() == 0 || rows[0].len() == 0 {
        return None;
    }
    match &rows[0][0] {
        SqlValue::Text(s) => Some(s.clone()),
        _ => None,
    }
}

fn first_int(rows: &Vec<Vec<SqlValue>>) -> (r: Result<i64, StoreError>)
    ensures
        r matches Err(e) ==> e is BadRow,
{
    if rows.len() == 0 || rows[0].len() == 0 {
        return Err(StoreError::BadRow);
    }
    match &rows[0][0] {
        SqlValue::Int(v) => Ok(*v),
        _ => Err(StoreError::BadRow),
    }
}

fn read_schema_version(conn: &sqlite::Connection) -> (r: i64) {
    let rows = match query_rows(conn, "SELECT value FROM app_meta WHERE key = 'schema_version'", &Vec::new()) {
        Ok(rows) => rows,
        Err(_) => return 1,
    };
    schema_version_of(&first_text(&rows))
}

/// Creates the base tables (if missing), then runs the scripts of
/// `migration_scripts` for the stored schema version; each script records
/// its version when it completes.
pub fn run_migrations(conn: &sqlite::Connection) -> (r: Result<(), StoreError>)
    ensures
        r matches Err(e) ==> e is Sqlite,
{
    match execute_batch(conn, BASE_TABLES) {
        Ok(()) => {},
        Err(e) => return Err(StoreError::Sqlite(e)),
    }
    let steps = migration_scripts(read_schema_version(conn));
    let mut i: usize = 0;
    while i < steps.len()
        invariant
            i <= steps@.len(),
        decreases steps@.len() - i,
    {
        match execute_batch(conn, steps[i]) {
            Ok(()) => {},
            Err(e) => return Err(StoreError::Sqlite(e)),
        }
        i = i + 1;
    }
    Ok(())
}

pub open spec fn opt_text_spec(v: Option<String>) -> SqlArg {
    match v {
        Some(s) => SqlArg::Text(s),
        None => SqlArg::Null,
    }
}

pub open spec fn opt_int_spec(v: Option<i64>) -> SqlArg {
    match v {
        Some(x) => SqlArg::Int(x),
        None => SqlArg::Null,
    }
}

pub open spec fn flag_spec(b: bool) -> SqlArg {
    SqlArg::Int(if b { 1 } else { 0 })
}

fn opt_text_arg(v: &Option<String>) -> (r: SqlArg)
    ensures
        r == opt_text_spec(*v),
{
    match v {
        Some(s) => SqlArg::Text(s.clone()),
        None => SqlArg::Null,
    }
}

fn opt_int_arg(v: Option<i64>) -> (r: SqlArg)
    ensures
        r == opt_int_spec(v),
{
    match v {
        Some(x) => SqlArg::Int(x),
        None => SqlArg::Null,
    }
}

fn flag_arg(b: bool) -> (r: SqlArg)
    ensures
        r == flag_spec(b),
{
    SqlArg::Int(if b { 1 } else { 0 })
}

pub const INSERT_MESSAGE: &'static str = "INSERT OR IGNORE INTO messages (message_id, chat_id, timestamp, text_plain, text_stripped, link) VALUES (?, ?, ?, ?, ?, ?)";
pub const INSERT_INDEX_ROW: &'static str = "INSERT INTO messages_fts(rowid, text_plain) VALUES (?, ?)";
pub const UPSERT_CHAT: &'static str = "INSERT INTO chats (chat_id, title, chat_type, username, access_hash, is_excluded) VALUES (?, ?, ?, ?, ?, ?) ON CONFLICT(chat_id) DO UPDATE SET title = excluded.title, chat_type = excluded.chat_type, username = excluded.username, access_hash = excluded.access_hash";
pub const UPSERT_SYNC_STATE: &'static str = "INSERT INTO sync_state (chat_id, last_message_id, oldest_message_id, initial_done, last_sync_at) VALUES (?, ?, ?, ?, ?) ON CONFLICT(chat_id) DO UPDATE SET last_message_id = excluded.last_message_id, oldest_message_id = excluded.oldest_message_id, initial_done = excluded.initial_done, last_sync_at = excluded.last_sync_at";

/// Arguments of `INSERT_MESSAGE`, in column order.
pub fn message_insert_args(msg: &MessageRow) -> (r: Vec<SqlArg>)
    ensures
        r@ == seq![SqlArg::Int(msg.message_id), SqlArg::Int(msg.chat_id), SqlArg::Int(msg.timestamp),
            SqlArg::Text(msg.text_plain), SqlArg::Text(msg.text_stripped), opt_text_spec(msg.link)],
{
    let r = vec![
        SqlArg::Int(msg.message_id),
        SqlArg::Int(msg.chat_id),
        SqlArg::Int(msg.timestamp),
        SqlArg::Text(msg.text_plain.clone()),
        SqlArg::Text(msg.text_stripped.clone()),
        opt_text_arg(&msg.link),
    ];
    assert(r@ =~= seq![SqlArg::Int(msg.message_id), SqlArg::Int(msg.chat_id), SqlArg::Int(msg.timestamp),
        SqlArg::Text(msg.text_plain), SqlArg::Text(msg.text_stripped), opt_text_spec(msg.link)]);
    r
}

/// Arguments of `INSERT_INDEX_ROW`: the new message's row id and its text.
pub fn index_row_args(rowid: i64, msg: &MessageRow) -> (r: Vec<SqlArg>)
    ensures
        r@ == seq![SqlArg::Int(rowid), SqlArg::Text(msg.text_plain)],
{
    let r = vec![SqlArg::Int(rowid), SqlArg::Text(msg.text_plain.clone())];
    assert(r@ =~= seq![SqlArg::Int(rowid), SqlArg::Text(msg.text_plain)]);
    r
}

/// Arguments of `UPSERT_CHAT`, in column order.
pub fn chat_args(chat: &ChatRow) -> (r: Vec<SqlArg>)
    ensures
        r@ == seq![SqlArg::Int(chat.chat_id), SqlArg::Text(chat.title), SqlArg::Text(chat.chat_type),
            opt_text_spec(chat.username), opt_int_spec(chat.access_hash), flag_spec(chat.is_excluded)],
{
    let r = vec![
        SqlArg::Int(chat.chat_id),
        SqlArg::Text(chat.title.clone()),
        SqlArg::Text(chat.chat_type.clone()),
        opt_text_arg(&chat.username),
        opt_int_arg(chat.access_hash),
        flag_arg(chat.is_excluded),
    ];
    assert(r@ =~= seq![SqlArg::Int(chat.chat_id), SqlArg::Text(chat.title), SqlArg::Text(chat.chat_type),
        opt_text_spec(chat.username), opt_int_spec(chat.access_hash), flag_spec(chat.is_excluded)]);
    r
}

/// Arguments of `UPSERT_SYNC_STATE`, in column order.
pub fn sync_state_args(state: &SyncStateRow) -> (r: Vec<SqlArg>)
    ensures
        r@ == seq![SqlArg::Int(state.chat_id), SqlArg::Int(state.last_message_id), opt_int_spec(state.oldest_message_id),
            flag_spec(state.initial_done), opt_text_spec(state.last_sync_at)],
{
    let r = vec![
        SqlArg::Int(state.chat_id),
        SqlArg::Int(state.last_message_id),
        opt_int_arg(state.oldest_message_id),
        flag_arg(state.initial_done),
        opt_text_arg(&state.last_sync_at),
    ];
    assert(r@ =~= seq![SqlArg::Int(state.chat_id), SqlArg::Int(state.last_message_id), opt_int_spec(state.oldest_message_id),
        flag_spec(state.initial_done), opt_text_spec(state.last_sync_at)]);
    r
}

fn count_of(conn: &sqlite::Connection, sql: &str) -> (r: Result<i64, StoreError>)
    ensures
        r matches Err(e) ==> e is Sqlite || e is BadRow,
{
    match query_rows(conn, sql, &Vec::new()) {
        Ok(rows) => first_int(&rows),
        Err(e) => Err(e),
    }
}

impl Store {
    fn configure(conn: &sqlite::Connection) -> (r: Result<(), StoreError>) {
        match execute_batch(conn, CONFIGURE) {
            Ok(()) => Ok(()),
            Err(e) => Err(StoreError::Sqlite(e)),
        }
    }

    fn from_connection(conn: sqlite::Connection) -> (r: Result<Store, StoreError>) {
        match Store::configure(&conn) {
            Ok(()) => {},
            Err(e) => return Err(e),
        }
        match run_migrations(&conn) {
            Ok(()) => Ok(Store { conn }),
            Err(e) => Err(e),
        }
    }

    /// Opens (creating if needed) the database file at `path`, configures it
    /// and brings its schema up to date. The parent directory must exist.
    pub fn open(path: &str) -> (r: Result<Store, StoreError>) {
        match open_connection(path) {
            Ok(conn) => Store::from_connection(conn),
            Err(e) => Err(StoreError::Sqlite(e)),
        }
    }

    /// A private in-memory database with the full schema.
    pub fn open_in_memory() -> (r: Result<Store, StoreError>) {
        match open_connection(":memory:") {
            Ok(conn) => Store::from_connection(conn),
            Err(e) => Err(StoreError::Sqlite(e)),
        }
    }

    pub fn conn(&self) -> (r: &sqlite::Connection) {
        &self.conn
    }

    // ----- app metadata -----

    pub fn get_meta(&self, key: &str) -> (r: Result<Option<String>, StoreError>) {
        let args = vec![SqlArg::Text(String::from_str(key))];
        match query_rows(&self.conn, "SELECT value FROM app_meta WHERE key = ?", &args) {
            Ok(rows) => Ok(first_text(&rows)),
            Err(e) => Err(e),
        }
    }

    pub fn set_meta(&self, key: &str, value: &str) -> (r: Result<(), StoreError>) {
        let args = vec![SqlArg::Text(String::from_str(key)), SqlArg::Text(String::from_str(value))];
        execute(&self.conn, "INSERT INTO app_meta (key, value) VALUES (?, ?) ON CONFLICT(key) DO UPDATE SET value = excluded.value", &args)
    }

    pub fn delete_meta(&self, key: &str) -> (r: Result<(), StoreError>) {
        let args = vec![SqlArg::Text(String::from_str(key))];
        execute(&self.conn, "DELETE FROM app_meta WHERE key = ?", &args)
    }

    // ----- dialogs -----

    /// Inserts the dialog, or updates title, kind, handle and credential of
    /// an existing one (its excluded flag is kept).
    pub fn upsert_chat(&self, chat: &ChatRow) -> (r: Result<(), StoreError>) {
        execute(&self.conn, UPSERT_CHAT, &chat_args(chat))
    }

    fn chats_of(&self, sql: &str, args: &Vec<SqlArg>) -> (r: Result<Vec<ChatRow>, StoreError>) {
        let rows = match query_rows(&self.conn, sql, args) {
            Ok(rows) => rows,
            Err(e) => return Err(e),
        };
        let mut out: Vec<ChatRow> = Vec::new();
        let mut i: usize = 0;
        while i < rows.len()
            invariant
                i <= rows@.len(),
            decreases rows@.len() - i,
        {
            match decode_chat(&rows[i]) {
                Ok(c) => out.push(c),
                Err(e) => return Err(e),
            }
            i = i + 1;
        }
        Ok(out)
    }

    /// The dialog with this id, if stored.
    pub fn get_chat(&self, chat_id: i64) -> (r: Result<Option<ChatRow>, StoreError>)
        ensures
            r matches Ok(Some(c)) ==> c.chat_id == chat_id,
    {
        let mut found = match self.chats_of("SELECT chat_id, title, chat_type, username, access_hash, is_excluded FROM chats WHERE chat_id = ?", &vec![SqlArg::Int(chat_id)]) {
            Ok(v) => v,
            Err(e) => return Err(e),
        };
        if found.len() == 0 {
            Ok(None)
        } else {
            let c = found.swap_remove(0);
            if c.chat_id != chat_id {
                return Err(StoreError::BadRow);
            }
            Ok(Some(c))
        }
    }

    /// Dialogs that are not excluded, ordered by title.
    pub fn get_active_chats(&self) -> (r: Result<Vec<ChatRow>, StoreError>)
        ensures
            r matches Ok(v) ==> forall|i: int| 0 <= i < v@.len() ==> !(#[trigger] v@[i]).is_excluded,
    {
        let found = match self.chats_of("SELECT chat_id, title, chat_type, username, access_hash, is_excluded FROM chats WHERE is_excluded = 0 ORDER BY title", &Vec::new()) {
            Ok(v) => v,
            Err(e) => return Err(e),
        };
        let mut i: usize = 0;
        while i < found.len()
            invariant
                i <= found@.len(),
                forall|j: int| 0 <= j < i ==> !(#[trigger] found@[j]).is_excluded,
            decreases found@.len() - i,
        {
            if found[i].is_excluded {
                return Err(StoreError::BadRow);
            }
            i = i + 1;
        }
        Ok(found)
    }

    /// Every dialog, ordered by title.
    pub fn get_all_chats(&self) -> (r: Result<Vec<ChatRow>, StoreError>) {
        self.chats_of("SELECT chat_id, title, chat_type, username, access_hash, is_excluded FROM chats ORDER BY title", &Vec::new())
    }

    pub fn set_chat_excluded(&self, chat_id: i64, excluded: bool) -> (r: Result<(), StoreError>) {
        execute(&self.conn, "UPDATE chats SET is_excluded = ? WHERE chat_id = ?", &vec![flag_arg(excluded), SqlArg::Int(chat_id)])
    }

    pub fn chat_count(&self) -> (r: Result<i64, StoreError>) {
        count_of(&self.conn, "SELECT COUNT(*) FROM chats")
    }

    // ----- messages -----

    fn insert_one(&self, msg: &MessageRow) -> (r: Result<(), StoreError>)
        ensures
            r matches Err(e) ==> e is Sqlite || e is BadRow,
    {
        match execute(&self.conn, INSERT_MESSAGE, &message_insert_args(msg)) {
            Ok(()) => {},
            Err(e) => return Err(e),
        }
        let changes = match count_of(&self.conn, "SELECT changes()") {
            Ok(v) => v,
            Err(e) => return Err(e),
        };
        if changes > 0 {
            let rowid = match count_of(&self.conn, "SELECT last_insert_rowid()") {
                Ok(v) => v,
                Err(e) => return Err(e),
            };
            execute(&self.conn, INSERT_INDEX_ROW, &index_row_args(rowid, msg))
        } else {
            Ok(())
        }
    }

    /// Inserts the messages in one transaction. A message whose key is
    /// already stored is skipped; each new one gets its index row. On
    /// failure the transaction is rolled back. A batch holding a message
    /// whose stripped text is not its text without whitespace is refused
    /// before anything is written.
    pub fn insert_messages_batch(&self, messages: &[MessageRow]) -> (r: Result<(), StoreError>)
        ensures
            (r matches Err(StoreError::InconsistentMessage)) <==> !all_consistent(messages@),
    {
        let mut k: usize = 0;
        while k < messages.len()
            invariant
                k <= messages@.len(),
                forall|j: int| 0 <= j < k ==> consistent(#[trigger] messages@[j]),
            decreases messages@.len() - k,
        {
            let stripped = strip_whitespace(messages[k].text_plain.as_str());
            if !str_eq(stripped.as_str(), messages[k].text_stripped.as_str()) {
                return Err(StoreError::InconsistentMessage);
            }
            k = k + 1;
        }
        match execute_batch(&self.conn, "BEGIN") {
            Ok(()) => {},
            Err(e) => return Err(StoreError::Sqlite(e)),
        }
        let mut i: usize = 0;
        while i < messages.len()
            invariant
                i <= messages@.len(),
                all_consistent(messages@),
            decreases messages@.len() - i,
        {
            match self.insert_one(&messages[i]) {
                Ok(()) => {},
                Err(e) => {
                    let _ = execute_batch(&self.conn, "ROLLBACK");
                    return Err(e);
                },
            }
            i = i + 1;
        }
        match execute_batch(&self.conn, "COMMIT") {
            Ok(()) => Ok(()),
            Err(e) => Err(StoreError::Sqlite(e)),
        }
    }

    /// The message with this key, if stored.
    pub fn get_message(&self, chat_id: i64, message_id: i64) -> (r: Result<Option<MessageRow>, StoreError>)
        ensures
            r matches Ok(Some(m)) ==> m.chat_id == chat_id && m.message_id == message_id,
    {
        let rows = match query_rows(&self.conn, "SELECT message_id, chat_id, timestamp, text_plain, text_stripped, link FROM messages WHERE chat_id = ? AND message_id = ?", &vec![SqlArg::Int(chat_id), SqlArg::Int(message_id)]) {
            Ok(rows) => rows,
            Err(e) => return Err(e),
        };
        if rows.len() == 0 {
            return Ok(None);
        }
        match decode_message(&rows[0]) {
            Ok(m) => if m.chat_id == chat_id && m.message_id == message_id { Ok(Some(m)) } else { Err(StoreError::BadRow) },
            Err(e) => Err(e),
        }
    }

    pub fn message_count(&self) -> (r: Result<i64, StoreError>) {
        count_of(&self.conn, "SELECT COUNT(*) FROM messages")
    }

    /// Rows in the full-text index.
    pub fn indexed_count(&self) -> (r: Result<i64, StoreError>) {
        count_of(&self.conn, "SELECT COUNT(*) FROM messages_fts")
    }

    /// Runs a keyset query and checks its rows (see `hits_from_rows`).
    fn search_rows(&self, fts: bool, matchers: &Vec<String>, chat: Option<i64>, cursor: Option<&Cursor>, limit: usize) -> (r: Result<Vec<MessageWithChat>, StoreError>)
        requires
            limit <= i64::MAX,
        ensures
            r matches Ok(v) ==> hits_valid(v@, chat, scoped_cursor(cursor_view(cursor), chat), limit as nat),
    {
        let c = scope_cursor(cursor, chat);
        let (sql, args) = keyset_query(fts, matchers, chat, c, limit as i64);
        let rows = match query_rows(&self.conn, sql.as_str(), &args) {
            Ok(rows) => rows,
            Err(e) => return Err(e),
        };
        hits_from_rows(&rows, chat, c, limit)
    }

    /// Trigram-index search over the non-excluded dialogs, newest first.
    pub fn search_messages_fts(&self, fts_query: &str, cursor: Option<&Cursor>, limit: usize) -> (r: Result<Vec<MessageWithChat>, StoreError>)
        requires
            limit <= i64::MAX,
        ensures
            r matches Ok(v) ==> hits_valid(v@, None, cursor_view(cursor), limit as nat),
    {
        self.search_rows(true, &vec![String::from_str(fts_query)], None, cursor, limit)
    }

    /// Trigram-index search within one dialog.
    pub fn search_messages_fts_in_chat(&self, fts_query: &str, chat_id: i64, cursor: Option<&Cursor>, limit: usize) -> (r: Result<Vec<MessageWithChat>, StoreError>)
        requires
            limit <= i64::MAX,
        ensures
            r matches Ok(v) ==> hits_valid(v@, Some(chat_id), scoped_cursor(cursor_view(cursor), Some(chat_id)), limit as nat),
    {
        self.search_rows(true, &vec![String::from_str(fts_query)], Some(chat_id), cursor, limit)
    }

    /// Substring scan (every term must occur) over the non-excluded dialogs.
    pub fn search_messages_like(&self, terms: &Vec<String>, cursor: Option<&Cursor>, limit: usize) -> (r: Result<Vec<MessageWithChat>, StoreError>)
        requires
            limit <= i64::MAX,
        ensures
            r matches Ok(v) ==> hits_valid(v@, None, cursor_view(cursor), limit as nat),
            terms@.len() == 0 ==> (r matches Ok(v) && v@.len() == 0),
    {
        if terms.len() == 0 {
            return Ok(Vec::new());
        }
        self.search_rows(false, terms, None, cursor, limit)
    }

    /// Substring scan within one dialog.
    pub fn search_messages_like_in_chat(&self, terms: &Vec<String>, chat_id: i64, cursor: Option<&Cursor>, limit: usize) -> (r: Result<Vec<MessageWithChat>, StoreError>)
        requires
            limit <= i64::MAX,
        ensures
            r matches Ok(v) ==> hits_valid(v@, Some(chat_id), scoped_cursor(cursor_view(cursor), Some(chat_id)), limit as nat),
            terms@.len() == 0 ==> (r matches Ok(v) && v@.len() == 0),
    {
        if terms.len() == 0 {
            return Ok(Vec::new());
        }
        self.search_rows(false, terms, Some(chat_id), cursor, limit)
    }

    // ----- sync bookmarks -----

    /// The bookmark of this dialog, if any.
    pub fn get_sync_state(&self, chat_id: i64) -> (r: Result<Option<SyncStateRow>, StoreError>)
        ensures
            r matches Ok(Some(st)) ==> st.chat_id == chat_id,
    {
        let rows = match query_rows(&self.conn, "SELECT chat_id, last_message_id, oldest_message_id, initial_done, last_sync_at FROM sync_state WHERE chat_id = ?", &vec![SqlArg::Int(chat_id)]) {
            Ok(rows) => rows,
            Err(e) => return Err(e),
        };
        if rows.len() == 0 {
            return Ok(None);
        }
        match decode_sync_state(&rows[0]) {
            Ok(st) => if st.chat_id == chat_id { Ok(Some(st)) } else { Err(StoreError::BadRow) },
            Err(e) => Err(e),
        }
    }

    pub fn upsert_sync_state(&self, state: &SyncStateRow) -> (r: Result<(), StoreError>) {
        execute(&self.conn, UPSERT_SYNC_STATE, &sync_state_args(state))
    }

    pub fn update_last_message_id(&self, chat_id: i64, last_message_id: i64, last_sync_at: &str) -> (r: Result<(), StoreError>) {
        let args = vec![SqlArg::Int(last_message_id), SqlArg::Text(String::from_str(last_sync_at)), SqlArg::Int(chat_id)];
        execute(&self.conn, "UPDATE sync_state SET last_message_id = ?, last_sync_at = ? WHERE chat_id = ?", &args)
    }

    pub fn update_oldest_message_id(&self, chat_id: i64, oldest_message_id: i64) -> (r: Result<(), StoreError>) {
        execute(&self.conn, "UPDATE sync_state SET oldest_message_id = ? WHERE chat_id = ?", &vec![SqlArg::Int(oldest_message_id), SqlArg::Int(chat_id)])
    }

    pub fn mark_initial_done(&self, chat_id: i64) -> (r: Result<(), StoreError>) {
        execute(&self.conn, "UPDATE sync_state SET initial_done = 1 WHERE chat_id = ?", &vec![SqlArg::Int(chat_id)])
    }
}

/// The page size in effect.
pub open spec fn page_limit(limit: Option<usize>) -> int {
    match limit {
        Some(l) => l as int,
        None => DEFAULT_PAGE_SIZE as int,
    }
}

/// Runs a search. The query's whitespace-separated terms select the plan:
/// the trigram index when every term has at least three characters, a
/// substring scan otherwise. A query without terms gives an empty page. At
/// most `limit` (default 30) items come back, each with the highlights of
/// the terms in its text, and a cursor when more rows follow.
pub fn search(store: &Store, query: &str, scope: &SearchScope, cursor: Option<&Cursor>, limit: Option<usize>) -> (r: Result<SearchResult, StoreError>)
    requires
        page_limit(limit) < i64::MAX,
        page_limit(limit) < usize::MAX,
    ensures
        words(query@).len() == 0 ==> (r matches Ok(res) && res.items@.len() == 0 && res.next_cursor is None),
        r matches Ok(res) ==> res.items@.len() <= page_limit(limit) && forall|i: int| 0 <= i < res.items@.len()
            ==> merge_of(#[trigger] res.items@[i].highlights@, spans_of(encode_utf8(lower_of(res.items@[i].text@)),
                words(query@).map_values(|w: Seq<char>| encode_utf8(lower_of(w))))),
        r matches Ok(res) ==> {
            &&& strictly_ordered(item_keys(res.items@))
            &&& forall|i: int| 0 <= i < res.items@.len() ==> (cursor is None
                || sorts_before(scoped_cursor(cursor_view(cursor), scope_chat(*scope))->0, #[trigger] item_key(res.items@[i])))
            &&& forall|i: int| 0 <= i < res.items@.len() ==> (scope matches SearchScope::Chat(id)
                ==> (#[trigger] res.items@[i]).chat_id == scope->Chat_0)
            &&& (res.next_cursor matches Some(k) ==> res.items@.len() == page_limit(limit)
                && k == item_key(res.items@.last()))
        },
{
    let lim: usize = match limit {
        Some(l) => l,
        None => DEFAULT_PAGE_SIZE,
    };
    assert(lim as int == page_limit(limit));
    let terms = split_whitespace(query);
    if terms.len() == 0 {
        return Ok(SearchResult { items: Vec::new(), next_cursor: None });
    }
    let chat = match scope {
        SearchScope::All => None,
        SearchScope::Chat(id) => Some(*id),
    };
    let c = scope_cursor(cursor, chat);
    let (sql, args) = plan_search(query, scope, cursor, lim);
    let raw = match query_rows(&store.conn, sql.as_str(), &args) {
        Ok(raw) => raw,
        Err(e) => return Err(e),
    };
    let rows = match hits_from_rows(&raw, chat, c, lim + 1) {
        Ok(rows) => rows,
        Err(e) => return Err(e),
    };
    let page = finish_page(&rows, lim, &terms);
    proof {
        assert forall|i: int| 0 <= i < page.items@.len() implies #[trigger] item_key(page.items@[i]) == key_of(rows@[i]) by {
            assert(item_of(page.items@[i], rows@[i], terms@));
        }
        assert forall|a: int, b: int| 0 <= a < b < item_keys(page.items@).len() implies
            sorts_before(#[trigger] item_keys(page.items@)[a], #[trigger] item_keys(page.items@)[b]) by {
            assert(item_keys(page.items@)[a] == keys(rows@)[a]);
            assert(item_keys(page.items@)[b] == keys(rows@)[b]);
        }
        assert forall|i: int| 0 <= i < page.items@.len() implies (cursor is None
            || sorts_before(scoped_cursor(cursor_view(cursor), scope_chat(*scope))->0, #[trigger] item_key(page.items@[i]))) by {
            assert(item_key(page.items@[i]) == key_of(rows@[i]));
        }
        assert forall|i: int| 0 <= i < page.items@.len() implies (scope matches SearchScope::Chat(id)
            ==> (#[trigger] page.items@[i]).chat_id == scope->Chat_0) by {
            assert(item_key(page.items@[i]) == key_of(rows@[i]));
        }
        if page.next_cursor is Some {
            assert(item_key(page.items@.last()) == key_of(rows@[lim - 1]));
        }
        assert(lowered_terms(terms@) =~= words(query@).map_values(|w: Seq<char>| encode_utf8(lower_of(w))));
        assert forall|i: int| 0 <= i < page.items@.len() implies merge_of(#[trigger] page.items@[i].highlights@,
            spans_of(encode_utf8(lower_of(page.items@[i].text@)), words(query@).map_values(|w: Seq<char>| encode_utf8(lower_of(w))))) by {
            assert(item_of(page.items@[i], rows@[i], terms@));
        }
    }
    Ok(page)
}

} // verus!
