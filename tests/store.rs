use telegram_korean_search::db::SqlArg;
use telegram_korean_search::store::{message_insert_args, migration_scripts, STEP_DM, STEP_FTS};
use telegram_korean_search::rows::{ChatRow, MessageRow, SyncStateRow};
use telegram_korean_search::store::{run_migrations, Store};
use telegram_korean_search::text::strip_whitespace;

fn test_store() -> Store {
    Store::open_in_memory().unwrap()
}

fn sample_chat(id: i64) -> ChatRow {
    ChatRow {
        chat_id: id,
        title: format!("Chat {}", id),
        chat_type: "supergroup".to_string(),
        username: Some(format!("chat_{}", id)),
        access_hash: Some(12345),
        is_excluded: false,
    }
}

fn setup_chat(store: &Store, chat_id: i64) {
    store
        .upsert_chat(&ChatRow {
            chat_id,
            title: format!("Chat {}", chat_id),
            chat_type: "supergroup".to_string(),
            username: None,
            access_hash: None,
            is_excluded: false,
        })
        .unwrap();
}

fn make_message(chat_id: i64, msg_id: i64, ts: i64, text: &str) -> MessageRow {
    MessageRow {
        message_id: msg_id,
        chat_id,
        timestamp: ts,
        text_plain: text.to_string(),
        text_stripped: strip_whitespace(text),
        link: None,
    }
}

fn sync_store() -> Store {
    let store = Store::open_in_memory().unwrap();
    setup_chat(&store, 1);
    store
}

fn table_names(store: &Store) -> Vec<String> {
    let mut tables = Vec::new();
    let mut stmt = store
        .conn()
        .prepare("SELECT name FROM sqlite_master WHERE type='table' ORDER BY name")
        .unwrap();
    while let Ok(sqlite::State::Row) = stmt.next() {
        tables.push(stmt.read::<String, _>("name").unwrap());
    }
    tables
}

#[test]
fn test_set_and_get() {
    let store = test_store();
    store.set_meta("schema_version", "1").unwrap();
    assert_eq!(store.get_meta("schema_version").unwrap(), Some("1".to_string()));
}

#[test]
fn test_update() {
    let store = test_store();
    store.set_meta("key", "v1").unwrap();
    store.set_meta("key", "v2").unwrap();
    assert_eq!(store.get_meta("key").unwrap(), Some("v2".to_string()));
}

#[test]
fn app_meta_test_get_nonexistent() {
    let store = test_store();
    assert!(store.get_meta("missing").unwrap().is_none());
}

#[test]
fn test_delete() {
    let store = test_store();
    store.set_meta("key", "value").unwrap();
    store.delete_meta("key").unwrap();
    assert!(store.get_meta("key").unwrap().is_none());
}

#[test]
fn chat_test_upsert_and_get() {
    let store = test_store();
    let chat = sample_chat(100);
    store.upsert_chat(&chat).unwrap();
    let fetched = store.get_chat(100).unwrap().unwrap();
    assert_eq!(fetched.title, "Chat 100");
    assert_eq!(fetched.chat_type, "supergroup");
    assert_eq!(fetched.username, Some("chat_100".to_string()));
}

#[test]
fn test_upsert_updates_existing() {
    let store = test_store();
    let mut chat = sample_chat(100);
    store.upsert_chat(&chat).unwrap();
    chat.title = "Updated Title".to_string();
    store.upsert_chat(&chat).unwrap();
    let fetched = store.get_chat(100).unwrap().unwrap();
    assert_eq!(fetched.title, "Updated Title");
}

#[test]
fn chat_test_get_nonexistent() {
    let store = test_store();
    assert!(store.get_chat(999).unwrap().is_none());
}

#[test]
fn test_active_chats_excludes_excluded() {
    let store = test_store();
    store.upsert_chat(&sample_chat(1)).unwrap();
    store.upsert_chat(&sample_chat(2)).unwrap();
    store.set_chat_excluded(2, true).unwrap();
    let active = store.get_active_chats().unwrap();
    assert_eq!(active.len(), 1);
    assert_eq!(active[0].chat_id, 1);
}

#[test]
fn test_chat_count() {
    let store = test_store();
    assert_eq!(store.chat_count().unwrap(), 0);
    store.upsert_chat(&sample_chat(1)).unwrap();
    store.upsert_chat(&sample_chat(2)).unwrap();
    assert_eq!(store.chat_count().unwrap(), 2);
}

#[test]
fn upsert_then_read_returns_last_written() {
    let store = test_store();
    let mut chat = sample_chat(7);
    store.upsert_chat(&chat).unwrap();
    chat.title = "Renamed".to_string();
    chat.chat_type = "dm".to_string();
    chat.username = None;
    chat.access_hash = None;
    store.upsert_chat(&chat).unwrap();
    let fetched = store.get_chat(7).unwrap().unwrap();
    assert_eq!(fetched.title, "Renamed");
    assert_eq!(fetched.chat_type, "dm");
    assert_eq!(fetched.username, None);
    assert_eq!(fetched.access_hash, None);
    assert!(!fetched.is_excluded);
}

#[test]
fn upsert_keeps_excluded_flag() {
    let store = test_store();
    store.upsert_chat(&sample_chat(3)).unwrap();
    store.set_chat_excluded(3, true).unwrap();
    store.upsert_chat(&sample_chat(3)).unwrap();
    assert!(store.get_chat(3).unwrap().unwrap().is_excluded);
    let all = store.get_all_chats().unwrap();
    assert_eq!(all.len(), 1);
}

#[test]
fn test_insert_and_get() {
    let store = test_store();
    setup_chat(&store, 1);
    let msg = make_message(1, 100, 1000, "hello world");
    store.insert_messages_batch(&[msg]).unwrap();
    let fetched = store.get_message(1, 100).unwrap().unwrap();
    assert_eq!(fetched.text_plain, "hello world");
    assert_eq!(fetched.text_stripped, "helloworld");
}

#[test]
fn test_batch_insert() {
    let store = test_store();
    setup_chat(&store, 1);
    let messages: Vec<MessageRow> = (0..100)
        .map(|i| make_message(1, i, 1000 + i, &format!("message {}", i)))
        .collect();
    store.insert_messages_batch(&messages).unwrap();
    assert_eq!(store.message_count().unwrap(), 100);
}

#[test]
fn test_duplicate_insert_ignored() {
    let store = test_store();
    setup_chat(&store, 1);
    let msg = make_message(1, 100, 1000, "hello");
    store.insert_messages_batch(&[msg.clone()]).unwrap();
    store.insert_messages_batch(&[msg]).unwrap();
    assert_eq!(store.message_count().unwrap(), 1);
}

#[test]
fn index_rows_match_message_rows_after_batches() {
    let store = test_store();
    setup_chat(&store, 1);
    let first = vec![make_message(1, 1, 10, "alpha beta"), make_message(1, 2, 11, "gamma")];
    store.insert_messages_batch(&first).unwrap();
    let second = vec![make_message(1, 2, 11, "gamma"), make_message(1, 3, 12, "delta")];
    store.insert_messages_batch(&second).unwrap();
    assert_eq!(store.message_count().unwrap(), 3);
    assert_eq!(store.indexed_count().unwrap(), 3);
}

#[test]
fn failed_batch_is_rolled_back() {
    let store = test_store();
    setup_chat(&store, 1);
    // Dialog 99 does not exist: the foreign key refuses the second row.
    let batch = vec![make_message(1, 1, 10, "kept?"), make_message(99, 2, 11, "orphan")];
    assert!(store.insert_messages_batch(&batch).is_err());
    assert_eq!(store.message_count().unwrap(), 0);
    store.insert_messages_batch(&[make_message(1, 3, 12, "later")]).unwrap();
    assert_eq!(store.message_count().unwrap(), 1);
}

#[test]
fn test_fts_search_long_query() {
    let store = test_store();
    setup_chat(&store, 1);
    store
        .insert_messages_batch(&[
            make_message(1, 1, 1000, "삼성전자 주가가 상승했다"),
            make_message(1, 2, 1001, "오늘 날씨가 좋습니다"),
        ])
        .unwrap();
    let results = store.search_messages_fts("\"삼성전\"", None, 10).unwrap();
    assert_eq!(results.len(), 1);
    assert_eq!(results[0].message_id, 1);
}

#[test]
fn test_like_search_short_query() {
    let store = test_store();
    setup_chat(&store, 1);
    store
        .insert_messages_batch(&[
            make_message(1, 1, 1000, "삼성전자 주가가 상승했다"),
            make_message(1, 2, 1001, "오늘 날씨가 좋습니다"),
        ])
        .unwrap();
    let terms = vec!["삼성".to_string()];
    let results = store.search_messages_like(&terms, None, 10).unwrap();
    assert_eq!(results.len(), 1);
    assert_eq!(results[0].message_id, 1);
}

#[test]
fn test_fts_search_in_chat() {
    let store = test_store();
    setup_chat(&store, 1);
    setup_chat(&store, 2);
    store
        .insert_messages_batch(&[
            make_message(1, 1, 1000, "hello from chat 1"),
            make_message(2, 1, 1001, "hello from chat 2"),
        ])
        .unwrap();
    let results = store.search_messages_fts_in_chat("\"hello\"", 1, None, 10).unwrap();
    assert_eq!(results.len(), 1);
    assert_eq!(results[0].chat_id, 1);
}

#[test]
fn test_message_count() {
    let store = test_store();
    assert_eq!(store.message_count().unwrap(), 0);
}

#[test]
fn test_migrations_idempotent() {
    let store = Store::open_in_memory().unwrap();
    run_migrations(store.conn()).unwrap();
    run_migrations(store.conn()).unwrap();
    assert_eq!(store.get_meta("schema_version").unwrap(), Some("3".to_string()));
}

#[test]
fn test_all_tables_created() {
    let store = Store::open_in_memory().unwrap();
    let tables = table_names(&store);
    assert!(tables.contains(&"chats".to_string()));
    assert!(tables.contains(&"messages".to_string()));
    assert!(tables.contains(&"sync_state".to_string()));
    assert!(tables.contains(&"app_meta".to_string()));
}

#[test]
fn test_fts5_table_created() {
    let store = Store::open_in_memory().unwrap();
    let mut stmt = store
        .conn()
        .prepare("SELECT name FROM sqlite_master WHERE type='table' AND name = 'messages_fts'")
        .unwrap();
    assert!(matches!(stmt.next(), Ok(sqlite::State::Row)));
}

#[test]
fn test_dm_chat_type_accepted() {
    let store = Store::open_in_memory().unwrap();
    store
        .conn()
        .execute("INSERT INTO chats (chat_id, title, chat_type) VALUES (12345, 'John Doe', 'dm')")
        .unwrap();
    let mut stmt = store
        .conn()
        .prepare("SELECT chat_type FROM chats WHERE chat_id = 12345")
        .unwrap();
    assert!(matches!(stmt.next(), Ok(sqlite::State::Row)));
    assert_eq!(stmt.read::<String, _>(0).unwrap(), "dm");
}

#[test]
fn test_old_index_tables_dropped() {
    let store = Store::open_in_memory().unwrap();
    let tables = table_names(&store);
    assert!(!tables.contains(&"index_terms".to_string()));
    assert!(!tables.contains(&"postings".to_string()));
}

#[test]
fn sync_state_test_upsert_and_get() {
    let store = sync_store();
    let state = SyncStateRow {
        chat_id: 1,
        last_message_id: 500,
        oldest_message_id: Some(100),
        initial_done: false,
        last_sync_at: Some("2025-02-10T12:00:00Z".to_string()),
    };
    store.upsert_sync_state(&state).unwrap();
    let fetched = store.get_sync_state(1).unwrap().unwrap();
    assert_eq!(fetched.last_message_id, 500);
    assert_eq!(fetched.oldest_message_id, Some(100));
    assert!(!fetched.initial_done);
}

#[test]
fn test_mark_initial_done() {
    let store = sync_store();
    let state = SyncStateRow {
        chat_id: 1,
        last_message_id: 0,
        oldest_message_id: None,
        initial_done: false,
        last_sync_at: None,
    };
    store.upsert_sync_state(&state).unwrap();
    store.mark_initial_done(1).unwrap();
    let fetched = store.get_sync_state(1).unwrap().unwrap();
    assert!(fetched.initial_done);
}

#[test]
fn sync_state_test_get_nonexistent() {
    let store = sync_store();
    assert!(store.get_sync_state(999).unwrap().is_none());
}

#[test]
fn bookmark_updates() {
    let store = sync_store();
    let state = SyncStateRow {
        chat_id: 1,
        last_message_id: 10,
        oldest_message_id: None,
        initial_done: false,
        last_sync_at: None,
    };
    store.upsert_sync_state(&state).unwrap();
    store.update_last_message_id(1, 20, "2025-01-01T00:00:00Z").unwrap();
    store.update_oldest_message_id(1, 3).unwrap();
    let fetched = store.get_sync_state(1).unwrap().unwrap();
    assert_eq!(fetched.last_message_id, 20);
    assert_eq!(fetched.oldest_message_id, Some(3));
    assert_eq!(fetched.last_sync_at, Some("2025-01-01T00:00:00Z".to_string()));
}

#[test]
fn test_open_in_memory() {
    let store = Store::open_in_memory().unwrap();
    let mut stmt = store.conn().prepare("PRAGMA journal_mode").unwrap();
    assert!(matches!(stmt.next(), Ok(sqlite::State::Row)));
    let mode: String = stmt.read::<String, _>(0).unwrap();
    assert!(mode == "wal" || mode == "memory");
}

#[test]
fn inconsistent_stripped_text_is_refused() {
    let store = test_store();
    setup_chat(&store, 1);
    let mut bad = make_message(1, 5, 10, "a b");
    bad.text_stripped = "a b".to_string();
    let r = store.insert_messages_batch(&[make_message(1, 4, 9, "ok"), bad]);
    assert!(matches!(r, Err(telegram_korean_search::db::StoreError::InconsistentMessage)));
    assert_eq!(store.message_count().unwrap(), 0);
}

#[test]
fn lookups_return_the_requested_keys() {
    let store = test_store();
    setup_chat(&store, 1);
    store.insert_messages_batch(&[make_message(1, 2, 3, "x y")]).unwrap();
    let m = store.get_message(1, 2).unwrap().unwrap();
    assert_eq!((m.chat_id, m.message_id, m.timestamp), (1, 2, 3));
    assert!(store.get_message(1, 3).unwrap().is_none());
    assert!(store.get_message(2, 2).unwrap().is_none());
}

#[test]
fn statements_and_arguments_of_writes() {
    let mut m = make_message(3, 4, 5, "a b");
    m.link = Some("L".to_string());
    let args = message_insert_args(&m);
    assert_eq!(args.len(), 6);
    assert!(matches!(args[0], SqlArg::Int(4)));
    assert!(matches!(args[1], SqlArg::Int(3)));
    assert!(matches!(args[2], SqlArg::Int(5)));
    assert!(matches!(&args[4], SqlArg::Text(s) if s == "ab"));
    assert!(matches!(&args[5], SqlArg::Text(s) if s == "L"));
    assert_eq!(migration_scripts(1), vec![STEP_FTS, STEP_DM]);
    assert_eq!(migration_scripts(2), vec![STEP_DM]);
    assert!(migration_scripts(3).is_empty());
}
