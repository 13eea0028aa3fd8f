use telegram_korean_search::db::{SqlValue, StoreError};
use telegram_korean_search::search::hits_from_rows;
use telegram_korean_search::search::plan_search;
use telegram_korean_search::rows::{ChatRow, MessageRow, MessageWithChat};
use telegram_korean_search::search::{
    build_fts_query, finish_page, search_args, search_sql, use_trigram_index, Cursor, SearchScope,
};
use telegram_korean_search::db::SqlArg;
use telegram_korean_search::store::{search, Store};
use telegram_korean_search::text::strip_whitespace;

fn test_store() -> Store {
    Store::open_in_memory().unwrap()
}

fn setup(store: &Store) {
    store
        .upsert_chat(&ChatRow {
            chat_id: 1,
            title: "Korean Chat".to_string(),
            chat_type: "supergroup".to_string(),
            username: Some("koreanchat".to_string()),
            access_hash: None,
            is_excluded: false,
        })
        .unwrap();
    store
        .upsert_chat(&ChatRow {
            chat_id: 2,
            title: "English Chat".to_string(),
            chat_type: "supergroup".to_string(),
            username: None,
            access_hash: None,
            is_excluded: false,
        })
        .unwrap();
}

fn insert_msg(store: &Store, chat_id: i64, msg_id: i64, ts: i64, text: &str) {
    let stripped = strip_whitespace(text);
    store
        .insert_messages_batch(&[MessageRow {
            message_id: msg_id,
            chat_id,
            timestamp: ts,
            text_plain: text.to_string(),
            text_stripped: stripped,
            link: None,
        }])
        .unwrap();
}

#[test]
fn test_search_english() {
    let store = test_store();
    setup(&store);
    insert_msg(&store, 1, 1, 1000, "Hello world test message");
    insert_msg(&store, 1, 2, 1001, "Another message here");
    let result = search(&store, "Hello", &SearchScope::All, None, None).unwrap();
    assert_eq!(result.items.len(), 1);
    assert_eq!(result.items[0].message_id, 1);
    assert!(!result.items[0].highlights.is_empty());
}

#[test]
fn test_search_korean() {
    let store = test_store();
    setup(&store);
    insert_msg(&store, 1, 1, 1000, "삼성전자 주가가 상승했다");
    insert_msg(&store, 1, 2, 1001, "오늘 날씨가 좋습니다");
    let result = search(&store, "삼성", &SearchScope::All, None, None).unwrap();
    assert!(!result.items.is_empty());
    assert_eq!(result.items[0].chat_id, 1);
}

#[test]
fn test_search_empty_query() {
    let store = test_store();
    let result = search(&store, "", &SearchScope::All, None, None).unwrap();
    assert!(result.items.is_empty());
    assert!(result.next_cursor.is_none());
}

#[test]
fn test_search_no_results() {
    let store = test_store();
    setup(&store);
    insert_msg(&store, 1, 1, 1000, "Hello world");
    let result = search(&store, "zzzznonexistent", &SearchScope::All, None, None).unwrap();
    assert!(result.items.is_empty());
}

#[test]
fn test_search_scoped_to_chat() {
    let store = test_store();
    setup(&store);
    insert_msg(&store, 1, 1, 1000, "Hello from chat 1");
    insert_msg(&store, 2, 2, 1001, "Hello from chat 2");
    let result = search(&store, "Hello", &SearchScope::Chat(1), None, None).unwrap();
    assert_eq!(result.items.len(), 1);
    assert_eq!(result.items[0].chat_id, 1);
}

#[test]
fn test_search_pagination() {
    let store = test_store();
    setup(&store);
    for i in 0..5 {
        insert_msg(&store, 1, i + 1, 1000 + i, &format!("test message {}", i));
    }
    let page1 = search(&store, "test", &SearchScope::All, None, Some(2)).unwrap();
    assert_eq!(page1.items.len(), 2);
    assert!(page1.next_cursor.is_some());
    let page2 = search(&store, "test", &SearchScope::All, page1.next_cursor.as_ref(), Some(2)).unwrap();
    assert_eq!(page2.items.len(), 2);
    assert!(page2.next_cursor.is_some());
    let page3 = search(&store, "test", &SearchScope::All, page2.next_cursor.as_ref(), Some(2)).unwrap();
    assert_eq!(page3.items.len(), 1);
    assert!(page3.next_cursor.is_none());
}

#[test]
fn test_search_results_have_highlights() {
    let store = test_store();
    setup(&store);
    insert_msg(&store, 1, 1, 1000, "Hello world test");
    let result = search(&store, "Hello", &SearchScope::All, None, None).unwrap();
    assert_eq!(result.items.len(), 1);
    let item = &result.items[0];
    assert!(!item.highlights.is_empty());
    assert_eq!(item.highlights[0].start, 0);
    assert_eq!(item.highlights[0].end, 5);
}

#[test]
fn test_search_results_ordered_by_timestamp_desc() {
    let store = test_store();
    setup(&store);
    insert_msg(&store, 1, 1, 1000, "test old message");
    insert_msg(&store, 1, 2, 2000, "test new message");
    insert_msg(&store, 1, 3, 1500, "test middle message");
    let result = search(&store, "test", &SearchScope::All, None, None).unwrap();
    assert_eq!(result.items.len(), 3);
    assert_eq!(result.items[0].timestamp, 2000);
    assert_eq!(result.items[1].timestamp, 1500);
    assert_eq!(result.items[2].timestamp, 1000);
}

#[test]
fn test_build_fts_query() {
    assert_eq!(build_fts_query("hello world"), "\"hello\" \"world\"");
    assert_eq!(build_fts_query("삼성전자"), "\"삼성전자\"");
    assert_eq!(build_fts_query("  spaces  "), "\"spaces\"");
}

#[test]
fn fts_query_doubles_inner_quotes() {
    assert_eq!(build_fts_query("say \"hi\""), "\"say\" \"\"\"hi\"\"\"");
    assert_eq!(build_fts_query("   "), "");
}

#[test]
fn trigram_path_needs_three_characters_per_term() {
    assert!(use_trigram_index(&vec!["abc".to_string(), "삼성전".to_string()]));
    assert!(!use_trigram_index(&vec!["abc".to_string(), "삼성".to_string()]));
}

#[test]
fn short_query_uses_substring_scan() {
    let store = test_store();
    setup(&store);
    insert_msg(&store, 1, 1, 1000, "삼성전자 주가가 상승했다");
    let via_index = store.search_messages_fts("\"삼성\"", None, 10).unwrap();
    assert!(via_index.is_empty());
    let result = search(&store, "삼성", &SearchScope::All, None, None).unwrap();
    assert_eq!(result.items.len(), 1);
    assert_eq!(result.items[0].message_id, 1);
}

#[test]
fn long_substring_finds_inserted_message() {
    let store = test_store();
    setup(&store);
    insert_msg(&store, 2, 9, 5, "The quarterly report is ready");
    for q in ["quarterly", "uar", "REPORT", "is ready", "rterl"] {
        let r = search(&store, q, &SearchScope::All, None, None).unwrap();
        assert_eq!(r.items.len(), 1, "query {}", q);
        assert_eq!(r.items[0].message_id, 9);
    }
}

#[test]
fn excluded_dialogs_are_not_searched() {
    let store = test_store();
    setup(&store);
    insert_msg(&store, 2, 1, 10, "secret plans");
    store.set_chat_excluded(2, true).unwrap();
    assert!(search(&store, "secret", &SearchScope::All, None, None).unwrap().items.is_empty());
    assert!(search(&store, "se", &SearchScope::Chat(2), None, None).unwrap().items.is_empty());
}

#[test]
fn pages_cover_every_hit_once_with_ties() {
    let store = test_store();
    setup(&store);
    insert_msg(&store, 2, 1, 100, "tie one");
    insert_msg(&store, 1, 2, 100, "tie two");
    insert_msg(&store, 1, 1, 100, "tie three");
    insert_msg(&store, 2, 5, 50, "tie four");
    let mut seen = Vec::new();
    let mut cursor: Option<Cursor> = None;
    loop {
        let page = search(&store, "tie", &SearchScope::All, cursor.as_ref(), Some(1)).unwrap();
        for it in &page.items {
            seen.push((it.chat_id, it.message_id));
        }
        match page.next_cursor {
            Some(c) => cursor = Some(c),
            None => break,
        }
    }
    assert_eq!(seen, vec![(1, 1), (1, 2), (2, 1), (2, 5)]);
}

fn hit(ts: i64, chat: i64, id: i64) -> MessageWithChat {
    MessageWithChat {
        message_id: id,
        chat_id: chat,
        timestamp: ts,
        text_plain: "x".to_string(),
        link: None,
        chat_title: "t".to_string(),
    }
}

#[test]
fn finish_page_keeps_limit_and_points_at_last_kept() {
    let rows = vec![hit(3, 1, 1), hit(2, 1, 2), hit(1, 1, 3)];
    let page = finish_page(&rows, 2, &vec!["x".to_string()]);
    assert_eq!(page.items.len(), 2);
    assert_eq!(page.next_cursor, Some(Cursor { timestamp: 2, chat_id: 1, message_id: 2 }));
    let last = finish_page(&rows, 3, &vec![]);
    assert_eq!(last.items.len(), 3);
    assert_eq!(last.next_cursor, None);
}

#[test]
fn sql_of_each_plan() {
    let sql = search_sql(false, 2, true, true);
    assert_eq!(
        sql,
        "SELECT m.message_id, m.chat_id, m.timestamp, m.text_plain, m.link, c.title FROM messages m JOIN chats c ON m.chat_id = c.chat_id WHERE m.text_plain LIKE '%' || ? || '%' AND m.text_plain LIKE '%' || ? || '%' AND m.chat_id = ? AND c.is_excluded = 0 AND (m.timestamp < ? OR (m.timestamp = ? AND m.message_id > ?)) ORDER BY m.timestamp DESC, m.message_id ASC LIMIT ?"
    );
    let args = search_args(
        &vec!["a".to_string()],
        None,
        Some(Cursor { timestamp: 5, chat_id: 6, message_id: 7 }),
        31,
    );
    assert_eq!(args.len(), 8);
    assert!(matches!(&args[0], SqlArg::Text(s) if s == "a"));
    assert!(matches!(args[3], SqlArg::Int(6)));
    assert!(matches!(args[7], SqlArg::Int(31)));
}

#[test]
fn plan_picks_trigram_for_long_terms() {
    let (sql, args) = plan_search("hello world", &SearchScope::All, None, 30);
    assert!(sql.contains("messages_fts MATCH ?"));
    assert_eq!(args.len(), 2);
    assert!(matches!(&args[0], SqlArg::Text(s) if s == "\"hello\" \"world\""));
    assert!(matches!(args[1], SqlArg::Int(31)));
}

#[test]
fn plan_picks_substring_scan_for_short_terms_and_scopes_cursor() {
    let cursor = Cursor { timestamp: 9, chat_id: 99, message_id: 4 };
    let (sql, args) = plan_search("삼성 전자주가", &SearchScope::Chat(5), Some(&cursor), 2);
    assert!(sql.contains("LIKE"));
    assert!(!sql.contains("MATCH"));
    assert_eq!(args.len(), 2 + 1 + 3 + 1);
    assert!(matches!(&args[0], SqlArg::Text(s) if s == "삼성"));
    assert!(matches!(&args[1], SqlArg::Text(s) if s == "전자주가"));
    assert!(matches!(args[2], SqlArg::Int(5)));
    assert!(matches!(args[3], SqlArg::Int(9)));
    assert!(matches!(args[5], SqlArg::Int(4)));
    assert!(matches!(args[6], SqlArg::Int(3)));
}

#[test]
fn rows_must_form_a_valid_keyset_answer() {
    let row = |id: i64, chat: i64, ts: i64| {
        vec![
            SqlValue::Int(id),
            SqlValue::Int(chat),
            SqlValue::Int(ts),
            SqlValue::Text("t".to_string()),
            SqlValue::Null,
            SqlValue::Text("c".to_string()),
        ]
    };
    let ok = hits_from_rows(&vec![row(1, 1, 20), row(2, 1, 10)], None, None, 5).unwrap();
    assert_eq!(ok.len(), 2);
    assert_eq!((ok[1].message_id, ok[1].timestamp), (2, 10));
    assert!(matches!(hits_from_rows(&vec![row(2, 1, 10), row(1, 1, 20)], None, None, 5), Err(StoreError::BadRow)));
    assert!(matches!(hits_from_rows(&vec![row(1, 1, 20)], Some(2), None, 5), Err(StoreError::BadRow)));
    assert!(matches!(hits_from_rows(&vec![row(1, 1, 20), row(2, 1, 10)], None, None, 1), Err(StoreError::BadRow)));
    let after = Cursor { timestamp: 15, chat_id: 1, message_id: 0 };
    assert!(matches!(hits_from_rows(&vec![row(1, 1, 20)], None, Some(after), 5), Err(StoreError::BadRow)));
    let mut bad = row(1, 1, 20);
    bad[3] = SqlValue::Int(0);
    assert!(matches!(hits_from_rows(&vec![bad], None, None, 5), Err(StoreError::BadRow)));
}
