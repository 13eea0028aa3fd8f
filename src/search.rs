//! Search engine: query planning (trigram index or substring scan), the SQL
//! of each plan, keyset pagination and the assembly of result pages.
use vstd::prelude::*;
use vstd::utf8::encode_utf8;
use crate::db::{SqlArg, SqlValue, StoreError};
use crate::highlight::{find_highlights, lowered_terms, merge_of, spans_of, HighlightRange};
use crate::rows::{decode_hit, int_at, is_null_at, text_at, MessageWithChat};
use crate::text::{lower_of, push_char, split_whitespace, words};

verus! {

/// Results per page when the caller gives no limit.
pub const DEFAULT_PAGE_SIZE: usize = 30;

/// Search scope: every non-excluded dialog, or one dialog.
#[derive(Clone, Copy, Debug, PartialEq, Eq, Structural)]
pub enum SearchScope {
    All,
    Chat(i64),
}

/// Sort key of the last row of a page; the next page starts strictly after it.
#[derive(Clone, Copy, Debug, PartialEq, Eq, Structural)]
pub struct Cursor {
    pub timestamp: i64,
    pub chat_id: i64,
    pub message_id: i64,
}

/// One search hit.
#[derive(Clone, Debug)]
pub struct SearchItem {
    pub message_id: i64,
    pub chat_id: i64,
    pub timestamp: i64,
    pub text: String,
    pub link: Option<String>,
    pub chat_title: String,
    pub highlights: Vec<HighlightRange>,
}

/// A page of hits and the cursor of the next page, if there is one.
#[derive(Clone, Debug)]
pub struct SearchResult {
    pub items: Vec<SearchItem>,
    pub next_cursor: Option<Cursor>,
}

// ----- SQL -----

pub const SELECT_HITS: &'static str = "SELECT m.message_id, m.chat_id, m.timestamp, m.text_plain, m.link, c.title FROM messages m JOIN chats c ON m.chat_id = c.chat_id WHERE ";
pub const FTS_MATCH: &'static str = "m.rowid IN (SELECT rowid FROM messages_fts WHERE messages_fts MATCH ?)";
pub const LIKE_TERM: &'static str = "m.text_plain LIKE '%' || ? || '%'";
pub const AND_SEP: &'static str = " AND ";
pub const IN_CHAT: &'static str = " AND m.chat_id = ?";
pub const NOT_EXCLUDED: &'static str = " AND c.is_excluded = 0";
pub const AFTER_GLOBAL: &'static str = " AND (m.timestamp < ? OR (m.timestamp = ? AND m.chat_id > ?) OR (m.timestamp = ? AND m.chat_id = ? AND m.message_id > ?))";
pub const AFTER_IN_CHAT: &'static str = " AND (m.timestamp < ? OR (m.timestamp = ? AND m.message_id > ?))";
pub const ORDER_GLOBAL: &'static str = " ORDER BY m.timestamp DESC, m.chat_id ASC, m.message_id ASC LIMIT ?";
pub const ORDER_IN_CHAT: &'static str = " ORDER BY m.timestamp DESC, m.message_id ASC LIMIT ?";

/// `n` substring conditions joined by AND.
pub open spec fn like_clauses(n: nat) -> Seq<char>
    decreases n,
{
    if n == 0 {
        Seq::empty()
    } else if n == 1 {
        LIKE_TERM@
    } else {
        like_clauses((n - 1) as nat) + AND_SEP@ + LIKE_TERM@
    }
}

/// The SQL of a search: the match condition (trigram index or `n_terms`
/// substring conditions), the scope, the excluded filter, the keyset
/// condition and the result order with its limit.
pub open spec fn search_sql_spec(fts: bool, n_terms: nat, scoped: bool, has_cursor: bool) -> Seq<char> {
    SELECT_HITS@ + (if fts { FTS_MATCH@ } else { like_clauses(n_terms) }) + (if scoped { IN_CHAT@ } else { Seq::empty() })
        + NOT_EXCLUDED@ + (if has_cursor { if scoped { AFTER_IN_CHAT@ } else { AFTER_GLOBAL@ } } else { Seq::empty() })
        + (if scoped { ORDER_IN_CHAT@ } else { ORDER_GLOBAL@ })
}

pub fn search_sql(fts: bool, n_terms: usize, scoped: bool, has_cursor: bool) -> (r: String)
    ensures
        r@ == search_sql_spec(fts, n_terms as nat, scoped, has_cursor),
{
    let mut s = String::from_str(SELECT_HITS);
    if fts {
        s.append(FTS_MATCH);
    } else {
        let mut i: usize = 0;
        while i < n_terms
            invariant
                i <= n_terms,
                s@ == SELECT_HITS@ + like_clauses(i as nat),
            decreases n_terms - i,
        {
            if i > 0 {
                s.append(AND_SEP);
            }
            s.append(LIKE_TERM);
            proof {
                if i == 0 {
                    assert(like_clauses(1) == LIKE_TERM@);
                    assert(like_clauses(0) =~= Seq::<char>::empty());
                }
            }
            assert(s@ =~= SELECT_HITS@ + like_clauses((i + 1) as nat));
            i = i + 1;
        }
    }
    if scoped {
        s.append(IN_CHAT);
    }
    s.append(NOT_EXCLUDED);
    if has_cursor {
        if scoped {
            s.append(AFTER_IN_CHAT);
        } else {
            s.append(AFTER_GLOBAL);
        }
    }
    if scoped {
        s.append(ORDER_IN_CHAT);
    } else {
        s.append(ORDER_GLOBAL);
    }
    assert(s@ =~= search_sql_spec(fts, n_terms as nat, scoped, has_cursor));
    s
}

pub open spec fn text_arg(a: SqlArg) -> Option<Seq<char>> {
    match a {
        SqlArg::Text(s) => Some(s@),
        _ => None,
    }
}

/// The keyset arguments, in the order of the conditions.
pub open spec fn cursor_args(c: Cursor, scoped: bool) -> Seq<SqlArg> {
    if scoped {
        seq![SqlArg::Int(c.timestamp), SqlArg::Int(c.timestamp), SqlArg::Int(c.message_id)]
    } else {
        seq![SqlArg::Int(c.timestamp), SqlArg::Int(c.timestamp), SqlArg::Int(c.chat_id),
            SqlArg::Int(c.timestamp), SqlArg::Int(c.chat_id), SqlArg::Int(c.message_id)]
    }
}

/// The arguments after the match texts: dialog, keyset, limit.
pub open spec fn tail_args(chat: Option<i64>, cursor: Option<Cursor>, fetch: i64) -> Seq<SqlArg> {
    (match chat { Some(id) => seq![SqlArg::Int(id)], None => Seq::empty() })
        + (match cursor { Some(c) => cursor_args(c, chat is Some), None => Seq::empty() })
        + seq![SqlArg::Int(fetch)]
}

/// Arguments of [`search_sql`]: the match texts, the dialog id when scoped,
/// the keyset values and the number of rows to fetch.
pub fn search_args(matchers: &Vec<String>, chat: Option<i64>, cursor: Option<Cursor>, fetch: i64) -> (r: Vec<SqlArg>)
    ensures
        r@.len() == matchers@.len() + tail_args(chat, cursor, fetch).len(),
        forall|i: int| 0 <= i < matchers@.len() ==> text_arg(#[trigger] r@[i]) == Some(matchers@[i]@),
        r@.subrange(matchers@.len() as int, r@.len() as int) == tail_args(chat, cursor, fetch),
{
    let mut r: Vec<SqlArg> = Vec::new();
    let mut i: usize = 0;
    while i < matchers.len()
        invariant
            i <= matchers@.len(),
            r@.len() == i,
            forall|k: int| 0 <= k < i ==> text_arg(#[trigger] r@[k]) == Some(matchers@[k]@),
        decreases matchers@.len() - i,
    {
        r.push(SqlArg::Text(matchers[i].clone()));
        i = i + 1;
    }
    let ghost head = r@;
    let mut t: Vec<SqlArg> = Vec::new();
    match chat {
        Some(id) => t.push(SqlArg::Int(id)),
        None => {},
    }
    match cursor {
        Some(c) => {
            t.push(SqlArg::Int(c.timestamp));
            t.push(SqlArg::Int(c.timestamp));
            if chat.is_none() {
                t.push(SqlArg::Int(c.chat_id));
                t.push(SqlArg::Int(c.timestamp));
                t.push(SqlArg::Int(c.chat_id));
            }
            t.push(SqlArg::Int(c.message_id));
        },
        None => {},
    }
    t.push(SqlArg::Int(fetch));
    assert(t@ =~= tail_args(chat, cursor, fetch));
    r.append(&mut t);
    assert(r@.subrange(matchers@.len() as int, r@.len() as int) =~= tail_args(chat, cursor, fetch));
    r
}

/// A keyset query: its SQL text and its arguments in order.
pub fn keyset_query(fts: bool, matchers: &Vec<String>, chat: Option<i64>, cursor: Option<Cursor>, fetch: i64) -> (r: (String, Vec<SqlArg>))
    ensures
        r.0@ == search_sql_spec(fts, matchers@.len() as nat, chat is Some, cursor is Some),
        r.1@.len() == matchers@.len() + tail_args(chat, cursor, fetch).len(),
        forall|i: int| 0 <= i < matchers@.len() ==> text_arg(#[trigger] r.1@[i]) == Some(matchers@[i]@),
        r.1@.subrange(matchers@.len() as int, r.1@.len() as int) == tail_args(chat, cursor, fetch),
{
    let sql = search_sql(fts, matchers.len(), chat.is_some(), cursor.is_some());
    let args = search_args(matchers, chat, cursor, fetch);
    (sql, args)
}

pub open spec fn cursor_view(c: Option<&Cursor>) -> Option<Cursor> {
    match c {
        Some(k) => Some(*k),
        None => None,
    }
}

/// The cursor as a query reads it: within one dialog only its timestamp and
/// message id count, so it is taken as a key of that dialog.
pub open spec fn scoped_cursor(c: Option<Cursor>, chat: Option<i64>) -> Option<Cursor> {
    match (c, chat) {
        (Some(k), Some(id)) => Some(Cursor { timestamp: k.timestamp, chat_id: id, message_id: k.message_id }),
        _ => c,
    }
}

pub open spec fn scope_chat(scope: SearchScope) -> Option<i64> {
    match scope {
        SearchScope::All => None,
        SearchScope::Chat(id) => Some(id),
    }
}

pub fn scope_cursor(cursor: Option<&Cursor>, chat: Option<i64>) -> (r: Option<Cursor>)
    ensures
        r == scoped_cursor(cursor_view(cursor), chat),
{
    match cursor {
        Some(k) => match chat {
            Some(id) => Some(Cursor { timestamp: k.timestamp, chat_id: id, message_id: k.message_id }),
            None => Some(*k),
        },
        None => None,
    }
}

/// The match texts of a query's plan: the quoted trigram query when every
/// term has at least three characters, else each term for a substring scan.
pub open spec fn plan_matchers(ws: Seq<Seq<char>>) -> Seq<Seq<char>> {
    if trigram_usable(ws) { seq![fts_query_spec(ws)] } else { ws }
}

/// The one store query of a search: the plan picked from the query's terms,
/// the scope, the cursor taken within the scope, and `limit + 1` rows so
/// that a further page can be detected.
pub fn plan_search(query: &str, scope: &SearchScope, cursor: Option<&Cursor>, limit: usize) -> (r: (String, Vec<SqlArg>))
    requires
        limit < i64::MAX,
        limit < usize::MAX,
        words(query@).len() > 0,
    ensures
        ({
            let ws = words(query@);
            let fts = trigram_usable(ws);
            let chat = scope_chat(*scope);
            let c = scoped_cursor(cursor_view(cursor), chat);
            let mt = plan_matchers(ws);
            &&& r.0@ == search_sql_spec(fts, mt.len(), chat is Some, c is Some)
            &&& r.1@.len() == mt.len() + tail_args(chat, c, (limit + 1) as i64).len()
            &&& forall|i: int| 0 <= i < mt.len() ==> text_arg(#[trigger] r.1@[i]) == Some(mt[i])
            &&& r.1@.subrange(mt.len() as int, r.1@.len() as int) == tail_args(chat, c, (limit + 1) as i64)
        }),
{
    let terms = split_whitespace(query);
    let chat = match scope {
        SearchScope::All => None,
        SearchScope::Chat(id) => Some(*id),
    };
    let c = scope_cursor(cursor, chat);
    let fetch = (limit + 1) as i64;
    if use_trigram_index(&terms) {
        let matchers = vec![build_fts_query(query)];
        let r = keyset_query(true, &matchers, chat, c, fetch);
        assert(matchers@.map_values(|t: String| t@) =~= plan_matchers(words(query@)));
        r
    } else {
        let r = keyset_query(false, &terms, chat, c, fetch);
        r
    }
}

// ----- Rows of a keyset answer -----

/// Whether a row has the columns a search selects.
pub open spec fn row_decodes(row: Seq<SqlValue>) -> bool {
    int_at(row, 0) is Some && int_at(row, 1) is Some && int_at(row, 2) is Some && text_at(row, 3) is Some
        && (text_at(row, 4) is Some || is_null_at(row, 4)) && text_at(row, 5) is Some
}

/// The sort key of a row.
pub open spec fn row_key(row: Seq<SqlValue>) -> Cursor {
    Cursor { timestamp: int_at(row, 2)->0, chat_id: int_at(row, 1)->0, message_id: int_at(row, 0)->0 }
}

/// `m` is the hit that `row` holds.
pub open spec fn hit_matches(m: MessageWithChat, row: Seq<SqlValue>) -> bool {
    &&& m.message_id == int_at(row, 0)->0
    &&& m.chat_id == int_at(row, 1)->0
    &&& m.timestamp == int_at(row, 2)->0
    &&& m.text_plain@ == text_at(row, 3)->0
    &&& m.chat_title@ == text_at(row, 5)->0
    &&& (match m.link { Some(l) => text_at(row, 4) == Some(l@), None => is_null_at(row, 4) })
}

/// A valid keyset answer: at most `limit` rows, each decodable, in strictly
/// increasing result order, after the cursor and inside the scope.
pub open spec fn rows_valid(rows: Seq<Vec<SqlValue>>, chat: Option<i64>, cursor: Option<Cursor>, limit: nat) -> bool {
    &&& rows.len() <= limit
    &&& forall|i: int| 0 <= i < rows.len() ==> row_decodes(#[trigger] rows[i]@)
    &&& forall|a: int, b: int| 0 <= a < b < rows.len() ==> sorts_before(row_key(#[trigger] rows[a]@), row_key(#[trigger] rows[b]@))
    &&& forall|i: int| 0 <= i < rows.len() ==> (cursor is None || sorts_before(cursor->0, row_key(#[trigger] rows[i]@)))
    &&& forall|i: int| 0 <= i < rows.len() ==> (chat is None || row_key(#[trigger] rows[i]@).chat_id == chat->0)
}

/// Decodes the rows of a keyset query and checks that they form a valid
/// answer; any row that does not makes the whole answer `BadRow`.
pub fn hits_from_rows(rows: &Vec<Vec<SqlValue>>, chat: Option<i64>, cursor: Option<Cursor>, limit: usize) -> (r: Result<Vec<MessageWithChat>, StoreError>)
    ensures
        r is Ok <==> rows_valid(rows@, chat, cursor, limit as nat),
        r matches Err(e) ==> e is BadRow,
        r matches Ok(v) ==> {
            &&& v@.len() == rows@.len()
            &&& forall|i: int| 0 <= i < v@.len() ==> hit_matches(#[trigger] v@[i], rows@[i]@)
            &&& hits_valid(v@, chat, cursor, limit as nat)
        },
{
    if rows.len() > limit {
        return Err(StoreError::BadRow);
    }
    let mut out: Vec<MessageWithChat> = Vec::new();
    let mut i: usize = 0;
    while i < rows.len()
        invariant
            i <= rows@.len(),
            rows@.len() <= limit,
            out@.len() == i,
            forall|j: int| 0 <= j < i ==> row_decodes(#[trigger] rows@[j]@),
            forall|j: int| 0 <= j < i ==> hit_matches(#[trigger] out@[j], rows@[j]@),
            forall|j: int| 0 <= j < i ==> #[trigger] key_of(out@[j]) == row_key(rows@[j]@),
            forall|a: int, b: int| 0 <= a < b < i ==> sorts_before(row_key(#[trigger] rows@[a]@), row_key(#[trigger] rows@[b]@)),
            forall|j: int| 0 <= j < i ==> (cursor is None || sorts_before(cursor->0, row_key(#[trigger] rows@[j]@))),
            forall|j: int| 0 <= j < i ==> (chat is None || row_key(#[trigger] rows@[j]@).chat_id == chat->0),
        decreases rows@.len() - i,
    {
        let m = match decode_hit(&rows[i]) {
            Ok(m) => m,
            Err(_) => {
                assert(!row_decodes(rows@[i as int]@));
                return Err(StoreError::BadRow);
            },
        };
        let k = Cursor { timestamp: m.timestamp, chat_id: m.chat_id, message_id: m.message_id };
        assert(k == row_key(rows@[i as int]@));
        match chat {
            Some(id) => if m.chat_id != id { return Err(StoreError::BadRow); },
            None => {},
        }
        match cursor {
            Some(cc) => if !key_before(&cc, &k) { return Err(StoreError::BadRow); },
            None => {},
        }
        if i > 0 {
            let last = &out[i - 1];
            let lk = Cursor { timestamp: last.timestamp, chat_id: last.chat_id, message_id: last.message_id };
            assert(lk == key_of(out@[i - 1]));
            if !key_before(&lk, &k) {
                return Err(StoreError::BadRow);
            }
        }
        proof {
            assert forall|a: int, b: int| 0 <= a < b < i + 1 implies sorts_before(row_key(#[trigger] rows@[a]@), row_key(#[trigger] rows@[b]@)) by {
                if b == i && a < i - 1 {
                    assert(sorts_before(row_key(rows@[a]@), row_key(rows@[i - 1]@)));
                }
            }
        }
        out.push(m);
        i = i + 1;
    }
    proof {
        assert(forall|j: int| 0 <= j < out@.len() ==> #[trigger] keys(out@)[j] == key_of(out@[j]));
        assert forall|a: int, b: int| 0 <= a < b < keys(out@).len() implies sorts_before(#[trigger] keys(out@)[a], #[trigger] keys(out@)[b]) by {
            assert(key_of(out@[a]) == row_key(rows@[a]@));
            assert(key_of(out@[b]) == row_key(rows@[b]@));
        }
        assert forall|j: int| 0 <= j < out@.len() implies (cursor is None || sorts_before(cursor->0, #[trigger] key_of(out@[j]))) by {
            assert(key_of(out@[j]) == row_key(rows@[j]@));
        }
        assert forall|j: int| 0 <= j < out@.len() implies (chat is None || (#[trigger] out@[j]).chat_id == chat->0) by {
            assert(key_of(out@[j]) == row_key(rows@[j]@));
        }
    }
    Ok(out)
}

// ----- Query planning -----

/// A term quoted for the trigram index: wrapped in `"`, inner `"` doubled.
pub open spec fn quote_term(t: Seq<char>) -> Seq<char> {
    seq!['"'] + double_quotes(t) + seq!['"']
}

pub open spec fn double_quotes(t: Seq<char>) -> Seq<char>
    decreases t.len(),
{
    if t.len() == 0 {
        Seq::empty()
    } else if t.last() == '"' {
        double_quotes(t.drop_last()) + seq!['"', '"']
    } else {
        double_quotes(t.drop_last()).push(t.last())
    }
}

/// Quoted terms separated by single spaces (the index ANDs them).
pub open spec fn fts_query_spec(ws: Seq<Seq<char>>) -> Seq<char>
    decreases ws.len(),
{
    if ws.len() == 0 {
        Seq::empty()
    } else if ws.len() == 1 {
        quote_term(ws[0])
    } else {
        fts_query_spec(ws.drop_last()) + seq![' '] + quote_term(ws.last())
    }
}

fn push_quoted(s: &mut String, t: &String)
    ensures
        final(s)@ == old(s)@ + quote_term(t@),
{
    let cs = crate::text::chars_of(t.as_str());
    push_char(s, '"');
    let ghost base = s@;
    let mut i: usize = 0;
    while i < cs.len()
        invariant
            i <= cs@.len(),
            cs@ == t@,
            s@ == base + double_quotes(cs@.subrange(0, i as int)),
        decreases cs@.len() - i,
    {
        let c = cs[i];
        let ghost pre = cs@.subrange(0, i as int + 1);
        assert(pre.drop_last() =~= cs@.subrange(0, i as int));
        assert(pre.last() == c);
        if c == '"' {
            push_char(s, '"');
            push_char(s, '"');
            assert(s@ =~= base + double_quotes(pre));
        } else {
            push_char(s, c);
            assert(s@ =~= base + double_quotes(pre));
        }
        i = i + 1;
    }
    assert(cs@.subrange(0, cs@.len() as int) =~= t@);
    push_char(s, '"');
    assert(final(s)@ =~= old(s)@ + quote_term(t@));
}

/// The trigram-index query of a user query: every whitespace-separated
/// term quoted, terms separated by spaces.
pub fn build_fts_query(query: &str) -> (r: String)
    ensures
        r@ == fts_query_spec(words(query@)),
{
    let ws = split_whitespace(query);
    let ghost wv = ws@.map_values(|w: String| w@);
    let mut s = String::new();
    let mut i: usize = 0;
    while i < ws.len()
        invariant
            i <= ws@.len(),
            wv == ws@.map_values(|w: String| w@),
            wv == words(query@),
            s@ == fts_query_spec(wv.subrange(0, i as int)),
        decreases ws@.len() - i,
    {
        let ghost pre = wv.subrange(0, i as int + 1);
        assert(pre.drop_last() =~= wv.subrange(0, i as int));
        assert(pre.last() == ws@[i as int]@);
        if i > 0 {
            push_char(&mut s, ' ');
        }
        push_quoted(&mut s, &ws[i]);
        proof {
            if i == 0 {
                assert(wv.subrange(0, 0) =~= Seq::<Seq<char>>::empty());
                assert(s@ =~= fts_query_spec(pre));
            }
        }
        i = i + 1;
    }
    assert(wv.subrange(0, wv.len() as int) =~= wv);
    s
}

/// The trigram path serves a query only when every term has at least three
/// characters: shorter terms yield no trigrams and would match nothing.
pub open spec fn trigram_usable(terms: Seq<Seq<char>>) -> bool {
    forall|i: int| 0 <= i < terms.len() ==> (#[trigger] terms[i]).len() >= 3
}

pub fn use_trigram_index(terms: &Vec<String>) -> (r: bool)
    ensures
        r == trigram_usable(terms@.map_values(|t: String| t@)),
{
    let mut i: usize = 0;
    while i < terms.len()
        invariant
            i <= terms@.len(),
            forall|k: int| 0 <= k < i ==> (#[trigger] terms@[k])@.len() >= 3,
        decreases terms@.len() - i,
    {
        if terms[i].as_str().unicode_len() < 3 {
            assert(terms@.map_values(|t: String| t@)[i as int].len() < 3);
            return false;
        }
        i = i + 1;
    }
    true
}

// ----- Pages -----

pub open spec fn key_of(m: MessageWithChat) -> Cursor {
    Cursor { timestamp: m.timestamp, chat_id: m.chat_id, message_id: m.message_id }
}

pub open spec fn keys(rows: Seq<MessageWithChat>) -> Seq<Cursor> {
    rows.map_values(|m: MessageWithChat| key_of(m))
}

/// Result order: newest first, then by dialog, then by message id.
pub open spec fn sorts_before(a: Cursor, b: Cursor) -> bool {
    a.timestamp > b.timestamp || (a.timestamp == b.timestamp && (a.chat_id < b.chat_id
        || (a.chat_id == b.chat_id && a.message_id < b.message_id)))
}

/// Whether `a` comes before `b` in result order.
pub fn key_before(a: &Cursor, b: &Cursor) -> (r: bool)
    ensures
        r == sorts_before(*a, *b),
{
    a.timestamp > b.timestamp || (a.timestamp == b.timestamp && (a.chat_id < b.chat_id
        || (a.chat_id == b.chat_id && a.message_id < b.message_id)))
}

/// Rows as a keyset query must return them: at most `limit`, in strictly
/// increasing result order, all after the cursor and, when scoped, all of
/// the one dialog.
pub open spec fn hits_valid(v: Seq<MessageWithChat>, chat: Option<i64>, cursor: Option<Cursor>, limit: nat) -> bool {
    &&& v.len() <= limit
    &&& strictly_ordered(keys(v))
    &&& forall|i: int| 0 <= i < v.len() ==> (cursor is None || sorts_before(cursor->0, #[trigger] key_of(v[i])))
    &&& forall|i: int| 0 <= i < v.len() ==> (chat is None || (#[trigger] v[i]).chat_id == chat->0)
}

pub open spec fn item_key(it: SearchItem) -> Cursor {
    Cursor { timestamp: it.timestamp, chat_id: it.chat_id, message_id: it.message_id }
}

pub open spec fn item_keys(items: Seq<SearchItem>) -> Seq<Cursor> {
    items.map_values(|it: SearchItem| item_key(it))
}

/// The rows kept on a page fetched with one extra row.
pub open spec fn page_take<T>(fetched: Seq<T>, limit: nat) -> Seq<T> {
    if fetched.len() > limit { fetched.take(limit as int) } else { fetched }
}

/// The cursor of the next page: the last kept row, when more rows exist.
pub open spec fn page_next(fetched: Seq<Cursor>, limit: nat) -> Option<Cursor> {
    if fetched.len() > limit && limit > 0 { Some(fetched[limit - 1]) } else { None }
}

pub open spec fn link_view(l: Option<String>) -> Option<Seq<char>> {
    match l {
        Some(s) => Some(s@),
        None => None,
    }
}

/// `item` shows `row`, with the highlights of `terms` in its text.
pub open spec fn item_of(item: SearchItem, row: MessageWithChat, terms: Seq<String>) -> bool {
    &&& item.message_id == row.message_id
    &&& item.chat_id == row.chat_id
    &&& item.timestamp == row.timestamp
    &&& item.text@ == row.text_plain@
    &&& link_view(item.link) == link_view(row.link)
    &&& item.chat_title@ == row.chat_title@
    &&& merge_of(item.highlights@, spans_of(encode_utf8(lower_of(row.text_plain@)), lowered_terms(terms)))
}

/// Turns up to `limit + 1` fetched rows into a page: at most `limit` items
/// with their highlights, and a cursor at the last kept row when a further
/// row was fetched.
pub fn finish_page(rows: &Vec<MessageWithChat>, limit: usize, terms: &Vec<String>) -> (r: SearchResult)
    ensures
        r.items@.len() == page_take(rows@, limit as nat).len(),
        forall|i: int| 0 <= i < r.items@.len() ==> item_of(#[trigger] r.items@[i], rows@[i], terms@),
        r.next_cursor == page_next(keys(rows@), limit as nat),
{
    let kept: usize = if rows.len() > limit { limit } else { rows.len() };
    let mut items: Vec<SearchItem> = Vec::new();
    let mut i: usize = 0;
    while i < kept
        invariant
            kept == page_take(rows@, limit as nat).len(),
            kept <= rows@.len(),
            i <= kept,
            items@.len() == i,
            forall|k: int| 0 <= k < i ==> item_of(#[trigger] items@[k], rows@[k], terms@),
        decreases kept - i,
    {
        let m = &rows[i];
        let link = match &m.link {
            Some(l) => Some(l.clone()),
            None => None,
        };
        let highlights = find_highlights(m.text_plain.as_str(), terms.as_slice());
        items.push(SearchItem {
            message_id: m.message_id,
            chat_id: m.chat_id,
            timestamp: m.timestamp,
            text: m.text_plain.clone(),
            link,
            chat_title: m.chat_title.clone(),
            highlights,
        });
        i = i + 1;
    }
    let next_cursor = if rows.len() > limit && limit > 0 {
        let last = &rows[limit - 1];
        Some(Cursor { timestamp: last.timestamp, chat_id: last.chat_id, message_id: last.message_id })
    } else {
        None
    };
    SearchResult { items, next_cursor }
}


// ----- Keyset pagination -----

/// Keys in strictly increasing result order (so no key repeats).
pub open spec fn strictly_ordered(all: Seq<Cursor>) -> bool {
    forall|i: int, j: int| 0 <= i < j < all.len() ==> sorts_before(#[trigger] all[i], #[trigger] all[j])
}

/// The rows a keyset query selects: those strictly after the cursor, in order.
pub open spec fn after(all: Seq<Cursor>, c: Option<Cursor>) -> Seq<Cursor>
    decreases all.len(),
{
    if all.len() == 0 {
        Seq::empty()
    } else {
        let rest = after(all.drop_first(), c);
        if c is None || sorts_before(c->0, all[0]) {
            seq![all[0]] + rest
        } else {
            rest
        }
    }
}

proof fn lemma_after_all(all: Seq<Cursor>, c: Option<Cursor>)
    requires
        forall|i: int| 0 <= i < all.len() ==> c is None || sorts_before(c->0, #[trigger] all[i]),
    ensures
        after(all, c) == all,
    decreases all.len(),
{
    if all.len() > 0 {
        assert forall|i: int| 0 <= i < all.drop_first().len() implies c is None || sorts_before(c->0, #[trigger] all.drop_first()[i]) by {
            assert(all.drop_first()[i] == all[i + 1]);
        }
        lemma_after_all(all.drop_first(), c);
        assert(seq![all[0]] + all.drop_first() =~= all);
    }
}

proof fn lemma_after_key(all: Seq<Cursor>, j: int)
    requires
        strictly_ordered(all),
        0 <= j < all.len(),
    ensures
        after(all, Some(all[j])) == all.subrange(j + 1, all.len() as int),
    decreases all.len(),
{
    let t = all.drop_first();
    assert(strictly_ordered(t)) by {
        assert forall|a: int, b: int| 0 <= a < b < t.len() implies sorts_before(#[trigger] t[a], #[trigger] t[b]) by {
            assert(t[a] == all[a + 1] && t[b] == all[b + 1]);
        }
    }
    if j == 0 {
        assert forall|i: int| 0 <= i < t.len() implies Some(all[0]) is None || sorts_before(all[0], #[trigger] t[i]) by {
            assert(t[i] == all[i + 1]);
        }
        lemma_after_all(t, Some(all[0]));
        assert(t =~= all.subrange(1, all.len() as int));
    } else {
        assert(sorts_before(all[0], all[j]));
        assert(t[j - 1] == all[j]);
        lemma_after_key(t, j - 1);
        assert(t.subrange(j, t.len() as int) =~= all.subrange(j + 1, all.len() as int));
    }
}

/// Keyset pages tile the result: for a fixed, strictly ordered snapshot,
/// the page fetched after a cursor (one extra row, `limit` kept) is followed
/// exactly by what lies after the page's own next cursor, and without a next
/// cursor the page holds everything that was left. Walking the pages thus
/// returns every row once, in order.
pub proof fn lemma_keyset_pages_tile(all: Seq<Cursor>, c: Option<Cursor>, limit: nat)
    requires
        strictly_ordered(all),
        limit > 0,
        c is None || all.contains(c->0),
    ensures
        ({
            let left = after(all, c);
            let fetched = page_take(left, limit + 1);
            let kept = page_take(fetched, limit);
            match page_next(fetched, limit) {
                None => kept == left,
                Some(k) => all.contains(k) && kept.len() == limit && left == kept + after(all, Some(k)),
            }
        }),
{
    let left = after(all, c);
    let s: int = match c {
        None => 0,
        Some(k) => (choose|j: int| 0 <= j < all.len() && all[j] == k) + 1,
    };
    match c {
        None => {
            lemma_after_all(all, c);
            assert(all.subrange(0, all.len() as int) =~= all);
        },
        Some(k) => {
            lemma_after_key(all, s - 1);
        },
    }
    assert(left == all.subrange(s, all.len() as int));
    let fetched = page_take(left, limit + 1);
    let kept = page_take(fetched, limit);
    if fetched.len() > limit {
        let k = fetched[limit - 1];
        assert(k == all[s + limit - 1]);
        lemma_after_key(all, s + limit - 1);
        assert(left =~= kept + all.subrange(s + limit, all.len() as int));
    }
}

} // verus!
