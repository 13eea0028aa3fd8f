//! The collector's decisions: dialog rows from the dialog list, the peer to
//! address a stored dialog by, which fetched messages become rows, the
//! flood-wait retry rule, the backfill order and session reuse.
use vstd::prelude::*;
use crate::link::{build_link, handle_view, link_spec, CHANNEL_ID_OFFSET};
use crate::rows::{ChatRow, MessageRow, SyncStateRow};
use crate::text::{strip_whitespace, strip_ws};
use crate::link::str_eq;

verus! {

/// Messages taken per fetch call.
pub const BATCH_SIZE: usize = 100;
/// Retries after a flood-wait signal before giving up.
pub const MAX_FLOOD_RETRIES: usize = 2;
/// Cool-down assumed when a flood-wait signal names none.
pub const DEFAULT_FLOOD_WAIT: i32 = 5;

/// Collector failures.
#[derive(Clone, Debug, PartialEq, Eq)]
pub enum CollectorError {
    Io(String),
    Session(String),
    Auth(String),
    Api(String),
    /// Rate limit: seconds to wait before retrying.
    FloodWait(i32),
    InvalidPath,
    /// A remote call exceeded its deadline.
    Timeout,
}

/// Kind of a dialog as the client lists it.
#[derive(Clone, Copy, Debug, PartialEq, Eq, Structural)]
pub enum DialogKind {
    User,
    Group,
    Channel,
}

pub open spec fn opt_string_view(o: Option<String>) -> Option<Seq<char>> {
    match o {
        Some(s) => Some(s@),
        None => None,
    }
}

/// The stored row for a listed dialog. Direct-message dialogs are skipped
/// unless `include_dms`; groups carry no credential; channels and
/// supergroups are recorded as `supergroup` with their credential.
pub fn chat_row_from_dialog(
    kind: DialogKind,
    dialog_id: i64,
    name: Option<&str>,
    username: Option<&str>,
    access_hash: Option<i64>,
    include_dms: bool,
) -> (r: Option<ChatRow>)
    ensures
        r is None <==> (kind == DialogKind::User && !include_dms),
        r matches Some(c) ==> {
            &&& c.chat_id == dialog_id
            &&& c.title@ == (match name { Some(n) => n@, None => Seq::empty() })
            &&& c.chat_type@ == (match kind {
                DialogKind::User => "dm"@,
                DialogKind::Group => "group"@,
                DialogKind::Channel => "supergroup"@,
            })
            &&& opt_string_view(c.username) == handle_view(username)
            &&& c.access_hash == (if kind == DialogKind::Channel { access_hash } else { None })
            &&& !c.is_excluded
        },
{
    let chat_type = match kind {
        DialogKind::User => {
            if !include_dms {
                return None;
            }
            "dm"
        },
        DialogKind::Group => "group",
        DialogKind::Channel => "supergroup",
    };
    let title = match name {
        Some(n) => String::from_str(n),
        None => String::new(),
    };
    let uname = match username {
        Some(u) => Some(String::from_str(u)),
        None => None,
    };
    let hash = match kind {
        DialogKind::Channel => access_hash,
        _ => None,
    };
    Some(ChatRow {
        chat_id: dialog_id,
        title,
        chat_type: String::from_str(chat_type),
        username: uname,
        access_hash: hash,
        is_excluded: false,
    })
}

/// How a stored dialog is addressed: a basic group by its bare chat id, any
/// other kind as a channel with its access credential.
#[derive(Clone, Copy, Debug, PartialEq, Eq, Structural)]
pub enum PeerKind {
    Chat,
    Channel,
}

#[derive(Clone, Copy, Debug, PartialEq, Eq, Structural)]
pub struct PeerRef {
    pub kind: PeerKind,
    pub bare_id: i64,
    pub access_hash: i64,
}

/// The ids for which the bare id is representable.
pub open spec fn peer_ref_defined(chat_id: int, is_group: bool) -> bool {
    chat_id > i64::MIN && (is_group || -chat_id - CHANNEL_ID_OFFSET >= i64::MIN)
}

/// Reconstructs the peer reference of a stored dialog: for `group`, a chat
/// with bare id `-chat_id` and no credential; otherwise a channel with bare
/// id `-chat_id - 10^12` and the saved credential (zero when none).
pub fn peer_ref_from_chat(chat: &ChatRow) -> (r: PeerRef)
    requires
        peer_ref_defined(chat.chat_id as int, chat.chat_type@ == "group"@),
    ensures
        chat.chat_type@ == "group"@ ==> r == (PeerRef { kind: PeerKind::Chat, bare_id: (-chat.chat_id) as i64, access_hash: 0 }),
        chat.chat_type@ != "group"@ ==> r == (PeerRef {
            kind: PeerKind::Channel,
            bare_id: (-chat.chat_id - CHANNEL_ID_OFFSET) as i64,
            access_hash: match chat.access_hash { Some(h) => h, None => 0 },
        }),
{
    let hash = match chat.access_hash {
        Some(h) => h,
        None => 0,
    };
    if str_eq(chat.chat_type.as_str(), "group") {
        PeerRef { kind: PeerKind::Chat, bare_id: -chat.chat_id, access_hash: 0 }
    } else {
        PeerRef { kind: PeerKind::Channel, bare_id: (-chat.chat_id) - (CHANNEL_ID_OFFSET as i64), access_hash: hash }
    }
}

/// The row stored for a fetched message: its text, the text without
/// whitespace, and the deep link.
pub fn build_message_row(chat: &ChatRow, message_id: i64, timestamp: i64, text: &str) -> (r: MessageRow)
    ensures
        r.message_id == message_id,
        r.chat_id == chat.chat_id,
        r.timestamp == timestamp,
        r.text_plain@ == text@,
        r.text_stripped@ == strip_ws(text@),
        r.link matches Some(l) && l@ == link_spec(chat.chat_id as int, opt_string_view(chat.username), message_id as int, chat.chat_type@),
{
    let uname: Option<&str> = match &chat.username {
        Some(u) => Some(u.as_str()),
        None => None,
    };
    let link = build_link(chat.chat_id, uname, message_id, chat.chat_type.as_str());
    MessageRow {
        message_id,
        chat_id: chat.chat_id,
        timestamp,
        text_plain: String::from_str(text),
        text_stripped: strip_whitespace(text),
        link: Some(link),
    }
}

/// One fetch call's batch, filled from a newest-first message stream.
pub struct FetchBatch {
    pub oldest_id: Option<i64>,
    pub rows: Vec<MessageRow>,
    pub finished: bool,
}

/// Every row has non-empty text and, as its stripped text, its text
/// without whitespace.
pub open spec fn rows_stored_ok(rows: Seq<MessageRow>) -> bool {
    forall|i: int| 0 <= i < rows.len() ==> (#[trigger] rows[i]).text_plain@.len() > 0
        && rows[i].text_stripped@ == strip_ws(rows[i].text_plain@)
}

/// Whether the stream has reached a message already stored.
pub open spec fn reached_stored(oldest_id: Option<i64>, message_id: i64) -> bool {
    oldest_id matches Some(o) && message_id <= o
}

impl FetchBatch {
    pub fn new(oldest_id: Option<i64>) -> (r: FetchBatch)
        ensures
            rows_stored_ok(r.rows@),
            r.oldest_id == oldest_id,
            r.rows@.len() == 0,
            !r.finished,
    {
        FetchBatch { oldest_id, rows: Vec::new(), finished: false }
    }

    /// Takes the next message of the stream and says whether to go on. The
    /// batch stops at a message at or below the stored bookmark, or once it
    /// holds a full batch; a message with empty text is skipped.
    pub fn offer(&mut self, chat: &ChatRow, message_id: i64, timestamp: i64, text: &str) -> (more: bool)
        requires
            !old(self).finished,
            old(self).rows@.len() < BATCH_SIZE,
        ensures
            final(self).oldest_id == old(self).oldest_id,
            more == !final(self).finished,
            final(self).rows@.len() <= BATCH_SIZE,
            reached_stored(old(self).oldest_id, message_id) ==> final(self).rows@ == old(self).rows@ && final(self).finished,
            !reached_stored(old(self).oldest_id, message_id) && text@.len() == 0 ==> final(self).rows@ == old(self).rows@ && !final(self).finished,
            !reached_stored(old(self).oldest_id, message_id) && text@.len() > 0 ==> {
                &&& final(self).rows@.len() == old(self).rows@.len() + 1
                &&& final(self).rows@.subrange(0, old(self).rows@.len() as int) == old(self).rows@
                &&& final(self).rows@.last().message_id == message_id
                &&& final(self).rows@.last().text_plain@ == text@
                &&& final(self).rows@.last().text_stripped@ == strip_ws(text@)
                &&& final(self).rows@.last().chat_id == chat.chat_id
                &&& final(self).rows@.last().timestamp == timestamp
                &&& final(self).rows@.last().link matches Some(l) && l@ == link_spec(chat.chat_id as int,
                    opt_string_view(chat.username), message_id as int, chat.chat_type@)
                &&& final(self).finished == (final(self).rows@.len() == BATCH_SIZE)
            },
            rows_stored_ok(old(self).rows@) ==> rows_stored_ok(final(self).rows@),
    {
        match self.oldest_id {
            Some(o) => {
                if message_id <= o {
                    self.finished = true;
                    return false;
                }
            },
            None => {},
        }
        if text.is_empty() {
            return true;
        }
        let row = build_message_row(chat, message_id, timestamp, text);
        let ghost before = self.rows@;
        self.rows.push(row);
        assert(self.rows@.subrange(0, before.len() as int) =~= before);
        assert forall|i: int| 0 <= i < self.rows@.len() && rows_stored_ok(before) implies (#[trigger] self.rows@[i]).text_plain@.len() > 0
            && self.rows@[i].text_stripped@ == strip_ws(self.rows@[i].text_plain@) by {
            if i < before.len() {
                assert(self.rows@[i] == before[i]);
            }
        }
        if self.rows.len() >= BATCH_SIZE {
            self.finished = true;
        }
        !self.finished
    }
}

/// The cool-down of a flood-wait signal: the one it names, else five seconds.
pub fn flood_wait_seconds(value: Option<i32>) -> (r: i32)
    ensures
        r == match value { Some(v) => v, None => DEFAULT_FLOOD_WAIT },
{
    match value {
        Some(v) => v,
        None => DEFAULT_FLOOD_WAIT,
    }
}

/// What the retry wrapper does after a failed fetch.
#[derive(Clone, Copy, Debug, PartialEq, Eq, Structural)]
pub enum RetryAction {
    /// Sleep this many seconds, then fetch again.
    SleepThenRetry(i32),
    /// Surface the error.
    GiveUp,
}

/// After failed attempt number `attempt` (from 0): a flood-wait is slept
/// off and retried while fewer than two retries have been made; any other
/// error, or a third flood-wait, is surfaced.
pub fn retry_action(attempt: usize, err: &CollectorError) -> (r: RetryAction)
    ensures
        (err matches CollectorError::FloodWait(s) && attempt < MAX_FLOOD_RETRIES) ==> r == RetryAction::SleepThenRetry(err->FloodWait_0),
        !(err matches CollectorError::FloodWait(_) && attempt < MAX_FLOOD_RETRIES) ==> r == RetryAction::GiveUp,
{
    match err {
        CollectorError::FloodWait(s) => {
            if attempt < MAX_FLOOD_RETRIES {
                RetryAction::SleepThenRetry(*s)
            } else {
                RetryAction::GiveUp
            }
        },
        _ => RetryAction::GiveUp,
    }
}

/// Attempts made and seconds slept by the retry wrapper when the fetch
/// fails with `errs[0]`, `errs[1]`, ... until it succeeds (`errs` exhausted)
/// or gives up.
pub open spec fn retry_run(errs: Seq<CollectorError>, attempt: nat) -> (nat, Seq<i32>)
    decreases errs.len(),
{
    if errs.len() == 0 {
        (attempt + 1, Seq::empty())
    } else {
        match errs[0] {
            CollectorError::FloodWait(s) => if attempt < MAX_FLOOD_RETRIES {
                let rest = retry_run(errs.drop_first(), attempt + 1);
                (rest.0, seq![s] + rest.1)
            } else {
                (attempt + 1, Seq::empty())
            },
            _ => (attempt + 1, Seq::empty()),
        }
    }
}

/// A fetch that keeps signalling flood-wait is tried three times, with two
/// sleeps in between, and then gives up; one flood-wait followed by success
/// costs a single sleep of the signalled length.
pub proof fn lemma_flood_wait_bounded(s: i32, t: i32, u: i32, rest: Seq<CollectorError>)
    ensures
        retry_run(seq![CollectorError::FloodWait(s), CollectorError::FloodWait(t), CollectorError::FloodWait(u)] + rest, 0)
            == (3nat, seq![s, t]),
        retry_run(seq![CollectorError::FloodWait(s)], 0) == (2nat, seq![s]),
{
    let e = seq![CollectorError::FloodWait(s), CollectorError::FloodWait(t), CollectorError::FloodWait(u)] + rest;
    let e1 = e.drop_first();
    let e2 = e1.drop_first();
    assert(e[0] == CollectorError::FloodWait(s));
    assert(e1[0] == CollectorError::FloodWait(t));
    assert(e2[0] == CollectorError::FloodWait(u));
    assert(e2.len() > 0);
    assert(retry_run(e2, 2) == (3nat, Seq::<i32>::empty()));
    assert(retry_run(e1, 1) == (3nat, seq![t] + Seq::<i32>::empty()));
    assert(seq![t] + Seq::<i32>::empty() =~= seq![t]);
    assert(retry_run(e, 0) == (3nat, seq![s] + seq![t]));
    assert(seq![s] + seq![t] =~= seq![s, t]);
    let one = seq![CollectorError::FloodWait(s)];
    assert(one[0] == CollectorError::FloodWait(s));
    assert(one.drop_first() =~= Seq::<CollectorError>::empty());
    assert(retry_run(one.drop_first(), 1) == (2nat, Seq::<i32>::empty()));
    assert(seq![s] + Seq::<i32>::empty() =~= seq![s]);
}

/// Backfill priority: broadcast channels (stored as `supergroup`) first,
/// basic groups next, large supergroups after them, direct messages last.
pub open spec fn priority_spec(chat_type: Seq<char>, chat_id: int) -> int {
    if chat_type == "supergroup"@ {
        0
    } else if chat_type == "dm"@ {
        3
    } else if chat_id > -(CHANNEL_ID_OFFSET as int) {
        1
    } else {
        2
    }
}

pub fn backfill_priority(chat: &ChatRow) -> (r: u8)
    ensures
        r as int == priority_spec(chat.chat_type@, chat.chat_id as int),
{
    if str_eq(chat.chat_type.as_str(), "supergroup") {
        0
    } else if str_eq(chat.chat_type.as_str(), "dm") {
        3
    } else if chat.chat_id > -(CHANNEL_ID_OFFSET as i64) {
        1
    } else {
        2
    }
}

/// Indices below `n` whose priority is `k`, in increasing order.
pub open spec fn bucket(p: Seq<int>, k: int, n: int) -> Seq<usize>
    decreases n,
{
    if n <= 0 {
        Seq::empty()
    } else if p[n - 1] == k {
        bucket(p, k, n - 1).push((n - 1) as usize)
    } else {
        bucket(p, k, n - 1)
    }
}

/// The backfill order as indices: by priority, ties kept in list order.
pub open spec fn backfill_order_spec(p: Seq<int>) -> Seq<usize> {
    bucket(p, 0, p.len() as int) + bucket(p, 1, p.len() as int) + bucket(p, 2, p.len() as int)
        + bucket(p, 3, p.len() as int)
}

/// Dialogs in backfill order, as indices into `priority`: priority 0
/// first, then 1, 2 and 3, ties in list order; any other value is left out.
pub fn order_by_priority(priority: &Vec<u8>) -> (r: Vec<usize>)
    ensures
        r@ == backfill_order_spec(priority@.map_values(|x: u8| x as int)),
{
    let ghost p = priority@.map_values(|x: u8| x as int);
    let mut out: Vec<usize> = Vec::new();
    let mut k: u8 = 0;
    while k < 4
        invariant
            k <= 4,
            p == priority@.map_values(|x: u8| x as int),
            out@ == (if k == 0 { Seq::empty() } else if k == 1 { bucket(p, 0, p.len() as int) }
                else if k == 2 { bucket(p, 0, p.len() as int) + bucket(p, 1, p.len() as int) }
                else if k == 3 { bucket(p, 0, p.len() as int) + bucket(p, 1, p.len() as int) + bucket(p, 2, p.len() as int) }
                else { backfill_order_spec(p) }),
        decreases 4 - k,
    {
        let ghost base = out@;
        let mut i: usize = 0;
        while i < priority.len()
            invariant
                i <= priority@.len(),
                p == priority@.map_values(|x: u8| x as int),
                out@ == base + bucket(p, k as int, i as int),
            decreases priority@.len() - i,
        {
            if priority[i] == k {
                out.push(i);
                assert(out@ =~= base + bucket(p, k as int, i as int + 1));
            } else {
                assert(bucket(p, k as int, i as int + 1) == bucket(p, k as int, i as int));
            }
            i = i + 1;
        }
        k = k + 1;
    }
    out
}

/// The priority of each dialog to collect: its backfill priority when its
/// id is among `active_ids`, else 4 (not collected).
pub open spec fn collect_priorities(chats: Seq<ChatRow>, active_ids: Seq<i64>) -> Seq<int> {
    Seq::new(chats.len(), |i: int| if active_ids.contains(chats[i].chat_id) {
        priority_spec(chats[i].chat_type@, chats[i].chat_id as int)
    } else {
        4
    })
}

/// The dialogs of a fresh listing to collect, as indices into `chats`: those
/// still active (not excluded), broadcast channels first, then basic groups,
/// large supergroups and direct messages, ties in list order.
pub fn collection_order(chats: &Vec<ChatRow>, active_ids: &Vec<i64>) -> (r: Vec<usize>)
    ensures
        r@ == backfill_order_spec(collect_priorities(chats@, active_ids@)),
{
    let mut prio: Vec<u8> = Vec::new();
    let mut i: usize = 0;
    while i < chats.len()
        invariant
            i <= chats@.len(),
            prio@.len() == i,
            forall|j: int| 0 <= j < i ==> (#[trigger] prio@[j]) as int == collect_priorities(chats@, active_ids@)[j],
        decreases chats@.len() - i,
    {
        let mut active = false;
        let mut j: usize = 0;
        while j < active_ids.len()
            invariant
                i < chats@.len(),
                j <= active_ids@.len(),
                active <==> active_ids@.subrange(0, j as int).contains(chats@[i as int].chat_id),
            decreases active_ids@.len() - j,
        {
            if active_ids[j] == chats[i].chat_id {
                active = true;
            }
            proof {
                let pre = active_ids@.subrange(0, j as int + 1);
                assert(pre[j as int] == active_ids@[j as int]);
                if active_ids@.subrange(0, j as int).contains(chats@[i as int].chat_id) {
                    let w = choose|w: int| 0 <= w < j && active_ids@.subrange(0, j as int)[w] == chats@[i as int].chat_id;
                    assert(pre[w] == active_ids@.subrange(0, j as int)[w]);
                }
                if pre.contains(chats@[i as int].chat_id) {
                    let w = choose|w: int| 0 <= w < j + 1 && pre[w] == chats@[i as int].chat_id;
                    if w < j {
                        assert(active_ids@.subrange(0, j as int)[w] == pre[w]);
                    }
                }
            }
            j = j + 1;
        }
        assert(active_ids@.subrange(0, active_ids@.len() as int) =~= active_ids@);
        let p: u8 = if active { backfill_priority(&chats[i]) } else { 4 };
        prio.push(p);
        i = i + 1;
    }
    assert(prio@.map_values(|x: u8| x as int) =~= collect_priorities(chats@, active_ids@));
    order_by_priority(&prio)
}

/// Where an incremental sync of a dialog stops: at the highest message id
/// already stored, when the dialog has a bookmark.
pub fn resume_point(state: &Option<SyncStateRow>) -> (r: Option<i64>)
    ensures
        r == match state { Some(s) => Some(s.last_message_id), None => None },
{
    match state {
        Some(s) => Some(s.last_message_id),
        None => None,
    }
}

/// What to do with the session file when connecting.
#[derive(Clone, Copy, Debug, PartialEq, Eq, Structural)]
pub enum SessionPlan {
    /// Connect with the existing session and probe whether it is authorized.
    ProbeExisting,
    /// Delete the leftover file of an unfinished login, then connect fresh.
    DeleteThenConnect,
    /// No session file: connect fresh.
    Connect,
}

/// A session is reused only after a completed login; a leftover file of an
/// aborted login is deleted first.
pub fn session_plan(authenticated: bool, session_exists: bool) -> (r: SessionPlan)
    ensures
        r == (if authenticated && session_exists { SessionPlan::ProbeExisting }
            else if session_exists { SessionPlan::DeleteThenConnect } else { SessionPlan::Connect }),
{
    if authenticated && session_exists {
        SessionPlan::ProbeExisting
    } else if session_exists {
        SessionPlan::DeleteThenConnect
    } else {
        SessionPlan::Connect
    }
}

/// Whether the stored `authenticated` flag is set (the value `1`).
pub fn authenticated_flag(value: &Option<String>) -> (r: bool)
    ensures
        r == (value matches Some(v) && v@ == "1"@),
{
    match value {
        Some(v) => str_eq(v.as_str(), "1"),
        None => false,
    }
}

} // verus!
