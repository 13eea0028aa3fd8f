//! Deep links back to a message (or a user) in the messenger client.
use vstd::prelude::*;
use crate::text::push_char;

verus! {

/// The decimal digit for `d` (taken modulo ten).
pub open spec fn digit_char(d: int) -> char {
    let d = d % 10;
    if d == 0 { '0' }
    else if d == 1 { '1' }
    else if d == 2 { '2' }
    else if d == 3 { '3' }
    else if d == 4 { '4' }
    else if d == 5 { '5' }
    else if d == 6 { '6' }
    else if d == 7 { '7' }
    else if d == 8 { '8' }
    else { '9' }
}

/// Decimal notation of a natural number, without leading zeros.
pub open spec fn dec(n: nat) -> Seq<char>
    decreases n,
{
    if n < 10 {
        seq![digit_char(n as int)]
    } else {
        dec(n / 10).push(digit_char((n % 10) as int))
    }
}

/// Decimal notation of an integer, with a leading `-` when negative.
pub open spec fn int_dec(n: int) -> Seq<char> {
    if n < 0 {
        seq!['-'] + dec((-n) as nat)
    } else {
        dec(n as nat)
    }
}

/// Offset between a channel's public dialog id and its bare id.
pub const CHANNEL_ID_OFFSET: u64 = 1_000_000_000_000;

/// `|chat_id| - 10^12`, or zero where that would be negative.
pub open spec fn channel_part(chat_id: int) -> nat {
    let a = if chat_id < 0 { -chat_id } else { chat_id };
    if a > CHANNEL_ID_OFFSET { (a - CHANNEL_ID_OFFSET) as nat } else { 0 }
}

/// A handle counts only when present and non-empty.
pub open spec fn has_handle(h: Option<Seq<char>>) -> bool {
    h is Some && h->0.len() > 0
}

pub open spec fn handle_view(h: Option<&str>) -> Option<Seq<char>> {
    match h {
        Some(s) => Some(s@),
        None => None,
    }
}

/// The deep link for a message of a dialog.
pub open spec fn link_spec(chat_id: int, handle: Option<Seq<char>>, message_id: int, kind: Seq<char>) -> Seq<char> {
    if kind == "dm"@ {
        if has_handle(handle) {
            "https://t.me/"@ + handle->0
        } else {
            "tg://user?id="@ + int_dec(chat_id)
        }
    } else if has_handle(handle) {
        "https://t.me/"@ + handle->0 + "/"@ + int_dec(message_id)
    } else {
        "tg://privatepost?channel="@ + dec(channel_part(chat_id)) + "&post="@ + int_dec(message_id)
    }
}

fn digit(d: u64) -> (c: char)
    requires
        d < 10,
    ensures
        c == digit_char(d as int),
{
    if d == 0 { '0' }
    else if d == 1 { '1' }
    else if d == 2 { '2' }
    else if d == 3 { '3' }
    else if d == 4 { '4' }
    else if d == 5 { '5' }
    else if d == 6 { '6' }
    else if d == 7 { '7' }
    else if d == 8 { '8' }
    else { '9' }
}

/// Appends the decimal notation of `n`.
pub fn push_decimal(s: &mut String, n: u64)
    ensures
        final(s)@ == old(s)@ + dec(n as nat),
    decreases n,
{
    if n >= 10 {
        push_decimal(s, n / 10);
        push_char(s, digit(n % 10));
        proof {
            assert(dec(n as nat) == dec((n / 10) as nat).push(digit_char((n % 10) as int)));
        }
        assert(final(s)@ =~= old(s)@ + dec(n as nat));
    } else {
        push_char(s, digit(n));
        assert(final(s)@ =~= old(s)@ + dec(n as nat));
    }
}

/// Appends the decimal notation of a signed integer.
pub fn push_signed_decimal(s: &mut String, n: i64)
    ensures
        final(s)@ == old(s)@ + int_dec(n as int),
{
    if n < 0 {
        push_char(s, '-');
        let m: u64 = ((-(n + 1)) as u64) + 1;
        push_decimal(s, m);
        assert(final(s)@ =~= old(s)@ + int_dec(n as int));
    } else {
        push_decimal(s, n as u64);
    }
}

/// Whether two strings hold the same characters.
pub fn str_eq(a: &str, b: &str) -> (r: bool)
    ensures
        r == (a@ == b@),
{
    let n = a.unicode_len();
    if n != b.unicode_len() {
        return false;
    }
    let mut i: usize = 0;
    while i < n
        invariant
            n == a@.len(),
            n == b@.len(),
            i <= n,
            forall|j: int| 0 <= j < i ==> a@[j] == b@[j],
        decreases n - i,
    {
        if a.get_char(i) != b.get_char(i) {
            return false;
        }
        i = i + 1;
    }
    assert(a@ =~= b@);
    true
}

/// Builds the deep link: `https://t.me/{handle}` or `tg://user?id={id}` for
/// direct messages, `https://t.me/{handle}/{message}` or
/// `tg://privatepost?channel={c}&post={message}` for the other kinds.
pub fn build_link(chat_id: i64, username: Option<&str>, message_id: i64, chat_type: &str) -> (r: String)
    ensures
        r@ == link_spec(chat_id as int, handle_view(username), message_id as int, chat_type@),
{
    let named = match username {
        Some(u) => !u.is_empty(),
        None => false,
    };
    if str_eq(chat_type, "dm") {
        if named {
            let mut out = String::from_str("https://t.me/");
            out.append(username.unwrap());
            out
        } else {
            let mut out = String::from_str("tg://user?id=");
            push_signed_decimal(&mut out, chat_id);
            out
        }
    } else if named {
        let mut out = String::from_str("https://t.me/");
        out.append(username.unwrap());
        out.append("/");
        push_signed_decimal(&mut out, message_id);
        out
    } else {
        let a: u64 = if chat_id < 0 { ((-(chat_id + 1)) as u64) + 1 } else { chat_id as u64 };
        let channel: u64 = if a > CHANNEL_ID_OFFSET { a - CHANNEL_ID_OFFSET } else { 0 };
        let mut out = String::from_str("tg://privatepost?channel=");
        push_decimal(&mut out, channel);
        out.append("&post=");
        push_signed_decimal(&mut out, message_id);
        out
    }
}

/// The link is a function of its four inputs, and exactly one of the four
/// rules (direct message with or without handle, other kind with or without
/// handle) decides it.
pub proof fn lemma_link_rules_exhaustive(chat_id: int, handle: Option<Seq<char>>, message_id: int, kind: Seq<char>)
    ensures
        (kind == "dm"@ && has_handle(handle)) ==> link_spec(chat_id, handle, message_id, kind)
            == "https://t.me/"@ + handle->0,
        (kind == "dm"@ && !has_handle(handle)) ==> link_spec(chat_id, handle, message_id, kind)
            == "tg://user?id="@ + int_dec(chat_id),
        (kind != "dm"@ && has_handle(handle)) ==> link_spec(chat_id, handle, message_id, kind)
            == "https://t.me/"@ + handle->0 + "/"@ + int_dec(message_id),
        (kind != "dm"@ && !has_handle(handle)) ==> link_spec(chat_id, handle, message_id, kind)
            == "tg://privatepost?channel="@ + dec(channel_part(chat_id)) + "&post="@ + int_dec(message_id),
{
}

} // verus!
