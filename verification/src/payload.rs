//! Typed decoding of event payload objects. Each payload struct has a spec
//! twin that says exactly which texts decode to it and to what value; the
//! executable decoders return precisely what the spec functions say.
//!
//! Field semantics follow the frame producer's conventions: unknown keys
//! are ignored, a repeated key is read at its first occurrence, an optional
//! field is absent when its key is missing or its value is `null`, and a
//! required field fails the whole payload when missing or ill-typed.

use vstd::prelude::*;

use crate::json::{
    arr_spans_ok, entries_view, lookup, obj_spans_ok, parse_string, parse_u64, spec_lit_false,
    spec_lit_null, spec_lit_true, spec_lookup, spec_parse_string, spec_parse_u64, spec_split_arr,
    spec_split_obj, lit_true_at, lit_false_at, lit_null_at, split_arr, split_obj,
    string_from_chars, spans_view,
};
use crate::discordmessage::{
    Activity, ActivityView, Channel, ChannelView, ClientStatus, ClientStatusView,
    CreateMessageResponse, CreateMessageResponseView, Emoji, EmojiView, Guild, GuildMember,
    GuildMemberView, GuildView, HelloMessage, Message, MessageView, PresenceUpdate,
    PresenceUpdateView, Reaction, ReactionView, ReadyMessage, ReadyMessageView, ResumedMessage,
    ResumedMessageView, UnavailableGuild, User, UserView, views_of,
};
use crate::json::{chars_of, spec_ws_run};

verus! {

/// Every value span in `es` stays inside a text of length `len`.
pub open spec fn spans_fit(es: Seq<(Vec<char>, usize, usize)>, len: int) -> bool {
    obj_spans_ok(es, -1, len)
}

/// Spans that an object splitter reported fit in the split text.
pub proof fn lemma_obj_spans_fit(es: Seq<(Vec<char>, usize, usize)>, i: int, len: int)
    requires
        -1 <= i,
        obj_spans_ok(es, i, len),
    ensures
        spans_fit(es, len),
{
    assert forall|k: int| 0 <= k < es.len() implies -1 < #[trigger] es[k].1 <= es[k].2 <= len by {
        assert(i < es[k].1 <= es[k].2 <= len);
    }
}

/// A required string field: its decoded content, or `None` where the key
/// is missing or its value is not a string covering its whole span.
pub open spec fn spec_req_str(s: Seq<char>, es: Seq<(Seq<char>, int, int)>, key: Seq<char>) -> Option<
    Seq<char>,
> {
    match spec_lookup(es, key) {
        Some((a, b)) => match spec_parse_string(s, a) {
            Some((st, n)) => if a + n == b {
                Some(st)
            } else {
                None
            },
            None => None,
        },
        None => None,
    }
}

/// An optional string field: `Some(None)` where the key is missing or
/// `null`, `Some(Some(..))` for a string, `None` for anything else.
pub open spec fn spec_opt_str(s: Seq<char>, es: Seq<(Seq<char>, int, int)>, key: Seq<char>) -> Option<
    Option<Seq<char>>,
> {
    match spec_lookup(es, key) {
        None => Some(None),
        Some((a, b)) => if spec_lit_null(s, a) && a + 4 == b {
            Some(None)
        } else {
            match spec_parse_string(s, a) {
                Some((st, n)) => if a + n == b {
                    Some(Some(st))
                } else {
                    None
                },
                None => None,
            }
        },
    }
}

/// A required unsigned integer field.
pub open spec fn spec_req_u64(s: Seq<char>, es: Seq<(Seq<char>, int, int)>, key: Seq<char>) -> Option<
    u64,
> {
    match spec_lookup(es, key) {
        Some((a, b)) => match spec_parse_u64(s, a) {
            Some((v, n)) => if a + n == b {
                Some(v)
            } else {
                None
            },
            None => None,
        },
        None => None,
    }
}

/// A required unsigned integer field that must fit in 32 bits.
pub open spec fn spec_req_u32(s: Seq<char>, es: Seq<(Seq<char>, int, int)>, key: Seq<char>) -> Option<
    u32,
> {
    match spec_req_u64(s, es, key) {
        Some(v) => if v <= 0xffff_ffff {
            Some(v as u32)
        } else {
            None
        },
        None => None,
    }
}

/// An optional 32-bit unsigned integer field.
pub open spec fn spec_opt_u32(s: Seq<char>, es: Seq<(Seq<char>, int, int)>, key: Seq<char>) -> Option<
    Option<u32>,
> {
    match spec_lookup(es, key) {
        None => Some(None),
        Some((a, b)) => if spec_lit_null(s, a) && a + 4 == b {
            Some(None)
        } else {
            match spec_parse_u64(s, a) {
                Some((v, n)) => if a + n == b && v <= 0xffff_ffff {
                    Some(Some(v as u32))
                } else {
                    None
                },
                None => None,
            }
        },
    }
}

/// A required boolean field.
pub open spec fn spec_req_bool(s: Seq<char>, es: Seq<(Seq<char>, int, int)>, key: Seq<char>) -> Option<
    bool,
> {
    match spec_lookup(es, key) {
        Some((a, b)) => if spec_lit_true(s, a) && a + 4 == b {
            Some(true)
        } else if spec_lit_false(s, a) && a + 5 == b {
            Some(false)
        } else {
            None
        },
        None => None,
    }
}

/// An optional boolean field.
pub open spec fn spec_opt_bool(s: Seq<char>, es: Seq<(Seq<char>, int, int)>, key: Seq<char>) -> Option<
    Option<bool>,
> {
    match spec_lookup(es, key) {
        None => Some(None),
        Some((a, b)) => if spec_lit_null(s, a) && a + 4 == b {
            Some(None)
        } else if spec_lit_true(s, a) && a + 4 == b {
            Some(Some(true))
        } else if spec_lit_false(s, a) && a + 5 == b {
            Some(Some(false))
        } else {
            None
        },
    }
}

/// Reads a required string field.
fn req_str(s: &Vec<char>, es: &Vec<(Vec<char>, usize, usize)>, key: &str) -> (r: Option<String>)
    requires
        spans_fit(es@, s@.len() as int),
    ensures
        match r {
            Some(st) => spec_req_str(s@, entries_view(es@), key@) == Some(st@),
            None => spec_req_str(s@, entries_view(es@), key@) is None,
        },
{
    let (a, b) = match lookup(es, key) {
        Some(x) => x,
        None => {
            return None;
        },
    };
    proof {
        let k = choose|k: int|
            0 <= k < es@.len() && (#[trigger] es@[k]).1 == a && es@[k].2 == b;
        assert(es@[k].1 <= es@[k].2 <= s@.len());
    }
    let (st, j) = match parse_string(s, a) {
        Some(x) => x,
        None => {
            return None;
        },
    };
    if j != b {
        return None;
    }
    Some(string_from_chars(&st))
}

/// Reads an optional string field.
fn opt_str(s: &Vec<char>, es: &Vec<(Vec<char>, usize, usize)>, key: &str) -> (r: Option<
    Option<String>,
>)
    requires
        spans_fit(es@, s@.len() as int),
    ensures
        match r {
            Some(Some(st)) => spec_opt_str(s@, entries_view(es@), key@) == Some(Some(st@)),
            Some(None) => spec_opt_str(s@, entries_view(es@), key@) == Some(
                None::<Seq<char>>,
            ),
            None => spec_opt_str(s@, entries_view(es@), key@) is None,
        },
{
    let (a, b) = match lookup(es, key) {
        Some(x) => x,
        None => {
            return Some(None);
        },
    };
    proof {
        let k = choose|k: int|
            0 <= k < es@.len() && (#[trigger] es@[k]).1 == a && es@[k].2 == b;
        assert(es@[k].1 <= es@[k].2 <= s@.len());
    }
    if lit_null_at(s, a) && b - a == 4 {
        return Some(None);
    }
    let (st, j) = match parse_string(s, a) {
        Some(x) => x,
        None => {
            return None;
        },
    };
    if j != b {
        return None;
    }
    Some(Some(string_from_chars(&st)))
}

/// Reads a required unsigned integer field.
fn req_u64(s: &Vec<char>, es: &Vec<(Vec<char>, usize, usize)>, key: &str) -> (r: Option<u64>)
    requires
        spans_fit(es@, s@.len() as int),
    ensures
        match r {
            Some(v) => spec_req_u64(s@, entries_view(es@), key@) == Some(v),
            None => spec_req_u64(s@, entries_view(es@), key@) is None,
        },
{
    let (a, b) = match lookup(es, key) {
        Some(x) => x,
        None => {
            return None;
        },
    };
    proof {
        let k = choose|k: int|
            0 <= k < es@.len() && (#[trigger] es@[k]).1 == a && es@[k].2 == b;
        assert(es@[k].1 <= es@[k].2 <= s@.len());
    }
    let (v, j) = match parse_u64(s, a) {
        Some(x) => x,
        None => {
            return None;
        },
    };
    if j != b {
        return None;
    }
    Some(v)
}

/// Reads a required unsigned integer field that must fit in 32 bits.
fn req_u32(s: &Vec<char>, es: &Vec<(Vec<char>, usize, usize)>, key: &str) -> (r: Option<u32>)
    requires
        spans_fit(es@, s@.len() as int),
    ensures
        match r {
            Some(v) => spec_req_u32(s@, entries_view(es@), key@) == Some(v),
            None => spec_req_u32(s@, entries_view(es@), key@) is None,
        },
{
    match req_u64(s, es, key) {
        Some(v) => {
            if v <= 0xffff_ffff {
                Some(v as u32)
            } else {
                None
            }
        },
        None => None,
    }
}

/// Reads an optional 32-bit unsigned integer field.
fn opt_u32(s: &Vec<char>, es: &Vec<(Vec<char>, usize, usize)>, key: &str) -> (r: Option<
    Option<u32>,
>)
    requires
        spans_fit(es@, s@.len() as int),
    ensures
        match r {
            Some(v) => spec_opt_u32(s@, entries_view(es@), key@) == Some(v),
            None => spec_opt_u32(s@, entries_view(es@), key@) is None,
        },
{
    let (a, b) = match lookup(es, key) {
        Some(x) => x,
        None => {
            return Some(None);
        },
    };
    proof {
        let k = choose|k: int|
            0 <= k < es@.len() && (#[trigger] es@[k]).1 == a && es@[k].2 == b;
        assert(es@[k].1 <= es@[k].2 <= s@.len());
    }
    if lit_null_at(s, a) && b - a == 4 {
        return Some(None);
    }
    let (v, j) = match parse_u64(s, a) {
        Some(x) => x,
        None => {
            return None;
        },
    };
    if j != b || v > 0xffff_ffff {
        return None;
    }
    Some(Some(v as u32))
}

/// Reads a required boolean field.
fn req_bool(s: &Vec<char>, es: &Vec<(Vec<char>, usize, usize)>, key: &str) -> (r: Option<bool>)
    requires
        spans_fit(es@, s@.len() as int),
    ensures
        match r {
            Some(v) => spec_req_bool(s@, entries_view(es@), key@) == Some(v),
            None => spec_req_bool(s@, entries_view(es@), key@) is None,
        },
{
    let (a, b) = match lookup(es, key) {
        Some(x) => x,
        None => {
            return None;
        },
    };
    proof {
        let k = choose|k: int|
            0 <= k < es@.len() && (#[trigger] es@[k]).1 == a && es@[k].2 == b;
        assert(es@[k].1 <= es@[k].2 <= s@.len());
    }
    if lit_true_at(s, a) && b - a == 4 {
        Some(true)
    } else if lit_false_at(s, a) && b - a == 5 {
        Some(false)
    } else {
        None
    }
}

/// Reads an optional boolean field.
fn opt_bool(s: &Vec<char>, es: &Vec<(Vec<char>, usize, usize)>, key: &str) -> (r: Option<
    Option<bool>,
>)
    requires
        spans_fit(es@, s@.len() as int),
    ensures
        match r {
            Some(v) => spec_opt_bool(s@, entries_view(es@), key@) == Some(v),
            None => spec_opt_bool(s@, entries_view(es@), key@) is None,
        },
{
    let (a, b) = match lookup(es, key) {
        Some(x) => x,
        None => {
            return Some(None);
        },
    };
    proof {
        let k = choose|k: int|
            0 <= k < es@.len() && (#[trigger] es@[k]).1 == a && es@[k].2 == b;
        assert(es@[k].1 <= es@[k].2 <= s@.len());
    }
    if lit_null_at(s, a) && b - a == 4 {
        Some(None)
    } else if lit_true_at(s, a) && b - a == 4 {
        Some(Some(true))
    } else if lit_false_at(s, a) && b - a == 5 {
        Some(Some(false))
    } else {
        None
    }
}

/// An [`Emoji`] object at position `i`.
pub open spec fn spec_emoji(s: Seq<char>, i: int) -> Option<(EmojiView, nat)> {
    match spec_split_obj(s, i) {
        Some((es, n)) => match spec_emoji_from(s, es) {
            Some(x) => Some((x, n)),
            None => None,
        },
        None => None,
    }
}

/// [`Emoji`] read from split object entries.
pub open spec fn spec_emoji_from(s: Seq<char>, es: Seq<(Seq<char>, int, int)>) -> Option<EmojiView> {
    match spec_opt_str(s, es, "id"@) {
        Some(id) => match spec_opt_str(s, es, "name"@) {
            Some(name) => Some(EmojiView { id, name }),
            None => None,
        },
        None => None,
    }
}

/// Reads an [`Emoji`] object at `i`.
pub fn parse_emoji(s: &Vec<char>, i: usize) -> (r: Option<(Emoji, usize)>)
    requires
        i <= s@.len(),
    ensures
        match r {
            Some((x, j)) => {
                &&& i < j <= s@.len()
                &&& spec_emoji(s@, i as int) == Some((x@, (j - i) as nat))
            },
            None => spec_emoji(s@, i as int) is None,
        },
{
    let (es, j) = match split_obj(s, i) {
        Some(x) => x,
        None => {
            return None;
        },
    };
    proof {
        lemma_obj_spans_fit(es@, i as int, s@.len() as int);
    }
    let id = match opt_str(s, &es, "id") {
        Some(x) => x,
        None => {
            return None;
        },
    };
    let name = match opt_str(s, &es, "name") {
        Some(x) => x,
        None => {
            return None;
        },
    };
    Some((Emoji { id, name }, j))
}

/// A [`User`] object at position `i`.
pub open spec fn spec_user(s: Seq<char>, i: int) -> Option<(UserView, nat)> {
    match spec_split_obj(s, i) {
        Some((es, n)) => match spec_user_from(s, es) {
            Some(x) => Some((x, n)),
            None => None,
        },
        None => None,
    }
}

/// [`User`] read from split object entries.
pub open spec fn spec_user_from(s: Seq<char>, es: Seq<(Seq<char>, int, int)>) -> Option<UserView> {
    match spec_req_str(s, es, "id"@) {
        Some(id) => match spec_opt_str(s, es, "username"@) {
            Some(username) => match spec_opt_str(s, es, "discriminator"@) {
                Some(discriminator) => match spec_opt_bool(s, es, "bot"@) {
                    Some(bot) => match spec_opt_str(s, es, "email"@) {
                        Some(email) => Some(
                            UserView { id, username, discriminator, bot, email },
                        ),
                        None => None,
                    },
                    None => None,
                },
                None => None,
            },
            None => None,
        },
        None => None,
    }
}

/// Reads a [`User`] object at `i`.
pub fn parse_user(s: &Vec<char>, i: usize) -> (r: Option<(User, usize)>)
    requires
        i <= s@.len(),
    ensures
        match r {
            Some((x, j)) => {
                &&& i < j <= s@.len()
                &&& spec_user(s@, i as int) == Some((x@, (j - i) as nat))
            },
            None => spec_user(s@, i as int) is None,
        },
{
    let (es, j) = match split_obj(s, i) {
        Some(x) => x,
        None => {
            return None;
        },
    };
    proof {
        lemma_obj_spans_fit(es@, i as int, s@.len() as int);
    }
    let id = match req_str(s, &es, "id") {
        Some(x) => x,
        None => {
            return None;
        },
    };
    let username = match opt_str(s, &es, "username") {
        Some(x) => x,
        None => {
            return None;
        },
    };
    let discriminator = match opt_str(s, &es, "discriminator") {
        Some(x) => x,
        None => {
            return None;
        },
    };
    let bot = match opt_bool(s, &es, "bot") {
        Some(x) => x,
        None => {
            return None;
        },
    };
    let email = match opt_str(s, &es, "email") {
        Some(x) => x,
        None => {
            return None;
        },
    };
    Some((User { id, username, discriminator, bot, email }, j))
}

/// A [`ClientStatus`] object at position `i`.
pub open spec fn spec_client_status(s: Seq<char>, i: int) -> Option<(ClientStatusView, nat)> {
    match spec_split_obj(s, i) {
        Some((es, n)) => match spec_client_status_from(s, es) {
            Some(x) => Some((x, n)),
            None => None,
        },
        None => None,
    }
}

/// [`ClientStatus`] read from split object entries.
pub open spec fn spec_client_status_from(s: Seq<char>, es: Seq<(Seq<char>, int, int)>) -> Option<
    ClientStatusView,
> {
    match spec_opt_str(s, es, "web"@) {
        Some(web) => match spec_opt_str(s, es, "desktop"@) {
            Some(desktop) => match spec_opt_str(s, es, "mobile"@) {
                Some(mobile) => Some(ClientStatusView { web, desktop, mobile }),
                None => None,
            },
            None => None,
        },
        None => None,
    }
}

/// Reads a [`ClientStatus`] object at `i`.
pub fn parse_client_status(s: &Vec<char>, i: usize) -> (r: Option<(ClientStatus, usize)>)
    requires
        i <= s@.len(),
    ensures
        match r {
            Some((x, j)) => {
                &&& i < j <= s@.len()
                &&& spec_client_status(s@, i as int) == Some((x@, (j - i) as nat))
            },
            None => spec_client_status(s@, i as int) is None,
        },
{
    let (es, j) = match split_obj(s, i) {
        Some(x) => x,
        None => {
            return None;
        },
    };
    proof {
        lemma_obj_spans_fit(es@, i as int, s@.len() as int);
    }
    let web = match opt_str(s, &es, "web") {
        Some(x) => x,
        None => {
            return None;
        },
    };
    let desktop = match opt_str(s, &es, "desktop") {
        Some(x) => x,
        None => {
            return None;
        },
    };
    let mobile = match opt_str(s, &es, "mobile") {
        Some(x) => x,
        None => {
            return None;
        },
    };
    Some((ClientStatus { web, desktop, mobile }, j))
}

/// An [`UnavailableGuild`] object at position `i`; its view is its id.
pub open spec fn spec_uguild(s: Seq<char>, i: int) -> Option<(Seq<char>, nat)> {
    match spec_split_obj(s, i) {
        Some((es, n)) => match spec_req_str(s, es, "id"@) {
            Some(id) => Some((id, n)),
            None => None,
        },
        None => None,
    }
}

/// Reads an [`UnavailableGuild`] object at `i`.
pub fn parse_uguild(s: &Vec<char>, i: usize) -> (r: Option<(UnavailableGuild, usize)>)
    requires
        i <= s@.len(),
    ensures
        match r {
            Some((x, j)) => {
                &&& i < j <= s@.len()
                &&& spec_uguild(s@, i as int) == Some((x@, (j - i) as nat))
            },
            None => spec_uguild(s@, i as int) is None,
        },
{
    let (es, j) = match split_obj(s, i) {
        Some(x) => x,
        None => {
            return None;
        },
    };
    proof {
        lemma_obj_spans_fit(es@, i as int, s@.len() as int);
    }
    let id = match req_str(s, &es, "id") {
        Some(x) => x,
        None => {
            return None;
        },
    };
    Some((UnavailableGuild { id }, j))
}

/// A [`ResumedMessage`] object at position `i`.
pub open spec fn spec_resumed(s: Seq<char>, i: int) -> Option<(ResumedMessageView, nat)> {
    match spec_split_obj(s, i) {
        Some((es, n)) => match spec_req_u32(s, es, "v"@) {
            Some(v) => match spec_req_str(s, es, "session_id"@) {
                Some(session_id) => Some((ResumedMessageView { v, session_id }, n)),
                None => None,
            },
            None => None,
        },
        None => None,
    }
}

/// Reads a [`ResumedMessage`] object at `i`.
pub fn parse_resumed(s: &Vec<char>, i: usize) -> (r: Option<(ResumedMessage, usize)>)
    requires
        i <= s@.len(),
    ensures
        match r {
            Some((x, j)) => {
                &&& i < j <= s@.len()
                &&& spec_resumed(s@, i as int) == Some((x@, (j - i) as nat))
            },
            None => spec_resumed(s@, i as int) is None,
        },
{
    let (es, j) = match split_obj(s, i) {
        Some(x) => x,
        None => {
            return None;
        },
    };
    proof {
        lemma_obj_spans_fit(es@, i as int, s@.len() as int);
    }
    let v = match req_u32(s, &es, "v") {
        Some(x) => x,
        None => {
            return None;
        },
    };
    let session_id = match req_str(s, &es, "session_id") {
        Some(x) => x,
        None => {
            return None;
        },
    };
    Some((ResumedMessage { v, session_id }, j))
}

/// A [`HelloMessage`] object at position `i`; its view is the heartbeat
/// interval.
pub open spec fn spec_hello(s: Seq<char>, i: int) -> Option<(u64, nat)> {
    match spec_split_obj(s, i) {
        Some((es, n)) => match spec_req_u64(s, es, "heartbeat_interval"@) {
            Some(v) => Some((v, n)),
            None => None,
        },
        None => None,
    }
}

/// Reads a [`HelloMessage`] object at `i`.
pub fn parse_hello(s: &Vec<char>, i: usize) -> (r: Option<(HelloMessage, usize)>)
    requires
        i <= s@.len(),
    ensures
        match r {
            Some((x, j)) => {
                &&& i < j <= s@.len()
                &&& spec_hello(s@, i as int) == Some((x@, (j - i) as nat))
            },
            None => spec_hello(s@, i as int) is None,
        },
{
    let (es, j) = match split_obj(s, i) {
        Some(x) => x,
        None => {
            return None;
        },
    };
    proof {
        lemma_obj_spans_fit(es@, i as int, s@.len() as int);
    }
    let heartbeat_interval = match req_u64(s, &es, "heartbeat_interval") {
        Some(x) => x,
        None => {
            return None;
        },
    };
    Some((HelloMessage { heartbeat_interval }, j))
}

/// Every element span in `spans` stays inside a text of length `len`.
pub open spec fn arr_spans_fit(spans: Seq<(usize, usize)>, len: int) -> bool {
    arr_spans_ok(spans, -1, len)
}

/// Spans that an array splitter reported fit in the split text.
pub proof fn lemma_arr_spans_fit(spans: Seq<(usize, usize)>, i: int, len: int)
    requires
        -1 <= i,
        arr_spans_ok(spans, i, len),
    ensures
        arr_spans_fit(spans, len),
{
    assert forall|k: int| 0 <= k < spans.len() implies -1 < #[trigger] spans[k].0 <= spans[k].1
        <= len by {
        assert(i < spans[k].0 <= spans[k].1 <= len);
    }
}

/// String elements, one per span, each covering its whole span.
pub open spec fn spec_str_elems(s: Seq<char>, spans: Seq<(int, int)>) -> Option<Seq<Seq<char>>>
    decreases spans.len(),
{
    if spans.len() == 0 {
        Some(Seq::empty())
    } else {
        match spec_parse_string(s, spans[0].0) {
            Some((st, n)) => if spans[0].0 + n == spans[0].1 {
                match spec_str_elems(s, spans.drop_first()) {
                    Some(rest) => Some(seq![st] + rest),
                    None => None,
                }
            } else {
                None
            },
            None => None,
        }
    }
}

/// Reads one string per span.
pub fn str_elems(s: &Vec<char>, spans: &Vec<(usize, usize)>) -> (r: Option<Vec<String>>)
    requires
        arr_spans_fit(spans@, s@.len() as int),
    ensures
        match r {
            Some(out) => spec_str_elems(s@, spans_view(spans@)) == Some(views_of(out@)),
            None => spec_str_elems(s@, spans_view(spans@)) is None,
        },
{
    let ghost sv = spans_view(spans@);
    let mut out: Vec<String> = Vec::new();
    let mut k: usize = 0;
    proof {
        assert(sv.skip(0) =~= sv);
        assert(views_of(out@) =~= Seq::<Seq<char>>::empty());
    }
    while k < spans.len()
        invariant
            k <= spans@.len(),
            sv == spans_view(spans@),
            arr_spans_fit(spans@, s@.len() as int),
            views_of(out@).len() == k,
            spec_str_elems(s@, sv) is Some <==> spec_str_elems(s@, sv.skip(k as int)) is Some,
            spec_str_elems(s@, sv) matches Some(xs) ==> (spec_str_elems(s@, sv.skip(k as int))
                matches Some(rest) && xs == views_of(out@) + rest),
        decreases spans@.len() - k,
    {
        let (a, b) = (spans[k].0, spans[k].1);
        proof {
            assert(spans@[k as int].0 <= spans@[k as int].1 <= s@.len());
            assert(sv.skip(k as int)[0] == (a as int, b as int));
        }
        let (st, j) = match parse_string(s, a) {
            Some(x) => x,
            None => {
                return None;
            },
        };
        if j != b {
            return None;
        }
        let ghost old_views = views_of(out@);
        out.push(string_from_chars(&st));
        proof {
            assert(views_of(out@) =~= old_views.push(st@));
            assert(sv.skip(k as int).drop_first() =~= sv.skip(k as int + 1));
            if spec_str_elems(s@, sv) is Some && spec_str_elems(s@, sv.skip(k as int + 1))
                is Some {
                let xs = spec_str_elems(s@, sv).unwrap();
                let rest = spec_str_elems(s@, sv.skip(k as int + 1)).unwrap();
                assert(xs == old_views + (seq![st@] + rest));
                assert(old_views + (seq![st@] + rest) =~= views_of(out@) + rest);
            }
        }
        k = k + 1;
    }
    proof {
        assert(sv.skip(k as int) =~= Seq::<(int, int)>::empty());
        if spec_str_elems(s@, sv) is Some {
            let xs = spec_str_elems(s@, sv).unwrap();
            assert(xs =~= views_of(out@));
        }
    }
    Some(out)
}

/// A [`Channel`] object at position `i`.
pub open spec fn spec_channel(s: Seq<char>, i: int) -> Option<(ChannelView, nat)> {
    match spec_split_obj(s, i) {
        Some((es, n)) => match spec_channel_from(s, es) {
            Some(x) => Some((x, n)),
            None => None,
        },
        None => None,
    }
}

/// [`Channel`] read from split object entries; the JSON key `type` fills
/// the field `kind`.
pub open spec fn spec_channel_from(s: Seq<char>, es: Seq<(Seq<char>, int, int)>) -> Option<
    ChannelView,
> {
    match spec_req_str(s, es, "id"@) {
        Some(id) => match spec_req_u32(s, es, "type"@) {
            Some(kind) => match spec_opt_str(s, es, "guild_id"@) {
                Some(guild_id) => match spec_opt_str(s, es, "last_message_id"@) {
                    Some(last_message_id) => match spec_opt_str(s, es, "name"@) {
                        Some(name) => match spec_opt_str(s, es, "topic"@) {
                            Some(topic) => Some(
                                ChannelView {
                                    id,
                                    kind,
                                    guild_id,
                                    last_message_id,
                                    name,
                                    topic,
                                },
                            ),
                            None => None,
                        },
                        None => None,
                    },
                    None => None,
                },
                None => None,
            },
            None => None,
        },
        None => None,
    }
}

/// Reads a [`Channel`] object at `i`.
pub fn parse_channel(s: &Vec<char>, i: usize) -> (r: Option<(Channel, usize)>)
    requires
        i <= s@.len(),
    ensures
        match r {
            Some((x, j)) => {
                &&& i < j <= s@.len()
                &&& spec_channel(s@, i as int) == Some((x@, (j - i) as nat))
            },
            None => spec_channel(s@, i as int) is None,
        },
{
    let (es, j) = match split_obj(s, i) {
        Some(x) => x,
        None => {
            return None;
        },
    };
    proof {
        lemma_obj_spans_fit(es@, i as int, s@.len() as int);
    }
    let id = match req_str(s, &es, "id") {
        Some(x) => x,
        None => {
            return None;
        },
    };
    let kind = match req_u32(s, &es, "type") {
        Some(x) => x,
        None => {
            return None;
        },
    };
    let guild_id = match opt_str(s, &es, "guild_id") {
        Some(x) => x,
        None => {
            return None;
        },
    };
    let last_message_id = match opt_str(s, &es, "last_message_id") {
        Some(x) => x,
        None => {
            return None;
        },
    };
    let name = match opt_str(s, &es, "name") {
        Some(x) => x,
        None => {
            return None;
        },
    };
    let topic = match opt_str(s, &es, "topic") {
        Some(x) => x,
        None => {
            return None;
        },
    };
    Some((Channel { id, kind, guild_id, last_message_id, name, topic }, j))
}

/// An optional nested [`Emoji`] field.
pub open spec fn spec_opt_emoji_field(
    s: Seq<char>,
    es: Seq<(Seq<char>, int, int)>,
    key: Seq<char>,
) -> Option<Option<EmojiView>> {
    match spec_lookup(es, key) {
        None => Some(None),
        Some((a, b)) => if spec_lit_null(s, a) && a + 4 == b {
            Some(None)
        } else {
            match spec_emoji(s, a) {
                Some((e, n)) => if a + n == b {
                    Some(Some(e))
                } else {
                    None
                },
                None => None,
            }
        },
    }
}

/// Reads an optional nested [`Emoji`] field.
fn opt_emoji_field(s: &Vec<char>, es: &Vec<(Vec<char>, usize, usize)>, key: &str) -> (r: Option<
    Option<Emoji>,
>)
    requires
        spans_fit(es@, s@.len() as int),
    ensures
        match r {
            Some(Some(e)) => spec_opt_emoji_field(s@, entries_view(es@), key@) == Some(Some(e@)),
            Some(None) => spec_opt_emoji_field(s@, entries_view(es@), key@) == Some(
                None::<EmojiView>,
            ),
            None => spec_opt_emoji_field(s@, entries_view(es@), key@) is None,
        },
{
    let (a, b) = match lookup(es, key) {
        Some(x) => x,
        None => {
            return Some(None);
        },
    };
    proof {
        let k = choose|k: int|
            0 <= k < es@.len() && (#[trigger] es@[k]).1 == a && es@[k].2 == b;
        assert(es@[k].1 <= es@[k].2 <= s@.len());
    }
    if lit_null_at(s, a) && b - a == 4 {
        return Some(None);
    }
    let (e, j) = match parse_emoji(s, a) {
        Some(x) => x,
        None => {
            return None;
        },
    };
    if j != b {
        return None;
    }
    Some(Some(e))
}

/// An [`Activity`] object at position `i`.
pub open spec fn spec_activity(s: Seq<char>, i: int) -> Option<(ActivityView, nat)> {
    match spec_split_obj(s, i) {
        Some((es, n)) => match spec_activity_from(s, es) {
            Some(x) => Some((x, n)),
            None => None,
        },
        None => None,
    }
}

/// [`Activity`] read from split object entries; the JSON key `type` fills
/// the field `kind`.
pub open spec fn spec_activity_from(s: Seq<char>, es: Seq<(Seq<char>, int, int)>) -> Option<
    ActivityView,
> {
    match spec_req_str(s, es, "name"@) {
        Some(name) => match spec_req_u32(s, es, "type"@) {
            Some(kind) => match spec_req_u64(s, es, "created_at"@) {
                Some(created_at) => match spec_opt_str(s, es, "application_id"@) {
                    Some(application_id) => match spec_opt_str(s, es, "details"@) {
                        Some(details) => match spec_opt_str(s, es, "state"@) {
                            Some(state) => match spec_opt_emoji_field(s, es, "emoji"@) {
                                Some(emoji) => Some(
                                    ActivityView {
                                        name,
                                        kind,
                                        created_at,
                                        application_id,
                                        details,
                                        state,
                                        emoji,
                                    },
                                ),
                                None => None,
                            },
                            None => None,
                        },
                        None => None,
                    },
                    None => None,
                },
                None => None,
            },
            None => None,
        },
        None => None,
    }
}

/// Reads an [`Activity`] object at `i`.
pub fn parse_activity(s: &Vec<char>, i: usize) -> (r: Option<(Activity, usize)>)
    requires
        i <= s@.len(),
    ensures
        match r {
            Some((x, j)) => {
                &&& i < j <= s@.len()
                &&& spec_activity(s@, i as int) == Some((x@, (j - i) as nat))
            },
            None => spec_activity(s@, i as int) is None,
        },
{
    let (es, j) = match split_obj(s, i) {
        Some(x) => x,
        None => {
            return None;
        },
    };
    proof {
        lemma_obj_spans_fit(es@, i as int, s@.len() as int);
    }
    let name = match req_str(s, &es, "name") {
        Some(x) => x,
        None => {
            return None;
        },
    };
    let kind = match req_u32(s, &es, "type") {
        Some(x) => x,
        None => {
            return None;
        },
    };
    let created_at = match req_u64(s, &es, "created_at") {
        Some(x) => x,
        None => {
            return None;
        },
    };
    let application_id = match opt_str(s, &es, "application_id") {
        Some(x) => x,
        None => {
            return None;
        },
    };
    let details = match opt_str(s, &es, "details") {
        Some(x) => x,
        None => {
            return None;
        },
    };
    let state = match opt_str(s, &es, "state") {
        Some(x) => x,
        None => {
            return None;
        },
    };
    let emoji = match opt_emoji_field(s, &es, "emoji") {
        Some(x) => x,
        None => {
            return None;
        },
    };
    Some((Activity { name, kind, created_at, application_id, details, state, emoji }, j))
}

/// A [`Reaction`] object at position `i`.
pub open spec fn spec_reaction(s: Seq<char>, i: int) -> Option<(ReactionView, nat)> {
    match spec_split_obj(s, i) {
        Some((es, n)) => match spec_reaction_from(s, es) {
            Some(x) => Some((x, n)),
            None => None,
        },
        None => None,
    }
}

/// [`Reaction`] read from split object entries.
pub open spec fn spec_reaction_from(s: Seq<char>, es: Seq<(Seq<char>, int, int)>) -> Option<
    ReactionView,
> {
    match spec_req_u32(s, es, "count"@) {
        Some(count) => match spec_req_bool(s, es, "me"@) {
            Some(me) => match spec_lookup(es, "emoji"@) {
                Some((a, b)) => match spec_emoji(s, a) {
                    Some((emoji, n)) => if a + n == b {
                        Some(ReactionView { count, me, emoji })
                    } else {
                        None
                    },
                    None => None,
                },
                None => None,
            },
            None => None,
        },
        None => None,
    }
}

/// Reads a [`Reaction`] object at `i`.
pub fn parse_reaction(s: &Vec<char>, i: usize) -> (r: Option<(Reaction, usize)>)
    requires
        i <= s@.len(),
    ensures
        match r {
            Some((x, j)) => {
                &&& i < j <= s@.len()
                &&& spec_reaction(s@, i as int) == Some((x@, (j - i) as nat))
            },
            None => spec_reaction(s@, i as int) is None,
        },
{
    let (es, j) = match split_obj(s, i) {
        Some(x) => x,
        None => {
            return None;
        },
    };
    proof {
        lemma_obj_spans_fit(es@, i as int, s@.len() as int);
    }
    let count = match req_u32(s, &es, "count") {
        Some(x) => x,
        None => {
            return None;
        },
    };
    let me = match req_bool(s, &es, "me") {
        Some(x) => x,
        None => {
            return None;
        },
    };
    let (a, b) = match lookup(&es, "emoji") {
        Some(x) => x,
        None => {
            return None;
        },
    };
    proof {
        let k = choose|k: int|
            0 <= k < es@.len() && (#[trigger] es@[k]).1 == a && es@[k].2 == b;
        assert(es@[k].1 <= es@[k].2 <= s@.len());
    }
    let (emoji, j2) = match parse_emoji(s, a) {
        Some(x) => x,
        None => {
            return None;
        },
    };
    if j2 != b {
        return None;
    }
    Some((Reaction { count, me, emoji }, j))
}

/// [`UnavailableGuild`] elements, one per span, each covering its whole span.
pub open spec fn spec_uguild_elems(s: Seq<char>, spans: Seq<(int, int)>) -> Option<Seq<Seq<char>>>
    decreases spans.len(),
{
    if spans.len() == 0 {
        Some(Seq::empty())
    } else {
        match spec_uguild(s, spans[0].0) {
            Some((x, n)) => if spans[0].0 + n == spans[0].1 {
                match spec_uguild_elems(s, spans.drop_first()) {
                    Some(rest) => Some(seq![x] + rest),
                    None => None,
                }
            } else {
                None
            },
            None => None,
        }
    }
}

/// Reads one [`UnavailableGuild`] per span.
pub fn uguild_elems(s: &Vec<char>, spans: &Vec<(usize, usize)>) -> (r: Option<Vec<UnavailableGuild>>)
    requires
        arr_spans_fit(spans@, s@.len() as int),
    ensures
        match r {
            Some(out) => spec_uguild_elems(s@, spans_view(spans@)) == Some(views_of(out@)),
            None => spec_uguild_elems(s@, spans_view(spans@)) is None,
        },
{
    let ghost sv = spans_view(spans@);
    let mut out: Vec<UnavailableGuild> = Vec::new();
    let mut k: usize = 0;
    proof {
        assert(sv.skip(0) =~= sv);
        assert(views_of(out@) =~= Seq::<Seq<char>>::empty());
    }
    while k < spans.len()
        invariant
            k <= spans@.len(),
            sv == spans_view(spans@),
            arr_spans_fit(spans@, s@.len() as int),
            views_of(out@).len() == k,
            spec_uguild_elems(s@, sv) is Some <==> spec_uguild_elems(s@, sv.skip(k as int)) is Some,
            spec_uguild_elems(s@, sv) matches Some(xs) ==> (spec_uguild_elems(s@, sv.skip(k as int))
                matches Some(rest) && xs == views_of(out@) + rest),
        decreases spans@.len() - k,
    {
        let (a, b) = (spans[k].0, spans[k].1);
        proof {
            assert(spans@[k as int].0 <= spans@[k as int].1 <= s@.len());
            assert(sv.skip(k as int)[0] == (a as int, b as int));
        }
        let (x, j) = match parse_uguild(s, a) {
            Some(y) => y,
            None => {
                return None;
            },
        };
        if j != b {
            return None;
        }
        let ghost xv = x@;
        let ghost old_views = views_of(out@);
        out.push(x);
        proof {
            assert(views_of(out@) =~= old_views.push(xv));
            assert(sv.skip(k as int).drop_first() =~= sv.skip(k as int + 1));
            if spec_uguild_elems(s@, sv) is Some && spec_uguild_elems(s@, sv.skip(k as int + 1))
                is Some {
                let xs = spec_uguild_elems(s@, sv).unwrap();
                let rest = spec_uguild_elems(s@, sv.skip(k as int + 1)).unwrap();
                assert(xs == old_views + (seq![xv] + rest));
                assert(old_views + (seq![xv] + rest) =~= views_of(out@) + rest);
            }
        }
        k = k + 1;
    }
    proof {
        assert(sv.skip(k as int) =~= Seq::<(int, int)>::empty());
        if spec_uguild_elems(s@, sv) is Some {
            let xs = spec_uguild_elems(s@, sv).unwrap();
            assert(xs =~= views_of(out@));
        }
    }
    Some(out)
}

/// [`Channel`] elements, one per span, each covering its whole span.
pub open spec fn spec_channel_elems(s: Seq<char>, spans: Seq<(int, int)>) -> Option<Seq<ChannelView>>
    decreases spans.len(),
{
    if spans.len() == 0 {
        Some(Seq::empty())
    } else {
        match spec_channel(s, spans[0].0) {
            Some((x, n)) => if spans[0].0 + n == spans[0].1 {
                match spec_channel_elems(s, spans.drop_first()) {
                    Some(rest) => Some(seq![x] + rest),
                    None => None,
                }
            } else {
                None
            },
            None => None,
        }
    }
}

/// Reads one [`Channel`] per span.
pub fn channel_elems(s: &Vec<char>, spans: &Vec<(usize, usize)>) -> (r: Option<Vec<Channel>>)
    requires
        arr_spans_fit(spans@, s@.len() as int),
    ensures
        match r {
            Some(out) => spec_channel_elems(s@, spans_view(spans@)) == Some(views_of(out@)),
            None => spec_channel_elems(s@, spans_view(spans@)) is None,
        },
{
    let ghost sv = spans_view(spans@);
    let mut out: Vec<Channel> = Vec::new();
    let mut k: usize = 0;
    proof {
        assert(sv.skip(0) =~= sv);
        assert(views_of(out@) =~= Seq::<ChannelView>::empty());
    }
    while k < spans.len()
        invariant
            k <= spans@.len(),
            sv == spans_view(spans@),
            arr_spans_fit(spans@, s@.len() as int),
            views_of(out@).len() == k,
            spec_channel_elems(s@, sv) is Some <==> spec_channel_elems(s@, sv.skip(k as int)) is Some,
            spec_channel_elems(s@, sv) matches Some(xs) ==> (spec_channel_elems(s@, sv.skip(k as int))
                matches Some(rest) && xs == views_of(out@) + rest),
        decreases spans@.len() - k,
    {
        let (a, b) = (spans[k].0, spans[k].1);
        proof {
            assert(spans@[k as int].0 <= spans@[k as int].1 <= s@.len());
            assert(sv.skip(k as int)[0] == (a as int, b as int));
        }
        let (x, j) = match parse_channel(s, a) {
            Some(y) => y,
            None => {
                return None;
            },
        };
        if j != b {
            return None;
        }
        let ghost xv = x@;
        let ghost old_views = views_of(out@);
        out.push(x);
        proof {
            assert(views_of(out@) =~= old_views.push(xv));
            assert(sv.skip(k as int).drop_first() =~= sv.skip(k as int + 1));
            if spec_channel_elems(s@, sv) is Some && spec_channel_elems(s@, sv.skip(k as int + 1))
                is Some {
                let xs = spec_channel_elems(s@, sv).unwrap();
                let rest = spec_channel_elems(s@, sv.skip(k as int + 1)).unwrap();
                assert(xs == old_views + (seq![xv] + rest));
                assert(old_views + (seq![xv] + rest) =~= views_of(out@) + rest);
            }
        }
        k = k + 1;
    }
    proof {
        assert(sv.skip(k as int) =~= Seq::<(int, int)>::empty());
        if spec_channel_elems(s@, sv) is Some {
            let xs = spec_channel_elems(s@, sv).unwrap();
            assert(xs =~= views_of(out@));
        }
    }
    Some(out)
}

/// [`Reaction`] elements, one per span, each covering its whole span.
pub open spec fn spec_reaction_elems(s: Seq<char>, spans: Seq<(int, int)>) -> Option<Seq<ReactionView>>
    decreases spans.len(),
{
    if spans.len() == 0 {
        Some(Seq::empty())
    } else {
        match spec_reaction(s, spans[0].0) {
            Some((x, n)) => if spans[0].0 + n == spans[0].1 {
                match spec_reaction_elems(s, spans.drop_first()) {
                    Some(rest) => Some(seq![x] + rest),
                    None => None,
                }
            } else {
                None
            },
            None => None,
        }
    }
}

/// Reads one [`Reaction`] per span.
pub fn reaction_elems(s: &Vec<char>, spans: &Vec<(usize, usize)>) -> (r: Option<Vec<Reaction>>)
    requires
        arr_spans_fit(spans@, s@.len() as int),
    ensures
        match r {
            Some(out) => spec_reaction_elems(s@, spans_view(spans@)) == Some(views_of(out@)),
            None => spec_reaction_elems(s@, spans_view(spans@)) is None,
        },
{
    let ghost sv = spans_view(spans@);
    let mut out: Vec<Reaction> = Vec::new();
    let mut k: usize = 0;
    proof {
        assert(sv.skip(0) =~= sv);
        assert(views_of(out@) =~= Seq::<ReactionView>::empty());
    }
    while k < spans.len()
        invariant
            k <= spans@.len(),
            sv == spans_view(spans@),
            arr_spans_fit(spans@, s@.len() as int),
            views_of(out@).len() == k,
            spec_reaction_elems(s@, sv) is Some <==> spec_reaction_elems(s@, sv.skip(k as int)) is Some,
            spec_reaction_elems(s@, sv) matches Some(xs) ==> (spec_reaction_elems(s@, sv.skip(k as int))
                matches Some(rest) && xs == views_of(out@) + rest),
        decreases spans@.len() - k,
    {
        let (a, b) = (spans[k].0, spans[k].1);
        proof {
            assert(spans@[k as int].0 <= spans@[k as int].1 <= s@.len());
            assert(sv.skip(k as int)[0] == (a as int, b as int));
        }
        let (x, j) = match parse_reaction(s, a) {
            Some(y) => y,
            None => {
                return None;
            },
        };
        if j != b {
            return None;
        }
        let ghost xv = x@;
        let ghost old_views = views_of(out@);
        out.push(x);
        proof {
            assert(views_of(out@) =~= old_views.push(xv));
            assert(sv.skip(k as int).drop_first() =~= sv.skip(k as int + 1));
            if spec_reaction_elems(s@, sv) is Some && spec_reaction_elems(s@, sv.skip(k as int + 1))
                is Some {
                let xs = spec_reaction_elems(s@, sv).unwrap();
                let rest = spec_reaction_elems(s@, sv.skip(k as int + 1)).unwrap();
                assert(xs == old_views + (seq![xv] + rest));
                assert(old_views + (seq![xv] + rest) =~= views_of(out@) + rest);
            }
        }
        k = k + 1;
    }
    proof {
        assert(sv.skip(k as int) =~= Seq::<(int, int)>::empty());
        if spec_reaction_elems(s@, sv) is Some {
            let xs = spec_reaction_elems(s@, sv).unwrap();
            assert(xs =~= views_of(out@));
        }
    }
    Some(out)
}

/// A required nested [`User`] field.
pub open spec fn spec_req_user_field(
    s: Seq<char>,
    es: Seq<(Seq<char>, int, int)>,
    key: Seq<char>,
) -> Option<UserView> {
    match spec_lookup(es, key) {
        Some((a, b)) => match spec_user(s, a) {
            Some((x, n)) => if a + n == b {
                Some(x)
            } else {
                None
            },
            None => None,
        },
        None => None,
    }
}

/// Reads a required nested [`User`] field.
fn req_user_field(s: &Vec<char>, es: &Vec<(Vec<char>, usize, usize)>, key: &str) -> (r: Option<
    User,
>)
    requires
        spans_fit(es@, s@.len() as int),
    ensures
        match r {
            Some(x) => spec_req_user_field(s@, entries_view(es@), key@) == Some(x@),
            None => spec_req_user_field(s@, entries_view(es@), key@) is None,
        },
{
    let (a, b) = match lookup(es, key) {
        Some(x) => x,
        None => {
            return None;
        },
    };
    proof {
        let k = choose|k: int|
            0 <= k < es@.len() && (#[trigger] es@[k]).1 == a && es@[k].2 == b;
        assert(es@[k].1 <= es@[k].2 <= s@.len());
    }
    let (x, j) = match parse_user(s, a) {
        Some(y) => y,
        None => {
            return None;
        },
    };
    if j != b {
        return None;
    }
    Some(x)
}

/// An optional nested [`User`] field.
pub open spec fn spec_opt_user_field(
    s: Seq<char>,
    es: Seq<(Seq<char>, int, int)>,
    key: Seq<char>,
) -> Option<Option<UserView>> {
    match spec_lookup(es, key) {
        None => Some(None),
        Some((a, b)) => if spec_lit_null(s, a) && a + 4 == b {
            Some(None)
        } else {
            match spec_user(s, a) {
                Some((x, n)) => if a + n == b {
                    Some(Some(x))
                } else {
                    None
                },
                None => None,
            }
        },
    }
}

/// Reads an optional nested [`User`] field.
fn opt_user_field(s: &Vec<char>, es: &Vec<(Vec<char>, usize, usize)>, key: &str) -> (r: Option<
    Option<User>,
>)
    requires
        spans_fit(es@, s@.len() as int),
    ensures
        match r {
            Some(Some(x)) => spec_opt_user_field(s@, entries_view(es@), key@) == Some(Some(x@)),
            Some(None) => spec_opt_user_field(s@, entries_view(es@), key@) == Some(
                None::<UserView>,
            ),
            None => spec_opt_user_field(s@, entries_view(es@), key@) is None,
        },
{
    let (a, b) = match lookup(es, key) {
        Some(x) => x,
        None => {
            return Some(None);
        },
    };
    proof {
        let k = choose|k: int|
            0 <= k < es@.len() && (#[trigger] es@[k]).1 == a && es@[k].2 == b;
        assert(es@[k].1 <= es@[k].2 <= s@.len());
    }
    if lit_null_at(s, a) && b - a == 4 {
        return Some(None);
    }
    let (x, j) = match parse_user(s, a) {
        Some(y) => y,
        None => {
            return None;
        },
    };
    if j != b {
        return None;
    }
    Some(Some(x))
}

/// A required nested [`ClientStatus`] field.
pub open spec fn spec_req_cstatus_field(
    s: Seq<char>,
    es: Seq<(Seq<char>, int, int)>,
    key: Seq<char>,
) -> Option<ClientStatusView> {
    match spec_lookup(es, key) {
        Some((a, b)) => match spec_client_status(s, a) {
            Some((x, n)) => if a + n == b {
                Some(x)
            } else {
                None
            },
            None => None,
        },
        None => None,
    }
}

/// Reads a required nested [`ClientStatus`] field.
fn req_cstatus_field(s: &Vec<char>, es: &Vec<(Vec<char>, usize, usize)>, key: &str) -> (r: Option<
    ClientStatus,
>)
    requires
        spans_fit(es@, s@.len() as int),
    ensures
        match r {
            Some(x) => spec_req_cstatus_field(s@, entries_view(es@), key@) == Some(x@),
            None => spec_req_cstatus_field(s@, entries_view(es@), key@) is None,
        },
{
    let (a, b) = match lookup(es, key) {
        Some(x) => x,
        None => {
            return None;
        },
    };
    proof {
        let k = choose|k: int|
            0 <= k < es@.len() && (#[trigger] es@[k]).1 == a && es@[k].2 == b;
        assert(es@[k].1 <= es@[k].2 <= s@.len());
    }
    let (x, j) = match parse_client_status(s, a) {
        Some(y) => y,
        None => {
            return None;
        },
    };
    if j != b {
        return None;
    }
    Some(x)
}

/// An optional nested [`Activity`] field.
pub open spec fn spec_opt_activity_field(
    s: Seq<char>,
    es: Seq<(Seq<char>, int, int)>,
    key: Seq<char>,
) -> Option<Option<ActivityView>> {
    match spec_lookup(es, key) {
        None => Some(None),
        Some((a, b)) => if spec_lit_null(s, a) && a + 4 == b {
            Some(None)
        } else {
            match spec_activity(s, a) {
                Some((x, n)) => if a + n == b {
                    Some(Some(x))
                } else {
                    None
                },
                None => None,
            }
        },
    }
}

/// Reads an optional nested [`Activity`] field.
fn opt_activity_field(s: &Vec<char>, es: &Vec<(Vec<char>, usize, usize)>, key: &str) -> (r: Option<
    Option<Activity>,
>)
    requires
        spans_fit(es@, s@.len() as int),
    ensures
        match r {
            Some(Some(x)) => spec_opt_activity_field(s@, entries_view(es@), key@) == Some(Some(x@)),
            Some(None) => spec_opt_activity_field(s@, entries_view(es@), key@) == Some(
                None::<ActivityView>,
            ),
            None => spec_opt_activity_field(s@, entries_view(es@), key@) is None,
        },
{
    let (a, b) = match lookup(es, key) {
        Some(x) => x,
        None => {
            return Some(None);
        },
    };
    proof {
        let k = choose|k: int|
            0 <= k < es@.len() && (#[trigger] es@[k]).1 == a && es@[k].2 == b;
        assert(es@[k].1 <= es@[k].2 <= s@.len());
    }
    if lit_null_at(s, a) && b - a == 4 {
        return Some(None);
    }
    let (x, j) = match parse_activity(s, a) {
        Some(y) => y,
        None => {
            return None;
        },
    };
    if j != b {
        return None;
    }
    Some(Some(x))
}

/// A required array-of-string field: the element views in order.
pub open spec fn spec_req_strarr_field(
    s: Seq<char>,
    es: Seq<(Seq<char>, int, int)>,
    key: Seq<char>,
) -> Option<Seq<Seq<char>>> {
    match spec_lookup(es, key) {
        None => None,
        Some((a, b)) => match spec_split_arr(s, a) {
            Some((spans, n)) => if a + n == b {
                match spec_str_elems(s, spans) {
                    Some(xs) => Some(xs),
                    None => None,
                }
            } else {
                None
            },
            None => None,
        },
    }
}

/// Reads a required array-of-string field.
fn req_strarr_field(s: &Vec<char>, es: &Vec<(Vec<char>, usize, usize)>, key: &str) -> (r: Option<
    Vec<String>,
>)
    requires
        spans_fit(es@, s@.len() as int),
    ensures
        match r {
            Some(out) => spec_req_strarr_field(s@, entries_view(es@), key@) == Some(views_of(out@)),
            None => spec_req_strarr_field(s@, entries_view(es@), key@) is None,
        },
{
    let (a, b) = match lookup(es, key) {
        Some(x) => x,
        None => {
            return None;
        },
    };
    proof {
        let k = choose|k: int|
            0 <= k < es@.len() && (#[trigger] es@[k]).1 == a && es@[k].2 == b;
        assert(es@[k].1 <= es@[k].2 <= s@.len());
    }
        let (spans, j) = match split_arr(s, a) {
        Some(x) => x,
        None => {
            return None;
        },
    };
    if j != b {
        return None;
    }
    proof {
        lemma_arr_spans_fit(spans@, a as int, s@.len() as int);
    }
    let out = match str_elems(s, &spans) {
        Some(x) => x,
        None => {
            return None;
        },
    };
    Some(out)
}

/// A required array-of-[`UnavailableGuild`] field: the element views in order.
pub open spec fn spec_req_uguildarr_field(
    s: Seq<char>,
    es: Seq<(Seq<char>, int, int)>,
    key: Seq<char>,
) -> Option<Seq<Seq<char>>> {
    match spec_lookup(es, key) {
        None => None,
        Some((a, b)) => match spec_split_arr(s, a) {
            Some((spans, n)) => if a + n == b {
                match spec_uguild_elems(s, spans) {
                    Some(xs) => Some(xs),
                    None => None,
                }
            } else {
                None
            },
            None => None,
        },
    }
}

/// Reads a required array-of-[`UnavailableGuild`] field.
fn req_uguildarr_field(s: &Vec<char>, es: &Vec<(Vec<char>, usize, usize)>, key: &str) -> (r: Option<
    Vec<UnavailableGuild>,
>)
    requires
        spans_fit(es@, s@.len() as int),
    ensures
        match r {
            Some(out) => spec_req_uguildarr_field(s@, entries_view(es@), key@) == Some(views_of(out@)),
            None => spec_req_uguildarr_field(s@, entries_view(es@), key@) is None,
        },
{
    let (a, b) = match lookup(es, key) {
        Some(x) => x,
        None => {
            return None;
        },
    };
    proof {
        let k = choose|k: int|
            0 <= k < es@.len() && (#[trigger] es@[k]).1 == a && es@[k].2 == b;
        assert(es@[k].1 <= es@[k].2 <= s@.len());
    }
        let (spans, j) = match split_arr(s, a) {
        Some(x) => x,
        None => {
            return None;
        },
    };
    if j != b {
        return None;
    }
    proof {
        lemma_arr_spans_fit(spans@, a as int, s@.len() as int);
    }
    let out = match uguild_elems(s, &spans) {
        Some(x) => x,
        None => {
            return None;
        },
    };
    Some(out)
}

/// An optional array-of-[`Channel`] field: the element views in order.
pub open spec fn spec_opt_channelarr_field(
    s: Seq<char>,
    es: Seq<(Seq<char>, int, int)>,
    key: Seq<char>,
) -> Option<Option<Seq<ChannelView>>> {
    match spec_lookup(es, key) {
        None => Some(None),
        Some((a, b)) => if spec_lit_null(s, a) && a + 4 == b {
            Some(None)
        } else {
            match spec_split_arr(s, a) {
                Some((spans, n)) => if a + n == b {
                    match spec_channel_elems(s, spans) {
                        Some(xs) => Some(Some(xs)),
                        None => None,
                    }
                } else {
                    None
                },
                None => None,
            }
        },
    }
}

/// Reads an optional array-of-[`Channel`] field.
fn opt_channelarr_field(s: &Vec<char>, es: &Vec<(Vec<char>, usize, usize)>, key: &str) -> (r: Option<
    Option<Vec<Channel>>,
>)
    requires
        spans_fit(es@, s@.len() as int),
    ensures
        match r {
            Some(Some(out)) => spec_opt_channelarr_field(s@, entries_view(es@), key@) == Some(
                Some(views_of(out@)),
            ),
            Some(None) => spec_opt_channelarr_field(s@, entries_view(es@), key@) == Some(
                None::<Seq<ChannelView>>,
            ),
            None => spec_opt_channelarr_field(s@, entries_view(es@), key@) is None,
        },
{
    let (a, b) = match lookup(es, key) {
        Some(x) => x,
        None => {
            return Some(None);
        },
    };
    proof {
        let k = choose|k: int|
            0 <= k < es@.len() && (#[trigger] es@[k]).1 == a && es@[k].2 == b;
        assert(es@[k].1 <= es@[k].2 <= s@.len());
    }
    if lit_null_at(s, a) && b - a == 4 {
        return Some(None);
    }
    let (spans, j) = match split_arr(s, a) {
        Some(x) => x,
        None => {
            return None;
        },
    };
    if j != b {
        return None;
    }
    proof {
        lemma_arr_spans_fit(spans@, a as int, s@.len() as int);
    }
    let out = match channel_elems(s, &spans) {
        Some(x) => x,
        None => {
            return None;
        },
    };
    Some(Some(out))
}

/// An optional array-of-[`Reaction`] field: the element views in order.
pub open spec fn spec_opt_reactionarr_field(
    s: Seq<char>,
    es: Seq<(Seq<char>, int, int)>,
    key: Seq<char>,
) -> Option<Option<Seq<ReactionView>>> {
    match spec_lookup(es, key) {
        None => Some(None),
        Some((a, b)) => if spec_lit_null(s, a) && a + 4 == b {
            Some(None)
        } else {
            match spec_split_arr(s, a) {
                Some((spans, n)) => if a + n == b {
                    match spec_reaction_elems(s, spans) {
                        Some(xs) => Some(Some(xs)),
                        None => None,
                    }
                } else {
                    None
                },
                None => None,
            }
        },
    }
}

/// Reads an optional array-of-[`Reaction`] field.
fn opt_reactionarr_field(s: &Vec<char>, es: &Vec<(Vec<char>, usize, usize)>, key: &str) -> (r: Option<
    Option<Vec<Reaction>>,
>)
    requires
        spans_fit(es@, s@.len() as int),
    ensures
        match r {
            Some(Some(out)) => spec_opt_reactionarr_field(s@, entries_view(es@), key@) == Some(
                Some(views_of(out@)),
            ),
            Some(None) => spec_opt_reactionarr_field(s@, entries_view(es@), key@) == Some(
                None::<Seq<ReactionView>>,
            ),
            None => spec_opt_reactionarr_field(s@, entries_view(es@), key@) is None,
        },
{
    let (a, b) = match lookup(es, key) {
        Some(x) => x,
        None => {
            return Some(None);
        },
    };
    proof {
        let k = choose|k: int|
            0 <= k < es@.len() && (#[trigger] es@[k]).1 == a && es@[k].2 == b;
        assert(es@[k].1 <= es@[k].2 <= s@.len());
    }
    if lit_null_at(s, a) && b - a == 4 {
        return Some(None);
    }
    let (spans, j) = match split_arr(s, a) {
        Some(x) => x,
        None => {
            return None;
        },
    };
    if j != b {
        return None;
    }
    proof {
        lemma_arr_spans_fit(spans@, a as int, s@.len() as int);
    }
    let out = match reaction_elems(s, &spans) {
        Some(x) => x,
        None => {
            return None;
        },
    };
    Some(Some(out))
}

/// A [`GuildMember`] object at position `i`.
pub open spec fn spec_member(s: Seq<char>, i: int) -> Option<(GuildMemberView, nat)> {
    match spec_split_obj(s, i) {
        Some((es, n)) => match spec_member_from(s, es) {
            Some(x) => Some((x, n)),
            None => None,
        },
        None => None,
    }
}

/// [`GuildMember`] read from split object entries.
pub open spec fn spec_member_from(s: Seq<char>, es: Seq<(Seq<char>, int, int)>) -> Option<
    GuildMemberView,
> {
    match spec_opt_user_field(s, es, "user"@) {
        Some(user) => match spec_opt_str(s, es, "nick"@) {
            Some(nick) => match spec_req_strarr_field(s, es, "roles"@) {
                Some(roles) => Some(GuildMemberView { user, nick, roles }),
                None => None,
            },
            None => None,
        },
        None => None,
    }
}

/// Reads a [`GuildMember`] object at `i`.
pub fn parse_member(s: &Vec<char>, i: usize) -> (r: Option<(GuildMember, usize)>)
    requires
        i <= s@.len(),
    ensures
        match r {
            Some((x, j)) => {
                &&& i < j <= s@.len()
                &&& spec_member(s@, i as int) == Some((x@, (j - i) as nat))
            },
            None => spec_member(s@, i as int) is None,
        },
{
    let (es, j) = match split_obj(s, i) {
        Some(x) => x,
        None => {
            return None;
        },
    };
    proof {
        lemma_obj_spans_fit(es@, i as int, s@.len() as int);
    }
    let user = match opt_user_field(s, &es, "user") {
        Some(x) => x,
        None => {
            return None;
        },
    };
    let nick = match opt_str(s, &es, "nick") {
        Some(x) => x,
        None => {
            return None;
        },
    };
    let roles = match req_strarr_field(s, &es, "roles") {
        Some(x) => x,
        None => {
            return None;
        },
    };
    Some((GuildMember { user, nick, roles }, j))
}

/// [`GuildMember`] elements, one per span, each covering its whole span.
pub open spec fn spec_member_elems(s: Seq<char>, spans: Seq<(int, int)>) -> Option<
    Seq<GuildMemberView>,
>
    decreases spans.len(),
{
    if spans.len() == 0 {
        Some(Seq::empty())
    } else {
        match spec_member(s, spans[0].0) {
            Some((x, n)) => if spans[0].0 + n == spans[0].1 {
                match spec_member_elems(s, spans.drop_first()) {
                    Some(rest) => Some(seq![x] + rest),
                    None => None,
                }
            } else {
                None
            },
            None => None,
        }
    }
}

/// Reads one [`GuildMember`] per span.
pub fn member_elems(s: &Vec<char>, spans: &Vec<(usize, usize)>) -> (r: Option<Vec<GuildMember>>)
    requires
        arr_spans_fit(spans@, s@.len() as int),
    ensures
        match r {
            Some(out) => spec_member_elems(s@, spans_view(spans@)) == Some(views_of(out@)),
            None => spec_member_elems(s@, spans_view(spans@)) is None,
        },
{
    let ghost sv = spans_view(spans@);
    let mut out: Vec<GuildMember> = Vec::new();
    let mut k: usize = 0;
    proof {
        assert(sv.skip(0) =~= sv);
        assert(views_of(out@) =~= Seq::<GuildMemberView>::empty());
    }
    while k < spans.len()
        invariant
            k <= spans@.len(),
            sv == spans_view(spans@),
            arr_spans_fit(spans@, s@.len() as int),
            views_of(out@).len() == k,
            spec_member_elems(s@, sv) is Some <==> spec_member_elems(s@, sv.skip(k as int))
                is Some,
            spec_member_elems(s@, sv) matches Some(xs) ==> (spec_member_elems(
                s@,
                sv.skip(k as int),
            ) matches Some(rest) && xs == views_of(out@) + rest),
        decreases spans@.len() - k,
    {
        let (a, b) = (spans[k].0, spans[k].1);
        proof {
            assert(spans@[k as int].0 <= spans@[k as int].1 <= s@.len());
            assert(sv.skip(k as int)[0] == (a as int, b as int));
        }
        let (x, j) = match parse_member(s, a) {
            Some(y) => y,
            None => {
                return None;
            },
        };
        if j != b {
            return None;
        }
        let ghost xv = x@;
        let ghost old_views = views_of(out@);
        out.push(x);
        proof {
            assert(views_of(out@) =~= old_views.push(xv));
            assert(sv.skip(k as int).drop_first() =~= sv.skip(k as int + 1));
            if spec_member_elems(s@, sv) is Some && spec_member_elems(s@, sv.skip(k as int + 1))
                is Some {
                let xs = spec_member_elems(s@, sv).unwrap();
                let rest = spec_member_elems(s@, sv.skip(k as int + 1)).unwrap();
                assert(xs == old_views + (seq![xv] + rest));
                assert(old_views + (seq![xv] + rest) =~= views_of(out@) + rest);
            }
        }
        k = k + 1;
    }
    proof {
        assert(sv.skip(k as int) =~= Seq::<(int, int)>::empty());
        if spec_member_elems(s@, sv) is Some {
            let xs = spec_member_elems(s@, sv).unwrap();
            assert(xs =~= views_of(out@));
        }
    }
    Some(out)
}

/// An optional nested [`GuildMember`] field.
pub open spec fn spec_opt_member_field(
    s: Seq<char>,
    es: Seq<(Seq<char>, int, int)>,
    key: Seq<char>,
) -> Option<Option<GuildMemberView>> {
    match spec_lookup(es, key) {
        None => Some(None),
        Some((a, b)) => if spec_lit_null(s, a) && a + 4 == b {
            Some(None)
        } else {
            match spec_member(s, a) {
                Some((x, n)) => if a + n == b {
                    Some(Some(x))
                } else {
                    None
                },
                None => None,
            }
        },
    }
}

/// Reads an optional nested [`GuildMember`] field.
fn opt_member_field(s: &Vec<char>, es: &Vec<(Vec<char>, usize, usize)>, key: &str) -> (r: Option<
    Option<GuildMember>,
>)
    requires
        spans_fit(es@, s@.len() as int),
    ensures
        match r {
            Some(Some(x)) => spec_opt_member_field(s@, entries_view(es@), key@) == Some(Some(x@)),
            Some(None) => spec_opt_member_field(s@, entries_view(es@), key@) == Some(
                None::<GuildMemberView>,
            ),
            None => spec_opt_member_field(s@, entries_view(es@), key@) is None,
        },
{
    let (a, b) = match lookup(es, key) {
        Some(x) => x,
        None => {
            return Some(None);
        },
    };
    proof {
        let k = choose|k: int|
            0 <= k < es@.len() && (#[trigger] es@[k]).1 == a && es@[k].2 == b;
        assert(es@[k].1 <= es@[k].2 <= s@.len());
    }
    if lit_null_at(s, a) && b - a == 4 {
        return Some(None);
    }
    let (x, j) = match parse_member(s, a) {
        Some(y) => y,
        None => {
            return None;
        },
    };
    if j != b {
        return None;
    }
    Some(Some(x))
}

/// An optional array-of-[`GuildMember`] field: the element views in order.
pub open spec fn spec_opt_memberarr_field(
    s: Seq<char>,
    es: Seq<(Seq<char>, int, int)>,
    key: Seq<char>,
) -> Option<Option<Seq<GuildMemberView>>> {
    match spec_lookup(es, key) {
        None => Some(None),
        Some((a, b)) => if spec_lit_null(s, a) && a + 4 == b {
            Some(None)
        } else {
            match spec_split_arr(s, a) {
                Some((spans, n)) => if a + n == b {
                    match spec_member_elems(s, spans) {
                        Some(xs) => Some(Some(xs)),
                        None => None,
                    }
                } else {
                    None
                },
                None => None,
            }
        },
    }
}

/// Reads an optional array-of-[`GuildMember`] field.
fn opt_memberarr_field(s: &Vec<char>, es: &Vec<(Vec<char>, usize, usize)>, key: &str) -> (r:
    Option<Option<Vec<GuildMember>>>)
    requires
        spans_fit(es@, s@.len() as int),
    ensures
        match r {
            Some(Some(out)) => spec_opt_memberarr_field(s@, entries_view(es@), key@) == Some(
                Some(views_of(out@)),
            ),
            Some(None) => spec_opt_memberarr_field(s@, entries_view(es@), key@) == Some(
                None::<Seq<GuildMemberView>>,
            ),
            None => spec_opt_memberarr_field(s@, entries_view(es@), key@) is None,
        },
{
    let (a, b) = match lookup(es, key) {
        Some(x) => x,
        None => {
            return Some(None);
        },
    };
    proof {
        let k = choose|k: int|
            0 <= k < es@.len() && (#[trigger] es@[k]).1 == a && es@[k].2 == b;
        assert(es@[k].1 <= es@[k].2 <= s@.len());
    }
    if lit_null_at(s, a) && b - a == 4 {
        return Some(None);
    }
    let (spans, j) = match split_arr(s, a) {
        Some(x) => x,
        None => {
            return None;
        },
    };
    if j != b {
        return None;
    }
    proof {
        lemma_arr_spans_fit(spans@, a as int, s@.len() as int);
    }
    let out = match member_elems(s, &spans) {
        Some(x) => x,
        None => {
            return None;
        },
    };
    Some(Some(out))
}

/// A [`Guild`] object at position `i`.
pub open spec fn spec_guild(s: Seq<char>, i: int) -> Option<(GuildView, nat)> {
    match spec_split_obj(s, i) {
        Some((es, n)) => match spec_guild_from(s, es) {
            Some(x) => Some((x, n)),
            None => None,
        },
        None => None,
    }
}

/// [`Guild`] read from split object entries.
pub open spec fn spec_guild_from(s: Seq<char>, es: Seq<(Seq<char>, int, int)>) -> Option<GuildView> {
    match spec_req_str(s, es, "id"@) {
        Some(id) => match spec_req_str(s, es, "name"@) {
            Some(name) => match spec_req_str(s, es, "owner_id"@) {
                Some(owner_id) => match spec_opt_u32(s, es, "permissions"@) {
                    Some(permissions) => match spec_opt_memberarr_field(s, es, "members"@) {
                        Some(members) => match spec_opt_channelarr_field(s, es, "channels"@) {
                            Some(channels) => Some(
                                GuildView {
                                    id,
                                    name,
                                    owner_id,
                                    permissions,
                                    members,
                                    channels,
                                },
                            ),
                            None => None,
                        },
                        None => None,
                    },
                    None => None,
                },
                None => None,
            },
            None => None,
        },
        None => None,
    }
}

/// Reads a [`Guild`] object at `i`.
pub fn parse_guild(s: &Vec<char>, i: usize) -> (r: Option<(Guild, usize)>)
    requires
        i <= s@.len(),
    ensures
        match r {
            Some((x, j)) => {
                &&& i < j <= s@.len()
                &&& spec_guild(s@, i as int) == Some((x@, (j - i) as nat))
            },
            None => spec_guild(s@, i as int) is None,
        },
{
    let (es, j) = match split_obj(s, i) {
        Some(x) => x,
        None => {
            return None;
        },
    };
    proof {
        lemma_obj_spans_fit(es@, i as int, s@.len() as int);
    }
    let id = match req_str(s, &es, "id") {
        Some(x) => x,
        None => {
            return None;
        },
    };
    let name = match req_str(s, &es, "name") {
        Some(x) => x,
        None => {
            return None;
        },
    };
    let owner_id = match req_str(s, &es, "owner_id") {
        Some(x) => x,
        None => {
            return None;
        },
    };
    let permissions = match opt_u32(s, &es, "permissions") {
        Some(x) => x,
        None => {
            return None;
        },
    };
    let members = match opt_memberarr_field(s, &es, "members") {
        Some(x) => x,
        None => {
            return None;
        },
    };
    let channels = match opt_channelarr_field(s, &es, "channels") {
        Some(x) => x,
        None => {
            return None;
        },
    };
    Some((Guild { id, name, owner_id, permissions, members, channels }, j))
}

/// A [`PresenceUpdate`] object at position `i`.
pub open spec fn spec_presence(s: Seq<char>, i: int) -> Option<(PresenceUpdateView, nat)> {
    match spec_split_obj(s, i) {
        Some((es, n)) => match spec_presence_from(s, es) {
            Some(x) => Some((x, n)),
            None => None,
        },
        None => None,
    }
}

/// [`PresenceUpdate`] read from split object entries.
pub open spec fn spec_presence_from(s: Seq<char>, es: Seq<(Seq<char>, int, int)>) -> Option<
    PresenceUpdateView,
> {
    match spec_req_user_field(s, es, "user"@) {
        Some(user) => match spec_opt_activity_field(s, es, "game"@) {
            Some(game) => match spec_req_str(s, es, "guild_id"@) {
                Some(guild_id) => match spec_req_cstatus_field(s, es, "client_status"@) {
                    Some(client_status) => match spec_opt_str(s, es, "nick"@) {
                        Some(nick) => Some(
                            PresenceUpdateView { user, game, guild_id, client_status, nick },
                        ),
                        None => None,
                    },
                    None => None,
                },
                None => None,
            },
            None => None,
        },
        None => None,
    }
}

/// Reads a [`PresenceUpdate`] object at `i`.
pub fn parse_presence(s: &Vec<char>, i: usize) -> (r: Option<(PresenceUpdate, usize)>)
    requires
        i <= s@.len(),
    ensures
        match r {
            Some((x, j)) => {
                &&& i < j <= s@.len()
                &&& spec_presence(s@, i as int) == Some((x@, (j - i) as nat))
            },
            None => spec_presence(s@, i as int) is None,
        },
{
    let (es, j) = match split_obj(s, i) {
        Some(x) => x,
        None => {
            return None;
        },
    };
    proof {
        lemma_obj_spans_fit(es@, i as int, s@.len() as int);
    }
    let user = match req_user_field(s, &es, "user") {
        Some(x) => x,
        None => {
            return None;
        },
    };
    let game = match opt_activity_field(s, &es, "game") {
        Some(x) => x,
        None => {
            return None;
        },
    };
    let guild_id = match req_str(s, &es, "guild_id") {
        Some(x) => x,
        None => {
            return None;
        },
    };
    let client_status = match req_cstatus_field(s, &es, "client_status") {
        Some(x) => x,
        None => {
            return None;
        },
    };
    let nick = match opt_str(s, &es, "nick") {
        Some(x) => x,
        None => {
            return None;
        },
    };
    Some((PresenceUpdate { user, game, guild_id, client_status, nick }, j))
}

/// A [`Message`] object at position `i`.
pub open spec fn spec_message(s: Seq<char>, i: int) -> Option<(MessageView, nat)> {
    match spec_split_obj(s, i) {
        Some((es, n)) => match spec_message_from(s, es) {
            Some(x) => Some((x, n)),
            None => None,
        },
        None => None,
    }
}

/// [`Message`] read from split object entries.
pub open spec fn spec_message_from(s: Seq<char>, es: Seq<(Seq<char>, int, int)>) -> Option<
    MessageView,
> {
    match spec_req_str(s, es, "id"@) {
        Some(id) => match spec_req_str(s, es, "channel_id"@) {
            Some(channel_id) => match spec_opt_str(s, es, "guild_id"@) {
                Some(guild_id) => match spec_req_user_field(s, es, "author"@) {
                    Some(author) => match spec_opt_member_field(s, es, "member"@) {
                        Some(member) => match spec_req_str(s, es, "content"@) {
                            Some(content) => match spec_req_str(s, es, "timestamp"@) {
                                Some(timestamp) => match spec_opt_str(
                                    s,
                                    es,
                                    "edited_timestamp"@,
                                ) {
                                    Some(edited_timestamp) => match spec_req_bool(
                                        s,
                                        es,
                                        "tts"@,
                                    ) {
                                        Some(tts) => match spec_opt_reactionarr_field(
                                            s,
                                            es,
                                            "reactions"@,
                                        ) {
                                            Some(reactions) => Some(
                                                MessageView {
                                                    id,
                                                    channel_id,
                                                    guild_id,
                                                    author,
                                                    member,
                                                    content,
                                                    timestamp,
                                                    edited_timestamp,
                                                    tts,
                                                    reactions,
                                                },
                                            ),
                                            None => None,
                                        },
                                        None => None,
                                    },
                                    None => None,
                                },
                                None => None,
                            },
                            None => None,
                        },
                        None => None,
                    },
                    None => None,
                },
                None => None,
            },
            None => None,
        },
        None => None,
    }
}

/// Reads a [`Message`] object at `i`.
pub fn parse_message(s: &Vec<char>, i: usize) -> (r: Option<(Message, usize)>)
    requires
        i <= s@.len(),
    ensures
        match r {
            Some((x, j)) => {
                &&& i < j <= s@.len()
                &&& spec_message(s@, i as int) == Some((x@, (j - i) as nat))
            },
            None => spec_message(s@, i as int) is None,
        },
{
    let (es, j) = match split_obj(s, i) {
        Some(x) => x,
        None => {
            return None;
        },
    };
    proof {
        lemma_obj_spans_fit(es@, i as int, s@.len() as int);
    }
    let id = match req_str(s, &es, "id") {
        Some(x) => x,
        None => {
            return None;
        },
    };
    let channel_id = match req_str(s, &es, "channel_id") {
        Some(x) => x,
        None => {
            return None;
        },
    };
    let guild_id = match opt_str(s, &es, "guild_id") {
        Some(x) => x,
        None => {
            return None;
        },
    };
    let author = match req_user_field(s, &es, "author") {
        Some(x) => x,
        None => {
            return None;
        },
    };
    let member = match opt_member_field(s, &es, "member") {
        Some(x) => x,
        None => {
            return None;
        },
    };
    let content = match req_str(s, &es, "content") {
        Some(x) => x,
        None => {
            return None;
        },
    };
    let timestamp = match req_str(s, &es, "timestamp") {
        Some(x) => x,
        None => {
            return None;
        },
    };
    let edited_timestamp = match opt_str(s, &es, "edited_timestamp") {
        Some(x) => x,
        None => {
            return None;
        },
    };
    let tts = match req_bool(s, &es, "tts") {
        Some(x) => x,
        None => {
            return None;
        },
    };
    let reactions = match opt_reactionarr_field(s, &es, "reactions") {
        Some(x) => x,
        None => {
            return None;
        },
    };
    Some((
        Message {
            id,
            channel_id,
            guild_id,
            author,
            member,
            content,
            timestamp,
            edited_timestamp,
            tts,
            reactions,
        },
        j,
    ))
}

/// A [`ReadyMessage`] object at position `i`.
pub open spec fn spec_ready(s: Seq<char>, i: int) -> Option<(ReadyMessageView, nat)> {
    match spec_split_obj(s, i) {
        Some((es, n)) => match spec_ready_from(s, es) {
            Some(x) => Some((x, n)),
            None => None,
        },
        None => None,
    }
}

/// [`ReadyMessage`] read from split object entries.
pub open spec fn spec_ready_from(s: Seq<char>, es: Seq<(Seq<char>, int, int)>) -> Option<
    ReadyMessageView,
> {
    match spec_req_u32(s, es, "v"@) {
        Some(v) => match spec_req_user_field(s, es, "user"@) {
            Some(user) => match spec_req_str(s, es, "session_id"@) {
                Some(session_id) => match spec_req_uguildarr_field(s, es, "guilds"@) {
                    Some(guilds) => Some(ReadyMessageView { v, user, session_id, guilds }),
                    None => None,
                },
                None => None,
            },
            None => None,
        },
        None => None,
    }
}

/// Reads a [`ReadyMessage`] object at `i`.
pub fn parse_ready(s: &Vec<char>, i: usize) -> (r: Option<(ReadyMessage, usize)>)
    requires
        i <= s@.len(),
    ensures
        match r {
            Some((x, j)) => {
                &&& i < j <= s@.len()
                &&& spec_ready(s@, i as int) == Some((x@, (j - i) as nat))
            },
            None => spec_ready(s@, i as int) is None,
        },
{
    let (es, j) = match split_obj(s, i) {
        Some(x) => x,
        None => {
            return None;
        },
    };
    proof {
        lemma_obj_spans_fit(es@, i as int, s@.len() as int);
    }
    let v = match req_u32(s, &es, "v") {
        Some(x) => x,
        None => {
            return None;
        },
    };
    let user = match req_user_field(s, &es, "user") {
        Some(x) => x,
        None => {
            return None;
        },
    };
    let session_id = match req_str(s, &es, "session_id") {
        Some(x) => x,
        None => {
            return None;
        },
    };
    let guilds = match req_uguildarr_field(s, &es, "guilds") {
        Some(x) => x,
        None => {
            return None;
        },
    };
    Some((ReadyMessage { v, user, session_id, guilds }, j))
}

/// Only whitespace follows position `j`, to the end of the text: the
/// value that ended there was the whole response.
pub open spec fn spec_whole(s: Seq<char>, j: int) -> bool {
    j + spec_ws_run(s, j) == s.len()
}

/// What a REST action response decodes to: a rate-limit notice where the
/// response carries `global`, `message` and `retry_after`, otherwise the
/// created message's id, otherwise nothing. The whole text must be one
/// object.
pub open spec fn spec_action_response(s: Seq<char>) -> Option<CreateMessageResponseView> {
    let i0 = spec_ws_run(s, 0) as int;
    match spec_split_obj(s, i0) {
        Some((es, n)) => if spec_whole(s, i0 + n) {
            match (spec_req_bool(s, es, "global"@), spec_req_str(s, es, "message"@), spec_req_u32(
                s,
                es,
                "retry_after"@,
            )) {
                (Some(global), Some(message), Some(retry_after)) => Some(
                    CreateMessageResponseView::RateLimit { global, message, retry_after },
                ),
                _ => match spec_req_str(s, es, "id"@) {
                    Some(id) => Some(CreateMessageResponseView::Success { id }),
                    None => None,
                },
            }
        } else {
            None
        },
        None => None,
    }
}

/// Decodes a REST action response: either the success payload or the
/// rate-limit notice carrying `retry_after`.
pub fn decode_action_response(text: &str) -> (r: Option<CreateMessageResponse>)
    ensures
        match r {
            Some(v) => spec_action_response(text@) == Some(v@),
            None => spec_action_response(text@) is None,
        },
{
    let s = chars_of(text);
    let i0 = crate::json::skip_ws(&s, 0);
    let (es, j) = match split_obj(&s, i0) {
        Some(x) => x,
        None => {
            return None;
        },
    };
    proof {
        lemma_obj_spans_fit(es@, i0 as int, s@.len() as int);
    }
    if crate::json::skip_ws(&s, j) != s.len() {
        return None;
    }
    let global = req_bool(&s, &es, "global");
    let message = req_str(&s, &es, "message");
    let retry_after = req_u32(&s, &es, "retry_after");
    match (global, message, retry_after) {
        (Some(global), Some(message), Some(retry_after)) => Some(
            CreateMessageResponse::RateLimit { global, message, retry_after },
        ),
        _ => match req_str(&s, &es, "id") {
            Some(id) => Some(CreateMessageResponse::Success { id }),
            None => None,
        },
    }
}

/// What a create-channel response decodes to: one whole [`Channel`]
/// object.
pub open spec fn spec_channel_response(s: Seq<char>) -> Option<ChannelView> {
    let i0 = spec_ws_run(s, 0) as int;
    match spec_channel(s, i0) {
        Some((c, n)) => if spec_whole(s, i0 + n) {
            Some(c)
        } else {
            None
        },
        None => None,
    }
}

/// Decodes a create-channel response.
pub fn decode_channel_response(text: &str) -> (r: Option<Channel>)
    ensures
        match r {
            Some(v) => spec_channel_response(text@) == Some(v@),
            None => spec_channel_response(text@) is None,
        },
{
    let s = chars_of(text);
    let i0 = crate::json::skip_ws(&s, 0);
    let (c, j) = match parse_channel(&s, i0) {
        Some(x) => x,
        None => {
            return None;
        },
    };
    if crate::json::skip_ws(&s, j) != s.len() {
        return None;
    }
    Some(c)
}

/// What a fetch-message response decodes to: one whole [`Message`]
/// object.
pub open spec fn spec_message_response(s: Seq<char>) -> Option<MessageView> {
    let i0 = spec_ws_run(s, 0) as int;
    match spec_message(s, i0) {
        Some((m, n)) => if spec_whole(s, i0 + n) {
            Some(m)
        } else {
            None
        },
        None => None,
    }
}

/// Decodes a fetch-message response.
pub fn decode_message_response(text: &str) -> (r: Option<Message>)
    ensures
        match r {
            Some(v) => spec_message_response(text@) == Some(v@),
            None => spec_message_response(text@) is None,
        },
{
    let s = chars_of(text);
    let i0 = crate::json::skip_ws(&s, 0);
    let (m, j) = match parse_message(&s, i0) {
        Some(x) => x,
        None => {
            return None;
        },
    };
    if crate::json::skip_ws(&s, j) != s.len() {
        return None;
    }
    Some(m)
}

} // verus!
