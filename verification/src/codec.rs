//! The frame codec: one raw text frame in, exactly one [`DiscordMessage`]
//! out, or a [`DecodeError`]. Decoding is discriminator-first: the envelope
//! keys `op`, `t` and `s` must all have been read before the payload key
//! `d` is interpreted, because the payload's shape cannot be known without
//! them; a frame whose `d` comes earlier is malformed. The spec functions
//! here define the decode completely, and the executable decoder returns
//! exactly what they say.

use vstd::prelude::*;

use crate::discordmessage::{DiscordMessage, DiscordMessageView};
use crate::json::{
    chars_eq_lit, chars_of, chars_range_string, lit_null_at, parse_string, parse_u64, rem,
    scan_value, skip_ws, spec_lit_null, spec_parse_string, spec_parse_u64, spec_scan, spec_ws_run,
    string_from_chars,
};
use crate::payload::{
    parse_guild, parse_hello, parse_message, parse_presence, parse_ready, parse_resumed,
    spec_guild, spec_hello, spec_message, spec_presence, spec_ready, spec_resumed,
};

verus! {

/// One of the four envelope keys.
#[derive(Debug, Clone, Copy, PartialEq, Eq, Structural)]
pub enum FrameField {
    Op,
    T,
    S,
    D,
}

/// Why a frame failed to decode. Only an unrecognized event name is *not*
/// an error; every shape violation is.
#[derive(Debug, Clone, Copy, PartialEq, Eq, Structural)]
pub enum DecodeError {
    /// The text is not a well-formed envelope: bad JSON, an unknown or
    /// repeated envelope key, an ill-typed discriminator, a payload whose
    /// shape does not match its event, or `d` appearing before the
    /// discriminators have all been read.
    MalformedFrame,
    /// A required envelope key never appeared.
    MissingField(FrameField),
    /// The `op` discriminator is outside the dispatch table.
    UnknownOpcode(u64),
}

/// The distinct error for an envelope that ended before its payload key:
/// the first of `op`, `s`, `t`, `d` that is missing.
pub open spec fn spec_missing(
    op: Option<u64>,
    t: Option<Option<Seq<char>>>,
    sq: Option<Option<u64>>,
) -> DecodeError {
    if op is None {
        DecodeError::MissingField(FrameField::Op)
    } else if sq is None {
        DecodeError::MissingField(FrameField::S)
    } else if t is None {
        DecodeError::MissingField(FrameField::T)
    } else {
        DecodeError::MissingField(FrameField::D)
    }
}

/// The `READY` case of the dispatch table.
pub open spec fn spec_case_ready(s: Seq<char>, v0: int, n: u64) -> Result<
    DiscordMessageView,
    DecodeError,
> {
    match spec_ready(s, v0) {
        Some((d, nd)) => spec_finish(s, v0 + nd, DiscordMessageView::Ready { s: n, d }),
        None => Err(DecodeError::MalformedFrame),
    }
}

/// The `RESUMED` case of the dispatch table.
pub open spec fn spec_case_resumed(s: Seq<char>, v0: int, n: u64) -> Result<
    DiscordMessageView,
    DecodeError,
> {
    match spec_resumed(s, v0) {
        Some((d, nd)) => spec_finish(s, v0 + nd, DiscordMessageView::Resumed { s: n, d }),
        None => Err(DecodeError::MalformedFrame),
    }
}

/// The `GUILD_CREATE` case of the dispatch table.
pub open spec fn spec_case_guild(s: Seq<char>, v0: int, n: u64) -> Result<
    DiscordMessageView,
    DecodeError,
> {
    match spec_guild(s, v0) {
        Some((d, nd)) => spec_finish(s, v0 + nd, DiscordMessageView::GuildCreate { s: n, d }),
        None => Err(DecodeError::MalformedFrame),
    }
}

/// The `PRESENCE_UPDATE` case of the dispatch table.
pub open spec fn spec_case_presence(s: Seq<char>, v0: int, n: u64) -> Result<
    DiscordMessageView,
    DecodeError,
> {
    match spec_presence(s, v0) {
        Some((d, nd)) => spec_finish(
            s,
            v0 + nd,
            DiscordMessageView::PresenceUpdate { s: n, d },
        ),
        None => Err(DecodeError::MalformedFrame),
    }
}

/// The `MESSAGE_CREATE` case of the dispatch table.
pub open spec fn spec_case_message(s: Seq<char>, v0: int, n: u64) -> Result<
    DiscordMessageView,
    DecodeError,
> {
    match spec_message(s, v0) {
        Some((d, nd)) => spec_finish(
            s,
            v0 + nd,
            DiscordMessageView::MessageCreate { s: n, d },
        ),
        None => Err(DecodeError::MalformedFrame),
    }
}

/// An event name outside the closed set: the raw payload text is kept
/// verbatim and the case never fails by itself.
pub open spec fn spec_case_unknown(s: Seq<char>, v0: int, n: u64, name: Seq<char>) -> Result<
    DiscordMessageView,
    DecodeError,
> {
    match spec_scan(s, v0, 0, false, false) {
        Some(nv) => if nv > 0 {
            spec_finish(
                s,
                v0 + nv,
                DiscordMessageView::Unknown { s: n, t: name, d: s.subrange(v0, v0 + nv) },
            )
        } else {
            Err(DecodeError::MalformedFrame)
        },
        None => Err(DecodeError::MalformedFrame),
    }
}

/// A control frame whose payload is ignored (`op=9`, `op=11`).
pub open spec fn spec_case_ctrl(s: Seq<char>, v0: int, m: DiscordMessageView) -> Result<
    DiscordMessageView,
    DecodeError,
> {
    match spec_scan(s, v0, 0, false, false) {
        Some(nv) => if nv > 0 {
            spec_finish(s, v0 + nv, m)
        } else {
            Err(DecodeError::MalformedFrame)
        },
        None => Err(DecodeError::MalformedFrame),
    }
}

/// The `Hello` case of the dispatch table (`op=10`).
pub open spec fn spec_case_hello(s: Seq<char>, v0: int) -> Result<
    DiscordMessageView,
    DecodeError,
> {
    match spec_hello(s, v0) {
        Some((d, nd)) => spec_finish(s, v0 + nd, DiscordMessageView::Hello { d }),
        None => Err(DecodeError::MalformedFrame),
    }
}

/// The frame once `d` is reached at position `v0` with all discriminators
/// read: the dispatch table of the protocol. `op=0` demands an event name
/// and a sequence number; a recognized name decodes its typed payload, any
/// other name keeps the raw payload text and never fails by itself.
/// `op=9` and `op=11` ignore the payload; `op=10` decodes `Hello`; any
/// other opcode is outside the table.
pub open spec fn spec_dispatch(
    s: Seq<char>,
    v0: int,
    opv: u64,
    tv: Option<Seq<char>>,
    sv: Option<u64>,
) -> Result<DiscordMessageView, DecodeError> {
    if opv == 0 {
        match tv {
            None => Err(DecodeError::MissingField(FrameField::T)),
            Some(name) => match sv {
                None => Err(DecodeError::MissingField(FrameField::S)),
                Some(n) => {
                    if name == "READY"@ {
                        spec_case_ready(s, v0, n)
                    } else if name == "RESUMED"@ {
                        spec_case_resumed(s, v0, n)
                    } else if name == "GUILD_CREATE"@ {
                        spec_case_guild(s, v0, n)
                    } else if name == "PRESENCE_UPDATE"@ {
                        spec_case_presence(s, v0, n)
                    } else if name == "MESSAGE_CREATE"@ {
                        spec_case_message(s, v0, n)
                    } else {
                        spec_case_unknown(s, v0, n, name)
                    }
                },
            },
        }
    } else if opv == 9 {
        spec_case_ctrl(s, v0, DiscordMessageView::InvalidSession {})
    } else if opv == 10 {
        spec_case_hello(s, v0)
    } else if opv == 11 {
        spec_case_ctrl(s, v0, DiscordMessageView::HeartbeatAck {})
    } else {
        Err(DecodeError::UnknownOpcode(opv))
    }
}

/// After the payload value ends at `j`, the envelope must close with `}`
/// and nothing but whitespace may follow it.
pub open spec fn spec_frame_end(s: Seq<char>, j: int) -> bool {
    let jw = j + spec_ws_run(s, j);
    &&& jw < s.len()
    &&& s[jw] == '}'
    &&& jw + 1 + spec_ws_run(s, jw + 1) == s.len()
}

/// The decoded event, provided the envelope closes properly after its
/// payload.
pub open spec fn spec_finish(s: Seq<char>, j: int, m: DiscordMessageView) -> Result<
    DiscordMessageView,
    DecodeError,
> {
    if spec_frame_end(s, j) {
        Ok(m)
    } else {
        Err(DecodeError::MalformedFrame)
    }
}

/// The envelope read key by key from position `i` (just after `{` or a
/// `,`), with the discriminators read so far. A repeated or unknown key is
/// malformed; `d` before all discriminators is malformed; the object
/// closing without `d` reports the first missing key.
pub open spec fn spec_envelope(
    s: Seq<char>,
    i: int,
    op: Option<u64>,
    t: Option<Option<Seq<char>>>,
    sq: Option<Option<u64>>,
) -> Result<DiscordMessageView, DecodeError>
    decreases rem(s, i), 1int,
{
    let iw = i + spec_ws_run(s, i);
    if iw < s.len() && s[iw] == '}' {
        Err(spec_missing(op, t, sq))
    } else {
        match spec_parse_string(s, iw) {
            Some((key, nk)) => {
                let ic = iw + nk + spec_ws_run(s, iw + nk);
                if ic < s.len() && s[ic] == ':' {
                    let v0 = ic + 1 + spec_ws_run(s, ic + 1);
                    if key == "op"@ {
                        if op is Some {
                            Err(DecodeError::MalformedFrame)
                        } else {
                            match spec_parse_u64(s, v0) {
                                Some((v, n)) => spec_env_next(s, v0 + n, Some(v), t, sq),
                                None => Err(DecodeError::MalformedFrame),
                            }
                        }
                    } else if key == "t"@ {
                        if t is Some {
                            Err(DecodeError::MalformedFrame)
                        } else if spec_lit_null(s, v0) {
                            spec_env_next(s, v0 + 4, op, Some(None), sq)
                        } else {
                            match spec_parse_string(s, v0) {
                                Some((st, n)) => spec_env_next(s, v0 + n, op, Some(Some(st)), sq),
                                None => Err(DecodeError::MalformedFrame),
                            }
                        }
                    } else if key == "s"@ {
                        if sq is Some {
                            Err(DecodeError::MalformedFrame)
                        } else if spec_lit_null(s, v0) {
                            spec_env_next(s, v0 + 4, op, t, Some(None))
                        } else {
                            match spec_parse_u64(s, v0) {
                                Some((v, n)) => spec_env_next(s, v0 + n, op, t, Some(Some(v))),
                                None => Err(DecodeError::MalformedFrame),
                            }
                        }
                    } else if key == "d"@ {
                        if op is Some && t is Some && sq is Some {
                            spec_dispatch(s, v0, op.unwrap(), t.unwrap(), sq.unwrap())
                        } else {
                            Err(DecodeError::MalformedFrame)
                        }
                    } else {
                        Err(DecodeError::MalformedFrame)
                    }
                } else {
                    Err(DecodeError::MalformedFrame)
                }
            },
            None => Err(DecodeError::MalformedFrame),
        }
    }
}

/// Between envelope entries: a `,` continues with the next key, a `}`
/// closes the object without `d` having been read.
pub open spec fn spec_env_next(
    s: Seq<char>,
    j: int,
    op: Option<u64>,
    t: Option<Option<Seq<char>>>,
    sq: Option<Option<u64>>,
) -> Result<DiscordMessageView, DecodeError>
    decreases rem(s, j), 0int,
{
    let jw = j + spec_ws_run(s, j);
    if jw < s.len() && s[jw] == ',' {
        spec_envelope(s, jw + 1, op, t, sq)
    } else if jw < s.len() && s[jw] == '}' {
        Err(spec_missing(op, t, sq))
    } else {
        Err(DecodeError::MalformedFrame)
    }
}

/// What one raw text frame decodes to: the complete contract of the codec.
pub open spec fn spec_decode_frame(s: Seq<char>) -> Result<DiscordMessageView, DecodeError> {
    let i0 = spec_ws_run(s, 0) as int;
    if i0 < s.len() && s[i0] == '{' {
        spec_envelope(s, i0 + 1, None, None, None)
    } else {
        Err(DecodeError::MalformedFrame)
    }
}

/// View of the event name once read: absent key, `null`, or a name.
pub open spec fn view_tt(t: Option<Option<Vec<char>>>) -> Option<Option<Seq<char>>> {
    match t {
        None => None,
        Some(None) => Some(None),
        Some(Some(v)) => Some(Some(v@)),
    }
}

/// View of an event name.
pub open spec fn view_t1(tv: Option<Vec<char>>) -> Option<Seq<char>> {
    match tv {
        None => None,
        Some(v) => Some(v@),
    }
}

/// The distinct missing-field error for the discriminators read so far.
fn missing_err(op: &Option<u64>, t: &Option<Option<Vec<char>>>, sq: &Option<Option<u64>>) -> (e:
    DecodeError)
    ensures
        e == spec_missing(*op, view_tt(*t), *sq),
{
    if op.is_none() {
        DecodeError::MissingField(FrameField::Op)
    } else if sq.is_none() {
        DecodeError::MissingField(FrameField::S)
    } else if t.is_none() {
        DecodeError::MissingField(FrameField::T)
    } else {
        DecodeError::MissingField(FrameField::D)
    }
}

/// Whether the envelope closes right after position `j`, with nothing but
/// whitespace to the end of the text.
fn at_frame_end(s: &Vec<char>, j: usize) -> (r: bool)
    requires
        j <= s@.len(),
    ensures
        r == spec_frame_end(s@, j as int),
{
    let jw = skip_ws(s, j);
    if jw < s.len() && s[jw] == '}' {
        let jw2 = skip_ws(s, jw + 1);
        jw2 == s.len()
    } else {
        false
    }
}

/// Decodes the payload at `v0` under the dispatch table, once all three
/// discriminators have been read.
#[verifier::rlimit(100)]
fn decode_dispatch(
    s: &Vec<char>,
    v0: usize,
    opv: u64,
    tv: Option<Vec<char>>,
    sv: Option<u64>,
) -> (r: Result<DiscordMessage, DecodeError>)
    requires
        v0 <= s@.len(),
    ensures
        match r {
            Ok(m) => spec_dispatch(s@, v0 as int, opv, view_t1(tv), sv) == Ok::<
                DiscordMessageView,
                DecodeError,
            >(m@),
            Err(e) => spec_dispatch(s@, v0 as int, opv, view_t1(tv), sv) == Err::<
                DiscordMessageView,
                DecodeError,
            >(e),
        },
{
    if opv == 0 {
        let name = match tv {
            None => {
                return Err(DecodeError::MissingField(FrameField::T));
            },
            Some(name) => name,
        };
        let n = match sv {
            None => {
                return Err(DecodeError::MissingField(FrameField::S));
            },
            Some(n) => n,
        };
        if chars_eq_lit(&name, "READY") {
            let (d, j) = match parse_ready(s, v0) {
                Some(x) => x,
                None => {
                    return Err(DecodeError::MalformedFrame);
                },
            };
            if at_frame_end(s, j) {
                Ok(DiscordMessage::Ready { s: n, d })
            } else {
                Err(DecodeError::MalformedFrame)
            }
        } else if chars_eq_lit(&name, "RESUMED") {
            let (d, j) = match parse_resumed(s, v0) {
                Some(x) => x,
                None => {
                    return Err(DecodeError::MalformedFrame);
                },
            };
            if at_frame_end(s, j) {
                Ok(DiscordMessage::Resumed { s: n, d })
            } else {
                Err(DecodeError::MalformedFrame)
            }
        } else if chars_eq_lit(&name, "GUILD_CREATE") {
            let (d, j) = match parse_guild(s, v0) {
                Some(x) => x,
                None => {
                    return Err(DecodeError::MalformedFrame);
                },
            };
            if at_frame_end(s, j) {
                Ok(DiscordMessage::GuildCreate { s: n, d })
            } else {
                Err(DecodeError::MalformedFrame)
            }
        } else if chars_eq_lit(&name, "PRESENCE_UPDATE") {
            let (d, j) = match parse_presence(s, v0) {
                Some(x) => x,
                None => {
                    return Err(DecodeError::MalformedFrame);
                },
            };
            if at_frame_end(s, j) {
                Ok(DiscordMessage::PresenceUpdate { s: n, d })
            } else {
                Err(DecodeError::MalformedFrame)
            }
        } else if chars_eq_lit(&name, "MESSAGE_CREATE") {
            let (d, j) = match parse_message(s, v0) {
                Some(x) => x,
                None => {
                    return Err(DecodeError::MalformedFrame);
                },
            };
            if at_frame_end(s, j) {
                Ok(DiscordMessage::MessageCreate { s: n, d })
            } else {
                Err(DecodeError::MalformedFrame)
            }
        } else {
            let j = match scan_value(s, v0) {
                Some(x) => x,
                None => {
                    return Err(DecodeError::MalformedFrame);
                },
            };
            if j == v0 {
                return Err(DecodeError::MalformedFrame);
            }
            let d = chars_range_string(s, v0, j);
            if at_frame_end(s, j) {
                Ok(DiscordMessage::Unknown { s: n, t: string_from_chars(&name), d })
            } else {
                Err(DecodeError::MalformedFrame)
            }
        }
    } else if opv == 9 {
        let j = match scan_value(s, v0) {
            Some(x) => x,
            None => {
                return Err(DecodeError::MalformedFrame);
            },
        };
        if j == v0 {
            return Err(DecodeError::MalformedFrame);
        }
        if at_frame_end(s, j) {
            Ok(DiscordMessage::InvalidSession {})
        } else {
            Err(DecodeError::MalformedFrame)
        }
    } else if opv == 10 {
        let (d, j) = match parse_hello(s, v0) {
            Some(x) => x,
            None => {
                return Err(DecodeError::MalformedFrame);
            },
        };
        if at_frame_end(s, j) {
            Ok(DiscordMessage::Hello { d })
        } else {
            Err(DecodeError::MalformedFrame)
        }
    } else if opv == 11 {
        let j = match scan_value(s, v0) {
            Some(x) => x,
            None => {
                return Err(DecodeError::MalformedFrame);
            },
        };
        if j == v0 {
            return Err(DecodeError::MalformedFrame);
        }
        if at_frame_end(s, j) {
            Ok(DiscordMessage::HeartbeatAck {})
        } else {
            Err(DecodeError::MalformedFrame)
        }
    } else {
        Err(DecodeError::UnknownOpcode(opv))
    }
}

/// Decodes one raw frame, given as characters.
#[verifier::rlimit(100)]
pub fn decode_frame_chars(s: &Vec<char>) -> (r: Result<DiscordMessage, DecodeError>)
    ensures
        match r {
            Ok(m) => spec_decode_frame(s@) == Ok::<DiscordMessageView, DecodeError>(m@),
            Err(e) => spec_decode_frame(s@) == Err::<DiscordMessageView, DecodeError>(e),
        },
{
    let i0 = skip_ws(s, 0);
    if !(i0 < s.len() && s[i0] == '{') {
        return Err(DecodeError::MalformedFrame);
    }
    let mut p = i0 + 1;
    let mut op: Option<u64> = None;
    let mut t: Option<Option<Vec<char>>> = None;
    let mut sq: Option<Option<u64>> = None;
    loop
        invariant
            p <= s@.len(),
            spec_decode_frame(s@) == spec_envelope(s@, p as int, op, view_tt(t), sq),
        decreases s@.len() - p,
    {
        let iw = skip_ws(s, p);
        if iw < s.len() && s[iw] == '}' {
            return Err(missing_err(&op, &t, &sq));
        }
        let (key, jk) = match parse_string(s, iw) {
            Some(x) => x,
            None => {
                return Err(DecodeError::MalformedFrame);
            },
        };
        let ic = skip_ws(s, jk);
        if !(ic < s.len() && s[ic] == ':') {
            return Err(DecodeError::MalformedFrame);
        }
        let v0 = skip_ws(s, ic + 1);
        let j: usize;
        if chars_eq_lit(&key, "op") {
            if op.is_some() {
                return Err(DecodeError::MalformedFrame);
            }
            let (v, jv) = match parse_u64(s, v0) {
                Some(x) => x,
                None => {
                    return Err(DecodeError::MalformedFrame);
                },
            };
            op = Some(v);
            j = jv;
        } else if chars_eq_lit(&key, "t") {
            if t.is_some() {
                return Err(DecodeError::MalformedFrame);
            }
            if lit_null_at(s, v0) {
                t = Some(None);
                j = v0 + 4;
            } else {
                let (st, jv) = match parse_string(s, v0) {
                    Some(x) => x,
                    None => {
                        return Err(DecodeError::MalformedFrame);
                    },
                };
                t = Some(Some(st));
                j = jv;
            }
        } else if chars_eq_lit(&key, "s") {
            if sq.is_some() {
                return Err(DecodeError::MalformedFrame);
            }
            if lit_null_at(s, v0) {
                sq = Some(None);
                j = v0 + 4;
            } else {
                let (v, jv) = match parse_u64(s, v0) {
                    Some(x) => x,
                    None => {
                        return Err(DecodeError::MalformedFrame);
                    },
                };
                sq = Some(Some(v));
                j = jv;
            }
        } else if chars_eq_lit(&key, "d") {
            if op.is_some() && t.is_some() && sq.is_some() {
                let opv = op.unwrap();
                let tv = t.unwrap();
                let sv = sq.unwrap();
                return decode_dispatch(s, v0, opv, tv, sv);
            }
            return Err(DecodeError::MalformedFrame);
        } else {
            return Err(DecodeError::MalformedFrame);
        }
        let jw = skip_ws(s, j);
        if jw < s.len() && s[jw] == ',' {
            p = jw + 1;
        } else if jw < s.len() && s[jw] == '}' {
            return Err(missing_err(&op, &t, &sq));
        } else {
            return Err(DecodeError::MalformedFrame);
        }
    }
}

/// Decodes one raw text frame into exactly one event, or fails: the pure
/// codec the transport hands each inbound text frame to.
pub fn decode_frame(text: &str) -> (r: Result<DiscordMessage, DecodeError>)
    ensures
        match r {
            Ok(m) => spec_decode_frame(text@) == Ok::<DiscordMessageView, DecodeError>(m@),
            Err(e) => spec_decode_frame(text@) == Err::<DiscordMessageView, DecodeError>(e),
        },
{
    let chars = chars_of(text);
    decode_frame_chars(&chars)
}

/// The matching typed variant: a valid frame carrying `op=0`, the event name `READY`, and a
/// present sequence number decodes to exactly that variant, the payload
/// fields copied verbatim as the payload object spells them.
pub proof fn lemma_ready_decodes(s: Seq<char>, v0: int, n: u64)
    requires
        spec_ready(s, v0) matches Some((d, nd)) && spec_frame_end(s, v0 + nd),
    ensures
        spec_dispatch(s, v0, 0, Some("READY"@), Some(n)) == Ok::<DiscordMessageView, DecodeError>(
            DiscordMessageView::Ready { s: n, d: spec_ready(s, v0).unwrap().0 },
        ),
{
    
}

/// The matching typed variant: a valid frame carrying `op=0`, the event name `RESUMED`, and a
/// present sequence number decodes to exactly that variant, the payload
/// fields copied verbatim as the payload object spells them.
pub proof fn lemma_resumed_decodes(s: Seq<char>, v0: int, n: u64)
    requires
        spec_resumed(s, v0) matches Some((d, nd)) && spec_frame_end(s, v0 + nd),
    ensures
        spec_dispatch(s, v0, 0, Some("RESUMED"@), Some(n)) == Ok::<DiscordMessageView, DecodeError>(
            DiscordMessageView::Resumed { s: n, d: spec_resumed(s, v0).unwrap().0 },
        ),
{
    reveal_strlit("READY");
    reveal_strlit("RESUMED");
    reveal_strlit("GUILD_CREATE");
    reveal_strlit("PRESENCE_UPDATE");
    reveal_strlit("MESSAGE_CREATE");
    assert("READY"@.len() == 5);
    assert("RESUMED"@.len() == 7);
    assert("GUILD_CREATE"@.len() == 12);
    assert("PRESENCE_UPDATE"@.len() == 15);
    assert("MESSAGE_CREATE"@.len() == 14);
}

/// The matching typed variant: a valid frame carrying `op=0`, the event name `GUILD_CREATE`, and a
/// present sequence number decodes to exactly that variant, the payload
/// fields copied verbatim as the payload object spells them.
pub proof fn lemma_guild_create_decodes(s: Seq<char>, v0: int, n: u64)
    requires
        spec_guild(s, v0) matches Some((d, nd)) && spec_frame_end(s, v0 + nd),
    ensures
        spec_dispatch(s, v0, 0, Some("GUILD_CREATE"@), Some(n)) == Ok::<DiscordMessageView, DecodeError>(
            DiscordMessageView::GuildCreate { s: n, d: spec_guild(s, v0).unwrap().0 },
        ),
{
    reveal_strlit("READY");
    reveal_strlit("RESUMED");
    reveal_strlit("GUILD_CREATE");
    reveal_strlit("PRESENCE_UPDATE");
    reveal_strlit("MESSAGE_CREATE");
    assert("READY"@.len() == 5);
    assert("RESUMED"@.len() == 7);
    assert("GUILD_CREATE"@.len() == 12);
    assert("PRESENCE_UPDATE"@.len() == 15);
    assert("MESSAGE_CREATE"@.len() == 14);
}

/// The matching typed variant: a valid frame carrying `op=0`, the event name `PRESENCE_UPDATE`, and a
/// present sequence number decodes to exactly that variant, the payload
/// fields copied verbatim as the payload object spells them.
pub proof fn lemma_presence_update_decodes(s: Seq<char>, v0: int, n: u64)
    requires
        spec_presence(s, v0) matches Some((d, nd)) && spec_frame_end(s, v0 + nd),
    ensures
        spec_dispatch(s, v0, 0, Some("PRESENCE_UPDATE"@), Some(n)) == Ok::<DiscordMessageView, DecodeError>(
            DiscordMessageView::PresenceUpdate { s: n, d: spec_presence(s, v0).unwrap().0 },
        ),
{
    reveal_strlit("READY");
    reveal_strlit("RESUMED");
    reveal_strlit("GUILD_CREATE");
    reveal_strlit("PRESENCE_UPDATE");
    reveal_strlit("MESSAGE_CREATE");
    assert("READY"@.len() == 5);
    assert("RESUMED"@.len() == 7);
    assert("GUILD_CREATE"@.len() == 12);
    assert("PRESENCE_UPDATE"@.len() == 15);
    assert("MESSAGE_CREATE"@.len() == 14);
}

/// The matching typed variant: a valid frame carrying `op=0`, the event name `MESSAGE_CREATE`, and a
/// present sequence number decodes to exactly that variant, the payload
/// fields copied verbatim as the payload object spells them.
pub proof fn lemma_message_create_decodes(s: Seq<char>, v0: int, n: u64)
    requires
        spec_message(s, v0) matches Some((d, nd)) && spec_frame_end(s, v0 + nd),
    ensures
        spec_dispatch(s, v0, 0, Some("MESSAGE_CREATE"@), Some(n)) == Ok::<DiscordMessageView, DecodeError>(
            DiscordMessageView::MessageCreate { s: n, d: spec_message(s, v0).unwrap().0 },
        ),
{
    reveal_strlit("READY");
    reveal_strlit("RESUMED");
    reveal_strlit("GUILD_CREATE");
    reveal_strlit("PRESENCE_UPDATE");
    reveal_strlit("MESSAGE_CREATE");
    assert("READY"@.len() == 5);
    assert("RESUMED"@.len() == 7);
    assert("GUILD_CREATE"@.len() == 12);
    assert("PRESENCE_UPDATE"@.len() == 15);
    assert("MESSAGE_CREATE"@.len() == 14);
}

/// An event name outside the closed set never breaks the connection: a
/// valid frame carrying it decodes to `Unknown` with the name and the raw
/// payload text kept verbatim, and never to an error.
pub proof fn lemma_unrecognized_never_fails(s: Seq<char>, v0: int, n: u64, name: Seq<char>)
    requires
        name != "READY"@,
        name != "RESUMED"@,
        name != "GUILD_CREATE"@,
        name != "PRESENCE_UPDATE"@,
        name != "MESSAGE_CREATE"@,
        spec_scan(s, v0, 0, false, false) matches Some(nv) && nv > 0 && spec_frame_end(s, v0 + nv),
    ensures
        spec_dispatch(s, v0, 0, Some(name), Some(n)) == Ok::<DiscordMessageView, DecodeError>(
            DiscordMessageView::Unknown {
                s: n,
                t: name,
                d: s.subrange(v0, v0 + spec_scan(s, v0, 0, false, false).unwrap()),
            },
        ),
        spec_dispatch(s, v0, 0, Some(name), Some(n)) is Ok,
{
}

/// Discriminators-before-payload is mandatory: wherever the envelope
/// reaches the key `d` while `op`, `t` or `s` has not been read yet,
/// decoding fails with `MalformedFrame`, whatever the payload holds.
pub proof fn lemma_payload_before_discriminators(
    s: Seq<char>,
    i: int,
    op: Option<u64>,
    t: Option<Option<Seq<char>>>,
    sq: Option<Option<u64>>,
)
    requires
        ({
            let iw = i + spec_ws_run(s, i);
            spec_parse_string(s, iw) matches Some((key, nk)) && key == "d"@
        }),
        !(op is Some && t is Some && sq is Some),
    ensures
        spec_envelope(s, i, op, t, sq) == Err::<DiscordMessageView, DecodeError>(
            DecodeError::MalformedFrame,
        ),
{
    reveal_strlit("op");
    reveal_strlit("t");
    reveal_strlit("s");
    reveal_strlit("d");
    let iw = i + spec_ws_run(s, i);
    assert(0 <= iw < s.len() && s[iw] == '"');
    assert("d"@ != "op"@ && "d"@ != "t"@ && "d"@ != "s"@) by {
        assert("d"@.len() == 1 && "op"@.len() == 2 && "t"@.len() == 1 && "s"@.len() == 1);
        assert("d"@[0] == 'd' && "t"@[0] == 't' && "s"@[0] == 's');
    }
}

} // verus!
