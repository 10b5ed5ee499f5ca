//! Outbound wire text: the exact JSON payloads for the control frames the
//! session machine prescribes, and for REST request bodies. Each renderer's
//! contract gives the produced text character for character.

use vstd::prelude::*;

use crate::json::string_from_chars;
use crate::session::ControlFrame;
use vstd::string::StrSliceExecFns;

verus! {

/// How one character appears inside a JSON string literal: quote,
/// backslash and the control characters the protocol uses are escaped,
/// everything else stands for itself.
pub open spec fn spec_escape_char(c: char) -> Seq<char> {
    if c == '"' {
        seq!['\\', '"']
    } else if c == '\\' {
        seq!['\\', '\\']
    } else if c == '\n' {
        seq!['\\', 'n']
    } else if c == '\t' {
        seq!['\\', 't']
    } else if c == '\r' {
        seq!['\\', 'r']
    } else if c == '\u{8}' {
        seq!['\\', 'b']
    } else if c == '\u{c}' {
        seq!['\\', 'f']
    } else {
        seq![c]
    }
}

/// A whole string's content as it appears inside a JSON string literal.
pub open spec fn spec_escape(s: Seq<char>) -> Seq<char>
    decreases s.len(),
{
    if s.len() == 0 {
        Seq::empty()
    } else {
        spec_escape_char(s[0]) + spec_escape(s.drop_first())
    }
}

/// Escaping distributes over appending one character at the end.
proof fn lemma_escape_push(s: Seq<char>, c: char)
    ensures
        spec_escape(s.push(c)) == spec_escape(s) + spec_escape_char(c),
    decreases s.len(),
{
    if s.len() == 0 {
        assert(s.push(c).len() == 1);
        assert(s.push(c)[0] == c);
        assert(s.push(c).drop_first() =~= Seq::<char>::empty());
        assert(spec_escape(s.push(c)) == spec_escape_char(c) + spec_escape(
            Seq::<char>::empty(),
        ));
        assert(spec_escape(Seq::<char>::empty()) =~= Seq::<char>::empty());
        assert(spec_escape(s) =~= Seq::<char>::empty());
        assert(spec_escape_char(c) + Seq::<char>::empty() =~= spec_escape_char(c));
        assert(Seq::<char>::empty() + spec_escape_char(c) =~= spec_escape_char(c));
    } else {
        assert(s.push(c).drop_first() =~= s.drop_first().push(c));
        assert(s.push(c)[0] == s[0]);
        lemma_escape_push(s.drop_first(), c);
        assert(spec_escape_char(s[0]) + (spec_escape(s.drop_first()) + spec_escape_char(c)) =~= (
        spec_escape_char(s[0]) + spec_escape(s.drop_first())) + spec_escape_char(c));
    }
}

/// Appends `c` to `out` as it appears inside a JSON string literal.
fn push_escaped(out: &mut Vec<char>, c: char)
    ensures
        final(out)@ == old(out)@ + spec_escape_char(c),
{
    let ghost before = out@;
    if c == '"' {
        out.push('\\');
        out.push('"');
    } else if c == '\\' {
        out.push('\\');
        out.push('\\');
    } else if c == '\n' {
        out.push('\\');
        out.push('n');
    } else if c == '\t' {
        out.push('\\');
        out.push('t');
    } else if c == '\r' {
        out.push('\\');
        out.push('r');
    } else if c == '\u{8}' {
        out.push('\\');
        out.push('b');
    } else if c == '\u{c}' {
        out.push('\\');
        out.push('f');
    } else {
        out.push(c);
    }
    proof {
        assert(out@ =~= before + spec_escape_char(c));
    }
}

/// Appends the escaped content of `s` to `out`.
fn push_escaped_str(out: &mut Vec<char>, s: &str)
    ensures
        final(out)@ == old(out)@ + spec_escape(s@),
{
    let n = s.unicode_len();
    let mut k: usize = 0;
    proof {
        assert(s@.take(0) =~= Seq::<char>::empty());
        assert(old(out)@ + spec_escape(s@.take(0)) =~= old(out)@);
    }
    while k < n
        invariant
            n == s@.len(),
            k <= n,
            out@ == old(out)@ + spec_escape(s@.take(k as int)),
        decreases n - k,
    {
        let c = s.get_char(k);
        push_escaped(out, c);
        k = k + 1;
        proof {
            assert(s@.take(k as int) =~= s@.take(k as int - 1).push(s@[k as int - 1]));
            lemma_escape_push(s@.take(k as int - 1), s@[k as int - 1]);
            assert((old(out)@ + spec_escape(s@.take(k as int - 1))) + spec_escape_char(
                s@[k as int - 1],
            ) =~= old(out)@ + spec_escape(s@.take(k as int)));
        }
    }
    proof {
        assert(s@.take(n as int) =~= s@);
    }
}

/// Appends the characters of the literal `lit` to `out`.
fn push_lit(out: &mut Vec<char>, lit: &str)
    ensures
        final(out)@ == old(out)@ + lit@,
{
    let n = lit.unicode_len();
    let mut k: usize = 0;
    proof {
        assert(out@ =~= old(out)@ + lit@.take(0));
    }
    while k < n
        invariant
            n == lit@.len(),
            k <= n,
            out@ == old(out)@ + lit@.take(k as int),
        decreases n - k,
    {
        out.push(lit.get_char(k));
        k = k + 1;
        proof {
            assert(out@ =~= old(out)@ + lit@.take(k as int));
        }
    }
    proof {
        assert(lit@.take(n as int) =~= lit@);
    }
}

/// The decimal spelling of `n`, most significant digit first.
pub open spec fn spec_decimal(n: u64) -> Seq<char>
    decreases n,
{
    if n < 10 {
        seq![spec_digit_char(n)]
    } else {
        spec_decimal(n / 10).push(spec_digit_char(n % 10))
    }
}

/// The digit character for a value below ten.
pub open spec fn spec_digit_char(d: u64) -> char {
    if d == 0 {
        '0'
    } else if d == 1 {
        '1'
    } else if d == 2 {
        '2'
    } else if d == 3 {
        '3'
    } else if d == 4 {
        '4'
    } else if d == 5 {
        '5'
    } else if d == 6 {
        '6'
    } else if d == 7 {
        '7'
    } else if d == 8 {
        '8'
    } else {
        '9'
    }
}

/// Appends the decimal spelling of `n` to `out`.
fn push_decimal(out: &mut Vec<char>, n: u64)
    ensures
        final(out)@ == old(out)@ + spec_decimal(n),
    decreases n,
{
    let d = n % 10;
    let c: char = if d == 0 {
        '0'
    } else if d == 1 {
        '1'
    } else if d == 2 {
        '2'
    } else if d == 3 {
        '3'
    } else if d == 4 {
        '4'
    } else if d == 5 {
        '5'
    } else if d == 6 {
        '6'
    } else if d == 7 {
        '7'
    } else if d == 8 {
        '8'
    } else {
        '9'
    };
    if n < 10 {
        out.push(c);
        proof {
            assert(out@ =~= old(out)@ + spec_decimal(n));
        }
    } else {
        push_decimal(out, n / 10);
        out.push(c);
        proof {
            assert(out@ =~= old(out)@ + spec_decimal(n));
        }
    }
}

/// The Identify payload for a token: the fixed opcode, the token, and the
/// static client metadata.
pub open spec fn spec_identify_payload(token: Seq<char>) -> Seq<char> {
    "{\"op\":2,\"d\":{\"token\":\""@ + spec_escape(token)
        + "\",\"properties\":{\"$os\":\"linux\",\"$browser\":\"gateway\",\"$device\":\"gateway\"}}}"@
}

/// The Resume payload: the token, the prior session id, and the sequence
/// held at disconnect time (`0` where none was ever observed).
pub open spec fn spec_resume_payload(
    token: Seq<char>,
    session_id: Seq<char>,
    last_sequence: Option<u64>,
) -> Seq<char> {
    "{\"op\":6,\"d\":{\"token\":\""@ + spec_escape(token) + "\",\"session_id\":\""@ + spec_escape(
        session_id,
    ) + "\",\"seq\":"@ + spec_decimal(
        match last_sequence {
            Some(n) => n,
            None => 0,
        },
    ) + "}}"@
}

/// The wire text of a control frame.
pub open spec fn spec_control_text(c: ControlFrame) -> Seq<char> {
    match c {
        ControlFrame::Identify { token } => spec_identify_payload(token@),
        ControlFrame::Resume { token, session_id, last_sequence } => spec_resume_payload(
            token@,
            session_id@,
            last_sequence,
        ),
    }
}

/// Renders a control frame to the exact text the transport must send.
pub fn render_control_frame(c: &ControlFrame) -> (r: String)
    ensures
        r@ == spec_control_text(*c),
{
    let mut out: Vec<char> = Vec::new();
    match c {
        ControlFrame::Identify { token } => {
            push_lit(&mut out, "{\"op\":2,\"d\":{\"token\":\"");
            push_escaped_str(&mut out, token.as_str());
            push_lit(
                &mut out,
                "\",\"properties\":{\"$os\":\"linux\",\"$browser\":\"gateway\",\"$device\":\"gateway\"}}}",
            );
            proof {
                assert(out@ =~= spec_control_text(*c));
            }
        },
        ControlFrame::Resume { token, session_id, last_sequence } => {
            push_lit(&mut out, "{\"op\":6,\"d\":{\"token\":\"");
            push_escaped_str(&mut out, token.as_str());
            push_lit(&mut out, "\",\"session_id\":\"");
            push_escaped_str(&mut out, session_id.as_str());
            push_lit(&mut out, "\",\"seq\":");
            let n = match last_sequence {
                Some(n) => *n,
                None => 0,
            };
            push_decimal(&mut out, n);
            push_lit(&mut out, "}}");
            proof {
                assert(out@ =~= spec_control_text(*c));
            }
        },
    }
    string_from_chars(&out)
}

/// The REST body that posts a message with the given content.
pub open spec fn spec_post_message_body(content: Seq<char>) -> Seq<char> {
    "{\"content\":\""@ + spec_escape(content) + "\"}"@
}

/// Renders the post-message REST body.
pub fn render_post_message_body(content: &str) -> (r: String)
    ensures
        r@ == spec_post_message_body(content@),
{
    let mut out: Vec<char> = Vec::new();
    push_lit(&mut out, "{\"content\":\"");
    push_escaped_str(&mut out, content);
    push_lit(&mut out, "\"}");
    proof {
        assert(out@ =~= spec_post_message_body(content@));
    }
    string_from_chars(&out)
}

/// The fixed bot-authorization header value attached to every REST
/// action: immutable for the client's lifetime.
pub open spec fn spec_auth_header(token: Seq<char>) -> Seq<char> {
    "Bot "@ + token
}

/// Builds the bot-authorization header value for a token.
pub fn auth_header_value(token: &str) -> (r: String)
    ensures
        r@ == spec_auth_header(token@),
{
    let mut out: Vec<char> = Vec::new();
    push_lit(&mut out, "Bot ");
    push_lit(&mut out, token);
    proof {
        assert(out@ =~= spec_auth_header(token@));
    }
    string_from_chars(&out)
}

} // verus!
