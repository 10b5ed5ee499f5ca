//! Lexical layer of the frame codec: character-level parsing of the JSON
//! subset that the gateway protocol uses (objects, arrays, strings with the
//! simple escape sequences, unsigned integers, `true`/`false`/`null`).
//!
//! Every executable parser here returns exactly what its spec-level twin
//! says: the spec functions take a position and return the parsed value
//! together with the number of characters consumed, so the contracts pin the
//! result completely.

use vstd::prelude::*;
use vstd::string::StrSliceExecFns;

verus! {

/// The characters the protocol treats as insignificant between tokens.
pub open spec fn is_ws(c: char) -> bool {
    c == ' ' || c == '\t' || c == '\n' || c == '\r'
}

/// Decreases measure for parsers that walk forward through `s`.
pub open spec fn rem(s: Seq<char>, i: int) -> int {
    if i <= s.len() {
        s.len() - i
    } else {
        0
    }
}

/// Number of whitespace characters at position `i`.
pub open spec fn spec_ws_run(s: Seq<char>, i: int) -> nat
    decreases rem(s, i),
{
    if 0 <= i < s.len() && is_ws(s[i]) {
        1 + spec_ws_run(s, i + 1)
    } else {
        0
    }
}

/// Skips whitespace; the position returned is the first non-whitespace
/// character at or after `i`.
pub fn skip_ws(s: &Vec<char>, i: usize) -> (j: usize)
    requires
        i <= s@.len(),
    ensures
        j == i + spec_ws_run(s@, i as int),
        i <= j <= s@.len(),
{
    let mut p = i;
    while p < s.len() && is_ws_char(s[p])
        invariant
            i <= p <= s@.len(),
            spec_ws_run(s@, i as int) == p - i + spec_ws_run(s@, p as int),
        decreases s@.len() - p,
    {
        p = p + 1;
    }
    p
}

/// Whitespace test on one character.
pub fn is_ws_char(c: char) -> (r: bool)
    ensures
        r == is_ws(c),
{
    c == ' ' || c == '\t' || c == '\n' || c == '\r'
}

/// Value of an ASCII digit, or `None` for any other character.
pub open spec fn spec_digit(c: char) -> Option<u64> {
    if '0' <= c && c <= '9' {
        Some((c as u32 - '0' as u32) as u64)
    } else {
        None
    }
}

/// Digit test and value on one character.
pub fn digit_of(c: char) -> (r: Option<u64>)
    ensures
        r == spec_digit(c),
{
    if '0' <= c && c <= '9' {
        Some((c as u32 - '0' as u32) as u64)
    } else {
        None
    }
}

/// An unsigned decimal integer read from position `i`: its value and the
/// count of digits consumed. `None` if there is no digit at `i`, or if the
/// value does not fit in `u64`, or if a leading zero is followed by more
/// digits.
pub open spec fn spec_parse_u64(s: Seq<char>, i: int) -> Option<(u64, nat)> {
    match spec_u64_digits(s, i, 0) {
        Some((v, n)) => {
            if n == 0 {
                None
            } else if s[i] == '0' && n > 1 {
                None
            } else {
                Some((v, n))
            }
        },
        None => None,
    }
}

/// Folds decimal digits starting at `i` into `acc`; stops at the first
/// non-digit. `None` only on `u64` overflow.
pub open spec fn spec_u64_digits(s: Seq<char>, i: int, acc: u64) -> Option<(u64, nat)>
    decreases rem(s, i),
{
    if 0 <= i < s.len() {
        match spec_digit(s[i]) {
            Some(d) => {
                if acc > (0xffff_ffff_ffff_ffffu64 - d) / 10 {
                    None
                } else {
                    match spec_u64_digits(s, i + 1, (10 * acc + d) as u64) {
                        Some((v, n)) => Some((v, n + 1)),
                        None => None,
                    }
                }
            },
            None => Some((acc, 0)),
        }
    } else {
        Some((acc, 0))
    }
}

/// Reads an unsigned decimal integer at `i`; returns the value and the
/// position just past its digits.
pub fn parse_u64(s: &Vec<char>, i: usize) -> (r: Option<(u64, usize)>)
    requires
        i <= s@.len(),
    ensures
        match r {
            Some((v, j)) => {
                &&& i < j <= s@.len()
                &&& spec_parse_u64(s@, i as int) == Some((v, (j - i) as nat))
            },
            None => spec_parse_u64(s@, i as int) is None,
        },
{
    let mut p = i;
    let mut acc: u64 = 0;
    while p < s.len() && digit_of(s[p]).is_some()
        invariant
            i <= p <= s@.len(),
            spec_u64_digits(s@, i as int, 0) matches Some((v, n))
                ==> (spec_u64_digits(s@, p as int, acc) matches Some((v2, n2))
                    && v2 == v && p + n2 == i + n),
            spec_u64_digits(s@, i as int, 0) is None
                <==> spec_u64_digits(s@, p as int, acc) is None,
        decreases s@.len() - p,
    {
        let d = digit_of(s[p]).unwrap();
        if acc > (0xffff_ffff_ffff_ffffu64 - d) / 10 {
            assert(spec_u64_digits(s@, p as int, acc) is None);
            return None;
        }
        acc = 10 * acc + d;
        p = p + 1;
    }
    if p == i {
        assert(spec_u64_digits(s@, i as int, 0) matches Some((v, n)) && n == 0);
        return None;
    }
    assert(spec_u64_digits(s@, p as int, acc) == Some::<(u64, nat)>((acc, 0)));
    if s[i] == '0' && p > i + 1 {
        return None;
    }
    Some((acc, p))
}

/// The character an escape sequence `\c` stands for, or `None` where `c` is
/// not one of the simple escapes. `\u` sequences are not part of the
/// accepted subset.
pub open spec fn spec_unescape(c: char) -> Option<char> {
    if c == '"' {
        Some('"')
    } else if c == '\\' {
        Some('\\')
    } else if c == '/' {
        Some('/')
    } else if c == 'n' {
        Some('\n')
    } else if c == 't' {
        Some('\t')
    } else if c == 'r' {
        Some('\r')
    } else if c == 'b' {
        Some('\u{8}')
    } else if c == 'f' {
        Some('\u{c}')
    } else {
        None
    }
}

/// Escape resolution on one character.
pub fn unescape(c: char) -> (r: Option<char>)
    ensures
        r == spec_unescape(c),
{
    if c == '"' {
        Some('"')
    } else if c == '\\' {
        Some('\\')
    } else if c == '/' {
        Some('/')
    } else if c == 'n' {
        Some('\n')
    } else if c == 't' {
        Some('\t')
    } else if c == 'r' {
        Some('\r')
    } else if c == 'b' {
        Some('\u{8}')
    } else if c == 'f' {
        Some('\u{c}')
    } else {
        None
    }
}

/// The body of a string literal from position `i` (just after the opening
/// quote): the decoded content so far is `acc`; the count consumed includes
/// the closing quote.
pub open spec fn spec_str_body(s: Seq<char>, i: int, acc: Seq<char>) -> Option<(Seq<char>, nat)>
    decreases rem(s, i),
{
    if 0 <= i < s.len() {
        let c = s[i];
        if c == '"' {
            Some((acc, 1))
        } else if c == '\\' {
            if i + 1 < s.len() {
                match spec_unescape(s[i + 1]) {
                    Some(e) => match spec_str_body(s, i + 2, acc.push(e)) {
                        Some((r, n)) => Some((r, n + 2)),
                        None => None,
                    },
                    None => None,
                }
            } else {
                None
            }
        } else {
            match spec_str_body(s, i + 1, acc.push(c)) {
                Some((r, n)) => Some((r, n + 1)),
                None => None,
            }
        }
    } else {
        None
    }
}

/// A string literal at position `i`: its decoded content and the count
/// consumed, opening and closing quotes included.
pub open spec fn spec_parse_string(s: Seq<char>, i: int) -> Option<(Seq<char>, nat)> {
    if 0 <= i < s.len() && s[i] == '"' {
        match spec_str_body(s, i + 1, Seq::empty()) {
            Some((r, n)) => Some((r, n + 1)),
            None => None,
        }
    } else {
        None
    }
}

/// Reads a string literal at `i`; returns the decoded content and the
/// position just past the closing quote.
pub fn parse_string(s: &Vec<char>, i: usize) -> (r: Option<(Vec<char>, usize)>)
    requires
        i <= s@.len(),
    ensures
        match r {
            Some((v, j)) => {
                &&& i < j <= s@.len()
                &&& spec_parse_string(s@, i as int) == Some((v@, (j - i) as nat))
            },
            None => spec_parse_string(s@, i as int) is None,
        },
{
    if i >= s.len() || s[i] != '"' {
        return None;
    }
    let mut p = i + 1;
    let mut acc: Vec<char> = Vec::new();
    loop
        invariant
            i + 1 <= p <= s@.len(),
            i < s@.len(),
            s@[i as int] == '"',
            spec_str_body(s@, i as int + 1, Seq::empty()) is None <==> spec_str_body(
                s@,
                p as int,
                acc@,
            ) is None,
            spec_str_body(s@, i as int + 1, Seq::empty()) matches Some((r0, n0)) ==> (
            spec_str_body(s@, p as int, acc@) matches Some((r2, n2)) && r2 == r0 && p + n2 == i + 1
                + n0),
        decreases s@.len() - p,
    {
        if p >= s.len() {
            return None;
        }
        let c = s[p];
        if c == '"' {
            assert(spec_str_body(s@, p as int, acc@) == Some((acc@, 1nat)));
            return Some((acc, p + 1));
        } else if c == '\\' {
            if p + 1 >= s.len() {
                return None;
            }
            match unescape(s[p + 1]) {
                Some(e) => {
                    acc.push(e);
                    p = p + 2;
                },
                None => {
                    return None;
                },
            }
        } else {
            acc.push(c);
            p = p + 1;
        }
    }
}

/// `true` spelled out at position `i`.
pub open spec fn spec_lit_true(s: Seq<char>, i: int) -> bool {
    &&& 0 <= i
    &&& i + 4 <= s.len()
    &&& s[i] == 't'
    &&& s[i + 1] == 'r'
    &&& s[i + 2] == 'u'
    &&& s[i + 3] == 'e'
}

/// `false` spelled out at position `i`.
pub open spec fn spec_lit_false(s: Seq<char>, i: int) -> bool {
    &&& 0 <= i
    &&& i + 5 <= s.len()
    &&& s[i] == 'f'
    &&& s[i + 1] == 'a'
    &&& s[i + 2] == 'l'
    &&& s[i + 3] == 's'
    &&& s[i + 4] == 'e'
}

/// `null` spelled out at position `i`.
pub open spec fn spec_lit_null(s: Seq<char>, i: int) -> bool {
    &&& 0 <= i
    &&& i + 4 <= s.len()
    &&& s[i] == 'n'
    &&& s[i + 1] == 'u'
    &&& s[i + 2] == 'l'
    &&& s[i + 3] == 'l'
}

/// Tests for `true` at `i`.
pub fn lit_true_at(s: &Vec<char>, i: usize) -> (r: bool)
    requires
        i <= s@.len(),
    ensures
        r == spec_lit_true(s@, i as int),
{
    s.len() >= 4 && i <= s.len() - 4 && s[i] == 't' && s[i + 1] == 'r' && s[i + 2] == 'u' && s[i
        + 3] == 'e'
}

/// Tests for `false` at `i`.
pub fn lit_false_at(s: &Vec<char>, i: usize) -> (r: bool)
    requires
        i <= s@.len(),
    ensures
        r == spec_lit_false(s@, i as int),
{
    s.len() >= 5 && i <= s.len() - 5 && s[i] == 'f' && s[i + 1] == 'a' && s[i + 2] == 'l' && s[i
        + 3] == 's' && s[i + 4] == 'e'
}

/// Tests for `null` at `i`.
pub fn lit_null_at(s: &Vec<char>, i: usize) -> (r: bool)
    requires
        i <= s@.len(),
    ensures
        r == spec_lit_null(s@, i as int),
{
    s.len() >= 4 && i <= s.len() - 4 && s[i] == 'n' && s[i + 1] == 'u' && s[i + 2] == 'l' && s[i
        + 3] == 'l'
}

/// End of a raw value that starts at `i`, found by bracket counting: the
/// count of characters the value occupies. The scanner state is the bracket
/// `depth`, whether the position is inside a string, and whether the
/// previous character was a backslash. A value ends right after its closing
/// quote or bracket, or just before the delimiter (`,`, `}`, `]`, or
/// whitespace) that follows an unbracketed token. `None` when the input
/// ends first, or where no value can start.
pub open spec fn spec_scan(s: Seq<char>, i: int, depth: nat, in_str: bool, esc: bool) -> Option<
    nat,
>
    decreases rem(s, i),
{
    if 0 <= i < s.len() {
        let c = s[i];
        if in_str {
            if esc {
                match spec_scan(s, i + 1, depth, true, false) {
                    Some(n) => Some(n + 1),
                    None => None,
                }
            } else if c == '\\' {
                match spec_scan(s, i + 1, depth, true, true) {
                    Some(n) => Some(n + 1),
                    None => None,
                }
            } else if c == '"' {
                if depth == 0 {
                    Some(1)
                } else {
                    match spec_scan(s, i + 1, depth, false, false) {
                        Some(n) => Some(n + 1),
                        None => None,
                    }
                }
            } else {
                match spec_scan(s, i + 1, depth, true, false) {
                    Some(n) => Some(n + 1),
                    None => None,
                }
            }
        } else {
            if c == '{' || c == '[' {
                match spec_scan(s, i + 1, depth + 1, false, false) {
                    Some(n) => Some(n + 1),
                    None => None,
                }
            } else if c == '}' || c == ']' {
                if depth == 1 {
                    Some(1)
                } else if depth == 0 {
                    Some(0)
                } else {
                    match spec_scan(s, i + 1, (depth - 1) as nat, false, false) {
                        Some(n) => Some(n + 1),
                        None => None,
                    }
                }
            } else if c == '"' {
                match spec_scan(s, i + 1, depth, true, false) {
                    Some(n) => Some(n + 1),
                    None => None,
                }
            } else if depth == 0 && (c == ',' || is_ws(c)) {
                Some(0)
            } else {
                match spec_scan(s, i + 1, depth, false, false) {
                    Some(n) => Some(n + 1),
                    None => None,
                }
            }
        }
    } else {
        if depth == 0 && !in_str {
            Some(0)
        } else {
            None
        }
    }
}

/// Span of the raw value starting at `i`: the position just past it.
pub fn scan_value(s: &Vec<char>, i: usize) -> (r: Option<usize>)
    requires
        i <= s@.len(),
    ensures
        match r {
            Some(j) => {
                &&& i <= j <= s@.len()
                &&& spec_scan(s@, i as int, 0, false, false) == Some((j - i) as nat)
            },
            None => spec_scan(s@, i as int, 0, false, false) is None,
        },
{
    let mut p = i;
    let mut depth: usize = 0;
    let mut in_str = false;
    let mut esc = false;
    loop
        invariant
            i <= p <= s@.len(),
            depth <= p - i,
            !in_str ==> !esc,
            spec_scan(s@, i as int, 0, false, false) is None <==> spec_scan(
                s@,
                p as int,
                depth as nat,
                in_str,
                esc,
            ) is None,
            spec_scan(s@, i as int, 0, false, false) matches Some(n0) ==> (spec_scan(
                s@,
                p as int,
                depth as nat,
                in_str,
                esc,
            ) matches Some(n2) && p + n2 == i + n0),
        decreases s@.len() - p,
    {
        if p >= s.len() {
            if depth == 0 && !in_str {
                return Some(p);
            }
            return None;
        }
        let c = s[p];
        if in_str {
            if esc {
                esc = false;
                p = p + 1;
            } else if c == '\\' {
                esc = true;
                p = p + 1;
            } else if c == '"' {
                if depth == 0 {
                    return Some(p + 1);
                }
                in_str = false;
                p = p + 1;
            } else {
                p = p + 1;
            }
        } else {
            if c == '{' || c == '[' {
                depth = depth + 1;
                p = p + 1;
            } else if c == '}' || c == ']' {
                if depth == 1 {
                    return Some(p + 1);
                } else if depth == 0 {
                    return Some(p);
                }
                depth = depth - 1;
                p = p + 1;
            } else if c == '"' {
                in_str = true;
                p = p + 1;
            } else if depth == 0 && (c == ',' || is_ws_char(c)) {
                return Some(p);
            } else {
                p = p + 1;
            }
        }
    }
}

/// All value spans among `es` lie strictly after `i` and within `len`.
pub open spec fn obj_spans_ok(es: Seq<(Vec<char>, usize, usize)>, i: int, len: int) -> bool {
    forall|k: int| 0 <= k < es.len() ==> i < #[trigger] es[k].1 <= es[k].2 <= len
}

/// All element spans among `es` lie strictly after `i` and within `len`.
pub open spec fn arr_spans_ok(es: Seq<(usize, usize)>, i: int, len: int) -> bool {
    forall|k: int| 0 <= k < es.len() ==> i < #[trigger] es[k].0 <= es[k].1 <= len
}

/// An object entry at the spec level: the decoded key, and the absolute
/// start and end positions of the raw value it maps to.
pub open spec fn entries_view(es: Seq<(Vec<char>, usize, usize)>) -> Seq<(Seq<char>, int, int)> {
    Seq::new(es.len(), |k: int| (es[k].0@, es[k].1 as int, es[k].2 as int))
}

/// Entries of an object body from position `i` (just after `{` or a `,`):
/// each is a key with the span of its raw value; the count consumed ends
/// just past the closing `}`. Keys are not deduplicated and keep document
/// order.
pub open spec fn spec_obj_tail(s: Seq<char>, i: int, acc: Seq<(Seq<char>, int, int)>) -> Option<
    (Seq<(Seq<char>, int, int)>, nat),
>
    decreases rem(s, i),
{
    let iw = i + spec_ws_run(s, i);
    if iw < s.len() && s[iw] == '}' {
        Some((acc, (iw - i + 1) as nat))
    } else {
        match spec_parse_string(s, iw) {
            Some((key, nk)) => {
                let ic = iw + nk + spec_ws_run(s, iw + nk);
                if ic < s.len() && s[ic] == ':' {
                    let v0 = ic + 1 + spec_ws_run(s, ic + 1);
                    match spec_scan(s, v0, 0, false, false) {
                        Some(nv) => {
                            if nv == 0 {
                                None
                            } else {
                                let ie = v0 + nv;
                                let iw2 = ie + spec_ws_run(s, ie);
                                if iw2 < s.len() && s[iw2] == ',' {
                                    match spec_obj_tail(s, iw2 + 1, acc.push((key, v0, ie))) {
                                        Some((es, n)) => Some((es, (iw2 + 1 - i + n) as nat)),
                                        None => None,
                                    }
                                } else if iw2 < s.len() && s[iw2] == '}' {
                                    Some((acc.push((key, v0, ie)), (iw2 - i + 1) as nat))
                                } else {
                                    None
                                }
                            }
                        },
                        None => None,
                    }
                } else {
                    None
                }
            },
            None => None,
        }
    }
}

/// An object at position `i`: its entries and the count consumed, braces
/// included.
pub open spec fn spec_split_obj(s: Seq<char>, i: int) -> Option<(Seq<(Seq<char>, int, int)>, nat)> {
    if 0 <= i < s.len() && s[i] == '{' {
        match spec_obj_tail(s, i + 1, Seq::empty()) {
            Some((es, n)) => Some((es, n + 1)),
            None => None,
        }
    } else {
        None
    }
}

/// Splits the object at `i` into its entries; returns them with the
/// position just past the closing brace.
#[verifier::rlimit(50)]
pub fn split_obj(s: &Vec<char>, i: usize) -> (r: Option<(Vec<(Vec<char>, usize, usize)>, usize)>)
    requires
        i <= s@.len(),
    ensures
        r is None ==> spec_split_obj(s@, i as int) is None,
        r matches Some((es, j)) ==> i < j <= s@.len(),
        r matches Some((es, j)) ==> spec_split_obj(s@, i as int) == Some(
            (entries_view(es@), (j - i) as nat),
        ),
        r matches Some((es, j)) ==> obj_spans_ok(es@, i as int, s@.len() as int),
{
    if i >= s.len() || s[i] != '{' {
        return None;
    }
    let ghost base: int = i + 1;
    let mut p = i + 1;
    let mut acc: Vec<(Vec<char>, usize, usize)> = Vec::new();
    proof {
        assert(entries_view(acc@) =~= Seq::<(Seq<char>, int, int)>::empty());
    }
    loop
        invariant
            i + 1 <= p <= s@.len(),
            i < s@.len(),
            s@[i as int] == '{',
            base == i + 1,
            obj_spans_ok(acc@, i as int, s@.len() as int),
            spec_obj_tail(s@, base, Seq::empty()) is None <==> spec_obj_tail(
                s@,
                p as int,
                entries_view(acc@),
            ) is None,
            spec_obj_tail(s@, base, Seq::empty()) matches Some((es0, n0)) ==> (spec_obj_tail(
                s@,
                p as int,
                entries_view(acc@),
            ) matches Some((es2, n2)) && es2 == es0 && p + n2 == base + n0),
        decreases s@.len() - p,
    {
        let iw = skip_ws(s, p);
        if iw < s.len() && s[iw] == '}' {
            assert(spec_obj_tail(s@, p as int, entries_view(acc@)) == Some(
                (entries_view(acc@), (iw - p + 1) as nat),
            ));
            proof {
                assert(spec_split_obj(s@, i as int) =~= Some(
                    (entries_view(acc@), (iw + 1 - i) as nat),
                ));
            }
            return Some((acc, iw + 1));
        }
        let (key, jk) = match parse_string(s, iw) {
            Some(x) => x,
            None => {
                return None;
            },
        };
        let ic = skip_ws(s, jk);
        if !(ic < s.len() && s[ic] == ':') {
            return None;
        }
        let v0 = skip_ws(s, ic + 1);
        let ie = match scan_value(s, v0) {
            Some(x) => x,
            None => {
                return None;
            },
        };
        if ie == v0 {
            return None;
        }
        let iw2 = skip_ws(s, ie);
        let ghost old_entries = entries_view(acc@);
        let ghost old_acc = acc@;
        if iw2 < s.len() && s[iw2] == ',' {
            acc.push((key, v0, ie));
            proof {
                assert(entries_view(acc@) =~= old_entries.push((acc@.last().0@, v0 as int, ie as int)));
                assert forall|k: int| 0 <= k < acc@.len() implies i < #[trigger] acc@[k].1
                    <= acc@[k].2 <= s@.len() by {
                    if k < acc@.len() - 1 {
                        assert(acc@[k] == old_acc[k]);
                    }
                }
            }
            p = iw2 + 1;
        } else if iw2 < s.len() && s[iw2] == '}' {
            acc.push((key, v0, ie));
            proof {
                assert(entries_view(acc@) =~= old_entries.push((acc@.last().0@, v0 as int, ie as int)));
                assert(spec_split_obj(s@, i as int) =~= Some(
                    (entries_view(acc@), (iw2 + 1 - i) as nat),
                ));
                assert forall|k: int| 0 <= k < acc@.len() implies i < #[trigger] acc@[k].1
                    <= acc@[k].2 <= s@.len() by {
                    if k < acc@.len() - 1 {
                        assert(acc@[k] == old_acc[k]);
                    }
                }
            }
            return Some((acc, iw2 + 1));
        } else {
            return None;
        }
    }
}

/// Element spans of an array body from position `i` (just after `[` or a
/// `,`); the count consumed ends just past the closing `]`.
pub open spec fn spec_arr_tail(s: Seq<char>, i: int, acc: Seq<(int, int)>) -> Option<
    (Seq<(int, int)>, nat),
>
    decreases rem(s, i),
{
    let iw = i + spec_ws_run(s, i);
    if iw < s.len() && s[iw] == ']' {
        Some((acc, (iw - i + 1) as nat))
    } else {
        match spec_scan(s, iw, 0, false, false) {
            Some(nv) => {
                if nv == 0 {
                    None
                } else {
                    let ie = iw + nv;
                    let iw2 = ie + spec_ws_run(s, ie);
                    if iw2 < s.len() && s[iw2] == ',' {
                        match spec_arr_tail(s, iw2 + 1, acc.push((iw, ie))) {
                            Some((es, n)) => Some((es, (iw2 + 1 - i + n) as nat)),
                            None => None,
                        }
                    } else if iw2 < s.len() && s[iw2] == ']' {
                        Some((acc.push((iw, ie)), (iw2 - i + 1) as nat))
                    } else {
                        None
                    }
                }
            },
            None => None,
        }
    }
}

/// Spans as a spec sequence.
pub open spec fn spans_view(es: Seq<(usize, usize)>) -> Seq<(int, int)> {
    Seq::new(es.len(), |k: int| (es[k].0 as int, es[k].1 as int))
}

/// An array at position `i`: its element spans and the count consumed,
/// brackets included.
pub open spec fn spec_split_arr(s: Seq<char>, i: int) -> Option<(Seq<(int, int)>, nat)> {
    if 0 <= i < s.len() && s[i] == '[' {
        match spec_arr_tail(s, i + 1, Seq::empty()) {
            Some((es, n)) => Some((es, n + 1)),
            None => None,
        }
    } else {
        None
    }
}

/// Splits the array at `i` into its element spans; returns them with the
/// position just past the closing bracket.
pub fn split_arr(s: &Vec<char>, i: usize) -> (r: Option<(Vec<(usize, usize)>, usize)>)
    requires
        i <= s@.len(),
    ensures
        match r {
            Some((es, j)) => {
                &&& i < j <= s@.len()
                &&& spec_split_arr(s@, i as int) == Some((spans_view(es@), (j - i) as nat))
                &&& arr_spans_ok(es@, i as int, s@.len() as int)
            },
            None => spec_split_arr(s@, i as int) is None,
        },
{
    if i >= s.len() || s[i] != '[' {
        return None;
    }
    let ghost base: int = i + 1;
    let mut p = i + 1;
    let mut acc: Vec<(usize, usize)> = Vec::new();
    proof {
        assert(spans_view(acc@) =~= Seq::<(int, int)>::empty());
    }
    loop
        invariant
            i + 1 <= p <= s@.len(),
            i < s@.len(),
            s@[i as int] == '[',
            base == i + 1,
            arr_spans_ok(acc@, i as int, s@.len() as int),
            spec_arr_tail(s@, base, Seq::empty()) is None <==> spec_arr_tail(
                s@,
                p as int,
                spans_view(acc@),
            ) is None,
            spec_arr_tail(s@, base, Seq::empty()) matches Some((es0, n0)) ==> (spec_arr_tail(
                s@,
                p as int,
                spans_view(acc@),
            ) matches Some((es2, n2)) && es2 == es0 && p + n2 == base + n0),
        decreases s@.len() - p,
    {
        let iw = skip_ws(s, p);
        if iw < s.len() && s[iw] == ']' {
            assert(spec_arr_tail(s@, p as int, spans_view(acc@)) == Some(
                (spans_view(acc@), (iw - p + 1) as nat),
            ));
            proof {
                assert(spec_split_arr(s@, i as int) =~= Some(
                    (spans_view(acc@), (iw + 1 - i) as nat),
                ));
            }
            return Some((acc, iw + 1));
        }
        let ie = match scan_value(s, iw) {
            Some(x) => x,
            None => {
                return None;
            },
        };
        if ie == iw {
            return None;
        }
        let iw2 = skip_ws(s, ie);
        let ghost old_spans = spans_view(acc@);
        let ghost old_acc = acc@;
        if iw2 < s.len() && s[iw2] == ',' {
            acc.push((iw, ie));
            proof {
                assert(spans_view(acc@) =~= old_spans.push((iw as int, ie as int)));
                assert forall|k: int| 0 <= k < acc@.len() implies i < #[trigger] acc@[k].0
                    <= acc@[k].1 <= s@.len() by {
                    if k < acc@.len() - 1 {
                        assert(acc@[k] == old_acc[k]);
                    }
                }
            }
            p = iw2 + 1;
        } else if iw2 < s.len() && s[iw2] == ']' {
            acc.push((iw, ie));
            proof {
                assert(spans_view(acc@) =~= old_spans.push((iw as int, ie as int)));
                assert(spec_split_arr(s@, i as int) =~= Some(
                    (spans_view(acc@), (iw2 + 1 - i) as nat),
                ));
                assert forall|k: int| 0 <= k < acc@.len() implies i < #[trigger] acc@[k].0
                    <= acc@[k].1 <= s@.len() by {
                    if k < acc@.len() - 1 {
                        assert(acc@[k] == old_acc[k]);
                    }
                }
            }
            return Some((acc, iw2 + 1));
        } else {
            return None;
        }
    }
}

/// The value span of the first entry whose key is `key`, searching in
/// document order.
pub open spec fn spec_lookup(es: Seq<(Seq<char>, int, int)>, key: Seq<char>) -> Option<(int, int)>
    decreases es.len(),
{
    if es.len() == 0 {
        None
    } else if es[0].0 == key {
        Some((es[0].1, es[0].2))
    } else {
        spec_lookup(es.drop_first(), key)
    }
}

/// Whether the characters of `v` spell exactly `lit`.
pub fn chars_eq_lit(v: &Vec<char>, lit: &str) -> (r: bool)
    ensures
        r == (v@ == lit@),
{
    let n = lit.unicode_len();
    if v.len() != n {
        return false;
    }
    let mut k: usize = 0;
    while k < n
        invariant
            n == lit@.len(),
            v@.len() == n,
            k <= n,
            forall|j: int| 0 <= j < k ==> v@[j] == lit@[j],
        decreases n - k,
    {
        if v[k] != lit.get_char(k) {
            return false;
        }
        k = k + 1;
    }
    proof {
        assert(v@ =~= lit@);
    }
    true
}

/// First entry whose key spells `key`, in document order.
pub fn lookup(es: &Vec<(Vec<char>, usize, usize)>, key: &str) -> (r: Option<(usize, usize)>)
    ensures
        match r {
            Some((a, b)) => spec_lookup(entries_view(es@), key@) == Some((a as int, b as int)),
            None => spec_lookup(entries_view(es@), key@) is None,
        },
        r matches Some((a, b)) ==> exists|k: int|
            0 <= k < es@.len() && (#[trigger] es@[k]).1 == a && es@[k].2 == b,
{
    let mut k: usize = 0;
    proof {
        assert(entries_view(es@).skip(0) =~= entries_view(es@));
    }
    while k < es.len()
        invariant
            k <= es@.len(),
            spec_lookup(entries_view(es@), key@) == spec_lookup(
                entries_view(es@).skip(k as int),
                key@,
            ),
        decreases es@.len() - k,
    {
        let hit = chars_eq_lit(&es[k].0, key);
        proof {
            assert(entries_view(es@).skip(k as int)[0] == (es@[k as int].0@, es@[k as int].1 as int,
                es@[k as int].2 as int));
            assert(entries_view(es@).skip(k as int).drop_first() =~= entries_view(es@).skip(
                k as int + 1));
        }
        if hit {
            proof {
                assert(0 <= k < es@.len() && (es@[k as int]).1 == es@[k as int].1);
            }
            return Some((es[k].1, es[k].2));
        }
        k = k + 1;
    }
    assert(entries_view(es@).skip(k as int) =~= Seq::<(Seq<char>, int, int)>::empty());
    None
}

/// Relies on `String`'s `FromIterator<char>` impl: collecting an iterator
/// of characters yields a string of exactly those characters in order.
#[verifier::external_body]
pub(crate) fn string_from_chars(v: &Vec<char>) -> (r: String)
    ensures
        r@ == v@,
{
    v.iter().collect()
}

/// The characters of `text` as a vector.
pub fn chars_of(text: &str) -> (r: Vec<char>)
    ensures
        r@ == text@,
{
    let n = text.unicode_len();
    let mut v: Vec<char> = Vec::new();
    let mut k: usize = 0;
    while k < n
        invariant
            n == text@.len(),
            v@.len() == k,
            k <= n,
            v@ == text@.subrange(0, k as int),
        decreases n - k,
    {
        v.push(text.get_char(k));
        k = k + 1;
        proof {
            assert(v@ =~= text@.subrange(0, k as int));
        }
    }
    proof {
        assert(v@ =~= text@);
    }
    v
}

/// The characters of `s` between `a` and `b`, as a string.
pub fn chars_range_string(s: &Vec<char>, a: usize, b: usize) -> (r: String)
    requires
        a <= b <= s@.len(),
    ensures
        r@ == s@.subrange(a as int, b as int),
{
    let mut v: Vec<char> = Vec::new();
    let mut k = a;
    while k < b
        invariant
            a <= k <= b <= s@.len(),
            v@ == s@.subrange(a as int, k as int),
        decreases b - k,
    {
        v.push(s[k]);
        k = k + 1;
        proof {
            assert(v@ =~= s@.subrange(a as int, k as int));
        }
    }
    string_from_chars(&v)
}

} // verus!

