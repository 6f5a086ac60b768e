//! Decoding of inbound text frames. A client speaks in JSON-shaped frames,
//! one of `{"action":"join","conversation_id":<int>}` or
//! `{"action":"msg","conversation_id":<int>,"msg":<string>}`, with optional
//! whitespace between tokens, JSON string escapes, and the fields in this
//! order. Anything else is malformed and is silently dropped by the caller.
//!
//! The grammar is defined by the specification functions here; the executable
//! decoder returns exactly what they say.

use vstd::prelude::*;
use vstd::string::*;

verus! {

/// A decoded client action.
#[derive(Debug, Clone)]
pub enum ClientAction {
    Join { conversation_id: i64 },
    Msg { conversation_id: i64, msg: String },
}

/// A decoded message bound to the user whose connection sent it: what the
/// gateway hands the broker to route.
#[derive(Debug, Clone)]
pub struct ClientMessage {
    pub user_id: i64,
    pub msg: String,
    pub conversation_id: i64,
}

/// The mathematical value of a well-formed frame.
pub enum FrameSpec {
    Join { conversation_id: int },
    Msg { conversation_id: int, msg: Seq<char> },
}

/// JSON whitespace.
pub open spec fn is_ws(c: char) -> bool {
    c == ' ' || c == '\t' || c == '\n' || c == '\r'
}

/// The value of a decimal digit character, `-1` for any other character.
pub open spec fn digit_val(c: char) -> int {
    if c == '0' {
        0
    } else if c == '1' {
        1
    } else if c == '2' {
        2
    } else if c == '3' {
        3
    } else if c == '4' {
        4
    } else if c == '5' {
        5
    } else if c == '6' {
        6
    } else if c == '7' {
        7
    } else if c == '8' {
        8
    } else if c == '9' {
        9
    } else {
        -1
    }
}

/// What a backslash escape stands for, if it is one we accept.
pub open spec fn escape_val(c: char) -> Option<char> {
    if c == '"' {
        Some('"')
    } else if c == '\\' {
        Some('\\')
    } else if c == '/' {
        Some('/')
    } else if c == 'n' {
        Some('\n')
    } else if c == 't' {
        Some('\t')
    } else if c == 'r' {
        Some('\r')
    } else if c == 'b' {
        Some('\u{0008}')
    } else if c == 'f' {
        Some('\u{000c}')
    } else {
        None
    }
}

/// The first position at or after `i` that holds no whitespace.
pub open spec fn skip_ws(s: Seq<char>, i: int) -> int
    decreases s.len() - i,
{
    if 0 <= i < s.len() && is_ws(s[i]) {
        skip_ws(s, i + 1)
    } else {
        i
    }
}

/// Parses the remainder of a quoted string from just after its opening
/// quote, `acc` holding what was already read: the text up to the closing
/// quote, with escapes resolved, and the position after it.
pub open spec fn string_body(s: Seq<char>, i: int, acc: Seq<char>) -> Option<(Seq<char>, int)>
    decreases s.len() - i,
{
    if !(0 <= i < s.len()) {
        None
    } else if s[i] == '"' {
        Some((acc, i + 1))
    } else if s[i] == '\\' {
        if i + 1 < s.len() {
            match escape_val(s[i + 1]) {
                Some(e) => string_body(s, i + 2, acc.push(e)),
                None => None,
            }
        } else {
            None
        }
    } else {
        string_body(s, i + 1, acc.push(s[i]))
    }
}

/// Parses a quoted string starting at `i`.
pub open spec fn parse_string(s: Seq<char>, i: int) -> Option<(Seq<char>, int)> {
    if 0 <= i < s.len() && s[i] == '"' {
        string_body(s, i + 1, Seq::empty())
    } else {
        None
    }
}

/// Accumulates decimal digits from `i`; gives up once the accumulator has
/// outgrown the largest value a frame may carry.
pub open spec fn digits(s: Seq<char>, i: int, acc: int) -> Option<(int, int)>
    decreases s.len() - i,
{
    if 0 <= i < s.len() && digit_val(s[i]) >= 0 {
        if acc > i64::MAX as int {
            None
        } else {
            digits(s, i + 1, acc * 10 + digit_val(s[i]))
        }
    } else {
        Some((acc, i))
    }
}

/// Parses a JSON integer starting at `i`: an optional sign, then either a
/// lone zero or digits without a leading zero, and the value must fit the
/// conversation-identifier type.
pub open spec fn parse_int(s: Seq<char>, i: int) -> Option<(int, int)> {
    let neg = 0 <= i < s.len() && s[i] == '-';
    let j = if neg {
        i + 1
    } else {
        i
    };
    if !(0 <= j < s.len() && digit_val(s[j]) >= 0) {
        None
    } else if s[j] == '0' {
        if j + 1 < s.len() && digit_val(s[j + 1]) >= 0 {
            None
        } else {
            Some((0, j + 1))
        }
    } else {
        match digits(s, j, 0) {
            Some((v, k)) => {
                let value = if neg {
                    -v
                } else {
                    v
                };
                if i64::MIN as int <= value <= i64::MAX as int {
                    Some((value, k))
                } else {
                    None
                }
            },
            None => None,
        }
    }
}

/// Parses `"<key>" ws* : ws*` starting at `i`, for the exact key `key`.
pub open spec fn expect_key(s: Seq<char>, i: int, key: Seq<char>) -> Option<int> {
    match parse_string(s, i) {
        Some((k, j)) => if k == key {
            let j2 = skip_ws(s, j);
            if j2 < s.len() && s[j2] == ':' {
                Some(skip_ws(s, j2 + 1))
            } else {
                None
            }
        } else {
            None
        },
        None => None,
    }
}

/// Parses `ws* , ws* "<key>" ws* : ws*` starting at `i`.
pub open spec fn expect_comma_key(s: Seq<char>, i: int, key: Seq<char>) -> Option<int> {
    let j = skip_ws(s, i);
    if j < s.len() && s[j] == ',' {
        expect_key(s, skip_ws(s, j + 1), key)
    } else {
        None
    }
}

/// Parses the closing `ws* } ws*` and demands that it ends the frame.
pub open spec fn expect_end(s: Seq<char>, i: int) -> bool {
    let j = skip_ws(s, i);
    &&& j < s.len()
    &&& s[j] == '}'
    &&& skip_ws(s, j + 1) == s.len()
}

/// Parses the tail of a join frame, after its `"action":"join"` value.
pub open spec fn decode_join_tail(s: Seq<char>, i: int) -> Option<FrameSpec> {
    match expect_comma_key(s, i, "conversation_id"@) {
        Some(j) => match parse_int(s, j) {
            Some((n, k)) => if expect_end(s, k) {
                Some(FrameSpec::Join { conversation_id: n })
            } else {
                None
            },
            None => None,
        },
        None => None,
    }
}

/// Parses the tail of a message frame, after its `"action":"msg"` value.
pub open spec fn decode_msg_tail(s: Seq<char>, i: int) -> Option<FrameSpec> {
    match expect_comma_key(s, i, "conversation_id"@) {
        Some(j) => match parse_int(s, j) {
            Some((n, k)) => match expect_comma_key(s, k, "msg"@) {
                Some(l) => match parse_string(s, l) {
                    Some((m, e)) => if expect_end(s, e) {
                        Some(FrameSpec::Msg { conversation_id: n, msg: m })
                    } else {
                        None
                    },
                    None => None,
                },
                None => None,
            },
            None => None,
        },
        None => None,
    }
}

/// The meaning of an inbound text frame: its decoded action, or nothing if
/// it is malformed.
pub open spec fn spec_decode(s: Seq<char>) -> Option<FrameSpec> {
    let i = skip_ws(s, 0);
    if !(i < s.len() && s[i] == '{') {
        None
    } else {
        match expect_key(s, skip_ws(s, i + 1), "action"@) {
            Some(j) => match parse_string(s, j) {
                Some((a, k)) => if a == "join"@ {
                    decode_join_tail(s, k)
                } else if a == "msg"@ {
                    decode_msg_tail(s, k)
                } else {
                    None
                },
                None => None,
            },
            None => None,
        }
    }
}

/// Relies on String::push: appends one character.
#[verifier::external_body]
fn push_char(s: &mut String, c: char)
    ensures
        final(s)@ == old(s)@.push(c),
{
    s.push(c);
}

/// Executable twin of `digit_val`.
fn digit_value(c: char) -> (d: i64)
    ensures
        d == digit_val(c),
{
    if c == '0' {
        0
    } else if c == '1' {
        1
    } else if c == '2' {
        2
    } else if c == '3' {
        3
    } else if c == '4' {
        4
    } else if c == '5' {
        5
    } else if c == '6' {
        6
    } else if c == '7' {
        7
    } else if c == '8' {
        8
    } else if c == '9' {
        9
    } else {
        -1
    }
}

/// Executable twin of `escape_val`.
fn escape_value(c: char) -> (r: Option<char>)
    ensures
        r == escape_val(c),
{
    if c == '"' {
        Some('"')
    } else if c == '\\' {
        Some('\\')
    } else if c == '/' {
        Some('/')
    } else if c == 'n' {
        Some('\n')
    } else if c == 't' {
        Some('\t')
    } else if c == 'r' {
        Some('\r')
    } else if c == 'b' {
        Some('\u{0008}')
    } else if c == 'f' {
        Some('\u{000c}')
    } else {
        None
    }
}

/// Executable twin of `skip_ws`.
fn ws_skip(s: &str, i: usize) -> (r: usize)
    requires
        i <= s@.len(),
    ensures
        r as int == skip_ws(s@, i as int),
        i <= r <= s@.len(),
{
    let n = s.unicode_len();
    let mut j = i;
    while j < n
        invariant
            i <= j <= n,
            n == s@.len(),
            skip_ws(s@, i as int) == skip_ws(s@, j as int),
        decreases n - j,
    {
        let c = s.get_char(j);
        if c == ' ' || c == '\t' || c == '\n' || c == '\r' {
            proof {
                assert(skip_ws(s@, j as int) == skip_ws(s@, j as int + 1));
            }
            j = j + 1;
        } else {
            proof {
                assert(skip_ws(s@, j as int) == j as int);
            }
            return j;
        }
    }
    proof {
        assert(skip_ws(s@, j as int) == j as int);
    }
    j
}

/// Executable twin of `parse_string`.
fn parse_string_at(s: &str, i: usize) -> (r: Option<(String, usize)>)
    requires
        i <= s@.len(),
    ensures
        match r {
            Some(p) => parse_string(s@, i as int) == Some((p.0@, p.1 as int)) && i < p.1
                <= s@.len(),
            None => parse_string(s@, i as int) is None,
        },
{
    let n = s.unicode_len();
    if i >= n {
        return None;
    }
    if s.get_char(i) != '"' {
        return None;
    }
    let mut acc = String::new();
    let mut j = i + 1;
    proof {
        assert(parse_string(s@, i as int) == string_body(s@, i as int + 1, Seq::empty()));
    }
    while j < n
        invariant
            i + 1 <= j <= n,
            n == s@.len(),
            parse_string(s@, i as int) == string_body(s@, j as int, acc@),
        decreases n - j,
    {
        let c = s.get_char(j);
        if c == '"' {
            proof {
                assert(string_body(s@, j as int, acc@) == Some((acc@, j as int + 1)));
            }
            return Some((acc, j + 1));
        } else if c == '\\' {
            if j + 1 < n {
                let e = s.get_char(j + 1);
                match escape_value(e) {
                    Some(x) => {
                        proof {
                            assert(string_body(s@, j as int, acc@) == string_body(
                                s@,
                                j as int + 2,
                                acc@.push(x),
                            ));
                        }
                        push_char(&mut acc, x);
                        j = j + 2;
                    },
                    None => {
                        return None;
                    },
                }
            } else {
                return None;
            }
        } else {
            proof {
                assert(string_body(s@, j as int, acc@) == string_body(
                    s@,
                    j as int + 1,
                    acc@.push(c),
                ));
            }
            push_char(&mut acc, c);
            j = j + 1;
        }
    }
    None
}

/// Executable twin of `parse_int`.
fn parse_int_at(s: &str, i: usize) -> (r: Option<(i64, usize)>)
    requires
        i <= s@.len(),
    ensures
        match r {
            Some(p) => parse_int(s@, i as int) == Some((p.0 as int, p.1 as int)) && i < p.1
                <= s@.len(),
            None => parse_int(s@, i as int) is None,
        },
{
    let n = s.unicode_len();
    let mut neg = false;
    let mut j = i;
    if j < n && s.get_char(j) == '-' {
        neg = true;
        j = j + 1;
    }
    if j >= n {
        return None;
    }
    let c0 = s.get_char(j);
    let d0 = digit_value(c0);
    if d0 < 0 {
        return None;
    }
    if c0 == '0' {
        if j + 1 < n && digit_value(s.get_char(j + 1)) >= 0 {
            return None;
        }
        return Some((0, j + 1));
    }
    let mut acc: i128 = d0 as i128;
    let mut k = j + 1;
    proof {
        assert(digits(s@, j as int, 0) == digits(s@, j as int + 1, digit_val(s@[j as int])));
    }
    while k < n && digit_value(s.get_char(k)) >= 0
        invariant
            i <= j,
            j + 1 <= k <= n,
            n == s@.len(),
            neg == (0 <= i < s@.len() && s@[i as int] == '-'),
            j as int == (if neg {
                i as int + 1
            } else {
                i as int
            }),
            j < s@.len(),
            digit_val(s@[j as int]) >= 0,
            s@[j as int] != '0',
            0 <= acc <= (i64::MAX as i128) * 10 + 9,
            digits(s@, j as int, 0) == digits(s@, k as int, acc as int),
        decreases n - k,
    {
        let d = digit_value(s.get_char(k));
        if acc > i64::MAX as i128 {
            proof {
                assert(digits(s@, k as int, acc as int) is None);
            }
            return None;
        }
        proof {
            assert(digits(s@, k as int, acc as int) == digits(
                s@,
                k as int + 1,
                acc as int * 10 + digit_val(s@[k as int]),
            ));
        }
        acc = acc * 10 + d as i128;
        k = k + 1;
    }
    proof {
        assert(digits(s@, k as int, acc as int) == Some((acc as int, k as int)));
    }
    let value: i128 = if neg {
        -acc
    } else {
        acc
    };
    if value < i64::MIN as i128 || value > i64::MAX as i128 {
        return None;
    }
    Some((value as i64, k))
}

/// Executable twin of `expect_key`.
fn expect_key_at(s: &str, i: usize, key: &str) -> (r: Option<usize>)
    requires
        i <= s@.len(),
    ensures
        match r {
            Some(j) => expect_key(s@, i as int, key@) == Some(j as int) && j <= s@.len(),
            None => expect_key(s@, i as int, key@) is None,
        },
{
    let n = s.unicode_len();
    match parse_string_at(s, i) {
        Some((k, j)) => {
            if !crate::payload::str_eq(k.as_str(), key) {
                return None;
            }
            let j2 = ws_skip(s, j);
            if j2 < n && s.get_char(j2) == ':' {
                Some(ws_skip(s, j2 + 1))
            } else {
                None
            }
        },
        None => None,
    }
}

/// Executable twin of `expect_comma_key`.
fn expect_comma_key_at(s: &str, i: usize, key: &str) -> (r: Option<usize>)
    requires
        i <= s@.len(),
    ensures
        match r {
            Some(j) => expect_comma_key(s@, i as int, key@) == Some(j as int) && j <= s@.len(),
            None => expect_comma_key(s@, i as int, key@) is None,
        },
{
    let n = s.unicode_len();
    let j = ws_skip(s, i);
    if j < n && s.get_char(j) == ',' {
        expect_key_at(s, ws_skip(s, j + 1), key)
    } else {
        None
    }
}

/// Executable twin of `expect_end`.
fn expect_end_at(s: &str, i: usize) -> (r: bool)
    requires
        i <= s@.len(),
    ensures
        r == expect_end(s@, i as int),
{
    let n = s.unicode_len();
    let j = ws_skip(s, i);
    j < n && s.get_char(j) == '}' && ws_skip(s, j + 1) == n
}

/// Decodes one inbound text frame: `Some` of its action exactly when the
/// frame is well-formed — as `spec_decode` defines it — and `None`
/// otherwise, in which case the caller drops the frame silently.
pub fn decode_frame(s: &str) -> (r: Option<ClientAction>)
    ensures
        r is None ==> spec_decode(s@) is None,
        r matches Some(ClientAction::Join { conversation_id }) ==> spec_decode(s@) == Some(
            (FrameSpec::Join { conversation_id: conversation_id as int }),
        ),
        r matches Some(ClientAction::Msg { conversation_id, msg }) ==> spec_decode(s@) == Some(
            (FrameSpec::Msg { conversation_id: conversation_id as int, msg: msg@ }),
        ),
{
    let n = s.unicode_len();
    let i = ws_skip(s, 0);
    if !(i < n && s.get_char(i) == '{') {
        return None;
    }
    let j = match expect_key_at(s, ws_skip(s, i + 1), "action") {
        Some(j) => j,
        None => {
            return None;
        },
    };
    let (a, k) = match parse_string_at(s, j) {
        Some(p) => p,
        None => {
            return None;
        },
    };
    if crate::payload::str_eq(a.as_str(), "join") {
        match expect_comma_key_at(s, k, "conversation_id") {
            Some(l) => match parse_int_at(s, l) {
                Some((cid, e)) => {
                    if expect_end_at(s, e) {
                        Some(ClientAction::Join { conversation_id: cid })
                    } else {
                        None
                    }
                },
                None => None,
            },
            None => None,
        }
    } else if crate::payload::str_eq(a.as_str(), "msg") {
        match expect_comma_key_at(s, k, "conversation_id") {
            Some(l) => match parse_int_at(s, l) {
                Some((cid, e)) => match expect_comma_key_at(s, e, "msg") {
                    Some(q) => match parse_string_at(s, q) {
                        Some((m, e2)) => {
                            if expect_end_at(s, e2) {
                                Some(ClientAction::Msg { conversation_id: cid, msg: m })
                            } else {
                                None
                            }
                        },
                        None => None,
                    },
                    None => None,
                },
                None => None,
            },
            None => None,
        }
    } else {
        proof {
            reveal_strlit("join");
            reveal_strlit("msg");
        }
        None
    }
}

} // verus!
