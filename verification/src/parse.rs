//! Decoding of JSON text.
//!
//! The grammar is specified by the recursive functions below, which walk
//! a character sequence by position: whitespace between tokens, the four
//! literals, numbers by `num_end`, strings with backslash escapes, and
//! arrays and objects with comma-separated contents.  `parse_text` is
//! the whole-document parser: one value, with nothing but whitespace
//! around it.  The executable parser is proved to return exactly what
//! these functions describe.
//!
//! The position guards (`if p <= pos { None }`) make the recursion
//! well-founded as written; a parse in fact always advances past at
//! least one character.

use vstd::prelude::*;
use crate::json::JsonVal;
use crate::text::{is_ws, is_digit, num_end};

verus! {

/// The value of one hex digit, in either case.
pub open spec fn hex_val(c: char) -> Option<u32> {
    let u = c as u32;
    if is_digit(c) {
        Some((u - 48) as u32)
    } else if 'a' <= c && c <= 'f' {
        Some((u - 97 + 10) as u32)
    } else if 'A' <= c && c <= 'F' {
        Some((u - 65 + 10) as u32)
    } else {
        None
    }
}

/// The value of four hex digits at `pos`.
pub open spec fn hex4(s: Seq<char>, pos: int) -> Option<u32> {
    if 0 <= pos && pos + 4 <= s.len() {
        match (hex_val(s[pos]), hex_val(s[pos + 1]), hex_val(s[pos + 2]), hex_val(s[pos + 3])) {
            (Some(a), Some(b), Some(c), Some(d)) => Some((a * 4096 + b * 256 + c * 16 + d) as u32),
            _ => None,
        }
    } else {
        None
    }
}

/// What a single-character escape stands for.
pub open spec fn unesc_char(c: char) -> Option<char> {
    if c == '"' { Some('"') }
    else if c == '\\' { Some('\\') }
    else if c == '/' { Some('/') }
    else if c == 'b' { Some('\u{8}') }
    else if c == 'f' { Some('\u{c}') }
    else if c == 'n' { Some('\n') }
    else if c == 'r' { Some('\r') }
    else if c == 't' { Some('\t') }
    else { None }
}

/// A `\u` escape can name any scalar in the basic plane; the surrogate
/// halves name no character and are rejected.
pub open spec fn scalar_code(u: u32) -> bool {
    u < 0xD800 || (0xE000 <= u && u <= 0x10FFFF)
}

/// First position at or after `pos` that holds no whitespace.
pub open spec fn skip_ws_end(s: Seq<char>, pos: int) -> int
    decreases s.len() - pos when 0 <= pos <= s.len()
{
    if pos < s.len() && is_ws(s[pos]) {
        skip_ws_end(s, pos + 1)
    } else {
        pos
    }
}

/// The body of a string from `pos` (just past the opening quote) to its
/// closing quote: the decoded characters and the position after it.
pub open spec fn parse_string(s: Seq<char>, pos: int) -> Option<(Seq<char>, int)>
    decreases s.len() - pos when 0 <= pos <= s.len()
{
    if pos >= s.len() {
        None
    } else if s[pos] == '"' {
        Some((Seq::empty(), pos + 1))
    } else if s[pos] == '\\' {
        if pos + 1 >= s.len() {
            None
        } else if s[pos + 1] == 'u' {
            match hex4(s, pos + 2) {
                None => None,
                Some(u) => if scalar_code(u) {
                    match parse_string(s, pos + 6) {
                        None => None,
                        Some((t, e)) => Some((seq![u as char] + t, e)),
                    }
                } else {
                    None
                },
            }
        } else {
            match unesc_char(s[pos + 1]) {
                None => None,
                Some(c) => match parse_string(s, pos + 2) {
                    None => None,
                    Some((t, e)) => Some((seq![c] + t, e)),
                },
            }
        }
    } else if (s[pos] as u32) >= 32 {
        match parse_string(s, pos + 1) {
            None => None,
            Some((t, e)) => Some((seq![s[pos]] + t, e)),
        }
    } else {
        None
    }
}

/// One JSON value at `pos`, leading whitespace allowed.
pub open spec fn parse_value(s: Seq<char>, pos: int) -> Option<(JsonVal, int)>
    decreases s.len() - pos, 1int when 0 <= pos <= s.len()
{
    if pos >= s.len() {
        None
    } else if is_ws(s[pos]) {
        parse_value(s, pos + 1)
    } else if s[pos] == '"' {
        match parse_string(s, pos + 1) {
            None => None,
            Some((t, e)) => Some((JsonVal::Str(t), e)),
        }
    } else if s[pos] == 't' {
        if pos + 4 <= s.len() && s[pos + 1] == 'r' && s[pos + 2] == 'u' && s[pos + 3] == 'e' {
            Some((JsonVal::Bool(true), pos + 4))
        } else {
            None
        }
    } else if s[pos] == 'f' {
        if pos + 5 <= s.len() && s[pos + 1] == 'a' && s[pos + 2] == 'l' && s[pos + 3] == 's'
            && s[pos + 4] == 'e' {
            Some((JsonVal::Bool(false), pos + 5))
        } else {
            None
        }
    } else if s[pos] == 'n' {
        if pos + 4 <= s.len() && s[pos + 1] == 'u' && s[pos + 2] == 'l' && s[pos + 3] == 'l' {
            Some((JsonVal::Null, pos + 4))
        } else {
            None
        }
    } else if s[pos] == '-' || is_digit(s[pos]) {
        match num_end(s, pos) {
            None => None,
            Some(e) => if pos < e <= s.len() {
                Some((JsonVal::Num(s.subrange(pos, e)), e))
            } else {
                None
            },
        }
    } else if s[pos] == '[' {
        match parse_elems(s, pos + 1, true) {
            None => None,
            Some((items, e)) => Some((JsonVal::Arr(items), e)),
        }
    } else if s[pos] == '{' {
        match parse_membs(s, pos + 1, true) {
            None => None,
            Some((ms, e)) => Some((JsonVal::Obj(ms), e)),
        }
    } else {
        None
    }
}

/// The elements of an array from `pos` up to and past its `]`.  Right
/// after the `[`, `first` is true and an immediate `]` makes an empty
/// array; after a comma a value is required.
pub open spec fn parse_elems(s: Seq<char>, pos: int, first: bool) -> Option<(Seq<JsonVal>, int)>
    decreases s.len() - pos, 2int when 0 <= pos <= s.len()
{
    if pos >= s.len() {
        None
    } else if is_ws(s[pos]) {
        parse_elems(s, pos + 1, first)
    } else if first && s[pos] == ']' {
        Some((Seq::empty(), pos + 1))
    } else {
        match parse_value(s, pos) {
            None => None,
            Some((v, p2)) => if p2 <= pos || p2 > s.len() {
                None
            } else {
                match parse_tail(s, p2) {
                    None => None,
                    Some((vs, e)) => Some((seq![v] + vs, e)),
                }
            },
        }
    }
}

/// After an array element: its `]`, or a comma and the rest.
pub open spec fn parse_tail(s: Seq<char>, pos: int) -> Option<(Seq<JsonVal>, int)>
    decreases s.len() - pos, 0int when 0 <= pos <= s.len()
{
    if pos >= s.len() {
        None
    } else if is_ws(s[pos]) {
        parse_tail(s, pos + 1)
    } else if s[pos] == ']' {
        Some((Seq::empty(), pos + 1))
    } else if s[pos] == ',' {
        parse_elems(s, pos + 1, false)
    } else {
        None
    }
}

/// A colon between a member's key and value, whitespace allowed.
pub open spec fn parse_colon(s: Seq<char>, pos: int) -> Option<int>
    decreases s.len() - pos when 0 <= pos <= s.len()
{
    if pos >= s.len() {
        None
    } else if is_ws(s[pos]) {
        parse_colon(s, pos + 1)
    } else if s[pos] == ':' {
        Some(pos + 1)
    } else {
        None
    }
}

/// The members of an object from `pos` up to and past its `}`.
pub open spec fn parse_membs(s: Seq<char>, pos: int, first: bool)
    -> Option<(Seq<(Seq<char>, JsonVal)>, int)>
    decreases s.len() - pos, 2int when 0 <= pos <= s.len()
{
    if pos >= s.len() {
        None
    } else if is_ws(s[pos]) {
        parse_membs(s, pos + 1, first)
    } else if first && s[pos] == '}' {
        Some((Seq::empty(), pos + 1))
    } else if s[pos] == '"' {
        match parse_string(s, pos + 1) {
            None => None,
            Some((k, p2)) => if p2 <= pos || p2 > s.len() {
                None
            } else {
                match parse_colon(s, p2) {
                    None => None,
                    Some(p3) => if p3 <= p2 || p3 > s.len() {
                        None
                    } else {
                        match parse_value(s, p3) {
                            None => None,
                            Some((v, p4)) => if p4 <= p3 || p4 > s.len() {
                                None
                            } else {
                                match parse_mtail(s, p4) {
                                    None => None,
                                    Some((ms, e)) => Some((seq![(k, v)] + ms, e)),
                                }
                            },
                        }
                    },
                }
            },
        }
    } else {
        None
    }
}

/// After an object member: its `}`, or a comma and the rest.
pub open spec fn parse_mtail(s: Seq<char>, pos: int) -> Option<(Seq<(Seq<char>, JsonVal)>, int)>
    decreases s.len() - pos, 0int when 0 <= pos <= s.len()
{
    if pos >= s.len() {
        None
    } else if is_ws(s[pos]) {
        parse_mtail(s, pos + 1)
    } else if s[pos] == '}' {
        Some((Seq::empty(), pos + 1))
    } else if s[pos] == ',' {
        parse_membs(s, pos + 1, false)
    } else {
        None
    }
}

/// A whole document: one value with only whitespace around it.
pub open spec fn parse_text(s: Seq<char>) -> Option<JsonVal> {
    match parse_value(s, 0) {
        None => None,
        Some((v, p)) => if 0 <= p <= s.len() && skip_ws_end(s, p) == s.len() {
            Some(v)
        } else {
            None
        },
    }
}

} // verus!
