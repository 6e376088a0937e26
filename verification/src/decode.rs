//! The executable JSON parser.
//!
//! Each function returns exactly what the corresponding grammar function
//! in `parse` describes, together with bounds on the position it
//! reaches.

use vstd::prelude::*;
use crate::json::{Json, JsonVal, view_items, view_members, view_json};
use crate::text::{is_ws, is_digit, digits_end, num_end};
use crate::parse::{hex_val, hex4, unesc_char, skip_ws_end, parse_string,
    parse_value, parse_elems, parse_tail, parse_colon, parse_membs, parse_mtail, parse_text};
use crate::conv::{string_from_chars, char_from_code};

verus! {

fn is_ws_c(c: char) -> (r: bool)
    ensures
        r == is_ws(c),
{
    c == ' ' || c == '\t' || c == '\n' || c == '\r'
}

fn is_digit_c(c: char) -> (r: bool)
    ensures
        r == is_digit(c),
{
    let u = c as u32;
    48 <= u && u <= 57
}

fn hex_val_c(c: char) -> (r: Option<u32>)
    ensures
        r == hex_val(c),
{
    let u = c as u32;
    if 48 <= u && u <= 57 {
        Some(u - 48)
    } else if 97 <= u && u <= 102 {
        Some(u - 97 + 10)
    } else if 65 <= u && u <= 70 {
        Some(u - 65 + 10)
    } else {
        None
    }
}

fn unesc_c(c: char) -> (r: Option<char>)
    ensures
        r == unesc_char(c),
{
    if c == '"' { Some('"') }
    else if c == '\\' { Some('\\') }
    else if c == '/' { Some('/') }
    else if c == 'b' { Some('\u{8}') }
    else if c == 'f' { Some('\u{c}') }
    else if c == 'n' { Some('\n') }
    else if c == 'r' { Some('\r') }
    else if c == 't' { Some('\t') }
    else { None }
}

fn scan_hex4(s: &Vec<char>, pos: usize) -> (r: Option<u32>)
    requires
        pos <= s@.len(),
    ensures
        (match r {
            Some(u) => hex4(s@, pos as int) == Some(u) && pos + 4 <= s@.len() && u <= 0xFFFF,
            None => hex4(s@, pos as int) is None,
        }),
{
    if s.len() - pos < 4 {
        return None;
    }
    let a = hex_val_c(s[pos]);
    let b = hex_val_c(s[pos + 1]);
    let c = hex_val_c(s[pos + 2]);
    let d = hex_val_c(s[pos + 3]);
    match (a, b, c, d) {
        (Some(a), Some(b), Some(c), Some(d)) => Some(a * 4096 + b * 256 + c * 16 + d),
        _ => None,
    }
}

/// Skips to the end of the digit run that starts at `pos`.
fn scan_digits(s: &Vec<char>, pos: usize) -> (e: usize)
    requires
        pos <= s@.len(),
    ensures
        e as int == digits_end(s@, pos as int),
        pos <= e <= s@.len(),
{
    let mut i: usize = pos;
    while i < s.len() && is_digit_c(s[i])
        invariant
            pos <= i <= s@.len(),
            digits_end(s@, pos as int) == digits_end(s@, i as int),
        decreases s@.len() - i,
    {
        i = i + 1;
    }
    i
}

/// Finds the end of the number that starts at `pos`.
fn scan_num(s: &Vec<char>, pos: usize) -> (r: Option<usize>)
    requires
        pos <= s@.len(),
    ensures
        (match r {
            Some(e) => num_end(s@, pos as int) == Some(e as int) && pos < e <= s@.len(),
            None => num_end(s@, pos as int) is None,
        }),
{
    let p1: usize = if pos < s.len() && s[pos] == '-' { pos + 1 } else { pos };
    if !(p1 < s.len() && is_digit_c(s[p1])) {
        return None;
    }
    let p2: usize = if s[p1] == '0' {
        p1 + 1
    } else {
        let e = scan_digits(s, p1 + 1);
        assert(digits_end(s@, p1 as int) == digits_end(s@, p1 + 1));
        e
    };
    let p3: usize = if p2 < s.len() && s[p2] == '.' {
        if p2 + 1 < s.len() && is_digit_c(s[p2 + 1]) {
            let e = scan_digits(s, p2 + 2);
            assert(digits_end(s@, p2 + 1) == digits_end(s@, p2 + 2));
            e
        } else {
            return None;
        }
    } else {
        p2
    };
    if p3 < s.len() && (s[p3] == 'e' || s[p3] == 'E') {
        let p4: usize = if p3 + 1 < s.len() && (s[p3 + 1] == '+' || s[p3 + 1] == '-') {
            p3 + 2
        } else {
            p3 + 1
        };
        if p4 < s.len() && is_digit_c(s[p4]) {
            let e = scan_digits(s, p4 + 1);
            assert(digits_end(s@, p4 as int) == digits_end(s@, p4 + 1));
            Some(e)
        } else {
            None
        }
    } else {
        Some(p3)
    }
}

/// Skips whitespace from `pos`.
pub fn scan_ws(s: &Vec<char>, pos: usize) -> (e: usize)
    requires
        pos <= s@.len(),
    ensures
        e as int == skip_ws_end(s@, pos as int),
        pos <= e <= s@.len(),
{
    let mut i: usize = pos;
    while i < s.len() && is_ws_c(s[i])
        invariant
            pos <= i <= s@.len(),
            skip_ws_end(s@, pos as int) == skip_ws_end(s@, i as int),
        decreases s@.len() - i,
    {
        i = i + 1;
    }
    i
}

/// Reads a string body from just past its opening quote.
fn scan_string(s: &Vec<char>, pos: usize) -> (r: Option<(Vec<char>, usize)>)
    requires
        pos <= s@.len(),
    ensures
        (match r {
            Some((t, p)) => {
                &&& parse_string(s@, pos as int) == Some((t@, p as int))
                &&& pos < p <= s@.len()
            },
            None => parse_string(s@, pos as int) is None,
        }),
{
    let mut acc: Vec<char> = Vec::new();
    let mut i: usize = pos;
    proof {
        let res = parse_string(s@, pos as int);
        if res is Some {
            assert(Seq::<char>::empty() + (res->0).0 =~= (res->0).0);
        }
    }
    loop
        invariant
            pos <= i <= s@.len(),
            (match parse_string(s@, i as int) {
                Some((t, p)) => parse_string(s@, pos as int) == Some((acc@ + t, p)),
                None => parse_string(s@, pos as int) is None,
            }),
        decreases s@.len() - i,
    {
        if i >= s.len() {
            return None;
        }
        let c = s[i];
        if c == '"' {
            assert(parse_string(s@, i as int) == Some((Seq::<char>::empty(), i + 1 as int)));
            assert(acc@ + Seq::<char>::empty() =~= acc@);
            return Some((acc, i + 1));
        } else if c == '\\' {
            if i + 1 >= s.len() {
                return None;
            }
            let e = s[i + 1];
            if e == 'u' {
                match scan_hex4(s, i + 2) {
                    None => {
                        return None;
                    },
                    Some(u) => {
                        if u < 0xD800 || u >= 0xE000 {
                            let ch = char_from_code(u).unwrap();
                            proof {
                                vstd::utf8::char_u32_cast(ch, u);
                            }
                            let ghost prev = acc@;
                            acc.push(ch);
                            proof {
                                let res = parse_string(s@, i + 6);
                                if res is Some {
                                    let t = (res->0).0;
                                    assert(parse_string(s@, i as int)
                                        == Some((seq![u as char] + t, (res->0).1)));
                                    assert(prev + (seq![u as char] + t) =~= acc@ + t);
                                }
                            }
                            i = i + 6;
                        } else {
                            return None;
                        }
                    },
                }
            } else {
                match unesc_c(e) {
                    None => {
                        return None;
                    },
                    Some(c2) => {
                        let ghost prev = acc@;
                        acc.push(c2);
                        proof {
                            let res = parse_string(s@, i + 2);
                            if res is Some {
                                let t = (res->0).0;
                                assert(parse_string(s@, i as int)
                                    == Some((seq![c2] + t, (res->0).1)));
                                assert(prev + (seq![c2] + t) =~= acc@ + t);
                            }
                        }
                        i = i + 2;
                    },
                }
            }
        } else if (c as u32) >= 32 {
            let ghost prev = acc@;
            acc.push(c);
            proof {
                let res = parse_string(s@, i + 1);
                if res is Some {
                    let t = (res->0).0;
                    assert(parse_string(s@, i as int) == Some((seq![c] + t, (res->0).1)));
                    assert(prev + (seq![c] + t) =~= acc@ + t);
                }
            }
            i = i + 1;
        } else {
            return None;
        }
    }
}

/// Reads one JSON value, leading whitespace allowed.
pub fn de_value(s: &Vec<char>, pos: usize) -> (r: Option<(Json, usize)>)
    requires
        pos <= s@.len(),
    ensures
        (match r {
            Some((j, p)) => parse_value(s@, pos as int) == Some((j@, p as int))
                && pos < p <= s@.len(),
            None => parse_value(s@, pos as int) is None,
        }),
    decreases s@.len() - pos, 1int,
{
    if pos >= s.len() {
        return None;
    }
    let c = s[pos];
    if is_ws_c(c) {
        return de_value(s, pos + 1);
    }
    if c == '"' {
        match scan_string(s, pos + 1) {
            None => None,
            Some((t, e)) => {
                let st = string_from_chars(&t);
                Some((Json::Str(st), e))
            },
        }
    } else if c == 't' {
        if s.len() - pos >= 4 && s[pos + 1] == 'r' && s[pos + 2] == 'u' && s[pos + 3] == 'e' {
            Some((Json::Bool(true), pos + 4))
        } else {
            None
        }
    } else if c == 'f' {
        if s.len() - pos >= 5 && s[pos + 1] == 'a' && s[pos + 2] == 'l' && s[pos + 3] == 's'
            && s[pos + 4] == 'e' {
            Some((Json::Bool(false), pos + 5))
        } else {
            None
        }
    } else if c == 'n' {
        if s.len() - pos >= 4 && s[pos + 1] == 'u' && s[pos + 2] == 'l' && s[pos + 3] == 'l' {
            Some((Json::Null, pos + 4))
        } else {
            None
        }
    } else if c == '-' || is_digit_c(c) {
        match scan_num(s, pos) {
            None => None,
            Some(e) => {
                let mut t: Vec<char> = Vec::new();
                let mut i: usize = pos;
                while i < e
                    invariant
                        pos <= i <= e <= s@.len(),
                        t@ == s@.subrange(pos as int, i as int),
                    decreases e - i,
                {
                    t.push(s[i]);
                    assert(s@.subrange(pos as int, i + 1)
                        =~= s@.subrange(pos as int, i as int).push(s@[i as int]));
                    i = i + 1;
                }
                let st = string_from_chars(&t);
                Some((Json::Num(st), e))
            },
        }
    } else if c == '[' {
        match de_elems(s, pos + 1, true) {
            None => None,
            Some((items, e)) => Some((Json::Arr(items), e)),
        }
    } else if c == '{' {
        match de_membs(s, pos + 1, true) {
            None => None,
            Some((ms, e)) => Some((Json::Obj(ms), e)),
        }
    } else {
        None
    }
}

/// Reads array elements up to and past the closing bracket.
fn de_elems(s: &Vec<char>, pos: usize, first: bool) -> (r: Option<(Vec<Json>, usize)>)
    requires
        pos <= s@.len(),
    ensures
        (match r {
            Some((items, p)) => parse_elems(s@, pos as int, first)
                == Some((view_items(items@), p as int)) && pos < p <= s@.len(),
            None => parse_elems(s@, pos as int, first) is None,
        }),
    decreases s@.len() - pos, 2int,
{
    if pos >= s.len() {
        return None;
    }
    let c = s[pos];
    if is_ws_c(c) {
        return de_elems(s, pos + 1, first);
    }
    if first && c == ']' {
        let items: Vec<Json> = Vec::new();
        assert(view_items(items@) =~= Seq::<JsonVal>::empty());
        return Some((items, pos + 1));
    }
    match de_value(s, pos) {
        None => None,
        Some((v, p2)) => match de_tail(s, p2) {
            None => None,
            Some((mut items, e)) => {
                let ghost tailseq = items@;
                items.insert(0, v);
                proof {
                    assert(items@[0] == v);
                    assert(items@.subrange(1, items@.len() as int) =~= tailseq);
                    assert(view_items(items@) =~= seq![view_json(v)] + view_items(tailseq));
                }
                Some((items, e))
            },
        },
    }
}

/// Reads what follows an array element: `]`, or a comma and the rest.
fn de_tail(s: &Vec<char>, pos: usize) -> (r: Option<(Vec<Json>, usize)>)
    requires
        pos <= s@.len(),
    ensures
        (match r {
            Some((items, p)) => parse_tail(s@, pos as int)
                == Some((view_items(items@), p as int)) && pos < p <= s@.len(),
            None => parse_tail(s@, pos as int) is None,
        }),
    decreases s@.len() - pos, 0int,
{
    if pos >= s.len() {
        return None;
    }
    let c = s[pos];
    if is_ws_c(c) {
        return de_tail(s, pos + 1);
    }
    if c == ']' {
        let items: Vec<Json> = Vec::new();
        assert(view_items(items@) =~= Seq::<JsonVal>::empty());
        Some((items, pos + 1))
    } else if c == ',' {
        de_elems(s, pos + 1, false)
    } else {
        None
    }
}

/// Reads the colon between a member's key and value.
fn de_colon(s: &Vec<char>, pos: usize) -> (r: Option<usize>)
    requires
        pos <= s@.len(),
    ensures
        (match r {
            Some(p) => parse_colon(s@, pos as int) == Some(p as int) && pos < p <= s@.len(),
            None => parse_colon(s@, pos as int) is None,
        }),
    decreases s@.len() - pos,
{
    if pos >= s.len() {
        return None;
    }
    let c = s[pos];
    if is_ws_c(c) {
        return de_colon(s, pos + 1);
    }
    if c == ':' {
        Some(pos + 1)
    } else {
        None
    }
}

/// Reads object members up to and past the closing brace.
fn de_membs(s: &Vec<char>, pos: usize, first: bool) -> (r: Option<(Vec<(String, Json)>, usize)>)
    requires
        pos <= s@.len(),
    ensures
        (match r {
            Some((ms, p)) => parse_membs(s@, pos as int, first)
                == Some((view_members(ms@), p as int)) && pos < p <= s@.len(),
            None => parse_membs(s@, pos as int, first) is None,
        }),
    decreases s@.len() - pos, 2int,
{
    if pos >= s.len() {
        return None;
    }
    let c = s[pos];
    if is_ws_c(c) {
        return de_membs(s, pos + 1, first);
    }
    if first && c == '}' {
        let ms: Vec<(String, Json)> = Vec::new();
        assert(view_members(ms@) =~= Seq::<(Seq<char>, JsonVal)>::empty());
        return Some((ms, pos + 1));
    }
    if c == '"' {
        match scan_string(s, pos + 1) {
            None => None,
            Some((k, p2)) => match de_colon(s, p2) {
                None => None,
                Some(p3) => match de_value(s, p3) {
                    None => None,
                    Some((v, p4)) => match de_mtail(s, p4) {
                        None => None,
                        Some((mut ms, e)) => {
                            let ghost tailseq = ms@;
                            let key = string_from_chars(&k);
                            ms.insert(0, (key, v));
                            proof {
                                assert(ms@[0].0@ == k@ && ms@[0].1 == v);
                                assert(ms@.subrange(1, ms@.len() as int) =~= tailseq);
                                assert(view_members(ms@)
                                    =~= seq![(k@, view_json(v))] + view_members(tailseq));
                            }
                            Some((ms, e))
                        },
                    },
                },
            },
        }
    } else {
        None
    }
}

/// Reads what follows an object member: `}`, or a comma and the rest.
fn de_mtail(s: &Vec<char>, pos: usize) -> (r: Option<(Vec<(String, Json)>, usize)>)
    requires
        pos <= s@.len(),
    ensures
        (match r {
            Some((ms, p)) => parse_mtail(s@, pos as int)
                == Some((view_members(ms@), p as int)) && pos < p <= s@.len(),
            None => parse_mtail(s@, pos as int) is None,
        }),
    decreases s@.len() - pos, 0int,
{
    if pos >= s.len() {
        return None;
    }
    let c = s[pos];
    if is_ws_c(c) {
        return de_mtail(s, pos + 1);
    }
    if c == '}' {
        let ms: Vec<(String, Json)> = Vec::new();
        assert(view_members(ms@) =~= Seq::<(Seq<char>, JsonVal)>::empty());
        Some((ms, pos + 1))
    } else if c == ',' {
        de_membs(s, pos + 1, false)
    } else {
        None
    }
}

/// Decodes a whole document: one value with only whitespace around it.
pub fn decode_json(s: &Vec<char>) -> (r: Option<Json>)
    ensures
        (match r {
            Some(j) => parse_text(s@) == Some(j@),
            None => parse_text(s@) is None,
        }),
{
    match de_value(s, 0) {
        None => None,
        Some((j, p)) => {
            let q = scan_ws(s, p);
            if q == s.len() {
                Some(j)
            } else {
                None
            }
        },
    }
}

} // verus!
