//! Serialization of JSON values.
//!
//! `text_of` gives the compact text of a value: no whitespace, object
//! members in their stored order, strings escaped the way the emitter
//! writes them.  `print_json` is the executable printer, proved to
//! produce exactly that text.

use vstd::prelude::*;
use crate::json::{Json, JsonVal, view_items, view_members, lemma_view_items_index,
    lemma_view_members_index, view_json};

verus! {

/// Whitespace accepted between JSON tokens.
pub open spec fn is_ws(c: char) -> bool {
    c == ' ' || c == '\t' || c == '\n' || c == '\r'
}

pub open spec fn is_digit(c: char) -> bool {
    '0' <= c && c <= '9'
}

/// End of the run of digits that starts at `pos`.
pub open spec fn digits_end(s: Seq<char>, pos: int) -> int
    decreases s.len() - pos when 0 <= pos <= s.len()
{
    if pos < s.len() && is_digit(s[pos]) {
        digits_end(s, pos + 1)
    } else {
        pos
    }
}

/// End of a JSON number that starts at `pos`, if the text there matches
/// the number grammar: an optional minus, an integer part without a
/// leading zero, an optional fraction, an optional exponent.  Maximal:
/// the number extends as far as the grammar allows.
pub open spec fn num_end(s: Seq<char>, pos: int) -> Option<int> {
    let p1: int = if pos < s.len() && s[pos] == '-' { pos + 1 } else { pos };
    if !(p1 < s.len() && is_digit(s[p1])) {
        None
    } else {
        let p2: int = if s[p1] == '0' { p1 + 1 } else { digits_end(s, p1) };
        let p3o: Option<int> = if p2 < s.len() && s[p2] == '.' {
            if p2 + 1 < s.len() && is_digit(s[p2 + 1]) {
                Some(digits_end(s, p2 + 1))
            } else {
                None
            }
        } else {
            Some(p2)
        };
        match p3o {
            None => None,
            Some(p3) => if p3 < s.len() && (s[p3] == 'e' || s[p3] == 'E') {
                let p4: int = if p3 + 1 < s.len() && (s[p3 + 1] == '+' || s[p3 + 1] == '-') {
                    p3 + 2
                } else {
                    p3 + 1
                };
                if p4 < s.len() && is_digit(s[p4]) {
                    Some(digits_end(s, p4))
                } else {
                    None
                }
            } else {
                Some(p3)
            },
        }
    }
}

/// The text is one whole JSON number.
pub open spec fn is_number_text(t: Seq<char>) -> bool {
    t.len() > 0 && num_end(t, 0) == Some(t.len() as int)
}

/// A value the codec round-trips: every number carries grammatical text.
pub open spec fn wf_val(v: JsonVal) -> bool
    decreases v,
{
    match v {
        JsonVal::Null => true,
        JsonVal::Bool(_) => true,
        JsonVal::Num(t) => is_number_text(t),
        JsonVal::Str(_) => true,
        JsonVal::Arr(items) => forall|i: int| 0 <= i < items.len() ==> wf_val(#[trigger] items[i]),
        JsonVal::Obj(ms) => forall|i: int| 0 <= i < ms.len() ==> wf_val(#[trigger] ms[i].1),
    }
}

/// The lowercase hex digit for `n`.
pub open spec fn hex_char(n: int) -> char {
    if n == 0 { '0' } else if n == 1 { '1' } else if n == 2 { '2' } else if n == 3 { '3' }
    else if n == 4 { '4' } else if n == 5 { '5' } else if n == 6 { '6' } else if n == 7 { '7' }
    else if n == 8 { '8' } else if n == 9 { '9' } else if n == 10 { 'a' } else if n == 11 { 'b' }
    else if n == 12 { 'c' } else if n == 13 { 'd' } else if n == 14 { 'e' } else { 'f' }
}

/// How one character of a string is written: quotes and backslashes get a
/// backslash escape, the named control characters their short escape,
/// other control characters a `\u00..` escape, everything else itself.
pub open spec fn esc_char(c: char) -> Seq<char> {
    if c == '"' { seq!['\\', '"'] }
    else if c == '\\' { seq!['\\', '\\'] }
    else if c == '\u{8}' { seq!['\\', 'b'] }
    else if c == '\t' { seq!['\\', 't'] }
    else if c == '\n' { seq!['\\', 'n'] }
    else if c == '\u{c}' { seq!['\\', 'f'] }
    else if c == '\r' { seq!['\\', 'r'] }
    else if (c as u32) < 32 {
        seq!['\\', 'u', '0', '0', hex_char((c as u32) as int / 16), hex_char((c as u32) as int % 16)]
    } else {
        seq![c]
    }
}

pub open spec fn str_body_text(s: Seq<char>) -> Seq<char>
    decreases s.len(),
{
    if s.len() == 0 {
        Seq::empty()
    } else {
        esc_char(s[0]) + str_body_text(s.subrange(1, s.len() as int))
    }
}

/// The text of a string value: the escaped body between quotes.
pub open spec fn str_text(s: Seq<char>) -> Seq<char> {
    seq!['"'] + str_body_text(s) + seq!['"']
}

/// The compact text of a JSON value.
pub open spec fn text_of(v: JsonVal) -> Seq<char>
    decreases v,
{
    match v {
        JsonVal::Null => seq!['n', 'u', 'l', 'l'],
        JsonVal::Bool(b) => if b {
            seq!['t', 'r', 'u', 'e']
        } else {
            seq!['f', 'a', 'l', 's', 'e']
        },
        JsonVal::Num(t) => t,
        JsonVal::Str(s) => str_text(s),
        JsonVal::Arr(items) => seq!['['] + arr_body_text(items) + seq![']'],
        JsonVal::Obj(ms) => seq!['{'] + obj_body_text(ms) + seq!['}'],
    }
}

pub open spec fn arr_body_text(items: Seq<JsonVal>) -> Seq<char>
    decreases items,
{
    if items.len() == 0 {
        Seq::empty()
    } else if items.len() == 1 {
        text_of(items[0])
    } else {
        text_of(items[0]) + seq![','] + arr_body_text(items.subrange(1, items.len() as int))
    }
}

pub open spec fn member_text(m: (Seq<char>, JsonVal)) -> Seq<char>
    decreases m,
{
    str_text(m.0) + seq![':'] + text_of(m.1)
}

pub open spec fn obj_body_text(ms: Seq<(Seq<char>, JsonVal)>) -> Seq<char>
    decreases ms,
{
    if ms.len() == 0 {
        Seq::empty()
    } else if ms.len() == 1 {
        member_text(ms[0])
    } else {
        member_text(ms[0]) + seq![','] + obj_body_text(ms.subrange(1, ms.len() as int))
    }
}

/// Escaping a string one character longer extends its body text.
pub proof fn lemma_str_body_snoc(s: Seq<char>, c: char)
    ensures
        str_body_text(s.push(c)) == str_body_text(s) + esc_char(c),
    decreases s.len(),
{
    if s.len() == 0 {
        let e = s.push(c);
        let t = e.subrange(1, 1);
        assert(t =~= Seq::<char>::empty());
        assert(str_body_text(t) == Seq::<char>::empty());
        assert(e[0] == c);
        assert(str_body_text(e) == esc_char(c) + str_body_text(t));
        assert(str_body_text(e) =~= esc_char(c));
        assert(str_body_text(s) + esc_char(c) =~= esc_char(c));
    } else {
        let t = s.subrange(1, s.len() as int);
        lemma_str_body_snoc(t, c);
        assert(s.push(c).subrange(1, s.push(c).len() as int) =~= t.push(c));
        assert(s.push(c)[0] == s[0]);
        assert(str_body_text(s) + esc_char(c) =~= esc_char(s[0]) + (str_body_text(t) + esc_char(c)));
    }
}

fn hex_char_of(n: u8) -> (c: char)
    requires
        n < 16,
    ensures
        c == hex_char(n as int),
{
    if n == 0 { '0' } else if n == 1 { '1' } else if n == 2 { '2' } else if n == 3 { '3' }
    else if n == 4 { '4' } else if n == 5 { '5' } else if n == 6 { '6' } else if n == 7 { '7' }
    else if n == 8 { '8' } else if n == 9 { '9' } else if n == 10 { 'a' } else if n == 11 { 'b' }
    else if n == 12 { 'c' } else if n == 13 { 'd' } else if n == 14 { 'e' } else { 'f' }
}

fn push_esc(out: &mut Vec<char>, c: char)
    ensures
        final(out)@ == old(out)@ + esc_char(c),
{
    if c == '"' {
        out.push('\\');
        out.push('"');
    } else if c == '\\' {
        out.push('\\');
        out.push('\\');
    } else if c == '\u{8}' {
        out.push('\\');
        out.push('b');
    } else if c == '\t' {
        out.push('\\');
        out.push('t');
    } else if c == '\n' {
        out.push('\\');
        out.push('n');
    } else if c == '\u{c}' {
        out.push('\\');
        out.push('f');
    } else if c == '\r' {
        out.push('\\');
        out.push('r');
    } else {
        let u = c as u32;
        if u < 32 {
            out.push('\\');
            out.push('u');
            out.push('0');
            out.push('0');
            out.push(hex_char_of((u / 16) as u8));
            out.push(hex_char_of((u % 16) as u8));
        } else {
            out.push(c);
        }
    }
    assert(out@ =~= old(out)@ + esc_char(c));
}

/// Appends every character of `s` to `out`.
pub fn push_chars(out: &mut Vec<char>, s: &str)
    ensures
        final(out)@ == old(out)@ + s@,
{
    let n = s.unicode_len();
    let mut i: usize = 0;
    while i < n
        invariant
            i <= n,
            n == s@.len(),
            out@ == old(out)@ + s@.subrange(0, i as int),
        decreases n - i,
    {
        let c = s.get_char(i);
        out.push(c);
        assert(s@.subrange(0, i + 1) =~= s@.subrange(0, i as int).push(s@[i as int]));
        i = i + 1;
    }
    assert(s@.subrange(0, n as int) =~= s@);
}

/// Writes the quoted, escaped text of `s`.
fn print_string(out: &mut Vec<char>, s: &str)
    ensures
        final(out)@ == old(out)@ + str_text(s@),
{
    out.push('"');
    let n = s.unicode_len();
    let mut i: usize = 0;
    while i < n
        invariant
            i <= n,
            n == s@.len(),
            out@ == old(out)@ + seq!['"'] + str_body_text(s@.subrange(0, i as int)),
        decreases n - i,
    {
        let c = s.get_char(i);
        push_esc(out, c);
        proof {
            lemma_str_body_snoc(s@.subrange(0, i as int), s@[i as int]);
            assert(s@.subrange(0, i + 1) =~= s@.subrange(0, i as int).push(s@[i as int]));
        }
        i = i + 1;
    }
    out.push('"');
    assert(s@.subrange(0, n as int) =~= s@);
    assert(out@ =~= old(out)@ + str_text(s@));
}

/// Writes the compact text of `j`.
pub fn print_json(out: &mut Vec<char>, j: &Json)
    ensures
        final(out)@ == old(out)@ + text_of(j@),
    decreases *j,
{
    match j {
        Json::Null => {
            out.push('n');
            out.push('u');
            out.push('l');
            out.push('l');
            assert(out@ =~= old(out)@ + text_of(j@));
        },
        Json::Bool(b) => {
            if *b {
                out.push('t');
                out.push('r');
                out.push('u');
                out.push('e');
            } else {
                out.push('f');
                out.push('a');
                out.push('l');
                out.push('s');
                out.push('e');
            }
            assert(out@ =~= old(out)@ + text_of(j@));
        },
        Json::Num(t) => {
            push_chars(out, t.as_str());
        },
        Json::Str(s) => {
            print_string(out, s.as_str());
        },
        Json::Arr(items) => {
            out.push('[');
            print_items(out, items, 0);
            out.push(']');
            proof {
                lemma_view_items_index(items@);
                assert(view_items(items@).subrange(0, view_items(items@).len() as int)
                    =~= view_items(items@));
                assert(out@ =~= old(out)@ + text_of(j@));
            }
        },
        Json::Obj(ms) => {
            out.push('{');
            print_members(out, ms, 0);
            out.push('}');
            proof {
                lemma_view_members_index(ms@);
                assert(view_members(ms@).subrange(0, view_members(ms@).len() as int)
                    =~= view_members(ms@));
                assert(out@ =~= old(out)@ + text_of(j@));
            }
        },
    }
}

/// Writes the elements of `items` from `start` on, separated by commas.
fn print_items(out: &mut Vec<char>, items: &Vec<Json>, start: usize)
    requires
        start <= items@.len(),
    ensures
        final(out)@ == old(out)@ + arr_body_text(
            view_items(items@).subrange(start as int, view_items(items@).len() as int)),
    decreases *items, items@.len() - start,
{
    proof {
        lemma_view_items_index(items@);
    }
    let ghost vs = view_items(items@);
    let ghost suff = vs.subrange(start as int, vs.len() as int);
    if start >= items.len() {
        assert(out@ =~= old(out)@ + arr_body_text(suff));
    } else {
        print_json(out, &items[start]);
        assert(suff[0] == view_json(items@[start as int]));
        if start + 1 < items.len() {
            out.push(',');
            print_items(out, items, start + 1);
            proof {
                assert(suff.subrange(1, suff.len() as int)
                    =~= vs.subrange(start + 1, vs.len() as int));
                assert(out@ =~= old(out)@ + arr_body_text(suff));
            }
        } else {
            assert(suff.len() == 1);
            assert(out@ =~= old(out)@ + arr_body_text(suff));
        }
    }
}

/// Writes the members of `ms` from `start` on, separated by commas.
fn print_members(out: &mut Vec<char>, ms: &Vec<(String, Json)>, start: usize)
    requires
        start <= ms@.len(),
    ensures
        final(out)@ == old(out)@ + obj_body_text(
            view_members(ms@).subrange(start as int, view_members(ms@).len() as int)),
    decreases *ms, ms@.len() - start,
{
    proof {
        lemma_view_members_index(ms@);
    }
    let ghost vs = view_members(ms@);
    let ghost suff = vs.subrange(start as int, vs.len() as int);
    if start >= ms.len() {
        assert(out@ =~= old(out)@ + obj_body_text(suff));
    } else {
        print_string(out, ms[start].0.as_str());
        out.push(':');
        print_json(out, &ms[start].1);
        assert(suff[0] == (ms@[start as int].0@, view_json(ms@[start as int].1)));
        assert(out@ == old(out)@ + member_text(suff[0]));
        if start + 1 < ms.len() {
            out.push(',');
            print_members(out, ms, start + 1);
            proof {
                assert(suff.subrange(1, suff.len() as int)
                    =~= vs.subrange(start + 1, vs.len() as int));
                assert(out@ =~= old(out)@ + obj_body_text(suff));
            }
        } else {
            assert(suff.len() == 1);
            assert(out@ =~= old(out)@ + obj_body_text(suff));
        }
    }
}

} // verus!
