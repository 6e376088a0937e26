//! The codec loses nothing: parsing the printed text of a well-formed
//! value yields the value back, and decoding the encoded line of a
//! response the dispatcher could produce yields that response.
//!
//! The lemmas walk the grammar the way the printer does.  Their
//! hypotheses describe a window of `s` holding the printed text
//! character by character; the boundary condition keeps a number from
//! running into what follows it.

use vstd::prelude::*;
use crate::json::JsonVal;
use crate::text::{is_ws, is_digit, digits_end, num_end, is_number_text, wf_val, hex_char,
    esc_char, str_body_text, str_text, text_of, arr_body_text, obj_body_text, member_text};
use crate::protocol::{ErrCode, ErrModel, RespModel, ReqModel, LineModel, code_text, code_of_text,
    json_of_error, json_of_response, response_of_json, response_text, spec_decode_response,
    obj_get, null_to_none, wf_response, error_of_json, spec_decode_request,
    spec_line_step};
use crate::dispatch::{OutcomeModel, spec_dispatch, spec_finish, init_payload,
    tools_payload, resources_payload, prompts_payload, empty_obj, content_payload,
    tool_descriptor, tool_schema, schema_forecast_type, schema_latitude, schema_location_name,
    schema_longitude};
use crate::parse::{hex_val, hex4, unesc_char, scalar_code, skip_ws_end, parse_string,
    parse_value, parse_elems, parse_tail, parse_colon, parse_membs, parse_mtail, parse_text};

verus! {

/// A character that cannot extend a number: what may follow a printed
/// value inside a document.
pub open spec fn safe_follow(c: char) -> bool {
    !(is_digit(c) || c == '.' || c == 'e' || c == 'E' || c == '+' || c == '-')
}

/// Reading back a printed hex digit gives its value.
proof fn lemma_hex_of_hex(n: int)
    requires
        0 <= n < 16,
    ensures
        hex_val(hex_char(n)) == Some(n as u32),
{
}

/// Parsing a printed string body from just past the opening quote
/// recovers the characters and stops past the closing quote.
proof fn lemma_parse_sbody(t: Seq<char>, s: Seq<char>, pos: int)
    requires
        0 <= pos,
        pos + str_body_text(t).len() + 1 <= s.len(),
        forall|k: int| 0 <= k < str_body_text(t).len()
            ==> s[pos + k] == #[trigger] str_body_text(t)[k],
        s[pos + str_body_text(t).len()] == '"',
    ensures
        parse_string(s, pos) == Some((t, pos + str_body_text(t).len() + 1)),
    decreases t.len(),
{
    if t.len() == 0 {
        assert(str_body_text(t).len() == 0);
        assert(s[pos] == '"');
    } else {
        let c = t[0];
        let e = esc_char(c);
        let t2 = t.subrange(1, t.len() as int);
        let body = str_body_text(t);
        let body2 = str_body_text(t2);
        assert(body == e + body2);
        assert forall|k: int| 0 <= k < e.len() implies s[pos + k] == #[trigger] e[k] by {
            assert(body[k] == e[k]);
            assert(s[pos + k] == body[k]);
        }
        let pos2 = pos + e.len();
        assert forall|k: int| 0 <= k < body2.len()
            implies s[pos2 + k] == #[trigger] body2[k] by {
            assert(body[e.len() + k] == body2[k]);
            assert(s[pos + (e.len() + k)] == body[e.len() + k]);
        }
        assert(s[pos2 + body2.len()] == '"');
        lemma_parse_sbody(t2, s, pos2);
        assert(seq![c] + t2 =~= t);
        if c == '"' {
            assert(s[pos] == '\\' && s[pos + 1] == '"');
            assert(unesc_char('"') == Some('"'));
        } else if c == '\\' {
            assert(s[pos] == '\\' && s[pos + 1] == '\\');
        } else if c == '\u{8}' {
            assert(s[pos] == '\\' && s[pos + 1] == 'b');
        } else if c == '\t' {
            assert(s[pos] == '\\' && s[pos + 1] == 't');
        } else if c == '\n' {
            assert(s[pos] == '\\' && s[pos + 1] == 'n');
        } else if c == '\u{c}' {
            assert(s[pos] == '\\' && s[pos + 1] == 'f');
        } else if c == '\r' {
            assert(s[pos] == '\\' && s[pos + 1] == 'r');
        } else if (c as u32) < 32 {
            let u = c as u32;
            assert(s[pos] == '\\' && s[pos + 1] == 'u' && s[pos + 2] == '0' && s[pos + 3] == '0'
                && s[pos + 4] == hex_char(u as int / 16) && s[pos + 5] == hex_char(u as int % 16));
            lemma_hex_of_hex(u as int / 16);
            lemma_hex_of_hex(u as int % 16);
            assert(hex_val('0') == Some(0u32));
            assert(hex4(s, pos + 2) == Some(u)) by {
                assert(u as int / 16 * 16 + u as int % 16 == u);
            }
            assert(scalar_code(u));
            vstd::utf8::char_u32_cast(c, u);
            assert((u as char) == c);
        } else {
            assert(e == seq![c]);
            assert(s[pos] == c);
            assert(c != '"' && c != '\\' && (c as u32) >= 32);
        }
    }
}

proof fn lemma_digits_bounds(t: Seq<char>, a: int)
    requires
        0 <= a <= t.len(),
    ensures
        a <= digits_end(t, a) <= t.len(),
    decreases t.len() - a,
{
    if a < t.len() && is_digit(t[a]) {
        lemma_digits_bounds(t, a + 1);
    }
}

/// A digit run in an embedded window scans to the corresponding place.
proof fn lemma_digits_embed(t: Seq<char>, s: Seq<char>, pos: int, a: int)
    requires
        0 <= a <= t.len(),
        0 <= pos,
        pos + t.len() <= s.len(),
        forall|k: int| 0 <= k < t.len() ==> s[pos + k] == #[trigger] t[k],
        digits_end(t, a) == t.len() ==> (pos + t.len() == s.len() || !is_digit(s[pos + t.len()])),
    ensures
        digits_end(s, pos + a) == pos + digits_end(t, a),
    decreases t.len() - a,
{
    if a < t.len() && is_digit(t[a]) {
        assert(s[pos + a] == t[a]);
        lemma_digits_embed(t, s, pos, a + 1);
    } else if a < t.len() {
        assert(s[pos + a] == t[a]);
    }
}

/// The number scan on an embedded number text finds exactly its end.
proof fn lemma_num_embed(t: Seq<char>, s: Seq<char>, pos: int)
    requires
        is_number_text(t),
        0 <= pos,
        pos + t.len() <= s.len(),
        forall|k: int| 0 <= k < t.len() ==> s[pos + k] == #[trigger] t[k],
        pos + t.len() == s.len() || safe_follow(s[pos + t.len()]),
    ensures
        num_end(s, pos) == Some(pos + t.len()),
{
    assert(t.len() > 0);
    assert(s[pos] == t[0]);
    let p1t: int = if t[0] == '-' { 1 } else { 0 };
    assert(p1t < t.len() && is_digit(t[p1t]));
    assert(s[pos + p1t] == t[p1t]);
    let p2t: int = if t[p1t] == '0' {
        p1t + 1
    } else {
        digits_end(t, p1t)
    };
    if t[p1t] != '0' {
        lemma_digits_bounds(t, p1t);
        lemma_digits_embed(t, s, pos, p1t);
    }
    assert(p1t < p2t <= t.len());
    let frac_t = p2t < t.len() && t[p2t] == '.';
    if frac_t {
        assert(s[pos + p2t] == t[p2t]);
        assert(p2t + 1 < t.len() && is_digit(t[p2t + 1]));
        assert(s[pos + p2t + 1] == t[p2t + 1]);
        lemma_digits_bounds(t, p2t + 1);
        lemma_digits_embed(t, s, pos, p2t + 1);
    } else if p2t < t.len() {
        assert(s[pos + p2t] == t[p2t]);
    }
    let p3t: int = if frac_t {
        digits_end(t, p2t + 1)
    } else {
        p2t
    };
    assert(p2t <= p3t <= t.len());
    let exp_t = p3t < t.len() && (t[p3t] == 'e' || t[p3t] == 'E');
    if exp_t {
        assert(s[pos + p3t] == t[p3t]);
        assert(p3t + 1 < t.len());
        assert(s[pos + p3t + 1] == t[p3t + 1]);
        let p4t: int = if t[p3t + 1] == '+' || t[p3t + 1] == '-' {
            p3t + 2
        } else {
            p3t + 1
        };
        assert(p4t < t.len() && is_digit(t[p4t]));
        assert(s[pos + p4t] == t[p4t]);
        lemma_digits_bounds(t, p4t);
        lemma_digits_embed(t, s, pos, p4t);
        assert(digits_end(t, p4t) == t.len());
    } else if p3t < t.len() {
        assert(s[pos + p3t] == t[p3t]);
    }
}

/// A digit run scanned inside a window matches the scan on the window
/// cut out as its own sequence.
proof fn lemma_digits_restrict(s: Seq<char>, pos: int, e: int, a: int)
    requires
        0 <= pos,
        0 <= a,
        pos + a <= e <= s.len(),
        digits_end(s, pos + a) <= e,
    ensures
        digits_end(s.subrange(pos, e), a) == digits_end(s, pos + a) - pos,
    decreases e - (pos + a),
{
    let t = s.subrange(pos, e);
    if pos + a < e && is_digit(s[pos + a]) {
        assert(t[a] == s[pos + a]);
        lemma_digits_restrict(s, pos, e, a + 1);
    } else if pos + a < e {
        assert(t[a] == s[pos + a]);
    } else {
        lemma_digits_bounds(s, pos + a);
    }
}

/// The text a number scan accepts is itself a whole number.
proof fn lemma_num_extract(s: Seq<char>, pos: int, e: int)
    requires
        0 <= pos <= s.len(),
        num_end(s, pos) == Some(e),
    ensures
        pos < e <= s.len(),
        is_number_text(s.subrange(pos, e)),
{
    let p1: int = if pos < s.len() && s[pos] == '-' { pos + 1 } else { pos };
    assert(p1 < s.len() && is_digit(s[p1]));
    let p2: int = if s[p1] == '0' {
        p1 + 1
    } else {
        digits_end(s, p1)
    };
    if s[p1] != '0' {
        lemma_digits_bounds(s, p1 + 1);
        assert(digits_end(s, p1) == digits_end(s, p1 + 1));
    }
    assert(p1 < p2 <= s.len());
    let frac = p2 < s.len() && s[p2] == '.';
    if frac {
        assert(p2 + 1 < s.len() && is_digit(s[p2 + 1]));
        lemma_digits_bounds(s, p2 + 2);
        assert(digits_end(s, p2 + 1) == digits_end(s, p2 + 2));
    }
    let p3: int = if frac {
        digits_end(s, p2 + 1)
    } else {
        p2
    };
    let exp = p3 < s.len() && (s[p3] == 'e' || s[p3] == 'E');
    let p4: int = if !exp {
        p3
    } else if p3 + 1 < s.len() && (s[p3 + 1] == '+' || s[p3 + 1] == '-') {
        p3 + 2
    } else {
        p3 + 1
    };
    assert(p2 <= p3 <= s.len());
    if exp {
        assert(p4 < s.len() && is_digit(s[p4]));
        lemma_digits_bounds(s, p4 + 1);
        assert(digits_end(s, p4) == digits_end(s, p4 + 1));
        assert(e == digits_end(s, p4));
    } else {
        assert(e == p3);
    }
    assert(pos < e <= s.len());
    let t = s.subrange(pos, e);
    assert(forall|k: int| 0 <= k < t.len() ==> #[trigger] t[k] == s[pos + k]);
    // replay the scan on the window
    assert(t[0] == s[pos]);
    let q1: int = p1 - pos;
    assert(t[q1] == s[p1]);
    if s[p1] != '0' {
        lemma_digits_restrict(s, pos, e, q1);
    }
    let q2: int = p2 - pos;
    if frac {
        assert(t[q2] == s[p2]);
        assert(t[q2 + 1] == s[p2 + 1]);
        lemma_digits_restrict(s, pos, e, q2 + 1);
    } else if p2 < e {
        assert(t[q2] == s[p2]);
    }
    let q3: int = p3 - pos;
    if exp {
        assert(t[q3] == s[p3]);
        assert(t[q3 + 1] == s[p3 + 1]);
        lemma_digits_restrict(s, pos, e, p4 - pos);
    } else if p3 < e {
        assert(t[q3] == s[p3]);
    }
    assert(num_end(t, 0) == Some(t.len() as int));
}

proof fn lemma_number_first(t: Seq<char>)
    requires
        is_number_text(t),
    ensures
        t.len() > 0,
        t[0] == '-' || is_digit(t[0]),
{
}

/// The characters a printed value can start with.
pub open spec fn value_start(c: char) -> bool {
    c == 'n' || c == 't' || c == 'f' || c == '"' || c == '[' || c == '{' || c == '-'
        || is_digit(c)
}

proof fn lemma_text_first(v: JsonVal)
    requires
        wf_val(v),
    ensures
        text_of(v).len() > 0,
        value_start(text_of(v)[0]),
{
    match v {
        JsonVal::Null => {
            assert(text_of(v)[0] == 'n');
        },
        JsonVal::Bool(b) => {
            if b {
                assert(text_of(v)[0] == 't');
            } else {
                assert(text_of(v)[0] == 'f');
            }
        },
        JsonVal::Num(t) => {
            lemma_number_first(t);
        },
        JsonVal::Str(t) => {
            assert(text_of(v)[0] == '"');
        },
        JsonVal::Arr(items) => {
            assert(text_of(v)[0] == '[');
        },
        JsonVal::Obj(ms) => {
            assert(text_of(v)[0] == '{');
        },
    }
}

/// Parsing the printed text of a well-formed value at its position in a
/// larger document recovers the value and stops right after it.
proof fn lemma_parse_value_text(v: JsonVal, s: Seq<char>, pos: int)
    requires
        wf_val(v),
        0 <= pos,
        pos + text_of(v).len() <= s.len(),
        forall|k: int| 0 <= k < text_of(v).len() ==> s[pos + k] == #[trigger] text_of(v)[k],
        pos + text_of(v).len() == s.len() || safe_follow(s[pos + text_of(v).len()]),
    ensures
        parse_value(s, pos) == Some((v, pos + text_of(v).len())),
    decreases v, 0int,
{
    let tl = text_of(v).len();
    lemma_text_first(v);
    assert(s[pos] == text_of(v)[0]);
    match v {
        JsonVal::Null => {
            assert(text_of(v) == seq!['n', 'u', 'l', 'l']);
            assert(s[pos] == 'n' && s[pos + 1] == 'u' && s[pos + 2] == 'l' && s[pos + 3] == 'l');
        },
        JsonVal::Bool(b) => {
            if b {
                assert(text_of(v) == seq!['t', 'r', 'u', 'e']);
                assert(s[pos] == 't' && s[pos + 1] == 'r' && s[pos + 2] == 'u'
                    && s[pos + 3] == 'e');
            } else {
                assert(text_of(v) == seq!['f', 'a', 'l', 's', 'e']);
                assert(s[pos] == 'f' && s[pos + 1] == 'a' && s[pos + 2] == 'l'
                    && s[pos + 3] == 's' && s[pos + 4] == 'e');
            }
        },
        JsonVal::Num(t) => {
            lemma_number_first(t);
            lemma_num_embed(t, s, pos);
            assert(s.subrange(pos, pos + t.len()) =~= t);
        },
        JsonVal::Str(t) => {
            let body = str_body_text(t);
            assert(text_of(v) == seq!['"'] + body + seq!['"']);
            assert forall|k: int| 0 <= k < body.len()
                implies s[pos + 1 + k] == #[trigger] body[k] by {
                assert(text_of(v)[1 + k] == body[k]);
                assert(s[pos + (1 + k)] == text_of(v)[1 + k]);
            }
            assert(text_of(v)[body.len() as int + 1] == '"');
            assert(s[pos + 1 + body.len()] == '"');
            lemma_parse_sbody(t, s, pos + 1);
        },
        JsonVal::Arr(items) => {
            let body = arr_body_text(items);
            assert(text_of(v) == seq!['['] + body + seq![']']);
            assert forall|k: int| 0 <= k < body.len()
                implies s[pos + 1 + k] == #[trigger] body[k] by {
                assert(text_of(v)[1 + k] == body[k]);
                assert(s[pos + (1 + k)] == text_of(v)[1 + k]);
            }
            assert(text_of(v)[body.len() as int + 1] == ']');
            assert(s[pos + 1 + body.len()] == ']');
            lemma_parse_elems_text(items, s, pos + 1, true);
        },
        JsonVal::Obj(ms) => {
            let body = obj_body_text(ms);
            assert(text_of(v) == seq!['{'] + body + seq!['}']);
            assert forall|k: int| 0 <= k < body.len()
                implies s[pos + 1 + k] == #[trigger] body[k] by {
                assert(text_of(v)[1 + k] == body[k]);
                assert(s[pos + (1 + k)] == text_of(v)[1 + k]);
            }
            assert(text_of(v)[body.len() as int + 1] == '}');
            assert(s[pos + 1 + body.len()] == '}');
            lemma_parse_membs_text(ms, s, pos + 1, true);
        },
    }
}

/// Parsing printed array elements (and the bracket that closes them)
/// recovers them all.
proof fn lemma_parse_elems_text(items: Seq<JsonVal>, s: Seq<char>, pos: int, first: bool)
    requires
        forall|i: int| 0 <= i < items.len() ==> wf_val(#[trigger] items[i]),
        !first ==> items.len() > 0,
        0 <= pos,
        pos + arr_body_text(items).len() + 1 <= s.len(),
        forall|k: int| 0 <= k < arr_body_text(items).len()
            ==> s[pos + k] == #[trigger] arr_body_text(items)[k],
        s[pos + arr_body_text(items).len()] == ']',
    ensures
        parse_elems(s, pos, first) == Some((items, pos + arr_body_text(items).len() + 1)),
    decreases items, 1int,
{
    let body = arr_body_text(items);
    if items.len() == 0 {
        assert(s[pos] == ']');
    } else {
        let v0 = items[0];
        let t0 = text_of(v0);
        let rest = items.subrange(1, items.len() as int);
        lemma_text_first(v0);
        if items.len() == 1 {
            assert(body == t0);
        } else {
            assert(body == t0 + seq![','] + arr_body_text(rest));
        }
        assert forall|k: int| 0 <= k < t0.len() implies s[pos + k] == #[trigger] t0[k] by {
            assert(body[k] == t0[k]);
            assert(s[pos + k] == body[k]);
        }
        assert(s[pos] == t0[0]);
        let q = pos + t0.len();
        if items.len() == 1 {
            assert(s[q] == ']');
            lemma_parse_value_text(v0, s, pos);
            assert(parse_tail(s, q) == Some((Seq::<JsonVal>::empty(), q + 1)));
            assert(seq![v0] + Seq::<JsonVal>::empty() =~= items);
        } else {
            assert(body[t0.len() as int] == ',');
            assert(s[q] == ',');
            lemma_parse_value_text(v0, s, pos);
            let rbody = arr_body_text(rest);
            assert forall|k: int| 0 <= k < rbody.len()
                implies s[q + 1 + k] == #[trigger] rbody[k] by {
                assert(body[t0.len() + 1 + k] == rbody[k]);
                assert(s[pos + (t0.len() + 1 + k)] == body[t0.len() + 1 + k]);
            }
            assert(s[q + 1 + rbody.len()] == ']');
            lemma_parse_elems_text(rest, s, q + 1, false);
            assert(parse_tail(s, q) == parse_elems(s, q + 1, false));
            assert(seq![v0] + rest =~= items);
        }
    }
}

/// Parsing printed object members (and the brace that closes them)
/// recovers them all.
proof fn lemma_parse_membs_text(
    ms: Seq<(Seq<char>, JsonVal)>,
    s: Seq<char>,
    pos: int,
    first: bool,
)
    requires
        forall|i: int| 0 <= i < ms.len() ==> wf_val((#[trigger] ms[i]).1),
        !first ==> ms.len() > 0,
        0 <= pos,
        pos + obj_body_text(ms).len() + 1 <= s.len(),
        forall|k: int| 0 <= k < obj_body_text(ms).len()
            ==> s[pos + k] == #[trigger] obj_body_text(ms)[k],
        s[pos + obj_body_text(ms).len()] == '}',
    ensures
        parse_membs(s, pos, first) == Some((ms, pos + obj_body_text(ms).len() + 1)),
    decreases ms, 1int,
{
    let body = obj_body_text(ms);
    if ms.len() == 0 {
        assert(s[pos] == '}');
    } else {
        let m0 = ms[0];
        let k0 = m0.0;
        let v0 = m0.1;
        let mt = member_text(m0);
        let kt = str_text(k0);
        let t0 = text_of(v0);
        assert(mt == kt + seq![':'] + t0);
        let rest = ms.subrange(1, ms.len() as int);
        if ms.len() == 1 {
            assert(body == mt);
        } else {
            assert(body == mt + seq![','] + obj_body_text(rest));
        }
        assert forall|k: int| 0 <= k < mt.len() implies s[pos + k] == #[trigger] mt[k] by {
            assert(body[k] == mt[k]);
            assert(s[pos + k] == body[k]);
        }
        let kb = str_body_text(k0);
        assert(kt == seq!['"'] + kb + seq!['"']);
        assert(kt[0] == '"');
        assert(mt[0] == kt[0]);
        assert(s[pos + 0] == mt[0]);
        assert(s[pos] == '"');
        assert forall|k: int| 0 <= k < kb.len() implies s[pos + 1 + k] == #[trigger] kb[k] by {
            assert(kt[1 + k] == kb[k]);
            assert(mt[1 + k] == kt[1 + k]);
            assert(s[pos + (1 + k)] == mt[1 + k]);
        }
        assert(mt[kb.len() + 1 as int] == '"');
        assert(s[pos + 1 + kb.len()] == '"');
        lemma_parse_sbody(k0, s, pos + 1);
        let q1 = pos + kt.len();
        assert(parse_string(s, pos + 1) == Some((k0, q1)));
        assert(mt[kt.len() as int] == ':');
        assert(s[q1] == ':');
        assert(parse_colon(s, q1) == Some(q1 + 1));
        let q2 = q1 + 1;
        assert forall|k: int| 0 <= k < t0.len() implies s[q2 + k] == #[trigger] t0[k] by {
            assert(mt[kt.len() + 1 + k] == t0[k]);
            assert(s[pos + (kt.len() + 1 + k)] == mt[kt.len() + 1 + k]);
        }
        assert(decreases_to!(ms => ms[0]));
        assert(decreases_to!(ms[0] => ms[0].1));
        let q3 = q2 + t0.len();
        if ms.len() == 1 {
            assert(s[q3] == '}');
            lemma_parse_value_text(v0, s, q2);
            assert(parse_mtail(s, q3) == Some((Seq::<(Seq<char>, JsonVal)>::empty(), q3 + 1)));
            assert(seq![(k0, v0)] + Seq::<(Seq<char>, JsonVal)>::empty() =~= ms);
        } else {
            assert(body[mt.len() as int] == ',');
            assert(s[q3] == ',');
            lemma_parse_value_text(v0, s, q2);
            let rbody = obj_body_text(rest);
            assert forall|k: int| 0 <= k < rbody.len()
                implies s[q3 + 1 + k] == #[trigger] rbody[k] by {
                assert(body[mt.len() + 1 + k] == rbody[k]);
                assert(s[pos + (mt.len() + 1 + k)] == body[mt.len() + 1 + k]);
            }
            assert(s[q3 + 1 + rbody.len()] == '}');
            lemma_parse_membs_text(rest, s, q3 + 1, false);
            assert(parse_mtail(s, q3) == parse_membs(s, q3 + 1, false));
            assert(seq![(k0, v0)] + rest =~= ms);
        }
    }
}

/// Law: parsing the printed text of a well-formed value yields exactly
/// that value.
pub proof fn theorem_json_roundtrip(v: JsonVal)
    requires
        wf_val(v),
    ensures
        parse_text(text_of(v)) == Some(v),
{
    let s = text_of(v);
    lemma_parse_value_text(v, s, 0);
    assert(parse_value(s, 0) == Some((v, s.len() as int)));
    assert(skip_ws_end(s, s.len() as int) == s.len());
}

proof fn lemma_code_text_wf(c: ErrCode)
    ensures
        is_number_text(code_text(c)),
{
    let t = code_text(c);
    assert(t.len() == 6);
    assert(digits_end(t, 6) == 6);
    assert(digits_end(t, 5) == 6);
    assert(digits_end(t, 4) == 6);
    assert(digits_end(t, 3) == 6);
    assert(digits_end(t, 2) == 6);
    assert(digits_end(t, 1) == 6);
    assert(t[0] == '-' && is_digit(t[1]) && t[1] != '0');
    assert(num_end(t, 0) == Some(6int));
}

/// A response the dispatcher could produce renders as a well-formed
/// JSON value.
proof fn lemma_wf_response_json(r: RespModel)
    requires
        wf_response(r),
    ensures
        wf_val(json_of_response(r)),
{
    let ms = json_of_response(r)->Obj_0;
    assert(wf_val(ms[0].1));
    assert(wf_val(ms[1].1)) by {
        if r.id is Some {
            assert(ms[1].1 == r.id->0);
        }
    }
    if r.result is Some {
        assert(ms[2].1 == r.result->0);
    }
    if r.error is Some {
        let e = r.error->0;
        let ei = if r.result is Some { 3int } else { 2int };
        assert(ms[ei].1 == json_of_error(e));
        let ems = json_of_error(e)->Obj_0;
        lemma_code_text_wf(e.code);
        assert(ems.len() == 2);
        assert(wf_val(ems[0].1));
        assert(wf_val(ems[1].1));
        assert forall|i: int| 0 <= i < ems.len() implies wf_val((#[trigger] ems[i]).1) by {
            assert(i == 0 || i == 1);
        }
        assert(wf_val(json_of_error(e)));
    }
    assert forall|i: int| 0 <= i < ms.len() implies wf_val((#[trigger] ms[i]).1) by {
        assert(0 <= i < 4);
    }
}

/// Reading the rendered response back recovers it field by field.
proof fn lemma_response_of_json_inverse(r: RespModel)
    requires
        wf_response(r),
    ensures
        response_of_json(json_of_response(r)) == Some(r),
{
    let key_jsonrpc = seq!['j', 's', 'o', 'n', 'r', 'p', 'c'];
    let key_id = seq!['i', 'd'];
    let key_result = seq!['r', 'e', 's', 'u', 'l', 't'];
    let key_error = seq!['e', 'r', 'r', 'o', 'r'];
    let ms = json_of_response(r)->Obj_0;
    let idv = match r.id {
        Some(v) => v,
        None => JsonVal::Null,
    };
    let base = seq![
        (key_jsonrpc, JsonVal::Str(seq!['2', '.', '0'])),
        (key_id, idv),
    ];
    // each member by index, in all four layouts
    assert(ms[0] == base[0] && ms[1] == base[1]);
    // jsonrpc lookup succeeds at the first member
    assert(obj_get(ms, key_jsonrpc) == Some(JsonVal::Str(seq!['2', '.', '0'])));
    // id lookup walks one member
    let tail1 = ms.subrange(1, ms.len() as int);
    assert(tail1[0] == base[1]);
    assert(obj_get(ms, key_id) == obj_get(tail1, key_id));
    assert(obj_get(tail1, key_id) == Some(idv));
    assert(null_to_none(Some(idv)) == r.id) by {
        if r.id is Some {
            assert(idv == r.id->0);
            assert(idv != JsonVal::Null);
        }
    }
    let tail2 = tail1.subrange(1, tail1.len() as int);
    assert(obj_get(ms, key_result) == obj_get(tail1, key_result));
    assert(obj_get(tail1, key_result) == obj_get(tail2, key_result));
    assert(obj_get(ms, key_error) == obj_get(tail2, key_error)) by {
        assert(obj_get(ms, key_error) == obj_get(tail1, key_error));
    }
    if r.result is Some {
        assert(ms[2] == (key_result, r.result->0));
        assert(tail2[0] == ms[2]);
        assert(obj_get(tail2, key_result) == Some(r.result->0));
        let tail3 = tail2.subrange(1, tail2.len() as int);
        assert(obj_get(tail2, key_error) == obj_get(tail3, key_error));
        if r.error is Some {
            assert(ms[3] == (key_error, json_of_error(r.error->0)));
            assert(tail3[0] == ms[3]);
            assert(obj_get(tail3, key_error) == Some(json_of_error(r.error->0)));
        } else {
            assert(tail3.len() == 0);
            assert(obj_get(tail3, key_error) is None);
        }
    } else {
        if r.error is Some {
            assert(ms[2] == (key_error, json_of_error(r.error->0)));
            assert(tail2[0] == ms[2]);
            assert(obj_get(tail2, key_error) == Some(json_of_error(r.error->0)));
            let tail3 = tail2.subrange(1, tail2.len() as int);
            assert(obj_get(tail2, key_result) == obj_get(tail3, key_result));
            assert(tail3.len() == 0);
            assert(obj_get(tail3, key_result) is None);
        } else {
            assert(tail2.len() == 0);
            assert(obj_get(tail2, key_result) is None);
            assert(obj_get(tail2, key_error) is None);
        }
    }
    if r.error is Some {
        let e = r.error->0;
        lemma_error_of_json_inverse(e);
    }
    assert(response_of_json(json_of_response(r)) matches Some(rr) && rr =~= r);
}

proof fn lemma_error_of_json_inverse(e: ErrModel)
    requires
        e.data is None,
    ensures
        error_of_json(json_of_error(e)) == Some(e),
{
    let key_code = seq!['c', 'o', 'd', 'e'];
    let key_message = seq!['m', 'e', 's', 's', 'a', 'g', 'e'];
    let key_data = seq!['d', 'a', 't', 'a'];
    let ems = json_of_error(e)->Obj_0;
    assert(ems.len() == 2);
    assert(ems[0] == (key_code, JsonVal::Num(code_text(e.code))));
    assert(ems[1] == (key_message, JsonVal::Str(e.message)));
    assert(obj_get(ems, key_code) == Some(JsonVal::Num(code_text(e.code))));
    let tail1 = ems.subrange(1, ems.len() as int);
    assert(tail1[0] == ems[1]);
    assert(obj_get(ems, key_message) == obj_get(tail1, key_message));
    assert(obj_get(tail1, key_message) == Some(JsonVal::Str(e.message)));
    let tail2 = tail1.subrange(1, tail1.len() as int);
    assert(key_data != key_code) by {
        assert(key_data[0] != key_code[0]);
    }
    assert(obj_get(ems, key_data) == obj_get(tail1, key_data));
    assert(obj_get(tail1, key_data) == obj_get(tail2, key_data));
    assert(tail2.len() == 0);
    assert(obj_get(tail2, key_data) is None);
    assert(code_of_text(code_text(e.code)) == Some(e.code)) by {
        assert(code_text(ErrCode::InvalidParams)[5] != code_text(ErrCode::MethodNotFound)[5]);
        assert(code_text(ErrCode::Internal)[5] != code_text(ErrCode::MethodNotFound)[5]);
        assert(code_text(ErrCode::Internal)[5] != code_text(ErrCode::InvalidParams)[5]);
    }
    assert(error_of_json(json_of_error(e)) matches Some(ee) && ee =~= e);
}

proof fn lemma_parse_value_wf(s: Seq<char>, pos: int)
    requires
        0 <= pos <= s.len(),
    ensures
        parse_value(s, pos) matches Some((v, p)) ==> wf_val(v),
    decreases s.len() - pos, 1int,
{
    if pos >= s.len() {
    } else if is_ws(s[pos]) {
        lemma_parse_value_wf(s, pos + 1);
    } else if s[pos] == '-' || is_digit(s[pos]) {
        let n = num_end(s, pos);
        if n is Some {
            let e = n->0;
            if pos < e <= s.len() {
                lemma_num_extract(s, pos, e);
            }
        }
    } else if s[pos] == '[' {
        lemma_parse_elems_wf(s, pos + 1, true);
    } else if s[pos] == '{' {
        lemma_parse_membs_wf(s, pos + 1, true);
    }
}

proof fn lemma_parse_elems_wf(s: Seq<char>, pos: int, first: bool)
    requires
        0 <= pos <= s.len(),
    ensures
        parse_elems(s, pos, first) matches Some((vs, p))
            ==> forall|i: int| 0 <= i < vs.len() ==> wf_val(#[trigger] vs[i]),
    decreases s.len() - pos, 2int,
{
    if pos >= s.len() {
    } else if is_ws(s[pos]) {
        lemma_parse_elems_wf(s, pos + 1, first);
    } else if first && s[pos] == ']' {
    } else {
        lemma_parse_value_wf(s, pos);
        let r = parse_value(s, pos);
        if r is Some {
            let v = (r->0).0;
            let p2 = (r->0).1;
            if pos < p2 <= s.len() {
                lemma_parse_tail_wf(s, p2);
                let tr = parse_tail(s, p2);
                if tr is Some {
                    let vs = (tr->0).0;
                    assert forall|i: int| 0 <= i < (seq![v] + vs).len()
                        implies wf_val(#[trigger] (seq![v] + vs)[i]) by {
                        if i == 0 {
                            assert((seq![v] + vs)[i] == v);
                        } else {
                            assert((seq![v] + vs)[i] == vs[i - 1]);
                        }
                    }
                }
            }
        }
    }
}

proof fn lemma_parse_tail_wf(s: Seq<char>, pos: int)
    requires
        0 <= pos <= s.len(),
    ensures
        parse_tail(s, pos) matches Some((vs, p))
            ==> forall|i: int| 0 <= i < vs.len() ==> wf_val(#[trigger] vs[i]),
    decreases s.len() - pos, 0int,
{
    if pos >= s.len() {
    } else if is_ws(s[pos]) {
        lemma_parse_tail_wf(s, pos + 1);
    } else if s[pos] == ',' {
        lemma_parse_elems_wf(s, pos + 1, false);
    }
}

proof fn lemma_parse_membs_wf(s: Seq<char>, pos: int, first: bool)
    requires
        0 <= pos <= s.len(),
    ensures
        parse_membs(s, pos, first) matches Some((ms, p))
            ==> forall|i: int| 0 <= i < ms.len() ==> wf_val((#[trigger] ms[i]).1),
    decreases s.len() - pos, 2int,
{
    if pos >= s.len() {
    } else if is_ws(s[pos]) {
        lemma_parse_membs_wf(s, pos + 1, first);
    } else if first && s[pos] == '}' {
    } else if s[pos] == '"' {
        let sr = parse_string(s, pos + 1);
        if sr is Some {
            let k = (sr->0).0;
            let p2 = (sr->0).1;
            if pos < p2 <= s.len() {
                let cr = parse_colon(s, p2);
                if cr is Some {
                    let p3 = cr->0;
                    if p2 < p3 <= s.len() {
                        lemma_parse_value_wf(s, p3);
                        let r = parse_value(s, p3);
                        if r is Some {
                            let v = (r->0).0;
                            let p4 = (r->0).1;
                            if p3 < p4 <= s.len() {
                                lemma_parse_mtail_wf(s, p4);
                                let tr = parse_mtail(s, p4);
                                if tr is Some {
                                    let ms2 = (tr->0).0;
                                    assert forall|i: int| 0 <= i < (seq![(k, v)] + ms2).len()
                                        implies wf_val(
                                        (#[trigger] (seq![(k, v)] + ms2)[i]).1,
                                    ) by {
                                        if i == 0 {
                                            assert((seq![(k, v)] + ms2)[i] == (k, v));
                                        } else {
                                            assert((seq![(k, v)] + ms2)[i] == ms2[i - 1]);
                                        }
                                    }
                                }
                            }
                        }
                    }
                }
            }
        }
    }
}

proof fn lemma_parse_mtail_wf(s: Seq<char>, pos: int)
    requires
        0 <= pos <= s.len(),
    ensures
        parse_mtail(s, pos) matches Some((ms, p))
            ==> forall|i: int| 0 <= i < ms.len() ==> wf_val((#[trigger] ms[i]).1),
    decreases s.len() - pos, 0int,
{
    if pos >= s.len() {
    } else if is_ws(s[pos]) {
        lemma_parse_mtail_wf(s, pos + 1);
    } else if s[pos] == ',' {
        lemma_parse_membs_wf(s, pos + 1, false);
    }
}

/// Whatever a whole document decodes to is well-formed.
pub proof fn lemma_parse_text_wf(line: Seq<char>)
    ensures
        parse_text(line) matches Some(v) ==> wf_val(v),
{
    lemma_parse_value_wf(line, 0);
}

/// A member found in a well-formed object is well-formed.
proof fn lemma_obj_get_wf(ms: Seq<(Seq<char>, JsonVal)>, key: Seq<char>)
    requires
        forall|i: int| 0 <= i < ms.len() ==> wf_val((#[trigger] ms[i]).1),
    ensures
        obj_get(ms, key) matches Some(x) ==> wf_val(x),
    decreases ms.len(),
{
    if ms.len() > 0 && ms[0].0 != key {
        let rest = ms.subrange(1, ms.len() as int);
        assert forall|i: int| 0 <= i < rest.len() implies wf_val((#[trigger] rest[i]).1) by {
            assert(rest[i] == ms[i + 1]);
        }
        lemma_obj_get_wf(rest, key);
    }
}

/// Law: encoding a response the dispatcher could produce and decoding
/// the line again yields a structurally identical response — the
/// omission of absent fields loses nothing.
pub proof fn theorem_response_roundtrip(r: RespModel)
    requires
        wf_response(r),
    ensures
        spec_decode_response(response_text(r)) == Some(r),
{
    lemma_wf_response_json(r);
    theorem_json_roundtrip(json_of_response(r));
    lemma_response_of_json_inverse(r);
}

proof fn lemma_obj2_wf(ms: Seq<(Seq<char>, JsonVal)>)
    requires
        ms.len() <= 4,
        forall|i: int| 0 <= i < ms.len() ==> wf_val((#[trigger] ms[i]).1),
    ensures
        wf_val(JsonVal::Obj(ms)),
{
}

/// The fixed payloads hold strings and objects only; the codec keeps
/// them all.
proof fn lemma_payloads_wf()
    ensures
        wf_val(empty_obj()),
        wf_val(init_payload()),
        wf_val(tools_payload()),
        wf_val(resources_payload()),
        wf_val(prompts_payload()),
{
    assert(wf_val(empty_obj()));
    let caps = init_payload()->Obj_0[0].1;
    assert(wf_val(caps)) by {
        assert(caps->Obj_0[0].1 == empty_obj());
        lemma_obj2_wf(caps->Obj_0);
    }
    let info = init_payload()->Obj_0[2].1;
    assert(wf_val(info)) by {
        lemma_obj2_wf(info->Obj_0);
    }
    lemma_obj2_wf(init_payload()->Obj_0);
    assert(wf_val(schema_forecast_type())) by {
        let evs = schema_forecast_type()->Obj_0[2].1->Arr_0;
        assert(forall|i: int| 0 <= i < evs.len() ==> wf_val(#[trigger] evs[i]));
        lemma_obj2_wf(schema_forecast_type()->Obj_0);
    }
    assert(wf_val(schema_latitude())) by {
        lemma_obj2_wf(schema_latitude()->Obj_0);
    }
    assert(wf_val(schema_location_name())) by {
        lemma_obj2_wf(schema_location_name()->Obj_0);
    }
    assert(wf_val(schema_longitude())) by {
        lemma_obj2_wf(schema_longitude()->Obj_0);
    }
    let props = tool_schema()->Obj_0[0].1;
    assert(wf_val(props)) by {
        lemma_obj2_wf(props->Obj_0);
    }
    let req_arr = tool_schema()->Obj_0[1].1;
    assert(wf_val(req_arr)) by {
        assert(forall|i: int| 0 <= i < req_arr->Arr_0.len()
            ==> wf_val(#[trigger] req_arr->Arr_0[i]));
    }
    assert(wf_val(tool_schema())) by {
        lemma_obj2_wf(tool_schema()->Obj_0);
    }
    assert(wf_val(tool_descriptor())) by {
        lemma_obj2_wf(tool_descriptor()->Obj_0);
    }
    let tools_arr = tools_payload()->Obj_0[0].1;
    assert(wf_val(tools_arr)) by {
        assert(forall|i: int| 0 <= i < tools_arr->Arr_0.len()
            ==> wf_val(#[trigger] tools_arr->Arr_0[i]));
    }
    lemma_obj2_wf(tools_payload()->Obj_0);
    assert(wf_val(resources_payload()->Obj_0[0].1));
    lemma_obj2_wf(resources_payload()->Obj_0);
    assert(wf_val(prompts_payload()->Obj_0[0].1));
    lemma_obj2_wf(prompts_payload()->Obj_0);
}

/// An id fit for the codec: well-formed, and never a wrapped `null`,
/// which is how ids come out of the request decoder.
pub open spec fn wf_id(id: Option<JsonVal>) -> bool {
    id matches Some(v) ==> (wf_val(v) && v != JsonVal::Null)
}

/// Every reply the dispatch table produces at once is fit for the
/// codec, as long as the request's id is.
pub proof fn lemma_dispatch_wf(req: ReqModel)
    requires
        wf_id(req.id),
    ensures
        spec_dispatch(req) matches OutcomeModel::Reply(r) ==> wf_response(r),
        spec_dispatch(req) matches OutcomeModel::Fetch(id, _) ==> wf_id(id),
{
    lemma_payloads_wf();
}

/// The response built after a fetch is fit for the codec.
pub proof fn lemma_finish_wf(id: Option<JsonVal>, fetched: Result<Seq<char>, Seq<char>>)
    requires
        wf_id(id),
    ensures
        wf_response(spec_finish(id, fetched)),
{
    if fetched is Ok {
        let block = content_payload(fetched->Ok_0)->Obj_0[0].1->Arr_0[0];
        lemma_obj2_wf(block->Obj_0);
        let items = content_payload(fetched->Ok_0)->Obj_0[0].1->Arr_0;
        assert(forall|i: int| 0 <= i < items.len() ==> wf_val(#[trigger] items[i]));
        lemma_obj2_wf(content_payload(fetched->Ok_0)->Obj_0);
    }
}

/// A request decoded from a line carries an id and params the codec
/// keeps.
pub proof fn lemma_decoded_request_wf(line: Seq<char>)
    ensures
        spec_decode_request(line) matches Some(req) ==> wf_id(req.id),
{
    lemma_parse_text_wf(line);
    if spec_decode_request(line) is Some {
        let v = parse_text(line)->0;
        let ms = v->Obj_0;
        lemma_obj_get_wf(ms, seq!['i', 'd']);
    }
}

/// Law: whatever line a request was framed from, and however the fetch
/// went, the line written for the resulting response decodes back to
/// that very response.
pub proof fn theorem_pipeline_roundtrip(line: Seq<char>, fetched: Result<Seq<char>, Seq<char>>)
    ensures
        spec_line_step(line) matches LineModel::Ready(req) ==> {
            &&& (spec_dispatch(req) matches OutcomeModel::Reply(r)
                ==> spec_decode_response(response_text(r)) == Some(r))
            &&& (spec_dispatch(req) matches OutcomeModel::Fetch(id, _)
                ==> spec_decode_response(response_text(spec_finish(id, fetched)))
                    == Some(spec_finish(id, fetched)))
        },
{
    match spec_line_step(line) {
        LineModel::Ready(req) => {
            lemma_decoded_request_wf(line);
            lemma_dispatch_wf(req);
            match spec_dispatch(req) {
                OutcomeModel::Reply(r) => {
                    theorem_response_roundtrip(r);
                },
                OutcomeModel::Fetch(id, _) => {
                    lemma_finish_wf(id, fetched);
                    theorem_response_roundtrip(spec_finish(id, fetched));
                },
            }
        },
        _ => {},
    }
}

} // verus!
