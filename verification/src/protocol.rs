//! The JSON-RPC message model.
//!
//! Requests and responses are plain structs whose mathematical models
//! carry sequences in place of strings.  A response is rendered as a
//! JSON object that always holds `jsonrpc` and `id` and only the
//! populated one of `result` and `error`; a request is read from a JSON
//! object whose `jsonrpc` and `method` must be strings, an `id` or
//! `params` of `null` counting as absent.  A reply is emitted if and
//! only if the request carried an id or dispatch produced an error.

use vstd::prelude::*;
use vstd::string::StringExecFns;
use crate::json::{Json, JsonVal, view_json, view_members, clone_json};
use crate::text::{text_of, wf_val};
use crate::parse::{skip_ws_end, parse_text};
use crate::decode::{decode_json, scan_ws};
use crate::conv::{str_eq, string_from_chars};

verus! {

/// A member lookup: the first member with the given key.
pub open spec fn obj_get(ms: Seq<(Seq<char>, JsonVal)>, key: Seq<char>) -> Option<JsonVal>
    decreases ms.len(),
{
    if ms.len() == 0 {
        None
    } else if ms[0].0 == key {
        Some(ms[0].1)
    } else {
        obj_get(ms.subrange(1, ms.len() as int), key)
    }
}

/// A field lookup on a value: members of an object, nothing elsewhere.
pub open spec fn val_get(v: JsonVal, key: Seq<char>) -> Option<JsonVal> {
    match v {
        JsonVal::Obj(ms) => obj_get(ms, key),
        _ => None,
    }
}

/// Finds the first member of `ms` named `key`.
pub fn get_member<'a>(ms: &'a Vec<(String, Json)>, key: &str) -> (r: Option<&'a Json>)
    ensures
        (match r {
            Some(j) => obj_get(view_members(ms@), key@) == Some(j@),
            None => obj_get(view_members(ms@), key@) is None,
        }),
{
    proof {
        crate::json::lemma_view_members_index(ms@);
        assert(view_members(ms@).subrange(0, view_members(ms@).len() as int)
            =~= view_members(ms@));
    }
    let ghost vs = view_members(ms@);
    let mut i: usize = 0;
    while i < ms.len()
        invariant
            i <= ms@.len(),
            vs == view_members(ms@),
            vs.len() == ms@.len(),
            forall|k: int| 0 <= k < vs.len() ==> vs[k] == ((#[trigger] ms@[k]).0@,
                view_json(ms@[k].1)),
            obj_get(vs, key@) == obj_get(vs.subrange(i as int, vs.len() as int), key@),
        decreases ms@.len() - i,
    {
        let ghost suff = vs.subrange(i as int, vs.len() as int);
        if str_eq(ms[i].0.as_str(), key) {
            assert(suff[0] == (ms@[i as int].0@, view_json(ms@[i as int].1)));
            assert(obj_get(suff, key@) == Some(view_json(ms@[i as int].1)));
            return Some(&ms[i].1);
        }
        proof {
            assert(suff[0] == (ms@[i as int].0@, view_json(ms@[i as int].1)));
            assert(suff.subrange(1, suff.len() as int)
                =~= vs.subrange(i + 1, vs.len() as int));
        }
        i = i + 1;
    }
    proof {
        assert(vs.subrange(i as int, vs.len() as int).len() == 0);
    }
    None
}

/// Finds a field of a JSON value, if it is an object that has one.
pub fn get_field<'a>(v: &'a Json, key: &str) -> (r: Option<&'a Json>)
    ensures
        (match r {
            Some(j) => val_get(v@, key@) == Some(j@),
            None => val_get(v@, key@) is None,
        }),
{
    match v {
        Json::Obj(ms) => get_member(ms, key),
        _ => None,
    }
}

/// The error codes the dispatcher can produce.
#[derive(Debug, Clone, Copy, PartialEq, Eq, Structural)]
pub enum ErrCode {
    /// `-32601`: the method or the tool is not known.
    MethodNotFound,
    /// `-32602`: `tools/call` without a usable tool name.
    InvalidParams,
    /// `-32603`: the tool ran and failed.
    Internal,
}

pub open spec fn code_int(c: ErrCode) -> int {
    match c {
        ErrCode::MethodNotFound => -32601,
        ErrCode::InvalidParams => -32602,
        ErrCode::Internal => -32603,
    }
}

/// The decimal text of an error code, as it is serialized.
pub open spec fn code_text(c: ErrCode) -> Seq<char> {
    match c {
        ErrCode::MethodNotFound => seq!['-', '3', '2', '6', '0', '1'],
        ErrCode::InvalidParams => seq!['-', '3', '2', '6', '0', '2'],
        ErrCode::Internal => seq!['-', '3', '2', '6', '0', '3'],
    }
}

pub fn code_value(c: ErrCode) -> (n: i32)
    ensures
        n as int == code_int(c),
{
    match c {
        ErrCode::MethodNotFound => -32601,
        ErrCode::InvalidParams => -32602,
        ErrCode::Internal => -32603,
    }
}

fn code_string(c: ErrCode) -> (s: String)
    ensures
        s@ == code_text(c),
{
    match c {
        ErrCode::MethodNotFound => {
            let s = String::from_str("-32601");
            proof {
                reveal_strlit("-32601");
                assert(s@ =~= code_text(c));
            }
            s
        },
        ErrCode::InvalidParams => {
            let s = String::from_str("-32602");
            proof {
                reveal_strlit("-32602");
                assert(s@ =~= code_text(c));
            }
            s
        },
        ErrCode::Internal => {
            let s = String::from_str("-32603");
            proof {
                reveal_strlit("-32603");
                assert(s@ =~= code_text(c));
            }
            s
        },
    }
}

/// A JSON-RPC error object.
#[derive(Debug, PartialEq)]
pub struct RpcError {
    pub code: ErrCode,
    pub message: String,
    pub data: Option<Json>,
}

/// The model of an error object.
#[verifier::ext_equal]
pub struct ErrModel {
    pub code: ErrCode,
    pub message: Seq<char>,
    pub data: Option<JsonVal>,
}

pub open spec fn view_opt(o: Option<Json>) -> Option<JsonVal> {
    match o {
        Some(j) => Some(view_json(j)),
        None => None,
    }
}

impl View for RpcError {
    type V = ErrModel;

    open spec fn view(&self) -> ErrModel {
        ErrModel { code: self.code, message: self.message@, data: view_opt(self.data) }
    }
}

/// A JSON-RPC response.  `jsonrpc` is always rendered as `"2.0"`;
/// exactly one of `result` and `error` is meant to be set, and only the
/// set one is serialized.
#[derive(Debug, PartialEq)]
pub struct Response {
    pub id: Option<Json>,
    pub result: Option<Json>,
    pub error: Option<RpcError>,
}

/// The model of a response.
#[verifier::ext_equal]
pub struct RespModel {
    pub id: Option<JsonVal>,
    pub result: Option<JsonVal>,
    pub error: Option<ErrModel>,
}

impl View for Response {
    type V = RespModel;

    open spec fn view(&self) -> RespModel {
        RespModel {
            id: view_opt(self.id),
            result: view_opt(self.result),
            error: match self.error {
                Some(e) => Some(e@),
                None => None,
            },
        }
    }
}

/// A decoded JSON-RPC request.  An absent `id` marks a notification.
#[derive(Debug, PartialEq)]
pub struct Request {
    pub jsonrpc: String,
    pub id: Option<Json>,
    pub method: String,
    pub params: Option<Json>,
}

/// The model of a request.
#[verifier::ext_equal]
pub struct ReqModel {
    pub jsonrpc: Seq<char>,
    pub id: Option<JsonVal>,
    pub method: Seq<char>,
    pub params: Option<JsonVal>,
}

impl View for Request {
    type V = ReqModel;

    open spec fn view(&self) -> ReqModel {
        ReqModel {
            jsonrpc: self.jsonrpc@,
            id: view_opt(self.id),
            method: self.method@,
            params: view_opt(self.params),
        }
    }
}

/// The JSON shape of an error object: `code`, `message`, and `data`
/// only when present.
pub open spec fn json_of_error(e: ErrModel) -> JsonVal {
    let base = seq![
        (seq!['c', 'o', 'd', 'e'], JsonVal::Num(code_text(e.code))),
        (seq!['m', 'e', 's', 's', 'a', 'g', 'e'], JsonVal::Str(e.message)),
    ];
    match e.data {
        Some(d) => JsonVal::Obj(base + seq![(seq!['d', 'a', 't', 'a'], d)]),
        None => JsonVal::Obj(base),
    }
}

/// The JSON shape of a response: `jsonrpc` and `id` always, an absent
/// `id` rendered as `null`, and only the populated one of `result` and
/// `error`.
pub open spec fn json_of_response(r: RespModel) -> JsonVal {
    let base = seq![
        (seq!['j', 's', 'o', 'n', 'r', 'p', 'c'], JsonVal::Str(seq!['2', '.', '0'])),
        (
            seq!['i', 'd'],
            match r.id {
                Some(v) => v,
                None => JsonVal::Null,
            },
        ),
    ];
    let with_result = match r.result {
        Some(v) => base + seq![(seq!['r', 'e', 's', 'u', 'l', 't'], v)],
        None => base,
    };
    let with_error = match r.error {
        Some(e) => with_result + seq![(seq!['e', 'r', 'r', 'o', 'r'], json_of_error(e))],
        None => with_result,
    };
    JsonVal::Obj(with_error)
}

/// The line written for a response.
pub open spec fn response_text(r: RespModel) -> Seq<char> {
    text_of(json_of_response(r))
}

fn error_to_json(e: &RpcError) -> (j: Json)
    ensures
        j@ == json_of_error(e@),
{
    let mut ms: Vec<(String, Json)> = Vec::new();
    ms.push((String::from_str("code"), Json::Num(code_string(e.code))));
    ms.push((String::from_str("message"), Json::Str(e.message.clone())));
    match &e.data {
        Some(d) => {
            let c = clone_json(d);
            ms.push((String::from_str("data"), c));
        },
        None => {},
    }
    proof {
        crate::json::lemma_view_members_index(ms@);
        reveal_strlit("code");
        reveal_strlit("message");
        reveal_strlit("data");
        assert("code"@ =~= seq!['c', 'o', 'd', 'e']);
        assert("message"@ =~= seq!['m', 'e', 's', 's', 'a', 'g', 'e']);
        assert("data"@ =~= seq!['d', 'a', 't', 'a']);
        let vm = view_members(ms@);
        let sm = json_of_error(e@)->Obj_0;
        assert(vm[0] == (ms@[0].0@, view_json(ms@[0].1)));
        assert(vm[1] == (ms@[1].0@, view_json(ms@[1].1)));
        assert(vm.len() == sm.len());
        assert(vm[0].0 == sm[0].0);
        assert(vm[0].1 == sm[0].1);
        assert(vm[1].0 == sm[1].0);
        assert(vm[1].1 == sm[1].1);
        if e@.data is Some {
            assert(vm[2] == (ms@[2].0@, view_json(ms@[2].1)));
            assert(vm[2].0 == sm[2].0);
            assert(vm[2].1 == sm[2].1);
        }
        assert(vm =~= sm);
        assert(view_json(Json::Obj(ms)) == json_of_error(e@));
    }
    Json::Obj(ms)
}

/// Renders `r` as a JSON value.
pub fn response_to_json(r: &Response) -> (j: Json)
    ensures
        j@ == json_of_response(r@),
{
    let mut ms: Vec<(String, Json)> = Vec::new();
    ms.push((String::from_str("jsonrpc"), Json::Str(String::from_str("2.0"))));
    let idj = match &r.id {
        Some(j) => clone_json(j),
        None => Json::Null,
    };
    ms.push((String::from_str("id"), idj));
    match &r.result {
        Some(j) => {
            let c = clone_json(j);
            ms.push((String::from_str("result"), c));
        },
        None => {},
    }
    match &r.error {
        Some(e) => {
            let ej = error_to_json(e);
            ms.push((String::from_str("error"), ej));
        },
        None => {},
    }
    proof {
        crate::json::lemma_view_members_index(ms@);
        reveal_strlit("jsonrpc");
        reveal_strlit("2.0");
        reveal_strlit("id");
        reveal_strlit("result");
        reveal_strlit("error");
        assert("jsonrpc"@ =~= seq!['j', 's', 'o', 'n', 'r', 'p', 'c']);
        assert("2.0"@ =~= seq!['2', '.', '0']);
        assert("id"@ =~= seq!['i', 'd']);
        assert("result"@ =~= seq!['r', 'e', 's', 'u', 'l', 't']);
        assert("error"@ =~= seq!['e', 'r', 'r', 'o', 'r']);
        let vm = view_members(ms@);
        let sm = json_of_response(r@)->Obj_0;
        assert(vm.len() == sm.len());
        assert(vm[0] == (ms@[0].0@, view_json(ms@[0].1)));
        assert(vm[1] == (ms@[1].0@, view_json(ms@[1].1)));
        assert(vm[0].0 == sm[0].0);
        assert(vm[0].1 == sm[0].1);
        assert(vm[1].0 == sm[1].0);
        assert(vm[1].1 == sm[1].1);
        if r@.result is Some {
            assert(vm[2] == (ms@[2].0@, view_json(ms@[2].1)));
            assert(vm[2].0 == sm[2].0);
            assert(vm[2].1 == sm[2].1);
            if r@.error is Some {
                assert(vm[3] == (ms@[3].0@, view_json(ms@[3].1)));
                assert(vm[3].0 == sm[3].0);
                assert(vm[3].1 == sm[3].1);
            }
        } else if r@.error is Some {
            assert(vm[2] == (ms@[2].0@, view_json(ms@[2].1)));
            assert(vm[2].0 == sm[2].0);
            assert(vm[2].1 == sm[2].1);
        }
        assert(vm =~= sm);
        assert(view_json(Json::Obj(ms)) == json_of_response(r@));
    }
    Json::Obj(ms)
}

/// Serializes `r` as one compact line of JSON.
pub fn encode_response(r: &Response) -> (s: String)
    ensures
        s@ == response_text(r@),
{
    let j = response_to_json(r);
    let mut out: Vec<char> = Vec::new();
    crate::text::print_json(&mut out, &j);
    string_from_chars(&out)
}

/// An `id` or `params` of `null` counts as absent, as the reference
/// decoder reads them.
pub open spec fn null_to_none(o: Option<JsonVal>) -> Option<JsonVal> {
    match o {
        Some(JsonVal::Null) => None,
        Some(v) => Some(v),
        None => None,
    }
}

/// The request read from a JSON value: an object whose `jsonrpc` and
/// `method` are strings; anything else is rejected.
pub open spec fn request_of_json(v: JsonVal) -> Option<ReqModel> {
    match v {
        JsonVal::Obj(ms) => match (
            obj_get(ms, seq!['j', 's', 'o', 'n', 'r', 'p', 'c']),
            obj_get(ms, seq!['m', 'e', 't', 'h', 'o', 'd']),
        ) {
            (Some(JsonVal::Str(jr)), Some(JsonVal::Str(m))) => Some(ReqModel {
                jsonrpc: jr,
                id: null_to_none(obj_get(ms, seq!['i', 'd'])),
                method: m,
                params: null_to_none(obj_get(ms, seq!['p', 'a', 'r', 'a', 'm', 's'])),
            }),
            _ => None,
        },
        _ => None,
    }
}

/// The request read from one line of text.
pub open spec fn spec_decode_request(line: Seq<char>) -> Option<ReqModel> {
    match parse_text(line) {
        None => None,
        Some(v) => request_of_json(v),
    }
}

/// Decodes one line as a request.
pub fn decode_request(line: &Vec<char>) -> (r: Option<Request>)
    ensures
        (match r {
            Some(req) => spec_decode_request(line@) == Some(req@),
            None => spec_decode_request(line@) is None,
        }),
{
    proof {
        reveal_strlit("jsonrpc");
        reveal_strlit("method");
        reveal_strlit("id");
        reveal_strlit("params");
        assert("jsonrpc"@ =~= seq!['j', 's', 'o', 'n', 'r', 'p', 'c']);
        assert("method"@ =~= seq!['m', 'e', 't', 'h', 'o', 'd']);
        assert("id"@ =~= seq!['i', 'd']);
        assert("params"@ =~= seq!['p', 'a', 'r', 'a', 'm', 's']);
    }
    match decode_json(line) {
        None => None,
        Some(j) => match j {
            Json::Obj(ms) => {
                let jr: String = match get_member(&ms, "jsonrpc") {
                    Some(Json::Str(s)) => s.clone(),
                    _ => {
                        return None;
                    },
                };
                let method: String = match get_member(&ms, "method") {
                    Some(Json::Str(s)) => s.clone(),
                    _ => {
                        return None;
                    },
                };
                let id: Option<Json> = match get_member(&ms, "id") {
                    None => None,
                    Some(Json::Null) => None,
                    Some(j2) => Some(clone_json(j2)),
                };
                let params: Option<Json> = match get_member(&ms, "params") {
                    None => None,
                    Some(Json::Null) => None,
                    Some(j2) => Some(clone_json(j2)),
                };
                Some(Request { jsonrpc: jr, id, method, params })
            },
            _ => None,
        },
    }
}

/// What one input line leads to: skipped silently, logged and skipped,
/// or dispatched.
#[derive(Debug, PartialEq)]
pub enum LineStep {
    /// Nothing but whitespace: read the next line, with no noise.
    Blank,
    /// Not a well-formed request: log it and read the next line.
    Malformed,
    /// A decoded request, ready for dispatch.
    Ready(Request),
}

/// The model of a line step.
#[verifier::ext_equal]
pub enum LineModel {
    Blank,
    Malformed,
    Ready(ReqModel),
}

impl View for LineStep {
    type V = LineModel;

    open spec fn view(&self) -> LineModel {
        match self {
            LineStep::Blank => LineModel::Blank,
            LineStep::Malformed => LineModel::Malformed,
            LineStep::Ready(req) => LineModel::Ready(req@),
        }
    }
}

pub open spec fn spec_line_step(line: Seq<char>) -> LineModel {
    if skip_ws_end(line, 0) == line.len() {
        LineModel::Blank
    } else {
        match spec_decode_request(line) {
            None => LineModel::Malformed,
            Some(m) => LineModel::Ready(m),
        }
    }
}

/// Frames one input line: blank lines are skipped without noise, lines
/// that do not decode are malformed, the rest carry a request.
pub fn step_line(line: &Vec<char>) -> (r: LineStep)
    ensures
        r@ == spec_line_step(line@),
{
    let q = scan_ws(line, 0);
    if q == line.len() {
        LineStep::Blank
    } else {
        match decode_request(line) {
            None => LineStep::Malformed,
            Some(req) => LineStep::Ready(req),
        }
    }
}

/// The code named by its serialized text, for the codes this server
/// uses.
pub open spec fn code_of_text(t: Seq<char>) -> Option<ErrCode> {
    if t == code_text(ErrCode::MethodNotFound) {
        Some(ErrCode::MethodNotFound)
    } else if t == code_text(ErrCode::InvalidParams) {
        Some(ErrCode::InvalidParams)
    } else if t == code_text(ErrCode::Internal) {
        Some(ErrCode::Internal)
    } else {
        None
    }
}

/// The error object read back from a JSON value.
pub open spec fn error_of_json(v: JsonVal) -> Option<ErrModel> {
    match v {
        JsonVal::Obj(ms) => match (
            obj_get(ms, seq!['c', 'o', 'd', 'e']),
            obj_get(ms, seq!['m', 'e', 's', 's', 'a', 'g', 'e']),
        ) {
            (Some(JsonVal::Num(ct)), Some(JsonVal::Str(msg))) => match code_of_text(ct) {
                Some(c) => Some(
                    ErrModel {
                        code: c,
                        message: msg,
                        data: obj_get(ms, seq!['d', 'a', 't', 'a']),
                    },
                ),
                None => None,
            },
            _ => None,
        },
        _ => None,
    }
}

/// The response read back from a JSON value: the inverse of
/// `json_of_response` on what this server emits.
pub open spec fn response_of_json(v: JsonVal) -> Option<RespModel> {
    match v {
        JsonVal::Obj(ms) => if obj_get(ms, seq!['j', 's', 'o', 'n', 'r', 'p', 'c'])
            == Some(JsonVal::Str(seq!['2', '.', '0'])) {
            match obj_get(ms, seq!['e', 'r', 'r', 'o', 'r']) {
                Some(ev) => match error_of_json(ev) {
                    Some(e) => Some(
                        RespModel {
                            id: null_to_none(obj_get(ms, seq!['i', 'd'])),
                            result: obj_get(ms, seq!['r', 'e', 's', 'u', 'l', 't']),
                            error: Some(e),
                        },
                    ),
                    None => None,
                },
                None => Some(
                    RespModel {
                        id: null_to_none(obj_get(ms, seq!['i', 'd'])),
                        result: obj_get(ms, seq!['r', 'e', 's', 'u', 'l', 't']),
                        error: None,
                    },
                ),
            }
        } else {
            None
        },
        _ => None,
    }
}

/// The response read back from one line of text.
pub open spec fn spec_decode_response(line: Seq<char>) -> Option<RespModel> {
    match parse_text(line) {
        None => None,
        Some(v) => response_of_json(v),
    }
}

/// Decodes one line as a response.
pub fn decode_response(line: &Vec<char>) -> (r: Option<Response>)
    ensures
        (match r {
            Some(resp) => spec_decode_response(line@) == Some(resp@),
            None => spec_decode_response(line@) is None,
        }),
{
    proof {
        reveal_strlit("jsonrpc");
        reveal_strlit("2.0");
        reveal_strlit("id");
        reveal_strlit("result");
        reveal_strlit("error");
        reveal_strlit("code");
        reveal_strlit("message");
        reveal_strlit("data");
        assert("jsonrpc"@ =~= seq!['j', 's', 'o', 'n', 'r', 'p', 'c']);
        assert("2.0"@ =~= seq!['2', '.', '0']);
        assert("id"@ =~= seq!['i', 'd']);
        assert("result"@ =~= seq!['r', 'e', 's', 'u', 'l', 't']);
        assert("error"@ =~= seq!['e', 'r', 'r', 'o', 'r']);
        assert("code"@ =~= seq!['c', 'o', 'd', 'e']);
        assert("message"@ =~= seq!['m', 'e', 's', 's', 'a', 'g', 'e']);
        assert("data"@ =~= seq!['d', 'a', 't', 'a']);
    }
    match decode_json(line) {
        None => None,
        Some(j) => match j {
            Json::Obj(ms) => {
                match get_member(&ms, "jsonrpc") {
                    Some(Json::Str(s)) => {
                        if !str_eq(s.as_str(), "2.0") {
                            return None;
                        }
                    },
                    _ => {
                        return None;
                    },
                }
                let error: Option<RpcError> = match get_member(&ms, "error") {
                    Some(ev) => match decode_error(ev) {
                        Some(e) => Some(e),
                        None => {
                            return None;
                        },
                    },
                    None => None,
                };
                let id: Option<Json> = match get_member(&ms, "id") {
                    None => None,
                    Some(Json::Null) => None,
                    Some(j2) => Some(clone_json(j2)),
                };
                let result: Option<Json> = match get_member(&ms, "result") {
                    None => None,
                    Some(j2) => Some(clone_json(j2)),
                };
                Some(Response { id, result, error })
            },
            _ => None,
        },
    }
}

fn decode_error(v: &Json) -> (r: Option<RpcError>)
    ensures
        (match r {
            Some(e) => error_of_json(v@) == Some(e@),
            None => error_of_json(v@) is None,
        }),
{
    proof {
        reveal_strlit("code");
        reveal_strlit("message");
        reveal_strlit("data");
        reveal_strlit("-32601");
        reveal_strlit("-32602");
        reveal_strlit("-32603");
        assert("code"@ =~= seq!['c', 'o', 'd', 'e']);
        assert("message"@ =~= seq!['m', 'e', 's', 's', 'a', 'g', 'e']);
        assert("data"@ =~= seq!['d', 'a', 't', 'a']);
        assert("-32601"@ =~= code_text(ErrCode::MethodNotFound));
        assert("-32602"@ =~= code_text(ErrCode::InvalidParams));
        assert("-32603"@ =~= code_text(ErrCode::Internal));
    }
    match v {
        Json::Obj(ms) => {
            let code: ErrCode = match get_member(ms, "code") {
                Some(Json::Num(t)) => {
                    if str_eq(t.as_str(), "-32601") {
                        ErrCode::MethodNotFound
                    } else if str_eq(t.as_str(), "-32602") {
                        ErrCode::InvalidParams
                    } else if str_eq(t.as_str(), "-32603") {
                        ErrCode::Internal
                    } else {
                        return None;
                    }
                },
                _ => {
                    return None;
                },
            };
            let message: String = match get_member(ms, "message") {
                Some(Json::Str(s)) => s.clone(),
                _ => {
                    return None;
                },
            };
            let data: Option<Json> = match get_member(ms, "data") {
                None => None,
                Some(j2) => Some(clone_json(j2)),
            };
            Some(RpcError { code, message, data })
        },
        _ => None,
    }
}

/// A response as the dispatcher shapes them: ids and results that were
/// decoded from lines (so never a wrapped `null` id), and errors
/// without attached data.  The codec loses nothing on these.
pub open spec fn wf_response(r: RespModel) -> bool {
    &&& r.id != Some(JsonVal::Null)
    &&& (r.id matches Some(v) ==> wf_val(v))
    &&& (r.result matches Some(v) ==> wf_val(v))
    &&& (r.error matches Some(e) ==> e.data is None)
}

/// Whether a response is written out: only when the request carried an
/// id, or dispatch produced an error.
pub open spec fn spec_should_emit(r: RespModel) -> bool {
    r.id is Some || r.error is Some
}

pub fn should_emit(r: &Response) -> (b: bool)
    ensures
        b == spec_should_emit(r@),
{
    r.id.is_some() || r.error.is_some()
}

} // verus!
