//! The method dispatch table.
//!
//! `dispatch` resolves a request to an outcome: either a finished
//! response, or a fetch plan for the one tool that needs the weather
//! collaborator, whose result `finish_fetch` then folds into a
//! response.  The method set is closed; anything outside it is a
//! method-not-found error that names the method.
//!
//! A method under the reserved `notifications/` prefix short-circuits
//! to an empty success that carries the request's id; as ids are absent
//! from notifications in normal use, the writer rule then drops the
//! reply.  A client that sends such a method with an id does get the
//! reply; that choice is deliberate and kept stable here.

use vstd::prelude::*;
use vstd::string::StringExecFns;
use crate::json::{Json, JsonVal, view_json, view_members, view_items, lemma_view_members_index,
    lemma_view_items_index};
use crate::protocol::{Request, ReqModel, Response, RespModel, RpcError, ErrModel, ErrCode,
    val_get, get_field, view_opt};
use crate::conv::{str_eq, has_prefix, is_prefix};

verus! {

/// Which slice of the forecast a tool call asks for.
#[derive(Debug, Clone, Copy, PartialEq, Eq, Structural)]
pub enum ForecastKind {
    Current,
    Tomorrow,
    Weekly,
}

/// The arguments of one weather fetch: coordinates as the number text
/// the client sent (or the fixed fallback), a display name, and the
/// forecast kind.
#[derive(Debug, PartialEq)]
pub struct FetchPlan {
    pub latitude: String,
    pub longitude: String,
    pub location_name: String,
    pub forecast: ForecastKind,
}

/// The model of a fetch plan.
#[verifier::ext_equal]
pub struct PlanModel {
    pub latitude: Seq<char>,
    pub longitude: Seq<char>,
    pub location_name: Seq<char>,
    pub forecast: ForecastKind,
}

impl View for FetchPlan {
    type V = PlanModel;

    open spec fn view(&self) -> PlanModel {
        PlanModel {
            latitude: self.latitude@,
            longitude: self.longitude@,
            location_name: self.location_name@,
            forecast: self.forecast,
        }
    }
}

/// What dispatch decides: reply at once, or fetch the weather first,
/// remembering the id the reply must carry.
#[derive(Debug, PartialEq)]
pub enum Outcome {
    Reply(Response),
    Fetch(Option<Json>, FetchPlan),
}

/// The model of an outcome.
#[verifier::ext_equal]
pub enum OutcomeModel {
    Reply(RespModel),
    Fetch(Option<JsonVal>, PlanModel),
}

impl View for Outcome {
    type V = OutcomeModel;

    open spec fn view(&self) -> OutcomeModel {
        match self {
            Outcome::Reply(r) => OutcomeModel::Reply(r@),
            Outcome::Fetch(id, plan) => OutcomeModel::Fetch(view_opt(*id), plan@),
        }
    }
}

pub open spec fn empty_obj() -> JsonVal {
    JsonVal::Obj(Seq::empty())
}

/// The fixed `initialize` result: protocol version, capability flags,
/// and the server identity, with each object's members in the sorted
/// order the serializer writes.
pub open spec fn init_payload() -> JsonVal {
    JsonVal::Obj(
        seq![
            ("capabilities"@, JsonVal::Obj(seq![("tools"@, empty_obj())])),
            ("protocolVersion"@, JsonVal::Str("2025-06-18"@)),
            (
                "serverInfo"@,
                JsonVal::Obj(
                    seq![
                        ("name"@, JsonVal::Str("yr-weather-mcp"@)),
                        ("version"@, JsonVal::Str("0.1.0"@)),
                    ],
                ),
            ),
        ],
    )
}

/// The one registered tool, with its declared input schema.
pub open spec fn tool_descriptor() -> JsonVal {
    JsonVal::Obj(
        seq![
            (
                "description"@,
                JsonVal::Str("Get weather forecast for GPS coordinates using YR.no API"@),
            ),
            ("inputSchema"@, tool_schema()),
            ("name"@, JsonVal::Str("get_weather"@)),
        ],
    )
}

pub open spec fn tool_schema() -> JsonVal {
    JsonVal::Obj(
        seq![
            (
                "properties"@,
                JsonVal::Obj(
                    seq![
                        ("forecast_type"@, schema_forecast_type()),
                        ("latitude"@, schema_latitude()),
                        ("location_name"@, schema_location_name()),
                        ("longitude"@, schema_longitude()),
                    ],
                ),
            ),
            (
                "required"@,
                JsonVal::Arr(seq![JsonVal::Str("latitude"@), JsonVal::Str("longitude"@)]),
            ),
            ("type"@, JsonVal::Str("object"@)),
        ],
    )
}

pub open spec fn schema_forecast_type() -> JsonVal {
    JsonVal::Obj(
        seq![
            ("default"@, JsonVal::Str("current"@)),
            (
                "description"@,
                JsonVal::Str(
                    "Type of forecast: 'current' for now, 'tomorrow' for next day, 'weekly' for 7-day forecast"@,
                ),
            ),
            (
                "enum"@,
                JsonVal::Arr(
                    seq![
                        JsonVal::Str("current"@),
                        JsonVal::Str("tomorrow"@),
                        JsonVal::Str("weekly"@),
                    ],
                ),
            ),
            ("type"@, JsonVal::Str("string"@)),
        ],
    )
}

pub open spec fn schema_latitude() -> JsonVal {
    JsonVal::Obj(
        seq![
            ("description"@, JsonVal::Str("Latitude coordinate (e.g., 37.5665 for Seoul)"@)),
            ("type"@, JsonVal::Str("number"@)),
        ],
    )
}

pub open spec fn schema_location_name() -> JsonVal {
    JsonVal::Obj(
        seq![
            ("description"@, JsonVal::Str("Optional location name for display purposes"@)),
            ("type"@, JsonVal::Str("string"@)),
        ],
    )
}

pub open spec fn schema_longitude() -> JsonVal {
    JsonVal::Obj(
        seq![
            ("description"@, JsonVal::Str("Longitude coordinate (e.g., 126.9780 for Seoul)"@)),
            ("type"@, JsonVal::Str("number"@)),
        ],
    )
}

/// The `tools/list` result: the registry, whole and unconditional.
pub open spec fn tools_payload() -> JsonVal {
    JsonVal::Obj(seq![("tools"@, JsonVal::Arr(seq![tool_descriptor()]))])
}

pub open spec fn resources_payload() -> JsonVal {
    JsonVal::Obj(seq![("resources"@, JsonVal::Arr(Seq::empty()))])
}

pub open spec fn prompts_payload() -> JsonVal {
    JsonVal::Obj(seq![("prompts"@, JsonVal::Arr(Seq::empty()))])
}

/// The success result of a tool call: one content block of kind "text".
pub open spec fn content_payload(text: Seq<char>) -> JsonVal {
    JsonVal::Obj(
        seq![
            (
                "content"@,
                JsonVal::Arr(
                    seq![
                        JsonVal::Obj(
                            seq![
                                ("text"@, JsonVal::Str(text)),
                                ("type"@, JsonVal::Str("text"@)),
                            ],
                        ),
                    ],
                ),
            ),
        ],
    )
}

/// The reserved notification prefix.
pub open spec fn notif_prefix() -> Seq<char> {
    "notifications/"@
}

pub open spec fn kind_of_text(t: Seq<char>) -> ForecastKind {
    if t == "tomorrow"@ {
        ForecastKind::Tomorrow
    } else if t == "weekly"@ {
        ForecastKind::Weekly
    } else {
        ForecastKind::Current
    }
}

/// The default coordinates, used when a tool call names none.
pub open spec fn default_latitude() -> Seq<char> {
    "37.5665"@
}

pub open spec fn default_longitude() -> Seq<char> {
    "126.9780"@
}

/// The params a tool call works from: the request's, or an empty object.
pub open spec fn tool_params(req: ReqModel) -> JsonVal {
    match req.params {
        Some(v) => v,
        None => empty_obj(),
    }
}

/// What `tools/call` decides.  A missing or non-string tool name is
/// invalid parameters; an unknown tool is an error naming it; for the
/// weather tool, each argument falls back to its default when absent or
/// of the wrong type, and the call becomes a fetch plan.
pub open spec fn spec_tool_call(req: ReqModel) -> OutcomeModel {
    let ps = tool_params(req);
    match val_get(ps, "name"@) {
        Some(JsonVal::Str(name)) => if name == "get_weather"@ {
            let args = match val_get(ps, "arguments"@) {
                Some(a) => a,
                None => empty_obj(),
            };
            OutcomeModel::Fetch(
                req.id,
                PlanModel {
                    latitude: match val_get(args, "latitude"@) {
                        Some(JsonVal::Num(t)) => t,
                        _ => default_latitude(),
                    },
                    longitude: match val_get(args, "longitude"@) {
                        Some(JsonVal::Num(t)) => t,
                        _ => default_longitude(),
                    },
                    location_name: match val_get(args, "location_name"@) {
                        Some(JsonVal::Str(s)) => s,
                        _ => "Unknown Location"@,
                    },
                    forecast: match val_get(args, "forecast_type"@) {
                        Some(JsonVal::Str(t)) => kind_of_text(t),
                        _ => ForecastKind::Current,
                    },
                },
            )
        } else {
            OutcomeModel::Reply(
                RespModel {
                    id: req.id,
                    result: None,
                    error: Some(
                        ErrModel {
                            code: ErrCode::MethodNotFound,
                            message: "Unknown tool: "@ + name,
                            data: None,
                        },
                    ),
                },
            )
        },
        _ => OutcomeModel::Reply(
            RespModel {
                id: req.id,
                result: None,
                error: Some(
                    ErrModel {
                        code: ErrCode::InvalidParams,
                        message: "Invalid parameters"@,
                        data: None,
                    },
                ),
            },
        ),
    }
}

/// The dispatch table.  A notification-prefixed method answers an empty
/// success with the request's id; the named methods answer their fixed
/// payloads; `tools/call` is resolved by `spec_tool_call`; anything
/// else is a method-not-found error naming the method.  Every branch
/// carries the request's id unchanged.
pub open spec fn spec_dispatch(req: ReqModel) -> OutcomeModel {
    if is_prefix(notif_prefix(), req.method) {
        OutcomeModel::Reply(RespModel { id: req.id, result: Some(JsonVal::Null), error: None })
    } else if req.method == "initialize"@ {
        OutcomeModel::Reply(RespModel { id: req.id, result: Some(init_payload()), error: None })
    } else if req.method == "initialized"@ {
        OutcomeModel::Reply(RespModel { id: req.id, result: Some(empty_obj()), error: None })
    } else if req.method == "tools/list"@ {
        OutcomeModel::Reply(RespModel { id: req.id, result: Some(tools_payload()), error: None })
    } else if req.method == "resources/list"@ {
        OutcomeModel::Reply(
            RespModel { id: req.id, result: Some(resources_payload()), error: None },
        )
    } else if req.method == "prompts/list"@ {
        OutcomeModel::Reply(RespModel { id: req.id, result: Some(prompts_payload()), error: None })
    } else if req.method == "tools/call"@ {
        spec_tool_call(req)
    } else {
        OutcomeModel::Reply(
            RespModel {
                id: req.id,
                result: None,
                error: Some(
                    ErrModel {
                        code: ErrCode::MethodNotFound,
                        message: "Method not found: "@ + req.method,
                        data: None,
                    },
                ),
            },
        )
    }
}

/// The response once the weather collaborator has answered: its text as
/// one content block on success, an internal error carrying its message
/// on failure; the id rides along either way.
pub open spec fn spec_finish(id: Option<JsonVal>, fetched: Result<Seq<char>, Seq<char>>)
    -> RespModel {
    match fetched {
        Ok(text) => RespModel { id, result: Some(content_payload(text)), error: None },
        Err(msg) => RespModel {
            id,
            result: None,
            error: Some(
                ErrModel {
                    code: ErrCode::Internal,
                    message: "Failed to get weather: "@ + msg,
                    data: None,
                },
            ),
        },
    }
}

fn member(k: &str, v: Json) -> (m: (String, Json))
    ensures
        m.0@ == k@ && m.1 == v,
{
    (String::from_str(k), v)
}

fn jstr(s: &str) -> (j: Json)
    ensures
        view_json(j) == JsonVal::Str(s@),
{
    Json::Str(String::from_str(s))
}

fn build_init_payload() -> (j: Json)
    ensures
        view_json(j) == init_payload(),
{
    let caps_tools = Json::Obj(Vec::new());
    let mut caps_ms: Vec<(String, Json)> = Vec::new();
    caps_ms.push(member("tools", caps_tools));
    proof {
        lemma_view_members_index(caps_ms@);
        assert(view_members(caps_ms@) =~= seq![("tools"@, empty_obj())]);
    }
    let caps = Json::Obj(caps_ms);
    let mut info_ms: Vec<(String, Json)> = Vec::new();
    info_ms.push(member("name", jstr("yr-weather-mcp")));
    info_ms.push(member("version", jstr("0.1.0")));
    proof {
        lemma_view_members_index(info_ms@);
        assert(view_members(info_ms@) =~= seq![
            ("name"@, JsonVal::Str("yr-weather-mcp"@)),
            ("version"@, JsonVal::Str("0.1.0"@)),
        ]);
    }
    let info = Json::Obj(info_ms);
    let mut ms: Vec<(String, Json)> = Vec::new();
    ms.push(member("capabilities", caps));
    ms.push(member("protocolVersion", jstr("2025-06-18")));
    ms.push(member("serverInfo", info));
    proof {
        lemma_view_members_index(ms@);
        assert(view_members(ms@) =~= init_payload()->Obj_0);
    }
    Json::Obj(ms)
}

fn build_pair_schema(text: &str, kind: &str) -> (j: Json)
    ensures
        view_json(j) == JsonVal::Obj(
            seq![("description"@, JsonVal::Str(text@)), ("type"@, JsonVal::Str(kind@))],
        ),
{
    let mut ms: Vec<(String, Json)> = Vec::new();
    ms.push(member("description", jstr(text)));
    ms.push(member("type", jstr(kind)));
    proof {
        lemma_view_members_index(ms@);
        assert(view_members(ms@) =~= seq![
            ("description"@, JsonVal::Str(text@)),
            ("type"@, JsonVal::Str(kind@)),
        ]);
    }
    Json::Obj(ms)
}

fn build_forecast_type_schema() -> (j: Json)
    ensures
        view_json(j) == schema_forecast_type(),
{
    let mut evs: Vec<Json> = Vec::new();
    evs.push(jstr("current"));
    evs.push(jstr("tomorrow"));
    evs.push(jstr("weekly"));
    proof {
        lemma_view_items_index(evs@);
        assert(view_items(evs@) =~= seq![
            JsonVal::Str("current"@),
            JsonVal::Str("tomorrow"@),
            JsonVal::Str("weekly"@),
        ]);
    }
    let mut ms: Vec<(String, Json)> = Vec::new();
    ms.push(member("default", jstr("current")));
    ms.push(member(
        "description",
        jstr("Type of forecast: 'current' for now, 'tomorrow' for next day, 'weekly' for 7-day forecast"),
    ));
    ms.push(member("enum", Json::Arr(evs)));
    ms.push(member("type", jstr("string")));
    proof {
        lemma_view_members_index(ms@);
        assert(view_members(ms@) =~= schema_forecast_type()->Obj_0);
    }
    Json::Obj(ms)
}

fn build_tool_schema() -> (j: Json)
    ensures
        view_json(j) == tool_schema(),
{
    let mut props_ms: Vec<(String, Json)> = Vec::new();
    props_ms.push(member("forecast_type", build_forecast_type_schema()));
    props_ms.push(member(
        "latitude",
        build_pair_schema("Latitude coordinate (e.g., 37.5665 for Seoul)", "number"),
    ));
    props_ms.push(member(
        "location_name",
        build_pair_schema("Optional location name for display purposes", "string"),
    ));
    props_ms.push(member(
        "longitude",
        build_pair_schema("Longitude coordinate (e.g., 126.9780 for Seoul)", "number"),
    ));
    proof {
        lemma_view_members_index(props_ms@);
        assert(view_members(props_ms@) =~= tool_schema()->Obj_0[0].1->Obj_0);
    }
    let props = Json::Obj(props_ms);
    let mut req_items: Vec<Json> = Vec::new();
    req_items.push(jstr("latitude"));
    req_items.push(jstr("longitude"));
    proof {
        lemma_view_items_index(req_items@);
        assert(view_items(req_items@)
            =~= seq![JsonVal::Str("latitude"@), JsonVal::Str("longitude"@)]);
    }
    let mut ms: Vec<(String, Json)> = Vec::new();
    ms.push(member("properties", props));
    ms.push(member("required", Json::Arr(req_items)));
    ms.push(member("type", jstr("object")));
    proof {
        lemma_view_members_index(ms@);
        assert(view_members(ms@) =~= tool_schema()->Obj_0);
    }
    Json::Obj(ms)
}

fn build_tools_payload() -> (j: Json)
    ensures
        view_json(j) == tools_payload(),
{
    let mut desc_ms: Vec<(String, Json)> = Vec::new();
    desc_ms.push(member(
        "description",
        jstr("Get weather forecast for GPS coordinates using YR.no API"),
    ));
    desc_ms.push(member("inputSchema", build_tool_schema()));
    desc_ms.push(member("name", jstr("get_weather")));
    proof {
        lemma_view_members_index(desc_ms@);
        assert(view_members(desc_ms@) =~= tool_descriptor()->Obj_0);
    }
    let mut items: Vec<Json> = Vec::new();
    items.push(Json::Obj(desc_ms));
    proof {
        lemma_view_items_index(items@);
        assert(view_items(items@) =~= seq![tool_descriptor()]);
    }
    let mut ms: Vec<(String, Json)> = Vec::new();
    ms.push(member("tools", Json::Arr(items)));
    proof {
        lemma_view_members_index(ms@);
        assert(view_members(ms@) =~= tools_payload()->Obj_0);
    }
    Json::Obj(ms)
}

fn build_list_payload(key: &str) -> (j: Json)
    ensures
        view_json(j) == JsonVal::Obj(seq![(key@, JsonVal::Arr(Seq::empty()))]),
{
    let mut ms: Vec<(String, Json)> = Vec::new();
    ms.push(member(key, Json::Arr(Vec::new())));
    proof {
        lemma_view_members_index(ms@);
        assert(view_members(ms@) =~= seq![(key@, JsonVal::Arr(Seq::<JsonVal>::empty()))]);
    }
    Json::Obj(ms)
}

fn kind_of(t: &str) -> (k: ForecastKind)
    ensures
        k == kind_of_text(t@),
{
    if str_eq(t, "tomorrow") {
        ForecastKind::Tomorrow
    } else if str_eq(t, "weekly") {
        ForecastKind::Weekly
    } else {
        ForecastKind::Current
    }
}

fn tool_call(req: Request) -> (o: Outcome)
    ensures
        o@ == spec_tool_call(req@),
{
    let ps: Json = match req.params {
        Some(v) => v,
        None => Json::Obj(Vec::new()),
    };
    match get_field(&ps, "name") {
        Some(Json::Str(name_ref)) => {
            let name = name_ref.clone();
            if str_eq(name.as_str(), "get_weather") {
                let default_args = Json::Obj(Vec::new());
                let args: &Json = match get_field(&ps, "arguments") {
                    Some(a) => a,
                    None => &default_args,
                };
                let latitude: String = match get_field(args, "latitude") {
                    Some(Json::Num(t)) => t.clone(),
                    _ => String::from_str("37.5665"),
                };
                let longitude: String = match get_field(args, "longitude") {
                    Some(Json::Num(t)) => t.clone(),
                    _ => String::from_str("126.9780"),
                };
                let location_name: String = match get_field(args, "location_name") {
                    Some(Json::Str(s)) => s.clone(),
                    _ => String::from_str("Unknown Location"),
                };
                let forecast: ForecastKind = match get_field(args, "forecast_type") {
                    Some(Json::Str(t)) => kind_of(t.as_str()),
                    _ => ForecastKind::Current,
                };
                Outcome::Fetch(
                    req.id,
                    FetchPlan { latitude, longitude, location_name, forecast },
                )
            } else {
                let msg = String::from_str("Unknown tool: ").concat(name.as_str());
                Outcome::Reply(
                    Response {
                        id: req.id,
                        result: None,
                        error: Some(
                            RpcError { code: ErrCode::MethodNotFound, message: msg, data: None },
                        ),
                    },
                )
            }
        },
        _ => Outcome::Reply(
            Response {
                id: req.id,
                result: None,
                error: Some(
                    RpcError {
                        code: ErrCode::InvalidParams,
                        message: String::from_str("Invalid parameters"),
                        data: None,
                    },
                ),
            },
        ),
    }
}

/// Routes one request by its method name.
pub fn dispatch(req: Request) -> (o: Outcome)
    ensures
        o@ == spec_dispatch(req@),
{
    if has_prefix(req.method.as_str(), "notifications/") {
        return Outcome::Reply(Response { id: req.id, result: Some(Json::Null), error: None });
    }
    if str_eq(req.method.as_str(), "initialize") {
        let payload = build_init_payload();
        Outcome::Reply(Response { id: req.id, result: Some(payload), error: None })
    } else if str_eq(req.method.as_str(), "initialized") {
        Outcome::Reply(Response { id: req.id, result: Some(Json::Obj(Vec::new())), error: None })
    } else if str_eq(req.method.as_str(), "tools/list") {
        let payload = build_tools_payload();
        Outcome::Reply(Response { id: req.id, result: Some(payload), error: None })
    } else if str_eq(req.method.as_str(), "resources/list") {
        let payload = build_list_payload("resources");
        Outcome::Reply(Response { id: req.id, result: Some(payload), error: None })
    } else if str_eq(req.method.as_str(), "prompts/list") {
        let payload = build_list_payload("prompts");
        Outcome::Reply(Response { id: req.id, result: Some(payload), error: None })
    } else if str_eq(req.method.as_str(), "tools/call") {
        tool_call(req)
    } else {
        let msg = String::from_str("Method not found: ").concat(req.method.as_str());
        Outcome::Reply(
            Response {
                id: req.id,
                result: None,
                error: Some(
                    RpcError { code: ErrCode::MethodNotFound, message: msg, data: None },
                ),
            },
        )
    }
}

/// Folds the collaborator's answer into the response for the caller.
pub fn finish_fetch(id: Option<Json>, fetched: Result<String, String>) -> (r: Response)
    ensures
        r@ == spec_finish(
            view_opt(id),
            match fetched {
                Ok(t) => Ok(t@),
                Err(e) => Err(e@),
            },
        ),
{
    match fetched {
        Ok(text) => {
            let ghost textv = text@;
            let mut block_ms: Vec<(String, Json)> = Vec::new();
            block_ms.push(member("text", Json::Str(text)));
            block_ms.push(member("type", jstr("text")));
            proof {
                lemma_view_members_index(block_ms@);
                assert(view_members(block_ms@) =~= seq![
                    ("text"@, JsonVal::Str(textv)),
                    ("type"@, JsonVal::Str("text"@)),
                ]);
            }
            let mut items: Vec<Json> = Vec::new();
            items.push(Json::Obj(block_ms));
            proof {
                lemma_view_items_index(items@);
            }
            let mut ms: Vec<(String, Json)> = Vec::new();
            ms.push(member("content", Json::Arr(items)));
            proof {
                lemma_view_members_index(ms@);
                assert(view_members(ms@) =~= content_payload(textv)->Obj_0);
            }
            Response { id, result: Some(Json::Obj(ms)), error: None }
        },
        Err(msg) => {
            let message = String::from_str("Failed to get weather: ").concat(msg.as_str());
            Response {
                id,
                result: None,
                error: Some(RpcError { code: ErrCode::Internal, message, data: None }),
            }
        },
    }
}

} // verus!
