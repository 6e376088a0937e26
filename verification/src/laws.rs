//! The protocol's standing guarantees, each proved once and for all.

use vstd::prelude::*;
use crate::json::JsonVal;
use crate::protocol::{ReqModel, RespModel, ErrModel, ErrCode, spec_should_emit, val_get};
use crate::dispatch::{OutcomeModel, PlanModel, ForecastKind, spec_dispatch,
    spec_finish, tool_params, tools_payload, notif_prefix, default_latitude, default_longitude,
    empty_obj};
use crate::conv::is_prefix;

verus! {

proof fn lemma_method_facts()
    ensures
        "tools/list"@ != "initialize"@,
        "tools/list"@ != "initialized"@,
        "tools/call"@ != "initialize"@,
        "tools/call"@ != "initialized"@,
        "tools/call"@ != "tools/list"@,
        "tools/call"@ != "resources/list"@,
        "tools/call"@ != "prompts/list"@,
        !is_prefix("notifications/"@, "tools/list"@),
        !is_prefix("notifications/"@, "tools/call"@),
{
    reveal_strlit("tools/list");
    reveal_strlit("tools/call");
    reveal_strlit("initialize");
    reveal_strlit("initialized");
    reveal_strlit("resources/list");
    reveal_strlit("prompts/list");
    reveal_strlit("notifications/");
    assert("tools/list"@[0] != "initialize"@[0]);
    assert("tools/call"@[0] != "initialize"@[0]);
    assert("tools/call"@[6] != "tools/list"@[6]);
    assert("tools/call"@[0] != "resources/list"@[0]);
    assert("tools/call"@[0] != "prompts/list"@[0]);
    assert("notifications/"@.len() > "tools/list"@.len());
    assert("notifications/"@.len() > "tools/call"@.len());
}

/// Law: a reply carries the request's id unchanged, and so does the id
/// a fetch plan sets aside — whichever branch of the table answered.
pub proof fn lemma_reply_echoes_id(req: ReqModel)
    ensures
        spec_dispatch(req) matches OutcomeModel::Reply(r) ==> r.id == req.id,
        spec_dispatch(req) matches OutcomeModel::Fetch(id, _) ==> id == req.id,
{
}

/// Law: the response built from a fetch's outcome carries the id that
/// was set aside for it, success or failure.
pub proof fn lemma_finish_echoes_id(id: Option<JsonVal>, fetched: Result<Seq<char>, Seq<char>>)
    ensures
        spec_finish(id, fetched).id == id,
{
}

/// Law: a request without an id, outside the notification prefix, whose
/// dispatch produced no error, yields no emitted line — neither as an
/// immediate reply nor after a successful fetch.
pub proof fn lemma_notification_silent(req: ReqModel, text: Seq<char>)
    requires
        req.id is None,
        !is_prefix(notif_prefix(), req.method),
    ensures
        spec_dispatch(req) matches OutcomeModel::Reply(r) ==> (r.error is None
            ==> !spec_should_emit(r)),
        spec_dispatch(req) matches OutcomeModel::Fetch(id, _)
            ==> !spec_should_emit(spec_finish(id, Ok(text))),
{
    lemma_reply_echoes_id(req);
}

/// Law: `tools/list` answers the static registry, whatever the params.
pub proof fn lemma_tools_list_static(req: ReqModel)
    requires
        req.method == "tools/list"@,
    ensures
        spec_dispatch(req) == OutcomeModel::Reply(
            RespModel { id: req.id, result: Some(tools_payload()), error: None },
        ),
{
    lemma_method_facts();
}

/// Law: two `tools/list` requests get the same result, whatever their
/// params or ids.
pub proof fn lemma_tools_list_ignores_params(a: ReqModel, b: ReqModel)
    requires
        a.method == "tools/list"@,
        b.method == "tools/list"@,
    ensures
        (spec_dispatch(a)->Reply_0).result == (spec_dispatch(b)->Reply_0).result,
{
    lemma_tools_list_static(a);
    lemma_tools_list_static(b);
}

/// Law: calling `get_weather` without arguments falls back to the fixed
/// default coordinates, the unknown-location name, and the current
/// forecast.
pub proof fn lemma_get_weather_defaults(req: ReqModel)
    requires
        req.method == "tools/call"@,
        val_get(tool_params(req), "name"@) == Some(JsonVal::Str("get_weather"@)),
        val_get(tool_params(req), "arguments"@) is None,
    ensures
        spec_dispatch(req) == OutcomeModel::Fetch(
            req.id,
            PlanModel {
                latitude: default_latitude(),
                longitude: default_longitude(),
                location_name: "Unknown Location"@,
                forecast: ForecastKind::Current,
            },
        ),
{
    lemma_method_facts();
    assert(val_get(empty_obj(), "latitude"@) is None);
    assert(val_get(empty_obj(), "longitude"@) is None);
    assert(val_get(empty_obj(), "location_name"@) is None);
    assert(val_get(empty_obj(), "forecast_type"@) is None);
}

/// Law: calling a tool that is not registered answers a
/// method-not-found error whose message names the tool.
pub proof fn lemma_unknown_tool(req: ReqModel, name: Seq<char>)
    requires
        req.method == "tools/call"@,
        val_get(tool_params(req), "name"@) == Some(JsonVal::Str(name)),
        name != "get_weather"@,
    ensures
        spec_dispatch(req) == OutcomeModel::Reply(
            RespModel {
                id: req.id,
                result: None,
                error: Some(
                    ErrModel {
                        code: ErrCode::MethodNotFound,
                        message: "Unknown tool: "@ + name,
                        data: None,
                    },
                ),
            },
        ),
{
    lemma_method_facts();
}

/// Law: a method outside the table (and outside the notification
/// prefix) answers a method-not-found error whose message names the
/// method.
pub proof fn lemma_unknown_method(req: ReqModel)
    requires
        !is_prefix(notif_prefix(), req.method),
        req.method != "initialize"@,
        req.method != "initialized"@,
        req.method != "tools/list"@,
        req.method != "resources/list"@,
        req.method != "prompts/list"@,
        req.method != "tools/call"@,
    ensures
        spec_dispatch(req) == OutcomeModel::Reply(
            RespModel {
                id: req.id,
                result: None,
                error: Some(
                    ErrModel {
                        code: ErrCode::MethodNotFound,
                        message: "Method not found: "@ + req.method,
                        data: None,
                    },
                ),
            },
        ),
{
}

} // verus!
