use yr_weather_mcp::json::Json;
use yr_weather_mcp::decode::decode_json;
use yr_weather_mcp::protocol::{LineStep, Response, ErrCode, code_value, step_line, should_emit,
    encode_response, get_field};
use yr_weather_mcp::dispatch::{Outcome, ForecastKind, dispatch, finish_fetch};

fn chars(s: &str) -> Vec<char> {
    s.chars().collect()
}

fn ready(line: &str) -> yr_weather_mcp::protocol::Request {
    match step_line(&chars(line)) {
        LineStep::Ready(req) => req,
        other => panic!("line did not decode to a request: {:?}", other),
    }
}

fn reply(line: &str) -> Response {
    match dispatch(ready(line)) {
        Outcome::Reply(r) => r,
        other => panic!("dispatch did not reply at once: {:?}", other),
    }
}

fn str_of(j: &Json) -> &str {
    match j {
        Json::Str(s) => s.as_str(),
        other => panic!("not a string: {:?}", other),
    }
}

#[test]
fn blank_line_is_skipped_silently() {
    assert!(matches!(step_line(&chars("")), LineStep::Blank));
    assert!(matches!(step_line(&chars("   \t ")), LineStep::Blank));
}

#[test]
fn malformed_line_is_flagged() {
    assert!(matches!(step_line(&chars("{oops")), LineStep::Malformed));
    assert!(matches!(step_line(&chars("[1,2]")), LineStep::Malformed));
    assert!(matches!(step_line(&chars("{\"id\":1,\"method\":\"x\"}")), LineStep::Malformed));
}

#[test]
fn null_id_counts_as_absent() {
    let req = ready("{\"jsonrpc\":\"2.0\",\"id\":null,\"method\":\"initialized\"}");
    assert_eq!(req.id, None);
}

#[test]
fn tools_list_scenario() {
    let resp = reply("{\"jsonrpc\":\"2.0\",\"id\":1,\"method\":\"tools/list\"}");
    assert!(should_emit(&resp));
    let line = encode_response(&resp);
    let out = decode_json(&chars(&line)).unwrap();
    assert_eq!(get_field(&out, "id"), Some(&Json::Num(String::from("1"))));
    let result = get_field(&out, "result").unwrap();
    let tools = match get_field(result, "tools").unwrap() {
        Json::Arr(items) => items,
        other => panic!("tools is not an array: {:?}", other),
    };
    assert_eq!(tools.len(), 1);
    assert_eq!(str_of(get_field(&tools[0], "name").unwrap()), "get_weather");
}

#[test]
fn initialized_notification_gets_no_output() {
    let resp = reply("{\"jsonrpc\":\"2.0\",\"method\":\"initialized\"}");
    assert!(!should_emit(&resp));
}

#[test]
fn initialize_reports_the_fixed_identity() {
    let resp = reply("{\"jsonrpc\":\"2.0\",\"id\":\"init-1\",\"method\":\"initialize\"}");
    assert_eq!(resp.id, Some(Json::Str(String::from("init-1"))));
    let result = resp.result.as_ref().unwrap();
    assert_eq!(str_of(get_field(result, "protocolVersion").unwrap()), "2025-06-18");
    let info = get_field(result, "serverInfo").unwrap();
    assert_eq!(str_of(get_field(info, "name").unwrap()), "yr-weather-mcp");
    assert_eq!(str_of(get_field(info, "version").unwrap()), "0.1.0");
}

#[test]
fn id_is_echoed_with_its_type() {
    let with_num = reply("{\"jsonrpc\":\"2.0\",\"id\":1.5,\"method\":\"resources/list\"}");
    assert_eq!(with_num.id, Some(Json::Num(String::from("1.5"))));
    let with_str = reply("{\"jsonrpc\":\"2.0\",\"id\":\"abc\",\"method\":\"prompts/list\"}");
    assert_eq!(with_str.id, Some(Json::Str(String::from("abc"))));
}

#[test]
fn unknown_method_names_it() {
    let resp = reply("{\"jsonrpc\":\"2.0\",\"id\":3,\"method\":\"foo/bar\"}");
    assert!(should_emit(&resp));
    assert_eq!(resp.result, None);
    let err = resp.error.as_ref().unwrap();
    assert_eq!(code_value(err.code), -32601);
    assert_eq!(err.message, "Method not found: foo/bar");
    let line = encode_response(&resp);
    assert!(line.contains("-32601"));
}

#[test]
fn unknown_tool_names_it() {
    let resp = reply(
        "{\"jsonrpc\":\"2.0\",\"id\":4,\"method\":\"tools/call\",\"params\":{\"name\":\"nonexistent\"}}",
    );
    let err = resp.error.as_ref().unwrap();
    assert_eq!(code_value(err.code), -32601);
    assert_eq!(err.message, "Unknown tool: nonexistent");
}

#[test]
fn tool_call_without_name_is_invalid() {
    let resp = reply("{\"jsonrpc\":\"2.0\",\"id\":5,\"method\":\"tools/call\",\"params\":{}}");
    let err = resp.error.as_ref().unwrap();
    assert_eq!(code_value(err.code), -32602);
    assert_eq!(err.message, "Invalid parameters");
    let no_params = reply("{\"jsonrpc\":\"2.0\",\"id\":6,\"method\":\"tools/call\"}");
    assert_eq!(code_value(no_params.error.as_ref().unwrap().code), -32602);
}

#[test]
fn get_weather_without_arguments_uses_defaults() {
    let req = ready(
        "{\"jsonrpc\":\"2.0\",\"id\":7,\"method\":\"tools/call\",\"params\":{\"name\":\"get_weather\"}}",
    );
    match dispatch(req) {
        Outcome::Fetch(id, plan) => {
            assert_eq!(id, Some(Json::Num(String::from("7"))));
            assert_eq!(plan.latitude, "37.5665");
            assert_eq!(plan.longitude, "126.9780");
            assert_eq!(plan.location_name, "Unknown Location");
            assert_eq!(plan.forecast, ForecastKind::Current);
        },
        other => panic!("expected a fetch plan: {:?}", other),
    }
}

#[test]
fn get_weather_arguments_are_taken_verbatim() {
    let req = ready(
        "{\"jsonrpc\":\"2.0\",\"id\":8,\"method\":\"tools/call\",\"params\":{\"name\":\"get_weather\",\"arguments\":{\"latitude\":59.91,\"longitude\":10.75,\"location_name\":\"Oslo\",\"forecast_type\":\"weekly\"}}}",
    );
    match dispatch(req) {
        Outcome::Fetch(_, plan) => {
            assert_eq!(plan.latitude, "59.91");
            assert_eq!(plan.longitude, "10.75");
            assert_eq!(plan.location_name, "Oslo");
            assert_eq!(plan.forecast, ForecastKind::Weekly);
        },
        other => panic!("expected a fetch plan: {:?}", other),
    }
}

#[test]
fn bad_argument_types_fall_back() {
    let req = ready(
        "{\"jsonrpc\":\"2.0\",\"id\":9,\"method\":\"tools/call\",\"params\":{\"name\":\"get_weather\",\"arguments\":{\"latitude\":\"north\",\"forecast_type\":\"hourly\"}}}",
    );
    match dispatch(req) {
        Outcome::Fetch(_, plan) => {
            assert_eq!(plan.latitude, "37.5665");
            assert_eq!(plan.forecast, ForecastKind::Current);
        },
        other => panic!("expected a fetch plan: {:?}", other),
    }
}

#[test]
fn fetch_success_becomes_a_text_block() {
    let resp = finish_fetch(
        Some(Json::Num(String::from("7"))),
        Ok(String::from("Sunny, 21\u{b0}C")),
    );
    assert!(should_emit(&resp));
    let result = resp.result.as_ref().unwrap();
    let blocks = match get_field(result, "content").unwrap() {
        Json::Arr(items) => items,
        other => panic!("content is not an array: {:?}", other),
    };
    assert_eq!(str_of(get_field(&blocks[0], "type").unwrap()), "text");
    assert_eq!(str_of(get_field(&blocks[0], "text").unwrap()), "Sunny, 21\u{b0}C");
}

#[test]
fn fetch_failure_becomes_an_internal_error() {
    let resp = finish_fetch(Some(Json::Num(String::from("7"))), Err(String::from("timed out")));
    let err = resp.error.as_ref().unwrap();
    assert_eq!(code_value(err.code), -32603);
    assert_eq!(err.message, "Failed to get weather: timed out");
}

#[test]
fn fetch_without_id_stays_silent_on_success() {
    let ok = finish_fetch(None, Ok(String::from("fine")));
    assert!(!should_emit(&ok));
    let failed = finish_fetch(None, Err(String::from("down")));
    assert!(should_emit(&failed));
}

#[test]
fn notification_prefixed_method_answers_an_empty_success() {
    let silent = reply("{\"jsonrpc\":\"2.0\",\"method\":\"notifications/initialized\"}");
    assert!(!should_emit(&silent));
    assert_eq!(silent.result, Some(Json::Null));
    let with_id = reply("{\"jsonrpc\":\"2.0\",\"id\":5,\"method\":\"notifications/initialized\"}");
    assert!(should_emit(&with_id));
    assert_eq!(with_id.id, Some(Json::Num(String::from("5"))));
    assert_eq!(with_id.result, Some(Json::Null));
}

#[test]
fn tools_list_ignores_params() {
    let plain = reply("{\"jsonrpc\":\"2.0\",\"id\":1,\"method\":\"tools/list\"}");
    let with_params =
        reply("{\"jsonrpc\":\"2.0\",\"id\":2,\"method\":\"tools/list\",\"params\":{\"x\":9}}");
    assert_eq!(plain.result, with_params.result);
}

#[test]
fn dispatcher_output_survives_the_codec() {
    let lines = vec![
        "{\"jsonrpc\":\"2.0\",\"id\":1,\"method\":\"tools/list\"}",
        "{\"jsonrpc\":\"2.0\",\"id\":\"a\",\"method\":\"initialize\"}",
        "{\"jsonrpc\":\"2.0\",\"id\":2,\"method\":\"nope\"}",
    ];
    for line in lines {
        let resp = reply(line);
        let encoded = encode_response(&resp);
        let back =
            yr_weather_mcp::protocol::decode_response(&chars(&encoded)).unwrap();
        assert_eq!(back, resp);
    }
}

#[test]
fn initialize_line_is_byte_exact() {
    let resp = reply("{\"jsonrpc\":\"2.0\",\"id\":1,\"method\":\"initialize\"}");
    assert_eq!(
        encode_response(&resp),
        "{\"jsonrpc\":\"2.0\",\"id\":1,\"result\":{\"capabilities\":{\"tools\":{}},\"protocolVersion\":\"2025-06-18\",\"serverInfo\":{\"name\":\"yr-weather-mcp\",\"version\":\"0.1.0\"}}}"
    );
}

#[test]
fn error_codes_are_the_reserved_ones() {
    assert_eq!(code_value(ErrCode::MethodNotFound), -32601);
    assert_eq!(code_value(ErrCode::InvalidParams), -32602);
    assert_eq!(code_value(ErrCode::Internal), -32603);
}
