use yr_weather_mcp::json::Json;
use yr_weather_mcp::decode::decode_json;
use yr_weather_mcp::text::print_json;
use yr_weather_mcp::protocol::{Response, RpcError, ErrCode, decode_response, encode_response};

fn chars(s: &str) -> Vec<char> {
    s.chars().collect()
}

fn parse(s: &str) -> Option<Json> {
    decode_json(&chars(s))
}

fn printed(j: &Json) -> String {
    let mut out: Vec<char> = Vec::new();
    print_json(&mut out, j);
    out.into_iter().collect()
}

#[test]
fn parses_scalars() {
    assert_eq!(parse("null"), Some(Json::Null));
    assert_eq!(parse("true"), Some(Json::Bool(true)));
    assert_eq!(parse("false"), Some(Json::Bool(false)));
    assert_eq!(parse("42"), Some(Json::Num(String::from("42"))));
    assert_eq!(parse("-0.5e+10"), Some(Json::Num(String::from("-0.5e+10"))));
    assert_eq!(parse("\"hi\""), Some(Json::Str(String::from("hi"))));
}

#[test]
fn parses_nested_structures() {
    let got = parse("{\"a\":1,\"b\":[true,null,\"x\"]}").unwrap();
    let want = Json::Obj(vec![
        (String::from("a"), Json::Num(String::from("1"))),
        (
            String::from("b"),
            Json::Arr(vec![Json::Bool(true), Json::Null, Json::Str(String::from("x"))]),
        ),
    ]);
    assert_eq!(got, want);
}

#[test]
fn parses_with_whitespace() {
    let got = parse(" { \"a\" : [ 1 , 2 ] } ").unwrap();
    let want = Json::Obj(vec![(
        String::from("a"),
        Json::Arr(vec![Json::Num(String::from("1")), Json::Num(String::from("2"))]),
    )]);
    assert_eq!(got, want);
}

#[test]
fn parses_string_escapes() {
    let got = parse("\"a\\n\\t\\\"\\\\\\/\\u0041\\u00e9\"").unwrap();
    assert_eq!(got, Json::Str(String::from("a\n\t\"\\/A\u{e9}")));
}

#[test]
fn rejects_malformed_documents() {
    assert_eq!(parse(""), None);
    assert_eq!(parse("tru"), None);
    assert_eq!(parse("{"), None);
    assert_eq!(parse("[1,]"), None);
    assert_eq!(parse("{\"a\":}"), None);
    assert_eq!(parse("{\"a\" 1}"), None);
    assert_eq!(parse("[1 2]"), None);
    assert_eq!(parse("\"\\x\""), None);
    assert_eq!(parse("\"unterminated"), None);
    assert_eq!(parse("01"), None);
    assert_eq!(parse("1."), None);
    assert_eq!(parse("+1"), None);
    assert_eq!(parse(".5"), None);
    assert_eq!(parse("1e"), None);
    assert_eq!(parse("{} {}"), None);
    assert_eq!(parse("\"\\ud800\""), None);
}

#[test]
fn number_text_is_kept_verbatim() {
    assert_eq!(parse("37.5665"), Some(Json::Num(String::from("37.5665"))));
    assert_eq!(parse("1e999"), Some(Json::Num(String::from("1e999"))));
}

#[test]
fn printing_escapes_strings() {
    let j = Json::Str(String::from("a\"b\\c\nd\u{1}"));
    assert_eq!(printed(&j), "\"a\\\"b\\\\c\\nd\\u0001\"");
}

#[test]
fn printing_then_parsing_is_identity() {
    let j = Json::Obj(vec![
        (String::from("k"), Json::Arr(vec![Json::Num(String::from("-2.5")), Json::Null])),
        (String::from("s"), Json::Str(String::from("line\nbreak \u{263a}"))),
    ]);
    assert_eq!(parse(&printed(&j)), Some(j));
}

#[test]
fn response_lines_are_compact_and_ordered() {
    let r = Response {
        id: Some(Json::Num(String::from("2"))),
        result: Some(Json::Obj(Vec::new())),
        error: None,
    };
    assert_eq!(encode_response(&r), "{\"jsonrpc\":\"2.0\",\"id\":2,\"result\":{}}");
}

#[test]
fn absent_id_serializes_as_null() {
    let r = Response {
        id: None,
        result: None,
        error: Some(RpcError {
            code: ErrCode::Internal,
            message: String::from("boom"),
            data: None,
        }),
    };
    assert_eq!(
        encode_response(&r),
        "{\"jsonrpc\":\"2.0\",\"id\":null,\"error\":{\"code\":-32603,\"message\":\"boom\"}}"
    );
}

#[test]
fn encoded_responses_decode_back() {
    let samples = vec![
        Response {
            id: Some(Json::Str(String::from("q-1"))),
            result: Some(Json::Arr(vec![Json::Bool(false)])),
            error: None,
        },
        Response { id: Some(Json::Num(String::from("7"))), result: Some(Json::Null), error: None },
        Response {
            id: None,
            result: None,
            error: Some(RpcError {
                code: ErrCode::MethodNotFound,
                message: String::from("Method not found: x"),
                data: None,
            }),
        },
    ];
    for r in samples {
        let line = encode_response(&r);
        let back = decode_response(&chars(&line)).unwrap();
        assert_eq!(back, r);
    }
}
