use palmier_pro::json::Json;
use palmier_pro::mcp::{
    answer_response, dispatch, event_payload, initialize_result, missing_params_response, parse_error_response,
    plan_request, resource_contents,
    rpc_response, tool_call_answer, tool_call_parts, tool_definitions, tool_result_error, tool_result_text, tools_list,
    wants_event_stream, RpcError, RpcPlan, RpcRequest,
};

fn text(s: &str) -> Json {
    Json::Str(s.to_string())
}

fn obj(entries: Vec<(&str, Json)>) -> Json {
    Json::Object(entries.into_iter().map(|(k, v)| (k.to_string(), v)).collect())
}

fn request(id: Option<Json>, method: &str, params: Option<Json>) -> RpcRequest {
    RpcRequest { id, method: method.to_string(), params }
}

#[test]
fn tool_definitions_name_ten_tools() {
    let defs = tool_definitions();
    let names: Vec<String> = defs.iter().map(|d| d.get("name").unwrap().as_str().unwrap().clone()).collect();
    assert_eq!(
        names,
        vec![
            "get_timeline",
            "get_media",
            "import_media",
            "add_clips",
            "remove_clips",
            "move_clips",
            "set_clip_properties",
            "split_clip",
            "undo",
            "export_video",
        ]
    );
    for d in &defs {
        assert_eq!(d.get("inputSchema").unwrap().get("type"), Some(&text("object")));
    }
    assert_eq!(tools_list(), obj(vec![("tools", Json::Array(tool_definitions()))]));
}

#[test]
fn tool_results_wrap_text() {
    let ok = tool_result_text("{}".to_string());
    assert_eq!(ok.get("isError"), Some(&Json::Bool(false)));
    let content = ok.get("content").unwrap().as_array().unwrap();
    assert_eq!(content[0], obj(vec![("type", text("text")), ("text", text("{}"))]));
    let err = tool_result_error("boom");
    assert_eq!(err.get("isError"), Some(&Json::Bool(true)));
    assert_eq!(err.get("content").unwrap().as_array().unwrap()[0].get("text"), Some(&text("boom")));
}

#[test]
fn initialize_answers_protocol_and_server() {
    let r = dispatch("initialize", None, "{}").unwrap();
    assert_eq!(r, initialize_result());
    assert_eq!(r.get("protocolVersion"), Some(&text("2024-11-05")));
    let info = r.get("serverInfo").unwrap();
    assert_eq!(info.get("name"), Some(&text("palmier-pro")));
    assert_eq!(info.get("version"), Some(&text("1.0.0")));
}

#[test]
fn ping_and_initialized_answer_empty_objects() {
    assert_eq!(dispatch("ping", None, "{}"), Ok(obj(vec![])));
    assert_eq!(dispatch("notifications/initialized", None, "{}"), Ok(obj(vec![])));
    assert_eq!(dispatch("initialized", None, "{}"), Ok(obj(vec![])));
}

#[test]
fn unknown_method_and_resource() {
    assert_eq!(dispatch("nope", None, "{}"), Err("method not found: nope".to_string()));
    let p = obj(vec![("uri", text("palmier://x"))]);
    assert_eq!(dispatch("resources/read", Some(&p), "{}"), Err("unknown resource: palmier://x".to_string()));
    assert_eq!(dispatch("resources/read", None, "{}"), Err("unknown resource: ".to_string()));
}

#[test]
fn platform_resource_is_read() {
    let p = obj(vec![("uri", text("palmier://platform/windows"))]);
    let r = dispatch("resources/read", Some(&p), "PLATFORM").unwrap();
    assert_eq!(r, resource_contents("palmier://platform/windows", "PLATFORM"));
    let item = &r.get("contents").unwrap().as_array().unwrap()[0];
    assert_eq!(item.get("text"), Some(&text("PLATFORM")));
    assert_eq!(item.get("mimeType"), Some(&text("application/json")));
    let list = dispatch("resources/list", None, "").unwrap();
    let res = &list.get("resources").unwrap().as_array().unwrap()[0];
    assert_eq!(res.get("uri"), Some(&text("palmier://platform/windows")));
}

#[test]
fn notifications_are_accepted() {
    assert!(matches!(plan_request(&request(None, "notifications/cancelled", None), ""), RpcPlan::Accepted));
    assert!(matches!(plan_request(&request(None, "initialized", None), ""), RpcPlan::Accepted));
}

#[test]
fn tool_calls_need_params() {
    match plan_request(&request(Some(Json::Int(3)), "tools/call", None), "") {
        RpcPlan::MissingParams { id } => assert_eq!(id, Json::Int(3)),
        _ => panic!("expected missing params"),
    }
    match plan_request(&request(None, "tools/call", Some(obj(vec![("name", text("undo"))]))), "") {
        RpcPlan::ToolCall { id, params } => {
            assert_eq!(id, Json::Null);
            assert_eq!(params, obj(vec![("name", text("undo"))]));
        },
        _ => panic!("expected a tool call"),
    }
}

#[test]
fn other_requests_are_answered() {
    match plan_request(&request(Some(text("a")), "ping", None), "") {
        RpcPlan::Answer { id, result } => {
            assert_eq!(id, text("a"));
            assert_eq!(result, Ok(obj(vec![])));
        },
        _ => panic!("expected an answer"),
    }
}

#[test]
fn responses_carry_version_id_and_outcome() {
    let ok = answer_response(Json::Int(1), Ok(obj(vec![])));
    assert_eq!(ok, obj(vec![("jsonrpc", text("2.0")), ("id", Json::Int(1)), ("result", obj(vec![]))]));
    let err = answer_response(Json::Int(2), Err("bad".to_string()));
    assert_eq!(
        err,
        obj(vec![
            ("jsonrpc", text("2.0")),
            ("id", Json::Int(2)),
            ("error", obj(vec![("code", Json::Int(-32000)), ("message", text("bad"))])),
        ])
    );
    let parse = rpc_response(None, None, Some(RpcError { code: -32700, message: "Parse error: x".to_string() }));
    assert_eq!(parse.get("id"), Some(&Json::Null));
    assert_eq!(parse.get("error").unwrap().get("code"), Some(&Json::Int(-32700)));
    assert_eq!(parse.get("result"), None);
}

#[test]
fn event_payloads_match_answers() {
    let id = Json::Int(7);
    let ok: Result<Json, String> = Ok(text("x"));
    assert_eq!(event_payload(&id, &ok), answer_response(Json::Int(7), Ok(text("x"))));
    let err: Result<Json, String> = Err("m".to_string());
    assert_eq!(event_payload(&id, &err), answer_response(Json::Int(7), Err("m".to_string())));
}

#[test]
fn event_stream_is_wanted_by_accept_header() {
    assert!(wants_event_stream("application/json, text/event-stream"));
    assert!(!wants_event_stream("application/json"));
    assert!(!wants_event_stream(""));
}

#[test]
fn tool_call_parts_read_name_and_arguments() {
    let p = obj(vec![("name", text("undo")), ("arguments", obj(vec![("a", Json::Int(1))]))]);
    assert_eq!(tool_call_parts(&p), Ok(("undo".to_string(), obj(vec![("a", Json::Int(1))]))));
    assert_eq!(tool_call_parts(&obj(vec![("name", text("undo"))])), Ok(("undo".to_string(), obj(vec![]))));
    assert_eq!(tool_call_parts(&obj(vec![])), Err("missing tool name".to_string()));
}

#[test]
fn tool_call_answers_wrap_outcomes() {
    assert_eq!(tool_call_answer(Ok("{}".to_string())), tool_result_text("{}".to_string()));
    assert_eq!(tool_call_answer(Err("no".to_string())), tool_result_error("no"));
}

#[test]
fn error_answers_for_bad_requests() {
    let err = |code: i64, msg: &str| obj(vec![("code", Json::Int(code)), ("message", text(msg))]);
    assert_eq!(
        missing_params_response(Json::Int(4)),
        obj(vec![("jsonrpc", text("2.0")), ("id", Json::Int(4)), ("error", err(-32602, "missing params"))])
    );
    assert_eq!(
        parse_error_response("EOF while parsing"),
        obj(vec![("jsonrpc", text("2.0")), ("id", Json::Null), ("error", err(-32700, "Parse error: EOF while parsing"))])
    );
}
