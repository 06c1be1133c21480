use cowatcher::rpc::{
    route, RpcError, RpcStep, INVALID_PARAMS, METHOD_NOT_FOUND, PARSE_ERROR, PROTOCOL_VERSION,
};
use cowatcher::tools::{ArgValue, ToolArgs};

fn params(entries: Vec<(&str, &str)>) -> ToolArgs {
    let mut a = ToolArgs::new();
    for (k, v) in entries {
        a.push(k, ArgValue::Str(v.to_string()));
    }
    a
}

#[test]
fn a_notification_gets_no_reply() {
    assert_eq!(route(false, "notifications/initialized", &ToolArgs::new()), RpcStep::NoReply);
}

#[test]
fn an_unknown_method_is_a_json_rpc_error() {
    match route(true, "does/not/exist", &ToolArgs::new()) {
        RpcStep::Fail(RpcError { code, message }) => {
            assert_eq!(code, -32601);
            assert_eq!(code, METHOD_NOT_FOUND);
            assert_eq!(message, "method not found: does/not/exist");
        }
        other => panic!("expected an error, got {other:?}"),
    }
}

#[test]
fn malformed_json_is_a_parse_error() {
    let e = RpcError::parse("expected value at line 1 column 2");
    assert_eq!(e.code, -32700);
    assert_eq!(e.code, PARSE_ERROR);
    assert_eq!(e.message, "parse error: expected value at line 1 column 2");
}

#[test]
fn initialize_echoes_the_client_version_or_offers_ours() {
    assert_eq!(
        route(true, "initialize", &params(vec![("protocolVersion", "2024-11-05")])),
        RpcStep::Initialize { protocol_version: "2024-11-05".into() }
    );
    assert_eq!(
        route(true, "initialize", &ToolArgs::new()),
        RpcStep::Initialize { protocol_version: PROTOCOL_VERSION.into() }
    );
    assert_eq!(PROTOCOL_VERSION, "2025-06-18");
}

#[test]
fn a_tool_call_needs_a_tool_name() {
    assert_eq!(
        route(true, "tools/call", &params(vec![("name", "list_devices")])),
        RpcStep::CallTool { name: "list_devices".into() }
    );
    assert_eq!(
        route(true, "tools/call", &ToolArgs::new()),
        RpcStep::Fail(RpcError { code: INVALID_PARAMS, message: "tools/call needs a tool name".into() })
    );
}

#[test]
fn only_the_operator_prompt_and_skill_resource_exist() {
    assert_eq!(route(true, "prompts/get", &params(vec![("name", "cowatcher_operator")])), RpcStep::GetPrompt);
    assert_eq!(
        route(true, "prompts/get", &params(vec![("name", "other")])),
        RpcStep::Fail(RpcError { code: -32602, message: "no such prompt: other".into() })
    );
    assert_eq!(
        route(true, "resources/read", &params(vec![("uri", "cowatcher:///skill")])),
        RpcStep::ReadResource { uri: "cowatcher:///skill".into() }
    );
    assert_eq!(
        route(true, "resources/read", &ToolArgs::new()),
        RpcStep::Fail(RpcError { code: -32602, message: "no such resource: ".into() })
    );
}

#[test]
fn listing_methods_and_ping_need_no_parameters() {
    let none = ToolArgs::new();
    assert_eq!(route(true, "ping", &none), RpcStep::Ping);
    assert_eq!(route(true, "tools/list", &none), RpcStep::ListTools);
    assert_eq!(route(true, "prompts/list", &none), RpcStep::ListPrompts);
    assert_eq!(route(true, "resources/list", &none), RpcStep::ListResources);
}
