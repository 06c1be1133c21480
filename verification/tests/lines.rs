use cowatcher::json::{tool_args_of_json, JsonValue};
use cowatcher::rpc::{answer_line, LineStep, RpcError, RpcStep};
use cowatcher::tools::{plan_fleet_call, ArgValue};

#[test]
fn a_line_that_is_not_json_gets_the_parse_error() {
    match answer_line("{not json") {
        LineStep::Malformed(RpcError { code, message }) => {
            assert_eq!(code, -32700);
            assert!(message.starts_with("parse error: "));
        }
        other => panic!("expected a parse error, got {other:?}"),
    }
}

#[test]
fn a_notification_line_gets_no_reply() {
    assert!(matches!(
        answer_line(r#"{"jsonrpc":"2.0","method":"notifications/initialized"}"#),
        LineStep::NoReply
    ));
    assert!(matches!(answer_line("[1, 2]"), LineStep::NoReply));
}

#[test]
fn a_request_is_routed_under_its_id() {
    match answer_line(r#"{"jsonrpc":"2.0","id":3,"method":"does/not/exist"}"#) {
        LineStep::Reply { id: JsonValue::Number(n), step: RpcStep::Fail(e), .. } => {
            assert_eq!(n, "3");
            assert_eq!(e.code, -32601);
        }
        other => panic!("expected an error reply, got {other:?}"),
    }
    match answer_line(r#"{"jsonrpc":"2.0","id":"a","method":"tools/list"}"#) {
        LineStep::Reply { id: JsonValue::Str(s), step: RpcStep::ListTools, .. } => assert_eq!(s, "a"),
        other => panic!("expected the tool list, got {other:?}"),
    }
}

#[test]
fn a_tool_call_line_carries_its_arguments() {
    let line = r#"{"jsonrpc":"2.0","id":4,"method":"tools/call","params":{"name":"launch_app","arguments":{"device_id":"K7M2Q9","app_id":7,"x":[1,"a"],"neg":-2}}}"#;
    match answer_line(line) {
        LineStep::Reply { step: RpcStep::CallTool { name }, arguments, .. } => {
            assert_eq!(name, "launch_app");
            assert_eq!(arguments.entries.len(), 4);
            let get = |key: &str| arguments.entries.iter().find(|(k, _)| k == key).map(|(_, v)| v.clone());
            assert_eq!(get("app_id"), Some(ArgValue::Int(7)));
            assert_eq!(get("neg"), Some(ArgValue::Other));
            assert_eq!(get("x"), Some(ArgValue::List(vec![None, Some("a".to_string())])));
            let ok = plan_fleet_call(&name, &arguments);
            assert!(ok.is_ok());
        }
        other => panic!("expected a tool call, got {other:?}"),
    }
    let unknown = r#"{"jsonrpc":"2.0","id":4,"method":"tools/call","params":{"name":"nope","arguments":{}}}"#;
    match answer_line(unknown) {
        LineStep::Reply { step: RpcStep::CallTool { name }, arguments, .. } => {
            assert_eq!(plan_fleet_call(&name, &arguments).err(), Some("unknown tool 'nope'".to_string()));
        }
        other => panic!("expected a tool call, got {other:?}"),
    }
}

#[test]
fn tool_arguments_come_from_json_text() {
    let args = tool_args_of_json(r#"{"device_id":"K7M2Q9","on":true}"#);
    assert_eq!(args.entries.len(), 2);
    assert!(args.entries.iter().any(|(k, v)| k == "on" && *v == ArgValue::Bool(true)));
    assert!(tool_args_of_json("not json").entries.is_empty());
    assert!(tool_args_of_json("[1]").entries.is_empty());
}
