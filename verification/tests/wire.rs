use cowatcher::wire::{anthropic_messages, anthropic_system, Block, Msg, Role, ToolCall};

fn call(id: &str) -> ToolCall {
    ToolCall { id: id.to_string(), name: "lock".to_string(), arguments: "{}".to_string() }
}

#[test]
fn anthropic_merges_consecutive_tool_results_into_one_user_turn() {
    let msgs = vec![
        Msg::User("lock 4 and 5".to_string()),
        Msg::Assistant { text: None, tool_calls: vec![call("a"), call("b")] },
        Msg::ToolResult { id: "a".to_string(), content: "ok".to_string() },
        Msg::ToolResult { id: "b".to_string(), content: "ok".to_string() },
    ];
    let arr = anthropic_messages(&msgs);
    // user, assistant(tool_use x2), then ONE user turn with two tool_result blocks.
    assert_eq!(arr.len(), 3);
    assert_eq!(arr[2].role, Role::User);
    assert_eq!(arr[2].content.len(), 2);
    assert!(matches!(arr[2].content[0], Block::ToolResult { .. }));
}

#[test]
fn the_brief_travels_apart_and_a_reply_keeps_its_text_before_its_calls() {
    let msgs = vec![
        Msg::System("brief".to_string()),
        Msg::User("lock pc 4".to_string()),
        Msg::Assistant { text: Some("Locking.".to_string()), tool_calls: vec![call("c1")] },
        Msg::ToolResult { id: "c1".to_string(), content: "{\"ok\":true}".to_string() },
        Msg::System("more".to_string()),
        Msg::User("thanks".to_string()),
    ];
    assert_eq!(anthropic_system(&msgs), "brief\n\nmore");
    let arr = anthropic_messages(&msgs);
    let roles: Vec<Role> = arr.iter().map(|m| m.role).collect();
    assert_eq!(roles, vec![Role::User, Role::Assistant, Role::User, Role::User]);
    assert!(matches!(&arr[1].content[0], Block::Text(t) if t == "Locking."));
    assert!(matches!(&arr[1].content[1], Block::ToolUse { id, name, input } if id == "c1" && name == "lock" && input == "{}"));
    assert!(matches!(&arr[2].content[..], [Block::ToolResult { id, content }] if id == "c1" && content == "{\"ok\":true}"));
    assert!(matches!(&arr[3].content[..], [Block::Text(t)] if t == "thanks"));
}

#[test]
fn results_at_the_end_are_still_sent() {
    let msgs = vec![
        Msg::Assistant { text: None, tool_calls: vec![call("x")] },
        Msg::ToolResult { id: "x".to_string(), content: "done".to_string() },
    ];
    let arr = anthropic_messages(&msgs);
    assert_eq!(arr.len(), 2);
    assert_eq!(arr[1].role, Role::User);
    assert_eq!(anthropic_system(&msgs), "");
}
