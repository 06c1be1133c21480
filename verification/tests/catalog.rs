use cowatcher::actions::parse_action;
use cowatcher::catalog::{action_choices, ai_tools, fleet_tools, ParamType};
use cowatcher::tools::{plan_ai_call, plan_fleet_call, ToolArgs};

#[test]
fn catalogue_lists_the_expected_tools_with_schemas() {
    let tools = fleet_tools();
    let names: Vec<&str> = tools.iter().map(|t| t.name.as_str()).collect();
    for expected in [
        "list_devices",
        "device_status",
        "screen_thumbnail",
        "launch_app",
        "perform_action",
        "set_wallpaper",
        "set_exam",
    ] {
        assert!(names.contains(&expected), "missing tool {expected}");
    }
    // Every tool describes its arguments, each under a name of its own.
    for t in &tools {
        for (i, p) in t.params.iter().enumerate() {
            assert!(!p.name.is_empty(), "tool {} has an unnamed argument", t.name);
            assert!(t.params[..i].iter().all(|q| q.name != p.name), "tool {} repeats {}", t.name, p.name);
        }
    }
}

#[test]
fn every_spec_has_an_object_schema_and_ask_user_is_present() {
    let specs = ai_tools();
    assert!(specs.iter().any(|s| s.name == "ask_user"));
    assert!(specs.iter().any(|s| s.name == "power_action"));
    for s in &specs {
        assert!(s.params.iter().all(|p| !p.name.is_empty()), "{} lacks a named argument", s.name);
    }
}

#[test]
fn the_fleet_catalogue_offers_fifteen_tools_the_planner_knows() {
    let tools = fleet_tools();
    assert_eq!(tools.len(), 15);
    let none = ToolArgs::new();
    for t in &tools {
        match plan_fleet_call(&t.name, &none) {
            Ok(_) => {}
            Err(m) => assert!(!m.starts_with("unknown tool"), "{} is refused: {m}", t.name),
        }
    }
    assert_eq!(
        plan_fleet_call("format_disk", &none).err(),
        Some("unknown tool 'format_disk'".to_string())
    );
}

#[test]
fn the_assistant_catalogue_offers_the_tools_its_planner_knows() {
    let tools = ai_tools();
    assert_eq!(tools.len(), 12);
    let none = ToolArgs::new();
    for t in &tools {
        match plan_ai_call(&t.name, &none) {
            Ok(_) => {}
            Err(m) => assert!(!m.starts_with("unknown tool"), "{} is refused: {m}", t.name),
        }
    }
    assert_eq!(
        plan_ai_call("screen_thumbnail", &none).err(),
        Some("unknown tool 'screen_thumbnail'".to_string())
    );
}

#[test]
fn a_power_action_offers_exactly_the_named_actions() {
    let tools = fleet_tools();
    let perform = tools.iter().find(|t| t.name == "perform_action").expect("perform_action");
    let action = perform.params.iter().find(|p| p.name == "action").expect("action");
    assert_eq!(action.kind, ParamType::Text);
    assert!(action.required);
    assert_eq!(
        action.choices,
        vec![
            "shutdown",
            "reboot",
            "log-off",
            "lock-screen",
            "cancel-shutdown",
            "lock-wallpaper",
            "unlock-wallpaper"
        ]
    );
    let delay = perform.params.iter().find(|p| p.name == "delay_seconds").expect("delay");
    assert_eq!((delay.minimum, delay.maximum), (Some(0), Some(3600)));
}

#[test]
fn every_offered_action_is_one_a_pc_performs() {
    for name in action_choices() {
        assert!(parse_action(&name, 5).is_some(), "{name} is offered but not performed");
    }
    assert!(parse_action("format-c", 0).is_none());
}

#[test]
fn each_tool_requires_what_its_planner_reads() {
    let tools = fleet_tools();
    let launch = tools.iter().find(|t| t.name == "launch_app").expect("launch_app");
    let schema: Vec<(&str, ParamType, bool)> =
        launch.params.iter().map(|p| (p.name.as_str(), p.kind, p.required)).collect();
    assert_eq!(schema, vec![("device_id", ParamType::Text, true), ("app_id", ParamType::Integer, true)]);
    let ai = ai_tools();
    let ask = ai.iter().find(|t| t.name == "ask_user").expect("ask_user");
    let required: Vec<&str> = ask.params.iter().filter(|p| p.required).map(|p| p.name.as_str()).collect();
    assert_eq!(required, vec!["prompt", "options"]);
}
