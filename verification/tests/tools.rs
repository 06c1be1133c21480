use cowatcher::actions::Action;
use cowatcher::tools::{
    arg_str, arg_u32, plan_ai_call, plan_fleet_call, AiCall, ArgValue, FleetCall, ToolArgs,
    ASK_USER,
};

fn args(entries: Vec<(&str, ArgValue)>) -> ToolArgs {
    let mut a = ToolArgs::new();
    for (k, v) in entries {
        a.push(k, v);
    }
    a
}

fn s(text: &str) -> ArgValue {
    ArgValue::Str(text.to_string())
}

#[test]
fn missing_arguments_are_reported_not_panicked() {
    let empty = ToolArgs::new();
    assert!(arg_str(&empty, "device_id").is_err());
    assert!(arg_u32(&empty, "app_id").is_err());
    let good = args(vec![("device_id", s("K7M2Q9")), ("app_id", ArgValue::Int(4))]);
    assert_eq!(arg_str(&good, "device_id"), Ok("K7M2Q9".to_string()));
    assert_eq!(arg_u32(&good, "app_id"), Ok(4));
}

#[test]
fn arg_helpers_report_missing_rather_than_panic() {
    let empty = ToolArgs::new();
    assert_eq!(
        arg_str(&empty, "device_id"),
        Err("missing required string argument 'device_id'".to_string())
    );
    assert_eq!(
        arg_u32(&empty, "app_id"),
        Err("missing or out-of-range integer argument 'app_id'".to_string())
    );
    let good = args(vec![("device_id", s("K7M2Q9")), ("app_id", ArgValue::Int(3))]);
    assert_eq!(arg_str(&good, "device_id"), Ok("K7M2Q9".to_string()));
    assert_eq!(arg_u32(&good, "app_id"), Ok(3));
}

#[test]
fn an_integer_too_large_for_32_bits_is_out_of_range() {
    let big = args(vec![("pid", ArgValue::Int(1 << 40))]);
    assert!(arg_u32(&big, "pid").is_err());
}

#[test]
fn the_first_entry_for_a_key_is_the_one_read() {
    let twice = args(vec![("device_id", s("AAAAAA")), ("device_id", s("BBBBBB"))]);
    assert_eq!(arg_str(&twice, "device_id"), Ok("AAAAAA".to_string()));
}

#[test]
fn calling_an_unknown_tool_is_a_tool_error_not_a_crash() {
    let none = ToolArgs::new();
    assert!(matches!(plan_fleet_call("run_shell", &none), Err(m) if m == "unknown tool 'run_shell'"));
    assert!(matches!(plan_ai_call("run_shell", &none), Err(m) if m == "unknown tool 'run_shell'"));
}

#[test]
fn a_thumbnail_falls_back_to_monitor_zero_and_640_pixels() {
    let a = args(vec![("device_id", s("K7M2Q9")), ("max_width", ArgValue::Int(100_000))]);
    match plan_fleet_call("screen_thumbnail", &a) {
        Ok(FleetCall::ScreenThumbnail { device_id, monitor, max_width }) => {
            assert_eq!((device_id.as_str(), monitor, max_width), ("K7M2Q9", 0, 640));
        }
        _ => panic!("expected a thumbnail request"),
    }
}

#[test]
fn an_action_is_checked_before_the_device() {
    let a = args(vec![("action", s("format-c"))]);
    assert!(matches!(plan_fleet_call("perform_action", &a), Err(m) if m == "unknown action 'format-c'"));
    let b = args(vec![("action", s("shutdown")), ("delay_seconds", ArgValue::Int(30))]);
    assert!(matches!(
        plan_fleet_call("perform_action", &b),
        Err(m) if m == "missing required string argument 'device_id'"
    ));
    let c = args(vec![
        ("action", s("reboot")),
        ("delay_seconds", ArgValue::Int(60)),
        ("device_id", s("K7M2Q9")),
    ]);
    match plan_fleet_call("perform_action", &c) {
        Ok(FleetCall::PerformAction { device_id, action }) => {
            assert_eq!(device_id, "K7M2Q9");
            assert_eq!(action, Action::Reboot { delay_seconds: 60 });
        }
        _ => panic!("expected an action"),
    }
}

#[test]
fn a_blocklist_keeps_only_the_string_items() {
    let a = args(vec![
        ("device_id", s("K7M2Q9")),
        ("programs", ArgValue::List(vec![Some("game.exe".into()), None, Some("steam.exe".into())])),
    ]);
    match plan_fleet_call("set_blocklist", &a) {
        Ok(FleetCall::SetBlocklist { programs, .. }) => {
            assert_eq!(programs, vec!["game.exe".to_string(), "steam.exe".to_string()]);
        }
        _ => panic!("expected a blocklist"),
    }
    let missing = args(vec![("device_id", s("K7M2Q9"))]);
    assert!(matches!(
        plan_fleet_call("set_blocklist", &missing),
        Err(m) if m == "missing required array argument 'programs'"
    ));
}

#[test]
fn a_wallpaper_must_be_real_base64_of_some_bytes() {
    let bad = args(vec![("device_id", s("K7M2Q9")), ("image_base64", s("%%%"))]);
    assert!(matches!(
        plan_fleet_call("set_wallpaper", &bad),
        Err(m) if m.starts_with("image_base64 is not valid base64: ")
    ));
    let empty = args(vec![("device_id", s("K7M2Q9")), ("image_base64", s(""))]);
    assert!(matches!(
        plan_fleet_call("set_wallpaper", &empty),
        Err(m) if m == "image_base64 decoded to no bytes"
    ));
    let good = args(vec![("device_id", s("K7M2Q9")), ("image_base64", s("/9j/"))]);
    match plan_fleet_call("set_wallpaper", &good) {
        Ok(FleetCall::SetWallpaper { image, .. }) => assert_eq!(image, vec![0xFF, 0xD8, 0xFF]),
        _ => panic!("expected a wallpaper"),
    }
}

#[test]
fn exam_mode_needs_a_boolean() {
    let a = args(vec![("device_id", s("K7M2Q9")), ("on", s("yes"))]);
    assert!(matches!(
        plan_fleet_call("set_exam", &a),
        Err(m) if m == "missing required boolean argument 'on'"
    ));
    assert!(matches!(plan_ai_call("set_exam", &a), Err(m) if m == "missing boolean 'on'"));
    let b = args(vec![("device_id", s("K7M2Q9")), ("on", ArgValue::Bool(true))]);
    match plan_ai_call("set_exam", &b) {
        Ok(AiCall::SetExam { device_id, on, message }) => {
            assert_eq!((device_id.as_str(), on, message.as_str()), ("K7M2Q9", true, ""));
        }
        _ => panic!("expected exam mode"),
    }
}

#[test]
fn the_assistant_checks_the_device_before_the_app() {
    let a = args(vec![("app_id", ArgValue::Int(3))]);
    assert!(matches!(
        plan_ai_call("launch_app", &a),
        Err(m) if m == "missing required string argument 'device_id'"
    ));
    assert!(matches!(
        plan_fleet_call("launch_app", &ToolArgs::new()),
        Err(m) if m == "missing or out-of-range integer argument 'app_id'"
    ));
}

#[test]
fn a_power_action_without_targets_goes_to_every_connected_pc() {
    let a = args(vec![("action", s("lock-screen"))]);
    match plan_ai_call("power_action", &a) {
        Ok(AiCall::PowerAction { action, targets }) => {
            assert_eq!(action, Action::LockScreen);
            assert!(targets.is_empty());
        }
        _ => panic!("expected a power action"),
    }
}

#[test]
fn ask_user_is_left_to_the_orchestrator() {
    assert!(matches!(
        plan_ai_call(ASK_USER, &ToolArgs::new()),
        Err(m) if m == "ask_user is handled by the orchestrator"
    ));
}

#[test]
fn a_wallpaper_encoded_by_the_console_decodes_to_the_same_bytes() {
    let bytes = vec![0u8, 1, 2, 250, 251, 252, 253];
    let encoded = cowatcher::encoding::base64(&bytes);
    let a = args(vec![("device_id", s("K7M2Q9")), ("image_base64", s(&encoded))]);
    match plan_fleet_call("set_wallpaper", &a) {
        Ok(FleetCall::SetWallpaper { image, .. }) => assert_eq!(image, bytes),
        _ => panic!("expected a wallpaper"),
    }
}
