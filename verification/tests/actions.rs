use cowatcher::audit::AuditLog;
use cowatcher::actions::{build_action, parse_action, Action, ActionFailure, ActionOutcome, ActionReport};

#[test]
fn every_action_name_parses_back_to_itself() {
    for name in ["shutdown", "reboot", "log-off", "lock-screen", "cancel-shutdown"] {
        assert_eq!(parse_action(name, 30).map(Action::name), Some(name));
    }
}

#[test]
fn an_unknown_action_name_is_refused() {
    assert_eq!(parse_action("format-c", 0), None);
}

#[test]
fn the_delay_reaches_power_actions() {
    assert_eq!(parse_action("reboot", 45), Some(Action::Reboot { delay_seconds: 45 }));
}

#[test]
fn only_the_named_actions_resolve() {
    assert!(build_action("shutdown", 30).is_some());
    assert!(build_action("lock-screen", 0).is_some());
    assert!(build_action("unlock-wallpaper", 0).is_some());
    assert!(build_action("format-c", 0).is_none());
    assert!(build_action("run", 0).is_none());
    assert!(build_action("", 0).is_none());
}

#[test]
fn a_started_shutdown_records_requested_and_actual_delay() {
    let text = cowatcher::audit::line(
        1_000,
        "CONSOLE",
        Action::Shutdown { delay_seconds: 9_000 },
        ActionOutcome::Started { delay_seconds: 300 },
        "",
    );
    assert_eq!(text, "1000\tCONSOLE\tshutdown\tdelay=9000s\tstarted in 300s");
}

#[test]
fn a_refusal_is_recorded_with_its_reason() {
    let text = cowatcher::audit::line(
        5,
        "CONSOLE",
        Action::CancelShutdown,
        ActionOutcome::Failed(ActionFailure::NothingScheduled),
        "nothing was scheduled to cancel",
    );
    assert!(text.ends_with("cancel-shutdown\t-\tfailed: nothing was scheduled to cancel"));
}

#[test]
fn reports_carry_codes_the_interface_translates() {
    let r = ActionReport::new(Action::LockScreen, ActionOutcome::Failed(ActionFailure::NotPermitted), 7);
    assert_eq!((r.action, r.result, r.delay_seconds, r.at_ms), ("lock-screen", "notPermitted", 0, 7));
    let s = ActionReport::new(Action::Reboot { delay_seconds: 60 }, ActionOutcome::Started { delay_seconds: 30 }, 8);
    assert_eq!((s.action, s.result, s.delay_seconds), ("reboot", "started", 30));
}

#[test]
fn an_audit_log_appends_to_the_path_it_was_given() {
    let log = AuditLog::new(std::path::Path::new("state/audit.log"));
    assert_eq!(log.path(), std::path::Path::new("state/audit.log"));
}
