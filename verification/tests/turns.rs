use cowatcher::ai::{after_reply, after_tools, check_key, TurnAction, MAX_TOOL_ROUNDS};
use cowatcher::provider::ProviderKind;
use cowatcher::recording::{
    after_tick, next_frame_due, start_problem, wants_second_pass, StartFailure, Tick, TickAction,
};

#[test]
fn a_turn_without_a_key_is_refused_unless_the_model_is_local() {
    assert_eq!(
        check_key(ProviderKind::OpenAi, false),
        Err("No API key set. Open Surey's settings and add your provider key.".to_string())
    );
    assert_eq!(check_key(ProviderKind::Anthropic, true), Ok(()));
    assert_eq!(check_key(ProviderKind::Local, false), Ok(()));
}

#[test]
fn a_reply_without_tool_calls_ends_the_turn_with_its_text() {
    assert!(matches!(after_reply(Some("Done.".to_string()), 0), TurnAction::Finish(t) if t == "Done."));
    assert!(matches!(after_reply(None, 0), TurnAction::Finish(t) if t.is_empty()));
    assert!(matches!(after_reply(Some("Locking.".to_string()), 2), TurnAction::RunTools));
}

#[test]
fn a_runaway_model_is_stopped_after_ten_rounds() {
    assert_eq!(MAX_TOOL_ROUNDS, 10);
    for round in 0..9 {
        assert!(matches!(after_tools(round), TurnAction::AskModel), "round {round}");
    }
    assert!(matches!(after_tools(9), TurnAction::Finish(t) if t.is_empty()));
}

#[test]
fn a_missed_frame_is_reported_and_recording_goes_on() {
    assert!(matches!(after_tick(&Tick::Written), TickAction::Continue(None)));
    assert!(matches!(
        after_tick(&Tick::Missed("access denied".to_string())),
        TickAction::Continue(Some(m)) if m == "a frame was missed: access denied"
    ));
    assert!(matches!(
        after_tick(&Tick::WriteFailed("disk full".to_string())),
        TickAction::Stop(m) if m == "writing the recording failed: disk full"
    ));
}

#[test]
fn a_recording_that_cannot_start_says_why() {
    assert_eq!(
        start_problem(&StartFailure::NoCapture("no adapter".to_string())),
        "no screen capture: no adapter"
    );
    assert_eq!(
        start_problem(&StartFailure::FirstFrame("timeout".to_string())),
        "capture failed: timeout"
    );
    assert_eq!(start_problem(&StartFailure::Sink("cannot open file".to_string())), "cannot open file");
}

#[test]
fn a_slow_capture_is_not_caught_up_in_a_burst() {
    assert_eq!(next_frame_due(1000, 100, 1050), 1100);
    assert_eq!(next_frame_due(1000, 100, 1400), 1400);
    assert_eq!(next_frame_due(u64::MAX - 5, 100, 0), u64::MAX);
}

#[test]
fn only_a_clean_mp4_with_ffmpeg_gets_a_second_pass() {
    assert!(wants_second_pass(true, true, Some("MP4"), true));
    assert!(!wants_second_pass(true, true, Some("avi"), true));
    assert!(!wants_second_pass(false, true, Some("mp4"), true));
    assert!(!wants_second_pass(true, false, Some("mp4"), true));
    assert!(!wants_second_pass(true, true, Some("mp4"), false));
    assert!(!wants_second_pass(true, true, None, true));
}
