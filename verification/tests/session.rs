use cowatcher::session::{
    after_thumbnail, audio_step, blocklist_due, choose_monitor, control_change, refresh_interval,
    request_shape, screen_url, AudioStep, Preview, ThumbnailReply, ThumbnailStep,
};
use std::time::Duration;

#[test]
fn the_opened_screen_is_asked_for_larger_and_faster() {
    let key = [7u8; 32];
    let mut p = Preview::default();
    assert_eq!(request_shape(&p, 1, &key), (1, 480, false));
    p.focused = Some(key);
    assert_eq!(request_shape(&p, 1, &key), (1, 1280, true));
    assert_eq!(refresh_interval(true), Duration::from_millis(250));
    assert_eq!(refresh_interval(false), Duration::from_secs(1));
}

#[test]
fn an_unplugged_monitor_falls_back_to_the_first() {
    assert_eq!(choose_monitor(1, &[0, 1]), 1);
    assert_eq!(choose_monitor(2, &[0, 1]), 0);
    assert_eq!(choose_monitor(2, &[]), 0);
}

#[test]
fn turn_decisions() {
    assert!(blocklist_due(0, 1));
    assert!(!blocklist_due(3, 3));
    assert_eq!(control_change(true, false), Some(true));
    assert_eq!(control_change(true, true), None);
    assert_eq!(audio_step(false, None), AudioStep::Idle);
    assert_eq!(audio_step(false, Some(16_000)), AudioStep::Stop);
    assert_eq!(audio_step(true, None), AudioStep::Start);
    assert_eq!(audio_step(true, Some(16_000)), AudioStep::Collect { max_samples: 3_200, queue_cap: 9_600 });
}

#[test]
fn a_screen_becomes_a_data_url() {
    assert_eq!(screen_url(b"Man"), "data:image/jpeg;base64,TWFu");
}

#[test]
fn a_locked_screen_keeps_the_session_and_other_failures_end_it() {
    assert!(matches!(
        after_thumbnail(ThumbnailReply::Jpeg(vec![0xff, 0xd8])),
        ThumbnailStep::Show(u) if u == "data:image/jpeg;base64,/9g="
    ));
    assert!(matches!(after_thumbnail(ThumbnailReply::ScreenUnavailable), ThumbnailStep::KeepLast));
    assert!(matches!(
        after_thumbnail(ThumbnailReply::Failed("connection lost".to_string())),
        ThumbnailStep::End(m) if m == "connection lost"
    ));
}
