use cowatcher::broadcast::{
    broadcast_label, broadcast_width, capture_step, check_targets, overlaps, Broadcasts,
    CaptureStep, Showing, StartParams,
};

fn pcs(names: &[&str]) -> Vec<String> {
    names.iter().map(|s| s.to_string()).collect()
}

#[test]
fn a_new_registry_is_empty_and_counts_from_one() {
    let mut b = Broadcasts::new();
    assert!(b.status().is_empty());
    assert_eq!(b.begin(pcs(&["A"]), "Display 1".into()), 1);
    assert_eq!(b.begin(pcs(&["B"]), "window".into()), 2);
    let s = b.status();
    assert_eq!(s.len(), 2);
    assert_eq!((s[0].id, s[0].targets, s[0].label.as_str()), (1, 1, "Display 1"));
}

#[test]
fn starting_on_a_pc_ends_only_the_broadcasts_that_share_it() {
    let mut b = Broadcasts::new();
    b.begin(pcs(&["A", "B"]), "one".into());
    b.begin(pcs(&["C"]), "two".into());
    b.begin(pcs(&["D", "E"]), "three".into());
    let taken = b.take_overlapping(&pcs(&["B", "E"]));
    assert_eq!(taken.iter().map(|e| e.id).collect::<Vec<_>>(), vec![1, 3]);
    assert_eq!(b.status().iter().map(|s| s.id).collect::<Vec<_>>(), vec![2]);
}

#[test]
fn stopping_by_id_or_all() {
    let mut b = Broadcasts::new();
    b.begin(pcs(&["A"]), "one".into());
    b.begin(pcs(&["B"]), "two".into());
    assert_eq!(b.take_by_id(Some(9)).len(), 0);
    assert_eq!(b.take_by_id(Some(1)).len(), 1);
    assert_eq!(b.take_by_id(None).len(), 1);
    assert!(b.status().is_empty());
}

#[test]
fn a_broadcast_needs_a_pc() {
    assert_eq!(check_targets(&[]), Err("choose at least one PC to broadcast to".to_string()));
    assert_eq!(check_targets(&pcs(&["A"])), Ok(()));
    assert!(overlaps(&pcs(&["A", "B"]), &pcs(&["C", "B"])));
    assert!(!overlaps(&pcs(&["A"]), &pcs(&["C"])));
}

#[test]
fn widths_and_labels() {
    assert_eq!(broadcast_width(10), 320);
    assert_eq!(broadcast_width(5000), 3840);
    assert_eq!(broadcast_width(1280), 1280);
    assert_eq!(broadcast_label("monitor", 0, "  "), "Display 1");
    assert_eq!(broadcast_label("window", 7, ""), "window");
    assert_eq!(broadcast_label("window", 7, " Slides "), " Slides ");
}

#[test]
fn a_still_screen_is_not_resent_until_the_keepalive() {
    let frame = vec![1u8, 2, 3];
    assert_eq!(capture_step(false, Some(&frame), None, false, false, false), CaptureStep::Send);
    assert_eq!(capture_step(false, Some(&frame), Some(&frame), false, false, false), CaptureStep::Wait);
    assert_eq!(capture_step(false, Some(&frame), Some(&frame), true, false, false), CaptureStep::Send);
    assert_eq!(capture_step(false, Some(&frame), Some(&[9u8][..]), false, false, false), CaptureStep::Send);
}

#[test]
fn a_lost_window_follows_the_teachers_choice() {
    let last = vec![1u8];
    assert_eq!(capture_step(true, None, Some(&last), true, true, false), CaptureStep::Resend);
    assert_eq!(capture_step(true, None, Some(&last), false, true, false), CaptureStep::Wait);
    assert_eq!(capture_step(true, None, None, true, false, true), CaptureStep::SwitchToDesktop);
    assert_eq!(capture_step(true, None, None, true, false, false), CaptureStep::GiveUp);
    assert_eq!(capture_step(false, None, None, true, false, false), CaptureStep::Wait);
}

#[test]
fn a_pc_dropping_the_broadcast_is_noticed_once() {
    let mut showing = Showing::new(&pcs(&["A", "B"]));
    assert!(!showing.record(&"A".to_string(), true));
    assert!(showing.record(&"A".to_string(), false));
    assert!(!showing.record(&"A".to_string(), false));
    assert!(!showing.record(&"Z".to_string(), false));
}

#[test]
fn a_new_broadcast_gets_a_higher_id_and_the_pcs_stay_apart() {
    let mut b = Broadcasts::new();
    let first = b.begin(vec!["A".into()], "one".into());
    let second = b.begin(vec!["C".into()], "two".into());
    let taken = b.take_overlapping(&["A".to_string(), "B".to_string()]);
    assert_eq!(taken.len(), 1);
    let third = b.begin(vec!["A".into(), "B".into()], "three".into());
    assert!(first < second && second < third);
    let status = b.status();
    assert_eq!(status.iter().map(|s| s.id).collect::<Vec<_>>(), vec![second, third]);
}

fn params(title: &str, kind: &str, source_id: u64, width: u16, targets: &[&str]) -> StartParams {
    StartParams {
        source_kind: kind.to_string(),
        source_id,
        source_title: title.to_string(),
        width,
        locked: false,
        on_close: "stop".to_string(),
        targets: pcs(targets),
    }
}

#[test]
fn starting_a_broadcast_ends_only_those_sharing_a_pc() {
    let mut b = Broadcasts::new();
    let first = b.start(params("Slides", "window", 7, 1280, &["A", "B"])).ok().expect("first");
    let second = b.start(params("", "monitor", 0, 100, &["C"])).ok().expect("second");
    assert_eq!((first.id, second.id), (1, 2));
    assert_eq!(second.label, "Display 1");
    assert_eq!(second.width, 320);
    assert!(second.ended.is_empty());
    let third = b.start(params("Video", "window", 9, 5000, &["B", "D"])).ok().expect("third");
    assert_eq!(third.id, 3);
    assert_eq!(third.width, 3840);
    let ended: Vec<u64> = third.ended.iter().map(|e| e.id).collect();
    assert_eq!(ended, vec![1]);
    let running: Vec<(u64, usize, String)> =
        b.status().into_iter().map(|s| (s.id, s.targets, s.label)).collect();
    assert_eq!(running, vec![(2, 1, "Display 1".to_string()), (3, 2, "Video".to_string())]);
}

#[test]
fn a_broadcast_to_no_pc_is_refused_and_changes_nothing() {
    let mut b = Broadcasts::new();
    let _ = b.start(params("Slides", "window", 7, 1280, &["A"]));
    let refused = b.start(params("Other", "window", 8, 1280, &[]));
    assert_eq!(refused.err(), Some("choose at least one PC to broadcast to".to_string()));
    assert_eq!(b.status().len(), 1);
}

#[test]
fn any_source_id_is_accepted_where_the_label_does_not_count_it() {
    let mut b = Broadcasts::new();
    let refused = b.start(params("", "monitor", u64::MAX, 1280, &[]));
    assert_eq!(refused.err(), Some("choose at least one PC to broadcast to".to_string()));
    let titled = b.start(params("Slides", "monitor", u64::MAX, 1280, &["A"])).ok().expect("titled");
    assert_eq!(titled.label, "Slides");
    let window = b.start(params(" ", "window", u64::MAX, 1280, &["B"])).ok().expect("window");
    assert_eq!(window.label, "window");
}
