use cowatcher::membership::{
    after_check, attempts_text, leave_gate, lockout_remaining, membership_text, parse_attempts,
    parse_membership, LeaveError, PasswordCheck, LOCKOUT_SECONDS, MAX_ATTEMPTS,
};

#[test]
fn the_lockout_rule_itself_is_simple_and_bounded() {
    assert_eq!(lockout_remaining(0, 0, 0), 0);
    assert_eq!(lockout_remaining(MAX_ATTEMPTS - 1, 100, 100), 0);
    assert_eq!(lockout_remaining(MAX_ATTEMPTS, 100, 100), LOCKOUT_SECONDS);
    assert_eq!(lockout_remaining(MAX_ATTEMPTS, 100, 130), LOCKOUT_SECONDS - 30);
    assert_eq!(lockout_remaining(MAX_ATTEMPTS, 100, 999), 0);
    assert_eq!(lockout_remaining(MAX_ATTEMPTS, 100, 50), LOCKOUT_SECONDS);
}

#[test]
fn a_pc_in_no_room_has_nothing_to_leave() {
    assert_eq!(leave_gate(false, 0, 0, 0), Err(LeaveError::NotInARoom));
}

#[test]
fn five_wrong_guesses_lock_out_even_the_right_password() {
    let mut failures = 0u32;
    let mut last = 0u64;
    for _ in 0..MAX_ATTEMPTS {
        assert_eq!(leave_gate(true, failures, last, 100), Ok(()));
        let (result, record) = after_check(PasswordCheck::Wrong, failures, 100);
        assert_eq!(result, Err(LeaveError::WrongPassword));
        let (n, at) = record.expect("a wrong guess is counted");
        failures = n;
        last = at;
    }
    assert_eq!(
        leave_gate(true, failures, last, 100),
        Err(LeaveError::LockedOut { seconds: LOCKOUT_SECONDS })
    );
    assert_eq!(leave_gate(true, failures, last, 100 + LOCKOUT_SECONDS), Ok(()));
    assert_eq!(after_check(PasswordCheck::Matches, failures, 160), (Ok(()), None));
}

#[test]
fn a_corrupt_hash_is_reported_as_such() {
    assert_eq!(
        after_check(PasswordCheck::CorruptHash, 2, 5),
        (Err(LeaveError::CorruptSecret), None)
    );
}

#[test]
fn the_failure_count_saturates() {
    assert_eq!(after_check(PasswordCheck::Wrong, u32::MAX, 7).1, Some((u32::MAX, 7)));
}

#[test]
fn the_attempts_file_round_trips() {
    let text = attempts_text(3, 1_700_000_000);
    assert_eq!(text, "3 1700000000");
    assert_eq!(parse_attempts(&text), (3, 1_700_000_000));
}

#[test]
fn an_unreadable_attempts_file_counts_as_no_failures() {
    assert_eq!(parse_attempts(""), (0, 0));
    assert_eq!(parse_attempts("3"), (0, 0));
    assert_eq!(parse_attempts("x 5"), (0, 0));
    assert_eq!(parse_attempts("4294967296 5"), (0, 0));
    assert_eq!(parse_attempts("  +7\t\n 12 trailing"), (7, 12));
}

#[test]
fn a_membership_file_holds_the_room_then_the_secret() {
    let text = membership_text("Lab 2", "$argon2id$v=19$abc");
    assert_eq!(text, "Lab 2\n$argon2id$v=19$abc");
    assert_eq!(
        parse_membership(&text),
        Some(("Lab 2".to_string(), "$argon2id$v=19$abc".to_string()))
    );
}

#[test]
fn a_membership_file_missing_a_line_is_no_membership() {
    assert_eq!(parse_membership(""), None);
    assert_eq!(parse_membership("Lab 2"), None);
    assert_eq!(parse_membership("Lab 2\n"), None);
    assert_eq!(parse_membership("\nsecret"), None);
    assert_eq!(
        parse_membership("Lab 2\r\nsecret\r\nmore"),
        Some(("Lab 2".to_string(), "secret".to_string()))
    );
}

#[test]
fn refusals_read_as_before() {
    assert_eq!(
        LeaveError::LockedOut { seconds: 42 }.message(),
        "too many wrong attempts; try again in 42 s"
    );
    assert_eq!(LeaveError::WrongPassword.message(), "wrong room password");
}
