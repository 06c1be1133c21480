use cowatcher::blocker::{
    clean, lines_of, remember_closed, rule_count, rules_from_text, rules_text, CLOSED_MEMORY,
};

#[test]
fn clean_trims_lowercases_dedupes_and_drops_blanks() {
    let got = clean(
        vec![" Steam.exe ".into(), "STEAM.EXE".into(), String::new(), "roblox".into()],
        64,
    );
    assert_eq!(got, vec!["steam.exe".to_string(), "roblox".to_string()]);
}

#[test]
fn clean_caps_at_the_protocol_limit() {
    let limit = 64;
    let many: Vec<String> = (0..limit + 50).map(|i| format!("game{i}.exe")).collect();
    assert_eq!(clean(many, limit).len(), limit);
}

#[test]
fn closed_names_keep_only_the_newest() {
    let mut closed: Vec<String> = (0..60).map(|i| format!("old{i}")).collect();
    remember_closed(&mut closed, (0..10).map(|i| format!("new{i}")).collect());
    assert_eq!(closed.len(), CLOSED_MEMORY);
    assert_eq!(closed.first().unwrap(), "old6");
    assert_eq!(closed.last().unwrap(), "new9");
}

#[test]
fn rules_are_saved_one_per_line() {
    let rules = vec!["steam.exe".to_string(), "roblox".to_string()];
    let text = rules_text(&rules);
    assert_eq!(text, "steam.exe\nroblox");
    let back = clean(text.lines().map(str::to_string).collect(), 64);
    assert_eq!(back, rules);
    assert_eq!(rule_count(&rules), 2);
}

#[test]
fn rules_read_back_from_their_file_unchanged() {
    let rules = clean(vec![" Steam.exe ".into(), "Roblox".into(), "steam.exe".into()], 64);
    let text = rules_text(&rules);
    let back = clean(text.lines().map(str::to_string).collect(), 64);
    assert_eq!(back, rules);
}

#[test]
fn a_cap_keeps_the_first_distinct_rules_in_order() {
    let got = clean(
        vec![
            "  ".to_string(),
            "Roblox".to_string(),
            "ROBLOX ".to_string(),
            "steam.exe".to_string(),
            "minecraft".to_string(),
        ],
        2,
    );
    assert_eq!(got, vec!["roblox".to_string(), "steam.exe".to_string()]);
}

#[test]
fn lines_split_as_str_lines_does() {
    for text in ["", "a", "a\n", "a\r\nb", "\n\nx", "a\r", "a\rb\n", "\n"] {
        let want: Vec<String> = text.lines().map(str::to_string).collect();
        assert_eq!(lines_of(text), want, "{text:?}");
    }
}

#[test]
fn cleaned_rules_come_back_from_their_file_unchanged() {
    let rules = clean(
        vec![" Steam.exe ".to_string(), "ROBLOX".to_string(), "steam.exe".to_string()],
        64,
    );
    assert_eq!(rules_from_text(&rules_text(&rules), 64), rules);
    assert!(rules_from_text("", 64).is_empty());
    assert_eq!(rules_from_text("Game.exe\r\n\r\n game.exe\n", 64), vec!["game.exe".to_string()]);
}
