use cowatcher::classroom::{
    candidate_slug, check_name, dir_for, first_free, label_from, sanitize, slug_from_arg, unique_slug,
    DEFAULT_SLUG,
};
use cowatcher::room::{check_room_name, parse_room_text, path, room_text};
use std::path::PathBuf;

#[test]
fn default_classroom_is_the_base_directory_itself() {
    let base = PathBuf::from("/cw-base");
    assert_eq!(dir_for(&base, DEFAULT_SLUG), base);
    assert_eq!(dir_for(&base, ""), base);
}

#[test]
fn other_classrooms_live_under_classrooms_by_slug() {
    let base = PathBuf::from("/base");
    assert_eq!(dir_for(&base, "Lab 7"), base.join("classrooms").join("lab-7"));
}

#[test]
fn names_become_folder_safe_slugs() {
    assert_eq!(sanitize("Lab 7"), "lab-7");
    assert_eq!(sanitize("  --Physics!!  Room-- "), "physics-room");
    assert_eq!(sanitize("Қазақ"), "room");
    assert_eq!(sanitize(""), "room");
    assert_eq!(sanitize("Default"), "default");
}

#[test]
fn a_free_slug_is_used_as_it_is_and_default_is_avoided() {
    let base = PathBuf::from("/cw-base-that-does-not-exist");
    assert_eq!(unique_slug(&base, "Lab 7"), "lab-7");
    assert_eq!(unique_slug(&base, "Default"), "default-room");
}

#[test]
fn classroom_names_are_checked() {
    assert_eq!(check_name("  Lab 7 ", 40), Ok("Lab 7".to_string()));
    assert_eq!(check_name("   ", 40), Err("the classroom needs a name".to_string()));
    assert_eq!(check_name("abcdef", 5), Err("the classroom name may be at most 5 characters".to_string()));
    assert_eq!(check_name("Қазақ", 5), Ok("Қазақ".to_string()));
}

#[test]
fn labels_fall_back_sensibly() {
    assert_eq!(label_from(Some("  Lab 7\n"), "lab-7"), "Lab 7");
    assert_eq!(label_from(Some("   "), "lab-7"), "lab-7");
    assert_eq!(label_from(None, "default"), "Classroom");
}

#[test]
fn a_command_line_slug_is_sanitized() {
    assert_eq!(slug_from_arg(Some(" Lab 7 ")), Some("lab-7".to_string()));
    assert_eq!(slug_from_arg(Some("  ")), None);
    assert_eq!(slug_from_arg(None), None);
}

#[test]
fn the_room_file_is_room_dat() {
    assert!(path(&PathBuf::from("/data")).ends_with("room.dat"));
}

#[test]
fn room_names_are_checked() {
    assert_eq!(check_room_name(" Lab 2 ", 64), Ok("Lab 2".to_string()));
    assert_eq!(check_room_name("", 64), Err("the room needs a name".to_string()));
    assert_eq!(check_room_name("Қазақ", 5), Err("the room name may be at most 5 characters".to_string()));
    assert_eq!(
        check_room_name("a\u{7}b", 64),
        Err("the room name may not contain control characters".to_string())
    );
}

#[test]
fn the_room_file_round_trips() {
    let text = room_text("Lab 2", "K7M2Q9XR4T6B");
    assert_eq!(parse_room_text(&text), Ok(("Lab 2".to_string(), "K7M2Q9XR4T6B".to_string())));
    assert_eq!(parse_room_text("Lab 2"), Err("the room file is corrupt".to_string()));
}

#[test]
fn a_renamed_room_reads_back_from_its_file() {
    let name = check_room_name("  Lab 7  ", 64).unwrap();
    let text = room_text(&name, "K7M2Q9XR4T6B");
    assert_eq!(parse_room_text(&text), Ok(("Lab 7".to_string(), "K7M2Q9XR4T6B".to_string())));
}

#[test]
fn the_first_free_candidate_is_chosen() {
    let base = "lab-7".to_string();
    let taken = ["lab-7", "lab-7-2"];
    let k = first_free(|k| taken.contains(&candidate_slug(&base, k).as_str()));
    assert_eq!(k, 3);
    assert_eq!(candidate_slug(&base, k), "lab-7-3");
    assert_eq!(first_free(|_| false), 1);
    assert_eq!(candidate_slug(&base, 1), "lab-7");
    assert_eq!(candidate_slug(&base, 2), "lab-7-2");
}
