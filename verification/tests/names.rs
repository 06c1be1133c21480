use cowatcher::names::{device_info, parse_console_names, parse_fleet_names, DeviceInfo};

fn get<'a>(names: &'a [(String, String)], id: &str) -> Option<&'a str> {
    names.iter().find(|(k, _)| k == id).map(|(_, v)| v.as_str())
}

#[test]
fn names_file_is_parsed_into_id_to_name() {
    let names = parse_fleet_names("K7M2Q9 = Row 3, seat 2\n\nBLANK =\n= orphan\nAB12CD = Front\n");
    assert_eq!(get(&names, "K7M2Q9"), Some("Row 3, seat 2"));
    assert_eq!(get(&names, "AB12CD"), Some("Front"));
    assert_eq!(get(&names, "BLANK"), None);
    assert_eq!(names.len(), 2);
}

#[test]
fn the_console_splits_at_spaced_equals() {
    let names = parse_console_names("A1 = x=y\nB2=no\nA1 = later\r\n");
    assert_eq!(get(&names, "A1"), Some("later"));
    assert_eq!(get(&names, "B2"), None);
    assert_eq!(names.len(), 1);
}

#[test]
fn an_empty_file_has_no_names() {
    assert!(parse_fleet_names("").is_empty());
    assert!(parse_console_names("\n\n").is_empty());
}

#[test]
fn a_device_carries_its_label_where_the_teacher_gave_one() {
    let names = parse_fleet_names("K7M2Q9=Front left\nAB12CD = \n");
    let named = device_info("K7M2Q9".to_string(), &names);
    assert_eq!(named, DeviceInfo { device_id: "K7M2Q9".into(), name: Some("Front left".into()) });
    let unnamed = device_info("AB12CD".to_string(), &names);
    assert_eq!(unnamed.name, None);
}
