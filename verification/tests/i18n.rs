use cowatcher::i18n::{add_catalog, parse, resolve_from, Catalog, CatalogError};

fn text(c: &Catalog, key: &str) -> String {
    c.get(key).expect("key present").clone()
}

#[test]
fn parses_comments_sections_and_values_with_equals() {
    let text_in = "; a comment\n# another\n[meta]\ncode = kk\nname = Қазақша\n\n[strings]\nroom = Сынып\nodd = a = b\n";
    let catalog = parse(text_in).expect("parses");
    assert_eq!(catalog.code, "kk");
    assert_eq!(catalog.name, "Қазақша");
    assert_eq!(text(&catalog, "room"), "Сынып");
    assert_eq!(text(&catalog, "odd"), "a = b", "only the first '=' splits");
}

#[test]
fn rejects_files_that_are_missing_required_parts() {
    assert_eq!(parse("[strings]\nroom = x\n").err(), Some(CatalogError::MissingCode));
    assert_eq!(
        parse("[meta]\ncode = xx\n[strings]\nroom = x\n").err(),
        Some(CatalogError::MissingName)
    );
    assert_eq!(parse("[meta]\ncode = xx\nname = X\n").err(), Some(CatalogError::NoStrings));
}

#[test]
fn unknown_sections_and_keys_are_ignored() {
    let text_in = "[meta]\ncode = xx\nname = X\nfuture = whatever\n[strings]\nroom = R\n[newer]\nthing = 1\n";
    let catalog = parse(text_in).expect("parses");
    assert_eq!(catalog.strings.len(), 1);
}

fn stand_in_english() -> Catalog {
    parse("[meta]\ncode = en\nname = English\n[strings]\nroom = Room\nstartWatching = Start watching\n")
        .expect("parses")
}

#[test]
fn resolve_falls_back_to_english_for_untranslated_keys() {
    let partial = parse("[meta]\ncode = xx\nname = X\n[strings]\nroom = Room-XX\n").expect("parses");
    let english = stand_in_english();
    let resolved = resolve_from(&english, &[partial], "xx");
    assert_eq!(resolved.code, "xx");
    assert_eq!(text(&resolved, "room"), "Room-XX", "translated key wins");
    assert_eq!(text(&resolved, "startWatching"), text(&english, "startWatching"));
    assert_eq!(resolved.strings.len(), 2);
}

#[test]
fn resolve_unknown_code_returns_english() {
    let english = stand_in_english();
    let resolved = resolve_from(&english, &[], "zz");
    assert_eq!(resolved.code, "en");
    assert_eq!(resolved.strings.len(), 2);
}

#[test]
fn the_first_catalog_with_the_code_is_chosen() {
    let english = stand_in_english();
    let a = parse("[meta]\ncode = xx\nname = First\n[strings]\nroom = A\n").unwrap();
    let b = parse("[meta]\ncode = xx\nname = Second\n[strings]\nroom = B\n").unwrap();
    let resolved = resolve_from(&english, &[a, b], "xx");
    assert_eq!(resolved.name, "First");
    assert_eq!(text(&resolved, "room"), "A");
}

#[test]
fn a_repeated_key_keeps_the_last_text() {
    let c = parse("[meta]\ncode = xx\nname = X\n[strings]\nroom = one\nroom = two\n").unwrap();
    assert_eq!(c.strings.len(), 1);
    assert_eq!(text(&c, "room"), "two");
}

#[test]
fn headers_and_meta_keys_ignore_case_and_spaces() {
    let c = parse("[ META ]\r\nCode = xx\r\nNAME=  Big  \r\n[Strings]\r\n  room=r  \r\n = empty key\r\n").unwrap();
    assert_eq!(c.code, "xx");
    assert_eq!(c.name, "Big");
    assert_eq!(c.strings.len(), 1);
    assert_eq!(text(&c, "room"), "r");
}

#[test]
fn a_bracket_alone_is_not_a_header() {
    let c = parse("[meta]\ncode = xx\nname = X\n[\n[strings]\nk = v\n").unwrap();
    assert_eq!(text(&c, "k"), "v");
    assert!(c.get("missing").is_none());
}

#[test]
fn the_error_messages_name_what_is_missing() {
    assert_eq!(CatalogError::MissingCode.message(), "the file has no 'code' in its [meta] section");
    assert_eq!(CatalogError::MissingName.message(), "the file has no 'name' in its [meta] section");
    assert_eq!(CatalogError::NoStrings.message(), "the file has no translated strings");
}

#[test]
fn a_school_file_replaces_the_language_with_its_code() {
    let mut list = Vec::new();
    add_catalog(&mut list, parse("[meta]\ncode = en\nname = English\n[strings]\nroom = Room\n").unwrap());
    add_catalog(&mut list, parse("[meta]\ncode = kk\nname = Қазақша\n[strings]\nroom = Сынып\n").unwrap());
    add_catalog(&mut list, parse("[meta]\ncode = en\nname = English\n[strings]\nroom = Class\n").unwrap());
    assert_eq!(list.len(), 2);
    assert_eq!(list[0].code, "en");
    assert_eq!(list[0].get("room").map(String::as_str), Some("Class"));
    assert_eq!(list[1].code, "kk");
}
