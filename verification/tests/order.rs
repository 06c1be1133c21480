use cowatcher::classroom::ClassroomInfo;
use cowatcher::i18n::Catalog;
use cowatcher::order::{sort_by_key, text_less};

fn catalog(code: &str) -> Catalog {
    Catalog { code: code.to_string(), name: code.to_uppercase(), strings: Vec::new() }
}

fn room(slug: &str, name: &str) -> ClassroomInfo {
    ClassroomInfo { slug: slug.to_string(), name: name.to_string(), active: false }
}

#[test]
fn texts_compare_as_strings_do() {
    let pairs = [("en", "ru"), ("ru", "en"), ("kk", "kk"), ("", "a"), ("a", ""), ("ab", "abc"), ("Zeta", "alpha"), ("é", "z")];
    for (a, b) in pairs {
        assert_eq!(text_less(&a.to_string(), &b.to_string()), a < b, "{a} < {b}");
    }
}

#[test]
fn languages_are_listed_by_code() {
    let mut list = vec![catalog("ru"), catalog("en"), catalog("kk")];
    sort_by_key(&mut list);
    let codes: Vec<&str> = list.iter().map(|c| c.code.as_str()).collect();
    assert_eq!(codes, vec!["en", "kk", "ru"]);
}

#[test]
fn classrooms_are_listed_by_label_regardless_of_case() {
    let mut list = vec![room("b", "biology"), room("a", "Art"), room("z", "ZOOLOGY"), room("c", "chemistry")];
    sort_by_key(&mut list);
    let slugs: Vec<&str> = list.iter().map(|c| c.slug.as_str()).collect();
    assert_eq!(slugs, vec!["a", "b", "c", "z"]);
}

#[test]
fn classrooms_with_the_same_label_keep_their_order() {
    let mut list = vec![room("x", "Room"), room("y", "room"), room("w", "Attic")];
    sort_by_key(&mut list);
    let slugs: Vec<&str> = list.iter().map(|c| c.slug.as_str()).collect();
    assert_eq!(slugs, vec!["w", "x", "y"]);
}
