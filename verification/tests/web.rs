use cowatcher::web::{
    authorized, choose_language, cookie_token, fallback_bytes, flag, gen_token, mime_for, query_token,
};

fn args(a: &[&str]) -> Vec<String> {
    a.iter().map(|s| s.to_string()).collect()
}

#[test]
fn a_flag_gives_the_value_after_it() {
    assert_eq!(flag(&args(&["web", "--port", "8080"]), "--port"), Some("8080".to_string()));
    assert_eq!(flag(&args(&["web", "--port"]), "--port"), None);
    assert_eq!(flag(&args(&["web"]), "--port"), None);
}

#[test]
fn assets_get_their_content_type() {
    assert_eq!(mime_for("index.html"), "text/html; charset=utf-8");
    assert_eq!(mime_for("assets/app.min.js"), "text/javascript; charset=utf-8");
    assert_eq!(mime_for("a.mjs"), "text/javascript; charset=utf-8");
    assert_eq!(mime_for("logo.jpeg"), "image/jpeg");
    assert_eq!(mime_for("font.woff2"), "font/woff2");
    assert_eq!(mime_for("README"), "application/octet-stream");
    assert_eq!(mime_for("css"), "text/css; charset=utf-8");
}

#[test]
fn the_token_is_read_from_a_cookie() {
    assert_eq!(cookie_token("theme=dark; cw_token=abc123; x=1"), Some("abc123".to_string()));
    assert_eq!(cookie_token("cw_token=a=b"), Some("a=b".to_string()));
    assert_eq!(cookie_token("other=1"), None);
    assert_eq!(cookie_token(""), None);
}

#[test]
fn the_token_is_read_from_a_query() {
    assert_eq!(query_token("a=1&token=xyz&b=2"), Some("xyz".to_string()));
    assert_eq!(query_token("tokens=1"), None);
}

#[test]
fn a_request_is_authorized_by_any_of_three_places() {
    assert!(authorized("t0k", Some("t0k"), None, None));
    assert!(authorized("t0k", None, Some("Bearer t0k"), None));
    assert!(authorized("t0k", None, None, Some("cw_token=t0k")));
    assert!(!authorized("t0k", Some("nope"), Some("Basic t0k"), Some("cw_token=x")));
    assert!(!authorized("t0k", None, None, None));
}

#[test]
fn a_token_is_48_lowercase_hex_digits() {
    let t = gen_token();
    assert_eq!(t.len(), 48);
    assert!(t.chars().all(|c| c.is_ascii_digit() || ('a'..='f').contains(&c)));
    assert_ne!(t, gen_token());
}

#[test]
fn the_language_is_asked_saved_system_or_english() {
    let codes = args(&["en", "ru", "kk"]);
    assert_eq!(choose_language(&codes, Some("kk"), Some("ru"), "en-US"), "kk");
    assert_eq!(choose_language(&codes, None, Some("ru"), "en-US"), "ru");
    assert_eq!(choose_language(&codes, Some("zz"), None, "RU_ru"), "ru");
    assert_eq!(choose_language(&codes, None, None, "de-DE"), "en");
}

#[test]
fn the_clock_stand_in_mixes_the_reading_with_the_index() {
    let zero = fallback_bytes(0);
    assert_eq!(zero.len(), 24);
    assert_eq!(&zero[..4], &[0, 31, 62, 93]);
    let seed: u128 = 0x0102_0304;
    let b = fallback_bytes(seed);
    assert_eq!(b[0], 0x04);
    assert_eq!(b[1], 0x03 ^ 31);
    assert_eq!(b[16], 0x04 ^ ((16u32 * 31) % 256) as u8);
}
