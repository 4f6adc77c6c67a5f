use foldhash::fast::RandomState;
use indexmap::IndexMap;
use never_primp::cookies::{join_cookies, scope_url_text, CookieError, CookieOverlay};
use never_primp::header_map::IndexMapSSR;

fn listing(pairs: &[(&str, &str)]) -> Vec<(String, String)> {
    pairs.iter().map(|(k, v)| (k.to_string(), v.to_string())).collect()
}

fn map_pairs(m: &IndexMapSSR) -> Vec<(String, String)> {
    m.iter().map(|(k, v)| (k.clone(), v.clone())).collect()
}

#[test]
fn deleted_cookie_stays_hidden_then_reappears_when_set() {
    let mut overlay = CookieOverlay::new();
    // The jar keeps an expired record for the deleted name.
    let jar = listing(&[("a", "1"), ("b", "2"), ("a", "")]);
    let w = overlay.delete_cookie("a".to_string());
    assert_eq!(w.record, "a=; Max-Age=0");
    assert_eq!(map_pairs(&overlay.get_all_cookies(&jar)), listing(&[("b", "2")]));
    assert_eq!(overlay.get_cookie(&jar, &"a".to_string()), None);
    assert_eq!(overlay.get_cookie(&jar, &"b".to_string()), Some("2".to_string()));

    let w = overlay.set_cookie("a".to_string(), &"3".to_string(), &None, &None).unwrap();
    assert_eq!(w.record, "a=3");
    let jar = listing(&[("a", "3"), ("b", "2")]);
    assert_eq!(overlay.get_cookie(&jar, &"a".to_string()), Some("3".to_string()));
    assert_eq!(map_pairs(&overlay.get_all_cookies(&jar)), listing(&[("a", "3"), ("b", "2")]));
}

#[test]
fn visible_keeps_first_place_and_last_value() {
    let overlay = CookieOverlay::new();
    let jar = listing(&[("a", "1"), ("b", "2"), ("a", "3")]);
    assert_eq!(map_pairs(&overlay.get_all_cookies(&jar)), listing(&[("a", "3"), ("b", "2")]));
    assert_eq!(overlay.get_cookie(&jar, &"a".to_string()), Some("1".to_string()));
    assert_eq!(overlay.get_cookie(&jar, &"zz".to_string()), None);
}

#[test]
fn clear_tombstones_every_listed_name() {
    let mut overlay = CookieOverlay::new();
    let jar = listing(&[("a", "1"), ("b", "2")]);
    let w = overlay
        .clear_cookies(vec!["a".to_string(), "b".to_string()]);
    assert_eq!(
        w.records,
        vec![
            "a=; Expires=Thu, 01 Jan 1970 00:00:00 GMT; Max-Age=0".to_string(),
            "b=; Expires=Thu, 01 Jan 1970 00:00:00 GMT; Max-Age=0".to_string()
        ]
    );
    assert!(overlay.get_all_cookies(&jar).is_empty());
    assert!(overlay.is_deleted(&"a".to_string()));
    assert!(overlay.is_deleted(&"b".to_string()));
}

#[test]
fn update_cookies_lifts_tombstones() {
    let mut overlay = CookieOverlay::new();
    overlay.delete_cookie("a".to_string());
    overlay.delete_cookie("c".to_string());
    let mut m: IndexMapSSR = IndexMap::with_hasher(RandomState::default());
    m.insert("a".to_string(), "1".to_string());
    m.insert("b".to_string(), "2".to_string());
    let w = overlay
        .update_cookies(&m, &Some(".example.com".to_string()), &Some("/p".to_string()))
        .unwrap();
    assert_eq!(w.records, vec!["a=1".to_string(), "b=2".to_string()]);
    assert_eq!(w.url.to_string(), "http://.example.com/p");
    assert!(!overlay.is_deleted(&"a".to_string()));
    assert!(overlay.is_deleted(&"c".to_string()));
}

#[test]
fn invalid_scope_changes_nothing() {
    let mut overlay = CookieOverlay::new();
    overlay.delete_cookie("a".to_string());
    let r = overlay.set_cookie("a".to_string(), &"1".to_string(), &Some("bad host".to_string()), &None);
    assert_eq!(r.err(), Some(CookieError::InvalidUrl));
    assert!(overlay.is_deleted(&"a".to_string()));
}

#[test]
fn scope_url_defaults() {
    assert_eq!(scope_url_text(&None, &None), "http://0.0.0.0/");
    assert_eq!(scope_url_text(&Some("example.com".to_string()), &Some("/x".to_string())), "http://example.com/x");
}

#[test]
fn joined_cookie_value() {
    assert_eq!(join_cookies(&listing(&[("k1", "v1"), ("k2", "v2"), ("k3", "")])), "k1=v1; k2=v2; k3=");
    assert_eq!(join_cookies(&Vec::new()), "");
}

#[test]
fn clearing_twice_still_succeeds() {
    let mut overlay = CookieOverlay::new();
    let first = overlay.clear_cookies(vec!["a".to_string()]);
    let second = overlay.clear_cookies(vec!["a".to_string()]);
    assert_eq!(first.records, second.records);
    assert_eq!(second.url.to_string(), "http://0.0.0.0/");
    assert!(overlay.is_deleted(&"a".to_string()));
}
