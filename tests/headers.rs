use foldhash::fast::RandomState;
use indexmap::IndexMap;
use never_primp::header_map::IndexMapSSR;
use never_primp::headers::{decimal_text, plan_headers, plan_ordered, split_cookie_header, BodyShape, HeaderPlan};

fn map(pairs: &[(&str, &str)]) -> IndexMapSSR {
    let mut m = IndexMap::with_hasher(RandomState::default());
    for (k, v) in pairs {
        m.insert(k.to_string(), v.to_string());
    }
    m
}

fn entries(pairs: &[(&str, &str)]) -> Vec<(String, String)> {
    pairs.iter().map(|(k, v)| (k.to_string(), v.to_string())).collect()
}

fn names(p: &HeaderPlan) -> Vec<&str> {
    p.headers.iter().map(|(k, _)| k.as_str()).collect()
}

fn wire(p: &HeaderPlan) -> Vec<&str> {
    p.wire_order.as_ref().unwrap().iter().map(|k| k.as_str()).collect()
}

#[test]
fn merged_cookie_goes_after_copied_headers() {
    let ordered = map(&[("Host", "example.com"), ("X-A", "1")]);
    let cookies = map(&[("a", "1"), ("b", "2")]);
    let p = plan_headers(
        &Some(ordered),
        &None,
        &None,
        BodyShape::Absent,
        &None,
        &Some(cookies),
        false,
    );
    assert_eq!(names(&p), vec!["Host", "X-A", "cookie"]);
    assert_eq!(p.headers[2].1, "a=1; b=2");
    assert_eq!(wire(&p), vec!["Host", "X-A", "cookie"]);
    assert!(p.extra.is_empty());
}

#[test]
fn host_then_length_then_type_lead() {
    let s = entries(&[("X-B", "b"), ("host", "h.example"), ("Accept", "*/*")]);
    let p = plan_ordered(
        &s,
        BodyShape::Sized(1234),
        &Some("application/json".to_string()),
        &None,
        false,
    );
    assert_eq!(names(&p), vec!["Host", "Content-Length", "Content-Type", "X-B", "Accept"]);
    assert_eq!(p.headers[0].1, "h.example");
    assert_eq!(p.headers[1].1, "1234");
    assert_eq!(p.headers[2].1, "application/json");
}

#[test]
fn caller_content_type_is_not_duplicated() {
    let s = entries(&[("content-type", "text/plain"), ("Content-Length", "999")]);
    let p = plan_ordered(&s, BodyShape::Sized(5), &Some("application/json".to_string()), &None, false);
    assert_eq!(names(&p), vec!["Content-Length", "content-type"]);
    assert_eq!(p.headers[0].1, "5");
    assert_eq!(p.headers[1].1, "text/plain");
}

#[test]
fn multipart_reserves_length_slot() {
    let s = entries(&[("Host", "x"), ("A", "1")]);
    let p = plan_ordered(&s, BodyShape::Multipart, &None, &None, false);
    assert_eq!(names(&p), vec!["Host", "Content-Length", "A"]);
    assert_eq!(p.headers[1].1, "0");
}

#[test]
fn priority_is_last_after_cookie() {
    let s = entries(&[("priority", "u=0, i"), ("B", "2"), ("Cookie", "z=9"), ("C", "3")]);
    let p = plan_ordered(&s, BodyShape::Absent, &None, &None, false);
    assert_eq!(names(&p), vec!["B", "Cookie", "C", "priority"]);
    assert_eq!(p.headers[1].1, "z=9");
    assert_eq!(wire(&p), vec!["B", "Cookie", "C", "priority"]);
}

#[test]
fn merged_cookie_takes_the_callers_cookie_slot() {
    let s = entries(&[("Host", "h"), ("cookie", "old=1"), ("X", "y")]);
    let cookies = Some(entries(&[("a", "1"), ("b", "2")]));
    let p = plan_ordered(&s, BodyShape::Absent, &None, &cookies, false);
    assert_eq!(names(&p), vec!["Host", "cookie", "X"]);
    assert_eq!(p.headers[1].1, "a=1; b=2");
    assert_eq!(wire(&p), vec!["Host", "cookie", "X"]);
}

#[test]
fn split_style_one_cookie_header_per_pair() {
    let s = entries(&[("Host", "x"), ("Priority", "u=1"), ("A", "1")]);
    let cookies = Some(entries(&[("a", "1"), ("b", "2")]));
    let p = plan_ordered(&s, BodyShape::Absent, &None, &cookies, true);
    assert_eq!(names(&p), vec!["Host", "A"]);
    assert_eq!(wire(&p), vec!["Host", "A", "cookie", "cookie", "Priority"]);
    let extra: Vec<(&str, &str, bool)> =
        p.extra.iter().map(|x| (x.name.as_str(), x.value.as_str(), x.append)).collect();
    assert_eq!(extra, vec![("cookie", "a=1", true), ("cookie", "b=2", true), ("Priority", "u=1", true)]);
}

#[test]
fn split_style_splits_caller_cookie_header() {
    let s = entries(&[("cookie", " a=1 ;; b=2; "), ("X", "y")]);
    let p = plan_ordered(&s, BodyShape::Absent, &None, &None, true);
    assert_eq!(names(&p), vec!["X"]);
    assert_eq!(wire(&p), vec!["X", "cookie", "cookie"]);
    assert_eq!(p.extra[0].value, "a=1");
    assert_eq!(p.extra[1].value, "b=2");
}

#[test]
fn explicit_empty_cookies_drop_caller_cookie_header() {
    let s = entries(&[("cookie", "a=1"), ("X", "y")]);
    let p = plan_ordered(&s, BodyShape::Absent, &None, &Some(Vec::new()), false);
    assert_eq!(names(&p), vec!["X"]);
}

#[test]
fn unordered_headers_merged_cookie() {
    let headers = map(&[("User-Agent", "ua")]);
    let cookies = map(&[("a", "1"), ("b", "2")]);
    let p = plan_headers(&None, &None, &Some(headers), BodyShape::Sized(3), &None, &Some(cookies), false);
    assert_eq!(names(&p), vec!["User-Agent"]);
    assert!(p.wire_order.is_none());
    assert_eq!(p.extra.len(), 1);
    assert_eq!(p.extra[0].name, "Cookie");
    assert_eq!(p.extra[0].value, "a=1; b=2");
    assert!(!p.extra[0].append);
}

#[test]
fn unordered_headers_split_cookies() {
    let headers = map(&[("User-Agent", "ua")]);
    let cookies = map(&[("a", "1"), ("b", "2")]);
    let p = plan_headers(&None, &None, &Some(headers), BodyShape::Absent, &None, &Some(cookies), true);
    let extra: Vec<(&str, &str, bool)> =
        p.extra.iter().map(|x| (x.name.as_str(), x.value.as_str(), x.append)).collect();
    assert_eq!(extra, vec![("cookie", "a=1", true), ("cookie", "b=2", true)]);
}

#[test]
fn cookies_are_sent_without_any_header_map() {
    let cookies = map(&[("a", "1"), ("b", "2")]);
    let p = plan_headers(&None, &None, &None, BodyShape::Absent, &None, &Some(cookies.clone()), false);
    assert!(p.headers.is_empty());
    assert!(p.wire_order.is_none());
    let extra: Vec<(&str, &str, bool)> =
        p.extra.iter().map(|x| (x.name.as_str(), x.value.as_str(), x.append)).collect();
    assert_eq!(extra, vec![("Cookie", "a=1; b=2", false)]);
    let p = plan_headers(&None, &None, &None, BodyShape::Absent, &None, &Some(cookies), true);
    let extra: Vec<(&str, &str, bool)> =
        p.extra.iter().map(|x| (x.name.as_str(), x.value.as_str(), x.append)).collect();
    assert_eq!(extra, vec![("cookie", "a=1", true), ("cookie", "b=2", true)]);
    let p = plan_headers(&None, &None, &None, BodyShape::Absent, &None, &None, false);
    assert!(p.headers.is_empty() && p.extra.is_empty());
}

#[test]
fn request_ordered_headers_win_over_client_ones() {
    let req = map(&[("R", "1")]);
    let client = map(&[("C", "1")]);
    let p = plan_headers(&Some(req), &Some(client.clone()), &None, BodyShape::Absent, &None, &None, false);
    assert_eq!(names(&p), vec!["R"]);
    let p = plan_headers(&None, &Some(client), &None, BodyShape::Absent, &None, &None, false);
    assert_eq!(names(&p), vec!["C"]);
}

#[test]
fn decimal_text_writes_digits() {
    assert_eq!(decimal_text(0), "0");
    assert_eq!(decimal_text(7), "7");
    assert_eq!(decimal_text(10), "10");
    assert_eq!(decimal_text(1234567), "1234567");
    assert_eq!(decimal_text(usize::MAX), usize::MAX.to_string());
}

#[test]
fn cookie_header_splits_on_semicolons() {
    assert_eq!(split_cookie_header(&"a=1; b=2".to_string()), vec!["a=1", "b=2"]);
    assert!(split_cookie_header(&"".to_string()).is_empty());
    assert_eq!(split_cookie_header(&";x=y;".to_string()), vec!["x=y"]);
}

#[test]
fn mixed_case_names_are_recognised() {
    let s = entries(&[("PRIORITY", "u=0"), ("CONTENT-TYPE", "text/html"), ("Content-length", "9"), ("COOKIE", "c=1"), ("Z", "z")]);
    let p = plan_ordered(&s, BodyShape::Sized(2), &Some("application/json".to_string()), &None, false);
    assert_eq!(names(&p), vec!["Content-Length", "CONTENT-TYPE", "COOKIE", "Z", "PRIORITY"]);
    assert_eq!(p.headers[0].1, "2");
}
