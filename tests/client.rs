use foldhash::fast::RandomState;
use indexmap::IndexMap;
use never_primp::body::BodyKind;
use never_primp::client::{
    ca_after_read, ca_source, effective_cookies, method_carries_body, Auth, CaSource, ClientConfig,
    ClientError, HttpVersion, RClient, Redirects, RequestOverrides,
};
use never_primp::header_map::{headers_updated, IndexMapSSR};

fn map(pairs: &[(&str, &str)]) -> IndexMapSSR {
    let mut m = IndexMap::with_hasher(RandomState::default());
    for (k, v) in pairs {
        m.insert(k.to_string(), v.to_string());
    }
    m
}

fn pairs(m: &IndexMapSSR) -> Vec<(String, String)> {
    m.iter().map(|(k, v)| (k.clone(), v.clone())).collect()
}

fn config() -> ClientConfig {
    ClientConfig {
        auth: None,
        auth_bearer: None,
        params: None,
        headers: None,
        ordered_headers: None,
        cookie_store: None,
        split_cookies: None,
        referer: None,
        proxy: None,
        impersonate: None,
        impersonate_os: None,
        follow_redirects: None,
        max_redirects: None,
        verify: None,
        ca_cert_file: None,
        https_only: None,
        http1_only: None,
        http2_only: None,
        pool_max_idle_per_host: None,
        tcp_nodelay: None,
    }
}

fn overrides() -> RequestOverrides {
    RequestOverrides {
        params: None,
        headers: None,
        ordered_headers: None,
        cookies: None,
        content: None,
        data: None,
        json: None,
        files: Vec::new(),
        auth: None,
        auth_bearer: None,
    }
}

#[test]
fn plan_defaults() {
    let p = config().plan(None);
    assert!(p.emulation.is_none());
    assert!(p.default_headers.is_none());
    assert!(p.cookie_provider);
    assert!(p.referer);
    assert_eq!(p.proxy, None);
    assert_eq!(p.redirects, Redirects::Limited(20));
    assert!(p.verify);
    assert!(!p.https_only);
    assert_eq!(p.http_version, HttpVersion::Any);
    assert!(!p.tcp_nodelay);
}

#[test]
fn http1_only_wins_over_http2_only() {
    let mut c = config();
    c.http1_only = Some(true);
    c.http2_only = Some(true);
    assert_eq!(c.plan(None).http_version, HttpVersion::Http1Only);
    c.http1_only = Some(false);
    assert_eq!(c.plan(None).http_version, HttpVersion::Http2Only);
}

#[test]
fn ordered_headers_are_not_baked_in() {
    let mut c = config();
    c.headers = Some(map(&[("A", "1")]));
    assert_eq!(c.plan(None).default_headers, Some(vec![("A".to_string(), "1".to_string())]));
    c.ordered_headers = Some(map(&[("B", "2")]));
    assert_eq!(c.plan(None).default_headers, None);
}

#[test]
fn proxy_falls_back_to_environment() {
    let mut c = config();
    assert_eq!(c.plan(Some("http://env:1".to_string())).proxy.as_deref(), Some("http://env:1"));
    c.proxy = Some("http://own:2".to_string());
    assert_eq!(c.plan(Some("http://env:1".to_string())).proxy.as_deref(), Some("http://own:2"));
}

#[test]
fn redirects_follow_settings() {
    let mut c = config();
    c.max_redirects = Some(3);
    assert_eq!(c.plan(None).redirects, Redirects::Limited(3));
    c.follow_redirects = Some(false);
    assert_eq!(c.plan(None).redirects, Redirects::Disabled);
}

#[test]
fn failed_rebuild_keeps_previous_client() {
    let mut rc: RClient<u32> = RClient::new(config(), 1);
    rc.set_proxy("::bad::".to_string());
    let r: Result<(), String> = rc.install(Err("bad proxy".to_string()));
    assert_eq!(r, Err("bad proxy".to_string()));
    assert_eq!(*rc.client(), 1);
    assert_eq!(rc.get_proxy().as_deref(), Some("::bad::"));
    let r: Result<(), String> = rc.install(Ok(2));
    assert!(r.is_ok());
    assert_eq!(*rc.client(), 2);
}

#[test]
fn header_update_merges_in_place() {
    let mut rc: RClient<u32> = RClient::new(config(), 0);
    assert!(rc.get_headers().is_empty());
    rc.headers_update(Some(map(&[("A", "1"), ("B", "2")])));
    rc.headers_update(Some(map(&[("C", "3"), ("A", "9")])));
    assert_eq!(pairs(&rc.get_headers()), pairs(&map(&[("A", "9"), ("B", "2"), ("C", "3")])));
    rc.headers_update(None);
    assert_eq!(rc.get_headers().len(), 3);
    rc.headers_update(Some(map(&[("b", "7"), ("D", "4")])));
    assert_eq!(pairs(&rc.get_headers()), pairs(&map(&[("A", "9"), ("B", "7"), ("C", "3"), ("D", "4")])));
    rc.ordered_headers_update(Some(map(&[("Host", "x")])));
    assert_eq!(pairs(&rc.get_ordered_headers()), pairs(&map(&[("Host", "x")])));
    rc.set_ordered_headers(None);
    assert!(rc.get_ordered_headers().is_empty());
}

#[test]
fn headers_updated_cases() {
    assert!(headers_updated(None, None).is_none());
    let r = headers_updated(None, Some(map(&[("A", "1")]))).unwrap();
    assert_eq!(pairs(&r), pairs(&map(&[("A", "1")])));
    let r = headers_updated(Some(map(&[("A", "1")])), None).unwrap();
    assert_eq!(pairs(&r), pairs(&map(&[("A", "1")])));
}

#[test]
fn invalid_method_is_refused() {
    let rc: RClient<u32> = RClient::new(config(), 0);
    let r = rc.prepare_request("GE T", overrides(), &Vec::new());
    assert_eq!(r.err(), Some(ClientError::Method));
    let r = rc.prepare_request("", overrides(), &Vec::new());
    assert_eq!(r.err(), Some(ClientError::Method));
}

#[test]
fn get_ignores_body_and_uses_jar_cookies() {
    let mut c = config();
    c.ordered_headers = Some(map(&[("Host", "example.com"), ("X-A", "1")]));
    c.auth_bearer = Some("tok".to_string());
    let rc: RClient<u32> = RClient::new(c, 0);
    let mut req = overrides();
    req.content = Some(b"ignored".to_vec());
    let jar = vec![("a".to_string(), "1".to_string()), ("b".to_string(), "2".to_string())];
    let p = rc.prepare_request("GET", req, &jar).unwrap();
    assert_eq!(p.method, http::Method::GET);
    assert_eq!(p.body.kind, BodyKind::NoBody);
    let names: Vec<&str> = p.headers.headers.iter().map(|(k, _)| k.as_str()).collect();
    assert_eq!(names, vec!["Host", "X-A", "cookie"]);
    assert_eq!(p.headers.headers[2].1, "a=1; b=2");
    match p.auth {
        Some(Auth::Bearer(t)) => assert_eq!(t, "tok"),
        _ => panic!("expected bearer auth"),
    }
}

#[test]
fn post_with_data_orders_length_and_type() {
    let mut c = config();
    c.ordered_headers = Some(map(&[("User-Agent", "ua"), ("host", "h")]));
    c.auth_bearer = Some("tok".to_string());
    let rc: RClient<u32> = RClient::new(c, 0);
    let mut req = overrides();
    req.data = Some(never_primp::body::JsonValue::Object(vec![(
        "field".to_string(),
        never_primp::body::JsonValue::Text("x".to_string()),
    )]));
    req.auth = Some(("user".to_string(), None));
    let p = rc.prepare_request("POST", req, &Vec::new()).unwrap();
    assert_eq!(p.body.kind, BodyKind::UrlEncoded);
    let h: Vec<(&str, &str)> = p.headers.headers.iter().map(|(k, v)| (k.as_str(), v.as_str())).collect();
    assert_eq!(
        h,
        vec![
            ("Host", "h"),
            ("Content-Length", "7"),
            ("Content-Type", "application/x-www-form-urlencoded"),
            ("User-Agent", "ua")
        ]
    );
    match p.auth {
        Some(Auth::Basic(u, pw)) => {
            assert_eq!(u, "user");
            assert_eq!(pw, None);
        }
        _ => panic!("expected basic auth"),
    }
}

#[test]
fn post_with_files_plans_multipart() {
    let rc: RClient<u32> = RClient::new(config(), 0);
    let mut req = overrides();
    req.files = vec![never_primp::body::FileEntry::ByBytes {
        field: "f".to_string(),
        filename: "f".to_string(),
        bytes: vec![1],
    }];
    req.ordered_headers = Some(map(&[("A", "1")]));
    let p = rc.prepare_request("PUT", req, &Vec::new()).unwrap();
    assert_eq!(p.body.kind, BodyKind::Multipart);
    assert!(p.multipart.is_some());
    let names: Vec<&str> = p.headers.headers.iter().map(|(k, _)| k.as_str()).collect();
    assert_eq!(names, vec!["Content-Length", "A"]);
}

#[test]
fn body_methods() {
    assert!(method_carries_body("POST"));
    assert!(method_carries_body("PUT"));
    assert!(method_carries_body("PATCH"));
    assert!(!method_carries_body("post"));
    assert!(!method_carries_body("GET"));
}

#[test]
fn explicit_cookies_override_jar() {
    let jar = map(&[("j", "1")]);
    assert_eq!(pairs(&effective_cookies(Some(map(&[])), jar.clone()).unwrap()), vec![]);
    assert_eq!(pairs(&effective_cookies(None, jar).unwrap()), vec![("j".to_string(), "1".to_string())]);
    assert!(effective_cookies(None, map(&[])).is_none());
}

#[test]
fn ca_bundle_choice() {
    assert_eq!(ca_source(Some("a.pem".to_string()), Some("b.pem".to_string())), CaSource::File("a.pem".to_string()));
    assert_eq!(ca_source(None, Some("b.pem".to_string())), CaSource::File("b.pem".to_string()));
    assert_eq!(ca_source(None, None), CaSource::BuiltIn);
    assert_eq!(ca_after_read(CaSource::File("x".to_string()), false), CaSource::BuiltIn);
    assert_eq!(ca_after_read(CaSource::File("x".to_string()), true), CaSource::File("x".to_string()));
}

#[test]
fn new_keeps_the_configuration() {
    let mut c = config();
    c.headers = Some(map(&[("A", "1")]));
    c.proxy = Some("http://p:1".to_string());
    let rc: RClient<u32> = RClient::new(c, 5);
    assert_eq!(pairs(&rc.get_headers()), pairs(&map(&[("A", "1")])));
    assert_eq!(rc.get_proxy().as_deref(), Some("http://p:1"));
    assert_eq!(*rc.client(), 5);
}
