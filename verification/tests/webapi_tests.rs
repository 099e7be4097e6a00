use clashtui::clash::webapi::{ClashUtil, HttpMethod, AUTHORIZATION, DEFAULT_TIMEOUT};

#[test]
fn new_uses_default_timeout() {
    let u = ClashUtil::new("http://x:1".into(), None, "http://p:2".into(), None, None);
    assert_eq!(u.timeout(), DEFAULT_TIMEOUT);
    assert_eq!(u.proxy_addr, "http://p:2");
    let u = ClashUtil::new("http://x:1".into(), None, "http://p:2".into(), None, Some(10));
    assert_eq!(u.timeout(), 10);
}

#[test]
fn request_url_and_auth() {
    let u = ClashUtil::build_test();
    assert_eq!(u.request_url("/configs"), "http://127.0.0.1:9090/configs");
    assert_eq!(u.auth_header(), Some("Bearer test".to_string()));
    assert_eq!(u.proxy_addr, "http://127.0.0.1:7890");
    let none = ClashUtil::new("http://h".into(), None, String::new(), None, None);
    assert_eq!(none.auth_header(), None);
}

#[test]
fn request_parts() {
    let u = ClashUtil::build_test();
    let r = u.request(HttpMethod::Patch, "/configs", Some("{\"mode\": \"rule\"}".to_string()));
    assert_eq!(r.method, HttpMethod::Patch);
    assert_eq!(r.url, "http://127.0.0.1:9090/configs");
    assert_eq!(r.body, Some("{\"mode\": \"rule\"}".to_string()));
    assert_eq!(r.authorization, Some("Bearer test".to_string()));
    assert_eq!(r.timeout, DEFAULT_TIMEOUT);
    let none = ClashUtil::new("http://h".into(), None, String::new(), None, Some(7));
    let r = none.request(HttpMethod::Get, "/version", None);
    assert_eq!(r.url, "http://h/version");
    assert_eq!(r.body, None);
    assert_eq!(r.authorization, None);
    assert_eq!(r.timeout, 7);
    assert_eq!(AUTHORIZATION, "Authorization");
}
