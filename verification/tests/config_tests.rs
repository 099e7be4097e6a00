use clashtui::backend::consts::{BASIC_FILE, DEFAULT_BASIC_CLASH_CFG_CONTENT, HOST};
use clashtui::config::{BasicInfo, BuildError};

fn info(ec: &str, mixed: Option<u32>, port: Option<u32>, socks: Option<u32>) -> BasicInfo {
    BasicInfo {
        external_controller: ec.to_string(),
        mixed_port: mixed,
        port,
        socks_port: socks,
        secret: Some("s3cret".to_string()),
        global_ua: None,
    }
}

#[test]
fn basic_info_default() {
    let b = BasicInfo::default();
    assert_eq!(b.external_controller, "127.0.0.1:9090");
    assert_eq!(b.mixed_port, Some(7890));
    assert_eq!(b.port, None);
    assert_eq!(b.socks_port, None);
    assert_eq!(b.secret, None);
    assert_eq!(b.global_ua, None);
}

#[test]
fn build_default_info() {
    let (api, proxy, secret, ua) = BasicInfo::default().build().unwrap();
    assert_eq!(api, "http://127.0.0.1:9090");
    assert_eq!(proxy, "http://127.0.0.1:7890");
    assert_eq!(secret, None);
    assert_eq!(ua, None);
}

#[test]
fn build_rewrites_any_address() {
    let (api, _, secret, _) = info("0.0.0.0:9097", Some(1), None, None).build().unwrap();
    assert_eq!(api, "http://127.0.0.1:9097");
    assert_eq!(secret, Some("s3cret".to_string()));
    let (api, _, _, _) = info("192.168.1.2:9090", Some(1), None, None).build().unwrap();
    assert_eq!(api, "http://192.168.1.2:9090");
}

#[test]
fn build_port_priority() {
    assert_eq!(info("a", Some(1), Some(2), Some(3)).build().unwrap().1, "http://127.0.0.1:1");
    assert_eq!(info("a", None, Some(8080), Some(3)).build().unwrap().1, "http://127.0.0.1:8080");
    assert_eq!(info("a", None, None, Some(1080)).build().unwrap().1, "socks5://127.0.0.1:1080");
    assert_eq!(
        info("a", Some(4294967295), None, None).build().unwrap().1,
        "http://127.0.0.1:4294967295"
    );
    assert_eq!(info("a", Some(0), None, None).build().unwrap().1, "http://127.0.0.1:0");
}

#[test]
fn build_without_port_fails() {
    let e = info("a", None, None, None).build().unwrap_err();
    assert_eq!(e, BuildError::NoProxyPort);
    assert_eq!(e.message(), "failed to load proxy_addr from basic_clash_config.yaml");
}

#[test]
fn constants() {
    assert_eq!(BASIC_FILE, "basic_clash_config.yaml");
    assert_eq!(HOST, "127.0.0.1");
    assert!(DEFAULT_BASIC_CLASH_CFG_CONTENT.starts_with("mixed-port: 7890\n"));
}
