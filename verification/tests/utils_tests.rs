use clashtui::utils::tui::{
    compose_state, controller_api, get_proxy_addr, load_app_config, merge_profile_value,
    mode_patch_payload, recent_logs, track_remote_config, AppConfigStatus, Mode, RemoteConfig,
    TunStack,
};
use clashtui::utils::ErrKind;
use clashtui::yaml::{YamlMapping, YamlNumber, YamlValue};

fn s(x: &str) -> YamlValue {
    YamlValue::String(x.to_string())
}

fn map(entries: Vec<(&str, YamlValue)>) -> YamlValue {
    let mut m = YamlMapping::new();
    for (k, v) in entries {
        m.insert(s(k), v);
    }
    YamlValue::Mapping(m)
}

fn num(n: u64) -> YamlValue {
    YamlValue::Number(YamlNumber::PosInt(n))
}

#[test]
fn proxy_addr_priority() {
    let v = map(vec![("port", num(8080)), ("mixed-port", num(7890)), ("socks-port", num(1080))]);
    assert_eq!(get_proxy_addr(&v), "http://127.0.0.1:7890");
    let v = map(vec![("port", num(8080)), ("socks-port", num(1080))]);
    assert_eq!(get_proxy_addr(&v), "http://127.0.0.1:8080");
    let v = map(vec![("mixed-port", s("x")), ("socks-port", num(1080))]);
    assert_eq!(get_proxy_addr(&v), "socks5://127.0.0.1:1080");
    let tagged = YamlValue::Tagged("!t".into(), Box::new(map(vec![("port", num(1))])));
    assert_eq!(get_proxy_addr(&tagged), "http://127.0.0.1:1");
}

#[test]
fn controller_url() {
    let v = map(vec![("external-controller", s("127.0.0.1:9090"))]);
    assert_eq!(controller_api(&v), "http://127.0.0.1:9090");
}

#[test]
fn load_app_config_errors() {
    let v = map(vec![("external-controller", s("127.0.0.1:9090")), ("mixed-port", num(7890))]);
    let (api, proxy, errs, used) = load_app_config(&v, AppConfigStatus::NotRead);
    assert_eq!(api, "http://127.0.0.1:9090");
    assert_eq!(proxy, "http://127.0.0.1:7890");
    assert!(errs.is_empty());
    assert!(!used);
    let (_, _, errs, used) = load_app_config(&v, AppConfigStatus::Complete);
    assert!(errs.is_empty() && used);
    let (_, _, errs, used) = load_app_config(&v, AppConfigStatus::Incomplete);
    assert!(used);
    assert_eq!(errs.len(), 1);
    assert_eq!(errs[0].kind, ErrKind::LoadAppConfig);
    assert_eq!(errs[0].reason, "Some Key Configs are missing, or Default");
    let (_, _, errs, used) = load_app_config(&v, AppConfigStatus::Unreadable);
    assert!(!used);
    assert_eq!(errs[0].reason, "Fail to load configs, using Default");
}

#[test]
fn remote_config_tracking() {
    let mut errs = Vec::new();
    track_remote_config(&mut errs, true);
    assert!(errs.is_empty());
    track_remote_config(&mut errs, false);
    assert_eq!(errs.len(), 1);
    assert_eq!(errs[0].kind, ErrKind::LoadClashConfig);
    assert_eq!(errs[0].reason, "Fail to load config from clash core. Is it Running?");
}

#[test]
fn mode_payload() {
    assert_eq!(mode_patch_payload("global"), r#"{"mode": "global"}"#);
}

#[test]
fn state_composition() {
    let st = compose_state(None, "cur".into(), None, None);
    assert_eq!(st.profile, "cur");
    assert_eq!(st.ver, "Unknown");
    assert_eq!(st.mode, None);
    assert_eq!(st.tun, None);
    let remote = RemoteConfig { mode: Mode::Global, tun_enable: true, tun_stack: TunStack::Gvisor };
    let st = compose_state(Some("new".into()), "cur".into(), Some("v1.18".into()), Some(remote));
    assert_eq!(st.profile, "new");
    assert_eq!(st.ver, "v1.18");
    assert_eq!(st.mode, Some(Mode::Global));
    assert_eq!(st.tun, Some(TunStack::Gvisor));
    let remote = RemoteConfig { mode: Mode::Rule, tun_enable: false, tun_stack: TunStack::System };
    let st = compose_state(None, "cur".into(), None, Some(remote));
    assert_eq!(st.tun, None);
    assert_eq!(st.mode, Some(Mode::Rule));
}

#[test]
fn recent_log_lines() {
    let log = "one\ntwo\r\nthree\nfour\n";
    assert_eq!(recent_logs(log, 2), vec!["four".to_string(), "three".to_string()]);
    assert_eq!(recent_logs(log, 10), vec!["four", "three", "two", "one"]);
    assert_eq!(recent_logs("", 3), Vec::<String>::new());
    assert_eq!(recent_logs("a\n\nb", 3), vec!["b", "", "a"]);
    assert_eq!(recent_logs("x\r", 1), vec!["x\r"]);
    assert_eq!(recent_logs(log, 0), Vec::<String>::new());
}

#[test]
fn merge_profile_sections() {
    let mut dst = map(vec![("mixed-port", num(7890)), ("rules", s("old"))]);
    let profile = map(vec![
        ("proxies", s("P")),
        ("dns", s("D")),
        ("rules", s("R")),
        ("rule-providers", s("RP")),
    ]);
    merge_profile_value(&mut dst, &profile);
    match &dst {
        YamlValue::Mapping(m) => {
            let keys: Vec<String> = (0..m.len())
                .map(|i| match m.entry(i).0 { YamlValue::String(k) => k.clone(), _ => String::new() })
                .collect();
            assert_eq!(keys, vec!["mixed-port", "rules", "proxies", "rule-providers"]);
            assert!(matches!(m.entry(1).1, YamlValue::String(v) if v == "R"));
            assert!(m.get_str("dns").is_none());
        }
        _ => panic!("not a mapping"),
    }
    // a non-mapping destination is left alone
    let mut null = YamlValue::Null;
    merge_profile_value(&mut null, &profile);
    assert!(matches!(null, YamlValue::Null));
}
