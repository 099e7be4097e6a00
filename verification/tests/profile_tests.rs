use clashtui::backend::impl_profile::extract_domain;
use clashtui::backend::impl_profile::profile::{LocalProfile, MergeError, Profile, ProfileType};
use clashtui::yaml::{YamlMapping, YamlNumber, YamlValue};

fn s(x: &str) -> YamlValue {
    YamlValue::String(x.to_string())
}

fn seq(items: &[&str]) -> YamlValue {
    YamlValue::Sequence(items.iter().map(|x| s(x)).collect())
}

fn mapping(entries: Vec<(YamlValue, YamlValue)>) -> YamlMapping {
    let mut m = YamlMapping::new();
    for (k, v) in entries {
        m.insert(k, v);
    }
    m
}

fn keys(m: &YamlMapping) -> Vec<String> {
    (0..m.len())
        .map(|i| match m.entry(i).0 {
            YamlValue::String(k) => k.clone(),
            _ => String::from("?"),
        })
        .collect()
}

fn strings(v: &YamlValue) -> Vec<String> {
    match v {
        YamlValue::Sequence(items) => items
            .iter()
            .map(|x| match x {
                YamlValue::String(t) => t.clone(),
                _ => String::from("?"),
            })
            .collect(),
        _ => vec![],
    }
}

#[test]
fn extract_domain_of_urls() {
    assert_eq!(extract_domain("https://example.com/sub/path?x=1"), "example.com");
    assert_eq!(extract_domain("http://host:8080"), "host:8080");
    assert_eq!(extract_domain("no-scheme.example.com/path"), "no-scheme.example.com");
    assert_eq!(extract_domain("x"), "x");
    assert_eq!(extract_domain("ftp:///abs"), "");
}

#[test]
fn get_domain_by_profile_type() {
    assert_eq!(ProfileType::File.get_domain(), None);
    assert_eq!(
        ProfileType::Url("https://sub.example.org/api/v1?token=x".to_string()).get_domain(),
        Some("sub.example.org".to_string())
    );
    assert_eq!(
        ProfileType::Generated("mytpl".to_string()).get_domain(),
        Some("From template mytpl".to_string())
    );
    assert_eq!(
        ProfileType::Github { url: "https://raw.github.com/a/b".to_string(), token: "t".to_string() }
            .get_domain(),
        Some("raw.github.com".to_string())
    );
    assert_eq!(
        ProfileType::GitLab { url: "gitlab.com/a".to_string(), token: "t".to_string() }.get_domain(),
        Some("gitlab.com".to_string())
    );
}

#[test]
fn profile_defaults() {
    let p = Profile::default();
    assert_eq!(p.name, "Unknown");
    assert!(matches!(p.dtype, ProfileType::File));
    let lp = LocalProfile::default();
    assert_eq!(lp.name, "base");
    assert!(lp.content.is_none());
    assert_eq!(lp.path, "");
}

#[test]
fn from_pf_keeps_name_and_type() {
    let lp = LocalProfile::from_pf(
        Profile { name: "work".to_string(), dtype: ProfileType::Url("https://a/b".to_string()) },
        "/tmp/work.yaml".to_string(),
    );
    assert_eq!(lp.name, "work");
    assert!(matches!(lp.dtype, ProfileType::Url(ref u) if u == "https://a/b"));
    assert_eq!(lp.path, "/tmp/work.yaml");
    assert!(lp.content.is_none());
}

#[test]
fn merge_without_content_fails() {
    let mut lp = LocalProfile::default();
    let basic = mapping(vec![(s("mode"), s("rule"))]);
    assert_eq!(lp.merge(&basic), Err(MergeError::MissingContent));
    assert!(lp.content.is_none());
    assert_eq!(
        MergeError::MissingContent.message(),
        "failed to merge: one of the input content is none"
    );
}

#[test]
fn merge_with_empty_basic_fails() {
    let mut lp = LocalProfile::default();
    lp.content = Some(mapping(vec![(s("mode"), s("global"))]));
    assert_eq!(lp.merge(&YamlMapping::new()), Err(MergeError::MissingContent));
    assert_eq!(lp.content.as_ref().unwrap().len(), 1);
}

#[test]
fn merge_overwrites_and_appends() {
    let mut lp = LocalProfile::default();
    lp.content = Some(mapping(vec![
        (s("mode"), s("global")),
        (s("rules"), seq(&["DOMAIN,a,DIRECT", "MATCH,PROXY"])),
        (s("proxies"), seq(&["p1"])),
        (s("port"), YamlValue::Number(YamlNumber::PosInt(7890))),
    ]));
    let basic = mapping(vec![
        (s("mode"), s("rule")),
        (s("rules"), seq(&["DOMAIN,b,REJECT"])),
        (s("proxies"), seq(&["p2", "p3"])),
        (s("log-level"), s("info")),
    ]);
    assert_eq!(lp.merge(&basic), Ok(()));
    let m = lp.content.as_ref().unwrap();
    // swap-remove order: each merged key is removed and appended again
    assert_eq!(keys(m), vec!["port", "mode", "rules", "proxies", "log-level"]);
    assert!(matches!(m.entry(1).1, YamlValue::String(v) if v == "rule"));
    assert_eq!(strings(m.entry(2).1), vec!["DOMAIN,a,DIRECT", "DOMAIN,b,REJECT", "MATCH,PROXY"]);
    assert_eq!(strings(m.entry(3).1), vec!["p1", "p2", "p3"]);
    assert!(matches!(m.entry(4).1, YamlValue::String(v) if v == "info"));
    assert!(matches!(m.entry(0).1, YamlValue::Number(YamlNumber::PosInt(7890))));
}

#[test]
fn merge_overwrites_sequence_with_other_value() {
    let mut lp = LocalProfile::default();
    lp.content = Some(mapping(vec![(s("proxies"), seq(&["p1"]))]));
    let basic = mapping(vec![(s("proxies"), s("none"))]);
    assert_eq!(lp.merge(&basic), Ok(()));
    let m = lp.content.as_ref().unwrap();
    assert!(matches!(m.entry(0).1, YamlValue::String(v) if v == "none"));
}
