use clashtui::profile::{LocalProfile, Profile};
use clashtui::backend::impl_profile::profile::ProfileType;
use clashtui::yaml::{YamlMapping, YamlNumber, YamlValue};

fn s(x: &str) -> YamlValue {
    YamlValue::String(x.to_string())
}

#[test]
fn mapping_insert_replaces_in_place() {
    let mut m = YamlMapping::new();
    assert!(m.is_empty());
    m.insert(s("a"), s("1"));
    m.insert(s("b"), s("2"));
    m.insert(s("a"), s("3"));
    assert_eq!(m.len(), 2);
    assert!(matches!(m.entry(0), (YamlValue::String(k), YamlValue::String(v)) if k == "a" && v == "3"));
    assert!(m.contains_str("b"));
    assert!(!m.contains_str("c"));
}

#[test]
fn mapping_swap_remove_moves_last() {
    let mut m = YamlMapping::new();
    for k in ["a", "b", "c", "d"] {
        m.insert(s(k), s(k));
    }
    let v = m.swap_remove(&s("b"));
    assert!(matches!(v, Some(YamlValue::String(ref x)) if x == "b"));
    let keys: Vec<String> =
        (0..m.len()).map(|i| match m.entry(i).0 { YamlValue::String(k) => k.clone(), _ => String::new() }).collect();
    assert_eq!(keys, vec!["a", "d", "c"]);
    assert!(m.swap_remove(&s("zz")).is_none());
}

#[test]
fn same_and_clone() {
    let v = YamlValue::Sequence(vec![
        YamlValue::Null,
        YamlValue::Bool(true),
        YamlValue::Number(YamlNumber::NegInt(-3)),
        YamlValue::Number(YamlNumber::Float("1.5".into())),
        YamlValue::Tagged("!x".into(), Box::new(s("t"))),
    ]);
    let c = v.deep_clone();
    assert!(v.same(&c));
    assert!(!v.same(&YamlValue::Sequence(vec![])));
    assert!(!s("1").same(&YamlValue::Number(YamlNumber::PosInt(1))));
    assert!(s("rules").is_str("rules"));
    assert!(!s("rule").is_str("rules"));
    assert_eq!(YamlValue::Number(YamlNumber::PosInt(9)).as_u64(), Some(9));
    assert_eq!(YamlValue::Number(YamlNumber::NegInt(-9)).as_u64(), None);
    assert_eq!(YamlValue::Tagged("!t".into(), Box::new(s("x"))).as_str(), Some("x"));
}

fn lp(entries: Vec<(&str, &str)>) -> LocalProfile {
    let mut m = YamlMapping::new();
    for (k, v) in entries {
        m.insert(s(k), s(v));
    }
    let mut p = LocalProfile::default();
    p.content = Some(m);
    p
}

#[test]
fn filter_merge_copies_sections() {
    let mut me = lp(vec![("mode", "rule"), ("proxies", "mine")]);
    let base = lp(vec![("proxies", "base"), ("dns", "x"), ("rules", "r"), ("proxy-groups", "g")]);
    me.merge(&base);
    let m = me.content.as_ref().unwrap();
    let keys: Vec<String> =
        (0..m.len()).map(|i| match m.entry(i).0 { YamlValue::String(k) => k.clone(), _ => String::new() }).collect();
    assert_eq!(keys, vec!["mode", "proxies", "proxy-groups", "rules"]);
    assert!(matches!(m.get_str("proxies"), Some(YamlValue::String(v)) if v == "base"));
    assert!(m.get_str("dns").is_none());
}

#[test]
fn other_profile_default() {
    let p = Profile::default();
    assert_eq!(p.name, "Unknown");
    assert!(matches!(p.dtype, ProfileType::File));
    let l = LocalProfile::default();
    assert_eq!(l.name, "base");
}
