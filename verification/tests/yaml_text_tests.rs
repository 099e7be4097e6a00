use clashtui::backend::impl_profile::profile::{LocalProfile, ProfileType};
use clashtui::config::BasicInfo;
use clashtui::profile;
use clashtui::yaml::{YamlNumber, YamlValue};
use clashtui::yaml::YamlMapping;
use clashtui::yaml_text::{
    mapping_text, parse_mapping_text, parse_yaml_text, parse_yml_text, to_serde_value, to_yaml_text, to_yml_text,
    yml_mapping_from_text, yml_mapping_text, ParseError,
};

#[test]
fn parse_scalars_and_trees() {
    let v = parse_yaml_text("a: 1\nb: -2\nc: 1.5\nd: [x, true, ~]\ne: !tag v\n").unwrap();
    let m = match &v {
        YamlValue::Mapping(m) => m,
        _ => panic!("not a mapping"),
    };
    assert_eq!(m.len(), 5);
    assert!(matches!(m.get_str("a"), Some(YamlValue::Number(YamlNumber::PosInt(1)))));
    assert!(matches!(m.get_str("b"), Some(YamlValue::Number(YamlNumber::NegInt(-2)))));
    assert!(matches!(m.get_str("c"), Some(YamlValue::Number(YamlNumber::Float(t))) if t == "1.5"));
    match m.get_str("d") {
        Some(YamlValue::Sequence(items)) => {
            assert_eq!(items.len(), 3);
            assert!(matches!(&items[0], YamlValue::String(x) if x == "x"));
            assert!(matches!(&items[1], YamlValue::Bool(true)));
            assert!(matches!(&items[2], YamlValue::Null));
        }
        _ => panic!("no sequence"),
    }
    assert!(matches!(m.get_str("e"), Some(YamlValue::Tagged(t, inner)) if t == "!tag" && matches!(&**inner, YamlValue::String(x) if x == "v")));
    assert!(parse_yaml_text("a: [").is_none());
}

#[test]
fn parse_mapping_kinds() {
    assert!(matches!(parse_mapping_text("k: v"), Ok(Some(_))));
    assert!(matches!(parse_mapping_text("~"), Ok(None)));
    assert_eq!(parse_mapping_text("- a").err(), Some(ParseError::NotAMapping));
    assert_eq!(parse_mapping_text("k: [").err(), Some(ParseError::Invalid));
}

#[test]
fn emit_and_read_back() {
    let v = parse_yaml_text("mode: rule\nrules:\n- MATCH,DIRECT\nport: 7890\n").unwrap();
    let text = to_yaml_text(&v).unwrap();
    assert_eq!(text, "mode: rule\nrules:\n- MATCH,DIRECT\nport: 7890\n");
    let back = parse_yaml_text(&text).unwrap();
    assert!(back.same(&v));
    assert_eq!(to_yaml_text(&YamlValue::Null).unwrap(), "null\n");
    let f = YamlValue::Number(YamlNumber::Float("2.5".into()));
    assert_eq!(to_yaml_text(&f).unwrap(), "2.5\n");
    assert!(to_yaml_text(&YamlValue::Number(YamlNumber::Float("abc".into()))).is_none());
}

#[test]
fn local_profile_text_round_trip() {
    let mut lp = LocalProfile::default();
    lp.sync_from_text("mode: rule\n");
    assert!(lp.content.is_some());
    assert_eq!(lp.content_text().unwrap(), "mode: rule");
    lp.sync_from_text("- not a mapping");
    assert!(lp.content.is_none());
    let null_text = lp.content_text().unwrap();
    assert!(parse_yml_text(&null_text).unwrap().same(&YamlValue::Null));
}

#[test]
fn sectioned_profile_from_text() {
    let p = profile::Profile { name: "p".into(), dtype: ProfileType::File };
    let lp = profile::LocalProfile::from_text("/x.yaml".into(), p.clone(), "proxies: []\n").unwrap();
    assert_eq!(lp.path, "/x.yaml");
    assert_eq!(lp.content.as_ref().unwrap().len(), 1);
    let lp = profile::LocalProfile::from_text("/x.yaml".into(), p.clone(), "").unwrap();
    assert!(lp.content.is_none());
    assert_eq!(
        profile::LocalProfile::from_text("/x".into(), p.clone(), "- a").err(),
        Some(ParseError::NotAMapping)
    );
    let mut lp = profile::LocalProfile::from_text("/x".into(), p, "a: 1").unwrap();
    assert_eq!(lp.sync_from_text("b: ["), Err(ParseError::Invalid));
    assert!(lp.content.is_some());
    assert_eq!(lp.sync_from_text("~"), Ok(()));
    assert!(lp.content.is_none());
}

#[test]
fn basic_raw_from_text() {
    let m = BasicInfo::raw_from_text("external-controller: 127.0.0.1:9090\nmixed-port: 7890\n").unwrap();
    assert_eq!(m.len(), 2);
    assert_eq!(BasicInfo::raw_from_text("~").unwrap().len(), 0);
    assert_eq!(BasicInfo::raw_from_text("").unwrap().len(), 0);
    assert_eq!(BasicInfo::raw_from_text("- a\n").err(), Some(ParseError::NotAMapping));
    assert_eq!(BasicInfo::raw_from_text("a: [").err(), Some(ParseError::Invalid));
}

#[test]
fn serde_value_of_numbers_and_tags() {
    let f = to_serde_value(&YamlValue::Number(YamlNumber::Float("2.5".into()))).unwrap();
    assert_eq!(f.as_f64(), Some(2.5));
    assert!(to_serde_value(&YamlValue::Number(YamlNumber::Float("x".into()))).is_none());
    let n = to_serde_value(&YamlValue::Number(YamlNumber::NegInt(5))).unwrap();
    assert_eq!(n.as_u64(), Some(5));
    let t = YamlValue::Tagged("x".into(), Box::new(YamlValue::Bool(true)));
    assert_eq!(to_yaml_text(&t).unwrap(), "!x true\n");
    let e = YamlValue::Tagged(String::new(), Box::new(YamlValue::Null));
    assert!(to_serde_value(&e).is_none());
    assert!(to_yaml_text(&e).is_none());
}

#[test]
fn float_inside_mapping_is_written() {
    let v = parse_yaml_text("ratio: 0.75\nname: a\n").unwrap();
    assert_eq!(to_yaml_text(&v).unwrap(), "ratio: 0.75\nname: a\n");
    let m = match v {
        YamlValue::Mapping(m) => m,
        _ => panic!("not a mapping"),
    };
    assert_eq!(mapping_text(&Some(m)).unwrap(), "ratio: 0.75\nname: a\n");
}

#[test]
fn yml_parse_and_write() {
    let v = parse_yml_text("mode: rule\nport: 7890\nrules:\n- MATCH,DIRECT\n").unwrap();
    let m = match &v {
        YamlValue::Mapping(m) => m,
        _ => panic!("not a mapping"),
    };
    assert_eq!(m.len(), 3);
    assert!(matches!(m.get_str("port"), Some(YamlValue::Number(YamlNumber::PosInt(7890)))));
    assert!(parse_yml_text("a: [").is_none());
    assert!(yml_mapping_from_text("- a\n").is_none());
    assert!(yml_mapping_from_text("~").is_none());
    let text = to_yml_text(&v).unwrap();
    let back = parse_yml_text(&text).unwrap();
    assert!(back.same(&v));
    let empty: Option<YamlMapping> = None;
    let null_text = yml_mapping_text(&empty).unwrap();
    assert!(parse_yml_text(&null_text).unwrap().same(&YamlValue::Null));
}

#[test]
fn backend_profile_write_then_read() {
    let mut lp = LocalProfile::default();
    lp.sync_from_text("mode: rule\nproxies:\n- name: a\n  port: 1\nrules:\n- MATCH,DIRECT\n");
    let before = YamlValue::Mapping(lp.content.clone().unwrap());
    let text = lp.content_text().unwrap();
    let mut again = LocalProfile::default();
    again.sync_from_text(&text);
    assert!(YamlValue::Mapping(again.content.unwrap()).same(&before));
}
