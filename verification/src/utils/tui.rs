//! The decisions of the application around the clash core: the addresses it
//! reads from the basic configuration, the profile it writes, the state bar
//! and the recent log lines.

use super::{CfgError, ErrKind};
use crate::profile::{filter_names, lemma_filter_names_are_sections};
use crate::text::{concat_str, decimal, lines_of, push_decimal, spec_lines};
use crate::yaml::{
    dict_wf, has_key, insert_key, keys_distinct, lemma_insert_key, lookup,
    spec_as_str, spec_as_u64, spec_get, NumberModel, Yaml, YamlValue,
};
use vstd::prelude::*;

verus! {

/// The port that `yaml` sets under `key`.
pub open spec fn spec_port(yaml: Yaml, key: Seq<char>) -> Option<u64> {
    match spec_get(yaml, key) {
        Some(v) => spec_as_u64(v),
        None => None,
    }
}

/// The proxy address of the basic configuration: HTTP on the mixed port,
/// else on the HTTP port, else SOCKS5 on the SOCKS port.
pub open spec fn spec_proxy_of(yaml: Yaml) -> Option<Seq<char>> {
    match spec_port(yaml, "mixed-port"@) {
        Some(p) => Some("http://127.0.0.1:"@ + decimal(p as nat)),
        None => match spec_port(yaml, "port"@) {
            Some(p) => Some("http://127.0.0.1:"@ + decimal(p as nat)),
            None => match spec_port(yaml, "socks-port"@) {
                Some(p) => Some("socks5://127.0.0.1:"@ + decimal(p as nat)),
                None => None,
            },
        },
    }
}

/// The controller address that the basic configuration names.
pub open spec fn spec_controller(yaml: Yaml) -> Option<Seq<char>> {
    match spec_get(yaml, "external-controller"@) {
        Some(v) => spec_as_str(v),
        None => None,
    }
}

fn port_of(yaml: &YamlValue, key: &str) -> (r: Option<u64>)
    requires
        dict_wf(yaml.model()),
    ensures
        r == spec_port(yaml.model(), key@),
{
    match yaml.get(key) {
        Some(v) => v.as_u64(),
        None => None,
    }
}

/// The proxy address of the basic configuration.
pub fn get_proxy_addr(yaml_data: &YamlValue) -> (r: String)
    requires
        dict_wf(yaml_data.model()),
        spec_proxy_of(yaml_data.model()) is Some,
    ensures
        Some(r@) == spec_proxy_of(yaml_data.model()),
{
    if let Some(port) = port_of(yaml_data, "mixed-port") {
        let mut s = "http://127.0.0.1:".to_owned();
        push_decimal(&mut s, port);
        return s;
    }
    if let Some(port) = port_of(yaml_data, "port") {
        let mut s = "http://127.0.0.1:".to_owned();
        push_decimal(&mut s, port);
        return s;
    }
    let port = port_of(yaml_data, "socks-port").unwrap();
    let mut s = "socks5://127.0.0.1:".to_owned();
    push_decimal(&mut s, port);
    s
}

/// The URL of the controller that the basic configuration names.
pub fn controller_api(yaml_data: &YamlValue) -> (r: String)
    requires
        dict_wf(yaml_data.model()),
        spec_controller(yaml_data.model()) is Some,
    ensures
        r@ == "http://"@ + spec_controller(yaml_data.model()).unwrap(),
{
    let v = yaml_data.get("external-controller").unwrap();
    let s = v.as_str().unwrap();
    concat_str("http://", s)
}

/// What became of the application configuration file.
#[derive(Clone, Copy, Debug, PartialEq, Eq, Structural)]
pub enum AppConfigStatus {
    /// it was not read: the application is not set up yet
    NotRead,
    /// it was read and holds every key setting
    Complete,
    /// it was read but key settings are missing or default
    Incomplete,
    /// it could not be read
    Unreadable,
}

/// The controller URL and proxy address of the basic configuration, the
/// problems met, and whether the application configuration that was read is
/// used (otherwise the default one is).
pub fn load_app_config(basic: &YamlValue, app_cfg: AppConfigStatus) -> (r: (String, String, Vec<CfgError>, bool))
    requires
        dict_wf(basic.model()),
        spec_controller(basic.model()) is Some,
        spec_proxy_of(basic.model()) is Some,
    ensures
        r.0@ == "http://"@ + spec_controller(basic.model()).unwrap(),
        Some(r.1@) == spec_proxy_of(basic.model()),
        r.3 == (app_cfg == AppConfigStatus::Complete || app_cfg == AppConfigStatus::Incomplete),
        app_cfg == AppConfigStatus::Incomplete ==> r.2@.len() == 1 && r.2@[0].kind == ErrKind::LoadAppConfig
            && r.2@[0].reason@ == "Some Key Configs are missing, or Default"@,
        app_cfg == AppConfigStatus::Unreadable ==> r.2@.len() == 1 && r.2@[0].kind == ErrKind::LoadAppConfig
            && r.2@[0].reason@ == "Fail to load configs, using Default"@,
        (app_cfg == AppConfigStatus::NotRead || app_cfg == AppConfigStatus::Complete) ==> r.2@.len() == 0,
{
    let mut err_collect: Vec<CfgError> = Vec::new();
    let controller = controller_api(basic);
    let proxy_addr = get_proxy_addr(basic);
    let use_loaded = match app_cfg {
        AppConfigStatus::NotRead => false,
        AppConfigStatus::Complete => true,
        AppConfigStatus::Incomplete => {
            err_collect.push(
                CfgError::new(
                    ErrKind::LoadAppConfig,
                    "Some Key Configs are missing, or Default".to_owned(),
                ),
            );
            true
        },
        AppConfigStatus::Unreadable => {
            err_collect.push(
                CfgError::new(ErrKind::LoadAppConfig, "Fail to load configs, using Default".to_owned()),
            );
            false
        },
    };
    (controller, proxy_addr, err_collect, use_loaded)
}

/// Records that the configuration of the clash core could not be loaded,
/// when it could not.
pub fn track_remote_config(errors: &mut Vec<CfgError>, remote_loaded: bool)
    ensures
        remote_loaded ==> final(errors)@ == old(errors)@,
        !remote_loaded ==> final(errors)@.len() == old(errors)@.len() + 1 && final(errors)@.drop_last()
            == old(errors)@ && final(errors)@.last().kind == ErrKind::LoadClashConfig
            && final(errors)@.last().reason@ == "Fail to load config from clash core. Is it Running?"@,
{
    if !remote_loaded {
        errors.push(
            CfgError::new(
                ErrKind::LoadClashConfig,
                "Fail to load config from clash core. Is it Running?".to_owned(),
            ),
        );
        assert(errors@.drop_last() =~= old(errors)@);
    }
}

/// The body of the request that switches the clash core to `mode`.
pub fn mode_patch_payload(mode: &str) -> (r: String)
    ensures
        r@ == "{\"mode\": \""@ + mode@ + "\"}"@,
{
    let mut s = concat_str("{\"mode\": \"", mode);
    s.append("\"}");
    s
}

/// The proxy mode of the clash core.
#[derive(Clone, Copy, Debug, PartialEq, Eq, Structural)]
pub enum Mode {
    Rule,
    Global,
    Direct,
}

/// The network stack of the clash TUN device.
#[derive(Clone, Copy, Debug, PartialEq, Eq, Structural)]
pub enum TunStack {
    Mixed,
    Gvisor,
    System,
}

/// What the application reads of the configuration of the clash core.
#[derive(Clone, Copy, Debug, PartialEq, Eq, Structural)]
pub struct RemoteConfig {
    pub mode: Mode,
    pub tun_enable: bool,
    pub tun_stack: TunStack,
}

/// The content of the state bar.
#[derive(Clone, Debug)]
pub struct State {
    pub profile: String,
    pub mode: Option<Mode>,
    pub tun: Option<TunStack>,
    pub ver: String,
}

/// The state bar after an update: the new profile if one was selected (else
/// the current one), the mode of the clash core and its TUN stack when TUN is
/// on, and its version (`Unknown` when it did not answer).
pub fn compose_state(
    new_pf: Option<String>,
    current_profile: String,
    version: Option<String>,
    remote: Option<RemoteConfig>,
) -> (r: State)
    ensures
        r.profile == match new_pf {
            Some(p) => p,
            None => current_profile,
        },
        version matches Some(v) ==> r.ver == v,
        version is None ==> r.ver@ == "Unknown"@,
        r.mode == match remote {
            Some(c) => Some(c.mode),
            None => None,
        },
        r.tun == match remote {
            Some(c) => if c.tun_enable {
                Some(c.tun_stack)
            } else {
                None
            },
            None => None,
        },
{
    let pf = match new_pf {
        Some(v) => v,
        None => current_profile,
    };
    let ver = match version {
        Some(v) => v,
        None => "Unknown".to_owned(),
    };
    let (mode, tun) = match remote {
        Some(v) => (Some(v.mode), if v.tun_enable { Some(v.tun_stack) } else { None }),
        None => (None, None),
    };
    State { profile: pf, mode, tun, ver }
}

/// Whether `k` is a string key naming one of the sections taken from a profile.
pub open spec fn is_section_key(k: Yaml) -> bool {
    exists|s: Seq<char>| filter_names().contains(s) && k == Yaml::Str(s)
}

/// `m` after the section entries of `profile` are copied into it, in the
/// order of `profile`.
pub open spec fn copy_profile_sections(m: Seq<(Yaml, Yaml)>, profile: Seq<(Yaml, Yaml)>) -> Seq<(Yaml, Yaml)>
    decreases profile.len(),
{
    if profile.len() == 0 {
        m
    } else {
        let prev = copy_profile_sections(m, profile.drop_last());
        let e = profile.last();
        if is_section_key(e.0) {
            insert_key(prev, e.0, e.1)
        } else {
            prev
        }
    }
}

/// Copying the sections of a profile: a section that the profile holds takes
/// the profile's value; every other key keeps its value.
pub proof fn lemma_copy_profile_sections(m: Seq<(Yaml, Yaml)>, profile: Seq<(Yaml, Yaml)>)
    requires
        keys_distinct(m),
        keys_distinct(profile),
    ensures
        keys_distinct(copy_profile_sections(m, profile)),
        forall|k: Yaml|
            #[trigger] lookup(copy_profile_sections(m, profile), k) == if is_section_key(k) && has_key(
                profile,
                k,
            ) {
                lookup(profile, k)
            } else {
                lookup(m, k)
            },
    decreases profile.len(),
{
    if profile.len() > 0 {
        let p0 = profile.drop_last();
        let e = profile.last();
        let n = profile.len() - 1;
        assert(keys_distinct(p0));
        lemma_copy_profile_sections(m, p0);
        let prev = copy_profile_sections(m, p0);
        if is_section_key(e.0) {
            lemma_insert_key(prev, e.0, e.1);
        }
        assert(!has_key(p0, e.0)) by {
            if has_key(p0, e.0) {
                let j = crate::yaml::key_index(p0, e.0);
                assert(profile[j].0 == profile[n].0);
            }
        }
        assert(profile =~= p0.push(e));
        lemma_insert_key(p0, e.0, e.1);
        assert(insert_key(p0, e.0, e.1) == profile);
    }
}

/// Copies the proxy and rule sections (`proxy-groups`, `proxy-providers`,
/// `proxies`, `sub-rules`, `rules`, `rule-providers`) of the profile
/// `profile` into the basic configuration `dst`, when both are mappings.
pub fn merge_profile_value(dst: &mut YamlValue, profile: &YamlValue)
    requires
        *old(dst) matches YamlValue::Mapping(d) ==> d.wf(),
        profile matches YamlValue::Mapping(p) ==> p.wf(),
    ensures
        match (*old(dst), *profile) {
            (YamlValue::Mapping(d), YamlValue::Mapping(p)) => (*final(dst) matches YamlValue::Mapping(r)
                && r.wf() && r.model_entries() == copy_profile_sections(
                d.model_entries(),
                p.model_entries(),
            )),
            _ => final(dst).model() == old(dst).model(),
        },
{
    let names: [&str; 6] = [
        "proxy-groups",
        "proxy-providers",
        "proxies",
        "sub-rules",
        "rules",
        "rule-providers",
    ];
    let ghost fnames = filter_names();
    assert(forall|j: int| 0 <= j < 6 ==> #[trigger] names@[j]@ == fnames[j]);
    if let YamlValue::Mapping(dst_mapping) = dst {
        if let YamlValue::Mapping(mapping) = profile {
            let ghost d0 = dst_mapping.model_entries();
            let ghost pm = mapping.model_entries();
            let n = mapping.len();
            let mut i: usize = 0;
            while i < n
                invariant
                    n == pm.len(),
                    pm == mapping.model_entries(),
                    i <= n,
                    fnames == filter_names(),
                    forall|j: int| 0 <= j < 6 ==> #[trigger] names@[j]@ == fnames[j],
                    names@.len() == 6,
                    dst_mapping.wf(),
                    dst_mapping.model_entries() == copy_profile_sections(d0, pm.take(i as int)),
                decreases n - i,
            {
                let (key, value) = mapping.entry(i);
                proof {
                    assert(pm.take(i + 1).drop_last() =~= pm.take(i as int));
                    assert(pm.take(i + 1).last() == pm[i as int]);
                }
                let mut hit = false;
                if let YamlValue::String(k) = key {
                    let mut j: usize = 0;
                    while j < 6
                        invariant
                            j <= 6,
                            names@.len() == 6,
                            fnames == filter_names(),
                            forall|q: int| 0 <= q < 6 ==> #[trigger] names@[q]@ == fnames[q],
                            hit == (exists|q: int| 0 <= q < j && fnames[q] == k@),
                        decreases 6 - j,
                    {
                        let name = names[j].to_owned();
                        if *k == name {
                            hit = true;
                        }
                        j = j + 1;
                    }
                    proof {
                        if hit {
                            let q = choose|q: int| 0 <= q < 6 && fnames[q] == k@;
                            assert(fnames.contains(k@));
                        } else {
                            if is_section_key(key.model()) {
                                let s = choose|s: Seq<char>| fnames.contains(s) && key.model() == Yaml::Str(s);
                                let q = choose|q: int| 0 <= q < fnames.len() && fnames[q] == s;
                                assert(fnames[q] == k@);
                            }
                        }
                    }
                }
                proof {
                    if !(key matches YamlValue::String(_)) {
                        assert(!is_section_key(key.model()));
                    }
                    assert(hit == is_section_key(key.model()));
                }
                if hit {
                    let nk = key.deep_clone();
                    let nv = value.deep_clone();
                    dst_mapping.insert(nk, nv);
                }
                i = i + 1;
            }
            proof {
                assert(pm.take(n as int) =~= pm);
            }
        }
    }
}

/// The last `n` lines of `log`, the newest first.
pub open spec fn spec_recent_lines(log: Seq<char>, n: nat) -> Seq<Seq<char>> {
    let ls = spec_lines(log);
    let k = if n < ls.len() { n } else { ls.len() };
    Seq::new(k, |i: int| ls[ls.len() - 1 - i])
}

/// The last `num_lines` lines of the log text `log`, the newest first.
pub fn recent_logs(log: &str, num_lines: usize) -> (r: Vec<String>)
    ensures
        r@.len() == spec_recent_lines(log@, num_lines as nat).len(),
        forall|i: int| 0 <= i < r@.len() ==> #[trigger] r@[i]@ == spec_recent_lines(log@, num_lines as nat)[i],
{
    let lines = lines_of(log);
    let ghost ls = spec_lines(log@);
    let n = lines.len();
    let k = if num_lines < n { num_lines } else { n };
    let mut out: Vec<String> = Vec::new();
    let mut i: usize = 0;
    while i < k
        invariant
            n == lines@.len(),
            n == ls.len(),
            forall|q: int| 0 <= q < n ==> #[trigger] lines@[q]@ == ls[q],
            k <= n,
            k == if (num_lines as nat) < ls.len() { num_lines as nat } else { ls.len() },
            i <= k,
            out@.len() == i,
            forall|q: int| 0 <= q < i ==> #[trigger] out@[q]@ == ls[n - 1 - q],
        decreases k - i,
    {
        out.push(lines[n - 1 - i].clone());
        i = i + 1;
    }
    out
}

/// Selecting a profile: each string key `proxy-groups`, `proxy-providers`,
/// `proxies`, `sub-rules`, `rules` or `rule-providers` that the profile
/// holds is bound in the basic configuration to the profile's value; every
/// other key keeps the value it had.
pub proof fn lemma_profile_sections_selected(m: Seq<(Yaml, Yaml)>, profile: Seq<(Yaml, Yaml)>)
    requires
        keys_distinct(m),
        keys_distinct(profile),
    ensures
        forall|s: Seq<char>|
            (s == "proxy-groups"@ || s == "proxy-providers"@ || s == "proxies"@ || s == "sub-rules"@
                || s == "rules"@ || s == "rule-providers"@) && has_key(profile, Yaml::Str(s)) ==> #[trigger]
                lookup(copy_profile_sections(m, profile), Yaml::Str(s)) == lookup(profile, Yaml::Str(s)),
        forall|k: Yaml|
            !(k == Yaml::Str("proxy-groups"@) || k == Yaml::Str("proxy-providers"@) || k == Yaml::Str(
                "proxies"@,
            ) || k == Yaml::Str("sub-rules"@) || k == Yaml::Str("rules"@) || k == Yaml::Str(
                "rule-providers"@,
            )) ==> #[trigger] lookup(copy_profile_sections(m, profile), k) == lookup(m, k),
{
    lemma_copy_profile_sections(m, profile);
    lemma_filter_names_are_sections();
    assert forall|s: Seq<char>|
        (s == "proxy-groups"@ || s == "proxy-providers"@ || s == "proxies"@ || s == "sub-rules"@ || s
            == "rules"@ || s == "rule-providers"@) && has_key(profile, Yaml::Str(s)) implies #[trigger]
        lookup(copy_profile_sections(m, profile), Yaml::Str(s)) == lookup(profile, Yaml::Str(s)) by {
        assert(filter_names().contains(s));
        assert(is_section_key(Yaml::Str(s)));
    }
    assert forall|k: Yaml|
        !(k == Yaml::Str("proxy-groups"@) || k == Yaml::Str("proxy-providers"@) || k == Yaml::Str(
            "proxies"@,
        ) || k == Yaml::Str("sub-rules"@) || k == Yaml::Str("rules"@) || k == Yaml::Str(
            "rule-providers"@,
        )) implies #[trigger] lookup(copy_profile_sections(m, profile), k) == lookup(m, k) by {
        if is_section_key(k) {
            let s = choose|s: Seq<char>| filter_names().contains(s) && k == Yaml::Str(s);
            assert(filter_names().contains(s));
        }
    }
}

/// The proxy address of a basic configuration: a non-negative integer `p`
/// under `mixed-port` gives HTTP on port `p`, whatever `port` and
/// `socks-port` hold; without `mixed-port`, one under `port` gives HTTP on
/// it, whatever `socks-port` holds; without both, one under `socks-port`
/// gives SOCKS5 on it; without any of the three there is none.
pub proof fn lemma_proxy_of_ports(m: Seq<(Yaml, Yaml)>)
    ensures
        lookup(m, Yaml::Str("mixed-port"@)) matches Some(Yaml::Number(NumberModel::PosInt(p)))
            ==> spec_proxy_of(Yaml::Dict(m)) == Some("http://127.0.0.1:"@ + decimal(p as nat)),
        lookup(m, Yaml::Str("mixed-port"@)) is None ==> (lookup(m, Yaml::Str("port"@)) matches Some(
            Yaml::Number(NumberModel::PosInt(p)),
        ) ==> spec_proxy_of(Yaml::Dict(m)) == Some("http://127.0.0.1:"@ + decimal(p as nat))),
        lookup(m, Yaml::Str("mixed-port"@)) is None && lookup(m, Yaml::Str("port"@)) is None ==> (lookup(
            m,
            Yaml::Str("socks-port"@),
        ) matches Some(Yaml::Number(NumberModel::PosInt(p))) ==> spec_proxy_of(Yaml::Dict(m)) == Some(
            "socks5://127.0.0.1:"@ + decimal(p as nat),
        )),
        lookup(m, Yaml::Str("mixed-port"@)) is None && lookup(m, Yaml::Str("port"@)) is None && lookup(
            m,
            Yaml::Str("socks-port"@),
        ) is None ==> spec_proxy_of(Yaml::Dict(m)) is None,
{
}

} // verus!
