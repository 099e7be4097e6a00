//! The information that the application reads from the basic clash
//! configuration, and the addresses it derives from it.

use crate::text::{concat_str, decimal, has_prefix, push_decimal, starts_with};
use crate::yaml::{Yaml, YamlMapping};
use crate::yaml_text::{parse_mapping_text, spec_parse_yaml, ParseError};
use vstd::prelude::*;
use vstd::string::*;

verus! {

/// The settings of the basic clash configuration that the application needs.
#[derive(Clone, Debug)]
pub struct BasicInfo {
    pub external_controller: String,
    pub mixed_port: Option<u32>,
    pub port: Option<u32>,
    pub socks_port: Option<u32>,
    pub secret: Option<String>,
    pub global_ua: Option<String>,
}

/// The basic configuration names no port for the proxy.
#[derive(Clone, Copy, Debug, PartialEq, Eq)]
pub enum BuildError {
    NoProxyPort,
}

impl BuildError {
    /// The message of this error.
    pub fn message(&self) -> (r: String)
        ensures
            r@ == "failed to load proxy_addr from basic_clash_config.yaml"@,
    {
        "failed to load proxy_addr from basic_clash_config.yaml".to_owned()
    }
}

/// The controller address with a leading `0.0.0.0` replaced by `127.0.0.1`,
/// behind `http://`.
pub open spec fn spec_controller_url(ec: Seq<char>) -> Seq<char> {
    let host = if has_prefix(ec, "0.0.0.0"@) {
        "127.0.0.1"@ + ec.subrange(7, ec.len() as int)
    } else {
        ec
    };
    "http://"@ + host
}

/// The proxy address: HTTP on the mixed port, else on the HTTP port, else
/// SOCKS5 on the SOCKS port; `None` when no port is set.
pub open spec fn spec_proxy_addr(mixed_port: Option<u32>, port: Option<u32>, socks_port: Option<u32>) -> Option<Seq<char>> {
    match (if mixed_port is Some { mixed_port } else { port }) {
        Some(p) => Some("http://127.0.0.1:"@ + decimal(p as nat)),
        None => match socks_port {
            Some(p) => Some("socks5://127.0.0.1:"@ + decimal(p as nat)),
            None => None,
        },
    }
}

impl BasicInfo {
    /// The controller at `127.0.0.1:9090` and the mixed port 7890.
    pub fn default() -> (r: BasicInfo)
        ensures
            r.external_controller@ == "127.0.0.1:9090"@,
            r.mixed_port == Some(7890u32),
            r.port is None,
            r.socks_port is None,
            r.secret is None,
            r.global_ua is None,
    {
        BasicInfo {
            external_controller: "127.0.0.1:9090".to_owned(),
            mixed_port: Some(7890),
            port: None,
            socks_port: None,
            secret: None,
            global_ua: None,
        }
    }

    /// The raw basic configuration that `text` holds: its mapping, and an
    /// empty mapping for a null document; an error when the text holds no
    /// YAML, or a document that is neither a mapping nor null.
    pub fn raw_from_text(text: &str) -> (r: Result<YamlMapping, ParseError>)
        ensures
            r matches Ok(m) ==> m.wf(),
            spec_parse_yaml(text@) matches Some(Yaml::Dict(e)) ==> (r matches Ok(m) && m.model_entries() == e),
            spec_parse_yaml(text@) == Some(Yaml::Null) ==> (r matches Ok(m) && m.model_entries().len() == 0),
            r == Err::<YamlMapping, ParseError>(ParseError::Invalid) <==> spec_parse_yaml(text@) is None,
            r == Err::<YamlMapping, ParseError>(ParseError::NotAMapping) <==> (spec_parse_yaml(text@) matches Some(t)
                && !(t is Dict) && !(t is Null)),
    {
        match parse_mapping_text(text) {
            Ok(Some(m)) => Ok(m),
            Ok(None) => Ok(YamlMapping::new()),
            Err(e) => Err(e),
        }
    }

    /// The controller URL, the proxy address, the secret and the user agent.
    pub fn build(self) -> (r: Result<(String, String, Option<String>, Option<String>), BuildError>)
        ensures
            r is Err <==> spec_proxy_addr(self.mixed_port, self.port, self.socks_port) is None,
            r matches Ok(t) ==> t.0@ == spec_controller_url(self.external_controller@)
                && Some(t.1@) == spec_proxy_addr(self.mixed_port, self.port, self.socks_port)
                && t.2 == self.secret && t.3 == self.global_ua,
    {
        let BasicInfo { external_controller, mixed_port, port, socks_port, secret, global_ua } =
            self;
        let ghost ec = external_controller@;
        let host = if starts_with(external_controller.as_str(), "0.0.0.0") {
            let n = external_controller.as_str().unicode_len();
            proof {
                reveal_strlit("0.0.0.0");
            }
            let rest = external_controller.as_str().substring_char(7, n);
            concat_str("127.0.0.1", rest)
        } else {
            external_controller
        };
        let controller = concat_str("http://", host.as_str());
        let first = match mixed_port {
            Some(p) => Some(p),
            None => port,
        };
        let proxy_addr = match first {
            Some(p) => {
                let mut s = "http://127.0.0.1:".to_owned();
                push_decimal(&mut s, p as u64);
                s
            },
            None => match socks_port {
                Some(p) => {
                    let mut s = "socks5://127.0.0.1:".to_owned();
                    push_decimal(&mut s, p as u64);
                    s
                },
                None => {
                    return Err(BuildError::NoProxyPort);
                },
            },
        };
        Ok((controller, proxy_addr, secret, global_ua))
    }
}

/// The proxy address that a build gives: there is one exactly when at
/// least one of the mixed, HTTP and SOCKS ports is set; the mixed port, when
/// set, gives HTTP on it whatever else is set; else the HTTP port, when set,
/// gives HTTP on it whatever the SOCKS port is; else the SOCKS port gives
/// SOCKS5 on it.
pub proof fn lemma_proxy_addr_ports(mixed_port: Option<u32>, port: Option<u32>, socks_port: Option<u32>)
    ensures
        spec_proxy_addr(mixed_port, port, socks_port) is None <==> (mixed_port is None && port is None
            && socks_port is None),
        mixed_port matches Some(p) ==> spec_proxy_addr(mixed_port, port, socks_port) == Some(
            "http://127.0.0.1:"@ + decimal(p as nat),
        ),
        mixed_port is None ==> (port matches Some(p) ==> spec_proxy_addr(mixed_port, port, socks_port)
            == Some("http://127.0.0.1:"@ + decimal(p as nat))),
        mixed_port is None && port is None ==> (socks_port matches Some(p) ==> spec_proxy_addr(
            mixed_port,
            port,
            socks_port,
        ) == Some("socks5://127.0.0.1:"@ + decimal(p as nat))),
{
}

} // verus!
