//! The connection settings of the clash controller and the requests sent to it.

use crate::text::concat_str;
use vstd::prelude::*;
use vstd::string::*;

verus! {

/// The request timeout, in seconds, when none is configured.
pub const DEFAULT_TIMEOUT: u64 = 3;

/// The name of the header that carries the controller secret.
pub const AUTHORIZATION: &'static str = "Authorization";

/// The method of a request to the controller.
#[derive(Clone, Copy, Debug, PartialEq, Eq, Structural)]
pub enum HttpMethod {
    Get,
    Head,
    Post,
    Put,
    Delete,
    Connect,
    Options,
    Trace,
    Patch,
}

/// A request to the controller, ready to be sent.
#[derive(Clone, Debug)]
pub struct HttpRequest {
    pub method: HttpMethod,
    pub url: String,
    pub body: Option<String>,
    /// the value of the `Authorization` header, when one is sent
    pub authorization: Option<String>,
    /// in seconds
    pub timeout: u64,
}

/// How the application reaches the clash controller.
#[derive(Debug)]
pub struct ClashUtil {
    api: String,
    secret: Option<String>,
    ua: Option<String>,
    timeout: u64,
    pub proxy_addr: String,
}

impl ClashUtil {
    pub closed spec fn spec_api(&self) -> Seq<char> {
        self.api@
    }

    pub closed spec fn spec_secret(&self) -> Option<String> {
        self.secret
    }

    pub closed spec fn spec_ua(&self) -> Option<String> {
        self.ua
    }

    pub closed spec fn spec_proxy_addr(&self) -> Seq<char> {
        self.proxy_addr@
    }

    pub closed spec fn spec_timeout(&self) -> u64 {
        self.timeout
    }

    /// Settings for the controller at `controller_api`; the timeout is
    /// `DEFAULT_TIMEOUT` when none is given.
    pub fn new(
        controller_api: String,
        secret: Option<String>,
        proxy_addr: String,
        ua: Option<String>,
        timeout: Option<u64>,
    ) -> (r: ClashUtil)
        ensures
            r.spec_api() == controller_api@,
            r.spec_secret() == secret,
            r.spec_ua() == ua,
            r.spec_proxy_addr() == proxy_addr@,
            r.spec_timeout() == match timeout {
                Some(t) => t,
                None => DEFAULT_TIMEOUT,
            },
    {
        let t = match timeout {
            Some(t) => t,
            None => DEFAULT_TIMEOUT,
        };
        ClashUtil { api: controller_api, secret, ua, timeout: t, proxy_addr }
    }

    /// The request timeout in seconds.
    pub fn timeout(&self) -> (r: u64)
        ensures
            r == self.spec_timeout(),
    {
        self.timeout
    }

    /// The URL of `sub_url` on the controller.
    pub fn request_url(&self, sub_url: &str) -> (r: String)
        ensures
            r@ == self.spec_api() + sub_url@,
    {
        concat_str(self.api.as_str(), sub_url)
    }

    /// The value of the authorization header: `Bearer ` and the secret, when
    /// a secret is set.
    pub fn auth_header(&self) -> (r: Option<String>)
        ensures
            r matches Some(h) ==> (self.spec_secret() matches Some(s) && h@ == "Bearer "@ + s@),
            r is None <==> self.spec_secret() is None,
    {
        match &self.secret {
            Some(s) => Some(concat_str("Bearer ", s.as_str())),
            None => None,
        }
    }

    /// The request of `method` to `sub_url` with `payload` as its body, the
    /// secret as bearer token and the configured timeout; it still has to be
    /// sent.
    pub fn request(&self, method: HttpMethod, sub_url: &str, payload: Option<String>) -> (r: HttpRequest)
        ensures
            r.method == method,
            r.url@ == self.spec_api() + sub_url@,
            r.body == payload,
            r.timeout == self.spec_timeout(),
            r.authorization matches Some(h) ==> (self.spec_secret() matches Some(s) && h@ == "Bearer "@ + s@),
            r.authorization is None <==> self.spec_secret() is None,
    {
        HttpRequest {
            method,
            url: self.request_url(sub_url),
            body: payload,
            authorization: self.auth_header(),
            timeout: self.timeout(),
        }
    }

    /// The settings used to try the controller on the local host.
    pub fn build_test() -> (r: ClashUtil)
        ensures
            r.spec_api() == "http://127.0.0.1:9090"@,
            r.spec_secret() matches Some(s) && s@ == "test"@,
            r.spec_proxy_addr() == "http://127.0.0.1:7890"@,
            r.spec_ua() is None,
            r.spec_timeout() == DEFAULT_TIMEOUT,
    {
        Self::new(
            "http://127.0.0.1:9090".to_owned(),
            Some("test".to_owned()),
            "http://127.0.0.1:7890".to_owned(),
            None,
            None,
        )
    }
}

} // verus!
