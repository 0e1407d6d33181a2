//! What the proxy connectivity test does with the configured proxy.
use vstd::prelude::*;
use crate::text::{append_chars, append_lit, chars_of, decimal, push_decimal, string_of};

verus! {

/// Kinds of manual proxy.
#[derive(Debug, Clone, Copy, PartialEq, Eq, Structural)]
pub enum ProxyType {
    Http,
    Socks,
}

/// How the connectivity test is run.
#[derive(Debug, Clone)]
pub enum ProxyPlan {
    /// No request is made; the test reports `false`.
    NotTested,
    /// Request through the system proxy.
    SystemProxy,
    /// Request through this proxy URL.
    Manual(String),
}

/// The proxy URL of a manual proxy: `http://host:port` or `socks5://host:port`.
pub open spec fn spec_proxy_url(t: ProxyType, host: Seq<char>, port: u16) -> Seq<char> {
    let scheme = match t {
        ProxyType::Http => "http://"@,
        ProxyType::Socks => "socks5://"@,
    };
    scheme + host + ":"@ + decimal(port as nat)
}

/// The proxy URL of a manual proxy.
pub fn proxy_url(proxy_type: ProxyType, host: &str, port: u16) -> (r: String)
    ensures
        r@ == spec_proxy_url(proxy_type, host@, port),
{
    let mut v = match proxy_type {
        ProxyType::Http => chars_of("http://"),
        ProxyType::Socks => chars_of("socks5://"),
    };
    append_chars(&mut v, chars_of(host).as_slice());
    append_lit(&mut v, ":");
    push_decimal(&mut v, port as u64);
    string_of(v.as_slice())
}

/// Decide how to test the proxy: not at all when it is disabled, through
/// the system proxy when that is followed, not at all when the manual proxy
/// lacks a host or a port, and through the manual proxy otherwise.
pub fn proxy_plan(
    enabled: bool,
    follow_system_proxy: bool,
    proxy_type: ProxyType,
    host: &str,
    port: u16,
) -> (r: ProxyPlan)
    ensures
        !enabled ==> r matches ProxyPlan::NotTested,
        enabled && follow_system_proxy ==> r matches ProxyPlan::SystemProxy,
        enabled && !follow_system_proxy && (host@.len() == 0 || port == 0) ==> r matches ProxyPlan::NotTested,
        enabled && !follow_system_proxy && host@.len() > 0 && port != 0 ==> (r matches ProxyPlan::Manual(u)
            && u@ == spec_proxy_url(proxy_type, host@, port)),
{
    if !enabled {
        return ProxyPlan::NotTested;
    }
    if follow_system_proxy {
        return ProxyPlan::SystemProxy;
    }
    if host.is_empty() || port == 0 {
        return ProxyPlan::NotTested;
    }
    ProxyPlan::Manual(proxy_url(proxy_type, host, port))
}

/// The test passes when the request got a success status; a failed request
/// (`None`) fails it.
pub fn proxy_test_passed(status: Option<u16>) -> (r: bool)
    ensures
        r == (status matches Some(s) && 200 <= s <= 299),
{
    match status {
        Some(s) => 200 <= s && s <= 299,
        None => false,
    }
}

} // verus!
