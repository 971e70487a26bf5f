//! Fracture: a local HTTP/HTTPS proxy that splits outgoing requests and TLS
//! ClientHello records into small fragments so that deep packet inspection
//! cannot match on them.

use vstd::prelude::*;

pub mod console;
pub mod dns;
pub mod engine;
pub mod error;
pub mod os;
pub mod proxy;
pub mod settings;
pub mod text;

use crate::dns::resolver::{string_views, DnsConfig, DnsSettings, DnsType};

verus! {

/// Runtime state shared between the proxy engine and its front ends: whether
/// interception is switched on, and the local port the engine listens on.
#[derive(Debug)]
pub struct ProxyController {
    active: bool,
    port: u16,
}

impl ProxyController {
    /// The port the controller reports.
    pub closed spec fn spec_port(&self) -> u16 {
        self.port
    }

    /// Whether interception is switched on.
    pub closed spec fn spec_active(&self) -> bool {
        self.active
    }

    /// A controller for `port`, with interception switched off.
    pub fn new(port: u16) -> (r: Self)
        ensures
            r.spec_port() == port,
            !r.spec_active(),
    {
        ProxyController { active: false, port }
    }

    pub fn port(&self) -> (r: u16)
        ensures
            r == self.spec_port(),
    {
        self.port
    }

    pub fn set_port(&mut self, port: u16)
        ensures
            final(self).spec_port() == port,
            final(self).spec_active() == old(self).spec_active(),
    {
        self.port = port;
    }

    pub fn is_active(&self) -> (r: bool)
        ensures
            r == self.spec_active(),
    {
        self.active
    }

    pub fn set_active(&mut self, active: bool)
        ensures
            final(self).spec_active() == active,
            final(self).spec_port() == old(self).spec_port(),
    {
        self.active = active;
    }
}

/// The engine's settings as values.
pub ghost struct AppSettings {
    pub proxy_port: u16,
    pub log_level: Seq<char>,
    pub tls_record_fragmentation: bool,
    pub fragmentation_size: usize,
    pub https_only: bool,
    pub dns: DnsSettings,
}

/// The engine's settings.
#[derive(Debug)]
pub struct AppConfig {
    pub proxy_port: u16,
    pub log_level: String,
    /// Whether a ClientHello is re-framed as several TLS records (rather than
    /// cut blindly).
    pub tls_record_fragmentation: bool,
    /// How many bytes each fragment carries.
    pub fragmentation_size: usize,
    /// Whether plain HTTP requests are refused.
    pub https_only: bool,
    pub dns: DnsConfig,
}

impl View for AppConfig {
    type V = AppSettings;

    open spec fn view(&self) -> AppSettings {
        AppSettings {
            proxy_port: self.proxy_port,
            log_level: self.log_level@,
            tls_record_fragmentation: self.tls_record_fragmentation,
            fragmentation_size: self.fragmentation_size,
            https_only: self.https_only,
            dns: self.dns@,
        }
    }
}

impl Clone for AppConfig {
    fn clone(&self) -> (r: AppConfig)
        ensures
            r@ == self@,
    {
        AppConfig {
            proxy_port: self.proxy_port,
            log_level: self.log_level.clone(),
            tls_record_fragmentation: self.tls_record_fragmentation,
            fragmentation_size: self.fragmentation_size,
            https_only: self.https_only,
            dns: self.dns.clone(),
        }
    }
}

impl Default for AppConfig {
    /// Port 8081, log level `info`, blind fragmentation into 100-byte pieces,
    /// plain HTTP allowed, and the default DNS settings.
    fn default() -> (r: AppConfig)
        ensures
            r.proxy_port == 8081,
            r.log_level@ == "info"@,
            !r.tls_record_fragmentation,
            r.fragmentation_size == 100,
            !r.https_only,
            r.dns.dns_type == DnsType::Https,
            r.dns.server_url@ == "cloudflare-dns.com"@,
            string_views(r.dns.ips@) == seq!["1.1.1.1"@, "1.0.0.1"@],
            r.dns.port == 443,
            r.dns.cache_size == 100,
    {
        AppConfig {
            proxy_port: 8081,
            log_level: "info".to_owned(),
            tls_record_fragmentation: false,
            fragmentation_size: 100,
            https_only: false,
            dns: DnsConfig::default(),
        }
    }
}

/// The configuration the console starts the engine with: listening on
/// `port`, with the given fragmentation settings and HTTPS-only policy, and
/// the defaults for everything else.
pub fn console_config(port: u16, fragment: bool, size: usize, https_only: bool) -> (r: AppConfig)
    ensures
        r.proxy_port == port,
        r.tls_record_fragmentation == fragment,
        r.fragmentation_size == size,
        r.https_only == https_only,
        r.log_level@ == "info"@,
        r.dns.dns_type == DnsType::Https,
        r.dns.server_url@ == "cloudflare-dns.com"@,
        string_views(r.dns.ips@) == seq!["1.1.1.1"@, "1.0.0.1"@],
        r.dns.port == 443,
        r.dns.cache_size == 100,
{
    let mut config = AppConfig::default();
    config.proxy_port = port;
    config.tls_record_fragmentation = fragment;
    config.fragmentation_size = size;
    config.https_only = https_only;
    config
}

} // verus!
