//! The DNS transport choices, their settings, and the list of name servers
//! that a resolver for those settings queries.

use vstd::prelude::*;

use crate::error::{FailureKind, ProxyError};
use crate::text::str_equals;

verus! {

/// How the resolver talks to its name servers.
#[derive(Debug, Clone, Copy, PartialEq, Eq, Structural)]
pub enum DnsType {
    /// DNS over HTTPS.
    Https,
    /// DNS over TLS.
    Tls,
    /// DNS over QUIC.
    Quic,
    /// Plain DNS on UDP, with TCP as fallback.
    Unencrypted,
}

/// The name a DNS type is shown under.
pub open spec fn dns_type_name(t: DnsType) -> Seq<char> {
    match t {
        DnsType::Https => "Https"@,
        DnsType::Tls => "Tls"@,
        DnsType::Quic => "Quic"@,
        DnsType::Unencrypted => "Unencrypted"@,
    }
}

/// The DNS type a text names: its shown name, or that name in lower case.
pub open spec fn dns_type_named(s: Seq<char>) -> Option<DnsType> {
    if s == "Https"@ || s == "https"@ {
        Some(DnsType::Https)
    } else if s == "Tls"@ || s == "tls"@ {
        Some(DnsType::Tls)
    } else if s == "Quic"@ || s == "quic"@ {
        Some(DnsType::Quic)
    } else if s == "Unencrypted"@ || s == "unencrypted"@ {
        Some(DnsType::Unencrypted)
    } else {
        None
    }
}

impl DnsType {
    /// The name this DNS type is shown under.
    pub fn label(&self) -> (r: String)
        ensures
            r@ == dns_type_name(*self),
    {
        match self {
            DnsType::Https => "Https".to_owned(),
            DnsType::Tls => "Tls".to_owned(),
            DnsType::Quic => "Quic".to_owned(),
            DnsType::Unencrypted => "Unencrypted".to_owned(),
        }
    }

    /// Reads a DNS type from its shown name or that name in lower case.
    pub fn parse(s: &str) -> (r: Option<DnsType>)
        ensures
            r == dns_type_named(s@),
    {
        if str_equals(s, "Https") || str_equals(s, "https") {
            Some(DnsType::Https)
        } else if str_equals(s, "Tls") || str_equals(s, "tls") {
            Some(DnsType::Tls)
        } else if str_equals(s, "Quic") || str_equals(s, "quic") {
            Some(DnsType::Quic)
        } else if str_equals(s, "Unencrypted") || str_equals(s, "unencrypted") {
            Some(DnsType::Unencrypted)
        } else {
            None
        }
    }
}

impl core::str::FromStr for DnsType {
    type Err = ();

    fn from_str(s: &str) -> (r: Result<DnsType, ()>)
        ensures
            r == (match dns_type_named(s@) {
                Some(t) => Ok::<DnsType, ()>(t),
                None => Err(()),
            }),
    {
        match DnsType::parse(s) {
            Some(t) => Ok(t),
            None => Err(()),
        }
    }
}

/// Reading back the name a DNS type is shown under gives that type again.
pub proof fn lemma_dns_type_name_round_trip(t: DnsType)
    ensures
        dns_type_named(dns_type_name(t)) == Some(t),
{
    reveal_strlit("Https");
    reveal_strlit("https");
    reveal_strlit("Tls");
    reveal_strlit("tls");
    reveal_strlit("Quic");
    reveal_strlit("quic");
    reveal_strlit("Unencrypted");
    reveal_strlit("unencrypted");
    assert("Https"@.len() == 5 && "https"@.len() == 5);
    assert("Tls"@.len() == 3 && "tls"@.len() == 3);
    assert("Quic"@.len() == 4 && "quic"@.len() == 4);
    assert("Unencrypted"@.len() == 11);
}

/// The resolver's settings.
#[derive(Debug)]
pub struct DnsConfig {
    pub dns_type: DnsType,
    /// The name the servers present for TLS (SNI), e.g. `cloudflare-dns.com`;
    /// empty for none.
    pub server_url: String,
    /// The servers' addresses, e.g. `1.1.1.1`.
    pub ips: Vec<String>,
    /// The servers' port: 443, 853 or 53.
    pub port: u16,
    pub cache_size: u64,
}

/// The resolver's settings as values.
pub ghost struct DnsSettings {
    pub dns_type: DnsType,
    pub server_url: Seq<char>,
    pub ips: Seq<Seq<char>>,
    pub port: u16,
    pub cache_size: u64,
}

/// The contents of each string in `v`.
pub open spec fn string_views(v: Seq<String>) -> Seq<Seq<char>> {
    v.map_values(|s: String| s@)
}

impl View for DnsConfig {
    type V = DnsSettings;

    open spec fn view(&self) -> DnsSettings {
        DnsSettings {
            dns_type: self.dns_type,
            server_url: self.server_url@,
            ips: string_views(self.ips@),
            port: self.port,
            cache_size: self.cache_size,
        }
    }
}

impl Clone for DnsConfig {
    fn clone(&self) -> (r: DnsConfig)
        ensures
            r@ == self@,
    {
        let ips = self.ips.clone();
        proof {
            assert(ips@ =~= self.ips@);
        }
        DnsConfig {
            dns_type: self.dns_type,
            server_url: self.server_url.clone(),
            ips,
            port: self.port,
            cache_size: self.cache_size,
        }
    }
}

/// The transport a name server is queried over.
#[derive(Debug, Clone, Copy, PartialEq, Eq, Structural)]
pub enum Transport {
    Udp,
    Tcp,
    Https,
    Tls,
    Quic,
}

/// The transports each server is queried over for a DNS type: the encrypted
/// types use their one protocol; plain DNS uses UDP, then TCP as fallback.
pub open spec fn transports(t: DnsType) -> Seq<Transport> {
    match t {
        DnsType::Https => seq![Transport::Https],
        DnsType::Tls => seq![Transport::Tls],
        DnsType::Quic => seq![Transport::Quic],
        DnsType::Unencrypted => seq![Transport::Udp, Transport::Tcp],
    }
}

/// One name server the resolver queries.
#[derive(Debug)]
pub struct NameServer {
    pub ip: String,
    pub port: u16,
    pub transport: Transport,
    /// The name to expect in the server's TLS certificate, if any.
    pub tls_dns_name: Option<String>,
}

/// A name server as values.
pub ghost struct NameServerView {
    pub ip: Seq<char>,
    pub port: u16,
    pub transport: Transport,
    pub tls_dns_name: Option<Seq<char>>,
}

impl View for NameServer {
    type V = NameServerView;

    open spec fn view(&self) -> NameServerView {
        NameServerView {
            ip: self.ip@,
            port: self.port,
            transport: self.transport,
            tls_dns_name: match self.tls_dns_name {
                Some(n) => Some(n@),
                None => None,
            },
        }
    }
}

/// The servers in `v`, as values.
pub open spec fn name_server_views(v: Seq<NameServer>) -> Seq<NameServerView> {
    v.map_values(|n: NameServer| n@)
}

/// The TLS name for a server URL: none when the URL is empty.
pub open spec fn tls_name(url: Seq<char>) -> Option<Seq<char>> {
    if url.len() == 0 {
        None
    } else {
        Some(url)
    }
}

/// The entries for one server address: one per transport, in order.
pub open spec fn server_entries(
    ip: Seq<char>,
    port: u16,
    t: DnsType,
    name: Option<Seq<char>>,
) -> Seq<NameServerView> {
    transports(t).map_values(
        |tr: Transport| NameServerView { ip, port, transport: tr, tls_dns_name: name },
    )
}

/// The name servers for the addresses `ips`, in order.
pub open spec fn servers_for(
    ips: Seq<Seq<char>>,
    port: u16,
    t: DnsType,
    name: Option<Seq<char>>,
) -> Seq<NameServerView>
    decreases ips.len(),
{
    if ips.len() == 0 {
        seq![]
    } else {
        servers_for(ips.drop_last(), port, t, name) + server_entries(ips.last(), port, t, name)
    }
}

/// Every address is queried over every transport of the DNS type, in order,
/// each time on the configured port and under the same TLS name, whatever
/// the transport: the entry for the `i`-th address and the `j`-th transport
/// stands at `i * m + j`, where `m` is the number of transports.
pub proof fn lemma_servers_for_entries(
    ips: Seq<Seq<char>>,
    port: u16,
    t: DnsType,
    name: Option<Seq<char>>,
)
    ensures
        servers_for(ips, port, t, name).len() == ips.len() * transports(t).len(),
        forall|i: int, j: int|
            0 <= i < ips.len() && 0 <= j < transports(t).len() ==> (#[trigger] servers_for(
                ips,
                port,
                t,
                name,
            )[i * transports(t).len() + j]) == (NameServerView {
                ip: ips[i],
                port,
                transport: transports(t)[j],
                tls_dns_name: name,
            }),
        forall|k: int|
            0 <= k < servers_for(ips, port, t, name).len() ==> {
                let e = #[trigger] servers_for(ips, port, t, name)[k];
                &&& e.tls_dns_name == name
                &&& e.port == port
                &&& ips.contains(e.ip)
                &&& transports(t).contains(e.transport)
            },
    decreases ips.len(),
{
    let m = transports(t).len() as int;
    let all = servers_for(ips, port, t, name);
    if ips.len() > 0 {
        let dl = ips.drop_last();
        let prefix = servers_for(dl, port, t, name);
        let last = server_entries(ips.last(), port, t, name);
        lemma_servers_for_entries(dl, port, t, name);
        assert(all == prefix + last);
        let n = ips.len() as int;
        assert(prefix.len() == (n - 1) * m);
        assert(n * m == (n - 1) * m + m) by (nonlinear_arith);
        assert forall|i: int, j: int| 0 <= i < ips.len() && 0 <= j < m implies (#[trigger] all[i
            * m + j]) == (NameServerView {
            ip: ips[i],
            port,
            transport: transports(t)[j],
            tls_dns_name: name,
        }) by {
            if i < n - 1 {
                assert(i * m + j < (n - 1) * m) by (nonlinear_arith)
                    requires
                        0 <= i < n - 1,
                        0 <= j < m,
                ;
                assert(0 <= i * m) by (nonlinear_arith)
                    requires
                        0 <= i,
                        0 <= m,
                ;
                assert(all[i * m + j] == prefix[i * m + j]);
                assert(dl[i] == ips[i]);
            } else {
                assert(i * m + j - (n - 1) * m == j) by (nonlinear_arith)
                    requires
                        i == n - 1,
                ;
                assert(all[i * m + j] == last[j]);
            }
        }
        assert forall|k: int| 0 <= k < all.len() implies {
            let e = #[trigger] all[k];
            &&& e.tls_dns_name == name
            &&& e.port == port
            &&& ips.contains(e.ip)
            &&& transports(t).contains(e.transport)
        } by {
            if k < prefix.len() {
                assert(all[k] == prefix[k]);
                let e = prefix[k];
                let w = choose|w: int| 0 <= w < dl.len() && dl[w] == e.ip;
                assert(ips[w] == e.ip);
            } else {
                assert(all[k] == last[k - prefix.len()]);
                assert(ips[n - 1] == ips.last());
                assert(transports(t)[k - prefix.len()] == all[k].transport);
            }
        }
    }
}

/// Index of the first `false` in `ok`, or its length.
pub open spec fn first_false(ok: Seq<bool>) -> int
    decreases ok.len(),
{
    if ok.len() == 0 {
        0
    } else if !ok[0] {
        0
    } else {
        1 + first_false(ok.drop_first())
    }
}

proof fn lemma_first_false(ok: Seq<bool>, i: int)
    requires
        0 <= i <= ok.len(),
        forall|k: int| 0 <= k < i ==> #[trigger] ok[k],
    ensures
        i < ok.len() && !ok[i] ==> first_false(ok) == i,
        i == ok.len() ==> first_false(ok) == ok.len(),
    decreases i,
{
    if i > 0 {
        lemma_first_false(ok.drop_first(), i - 1);
    }
}

/// The servers a resolver for `config` queries, given which of the configured
/// addresses parse as IP addresses (`ip_ok[i]` for `config.ips[i]`): the
/// first address that does not parse makes the settings unusable;
/// otherwise each address gives one server per transport of the DNS type,
/// on the configured port, with the server URL as TLS name when it is set.
pub fn name_servers(config: &DnsConfig, ip_ok: &Vec<bool>) -> (r: Result<Vec<NameServer>, ProxyError>)
    requires
        ip_ok@.len() == config.ips@.len(),
    ensures
        first_false(ip_ok@) < ip_ok@.len() ==> (r matches Err(e) && e.is(
            FailureKind::InvalidInput,
            "Invalid IP address: "@ + config.ips@[first_false(ip_ok@)]@,
        )),
        first_false(ip_ok@) == ip_ok@.len() ==> (r matches Ok(v) && name_server_views(v@)
            == servers_for(
            string_views(config.ips@),
            config.port,
            config.dns_type,
            tls_name(config.server_url@),
        )),
{
    let ghost ips = string_views(config.ips@);
    let ghost name = tls_name(config.server_url@);
    let mut result: Vec<NameServer> = Vec::new();
    let mut i: usize = 0;
    while i < config.ips.len()
        invariant
            i <= config.ips@.len() == ip_ok@.len(),
            ips == string_views(config.ips@),
            name == tls_name(config.server_url@),
            forall|k: int| 0 <= k < i ==> #[trigger] ip_ok@[k],
            name_server_views(result@) == servers_for(
                ips.take(i as int),
                config.port,
                config.dns_type,
                name,
            ),
        decreases config.ips@.len() - i,
    {
        if !ip_ok[i] {
            proof {
                lemma_first_false(ip_ok@, i as int);
            }
            let mut message = "Invalid IP address: ".to_owned();
            message.append(config.ips[i].as_str());
            return Err(ProxyError { kind: FailureKind::InvalidInput, message });
        }
        let ghost before = name_server_views(result@);
        let mut j: usize = 0;
        let kinds = transports_of(config.dns_type);
        while j < kinds.len()
            invariant
                i < config.ips@.len(),
                j <= kinds@.len(),
                kinds@ == transports(config.dns_type),
                name == tls_name(config.server_url@),
                name_server_views(result@) == before + server_entries(
                    config.ips@[i as int]@,
                    config.port,
                    config.dns_type,
                    name,
                ).take(j as int),
            decreases kinds@.len() - j,
        {
            let tls_dns_name = if config.server_url.as_str().is_empty() {
                None
            } else {
                Some(config.server_url.clone())
            };
            let entry = NameServer {
                ip: config.ips[i].clone(),
                port: config.port,
                transport: kinds[j],
                tls_dns_name,
            };
            proof {
                assert(entry@ == server_entries(
                    config.ips@[i as int]@,
                    config.port,
                    config.dns_type,
                    name,
                )[j as int]);
            }
            let ghost prev = name_server_views(result@);
            let ghost entries = server_entries(
                config.ips@[i as int]@,
                config.port,
                config.dns_type,
                name,
            );
            result.push(entry);
            proof {
                assert(name_server_views(result@) =~= prev.push(entry@));
                assert(entries.take(j + 1) =~= entries.take(j as int).push(entries[j as int]));
            }
            j = j + 1;
            proof {
                assert(name_server_views(result@) =~= before + server_entries(
                    config.ips@[i as int]@,
                    config.port,
                    config.dns_type,
                    name,
                ).take(j as int));
            }
        }
        proof {
            assert(ips.take(i + 1).drop_last() =~= ips.take(i as int));
            assert(server_entries(config.ips@[i as int]@, config.port, config.dns_type, name).take(
                j as int,
            ) =~= server_entries(config.ips@[i as int]@, config.port, config.dns_type, name));
        }
        i = i + 1;
    }
    proof {
        lemma_first_false(ip_ok@, i as int);
        assert(ips.take(i as int) =~= ips);
    }
    Ok(result)
}

/// The transports for a DNS type, in order.
fn transports_of(t: DnsType) -> (r: Vec<Transport>)
    ensures
        r@ == transports(t),
{
    let mut r: Vec<Transport> = Vec::new();
    match t {
        DnsType::Https => r.push(Transport::Https),
        DnsType::Tls => r.push(Transport::Tls),
        DnsType::Quic => r.push(Transport::Quic),
        DnsType::Unencrypted => {
            r.push(Transport::Udp);
            r.push(Transport::Tcp);
        },
    }
    assert(r@ =~= transports(t));
    r
}

impl Default for DnsConfig {
    /// DNS over HTTPS through Cloudflare's resolvers.
    fn default() -> (r: DnsConfig)
        ensures
            r.dns_type == DnsType::Https,
            r.server_url@ == "cloudflare-dns.com"@,
            string_views(r.ips@) == seq!["1.1.1.1"@, "1.0.0.1"@],
            r.port == 443,
            r.cache_size == 100,
    {
        let mut ips: Vec<String> = Vec::new();
        ips.push("1.1.1.1".to_owned());
        ips.push("1.0.0.1".to_owned());
        proof {
            assert(string_views(ips@) =~= seq!["1.1.1.1"@, "1.0.0.1"@]);
        }
        DnsConfig {
            dns_type: DnsType::Https,
            server_url: "cloudflare-dns.com".to_owned(),
            ips,
            port: 443,
            cache_size: 100,
        }
    }
}

} // verus!
