use fracture::dns::resolver::{name_servers, DnsConfig, DnsType, Transport};
use fracture::error::FailureKind;

fn config(dns_type: DnsType, ips: &[&str], url: &str, port: u16) -> DnsConfig {
    DnsConfig {
        dns_type,
        server_url: url.to_string(),
        ips: ips.iter().map(|s| s.to_string()).collect(),
        port,
        cache_size: 100,
    }
}

#[test]
fn dns_type_names() {
    for t in [DnsType::Https, DnsType::Tls, DnsType::Quic, DnsType::Unencrypted] {
        assert_eq!(DnsType::parse(&t.label()), Some(t));
        assert_eq!(t.label().parse::<DnsType>(), Ok(t));
    }
    assert_eq!(DnsType::Https.label(), "Https");
    assert_eq!(DnsType::Unencrypted.label(), "Unencrypted");
    assert_eq!(DnsType::parse("tls"), Some(DnsType::Tls));
    assert_eq!(DnsType::parse("QUIC"), None);
    assert_eq!("dns".parse::<DnsType>(), Err(()));
}

#[test]
fn plain_dns_uses_udp_then_tcp() {
    let c = config(DnsType::Unencrypted, &["8.8.8.8", "8.8.4.4"], "", 53);
    let servers = name_servers(&c, &vec![true, true]).unwrap();
    let summary: Vec<(String, u16, Transport, Option<String>)> = servers
        .into_iter()
        .map(|s| (s.ip, s.port, s.transport, s.tls_dns_name))
        .collect();
    assert_eq!(
        summary,
        vec![
            ("8.8.8.8".to_string(), 53, Transport::Udp, None),
            ("8.8.8.8".to_string(), 53, Transport::Tcp, None),
            ("8.8.4.4".to_string(), 53, Transport::Udp, None),
            ("8.8.4.4".to_string(), 53, Transport::Tcp, None),
        ]
    );
}

#[test]
fn encrypted_dns_uses_one_transport_with_tls_name() {
    let c = config(DnsType::Https, &["1.1.1.1", "1.0.0.1"], "cloudflare-dns.com", 443);
    let servers = name_servers(&c, &vec![true, true]).unwrap();
    assert_eq!(servers.len(), 2);
    for s in &servers {
        assert_eq!(s.transport, Transport::Https);
        assert_eq!(s.port, 443);
        assert_eq!(s.tls_dns_name.as_deref(), Some("cloudflare-dns.com"));
    }
    let c = config(DnsType::Quic, &["94.140.14.14"], "dns.adguard-dns.com", 853);
    let servers = name_servers(&c, &vec![true]).unwrap();
    assert_eq!(servers.len(), 1);
    assert_eq!(servers[0].transport, Transport::Quic);
    let c = config(DnsType::Tls, &["1.1.1.1"], "cloudflare-dns.com", 853);
    assert_eq!(name_servers(&c, &vec![true]).unwrap()[0].transport, Transport::Tls);
}

#[test]
fn first_bad_address_is_reported() {
    let c = config(DnsType::Unencrypted, &["8.8.8.8", "not_an_ip_address", "also bad"], "", 53);
    let e = name_servers(&c, &vec![true, false, false]).unwrap_err();
    assert_eq!(e.kind, FailureKind::InvalidInput);
    assert_eq!(e.message, "Invalid IP address: not_an_ip_address");
}

#[test]
fn default_dns_settings() {
    let c = DnsConfig::default();
    assert_eq!(c.dns_type, DnsType::Https);
    assert_eq!(c.server_url, "cloudflare-dns.com");
    assert_eq!(c.ips, vec!["1.1.1.1".to_string(), "1.0.0.1".to_string()]);
    assert_eq!(c.port, 443);
}
