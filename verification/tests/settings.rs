use fracture::dns::resolver::DnsType;
use fracture::settings::{apply_setting_edit, format_ip_list, parse_ip_list, SettingEdit};
use fracture::AppConfig;

#[test]
fn ip_list_parsing() {
    assert_eq!(parse_ip_list("1.1.1.1, 1.0.0.1"), vec!["1.1.1.1".to_string(), "1.0.0.1".to_string()]);
    assert_eq!(parse_ip_list(" 8.8.8.8 ,,  ,8.8.4.4,"), vec!["8.8.8.8".to_string(), "8.8.4.4".to_string()]);
    assert!(parse_ip_list("").is_empty());
    assert!(parse_ip_list(" , ").is_empty());
}

#[test]
fn ip_list_formatting() {
    let ips = vec!["1.1.1.1".to_string(), "1.0.0.1".to_string(), "9.9.9.9".to_string()];
    assert_eq!(format_ip_list(&ips), "1.1.1.1, 1.0.0.1, 9.9.9.9");
    assert_eq!(format_ip_list(&vec![]), "");
    assert_eq!(parse_ip_list(&format_ip_list(&ips)), ips);
}

#[test]
fn numeric_edits() {
    let mut config = AppConfig::default();
    apply_setting_edit(&mut config, SettingEdit::ProxyPort("9090".to_string()));
    assert_eq!(config.proxy_port, 9090);
    apply_setting_edit(&mut config, SettingEdit::ProxyPort("70000".to_string()));
    assert_eq!(config.proxy_port, 9090);
    apply_setting_edit(&mut config, SettingEdit::FragmentationSize("256".to_string()));
    assert_eq!(config.fragmentation_size, 256);
    apply_setting_edit(&mut config, SettingEdit::FragmentationSize("abc".to_string()));
    assert_eq!(config.fragmentation_size, 256);
    apply_setting_edit(&mut config, SettingEdit::DnsPort("853".to_string()));
    assert_eq!(config.dns.port, 853);
    apply_setting_edit(&mut config, SettingEdit::CacheSize("4096".to_string()));
    assert_eq!(config.dns.cache_size, 4096);
    apply_setting_edit(&mut config, SettingEdit::CacheSize("".to_string()));
    assert_eq!(config.dns.cache_size, 4096);
}

#[test]
fn other_edits() {
    let mut config = AppConfig::default();
    apply_setting_edit(&mut config, SettingEdit::LogLevel("trace".to_string()));
    assert_eq!(config.log_level, "trace");
    apply_setting_edit(&mut config, SettingEdit::HttpsOnly(true));
    assert!(config.https_only);
    apply_setting_edit(&mut config, SettingEdit::TlsRecordFragmentation(true));
    assert!(config.tls_record_fragmentation);
    apply_setting_edit(&mut config, SettingEdit::DnsType("Quic".to_string()));
    assert_eq!(config.dns.dns_type, DnsType::Quic);
    apply_setting_edit(&mut config, SettingEdit::DnsType("carrier pigeon".to_string()));
    assert_eq!(config.dns.dns_type, DnsType::Unencrypted);
    apply_setting_edit(&mut config, SettingEdit::ServerUrl("dns.example".to_string()));
    assert_eq!(config.dns.server_url, "dns.example");
    apply_setting_edit(&mut config, SettingEdit::ServerIps("9.9.9.9, 149.112.112.112".to_string()));
    assert_eq!(config.dns.ips, vec!["9.9.9.9".to_string(), "149.112.112.112".to_string()]);
}
