use fracture::engine::{needs_rebind, settle_config_update};
use fracture::os::proxy::{loopback_address_string, SystemProxy};
use fracture::{console_config, AppConfig, ProxyController};

#[test]
fn controller_state() {
    let mut c = ProxyController::new(8081);
    assert_eq!(c.port(), 8081);
    assert!(!c.is_active());
    c.set_active(true);
    assert!(c.is_active());
    c.set_port(9000);
    assert_eq!(c.port(), 9000);
    assert!(c.is_active());
    c.set_active(false);
    assert!(!c.is_active());
}

#[test]
fn default_config() {
    let c = AppConfig::default();
    assert_eq!(c.proxy_port, 8081);
    assert_eq!(c.log_level, "info");
    assert!(!c.tls_record_fragmentation);
    assert_eq!(c.fragmentation_size, 100);
    assert!(!c.https_only);
}

#[test]
fn config_updates_keep_the_bound_port() {
    let current = console_config(8081, false, 100, false);
    let same_port = console_config(8081, true, 10, true);
    assert!(!needs_rebind(&current, &same_port));
    let next = settle_config_update(&current, &same_port, false);
    assert_eq!(next.proxy_port, 8081);
    assert!(next.tls_record_fragmentation && next.https_only);
    assert_eq!(next.fragmentation_size, 10);

    let moved = console_config(9090, true, 10, true);
    assert!(needs_rebind(&current, &moved));
    assert_eq!(settle_config_update(&current, &moved, true).proxy_port, 9090);
    let kept = settle_config_update(&current, &moved, false);
    assert_eq!(kept.proxy_port, 8081);
    assert_eq!(kept.fragmentation_size, 10);
}

#[test]
fn loopback_addresses() {
    assert_eq!(loopback_address_string(8081), "127.0.0.1:8081");
    assert_eq!(loopback_address_string(0), "127.0.0.1:0");
    assert_eq!(loopback_address_string(65535), "127.0.0.1:65535");
    assert_eq!(loopback_address_string(10), "127.0.0.1:10");
}

#[test]
fn system_proxy_without_os_support() {
    assert!(SystemProxy::enable(8081).is_ok());
    assert!(SystemProxy::disable().is_ok());
}
