//! How the engine takes in a new configuration while it runs.

use vstd::prelude::*;

use crate::{AppConfig, AppSettings};

verus! {

/// Whether taking in `incoming` means moving the listener to another port.
pub fn needs_rebind(current: &AppConfig, incoming: &AppConfig) -> (r: bool)
    ensures
        r == (incoming.proxy_port != current.proxy_port),
{
    incoming.proxy_port != current.proxy_port
}

/// The settings in force once `incoming` replaced `current`.
pub open spec fn settled_settings(current: AppSettings, incoming: AppSettings, rebound: bool) -> AppSettings {
    if incoming.proxy_port != current.proxy_port && !rebound {
        AppSettings { proxy_port: current.proxy_port, ..incoming }
    } else {
        incoming
    }
}

/// The configuration in force after `incoming` arrived while `current` was
/// in force: `incoming` as it stands, except that when the listener had to
/// move and could not be bound to the new port (`rebound` is false), the old
/// port stays. Whether the DNS resolver could be rebuilt does not change the
/// configuration: the engine keeps its previous resolver in that case.
pub fn settle_config_update(current: &AppConfig, incoming: &AppConfig, rebound: bool) -> (r:
    AppConfig)
    ensures
        r@ == settled_settings(current@, incoming@, rebound),
{
    let mut next = incoming.clone();
    if incoming.proxy_port != current.proxy_port && !rebound {
        next.proxy_port = current.proxy_port;
    }
    next
}

/// The engine's listener always serves the port the configuration in force
/// names: a configuration whose port could not be bound is never put in
/// force with that port.
pub proof fn lemma_settled_port_is_bound_port(
    current: AppSettings,
    incoming: AppSettings,
    rebound: bool,
)
    ensures
        settled_settings(current, incoming, rebound).proxy_port == (if incoming.proxy_port
            != current.proxy_port && rebound {
            incoming.proxy_port
        } else {
            current.proxy_port
        }),
        incoming.proxy_port == current.proxy_port ==> settled_settings(current, incoming, rebound)
            == incoming,
{
}

/// Taking in a configuration changes nothing but what it carries: once the
/// listener is on the incoming port (re-bound, or the port did not change)
/// the settings in force are exactly the incoming ones; when moving the
/// listener failed, they are the incoming ones in every field but the port,
/// which stays the one the engine still listens on.
pub proof fn lemma_settled_settings_are_incoming(
    current: AppSettings,
    incoming: AppSettings,
    rebound: bool,
)
    ensures
        rebound ==> settled_settings(current, incoming, rebound) == incoming,
        incoming.proxy_port == current.proxy_port ==> settled_settings(current, incoming, rebound)
            == incoming,
        ({
            let s = settled_settings(current, incoming, rebound);
            &&& s.log_level == incoming.log_level
            &&& s.tls_record_fragmentation == incoming.tls_record_fragmentation
            &&& s.fragmentation_size == incoming.fragmentation_size
            &&& s.https_only == incoming.https_only
            &&& s.dns == incoming.dns
            &&& (!rebound ==> s.proxy_port == current.proxy_port)
        }),
{
}

} // verus!
