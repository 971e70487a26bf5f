//! Pointing the system-wide proxy setting at the local engine.

use vstd::prelude::*;

use crate::error::ProxyError;
use crate::text::{decimal_text, push_decimal};

verus! {

/// `127.0.0.1:<port>`, the loopback address of the engine's listener.
pub open spec fn loopback_address(port: u16) -> Seq<char> {
    "127.0.0.1:"@ + decimal_text(port as nat)
}

/// The loopback address (`127.0.0.1:<port>`) the engine listens on and the
/// system proxy setting points at.
pub fn loopback_address_string(port: u16) -> (r: String)
    ensures
        r@ == loopback_address(port),
{
    let mut address = "127.0.0.1:".to_owned();
    push_decimal(&mut address, port as u64);
    address
}

/// The system-wide proxy setting.
pub struct SystemProxy;

impl SystemProxy {
    /// Points the system-wide proxy at the engine on `port`. Where the
    /// operating system offers no setting this library can change, this
    /// does nothing and succeeds; the user points applications at
    /// `loopback_address(port)` by hand.
    pub fn enable(port: u16) -> (r: Result<(), ProxyError>)
        ensures
            r is Ok,
    {
        Ok(())
    }

    /// Clears the system-wide proxy setting. Where the operating system
    /// offers no setting this library can change, this does nothing and
    /// succeeds.
    pub fn disable() -> (r: Result<(), ProxyError>)
        ensures
            r is Ok,
    {
        Ok(())
    }
}

} // verus!
