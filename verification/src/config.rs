//! Settings shared across the services.

use vstd::prelude::*;

verus! {

/// User-facing config for the rendezvous server.
#[derive(Debug)]
pub struct RendezvousConfig {
    /// Public address that clients are handed as their relay endpoint.
    pub relay_addr: String,
    /// UDP and TCP port that the rendezvous server binds.
    pub port: u16,
    /// TCP port that the relay listens on.
    pub relay_port: u16,
}

impl Clone for RendezvousConfig {
    /// The same settings.
    fn clone(&self) -> (r: Self)
        ensures
            r.relay_addr@ == self.relay_addr@,
            r.port == self.port,
            r.relay_port == self.relay_port,
    {
        RendezvousConfig {
            relay_addr: self.relay_addr.clone(),
            port: self.port,
            relay_port: self.relay_port,
        }
    }
}

impl Default for RendezvousConfig {
    /// The loopback address and RustDesk's ports.
    fn default() -> (r: Self)
        ensures
            r.relay_addr@ == "127.0.0.1"@,
            r.port == 21116,
            r.relay_port == 21117,
    {
        RendezvousConfig { relay_addr: "127.0.0.1".to_owned(), port: 21116, relay_port: 21117 }
    }
}

/// A copy of the settings has the same settings. By default the relay is on the
/// machine itself, on the port after that of the rendezvous server.
pub proof fn law_settings(config: RendezvousConfig, copy: RendezvousConfig, d: RendezvousConfig)
    requires
        call_ensures(RendezvousConfig::clone, (&config,), copy),
        call_ensures(RendezvousConfig::default, (), d),
    ensures
        copy.relay_addr@ == config.relay_addr@,
        copy.port == config.port,
        copy.relay_port == config.relay_port,
        d.relay_addr@ == "127.0.0.1"@,
        d.port == 21116,
        d.relay_port == d.port + 1,
{
}

} // verus!
