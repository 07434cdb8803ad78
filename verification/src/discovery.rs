use vstd::prelude::*;

verus! {

/// Which decentralized discovery mechanisms a torrent may use: private
/// torrents use none of them.
#[derive(Clone, Copy, Debug, PartialEq, Eq, Structural)]
pub struct DiscoveryPolicy {
    decentralized: bool,
}

impl View for DiscoveryPolicy {
    /// Whether decentralized discovery is allowed.
    type V = bool;

    closed spec fn view(&self) -> bool {
        self.decentralized
    }
}

impl DiscoveryPolicy {
    /// The policy for a torrent with the given `private` flag.
    pub fn for_torrent(private: bool) -> (policy: DiscoveryPolicy)
        ensures
            policy@ == !private,
    {
        DiscoveryPolicy { decentralized: !private }
    }

    pub fn dht_allowed(self) -> (allowed: bool)
        ensures
            allowed == self@,
    {
        self.decentralized
    }

    pub fn pex_allowed(self) -> (allowed: bool)
        ensures
            allowed == self@,
    {
        self.decentralized
    }

    pub fn lsd_allowed(self) -> (allowed: bool)
        ensures
            allowed == self@,
    {
        self.decentralized
    }

    pub fn port_message_allowed(self) -> (allowed: bool)
        ensures
            allowed == self@,
    {
        self.decentralized
    }
}

} // verus!
