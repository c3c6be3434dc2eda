//! The record that a server advertises and the record that a client keeps of
//! a server it has discovered.

use crate::address::AddressSet;
use crate::address::IpAddress;
use crate::metadata::Entries;
use crate::metadata::ServerMetadata;
use vstd::prelude::*;

verus! {

/// Makes a server available for discovery on the local network.
#[derive(Debug)]
pub struct DiscoverableServer {
    /// Arbitrary port that you want to report to clients to use.
    /// This is just information for clients, no binding or connecting
    /// happens with this port.
    pub port: u16,
    /// Additional metadata to be sent to clients. You can add information such
    /// as the user-facing name of a server, current level loaded on server,
    /// current number of players, etc.
    pub metadata: ServerMetadata,
}

/// Contains info about discovered server on local network.
#[derive(Debug)]
pub struct DiscoveredServer {
    /// Hostname or name of a computer the server runs on.
    /// Useful when trying to distinguish multiple servers
    /// with same user-facing name
    pub hostname: String,
    /// Reported port that the client should use, see [`DiscoverableServer::port`]
    pub port: u16,
    /// Addresses the server is reachable on, you can try to connect to them in
    /// order or just use the first one
    pub addresses: AddressSet,
    /// Additional metadata received from server, see [`DiscoverableServer::metadata`]
    pub metadata: ServerMetadata,
}

/// What a [`DiscoverableServer`] holds.
pub struct AdvertisedRecord {
    /// The port that clients are told to use.
    pub port: u16,
    /// The metadata, by key.
    pub metadata: Entries,
}

/// What a [`DiscoveredServer`] holds. Two servers are equal if and only if
/// their records are.
pub struct PeerRecord {
    /// The name of the host, without the local domain suffix.
    pub hostname: Seq<char>,
    /// The port that the server reports.
    pub port: u16,
    /// The addresses that the server is reachable on.
    pub addresses: Set<IpAddress>,
    /// The metadata, by key.
    pub metadata: Entries,
}

impl View for DiscoverableServer {
    type V = AdvertisedRecord;

    open spec fn view(&self) -> AdvertisedRecord {
        AdvertisedRecord { port: self.port, metadata: self.metadata@ }
    }
}

impl View for DiscoveredServer {
    type V = PeerRecord;

    open spec fn view(&self) -> PeerRecord {
        PeerRecord {
            hostname: self.hostname@,
            port: self.port,
            addresses: self.addresses@,
            metadata: self.metadata@,
        }
    }
}

impl Clone for DiscoverableServer {
    fn clone(&self) -> (copy: Self)
        ensures
            copy@ == self@,
    {
        DiscoverableServer { port: self.port, metadata: self.metadata.clone() }
    }
}

impl Clone for DiscoveredServer {
    fn clone(&self) -> (copy: Self)
        ensures
            copy@ == self@,
    {
        DiscoveredServer {
            hostname: self.hostname.clone(),
            port: self.port,
            addresses: self.addresses.clone(),
            metadata: self.metadata.clone(),
        }
    }
}

impl PartialEq for DiscoveredServer {
    fn eq(&self, other: &Self) -> (same: bool) {
        self.hostname == other.hostname && self.port == other.port && self.addresses
            == other.addresses && self.metadata == other.metadata
    }
}

impl Eq for DiscoveredServer {

}

impl vstd::std_specs::cmp::PartialEqSpecImpl for DiscoveredServer {
    open spec fn obeys_eq_spec() -> bool {
        true
    }

    open spec fn eq_spec(&self, other: &Self) -> bool {
        self@ == other@
    }
}

} // verus!
