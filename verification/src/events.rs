//! What a browse of the local network reports, and how a report of a resolved
//! service becomes the record of a server.

use crate::address::AddressSet;
use crate::address::IpAddress;
use crate::metadata::collect_pairs;
use crate::metadata::property_views;
use crate::metadata::Entries;
use crate::metadata::ServerMetadata;
use crate::server::DiscoveredServer;
use crate::server::PeerRecord;
use crate::text::strip_local_suffix;
use crate::text::without_local_suffix;
use vstd::prelude::*;

verus! {

/// What the transport knows of a service instance that it has resolved.
#[derive(Debug)]
pub struct ResolvedService {
    /// The fully-qualified name of the instance. It tells instances apart and
    /// is not meant for display.
    pub fullname: String,
    /// The name of the host that the instance runs on, as the transport
    /// reports it, domain suffix included.
    pub hostname: String,
    /// The port that the instance reports.
    pub port: u16,
    /// The addresses that the instance is reachable on. An address may occur
    /// more than once.
    pub addresses: Vec<IpAddress>,
    /// The properties that the instance advertises, in the order in which
    /// they were received.
    pub properties: Vec<(String, String)>,
}

/// An event of a browse for one service type.
#[derive(Debug)]
pub enum BrowseEvent {
    /// Started searching for a service type.
    SearchStarted(String),
    /// Found an instance: service type, then the instance's fully-qualified name.
    ServiceFound(String, String),
    /// Resolved an instance with detailed info.
    ServiceResolved(ResolvedService),
    /// An instance was removed: service type, then the instance's
    /// fully-qualified name.
    ServiceRemoved(String, String),
    /// Stopped searching for a service type.
    SearchStopped(String),
}

/// Which of the advertised properties a discovered server's metadata keeps.
#[derive(Clone, Copy, Debug, PartialEq, Eq, Structural)]
pub enum MetadataShape {
    /// Every advertised property.
    Full,
    /// Only the property `name`. Where the server advertises none, the
    /// metadata holds `Unknown Server` under that key.
    NameOnly,
}

/// The key of the property that holds a server's user-facing name.
pub open spec fn name_key() -> Seq<char> {
    "name"@
}

/// The name given to a server that advertises none.
pub open spec fn unknown_server() -> Seq<char> {
    "Unknown Server"@
}

/// The metadata that a discovered server gets from the advertised
/// `properties`.
pub open spec fn shaped_metadata(
    shape: MetadataShape,
    properties: Seq<(Seq<char>, Seq<char>)>,
) -> Entries {
    let advertised = collect_pairs(properties);
    match shape {
        MetadataShape::Full => advertised,
        MetadataShape::NameOnly => Entries::empty().insert(
            name_key(),
            if advertised.dom().contains(name_key()) {
                advertised[name_key()]
            } else {
                unknown_server()
            },
        ),
    }
}

/// The record of the server that `info` describes: the host name without the
/// local domain suffix, the port, the addresses as a set, and the metadata
/// that `shape` keeps.
pub open spec fn derived_record(info: ResolvedService, shape: MetadataShape) -> PeerRecord {
    PeerRecord {
        hostname: without_local_suffix(info.hostname@),
        port: info.port,
        addresses: info.addresses@.to_set(),
        metadata: shaped_metadata(shape, property_views(info.properties@)),
    }
}

impl MetadataShape {
    /// Builds a discovered server's metadata from the advertised properties.
    pub fn extract(self, properties: &Vec<(String, String)>) -> (metadata: ServerMetadata)
        ensures
            metadata@ == shaped_metadata(self, property_views(properties@)),
    {
        let advertised = ServerMetadata::from_txt_properties(properties);
        match self {
            MetadataShape::Full => advertised,
            MetadataShape::NameOnly => {
                let name = match advertised.get("name") {
                    Some(name) => name,
                    None => "Unknown Server",
                };
                ServerMetadata::new().with("name", name)
            },
        }
    }
}

impl DiscoveredServer {
    /// The record of the server that `info` describes.
    pub fn from_resolved(info: &ResolvedService, shape: MetadataShape) -> (server: DiscoveredServer)
        ensures
            server@ == derived_record(*info, shape),
    {
        DiscoveredServer {
            hostname: strip_local_suffix(info.hostname.as_str()),
            port: info.port,
            addresses: AddressSet::from_addresses(&info.addresses),
            metadata: shape.extract(&info.properties),
        }
    }
}

} // verus!
