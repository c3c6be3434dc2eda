//! Making servers discoverable on the local network, and discovering them.
//!
//! This is the core of a server browser, free of any transport and of any
//! scheduler: it validates the namespace that servers and clients share,
//! decides what to ask of the transport when a server is advertised or
//! withdrawn or a search begins, and folds the events of a browse into the
//! list of discovered servers.

pub mod address;
pub mod discovery;
pub mod events;
pub mod list;
pub mod metadata;
pub mod namespace;
pub mod plugin;
pub mod prelude;
pub mod registration;
pub mod server;
pub mod text;

pub use crate::address::AddressSet;
pub use crate::address::IpAddress;
pub use crate::discovery::search_servers;
pub use crate::discovery::update_discovered_servers;
pub use crate::discovery::SearchRequest;
pub use crate::discovery::SearchServers;
pub use crate::events::BrowseEvent;
pub use crate::events::MetadataShape;
pub use crate::events::ResolvedService;
pub use crate::list::DiscoveredServerList;
pub use crate::metadata::ServerMetadata;
pub use crate::metadata::ServerMetadataIter;
pub use crate::namespace::validate_name;
pub use crate::namespace::NameError;
pub use crate::plugin::ServerBrowserPlugin;
pub use crate::registration::register_server;
pub use crate::registration::unregister_server;
pub use crate::registration::RegistrationError;
pub use crate::registration::RegistrationState;
pub use crate::registration::ServiceDescriptor;
pub use crate::registration::TransportCommand;
pub use crate::server::DiscoverableServer;
pub use crate::server::DiscoveredServer;
