//! Prelude containing all types you need for making discoverable server and
//! for discovering servers.

pub use crate::discovery::SearchServers;
pub use crate::list::DiscoveredServerList;
pub use crate::metadata::ServerMetadata;
pub use crate::plugin::ServerBrowserPlugin;
pub use crate::server::DiscoverableServer;
pub use crate::server::DiscoveredServer;
