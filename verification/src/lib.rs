pub mod announce;
pub mod config;
pub mod credit;
pub mod flush;
pub mod peer;
pub mod store;
pub mod tracker;

pub use announce::{AnnounceEvent, AnnounceResponse, Event};
pub use config::{Config, ConfigError, ConfigKey, RawSettings};
pub use credit::credited;
pub use flush::{FlushAction, FlushEntry, FlushLedger};
pub use peer::{Index, IpAddress, Peer, PeerId};
pub use store::PeerMap;
pub use tracker::Tracker;
