//! Verified core of a peer-to-peer access-control service: status codes of the
//! wire protocol, request framing, access lists, storage tags and upload plans,
//! and the gossip-based peer discovery table.

pub mod status;
pub mod endpoint;
pub mod access_list;
pub mod store;
pub mod protocol;
pub mod discovery;

pub use status::Status;
