//! A message-passing fabric: many producers and many consumers attach as
//! endpoints to a shared net, and messages are routed by address — net id,
//! endpoint id, group id — rather than over a single pre-wired channel pair.
//!
//! Messages carry one of three payload kinds. Raw payloads are opaque byte
//! buffers, freely duplicable, and the only kind that crosses a TCP bridge
//! to another net. Clone payloads carry a tagged value that every accepting
//! endpoint receives as its own copy. Sync payloads carry a uniquely owned
//! tagged value: however many endpoints accept the envelope, the claim
//! token shared by all copies lets exactly one receiver keep it.
//!
//! A net owns its endpoints; they are reached through the ids the net hands
//! out. Sending never blocks: each endpoint takes or rejects the offered
//! message by its address and its limits, and the sender learns only the
//! count of takers. Receiving pops a queue, timed receives take a deadline,
//! and the bridge functions turn messages into wire frames and frames back
//! into messages; the sockets and threads around them are the caller's.

pub mod clonemessage;
pub mod endpoint;
pub mod message;
pub mod net;
pub mod queue;
pub mod rawmessage;
pub mod syncmessage;
pub mod tcp;
pub mod timespec;

pub use clonemessage::CloneMessage;
pub use endpoint::Endpoint;
pub use endpoint::IoError;
pub use endpoint::IoErrorCode;
pub use endpoint::IoResult;
pub use message::Message;
pub use message::MessagePayload;
pub use net::Net;
pub use net::ID;
pub use net::NetAddress;
pub use net::NetExternalAddress;
pub use net::UNUSED_ID;
pub use queue::InfiniteLinkQueue;
pub use queue::SafeQueue;
pub use queue::SizedRingQueue;
pub use queue::SizedRingQueueItem;
pub use rawmessage::NoPointers;
pub use rawmessage::RawMessage;
pub use syncmessage::ClaimTable;
pub use syncmessage::SyncMessage;
pub use tcp::Which;
pub use tcp::TcpBridgeConnector;
pub use tcp::TcpBridgeListener;
pub use tcp::TerminateMessage;
pub use timespec::get_time;
pub use timespec::Timespec;

