//! Decision logic of a coffee-points server: a distributed mutex per
//! resource, the byte formats of the packets that servers exchange, and the
//! book-keeping of the dispatcher that routes those packets.
use vstd::prelude::*;

pub mod bytes;
pub mod client_connections;
pub mod dist_mutex;
pub mod network;
pub mod packet_dispatcher;
pub mod server_id;

verus! {
} // verus!
