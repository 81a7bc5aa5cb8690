//! A centralized shell-command history service: the datagram grammar, the
//! statements handed to the store, and the rules of the query clients.

use vstd::prelude::*;

pub mod cli;
pub mod ctty;
pub mod schema;
pub mod store;
pub mod tcp;
pub mod text;
pub mod udp;
pub mod util;

verus! {

/// The service port, shared by the datagram listener and the query listener.
pub const HISTDB_PORT: u16 = 29080;

/// The largest payload a datagram can carry.
pub const MAX_DATAGRAM_SIZE: usize = 65_507;

} // verus!
