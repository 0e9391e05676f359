//! Building blocks for small network services: IPv4 address text, the
//! decisions of a UDP server, a two-level in-memory key/value store, random
//! choice and facts about the host.

pub mod error;
pub mod float;
pub mod network;
pub mod rd;
pub mod storage;
pub mod sys;
pub mod value;

pub use error::BaseError;
pub use network::addr::{addr_v4, ipv4_or_zero, ipv4_to_u32, parse_ipv4, u32_to_ipv4, u32_to_ipv4_le, NetAddr};
pub use network::udp::{datagram_action, get_cpu_count, DatagramAction, select_single_address, should_close_peer, ResolveError};
pub use rd::{element_for_draw, rand_element};
pub use storage::memory::MemTable;
pub use storage::{pair_or_empty, Kvpair, Storage, StorageIter};
pub use sys::{get_available_memory, get_sys_info, mebibytes, SysInfo};
pub use float::F64Bits;
pub use value::{Ev, Value};

use vstd::prelude::*;

verus! {

/// Largest datagram that one receive reads.
pub const PACKET_SIZE: usize = 1152;

/// A raw message body.
pub type Bytes = Vec<u8>;

} // verus!
