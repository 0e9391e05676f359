//! The decisions of the UDP server.

use vstd::prelude::*;

verus! {

/// Why the address to bind could not be chosen.
#[derive(Clone, Copy, Debug, PartialEq, Eq)]
pub enum ResolveError {
    /// The address resolved to nothing.
    NoAddress,
    /// The address resolved to more than one socket address.
    ManyAddresses,
}

/// The one address that `addrs` holds: an error where it holds none or more
/// than one.
pub fn select_single_address<A>(addrs: Vec<A>) -> (r: Result<A, ResolveError>)
    ensures
        addrs@.len() == 0 ==> r == Err::<A, ResolveError>(ResolveError::NoAddress),
        addrs@.len() == 1 ==> r == Ok::<A, ResolveError>(addrs@[0]),
        addrs@.len() > 1 ==> r == Err::<A, ResolveError>(ResolveError::ManyAddresses),
{
    let mut addrs = addrs;
    if addrs.len() > 1 {
        return Err(ResolveError::ManyAddresses);
    }
    match addrs.pop() {
        Some(a) => Ok(a),
        None => Err(ResolveError::NoAddress),
    }
}

/// Whether a peer last heard from at `last_recv` has been silent for more
/// than `clean_sec` seconds at `current`.
pub fn should_close_peer(current: i64, last_recv: i64, clean_sec: u64) -> (r: bool)
    requires
        i64::MIN <= current - last_recv <= i64::MAX,
    ensures
        r == (current - last_recv > clean_sec),
{
    let silent = current - last_recv;
    if silent < 0 {
        return false;
    }
    silent as u64 > clean_sec
}

/// What a listener does with a datagram from one address: make a peer for
/// the address where it has none, and mark the peer heard from now where
/// timeouts are on. The data always goes to the address's peer.
#[derive(Clone, Copy, Debug, PartialEq, Eq)]
pub struct DatagramAction {
    pub create_peer: bool,
    pub touch: bool,
}

/// The action for a datagram from an address that has a peer already
/// (`peer_known`) or not, with timeouts on or off.
pub open spec fn datagram_action_spec(peer_known: bool, timeouts_on: bool) -> DatagramAction {
    DatagramAction { create_peer: !peer_known, touch: timeouts_on }
}

/// Decides what a listener does with a datagram.
pub fn datagram_action(peer_known: bool, timeouts_on: bool) -> (a: DatagramAction)
    ensures
        a == datagram_action_spec(peer_known, timeouts_on),
{
    DatagramAction { create_peer: !peer_known, touch: timeouts_on }
}

/// The peers of one listener: each address that has a peer, with the time
/// (in seconds) it was last heard from. A new peer's clock starts when it is
/// made.
pub open spec fn after_datagram<A>(
    peers: Map<A, i64>,
    addr: A,
    now: i64,
    a: DatagramAction,
) -> Map<A, i64> {
    if a.create_peer || a.touch {
        peers.insert(addr, now)
    } else {
        peers
    }
}

/// The peers once the input task of `addr`'s peer has ended: it is dropped.
pub open spec fn after_input_end<A>(peers: Map<A, i64>, addr: A) -> Map<A, i64> {
    peers.remove(addr)
}

/// The peers that a timeout sweep at `now` closes: those silent for more than
/// `clean_sec` seconds.
pub open spec fn due_for_close<A>(peers: Map<A, i64>, now: i64, clean_sec: u64) -> Set<A> {
    Set::new(|a: A| peers.contains_key(a) && now - peers[a] > clean_sec)
}

/// A datagram gives its address a peer, one per address: a known address
/// gets no second one, and the other addresses keep their peers and times.
pub proof fn lemma_datagram_one_peer_per_address<A>(
    peers: Map<A, i64>,
    addr: A,
    now: i64,
    timeouts_on: bool,
    other: A,
)
    ensures
        ({
            let a = datagram_action_spec(peers.contains_key(addr), timeouts_on);
            let next = after_datagram(peers, addr, now, a);
            &&& next.contains_key(addr)
            &&& peers.contains_key(addr) ==> !a.create_peer
            &&& next.dom() == peers.dom().insert(addr)
            &&& other != addr ==> next.contains_key(other) == peers.contains_key(other) && (
            peers.contains_key(other) ==> next[other] == peers[other])
        }),
{
    let a = datagram_action_spec(peers.contains_key(addr), timeouts_on);
    let next = after_datagram(peers, addr, now, a);
    assert(next.dom() =~= peers.dom().insert(addr));
}

/// With timeouts on, a datagram sets its peer's time to now, so the sweep at
/// that moment does not close it; with timeouts off, a known peer's time is
/// left as it was.
pub proof fn lemma_datagram_clock<A>(peers: Map<A, i64>, addr: A, now: i64, timeouts_on: bool, clean_sec: u64)
    ensures
        ({
            let a = datagram_action_spec(peers.contains_key(addr), timeouts_on);
            let next = after_datagram(peers, addr, now, a);
            &&& (timeouts_on || !peers.contains_key(addr)) ==> next[addr] == now && !due_for_close(
                next,
                now,
                clean_sec,
            ).contains(addr)
            &&& (!timeouts_on && peers.contains_key(addr)) ==> next == peers
        }),
{
}

/// A sweep closes a peer exactly when `should_close_peer` says so of its
/// time; a peer that has ended is closed by no sweep.
pub proof fn lemma_sweep_closes_silent_peers<A>(
    peers: Map<A, i64>,
    addr: A,
    now: i64,
    clean_sec: u64,
)
    requires
        peers.contains_key(addr),
    ensures
        due_for_close(peers, now, clean_sec).contains(addr) == (now - peers[addr] > clean_sec),
        !due_for_close(after_input_end(peers, addr), now, clean_sec).contains(addr),
{
}

/// `num_cpus::get`: the number of CPUs this process may use, which its
/// documentation promises is at least 1.
#[verifier::external_body]
fn num_cpus_get() -> (n: usize)
    ensures
        n >= 1,
{
    num_cpus::get()
}

/// How many sockets the server listens on: one per CPU that it may use.
pub fn get_cpu_count() -> (n: usize)
    ensures
        n >= 1,
{
    num_cpus_get()
}

} // verus!
