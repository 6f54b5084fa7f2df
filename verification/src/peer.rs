use vstd::prelude::*;

verus! {

/// The 20-byte peer identifier a BitTorrent client chooses for itself.
/// It is unique per user, not globally: the tracker keys peers by the
/// (user, peer id) pair, never by either field alone.
#[derive(Clone, Copy, Debug, PartialEq, Eq, Hash)]
pub struct PeerId(pub [u8; 20]);

/// Composite identity of a peer in the store: a user may run several
/// clients at once, each with its own `PeerId`. Two identities are equal
/// iff both fields match.
#[derive(Clone, Copy, Debug, PartialEq, Eq, Hash)]
pub struct Index {
    pub user_id: u32,
    pub peer_id: PeerId,
}

/// A peer's network address, kept as plain octets so the swarm logic can
/// carry it through without caring about its shape.
#[derive(Clone, Copy, Debug)]
pub enum IpAddress {
    V4([u8; 4]),
    V6([u8; 16]),
}

/// One peer's state, owned exclusively by the peer store.
///
/// `uploaded` / `downloaded` are the cumulative counters as last reported
/// by the remote client, kept only so the next announce can compute a
/// delta. `updated_at` is seconds since the epoch of the last successful
/// announce and is the sole input to the lifecycle state machine.
/// `is_active` is derived state: a fresh announce always sets it true, and
/// only the expiry sweep sets it false.
#[derive(Clone, Copy, Debug)]
pub struct Peer {
    pub ip_address: IpAddress,
    pub user_id: u32,
    pub torrent_id: u32,
    pub port: u16,
    pub is_seeder: bool,
    pub is_active: bool,
    pub updated_at: u64,
    pub uploaded: u64,
    pub downloaded: u64,
}

impl Index {
    /// Field-by-field identity comparison; agrees with mathematical
    /// equality of the two identities.
    pub fn same_identity(&self, other: &Index) -> (r: bool)
        ensures
            r == (*self == *other),
    {
        if self.user_id != other.user_id {
            return false;
        }
        let mut i: usize = 0;
        while i < 20
            invariant
                0 <= i <= 20,
                self.user_id == other.user_id,
                forall|j: int| 0 <= j < i ==> self.peer_id.0@[j] == other.peer_id.0@[j],
            decreases 20 - i,
        {
            if self.peer_id.0[i] != other.peer_id.0[i] {
                assert(self.peer_id.0@[i as int] != other.peer_id.0@[i as int]);
                return false;
            }
            i += 1;
        }
        proof {
            broadcast use vstd::array::group_array_axioms;

            assert(self.peer_id.0 =~= other.peer_id.0);
        }
        true
    }
}

} // verus!
