use vstd::prelude::*;

use crate::peer::{Index, Peer};

verus! {

/// The peer store: the single source of truth for all currently-known
/// peers, an insertion-ordered map from identity to peer state. The map
/// itself comes from the `indexmap` crate; everything the rest of the
/// library knows about it is stated on the small wrapper methods below.
#[verifier::external_body]
pub struct PeerMap {
    inner: indexmap::IndexMap<Index, Peer>,
}

/// What the store holds, as a mathematical map from identity to peer.
pub uninterp spec fn peer_entries(m: PeerMap) -> Map<Index, Peer>;

/// The contents of a store with nothing in it.
pub open spec fn empty_peers() -> Map<Index, Peer> {
    Map::empty()
}

impl PeerMap {
    /// Relies on indexmap::IndexMap::new: creates an empty map.
    #[verifier::external_body]
    pub fn new() -> (m: PeerMap)
        ensures
            peer_entries(m) == empty_peers(),
    {
        PeerMap { inner: indexmap::IndexMap::new() }
    }

    /// Relies on indexmap::IndexMap::len: the number of entries.
    #[verifier::external_body]
    pub fn len(&self) -> (n: usize)
        ensures
            peer_entries(*self).dom().finite() ==> n == peer_entries(*self).dom().len(),
    {
        self.inner.len()
    }

    /// Relies on indexmap::IndexMap::get: the value stored for the key,
    /// if present. The peer is handed out by copy.
    #[verifier::external_body]
    pub fn get(&self, key: &Index) -> (r: Option<Peer>)
        ensures
            peer_entries(*self).dom().contains(*key) ==> r == Some(
                peer_entries(*self)[*key],
            ),
            !peer_entries(*self).dom().contains(*key) ==> r is None,
    {
        self.inner.get(key).copied()
    }

    /// Relies on indexmap::IndexMap::insert: inserts the pair, replacing
    /// and returning the prior value if the key was present.
    #[verifier::external_body]
    pub fn insert(&mut self, key: Index, value: Peer) -> (prior: Option<Peer>)
        ensures
            peer_entries(*final(self)) == peer_entries(*old(self)).insert(key, value),
            peer_entries(*final(self)).dom().finite(),
            peer_entries(*old(self)).dom().contains(key) ==> prior == Some(
                peer_entries(*old(self))[key],
            ),
            !peer_entries(*old(self)).dom().contains(key) ==> prior is None,
    {
        self.inner.insert(key, value)
    }

    /// Relies on indexmap::IndexMap::swap_remove: removes and returns the
    /// value stored for the key, or `None` if absent.
    #[verifier::external_body]
    pub fn swap_remove(&mut self, key: &Index) -> (prior: Option<Peer>)
        ensures
            peer_entries(*final(self)) == peer_entries(*old(self)).remove(*key),
            peer_entries(*final(self)).dom().finite(),
            peer_entries(*old(self)).dom().contains(*key) ==> prior == Some(
                peer_entries(*old(self))[*key],
            ),
            !peer_entries(*old(self)).dom().contains(*key) ==> prior is None,
    {
        self.inner.swap_remove(key)
    }

    /// Relies on indexmap::IndexMap::iter: yields every entry exactly
    /// once. The result enumerates the store: each element is an entry of
    /// the map, no key repeats, and every key of the map appears.
    #[verifier::external_body]
    pub fn to_vec(&self) -> (r: Vec<(Index, Peer)>)
        ensures
            peer_entries(*self).dom().finite() ==> r@.len() == peer_entries(*self).dom().len(),
            forall|i: int|
                0 <= i < r@.len() ==> peer_entries(*self).dom().contains((#[trigger] r@[i]).0)
                    && peer_entries(*self)[r@[i].0] == r@[i].1,
            forall|i: int, j: int| 0 <= i < j < r@.len() ==> r@[i].0 != r@[j].0,
            forall|k: Index|
                #[trigger] peer_entries(*self).dom().contains(k) ==> exists|i: int|
                    0 <= i < r@.len() && (#[trigger] r@[i]).0 == k,
    {
        self.inner.iter().map(|(k, v)| (*k, *v)).collect()
    }

    /// The entries of one torrent's swarm: exactly those whose peer
    /// carries the torrent id, each once. The bulk read behind peer
    /// selection.
    pub fn peers_for_torrent(&self, torrent_id: u32) -> (out: Vec<(Index, Peer)>)
        ensures
            forall|i: int|
                0 <= i < out@.len() ==> peer_entries(*self).dom().contains((#[trigger] out@[i]).0)
                    && peer_entries(*self)[out@[i].0] == out@[i].1 && out@[i].1.torrent_id
                    == torrent_id,
            forall|i: int, j: int| 0 <= i < j < out@.len() ==> out@[i].0 != out@[j].0,
            forall|k: Index|
                #[trigger] peer_entries(*self).dom().contains(k) && peer_entries(
                    *self,
                )[k].torrent_id == torrent_id ==> listed(out@, k),
    {
        let items = self.to_vec();
        let mut out: Vec<(Index, Peer)> = Vec::new();
        let mut i: usize = 0;
        while i < items.len()
            invariant
                0 <= i <= items@.len(),
                forall|l: int|
                    0 <= l < items@.len() ==> peer_entries(*self).dom().contains(
                        (#[trigger] items@[l]).0,
                    ) && peer_entries(*self)[items@[l].0] == items@[l].1,
                forall|l: int|
                    0 <= l < out@.len() ==> peer_entries(*self).dom().contains(
                        (#[trigger] out@[l]).0,
                    ) && peer_entries(*self)[out@[l].0] == out@[l].1 && out@[l].1.torrent_id
                        == torrent_id,
                forall|l1: int, l2: int| 0 <= l1 < l2 < out@.len() ==> out@[l1].0 != out@[l2].0,
                forall|j: int|
                    0 <= j < i && (#[trigger] items@[j]).1.torrent_id == torrent_id ==> listed(
                        out@,
                        items@[j].0,
                    ),
            decreases items@.len() - i,
        {
            let e = items[i];
            let ghost prev = out@;
            if e.1.torrent_id == torrent_id && !contains_identity(&out, &e.0) {
                out.push(e);
                proof {
                    assert(out@[out@.len() - 1] == e);
                    assert(listed(out@, e.0));
                }
            }
            proof {
                if prev.len() < out@.len() {
                    assert forall|k2: Index| listed(prev, k2) implies listed(out@, k2) by {
                        let l = choose|l: int|
                            0 <= l < prev.len() && (#[trigger] prev[l]).0 == k2;
                        assert(out@[l].0 == k2);
                    }
                }
            }
            i += 1;
        }
        proof {
            assert forall|k: Index|
                #[trigger] peer_entries(*self).dom().contains(k) && peer_entries(
                    *self,
                )[k].torrent_id == torrent_id implies listed(out@, k) by {
                let j = choose|j: int| 0 <= j < items@.len() && (#[trigger] items@[j]).0 == k;
                assert(items@[j].1.torrent_id == torrent_id);
            }
        }
        out
    }

    /// Inserts if absent, replaces if present; reports whether this was an
    /// insert (no prior entry) or an update, which the flush scheduler
    /// needs to choose between an insert and an update downstream.
    pub fn upsert(&mut self, key: Index, value: Peer) -> (was_insert: bool)
        ensures
            peer_entries(*final(self)) == peer_entries(*old(self)).insert(key, value),
            peer_entries(*final(self)).dom().finite(),
            was_insert == !peer_entries(*old(self)).dom().contains(key),
    {
        let prior = self.insert(key, value);
        prior.is_none()
    }

    /// Rebuilds a store from a row list, e.g. the durable store's full
    /// peer table at startup. Later rows win on a repeated identity.
    pub fn from_rows(rows: &Vec<(Index, Peer)>) -> (m: PeerMap)
        ensures
            peer_entries(m) == rows_to_map(rows@),
            peer_entries(m).dom().finite(),
    {
        let mut m = PeerMap::new();
        let mut i: usize = 0;
        while i < rows.len()
            invariant
                0 <= i <= rows@.len(),
                peer_entries(m) == rows_to_map(rows@.take(i as int)),
                peer_entries(m).dom().finite(),
            decreases rows@.len() - i,
        {
            m.insert(rows[i].0, rows[i].1);
            proof {
                assert(rows@.take(i + 1 as int).drop_last() =~= rows@.take(i as int));
                assert(rows@.take(i + 1 as int).last() == rows@[i as int]);
            }
            i += 1;
        }
        proof {
            assert(rows@.take(rows@.len() as int) =~= rows@);
        }
        m
    }
}

/// The map a row list denotes: rows applied in order, later rows winning.
pub open spec fn rows_to_map(rows: Seq<(Index, Peer)>) -> Map<Index, Peer>
    decreases rows.len(),
{
    if rows.len() == 0 {
        Map::empty()
    } else {
        rows_to_map(rows.drop_last()).insert(rows.last().0, rows.last().1)
    }
}

/// Whether the list holds an entry for the identity.
pub open spec fn listed(v: Seq<(Index, Peer)>, k: Index) -> bool {
    exists|l: int| 0 <= l < v.len() && (#[trigger] v[l]).0 == k
}

/// Executable membership test behind `listed`.
pub fn contains_identity(v: &Vec<(Index, Peer)>, k: &Index) -> (r: bool)
    ensures
        r == listed(v@, *k),
{
    let mut i: usize = 0;
    while i < v.len()
        invariant
            0 <= i <= v@.len(),
            forall|l: int| 0 <= l < i ==> (#[trigger] v@[l]).0 != *k,
        decreases v@.len() - i,
    {
        if v[i].0.same_identity(k) {
            return true;
        }
        i += 1;
    }
    false
}

/// How many entries of a list satisfy a predicate.
pub open spec fn count_matching(s: Seq<(Index, Peer)>, f: spec_fn((Index, Peer)) -> bool) -> int
    decreases s.len(),
{
    if s.len() == 0 {
        0
    } else {
        count_matching(s.drop_last(), f) + if f(s.last()) {
            1int
        } else {
            0int
        }
    }
}

/// A list matches the always-true predicate once per element.
pub proof fn lemma_count_all(s: Seq<(Index, Peer)>)
    ensures
        count_matching(s, |e: (Index, Peer)| true) == s.len(),
    decreases s.len(),
{
    if s.len() > 0 {
        lemma_count_all(s.drop_last());
    }
}

/// A list that enumerates a finite map — every element an entry, no key
/// twice, every key present — has as many matches for a predicate as the
/// map has matching entries.
pub proof fn lemma_enumeration_count(
    s: Seq<(Index, Peer)>,
    m: Map<Index, Peer>,
    f: spec_fn((Index, Peer)) -> bool,
)
    requires
        m.dom().finite(),
        forall|i: int|
            0 <= i < s.len() ==> m.dom().contains((#[trigger] s[i]).0) && m[s[i].0] == s[i].1,
        forall|i: int, j: int| 0 <= i < j < s.len() ==> s[i].0 != s[j].0,
        forall|k: Index|
            #[trigger] m.dom().contains(k) ==> exists|i: int|
                0 <= i < s.len() && (#[trigger] s[i]).0 == k,
    ensures
        count_matching(s, f) == m.dom().filter(|k: Index| f((k, m[k]))).len(),
    decreases s.len(),
{
    let fs = m.dom().filter(|k: Index| f((k, m[k])));
    m.dom().lemma_len_filter(|k: Index| f((k, m[k])));
    if s.len() == 0 {
        assert forall|k: Index| !fs.contains(k) by {
            if m.dom().contains(k) {
                let i = choose|i: int| 0 <= i < s.len() && (#[trigger] s[i]).0 == k;
            }
        }
        assert(fs =~= Set::<Index>::empty());
    } else {
        let e = s.last();
        let k0 = e.0;
        let s1 = s.drop_last();
        let m1 = m.remove(k0);
        assert(m.dom().contains(k0) && m[k0] == e.1);
        assert forall|i: int|
            0 <= i < s1.len() implies m1.dom().contains((#[trigger] s1[i]).0) && m1[s1[i].0]
            == s1[i].1 by {
            assert(s[i] == s1[i]);
            assert(s[i].0 != k0);
        }
        assert forall|k: Index| #[trigger] m1.dom().contains(k) implies exists|i: int|
            0 <= i < s1.len() && (#[trigger] s1[i]).0 == k by {
            let i = choose|i: int| 0 <= i < s.len() && (#[trigger] s[i]).0 == k;
            assert(k != k0);
            assert(i != s.len() - 1);
            assert(s1[i] == s[i]);
        }
        lemma_enumeration_count(s1, m1, f);
        let fs1 = m1.dom().filter(|k: Index| f((k, m1[k])));
        assert forall|k: Index| fs1.contains(k) <==> fs.remove(k0).contains(k) by {
            if k != k0 && m.dom().contains(k) {
                assert(m1[k] == m[k]);
            }
        }
        assert(fs1 =~= fs.remove(k0));
        broadcast use vstd::set::axiom_set_remove_len;

        if f(e) {
            assert(fs.contains(k0));
        } else {
            assert(!fs.contains(k0));
        }
    }
}

impl Default for PeerMap {
    /// An empty store.
    fn default() -> (m: Self)
        ensures
            peer_entries(m) == empty_peers(),
    {
        PeerMap::new()
    }
}

} // verus!
