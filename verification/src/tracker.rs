use vstd::prelude::*;

use crate::announce::{
    eligible, eligible_count, interval_spec, next_interval, numwant_cap, raw_delta,
    raw_delta_spec, select_peers, AnnounceEvent, AnnounceResponse, Event,
};
use crate::config::Config;
use crate::credit::{credited, credited_clamped};
use crate::flush::{FlushAction, FlushEntry, FlushLedger};
use crate::peer::{Index, Peer};
use crate::store::{
    count_matching, empty_peers, lemma_enumeration_count, listed, peer_entries, rows_to_map,
    PeerMap,
};

verus! {

/// The swarm state engine: the peer store, the flush journal and the
/// configuration, driven by announce events and the periodic sweep.
pub struct Tracker {
    pub config: Config,
    pub peers: PeerMap,
    pub ledger: FlushLedger,
}

/// The peer record an accepted (non-stopped) announce leaves in the
/// store: refreshed address, role and counters, active again, stamped
/// with the time of this announce.
pub open spec fn refreshed_peer(ev: AnnounceEvent, now: u64) -> Peer {
    Peer {
        ip_address: ev.ip_address,
        user_id: ev.identity.user_id,
        torrent_id: ev.torrent_id,
        port: ev.port,
        is_seeder: ev.is_seeder,
        is_active: true,
        updated_at: now,
        uploaded: ev.uploaded_raw,
        downloaded: ev.downloaded_raw,
    }
}

/// The upload counter the store last saw for this identity, zero if it
/// holds none.
pub open spec fn prior_uploaded(m: Map<Index, Peer>, me: Index) -> u64 {
    if m.dom().contains(me) {
        m[me].uploaded
    } else {
        0
    }
}

/// The download counter the store last saw for this identity.
pub open spec fn prior_downloaded(m: Map<Index, Peer>, me: Index) -> u64 {
    if m.dom().contains(me) {
        m[me].downloaded
    } else {
        0
    }
}

/// The journal entry one announce records: a delete for a stopped event,
/// else an insert or update depending on whether the store already held
/// the identity — together with the credited deltas this announce earned.
pub open spec fn announce_flush_entry(
    m: Map<Index, Peer>,
    ev: AnnounceEvent,
    cfg: Config,
    now: u64,
) -> FlushEntry {
    FlushEntry {
        identity: ev.identity,
        action: if ev.event is Stopped {
            FlushAction::Delete
        } else if m.dom().contains(ev.identity) {
            FlushAction::Update(refreshed_peer(ev, now))
        } else {
            FlushAction::Insert(refreshed_peer(ev, now))
        },
        credited_uploaded: credited_clamped(
            raw_delta_spec(ev.uploaded_raw, prior_uploaded(m, ev.identity)),
            cfg.upload_factor as int,
        ) as u64,
        credited_downloaded: credited_clamped(
            raw_delta_spec(ev.downloaded_raw, prior_downloaded(m, ev.identity)),
            cfg.download_factor as int,
        ) as u64,
    }
}

/// Seconds since the peer's last announce, zero for a timestamp that
/// lies in the future.
pub open spec fn elapsed_secs(p: Peer, now: u64) -> int {
    if now >= p.updated_at {
        now - p.updated_at
    } else {
        0
    }
}

/// The peer with its activity flag dropped; everything else unchanged.
pub open spec fn demoted(p: Peer) -> Peer {
    Peer { is_active: false, ..p }
}

/// What one sweep pass does to one peer: erase it once the inactive TTL
/// has elapsed (the removal check subsumes the demotion check), demote a
/// still-active peer past the active TTL, and otherwise leave it alone.
pub open spec fn swept(p: Peer, now: u64, active_ttl: u64, inactive_ttl: u64) -> Option<Peer> {
    if elapsed_secs(p, now) >= inactive_ttl {
        None
    } else if p.is_active && elapsed_secs(p, now) >= active_ttl {
        Some(demoted(p))
    } else {
        Some(p)
    }
}

/// Whether the store `m` shows the sweep outcome for the entry `e`.
pub open spec fn sweep_applied(
    m: Map<Index, Peer>,
    e: (Index, Peer),
    now: u64,
    active_ttl: u64,
    inactive_ttl: u64,
) -> bool {
    match swept(e.1, now, active_ttl, inactive_ttl) {
        None => !m.dom().contains(e.0),
        Some(q) => m.dom().contains(e.0) && m[e.0] == q,
    }
}

/// The identities of the active seeders of one torrent's swarm.
pub open spec fn swarm_seeders(m: Map<Index, Peer>, torrent_id: u32) -> Set<Index> {
    m.dom().filter(
        |k: Index| m[k].torrent_id == torrent_id && m[k].is_active && m[k].is_seeder,
    )
}

/// The identities of the active leechers of one torrent's swarm.
pub open spec fn swarm_leechers(m: Map<Index, Peer>, torrent_id: u32) -> Set<Index> {
    m.dom().filter(
        |k: Index| m[k].torrent_id == torrent_id && m[k].is_active && !m[k].is_seeder,
    )
}

/// Whether the journal records, at or after position `lo`, a deletion of
/// the identity.
pub open spec fn recorded_delete(s: Seq<FlushEntry>, lo: int, k: Index) -> bool {
    exists|i: int| lo <= i < s.len() && (#[trigger] s[i]).identity == k && s[i].action is Delete
}

impl Tracker {
    /// A tracker in a healthy state: its configuration was validated and
    /// its store is a real, finite map.
    pub open spec fn wf(self) -> bool {
        self.config.valid() && peer_entries(self.peers).dom().finite()
    }

    /// A tracker with an empty swarm state.
    pub fn new(config: Config) -> (t: Tracker)
        requires
            config.valid(),
        ensures
            t.wf(),
            t.config == config,
            peer_entries(t.peers) == empty_peers(),
            t.ledger@.len() == 0,
    {
        Tracker { config, peers: PeerMap::new(), ledger: FlushLedger::new() }
    }

    /// A tracker warmed from the durable store's peer rows, as loaded at
    /// startup; nothing is pending toward the durable store.
    pub fn warm(config: Config, rows: &Vec<(Index, Peer)>) -> (t: Tracker)
        requires
            config.valid(),
        ensures
            t.wf(),
            t.config == config,
            peer_entries(t.peers) == rows_to_map(rows@),
            t.ledger@.len() == 0,
    {
        Tracker { config, peers: PeerMap::from_rows(rows), ledger: FlushLedger::new() }
    }

    /// Applies one announce. A stopped event removes the identity at
    /// once, bypassing every TTL; anything else refreshes the stored
    /// peer. Either way the journal gains exactly one entry carrying the
    /// credited deltas, and the client gets its interval — for a
    /// non-stopped event together with a bounded peer list that never
    /// contains the requester itself.
    pub fn announce(&mut self, event: &AnnounceEvent, now: u64, interval_draw: u64) -> (r:
        AnnounceResponse)
        requires
            old(self).wf(),
        ensures
            final(self).wf(),
            final(self).config == old(self).config,
            r.interval as int == interval_spec(
                interval_draw,
                old(self).config.announce_min,
                old(self).config.announce_max,
            ),
            old(self).config.announce_min <= r.interval <= old(self).config.announce_max,
            final(self).ledger@ == old(self).ledger@.push(
                announce_flush_entry(
                    peer_entries(old(self).peers),
                    *event,
                    old(self).config,
                    now,
                ),
            ),
            event.event is Stopped ==> peer_entries(final(self).peers) == peer_entries(
                old(self).peers,
            ).remove(event.identity),
            event.event is Stopped ==> r.peers@.len() == 0,
            !(event.event is Stopped) ==> peer_entries(final(self).peers) == peer_entries(
                old(self).peers,
            ).insert(event.identity, refreshed_peer(*event, now)),
            !(event.event is Stopped) ==> (forall|i: int|
                0 <= i < r.peers@.len() ==> eligible(
                    peer_entries(final(self).peers),
                    (#[trigger] r.peers@[i]).0,
                    event.torrent_id,
                    event.identity,
                ) && peer_entries(final(self).peers)[r.peers@[i].0] == r.peers@[i].1),
            forall|i: int, j: int| 0 <= i < j < r.peers@.len() ==> r.peers@[i].0 != r.peers@[j].0,
            r.peers@.len() <= numwant_cap(old(self).config, event.numwant),
            !(event.event is Stopped) && r.peers@.len() < numwant_cap(
                old(self).config,
                event.numwant,
            ) ==> (forall|k: Index|
                eligible(peer_entries(final(self).peers), k, event.torrent_id, event.identity)
                    ==> listed(r.peers@, k)),
            !(event.event is Stopped) && r.peers@.len() < numwant_cap(
                old(self).config,
                event.numwant,
            ) ==> r.peers@.len() == eligible_count(
                peer_entries(final(self).peers),
                event.torrent_id,
                event.identity,
            ),
    {
        let me = event.identity;
        let prior = self.peers.get(&me);
        let (prior_up, prior_down) = match prior {
            Some(p) => (p.uploaded, p.downloaded),
            None => (0u64, 0u64),
        };
        let du = raw_delta(event.uploaded_raw, prior_up);
        let dd = raw_delta(event.downloaded_raw, prior_down);
        let cu = credited(du, self.config.upload_factor);
        let cd = credited(dd, self.config.download_factor);
        let interval = next_interval(
            interval_draw,
            self.config.announce_min,
            self.config.announce_max,
        );
        match event.event {
            Event::Stopped => {
                self.peers.swap_remove(&me);
                self.ledger.record(
                    FlushEntry {
                        identity: me,
                        action: FlushAction::Delete,
                        credited_uploaded: cu,
                        credited_downloaded: cd,
                    },
                );
                AnnounceResponse { peers: Vec::new(), interval }
            },
            _ => {
                let fresh = Peer {
                    ip_address: event.ip_address,
                    user_id: me.user_id,
                    torrent_id: event.torrent_id,
                    port: event.port,
                    is_seeder: event.is_seeder,
                    is_active: true,
                    updated_at: now,
                    uploaded: event.uploaded_raw,
                    downloaded: event.downloaded_raw,
                };
                let was_insert = self.peers.upsert(me, fresh);
                let action = if was_insert {
                    FlushAction::Insert(fresh)
                } else {
                    FlushAction::Update(fresh)
                };
                self.ledger.record(
                    FlushEntry {
                        identity: me,
                        action,
                        credited_uploaded: cu,
                        credited_downloaded: cd,
                    },
                );
                let want = match event.numwant {
                    Some(w) => w,
                    None => self.config.numwant_default,
                };
                let cap = if want <= self.config.numwant_max {
                    want
                } else {
                    self.config.numwant_max
                };
                let peers = select_peers(&self.peers, event.torrent_id, &me, event.is_seeder, cap);
                AnnounceResponse { peers, interval }
            },
        }
    }

    /// One expiry pass over the whole store at time `now`: every peer
    /// whose inactive TTL has elapsed is erased and journalled as a
    /// deletion, every still-active peer past the active TTL is marked
    /// inactive in place, and everything else is untouched. Nothing is
    /// ever added, and the journal keeps all earlier entries.
    pub fn sweep(&mut self, now: u64)
        requires
            old(self).wf(),
        ensures
            final(self).wf(),
            final(self).config == old(self).config,
            forall|k: Index|
                #[trigger] peer_entries(final(self).peers).dom().contains(k) ==> peer_entries(
                    old(self).peers,
                ).dom().contains(k),
            forall|k: Index|
                #[trigger] peer_entries(old(self).peers).dom().contains(k) ==> sweep_applied(
                    peer_entries(final(self).peers),
                    (k, peer_entries(old(self).peers)[k]),
                    now,
                    old(self).config.active_peer_ttl,
                    old(self).config.inactive_peer_ttl,
                ),
            old(self).ledger@.len() <= final(self).ledger@.len(),
            forall|i: int|
                0 <= i < old(self).ledger@.len() ==> final(self).ledger@[i] == old(self).ledger@[i],
            forall|i: int|
                old(self).ledger@.len() <= i < final(self).ledger@.len() ==> ((
                #[trigger] final(self).ledger@[i]).action is Delete
                    && final(self).ledger@[i].credited_uploaded == 0
                    && final(self).ledger@[i].credited_downloaded == 0
                    && peer_entries(old(self).peers).dom().contains(
                    final(self).ledger@[i].identity,
                ) && swept(
                    peer_entries(old(self).peers)[final(self).ledger@[i].identity],
                    now,
                    old(self).config.active_peer_ttl,
                    old(self).config.inactive_peer_ttl,
                ) is None),
            forall|k: Index|
                #[trigger] peer_entries(old(self).peers).dom().contains(k) && swept(
                    peer_entries(old(self).peers)[k],
                    now,
                    old(self).config.active_peer_ttl,
                    old(self).config.inactive_peer_ttl,
                ) is None ==> recorded_delete(
                    final(self).ledger@,
                    old(self).ledger@.len() as int,
                    k,
                ),
    {
        let items = self.peers.to_vec();
        let ghost m0 = peer_entries(self.peers);
        let ghost led0 = self.ledger@;
        let active_ttl = self.config.active_peer_ttl;
        let inactive_ttl = self.config.inactive_peer_ttl;
        let mut i: usize = 0;
        while i < items.len()
            invariant
                0 <= i <= items@.len(),
                self.config == old(self).config,
                active_ttl == self.config.active_peer_ttl,
                inactive_ttl == self.config.inactive_peer_ttl,
                m0 == peer_entries(old(self).peers),
                led0 == old(self).ledger@,
                m0.dom().finite(),
                peer_entries(self.peers).dom().finite(),
                forall|l: int|
                    0 <= l < items@.len() ==> m0.dom().contains((#[trigger] items@[l]).0)
                        && m0[items@[l].0] == items@[l].1,
                forall|l1: int, l2: int| 0 <= l1 < l2 < items@.len() ==> items@[l1].0
                    != items@[l2].0,
                forall|k: Index|
                    #[trigger] m0.dom().contains(k) ==> exists|l: int|
                        0 <= l < items@.len() && (#[trigger] items@[l]).0 == k,
                forall|k: Index|
                    #[trigger] peer_entries(self.peers).dom().contains(k) ==> m0.dom().contains(k),
                forall|j: int|
                    0 <= j < i ==> sweep_applied(
                        peer_entries(self.peers),
                        #[trigger] items@[j],
                        now,
                        active_ttl,
                        inactive_ttl,
                    ),
                forall|j: int|
                    i <= j < items@.len() ==> peer_entries(self.peers).dom().contains(
                        (#[trigger] items@[j]).0,
                    ) && peer_entries(self.peers)[items@[j].0] == items@[j].1,
                led0.len() <= self.ledger@.len(),
                forall|l: int| 0 <= l < led0.len() ==> self.ledger@[l] == led0[l],
                forall|l: int|
                    led0.len() <= l < self.ledger@.len() ==> ((
                    #[trigger] self.ledger@[l]).action is Delete
                        && self.ledger@[l].credited_uploaded == 0
                        && self.ledger@[l].credited_downloaded == 0 && m0.dom().contains(
                        self.ledger@[l].identity,
                    ) && swept(m0[self.ledger@[l].identity], now, active_ttl, inactive_ttl) is None),
                forall|j: int|
                    0 <= j < i && swept(
                        (#[trigger] items@[j]).1,
                        now,
                        active_ttl,
                        inactive_ttl,
                    ) is None ==> recorded_delete(self.ledger@, led0.len() as int, items@[j].0),
            decreases items@.len() - i,
        {
            let (k, p) = items[i];
            let ghost prev_led = self.ledger@;
            let elapsed: u64 = if now >= p.updated_at {
                now - p.updated_at
            } else {
                0
            };
            if elapsed >= inactive_ttl {
                self.peers.swap_remove(&k);
                self.ledger.record(
                    FlushEntry {
                        identity: k,
                        action: FlushAction::Delete,
                        credited_uploaded: 0,
                        credited_downloaded: 0,
                    },
                );
                proof {
                    assert(self.ledger@[self.ledger@.len() - 1].identity == k);
                    assert(recorded_delete(self.ledger@, led0.len() as int, k));
                    assert forall|k2: Index|
                        recorded_delete(prev_led, led0.len() as int, k2) implies recorded_delete(
                        self.ledger@,
                        led0.len() as int,
                        k2,
                    ) by {
                        let l = choose|l: int|
                            led0.len() <= l < prev_led.len() && (#[trigger] prev_led[l]).identity
                                == k2 && prev_led[l].action is Delete;
                        assert(self.ledger@[l] == prev_led[l]);
                    }
                }
            } else if p.is_active && elapsed >= active_ttl {
                let q = Peer {
                    ip_address: p.ip_address,
                    user_id: p.user_id,
                    torrent_id: p.torrent_id,
                    port: p.port,
                    is_seeder: p.is_seeder,
                    is_active: false,
                    updated_at: p.updated_at,
                    uploaded: p.uploaded,
                    downloaded: p.downloaded,
                };
                self.peers.insert(k, q);
                proof {
                    assert(q == demoted(p));
                }
            }
            i += 1;
        }
        proof {
            assert forall|k: Index|
                #[trigger] peer_entries(old(self).peers).dom().contains(k) implies sweep_applied(
                peer_entries(self.peers),
                (k, peer_entries(old(self).peers)[k]),
                now,
                active_ttl,
                inactive_ttl,
            ) by {
                let j = choose|j: int| 0 <= j < items@.len() && (#[trigger] items@[j]).0 == k;
                assert(sweep_applied(
                    peer_entries(self.peers),
                    items@[j],
                    now,
                    active_ttl,
                    inactive_ttl,
                ));
            }
            assert forall|k: Index|
                #[trigger] peer_entries(old(self).peers).dom().contains(k) && swept(
                    peer_entries(old(self).peers)[k],
                    now,
                    active_ttl,
                    inactive_ttl,
                ) is None implies recorded_delete(self.ledger@, led0.len() as int, k) by {
                let j = choose|j: int| 0 <= j < items@.len() && (#[trigger] items@[j]).0 == k;
                assert(swept(items@[j].1, now, active_ttl, inactive_ttl) is None);
            }
        }
    }

    /// Counts one torrent's swarm for the announce response: how many
    /// active seeders and how many active leechers the store holds for
    /// it.
    pub fn swarm_stats(&self, torrent_id: u32) -> (r: (usize, usize))
        requires
            self.wf(),
        ensures
            r.0 == swarm_seeders(peer_entries(self.peers), torrent_id).len(),
            r.1 == swarm_leechers(peer_entries(self.peers), torrent_id).len(),
    {
        let items = self.peers.to_vec();
        let ghost m = peer_entries(self.peers);
        let ghost fseed = |e: (Index, Peer)|
            e.1.torrent_id == torrent_id && e.1.is_active && e.1.is_seeder;
        let ghost fleech = |e: (Index, Peer)|
            e.1.torrent_id == torrent_id && e.1.is_active && !e.1.is_seeder;
        let mut seeders: usize = 0;
        let mut leechers: usize = 0;
        let mut i: usize = 0;
        while i < items.len()
            invariant
                0 <= i <= items@.len(),
                seeders <= i,
                leechers <= i,
                seeders == count_matching(items@.take(i as int), fseed),
                leechers == count_matching(items@.take(i as int), fleech),
                fseed == (|e: (Index, Peer)|
                    e.1.torrent_id == torrent_id && e.1.is_active && e.1.is_seeder),
                fleech == (|e: (Index, Peer)|
                    e.1.torrent_id == torrent_id && e.1.is_active && !e.1.is_seeder),
            decreases items@.len() - i,
        {
            let e = items[i];
            proof {
                assert(items@.take(i + 1 as int).drop_last() =~= items@.take(i as int));
                assert(items@.take(i + 1 as int).last() == items@[i as int]);
            }
            if e.1.torrent_id == torrent_id && e.1.is_active {
                if e.1.is_seeder {
                    seeders += 1;
                } else {
                    leechers += 1;
                }
            }
            i += 1;
        }
        proof {
            assert(items@.take(items@.len() as int) =~= items@);
            lemma_enumeration_count(items@, m, fseed);
            lemma_enumeration_count(items@, m, fleech);
            assert(m.dom().filter(|k: Index| fseed((k, m[k]))) =~= swarm_seeders(m, torrent_id));
            assert(m.dom().filter(|k: Index| fleech((k, m[k]))) =~= swarm_leechers(m, torrent_id));
        }
        (seeders, leechers)
    }

    /// Forcibly removes one identity (the administrative path): the store
    /// drops it at once and the journal records the deletion, with no
    /// credit attached.
    pub fn remove_peer(&mut self, identity: &Index) -> (prior: Option<Peer>)
        requires
            old(self).wf(),
        ensures
            final(self).wf(),
            final(self).config == old(self).config,
            peer_entries(final(self).peers) == peer_entries(old(self).peers).remove(*identity),
            peer_entries(old(self).peers).dom().contains(*identity) ==> prior == Some(
                peer_entries(old(self).peers)[*identity],
            ),
            !peer_entries(old(self).peers).dom().contains(*identity) ==> prior is None,
            final(self).ledger@ == old(self).ledger@.push(
                FlushEntry {
                    identity: *identity,
                    action: FlushAction::Delete,
                    credited_uploaded: 0,
                    credited_downloaded: 0,
                },
            ),
    {
        let prior = self.peers.swap_remove(identity);
        self.ledger.record(
            FlushEntry {
                identity: *identity,
                action: FlushAction::Delete,
                credited_uploaded: 0,
                credited_downloaded: 0,
            },
        );
        prior
    }

    /// Takes everything pending as one batch for the durable store,
    /// leaving the journal empty. Swarm state is untouched: a flush never
    /// blocks or changes announce handling.
    pub fn take_batch(&mut self) -> (batch: Vec<FlushEntry>)
        requires
            old(self).wf(),
        ensures
            final(self).wf(),
            final(self).config == old(self).config,
            peer_entries(final(self).peers) == peer_entries(old(self).peers),
            batch@ == old(self).ledger@,
            final(self).ledger@.len() == 0,
    {
        self.ledger.take_batch()
    }

    /// Gives a batch back after a failed durable write; it will precede
    /// everything recorded since it was taken, so the retry preserves
    /// the original order of changes.
    pub fn requeue(&mut self, batch: &Vec<FlushEntry>)
        requires
            old(self).wf(),
        ensures
            final(self).wf(),
            final(self).config == old(self).config,
            peer_entries(final(self).peers) == peer_entries(old(self).peers),
            final(self).ledger@ == batch@ + old(self).ledger@,
    {
        self.ledger.requeue(batch)
    }
}

} // verus!
