use vstd::prelude::*;

use crate::config::Config;
use crate::credit::credited_clamped;
use crate::peer::{Index, IpAddress, Peer};
use crate::store::{
    contains_identity, lemma_count_all, lemma_enumeration_count, listed, peer_entries, PeerMap,
};

verus! {

/// What a client says it is doing in an announce. A wire value the codec
/// does not recognise is handed over as `Empty`.
#[derive(Clone, Copy, Debug, PartialEq, Eq, Structural)]
pub enum Event {
    Started,
    Stopped,
    Completed,
    Empty,
}

/// One announce request, already decoded by the protocol codec.
#[derive(Clone, Copy, Debug)]
pub struct AnnounceEvent {
    pub identity: Index,
    pub torrent_id: u32,
    pub ip_address: IpAddress,
    pub port: u16,
    /// Cumulative bytes uploaded, as the client reports them.
    pub uploaded_raw: u64,
    /// Cumulative bytes downloaded, as the client reports them.
    pub downloaded_raw: u64,
    pub is_seeder: bool,
    /// How many peers the client asked for, if it asked at all.
    pub numwant: Option<usize>,
    pub event: Event,
}

/// What an accepted announce gets back: a bounded peer list and the
/// number of seconds to wait before announcing again.
pub struct AnnounceResponse {
    pub peers: Vec<(Index, Peer)>,
    pub interval: u32,
}

/// The progress one announce reports in one direction: the difference of
/// the cumulative counters, except that a counter that went backwards
/// means the client restarted and reset its session counters, so the
/// whole new value counts as the delta — never a negative difference.
pub open spec fn raw_delta_spec(new_total: u64, prior_total: u64) -> int {
    if new_total >= prior_total {
        new_total - prior_total
    } else {
        new_total as int
    }
}

/// Executable form of `raw_delta_spec`.
pub fn raw_delta(new_total: u64, prior_total: u64) -> (d: u64)
    ensures
        d as int == raw_delta_spec(new_total, prior_total),
{
    if new_total >= prior_total {
        new_total - prior_total
    } else {
        new_total
    }
}

/// Law: a raw counter that decreases between two announces is treated as
/// if the prior value were zero, so the delta is the full new value and
/// never a negative amount.
pub proof fn lemma_reset_counts_from_zero(new_total: u64, prior_total: u64)
    requires
        new_total < prior_total,
    ensures
        raw_delta_spec(new_total, prior_total) == raw_delta_spec(new_total, 0),
        raw_delta_spec(new_total, prior_total) == new_total as int,
        raw_delta_spec(new_total, prior_total) >= 0,
{
}

/// Whether every step of a counter sequence is non-decreasing.
pub open spec fn monotone(raws: Seq<u64>) -> bool {
    forall|i: int| 0 <= i < raws.len() - 1 ==> #[trigger] raws[i] <= raws[i + 1]
}

/// The total credit a sequence of announced counter values earns: each
/// adjacent step contributes the credited value of its own delta.
pub open spec fn credited_steps(raws: Seq<u64>, factor_percent: u8) -> int
    decreases raws.len(),
{
    if raws.len() <= 1 {
        0
    } else {
        credited_steps(raws.drop_last(), factor_percent) + credited_clamped(
            raw_delta_spec(raws.last(), raws[raws.len() - 2]),
            factor_percent as int,
        )
    }
}

/// Law: over a monotonically non-decreasing counter sequence, the
/// recorded total is the factor applied to each step's difference,
/// delta by delta — not the factor applied once to the overall change.
pub proof fn lemma_credit_is_piecewise(raws: Seq<u64>, factor_percent: u8)
    requires
        monotone(raws),
        raws.len() >= 1,
    ensures
        credited_steps(raws, factor_percent) == piecewise_diff_credit(raws, factor_percent),
    decreases raws.len(),
{
    if raws.len() > 1 {
        assert(monotone(raws.drop_last()));
        lemma_credit_is_piecewise(raws.drop_last(), factor_percent);
        assert(raws[raws.len() - 2] <= raws.last());
    }
}

/// The factor applied to each step's plain difference.
pub open spec fn piecewise_diff_credit(raws: Seq<u64>, factor_percent: u8) -> int
    decreases raws.len(),
{
    if raws.len() <= 1 {
        0
    } else {
        piecewise_diff_credit(raws.drop_last(), factor_percent) + credited_clamped(
            raws.last() - raws[raws.len() - 2],
            factor_percent as int,
        )
    }
}

/// Law: with the neutral factor of 100 percent the per-step credits of a
/// monotone counter sequence telescope to exactly the overall change.
pub proof fn lemma_neutral_credit_telescopes(raws: Seq<u64>)
    requires
        monotone(raws),
        raws.len() >= 1,
    ensures
        credited_steps(raws, 100) == raws.last() - raws[0],
    decreases raws.len(),
{
    if raws.len() == 1 {
    } else {
        assert(monotone(raws.drop_last()));
        lemma_neutral_credit_telescopes(raws.drop_last());
        assert(raws[raws.len() - 2] <= raws.last());
        let d = raw_delta_spec(raws.last(), raws[raws.len() - 2]);
        assert(d == raws.last() - raws[raws.len() - 2]);
        assert(credited_clamped(d, 100) == d) by {
            assert(d * 100 / 100 == d) by (nonlinear_arith);
        };
    }
}

/// The number of seconds before the client should announce again: the
/// caller's fresh random draw mapped uniformly into the configured
/// window. A fresh draw per request staggers re-announce timing.
pub open spec fn interval_spec(draw: u64, lo: u32, hi: u32) -> int {
    lo + (draw as int) % (hi as int - lo as int + 1)
}

/// Maps a random draw into the announce window.
pub fn next_interval(draw: u64, lo: u32, hi: u32) -> (r: u32)
    requires
        lo <= hi,
    ensures
        r as int == interval_spec(draw, lo, hi),
        lo <= r <= hi,
{
    let span: u64 = (hi - lo) as u64 + 1;
    lo + (draw % span) as u32
}

/// The cap on how many peers an announce may get back: the client's
/// numwant if it sent one, else the configured default, and never more
/// than the configured maximum. An out-of-range request is clamped,
/// never rejected.
pub open spec fn numwant_cap(cfg: Config, numwant: Option<usize>) -> int {
    let want = if numwant is Some {
        numwant->0
    } else {
        cfg.numwant_default
    };
    if want <= cfg.numwant_max {
        want as int
    } else {
        cfg.numwant_max as int
    }
}

/// Whether the peer stored under `k` may appear in the list returned to
/// `me` for this torrent: in the swarm, still active, and never the
/// requesting identity itself.
pub open spec fn eligible(m: Map<Index, Peer>, k: Index, torrent_id: u32, me: Index) -> bool {
    m.dom().contains(k) && k != me && m[k].torrent_id == torrent_id && m[k].is_active
}

/// Whether one store entry may be handed to `me` for this torrent.
pub open spec fn selectable(e: (Index, Peer), torrent_id: u32, me: Index) -> bool {
    e.0 != me && e.1.torrent_id == torrent_id && e.1.is_active
}

/// How many peers of the store are eligible for `me` on this torrent.
pub open spec fn eligible_count(m: Map<Index, Peer>, torrent_id: u32, me: Index) -> int {
    m.dom().filter(|k: Index| eligible(m, k, torrent_id, me)).len() as int
}

/// Selects the return set for an announce on `torrent_id` by `me`: only
/// active peers of that torrent, never `me`, no identity twice, at most
/// `cap` entries, and short of the cap only when every eligible peer is
/// already included. Peers of the opposite role are taken first, so a
/// seeder is handed leechers (and a leecher seeders) while the swarm
/// offers them.
pub fn select_peers(m: &PeerMap, torrent_id: u32, me: &Index, my_seeder: bool, cap: usize) -> (out:
    Vec<(Index, Peer)>)
    requires
        peer_entries(*m).dom().finite(),
    ensures
        forall|i: int|
            0 <= i < out@.len() ==> eligible(peer_entries(*m), (#[trigger] out@[i]).0, torrent_id, *me)
                && peer_entries(*m)[out@[i].0] == out@[i].1,
        forall|i: int, j: int| 0 <= i < j < out@.len() ==> out@[i].0 != out@[j].0,
        out@.len() <= cap,
        out@.len() < cap ==> (forall|k: Index|
            eligible(peer_entries(*m), k, torrent_id, *me) ==> listed(out@, k)),
        out@.len() < cap ==> out@.len() == eligible_count(peer_entries(*m), torrent_id, *me),
{
    let items = m.to_vec();
    let mut out: Vec<(Index, Peer)> = Vec::new();
    let mut pass: usize = 0;
    while pass < 2
        invariant
            0 <= pass <= 2,
            out@.len() <= cap,
            forall|l: int|
                0 <= l < out@.len() ==> eligible(
                    peer_entries(*m),
                    (#[trigger] out@[l]).0,
                    torrent_id,
                    *me,
                ) && peer_entries(*m)[out@[l].0] == out@[l].1,
            forall|l1: int, l2: int| 0 <= l1 < l2 < out@.len() ==> out@[l1].0 != out@[l2].0,
            forall|l: int|
                0 <= l < items@.len() ==> peer_entries(*m).dom().contains((#[trigger] items@[l]).0)
                    && peer_entries(*m)[items@[l].0] == items@[l].1,
            out@.len() < cap && pass >= 1 ==> (forall|j: int|
                0 <= j < items@.len() && selectable(#[trigger] items@[j], torrent_id, *me)
                    && items@[j].1.is_seeder != my_seeder ==> listed(out@, items@[j].0)),
            out@.len() < cap && pass >= 2 ==> (forall|j: int|
                0 <= j < items@.len() && selectable(#[trigger] items@[j], torrent_id, *me)
                    ==> listed(out@, items@[j].0)),
        decreases 2 - pass,
    {
        let want_opposite = pass == 0;
        let mut i: usize = 0;
        while i < items.len()
            invariant
                0 <= i <= items@.len(),
                0 <= pass < 2,
                want_opposite == (pass == 0),
                out@.len() <= cap,
                forall|l: int|
                    0 <= l < out@.len() ==> eligible(
                        peer_entries(*m),
                        (#[trigger] out@[l]).0,
                        torrent_id,
                        *me,
                    ) && peer_entries(*m)[out@[l].0] == out@[l].1,
                forall|l1: int, l2: int| 0 <= l1 < l2 < out@.len() ==> out@[l1].0 != out@[l2].0,
                forall|l: int|
                    0 <= l < items@.len() ==> peer_entries(*m).dom().contains(
                        (#[trigger] items@[l]).0,
                    ) && peer_entries(*m)[items@[l].0] == items@[l].1,
                out@.len() < cap && pass >= 1 ==> (forall|j: int|
                    0 <= j < items@.len() && selectable(#[trigger] items@[j], torrent_id, *me)
                        && items@[j].1.is_seeder != my_seeder ==> listed(out@, items@[j].0)),
                out@.len() < cap ==> (forall|j: int|
                    0 <= j < i && selectable(#[trigger] items@[j], torrent_id, *me) && (pass == 0
                        ==> items@[j].1.is_seeder != my_seeder) ==> listed(out@, items@[j].0)),
            decreases items@.len() - i,
        {
            let (k, p) = items[i];
            let ghost prev = out@;
            let role_wanted = if want_opposite {
                p.is_seeder != my_seeder
            } else {
                true
            };
            if out.len() < cap && p.torrent_id == torrent_id && p.is_active && role_wanted
                && !k.same_identity(me) {
                if !contains_identity(&out, &k) {
                    out.push((k, p));
                    proof {
                        assert(out@[out@.len() - 1] == (k, p));
                        assert(listed(out@, k));
                    }
                }
            }
            proof {
                if prev.len() < out@.len() {
                    assert forall|k2: Index| listed(prev, k2) implies listed(out@, k2) by {
                        let l = choose|l: int| 0 <= l < prev.len() && (#[trigger] prev[l]).0 == k2;
                        assert(out@[l].0 == k2);
                    }
                }
            }
            i += 1;
        }
        pass += 1;
    }
    proof {
        if out@.len() < cap {
            assert forall|k: Index| eligible(peer_entries(*m), k, torrent_id, *me) implies listed(
                out@,
                k,
            ) by {
                let j = choose|j: int| 0 <= j < items@.len() && (#[trigger] items@[j]).0 == k;
                assert(selectable(items@[j], torrent_id, *me));
            }
            let entries = peer_entries(*m);
            let efilter = |k: Index| eligible(entries, k, torrent_id, *me);
            let eset = entries.dom().filter(efilter);
            entries.dom().lemma_len_filter(efilter);
            let em = entries.restrict(eset);
            assert(em.dom() =~= eset);
            assert forall|l: int|
                0 <= l < out@.len() implies em.dom().contains((#[trigger] out@[l]).0) && em[out@[l].0]
                == out@[l].1 by {
                assert(eset.contains(out@[l].0));
            }
            assert forall|k: Index| #[trigger] em.dom().contains(k) implies exists|i: int|
                0 <= i < out@.len() && (#[trigger] out@[i]).0 == k by {
                assert(eligible(entries, k, torrent_id, *me));
                assert(listed(out@, k));
            }
            lemma_enumeration_count(out@, em, |e: (Index, Peer)| true);
            lemma_count_all(out@);
            let always = |e: (Index, Peer)| true;
            assert(em.dom().filter(|k: Index| always((k, em[k]))) =~= em.dom());
            assert(out@.len() == eset.len());
        }
    }
    out
}

} // verus!
