use peer_tracker::{
    AnnounceEvent, Config, Event, FlushAction, Index, IpAddress, Peer, PeerId, Tracker,
};

fn test_config() -> Config {
    Config {
        flush_interval: 3,
        numwant_default: 25,
        numwant_max: 50,
        announce_min: 1800,
        announce_max: 2100,
        upload_factor: 100,
        download_factor: 100,
        peer_expiry_interval: 30,
        active_peer_ttl: 100,
        inactive_peer_ttl: 1000,
        apikey: vec![b'k'; 32],
    }
}

fn identity(user_id: u32, tag: u8) -> Index {
    Index {
        user_id,
        peer_id: PeerId([tag; 20]),
    }
}

fn event_for(me: Index, torrent_id: u32, is_seeder: bool, event: Event) -> AnnounceEvent {
    AnnounceEvent {
        identity: me,
        torrent_id,
        ip_address: IpAddress::V4([127, 0, 0, 1]),
        port: 6881,
        uploaded_raw: 0,
        downloaded_raw: 0,
        is_seeder,
        numwant: None,
        event,
    }
}

fn listed_in(peers: &Vec<(Index, Peer)>, k: &Index) -> bool {
    peers.iter().any(|e| e.0 == *k)
}

#[test]
fn announce_inserts_peer_and_returns_interval_in_window() {
    let mut t = Tracker::new(test_config());
    let a = identity(1, 0xaa);
    let r = t.announce(&event_for(a, 7, true, Event::Started), 1000, 12345);
    assert!(r.interval >= 1800 && r.interval <= 2100);
    assert_eq!(t.peers.len(), 1);
    let stored = t.peers.get(&a).unwrap();
    assert!(stored.is_active);
    assert!(stored.is_seeder);
    assert_eq!(stored.updated_at, 1000);
}

#[test]
fn interval_maps_draw_into_window() {
    let mut cfg = test_config();
    cfg.announce_min = 10;
    cfg.announce_max = 19;
    let mut t = Tracker::new(cfg);
    let a = identity(1, 1);
    let r = t.announce(&event_for(a, 7, true, Event::Started), 1000, 12345);
    assert_eq!(r.interval, 10 + (12345 % 10) as u32);
    let mut cfg = test_config();
    cfg.announce_min = 1800;
    cfg.announce_max = 1800;
    let mut t = Tracker::new(cfg);
    let r = t.announce(&event_for(a, 7, true, Event::Started), 1000, 999);
    assert_eq!(r.interval, 1800);
}

#[test]
fn two_peer_swarm_returns_the_other_peer() {
    // Peer A (seeder) and peer B (leecher) share torrent 7, numwant unset.
    let mut t = Tracker::new(test_config());
    let a = identity(1, 0xaa);
    let b = identity(2, 0xbb);
    t.announce(&event_for(a, 7, true, Event::Started), 1000, 1);
    t.announce(&event_for(b, 7, false, Event::Started), 1001, 2);
    let r = t.announce(&event_for(a, 7, true, Event::Empty), 1002, 3);
    assert!(listed_in(&r.peers, &b));
    assert!(!listed_in(&r.peers, &a));
    assert!(r.interval >= 1800 && r.interval <= 2100);
}

#[test]
fn own_identity_never_in_response() {
    let mut t = Tracker::new(test_config());
    let a = identity(1, 0xaa);
    t.announce(&event_for(a, 7, true, Event::Started), 1000, 1);
    let r = t.announce(&event_for(a, 7, true, Event::Empty), 1001, 2);
    assert!(!listed_in(&r.peers, &a));
    assert!(r.peers.is_empty());
}

#[test]
fn peer_list_respects_numwant_cap() {
    let mut t = Tracker::new(test_config());
    for u in 1..=5 {
        t.announce(&event_for(identity(u, u as u8), 7, false, Event::Started), 1000, 1);
    }
    let me = identity(9, 9);
    let mut ev = event_for(me, 7, true, Event::Started);
    ev.numwant = Some(2);
    let r = t.announce(&ev, 1001, 1);
    assert_eq!(r.peers.len(), 2);
    // An oversized numwant is clamped to the configured maximum.
    let mut cfg = test_config();
    cfg.numwant_max = 3;
    let mut t = Tracker::new(cfg);
    for u in 1..=5 {
        t.announce(&event_for(identity(u, u as u8), 7, false, Event::Started), 1000, 1);
    }
    let mut ev = event_for(me, 7, true, Event::Started);
    ev.numwant = Some(100);
    let r = t.announce(&ev, 1001, 1);
    assert_eq!(r.peers.len(), 3);
}

#[test]
fn opposite_role_preferred_in_selection() {
    let mut t = Tracker::new(test_config());
    for u in 1..=3 {
        t.announce(&event_for(identity(u, u as u8), 7, true, Event::Started), 1000, 1);
    }
    let leecher = identity(10, 10);
    t.announce(&event_for(leecher, 7, false, Event::Started), 1000, 1);
    let me = identity(9, 9);
    let mut ev = event_for(me, 7, true, Event::Started);
    ev.numwant = Some(1);
    let r = t.announce(&ev, 1001, 1);
    // A seeder with room for one peer is handed the leecher first.
    assert_eq!(r.peers.len(), 1);
    assert_eq!(r.peers[0].0, leecher);
}

#[test]
fn stopped_event_removes_identity_immediately() {
    let mut t = Tracker::new(test_config());
    let a = identity(1, 0xaa);
    t.announce(&event_for(a, 7, true, Event::Started), 1000, 1);
    assert!(t.peers.get(&a).is_some());
    let r = t.announce(&event_for(a, 7, true, Event::Stopped), 1001, 2);
    assert!(t.peers.get(&a).is_none());
    assert!(r.peers.is_empty());
    let batch = t.take_batch();
    assert!(matches!(batch.last().unwrap().action, FlushAction::Delete));
    assert_eq!(batch.last().unwrap().identity, a);
}

#[test]
fn flush_distinguishes_insert_and_update() {
    let mut t = Tracker::new(test_config());
    let a = identity(1, 0xaa);
    t.announce(&event_for(a, 7, false, Event::Started), 1000, 1);
    t.announce(&event_for(a, 7, false, Event::Empty), 1060, 2);
    let batch = t.take_batch();
    assert_eq!(batch.len(), 2);
    assert!(matches!(batch[0].action, FlushAction::Insert(_)));
    assert!(matches!(batch[1].action, FlushAction::Update(_)));
    assert_eq!(batch[0].identity, a);
}

#[test]
fn upload_factor_200_doubles_credited_delta() {
    let mut cfg = test_config();
    cfg.upload_factor = 200;
    let mut t = Tracker::new(cfg);
    let a = identity(1, 0xaa);
    let mut ev = event_for(a, 7, true, Event::Started);
    t.announce(&ev, 1000, 1);
    ev.uploaded_raw = 1000;
    ev.event = Event::Empty;
    t.announce(&ev, 1060, 2);
    let batch = t.take_batch();
    assert_eq!(batch[1].credited_uploaded, 2000);
}

#[test]
fn download_factor_0_credits_nothing() {
    let mut cfg = test_config();
    cfg.download_factor = 0;
    let mut t = Tracker::new(cfg);
    let a = identity(1, 0xaa);
    let mut ev = event_for(a, 7, false, Event::Started);
    ev.downloaded_raw = 123456;
    t.announce(&ev, 1000, 1);
    ev.downloaded_raw = 999999;
    ev.event = Event::Empty;
    t.announce(&ev, 1060, 2);
    let batch = t.take_batch();
    assert_eq!(batch[0].credited_downloaded, 0);
    assert_eq!(batch[1].credited_downloaded, 0);
}

#[test]
fn credit_is_applied_delta_by_delta() {
    // Factor 150: steps of 5 each credit floor(5 * 1.5) = 7, so two steps
    // record 7 + 7, not the one-shot floor(10 * 1.5) = 15.
    let mut cfg = test_config();
    cfg.upload_factor = 150;
    let mut t = Tracker::new(cfg);
    let a = identity(1, 0xaa);
    let mut ev = event_for(a, 7, true, Event::Started);
    t.announce(&ev, 1000, 1);
    ev.uploaded_raw = 5;
    ev.event = Event::Empty;
    t.announce(&ev, 1060, 2);
    ev.uploaded_raw = 10;
    t.announce(&ev, 1120, 3);
    let batch = t.take_batch();
    assert_eq!(batch[1].credited_uploaded, 7);
    assert_eq!(batch[2].credited_uploaded, 7);
}

#[test]
fn counter_reset_credits_from_zero() {
    let mut t = Tracker::new(test_config());
    let a = identity(1, 0xaa);
    let mut ev = event_for(a, 7, true, Event::Started);
    ev.uploaded_raw = 1000;
    t.announce(&ev, 1000, 1);
    // The client restarted: its counter fell from 1000 to 400. The delta
    // is the full new value, never a negative amount.
    ev.uploaded_raw = 400;
    ev.event = Event::Empty;
    t.announce(&ev, 1060, 2);
    let batch = t.take_batch();
    assert_eq!(batch[1].credited_uploaded, 400);
}

#[test]
fn sweep_demotes_then_removes_and_journals_deletion() {
    let mut t = Tracker::new(test_config());
    let a = identity(1, 0xaa);
    t.announce(&event_for(a, 7, true, Event::Started), 0, 1);
    t.take_batch();
    // Before the active TTL nothing happens.
    t.sweep(99);
    assert!(t.peers.get(&a).unwrap().is_active);
    // After ACTIVE_PEER_TTL seconds with no announce the peer goes
    // inactive in place.
    t.sweep(100);
    let p = t.peers.get(&a).unwrap();
    assert!(!p.is_active);
    assert_eq!(p.updated_at, 0);
    assert!(t.take_batch().is_empty());
    // After INACTIVE_PEER_TTL seconds from the announce the peer is
    // erased and the deletion reaches the next batch.
    t.sweep(1000);
    assert!(t.peers.get(&a).is_none());
    let batch = t.take_batch();
    assert_eq!(batch.len(), 1);
    assert_eq!(batch[0].identity, a);
    assert!(matches!(batch[0].action, FlushAction::Delete));
    assert_eq!(batch[0].credited_uploaded, 0);
}

#[test]
fn announce_reactivates_inactive_peer() {
    let mut t = Tracker::new(test_config());
    let a = identity(1, 0xaa);
    t.announce(&event_for(a, 7, true, Event::Started), 0, 1);
    t.sweep(100);
    assert!(!t.peers.get(&a).unwrap().is_active);
    t.announce(&event_for(a, 7, true, Event::Empty), 150, 2);
    let p = t.peers.get(&a).unwrap();
    assert!(p.is_active);
    assert_eq!(p.updated_at, 150);
}

#[test]
fn removal_check_subsumes_demotion_in_one_pass() {
    // A peer past both TTLs is removed by the same pass that would have
    // demoted it.
    let mut t = Tracker::new(test_config());
    let a = identity(1, 0xaa);
    t.announce(&event_for(a, 7, true, Event::Started), 0, 1);
    t.sweep(5000);
    assert!(t.peers.get(&a).is_none());
}

#[test]
fn requeue_retries_failed_batch_first() {
    let mut t = Tracker::new(test_config());
    let a = identity(1, 0xaa);
    let b = identity(2, 0xbb);
    t.announce(&event_for(a, 7, true, Event::Started), 1000, 1);
    let batch = t.take_batch();
    assert_eq!(batch.len(), 1);
    // The durable write failed; meanwhile another announce arrived.
    t.announce(&event_for(b, 7, false, Event::Started), 1001, 2);
    t.requeue(&batch);
    let retry = t.take_batch();
    assert_eq!(retry.len(), 2);
    assert_eq!(retry[0].identity, a);
    assert_eq!(retry[1].identity, b);
    assert!(t.take_batch().is_empty());
}

#[test]
fn swarm_stats_count_active_roles_per_torrent() {
    let mut t = Tracker::new(test_config());
    t.announce(&event_for(identity(1, 1), 7, true, Event::Started), 0, 1);
    t.announce(&event_for(identity(2, 2), 7, true, Event::Started), 0, 1);
    t.announce(&event_for(identity(3, 3), 7, false, Event::Started), 0, 1);
    t.announce(&event_for(identity(4, 4), 8, false, Event::Started), 0, 1);
    assert_eq!(t.swarm_stats(7), (2, 1));
    assert_eq!(t.swarm_stats(8), (0, 1));
    assert_eq!(t.swarm_stats(9), (0, 0));
    // An inactive peer is not part of the countable swarm.
    t.sweep(100);
    assert_eq!(t.swarm_stats(7), (0, 0));
}

#[test]
fn remove_peer_is_immediate_and_journalled() {
    let mut t = Tracker::new(test_config());
    let a = identity(1, 0xaa);
    t.announce(&event_for(a, 7, true, Event::Started), 1000, 1);
    t.take_batch();
    let prior = t.remove_peer(&a);
    assert!(prior.is_some());
    assert!(t.peers.get(&a).is_none());
    let batch = t.take_batch();
    assert_eq!(batch.len(), 1);
    assert!(matches!(batch[0].action, FlushAction::Delete));
    assert!(t.remove_peer(&identity(3, 3)).is_none());
}
