//! Tests for the channel manager: deduplication, conflicts, expiry, and
//! the decide-act-reconcile state machine.

use std::cell::Cell;
use std::rc::Rc;

use chanmgr::chan_map::{
    AbstractChannel, ChannelConfig, ChannelMap, ChannelState, Dormancy, NetParams, OpenEntry,
    ParamsUpdate, PendingEntry,
};
use chanmgr::chan_mgr::{
    finish_build_failed, finish_build_ok, pick_action, resolve_wait, AbstractChanMgr,
    AbstractChannelFactory, Action, ChanError, ChanProvenance, ChannelUsage, WaitOutcome,
};
use chanmgr::relay_ids::{RelayIdType, RelayIds};

#[derive(Clone, Debug)]
struct FakeChannel {
    ed_ident: Vec<u8>,
    mood: char,
    closing: Rc<Cell<bool>>,
    unused_secs: Rc<Cell<Option<u64>>>,
    detect_reuse: Rc<char>,
}

impl PartialEq for FakeChannel {
    fn eq(&self, other: &Self) -> bool {
        Rc::ptr_eq(&self.detect_reuse, &other.detect_reuse)
    }
}

impl FakeChannel {
    fn start_closing(&self) {
        self.closing.set(true);
    }
}

impl AbstractChannel for FakeChannel {
    fn is_usable(&self) -> bool {
        !self.closing.get()
    }
    fn duration_unused(&self) -> Option<u64> {
        self.unused_secs.get()
    }
    fn reparameterize(&self, _update: &ParamsUpdate) -> bool {
        true
    }
    fn engage_padding_activities(&self) {}
    // The mathematical identity view; erased specification code, never
    // called at run time.
    fn spec_ids(&self) -> RelayIds {
        RelayIds::from_ed25519(self.ed_ident.clone())
    }
    fn clone_ids(&self) -> RelayIds {
        RelayIds::from_ed25519(self.ed_ident.clone())
    }
}

/// A factory whose next build takes its mood from a shared cell,
/// standing in for per-request build instructions.
struct FakeChannelFactory {
    mood: Rc<Cell<char>>,
    builds: Rc<Cell<u32>>,
}

fn make_channel(ed_ident: Vec<u8>, mood: char) -> FakeChannel {
    FakeChannel {
        ed_ident,
        mood,
        closing: Rc::new(Cell::new(false)),
        unused_secs: Rc::new(Cell::new(None)),
        detect_reuse: Rc::new(mood),
    }
}

impl AbstractChannelFactory<FakeChannel, u8> for FakeChannelFactory {
    fn new_pending(&mut self, _target: &RelayIds) -> u8 {
        0
    }
    fn build_channel(&mut self, target: &RelayIds) -> Result<FakeChannel, ChanError> {
        self.builds.set(self.builds.get() + 1);
        let mood = self.mood.get();
        match mood {
            // These moods mean the target can never be connected to.
            '\u{274c}' | '\u{1f525}' => Err(ChanError::UnusableTarget),
            _ => Ok(make_channel(target.ed25519.clone().unwrap(), mood)),
        }
    }
    fn announce(&mut self, _target: &RelayIds, _outcome: &Result<FakeChannel, ChanError>) {}
    fn wait_for(&mut self, _pending: u8) -> WaitOutcome<FakeChannel> {
        WaitOutcome::SenderDropped
    }
}

fn u32_to_ed(n: u32) -> Vec<u8> {
    let mut bytes = vec![0u8; 32];
    bytes[0..4].copy_from_slice(&n.to_be_bytes());
    bytes
}

fn ids(n: u32) -> RelayIds {
    RelayIds::from_ed25519(u32_to_ed(n))
}

fn new_test_abstract_chanmgr() -> (
    AbstractChanMgr<FakeChannel, u8, FakeChannelFactory>,
    Rc<Cell<char>>,
    Rc<Cell<u32>>,
) {
    let mood = Rc::new(Cell::new('!'));
    let builds = Rc::new(Cell::new(0));
    let cf = FakeChannelFactory { mood: mood.clone(), builds: builds.clone() };
    let mgr = AbstractChanMgr::new(
        cf,
        ChannelConfig { padding: true },
        Dormancy::Active,
        NetParams { padding_low_ms: 1, padding_high_ms: 10 },
    );
    (mgr, mood, builds)
}

#[test]
fn connect_one_ok() {
    let (mut mgr, mood, _builds) = new_test_abstract_chanmgr();
    mood.set('!');
    let (chan1, prov1) = mgr.get_or_launch(&ids(413), ChannelUsage::UserTraffic).unwrap();
    let (chan2, prov2) = mgr.get_or_launch(&ids(413), ChannelUsage::UserTraffic).unwrap();

    assert_eq!(chan1, chan2);
    // The first request built the channel; the second found it open.
    assert!(matches!(prov1, ChanProvenance::NewlyCreated));
    assert!(matches!(prov2, ChanProvenance::Preexisting));

    let chan3 = mgr.get_nowait(RelayIdType::Ed25519, &u32_to_ed(413)).unwrap();
    assert_eq!(chan1, chan3);
}

#[test]
fn connect_one_fail() {
    let (mut mgr, mood, _builds) = new_test_abstract_chanmgr();

    // This is set up to always fail.
    mood.set('\u{274c}');
    let res1 = mgr.get_or_launch(&ids(999), ChannelUsage::UserTraffic);
    assert!(matches!(res1, Err(ChanError::UnusableTarget)));

    let chan3 = mgr.get_nowait(RelayIdType::Ed25519, &u32_to_ed(999));
    assert!(chan3.is_none());
}

#[test]
fn test_concurrent() {
    let (mut mgr, mood, _builds) = new_test_abstract_chanmgr();

    mood.set('a');
    let ch3a = mgr.get_or_launch(&ids(3), ChannelUsage::UserTraffic);
    mood.set('b');
    let ch3b = mgr.get_or_launch(&ids(3), ChannelUsage::UserTraffic);
    mood.set('a');
    let ch44a = mgr.get_or_launch(&ids(44), ChannelUsage::UserTraffic);
    mood.set('b');
    let ch44b = mgr.get_or_launch(&ids(44), ChannelUsage::UserTraffic);
    mood.set('\u{274c}');
    let ch86a = mgr.get_or_launch(&ids(86), ChannelUsage::UserTraffic);
    mood.set('\u{1f525}');
    let ch86b = mgr.get_or_launch(&ids(86), ChannelUsage::UserTraffic);

    let ch3a = ch3a.unwrap();
    let ch3b = ch3b.unwrap();
    let ch44a = ch44a.unwrap();
    let ch44b = ch44b.unwrap();
    let err_a = ch86a.unwrap_err();
    let err_b = ch86b.unwrap_err();

    assert_eq!(ch3a.0, ch3b.0);
    assert_eq!(ch44a.0, ch44b.0);
    assert_ne!(ch44a.0, ch3a.0);

    assert!(matches!(err_a, ChanError::UnusableTarget));
    assert!(matches!(err_b, ChanError::UnusableTarget));
}

#[test]
fn unusable_entries() {
    let (mut mgr, mood, _builds) = new_test_abstract_chanmgr();

    mood.set('a');
    let ch3 = mgr.get_or_launch(&ids(3), ChannelUsage::UserTraffic).unwrap().0;
    let _ch4 = mgr.get_or_launch(&ids(4), ChannelUsage::UserTraffic).unwrap();
    let ch5 = mgr.get_or_launch(&ids(5), ChannelUsage::UserTraffic).unwrap().0;

    ch3.start_closing();
    ch5.start_closing();

    mood.set('b');
    let ch3_new = mgr.get_or_launch(&ids(3), ChannelUsage::UserTraffic).unwrap().0;
    assert_ne!(ch3, ch3_new);
    assert_eq!(ch3_new.mood, 'b');

    mgr.remove_unusable_entries();

    assert!(mgr.get_nowait(RelayIdType::Ed25519, &u32_to_ed(3)).is_some());
    assert!(mgr.get_nowait(RelayIdType::Ed25519, &u32_to_ed(4)).is_some());
    assert!(mgr.get_nowait(RelayIdType::Ed25519, &u32_to_ed(5)).is_none());
}

fn empty_map() -> ChannelMap<FakeChannel, u8> {
    ChannelMap::new(
        ChannelConfig { padding: true },
        Dormancy::Active,
        NetParams { padding_low_ms: 1, padding_high_ms: 10 },
    )
}

/// Two requesters for the same identity set share one underlying build:
/// the second request waits on the first attempt's completion handle, and
/// both end up with the same channel.
#[test]
fn shared_attempt_single_build() {
    let t = ids(7);
    let mut map = empty_map();

    // Requester A decides: nothing is there, so it launches, placing a
    // Building record whose completion handle is 1.
    let usable = map.usability_snapshot();
    let a1 = pick_action(&mut map, &t, 1u8, &usable).unwrap();
    assert!(matches!(a1, Action::Launch));

    // Requester B decides while A's build is in flight: it must wait on
    // A's handle, not start a second build.
    let usable = map.usability_snapshot();
    let a2 = pick_action(&mut map, &t, 2u8, &usable).unwrap();
    match a2 {
        Action::Wait(p) => assert_eq!(p, 1),
        _ => panic!("second requester did not wait"),
    }

    // A's build completes and is reconciled with the map.
    let chan = make_channel(u32_to_ed(7), 'c');
    let c_a = finish_build_ok(&mut map, &t, chan).unwrap();

    // B observes A's broadcast outcome: the very same channel.
    let confirmed = c_a.clone_ids();
    match resolve_wait(&t, WaitOutcome::Success(c_a.clone(), confirmed)) {
        Ok(c_b) => assert_eq!(c_a, c_b),
        Err(_) => panic!("waiter did not share the success"),
    }
}

/// A usable open channel that holds one of the target's identities but
/// not all of them makes the request fail at once with an identity
/// conflict; no build is attempted.
#[test]
fn overlap_conflict_immediate() {
    let (mut mgr, mood, builds) = new_test_abstract_chanmgr();

    // An open channel exists for the Ed25519 identity K1 alone.
    mood.set('a');
    mgr.get_or_launch(&ids(1), ChannelUsage::UserTraffic).unwrap();
    assert_eq!(builds.get(), 1);

    // A request for {Ed25519: K1, RSA: K2} overlaps it without matching.
    let target = RelayIds::new(Some(u32_to_ed(1)), Some(vec![2u8; 20]));
    let res = mgr.get_or_launch(&target, ChannelUsage::UserTraffic);
    assert!(matches!(res, Err(ChanError::IdentityConflict)));
    // The factory was never asked for a second build.
    assert_eq!(builds.get(), 1);
}

/// A Building record whose sending side vanished resolves every waiter to
/// a retryable error, and once the failed attempt has been reconciled a
/// second attempt launches.
#[test]
fn vanished_sender_retry() {
    let t = ids(9);
    let mut map = empty_map();

    // Attempt A launches.
    let usable = map.usability_snapshot();
    let a1 = pick_action(&mut map, &t, 1u8, &usable).unwrap();
    assert!(matches!(a1, Action::Launch));

    // Requester B waits on it.
    let usable = map.usability_snapshot();
    let a2 = pick_action(&mut map, &t, 2u8, &usable).unwrap();
    assert!(matches!(a2, Action::Wait(1)));

    // A's task crashes: B's wait resolves to a retryable error, never a
    // hang or a panic.
    let outcome: WaitOutcome<FakeChannel> = WaitOutcome::SenderDropped;
    let r = resolve_wait(&t, outcome);
    assert!(matches!(r, Err(ChanError::AttemptVanished)));

    // The failed attempt is reconciled away; B's retry now launches a
    // second attempt.
    finish_build_failed(&mut map, &t);
    let usable = map.usability_snapshot();
    let a3 = pick_action(&mut map, &t, 3u8, &usable).unwrap();
    assert!(matches!(a3, Action::Launch));
}

/// A requester whose identity set overlaps an in-flight attempt waits on
/// it, and when that attempt succeeds with a larger confirmed identity
/// set, the waiter observes the success exactly when its own identities
/// are covered, and an identity conflict when they are not.
#[test]
fn overlap_wait_outcomes() {
    // Attempt A is in flight for {Ed25519: K1}.
    let a_ids = ids(21);
    let mut map = empty_map();
    let usable = map.usability_snapshot();
    let a1 = pick_action(&mut map, &a_ids, 1u8, &usable).unwrap();
    assert!(matches!(a1, Action::Launch));

    // Requester B wants {Ed25519: K1, RSA: K2}: it overlaps A's attempt
    // without matching it, so it waits rather than launching.
    let b_ids = RelayIds::new(Some(u32_to_ed(21)), Some(vec![9u8; 20]));
    let usable = map.usability_snapshot();
    let a2 = pick_action(&mut map, &b_ids, 2u8, &usable).unwrap();
    assert!(matches!(a2, Action::Wait(1)));

    // A completes, and its confirmed identities turn out to include B's.
    let chan = make_channel(u32_to_ed(21), 'c');
    let confirmed = RelayIds::new(Some(u32_to_ed(21)), Some(vec![9u8; 20]));
    match resolve_wait(&b_ids, WaitOutcome::Success(chan.clone(), confirmed)) {
        Ok(c) => assert_eq!(c, chan),
        Err(_) => panic!("covered waiter did not observe the success"),
    }

    // Had the confirmed identities not covered B's, the waiter would
    // observe an identity conflict instead -- never a hang.
    let confirmed = RelayIds::from_ed25519(u32_to_ed(21));
    match resolve_wait(&b_ids, WaitOutcome::Success(chan, confirmed)) {
        Err(ChanError::IdentityConflict) => {}
        _ => panic!("uncovered waiter did not observe the conflict"),
    }
}

/// The expiry sweep removes idle-past-budget channels, never ones in use,
/// and its hint reflects the randomized budget range.
#[test]
fn expire_and_budget() {
    let (mut mgr, mood, _builds) = new_test_abstract_chanmgr();
    mood.set('a');
    let ch1 = mgr.get_or_launch(&ids(1), ChannelUsage::UserTraffic).unwrap().0;
    let ch2 = mgr.get_or_launch(&ids(2), ChannelUsage::UserTraffic).unwrap().0;

    // Channel 1 is in use (no idle time); channel 2 has been idle for
    // 300 seconds, past any possible budget.
    ch1.unused_secs.set(None);
    ch2.unused_secs.set(Some(300));

    let hint = mgr.expire_channels();
    // The record in use survived; the idle one is gone.
    assert!(mgr.get_nowait(RelayIdType::Ed25519, &u32_to_ed(1)).is_some());
    assert!(mgr.get_nowait(RelayIdType::Ed25519, &u32_to_ed(2)).is_none());
    // No surviving record reported an idle time, so the hint is the
    // minimum possible budget.
    assert_eq!(hint, 180);

    // A fresh channel, just used, has its whole budget left: the hint is
    // the budget itself, drawn from the bounded range.
    let ch3 = mgr.get_or_launch(&ids(3), ChannelUsage::UserTraffic).unwrap().0;
    ch3.unused_secs.set(Some(0));
    ch1.unused_secs.set(None);
    let hint = mgr.expire_channels();
    assert!((180..270).contains(&hint));
}

/// Inserting a Building record, removing it by exact match, and
/// reinserting it as Open leaves exactly one record for the identity set.
#[test]
fn building_round_trip() {
    let t = ids(5);
    let mut map = empty_map();

    let building = ChannelState::Building(PendingEntry { ids: t.duplicate(), pending: 1u8 });
    map.try_insert(building).unwrap();
    assert_eq!(map.len(), 1);

    let removed = map.remove_exact(&t);
    assert!(matches!(removed, Some(ChannelState::Building(_))));
    assert_eq!(map.len(), 0);

    let chan = make_channel(u32_to_ed(5), 'o');
    map.insert(ChannelState::Open(OpenEntry {
        ids: t.duplicate(),
        channel: chan,
        max_unused_secs: 200,
    }));
    assert_eq!(map.len(), 1);
    assert!(matches!(map.entry_at(0), ChannelState::Open(_)));
}

/// The sweep's scheduling hint is the least remaining idle time of the
/// surviving reported records; the floor applies only when there is no
/// such record.
#[test]
fn sweep_hint_reflects_remaining() {
    let mut map = empty_map();
    map.insert(ChannelState::Open(OpenEntry {
        ids: ids(1),
        channel: make_channel(u32_to_ed(1), 'a'),
        max_unused_secs: 260,
    }));
    map.insert(ChannelState::Open(OpenEntry {
        ids: ids(2),
        channel: make_channel(u32_to_ed(2), 'a'),
        max_unused_secs: 200,
    }));

    // The first record has been idle 10 of its 260 seconds; the second is
    // in use.  The next expiry is 250 seconds away.
    let hint = map.sweep_core(&vec![Some(10), None]);
    assert_eq!(hint, 250);
    assert_eq!(map.len(), 2);

    // Both in use: no reported record survives, so the floor applies.
    let hint = map.sweep_core(&vec![None, None]);
    assert_eq!(hint, 180);

    // The first far past its budget is removed; the second reports 150 of
    // its 200 seconds: 50 remain.
    let hint = map.sweep_core(&vec![Some(300), Some(150)]);
    assert_eq!(hint, 50);
    assert_eq!(map.len(), 1);
}

/// Overlap lookup reports exactly the partially-matching records.
#[test]
fn overlap_lookup() {
    let mut map = empty_map();
    let t = RelayIds::new(Some(u32_to_ed(1)), Some(vec![7u8; 20]));

    // An exact record, an overlapping one, and an unrelated one.
    map.insert(ChannelState::Building(PendingEntry { ids: t.duplicate(), pending: 1u8 }));
    map.insert(ChannelState::Building(PendingEntry { ids: ids(1), pending: 2u8 }));
    map.insert(ChannelState::Building(PendingEntry { ids: ids(2), pending: 3u8 }));

    let overlapping = map.lookup_overlapping(&t);
    assert_eq!(overlapping, vec![1]);
}

/// Reconfiguration reaches every open channel and leaves the records in
/// place.
#[test]
fn reconfigure_all() {
    let (mut mgr, mood, _builds) = new_test_abstract_chanmgr();
    mood.set('a');
    mgr.get_or_launch(&ids(1), ChannelUsage::UserTraffic).unwrap();
    mgr.get_or_launch(&ids(2), ChannelUsage::UserTraffic).unwrap();

    let failures = mgr.set_dormancy(
        Dormancy::Dormant,
        NetParams { padding_low_ms: 5, padding_high_ms: 20 },
    );
    assert_eq!(failures, 0);
    assert!(mgr.get_nowait(RelayIdType::Ed25519, &u32_to_ed(1)).is_some());
    assert!(mgr.get_nowait(RelayIdType::Ed25519, &u32_to_ed(2)).is_some());
}
