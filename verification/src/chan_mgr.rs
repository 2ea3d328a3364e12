//! The channel manager core: decide what to do for a request, execute the
//! decision, and reconcile the result with the channel state map.
//!
//! For each request the manager classifies the state of the map into an
//! [`Action`] in one atomic step, acts on it (which, for waiting and
//! building, suspends outside this library), and then reconciles the result
//! under a fresh critical section.  The whole cycle runs up to
//! [`N_ATTEMPTS`] times before the last error is returned.

use vstd::prelude::*;

use rand::Rng;

use crate::chan_map::{
    AbstractChannel, ChannelConfig, ChannelMap, ChannelState, Dormancy, NetParams, OpenEntry,
    PendingEntry, MAX_UNUSED_BUDGET_SECS, MIN_UNUSED_BUDGET_SECS,
};
use crate::chan_map::{exact_at, has_conflict, has_exact, lemma_exact_at_unique,
    spec_insert_replacing};
use crate::relay_ids::{RelayIdType, RelayIds};

verus! {

/// How many decide-act-reconcile attempts a single request makes before the
/// last error is returned.
pub const N_ATTEMPTS: usize = 2;

/// An invariant violation inside the manager itself, as opposed to an
/// ordinary operational failure.
#[derive(Clone, Copy, PartialEq, Eq, Structural, Debug)]
pub enum InternalDefect {
    /// The retry loop finished with no recorded error to return.
    NoErrorRecorded,
    /// A freshly built channel refused its initial parameter update.
    NewChannelParams,
    /// The lock guarding the channel state map was poisoned.
    LockPoisoned,
}

/// The errors a channel request can end in.
#[derive(Clone, Copy, PartialEq, Eq, Structural, Debug)]
pub enum ChanError {
    /// The target's identities cannot all be satisfied given what the map
    /// already knows: some established channel holds one of them but not
    /// all.
    IdentityConflict,
    /// An in-flight attempt's owner went away without reporting an outcome;
    /// always retried.
    AttemptVanished,
    /// The connection target itself was refused by the factory.
    UnusableTarget,
    /// A defect in the manager itself.
    Internal(InternalDefect),
}

/// Whether a returned channel already existed or was created by this
/// request (or by an attempt it waited on).
#[derive(Clone, Copy, PartialEq, Eq, Structural, Debug)]
pub enum ChanProvenance {
    /// The channel was already open before the request, or came out of
    /// another request's attempt that this one waited on.
    Preexisting,
    /// The channel was created by this request's own build.
    NewlyCreated,
}

/// What the caller wants the channel for; user traffic engages padding.
#[derive(Clone, Copy, PartialEq, Eq, Structural, Debug)]
pub enum ChannelUsage {
    /// Directory traffic.
    Dir,
    /// A circuit that carries no user traffic.
    UselessCircuit,
    /// Ordinary user traffic.
    UserTraffic,
}

/// What a waiter observes when a shared in-flight attempt settles.
pub enum WaitOutcome<C> {
    /// The attempt completed with this channel, whose confirmed identity
    /// set is given; it may exceed the set the attempt was launched for.
    Success(C, RelayIds),
    /// The attempt failed with this error.
    Failed(ChanError),
    /// Every handle on the attempt's sending side was dropped without a
    /// result.
    SenderDropped,
}

/// The decision taken for one attempt, under the map lock.
pub enum Action<C, P> {
    /// A usable open channel matched exactly: hand it back.
    Return(C),
    /// An attempt for a matching or overlapping identity set is in flight:
    /// wait for its outcome.
    Wait(P),
    /// A Building record was placed for the target: build the channel.
    Launch,
}

impl<C, P> ChannelState<C, P> {
    /// The channel of an open record.
    pub open spec fn open_channel(&self) -> C
        recommends
            self.is_open(),
    {
        match self {
            ChannelState::Open(e) => e.channel,
            ChannelState::Building(_) => arbitrary(),
        }
    }

    /// The shared completion handle of an in-flight record.
    pub open spec fn building_pending(&self) -> P
        recommends
            self.is_building(),
    {
        match self {
            ChannelState::Open(_) => arbitrary(),
            ChannelState::Building(e) => e.pending,
        }
    }
}

/// True when record `i` of `m` overlaps the target, is open, and its usable
/// flag is set.
pub open spec fn overlap_open_usable_at<C, P>(
    m: Seq<ChannelState<C, P>>,
    f: Seq<bool>,
    t: RelayIds,
    i: int,
) -> bool {
    0 <= i < m.len() && m[i].ids().spec_overlaps(&t) && m[i].is_open() && f[i]
}

/// True when some record of `m` overlaps the target, is open, and usable.
pub open spec fn has_overlap_open_usable<C, P>(
    m: Seq<ChannelState<C, P>>,
    f: Seq<bool>,
    t: RelayIds,
) -> bool {
    exists|i: int| #[trigger] overlap_open_usable_at(m, f, t, i)
}

/// True when some record of `m` is an in-flight attempt overlapping the
/// target.
pub open spec fn has_overlap_building<C, P>(m: Seq<ChannelState<C, P>>, t: RelayIds) -> bool {
    exists|i: int|
        0 <= i < m.len() && (#[trigger] m[i]).is_building() && m[i].ids().spec_overlaps(&t)
}

/// True when record `j` is the first in-flight attempt of `m` overlapping
/// the target.
pub open spec fn overlap_building_first_at<C, P>(
    m: Seq<ChannelState<C, P>>,
    t: RelayIds,
    j: int,
) -> bool {
    &&& 0 <= j < m.len()
    &&& m[j].is_building()
    &&& m[j].ids().spec_overlaps(&t)
    &&& forall|k: int|
        0 <= k < j ==> !((#[trigger] m[k]).is_building() && m[k].ids().spec_overlaps(&t))
}

/// A record that is the first exact match makes `has_exact` true.
pub proof fn lemma_exact_at_implies_has<C, P>(m: Seq<ChannelState<C, P>>, t: RelayIds, i: int)
    requires
        exact_at(m, t, i),
    ensures
        has_exact(m, t),
{
    assert(0 <= i < m.len() && m[i].ids().spec_same(&t));
}

/// There is at most one first overlapping in-flight record.
pub proof fn lemma_first_building_unique<C, P>(
    m: Seq<ChannelState<C, P>>,
    t: RelayIds,
    i: int,
    j: int,
)
    requires
        overlap_building_first_at(m, t, i),
        overlap_building_first_at(m, t, j),
    ensures
        i == j,
{
    if i < j {
        assert(!(m[i].is_building() && m[i].ids().spec_overlaps(&t)));
    } else if j < i {
        assert(!(m[j].is_building() && m[j].ids().spec_overlaps(&t)));
    }
}

impl<C, P> ChannelMap<C, P> {
    /// True when some record overlaps the target, is open, and its flag in
    /// the usability snapshot is set.
    pub fn any_overlap_open_flagged(&self, t: &RelayIds, usable: &Vec<bool>) -> (r: bool)
        requires
            usable@.len() == self@.len(),
        ensures
            r == has_overlap_open_usable(self@, usable@, *t),
    {
        let n = self.len();
        let mut i: usize = 0;
        while i < n
            invariant
                i <= n,
                n == self@.len(),
                usable@.len() == self@.len(),
                forall|j: int| 0 <= j < i ==> !overlap_open_usable_at(self@, usable@, *t, j),
            decreases n - i,
        {
            let open = self.entry_is_open(i);
            if open && usable[i] && crate::chan_map::state_ids(self.entry_at(i))
                .has_any_relay_id_from(t) {
                proof {
                    assert(overlap_open_usable_at(self@, usable@, *t, i as int));
                }
                return true;
            }
            proof {
                assert(!overlap_open_usable_at(self@, usable@, *t, i as int));
            }
            i = i + 1;
        }
        false
    }

    /// Find the first in-flight record overlapping the target, if any.
    pub fn first_overlap_building(&self, t: &RelayIds) -> (r: Option<usize>)
        ensures
            match r {
                Some(j) => overlap_building_first_at(self@, *t, j as int),
                None => !has_overlap_building(self@, *t),
            },
    {
        let n = self.len();
        let mut i: usize = 0;
        while i < n
            invariant
                i <= n,
                n == self@.len(),
                forall|j: int|
                    0 <= j < i ==> !((#[trigger] self@[j]).is_building()
                        && self@[j].ids().spec_overlaps(t)),
            decreases n - i,
        {
            let building = !self.entry_is_open(i);
            if building && crate::chan_map::state_ids(self.entry_at(i)).has_any_relay_id_from(t) {
                return Some(i);
            }
            i = i + 1;
        }
        None
    }
}

impl<C: AbstractChannel, P> ChannelMap<C, P> {
    /// Ask every record's channel whether it is usable right now; in-flight
    /// records get an (unused) true flag.
    pub fn usability_snapshot(&self) -> (f: Vec<bool>)
        ensures
            f@.len() == self@.len(),
    {
        let n = self.len();
        let mut flags: Vec<bool> = Vec::new();
        let mut i: usize = 0;
        while i < n
            invariant
                i <= n,
                n == self@.len(),
                flags@.len() == i,
            decreases n - i,
        {
            let usable: bool = match self.entry_at(i) {
                ChannelState::Open(e) => e.channel.is_usable(),
                ChannelState::Building(_) => true,
            };
            flags.push(usable);
            i = i + 1;
        }
        flags
    }
}

/// Pick an idle budget for a new open channel, uniformly within the bounded
/// budget range, so that channels created together do not all expire
/// together.
///
/// Relies on rand: `thread_rng` gives a fresh generator and `Rng::gen_range`
/// returns a value of the given half-open range.  Only the bounds are
/// stated; the distribution is not.
#[verifier::external_body]
fn pick_unused_budget() -> (r: u64)
    ensures
        MIN_UNUSED_BUDGET_SECS <= r < MAX_UNUSED_BUDGET_SECS,
{
    rand::thread_rng().gen_range(MIN_UNUSED_BUDGET_SECS..MAX_UNUSED_BUDGET_SECS)
}

/// True when `r` returns the open record `s`'s channel (or a clone of it).
pub open spec fn returns_channel_of<C: Clone, P>(
    s: ChannelState<C, P>,
    r: Result<Action<C, P>, ChanError>,
) -> bool {
    r matches Ok(Action::Return(c)) && cloned::<C>(s.open_channel(), c)
}

/// True when `r` waits on the in-flight record `s`'s completion handle (or
/// a clone of it).
pub open spec fn waits_on<C, P: Clone>(s: ChannelState<C, P>, r: Result<Action<C, P>, ChanError>) -> bool {
    r matches Ok(Action::Wait(p)) && cloned::<P>(s.building_pending(), p)
}

/// True when `mm` is `base` with one new in-flight record for `t` appended,
/// carrying the completion handle `p`.
pub open spec fn launched_building<C, P>(
    base: Seq<ChannelState<C, P>>,
    t: RelayIds,
    p: P,
    mm: Seq<ChannelState<C, P>>,
) -> bool {
    &&& mm.len() == base.len() + 1
    &&& mm == base.push(mm.last())
    &&& mm.last().is_building()
    &&& mm.last().ids().spec_same(&t)
    &&& mm.last().building_pending() == p
}

/// The whole promise of the decide step: how the action `r` and the map
/// after the step (`mm`) follow from the map before it (`m`), the usability
/// snapshot `f`, and the target `t`.  Each clause matches one case of the
/// decision rule described at [`pick_action`].
pub open spec fn decide_post<C: Clone, P: Clone>(
    m: Seq<ChannelState<C, P>>,
    f: Seq<bool>,
    t: RelayIds,
    new_pending: P,
    mm: Seq<ChannelState<C, P>>,
    r: Result<Action<C, P>, ChanError>,
) -> bool {
    // An exact, open, usable record is returned and the map unchanged.
    &&& (forall|i: int|
        #[trigger] exact_at(m, t, i) && m[i].is_open() && f[i] ==> mm == m && returns_channel_of(
            m[i],
            r,
        ))
    // An exact in-flight record is waited on and the map unchanged.
    &&& (forall|i: int|
        #[trigger] exact_at(m, t, i) && m[i].is_building() ==> mm == m && waits_on(m[i], r))
    // An exact, open, unusable record is removed; a Building record for the
    // target replaces it and a launch is ordered, unless an overlapping
    // record blocks the insertion.
    &&& (forall|i: int|
        #[trigger] exact_at(m, t, i) && m[i].is_open() && !f[i] ==> if has_conflict(
            m.remove(i),
            t,
        ) {
            mm == m.remove(i) && r == Err::<Action<C, P>, ChanError>(ChanError::IdentityConflict)
        } else {
            r == Ok::<Action<C, P>, ChanError>(Action::Launch) && launched_building(
                m.remove(i),
                t,
                new_pending,
                mm,
            )
        })
    // With no exact match, a usable open record overlapping the target
    // proves the target unsatisfiable.
    &&& (!has_exact(m, t) && has_overlap_open_usable(m, f, t) ==> mm == m && r == Err::<
        Action<C, P>,
        ChanError,
    >(ChanError::IdentityConflict))
    // Otherwise the first overlapping in-flight record is waited on.
    &&& (forall|j: int|
        !has_exact(m, t) && !has_overlap_open_usable(m, f, t)
            && #[trigger] overlap_building_first_at(m, t, j) ==> mm == m && waits_on(m[j], r))
    // Otherwise a Building record is placed and a launch ordered, unless an
    // overlapping (necessarily unusable, open) record blocks it.
    &&& (!has_exact(m, t) && !has_overlap_open_usable(m, f, t) && !has_overlap_building(m, t)
        ==> if has_conflict(m, t) {
        mm == m && r == Err::<Action<C, P>, ChanError>(ChanError::IdentityConflict)
    } else {
        r == Ok::<Action<C, P>, ChanError>(Action::Launch) && launched_building(
            m,
            t,
            new_pending,
            mm,
        )
    })
}

/// Decide, in one atomic step over the map, what a request for `target`
/// should do, given a usability snapshot taken in the same critical section.
///
/// The decision follows the map state exactly:
/// - an exact match that is open and usable is returned;
/// - an exact match that is open but unusable is removed and replaced by a
///   Building record for the target (unless the insertion conflicts), and a
///   launch is ordered;
/// - an exact match that is in flight is waited on;
/// - otherwise, any usable open record overlapping the target proves the
///   target unsatisfiable and the request fails with `IdentityConflict`;
/// - otherwise the first overlapping in-flight record is waited on;
/// - otherwise a Building record is placed for the target (failing with
///   `IdentityConflict` when an overlapping record blocks it) and a launch
///   is ordered.
///
/// Because a launch always leaves an exact Building record in the map, and
/// an exact Building record always turns later requests for the same target
/// into waiters, at most one build for a given identity set is ever in
/// flight at a time.
pub fn pick_action<C: AbstractChannel, P: Clone>(
    map: &mut ChannelMap<C, P>,
    target: &RelayIds,
    new_pending: P,
    usable: &Vec<bool>,
) -> (r: Result<Action<C, P>, ChanError>)
    requires
        !target.spec_is_empty(),
        usable@.len() == old(map)@.len(),
    ensures
        final(map).spec_config() == old(map).spec_config(),
        final(map).spec_dormancy() == old(map).spec_dormancy(),
        final(map).spec_netparams() == old(map).spec_netparams(),
        decide_post(old(map)@, usable@, *target, new_pending, final(map)@, r),
{
    let ghost m = map@;
    match map.index_exact(target) {
        Some(i) => {
            proof {
                lemma_exact_at_implies_has(m, *target, i as int);
                assert forall|k: int| exact_at(m, *target, k) implies k == i as int by {
                    lemma_exact_at_unique(m, *target, k, i as int);
                }
            }
            if map.entry_is_open(i) {
                if usable[i] {
                    let c = match map.entry_at(i) {
                        ChannelState::Open(e) => e.channel.clone(),
                        ChannelState::Building(_) => unreached(),
                    };
                    Ok(Action::Return(c))
                } else {
                    let _removed = map.remove_at(i);
                    let building = ChannelState::Building(
                        PendingEntry { ids: target.duplicate(), pending: new_pending },
                    );
                    proof {
                        assert(building.ids().spec_same(target));
                        assert(has_conflict(m.remove(i as int), building.ids())
                            == has_conflict(m.remove(i as int), *target)) by {
                            lemma_conflict_same_ids::<C, P>(
                                m.remove(i as int),
                                building.ids(),
                                *target,
                            );
                        }
                    }
                    match map.try_insert(building) {
                        Ok(()) => Ok(Action::Launch),
                        Err(()) => Err(ChanError::IdentityConflict),
                    }
                }
            } else {
                let p = match map.entry_at(i) {
                    ChannelState::Building(e) => e.pending.clone(),
                    ChannelState::Open(_) => unreached(),
                };
                Ok(Action::Wait(p))
            }
        },
        None => {
            proof {
                assert forall|k: int| !exact_at(m, *target, k) by {
                    if exact_at(m, *target, k) {
                        lemma_exact_at_implies_has(m, *target, k);
                    }
                }
            }
            if map.any_overlap_open_flagged(target, usable) {
                return Err(ChanError::IdentityConflict);
            }
            match map.first_overlap_building(target) {
                Some(j) => {
                    proof {
                        assert forall|k: int|
                            overlap_building_first_at(m, *target, k) implies k == j as int by {
                            lemma_first_building_unique(m, *target, k, j as int);
                        }
                    }
                    let p = match map.entry_at(j) {
                        ChannelState::Building(e) => e.pending.clone(),
                        ChannelState::Open(_) => unreached(),
                    };
                    Ok(Action::Wait(p))
                },
                None => {
                    let building = ChannelState::Building(
                        PendingEntry { ids: target.duplicate(), pending: new_pending },
                    );
                    proof {
                        assert(has_conflict(m, building.ids()) == has_conflict(m, *target)) by {
                            lemma_conflict_same_ids::<C, P>(m, building.ids(), *target);
                        }
                    }
                    match map.try_insert(building) {
                        Ok(()) => Ok(Action::Launch),
                        Err(()) => Err(ChanError::IdentityConflict),
                    }
                },
            }
        },
    }
}

/// Two identity sets with the same contents conflict with the same records.
proof fn lemma_conflict_same_ids<C, P>(m: Seq<ChannelState<C, P>>, a: RelayIds, b: RelayIds)
    requires
        a.spec_same(&b),
    ensures
        has_conflict(m, a) == has_conflict(m, b),
{
    assert forall|i: int|
        0 <= i < m.len() implies crate::chan_map::conflicts_with(#[trigger] m[i], a)
        == crate::chan_map::conflicts_with(m[i], b) by {}
}

/// Resolve what a waiter saw when the attempt it was waiting on settled.
///
/// A successful attempt satisfies the waiter exactly when the confirmed
/// identity set covers every identity the waiter asked for; a success that
/// does not cover them, a failure, and a vanished attempt all yield a
/// retryable error.  A waiter therefore always observes a definite outcome:
/// the shared attempt's success, or an error to retry with.
pub fn resolve_wait<C>(target: &RelayIds, outcome: WaitOutcome<C>) -> (r: Result<C, ChanError>)
    ensures
        (outcome matches WaitOutcome::Success(c, ids) ==> {
            if ids.spec_contains_all(target) {
                r == Ok::<C, ChanError>(c)
            } else {
                r == Err::<C, ChanError>(ChanError::IdentityConflict)
            }
        }),
        (outcome matches WaitOutcome::Failed(e) ==> r == Err::<C, ChanError>(e)),
        (outcome is SenderDropped ==> r == Err::<C, ChanError>(ChanError::AttemptVanished)),
{
    match outcome {
        WaitOutcome::Success(c, ids) => {
            if ids.has_all_relay_ids_from(target) {
                Ok(c)
            } else {
                Err(ChanError::IdentityConflict)
            }
        },
        WaitOutcome::Failed(e) => Err(e),
        WaitOutcome::SenderDropped => Err(ChanError::AttemptVanished),
    }
}

/// True when the map holds an open record whose channel is a clone of the
/// built channel `b`, keyed by `b`'s confirmed identity set.
pub open spec fn open_record_for<C: AbstractChannel, P>(m: Seq<ChannelState<C, P>>, b: C) -> bool {
    exists|k: int|
        {
            &&& 0 <= k < m.len()
            &&& (#[trigger] m[k]).is_open()
            &&& cloned::<C>(b, m[k].open_channel())
            &&& m[k].ids().spec_same(&b.spec_ids())
        }
}

/// True when the map holds an open record that shares its channel with
/// `c`: both are clones of one built channel, and the record is keyed by
/// that channel's confirmed identity set.
pub open spec fn open_record_shared_with<C: AbstractChannel, P>(
    m: Seq<ChannelState<C, P>>,
    c: C,
) -> bool {
    exists|b: C| #[trigger] open_record_for(m, b) && cloned::<C>(b, c)
}

/// Reconcile a successful build with the map, in one critical section.
///
/// If the Building record placed at decide time is still there, the new
/// channel receives the current parameter update, gets a randomized idle
/// budget, and replaces the record as Open, keyed by its confirmed identity
/// set.  If the record vanished, or an Open record took its place (another
/// path won the race; that record is restored), the build is reported as an
/// `IdentityConflict` and retried.
pub fn finish_build_ok<C: AbstractChannel, P>(
    map: &mut ChannelMap<C, P>,
    target: &RelayIds,
    chan: C,
) -> (r: Result<C, ChanError>)
    ensures
        final(map).spec_config() == old(map).spec_config(),
        final(map).spec_dormancy() == old(map).spec_dormancy(),
        final(map).spec_netparams() == old(map).spec_netparams(),
        (r matches Ok(c) ==> open_record_shared_with(final(map)@, c)),
        forall|i: int|
            exact_at(old(map)@, *target, i) && old(map)@[i].is_building() ==> {
                &&& (r matches Ok(c) ==> {
                    &&& cloned::<C>(chan, c)
                    &&& exists|e: OpenEntry<C>|
                        {
                            &&& final(map)@ == #[trigger] spec_insert_replacing(
                                old(map)@.remove(i),
                                ChannelState::<C, P>::Open(e),
                            )
                            &&& MIN_UNUSED_BUDGET_SECS <= e.max_unused_secs
                                < MAX_UNUSED_BUDGET_SECS
                            &&& cloned::<C>(chan, e.channel)
                            &&& e.ids.spec_same(&chan.spec_ids())
                        }
                })
                &&& (r is Err ==> {
                    &&& r == Err::<C, ChanError>(
                        ChanError::Internal(InternalDefect::NewChannelParams),
                    )
                    &&& final(map)@ == old(map)@.remove(i)
                })
            },
        !has_exact(old(map)@, *target) ==> final(map)@ == old(map)@ && r == Err::<C, ChanError>(
            ChanError::IdentityConflict,
        ),
        forall|i: int|
            exact_at(old(map)@, *target, i) && old(map)@[i].is_open() ==> {
                &&& final(map)@ == spec_insert_replacing(old(map)@.remove(i), old(map)@[i])
                &&& r == Err::<C, ChanError>(ChanError::IdentityConflict)
            },
{
    let ghost m = map@;
    match map.remove_exact(target) {
        Some(s) => {
            proof {
                let gi = choose|i: int|
                    exact_at(m, *target, i) && s == m[i] && map@ == m.remove(i);
                assert forall|k: int| exact_at(m, *target, k) implies k == gi by {
                    lemma_exact_at_unique(m, *target, k, gi);
                }
            }
            match s {
                ChannelState::Building(_) => {
                    let update = map.current_update();
                    if !chan.reparameterize(&update) {
                        return Err(ChanError::Internal(InternalDefect::NewChannelParams));
                    }
                    let ids = chan.clone_ids();
                    let budget = pick_unused_budget();
                    let c2 = chan.clone();
                    let entry = OpenEntry { ids, channel: chan, max_unused_secs: budget };
                    let ghost ge = entry;
                    map.insert(ChannelState::Open(entry));
                    proof {
                        assert(cloned::<C>(chan, ge.channel));
                        let k = choose|k: int|
                            0 <= k < map@.len() && map@[k] == ChannelState::<C, P>::Open(ge);
                        assert(cloned::<C>(chan, map@[k].open_channel()));
                        assert(cloned::<C>(chan, c2));
                        assert(map@[k].ids().spec_same(&chan.spec_ids()));
                        assert(open_record_for(map@, chan));
                    }
                    Ok(c2)
                },
                ChannelState::Open(_) => {
                    map.insert(s);
                    Err(ChanError::IdentityConflict)
                },
            }
        },
        None => Err(ChanError::IdentityConflict),
    }
}

/// Reconcile a failed build with the map, in one critical section: drop the
/// Building record placed at decide time if it is still there, and restore
/// any Open record that took its place.
pub fn finish_build_failed<C, P>(map: &mut ChannelMap<C, P>, target: &RelayIds)
    ensures
        final(map).spec_config() == old(map).spec_config(),
        final(map).spec_dormancy() == old(map).spec_dormancy(),
        final(map).spec_netparams() == old(map).spec_netparams(),
        forall|i: int|
            exact_at(old(map)@, *target, i) && old(map)@[i].is_building() ==> final(map)@ == old(
                map,
            )@.remove(i),
        !has_exact(old(map)@, *target) ==> final(map)@ == old(map)@,
        forall|i: int|
            exact_at(old(map)@, *target, i) && old(map)@[i].is_open() ==> final(map)@
                == spec_insert_replacing(old(map)@.remove(i), old(map)@[i]),
{
    let ghost m = map@;
    match map.remove_exact(target) {
        Some(s) => {
            proof {
                let gi = choose|i: int|
                    exact_at(m, *target, i) && s == m[i] && map@ == m.remove(i);
                assert forall|k: int| exact_at(m, *target, k) implies k == gi by {
                    lemma_exact_at_unique(m, *target, k, gi);
                }
            }
            match s {
                ChannelState::Building(_) => {},
                ChannelState::Open(_) => {
                    map.insert(s);
                },
            }
        },
        None => {},
    }
}

/// The error a request ends in when every attempt has failed: the last
/// error recorded, or an internal defect if somehow none was.
pub fn final_error(last_err: Option<ChanError>) -> (r: ChanError)
    ensures
        match last_err {
            Some(e) => r == e,
            None => r == ChanError::Internal(InternalDefect::NoErrorRecorded),
        },
{
    match last_err {
        Some(e) => e,
        None => ChanError::Internal(InternalDefect::NoErrorRecorded),
    }
}

/// How channels are created and how attempt outcomes are shared: supplied
/// by the collaborator that owns the transport and the task machinery.
/// Building and waiting are the only places a request suspends, and both
/// happen through this trait, outside the map's critical sections.
pub trait AbstractChannelFactory<C, P>: Sized {
    /// Create a fresh shareable completion handle for an attempt that is
    /// about to be launched; the factory keeps the sending side.
    fn new_pending(&mut self, target: &RelayIds) -> P;

    /// Build one channel to `target`.  No retrying, no deduplication; both
    /// are handled here.
    fn build_channel(&mut self, target: &RelayIds) -> Result<C, ChanError>;

    /// Broadcast the outcome of the attempt for `target` to every waiter
    /// holding a clone of its completion handle.
    fn announce(&mut self, target: &RelayIds, outcome: &Result<C, ChanError>);

    /// Wait until the attempt behind `pending` settles and report what it
    /// settled to.
    fn wait_for(&mut self, pending: P) -> WaitOutcome<C>;
}

/// The channel manager: one factory and one channel state map.
pub struct AbstractChanMgr<C, P, CF> {
    /// The factory used to create channels and share attempt outcomes.
    pub connector: CF,
    /// The map from identity sets to open channels and in-flight attempts.
    pub channels: ChannelMap<C, P>,
}

impl<C: AbstractChannel, P: Clone, CF: AbstractChannelFactory<C, P>> AbstractChanMgr<C, P, CF> {
    /// Make a new, empty channel manager.
    pub fn new(
        connector: CF,
        config: ChannelConfig,
        dormancy: Dormancy,
        netparams: NetParams,
    ) -> (r: Self)
        ensures
            r.channels@ == Seq::<ChannelState<C, P>>::empty(),
            r.channels.spec_config() == config,
            r.channels.spec_dormancy() == dormancy,
            r.channels.spec_netparams() == netparams,
    {
        AbstractChanMgr { connector, channels: ChannelMap::new(config, dormancy, netparams) }
    }

    /// Get a channel for the identities of `target`: return a usable open
    /// one, wait on an attempt in flight, or launch a new attempt, retrying
    /// up to the attempt bound; then engage padding when the usage asks for
    /// it.
    pub fn get_or_launch(&mut self, target: &RelayIds, usage: ChannelUsage) -> (r: Result<
        (C, ChanProvenance),
        ChanError,
    >)
        requires
            !target.spec_is_empty(),
        ensures
            final(self).channels.spec_config() == old(self).channels.spec_config(),
            final(self).channels.spec_dormancy() == old(self).channels.spec_dormancy(),
            final(self).channels.spec_netparams() == old(self).channels.spec_netparams(),
            (r matches Ok((c, prov)) ==> (prov is NewlyCreated ==> open_record_shared_with(
                final(self).channels@,
                c,
            ))),
    {
        let result = self.get_or_launch_internal(target);
        match &result {
            Ok((chan, _)) => {
                match usage {
                    ChannelUsage::Dir => {},
                    ChannelUsage::UselessCircuit => {},
                    ChannelUsage::UserTraffic => {
                        chan.engage_padding_activities();
                    },
                }
            },
            Err(_) => {},
        }
        result
    }

    /// The decide-act-reconcile loop behind `get_or_launch`.
    ///
    /// A channel handed back from an open record, or obtained by waiting
    /// on another request's attempt, carries the pre-existing provenance;
    /// only a channel built by this call's own launch is newly created,
    /// and then the map holds the open record sharing it.  Whether each
    /// attempt succeeds rests with the collaborator calls, so no success
    /// is promised; what each decide and reconcile step does to the map
    /// is stated on those steps.
    fn get_or_launch_internal(&mut self, target: &RelayIds) -> (r: Result<
        (C, ChanProvenance),
        ChanError,
    >)
        requires
            !target.spec_is_empty(),
        ensures
            final(self).channels.spec_config() == old(self).channels.spec_config(),
            final(self).channels.spec_dormancy() == old(self).channels.spec_dormancy(),
            final(self).channels.spec_netparams() == old(self).channels.spec_netparams(),
            (r matches Ok((c, prov)) ==> (prov is NewlyCreated ==> open_record_shared_with(
                final(self).channels@,
                c,
            ))),
    {
        let mut last_err: Option<ChanError> = None;
        let mut attempt: usize = 0;
        while attempt < N_ATTEMPTS
            invariant
                attempt <= N_ATTEMPTS,
                !target.spec_is_empty(),
                self.channels.spec_config() == old(self).channels.spec_config(),
                self.channels.spec_dormancy() == old(self).channels.spec_dormancy(),
                self.channels.spec_netparams() == old(self).channels.spec_netparams(),
            decreases N_ATTEMPTS - attempt,
        {
            // Decide, atomically over the map.
            let pending = self.connector.new_pending(target);
            let usable = self.channels.usability_snapshot();
            let action = match pick_action(&mut self.channels, target, pending, &usable) {
                Ok(a) => a,
                Err(e) => {
                    return Err(e);
                },
            };
            // Act; waiting and building may suspend.
            match action {
                Action::Return(chan) => {
                    return Ok((chan, ChanProvenance::Preexisting));
                },
                Action::Wait(p) => {
                    let outcome = self.connector.wait_for(p);
                    match resolve_wait(target, outcome) {
                        Ok(chan) => {
                            // The channel came out of another request's
                            // attempt: it is pre-existing from this
                            // request's point of view.
                            return Ok((chan, ChanProvenance::Preexisting));
                        },
                        Err(e) => {
                            last_err = Some(e);
                        },
                    }
                },
                Action::Launch => {
                    match self.connector.build_channel(target) {
                        Ok(chan) => {
                            let status = finish_build_ok(&mut self.channels, target, chan);
                            self.connector.announce(target, &status);
                            match status {
                                Ok(chan) => {
                                    return Ok((chan, ChanProvenance::NewlyCreated));
                                },
                                Err(e) => {
                                    last_err = Some(e);
                                },
                            }
                        },
                        Err(e) => {
                            finish_build_failed(&mut self.channels, target);
                            self.connector.announce(target, &Err(e));
                            last_err = Some(e);
                        },
                    }
                },
            }
            attempt = attempt + 1;
        }
        Err(final_error(last_err))
    }

    /// Test only: the current open, usable channel holding the given single
    /// identity, if any.
    pub fn get_nowait(&self, ty: RelayIdType, id: &Vec<u8>) -> (r: Option<C>)
        ensures
            (r matches Some(c) ==> exists|i: int|
                {
                    &&& 0 <= i < self.channels@.len()
                    &&& (#[trigger] self.channels@[i]).is_open()
                    &&& self.channels@[i].ids().spec_has_id(ty, id@)
                    &&& cloned::<C>(self.channels@[i].open_channel(), c)
                }),
            (forall|i: int|
                0 <= i < self.channels@.len() ==> !((#[trigger] self.channels@[i]).is_open()
                    && self.channels@[i].ids().spec_has_id(ty, id@))) ==> r is None,
    {
        let n = self.channels.len();
        let mut i: usize = 0;
        while i < n
            invariant
                i <= n,
                n == self.channels@.len(),
            decreases n - i,
        {
            match self.channels.entry_at(i) {
                ChannelState::Open(e) => {
                    if e.ids.has_id(ty, id) && e.channel.is_usable() {
                        return Some(e.channel.clone());
                    }
                },
                ChannelState::Building(_) => {},
            }
            i = i + 1;
        }
        None
    }

    /// Test only: drop every open record whose channel is no longer usable.
    pub fn remove_unusable_entries(&mut self)
        ensures
            final(self).channels.spec_config() == old(self).channels.spec_config(),
            final(self).channels.spec_dormancy() == old(self).channels.spec_dormancy(),
            final(self).channels.spec_netparams() == old(self).channels.spec_netparams(),
            exists|keep: Seq<bool>|
                {
                    &&& keep.len() == old(self).channels@.len()
                    &&& final(self).channels@ == #[trigger] crate::chan_map::filtered_by_flags(
                        old(self).channels@,
                        keep,
                    )
                    &&& forall|i: int|
                        0 <= i < old(self).channels@.len() && (#[trigger] old(
                            self,
                        ).channels@[i]).is_building() ==> keep[i]
                },
    {
        self.channels.remove_unusable();
    }

    /// Remove every open record whose channel has been idle past its
    /// budget; return the time until the next surviving record could
    /// expire, or the minimum possible budget if no surviving record
    /// reported an idle time.
    pub fn expire_channels(&mut self) -> (hint: u64)
        ensures
            final(self).channels.spec_config() == old(self).channels.spec_config(),
            final(self).channels.spec_dormancy() == old(self).channels.spec_dormancy(),
            final(self).channels.spec_netparams() == old(self).channels.spec_netparams(),
            exists|reports: Seq<Option<u64>>|
                {
                    &&& reports.len() == old(self).channels@.len()
                    &&& #[trigger] crate::chan_map::sweep_flags(old(self).channels@, reports).len()
                        == old(self).channels@.len()
                    &&& final(self).channels@ == crate::chan_map::filtered_by_flags(
                        old(self).channels@,
                        crate::chan_map::sweep_flags(old(self).channels@, reports),
                    )
                    &&& hint == crate::chan_map::sweep_hint(old(self).channels@, reports)
                    &&& forall|i: int|
                        0 <= i < old(self).channels@.len() && (#[trigger] old(
                            self,
                        ).channels@[i]).is_building() ==> reports[i] is None
                },
    {
        self.channels.sweep_expired()
    }

    /// Fan a fresh network-parameter snapshot out to every open channel.
    pub fn update_netparams(&mut self, netparams: NetParams) -> (failures: usize)
        ensures
            final(self).channels@ == old(self).channels@,
            final(self).channels.spec_config() == old(self).channels.spec_config(),
            final(self).channels.spec_dormancy() == old(self).channels.spec_dormancy(),
            final(self).channels.spec_netparams() == netparams,
            failures <= final(self).channels@.len(),
    {
        self.channels.reconfigure_general(None, None, netparams)
    }

    /// Switch dormancy and fan the resulting parameters out to every open
    /// channel.
    pub fn set_dormancy(&mut self, dormancy: Dormancy, netparams: NetParams) -> (failures: usize)
        ensures
            final(self).channels@ == old(self).channels@,
            final(self).channels.spec_config() == old(self).channels.spec_config(),
            final(self).channels.spec_dormancy() == dormancy,
            final(self).channels.spec_netparams() == netparams,
            failures <= final(self).channels@.len(),
    {
        self.channels.reconfigure_general(None, Some(dormancy), netparams)
    }

    /// Apply a new channel configuration and fan the resulting parameters
    /// out to every open channel.
    pub fn reconfigure(&mut self, config: &ChannelConfig, netparams: NetParams) -> (failures:
        usize)
        ensures
            final(self).channels@ == old(self).channels@,
            final(self).channels.spec_config() == *config,
            final(self).channels.spec_dormancy() == old(self).channels.spec_dormancy(),
            final(self).channels.spec_netparams() == netparams,
            failures <= final(self).channels@.len(),
    {
        self.channels.reconfigure_general(Some(config), None, netparams)
    }
}

} // verus!
