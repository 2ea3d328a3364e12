//! The channel state map: a table from identity sets to open channels or
//! in-flight connection attempts.
//!
//! Every operation here is meant to run inside one critical section of the
//! single lock that guards the table; none of them suspends.  The async
//! plumbing around the table lives outside the verified library.

use vstd::prelude::*;

use crate::relay_ids::RelayIds;

verus! {

/// The lowest idle budget, in seconds, that an open channel can be assigned.
pub const MIN_UNUSED_BUDGET_SECS: u64 = 180;

/// One above the largest idle budget, in seconds, that an open channel can be
/// assigned.
pub const MAX_UNUSED_BUDGET_SECS: u64 = 270;

/// As much of a channel as the manager needs to see: usability, idle time,
/// and the reconfiguration hooks.  Implementations are supplied by the
/// collaborator that actually owns the transport.
pub trait AbstractChannel: Sized + Clone {
    /// Return true if this channel is still usable.  Unusable channels are
    /// never handed back to a caller.
    fn is_usable(&self) -> bool;

    /// Return how long the channel has gone unused, in seconds, or `None`
    /// while it is currently in use.
    fn duration_unused(&self) -> Option<u64>;

    /// Apply updated padding parameters to this channel; return false if the
    /// channel refused them.
    fn reparameterize(&self, update: &ParamsUpdate) -> bool;

    /// Ask the channel to start its padding-related background activity.
    fn engage_padding_activities(&self);

    /// The confirmed identity set of this channel, as a mathematical value.
    spec fn spec_ids(&self) -> RelayIds;

    /// Return the confirmed identity set of this channel.
    fn clone_ids(&self) -> (r: RelayIds)
        ensures
            r.spec_same(&self.spec_ids()),
    ;
}

/// Configuration for the channels the manager hands out.
#[derive(Clone, Copy, PartialEq, Eq, Structural, Debug)]
pub struct ChannelConfig {
    /// Whether channel padding is enabled at all.
    pub padding: bool,
}

/// Whether the whole client is in a suspended-activity mode.
#[derive(Clone, Copy, PartialEq, Eq, Structural, Debug)]
pub enum Dormancy {
    /// Normal operation.
    Active,
    /// Background activity suspended.
    Dormant,
}

/// The network-parameter snapshot that reconfiguration fans out to channels.
#[derive(Clone, Copy, PartialEq, Eq, Structural, Debug)]
pub struct NetParams {
    /// Lower bound of the padding timing range, in milliseconds.
    pub padding_low_ms: u32,
    /// Upper bound of the padding timing range, in milliseconds.
    pub padding_high_ms: u32,
}

/// The parameter update handed to every open channel.
#[derive(Clone, Copy, PartialEq, Eq, Structural, Debug)]
pub struct ParamsUpdate {
    /// Whether the channel should engage padding.
    pub padding: bool,
    /// Lower bound of the padding timing range, in milliseconds.
    pub timing_low_ms: u32,
    /// Upper bound of the padding timing range, in milliseconds.
    pub timing_high_ms: u32,
}

/// The parameter update that a configuration snapshot produces: padding runs
/// only while the configuration allows it and the client is not dormant.
pub open spec fn spec_params_update(
    config: ChannelConfig,
    dormancy: Dormancy,
    netparams: NetParams,
) -> ParamsUpdate {
    ParamsUpdate {
        padding: config.padding && dormancy is Active,
        timing_low_ms: netparams.padding_low_ms,
        timing_high_ms: netparams.padding_high_ms,
    }
}

/// An entry for a completed channel, with the idle budget fixed at creation.
pub struct OpenEntry<C> {
    /// The confirmed identity set the channel is keyed by.
    pub ids: RelayIds,
    /// The channel itself.
    pub channel: C,
    /// How long, in seconds, the channel may sit unused before the expiry
    /// sweep removes it.
    pub max_unused_secs: u64,
}

/// An entry for an in-flight connection attempt.
pub struct PendingEntry<P> {
    /// The identity set the attempt was launched for.
    pub ids: RelayIds,
    /// A shareable handle on which any number of waiters can observe the
    /// attempt's outcome.
    pub pending: P,
}

/// A record of the channel state map: a completed channel or an in-flight
/// attempt.
pub enum ChannelState<C, P> {
    /// A completed, possibly still usable channel.
    Open(OpenEntry<C>),
    /// An attempt that has not completed yet.
    Building(PendingEntry<P>),
}

impl<C, P> ChannelState<C, P> {
    /// The identity set this record is keyed by.
    pub open spec fn ids(&self) -> RelayIds {
        match self {
            ChannelState::Open(e) => e.ids,
            ChannelState::Building(e) => e.ids,
        }
    }

    /// True when the record is a completed channel.
    pub open spec fn is_open(&self) -> bool {
        self is Open
    }

    /// True when the record is an in-flight attempt.
    pub open spec fn is_building(&self) -> bool {
        self is Building
    }
}

/// True when a record's identity set would clash with an insertion for `t`:
/// it is the same set, or it shares at least one identity.
pub open spec fn conflicts_with<C, P>(s: ChannelState<C, P>, t: RelayIds) -> bool {
    s.ids().spec_same(&t) || s.ids().spec_overlaps(&t)
}

/// True when some record of `m` holds exactly the identity set `t`.
pub open spec fn has_exact<C, P>(m: Seq<ChannelState<C, P>>, t: RelayIds) -> bool {
    exists|i: int| 0 <= i < m.len() && (#[trigger] m[i]).ids().spec_same(&t)
}

/// True when the first record of `m` holding exactly `t` is at index `i`.
pub open spec fn exact_at<C, P>(m: Seq<ChannelState<C, P>>, t: RelayIds, i: int) -> bool {
    &&& 0 <= i < m.len()
    &&& m[i].ids().spec_same(&t)
    &&& forall|j: int| 0 <= j < i ==> !(#[trigger] m[j]).ids().spec_same(&t)
}

/// There is at most one index at which the first exact record can sit.
pub proof fn lemma_exact_at_unique<C, P>(m: Seq<ChannelState<C, P>>, t: RelayIds, i: int, j: int)
    requires
        exact_at(m, t, i),
        exact_at(m, t, j),
    ensures
        i == j,
{
    if i < j {
        assert(!m[i].ids().spec_same(&t));
    } else if j < i {
        assert(!m[j].ids().spec_same(&t));
    }
}

/// True when some record of `m` clashes with an insertion for `t`.
pub open spec fn has_conflict<C, P>(m: Seq<ChannelState<C, P>>, t: RelayIds) -> bool {
    exists|i: int| 0 <= i < m.len() && conflicts_with(#[trigger] m[i], t)
}

/// The map after an unconditional insert of `s`: the first record with the
/// same identity set is replaced, or `s` is appended if there is none.
pub open spec fn spec_insert_replacing<C, P>(
    m: Seq<ChannelState<C, P>>,
    s: ChannelState<C, P>,
) -> Seq<ChannelState<C, P>> {
    if has_exact(m, s.ids()) {
        m.update(choose|i: int| exact_at(m, s.ids(), i), s)
    } else {
        m.push(s)
    }
}

/// How many records of `m` hold exactly the identity set `t`.
pub open spec fn count_exact<C, P>(m: Seq<ChannelState<C, P>>, t: RelayIds) -> nat
    decreases m.len(),
{
    if m.len() == 0 {
        0
    } else {
        count_exact(m.drop_last(), t) + if m.last().ids().spec_same(&t) {
            1nat
        } else {
            0nat
        }
    }
}

/// The records of `m` whose keep flag is set, keeping their order.
pub open spec fn filtered_by_flags<C, P>(
    m: Seq<ChannelState<C, P>>,
    keep: Seq<bool>,
) -> Seq<ChannelState<C, P>>
    decreases m.len(),
{
    if m.len() == 0 {
        Seq::empty()
    } else {
        let rest = filtered_by_flags(m.drop_last(), keep.drop_last());
        if keep[m.len() - 1] {
            rest.push(m.last())
        } else {
            rest
        }
    }
}

/// Whether the expiry sweep keeps a record, given the idle duration its
/// channel reported: attempts are always kept, channels in use (no report)
/// are always kept, and an idle channel is kept while its idle time has not
/// exceeded its budget.
pub open spec fn sweep_keep<C, P>(s: ChannelState<C, P>, report: Option<u64>) -> bool {
    match s {
        ChannelState::Open(e) => match report {
            Some(d) => d <= e.max_unused_secs,
            None => true,
        },
        ChannelState::Building(_) => true,
    }
}

/// The keep flags of a whole map under the expiry sweep.
pub open spec fn sweep_flags<C, P>(
    m: Seq<ChannelState<C, P>>,
    reports: Seq<Option<u64>>,
) -> Seq<bool> {
    Seq::new(m.len(), |i: int| sweep_keep(m[i], reports[i]))
}

/// The smaller of two durations.
pub open spec fn spec_min64(a: u64, b: u64) -> u64 {
    if a <= b {
        a
    } else {
        b
    }
}

/// The least remaining idle time among the open records that survive the
/// sweep and reported an idle duration, or `None` when there is no such
/// record.
pub open spec fn sweep_hint_min<C, P>(
    m: Seq<ChannelState<C, P>>,
    reports: Seq<Option<u64>>,
) -> Option<u64>
    decreases m.len(),
{
    if m.len() == 0 {
        None
    } else {
        let rest = sweep_hint_min(m.drop_last(), reports.drop_last());
        match m.last() {
            ChannelState::Open(e) => match reports[m.len() - 1] {
                Some(d) => if d <= e.max_unused_secs {
                    match rest {
                        Some(v) => Some(spec_min64(v, (e.max_unused_secs - d) as u64)),
                        None => Some((e.max_unused_secs - d) as u64),
                    }
                } else {
                    rest
                },
                None => rest,
            },
            ChannelState::Building(_) => rest,
        }
    }
}

/// The sweep's scheduling hint: the least remaining idle time among the
/// surviving reported records, falling back to the minimum possible budget
/// only when there is no such record (nothing open, or everything in use).
pub open spec fn sweep_hint<C, P>(
    m: Seq<ChannelState<C, P>>,
    reports: Seq<Option<u64>>,
) -> u64 {
    match sweep_hint_min(m, reports) {
        Some(v) => v,
        None => MIN_UNUSED_BUDGET_SECS,
    }
}

/// The channel state map, together with the configuration snapshot that new
/// and reconfigured channels receive.
pub struct ChannelMap<C, P> {
    /// The records, in insertion order.
    entries: Vec<ChannelState<C, P>>,
    /// The channel configuration currently in force.
    config: ChannelConfig,
    /// The dormancy mode currently in force.
    dormancy: Dormancy,
    /// The network-parameter snapshot currently in force.
    netparams: NetParams,
}

impl<C, P> View for ChannelMap<C, P> {
    type V = Seq<ChannelState<C, P>>;

    closed spec fn view(&self) -> Seq<ChannelState<C, P>> {
        self.entries@
    }
}

impl<C, P> ChannelMap<C, P> {
    /// The channel configuration currently in force.
    pub closed spec fn spec_config(&self) -> ChannelConfig {
        self.config
    }

    /// The dormancy mode currently in force.
    pub closed spec fn spec_dormancy(&self) -> Dormancy {
        self.dormancy
    }

    /// The network-parameter snapshot currently in force.
    pub closed spec fn spec_netparams(&self) -> NetParams {
        self.netparams
    }

    /// The parameter update that the current snapshot produces.
    pub open spec fn spec_current_update(&self) -> ParamsUpdate {
        spec_params_update(self.spec_config(), self.spec_dormancy(), self.spec_netparams())
    }

    /// Make a new, empty channel state map.
    pub fn new(config: ChannelConfig, dormancy: Dormancy, netparams: NetParams) -> (r: Self)
        ensures
            r@ == Seq::<ChannelState<C, P>>::empty(),
            r.spec_config() == config,
            r.spec_dormancy() == dormancy,
            r.spec_netparams() == netparams,
    {
        ChannelMap { entries: Vec::new(), config, dormancy, netparams }
    }

    /// The number of records in the map.
    pub fn len(&self) -> (r: usize)
        ensures
            r == self@.len(),
    {
        self.entries.len()
    }

    /// The parameter update that the current snapshot produces.
    pub fn current_update(&self) -> (r: ParamsUpdate)
        ensures
            r == self.spec_current_update(),
    {
        ParamsUpdate {
            padding: self.config.padding && matches!(self.dormancy, Dormancy::Active),
            timing_low_ms: self.netparams.padding_low_ms,
            timing_high_ms: self.netparams.padding_high_ms,
        }
    }

    /// Find the first record keyed by exactly the identity set `t`.
    pub fn index_exact(&self, t: &RelayIds) -> (r: Option<usize>)
        ensures
            match r {
                Some(i) => exact_at(self@, *t, i as int),
                None => !has_exact(self@, *t),
            },
    {
        let n = self.entries.len();
        let mut i: usize = 0;
        while i < n
            invariant
                i <= n,
                n == self@.len(),
                forall|j: int| 0 <= j < i ==> !(#[trigger] self@[j]).ids().spec_same(t),
            decreases n - i,
        {
            if state_ids(&self.entries[i]).same_relay_ids(t) {
                return Some(i);
            }
            i = i + 1;
        }
        None
    }

    /// True when some record clashes with an insertion for `t`.
    pub fn has_conflicting(&self, t: &RelayIds) -> (r: bool)
        ensures
            r == has_conflict(self@, *t),
    {
        let n = self.entries.len();
        let mut i: usize = 0;
        while i < n
            invariant
                i <= n,
                n == self@.len(),
                forall|j: int| 0 <= j < i ==> !conflicts_with(#[trigger] self@[j], *t),
            decreases n - i,
        {
            let ids = state_ids(&self.entries[i]);
            if ids.same_relay_ids(t) || ids.has_any_relay_id_from(t) {
                return true;
            }
            i = i + 1;
        }
        false
    }

    /// Insert `s`, failing when any record is keyed by the same identity set
    /// as `s` or by one sharing an identity with it.  On failure the map is
    /// unchanged.
    pub fn try_insert(&mut self, s: ChannelState<C, P>) -> (r: Result<(), ()>)
        ensures
            r is Ok <==> !has_conflict(old(self)@, s.ids()),
            r is Ok ==> final(self)@ == old(self)@.push(s),
            r is Err ==> final(self)@ == old(self)@,
            final(self).spec_config() == old(self).spec_config(),
            final(self).spec_dormancy() == old(self).spec_dormancy(),
            final(self).spec_netparams() == old(self).spec_netparams(),
    {
        let ids = state_ids(&s).duplicate();
        if self.has_conflicting(&ids) {
            Err(())
        } else {
            self.entries.push(s);
            Ok(())
        }
    }

    /// Remove and return the first record keyed by exactly `t`, if any.
    pub fn remove_exact(&mut self, t: &RelayIds) -> (r: Option<ChannelState<C, P>>)
        ensures
            match r {
                Some(s) => exists|i: int|
                    #![auto]
                    exact_at(old(self)@, *t, i) && s == old(self)@[i] && final(self)@ == old(
                        self,
                    )@.remove(i),
                None => !has_exact(old(self)@, *t) && final(self)@ == old(self)@,
            },
            final(self).spec_config() == old(self).spec_config(),
            final(self).spec_dormancy() == old(self).spec_dormancy(),
            final(self).spec_netparams() == old(self).spec_netparams(),
    {
        match self.index_exact(t) {
            Some(i) => {
                let s = self.entries.remove(i);
                Some(s)
            },
            None => None,
        }
    }

    /// Insert `s` unconditionally: replace the first record with the same
    /// identity set, or append `s` when there is none.
    pub fn insert(&mut self, s: ChannelState<C, P>)
        ensures
            final(self)@ == spec_insert_replacing(old(self)@, s),
            exists|k: int| 0 <= k < final(self)@.len() && final(self)@[k] == s,
            final(self).spec_config() == old(self).spec_config(),
            final(self).spec_dormancy() == old(self).spec_dormancy(),
            final(self).spec_netparams() == old(self).spec_netparams(),
    {
        let ids = state_ids(&s).duplicate();
        match self.index_exact(&ids) {
            Some(i) => {
                proof {
                    let j = choose|j: int| exact_at(old(self)@, s.ids(), j);
                    assert(exact_at(old(self)@, s.ids(), i as int));
                    lemma_exact_at_unique(old(self)@, s.ids(), i as int, j);
                }
                self.entries.set(i, s);
                proof {
                    assert(self@[i as int] == s);
                }
            },
            None => {
                self.entries.push(s);
                proof {
                    assert(self@[old(self)@.len() as int] == s);
                }
            },
        }
    }

    /// The indexes of every record sharing at least one identity with
    /// `t` without holding exactly `t`, in map order.
    pub fn lookup_overlapping(&self, t: &RelayIds) -> (r: Vec<usize>)
        ensures
            forall|k: int|
                0 <= k < r@.len() ==> {
                    &&& (#[trigger] r@[k]) < self@.len()
                    &&& self@[r@[k] as int].ids().spec_overlaps(t)
                    &&& !self@[r@[k] as int].ids().spec_same(t)
                },
            forall|i: int|
                0 <= i < self@.len() && (#[trigger] self@[i]).ids().spec_overlaps(t)
                    && !self@[i].ids().spec_same(t) ==> r@.contains(i as usize),
            forall|k1: int, k2: int| 0 <= k1 < k2 < r@.len() ==> r@[k1] < r@[k2],
    {
        let n = self.entries.len();
        let mut out: Vec<usize> = Vec::new();
        let mut i: usize = 0;
        while i < n
            invariant
                i <= n,
                n == self@.len(),
                forall|k: int|
                    0 <= k < out@.len() ==> {
                        &&& (#[trigger] out@[k]) < i
                        &&& self@[out@[k] as int].ids().spec_overlaps(t)
                        &&& !self@[out@[k] as int].ids().spec_same(t)
                    },
                forall|j: int|
                    0 <= j < i && (#[trigger] self@[j]).ids().spec_overlaps(t)
                        && !self@[j].ids().spec_same(t) ==> out@.contains(j as usize),
                forall|k1: int, k2: int| 0 <= k1 < k2 < out@.len() ==> out@[k1] < out@[k2],
            decreases n - i,
        {
            let ids = state_ids(&self.entries[i]);
            if ids.has_any_relay_id_from(t) && !ids.same_relay_ids(t) {
                let ghost before = out@;
                out.push(i);
                proof {
                    assert(out@[before.len() as int] == i);
                    assert forall|j: int|
                        0 <= j < i + 1 && (#[trigger] self@[j]).ids().spec_overlaps(t)
                            && !self@[j].ids().spec_same(t) implies out@.contains(
                        j as usize,
                    ) by {
                        if j < i {
                            let k = choose|k: int|
                                0 <= k < before.len() && before[k] == j as usize;
                            assert(out@[k] == j as usize);
                        } else {
                            assert(out@[before.len() as int] == j as usize);
                        }
                    }
                }
            }
            i = i + 1;
        }
        out
    }

    /// Whether the record at `i` is an open channel.
    pub fn entry_is_open(&self, i: usize) -> (r: bool)
        requires
            i < self@.len(),
        ensures
            r == self@[i as int].is_open(),
    {
        matches!(&self.entries[i], ChannelState::Open(_))
    }

    /// A reference to the record at `i`.
    pub fn entry_at(&self, i: usize) -> (r: &ChannelState<C, P>)
        requires
            i < self@.len(),
        ensures
            *r == self@[i as int],
    {
        &self.entries[i]
    }

    /// Remove and return the record at `i`.
    pub fn remove_at(&mut self, i: usize) -> (r: ChannelState<C, P>)
        requires
            i < old(self)@.len(),
        ensures
            r == old(self)@[i as int],
            final(self)@ == old(self)@.remove(i as int),
            final(self).spec_config() == old(self).spec_config(),
            final(self).spec_dormancy() == old(self).spec_dormancy(),
            final(self).spec_netparams() == old(self).spec_netparams(),
    {
        self.entries.remove(i)
    }

    /// Keep exactly the records whose flag is set, in order.
    pub fn retain_flagged(&mut self, keep: &Vec<bool>)
        requires
            keep@.len() == old(self)@.len(),
        ensures
            final(self)@ == filtered_by_flags(old(self)@, keep@),
            final(self).spec_config() == old(self).spec_config(),
            final(self).spec_dormancy() == old(self).spec_dormancy(),
            final(self).spec_netparams() == old(self).spec_netparams(),
    {
        let ghost m = self@;
        let mut kept: Vec<ChannelState<C, P>> = Vec::new();
        let mut i: usize = 0;
        let n = self.entries.len();
        while i < n
            invariant
                i <= n,
                n == m.len(),
                keep@.len() == m.len(),
                self.entries@ == m.skip(i as int),
                kept@ == filtered_by_flags(m.take(i as int), keep@.take(i as int)),
                self.spec_config() == old(self).spec_config(),
                self.spec_dormancy() == old(self).spec_dormancy(),
                self.spec_netparams() == old(self).spec_netparams(),
            decreases n - i,
        {
            let s = self.entries.remove(0);
            proof {
                assert(s == m[i as int]);
                assert(m.take(i + 1 as int).drop_last() =~= m.take(i as int));
                assert(keep@.take(i + 1 as int).drop_last() =~= keep@.take(i as int));
                assert(m.skip(i as int).remove(0) =~= m.skip(i + 1 as int));
            }
            if keep[i] {
                kept.push(s);
            }
            i = i + 1;
        }
        proof {
            assert(m.take(n as int) =~= m);
            assert(keep@.take(n as int) =~= keep@);
        }
        self.entries = kept;
    }

    /// Apply the expiry sweep, given the idle duration each record's channel
    /// reported: remove every open record whose reported idle time exceeds
    /// its budget, and return the least remaining idle time among the
    /// surviving reported records, or the minimum possible budget only when
    /// there is no such record.
    pub fn sweep_core(&mut self, reports: &Vec<Option<u64>>) -> (hint: u64)
        requires
            reports@.len() == old(self)@.len(),
        ensures
            final(self)@ == filtered_by_flags(old(self)@, sweep_flags(old(self)@, reports@)),
            hint == sweep_hint(old(self)@, reports@),
            final(self).spec_config() == old(self).spec_config(),
            final(self).spec_dormancy() == old(self).spec_dormancy(),
            final(self).spec_netparams() == old(self).spec_netparams(),
    {
        let ghost m = self@;
        let n = self.entries.len();
        let mut keep: Vec<bool> = Vec::new();
        let mut hint_min: Option<u64> = None;
        let mut i: usize = 0;
        while i < n
            invariant
                i <= n,
                n == m.len(),
                self@ == m,
                reports@.len() == m.len(),
                keep@.len() == i,
                forall|j: int| 0 <= j < i ==> keep@[j] == sweep_keep(m[j], reports@[j]),
                hint_min == sweep_hint_min(m.take(i as int), reports@.take(i as int)),
            decreases n - i,
        {
            proof {
                assert(m.take(i + 1 as int).drop_last() =~= m.take(i as int));
                assert(reports@.take(i + 1 as int).drop_last() =~= reports@.take(i as int));
                assert(m.take(i + 1 as int).last() == m[i as int]);
            }
            let k: bool = match (self.entry_at(i), &reports[i]) {
                (ChannelState::Open(e), Some(d)) => {
                    if *d <= e.max_unused_secs {
                        let remaining = e.max_unused_secs - *d;
                        hint_min = match hint_min {
                            Some(v) => if remaining < v {
                                Some(remaining)
                            } else {
                                Some(v)
                            },
                            None => Some(remaining),
                        };
                        true
                    } else {
                        false
                    }
                },
                _ => true,
            };
            keep.push(k);
            i = i + 1;
        }
        proof {
            assert(m.take(n as int) =~= m);
            assert(reports@.take(n as int) =~= reports@);
            assert(keep@ =~= sweep_flags(m, reports@));
        }
        self.retain_flagged(&keep);
        match hint_min {
            Some(v) => v,
            None => MIN_UNUSED_BUDGET_SECS,
        }
    }
}

impl<C: AbstractChannel, P> ChannelMap<C, P> {
    /// Ask every open record's channel how long it has been unused; records
    /// that are attempts report `None`, like channels in use.
    fn idle_reports(&self) -> (r: Vec<Option<u64>>)
        ensures
            r@.len() == self@.len(),
            forall|i: int| 0 <= i < self@.len() && (#[trigger] self@[i]).is_building()
                ==> r@[i] is None,
    {
        let n = self.entries.len();
        let mut reports: Vec<Option<u64>> = Vec::new();
        let mut i: usize = 0;
        while i < n
            invariant
                i <= n,
                n == self@.len(),
                reports@.len() == i,
                forall|j: int| 0 <= j < i && (#[trigger] self@[j]).is_building()
                    ==> reports@[j] is None,
            decreases n - i,
        {
            let report: Option<u64> = match self.entry_at(i) {
                ChannelState::Open(e) => e.channel.duration_unused(),
                ChannelState::Building(_) => None,
            };
            reports.push(report);
            i = i + 1;
        }
        reports
    }

    /// Remove every open record whose channel reports an idle time over its
    /// budget; records in use and in-flight attempts always survive.  Return
    /// the time until the next surviving record could expire, or the minimum
    /// possible budget if no surviving record reported an idle time.
    pub fn sweep_expired(&mut self) -> (hint: u64)
        ensures
            exists|reports: Seq<Option<u64>>|
                {
                    &&& reports.len() == old(self)@.len()
                    &&& #[trigger] sweep_flags(old(self)@, reports).len() == old(self)@.len()
                    &&& final(self)@ == filtered_by_flags(old(self)@, sweep_flags(old(self)@, reports))
                    &&& hint == sweep_hint(old(self)@, reports)
                    &&& forall|i: int|
                        0 <= i < old(self)@.len() && (#[trigger] old(self)@[i]).is_building()
                            ==> reports[i] is None
                },
            final(self).spec_config() == old(self).spec_config(),
            final(self).spec_dormancy() == old(self).spec_dormancy(),
            final(self).spec_netparams() == old(self).spec_netparams(),
    {
        let reports = self.idle_reports();
        let hint = self.sweep_core(&reports);
        proof {
            assert(sweep_flags(old(self)@, reports@).len() == old(self)@.len());
        }
        hint
    }

    /// Keep exactly the records whose flag is set; used with a usability
    /// snapshot to drop unusable open channels.
    pub fn remove_unusable(&mut self)
        ensures
            exists|keep: Seq<bool>|
                {
                    &&& keep.len() == old(self)@.len()
                    &&& final(self)@ == #[trigger] filtered_by_flags(old(self)@, keep)
                    &&& forall|i: int|
                        0 <= i < old(self)@.len() && (#[trigger] old(self)@[i]).is_building()
                            ==> keep[i]
                },
            final(self).spec_config() == old(self).spec_config(),
            final(self).spec_dormancy() == old(self).spec_dormancy(),
            final(self).spec_netparams() == old(self).spec_netparams(),
    {
        let n = self.entries.len();
        let mut keep: Vec<bool> = Vec::new();
        let mut i: usize = 0;
        while i < n
            invariant
                i <= n,
                n == self@.len(),
                keep@.len() == i,
                forall|j: int| 0 <= j < i && (#[trigger] self@[j]).is_building() ==> keep@[j],
            decreases n - i,
        {
            let k: bool = match self.entry_at(i) {
                ChannelState::Open(e) => e.channel.is_usable(),
                ChannelState::Building(_) => true,
            };
            keep.push(k);
            i = i + 1;
        }
        self.retain_flagged(&keep);
    }

    /// Record a new configuration snapshot and hand the resulting parameter
    /// update to every open record's channel.  Channels that refuse the
    /// update are counted, not fatal.  The set of records is unchanged.
    pub fn reconfigure_general(
        &mut self,
        config: Option<&ChannelConfig>,
        dormancy: Option<Dormancy>,
        netparams: NetParams,
    ) -> (failures: usize)
        ensures
            final(self)@ == old(self)@,
            final(self).spec_config() == match config {
                Some(c) => *c,
                None => old(self).spec_config(),
            },
            final(self).spec_dormancy() == match dormancy {
                Some(d) => d,
                None => old(self).spec_dormancy(),
            },
            final(self).spec_netparams() == netparams,
            failures <= final(self)@.len(),
    {
        match config {
            Some(c) => {
                self.config = *c;
            },
            None => {},
        }
        match dormancy {
            Some(d) => {
                self.dormancy = d;
            },
            None => {},
        }
        self.netparams = netparams;
        let update = self.current_update();
        let n = self.entries.len();
        let mut failures: usize = 0;
        let mut i: usize = 0;
        while i < n
            invariant
                i <= n,
                n == self@.len(),
                self@ == old(self)@,
                failures <= i,
                self.spec_config() == match config {
                    Some(c) => *c,
                    None => old(self).spec_config(),
                },
                final(self).spec_dormancy() == match dormancy {
                    Some(d) => d,
                    None => old(self).spec_dormancy(),
                },
                self.spec_netparams() == netparams,
            decreases n - i,
        {
            let ok: bool = match self.entry_at(i) {
                ChannelState::Open(e) => e.channel.reparameterize(&update),
                ChannelState::Building(_) => true,
            };
            if !ok {
                failures = failures + 1;
            }
            i = i + 1;
        }
        failures
    }
}

/// A reference to the identity set a record is keyed by.
pub fn state_ids<'a, C, P>(s: &'a ChannelState<C, P>) -> (r: &'a RelayIds)
    ensures
        *r == s.ids(),
{
    match s {
        ChannelState::Open(e) => &e.ids,
        ChannelState::Building(e) => &e.ids,
    }
}

} // verus!
