//! Laws of the channel manager, proved over the map model and the decide
//! step's contract.

use vstd::prelude::*;

use crate::chan_map::{
    conflicts_with, count_exact, exact_at, filtered_by_flags, has_conflict, has_exact,
    spec_insert_replacing, sweep_flags, sweep_keep, ChannelState,
};
use crate::chan_mgr::{
    decide_post, has_overlap_building, has_overlap_open_usable, launched_building,
    overlap_building_first_at, overlap_open_usable_at, waits_on, Action, ChanError,
};
use crate::relay_ids::RelayIds;

verus! {

/// Law: at most one build is ever in flight for a given identity set.
///
/// A launch leaves the map with a Building record for the target appended
/// (`launched_building`).  This lemma shows that any later decide step for
/// the same identity set, whatever its usability snapshot, leaves the map
/// unchanged and waits on that record's completion handle: it never orders
/// a second build.  Every concurrent requester for the set therefore shares
/// the single underlying build.
pub proof fn lemma_one_build_in_flight<C: Clone, P: Clone>(
    base: Seq<ChannelState<C, P>>,
    t: RelayIds,
    p: P,
    mm: Seq<ChannelState<C, P>>,
    f2: Seq<bool>,
    p2: P,
    mm2: Seq<ChannelState<C, P>>,
    r2: Result<Action<C, P>, ChanError>,
)
    requires
        !has_conflict(base, t),
        launched_building(base, t, p, mm),
        decide_post(mm, f2, t, p2, mm2, r2),
    ensures
        mm2 == mm,
        waits_on(mm[mm.len() - 1], r2),
{
    let i = mm.len() - 1;
    assert(exact_at(mm, t, i)) by {
        assert forall|j: int| 0 <= j < i implies !(#[trigger] mm[j]).ids().spec_same(&t) by {
            assert(mm[j] == base[j]);
            assert(!conflicts_with(base[j], t));
        }
    }
    assert(mm[i].is_building());
}

/// Law: requests for pairwise disjoint identity sets never interact.
///
/// A record whose identity set shares nothing with the target is invisible
/// to every predicate the decide step consults, so adding such a record (a
/// build in progress or a channel for an unrelated relay) cannot change
/// what is decided for the target.
pub proof fn lemma_disjoint_record_invisible<C, P>(
    m: Seq<ChannelState<C, P>>,
    f: Seq<bool>,
    x: ChannelState<C, P>,
    b: bool,
    t: RelayIds,
)
    requires
        f.len() == m.len(),
        !x.ids().spec_overlaps(&t),
        !x.ids().spec_same(&t),
    ensures
        has_exact(m.push(x), t) == has_exact(m, t),
        has_conflict(m.push(x), t) == has_conflict(m, t),
        has_overlap_open_usable(m.push(x), f.push(b), t) == has_overlap_open_usable(m, f, t),
        has_overlap_building(m.push(x), t) == has_overlap_building(m, t),
        forall|i: int|
            0 <= i < m.len() ==> #[trigger] exact_at(m.push(x), t, i) == exact_at(m, t, i),
        forall|j: int|
            0 <= j < m.len() ==> #[trigger] overlap_building_first_at(m.push(x), t, j)
                == overlap_building_first_at(m, t, j),
{
    let mx = m.push(x);
    let fx = f.push(b);
    assert(mx[m.len() as int] == x);
    assert forall|i: int| 0 <= i < m.len() implies #[trigger] mx[i] == m[i] by {}
    if has_exact(m, t) {
        let i = choose|i: int| 0 <= i < m.len() && (#[trigger] m[i]).ids().spec_same(&t);
        assert(mx[i].ids().spec_same(&t));
    }
    if has_exact(mx, t) {
        let i = choose|i: int| 0 <= i < mx.len() && (#[trigger] mx[i]).ids().spec_same(&t);
        assert(i < m.len());
        assert(m[i].ids().spec_same(&t));
    }
    if has_conflict(m, t) {
        let i = choose|i: int| 0 <= i < m.len() && conflicts_with(#[trigger] m[i], t);
        assert(conflicts_with(mx[i], t));
    }
    if has_conflict(mx, t) {
        let i = choose|i: int| 0 <= i < mx.len() && conflicts_with(#[trigger] mx[i], t);
        assert(i < m.len());
        assert(conflicts_with(m[i], t));
    }
    if has_overlap_open_usable(m, f, t) {
        let i = choose|i: int| #[trigger] overlap_open_usable_at(m, f, t, i);
        assert(overlap_open_usable_at(mx, fx, t, i));
    }
    if has_overlap_open_usable(mx, fx, t) {
        let i = choose|i: int| #[trigger] overlap_open_usable_at(mx, fx, t, i);
        assert(i < m.len());
        assert(overlap_open_usable_at(m, f, t, i));
    }
    if has_overlap_building(m, t) {
        let i = choose|i: int|
            0 <= i < m.len() && (#[trigger] m[i]).is_building() && m[i].ids().spec_overlaps(&t);
        assert(mx[i].is_building() && mx[i].ids().spec_overlaps(&t));
    }
    if has_overlap_building(mx, t) {
        let i = choose|i: int|
            0 <= i < mx.len() && (#[trigger] mx[i]).is_building() && mx[i].ids().spec_overlaps(
                &t,
            );
        assert(i < m.len());
        assert(m[i].is_building() && m[i].ids().spec_overlaps(&t));
    }
    assert forall|i: int|
        0 <= i < m.len() implies #[trigger] exact_at(mx, t, i) == exact_at(m, t, i) by {
        if exact_at(mx, t, i) {
            assert(m[i].ids().spec_same(&t));
            assert forall|j: int| 0 <= j < i implies !(#[trigger] m[j]).ids().spec_same(&t) by {
                assert(mx[j] == m[j]);
            }
        }
        if exact_at(m, t, i) {
            assert(mx[i].ids().spec_same(&t));
            assert forall|j: int| 0 <= j < i implies !(#[trigger] mx[j]).ids().spec_same(&t) by {
                assert(mx[j] == m[j]);
            }
        }
    }
    assert forall|j: int|
        0 <= j < m.len() implies #[trigger] overlap_building_first_at(mx, t, j)
        == overlap_building_first_at(m, t, j) by {
        if overlap_building_first_at(mx, t, j) {
            assert forall|k: int|
                0 <= k < j implies !((#[trigger] m[k]).is_building() && m[k].ids().spec_overlaps(
                &t,
            )) by {
                assert(mx[k] == m[k]);
            }
        }
        if overlap_building_first_at(m, t, j) {
            assert forall|k: int|
                0 <= k < j implies !((#[trigger] mx[k]).is_building() && mx[k].ids().spec_overlaps(
                &t,
            )) by {
                assert(mx[k] == m[k]);
            }
        }
    }
}

/// Law: a record whose channel is known unusable is never handed back for
/// an exact-match request; the decide step orders a fresh build instead
/// (or reports the conflict that blocks one).
pub proof fn lemma_unusable_never_returned<C: Clone, P: Clone>(
    m: Seq<ChannelState<C, P>>,
    f: Seq<bool>,
    t: RelayIds,
    p: P,
    mm: Seq<ChannelState<C, P>>,
    r: Result<Action<C, P>, ChanError>,
    i: int,
)
    requires
        decide_post(m, f, t, p, mm, r),
        exact_at(m, t, i),
        m[i].is_open(),
        !f[i],
    ensures
        r == Ok::<Action<C, P>, ChanError>(Action::Launch) || r == Err::<
            Action<C, P>,
            ChanError,
        >(ChanError::IdentityConflict),
{
    assert(exact_at(m, t, i) && m[i].is_open() && !f[i]);
}

/// Law: the expiry sweep never removes a record whose channel reports that
/// it is currently in use (no idle duration).
pub proof fn lemma_sweep_keeps_in_use<C, P>(
    m: Seq<ChannelState<C, P>>,
    reports: Seq<Option<u64>>,
    i: int,
)
    requires
        reports.len() == m.len(),
        0 <= i < m.len(),
        reports[i] is None,
    ensures
        filtered_by_flags(m, sweep_flags(m, reports)).contains(m[i]),
    decreases m.len(),
{
    let flags = sweep_flags(m, reports);
    let kept = filtered_by_flags(m, flags);
    if i == m.len() - 1 {
        assert(sweep_keep(m[i], reports[i]));
        assert(flags[m.len() - 1]);
        assert(kept == filtered_by_flags(m.drop_last(), flags.drop_last()).push(m.last()));
        assert(kept.last() == m[i]);
        assert(kept.contains(m[i])) by {
            assert(kept[kept.len() - 1] == m[i]);
        }
    } else {
        let m1 = m.drop_last();
        let r1 = reports.drop_last();
        lemma_sweep_keeps_in_use(m1, r1, i);
        assert(sweep_flags(m1, r1) =~= flags.drop_last());
        let kept1 = filtered_by_flags(m1, flags.drop_last());
        assert(kept1.contains(m1[i]));
        assert(m1[i] == m[i]);
        let k = choose|k: int| 0 <= k < kept1.len() && kept1[k] == m[i];
        if flags[m.len() - 1] {
            assert(kept == kept1.push(m.last()));
            assert(kept[k] == m[i]);
        } else {
            assert(kept == kept1);
        }
    }
}

/// Removing a record changes the exact count by one exactly when the
/// removed record holds the identity set.
pub proof fn lemma_count_exact_remove<C, P>(m: Seq<ChannelState<C, P>>, t: RelayIds, i: int)
    requires
        0 <= i < m.len(),
    ensures
        count_exact(m.remove(i), t) + (if m[i].ids().spec_same(&t) {
            1nat
        } else {
            0nat
        }) == count_exact(m, t),
    decreases m.len(),
{
    if i == m.len() - 1 {
        assert(m.remove(i) =~= m.drop_last());
    } else {
        lemma_count_exact_remove(m.drop_last(), t, i);
        assert(m.remove(i).drop_last() =~= m.drop_last().remove(i));
        assert(m.remove(i).last() == m.last());
    }
}

/// Law: reconciling a successful build leaves exactly one record for the
/// confirmed identity set.
///
/// The reconcile step's contract says the map afterwards is the old map
/// with the Building record at `i` removed and an Open record `s`, keyed
/// by the built channel's confirmed identity set, inserted.  When that
/// confirmed set is the one the Building record held, and that record was
/// the only one for the set, exactly one record for the set remains: the
/// round trip of inserting, exact-removing, and reinserting as Open never
/// duplicates a key and never leaves a stale attempt behind.
pub proof fn lemma_reconcile_single_record<C, P>(
    m: Seq<ChannelState<C, P>>,
    t: RelayIds,
    i: int,
    s: ChannelState<C, P>,
)
    requires
        0 <= i < m.len(),
        m[i].ids().spec_same(&t),
        count_exact(m, t) == 1,
        s.ids().spec_same(&t),
    ensures
        count_exact(spec_insert_replacing(m.remove(i), s), t) == 1,
{
    lemma_count_exact_remove(m, t, i);
    let m1 = m.remove(i);
    lemma_count_zero_iff_none(m1, t);
    assert(!has_exact(m1, s.ids())) by {
        if has_exact(m1, s.ids()) {
            let j = choose|j: int|
                0 <= j < m1.len() && (#[trigger] m1[j]).ids().spec_same(&s.ids());
            assert(m1[j].ids().spec_same(&t));
        }
    }
    let m2 = spec_insert_replacing(m1, s);
    assert(m2 == m1.push(s));
    assert(m2.drop_last() =~= m1);
    assert(m2.last() == s);
    assert(count_exact(m2, t) == count_exact(m1, t) + 1);
}

/// The number of exact records is zero exactly when no record holds the
/// identity set.
pub proof fn lemma_count_zero_iff_none<C, P>(m: Seq<ChannelState<C, P>>, t: RelayIds)
    ensures
        (count_exact(m, t) == 0) <==> (forall|i: int|
            0 <= i < m.len() ==> !(#[trigger] m[i]).ids().spec_same(&t)),
    decreases m.len(),
{
    if m.len() > 0 {
        lemma_count_zero_iff_none(m.drop_last(), t);
        assert(m[m.len() - 1] == m.last());
        assert forall|i: int| 0 <= i < m.len() - 1 implies m.drop_last()[i] == m[i] by {}
    }
}

/// Law: inserting a Building record for a fresh identity set, removing it
/// again by exact match, and reinserting it as Open leaves exactly one
/// record for that identity set.
///
/// The three conclusions walk the three steps: the Building record placed
/// by `try_insert` is the first (and only) exact match, so the exact
/// removal takes precisely it and restores the map as it was, and the
/// unconditional reinsertion of the Open record then appends the single
/// record for the set.
pub proof fn lemma_building_round_trip<C, P>(
    m: Seq<ChannelState<C, P>>,
    b: ChannelState<C, P>,
    o: ChannelState<C, P>,
    t: RelayIds,
)
    requires
        count_exact(m, t) == 0,
        b.ids().spec_same(&t),
        o.ids().spec_same(&t),
    ensures
        exact_at(m.push(b), t, m.len() as int),
        m.push(b).remove(m.len() as int) == m,
        count_exact(spec_insert_replacing(m, o), t) == 1,
{
    lemma_count_zero_iff_none(m, t);
    let mb = m.push(b);
    assert(mb[m.len() as int] == b);
    assert forall|j: int| 0 <= j < m.len() implies !(#[trigger] mb[j]).ids().spec_same(&t) by {
        assert(mb[j] == m[j]);
    }
    assert(mb.remove(m.len() as int) =~= m);
    // `o` holds the same identities as `t`, so equality of identity views
    // makes the two interchangeable in the map predicates.
    assert(!has_exact(m, o.ids())) by {
        if has_exact(m, o.ids()) {
            let i = choose|i: int|
                0 <= i < m.len() && (#[trigger] m[i]).ids().spec_same(&o.ids());
            assert(m[i].ids().spec_same(&t));
        }
    }
    let mo = spec_insert_replacing(m, o);
    assert(mo == m.push(o));
    assert(mo.drop_last() =~= m);
    assert(mo.last() == o);
    assert(count_exact(mo, t) == count_exact(m, t) + 1);
}

} // verus!
