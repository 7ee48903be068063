//! The library's cross-function guarantees, proved from the scheduler's tick
//! relation: once-only emission, eviction and re-arming of dedup keys,
//! filter exclusion, and the independence of the status-change toggles from
//! lead-time reminders.

use vstd::prelude::*;

use crate::launches::{distinct_ids, LaunchData};
use crate::reminders::SECONDS_PER_MINUTE;
use crate::resolver::{filters_match, Subscriber};
use crate::scheduler::{
    due_key, id_in_snap, key_in, lead_due, lead_entry_justified, lead_key,
    out_has, outcome_due, outcome_entry_justified, scrub_due, scrub_entry_justified,
    spec_status_of, status_key, subscribers_wf, tick_rel, DueReminder, KeyV, LaunchStatus,
    NotifClass, SchedulerState,
};

verus! {

/// A justified instruction's key was not among the pre-tick keys, and its
/// launch id is in the snapshot.
proof fn lemma_justified_key_fresh(
    d: DueReminder,
    snap: Seq<LaunchData>,
    subs: Seq<Subscriber>,
    now: int,
    prevs: Seq<LaunchStatus>,
    keys: Seq<crate::scheduler::DedupKey>,
)
    requires
        match d.class {
            NotifClass::Lead => lead_entry_justified(d, snap, subs, now, keys),
            NotifClass::Scrub => scrub_entry_justified(d, snap, subs, prevs, keys),
            NotifClass::Outcome => outcome_entry_justified(d, snap, subs, prevs, keys),
        },
    ensures
        !key_in(keys, due_key(d)),
        id_in_snap(snap, due_key(d).launch),
{
    match d.class {
        NotifClass::Lead => {
            let (li, si, ri) = choose|li: int, si: int, ri: int|
                #![trigger snap[li], subs[si].reminders@[ri]]
                0 <= li < snap.len() && 0 <= si < subs.len() && 0 <= ri
                    < subs[si].reminders@.len() && d.launch@ == snap[li].ll_id@ && d.subscriber
                    == subs[si].spec_id() && d.bucket == subs[si].reminders@[ri].minutes
                    && lead_due(snap[li], subs[si], subs[si].reminders@[ri], now, keys)
                    && d.targets@ == crate::resolver::spec_reminder_targets(
                    subs[si],
                    subs[si].reminders@[ri],
                );
            assert(due_key(d) =~= lead_key(
                snap[li],
                subs[si].spec_id(),
                subs[si].reminders@[ri].minutes,
            ));
        },
        NotifClass::Scrub => {
            let (li, si) = choose|li: int, si: int|
                #![trigger snap[li], subs[si]]
                0 <= li < snap.len() && 0 <= si < subs.len() && d.launch@ == snap[li].ll_id@
                    && d.subscriber == subs[si].spec_id() && d.bucket == snap[li].status as i64
                    && scrub_due(
                    snap[li],
                    subs[si],
                    spec_status_of(prevs, snap[li].ll_id@),
                    keys,
                ) && d.targets@ == crate::resolver::spec_status_targets(subs[si]);
            assert(due_key(d) =~= status_key(snap[li], subs[si].spec_id(), NotifClass::Scrub));
        },
        NotifClass::Outcome => {
            let (li, si) = choose|li: int, si: int|
                #![trigger snap[li], subs[si]]
                0 <= li < snap.len() && 0 <= si < subs.len() && d.launch@ == snap[li].ll_id@
                    && d.subscriber == subs[si].spec_id() && d.bucket == snap[li].status as i64
                    && outcome_due(
                    snap[li],
                    subs[si],
                    spec_status_of(prevs, snap[li].ll_id@),
                    keys,
                ) && d.targets@ == crate::resolver::spec_status_targets(subs[si]);
            assert(due_key(d) =~= status_key(snap[li], subs[si].spec_id(), NotifClass::Outcome));
        },
    }
}

/// Once-only emission: a dedup key emitted by one tick is never emitted by
/// the following tick while its launch stays in the snapshot — however the
/// clock advanced, and even on an identical snapshot.
pub proof fn lemma_emitted_once(
    s0: SchedulerState,
    s1: SchedulerState,
    s2: SchedulerState,
    snap: Seq<LaunchData>,
    subs: Seq<Subscriber>,
    now1: int,
    now2: int,
    out1: Seq<DueReminder>,
    out2: Seq<DueReminder>,
    k: KeyV,
)
    requires
        tick_rel(s0, snap, subs, now1, out1, s1),
        tick_rel(s1, snap, subs, now2, out2, s2),
        out_has(out1, k),
    ensures
        !out_has(out2, k),
        key_in(s1.emitted@, k),
{
    let _mention_pre = key_in(s0.emitted@, k);
    let w = choose|w: int| 0 <= w < out1.len() && due_key(#[trigger] out1[w]) == k;
    lemma_justified_key_fresh(out1[w], snap, subs, now1, s0.statuses@, s0.emitted@);
    assert(key_in(s1.emitted@, k));
    if out_has(out2, k) {
        let w2 = choose|w2: int| 0 <= w2 < out2.len() && due_key(#[trigger] out2[w2]) == k;
        lemma_justified_key_fresh(out2[w2], snap, subs, now2, s1.statuses@, s1.emitted@);
        assert(false);
    }
}

/// Persistence: while its launch stays in the snapshot, an emitted dedup key
/// survives every further tick, and no such tick emits it again. Chained over
/// ticks, a key emitted once is never emitted again for the lifetime of the
/// launch record.
pub proof fn lemma_key_persists(
    s1: SchedulerState,
    s2: SchedulerState,
    snap: Seq<LaunchData>,
    subs: Seq<Subscriber>,
    now: int,
    out: Seq<DueReminder>,
    k: KeyV,
)
    requires
        tick_rel(s1, snap, subs, now, out, s2),
        key_in(s1.emitted@, k),
        id_in_snap(snap, k.launch),
    ensures
        key_in(s2.emitted@, k),
        !out_has(out, k),
{
    if out_has(out, k) {
        let w = choose|w: int| 0 <= w < out.len() && due_key(#[trigger] out[w]) == k;
        lemma_justified_key_fresh(out[w], snap, subs, now, s1.statuses@, s1.emitted@);
        assert(false);
    }
}

/// Eviction: after a tick whose snapshot does not contain a launch id, no
/// dedup key for that launch id remains in the scheduler's bookkeeping.
pub proof fn lemma_eviction(
    s0: SchedulerState,
    s1: SchedulerState,
    snap: Seq<LaunchData>,
    subs: Seq<Subscriber>,
    now: int,
    out: Seq<DueReminder>,
    k: KeyV,
)
    requires
        tick_rel(s0, snap, subs, now, out, s1),
        !id_in_snap(snap, k.launch),
    ensures
        !key_in(s1.emitted@, k),
{
    let _mention_pre = key_in(s0.emitted@, k);
    if key_in(s1.emitted@, k) {
        if out_has(out, k) {
            let w = choose|w: int| 0 <= w < out.len() && due_key(#[trigger] out[w]) == k;
            lemma_justified_key_fresh(out[w], snap, subs, now, s0.statuses@, s0.emitted@);
        }
        assert(false);
    }
}

/// Re-arming: a launch id that was evicted is treated as new. If its key is
/// absent from the bookkeeping and the reminder-window condition holds on a
/// later tick, the reminder fires again.
pub proof fn lemma_rearmed_launch_fires(
    s1: SchedulerState,
    s2: SchedulerState,
    snap: Seq<LaunchData>,
    subs: Seq<Subscriber>,
    now: int,
    out: Seq<DueReminder>,
    li: int,
    si: int,
    ri: int,
)
    requires
        tick_rel(s1, snap, subs, now, out, s2),
        0 <= li < snap.len(),
        0 <= si < subs.len(),
        0 <= ri < subs[si].reminders@.len(),
        !key_in(
            s1.emitted@,
            lead_key(snap[li], subs[si].spec_id(), subs[si].reminders@[ri].minutes),
        ),
        snap[li].net > now,
        snap[li].net - now <= subs[si].reminders@[ri].minutes * SECONDS_PER_MINUTE as int,
        !filters_match(subs[si].spec_filters(), snap[li]),
    ensures
        out_has(out, lead_key(snap[li], subs[si].spec_id(), subs[si].reminders@[ri].minutes)),
{
    assert(lead_due(snap[li], subs[si], subs[si].reminders@[ri], now, s1.emitted@));
}

/// Filter exclusion: a subscriber whose filter list matches a launch —
/// case-insensitively, against vehicle, provider, or mission type — receives
/// no instruction at all for that launch, of any class.
pub proof fn lemma_filtered_subscriber_excluded(
    s0: SchedulerState,
    s1: SchedulerState,
    snap: Seq<LaunchData>,
    subs: Seq<Subscriber>,
    now: int,
    out: Seq<DueReminder>,
    li: int,
    si: int,
)
    requires
        tick_rel(s0, snap, subs, now, out, s1),
        distinct_ids(snap),
        subscribers_wf(subs),
        0 <= li < snap.len(),
        0 <= si < subs.len(),
        filters_match(subs[si].spec_filters(), snap[li]),
    ensures
        forall|di: int|
            0 <= di < out.len() ==> !((#[trigger] out[di]).launch@ == snap[li].ll_id@
                && out[di].subscriber == subs[si].spec_id()),
{
    assert forall|di: int|
        0 <= di < out.len() implies !((#[trigger] out[di]).launch@ == snap[li].ll_id@
        && out[di].subscriber == subs[si].spec_id()) by {
        let d = out[di];
        if d.launch@ == snap[li].ll_id@ && d.subscriber == subs[si].spec_id() {
            match d.class {
                NotifClass::Lead => {
                    let (li2, si2, ri2) = choose|li2: int, si2: int, ri2: int|
                        #![trigger snap[li2], subs[si2].reminders@[ri2]]
                        0 <= li2 < snap.len() && 0 <= si2 < subs.len() && 0 <= ri2
                            < subs[si2].reminders@.len() && d.launch@ == snap[li2].ll_id@
                            && d.subscriber == subs[si2].spec_id() && d.bucket
                            == subs[si2].reminders@[ri2].minutes && lead_due(
                            snap[li2],
                            subs[si2],
                            subs[si2].reminders@[ri2],
                            now,
                            s0.emitted@,
                        ) && d.targets@ == crate::resolver::spec_reminder_targets(
                            subs[si2],
                            subs[si2].reminders@[ri2],
                        );
                    assert(li2 == li && si2 == si);
                    assert(false);
                },
                NotifClass::Scrub => {
                    let (li2, si2) = choose|li2: int, si2: int|
                        #![trigger snap[li2], subs[si2]]
                        0 <= li2 < snap.len() && 0 <= si2 < subs.len() && d.launch@
                            == snap[li2].ll_id@ && d.subscriber == subs[si2].spec_id() && d.bucket
                            == snap[li2].status as i64 && scrub_due(
                            snap[li2],
                            subs[si2],
                            spec_status_of(s0.statuses@, snap[li2].ll_id@),
                            s0.emitted@,
                        ) && d.targets@ == crate::resolver::spec_status_targets(subs[si2]);
                    assert(li2 == li && si2 == si);
                    assert(false);
                },
                NotifClass::Outcome => {
                    let (li2, si2) = choose|li2: int, si2: int|
                        #![trigger snap[li2], subs[si2]]
                        0 <= li2 < snap.len() && 0 <= si2 < subs.len() && d.launch@
                            == snap[li2].ll_id@ && d.subscriber == subs[si2].spec_id() && d.bucket
                            == snap[li2].status as i64 && outcome_due(
                            snap[li2],
                            subs[si2],
                            spec_status_of(s0.statuses@, snap[li2].ll_id@),
                            s0.emitted@,
                        ) && d.targets@ == crate::resolver::spec_status_targets(subs[si2]);
                    assert(li2 == li && si2 == si);
                    assert(false);
                },
            }
        }
    }
}

/// Toggle independence: disabling outcome notifications suppresses every
/// outcome-class instruction for the subscriber, but a still-due lead-time
/// reminder for the same launch and subscriber is emitted regardless.
pub proof fn lemma_outcome_toggle_independent(
    s0: SchedulerState,
    s1: SchedulerState,
    snap: Seq<LaunchData>,
    subs: Seq<Subscriber>,
    now: int,
    out: Seq<DueReminder>,
    li: int,
    si: int,
    ri: int,
)
    requires
        tick_rel(s0, snap, subs, now, out, s1),
        subscribers_wf(subs),
        0 <= li < snap.len(),
        0 <= si < subs.len(),
        0 <= ri < subs[si].reminders@.len(),
        !subs[si].spec_notify_outcome(),
        lead_due(snap[li], subs[si], subs[si].reminders@[ri], now, s0.emitted@),
    ensures
        out_has(out, lead_key(snap[li], subs[si].spec_id(), subs[si].reminders@[ri].minutes)),
        forall|di: int|
            0 <= di < out.len() ==> !((#[trigger] out[di]).class == NotifClass::Outcome
                && out[di].subscriber == subs[si].spec_id()),
{
    assert forall|di: int|
        0 <= di < out.len() implies !((#[trigger] out[di]).class == NotifClass::Outcome
        && out[di].subscriber == subs[si].spec_id()) by {
        let d = out[di];
        if d.class == NotifClass::Outcome && d.subscriber == subs[si].spec_id() {
            let (li2, si2) = choose|li2: int, si2: int|
                #![trigger snap[li2], subs[si2]]
                0 <= li2 < snap.len() && 0 <= si2 < subs.len() && d.launch@ == snap[li2].ll_id@
                    && d.subscriber == subs[si2].spec_id() && d.bucket == snap[li2].status as i64
                    && outcome_due(
                    snap[li2],
                    subs[si2],
                    spec_status_of(s0.statuses@, snap[li2].ll_id@),
                    s0.emitted@,
                ) && d.targets@ == crate::resolver::spec_status_targets(subs[si2]);
            assert(si2 == si);
            assert(false);
        }
    }
}

/// The scrub toggle is independent of lead-time reminders in the same way.
pub proof fn lemma_scrub_toggle_independent(
    s0: SchedulerState,
    s1: SchedulerState,
    snap: Seq<LaunchData>,
    subs: Seq<Subscriber>,
    now: int,
    out: Seq<DueReminder>,
    li: int,
    si: int,
    ri: int,
)
    requires
        tick_rel(s0, snap, subs, now, out, s1),
        subscribers_wf(subs),
        0 <= li < snap.len(),
        0 <= si < subs.len(),
        0 <= ri < subs[si].reminders@.len(),
        !subs[si].spec_notify_scrub(),
        lead_due(snap[li], subs[si], subs[si].reminders@[ri], now, s0.emitted@),
    ensures
        out_has(out, lead_key(snap[li], subs[si].spec_id(), subs[si].reminders@[ri].minutes)),
        forall|di: int|
            0 <= di < out.len() ==> !((#[trigger] out[di]).class == NotifClass::Scrub
                && out[di].subscriber == subs[si].spec_id()),
{
    assert forall|di: int|
        0 <= di < out.len() implies !((#[trigger] out[di]).class == NotifClass::Scrub
        && out[di].subscriber == subs[si].spec_id()) by {
        let d = out[di];
        if d.class == NotifClass::Scrub && d.subscriber == subs[si].spec_id() {
            let (li2, si2) = choose|li2: int, si2: int|
                #![trigger snap[li2], subs[si2]]
                0 <= li2 < snap.len() && 0 <= si2 < subs.len() && d.launch@ == snap[li2].ll_id@
                    && d.subscriber == subs[si2].spec_id() && d.bucket == snap[li2].status as i64
                    && scrub_due(
                    snap[li2],
                    subs[si2],
                    spec_status_of(s0.statuses@, snap[li2].ll_id@),
                    s0.emitted@,
                ) && d.targets@ == crate::resolver::spec_status_targets(subs[si2]);
            assert(si2 == si);
            assert(false);
        }
    }
}

} // verus!
