//! The reminder scheduler: per tick, computes which reminders are due from a
//! cache snapshot and the subscriber list, emits each one exactly once per
//! (launch, subscriber, window), tracks status changes, and evicts
//! bookkeeping for launches that left the snapshot.

use vstd::prelude::*;

use crate::launches::{
    distinct_ids, is_outcome_status, is_scrub_status, outcome_status, scrub_status, LaunchData,
};
use crate::reminders::{reminder_wf, Reminder, SECONDS_PER_MINUTE};
use crate::resolver::{
    filters_match, resolve_reminder_targets, resolve_status_targets, spec_reminder_targets,
    spec_status_targets, subscriber_filtered, Subscriber, SubscriberId, Target,
};

verus! {

/// The class of a notification: a lead-time reminder, or one of the two
/// status-change classes. The class is part of the dedup key, so the
/// status-change classes never consume the lead-time key space.
#[derive(Clone, Copy, PartialEq, Eq, Structural, Debug)]
pub enum NotifClass {
    Lead,
    Scrub,
    Outcome,
}

/// One emitted-notification dedup key, as stored.
pub struct DedupKey {
    pub launch: String,
    pub subscriber: SubscriberId,
    pub class: NotifClass,
    pub bucket: i64,
}

/// The mathematical value of a dedup key: launch id, subscriber, class, and
/// bucket (the rule's minutes for lead reminders, the new status code for
/// status changes).
#[verifier::ext_equal]
pub struct KeyV {
    pub launch: Seq<char>,
    pub subscriber: SubscriberId,
    pub class: NotifClass,
    pub bucket: int,
}

/// The key value of a stored key.
pub open spec fn key_view(k: DedupKey) -> KeyV {
    KeyV { launch: k.launch@, subscriber: k.subscriber, class: k.class, bucket: k.bucket as int }
}

/// The last observed status of one launch.
pub struct LaunchStatus {
    pub ll_id: String,
    pub status: u32,
}

/// One dispatch instruction: deliver a notification of `class` for `launch`
/// to `sub` at `targets`. `bucket` is the rule's minutes for lead reminders
/// and the new status code for status changes.
pub struct DueReminder {
    pub launch: String,
    pub subscriber: SubscriberId,
    pub class: NotifClass,
    pub bucket: i64,
    pub targets: Vec<Target>,
}

/// The dedup-key value of a dispatch instruction.
pub open spec fn due_key(d: DueReminder) -> KeyV {
    KeyV { launch: d.launch@, subscriber: d.subscriber, class: d.class, bucket: d.bucket as int }
}

/// Key `k` is among the stored keys.
pub open spec fn key_in(keys: Seq<DedupKey>, k: KeyV) -> bool {
    exists|i: int| 0 <= i < keys.len() && key_view(#[trigger] keys[i]) == k
}

/// Some instruction in `out` carries key `k`.
pub open spec fn out_has(out: Seq<DueReminder>, k: KeyV) -> bool {
    exists|i: int| 0 <= i < out.len() && due_key(#[trigger] out[i]) == k
}

/// Launch id `id` occurs in the snapshot.
pub open spec fn id_in_snap(snap: Seq<LaunchData>, id: Seq<char>) -> bool {
    exists|i: int| 0 <= i < snap.len() && (#[trigger] snap[i]).ll_id@ == id
}

/// All stored keys have distinct values.
pub open spec fn keys_distinct(keys: Seq<DedupKey>) -> bool {
    forall|i: int, j: int|
        0 <= i < j < keys.len() ==> key_view(#[trigger] keys[i]) != key_view(#[trigger] keys[j])
}

/// All status records are for distinct launches.
pub open spec fn statuses_distinct(s: Seq<LaunchStatus>) -> bool {
    forall|i: int, j: int|
        0 <= i < j < s.len() ==> (#[trigger] s[i]).ll_id@ != (#[trigger] s[j]).ll_id@
}

/// The status stored for launch `id`, if any.
pub open spec fn spec_status_of(s: Seq<LaunchStatus>, id: Seq<char>) -> Option<u32> {
    if exists|i: int| 0 <= i < s.len() && (#[trigger] s[i]).ll_id@ == id {
        Some(s[choose|i: int| 0 <= i < s.len() && (#[trigger] s[i]).ll_id@ == id].status)
    } else {
        None
    }
}

/// Whether a remembered status differs from the current one. A launch with
/// no remembered status has not changed — it is new.
pub open spec fn status_changed(prev: Option<u32>, cur: u32) -> bool {
    match prev {
        Some(p) => p != cur,
        None => false,
    }
}

/// The scheduler's per-instance bookkeeping: the dedup keys already emitted
/// and the statuses observed on the previous tick.
pub struct SchedulerState {
    pub emitted: Vec<DedupKey>,
    pub statuses: Vec<LaunchStatus>,
}

impl SchedulerState {
    /// State invariant: keys and status records are free of duplicates.
    pub open spec fn wf(&self) -> bool {
        &&& keys_distinct(self.emitted@)
        &&& statuses_distinct(self.statuses@)
    }

    /// A fresh scheduler: nothing emitted, no status observed.
    pub fn new() -> (s: Self)
        ensures
            s.wf(),
            s.emitted@.len() == 0,
            s.statuses@.len() == 0,
    {
        SchedulerState { emitted: Vec::new(), statuses: Vec::new() }
    }
}

/// The dedup key of a lead-time reminder.
pub open spec fn lead_key(l: LaunchData, subscriber: SubscriberId, minutes: i64) -> KeyV {
    KeyV { launch: l.ll_id@, subscriber, class: NotifClass::Lead, bucket: minutes as int }
}

/// The dedup key of a status-change notification of class `class`.
pub open spec fn status_key(l: LaunchData, subscriber: SubscriberId, class: NotifClass) -> KeyV {
    KeyV { launch: l.ll_id@, subscriber, class, bucket: l.status as int }
}

/// A lead-time reminder for (launch, subscriber, rule) is due: the launch is
/// in the future, the remaining time has crossed below the rule's lead time,
/// the subscriber's filters do not exclude the launch, and the key has not
/// been emitted.
pub open spec fn lead_due(
    l: LaunchData,
    s: Subscriber,
    r: Reminder,
    now: int,
    keys: Seq<DedupKey>,
) -> bool {
    &&& l.net > now
    &&& l.net - now <= r.minutes * SECONDS_PER_MINUTE as int
    &&& !filters_match(s.spec_filters(), l)
    &&& !key_in(keys, lead_key(l, s.spec_id(), r.minutes))
}

/// A scrub status-change notification is due: the status changed since the
/// previous tick to a delay/scrub status, the subscriber opted in, is not
/// excluded by filters, and the key has not been emitted.
pub open spec fn scrub_due(
    l: LaunchData,
    s: Subscriber,
    prev: Option<u32>,
    keys: Seq<DedupKey>,
) -> bool {
    &&& status_changed(prev, l.status)
    &&& is_scrub_status(l.status)
    &&& s.spec_notify_scrub()
    &&& !filters_match(s.spec_filters(), l)
    &&& !key_in(keys, status_key(l, s.spec_id(), NotifClass::Scrub))
}

/// An outcome status-change notification is due, analogously.
pub open spec fn outcome_due(
    l: LaunchData,
    s: Subscriber,
    prev: Option<u32>,
    keys: Seq<DedupKey>,
) -> bool {
    &&& status_changed(prev, l.status)
    &&& is_outcome_status(l.status)
    &&& s.spec_notify_outcome()
    &&& !filters_match(s.spec_filters(), l)
    &&& !key_in(keys, status_key(l, s.spec_id(), NotifClass::Outcome))
}

/// Every reminder rule is well formed and no two rules of one subscriber
/// share a lead time; no two subscribers share an identity. This is the shape
/// the settings store delivers: one settings document per guild or user, one
/// rule per lead time.
pub open spec fn subscriber_wf(s: Subscriber) -> bool {
    &&& forall|i: int| 0 <= i < s.reminders@.len() ==> reminder_wf(#[trigger] s.reminders@[i])
    &&& forall|i: int, j: int|
        0 <= i < j < s.reminders@.len() ==> (#[trigger] s.reminders@[i]).minutes != (
        #[trigger] s.reminders@[j]).minutes
}

/// See [`subscriber_wf`].
pub open spec fn subscribers_wf(subs: Seq<Subscriber>) -> bool {
    &&& forall|i: int| 0 <= i < subs.len() ==> subscriber_wf(#[trigger] subs[i])
    &&& forall|i: int, j: int|
        0 <= i < j < subs.len() ==> (#[trigger] subs[i]).spec_id() != (
        #[trigger] subs[j]).spec_id()
}

/// A lead-class instruction is justified: some (launch, subscriber, rule)
/// triple was due for exactly this key, and the targets are that rule's.
pub open spec fn lead_entry_justified(
    d: DueReminder,
    snap: Seq<LaunchData>,
    subs: Seq<Subscriber>,
    now: int,
    keys: Seq<DedupKey>,
) -> bool {
    exists|li: int, si: int, ri: int|
        #![trigger snap[li], subs[si].reminders@[ri]]
        0 <= li < snap.len() && 0 <= si < subs.len() && 0 <= ri < subs[si].reminders@.len()
            && d.launch@ == snap[li].ll_id@ && d.subscriber == subs[si].spec_id() && d.bucket
            == subs[si].reminders@[ri].minutes && lead_due(
            snap[li],
            subs[si],
            subs[si].reminders@[ri],
            now,
            keys,
        ) && d.targets@ == spec_reminder_targets(subs[si], subs[si].reminders@[ri])
}

/// A scrub-class instruction is justified analogously.
pub open spec fn scrub_entry_justified(
    d: DueReminder,
    snap: Seq<LaunchData>,
    subs: Seq<Subscriber>,
    prev: Seq<LaunchStatus>,
    keys: Seq<DedupKey>,
) -> bool {
    exists|li: int, si: int|
        #![trigger snap[li], subs[si]]
        0 <= li < snap.len() && 0 <= si < subs.len() && d.launch@ == snap[li].ll_id@ && d.subscriber
            == subs[si].spec_id() && d.bucket == snap[li].status as i64 && scrub_due(
            snap[li],
            subs[si],
            spec_status_of(prev, snap[li].ll_id@),
            keys,
        ) && d.targets@ == spec_status_targets(subs[si])
}

/// An outcome-class instruction is justified analogously.
pub open spec fn outcome_entry_justified(
    d: DueReminder,
    snap: Seq<LaunchData>,
    subs: Seq<Subscriber>,
    prev: Seq<LaunchStatus>,
    keys: Seq<DedupKey>,
) -> bool {
    exists|li: int, si: int|
        #![trigger snap[li], subs[si]]
        0 <= li < snap.len() && 0 <= si < subs.len() && d.launch@ == snap[li].ll_id@ && d.subscriber
            == subs[si].spec_id() && d.bucket == snap[li].status as i64 && outcome_due(
            snap[li],
            subs[si],
            spec_status_of(prev, snap[li].ll_id@),
            keys,
        ) && d.targets@ == spec_status_targets(subs[si])
}

/// Soundness: every emitted instruction is justified by a due (launch,
/// subscriber[, rule]) against the pre-tick keys.
pub open spec fn out_sound(
    snap: Seq<LaunchData>,
    subs: Seq<Subscriber>,
    now: int,
    prev: Seq<LaunchStatus>,
    keys: Seq<DedupKey>,
    out: Seq<DueReminder>,
) -> bool {
    forall|di: int|
        0 <= di < out.len() ==> match (#[trigger] out[di]).class {
            NotifClass::Lead => lead_entry_justified(out[di], snap, subs, now, keys),
            NotifClass::Scrub => scrub_entry_justified(out[di], snap, subs, prev, keys),
            NotifClass::Outcome => outcome_entry_justified(out[di], snap, subs, prev, keys),
        }
}

/// Completeness: everything due is emitted.
pub open spec fn out_complete(
    snap: Seq<LaunchData>,
    subs: Seq<Subscriber>,
    now: int,
    prev: Seq<LaunchStatus>,
    keys: Seq<DedupKey>,
    out: Seq<DueReminder>,
) -> bool {
    &&& forall|li: int, si: int, ri: int|
        #![trigger snap[li], subs[si].reminders@[ri]]
        0 <= li < snap.len() && 0 <= si < subs.len() && 0 <= ri < subs[si].reminders@.len()
            && lead_due(snap[li], subs[si], subs[si].reminders@[ri], now, keys) ==> out_has(
            out,
            lead_key(snap[li], subs[si].spec_id(), subs[si].reminders@[ri].minutes),
        )
    &&& forall|li: int, si: int|
        #![trigger snap[li], subs[si]]
        0 <= li < snap.len() && 0 <= si < subs.len() && scrub_due(
            snap[li],
            subs[si],
            spec_status_of(prev, snap[li].ll_id@),
            keys,
        ) ==> out_has(out, status_key(snap[li], subs[si].spec_id(), NotifClass::Scrub))
    &&& forall|li: int, si: int|
        #![trigger snap[li], subs[si]]
        0 <= li < snap.len() && 0 <= si < subs.len() && outcome_due(
            snap[li],
            subs[si],
            spec_status_of(prev, snap[li].ll_id@),
            keys,
        ) ==> out_has(out, status_key(snap[li], subs[si].spec_id(), NotifClass::Outcome))
}

/// No two emitted instructions share a dedup key.
pub open spec fn out_distinct(out: Seq<DueReminder>) -> bool {
    forall|i: int, j: int|
        0 <= i < j < out.len() ==> due_key(#[trigger] out[i]) != due_key(#[trigger] out[j])
}

/// The whole behaviour of one scheduler tick, relating the pre-tick state,
/// the inputs, the emitted instructions, and the post-tick state.
pub open spec fn tick_rel(
    pre: SchedulerState,
    snap: Seq<LaunchData>,
    subs: Seq<Subscriber>,
    now: int,
    out: Seq<DueReminder>,
    post: SchedulerState,
) -> bool {
    &&& out_sound(snap, subs, now, pre.statuses@, pre.emitted@, out)
    &&& out_complete(snap, subs, now, pre.statuses@, pre.emitted@, out)
    &&& out_distinct(out)
    &&& forall|k: KeyV|
        key_in(post.emitted@, k) <==> ((#[trigger] key_in(pre.emitted@, k) && id_in_snap(
            snap,
            k.launch,
        )) || out_has(out, k))
    &&& post.statuses@.len() == snap.len()
    &&& forall|i: int|
        0 <= i < snap.len() ==> (#[trigger] post.statuses@[i]).ll_id@ == snap[i].ll_id@
            && post.statuses@[i].status == snap[i].status
}

/// Linear search for a dedup key.
fn key_emitted(
    keys: &Vec<DedupKey>,
    launch: &String,
    subscriber: SubscriberId,
    class: NotifClass,
    bucket: i64,
) -> (r: bool)
    ensures
        r == key_in(keys@, KeyV { launch: launch@, subscriber, class, bucket: bucket as int }),
{
    let ghost target = KeyV { launch: launch@, subscriber, class, bucket: bucket as int };
    let mut i: usize = 0;
    while i < keys.len()
        invariant
            0 <= i <= keys@.len(),
            target == (KeyV { launch: launch@, subscriber, class, bucket: bucket as int }),
            forall|t: int| 0 <= t < i ==> key_view(#[trigger] keys@[t]) != target,
        decreases keys@.len() - i,
    {
        let k = &keys[i];
        if k.launch == *launch && k.subscriber == subscriber && k.class == class && k.bucket
            == bucket {
            assert(key_view(keys@[i as int]) =~= target);
            return true;
        }
        i += 1;
    }
    false
}

/// Linear search for a remembered launch status.
fn lookup_status(sts: &Vec<LaunchStatus>, id: &String) -> (r: Option<u32>)
    requires
        statuses_distinct(sts@),
    ensures
        r == spec_status_of(sts@, id@),
{
    let mut i: usize = 0;
    while i < sts.len()
        invariant
            0 <= i <= sts@.len(),
            statuses_distinct(sts@),
            forall|t: int| 0 <= t < i ==> (#[trigger] sts@[t]).ll_id@ != id@,
        decreases sts@.len() - i,
    {
        if sts[i].ll_id == *id {
            proof {
                let w = choose|t: int| 0 <= t < sts@.len() && (#[trigger] sts@[t]).ll_id@ == id@;
                assert(sts@[i as int].ll_id@ == id@);
                if w != i {
                    assert(false);
                }
            }
            return Some(sts[i].status);
        }
        i += 1;
    }
    None
}

/// Linear search for a launch id in a snapshot.
fn id_present(snap: &Vec<LaunchData>, id: &String) -> (r: bool)
    ensures
        r == id_in_snap(snap@, id@),
{
    let mut i: usize = 0;
    while i < snap.len()
        invariant
            0 <= i <= snap@.len(),
            forall|t: int| 0 <= t < i ==> (#[trigger] snap@[t]).ll_id@ != id@,
        decreases snap@.len() - i,
    {
        if snap[i].ll_id == *id {
            return true;
        }
        i += 1;
    }
    false
}

impl Clone for DedupKey {
    fn clone(&self) -> (r: Self)
        ensures
            r == *self,
    {
        DedupKey {
            launch: self.launch.clone(),
            subscriber: self.subscriber,
            class: self.class,
            bucket: self.bucket,
        }
    }
}

/// Drops every key whose launch id is absent from the snapshot.
fn evict_absent(keys: &mut Vec<DedupKey>, snap: &Vec<LaunchData>)
    requires
        keys_distinct(old(keys)@),
    ensures
        keys_distinct(final(keys)@),
        forall|k: KeyV|
            #[trigger] key_in(final(keys)@, k) <==> (key_in(old(keys)@, k) && id_in_snap(
                snap@,
                k.launch,
            )),
{
    let ghost pre = keys@;
    let mut kept: Vec<DedupKey> = Vec::new();
    let mut i: usize = 0;
    while i < keys.len()
        invariant
            0 <= i <= keys@.len(),
            keys@ == pre,
            keys_distinct(pre),
            forall|j: int|
                0 <= j < kept@.len() ==> exists|t: int|
                    0 <= t < i && key_view(#[trigger] kept@[j]) == key_view(pre[t]) && id_in_snap(
                        snap@,
                        key_view(pre[t]).launch,
                    ),
            forall|t: int|
                0 <= t < i && id_in_snap(snap@, key_view(#[trigger] pre[t]).launch) ==> key_in(
                    kept@,
                    key_view(pre[t]),
                ),
            keys_distinct(kept@),
        decreases keys@.len() - i,
    {
        let ghost prev_kept = kept@;
        let keep = id_present(snap, &keys[i].launch);
        if keep {
            kept.push(keys[i].clone());
            proof {
                assert(key_view(kept@[kept@.len() - 1]) == key_view(pre[i as int]));
                assert forall|j: int, j2: int| 0 <= j < j2 < kept@.len() implies key_view(
                    #[trigger] kept@[j],
                ) != key_view(#[trigger] kept@[j2]) by {
                    if j2 == kept@.len() - 1 {
                        let t = choose|t: int|
                            0 <= t < i && key_view(prev_kept[j]) == key_view(#[trigger] pre[t])
                                && id_in_snap(snap@, key_view(pre[t]).launch);
                        assert(key_view(pre[t]) != key_view(pre[i as int]));
                    }
                }
            }
        }
        proof {
            assert forall|t: int|
                0 <= t <= i && id_in_snap(snap@, key_view(#[trigger] pre[t]).launch) implies key_in(
                kept@,
                key_view(pre[t]),
            ) by {
                if t < i {
                    let j = choose|j: int|
                        0 <= j < prev_kept.len() && key_view(#[trigger] prev_kept[j]) == key_view(
                            pre[t],
                        );
                    assert(key_view(kept@[j]) == key_view(pre[t]));
                } else {
                    assert(key_view(kept@[kept@.len() - 1]) == key_view(pre[t]));
                }
            }
        }
        i += 1;
    }
    proof {
        assert forall|k: KeyV| #[trigger] key_in(kept@, k) implies (key_in(pre, k) && id_in_snap(
            snap@,
            k.launch,
        )) by {
            let j = choose|j: int| 0 <= j < kept@.len() && key_view(#[trigger] kept@[j]) == k;
            let t = choose|t: int|
                0 <= t < pre.len() && key_view(kept@[j]) == key_view(#[trigger] pre[t])
                    && id_in_snap(snap@, key_view(pre[t]).launch);
            assert(key_in(pre, k));
        }
        assert forall|k: KeyV| key_in(pre, k) && id_in_snap(snap@, k.launch) implies #[trigger] key_in(
            kept@,
            k,
        ) by {
            let t = choose|t: int| 0 <= t < pre.len() && key_view(#[trigger] pre[t]) == k;
            assert(key_in(kept@, key_view(pre[t])));
        }
    }
    *keys = kept;
}

/// The fresh status table of a snapshot.
fn rebuild_statuses(snap: &Vec<LaunchData>) -> (v: Vec<LaunchStatus>)
    requires
        distinct_ids(snap@),
    ensures
        v@.len() == snap@.len(),
        forall|i: int|
            0 <= i < snap@.len() ==> (#[trigger] v@[i]).ll_id@ == snap@[i].ll_id@ && v@[i].status
                == snap@[i].status,
        statuses_distinct(v@),
{
    let mut v: Vec<LaunchStatus> = Vec::new();
    let mut i: usize = 0;
    while i < snap.len()
        invariant
            0 <= i <= snap@.len(),
            distinct_ids(snap@),
            v@.len() == i,
            forall|t: int|
                0 <= t < i ==> (#[trigger] v@[t]).ll_id@ == snap@[t].ll_id@ && v@[t].status
                    == snap@[t].status,
        decreases snap@.len() - i,
    {
        v.push(LaunchStatus { ll_id: snap[i].ll_id.clone(), status: snap[i].status });
        i += 1;
    }
    v
}


/// One instruction is correct for (launch, subscriber): its key fields name
/// them, its class's due condition held against `keys`, and its targets are
/// the resolved ones.
pub open spec fn entry_for_sub(
    d: DueReminder,
    l: LaunchData,
    s: Subscriber,
    now: int,
    prev: Option<u32>,
    keys: Seq<DedupKey>,
) -> bool {
    &&& d.launch@ == l.ll_id@
    &&& d.subscriber == s.spec_id()
    &&& match d.class {
        NotifClass::Lead => exists|ri: int|
            0 <= ri < s.reminders@.len() && d.bucket == (#[trigger] s.reminders@[ri]).minutes
                && lead_due(l, s, s.reminders@[ri], now, keys) && d.targets@
                == spec_reminder_targets(s, s.reminders@[ri]),
        NotifClass::Scrub => d.bucket == l.status as i64 && scrub_due(l, s, prev, keys)
            && d.targets@ == spec_status_targets(s),
        NotifClass::Outcome => d.bucket == l.status as i64 && outcome_due(l, s, prev, keys)
            && d.targets@ == spec_status_targets(s),
    }
}

/// Everything due for (launch, subscriber) has its key in `out`.
pub open spec fn sub_complete(
    out: Seq<DueReminder>,
    l: LaunchData,
    s: Subscriber,
    now: int,
    prev: Option<u32>,
    keys: Seq<DedupKey>,
) -> bool {
    &&& forall|ri: int|
        0 <= ri < s.reminders@.len() && lead_due(l, s, #[trigger] s.reminders@[ri], now, keys)
            ==> out_has(out, lead_key(l, s.spec_id(), s.reminders@[ri].minutes))
    &&& (scrub_due(l, s, prev, keys) ==> out_has(
        out,
        status_key(l, s.spec_id(), NotifClass::Scrub),
    ))
    &&& (outcome_due(l, s, prev, keys) ==> out_has(
        out,
        status_key(l, s.spec_id(), NotifClass::Outcome),
    ))
}

/// Evaluates one launch against one subscriber: appends every due lead-time
/// reminder and due status-change notification, checking dedup keys against
/// `keys`. `prev` is the status remembered for the launch from the last tick.
fn eval_subscriber(
    l: &LaunchData,
    s: &Subscriber,
    now: i64,
    keys: &Vec<DedupKey>,
    prev: Option<u32>,
    out: &mut Vec<DueReminder>,
)
    requires
        subscriber_wf(*s),
        now >= 0,
    ensures
        old(out)@.len() <= final(out)@.len(),
        forall|t: int| 0 <= t < old(out)@.len() ==> #[trigger] final(out)@[t] == old(out)@[t],
        forall|di: int|
            old(out)@.len() <= di < final(out)@.len() ==> entry_for_sub(
                #[trigger] final(out)@[di],
                *l,
                *s,
                now as int,
                prev,
                keys@,
            ),
        sub_complete(final(out)@, *l, *s, now as int, prev, keys@),
        forall|i: int, j: int|
            old(out)@.len() <= i < j < final(out)@.len() ==> due_key(#[trigger] final(out)@[i])
                != due_key(#[trigger] final(out)@[j]),
{
    let ghost base = out@;
    let filtered = subscriber_filtered(s, l);
    let subscriber = s.id();
    let future = l.net > now;
    let mut ri: usize = 0;
    while ri < s.reminders.len()
        invariant
            subscriber_wf(*s),
            now >= 0,
            subscriber == s.spec_id(),
            filtered == filters_match(s.spec_filters(), *l),
            future == (l.net > now),
            0 <= ri <= s.reminders@.len(),
            base.len() <= out@.len(),
            forall|t: int| 0 <= t < base.len() ==> #[trigger] out@[t] == base[t],
            forall|di: int|
                base.len() <= di < out@.len() ==> (#[trigger] out@[di]).class == NotifClass::Lead
                    && entry_for_sub(out@[di], *l, *s, now as int, prev, keys@),
            forall|di: int|
                base.len() <= di < out@.len() ==> exists|r2: int|
                    0 <= r2 < ri && (#[trigger] out@[di]).bucket == (
                    #[trigger] s.reminders@[r2]).minutes,
            forall|r2: int|
                0 <= r2 < ri && lead_due(*l, *s, #[trigger] s.reminders@[r2], now as int, keys@)
                    ==> out_has(out@, lead_key(*l, s.spec_id(), s.reminders@[r2].minutes)),
            forall|i: int, j: int|
                base.len() <= i < j < out@.len() ==> due_key(#[trigger] out@[i]) != due_key(
                    #[trigger] out@[j],
                ),
        decreases s.reminders@.len() - ri,
    {
        let r = &s.reminders[ri];
        let ghost prev_out = out@;
        proof {
            assert(lead_key(*l, s.spec_id(), r.minutes) =~= (KeyV {
                launch: l.ll_id@,
                subscriber,
                class: NotifClass::Lead,
                bucket: r.minutes as int,
            }));
        }
        let mut emitted_here: bool = false;
        if future && !filtered {
            let lead_secs = r.get_duration();
            if l.net - now <= lead_secs {
                if !key_emitted(keys, &l.ll_id, subscriber, NotifClass::Lead, r.minutes) {
                    proof {
                        assert(lead_due(*l, *s, s.reminders@[ri as int], now as int, keys@));
                    }
                    let targets = resolve_reminder_targets(s, r);
                    out.push(
                        DueReminder {
                            launch: l.ll_id.clone(),
                            subscriber,
                            class: NotifClass::Lead,
                            bucket: r.minutes,
                            targets,
                        },
                    );
                    emitted_here = true;
                    proof {
                        let d = out@[out@.len() - 1];
                        assert(entry_for_sub(d, *l, *s, now as int, prev, keys@)) by {
                            assert(0 <= ri < s.reminders@.len() && d.bucket == (
                            s.reminders@[ri as int]).minutes && lead_due(
                                *l,
                                *s,
                                s.reminders@[ri as int],
                                now as int,
                                keys@,
                            ) && d.targets@ == spec_reminder_targets(
                                *s,
                                s.reminders@[ri as int],
                            ));
                        }
                        assert forall|di: int|
                            base.len() <= di < out@.len() implies exists|r2: int|
                            0 <= r2 < ri + 1 && (#[trigger] out@[di]).bucket == (
                            #[trigger] s.reminders@[r2]).minutes by {
                            if di == out@.len() - 1 {
                                assert(out@[di].bucket == s.reminders@[ri as int].minutes);
                            } else {
                                let r2 = choose|r2: int|
                                    0 <= r2 < ri && (#[trigger] prev_out[di]).bucket == (
                                    #[trigger] s.reminders@[r2]).minutes;
                                assert(out@[di].bucket == s.reminders@[r2].minutes);
                            }
                        }
                        assert forall|i: int, j: int|
                            base.len() <= i < j < out@.len() implies due_key(#[trigger] out@[i])
                            != due_key(#[trigger] out@[j]) by {
                            if j == out@.len() - 1 {
                                let e = out@[i];
                                assert(e.class == NotifClass::Lead);
                                let r2 = choose|r2: int|
                                    0 <= r2 < ri && e.bucket == (
                                    #[trigger] s.reminders@[r2]).minutes;
                                assert(s.reminders@[r2].minutes != (
                                s.reminders@[ri as int]).minutes);
                            }
                        }
                    }
                }
            }
        }
        proof {
            if lead_due(*l, *s, s.reminders@[ri as int], now as int, keys@) {
                assert(emitted_here);
                let d = out@[out@.len() - 1];
                assert(due_key(d) =~= lead_key(*l, s.spec_id(), s.reminders@[ri as int].minutes));
            }
            assert forall|r2: int|
                0 <= r2 < ri + 1 && lead_due(
                    *l,
                    *s,
                    #[trigger] s.reminders@[r2],
                    now as int,
                    keys@,
                ) implies out_has(out@, lead_key(*l, s.spec_id(), s.reminders@[r2].minutes)) by {
                if r2 < ri {
                    let w = choose|w: int|
                        0 <= w < prev_out.len() && due_key(#[trigger] prev_out[w]) == lead_key(
                            *l,
                            s.spec_id(),
                            s.reminders@[r2].minutes,
                        );
                    assert(due_key(out@[w]) == lead_key(*l, s.spec_id(), s.reminders@[r2].minutes));
                }
            }
        }
        ri += 1;
    }
    let ghost after_leads = out@;
    let changed = match prev {
        Some(p) => p != l.status,
        None => false,
    };
    let ghost mut scrub_at: int = -1;
    let ghost mut outcome_at: int = -1;
    if changed && !filtered {
        if scrub_status(l.status) && s.wants_scrub() {
            proof {
                assert(status_key(*l, s.spec_id(), NotifClass::Scrub) =~= (KeyV {
                    launch: l.ll_id@,
                    subscriber,
                    class: NotifClass::Scrub,
                    bucket: l.status as int,
                }));
            }
            if !key_emitted(keys, &l.ll_id, subscriber, NotifClass::Scrub, l.status as i64) {
                let targets = resolve_status_targets(s);
                out.push(
                    DueReminder {
                        launch: l.ll_id.clone(),
                        subscriber,
                        class: NotifClass::Scrub,
                        bucket: l.status as i64,
                        targets,
                    },
                );
                proof {
                    scrub_at = out@.len() - 1;
                    assert(scrub_due(*l, *s, prev, keys@));
                    assert(entry_for_sub(out@[scrub_at], *l, *s, now as int, prev, keys@));
                }
            }
        }
        if outcome_status(l.status) && s.wants_outcome() {
            proof {
                assert(status_key(*l, s.spec_id(), NotifClass::Outcome) =~= (KeyV {
                    launch: l.ll_id@,
                    subscriber,
                    class: NotifClass::Outcome,
                    bucket: l.status as int,
                }));
            }
            if !key_emitted(keys, &l.ll_id, subscriber, NotifClass::Outcome, l.status as i64) {
                let targets = resolve_status_targets(s);
                out.push(
                    DueReminder {
                        launch: l.ll_id.clone(),
                        subscriber,
                        class: NotifClass::Outcome,
                        bucket: l.status as i64,
                        targets,
                    },
                );
                proof {
                    outcome_at = out@.len() - 1;
                    assert(outcome_due(*l, *s, prev, keys@));
                    assert(entry_for_sub(out@[outcome_at], *l, *s, now as int, prev, keys@));
                }
            }
        }
    }
    proof {
        assert(forall|t: int| 0 <= t < after_leads.len() ==> #[trigger] out@[t] == after_leads[t]);
        if scrub_due(*l, *s, prev, keys@) {
            assert(due_key(out@[scrub_at]) =~= status_key(*l, s.spec_id(), NotifClass::Scrub));
        }
        if outcome_due(*l, *s, prev, keys@) {
            assert(due_key(out@[outcome_at]) =~= status_key(*l, s.spec_id(), NotifClass::Outcome));
        }
        assert forall|r2: int|
            0 <= r2 < s.reminders@.len() && lead_due(
                *l,
                *s,
                #[trigger] s.reminders@[r2],
                now as int,
                keys@,
            ) implies out_has(out@, lead_key(*l, s.spec_id(), s.reminders@[r2].minutes)) by {
            let w = choose|w: int|
                0 <= w < after_leads.len() && due_key(#[trigger] after_leads[w]) == lead_key(
                    *l,
                    s.spec_id(),
                    s.reminders@[r2].minutes,
                );
            assert(due_key(out@[w]) == lead_key(*l, s.spec_id(), s.reminders@[r2].minutes));
        }
        assert forall|i: int, j: int|
            base.len() <= i < j < out@.len() implies due_key(#[trigger] out@[i]) != due_key(
            #[trigger] out@[j]) by {
            if j >= after_leads.len() {
                if i < after_leads.len() {
                    assert(out@[i].class == NotifClass::Lead);
                    assert(out@[j].class != NotifClass::Lead);
                } else {
                    assert(out@[i].class == NotifClass::Scrub);
                    assert(out@[j].class == NotifClass::Outcome);
                }
            }
        }
    }
}


/// The instruction is correct for launch `l` and some subscriber of the list.
pub open spec fn entry_for_launch(
    d: DueReminder,
    l: LaunchData,
    subs: Seq<Subscriber>,
    now: int,
    prev: Option<u32>,
    keys: Seq<DedupKey>,
) -> bool {
    exists|si: int| 0 <= si < subs.len() && entry_for_sub(d, l, #[trigger] subs[si], now, prev, keys)
}

/// A key found in a list is still found in any extension of it.
proof fn lemma_out_has_extend(a: Seq<DueReminder>, b: Seq<DueReminder>, k: KeyV)
    requires
        a.len() <= b.len(),
        forall|t: int| 0 <= t < a.len() ==> #[trigger] b[t] == a[t],
        out_has(a, k),
    ensures
        out_has(b, k),
{
    let w = choose|w: int| 0 <= w < a.len() && due_key(#[trigger] a[w]) == k;
    assert(due_key(b[w]) == k);
}

/// Completeness for one (launch, subscriber) survives extending the output.
proof fn lemma_sub_complete_extend(
    a: Seq<DueReminder>,
    b: Seq<DueReminder>,
    l: LaunchData,
    s: Subscriber,
    now: int,
    prev: Option<u32>,
    keys: Seq<DedupKey>,
)
    requires
        a.len() <= b.len(),
        forall|t: int| 0 <= t < a.len() ==> #[trigger] b[t] == a[t],
        sub_complete(a, l, s, now, prev, keys),
    ensures
        sub_complete(b, l, s, now, prev, keys),
{
    assert forall|ri: int|
        0 <= ri < s.reminders@.len() && lead_due(
            l,
            s,
            #[trigger] s.reminders@[ri],
            now,
            keys,
        ) implies out_has(b, lead_key(l, s.spec_id(), s.reminders@[ri].minutes)) by {
        lemma_out_has_extend(a, b, lead_key(l, s.spec_id(), s.reminders@[ri].minutes));
    }
    if scrub_due(l, s, prev, keys) {
        lemma_out_has_extend(a, b, status_key(l, s.spec_id(), NotifClass::Scrub));
    }
    if outcome_due(l, s, prev, keys) {
        lemma_out_has_extend(a, b, status_key(l, s.spec_id(), NotifClass::Outcome));
    }
}

/// Evaluates one launch against every subscriber.
fn eval_launch(
    l: &LaunchData,
    subs: &Vec<Subscriber>,
    now: i64,
    keys: &Vec<DedupKey>,
    prev: Option<u32>,
    out: &mut Vec<DueReminder>,
)
    requires
        subscribers_wf(subs@),
        now >= 0,
    ensures
        old(out)@.len() <= final(out)@.len(),
        forall|t: int| 0 <= t < old(out)@.len() ==> #[trigger] final(out)@[t] == old(out)@[t],
        forall|di: int|
            old(out)@.len() <= di < final(out)@.len() ==> (#[trigger] final(out)@[di]).launch@
                == l.ll_id@ && entry_for_launch(final(out)@[di], *l, subs@, now as int, prev, keys@),
        forall|si: int|
            0 <= si < subs@.len() ==> sub_complete(
                final(out)@,
                *l,
                #[trigger] subs@[si],
                now as int,
                prev,
                keys@,
            ),
        forall|i: int, j: int|
            old(out)@.len() <= i < j < final(out)@.len() ==> due_key(#[trigger] final(out)@[i])
                != due_key(#[trigger] final(out)@[j]),
{
    let ghost base = out@;
    let mut si: usize = 0;
    while si < subs.len()
        invariant
            subscribers_wf(subs@),
            now >= 0,
            0 <= si <= subs@.len(),
            base.len() <= out@.len(),
            forall|t: int| 0 <= t < base.len() ==> #[trigger] out@[t] == base[t],
            forall|di: int|
                base.len() <= di < out@.len() ==> (#[trigger] out@[di]).launch@ == l.ll_id@
                    && entry_for_launch(out@[di], *l, subs@, now as int, prev, keys@),
            forall|di: int|
                base.len() <= di < out@.len() ==> exists|s2: int|
                    0 <= s2 < si && (#[trigger] out@[di]).subscriber == (
                    #[trigger] subs@[s2]).spec_id(),
            forall|s2: int|
                0 <= s2 < si ==> sub_complete(
                    out@,
                    *l,
                    #[trigger] subs@[s2],
                    now as int,
                    prev,
                    keys@,
                ),
            forall|i: int, j: int|
                base.len() <= i < j < out@.len() ==> due_key(#[trigger] out@[i]) != due_key(
                    #[trigger] out@[j],
                ),
        decreases subs@.len() - si,
    {
        let ghost prev_out = out@;
        eval_subscriber(l, &subs[si], now, keys, prev, out);
        proof {
            assert forall|di: int|
                base.len() <= di < out@.len() implies (#[trigger] out@[di]).launch@ == l.ll_id@
                && entry_for_launch(out@[di], *l, subs@, now as int, prev, keys@) by {
                if di >= prev_out.len() {
                    assert(entry_for_sub(out@[di], *l, subs@[si as int], now as int, prev, keys@));
                } else {
                    assert(out@[di] == prev_out[di]);
                    let s2 = choose|s2: int|
                        0 <= s2 < subs@.len() && entry_for_sub(
                            prev_out[di],
                            *l,
                            #[trigger] subs@[s2],
                            now as int,
                            prev,
                            keys@,
                        );
                    assert(entry_for_sub(out@[di], *l, subs@[s2], now as int, prev, keys@));
                }
            }
            assert forall|di: int|
                base.len() <= di < out@.len() implies exists|s2: int|
                0 <= s2 < si + 1 && (#[trigger] out@[di]).subscriber == (
                #[trigger] subs@[s2]).spec_id() by {
                if di >= prev_out.len() {
                    assert(entry_for_sub(out@[di], *l, subs@[si as int], now as int, prev, keys@));
                    assert(out@[di].subscriber == subs@[si as int].spec_id());
                } else {
                    let s2 = choose|s2: int|
                        0 <= s2 < si && (#[trigger] prev_out[di]).subscriber == (
                        #[trigger] subs@[s2]).spec_id();
                    assert(out@[di].subscriber == subs@[s2].spec_id());
                }
            }
            assert forall|s2: int| 0 <= s2 < si + 1 implies sub_complete(
                out@,
                *l,
                #[trigger] subs@[s2],
                now as int,
                prev,
                keys@,
            ) by {
                if s2 < si {
                    lemma_sub_complete_extend(
                        prev_out,
                        out@,
                        *l,
                        subs@[s2],
                        now as int,
                        prev,
                        keys@,
                    );
                }
            }
            assert forall|i: int, j: int|
                base.len() <= i < j < out@.len() implies due_key(#[trigger] out@[i]) != due_key(
                #[trigger] out@[j]) by {
                if i < prev_out.len() && j >= prev_out.len() {
                    let s2 = choose|s2: int|
                        0 <= s2 < si && (#[trigger] prev_out[i]).subscriber == (
                        #[trigger] subs@[s2]).spec_id();
                    assert(entry_for_sub(out@[j], *l, subs@[si as int], now as int, prev, keys@));
                    assert(out@[j].subscriber == subs@[si as int].spec_id());
                    assert(subs@[s2].spec_id() != subs@[si as int].spec_id());
                    assert(due_key(out@[i]).subscriber != due_key(out@[j]).subscriber);
                }
            }
        }
        si += 1;
    }
}


impl SchedulerState {
    /// One scheduler tick: evicts bookkeeping for launches that left the
    /// snapshot, emits every due lead-time reminder and status-change
    /// notification exactly once per dedup key, records the emitted keys,
    /// and remembers the snapshot's statuses for the next tick.
    #[verifier::rlimit(50)]
    pub fn tick(
        &mut self,
        snapshot: &Vec<LaunchData>,
        subscribers: &Vec<Subscriber>,
        now: i64,
    ) -> (out: Vec<DueReminder>)
        requires
            old(self).wf(),
            distinct_ids(snapshot@),
            subscribers_wf(subscribers@),
            now >= 0,
        ensures
            final(self).wf(),
            tick_rel(*old(self), snapshot@, subscribers@, now as int, out@, *final(self)),
    {
        let ghost pre = *old(self);
        evict_absent(&mut self.emitted, snapshot);
        let ghost ev = self.emitted@;
        let mut out: Vec<DueReminder> = Vec::new();
        let mut li: usize = 0;
        while li < snapshot.len()
            invariant
                distinct_ids(snapshot@),
                subscribers_wf(subscribers@),
                now >= 0,
                0 <= li <= snapshot@.len(),
                self.emitted@ == ev,
                self.statuses@ == pre.statuses@,
                statuses_distinct(pre.statuses@),
                keys_distinct(ev),
                forall|di: int|
                    0 <= di < out@.len() ==> exists|l2: int|
                        0 <= l2 < li && (#[trigger] out@[di]).launch@ == (
                        #[trigger] snapshot@[l2]).ll_id@ && entry_for_launch(
                            out@[di],
                            snapshot@[l2],
                            subscribers@,
                            now as int,
                            spec_status_of(pre.statuses@, snapshot@[l2].ll_id@),
                            ev,
                        ),
                forall|l2: int, s2: int|
                    0 <= l2 < li && 0 <= s2 < subscribers@.len() ==> sub_complete(
                        out@,
                        #[trigger] snapshot@[l2],
                        #[trigger] subscribers@[s2],
                        now as int,
                        spec_status_of(pre.statuses@, snapshot@[l2].ll_id@),
                        ev,
                    ),
                out_distinct(out@),
            decreases snapshot@.len() - li,
        {
            let l = &snapshot[li];
            let prev = lookup_status(&self.statuses, &l.ll_id);
            let ghost prev_out = out@;
            eval_launch(l, subscribers, now, &self.emitted, prev, &mut out);
            proof {
                assert forall|di: int| 0 <= di < out@.len() implies exists|l2: int|
                    0 <= l2 < li + 1 && (#[trigger] out@[di]).launch@ == (
                    #[trigger] snapshot@[l2]).ll_id@ && entry_for_launch(
                        out@[di],
                        snapshot@[l2],
                        subscribers@,
                        now as int,
                        spec_status_of(pre.statuses@, snapshot@[l2].ll_id@),
                        ev,
                    ) by {
                    if di >= prev_out.len() {
                        assert(out@[di].launch@ == snapshot@[li as int].ll_id@
                            && entry_for_launch(
                            out@[di],
                            snapshot@[li as int],
                            subscribers@,
                            now as int,
                            spec_status_of(pre.statuses@, snapshot@[li as int].ll_id@),
                            ev,
                        ));
                    } else {
                        let l2 = choose|l2: int|
                            0 <= l2 < li && (#[trigger] prev_out[di]).launch@ == (
                            #[trigger] snapshot@[l2]).ll_id@ && entry_for_launch(
                                prev_out[di],
                                snapshot@[l2],
                                subscribers@,
                                now as int,
                                spec_status_of(pre.statuses@, snapshot@[l2].ll_id@),
                                ev,
                            );
                        assert(out@[di].launch@ == snapshot@[l2].ll_id@ && entry_for_launch(
                            out@[di],
                            snapshot@[l2],
                            subscribers@,
                            now as int,
                            spec_status_of(pre.statuses@, snapshot@[l2].ll_id@),
                            ev,
                        ));
                    }
                }
                assert forall|l2: int, s2: int|
                    0 <= l2 < li + 1 && 0 <= s2 < subscribers@.len() implies sub_complete(
                    out@,
                    #[trigger] snapshot@[l2],
                    #[trigger] subscribers@[s2],
                    now as int,
                    spec_status_of(pre.statuses@, snapshot@[l2].ll_id@),
                    ev,
                ) by {
                    if l2 < li {
                        lemma_sub_complete_extend(
                            prev_out,
                            out@,
                            snapshot@[l2],
                            subscribers@[s2],
                            now as int,
                            spec_status_of(pre.statuses@, snapshot@[l2].ll_id@),
                            ev,
                        );
                    }
                }
                assert forall|i: int, j: int|
                    0 <= i < j < out@.len() implies due_key(#[trigger] out@[i]) != due_key(
                    #[trigger] out@[j]) by {
                    if i < prev_out.len() && j >= prev_out.len() {
                        let l2 = choose|l2: int|
                            0 <= l2 < li && (#[trigger] prev_out[i]).launch@ == (
                            #[trigger] snapshot@[l2]).ll_id@ && entry_for_launch(
                                prev_out[i],
                                snapshot@[l2],
                                subscribers@,
                                now as int,
                                spec_status_of(pre.statuses@, snapshot@[l2].ll_id@),
                                ev,
                            );
                        assert(out@[j].launch@ == snapshot@[li as int].ll_id@);
                        assert(snapshot@[l2].ll_id@ != snapshot@[li as int].ll_id@);
                        assert(due_key(out@[i]).launch != due_key(out@[j]).launch);
                    }
                }
            }
            li += 1;
        }
        proof {
            assert forall|di: int| 0 <= di < out@.len() implies !key_in(
                ev,
                due_key(#[trigger] out@[di]),
            ) by {
                let d = out@[di];
                let l2 = choose|l2: int|
                    0 <= l2 < snapshot@.len() && d.launch@ == (
                    #[trigger] snapshot@[l2]).ll_id@ && entry_for_launch(
                        d,
                        snapshot@[l2],
                        subscribers@,
                        now as int,
                        spec_status_of(pre.statuses@, snapshot@[l2].ll_id@),
                        ev,
                    );
                let s2 = choose|s2: int|
                    0 <= s2 < subscribers@.len() && entry_for_sub(
                        d,
                        snapshot@[l2],
                        #[trigger] subscribers@[s2],
                        now as int,
                        spec_status_of(pre.statuses@, snapshot@[l2].ll_id@),
                        ev,
                    );
                match d.class {
                    NotifClass::Lead => {
                        let r2 = choose|r2: int|
                            0 <= r2 < subscribers@[s2].reminders@.len() && d.bucket == (
                            #[trigger] subscribers@[s2].reminders@[r2]).minutes && lead_due(
                                snapshot@[l2],
                                subscribers@[s2],
                                subscribers@[s2].reminders@[r2],
                                now as int,
                                ev,
                            ) && d.targets@ == spec_reminder_targets(
                                subscribers@[s2],
                                subscribers@[s2].reminders@[r2],
                            );
                        assert(due_key(d) =~= lead_key(
                            snapshot@[l2],
                            subscribers@[s2].spec_id(),
                            subscribers@[s2].reminders@[r2].minutes,
                        ));
                    },
                    NotifClass::Scrub => {
                        assert(due_key(d) =~= status_key(
                            snapshot@[l2],
                            subscribers@[s2].spec_id(),
                            NotifClass::Scrub,
                        ));
                    },
                    NotifClass::Outcome => {
                        assert(due_key(d) =~= status_key(
                            snapshot@[l2],
                            subscribers@[s2].spec_id(),
                            NotifClass::Outcome,
                        ));
                    },
                }
            }
        }
        let mut di: usize = 0;
        while di < out.len()
            invariant
                0 <= di <= out@.len(),
                out_distinct(out@),
                keys_distinct(self.emitted@),
                forall|t: int| 0 <= t < out@.len() ==> !key_in(ev, due_key(#[trigger] out@[t])),
                forall|k: KeyV|
                    #[trigger] key_in(self.emitted@, k) <==> (key_in(ev, k) || exists|t: int|
                        0 <= t < di && due_key(#[trigger] out@[t]) == k),
            decreases out@.len() - di,
        {
            let d = &out[di];
            let ghost prev_em = self.emitted@;
            self.emitted.push(
                DedupKey {
                    launch: d.launch.clone(),
                    subscriber: d.subscriber,
                    class: d.class,
                    bucket: d.bucket,
                },
            );
            proof {
                let ghost newk = due_key(out@[di as int]);
                assert(key_view(self.emitted@[self.emitted@.len() - 1]) =~= newk);
                assert(!key_in(prev_em, newk)) by {
                    if key_in(prev_em, newk) {
                        assert(key_in(ev, newk) || exists|t: int|
                            0 <= t < di && due_key(#[trigger] out@[t]) == newk);
                        if exists|t: int| 0 <= t < di && due_key(#[trigger] out@[t]) == newk {
                            let t = choose|t: int|
                                0 <= t < di && due_key(#[trigger] out@[t]) == newk;
                            assert(due_key(out@[t]) != due_key(out@[di as int]));
                        }
                    }
                }
                assert forall|i2: int, j2: int|
                    0 <= i2 < j2 < self.emitted@.len() implies key_view(
                    #[trigger] self.emitted@[i2]) != key_view(#[trigger] self.emitted@[j2]) by {
                    if j2 == self.emitted@.len() - 1 {
                        if key_view(self.emitted@[i2]) == newk {
                            assert(key_in(prev_em, newk));
                        }
                    }
                }
                assert forall|k: KeyV| #[trigger] key_in(self.emitted@, k) <==> (key_in(ev, k)
                    || exists|t: int| 0 <= t < di + 1 && due_key(#[trigger] out@[t]) == k) by {
                    if key_in(self.emitted@, k) {
                        let w = choose|w: int|
                            0 <= w < self.emitted@.len() && key_view(#[trigger] self.emitted@[w])
                                == k;
                        if w < prev_em.len() {
                            assert(key_in(prev_em, k));
                        } else {
                            assert(due_key(out@[di as int]) == k);
                        }
                    }
                    if key_in(ev, k) {
                        let w = choose|w: int|
                            0 <= w < prev_em.len() && key_view(#[trigger] prev_em[w]) == k;
                        assert(key_view(self.emitted@[w]) == k);
                    }
                    if exists|t: int| 0 <= t < di + 1 && due_key(#[trigger] out@[t]) == k {
                        let t = choose|t: int| 0 <= t < di + 1 && due_key(#[trigger] out@[t]) == k;
                        if t < di {
                            assert(key_in(prev_em, k));
                            let w = choose|w: int|
                                0 <= w < prev_em.len() && key_view(#[trigger] prev_em[w]) == k;
                            assert(key_view(self.emitted@[w]) == k);
                        } else {
                            assert(key_view(self.emitted@[self.emitted@.len() - 1]) == k);
                        }
                    }
                }
            }
            di += 1;
        }
        self.statuses = rebuild_statuses(snapshot);
        proof {
            assert forall|di2: int| 0 <= di2 < out@.len() implies match (
            #[trigger] out@[di2]).class {
                NotifClass::Lead => lead_entry_justified(
                    out@[di2],
                    snapshot@,
                    subscribers@,
                    now as int,
                    pre.emitted@,
                ),
                NotifClass::Scrub => scrub_entry_justified(
                    out@[di2],
                    snapshot@,
                    subscribers@,
                    pre.statuses@,
                    pre.emitted@,
                ),
                NotifClass::Outcome => outcome_entry_justified(
                    out@[di2],
                    snapshot@,
                    subscribers@,
                    pre.statuses@,
                    pre.emitted@,
                ),
            } by {
                let d = out@[di2];
                let l2 = choose|l2: int|
                    0 <= l2 < snapshot@.len() && d.launch@ == (
                    #[trigger] snapshot@[l2]).ll_id@ && entry_for_launch(
                        d,
                        snapshot@[l2],
                        subscribers@,
                        now as int,
                        spec_status_of(pre.statuses@, snapshot@[l2].ll_id@),
                        ev,
                    );
                let s2 = choose|s2: int|
                    0 <= s2 < subscribers@.len() && entry_for_sub(
                        d,
                        snapshot@[l2],
                        #[trigger] subscribers@[s2],
                        now as int,
                        spec_status_of(pre.statuses@, snapshot@[l2].ll_id@),
                        ev,
                    );
                assert(id_in_snap(snapshot@, snapshot@[l2].ll_id@));
                match d.class {
                    NotifClass::Lead => {
                        let r2 = choose|r2: int|
                            0 <= r2 < subscribers@[s2].reminders@.len() && d.bucket == (
                            #[trigger] subscribers@[s2].reminders@[r2]).minutes && lead_due(
                                snapshot@[l2],
                                subscribers@[s2],
                                subscribers@[s2].reminders@[r2],
                                now as int,
                                ev,
                            ) && d.targets@ == spec_reminder_targets(
                                subscribers@[s2],
                                subscribers@[s2].reminders@[r2],
                            );
                        let key = lead_key(
                            snapshot@[l2],
                            subscribers@[s2].spec_id(),
                            subscribers@[s2].reminders@[r2].minutes,
                        );
                        assert(key_in(ev, key) <==> (key_in(pre.emitted@, key) && id_in_snap(
                            snapshot@,
                            key.launch,
                        )));
                        assert(lead_due(
                            snapshot@[l2],
                            subscribers@[s2],
                            subscribers@[s2].reminders@[r2],
                            now as int,
                            pre.emitted@,
                        ));
                        assert(lead_entry_justified(
                            d,
                            snapshot@,
                            subscribers@,
                            now as int,
                            pre.emitted@,
                        ));
                    },
                    NotifClass::Scrub => {
                        let key = status_key(
                            snapshot@[l2],
                            subscribers@[s2].spec_id(),
                            NotifClass::Scrub,
                        );
                        assert(key_in(ev, key) <==> (key_in(pre.emitted@, key) && id_in_snap(
                            snapshot@,
                            key.launch,
                        )));
                        assert(scrub_due(
                            snapshot@[l2],
                            subscribers@[s2],
                            spec_status_of(pre.statuses@, snapshot@[l2].ll_id@),
                            pre.emitted@,
                        ));
                        assert(scrub_entry_justified(
                            d,
                            snapshot@,
                            subscribers@,
                            pre.statuses@,
                            pre.emitted@,
                        ));
                    },
                    NotifClass::Outcome => {
                        let key = status_key(
                            snapshot@[l2],
                            subscribers@[s2].spec_id(),
                            NotifClass::Outcome,
                        );
                        assert(key_in(ev, key) <==> (key_in(pre.emitted@, key) && id_in_snap(
                            snapshot@,
                            key.launch,
                        )));
                        assert(outcome_due(
                            snapshot@[l2],
                            subscribers@[s2],
                            spec_status_of(pre.statuses@, snapshot@[l2].ll_id@),
                            pre.emitted@,
                        ));
                        assert(outcome_entry_justified(
                            d,
                            snapshot@,
                            subscribers@,
                            pre.statuses@,
                            pre.emitted@,
                        ));
                    },
                }
            }
            assert forall|l2: int, s2: int, r2: int|
                #![trigger snapshot@[l2], subscribers@[s2].reminders@[r2]]
                0 <= l2 < snapshot@.len() && 0 <= s2 < subscribers@.len() && 0 <= r2
                    < subscribers@[s2].reminders@.len() && lead_due(
                    snapshot@[l2],
                    subscribers@[s2],
                    subscribers@[s2].reminders@[r2],
                    now as int,
                    pre.emitted@,
                ) implies out_has(
                out@,
                lead_key(
                    snapshot@[l2],
                    subscribers@[s2].spec_id(),
                    subscribers@[s2].reminders@[r2].minutes,
                ),
            ) by {
                let key = lead_key(
                    snapshot@[l2],
                    subscribers@[s2].spec_id(),
                    subscribers@[s2].reminders@[r2].minutes,
                );
                assert(id_in_snap(snapshot@, snapshot@[l2].ll_id@));
                assert(key_in(ev, key) <==> (key_in(pre.emitted@, key) && id_in_snap(
                    snapshot@,
                    key.launch,
                )));
                assert(lead_due(
                    snapshot@[l2],
                    subscribers@[s2],
                    subscribers@[s2].reminders@[r2],
                    now as int,
                    ev,
                ));
            }
            assert forall|l2: int, s2: int|
                #![trigger snapshot@[l2], subscribers@[s2]]
                0 <= l2 < snapshot@.len() && 0 <= s2 < subscribers@.len() && scrub_due(
                    snapshot@[l2],
                    subscribers@[s2],
                    spec_status_of(pre.statuses@, snapshot@[l2].ll_id@),
                    pre.emitted@,
                ) implies out_has(
                out@,
                status_key(snapshot@[l2], subscribers@[s2].spec_id(), NotifClass::Scrub),
            ) by {
                let key = status_key(snapshot@[l2], subscribers@[s2].spec_id(), NotifClass::Scrub);
                assert(id_in_snap(snapshot@, snapshot@[l2].ll_id@));
                assert(key_in(ev, key) <==> (key_in(pre.emitted@, key) && id_in_snap(
                    snapshot@,
                    key.launch,
                )));
                assert(scrub_due(
                    snapshot@[l2],
                    subscribers@[s2],
                    spec_status_of(pre.statuses@, snapshot@[l2].ll_id@),
                    ev,
                ));
            }
            assert forall|l2: int, s2: int|
                #![trigger snapshot@[l2], subscribers@[s2]]
                0 <= l2 < snapshot@.len() && 0 <= s2 < subscribers@.len() && outcome_due(
                    snapshot@[l2],
                    subscribers@[s2],
                    spec_status_of(pre.statuses@, snapshot@[l2].ll_id@),
                    pre.emitted@,
                ) implies out_has(
                out@,
                status_key(snapshot@[l2], subscribers@[s2].spec_id(), NotifClass::Outcome),
            ) by {
                let key = status_key(snapshot@[l2], subscribers@[s2].spec_id(), NotifClass::Outcome);
                assert(id_in_snap(snapshot@, snapshot@[l2].ll_id@));
                assert(key_in(ev, key) <==> (key_in(pre.emitted@, key) && id_in_snap(
                    snapshot@,
                    key.launch,
                )));
                assert(outcome_due(
                    snapshot@[l2],
                    subscribers@[s2],
                    spec_status_of(pre.statuses@, snapshot@[l2].ll_id@),
                    ev,
                ));
            }
            assert forall|k: KeyV| key_in(final(self).emitted@, k) <==> ((#[trigger] key_in(
                pre.emitted@,
                k,
            ) && id_in_snap(snapshot@, k.launch)) || out_has(out@, k)) by {
                assert(key_in(self.emitted@, k) <==> (key_in(ev, k) || exists|t: int|
                    0 <= t < out@.len() && due_key(#[trigger] out@[t]) == k));
            }
        }
        out
    }
}

} // verus!

