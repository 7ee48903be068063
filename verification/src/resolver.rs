//! Subscription resolution: which subscriber is excluded by its filters, and
//! where a notification for a subscriber is delivered.

use vstd::prelude::*;

use crate::filters::{contains_ci, contains_ci_spec};
use crate::launches::LaunchData;
use crate::reminders::{ChannelReminder, GuildSettings, Reminder, ReminderSettings, UserSettings};

verus! {

/// A subscriber's identity: one guild or one user.
#[derive(Clone, Copy, PartialEq, Eq, Structural, Debug)]
pub enum SubscriberId {
    Guild(u64),
    User(u64),
}

/// A subscriber's settings document: a guild's or a user's.
pub enum SubscriberSettings {
    Guild(GuildSettings),
    User(UserSettings),
}

/// One subscriber as handed over by the settings store: its point-in-time
/// settings and its lead-time reminder rules.
pub struct Subscriber {
    pub settings: SubscriberSettings,
    pub reminders: Vec<Reminder>,
}

/// Where one notification is delivered: a guild channel or a direct message.
#[derive(Clone, Copy, PartialEq, Eq, Structural, Debug)]
pub enum Target {
    Channel { guild: u64, channel: u64 },
    Dm { user: u64 },
}

impl Subscriber {
    /// The subscriber's identity.
    pub open spec fn spec_id(&self) -> SubscriberId {
        match self.settings {
            SubscriberSettings::Guild(g) => SubscriberId::Guild(g.guild),
            SubscriberSettings::User(u) => SubscriberId::User(u.user),
        }
    }

    /// The subscriber's filter strings.
    pub open spec fn spec_filters(&self) -> Seq<Seq<char>> {
        match self.settings {
            SubscriberSettings::Guild(g) => g.spec_filters(),
            SubscriberSettings::User(u) => u.spec_filters(),
        }
    }

    /// Whether the subscriber wants scrub status-change notifications.
    pub open spec fn spec_notify_scrub(&self) -> bool {
        match self.settings {
            SubscriberSettings::Guild(g) => g.spec_notify_scrub(),
            SubscriberSettings::User(u) => u.spec_notify_scrub(),
        }
    }

    /// Whether the subscriber wants outcome status-change notifications.
    pub open spec fn spec_notify_outcome(&self) -> bool {
        match self.settings {
            SubscriberSettings::Guild(g) => g.spec_notify_outcome(),
            SubscriberSettings::User(u) => u.spec_notify_outcome(),
        }
    }

    /// The subscriber's identity, executable.
    pub fn id(&self) -> (r: SubscriberId)
        ensures
            r == self.spec_id(),
    {
        match &self.settings {
            SubscriberSettings::Guild(g) => SubscriberId::Guild(g.guild),
            SubscriberSettings::User(u) => SubscriberId::User(u.user),
        }
    }

    /// Whether the subscriber wants scrub notifications, executable.
    pub fn wants_scrub(&self) -> (r: bool)
        ensures
            r == self.spec_notify_scrub(),
    {
        match &self.settings {
            SubscriberSettings::Guild(g) => g.notify_scrub(),
            SubscriberSettings::User(u) => u.notify_scrub(),
        }
    }

    /// Whether the subscriber wants outcome notifications, executable.
    pub fn wants_outcome(&self) -> (r: bool)
        ensures
            r == self.spec_notify_outcome(),
    {
        match &self.settings {
            SubscriberSettings::Guild(g) => g.notify_outcome(),
            SubscriberSettings::User(u) => u.notify_outcome(),
        }
    }
}

/// One filter string excludes a launch when it occurs, ignoring ASCII case,
/// in the launch's vehicle, provider, or mission-type field.
pub open spec fn filter_hits(filter: Seq<char>, l: LaunchData) -> bool {
    ||| contains_ci_spec(l.vehicle@, filter)
    ||| contains_ci_spec(l.lsp@, filter)
    ||| contains_ci_spec(l.mission_type@, filter)
}

/// A launch is excluded for a subscriber when any of its filters hits.
pub open spec fn filters_match(filters: Seq<Seq<char>>, l: LaunchData) -> bool {
    exists|k: int| 0 <= k < filters.len() && filter_hits(#[trigger] filters[k], l)
}

/// Tests whether any filter of the list excludes the launch.
pub fn launch_filtered(filters: &Vec<String>, l: &LaunchData) -> (r: bool)
    ensures
        r == filters_match(filters.deep_view(), *l),
{
    let ghost fv = filters.deep_view();
    let mut k: usize = 0;
    while k < filters.len()
        invariant
            fv == filters.deep_view(),
            fv.len() == filters@.len(),
            0 <= k <= filters@.len(),
            forall|t: int| 0 <= t < fv.len() ==> #[trigger] fv[t] == filters@[t]@,
            forall|t: int| 0 <= t < k ==> !filter_hits(#[trigger] fv[t], *l),
        decreases filters@.len() - k,
    {
        let f = &filters[k];
        if contains_ci(l.vehicle.as_str(), f.as_str()) || contains_ci(l.lsp.as_str(), f.as_str())
            || contains_ci(l.mission_type.as_str(), f.as_str()) {
            assert(filter_hits(fv[k as int], *l));
            return true;
        }
        k += 1;
    }
    false
}

/// Tests whether the subscriber's filters exclude the launch.
pub fn subscriber_filtered(s: &Subscriber, l: &LaunchData) -> (r: bool)
    ensures
        r == filters_match(s.spec_filters(), *l),
{
    match &s.settings {
        SubscriberSettings::Guild(g) => launch_filtered(g.get_filters(), l),
        SubscriberSettings::User(u) => launch_filtered(u.get_filters(), l),
    }
}

/// The delivery targets of a lead-time reminder for a subscriber: a guild's
/// dedicated notifications channel if one is set, otherwise the rule's own
/// channel targets followed by its direct-message user targets; for a user,
/// a direct message.
pub open spec fn spec_reminder_targets(s: Subscriber, r: Reminder) -> Seq<Target> {
    match s.settings {
        SubscriberSettings::Guild(g) => match g.notifications_channel {
            Some(c) => seq![Target::Channel { guild: g.guild, channel: c }],
            None => rule_channels(r) + rule_user_targets(r),
        },
        SubscriberSettings::User(u) => seq![Target::Dm { user: u.user }],
    }
}

/// The direct-message targets of one reminder rule.
pub open spec fn rule_user_targets(r: Reminder) -> Seq<Target> {
    r.users@.map_values(|u: u64| Target::Dm { user: u })
}

/// The delivery targets of a status-change notification: a guild's dedicated
/// notifications channel if one is set, otherwise every channel target
/// configured across the guild's reminder rules; for a user, a direct message.
pub open spec fn spec_status_targets(s: Subscriber) -> Seq<Target> {
    match s.settings {
        SubscriberSettings::Guild(g) => match g.notifications_channel {
            Some(c) => seq![Target::Channel { guild: g.guild, channel: c }],
            None => all_rule_channels(s.reminders@),
        },
        SubscriberSettings::User(u) => seq![Target::Dm { user: u.user }],
    }
}

/// All channel targets configured across a list of reminder rules, in order.
pub open spec fn all_rule_channels(rs: Seq<Reminder>) -> Seq<Target>
    decreases rs.len(),
{
    if rs.len() == 0 {
        Seq::<Target>::empty()
    } else {
        rule_channels(rs[0]) + all_rule_channels(rs.drop_first())
    }
}

/// The channel targets of one reminder rule.
pub open spec fn rule_channels(r: Reminder) -> Seq<Target> {
    r.channels@.map_values(
        |cr: ChannelReminder| Target::Channel { guild: cr.guild, channel: cr.channel },
    )
}

/// Appending one rule appends its channels to the accumulated target list.
proof fn lemma_all_rule_channels_push(rs: Seq<Reminder>, r: Reminder)
    ensures
        all_rule_channels(rs.push(r)) == all_rule_channels(rs) + rule_channels(r),
    decreases rs.len(),
{
    if rs.len() == 0 {
        let s = rs.push(r);
        assert(s[0] == r);
        assert(s.drop_first() =~= Seq::<Reminder>::empty());
        assert(all_rule_channels(s.drop_first()) =~= Seq::<Target>::empty());
        assert(all_rule_channels(s) =~= rule_channels(r) + Seq::<Target>::empty());
        assert(rule_channels(r) + Seq::<Target>::empty() =~= rule_channels(r));
        assert(all_rule_channels(rs) =~= Seq::<Target>::empty());
        assert(all_rule_channels(rs) + rule_channels(r) =~= rule_channels(r));
    } else {
        assert(rs.push(r).drop_first() =~= rs.drop_first().push(r));
        lemma_all_rule_channels_push(rs.drop_first(), r);
        assert(all_rule_channels(rs.push(r)) =~= all_rule_channels(rs) + rule_channels(r));
    }
}

/// Collects the channel targets of one rule into `out`.
fn push_rule_channels(r: &Reminder, out: &mut Vec<Target>)
    ensures
        final(out)@ == old(out)@ + rule_channels(*r),
{
    let ghost base = out@;
    let mut i: usize = 0;
    while i < r.channels.len()
        invariant
            0 <= i <= r.channels@.len(),
            out@ == base + rule_channels(*r).take(i as int),
        decreases r.channels@.len() - i,
    {
        let cr = &r.channels[i];
        out.push(Target::Channel { guild: cr.guild, channel: cr.channel });
        proof {
            assert(rule_channels(*r).take(i as int + 1) =~= rule_channels(*r).take(i as int).push(
                rule_channels(*r)[i as int],
            ));
            assert(out@ =~= base + rule_channels(*r).take(i as int + 1));
        }
        i += 1;
    }
    proof {
        assert(rule_channels(*r).take(r.channels@.len() as int) =~= rule_channels(*r));
    }
}

/// Collects the direct-message targets of one rule into `out`.
fn push_rule_users(r: &Reminder, out: &mut Vec<Target>)
    ensures
        final(out)@ == old(out)@ + rule_user_targets(*r),
{
    let ghost base = out@;
    let mut i: usize = 0;
    while i < r.users.len()
        invariant
            0 <= i <= r.users@.len(),
            out@ == base + rule_user_targets(*r).take(i as int),
        decreases r.users@.len() - i,
    {
        let u = r.users[i];
        out.push(Target::Dm { user: u });
        proof {
            assert(rule_user_targets(*r).take(i as int + 1) =~= rule_user_targets(*r).take(
                i as int,
            ).push(rule_user_targets(*r)[i as int]));
            assert(out@ =~= base + rule_user_targets(*r).take(i as int + 1));
        }
        i += 1;
    }
    proof {
        assert(rule_user_targets(*r).take(r.users@.len() as int) =~= rule_user_targets(*r));
    }
}

/// Resolves the delivery targets of a lead-time reminder.
pub fn resolve_reminder_targets(s: &Subscriber, r: &Reminder) -> (t: Vec<Target>)
    ensures
        t@ == spec_reminder_targets(*s, *r),
{
    let mut out: Vec<Target> = Vec::new();
    match &s.settings {
        SubscriberSettings::Guild(g) => match g.notifications_channel {
            Some(c) => {
                out.push(Target::Channel { guild: g.guild, channel: c });
                proof {
                    assert(out@ =~= spec_reminder_targets(*s, *r));
                }
            },
            None => {
                push_rule_channels(r, &mut out);
                push_rule_users(r, &mut out);
                proof {
                    assert(out@ =~= spec_reminder_targets(*s, *r));
                }
            },
        },
        SubscriberSettings::User(u) => {
            out.push(Target::Dm { user: u.user });
            proof {
                assert(out@ =~= spec_reminder_targets(*s, *r));
            }
        },
    }
    out
}

/// Resolves the delivery targets of a status-change notification.
pub fn resolve_status_targets(s: &Subscriber) -> (t: Vec<Target>)
    ensures
        t@ == spec_status_targets(*s),
{
    let mut out: Vec<Target> = Vec::new();
    match &s.settings {
        SubscriberSettings::Guild(g) => match g.notifications_channel {
            Some(c) => {
                out.push(Target::Channel { guild: g.guild, channel: c });
                proof {
                    assert(out@ =~= spec_status_targets(*s));
                }
            },
            None => {
                let mut i: usize = 0;
                while i < s.reminders.len()
                    invariant
                        0 <= i <= s.reminders@.len(),
                        out@ == all_rule_channels(s.reminders@.take(i as int)),
                    decreases s.reminders@.len() - i,
                {
                    push_rule_channels(&s.reminders[i], &mut out);
                    proof {
                        assert(s.reminders@.take(i as int + 1) =~= s.reminders@.take(
                            i as int,
                        ).push(s.reminders@[i as int]));
                        lemma_all_rule_channels_push(
                            s.reminders@.take(i as int),
                            s.reminders@[i as int],
                        );
                    }
                    i += 1;
                }
                proof {
                    assert(s.reminders@.take(s.reminders@.len() as int) =~= s.reminders@);
                }
            },
        },
        SubscriberSettings::User(u) => {
            out.push(Target::Dm { user: u.user });
            proof {
                assert(out@ =~= spec_status_targets(*s));
            }
        },
    }
    out
}

} // verus!
