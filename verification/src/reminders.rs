//! Subscriber settings and lead-time reminder rules.
//!
//! Guild and user settings both expose the shared "reminder settings"
//! capability (filter list, scrub toggle, outcome toggle) through the
//! [`ReminderSettings`] trait. Chat-platform identifiers (guilds, channels,
//! roles, users) are plain 64-bit ids here; the transport layer owns their
//! richer representations.

use vstd::prelude::*;

verus! {

/// Seconds in one minute; lead times are stored in minutes and compared in seconds.
pub const SECONDS_PER_MINUTE: i64 = 60;

/// A lead-time reminder rule: fire a notification `minutes` before a launch's
/// scheduled net time. The rule carries its own targets: guild channels and
/// direct-message users.
pub struct Reminder {
    pub minutes: i64,
    pub channels: Vec<ChannelReminder>,
    pub users: Vec<u64>,
}

/// One guild-channel target of a reminder rule.
#[derive(Clone, Copy, PartialEq, Eq, Structural, Debug)]
pub struct ChannelReminder {
    pub guild: u64,
    pub channel: u64,
}

/// Per-guild notification preferences.
pub struct GuildSettings {
    pub guild: u64,
    pub filters: Vec<String>,
    pub mentions: Vec<u64>,
    pub scrub_notifications: bool,
    pub outcome_notifications: bool,
    pub mention_others: bool,
    pub notifications_channel: Option<u64>,
}

/// Per-user notification preferences.
pub struct UserSettings {
    pub user: u64,
    pub filters: Vec<String>,
    pub scrub_notifications: bool,
    pub outcome_notifications: bool,
}

/// A rule's lead time must fit in seconds in a 64-bit signed integer.
pub open spec fn reminder_wf(r: Reminder) -> bool {
    0 <= r.minutes && r.minutes * SECONDS_PER_MINUTE as int <= i64::MAX as int
}

impl Reminder {
    /// The rule's lead time as a duration in seconds.
    pub fn get_duration(&self) -> (d: i64)
        requires
            reminder_wf(*self),
        ensures
            d as int == self.minutes * SECONDS_PER_MINUTE as int,
    {
        self.minutes * SECONDS_PER_MINUTE
    }
}

/// The capability shared by guild and user settings: a filter list and the
/// two status-change toggles.
pub trait ReminderSettings {
    /// The filter strings, as sequences of characters.
    spec fn spec_filters(&self) -> Seq<Seq<char>>;

    /// Whether scrub (delay) status changes should be notified.
    spec fn spec_notify_scrub(&self) -> bool;

    /// Whether outcome (success/failure) status changes should be notified.
    spec fn spec_notify_outcome(&self) -> bool;

    fn get_filters(&self) -> (r: &Vec<String>)
        ensures
            r.deep_view() == self.spec_filters(),
    ;

    fn notify_scrub(&self) -> (r: bool)
        ensures
            r == self.spec_notify_scrub(),
    ;

    fn notify_outcome(&self) -> (r: bool)
        ensures
            r == self.spec_notify_outcome(),
    ;
}

impl ReminderSettings for GuildSettings {
    open spec fn spec_filters(&self) -> Seq<Seq<char>> {
        self.filters.deep_view()
    }

    open spec fn spec_notify_scrub(&self) -> bool {
        self.scrub_notifications
    }

    open spec fn spec_notify_outcome(&self) -> bool {
        self.outcome_notifications
    }

    fn get_filters(&self) -> (r: &Vec<String>) {
        &self.filters
    }

    fn notify_scrub(&self) -> (r: bool) {
        self.scrub_notifications
    }

    fn notify_outcome(&self) -> (r: bool) {
        self.outcome_notifications
    }
}

impl ReminderSettings for UserSettings {
    open spec fn spec_filters(&self) -> Seq<Seq<char>> {
        self.filters.deep_view()
    }

    open spec fn spec_notify_scrub(&self) -> bool {
        self.scrub_notifications
    }

    open spec fn spec_notify_outcome(&self) -> bool {
        self.outcome_notifications
    }

    fn get_filters(&self) -> (r: &Vec<String>) {
        &self.filters
    }

    fn notify_scrub(&self) -> (r: bool) {
        self.scrub_notifications
    }

    fn notify_outcome(&self) -> (r: bool) {
        self.outcome_notifications
    }
}

} // verus!
