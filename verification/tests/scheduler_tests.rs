use launch_reminders::launches::{LaunchData, VidUrl, STATUS_GO, STATUS_SUCCESS, STATUS_TBD};
use launch_reminders::reminders::{ChannelReminder, GuildSettings, Reminder, UserSettings};
use launch_reminders::resolver::{
    resolve_reminder_targets, resolve_status_targets, Subscriber, SubscriberId,
    SubscriberSettings, Target,
};
use launch_reminders::scheduler::{NotifClass, SchedulerState};

fn record(ll_id: &str, net: i64, status: u32) -> LaunchData {
    LaunchData {
        id: 0,
        ll_id: ll_id.to_string(),
        launch_name: format!("Launch {}", ll_id),
        status,
        payload: "P".to_string(),
        vid_urls: Vec::<VidUrl>::new(),
        vehicle: "Falcon 9".to_string(),
        location: "Pad".to_string(),
        net,
        launch_window: 0,
        rocket_img: None,
        mission_type: "Communications".to_string(),
        mission_description: "D".to_string(),
        lsp: "SpaceX".to_string(),
    }
}

fn user_sub(user: u64, minutes: i64) -> Subscriber {
    Subscriber {
        settings: SubscriberSettings::User(UserSettings {
            user,
            filters: vec![],
            scrub_notifications: true,
            outcome_notifications: true,
        }),
        reminders: vec![Reminder { minutes, channels: vec![], users: vec![] }],
    }
}

#[test]
fn reminder_window_crossing_emits_exactly_once() {
    // Launch at T, rule minutes = 60: nothing at T-61m, exactly one
    // instruction at T-59m, nothing more at T-30m.
    let t: i64 = 1_000_000;
    let snapshot = vec![record("launch-1", t, STATUS_GO)];
    let subs = vec![user_sub(42, 60)];
    let mut sched = SchedulerState::new();

    let out = sched.tick(&snapshot, &subs, t - 61 * 60);
    assert!(out.is_empty());

    let out = sched.tick(&snapshot, &subs, t - 59 * 60);
    assert_eq!(out.len(), 1);
    assert_eq!(out[0].launch, "launch-1");
    assert_eq!(out[0].subscriber, SubscriberId::User(42));
    assert_eq!(out[0].class, NotifClass::Lead);
    assert_eq!(out[0].bucket, 60);
    assert_eq!(out[0].targets, vec![Target::Dm { user: 42 }]);

    let out = sched.tick(&snapshot, &subs, t - 30 * 60);
    assert!(out.is_empty());
}

#[test]
fn repeated_tick_same_snapshot_no_duplicate() {
    let t: i64 = 500_000;
    let snapshot = vec![record("launch-9", t, STATUS_GO)];
    let subs = vec![user_sub(1, 10)];
    let mut sched = SchedulerState::new();
    let out = sched.tick(&snapshot, &subs, t - 5 * 60);
    assert_eq!(out.len(), 1);
    let out = sched.tick(&snapshot, &subs, t - 5 * 60);
    assert!(out.is_empty());
}

#[test]
fn launch_past_net_gets_no_lead_reminder() {
    let t: i64 = 500_000;
    let snapshot = vec![record("launch-2", t, STATUS_GO)];
    let subs = vec![user_sub(1, 60)];
    let mut sched = SchedulerState::new();
    let out = sched.tick(&snapshot, &subs, t + 1);
    assert!(out.is_empty());
}

#[test]
fn eviction_rearms_a_returning_launch() {
    let t: i64 = 1_000_000;
    let snapshot = vec![record("launch-3", t, STATUS_GO)];
    let subs = vec![user_sub(5, 60)];
    let mut sched = SchedulerState::new();

    let out = sched.tick(&snapshot, &subs, t - 30 * 60);
    assert_eq!(out.len(), 1);

    // The launch rolls off the snapshot: its keys are evicted.
    let empty: Vec<LaunchData> = vec![];
    let out = sched.tick(&empty, &subs, t - 29 * 60);
    assert!(out.is_empty());

    // It reappears (fresh provider window): the reminder fires again.
    let out = sched.tick(&snapshot, &subs, t - 28 * 60);
    assert_eq!(out.len(), 1);
    assert_eq!(out[0].class, NotifClass::Lead);
}

#[test]
fn filtered_subscriber_gets_no_reminder() {
    let t: i64 = 1_000_000;
    let snapshot = vec![record("launch-4", t, STATUS_GO)];
    let sub = Subscriber {
        settings: SubscriberSettings::User(UserSettings {
            user: 9,
            filters: vec!["falcon".to_string()],
            scrub_notifications: true,
            outcome_notifications: true,
        }),
        reminders: vec![Reminder { minutes: 60, channels: vec![], users: vec![] }],
    };
    let mut sched = SchedulerState::new();
    let out = sched.tick(&snapshot, &vec![sub], t - 30 * 60);
    assert!(out.is_empty());
}

#[test]
fn scrub_change_notifies_opted_in_subscriber() {
    let t: i64 = 1_000_000;
    let going = vec![record("launch-5", t, STATUS_GO)];
    let scrubbed = vec![record("launch-5", t, STATUS_TBD)];
    let subs = vec![user_sub(3, 1)];
    let mut sched = SchedulerState::new();

    // First sight of the launch: no status change yet.
    let out = sched.tick(&going, &subs, t - 100_000);
    assert!(out.is_empty());

    let out = sched.tick(&scrubbed, &subs, t - 99_000);
    assert_eq!(out.len(), 1);
    assert_eq!(out[0].class, NotifClass::Scrub);
    assert_eq!(out[0].bucket, STATUS_TBD as i64);

    // Same status on the next tick: no change, no duplicate.
    let out = sched.tick(&scrubbed, &subs, t - 98_000);
    assert!(out.is_empty());
}

#[test]
fn outcome_toggle_off_keeps_lead_reminder() {
    // Disabling outcome notifications must not suppress a still-due
    // lead-time reminder for the same launch and subscriber.
    let t: i64 = 1_000_000;
    let going = vec![record("launch-6", t, STATUS_GO)];
    let succeeded = vec![record("launch-6", t, STATUS_SUCCESS)];
    let sub = Subscriber {
        settings: SubscriberSettings::User(UserSettings {
            user: 11,
            filters: vec![],
            scrub_notifications: true,
            outcome_notifications: false,
        }),
        reminders: vec![Reminder { minutes: 60, channels: vec![], users: vec![] }],
    };
    let subs = vec![sub];
    let mut sched = SchedulerState::new();

    let out = sched.tick(&going, &subs, t - 100_000);
    assert!(out.is_empty());

    // Status flips to an outcome while the lead window is crossed: the lead
    // reminder is emitted, the outcome notification is not.
    let out = sched.tick(&succeeded, &subs, t - 30 * 60);
    assert_eq!(out.len(), 1);
    assert_eq!(out[0].class, NotifClass::Lead);
    assert_eq!(out[0].bucket, 60);
}

#[test]
fn guild_targets_use_notifications_channel_when_set() {
    let guild = GuildSettings {
        guild: 100,
        filters: vec![],
        mentions: vec![],
        scrub_notifications: true,
        outcome_notifications: true,
        mention_others: false,
        notifications_channel: Some(555),
    };
    let sub = Subscriber {
        settings: SubscriberSettings::Guild(guild),
        reminders: vec![Reminder { minutes: 15, channels: vec![], users: vec![] }],
    };
    let r = &sub.reminders[0];
    let targets = resolve_reminder_targets(&sub, r);
    assert_eq!(targets, vec![Target::Channel { guild: 100, channel: 555 }]);
    let status_targets = resolve_status_targets(&sub);
    assert_eq!(status_targets, vec![Target::Channel { guild: 100, channel: 555 }]);
}

#[test]
fn guild_targets_fall_back_to_rule_channels() {
    let guild = GuildSettings {
        guild: 100,
        filters: vec![],
        mentions: vec![],
        scrub_notifications: true,
        outcome_notifications: true,
        mention_others: false,
        notifications_channel: None,
    };
    let sub = Subscriber {
        settings: SubscriberSettings::Guild(guild),
        reminders: vec![Reminder {
            minutes: 15,
            channels: vec![
                ChannelReminder { guild: 100, channel: 1 },
                ChannelReminder { guild: 100, channel: 2 },
            ],
            users: vec![77],
        }],
    };
    let r = &sub.reminders[0];
    let targets = resolve_reminder_targets(&sub, r);
    assert_eq!(
        targets,
        vec![
            Target::Channel { guild: 100, channel: 1 },
            Target::Channel { guild: 100, channel: 2 },
            Target::Dm { user: 77 },
        ]
    );
}

#[test]
fn get_duration_is_seconds() {
    let r = Reminder { minutes: 90, channels: vec![], users: vec![] };
    assert_eq!(r.get_duration(), 5400);
}
