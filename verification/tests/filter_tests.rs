use launch_reminders::filters::contains_ci;
use launch_reminders::launches::{LaunchData, VidUrl};
use launch_reminders::resolver::{launch_filtered, subscriber_filtered, Subscriber, SubscriberSettings};
use launch_reminders::reminders::{GuildSettings, ReminderSettings, UserSettings};

fn launch(vehicle: &str, lsp: &str, mission_type: &str) -> LaunchData {
    LaunchData {
        id: 0,
        ll_id: "id-1".to_string(),
        launch_name: "L".to_string(),
        status: 1,
        payload: "P".to_string(),
        vid_urls: Vec::<VidUrl>::new(),
        vehicle: vehicle.to_string(),
        location: "Pad".to_string(),
        net: 0,
        launch_window: 0,
        rocket_img: None,
        mission_type: mission_type.to_string(),
        mission_description: "D".to_string(),
        lsp: lsp.to_string(),
    }
}

#[test]
fn contains_ci_is_case_insensitive() {
    assert!(contains_ci("Falcon 9 Block 5", "falcon"));
    assert!(contains_ci("falcon heavy", "FALCON"));
    assert!(contains_ci("Ariane 5", "ariane"));
    assert!(!contains_ci("Ariane 5", "falcon"));
}

#[test]
fn contains_ci_empty_needle_matches() {
    assert!(contains_ci("anything", ""));
    assert!(contains_ci("", ""));
    assert!(!contains_ci("", "x"));
}

#[test]
fn filter_matches_any_of_three_fields() {
    let l = launch("Falcon 9", "SpaceX", "Communications");
    assert!(launch_filtered(&vec!["falcon".to_string()], &l));
    assert!(launch_filtered(&vec!["spacex".to_string()], &l));
    assert!(launch_filtered(&vec!["communi".to_string()], &l));
    assert!(!launch_filtered(&vec!["atlas".to_string()], &l));
    assert!(!launch_filtered(&vec![], &l));
}

#[test]
fn subscriber_filter_excludes_launch() {
    let l = launch("Falcon 9", "SpaceX", "Communications");
    let s = Subscriber {
        settings: SubscriberSettings::User(UserSettings {
            user: 7,
            filters: vec!["FALCON".to_string()],
            scrub_notifications: false,
            outcome_notifications: false,
        }),
        reminders: vec![],
    };
    assert!(subscriber_filtered(&s, &l));
}

#[test]
fn reminder_settings_capability_is_uniform() {
    let g = GuildSettings {
        guild: 1,
        filters: vec!["atlas".to_string()],
        mentions: vec![],
        scrub_notifications: true,
        outcome_notifications: false,
        mention_others: false,
        notifications_channel: None,
    };
    let u = UserSettings {
        user: 2,
        filters: vec!["delta".to_string()],
        scrub_notifications: false,
        outcome_notifications: true,
    };
    assert_eq!(g.get_filters(), &vec!["atlas".to_string()]);
    assert!(g.notify_scrub());
    assert!(!g.notify_outcome());
    assert_eq!(u.get_filters(), &vec!["delta".to_string()]);
    assert!(!u.notify_scrub());
    assert!(u.notify_outcome());
}
