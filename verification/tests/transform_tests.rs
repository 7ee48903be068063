use launch_reminders::launches::{LaunchData, LaunchInfo, MissionInfo, VidUrl};

fn vid(title: &str, priority: i64) -> VidUrl {
    VidUrl { priority, title: title.to_string(), url: format!("https://vid.example/{}", title) }
}

fn base_info() -> LaunchInfo {
    LaunchInfo {
        id: "abcd-1234".to_string(),
        name: "Demo Flight".to_string(),
        status: 1,
        mission: Some(MissionInfo {
            name: "Starlink Group".to_string(),
            mission_type: "Communications".to_string(),
            description: "A batch of satellites".to_string(),
        }),
        vid_urls: Some(vec![]),
        vehicle: "Falcon 9 Block 5".to_string(),
        pad: "SLC-40".to_string(),
        net: 1_700_000_000,
        window_start: 1_700_000_000,
        window_end: 1_700_007_200,
        image: None,
        lsp: "SpaceX".to_string(),
    }
}

#[test]
fn transform_maps_fields() {
    let info = base_info();
    let d = LaunchData::from(info);
    assert_eq!(d.id, 0);
    assert_eq!(d.ll_id, "abcd-1234");
    assert_eq!(d.launch_name, "Demo Flight");
    assert_eq!(d.status, 1);
    assert_eq!(d.payload, "Starlink Group");
    assert_eq!(d.vehicle, "Falcon 9 Block 5");
    assert_eq!(d.location, "SLC-40");
    assert_eq!(d.net, 1_700_000_000);
    assert_eq!(d.launch_window, 7200);
    assert_eq!(d.mission_type, "Communications");
    assert_eq!(d.mission_description, "A batch of satellites");
    assert_eq!(d.lsp, "SpaceX");
}

#[test]
fn transform_missing_mission_uses_sentinels() {
    let mut info = base_info();
    info.mission = None;
    let d = LaunchData::from(info);
    assert_eq!(d.payload, "payload unknown");
    assert_eq!(d.mission_type, "mission type unknown");
    assert_eq!(d.mission_description, "mission description unknown");
}

#[test]
fn transform_missing_vid_urls_is_empty() {
    let mut info = base_info();
    info.vid_urls = None;
    let d = LaunchData::from(info);
    assert!(d.vid_urls.is_empty());
}

#[test]
fn transform_dedups_titles_keeping_lowest_priority() {
    let mut info = base_info();
    info.vid_urls = Some(vec![
        vid("Webcast", 5),
        vid("Alt Stream", 3),
        vid("Webcast", 2),
        vid("Alt Stream", 7),
        vid("Backup", 9),
    ]);
    let d = LaunchData::from(info);
    assert_eq!(d.vid_urls.len(), 3);
    // sorted ascending by priority, exactly one entry per title
    assert_eq!(d.vid_urls[0].title, "Webcast");
    assert_eq!(d.vid_urls[0].priority, 2);
    assert_eq!(d.vid_urls[1].title, "Alt Stream");
    assert_eq!(d.vid_urls[1].priority, 3);
    assert_eq!(d.vid_urls[2].title, "Backup");
    assert_eq!(d.vid_urls[2].priority, 9);
}

#[test]
fn transform_sorts_by_priority() {
    let mut info = base_info();
    info.vid_urls = Some(vec![vid("C", 30), vid("A", 10), vid("B", 20)]);
    let d = LaunchData::from(info);
    let priorities: Vec<i64> = d.vid_urls.iter().map(|v| v.priority).collect();
    assert_eq!(priorities, vec![10, 20, 30]);
}
