use launch_reminders::cache::LaunchCache;
use launch_reminders::launches::{LaunchData, VidUrl};

fn record(ll_id: &str, net: i64) -> LaunchData {
    LaunchData {
        id: 0,
        ll_id: ll_id.to_string(),
        launch_name: format!("Launch {}", ll_id),
        status: 1,
        payload: "P".to_string(),
        vid_urls: Vec::<VidUrl>::new(),
        vehicle: "V".to_string(),
        location: "Pad".to_string(),
        net,
        launch_window: 0,
        rocket_img: None,
        mission_type: "T".to_string(),
        mission_description: "D".to_string(),
        lsp: "L".to_string(),
    }
}

#[test]
fn new_cache_is_empty_generation_zero() {
    let c = LaunchCache::new();
    assert_eq!(c.generation(), 0);
    assert!(c.snapshot().is_empty());
}

#[test]
fn replace_publishes_whole_generation() {
    let mut c = LaunchCache::new();
    c.replace(vec![record("a", 10), record("b", 20)]);
    assert_eq!(c.generation(), 1);
    let snap = c.snapshot();
    assert_eq!(snap.len(), 2);
    assert_eq!(snap[0].ll_id, "a");
    assert_eq!(snap[1].ll_id, "b");
}

#[test]
fn snapshot_never_mixes_generations() {
    // Each published generation carries a distinct marker in every record;
    // every snapshot must be uniform in that marker.
    let mut c = LaunchCache::new();
    for generation in 1..6i64 {
        let records: Vec<LaunchData> = (0..4)
            .map(|k| record(&format!("id-{}", k), generation * 100))
            .collect();
        c.replace(records);
        let snap = c.snapshot();
        assert_eq!(snap.len(), 4);
        assert!(snap.iter().all(|r| r.net == generation * 100));
        assert_eq!(c.generation() as i64, generation);
    }
}
