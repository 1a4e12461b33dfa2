use roadwork::dataset::{
    apply_finished_status, is_stale, merge_datasets, plan_load, CachePlan, RoadworkData,
};
use roadwork::record::Roadwork;
use roadwork::sync::{Status, SyncData};

fn rec(id: &str, end: i64, status: Status, dirty: bool) -> Roadwork {
    Roadwork {
        id: id.to_string(),
        latitude: "48.85".to_string(),
        longitude: "2.34".to_string(),
        polygons: None,
        start: 100,
        end,
        road: String::new(),
        location_details: String::new(),
        impact_circulation_detail: String::new(),
        description: String::new(),
        url: String::new(),
        sync_data: SyncData { local_update_time: 1, server_update_time: 2, status, dirty },
    }
}

#[test]
fn dataset_keys_are_unique_last_record_wins() {
    let records = vec![
        rec("a", 10, Status::New, false),
        rec("b", 20, Status::Later, false),
        rec("a", 30, Status::Treated, false),
    ];
    let data = RoadworkData::new("paris", records, 1000);
    assert_eq!(data.source, "paris");
    assert_eq!(data.created, 1000);
    assert_eq!(data.roadworks.len(), 2);
    let a = data.roadworks.iter().find(|r| r.id == "a").unwrap();
    assert_eq!(a.end, 30);
    assert_eq!(a.sync_data.status, Status::Treated);
    let ids: Vec<&str> = data.roadworks.iter().map(|r| r.id.as_str()).collect();
    let mut deduped = ids.clone();
    deduped.sort();
    deduped.dedup();
    assert_eq!(deduped.len(), ids.len());
}

#[test]
fn merge_preserves_annotation() {
    let cached = RoadworkData::new(
        "paris",
        vec![rec("x", 10, Status::Treated, true)],
        1000,
    );
    let mut fresh_x = rec("x", 99, Status::New, false);
    fresh_x.road = "changed road".to_string();
    let fresh = RoadworkData::new("paris", vec![fresh_x, rec("w", 5, Status::New, false)], 2000);
    let merged = merge_datasets(&cached, fresh);
    assert_eq!(merged.created, 2000);
    let x = merged.roadworks.iter().find(|r| r.id == "x").unwrap();
    assert_eq!(x.sync_data.status, Status::Treated);
    assert!(!x.sync_data.dirty);
    assert_eq!(x.sync_data.local_update_time, 1);
    assert_eq!(x.sync_data.server_update_time, 2);
    // The payload fields come from the fresh fetch.
    assert_eq!(x.road, "changed road");
    assert_eq!(x.end, 99);
    // A record the cache never saw keeps its fresh annotation.
    let w = merged.roadworks.iter().find(|r| r.id == "w").unwrap();
    assert_eq!(w.sync_data.status, Status::New);
}

#[test]
fn merge_drops_vanished_records() {
    let cached = RoadworkData::new(
        "paris",
        vec![rec("y", 10, Status::Ignored, false), rec("x", 10, Status::New, false)],
        1000,
    );
    let fresh = RoadworkData::new("paris", vec![rec("x", 11, Status::New, false)], 2000);
    let merged = merge_datasets(&cached, fresh);
    assert_eq!(merged.roadworks.len(), 1);
    assert!(merged.roadworks.iter().all(|r| r.id != "y"));
}

#[test]
fn staleness_boundary() {
    let now: i64 = 1746113416000;
    // One second over the 24-hour window: stale.
    assert!(is_stale(now - 86400000 - 1000, now));
    // One second within the window: fresh.
    assert!(!is_stale(now - 86399000, now));
    // Exactly 24 hours: stale.
    assert!(is_stale(now - 86400000, now));
}

#[test]
fn plan_load_cases() {
    let now: i64 = 1746113416000;
    assert_eq!(plan_load(&None, now), CachePlan::FetchFresh);
    let fresh = RoadworkData::new("paris", vec![], now - 1000);
    assert_eq!(plan_load(&Some(fresh), now), CachePlan::UseCached);
    let stale = RoadworkData::new("paris", vec![], now - 86401000);
    assert_eq!(plan_load(&Some(stale), now), CachePlan::RefreshAndMerge);
}

#[test]
fn finished_promotion_forces_status() {
    let now: i64 = 1000000;
    let data = RoadworkData::new(
        "paris",
        vec![
            rec("past", now - 1, Status::Treated, false),
            rec("future", now + 60000, Status::Later, false),
            rec("open", 0, Status::New, false),
        ],
        now,
    );
    let promoted = apply_finished_status(data, now);
    let past = promoted.roadworks.iter().find(|r| r.id == "past").unwrap();
    assert_eq!(past.sync_data.status, Status::Finished);
    let future = promoted.roadworks.iter().find(|r| r.id == "future").unwrap();
    assert_eq!(future.sync_data.status, Status::Later);
    // An end of 0 is in the past, so an open-ended record is promoted too.
    let open = promoted.roadworks.iter().find(|r| r.id == "open").unwrap();
    assert_eq!(open.sync_data.status, Status::Finished);
}

#[test]
fn finished_promotion_reapplies_after_manual_reopen() {
    let now: i64 = 1000000;
    let data = RoadworkData::new("paris", vec![rec("past", now - 1, Status::New, false)], now);
    let promoted = apply_finished_status(data, now);
    assert_eq!(promoted.roadworks[0].sync_data.status, Status::Finished);
    // Reopen by hand, then load again: forced back to Finished.
    let mut reopened = promoted;
    reopened.update_status(&"past".to_string(), Status::New, 77);
    let promoted_again = apply_finished_status(reopened, now);
    assert_eq!(promoted_again.roadworks[0].sync_data.status, Status::Finished);
}

#[test]
fn update_status_marks_dirty() {
    let mut data = RoadworkData::new("paris", vec![rec("a", 10, Status::New, false)], 1000);
    let hit = data.update_status(&"a".to_string(), Status::Ignored, 42);
    assert!(hit);
    assert_eq!(data.roadworks[0].sync_data.status, Status::Ignored);
    assert!(data.roadworks[0].sync_data.dirty);
    assert_eq!(data.roadworks[0].sync_data.local_update_time, 42);
    assert_eq!(data.roadworks[0].sync_data.server_update_time, 2);
    let miss = data.update_status(&"zzz".to_string(), Status::Later, 43);
    assert!(!miss);
}

#[test]
fn sync_data_carry_forward() {
    let src = SyncData {
        local_update_time: 7,
        server_update_time: 8,
        status: Status::Treated,
        dirty: true,
    };
    let carried = SyncData::new_from(&src);
    assert_eq!(carried.local_update_time, 7);
    assert_eq!(carried.server_update_time, 8);
    assert_eq!(carried.status, Status::Treated);
    assert!(!carried.dirty);
}

#[test]
fn sync_data_copy_keeps_dirty() {
    let mut local = SyncData {
        local_update_time: 1,
        server_update_time: 2,
        status: Status::New,
        dirty: true,
    };
    let server = SyncData {
        local_update_time: 30,
        server_update_time: 40,
        status: Status::Finished,
        dirty: false,
    };
    local.copy(&server);
    assert_eq!(local.local_update_time, 30);
    assert_eq!(local.server_update_time, 40);
    assert_eq!(local.status, Status::Finished);
    assert!(local.dirty);
}

#[test]
fn sync_data_update_time_sets_both() {
    let mut sd = SyncData::default();
    sd.update_time(99);
    assert_eq!(sd.local_update_time, 99);
    assert_eq!(sd.server_update_time, 99);
}

#[test]
fn status_default_and_order() {
    assert_eq!(Status::default(), Status::New);
    assert!(Status::New < Status::Later);
    assert!(Status::Later < Status::Ignored);
    assert!(Status::Ignored < Status::Finished);
    assert!(Status::Finished < Status::Treated);
}
