use roadwork::dataset::RoadworkData;
use roadwork::dates::{DateParser, Parser};
use roadwork::descriptor::{Metadata, ServiceDescriptor, Settings};
use roadwork::errors::FetchError;
use roadwork::fetch::{build_url, parse_dataset};
use roadwork::sync::{Status, SyncData};
use roadwork::sync_client::{apply_server_response, prepare_sync};

fn metadata(url: &str, params: Option<Vec<(String, String)>>) -> Metadata {
    Metadata {
        country: "France".to_string(),
        source_url: String::new(),
        url: url.to_string(),
        name: "Paris".to_string(),
        producer: None,
        licence_name: None,
        licence_url: None,
        locale: Some("fr_FR".to_string()),
        url_params: params,
        editor_pattern: None,
    }
}

fn epoch_rules(path: &str) -> DateParser {
    DateParser {
        path: path.to_string(),
        parsers: vec![Parser {
            matcher: String::from(r"\d+"),
            format: None,
            add_year: false,
            reset_hour: false,
        }],
    }
}

fn descriptor() -> ServiceDescriptor {
    ServiceDescriptor {
        metadata: metadata("http://example.test/api", None),
        id: "$.id".to_string(),
        latitude: Some("$.lat".to_string()),
        longitude: Some("$.lon".to_string()),
        polygon: None,
        road: Some("$.road".to_string()),
        description: None,
        location_details: None,
        impact_circulation_detail: None,
        from: Some(epoch_rules("$.from")),
        to: Some(epoch_rules("$.to")),
        roadwork_array: "$.records".to_string(),
        url: None,
    }
}

#[test]
fn url_building_without_query() {
    let params = vec![("a".to_string(), "1".to_string()), ("b".to_string(), "2".to_string())];
    let m = metadata("http://example.test/api", Some(params));
    assert_eq!(build_url(&m), "http://example.test/api?a=1&b=2");
}

#[test]
fn url_building_with_query() {
    let params = vec![("a".to_string(), "1".to_string()), ("b".to_string(), "2".to_string())];
    let m = metadata("http://example.test/api?rows=10", Some(params));
    assert_eq!(build_url(&m), "http://example.test/api?rows=10&a=1&b=2");
}

#[test]
fn url_building_percent_encodes_values() {
    let params = vec![("q".to_string(), "a b".to_string())];
    let m = metadata("http://example.test/api", Some(params));
    assert_eq!(build_url(&m), "http://example.test/api?q=a%20b");
}

#[test]
fn url_building_without_params() {
    let m = metadata("http://example.test/api", None);
    assert_eq!(build_url(&m), "http://example.test/api");
}

#[test]
fn get_locale_falls_back_to_paris() {
    let m = metadata("http://example.test", None);
    assert_eq!(m.get_locale(), "Europe/Paris");
    let mut known = metadata("http://example.test", None);
    known.locale = Some("Europe/Berlin".to_string());
    assert_eq!(known.get_locale(), "Europe/Berlin");
    let mut absent = metadata("http://example.test", None);
    absent.locale = None;
    assert_eq!(absent.get_locale(), "Europe/Paris");
}

#[test]
fn parse_dataset_filters_invalid_and_keeps_last_duplicate() {
    let body = r#"{
        "records": [
            {"id": "a", "lat": 48.1, "lon": 2.3, "road": "R1", "from": "1746113416", "to": "1746113500"},
            {"id": "b", "lat": 0.0, "lon": 0.0, "from": "1746113416"},
            {"id": "a", "lat": 49.0, "lon": 3.0, "from": "1746113416"},
            {"id": "c", "lat": 48.2, "lon": 2.4}
        ]
    }"#;
    let data = parse_dataset(&descriptor(), "paris", body, 5000, 2025).unwrap();
    assert_eq!(data.source, "paris");
    assert_eq!(data.created, 5000);
    // "b" is invalid at (0,0); "c" has no start date; the later "a" wins.
    assert_eq!(data.roadworks.len(), 1);
    let a = &data.roadworks[0];
    assert_eq!(a.id, "a");
    assert_eq!(a.latitude, "49.0");
    assert_eq!(a.longitude, "3.0");
    assert_eq!(a.start, 1746113416000);
    // No "to" field in the record that won: the range is open-ended.
    assert_eq!(a.end, 0);
    assert_eq!(a.sync_data.status, Status::New);
    assert!(!a.sync_data.dirty);
}

#[test]
fn parse_dataset_reads_fields() {
    let body = r#"{
        "records": [
            {"id": "a", "lat": 48.1, "lon": 2.3, "road": "Rue X", "from": "1746113416", "to": "1746113500"}
        ]
    }"#;
    let data = parse_dataset(&descriptor(), "paris", body, 5000, 2025).unwrap();
    let a = &data.roadworks[0];
    assert_eq!(a.road, "Rue X");
    assert_eq!(a.latitude, "48.1");
    assert_eq!(a.start, 1746113416000);
    assert_eq!(a.end, 1746113500000);
    // Unconfigured optional fields stay empty.
    assert_eq!(a.description, "");
    assert_eq!(a.url, "");
}

#[test]
fn parse_dataset_rejects_malformed_body() {
    assert_eq!(
        parse_dataset(&descriptor(), "paris", "not json at all {", 0, 2025),
        Err(FetchError::MalformedJson)
    );
}

#[test]
fn parse_dataset_rejects_missing_root() {
    let body = r#"{"other": []}"#;
    assert_eq!(
        parse_dataset(&descriptor(), "paris", body, 0, 2025),
        Err(FetchError::RootNotFound)
    );
    // The root path resolves to something that is not an array.
    let body = r#"{"records": 5}"#;
    assert_eq!(
        parse_dataset(&descriptor(), "paris", body, 0, 2025),
        Err(FetchError::RootNotFound)
    );
}

fn rec(id: &str, status: Status, dirty: bool) -> roadwork::record::Roadwork {
    roadwork::record::Roadwork {
        id: id.to_string(),
        latitude: "48.0".to_string(),
        longitude: "2.0".to_string(),
        polygons: None,
        start: 0,
        end: 0,
        road: String::new(),
        location_details: String::new(),
        impact_circulation_detail: String::new(),
        description: String::new(),
        url: String::new(),
        sync_data: SyncData { local_update_time: 1, server_update_time: 2, status, dirty },
    }
}

fn settings(enabled: bool) -> Settings {
    Settings {
        opendata_service: "paris".to_string(),
        synchronization_url: "http://sync.test".to_string(),
        synchronization_team: "team1".to_string(),
        synchronization_enabled: enabled,
        synchronization_login: "login".to_string(),
        synchronization_password: "password".to_string(),
        hide_expired: false,
    }
}

#[test]
fn prepare_sync_disabled_is_noop() {
    let data = RoadworkData::new("paris", vec![rec("a", Status::New, false)], 0);
    assert!(prepare_sync(&data, &settings(false)).is_none());
}

#[test]
fn prepare_sync_builds_request() {
    let data = RoadworkData::new(
        "paris",
        vec![rec("a", Status::Treated, true), rec("b", Status::New, false)],
        0,
    );
    let req = prepare_sync(&data, &settings(true)).unwrap();
    assert_eq!(req.url, "http://sync.test/setData/team1/paris");
    // base64("login:password")
    assert_eq!(req.auth_header, "Basic bG9naW46cGFzc3dvcmQ=");
    assert_eq!(req.body.len(), 2);
    let a = req.body.iter().find(|e| e.0 == "a").unwrap();
    assert_eq!(a.1.status, Status::Treated);
}

#[test]
fn server_response_overwrites_matched_records() {
    let data = RoadworkData::new(
        "paris",
        vec![rec("a", Status::New, true), rec("b", Status::Later, false)],
        0,
    );
    let response = vec![
        (
            "a".to_string(),
            SyncData {
                local_update_time: 30,
                server_update_time: 40,
                status: Status::Finished,
                dirty: false,
            },
        ),
        (
            "zzz".to_string(),
            SyncData {
                local_update_time: 1,
                server_update_time: 1,
                status: Status::Ignored,
                dirty: false,
            },
        ),
    ];
    let merged = apply_server_response(data, &response);
    let a = merged.roadworks.iter().find(|r| r.id == "a").unwrap();
    assert_eq!(a.sync_data.status, Status::Finished);
    assert_eq!(a.sync_data.local_update_time, 30);
    assert_eq!(a.sync_data.server_update_time, 40);
    // The dirty flag is local state; the server does not clear it.
    assert!(a.sync_data.dirty);
    // Unmatched local records are untouched; unmatched server entries ignored.
    let b = merged.roadworks.iter().find(|r| r.id == "b").unwrap();
    assert_eq!(b.sync_data.status, Status::Later);
    assert_eq!(merged.roadworks.len(), 2);
}
