use status_agent::cache::{
    load_cache, pre_read_cache, write_cache, CacheData, CacheError, ComponentCache,
    OutdatedError, VersionNotMatchError, CURRENT_VERSION,
};
use status_agent::cache::get_current_timestamp;
use status_agent::connlib::ServiceWrapper;
use status_agent::datastructures::ServerLastStatus;

fn entry(id: &str, status: &str) -> ComponentCache {
    ComponentCache { id: id.to_string(), last_status: status.to_string() }
}

fn snapshot(timestamp: u64, entries: Vec<ComponentCache>) -> CacheData {
    CacheData { version: CURRENT_VERSION, timestamp, data: entries }
}

#[test]
fn write_then_read_round_trips() {
    let data = snapshot(
        1000,
        vec![entry("alpha", "operational"), entry("beta", "major_outage")],
    );
    let text = write_cache(&data);
    let read = load_cache(&text, 1000).unwrap();
    assert_eq!(read.version, CURRENT_VERSION);
    assert_eq!(read.timestamp, 1000);
    assert_eq!(read.data.len(), 2);
    assert_eq!(read.data[0].id(), "alpha");
    assert_eq!(read.data[0].last_status(), "operational");
    assert_eq!(read.data[1].id(), "beta");
    assert_eq!(read.data[1].last_status(), "major_outage");
}

#[test]
fn round_trip_at_the_staleness_boundary() {
    let data = snapshot(1000, vec![entry("alpha", "operational")]);
    let text = write_cache(&data);
    // exactly 600 seconds old: still usable
    assert!(load_cache(&text, 1600).is_ok());
    // 601 seconds old: rejected as outdated
    assert!(matches!(load_cache(&text, 1601), Err(CacheError::Outdated(_))));
}

#[test]
fn version_mismatch_rejected_regardless_of_age() {
    let fresh = CacheData { version: 3, timestamp: 1000, data: vec![] };
    let text = write_cache(&fresh);
    match load_cache(&text, 1000) {
        Err(CacheError::VersionNotMatch(e)) => assert_eq!(e.current_version, 3),
        other => panic!("expected a version mismatch, got {:?}", other),
    }
    // even an ancient snapshot reports the version first
    match load_cache(&text, 1_000_000) {
        Err(CacheError::VersionNotMatch(e)) => assert_eq!(e.current_version, 3),
        other => panic!("expected a version mismatch, got {:?}", other),
    }
}

#[test]
fn empty_snapshot_round_trips() {
    let data = snapshot(42, vec![]);
    let text = write_cache(&data);
    assert_eq!(text, "{\"version\":2,\"timestamp\":42,\"data\":[]}");
    let read = load_cache(&text, 42).unwrap();
    assert!(read.data.is_empty());
}

#[test]
fn ids_with_quotes_and_backslashes_round_trip() {
    let data = snapshot(7, vec![entry("we\"ird\\id", "unknown")]);
    let text = write_cache(&data);
    let read = load_cache(&text, 7).unwrap();
    assert_eq!(read.data[0].id(), "we\"ird\\id");
}

#[test]
fn reader_accepts_whitespace_and_member_order() {
    let text = "  { \"timestamp\" : 50 , \"version\" : 2 ,\n \"data\" : [ { \"last_status\" : \"operational\" , \"id\" : \"a\" } ] }  ";
    let read = load_cache(text, 100).unwrap();
    assert_eq!(read.timestamp, 50);
    assert_eq!(read.data[0].id(), "a");
    assert_eq!(read.data[0].last_status(), "operational");
}

#[test]
fn reader_ignores_unknown_members() {
    let text = "{\"version\":2,\"extra\":{\"nested\":[1,2,\"x\"],\"flag\":true},\"timestamp\":9,\"note\":null,\"data\":[{\"id\":\"a\",\"weight\":1.5,\"last_status\":\"unknown\"}]}";
    let read = load_cache(text, 9).unwrap();
    assert_eq!(read.version, 2);
    assert_eq!(read.timestamp, 9);
    assert_eq!(read.data[0].id(), "a");
}

#[test]
fn unknown_member_strings_may_hold_brackets_and_escapes() {
    let text = "{\"version\":2,\"timestamp\":3,\"skip\":{\"s\":\"a}]\\\"x\",\"l\":[[{}],\"]\"]},\"data\":[]}";
    let read = load_cache(text, 3).unwrap();
    assert!(read.data.is_empty());
}

#[test]
fn pre_read_stops_at_header() {
    // the body after version and timestamp is never examined
    let text = "{\"version\":2,\"timestamp\":33,\"data\":[{\"id\":";
    let header = pre_read_cache(text).unwrap();
    assert_eq!(header.version(), 2);
    assert_eq!(header.timestamp(), 33);
}

#[test]
fn malformed_text_is_rejected() {
    assert!(matches!(load_cache("", 0), Err(CacheError::Malformed)));
    assert!(matches!(load_cache("not json", 0), Err(CacheError::Malformed)));
    assert!(matches!(load_cache("{\"version\":2}", 0), Err(CacheError::Malformed)));
    assert!(matches!(
        load_cache("{\"version\":2,\"timestamp\":1}", 1),
        Err(CacheError::Malformed)
    ));
    assert!(matches!(
        load_cache("{\"version\":2,\"timestamp\":1,\"data\":[{\"id\":\"a\"}]}", 1),
        Err(CacheError::Malformed)
    ));
    assert!(matches!(pre_read_cache("[1,2]"), Err(CacheError::Malformed)));
}

#[test]
fn snapshot_from_tracked_components() {
    let services = vec![
        ServiceWrapper::new(
            Vec::new(),
            ServerLastStatus::Outage,
            "one".to_string(),
            "p".to_string(),
        ),
        ServiceWrapper::new(
            Vec::new(),
            ServerLastStatus::Operational,
            "two".to_string(),
            "p".to_string(),
        ),
    ];
    let data = CacheData::from_services(&services, 555);
    assert_eq!(data.version, CURRENT_VERSION);
    assert_eq!(data.timestamp, 555);
    assert_eq!(data.data.len(), 2);
    assert_eq!(data.data[0].id(), "one");
    assert_eq!(data.data[0].last_status(), "major_outage");
    assert_eq!(data.data[1].id(), "two");
    assert_eq!(data.data[1].last_status(), "operational");
}

#[test]
fn component_cache_from_service() {
    let w = ServiceWrapper::new(
        Vec::new(),
        ServerLastStatus::DegradedPerformance,
        "svc".to_string(),
        "p".to_string(),
    );
    let c = ComponentCache::from_service(&w);
    assert_eq!(c.id(), "svc");
    assert_eq!(c.last_status(), "degraded_performance");
}

#[test]
fn error_messages_name_the_fault() {
    let header = pre_read_cache("{\"version\":7,\"timestamp\":1}").unwrap();
    let e = VersionNotMatchError::from_pre_read(&header);
    assert_eq!(e.current_version, 7);
    assert_eq!(e.message(), "Version not match, except 2 but 7 found");
    assert_eq!(OutdatedError::new().message(), "OutdatedError");
}

#[test]
fn clock_runs_past_the_epoch() {
    assert!(get_current_timestamp() > 1_600_000_000);
    assert!(status_agent::database::get_current_timestamp() > 1_600_000_000);
}
