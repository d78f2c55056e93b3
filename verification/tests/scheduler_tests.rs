use status_agent::cache::ComponentCache;
use status_agent::configure::{Component, Service};
use status_agent::connlib::ServiceWrapper;
use status_agent::datastructures::ServerLastStatus;
use status_agent::scheduler::{
    build_tracked, cache_status_for, reset_all_counts, should_probe,
};

fn http_component(report_id: &str) -> Component {
    Component::new_with_addresses(
        format!("uuid-{}", report_id),
        format!("name-{}", report_id),
        report_id.to_string(),
        "page".to_string(),
        vec![Service::new("host:80".to_string(), "http".to_string())],
    )
}

fn cache_entry(id: &str, status: &str) -> ComponentCache {
    ComponentCache { id: id.to_string(), last_status: status.to_string() }
}

#[test]
fn first_sub_round_probes_everything() {
    let settled = ServiceWrapper::new(
        Vec::new(),
        ServerLastStatus::Operational,
        "a".to_string(),
        "p".to_string(),
    );
    assert!(should_probe(&settled, true));
    assert!(!should_probe(&settled, false));
}

#[test]
fn later_sub_rounds_probe_only_ongoing_rechecks() {
    let mut w = ServiceWrapper::new(
        Vec::new(),
        ServerLastStatus::Operational,
        "a".to_string(),
        "p".to_string(),
    );
    w.update_last_status_condition(ServerLastStatus::Outage, 5);
    assert!(should_probe(&w, false));
}

#[test]
fn cycle_boundary_forgives_pending_counters() {
    let mut services = vec![
        ServiceWrapper::new(Vec::new(), ServerLastStatus::Operational, "a".to_string(), "p".to_string()),
        ServiceWrapper::new(Vec::new(), ServerLastStatus::Operational, "b".to_string(), "p".to_string()),
    ];
    services[0].update_last_status_condition(ServerLastStatus::Outage, 5);
    services[1].update_last_status_condition(ServerLastStatus::Outage, 5);
    reset_all_counts(&mut services);
    assert!(!services[0].ongoing_recheck());
    assert!(!services[1].ongoing_recheck());
    assert_eq!(*services[0].last_status(), ServerLastStatus::Operational);
}

#[test]
fn cache_lookup_finds_the_first_matching_entry() {
    let cache = vec![
        cache_entry("a", "operational"),
        cache_entry("b", "major_outage"),
        cache_entry("b", "operational"),
    ];
    assert_eq!(cache_status_for(&cache, "a"), Some(ServerLastStatus::Operational));
    assert_eq!(cache_status_for(&cache, "b"), Some(ServerLastStatus::Outage));
    assert_eq!(cache_status_for(&cache, "c"), None);
}

#[test]
fn fresh_cache_entry_seeds_status_and_skips_initial_probe() {
    let components = vec![http_component("warm-one"), http_component("cold-one")];
    let cache = vec![cache_entry("warm-one", "major_outage")];
    let start = build_tracked(&components, &cache);

    assert_eq!(start.services.len(), 2);
    // the cached component starts at its cached status, marked warm
    assert_eq!(*start.services[0].last_status(), ServerLastStatus::Outage);
    assert!(start.warm[0]);
    // the other starts cold at Unknown and needs a live determination
    assert_eq!(*start.services[1].last_status(), ServerLastStatus::Unknown);
    assert!(!start.warm[1]);
}

#[test]
fn component_with_unknown_probe_kind_is_dropped() {
    let bad = Component::new_with_addresses(
        "u".to_string(),
        "n".to_string(),
        "bad".to_string(),
        "p".to_string(),
        vec![Service::new("x".to_string(), "telegraph".to_string())],
    );
    let components = vec![http_component("good"), bad];
    let start = build_tracked(&components, &Vec::new());
    assert_eq!(start.services.len(), 1);
    assert_eq!(start.services[0].report_uuid(), "good");
}

#[test]
fn warm_start_carries_addresses_and_lowercased_page() {
    let mut c = http_component("r1");
    c.page = "PageId".to_string();
    let start = build_tracked(&vec![c], &Vec::new());
    assert_eq!(start.services[0].page(), "pageid");
    assert_eq!(start.services[0].remote_address(), "host:80");
    assert!(!start.services[0].ongoing_recheck());
}
