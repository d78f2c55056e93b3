use status_agent::connlib::ServiceWrapper;
use status_agent::datastructures::ServerLastStatus;
use status_agent::scheduler::apply_results;

fn wrapper(status: ServerLastStatus) -> ServiceWrapper {
    ServiceWrapper::new(
        Vec::new(),
        status,
        "component-1".to_string(),
        "page-1".to_string(),
    )
}

#[test]
fn three_disagreeing_rounds_flip_with_threshold_two() {
    let mut w = wrapper(ServerLastStatus::Operational);
    assert!(!w.update_last_status_condition(ServerLastStatus::Outage, 2));
    assert_eq!(*w.last_status(), ServerLastStatus::Operational);
    assert!(w.ongoing_recheck());
    assert!(!w.update_last_status_condition(ServerLastStatus::Outage, 2));
    assert_eq!(*w.last_status(), ServerLastStatus::Operational);
    assert!(w.update_last_status_condition(ServerLastStatus::Outage, 2));
    assert_eq!(*w.last_status(), ServerLastStatus::Outage);
    assert!(!w.ongoing_recheck());
}

#[test]
fn agreeing_round_resets_counter_without_transition() {
    let mut w = wrapper(ServerLastStatus::Operational);
    assert!(!w.update_last_status_condition(ServerLastStatus::Outage, 2));
    assert!(!w.update_last_status_condition(ServerLastStatus::Outage, 2));
    // two disagreeing rounds, then one agreeing round
    assert!(!w.update_last_status_condition(ServerLastStatus::Operational, 2));
    assert_eq!(*w.last_status(), ServerLastStatus::Operational);
    assert!(!w.ongoing_recheck());
    // the run starts over: two more disagreeing rounds still do not flip
    assert!(!w.update_last_status_condition(ServerLastStatus::Outage, 2));
    assert!(!w.update_last_status_condition(ServerLastStatus::Outage, 2));
    assert_eq!(*w.last_status(), ServerLastStatus::Operational);
}

#[test]
fn reapplying_same_status_is_idempotent() {
    let mut w = wrapper(ServerLastStatus::Operational);
    for _ in 0..10 {
        assert!(!w.update_last_status_condition(ServerLastStatus::Operational, 2));
        assert_eq!(*w.last_status(), ServerLastStatus::Operational);
        assert!(!w.ongoing_recheck());
    }
}

#[test]
fn reset_count_ends_ongoing_recheck() {
    let mut w = wrapper(ServerLastStatus::Operational);
    w.update_last_status_condition(ServerLastStatus::Outage, 3);
    assert!(w.ongoing_recheck());
    w.reset_count();
    assert!(!w.ongoing_recheck());
    assert_eq!(*w.last_status(), ServerLastStatus::Operational);
}

#[test]
fn outage_confirmed_after_third_sub_round_and_reported_once() {
    // one HTTP component, retries_times = 3, confirmation_threshold = 2
    let mut services = vec![wrapper(ServerLastStatus::Operational)];
    let mut reports = Vec::new();

    for sub_round in 0..3 {
        let results = vec![Some(ServerLastStatus::Outage)];
        let events = apply_results(&mut services, &results, 2);
        if sub_round < 2 {
            assert!(events.is_empty());
            assert_eq!(*services[0].last_status(), ServerLastStatus::Operational);
        }
        reports.extend(events);
    }

    assert_eq!(*services[0].last_status(), ServerLastStatus::Outage);
    assert_eq!(reports.len(), 1);
    assert_eq!(reports[0].status, ServerLastStatus::Outage);
    assert_eq!(reports[0].report_uuid, "component-1");
    assert_eq!(reports[0].page, "page-1");
}

#[test]
fn skipped_components_stay_untouched() {
    let mut services = vec![
        wrapper(ServerLastStatus::Operational),
        wrapper(ServerLastStatus::Outage),
    ];
    let results = vec![None, Some(ServerLastStatus::Outage)];
    let events = apply_results(&mut services, &results, 2);
    assert!(events.is_empty());
    assert_eq!(*services[0].last_status(), ServerLastStatus::Operational);
    assert!(!services[0].ongoing_recheck());
    // the second component agreed, so its counter stays at zero
    assert!(!services[1].ongoing_recheck());
}

#[test]
fn zero_threshold_confirms_immediately() {
    let mut w = wrapper(ServerLastStatus::Operational);
    assert!(w.update_last_status_condition(ServerLastStatus::PartialOutage, 0));
    assert_eq!(*w.last_status(), ServerLastStatus::PartialOutage);
}
