use status_agent::datastructures::{ServerLastStatus, TransferData};
use status_agent::statuspagelib::{build_request_url, ComponentStatus};

#[test]
fn derive_empty_round_is_unknown() {
    assert_eq!(ServerLastStatus::from(vec![]), ServerLastStatus::Unknown);
}

#[test]
fn derive_all_true_is_operational() {
    assert_eq!(ServerLastStatus::from(vec![true]), ServerLastStatus::Operational);
    assert_eq!(
        ServerLastStatus::from(vec![true, true, true]),
        ServerLastStatus::Operational
    );
}

#[test]
fn derive_all_false_is_outage() {
    assert_eq!(ServerLastStatus::from(vec![false]), ServerLastStatus::Outage);
    assert_eq!(
        ServerLastStatus::from(vec![false, false, false]),
        ServerLastStatus::Outage
    );
}

#[test]
fn derive_two_addresses_mixed_is_partial_outage() {
    assert_eq!(
        ServerLastStatus::from(vec![true, false]),
        ServerLastStatus::PartialOutage
    );
    assert_eq!(
        ServerLastStatus::from(vec![false, true]),
        ServerLastStatus::PartialOutage
    );
}

#[test]
fn derive_three_addresses_two_healthy_is_degraded() {
    // n = 3 gives degraded_threshold = 3 / 3 * 2 = 2, and k = 2 reaches it
    assert_eq!(
        ServerLastStatus::from(vec![true, true, false]),
        ServerLastStatus::DegradedPerformance
    );
}

#[test]
fn derive_three_addresses_one_healthy_is_partial_outage() {
    assert_eq!(
        ServerLastStatus::from(vec![true, false, false]),
        ServerLastStatus::PartialOutage
    );
}

#[test]
fn status_wire_names_round_trip() {
    let all = [
        (ServerLastStatus::Operational, "operational"),
        (ServerLastStatus::Outage, "major_outage"),
        (ServerLastStatus::DegradedPerformance, "degraded_performance"),
        (ServerLastStatus::PartialOutage, "partial_outage"),
        (ServerLastStatus::Unknown, "unknown"),
    ];
    for (status, name) in all {
        assert_eq!(status.as_str(), name);
        assert_eq!(ServerLastStatus::from_str(name), status);
    }
}

#[test]
fn unrecognised_status_string_is_unknown() {
    assert_eq!(ServerLastStatus::from_str("flourishing"), ServerLastStatus::Unknown);
    assert_eq!(ServerLastStatus::from_str(""), ServerLastStatus::Unknown);
    assert_eq!(ServerLastStatus::from_str("OPERATIONAL"), ServerLastStatus::Unknown);
}

#[test]
fn component_status_wire_names() {
    let all = [
        (ComponentStatus::Operational, "operational"),
        (ComponentStatus::UnderMaintenance, "under_maintenance"),
        (ComponentStatus::DegradedPerformance, "degraded_performance"),
        (ComponentStatus::PartialOutage, "partial_outage"),
        (ComponentStatus::MajorOutage, "major_outage"),
    ];
    for (status, name) in all {
        assert_eq!(status.as_str(), name);
        assert_eq!(ComponentStatus::try_from(name).unwrap(), status);
    }
}

#[test]
fn component_status_rejects_unknown_string() {
    let err = ComponentStatus::try_from("sideways").unwrap_err();
    assert_eq!(err.value, "sideways");
}

#[test]
fn component_status_from_bool() {
    assert_eq!(ComponentStatus::from_bool(true), ComponentStatus::Operational);
    assert_eq!(ComponentStatus::from_bool(false), ComponentStatus::MajorOutage);
}

#[test]
fn component_status_of_confirmed_status() {
    assert_eq!(
        ComponentStatus::from_last_status(&ServerLastStatus::Operational),
        ComponentStatus::Operational
    );
    assert_eq!(
        ComponentStatus::from_last_status(&ServerLastStatus::DegradedPerformance),
        ComponentStatus::DegradedPerformance
    );
    assert_eq!(
        ComponentStatus::from_last_status(&ServerLastStatus::PartialOutage),
        ComponentStatus::PartialOutage
    );
    assert_eq!(
        ComponentStatus::from_last_status(&ServerLastStatus::Outage),
        ComponentStatus::MajorOutage
    );
}

#[test]
fn last_status_of_component_status() {
    assert_eq!(
        ServerLastStatus::from_component_status(&ComponentStatus::Operational),
        ServerLastStatus::Operational
    );
    assert_eq!(
        ServerLastStatus::from_component_status(&ComponentStatus::UnderMaintenance),
        ServerLastStatus::Outage
    );
    assert_eq!(
        ServerLastStatus::from_component_status(&ComponentStatus::MajorOutage),
        ServerLastStatus::Outage
    );
}

#[test]
fn request_url_shape() {
    assert_eq!(
        build_request_url("comp-1", "page-9"),
        "https://api.statuspage.io/v1/pages/page-9/components/comp-1"
    );
}

#[test]
fn transfer_data_carries_status() {
    let d = TransferData::new("operational".to_string());
    assert_eq!(d.status(), "operational");
    assert_eq!(TransferData::not_found().status(), "NOT_FOUND");
}
