use status_agent::configure::{Component, Service};
use status_agent::connlib::{
    banner_contains_ssh, outcome_as_healthy, probe_outcome, PingAbleService, ProbeEvent,
    ServiceType, ServiceWrapper, SSH_CLIENT_BANNER, TEAMSPEAK_HANDSHAKE,
};
use status_agent::datastructures::ServerLastStatus;

const ALL_KINDS: [ServiceType; 5] = [
    ServiceType::HTTP,
    ServiceType::SSH,
    ServiceType::TeamSpeak,
    ServiceType::Tcping,
    ServiceType::ICMP,
];

#[test]
fn timeout_is_unreachable_for_every_kind() {
    for kind in ALL_KINDS {
        assert_eq!(probe_outcome(kind, &ProbeEvent::TimedOut), Ok(false));
    }
}

#[test]
fn transient_connection_failures_are_unreachable_for_every_kind() {
    for kind in ALL_KINDS {
        assert_eq!(probe_outcome(kind, &ProbeEvent::ConnectionRefused), Ok(false));
        assert_eq!(probe_outcome(kind, &ProbeEvent::ConnectionReset), Ok(false));
        assert_eq!(probe_outcome(kind, &ProbeEvent::ConnectionAborted), Ok(false));
    }
}

#[test]
fn other_errors_propagate() {
    for kind in ALL_KINDS {
        assert!(probe_outcome(kind, &ProbeEvent::OtherError).is_err());
    }
}

#[test]
fn http_success_means_status_in_the_two_hundreds() {
    assert_eq!(probe_outcome(ServiceType::HTTP, &ProbeEvent::HttpStatus(200)), Ok(true));
    assert_eq!(probe_outcome(ServiceType::HTTP, &ProbeEvent::HttpStatus(204)), Ok(true));
    assert_eq!(probe_outcome(ServiceType::HTTP, &ProbeEvent::HttpStatus(299)), Ok(true));
    assert_eq!(probe_outcome(ServiceType::HTTP, &ProbeEvent::HttpStatus(199)), Ok(false));
    assert_eq!(probe_outcome(ServiceType::HTTP, &ProbeEvent::HttpStatus(300)), Ok(false));
    assert_eq!(probe_outcome(ServiceType::HTTP, &ProbeEvent::HttpStatus(404)), Ok(false));
    assert_eq!(probe_outcome(ServiceType::HTTP, &ProbeEvent::HttpStatus(500)), Ok(false));
}

#[test]
fn ssh_success_means_banner_contains_ssh() {
    let mut banner = [0u8; 64].to_vec();
    banner[..21].copy_from_slice(&SSH_CLIENT_BANNER);
    assert_eq!(probe_outcome(ServiceType::SSH, &ProbeEvent::Banner(banner)), Ok(true));
    assert_eq!(
        probe_outcome(ServiceType::SSH, &ProbeEvent::Banner(b"HTTP/1.1 200 OK".to_vec())),
        Ok(false)
    );
}

#[test]
fn banner_search_finds_the_substring_anywhere() {
    assert!(banner_contains_ssh(b"SSH-2.0-OpenSSH_8.7\r\n"));
    assert!(banner_contains_ssh(b"xxSSHxx"));
    assert!(banner_contains_ssh(b"xxxxSSH"));
    assert!(!banner_contains_ssh(b"SS"));
    assert!(!banner_contains_ssh(b""));
    assert!(!banner_contains_ssh(b"S-S-H"));
    assert!(!banner_contains_ssh(b"sshssh"));
}

#[test]
fn voice_query_success_means_nonempty_reply() {
    assert_eq!(probe_outcome(ServiceType::TeamSpeak, &ProbeEvent::UdpReply(0)), Ok(false));
    assert_eq!(probe_outcome(ServiceType::TeamSpeak, &ProbeEvent::UdpReply(12)), Ok(true));
}

#[test]
fn raw_tcp_success_means_connect_completed() {
    assert_eq!(probe_outcome(ServiceType::Tcping, &ProbeEvent::Connected), Ok(true));
}

#[test]
fn icmp_success_means_echo_reply() {
    assert_eq!(probe_outcome(ServiceType::ICMP, &ProbeEvent::IcmpEcho(true)), Ok(true));
    assert_eq!(probe_outcome(ServiceType::ICMP, &ProbeEvent::IcmpEcho(false)), Ok(false));
}

#[test]
fn infrastructure_errors_count_as_unreachable_in_a_round() {
    assert!(outcome_as_healthy(&Ok(true)));
    assert!(!outcome_as_healthy(&Ok(false)));
    assert!(!outcome_as_healthy(
        &probe_outcome(ServiceType::HTTP, &ProbeEvent::OtherError)
    ));
}

#[test]
fn wire_constants_as_documented() {
    assert_eq!(TEAMSPEAK_HANDSHAKE.len(), 34);
    assert_eq!(&TEAMSPEAK_HANDSHAKE[..8], b"TS3INIT1");
    assert_eq!(SSH_CLIENT_BANNER.to_vec(), b"SSH-2.0-OpenSSH_8.7\r\n".to_vec());
}

#[test]
fn service_kind_names_match_without_case() {
    let cases = [
        ("teamspeak", ServiceType::TeamSpeak),
        ("ts", ServiceType::TeamSpeak),
        ("TS", ServiceType::TeamSpeak),
        ("ssh", ServiceType::SSH),
        ("SSH", ServiceType::SSH),
        ("http", ServiceType::HTTP),
        ("HtTp", ServiceType::HTTP),
        ("tcping", ServiceType::Tcping),
        ("icmp", ServiceType::ICMP),
        ("ping", ServiceType::ICMP),
    ];
    for (name, kind) in cases {
        let service = Service::new("host:1".to_string(), name.to_string());
        let resolved = PingAbleService::try_from(&service).unwrap();
        assert_eq!(resolved.service_type(), kind);
        assert_eq!(resolved.remote_address(), "host:1");
    }
}

#[test]
fn unknown_service_kind_is_rejected_with_its_entry() {
    let service = Service::new("host:2".to_string(), "gopher".to_string());
    let err = PingAbleService::try_from(&service).unwrap_err();
    assert_eq!(err.service_type, "gopher");
    assert_eq!(err.address, "host:2");
}

#[test]
fn wrapper_resolves_every_address_or_rejects_the_component() {
    let good = Component::new_with_addresses(
        "u1".to_string(),
        "name".to_string(),
        "report-1".to_string(),
        "PageID".to_string(),
        vec![
            Service::new("a:80".to_string(), "http".to_string()),
            Service::new("a:22".to_string(), "ssh".to_string()),
        ],
    );
    let w = ServiceWrapper::new_with_last_status(&good, ServerLastStatus::Unknown).unwrap();
    assert_eq!(w.report_uuid(), "report-1");
    assert_eq!(w.page(), "pageid");
    assert_eq!(w.remote_address(), "a:80");
    assert!(!w.has_icmp_ping());
    assert!(!w.ongoing_recheck());

    let bad = Component::new_with_addresses(
        "u2".to_string(),
        "name".to_string(),
        "report-2".to_string(),
        "p".to_string(),
        vec![
            Service::new("a:80".to_string(), "http".to_string()),
            Service::new("a:0".to_string(), "carrier-pigeon".to_string()),
        ],
    );
    assert!(ServiceWrapper::new_with_last_status(&bad, ServerLastStatus::Unknown).is_err());
}

#[test]
fn wrapper_with_icmp_address_reports_it() {
    let c = Component::new_with_addresses(
        "u".to_string(),
        "n".to_string(),
        "r".to_string(),
        "p".to_string(),
        vec![Service::new("10.0.0.1".to_string(), "ping".to_string())],
    );
    let w = ServiceWrapper::new_with_last_status(&c, ServerLastStatus::Unknown).unwrap();
    assert!(w.has_icmp_ping());
}

#[test]
fn wrapper_without_addresses_names_itself_by_its_report_id() {
    let w = ServiceWrapper::new(
        Vec::new(),
        ServerLastStatus::Unknown,
        "lonely".to_string(),
        "p".to_string(),
    );
    assert_eq!(w.remote_address(), "lonely");
}
