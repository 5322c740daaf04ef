use onvif_discovery::addr::Ipv4Addr;
use onvif_discovery::collector::{ProbeCollector, MAX_CONSECUTIVE_TIMEOUTS};
use onvif_discovery::discovery::{DiscoveredDevice, DiscoveryError, DiscoveryOptions};
use onvif_discovery::plan::{probe_plan, ProbeStep, ProbeTarget};
use onvif_discovery::probe::{convert_probe_match_to_device, device_with_ip, read_answer, Answer};
use onvif_discovery::probe_match::ProbeMatchInfo;
use onvif_discovery::subnet::{parse_subnet, subnet_hosts};
use onvif_discovery::time::Duration;

#[test]
fn test_convert_probe_match_to_device() {
    let probe_match = ProbeMatchInfo {
        endpoint_reference: "test-uuid-123".to_string(),
        types: vec!["dn:NetworkVideoTransmitter".to_string()],
        scopes: vec![
            "onvif://www.onvif.org/name/Hikvision".to_string(),
            "onvif://www.onvif.org/hardware/DS-2CD2143G0-I".to_string(),
            "onvif://www.onvif.org/MAC/68:6d:bc:5c:b1:5d".to_string(),
        ],
        x_addrs: vec!["http://192.168.1.100/onvif/device_service".to_string()],
        metadata_version: 10,
    };

    let response_time = Duration::from_millis(45);
    let discovered_at = Duration::from_millis(1_700_000_000_123);

    let device = convert_probe_match_to_device(probe_match, response_time, discovered_at)
        .expect("Should convert successfully");

    assert_eq!(device.uuid, "test-uuid-123");
    assert_eq!(device.manufacturer, "Hikvision");
    assert_eq!(device.model, "DS-2CD2143G0-I");
    assert_eq!(device.ip_address.to_string(), "192.168.1.100");
    assert_eq!(device.mac_address, Some("68:6d:bc:5c:b1:5d".to_string()));
    assert_eq!(
        device.device_service_url,
        "http://192.168.1.100/onvif/device_service"
    );
    assert_eq!(device.response_time, response_time.as_millis() as u64);
    assert_eq!(device.metadata_version, 10);

    assert_eq!(device.name, "Hikvision DS-2CD2143G0-I");
    assert_eq!(device.hardware_info, "Hikvision DS-2CD2143G0-I");
    assert_eq!(device.location, None);
    assert_eq!(device.types, vec!["dn:NetworkVideoTransmitter"]);
    assert_eq!(device.scopes.len(), 3);
    assert_eq!(device.discovered_at, 1_700_000_000_123);
}

#[test]
fn test_convert_probe_match_minimal() {
    let probe_match = ProbeMatchInfo {
        endpoint_reference: "minimal-uuid".to_string(),
        types: vec!["dn:NetworkVideoTransmitter".to_string()],
        scopes: vec![],
        x_addrs: vec!["http://192.168.1.200/onvif/device_service".to_string()],
        metadata_version: 1,
    };

    let response_time = Duration::from_millis(100);
    let discovered_at = Duration::from_secs(0);

    let device = convert_probe_match_to_device(probe_match, response_time, discovered_at)
        .expect("Should convert successfully");

    assert_eq!(device.uuid, "minimal-uuid");
    assert_eq!(device.manufacturer, "Unknown");
    assert_eq!(device.model, "Unknown");
    assert_eq!(device.name, "IP Camera");
    assert_eq!(device.ip_address.to_string(), "192.168.1.200");
    assert_eq!(device.mac_address, None);
}

#[test]
fn test_convert_probe_match_no_ip() {
    let probe_match = ProbeMatchInfo {
        endpoint_reference: "no-ip-uuid".to_string(),
        types: vec!["dn:NetworkVideoTransmitter".to_string()],
        scopes: vec![],
        x_addrs: vec!["invalid-url".to_string()],
        metadata_version: 1,
    };

    let response_time = Duration::from_millis(100);
    let discovered_at = Duration::from_secs(0);

    let result = convert_probe_match_to_device(probe_match, response_time, discovered_at);
    assert!(result.is_err());
    assert!(result
        .unwrap_err()
        .to_string()
        .contains("No valid IP address"));
}

#[test]
fn test_parse_subnet() {
    // Valid subnets
    let addrs = parse_subnet("192.168.1.0/24").unwrap();
    assert_eq!(addrs.len(), 254); // .1 to .254
    assert_eq!(addrs[0], Ipv4Addr::new(192, 168, 1, 1));
    assert_eq!(addrs[253], Ipv4Addr::new(192, 168, 1, 254));

    let addrs = parse_subnet("10.0.0.0/16").unwrap();
    assert_eq!(addrs.len(), 1024); // Limited to 1024 addresses

    // Invalid subnets
    assert!(parse_subnet("invalid").is_err());
    assert!(parse_subnet("192.168.1.0").is_err());
    assert!(parse_subnet("192.168.1.0/33").is_err());
    assert!(parse_subnet("192.168.1.0/8").is_err()); // Too large
}

#[test]
fn a_device_without_a_model_is_named_after_its_manufacturer() {
    let probe_match = ProbeMatchInfo {
        endpoint_reference: "u".to_string(),
        scopes: vec![
            "onvif://www.onvif.org/name/Axis".to_string(),
            "onvif://www.onvif.org/location/hall".to_string(),
        ],
        x_addrs: vec!["http://cam/".to_string(), "http://10.0.0.9/".to_string()],
        ..Default::default()
    };
    let device =
        convert_probe_match_to_device(probe_match, Duration::new(1, 999_999), Duration::new(2, 0))
            .unwrap();
    assert_eq!(device.name, "Axis");
    assert_eq!(device.hardware_info, "Axis Unknown");
    assert_eq!(device.location, Some("hall".to_string()));
    assert_eq!(device.device_service_url, "http://cam/");
    assert_eq!(device.ip_address, Ipv4Addr::new(10, 0, 0, 9));
    assert_eq!(device.response_time, 1000);
    assert_eq!(device.discovered_at, 2000);
}

#[test]
fn a_device_needs_an_address_of_its_service() {
    let result = device_with_ip(
        ProbeMatchInfo::default(),
        Some(Ipv4Addr::new(10, 0, 0, 1)),
        Duration::from_secs(0),
        Duration::from_secs(0),
    );
    match result {
        Err(DiscoveryError::InvalidResponse(m)) => assert_eq!(m, "No XAddrs found in probe match"),
        other => panic!("{:?}", other),
    }
}

fn subnet_error(subnet: &str) -> String {
    parse_subnet(subnet).unwrap_err().to_string()
}

#[test]
fn every_wrong_subnet_is_told_apart() {
    let cases = [
        ("invalid", "Invalid subnet format: invalid"),
        ("10.0.0.0/24/1", "Invalid subnet format: 10.0.0.0/24/1"),
        ("10.0.0/24", "Invalid IP address 10.0.0: invalid IPv4 address syntax"),
        ("10.0.0.0/", "Invalid prefix length : cannot parse integer from empty string"),
        ("10.0.0.0/x", "Invalid prefix length x: invalid digit found in string"),
        ("10.0.0.0/256", "Invalid prefix length 256: number too large to fit in target type"),
        ("10.0.0.0/33", "Invalid prefix length: 33"),
        ("10.0.0.0/15", "Subnet too large (use /16 or smaller)"),
    ];
    for (subnet, message) in cases {
        assert_eq!(subnet_error(subnet), format!("Invalid device response: {}", message));
    }
}

#[test]
fn small_subnets_leave_out_their_ends() {
    assert_eq!(parse_subnet("10.1.2.3/32").unwrap(), vec![Ipv4Addr::new(10, 1, 2, 3)]);
    assert!(parse_subnet("10.1.2.3/31").unwrap().is_empty());
    assert_eq!(
        parse_subnet("10.1.2.3/+30").unwrap(),
        vec![Ipv4Addr::new(10, 1, 2, 1), Ipv4Addr::new(10, 1, 2, 2)]
    );
    let hosts = subnet_hosts(Ipv4Addr::new(255, 255, 255, 255), 22).unwrap();
    assert_eq!(hosts.len(), 1022);
    assert_eq!(hosts[0], Ipv4Addr::new(255, 255, 252, 1));
    assert_eq!(hosts[1021], Ipv4Addr::new(255, 255, 255, 254));
    let hosts = subnet_hosts(Ipv4Addr::new(172, 16, 200, 1), 21).unwrap();
    assert_eq!(hosts.len(), 1024);
    assert_eq!(hosts[1023], Ipv4Addr::new(172, 16, 204, 0));
    assert!(hosts.windows(2).all(|w| w[0] < w[1]));
}

#[test]
fn a_plain_discovery_sends_three_multicast_probes() {
    let steps = probe_plan(&DiscoveryOptions::default());
    let group = Ipv4Addr::new(239, 255, 255, 250);
    assert_eq!(steps.len(), 5);
    for (i, step) in steps.iter().enumerate() {
        match step {
            ProbeStep::Send { address, target } => {
                assert_eq!(i % 2, 0);
                assert_eq!(*address, group);
                assert_eq!(*target, ProbeTarget::Multicast(i as u32 / 2 + 1));
            }
            ProbeStep::Pause(millis) => {
                assert_eq!(i % 2, 1);
                assert_eq!(*millis, 100);
            }
            ProbeStep::Report(_) => panic!("nothing to report"),
        }
    }
}

#[test]
fn subnets_are_probed_in_order_with_pauses() {
    let subnets = vec!["10.0.0.0/27".to_string(), "bad".to_string(), "10.9.9.9/32".to_string()];
    let steps = probe_plan(&DiscoveryOptions::for_subnets(subnets));
    let steps = &steps[5..];
    // 30 hosts, with a pause behind the eleventh and the twenty-first of them
    let mut sent = 0u32;
    for (i, step) in steps[..32].iter().enumerate() {
        match step {
            ProbeStep::Send { address, target } => {
                sent += 1;
                assert_eq!(address.bits, 0x0a00_0000 + sent);
                assert_eq!(*target, ProbeTarget::Subnet);
            }
            ProbeStep::Pause(millis) => {
                assert_eq!(*millis, 10);
                assert!(i == 11 || i == 22);
            }
            ProbeStep::Report(_) => panic!("nothing to report"),
        }
    }
    assert_eq!(sent, 30);
    match &steps[32] {
        ProbeStep::Report(message) => assert_eq!(
            message,
            "Failed to probe subnet bad: Invalid device response: Invalid subnet format: bad"
        ),
        other => panic!("{:?}", other),
    }
    match &steps[33] {
        ProbeStep::Send { address, target } => {
            assert_eq!(*address, Ipv4Addr::new(10, 9, 9, 9));
            assert_eq!(*target, ProbeTarget::Subnet);
        }
        other => panic!("{:?}", other),
    }
    match &steps[34] {
        ProbeStep::Send { address, target } => {
            assert_eq!(*address, Ipv4Addr::new(255, 255, 255, 255));
            assert_eq!(*target, ProbeTarget::Broadcast);
        }
        other => panic!("{:?}", other),
    }
    assert_eq!(steps.len(), 35);
}

fn device(uuid: &str, ip: [u8; 4], name: &str) -> DiscoveredDevice {
    DiscoveredDevice {
        uuid: uuid.to_string(),
        name: name.to_string(),
        manufacturer: String::new(),
        model: String::new(),
        ip_address: Ipv4Addr::new(ip[0], ip[1], ip[2], ip[3]),
        mac_address: None,
        device_service_url: String::new(),
        hardware_info: String::new(),
        location: None,
        types: vec![],
        scopes: vec![],
        metadata_version: 0,
        discovered_at: 0,
        response_time: 0,
    }
}

#[test]
fn devices_are_merged_by_identifier_and_sorted_by_address() {
    let mut collector = ProbeCollector::new(10);
    collector.receive("a", Answer::Device(device("u1", [10, 0, 0, 9], "first")));
    collector.receive("b", Answer::Device(device("u2", [9, 255, 0, 1], "second")));
    collector.receive("c", Answer::Device(device("u3", [192, 168, 0, 1], "third")));
    collector.receive("a", Answer::Device(device("u1", [10, 0, 0, 2], "again")));
    assert!(collector.wants_more());
    assert_eq!(collector.responses_received(), 4);
    let results = collector.finish();
    let found: Vec<(&str, &str)> =
        results.devices.iter().map(|d| (d.uuid.as_str(), d.name.as_str())).collect();
    assert_eq!(found, vec![("u2", "second"), ("u1", "again"), ("u3", "third")]);
    assert_eq!(results.responses_received, 4);
    assert!(results.errors.is_empty());
    assert!(results.devices.len() <= results.responses_received);
}

#[test]
fn the_collection_stops_at_the_wanted_number() {
    let mut collector = ProbeCollector::new(2);
    collector.receive("a", Answer::Device(device("u1", [10, 0, 0, 1], "")));
    collector.receive("a", Answer::Device(device("u1", [10, 0, 0, 1], "")));
    assert!(collector.wants_more());
    collector.receive("b", Answer::Device(device("u2", [10, 0, 0, 2], "")));
    assert!(!collector.wants_more());
    assert_eq!(collector.finish().devices.len(), 2);
    assert!(!ProbeCollector::new(0).wants_more());
}

#[test]
fn the_collection_stops_after_a_row_of_silent_waits() {
    let mut collector = ProbeCollector::new(10);
    for _ in 0..MAX_CONSECUTIVE_TIMEOUTS - 1 {
        collector.receive_nothing();
    }
    assert!(collector.wants_more());
    collector.receive_failed("refused");
    for _ in 0..MAX_CONSECUTIVE_TIMEOUTS - 1 {
        collector.receive_nothing();
    }
    assert!(collector.wants_more());
    collector.receive_nothing();
    assert!(!collector.wants_more());
    assert_eq!(collector.finish().errors, vec!["Socket receive error: refused"]);
    assert_eq!(MAX_CONSECUTIVE_TIMEOUTS, 5);
}

#[test]
fn everything_that_goes_wrong_is_noted() {
    let mut collector = ProbeCollector::new(10);
    collector.send_failed(ProbeTarget::Multicast(2), "no route");
    collector.send_failed(ProbeTarget::Subnet, "no route");
    collector.send_failed(ProbeTarget::Broadcast, "denied");
    collector.report("noted".to_string());
    let error = || DiscoveryError::InvalidResponse("empty".to_string());
    collector.receive("10.0.0.1:3702", Answer::Unreadable(error()));
    collector.receive("10.0.0.2:3702", Answer::Unusable(error()));
    let results = collector.finish();
    assert_eq!(
        results.errors,
        vec![
            "Failed to send multicast probe 2: no route",
            "Failed to send broadcast probe: Network error: denied",
            "noted",
            "Failed to parse response from 10.0.0.1:3702: Invalid device response: empty",
            "Failed to convert probe match from 10.0.0.2:3702: Invalid device response: empty",
        ]
    );
    assert_eq!(results.responses_received, 2);
    assert!(results.devices.is_empty());
}

#[test]
fn datagrams_are_read_and_collected() {
    let good = b"<ProbeMatch><Address>urn:uuid:u1</Address>\
        <XAddrs>http://10.0.0.1/onvif</XAddrs></ProbeMatch>";
    let no_ip = b"<ProbeMatch><Address>urn:uuid:u2</Address></ProbeMatch>";
    let junk = [0xff, 0xfe, b'x'];
    let mut collector = ProbeCollector::new(10);
    let (soon, now) = (Duration::from_millis(12), Duration::from_secs(1_700_000_000));
    collector.receive_datagram("10.0.0.1:3702", good, soon, now);
    collector.receive_datagram("10.0.0.2:3702", no_ip, soon, now);
    collector.receive_datagram("10.0.0.3:3702", &junk, soon, now);
    let results = collector.finish();
    assert_eq!(results.devices.len(), 1);
    assert_eq!(results.devices[0].uuid, "u1");
    assert_eq!(results.devices[0].response_time, 12);
    assert_eq!(results.devices[0].discovered_at, 1_700_000_000_000);
    assert_eq!(results.errors.len(), 2);
    assert_eq!(
        results.errors[0],
        "Failed to convert probe match from 10.0.0.2:3702: Invalid device response: \
         No valid IP address found in XAddrs"
    );
    assert!(results.errors[1].starts_with("Failed to parse response from 10.0.0.3:3702: "));
    let results = results.into_results(Duration::from_secs(5));
    assert_eq!(results.scan_duration, Duration::from_secs(5));
    assert_eq!(results.responses_received, 3);
    assert_eq!(results.devices.len(), 1);
    assert_eq!(results.errors.len(), 2);
}

#[test]
fn bytes_that_are_not_utf8_are_replaced() {
    let response = b"<ProbeMatch><Address>urn:uuid:a\xffb</Address>\
        <XAddrs>http://10.0.0.1/</XAddrs></ProbeMatch>";
    match read_answer(response, Duration::from_secs(0), Duration::from_secs(0)) {
        Answer::Device(device) => assert_eq!(device.uuid, "a\u{fffd}b"),
        other => panic!("{:?}", other),
    }
}
