use onvif_discovery::discovery::{
    DiscoveryError, DiscoveryOptions, DEFAULT_DISCOVERY_TIMEOUT, MAX_DISCOVERY_RESULTS,
    WS_DISCOVERY_MULTICAST_ADDR, WS_DISCOVERY_PORT,
};
use onvif_discovery::addr::Ipv4Addr;
use onvif_discovery::time::Duration;

#[test]
fn test_default_options() {
    let options = DiscoveryOptions::default();
    assert_eq!(options.timeout, Duration::from_secs(DEFAULT_DISCOVERY_TIMEOUT));
    assert_eq!(options.max_results, MAX_DISCOVERY_RESULTS);
    assert!(!options.include_ipv6);
    assert!(options.interfaces.is_empty());
    assert!(options.additional_subnets.is_empty());
    assert!(!options.use_broadcast);
    assert_eq!(options.multicast_ttl, 2);
}

#[test]
fn test_multi_subnet_options() {
    let subnets = vec!["192.168.1.0/24".to_string(), "192.168.3.0/24".to_string()];
    let options = DiscoveryOptions {
        additional_subnets: subnets.clone(),
        use_broadcast: true,
        multicast_ttl: 3,
        ..Default::default()
    };

    assert_eq!(options.additional_subnets, subnets);
    assert!(options.use_broadcast);
    assert_eq!(options.multicast_ttl, 3);
}

#[test]
fn constants_are_those_of_ws_discovery() {
    assert_eq!(DEFAULT_DISCOVERY_TIMEOUT, 5);
    assert_eq!(MAX_DISCOVERY_RESULTS, 100);
    assert_eq!(WS_DISCOVERY_PORT, 3702);
    let group = Ipv4Addr { bits: WS_DISCOVERY_MULTICAST_ADDR };
    assert_eq!(group, Ipv4Addr::new(239, 255, 255, 250));
    assert_eq!(group.to_string(), "239.255.255.250");
}

#[test]
fn options_for_subnets_broadcast_and_reach_further() {
    let subnets = vec!["192.168.1.0/24".to_string(), "192.168.3.0/24".to_string()];
    let options = DiscoveryOptions::for_subnets(subnets.clone());
    assert_eq!(options.additional_subnets, subnets);
    assert!(options.use_broadcast);
    assert_eq!(options.multicast_ttl, 3);
    assert_eq!(options.timeout, Duration::from_secs(5));
    assert_eq!(options.max_results, 100);
}

#[test]
fn a_custom_timeout_changes_nothing_else() {
    let options = DiscoveryOptions::with_timeout(Duration::from_millis(100));
    assert_eq!(options.timeout, Duration::from_millis(100));
    assert_eq!(options.max_results, 100);
    assert!(options.additional_subnets.is_empty());
    assert!(!options.use_broadcast);
    assert_eq!(options.multicast_ttl, 2);
}

#[test]
fn extended_options_name_the_common_subnets() {
    let options = DiscoveryOptions::extended();
    assert_eq!(options.timeout, Duration::from_secs(8));
    assert_eq!(
        options.additional_subnets,
        vec![
            "192.168.1.0/24",
            "192.168.2.0/24",
            "192.168.3.0/24",
            "192.168.0.0/24",
            "10.0.0.0/24",
            "10.0.1.0/24",
        ]
    );
    assert!(options.use_broadcast);
    assert_eq!(options.multicast_ttl, 3);
}

#[test]
fn options_for_one_subnet_wait_a_little_longer() {
    let options = DiscoveryOptions::for_subnet("192.168.3.0/24");
    assert_eq!(options.timeout, Duration::from_secs(6));
    assert_eq!(options.additional_subnets, vec!["192.168.3.0/24"]);
    assert!(options.use_broadcast);
    assert_eq!(options.multicast_ttl, 3);
    assert!(options.interfaces.is_empty());
}

#[test]
fn every_discovery_error_has_its_message() {
    let m = || "why".to_string();
    let messages = [
        (DiscoveryError::Network(m()), "Network error: why"),
        (DiscoveryError::XmlParsing(m()), "XML parsing error: why"),
        (DiscoveryError::InvalidResponse(m()), "Invalid device response: why"),
        (DiscoveryError::Timeout, "Discovery timeout"),
        (DiscoveryError::NoInterfaces, "No network interfaces available"),
    ];
    for (error, message) in messages {
        assert_eq!(error.to_string(), message);
    }
}

#[test]
fn durations_count_nanoseconds() {
    let d = Duration::new(3, 250_999_999);
    assert_eq!(d.as_secs(), 3);
    assert_eq!(d.subsec_nanos(), 250_999_999);
    assert_eq!(d.as_millis(), 3250);
    assert_eq!(d.millis_u64(), 3250);
    assert_eq!(Duration::from_millis(1999).as_secs(), 1);
    assert_eq!(Duration::from_millis(1999).subsec_nanos(), 999_000_000);
    let long = Duration::from_secs(u64::MAX);
    assert_eq!(long.as_millis(), u64::MAX as u128 * 1000);
    assert_eq!(long.millis_u64(), (u64::MAX as u128 * 1000) as u64);
}
