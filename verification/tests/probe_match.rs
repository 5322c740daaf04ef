use onvif_discovery::addr::Ipv4Addr;
use onvif_discovery::discovery::DiscoveryError;
use onvif_discovery::probe_match::{
    parse_probe_match_response, probe_match_from_events, ProbeMatchInfo,
};
use onvif_discovery::scopes::{
    extract_ip_from_xaddrs, extract_location_from_scopes, extract_mac_address_from_scopes,
    extract_manufacturer_from_scopes, extract_model_from_scopes, first_ip,
};
use onvif_discovery::xml::XmlEvent;

#[test]
fn test_extract_manufacturer_from_scopes() {
    let scopes = vec![
        "onvif://www.onvif.org/name/Hikvision".to_string(),
        "onvif://www.onvif.org/hardware/DS-2CD2143G0-I".to_string(),
    ];

    let manufacturer = extract_manufacturer_from_scopes(&scopes);
    assert_eq!(manufacturer, "Hikvision");
}

#[test]
fn test_extract_model_from_scopes() {
    let scopes = vec!["onvif://www.onvif.org/hardware/DS-2CD2143G0-I".to_string()];

    let model = extract_model_from_scopes(&scopes);
    assert_eq!(model, "DS-2CD2143G0-I");
}

#[test]
fn test_extract_mac_address_from_scopes() {
    let scopes = vec!["onvif://www.onvif.org/MAC/68:6d:bc:5c:b1:5d".to_string()];

    let mac = extract_mac_address_from_scopes(&scopes);
    assert_eq!(mac, Some("68:6d:bc:5c:b1:5d".to_string()));
}

#[test]
fn test_extract_ip_from_xaddrs() {
    let x_addrs = vec!["http://192.168.1.100/onvif/device_service".to_string()];

    let ip = extract_ip_from_xaddrs(&x_addrs);
    assert_eq!(ip, Some(Ipv4Addr::parse("192.168.1.100").unwrap()));
}

#[test]
fn test_parse_probe_match_minimal() {
    let xml = r#"<?xml version="1.0" encoding="UTF-8"?>
<soap:Envelope xmlns:soap="http://www.w3.org/2003/05/soap-envelope">
    <soap:Body>
        <ProbeMatches>
            <ProbeMatch>
                <EndpointReference>
                    <Address>urn:uuid:test-uuid</Address>
                </EndpointReference>
                <Types>dn:NetworkVideoTransmitter</Types>
                <XAddrs>http://192.168.1.100/onvif/device_service</XAddrs>
                <MetadataVersion>1</MetadataVersion>
            </ProbeMatch>
        </ProbeMatches>
    </soap:Body>
</soap:Envelope>"#;

    let result = parse_probe_match_response(xml);
    assert!(result.is_ok());

    let probe_match = result.unwrap();
    assert_eq!(probe_match.endpoint_reference, "test-uuid");
    assert_eq!(probe_match.types, vec!["dn:NetworkVideoTransmitter"]);
    assert_eq!(
        probe_match.x_addrs,
        vec!["http://192.168.1.100/onvif/device_service"]
    );
    assert_eq!(probe_match.metadata_version, 1);
}

#[test]
fn test_parse_geovision_probe_match() {
    let xml = r#"<?xml version="1.0" encoding="UTF-8"?>
<SOAP-ENV:Envelope xmlns:SOAP-ENV="http://www.w3.org/2003/05/soap-envelope" xmlns:wsa="http://schemas.xmlsoap.org/ws/2004/08/addressing" xmlns:tns="http://schemas.xmlsoap.org/ws/2005/04/discovery" xmlns:dn="http://www.onvif.org/ver10/network/wsdl" xmlns:tds="http://www.onvif.org/ver10/device/wsdl">
    <SOAP-ENV:Header>
        <wsa:MessageID>urn:uuid:7f9d2e5e-0001-1020-8000-0013e22b41d4</wsa:MessageID>
        <wsa:To>http://schemas.xmlsoap.org/ws/2004/08/addressing/role/anonymous</wsa:To>
    </SOAP-ENV:Header>
    <SOAP-ENV:Body>
        <tns:ProbeMatches>
            <tns:ProbeMatch>
                <wsa:EndpointReference>
                    <wsa:Address>urn:uuid:00010010-0001-1020-8000-0013e22b41d4</wsa:Address>
                </wsa:EndpointReference>
                <tns:Types>dn:NetworkVideoTransmitter tds:Device</tns:Types>
                <tns:Scopes>onvif://www.onvif.org/type/video_encoder onvif://www.onvif.org/name/GeoVision_2
                    onvif://www.onvif.org/hardware/GV-TBL8804 onvif://www.onvif.org/location/</tns:Scopes>
                <tns:XAddrs>http://192.168.3.110:80/onvif/device_service</tns:XAddrs>
                <tns:MetadataVersion>1</tns:MetadataVersion>
            </tns:ProbeMatch>
        </tns:ProbeMatches>
    </SOAP-ENV:Body>
</SOAP-ENV:Envelope>"#;

    let result = parse_probe_match_response(xml);
    assert!(result.is_ok());

    let probe_match = result.unwrap();
    assert_eq!(
        probe_match.endpoint_reference,
        "00010010-0001-1020-8000-0013e22b41d4"
    );
    assert_eq!(
        probe_match.types,
        vec!["dn:NetworkVideoTransmitter", "tds:Device"]
    );
    assert_eq!(
        probe_match.x_addrs,
        vec!["http://192.168.3.110:80/onvif/device_service"]
    );
    assert_eq!(probe_match.metadata_version, 1);

    // Test manufacturer extraction
    let manufacturer = extract_manufacturer_from_scopes(&probe_match.scopes);
    assert_eq!(manufacturer, "GeoVision_2");

    let model = extract_model_from_scopes(&probe_match.scopes);
    assert_eq!(model, "GV-TBL8804");
}

fn strings(items: &[&str]) -> Vec<String> {
    items.iter().map(|s| s.to_string()).collect()
}

#[test]
fn manufacturers_are_found_in_every_form() {
    let cases: [(&[&str], &str); 10] = [
        (&[], "Unknown"),
        (&["onvif://www.onvif.org/type/video_encoder"], "Unknown"),
        (&["onvif://www.onvif.org/manufacturer/Axis"], "Axis"),
        (&["onvif://www.onvif.org/company/Bosch"], "Bosch"),
        (&["onvif://www.onvif.org/hardware/ACME/Cam/1"], "ACME"),
        (&["urn:vendor=ACME=x"], "ACME"),
        (&["http://example.org/manufacturer/ACME"], "ACME"),
        (&["urn:vendor=ACME", "onvif://www.onvif.org/name/Axis"], "Axis"),
        (&["onvif://www.onvif.org/name/A", "onvif://www.onvif.org/company/B"], "A"),
        (&["x-company"], "x-company"),
    ];
    for (scopes, expected) in cases {
        assert_eq!(extract_manufacturer_from_scopes(&strings(scopes)), expected);
    }
}

#[test]
fn models_are_found_in_every_form() {
    let cases: [(&[&str], &str); 6] = [
        (&[], "Unknown"),
        (&["onvif://www.onvif.org/hardware/ACME/Cam/1"], "ACME/Cam/1"),
        (&["urn:model=X1"], "X1"),
        (&["http://example.org/model/X2"], "X2"),
        (&["urn:model=X1", "onvif://www.onvif.org/hardware/H"], "X1"),
        (&["onvif://www.onvif.org/hardware/H", "urn:model=X1"], "H"),
    ];
    for (scopes, expected) in cases {
        assert_eq!(extract_model_from_scopes(&strings(scopes)), expected);
    }
}

#[test]
fn locations_and_mac_addresses_may_be_missing() {
    let scopes = strings(&["onvif://www.onvif.org/location/hall", "onvif://www.onvif.org/MAC/1"]);
    assert_eq!(extract_location_from_scopes(&scopes), Some("hall".to_string()));
    assert_eq!(extract_mac_address_from_scopes(&scopes), Some("1".to_string()));
    assert_eq!(extract_location_from_scopes(&[]), None);
    assert_eq!(extract_mac_address_from_scopes(&scopes[..1]), None);
}

#[test]
fn the_first_ipv4_address_is_taken() {
    let address = |s: &str| Ipv4Addr::parse(s);
    let ip = |urls: &[&str]| extract_ip_from_xaddrs(&strings(urls));
    assert_eq!(ip(&[]), None);
    assert_eq!(ip(&["invalid-url"]), None);
    assert_eq!(ip(&["http://camera.local/onvif"]), None);
    assert_eq!(ip(&["http://[fe80::1]/onvif", "http://10.0.0.7:8080/x"]), address("10.0.0.7"));
    assert_eq!(ip(&["http://10.0.0.1/", "http://10.0.0.2/"]), address("10.0.0.1"));
    let hosts = vec![None, Some("camera".to_string()), Some("1.2.3.4".to_string())];
    assert_eq!(first_ip(&hosts), address("1.2.3.4"));
}

fn start(name: &str) -> XmlEvent {
    XmlEvent::Start { name: name.to_string(), attributes: vec![] }
}

fn text(content: &str) -> XmlEvent {
    XmlEvent::Text(Ok(content.to_string()))
}

fn end(name: &str) -> XmlEvent {
    XmlEvent::End(name.to_string())
}

#[test]
fn only_text_inside_a_match_counts() {
    let events = vec![
        start("Address"),
        text("urn:uuid:outside"),
        end("Address"),
        start("d:ProbeMatch"),
        start("a:Address"),
        text("urn:uuid:inside"),
        end("a:Address"),
        start("Address"),
        text("http://not-a-uuid"),
        end("Address"),
        start("x:y:Types"),
        text(" a  b "),
        end("x:y:Types"),
        start("MetadataVersion"),
        text("4294967296"),
        end("MetadataVersion"),
        end("d:ProbeMatch"),
        start("Types"),
        text("ignored"),
        end("Types"),
    ];
    let info = probe_match_from_events(&events).unwrap();
    assert_eq!(info.endpoint_reference, "inside");
    assert_eq!(info.types, vec!["a", "b"]);
    assert!(info.scopes.is_empty());
    assert!(info.x_addrs.is_empty());
    assert_eq!(info.metadata_version, 0);
}

#[test]
fn the_last_of_several_texts_counts() {
    let events = vec![
        start("ProbeMatch"),
        start("Address"),
        text("urn:uuid:one"),
        XmlEvent::Other,
        text("urn:uuid:two"),
        end("Address"),
        text("urn:uuid:between"),
        start("MetadataVersion"),
        text("+7"),
        end("MetadataVersion"),
    ];
    let info = probe_match_from_events(&events).unwrap();
    assert_eq!(info.endpoint_reference, "two");
    assert_eq!(info.metadata_version, 7);
}

#[test]
fn a_response_needs_an_endpoint() {
    for events in [
        vec![],
        vec![start("ProbeMatch"), start("Address"), text("urn:uuid:")],
        vec![start("Address"), text("urn:uuid:x")],
    ] {
        match probe_match_from_events(&events) {
            Err(DiscoveryError::InvalidResponse(m)) => {
                assert_eq!(m, "No endpoint reference found in ProbeMatch")
            }
            other => panic!("{:?}", other),
        }
    }
}

#[test]
fn failures_are_told() {
    let bad_text = || XmlEvent::Text(Err("bad entity".to_string()));
    let inside = vec![start("ProbeMatch"), bad_text()];
    match probe_match_from_events(&inside) {
        Err(DiscoveryError::XmlParsing(m)) => assert_eq!(m, "Text decode error: bad entity"),
        other => panic!("{:?}", other),
    }
    let outside = vec![bad_text(), start("ProbeMatch"), start("Address"), text("urn:uuid:u")];
    assert_eq!(probe_match_from_events(&outside).unwrap().endpoint_reference, "u");
    let broken = vec![XmlEvent::Failed("broken".to_string())];
    match probe_match_from_events(&broken) {
        Err(DiscoveryError::XmlParsing(m)) => assert_eq!(m, "XML parsing error: broken"),
        other => panic!("{:?}", other),
    }
}

#[test]
fn entities_are_resolved_and_mismatched_tags_refused() {
    let xml = "<ProbeMatch><Address>urn:uuid:a&amp;b</Address></ProbeMatch>";
    assert_eq!(parse_probe_match_response(xml).unwrap().endpoint_reference, "a&b");
    let xml = "<ProbeMatch><Address>urn:uuid:a&bogus;b</Address></ProbeMatch>";
    match parse_probe_match_response(xml) {
        Err(DiscoveryError::XmlParsing(m)) => assert!(m.starts_with("Text decode error: ")),
        other => panic!("{:?}", other),
    }
    let xml = "<ProbeMatch><Address>urn:uuid:a</Types></ProbeMatch>";
    match parse_probe_match_response(xml) {
        Err(DiscoveryError::XmlParsing(m)) => assert!(m.starts_with("XML parsing error: ")),
        other => panic!("{:?}", other),
    }
}

#[test]
fn an_empty_match_says_nothing() {
    let info = ProbeMatchInfo::default();
    assert_eq!(info.endpoint_reference, "");
    assert!(info.types.is_empty() && info.scopes.is_empty() && info.x_addrs.is_empty());
    assert_eq!(info.metadata_version, 0);
}

#[test]
fn namespace_prefixes_do_not_matter() {
    let row = |prefix: &str| {
        let tag = |name: &str| format!("{}{}", prefix, name);
        vec![
            start(&tag("ProbeMatch")),
            start(&tag("Address")),
            text("urn:uuid:u"),
            end(&tag("Address")),
            start(&tag("Scopes")),
            text("one two"),
            end(&tag("Scopes")),
            end(&tag("ProbeMatch")),
            start(&tag("Types")),
            text("ignored"),
        ]
    };
    for prefix in ["", "d:", "tns:", "a:b:"] {
        let info = probe_match_from_events(&row(prefix)).unwrap();
        assert_eq!(info.endpoint_reference, "u");
        assert_eq!(info.scopes, vec!["one", "two"]);
        assert!(info.types.is_empty());
    }
}

#[test]
fn lists_hold_words_only() {
    let events = vec![
        start("ProbeMatch"),
        start("Address"),
        text("urn:uuid:u"),
        start("XAddrs"),
        text("\t http://a  \n\u{2003}http://b\r\n "),
    ];
    let info = probe_match_from_events(&events).unwrap();
    assert_eq!(info.x_addrs, vec!["http://a", "http://b"]);
    assert!(info.x_addrs.iter().all(|w| !w.is_empty() && !w.contains(char::is_whitespace)));
}
