use base64::Engine;
use onvif_discovery::auth::{generate_wsse_auth_header, wsse_auth_header};
use onvif_discovery::soap::{
    capabilities_request, device_information_request, generate_get_capabilities,
    generate_get_device_information, generate_get_profiles, generate_get_services,
    generate_get_stream_uri, generate_ws_discovery_probe, probe_with_id, stream_uri_request,
};
use sha1::Digest;

#[test]
fn test_generate_ws_discovery_probe() {
    let probe = generate_ws_discovery_probe();

    assert!(probe.contains("http://schemas.xmlsoap.org/ws/2005/04/discovery/Probe"));
    assert!(probe.contains("dn:NetworkVideoTransmitter"));
    assert!(probe.contains("uuid:"));
}

#[test]
fn test_generate_get_device_information() {
    let request = generate_get_device_information(Some("admin"), Some("password"));

    assert!(request.contains("GetDeviceInformation"));
    assert!(request.contains("wsse:Security"));
    assert!(request.contains("SOAP-ENV:Envelope"));
}

#[test]
fn test_generate_get_services() {
    let request = generate_get_services(None, None);
    assert!(request.contains("GetServices"));
    assert!(request.contains("IncludeCapability"));
    assert!(request.contains("false"));
    assert!(request.contains("xmlns:tds=\"http://www.onvif.org/ver10/device/wsdl\""));
}

#[test]
fn test_generate_get_services_with_auth() {
    let request = generate_get_services(Some("admin"), Some("password"));
    assert!(request.contains("GetServices"));
    assert!(request.contains("IncludeCapability"));
    assert!(request.contains("wsse:Security"));
    assert!(request.contains("wsse:UsernameToken"));
}

/// What stands between `start` and the next `end` behind it.
fn between<'a>(s: &'a str, start: &str, end: &str) -> &'a str {
    let from = s.find(start).unwrap() + start.len();
    let to = s[from..].find(end).unwrap();
    &s[from..from + to]
}

#[test]
fn probes_have_a_random_message_id() {
    let probe = generate_ws_discovery_probe();
    let id = between(&probe, "<wsa:MessageID>uuid:", "</wsa:MessageID>");
    let parsed = uuid::Uuid::parse_str(id).unwrap();
    assert_eq!(parsed.get_version_num(), 4);
    assert_eq!(parsed.to_string(), id);
    assert_eq!(probe_with_id(id), probe);
    assert_ne!(generate_ws_discovery_probe(), probe);
}

#[test]
fn the_probe_is_this_message() {
    let expected = r#"<?xml version="1.0" encoding="UTF-8"?>
<soap:Envelope
    xmlns:soap="http://www.w3.org/2003/05/soap-envelope"
    xmlns:wsa="http://schemas.xmlsoap.org/ws/2004/08/addressing"
    xmlns:wsd="http://schemas.xmlsoap.org/ws/2005/04/discovery"
    xmlns:dn="http://www.onvif.org/ver10/network/wsdl">
    <soap:Header>
        <wsa:Action>http://schemas.xmlsoap.org/ws/2005/04/discovery/Probe</wsa:Action>
        <wsa:MessageID>uuid:ID</wsa:MessageID>
        <wsa:ReplyTo>
            <wsa:Address>http://schemas.xmlsoap.org/ws/2004/08/addressing/role/anonymous</wsa:Address>
        </wsa:ReplyTo>
        <wsa:To>urn:schemas-xmlsoap-org:ws:2005:04:discovery</wsa:To>
    </soap:Header>
    <soap:Body>
        <wsd:Probe>
            <wsd:Types>dn:NetworkVideoTransmitter</wsd:Types>
        </wsd:Probe>
    </soap:Body>
</soap:Envelope>"#;
    assert_eq!(probe_with_id("ID"), expected);
}

#[test]
fn requests_without_credentials_have_an_empty_header() {
    let expected = r#"<?xml version="1.0" encoding="UTF-8"?>
<SOAP-ENV:Envelope
    xmlns:SOAP-ENV="http://www.w3.org/2003/05/soap-envelope"
    xmlns:tds="http://www.onvif.org/ver10/device/wsdl">
    <SOAP-ENV:Header>
        
    </SOAP-ENV:Header>
    <SOAP-ENV:Body>
        <tds:GetDeviceInformation/>
    </SOAP-ENV:Body>
</SOAP-ENV:Envelope>"#;
    assert_eq!(generate_get_device_information(None, None), expected);
    assert_eq!(generate_get_device_information(Some("admin"), None), expected);
    assert_eq!(generate_get_device_information(None, Some("password")), expected);
    assert_eq!(device_information_request(""), expected);
    assert_eq!(generate_get_capabilities(None, None), capabilities_request(""));
}

#[test]
fn each_request_asks_for_its_own_operation() {
    let capabilities = generate_get_capabilities(None, None);
    assert!(capabilities.contains("<tds:Category>All</tds:Category>"));
    let profiles = generate_get_profiles(None, None);
    assert!(profiles.contains("<trt:GetProfiles/>"));
    let stream = generate_get_stream_uri(None, None, "Profile_1");
    assert!(stream.contains("<trt:ProfileToken>Profile_1</trt:ProfileToken>"));
    assert!(stream.contains("<tt:Stream>RTP-Unicast</tt:Stream>"));
    assert!(stream.contains("<tt:Protocol>RTSP</tt:Protocol>"));
    assert_eq!(stream, stream_uri_request("", "Profile_1"));
    let authenticated = generate_get_stream_uri(Some("admin"), Some("password"), "Profile_1");
    assert!(authenticated.contains("<wsse:Username>admin</wsse:Username>"));
    assert!(authenticated.contains("<trt:ProfileToken>Profile_1</trt:ProfileToken>"));
}

#[test]
fn the_digest_is_that_of_the_published_example() {
    let nonce = [44, 170, 136, 232, 111, 192, 138, 66, 130, 66, 179, 116, 206, 166, 69, 150];
    let header = wsse_auth_header("user", "userpassword", &nonce, "2010-09-16T07:50:45Z");
    let expected = r#"<wsse:Security SOAP-ENV:mustUnderstand="true" xmlns:wsse="http://docs.oasis-open.org/wss/2004/01/oasis-200401-wss-wssecurity-secext-1.0.xsd" xmlns:wsu="http://docs.oasis-open.org/wss/2004/01/oasis-200401-wss-wssecurity-utility-1.0.xsd">
            <wsse:UsernameToken wsu:Id="UsernameToken-1">
                <wsse:Username>user</wsse:Username>
                <wsse:Password Type="http://docs.oasis-open.org/wss/2004/01/oasis-200401-wss-username-token-profile-1.0#PasswordDigest">tuOSpGlFlIXsozq4HFNeeGeFLEI=</wsse:Password>
                <wsse:Nonce EncodingType="http://docs.oasis-open.org/wss/2004/01/oasis-200401-wss-soap-message-security-1.0#Base64Binary">LKqI6G/AikKCQrN0zqZFlg==</wsse:Nonce>
                <wsu:Created>2010-09-16T07:50:45Z</wsu:Created>
            </wsse:UsernameToken>
        </wsse:Security>"#;
    assert_eq!(header, expected);
}

#[test]
fn the_digest_takes_the_bytes_of_the_password() {
    let nonce = [0, 1, 2, 3, 4, 5, 6, 7, 8, 9, 10, 11, 12, 13, 14, 15];
    let header = wsse_auth_header("admin", "pässword", &nonce, "2024-01-31T12:00:00Z");
    assert!(header.contains(">6HdrBYrz01u/We9Ob/IcwqU7rww=</wsse:Password>"));
    assert!(header.contains(">AAECAwQFBgcICQoLDA0ODw==</wsse:Nonce>"));
}

#[test]
fn generated_headers_are_fresh_and_consistent() {
    let before = chrono::Utc::now().timestamp();
    let header = generate_wsse_auth_header("admin", "secret");
    let after = chrono::Utc::now().timestamp();

    let created = between(&header, "<wsu:Created>", "</wsu:Created>");
    assert_eq!(created.len(), 20);
    let time = chrono::DateTime::parse_from_rfc3339(created).unwrap().timestamp();
    assert!(before <= time && time <= after);

    let nonce_text = between(&header, "#Base64Binary\">", "</wsse:Nonce>");
    let nonce = base64::prelude::BASE64_STANDARD.decode(nonce_text).unwrap();
    assert_eq!(nonce.len(), 16);

    let mut input = nonce.clone();
    input.extend_from_slice(created.as_bytes());
    input.extend_from_slice(b"secret");
    let digest = base64::prelude::BASE64_STANDARD.encode(sha1::Sha1::digest(&input));
    assert_eq!(between(&header, "#PasswordDigest\">", "</wsse:Password>"), digest);

    let other = generate_wsse_auth_header("admin", "secret");
    assert_ne!(between(&other, "#Base64Binary\">", "</wsse:Nonce>"), nonce_text);
}

#[test]
fn the_password_does_not_stand_in_clear() {
    let password = "pa$$word!";
    let header = generate_wsse_auth_header("admin", password);
    assert!(!header.contains(password));
    assert!(!header.contains('$'));
    let requests = [
        generate_get_device_information(Some("admin"), Some(password)),
        generate_get_capabilities(Some("admin"), Some(password)),
        generate_get_profiles(Some("admin"), Some(password)),
        generate_get_services(Some("admin"), Some(password)),
        generate_get_stream_uri(Some("admin"), Some(password), "Profile_1"),
    ];
    for request in requests {
        assert!(!request.contains(password));
        assert!(request.contains("<wsse:Username>admin</wsse:Username>"));
    }
}

#[test]
fn the_time_of_a_request_has_its_form() {
    let request = generate_get_services(Some("admin"), Some("password"));
    let created = between(&request, "<wsu:Created>", "</wsu:Created>");
    assert_eq!(created.len(), 20);
    for (i, c) in created.chars().enumerate() {
        match i {
            4 | 7 => assert_eq!(c, '-'),
            10 => assert_eq!(c, 'T'),
            13 | 16 => assert_eq!(c, ':'),
            19 => assert_eq!(c, 'Z'),
            _ => assert!(c.is_ascii_digit()),
        }
    }
}

#[test]
fn an_ordinary_password_goes_out_only_as_a_digest() {
    let requests = [
        generate_get_device_information(Some("admin"), Some("password")),
        generate_get_capabilities(Some("admin"), Some("password")),
        generate_get_profiles(Some("admin"), Some("password")),
        generate_get_services(Some("admin"), Some("password")),
        generate_get_stream_uri(Some("admin"), Some("password"), "Profile_1"),
    ];
    for request in requests {
        assert!(request.contains(">admin<"));
        assert!(!request.contains(">password<"));
        let digest = between(&request, "#PasswordDigest\">", "</wsse:Password>");
        assert_eq!(digest.len(), 28);
        assert_eq!(base64::prelude::BASE64_STANDARD.decode(digest).unwrap().len(), 20);
    }
}
