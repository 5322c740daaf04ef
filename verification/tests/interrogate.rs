use onvif_discovery::device::{
    AuthMethod, DeviceInfo, InterrogationError, MediaStream, Resolution, ServiceInfo, StreamType,
    VideoEncoding,
};
use onvif_discovery::http::{
    prepare_request, read_response, request_to, response_body, ONVIF_REQUEST_TIMEOUT,
};
use onvif_discovery::profiles::{
    classify_stream, parse_profiles_response, parse_stream_uri_response, profiles_from_events,
    ProfileInfo,
};
use onvif_discovery::responses::{
    device_info_from_events, extract_media_service_url, parse_capabilities_response,
    parse_device_information_response,
};
use onvif_discovery::services::{
    extract_base_url_from_response, parse_services_response, services_from_events,
};
use onvif_discovery::url_parts::UrlParts;
use onvif_discovery::xml::{read_borrowed, read_buffered, XmlAttribute, XmlEvent};

#[test]
fn test_parse_device_information_response() {
    let xml = r#"<?xml version="1.0" encoding="UTF-8"?>
<soap:Envelope xmlns:soap="http://www.w3.org/2003/05/soap-envelope">
    <soap:Body>
        <GetDeviceInformationResponse>
            <Manufacturer>Hikvision</Manufacturer>
            <Model>DS-2CD2143G0-I</Model>
            <FirmwareVersion>V5.5.0</FirmwareVersion>
            <SerialNumber>DS-2CD2143G0-I20200101AACH123456789</SerialNumber>
            <HardwareId>1.0</HardwareId>
        </GetDeviceInformationResponse>
    </soap:Body>
</soap:Envelope>"#;

    let result = parse_device_information_response(xml);
    assert!(result.is_ok());

    let device_info = result.unwrap();
    assert_eq!(device_info.manufacturer, "Hikvision");
    assert_eq!(device_info.model, "DS-2CD2143G0-I");
    assert_eq!(device_info.firmware_version, "V5.5.0");
    assert_eq!(
        device_info.serial_number,
        "DS-2CD2143G0-I20200101AACH123456789"
    );
    assert_eq!(device_info.hardware_id, "1.0");
}

#[test]
fn test_parse_device_information_response_with_namespace() {
    let xml = r#"<?xml version="1.0" encoding="UTF-8"?>
<SOAP-ENV:Envelope xmlns:SOAP-ENV="http://www.w3.org/2003/05/soap-envelope" xmlns:tds="http://www.onvif.org/ver10/device/wsdl">
    <SOAP-ENV:Header></SOAP-ENV:Header>
    <SOAP-ENV:Body>
        <tds:GetDeviceInformationResponse>
            <tds:Manufacturer>GeoVision_2</tds:Manufacturer>
            <tds:Model>GV-BX2700-3V</tds:Model>
            <tds:FirmwareVersion>V1.2.3</tds:FirmwareVersion>
            <tds:SerialNumber>GV123456789</tds:SerialNumber>
            <tds:HardwareId>2.0</tds:HardwareId>
        </tds:GetDeviceInformationResponse>
    </SOAP-ENV:Body>
</SOAP-ENV:Envelope>"#;

    let result = parse_device_information_response(xml);
    assert!(result.is_ok());

    let device_info = result.unwrap();
    assert_eq!(device_info.manufacturer, "GeoVision_2");
    assert_eq!(device_info.model, "GV-BX2700-3V");
    assert_eq!(device_info.firmware_version, "V1.2.3");
    assert_eq!(device_info.serial_number, "GV123456789");
    assert_eq!(device_info.hardware_id, "2.0");
}

fn profile(token: &str, name: &str) -> ProfileInfo {
    ProfileInfo {
        token: token.to_string(),
        name: name.to_string(),
        video_encoding: VideoEncoding::H264,
        resolution: Resolution::new(1920, 1080),
    }
}

#[test]
fn test_parse_stream_uri_response() {
    let xml = r#"<?xml version="1.0" encoding="UTF-8"?>
<soap:Envelope xmlns:soap="http://www.w3.org/2003/05/soap-envelope">
    <soap:Body>
        <GetStreamUriResponse>
            <MediaUri>
                <Uri>rtsp://192.168.1.100:554/Streaming/Channels/101</Uri>
                <InvalidAfterConnect>false</InvalidAfterConnect>
                <InvalidAfterReboot>false</InvalidAfterReboot>
                <Timeout>PT60S</Timeout>
            </MediaUri>
        </GetStreamUriResponse>
    </soap:Body>
</soap:Envelope>"#;

    let profile = ProfileInfo {
        token: "Profile_1".to_string(),
        name: "MainStream".to_string(),
        video_encoding: VideoEncoding::H264,
        resolution: Resolution::new(1920, 1080),
    };

    let result = parse_stream_uri_response(xml, &profile);
    assert!(result.is_ok());

    let stream = result.unwrap();
    assert_eq!(
        stream.rtsp_url,
        "rtsp://192.168.1.100:554/Streaming/Channels/101"
    );
    assert_eq!(stream.profile_token, "Profile_1");
    assert_eq!(stream.name, "MainStream");
    assert_eq!(stream.stream_type, StreamType::Primary);
}

#[test]
fn test_parse_stream_uri_response_with_namespace() {
    let xml = r#"<?xml version="1.0" encoding="UTF-8"?>
<SOAP-ENV:Envelope xmlns:SOAP-ENV="http://www.w3.org/2003/05/soap-envelope" xmlns:tt="http://www.onvif.org/ver10/schema" xmlns:trt="http://www.onvif.org/ver10/media/wsdl">
    <SOAP-ENV:Header></SOAP-ENV:Header>
    <SOAP-ENV:Body>
        <trt:GetStreamUriResponse>
            <trt:MediaUri>
                <tt:Uri>rtsp://192.168.3.104/media/video1</tt:Uri>
                <tt:InvalidAfterConnect>false</tt:InvalidAfterConnect>
                <tt:InvalidAfterReboot>false</tt:InvalidAfterReboot>
                <tt:Timeout>PT60S</tt:Timeout>
            </trt:MediaUri>
        </trt:GetStreamUriResponse>
    </SOAP-ENV:Body>
</SOAP-ENV:Envelope>"#;

    let profile = ProfileInfo {
        token: "media_profile2".to_string(),
        name: "Profile2".to_string(),
        video_encoding: VideoEncoding::H264,
        resolution: Resolution::new(1920, 1080),
    };

    let result = parse_stream_uri_response(xml, &profile);
    assert!(result.is_ok());

    let stream = result.unwrap();
    assert_eq!(stream.rtsp_url, "rtsp://192.168.3.104/media/video1");
    assert_eq!(stream.profile_token, "media_profile2");
    assert_eq!(stream.name, "Profile2");
}

#[test]
fn test_send_onvif_request_invalid_url() {
    let result = prepare_request(
        "not-a-url",
        "<test/>",
        "application/soap+xml",
        "http://www.onvif.org/ver10/device/wsdl/GetDeviceInformation",
    );
    assert!(result.is_err());
    assert!(result.unwrap_err().to_string().contains("Invalid URL"));
}

// Events of a document

fn start(name: &str) -> XmlEvent {
    XmlEvent::Start { name: name.to_string(), attributes: vec![] }
}

fn text(content: &str) -> XmlEvent {
    XmlEvent::Text(Ok(content.to_string()))
}

fn end(name: &str) -> XmlEvent {
    XmlEvent::End(name.to_string())
}

fn bad_text() -> XmlEvent {
    XmlEvent::Text(Err("bad entity".to_string()))
}

fn broken() -> XmlEvent {
    XmlEvent::Failed("broken".to_string())
}

#[test]
fn documents_are_split_into_events() {
    let xml = "<?xml version=\"1.0\"?><a k=\"1 &lt; 2\" k2='x'> &amp;b <!-- c --><d/></a>";
    for events in [read_buffered(xml), read_borrowed(xml)] {
        assert_eq!(events.len(), 6);
        assert!(matches!(events[0], XmlEvent::Other));
        match &events[1] {
            XmlEvent::Start { name, attributes } => {
                assert_eq!(name, "a");
                assert_eq!(attributes.len(), 2);
                assert_eq!(attributes[0].key, "k");
                assert_eq!(attributes[0].value, Some("1 < 2".to_string()));
                assert_eq!(attributes[1].key, "k2");
                assert_eq!(attributes[1].value, Some("x".to_string()));
            }
            other => panic!("{:?}", other),
        }
        match &events[2] {
            XmlEvent::Text(Ok(t)) => assert_eq!(t, "&b"),
            other => panic!("{:?}", other),
        }
        assert!(matches!(events[3], XmlEvent::Other));
        assert!(matches!(events[4], XmlEvent::Other));
        match &events[5] {
            XmlEvent::End(name) => assert_eq!(name, "a"),
            other => panic!("{:?}", other),
        }
    }
    assert!(read_buffered("").is_empty());
    assert!(read_borrowed("").is_empty());
}

#[test]
fn bad_attributes_are_left_out_and_bad_values_told() {
    let events = read_borrowed("<a x=\"&bogus;\" y y=\"1\" x=\"2\">");
    match &events[0] {
        XmlEvent::Start { attributes, .. } => {
            assert_eq!(attributes[0].key, "x");
            assert_eq!(attributes[0].value, None);
            assert!(attributes[1..].iter().all(|a| a.value != Some("2".to_string())));
        }
        other => panic!("{:?}", other),
    }
}

#[test]
fn the_readers_differ_on_a_tag_that_breaks_off() {
    let borrowed = read_borrowed("<a");
    assert_eq!(borrowed.len(), 1);
    assert!(matches!(borrowed[0], XmlEvent::Failed(_)));
    let buffered = read_buffered("<a");
    assert_eq!(buffered.len(), 1);
    match &buffered[0] {
        XmlEvent::Start { name, .. } => assert_eq!(name, "a"),
        other => panic!("{:?}", other),
    }
}

// Device information

#[test]
fn unknown_parts_of_a_device_stay_unknown() {
    let events = vec![
        start("x:Model"),
        text("one"),
        text("two"),
        end("x:Model"),
        text("behind"),
        start("xModel"),
        text("three"),
    ];
    let info = device_info_from_events(&events).unwrap();
    assert_eq!(info.model, "two");
    assert_eq!(info.manufacturer, "Unknown");
    assert_eq!(info.firmware_version, "Unknown");
    assert_eq!(info.serial_number, "Unknown");
    assert_eq!(info.hardware_id, "Unknown");
}

#[test]
fn the_first_failure_of_a_device_response_is_told() {
    match device_info_from_events(&vec![start("a"), bad_text(), broken()]) {
        Err(InterrogationError::XmlParsing(m)) => assert_eq!(m, "Text decode error: bad entity"),
        other => panic!("{:?}", other),
    }
    match device_info_from_events(&vec![start("a"), broken(), bad_text()]) {
        Err(InterrogationError::XmlParsing(m)) => assert_eq!(m, "XML parsing error: broken"),
        other => panic!("{:?}", other),
    }
}

// Capabilities

#[test]
fn capabilities_are_told_by_what_the_response_names() {
    let capabilities = parse_capabilities_response("<Media/><PTZ/><Events/>").unwrap();
    assert_eq!(capabilities.auth_methods, vec![AuthMethod::Digest, AuthMethod::Basic]);
    assert_eq!(capabilities.onvif_version, "2.0");
    assert!(capabilities.ptz_supported);
    assert!(!capabilities.audio_input_supported);
    assert!(!capabilities.audio_output_supported);
    assert_eq!(capabilities.video_sources, 1);
    assert_eq!(capabilities.audio_sources, 0);
    assert_eq!(capabilities.profiles, vec!["Profile_1"]);
    assert!(!capabilities.analytics_supported);
    assert!(capabilities.events_supported);

    let other = parse_capabilities_response("Media AudioSources AudioOutputs Analytics").unwrap();
    assert!(other.audio_input_supported && other.audio_output_supported);
    assert!(other.analytics_supported && !other.ptz_supported && !other.events_supported);

    match extract_media_service_url(&other) {
        Err(InterrogationError::ServiceUnavailable(m)) => {
            assert_eq!(m, "Media service URL extraction not implemented")
        }
        other => panic!("{:?}", other),
    }
}

#[test]
fn capabilities_without_media_are_refused() {
    match parse_capabilities_response("<PTZ/>") {
        Err(InterrogationError::ServiceUnavailable(m)) => {
            assert_eq!(m, "Media service not available")
        }
        other => panic!("{:?}", other),
    }
}

// Services

fn service_parts(service: &ServiceInfo) -> (&str, &str, &str) {
    (&service.namespace, &service.url, &service.version)
}

#[test]
fn services_are_read_out_of_a_response() {
    let xml = r#"<tds:GetServicesResponse>
    <tds:Service>
        <tds:Namespace>http://www.onvif.org/ver10/device/wsdl</tds:Namespace>
        <tds:XAddr>http://10.0.0.1/onvif/device_service</tds:XAddr>
        <tds:Version><tt:Major>2</tt:Major><tt:Minor>5</tt:Minor></tds:Version>
    </tds:Service>
    <Service>
        <Namespace> http://www.onvif.org/ver10/media/wsdl </Namespace>
        <XAddr>http://10.0.0.1/onvif/media</XAddr>
    </Service>
    <Service><Namespace>without an address</Namespace></Service>
    <Service><XAddr>without a namespace</XAddr></Service>
</tds:GetServicesResponse>"#;
    let services = parse_services_response(xml).unwrap();
    assert_eq!(services.len(), 2);
    assert_eq!(
        service_parts(&services[0]),
        ("http://www.onvif.org/ver10/device/wsdl", "http://10.0.0.1/onvif/device_service", "5")
    );
    assert_eq!(
        service_parts(&services[1]),
        ("http://www.onvif.org/ver10/media/wsdl", "http://10.0.0.1/onvif/media", "1.0")
    );
}

#[test]
fn open_elements_of_a_service_take_turns() {
    // The end tag of the namespace is missing, so the address is never read.
    let events = vec![
        start("Namespace"),
        start("Service"),
        start("Namespace"),
        text("first"),
        start("XAddr"),
        text("second"),
        end("XAddr"),
        end("Namespace"),
        start("XAddr"),
        text(" http://x "),
        end("XAddr"),
        end("Service"),
        end("Service"),
    ];
    let services = services_from_events("", &events).unwrap();
    assert_eq!(services.len(), 1);
    assert_eq!(service_parts(&services[0]), ("second", "http://x", "1.0"));
}

#[test]
fn services_fail_with_the_first_failure() {
    let message = |events: Vec<XmlEvent>| match services_from_events("onvif", &events) {
        Err(InterrogationError::InvalidResponse(m)) => m,
        other => panic!("{:?}", other),
    };
    assert_eq!(message(vec![bad_text()]), "XML decode error: bad entity");
    assert_eq!(message(vec![broken(), bad_text()]), "XML parse error: broken");
    match parse_services_response("<a></b>") {
        Err(InterrogationError::InvalidResponse(m)) => assert!(m.starts_with("XML parse error: ")),
        other => panic!("{:?}", other),
    }
}

#[test]
fn services_are_guessed_from_an_address() {
    let services = parse_services_response("<a>see http://10.0.0.1:80/onvif/x</a>").unwrap();
    assert_eq!(services.len(), 2);
    assert_eq!(
        service_parts(&services[0]),
        (
            "http://www.onvif.org/ver10/device/wsdl",
            "http://10.0.0.1:80/onvif/device_service",
            "1.0"
        )
    );
    assert_eq!(
        service_parts(&services[1]),
        ("http://www.onvif.org/ver10/media/wsdl", "http://10.0.0.1:80/onvif/media_service", "1.0")
    );
    for xml in ["<a>http://10.0.0.1/x </a>", "<a>onvif</a>", ""] {
        match parse_services_response(xml) {
            Err(InterrogationError::ServiceUnavailable(m)) => assert_eq!(
                m,
                "No services found in GetServices response and unable to construct fallback"
            ),
            other => panic!("{:?}", other),
        }
    }
}

#[test]
fn base_addresses_end_where_they_should() {
    let base = |xml: &str| extract_base_url_from_response(xml);
    let some = |s: &str| Some(s.to_string());
    assert_eq!(base("<a>http://cam:80/onvif/x</a>"), some("http://cam:80"));
    assert_eq!(base("<a>http://cam/x</a>"), some("http://cam/x"));
    assert_eq!(base("u=\"http://cam\" v"), some("http://cam"));
    assert_eq!(base("http://cam\u{3000}x"), some("http://cam"));
    assert_eq!(base("<a>http://cam/</a>"), None);
    assert_eq!(base("http://cam"), None);
    assert_eq!(base("https://cam/onvif"), None);
    assert_eq!(base("nothing\r\nhttp://cam/\nhttp://b <"), some("http://b"));
    assert_eq!(base("/onvif http://cam/onvif"), some("http://cam"));
}

// Profiles

#[test]
fn profiles_are_read_out_of_a_response() {
    let xml = r#"<trt:GetProfilesResponse>
    <trt:Profiles fixed="true" token="Profile_1">
        <tt:Name>mainStream</tt:Name><tt:Other>more</tt:Other>
    </trt:Profiles>
    <Profiles token="a&amp;b"><tt:Video/></Profiles>
    <Profiles><tt:Name>no token</tt:Name></Profiles>
</trt:GetProfilesResponse>"#;
    let profiles = parse_profiles_response(xml).unwrap();
    assert_eq!(profiles.len(), 2);
    assert_eq!(profiles[0].token, "Profile_1");
    assert_eq!(profiles[0].name, "mainStream");
    assert_eq!(profiles[0].video_encoding, VideoEncoding::H264);
    assert_eq!(profiles[0].resolution, Resolution::new(1920, 1080));
    assert_eq!(profiles[1].token, "a&b");
    assert_eq!(profiles[1].name, "Profile_a&b");
}

#[test]
fn what_cannot_be_read_of_profiles_is_passed_over() {
    let token = |value: Option<&str>| XmlAttribute {
        key: "token".to_string(),
        value: value.map(str::to_string),
    };
    let events = vec![
        text("before"),
        XmlEvent::Start {
            name: "Profiles".to_string(),
            attributes: vec![token(Some("t1")), token(None)],
        },
        bad_text(),
        text("  "),
        text(" name "),
        text("other"),
        end("Profiles"),
        end("Profiles"),
        broken(),
    ];
    let profiles = profiles_from_events("", &events).unwrap();
    assert_eq!(profiles.len(), 1);
    assert_eq!(profiles[0].token, "t1");
    assert_eq!(profiles[0].name, "name");
}

#[test]
fn profiles_are_guessed_from_tokens() {
    let xml = "<p token=\"one\"/>\n<p token=\"\"/>\r\n<q token=\"two\" token=\"three\"/>\ntoken=x\ntoken=\"";
    let profiles = parse_profiles_response(xml).unwrap();
    let found: Vec<(&str, &str)> =
        profiles.iter().map(|p| (p.token.as_str(), p.name.as_str())).collect();
    assert_eq!(found, vec![("one", "Profile_one"), ("two", "Profile_two")]);
    match parse_profiles_response("<p/>") {
        Err(InterrogationError::InvalidResponse(m)) => {
            assert_eq!(m, "No profiles found in GetProfiles response")
        }
        other => panic!("{:?}", other),
    }
}

// Streams

#[test]
fn stream_types_follow_the_name_of_the_profile() {
    let cases = [
        ("main", StreamType::Primary),
        ("primary", StreamType::Primary),
        ("submain", StreamType::Primary),
        ("substream", StreamType::Secondary),
        ("secondary", StreamType::Secondary),
        ("other", StreamType::Unknown),
    ];
    for (name, expected) in cases {
        assert_eq!(classify_stream(name), expected);
    }
    let xml = "<Uri>rtsp://cam/1</Uri>";
    let stream = parse_stream_uri_response(xml, &profile("t", "SUBSTREAM")).unwrap();
    assert_eq!(stream.stream_type, StreamType::Secondary);
    assert_eq!(stream.framerate, Some(30));
    assert_eq!(stream.bitrate, None);
    assert_eq!(stream.audio_encoding, None);
    assert_eq!(stream.video_encoding, VideoEncoding::H264);
    assert_eq!(stream.resolution, Resolution::new(1920, 1080));
}

#[test]
fn only_rtsp_addresses_count() {
    let xml = "<r><Uri>rtsp://cam/1</Uri><tt:Uri>http://cam/2</tt:Uri><Url>rtsp://cam/3</Url></r>";
    let stream = parse_stream_uri_response(xml, &profile("t", "n")).unwrap();
    assert_eq!(stream.rtsp_url, "rtsp://cam/1");
    match parse_stream_uri_response("<Uri>http://cam</Uri>", &profile("t", "n")) {
        Err(InterrogationError::InvalidResponse(m)) => {
            assert_eq!(m, "No RTSP URL found in GetStreamUri response")
        }
        other => panic!("{:?}", other),
    }
    match parse_stream_uri_response("<Uri>&bogus;</Uri>", &profile("t", "n")) {
        Err(InterrogationError::XmlParsing(m)) => assert!(m.starts_with("Text decode error: ")),
        other => panic!("{:?}", other),
    }
}

// HTTP

#[test]
fn requests_carry_their_body() {
    let request = prepare_request(
        "http://10.0.0.1/onvif/device_service",
        "<é/>",
        "application/soap+xml",
        "urn:action",
    )
    .unwrap();
    assert_eq!(request.address, "10.0.0.1:80");
    assert_eq!(
        request.text,
        "POST /onvif/device_service HTTP/1.1\r\n\
         Host: 10.0.0.1:80\r\n\
         Content-Type: application/soap+xml charset=utf-8; action=\"urn:action\"\r\n\
         Content-Length: 5\r\n\
         User-Agent: ONVIF-Client/1.0\r\n\
         Connection: close\r\n\
         \r\n\
         <é/>"
    );
    assert_eq!(ONVIF_REQUEST_TIMEOUT, 10);
}

#[test]
fn older_requests_carry_the_action_in_a_header() {
    let parts = UrlParts { host: Some("cam".to_string()), port: Some(8080), path: "/x".to_string() };
    let request = request_to("http://cam:8080/x", Ok(parts.clone()), "", "text/xml;", "a").unwrap();
    assert_eq!(request.address, "cam:8080");
    assert_eq!(
        request.text,
        "POST /x HTTP/1.1\r\nHost: cam:8080\r\nContent-Type: text/xml; charset=utf-8\r\n\
         Content-Length: 0\r\nSOAPAction: \"a\"\r\nUser-Agent: ONVIF-Client/1.0\r\n\
         Connection: close\r\n\r\n"
    );
    let other = request_to("", Ok(parts), "b", "text/plain", "a").unwrap();
    assert!(other.text.contains("\r\nContent-Type: text/plain charset=utf-8\r\n"));
    assert!(!other.text.contains("SOAPAction"));
}

#[test]
fn urls_without_a_host_are_refused() {
    match prepare_request("not-a-url", "", "", "") {
        Err(InterrogationError::InvalidResponse(m)) => {
            assert_eq!(m, "Invalid URL not-a-url: relative URL without a base")
        }
        other => panic!("{:?}", other),
    }
    match prepare_request("urn:x", "", "", "") {
        Err(InterrogationError::InvalidResponse(m)) => assert_eq!(m, "No host in URL"),
        other => panic!("{:?}", other),
    }
    let request = prepare_request("http://[::1]:80/", "", "", "").unwrap();
    assert_eq!(request.address, "[::1]:80");
    let request = prepare_request("https://cam:8443", "", "", "").unwrap();
    assert_eq!(request.address, "cam:8443");
    assert!(request.text.starts_with("POST / HTTP/1.1\r\n"));
}

#[test]
fn successful_responses_give_their_body() {
    let body = response_body("HTTP/1.1 200 OK\r\nA: b\r\n\r\n<x/>\r\n\r\ny").unwrap();
    assert_eq!(body, "<x/>\r\n\r\ny");
    assert_eq!(response_body("HTTP/1.0 200 OK\r\n\r\n").unwrap(), "");
    let body = read_response(b"HTTP/1.1 200 OK\r\n\r\na\xffb").unwrap();
    assert_eq!(body, "a\u{fffd}b");
}

#[test]
fn other_responses_are_told_apart() {
    assert!(matches!(
        response_body("HTTP/1.1 401 Unauthorized\r\n\r\n"),
        Err(InterrogationError::AuthRequired)
    ));
    assert!(matches!(
        response_body("HTTP/1.0 403 Forbidden\r\n\r\n"),
        Err(InterrogationError::AuthFailed)
    ));
    assert!(matches!(
        response_body("HTTP/1.1 200 OK\r\n\r\nHTTP/1.1 401"),
        Err(InterrogationError::AuthRequired)
    ));
    let http = |response: &str| match response_body(response) {
        Err(InterrogationError::Http(m)) => m,
        other => panic!("{:?}", other),
    };
    assert_eq!(
        http("HTTP/1.1 400 Bad Request\r\nX: y\r\n\r\n"),
        "Bad Request (400) - possibly unsupported SOAP format: HTTP/1.1 400 Bad Request"
    );
    assert_eq!(
        http("HTTP/1.1 500 Oops\r\n\r\n"),
        "HTTP error response: HTTP/1.1 500 Oops"
    );
    assert_eq!(http(""), "HTTP error response: Unknown");
    match response_body("HTTP/1.1 200 OK\r\n") {
        Err(InterrogationError::InvalidResponse(m)) => assert_eq!(m, "No HTTP body found"),
        other => panic!("{:?}", other),
    }
}

#[test]
fn parsed_values_can_be_copied() {
    let info = DeviceInfo {
        manufacturer: "m".to_string(),
        model: "n".to_string(),
        firmware_version: "f".to_string(),
        serial_number: "s".to_string(),
        hardware_id: "h".to_string(),
    };
    assert_eq!(info.clone().serial_number, "s");
    let stream: MediaStream =
        parse_stream_uri_response("<Uri>rtsp://cam</Uri>", &profile("t", "n")).unwrap();
    assert_eq!(stream.clone().rtsp_url, stream.rtsp_url);
}
