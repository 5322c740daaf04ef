use onvif_discovery::device::{DeviceDetails, DeviceInfo, InterrogationError, ServiceInfo};
use onvif_discovery::discovery::Credentials;
use onvif_discovery::interrogation::{
    credentials_request, credentials_verdict, follow_information, follow_services, Interrogation,
    OnvifRequest, Operation, Progress, Subject, CONTENT_TYPE,
};
use onvif_discovery::time::Duration;

const INFORMATION: &str = "<r><Manufacturer>ACME</Manufacturer><Model>X</Model></r>";
const SERVICES: &str = "<r><Service><Namespace>http://www.onvif.org/ver10/device/wsdl</Namespace>\
    <XAddr>http://10.0.0.1/d</XAddr></Service>\
    <Service><Namespace>http://www.onvif.org/ver10/media/wsdl</Namespace>\
    <XAddr>http://10.0.0.1/m</XAddr></Service></r>";
const PROFILES: &str = "<r><Profiles token=\"p1\"><Name>Main</Name></Profiles>\
    <Profiles token=\"p2\"><Name>Sub</Name></Profiles></r>";
const STREAM: &str = "<r><Uri>rtsp://10.0.0.1/1</Uri></r>";
const CAPABILITIES: &str = "<r><Media/><PTZ/></r>";

fn next(progress: Progress) -> Interrogation {
    match progress {
        Progress::Continue(interrogation) => interrogation,
        other => panic!("{:?}", other),
    }
}

fn failure(progress: Progress) -> InterrogationError {
    match progress {
        Progress::Failed(e) => e,
        other => panic!("{:?}", other),
    }
}

fn no_time() -> Duration {
    Duration::from_secs(0)
}

fn answer(interrogation: Interrogation, body: &str) -> Interrogation {
    next(interrogation.advance(Ok(body.to_string()), no_time()))
}

fn asked(request: &OnvifRequest) -> (&str, &str, bool) {
    let operation = match &request.operation {
        Operation::DeviceInformation => "information",
        Operation::Services => "services",
        Operation::Profiles => "profiles",
        Operation::StreamUri(token) => token,
        Operation::Capabilities => "capabilities",
    };
    (&request.url, operation, request.authenticated)
}

const DEVICE: &str = "http://10.0.0.1/onvif/device_service";
const MEDIA: &str = "http://10.0.0.1/m";

#[test]
fn a_device_is_interrogated_step_by_step() {
    let i = Interrogation::start(DEVICE, true);
    assert_eq!(asked(&i.request()), (DEVICE, "information", false));
    let i = answer(i, INFORMATION);
    assert_eq!(asked(&i.request()), (DEVICE, "services", false));
    let i = answer(i, SERVICES);
    assert_eq!(asked(&i.request()), (MEDIA, "profiles", true));
    let i = answer(i, PROFILES);
    assert_eq!(asked(&i.request()), (MEDIA, "p1", true));
    let i = answer(i, STREAM);
    assert_eq!(asked(&i.request()), (MEDIA, "p2", true));
    let i = answer(i, STREAM);
    assert_eq!(asked(&i.request()), (DEVICE, "capabilities", true));
    let details: DeviceDetails =
        match i.advance(Ok(CAPABILITIES.to_string()), Duration::from_millis(321)) {
            Progress::Done(details) => details,
            other => panic!("{:?}", other),
        };
    assert_eq!(details.device_info.manufacturer, "ACME");
    assert_eq!(details.device_info.serial_number, "Unknown");
    assert!(details.capabilities.ptz_supported);
    assert_eq!(details.services.len(), 2);
    assert_eq!(details.streams.len(), 2);
    assert_eq!(details.streams[0].profile_token, "p1");
    assert_eq!(details.streams[1].name, "Sub");
    assert_eq!(details.interrogation_duration, Duration::from_millis(321));
}

#[test]
fn refused_requests_are_made_again_once() {
    let refused = || Err(InterrogationError::AuthRequired);
    let i = next(Interrogation::start(DEVICE, true).advance(refused(), no_time()));
    assert_eq!(asked(&i.request()), (DEVICE, "information", true));
    let i = answer(i, INFORMATION);
    assert_eq!(asked(&i.request()), (DEVICE, "services", false));
    let i = next(i.advance(refused(), no_time()));
    assert_eq!(asked(&i.request()), (DEVICE, "services", true));
    assert!(matches!(
        failure(i.advance(refused(), no_time())),
        InterrogationError::AuthRequired
    ));

    let i = next(Interrogation::start(DEVICE, true).advance(refused(), no_time()));
    assert!(matches!(
        failure(i.advance(refused(), no_time())),
        InterrogationError::AuthRequired
    ));
}

#[test]
fn without_credentials_nothing_is_made_again() {
    let i = Interrogation::start(DEVICE, false);
    let refused = i.advance(Err(InterrogationError::AuthRequired), no_time());
    assert!(matches!(failure(refused), InterrogationError::AuthRequired));

    let i = answer(answer(Interrogation::start(DEVICE, false), INFORMATION), SERVICES);
    assert_eq!(asked(&i.request()), (MEDIA, "profiles", false));
    let i = answer(i, PROFILES);
    assert_eq!(asked(&i.request()), (MEDIA, "p1", false));
}

#[test]
fn a_profile_without_a_stream_is_passed_over() {
    let i = Interrogation::start(DEVICE, true);
    let i = answer(answer(answer(i, INFORMATION), SERVICES), PROFILES);
    let i = next(i.advance(Err(InterrogationError::Timeout), no_time()));
    assert_eq!(asked(&i.request()), (MEDIA, "p2", true));
    let i = answer(i, "<r/>");
    assert_eq!(asked(&i.request()), (DEVICE, "capabilities", true));
    match i.advance(Ok(CAPABILITIES.to_string()), no_time()) {
        Progress::Done(details) => assert!(details.streams.is_empty()),
        other => panic!("{:?}", other),
    }
}

#[test]
fn other_failures_end_the_interrogation() {
    let timeout = || Err(InterrogationError::Timeout);
    let i = Interrogation::start(DEVICE, true);
    assert!(matches!(failure(i.advance(timeout(), no_time())), InterrogationError::Timeout));
    let i = answer(Interrogation::start(DEVICE, true), INFORMATION);
    assert!(matches!(failure(i.advance(timeout(), no_time())), InterrogationError::Timeout));
    let i = answer(answer(Interrogation::start(DEVICE, true), INFORMATION), SERVICES);
    assert!(matches!(failure(i.advance(timeout(), no_time())), InterrogationError::Timeout));
    let i = answer(answer(Interrogation::start(DEVICE, true), INFORMATION), SERVICES);
    assert!(matches!(
        failure(i.advance(Ok("<r/>".to_string()), no_time())),
        InterrogationError::InvalidResponse(_)
    ));
    let i = Interrogation::start(DEVICE, true);
    assert!(matches!(
        failure(i.advance(Ok("<a></b>".to_string()), no_time())),
        InterrogationError::XmlParsing(_)
    ));
}

fn unknown_device() -> DeviceInfo {
    DeviceInfo {
        manufacturer: String::new(),
        model: String::new(),
        firmware_version: String::new(),
        serial_number: String::new(),
        hardware_id: String::new(),
    }
}

#[test]
fn a_device_without_a_media_service_is_of_no_use() {
    let subject = Subject { device_url: DEVICE.to_string(), has_credentials: true };
    let services = vec![ServiceInfo {
        namespace: "http://www.onvif.org/ver10/device/wsdl".to_string(),
        url: "http://10.0.0.1/d".to_string(),
        version: "1.0".to_string(),
    }];
    match failure(follow_services(subject, unknown_device(), false, Ok(services))) {
        InterrogationError::ServiceUnavailable(m) => {
            assert_eq!(m, "Media service not found in GetServices response")
        }
        other => panic!("{:?}", other),
    }
    let subject = Subject { device_url: DEVICE.to_string(), has_credentials: true };
    let i = next(follow_information(subject, true, Ok(unknown_device())));
    assert_eq!(asked(&i.request()), (DEVICE, "services", false));
}

#[test]
fn messages_carry_credentials_only_if_authenticated() {
    let credentials =
        Credentials { username: "admin".to_string(), password: "password".to_string() };
    let operations = [
        (Operation::DeviceInformation, "<tds:GetDeviceInformation/>", "device/wsdl/GetDeviceInformation"),
        (Operation::Services, "<tds:GetServices>", "device/wsdl/GetServices"),
        (Operation::Profiles, "<trt:GetProfiles/>", "media/wsdl/GetProfiles"),
        (
            Operation::StreamUri("p1".to_string()),
            "<trt:ProfileToken>p1</trt:ProfileToken>",
            "media/wsdl/GetStreamUri",
        ),
        (Operation::Capabilities, "<tds:GetCapabilities>", "device/wsdl/GetCapabilities"),
    ];
    for (operation, part, action) in operations {
        assert_eq!(operation.soap_action(), format!("http://www.onvif.org/ver10/{}", action));
        let mut request = OnvifRequest { url: String::new(), operation, authenticated: false };
        let plain = request.message(Some(&credentials));
        assert!(plain.contains(part) && !plain.contains("wsse:Security"));
        request.authenticated = true;
        let message = request.message(Some(&credentials));
        assert!(message.contains(part));
        assert!(message.contains("<wsse:Username>admin</wsse:Username>"));
        assert!(!message.contains("password<"));
        assert_eq!(request.message(None), plain);
    }
    assert_eq!(CONTENT_TYPE, "application/soap+xml");
}

#[test]
fn credentials_are_tested_with_one_request() {
    let request = credentials_request(DEVICE);
    assert_eq!(asked(&request), (DEVICE, "information", true));
    assert_eq!(credentials_verdict(Ok(String::new())).unwrap(), true);
    assert_eq!(credentials_verdict(Err(InterrogationError::AuthFailed)).unwrap(), false);
    let http = Err(InterrogationError::Http("400".to_string()));
    assert_eq!(credentials_verdict(http).unwrap(), false);
    assert!(matches!(
        credentials_verdict(Err(InterrogationError::AuthRequired)),
        Err(InterrogationError::AuthRequired)
    ));
    assert!(matches!(
        credentials_verdict(Err(InterrogationError::Timeout)),
        Err(InterrogationError::Timeout)
    ));
}
