//! The SOAP messages that are sent: the WS-Discovery probe and the ONVIF requests.

use crate::auth;
use crate::text;
use uuid::Uuid;
use vstd::prelude::*;

verus! {

// ---------------------------------------------------------------------------------------------
// The probe
// ---------------------------------------------------------------------------------------------

/// The probe up to its message id
pub const PROBE_START: &'static str = r#"<?xml version="1.0" encoding="UTF-8"?>
<soap:Envelope
    xmlns:soap="http://www.w3.org/2003/05/soap-envelope"
    xmlns:wsa="http://schemas.xmlsoap.org/ws/2004/08/addressing"
    xmlns:wsd="http://schemas.xmlsoap.org/ws/2005/04/discovery"
    xmlns:dn="http://www.onvif.org/ver10/network/wsdl">
    <soap:Header>
        <wsa:Action>http://schemas.xmlsoap.org/ws/2005/04/discovery/Probe</wsa:Action>
        <wsa:MessageID>uuid:"#;

/// The probe behind its message id
pub const PROBE_END: &'static str = r#"</wsa:MessageID>
        <wsa:ReplyTo>
            <wsa:Address>http://schemas.xmlsoap.org/ws/2004/08/addressing/role/anonymous</wsa:Address>
        </wsa:ReplyTo>
        <wsa:To>urn:schemas-xmlsoap-org:ws:2005:04:discovery</wsa:To>
    </soap:Header>
    <soap:Body>
        <wsd:Probe>
            <wsd:Types>dn:NetworkVideoTransmitter</wsd:Types>
        </wsd:Probe>
    </soap:Body>
</soap:Envelope>"#;

/// `c` is a hexadecimal digit, its letters in lower case.
pub open spec fn is_hex_digit(c: char) -> bool {
    ('0' <= c && c <= '9') || ('a' <= c && c <= 'f')
}

/// A random UUID in text: groups of 8, 4, 4, 4 and 12 hexadecimal digits, with the version and
/// the variant in their places.
pub open spec fn is_random_uuid(s: Seq<char>) -> bool {
    &&& s.len() == 36
    &&& s[8] == '-' && s[13] == '-' && s[18] == '-' && s[23] == '-'
    &&& forall|i: int|
        0 <= i < 36 && i != 8 && i != 13 && i != 18 && i != 23 ==> is_hex_digit(#[trigger] s[i])
    &&& s[14] == '4'
    &&& s[19] == '8' || s[19] == '9' || s[19] == 'a' || s[19] == 'b'
}

/// The probe with a message id.
pub open spec fn probe_message(id: Seq<char>) -> Seq<char> {
    PROBE_START@ + id + PROBE_END@
}

/// `uuid::Uuid::new_v4` and its `to_string`: a random UUID in text. It panics if the machine has
/// no source of randomness.
#[verifier::external_body]
fn new_message_id() -> (r: String)
    ensures
        is_random_uuid(r@),
{
    Uuid::new_v4().to_string()
}

/// The WS-Discovery Probe message with the message id `id`
pub fn probe_with_id(id: &str) -> (r: String)
    ensures
        r@ == probe_message(id@),
{
    PROBE_START.to_owned().concat(id).concat(PROBE_END)
}

/// Generate a WS-Discovery Probe message
pub fn generate_ws_discovery_probe() -> (r: String)
    ensures
        exists|id: Seq<char>| #[trigger] is_random_uuid(id) && r@ == probe_message(id),
{
    let id = new_message_id();
    probe_with_id(&id)
}

// ---------------------------------------------------------------------------------------------
// Requests
// ---------------------------------------------------------------------------------------------

/// The view of a user name or password that may be missing.
pub open spec fn given(secret: Option<&str>) -> Option<Seq<char>> {
    match secret {
        Some(s) => Some(s@),
        None => None,
    }
}

/// `header` is what a request carries in its header: the authentication, where there is both a
/// user name and a password, and nothing otherwise.
pub open spec fn is_request_header(
    header: Seq<char>,
    username: Option<Seq<char>>,
    password: Option<Seq<char>>,
) -> bool {
    match (username, password) {
        (Some(user), Some(pass)) => auth::is_auth_header(header, user, pass),
        _ => header == Seq::<char>::empty(),
    }
}

/// What a request carries in its header.
fn request_header(username: Option<&str>, password: Option<&str>) -> (r: String)
    ensures
        is_request_header(r@, given(username), given(password)),
{
    if let (Some(user), Some(pass)) = (username, password) {
        auth::generate_wsse_auth_header(user, pass)
    } else {
        String::new()
    }
}

// ---------------------------------------------------------------------------------------------
// GetDeviceInformation
// ---------------------------------------------------------------------------------------------

/// A GetDeviceInformation request up to its header
pub const DEVICE_INFORMATION_START: &'static str = r#"<?xml version="1.0" encoding="UTF-8"?>
<SOAP-ENV:Envelope
    xmlns:SOAP-ENV="http://www.w3.org/2003/05/soap-envelope"
    xmlns:tds="http://www.onvif.org/ver10/device/wsdl">
    <SOAP-ENV:Header>
        "#;

/// A GetDeviceInformation request behind its header
pub const DEVICE_INFORMATION_END: &'static str = r#"
    </SOAP-ENV:Header>
    <SOAP-ENV:Body>
        <tds:GetDeviceInformation/>
    </SOAP-ENV:Body>
</SOAP-ENV:Envelope>"#;

/// A GetDeviceInformation request with what it carries in its header.
pub open spec fn device_information_message(header: Seq<char>) -> Seq<char> {
    DEVICE_INFORMATION_START@ + header + DEVICE_INFORMATION_END@
}

/// The GetDeviceInformation request with a given header
pub fn device_information_request(header: &str) -> (r: String)
    ensures
        r@ == device_information_message(header@),
{
    DEVICE_INFORMATION_START.to_owned().concat(header).concat(DEVICE_INFORMATION_END)
}

/// Generate ONVIF GetDeviceInformation request
pub fn generate_get_device_information(username: Option<&str>, password: Option<&str>) -> (r: String)
    ensures
        exists|header: Seq<char>| #[trigger]
            is_request_header(header, given(username), given(password)) && r@ == device_information_message(header),
        username is None || password is None ==> r@ == device_information_message(Seq::empty()),
{
    let header = request_header(username, password);
    device_information_request(&header)
}

// ---------------------------------------------------------------------------------------------
// GetCapabilities
// ---------------------------------------------------------------------------------------------

/// A GetCapabilities request up to its header
pub const CAPABILITIES_START: &'static str = r#"<?xml version="1.0" encoding="UTF-8"?>
<SOAP-ENV:Envelope
    xmlns:SOAP-ENV="http://www.w3.org/2003/05/soap-envelope"
    xmlns:tds="http://www.onvif.org/ver10/device/wsdl"
    xmlns:tt="http://www.onvif.org/ver10/schema">
    <SOAP-ENV:Header>
        "#;

/// A GetCapabilities request behind its header
pub const CAPABILITIES_END: &'static str = r#"
    </SOAP-ENV:Header>
    <SOAP-ENV:Body>
        <tds:GetCapabilities>
            <tds:Category>All</tds:Category>
        </tds:GetCapabilities>
    </SOAP-ENV:Body>
</SOAP-ENV:Envelope>"#;

/// A GetCapabilities request with what it carries in its header.
pub open spec fn capabilities_message(header: Seq<char>) -> Seq<char> {
    CAPABILITIES_START@ + header + CAPABILITIES_END@
}

/// The GetCapabilities request with a given header
pub fn capabilities_request(header: &str) -> (r: String)
    ensures
        r@ == capabilities_message(header@),
{
    CAPABILITIES_START.to_owned().concat(header).concat(CAPABILITIES_END)
}

/// Generate ONVIF GetCapabilities request
pub fn generate_get_capabilities(username: Option<&str>, password: Option<&str>) -> (r: String)
    ensures
        exists|header: Seq<char>| #[trigger]
            is_request_header(header, given(username), given(password)) && r@ == capabilities_message(header),
        username is None || password is None ==> r@ == capabilities_message(Seq::empty()),
{
    let header = request_header(username, password);
    capabilities_request(&header)
}

// ---------------------------------------------------------------------------------------------
// GetProfiles
// ---------------------------------------------------------------------------------------------

/// A GetProfiles request up to its header
pub const PROFILES_START: &'static str = r#"<?xml version="1.0" encoding="UTF-8"?>
<SOAP-ENV:Envelope
    xmlns:SOAP-ENV="http://www.w3.org/2003/05/soap-envelope"
    xmlns:trt="http://www.onvif.org/ver10/media/wsdl">
    <SOAP-ENV:Header>
        "#;

/// A GetProfiles request behind its header
pub const PROFILES_END: &'static str = r#"
    </SOAP-ENV:Header>
    <SOAP-ENV:Body>
        <trt:GetProfiles/>
    </SOAP-ENV:Body>
</SOAP-ENV:Envelope>"#;

/// A GetProfiles request with what it carries in its header.
pub open spec fn profiles_message(header: Seq<char>) -> Seq<char> {
    PROFILES_START@ + header + PROFILES_END@
}

/// The GetProfiles request with a given header
pub fn profiles_request(header: &str) -> (r: String)
    ensures
        r@ == profiles_message(header@),
{
    PROFILES_START.to_owned().concat(header).concat(PROFILES_END)
}

/// Generate ONVIF GetProfiles request
pub fn generate_get_profiles(username: Option<&str>, password: Option<&str>) -> (r: String)
    ensures
        exists|header: Seq<char>| #[trigger]
            is_request_header(header, given(username), given(password)) && r@ == profiles_message(header),
        username is None || password is None ==> r@ == profiles_message(Seq::empty()),
{
    let header = request_header(username, password);
    profiles_request(&header)
}

// ---------------------------------------------------------------------------------------------
// GetServices
// ---------------------------------------------------------------------------------------------

/// A GetServices request up to its header
pub const SERVICES_START: &'static str = r#"<?xml version="1.0" encoding="UTF-8"?>
<SOAP-ENV:Envelope
    xmlns:SOAP-ENV="http://www.w3.org/2003/05/soap-envelope"
    xmlns:tds="http://www.onvif.org/ver10/device/wsdl">
    <SOAP-ENV:Header>
        "#;

/// A GetServices request behind its header
pub const SERVICES_END: &'static str = r#"
    </SOAP-ENV:Header>
    <SOAP-ENV:Body>
        <tds:GetServices>
            <tds:IncludeCapability>false</tds:IncludeCapability>
        </tds:GetServices>
    </SOAP-ENV:Body>
</SOAP-ENV:Envelope>"#;

/// A GetServices request with what it carries in its header.
pub open spec fn services_message(header: Seq<char>) -> Seq<char> {
    SERVICES_START@ + header + SERVICES_END@
}

/// The GetServices request with a given header
pub fn services_request(header: &str) -> (r: String)
    ensures
        r@ == services_message(header@),
{
    SERVICES_START.to_owned().concat(header).concat(SERVICES_END)
}

/// Generate ONVIF GetServices request
pub fn generate_get_services(username: Option<&str>, password: Option<&str>) -> (r: String)
    ensures
        exists|header: Seq<char>| #[trigger]
            is_request_header(header, given(username), given(password)) && r@ == services_message(header),
        username is None || password is None ==> r@ == services_message(Seq::empty()),
{
    let header = request_header(username, password);
    services_request(&header)
}

// ---------------------------------------------------------------------------------------------
// GetStreamUri
// ---------------------------------------------------------------------------------------------

/// A GetStreamUri request up to its header
pub const STREAM_URI_START: &'static str = r#"<?xml version="1.0" encoding="UTF-8"?>
<SOAP-ENV:Envelope
    xmlns:SOAP-ENV="http://www.w3.org/2003/05/soap-envelope"
    xmlns:trt="http://www.onvif.org/ver10/media/wsdl"
    xmlns:tt="http://www.onvif.org/ver10/schema">
    <SOAP-ENV:Header>
        "#;

/// A GetStreamUri request between its header and the profile
pub const STREAM_URI_PROFILE: &'static str = r#"
    </SOAP-ENV:Header>
    <SOAP-ENV:Body>
        <trt:GetStreamUri>
            <trt:StreamSetup>
                <tt:Stream>RTP-Unicast</tt:Stream>
                <tt:Transport>
                    <tt:Protocol>RTSP</tt:Protocol>
                </tt:Transport>
            </trt:StreamSetup>
            <trt:ProfileToken>"#;

/// A GetStreamUri request behind the profile
pub const STREAM_URI_END: &'static str = r#"</trt:ProfileToken>
        </trt:GetStreamUri>
    </SOAP-ENV:Body>
</SOAP-ENV:Envelope>"#;

/// A GetStreamUri request for a profile, with what it carries in its header.
pub open spec fn stream_uri_message(header: Seq<char>, profile_token: Seq<char>) -> Seq<char> {
    STREAM_URI_START@ + header + STREAM_URI_PROFILE@ + profile_token + STREAM_URI_END@
}

/// The GetStreamUri request for a profile with a given header
pub fn stream_uri_request(header: &str, profile_token: &str) -> (r: String)
    ensures
        r@ == stream_uri_message(header@, profile_token@),
{
    STREAM_URI_START.to_owned().concat(header).concat(STREAM_URI_PROFILE).concat(profile_token).concat(
        STREAM_URI_END,
    )
}

/// Generate ONVIF GetStreamUri request
pub fn generate_get_stream_uri(
    username: Option<&str>,
    password: Option<&str>,
    profile_token: &str,
) -> (r: String)
    ensures
        exists|header: Seq<char>| #[trigger]
            is_request_header(header, given(username), given(password)) && r@ == stream_uri_message(
                header,
                profile_token@,
            ),
        username is None || password is None ==> r@ == stream_uri_message(
            Seq::empty(),
            profile_token@,
        ),
{
    let header = request_header(username, password);
    stream_uri_request(&header, profile_token)
}

// ---------------------------------------------------------------------------------------------
// Laws
// ---------------------------------------------------------------------------------------------

/// The authentication goes with a request exactly if there are a user name and a password; there is
/// nothing in the header otherwise.
pub proof fn law_request_header(
    header: Seq<char>,
    username: Option<Seq<char>>,
    password: Option<Seq<char>>,
)
    requires
        is_request_header(header, username, password),
    ensures
        username is None || password is None ==> header.len() == 0,
        username is Some && password is Some ==> auth::is_auth_header(
            header,
            username->0,
            password->0,
        ),
{
}

/// What stands between two parts is contained.
proof fn lemma_middle(a: Seq<char>, p: Seq<char>, b: Seq<char>)
    ensures
        text::contains(a + p + b, p),
{
    text::law_occurs_at(a, p, b);
}

/// Whatever the header of the request is, it stands whole between the header tags, and the body
/// asks for the device information.
pub proof fn law_device_information_message(header: Seq<char>)
    ensures
        text::contains(
            device_information_message(header),
            "<SOAP-ENV:Header>\n        "@ + header + "\n    </SOAP-ENV:Header>"@,
        ),
        text::contains(device_information_message(header), "<tds:GetDeviceInformation/>"@),
{
    reveal_strlit(
        r#"<?xml version="1.0" encoding="UTF-8"?>
<SOAP-ENV:Envelope
    xmlns:SOAP-ENV="http://www.w3.org/2003/05/soap-envelope"
    xmlns:tds="http://www.onvif.org/ver10/device/wsdl">
    <SOAP-ENV:Header>
        "#,
    );
    reveal_strlit(
        r#"
    </SOAP-ENV:Header>
    <SOAP-ENV:Body>
        <tds:GetDeviceInformation/>
    </SOAP-ENV:Body>
</SOAP-ENV:Envelope>"#,
    );
    reveal_strlit("<SOAP-ENV:Header>\n        ");
    reveal_strlit("\n    </SOAP-ENV:Header>");
    reveal_strlit("<tds:GetDeviceInformation/>");
    let start = DEVICE_INFORMATION_START@;
    let end = DEVICE_INFORMATION_END@;
    let message = device_information_message(header);
    let enclosed = "<SOAP-ENV:Header>\n        "@ + header + "\n    </SOAP-ENV:Header>"@;
    assert(start.subrange(179, 205) =~= "<SOAP-ENV:Header>\n        "@);
    assert(end.subrange(0, 23) =~= "\n    </SOAP-ENV:Header>"@);
    assert(message =~= start.take(179) + enclosed + end.skip(23));
    lemma_middle(start.take(179), enclosed, end.skip(23));
    assert(end.subrange(52, 79) =~= "<tds:GetDeviceInformation/>"@);
    assert(message =~= start + header + end.take(52) + "<tds:GetDeviceInformation/>"@ + end.skip(79));
    lemma_middle(start + header + end.take(52), "<tds:GetDeviceInformation/>"@, end.skip(79));
}

/// Whatever the header of the request is, it stands whole between the header tags, and the body
/// asks for all capabilities.
pub proof fn law_capabilities_message(header: Seq<char>)
    ensures
        text::contains(
            capabilities_message(header),
            "<SOAP-ENV:Header>\n        "@ + header + "\n    </SOAP-ENV:Header>"@,
        ),
        text::contains(capabilities_message(header), "<tds:GetCapabilities>"@),
        text::contains(capabilities_message(header), "<tds:Category>All</tds:Category>"@),
{
    reveal_strlit(
        r#"<?xml version="1.0" encoding="UTF-8"?>
<SOAP-ENV:Envelope
    xmlns:SOAP-ENV="http://www.w3.org/2003/05/soap-envelope"
    xmlns:tds="http://www.onvif.org/ver10/device/wsdl"
    xmlns:tt="http://www.onvif.org/ver10/schema">
    <SOAP-ENV:Header>
        "#,
    );
    reveal_strlit(
        r#"
    </SOAP-ENV:Header>
    <SOAP-ENV:Body>
        <tds:GetCapabilities>
            <tds:Category>All</tds:Category>
        </tds:GetCapabilities>
    </SOAP-ENV:Body>
</SOAP-ENV:Envelope>"#,
    );
    reveal_strlit("<SOAP-ENV:Header>\n        ");
    reveal_strlit("\n    </SOAP-ENV:Header>");
    reveal_strlit("<tds:GetCapabilities>");
    reveal_strlit("<tds:Category>All</tds:Category>");
    let start = CAPABILITIES_START@;
    let end = CAPABILITIES_END@;
    let message = capabilities_message(header);
    let enclosed = "<SOAP-ENV:Header>\n        "@ + header + "\n    </SOAP-ENV:Header>"@;
    assert(start.subrange(228, 254) =~= "<SOAP-ENV:Header>\n        "@);
    assert(end.subrange(0, 23) =~= "\n    </SOAP-ENV:Header>"@);
    assert(message =~= start.take(228) + enclosed + end.skip(23));
    lemma_middle(start.take(228), enclosed, end.skip(23));
    assert(end.subrange(52, 73) =~= "<tds:GetCapabilities>"@);
    assert(message =~= start + header + end.take(52) + "<tds:GetCapabilities>"@ + end.skip(73));
    lemma_middle(start + header + end.take(52), "<tds:GetCapabilities>"@, end.skip(73));
    assert(end.subrange(86, 118) =~= "<tds:Category>All</tds:Category>"@);
    assert(message =~= start + header + end.take(86) + "<tds:Category>All</tds:Category>"@ + end.skip(118));
    lemma_middle(start + header + end.take(86), "<tds:Category>All</tds:Category>"@, end.skip(118));
}

/// Whatever the header of the request is, it stands whole between the header tags, and the body
/// asks for the profiles.
pub proof fn law_profiles_message(header: Seq<char>)
    ensures
        text::contains(
            profiles_message(header),
            "<SOAP-ENV:Header>\n        "@ + header + "\n    </SOAP-ENV:Header>"@,
        ),
        text::contains(profiles_message(header), "<trt:GetProfiles/>"@),
{
    reveal_strlit(
        r#"<?xml version="1.0" encoding="UTF-8"?>
<SOAP-ENV:Envelope
    xmlns:SOAP-ENV="http://www.w3.org/2003/05/soap-envelope"
    xmlns:trt="http://www.onvif.org/ver10/media/wsdl">
    <SOAP-ENV:Header>
        "#,
    );
    reveal_strlit(
        r#"
    </SOAP-ENV:Header>
    <SOAP-ENV:Body>
        <trt:GetProfiles/>
    </SOAP-ENV:Body>
</SOAP-ENV:Envelope>"#,
    );
    reveal_strlit("<SOAP-ENV:Header>\n        ");
    reveal_strlit("\n    </SOAP-ENV:Header>");
    reveal_strlit("<trt:GetProfiles/>");
    let start = PROFILES_START@;
    let end = PROFILES_END@;
    let message = profiles_message(header);
    let enclosed = "<SOAP-ENV:Header>\n        "@ + header + "\n    </SOAP-ENV:Header>"@;
    assert(start.subrange(178, 204) =~= "<SOAP-ENV:Header>\n        "@);
    assert(end.subrange(0, 23) =~= "\n    </SOAP-ENV:Header>"@);
    assert(message =~= start.take(178) + enclosed + end.skip(23));
    lemma_middle(start.take(178), enclosed, end.skip(23));
    assert(end.subrange(52, 70) =~= "<trt:GetProfiles/>"@);
    assert(message =~= start + header + end.take(52) + "<trt:GetProfiles/>"@ + end.skip(70));
    lemma_middle(start + header + end.take(52), "<trt:GetProfiles/>"@, end.skip(70));
}

/// Whatever the header of the request is, it stands whole between the header tags, and the body
/// asks for the services.
pub proof fn law_services_message(header: Seq<char>)
    ensures
        text::contains(
            services_message(header),
            "<SOAP-ENV:Header>\n        "@ + header + "\n    </SOAP-ENV:Header>"@,
        ),
        text::contains(services_message(header), "<tds:GetServices>"@),
{
    reveal_strlit(
        r#"<?xml version="1.0" encoding="UTF-8"?>
<SOAP-ENV:Envelope
    xmlns:SOAP-ENV="http://www.w3.org/2003/05/soap-envelope"
    xmlns:tds="http://www.onvif.org/ver10/device/wsdl">
    <SOAP-ENV:Header>
        "#,
    );
    reveal_strlit(
        r#"
    </SOAP-ENV:Header>
    <SOAP-ENV:Body>
        <tds:GetServices>
            <tds:IncludeCapability>false</tds:IncludeCapability>
        </tds:GetServices>
    </SOAP-ENV:Body>
</SOAP-ENV:Envelope>"#,
    );
    reveal_strlit("<SOAP-ENV:Header>\n        ");
    reveal_strlit("\n    </SOAP-ENV:Header>");
    reveal_strlit("<tds:GetServices>");
    let start = SERVICES_START@;
    let end = SERVICES_END@;
    let message = services_message(header);
    let enclosed = "<SOAP-ENV:Header>\n        "@ + header + "\n    </SOAP-ENV:Header>"@;
    assert(start.subrange(179, 205) =~= "<SOAP-ENV:Header>\n        "@);
    assert(end.subrange(0, 23) =~= "\n    </SOAP-ENV:Header>"@);
    assert(message =~= start.take(179) + enclosed + end.skip(23));
    lemma_middle(start.take(179), enclosed, end.skip(23));
    assert(end.subrange(52, 69) =~= "<tds:GetServices>"@);
    assert(message =~= start + header + end.take(52) + "<tds:GetServices>"@ + end.skip(69));
    lemma_middle(start + header + end.take(52), "<tds:GetServices>"@, end.skip(69));
}

/// Whatever the header of the request is, it stands whole between the header tags, and the body
/// asks for the stream of the profile with the token, which stands whole between its tags.
pub proof fn law_stream_uri_message(header: Seq<char>, token: Seq<char>)
    ensures
        text::contains(
            stream_uri_message(header, token),
            "<SOAP-ENV:Header>\n        "@ + header + "\n    </SOAP-ENV:Header>"@,
        ),
        text::contains(stream_uri_message(header, token), "<trt:GetStreamUri>"@),
        text::contains(
            stream_uri_message(header, token),
            "<trt:ProfileToken>"@ + token + "</trt:ProfileToken>"@,
        ),
{
    reveal_strlit(
        r#"<?xml version="1.0" encoding="UTF-8"?>
<SOAP-ENV:Envelope
    xmlns:SOAP-ENV="http://www.w3.org/2003/05/soap-envelope"
    xmlns:trt="http://www.onvif.org/ver10/media/wsdl"
    xmlns:tt="http://www.onvif.org/ver10/schema">
    <SOAP-ENV:Header>
        "#,
    );
    reveal_strlit(
        r#"
    </SOAP-ENV:Header>
    <SOAP-ENV:Body>
        <trt:GetStreamUri>
            <trt:StreamSetup>
                <tt:Stream>RTP-Unicast</tt:Stream>
                <tt:Transport>
                    <tt:Protocol>RTSP</tt:Protocol>
                </tt:Transport>
            </trt:StreamSetup>
            <trt:ProfileToken>"#,
    );
    reveal_strlit(
        r#"</trt:ProfileToken>
        </trt:GetStreamUri>
    </SOAP-ENV:Body>
</SOAP-ENV:Envelope>"#,
    );
    reveal_strlit("<SOAP-ENV:Header>\n        ");
    reveal_strlit("\n    </SOAP-ENV:Header>");
    reveal_strlit("<trt:GetStreamUri>");
    reveal_strlit("<trt:ProfileToken>");
    reveal_strlit("</trt:ProfileToken>");
    let start = STREAM_URI_START@;
    let middle = STREAM_URI_PROFILE@;
    let end = STREAM_URI_END@;
    let message = stream_uri_message(header, token);
    let enclosed = "<SOAP-ENV:Header>\n        "@ + header + "\n    </SOAP-ENV:Header>"@;
    let named = "<trt:ProfileToken>"@ + token + "</trt:ProfileToken>"@;
    assert(start.subrange(227, 253) =~= "<SOAP-ENV:Header>\n        "@);
    assert(middle.subrange(0, 23) =~= "\n    </SOAP-ENV:Header>"@);
    assert(middle.subrange(52, 70) =~= "<trt:GetStreamUri>"@);
    assert(middle.subrange(310, 328) =~= "<trt:ProfileToken>"@);
    assert(end.subrange(0, 19) =~= "</trt:ProfileToken>"@);
    let rest = middle.skip(23) + token + end;
    assert(message =~= start.take(227) + enclosed + rest);
    lemma_middle(start.take(227), enclosed, rest);
    let before = start + header + middle.take(52);
    let after = middle.skip(70) + token + end;
    assert(message =~= before + "<trt:GetStreamUri>"@ + after);
    lemma_middle(before, "<trt:GetStreamUri>"@, after);
    let head = start + header + middle.take(310);
    assert(message =~= head + named + end.skip(19));
    lemma_middle(head, named, end.skip(19));
}

/// A probe carries its message id, whole, and asks for network video transmitters.
pub proof fn law_probe_message(id: Seq<char>)
    ensures
        text::contains(probe_message(id), "<wsa:MessageID>uuid:"@ + id + "</wsa:MessageID>"@),
        text::contains(probe_message(id), "<wsd:Types>dn:NetworkVideoTransmitter</wsd:Types>"@),
{
    reveal_strlit(
        r#"<?xml version="1.0" encoding="UTF-8"?>
<soap:Envelope
    xmlns:soap="http://www.w3.org/2003/05/soap-envelope"
    xmlns:wsa="http://schemas.xmlsoap.org/ws/2004/08/addressing"
    xmlns:wsd="http://schemas.xmlsoap.org/ws/2005/04/discovery"
    xmlns:dn="http://www.onvif.org/ver10/network/wsdl">
    <soap:Header>
        <wsa:Action>http://schemas.xmlsoap.org/ws/2005/04/discovery/Probe</wsa:Action>
        <wsa:MessageID>uuid:"#,
    );
    reveal_strlit(
        r#"</wsa:MessageID>
        <wsa:ReplyTo>
            <wsa:Address>http://schemas.xmlsoap.org/ws/2004/08/addressing/role/anonymous</wsa:Address>
        </wsa:ReplyTo>
        <wsa:To>urn:schemas-xmlsoap-org:ws:2005:04:discovery</wsa:To>
    </soap:Header>
    <soap:Body>
        <wsd:Probe>
            <wsd:Types>dn:NetworkVideoTransmitter</wsd:Types>
        </wsd:Probe>
    </soap:Body>
</soap:Envelope>"#,
    );
    reveal_strlit("<wsa:MessageID>uuid:");
    reveal_strlit("</wsa:MessageID>");
    reveal_strlit("<wsd:Types>dn:NetworkVideoTransmitter</wsd:Types>");
    let start = PROBE_START@;
    let end = PROBE_END@;
    let message = probe_message(id);
    let named = "<wsa:MessageID>uuid:"@ + id + "</wsa:MessageID>"@;
    assert(start.subrange(409, 429) =~= "<wsa:MessageID>uuid:"@);
    assert(end.subrange(0, 16) =~= "</wsa:MessageID>"@);
    assert(message =~= start.take(409) + named + end.skip(16));
    lemma_middle(start.take(409), named, end.skip(16));
    assert(end.subrange(302, 351) =~= "<wsd:Types>dn:NetworkVideoTransmitter</wsd:Types>"@);
    assert(message =~= start + id + end.take(302) + "<wsd:Types>dn:NetworkVideoTransmitter</wsd:Types>"@ + end.skip(351));
    lemma_middle(start + id + end.take(302), "<wsd:Types>dn:NetworkVideoTransmitter</wsd:Types>"@, end.skip(351));
}

} // verus!
