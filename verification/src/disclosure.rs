//! What an authenticated request discloses: the password does not stand in it as a text of its own.

use crate::auth;
use crate::interrogation;
use crate::interrogation::OperationView;
use crate::soap;
use crate::tags;
use vstd::prelude::*;

verus! {

// ---------------------------------------------------------------------------------------------
// The header
// ---------------------------------------------------------------------------------------------

/// `s` could be the base64 of a nonce or of a hash.
pub open spec fn is_digest_text(s: Seq<char>) -> bool {
    &&& s.len() == 24 || s.len() == 28
    &&& forall|i: int| 0 <= i < s.len() ==> auth::is_base64_char(#[trigger] s[i])
}

/// A password that could not be told from another text of a header: the user name, a nonce or a
/// digest, a time, or the indentation between two tags.
pub open spec fn blends_in(username: Seq<char>, password: Seq<char>) -> bool {
    ||| password == username
    ||| is_digest_text(password)
    ||| auth::is_time_text(password)
    ||| tags::is_indent(password, 2)
    ||| tags::is_indent(password, 3)
    ||| tags::is_indent(password, 4)
}

/// Base64 holds no bracket.
proof fn lemma_base64_text(data: Seq<u8>)
    ensures
        tags::no_brackets(auth::base64_text(data)),
        data.len() == 16 || data.len() == 20 ==> is_digest_text(auth::base64_text(data)),
{
    let s = auth::base64_text(data);
    auth::lemma_base64_chars(data, '<');
    auth::lemma_base64_chars(data, '>');
    assert forall|i: int| 0 <= i < s.len() implies auth::is_base64_char(#[trigger] s[i]) by {
        assert(s.contains(s[i]));
        auth::lemma_base64_chars(data, s[i]);
    }
}

/// A time holds no bracket.
proof fn lemma_time_text(s: Seq<char>)
    requires
        auth::is_time_text(s),
    ensures
        tags::no_brackets(s),
{
    assert forall|i: int| 0 <= i < s.len() implies #[trigger] s[i] != '<' && s[i] != '>' by {
        assert(auth::is_time_char(s[i]));
    }
}

/// What stands between two tags of a header up to the user name, and how it starts and ends.
proof fn lemma_header_start(p: Seq<char>)
    requires
        tags::no_brackets(p),
    ensures
        tags::between_tags(auth::HEADER_START@, p) ==> {
            ||| tags::is_indent(p, 3)
            ||| tags::is_indent(p, 4)
        },
        auth::HEADER_START@.len() > 0,
        auth::HEADER_START@[0] == '<',
        auth::HEADER_START@.last() == '>',
{
    let s = auth::HEADER_START@;
    reveal_strlit(
        r#"<wsse:Security SOAP-ENV:mustUnderstand="true" xmlns:wsse="http://docs.oasis-open.org/wss/2004/01/oasis-200401-wss-wssecurity-secext-1.0.xsd" xmlns:wsu="http://docs.oasis-open.org/wss/2004/01/oasis-200401-wss-wssecurity-utility-1.0.xsd">
            <wsse:UsernameToken wsu:Id="UsernameToken-1">
                <wsse:Username>"#,
    );
    tags::lemma_gap(s, p);
    if tags::between_tags(s, p) {
        let i = choose|i: int| tags::gap_at(s, p, i);
        assert(i == 235 || i == 293);
        if i == 235 {
            tags::lemma_gap_filled(s, p, 235, 249);
        } else {
            tags::lemma_gap_filled(s, p, 293, 311);
        }
    }
}

/// What stands between two tags of a header between the user name and the digest, and
/// how it starts and ends.
proof fn lemma_header_password(p: Seq<char>)
    requires
        tags::no_brackets(p),
    ensures
        tags::between_tags(auth::HEADER_PASSWORD@, p) ==> tags::is_indent(p, 4),
        auth::HEADER_PASSWORD@.len() > 0,
        auth::HEADER_PASSWORD@[0] == '<',
        auth::HEADER_PASSWORD@.last() == '>',
{
    let s = auth::HEADER_PASSWORD@;
    reveal_strlit(
        r#"</wsse:Username>
                <wsse:Password Type="http://docs.oasis-open.org/wss/2004/01/oasis-200401-wss-username-token-profile-1.0#PasswordDigest">"#,
    );
    tags::lemma_gap(s, p);
    if tags::between_tags(s, p) {
        let i = choose|i: int| tags::gap_at(s, p, i);
        assert(i == 15);
        tags::lemma_gap_filled(s, p, 15, 33);
    }
}

/// What stands between two tags of a header between the digest and the nonce, and
/// how it starts and ends.
proof fn lemma_header_nonce(p: Seq<char>)
    requires
        tags::no_brackets(p),
    ensures
        tags::between_tags(auth::HEADER_NONCE@, p) ==> tags::is_indent(p, 4),
        auth::HEADER_NONCE@.len() > 0,
        auth::HEADER_NONCE@[0] == '<',
        auth::HEADER_NONCE@.last() == '>',
{
    let s = auth::HEADER_NONCE@;
    reveal_strlit(
        r#"</wsse:Password>
                <wsse:Nonce EncodingType="http://docs.oasis-open.org/wss/2004/01/oasis-200401-wss-soap-message-security-1.0#Base64Binary">"#,
    );
    tags::lemma_gap(s, p);
    if tags::between_tags(s, p) {
        let i = choose|i: int| tags::gap_at(s, p, i);
        assert(i == 15);
        tags::lemma_gap_filled(s, p, 15, 33);
    }
}

/// What stands between two tags of a header between the nonce and the time, and
/// how it starts and ends.
proof fn lemma_header_created(p: Seq<char>)
    requires
        tags::no_brackets(p),
    ensures
        tags::between_tags(auth::HEADER_CREATED@, p) ==> tags::is_indent(p, 4),
        auth::HEADER_CREATED@.len() > 0,
        auth::HEADER_CREATED@[0] == '<',
        auth::HEADER_CREATED@.last() == '>',
{
    let s = auth::HEADER_CREATED@;
    reveal_strlit(
        r#"</wsse:Nonce>
                <wsu:Created>"#,
    );
    tags::lemma_gap(s, p);
    if tags::between_tags(s, p) {
        let i = choose|i: int| tags::gap_at(s, p, i);
        assert(i == 12);
        tags::lemma_gap_filled(s, p, 12, 30);
    }
}

/// What stands between two tags of a header behind the time, and how it starts and ends.
proof fn lemma_header_end(p: Seq<char>)
    requires
        tags::no_brackets(p),
    ensures
        tags::between_tags(auth::HEADER_END@, p) ==> {
            ||| tags::is_indent(p, 3)
            ||| tags::is_indent(p, 2)
        },
        auth::HEADER_END@.len() > 0,
        auth::HEADER_END@[0] == '<',
        auth::HEADER_END@.last() == '>',
{
    let s = auth::HEADER_END@;
    reveal_strlit(
        r#"</wsu:Created>
            </wsse:UsernameToken>
        </wsse:Security>"#,
    );
    tags::lemma_gap(s, p);
    if tags::between_tags(s, p) {
        let i = choose|i: int| tags::gap_at(s, p, i);
        assert(i == 13 || i == 47);
        if i == 13 {
            tags::lemma_gap_filled(s, p, 13, 27);
        } else {
            tags::lemma_gap_filled(s, p, 47, 57);
        }
    }
}

/// The password does not stand between two tags of a header, unless it could not be told from
/// another text of the header. Neither it nor the user name may hold a bracket of a tag.
pub proof fn law_password_not_between_tags(
    header: Seq<char>,
    username: Seq<char>,
    password: Seq<char>,
)
    requires
        auth::is_auth_header(header, username, password),
        tags::no_brackets(username),
        tags::no_brackets(password),
        !blends_in(username, password),
    ensures
        !tags::between_tags(header, password),
{
    let (nonce, secs) = choose|nonce: Seq<u8>, secs: int|
        auth::is_wsse_header(header, username, password, nonce, secs);
    let created = auth::utc_text(secs, auth::TIME_PATTERN@);
    let digest = auth::password_digest(nonce, created, password);
    let nonce_text = auth::base64_text(nonce);
    lemma_base64_text(nonce);
    lemma_base64_text(auth::sha1_hash(auth::digest_input(nonce, created, password)));
    lemma_time_text(created);
    lemma_header_start(password);
    lemma_header_password(password);
    lemma_header_nonce(password);
    lemma_header_created(password);
    lemma_header_end(password);
    let from_created = auth::HEADER_CREATED@ + created + auth::HEADER_END@;
    let from_nonce = auth::HEADER_NONCE@ + nonce_text + from_created;
    let from_password = auth::HEADER_PASSWORD@ + digest + from_nonce;
    assert(header =~= auth::HEADER_START@ + username + from_password);
    tags::lemma_split(auth::HEADER_START@, username, from_password, password);
    tags::lemma_split(auth::HEADER_PASSWORD@, digest, from_nonce, password);
    tags::lemma_split(auth::HEADER_NONCE@, nonce_text, from_created, password);
    tags::lemma_split(auth::HEADER_CREATED@, created, auth::HEADER_END@, password);
}

/// A header starts and ends with a tag.
proof fn lemma_header_ends(header: Seq<char>, username: Seq<char>, password: Seq<char>)
    requires
        auth::is_auth_header(header, username, password),
    ensures
        header.len() > 0,
        header[0] == '<',
        header.last() == '>',
{
    let (nonce, secs) = choose|nonce: Seq<u8>, secs: int|
        auth::is_wsse_header(header, username, password, nonce, secs);
    lemma_header_start(Seq::empty());
    lemma_header_end(Seq::empty());
}

// ---------------------------------------------------------------------------------------------
// The requests
// ---------------------------------------------------------------------------------------------

/// A line break and up to `most` steps of indentation.
pub open spec fn is_layout(s: Seq<char>, most: nat) -> bool {
    exists|steps: nat| steps <= most && tags::is_indent(s, steps)
}

/// `s` stands between two tags of every request for an operation.
pub open spec fn is_common_text(operation: OperationView, s: Seq<char>) -> bool {
    match operation {
        OperationView::DeviceInformation => is_layout(s, 4),
        OperationView::Services => is_layout(s, 4) || s == "false"@,
        OperationView::Profiles => is_layout(s, 4),
        OperationView::StreamUri(token) => {
            is_layout(s, 5) || s == "RTP-Unicast"@ || s == "RTSP"@ || s == token
        },
        OperationView::Capabilities => is_layout(s, 4) || s == "All"@,
    }
}

/// The token that a request names holds no bracket of a tag.
pub open spec fn plain_token(operation: OperationView) -> bool {
    operation matches OperationView::StreamUri(token) ==> tags::no_brackets(token)
}

/// What stands between two tags of a GetDeviceInformation request up to its header, and
/// how it starts and ends.
proof fn lemma_device_information_start(p: Seq<char>)
    requires
        tags::no_brackets(p),
    ensures
        tags::between_tags(soap::DEVICE_INFORMATION_START@, p) ==> {
            ||| tags::is_indent(p, 0)
            ||| tags::is_indent(p, 1)
        },
        soap::DEVICE_INFORMATION_START@.len() > 9,
        soap::DEVICE_INFORMATION_START@[soap::DEVICE_INFORMATION_START@.len() - 10] == '>',
        tags::is_indent(soap::DEVICE_INFORMATION_START@.skip(soap::DEVICE_INFORMATION_START@.len() - 9), 2),
{
    let s = soap::DEVICE_INFORMATION_START@;
    reveal_strlit(
        r#"<?xml version="1.0" encoding="UTF-8"?>
<SOAP-ENV:Envelope
    xmlns:SOAP-ENV="http://www.w3.org/2003/05/soap-envelope"
    xmlns:tds="http://www.onvif.org/ver10/device/wsdl">
    <SOAP-ENV:Header>
        "#,
    );
    tags::lemma_gap(s, p);
    if tags::between_tags(s, p) {
        let i = choose|i: int| tags::gap_at(s, p, i);
        assert(i == 37 || i == 173);
        if i == 37 {
            tags::lemma_gap_filled(s, p, 37, 39);
        } else {
            tags::lemma_gap_filled(s, p, 173, 179);
        }
    }
}

/// What stands between two tags of a GetDeviceInformation request behind its header, and
/// how it starts and ends.
proof fn lemma_device_information_end(p: Seq<char>)
    requires
        tags::no_brackets(p),
    ensures
        tags::between_tags(soap::DEVICE_INFORMATION_END@, p) ==> {
            ||| tags::is_indent(p, 1)
            ||| tags::is_indent(p, 2)
            ||| tags::is_indent(p, 0)
        },
        soap::DEVICE_INFORMATION_END@.len() > 5,
        soap::DEVICE_INFORMATION_END@[5] == '<',
        tags::is_indent(soap::DEVICE_INFORMATION_END@.take(5), 1),
        soap::DEVICE_INFORMATION_END@.last() == '>',
{
    let s = soap::DEVICE_INFORMATION_END@;
    reveal_strlit(
        r#"
    </SOAP-ENV:Header>
    <SOAP-ENV:Body>
        <tds:GetDeviceInformation/>
    </SOAP-ENV:Body>
</SOAP-ENV:Envelope>"#,
    );
    tags::lemma_gap(s, p);
    if tags::between_tags(s, p) {
        let i = choose|i: int| tags::gap_at(s, p, i);
        assert(i == 22 || i == 42 || i == 78 || i == 99);
        if i == 22 {
            tags::lemma_gap_filled(s, p, 22, 28);
        } else if i == 42 {
            tags::lemma_gap_filled(s, p, 42, 52);
        } else if i == 78 {
            tags::lemma_gap_filled(s, p, 78, 84);
        } else {
            tags::lemma_gap_filled(s, p, 99, 101);
        }
    }
}

/// What stands between two tags of a GetServices request up to its header, and
/// how it starts and ends.
proof fn lemma_services_start(p: Seq<char>)
    requires
        tags::no_brackets(p),
    ensures
        tags::between_tags(soap::SERVICES_START@, p) ==> {
            ||| tags::is_indent(p, 0)
            ||| tags::is_indent(p, 1)
        },
        soap::SERVICES_START@.len() > 9,
        soap::SERVICES_START@[soap::SERVICES_START@.len() - 10] == '>',
        tags::is_indent(soap::SERVICES_START@.skip(soap::SERVICES_START@.len() - 9), 2),
{
    let s = soap::SERVICES_START@;
    reveal_strlit(
        r#"<?xml version="1.0" encoding="UTF-8"?>
<SOAP-ENV:Envelope
    xmlns:SOAP-ENV="http://www.w3.org/2003/05/soap-envelope"
    xmlns:tds="http://www.onvif.org/ver10/device/wsdl">
    <SOAP-ENV:Header>
        "#,
    );
    tags::lemma_gap(s, p);
    if tags::between_tags(s, p) {
        let i = choose|i: int| tags::gap_at(s, p, i);
        assert(i == 37 || i == 173);
        if i == 37 {
            tags::lemma_gap_filled(s, p, 37, 39);
        } else {
            tags::lemma_gap_filled(s, p, 173, 179);
        }
    }
}

/// What stands between two tags of a GetServices request behind its header, and
/// how it starts and ends.
proof fn lemma_services_end(p: Seq<char>)
    requires
        tags::no_brackets(p),
    ensures
        tags::between_tags(soap::SERVICES_END@, p) ==> {
            ||| tags::is_indent(p, 1)
            ||| tags::is_indent(p, 2)
            ||| tags::is_indent(p, 3)
            ||| p == "false"@
            ||| tags::is_indent(p, 0)
        },
        soap::SERVICES_END@.len() > 5,
        soap::SERVICES_END@[5] == '<',
        tags::is_indent(soap::SERVICES_END@.take(5), 1),
        soap::SERVICES_END@.last() == '>',
{
    let s = soap::SERVICES_END@;
    reveal_strlit(
        r#"
    </SOAP-ENV:Header>
    <SOAP-ENV:Body>
        <tds:GetServices>
            <tds:IncludeCapability>false</tds:IncludeCapability>
        </tds:GetServices>
    </SOAP-ENV:Body>
</SOAP-ENV:Envelope>"#,
    );
    reveal_strlit("false");
    tags::lemma_gap(s, p);
    if tags::between_tags(s, p) {
        let i = choose|i: int| tags::gap_at(s, p, i);
        assert(i == 22 || i == 42 || i == 68 || i == 104 || i == 133 || i == 160 || i == 181);
        if i == 22 {
            tags::lemma_gap_filled(s, p, 22, 28);
        } else if i == 42 {
            tags::lemma_gap_filled(s, p, 42, 52);
        } else if i == 68 {
            tags::lemma_gap_filled(s, p, 68, 82);
        } else if i == 104 {
            tags::lemma_gap_filled(s, p, 104, 110);
            assert(p =~= "false"@);
        } else if i == 133 {
            tags::lemma_gap_filled(s, p, 133, 143);
        } else if i == 160 {
            tags::lemma_gap_filled(s, p, 160, 166);
        } else {
            tags::lemma_gap_filled(s, p, 181, 183);
        }
    }
}

/// What stands between two tags of a GetProfiles request up to its header, and
/// how it starts and ends.
proof fn lemma_profiles_start(p: Seq<char>)
    requires
        tags::no_brackets(p),
    ensures
        tags::between_tags(soap::PROFILES_START@, p) ==> {
            ||| tags::is_indent(p, 0)
            ||| tags::is_indent(p, 1)
        },
        soap::PROFILES_START@.len() > 9,
        soap::PROFILES_START@[soap::PROFILES_START@.len() - 10] == '>',
        tags::is_indent(soap::PROFILES_START@.skip(soap::PROFILES_START@.len() - 9), 2),
{
    let s = soap::PROFILES_START@;
    reveal_strlit(
        r#"<?xml version="1.0" encoding="UTF-8"?>
<SOAP-ENV:Envelope
    xmlns:SOAP-ENV="http://www.w3.org/2003/05/soap-envelope"
    xmlns:trt="http://www.onvif.org/ver10/media/wsdl">
    <SOAP-ENV:Header>
        "#,
    );
    tags::lemma_gap(s, p);
    if tags::between_tags(s, p) {
        let i = choose|i: int| tags::gap_at(s, p, i);
        assert(i == 37 || i == 172);
        if i == 37 {
            tags::lemma_gap_filled(s, p, 37, 39);
        } else {
            tags::lemma_gap_filled(s, p, 172, 178);
        }
    }
}

/// What stands between two tags of a GetProfiles request behind its header, and
/// how it starts and ends.
proof fn lemma_profiles_end(p: Seq<char>)
    requires
        tags::no_brackets(p),
    ensures
        tags::between_tags(soap::PROFILES_END@, p) ==> {
            ||| tags::is_indent(p, 1)
            ||| tags::is_indent(p, 2)
            ||| tags::is_indent(p, 0)
        },
        soap::PROFILES_END@.len() > 5,
        soap::PROFILES_END@[5] == '<',
        tags::is_indent(soap::PROFILES_END@.take(5), 1),
        soap::PROFILES_END@.last() == '>',
{
    let s = soap::PROFILES_END@;
    reveal_strlit(
        r#"
    </SOAP-ENV:Header>
    <SOAP-ENV:Body>
        <trt:GetProfiles/>
    </SOAP-ENV:Body>
</SOAP-ENV:Envelope>"#,
    );
    tags::lemma_gap(s, p);
    if tags::between_tags(s, p) {
        let i = choose|i: int| tags::gap_at(s, p, i);
        assert(i == 22 || i == 42 || i == 69 || i == 90);
        if i == 22 {
            tags::lemma_gap_filled(s, p, 22, 28);
        } else if i == 42 {
            tags::lemma_gap_filled(s, p, 42, 52);
        } else if i == 69 {
            tags::lemma_gap_filled(s, p, 69, 75);
        } else {
            tags::lemma_gap_filled(s, p, 90, 92);
        }
    }
}

/// What stands between two tags of a GetStreamUri request up to its header, and
/// how it starts and ends.
proof fn lemma_stream_uri_start(p: Seq<char>)
    requires
        tags::no_brackets(p),
    ensures
        tags::between_tags(soap::STREAM_URI_START@, p) ==> {
            ||| tags::is_indent(p, 0)
            ||| tags::is_indent(p, 1)
        },
        soap::STREAM_URI_START@.len() > 9,
        soap::STREAM_URI_START@[soap::STREAM_URI_START@.len() - 10] == '>',
        tags::is_indent(soap::STREAM_URI_START@.skip(soap::STREAM_URI_START@.len() - 9), 2),
{
    let s = soap::STREAM_URI_START@;
    reveal_strlit(
        r#"<?xml version="1.0" encoding="UTF-8"?>
<SOAP-ENV:Envelope
    xmlns:SOAP-ENV="http://www.w3.org/2003/05/soap-envelope"
    xmlns:trt="http://www.onvif.org/ver10/media/wsdl"
    xmlns:tt="http://www.onvif.org/ver10/schema">
    <SOAP-ENV:Header>
        "#,
    );
    tags::lemma_gap(s, p);
    if tags::between_tags(s, p) {
        let i = choose|i: int| tags::gap_at(s, p, i);
        assert(i == 37 || i == 221);
        if i == 37 {
            tags::lemma_gap_filled(s, p, 37, 39);
        } else {
            tags::lemma_gap_filled(s, p, 221, 227);
        }
    }
}

/// What stands between two tags of a GetStreamUri request between its header and the profile, and
/// how it starts and ends.
proof fn lemma_stream_uri_profile(p: Seq<char>)
    requires
        tags::no_brackets(p),
    ensures
        tags::between_tags(soap::STREAM_URI_PROFILE@, p) ==> {
            ||| tags::is_indent(p, 1)
            ||| tags::is_indent(p, 2)
            ||| tags::is_indent(p, 3)
            ||| tags::is_indent(p, 4)
            ||| p == "RTP-Unicast"@
            ||| tags::is_indent(p, 5)
            ||| p == "RTSP"@
        },
        soap::STREAM_URI_PROFILE@.len() > 5,
        soap::STREAM_URI_PROFILE@[5] == '<',
        tags::is_indent(soap::STREAM_URI_PROFILE@.take(5), 1),
        soap::STREAM_URI_PROFILE@.last() == '>',
{
    let s = soap::STREAM_URI_PROFILE@;
    reveal_strlit(
        r#"
    </SOAP-ENV:Header>
    <SOAP-ENV:Body>
        <trt:GetStreamUri>
            <trt:StreamSetup>
                <tt:Stream>RTP-Unicast</tt:Stream>
                <tt:Transport>
                    <tt:Protocol>RTSP</tt:Protocol>
                </tt:Transport>
            </trt:StreamSetup>
            <trt:ProfileToken>"#,
    );
    reveal_strlit("RTP-Unicast");
    reveal_strlit("RTSP");
    tags::lemma_gap(s, p);
    if tags::between_tags(s, p) {
        let i = choose|i: int| tags::gap_at(s, p, i);
        assert(
            i == 22 || i == 42 || i == 69 || i == 99 || i == 127 || i == 150 || i == 181
                || i == 215 || i == 233 || i == 265 || i == 296
        );
        if i == 22 {
            tags::lemma_gap_filled(s, p, 22, 28);
        } else if i == 42 {
            tags::lemma_gap_filled(s, p, 42, 52);
        } else if i == 69 {
            tags::lemma_gap_filled(s, p, 69, 83);
        } else if i == 99 {
            tags::lemma_gap_filled(s, p, 99, 117);
        } else if i == 127 {
            tags::lemma_gap_filled(s, p, 127, 139);
            assert(p =~= "RTP-Unicast"@);
        } else if i == 150 {
            tags::lemma_gap_filled(s, p, 150, 168);
        } else if i == 181 {
            tags::lemma_gap_filled(s, p, 181, 203);
        } else if i == 215 {
            tags::lemma_gap_filled(s, p, 215, 220);
            assert(p =~= "RTSP"@);
        } else if i == 233 {
            tags::lemma_gap_filled(s, p, 233, 251);
        } else if i == 265 {
            tags::lemma_gap_filled(s, p, 265, 279);
        } else {
            tags::lemma_gap_filled(s, p, 296, 310);
        }
    }
}

/// What stands between two tags of a GetCapabilities request up to its header, and
/// how it starts and ends.
proof fn lemma_capabilities_start(p: Seq<char>)
    requires
        tags::no_brackets(p),
    ensures
        tags::between_tags(soap::CAPABILITIES_START@, p) ==> {
            ||| tags::is_indent(p, 0)
            ||| tags::is_indent(p, 1)
        },
        soap::CAPABILITIES_START@.len() > 9,
        soap::CAPABILITIES_START@[soap::CAPABILITIES_START@.len() - 10] == '>',
        tags::is_indent(soap::CAPABILITIES_START@.skip(soap::CAPABILITIES_START@.len() - 9), 2),
{
    let s = soap::CAPABILITIES_START@;
    reveal_strlit(
        r#"<?xml version="1.0" encoding="UTF-8"?>
<SOAP-ENV:Envelope
    xmlns:SOAP-ENV="http://www.w3.org/2003/05/soap-envelope"
    xmlns:tds="http://www.onvif.org/ver10/device/wsdl"
    xmlns:tt="http://www.onvif.org/ver10/schema">
    <SOAP-ENV:Header>
        "#,
    );
    tags::lemma_gap(s, p);
    if tags::between_tags(s, p) {
        let i = choose|i: int| tags::gap_at(s, p, i);
        assert(i == 37 || i == 222);
        if i == 37 {
            tags::lemma_gap_filled(s, p, 37, 39);
        } else {
            tags::lemma_gap_filled(s, p, 222, 228);
        }
    }
}

/// What stands between two tags of a GetCapabilities request behind its header, and
/// how it starts and ends.
proof fn lemma_capabilities_end(p: Seq<char>)
    requires
        tags::no_brackets(p),
    ensures
        tags::between_tags(soap::CAPABILITIES_END@, p) ==> {
            ||| tags::is_indent(p, 1)
            ||| tags::is_indent(p, 2)
            ||| tags::is_indent(p, 3)
            ||| p == "All"@
            ||| tags::is_indent(p, 0)
        },
        soap::CAPABILITIES_END@.len() > 5,
        soap::CAPABILITIES_END@[5] == '<',
        tags::is_indent(soap::CAPABILITIES_END@.take(5), 1),
        soap::CAPABILITIES_END@.last() == '>',
{
    let s = soap::CAPABILITIES_END@;
    reveal_strlit(
        r#"
    </SOAP-ENV:Header>
    <SOAP-ENV:Body>
        <tds:GetCapabilities>
            <tds:Category>All</tds:Category>
        </tds:GetCapabilities>
    </SOAP-ENV:Body>
</SOAP-ENV:Envelope>"#,
    );
    reveal_strlit("All");
    tags::lemma_gap(s, p);
    if tags::between_tags(s, p) {
        let i = choose|i: int| tags::gap_at(s, p, i);
        assert(i == 22 || i == 42 || i == 72 || i == 99 || i == 117 || i == 148 || i == 169);
        if i == 22 {
            tags::lemma_gap_filled(s, p, 22, 28);
        } else if i == 42 {
            tags::lemma_gap_filled(s, p, 42, 52);
        } else if i == 72 {
            tags::lemma_gap_filled(s, p, 72, 86);
        } else if i == 99 {
            tags::lemma_gap_filled(s, p, 99, 103);
            assert(p =~= "All"@);
        } else if i == 117 {
            tags::lemma_gap_filled(s, p, 117, 127);
        } else if i == 148 {
            tags::lemma_gap_filled(s, p, 148, 154);
        } else {
            tags::lemma_gap_filled(s, p, 169, 171);
        }
    }
}

/// What stands between two tags of a GetStreamUri request behind the profile, and
/// how it starts and ends.
proof fn lemma_stream_uri_end(p: Seq<char>)
    requires
        tags::no_brackets(p),
    ensures
        tags::between_tags(soap::STREAM_URI_END@, p) ==> {
            ||| tags::is_indent(p, 2)
            ||| tags::is_indent(p, 1)
            ||| tags::is_indent(p, 0)
        },
        soap::STREAM_URI_END@.len() > 0,
        soap::STREAM_URI_END@[0] == '<',
{
    let s = soap::STREAM_URI_END@;
    reveal_strlit(
        r#"</trt:ProfileToken>
        </trt:GetStreamUri>
    </SOAP-ENV:Body>
</SOAP-ENV:Envelope>"#,
    );
    tags::lemma_gap(s, p);
    if tags::between_tags(s, p) {
        let i = choose|i: int| tags::gap_at(s, p, i);
        assert(i == 18 || i == 46 || i == 67);
        if i == 18 {
            tags::lemma_gap_filled(s, p, 18, 28);
        } else if i == 46 {
            tags::lemma_gap_filled(s, p, 46, 52);
        } else {
            tags::lemma_gap_filled(s, p, 67, 69);
        }
    }
}

/// Text that is no indentation stands in a message only if it stands in one of its parts.
proof fn lemma_message_parts(start: Seq<char>, header: Seq<char>, end: Seq<char>, p: Seq<char>)
    requires
        tags::no_brackets(p),
        !tags::is_indent(p, 1),
        !tags::is_indent(p, 2),
        start.len() > 9,
        start[start.len() - 10] == '>',
        tags::is_indent(start.skip(start.len() - 9), 2),
        header.len() > 0,
        header[0] == '<',
        header.last() == '>',
        end.len() > 5,
        end[5] == '<',
        tags::is_indent(end.take(5), 1),
    ensures
        tags::between_tags(start + header + end, p) ==> tags::between_tags(start, p)
            || tags::between_tags(header, p) || tags::between_tags(end, p),
{
    let before = start.take(start.len() - 9);
    let inner = start.skip(start.len() - 9);
    let outer = end.take(5);
    let behind = end.skip(5);
    assert(start =~= before + inner);
    assert(end =~= outer + behind);
    lemma_indent(inner, 2);
    lemma_indent(outer, 1);
    assert(start + header + end =~= before + inner + (header + outer + behind));
    tags::lemma_split(before, inner, header + outer + behind, p);
    tags::lemma_split(header, outer, behind, p);
    tags::lemma_part(before, inner, p);
    tags::lemma_part(outer, behind, p);
}

/// Indentation holds no bracket.
proof fn lemma_indent(s: Seq<char>, steps: nat)
    requires
        tags::is_indent(s, steps),
    ensures
        tags::no_brackets(s),
{
    assert forall|i: int| 0 <= i < s.len() implies #[trigger] s[i] != '<' && s[i] != '>' by {
        if i > 0 {
            assert(s[i] == ' ');
        }
    }
}

/// The password does not stand between two tags of an authenticated request, unless it could not
/// be told from another text of the header, or from a text that stands in every such request.
/// Neither it nor the user name nor the token may hold a bracket of a tag.
pub proof fn law_password_not_between_tags_of_request(
    operation: OperationView,
    header: Seq<char>,
    username: Seq<char>,
    password: Seq<char>,
)
    requires
        soap::is_request_header(header, Some(username), Some(password)),
        tags::no_brackets(username),
        tags::no_brackets(password),
        plain_token(operation),
        !blends_in(username, password),
        !is_common_text(operation, password),
    ensures
        !tags::between_tags(interrogation::message_of(operation, header), password),
{
    let p = password;
    law_password_not_between_tags(header, username, p);
    lemma_header_ends(header, username, p);
    assert forall|steps: nat| steps <= 4 implies !tags::is_indent(p, steps) by {}
    match operation {
        OperationView::DeviceInformation => {
            lemma_device_information_start(p);
            lemma_device_information_end(p);
            lemma_message_parts(
                soap::DEVICE_INFORMATION_START@,
                header,
                soap::DEVICE_INFORMATION_END@,
                p,
            );
        },
        OperationView::Services => {
            lemma_services_start(p);
            lemma_services_end(p);
            lemma_message_parts(
                soap::SERVICES_START@,
                header,
                soap::SERVICES_END@,
                p,
            );
        },
        OperationView::Profiles => {
            lemma_profiles_start(p);
            lemma_profiles_end(p);
            lemma_message_parts(
                soap::PROFILES_START@,
                header,
                soap::PROFILES_END@,
                p,
            );
        },
        OperationView::StreamUri(token) => {
            lemma_stream_uri_start(p);
            lemma_stream_uri_profile(p);
            lemma_stream_uri_end(p);
            let start = soap::STREAM_URI_START@;
            let middle = soap::STREAM_URI_PROFILE@;
            let end = middle + token + soap::STREAM_URI_END@;
            assert(interrogation::message_of(operation, header) =~= start + header + end);
            assert(end.take(5) =~= middle.take(5));
            assert(!tags::is_indent(p, 5));
            lemma_message_parts(start, header, end, p);
            tags::lemma_split(middle, token, soap::STREAM_URI_END@, p);
        },
        OperationView::Capabilities => {
            lemma_capabilities_start(p);
            lemma_capabilities_end(p);
            lemma_message_parts(
                soap::CAPABILITIES_START@,
                header,
                soap::CAPABILITIES_END@,
                p,
            );
        },
    }
}

} // verus!
