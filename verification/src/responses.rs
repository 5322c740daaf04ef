//! What a device says it is and can do.

use crate::device::{
    AuthMethod, DeviceCapabilities, DeviceCapabilitiesView, DeviceInfo, DeviceInfoView,
    InterrogationError, InterrogationErrorView,
};
use crate::elements;
use crate::text;
use crate::xml;
use crate::xml::{XmlEvent, XmlEventView};
use vstd::prelude::*;

verus! {

// ---------------------------------------------------------------------------------------------
// GetDeviceInformation
// ---------------------------------------------------------------------------------------------

/// The last text of an element `local` among the first `n` events.
pub open spec fn known_text(events: Seq<XmlEventView>, n: int, local: Seq<char>) -> Seq<char> {
    match elements::last_text(events, n, local, Seq::empty()) {
        Some(t) => t,
        None => "Unknown"@,
    }
}

/// What the first `n` events say about the device.
pub open spec fn device_info_at(events: Seq<XmlEventView>, n: int) -> DeviceInfoView {
    DeviceInfoView {
        manufacturer: known_text(events, n, "Manufacturer"@),
        model: known_text(events, n, "Model"@),
        firmware_version: known_text(events, n, "FirmwareVersion"@),
        serial_number: known_text(events, n, "SerialNumber"@),
        hardware_id: known_text(events, n, "HardwareId"@),
    }
}

/// What a GetDeviceInformation response says, or why it cannot be read.
pub open spec fn device_info_of(events: Seq<XmlEventView>) -> Result<
    DeviceInfoView,
    InterrogationErrorView,
> {
    let n = events.len() as int;
    match elements::failure(events, n) {
        Some(m) => Err(InterrogationErrorView::XmlParsing(m)),
        None => Ok(device_info_at(events, n)),
    }
}

/// Devices may use any namespace prefixes: two responses whose names agree behind the last colon
/// say the same.
pub proof fn law_prefixes_do_not_matter(a: Seq<XmlEventView>, b: Seq<XmlEventView>)
    requires
        elements::all_same_but_prefix(a, b),
    ensures
        device_info_of(a) == device_info_of(b),
{
    let n = a.len() as int;
    let any = Seq::<char>::empty();
    elements::law_prefixes_do_not_matter(a, b, n, "Manufacturer"@, any);
    elements::law_prefixes_do_not_matter(a, b, n, "Model"@, any);
    elements::law_prefixes_do_not_matter(a, b, n, "FirmwareVersion"@, any);
    elements::law_prefixes_do_not_matter(a, b, n, "SerialNumber"@, any);
    elements::law_prefixes_do_not_matter(a, b, n, "HardwareId"@, any);
}

/// `value` is the last text of an element `local`, or `Unknown` if there is none.
pub open spec fn is_told(events: Seq<XmlEventView>, local: Seq<char>, value: Seq<char>) -> bool {
    let n = events.len() as int;
    ||| elements::is_last_text(events, n, local, Seq::empty(), value)
    ||| elements::has_no_text(events, n, local, Seq::empty()) && value == "Unknown"@
}

/// The value that is read is the one that is told.
proof fn lemma_known_text(events: Seq<XmlEventView>, local: Seq<char>)
    requires
        local.len() > 0,
        !local.contains(':'),
    ensures
        is_told(events, local, known_text(events, events.len() as int, local)),
{
    elements::law_last_text(events, events.len() as int, local, Seq::empty());
}

/// A device is what the last text of each element says, whole and unchanged, and unknown where no
/// element says it; a response that can be read throughout is never refused.
pub proof fn law_device_info(events: Seq<XmlEventView>)
    ensures
        device_info_of(events) is Ok <==> forall|k: int|
            0 <= k < events.len() ==> !elements::unreadable(#[trigger] events[k]),
        device_info_of(events) matches Err(e) ==> e is XmlParsing && elements::is_first_failure(
            events,
            events.len() as int,
            e->XmlParsing_0,
        ),
        device_info_of(events) matches Ok(info) ==> {
            &&& is_told(events, "Manufacturer"@, info.manufacturer)
            &&& is_told(events, "Model"@, info.model)
            &&& is_told(events, "FirmwareVersion"@, info.firmware_version)
            &&& is_told(events, "SerialNumber"@, info.serial_number)
            &&& is_told(events, "HardwareId"@, info.hardware_id)
        },
{
    elements::law_failure(events, events.len() as int);
    reveal_strlit("Manufacturer");
    lemma_known_text(events, "Manufacturer"@);
    reveal_strlit("Model");
    lemma_known_text(events, "Model"@);
    reveal_strlit("FirmwareVersion");
    lemma_known_text(events, "FirmwareVersion"@);
    reveal_strlit("SerialNumber");
    lemma_known_text(events, "SerialNumber"@);
    reveal_strlit("HardwareId");
    lemma_known_text(events, "HardwareId"@);
}

/// The view of a device description, or of why there is none.
pub open spec fn device_info_view(r: Result<DeviceInfo, InterrogationError>) -> Result<
    DeviceInfoView,
    InterrogationErrorView,
> {
    match r {
        Ok(info) => Ok(info@),
        Err(e) => Err(e@),
    }
}

/// Reads one text that stands in the element `element`.
fn read_device_text(info: &mut DeviceInfo, element: &str, content: &str)
    ensures
        final(info)@.manufacturer == (if elements::has_local_name(element@, "Manufacturer"@) {
            content@
        } else {
            old(info)@.manufacturer
        }),
        final(info)@.model == (if elements::has_local_name(element@, "Model"@) {
            content@
        } else {
            old(info)@.model
        }),
        final(info)@.firmware_version == (if elements::has_local_name(
            element@,
            "FirmwareVersion"@,
        ) {
            content@
        } else {
            old(info)@.firmware_version
        }),
        final(info)@.serial_number == (if elements::has_local_name(element@, "SerialNumber"@) {
            content@
        } else {
            old(info)@.serial_number
        }),
        final(info)@.hardware_id == (if elements::has_local_name(element@, "HardwareId"@) {
            content@
        } else {
            old(info)@.hardware_id
        }),
{
    proof {
        reveal_strlit("Manufacturer");
        reveal_strlit("Model");
        reveal_strlit("FirmwareVersion");
        reveal_strlit("SerialNumber");
        reveal_strlit("HardwareId");
        assert("Manufacturer"@.len() == 12 && "Model"@.len() == 5);
        assert("FirmwareVersion"@.len() == 15 && "SerialNumber"@.len() == 12);
        assert("HardwareId"@.len() == 10);
        assert("Manufacturer"@[0] != "SerialNumber"@[0]);
    }
    if elements::local_name_is(element, "Manufacturer") {
        info.manufacturer = content.to_owned();
    } else if elements::local_name_is(element, "Model") {
        info.model = content.to_owned();
    } else if elements::local_name_is(element, "FirmwareVersion") {
        info.firmware_version = content.to_owned();
    } else if elements::local_name_is(element, "SerialNumber") {
        info.serial_number = content.to_owned();
    } else if elements::local_name_is(element, "HardwareId") {
        info.hardware_id = content.to_owned();
    }
}

/// Reads a device description out of the events of a response.
pub fn device_info_from_events(events: &Vec<XmlEvent>) -> (r: Result<
    DeviceInfo,
    InterrogationError,
>)
    ensures
        device_info_view(r) == device_info_of(xml::event_views(events@)),
{
    let ghost views = xml::event_views(events@);
    let mut info = DeviceInfo {
        manufacturer: "Unknown".to_owned(),
        model: "Unknown".to_owned(),
        firmware_version: "Unknown".to_owned(),
        serial_number: "Unknown".to_owned(),
        hardware_id: "Unknown".to_owned(),
    };
    let mut element = String::new();
    let mut i: usize = 0;
    while i < events.len()
        invariant
            views == xml::event_views(events@),
            i <= events.len(),
            element@ == elements::element_at(views, i as int),
            elements::failure(views, i as int) is None,
            info@ == device_info_at(views, i as int),
        decreases events.len() - i,
    {
        let ghost n = i as int;
        assert(views[n] == events@[n]@);
        match &events[i] {
            XmlEvent::Start { name, attributes: _ } => {
                element = name.clone();
            },
            XmlEvent::Text(Ok(t)) => {
                read_device_text(&mut info, &element, t);
                assert(info@ =~= device_info_at(views, n + 1));
            },
            XmlEvent::Text(Err(m)) => {
                proof {
                    elements::lemma_failure_lasts(views, n + 1, views.len() as int);
                }
                return Err(
                    InterrogationError::XmlParsing("Text decode error: ".to_owned().concat(m)),
                );
            },
            XmlEvent::End(_) => {
                element = String::new();
            },
            XmlEvent::Failed(m) => {
                proof {
                    elements::lemma_failure_lasts(views, n + 1, views.len() as int);
                }
                return Err(
                    InterrogationError::XmlParsing("XML parsing error: ".to_owned().concat(m)),
                );
            },
            XmlEvent::Other => {},
        }
        i += 1;
    }
    Ok(info)
}

/// Parse GetDeviceInformation response
pub fn parse_device_information_response(xml: &str) -> (r: Result<DeviceInfo, InterrogationError>)
    ensures
        device_info_view(r) == device_info_of(xml::buffered_events(xml@)),
{
    let events = xml::read_buffered(xml);
    device_info_from_events(&events)
}

// ---------------------------------------------------------------------------------------------
// GetCapabilities
// ---------------------------------------------------------------------------------------------

/// What a GetCapabilities response says, or why it is of no use. What the response does not tell
/// by naming a service is assumed.
pub open spec fn capabilities_of(xml: Seq<char>) -> Result<
    DeviceCapabilitiesView,
    InterrogationErrorView,
> {
    if !text::contains(xml, "Media"@) {
        Err(InterrogationErrorView::ServiceUnavailable("Media service not available"@))
    } else {
        Ok(
            DeviceCapabilitiesView {
                auth_methods: seq![AuthMethod::Digest, AuthMethod::Basic],
                onvif_version: "2.0"@,
                ptz_supported: text::contains(xml, "PTZ"@),
                audio_input_supported: text::contains(xml, "AudioSources"@),
                audio_output_supported: text::contains(xml, "AudioOutputs"@),
                video_sources: 1,
                audio_sources: 0,
                profiles: seq!["Profile_1"@],
                analytics_supported: text::contains(xml, "Analytics"@),
                events_supported: text::contains(xml, "Events"@),
            },
        )
    }
}

/// `s` is `p` with something before and behind it.
pub open spec fn holds(s: Seq<char>, p: Seq<char>) -> bool {
    exists|a: Seq<char>, b: Seq<char>| s == #[trigger] (a + p + b)
}

/// A response is accepted exactly if it holds `Media` anywhere, and each capability is there
/// exactly if its name is anywhere in the response, whatever stands before or behind it.
pub proof fn law_capabilities(xml: Seq<char>)
    ensures
        capabilities_of(xml) is Ok <==> holds(xml, "Media"@),
        capabilities_of(xml) matches Err(e) ==> e == InterrogationErrorView::ServiceUnavailable(
            "Media service not available"@,
        ),
        capabilities_of(xml) matches Ok(c) ==> {
            &&& c.ptz_supported <==> holds(xml, "PTZ"@)
            &&& c.audio_input_supported <==> holds(xml, "AudioSources"@)
            &&& c.audio_output_supported <==> holds(xml, "AudioOutputs"@)
            &&& c.analytics_supported <==> holds(xml, "Analytics"@)
            &&& c.events_supported <==> holds(xml, "Events"@)
            &&& c.auth_methods == seq![AuthMethod::Digest, AuthMethod::Basic]
            &&& c.onvif_version == "2.0"@
            &&& c.video_sources == 1 && c.audio_sources == 0
            &&& c.profiles == seq!["Profile_1"@]
        },
{
    text::law_contains(xml, "Media"@);
    text::law_contains(xml, "PTZ"@);
    text::law_contains(xml, "AudioSources"@);
    text::law_contains(xml, "AudioOutputs"@);
    text::law_contains(xml, "Analytics"@);
    text::law_contains(xml, "Events"@);
}

/// A namespace prefix, or anything else that is put into a response without breaking a name, takes
/// no capability away.
pub proof fn law_capabilities_grow(a: Seq<char>, more: Seq<char>, b: Seq<char>, p: Seq<char>)
    requires
        holds(a, p) || holds(b, p),
    ensures
        holds(a + more + b, p),
{
    let s = a + more + b;
    if holds(a, p) {
        let (x, y) = choose|x: Seq<char>, y: Seq<char>| a == #[trigger] (x + p + y);
        assert(s =~= x + p + (y + more + b));
    } else {
        let (x, y) = choose|x: Seq<char>, y: Seq<char>| b == #[trigger] (x + p + y);
        assert(s =~= (a + more + x) + p + y);
    }
}

/// The view of device capabilities, or of why there are none.
pub open spec fn capabilities_view(r: Result<DeviceCapabilities, InterrogationError>) -> Result<
    DeviceCapabilitiesView,
    InterrogationErrorView,
> {
    match r {
        Ok(capabilities) => Ok(capabilities@),
        Err(e) => Err(e@),
    }
}

/// Parse GetCapabilities response
pub fn parse_capabilities_response(xml: &str) -> (r: Result<
    DeviceCapabilities,
    InterrogationError,
>)
    ensures
        capabilities_view(r) == capabilities_of(xml@),
{
    if !text::has(xml, "Media") {
        return Err(
            InterrogationError::ServiceUnavailable("Media service not available".to_owned()),
        );
    }
    let capabilities = DeviceCapabilities {
        auth_methods: vec![AuthMethod::Digest, AuthMethod::Basic],
        onvif_version: "2.0".to_owned(),
        ptz_supported: text::has(xml, "PTZ"),
        audio_input_supported: text::has(xml, "AudioSources"),
        audio_output_supported: text::has(xml, "AudioOutputs"),
        video_sources: 1,
        audio_sources: 0,
        profiles: vec!["Profile_1".to_owned()],
        analytics_supported: text::has(xml, "Analytics"),
        events_supported: text::has(xml, "Events"),
    };
    assert(capabilities@.auth_methods =~= seq![AuthMethod::Digest, AuthMethod::Basic]);
    assert(capabilities@.profiles =~= seq!["Profile_1"@]);
    Ok(capabilities)
}

/// Extract media service URL from capabilities, which do not hold it: the services of the device
/// name it.
pub fn extract_media_service_url(_capabilities: &DeviceCapabilities) -> (r: Result<
    String,
    InterrogationError,
>)
    ensures
        r matches Err(e) && e@ == InterrogationErrorView::ServiceUnavailable(
            "Media service URL extraction not implemented"@,
        ),
{
    Err(
        InterrogationError::ServiceUnavailable(
            "Media service URL extraction not implemented".to_owned(),
        ),
    )
}

} // verus!
