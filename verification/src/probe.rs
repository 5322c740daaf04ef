//! From the answer to a probe to the device that gave it.

use crate::addr;
use crate::addr::Ipv4Addr;
use crate::discovery::{
    DiscoveredDevice, DiscoveredDeviceView, DiscoveryError, DiscoveryErrorView,
};
use crate::probe_match;
use crate::probe_match::{ProbeMatchInfo, ProbeMatchInfoView};
use crate::scopes;
use crate::text;
use crate::time::Duration;
use crate::xml;
use vstd::prelude::*;

verus! {

// ---------------------------------------------------------------------------------------------
// From an answer to a device
// ---------------------------------------------------------------------------------------------

/// How a device is named: by manufacturer and model, by the manufacturer alone where the model is
/// unknown, and by a common name otherwise.
pub open spec fn device_name(manufacturer: Seq<char>, model: Seq<char>) -> Seq<char> {
    if manufacturer != "Unknown"@ && model != "Unknown"@ {
        manufacturer + " "@ + model
    } else if manufacturer != "Unknown"@ {
        manufacturer
    } else {
        "IP Camera"@
    }
}

/// The whole milliseconds of a span of nanoseconds, wrapped to 64 bits.
pub open spec fn millis(nanos: nat) -> u64 {
    (nanos / 1_000_000 % 0x1_0000_0000_0000_0000) as u64
}

/// The device that an answer tells of, whose address is `ip`, or why it tells of none. Both times
/// are in nanoseconds: from the probe to the answer, and from the UNIX epoch to the answer.
pub open spec fn device_of(
    answer: ProbeMatchInfoView,
    ip: Option<Ipv4Addr>,
    response_time: nat,
    discovered_at: nat,
) -> Result<DiscoveredDeviceView, DiscoveryErrorView> {
    let manufacturer = scopes::manufacturer_of(answer.scopes);
    let model = scopes::model_of(answer.scopes);
    if ip is None {
        Err(DiscoveryErrorView::InvalidResponse("No valid IP address found in XAddrs"@))
    } else if answer.x_addrs.len() == 0 {
        Err(DiscoveryErrorView::InvalidResponse("No XAddrs found in probe match"@))
    } else {
        Ok(
            DiscoveredDeviceView {
                uuid: answer.endpoint_reference,
                name: device_name(manufacturer, model),
                manufacturer,
                model,
                ip_address: ip->0,
                mac_address: scopes::mac_of(answer.scopes),
                device_service_url: answer.x_addrs[0],
                hardware_info: manufacturer + " "@ + model,
                location: scopes::location_of(answer.scopes),
                types: answer.types,
                scopes: answer.scopes,
                metadata_version: answer.metadata_version,
                discovered_at: millis(discovered_at),
                response_time: millis(response_time),
            },
        )
    }
}

/// The view of a device, or of why there is none.
pub open spec fn device_view(r: Result<DiscoveredDevice, DiscoveryError>) -> Result<
    DiscoveredDeviceView,
    DiscoveryErrorView,
> {
    match r {
        Ok(device) => Ok(device@),
        Err(e) => Err(e@),
    }
}

/// The device that an answer tells of, whose address is `ip`
pub fn device_with_ip(
    probe_match: ProbeMatchInfo,
    ip: Option<Ipv4Addr>,
    response_time: Duration,
    discovered_at: Duration,
) -> (r: Result<DiscoveredDevice, DiscoveryError>)
    ensures
        device_view(r) == device_of(probe_match@, ip, response_time@, discovered_at@),
{
    let ip_address = match ip {
        Some(ip) => ip,
        None => {
            return Err(
                DiscoveryError::InvalidResponse("No valid IP address found in XAddrs".to_owned()),
            );
        },
    };
    if probe_match.x_addrs.len() == 0 {
        return Err(DiscoveryError::InvalidResponse("No XAddrs found in probe match".to_owned()));
    }
    let device_service_url = probe_match.x_addrs[0].clone();
    assert(probe_match@.x_addrs[0] == probe_match.x_addrs@[0]@);
    let manufacturer = scopes::extract_manufacturer_from_scopes(probe_match.scopes.as_slice());
    let model = scopes::extract_model_from_scopes(probe_match.scopes.as_slice());
    let mac_address = scopes::extract_mac_address_from_scopes(probe_match.scopes.as_slice());
    let location = scopes::extract_location_from_scopes(probe_match.scopes.as_slice());
    let hardware_info = manufacturer.clone().concat(" ").concat(&model);
    let name = if !text::same(&manufacturer, "Unknown") && !text::same(&model, "Unknown") {
        manufacturer.clone().concat(" ").concat(&model)
    } else if !text::same(&manufacturer, "Unknown") {
        manufacturer.clone()
    } else {
        "IP Camera".to_owned()
    };
    Ok(
        DiscoveredDevice {
            uuid: probe_match.endpoint_reference,
            name,
            manufacturer,
            model,
            ip_address,
            mac_address,
            device_service_url,
            hardware_info,
            location,
            types: probe_match.types,
            scopes: probe_match.scopes,
            metadata_version: probe_match.metadata_version,
            discovered_at: discovered_at.millis_u64(),
            response_time: response_time.millis_u64(),
        },
    )
}

/// The address of the device that an answer tells of.
pub open spec fn answer_address(answer: ProbeMatchInfoView) -> Option<Ipv4Addr> {
    scopes::first_address(scopes::hosts_in(answer.x_addrs), 0)
}

/// Convert a ProbeMatch to a DiscoveredDevice. `response_time` is the time from the probe to the
/// answer, `discovered_at` the time of the answer since the UNIX epoch.
pub fn convert_probe_match_to_device(
    probe_match: ProbeMatchInfo,
    response_time: Duration,
    discovered_at: Duration,
) -> (r: Result<DiscoveredDevice, DiscoveryError>)
    ensures
        device_view(r) == device_of(
            probe_match@,
            answer_address(probe_match@),
            response_time@,
            discovered_at@,
        ),
{
    let ip = scopes::extract_ip_from_xaddrs(probe_match.x_addrs.as_slice());
    device_with_ip(probe_match, ip, response_time, discovered_at)
}

// ---------------------------------------------------------------------------------------------
// Answers
// ---------------------------------------------------------------------------------------------

/// What a datagram turned out to be.
#[derive(Debug)]
pub enum Answer {
    /// Not an answer to a probe, and why
    Unreadable(DiscoveryError),
    /// An answer that tells of no device, and why
    Unusable(DiscoveryError),
    /// An answer that tells of a device
    Device(DiscoveredDevice),
}

/// The view of an `Answer`.
pub enum AnswerView {
    Unreadable(DiscoveryErrorView),
    Unusable(DiscoveryErrorView),
    Device(DiscoveredDeviceView),
}

impl View for Answer {
    type V = AnswerView;

    open spec fn view(&self) -> AnswerView {
        match self {
            Answer::Unreadable(e) => AnswerView::Unreadable(e@),
            Answer::Unusable(e) => AnswerView::Unusable(e@),
            Answer::Device(device) => AnswerView::Device(device@),
        }
    }
}

/// What a response turns out to be.
pub open spec fn answer_of(xml: Seq<char>, response_time: nat, discovered_at: nat) -> AnswerView {
    match probe_match::probe_match_of(xml::buffered_events(xml)) {
        Err(e) => AnswerView::Unreadable(e),
        Ok(info) => match device_of(info, answer_address(info), response_time, discovered_at) {
            Err(e) => AnswerView::Unusable(e),
            Ok(device) => AnswerView::Device(device),
        },
    }
}

/// Reads a response
pub fn read_answer(response: &[u8], response_time: Duration, discovered_at: Duration) -> (r: Answer)
    ensures
        r@ == answer_of(text::lossy_text(response@), response_time@, discovered_at@),
{
    let xml = text::decode_lossy(response);
    match probe_match::parse_probe_match_response(&xml) {
        Err(e) => Answer::Unreadable(e),
        Ok(probe_match) => match convert_probe_match_to_device(
            probe_match,
            response_time,
            discovered_at,
        ) {
            Err(e) => Answer::Unusable(e),
            Ok(device) => Answer::Device(device),
        },
    }
}

// ---------------------------------------------------------------------------------------------
// Laws
// ---------------------------------------------------------------------------------------------

/// A device has the name of its manufacturer, followed by its model if that is known too; only a
/// device of an unknown manufacturer has the common name.
pub proof fn law_device_name(manufacturer: Seq<char>, model: Seq<char>)
    ensures
        manufacturer != "Unknown"@ && model != "Unknown"@ ==> device_name(manufacturer, model)
            == manufacturer + " "@ + model,
        manufacturer != "Unknown"@ && model == "Unknown"@ ==> device_name(manufacturer, model)
            == manufacturer,
        manufacturer == "Unknown"@ ==> device_name(manufacturer, model) == "IP Camera"@,
{
}

/// A span is as many whole milliseconds as fit in it. From 2 to the 64th milliseconds on they are
/// counted from zero again.
pub proof fn law_millis(nanos: nat)
    ensures
        nanos < 0x1_0000_0000_0000_0000 * 1_000_000 ==> millis(nanos) * 1_000_000 <= nanos < (
        millis(nanos) + 1) * 1_000_000,
        millis(nanos + 0x1_0000_0000_0000_0000 * 1_000_000) == millis(nanos),
{
    let m = nanos / 1_000_000;
    let n = nanos + 0x1_0000_0000_0000_0000 * 1_000_000;
    assert(n / 1_000_000 == m + 0x1_0000_0000_0000_0000);
}

/// An answer tells of a device exactly if it names an address that is an IPv4 address. What the
/// answer says of the device is kept as it is: its identifier, types, scopes and version; the first
/// of its addresses is where its service is.
pub proof fn law_device_of(
    answer: ProbeMatchInfoView,
    ip: Option<Ipv4Addr>,
    response_time: nat,
    discovered_at: nat,
)
    ensures
        ({
            let r = device_of(answer, ip, response_time, discovered_at);
            let device = r->Ok_0;
            let manufacturer = scopes::manufacturer_of(answer.scopes);
            let model = scopes::model_of(answer.scopes);
            &&& r is Ok <==> ip is Some && answer.x_addrs.len() > 0
            &&& ip is None ==> r == Err::<DiscoveredDeviceView, DiscoveryErrorView>(
                DiscoveryErrorView::InvalidResponse("No valid IP address found in XAddrs"@),
            )
            &&& ip is Some && answer.x_addrs.len() == 0 ==> r == Err::<
                DiscoveredDeviceView,
                DiscoveryErrorView,
            >(DiscoveryErrorView::InvalidResponse("No XAddrs found in probe match"@))
            &&& r is Ok ==> {
                &&& device.uuid == answer.endpoint_reference
                &&& device.types == answer.types
                &&& device.scopes == answer.scopes
                &&& device.metadata_version == answer.metadata_version
                &&& device.device_service_url == answer.x_addrs[0]
                &&& device.ip_address == ip->0
                &&& device.manufacturer == manufacturer
                &&& device.model == model
                &&& device.name == device_name(manufacturer, model)
                &&& device.hardware_info == manufacturer + " "@ + model
                &&& device.mac_address == scopes::mac_of(answer.scopes)
                &&& device.location == scopes::location_of(answer.scopes)
                &&& device.discovered_at == millis(discovered_at)
                &&& device.response_time == millis(response_time)
            }
        }),
{
}

/// The address of a device is the first host among the addresses of its answer that is an IPv4
/// address.
pub proof fn law_answer_address(answer: ProbeMatchInfoView, k: int)
    requires
        0 <= k <= answer.x_addrs.len(),
        forall|j: int|
            0 <= j < k ==> (#[trigger] scopes::hosts_in(answer.x_addrs)[j]) is None
                || addr::ipv4_of(scopes::hosts_in(answer.x_addrs)[j]->0) is None,
        k < answer.x_addrs.len() ==> scopes::hosts_in(answer.x_addrs)[k] is Some && addr::ipv4_of(
            scopes::hosts_in(answer.x_addrs)[k]->0,
        ) is Some,
    ensures
        answer_address(answer) == (if k < answer.x_addrs.len() {
            addr::ipv4_of(scopes::hosts_in(answer.x_addrs)[k]->0)
        } else {
            None
        }),
{
    scopes::law_first_address(scopes::hosts_in(answer.x_addrs), k);
}

/// A response is a device exactly if it can be read as an answer and the answer tells of one;
/// otherwise it comes with the reason of the step that failed.
pub proof fn law_answer_of(xml: Seq<char>, response_time: nat, discovered_at: nat)
    ensures
        ({
            let r = answer_of(xml, response_time, discovered_at);
            let read = probe_match::probe_match_of(xml::buffered_events(xml));
            let made = device_of(
                read->Ok_0,
                answer_address(read->Ok_0),
                response_time,
                discovered_at,
            );
            &&& r is Unreadable <==> read is Err
            &&& r is Unreadable ==> r->Unreadable_0 == read->Err_0
            &&& r is Unusable <==> read is Ok && made is Err
            &&& r is Unusable ==> r->Unusable_0 == made->Err_0
            &&& r is Device <==> read is Ok && made is Ok
            &&& r is Device ==> r->Device_0 == made->Ok_0
        }),
{
}

} // verus!
