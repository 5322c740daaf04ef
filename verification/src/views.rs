//! What the views of the types hold: what the fields hold, each in its own place.

use crate::collector;
use crate::device;
use crate::device::{
    AudioEncoding, AudioEncodingView, DeviceCapabilities, DeviceDetails, DeviceInfo,
    InterrogationError, InterrogationErrorView, MediaStream, ServiceInfo, VideoEncoding,
    VideoEncodingView,
};
use crate::discovery::{
    DiscoveredDevice, DiscoveryError, DiscoveryErrorView, DiscoveryOptions,
};
use crate::http;
use crate::http::HttpRequest;
use crate::interrogation::{OnvifRequest, Operation, OperationView, Progress, ProgressView};
use crate::plan;
use crate::plan::{ProbeStep, ProbeStepView};
use crate::probe;
use crate::probe::{Answer, AnswerView};
use crate::probe_match;
use crate::probe_match::ProbeMatchInfo;
use crate::profiles;
use crate::profiles::ProfileInfo;
use crate::responses;
use crate::services;
use crate::soap;
use crate::text;
use crate::url_parts::UrlParts;
use crate::xml;
use vstd::prelude::*;

verus! {

/// A row of views holds the view of each item, in the same order.
pub proof fn law_rows(
    strings: Seq<String>,
    streams: Seq<MediaStream>,
    services: Seq<ServiceInfo>,
    profiles: Seq<ProfileInfo>,
    devices: Seq<DiscoveredDevice>,
    steps: Seq<ProbeStep>,
    k: int,
)
    ensures
        text::texts(strings).len() == strings.len(),
        device::stream_views(streams).len() == streams.len(),
        device::service_views(services).len() == services.len(),
        profiles::profile_views(profiles).len() == profiles.len(),
        collector::device_views(devices).len() == devices.len(),
        plan::step_views(steps).len() == steps.len(),
        0 <= k < strings.len() ==> text::texts(strings)[k] == strings[k]@,
        0 <= k < streams.len() ==> device::stream_views(streams)[k] == streams[k]@,
        0 <= k < services.len() ==> device::service_views(services)[k] == services[k]@,
        0 <= k < profiles.len() ==> profiles::profile_views(profiles)[k] == profiles[k]@,
        0 <= k < devices.len() ==> collector::device_views(devices)[k] == devices[k]@,
        0 <= k < steps.len() ==> plan::step_views(steps)[k] == steps[k]@,
{
}

/// A text that may be missing is missing in its view exactly if it is.
pub proof fn law_optional_text(text: Option<String>, given: Option<&str>)
    ensures
        text is None <==> xml::text_view(text) is None,
        text is Some ==> xml::text_view(text) == Some(text->0@),
        given is None <==> soap::given(given) is None,
        given is Some ==> soap::given(given) == Some(given->0@),
{
}

/// What an interrogation finds.
pub proof fn law_details(details: DeviceDetails)
    ensures
        details@.device_info == details.device_info@,
        details@.capabilities == details.capabilities@,
        details@.streams == device::stream_views(details.streams@),
        details@.services == device::service_views(details.services@),
        details@.interrogation_duration == details.interrogation_duration@,
{
}

/// What a device says it is.
pub proof fn law_device_info(info: DeviceInfo)
    ensures
        info@.manufacturer == info.manufacturer@,
        info@.model == info.model@,
        info@.firmware_version == info.firmware_version@,
        info@.serial_number == info.serial_number@,
        info@.hardware_id == info.hardware_id@,
{
}

/// What a device can do.
pub proof fn law_capabilities(capabilities: DeviceCapabilities)
    ensures
        capabilities@.auth_methods == capabilities.auth_methods@,
        capabilities@.onvif_version == capabilities.onvif_version@,
        capabilities@.ptz_supported == capabilities.ptz_supported,
        capabilities@.audio_input_supported == capabilities.audio_input_supported,
        capabilities@.audio_output_supported == capabilities.audio_output_supported,
        capabilities@.video_sources == capabilities.video_sources,
        capabilities@.audio_sources == capabilities.audio_sources,
        capabilities@.profiles == text::texts(capabilities.profiles@),
        capabilities@.analytics_supported == capabilities.analytics_supported,
        capabilities@.events_supported == capabilities.events_supported,
{
}

/// A stream.
pub proof fn law_stream(stream: MediaStream)
    ensures
        stream@.profile_token == stream.profile_token@,
        stream@.name == stream.name@,
        stream@.rtsp_url == stream.rtsp_url@,
        stream@.video_encoding == stream.video_encoding@,
        stream@.resolution == stream.resolution,
        stream@.framerate == stream.framerate,
        stream@.bitrate == stream.bitrate,
        stream@.stream_type == stream.stream_type,
        stream@.audio_encoding is Some <==> stream.audio_encoding is Some,
        stream.audio_encoding is Some ==> stream@.audio_encoding->0 == stream.audio_encoding->0@,
{
}

/// The encodings.
pub proof fn law_encodings(video: VideoEncoding, audio: AudioEncoding)
    ensures
        video is H264 <==> video@ is H264,
        video is H265 <==> video@ is H265,
        video is MJPEG <==> video@ is MJPEG,
        video is MPEG4 <==> video@ is MPEG4,
        video is Unknown ==> video@ == VideoEncodingView::Unknown(video->Unknown_0@),
        audio is AAC <==> audio@ is AAC,
        audio is G711 <==> audio@ is G711,
        audio is G726 <==> audio@ is G726,
        audio is PCM <==> audio@ is PCM,
        audio is Unknown ==> audio@ == AudioEncodingView::Unknown(audio->Unknown_0@),
{
}

/// A service and a profile.
pub proof fn law_service_and_profile(service: ServiceInfo, profile: ProfileInfo)
    ensures
        service@.namespace == service.namespace@,
        service@.url == service.url@,
        service@.version == service.version@,
        profile@.token == profile.token@,
        profile@.name == profile.name@,
        profile@.video_encoding == profile.video_encoding@,
        profile@.resolution == profile.resolution,
{
}

/// A device that was discovered.
pub proof fn law_discovered_device(found: DiscoveredDevice)
    ensures
        found@.uuid == found.uuid@,
        found@.name == found.name@,
        found@.manufacturer == found.manufacturer@,
        found@.model == found.model@,
        found@.ip_address == found.ip_address,
        found@.mac_address == xml::text_view(found.mac_address),
        found@.device_service_url == found.device_service_url@,
        found@.hardware_info == found.hardware_info@,
        found@.location == xml::text_view(found.location),
        found@.types == text::texts(found.types@),
        found@.scopes == text::texts(found.scopes@),
        found@.metadata_version == found.metadata_version,
        found@.discovered_at == found.discovered_at,
        found@.response_time == found.response_time,
{
}

/// The options of a discovery.
pub proof fn law_options(options: DiscoveryOptions)
    ensures
        options@.timeout == options.timeout@,
        options@.interfaces == text::texts(options.interfaces@),
        options@.include_ipv6 == options.include_ipv6,
        options@.max_results == options.max_results,
        options@.additional_subnets == text::texts(options.additional_subnets@),
        options@.use_broadcast == options.use_broadcast,
        options@.multicast_ttl == options.multicast_ttl,
{
}

/// An answer to a probe.
pub proof fn law_probe_match(info: ProbeMatchInfo)
    ensures
        info@.endpoint_reference == info.endpoint_reference@,
        info@.types == text::texts(info.types@),
        info@.scopes == text::texts(info.scopes@),
        info@.x_addrs == text::texts(info.x_addrs@),
        info@.metadata_version == info.metadata_version,
{
}

/// A request, what it asks for, the parts of its URL and the HTTP request that carries it.
pub proof fn law_requests(
    request: OnvifRequest,
    operation: Operation,
    parts: UrlParts,
    carrier: HttpRequest,
)
    ensures
        request@.url == request.url@,
        request@.operation == request.operation@,
        request@.authenticated == request.authenticated,
        operation is DeviceInformation <==> operation@ is DeviceInformation,
        operation is Services <==> operation@ is Services,
        operation is Profiles <==> operation@ is Profiles,
        operation is Capabilities <==> operation@ is Capabilities,
        operation is StreamUri ==> operation@ == OperationView::StreamUri(
            operation->StreamUri_0@,
        ),
        parts@.host == xml::text_view(parts.host),
        parts@.port == parts.port,
        parts@.path == parts.path@,
        carrier@.address == carrier.address@,
        carrier@.text == carrier.text@,
{
}

/// What follows from a reply, what a datagram is, and a step of a discovery.
pub proof fn law_outcomes(progress: Progress, answer: Answer, step: ProbeStep)
    ensures
        progress is Continue ==> progress@ == ProgressView::Continue(progress->Continue_0@),
        progress is Done ==> progress@ == ProgressView::Done(progress->Done_0@),
        progress is Failed ==> progress@ == ProgressView::Failed(progress->Failed_0@),
        answer is Unreadable ==> answer@ == AnswerView::Unreadable(answer->Unreadable_0@),
        answer is Unusable ==> answer@ == AnswerView::Unusable(answer->Unusable_0@),
        answer is Device ==> answer@ == AnswerView::Device(answer->Device_0@),
        step is Send ==> step@ == (ProbeStepView::Send {
            address: step->Send_address,
            target: step->Send_target,
        }),
        step is Pause ==> step@ == ProbeStepView::Pause(step->Pause_0),
        step is Report ==> step@ == ProbeStepView::Report(step->Report_0@),
{
}

/// The errors.
pub proof fn law_errors(discovery: DiscoveryError, interrogation: InterrogationError)
    ensures
        discovery is Network ==> discovery@ == DiscoveryErrorView::Network(discovery->Network_0@),
        discovery is XmlParsing ==> discovery@ == DiscoveryErrorView::XmlParsing(
            discovery->XmlParsing_0@,
        ),
        discovery is InvalidResponse ==> discovery@ == DiscoveryErrorView::InvalidResponse(
            discovery->InvalidResponse_0@,
        ),
        discovery is Timeout <==> discovery@ is Timeout,
        discovery is NoInterfaces <==> discovery@ is NoInterfaces,
        interrogation is Network ==> interrogation@ == InterrogationErrorView::Network(
            interrogation->Network_0@,
        ),
        interrogation is Http ==> interrogation@ == InterrogationErrorView::Http(
            interrogation->Http_0@,
        ),
        interrogation is XmlParsing ==> interrogation@ == InterrogationErrorView::XmlParsing(
            interrogation->XmlParsing_0@,
        ),
        interrogation is InvalidResponse ==> interrogation@
            == InterrogationErrorView::InvalidResponse(interrogation->InvalidResponse_0@),
        interrogation is ServiceUnavailable ==> interrogation@
            == InterrogationErrorView::ServiceUnavailable(interrogation->ServiceUnavailable_0@),
        interrogation is AuthRequired <==> interrogation@ is AuthRequired,
        interrogation is AuthFailed <==> interrogation@ is AuthFailed,
        interrogation is DeviceUnreachable <==> interrogation@ is DeviceUnreachable,
        interrogation is OnvifUnsupported <==> interrogation@ is OnvifUnsupported,
        interrogation is Timeout <==> interrogation@ is Timeout,
{
}

/// What a discovery returns: the view of a result is that of what was found, or of why nothing was.
pub proof fn law_discovery_results(
    info: Result<ProbeMatchInfo, DiscoveryError>,
    found: Result<DiscoveredDevice, DiscoveryError>,
)
    ensures
        info is Ok ==> probe_match::probe_match_view(info) == Ok::<_, DiscoveryErrorView>(
            info->Ok_0@,
        ),
        info is Err ==> probe_match::probe_match_view(info) == Err::<
            probe_match::ProbeMatchInfoView,
            DiscoveryErrorView,
        >(info->Err_0@),
        found is Ok ==> probe::device_view(found) == Ok::<_, DiscoveryErrorView>(found->Ok_0@),
        found is Err ==> probe::device_view(found) is Err && probe::device_view(found)->Err_0
            == found->Err_0@,
{
}

/// What an interrogation returns at each of its stages.
pub proof fn law_interrogation_results(
    info: Result<DeviceInfo, InterrogationError>,
    capabilities: Result<DeviceCapabilities, InterrogationError>,
    offered: Result<Vec<ServiceInfo>, InterrogationError>,
    listed: Result<Vec<ProfileInfo>, InterrogationError>,
    stream: Result<MediaStream, InterrogationError>,
    reply: Result<String, InterrogationError>,
)
    ensures
        responses::device_info_view(info) is Ok <==> info is Ok,
        info is Ok ==> responses::device_info_view(info)->Ok_0 == info->Ok_0@,
        info is Err ==> responses::device_info_view(info)->Err_0 == info->Err_0@,
        responses::capabilities_view(capabilities) is Ok <==> capabilities is Ok,
        capabilities is Ok ==> responses::capabilities_view(capabilities)->Ok_0
            == capabilities->Ok_0@,
        capabilities is Err ==> responses::capabilities_view(capabilities)->Err_0
            == capabilities->Err_0@,
        services::services_view(offered) is Ok <==> offered is Ok,
        offered is Ok ==> services::services_view(offered)->Ok_0 == device::service_views(
            offered->Ok_0@,
        ),
        offered is Err ==> services::services_view(offered)->Err_0 == offered->Err_0@,
        profiles::profiles_view(listed) is Ok <==> listed is Ok,
        listed is Ok ==> profiles::profiles_view(listed)->Ok_0 == profiles::profile_views(
            listed->Ok_0@,
        ),
        listed is Err ==> profiles::profiles_view(listed)->Err_0 == listed->Err_0@,
        profiles::stream_view(stream) is Ok <==> stream is Ok,
        stream is Ok ==> profiles::stream_view(stream)->Ok_0 == stream->Ok_0@,
        stream is Err ==> profiles::stream_view(stream)->Err_0 == stream->Err_0@,
        http::reply_view(reply) is Ok <==> reply is Ok,
        reply is Ok ==> http::reply_view(reply)->Ok_0 == reply->Ok_0@,
        reply is Err ==> http::reply_view(reply)->Err_0 == reply->Err_0@,
{
}

} // verus!
