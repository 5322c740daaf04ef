//! The interrogation of a device: which requests are made, and what follows from the replies.

use crate::auth;
use crate::device;
use crate::device::{
    DeviceCapabilities, DeviceCapabilitiesView, DeviceDetails, DeviceDetailsView, DeviceInfo,
    DeviceInfoView, InterrogationError, InterrogationErrorView, MediaStream, MediaStreamView,
    ServiceInfo, ServiceInfoView,
};
use crate::discovery::Credentials;
use crate::http;
use crate::profiles;
use crate::profiles::{ProfileInfo, ProfileInfoView};
use crate::responses;
use crate::services;
use crate::soap;
use crate::text;
use crate::time::Duration;
use crate::xml;
use vstd::prelude::*;

verus! {

/// The content type of a SOAP 1.2 request
pub const CONTENT_TYPE: &'static str = "application/soap+xml";

// ---------------------------------------------------------------------------------------------
// Requests
// ---------------------------------------------------------------------------------------------

/// What a request asks for.
#[derive(Debug)]
pub enum Operation {
    DeviceInformation,
    Services,
    Profiles,
    /// The stream of the profile with this token
    StreamUri(String),
    Capabilities,
}

/// The view of an `Operation`.
pub enum OperationView {
    DeviceInformation,
    Services,
    Profiles,
    StreamUri(Seq<char>),
    Capabilities,
}

impl View for Operation {
    type V = OperationView;

    open spec fn view(&self) -> OperationView {
        match self {
            Operation::DeviceInformation => OperationView::DeviceInformation,
            Operation::Services => OperationView::Services,
            Operation::Profiles => OperationView::Profiles,
            Operation::StreamUri(token) => OperationView::StreamUri(token@),
            Operation::Capabilities => OperationView::Capabilities,
        }
    }
}

/// A request to a service of a device.
#[derive(Debug)]
pub struct OnvifRequest {
    /// Where the service is
    pub url: String,
    /// What is asked for
    pub operation: Operation,
    /// Whether the credentials go with it
    pub authenticated: bool,
}

/// The view of an `OnvifRequest`.
#[verifier::ext_equal]
pub struct OnvifRequestView {
    pub url: Seq<char>,
    pub operation: OperationView,
    pub authenticated: bool,
}

impl View for OnvifRequest {
    type V = OnvifRequestView;

    open spec fn view(&self) -> OnvifRequestView {
        OnvifRequestView {
            url: self.url@,
            operation: self.operation@,
            authenticated: self.authenticated,
        }
    }
}

/// The SOAP action of an operation.
pub open spec fn action_of(operation: OperationView) -> Seq<char> {
    match operation {
        OperationView::DeviceInformation => {
            "http://www.onvif.org/ver10/device/wsdl/GetDeviceInformation"@
        },
        OperationView::Services => "http://www.onvif.org/ver10/device/wsdl/GetServices"@,
        OperationView::Profiles => "http://www.onvif.org/ver10/media/wsdl/GetProfiles"@,
        OperationView::StreamUri(_) => "http://www.onvif.org/ver10/media/wsdl/GetStreamUri"@,
        OperationView::Capabilities => "http://www.onvif.org/ver10/device/wsdl/GetCapabilities"@,
    }
}

/// The message that asks for an operation, with what it carries in its header.
pub open spec fn message_of(operation: OperationView, header: Seq<char>) -> Seq<char> {
    match operation {
        OperationView::DeviceInformation => soap::device_information_message(header),
        OperationView::Services => soap::services_message(header),
        OperationView::Profiles => soap::profiles_message(header),
        OperationView::StreamUri(token) => soap::stream_uri_message(header, token),
        OperationView::Capabilities => soap::capabilities_message(header),
    }
}

/// A message holds no character but those of its header and of the message without a header.
proof fn lemma_message_characters(operation: OperationView, header: Seq<char>, c: char)
    ensures
        message_of(operation, header).contains(c) ==> header.contains(c) || message_of(
            operation,
            Seq::empty(),
        ).contains(c),
{
    let none = Seq::<char>::empty();
    match operation {
        OperationView::DeviceInformation => {
            lemma_framed(soap::DEVICE_INFORMATION_START@, header, soap::DEVICE_INFORMATION_END@, c);
        },
        OperationView::Services => {
            lemma_framed(soap::SERVICES_START@, header, soap::SERVICES_END@, c);
        },
        OperationView::Profiles => {
            lemma_framed(soap::PROFILES_START@, header, soap::PROFILES_END@, c);
        },
        OperationView::StreamUri(token) => {
            let end = soap::STREAM_URI_PROFILE@ + token + soap::STREAM_URI_END@;
            lemma_framed(soap::STREAM_URI_START@, header, end, c);
            assert(message_of(operation, header) =~= soap::STREAM_URI_START@ + header + end);
            assert(message_of(operation, none) =~= soap::STREAM_URI_START@ + none + end);
        },
        OperationView::Capabilities => {
            lemma_framed(soap::CAPABILITIES_START@, header, soap::CAPABILITIES_END@, c);
        },
    }
}

/// What stands in a header between a start and an end.
proof fn lemma_framed(start: Seq<char>, header: Seq<char>, end: Seq<char>, c: char)
    ensures
        (start + header + end).contains(c) <==> header.contains(c) || (start + Seq::empty()
            + end).contains(c),
{
    text::lemma_contains_char(start, header, c);
    text::lemma_contains_char(start + header, end, c);
    text::lemma_contains_char(start, Seq::empty(), c);
    text::lemma_contains_char(start + Seq::empty(), end, c);
}

/// The password does not stand in clear in an authenticated request, if it holds a character that
/// is neither of the user name nor of base64 nor of what the request holds with any credentials.
pub proof fn law_password_not_in_request(
    operation: OperationView,
    header: Seq<char>,
    username: Seq<char>,
    password: Seq<char>,
    c: char,
)
    requires
        soap::is_request_header(header, Some(username), Some(password)),
        password.contains(c),
        !username.contains(c),
        !auth::is_base64_char(c),
        !auth::header_frame().contains(c),
        !message_of(operation, Seq::empty()).contains(c),
    ensures
        !text::contains(message_of(operation, header), password),
{
    if header.contains(c) {
        auth::law_header_characters(header, username, password, c);
    }
    lemma_message_characters(operation, header, c);
    text::lemma_contains_needs_chars(message_of(operation, header), password, c);
}

/// The user name that goes with a request.
pub open spec fn sent_username(authenticated: bool, credentials: Option<&Credentials>) -> Option<
    Seq<char>,
> {
    match credentials {
        Some(c) if authenticated => Some(c.username@),
        _ => None,
    }
}

/// The password that goes with a request.
pub open spec fn sent_password(authenticated: bool, credentials: Option<&Credentials>) -> Option<
    Seq<char>,
> {
    match credentials {
        Some(c) if authenticated => Some(c.password@),
        _ => None,
    }
}

impl Operation {
    /// The SOAP action of the operation.
    pub fn soap_action(&self) -> (r: &'static str)
        ensures
            r@ == action_of(self@),
    {
        match self {
            Operation::DeviceInformation => {
                "http://www.onvif.org/ver10/device/wsdl/GetDeviceInformation"
            },
            Operation::Services => "http://www.onvif.org/ver10/device/wsdl/GetServices",
            Operation::Profiles => "http://www.onvif.org/ver10/media/wsdl/GetProfiles",
            Operation::StreamUri(_) => "http://www.onvif.org/ver10/media/wsdl/GetStreamUri",
            Operation::Capabilities => "http://www.onvif.org/ver10/device/wsdl/GetCapabilities",
        }
    }
}

impl OnvifRequest {
    /// The message of the request. The credentials are in it if the request is authenticated.
    pub fn message(&self, credentials: Option<&Credentials>) -> (r: String)
        ensures
            exists|header: Seq<char>| #[trigger]
                soap::is_request_header(
                    header,
                    sent_username(self.authenticated, credentials),
                    sent_password(self.authenticated, credentials),
                ) && r@ == message_of(self@.operation, header),
            !self.authenticated || credentials is None ==> r@ == message_of(
                self@.operation,
                Seq::empty(),
            ),
    {
        let (username, password): (Option<&str>, Option<&str>) = match credentials {
            Some(c) if self.authenticated => (Some(c.username.as_str()), Some(c.password.as_str())),
            _ => (None, None),
        };
        assert(soap::given(username) == sent_username(self.authenticated, credentials));
        assert(soap::given(password) == sent_password(self.authenticated, credentials));
        match &self.operation {
            Operation::DeviceInformation => {
                soap::generate_get_device_information(username, password)
            },
            Operation::Services => soap::generate_get_services(username, password),
            Operation::Profiles => soap::generate_get_profiles(username, password),
            Operation::StreamUri(token) => {
                soap::generate_get_stream_uri(username, password, token)
            },
            Operation::Capabilities => soap::generate_get_capabilities(username, password),
        }
    }
}

// ---------------------------------------------------------------------------------------------
// Testing credentials
// ---------------------------------------------------------------------------------------------

/// What a reply to an authenticated request tells about the credentials: they are good, or they
/// are not, or the reply does not tell.
pub open spec fn verdict(reply: Result<Seq<char>, InterrogationErrorView>) -> Result<
    bool,
    InterrogationErrorView,
> {
    match reply {
        Ok(_) => Ok(true),
        Err(InterrogationErrorView::AuthFailed) => Ok(false),
        Err(InterrogationErrorView::Http(_)) => Ok(false),
        Err(e) => Err(e),
    }
}

/// The view of a verdict.
pub open spec fn verdict_view(r: Result<bool, InterrogationError>) -> Result<
    bool,
    InterrogationErrorView,
> {
    match r {
        Ok(good) => Ok(good),
        Err(e) => Err(e@),
    }
}

/// The request to the device service at `device_url` that tests credentials
pub fn credentials_request(device_url: &str) -> (r: OnvifRequest)
    ensures
        r@ == (OnvifRequestView {
            url: device_url@,
            operation: OperationView::DeviceInformation,
            authenticated: true,
        }),
{
    OnvifRequest {
        url: device_url.to_owned(),
        operation: Operation::DeviceInformation,
        authenticated: true,
    }
}

/// What the reply to that request tells about the credentials
pub fn credentials_verdict(reply: Result<String, InterrogationError>) -> (r: Result<
    bool,
    InterrogationError,
>)
    ensures
        verdict_view(r) == verdict(http::reply_view(reply)),
{
    match reply {
        Ok(_) => Ok(true),
        Err(InterrogationError::AuthFailed) => Ok(false),
        Err(InterrogationError::Http(_)) => Ok(false),
        Err(e) => Err(e),
    }
}

// ---------------------------------------------------------------------------------------------
// Stages
// ---------------------------------------------------------------------------------------------

/// How far an interrogation has come.
#[derive(Debug)]
pub enum Stage {
    /// The device is asked what it is.
    Information { authenticated: bool },
    /// The device is asked for its services.
    Services { info: DeviceInfo, authenticated: bool },
    /// The media service is asked for the profiles.
    Profiles { info: DeviceInfo, services: Vec<ServiceInfo>, media_url: String },
    /// The media service is asked for the stream of one profile after the other.
    Streams {
        info: DeviceInfo,
        services: Vec<ServiceInfo>,
        media_url: String,
        profiles: Vec<ProfileInfo>,
        asked: usize,
        streams: Vec<MediaStream>,
    },
    /// The device is asked for its capabilities.
    Capabilities { info: DeviceInfo, services: Vec<ServiceInfo>, streams: Vec<MediaStream> },
}

/// The view of a `Stage`.
pub enum StageView {
    Information { authenticated: bool },
    Services { info: DeviceInfoView, authenticated: bool },
    Profiles { info: DeviceInfoView, services: Seq<ServiceInfoView>, media_url: Seq<char> },
    Streams {
        info: DeviceInfoView,
        services: Seq<ServiceInfoView>,
        media_url: Seq<char>,
        profiles: Seq<ProfileInfoView>,
        asked: nat,
        streams: Seq<MediaStreamView>,
    },
    Capabilities {
        info: DeviceInfoView,
        services: Seq<ServiceInfoView>,
        streams: Seq<MediaStreamView>,
    },
}

impl View for Stage {
    type V = StageView;

    open spec fn view(&self) -> StageView {
        match self {
            Stage::Information { authenticated } => StageView::Information {
                authenticated: *authenticated,
            },
            Stage::Services { info, authenticated } => StageView::Services {
                info: info@,
                authenticated: *authenticated,
            },
            Stage::Profiles { info, services, media_url } => StageView::Profiles {
                info: info@,
                services: device::service_views(services@),
                media_url: media_url@,
            },
            Stage::Streams { info, services, media_url, profiles, asked, streams } => {
                StageView::Streams {
                    info: info@,
                    services: device::service_views(services@),
                    media_url: media_url@,
                    profiles: profiles::profile_views(profiles@),
                    asked: *asked as nat,
                    streams: device::stream_views(streams@),
                }
            },
            Stage::Capabilities { info, services, streams } => StageView::Capabilities {
                info: info@,
                services: device::service_views(services@),
                streams: device::stream_views(streams@),
            },
        }
    }
}

/// What is interrogated.
#[derive(Debug)]
pub struct Subject {
    /// Where the device service is
    pub device_url: String,
    /// Whether there are credentials to send
    pub has_credentials: bool,
}

/// The view of a `Subject`.
#[verifier::ext_equal]
pub struct SubjectView {
    pub device_url: Seq<char>,
    pub has_credentials: bool,
}

impl View for Subject {
    type V = SubjectView;

    open spec fn view(&self) -> SubjectView {
        SubjectView { device_url: self.device_url@, has_credentials: self.has_credentials }
    }
}

/// An interrogation under way.
#[derive(Debug)]
pub struct Interrogation {
    subject: Subject,
    stage: Stage,
}

/// The view of an `Interrogation`.
#[verifier::ext_equal]
pub struct InterrogationView {
    /// What is interrogated
    pub subject: SubjectView,
    /// How far it has come
    pub stage: StageView,
}

impl View for Interrogation {
    type V = InterrogationView;

    closed spec fn view(&self) -> InterrogationView {
        InterrogationView { subject: self.subject@, stage: self.stage@ }
    }
}

/// What follows from a reply.
#[derive(Debug)]
pub enum Progress {
    /// There is more to ask.
    Continue(Interrogation),
    /// Everything is known.
    Done(DeviceDetails),
    /// The interrogation failed, and why.
    Failed(InterrogationError),
}

/// The view of a `Progress`.
pub enum ProgressView {
    Continue(InterrogationView),
    Done(DeviceDetailsView),
    Failed(InterrogationErrorView),
}

impl View for Progress {
    type V = ProgressView;

    open spec fn view(&self) -> ProgressView {
        match self {
            Progress::Continue(next) => ProgressView::Continue(next@),
            Progress::Done(details) => ProgressView::Done(details@),
            Progress::Failed(e) => ProgressView::Failed(e@),
        }
    }
}

// ---------------------------------------------------------------------------------------------
// What follows from a reply
// ---------------------------------------------------------------------------------------------

/// Credentials are sent only if there are any, and there is a profile left to ask for.
pub open spec fn sound(i: InterrogationView) -> bool {
    match i.stage {
        StageView::Information { authenticated } => authenticated ==> i.subject.has_credentials,
        StageView::Services { authenticated, .. } => authenticated ==> i.subject.has_credentials,
        StageView::Streams { profiles, asked, .. } => asked < profiles.len(),
        _ => true,
    }
}

/// The interrogation of a device from its start. The first request goes without credentials.
pub open spec fn started(device_url: Seq<char>, has_credentials: bool) -> InterrogationView {
    InterrogationView {
        subject: SubjectView { device_url, has_credentials },
        stage: StageView::Information { authenticated: false },
    }
}

/// The request that an interrogation makes next.
pub open spec fn next_request(i: InterrogationView) -> OnvifRequestView {
    match i.stage {
        StageView::Information { authenticated } => OnvifRequestView {
            url: i.subject.device_url,
            operation: OperationView::DeviceInformation,
            authenticated,
        },
        StageView::Services { authenticated, .. } => OnvifRequestView {
            url: i.subject.device_url,
            operation: OperationView::Services,
            authenticated,
        },
        StageView::Profiles { media_url, .. } => OnvifRequestView {
            url: media_url,
            operation: OperationView::Profiles,
            authenticated: i.subject.has_credentials,
        },
        StageView::Streams { media_url, profiles, asked, .. } => OnvifRequestView {
            url: media_url,
            operation: OperationView::StreamUri(profiles[asked as int].token),
            authenticated: i.subject.has_credentials,
        },
        StageView::Capabilities { .. } => OnvifRequestView {
            url: i.subject.device_url,
            operation: OperationView::Capabilities,
            authenticated: i.subject.has_credentials,
        },
    }
}

/// The interrogation goes on at a stage.
pub open spec fn at_stage(subject: SubjectView, stage: StageView) -> ProgressView {
    ProgressView::Continue(InterrogationView { subject, stage })
}

/// A request that was refused for want of authentication is made again with credentials, if there
/// are any and they were not sent already.
pub open spec fn retries(
    subject: SubjectView,
    authenticated: bool,
    error: InterrogationErrorView,
) -> bool {
    error is AuthRequired && !authenticated && subject.has_credentials
}

/// What follows from what the device says it is.
pub open spec fn after_information(
    subject: SubjectView,
    authenticated: bool,
    answer: Result<DeviceInfoView, InterrogationErrorView>,
) -> ProgressView {
    match answer {
        Ok(info) => at_stage(subject, StageView::Services { info, authenticated: false }),
        Err(e) if retries(subject, authenticated, e) => at_stage(
            subject,
            StageView::Information { authenticated: true },
        ),
        Err(e) => ProgressView::Failed(e),
    }
}

/// Where the first media service from `k` on is.
pub open spec fn media_url_of(services: Seq<ServiceInfoView>, k: int) -> Option<Seq<char>>
    decreases services.len() - k,
{
    if k >= services.len() {
        None
    } else if text::contains(services[k].namespace, "media"@) {
        Some(services[k].url)
    } else {
        media_url_of(services, k + 1)
    }
}

/// What follows from the services of the device.
pub open spec fn after_services(
    subject: SubjectView,
    info: DeviceInfoView,
    authenticated: bool,
    answer: Result<Seq<ServiceInfoView>, InterrogationErrorView>,
) -> ProgressView {
    match answer {
        Ok(services) => match media_url_of(services, 0) {
            Some(media_url) => at_stage(subject, StageView::Profiles { info, services, media_url }),
            None => ProgressView::Failed(
                InterrogationErrorView::ServiceUnavailable(
                    "Media service not found in GetServices response"@,
                ),
            ),
        },
        Err(e) if retries(subject, authenticated, e) => at_stage(
            subject,
            StageView::Services { info, authenticated: true },
        ),
        Err(e) => ProgressView::Failed(e),
    }
}

/// The stage at which `asked` of the profiles have been asked for.
pub open spec fn stream_stage(
    info: DeviceInfoView,
    services: Seq<ServiceInfoView>,
    media_url: Seq<char>,
    profiles: Seq<ProfileInfoView>,
    asked: nat,
    streams: Seq<MediaStreamView>,
) -> StageView {
    if asked < profiles.len() {
        StageView::Streams { info, services, media_url, profiles, asked, streams }
    } else {
        StageView::Capabilities { info, services, streams }
    }
}

/// What follows from the profiles.
pub open spec fn after_profiles(
    subject: SubjectView,
    info: DeviceInfoView,
    services: Seq<ServiceInfoView>,
    media_url: Seq<char>,
    answer: Result<Seq<ProfileInfoView>, InterrogationErrorView>,
) -> ProgressView {
    match answer {
        Ok(profiles) => at_stage(
            subject,
            stream_stage(info, services, media_url, profiles, 0, Seq::empty()),
        ),
        Err(e) => ProgressView::Failed(e),
    }
}

/// What follows from the stream of a profile. A profile without a stream is passed over.
pub open spec fn after_stream(
    subject: SubjectView,
    info: DeviceInfoView,
    services: Seq<ServiceInfoView>,
    media_url: Seq<char>,
    profiles: Seq<ProfileInfoView>,
    asked: nat,
    streams: Seq<MediaStreamView>,
    answer: Result<MediaStreamView, InterrogationErrorView>,
) -> ProgressView {
    at_stage(
        subject,
        stream_stage(
            info,
            services,
            media_url,
            profiles,
            asked + 1,
            match answer {
                Ok(stream) => streams.push(stream),
                Err(_) => streams,
            },
        ),
    )
}

/// What follows from the capabilities, `elapsed` nanoseconds after the start.
pub open spec fn after_capabilities(
    info: DeviceInfoView,
    services: Seq<ServiceInfoView>,
    streams: Seq<MediaStreamView>,
    answer: Result<DeviceCapabilitiesView, InterrogationErrorView>,
    elapsed: nat,
) -> ProgressView {
    match answer {
        Ok(capabilities) => ProgressView::Done(
            DeviceDetailsView {
                device_info: info,
                capabilities,
                streams,
                services,
                interrogation_duration: elapsed,
            },
        ),
        Err(e) => ProgressView::Failed(e),
    }
}

/// What follows from the reply to the request, `elapsed` nanoseconds after the start.
pub open spec fn advanced(
    i: InterrogationView,
    reply: Result<Seq<char>, InterrogationErrorView>,
    elapsed: nat,
) -> ProgressView {
    match i.stage {
        StageView::Information { authenticated } => after_information(
            i.subject,
            authenticated,
            match reply {
                Ok(xml) => responses::device_info_of(xml::buffered_events(xml)),
                Err(e) => Err(e),
            },
        ),
        StageView::Services { info, authenticated } => after_services(
            i.subject,
            info,
            authenticated,
            match reply {
                Ok(xml) => services::services_of(xml, xml::borrowed_events(xml)),
                Err(e) => Err(e),
            },
        ),
        StageView::Profiles { info, services, media_url } => after_profiles(
            i.subject,
            info,
            services,
            media_url,
            match reply {
                Ok(xml) => profiles::profiles_of(xml, xml::borrowed_events(xml)),
                Err(e) => Err(e),
            },
        ),
        StageView::Streams { info, services, media_url, profiles, asked, streams } => {
            after_stream(
                i.subject,
                info,
                services,
                media_url,
                profiles,
                asked,
                streams,
                match reply {
                    Ok(xml) => profiles::stream_of(
                        xml::buffered_events(xml),
                        profiles[asked as int],
                        text::lowercased(profiles[asked as int].name),
                    ),
                    Err(e) => Err(e),
                },
            )
        },
        StageView::Capabilities { info, services, streams } => after_capabilities(
            info,
            services,
            streams,
            match reply {
                Ok(xml) => responses::capabilities_of(xml),
                Err(e) => Err(e),
            },
            elapsed,
        ),
    }
}

// ---------------------------------------------------------------------------------------------
// Going on
// ---------------------------------------------------------------------------------------------

/// Whether a request is made again with credentials.
fn shall_retry(subject: &Subject, authenticated: bool, error: &InterrogationError) -> (r: bool)
    ensures
        r == retries(subject@, authenticated, error@),
{
    match error {
        InterrogationError::AuthRequired => !authenticated && subject.has_credentials,
        _ => false,
    }
}

/// What follows from what the device says it is
pub fn follow_information(
    subject: Subject,
    authenticated: bool,
    answer: Result<DeviceInfo, InterrogationError>,
) -> (r: Progress)
    ensures
        r@ == after_information(
            subject@,
            authenticated,
            responses::device_info_view(answer),
        ),
{
    match answer {
        Ok(info) => {
            let stage = Stage::Services { info, authenticated: false };
            Progress::Continue(Interrogation { subject, stage })
        },
        Err(e) => {
            if shall_retry(&subject, authenticated, &e) {
                let stage = Stage::Information { authenticated: true };
                Progress::Continue(Interrogation { subject, stage })
            } else {
                Progress::Failed(e)
            }
        },
    }
}

/// Where the media service is.
fn find_media_url(services: &Vec<ServiceInfo>) -> (r: Option<String>)
    ensures
        xml::text_view(r) == media_url_of(device::service_views(services@), 0),
{
    let ghost views = device::service_views(services@);
    let mut k: usize = 0;
    while k < services.len()
        invariant
            k <= services.len(),
            views == device::service_views(services@),
            media_url_of(views, 0) == media_url_of(views, k as int),
        decreases services.len() - k,
    {
        assert(views[k as int] == services@[k as int]@);
        if text::has(&services[k].namespace, "media") {
            return Some(services[k].url.clone());
        }
        k += 1;
    }
    None
}

/// What follows from the services of the device
pub fn follow_services(
    subject: Subject,
    info: DeviceInfo,
    authenticated: bool,
    answer: Result<Vec<ServiceInfo>, InterrogationError>,
) -> (r: Progress)
    ensures
        r@ == after_services(
            subject@,
            info@,
            authenticated,
            services::services_view(answer),
        ),
{
    match answer {
        Ok(services) => match find_media_url(&services) {
            Some(media_url) => {
                let stage = Stage::Profiles { info, services, media_url };
                Progress::Continue(Interrogation { subject, stage })
            },
            None => Progress::Failed(
                InterrogationError::ServiceUnavailable(
                    "Media service not found in GetServices response".to_owned(),
                ),
            ),
        },
        Err(e) => {
            if shall_retry(&subject, authenticated, &e) {
                let stage = Stage::Services { info, authenticated: true };
                Progress::Continue(Interrogation { subject, stage })
            } else {
                Progress::Failed(e)
            }
        },
    }
}

/// The stage at which `asked` of the profiles have been asked for.
fn next_stream_stage(
    info: DeviceInfo,
    services: Vec<ServiceInfo>,
    media_url: String,
    profiles: Vec<ProfileInfo>,
    asked: usize,
    streams: Vec<MediaStream>,
) -> (r: Stage)
    ensures
        r@ == stream_stage(
            info@,
            device::service_views(services@),
            media_url@,
            profiles::profile_views(profiles@),
            asked as nat,
            device::stream_views(streams@),
        ),
{
    if asked < profiles.len() {
        Stage::Streams { info, services, media_url, profiles, asked, streams }
    } else {
        Stage::Capabilities { info, services, streams }
    }
}

/// What follows from the profiles
pub fn follow_profiles(
    subject: Subject,
    info: DeviceInfo,
    services: Vec<ServiceInfo>,
    media_url: String,
    answer: Result<Vec<ProfileInfo>, InterrogationError>,
) -> (r: Progress)
    ensures
        r@ == after_profiles(
            subject@,
            info@,
            device::service_views(services@),
            media_url@,
            profiles::profiles_view(answer),
        ),
{
    match answer {
        Ok(profiles) => {
            let streams: Vec<MediaStream> = Vec::new();
            assert(device::stream_views(streams@) =~= Seq::empty());
            let stage = next_stream_stage(info, services, media_url, profiles, 0, streams);
            Progress::Continue(Interrogation { subject, stage })
        },
        Err(e) => Progress::Failed(e),
    }
}

/// What follows from the stream of a profile
pub fn follow_stream(
    subject: Subject,
    info: DeviceInfo,
    services: Vec<ServiceInfo>,
    media_url: String,
    profiles: Vec<ProfileInfo>,
    asked: usize,
    streams: Vec<MediaStream>,
    answer: Result<MediaStream, InterrogationError>,
) -> (r: Progress)
    requires
        asked < profiles.len(),
    ensures
        r@ == after_stream(
            subject@,
            info@,
            device::service_views(services@),
            media_url@,
            profiles::profile_views(profiles@),
            asked as nat,
            device::stream_views(streams@),
            profiles::stream_view(answer),
        ),
{
    let ghost before = device::stream_views(streams@);
    let mut streams = streams;
    if let Ok(stream) = answer {
        streams.push(stream);
        assert(device::stream_views(streams@) =~= before.push(stream@));
    }
    let stage = next_stream_stage(info, services, media_url, profiles, asked + 1, streams);
    Progress::Continue(Interrogation { subject, stage })
}

/// What follows from the capabilities
pub fn follow_capabilities(
    info: DeviceInfo,
    services: Vec<ServiceInfo>,
    streams: Vec<MediaStream>,
    answer: Result<DeviceCapabilities, InterrogationError>,
    elapsed: Duration,
) -> (r: Progress)
    ensures
        r@ == after_capabilities(
            info@,
            device::service_views(services@),
            device::stream_views(streams@),
            responses::capabilities_view(answer),
            elapsed@,
        ),
{
    match answer {
        Ok(capabilities) => Progress::Done(
            DeviceDetails {
                device_info: info,
                capabilities,
                streams,
                services,
                interrogation_duration: elapsed,
            },
        ),
        Err(e) => Progress::Failed(e),
    }
}

impl Interrogation {
    /// The interrogation of the device whose service is at `device_url`, with or without
    /// credentials.
    pub fn start(device_url: &str, has_credentials: bool) -> (r: Self)
        ensures
            r@ == started(device_url@, has_credentials),
            sound(r@),
    {
        Interrogation {
            subject: Subject { device_url: device_url.to_owned(), has_credentials },
            stage: Stage::Information { authenticated: false },
        }
    }

    /// The request to make next.
    pub fn request(&self) -> (r: OnvifRequest)
        requires
            sound(self@),
        ensures
            r@ == next_request(self@),
    {
        match &self.stage {
            Stage::Information { authenticated } => OnvifRequest {
                url: self.subject.device_url.clone(),
                operation: Operation::DeviceInformation,
                authenticated: *authenticated,
            },
            Stage::Services { info: _, authenticated } => OnvifRequest {
                url: self.subject.device_url.clone(),
                operation: Operation::Services,
                authenticated: *authenticated,
            },
            Stage::Profiles { info: _, services: _, media_url } => OnvifRequest {
                url: media_url.clone(),
                operation: Operation::Profiles,
                authenticated: self.subject.has_credentials,
            },
            Stage::Streams { info: _, services: _, media_url, profiles, asked, streams: _ } => {
                assert(profiles::profile_views(profiles@)[*asked as int]
                    == profiles@[*asked as int]@);
                OnvifRequest {
                    url: media_url.clone(),
                    operation: Operation::StreamUri(profiles[*asked].token.clone()),
                    authenticated: self.subject.has_credentials,
                }
            },
            Stage::Capabilities { info: _, services: _, streams: _ } => OnvifRequest {
                url: self.subject.device_url.clone(),
                operation: Operation::Capabilities,
                authenticated: self.subject.has_credentials,
            },
        }
    }

    /// What follows from the reply to the request, `elapsed` after the start.
    pub fn advance(self, reply: Result<String, InterrogationError>, elapsed: Duration) -> (r:
        Progress)
        requires
            sound(self@),
        ensures
            r@ == advanced(self@, http::reply_view(reply), elapsed@),
            r@ matches ProgressView::Continue(next) ==> sound(next),
    {
        let subject = self.subject;
        match self.stage {
            Stage::Information { authenticated } => {
                let answer = match reply {
                    Ok(xml) => responses::parse_device_information_response(&xml),
                    Err(e) => Err(e),
                };
                follow_information(subject, authenticated, answer)
            },
            Stage::Services { info, authenticated } => {
                let answer = match reply {
                    Ok(xml) => services::parse_services_response(&xml),
                    Err(e) => Err(e),
                };
                follow_services(subject, info, authenticated, answer)
            },
            Stage::Profiles { info, services, media_url } => {
                let answer = match reply {
                    Ok(xml) => profiles::parse_profiles_response(&xml),
                    Err(e) => Err(e),
                };
                follow_profiles(subject, info, services, media_url, answer)
            },
            Stage::Streams { info, services, media_url, profiles, asked, streams } => {
                assert(profiles::profile_views(profiles@)[asked as int]
                    == profiles@[asked as int]@);
                let answer = match reply {
                    Ok(xml) => profiles::parse_stream_uri_response(&xml, &profiles[asked]),
                    Err(e) => Err(e),
                };
                follow_stream(
                    subject,
                    info,
                    services,
                    media_url,
                    profiles,
                    asked,
                    streams,
                    answer,
                )
            },
            Stage::Capabilities { info, services, streams } => {
                let answer = match reply {
                    Ok(xml) => responses::parse_capabilities_response(&xml),
                    Err(e) => Err(e),
                };
                follow_capabilities(info, services, streams, answer, elapsed)
            },
        }
    }
}

// ---------------------------------------------------------------------------------------------
// Laws
// ---------------------------------------------------------------------------------------------

/// The first request of an interrogation goes without credentials.
pub proof fn law_first_request(device_url: Seq<char>, has_credentials: bool)
    ensures
        next_request(started(device_url, has_credentials)) == (OnvifRequestView {
            url: device_url,
            operation: OperationView::DeviceInformation,
            authenticated: false,
        }),
{
}

/// Credentials are never sent where there are none, and every stage that follows from a reply
/// keeps it so.
pub proof fn law_credentials_only_if_given(
    i: InterrogationView,
    reply: Result<Seq<char>, InterrogationErrorView>,
    elapsed: nat,
)
    requires
        sound(i),
    ensures
        next_request(i).authenticated ==> i.subject.has_credentials,
        advanced(i, reply, elapsed) matches ProgressView::Continue(next) ==> sound(next)
            && next.subject == i.subject,
{
}

/// A request that is refused for want of authentication is made again, the same but for the
/// credentials, if it went without them and there are any; a device that refuses once more ends
/// the interrogation.
pub proof fn law_refused_request_is_repeated_once(i: InterrogationView, elapsed: nat)
    requires
        sound(i),
        i.stage is Information || i.stage is Services,
    ensures
        ({
            let refused = advanced(i, Err(InterrogationErrorView::AuthRequired), elapsed);
            if i.subject.has_credentials && !next_request(i).authenticated {
                &&& refused is Continue
                &&& next_request(refused->Continue_0) == OnvifRequestView {
                    authenticated: true,
                    ..next_request(i)
                }
            } else {
                refused == ProgressView::Failed(InterrogationErrorView::AuthRequired)
            }
        }),
{
}

/// How far a stage is from the end: stages to come, and requests to come within the stage.
pub open spec fn distance(stage: StageView) -> (nat, nat) {
    match stage {
        StageView::Information { authenticated } => (4, if authenticated { 0 } else { 1 }),
        StageView::Services { authenticated, .. } => (3, if authenticated { 0 } else { 1 }),
        StageView::Profiles { .. } => (2, 0),
        StageView::Streams { profiles, asked, .. } => (1, (profiles.len() - asked) as nat),
        StageView::Capabilities { .. } => (0, 0),
    }
}

/// Every reply ends the interrogation or brings it nearer to its end, so that every interrogation
/// ends.
pub proof fn law_interrogation_ends(
    i: InterrogationView,
    reply: Result<Seq<char>, InterrogationErrorView>,
    elapsed: nat,
)
    requires
        sound(i),
    ensures
        advanced(i, reply, elapsed) matches ProgressView::Continue(next) ==> {
            let before = distance(i.stage);
            let after = distance(next.stage);
            after.0 < before.0 || (after.0 == before.0 && after.1 < before.1)
        },
{
}

/// A profile whose stream cannot be told does not end the interrogation, and leaves the streams
/// found so far as they are.
pub proof fn law_failed_stream_is_passed_over(
    i: InterrogationView,
    error: InterrogationErrorView,
    elapsed: nat,
)
    requires
        sound(i),
        i.stage is Streams,
    ensures
        ({
            let next = advanced(i, Err(error), elapsed);
            &&& next is Continue
            &&& match next->Continue_0.stage {
                StageView::Streams { streams, .. } => streams == i.stage->Streams_streams,
                StageView::Capabilities { streams, .. } => streams == i.stage->Streams_streams,
                _ => false,
            }
        }),
{
}

/// The streams are those of some of the first `n` profiles, in the order of the profiles.
pub open spec fn streams_from(
    profiles: Seq<ProfileInfoView>,
    n: nat,
    streams: Seq<MediaStreamView>,
) -> bool
    decreases n,
{
    if n == 0 {
        streams.len() == 0
    } else {
        ||| streams_from(profiles, (n - 1) as nat, streams)
        ||| {
            &&& streams.len() > 0
            &&& streams.last().profile_token == profiles[n - 1].token
            &&& streams.last().name == profiles[n - 1].name
            &&& streams_from(profiles, (n - 1) as nat, streams.drop_last())
        }
    }
}

/// Every stream that is found is that of a profile that was asked for, in the order of the
/// profiles.
pub proof fn law_streams_belong_to_profiles(
    i: InterrogationView,
    reply: Result<Seq<char>, InterrogationErrorView>,
    elapsed: nat,
)
    requires
        sound(i),
        i.stage matches StageView::Streams { profiles, asked, streams, .. } && streams_from(
            profiles,
            asked,
            streams,
        ),
    ensures
        ({
            let profiles = i.stage->Streams_profiles;
            let asked = i.stage->Streams_asked + 1;
            &&& advanced(i, reply, elapsed) is Continue
            &&& match advanced(i, reply, elapsed)->Continue_0.stage {
                StageView::Streams { streams, .. } => streams_from(profiles, asked, streams),
                StageView::Capabilities { streams, .. } => streams_from(profiles, asked, streams),
                _ => false,
            }
        }),
{
    let streams = i.stage->Streams_streams;
    assert forall|stream: MediaStreamView| #[trigger]
        streams.push(stream).drop_last() == streams by {
        assert(streams.push(stream).drop_last() =~= streams);
    }
}

/// Any other request that fails, for a reason other than that authentication is required, ends the
/// interrogation with that failure.
pub proof fn law_failure_ends_interrogation(
    i: InterrogationView,
    error: InterrogationErrorView,
    elapsed: nat,
)
    requires
        sound(i),
        i.stage !is Streams,
        error !is AuthRequired,
    ensures
        advanced(i, Err(error), elapsed) == ProgressView::Failed(error),
{
}

/// What has become of an interrogation when the replies are in, the last of them `elapsed`
/// nanoseconds after the start.
pub open spec fn heard(
    i: InterrogationView,
    replies: Seq<Result<Seq<char>, InterrogationErrorView>>,
    elapsed: nat,
) -> ProgressView
    decreases replies.len(),
{
    if replies.len() == 0 {
        ProgressView::Continue(i)
    } else {
        match heard(i, replies.drop_last(), elapsed) {
            ProgressView::Continue(next) => advanced(next, replies.last(), elapsed),
            over => over,
        }
    }
}

/// The reply to the question for the stream of a profile can be used: it came, and its Uri element
/// holds a stream.
pub open spec fn usable(
    profile: ProfileInfoView,
    reply: Result<Seq<char>, InterrogationErrorView>,
) -> bool {
    reply is Ok && profiles::stream_of(
        xml::buffered_events(reply->Ok_0),
        profile,
        text::lowercased(profile.name),
    ) is Ok
}

/// The stream in a usable reply.
pub open spec fn stream_in(
    profile: ProfileInfoView,
    reply: Result<Seq<char>, InterrogationErrorView>,
) -> MediaStreamView {
    profiles::stream_of(
        xml::buffered_events(reply->Ok_0),
        profile,
        text::lowercased(profile.name),
    )->Ok_0
}

/// The streams are those of the usable replies, in the order of the profiles: `which` lists, in
/// rising order, exactly the profiles with a usable reply.
pub open spec fn are_streams_in(
    profiles: Seq<ProfileInfoView>,
    replies: Seq<Result<Seq<char>, InterrogationErrorView>>,
    which: Seq<int>,
    streams: Seq<MediaStreamView>,
) -> bool {
    &&& which.len() == streams.len()
    &&& forall|a: int, b: int| 0 <= a < b < which.len() ==> which[a] < which[b]
    &&& forall|a: int|
        0 <= a < which.len() ==> 0 <= #[trigger] which[a] < replies.len() && usable(
            profiles[which[a]],
            replies[which[a]],
        )
    &&& forall|a: int|
        0 <= a < which.len() ==> #[trigger] streams[a] == stream_in(
            profiles[which[a]],
            replies[which[a]],
        )
    &&& forall|k: int|
        0 <= k < replies.len() && usable(profiles[k], #[trigger] replies[k]) ==> which.contains(k)
}

/// One more reply.
proof fn lemma_streams_in(
    profiles: Seq<ProfileInfoView>,
    replies: Seq<Result<Seq<char>, InterrogationErrorView>>,
    which: Seq<int>,
    streams: Seq<MediaStreamView>,
) -> (next: Seq<int>)
    requires
        replies.len() > 0,
        are_streams_in(profiles, replies.drop_last(), which, streams),
    ensures
        are_streams_in(
            profiles,
            replies,
            next,
            if usable(profiles[replies.len() - 1], replies.last()) {
                streams.push(stream_in(profiles[replies.len() - 1], replies.last()))
            } else {
                streams
            },
        ),
{
    let k = replies.len() - 1;
    let before = replies.drop_last();
    let next = if usable(profiles[k], replies.last()) {
        which.push(k)
    } else {
        which
    };
    assert forall|a: int| 0 <= a < next.len() implies 0 <= #[trigger] next[a] < replies.len()
        && usable(profiles[next[a]], replies[next[a]]) by {
        if a < which.len() {
            assert(next[a] == which[a]);
            assert(before[which[a]] == replies[which[a]]);
        }
    }
    assert forall|j: int|
        0 <= j < replies.len() && usable(
            profiles[j],
            #[trigger] replies[j],
        ) implies next.contains(j) by {
        if j < k {
            assert(before[j] == replies[j]);
            assert(which.contains(j));
            let a = choose|a: int| 0 <= a < which.len() && which[a] == j;
            assert(next[a] == j);
        } else {
            assert(next[which.len() as int] == k);
        }
    }
    next
}

/// While fewer profiles have been asked for than were listed, the next request is for the stream
/// of the first profile not yet asked for. When the capabilities are asked for, every profile has
/// been asked for once, and the streams are those of the usable replies, in the order of the
/// profiles.
pub proof fn law_every_profile_is_asked_for(
    i: InterrogationView,
    list: Seq<char>,
    replies: Seq<Result<Seq<char>, InterrogationErrorView>>,
    elapsed: nat,
)
    requires
        i.stage is Profiles,
        profiles::profiles_of(list, xml::borrowed_events(list)) is Ok,
        replies.len() <= profiles::profiles_of(list, xml::borrowed_events(list))->Ok_0.len(),
    ensures
        ({
            let profiles = profiles::profiles_of(list, xml::borrowed_events(list))->Ok_0;
            let after = heard(i, seq![Ok(list)] + replies, elapsed);
            let next = after->Continue_0;
            &&& after is Continue
            &&& next.subject == i.subject
            &&& if replies.len() < profiles.len() {
                next_request(next) == (OnvifRequestView {
                    url: i.stage->Profiles_media_url,
                    operation: OperationView::StreamUri(profiles[replies.len() as int].token),
                    authenticated: i.subject.has_credentials,
                })
            } else {
                &&& next_request(next) == (OnvifRequestView {
                    url: i.subject.device_url,
                    operation: OperationView::Capabilities,
                    authenticated: i.subject.has_credentials,
                })
                &&& next.stage is Capabilities
                &&& next.stage->Capabilities_info == i.stage->Profiles_info
                &&& next.stage->Capabilities_services == i.stage->Profiles_services
                &&& exists|which: Seq<int>| #[trigger]
                    are_streams_in(profiles, replies, which, next.stage->Capabilities_streams)
            }
        }),
{
    lemma_profiles_asked(i, list, replies, elapsed);
}

/// The stage after the replies for the first profiles.
proof fn lemma_profiles_asked(
    i: InterrogationView,
    list: Seq<char>,
    replies: Seq<Result<Seq<char>, InterrogationErrorView>>,
    elapsed: nat,
) -> (which: Seq<int>)
    requires
        i.stage is Profiles,
        profiles::profiles_of(list, xml::borrowed_events(list)) is Ok,
        replies.len() <= profiles::profiles_of(list, xml::borrowed_events(list))->Ok_0.len(),
    ensures
        ({
            let profiles = profiles::profiles_of(list, xml::borrowed_events(list))->Ok_0;
            let after = heard(i, seq![Ok(list)] + replies, elapsed);
            let next = after->Continue_0;
            &&& after is Continue
            &&& next.subject == i.subject
            &&& if replies.len() < profiles.len() {
                &&& next.stage is Streams
                &&& next.stage->Streams_info == i.stage->Profiles_info
                &&& next.stage->Streams_services == i.stage->Profiles_services
                &&& next.stage->Streams_media_url == i.stage->Profiles_media_url
                &&& next.stage->Streams_profiles == profiles
                &&& next.stage->Streams_asked == replies.len()
                &&& are_streams_in(profiles, replies, which, next.stage->Streams_streams)
            } else {
                &&& next.stage is Capabilities
                &&& next.stage->Capabilities_info == i.stage->Profiles_info
                &&& next.stage->Capabilities_services == i.stage->Profiles_services
                &&& are_streams_in(profiles, replies, which, next.stage->Capabilities_streams)
            }
        }),
    decreases replies.len(),
{
    let profiles = profiles::profiles_of(list, xml::borrowed_events(list))->Ok_0;
    let all = seq![Ok::<Seq<char>, InterrogationErrorView>(list)] + replies;
    if replies.len() == 0 {
        assert(all.drop_last() =~= Seq::empty());
        assert(all.last() == Ok::<Seq<char>, InterrogationErrorView>(list));
        assert(heard(i, all.drop_last(), elapsed) == ProgressView::Continue(i));
        Seq::empty()
    } else {
        let before = replies.drop_last();
        let which = lemma_profiles_asked(i, list, before, elapsed);
        let previous = heard(
            i,
            seq![Ok::<Seq<char>, InterrogationErrorView>(list)] + before,
            elapsed,
        )->Continue_0;
        assert(all.drop_last() =~= seq![Ok::<Seq<char>, InterrogationErrorView>(list)] + before);
        assert(all.last() == replies.last());
        lemma_streams_in(profiles, replies, which, previous.stage->Streams_streams)
    }
}

/// An interrogation whose questions are all answered tells what the answers tell, however many of
/// the replies about streams can be used.
pub proof fn law_answered_interrogation(
    i: InterrogationView,
    list: Seq<char>,
    replies: Seq<Result<Seq<char>, InterrogationErrorView>>,
    last: Result<Seq<char>, InterrogationErrorView>,
    elapsed: nat,
)
    requires
        i.stage is Profiles,
        profiles::profiles_of(list, xml::borrowed_events(list)) is Ok,
        replies.len() == profiles::profiles_of(list, xml::borrowed_events(list))->Ok_0.len(),
    ensures
        ({
            let profiles = profiles::profiles_of(list, xml::borrowed_events(list))->Ok_0;
            let end = heard(i, (seq![Ok(list)] + replies).push(last), elapsed);
            match last {
                Err(e) => end == ProgressView::Failed(e),
                Ok(xml) => match responses::capabilities_of(xml) {
                    Err(e) => end == ProgressView::Failed(e),
                    Ok(capabilities) => {
                        let details = end->Done_0;
                        &&& end is Done
                        &&& details.device_info == i.stage->Profiles_info
                        &&& details.services == i.stage->Profiles_services
                        &&& details.capabilities == capabilities
                        &&& details.interrogation_duration == elapsed
                        &&& exists|which: Seq<int>| #[trigger]
                            are_streams_in(profiles, replies, which, details.streams)
                    },
                },
            }
        }),
{
    let which = lemma_profiles_asked(i, list, replies, elapsed);
    let all = (seq![Ok::<Seq<char>, InterrogationErrorView>(list)] + replies).push(last);
    let profiles = profiles::profiles_of(list, xml::borrowed_events(list))->Ok_0;
    assert(all.drop_last() =~= seq![Ok::<Seq<char>, InterrogationErrorView>(list)] + replies);
    assert(all.last() == last);
    let asked = heard(i, all.drop_last(), elapsed)->Continue_0;
    let end = heard(i, all, elapsed);
    assert(end == advanced(asked, last, elapsed));
    if let Ok(xml) = last {
        if responses::capabilities_of(xml) is Ok {
            assert(are_streams_in(profiles, replies, which, end->Done_0.streams));
        }
    }
}

/// What follows from a reply follows from the answer that is read out of it, at every stage and
/// whether or not the credentials were sent; what is known so far goes with it.
pub proof fn law_reply_is_read(
    i: InterrogationView,
    reply: Result<Seq<char>, InterrogationErrorView>,
    elapsed: nat,
)
    requires
        sound(i),
    ensures
        i.stage matches StageView::Information { authenticated } ==> advanced(i, reply, elapsed)
            == after_information(
            i.subject,
            authenticated,
            if reply is Ok {
                responses::device_info_of(xml::buffered_events(reply->Ok_0))
            } else {
                Err(reply->Err_0)
            },
        ),
        i.stage matches StageView::Services { info, authenticated } ==> advanced(i, reply, elapsed)
            == after_services(
            i.subject,
            info,
            authenticated,
            if reply is Ok {
                services::services_of(reply->Ok_0, xml::borrowed_events(reply->Ok_0))
            } else {
                Err(reply->Err_0)
            },
        ),
        i.stage matches StageView::Profiles { info, services, media_url } ==> advanced(
            i,
            reply,
            elapsed,
        ) == after_profiles(
            i.subject,
            info,
            services,
            media_url,
            if reply is Ok {
                profiles::profiles_of(reply->Ok_0, xml::borrowed_events(reply->Ok_0))
            } else {
                Err(reply->Err_0)
            },
        ),
        i.stage matches StageView::Streams {
            info,
            services,
            media_url,
            profiles,
            asked,
            streams,
        } ==> advanced(i, reply, elapsed) == after_stream(
            i.subject,
            info,
            services,
            media_url,
            profiles,
            asked,
            streams,
            if reply is Ok {
                profiles::stream_of(
                    xml::buffered_events(reply->Ok_0),
                    profiles[asked as int],
                    text::lowercased(profiles[asked as int].name),
                )
            } else {
                Err(reply->Err_0)
            },
        ),
        i.stage matches StageView::Capabilities { info, services, streams } ==> advanced(
            i,
            reply,
            elapsed,
        ) == after_capabilities(
            info,
            services,
            streams,
            if reply is Ok {
                responses::capabilities_of(reply->Ok_0)
            } else {
                Err(reply->Err_0)
            },
            elapsed,
        ),
{
}

/// A reply that cannot be read counts as a request that failed, for the same reason.
pub proof fn law_unreadable_reply_is_a_failure(i: InterrogationView, xml: Seq<char>, elapsed: nat)
    requires
        sound(i),
    ensures
        ({
            let events = xml::buffered_events(xml);
            let answers = advanced(i, Ok(xml), elapsed);
            match i.stage {
                StageView::Information { .. } => responses::device_info_of(events) matches Err(e)
                    ==> answers == advanced(i, Err(e), elapsed),
                StageView::Services { .. } => services::services_of(
                    xml,
                    xml::borrowed_events(xml),
                ) matches Err(e) ==> answers == advanced(i, Err(e), elapsed),
                StageView::Profiles { .. } => profiles::profiles_of(
                    xml,
                    xml::borrowed_events(xml),
                ) matches Err(e) ==> answers == advanced(i, Err(e), elapsed),
                StageView::Streams { profiles, asked, .. } => profiles::stream_of(
                    events,
                    profiles[asked as int],
                    text::lowercased(profiles[asked as int].name),
                ) matches Err(e) ==> answers == advanced(i, Err(e), elapsed),
                StageView::Capabilities { .. } => responses::capabilities_of(xml) matches Err(e)
                    ==> answers == advanced(i, Err(e), elapsed),
            }
        }),
{
}

/// A device that says what it is is asked for its services next, without credentials; what it says
/// is kept. Otherwise the question is put once more with credentials, if that is what was missing,
/// or the interrogation fails for the reason given.
pub proof fn law_information_leads_to_services(
    subject: SubjectView,
    authenticated: bool,
    answer: Result<DeviceInfoView, InterrogationErrorView>,
)
    ensures
        ({
            let after = after_information(subject, authenticated, answer);
            let next = after->Continue_0;
            match answer {
                Ok(info) => {
                    &&& after is Continue
                    &&& next.subject == subject
                    &&& next.stage is Services
                    &&& next.stage->Services_info == info
                    &&& next_request(next) == (OnvifRequestView {
                        url: subject.device_url,
                        operation: OperationView::Services,
                        authenticated: false,
                    })
                },
                Err(e) => if e == InterrogationErrorView::AuthRequired && !authenticated
                    && subject.has_credentials {
                    &&& after is Continue
                    &&& next.subject == subject
                    &&& next.stage is Information
                    &&& next_request(next) == (OnvifRequestView {
                        url: subject.device_url,
                        operation: OperationView::DeviceInformation,
                        authenticated: true,
                    })
                } else {
                    after == ProgressView::Failed(e)
                },
            }
        }),
{
}

/// The first service whose namespace speaks of media.
pub open spec fn is_first_media_service(services: Seq<ServiceInfoView>, k: int) -> bool {
    &&& 0 <= k < services.len()
    &&& text::contains(services[k].namespace, "media"@)
    &&& forall|j: int| 0 <= j < k ==> !text::contains(#[trigger] services[j].namespace, "media"@)
}

/// The media service is the first whose namespace speaks of media.
proof fn lemma_first_media_service(services: Seq<ServiceInfoView>, from: int)
    requires
        0 <= from <= services.len(),
        forall|j: int| 0 <= j < from ==> !text::contains(#[trigger] services[j].namespace, "media"@),
    ensures
        match media_url_of(services, from) {
            Some(url) => exists|k: int| #[trigger]
                is_first_media_service(services, k) && services[k].url == url,
            None => forall|j: int|
                0 <= j < services.len() ==> !text::contains(
                    #[trigger] services[j].namespace,
                    "media"@,
                ),
        },
    decreases services.len() - from,
{
    if from < services.len() {
        if text::contains(services[from].namespace, "media"@) {
            assert(is_first_media_service(services, from));
        } else {
            lemma_first_media_service(services, from + 1);
        }
    }
}

/// The profiles are asked of the first service whose namespace speaks of media, with the
/// credentials if there are any; what is known so far is kept. Without such a service the
/// interrogation fails. A refusal is met as before.
pub proof fn law_services_lead_to_profiles(
    subject: SubjectView,
    info: DeviceInfoView,
    authenticated: bool,
    answer: Result<Seq<ServiceInfoView>, InterrogationErrorView>,
)
    ensures
        ({
            let after = after_services(subject, info, authenticated, answer);
            let next = after->Continue_0;
            match answer {
                Ok(services) => {
                    &&& forall|k: int| #[trigger]
                        is_first_media_service(services, k) ==> {
                            &&& after is Continue
                            &&& next.subject == subject
                            &&& next.stage is Profiles
                            &&& next.stage->Profiles_info == info
                            &&& next.stage->Profiles_services == services
                            &&& next_request(next) == (OnvifRequestView {
                                url: services[k].url,
                                operation: OperationView::Profiles,
                                authenticated: subject.has_credentials,
                            })
                        }
                    &&& (forall|j: int|
                        0 <= j < services.len() ==> !text::contains(
                            #[trigger] services[j].namespace,
                            "media"@,
                        )) ==> after == ProgressView::Failed(
                        InterrogationErrorView::ServiceUnavailable(
                            "Media service not found in GetServices response"@,
                        ),
                    )
                },
                Err(e) => if e == InterrogationErrorView::AuthRequired && !authenticated
                    && subject.has_credentials {
                    &&& after is Continue
                    &&& next.subject == subject
                    &&& next.stage is Services
                    &&& next.stage->Services_info == info
                    &&& next_request(next) == (OnvifRequestView {
                        url: subject.device_url,
                        operation: OperationView::Services,
                        authenticated: true,
                    })
                } else {
                    after == ProgressView::Failed(e)
                },
            }
        }),
{
    if let Ok(services) = answer {
        lemma_first_media_service(services, 0);
        assert forall|k: int| #[trigger] is_first_media_service(services, k) implies media_url_of(
            services,
            0,
        ) == Some(services[k].url) by {
            assert(text::contains(services[k].namespace, "media"@));
            let url = media_url_of(services, 0)->0;
            let j = choose|j: int| #[trigger]
                is_first_media_service(services, j) && services[j].url == url;
            assert(is_first_media_service(services, j));
            if j < k {
                assert(!text::contains(services[j].namespace, "media"@));
            } else if k < j {
                assert(!text::contains(services[k].namespace, "media"@));
            }
        }
    }
}

/// Whatever the profiles are, the streams are asked for from the first profile on, or the
/// capabilities at once if there is no profile; no stream is known yet. Without an answer the
/// interrogation fails for the reason given.
pub proof fn law_profiles_lead_to_first_stream(
    subject: SubjectView,
    info: DeviceInfoView,
    services: Seq<ServiceInfoView>,
    media_url: Seq<char>,
    answer: Result<Seq<ProfileInfoView>, InterrogationErrorView>,
)
    ensures
        ({
            let after = after_profiles(subject, info, services, media_url, answer);
            let next = after->Continue_0;
            match answer {
                Ok(profiles) => {
                    &&& after is Continue
                    &&& next.subject == subject
                    &&& if profiles.len() > 0 {
                        &&& next.stage == StageView::Streams {
                            info,
                            services,
                            media_url,
                            profiles,
                            asked: 0,
                            streams: Seq::empty(),
                        }
                        &&& next_request(next) == (OnvifRequestView {
                            url: media_url,
                            operation: OperationView::StreamUri(profiles[0].token),
                            authenticated: subject.has_credentials,
                        })
                    } else {
                        next.stage == StageView::Capabilities {
                            info,
                            services,
                            streams: Seq::empty(),
                        }
                    }
                },
                Err(e) => after == ProgressView::Failed(e),
            }
        }),
{
}

/// With every answer about a stream one more profile has been asked for, and the next request is
/// for the stream of the first profile not yet asked for, or for the capabilities when none is
/// left. A stream that was found is added behind those found before.
pub proof fn law_stream_leads_to_next(
    subject: SubjectView,
    info: DeviceInfoView,
    services: Seq<ServiceInfoView>,
    media_url: Seq<char>,
    profiles: Seq<ProfileInfoView>,
    asked: nat,
    streams: Seq<MediaStreamView>,
    answer: Result<MediaStreamView, InterrogationErrorView>,
)
    requires
        asked < profiles.len(),
    ensures
        ({
            let after = after_stream(
                subject,
                info,
                services,
                media_url,
                profiles,
                asked,
                streams,
                answer,
            );
            let next = after->Continue_0;
            let known = if answer is Ok {
                streams.push(answer->Ok_0)
            } else {
                streams
            };
            &&& after is Continue
            &&& next.subject == subject
            &&& if asked + 1 < profiles.len() {
                &&& next.stage == StageView::Streams {
                    info,
                    services,
                    media_url,
                    profiles,
                    asked: asked + 1,
                    streams: known,
                }
                &&& next_request(next) == (OnvifRequestView {
                    url: media_url,
                    operation: OperationView::StreamUri(profiles[(asked + 1) as int].token),
                    authenticated: subject.has_credentials,
                })
            } else {
                &&& next.stage == StageView::Capabilities { info, services, streams: known }
                &&& next_request(next) == (OnvifRequestView {
                    url: subject.device_url,
                    operation: OperationView::Capabilities,
                    authenticated: subject.has_credentials,
                })
            }
        }),
{
}

/// The capabilities complete the details: everything that was found is in them.
pub proof fn law_capabilities_complete_details(
    info: DeviceInfoView,
    services: Seq<ServiceInfoView>,
    streams: Seq<MediaStreamView>,
    answer: Result<DeviceCapabilitiesView, InterrogationErrorView>,
    elapsed: nat,
)
    ensures
        ({
            let after = after_capabilities(info, services, streams, answer, elapsed);
            match answer {
                Ok(capabilities) => {
                    &&& after is Done
                    &&& after->Done_0.device_info == info
                    &&& after->Done_0.services == services
                    &&& after->Done_0.streams == streams
                    &&& after->Done_0.capabilities == capabilities
                    &&& after->Done_0.interrogation_duration == elapsed
                },
                Err(e) => after == ProgressView::Failed(e),
            }
        }),
{
}

/// An interrogation in which every question is answered at once asks for the device information,
/// the services and the profiles in this order, each of what the answers before it told.
pub proof fn law_interrogation_order(
    device_url: Seq<char>,
    has_credentials: bool,
    info: Seq<char>,
    services: Seq<char>,
    k: int,
    elapsed: nat,
)
    requires
        responses::device_info_of(xml::buffered_events(info)) is Ok,
        services::services_of(services, xml::borrowed_events(services)) is Ok,
        is_first_media_service(
            services::services_of(services, xml::borrowed_events(services))->Ok_0,
            k,
        ),
    ensures
        ({
            let found = services::services_of(services, xml::borrowed_events(services))->Ok_0;
            let first = heard(started(device_url, has_credentials), seq![Ok(info)], elapsed);
            let second = heard(
                started(device_url, has_credentials),
                seq![Ok(info), Ok(services)],
                elapsed,
            );
            &&& first is Continue
            &&& next_request(first->Continue_0) == (OnvifRequestView {
                url: device_url,
                operation: OperationView::Services,
                authenticated: false,
            })
            &&& second is Continue
            &&& next_request(second->Continue_0) == (OnvifRequestView {
                url: found[k].url,
                operation: OperationView::Profiles,
                authenticated: has_credentials,
            })
            &&& second->Continue_0.stage is Profiles
            &&& second->Continue_0.stage->Profiles_info == responses::device_info_of(
                xml::buffered_events(info),
            )->Ok_0
            &&& second->Continue_0.stage->Profiles_services == found
            &&& second->Continue_0.subject.device_url == device_url
            &&& second->Continue_0.subject.has_credentials == has_credentials
        }),
{
    let start = started(device_url, has_credentials);
    let one = seq![Ok::<Seq<char>, InterrogationErrorView>(info)];
    let two = seq![
        Ok::<Seq<char>, InterrogationErrorView>(info),
        Ok::<Seq<char>, InterrogationErrorView>(services),
    ];
    let found = services::services_of(services, xml::borrowed_events(services));
    assert(one.drop_last() =~= Seq::empty());
    assert(one.last() == one[0]);
    assert(two.drop_last() =~= one);
    assert(two.last() == two[1]);
    assert(heard(start, one.drop_last(), elapsed) == ProgressView::Continue(start));
    law_information_leads_to_services(
        start.subject,
        false,
        responses::device_info_of(xml::buffered_events(info)),
    );
    law_services_lead_to_profiles(
        start.subject,
        responses::device_info_of(xml::buffered_events(info))->Ok_0,
        false,
        found,
    );
    assert(is_first_media_service(found->Ok_0, k));
}

/// Any reply shows that the credentials are good; a refusal or another status shows that they are
/// not; any other failure is handed on as it is.
pub proof fn law_verdict(reply: Result<Seq<char>, InterrogationErrorView>)
    ensures
        verdict(reply) == Ok::<bool, InterrogationErrorView>(true) <==> reply is Ok,
        verdict(reply) == Ok::<bool, InterrogationErrorView>(false) <==> reply is Err && (
        reply->Err_0 is AuthFailed || reply->Err_0 is Http),
        verdict(reply) is Err ==> reply is Err && verdict(reply)->Err_0 == reply->Err_0,
{
}

/// The credentials go with a request exactly if it is authenticated and there are any, and
/// unchanged.
pub proof fn law_sent_credentials(authenticated: bool, credentials: Option<&Credentials>)
    ensures
        sent_username(authenticated, credentials) is Some <==> authenticated && credentials is Some,
        sent_password(authenticated, credentials) is Some <==> authenticated && credentials is Some,
        authenticated && credentials is Some ==> {
            &&& sent_username(authenticated, credentials)->0 == credentials->0.username@
            &&& sent_password(authenticated, credentials)->0 == credentials->0.password@
        },
{
}

/// The action of a request names the service that it goes to and the operation, and the message
/// asks for the same operation, whatever its header; a request for a stream names the profile.
pub proof fn law_action_and_message_agree(operation: OperationView, header: Seq<char>)
    ensures
        ({
            let action = action_of(operation);
            let message = message_of(operation, header);
            let device = "http://www.onvif.org/ver10/device/wsdl/"@;
            let media = "http://www.onvif.org/ver10/media/wsdl/"@;
            match operation {
                OperationView::DeviceInformation => {
                    &&& action == device + "GetDeviceInformation"@
                    &&& text::contains(message, "<tds:GetDeviceInformation/>"@)
                },
                OperationView::Services => {
                    &&& action == device + "GetServices"@
                    &&& text::contains(message, "<tds:GetServices>"@)
                },
                OperationView::Profiles => {
                    &&& action == media + "GetProfiles"@
                    &&& text::contains(message, "<trt:GetProfiles/>"@)
                },
                OperationView::StreamUri(token) => {
                    &&& action == media + "GetStreamUri"@
                    &&& text::contains(message, "<trt:GetStreamUri>"@)
                    &&& text::contains(
                        message,
                        "<trt:ProfileToken>"@ + token + "</trt:ProfileToken>"@,
                    )
                },
                OperationView::Capabilities => {
                    &&& action == device + "GetCapabilities"@
                    &&& text::contains(message, "<tds:GetCapabilities>"@)
                },
            }
        }),
        text::contains(
            message_of(operation, header),
            "<SOAP-ENV:Header>\n        "@ + header + "\n    </SOAP-ENV:Header>"@,
        ),
{
    reveal_strlit("http://www.onvif.org/ver10/device/wsdl/");
    reveal_strlit("http://www.onvif.org/ver10/media/wsdl/");
    let device = "http://www.onvif.org/ver10/device/wsdl/"@;
    let media = "http://www.onvif.org/ver10/media/wsdl/"@;
    match operation {
        OperationView::DeviceInformation => {
            reveal_strlit("GetDeviceInformation");
            reveal_strlit("http://www.onvif.org/ver10/device/wsdl/GetDeviceInformation");
            assert(action_of(operation) =~= device + "GetDeviceInformation"@);
            soap::law_device_information_message(header);
        },
        OperationView::Services => {
            reveal_strlit("GetServices");
            reveal_strlit("http://www.onvif.org/ver10/device/wsdl/GetServices");
            assert(action_of(operation) =~= device + "GetServices"@);
            soap::law_services_message(header);
        },
        OperationView::Profiles => {
            reveal_strlit("GetProfiles");
            reveal_strlit("http://www.onvif.org/ver10/media/wsdl/GetProfiles");
            assert(action_of(operation) =~= media + "GetProfiles"@);
            soap::law_profiles_message(header);
        },
        OperationView::StreamUri(token) => {
            reveal_strlit("GetStreamUri");
            reveal_strlit("http://www.onvif.org/ver10/media/wsdl/GetStreamUri");
            assert(action_of(operation) =~= media + "GetStreamUri"@);
            soap::law_stream_uri_message(header, token);
        },
        OperationView::Capabilities => {
            reveal_strlit("GetCapabilities");
            reveal_strlit("http://www.onvif.org/ver10/device/wsdl/GetCapabilities");
            assert(action_of(operation) =~= device + "GetCapabilities"@);
            soap::law_capabilities_message(header);
        },
    }
}

} // verus!
