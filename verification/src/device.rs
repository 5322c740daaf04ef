//! What is known about a device: its description, capabilities, streams and services.

use crate::text;
use crate::time::Duration;
use vstd::prelude::*;
use vstd::utf8::*;

verus! {

/// Detailed information about an ONVIF device
#[derive(Debug, Clone)]
pub struct DeviceDetails {
    /// Device description from GetDeviceInformation
    pub device_info: DeviceInfo,
    /// Device capabilities and supported features
    pub capabilities: DeviceCapabilities,
    /// Available media streams
    pub streams: Vec<MediaStream>,
    /// Available ONVIF services
    pub services: Vec<ServiceInfo>,
    /// Time taken to interrogate the device
    pub interrogation_duration: Duration,
}

/// The view of `DeviceDetails`; the duration is in nanoseconds.
#[verifier::ext_equal]
pub struct DeviceDetailsView {
    pub device_info: DeviceInfoView,
    pub capabilities: DeviceCapabilitiesView,
    pub streams: Seq<MediaStreamView>,
    pub services: Seq<ServiceInfoView>,
    pub interrogation_duration: nat,
}

impl View for DeviceDetails {
    type V = DeviceDetailsView;

    open spec fn view(&self) -> DeviceDetailsView {
        DeviceDetailsView {
            device_info: self.device_info@,
            capabilities: self.capabilities@,
            streams: stream_views(self.streams@),
            services: service_views(self.services@),
            interrogation_duration: self.interrogation_duration@,
        }
    }
}

/// Device description from ONVIF GetDeviceInformation
#[derive(Debug, Clone)]
pub struct DeviceInfo {
    /// Device manufacturer
    pub manufacturer: String,
    /// Device model
    pub model: String,
    /// Firmware version
    pub firmware_version: String,
    /// Serial number
    pub serial_number: String,
    /// Hardware ID
    pub hardware_id: String,
}

/// The view of a `DeviceInfo`.
#[verifier::ext_equal]
pub struct DeviceInfoView {
    pub manufacturer: Seq<char>,
    pub model: Seq<char>,
    pub firmware_version: Seq<char>,
    pub serial_number: Seq<char>,
    pub hardware_id: Seq<char>,
}

impl View for DeviceInfo {
    type V = DeviceInfoView;

    open spec fn view(&self) -> DeviceInfoView {
        DeviceInfoView {
            manufacturer: self.manufacturer@,
            model: self.model@,
            firmware_version: self.firmware_version@,
            serial_number: self.serial_number@,
            hardware_id: self.hardware_id@,
        }
    }
}

/// Device capabilities and supported features
#[derive(Debug, Clone)]
pub struct DeviceCapabilities {
    /// Supported authentication methods
    pub auth_methods: Vec<AuthMethod>,
    /// ONVIF version supported
    pub onvif_version: String,
    /// PTZ (Pan-Tilt-Zoom) support
    pub ptz_supported: bool,
    /// Audio input support
    pub audio_input_supported: bool,
    /// Audio output support
    pub audio_output_supported: bool,
    /// Number of video sources
    pub video_sources: u32,
    /// Number of audio sources
    pub audio_sources: u32,
    /// Supported ONVIF profiles
    pub profiles: Vec<String>,
    /// Analytics support
    pub analytics_supported: bool,
    /// Events support
    pub events_supported: bool,
}

/// The view of `DeviceCapabilities`.
#[verifier::ext_equal]
pub struct DeviceCapabilitiesView {
    pub auth_methods: Seq<AuthMethod>,
    pub onvif_version: Seq<char>,
    pub ptz_supported: bool,
    pub audio_input_supported: bool,
    pub audio_output_supported: bool,
    pub video_sources: u32,
    pub audio_sources: u32,
    pub profiles: Seq<Seq<char>>,
    pub analytics_supported: bool,
    pub events_supported: bool,
}

impl View for DeviceCapabilities {
    type V = DeviceCapabilitiesView;

    open spec fn view(&self) -> DeviceCapabilitiesView {
        DeviceCapabilitiesView {
            auth_methods: self.auth_methods@,
            onvif_version: self.onvif_version@,
            ptz_supported: self.ptz_supported,
            audio_input_supported: self.audio_input_supported,
            audio_output_supported: self.audio_output_supported,
            video_sources: self.video_sources,
            audio_sources: self.audio_sources,
            profiles: text::texts(self.profiles@),
            analytics_supported: self.analytics_supported,
            events_supported: self.events_supported,
        }
    }
}

/// Authentication method
#[derive(Debug, Clone, Copy, PartialEq, Eq, Structural)]
pub enum AuthMethod {
    /// No authentication required
    NoAuth,
    /// HTTP Basic authentication
    Basic,
    /// HTTP Digest authentication
    Digest,
    /// WS-Security username token
    UsernameToken,
}

/// The name of an authentication method.
pub open spec fn auth_method_name(method: AuthMethod) -> Seq<char> {
    match method {
        AuthMethod::NoAuth => "None"@,
        AuthMethod::Basic => "Basic"@,
        AuthMethod::Digest => "Digest"@,
        AuthMethod::UsernameToken => "UsernameToken"@,
    }
}

/// A name belongs to one authentication method only.
pub proof fn law_auth_method_name(method: AuthMethod)
    ensures
        auth_method_name(method) == "None"@ <==> method == AuthMethod::NoAuth,
        auth_method_name(method) == "Basic"@ <==> method == AuthMethod::Basic,
        auth_method_name(method) == "Digest"@ <==> method == AuthMethod::Digest,
        auth_method_name(method) == "UsernameToken"@ <==> method == AuthMethod::UsernameToken,
{
    reveal_strlit("None");
    reveal_strlit("Basic");
    reveal_strlit("Digest");
    reveal_strlit("UsernameToken");
    assert("None"@.len() == 4 && "Basic"@.len() == 5 && "Digest"@.len() == 6);
    assert("UsernameToken"@.len() == 13);
}

impl AuthMethod {
    /// The name of the method.
    pub fn to_string(&self) -> (r: String)
        ensures
            r@ == auth_method_name(*self),
    {
        match self {
            AuthMethod::NoAuth => "None".to_owned(),
            AuthMethod::Basic => "Basic".to_owned(),
            AuthMethod::Digest => "Digest".to_owned(),
            AuthMethod::UsernameToken => "UsernameToken".to_owned(),
        }
    }
}

/// Information about a media stream
#[derive(Debug, Clone)]
pub struct MediaStream {
    /// ONVIF profile token
    pub profile_token: String,
    /// Human-readable stream name
    pub name: String,
    /// RTSP stream URL
    pub rtsp_url: String,
    /// Video encoding format
    pub video_encoding: VideoEncoding,
    /// Video resolution
    pub resolution: Resolution,
    /// Video framerate, in whole frames per second
    pub framerate: Option<u32>,
    /// Video bitrate (bps)
    pub bitrate: Option<u32>,
    /// Stream classification
    pub stream_type: StreamType,
    /// Audio encoding if available
    pub audio_encoding: Option<AudioEncoding>,
}

/// The view of a `MediaStream`.
#[verifier::ext_equal]
pub struct MediaStreamView {
    pub profile_token: Seq<char>,
    pub name: Seq<char>,
    pub rtsp_url: Seq<char>,
    pub video_encoding: VideoEncodingView,
    pub resolution: Resolution,
    pub framerate: Option<u32>,
    pub bitrate: Option<u32>,
    pub stream_type: StreamType,
    pub audio_encoding: Option<AudioEncodingView>,
}

impl View for MediaStream {
    type V = MediaStreamView;

    open spec fn view(&self) -> MediaStreamView {
        MediaStreamView {
            profile_token: self.profile_token@,
            name: self.name@,
            rtsp_url: self.rtsp_url@,
            video_encoding: self.video_encoding@,
            resolution: self.resolution,
            framerate: self.framerate,
            bitrate: self.bitrate,
            stream_type: self.stream_type,
            audio_encoding: match self.audio_encoding {
                Some(encoding) => Some(encoding@),
                None => None,
            },
        }
    }
}

/// The views of a row of streams.
pub open spec fn stream_views(streams: Seq<MediaStream>) -> Seq<MediaStreamView> {
    streams.map_values(|s: MediaStream| s@)
}

// ---------------------------------------------------------------------------------------------
// Video encodings
// ---------------------------------------------------------------------------------------------

/// Video encoding format
#[derive(Debug, PartialEq)]
pub enum VideoEncoding {
    H264,
    H265,
    MJPEG,
    MPEG4,
    Unknown(String),
}

/// The view of a `VideoEncoding`.
pub enum VideoEncodingView {
    H264,
    H265,
    MJPEG,
    MPEG4,
    Unknown(Seq<char>),
}

impl View for VideoEncoding {
    type V = VideoEncodingView;

    open spec fn view(&self) -> VideoEncodingView {
        match self {
            VideoEncoding::H264 => VideoEncodingView::H264,
            VideoEncoding::H265 => VideoEncodingView::H265,
            VideoEncoding::MJPEG => VideoEncodingView::MJPEG,
            VideoEncoding::MPEG4 => VideoEncodingView::MPEG4,
            VideoEncoding::Unknown(s) => VideoEncodingView::Unknown(s@),
        }
    }
}

/// How a video encoding is written.
pub open spec fn video_encoding_name(encoding: VideoEncodingView) -> Seq<char> {
    match encoding {
        VideoEncodingView::H264 => "H.264"@,
        VideoEncodingView::H265 => "H.265"@,
        VideoEncodingView::MJPEG => "MJPEG"@,
        VideoEncodingView::MPEG4 => "MPEG-4"@,
        VideoEncodingView::Unknown(s) => s,
    }
}

/// The video encoding that `name` stands for, whose upper case form is `upper`.
pub open spec fn video_encoding_of(upper: Seq<char>, name: Seq<char>) -> VideoEncodingView {
    if upper == "H264"@ || upper == "H.264"@ {
        VideoEncodingView::H264
    } else if upper == "H265"@ || upper == "H.265"@ || upper == "HEVC"@ {
        VideoEncodingView::H265
    } else if upper == "MJPEG"@ || upper == "JPEG"@ {
        VideoEncodingView::MJPEG
    } else if upper == "MPEG4"@ || upper == "MPEG-4"@ {
        VideoEncodingView::MPEG4
    } else {
        VideoEncodingView::Unknown(name)
    }
}

impl Clone for VideoEncoding {
    fn clone(&self) -> (r: Self)
        ensures
            r == *self,
    {
        match self {
            VideoEncoding::H264 => VideoEncoding::H264,
            VideoEncoding::H265 => VideoEncoding::H265,
            VideoEncoding::MJPEG => VideoEncoding::MJPEG,
            VideoEncoding::MPEG4 => VideoEncoding::MPEG4,
            VideoEncoding::Unknown(s) => VideoEncoding::Unknown(s.clone()),
        }
    }
}

impl VideoEncoding {
    /// How the encoding is written.
    pub fn to_string(&self) -> (r: String)
        ensures
            r@ == video_encoding_name(self@),
    {
        match self {
            VideoEncoding::H264 => "H.264".to_owned(),
            VideoEncoding::H265 => "H.265".to_owned(),
            VideoEncoding::MJPEG => "MJPEG".to_owned(),
            VideoEncoding::MPEG4 => "MPEG-4".to_owned(),
            VideoEncoding::Unknown(s) => s.clone(),
        }
    }

    /// The encoding that `name` stands for, whose upper case form is `upper`.
    pub fn from_upper(upper: &str, name: &str) -> (r: Self)
        ensures
            r@ == video_encoding_of(upper@, name@),
    {
        if text::same(upper, "H264") || text::same(upper, "H.264") {
            VideoEncoding::H264
        } else if text::same(upper, "H265") || text::same(upper, "H.265") || text::same(upper, "HEVC") {
            VideoEncoding::H265
        } else if text::same(upper, "MJPEG") || text::same(upper, "JPEG") {
            VideoEncoding::MJPEG
        } else if text::same(upper, "MPEG4") || text::same(upper, "MPEG-4") {
            VideoEncoding::MPEG4
        } else {
            VideoEncoding::Unknown(name.to_owned())
        }
    }
}

impl<'a> From<&'a str> for VideoEncoding {
    /// The encoding that `s` stands for, upper or lower case.
    fn from(s: &'a str) -> (r: Self)
        ensures
            r@ == video_encoding_of(text::uppercased(s@), s@),
            is_ascii_chars(s@) ==> r@ == video_encoding_of(text::ascii_uppercase(s@), s@),
    {
        let upper = text::to_uppercase(s);
        VideoEncoding::from_upper(&upper, s)
    }
}

// What `from` returns holds a `String`, which spec code cannot make: the contract of `from` says it.
impl<'a> vstd::std_specs::convert::FromSpecImpl<&'a str> for VideoEncoding {
    open spec fn obeys_from_spec() -> bool {
        false
    }

    open spec fn from_spec(s: &'a str) -> Self {
        VideoEncoding::H264
    }
}

/// A recognised video encoding, written out, is recognised as itself.
pub proof fn law_video_encoding_round_trip(encoding: VideoEncodingView)
    requires
        encoding !is Unknown,
    ensures
        is_ascii_chars(video_encoding_name(encoding)),
        video_encoding_of(
            text::ascii_uppercase(video_encoding_name(encoding)),
            video_encoding_name(encoding),
        ) == encoding,
{
    let name = video_encoding_name(encoding);
    reveal_strlit("H.264");
    reveal_strlit("H.265");
    reveal_strlit("MJPEG");
    reveal_strlit("MPEG-4");
    reveal_strlit("H264");
    reveal_strlit("H265");
    reveal_strlit("HEVC");
    reveal_strlit("JPEG");
    reveal_strlit("MPEG4");
    assert(text::ascii_uppercase(name) =~= name);
    assert("H.265"@[4] != "H.264"@[4]);
    assert("MPEG-4"@[1] != "MJPEG"@[1]);
}

/// A recognised encoding is written by its common name, and any other as it was named.
pub proof fn law_video_encoding_name(encoding: VideoEncodingView)
    ensures
        encoding is H264 ==> video_encoding_name(encoding) == "H.264"@,
        encoding is H265 ==> video_encoding_name(encoding) == "H.265"@,
        encoding is MJPEG ==> video_encoding_name(encoding) == "MJPEG"@,
        encoding is MPEG4 ==> video_encoding_name(encoding) == "MPEG-4"@,
        encoding is Unknown ==> video_encoding_name(encoding) == encoding->Unknown_0,
{
}

/// An encoding is recognised by its upper case name exactly, and one that is not is kept as it was
/// named.
pub proof fn law_video_encoding(upper: Seq<char>, name: Seq<char>)
    ensures
        video_encoding_of(upper, name) is H264 <==> upper == "H264"@ || upper == "H.264"@,
        video_encoding_of(upper, name) is H265 <==> upper == "H265"@ || upper == "H.265"@ || upper
            == "HEVC"@,
        video_encoding_of(upper, name) is MJPEG <==> upper == "MJPEG"@ || upper == "JPEG"@,
        video_encoding_of(upper, name) is MPEG4 <==> upper == "MPEG4"@ || upper == "MPEG-4"@,
        video_encoding_of(upper, name) is Unknown ==> video_encoding_of(upper, name)
            == VideoEncodingView::Unknown(name),
{
    reveal_strlit("H264");
    reveal_strlit("H.264");
    reveal_strlit("H265");
    reveal_strlit("H.265");
    reveal_strlit("HEVC");
    reveal_strlit("MJPEG");
    reveal_strlit("JPEG");
    reveal_strlit("MPEG4");
    reveal_strlit("MPEG-4");
    assert("H264"@.len() == 4 && "H265"@.len() == 4 && "HEVC"@.len() == 4 && "JPEG"@.len() == 4);
    assert("H264"@[3] == '4' && "H265"@[3] == '5' && "HEVC"@[3] == 'C' && "JPEG"@[3] == 'G');
    assert("H.264"@.len() == 5 && "H.265"@.len() == 5 && "MJPEG"@.len() == 5);
    assert("MPEG4"@.len() == 5 && "MPEG-4"@.len() == 6);
    assert("H.264"@[4] == '4' && "H.265"@[4] == '5' && "MJPEG"@[4] == 'G' && "MPEG4"@[4] == '4');
    assert("H.264"@[0] == 'H' && "MPEG4"@[0] == 'M');
}

// ---------------------------------------------------------------------------------------------
// Audio encodings
// ---------------------------------------------------------------------------------------------

/// Audio encoding format
#[derive(Debug, Clone, PartialEq)]
pub enum AudioEncoding {
    AAC,
    G711,
    G726,
    PCM,
    Unknown(String),
}

/// The view of an `AudioEncoding`.
pub enum AudioEncodingView {
    AAC,
    G711,
    G726,
    PCM,
    Unknown(Seq<char>),
}

impl View for AudioEncoding {
    type V = AudioEncodingView;

    open spec fn view(&self) -> AudioEncodingView {
        match self {
            AudioEncoding::AAC => AudioEncodingView::AAC,
            AudioEncoding::G711 => AudioEncodingView::G711,
            AudioEncoding::G726 => AudioEncodingView::G726,
            AudioEncoding::PCM => AudioEncodingView::PCM,
            AudioEncoding::Unknown(s) => AudioEncodingView::Unknown(s@),
        }
    }
}

/// How an audio encoding is written.
pub open spec fn audio_encoding_name(encoding: AudioEncodingView) -> Seq<char> {
    match encoding {
        AudioEncodingView::AAC => "AAC"@,
        AudioEncodingView::G711 => "G.711"@,
        AudioEncodingView::G726 => "G.726"@,
        AudioEncodingView::PCM => "PCM"@,
        AudioEncodingView::Unknown(s) => s,
    }
}

/// The audio encoding that `name` stands for, whose upper case form is `upper`.
pub open spec fn audio_encoding_of(upper: Seq<char>, name: Seq<char>) -> AudioEncodingView {
    if upper == "AAC"@ {
        AudioEncodingView::AAC
    } else if upper == "G711"@ || upper == "G.711"@ {
        AudioEncodingView::G711
    } else if upper == "G726"@ || upper == "G.726"@ {
        AudioEncodingView::G726
    } else if upper == "PCM"@ {
        AudioEncodingView::PCM
    } else {
        AudioEncodingView::Unknown(name)
    }
}

impl AudioEncoding {
    /// How the encoding is written.
    pub fn to_string(&self) -> (r: String)
        ensures
            r@ == audio_encoding_name(self@),
    {
        match self {
            AudioEncoding::AAC => "AAC".to_owned(),
            AudioEncoding::G711 => "G.711".to_owned(),
            AudioEncoding::G726 => "G.726".to_owned(),
            AudioEncoding::PCM => "PCM".to_owned(),
            AudioEncoding::Unknown(s) => s.clone(),
        }
    }

    /// The encoding that `name` stands for, whose upper case form is `upper`.
    pub fn from_upper(upper: &str, name: &str) -> (r: Self)
        ensures
            r@ == audio_encoding_of(upper@, name@),
    {
        if text::same(upper, "AAC") {
            AudioEncoding::AAC
        } else if text::same(upper, "G711") || text::same(upper, "G.711") {
            AudioEncoding::G711
        } else if text::same(upper, "G726") || text::same(upper, "G.726") {
            AudioEncoding::G726
        } else if text::same(upper, "PCM") {
            AudioEncoding::PCM
        } else {
            AudioEncoding::Unknown(name.to_owned())
        }
    }
}

impl<'a> From<&'a str> for AudioEncoding {
    /// The encoding that `s` stands for, upper or lower case.
    fn from(s: &'a str) -> (r: Self)
        ensures
            r@ == audio_encoding_of(text::uppercased(s@), s@),
            is_ascii_chars(s@) ==> r@ == audio_encoding_of(text::ascii_uppercase(s@), s@),
    {
        let upper = text::to_uppercase(s);
        AudioEncoding::from_upper(&upper, s)
    }
}

// What `from` returns holds a `String`, which spec code cannot make: the contract of `from` says it.
impl<'a> vstd::std_specs::convert::FromSpecImpl<&'a str> for AudioEncoding {
    open spec fn obeys_from_spec() -> bool {
        false
    }

    open spec fn from_spec(s: &'a str) -> Self {
        AudioEncoding::AAC
    }
}

/// A recognised audio encoding, written out, is recognised as itself.
pub proof fn law_audio_encoding_round_trip(encoding: AudioEncodingView)
    requires
        encoding !is Unknown,
    ensures
        is_ascii_chars(audio_encoding_name(encoding)),
        audio_encoding_of(
            text::ascii_uppercase(audio_encoding_name(encoding)),
            audio_encoding_name(encoding),
        ) == encoding,
{
    let name = audio_encoding_name(encoding);
    reveal_strlit("AAC");
    reveal_strlit("G.711");
    reveal_strlit("G.726");
    reveal_strlit("PCM");
    reveal_strlit("G711");
    reveal_strlit("G726");
    assert(text::ascii_uppercase(name) =~= name);
    assert("G.726"@[3] != "G.711"@[3]);
    assert("PCM"@[0] != "AAC"@[0]);
}

/// A recognised encoding is written by its common name, and any other as it was named.
pub proof fn law_audio_encoding_name(encoding: AudioEncodingView)
    ensures
        encoding is AAC ==> audio_encoding_name(encoding) == "AAC"@,
        encoding is G711 ==> audio_encoding_name(encoding) == "G.711"@,
        encoding is G726 ==> audio_encoding_name(encoding) == "G.726"@,
        encoding is PCM ==> audio_encoding_name(encoding) == "PCM"@,
        encoding is Unknown ==> audio_encoding_name(encoding) == encoding->Unknown_0,
{
}

/// An encoding is recognised by its upper case name exactly, and one that is not is kept as it was
/// named.
pub proof fn law_audio_encoding(upper: Seq<char>, name: Seq<char>)
    ensures
        audio_encoding_of(upper, name) is AAC <==> upper == "AAC"@,
        audio_encoding_of(upper, name) is G711 <==> upper == "G711"@ || upper == "G.711"@,
        audio_encoding_of(upper, name) is G726 <==> upper == "G726"@ || upper == "G.726"@,
        audio_encoding_of(upper, name) is PCM <==> upper == "PCM"@,
        audio_encoding_of(upper, name) is Unknown ==> audio_encoding_of(upper, name)
            == AudioEncodingView::Unknown(name),
{
    reveal_strlit("AAC");
    reveal_strlit("G711");
    reveal_strlit("G.711");
    reveal_strlit("G726");
    reveal_strlit("G.726");
    reveal_strlit("PCM");
    assert("AAC"@.len() == 3 && "PCM"@.len() == 3 && "AAC"@[0] == 'A' && "PCM"@[0] == 'P');
    assert("G711"@.len() == 4 && "G726"@.len() == 4 && "G711"@[3] == '1' && "G726"@[3] == '6');
    assert("G.711"@.len() == 5 && "G.726"@.len() == 5 && "G.711"@[4] == '1' && "G.726"@[4] == '6');
}

// ---------------------------------------------------------------------------------------------
// Resolutions
// ---------------------------------------------------------------------------------------------

/// Video resolution
#[derive(Debug, Clone, Copy, PartialEq, Eq, Structural)]
pub struct Resolution {
    pub width: u32,
    pub height: u32,
}

/// The common name of a resolution.
pub open spec fn resolution_name(width: u32, height: u32) -> Seq<char> {
    if width == 1920 && height == 1080 {
        "1080p"@
    } else if width == 1280 && height == 720 {
        "720p"@
    } else if width == 640 && height == 480 {
        "VGA"@
    } else if width == 320 && height == 240 {
        "QVGA"@
    } else if width == 704 && height == 576 {
        "4CIF"@
    } else if width == 352 && height == 288 {
        "CIF"@
    } else if width == 176 && height == 144 {
        "QCIF"@
    } else {
        "Custom"@
    }
}

/// A common name belongs to one resolution only, and any other resolution is a custom one.
pub proof fn law_resolution_name(width: u32, height: u32)
    ensures
        resolution_name(width, height) == "1080p"@ <==> width == 1920 && height == 1080,
        resolution_name(width, height) == "720p"@ <==> width == 1280 && height == 720,
        resolution_name(width, height) == "VGA"@ <==> width == 640 && height == 480,
        resolution_name(width, height) == "QVGA"@ <==> width == 320 && height == 240,
        resolution_name(width, height) == "4CIF"@ <==> width == 704 && height == 576,
        resolution_name(width, height) == "CIF"@ <==> width == 352 && height == 288,
        resolution_name(width, height) == "QCIF"@ <==> width == 176 && height == 144,
        resolution_name(width, height) == "Custom"@ || resolution_name(width, height) == "1080p"@
            || resolution_name(width, height) == "720p"@ || resolution_name(width, height)
            == "VGA"@ || resolution_name(width, height) == "QVGA"@ || resolution_name(width, height)
            == "4CIF"@ || resolution_name(width, height) == "CIF"@ || resolution_name(width, height)
            == "QCIF"@,
{
    reveal_strlit("1080p");
    reveal_strlit("720p");
    reveal_strlit("VGA");
    reveal_strlit("QVGA");
    reveal_strlit("4CIF");
    reveal_strlit("CIF");
    reveal_strlit("QCIF");
    reveal_strlit("Custom");
    assert("1080p"@.len() == 5 && "720p"@.len() == 4 && "VGA"@.len() == 3 && "QVGA"@.len() == 4);
    assert("4CIF"@.len() == 4 && "CIF"@.len() == 3 && "QCIF"@.len() == 4 && "Custom"@.len() == 6);
    assert("VGA"@[0] == 'V' && "CIF"@[0] == 'C');
    assert("720p"@[0] == '7' && "4CIF"@[0] == '4' && "QVGA"@[1] == 'V' && "QCIF"@[1] == 'C');
    assert("QVGA"@[0] == 'Q' && "QCIF"@[0] == 'Q');
}

impl Resolution {
    /// A resolution of `width` by `height` pixels.
    pub fn new(width: u32, height: u32) -> (r: Self)
        ensures
            r.width == width,
            r.height == height,
    {
        Self { width, height }
    }

    /// Common resolution names
    pub fn name(&self) -> (r: &'static str)
        ensures
            r@ == resolution_name(self.width, self.height),
    {
        match (self.width, self.height) {
            (1920, 1080) => "1080p",
            (1280, 720) => "720p",
            (640, 480) => "VGA",
            (320, 240) => "QVGA",
            (704, 576) => "4CIF",
            (352, 288) => "CIF",
            (176, 144) => "QCIF",
            _ => "Custom",
        }
    }

    /// Calculate total pixels
    pub fn pixels(&self) -> (r: u32)
        requires
            self.width * self.height <= u32::MAX,
        ensures
            r == self.width * self.height,
    {
        self.width * self.height
    }

    /// Width, height and name.
    pub fn to_string(&self) -> (r: String)
        ensures
            r@ == text::decimal(self.width as nat) + "×"@ + text::decimal(self.height as nat) + " ("@
                + resolution_name(self.width, self.height) + ")"@,
    {
        let mut r = text::decimal_text(self.width as u64);
        r.append("×");
        r.append(&text::decimal_text(self.height as u64));
        r.append(" (");
        r.append(self.name());
        r.append(")");
        r
    }
}

// ---------------------------------------------------------------------------------------------
// Streams and services
// ---------------------------------------------------------------------------------------------

/// Stream type classification
#[derive(Debug, Clone, Copy, PartialEq, Eq, Structural)]
pub enum StreamType {
    /// Primary/main stream (highest quality)
    Primary,
    /// Secondary/sub stream (lower quality)
    Secondary,
    /// Third stream
    Third,
    /// Snapshot/JPEG stream
    Snapshot,
    /// Unknown/other stream type
    Unknown,
}

/// The name of a stream type.
pub open spec fn stream_type_name(stream_type: StreamType) -> Seq<char> {
    match stream_type {
        StreamType::Primary => "Primary"@,
        StreamType::Secondary => "Secondary"@,
        StreamType::Third => "Third"@,
        StreamType::Snapshot => "Snapshot"@,
        StreamType::Unknown => "Unknown"@,
    }
}

/// A name belongs to one stream type only.
pub proof fn law_stream_type_name(stream_type: StreamType)
    ensures
        stream_type_name(stream_type) == "Primary"@ <==> stream_type == StreamType::Primary,
        stream_type_name(stream_type) == "Secondary"@ <==> stream_type == StreamType::Secondary,
        stream_type_name(stream_type) == "Third"@ <==> stream_type == StreamType::Third,
        stream_type_name(stream_type) == "Snapshot"@ <==> stream_type == StreamType::Snapshot,
        stream_type_name(stream_type) == "Unknown"@ <==> stream_type == StreamType::Unknown,
{
    reveal_strlit("Primary");
    reveal_strlit("Secondary");
    reveal_strlit("Third");
    reveal_strlit("Snapshot");
    reveal_strlit("Unknown");
    assert("Primary"@.len() == 7 && "Secondary"@.len() == 9 && "Third"@.len() == 5);
    assert("Snapshot"@.len() == 8 && "Unknown"@.len() == 7);
    assert("Primary"@[0] == 'P' && "Unknown"@[0] == 'U');
}

impl StreamType {
    /// The name of the type.
    pub fn to_string(&self) -> (r: String)
        ensures
            r@ == stream_type_name(*self),
    {
        match self {
            StreamType::Primary => "Primary".to_owned(),
            StreamType::Secondary => "Secondary".to_owned(),
            StreamType::Third => "Third".to_owned(),
            StreamType::Snapshot => "Snapshot".to_owned(),
            StreamType::Unknown => "Unknown".to_owned(),
        }
    }
}

/// ONVIF service information
#[derive(Debug, Clone)]
pub struct ServiceInfo {
    /// Service namespace
    pub namespace: String,
    /// Service URL
    pub url: String,
    /// Service version
    pub version: String,
}

/// The view of a `ServiceInfo`.
#[verifier::ext_equal]
pub struct ServiceInfoView {
    pub namespace: Seq<char>,
    pub url: Seq<char>,
    pub version: Seq<char>,
}

impl View for ServiceInfo {
    type V = ServiceInfoView;

    open spec fn view(&self) -> ServiceInfoView {
        ServiceInfoView {
            namespace: self.namespace@,
            url: self.url@,
            version: self.version@,
        }
    }
}

/// The views of a row of services.
pub open spec fn service_views(services: Seq<ServiceInfo>) -> Seq<ServiceInfoView> {
    services.map_values(|s: ServiceInfo| s@)
}

// ---------------------------------------------------------------------------------------------
// Errors
// ---------------------------------------------------------------------------------------------

/// Errors that can occur during device interrogation
#[derive(Debug)]
pub enum InterrogationError {
    /// The network failed, and how.
    Network(String),
    Http(String),
    AuthRequired,
    AuthFailed,
    DeviceUnreachable,
    OnvifUnsupported,
    XmlParsing(String),
    InvalidResponse(String),
    ServiceUnavailable(String),
    Timeout,
}

/// The view of an `InterrogationError`.
pub enum InterrogationErrorView {
    Network(Seq<char>),
    Http(Seq<char>),
    AuthRequired,
    AuthFailed,
    DeviceUnreachable,
    OnvifUnsupported,
    XmlParsing(Seq<char>),
    InvalidResponse(Seq<char>),
    ServiceUnavailable(Seq<char>),
    Timeout,
}

impl View for InterrogationError {
    type V = InterrogationErrorView;

    open spec fn view(&self) -> InterrogationErrorView {
        match self {
            InterrogationError::Network(m) => InterrogationErrorView::Network(m@),
            InterrogationError::Http(m) => InterrogationErrorView::Http(m@),
            InterrogationError::AuthRequired => InterrogationErrorView::AuthRequired,
            InterrogationError::AuthFailed => InterrogationErrorView::AuthFailed,
            InterrogationError::DeviceUnreachable => InterrogationErrorView::DeviceUnreachable,
            InterrogationError::OnvifUnsupported => InterrogationErrorView::OnvifUnsupported,
            InterrogationError::XmlParsing(m) => InterrogationErrorView::XmlParsing(m@),
            InterrogationError::InvalidResponse(m) => InterrogationErrorView::InvalidResponse(m@),
            InterrogationError::ServiceUnavailable(m) => {
                InterrogationErrorView::ServiceUnavailable(m@)
            },
            InterrogationError::Timeout => InterrogationErrorView::Timeout,
        }
    }
}

/// The message of an interrogation error.
pub open spec fn interrogation_message(error: InterrogationErrorView) -> Seq<char> {
    match error {
        InterrogationErrorView::Network(m) => "Network error: "@ + m,
        InterrogationErrorView::Http(m) => "HTTP error: "@ + m,
        InterrogationErrorView::AuthRequired => "Authentication required"@,
        InterrogationErrorView::AuthFailed => "Authentication failed"@,
        InterrogationErrorView::DeviceUnreachable => "Device not responding"@,
        InterrogationErrorView::OnvifUnsupported => "ONVIF not supported"@,
        InterrogationErrorView::XmlParsing(m) => "XML parsing error: "@ + m,
        InterrogationErrorView::InvalidResponse(m) => "Invalid ONVIF response: "@ + m,
        InterrogationErrorView::ServiceUnavailable(m) => "Service not available: "@ + m,
        InterrogationErrorView::Timeout => "Timeout waiting for response"@,
    }
}

/// The message of an error says what kind of error it is, and ends with the reason that was given,
/// whole, if there is one.
pub proof fn law_interrogation_message(error: InterrogationErrorView)
    ensures
        ({
            let message = interrogation_message(error);
            &&& error is Network ==> message == "Network error: "@ + error->Network_0
            &&& error is Http ==> message == "HTTP error: "@ + error->Http_0
            &&& error is XmlParsing ==> message == "XML parsing error: "@ + error->XmlParsing_0
            &&& error is InvalidResponse ==> message == "Invalid ONVIF response: "@
                + error->InvalidResponse_0
            &&& error is ServiceUnavailable ==> message == "Service not available: "@
                + error->ServiceUnavailable_0
            &&& error is AuthRequired ==> message == "Authentication required"@
            &&& error is AuthFailed ==> message == "Authentication failed"@
            &&& error is DeviceUnreachable ==> message == "Device not responding"@
            &&& error is OnvifUnsupported ==> message == "ONVIF not supported"@
            &&& error is Timeout ==> message == "Timeout waiting for response"@
        }),
{
}

impl InterrogationError {
    /// The message of the error.
    pub fn to_string(&self) -> (r: String)
        ensures
            r@ == interrogation_message(self@),
    {
        match self {
            InterrogationError::Network(m) => "Network error: ".to_owned().concat(m),
            InterrogationError::Http(m) => "HTTP error: ".to_owned().concat(m),
            InterrogationError::AuthRequired => "Authentication required".to_owned(),
            InterrogationError::AuthFailed => "Authentication failed".to_owned(),
            InterrogationError::DeviceUnreachable => "Device not responding".to_owned(),
            InterrogationError::OnvifUnsupported => "ONVIF not supported".to_owned(),
            InterrogationError::XmlParsing(m) => "XML parsing error: ".to_owned().concat(m),
            InterrogationError::InvalidResponse(m) => {
                "Invalid ONVIF response: ".to_owned().concat(m)
            },
            InterrogationError::ServiceUnavailable(m) => {
                "Service not available: ".to_owned().concat(m)
            },
            InterrogationError::Timeout => "Timeout waiting for response".to_owned(),
        }
    }
}

} // verus!
