use onvif_discovery::device::{
    AudioEncoding, AuthMethod, InterrogationError, Resolution, StreamType, VideoEncoding,
};

#[test]
fn test_resolution_display() {
    let res_1080p = Resolution::new(1920, 1080);
    assert_eq!(res_1080p.to_string(), "1920×1080 (1080p)");
    assert_eq!(res_1080p.name(), "1080p");
    assert_eq!(res_1080p.pixels(), 2_073_600);

    let res_custom = Resolution::new(800, 600);
    assert_eq!(res_custom.to_string(), "800×600 (Custom)");
    assert_eq!(res_custom.name(), "Custom");
}

#[test]
fn every_common_resolution_has_its_name() {
    let names = [
        (1920, 1080, "1080p"),
        (1280, 720, "720p"),
        (640, 480, "VGA"),
        (320, 240, "QVGA"),
        (704, 576, "4CIF"),
        (352, 288, "CIF"),
        (176, 144, "QCIF"),
        (1080, 1920, "Custom"),
    ];
    for (width, height, name) in names {
        assert_eq!(Resolution::new(width, height).name(), name);
    }
    assert_eq!(Resolution::new(0, 7).pixels(), 0);
    assert_eq!(Resolution::new(65536, 65535).pixels(), 4_294_901_760);
}

#[test]
fn test_video_encoding_from_str() {
    assert_eq!(VideoEncoding::from("H264"), VideoEncoding::H264);
    assert_eq!(VideoEncoding::from("h264"), VideoEncoding::H264);
    assert_eq!(VideoEncoding::from("H.264"), VideoEncoding::H264);
    assert_eq!(VideoEncoding::from("HEVC"), VideoEncoding::H265);
    assert_eq!(VideoEncoding::from("MJPEG"), VideoEncoding::MJPEG);

    match VideoEncoding::from("unknown") {
        VideoEncoding::Unknown(s) => assert_eq!(s, "unknown"),
        _ => panic!("Expected Unknown variant"),
    }
}

#[test]
fn every_spelling_of_a_video_encoding_is_recognised() {
    for s in ["H265", "h265", "H.265", "hevc", "Hevc"] {
        assert_eq!(VideoEncoding::from(s), VideoEncoding::H265);
    }
    for s in ["jpeg", "JPEG", "mjpeg"] {
        assert_eq!(VideoEncoding::from(s), VideoEncoding::MJPEG);
    }
    for s in ["MPEG4", "mpeg-4", "Mpeg4"] {
        assert_eq!(VideoEncoding::from(s), VideoEncoding::MPEG4);
    }
    assert_eq!(VideoEncoding::from(""), VideoEncoding::Unknown(String::new()));
    assert_eq!(VideoEncoding::from(" h264"), VideoEncoding::Unknown(" h264".to_string()));
}

#[test]
fn unknown_encodings_keep_their_spelling() {
    assert_eq!(VideoEncoding::from("h264ſ"), VideoEncoding::Unknown("h264ſ".to_string()));
    assert_eq!(VideoEncoding::from_upper("HEVC", "anything"), VideoEncoding::H265);
    assert_eq!(AudioEncoding::from("paß"), AudioEncoding::Unknown("paß".to_string()));
}

#[test]
fn video_encodings_are_written_and_read_back() {
    let names = [
        (VideoEncoding::H264, "H.264"),
        (VideoEncoding::H265, "H.265"),
        (VideoEncoding::MJPEG, "MJPEG"),
        (VideoEncoding::MPEG4, "MPEG-4"),
    ];
    for (encoding, name) in names {
        assert_eq!(encoding.to_string(), name);
        assert_eq!(VideoEncoding::from(name), encoding);
        assert_eq!(encoding.clone(), encoding);
    }
    let other = VideoEncoding::Unknown("AV1".to_string());
    assert_eq!(other.to_string(), "AV1");
    assert_eq!(other.clone(), other);
}

#[test]
fn test_audio_encoding_from_str() {
    assert_eq!(AudioEncoding::from("AAC"), AudioEncoding::AAC);
    assert_eq!(AudioEncoding::from("G711"), AudioEncoding::G711);
    assert_eq!(AudioEncoding::from("G.711"), AudioEncoding::G711);

    match AudioEncoding::from("custom") {
        AudioEncoding::Unknown(s) => assert_eq!(s, "custom"),
        _ => panic!("Expected Unknown variant"),
    }
}

#[test]
fn audio_encodings_are_written_and_read_back() {
    let names = [
        (AudioEncoding::AAC, "AAC"),
        (AudioEncoding::G711, "G.711"),
        (AudioEncoding::G726, "G.726"),
        (AudioEncoding::PCM, "PCM"),
    ];
    for (encoding, name) in names {
        assert_eq!(encoding.to_string(), name);
        assert_eq!(AudioEncoding::from(name), encoding);
    }
    assert_eq!(AudioEncoding::from("g726"), AudioEncoding::G726);
    assert_eq!(AudioEncoding::Unknown("Opus".to_string()).to_string(), "Opus");
}

#[test]
fn test_auth_method_display() {
    assert_eq!(AuthMethod::NoAuth.to_string(), "None");
    assert_eq!(AuthMethod::Basic.to_string(), "Basic");
    assert_eq!(AuthMethod::Digest.to_string(), "Digest");
    assert_eq!(AuthMethod::UsernameToken.to_string(), "UsernameToken");
}

#[test]
fn test_stream_type_display() {
    assert_eq!(StreamType::Primary.to_string(), "Primary");
    assert_eq!(StreamType::Secondary.to_string(), "Secondary");
    assert_eq!(StreamType::Snapshot.to_string(), "Snapshot");
}

#[test]
fn every_other_stream_type_is_named() {
    assert_eq!(StreamType::Third.to_string(), "Third");
    assert_eq!(StreamType::Unknown.to_string(), "Unknown");
}

#[test]
fn every_interrogation_error_has_its_message() {
    let m = || "why".to_string();
    let messages = [
        (InterrogationError::Network(m()), "Network error: why"),
        (InterrogationError::Http(m()), "HTTP error: why"),
        (InterrogationError::AuthRequired, "Authentication required"),
        (InterrogationError::AuthFailed, "Authentication failed"),
        (InterrogationError::DeviceUnreachable, "Device not responding"),
        (InterrogationError::OnvifUnsupported, "ONVIF not supported"),
        (InterrogationError::XmlParsing(m()), "XML parsing error: why"),
        (InterrogationError::InvalidResponse(m()), "Invalid ONVIF response: why"),
        (InterrogationError::ServiceUnavailable(m()), "Service not available: why"),
        (InterrogationError::Timeout, "Timeout waiting for response"),
    ];
    for (error, message) in messages {
        assert_eq!(error.to_string(), message);
    }
}
