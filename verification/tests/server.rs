use zpic::server::{extract_boundary_from_body, has_media_extension, is_uninteresting_ipv4, lan_banner_lines, route_upload, UploadRoute};

#[test]
fn is_uninteresting_ipv4_catches_special_ranges() {
    assert!(is_uninteresting_ipv4([127, 0, 0, 1]));
    assert!(is_uninteresting_ipv4([127, 255, 255, 254]));
    assert!(is_uninteresting_ipv4([0, 0, 0, 0]));
    assert!(is_uninteresting_ipv4([255, 255, 255, 255]));
    assert!(is_uninteresting_ipv4([169, 254, 1, 1]));
    assert!(is_uninteresting_ipv4([100, 64, 0, 1]));
    assert!(is_uninteresting_ipv4([100, 127, 255, 254]));
    assert!(is_uninteresting_ipv4([224, 0, 0, 1]));
    assert!(is_uninteresting_ipv4([198, 18, 0, 1]));
}

#[test]
fn is_uninteresting_ipv4_keeps_real_lan_ips() {
    assert!(!is_uninteresting_ipv4([10, 0, 0, 1]));
    assert!(!is_uninteresting_ipv4([172, 16, 0, 1]));
    assert!(!is_uninteresting_ipv4([192, 168, 1, 1]));
    assert!(!is_uninteresting_ipv4([100, 63, 255, 254]));
    assert!(!is_uninteresting_ipv4([100, 128, 0, 1]));
    assert!(!is_uninteresting_ipv4([8, 8, 8, 8]));
}

#[test]
fn lan_banner_is_empty_for_specific_bind() {
    assert!(lan_banner_lines(false, 36677, &vec![[192, 168, 1, 2]]).is_empty());
}

#[test]
fn lan_banner_names_local_and_network_for_wildcard() {
    let lines = lan_banner_lines(true, 36677, &vec![[192, 168, 1, 2], [10, 0, 0, 7]]);
    assert_eq!(lines.len(), 3);
    assert!(lines[0].contains("127.0.0.1:36677"));
    assert_eq!(lines[1], "  \u{279c}  Network: http://192.168.1.2:36677/");
    for line in &lines[1..] {
        assert!(line.contains(":36677"));
        assert!(line.starts_with("  \u{279c}  Network: http://"));
    }
}

#[test]
fn json_path_rejects_disallowed_extension() {
    assert!(!has_media_extension("/tmp/notes.txt"));
    assert!(has_media_extension("/tmp/a.PNG"));
}

#[test]
fn json_path_accepts_audio_upload() {
    assert!(has_media_extension("/tmp/track.mp3"));
    assert!(has_media_extension("/tmp/track.flac"));
}

#[test]
fn json_path_accepts_video_upload() {
    assert!(has_media_extension("/tmp/clip.mp4"));
    assert!(has_media_extension("/tmp/clip.webm"));
}

#[test]
fn missing_content_type_falls_back_to_json() {
    assert!(matches!(route_upload("", b"  {\"list\":[\"/tmp/a.png\"]}"), UploadRoute::Json));
    assert!(matches!(route_upload("application/json; charset=utf-8", b"{}"), UploadRoute::Json));
}

#[test]
fn boundary_is_sniffed_from_body() {
    let body = b"--XyZ\r\nContent-Disposition: form-data; name=\"file\"\r\n\r\nabc\r\n--XyZ--\r\n";
    assert_eq!(extract_boundary_from_body(body).as_deref(), Some("XyZ"));
    assert_eq!(extract_boundary_from_body(b"plain"), None);
}

#[test]
fn empty_body_with_no_content_type_reports_server_error() {
    assert!(matches!(route_upload("", b""), UploadRoute::Unsupported(_)));
}

#[test]
fn missing_content_type_falls_back_to_multipart() {
    let body = b"--b0und\r\nContent-Disposition: form-data; name=\"file\"; filename=\"a.png\"\r\n\r\nx\r\n--b0und--\r\n";
    match route_upload("", body) {
        UploadRoute::MultipartSniffed(b) => assert_eq!(b, "b0und"),
        _ => panic!("expected a sniffed multipart boundary"),
    }
}

#[test]
fn unsupported_content_type_reports_server_error() {
    match route_upload("text/plain", b"hello") {
        UploadRoute::Unsupported(c) => assert_eq!(c, "text/plain"),
        _ => panic!("expected an unsupported content type"),
    }
    assert!(matches!(route_upload("multipart/form-data; boundary=x", b""), UploadRoute::MultipartHeader));
}
