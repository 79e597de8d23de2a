use zpic::body::chunk_offsets;
use zpic::envvar::{expand_env, Env};
use zpic::server::sanitize_file_name;
use zpic::template::slugify;
use zpic::media::mime_from;
use zpic::fields::FieldValue;
use zpic::setting::field_value_from;
use zpic::server::{plan_for_route, ServerError, UploadPlan, UploadRoute};
use zpic::migrate::{scan_markdown_events, MdEvent};

#[test]
fn unset_references_are_written_back() {
    let env = Env::new();
    let text = "a $X b ${Y_Z} c $ d ${} e $1";
    assert_eq!(expand_env(text, &env), text);
    let mut env = Env::new();
    env.insert("OTHER".to_string(), "v".to_string());
    assert_eq!(expand_env("${UNSET}/$UNSET", &env), "${UNSET}/$UNSET");
}

#[test]
fn sanitized_names_are_single_safe_components() {
    assert_eq!(sanitize_file_name("../etc/passwd"), ".._etc_passwd");
    assert_eq!(sanitize_file_name(" . "), "_.");
    assert_eq!(sanitize_file_name(".."), "_..");
    assert_eq!(sanitize_file_name("my photo (1).png"), "my_photo__1_.png");
    let name = sanitize_file_name("a/b\\c");
    assert!(name.chars().all(|c| c.is_ascii_alphanumeric() || c == '.' || c == '-' || c == '_'));
}

#[test]
fn slugs_are_filesystem_friendly() {
    let slug = slugify("Héllo, Wörld!! ");
    assert_eq!(slug, "h-llo-w-rld");
    assert!(slug.chars().all(|c| c.is_ascii_lowercase() || c.is_ascii_digit() || c == '-' || c == '_'));
    assert!(!slugify("trailing ?? ").ends_with('-'));
}

#[test]
fn chunks_leave_no_gaps() {
    let offsets = chunk_offsets(200, 64);
    assert_eq!(offsets.first().map(|c| c.0), Some(0));
    assert_eq!(offsets.last().map(|c| c.1), Some(200));
    for w in offsets.windows(2) {
        assert_eq!(w[0].1, w[1].0);
    }
}

#[test]
fn mime_falls_back_to_extension_then_octet_stream() {
    assert_eq!(mime_from(Some("image/webp".into()), Some("a.png")), "image/webp");
    assert_eq!(mime_from(None, Some("photo.JPG")), "image/jpeg");
    assert_eq!(mime_from(None, Some("notes.txt")), "application/octet-stream");
    assert_eq!(mime_from(None, None), "application/octet-stream");
}

#[test]
fn field_values_from_parsed_toml() {
    assert!(matches!(field_value_from("", Some(FieldValue::Integer(1))), FieldValue::Text(ref s) if s.is_empty()));
    assert!(matches!(field_value_from("42", Some(FieldValue::Integer(42))), FieldValue::Integer(42)));
    assert!(matches!(field_value_from("me/repo", None), FieldValue::Text(ref s) if s == "me/repo"));
}

#[test]
fn routed_requests_become_plans() {
    assert!(matches!(plan_for_route(UploadRoute::Json, Err(String::new())), Ok(UploadPlan::Json)));
    assert!(matches!(
        plan_for_route(UploadRoute::MultipartHeader, Ok("xyz".into())),
        Ok(UploadPlan::Multipart(ref b)) if b == "xyz"
    ));
    assert!(matches!(
        plan_for_route(UploadRoute::MultipartHeader, Err("no boundary".into())),
        Err(ServerError::BadRequest(ref m)) if m == "invalid multipart boundary: no boundary"
    ));
    assert!(matches!(
        plan_for_route(UploadRoute::Unsupported("text/plain".into()), Err(String::new())),
        Err(ServerError::UnsupportedContentType(ref c)) if c == "text/plain"
    ));
}

#[test]
fn markdown_events_give_local_images() {
    let source = "![a](img/a.png)\n";
    let events = vec![
        MdEvent::Other,
        MdEvent::ImageStart { dest: "img/a.png".into(), start: 0, end: 15 },
        MdEvent::Other,
        MdEvent::ImageEnd,
        MdEvent::Other,
    ];
    let images = scan_markdown_events(source, events, "/docs");
    assert_eq!(images.len(), 1);
    assert_eq!(images[0].dest, "img/a.png");
    assert_eq!(images[0].resolved, "/docs/img/a.png");
    assert_eq!((images[0].span_start, images[0].span_end), (0, 15));
}
