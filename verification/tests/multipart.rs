use zpic::server::{multipart_step, sanitize_file_name_at, PartAction, PartEvent, PartState, ServerError, MAX_PART_BYTES};

fn field(name: Option<&str>) -> PartEvent {
    PartEvent::Field { name: name.map(|s| s.to_string()) }
}

#[test]
fn only_list_fields_are_read() {
    let (s, a) = multipart_step(PartState::new(), field(Some("list")));
    assert!(matches!(a, PartAction::Read));
    let (s, a) = multipart_step(s, field(Some("other")));
    assert!(matches!(a, PartAction::Skip));
    let (s, a) = multipart_step(s, field(None));
    assert!(matches!(a, PartAction::Skip));
    assert!(s.urls.is_empty());
}

#[test]
fn parts_are_saved_under_a_sanitized_name() {
    let ev = PartEvent::Part { file_name: Some("my photo.png".to_string()), len: 5, now_ms: 7 };
    match multipart_step(PartState::new(), ev).1 {
        PartAction::Save(name) => assert_eq!(name, "my_photo.png"),
        _ => panic!("expected a save"),
    }
    let ev = PartEvent::Part { file_name: None, len: 5, now_ms: 42 };
    match multipart_step(PartState::new(), ev).1 {
        PartAction::Save(name) => assert_eq!(name, "upload-42.bin"),
        _ => panic!("expected a save"),
    }
}

#[test]
fn oversized_parts_are_refused() {
    assert_eq!(MAX_PART_BYTES, 25 * 1024 * 1024);
    let ev = PartEvent::Part { file_name: Some("a b.png".to_string()), len: MAX_PART_BYTES + 1, now_ms: 1 };
    match multipart_step(PartState::new(), ev).1 {
        PartAction::Reply(Err(ServerError::BadRequest(m))) => {
            assert_eq!(m, "file `a b.png` exceeds 26214400 bytes");
        }
        _ => panic!("expected a refusal"),
    }
    let ev = PartEvent::Part { file_name: Some("a.png".to_string()), len: MAX_PART_BYTES, now_ms: 1 };
    assert!(matches!(multipart_step(PartState::new(), ev).1, PartAction::Save(_)));
}

#[test]
fn no_upload_is_an_empty_upload() {
    match multipart_step(PartState::new(), PartEvent::End).1 {
        PartAction::Reply(Err(ServerError::EmptyUpload(m))) => assert_eq!(m, "no `list` field in multipart body"),
        _ => panic!("expected an empty upload"),
    }
}

#[test]
fn uploaded_urls_are_the_reply_in_order() {
    let (s, a) = multipart_step(PartState::new(), PartEvent::Uploaded("https://x/1.png".to_string()));
    assert!(matches!(a, PartAction::Next));
    let (s, _) = multipart_step(s, PartEvent::Uploaded("https://x/2.png".to_string()));
    match multipart_step(s, PartEvent::End).1 {
        PartAction::Reply(Ok(resp)) => {
            assert!(resp.success);
            assert_eq!(resp.result, Some(vec!["https://x/1.png".to_string(), "https://x/2.png".to_string()]));
            let full = resp.full_result.unwrap_or_default();
            assert_eq!(full.len(), 2);
            assert_eq!(full[1].img_url, "https://x/2.png");
            assert!(full[0].delete.is_none());
            assert!(resp.msg.is_none());
        }
        _ => panic!("expected a reply"),
    }
}

#[test]
fn a_failure_is_the_reply() {
    let (s, _) = multipart_step(PartState::new(), PartEvent::Uploaded("u".to_string()));
    match multipart_step(s, PartEvent::Failed(ServerError::Upload("boom".to_string()))).1 {
        PartAction::Reply(Err(ServerError::Upload(m))) => assert_eq!(m, "boom"),
        _ => panic!("expected the failure"),
    }
}

#[test]
fn blank_names_take_the_clock() {
    assert_eq!(sanitize_file_name_at("", 5), "upload-5.bin");
    assert_eq!(sanitize_file_name_at("   ", -3), "upload--3.bin");
}
