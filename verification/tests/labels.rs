use zpic::pipeline::{items_source_label, pending_label, PendingUpload};
use zpic::upload::{item_to_output, UploadItem, UploadOutput};

fn pending(source: &str, file_name: &str) -> PendingUpload {
    PendingUpload {
        source_path: source.to_string(),
        file_name: file_name.to_string(),
        mime: "image/png".to_string(),
        bytes: vec![1, 2, 3],
        explicit_name: None,
        explicit_alt: None,
    }
}

#[test]
fn pending_label_prefers_the_source_file_name() {
    assert_eq!(pending_label(&pending("/tmp/shots/cover.png", "x.png"), 1), "[1] cover.png");
    assert_eq!(pending_label(&pending("/tmp/shots/", "x.png"), 2), "[2] shots");
    assert_eq!(pending_label(&pending("..", "fallback.png"), 3), "[3] fallback.png");
}

#[test]
fn pending_label_names_the_clipboard() {
    assert_eq!(pending_label(&pending("<clipboard>", "clipboard-1.png"), 1), "[1] <clipboard>");
    assert_eq!(pending_label(&pending("", ""), 12), "[12] <clipboard>");
}

#[test]
fn failed_items_are_labelled_by_input_kind() {
    assert_eq!(items_source_label(true), "<clipboard>");
    assert_eq!(items_source_label(false), "<unknown>");
}

fn output() -> UploadOutput {
    UploadOutput {
        source: "a.png".into(),
        url: "https://x/a.png".into(),
        key: "a.png".into(),
        markdown: "![a.png](https://x/a.png)".into(),
        mime: "image/png".into(),
        size: 3,
        width: Some(1),
        height: None,
        uploader: "local".into(),
    }
}

#[test]
fn successful_item_gives_back_its_output() {
    let out = item_to_output(&UploadItem::success(output())).expect("output");
    assert_eq!(out.url, "https://x/a.png");
    assert_eq!(out.key, "a.png");
    assert_eq!(out.size, 3);
    assert_eq!(out.width, Some(1));
    assert_eq!(out.uploader, "local");
    assert_eq!(out.source, "a.png");
}

#[test]
fn failed_item_gives_no_output() {
    assert!(item_to_output(&UploadItem::failure("a.png".into(), "boom".into())).is_none());
}
