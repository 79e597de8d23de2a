use zpic::format::{media_kind_for, render_format_for_kind, MediaKind};
use zpic::kinds::OutputFormat;
use zpic::output::{render_item_text, UploadPayload};
use zpic::pipeline::{override_key_name, render_output, split_name_ext, to_item};
use zpic::upload::{UploadItem, UploadOutput};

fn sample_output() -> UploadOutput {
    UploadOutput {
        source: "cover.png".into(),
        url: "https://cdn.example.com/cover.png".into(),
        key: "images/2026/06/04/cover.png".into(),
        markdown: "![cover](https://cdn.example.com/cover.png)".into(),
        mime: "image/png".into(),
        size: 12345,
        width: Some(800),
        height: Some(600),
        uploader: "local".into(),
    }
}

#[test]
fn renders_markdown_default() {
    let out = sample_output();
    let rendered = render_format_for_kind(OutputFormat::Markdown, None, &out);
    assert_eq!(rendered, "![cover](https://cdn.example.com/cover.png)");
}

#[test]
fn renders_url_format() {
    let out = sample_output();
    let rendered = render_format_for_kind(OutputFormat::Url, None, &out);
    assert_eq!(rendered, "https://cdn.example.com/cover.png");
}

#[test]
fn renders_html_format() {
    let out = sample_output();
    let rendered = render_format_for_kind(OutputFormat::Html, None, &out);
    assert_eq!(rendered, "<img src=\"https://cdn.example.com/cover.png\" alt=\"cover\" />");
}

#[test]
fn renders_jsx_with_dimensions() {
    let out = sample_output();
    let rendered = render_format_for_kind(OutputFormat::Jsx, None, &out);
    assert!(rendered.contains("width=800"));
    assert!(rendered.contains("height=600"));
}

#[test]
fn custom_template_overrides_default() {
    let out = sample_output();
    let rendered = render_format_for_kind(OutputFormat::Markdown, Some("![{alt}]({url}?w={width})"), &out);
    assert_eq!(rendered, "![cover](https://cdn.example.com/cover.png?w=800)");
}

#[test]
fn classifies_mime_into_media_kind() {
    assert_eq!(media_kind_for("image/png"), MediaKind::Image);
    assert_eq!(media_kind_for("image/svg+xml"), MediaKind::Image);
    assert_eq!(media_kind_for("audio/mpeg"), MediaKind::Audio);
    assert_eq!(media_kind_for("audio/ogg; codecs=opus"), MediaKind::Audio);
    assert_eq!(media_kind_for("video/mp4"), MediaKind::Video);
    assert_eq!(media_kind_for("video/webm"), MediaKind::Video);
    assert_eq!(media_kind_for("text/plain"), MediaKind::Other);
    assert_eq!(media_kind_for("application/octet-stream"), MediaKind::Other);
    assert_eq!(media_kind_for("IMAGE/PNG"), MediaKind::Image);
}

#[test]
fn html_renders_audio_tag_for_audio_mime() {
    let mut out = sample_output();
    out.mime = "audio/mpeg".into();
    out.url = "https://cdn.example.com/track.mp3".into();
    out.key = "audio/track.mp3".into();
    out.markdown = "![track.mp3](https://cdn.example.com/track.mp3)".into();
    out.width = None;
    out.height = None;
    let rendered = render_format_for_kind(OutputFormat::Html, None, &out);
    assert_eq!(rendered, "<audio controls src=\"https://cdn.example.com/track.mp3\"></audio>");
}

#[test]
fn html_renders_video_tag_for_video_mime() {
    let mut out = sample_output();
    out.mime = "video/mp4".into();
    out.url = "https://cdn.example.com/clip.mp4".into();
    out.key = "video/clip.mp4".into();
    out.markdown = "![clip.mp4](https://cdn.example.com/clip.mp4)".into();
    out.width = None;
    out.height = None;
    let rendered = render_format_for_kind(OutputFormat::Html, None, &out);
    assert_eq!(rendered, "<video controls src=\"https://cdn.example.com/clip.mp4\"></video>");
}

#[test]
fn jsx_renders_video_with_dimensions_when_known() {
    let mut out = sample_output();
    out.mime = "video/webm".into();
    out.markdown = "![clip.webm](https://cdn.example.com/clip.webm)".into();
    out.width = Some(1920);
    out.height = Some(1080);
    let rendered = render_format_for_kind(OutputFormat::Jsx, None, &out);
    assert!(rendered.contains("<video"));
    assert!(rendered.contains("width=1920"));
    assert!(rendered.contains("height=1080"));
}

#[test]
fn render_output_uses_the_chosen_format() {
    let out = sample_output();
    assert_eq!(render_output(&out, OutputFormat::Url, None), "https://cdn.example.com/cover.png");
    assert_eq!(render_output(&out, OutputFormat::Json, None), "");
}

#[test]
fn item_text_renders_each_format() {
    let item = to_item(sample_output());
    assert_eq!(render_item_text(&item, OutputFormat::Markdown), "![cover](https://cdn.example.com/cover.png)");
    assert_eq!(render_item_text(&item, OutputFormat::Url), "https://cdn.example.com/cover.png");
    assert_eq!(
        render_item_text(&item, OutputFormat::Html),
        "<img src=\"https://cdn.example.com/cover.png\" alt=\"cover\" />"
    );
    assert_eq!(
        render_item_text(&item, OutputFormat::Jsx),
        "<Image src=\"https://cdn.example.com/cover.png\" alt=\"cover\" />"
    );
}

#[test]
fn item_text_reports_errors_and_defaults_alt() {
    let failed = UploadItem::failure("docs/a.png".to_string(), "boom".to_string());
    assert_eq!(render_item_text(&failed, OutputFormat::Markdown), "[error] docs/a.png: boom");
    let mut out = sample_output();
    out.source = "dir/README".into();
    out.url = "https://x/{key}".into();
    let item = to_item(out);
    assert_eq!(
        render_item_text(&item, OutputFormat::Markdown),
        "![image](https://x/images/2026/06/04/cover.png)"
    );
}

#[test]
fn payload_success_means_no_item_failed() {
    let ok = UploadPayload::from_items(vec![to_item(sample_output())]);
    assert!(ok.success);
    let bad = UploadPayload::from_items(vec![
        to_item(sample_output()),
        UploadItem::failure("x".to_string(), "e".to_string()),
    ]);
    assert!(!bad.success);
    assert_eq!(bad.items.len(), 2);
}

#[test]
fn split_name_ext_splits_at_last_dot() {
    assert_eq!(split_name_ext("cover.png"), ("cover".to_string(), "png".to_string()));
    assert_eq!(split_name_ext("a.tar.gz"), ("a.tar".to_string(), "gz".to_string()));
    assert_eq!(split_name_ext(".hidden"), (".hidden".to_string(), String::new()));
    assert_eq!(split_name_ext("README"), ("README".to_string(), String::new()));
}

#[test]
fn override_key_keeps_directory_and_extension() {
    assert_eq!(override_key_name("images/2026/cover.png", "hero", "jpg"), "images/2026/hero.png");
    assert_eq!(override_key_name("cover", "hero", "jpg"), "hero.jpg");
    assert_eq!(override_key_name("a//b.png", "c", "x"), "a/c.png");
}
