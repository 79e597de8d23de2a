use zpic::history::{entry_for, list_query, uuid_from_nanos, uuid_v4, ListFilter};
use zpic::media::{content_hash, content_hash_hex, detect_mime, mime_guess_fallback, read_dimensions, short_hash, DetectError};
use zpic::pipeline::{fill_dimensions, target_key, PendingUpload, ClipboardImage};
use zpic::config::RenameSection;
use zpic::kinds::RenameStrategy;
use zpic::template::{render_template, render_template_with, slugify, TemplateContext, TemplateTime};
use zpic::upload::UploadOutput;

const PNG: [u8; 67] = [
    0x89, 0x50, 0x4e, 0x47, 0x0d, 0x0a, 0x1a, 0x0a, 0x00, 0x00, 0x00, 0x0d, 0x49, 0x48, 0x44, 0x52, 0x00,
    0x00, 0x00, 0x01, 0x00, 0x00, 0x00, 0x01, 0x08, 0x06, 0x00, 0x00, 0x00, 0x1f, 0x15, 0xc4, 0x89, 0x00,
    0x00, 0x00, 0x0d, 0x49, 0x44, 0x41, 0x54, 0x78, 0x9c, 0x63, 0x00, 0x01, 0x00, 0x00, 0x05, 0x00, 0x01,
    0x0d, 0x0a, 0x2d, 0xb4, 0x00, 0x00, 0x00, 0x00, 0x49, 0x45, 0x4e, 0x44, 0xae, 0x42, 0x60, 0x82,
];

#[test]
fn detects_png_by_magic() {
    assert_eq!(detect_mime(&PNG, Some("cover.png")), "image/png");
}

#[test]
fn falls_back_to_extension_when_unknown_magic() {
    let svg = b"<svg xmlns=\"http://www.w3.org/2000/svg\"/>";
    assert_eq!(detect_mime(svg, Some("foo.svg")), "image/svg+xml");
}

#[test]
fn octet_stream_for_unknown() {
    assert_eq!(detect_mime(b"random text content", Some("file.unknown")), "application/octet-stream");
}

#[test]
fn extension_guess_ignores_case() {
    assert_eq!(mime_guess_fallback("a/B.JPEG").as_deref(), Some("image/jpeg"));
    assert_eq!(mime_guess_fallback("noext"), None);
    assert_eq!(detect_mime(b"plain", None), "application/octet-stream");
}

#[test]
fn reads_png_dimensions() {
    assert_eq!(read_dimensions(&PNG).ok().flatten(), Some((1, 1)));
    assert!(matches!(read_dimensions(b"not an image"), Ok(None)));
    assert_eq!(DetectError::UnknownMime.message(), "could not detect MIME type from content");
}

#[test]
fn hash_is_deterministic() {
    let a = content_hash_hex(b"hello");
    let b = content_hash_hex(b"hello");
    assert_eq!(a, b);
}

#[test]
fn short_hash_truncates() {
    let h = short_hash(b"hello", 8);
    assert_eq!(h.len(), 8);
}

#[test]
fn hash_hex_encodes_blake3_digest() {
    let raw = content_hash(b"hello");
    let hex = content_hash_hex(b"hello");
    assert_eq!(hex.len(), 64);
    let expected: String = raw.iter().map(|b| format!("{:02x}", b)).collect();
    assert_eq!(hex, expected);
    assert_eq!(hex, "ea8f163db38682925e4491c5e58d4bb3506ef8c14eb78a86e908c5624a67200f");
    assert_eq!(short_hash(b"hello", 100), hex);
    assert_ne!(content_hash_hex(b"hello"), content_hash_hex(b"hellp"));
}

fn ctx(name: &str, ext: &str, hash: &str) -> TemplateContext {
    TemplateContext::new(name, ext, hash)
}

#[test]
fn renders_default_date_hash_template() {
    let out = render_template("images/{yyyy}/{mm}/{dd}/{hash8}.{ext}", &ctx("cover", "png", "abcdef0123456789"));
    assert!(out.starts_with("images/"));
    assert!(out.ends_with("/abcdef01.png"));
}

#[test]
fn renders_name_and_slug() {
    let out = render_template("blog/{name}-{slug}.{ext}", &ctx("Hello World!", "jpg", "deadbeef"));
    assert_eq!(out, "blog/Hello World!-hello-world.jpg");
}

#[test]
fn unknown_placeholder_is_preserved() {
    let out = render_template("x/{unknown}/{name}.{ext}", &ctx("a", "png", "h"));
    assert_eq!(out, "x/{unknown}/a.png");
}

#[test]
fn template_uses_given_time_and_randoms() {
    let c = TemplateContext {
        file_name: "a".to_string(),
        extension: "png".to_string(),
        content_hash_hex: "0123456789abcdef".to_string(),
        time: TemplateTime {
            yyyy: "2026".to_string(),
            yy: "26".to_string(),
            mm: "06".to_string(),
            dd: "04".to_string(),
            hh: "09".to_string(),
            min: "05".to_string(),
            ss: "07".to_string(),
            millis: 1780000000123,
            unix: 1780000000,
        },
    };
    let out = render_template_with("{yyyy}{yy}/{mm}{dd}-{hh}{min}{ss}/{unix}/{timestamp}/{random}-{uuid}", &c, &vec!["r1".to_string(), "u1".to_string()]);
    assert_eq!(out, "202626/0604-090507/1780000000/1780000000123/r1-u1");
    assert_eq!(slugify("  Many   spaces -- here_ "), "many-spaces----here_");
    let random = render_template("{random}", &c);
    assert_eq!(random.len(), 12);
}

#[test]
fn uuid_is_well_formed() {
    let id = uuid_v4();
    assert_eq!(id.len(), 36);
    assert_eq!(id.chars().filter(|c| *c == '-').count(), 4);
}

#[test]
fn uuid_text_of_a_known_clock_value() {
    assert_eq!(uuid_from_nanos(0), "00000000-0000-4000-8000-000000000000");
    assert_eq!(uuid_from_nanos(u128::MAX), "ffffffff-ffff-4fff-bfff-ffffffffffff");
    assert_eq!(uuid_from_nanos(0x0102), "02010000-0000-4000-8000-000000000000");
}

#[test]
fn list_query_applies_filter_and_limit() {
    let (sql, binds) = list_query(&ListFilter::default());
    assert_eq!(
        sql,
        "SELECT id, created_at, source_path, uploader, key, url, markdown, mime, size, width, height, status FROM uploads ORDER BY created_at DESC"
    );
    assert!(binds.is_empty());
    let (sql, binds) = list_query(&ListFilter { uploader: Some("github".to_string()), limit: Some(5) });
    assert!(sql.ends_with(" FROM uploads WHERE uploader = ? ORDER BY created_at DESC LIMIT 5"));
    assert_eq!(binds, vec!["github".to_string()]);
}

fn fake_output() -> UploadOutput {
    UploadOutput {
        source: "cover.png".into(),
        url: "https://cdn.example.com/cover.png".into(),
        key: "images/cover.png".into(),
        markdown: "![cover](https://cdn.example.com/cover.png)".into(),
        mime: "image/png".into(),
        size: 1024,
        width: Some(800),
        height: None,
        uploader: "local".into(),
    }
}

#[test]
fn history_entry_copies_the_upload() {
    let e = entry_for(&fake_output(), Some("cover.png"), "id-1".to_string(), "2026-01-01T00:00:00Z".to_string());
    assert_eq!(e.id, "id-1");
    assert_eq!(e.uploader, "local");
    assert_eq!(e.size, Some(1024));
    assert_eq!(e.width, Some(800));
    assert_eq!(e.height, None);
    assert_eq!(e.status, "ok");
    let mut big = fake_output();
    big.size = u64::MAX;
    assert_eq!(entry_for(&big, None, "x".to_string(), "t".to_string()).size, Some(-1));
}

#[test]
fn pending_upload_reads_name_and_type() {
    let p = PendingUpload::from_file("/tmp/dir/cover.png", PNG.to_vec());
    assert_eq!(p.file_name, "cover.png");
    assert_eq!(p.mime, "image/png");
    let c = PendingUpload::from_clipboard(ClipboardImage {
        bytes: vec![1, 2, 3],
        file_name: "clipboard.png".to_string(),
        mime: "image/png".to_string(),
    });
    assert_eq!(c.source_path, "<clipboard>");
}

#[test]
fn target_key_applies_template_and_override() {
    let rename = RenameSection { strategy: RenameStrategy::DateHash, path: Some("img/{name}-{hash8}.{ext}".to_string()), keep_original_name: false };
    let mut p = PendingUpload::from_file("/tmp/cover.png", b"hello".to_vec());
    let key = target_key(&rename, &p);
    assert_eq!(key, format!("img/cover-{}.png", &content_hash_hex(b"hello")[..8]));
    p.explicit_name = Some("hero".to_string());
    let key = target_key(&rename, &p);
    assert_eq!(key, "img/hero.png");
}

#[test]
fn fill_dimensions_only_when_unknown() {
    let out = fill_dimensions(fake_output(), Some((3, 4)));
    assert_eq!((out.width, out.height), (Some(800), None));
    let mut o = fake_output();
    o.width = None;
    let out = fill_dimensions(o, Some((3, 4)));
    assert_eq!((out.width, out.height), (Some(3), Some(4)));
}
