use zpic::migrate::{resolve_local, rewrite_markdown, scan_markdown, PlannedChange};

#[test]
fn scans_inline_image() {
    let md = "Hello\n\n![cover](./img/cover.png)\n\nWorld";
    let imgs = scan_markdown(md, "/docs");
    assert_eq!(imgs.len(), 1);
    assert_eq!(imgs[0].dest, "./img/cover.png");
    assert!(imgs[0].resolved.ends_with("img/cover.png"));
}

#[test]
fn ignores_remote_image() {
    let imgs = scan_markdown("![cover](https://cdn.example.com/cover.png)", "/docs");
    assert!(imgs.is_empty());
}

#[test]
fn scans_reference_def() {
    let md = "Text\n\n[logo]: ./logo.png \"logo\"\n\n![logo][logo]\n";
    let imgs = scan_markdown(md, "/docs");
    assert!(!imgs.is_empty());
}

#[test]
fn rewrite_replaces_url() {
    let md = "A\n\n![cover](./cover.png)\n\nB";
    let change = PlannedChange {
        source: "./cover.png".to_string(),
        from: "./cover.png".to_string(),
        to: "https://cdn/cover.png".to_string(),
        markdown: "![cover](https://cdn/cover.png)".to_string(),
    };
    let rewritten = rewrite_markdown(md, &[change]);
    assert!(rewritten.contains("https://cdn/cover.png"));
    assert_eq!(rewritten, "A\n\n![cover](https://cdn/cover.png)\n\nB");
}

#[test]
fn rewrite_without_changes_is_identity() {
    let md = "A\n\n![cover](./cover.png)\n";
    assert_eq!(rewrite_markdown(md, &[]), md);
}

#[test]
fn resolve_local_skips_remote_and_data_urls() {
    assert_eq!(resolve_local("https://x/y.png", "/docs"), None);
    assert_eq!(resolve_local("", "/docs"), None);
    assert!(resolve_local("./a.png", "/docs").unwrap().ends_with("a.png"));
}
