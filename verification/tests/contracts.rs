use zpic::config::{UploaderConfigItem, UploaderSection, UploaderTypeConfigs, ZpicConfigFile};
use zpic::fields::{FieldValue, Fields};
use zpic::kinds::UploaderKind;
use zpic::manager::UploaderConfigManager;
use zpic::server::{check_listed_path, check_path_list, ServerError, UploadErrorCode};
use zpic::smap::SortedMap;
use zpic::template::{render_template, TemplateContext};
use zpic::upload::{history_records, upload_exit_code, UploadItem, UploadOutput};

fn fields(pairs: &[(&str, &str)]) -> Fields {
    let mut f: Fields = SortedMap::new();
    for (k, v) in pairs {
        f.insert(k.to_string(), FieldValue::Text(v.to_string()));
    }
    f
}

fn is_lower_hex(c: char) -> bool {
    c.is_ascii_digit() || ('a'..='f').contains(&c)
}

fn output(url: &str) -> UploadOutput {
    UploadOutput {
        source: format!("src-{url}"),
        url: url.to_string(),
        key: "k".into(),
        markdown: format!("![a]({url})"),
        mime: "image/png".into(),
        size: 3,
        width: None,
        height: None,
        uploader: "local".into(),
    }
}

#[test]
fn random_placeholders_take_hex_and_uuid_text() {
    let ctx = TemplateContext::new("a.png", "png", "abcdef0123");
    let r = render_template("{random}_{uuid}", &ctx);
    assert_eq!(r.len(), 12 + 1 + 36);
    assert!(r[..12].chars().all(is_lower_hex));
    assert_eq!(&r[12..13], "_");
    let u: Vec<char> = r[13..].chars().collect();
    for (i, c) in u.iter().enumerate() {
        if i == 8 || i == 13 || i == 18 || i == 23 {
            assert_eq!(*c, '-');
        } else {
            assert!(is_lower_hex(*c));
        }
    }
    assert_eq!(u[14], '4');
}

#[test]
fn template_time_fields_have_their_shapes() {
    let ctx = TemplateContext::new("a.png", "png", "");
    assert!(ctx.time.yyyy.len() >= 4);
    for (s, lo, hi) in [
        (&ctx.time.yy, 0, 99),
        (&ctx.time.mm, 1, 12),
        (&ctx.time.dd, 1, 31),
        (&ctx.time.hh, 0, 23),
        (&ctx.time.min, 0, 59),
        (&ctx.time.ss, 0, 60),
    ] {
        assert_eq!(s.len(), 2);
        let v: u32 = s.parse().unwrap_or(1000);
        assert!(lo <= v && v <= hi);
    }
}

fn manager_with_local() -> UploaderConfigManager {
    let mut cfg = ZpicConfigFile::default();
    cfg.uploader.insert(
        "local".into(),
        UploaderTypeConfigs {
            config_list: vec![UploaderConfigItem {
                id: "id-1".into(),
                config_name: "Default".into(),
                created_at: 0,
                updated_at: 0,
                fields: fields(&[("type", "local")]),
            }],
            default_id: "id-1".into(),
        },
    );
    UploaderConfigManager::new(cfg)
}

#[test]
fn copies_get_a_new_uuid_id() {
    let mut mgr = manager_with_local();
    let c = mgr.copy("local", "Default", "Copy").ok().expect("copied");
    assert_ne!(c.id, "id-1");
    assert_eq!(c.id.len(), 36);
    assert_eq!(c.id.chars().nth(14), Some('4'));
    assert!(matches!(mgr.copy("local", "Default", "copy"), Err(zpic::error::ZpicError::ConfigInvalid(_))));
}

#[test]
fn migrated_default_entry_is_active() {
    let mut cfg = ZpicConfigFile::default();
    cfg.default_uploader = Some("legacy".into());
    cfg.uploaders.insert(
        "legacy".into(),
        UploaderSection { kind: UploaderKind::S3, alias: None, fields: fields(&[("bucket", "b")]) },
    );
    cfg.uploaders.insert(
        "other".into(),
        UploaderSection { kind: UploaderKind::S3, alias: None, fields: fields(&[("bucket", "c")]) },
    );
    let mgr = UploaderConfigManager::new(cfg);
    let store = mgr.config.uploader.get("s3").expect("store");
    let active = store.active().expect("active");
    assert_eq!(active.config_name, "legacy");
    assert_eq!(store.config_list.len(), 2);
}

#[test]
fn show_redacts_every_legacy_section() {
    let mut cfg = ZpicConfigFile::default();
    cfg.uploaders.insert(
        "a".into(),
        UploaderSection { kind: UploaderKind::S3, alias: None, fields: fields(&[("secret_access_key", "sk"), ("bucket", "b")]) },
    );
    cfg.uploaders.insert(
        "b".into(),
        UploaderSection { kind: UploaderKind::Github, alias: None, fields: fields(&[("token", "t"), ("repo", "o/r")]) },
    );
    cfg.redact_secrets();
    let a = cfg.uploaders.get("a").expect("a");
    assert!(matches!(a.fields.get("secret_access_key"), Some(FieldValue::Text(s)) if s == "<redacted>"));
    assert!(matches!(a.fields.get("bucket"), Some(FieldValue::Text(s)) if s == "b"));
    let b = cfg.uploaders.get("b").expect("b");
    assert!(matches!(b.fields.get("token"), Some(FieldValue::Text(s)) if s == "<redacted>"));
    assert!(matches!(b.fields.get("repo"), Some(FieldValue::Text(s)) if s == "o/r"));
}

#[test]
fn exit_code_and_history_follow_the_items() {
    let ok = UploadItem::success(output("https://x/1"));
    let bad = UploadItem::failure("f.png".to_string(), "boom".to_string());
    let items = vec![ok, bad, UploadItem::success(output("https://x/2"))];
    assert_eq!(upload_exit_code(&items), 1);
    let recs = history_records(&items);
    assert_eq!(recs.len(), 2);
    assert_eq!(recs[0].url, "https://x/1");
    assert_eq!(recs[1].source, "src-https://x/2");
    let good = vec![UploadItem::success(output("u"))];
    assert_eq!(upload_exit_code(&good), 0);
    assert_eq!(upload_exit_code(&Vec::new()), 0);
}

#[test]
fn path_lists_are_checked_in_order() {
    assert!(matches!(check_path_list(&Vec::new()), Err(ServerError::EmptyUpload(m)) if m == "`list` is empty"));
    assert!(check_path_list(&vec!["a.png".to_string()]).is_ok());
    assert!(matches!(check_listed_path("/x/a.txt", false), Err(ServerError::FileNotFound(p)) if p == "/x/a.txt"));
    assert!(matches!(check_listed_path("/x/a.txt", true), Err(ServerError::InvalidFileType(p)) if p == "/x/a.txt"));
    assert!(check_listed_path("/x/a.PNG", true).is_ok());
}

#[test]
fn error_codes_serialize_as_their_names() {
    let codes = [
        (UploadErrorCode::InvalidFileType, "\"INVALID_FILE_TYPE\""),
        (UploadErrorCode::FileNotFound, "\"FILE_NOT_FOUND\""),
        (UploadErrorCode::UploadFailed, "\"UPLOAD_FAILED\""),
        (UploadErrorCode::ConfigError, "\"CONFIG_ERROR\""),
        (UploadErrorCode::ServerError, "\"SERVER_ERROR\""),
    ];
    for (c, json) in codes {
        assert_eq!(serde_json::to_string(c.as_str()).unwrap_or_default(), json);
    }
}
