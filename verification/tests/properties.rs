use zpic::format::{render_format, FormatVars};
use zpic::github::GitHubUploader;
use zpic::kinds::UploaderKind;
use zpic::oss::OssUploader;
use zpic::s3::S3Uploader;
use zpic::upload::{UploadContext, UploadInput};
use zpic::config::{UploaderConfigItem, UploaderTypeConfigs, ZpicConfigFile};
use zpic::fields::{FieldValue, Fields};
use zpic::manager::UploaderConfigManager;
use zpic::smap::SortedMap;

fn one_field(k: &str, v: &str) -> Fields {
    let mut f: Fields = SortedMap::new();
    f.insert(k.to_string(), FieldValue::Text(v.to_string()));
    f
}

fn sample_input() -> UploadInput {
    UploadInput::new("cover.png".to_string(), "cover".to_string(), "image/png".to_string(), b"hello".to_vec())
}

#[test]
fn aliases_resolve_to_their_own_kind() {
    for k in UploaderKind::all() {
        assert_eq!(UploaderKind::from_alias(k.as_str()), Some(k));
        for a in k.picgo_aliases() {
            assert_eq!(UploaderKind::from_alias(a), Some(k));
            assert_eq!(UploaderKind::from_alias(&a.to_uppercase()), Some(k));
        }
    }
    assert_eq!(UploaderKind::from_alias(" R2 "), Some(UploaderKind::S3));
    assert_eq!(UploaderKind::from_alias("aliyun"), Some(UploaderKind::AliyunOss));
    assert_eq!(UploaderKind::from_alias("bogus"), None);
}

#[test]
fn upserts_keep_names_distinct_ignoring_case() {
    let mut cfg = ZpicConfigFile::default();
    cfg.uploader.insert(
        "local".into(),
        UploaderTypeConfigs {
            config_list: vec![UploaderConfigItem {
                id: "id-1".into(),
                config_name: "Default".into(),
                created_at: 0,
                updated_at: 0,
                fields: one_field("type", "local"),
            }],
            default_id: "id-1".into(),
        },
    );
    let mut mgr = UploaderConfigManager::new(cfg);
    let a = mgr.create_or_update("local", None, one_field("target_dir", "a")).ok().expect("created");
    assert_eq!(a.config_name, "Default-1");
    let b = mgr.create_or_update("local", Some("  "), one_field("target_dir", "b")).ok().expect("created");
    assert_eq!(b.config_name, "Default-2");
    let c = mgr.create_or_update("local", Some("DEFAULT-1"), one_field("target_dir", "c")).ok().expect("updated");
    assert_eq!(c.id, a.id);
    assert_eq!(c.config_name, "Default-1");
    let names: Vec<String> =
        mgr.list_configs("local").iter().map(|i| i.config_name.to_lowercase()).collect();
    assert_eq!(names, vec!["default", "default-1", "default-2"]);
}

#[test]
fn text_outside_placeholders_is_kept() {
    let vars = FormatVars { url: "u", alt: None, width: None, height: None, mime: "image/png", size: 1, key: "k" };
    assert_eq!(render_format("é {url}", &vars), "é u");
    assert_eq!(render_format("图 {url} ✓", &vars), "图 u ✓");
}

#[test]
fn github_dry_run_reports_every_field() {
    let u = GitHubUploader::new("o/r", "main", "t", "").ok().expect("uploader");
    let mut ctx = UploadContext::new("/x.png".to_string(), "test".to_string());
    ctx.dry_run = true;
    let out = u.dry_run_output(&sample_input(), &ctx);
    assert_eq!(out.url, "https://raw.githubusercontent.com/o/r/main/x.png");
    assert_eq!(out.key, "x.png");
    assert_eq!(out.markdown, "![cover](https://raw.githubusercontent.com/o/r/main/x.png)");
    assert_eq!(out.source, "cover.png");
    assert_eq!(out.mime, "image/png");
    assert_eq!(out.size, 5);
    assert_eq!(out.uploader, "github");
    assert!(out.width.is_none() && out.height.is_none());
}

fn signature_of(headers: &[(String, String)]) -> String {
    let (name, value) = headers.last().cloned().unwrap_or_default();
    assert_eq!(name, "authorization");
    value.rsplit("Signature=").next().unwrap_or("").to_string()
}

fn is_lower_hex_64(s: &str) -> bool {
    s.len() == 64 && s.chars().all(|c| c.is_ascii_digit() || ('a'..='f').contains(&c))
}

#[test]
fn s3_signature_is_64_lowercase_hex_digits() {
    let u = S3Uploader::new("r2.example.com", "auto", "b", "ak", "sk", "").ok().expect("uploader");
    let ctx = UploadContext::new("a b.png".to_string(), "test".to_string());
    let req = u.put_request(&sample_input(), &ctx).ok().expect("signed");
    assert!(req.url.starts_with("https://r2.example.com/b/"));
    let auth = req.headers.last().cloned().unwrap_or_default().1;
    assert!(auth.starts_with("AWS4-HMAC-SHA256 Credential=ak/"));
    assert!(is_lower_hex_64(&signature_of(&req.headers)));
}

#[test]
fn oss_signature_is_64_lowercase_hex_digits() {
    let u = OssUploader::new("oss-cn-hangzhou", "b", "ak", "sk", "").ok().expect("uploader");
    let ctx = UploadContext::new("img/a b.png".to_string(), "test".to_string());
    let req = u.put_request(&sample_input(), &ctx).ok().expect("signed");
    assert_eq!(req.url, "https://b.oss-cn-hangzhou.aliyuncs.com/img/a%20b.png");
    let auth = req.headers.last().cloned().unwrap_or_default().1;
    assert!(auth.starts_with("OSS4-HMAC-SHA256 Credential=ak/"));
    assert!(is_lower_hex_64(&signature_of(&req.headers)));
}

#[test]
fn github_body_is_standard_base64() {
    let u = GitHubUploader::new("o/r", "main", "t", "").ok().expect("uploader");
    let ctx = UploadContext::new("x.png".to_string(), "test".to_string());
    let put = u.put_request(&sample_input(), &ctx);
    assert_eq!(put.content, "aGVsbG8=");
    let bytes = UploadInput::new("a".to_string(), "a".to_string(), "image/png".to_string(), vec![255, 0, 62, 1]);
    assert_eq!(u.put_request(&bytes, &ctx).content, "/wA+AQ==");
}
