use zpic::config::UploaderSection;
use zpic::envvar::Env;
use zpic::error::ZpicError;
use zpic::fields::{FieldValue, Fields};
use zpic::kinds::UploaderKind;
use zpic::oss::{normalize_region, strip_oss_prefix, OssUploader};
use zpic::s3::{ensure_scheme, extract_host, validate_acl, S3Uploader};
use zpic::sigv4::{canonicalize_headers, percent_encode_path};
use zpic::smap::SortedMap;
use zpic::upload::{UploadContext, UploadInput};

fn text_fields(pairs: &[(&str, &str)]) -> Fields {
    let mut f: Fields = SortedMap::new();
    for (k, v) in pairs {
        f.insert(k.to_string(), FieldValue::Text(v.to_string()));
    }
    f
}

fn section(kind: UploaderKind, pairs: &[(&str, &str)]) -> UploaderSection {
    UploaderSection { kind, alias: None, fields: text_fields(pairs) }
}

fn no_env() -> Env {
    SortedMap::new()
}

fn string_map(pairs: &[(&str, &str)]) -> SortedMap<String> {
    let mut m: SortedMap<String> = SortedMap::new();
    for (k, v) in pairs {
        m.insert(k.to_string(), v.to_string());
    }
    m
}

// ---------------------------------------------------------------- OSS

#[test]
fn normalize_region_adds_prefix() {
    assert_eq!(normalize_region("cn-hangzhou"), "oss-cn-hangzhou");
    assert_eq!(normalize_region("oss-cn-hangzhou"), "oss-cn-hangzhou");
    assert_eq!(normalize_region("CN-HANGZHOU"), "oss-CN-HANGZHOU");
    assert_eq!(normalize_region("  oss-cn-hangzhou  "), "oss-cn-hangzhou");
}

#[test]
fn strip_oss_prefix_works() {
    assert_eq!(strip_oss_prefix("oss-cn-hangzhou"), "cn-hangzhou");
    assert_eq!(strip_oss_prefix("OSS-cn-hangzhou"), "cn-hangzhou");
    assert_eq!(strip_oss_prefix("cn-hangzhou"), "cn-hangzhou");
}

#[test]
fn oss_percent_encode_path_preserves_unreserved_and_slash() {
    assert_eq!(
        percent_encode_path("/mybucket/images/2026/06/04/cover.png"),
        "/mybucket/images/2026/06/04/cover.png"
    );
    assert_eq!(
        percent_encode_path("/mybucket/path with spaces/file*~.txt"),
        "/mybucket/path%20with%20spaces/file%2A~.txt"
    );
    assert_eq!(percent_encode_path("/b/a*b"), "/b/a%2Ab");
    assert_eq!(percent_encode_path("/b/测.txt"), "/b/%E6%B5%8B.txt");
}

#[test]
fn derive_signing_key_matches_rfc_chain() {
    let key = zpic::oss::derive_signing_key("test-secret", "20250417", "cn-hangzhou");
    assert_eq!(key.len(), 32);
    let key2 = zpic::oss::derive_signing_key("test-secret", "20250417", "cn-hangzhou");
    assert_eq!(key, key2);
}

#[test]
fn oss_signing_key_changes_with_input() {
    let a = zpic::oss::derive_signing_key("secret-a", "20250417", "cn-hangzhou");
    let b = zpic::oss::derive_signing_key("secret-b", "20250417", "cn-hangzhou");
    let c = zpic::oss::derive_signing_key("secret-a", "20250418", "cn-hangzhou");
    let d = zpic::oss::derive_signing_key("secret-a", "20250417", "cn-shanghai");
    assert_ne!(a, b);
    assert_ne!(a, c);
    assert_ne!(a, d);
}

#[test]
fn oss_canonicalize_headers_sorts_by_lower_key() {
    let headers = string_map(&[
        ("x-oss-date", "20250417T000000Z"),
        ("Content-Type", "text/plain"),
        ("x-oss-content-sha256", "UNSIGNED-PAYLOAD"),
    ]);
    let out = canonicalize_headers(&headers);
    assert_eq!(
        out,
        "content-type:text/plain\n\
         x-oss-content-sha256:UNSIGNED-PAYLOAD\n\
         x-oss-date:20250417T000000Z\n"
    );
}

#[test]
fn build_url_uses_endpoint_when_no_public_base() {
    let u = OssUploader::new("cn-hangzhou", "my-bucket", "ak", "sk", "").unwrap();
    assert_eq!(
        u.build_url("2026/06/04/cover.png"),
        "https://my-bucket.oss-cn-hangzhou.aliyuncs.com/2026/06/04/cover.png"
    );
}

#[test]
fn build_url_honors_custom_public_base() {
    let u = OssUploader::new("oss-cn-hangzhou", "my-bucket", "ak", "sk", "https://cdn.example.com")
        .unwrap();
    assert_eq!(u.build_url("images/cover.png"), "https://cdn.example.com/images/cover.png");
}

#[test]
fn missing_region_rejected() {
    let s = section(
        UploaderKind::AliyunOss,
        &[("bucket", "b"), ("access_key_id", "ak"), ("access_key_secret", "sk")],
    );
    let err = OssUploader::from_config(&s, &no_env()).err().unwrap();
    assert!(matches!(err, ZpicError::ConfigInvalid(_)));
}

#[test]
fn oss_missing_credentials_rejected() {
    let s = section(UploaderKind::AliyunOss, &[("region", "oss-cn-hangzhou"), ("bucket", "b")]);
    let err = OssUploader::from_config(&s, &no_env()).err().unwrap();
    assert!(matches!(err, ZpicError::AuthMissing(_)));
}

#[test]
fn picgo_aliases_are_accepted() {
    let s = section(
        UploaderKind::AliyunOss,
        &[
            ("area", "cn-hangzhou"),
            ("bucket", "b"),
            ("accessKeyId", "ak"),
            ("accessKeySecret", "sk"),
            ("customUrl", "https://cdn.example.com"),
        ],
    );
    let uploader = OssUploader::from_config(&s, &no_env()).unwrap();
    assert_eq!(uploader.bucket(), "b");
    assert_eq!(uploader.endpoint(), "oss-cn-hangzhou.aliyuncs.com");
    assert_eq!(uploader.build_url("cover.png"), "https://cdn.example.com/cover.png");
}

#[test]
fn path_prefix_is_prepended_to_object_key_and_url() {
    let s = section(
        UploaderKind::AliyunOss,
        &[
            ("region", "oss-cn-hangzhou"),
            ("bucket", "b"),
            ("access_key_id", "ak"),
            ("access_key_secret", "sk"),
            ("path_prefix", "img/"),
        ],
    );
    let uploader = OssUploader::from_config(&s, &no_env()).unwrap();
    assert_eq!(
        uploader.build_url("2026/06/04/cover.png"),
        "https://b.oss-cn-hangzhou.aliyuncs.com/img/2026/06/04/cover.png"
    );
}

#[test]
fn path_alias_is_accepted_for_picgo_compat() {
    let s = section(
        UploaderKind::AliyunOss,
        &[
            ("region", "oss-cn-hangzhou"),
            ("bucket", "b"),
            ("access_key_id", "ak"),
            ("access_key_secret", "sk"),
            ("path", "images"),
        ],
    );
    let uploader = OssUploader::from_config(&s, &no_env()).unwrap();
    assert_eq!(uploader.build_url("cover.png"), "https://b.oss-cn-hangzhou.aliyuncs.com/images/cover.png");
}

#[test]
fn oss_dry_run_does_not_send() {
    let uploader = OssUploader::new("oss-cn-hangzhou", "my-bucket", "ak", "sk", "").unwrap();
    let mut ctx = UploadContext::new("images/cover.png".to_string(), "test".to_string());
    ctx.dry_run = true;
    let input = UploadInput::new(
        "cover.png".to_string(),
        "cover".to_string(),
        "image/png".to_string(),
        b"hello".to_vec(),
    );
    let out = uploader.upload_output(&input, &ctx);
    assert_eq!(out.url, "https://my-bucket.oss-cn-hangzhou.aliyuncs.com/images/cover.png");
    assert_eq!(out.uploader, "aliyun-oss");
}

// ---------------------------------------------------------------- S3

#[test]
fn s3_build_url_joins_base_and_key() {
    let u = S3Uploader::new("https://r2.example.com", "auto", "bucket", "ak", "sk", "https://cdn.example.com")
        .unwrap();
    assert_eq!(u.build_url("2026/06/04/cover.png"), "https://cdn.example.com/2026/06/04/cover.png");
}

#[test]
fn s3_missing_credentials_rejected() {
    let s = section(
        UploaderKind::S3,
        &[("endpoint", "https://r2.example.com"), ("bucket", "b"), ("public_base_url", "https://cdn.example.com")],
    );
    let err = S3Uploader::from_config(&s, &no_env()).err().unwrap();
    assert!(matches!(err, ZpicError::AuthMissing(_)));
}

#[test]
fn missing_endpoint_rejected() {
    let s = section(
        UploaderKind::S3,
        &[
            ("bucket", "b"),
            ("public_base_url", "https://cdn.example.com"),
            ("access_key_id", "ak"),
            ("secret_access_key", "sk"),
        ],
    );
    let err = S3Uploader::from_config(&s, &no_env()).err().unwrap();
    assert!(matches!(err, ZpicError::ConfigInvalid(_)));
}

#[test]
fn validate_acl_known_values() {
    assert!(validate_acl("private").is_some());
    assert!(validate_acl("public-read").is_some());
    assert!(validate_acl("public-read-write").is_some());
    assert!(validate_acl("authenticated-read").is_some());
    assert!(validate_acl("aws-exec-read").is_some());
    assert!(validate_acl("bucket-owner-read").is_some());
    assert!(validate_acl("bucket-owner-full-control").is_some());
    assert!(validate_acl("log-delivery-write").is_some());
    assert_eq!(validate_acl("PRIVATE"), Some("private"));
    assert_eq!(validate_acl("Public-Read"), Some("public-read"));
    assert!(validate_acl("bogus").is_none());
}

#[test]
fn derive_signing_key_matches_aws_chain() {
    let key = zpic::s3::derive_signing_key("test-secret", "20250417", "us-east-1");
    assert_eq!(key.len(), 32);
    let key2 = zpic::s3::derive_signing_key("test-secret", "20250417", "us-east-1");
    assert_eq!(key, key2);
}

#[test]
fn s3_signing_key_changes_with_input() {
    let a = zpic::s3::derive_signing_key("secret-a", "20250417", "us-east-1");
    let b = zpic::s3::derive_signing_key("secret-b", "20250417", "us-east-1");
    let c = zpic::s3::derive_signing_key("secret-a", "20250418", "us-east-1");
    let d = zpic::s3::derive_signing_key("secret-a", "20250417", "eu-west-1");
    assert_ne!(a, b);
    assert_ne!(a, c);
    assert_ne!(a, d);
}

#[test]
fn s3_percent_encode_path_preserves_unreserved_and_slash() {
    assert_eq!(
        percent_encode_path("/mybucket/images/2026/06/04/cover.png"),
        "/mybucket/images/2026/06/04/cover.png"
    );
    assert_eq!(
        percent_encode_path("/b/path with spaces/file*~.txt"),
        "/b/path%20with%20spaces/file%2A~.txt"
    );
    assert_eq!(percent_encode_path("/b/测.txt"), "/b/%E6%B5%8B.txt");
}

#[test]
fn s3_canonicalize_headers_sorts_by_lower_key() {
    let headers = string_map(&[
        ("x-amz-date", "20250417T000000Z"),
        ("content-type", "text/plain"),
        ("x-amz-content-sha256", "UNSIGNED-PAYLOAD"),
        ("host", "example.com"),
        ("content-length", "0"),
    ]);
    let out = canonicalize_headers(&headers);
    assert_eq!(
        out,
        "content-length:0\n\
         content-type:text/plain\n\
         host:example.com\n\
         x-amz-content-sha256:UNSIGNED-PAYLOAD\n\
         x-amz-date:20250417T000000Z\n"
    );
}

#[test]
fn ensure_scheme_normalizes_input() {
    assert_eq!(ensure_scheme("r2.example.com"), "https://r2.example.com");
    assert_eq!(ensure_scheme("https://r2.example.com/"), "https://r2.example.com");
    assert_eq!(ensure_scheme("http://minio.local:9000/"), "http://minio.local:9000");
    assert_eq!(ensure_scheme("https://example.com/some/path?x=1#y"), "https://example.com");
}

#[test]
fn extract_host_handles_ports() {
    assert_eq!(extract_host("https://r2.example.com").unwrap(), "r2.example.com");
    assert_eq!(extract_host("https://minio.local:9000").unwrap(), "minio.local:9000");
    assert!(extract_host("https://").is_err());
}

#[test]
fn region_defaults_to_auto_when_missing() {
    let s = section(
        UploaderKind::S3,
        &[
            ("endpoint", "https://r2.example.com"),
            ("bucket", "b"),
            ("public_base_url", "https://cdn.example.com"),
            ("access_key_id", "ak"),
            ("secret_access_key", "sk"),
        ],
    );
    let u = S3Uploader::from_config(&s, &no_env()).unwrap();
    assert_eq!(u.region(), "auto");
}

#[test]
fn s3_dry_run_does_not_send() {
    let uploader = S3Uploader::new(
        "https://r2.example.com",
        "auto",
        "my-bucket",
        "ak",
        "sk",
        "https://cdn.example.com",
    )
    .unwrap();
    let mut ctx = UploadContext::new("images/cover.png".to_string(), "test".to_string());
    ctx.dry_run = true;
    let input = UploadInput::new(
        "cover.png".to_string(),
        "cover".to_string(),
        "image/png".to_string(),
        b"hello".to_vec(),
    );
    let out = uploader.upload_output(&input, &ctx);
    assert_eq!(out.url, "https://cdn.example.com/images/cover.png");
    assert_eq!(out.uploader, "s3");
}

// ---------------------------------------------------------------- GitHub

use zpic::github::GitHubUploader;
use zpic::local::LocalUploader;

#[test]
fn github_build_url_joins_base_and_key() {
    let u = GitHubUploader::new("o/r", "main", "t", "https://cdn.jsdelivr.net/gh/o/r").unwrap();
    assert_eq!(
        u.build_url("images/2026/06/04/cover.png"),
        "https://cdn.jsdelivr.net/gh/o/r/images/2026/06/04/cover.png"
    );
}

#[test]
fn build_url_handles_trailing_slash() {
    let u = GitHubUploader::new("o/r", "main", "t", "https://example.com/").unwrap();
    assert_eq!(u.build_url("x.png"), "https://example.com/x.png");
}

#[test]
fn build_url_falls_back_to_raw_github_when_custom_url_missing() {
    let u = GitHubUploader::new("o/r", "main", "t", "").unwrap();
    assert_eq!(u.build_url("x.png"), "https://raw.githubusercontent.com/o/r/main/x.png");
}

#[test]
fn from_config_accepts_optional_custom_url_and_path_prefix() {
    let s = section(
        UploaderKind::Github,
        &[("repo", "o/r"), ("branch", "main"), ("token", "ghp_x"), ("path_prefix", "img/")],
    );
    let uploader = GitHubUploader::from_config(&s, &no_env()).unwrap();
    assert_eq!(uploader.build_url("cover.png"), "https://raw.githubusercontent.com/o/r/main/img/cover.png");
}

#[test]
fn missing_token_rejected() {
    let s = section(UploaderKind::Github, &[("repo", "o/r")]);
    let err = GitHubUploader::from_config(&s, &no_env()).err().unwrap();
    assert!(matches!(err, ZpicError::AuthMissing(_)));
}

#[test]
fn github_token_resolves_from_environment() {
    let s = section(UploaderKind::Github, &[("repo", "o/r"), ("branch", "main"), ("token", "${GH_TOKEN}")]);
    let mut env: Env = SortedMap::new();
    env.insert("GH_TOKEN".to_string(), "ghp_from_env".to_string());
    assert!(GitHubUploader::from_config(&s, &env).is_ok());
}

// ---------------------------------------------------------------- Local

#[test]
fn local_upload_output_builds_url_under_base() {
    let uploader = LocalUploader::new("/tmp/site", "/images");
    let input = UploadInput::new(
        "cover.png".to_string(),
        "cover".to_string(),
        "image/png".to_string(),
        b"hello".to_vec(),
    );
    let ctx = UploadContext::new("2026/06/04/cover.png".to_string(), "test".to_string());
    let out = uploader.upload_output(&input, &ctx);
    assert_eq!(out.url, "/images/2026/06/04/cover.png");
    assert_eq!(out.uploader, "local");
    assert_eq!(out.markdown, "![cover](/images/2026/06/04/cover.png)");
    assert_eq!(uploader.resolve_dest("2026/06/04/cover.png"), "/tmp/site/2026/06/04/cover.png");
}

#[test]
fn local_from_config_requires_target_dir() {
    let s = section(UploaderKind::Local, &[("public_base_url", "/x")]);
    let err = LocalUploader::from_config(&s).err().unwrap();
    assert!(matches!(err, ZpicError::ConfigInvalid(_)));
}
