use zpic::config::{RenameSection, UploaderSection, ZpicConfigFile};
use zpic::envvar::{expand_env, Env};
use zpic::fields::{FieldValue, Fields};
use zpic::kinds::{RenameStrategy, UploaderKind};
use zpic::loader::{
    json_path, picgo_candidate_source, writable_config_path, zpic_candidate_source, ConfigSource,
    LoadedConfig,
};
use zpic::manager::UploaderConfigManager;
use zpic::paths::{candidate_picgo_paths, candidate_zpic_paths, default_zpic_config};
use zpic::picgo::{
    convert_picgo_to_zpic, PicBed, PicGoConfig, PicGoUploaderBlock, PicGoUploaderConfigItem,
    PicGoUploaderTypeConfigs, PicGoValue,
};
use zpic::smap::SortedMap;

fn values(pairs: &[(&str, &str)]) -> SortedMap<PicGoValue> {
    let mut m: SortedMap<PicGoValue> = SortedMap::new();
    for (k, v) in pairs {
        m.insert(k.to_string(), PicGoValue::Str(v.to_string()));
    }
    m
}

fn bed(current: Option<&str>, uploader: Option<&str>, blocks: Vec<(&str, SortedMap<PicGoValue>)>) -> PicBed {
    let mut uploaders: SortedMap<PicGoUploaderBlock> = SortedMap::new();
    for (name, fields) in blocks {
        uploaders.insert(name.to_string(), PicGoUploaderBlock { fields });
    }
    PicBed {
        current: current.map(|s| s.to_string()),
        uploader: uploader.map(|s| s.to_string()),
        transformer: None,
        proxy: None,
        uploaders,
    }
}

fn picgo(pic_bed: Option<PicBed>, uploader: SortedMap<PicGoUploaderTypeConfigs>) -> PicGoConfig {
    PicGoConfig { pic_bed, uploader, picgo_plugins: None }
}

#[test]
fn effective_template_prefers_path() {
    let section = RenameSection {
        strategy: RenameStrategy::DateHash,
        path: Some("custom/{name}.{ext}".to_string()),
        keep_original_name: false,
    };
    assert_eq!(section.effective_template(), "custom/{name}.{ext}");
}

#[test]
fn expand_env_keeps_unknown() {
    let env: Env = SortedMap::new();
    assert_eq!(expand_env("hello $NOT_SET", &env), "hello $NOT_SET");
}

#[test]
fn expand_env_handles_braces() {
    let mut env: Env = SortedMap::new();
    env.insert("ZPIC_TEST_VAR".to_string(), "world".to_string());
    assert_eq!(expand_env("hello ${ZPIC_TEST_VAR}", &env), "hello world");
}

#[test]
fn redacts_secrets() {
    let mut fields: Fields = SortedMap::new();
    fields.insert("type".to_string(), FieldValue::Text("github".to_string()));
    fields.insert("token".to_string(), FieldValue::Text("ghp_secretvalue".to_string()));
    let mut section = UploaderSection { kind: UploaderKind::Github, alias: None, fields };
    section.redact_secrets();
    assert_eq!(section.string_field("token"), "<redacted>");
    assert_eq!(section.string_field("type"), "github");
}

#[test]
fn parses_github_picgo_config() {
    let cfg = picgo(
        Some(bed(
            Some("github"),
            Some("github"),
            vec![(
                "github",
                values(&[
                    ("repo", "me/picbed"),
                    ("branch", "main"),
                    ("token", "ghp_x"),
                    ("path", "img/"),
                    ("customUrl", "https://cdn.jsdelivr.net/gh/me/picbed"),
                ]),
            )],
        )),
        SortedMap::new(),
    );
    assert_eq!(cfg.active_uploader(), Some("github"));
    assert_eq!(cfg.active_kind(), Some(UploaderKind::Github));
    let gh = cfg.block("github").unwrap();
    assert_eq!(gh.string("repo").as_deref(), Some("me/picbed"));
}

#[test]
fn detects_unsupported_plugin() {
    let cfg = picgo(Some(bed(Some("something-weird"), Some("something-weird"), vec![])), SortedMap::new());
    assert!(cfg.is_unsupported_plugin());
    assert!(cfg.ensure_supported().is_err());
}

#[test]
fn picgo_to_zpic_conversion_preserves_fields() {
    let cfg = picgo(
        Some(bed(
            Some("github"),
            None,
            vec![(
                "github",
                values(&[
                    ("repo", "me/picbed"),
                    ("branch", "main"),
                    ("token", "ghp_x"),
                    ("path", "img/"),
                    ("customUrl", "https://cdn.jsdelivr.net/gh/me/picbed"),
                ]),
            )],
        )),
        SortedMap::new(),
    );
    let zpic = convert_picgo_to_zpic(&cfg);
    let gh = zpic.uploader.get("github").unwrap().active().unwrap();
    assert_eq!(gh.field("repo").as_deref(), Some("me/picbed"));
    assert_eq!(gh.field("public_base_url").as_deref(), Some("https://cdn.jsdelivr.net/gh/me/picbed"));
    assert_eq!(gh.field("path_prefix").as_deref(), Some("img/"));
    assert_eq!(zpic.active_uploader_type(), Some("github"));
    assert!(zpic.pic_bed.uploader_mirrors.contains_key("github"));
}

#[test]
fn picgo_multi_config_is_preserved() {
    let mut personal_fields = values(&[("repo", "me/personal"), ("token", "ghp_a")]);
    personal_fields.insert("ignored".to_string(), PicGoValue::Null);
    let personal = PicGoUploaderConfigItem {
        id: "id-personal".to_string(),
        config_name: "Personal".to_string(),
        created_at: 1700000000000,
        updated_at: 1700000000000,
        fields: personal_fields,
    };
    let work = PicGoUploaderConfigItem {
        id: "id-work".to_string(),
        config_name: "Work".to_string(),
        created_at: 1700000001000,
        updated_at: 1700000002000,
        fields: values(&[("repo", "me/work"), ("token", "ghp_b")]),
    };
    let mut types: SortedMap<PicGoUploaderTypeConfigs> = SortedMap::new();
    types.insert(
        "github".to_string(),
        PicGoUploaderTypeConfigs { config_list: vec![personal, work], default_id: "id-work".to_string() },
    );
    let cfg = picgo(
        Some(bed(Some("github"), Some("github"), vec![("github", values(&[("repo", "fallback/repo")]))])),
        types,
    );
    let zpic = convert_picgo_to_zpic(&cfg);
    let gh = zpic.uploader.get("github").unwrap();
    assert_eq!(gh.config_list.len(), 2);
    assert_eq!(gh.default_id, "id-work");
    assert_eq!(gh.active().unwrap().config_name, "Work");
    assert!(gh.config_list[0].field("ignored").is_none());
    assert_eq!(
        zpic.pic_bed.uploader_mirrors.get("github").and_then(|m| m.fields.get("repo")).and_then(|v| v.as_str()),
        Some("me/work")
    );
}

#[test]
fn picgo_without_bed_uses_first_converted_type() {
    let item = PicGoUploaderConfigItem {
        id: String::new(),
        config_name: "  ".to_string(),
        created_at: 0,
        updated_at: 0,
        fields: values(&[("repo", "o/r")]),
    };
    let mut types: SortedMap<PicGoUploaderTypeConfigs> = SortedMap::new();
    types.insert("s3".to_string(), PicGoUploaderTypeConfigs { config_list: vec![], default_id: String::new() });
    types.insert("github".to_string(), PicGoUploaderTypeConfigs { config_list: vec![item], default_id: String::new() });
    let zpic = convert_picgo_to_zpic(&picgo(None, types));
    assert_eq!(zpic.active_uploader_type(), Some("github"));
    assert!(zpic.uploader.get("s3").is_none());
    let gh = zpic.uploader.get("github").unwrap();
    assert_eq!(gh.config_list[0].config_name, "Default");
    assert!(!gh.config_list[0].id.is_empty());
    assert_eq!(gh.default_id, gh.config_list[0].id);
    assert_eq!(gh.config_list[0].created_at, gh.config_list[0].updated_at);
}

#[test]
fn explicit_overrides_fallback() {
    let mut fields: Fields = SortedMap::new();
    fields.insert("target_dir".to_string(), FieldValue::Text("./x".to_string()));
    fields.insert("public_base_url".to_string(), FieldValue::Text("/x".to_string()));
    let mut cfg = ZpicConfigFile::default();
    cfg.default_uploader = Some("l".to_string());
    cfg.uploaders.insert("l".to_string(), UploaderSection { kind: UploaderKind::Local, alias: None, fields });
    let migrated = UploaderConfigManager::new(cfg).config;
    let loaded = LoadedConfig { source: ConfigSource::Explicit("custom.toml".to_string()), zpic: migrated, picgo: None };
    assert_eq!(loaded.active_uploader_type(), Some("local"));
    assert_eq!(loaded.active_uploader_config_name(), Some("l"));
}

#[test]
fn candidate_paths_include_user_zpic() {
    let candidates = candidate_zpic_paths(Some("/work/site"), "/home/me/.config/zpic");
    assert!(candidates.iter().any(|p| p.ends_with("config.toml")));
    assert!(candidates.iter().any(|p| p.contains("zpic")));
    assert_eq!(candidates[0], "/work/site/.zpic/config.toml");
    assert_eq!(candidates[1], "/home/me/.config/zpic/config.toml");
    assert_eq!(default_zpic_config("/cfg/zpic"), "/cfg/zpic/config.toml");
}

#[test]
fn picgo_candidates_follow_platform_order() {
    let c = candidate_picgo_paths(Some("/home/me"), Some("C:/AppData"));
    assert_eq!(
        c,
        vec![
            "/home/me/.picgo/config.json".to_string(),
            "/home/me/Library/Application Support/picgo/data.json".to_string(),
            "/home/me/.config/picgo/data.json".to_string(),
            "C:/AppData/picgo/data.json".to_string(),
        ]
    );
    assert!(candidate_picgo_paths(None, None).is_empty());
}

#[test]
fn sources_are_classified_by_location() {
    assert!(matches!(zpic_candidate_source("/w/.zpic/config.toml"), ConfigSource::Project(_)));
    assert!(matches!(zpic_candidate_source("/home/me/.config/zpic/config.toml"), ConfigSource::User(_)));
    assert!(matches!(picgo_candidate_source("/home/me/.picgo/config.json"), ConfigSource::PicgoCore(_)));
    assert!(matches!(picgo_candidate_source("/home/me/.config/picgo/data.json"), ConfigSource::PicgoGui(_)));
    assert_eq!(ConfigSource::User("/a".to_string()).label(), "user");
    assert_eq!(ConfigSource::EnvVar("/b".to_string()).path(), "/b");
}

#[test]
fn picgo_sources_are_never_written_back() {
    assert!(json_path("/a/b/config.JSON"));
    assert!(!json_path("/a/b/config.toml"));
    assert_eq!(writable_config_path(&ConfigSource::Project("/w/.zpic/config.toml".to_string()), "/u/config.toml"), "/w/.zpic/config.toml");
    assert_eq!(writable_config_path(&ConfigSource::Explicit("/w/x.json".to_string()), "/u/config.toml"), "/u/config.toml");
    assert_eq!(writable_config_path(&ConfigSource::PicgoGui("/p/data.json".to_string()), "/u/config.toml"), "/u/config.toml");
}
