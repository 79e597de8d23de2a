use zpic::config::{UploaderConfigItem, UploaderSection, UploaderTypeConfigs, ZpicConfigFile};
use zpic::error::ZpicError;
use zpic::fields::{FieldValue, Fields};
use zpic::kinds::UploaderKind;
use zpic::manager::UploaderConfigManager;
use zpic::smap::SortedMap;

fn text_fields(pairs: &[(&str, &str)]) -> Fields {
    let mut f: Fields = SortedMap::new();
    for (k, v) in pairs {
        f.insert(k.to_string(), FieldValue::Text(v.to_string()));
    }
    f
}

fn empty_cfg() -> ZpicConfigFile {
    ZpicConfigFile::default()
}

fn add_local_type(cfg: &mut ZpicConfigFile) {
    let store = UploaderTypeConfigs {
        config_list: vec![UploaderConfigItem {
            id: "id-1".into(),
            config_name: "Default".into(),
            created_at: 0,
            updated_at: 0,
            fields: text_fields(&[("type", "local"), ("target_dir", "./public"), ("public_base_url", "/img")]),
        }],
        default_id: "id-1".into(),
    };
    cfg.uploader.insert("local".into(), store);
}

fn manager_with_local() -> UploaderConfigManager {
    let mut cfg = empty_cfg();
    add_local_type(&mut cfg);
    UploaderConfigManager::new(cfg)
}

#[test]
fn create_or_update_creates_default_config() {
    let mut mgr = manager_with_local();
    let item = mgr
        .create_or_update("github", Some("Personal"), text_fields(&[("type", "github"), ("repo", "me/picbed")]))
        .unwrap();
    assert_eq!(item.config_name, "Personal");
    assert_eq!(mgr.config.pic_bed.current.as_deref(), Some("github"));
}

#[test]
fn create_or_update_rejects_duplicate_name_when_no_fields() {
    let mut mgr = manager_with_local();
    mgr.create_or_update("github", Some("Personal"), text_fields(&[("type", "github")])).unwrap();
    let err = mgr.create_or_update("github", Some("personal"), SortedMap::new()).err().unwrap();
    assert!(matches!(err, ZpicError::ConfigInvalid(_)));
}

#[test]
fn use_config_switches_active() {
    let mut mgr = manager_with_local();
    mgr.create_or_update("local", Some("Backup"), text_fields(&[("type", "local")])).unwrap();
    let active = mgr.use_config("local", Some("Default")).unwrap();
    assert_eq!(active.config_name, "Default");
    assert_eq!(mgr.config.pic_bed.current.as_deref(), Some("local"));
}

#[test]
fn rename_renames_and_rejects_duplicates() {
    let mut mgr = manager_with_local();
    mgr.create_or_update("local", Some("Other"), text_fields(&[("type", "local")])).unwrap();
    mgr.rename("local", "Other", "Renamed").unwrap();
    assert!(mgr.get_by_name("local", "Renamed").is_some());
    let err = mgr.rename("local", "Default", "Renamed").err().unwrap();
    assert!(matches!(err, ZpicError::ConfigInvalid(_)));
}

#[test]
fn copy_does_not_activate_new_config() {
    let mut mgr = manager_with_local();
    let copy = mgr.copy("local", "Default", "Copy").unwrap();
    assert_eq!(copy.config_name, "Copy");
    assert_eq!(mgr.config.uploader.get("local").unwrap().default_id, "id-1");
}

#[test]
fn remove_last_config_clears_active_selection() {
    let mut mgr = manager_with_local();
    mgr.remove("local", "Default").unwrap();
    let store = mgr.config.uploader.get("local").unwrap();
    assert!(store.config_list.is_empty());
    assert!(store.default_id.is_empty());
    assert!(mgr.config.pic_bed.current.is_none());
    assert!(mgr.config.pic_bed.uploader_mirrors.get("local").is_none());
}

#[test]
fn remove_promotes_first_when_active_removed() {
    let mut mgr = manager_with_local();
    mgr.create_or_update("local", Some("Other"), text_fields(&[("type", "local")])).unwrap();
    mgr.remove("local", "Default").unwrap();
    let store = mgr.config.uploader.get("local").unwrap();
    assert_eq!(store.config_list.len(), 1);
    assert_eq!(store.config_list[0].config_name, "Other");
}

#[test]
fn set_fields_can_create_new_type() {
    let mut mgr = manager_with_local();
    let item = mgr.set_fields("github", Some("Work"), text_fields(&[("bucket", "blog")])).unwrap();
    assert_eq!(item.config_name, "Work");
    assert_eq!(mgr.config.active_uploader_type(), Some("github"));
}

#[test]
fn list_types_returns_sorted() {
    let mgr = manager_with_local();
    assert!(mgr.list_types().contains(&"local"));
}

#[test]
fn kind_works_after_migration() {
    let mut cfg = empty_cfg();
    cfg.default_uploader = Some("legacy".into());
    cfg.uploaders.insert(
        "legacy".into(),
        UploaderSection {
            kind: UploaderKind::S3,
            alias: None,
            fields: text_fields(&[
                ("type", "s3"),
                ("bucket", "b"),
                ("endpoint", "https://r2.example.com"),
                ("public_base_url", "https://x"),
            ]),
        },
    );
    let mgr = UploaderConfigManager::new(cfg);
    assert_eq!(mgr.config.active_uploader_type(), Some("s3"));
    assert!(mgr.config.uploader.get("s3").unwrap().active().is_some());
}

#[test]
fn get_by_id_and_active_agree_after_use() {
    let mut mgr = manager_with_local();
    mgr.create_or_update("local", Some("Backup"), text_fields(&[("type", "local")])).unwrap();
    let active = mgr.get_active("local").unwrap();
    assert_eq!(active.config_name, "Backup");
    assert_eq!(mgr.get_by_id("local", "id-1").unwrap().config_name, "Default");
    assert_eq!(mgr.list_configs("local").len(), 2);
}

#[test]
fn use_config_reports_unknown_names() {
    let mut mgr = manager_with_local();
    let err = mgr.use_config("local", Some("Nope")).err().unwrap();
    assert!(matches!(err, ZpicError::ConfigInvalid(_)));
}
