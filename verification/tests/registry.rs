use zpic::factory::builtin_uploader_descriptors;
use zpic::registry::{builtin_uploader_descriptor, plugin_uploader_descriptor, UploaderDescriptorKind, UploaderRegistry};

#[test]
fn resolves_aliases_case_insensitively() {
    let mut registry = UploaderRegistry::new();
    registry.register(builtin_uploader_descriptor("demo", "Demo", vec!["DemoAlias".into()], vec![])).unwrap();
    let descriptor = registry.resolve("demoalias").unwrap();
    assert_eq!(descriptor.uploader_type, "demo");
}

#[test]
fn rejects_duplicate_aliases() {
    let mut registry = UploaderRegistry::new();
    registry.register(builtin_uploader_descriptor("one", "One", vec!["same".into()], vec![])).unwrap();
    let err = registry.register(builtin_uploader_descriptor("two", "Two", vec!["same".into()], vec![])).err().unwrap();
    assert!(err.message().contains("duplicate uploader alias"));
}

#[test]
fn instantiates_registered_uploader() {
    let mut registry = UploaderRegistry::new();
    registry.register(builtin_uploader_descriptor("demo", "Demo", vec![], vec![])).unwrap();
    let d = registry.resolve("demo").unwrap();
    assert_eq!(d.kind, UploaderDescriptorKind::Builtin);
    assert_eq!(registry.canonical_type(" DEMO "), Some("demo"));
}

#[test]
fn builtins_register_and_list_in_order() {
    let mut registry = UploaderRegistry::new();
    for d in builtin_uploader_descriptors() {
        registry.register(d).unwrap();
    }
    registry.register(plugin_uploader_descriptor("zeta", "Zeta", vec!["z".into()], vec![])).unwrap();
    registry.register(plugin_uploader_descriptor("alpha", "Alpha", vec![], vec![])).unwrap();
    let names: Vec<&str> = registry.descriptors().iter().map(|d| d.uploader_type.as_str()).collect();
    assert_eq!(names, vec!["local", "github", "s3", "alpha", "zeta"]);
    assert_eq!(registry.canonical_type("R2"), Some("s3"));
    assert_eq!(registry.canonical_type("z"), Some("zeta"));
    assert!(registry.resolve("aliyun-oss").is_none());
    let dup = registry.register(builtin_uploader_descriptor("S3", "again", vec![], vec![])).err().unwrap();
    assert!(dup.message().contains("duplicate uploader descriptor registration"));
}

#[test]
fn builtin_descriptors_describe_their_fields() {
    let all = builtin_uploader_descriptors();
    assert_eq!(all.len(), 3);
    assert_eq!(all[1].fields.iter().find(|f| f.key == "branch").unwrap().default.as_deref(), Some("master"));
    assert!(all[2].fields.iter().any(|f| f.key == "secret_access_key" && f.secret));
}
