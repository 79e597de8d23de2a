use zpic::assistant::ZpicAssistantExtension;
use zpic::config::{UploaderConfigItem, UploaderTypeConfigs, ZpicConfigFile};
use zpic::doctor::{CheckStatus, DoctorReport};
use zpic::error::ZpicError;
use zpic::factory::builtin_uploader_descriptors;
use zpic::fields::{FieldValue, Fields};
use zpic::listing::UploaderListPayload;
use zpic::loader::{ConfigSource, LoadedConfig};
use zpic::mcp::{HistoryParams, McpConfig, MigrateParams, UploadClipboardParams, UploadImageParams, ZpicMcpServer};
use zpic::migration::{is_markdown, migrate_format, skip_image, MigrateReport};
use zpic::kinds::OutputFormat;
use zpic::plugins::{load_uploader_registry, plugin_search_paths, PluginDiagnostic, PluginDiagnosticLevel};
use zpic::registry::{plugin_uploader_descriptor, UploaderRegistry};
use zpic::resolve::{resolve_active_type_key, resolve_existing_type_key, resolve_or_create_type_key, resolve_registered_type_key, resolve_uploader};
use zpic::server::{plan_upload, select_lan_addrs, UploadPlan, ServerError};
use zpic::setting::{parse_fields, parse_toml_value};
use zpic::smap::SortedMap;
use zpic::upload::UploadOutput;
use zpic::zed::{init_refusal, planned_paths, render_readme, render_tasks, ShellKind};

fn text_fields(pairs: &[(&str, &str)]) -> Fields {
    let mut f: Fields = SortedMap::new();
    for (k, v) in pairs {
        f.insert(k.to_string(), FieldValue::Text(v.to_string()));
    }
    f
}

fn item(id: &str, name: &str, fields: Fields) -> UploaderConfigItem {
    UploaderConfigItem { id: id.into(), config_name: name.into(), created_at: 1, updated_at: 2, fields }
}

fn loaded(groups: &[(&str, Vec<UploaderConfigItem>, &str)], current: Option<&str>) -> LoadedConfig {
    let mut cfg = ZpicConfigFile::default();
    for (t, items, default_id) in groups {
        cfg.uploader.insert(t.to_string(), UploaderTypeConfigs { config_list: items.clone_items(), default_id: default_id.to_string() });
    }
    cfg.pic_bed.current = current.map(|s| s.to_string());
    LoadedConfig { source: ConfigSource::User("/u/config.toml".to_string()), zpic: cfg, picgo: None }
}

trait CloneItems {
    fn clone_items(&self) -> Vec<UploaderConfigItem>;
}

impl CloneItems for Vec<UploaderConfigItem> {
    fn clone_items(&self) -> Vec<UploaderConfigItem> {
        self.iter().map(|i| i.duplicate()).collect()
    }
}

fn builtin_registry() -> UploaderRegistry {
    let mut r = UploaderRegistry::new();
    for d in builtin_uploader_descriptors() {
        r.register(d).unwrap();
    }
    r
}

#[test]
fn type_keys_resolve_through_names_and_aliases() {
    let reg = builtin_registry();
    let cfg = loaded(
        &[
            ("R2-blog", vec![item("a", "Default", text_fields(&[]))], "a"),
            ("github", vec![item("b", "Default", text_fields(&[]))], "b"),
        ],
        Some("github"),
    );
    assert_eq!(resolve_registered_type_key(&cfg, &reg, " GitHub ", false).unwrap(), "github");
    assert!(matches!(resolve_registered_type_key(&cfg, &reg, "   ", false), Err(ZpicError::InvalidArgument(_))));
    assert!(matches!(resolve_registered_type_key(&cfg, &reg, "s3", false), Err(ZpicError::UploaderNotFound(_))));
    assert_eq!(resolve_or_create_type_key(&cfg, &reg, "r2").unwrap(), "s3");
    assert_eq!(resolve_or_create_type_key(&cfg, &reg, "MyPlugin").unwrap(), "myplugin");
    assert_eq!(resolve_existing_type_key(&cfg, "r2-BLOG").unwrap(), "R2-blog");
    assert_eq!(resolve_active_type_key(&cfg, &reg).unwrap(), "github");
}

#[test]
fn several_groups_of_one_type_are_ambiguous_unless_named() {
    let reg = builtin_registry();
    let cfg = loaded(
        &[
            ("aws-s3", vec![item("a", "A", text_fields(&[]))], "a"),
            ("r2", vec![item("b", "B", text_fields(&[]))], "b"),
        ],
        None,
    );
    match resolve_registered_type_key(&cfg, &reg, "s3", false) {
        Err(ZpicError::ConfigInvalid(m)) => assert_eq!(m, "uploader type 's3' is ambiguous; matching config groups: aws-s3, r2"),
        _ => panic!("expected an ambiguity error"),
    }
    let with_active = loaded(
        &[
            ("aws-s3", vec![item("a", "A", text_fields(&[]))], "a"),
            ("r2", vec![item("b", "B", text_fields(&[]))], "b"),
        ],
        Some("r2"),
    );
    assert_eq!(resolve_registered_type_key(&with_active, &reg, "s3", false).unwrap(), "r2");
}

#[test]
fn resolve_uploader_reads_the_active_config() {
    let reg = builtin_registry();
    let cfg = loaded(
        &[("local", vec![item("a", "Main", text_fields(&[("target_dir", "/x"), ("public_base_url", "/p")]))], "a")],
        Some("local"),
    );
    let target = resolve_uploader(&cfg, &reg, None).unwrap();
    assert_eq!(target.configured_type, "local");
    assert_eq!(target.runtime_type, "local");
    assert_eq!(target.config_name, "Main");
    let empty = loaded(&[("local", vec![], "")], Some("local"));
    match resolve_uploader(&empty, &reg, None) {
        Err(ZpicError::UploaderNotFound(m)) => assert_eq!(m, "local (no active config; run `zpic set uploader local <name>` first)"),
        _ => panic!("expected a missing-config error"),
    }
}

#[test]
fn uploader_listing_marks_current_and_default() {
    let cfg = loaded(
        &[
            ("github", vec![item("a", "One", text_fields(&[])), item("b", "Two", text_fields(&[]))], "b"),
            ("local", vec![item("c", "L", text_fields(&[]))], ""),
        ],
        Some("github"),
    );
    let all = UploaderListPayload::from_config(&cfg.zpic, None);
    assert_eq!(all.current_uploader.as_deref(), Some("github"));
    assert_eq!(all.types.len(), 2);
    assert!(all.types[0].is_current);
    assert_eq!(all.types[0].default_config.as_deref(), Some("Two"));
    assert!(!all.types[0].configs[0].is_default && all.types[0].configs[1].is_default);
    assert_eq!(all.types[1].default_config.as_deref(), Some("L"));
    let one = UploaderListPayload::from_config(&cfg.zpic, Some("LOCAL"));
    assert_eq!(one.types.len(), 1);
    assert_eq!(one.types[0].uploader_type, "local");
}

fn mcp(allow_clipboard: bool, allow_write: bool) -> ZpicMcpServer {
    let mut c = McpConfig::default_in("/work");
    c.allow_clipboard = allow_clipboard;
    c.allow_migrate_write = allow_write;
    ZpicMcpServer::new(c)
}

#[test]
fn mcp_confines_paths_to_workspace_roots() {
    let s = mcp(false, false);
    let roots = vec![Some("/work".to_string())];
    assert!(s.check_within_roots("/work/a.png", &roots).is_ok());
    assert!(s.check_within_roots("/work", &roots).is_ok());
    assert_eq!(
        s.check_within_roots("/workshop/a.png", &roots).err().unwrap(),
        "`/workshop/a.png` is outside the allowed workspace roots (/work)"
    );
    assert!(s.check_within_roots("/work/a.png", &vec![None]).is_err());
    assert!(s.check_within_roots("/etc/passwd", &vec![Some("/".to_string())]).is_ok());
}

#[test]
fn mcp_checks_extension_and_size() {
    let s = mcp(false, false);
    assert!(s.check_image("/work/a.PNG", 10).is_ok());
    assert_eq!(
        s.check_image("/work/a.exe", 10).err().unwrap(),
        "extension `.exe` is not in allowed_extensions (png, jpg, jpeg, gif, webp, svg, bmp)"
    );
    assert!(s.check_image("/work/a.png", 20 * 1024 * 1024).is_ok());
    assert_eq!(
        s.check_image("/work/a.png", 20 * 1024 * 1024 + 1).err().unwrap(),
        "`/work/a.png` is 20971521 bytes, exceeds max_file_size_mb=20"
    );
}

#[test]
fn mcp_tools_build_zpic_command_lines() {
    let s = mcp(false, false);
    assert_eq!(
        s.upload_image_args("/work/a.png", UploadImageParams { path: "a.png".into(), uploader: Some("s3".into()), format: None }),
        vec!["upload", "/work/a.png", "--json", "--uploader", "s3"]
    );
    assert!(s.upload_clipboard_args(UploadClipboardParams { uploader: None, format: None }).is_err());
    let open = mcp(true, true);
    assert_eq!(
        open.upload_clipboard_args(UploadClipboardParams { uploader: None, format: Some("url".into()) }).unwrap(),
        vec!["upload", "--clipboard", "--json", "--format", "url"]
    );
    let p = MigrateParams { path: "d".into(), dry_run: Some(false) };
    assert_eq!(s.migrate_args("/work/d", &p), vec!["migrate", "/work/d", "--json", "--dry-run"]);
    assert_eq!(open.migrate_args("/work/d", &p), vec!["migrate", "/work/d", "--json"]);
    assert_eq!(
        s.history_args(HistoryParams { uploader: None, limit: Some(7) }),
        vec!["history", "list", "--json", "--limit", "7"]
    );
    assert_eq!(s.doctor_args(), vec!["doctor", "--json"]);
    assert_eq!(s.list_uploaders_args(), vec!["uploader", "list", "--json"]);
}

#[test]
fn assistant_slash_commands() {
    let ext = ZpicAssistantExtension::new();
    assert_eq!(ext.complete_slash_command_argument("zpic-upload").unwrap().len(), 4);
    assert!(ext.complete_slash_command_argument("zpic-doctor").unwrap().is_empty());
    assert_eq!(ext.complete_slash_command_argument("nope").err().unwrap(), "unknown slash command: \"nope\"");
    let (label, args) = ext.slash_command_plan("zpic-history", vec!["--limit".into(), "5".into()]).unwrap();
    assert_eq!(label, "zpic history list");
    assert_eq!(args, vec!["history", "list", "--limit", "5"]);
    assert_eq!(ext.run_result(Some(0), b" ok \n", b"").unwrap(), "ok");
    assert_eq!(ext.run_result(Some(0), b"", b"").unwrap(), "zpic command finished successfully with no output.");
    assert_eq!(ext.run_result(Some(0), b"a", b"b").unwrap(), "a\n\nstderr:\nb");
    assert_eq!(ext.run_result(Some(2), b"", b"").err().unwrap(), "zpic exited with status code 2");
    assert_eq!(ext.run_result(None, b"x", b"").err().unwrap(), "zpic terminated unexpectedly");
    assert!(ext.ensure_zpic_available(true, false).is_err());
    assert!(ext.ensure_zpic_available(false, false).is_ok());
}

#[test]
fn zed_tasks_and_files() {
    let tasks = render_tasks(ShellKind::Posix, Some("/bin/zpic"));
    assert_eq!(tasks.len(), 5);
    assert_eq!(tasks[0].command, ".zed/zpic-upload-from-clipboard.sh");
    assert_eq!(tasks[0].args, vec!["markdown", "${ZED_SELECTED_TEXT:}"]);
    assert_eq!(tasks[3].command, "/bin/zpic");
    assert_eq!(tasks[4].args, vec!["uploader", "list"]);
    assert!(tasks.iter().all(|t| t.zpic_bin_env.as_deref() == Some("/bin/zpic")));
    let ps = render_tasks(ShellKind::PowerShell, None);
    assert_eq!(ps[2].command, "powershell");
    assert_eq!(ps[2].args[4], ".zed\\zpic-migrate-current-file.ps1");
    assert_eq!(ps[3].command, "zpic");
    assert!(render_readme(ShellKind::Posix).contains("- `zpic-upload-from-clipboard.sh`\n- `zpic-migrate-current-file.sh`"));
    let files = ShellKind::Posix.files("/p/.zed");
    let planned = planned_paths(&files);
    let mut sorted = planned.clone();
    sorted.sort();
    assert_eq!(planned, sorted);
    assert!(init_refusal("/p", true, true, &planned, &vec![false, false, true, false, false], false).is_err());
    assert!(init_refusal("/p", true, true, &planned, &vec![false, false, true, false, false], true).is_ok());
    assert!(matches!(init_refusal("/p", false, false, &planned, &vec![false; 5], false), Err(ZpicError::InvalidArgument(_))));
}

#[test]
fn doctor_report_renders_sections() {
    let mut r = DoctorReport::new();
    r.check_config(None, ("/u/config.toml", false), None);
    r.check_picgo(&vec![]);
    r.check_plugin_discovery(&vec![]);
    r.check_history(&Err(ZpicError::History("open: denied".to_string())));
    assert_eq!(r.failed(), 2);
    assert_eq!(r.checks[1].status, CheckStatus::Warn);
    let lines = r.render_text();
    assert_eq!(lines[0], "zpic doctor");
    assert_eq!(lines[2], "Config:");
    assert_eq!(lines[3], "  \u{2717} config (any source)");
    assert!(lines.contains(&"Picgo:".to_string()));
    assert_eq!(lines.last().unwrap(), "result: 2 check(s) failed");
    let mut ok = DoctorReport::new();
    ok.check_clipboard(None);
    assert_eq!(ok.render_text().last().unwrap(), "result: all checks passed");
}

#[test]
fn doctor_validates_the_active_builtin_uploader() {
    let reg = builtin_registry();
    let cfg = loaded(&[("local", vec![item("a", "Main", text_fields(&[("target_dir", "/x")]))], "a")], Some("local"));
    let mut r = DoctorReport::new();
    r.check_active_uploader(&Ok(cfg), &reg, &SortedMap::new());
    assert_eq!(r.checks.len(), 2);
    assert_eq!(r.checks[0].status, CheckStatus::Pass);
    assert_eq!(r.checks[1].name, "uploader (local) validation");
    let mut missing = DoctorReport::new();
    missing.check_active_uploader(&Err(ZpicError::ConfigNotFound), &reg, &SortedMap::new());
    assert_eq!(missing.checks[0].message, "config file not found in any of the standard locations");
}

#[test]
fn plugin_search_paths_are_deduplicated() {
    let env = vec!["/a".to_string(), "/b".to_string(), "/a".to_string()];
    assert_eq!(
        plugin_search_paths(&env, Some("/b/.."), "/cfg"),
        vec!["/a", "/b", "/b/../.zpic/plugins", "/cfg/plugins"]
    );
    assert_eq!(plugin_search_paths(&vec!["/cfg/plugins".to_string()], None, "/cfg"), vec!["/cfg/plugins"]);
}

#[test]
fn plugin_registration_failures_become_diagnostics() {
    let discovery = vec![PluginDiagnostic { level: PluginDiagnosticLevel::Warn, path: "/p".into(), plugin_id: None, message: "x".into() }];
    let loaded = load_uploader_registry(
        builtin_uploader_descriptors(),
        vec![plugin_uploader_descriptor("demo", "Demo", vec![], vec![]), plugin_uploader_descriptor("GitHub", "dup", vec![], vec![])],
        discovery,
    )
    .unwrap();
    assert_eq!(loaded.diagnostics.len(), 2);
    assert_eq!(loaded.diagnostics[1].path, "GitHub");
    assert_eq!(loaded.diagnostics[1].level, PluginDiagnosticLevel::Fail);
    assert!(loaded.registry.resolve("demo").is_some());
}

fn out(url: &str) -> UploadOutput {
    UploadOutput {
        source: "/d/a.png".into(),
        url: url.into(),
        key: "a.png".into(),
        markdown: format!("![a.png]({})", url),
        mime: "image/png".into(),
        size: 3,
        width: None,
        height: None,
        uploader: "local".into(),
    }
}

#[test]
fn migration_report_tracks_outcomes() {
    assert!(is_markdown("notes/A.MD") && is_markdown("x.mdx") && !is_markdown("x.txt"));
    assert!(skip_image("./a.png", false, false));
    assert!(skip_image("http://x/a.png", true, true));
    assert!(!skip_image("http://x/a.png", true, false));
    let cfg = ZpicConfigFile::default();
    assert_eq!(migrate_format(Some("url"), &cfg), OutputFormat::Url);
    assert_eq!(migrate_format(Some("bogus"), &cfg), OutputFormat::Markdown);
    let mut report = MigrateReport::new();
    report.file_scanned(2);
    let change = report.record_upload("/d/n.md", "./a.png", "/d/a.png", Ok(out("https://c/a.png")), OutputFormat::Url, &cfg).unwrap();
    assert_eq!(change.markdown, "https://c/a.png");
    assert!(report.record_upload("/d/n.md", "./b.png", "/d/b.png", Err(ZpicError::Network("down".into())), OutputFormat::Url, &cfg).is_none());
    assert_eq!(report.items[1].error.as_deref(), Some("network error: down"));
    assert!(report.note_rewrite(false, 1));
    assert!(!report.note_rewrite(true, 1));
    assert_eq!(report.rewritten_files, 1);
    assert_eq!(report.exit_code(), 1);
}

#[test]
fn set_fields_parse_key_value_pairs() {
    let f = parse_fields(&vec!["bucket = blog".to_string(), "port=9000".to_string(), "tls=true".to_string(), "empty=".to_string()]).unwrap();
    assert_eq!(f.get("bucket").unwrap().as_str(), Some("blog"));
    assert!(matches!(f.get("port"), Some(FieldValue::Integer(9000))));
    assert!(matches!(f.get("tls"), Some(FieldValue::Boolean(true))));
    assert_eq!(f.get("empty").unwrap().as_str(), Some(""));
    match parse_fields(&vec!["novalue".to_string()]) {
        Err(ZpicError::InvalidArgument(m)) => assert_eq!(m, "invalid --field 'novalue'; expected KEY=VALUE"),
        _ => panic!("expected an error"),
    }
    match parse_fields(&vec![" =x".to_string()]) {
        Err(ZpicError::InvalidArgument(m)) => assert_eq!(m, "invalid --field ' =x'; key can not be empty"),
        _ => panic!("expected an error"),
    }
    assert!(matches!(parse_toml_value("\"quoted\""), FieldValue::Text(ref s) if s == "quoted"));
    assert!(matches!(parse_toml_value("[1, 2]"), FieldValue::Other(ref s) if s == "[1, 2]"));
}

#[test]
fn upload_plans_follow_content_type() {
    assert!(matches!(plan_upload("application/json", b"{}"), Ok(UploadPlan::Json)));
    match plan_upload("multipart/form-data; boundary=ABC", b"") {
        Ok(UploadPlan::Multipart(b)) => assert_eq!(b, "ABC"),
        _ => panic!("expected multipart"),
    }
    assert!(matches!(plan_upload("multipart/form-data", b""), Err(ServerError::BadRequest(_))));
    assert!(matches!(plan_upload("text/plain", b"x"), Err(ServerError::UnsupportedContentType(_))));
}

#[test]
fn lan_addresses_are_sorted_and_unique() {
    let picked = select_lan_addrs(&vec![[192, 168, 1, 9], [127, 0, 0, 1], [10, 0, 0, 1], [192, 168, 1, 9], [169, 254, 0, 1]]);
    assert_eq!(picked, vec![[10, 0, 0, 1], [192, 168, 1, 9]]);
}
