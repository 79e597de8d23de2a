use zpic::config::ZpicConfigFile;
use zpic::error::{chain_err, ZpicError};
use zpic::loader::{ConfigLoader, ConfigSource, LoadedConfig, ZpicConfig};

fn loaded(source: ConfigSource, default_uploader: &str) -> LoadedConfig {
    let mut zpic = ZpicConfigFile::default();
    zpic.default_uploader = Some(default_uploader.to_string());
    LoadedConfig { source, zpic, picgo: None }
}

fn marker(r: &Result<LoadedConfig, ZpicError>) -> Option<String> {
    match r {
        Ok(l) => l.zpic.default_uploader.clone(),
        Err(_) => None,
    }
}

#[test]
fn explicit_config_wins() {
    let r = ConfigLoader::load(
        Some(("/a/explicit.toml", Some(loaded(ConfigSource::Explicit("/a/explicit.toml".into()), "explicit")))),
        Some(("/env.toml", true, Some(loaded(ConfigSource::Explicit("/env.toml".into()), "env")))),
        vec![("/p/.zpic/config.toml".to_string(), Some(loaded(ConfigSource::Explicit("x".into()), "project")))],
        Vec::new(),
    );
    assert_eq!(marker(&r).as_deref(), Some("explicit"));
}

#[test]
fn unreadable_explicit_config_is_an_error() {
    let r = ConfigLoader::load(Some(("/a/missing.toml", None)), None, Vec::new(), Vec::new());
    match r {
        Err(ZpicError::ConfigInvalid(m)) => assert_eq!(m, "config file not found at /a/missing.toml"),
        _ => panic!("expected ConfigInvalid"),
    }
}

#[test]
fn env_config_must_be_readable_when_present() {
    let r = ConfigLoader::load(None, Some(("/env.toml", true, None)), Vec::new(), Vec::new());
    match r {
        Err(ZpicError::ConfigInvalid(m)) => assert_eq!(m, "invalid config at /env.toml"),
        _ => panic!("expected ConfigInvalid"),
    }
}

#[test]
fn missing_env_config_falls_through_to_candidates() {
    let r = ConfigLoader::load(
        None,
        Some(("/env.toml", false, None)),
        vec![
            ("/p/.zpic/config.toml".to_string(), None),
            ("/home/u/.config/zpic/config.toml".to_string(), Some(loaded(ConfigSource::Explicit("x".into()), "user"))),
        ],
        vec![("/home/u/.picgo/config.json".to_string(), Some(loaded(ConfigSource::PicgoCore("c".into()), "picgo")))],
    );
    let l = r.ok().expect("a config");
    assert_eq!(l.zpic.default_uploader.as_deref(), Some("user"));
    assert!(matches!(l.source, ConfigSource::User(ref p) if p == "/home/u/.config/zpic/config.toml"));
}

#[test]
fn project_candidate_is_labelled_project() {
    let r = ConfigLoader::load(
        None,
        None,
        vec![("/p/.zpic/config.toml".to_string(), Some(loaded(ConfigSource::Explicit("x".into()), "project")))],
        Vec::new(),
    );
    let l = r.ok().expect("a config");
    assert!(matches!(l.source, ConfigSource::Project(ref p) if p == "/p/.zpic/config.toml"));
}

#[test]
fn picgo_is_the_last_resort() {
    let r = ConfigLoader::load(
        None,
        None,
        vec![("/p/.zpic/config.toml".to_string(), None)],
        vec![
            ("/home/u/.picgo/config.json".to_string(), None),
            ("/home/u/data.json".to_string(), Some(loaded(ConfigSource::PicgoGui("/home/u/data.json".into()), "gui"))),
        ],
    );
    assert_eq!(marker(&r).as_deref(), Some("gui"));
    let none = ConfigLoader::load(None, None, Vec::new(), Vec::new());
    assert!(matches!(none, Err(ZpicError::ConfigNotFound)));
}

#[test]
fn loaded_config_reports_its_source() {
    assert_eq!(loaded(ConfigSource::Project("/p/.zpic/config.toml".into()), "x").source(), "project");
    assert_eq!(loaded(ConfigSource::PicgoGui("/d.json".into()), "x").source(), "picgo-gui");
}

#[test]
fn chained_error_messages() {
    assert_eq!(chain_err("could not load zpic config", "config is invalid: x"), "could not load zpic config: config is invalid: x");
}

#[test]
fn picgo_candidates_are_labelled_by_their_file() {
    let core = ConfigLoader::load(
        None,
        None,
        Vec::new(),
        vec![("/home/u/.picgo/config.json".to_string(), Some(loaded(ConfigSource::Explicit("x".into()), "core")))],
    );
    let core = core.ok().expect("a config");
    assert_eq!(core.source.label(), "picgo-core");
    let gui = ConfigLoader::load(
        None,
        None,
        Vec::new(),
        vec![("/home/u/data.json".to_string(), Some(loaded(ConfigSource::Explicit("x".into()), "gui")))],
    );
    let gui = gui.ok().expect("a config");
    assert_eq!(gui.source.label(), "picgo-gui");
}
