//! Which configuration file is in effect, and the configuration as loaded.
//!
//! Precedence: an explicit `--config` path, then `ZPIC_CONFIG`, then the
//! project's `.zpic/config.toml`, then the user's global file, then PicGo's
//! files. Reading the files happens outside the library; the decisions on
//! what a path is and where a config is written back are made here.

use vstd::prelude::*;

use crate::config::{active_index, UploaderConfigItem, UploaderSection, ZpicConfigFile, spec_active_type};
use crate::error::{error_view, ErrorKind, ZpicError};
use crate::fields::copy_fields;
use crate::kinds::{spec_from_alias, UploaderKind};
use crate::paths::{last_component, parent_part, path_extension, path_last_component, path_parent_part, spec_extension};
use crate::picgo::PicGoConfig;
use crate::text::{eq_ic, own, push_str, str_eq, str_eq_ic, string_of};

verus! {

/// Where the active config came from, with its path.
pub enum ConfigSource {
    /// Explicit `--config` path supplied on the command line.
    Explicit(String),
    /// `ZPIC_CONFIG` environment variable.
    EnvVar(String),
    /// Project-local `.zpic/config.toml` in the working directory.
    Project(String),
    /// The user's global zpic config file.
    User(String),
    /// PicGo-Core config (no native zpic config found).
    PicgoCore(String),
    /// PicGo GUI data file (no native zpic or PicGo-Core config found).
    PicgoGui(String),
}

/// The path a source names.
pub open spec fn source_path(s: ConfigSource) -> Seq<char> {
    match s {
        ConfigSource::Explicit(p) => p@,
        ConfigSource::EnvVar(p) => p@,
        ConfigSource::Project(p) => p@,
        ConfigSource::User(p) => p@,
        ConfigSource::PicgoCore(p) => p@,
        ConfigSource::PicgoGui(p) => p@,
    }
}

/// The label of a source.
pub open spec fn source_label(s: ConfigSource) -> Seq<char> {
    match s {
        ConfigSource::Explicit(_) => "explicit"@,
        ConfigSource::EnvVar(_) => "env-var"@,
        ConfigSource::Project(_) => "project"@,
        ConfigSource::User(_) => "user"@,
        ConfigSource::PicgoCore(_) => "picgo-core"@,
        ConfigSource::PicgoGui(_) => "picgo-gui"@,
    }
}

impl ConfigSource {
    /// The path of the file.
    pub fn path(&self) -> (r: &str)
        ensures
            r@ == source_path(*self),
    {
        match self {
            ConfigSource::Explicit(p) => p.as_str(),
            ConfigSource::EnvVar(p) => p.as_str(),
            ConfigSource::Project(p) => p.as_str(),
            ConfigSource::User(p) => p.as_str(),
            ConfigSource::PicgoCore(p) => p.as_str(),
            ConfigSource::PicgoGui(p) => p.as_str(),
        }
    }

    /// A short label for the kind of source.
    pub fn label(&self) -> (r: &'static str)
        ensures
            r@ == source_label(*self),
    {
        match self {
            ConfigSource::Explicit(_) => "explicit",
            ConfigSource::EnvVar(_) => "env-var",
            ConfigSource::Project(_) => "project",
            ConfigSource::User(_) => "user",
            ConfigSource::PicgoCore(_) => "picgo-core",
            ConfigSource::PicgoGui(_) => "picgo-gui",
        }
    }
}

/// A path names a PicGo JSON file: its extension is `json` in any case.
pub open spec fn is_json_path(path: Seq<char>) -> bool {
    match spec_extension(path) {
        Some(e) => eq_ic(e, "json"@),
        None => false,
    }
}

/// Whether a path names a JSON file.
pub fn json_path(path: &str) -> (r: bool)
    ensures
        r == is_json_path(path@),
{
    match path_extension(path) {
        Some(e) => str_eq_ic(e.as_str(), "json"),
        None => false,
    }
}

/// The source a found zpic candidate is: the project's when the file sits
/// in a `.zpic` directory, else the user's.
pub fn zpic_candidate_source(path: &str) -> (r: ConfigSource)
    ensures
        source_path(r) == path@,
        last_component(parent_part(path@)) == ".zpic"@ ==> r is Project,
        last_component(parent_part(path@)) != ".zpic"@ ==> r is User,
{
    let parent = path_parent_part(path);
    let dir = path_last_component(parent.as_str());
    if str_eq(dir.as_str(), ".zpic") {
        ConfigSource::Project(own(path))
    } else {
        ConfigSource::User(own(path))
    }
}

/// The source a PicGo file is: PicGo-Core's when it is named
/// `config.json`, else the GUI's data file.
pub fn picgo_candidate_source(path: &str) -> (r: ConfigSource)
    ensures
        source_path(r) == path@,
        last_component(path@) == "config.json"@ ==> r is PicgoCore,
        last_component(path@) != "config.json"@ ==> r is PicgoGui,
{
    let name = path_last_component(path);
    if str_eq(name.as_str(), "config.json") {
        ConfigSource::PicgoCore(own(path))
    } else {
        ConfigSource::PicgoGui(own(path))
    }
}

/// Where a config is written back: its own file when it came from a
/// native (non-JSON) zpic file, else the user's global file, so a PicGo
/// file is never rewritten.
pub open spec fn spec_writable_path(source: ConfigSource, user_default: Seq<char>) -> Seq<char> {
    match source {
        ConfigSource::PicgoCore(_) => user_default,
        ConfigSource::PicgoGui(_) => user_default,
        _ => if is_json_path(source_path(source)) {
            user_default
        } else {
            source_path(source)
        },
    }
}

/// The file a config is written back to, as `spec_writable_path` states.
pub fn writable_config_path(source: &ConfigSource, user_default: &str) -> (r: String)
    ensures
        r@ == spec_writable_path(*source, user_default@),
{
    match source {
        ConfigSource::PicgoCore(_) | ConfigSource::PicgoGui(_) => own(user_default),
        _ => {
            let p = source.path();
            if json_path(p) {
                own(user_default)
            } else {
                own(p)
            }
        },
    }
}

/// A resolved configuration: the parsed file and where it came from.
pub struct LoadedConfig {
    pub source: ConfigSource,
    /// The native configuration (converted when the file is PicGo's).
    pub zpic: ZpicConfigFile,
    /// The PicGo file as read, when the config came from one.
    pub picgo: Option<PicGoConfig>,
}

/// Something that is persisted as a zpic configuration.
pub trait ZpicConfig {
    /// A short identifier of where the configuration came from.
    fn source(&self) -> (r: &str);
}

impl ZpicConfig for LoadedConfig {
    /// The label of the file the configuration was loaded from.
    fn source(&self) -> (r: &str)
        ensures
            r@ == source_label(self.source),
    {
        self.source.label()
    }
}

/// Resolves which configuration is in effect.
pub struct ConfigLoader;

/// The first candidate that could be read as a configuration.
pub open spec fn first_loaded(c: Seq<(String, Option<LoadedConfig>)>) -> Option<int>
    decreases c.len(),
{
    if c.len() == 0 {
        None
    } else {
        match first_loaded(c.drop_last()) {
            Some(i) => Some(i),
            None => if c.last().1 is Some {
                Some(c.len() - 1)
            } else {
                None
            },
        }
    }
}

proof fn lemma_first_loaded(c: Seq<(String, Option<LoadedConfig>)>)
    ensures
        match first_loaded(c) {
            Some(i) => 0 <= i < c.len() && c[i].1 is Some && forall|j: int| 0 <= j < i ==> (#[trigger] c[j]).1 is None,
            None => forall|j: int| 0 <= j < c.len() ==> (#[trigger] c[j]).1 is None,
        },
    decreases c.len(),
{
    if c.len() > 0 {
        lemma_first_loaded(c.drop_last());
        assert forall|j: int| 0 <= j < c.len() - 1 implies c.drop_last()[j] == #[trigger] c[j] by {}
    }
}

/// The configuration the documented precedence selects. Each source comes
/// with what reading it gave (`None`: missing, empty or unreadable):
///
/// 1. an explicit path wins, and must be readable;
/// 2. then `ZPIC_CONFIG`, when it names an existing file, which must be
///    readable;
/// 3. then the first readable zpic candidate (project, then user), its
///    source set by where it lies;
/// 4. then the first readable PicGo candidate, a PicGo-Core source when
///    its file is `config.json`, else a PicGo GUI one;
/// 5. else no configuration is found.
pub open spec fn load_outcome(
    explicit: Option<(Seq<char>, Option<LoadedConfig>)>,
    env: Option<(Seq<char>, bool, Option<LoadedConfig>)>,
    zpic: Seq<(String, Option<LoadedConfig>)>,
    picgo: Seq<(String, Option<LoadedConfig>)>,
    r: Result<LoadedConfig, ZpicError>,
) -> bool {
    match explicit {
        Some((p, Some(l))) => r == Ok::<LoadedConfig, ZpicError>(l),
        Some((p, None)) => r matches Err(e) && error_view(e) == (
            ErrorKind::ConfigInvalid,
            "config file not found at "@ + p,
        ),
        None => match env {
            Some((p, true, Some(l))) => r == Ok::<LoadedConfig, ZpicError>(l),
            Some((p, true, None)) => r matches Err(e) && error_view(e) == (
                ErrorKind::ConfigInvalid,
                "invalid config at "@ + p,
            ),
            _ => match first_loaded(zpic) {
                Some(i) => r matches Ok(c) && {
                    let l = zpic[i].1.unwrap();
                    &&& source_path(c.source) == zpic[i].0@
                    &&& last_component(parent_part(zpic[i].0@)) == ".zpic"@ ==> c.source is Project
                    &&& last_component(parent_part(zpic[i].0@)) != ".zpic"@ ==> c.source is User
                    &&& c.zpic == l.zpic
                    &&& c.picgo == l.picgo
                },
                None => match first_loaded(picgo) {
                    Some(i) => r matches Ok(c) && {
                        let l = picgo[i].1.unwrap();
                        &&& source_path(c.source) == picgo[i].0@
                        &&& last_component(picgo[i].0@) == "config.json"@ ==> c.source is PicgoCore
                        &&& last_component(picgo[i].0@) != "config.json"@ ==> c.source is PicgoGui
                        &&& c.zpic == l.zpic
                        &&& c.picgo == l.picgo
                    },
                    None => r matches Err(ZpicError::ConfigNotFound),
                },
            },
        },
    }
}

/// Take the first readable candidate out of the list.
fn take_first_loaded(c: Vec<(String, Option<LoadedConfig>)>) -> (r: Option<(String, LoadedConfig)>)
    ensures
        match first_loaded(c@) {
            Some(i) => r matches Some((p, l)) && p == c@[i].0 && c@[i].1 == Some(l),
            None => r is None,
        },
{
    proof {
        lemma_first_loaded(c@);
    }
    let ghost all = c@;
    let mut rest = c;
    let n = rest.len();
    let mut i: usize = 0;
    while i < n
        invariant
            all == c@,
            n == all.len(),
            i <= n,
            rest@ == all.subrange(i as int, n as int),
            forall|j: int| 0 <= j < i ==> (#[trigger] all[j]).1 is None,
        decreases n - i,
    {
        let (p, probe) = rest.remove(0);
        assert((p, probe) == all[i as int]);
        match probe {
            Some(l) => {
                proof {
                    lemma_first_loaded(all);
                    assert(all[i as int].1 is Some);
                }
                return Some((p, l));
            },
            None => {},
        }
        proof {
            assert(all.subrange(i + 1, n as int) =~= rest@);
        }
        i = i + 1;
    }
    proof {
        lemma_first_loaded(all);
        if let Some(k) = first_loaded(all) {
            assert(all[k].1 is None);
        }
    }
    None
}

impl ConfigLoader {
    /// Resolve the configuration by the documented precedence, as
    /// `load_outcome` states.
    pub fn load(
        explicit: Option<(&str, Option<LoadedConfig>)>,
        env: Option<(&str, bool, Option<LoadedConfig>)>,
        zpic: Vec<(String, Option<LoadedConfig>)>,
        picgo: Vec<(String, Option<LoadedConfig>)>,
    ) -> (r: Result<LoadedConfig, ZpicError>)
        ensures
            load_outcome(
                match explicit {
                    Some((p, l)) => Some((p@, l)),
                    None => None,
                },
                match env {
                    Some((p, e, l)) => Some((p@, e, l)),
                    None => None,
                },
                zpic@,
                picgo@,
                r,
            ),
    {
        match explicit {
            Some((p, probe)) => {
                return match probe {
                    Some(l) => Ok(l),
                    None => {
                        let mut m: Vec<char> = Vec::new();
                        push_str(&mut m, "config file not found at ");
                        push_str(&mut m, p);
                        Err(ZpicError::ConfigInvalid(string_of(&m)))
                    },
                };
            },
            None => {},
        }
        match env {
            Some((p, exists, probe)) => {
                if exists {
                    return match probe {
                        Some(l) => Ok(l),
                        None => {
                            let mut m: Vec<char> = Vec::new();
                            push_str(&mut m, "invalid config at ");
                            push_str(&mut m, p);
                            Err(ZpicError::ConfigInvalid(string_of(&m)))
                        },
                    };
                }
            },
            None => {},
        }
        match take_first_loaded(zpic) {
            Some((p, l)) => {
                let source = zpic_candidate_source(p.as_str());
                return Ok(LoadedConfig { source, zpic: l.zpic, picgo: l.picgo });
            },
            None => {},
        }
        match take_first_loaded(picgo) {
            Some((p, l)) => {
                let source = picgo_candidate_source(p.as_str());
                Ok(LoadedConfig { source, zpic: l.zpic, picgo: l.picgo })
            },
            None => Err(ZpicError::ConfigNotFound),
        }
    }
}

/// The name of the active config of the active type.
pub open spec fn spec_active_config_name(c: ZpicConfigFile) -> Option<Seq<char>> {
    match spec_active_type(c) {
        Some(t) => if c.uploader@.contains_key(t) {
            match active_index(c.uploader@[t].config_list@, c.uploader@[t].default_id@) {
                Some(i) => Some(c.uploader@[t].config_list@[i].config_name@),
                None => None,
            }
        } else {
            None
        },
        None => None,
    }
}

/// The built-in kind an uploader type's configs are read as: the kind its
/// name is an alias of, else the fallback.
pub open spec fn section_kind(uploader_type: Seq<char>, fallback: Option<UploaderKind>) -> Option<UploaderKind> {
    match spec_from_alias(uploader_type) {
        Some(k) => Some(k),
        None => fallback,
    }
}

/// A config item read as a built-in uploader section of a type. A type
/// that names no built-in kind, with no fallback, is not supported.
pub fn section_for_type(item: &UploaderConfigItem, uploader_type: &str, fallback: Option<UploaderKind>) -> (r: Result<UploaderSection, ZpicError>)
    ensures
        match section_kind(uploader_type@, fallback) {
            Some(k) => r matches Ok(s) && s.kind == k && (s.alias matches Some(a) && a@
                == uploader_type@) && s.fields@ == item.fields@,
            None => r matches Err(ZpicError::UploaderUnsupported(t)) && t@ == uploader_type@,
        },
{
    let kind = match UploaderKind::from_alias(uploader_type) {
        Some(k) => k,
        None => match fallback {
            Some(k) => k,
            None => return Err(ZpicError::UploaderUnsupported(own(uploader_type))),
        },
    };
    let alias = own(uploader_type);
    Ok(UploaderSection { kind, alias: Some(alias), fields: copy_fields(&item.fields) })
}

impl LoadedConfig {
    /// The active uploader type.
    pub fn active_uploader_type(&self) -> (r: Option<&str>)
        ensures
            match r {
                Some(s) => spec_active_type(self.zpic) == Some(s@),
                None => spec_active_type(self.zpic) is None,
            },
    {
        self.zpic.active_uploader_type()
    }

    /// The name of the active config of the active type.
    pub fn active_uploader_config_name(&self) -> (r: Option<&str>)
        ensures
            match r {
                Some(s) => spec_active_config_name(self.zpic) == Some(s@),
                None => spec_active_config_name(self.zpic) is None,
            },
    {
        let t = match self.active_uploader_type() {
            Some(t) => t,
            None => return None,
        };
        match self.zpic.uploader.get(t) {
            Some(store) => match store.active() {
                Some(item) => Some(item.config_name.as_str()),
                None => None,
            },
            None => None,
        }
    }

    /// The active type with its active config read as a built-in section,
    /// when there is one and its type names a built-in kind.
    pub fn active_uploader(&self) -> (r: Option<(String, UploaderSection)>)
        ensures
            match r {
                Some((t, sec)) => {
                    &&& spec_active_type(self.zpic) == Some(t@)
                    &&& self.zpic.uploader@.contains_key(t@)
                    &&& active_index(self.zpic.uploader@[t@].config_list@, self.zpic.uploader@[t@].default_id@) matches Some(i)
                    &&& spec_from_alias(t@) == Some(sec.kind)
                    &&& sec.fields@ == self.zpic.uploader@[t@].config_list@[i].fields@
                },
                None => match spec_active_type(self.zpic) {
                    Some(t) => !self.zpic.uploader@.contains_key(t) || active_index(
                        self.zpic.uploader@[t].config_list@,
                        self.zpic.uploader@[t].default_id@,
                    ) is None || spec_from_alias(t) is None,
                    None => true,
                },
            },
    {
        let t = match self.active_uploader_type() {
            Some(t) => t,
            None => return None,
        };
        let store = match self.zpic.uploader.get(t) {
            Some(s) => s,
            None => return None,
        };
        let item = match store.active() {
            Some(i) => i,
            None => return None,
        };
        match section_for_type(item, t, None) {
            Ok(sec) => Some((own(t), sec)),
            Err(_) => None,
        }
    }
}

} // verus!
