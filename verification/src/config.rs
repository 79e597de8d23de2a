//! The native zpic configuration model, laid out like PicGo's uploader
//! manager: `uploader.<type>.configList` holds named configs per uploader
//! type, `defaultId` points at the active one, and `picBed` mirrors the
//! active selection.

use vstd::prelude::*;

use crate::envvar::Env;
use crate::fields::{
    copy_fields, field_text, redact_fields, resolve_field, spec_field, spec_resolved,
    spec_string_field, string_field_of, FieldValue, Fields, is_secret_key, value_text,
};
use crate::kinds::{OutputFormat, RenameStrategy, UploaderKind, spec_strategy_template};
use crate::seqs::{first_index, lemma_first_index, lemma_first_index_is, lemma_first_index_none};
use crate::smap::SortedMap;
use crate::text::{chars_eq, chars_eq_ic, chars_of, eq_ic, own};

verus! {

/// One named configuration of an uploader type.
pub struct UploaderConfigItem {
    pub id: String,
    pub config_name: String,
    pub created_at: i64,
    pub updated_at: i64,
    pub fields: Fields,
}

impl UploaderConfigItem {
    /// The text of a field, when present.
    pub fn field(&self, key: &str) -> (r: Option<String>)
        ensures
            match r {
                Some(s) => spec_field(self.fields@, key@) == Some(s@),
                None => spec_field(self.fields@, key@) is None,
            },
    {
        field_text(&self.fields, key)
    }

    /// The text of a field with environment references expanded.
    pub fn resolve(&self, key: &str, env: &Env) -> (r: Option<String>)
        ensures
            match r {
                Some(s) => spec_resolved(self.fields@, key@, env@) == Some(s@),
                None => spec_resolved(self.fields@, key@, env@) is None,
            },
    {
        resolve_field(&self.fields, key, env)
    }

    /// A copy with equal contents.
    pub fn duplicate(&self) -> (r: Self)
        ensures
            r.id == self.id,
            r.config_name == self.config_name,
            r.created_at == self.created_at,
            r.updated_at == self.updated_at,
            r.fields@ == self.fields@,
    {
        UploaderConfigItem {
            id: self.id.clone(),
            config_name: self.config_name.clone(),
            created_at: self.created_at,
            updated_at: self.updated_at,
            fields: copy_fields(&self.fields),
        }
    }
}

/// Matches a config by name, ignoring ASCII case.
pub open spec fn name_is(name: Seq<char>) -> spec_fn(UploaderConfigItem) -> bool {
    |it: UploaderConfigItem| eq_ic(it.config_name@, name)
}

/// Matches a config by id.
pub open spec fn id_is(id: Seq<char>) -> spec_fn(UploaderConfigItem) -> bool {
    |it: UploaderConfigItem| it.id@ == id
}

/// All configs of one uploader type.
pub struct UploaderTypeConfigs {
    pub config_list: Vec<UploaderConfigItem>,
    pub default_id: String,
}

/// The active config: the one `defaultId` names, else the first.
pub open spec fn active_index(list: Seq<UploaderConfigItem>, default_id: Seq<char>) -> Option<int> {
    if default_id.len() > 0 && first_index(list, id_is(default_id)) is Some {
        first_index(list, id_is(default_id))
    } else if list.len() > 0 {
        Some(0)
    } else {
        None
    }
}

pub fn index_by_name(list: &Vec<UploaderConfigItem>, name: &str) -> (r: Option<usize>)
    ensures
        match r {
            Some(i) => first_index(list@, name_is(name@)) == Some(i as int),
            None => first_index(list@, name_is(name@)) is None,
        },
{
    let n = chars_of(name);
    let mut i: usize = 0;
    while i < list.len()
        invariant
            i <= list.len(),
            n@ == name@,
            forall|j: int| 0 <= j < i ==> !name_is(name@)(#[trigger] list@[j]),
        decreases list.len() - i,
    {
        let c = chars_of(list[i].config_name.as_str());
        if chars_eq_ic(&c, &n) {
            proof {
                lemma_first_index_is(list@, name_is(name@), i as int);
            }
            return Some(i);
        }
        i = i + 1;
    }
    proof {
        lemma_first_index_none(list@, name_is(name@));
    }
    None
}

pub fn index_by_id(list: &Vec<UploaderConfigItem>, id: &str) -> (r: Option<usize>)
    ensures
        match r {
            Some(i) => first_index(list@, id_is(id@)) == Some(i as int),
            None => first_index(list@, id_is(id@)) is None,
        },
{
    let n = chars_of(id);
    let mut i: usize = 0;
    while i < list.len()
        invariant
            i <= list.len(),
            n@ == id@,
            forall|j: int| 0 <= j < i ==> !id_is(id@)(#[trigger] list@[j]),
        decreases list.len() - i,
    {
        let c = chars_of(list[i].id.as_str());
        if chars_eq(&c, &n) {
            proof {
                lemma_first_index_is(list@, id_is(id@), i as int);
            }
            return Some(i);
        }
        i = i + 1;
    }
    proof {
        lemma_first_index_none(list@, id_is(id@));
    }
    None
}

impl UploaderTypeConfigs {
    pub fn new() -> (r: Self)
        ensures
            r.config_list@.len() == 0,
            r.default_id@.len() == 0,
    {
        UploaderTypeConfigs { config_list: Vec::new(), default_id: String::new() }
    }

    /// Position of the active config.
    pub fn active_position(&self) -> (r: Option<usize>)
        ensures
            match r {
                Some(i) => active_index(self.config_list@, self.default_id@) == Some(i as int),
                None => active_index(self.config_list@, self.default_id@) is None,
            },
    {
        if self.default_id.as_str().unicode_len() > 0 {
            if let Some(i) = index_by_id(&self.config_list, self.default_id.as_str()) {
                return Some(i);
            }
        }
        if self.config_list.len() > 0 {
            Some(0)
        } else {
            None
        }
    }

    /// The active config: the one `defaultId` names, or the first one.
    pub fn active(&self) -> (r: Option<&UploaderConfigItem>)
        ensures
            match active_index(self.config_list@, self.default_id@) {
                Some(i) => r == Some(&self.config_list@[i]),
                None => r is None,
            },
    {
        match self.active_position() {
            Some(i) => {
                proof {
                    lemma_first_index(self.config_list@, id_is(self.default_id@));
                }
                Some(&self.config_list[i])
            },
            None => None,
        }
    }

    /// The first config with the given name, ignoring ASCII case.
    pub fn find_by_name(&self, name: &str) -> (r: Option<&UploaderConfigItem>)
        ensures
            match first_index(self.config_list@, name_is(name@)) {
                Some(i) => r == Some(&self.config_list@[i]),
                None => r is None,
            },
    {
        match index_by_name(&self.config_list, name) {
            Some(i) => {
                proof {
                    lemma_first_index(self.config_list@, name_is(name@));
                }
                Some(&self.config_list[i])
            },
            None => None,
        }
    }

    /// The first config with the given id.
    pub fn find_by_id(&self, id: &str) -> (r: Option<&UploaderConfigItem>)
        ensures
            match first_index(self.config_list@, id_is(id@)) {
                Some(i) => r == Some(&self.config_list@[i]),
                None => r is None,
            },
    {
        match index_by_id(&self.config_list, id) {
            Some(i) => {
                proof {
                    lemma_first_index(self.config_list@, id_is(id@));
                }
                Some(&self.config_list[i])
            },
            None => None,
        }
    }
}

/// The fields of the active config of a type, mirrored under `picBed`.
pub struct PicBedUploaderMirror {
    pub id: String,
    pub config_name: String,
    pub fields: Fields,
}

impl PicBedUploaderMirror {
    pub fn from_item(item: &UploaderConfigItem) -> (r: Self)
        ensures
            r.id == item.id,
            r.config_name == item.config_name,
            r.fields@ == item.fields@,
    {
        PicBedUploaderMirror {
            id: item.id.clone(),
            config_name: item.config_name.clone(),
            fields: copy_fields(&item.fields),
        }
    }
}

/// The mirror of `item` is what `m` holds.
pub open spec fn mirrors_item(m: PicBedUploaderMirror, item: UploaderConfigItem) -> bool {
    m.id == item.id && m.config_name == item.config_name && m.fields@ == item.fields@
}

/// PicGo's `picBed` block.
pub struct PicBedSection {
    pub current: Option<String>,
    pub uploader: Option<String>,
    pub transformer: Option<String>,
    pub proxy: Option<String>,
    pub uploader_mirrors: SortedMap<PicBedUploaderMirror>,
}

impl PicBedSection {
    pub fn new() -> (r: Self)
        ensures
            r.current is None,
            r.uploader is None,
            r.transformer is None,
            r.proxy is None,
            r.uploader_mirrors@ == Map::<Seq<char>, PicBedUploaderMirror>::empty(),
    {
        PicBedSection {
            current: None,
            uploader: None,
            transformer: None,
            proxy: None,
            uploader_mirrors: SortedMap::new(),
        }
    }
}

/// A legacy `[uploaders.<name>]` entry.
pub struct UploaderSection {
    /// Built-in kind.
    pub kind: UploaderKind,
    /// Display name / alias used by the PicGo compatibility layer.
    pub alias: Option<String>,
    /// Free-form fields per uploader type.
    pub fields: Fields,
}

/// `b` is section `a` with every secret field's value replaced by the text
/// `<redacted>`, and everything else kept.
pub open spec fn section_redacted(a: UploaderSection, b: UploaderSection) -> bool {
    &&& b.kind == a.kind
    &&& b.alias == a.alias
    &&& b.fields@.dom() == a.fields@.dom()
    &&& forall|k: Seq<char>|
        #[trigger] b.fields@.contains_key(k) ==> if is_secret_key(k) {
            b.fields@[k] is Text && value_text(b.fields@[k]) == "<redacted>"@
        } else {
            b.fields@[k] == a.fields@[k]
        }
}

impl UploaderSection {
    /// Replace every field whose lower-cased name contains a secret word
    /// with the text `<redacted>`.
    pub fn redact_secrets(&mut self)
        ensures
            section_redacted(*old(self), *final(self)),
    {
        let f = redact_fields(&self.fields);
        self.fields = f;
    }

    /// A field's text with `$VAR` / `${VAR}` references expanded.
    pub fn resolve_string(&self, key: &str, env: &Env) -> (r: Option<String>)
        ensures
            match r {
                Some(s) => spec_resolved(self.fields@, key@, env@) == Some(s@),
                None => spec_resolved(self.fields@, key@, env@) is None,
            },
    {
        resolve_field(&self.fields, key, env)
    }

    /// A field's text, or an empty string when the field is absent.
    pub fn string_field(&self, key: &str) -> (r: String)
        ensures
            r@ == spec_string_field(self.fields@, key@),
    {
        string_field_of(&self.fields, key)
    }

    /// A field's text, when present.
    pub fn field(&self, key: &str) -> (r: Option<String>)
        ensures
            match r {
                Some(s) => spec_field(self.fields@, key@) == Some(s@),
                None => spec_field(self.fields@, key@) is None,
            },
    {
        field_text(&self.fields, key)
    }
}

/// Rename / path-template settings.
pub struct RenameSection {
    pub strategy: RenameStrategy,
    /// Optional path template; overrides `strategy` when set.
    pub path: Option<String>,
    /// Keep the source file name (like `RenameStrategy::DateName`).
    pub keep_original_name: bool,
}

pub open spec fn spec_effective_template(r: RenameSection) -> Seq<char> {
    match r.path {
        Some(p) => p@,
        None => if r.keep_original_name {
            "images/{yyyy}/{mm}/{dd}/{name}.{ext}"@
        } else {
            spec_strategy_template(r.strategy)
        },
    }
}

impl Default for RenameSection {
    fn default() -> (r: Self)
        ensures
            r.strategy is DateHash,
            r.path is None,
            !r.keep_original_name,
    {
        RenameSection { strategy: RenameStrategy::DateHash, path: None, keep_original_name: false }
    }
}

impl RenameSection {
    /// The template in effect: `path` wins, then `keep_original_name`, then
    /// the strategy's template.
    pub fn effective_template(&self) -> (r: String)
        ensures
            r@ == spec_effective_template(*self),
    {
        if let Some(p) = &self.path {
            return p.clone();
        }
        if self.keep_original_name {
            return own("images/{yyyy}/{mm}/{dd}/{name}.{ext}");
        }
        own(self.strategy.template())
    }
}

/// Per-format output templates.
pub struct FormatSection {
    pub markdown: Option<String>,
    pub html: Option<String>,
    pub jsx: Option<String>,
    pub url: Option<String>,
}

pub open spec fn spec_template_for(f: FormatSection, format: OutputFormat) -> Option<Seq<char>> {
    let o = match format {
        OutputFormat::Markdown => f.markdown,
        OutputFormat::Html => f.html,
        OutputFormat::Jsx => f.jsx,
        OutputFormat::Url => f.url,
        OutputFormat::Json => None,
    };
    match o {
        Some(s) => Some(s@),
        None => None,
    }
}

impl FormatSection {
    pub fn new() -> (r: Self)
        ensures
            r.markdown is None && r.html is None && r.jsx is None && r.url is None,
    {
        FormatSection { markdown: None, html: None, jsx: None, url: None }
    }

    /// The custom template configured for a format.
    pub fn template_for(&self, format: OutputFormat) -> (r: Option<&str>)
        ensures
            match r {
                Some(s) => spec_template_for(*self, format) == Some(s@),
                None => spec_template_for(*self, format) is None,
            },
    {
        let o = match format {
            OutputFormat::Markdown => &self.markdown,
            OutputFormat::Html => &self.html,
            OutputFormat::Jsx => &self.jsx,
            OutputFormat::Url => &self.url,
            OutputFormat::Json => return None,
        };
        match o {
            Some(s) => Some(s.as_str()),
            None => None,
        }
    }
}

/// Top-level zpic config file.
pub struct ZpicConfigFile {
    /// Legacy: name of the default entry under `[uploaders.<name>]`.
    pub default_uploader: Option<String>,
    pub default_format: OutputFormat,
    pub copy_after_upload: bool,
    pub history_enabled: bool,
    pub rename: RenameSection,
    pub format: FormatSection,
    /// Legacy named uploaders, migrated into `uploader` on load.
    pub uploaders: SortedMap<UploaderSection>,
    pub pic_bed: PicBedSection,
    /// `uploader.<type>`: the configs of each uploader type.
    pub uploader: SortedMap<UploaderTypeConfigs>,
    pub picgo_plugins: SortedMap<bool>,
}

/// The active uploader type: `picBed.current`, else `picBed.uploader`.
pub open spec fn spec_active_type(c: ZpicConfigFile) -> Option<Seq<char>> {
    match c.pic_bed.current {
        Some(s) => Some(s@),
        None => match c.pic_bed.uploader {
            Some(s) => Some(s@),
            None => None,
        },
    }
}

impl Default for ZpicConfigFile {
    fn default() -> (r: Self)
        ensures
            r.default_uploader is None,
            r.default_format == OutputFormat::Markdown,
            !r.copy_after_upload,
            r.history_enabled,
            r.uploaders@ == Map::<Seq<char>, UploaderSection>::empty(),
            r.uploader@ == Map::<Seq<char>, UploaderTypeConfigs>::empty(),
            r.pic_bed.current is None,
            r.pic_bed.uploader is None,
            r.pic_bed.uploader_mirrors@ == Map::<Seq<char>, PicBedUploaderMirror>::empty(),
            r.rename.strategy is DateHash,
            r.rename.path is None,
            !r.rename.keep_original_name,
            r.format.markdown is None && r.format.html is None && r.format.jsx is None
                && r.format.url is None,
            r.picgo_plugins@ == Map::<Seq<char>, bool>::empty(),
    {
        ZpicConfigFile {
            default_uploader: None,
            default_format: OutputFormat::Markdown,
            copy_after_upload: false,
            history_enabled: true,
            rename: RenameSection::default(),
            format: FormatSection::new(),
            uploaders: SortedMap::new(),
            pic_bed: PicBedSection::new(),
            uploader: SortedMap::new(),
            picgo_plugins: SortedMap::new(),
        }
    }
}

impl ZpicConfigFile {
    /// Redact the secrets of every legacy uploader section, for showing the
    /// config: each keeps its name, kind, alias and fields, with every
    /// secret field's value replaced by `<redacted>`. Nothing else changes.
    pub fn redact_secrets(&mut self)
        ensures
            final(self).uploaders@.dom() == old(self).uploaders@.dom(),
            forall|k: Seq<char>|
                #[trigger] old(self).uploaders@.contains_key(k) ==> section_redacted(
                    old(self).uploaders@[k],
                    final(self).uploaders@[k],
                ),
            final(self).default_uploader == old(self).default_uploader,
            final(self).default_format == old(self).default_format,
            final(self).copy_after_upload == old(self).copy_after_upload,
            final(self).history_enabled == old(self).history_enabled,
            final(self).rename == old(self).rename,
            final(self).format == old(self).format,
            final(self).pic_bed == old(self).pic_bed,
            final(self).uploader == old(self).uploader,
            final(self).picgo_plugins == old(self).picgo_plugins,
    {
        let ghost a = self.uploaders@;
        let ghost orig = *self;
        self.uploaders.check();
        let ghost s0 = self.uploaders.seq();
        let n = self.uploaders.len();
        let mut keys: Vec<String> = Vec::new();
        let mut i: usize = 0;
        while i < n
            invariant
                n == s0.len(),
                s0 == self.uploaders.seq(),
                i <= n,
                keys@.len() == i,
                forall|j: int| 0 <= j < i ==> #[trigger] keys@[j]@ == s0[j].0,
            decreases n - i,
        {
            keys.push(self.uploaders.key_at(i).clone());
            i = i + 1;
        }
        let mut i: usize = 0;
        while i < n
            invariant
                n == keys@.len(),
                i <= n,
                self.uploaders@.dom() == a.dom(),
                forall|j: int| 0 <= j < n ==> #[trigger] keys@[j]@ == s0[j].0,
                forall|j: int| 0 <= j < n ==> a.contains_key(#[trigger] s0[j].0),
                forall|j: int|
                    0 <= j < i ==> section_redacted(a[#[trigger] keys@[j]@], self.uploaders@[keys@[j]@]),
                forall|k: Seq<char>|
                    #[trigger] a.contains_key(k) ==> self.uploaders@[k] == a[k] || section_redacted(
                        a[k],
                        self.uploaders@[k],
                    ),
                self.default_uploader == orig.default_uploader,
                self.default_format == orig.default_format,
                self.copy_after_upload == orig.copy_after_upload,
                self.history_enabled == orig.history_enabled,
                self.rename == orig.rename,
                self.format == orig.format,
                self.pic_bed == orig.pic_bed,
                self.uploader == orig.uploader,
                self.picgo_plugins == orig.picgo_plugins,
            decreases n - i,
        {
            let key = keys[i].clone();
            let ghost before = self.uploaders@;
            assert(a.contains_key(s0[i as int].0));
            match self.uploaders.remove(key.as_str()) {
                Some(mut section) => {
                    let ghost s_old = section;
                    section.redact_secrets();
                    self.uploaders.insert(key, section);
                    proof {
                        assert(self.uploaders@ == before.insert(keys@[i as int]@, section));
                        assert(self.uploaders@.dom() =~= a.dom());
                        let kk = keys@[i as int]@;
                        assert(section_redacted(a[kk], section)) by {
                            if s_old != a[kk] {
                                assert(section_redacted(a[kk], s_old));
                            }
                        }
                        assert forall|j: int| 0 <= j < i + 1 implies section_redacted(
                            a[#[trigger] keys@[j]@],
                            self.uploaders@[keys@[j]@],
                        ) by {
                            if keys@[j]@ != kk {
                                assert(self.uploaders@[keys@[j]@] == before[keys@[j]@]);
                            }
                        }
                        assert forall|k: Seq<char>| #[trigger] a.contains_key(k) implies self.uploaders@[k]
                            == a[k] || section_redacted(a[k], self.uploaders@[k]) by {
                            if k != kk {
                                assert(self.uploaders@[k] == before[k]);
                            }
                        }
                    }
                },
                None => {},
            }
            i = i + 1;
        }
        proof {
            assert forall|k: Seq<char>| #[trigger] a.contains_key(k) implies section_redacted(
                a[k],
                self.uploaders@[k],
            ) by {
                let j = choose|j: int| 0 <= j < s0.len() && #[trigger] s0[j].0 == k;
                assert(keys@[j]@ == k);
            }
        }
    }

    /// The active uploader type: `picBed.current`, else `picBed.uploader`.
    pub fn active_uploader_type(&self) -> (r: Option<&str>)
        ensures
            match r {
                Some(s) => spec_active_type(*self) == Some(s@),
                None => spec_active_type(*self) is None,
            },
    {
        match &self.pic_bed.current {
            Some(s) => Some(s.as_str()),
            None => match &self.pic_bed.uploader {
                Some(s) => Some(s.as_str()),
                None => None,
            },
        }
    }
}

} // verus!
