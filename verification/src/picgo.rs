//! PicGo configuration files and their conversion into the native layout.
//!
//! PicGo keeps its settings in `~/.picgo/config.json` (PicGo-Core) or in a
//! per-OS data file (the GUI); both have the same shape. The JSON is parsed
//! outside the library and reaches it as the plain values below. PicGo's
//! Node plugins are never run: only `picBed`, `uploader` and `picgoPlugins`
//! are read.

use vstd::prelude::*;

use crate::config::{
    active_index, mirrors_item, PicBedSection, PicBedUploaderMirror, UploaderConfigItem,
    UploaderTypeConfigs, ZpicConfigFile,
};
use crate::error::ZpicError;
use crate::fields::{FieldValue, Fields};
use crate::kinds::{spec_from_alias, OutputFormat, RenameStrategy, UploaderKind};
use crate::seqs::{first_index, lemma_first_index};
use crate::smap::{least_key, lemma_prefix_lacks, map_of, sorted_keys, SortedMap};
use crate::stamp::{new_id, now_ms};
use crate::text::{chars_eq, chars_of, eq_ic, opt_view, own, str_eq_ic, trim, trim_str};

verus! {

/// A JSON value of a PicGo file. Floats, arrays and objects arrive with
/// the TOML text they convert to, or with none when they hold a `null`
/// somewhere (such a value has no TOML form).
#[derive(Debug)]
pub enum PicGoValue {
    Null,
    Bool(bool),
    Integer(i64),
    Str(String),
    Composite(Option<String>),
}

/// The settings block of one uploader under `picBed`.
pub struct PicGoUploaderBlock {
    pub fields: SortedMap<PicGoValue>,
}

/// PicGo's `picBed` block: the active uploader and one block per uploader.
pub struct PicBed {
    pub current: Option<String>,
    pub uploader: Option<String>,
    pub transformer: Option<String>,
    pub proxy: Option<String>,
    pub uploaders: SortedMap<PicGoUploaderBlock>,
}

/// One named config of PicGo's multi-config `uploader.<type>.configList`.
pub struct PicGoUploaderConfigItem {
    pub id: String,
    pub config_name: String,
    pub created_at: i64,
    pub updated_at: i64,
    pub fields: SortedMap<PicGoValue>,
}

/// PicGo's `uploader.<type>` block.
pub struct PicGoUploaderTypeConfigs {
    pub config_list: Vec<PicGoUploaderConfigItem>,
    pub default_id: String,
}

/// A PicGo config file.
pub struct PicGoConfig {
    pub pic_bed: Option<PicBed>,
    pub uploader: SortedMap<PicGoUploaderTypeConfigs>,
    /// The entries of `picgoPlugins` when it is an object.
    pub picgo_plugins: Option<SortedMap<PicGoValue>>,
}

// ------------------------------------------------------------------
// Reading a PicGo config
// ------------------------------------------------------------------

/// The active uploader: `picBed.current`, else `picBed.uploader`.
pub open spec fn spec_picgo_active(c: PicGoConfig) -> Option<Seq<char>> {
    match c.pic_bed {
        Some(bed) => match bed.current {
            Some(s) => Some(s@),
            None => opt_view(bed.uploader),
        },
        None => None,
    }
}

/// Matches a PicGo config item by id.
pub open spec fn picgo_id_is(id: Seq<char>) -> spec_fn(PicGoUploaderConfigItem) -> bool {
    |it: PicGoUploaderConfigItem| it.id@ == id
}

/// The active item of a PicGo type block: the one `defaultId` names, else
/// the first.
pub open spec fn picgo_active_index(list: Seq<PicGoUploaderConfigItem>, default_id: Seq<char>) -> Option<int> {
    if default_id.len() > 0 && first_index(list, picgo_id_is(default_id)) is Some {
        first_index(list, picgo_id_is(default_id))
    } else if list.len() > 0 {
        Some(0)
    } else {
        None
    }
}

impl PicGoUploaderBlock {
    /// A field's value when it is a string.
    pub fn string(&self, key: &str) -> (r: Option<String>)
        ensures
            match r {
                Some(s) => self.fields@.contains_key(key@) && (self.fields@[key@] matches PicGoValue::Str(v) && v@ == s@),
                None => !(self.fields@.contains_key(key@) && self.fields@[key@] is Str),
            },
    {
        match self.fields.get(key) {
            Some(PicGoValue::Str(s)) => Some(s.clone()),
            _ => None,
        }
    }
}

impl PicGoUploaderTypeConfigs {
    /// The active config: the one `defaultId` names, else the first.
    pub fn active(&self) -> (r: Option<&PicGoUploaderConfigItem>)
        ensures
            match picgo_active_index(self.config_list@, self.default_id@) {
                Some(i) => r == Some(&self.config_list@[i]),
                None => r is None,
            },
    {
        if self.default_id.as_str().unicode_len() > 0 {
            let want = chars_of(self.default_id.as_str());
            let mut i: usize = 0;
            while i < self.config_list.len()
                invariant
                    i <= self.config_list.len(),
                    want@ == self.default_id@,
                    self.default_id@.len() > 0,
                    forall|j: int| 0 <= j < i ==> !picgo_id_is(self.default_id@)(#[trigger] self.config_list@[j]),
                decreases self.config_list.len() - i,
            {
                let c = chars_of(self.config_list[i].id.as_str());
                if chars_eq(&c, &want) {
                    proof {
                        crate::seqs::lemma_first_index_is(self.config_list@, picgo_id_is(self.default_id@), i as int);
                    }
                    return Some(&self.config_list[i]);
                }
                i = i + 1;
            }
            proof {
                crate::seqs::lemma_first_index_none(self.config_list@, picgo_id_is(self.default_id@));
            }
        }
        if self.config_list.len() > 0 {
            Some(&self.config_list[0])
        } else {
            None
        }
    }
}

impl PicGoConfig {
    /// The active uploader: `picBed.current`, falling back to
    /// `picBed.uploader` as older PicGo versions write it.
    pub fn active_uploader(&self) -> (r: Option<&str>)
        ensures
            match r {
                Some(s) => spec_picgo_active(*self) == Some(s@),
                None => spec_picgo_active(*self) is None,
            },
    {
        match &self.pic_bed {
            Some(bed) => match &bed.current {
                Some(s) => Some(s.as_str()),
                None => match &bed.uploader {
                    Some(s) => Some(s.as_str()),
                    None => None,
                },
            },
            None => None,
        }
    }

    /// The `picBed` block of an uploader.
    pub fn block(&self, name: &str) -> (r: Option<&PicGoUploaderBlock>)
        ensures
            match self.pic_bed {
                Some(bed) => match r {
                    Some(b) => bed.uploaders@.contains_key(name@) && *b == bed.uploaders@[name@],
                    None => !bed.uploaders@.contains_key(name@),
                },
                None => r is None,
            },
    {
        match &self.pic_bed {
            Some(bed) => bed.uploaders.get(name),
            None => None,
        }
    }

    /// The built-in kind of the active uploader, when zpic supports it.
    pub fn active_kind(&self) -> (r: Option<UploaderKind>)
        ensures
            r == match spec_picgo_active(*self) {
                Some(n) => spec_from_alias(n),
                None => None,
            },
    {
        match self.active_uploader() {
            Some(name) => UploaderKind::from_alias(name),
            None => None,
        }
    }

    /// The active uploader exists only as a PicGo plugin (no built-in kind
    /// answers to its name).
    pub fn is_unsupported_plugin(&self) -> (r: bool)
        ensures
            r == match spec_picgo_active(*self) {
                Some(n) => spec_from_alias(n) is None,
                None => false,
            },
    {
        match self.active_uploader() {
            None => false,
            Some(name) => UploaderKind::from_alias(name).is_none(),
        }
    }

    /// The active uploader's name, when zpic supports it.
    pub fn ensure_supported(&self) -> (r: Result<&str, ZpicError>)
        ensures
            match spec_picgo_active(*self) {
                None => r matches Err(ZpicError::ConfigInvalid(m)) && m@ == "picBed.current is missing"@,
                Some(n) => if spec_from_alias(n) is None {
                    r matches Err(ZpicError::UploaderUnsupported(m)) && m@ == n
                } else {
                    r matches Ok(s) && s@ == n
                },
            },
    {
        let name = match self.active_uploader() {
            Some(n) => n,
            None => return Err(ZpicError::ConfigInvalid(own("picBed.current is missing"))),
        };
        if self.is_unsupported_plugin() {
            return Err(ZpicError::UploaderUnsupported(own(name)));
        }
        Ok(name)
    }
}

// ------------------------------------------------------------------
// Field conversion
// ------------------------------------------------------------------

/// The TOML value a JSON value becomes; `null` (anywhere in it) has none.
pub open spec fn spec_to_field(v: PicGoValue) -> Option<FieldValue> {
    match v {
        PicGoValue::Null => None,
        PicGoValue::Bool(b) => Some(FieldValue::Boolean(b)),
        PicGoValue::Integer(i) => Some(FieldValue::Integer(i)),
        PicGoValue::Str(s) => Some(FieldValue::Text(s)),
        PicGoValue::Composite(t) => match t {
            Some(text) => Some(FieldValue::Other(text)),
            None => None,
        },
    }
}

/// Keys of `picBed` itself, never uploader fields.
pub open spec fn is_bed_key(k: Seq<char>) -> bool {
    k == "current"@ || k == "uploader"@ || k == "transformer"@ || k == "proxy"@
}

/// The uploader fields a JSON object becomes: every key but `picBed`'s own
/// whose value has a TOML form.
pub open spec fn spec_json_fields(m: Map<Seq<char>, PicGoValue>) -> Map<Seq<char>, FieldValue> {
    Map::new(
        |k: Seq<char>| m.contains_key(k) && !is_bed_key(k) && spec_to_field(m[k]) is Some,
        |k: Seq<char>| spec_to_field(m[k]).unwrap(),
    )
}

/// `m` with the value under `from` moved to `to`.
pub open spec fn spec_rename_key(m: Map<Seq<char>, FieldValue>, from: Seq<char>, to: Seq<char>) -> Map<Seq<char>, FieldValue> {
    if m.contains_key(from) {
        m.remove(from).insert(to, m[from])
    } else {
        m
    }
}

/// PicGo field names mapped to zpic's: `customUrl` becomes
/// `public_base_url`, `path` becomes `path_prefix`, and PicGo's bookkeeping
/// keys are dropped.
pub open spec fn spec_normalized(m: Map<Seq<char>, FieldValue>) -> Map<Seq<char>, FieldValue> {
    spec_rename_key(spec_rename_key(m, "customUrl"@, "public_base_url"@), "path"@, "path_prefix"@)
        .remove("_id"@).remove("_configName"@).remove("_createdAt"@).remove("_updatedAt"@)
}

/// The TOML value of a JSON value.
pub fn json_to_toml(v: &PicGoValue) -> (r: Option<FieldValue>)
    ensures
        r == spec_to_field(*v),
{
    match v {
        PicGoValue::Null => None,
        PicGoValue::Bool(b) => Some(FieldValue::Boolean(*b)),
        PicGoValue::Integer(i) => Some(FieldValue::Integer(*i)),
        PicGoValue::Str(s) => Some(FieldValue::Text(s.clone())),
        PicGoValue::Composite(t) => match t {
            Some(text) => Some(FieldValue::Other(text.clone())),
            None => None,
        },
    }
}

fn bed_key(k: &str) -> (r: bool)
    ensures
        r == is_bed_key(k@),
{
    let c = chars_of(k);
    chars_eq(&c, &chars_of("current")) || chars_eq(&c, &chars_of("uploader")) || chars_eq(
        &c,
        &chars_of("transformer"),
    ) || chars_eq(&c, &chars_of("proxy"))
}

/// The uploader fields of a JSON object.
pub fn json_object_to_toml_map(values: &SortedMap<PicGoValue>) -> (r: Fields)
    ensures
        r@ == spec_json_fields(values@),
{
    let mut out: Fields = SortedMap::new();
    let n = values.len();
    let mut i: usize = 0;
    values.check();
    assert(spec_json_fields(map_of(values.seq().subrange(0, 0))) =~= Map::<Seq<char>, FieldValue>::empty());
    while i < n
        invariant
            n == values.seq().len(),
            i <= n,
            sorted_keys(values.seq()),
            out@ == spec_json_fields(map_of(values.seq().subrange(0, i as int))),
        decreases n - i,
    {
        let k = values.key_at(i);
        let v = values.value_at(i);
        let ghost m = map_of(values.seq().subrange(0, i as int));
        proof {
            lemma_prefix_lacks(values.seq(), i as int);
        }
        if !bed_key(k.as_str()) {
            match json_to_toml(v) {
                Some(f) => {
                    out.insert(k.clone(), f);
                    proof {
                        assert(out@ =~= spec_json_fields(m.insert(k@, *v)));
                    }
                },
                None => {
                    proof {
                        assert(out@ =~= spec_json_fields(m.insert(k@, *v)));
                    }
                },
            }
        } else {
            proof {
                assert(out@ =~= spec_json_fields(m.insert(k@, *v)));
            }
        }
        i = i + 1;
    }
    assert(values.seq().subrange(0, n as int) =~= values.seq());
    out
}

fn rename_key(fields: &mut Fields, from: &str, to: &str)
    ensures
        final(fields)@ == spec_rename_key(old(fields)@, from@, to@),
{
    match fields.remove(from) {
        Some(v) => {
            fields.insert(own(to), v);
        },
        None => {},
    }
}

/// PicGo field names mapped to zpic's.
pub fn normalize_picgo_fields(fields: Fields) -> (r: Fields)
    ensures
        r@ == spec_normalized(fields@),
{
    let mut f = fields;
    rename_key(&mut f, "customUrl", "public_base_url");
    rename_key(&mut f, "path", "path_prefix");
    f.remove("_id");
    f.remove("_configName");
    f.remove("_createdAt");
    f.remove("_updatedAt");
    f
}

// ------------------------------------------------------------------
// Converting configs
// ------------------------------------------------------------------

/// The config name given to a config made from a `picBed` block.
pub open spec fn spec_default_import_name(active: Seq<char>, kind: Option<UploaderKind>) -> Seq<char> {
    match kind {
        Some(UploaderKind::S3) => if eq_ic(active, "s3"@) {
            "Default"@
        } else {
            active
        },
        _ => "Default"@,
    }
}

/// The config name given to a config made from a `picBed` block: the
/// uploader's own name for S3-compatible aliases other than `s3`, else
/// `Default`.
pub fn default_import_name(active: &str, kind: Option<UploaderKind>) -> (r: String)
    ensures
        r@ == spec_default_import_name(active@, kind),
{
    match kind {
        Some(UploaderKind::S3) => if str_eq_ic(active, "s3") {
            own("Default")
        } else {
            own(active)
        },
        _ => own("Default"),
    }
}

/// `dst` is what `src` converts to. A missing id gets a fresh one and
/// missing timestamps get the current time, so of those only what holds
/// for every fresh value is stated.
pub open spec fn item_converted(src: PicGoUploaderConfigItem, dst: UploaderConfigItem) -> bool {
    &&& src.id@.len() > 0 ==> dst.id@ == src.id@
    &&& dst.config_name@ == if trim(src.config_name@).len() == 0 {
        "Default"@
    } else {
        src.config_name@
    }
    &&& src.created_at != 0 ==> dst.created_at == src.created_at
    &&& src.updated_at != 0 ==> dst.updated_at == src.updated_at
    &&& src.created_at == 0 && src.updated_at == 0 ==> dst.created_at == dst.updated_at
    &&& dst.fields@ == spec_normalized(spec_json_fields(src.fields@))
}

/// `dst` is what the PicGo type block `src` converts to.
pub open spec fn type_converted(src: PicGoUploaderTypeConfigs, dst: UploaderTypeConfigs) -> bool {
    &&& dst.config_list@.len() == src.config_list@.len()
    &&& forall|i: int|
        0 <= i < src.config_list@.len() ==> item_converted(
            #[trigger] src.config_list@[i],
            dst.config_list@[i],
        )
    &&& dst.default_id@ == if src.default_id@.len() > 0 {
        src.default_id@
    } else if dst.config_list@.len() > 0 {
        dst.config_list@[0].id@
    } else {
        seq![]
    }
}

/// One PicGo config item in the native layout.
pub fn convert_picgo_config_item(item: &PicGoUploaderConfigItem) -> (r: UploaderConfigItem)
    ensures
        item_converted(*item, r),
{
    let now = now_ms();
    let trimmed = trim_str(item.config_name.as_str());
    UploaderConfigItem {
        id: if item.id.as_str().unicode_len() == 0 {
            new_id()
        } else {
            item.id.clone()
        },
        config_name: if trimmed.as_str().unicode_len() == 0 {
            own("Default")
        } else {
            item.config_name.clone()
        },
        created_at: if item.created_at == 0 {
            now
        } else {
            item.created_at
        },
        updated_at: if item.updated_at == 0 {
            now
        } else {
            item.updated_at
        },
        fields: normalize_picgo_fields(json_object_to_toml_map(&item.fields)),
    }
}

/// A PicGo type block in the native layout; an empty `defaultId` points at
/// the first config.
pub fn convert_picgo_type_configs(configs: &PicGoUploaderTypeConfigs) -> (r: UploaderTypeConfigs)
    ensures
        type_converted(*configs, r),
{
    let mut list: Vec<UploaderConfigItem> = Vec::new();
    let mut i: usize = 0;
    while i < configs.config_list.len()
        invariant
            i <= configs.config_list.len(),
            list@.len() == i,
            forall|j: int| 0 <= j < i ==> item_converted(#[trigger] configs.config_list@[j], list@[j]),
        decreases configs.config_list.len() - i,
    {
        let item = convert_picgo_config_item(&configs.config_list[i]);
        list.push(item);
        i = i + 1;
    }
    let default_id = if configs.default_id.as_str().unicode_len() > 0 {
        configs.default_id.clone()
    } else if list.len() > 0 {
        list[0].id.clone()
    } else {
        String::new()
    };
    UploaderTypeConfigs { config_list: list, default_id }
}

/// The type blocks of PicGo's `uploader` map that hold configs, converted.
pub open spec fn types_converted(src: Map<Seq<char>, PicGoUploaderTypeConfigs>, dst: Map<Seq<char>, UploaderTypeConfigs>) -> bool {
    &&& forall|k: Seq<char>|
        #[trigger] dst.contains_key(k) <==> (src.contains_key(k) && src[k].config_list@.len() > 0)
    &&& forall|k: Seq<char>| #[trigger] dst.contains_key(k) ==> type_converted(src[k], dst[k])
}

fn convert_types(src: &SortedMap<PicGoUploaderTypeConfigs>) -> (r: SortedMap<UploaderTypeConfigs>)
    ensures
        types_converted(src@, r@),
{
    let mut out: SortedMap<UploaderTypeConfigs> = SortedMap::new();
    let n = src.len();
    let mut i: usize = 0;
    src.check();
    while i < n
        invariant
            n == src.seq().len(),
            i <= n,
            sorted_keys(src.seq()),
            types_converted(map_of(src.seq().subrange(0, i as int)), out@),
        decreases n - i,
    {
        let k = src.key_at(i);
        let v = src.value_at(i);
        let ghost m = map_of(src.seq().subrange(0, i as int));
        proof {
            lemma_prefix_lacks(src.seq(), i as int);
        }
        let converted = convert_picgo_type_configs(v);
        if converted.config_list.len() > 0 {
            out.insert(k.clone(), converted);
        }
        proof {
            let m2 = m.insert(k@, *v);
            assert forall|q: Seq<char>| #[trigger] out@.contains_key(q) <==> (m2.contains_key(q)
                && m2[q].config_list@.len() > 0) by {
                if q != k@ {
                    assert(m2.contains_key(q) == m.contains_key(q));
                }
            }
            assert forall|q: Seq<char>| #[trigger] out@.contains_key(q) implies type_converted(m2[q], out@[q]) by {
                if q != k@ {
                    assert(m.contains_key(q));
                }
            }
        }
        i = i + 1;
    }
    assert(src.seq().subrange(0, n as int) =~= src.seq());
    out
}

/// The mirror of every type that has an active config.
pub open spec fn mirrors_of(types: Map<Seq<char>, UploaderTypeConfigs>, mirrors: Map<Seq<char>, PicBedUploaderMirror>) -> bool {
    &&& forall|k: Seq<char>|
        #[trigger] mirrors.contains_key(k) <==> (types.contains_key(k) && active_index(
            types[k].config_list@,
            types[k].default_id@,
        ) is Some)
    &&& forall|k: Seq<char>|
        #[trigger] mirrors.contains_key(k) ==> mirrors_item(
            mirrors[k],
            types[k].config_list@[active_index(types[k].config_list@, types[k].default_id@).unwrap()],
        )
}

/// The `picBed` mirror of each type's active config.
pub fn mirror_active_configs(types: &SortedMap<UploaderTypeConfigs>) -> (r: SortedMap<PicBedUploaderMirror>)
    ensures
        mirrors_of(types@, r@),
{
    let mut out: SortedMap<PicBedUploaderMirror> = SortedMap::new();
    let n = types.len();
    let mut i: usize = 0;
    types.check();
    while i < n
        invariant
            n == types.seq().len(),
            i <= n,
            sorted_keys(types.seq()),
            mirrors_of(map_of(types.seq().subrange(0, i as int)), out@),
        decreases n - i,
    {
        let k = types.key_at(i);
        let v = types.value_at(i);
        let ghost m = map_of(types.seq().subrange(0, i as int));
        proof {
            lemma_prefix_lacks(types.seq(), i as int);
        }
        match v.active() {
            Some(item) => {
                out.insert(k.clone(), PicBedUploaderMirror::from_item(item));
            },
            None => {},
        }
        proof {
            let m2 = m.insert(k@, *v);
            assert forall|q: Seq<char>| #[trigger] out@.contains_key(q) <==> (m2.contains_key(q)
                && active_index(m2[q].config_list@, m2[q].default_id@) is Some) by {
                if q != k@ {
                    assert(m2.contains_key(q) == m.contains_key(q));
                }
            }
            assert forall|q: Seq<char>| #[trigger] out@.contains_key(q) implies mirrors_item(
                out@[q],
                m2[q].config_list@[active_index(m2[q].config_list@, m2[q].default_id@).unwrap()],
            ) by {
                if q != k@ {
                    assert(m.contains_key(q));
                }
            }
        }
        i = i + 1;
    }
    assert(types.seq().subrange(0, n as int) =~= types.seq());
    out
}

/// The plugin switches of `picgoPlugins`: every entry whose value is a
/// boolean.
pub open spec fn spec_plugin_switches(p: Option<SortedMap<PicGoValue>>) -> Map<Seq<char>, bool> {
    match p {
        Some(m) => Map::new(
            |k: Seq<char>| m@.contains_key(k) && m@[k] is Bool,
            |k: Seq<char>| m@[k]->Bool_0,
        ),
        None => Map::empty(),
    }
}

fn plugin_switches(p: &Option<SortedMap<PicGoValue>>) -> (r: SortedMap<bool>)
    ensures
        r@ == spec_plugin_switches(*p),
{
    let mut out: SortedMap<bool> = SortedMap::new();
    match p {
        None => {
            assert(out@ =~= spec_plugin_switches(*p));
        },
        Some(m) => {
            let n = m.len();
            let mut i: usize = 0;
            m.check();
            assert(out@ =~= Map::new(
                |k: Seq<char>| map_of(m.seq().subrange(0, 0)).contains_key(k) && map_of(m.seq().subrange(0, 0))[k] is Bool,
                |k: Seq<char>| map_of(m.seq().subrange(0, 0))[k]->Bool_0,
            ));
            while i < n
                invariant
                    n == m.seq().len(),
                    i <= n,
                    sorted_keys(m.seq()),
                    out@ == Map::new(
                        |k: Seq<char>| map_of(m.seq().subrange(0, i as int)).contains_key(k) && map_of(m.seq().subrange(0, i as int))[k] is Bool,
                        |k: Seq<char>| map_of(m.seq().subrange(0, i as int))[k]->Bool_0,
                    ),
                decreases n - i,
            {
                let k = m.key_at(i);
                let v = m.value_at(i);
                proof {
                    lemma_prefix_lacks(m.seq(), i as int);
                }
                match v {
                    PicGoValue::Bool(b) => {
                        out.insert(k.clone(), *b);
                    },
                    _ => {},
                }
                proof {
                    let mm = map_of(m.seq().subrange(0, i + 1));
                    assert(out@ =~= Map::new(
                        |q: Seq<char>| mm.contains_key(q) && mm[q] is Bool,
                        |q: Seq<char>| mm[q]->Bool_0,
                    ));
                }
                i = i + 1;
            }
            assert(m.seq().subrange(0, n as int) =~= m.seq());
        },
    }
    out
}

fn copy_opt(o: &Option<String>) -> (r: Option<String>)
    ensures
        r == *o,
{
    match o {
        Some(s) => Some(s.clone()),
        None => None,
    }
}

/// The fields of the active `picBed` block, as one native config.
fn config_from_block(active: &str, kind: Option<UploaderKind>, block: &PicGoUploaderBlock) -> (r: UploaderTypeConfigs)
    ensures
        r.config_list@.len() == 1,
        r.default_id == r.config_list@[0].id,
        r.config_list@[0].config_name@ == spec_default_import_name(active@, kind),
        r.config_list@[0].created_at == r.config_list@[0].updated_at,
        r.config_list@[0].fields@ == spec_normalized(spec_json_fields(block.fields@)),
{
    let fields = normalize_picgo_fields(json_object_to_toml_map(&block.fields));
    let now = now_ms();
    let item = UploaderConfigItem {
        id: new_id(),
        config_name: default_import_name(active, kind),
        created_at: now,
        updated_at: now,
        fields,
    };
    let id = item.id.clone();
    UploaderTypeConfigs { default_id: id, config_list: vec![item] }
}

/// The uploader types of the converted config: PicGo's multi-config blocks
/// that hold configs, else one config made from the active `picBed` block.
pub open spec fn types_from_picgo(c: PicGoConfig, dst: Map<Seq<char>, UploaderTypeConfigs>) -> bool {
    if exists|k: Seq<char>| c.uploader@.contains_key(k) && c.uploader@[k].config_list@.len() > 0 {
        types_converted(c.uploader@, dst)
    } else {
        match spec_picgo_active(c) {
            Some(name) => match c.pic_bed {
                Some(bed) => if bed.uploaders@.contains_key(name) {
                    &&& dst.dom() == set![name]
                    &&& dst[name].config_list@.len() == 1
                    &&& dst[name].default_id == dst[name].config_list@[0].id
                    &&& dst[name].config_list@[0].config_name@ == spec_default_import_name(name, spec_from_alias(name))
                    &&& dst[name].config_list@[0].created_at == dst[name].config_list@[0].updated_at
                    &&& dst[name].config_list@[0].fields@ == spec_normalized(spec_json_fields(bed.uploaders@[name].fields@))
                } else {
                    dst == Map::<Seq<char>, UploaderTypeConfigs>::empty()
                },
                None => dst == Map::<Seq<char>, UploaderTypeConfigs>::empty(),
            },
            None => dst == Map::<Seq<char>, UploaderTypeConfigs>::empty(),
        }
    }
}

/// The active type of the converted config: PicGo's `picBed.current`, else
/// `picBed.uploader`, else the first converted type in key order.
pub open spec fn converted_active(c: PicGoConfig, types: Map<Seq<char>, UploaderTypeConfigs>) -> Option<Seq<char>> {
    match c.pic_bed {
        Some(bed) => match bed.current {
            Some(s) => Some(s@),
            None => match bed.uploader {
                Some(s) => Some(s@),
                None => least_key(types),
            },
        },
        None => least_key(types),
    }
}

/// Convert a PicGo config into the native layout. PicGo's multi-config
/// `uploader.<type>` blocks are the source of truth; older files with only
/// the active `picBed.<type>` block give one config.
pub fn convert_picgo_to_zpic(picgo: &PicGoConfig) -> (out: ZpicConfigFile)
    ensures
        out.default_uploader is None,
        out.default_format == OutputFormat::Markdown,
        !out.copy_after_upload,
        out.history_enabled,
        out.rename.strategy is DateHash,
        out.rename.path is None,
        !out.rename.keep_original_name,
        out.format.markdown is None && out.format.html is None && out.format.jsx is None && out.format.url is None,
        out.uploaders@ == Map::<Seq<char>, crate::config::UploaderSection>::empty(),
        out.picgo_plugins@ == spec_plugin_switches(picgo.picgo_plugins),
        types_from_picgo(*picgo, out.uploader@),
        mirrors_of(out.uploader@, out.pic_bed.uploader_mirrors@),
        opt_view(out.pic_bed.current) == converted_active(*picgo, out.uploader@),
        opt_view(out.pic_bed.uploader) == converted_active(*picgo, out.uploader@),
        match picgo.pic_bed {
            Some(bed) => out.pic_bed.transformer == bed.transformer && out.pic_bed.proxy == bed.proxy,
            None => out.pic_bed.transformer is None && out.pic_bed.proxy is None,
        },
{
    let mut out = ZpicConfigFile::default();
    out.default_format = OutputFormat::Markdown;
    out.rename.strategy = RenameStrategy::DateHash;
    out.picgo_plugins = plugin_switches(&picgo.picgo_plugins);
    let (current, uploader, transformer, proxy) = match &picgo.pic_bed {
        Some(bed) => (copy_opt(&bed.current), copy_opt(&bed.uploader), copy_opt(&bed.transformer), copy_opt(&bed.proxy)),
        None => (None, None, None, None),
    };
    let mut types = convert_types(&picgo.uploader);
    if types.is_empty() {
        proof {
            if exists|k: Seq<char>| picgo.uploader@.contains_key(k) && picgo.uploader@[k].config_list@.len() > 0 {
                let k = choose|k: Seq<char>| picgo.uploader@.contains_key(k) && picgo.uploader@[k].config_list@.len() > 0;
                assert(types@.contains_key(k));
            }
        }
        match picgo.active_uploader() {
            Some(active) => match picgo.block(active) {
                Some(block) => {
                    let kind = picgo.active_kind();
                    let configs = config_from_block(active, kind, block);
                    types.insert(own(active), configs);
                    proof {
                        assert(types@.dom() =~= set![active@]);
                    }
                },
                None => {},
            },
            None => {},
        }
    } else {
        proof {
            if !(exists|k: Seq<char>| types@.contains_key(k)) {
                assert(types@ =~= Map::<Seq<char>, UploaderTypeConfigs>::empty());
            }
            let k = choose|k: Seq<char>| types@.contains_key(k);
            assert(picgo.uploader@.contains_key(k) && picgo.uploader@[k].config_list@.len() > 0);
        }
    }
    let mirrors = mirror_active_configs(&types);
    let first = match types.first_key() {
        Some(k) => Some(k.clone()),
        None => None,
    };
    let active = match current {
        Some(c) => Some(c),
        None => match uploader {
            Some(u) => Some(u),
            None => first,
        },
    };
    let (cur, upl) = match active {
        Some(a) => (Some(a.clone()), Some(a)),
        None => (None, None),
    };
    out.pic_bed = PicBedSection { current: cur, uploader: upl, transformer, proxy, uploader_mirrors: mirrors };
    out.uploader = types;
    out
}

} // verus!
