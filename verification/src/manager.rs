//! The PicGo-compatible CRUD layer for named uploader configurations:
//! list, use, create or update, rename, copy and remove, keeping the
//! `picBed` mirror of the active selection in sync.

use vstd::prelude::*;

use crate::config::{
    UploaderSection,
    active_index, id_is, index_by_id, index_by_name, mirrors_item, name_is,
    spec_active_type, PicBedUploaderMirror, UploaderConfigItem, UploaderTypeConfigs,
    ZpicConfigFile,
};
use crate::envvar::Env;
use crate::error::{error_view, kind_of, ErrorKind, Failure, ZpicError};
use crate::fields::{merge_fields, spec_resolved, Fields};
use crate::seqs::{
    first_index, lemma_first_index, lemma_first_index_is, lemma_first_index_none,
    lemma_first_index_push, lemma_first_index_push_new,
};
use crate::smap::{keys_of, SortedMap};
use crate::stamp::{hyphenated_uuid, new_id, now_ms};
use crate::kinds::spec_kind_name;
use crate::text::{
    chars_eq, chars_eq_ic, chars_of, join_lines, join_with_newlines, views, dec, dec_chars_wide, dec_string, push_chars, eq_ic, lower, opt_view, or_empty, own,
    push_str, str_eq, string_of, trim, trim_str,
};

verus! {

// ------------------------------------------------------------------
// Errors
// ------------------------------------------------------------------

/// What the manager refuses; each is reported as `ZpicError::ConfigInvalid`
/// with the message below.
pub enum ManagerError {
    /// The uploader type has no configs.
    UnknownType(String),
    /// `(type, name)`: no config of that name.
    ConfigNotFound(String, String),
    /// `(name, type)`: the name is taken.
    DuplicateName(String, String),
    EmptyName,
}

pub open spec fn unknown_type_message(t: Seq<char>) -> Seq<char> {
    "uploader type '"@ + t + "' is not configured"@
}

pub open spec fn not_found_message(t: Seq<char>, n: Seq<char>) -> Seq<char> {
    "config '"@ + n + "' not found in type '"@ + t + "'"@
}

pub open spec fn duplicate_message(n: Seq<char>, t: Seq<char>) -> Seq<char> {
    "config name '"@ + n + "' already exists in type '"@ + t + "'"@
}

pub open spec fn empty_name_message() -> Seq<char> {
    "config name can not be empty"@
}

pub open spec fn spec_manager_message(e: ManagerError) -> Seq<char> {
    match e {
        ManagerError::UnknownType(t) => unknown_type_message(t@),
        ManagerError::ConfigNotFound(t, n) => not_found_message(t@, n@),
        ManagerError::DuplicateName(n, t) => duplicate_message(n@, t@),
        ManagerError::EmptyName => empty_name_message(),
    }
}

impl ManagerError {
    /// The message of the error.
    pub fn message(&self) -> (r: String)
        ensures
            r@ == spec_manager_message(*self),
    {
        let mut v: Vec<char> = Vec::new();
        match self {
            ManagerError::UnknownType(t) => {
                push_str(&mut v, "uploader type '");
                push_str(&mut v, t.as_str());
                push_str(&mut v, "' is not configured");
            },
            ManagerError::ConfigNotFound(t, n) => {
                push_str(&mut v, "config '");
                push_str(&mut v, n.as_str());
                push_str(&mut v, "' not found in type '");
                push_str(&mut v, t.as_str());
                push_str(&mut v, "'");
            },
            ManagerError::DuplicateName(n, t) => {
                push_str(&mut v, "config name '");
                push_str(&mut v, n.as_str());
                push_str(&mut v, "' already exists in type '");
                push_str(&mut v, t.as_str());
                push_str(&mut v, "'");
            },
            ManagerError::EmptyName => {
                push_str(&mut v, "config name can not be empty");
            },
        }
        string_of(&v)
    }

    /// The `ZpicError` the error is reported as.
    pub fn into_error(self) -> (r: ZpicError)
        ensures
            error_view(r) == (ErrorKind::ConfigInvalid, spec_manager_message(self)),
    {
        ZpicError::ConfigInvalid(self.message())
    }
}

// ------------------------------------------------------------------
// Views of a config file
// ------------------------------------------------------------------

/// Everything outside `uploader` and the `picBed` selection is the same.
pub open spec fn settings_kept(a: ZpicConfigFile, b: ZpicConfigFile) -> bool {
    &&& a.default_uploader == b.default_uploader
    &&& a.default_format == b.default_format
    &&& a.copy_after_upload == b.copy_after_upload
    &&& a.history_enabled == b.history_enabled
    &&& a.rename == b.rename
    &&& a.format == b.format
    &&& a.uploaders == b.uploaders
    &&& a.picgo_plugins == b.picgo_plugins
    &&& a.pic_bed.transformer == b.pic_bed.transformer
    &&& a.pic_bed.proxy == b.pic_bed.proxy
}

/// The `picBed` selection (current type, uploader and mirrors) is the same.
pub open spec fn selection_kept(a: ZpicConfigFile, b: ZpicConfigFile) -> bool {
    &&& a.pic_bed.current == b.pic_bed.current
    &&& a.pic_bed.uploader == b.pic_bed.uploader
    &&& a.pic_bed.uploader_mirrors == b.pic_bed.uploader_mirrors
}

/// `b` selects type `t`: `picBed.current` and `picBed.uploader` name it.
pub open spec fn selects(b: ZpicConfigFile, t: Seq<char>) -> bool {
    opt_view(b.pic_bed.current) == Some(t) && opt_view(b.pic_bed.uploader) == Some(t)
}

/// `b`'s mirrors are `a`'s with the mirror of `t` set to `item`.
pub open spec fn mirror_set(a: ZpicConfigFile, b: ZpicConfigFile, t: Seq<char>, item: UploaderConfigItem) -> bool {
    &&& b.pic_bed.uploader_mirrors@.dom() == a.pic_bed.uploader_mirrors@.dom().insert(t)
    &&& mirrors_item(b.pic_bed.uploader_mirrors@[t], item)
    &&& forall|k: Seq<char>|
        k != t && #[trigger] a.pic_bed.uploader_mirrors@.contains_key(k)
            ==> b.pic_bed.uploader_mirrors@[k] == a.pic_bed.uploader_mirrors@[k]
}

/// Config `j` of type `t` in `b` is the type's default, holds `fields`, and
/// (when a non-blank name was asked for) carries that name up to ASCII
/// case.
pub open spec fn fields_set_at(
    b: ZpicConfigFile,
    t: Seq<char>,
    config_name: Option<&str>,
    fields: Map<Seq<char>, crate::fields::FieldValue>,
    j: int,
) -> bool {
    &&& b.uploader@.contains_key(t)
    &&& 0 <= j < b.uploader@[t].config_list@.len()
    &&& b.uploader@[t].config_list@[j].id@ == b.uploader@[t].default_id@
    &&& fields.submap_of(b.uploader@[t].config_list@[j].fields@)
    &&& match config_name {
        Some(n) => trim(n@).len() > 0 ==> eq_ic(b.uploader@[t].config_list@[j].config_name@, trim(n@)),
        None => true,
    }
}

/// Some config of type `t` in `b` is the type's default and holds
/// `fields` (named as asked, when a non-blank name was asked for).
pub open spec fn fields_set(
    b: ZpicConfigFile,
    t: Seq<char>,
    config_name: Option<&str>,
    fields: Map<Seq<char>, crate::fields::FieldValue>,
) -> bool {
    exists|j: int| #[trigger] fields_set_at(b, t, config_name, fields, j)
}

/// The item a type's store reports for an id: the first one carrying it.
pub open spec fn item_by_id(list: Seq<UploaderConfigItem>, id: Seq<char>) -> Option<UploaderConfigItem> {
    match first_index(list, id_is(id)) {
        Some(i) => Some(list[i]),
        None => None,
    }
}

/// The configs of a type, empty when the type is unknown.
pub open spec fn spec_configs(c: ZpicConfigFile, t: Seq<char>) -> Seq<UploaderConfigItem> {
    if c.uploader@.contains_key(t) {
        c.uploader@[t].config_list@
    } else {
        seq![]
    }
}

/// The active config of a type.
pub open spec fn spec_active(c: ZpicConfigFile, t: Seq<char>) -> Option<UploaderConfigItem> {
    if c.uploader@.contains_key(t) {
        match active_index(c.uploader@[t].config_list@, c.uploader@[t].default_id@) {
            Some(i) => Some(c.uploader@[t].config_list@[i]),
            None => None,
        }
    } else {
        None
    }
}

/// The first config of a type with a name, ignoring ASCII case.
pub open spec fn spec_by_name(c: ZpicConfigFile, t: Seq<char>, name: Seq<char>) -> Option<
    UploaderConfigItem,
> {
    if c.uploader@.contains_key(t) {
        match first_index(c.uploader@[t].config_list@, name_is(name)) {
            Some(i) => Some(c.uploader@[t].config_list@[i]),
            None => None,
        }
    } else {
        None
    }
}

/// The first config of a type with an id.
pub open spec fn spec_by_id(c: ZpicConfigFile, t: Seq<char>, id: Seq<char>) -> Option<
    UploaderConfigItem,
> {
    if c.uploader@.contains_key(t) {
        item_by_id(c.uploader@[t].config_list@, id)
    } else {
        None
    }
}

/// `a` carries the same id, name, timestamps and fields as `b`.
pub open spec fn item_eq(a: UploaderConfigItem, b: UploaderConfigItem) -> bool {
    &&& a.id == b.id
    &&& a.config_name == b.config_name
    &&& a.created_at == b.created_at
    &&& a.updated_at == b.updated_at
    &&& a.fields@ == b.fields@
}

/// The stores of `b` are those of `a` except that type `t` holds `list`
/// with default `default`.
pub open spec fn store_updated(
    a: ZpicConfigFile,
    b: ZpicConfigFile,
    t: Seq<char>,
    list: Seq<UploaderConfigItem>,
    default: Seq<char>,
) -> bool {
    &&& b.uploader@.dom() == a.uploader@.dom().insert(t)
    &&& b.uploader@[t].config_list@ == list
    &&& b.uploader@[t].default_id@ == default
    &&& forall|k: Seq<char>|
        k != t && #[trigger] a.uploader@.contains_key(k) ==> b.uploader@[k] == a.uploader@[k]
}

/// `Default-<i>`.
pub open spec fn numbered_default(i: nat) -> Seq<char> {
    "Default-"@ + dec(i)
}

/// The first `i` from `from` on, up to `len + 2`, whose `Default-<i>` is
/// not taken (ignoring ASCII case).
pub open spec fn first_free_number(list: Seq<UploaderConfigItem>, from: nat) -> nat
    decreases list.len() + 2 - from,
{
    if from > list.len() + 1 || first_index(list, name_is(numbered_default(from))) is None {
        from
    } else {
        first_free_number(list, from + 1)
    }
}

/// A name for an unnamed config: `Default`, else the first free
/// `Default-<i>`.
pub open spec fn spec_default_name(list: Seq<UploaderConfigItem>) -> Seq<char> {
    if first_index(list, name_is("Default"@)) is None {
        "Default"@
    } else {
        numbered_default(first_free_number(list, 1))
    }
}

/// The requested name, trimmed; empty when none is given.
pub open spec fn desired_name(name: Option<&str>) -> Seq<char> {
    match name {
        Some(n) => trim(n@),
        None => seq![],
    }
}

/// The config a create-or-update call updates: the first one with the
/// requested name, when a name is requested.
pub open spec fn upsert_index(list: Seq<UploaderConfigItem>, desired: Seq<char>) -> Option<int> {
    if desired.len() > 0 {
        first_index(list, name_is(desired))
    } else {
        None
    }
}

/// `b` and `r` are what creating or updating config `desired` of type `t`
/// with `fields` in `a` gives: an existing config of that name gets the
/// fields merged in (and a new `updated_at`), else a new config is appended
/// (named `desired`, or a free default name) with a fresh id; either way it
/// becomes the type's default, the type becomes the selected one, the
/// mirror is refreshed, and `r` is the config now active for the type.
pub open spec fn upserted(
    a: ZpicConfigFile,
    b: ZpicConfigFile,
    t: Seq<char>,
    desired: Seq<char>,
    fields: Map<Seq<char>, crate::fields::FieldValue>,
    r: UploaderConfigItem,
) -> bool {
    let l = spec_configs(a, t);
    let l2 = b.uploader@[t].config_list@;
    let d2 = b.uploader@[t].default_id@;
    &&& store_updated(a, b, t, l2, d2)
    &&& match upsert_index(l, desired) {
        Some(i) => {
            &&& l2.len() == l.len()
            &&& forall|j: int| 0 <= j < l.len() && j != i ==> #[trigger] l2[j] == l[j]
            &&& l2[i].id == l[i].id
            &&& l2[i].config_name == l[i].config_name
            &&& l2[i].created_at == l[i].created_at
            &&& l2[i].fields@ == l[i].fields@.union_prefer_right(fields)
            &&& d2 == l[i].id@
        },
        None => {
            &&& l2.len() == l.len() + 1
            &&& l2.subrange(0, l.len() as int) == l
            &&& l2.last().config_name@ == (if desired.len() == 0 {
                spec_default_name(l)
            } else {
                desired
            })
            &&& l2.last().fields@ == fields
            &&& hyphenated_uuid(l2.last().id@)
            &&& l2.last().created_at == l2.last().updated_at
            &&& d2 == l2.last().id@
        },
    }
    &&& item_by_id(l2, d2) is Some
    &&& selects(b, t)
    &&& mirror_set(a, b, t, item_by_id(l2, d2).unwrap())
    &&& item_eq(r, item_by_id(l2, d2).unwrap())
    &&& settings_kept(a, b)
}

/// The id `use_config` activates, or `None` when the named config does not
/// exist: the named config, else the current default; an empty id falls
/// back to the first config.
pub open spec fn use_target(
    list: Seq<UploaderConfigItem>,
    default_id: Seq<char>,
    name: Option<&str>,
) -> Option<Seq<char>> {
    let tid = match name {
        Some(n) => match first_index(list, name_is(n@)) {
            Some(i) => Some(list[i].id@),
            None => None,
        },
        None => Some(default_id),
    };
    match tid {
        Some(x) => Some(
            if x.len() == 0 {
                list[0].id@
            } else {
                x
            },
        ),
        None => None,
    }
}

/// The name a placeholder config gets when a type has none yet.
pub open spec fn placeholder_name(name: Option<&str>) -> Seq<char> {
    match name {
        Some(n) => if trim(n@).len() > 0 {
            trim(n@)
        } else {
            "Default"@
        },
        None => "Default"@,
    }
}

/// Another config (id other than `id`) already named `name`, ignoring case.
pub open spec fn clash(id: Seq<char>, name: Seq<char>) -> spec_fn(UploaderConfigItem) -> bool {
    |c: UploaderConfigItem| c.id@ != id && eq_ic(c.config_name@, name)
}

/// Keeps the configs whose id is not `id`.
pub open spec fn id_not(id: Seq<char>) -> spec_fn(UploaderConfigItem) -> bool {
    |c: UploaderConfigItem| c.id@ != id
}

/// The outcome of renaming config `old_name` of type `t` to `new_name`.
pub open spec fn renamed(
    a: ZpicConfigFile,
    b: ZpicConfigFile,
    t: Seq<char>,
    old_name: Seq<char>,
    new_name: Seq<char>,
    r: Result<(), ZpicError>,
) -> bool {
    let l = spec_configs(a, t);
    let nn = trim(new_name);
    if !a.uploader@.contains_key(t) {
        r matches Err(e) && error_view(e) == (ErrorKind::ConfigInvalid, unknown_type_message(t))
            && b == a
    } else if nn.len() == 0 {
        r matches Err(e) && error_view(e) == (ErrorKind::ConfigInvalid, empty_name_message()) && b
            == a
    } else {
        match first_index(l, name_is(old_name)) {
            None => r matches Err(e) && error_view(e) == (
                ErrorKind::ConfigInvalid,
                not_found_message(t, old_name),
            ) && b == a,
            Some(ti) => {
                let id = l[ti].id@;
                match first_index(l, clash(id, nn)) {
                    Some(ci) => r matches Err(e) && error_view(e) == (
                        ErrorKind::ConfigInvalid,
                        duplicate_message(l[ci].config_name@, t),
                    ) && b == a,
                    None => {
                        let k = first_index(l, id_is(id)).unwrap();
                        let l2 = b.uploader@[t].config_list@;
                        &&& r is Ok
                        &&& first_index(l, id_is(id)) is Some
                        &&& store_updated(a, b, t, l2, a.uploader@[t].default_id@)
                        &&& l2.len() == l.len()
                        &&& forall|j: int| 0 <= j < l.len() && j != k ==> #[trigger] l2[j] == l[j]
                        &&& l2[k].config_name@ == nn
                        &&& l2[k].id == l[k].id
                        &&& l2[k].created_at == l[k].created_at
                        &&& l2[k].fields@ == l[k].fields@
                        &&& b.pic_bed.current == a.pic_bed.current
                        &&& b.pic_bed.uploader == a.pic_bed.uploader
                        &&& if a.uploader@[t].default_id@ == id {
                            mirror_set(a, b, t, l2[k])
                        } else {
                            b.pic_bed.uploader_mirrors == a.pic_bed.uploader_mirrors
                        }
                        &&& settings_kept(a, b)
                    },
                }
            },
        }
    }
}

/// The outcome of copying config `name` of type `t` to `new_name`.
pub open spec fn copied(
    a: ZpicConfigFile,
    b: ZpicConfigFile,
    t: Seq<char>,
    name: Seq<char>,
    new_name: Seq<char>,
    r: Result<UploaderConfigItem, ZpicError>,
) -> bool {
    let l = spec_configs(a, t);
    let nn = trim(new_name);
    if !a.uploader@.contains_key(t) {
        r matches Err(e) && error_view(e) == (ErrorKind::ConfigInvalid, unknown_type_message(t))
            && b == a
    } else if nn.len() == 0 {
        r matches Err(e) && error_view(e) == (ErrorKind::ConfigInvalid, empty_name_message()) && b
            == a
    } else {
        match first_index(l, name_is(name)) {
            None => r matches Err(e) && error_view(e) == (
                ErrorKind::ConfigInvalid,
                not_found_message(t, name),
            ) && b == a,
            Some(ti) => match first_index(l, name_is(nn)) {
                Some(ci) => r matches Err(e) && error_view(e) == (
                    ErrorKind::ConfigInvalid,
                    duplicate_message(l[ci].config_name@, t),
                ) && b == a,
                None => {
                    let l2 = b.uploader@[t].config_list@;
                    &&& r matches Ok(it) && item_eq(it, l2.last())
                    &&& store_updated(a, b, t, l2, a.uploader@[t].default_id@)
                    &&& l2.len() == l.len() + 1
                    &&& l2.subrange(0, l.len() as int) == l
                    &&& l2.last().config_name@ == nn
                    &&& hyphenated_uuid(l2.last().id@)
                    &&& l2.last().fields@ == l[ti].fields@
                    &&& l2.last().created_at == l2.last().updated_at
                    &&& selection_kept(a, b)
                    &&& settings_kept(a, b)
                },
            },
        }
    }
}

/// The outcome of removing config `name` of type `t`: every config with
/// its id goes; when it was the default, the first remaining config
/// becomes the default, and when none remains the type's mirror and its
/// selection are cleared.
pub open spec fn removed(
    a: ZpicConfigFile,
    b: ZpicConfigFile,
    t: Seq<char>,
    name: Seq<char>,
    r: Result<(), ZpicError>,
) -> bool {
    let l = spec_configs(a, t);
    if !a.uploader@.contains_key(t) {
        r matches Err(e) && error_view(e) == (ErrorKind::ConfigInvalid, unknown_type_message(t))
            && b == a
    } else {
        match first_index(l, name_is(name)) {
            None => r matches Err(e) && error_view(e) == (
                ErrorKind::ConfigInvalid,
                not_found_message(t, name),
            ) && b == a,
            Some(ti) => {
                let rid = l[ti].id@;
                let l2 = l.filter(id_not(rid));
                let d = a.uploader@[t].default_id@;
                &&& r is Ok
                &&& settings_kept(a, b)
                &&& if d != rid {
                    store_updated(a, b, t, l2, d) && selection_kept(a, b)
                } else if l2.len() > 0 {
                    store_updated(a, b, t, l2, l2[0].id@) && item_by_id(l2, l2[0].id@) is Some
                        && mirror_set(a, b, t, item_by_id(l2, l2[0].id@).unwrap())
                        && b.pic_bed.current == a.pic_bed.current && b.pic_bed.uploader
                        == a.pic_bed.uploader
                } else {
                    &&& store_updated(a, b, t, l2, seq![])
                    &&& b.pic_bed.uploader_mirrors@ == a.pic_bed.uploader_mirrors@.remove(t)
                    &&& opt_view(b.pic_bed.current) == (if opt_view(a.pic_bed.current) == Some(t) {
                        None
                    } else {
                        opt_view(a.pic_bed.current)
                    })
                    &&& opt_view(b.pic_bed.uploader) == (if opt_view(a.pic_bed.uploader) == Some(
                        t,
                    ) {
                        None
                    } else {
                        opt_view(a.pic_bed.uploader)
                    })
                }
            },
        }
    }
}

// ------------------------------------------------------------------
// The manager
// ------------------------------------------------------------------

/// The manager owns the config it edits; callers take it back from
/// `config` to persist it.
pub struct UploaderConfigManager {
    pub config: ZpicConfigFile,
}

/// Take the store of `t` out of the map (or a fresh one).
fn take_store(map: &mut SortedMap<UploaderTypeConfigs>, t: &str) -> (r: UploaderTypeConfigs)
    ensures
        final(map)@ == old(map)@.remove(t@),
        old(map)@.contains_key(t@) ==> r == old(map)@[t@],
        !old(map)@.contains_key(t@) ==> r.config_list@.len() == 0 && r.default_id@.len() == 0,
{
    match map.remove(t) {
        Some(s) => s,
        None => UploaderTypeConfigs::new(),
    }
}

/// A name that no config of the list uses: `Default`, else the first free
/// `Default-<i>`.
pub fn generate_default_name(list: &Vec<UploaderConfigItem>) -> (r: String)
    ensures
        r@ == spec_default_name(list@),
{
    if find_name(list, "Default").is_none() {
        return own("Default");
    }
    let n = list.len();
    let mut k: usize = 0;
    while k <= n
        invariant
            n == list@.len(),
            k <= n,
            first_index(list@, name_is("Default"@)) is Some,
            first_free_number(list@, 1) == first_free_number(list@, (k + 1) as nat),
        ensures
            first_index(list@, name_is("Default"@)) is Some,
            first_free_number(list@, 1) == n + 2,
        decreases n + 1 - k,
    {
        let num: u128 = k as u128 + 1;
        let mut v: Vec<char> = Vec::new();
        push_str(&mut v, "Default-");
        let d = dec_chars_wide(num);
        push_chars(&mut v, &d);
        let name = string_of(&v);
        assert(name@ =~= numbered_default((k + 1) as nat));
        if find_name(list, name.as_str()).is_none() {
            return name;
        }
        proof {
            assert(first_free_number(list@, (k + 1) as nat) == first_free_number(
                list@,
                (k + 2) as nat,
            ));
        }
        if k == n {
            proof {
                assert(first_free_number(list@, (n + 2) as nat) == n + 2);
            }
            break;
        }
        k = k + 1;
    }
    let num: u128 = n as u128 + 2;
    let mut v: Vec<char> = Vec::new();
    push_str(&mut v, "Default-");
    let d = dec_chars_wide(num);
    push_chars(&mut v, &d);
    assert(v@ =~= numbered_default((n + 2) as nat));
    string_of(&v)
}

fn find_clash(list: &Vec<UploaderConfigItem>, id: &str, name: &str) -> (r: Option<usize>)
    ensures
        match r {
            Some(i) => first_index(list@, clash(id@, name@)) == Some(i as int) && i < list@.len(),
            None => first_index(list@, clash(id@, name@)) is None,
        },
{
    let n = chars_of(name);
    let idc = chars_of(id);
    let mut i: usize = 0;
    while i < list.len()
        invariant
            i <= list.len(),
            n@ == name@,
            idc@ == id@,
            forall|j: int| 0 <= j < i ==> !clash(id@, name@)(#[trigger] list@[j]),
        decreases list.len() - i,
    {
        let c = chars_of(list[i].config_name.as_str());
        let ci = chars_of(list[i].id.as_str());
        if !chars_eq(&ci, &idc) && chars_eq_ic(&c, &n) {
            proof {
                lemma_first_index_is(list@, clash(id@, name@), i as int);
            }
            return Some(i);
        }
        i = i + 1;
    }
    proof {
        lemma_first_index_none(list@, clash(id@, name@));
    }
    None
}

/// The list without the configs carrying `id`, in order.
fn without_id(list: Vec<UploaderConfigItem>, id: &str) -> (r: Vec<UploaderConfigItem>)
    ensures
        r@ == list@.filter(id_not(id@)),
{
    let ghost orig = list@;
    let mut rest = list;
    let mut kept: Vec<UploaderConfigItem> = Vec::new();
    let idc = chars_of(id);
    let ghost mut done: Seq<UploaderConfigItem> = Seq::empty();
    while rest.len() > 0
        invariant
            idc@ == id@,
            orig == done + rest@,
            kept@ == done.filter(id_not(id@)),
        decreases rest.len(),
    {
        let it = rest.remove(0);
        let ghost prev = done;
        proof {
            done = done.push(it);
            reveal(Seq::filter);
            assert(done.drop_last() =~= prev);
        }
        let c = chars_of(it.id.as_str());
        if !chars_eq(&c, &idc) {
            kept.push(it);
        }
        proof {
            assert(orig =~= done + rest@);
        }
    }
    proof {
        assert(done =~= orig);
    }
    kept
}

/// Every legacy entry `(name, section)` of `legacy` is found by name in the
/// store of its kind.
pub open spec fn legacy_kept(legacy: Seq<(Seq<char>, UploaderSection)>, c: ZpicConfigFile) -> bool {
    forall|j: int|
        0 <= j < legacy.len() ==> {
            let t = spec_kind_name(#[trigger] legacy[j].1.kind);
            c.uploader@.contains_key(t) && first_index(
                c.uploader@[t].config_list@,
                name_is(legacy[j].0),
            ) is Some
        }
}

/// Type `t` of `c` has a store whose default id names a config called `n`
/// (ignoring ASCII case), so that config is the type's active one.
pub open spec fn default_named(c: ZpicConfigFile, t: Seq<char>, n: Seq<char>) -> bool {
    &&& c.uploader@.contains_key(t)
    &&& exists|k: int|
        0 <= k < c.uploader@[t].config_list@.len() && #[trigger] c.uploader@[t].config_list@[k].id@
            == c.uploader@[t].default_id@ && eq_ic(c.uploader@[t].config_list@[k].config_name@, n)
}

/// `b` is `a` with its legacy entries moved into the per-type stores (see
/// `migrate_legacy`); `b` is `a` when there are none.
pub open spec fn migrated(a: ZpicConfigFile, b: ZpicConfigFile) -> bool {
    if a.uploaders@ == Map::<Seq<char>, UploaderSection>::empty() {
        b == a
    } else {
        &&& b.uploaders@ == Map::<Seq<char>, UploaderSection>::empty()
        &&& b.default_uploader is None
        &&& forall|n: Seq<char>|
            #[trigger] a.uploaders@.contains_key(n) ==> {
                let t = spec_kind_name(a.uploaders@[n].kind);
                b.uploader@.contains_key(t) && first_index(
                    b.uploader@[t].config_list@,
                    name_is(n),
                ) is Some
            }
        &&& forall|t: Seq<char>| #[trigger] a.uploader@.contains_key(t) ==> b.uploader@.contains_key(t)
        &&& match a.default_uploader {
            Some(d) => a.uploaders@.contains_key(d@) ==> selects(
                b,
                spec_kind_name(a.uploaders@[d@].kind),
            ) && default_named(b, spec_kind_name(a.uploaders@[d@].kind), d@),
            None => true,
        }
    }
}

/// Move legacy `[uploaders.<name>]` entries into the per-type stores: each
/// becomes a config named after its entry (unless its type already has a
/// config of that name), the entry named by `default_uploader` becomes its
/// type's default and the selected type, and the legacy fields are
/// cleared. Returns whether there was anything to move.
pub fn migrate_legacy(config: &mut ZpicConfigFile) -> (r: bool)
    ensures
        r == (old(config).uploaders@ != Map::<Seq<char>, UploaderSection>::empty()),
        migrated(*old(config), *final(config)),
{
    if config.uploaders.is_empty() {
        return false;
    }
    let ghost a = *config;
    let mut legacy: SortedMap<UploaderSection> = SortedMap::new();
    std::mem::swap(&mut legacy, &mut config.uploaders);
    let default_name: Option<String> = config.default_uploader.clone();
    config.default_uploader = None;
    let n = legacy.len();
    legacy.check();
    let ghost ls = legacy.seq();
    let mut i: usize = 0;
    while i < n
        invariant
            n == ls.len(),
            ls == legacy.seq(),
            legacy@ == a.uploaders@,
            crate::smap::sorted_keys(ls),
            i <= n,
            legacy_kept(ls.subrange(0, i as int), *config),
            forall|t: Seq<char>| #[trigger] a.uploader@.contains_key(t) ==> config.uploader@.contains_key(t),
            config.uploaders@ == Map::<Seq<char>, UploaderSection>::empty(),
            config.default_uploader is None,
            opt_view(default_name) == opt_view(a.default_uploader),
            forall|j: int|
                0 <= j < i && opt_view(default_name) == Some(ls[j].0) ==> selects(
                    *config,
                    spec_kind_name(#[trigger] ls[j].1.kind),
                ),
            forall|j: int|
                0 <= j < i && opt_view(default_name) == Some(ls[j].0) ==> default_named(
                    *config,
                    spec_kind_name(#[trigger] ls[j].1.kind),
                    ls[j].0,
                ),
        decreases n - i,
    {
        let name = legacy.key_at(i).clone();
        let section = legacy.value_at(i);
        let t = section.kind.as_str();
        let ghost before = *config;
        let mut store = take_store(&mut config.uploader, t);
        let ghost store0 = store;
        let ghost mut chosen: int = -1;
        if find_name(&store.config_list, name.as_str()).is_none() {
            let now = now_ms();
            let item = UploaderConfigItem {
                id: new_id(),
                config_name: name.clone(),
                created_at: now,
                updated_at: now,
                fields: crate::fields::copy_fields(&section.fields),
            };
            proof {
                crate::text::lemma_eq_ic_refl(name@);
                assert(name_is(name@)(item));
                lemma_first_index_push_new(store.config_list@, item, name_is(name@));
            }
            let ghost prev_list = store.config_list@;
            store.config_list.push(item);
            proof {
                assert forall|j: int| 0 <= j < i && spec_kind_name(ls[j].1.kind) == t@ implies first_index(
                    store.config_list@,
                    name_is(ls[j].0),
                ) is Some by {
                    assert(ls.subrange(0, i as int)[j] == ls[j]);
                    lemma_first_index_push(prev_list, item, name_is(ls[j].0));
                }
            }
        }
        let is_default = match &default_name {
            Some(d) => str_eq(d.as_str(), name.as_str()),
            None => false,
        };
        if is_default {
            match find_name(&store.config_list, name.as_str()) {
                Some(k) => {
                    store.default_id = store.config_list[k].id.clone();
                    set_mirror(config, t, &store.config_list[k]);
                    proof {
                        chosen = k as int;
                    }
                },
                None => {},
            }
            select_type(config, t);
        }
        proof {
            assert(store0.config_list@.len() <= store.config_list@.len());
            assert(forall|k: int|
                0 <= k < store0.config_list@.len() ==> #[trigger] store.config_list@[k]
                    == store0.config_list@[k]);
            assert(!is_default ==> store.default_id == store0.default_id);
            assert(is_default ==> 0 <= chosen < store.config_list@.len()
                && store.config_list@[chosen].id@ == store.default_id@ && eq_ic(
                store.config_list@[chosen].config_name@,
                name@,
            ));
        }
        config.uploader.insert(own(t), store);
        proof {
            assert(ls.subrange(0, i + 1).drop_last() =~= ls.subrange(0, i as int));
            assert forall|j: int| 0 <= j < i + 1 implies {
                let tj = spec_kind_name(#[trigger] ls.subrange(0, i + 1)[j].1.kind);
                config.uploader@.contains_key(tj) && first_index(
                    config.uploader@[tj].config_list@,
                    name_is(ls.subrange(0, i + 1)[j].0),
                ) is Some
            } by {
                assert(ls.subrange(0, i + 1)[j] == ls[j]);
                if j < i {
                    assert(ls.subrange(0, i as int)[j] == ls[j]);
                }
            }
            assert forall|j: int|
                0 <= j < i + 1 && opt_view(default_name) == Some(ls[j].0) implies selects(
                *config,
                spec_kind_name(#[trigger] ls[j].1.kind),
            ) by {
                if j < i && !is_default {
                } else if j < i && is_default {
                    crate::smap::lemma_sorted_distinct(ls, j, i as int);
                }
            }
            assert forall|j: int|
                0 <= j < i + 1 && opt_view(default_name) == Some(ls[j].0) implies default_named(
                *config,
                spec_kind_name(#[trigger] ls[j].1.kind),
                ls[j].0,
            ) by {
                let tj = spec_kind_name(ls[j].1.kind);
                if j < i {
                    if is_default {
                        crate::smap::lemma_sorted_distinct(ls, j, i as int);
                    }
                    assert(default_named(before, tj, ls[j].0));
                    let k = choose|k: int|
                        0 <= k < before.uploader@[tj].config_list@.len()
                            && #[trigger] before.uploader@[tj].config_list@[k].id@
                            == before.uploader@[tj].default_id@ && eq_ic(
                            before.uploader@[tj].config_list@[k].config_name@,
                            ls[j].0,
                        );
                    if tj == t@ {
                        assert(store0 == before.uploader@[tj]);
                        assert(config.uploader@[tj].config_list@[k] == before.uploader@[tj].config_list@[k]);
                    } else {
                        assert(config.uploader@[tj] == before.uploader@[tj]);
                    }
                } else {
                    assert(config.uploader@[tj].config_list@[chosen] == store.config_list@[chosen]);
                }
            }
        }
        i = i + 1;
    }
    proof {
        assert(ls.subrange(0, n as int) =~= ls);
        crate::smap::lemma_map_of_all(ls);
        assert forall|nm: Seq<char>| #[trigger] a.uploaders@.contains_key(nm) implies {
            let t = spec_kind_name(a.uploaders@[nm].kind);
            config.uploader@.contains_key(t) && first_index(config.uploader@[t].config_list@, name_is(nm)) is Some
        } by {
            let j = choose|j: int| 0 <= j < ls.len() && #[trigger] ls[j].0 == nm;
            assert(a.uploaders@[nm] == ls[j].1);
        }
        if let Some(d) = a.default_uploader {
            if a.uploaders@.contains_key(d@) {
                let j = choose|j: int| 0 <= j < ls.len() && #[trigger] ls[j].0 == d@;
                assert(a.uploaders@[d@] == ls[j].1);
            }
        }
    }
    true
}

fn set_mirror(config: &mut ZpicConfigFile, t: &str, item: &UploaderConfigItem)
    ensures
        mirror_set(*old(config), *final(config), t@, *item),
        settings_kept(*old(config), *final(config)),
        final(config).uploader == old(config).uploader,
        final(config).pic_bed.current == old(config).pic_bed.current,
        final(config).pic_bed.uploader == old(config).pic_bed.uploader,
{
    config.pic_bed.uploader_mirrors.insert(own(t), PicBedUploaderMirror::from_item(item));
}

fn select_type(config: &mut ZpicConfigFile, t: &str)
    ensures
        selects(*final(config), t@),
        settings_kept(*old(config), *final(config)),
        final(config).uploader == old(config).uploader,
        final(config).pic_bed.uploader_mirrors == old(config).pic_bed.uploader_mirrors,
{
    config.pic_bed.current = Some(own(t));
    config.pic_bed.uploader = Some(own(t));
}

fn find_id(list: &Vec<UploaderConfigItem>, id: &str) -> (r: Option<usize>)
    ensures
        match r {
            Some(i) => first_index(list@, id_is(id@)) == Some(i as int) && i < list@.len()
                && list@[i as int].id@ == id@,
            None => first_index(list@, id_is(id@)) is None,
        },
{
    let r = index_by_id(list, id);
    proof {
        lemma_first_index(list@, id_is(id@));
    }
    r
}

fn find_name(list: &Vec<UploaderConfigItem>, name: &str) -> (r: Option<usize>)
    ensures
        match r {
            Some(i) => first_index(list@, name_is(name@)) == Some(i as int) && i < list@.len()
                && eq_ic(list@[i as int].config_name@, name@),
            None => first_index(list@, name_is(name@)) is None,
        },
{
    let r = index_by_name(list, name);
    proof {
        lemma_first_index(list@, name_is(name@));
    }
    r
}

impl UploaderConfigManager {
    /// Take a config for editing, moving any legacy entries into the
    /// per-type stores first.
    pub fn new(config: ZpicConfigFile) -> (r: Self)
        ensures
            migrated(config, r.config),
    {
        let mut config = config;
        migrate_legacy(&mut config);
        UploaderConfigManager { config }
    }

    /// Wrap a config for editing.
    pub fn wrap(config: ZpicConfigFile) -> (r: Self)
        ensures
            r.config == config,
    {
        UploaderConfigManager { config }
    }

    /// The uploader types with configs, in sorted order.
    pub fn list_types(&self) -> (r: Vec<&str>)
        ensures
            r@.len() == self.config.uploader.seq().len(),
            forall|j: int| 0 <= j < r@.len() ==> #[trigger] r@[j]@ == self.config.uploader.seq()[j].0,
            crate::smap::sorted_keys(self.config.uploader.seq()),
    {
        let n = self.config.uploader.len();
        let mut out: Vec<&str> = Vec::new();
        let mut i: usize = 0;
        while i < n
            invariant
                n == self.config.uploader.seq().len(),
                i <= n,
                out@.len() == i,
                forall|j: int| 0 <= j < i ==> #[trigger] out@[j]@ == self.config.uploader.seq()[j].0,
            decreases n - i,
        {
            let k = self.config.uploader.key_at(i);
            out.push(k.as_str());
            i = i + 1;
        }
        self.config.uploader.len();
        out
    }

    /// The configs of one type, in order; none for an unknown type.
    pub fn list_configs(&self, uploader_type: &str) -> (r: Vec<&UploaderConfigItem>)
        ensures
            r@.len() == spec_configs(self.config, uploader_type@).len(),
            forall|i: int|
                0 <= i < r@.len() ==> *#[trigger] r@[i] == spec_configs(self.config, uploader_type@)[i],
    {
        let mut out: Vec<&UploaderConfigItem> = Vec::new();
        match self.config.uploader.get(uploader_type) {
            Some(store) => {
                let mut i: usize = 0;
                while i < store.config_list.len()
                    invariant
                        i <= store.config_list.len(),
                        out@.len() == i,
                        forall|j: int| 0 <= j < i ==> *#[trigger] out@[j] == store.config_list@[j],
                    decreases store.config_list.len() - i,
                {
                    out.push(&store.config_list[i]);
                    i = i + 1;
                }
            },
            None => {},
        }
        out
    }

    /// The active config of a type: the one `defaultId` names, else the first.
    pub fn get_active(&self, uploader_type: &str) -> (r: Option<&UploaderConfigItem>)
        ensures
            match spec_active(self.config, uploader_type@) {
                Some(it) => r matches Some(x) && *x == it,
                None => r is None,
            },
    {
        match self.config.uploader.get(uploader_type) {
            Some(store) => store.active(),
            None => None,
        }
    }

    /// The first config of a type with the given name, ignoring ASCII case.
    pub fn get_by_name(&self, uploader_type: &str, name: &str) -> (r: Option<&UploaderConfigItem>)
        ensures
            match spec_by_name(self.config, uploader_type@, name@) {
                Some(it) => r matches Some(x) && *x == it,
                None => r is None,
            },
    {
        match self.config.uploader.get(uploader_type) {
            Some(store) => store.find_by_name(name),
            None => None,
        }
    }

    /// The first config of a type with the given id.
    pub fn get_by_id(&self, uploader_type: &str, id: &str) -> (r: Option<&UploaderConfigItem>)
        ensures
            match spec_by_id(self.config, uploader_type@, id@) {
                Some(it) => r matches Some(x) && *x == it,
                None => r is None,
            },
    {
        match self.config.uploader.get(uploader_type) {
            Some(store) => store.find_by_id(id),
            None => None,
        }
    }

    /// Activate a config of a type: the named one, else the current
    /// default (or the first config). A type without configs gets a
    /// placeholder config, named as requested or `Default`. Returns the
    /// activated config.
    pub fn use_config(&mut self, uploader_type: &str, config_name: Option<&str>) -> (r: Result<
        UploaderConfigItem,
        ZpicError,
    >)
        requires
            old(self).config.uploader@.contains_key(uploader_type@) && config_name is None
                && old(self).config.uploader@[uploader_type@].config_list@.len() > 0
                && old(self).config.uploader@[uploader_type@].default_id@.len() > 0 ==> item_by_id(
                old(self).config.uploader@[uploader_type@].config_list@,
                old(self).config.uploader@[uploader_type@].default_id@,
            ) is Some,
        ensures
            ({
                let a = old(self).config;
                let b = final(self).config;
                let t = uploader_type@;
                if !a.uploader@.contains_key(t) {
                    r matches Err(e) && error_view(e) == (
                        ErrorKind::ConfigInvalid,
                        unknown_type_message(t),
                    ) && b == a
                } else if a.uploader@[t].config_list@.len() == 0 {
                    r matches Ok(it) && upserted(
                        a,
                        b,
                        t,
                        trim(placeholder_name(config_name)),
                        Map::empty(),
                        it,
                    )
                } else {
                    let l = a.uploader@[t].config_list@;
                    match use_target(l, a.uploader@[t].default_id@, config_name) {
                        None => r matches Err(e) && error_view(e) == (
                            ErrorKind::ConfigInvalid,
                            not_found_message(t, config_name.unwrap()@),
                        ) && b == a,
                        Some(tid) => r matches Ok(it) && item_by_id(l, tid) is Some
                            && store_updated(a, b, t, l, tid) && selects(b, t) && mirror_set(
                            a,
                            b,
                            t,
                            item_by_id(l, tid).unwrap(),
                        ) && item_eq(it, item_by_id(l, tid).unwrap()) && settings_kept(a, b),
                    }
                }
            }),
    {
        if let Err(e) = self.assert_type(uploader_type) {
            return Err(e);
        }
        let ghost a = self.config;
        let ghost l = a.uploader@[uploader_type@].config_list@;
        let store_ref = match self.config.uploader.get(uploader_type) {
            Some(s) => s,
            None => {
                return Err(ManagerError::UnknownType(own(uploader_type)).into_error());
            },
        };
        if store_ref.config_list.len() == 0 {
            let placeholder = match config_name {
                Some(n) => {
                    let t = trim_str(n);
                    if t.as_str().is_empty() {
                        own("Default")
                    } else {
                        t
                    }
                },
                None => own("Default"),
            };
            let fields: Fields = SortedMap::new();
            return self.create_or_update(uploader_type, Some(placeholder.as_str()), fields);
        }
        let tid0: String = match config_name {
            Some(n) => match find_name(&store_ref.config_list, n) {
                Some(i) => store_ref.config_list[i].id.clone(),
                None => {
                    return Err(
                        ManagerError::ConfigNotFound(own(uploader_type), own(n)).into_error(),
                    );
                },
            },
            None => store_ref.default_id.clone(),
        };
        let tid = if tid0.as_str().is_empty() {
            store_ref.config_list[0].id.clone()
        } else {
            tid0
        };
        proof {
            lemma_first_index(l, id_is(tid@));
            if let Some(n) = config_name {
                lemma_first_index(l, name_is(n@));
            }
            if tid0@.len() == 0 {
                assert(id_is(tid@)(l[0]));
            } else if let Some(n) = config_name {
                let k = first_index(l, name_is(n@)).unwrap();
                assert(id_is(tid@)(l[k]));
            }
        }
        let mut store = take_store(&mut self.config.uploader, uploader_type);
        store.default_id = tid.clone();
        let i = match find_id(&store.config_list, tid.as_str()) {
            Some(i) => i,
            None => {
                proof {
                    assert(false);
                }
                return Err(ManagerError::UnknownType(own(uploader_type)).into_error());
            },
        };
        set_mirror(&mut self.config, uploader_type, &store.config_list[i]);
        select_type(&mut self.config, uploader_type);
        let result = store.config_list[i].duplicate();
        self.config.uploader.insert(own(uploader_type), store);
        proof {
            assert(self.config.uploader@.dom() =~= a.uploader@.dom().insert(uploader_type@));
        }
        Ok(result)
    }

    /// Create a config or update the one with the requested name (ignoring
    /// ASCII case). An update merges `fields` into the config's fields; a
    /// request that names an existing config and brings no fields is
    /// refused as a duplicate. A previously unknown type gets a store. The
    /// config becomes the type's default and the type the selected one.
    /// Returns the config now active for the type.
    pub fn create_or_update(
        &mut self,
        uploader_type: &str,
        config_name: Option<&str>,
        fields: Fields,
    ) -> (r: Result<UploaderConfigItem, ZpicError>)
        ensures
            ({
                let a = old(self).config;
                let b = final(self).config;
                let t = uploader_type@;
                let l = spec_configs(a, t);
                let desired = desired_name(config_name);
                match r {
                    Ok(it) => !(upsert_index(l, desired) is Some && fields@ == Map::<
                        Seq<char>,
                        crate::fields::FieldValue,
                    >::empty()) && upserted(a, b, t, desired, fields@, it),
                    Err(e) => upsert_index(l, desired) is Some && fields@ == Map::<
                        Seq<char>,
                        crate::fields::FieldValue,
                    >::empty() && error_view(e) == (
                        ErrorKind::ConfigInvalid,
                        duplicate_message(l[upsert_index(l, desired).unwrap()].config_name@, t),
                    ) && b == a,
                }
            }),
    {
        let ghost a = self.config;
        let ghost l = spec_configs(a, uploader_type@);
        let desired = match config_name {
            Some(n) => trim_str(n),
            None => String::new(),
        };
        let idx: Option<usize> = if desired.as_str().is_empty() {
            None
        } else {
            match self.config.uploader.get(uploader_type) {
                Some(store) => find_name(&store.config_list, desired.as_str()),
                None => {
                    proof {
                        lemma_first_index(l, name_is(desired@));
                    }
                    None
                },
            }
        };
        assert(idx matches Some(i) ==> upsert_index(l, desired@) == Some(i as int));
        assert(idx is None ==> upsert_index(l, desired@) is None);
        if let Some(i) = idx {
            if fields.is_empty() {
                let name = match self.config.uploader.get(uploader_type) {
                    Some(store) => store.config_list[i].config_name.clone(),
                    None => String::new(),
                };
                return Err(ManagerError::DuplicateName(name, own(uploader_type)).into_error());
            }
        }
        let mut store = take_store(&mut self.config.uploader, uploader_type);
        assert(store.config_list@ == l);
        match idx {
            Some(i) => {
                let now = now_ms();
                let mut item = store.config_list.remove(i);
                merge_fields(&mut item.fields, &fields);
                item.updated_at = now;
                store.default_id = item.id.clone();
                store.config_list.insert(i, item);
                proof {
                    assert(store.config_list@ =~= l.update(i as int, store.config_list@[i as int]));
                }
            },
            None => {
                let now = now_ms();
                let name = if desired.as_str().is_empty() {
                    generate_default_name(&store.config_list)
                } else {
                    desired
                };
                let id = new_id();
                let item = UploaderConfigItem {
                    id: id.clone(),
                    config_name: name,
                    created_at: now,
                    updated_at: now,
                    fields,
                };
                store.config_list.push(item);
                store.default_id = id;
                proof {
                    assert(store.config_list@.subrange(0, l.len() as int) =~= l);
                }
            },
        }
        let ghost l2 = store.config_list@;
        let ghost d2 = store.default_id@;
        proof {
            lemma_first_index(l2, id_is(d2));
            match idx {
                Some(i) => {
                    assert(id_is(d2)(l2[i as int]));
                },
                None => {
                    assert(id_is(d2)(l2[l2.len() - 1]));
                },
            }
        }
        let i = match find_id(&store.config_list, store.default_id.as_str()) {
            Some(i) => i,
            None => {
                proof {
                    assert(false);
                }
                0
            },
        };
        set_mirror(&mut self.config, uploader_type, &store.config_list[i]);
        select_type(&mut self.config, uploader_type);
        let result = store.config_list[i].duplicate();
        self.config.uploader.insert(own(uploader_type), store);
        proof {
            assert(self.config.uploader@.dom() =~= a.uploader@.dom().insert(uploader_type@));
        }
        Ok(result)
    }

    /// Rename a config; the new name is trimmed and must be free among the
    /// type's other configs (ignoring ASCII case).
    pub fn rename(&mut self, uploader_type: &str, old_name: &str, new_name: &str) -> (r: Result<
        (),
        ZpicError,
    >)
        ensures
            renamed(old(self).config, final(self).config, uploader_type@, old_name@, new_name@, r),
    {
        if let Err(e) = self.assert_type(uploader_type) {
            return Err(e);
        }
        let nn = trim_str(new_name);
        if nn.as_str().is_empty() {
            return Err(ManagerError::EmptyName.into_error());
        }
        let ghost a = self.config;
        let ghost l = a.uploader@[uploader_type@].config_list@;
        let store_ref = match self.config.uploader.get(uploader_type) {
            Some(s) => s,
            None => {
                return Err(ManagerError::UnknownType(own(uploader_type)).into_error());
            },
        };
        let ti = match find_name(&store_ref.config_list, old_name) {
            Some(i) => i,
            None => {
                return Err(
                    ManagerError::ConfigNotFound(own(uploader_type), own(old_name)).into_error(),
                );
            },
        };
        let id = store_ref.config_list[ti].id.clone();
        if let Some(ci) = find_clash(&store_ref.config_list, id.as_str(), nn.as_str()) {
            return Err(
                ManagerError::DuplicateName(
                    store_ref.config_list[ci].config_name.clone(),
                    own(uploader_type),
                ).into_error(),
            );
        }
        proof {
            lemma_first_index(l, id_is(id@));
            assert(id_is(id@)(l[ti as int]));
        }
        let k = match find_id(&store_ref.config_list, id.as_str()) {
            Some(k) => k,
            None => {
                proof {
                    assert(false);
                }
                return Ok(());
            },
        };
        let now = now_ms();
        let mut store = take_store(&mut self.config.uploader, uploader_type);
        let mut item = store.config_list.remove(k);
        item.config_name = nn;
        item.updated_at = now;
        store.config_list.insert(k, item);
        if str_eq(store.default_id.as_str(), id.as_str()) {
            set_mirror(&mut self.config, uploader_type, &store.config_list[k]);
        }
        self.config.uploader.insert(own(uploader_type), store);
        proof {
            assert(self.config.uploader@.dom() =~= a.uploader@.dom().insert(uploader_type@));
        }
        Ok(())
    }

    /// Copy a config under a new name (trimmed, and free among all the
    /// type's configs, ignoring ASCII case). The copy gets a fresh id and is
    /// not activated. Returns the copy.
    pub fn copy(&mut self, uploader_type: &str, config_name: &str, new_config_name: &str) -> (r:
        Result<UploaderConfigItem, ZpicError>)
        ensures
            copied(
                old(self).config,
                final(self).config,
                uploader_type@,
                config_name@,
                new_config_name@,
                r,
            ),
    {
        if let Err(e) = self.assert_type(uploader_type) {
            return Err(e);
        }
        let nn = trim_str(new_config_name);
        if nn.as_str().is_empty() {
            return Err(ManagerError::EmptyName.into_error());
        }
        let ghost a = self.config;
        let ghost l = a.uploader@[uploader_type@].config_list@;
        let store_ref = match self.config.uploader.get(uploader_type) {
            Some(s) => s,
            None => {
                return Err(ManagerError::UnknownType(own(uploader_type)).into_error());
            },
        };
        let ti = match find_name(&store_ref.config_list, config_name) {
            Some(i) => i,
            None => {
                return Err(
                    ManagerError::ConfigNotFound(own(uploader_type), own(config_name)).into_error(),
                );
            },
        };
        if let Some(ci) = find_name(&store_ref.config_list, nn.as_str()) {
            return Err(
                ManagerError::DuplicateName(
                    store_ref.config_list[ci].config_name.clone(),
                    own(uploader_type),
                ).into_error(),
            );
        }
        let fields = crate::fields::copy_fields(&store_ref.config_list[ti].fields);
        let now = now_ms();
        let item = UploaderConfigItem {
            id: new_id(),
            config_name: nn,
            created_at: now,
            updated_at: now,
            fields,
        };
        let result = item.duplicate();
        let mut store = take_store(&mut self.config.uploader, uploader_type);
        store.config_list.push(item);
        self.config.uploader.insert(own(uploader_type), store);
        proof {
            assert(self.config.uploader@.dom() =~= a.uploader@.dom().insert(uploader_type@));
            assert(self.config.uploader@[uploader_type@].config_list@.subrange(0, l.len() as int)
                =~= l);
        }
        Ok(result)
    }

    /// Remove a config (every config carrying its id). When it was the
    /// default, the first remaining config takes over; when none remains,
    /// the type's mirror and selection are cleared.
    pub fn remove(&mut self, uploader_type: &str, config_name: &str) -> (r: Result<(), ZpicError>)
        ensures
            removed(old(self).config, final(self).config, uploader_type@, config_name@, r),
    {
        if let Err(e) = self.assert_type(uploader_type) {
            return Err(e);
        }
        let ghost a = self.config;
        let ghost l = a.uploader@[uploader_type@].config_list@;
        let store_ref = match self.config.uploader.get(uploader_type) {
            Some(s) => s,
            None => {
                return Err(ManagerError::UnknownType(own(uploader_type)).into_error());
            },
        };
        let ti = match find_name(&store_ref.config_list, config_name) {
            Some(i) => i,
            None => {
                return Err(
                    ManagerError::ConfigNotFound(own(uploader_type), own(config_name)).into_error(),
                );
            },
        };
        let rid = store_ref.config_list[ti].id.clone();
        let was_active = str_eq(store_ref.default_id.as_str(), rid.as_str());
        let mut store = take_store(&mut self.config.uploader, uploader_type);
        let mut list: Vec<UploaderConfigItem> = Vec::new();
        std::mem::swap(&mut list, &mut store.config_list);
        store.config_list = without_id(list, rid.as_str());
        let ghost l2 = store.config_list@;
        if was_active {
            if store.config_list.len() > 0 {
                store.default_id = store.config_list[0].id.clone();
                proof {
                    lemma_first_index(l2, id_is(l2[0].id@));
                    assert(id_is(l2[0].id@)(l2[0]));
                }
                let k = match find_id(&store.config_list, store.default_id.as_str()) {
                    Some(k) => k,
                    None => {
                        proof {
                            assert(false);
                        }
                        0
                    },
                };
                set_mirror(&mut self.config, uploader_type, &store.config_list[k]);
            } else {
                store.default_id = String::new();
                self.config.pic_bed.uploader_mirrors.remove(uploader_type);
                let clear_current = match &self.config.pic_bed.current {
                    Some(c) => str_eq(c.as_str(), uploader_type),
                    None => false,
                };
                if clear_current {
                    self.config.pic_bed.current = None;
                }
                let clear_uploader = match &self.config.pic_bed.uploader {
                    Some(c) => str_eq(c.as_str(), uploader_type),
                    None => false,
                };
                if clear_uploader {
                    self.config.pic_bed.uploader = None;
                }
            }
        }
        self.config.uploader.insert(own(uploader_type), store);
        proof {
            assert(self.config.uploader@.dom() =~= a.uploader@.dom().insert(uploader_type@));
        }
        Ok(())
    }

    /// Set fields on a config of a type: the named one (created first when
    /// missing), else the active one (a default config is created when the
    /// type has none). Returns the config now active for the type.
    pub fn set_fields(&mut self, uploader_type: &str, config_name: Option<&str>, fields: Fields) -> (r:
        Result<UploaderConfigItem, ZpicError>)
        ensures
            ({
                let b = final(self).config;
                let t = uploader_type@;
                match r {
                    Ok(it) => {
                        &&& b.uploader@.contains_key(t)
                        &&& selects(b, t)
                        &&& item_by_id(b.uploader@[t].config_list@, b.uploader@[t].default_id@) is Some
                        &&& item_eq(
                            it,
                            item_by_id(
                                b.uploader@[t].config_list@,
                                b.uploader@[t].default_id@,
                            ).unwrap(),
                        )
                    },
                    Err(e) => kind_of(e) == ErrorKind::ConfigInvalid,
                }
            }),
            r is Ok ==> fields_set(final(self).config, uploader_type@, config_name, fields@),
    {
        match config_name {
            Some(n) => {
                if self.get_by_name(uploader_type, n).is_none() {
                    let empty: Fields = SortedMap::new();
                    if let Err(e) = self.create_or_update(uploader_type, Some(n), empty) {
                        return Err(e);
                    }
                }
            },
            None => {
                if self.get_active(uploader_type).is_none() {
                    let empty: Fields = SortedMap::new();
                    if let Err(e) = self.create_or_update(uploader_type, None, empty) {
                        return Err(e);
                    }
                }
            },
        }
        let final_name: Option<String> = match config_name {
            Some(n) => Some(own(n)),
            None => match self.get_active(uploader_type) {
                Some(c) => Some(c.config_name.clone()),
                None => None,
            },
        };
        let fname: Option<&str> = match &final_name {
            Some(s) => Some(s.as_str()),
            None => None,
        };
        let ghost mid = self.config;
        let ghost fv = fields@;
        let r = self.create_or_update(uploader_type, fname, fields);
        proof {
            if r is Ok {
                let t = uploader_type@;
                let l = spec_configs(mid, t);
                let desired = desired_name(fname);
                let b = self.config;
                let l2 = b.uploader@[t].config_list@;
                match upsert_index(l, desired) {
                    Some(i) => {
                        crate::seqs::lemma_first_index(l, name_is(desired));
                        assert(fv.submap_of(l2[i].fields@));
                        assert(fields_set_at(b, t, config_name, fv, i));
                    },
                    None => {
                        let j = l2.len() - 1;
                        assert(l2[j] == l2.last());
                        assert(fv.submap_of(l2[j].fields@));
                        assert(fields_set_at(b, t, config_name, fv, j));
                    },
                }
            }
        }
        r
    }

    /// Fail unless the type has a store.
    fn assert_type(&self, uploader_type: &str) -> (r: Result<(), ZpicError>)
        ensures
            match r {
                Ok(()) => self.config.uploader@.contains_key(uploader_type@),
                Err(e) => !self.config.uploader@.contains_key(uploader_type@) && error_view(e) == (
                    ErrorKind::ConfigInvalid,
                    unknown_type_message(uploader_type@),
                ),
            },
    {
        if self.config.uploader.contains_key(uploader_type) {
            Ok(())
        } else {
            Err(ManagerError::UnknownType(own(uploader_type)).into_error())
        }
    }
}

// ------------------------------------------------------------------
// Listings
// ------------------------------------------------------------------

pub open spec fn item_line(it: UploaderConfigItem, default_id: Seq<char>) -> Seq<char> {
    if it.id@ == default_id {
        "  * "@ + it.config_name@ + " [Default Config]"@
    } else {
        "    "@ + it.config_name@
    }
}

pub open spec fn item_lines(l: Seq<UploaderConfigItem>, default_id: Seq<char>) -> Seq<Seq<char>>
    decreases l.len(),
{
    if l.len() == 0 {
        seq![]
    } else {
        item_lines(l.drop_last(), default_id).push(item_line(l.last(), default_id))
    }
}

/// The lines listing one type's configs; the default one is starred.
pub open spec fn store_lines(s: UploaderTypeConfigs) -> Seq<Seq<char>> {
    if s.config_list@.len() == 0 {
        seq!["  (No configs found)"@]
    } else {
        item_lines(s.config_list@, s.default_id@)
    }
}

pub open spec fn type_header(t: Seq<char>, current: bool) -> Seq<char> {
    if current {
        "+ "@ + t + " [Current Uploader]"@
    } else {
        "+ "@ + t
    }
}

/// The lines listing every type, in key order.
pub open spec fn list_lines(
    e: Seq<(Seq<char>, UploaderTypeConfigs)>,
    current: Option<Seq<char>>,
) -> Seq<Seq<char>>
    decreases e.len(),
{
    if e.len() == 0 {
        seq![]
    } else {
        list_lines(e.drop_last(), current) + seq![
            type_header(e.last().0, current == Some(e.last().0)),
        ] + store_lines(e.last().1)
    }
}

fn push_line(lines: &mut Vec<String>, parts: &[&str])
    ensures
        views(final(lines)@) == views(old(lines)@).push(concat_views(parts@)),
{
    let mut v: Vec<char> = Vec::new();
    let mut i: usize = 0;
    while i < parts.len()
        invariant
            i <= parts.len(),
            v@ == concat_views(parts@.subrange(0, i as int)),
        decreases parts.len() - i,
    {
        push_str(&mut v, parts[i]);
        proof {
            assert(parts@.subrange(0, i + 1).drop_last() =~= parts@.subrange(0, i as int));
        }
        i = i + 1;
    }
    proof {
        assert(parts@.subrange(0, parts.len() as int) =~= parts@);
    }
    lines.push(string_of(&v));
    proof {
        assert(views(lines@) =~= views(old(lines)@).push(concat_views(parts@)));
    }
}

/// The concatenation of string slices.
pub open spec fn concat_views(parts: Seq<&str>) -> Seq<char>
    decreases parts.len(),
{
    if parts.len() == 0 {
        seq![]
    } else {
        concat_views(parts.drop_last()) + parts.last()@
    }
}

fn push_store_lines(lines: &mut Vec<String>, store: &UploaderTypeConfigs)
    ensures
        views(final(lines)@) == views(old(lines)@) + store_lines(*store),
{
    if store.config_list.len() == 0 {
        push_line(lines, &["  (No configs found)"]);
        proof {
            reveal_with_fuel(concat_views, 2);
            assert(views(lines@) =~= views(old(lines)@) + store_lines(*store));
        }
        return;
    }
    let mut i: usize = 0;
    while i < store.config_list.len()
        invariant
            i <= store.config_list.len(),
            store.config_list@.len() > 0,
            views(lines@) == views(old(lines)@) + item_lines(
                store.config_list@.subrange(0, i as int),
                store.default_id@,
            ),
        decreases store.config_list.len() - i,
    {
        let c = &store.config_list[i];
        let ghost before = views(lines@);
        if str_eq(c.id.as_str(), store.default_id.as_str()) {
            push_line(lines, &["  * ", c.config_name.as_str(), " [Default Config]"]);
        } else {
            push_line(lines, &["    ", c.config_name.as_str()]);
        }
        proof {
            reveal_with_fuel(concat_views, 4);
            let s = store.config_list@.subrange(0, i + 1);
            assert(s.drop_last() =~= store.config_list@.subrange(0, i as int));
            assert(views(lines@) =~= views(old(lines)@) + item_lines(s, store.default_id@));
        }
        i = i + 1;
    }
    proof {
        assert(store.config_list@.subrange(0, store.config_list.len() as int)
            =~= store.config_list@);
    }
}

/// The listing of every uploader type and its configs, types in sorted
/// order; the selected type and each type's default config are marked.
pub fn format_list_output(cfg: &ZpicConfigFile) -> (r: String)
    ensures
        r@ == join_lines(list_lines(cfg.uploader.seq(), spec_active_type(*cfg))),
{
    let current = cfg.active_uploader_type();
    let mut lines: Vec<String> = Vec::new();
    let n = cfg.uploader.len();
    let mut i: usize = 0;
    while i < n
        invariant
            n == cfg.uploader.seq().len(),
            i <= n,
            match current {
                Some(c) => spec_active_type(*cfg) == Some(c@),
                None => spec_active_type(*cfg) is None,
            },
            views(lines@) == list_lines(
                cfg.uploader.seq().subrange(0, i as int),
                spec_active_type(*cfg),
            ),
        decreases n - i,
    {
        let t = cfg.uploader.key_at(i);
        let store = cfg.uploader.value_at(i);
        let is_current = match current {
            Some(c) => str_eq(c, t.as_str()),
            None => false,
        };
        if is_current {
            push_line(&mut lines, &["+ ", t.as_str(), " [Current Uploader]"]);
        } else {
            push_line(&mut lines, &["+ ", t.as_str()]);
        }
        push_store_lines(&mut lines, store);
        proof {
            reveal_with_fuel(concat_views, 4);
            let s = cfg.uploader.seq().subrange(0, i + 1);
            assert(s.drop_last() =~= cfg.uploader.seq().subrange(0, i as int));
            assert(views(lines@) =~= list_lines(s, spec_active_type(*cfg)));
        }
        i = i + 1;
    }
    proof {
        assert(cfg.uploader.seq().subrange(0, n as int) =~= cfg.uploader.seq());
    }
    join_with_newlines(&lines)
}

/// The listing of one type's configs, or `None` for an unknown type.
pub fn format_type_output(cfg: &ZpicConfigFile, uploader_type: &str) -> (r: Option<String>)
    ensures
        match r {
            Some(s) => cfg.uploader@.contains_key(uploader_type@) && s@ == join_lines(
                seq!["+ "@ + uploader_type@] + store_lines(cfg.uploader@[uploader_type@]),
            ),
            None => !cfg.uploader@.contains_key(uploader_type@),
        },
{
    match cfg.uploader.get(uploader_type) {
        Some(store) => {
            let mut lines: Vec<String> = Vec::new();
            push_line(&mut lines, &["+ ", uploader_type]);
            push_store_lines(&mut lines, store);
            proof {
                reveal_with_fuel(concat_views, 3);
                assert(views(lines@) =~= seq!["+ "@ + uploader_type@] + store_lines(*store));
            }
            Some(join_with_newlines(&lines))
        },
        None => None,
    }
}

/// A field of the active config of the selected type, with environment
/// references expanded.
pub fn resolve_active_field(cfg: &ZpicConfigFile, key: &str, env: &Env) -> (r: Option<String>)
    ensures
        opt_view(r) == match spec_active_type(*cfg) {
            Some(t) => match spec_active(*cfg, t) {
                Some(it) => spec_resolved(it.fields@, key@, env@),
                None => None,
            },
            None => None,
        },
{
    let t = match cfg.active_uploader_type() {
        Some(t) => t,
        None => return None,
    };
    let store = match cfg.uploader.get(t) {
        Some(s) => s,
        None => return None,
    };
    match store.active() {
        Some(item) => item.resolve(key, env),
        None => None,
    }
}

// ------------------------------------------------------------------
// Laws
// ------------------------------------------------------------------

/// The configs' names are pairwise different, ignoring ASCII case.
pub open spec fn names_distinct(l: Seq<UploaderConfigItem>) -> bool {
    forall|i: int, j: int|
        0 <= i < j < l.len() ==> !eq_ic(#[trigger] l[i].config_name@, #[trigger] l[j].config_name@)
}

/// Lower-casing a concatenation lower-cases each part.
proof fn lemma_lower_concat(a: Seq<char>, b: Seq<char>)
    ensures
        lower(a + b) == lower(a) + lower(b),
{
    assert(lower(a + b) =~= lower(a) + lower(b));
}

/// Different numbers give default names that differ ignoring case, and
/// none of them is `Default`.
proof fn lemma_numbered_defaults_differ(k1: nat, k2: nat)
    ensures
        k1 != k2 ==> lower(numbered_default(k1)) != lower(numbered_default(k2)),
        lower(numbered_default(k1)) != lower("Default"@),
{
    reveal_strlit("Default-");
    reveal_strlit("Default");
    let p = "Default-"@;
    lemma_lower_concat(p, dec(k1));
    lemma_lower_concat(p, dec(k2));
    crate::text::lemma_lower_dec(k1);
    crate::text::lemma_lower_dec(k2);
    crate::text::lemma_dec_digits(k1);
    if k1 != k2 && lower(numbered_default(k1)) == lower(numbered_default(k2)) {
        let l1 = lower(numbered_default(k1));
        assert(l1.subrange(8, l1.len() as int) =~= dec(k1));
        assert(lower(numbered_default(k2)).subrange(8, l1.len() as int) =~= dec(k2));
        crate::text::lemma_dec_injective(k1, k2);
    }
    assert(lower(numbered_default(k1)).len() != lower("Default"@).len());
}

/// `first_free_number` returns a number from `from` on whose default name
/// is free, or one past `len + 1` when every number before it is taken.
proof fn lemma_first_free_number(list: Seq<UploaderConfigItem>, from: nat)
    ensures
        from <= first_free_number(list, from),
        first_free_number(list, from) <= if from > list.len() + 2 { from } else { list.len() + 2 },
        first_free_number(list, from) > list.len() + 1 || first_index(
            list,
            name_is(numbered_default(first_free_number(list, from))),
        ) is None,
        forall|k: nat|
            from <= k < first_free_number(list, from) ==> first_index(
                list,
                name_is(#[trigger] numbered_default(k)),
            ) is Some,
    decreases list.len() + 2 - from,
{
    if !(from > list.len() + 1 || first_index(list, name_is(numbered_default(from))) is None) {
        lemma_first_free_number(list, from + 1);
    }
}

/// The name given to an unnamed config is taken by none of the configs,
/// ignoring ASCII case.
proof fn lemma_default_name_free(l: Seq<UploaderConfigItem>)
    ensures
        forall|j: int| 0 <= j < l.len() ==> !eq_ic(#[trigger] l[j].config_name@, spec_default_name(l)),
{
    lemma_first_index(l, name_is("Default"@));
    if first_index(l, name_is("Default"@)) is Some {
        let m = first_free_number(l, 1);
        lemma_first_free_number(l, 1);
        lemma_first_index(l, name_is(numbered_default(m)));
        if first_index(l, name_is(numbered_default(m))) is Some {
            lemma_default_numbers_not_all_taken(l);
        }
    }
}

/// Not every number from 1 to `len + 1` can be taken when `Default` is:
/// that would be `len + 2` names, different ignoring case, held by `len`
/// configs.
proof fn lemma_default_numbers_not_all_taken(l: Seq<UploaderConfigItem>)
    requires
        first_index(l, name_is("Default"@)) is Some,
    ensures
        first_index(l, name_is(numbered_default(first_free_number(l, 1)))) is None,
{
    let n = l.len();
    let m = first_free_number(l, 1);
    lemma_first_free_number(l, 1);
    if first_index(l, name_is(numbered_default(m))) is Some {
        assert(m == n + 2);
        let d0 = first_index(l, name_is("Default"@)).unwrap();
        lemma_first_index(l, name_is("Default"@));
        let f = |k: int|
            if k == 0 {
                d0
            } else {
                first_index(l, name_is(numbered_default(k as nat))).unwrap()
            };
        let x = vstd::set_lib::set_int_range(0, (n + 2) as int);
        let y = vstd::set_lib::set_int_range(0, n as int);
        assert forall|k: int| x.contains(k) && k > 0 implies 0 <= #[trigger] f(k) < n && eq_ic(
            l[f(k)].config_name@,
            numbered_default(k as nat),
        ) by {
            assert(1 <= k as nat && (k as nat) < m);
            assert(first_index(l, name_is(numbered_default(k as nat))) is Some);
            lemma_first_index(l, name_is(numbered_default(k as nat)));
        }
        assert forall|k1: int, k2: int| x.contains(k1) && x.contains(k2) && #[trigger] f(k1) == #[trigger] f(k2)
            implies k1 == k2 by {
            lemma_numbered_defaults_differ(k1 as nat, k2 as nat);
            lemma_numbered_defaults_differ(k2 as nat, k1 as nat);
            if k1 != k2 {
                if k1 > 0 && k2 > 0 {
                    assert(eq_ic(l[f(k1)].config_name@, numbered_default(k1 as nat)));
                    assert(eq_ic(l[f(k2)].config_name@, numbered_default(k2 as nat)));
                } else if k1 == 0 {
                    assert(eq_ic(l[f(k2)].config_name@, numbered_default(k2 as nat)));
                } else {
                    assert(eq_ic(l[f(k1)].config_name@, numbered_default(k1 as nat)));
                }
            }
        }
        vstd::set_lib::lemma_int_range(0, (n + 2) as int);
        vstd::set_lib::lemma_int_range(0, n as int);
        assert(x.map(f).subset_of(y)) by {
            assert forall|v: int| x.map(f).contains(v) implies y.contains(v) by {
                let k = choose|k: int| x.contains(k) && f(k) == v;
                if k > 0 {
                    assert(0 <= f(k) < n);
                }
            }
        }
        vstd::set_lib::lemma_map_size(x, x.map(f), f);
        vstd::set_lib::lemma_len_subset(x.map(f), y);
    }
}

/// Creating or updating a config keeps the names of its type pairwise
/// different, ignoring ASCII case: an existing name is updated in place,
/// and a new config gets the requested name only when no config has it,
/// or else a default name that no config has.
pub proof fn law_upsert_keeps_names_distinct(
    a: ZpicConfigFile,
    b: ZpicConfigFile,
    t: Seq<char>,
    desired: Seq<char>,
    fields: Map<Seq<char>, crate::fields::FieldValue>,
    r: UploaderConfigItem,
)
    requires
        upserted(a, b, t, desired, fields, r),
        names_distinct(spec_configs(a, t)),
    ensures
        names_distinct(spec_configs(b, t)),
{
    let l = spec_configs(a, t);
    let l2 = b.uploader@[t].config_list@;
    assert(spec_configs(b, t) == l2);
    match upsert_index(l, desired) {
        Some(i) => {
            assert forall|p: int| 0 <= p < l2.len() implies #[trigger] l2[p].config_name@ == l[p].config_name@ by {
                if p != i {
                    assert(l2[p] == l[p]);
                }
            }
        },
        None => {
            let nm = l2.last().config_name@;
            if desired.len() == 0 {
                lemma_default_name_free(l);
            } else {
                lemma_first_index(l, name_is(desired));
            }
            assert forall|p: int| 0 <= p < l.len() implies !eq_ic(#[trigger] l[p].config_name@, nm) by {
                if desired.len() > 0 {
                    assert(!name_is(desired)(l[p]));
                }
            }
            assert forall|p: int, q: int| 0 <= p < q < l2.len() implies !eq_ic(
                #[trigger] l2[p].config_name@,
                #[trigger] l2[q].config_name@,
            ) by {
                assert(l2[p] == l[p]);
                if q < l.len() {
                    assert(l2[q] == l[q]);
                }
            }
        },
    }
}

/// A config created or updated under a name is found by that name
/// afterwards, and the call selects its type.
pub proof fn law_upsert_then_found(
    a: ZpicConfigFile,
    b: ZpicConfigFile,
    t: Seq<char>,
    desired: Seq<char>,
    fields: Map<Seq<char>, crate::fields::FieldValue>,
    r: UploaderConfigItem,
)
    requires
        upserted(a, b, t, desired, fields, r),
        desired.len() > 0,
    ensures
        spec_by_name(b, t, desired) is Some,
        selects(b, t),
{
    let l = spec_configs(a, t);
    let l2 = b.uploader@[t].config_list@;
    match upsert_index(l, desired) {
        Some(i) => {
            lemma_first_index(l, name_is(desired));
            assert forall|j: int| 0 <= j < i implies !name_is(desired)(#[trigger] l2[j]) by {
                assert(l2[j] == l[j]);
            }
            assert(name_is(desired)(l2[i]));
            lemma_first_index_is(l2, name_is(desired), i);
        },
        None => {
            lemma_first_index(l, name_is(desired));
            crate::text::lemma_eq_ic_refl(desired);
            assert(l2 =~= l.push(l2.last()));
            lemma_first_index_push_new(l, l2.last(), name_is(desired));
        },
    }
}

/// After a rename, the new (trimmed) name finds a config carrying the
/// renamed config's id.
pub proof fn law_rename_then_found(
    a: ZpicConfigFile,
    b: ZpicConfigFile,
    t: Seq<char>,
    old_name: Seq<char>,
    new_name: Seq<char>,
)
    requires
        renamed(a, b, t, old_name, new_name, Ok(())),
    ensures
        ({
            let l = spec_configs(a, t);
            let id = l[first_index(l, name_is(old_name)).unwrap()].id@;
            spec_by_name(b, t, trim(new_name)) matches Some(it) && it.id@ == id
        }),
{
    let l = spec_configs(a, t);
    let nn = trim(new_name);
    let ti = first_index(l, name_is(old_name)).unwrap();
    let id = l[ti].id@;
    let k = first_index(l, id_is(id)).unwrap();
    let l2 = b.uploader@[t].config_list@;
    lemma_first_index(l, id_is(id));
    lemma_first_index(l, clash(id, nn));
    crate::text::lemma_eq_ic_refl(nn);
    assert(name_is(nn)(l2[k]));
    lemma_first_index(l2, name_is(nn));
    let f = first_index(l2, name_is(nn)).unwrap();
    if f != k {
        assert(l2[f] == l[f]);
        assert(!clash(id, nn)(l[f]));
    }
}

/// Copying never changes which config is the type's default, nor the
/// selected type.
pub proof fn law_copy_keeps_default(
    a: ZpicConfigFile,
    b: ZpicConfigFile,
    t: Seq<char>,
    name: Seq<char>,
    new_name: Seq<char>,
    r: Result<UploaderConfigItem, ZpicError>,
)
    requires
        copied(a, b, t, name, new_name, r),
        a.uploader@.contains_key(t),
    ensures
        b.uploader@[t].default_id@ == a.uploader@[t].default_id@,
        selection_kept(a, b),
{
}

/// Removing the only remaining config of a type clears its default, its
/// mirror and its selection.
pub proof fn law_remove_last_clears(a: ZpicConfigFile, b: ZpicConfigFile, t: Seq<char>, name: Seq<char>)
    requires
        removed(a, b, t, name, Ok(())),
        spec_configs(a, t).len() == 1,
        first_index(spec_configs(a, t), name_is(name)) is Some,
        a.uploader@[t].default_id@ == spec_configs(a, t)[0].id@,
    ensures
        spec_configs(b, t).len() == 0,
        b.uploader@[t].default_id@.len() == 0,
        !b.pic_bed.uploader_mirrors@.contains_key(t),
        opt_view(b.pic_bed.current) != Some(t),
        opt_view(b.pic_bed.uploader) != Some(t),
{
    let l = spec_configs(a, t);
    lemma_first_index(l, name_is(name));
    let rid = l[0].id@;
    reveal_with_fuel(Seq::filter, 2);
    assert(l.drop_last() =~= Seq::<UploaderConfigItem>::empty());
    assert(l.filter(id_not(rid)).len() == 0);
}

/// Removing the default config makes the first remaining config the
/// default.
pub proof fn law_remove_default_promotes_first(
    a: ZpicConfigFile,
    b: ZpicConfigFile,
    t: Seq<char>,
    name: Seq<char>,
)
    requires
        removed(a, b, t, name, Ok(())),
        a.uploader@.contains_key(t),
        first_index(spec_configs(a, t), name_is(name)) matches Some(i) && spec_configs(a, t)[i].id@
            == a.uploader@[t].default_id@,
        spec_configs(b, t).len() > 0,
    ensures
        b.uploader@[t].default_id@ == spec_configs(b, t)[0].id@,
{
}

} // verus!
