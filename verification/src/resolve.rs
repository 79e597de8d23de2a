//! Resolving the uploader type a command names to a config group of the
//! loaded configuration, through the registry's types and aliases.

use vstd::prelude::*;

use crate::config::{active_index, UploaderConfigItem, UploaderTypeConfigs, spec_active_type};
use crate::error::{error_view, ErrorKind, Failure, ZpicError};
use crate::loader::LoadedConfig;
use crate::registry::{UploaderDescriptor, UploaderRegistry};
use crate::seqs::{first_index, lemma_first_index, lemma_first_index_is, lemma_first_index_none};
use crate::smap::{keys_of, SortedMap};
use crate::text::{
    chars_of, eq_ic, join_sep, join_strings, lower, own, push_str, str_eq_ic, string_of, to_lower,
    trim, trim_str, views,
};

verus! {

/// The config groups of a configuration, in key order.
pub open spec fn group_keys(c: LoadedConfig) -> Seq<Seq<char>> {
    keys_of(c.zpic.uploader.seq())
}

/// The first key equal to `want`, ignoring ASCII case.
pub open spec fn key_ic(keys: Seq<Seq<char>>, want: Seq<char>) -> Option<Seq<char>> {
    match first_index(keys, |k: Seq<char>| eq_ic(k, want)) {
        Some(i) => Some(keys[i]),
        None => None,
    }
}

/// A key whose registered descriptor has the canonical type `canonical`.
pub open spec fn of_kind(reg: UploaderRegistry, canonical: Seq<char>) -> spec_fn(Seq<char>) -> bool {
    |k: Seq<char>| reg.spec_resolve(k) is Some && eq_ic(reg.spec_resolve(k).unwrap().uploader_type@, canonical)
}

/// The config group a requested uploader type resolves to.
///
/// The request is trimmed; an empty one is invalid. A group whose key
/// equals it (ignoring case) wins. Else, when the registry knows the type
/// or one of its aliases, the groups of that registered type decide: none
/// means the canonical type (when a new group may be made), one means that
/// group, several mean the one named like the canonical type, else the one
/// named like the active type, else the request is ambiguous. A type the
/// registry does not know becomes the lower-cased request when a group may
/// be made, else it is not found.
pub open spec fn spec_registered_key(
    keys: Seq<Seq<char>>,
    reg: UploaderRegistry,
    active: Option<Seq<char>>,
    requested: Seq<char>,
    allow_create: bool,
) -> Result<Seq<char>, Failure> {
    let req = trim(requested);
    if req.len() == 0 {
        Err((ErrorKind::InvalidArgument, "uploader type can not be empty"@))
    } else if key_ic(keys, req) is Some {
        Ok(key_ic(keys, req).unwrap())
    } else if reg.spec_resolve(req) is Some && (keys.filter(of_kind(reg, reg.spec_resolve(req).unwrap().uploader_type@)).len() > 0 || allow_create) {
        let canonical = reg.spec_resolve(req).unwrap().uploader_type@;
        let matches = keys.filter(of_kind(reg, canonical));
        if matches.len() == 0 {
            Ok(canonical)
        } else if matches.len() == 1 {
            Ok(matches[0])
        } else if key_ic(matches, canonical) is Some {
            Ok(key_ic(matches, canonical).unwrap())
        } else if active is Some && key_ic(matches, active.unwrap()) is Some {
            Ok(key_ic(matches, active.unwrap()).unwrap())
        } else {
            Err((
                ErrorKind::ConfigInvalid,
                "uploader type '"@ + req + "' is ambiguous; matching config groups: "@ + join_sep(
                    matches,
                    ", "@,
                ),
            ))
        }
    } else if allow_create {
        Ok(lower(req))
    } else {
        Err((ErrorKind::UploaderNotFound, req))
    }
}

/// The config group a requested type names, without the registry: a group
/// named like it (ignoring case), else the lower-cased request when a group
/// may be made.
pub open spec fn spec_config_key(keys: Seq<Seq<char>>, requested: Seq<char>, allow_create: bool) -> Result<Seq<char>, Failure> {
    let req = trim(requested);
    if req.len() == 0 {
        Err((ErrorKind::InvalidArgument, "uploader type can not be empty"@))
    } else if key_ic(keys, req) is Some {
        Ok(key_ic(keys, req).unwrap())
    } else if allow_create {
        Ok(lower(req))
    } else {
        Err((ErrorKind::UploaderNotFound, req))
    }
}

/// The outcome of a resolution as a value.
pub open spec fn key_outcome(r: Result<String, ZpicError>) -> Result<Seq<char>, Failure> {
    match r {
        Ok(s) => Ok(s@),
        Err(e) => Err(error_view(e)),
    }
}

fn group_key_list(m: &SortedMap<UploaderTypeConfigs>) -> (r: Vec<String>)
    ensures
        views(r@) == keys_of(m.seq()),
{
    let mut out: Vec<String> = Vec::new();
    let n = m.len();
    let mut i: usize = 0;
    while i < n
        invariant
            n == m.seq().len(),
            i <= n,
            out@.len() == i,
            views(out@) == keys_of(m.seq()).subrange(0, i as int),
        decreases n - i,
    {
        let k = m.key_at(i);
        let ghost old_out = out@;
        let kk = own(k.as_str());
        out.push(kk);
        proof {
            assert(keys_of(m.seq())[i as int] == m.seq()[i as int].0);
            assert(out@ == old_out.push(kk));
            assert(views(out@)[i as int] == kk@);
            assert(kk@ == keys_of(m.seq())[i as int]);
            assert forall|j: int| 0 <= j < i implies views(out@)[j] == views(old_out)[j] by {}
            assert(views(out@) =~= keys_of(m.seq()).subrange(0, i + 1));
        }
        i = i + 1;
    }
    assert(keys_of(m.seq()).subrange(0, n as int) =~= keys_of(m.seq()));
    out
}

fn find_ic(keys: &Vec<String>, want: &str) -> (r: Option<String>)
    ensures
        match r {
            Some(k) => key_ic(views(keys@), want@) == Some(k@),
            None => key_ic(views(keys@), want@) is None,
        },
{
    let ghost p = |k: Seq<char>| eq_ic(k, want@);
    let mut i: usize = 0;
    while i < keys.len()
        invariant
            i <= keys.len(),
            p == (|k: Seq<char>| eq_ic(k, want@)),
            forall|j: int| 0 <= j < i ==> !p(#[trigger] views(keys@)[j]),
        decreases keys.len() - i,
    {
        if str_eq_ic(keys[i].as_str(), want) {
            proof {
                assert(p(views(keys@)[i as int]));
                lemma_first_index_is(views(keys@), p, i as int);
            }
            return Some(keys[i].clone());
        }
        proof {
            assert(!p(views(keys@)[i as int]));
        }
        i = i + 1;
    }
    proof {
        lemma_first_index_none(views(keys@), p);
    }
    None
}

fn groups_of_kind(keys: &Vec<String>, registry: &UploaderRegistry, canonical: &str) -> (r: Vec<String>)
    ensures
        views(r@) == views(keys@).filter(of_kind(*registry, canonical@)),
{
    let ghost p = of_kind(*registry, canonical@);
    let mut out: Vec<String> = Vec::new();
    let mut i: usize = 0;
    while i < keys.len()
        invariant
            i <= keys.len(),
            p == of_kind(*registry, canonical@),
            views(out@) == views(keys@).subrange(0, i as int).filter(p),
        decreases keys.len() - i,
    {
        let hit = match registry.canonical_type(keys[i].as_str()) {
            Some(kind) => str_eq_ic(kind, canonical),
            None => false,
        };
        if hit {
            out.push(own(keys[i].as_str()));
        }
        proof {
            let s = views(keys@).subrange(0, i + 1);
            assert(s.drop_last() =~= views(keys@).subrange(0, i as int));
            assert(s.last() == keys@[i as int]@);
            assert(hit == p(s.last()));
            reveal(Seq::filter);
            assert(s.filter(p) == if p(s.last()) {
                s.drop_last().filter(p).push(s.last())
            } else {
                s.drop_last().filter(p)
            });
            assert(views(out@) =~= s.filter(p));
        }
        i = i + 1;
    }
    assert(views(keys@).subrange(0, keys.len() as int) =~= views(keys@));
    out
}

/// The config group a requested type resolves to, as
/// `spec_registered_key` states.
pub fn resolve_registered_type_key(
    config: &LoadedConfig,
    registry: &UploaderRegistry,
    requested: &str,
    allow_create: bool,
) -> (r: Result<String, ZpicError>)
    ensures
        key_outcome(r) == spec_registered_key(
            group_keys(*config),
            *registry,
            spec_active_type(config.zpic),
            requested@,
            allow_create,
        ),
{
    let req = trim_str(requested);
    if req.as_str().unicode_len() == 0 {
        return Err(ZpicError::InvalidArgument(own("uploader type can not be empty")));
    }
    let keys = group_key_list(&config.zpic.uploader);
    match find_ic(&keys, req.as_str()) {
        Some(k) => return Ok(k),
        None => {},
    }
    match registry.canonical_type(req.as_str()) {
        Some(canonical) => {
            let matches = groups_of_kind(&keys, registry, canonical);
            if matches.len() == 0 {
                if allow_create {
                    return Ok(own(canonical));
                }
            } else if matches.len() == 1 {
                return Ok(matches[0].clone());
            } else {
                match find_ic(&matches, canonical) {
                    Some(k) => return Ok(k),
                    None => {},
                }
                match config.active_uploader_type() {
                    Some(a) => match find_ic(&matches, a) {
                        Some(k) => return Ok(k),
                        None => {},
                    },
                    None => {},
                }
                let mut msg: Vec<char> = Vec::new();
                push_str(&mut msg, "uploader type '");
                push_str(&mut msg, req.as_str());
                push_str(&mut msg, "' is ambiguous; matching config groups: ");
                let joined = join_strings(&matches, ", ");
                push_str(&mut msg, joined.as_str());
                return Err(ZpicError::ConfigInvalid(string_of(&msg)));
            }
        },
        None => {},
    }
    if allow_create {
        Ok(to_lower(req.as_str()))
    } else {
        Err(ZpicError::UploaderNotFound(req))
    }
}

/// The config group a requested type names, as `spec_config_key` states.
pub fn resolve_config_type_key(config: &LoadedConfig, requested: &str, allow_create: bool) -> (r: Result<String, ZpicError>)
    ensures
        key_outcome(r) == spec_config_key(group_keys(*config), requested@, allow_create),
{
    let req = trim_str(requested);
    if req.as_str().unicode_len() == 0 {
        return Err(ZpicError::InvalidArgument(own("uploader type can not be empty")));
    }
    let keys = group_key_list(&config.zpic.uploader);
    match find_ic(&keys, req.as_str()) {
        Some(k) => return Ok(k),
        None => {},
    }
    if allow_create {
        Ok(to_lower(req.as_str()))
    } else {
        Err(ZpicError::UploaderNotFound(req))
    }
}

/// An existing config group named like the request.
pub fn resolve_existing_type_key(config: &LoadedConfig, requested: &str) -> (r: Result<String, ZpicError>)
    ensures
        key_outcome(r) == spec_config_key(group_keys(*config), requested@, false),
{
    resolve_config_type_key(config, requested, false)
}

/// The config group of a request, or the group a new config of it goes to.
pub fn resolve_or_create_type_key(config: &LoadedConfig, registry: &UploaderRegistry, requested: &str) -> (r: Result<String, ZpicError>)
    ensures
        key_outcome(r) == spec_registered_key(
            group_keys(*config),
            *registry,
            spec_active_type(config.zpic),
            requested@,
            true,
        ),
{
    resolve_registered_type_key(config, registry, requested, true)
}

/// The config group of the active uploader type.
pub fn resolve_active_type_key(config: &LoadedConfig, registry: &UploaderRegistry) -> (r: Result<String, ZpicError>)
    ensures
        match spec_active_type(config.zpic) {
            Some(a) => key_outcome(r) == spec_registered_key(
                group_keys(*config),
                *registry,
                Some(a),
                a,
                false,
            ),
            None => r matches Err(ZpicError::UploaderNotFound(m)) && m@ == "<no active uploader>"@,
        },
{
    match config.active_uploader_type() {
        Some(active) => resolve_registered_type_key(config, registry, active, false),
        None => Err(ZpicError::UploaderNotFound(own("<no active uploader>"))),
    }
}

/// The uploader a command runs with: its config group, the registered type
/// it runs as, and the group's active config.
pub struct ResolvedUploaderTarget<'a> {
    pub configured_type: String,
    pub runtime_type: String,
    pub config_name: String,
    pub item: UploaderConfigItem,
    pub descriptor: &'a UploaderDescriptor,
}

/// The message for a group without an active config.
pub open spec fn no_active_message(t: Seq<char>) -> Seq<char> {
    t + " (no active config; run `zpic set uploader "@ + t + " <name>` first)"@
}

/// The group a type key resolved to, read into a target: its active
/// config and the descriptor the registry resolves the key to.
pub open spec fn spec_target(
    c: LoadedConfig,
    reg: UploaderRegistry,
    key: Seq<char>,
    r: Result<ResolvedUploaderTarget, ZpicError>,
) -> bool {
    if !c.zpic.uploader@.contains_key(key) || active_index(
        c.zpic.uploader@[key].config_list@,
        c.zpic.uploader@[key].default_id@,
    ) is None {
        r matches Err(ZpicError::UploaderNotFound(m)) && m@ == no_active_message(key)
    } else if reg.spec_resolve(key) is None {
        r matches Err(ZpicError::UploaderUnsupported(m)) && m@ == key
    } else {
        let store = c.zpic.uploader@[key];
        let item = store.config_list@[active_index(store.config_list@, store.default_id@).unwrap()];
        let d = reg.spec_resolve(key).unwrap();
        &&& r matches Ok(t)
        &&& t.configured_type@ == key
        &&& t.runtime_type@ == d.uploader_type@
        &&& t.config_name@ == item.config_name@
        &&& t.item.id == item.id && t.item.config_name == item.config_name
        &&& t.item.created_at == item.created_at && t.item.updated_at == item.updated_at
        &&& t.item.fields@ == item.fields@
        &&& *t.descriptor == d
    }
}

fn target_for<'a>(config: &LoadedConfig, registry: &'a UploaderRegistry, key: String) -> (r: Result<ResolvedUploaderTarget<'a>, ZpicError>)
    ensures
        spec_target(*config, *registry, key@, r),
{
    let store = match config.zpic.uploader.get(key.as_str()) {
        Some(s) => s,
        None => {
            let mut m: Vec<char> = Vec::new();
            push_str(&mut m, key.as_str());
            push_str(&mut m, " (no active config; run `zpic set uploader ");
            push_str(&mut m, key.as_str());
            push_str(&mut m, " <name>` first)");
            return Err(ZpicError::UploaderNotFound(string_of(&m)));
        },
    };
    let active = match store.active() {
        Some(a) => a,
        None => {
            let mut m: Vec<char> = Vec::new();
            push_str(&mut m, key.as_str());
            push_str(&mut m, " (no active config; run `zpic set uploader ");
            push_str(&mut m, key.as_str());
            push_str(&mut m, " <name>` first)");
            return Err(ZpicError::UploaderNotFound(string_of(&m)));
        },
    };
    let descriptor = match registry.resolve(key.as_str()) {
        Some(d) => d,
        None => return Err(ZpicError::UploaderUnsupported(key)),
    };
    Ok(ResolvedUploaderTarget {
        configured_type: key,
        runtime_type: descriptor.uploader_type.clone(),
        config_name: active.config_name.clone(),
        item: active.duplicate(),
        descriptor,
    })
}

/// The config group a command's uploader comes from: the group the
/// requested type resolves to, else the active type's group.
pub open spec fn spec_uploader_key(c: LoadedConfig, reg: UploaderRegistry, requested: Option<Seq<char>>) -> Result<Seq<char>, Failure> {
    match requested {
        Some(o) => spec_registered_key(group_keys(c), reg, spec_active_type(c.zpic), o, false),
        None => match spec_active_type(c.zpic) {
            Some(a) => spec_registered_key(group_keys(c), reg, Some(a), a, false),
            None => Err((ErrorKind::UploaderNotFound, "<no active uploader>"@)),
        },
    }
}

/// The uploader a command runs with: the group the override names, else
/// the active type's group, with its active config and descriptor.
pub fn resolve_uploader<'a>(config: &LoadedConfig, registry: &'a UploaderRegistry, override_type: Option<&str>) -> (r: Result<ResolvedUploaderTarget<'a>, ZpicError>)
    ensures
        ({
            let key = spec_uploader_key(
                *config,
                *registry,
                match override_type {
                    Some(o) => Some(o@),
                    None => None,
                },
            );
            match key {
                Ok(k) => spec_target(*config, *registry, k, r),
                Err(f) => r matches Err(e) && error_view(e) == f,
            }
        }),
{
    let key = match override_type {
        Some(requested) => resolve_registered_type_key(config, registry, requested, false),
        None => resolve_active_type_key(config, registry),
    };
    match key {
        Ok(k) => target_for(config, registry, k),
        Err(e) => Err(e),
    }
}

} // verus!
