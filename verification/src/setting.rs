//! `zpic set uploader`: the `--field KEY=VALUE` arguments and the config
//! they create or update.

use vstd::prelude::*;

use crate::config::UploaderConfigItem;
use crate::error::{error_view, ErrorKind, Failure, ZpicError};
use crate::fields::{copy_fields, merge_fields, FieldValue, Fields};
use crate::manager::{desired_name, duplicate_message, spec_by_name, spec_configs, upsert_index, upserted, UploaderConfigManager};
use crate::smap::SortedMap;
use crate::text::{
    chars_find_from, chars_of, find_char, lemma_find_char, own, push_str, slice_chars, string_of,
    trim, trim_chars, views,
};

verus! {

/// The value TOML reads from `value = <raw>`, when that parses: strings,
/// integers and booleans as such, other values as their TOML text.
pub uninterp spec fn spec_toml_value(raw: Seq<char>) -> Option<FieldValue>;

/// Parses `value = <raw>` with `toml::from_str` into a table and reads its
/// `value`. What TOML makes of the text is named; it depends on the text
/// alone.
#[verifier::external_body]
fn toml_value(raw: &str) -> (r: Option<FieldValue>)
    ensures
        r == spec_toml_value(raw@),
{
    let snippet = format!("value = {raw}");
    match toml::from_str::<toml::Table>(&snippet) {
        Ok(table) => match table.get("value") {
            Some(toml::Value::String(s)) => Some(FieldValue::Text(s.clone())),
            Some(toml::Value::Integer(i)) => Some(FieldValue::Integer(*i)),
            Some(toml::Value::Boolean(b)) => Some(FieldValue::Boolean(*b)),
            Some(other) => Some(FieldValue::Other(other.to_string())),
            None => None,
        },
        Err(_) => None,
    }
}

/// `v` is the value a `--field` with the (trimmed) text `raw` gives: empty
/// text for an empty value, what TOML reads when it parses, else the raw
/// text.
pub open spec fn is_field_value(raw: Seq<char>, v: FieldValue) -> bool {
    if raw.len() == 0 {
        v matches FieldValue::Text(s) && s@.len() == 0
    } else {
        match spec_toml_value(raw) {
            Some(t) => v == t,
            None => v matches FieldValue::Text(s) && s@ == raw,
        }
    }
}

/// The value of a `--field`'s text given what TOML read from it: empty
/// text for an empty value, the TOML value when it parsed, else the raw
/// text.
pub fn field_value_from(raw: &str, parsed: Option<FieldValue>) -> (r: FieldValue)
    ensures
        raw@.len() == 0 ==> (r matches FieldValue::Text(s) && s@.len() == 0),
        raw@.len() > 0 ==> match parsed {
            Some(v) => r == v,
            None => r matches FieldValue::Text(s) && s@ == raw@,
        },
{
    if raw.is_empty() {
        return FieldValue::Text(String::new());
    }
    match parsed {
        Some(v) => v,
        None => FieldValue::Text(own(raw)),
    }
}

/// The value of a `--field`'s text.
pub fn parse_toml_value(raw: &str) -> (r: FieldValue)
    ensures
        is_field_value(raw@, r),
{
    if raw.is_empty() {
        return FieldValue::Text(String::new());
    }
    field_value_from(raw, toml_value(raw))
}

/// One `--field` split at its first `=` into trimmed key and value.
pub open spec fn field_item(item: Seq<char>) -> Result<(Seq<char>, Seq<char>), Failure> {
    match find_char(item, '=') {
        None => Err((ErrorKind::InvalidArgument, "invalid --field '"@ + item + "'; expected KEY=VALUE"@)),
        Some(i) => if trim(item.subrange(0, i)).len() == 0 {
            Err((ErrorKind::InvalidArgument, "invalid --field '"@ + item + "'; key can not be empty"@))
        } else {
            Ok((trim(item.subrange(0, i)), trim(item.subrange(i + 1, item.len() as int))))
        },
    }
}

/// The fields of a list of `--field` arguments, key to value text (a later
/// key wins), or the first malformed one's error.
pub open spec fn spec_fields(items: Seq<Seq<char>>) -> Result<Map<Seq<char>, Seq<char>>, Failure>
    decreases items.len(),
{
    if items.len() == 0 {
        Ok(Map::empty())
    } else {
        match spec_fields(items.drop_last()) {
            Err(f) => Err(f),
            Ok(m) => match field_item(items.last()) {
                Err(f) => Err(f),
                Ok((k, v)) => Ok(m.insert(k, v)),
            },
        }
    }
}

/// The fields of `--field KEY=VALUE` arguments, as `spec_fields` states.
pub fn parse_fields(items: &Vec<String>) -> (r: Result<Fields, ZpicError>)
    ensures
        match spec_fields(views(items@)) {
            Ok(m) => r matches Ok(f) && f@.dom() == m.dom() && forall|k: Seq<char>|
                #[trigger] m.contains_key(k) ==> is_field_value(m[k], f@[k]),
            Err(fail) => r matches Err(e) && error_view(e) == fail,
        },
{
    let mut out: Fields = SortedMap::new();
    let mut i: usize = 0;
    while i < items.len()
        invariant
            i <= items@.len(),
            spec_fields(views(items@).subrange(0, i as int)) matches Ok(m) && out@.dom() == m.dom()
                && forall|k: Seq<char>| #[trigger] m.contains_key(k) ==> is_field_value(m[k], out@[k]),
        decreases items@.len() - i,
    {
        let item = items[i].as_str();
        let c = chars_of(item);
        let ghost pre = views(items@).subrange(0, i as int);
        proof {
            let s = views(items@).subrange(0, i + 1);
            assert(s.drop_last() =~= pre);
            assert(s.last() == item@);
            lemma_find_char(item@, '=');
        }
        match chars_find_from(&c, '=', 0) {
            None => {
                proof {
                    assert(c@.subrange(0, c@.len() as int) =~= c@);
                }
                let mut m: Vec<char> = Vec::new();
                push_str(&mut m, "invalid --field '");
                push_str(&mut m, item);
                push_str(&mut m, "'; expected KEY=VALUE");
                let e = ZpicError::InvalidArgument(string_of(&m));
                proof {
                    lemma_spec_fields_err(views(items@), i as int);
                }
                return Err(e);
            },
            Some(p) => {
                proof {
                    assert(c@.subrange(0, c@.len() as int) =~= c@);
                }
                let key = trim_chars(&slice_chars(&c, 0, p));
                if key.len() == 0 {
                    let mut m: Vec<char> = Vec::new();
                    push_str(&mut m, "invalid --field '");
                    push_str(&mut m, item);
                    push_str(&mut m, "'; key can not be empty");
                    let e = ZpicError::InvalidArgument(string_of(&m));
                    proof {
                        lemma_spec_fields_err(views(items@), i as int);
                    }
                    return Err(e);
                }
                let raw = trim_chars(&slice_chars(&c, p + 1, c.len()));
                let rs = string_of(&raw);
                let v = parse_toml_value(rs.as_str());
                let ghost before = out@;
                out.insert(string_of(&key), v);
                proof {
                    let m0 = spec_fields(pre)->Ok_0;
                    let m1 = m0.insert(key@, raw@);
                    assert(spec_fields(views(items@).subrange(0, i + 1)) == Ok::<Map<Seq<char>, Seq<char>>, Failure>(m1));
                    assert(out@.dom() =~= m1.dom());
                    assert forall|k: Seq<char>| #[trigger] m1.contains_key(k) implies is_field_value(m1[k], out@[k]) by {
                        if k != key@ {
                            assert(m0.contains_key(k));
                        }
                    }
                }
            },
        }
        i = i + 1;
    }
    proof {
        assert(views(items@).subrange(0, items@.len() as int) =~= views(items@));
    }
    Ok(out)
}

/// An error at item `i`, with every earlier item well formed, is the error
/// of the whole list.
proof fn lemma_spec_fields_err(items: Seq<Seq<char>>, i: int)
    requires
        0 <= i < items.len(),
        spec_fields(items.subrange(0, i)) is Ok,
        field_item(items[i]) is Err,
    ensures
        spec_fields(items) == Err::<Map<Seq<char>, Seq<char>>, Failure>(field_item(items[i])->Err_0),
    decreases items.len() - i,
{
    if i == items.len() - 1 {
        assert(items.drop_last() =~= items.subrange(0, i));
    } else {
        assert(items.drop_last().subrange(0, i) =~= items.subrange(0, i));
        assert(items.drop_last()[i] == items[i]);
        lemma_spec_fields_err(items.drop_last(), i);
    }
}

/// The message for a `--from` config that does not exist.
pub open spec fn missing_from_message(from: Seq<char>, t: Seq<char>) -> Seq<char> {
    "config '"@ + from + "' not found in type '"@ + t + "'"@
}

/// Create or update config `name` of type `t` with the given fields,
/// seeded with the fields of config `from` when one is named (the given
/// fields win); it becomes the active config.
pub fn set_uploader(
    manager: &mut UploaderConfigManager,
    uploader_type: &str,
    config_name: &str,
    from: Option<&str>,
    patch: &Fields,
) -> (r: Result<UploaderConfigItem, ZpicError>)
    ensures
        match from {
            Some(f) => spec_by_name(old(manager).config, uploader_type@, f@) is None ==> (r matches Err(e)
                && error_view(e) == (ErrorKind::ConfigInvalid, missing_from_message(f@, uploader_type@))
                && final(manager).config == old(manager).config),
            None => true,
        },
        ({
            let seed = match from {
                Some(f) => match spec_by_name(old(manager).config, uploader_type@, f@) {
                    Some(it) => Some(it.fields@),
                    None => None,
                },
                None => Some(Map::<Seq<char>, FieldValue>::empty()),
            };
            let a = old(manager).config;
            let b = final(manager).config;
            let t = uploader_type@;
            let l = spec_configs(a, t);
            let desired = desired_name(Some(config_name));
            match seed {
                Some(sf) => {
                    let fields = sf.union_prefer_right(patch@);
                    match r {
                        Ok(it) => !(upsert_index(l, desired) is Some && fields == Map::<Seq<char>, FieldValue>::empty())
                            && upserted(a, b, t, desired, fields, it),
                        Err(e) => upsert_index(l, desired) is Some && fields == Map::<Seq<char>, FieldValue>::empty()
                            && error_view(e) == (
                            ErrorKind::ConfigInvalid,
                            duplicate_message(l[upsert_index(l, desired).unwrap()].config_name@, t),
                        ) && b == a,
                    }
                },
                None => true,
            }
        }),
{
    let mut seed: Fields = match from {
        Some(f) => match manager.get_by_name(uploader_type, f) {
            Some(item) => copy_fields(&item.fields),
            None => {
                let mut m: Vec<char> = Vec::new();
                push_str(&mut m, "config '");
                push_str(&mut m, f);
                push_str(&mut m, "' not found in type '");
                push_str(&mut m, uploader_type);
                push_str(&mut m, "'");
                return Err(ZpicError::ConfigInvalid(string_of(&m)));
            },
        },
        None => SortedMap::new(),
    };
    merge_fields(&mut seed, patch);
    manager.create_or_update(uploader_type, Some(config_name), seed)
}

} // verus!
