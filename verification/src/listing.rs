//! The machine-readable listing of configured uploader types and their
//! named configs (`zpic uploader list --json`).

use vstd::prelude::*;

use crate::config::{active_index, spec_active_type, UploaderTypeConfigs, ZpicConfigFile};
use crate::smap::{keys_of, SortedMap};
use crate::text::{eq_ic, opt_view, own, str_eq, str_eq_ic, views};

verus! {

/// One named config in the listing.
pub struct UploaderConfigPayload {
    pub id: String,
    pub name: String,
    pub is_default: bool,
    pub created_at: i64,
    pub updated_at: i64,
}

/// One uploader type in the listing.
pub struct UploaderTypePayload {
    pub uploader_type: String,
    pub is_current: bool,
    pub default_config: Option<String>,
    pub configs: Vec<UploaderConfigPayload>,
}

/// The listing.
pub struct UploaderListPayload {
    pub current_uploader: Option<String>,
    pub types: Vec<UploaderTypePayload>,
}

/// The types listed: every type, or those named like the selection.
pub open spec fn listed_keys(c: ZpicConfigFile, selected: Option<Seq<char>>) -> Seq<Seq<char>> {
    keys_of(c.uploader.seq()).filter(
        |k: Seq<char>|
            match selected {
                Some(s) => eq_ic(k, s),
                None => true,
            },
    )
}

/// `p` describes the configs of type `key`.
pub open spec fn type_payload_of(c: ZpicConfigFile, key: Seq<char>, p: UploaderTypePayload) -> bool {
    let store = c.uploader@[key];
    &&& p.uploader_type@ == key
    &&& p.is_current == (spec_active_type(c) == Some(key))
    &&& opt_view(p.default_config) == match active_index(store.config_list@, store.default_id@) {
        Some(i) => Some(store.config_list@[i].config_name@),
        None => None,
    }
    &&& p.configs@.len() == store.config_list@.len()
    &&& forall|i: int|
        0 <= i < p.configs@.len() ==> {
            let item = store.config_list@[i];
            &&& (#[trigger] p.configs@[i]).id@ == item.id@
            &&& p.configs@[i].name@ == item.config_name@
            &&& p.configs@[i].is_default == (item.id@ == store.default_id@)
            &&& p.configs@[i].created_at == item.created_at
            &&& p.configs@[i].updated_at == item.updated_at
        }
}

fn type_payload(key: &str, store: &UploaderTypeConfigs, active_type: Option<&str>) -> (r: UploaderTypePayload)
    ensures
        r.uploader_type@ == key@,
        r.is_current == (active_type matches Some(a) && a@ == key@),
        opt_view(r.default_config) == match active_index(store.config_list@, store.default_id@) {
            Some(i) => Some(store.config_list@[i].config_name@),
            None => None,
        },
        r.configs@.len() == store.config_list@.len(),
        forall|i: int|
            0 <= i < r.configs@.len() ==> {
                let item = store.config_list@[i];
                &&& (#[trigger] r.configs@[i]).id@ == item.id@
                &&& r.configs@[i].name@ == item.config_name@
                &&& r.configs@[i].is_default == (item.id@ == store.default_id@)
                &&& r.configs@[i].created_at == item.created_at
                &&& r.configs@[i].updated_at == item.updated_at
            },
{
    let mut configs: Vec<UploaderConfigPayload> = Vec::new();
    let mut i: usize = 0;
    while i < store.config_list.len()
        invariant
            i <= store.config_list@.len(),
            configs@.len() == i,
            forall|j: int|
                0 <= j < i ==> {
                    let item = store.config_list@[j];
                    &&& (#[trigger] configs@[j]).id@ == item.id@
                    &&& configs@[j].name@ == item.config_name@
                    &&& configs@[j].is_default == (item.id@ == store.default_id@)
                    &&& configs@[j].created_at == item.created_at
                    &&& configs@[j].updated_at == item.updated_at
                },
        decreases store.config_list@.len() - i,
    {
        let item = &store.config_list[i];
        configs.push(
            UploaderConfigPayload {
                id: own(item.id.as_str()),
                name: own(item.config_name.as_str()),
                is_default: str_eq(item.id.as_str(), store.default_id.as_str()),
                created_at: item.created_at,
                updated_at: item.updated_at,
            },
        );
        i = i + 1;
    }
    let default_config = match store.active() {
        Some(item) => Some(own(item.config_name.as_str())),
        None => None,
    };
    let is_current = match active_type {
        Some(a) => str_eq(a, key),
        None => false,
    };
    UploaderTypePayload { uploader_type: own(key), is_current, default_config, configs }
}

impl UploaderListPayload {
    /// The listing of a configuration, optionally narrowed to the types
    /// named like `selected_type` (ignoring ASCII case), in key order.
    pub fn from_config(config: &ZpicConfigFile, selected_type: Option<&str>) -> (r: Self)
        ensures
            opt_view(r.current_uploader) == spec_active_type(*config),
            r.types@.len() == listed_keys(
                *config,
                match selected_type {
                    Some(s) => Some(s@),
                    None => None,
                },
            ).len(),
            forall|i: int|
                0 <= i < r.types@.len() ==> type_payload_of(
                    *config,
                    listed_keys(
                        *config,
                        match selected_type {
                            Some(s) => Some(s@),
                            None => None,
                        },
                    )[i],
                    #[trigger] r.types@[i],
                ),
    {
        let ghost sel = match selected_type {
            Some(s) => Some(s@),
            None => None,
        };
        let ghost pred = |k: Seq<char>|
            match sel {
                Some(s) => eq_ic(k, s),
                None => true,
            };
        let active = config.active_uploader_type();
        let m = &config.uploader;
        m.check();
        let n = m.len();
        let mut types: Vec<UploaderTypePayload> = Vec::new();
        let mut i: usize = 0;
        while i < n
            invariant
                n == m.seq().len(),
                i <= n,
                *m == config.uploader,
                pred == (|k: Seq<char>|
                    match sel {
                        Some(s) => eq_ic(k, s),
                        None => true,
                    }),
                sel == match selected_type {
                    Some(s) => Some(s@),
                    None => None,
                },
                match active {
                    Some(a) => spec_active_type(*config) == Some(a@),
                    None => spec_active_type(*config) is None,
                },
                crate::smap::sorted_keys(m.seq()),
                forall|j: int|
                    0 <= j < n ==> m@.contains_key(#[trigger] m.seq()[j].0) && m@[m.seq()[j].0]
                        == m.seq()[j].1,
                types@.len() == keys_of(m.seq()).subrange(0, i as int).filter(pred).len(),
                forall|j: int|
                    0 <= j < types@.len() ==> type_payload_of(
                        *config,
                        keys_of(m.seq()).subrange(0, i as int).filter(pred)[j],
                        #[trigger] types@[j],
                    ),
            decreases n - i,
        {
            let key = m.key_at(i);
            let store = m.value_at(i);
            let keep = match selected_type {
                Some(s) => str_eq_ic(key.as_str(), s),
                None => true,
            };
            let ghost before = keys_of(m.seq()).subrange(0, i as int).filter(pred);
            proof {
                reveal(Seq::filter);
                let s = keys_of(m.seq()).subrange(0, i + 1);
                assert(s.drop_last() =~= keys_of(m.seq()).subrange(0, i as int));
                assert(s.last() == m.seq()[i as int].0);
                assert(keep == pred(s.last()));
            }
            if keep {
                let p = type_payload(key.as_str(), store, active);
                types.push(p);
                proof {
                    let s = keys_of(m.seq()).subrange(0, i + 1);
                    assert(s.filter(pred) == before.push(key@));
                    assert forall|j: int| 0 <= j < types@.len() implies type_payload_of(
                        *config,
                        s.filter(pred)[j],
                        #[trigger] types@[j],
                    ) by {
                        if j == types@.len() - 1 {
                            assert(config.uploader@[key@] == *store);
                        }
                    }
                }
            } else {
                proof {
                    let s = keys_of(m.seq()).subrange(0, i + 1);
                    assert(s.filter(pred) == before);
                }
            }
            i = i + 1;
        }
        proof {
            assert(keys_of(m.seq()).subrange(0, n as int) =~= keys_of(m.seq()));
        }
        let current_uploader = match active {
            Some(a) => Some(own(a)),
            None => None,
        };
        UploaderListPayload { current_uploader, types }
    }
}

} // verus!
