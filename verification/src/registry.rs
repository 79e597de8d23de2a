//! Uploader descriptors (built-in and plugin) and the registry that
//! resolves uploader types and their PicGo aliases, ignoring ASCII case.

use vstd::prelude::*;

use crate::error::{error_view, ErrorKind, Failure, ZpicError};
use crate::smap::{map_of, SortedMap};
use crate::text::{
    chars_lex_lt, chars_of, lemma_lex_asym, lemma_lex_irreflexive, lemma_lex_total,
    lemma_lex_trans, lex_lt, lower, lower_chars, own, push_str, str_eq, string_of, to_lower,
    trim, trim_chars,
};

verus! {

/// One input field an uploader asks for during guided setup.
pub struct UploaderFieldSchema {
    pub key: String,
    pub label: String,
    pub required: bool,
    pub secret: bool,
    pub default: Option<String>,
}

/// One uploader a plugin declares.
pub struct PluginUploaderManifest {
    pub uploader_type: String,
    pub display_name: Option<String>,
    pub picgo_aliases: Vec<String>,
    pub fields: Vec<UploaderFieldSchema>,
}

impl PluginUploaderManifest {
    /// The display name, falling back to the type name.
    pub fn display_name(&self) -> (r: &str)
        ensures
            r@ == match self.display_name {
                Some(d) => d@,
                None => self.uploader_type@,
            },
    {
        match &self.display_name {
            Some(d) => d.as_str(),
            None => self.uploader_type.as_str(),
        }
    }
}

/// A capability declaration reserved for later stages (transformers,
/// hooks).
pub struct FutureCapabilityManifest {
    pub name: String,
}

/// A plugin's `plugin.toml`.
pub struct PluginManifest {
    pub id: String,
    pub name: String,
    pub version: String,
    /// The WASM module's file name (`plugin.wasm` by default).
    pub wasm_file: String,
    pub uploaders: Vec<PluginUploaderManifest>,
    pub transformers: Vec<FutureCapabilityManifest>,
    pub hooks: Vec<FutureCapabilityManifest>,
}

/// Where an uploader comes from.
#[derive(Clone, Copy, PartialEq, Eq, Structural, Debug)]
pub enum UploaderDescriptorKind {
    Builtin,
    Plugin,
}

/// What the registry knows of an uploader type.
pub struct UploaderDescriptor {
    pub kind: UploaderDescriptorKind,
    pub uploader_type: String,
    pub display_name: String,
    pub aliases: Vec<String>,
    pub fields: Vec<UploaderFieldSchema>,
}

/// A built-in uploader's descriptor.
pub fn builtin_uploader_descriptor(
    uploader_type: &str,
    display_name: &str,
    aliases: Vec<String>,
    fields: Vec<UploaderFieldSchema>,
) -> (r: UploaderDescriptor)
    ensures
        r.kind == UploaderDescriptorKind::Builtin,
        r.uploader_type@ == uploader_type@,
        r.display_name@ == display_name@,
        r.aliases == aliases,
        r.fields == fields,
{
    UploaderDescriptor {
        kind: UploaderDescriptorKind::Builtin,
        uploader_type: own(uploader_type),
        display_name: own(display_name),
        aliases,
        fields,
    }
}

/// A plugin uploader's descriptor.
pub fn plugin_uploader_descriptor(
    uploader_type: &str,
    display_name: &str,
    aliases: Vec<String>,
    fields: Vec<UploaderFieldSchema>,
) -> (r: UploaderDescriptor)
    ensures
        r.kind == UploaderDescriptorKind::Plugin,
        r.uploader_type@ == uploader_type@,
        r.display_name@ == display_name@,
        r.aliases == aliases,
        r.fields == fields,
{
    UploaderDescriptor {
        kind: UploaderDescriptorKind::Plugin,
        uploader_type: own(uploader_type),
        display_name: own(display_name),
        aliases,
        fields,
    }
}

/// A type name or alias as the registry keys it: trimmed, ASCII lower case.
pub open spec fn normalized(s: Seq<char>) -> Seq<char> {
    lower(trim(s))
}

fn normalize(s: &str) -> (r: String)
    ensures
        r@ == normalized(s@),
{
    let c = chars_of(s);
    let t = trim_chars(&c);
    let l = lower_chars(&t);
    string_of(&l)
}

/// The alias entries a descriptor adds: each non-empty normalized alias
/// maps to the canonical type.
pub open spec fn alias_entries(aliases: Seq<String>, canonical: String) -> Map<Seq<char>, String>
    decreases aliases.len(),
{
    if aliases.len() == 0 {
        Map::empty()
    } else {
        let m = alias_entries(aliases.drop_last(), canonical);
        let n = normalized(aliases.last()@);
        if n.len() == 0 {
            m
        } else {
            m.insert(n, canonical)
        }
    }
}

/// An alias that collides with something already registered.
pub open spec fn taken_alias(
    descriptors: Map<Seq<char>, UploaderDescriptor>,
    aliases: Map<Seq<char>, String>,
) -> spec_fn(String) -> bool {
    |a: String|
        normalized(a@).len() > 0 && (aliases.contains_key(normalized(a@))
            || descriptors.contains_key(normalized(a@)))
}

/// The refusal a result carries, if any.
pub open spec fn result_failure(r: Result<(), ZpicError>) -> Option<Failure> {
    match r {
        Ok(_) => None,
        Err(e) => Some(error_view(e)),
    }
}

/// Registering `d` in `before` gives `after`, refused with `err` when that
/// is `Some`: a blank type name, a type already taken as a type or alias,
/// or an alias already taken is refused and changes nothing; otherwise the
/// descriptor is stored under its normalized type and its normalized
/// non-blank aliases point at that type.
pub open spec fn register_outcome(
    before: UploaderRegistry,
    d: UploaderDescriptor,
    after: UploaderRegistry,
    err: Option<Failure>,
) -> bool {
    let c = normalized(d.uploader_type@);
    let d0 = before.descriptor_map();
    let a0 = before.alias_map();
    let unchanged = after.descriptor_map() == d0 && after.alias_map() == a0;
    if c.len() == 0 {
        err == Some((ErrorKind::ConfigInvalid, "uploader descriptor type name can not be empty"@)) && unchanged
    } else if d0.contains_key(c) || a0.contains_key(c) {
        err == Some(
            (ErrorKind::ConfigInvalid, "duplicate uploader descriptor registration for `"@ + d.uploader_type@ + "`"@),
        ) && unchanged
    } else {
        match crate::seqs::first_index(d.aliases@, taken_alias(d0, a0)) {
            Some(i) => err == Some(
                (ErrorKind::ConfigInvalid, "duplicate uploader alias registration for `"@ + d.aliases@[i]@ + "`"@),
            ) && unchanged,
            None => err is None && after.descriptor_map() == d0.insert(c, d) && exists|cs: String|
                cs@ == c && after.alias_map() == a0.union_prefer_right(alias_entries(d.aliases@, cs)),
        }
    }
}

/// Resolves uploader types and aliases to descriptors.
pub struct UploaderRegistry {
    descriptors: SortedMap<UploaderDescriptor>,
    aliases: SortedMap<String>,
}

impl UploaderRegistry {
    /// Descriptors by canonical (normalized) type.
    pub closed spec fn descriptor_map(&self) -> Map<Seq<char>, UploaderDescriptor> {
        self.descriptors@
    }

    /// The descriptors with their canonical types, in type order; they
    /// denote `descriptor_map`.
    pub closed spec fn descriptor_entries(&self) -> Seq<(Seq<char>, UploaderDescriptor)> {
        self.descriptors.seq()
    }

    /// Canonical types by normalized alias.
    pub closed spec fn alias_map(&self) -> Map<Seq<char>, String> {
        self.aliases@
    }

    /// Every alias leads to a registered descriptor.
    #[verifier::type_invariant]
    closed spec fn aliases_resolve(&self) -> bool {
        forall|k: Seq<char>|
            #[trigger] self.aliases@.contains_key(k) ==> self.descriptors@.contains_key(
                self.aliases@[k]@,
            )
    }

    /// The descriptor a token names: its type, else an alias of it.
    pub open spec fn spec_resolve(&self, token: Seq<char>) -> Option<UploaderDescriptor> {
        let n = normalized(token);
        if self.descriptor_map().contains_key(n) {
            Some(self.descriptor_map()[n])
        } else if self.alias_map().contains_key(n) && self.descriptor_map().contains_key(
            self.alias_map()[n]@,
        ) {
            Some(self.descriptor_map()[self.alias_map()[n]@])
        } else {
            None
        }
    }

    /// An empty registry.
    pub fn new() -> (r: Self)
        ensures
            r.descriptor_map() == Map::<Seq<char>, UploaderDescriptor>::empty(),
            r.alias_map() == Map::<Seq<char>, String>::empty(),
    {
        UploaderRegistry { descriptors: SortedMap::new(), aliases: SortedMap::new() }
    }

    /// Register a descriptor under its normalized type name, with its
    /// normalized non-empty aliases. A type or alias that is already taken
    /// (as a type or as an alias) is refused, and nothing changes.
    pub fn register(&mut self, descriptor: UploaderDescriptor) -> (r: Result<(), ZpicError>)
        ensures
            register_outcome(*old(self), descriptor, *final(self), result_failure(r)),
    {
        proof {
            use_type_invariant(&*self);
        }
        let canonical = normalize(descriptor.uploader_type.as_str());
        if canonical.as_str().is_empty() {
            return Err(
                ZpicError::ConfigInvalid(own("uploader descriptor type name can not be empty")),
            );
        }
        if self.descriptors.contains_key(canonical.as_str()) || self.aliases.contains_key(
            canonical.as_str(),
        ) {
            let mut v: Vec<char> = Vec::new();
            push_str(&mut v, "duplicate uploader descriptor registration for `");
            push_str(&mut v, descriptor.uploader_type.as_str());
            push_str(&mut v, "`");
            return Err(ZpicError::ConfigInvalid(string_of(&v)));
        }
        let ghost d0 = self.descriptors@;
        let ghost a0 = self.aliases@;
        let mut i: usize = 0;
        while i < descriptor.aliases.len()
            invariant
                i <= descriptor.aliases.len(),
                d0 == self.descriptors@,
                a0 == self.aliases@,
                d0 == old(self).descriptor_map(),
                a0 == old(self).alias_map(),
                *self == *old(self),
                canonical@ == normalized(descriptor.uploader_type@),
                canonical@.len() > 0,
                !d0.contains_key(canonical@) && !a0.contains_key(canonical@),
                forall|j: int| 0 <= j < i ==> !taken_alias(d0, a0)(#[trigger] descriptor.aliases@[j]),
            decreases descriptor.aliases.len() - i,
        {
            let n = normalize(descriptor.aliases[i].as_str());
            if !n.as_str().is_empty() && (self.aliases.contains_key(n.as_str())
                || self.descriptors.contains_key(n.as_str())) {
                proof {
                    crate::seqs::lemma_first_index_is(
                        descriptor.aliases@,
                        taken_alias(d0, a0),
                        i as int,
                    );
                }
                let mut v: Vec<char> = Vec::new();
                push_str(&mut v, "duplicate uploader alias registration for `");
                push_str(&mut v, descriptor.aliases[i].as_str());
                push_str(&mut v, "`");
                return Err(ZpicError::ConfigInvalid(string_of(&v)));
            }
            i = i + 1;
        }
        proof {
            crate::seqs::lemma_first_index_none(descriptor.aliases@, taken_alias(d0, a0));
        }
        let mut reg = UploaderRegistry::new();
        std::mem::swap(&mut reg, self);
        proof {
            use_type_invariant(&reg);
        }
        let UploaderRegistry { descriptors: mut descs, aliases: mut new_aliases } = reg;
        let mut j: usize = 0;
        while j < descriptor.aliases.len()
            invariant
                j <= descriptor.aliases.len(),
                new_aliases@ == a0.union_prefer_right(
                    alias_entries(descriptor.aliases@.subrange(0, j as int), canonical),
                ),
            decreases descriptor.aliases.len() - j,
        {
            let n = normalize(descriptor.aliases[j].as_str());
            let ghost before = new_aliases@;
            if !n.as_str().is_empty() {
                new_aliases.insert(n, canonical.clone());
            }
            proof {
                let s = descriptor.aliases@.subrange(0, j + 1);
                assert(s.drop_last() =~= descriptor.aliases@.subrange(0, j as int));
                assert(new_aliases@ =~= a0.union_prefer_right(alias_entries(s, canonical)));
            }
            j = j + 1;
        }
        proof {
            assert(descriptor.aliases@.subrange(0, descriptor.aliases@.len() as int)
                =~= descriptor.aliases@);
            lemma_alias_entries_values(descriptor.aliases@, canonical);
        }
        descs.insert(canonical.clone(), descriptor);
        *self = UploaderRegistry { descriptors: descs, aliases: new_aliases };
        Ok(())
    }

    /// The descriptor a token names (type or alias, any case, surrounding
    /// whitespace ignored).
    pub fn resolve(&self, token: &str) -> (r: Option<&UploaderDescriptor>)
        ensures
            match self.spec_resolve(token@) {
                Some(d) => r matches Some(x) && *x == d,
                None => r is None,
            },
            self.spec_resolve(token@) is None ==> !self.descriptor_map().contains_key(
                normalized(token@),
            ) && !self.alias_map().contains_key(normalized(token@)),
    {
        proof {
            use_type_invariant(self);
        }
        let n = normalize(token);
        match self.descriptors.get(n.as_str()) {
            Some(d) => Some(d),
            None => match self.aliases.get(n.as_str()) {
                Some(c) => self.descriptors.get(c.as_str()),
                None => None,
            },
        }
    }

    /// The type name of the descriptor a token names.
    pub fn canonical_type(&self, token: &str) -> (r: Option<&str>)
        ensures
            match self.spec_resolve(token@) {
                Some(d) => r matches Some(x) && x@ == d.uploader_type@,
                None => r is None,
            },
    {
        match self.resolve(token) {
            Some(d) => Some(d.uploader_type.as_str()),
            None => None,
        }
    }

    /// All descriptors, built-ins first (local, github, s3, then the rest),
    /// then plugins, each group by type name.
    pub fn descriptors(&self) -> (r: Vec<&UploaderDescriptor>)
        ensures
            derefs(r@).to_multiset() == entry_values(self.descriptor_entries()).to_multiset(),
            descriptors_sorted(derefs(r@)),
            map_of(self.descriptor_entries()) == self.descriptor_map(),
    {
        let n = self.descriptors.len();
        let mut out: Vec<&UploaderDescriptor> = Vec::new();
        let mut i: usize = 0;
        proof {
            assert(derefs(out@) =~= entry_values(self.descriptors.seq()).subrange(0, 0));
        }
        while i < n
            invariant
                n == self.descriptors.seq().len(),
                i <= n,
                derefs(out@).to_multiset() == entry_values(self.descriptors.seq()).subrange(
                    0,
                    i as int,
                ).to_multiset(),
                descriptors_sorted(derefs(out@)),
            decreases n - i,
        {
            let x = self.descriptors.value_at(i);
            let mut p: usize = 0;
            while p < out.len() && !descriptor_before(x, out[p])
                invariant
                    p <= out.len(),
                    forall|j: int| 0 <= j < p ==> !desc_lt(*x, #[trigger] derefs(out@)[j]),
                decreases out.len() - p,
            {
                p = p + 1;
            }
            let ghost before = derefs(out@);
            out.insert(p, x);
            proof {
                assert(derefs(out@) =~= before.insert(p as int, *x));
                vstd::seq_lib::to_multiset_insert(before, p as int, *x);
                let vs = entry_values(self.descriptors.seq());
                assert(vs.subrange(0, i + 1) =~= vs.subrange(0, i as int).push(*x));
                vstd::seq_lib::to_multiset_build(vs.subrange(0, i as int), *x);
                lemma_insert_sorted(before, p as int, *x);
            }
            i = i + 1;
        }
        proof {
            assert(entry_values(self.descriptors.seq()).subrange(0, n as int) =~= entry_values(
                self.descriptors.seq(),
            ));
        }
        out
    }
}

proof fn lemma_alias_entries_values(aliases: Seq<String>, c: String)
    ensures
        forall|k: Seq<char>| #[trigger] alias_entries(aliases, c).contains_key(k) ==> alias_entries(aliases, c)[k] == c,
    decreases aliases.len(),
{
    if aliases.len() > 0 {
        lemma_alias_entries_values(aliases.drop_last(), c);
        let m = alias_entries(aliases.drop_last(), c);
        assert forall|k: Seq<char>| #[trigger] alias_entries(aliases, c).contains_key(k) implies alias_entries(aliases, c)[k] == c by {
            assert(m.contains_key(k) ==> m[k] == c);
        }
    }
}

proof fn lemma_alias_entries_has(aliases: Seq<String>, c: String, i: int)
    requires
        0 <= i < aliases.len(),
        normalized(aliases[i]@).len() > 0,
    ensures
        alias_entries(aliases, c).contains_key(normalized(aliases[i]@)),
    decreases aliases.len(),
{
    if i < aliases.len() - 1 {
        lemma_alias_entries_has(aliases.drop_last(), c, i);
    }
}

/// After a successful registration the descriptor's type resolves to it,
/// in any case and with surrounding whitespace.
pub proof fn law_registered_type_resolves(before: UploaderRegistry, after: UploaderRegistry, d: UploaderDescriptor)
    requires
        normalized(d.uploader_type@).len() > 0,
        after.descriptor_map() == before.descriptor_map().insert(normalized(d.uploader_type@), d),
    ensures
        after.spec_resolve(d.uploader_type@) == Some(d),
{
}

/// After a successful registration each non-blank alias of the
/// descriptor resolves to it.
pub proof fn law_registered_alias_resolves(before: UploaderRegistry, after: UploaderRegistry, d: UploaderDescriptor, i: int)
    requires
        0 <= i < d.aliases@.len(),
        normalized(d.aliases@[i]@).len() > 0,
        normalized(d.uploader_type@).len() > 0,
        crate::seqs::first_index(d.aliases@, taken_alias(before.descriptor_map(), before.alias_map())) is None,
        after.descriptor_map() == before.descriptor_map().insert(normalized(d.uploader_type@), d),
        exists|cs: String|
            cs@ == normalized(d.uploader_type@) && after.alias_map() == before.alias_map().union_prefer_right(
                alias_entries(d.aliases@, cs),
            ),
    ensures
        after.spec_resolve(d.aliases@[i]@) == Some(d),
{
    let c = normalized(d.uploader_type@);
    let n = normalized(d.aliases@[i]@);
    let cs = choose|cs: String|
        cs@ == c && after.alias_map() == before.alias_map().union_prefer_right(
            alias_entries(d.aliases@, cs),
        );
    crate::seqs::lemma_first_index(d.aliases@, taken_alias(before.descriptor_map(), before.alias_map()));
    assert(!taken_alias(before.descriptor_map(), before.alias_map())(d.aliases@[i]));
    if n != c {
        lemma_alias_entries_has(d.aliases@, cs, i);
        lemma_alias_entries_values(d.aliases@, cs);
        assert(after.alias_map()[n] == cs);
    }
}

// ------------------------------------------------------------------
// Listing order
// ------------------------------------------------------------------

/// The values of a sorted map's entries.
pub open spec fn entry_values(s: Seq<(Seq<char>, UploaderDescriptor)>) -> Seq<UploaderDescriptor> {
    s.map_values(|e: (Seq<char>, UploaderDescriptor)| e.1)
}

/// The descriptors a sequence of references points at.
pub open spec fn derefs(s: Seq<&UploaderDescriptor>) -> Seq<UploaderDescriptor> {
    s.map_values(|d: &UploaderDescriptor| *d)
}

pub open spec fn kind_rank(k: UploaderDescriptorKind) -> int {
    match k {
        UploaderDescriptorKind::Builtin => 0,
        UploaderDescriptorKind::Plugin => 1,
    }
}

pub open spec fn builtin_rank(name: Seq<char>) -> int {
    if name == "local"@ {
        0
    } else if name == "github"@ {
        1
    } else if name == "s3"@ {
        2
    } else {
        10
    }
}

/// `a` is listed before `b`: by kind, then built-in rank, then type name.
pub open spec fn desc_lt(a: UploaderDescriptor, b: UploaderDescriptor) -> bool {
    let ka = kind_rank(a.kind);
    let kb = kind_rank(b.kind);
    let ra = builtin_rank(a.uploader_type@);
    let rb = builtin_rank(b.uploader_type@);
    ka < kb || (ka == kb && (ra < rb || (ra == rb && lex_lt(a.uploader_type@, b.uploader_type@))))
}

/// No descriptor is listed after one it comes before.
pub open spec fn descriptors_sorted(s: Seq<UploaderDescriptor>) -> bool {
    forall|i: int, j: int| 0 <= i < j < s.len() ==> !desc_lt(#[trigger] s[j], #[trigger] s[i])
}

proof fn lemma_desc_lt_trans(a: UploaderDescriptor, b: UploaderDescriptor, c: UploaderDescriptor)
    requires
        desc_lt(a, b),
        desc_lt(b, c),
    ensures
        desc_lt(a, c),
{
    if lex_lt(a.uploader_type@, b.uploader_type@) && lex_lt(b.uploader_type@, c.uploader_type@) {
        lemma_lex_trans(a.uploader_type@, b.uploader_type@, c.uploader_type@);
    }
}

proof fn lemma_desc_lt_irrefl(a: UploaderDescriptor)
    ensures
        !desc_lt(a, a),
{
    lemma_lex_irreflexive(a.uploader_type@);
}

proof fn lemma_insert_sorted(s: Seq<UploaderDescriptor>, p: int, x: UploaderDescriptor)
    requires
        descriptors_sorted(s),
        0 <= p <= s.len(),
        forall|j: int| 0 <= j < p ==> !desc_lt(x, #[trigger] s[j]),
        p < s.len() ==> desc_lt(x, s[p]),
    ensures
        descriptors_sorted(s.insert(p, x)),
{
    let t = s.insert(p, x);
    assert forall|i: int, j: int| 0 <= i < j < t.len() implies !desc_lt(
        #[trigger] t[j],
        #[trigger] t[i],
    ) by {
        if j < p {
            assert(t[i] == s[i] && t[j] == s[j]);
        } else if j == p {
            assert(t[i] == s[i] && t[j] == x);
        } else if i == p {
            assert(t[j] == s[j - 1] && t[i] == x);
            if desc_lt(s[j - 1], x) {
                lemma_desc_lt_trans(s[j - 1], x, s[p]);
                if j - 1 == p {
                    lemma_desc_lt_irrefl(s[p]);
                }
            }
        } else if i < p {
            assert(t[i] == s[i] && t[j] == s[j - 1]);
        } else {
            assert(t[i] == s[i - 1] && t[j] == s[j - 1]);
        }
    }
}

fn builtin_rank_of(name: &str) -> (r: u8)
    ensures
        r as int == builtin_rank(name@),
{
    if str_eq(name, "local") {
        0
    } else if str_eq(name, "github") {
        1
    } else if str_eq(name, "s3") {
        2
    } else {
        10
    }
}

fn kind_rank_of(k: UploaderDescriptorKind) -> (r: u8)
    ensures
        r as int == kind_rank(k),
{
    match k {
        UploaderDescriptorKind::Builtin => 0,
        UploaderDescriptorKind::Plugin => 1,
    }
}

fn descriptor_before(a: &UploaderDescriptor, b: &UploaderDescriptor) -> (r: bool)
    ensures
        r == desc_lt(*a, *b),
{
    let ka = kind_rank_of(a.kind);
    let kb = kind_rank_of(b.kind);
    let ra = builtin_rank_of(a.uploader_type.as_str());
    let rb = builtin_rank_of(b.uploader_type.as_str());
    if ka != kb {
        return ka < kb;
    }
    if ra != rb {
        return ra < rb;
    }
    let an = chars_of(a.uploader_type.as_str());
    let bn = chars_of(b.uploader_type.as_str());
    chars_lex_lt(&an, &bn)
}

} // verus!
