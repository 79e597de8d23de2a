//! Plugin discovery results and the registry of every uploader: the
//! built-ins first, then the plugins found on the search path.

use vstd::prelude::*;

use crate::error::{error_view, failure_message, lemma_message_of_view, spec_error_message, Failure, ZpicError};
use crate::local::{path_join, spec_path_join};
use crate::registry::{register_outcome, result_failure, UploaderDescriptor, UploaderRegistry};
use crate::text::{chars_eq, chars_of, opt_view, own, views};

verus! {

/// How serious a discovery problem is.
#[derive(Clone, Copy, PartialEq, Eq, Structural, Debug)]
pub enum PluginDiagnosticLevel {
    Warn,
    Fail,
}

/// A problem found while discovering or registering plugins.
pub struct PluginDiagnostic {
    pub level: PluginDiagnosticLevel,
    pub path: String,
    pub plugin_id: Option<String>,
    pub message: String,
}

/// Where to look for plugins; `None` means the default search path.
pub struct DiscoveryOptions {
    pub search_paths: Option<Vec<String>>,
}

/// `s` with later repeats of a path dropped (first occurrences kept, in
/// order).
pub open spec fn dedup_first(s: Seq<Seq<char>>) -> Seq<Seq<char>>
    decreases s.len(),
{
    if s.len() == 0 {
        seq![]
    } else {
        let d = dedup_first(s.drop_last());
        if d.contains(s.last()) {
            d
        } else {
            d.push(s.last())
        }
    }
}

proof fn lemma_dedup_contains(s: Seq<Seq<char>>, x: Seq<char>)
    ensures
        dedup_first(s).contains(x) <==> s.contains(x),
    decreases s.len(),
{
    if s.len() > 0 {
        lemma_dedup_contains(s.drop_last(), x);
        let d = dedup_first(s.drop_last());
        if s.contains(x) && x != s.last() {
            let i = choose|i: int| 0 <= i < s.len() && s[i] == x;
            assert(s.drop_last()[i] == x);
        }
        if s.drop_last().contains(x) {
            let i = choose|i: int| 0 <= i < s.drop_last().len() && s.drop_last()[i] == x;
            assert(s[i] == x);
        }
        if !d.contains(s.last()) {
            if d.push(s.last()).contains(x) && x != s.last() {
                let i = choose|i: int| 0 <= i < d.push(s.last()).len() && d.push(s.last())[i] == x;
                assert(d[i] == x);
            }
            if d.contains(x) {
                let i = choose|i: int| 0 <= i < d.len() && d[i] == x;
                assert(d.push(s.last())[i] == x);
            }
            assert(d.push(s.last())[d.len() as int] == s.last());
        }
        assert(s[s.len() - 1] == s.last());
    }
}

/// The plugin search path: the directories of `ZPIC_PLUGIN_DIRS`, the
/// project's `.zpic/plugins`, then the user's `plugins` directory, each
/// once.
pub open spec fn spec_search_paths(env_dirs: Seq<Seq<char>>, cwd: Option<Seq<char>>, config_dir: Seq<char>) -> Seq<Seq<char>> {
    let project = match cwd {
        Some(c) => seq![spec_path_join(spec_path_join(c, ".zpic"@), "plugins"@)],
        None => seq![],
    };
    dedup_first(env_dirs + project + seq![spec_path_join(config_dir, "plugins"@)])
}

fn contains_path(v: &Vec<String>, p: &str) -> (r: bool)
    ensures
        r == views(v@).contains(p@),
{
    let pc = chars_of(p);
    let mut i: usize = 0;
    while i < v.len()
        invariant
            i <= v@.len(),
            pc@ == p@,
            forall|j: int| 0 <= j < i ==> views(v@)[j] != p@,
        decreases v@.len() - i,
    {
        let c = chars_of(v[i].as_str());
        if chars_eq(&c, &pc) {
            assert(views(v@)[i as int] == p@);
            return true;
        }
        i = i + 1;
    }
    false
}

/// The plugin search path, as `spec_search_paths` states it.
pub fn plugin_search_paths(env_dirs: &Vec<String>, cwd: Option<&str>, config_dir: &str) -> (r: Vec<String>)
    ensures
        views(r@) == spec_search_paths(
            views(env_dirs@),
            match cwd {
                Some(c) => Some(c@),
                None => None,
            },
            config_dir@,
        ),
{
    let mut all: Vec<String> = Vec::new();
    let mut i: usize = 0;
    while i < env_dirs.len()
        invariant
            i <= env_dirs@.len(),
            all@.len() == i,
            views(all@) == views(env_dirs@).subrange(0, i as int),
        decreases env_dirs@.len() - i,
    {
        let ghost before = all@;
        let p = own(env_dirs[i].as_str());
        all.push(p);
        proof {
            assert(views(all@) =~= views(env_dirs@).subrange(0, i + 1));
        }
        i = i + 1;
    }
    let ghost base = views(all@);
    match cwd {
        Some(c) => {
            let z = path_join(c, ".zpic");
            all.push(path_join(z.as_str(), "plugins"));
        },
        None => {},
    }
    all.push(path_join(config_dir, "plugins"));
    let ghost full = views(all@);
    proof {
        assert(views(env_dirs@).subrange(0, env_dirs@.len() as int) =~= views(env_dirs@));
        assert(full =~= views(env_dirs@) + match cwd {
            Some(c) => seq![spec_path_join(spec_path_join(c@, ".zpic"@), "plugins"@)],
            None => seq![],
        } + seq![spec_path_join(config_dir@, "plugins"@)]);
    }
    let mut out: Vec<String> = Vec::new();
    let mut k: usize = 0;
    while k < all.len()
        invariant
            k <= all@.len(),
            full == views(all@),
            views(out@) == dedup_first(full.subrange(0, k as int)),
        decreases all@.len() - k,
    {
        let p = all[k].as_str();
        proof {
            assert(full.subrange(0, k + 1).drop_last() =~= full.subrange(0, k as int));
        }
        if !contains_path(&out, p) {
            let q = own(p);
            out.push(q);
            proof {
                assert(views(out@) =~= dedup_first(full.subrange(0, k + 1)));
            }
        }
        k = k + 1;
    }
    assert(full.subrange(0, all@.len() as int) =~= full);
    out
}

/// Every uploader registered, and what went wrong with plugins.
pub struct LoadedUploaderRegistry {
    pub registry: UploaderRegistry,
    pub diagnostics: Vec<PluginDiagnostic>,
}

/// A diagnostic as a value: level, path, plugin id and message.
pub type DiagView = (PluginDiagnosticLevel, Seq<char>, Option<Seq<char>>, Seq<char>);

pub open spec fn diag_view(d: PluginDiagnostic) -> DiagView {
    (d.level, d.path@, opt_view(d.plugin_id), d.message@)
}

pub open spec fn diag_views(s: Seq<PluginDiagnostic>) -> Seq<DiagView> {
    s.map_values(|d: PluginDiagnostic| diag_view(d))
}

/// Registering `ds` one after the other passes through the registries
/// `regs`, step `i` refused with `errs[i]` when that is `Some`.
pub open spec fn registration_run(
    ds: Seq<UploaderDescriptor>,
    regs: Seq<UploaderRegistry>,
    errs: Seq<Option<Failure>>,
) -> bool {
    &&& regs.len() == ds.len() + 1
    &&& errs.len() == ds.len()
    &&& forall|i: int| 0 <= i < ds.len() ==> #[trigger] register_outcome(regs[i], ds[i], regs[i + 1], errs[i])
}

pub open spec fn empty_registry(r: UploaderRegistry) -> bool {
    r.descriptor_map() == Map::<Seq<char>, UploaderDescriptor>::empty() && r.alias_map() == Map::<
        Seq<char>,
        String,
    >::empty()
}

/// The failing diagnostics that refused plugins add, in order: the
/// plugin's type as the path and the refusal's message.
pub open spec fn refusal_diags(ds: Seq<UploaderDescriptor>, errs: Seq<Option<Failure>>) -> Seq<DiagView>
    decreases ds.len(),
{
    if ds.len() == 0 || errs.len() == 0 {
        seq![]
    } else {
        let prev = refusal_diags(ds.drop_last(), errs.drop_last());
        match errs.last() {
            Some(f) => prev.push((PluginDiagnosticLevel::Fail, ds.last().uploader_type@, None, failure_message(f))),
            None => prev,
        }
    }
}

/// Registering the built-ins into an empty registry went through `regs`
/// and the last of them, built-in `errs.len() - 1`, was refused with `f`.
pub open spec fn builtin_refused(
    builtins: Seq<UploaderDescriptor>,
    regs: Seq<UploaderRegistry>,
    errs: Seq<Option<Failure>>,
    f: Failure,
) -> bool {
    &&& 1 <= errs.len() <= builtins.len()
    &&& registration_run(builtins.take(errs.len() as int), regs, errs)
    &&& empty_registry(regs[0])
    &&& forall|i: int| 0 <= i < errs.len() - 1 ==> #[trigger] errs[i] is None
    &&& errs.last() == Some(f)
}

/// The built-ins all registered into an empty registry (through `regs`),
/// then the plugins one after the other (through `pregs`, refusals in
/// `perrs`), giving `registry`; the diagnostics are the discovery ones
/// followed by one per refused plugin.
pub open spec fn loaded_as(
    builtins: Seq<UploaderDescriptor>,
    plugins: Seq<UploaderDescriptor>,
    discovery: Seq<DiagView>,
    registry: UploaderRegistry,
    diagnostics: Seq<DiagView>,
    regs: Seq<UploaderRegistry>,
    errs: Seq<Option<Failure>>,
    pregs: Seq<UploaderRegistry>,
    perrs: Seq<Option<Failure>>,
) -> bool {
    &&& registration_run(builtins, regs, errs)
    &&& empty_registry(regs[0])
    &&& forall|i: int| 0 <= i < errs.len() ==> #[trigger] errs[i] is None
    &&& registration_run(plugins, pregs, perrs)
    &&& pregs[0] == regs.last()
    &&& registry == pregs.last()
    &&& diagnostics == discovery + refusal_diags(plugins, perrs)
}

proof fn lemma_run_step(
    ds: Seq<UploaderDescriptor>,
    i: int,
    regs: Seq<UploaderRegistry>,
    errs: Seq<Option<Failure>>,
    after: UploaderRegistry,
    err: Option<Failure>,
)
    requires
        0 <= i < ds.len(),
        registration_run(ds.take(i), regs, errs),
        register_outcome(regs.last(), ds[i], after, err),
    ensures
        registration_run(ds.take(i + 1), regs.push(after), errs.push(err)),
        regs.push(after)[0] == regs[0],
{
    let r2 = regs.push(after);
    let e2 = errs.push(err);
    let t = ds.take(i + 1);
    assert forall|j: int| 0 <= j < t.len() implies #[trigger] register_outcome(r2[j], t[j], r2[j + 1], e2[j]) by {
        if j < i {
            assert(register_outcome(regs[j], ds.take(i)[j], regs[j + 1], errs[j]));
        }
    }
}

/// Register the built-ins (a failure there is an error), then each plugin
/// descriptor; a plugin that cannot be registered becomes a failing
/// diagnostic naming its type, after the discovery diagnostics.
pub fn load_uploader_registry(
    builtins: Vec<UploaderDescriptor>,
    plugins: Vec<UploaderDescriptor>,
    discovery: Vec<PluginDiagnostic>,
) -> (r: Result<LoadedUploaderRegistry, ZpicError>)
    ensures
        match r {
            Err(e) => exists|regs: Seq<UploaderRegistry>, errs: Seq<Option<Failure>>|
                #[trigger] builtin_refused(builtins@, regs, errs, error_view(e)),
            Ok(l) => exists|
                regs: Seq<UploaderRegistry>,
                errs: Seq<Option<Failure>>,
                pregs: Seq<UploaderRegistry>,
                perrs: Seq<Option<Failure>>,
            |
                #[trigger] loaded_as(
                    builtins@,
                    plugins@,
                    diag_views(discovery@),
                    l.registry,
                    diag_views(l.diagnostics@),
                    regs,
                    errs,
                    pregs,
                    perrs,
                ),
        },
{
    let ghost bs = builtins@;
    let ghost psq = plugins@;
    let ghost disc = diag_views(discovery@);
    let mut registry = UploaderRegistry::new();
    let ghost mut regs: Seq<UploaderRegistry> = seq![registry];
    let ghost mut errs: Seq<Option<Failure>> = seq![];
    let mut b = builtins;
    let mut i: usize = 0;
    let n = b.len();
    proof {
        assert(bs.take(0) =~= Seq::<UploaderDescriptor>::empty());
    }
    while i < n
        invariant
            bs == builtins@,
            n == bs.len(),
            i <= n,
            b@ == bs.subrange(i as int, n as int),
            registration_run(bs.take(i as int), regs, errs),
            empty_registry(regs[0]),
            regs.last() == registry,
            forall|k: int| 0 <= k < errs.len() ==> #[trigger] errs[k] is None,
        decreases n - i,
    {
        let ghost before = registry;
        let d = b.remove(0);
        assert(d == bs[i as int]);
        let res = registry.register(d);
        proof {
            lemma_run_step(bs, i as int, regs, errs, registry, result_failure(res));
            regs = regs.push(registry);
            errs = errs.push(result_failure(res));
            assert(bs.subrange(i + 1, n as int) =~= b@);
        }
        match res {
            Ok(()) => {},
            Err(e) => {
                proof {
                    assert(builtin_refused(bs, regs, errs, error_view(e)));
                }
                return Err(e);
            },
        }
        i = i + 1;
    }
    proof {
        assert(bs.take(n as int) =~= bs);
    }
    let mut diagnostics = discovery;
    let ghost mut pregs: Seq<UploaderRegistry> = seq![registry];
    let ghost mut perrs: Seq<Option<Failure>> = seq![];
    let mut ps = plugins;
    let m = ps.len();
    let mut j: usize = 0;
    proof {
        assert(psq.take(0) =~= Seq::<UploaderDescriptor>::empty());
        assert(diag_views(diagnostics@) =~= disc + refusal_diags(psq.take(0), perrs));
    }
    while j < m
        invariant
            bs == builtins@,
            psq == plugins@,
            disc == diag_views(discovery@),
            registration_run(bs, regs, errs),
            empty_registry(regs[0]),
            forall|k: int| 0 <= k < errs.len() ==> #[trigger] errs[k] is None,
            m == psq.len(),
            j <= m,
            ps@ == psq.subrange(j as int, m as int),
            registration_run(psq.take(j as int), pregs, perrs),
            pregs[0] == regs.last(),
            pregs.last() == registry,
            diag_views(diagnostics@) == disc + refusal_diags(psq.take(j as int), perrs),
        decreases m - j,
    {
        let d = ps.remove(0);
        assert(d == psq[j as int]);
        let path = own(d.uploader_type.as_str());
        let res = registry.register(d);
        let ghost old_diags = diagnostics@;
        match res {
            Ok(()) => {},
            Err(e) => {
                proof {
                    lemma_message_of_view(e);
                }
                diagnostics.push(
                    PluginDiagnostic {
                        level: PluginDiagnosticLevel::Fail,
                        path,
                        plugin_id: None,
                        message: e.message(),
                    },
                );
            },
        }
        proof {
            lemma_run_step(psq, j as int, pregs, perrs, registry, result_failure(res));
            let t1 = psq.take(j + 1);
            let e1 = perrs.push(result_failure(res));
            assert(t1.drop_last() =~= psq.take(j as int));
            assert(e1.drop_last() =~= perrs);
            assert(diag_views(diagnostics@) =~= disc + refusal_diags(t1, e1)) by {
                if res is Err {
                    assert(diag_views(diagnostics@) =~= diag_views(old_diags).push(diag_view(diagnostics@.last())));
                } else {
                    assert(diagnostics@ == old_diags);
                }
            }
            pregs = pregs.push(registry);
            perrs = e1;
            assert(psq.subrange(j + 1, m as int) =~= ps@);
        }
        j = j + 1;
    }
    proof {
        assert(psq.take(m as int) =~= psq);
    }
    let out = LoadedUploaderRegistry { registry, diagnostics };
    proof {
        assert(loaded_as(builtins@, plugins@, diag_views(discovery@), out.registry, diag_views(out.diagnostics@), regs, errs, pregs, perrs));
    }
    let r = Ok(out);
    assert(r matches Ok(l) && loaded_as(builtins@, plugins@, diag_views(discovery@), l.registry, diag_views(l.diagnostics@), regs, errs, pregs, perrs));
    r
}

} // verus!
