//! `zpic doctor`: the checks of the local setup and their report. The
//! probes themselves (files, clipboard, history store) run outside the
//! library and hand their results in.

use vstd::prelude::*;

use crate::envvar::Env;
use crate::config::{active_index, UploaderConfigItem};
use crate::factory::build_failure;
use crate::kinds::spec_from_alias;
use crate::error::{error_view, failure_message, lemma_message_of_view, spec_error_message, ErrorKind, Failure, ZpicError};
use crate::loader::{section_kind, source_label, LoadedConfig};
use crate::plugins::{PluginDiagnostic, PluginDiagnosticLevel};
use crate::registry::{UploaderDescriptor, UploaderDescriptorKind, UploaderRegistry};
use crate::resolve::{no_active_message, resolve_uploader, spec_uploader_key};
use crate::text::{chars_of, is_ws, push_string, join_strings, own, push_chars, push_str, spec_ascii_upper, string_of, trim_start, views};

verus! {

/// The outcome of one check.
#[derive(Clone, Copy, PartialEq, Eq, Structural, Debug)]
pub enum CheckStatus {
    Pass,
    Warn,
    Fail,
}

impl CheckStatus {
    /// The mark shown before a check's name.
    pub fn glyph(&self) -> (r: &'static str)
        ensures
            r@ == match *self {
                CheckStatus::Pass => "✓"@,
                CheckStatus::Warn => "!"@,
                CheckStatus::Fail => "✗"@,
            },
    {
        match self {
            CheckStatus::Pass => "✓",
            CheckStatus::Warn => "!",
            CheckStatus::Fail => "✗",
        }
    }
}

/// One check.
pub struct Check {
    pub name: String,
    pub status: CheckStatus,
    pub message: String,
    pub fix: Option<String>,
}

/// All checks, in the order they ran.
pub struct DoctorReport {
    pub checks: Vec<Check>,
}

/// The number of failed checks among the first `n`.
pub open spec fn failed_in(checks: Seq<Check>) -> nat
    decreases checks.len(),
{
    if checks.len() == 0 {
        0
    } else {
        failed_in(checks.drop_last()) + if checks.last().status == CheckStatus::Fail {
            1nat
        } else {
            0nat
        }
    }
}

/// The checks added hold exactly one failing `uploader` check with this
/// message.
pub open spec fn single_uploader_failure(added: Seq<Check>, message: Seq<char>) -> bool {
    &&& added.len() == 1
    &&& added[0].name@ == "uploader"@
    &&& added[0].status == CheckStatus::Fail
    &&& added[0].message@ == message
}

/// Why the active config of group `k` does not validate, if it does not:
/// only a built-in uploader is validated, by reading the config as a
/// section of the group's type (its runtime type's kind as fallback) and
/// building the uploader from it.
pub open spec fn validation_failure(
    k: Seq<char>,
    d: UploaderDescriptor,
    item: UploaderConfigItem,
    env: Map<Seq<char>, String>,
) -> Option<Failure> {
    if d.kind != UploaderDescriptorKind::Builtin {
        None
    } else {
        match section_kind(k, spec_from_alias(d.uploader_type@)) {
            None => Some((ErrorKind::UploaderUnsupported, k)),
            Some(kind) => build_failure(kind, item.fields@, env),
        }
    }
}

/// The checks the active uploader of a loaded config adds: a failure when
/// its group cannot be resolved or has no active config or no registered
/// type; else a passing check naming the group, the runtime type, the
/// active config and the config source, which a failing validation check
/// of a built-in uploader may follow.
pub open spec fn uploader_checks(
    c: LoadedConfig,
    reg: UploaderRegistry,
    env: Map<Seq<char>, String>,
    added: Seq<Check>,
) -> bool {
    match spec_uploader_key(c, reg, None) {
        Err(f) => single_uploader_failure(added, failure_message(f)),
        Ok(k) => if !c.zpic.uploader@.contains_key(k) || active_index(
            c.zpic.uploader@[k].config_list@,
            c.zpic.uploader@[k].default_id@,
        ) is None {
            single_uploader_failure(added, failure_message((ErrorKind::UploaderNotFound, no_active_message(k))))
        } else if reg.spec_resolve(k) is None {
            single_uploader_failure(added, failure_message((ErrorKind::UploaderUnsupported, k)))
        } else {
            let store = c.zpic.uploader@[k];
            let item = store.config_list@[active_index(store.config_list@, store.default_id@).unwrap()];
            let d = reg.spec_resolve(k).unwrap();
            let invalid = validation_failure(k, d, item, env);
            &&& added.len() == if invalid is Some {
                2int
            } else {
                1int
            }
            &&& added[0].name@ == "uploader ("@ + k + ")"@
            &&& added[0].status == CheckStatus::Pass
            &&& added[0].message@ == "runtime type: "@ + d.uploader_type@ + ", config: "@ + item.config_name@
                + ", source: "@ + source_label(c.source)
            &&& invalid matches Some(f) ==> {
                &&& added[1].name@ == "uploader ("@ + k + ") validation"@
                &&& added[1].status == CheckStatus::Fail
                &&& added[1].message@ == failure_message(f)
            }
        }
    }
}

fn check(name: &str, status: CheckStatus, message: String, fix: Option<&str>) -> (r: Check)
    ensures
        r.name@ == name@,
        r.status == status,
        r.message == message,
        crate::text::opt_view(r.fix) == match fix {
            Some(f) => Some(f@),
            None => None,
        },
{
    Check {
        name: own(name),
        status,
        message,
        fix: match fix {
            Some(f) => Some(own(f)),
            None => None,
        },
    }
}

fn labelled(label: &str, value: &str) -> (r: String)
    ensures
        r@ == label@ + value@,
{
    let mut v: Vec<char> = Vec::new();
    push_str(&mut v, label);
    push_str(&mut v, value);
    string_of(&v)
}

impl DoctorReport {
    pub fn new() -> (r: Self)
        ensures
            r.checks@.len() == 0,
    {
        DoctorReport { checks: Vec::new() }
    }

    /// The number of failed checks.
    pub fn failed(&self) -> (r: usize)
        ensures
            r == failed_in(self.checks@),
    {
        let mut n: usize = 0;
        let mut i: usize = 0;
        while i < self.checks.len()
            invariant
                i <= self.checks@.len(),
                n == failed_in(self.checks@.subrange(0, i as int)),
                n <= i,
            decreases self.checks@.len() - i,
        {
            proof {
                assert(self.checks@.subrange(0, i + 1).drop_last() =~= self.checks@.subrange(0, i as int));
            }
            if self.checks[i].status == CheckStatus::Fail {
                n = n + 1;
            }
            i = i + 1;
        }
        assert(self.checks@.subrange(0, self.checks@.len() as int) =~= self.checks@);
        n
    }

    /// Where the configuration comes from: the explicit file (passing when
    /// it exists), else the user's file when it exists, else the first
    /// PicGo file found, else nothing (failing).
    pub fn check_config(&mut self, explicit: Option<(&str, bool)>, user_config: (&str, bool), first_picgo: Option<&str>)
        ensures
            final(self).checks@.len() == old(self).checks@.len() + 1,
            final(self).checks@.subrange(0, old(self).checks@.len() as int) == old(self).checks@,
            ({
                let c = final(self).checks@.last();
                match explicit {
                    Some((p, exists)) => c.name@ == "config (explicit --config)"@ && c.status == (if exists {
                        CheckStatus::Pass
                    } else {
                        CheckStatus::Fail
                    }) && c.message@ == "path: "@ + p@ && c.fix is None,
                    None => if user_config.1 {
                        c.name@ == "config (user)"@ && c.status == CheckStatus::Pass && c.message@ == "path: "@
                            + user_config.0@
                    } else {
                        match first_picgo {
                            Some(p) => c.name@ == "config (PicGo fallback)"@ && c.status == CheckStatus::Pass
                                && c.message@ == "path: "@ + p@,
                            None => c.name@ == "config (any source)"@ && c.status == CheckStatus::Fail
                                && c.message@ == "no zpic or PicGo config found"@,
                        }
                    },
                }
            }),
    {
        let c = match explicit {
            Some((p, exists)) => check(
                "config (explicit --config)",
                if exists {
                    CheckStatus::Pass
                } else {
                    CheckStatus::Fail
                },
                labelled("path: ", p),
                None,
            ),
            None => if user_config.1 {
                check("config (user)", CheckStatus::Pass, labelled("path: ", user_config.0), None)
            } else {
                match first_picgo {
                    Some(p) => check(
                        "config (PicGo fallback)",
                        CheckStatus::Pass,
                        labelled("path: ", p),
                        Some("run `zpic config import-picgo` to convert this to native TOML"),
                    ),
                    None => check(
                        "config (any source)",
                        CheckStatus::Fail,
                        own("no zpic or PicGo config found"),
                        Some("run `zpic config init` to create a starter config"),
                    ),
                }
            },
        };
        self.checks.push(c);
        proof {
            assert(self.checks@.subrange(0, old(self).checks@.len() as int) =~= old(self).checks@);
        }
    }

    /// PicGo compatibility: passing with the files found, a warning when
    /// there are none.
    pub fn check_picgo(&mut self, found: &Vec<String>)
        ensures
            final(self).checks@.len() == old(self).checks@.len() + 1,
            final(self).checks@.subrange(0, old(self).checks@.len() as int) == old(self).checks@,
            ({
                let c = final(self).checks@.last();
                &&& c.name@ == "picgo (compatibility)"@
                &&& if found@.len() == 0 {
                    c.status == CheckStatus::Warn && c.message@ == "no PicGo config detected"@
                } else {
                    c.status == CheckStatus::Pass && c.message@ == "found: "@ + crate::text::join_sep(
                        views(found@),
                        ", "@,
                    ) && c.fix is None
                }
            }),
    {
        let c = if found.len() == 0 {
            check(
                "picgo (compatibility)",
                CheckStatus::Warn,
                own("no PicGo config detected"),
                Some("PicGo config improves portability; see `zpic config import-picgo`"),
            )
        } else {
            let joined = join_strings(found, ", ");
            check("picgo (compatibility)", CheckStatus::Pass, labelled("found: ", joined.as_str()), None)
        };
        self.checks.push(c);
        proof {
            assert(self.checks@.subrange(0, old(self).checks@.len() as int) =~= old(self).checks@);
        }
    }

    /// Plugin discovery: one passing check when nothing went wrong, else
    /// one check per diagnostic, at its level.
    pub fn check_plugin_discovery(&mut self, diagnostics: &Vec<PluginDiagnostic>)
        ensures
            final(self).checks@.subrange(0, old(self).checks@.len() as int) == old(self).checks@,
            diagnostics@.len() == 0 ==> final(self).checks@.len() == old(self).checks@.len() + 1
                && final(self).checks@.last().status == CheckStatus::Pass,
            diagnostics@.len() > 0 ==> final(self).checks@.len() == old(self).checks@.len() + diagnostics@.len()
                && forall|i: int|
                0 <= i < diagnostics@.len() ==> {
                    let c = final(self).checks@[old(self).checks@.len() + i];
                    &&& c.name@ == "plugins"@
                    &&& c.status == (if (#[trigger] diagnostics@[i]).level == PluginDiagnosticLevel::Warn {
                        CheckStatus::Warn
                    } else {
                        CheckStatus::Fail
                    })
                    &&& c.message@ == diagnostics@[i].path@ + ": "@ + diagnostics@[i].message@
                },
    {
        let ghost n0 = self.checks@.len();
        if diagnostics.len() == 0 {
            self.checks.push(check("plugins", CheckStatus::Pass, own("plugin discovery succeeded"), None));
            proof {
                assert(self.checks@.subrange(0, n0 as int) =~= old(self).checks@);
            }
            return;
        }
        let mut i: usize = 0;
        while i < diagnostics.len()
            invariant
                i <= diagnostics@.len(),
                n0 == old(self).checks@.len(),
                self.checks@.len() == n0 + i,
                self.checks@.subrange(0, n0 as int) == old(self).checks@,
                forall|j: int|
                    0 <= j < i ==> {
                        let c = self.checks@[n0 + j];
                        &&& c.name@ == "plugins"@
                        &&& c.status == (if (#[trigger] diagnostics@[j]).level == PluginDiagnosticLevel::Warn {
                            CheckStatus::Warn
                        } else {
                            CheckStatus::Fail
                        })
                        &&& c.message@ == diagnostics@[j].path@ + ": "@ + diagnostics@[j].message@
                    },
            decreases diagnostics@.len() - i,
        {
            let d = &diagnostics[i];
            let mut m: Vec<char> = Vec::new();
            push_str(&mut m, d.path.as_str());
            push_str(&mut m, ": ");
            push_str(&mut m, d.message.as_str());
            let status = match d.level {
                PluginDiagnosticLevel::Warn => CheckStatus::Warn,
                PluginDiagnosticLevel::Fail => CheckStatus::Fail,
            };
            let ghost before = self.checks@;
            self.checks.push(
                check(
                    "plugins",
                    status,
                    string_of(&m),
                    Some("fix or remove the invalid plugin, then rerun `zpic doctor`"),
                ),
            );
            proof {
                assert(self.checks@.subrange(0, n0 as int) =~= before.subrange(0, n0 as int));
                assert forall|j: int| 0 <= j < i + 1 implies {
                    let c = self.checks@[n0 + j];
                    &&& c.name@ == "plugins"@
                    &&& c.status == (if (#[trigger] diagnostics@[j]).level == PluginDiagnosticLevel::Warn {
                        CheckStatus::Warn
                    } else {
                        CheckStatus::Fail
                    })
                    &&& c.message@ == diagnostics@[j].path@ + ": "@ + diagnostics@[j].message@
                } by {
                    if j < i {
                        assert(self.checks@[n0 + j] == before[n0 + j]);
                    }
                }
            }
            i = i + 1;
        }
    }

    /// The active uploader: failing when the config could not be loaded or
    /// the uploader not resolved; else passing, followed by a failing check
    /// when a built-in uploader's fields do not build.
    pub fn check_active_uploader(&mut self, loaded: &Result<LoadedConfig, ZpicError>, registry: &UploaderRegistry, env: &Env)
        ensures
            final(self).checks@.subrange(0, old(self).checks@.len() as int) == old(self).checks@,
            final(self).checks@.len() > old(self).checks@.len(),
            loaded matches Err(e) ==> final(self).checks@.len() == old(self).checks@.len() + 1 && ({
                let c = final(self).checks@.last();
                c.name@ == "uploader"@ && c.status == CheckStatus::Fail && c.message@ == spec_error_message(*e)
            }),
            loaded matches Ok(c) ==> uploader_checks(
                *c,
                *registry,
                env@,
                final(self).checks@.subrange(old(self).checks@.len() as int, final(self).checks@.len() as int),
            ),
    {
        let ghost n0 = self.checks@.len();
        let config = match loaded {
            Ok(c) => c,
            Err(e) => {
                self.checks.push(check("uploader", CheckStatus::Fail, e.message(), None));
                proof {
                    assert(self.checks@.subrange(0, n0 as int) =~= old(self).checks@);
                }
                return;
            },
        };
        let resolved = match resolve_uploader(config, registry, None) {
            Ok(r) => r,
            Err(e) => {
                proof {
                    lemma_message_of_view(e);
                }
                self.checks.push(
                    check(
                        "uploader",
                        CheckStatus::Fail,
                        e.message(),
                        Some(
                            "run `zpic set uploader <type> <name>` to create one, then `zpic use uploader <type> <name>` if needed",
                        ),
                    ),
                );
                proof {
                    assert(self.checks@.subrange(0, n0 as int) =~= old(self).checks@);
                }
                return;
            },
        };
        let mut name: Vec<char> = Vec::new();
        push_str(&mut name, "uploader (");
        push_str(&mut name, resolved.configured_type.as_str());
        push_str(&mut name, ")");
        let mut m: Vec<char> = Vec::new();
        push_str(&mut m, "runtime type: ");
        push_str(&mut m, resolved.runtime_type.as_str());
        push_str(&mut m, ", config: ");
        push_str(&mut m, resolved.config_name.as_str());
        push_str(&mut m, ", source: ");
        push_str(&mut m, config.source.label());
        let n = string_of(&name);
        self.checks.push(check(n.as_str(), CheckStatus::Pass, string_of(&m), None));
        let ghost mid = self.checks@;
        if resolved.descriptor.kind == UploaderDescriptorKind::Builtin {
            let fallback = crate::kinds::UploaderKind::from_alias(resolved.runtime_type.as_str());
            let outcome = match crate::loader::section_for_type(&resolved.item, resolved.configured_type.as_str(), fallback) {
                Ok(section) => match crate::factory::build_uploader(resolved.runtime_type.as_str(), &section, env) {
                    Ok(_) => Ok(()),
                    Err(e) => Err(e),
                },
                Err(e) => Err(e),
            };
            match outcome {
                Ok(()) => {},
                Err(e) => {
                    let mut vn: Vec<char> = Vec::new();
                    push_str(&mut vn, "uploader (");
                    push_str(&mut vn, resolved.configured_type.as_str());
                    push_str(&mut vn, ") validation");
                    let vname = string_of(&vn);
                    self.checks.push(
                        check(
                            vname.as_str(),
                            CheckStatus::Fail,
                            e.message(),
                            Some("check the uploader config fields or plugin installation"),
                        ),
                    );
                },
            }
        }
        proof {
            assert(self.checks@.subrange(0, n0 as int) =~= old(self).checks@);
            let added = self.checks@.subrange(n0 as int, self.checks@.len() as int);
            assert(added[0] == mid[n0 as int]);
            assert(added.len() == 2 ==> added[1] == self.checks@[n0 + 1int]);
        }
    }

    /// The clipboard: passing when a clipboard backend opened, else a
    /// warning with the reason.
    pub fn check_clipboard(&mut self, unavailable: Option<&str>)
        ensures
            final(self).checks@ == old(self).checks@.push(final(self).checks@.last()),
            final(self).checks@.last().name@ == "clipboard"@,
            match unavailable {
                None => final(self).checks@.last().status == CheckStatus::Pass
                    && final(self).checks@.last().message@ == "available"@,
                Some(e) => final(self).checks@.last().status == CheckStatus::Warn
                    && final(self).checks@.last().message@ == "not available: "@ + e@,
            },
    {
        let c = match unavailable {
            None => check("clipboard", CheckStatus::Pass, own("available"), None),
            Some(e) => check(
                "clipboard",
                CheckStatus::Warn,
                labelled("not available: ", e),
                Some("`zpic upload --clipboard` requires a working clipboard backend"),
            ),
        };
        self.checks.push(c);
    }

    /// The history store: passing when it opened, else failing with the
    /// error.
    pub fn check_history(&mut self, opened: &Result<(), ZpicError>)
        ensures
            final(self).checks@ == old(self).checks@.push(final(self).checks@.last()),
            final(self).checks@.last().name@ == "history"@,
            match opened {
                Ok(()) => final(self).checks@.last().status == CheckStatus::Pass,
                Err(e) => final(self).checks@.last().status == CheckStatus::Fail
                    && final(self).checks@.last().message@ == spec_error_message(*e),
            },
    {
        let c = match opened {
            Ok(()) => check("history", CheckStatus::Pass, own("writable"), None),
            Err(e) => check(
                "history",
                CheckStatus::Fail,
                e.message(),
                Some("check filesystem permissions on the history store path"),
            ),
        };
        self.checks.push(c);
    }
}


/// The leading run of non-whitespace characters.
pub open spec fn word_prefix(s: Seq<char>) -> Seq<char>
    decreases s.len(),
{
    if s.len() == 0 || is_ws(s[0]) {
        seq![]
    } else {
        seq![s[0]] + word_prefix(s.drop_first())
    }
}

/// The first whitespace-separated word of a name (its section).
pub open spec fn section_of(name: Seq<char>) -> Seq<char> {
    word_prefix(trim_start(name))
}

/// A word with its first character in ASCII upper case.
pub open spec fn capitalized(s: Seq<char>) -> Seq<char> {
    if s.len() == 0 {
        seq![]
    } else {
        seq![spec_ascii_upper(s[0])] + s.drop_first()
    }
}

/// The lines of one check.
pub open spec fn check_lines(c: Check) -> Seq<Seq<char>> {
    let head = seq!["  "@ + glyph_of(c.status) + " "@ + c.name@, "    "@ + c.message@];
    match c.fix {
        Some(f) => head.push("    fix: "@ + f@),
        None => head,
    }
}

/// The mark of a status.
pub open spec fn glyph_of(s: CheckStatus) -> Seq<char> {
    match s {
        CheckStatus::Pass => "✓"@,
        CheckStatus::Warn => "!"@,
        CheckStatus::Fail => "✗"@,
    }
}

/// The lines of the checks from `i` on, each section headed by its
/// capitalized name (with a blank line before every heading but the first).
pub open spec fn checks_text(checks: Seq<Check>, i: int, last: Seq<char>) -> Seq<Seq<char>>
    decreases checks.len() - i,
{
    if i < 0 || i >= checks.len() {
        seq![]
    } else {
        let sec = section_of(checks[i].name@);
        let heading = if sec == last {
            seq![]
        } else if last.len() > 0 {
            seq![seq![], capitalized(sec) + ":"@]
        } else {
            seq![capitalized(sec) + ":"@]
        };
        heading + check_lines(checks[i]) + checks_text(checks, i + 1, if sec == last { last } else { sec })
    }
}

/// The whole text report, line by line.
pub open spec fn report_text(checks: Seq<Check>) -> Seq<Seq<char>> {
    seq!["zpic doctor"@, seq![]] + checks_text(checks, 0, seq![]) + seq![
        seq![],
        if failed_in(checks) == 0 {
            "result: all checks passed"@
        } else {
            "result: "@ + crate::text::dec(failed_in(checks)) + " check(s) failed"@
        },
    ]
}

fn section_word(name: &str) -> (r: Vec<char>)
    ensures
        r@ == section_of(name@),
{
    let c = chars_of(name);
    let mut i: usize = 0;
    assert(c@.subrange(0, c@.len() as int) =~= c@);
    while i < c.len() && crate::text::is_whitespace(c[i])
        invariant
            i <= c@.len(),
            c@ == name@,
            trim_start(name@) == trim_start(c@.subrange(i as int, c@.len() as int)),
        decreases c@.len() - i,
    {
        assert(c@.subrange(i as int, c@.len() as int).drop_first() =~= c@.subrange(i + 1, c@.len() as int));
        i = i + 1;
    }
    let start = i;
    assert(trim_start(name@) == c@.subrange(start as int, c@.len() as int));
    let mut out: Vec<char> = Vec::new();
    while i < c.len() && !crate::text::is_whitespace(c[i])
        invariant
            start <= i <= c@.len(),
            out@ + word_prefix(c@.subrange(i as int, c@.len() as int)) == word_prefix(c@.subrange(start as int, c@.len() as int)),
        decreases c@.len() - i,
    {
        proof {
            let t = c@.subrange(i as int, c@.len() as int);
            assert(t.drop_first() =~= c@.subrange(i + 1, c@.len() as int));
            assert(out@.push(c@[i as int]) + word_prefix(t.drop_first()) =~= out@ + word_prefix(t));
        }
        out.push(c[i]);
        i = i + 1;
    }
    proof {
        let t = c@.subrange(i as int, c@.len() as int);
        assert(word_prefix(t) =~= Seq::<char>::empty());
        assert(out@ + Seq::<char>::empty() =~= out@);
    }
    out
}

fn capitalize(s: &[char]) -> (r: Vec<char>)
    ensures
        r@ == capitalized(s@),
{
    let mut out: Vec<char> = Vec::new();
    if s.len() > 0 {
        out.push(crate::text::ascii_upper(s[0]));
        let rest = crate::text::slice_chars(s, 1, s.len());
        push_chars(&mut out, &rest);
        assert(out@ =~= capitalized(s@));
    }
    out
}

impl DoctorReport {
    /// The text report, line by line.
    pub fn render_text(&self) -> (r: Vec<String>)
        ensures
            views(r@) == report_text(self.checks@),
    {
        let mut lines: Vec<String> = vec![own("zpic doctor"), String::new()];
        proof {
            reveal_strlit("");
            assert(views(lines@) =~= seq!["zpic doctor"@, seq![]]);
        }
        let mut last: Vec<char> = Vec::new();
        let mut i: usize = 0;
        while i < self.checks.len()
            invariant
                i <= self.checks@.len(),
                views(lines@) + checks_text(self.checks@, i as int, last@) == seq!["zpic doctor"@, seq![]]
                    + checks_text(self.checks@, 0, seq![]),
            decreases self.checks@.len() - i,
        {
            let c = &self.checks[i];
            let sec = section_word(c.name.as_str());
            let ghost lines0 = views(lines@);
            let ghost last0 = last@;
            let same = crate::text::chars_eq(&sec, &last);
            let ghost sec_s = section_of(self.checks@[i as int].name@);
            let ghost heading = if sec_s == last0 {
                Seq::<Seq<char>>::empty()
            } else if last0.len() > 0 {
                seq![Seq::<char>::empty(), capitalized(sec_s) + ":"@]
            } else {
                seq![capitalized(sec_s) + ":"@]
            };
            proof {
                reveal_strlit(":");
                reveal_strlit("");
            }
            if !same {
                if last.len() > 0 {
                    push_string(&mut lines, String::new());
                }
                let mut h = capitalize(&sec);
                h.push(':');
                assert(h@ =~= capitalized(sec_s) + ":"@);
                push_string(&mut lines, string_of(&h));
                last = sec;
            }
            assert(views(lines@) =~= lines0 + heading);
            let ghost lines1 = views(lines@);
            let mut l1: Vec<char> = Vec::new();
            push_str(&mut l1, "  ");
            push_str(&mut l1, c.status.glyph());
            push_str(&mut l1, " ");
            push_str(&mut l1, c.name.as_str());
            assert(l1@ =~= "  "@ + glyph_of(c.status) + " "@ + c.name@);
            push_string(&mut lines, string_of(&l1));
            let mut l2: Vec<char> = Vec::new();
            push_str(&mut l2, "    ");
            push_str(&mut l2, c.message.as_str());
            assert(l2@ =~= "    "@ + c.message@);
            push_string(&mut lines, string_of(&l2));
            match &c.fix {
                Some(f) => {
                    let mut l3: Vec<char> = Vec::new();
                    push_str(&mut l3, "    fix: ");
                    push_str(&mut l3, f.as_str());
                    assert(l3@ =~= "    fix: "@ + f@);
                    push_string(&mut lines, string_of(&l3));
                },
                None => {},
            }
            proof {
                assert(views(lines@) =~= lines1 + check_lines(self.checks@[i as int]));
                assert(views(lines@) =~= lines0 + heading + check_lines(self.checks@[i as int]));
                assert(last@ == if sec_s == last0 { last0 } else { sec_s });
                assert(checks_text(self.checks@, i as int, last0) == heading + check_lines(self.checks@[i as int])
                    + checks_text(self.checks@, i + 1, last@));
            }
            i = i + 1;
        }
        let failed = self.failed();
        push_string(&mut lines, String::new());
        if failed == 0 {
            push_string(&mut lines, own("result: all checks passed"));
        } else {
            let mut t: Vec<char> = Vec::new();
            push_str(&mut t, "result: ");
            let d = crate::text::dec_chars(failed as u64);
            push_chars(&mut t, &d);
            push_str(&mut t, " check(s) failed");
            push_string(&mut lines, string_of(&t));
        }
        proof {
            assert(checks_text(self.checks@, i as int, last@) =~= Seq::<Seq<char>>::empty());
            assert(views(lines@) =~= report_text(self.checks@));
        }
        lines
    }
}

} // verus!
