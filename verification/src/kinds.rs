//! Value types shared by every part of zpic: uploader kinds, output
//! formats and rename strategies.

use vstd::prelude::*;

use crate::text::{chars_eq_ic, chars_of, eq_ic, lower, trim, trim_chars, trim_end, trim_start};

verus! {

/// What an uploader advertises itself as.
#[derive(Debug, Clone, Copy, PartialEq, Eq, Hash, Structural)]
pub enum UploaderKind {
    Local,
    Github,
    S3,
    AliyunOss,
}

pub open spec fn spec_kind_name(k: UploaderKind) -> Seq<char> {
    match k {
        UploaderKind::Local => "local"@,
        UploaderKind::Github => "github"@,
        UploaderKind::S3 => "s3"@,
        UploaderKind::AliyunOss => "aliyun-oss"@,
    }
}

pub open spec fn spec_kind_aliases(k: UploaderKind) -> Seq<Seq<char>> {
    match k {
        UploaderKind::Local => seq!["local"@],
        UploaderKind::Github => seq!["github"@],
        UploaderKind::S3 => seq!["s3"@, "aws-s3"@, "r2"@],
        UploaderKind::AliyunOss => seq!["aliyun-oss"@, "oss"@, "aliyun"@],
    }
}

/// `value` equals one of the kind's aliases, ignoring ASCII case.
pub open spec fn alias_of(k: UploaderKind, value: Seq<char>) -> bool {
    exists|i: int| 0 <= i < spec_kind_aliases(k).len() && eq_ic(spec_kind_aliases(k)[i], value)
}

/// The first kind, in declaration order, one of whose aliases is the trimmed token.
pub open spec fn spec_from_alias(value: Seq<char>) -> Option<UploaderKind> {
    let v = trim(value);
    if alias_of(UploaderKind::Local, v) {
        Some(UploaderKind::Local)
    } else if alias_of(UploaderKind::Github, v) {
        Some(UploaderKind::Github)
    } else if alias_of(UploaderKind::S3, v) {
        Some(UploaderKind::S3)
    } else if alias_of(UploaderKind::AliyunOss, v) {
        Some(UploaderKind::AliyunOss)
    } else {
        None
    }
}

/// Every alias is written in lower case.
proof fn lemma_aliases_lowercase(k: UploaderKind)
    ensures
        forall|i: int|
            0 <= i < spec_kind_aliases(k).len() ==> lower(#[trigger] spec_kind_aliases(k)[i])
                == spec_kind_aliases(k)[i],
{
    reveal_strlit("local");
    reveal_strlit("github");
    reveal_strlit("s3");
    reveal_strlit("aws-s3");
    reveal_strlit("r2");
    reveal_strlit("aliyun-oss");
    reveal_strlit("oss");
    reveal_strlit("aliyun");
    assert(lower("local"@) =~= "local"@);
    assert(lower("github"@) =~= "github"@);
    assert(lower("s3"@) =~= "s3"@);
    assert(lower("aws-s3"@) =~= "aws-s3"@);
    assert(lower("r2"@) =~= "r2"@);
    assert(lower("aliyun-oss"@) =~= "aliyun-oss"@);
    assert(lower("oss"@) =~= "oss"@);
    assert(lower("aliyun"@) =~= "aliyun"@);
}

/// A token is an alias of a kind exactly when its lower-case form is one
/// of the kind's aliases.
proof fn lemma_alias_of_lower(k: UploaderKind, v: Seq<char>)
    ensures
        alias_of(k, v) <==> spec_kind_aliases(k).contains(lower(v)),
{
    lemma_aliases_lowercase(k);
    let a = spec_kind_aliases(k);
    if alias_of(k, v) {
        let i = choose|i: int| 0 <= i < a.len() && eq_ic(a[i], v);
        assert(a[i] == lower(v));
    }
    if a.contains(lower(v)) {
        let i = choose|i: int| 0 <= i < a.len() && a[i] == lower(v);
        assert(lower(a[i]) == a[i]);
        assert(eq_ic(a[i], v));
    }
}

/// `from_alias` resolves a token to a kind exactly when the trimmed token
/// is one of that kind's aliases, ignoring ASCII case: no alias belongs to
/// two kinds, so the order in which kinds are tried does not matter.
pub proof fn law_from_alias_names_its_kind(value: Seq<char>, k: UploaderKind)
    ensures
        spec_from_alias(value) == Some(k) <==> alias_of(k, trim(value)),
{
    let v = trim(value);
    let l = lower(v);
    lemma_alias_of_lower(UploaderKind::Local, v);
    lemma_alias_of_lower(UploaderKind::Github, v);
    lemma_alias_of_lower(UploaderKind::S3, v);
    lemma_alias_of_lower(UploaderKind::AliyunOss, v);
    reveal_strlit("local");
    reveal_strlit("github");
    reveal_strlit("s3");
    reveal_strlit("aws-s3");
    reveal_strlit("r2");
    reveal_strlit("aliyun-oss");
    reveal_strlit("oss");
    reveal_strlit("aliyun");
    let names = seq!["local"@, "github"@, "s3"@, "aws-s3"@, "r2"@, "aliyun-oss"@, "oss"@, "aliyun"@];
    assert forall|i: int, j: int| 0 <= i < j < 8 implies #[trigger] names[i] != #[trigger] names[j] by {
        if names[i].len() == names[j].len() {
            assert(names[i][0] != names[j][0] || names[i][1] != names[j][1]);
        }
    }
    assert(spec_kind_aliases(UploaderKind::Local) == names.subrange(0, 1));
    assert(spec_kind_aliases(UploaderKind::Github) == names.subrange(1, 2));
    assert(spec_kind_aliases(UploaderKind::S3) == names.subrange(2, 5));
    assert(spec_kind_aliases(UploaderKind::AliyunOss) == names.subrange(5, 8));
}

/// Each kind's own name resolves back to it.
pub proof fn law_from_alias_of_name(k: UploaderKind)
    ensures
        spec_from_alias(spec_kind_name(k)) == Some(k),
{
    reveal_strlit("local");
    reveal_strlit("github");
    reveal_strlit("s3");
    reveal_strlit("aliyun-oss");
    let n = spec_kind_name(k);
    assert(trim_start(n) == n);
    assert(trim_end(n) == n);
    lemma_aliases_lowercase(k);
    assert(spec_kind_aliases(k)[0] == n);
    assert(eq_ic(spec_kind_aliases(k)[0], n));
    law_from_alias_names_its_kind(n, k);
}

fn any_alias_matches(aliases: &[&str], value: &[char]) -> (r: bool)
    ensures
        r == exists|i: int| 0 <= i < aliases@.len() && eq_ic(aliases@[i]@, value@),
{
    let mut i: usize = 0;
    while i < aliases.len()
        invariant
            i <= aliases.len(),
            forall|j: int| 0 <= j < i ==> !eq_ic(aliases@[j]@, value@),
        decreases aliases.len() - i,
    {
        let a = chars_of(aliases[i]);
        if chars_eq_ic(&a, value) {
            return true;
        }
        i = i + 1;
    }
    false
}

impl UploaderKind {
    /// All uploader kinds in declaration order.
    pub fn all() -> (r: [UploaderKind; 4])
        ensures
            r@ == seq![
                UploaderKind::Local,
                UploaderKind::Github,
                UploaderKind::S3,
                UploaderKind::AliyunOss,
            ],
    {
        let r = [UploaderKind::Local, UploaderKind::Github, UploaderKind::S3, UploaderKind::AliyunOss];
        assert(r@ =~= seq![
            UploaderKind::Local,
            UploaderKind::Github,
            UploaderKind::S3,
            UploaderKind::AliyunOss,
        ]);
        r
    }

    /// Stable, lowercase name used in CLI flags and config files.
    pub fn as_str(&self) -> (r: &'static str)
        ensures
            r@ == spec_kind_name(*self),
    {
        match self {
            UploaderKind::Local => "local",
            UploaderKind::Github => "github",
            UploaderKind::S3 => "s3",
            UploaderKind::AliyunOss => "aliyun-oss",
        }
    }

    /// The PicGo `picBed.uploader` tokens that map to this kind.
    pub fn picgo_aliases(&self) -> (r: Vec<&'static str>)
        ensures
            r@.map_values(|s: &str| s@) == spec_kind_aliases(*self),
    {
        let r = match self {
            UploaderKind::Local => vec!["local"],
            UploaderKind::Github => vec!["github"],
            UploaderKind::S3 => vec!["s3", "aws-s3", "r2"],
            UploaderKind::AliyunOss => vec!["aliyun-oss", "oss", "aliyun"],
        };
        assert(r@.map_values(|s: &str| s@) =~= spec_kind_aliases(*self));
        r
    }

    fn matches_alias(&self, value: &[char]) -> (r: bool)
        ensures
            r == alias_of(*self, value@),
    {
        let aliases = self.picgo_aliases();
        let r = any_alias_matches(&aliases, value);
        proof {
            let m = aliases@.map_values(|s: &str| s@);
            if r {
                let i = choose|i: int| 0 <= i < aliases@.len() && eq_ic(aliases@[i]@, value@);
                assert(m[i] == aliases@[i]@);
            }
            if alias_of(*self, value@) {
                let i = choose|i: int|
                    0 <= i < spec_kind_aliases(*self).len() && eq_ic(
                        spec_kind_aliases(*self)[i],
                        value@,
                    );
                assert(m[i] == aliases@[i]@);
            }
        }
        r
    }

    /// Resolve a CLI/config token into a built-in uploader kind.
    pub fn from_alias(value: &str) -> (r: Option<UploaderKind>)
        ensures
            r == spec_from_alias(value@),
    {
        let raw = chars_of(value);
        let v = trim_chars(&raw);
        let all = UploaderKind::all();
        let mut i: usize = 0;
        while i < 4
            invariant
                i <= 4,
                v@ == trim(value@),
                all@ == seq![
                    UploaderKind::Local,
                    UploaderKind::Github,
                    UploaderKind::S3,
                    UploaderKind::AliyunOss,
                ],
                forall|j: int| 0 <= j < i ==> !alias_of(#[trigger] all@[j], v@),
            decreases 4 - i,
        {
            if all[i].matches_alias(&v) {
                return Some(all[i]);
            }
            i = i + 1;
        }
        None
    }
}

/// Output rendering mode.
#[derive(Debug, Clone, Copy, PartialEq, Eq, Structural)]
pub enum OutputFormat {
    Markdown,
    Url,
    Html,
    Jsx,
    Json,
}

impl Default for OutputFormat {
    fn default() -> (r: Self)
        ensures
            r == OutputFormat::Markdown,
    {
        OutputFormat::Markdown
    }
}

pub open spec fn spec_format_name(f: OutputFormat) -> Seq<char> {
    match f {
        OutputFormat::Markdown => "markdown"@,
        OutputFormat::Url => "url"@,
        OutputFormat::Html => "html"@,
        OutputFormat::Jsx => "jsx"@,
        OutputFormat::Json => "json"@,
    }
}

/// The format a token names, compared after ASCII lower-casing.
pub open spec fn spec_format_from(s: Seq<char>) -> Option<OutputFormat> {
    if eq_ic(s, "markdown"@) || eq_ic(s, "md"@) {
        Some(OutputFormat::Markdown)
    } else if eq_ic(s, "url"@) {
        Some(OutputFormat::Url)
    } else if eq_ic(s, "html"@) {
        Some(OutputFormat::Html)
    } else if eq_ic(s, "jsx"@) {
        Some(OutputFormat::Jsx)
    } else if eq_ic(s, "json"@) {
        Some(OutputFormat::Json)
    } else {
        None
    }
}

impl OutputFormat {
    pub fn as_str(&self) -> (r: &'static str)
        ensures
            r@ == spec_format_name(*self),
    {
        match self {
            OutputFormat::Markdown => "markdown",
            OutputFormat::Url => "url",
            OutputFormat::Html => "html",
            OutputFormat::Jsx => "jsx",
            OutputFormat::Json => "json",
        }
    }

    pub fn from_str(s: &str) -> (r: Option<Self>)
        ensures
            r == spec_format_from(s@),
    {
        let v = chars_of(s);
        if chars_eq_ic(&v, &chars_of("markdown")) || chars_eq_ic(&v, &chars_of("md")) {
            Some(OutputFormat::Markdown)
        } else if chars_eq_ic(&v, &chars_of("url")) {
            Some(OutputFormat::Url)
        } else if chars_eq_ic(&v, &chars_of("html")) {
            Some(OutputFormat::Html)
        } else if chars_eq_ic(&v, &chars_of("jsx")) {
            Some(OutputFormat::Jsx)
        } else if chars_eq_ic(&v, &chars_of("json")) {
            Some(OutputFormat::Json)
        } else {
            None
        }
    }
}

/// Built-in rename strategies. The first three are concrete templates; the
/// `Custom` variant carries the user-provided template string.
#[derive(Debug)]
pub enum RenameStrategy {
    /// `images/{yyyy}/{mm}/{dd}/{hash8}.{ext}` (the default).
    DateHash,
    /// `images/{yyyy}/{mm}/{dd}/{name}.{ext}` keeping the source filename.
    DateName,
    /// `images/{yyyy}/{mm}/{uuid}.{ext}`.
    DateUuid,
    /// Caller-supplied template.
    Custom { template: String },
}

impl Default for RenameStrategy {
    fn default() -> (r: Self)
        ensures
            r is DateHash,
    {
        RenameStrategy::DateHash
    }
}

pub open spec fn spec_strategy_template(s: RenameStrategy) -> Seq<char> {
    match s {
        RenameStrategy::DateHash => "images/{yyyy}/{mm}/{dd}/{hash8}.{ext}"@,
        RenameStrategy::DateName => "images/{yyyy}/{mm}/{dd}/{name}.{ext}"@,
        RenameStrategy::DateUuid => "images/{yyyy}/{mm}/{uuid}.{ext}"@,
        RenameStrategy::Custom { template } => template@,
    }
}

impl RenameStrategy {
    /// The template string for this strategy.
    pub fn template(&self) -> (r: &str)
        ensures
            r@ == spec_strategy_template(*self),
    {
        match self {
            RenameStrategy::DateHash => "images/{yyyy}/{mm}/{dd}/{hash8}.{ext}",
            RenameStrategy::DateName => "images/{yyyy}/{mm}/{dd}/{name}.{ext}",
            RenameStrategy::DateUuid => "images/{yyyy}/{mm}/{uuid}.{ext}",
            RenameStrategy::Custom { template } => template.as_str(),
        }
    }

    /// An equal copy of the strategy.
    pub fn duplicate(&self) -> (r: Self)
        ensures
            r == *self,
    {
        match self {
            RenameStrategy::DateHash => RenameStrategy::DateHash,
            RenameStrategy::DateName => RenameStrategy::DateName,
            RenameStrategy::DateUuid => RenameStrategy::DateUuid,
            RenameStrategy::Custom { template } => RenameStrategy::Custom { template: template.clone() },
        }
    }
}

} // verus!
