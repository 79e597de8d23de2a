//! Build the uploader a config section describes, dispatching on its kind.

use vstd::prelude::*;

use crate::config::UploaderSection;
use crate::envvar::Env;
use crate::error::{error_view, Failure, ZpicError};
use crate::github::{spec_github_from_config, GitHubUploader, GitHubView};
use crate::kinds::{spec_kind_name, UploaderKind};
use crate::local::{spec_local_from_config, LocalUploader, LocalView};
use crate::oss::{spec_oss_from_config, OssUploader, OssView};
use crate::s3::{spec_s3_from_config, S3Uploader, S3View};
use crate::registry::{builtin_uploader_descriptor, UploaderDescriptor, UploaderDescriptorKind, UploaderFieldSchema};
use crate::text::{own, views};

verus! {

/// One of the built-in uploaders.
pub enum BuiltUploader {
    Local(LocalUploader),
    Github(GitHubUploader),
    S3(S3Uploader),
    AliyunOss(OssUploader),
}

impl BuiltUploader {
    /// The uploader's name.
    pub fn name(&self) -> (r: &'static str)
        ensures
            r@ == spec_kind_name(built_kind(*self)),
    {
        match self {
            BuiltUploader::Local(_) => "local",
            BuiltUploader::Github(_) => "github",
            BuiltUploader::S3(_) => "s3",
            BuiltUploader::AliyunOss(_) => "aliyun-oss",
        }
    }
}

/// The kind of a built uploader.
pub open spec fn built_kind(b: BuiltUploader) -> UploaderKind {
    match b {
        BuiltUploader::Local(_) => UploaderKind::Local,
        BuiltUploader::Github(_) => UploaderKind::Github,
        BuiltUploader::S3(_) => UploaderKind::S3,
        BuiltUploader::AliyunOss(_) => UploaderKind::AliyunOss,
    }
}

/// `r` is what the uploader of `kind` builds from the fields.
pub open spec fn built_from(
    kind: UploaderKind,
    f: Map<Seq<char>, crate::fields::FieldValue>,
    env: Map<Seq<char>, String>,
    r: Result<BuiltUploader, ZpicError>,
) -> bool {
    match r {
        Ok(b) => built_kind(b) == kind && match b {
            BuiltUploader::Local(u) => spec_local_from_config(f) == Ok::<LocalView, Failure>(u@),
            BuiltUploader::Github(u) => spec_github_from_config(f, env) == Ok::<GitHubView, Failure>(u@),
            BuiltUploader::S3(u) => spec_s3_from_config(f, env) == Ok::<S3View, Failure>(u@),
            BuiltUploader::AliyunOss(u) => spec_oss_from_config(f, env) == Ok::<OssView, Failure>(u@),
        },
        Err(e) => match kind {
            UploaderKind::Local => spec_local_from_config(f) == Err::<LocalView, Failure>(error_view(e)),
            UploaderKind::Github => spec_github_from_config(f, env) == Err::<GitHubView, Failure>(
                error_view(e),
            ),
            UploaderKind::S3 => spec_s3_from_config(f, env) == Err::<S3View, Failure>(error_view(e)),
            UploaderKind::AliyunOss => spec_oss_from_config(f, env) == Err::<OssView, Failure>(
                error_view(e),
            ),
        },
    }
}

/// Why the uploader of `kind` cannot be built from the fields, if it
/// cannot.
pub open spec fn build_failure(
    kind: UploaderKind,
    f: Map<Seq<char>, crate::fields::FieldValue>,
    env: Map<Seq<char>, String>,
) -> Option<Failure> {
    match kind {
        UploaderKind::Local => match spec_local_from_config(f) {
            Ok(_) => None,
            Err(x) => Some(x),
        },
        UploaderKind::Github => match spec_github_from_config(f, env) {
            Ok(_) => None,
            Err(x) => Some(x),
        },
        UploaderKind::S3 => match spec_s3_from_config(f, env) {
            Ok(_) => None,
            Err(x) => Some(x),
        },
        UploaderKind::AliyunOss => match spec_oss_from_config(f, env) {
            Ok(_) => None,
            Err(x) => Some(x),
        },
    }
}

/// Build the uploader of a section's kind from its fields.
pub fn build_uploader(name: &str, section: &UploaderSection, env: &Env) -> (r: Result<BuiltUploader, ZpicError>)
    ensures
        built_from(section.kind, section.fields@, env@, r),
{
    match section.kind {
        UploaderKind::Local => match LocalUploader::from_config(section) {
            Ok(u) => Ok(BuiltUploader::Local(u)),
            Err(e) => Err(e),
        },
        UploaderKind::Github => match GitHubUploader::from_config(section, env) {
            Ok(u) => Ok(BuiltUploader::Github(u)),
            Err(e) => Err(e),
        },
        UploaderKind::S3 => match S3Uploader::from_config(section, env) {
            Ok(u) => Ok(BuiltUploader::S3(u)),
            Err(e) => Err(e),
        },
        UploaderKind::AliyunOss => match OssUploader::from_config(section, env) {
            Ok(u) => Ok(BuiltUploader::AliyunOss(u)),
            Err(e) => Err(e),
        },
    }
}

/// The canonical name of a kind (the name its uploader reports).
pub fn name_for_kind(kind: UploaderKind) -> (r: &'static str)
    ensures
        r@ == spec_kind_name(kind),
{
    kind.as_str()
}


/// A field schema as a value: key, label, required, secret, default.
pub open spec fn schema_view(f: UploaderFieldSchema) -> (Seq<char>, Seq<char>, bool, bool, Option<Seq<char>>) {
    (f.key@, f.label@, f.required, f.secret, match f.default {
        Some(d) => Some(d@),
        None => None,
    })
}

/// The fields of a schema list as values.
pub open spec fn schema_views(fs: Seq<UploaderFieldSchema>) -> Seq<(Seq<char>, Seq<char>, bool, bool, Option<Seq<char>>)> {
    fs.map_values(|f: UploaderFieldSchema| schema_view(f))
}

/// The built-in uploaders: type, display name, aliases and the fields
/// guided setup asks for.
pub open spec fn builtin_table() -> Seq<(Seq<char>, Seq<char>, Seq<Seq<char>>, Seq<(Seq<char>, Seq<char>, bool, bool, Option<Seq<char>>)>)> {
    seq![
        ("local"@, "local"@, seq!["local"@], seq![
            ("target_dir"@, "Target directory"@, true, false, None),
            ("public_base_url"@, "Public base URL"@, true, false, None),
        ]),
        ("github"@, "github"@, seq!["github"@], seq![
            ("repo"@, "GitHub repo (owner/repo)"@, true, false, None),
            ("branch"@, "Branch"@, true, false, Some("master"@)),
            ("token"@, "GitHub token"@, true, true, None),
            ("path_prefix"@, "Path prefix"@, false, false, None),
            ("public_base_url"@, "Custom public base URL"@, false, false, None),
        ]),
        ("s3"@, "s3"@, seq!["s3"@, "aws-s3"@, "r2"@], seq![
            ("endpoint"@, "S3 endpoint"@, true, false, None),
            ("region"@, "Region"@, false, false, Some("auto"@)),
            ("bucket"@, "Bucket"@, true, false, None),
            ("access_key_id"@, "Access key ID"@, true, false, None),
            ("secret_access_key"@, "Secret access key"@, true, true, None),
            ("public_base_url"@, "Public base URL"@, true, false, None),
            ("cache_control"@, "Cache-Control"@, false, false, None),
            ("acl"@, "ACL"@, false, false, None),
        ]),
    ]
}

fn field(key: &str, label: &str, required: bool, secret: bool, default: Option<&str>) -> (r: UploaderFieldSchema)
    ensures
        schema_view(r) == (key@, label@, required, secret, match default {
            Some(d) => Some(d@),
            None => None,
        }),
{
    UploaderFieldSchema {
        key: own(key),
        label: own(label),
        required,
        secret,
        default: match default {
            Some(d) => Some(own(d)),
            None => None,
        },
    }
}

/// The descriptors of the built-in uploaders, as `builtin_table` lists them.
pub fn builtin_uploader_descriptors() -> (r: Vec<UploaderDescriptor>)
    ensures
        r@.len() == builtin_table().len(),
        forall|i: int|
            0 <= i < r@.len() ==> {
                &&& (#[trigger] r@[i]).kind == UploaderDescriptorKind::Builtin
                &&& r@[i].uploader_type@ == builtin_table()[i].0
                &&& r@[i].display_name@ == builtin_table()[i].1
                &&& views(r@[i].aliases@) == builtin_table()[i].2
                &&& schema_views(r@[i].fields@) == builtin_table()[i].3
            },
{
    let local = builtin_uploader_descriptor(
        "local",
        "local",
        vec![own("local")],
        vec![
            field("target_dir", "Target directory", true, false, None),
            field("public_base_url", "Public base URL", true, false, None),
        ],
    );
    let github = builtin_uploader_descriptor(
        "github",
        "github",
        vec![own("github")],
        vec![
            field("repo", "GitHub repo (owner/repo)", true, false, None),
            field("branch", "Branch", true, false, Some("master")),
            field("token", "GitHub token", true, true, None),
            field("path_prefix", "Path prefix", false, false, None),
            field("public_base_url", "Custom public base URL", false, false, None),
        ],
    );
    let s3 = builtin_uploader_descriptor(
        "s3",
        "s3",
        vec![own("s3"), own("aws-s3"), own("r2")],
        vec![
            field("endpoint", "S3 endpoint", true, false, None),
            field("region", "Region", false, false, Some("auto")),
            field("bucket", "Bucket", true, false, None),
            field("access_key_id", "Access key ID", true, false, None),
            field("secret_access_key", "Secret access key", true, true, None),
            field("public_base_url", "Public base URL", true, false, None),
            field("cache_control", "Cache-Control", false, false, None),
            field("acl", "ACL", false, false, None),
        ],
    );
    proof {
        assert(views(local.aliases@) =~= builtin_table()[0].2);
        assert(schema_views(local.fields@) =~= builtin_table()[0].3);
        assert(views(github.aliases@) =~= builtin_table()[1].2);
        assert(schema_views(github.fields@) =~= builtin_table()[1].3);
        assert(views(s3.aliases@) =~= builtin_table()[2].2);
        assert(schema_views(s3.fields@) =~= builtin_table()[2].3);
    }
    let r = vec![local, github, s3];
    r
}

} // verus!
