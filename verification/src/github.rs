//! GitHub contents uploader: PUTs a base64-encoded blob to the
//! `repos/{owner}/{repo}/contents/{path}` API and reports a CDN URL.
//!
//! The library decides URLs, the request (URL, headers, body fields) and
//! what each response means; sending is left to the caller.

use vstd::prelude::*;

use crate::config::UploaderSection;
use crate::envvar::Env;
use crate::error::{error_view, ErrorKind, Failure, ZpicError};
use crate::fields::{spec_field, spec_resolved, spec_string_field, FieldValue};
use crate::oss::either;
use crate::text::{
    chars_of, has_char, opt_view, or_empty, own, push_chars, push_str, strip_both,
    strip_both_chars, strip_end, strip_end_chars, strip_start, strip_start_chars, string_of,
    trim, trim_chars, trim_str,
};
use crate::upload::{md_image, output_for, UploadContext, UploadInput, UploadOutput};

verus! {

/// A 6-bit value's character in the standard base64 alphabet:
/// `A`-`Z`, `a`-`z`, `0`-`9`, `+`, `/`.
pub open spec fn b64_char(v: int) -> char {
    if v < 26 {
        (65 + v) as char
    } else if v < 52 {
        (97 + v - 26) as char
    } else if v < 62 {
        (48 + v - 52) as char
    } else if v == 62 {
        '+'
    } else {
        '/'
    }
}

/// The standard base64 encoding of a byte string (RFC 4648, section 4):
/// each group of three bytes becomes four characters of six bits each,
/// and a final group of one or two bytes is padded with `=`.
pub open spec fn spec_base64(data: Seq<u8>) -> Seq<char>
    decreases data.len(),
{
    if data.len() == 0 {
        seq![]
    } else if data.len() == 1 {
        let a = data[0] as int;
        seq![b64_char(a / 4), b64_char((a % 4) * 16), '=', '=']
    } else if data.len() == 2 {
        let a = data[0] as int;
        let b = data[1] as int;
        seq![b64_char(a / 4), b64_char((a % 4) * 16 + b / 16), b64_char((b % 16) * 4), '=']
    } else {
        let a = data[0] as int;
        let b = data[1] as int;
        let c = data[2] as int;
        seq![
            b64_char(a / 4),
            b64_char((a % 4) * 16 + b / 16),
            b64_char((b % 16) * 4 + c / 64),
            b64_char(c % 64),
        ] + spec_base64(data.subrange(3, data.len() as int))
    }
}

/// Calls `base64::engine::general_purpose::STANDARD.encode`, which writes
/// the standard alphabet with `=` padding.
#[verifier::external_body]
pub(crate) fn base64_standard(data: &[u8]) -> (r: String)
    ensures
        r@ == spec_base64(data@),
{
    base64::Engine::encode(&base64::engine::general_purpose::STANDARD, data)
}

/// The settings of a GitHub uploader.
pub struct GitHubView {
    pub repo: Seq<char>,
    pub branch: Seq<char>,
    pub token: Seq<char>,
    pub public_base_url: Seq<char>,
    pub path_prefix: Seq<char>,
}

/// Upload a file to a GitHub repository's contents API.
pub struct GitHubUploader {
    repo: String,
    branch: String,
    token: String,
    public_base_url: String,
    path_prefix: String,
}

impl View for GitHubUploader {
    type V = GitHubView;

    closed spec fn view(&self) -> GitHubView {
        GitHubView {
            repo: self.repo@,
            branch: self.branch@,
            token: self.token@,
            public_base_url: self.public_base_url@,
            path_prefix: self.path_prefix@,
        }
    }
}

/// What `from_config` builds from a section's fields.
pub open spec fn spec_github_from_config(
    f: Map<Seq<char>, FieldValue>,
    env: Map<Seq<char>, String>,
) -> Result<GitHubView, Failure> {
    let repo = trim(spec_string_field(f, "repo"@));
    let b0 = spec_string_field(f, "branch"@);
    let token = or_empty(spec_resolved(f, "token"@, env));
    if repo.len() == 0 || !has_char(repo, '/') {
        Err((ErrorKind::ConfigInvalid, "github uploader requires `repo` in 'owner/repo' form"@))
    } else if token.len() == 0 {
        Err(
            (
                ErrorKind::AuthMissing,
                "github uploader requires `token` (set GITHUB_TOKEN or configure `token`)"@,
            ),
        )
    } else {
        Ok(
            GitHubView {
                repo,
                branch: if b0.len() == 0 {
                    "master"@
                } else {
                    b0
                },
                token,
                public_base_url: strip_end(
                    trim(
                        or_empty(
                            either(spec_field(f, "public_base_url"@), spec_field(f, "customUrl"@)),
                        ),
                    ),
                    '/',
                ),
                path_prefix: strip_both(
                    trim(or_empty(either(spec_field(f, "path_prefix"@), spec_field(f, "path"@)))),
                    '/',
                ),
            },
        )
    }
}

/// The object key under the configured prefix.
pub open spec fn spec_github_key(prefix: Seq<char>, key: Seq<char>) -> Seq<char> {
    let k = strip_start(key, '/');
    if prefix.len() == 0 {
        k
    } else {
        prefix + "/"@ + k
    }
}

/// The public URL of an object: under the custom base URL, else the raw
/// GitHub content URL of the branch.
pub open spec fn spec_github_url(v: GitHubView, key: Seq<char>) -> Seq<char> {
    let k = spec_github_key(v.path_prefix, key);
    let base = v.public_base_url;
    if base.len() > 0 && base.last() == '/' {
        base + k
    } else if base.len() > 0 {
        base + "/"@ + k
    } else {
        "https://raw.githubusercontent.com/"@ + v.repo + "/"@ + v.branch + "/"@ + k
    }
}

/// The contents API URL of an object.
pub open spec fn spec_github_api_url(v: GitHubView, key: Seq<char>) -> Seq<char> {
    "https://api.github.com/repos/"@ + v.repo + "/contents/"@ + spec_github_key(v.path_prefix, key)
}

/// The URL an upload reports: the download URL GitHub returned when no
/// custom base URL is set, else the public URL.
pub open spec fn spec_github_output_url(
    v: GitHubView,
    key: Seq<char>,
    download_url: Option<Seq<char>>,
) -> Seq<char> {
    if v.public_base_url.len() == 0 {
        match download_url {
            Some(d) => d,
            None => spec_github_url(v, key),
        }
    } else {
        spec_github_url(v, key)
    }
}

/// The request that stores a file: the contents API URL, the headers and
/// the JSON body's fields (`message`, `branch`, `content`).
pub struct GitHubPut {
    pub url: String,
    pub headers: Vec<(String, String)>,
    pub message: String,
    pub branch: String,
    pub content: String,
}

/// What the contents API answered.
pub enum GitHubResponse {
    /// A 2xx answer, with the `content.download_url` it carried, if any.
    Stored { download_url: Option<String> },
    /// Any other status: its code, its display (`401 Unauthorized`) and the
    /// body text.
    Refused { code: u16, status: String, body: String },
}

fn text_or_empty(o: Option<String>) -> (r: String)
    ensures
        r@ == or_empty(opt_view(o)),
{
    match o {
        Some(s) => s,
        None => String::new(),
    }
}

fn first_of(a: Option<String>, b: Option<String>) -> (r: Option<String>)
    ensures
        opt_view(r) == either(opt_view(a), opt_view(b)),
{
    match a {
        Some(x) => Some(x),
        None => b,
    }
}

/// `o` reports `input` stored under `key` and reachable at `url`: the
/// markdown names the file, the source, MIME type and size are the
/// input's, dimensions are unknown, and the uploader is `github`.
pub open spec fn github_reported(o: UploadOutput, input: UploadInput, key: Seq<char>, url: Seq<char>) -> bool {
    &&& o.url@ == url
    &&& o.key@ == key
    &&& o.markdown@ == md_image(input.file_name@, url)
    &&& o.source == input.source_path
    &&& o.mime == input.mime
    &&& o.size == input.size
    &&& o.width is None
    &&& o.height is None
    &&& o.uploader@ == "github"@
}

impl GitHubUploader {
    /// Build a GitHub uploader from a `[uploaders.<name>]` section; the
    /// token may refer to the environment.
    pub fn from_config(section: &UploaderSection, env: &Env) -> (r: Result<GitHubUploader, ZpicError>)
        ensures
            match r {
                Ok(u) => spec_github_from_config(section.fields@, env@) == Ok::<GitHubView, Failure>(
                    u@,
                ),
                Err(e) => spec_github_from_config(section.fields@, env@) == Err::<
                    GitHubView,
                    Failure,
                >(error_view(e)),
            },
    {
        let repo_chars = chars_of(section.string_field("repo").as_str());
        let repo_trim = trim_chars(&repo_chars);
        if repo_trim.len() == 0 || !crate::text::chars_has(&repo_trim, '/') {
            return Err(
                ZpicError::ConfigInvalid(own("github uploader requires `repo` in 'owner/repo' form")),
            );
        }
        let b0 = section.string_field("branch");
        let branch = if b0.as_str().is_empty() {
            own("master")
        } else {
            b0
        };
        let token = text_or_empty(section.resolve_string("token", env));
        if token.as_str().is_empty() {
            return Err(
                ZpicError::AuthMissing(
                    own("github uploader requires `token` (set GITHUB_TOKEN or configure `token`)"),
                ),
            );
        }
        let base_raw = text_or_empty(
            first_of(section.field("public_base_url"), section.field("customUrl")),
        );
        let base_chars = chars_of(base_raw.as_str());
        let base_trim = trim_chars(&base_chars);
        let base = strip_end_chars(&base_trim, '/');
        let prefix_raw = text_or_empty(first_of(section.field("path_prefix"), section.field("path")));
        let prefix_chars = chars_of(prefix_raw.as_str());
        let prefix_trim = trim_chars(&prefix_chars);
        let prefix = strip_both_chars(&prefix_trim, '/');
        Ok(
            GitHubUploader {
                repo: string_of(&repo_trim),
                branch,
                token,
                public_base_url: string_of(&base),
                path_prefix: string_of(&prefix),
            },
        )
    }

    /// Construct with explicit settings and no path prefix.
    pub fn new(repo: &str, branch: &str, token: &str, public_base_url: &str) -> (r: Result<
        GitHubUploader,
        ZpicError,
    >)
        ensures
            token@.len() == 0 ==> (r matches Err(e) && error_view(e) == (
                ErrorKind::AuthMissing,
                "github token"@,
            )),
            token@.len() > 0 ==> (r matches Ok(u) && u@ == (GitHubView {
                repo: repo@,
                branch: branch@,
                token: token@,
                public_base_url: public_base_url@,
                path_prefix: seq![],
            })),
    {
        if token.is_empty() {
            return Err(ZpicError::AuthMissing(own("github token")));
        }
        let u = GitHubUploader {
            repo: own(repo),
            branch: own(branch),
            token: own(token),
            public_base_url: own(public_base_url),
            path_prefix: String::new(),
        };
        proof {
            assert(u@.path_prefix =~= Seq::<char>::empty());
        }
        Ok(u)
    }

    /// The object key under the configured path prefix.
    pub fn storage_key(&self, key: &str) -> (r: String)
        ensures
            r@ == spec_github_key(self@.path_prefix, key@),
    {
        let kc = chars_of(key);
        let k = strip_start_chars(&kc, '/');
        if self.path_prefix.as_str().is_empty() {
            return string_of(&k);
        }
        let mut v: Vec<char> = Vec::new();
        push_str(&mut v, self.path_prefix.as_str());
        push_str(&mut v, "/");
        push_chars(&mut v, &k);
        string_of(&v)
    }

    /// The public URL of an object key.
    pub fn build_url(&self, key: &str) -> (r: String)
        ensures
            r@ == spec_github_url(self@, key@),
    {
        let k = self.storage_key(key);
        let base = chars_of(self.public_base_url.as_str());
        let mut v: Vec<char> = Vec::new();
        if base.len() > 0 && base[base.len() - 1] == '/' {
            push_chars(&mut v, &base);
        } else if base.len() > 0 {
            push_chars(&mut v, &base);
            push_str(&mut v, "/");
        } else {
            push_str(&mut v, "https://raw.githubusercontent.com/");
            push_str(&mut v, self.repo.as_str());
            push_str(&mut v, "/");
            push_str(&mut v, self.branch.as_str());
            push_str(&mut v, "/");
        }
        push_str(&mut v, k.as_str());
        string_of(&v)
    }

    /// The contents API URL of an object key.
    pub fn api_url(&self, key: &str) -> (r: String)
        ensures
            r@ == spec_github_api_url(self@, key@),
    {
        let k = self.storage_key(key);
        let mut v: Vec<char> = Vec::new();
        push_str(&mut v, "https://api.github.com/repos/");
        push_str(&mut v, self.repo.as_str());
        push_str(&mut v, "/contents/");
        push_str(&mut v, k.as_str());
        string_of(&v)
    }

    /// The URL an upload reports, given the download URL GitHub returned.
    pub fn output_url(&self, key: &str, download_url: Option<String>) -> (r: String)
        ensures
            r@ == spec_github_output_url(self@, key@, opt_view(download_url)),
    {
        if self.public_base_url.as_str().is_empty() {
            match download_url {
                Some(d) => d,
                None => self.build_url(key),
            }
        } else {
            self.build_url(key)
        }
    }

    /// The uploader's name.
    pub fn name(&self) -> (r: &'static str)
        ensures
            r@ == "github"@,
    {
        "github"
    }

    /// The headers every API call carries.
    pub fn auth_headers(&self) -> (r: Vec<(String, String)>)
        ensures
            crate::sigv4::pair_views(r@) == seq![
                ("authorization"@, "Bearer "@ + self@.token),
                ("user-agent"@, "zpic/0.1"@),
                ("x-github-api-version"@, "2022-11-28"@),
                ("accept"@, "application/vnd.github+json"@),
            ],
    {
        let mut h: Vec<(String, String)> = Vec::new();
        let mut bearer: Vec<char> = Vec::new();
        push_str(&mut bearer, "Bearer ");
        push_str(&mut bearer, self.token.as_str());
        let b = string_of(&bearer);
        crate::sigv4::push_pair(&mut h, "authorization", b.as_str());
        crate::sigv4::push_pair(&mut h, "user-agent", "zpic/0.1");
        crate::sigv4::push_pair(&mut h, "x-github-api-version", "2022-11-28");
        crate::sigv4::push_pair(&mut h, "accept", "application/vnd.github+json");
        proof {
            assert(crate::sigv4::pair_views(h@) =~= seq![
                ("authorization"@, "Bearer "@ + self@.token),
                ("user-agent"@, "zpic/0.1"@),
                ("x-github-api-version"@, "2022-11-28"@),
                ("accept"@, "application/vnd.github+json"@),
            ]);
        }
        h
    }

    /// The request that stores `input` under the context's target key.
    pub fn put_request(&self, input: &UploadInput, ctx: &UploadContext) -> (r: GitHubPut)
        ensures
            r.url@ == spec_github_api_url(self@, ctx.target_key@),
            r.message@ == "zpic: upload "@ + input.file_name@,
            r.branch@ == self@.branch,
            r.content@ == spec_base64(input.bytes@),
            crate::sigv4::pair_views(r.headers@) == seq![
                ("authorization"@, "Bearer "@ + self@.token),
                ("user-agent"@, "zpic/0.1"@),
                ("x-github-api-version"@, "2022-11-28"@),
                ("accept"@, "application/vnd.github+json"@),
            ],
    {
        let mut m: Vec<char> = Vec::new();
        push_str(&mut m, "zpic: upload ");
        push_str(&mut m, input.file_name.as_str());
        GitHubPut {
            url: self.api_url(ctx.target_key.as_str()),
            headers: self.auth_headers(),
            message: string_of(&m),
            branch: self.branch.clone(),
            content: base64_standard(input.bytes.as_slice()),
        }
    }

    /// What an upload reports when the object is reachable at `url`.
    fn output_at(&self, input: &UploadInput, ctx: &UploadContext, url: String) -> (r: UploadOutput)
        ensures
            r.url == url,
            r.key@ == spec_github_key(self@.path_prefix, ctx.target_key@),
            r.markdown@ == md_image(input.file_name@, url@),
            r.source == input.source_path,
            r.mime == input.mime,
            r.size == input.size,
            r.width is None,
            r.height is None,
            r.uploader@ == "github"@,
    {
        let key = self.storage_key(ctx.target_key.as_str());
        output_for(input, url, key, "github")
    }

    /// What a dry run reports: the public URL of the target key.
    pub fn dry_run_output(&self, input: &UploadInput, ctx: &UploadContext) -> (r: UploadOutput)
        ensures
            github_reported(
                r,
                *input,
                spec_github_key(self@.path_prefix, ctx.target_key@),
                spec_github_url(self@, ctx.target_key@),
            ),
    {
        let url = self.build_url(ctx.target_key.as_str());
        self.output_at(input, ctx, url)
    }

    /// What an upload reports for the API's answer: a stored file is
    /// reported at its output URL; 401/403 are authentication failures; 409
    /// means the path is taken; 422 (the content is already there) is
    /// reported at the public URL; anything else is a failed upload.
    pub fn finish_upload(&self, input: &UploadInput, ctx: &UploadContext, resp: GitHubResponse) -> (r:
        Result<UploadOutput, ZpicError>)
        ensures
            match resp {
                GitHubResponse::Stored { download_url } => r matches Ok(o) && github_reported(
                    o,
                    *input,
                    spec_github_key(self@.path_prefix, ctx.target_key@),
                    spec_github_output_url(self@, ctx.target_key@, opt_view(download_url)),
                ),
                GitHubResponse::Refused { code, status, body } => if code == 401 || code == 403 {
                    r matches Err(e) && error_view(e) == (
                        ErrorKind::AuthFailed,
                        "github responded with "@ + status@ + ": "@ + body@,
                    )
                } else if code == 409 {
                    r matches Err(e) && error_view(e) == (
                        ErrorKind::UploadFailed,
                        "github: file already exists at "@ + ctx.target_key@
                            + " (use a new path or remove the existing one)"@,
                    )
                } else if code == 422 {
                    r matches Ok(o) && github_reported(
                        o,
                        *input,
                        spec_github_key(self@.path_prefix, ctx.target_key@),
                        spec_github_url(self@, ctx.target_key@),
                    )
                } else {
                    r matches Err(e) && error_view(e) == (
                        ErrorKind::UploadFailed,
                        "github: HTTP "@ + status@ + ": "@ + body@,
                    )
                },
            },
    {
        match resp {
            GitHubResponse::Stored { download_url } => {
                let url = self.output_url(ctx.target_key.as_str(), download_url);
                Ok(self.output_at(input, ctx, url))
            },
            GitHubResponse::Refused { code, status, body } => {
                let mut v: Vec<char> = Vec::new();
                if code == 401 || code == 403 {
                    push_str(&mut v, "github responded with ");
                    push_str(&mut v, status.as_str());
                    push_str(&mut v, ": ");
                    push_str(&mut v, body.as_str());
                    return Err(ZpicError::AuthFailed(string_of(&v)));
                }
                if code == 409 {
                    push_str(&mut v, "github: file already exists at ");
                    push_str(&mut v, ctx.target_key.as_str());
                    push_str(&mut v, " (use a new path or remove the existing one)");
                    return Err(ZpicError::UploadFailed(string_of(&v)));
                }
                if code == 422 {
                    let url = self.build_url(ctx.target_key.as_str());
                    return Ok(self.output_at(input, ctx, url));
                }
                push_str(&mut v, "github: HTTP ");
                push_str(&mut v, status.as_str());
                push_str(&mut v, ": ");
                push_str(&mut v, body.as_str());
                Err(ZpicError::UploadFailed(string_of(&v)))
            },
        }
    }
}

// ------------------------------------------------------------------
// Laws
// ------------------------------------------------------------------

/// The contents API stores the file at the path the upload reports: the
/// PUT URL is `https://api.github.com/repos/<repo>/contents/<path>`, where
/// `<path>` is the reported key, and with no custom base URL the reported
/// URL is the raw content URL of that same path on the branch. The path is
/// the path prefix and `/` (when there is a prefix) followed by the target
/// key without its leading `/`s.
pub proof fn law_github_stores_at_reported_key(v: GitHubView, key: Seq<char>)
    ensures
        ({
            let path = (if v.path_prefix.len() == 0 {
                seq![]
            } else {
                v.path_prefix + "/"@
            }) + strip_start(key, '/');
            &&& spec_github_key(v.path_prefix, key) == path
            &&& spec_github_api_url(v, key) == "https://api.github.com/repos/"@ + v.repo + "/contents/"@
                + path
            &&& v.public_base_url.len() == 0 ==> spec_github_url(v, key)
                == "https://raw.githubusercontent.com/"@ + v.repo + "/"@ + v.branch + "/"@ + path
        }),
{
    let path = (if v.path_prefix.len() == 0 {
        seq![]
    } else {
        v.path_prefix + "/"@
    }) + strip_start(key, '/');
    if v.path_prefix.len() == 0 {
        assert(path =~= strip_start(key, '/'));
    } else {
        assert(path =~= v.path_prefix + "/"@ + strip_start(key, '/'));
    }
}

} // verus!
