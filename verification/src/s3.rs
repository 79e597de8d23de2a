//! S3-compatible uploader (AWS S3, Cloudflare R2, MinIO, Backblaze B2 and
//! any endpoint that speaks the S3 V4 signing protocol).
//!
//! The library computes the signed `PutObject` request (URL and headers);
//! sending it is left to the caller, which reports the response status back
//! through [`s3_status_error`].

use vstd::prelude::*;
use vstd::utf8::encode_utf8;

use crate::config::UploaderSection;
use crate::envvar::Env;
use crate::error::{error_view, ErrorKind, Failure, ZpicError};
use crate::fields::{spec_resolved, spec_str_field, spec_string_field, FieldValue};
use crate::seqs::{first_index, lemma_first_index_is, lemma_first_index_none};
use crate::sigv4::{
    amz_datetime_now, ends_with_hex_signature, header_block, hex_hmac_sha256, hex_lower, join_keys, opt_entry, pair_views,
    pct_encode, push_opt_pair, push_pair, render_header_block, render_key_list, sha256_hex,
    signed_view, signing_key, spec_hmac_sha256, spec_sha256, spec_signing_key, SignedRequest,
};
use crate::text::{
    chars_of, chars_strip_prefix, dec, dec_string, lower, opt_view, or_empty, own, push_chars,
    push_str, slice_chars, str_eq, strip_end, strip_end_chars, strip_prefix_seq, strip_start,
    strip_start_chars, string_of, substring, to_lower, trim, trim_chars, trim_str,
};
use crate::upload::{md_image, output_for, UploadContext, UploadInput, UploadOutput};

pub use crate::sigv4::{canonicalize_headers, percent_encode_path};

verus! {

// ------------------------------------------------------------------
// Endpoint normalization
// ------------------------------------------------------------------

pub open spec fn is_url_sep(c: char) -> bool {
    c == '/' || c == '?' || c == '#'
}

pub open spec fn url_sep() -> spec_fn(char) -> bool {
    |c: char| is_url_sep(c)
}

/// Where the host part of `rest` ends: at the first `/`, `?` or `#`.
pub open spec fn host_end(rest: Seq<char>) -> int {
    match first_index(rest, url_sep()) {
        Some(i) => i,
        None => rest.len() as int,
    }
}

/// The scheme an endpoint is given: its own `https://` / `http://`, else
/// `https://`.
pub open spec fn scheme_of(t: Seq<char>) -> Seq<char> {
    if strip_prefix_seq(t, "https://"@) is Some {
        "https://"@
    } else if strip_prefix_seq(t, "http://"@) is Some {
        "http://"@
    } else {
        "https://"@
    }
}

/// What follows the scheme, or the whole text when there is none.
pub open spec fn after_scheme(t: Seq<char>) -> Seq<char> {
    match strip_prefix_seq(t, "https://"@) {
        Some(r) => r,
        None => match strip_prefix_seq(t, "http://"@) {
            Some(r) => r,
            None => t,
        },
    }
}

/// `scheme://host[:port]` of a user-provided endpoint.
pub open spec fn spec_ensure_scheme(endpoint: Seq<char>) -> Seq<char> {
    let t = trim(endpoint);
    let rest = after_scheme(t);
    scheme_of(t) + rest.subrange(0, host_end(rest))
}

fn split_scheme(t: &[char]) -> (r: (&'static str, Vec<char>))
    ensures
        r.0@ == scheme_of(t@),
        r.1@ == after_scheme(t@),
{
    match chars_strip_prefix(t, "https://") {
        Some(rest) => ("https://", rest),
        None => match chars_strip_prefix(t, "http://") {
            Some(rest) => ("http://", rest),
            None => ("https://", slice_chars(t, 0, t.len())),
        },
    }
}

fn host_end_of(rest: &[char]) -> (k: usize)
    ensures
        k == host_end(rest@),
        k <= rest.len(),
{
    let mut i: usize = 0;
    while i < rest.len()
        invariant
            i <= rest.len(),
            forall|j: int| 0 <= j < i ==> !is_url_sep(#[trigger] rest@[j]),
        decreases rest.len() - i,
    {
        let c = rest[i];
        if c == '/' || c == '?' || c == '#' {
            proof {
                lemma_first_index_is(rest@, url_sep(), i as int);
            }
            return i;
        }
        i = i + 1;
    }
    proof {
        lemma_first_index_none(rest@, url_sep());
    }
    i
}

/// Normalize a user-provided endpoint to `scheme://host[:port]`: any path,
/// query or fragment is dropped, and `https://` is the default scheme.
pub fn ensure_scheme(endpoint: &str) -> (r: String)
    ensures
        r@ == spec_ensure_scheme(endpoint@),
{
    let v = chars_of(endpoint);
    let t = trim_chars(&v);
    let (scheme, rest) = split_scheme(&t);
    let end = host_end_of(&rest);
    let host = slice_chars(&rest, 0, end);
    let mut out: Vec<char> = Vec::new();
    push_str(&mut out, scheme);
    push_chars(&mut out, &host);
    string_of(&out)
}

pub open spec fn missing_host_message(e: Seq<char>) -> Seq<char> {
    "s3 endpoint '"@ + e + "' is missing a host"@
}

/// The host (and port) of a URL that carries a scheme.
pub fn extract_host(endpoint_with_scheme: &str) -> (r: Result<String, ZpicError>)
    ensures
        match r {
            Ok(h) => after_scheme(endpoint_with_scheme@).len() > 0 && h@ == after_scheme(
                endpoint_with_scheme@,
            ),
            Err(e) => after_scheme(endpoint_with_scheme@).len() == 0 && error_view(e) == (
                ErrorKind::ConfigInvalid,
                missing_host_message(endpoint_with_scheme@),
            ),
        },
{
    let v = chars_of(endpoint_with_scheme);
    let (_, rest) = split_scheme(&v);
    if rest.len() == 0 {
        let mut m: Vec<char> = Vec::new();
        push_str(&mut m, "s3 endpoint '");
        push_str(&mut m, endpoint_with_scheme);
        push_str(&mut m, "' is missing a host");
        return Err(ZpicError::ConfigInvalid(string_of(&m)));
    }
    Ok(string_of(&rest))
}

// ------------------------------------------------------------------
// Canned ACLs
// ------------------------------------------------------------------

/// The canned ACL names S3 accepts.
pub open spec fn s3_canned_acls() -> Seq<Seq<char>> {
    seq![
        "private"@,
        "public-read"@,
        "public-read-write"@,
        "authenticated-read"@,
        "aws-exec-read"@,
        "bucket-owner-read"@,
        "bucket-owner-full-control"@,
        "log-delivery-write"@,
    ]
}

/// Map a user-provided ACL to its canonical lower-case name; `None` for an
/// unknown value.
pub fn validate_acl(s: &str) -> (r: Option<&'static str>)
    ensures
        match r {
            Some(a) => s3_canned_acls().contains(a@) && a@ == lower(s@),
            None => !s3_canned_acls().contains(lower(s@)),
        },
{
    let l = to_lower(s);
    let names: [&'static str; 8] = [
        "private",
        "public-read",
        "public-read-write",
        "authenticated-read",
        "aws-exec-read",
        "bucket-owner-read",
        "bucket-owner-full-control",
        "log-delivery-write",
    ];
    proof {
        assert(names@.map_values(|n: &str| n@) =~= s3_canned_acls());
    }
    let mut i: usize = 0;
    while i < 8
        invariant
            i <= 8,
            l@ == lower(s@),
            names@.map_values(|n: &str| n@) == s3_canned_acls(),
            forall|j: int| 0 <= j < i ==> s3_canned_acls()[j] != l@,
        decreases 8 - i,
    {
        let n = names[i];
        assert(s3_canned_acls()[i as int] == n@);
        if str_eq(l.as_str(), n) {
            return Some(n);
        }
        i = i + 1;
    }
    None
}

// ------------------------------------------------------------------
// The uploader
// ------------------------------------------------------------------

/// The settings of an S3 uploader.
pub struct S3View {
    pub endpoint: Seq<char>,
    pub region: Seq<char>,
    pub bucket: Seq<char>,
    pub access_key_id: Seq<char>,
    pub secret_access_key: Seq<char>,
    pub public_base_url: Seq<char>,
    pub cache_control: Option<Seq<char>>,
    pub acl: Option<Seq<char>>,
}

/// S3-compatible uploader. The public URL of an object is composed from
/// `public_base_url` and the object key.
pub struct S3Uploader {
    endpoint: String,
    region: String,
    bucket: String,
    access_key_id: String,
    secret_access_key: String,
    public_base_url: String,
    cache_control: Option<String>,
    acl: Option<String>,
}

impl View for S3Uploader {
    type V = S3View;

    closed spec fn view(&self) -> S3View {
        S3View {
            endpoint: self.endpoint@,
            region: self.region@,
            bucket: self.bucket@,
            access_key_id: self.access_key_id@,
            secret_access_key: self.secret_access_key@,
            public_base_url: self.public_base_url@,
            cache_control: opt_view(self.cache_control),
            acl: opt_view(self.acl),
        }
    }
}

/// What `from_config` builds from a section's fields.
pub open spec fn spec_s3_from_config(
    f: Map<Seq<char>, FieldValue>,
    env: Map<Seq<char>, String>,
) -> Result<S3View, Failure> {
    let endpoint = trim(spec_string_field(f, "endpoint"@));
    let region0 = trim(spec_string_field(f, "region"@));
    let region = if region0.len() == 0 {
        "auto"@
    } else {
        region0
    };
    let bucket = trim(spec_string_field(f, "bucket"@));
    let akid = or_empty(spec_resolved(f, "access_key_id"@, env));
    let secret = or_empty(spec_resolved(f, "secret_access_key"@, env));
    let base = strip_end(trim(spec_string_field(f, "public_base_url"@)), '/');
    if endpoint.len() == 0 {
        Err((ErrorKind::ConfigInvalid, "s3 uploader requires `endpoint`"@))
    } else if bucket.len() == 0 {
        Err((ErrorKind::ConfigInvalid, "s3 uploader requires `bucket`"@))
    } else if akid.len() == 0 || secret.len() == 0 {
        Err(
            (
                ErrorKind::AuthMissing,
                "s3 uploader requires `access_key_id` and `secret_access_key`"@,
            ),
        )
    } else if base.len() == 0 {
        Err((ErrorKind::ConfigInvalid, "s3 uploader requires `public_base_url`"@))
    } else {
        Ok(
            S3View {
                endpoint,
                region,
                bucket,
                access_key_id: akid,
                secret_access_key: secret,
                public_base_url: base,
                cache_control: spec_str_field(f, "cache_control"@),
                acl: spec_str_field(f, "acl"@),
            },
        )
    }
}

/// `base/key` with the key's leading slashes dropped; no second slash when
/// the base already ends with one.
pub open spec fn spec_join_url(base: Seq<char>, key: Seq<char>) -> Seq<char> {
    let k = strip_start(key, '/');
    if base.len() > 0 && base.last() == '/' {
        base + k
    } else {
        base + "/"@ + k
    }
}

/// `base/key`, as `spec_join_url` states it.
pub fn join_url(base: &str, key: &str) -> (r: String)
    ensures
        r@ == spec_join_url(base@, key@),
{
    let b = chars_of(base);
    let kc = chars_of(key);
    let k = strip_start_chars(&kc, '/');
    let mut out: Vec<char> = Vec::new();
    push_chars(&mut out, &b);
    if !(b.len() > 0 && b[b.len() - 1] == '/') {
        push_str(&mut out, "/");
    }
    push_chars(&mut out, &k);
    string_of(&out)
}

fn or_empty_string(o: Option<String>) -> (r: String)
    ensures
        r@ == or_empty(opt_view(o)),
{
    match o {
        Some(s) => s,
        None => String::new(),
    }
}

impl S3Uploader {
    /// Build an S3 uploader from a `[uploaders.<name>]` section; credential
    /// fields may refer to the environment with `$VAR` / `${VAR}`.
    pub fn from_config(section: &UploaderSection, env: &Env) -> (r: Result<S3Uploader, ZpicError>)
        ensures
            match r {
                Ok(u) => spec_s3_from_config(section.fields@, env@) == Ok::<S3View, Failure>(u@),
                Err(e) => spec_s3_from_config(section.fields@, env@) == Err::<S3View, Failure>(
                    error_view(e),
                ),
            },
    {
        let endpoint = trim_str(section.string_field("endpoint").as_str());
        if endpoint.as_str().is_empty() {
            return Err(ZpicError::ConfigInvalid(own("s3 uploader requires `endpoint`")));
        }
        let region0 = trim_str(section.string_field("region").as_str());
        let region = if region0.as_str().is_empty() {
            own("auto")
        } else {
            region0
        };
        let bucket = trim_str(section.string_field("bucket").as_str());
        if bucket.as_str().is_empty() {
            return Err(ZpicError::ConfigInvalid(own("s3 uploader requires `bucket`")));
        }
        let access_key_id = or_empty_string(section.resolve_string("access_key_id", env));
        let secret_access_key = or_empty_string(section.resolve_string("secret_access_key", env));
        if access_key_id.as_str().is_empty() || secret_access_key.as_str().is_empty() {
            return Err(
                ZpicError::AuthMissing(
                    own("s3 uploader requires `access_key_id` and `secret_access_key`"),
                ),
            );
        }
        let base_raw = section.string_field("public_base_url");
        let base_chars = chars_of(base_raw.as_str());
        let base_trim = trim_chars(&base_chars);
        let base = strip_end_chars(&base_trim, '/');
        if base.len() == 0 {
            return Err(ZpicError::ConfigInvalid(own("s3 uploader requires `public_base_url`")));
        }
        let public_base_url = string_of(&base);
        let cache_control = crate::fields::str_field_of(&section.fields, "cache_control");
        let acl = crate::fields::str_field_of(&section.fields, "acl");
        let u = S3Uploader {
            endpoint,
            region,
            bucket,
            access_key_id,
            secret_access_key,
            public_base_url,
            cache_control,
            acl,
        };
        Ok(u)
    }

    /// Direct constructor for callers that already have the fields; the
    /// optional `cache_control` and `acl` are unset.
    pub fn new(
        endpoint: &str,
        region: &str,
        bucket: &str,
        access_key_id: &str,
        secret_access_key: &str,
        public_base_url: &str,
    ) -> (r: Result<S3Uploader, ZpicError>)
        ensures
            access_key_id@.len() == 0 || secret_access_key@.len() == 0 ==> (r matches Err(e)
                && error_view(e) == (ErrorKind::AuthMissing, "s3 credentials"@)),
            access_key_id@.len() > 0 && secret_access_key@.len() > 0 ==> (r matches Ok(u) && u@
                == (S3View {
                endpoint: endpoint@,
                region: region@,
                bucket: bucket@,
                access_key_id: access_key_id@,
                secret_access_key: secret_access_key@,
                public_base_url: public_base_url@,
                cache_control: None,
                acl: None,
            })),
    {
        if access_key_id.is_empty() || secret_access_key.is_empty() {
            return Err(ZpicError::AuthMissing(own("s3 credentials")));
        }
        Ok(
            S3Uploader {
                endpoint: own(endpoint),
                region: own(region),
                bucket: own(bucket),
                access_key_id: own(access_key_id),
                secret_access_key: own(secret_access_key),
                public_base_url: own(public_base_url),
                cache_control: None,
                acl: None,
            },
        )
    }

    /// The public URL of an object key.
    pub fn build_url(&self, key: &str) -> (r: String)
        ensures
            r@ == spec_join_url(self@.public_base_url, key@),
    {
        join_url(self.public_base_url.as_str(), key)
    }

    /// The bucket name.
    pub fn bucket(&self) -> (r: &str)
        ensures
            r@ == self@.bucket,
    {
        self.bucket.as_str()
    }

    /// The endpoint.
    pub fn endpoint(&self) -> (r: &str)
        ensures
            r@ == self@.endpoint,
    {
        self.endpoint.as_str()
    }

    /// The signing region.
    pub fn region(&self) -> (r: &str)
        ensures
            r@ == self@.region,
    {
        self.region.as_str()
    }

    /// Whether both credentials are set.
    pub fn has_credentials(&self) -> (r: bool)
        ensures
            r == (self@.access_key_id.len() > 0 && self@.secret_access_key.len() > 0),
    {
        !self.access_key_id.as_str().is_empty() && !self.secret_access_key.as_str().is_empty()
    }

    /// The uploader's name.
    pub fn name(&self) -> (r: &'static str)
        ensures
            r@ == "s3"@,
    {
        "s3"
    }

    /// What an upload reports (also in a dry run): the object lives under
    /// the context's target key at `build_url(target_key)`.
    pub fn upload_output(&self, input: &UploadInput, ctx: &UploadContext) -> (r: UploadOutput)
        ensures
            r.url@ == spec_join_url(self@.public_base_url, ctx.target_key@),
            r.key@ == ctx.target_key@,
            r.markdown@ == md_image(input.file_name@, r.url@),
            r.source == input.source_path,
            r.mime == input.mime,
            r.size == input.size,
            r.width is None,
            r.height is None,
            r.uploader@ == "s3"@,
    {
        let url = self.build_url(ctx.target_key.as_str());
        let key = own(ctx.target_key.as_str());
        output_for(input, url, key, "s3")
    }

    /// The signed `PutObject` request for an upload. An ACL that is not a
    /// canned S3 ACL is left out.
    pub fn put_request(&self, input: &UploadInput, ctx: &UploadContext) -> (r: Result<
        SignedRequest,
        ZpicError,
    >)
        ensures
            exists|d: Seq<char>|
                d.len() >= 16 && signed_view(r) == spec_s3_put(
                    self@.endpoint,
                    self@.region,
                    self@.bucket,
                    ctx.target_key@,
                    input.mime@,
                    self@.cache_control,
                    s3_acl_filter(self@.acl),
                    self@.access_key_id,
                    self@.secret_access_key,
                    input.bytes@.len(),
                    d,
                ),
            r matches Ok(q) ==> q.headers@.len() > 0 && q.headers@.last().0@ == "authorization"@
                && ends_with_hex_signature(q.headers@.last().1@),
    {
        let acl: Option<String> = match &self.acl {
            Some(raw) => match validate_acl(raw.as_str()) {
                Some(a) => Some(own(a)),
                None => None,
            },
            None => None,
        };
        proof {
            assert(opt_view(acl) == s3_acl_filter(self@.acl));
        }
        let r = s3_prepare_put(
            self.endpoint.as_str(),
            self.region.as_str(),
            self.bucket.as_str(),
            ctx.target_key.as_str(),
            input.mime.as_str(),
            &self.cache_control,
            &acl,
            self.access_key_id.as_str(),
            self.secret_access_key.as_str(),
            input.bytes.len(),
        );
        proof {
            let d = choose|d: Seq<char>|
                d.len() >= 16 && signed_view(r) == spec_s3_put(
                    self.endpoint@,
                    self.region@,
                    self.bucket@,
                    ctx.target_key@,
                    input.mime@,
                    opt_view(self.cache_control),
                    opt_view(acl),
                    self.access_key_id@,
                    self.secret_access_key@,
                    input.bytes.len() as nat,
                    d,
                );
            assert(d.len() >= 16 && signed_view(r) == spec_s3_put(
                self@.endpoint,
                self@.region,
                self@.bucket,
                ctx.target_key@,
                input.mime@,
                self@.cache_control,
                s3_acl_filter(self@.acl),
                self@.access_key_id,
                self@.secret_access_key,
                input.bytes@.len(),
                d,
            ));
        }
        r
    }
}

/// The ACL sent with a request: a canned ACL's canonical name, or none.
pub open spec fn s3_acl_filter(acl: Option<Seq<char>>) -> Option<Seq<char>> {
    match acl {
        Some(a) => if s3_canned_acls().contains(lower(a)) {
            Some(lower(a))
        } else {
            None
        },
        None => None,
    }
}

// ------------------------------------------------------------------
// Signing
// ------------------------------------------------------------------

/// The headers that are signed, in the sorted order of their names.
pub open spec fn s3_signed_entries(
    len: Seq<char>,
    content_type: Seq<char>,
    host: Seq<char>,
    datetime: Seq<char>,
    cache_control: Option<Seq<char>>,
    acl: Option<Seq<char>>,
) -> Seq<(Seq<char>, Seq<char>)> {
    opt_entry("cache-control"@, cache_control) + seq![
        ("content-length"@, len),
        ("content-type"@, content_type),
        ("host"@, host),
    ] + opt_entry("x-amz-acl"@, acl) + seq![
        ("x-amz-content-sha256"@, "UNSIGNED-PAYLOAD"@),
        ("x-amz-date"@, datetime),
    ]
}

/// `date/region/s3/aws4_request`.
pub open spec fn s3_scope(date: Seq<char>, region: Seq<char>) -> Seq<char> {
    date + "/"@ + region + "/"@ + "s3"@ + "/"@ + "aws4_request"@
}

pub open spec fn s3_canonical_request(uri: Seq<char>, entries: Seq<(Seq<char>, Seq<char>)>) -> Seq<
    char,
> {
    "PUT\n"@ + uri + "\n"@ + "\n"@ + header_block(entries) + "\n"@ + join_keys(entries) + "\n"@
        + "UNSIGNED-PAYLOAD"@
}

pub open spec fn s3_string_to_sign(datetime: Seq<char>, scope: Seq<char>, creq: Seq<char>) -> Seq<
    char,
> {
    "AWS4-HMAC-SHA256"@ + "\n"@ + datetime + "\n"@ + scope + "\n"@ + hex_lower(
        spec_sha256(encode_utf8(creq)),
    )
}

pub open spec fn s3_authorization(
    akid: Seq<char>,
    scope: Seq<char>,
    signed: Seq<char>,
    signature: Seq<char>,
) -> Seq<char> {
    "AWS4-HMAC-SHA256"@ + " Credential="@ + akid + "/"@ + scope + ", SignedHeaders="@ + signed
        + ", Signature="@ + signature
}

/// The signed `PutObject` request for the given inputs and timestamp:
/// its URL and the headers sent with it, in order.
pub open spec fn spec_s3_put(
    endpoint: Seq<char>,
    region: Seq<char>,
    bucket: Seq<char>,
    key: Seq<char>,
    content_type: Seq<char>,
    cache_control: Option<Seq<char>>,
    acl: Option<Seq<char>>,
    akid: Seq<char>,
    secret: Seq<char>,
    body_len: nat,
    datetime: Seq<char>,
) -> Result<(Seq<char>, Seq<(Seq<char>, Seq<char>)>), Failure> {
    if key.len() == 0 {
        Err((ErrorKind::UploadFailed, "s3: object key is empty"@))
    } else if bucket.len() == 0 {
        Err((ErrorKind::UploadFailed, "s3: bucket is empty"@))
    } else {
        let ep = spec_ensure_scheme(endpoint);
        let host = after_scheme(ep);
        if host.len() == 0 {
            Err((ErrorKind::ConfigInvalid, missing_host_message(ep)))
        } else {
            let kt = strip_start(key, '/');
            let uri = pct_encode(encode_utf8("/"@ + bucket + "/"@ + kt));
            let date = datetime.subrange(0, 8);
            let scope = s3_scope(date, region);
            let entries = s3_signed_entries(
                dec(body_len),
                content_type,
                host,
                datetime,
                cache_control,
                acl,
            );
            let creq = s3_canonical_request(uri, entries);
            let sts = s3_string_to_sign(datetime, scope, creq);
            let skey = spec_signing_key("AWS4"@, secret, date, region, "s3"@, "aws4_request"@);
            let signature = hex_lower(spec_hmac_sha256(skey, encode_utf8(sts)));
            let auth = s3_authorization(akid, scope, join_keys(entries), signature);
            let url = ep + "/"@ + bucket + "/"@ + pct_encode(encode_utf8(kt));
            let wire = seq![
                ("content-type"@, content_type),
                ("content-length"@, dec(body_len)),
                ("x-amz-content-sha256"@, "UNSIGNED-PAYLOAD"@),
                ("x-amz-date"@, datetime),
            ] + opt_entry("cache-control"@, cache_control) + opt_entry("x-amz-acl"@, acl) + seq![
                ("authorization"@, auth),
            ];
            Ok((url, wire))
        }
    }
}

/// Derive the signing key with the four-step HMAC chain
/// `AWS4 + secret -> date -> region -> s3 -> aws4_request`.
pub fn derive_signing_key(secret: &str, date: &str, region: &str) -> (r: Vec<u8>)
    ensures
        r@ == spec_signing_key("AWS4"@, secret@, date@, region@, "s3"@, "aws4_request"@),
        r@.len() == 32,
{
    signing_key("AWS4", secret, date, region, "s3", "aws4_request")
}

/// Sign a `PutObject` request at the given timestamp (`%Y%m%dT%H%M%SZ`).
pub fn s3_sign_put(
    endpoint: &str,
    region: &str,
    bucket: &str,
    key: &str,
    content_type: &str,
    cache_control: &Option<String>,
    acl: &Option<String>,
    access_key_id: &str,
    secret_access_key: &str,
    body_len: usize,
    datetime: &str,
) -> (r: Result<SignedRequest, ZpicError>)
    requires
        datetime@.len() >= 8,
    ensures
        signed_view(r) == spec_s3_put(
            endpoint@,
            region@,
            bucket@,
            key@,
            content_type@,
            opt_view(*cache_control),
            opt_view(*acl),
            access_key_id@,
            secret_access_key@,
            body_len as nat,
            datetime@,
        ),
        r matches Ok(q) ==> q.headers@.len() > 0 && q.headers@.last().0@ == "authorization"@
            && ends_with_hex_signature(q.headers@.last().1@),
{
    if key.is_empty() {
        return Err(ZpicError::UploadFailed(own("s3: object key is empty")));
    }
    if bucket.is_empty() {
        return Err(ZpicError::UploadFailed(own("s3: bucket is empty")));
    }
    let ep = ensure_scheme(endpoint);
    let host = match extract_host(ep.as_str()) {
        Ok(h) => h,
        Err(e) => {
            return Err(e);
        },
    };
    let kc = chars_of(key);
    let ktc = strip_start_chars(&kc, '/');
    let kt = string_of(&ktc);
    let raw_uri = {
        let mut v: Vec<char> = Vec::new();
        push_str(&mut v, "/");
        push_str(&mut v, bucket);
        push_str(&mut v, "/");
        push_str(&mut v, kt.as_str());
        string_of(&v)
    };
    let uri = percent_encode_path(raw_uri.as_str());
    let date = substring(datetime, 0, 8);
    let scope = {
        let mut v: Vec<char> = Vec::new();
        push_str(&mut v, date.as_str());
        push_str(&mut v, "/");
        push_str(&mut v, region);
        push_str(&mut v, "/");
        push_str(&mut v, "s3");
        push_str(&mut v, "/");
        push_str(&mut v, "aws4_request");
        string_of(&v)
    };
    let len_text = dec_string(body_len as u64);
    let mut entries: Vec<(String, String)> = Vec::new();
    push_opt_pair(&mut entries, "cache-control", cache_control);
    push_pair(&mut entries, "content-length", len_text.as_str());
    push_pair(&mut entries, "content-type", content_type);
    push_pair(&mut entries, "host", host.as_str());
    push_opt_pair(&mut entries, "x-amz-acl", acl);
    push_pair(&mut entries, "x-amz-content-sha256", "UNSIGNED-PAYLOAD");
    push_pair(&mut entries, "x-amz-date", datetime);
    let ghost ents = s3_signed_entries(
        dec(body_len as nat),
        content_type@,
        host@,
        datetime@,
        opt_view(*cache_control),
        opt_view(*acl),
    );
    proof {
        assert(pair_views(entries@) =~= ents);
    }
    let canonical_headers = render_header_block(&entries);
    let signed_headers = render_key_list(&entries);
    let creq = {
        let mut v: Vec<char> = Vec::new();
        push_str(&mut v, "PUT\n");
        push_str(&mut v, uri.as_str());
        push_str(&mut v, "\n");
        push_str(&mut v, "\n");
        push_str(&mut v, canonical_headers.as_str());
        push_str(&mut v, "\n");
        push_str(&mut v, signed_headers.as_str());
        push_str(&mut v, "\n");
        push_str(&mut v, "UNSIGNED-PAYLOAD");
        string_of(&v)
    };
    let creq_hash = sha256_hex(creq.as_str().as_bytes());
    let sts = {
        let mut v: Vec<char> = Vec::new();
        push_str(&mut v, "AWS4-HMAC-SHA256");
        push_str(&mut v, "\n");
        push_str(&mut v, datetime);
        push_str(&mut v, "\n");
        push_str(&mut v, scope.as_str());
        push_str(&mut v, "\n");
        push_str(&mut v, creq_hash.as_str());
        string_of(&v)
    };
    let skey = signing_key("AWS4", secret_access_key, date.as_str(), region, "s3", "aws4_request");
    let signature = hex_hmac_sha256(skey.as_slice(), sts.as_str().as_bytes());
    let auth = {
        let mut v: Vec<char> = Vec::new();
        push_str(&mut v, "AWS4-HMAC-SHA256");
        push_str(&mut v, " Credential=");
        push_str(&mut v, access_key_id);
        push_str(&mut v, "/");
        push_str(&mut v, scope.as_str());
        push_str(&mut v, ", SignedHeaders=");
        push_str(&mut v, signed_headers.as_str());
        push_str(&mut v, ", Signature=");
        push_str(&mut v, signature.as_str());
        string_of(&v)
    };
    let encoded_key = percent_encode_path(kt.as_str());
    let url = {
        let mut v: Vec<char> = Vec::new();
        push_str(&mut v, ep.as_str());
        push_str(&mut v, "/");
        push_str(&mut v, bucket);
        push_str(&mut v, "/");
        push_str(&mut v, encoded_key.as_str());
        string_of(&v)
    };
    let mut headers: Vec<(String, String)> = Vec::new();
    push_pair(&mut headers, "content-type", content_type);
    push_pair(&mut headers, "content-length", len_text.as_str());
    push_pair(&mut headers, "x-amz-content-sha256", "UNSIGNED-PAYLOAD");
    push_pair(&mut headers, "x-amz-date", datetime);
    push_opt_pair(&mut headers, "cache-control", cache_control);
    push_opt_pair(&mut headers, "x-amz-acl", acl);
    push_pair(&mut headers, "authorization", auth.as_str());
    let r = SignedRequest { url, headers };
    proof {
        let spec = spec_s3_put(
            endpoint@,
            region@,
            bucket@,
            key@,
            content_type@,
            opt_view(*cache_control),
            opt_view(*acl),
            access_key_id@,
            secret_access_key@,
            body_len as nat,
            datetime@,
        );
        assert(raw_uri@ =~= "/"@ + bucket@ + "/"@ + strip_start(key@, '/'));
        assert(scope@ =~= s3_scope(datetime@.subrange(0, 8), region@));
        assert(creq@ =~= s3_canonical_request(uri@, ents));
        assert(sts@ =~= s3_string_to_sign(datetime@, scope@, creq@));
        assert(auth@ =~= s3_authorization(access_key_id@, scope@, join_keys(ents), signature@));
        let n = auth@.len() as int;
        assert(auth@.subrange(n - 64, n) =~= signature@);
        assert forall|i: int| n - 64 <= i < n implies crate::sigv4::lower_hex_digit(#[trigger] auth@[i]) by {
            assert(auth@[i] == signature@[i - (n - 64)]);
        }
        assert(r.headers@.last().1@ == pair_views(r.headers@).last().1);
        assert(pair_views(r.headers@) =~= spec->Ok_0.1);
        assert(r.url@ =~= spec->Ok_0.0);
    }
    Ok(r)
}

/// Sign a `PutObject` request at the current time.
pub fn s3_prepare_put(
    endpoint: &str,
    region: &str,
    bucket: &str,
    key: &str,
    content_type: &str,
    cache_control: &Option<String>,
    acl: &Option<String>,
    access_key_id: &str,
    secret_access_key: &str,
    body_len: usize,
) -> (r: Result<SignedRequest, ZpicError>)
    ensures
        exists|d: Seq<char>|
            d.len() >= 16 && signed_view(r) == spec_s3_put(
                endpoint@,
                region@,
                bucket@,
                key@,
                content_type@,
                opt_view(*cache_control),
                opt_view(*acl),
                access_key_id@,
                secret_access_key@,
                body_len as nat,
                d,
            ),
        r matches Ok(q) ==> q.headers@.len() > 0 && q.headers@.last().0@ == "authorization"@
            && ends_with_hex_signature(q.headers@.last().1@),
{
    let datetime = amz_datetime_now();
    s3_sign_put(
        endpoint,
        region,
        bucket,
        key,
        content_type,
        cache_control,
        acl,
        access_key_id,
        secret_access_key,
        body_len,
        datetime.as_str(),
    )
}

// ------------------------------------------------------------------
// Response status
// ------------------------------------------------------------------

/// The error an S3 response status stands for: none for 2xx; redirects
/// (wrong region) name the `Location` they point to; 401/403 are
/// authentication failures.
pub open spec fn spec_s3_status(code: u16, location: Seq<char>, body: Seq<char>) -> Option<Failure> {
    if 200 <= code <= 299 {
        None
    } else if code == 301 || code == 307 || code == 308 {
        Some(
            (
                ErrorKind::UploadFailed,
                "s3 responded with "@ + dec(code as nat) + " (redirect to "@ + location + "): "@
                    + body,
            ),
        )
    } else if code == 401 || code == 403 {
        Some((ErrorKind::AuthFailed, "s3 responded with "@ + dec(code as nat) + ": "@ + body))
    } else {
        Some((ErrorKind::UploadFailed, "s3 responded with "@ + dec(code as nat) + ": "@ + body))
    }
}

/// Map an S3 response status (with its `Location` header and body text)
/// to the error it stands for.
pub fn s3_status_error(code: u16, location: &str, body: &str) -> (r: Option<ZpicError>)
    ensures
        match r {
            Some(e) => spec_s3_status(code, location@, body@) == Some(error_view(e)),
            None => spec_s3_status(code, location@, body@) is None,
        },
{
    if 200 <= code && code <= 299 {
        return None;
    }
    let c = dec_string(code as u64);
    let mut v: Vec<char> = Vec::new();
    push_str(&mut v, "s3 responded with ");
    push_str(&mut v, c.as_str());
    if code == 301 || code == 307 || code == 308 {
        push_str(&mut v, " (redirect to ");
        push_str(&mut v, location);
        push_str(&mut v, "): ");
        push_str(&mut v, body);
        return Some(ZpicError::UploadFailed(string_of(&v)));
    }
    push_str(&mut v, ": ");
    push_str(&mut v, body);
    if code == 401 || code == 403 {
        Some(ZpicError::AuthFailed(string_of(&v)))
    } else {
        Some(ZpicError::UploadFailed(string_of(&v)))
    }
}

// ------------------------------------------------------------------
// Laws
// ------------------------------------------------------------------

/// A signed `PutObject` request is consistent with itself and with the
/// SigV4 protocol:
/// - it sends its timestamp as `x-amz-date`;
/// - its credential scope is `<date>/<region>/s3/aws4_request`, where the
///   date is the first eight characters of that timestamp (`YYYYMMDD`),
///   and the `Authorization` header names the access key and that scope;
/// - its signature is the HMAC, under the signing key derived from the
///   secret for that same date and region, of a string to sign that names
///   the full timestamp, that scope and the hash of a canonical request;
/// - the canonical request lists signed headers that are all sent with the
///   same values (but `host`, which the HTTP client derives from the URL),
///   among them `x-amz-date` with the full timestamp, and the
///   `SignedHeaders` list names exactly those headers.
pub proof fn law_s3_signature_uses_request_date(
    endpoint: Seq<char>,
    region: Seq<char>,
    bucket: Seq<char>,
    key: Seq<char>,
    content_type: Seq<char>,
    cache_control: Option<Seq<char>>,
    acl: Option<Seq<char>>,
    akid: Seq<char>,
    secret: Seq<char>,
    body_len: nat,
    datetime: Seq<char>,
)
    requires
        datetime.len() >= 8,
    ensures
        match spec_s3_put(endpoint, region, bucket, key, content_type, cache_control, acl, akid, secret, body_len, datetime) {
            Ok((url, wire)) => {
                let date = datetime.subrange(0, 8);
                let scope = date + "/"@ + region + "/"@ + "s3"@ + "/"@ + "aws4_request"@;
                &&& wire.contains(("x-amz-date"@, datetime))
                &&& wire.last().0 == "authorization"@
                &&& exists|uri: Seq<char>, entries: Seq<(Seq<char>, Seq<char>)>|
                    {
                        &&& entries.contains(("x-amz-date"@, datetime))
                        &&& entries.contains(("content-length"@, dec(body_len)))
                        &&& entries.contains(("content-type"@, content_type))
                        &&& entries.contains(("x-amz-content-sha256"@, "UNSIGNED-PAYLOAD"@))
                        &&& forall|i: int|
                            0 <= i < entries.len() ==> (#[trigger] entries[i]).0 == "host"@ || wire.contains(entries[i])
                        &&& wire.last().1 == "AWS4-HMAC-SHA256"@ + " Credential="@ + akid + "/"@ + scope
                            + ", SignedHeaders="@ + join_keys(entries) + ", Signature="@ + hex_lower(
                            spec_hmac_sha256(
                                spec_signing_key("AWS4"@, secret, date, region, "s3"@, "aws4_request"@),
                                encode_utf8(
                                    "AWS4-HMAC-SHA256"@ + "\n"@ + datetime + "\n"@ + scope + "\n"@ + hex_lower(
                                        spec_sha256(
                                            encode_utf8(
                                                "PUT\n"@ + uri + "\n"@ + "\n"@ + header_block(entries) + "\n"@
                                                    + join_keys(entries) + "\n"@ + "UNSIGNED-PAYLOAD"@,
                                            ),
                                        ),
                                    ),
                                ),
                            ),
                        )
                    }
            },
            Err(_) => true,
        },
{
    match spec_s3_put(endpoint, region, bucket, key, content_type, cache_control, acl, akid, secret, body_len, datetime) {
        Ok((url, wire)) => {
            let ep = spec_ensure_scheme(endpoint);
            let host = after_scheme(ep);
            let kt = strip_start(key, '/');
            let uri = pct_encode(encode_utf8("/"@ + bucket + "/"@ + kt));
            let entries = s3_signed_entries(dec(body_len), content_type, host, datetime, cache_control, acl);
            let head = seq![
                ("content-type"@, content_type),
                ("content-length"@, dec(body_len)),
                ("x-amz-content-sha256"@, "UNSIGNED-PAYLOAD"@),
                ("x-amz-date"@, datetime),
            ];
            let mid = opt_entry("cache-control"@, cache_control) + opt_entry("x-amz-acl"@, acl);
            assert(wire == head + mid + seq![wire.last()]);
            assert(wire[3] == ("x-amz-date"@, datetime));
            assert(wire[0] == head[0]);
            assert(wire[1] == head[1]);
            assert(wire[2] == head[2]);
            let nc: int = opt_entry("cache-control"@, cache_control).len() as int;
            assert(entries[nc] == ("content-length"@, dec(body_len)));
            assert(entries[nc + 1] == ("content-type"@, content_type));
            assert(entries[entries.len() - 2] == ("x-amz-content-sha256"@, "UNSIGNED-PAYLOAD"@));
            assert(entries.last() == ("x-amz-date"@, datetime));
            assert(entries[entries.len() - 1] == ("x-amz-date"@, datetime));
            assert forall|i: int|
                0 <= i < entries.len() implies (#[trigger] entries[i]).0 == "host"@ || wire.contains(entries[i]) by {
                let e = entries[i];
                if e == ("content-type"@, content_type) {
                    assert(wire[0] == e);
                } else if e == ("content-length"@, dec(body_len)) {
                    assert(wire[1] == e);
                } else if e == ("x-amz-content-sha256"@, "UNSIGNED-PAYLOAD"@) {
                    assert(wire[2] == e);
                } else if e == ("x-amz-date"@, datetime) {
                    assert(wire[3] == e);
                } else if e.0 == "host"@ {
                } else if cache_control is Some && i == 0 {
                    assert(wire[4] == e);
                } else {
                    assert(acl is Some);
                    assert(wire[4 + nc] == e);
                }
            }
        },
        Err(_) => {},
    }
}

} // verus!
