//! Aliyun OSS uploader, signing requests with the OSS V4 (HMAC-SHA256)
//! signature.
//!
//! The library computes the signed `PutObject` request; sending it is left
//! to the caller, which reports the response status back through
//! [`oss_status_error`].

use vstd::prelude::*;
use vstd::utf8::{encode_utf8, is_ascii_chars, is_ascii_chars_encode_utf8};

use crate::config::UploaderSection;
use crate::envvar::Env;
use crate::error::{error_view, ErrorKind, Failure, ZpicError};
use crate::fields::{spec_field, spec_resolved, spec_str_field, spec_string_field, FieldValue};
use crate::sigv4::{
    amz_datetime_now, ends_with_hex_signature, header_block, hex_hmac_sha256, hex_lower, join_keys, opt_entry, pair_views,
    pct_encode, push_opt_pair, push_pair, render_header_block, render_key_list, sha256_hex,
    signed_view, signing_key, spec_hmac_sha256, spec_sha256, spec_signing_key, SignedRequest,
};
use crate::text::{
    chars_of, chars_starts_with, dec, dec_string, lower, lower_chars, opt_view, or_empty, own,
    push_chars, push_str, slice_chars, spec_ascii_lower, starts_with, str_eq, strip_both,
    strip_both_chars, strip_end, strip_end_chars, strip_start, strip_start_chars, string_of,
    substring, to_lower, trim, trim_chars, trim_str,
};
use crate::upload::{md_image, output_for, UploadContext, UploadInput, UploadOutput};

pub use crate::sigv4::{canonicalize_headers, percent_encode_path};

verus! {

// ------------------------------------------------------------------
// Regions
// ------------------------------------------------------------------

/// `oss-cn-hangzhou` and `cn-hangzhou` both name a region; the `oss-`
/// form (case-insensitively) is kept, the other gets the prefix.
pub open spec fn spec_normalize_region(raw: Seq<char>) -> Seq<char> {
    let t = trim(raw);
    if starts_with(lower(t), "oss-"@) {
        t
    } else {
        "oss-"@ + t
    }
}

/// Normalize a region to the `oss-` prefixed form used in endpoints.
pub fn normalize_region(raw: &str) -> (r: String)
    ensures
        r@ == spec_normalize_region(raw@),
{
    let t = trim_str(raw);
    let tc = chars_of(t.as_str());
    let l = lower_chars(&tc);
    let p = chars_of("oss-");
    if chars_starts_with(&l, &p) {
        t
    } else {
        let mut v: Vec<char> = Vec::new();
        push_str(&mut v, "oss-");
        push_chars(&mut v, &tc);
        string_of(&v)
    }
}

/// The region with a leading `oss-` (any case) dropped, when more follows.
pub open spec fn spec_strip_oss_prefix(region: Seq<char>) -> Seq<char> {
    if region.len() > 4 && lower(region.subrange(0, 4)) == "oss-"@ {
        region.subrange(4, region.len() as int)
    } else {
        region
    }
}

/// The text is at most four bytes long, or its first four bytes end on a
/// character boundary: cutting it after four bytes does not split a
/// character.
pub open spec fn cut_after_four_bytes_ok(region: Seq<char>) -> bool {
    encode_utf8(region).len() <= 4 || exists|k: int|
        0 <= k <= region.len() && #[trigger] encode_utf8(region.subrange(0, k)).len() == 4
}

/// Drop the `oss-` prefix so the region can be used in the signing scope.
pub fn strip_oss_prefix(region: &str) -> (r: String)
    requires
        cut_after_four_bytes_ok(region@),
    ensures
        r@ == spec_strip_oss_prefix(region@),
{
    let v = chars_of(region);
    if v.len() > 4 {
        let head = slice_chars(&v, 0, 4);
        let hl = lower_chars(&head);
        if str_eq(string_of(&hl).as_str(), "oss-") {
            return string_of(&slice_chars(&v, 4, v.len()));
        }
    }
    own(region)
}

proof fn lemma_ascii_of_lower(c: char, d: char)
    requires
        spec_ascii_lower(c) == d,
        '\0' <= d <= '\u{7f}',
    ensures
        '\0' <= c <= '\u{7f}',
{
}

/// A text whose first four characters read `oss-` in any case can be cut
/// after four bytes.
proof fn lemma_oss_prefix_cut(region: Seq<char>)
    requires
        region.len() >= 4,
        lower(region.subrange(0, 4)) == "oss-"@,
    ensures
        cut_after_four_bytes_ok(region),
{
    reveal_strlit("oss-");
    let h = region.subrange(0, 4);
    assert forall|i: int| 0 <= i < h.len() implies '\0' <= #[trigger] h[i] <= '\u{7f}' by {
        assert(lower(h)[i] == spec_ascii_lower(h[i]));
        lemma_ascii_of_lower(h[i], lower(h)[i]);
    }
    assert(is_ascii_chars(h));
    is_ascii_chars_encode_utf8(h);
    assert(encode_utf8(region.subrange(0, 4)).len() == 4);
}

/// A normalized region starts with `oss-` in some case.
proof fn lemma_normalized_region(raw: Seq<char>)
    ensures
        spec_normalize_region(raw).len() >= 4,
        lower(spec_normalize_region(raw).subrange(0, 4)) == "oss-"@,
        cut_after_four_bytes_ok(spec_normalize_region(raw)),
{
    reveal_strlit("oss-");
    let t = trim(raw);
    let r = spec_normalize_region(raw);
    if starts_with(lower(t), "oss-"@) {
        assert(lower(t.subrange(0, 4)) =~= lower(t).subrange(0, 4));
    } else {
        assert(r.subrange(0, 4) =~= "oss-"@);
        assert(lower("oss-"@) =~= "oss-"@);
    }
    lemma_oss_prefix_cut(r);
}

// ------------------------------------------------------------------
// The uploader
// ------------------------------------------------------------------

/// The settings of an OSS uploader.
pub struct OssView {
    pub region_for_signing: Seq<char>,
    pub endpoint: Seq<char>,
    pub bucket: Seq<char>,
    pub access_key_id: Seq<char>,
    pub access_key_secret: Seq<char>,
    pub public_base_url: Seq<char>,
    pub path_prefix: Seq<char>,
    pub cache_control: Option<Seq<char>>,
    pub acl: Option<Seq<char>>,
}

/// Aliyun OSS uploader.
pub struct OssUploader {
    /// Region without the `oss-` prefix, used in the signing scope.
    region_for_signing: String,
    /// Endpoint host suffix; the bucket is prepended in request URLs.
    endpoint: String,
    bucket: String,
    access_key_id: String,
    access_key_secret: String,
    /// Public base URL override; when empty the URL is derived from the
    /// bucket and endpoint.
    public_base_url: String,
    /// Prefix prepended to object keys.
    path_prefix: String,
    cache_control: Option<String>,
    acl: Option<String>,
}

impl View for OssUploader {
    type V = OssView;

    closed spec fn view(&self) -> OssView {
        OssView {
            region_for_signing: self.region_for_signing@,
            endpoint: self.endpoint@,
            bucket: self.bucket@,
            access_key_id: self.access_key_id@,
            access_key_secret: self.access_key_secret@,
            public_base_url: self.public_base_url@,
            path_prefix: self.path_prefix@,
            cache_control: opt_view(self.cache_control),
            acl: opt_view(self.acl),
        }
    }
}

/// `a`, or `b` when `a` is absent.
pub open spec fn either(a: Option<Seq<char>>, b: Option<Seq<char>>) -> Option<Seq<char>> {
    match a {
        Some(x) => Some(x),
        None => b,
    }
}

/// The object ACLs OSS accepts.
pub open spec fn oss_acls() -> Seq<Seq<char>> {
    seq!["default"@, "private"@, "public-read"@, "public-read-write"@]
}

/// A configured ACL is kept, as written, when it names an OSS ACL in any
/// case; otherwise it is dropped.
pub open spec fn oss_acl_filter(acl: Option<Seq<char>>) -> Option<Seq<char>> {
    match acl {
        Some(a) => if oss_acls().contains(lower(a)) {
            Some(a)
        } else {
            None
        },
        None => None,
    }
}

pub open spec fn default_endpoint(region: Seq<char>) -> Seq<char> {
    region + "."@ + "aliyuncs.com"@
}

/// What `from_config` builds from a section's fields.
pub open spec fn spec_oss_from_config(
    f: Map<Seq<char>, FieldValue>,
    env: Map<Seq<char>, String>,
) -> Result<OssView, Failure> {
    let region_raw = trim(or_empty(either(spec_field(f, "region"@), spec_field(f, "area"@))));
    let region = spec_normalize_region(region_raw);
    let ep0 = strip_end(trim(spec_string_field(f, "endpoint"@)), '/');
    let endpoint = if ep0.len() == 0 {
        default_endpoint(region)
    } else {
        ep0
    };
    let bucket = trim(spec_string_field(f, "bucket"@));
    let akid = or_empty(
        either(spec_resolved(f, "access_key_id"@, env), spec_resolved(f, "accessKeyId"@, env)),
    );
    let secret = or_empty(
        either(
            spec_resolved(f, "access_key_secret"@, env),
            spec_resolved(f, "accessKeySecret"@, env),
        ),
    );
    if region_raw.len() == 0 {
        Err(
            (
                ErrorKind::ConfigInvalid,
                "aliyun-oss uploader requires `region` (e.g. `oss-cn-hangzhou`)"@,
            ),
        )
    } else if bucket.len() == 0 {
        Err((ErrorKind::ConfigInvalid, "aliyun-oss uploader requires `bucket`"@))
    } else if akid.len() == 0 || secret.len() == 0 {
        Err((ErrorKind::AuthMissing, oss_missing_credentials()))
    } else {
        Ok(
            OssView {
                region_for_signing: spec_strip_oss_prefix(region),
                endpoint,
                bucket,
                access_key_id: akid,
                access_key_secret: secret,
                public_base_url: strip_end(
                    trim(
                        or_empty(
                            either(spec_field(f, "public_base_url"@), spec_field(f, "customUrl"@)),
                        ),
                    ),
                    '/',
                ),
                path_prefix: strip_both(
                    trim(or_empty(either(spec_field(f, "path_prefix"@), spec_field(f, "path"@)))),
                    '/',
                ),
                cache_control: spec_str_field(f, "cache_control"@),
                acl: oss_acl_filter(spec_str_field(f, "acl"@)),
            },
        )
    }
}

pub open spec fn oss_missing_credentials() -> Seq<char> {
    "aliyun-oss uploader requires `access_key_id` and `access_key_secret` (or env vars / PicGo aliases `accessKeyId` / `accessKeySecret`)"@
}

/// The object key under the configured prefix.
pub open spec fn spec_storage_key(prefix: Seq<char>, key: Seq<char>) -> Seq<char> {
    let k = strip_start(key, '/');
    if prefix.len() == 0 {
        k
    } else {
        prefix + "/"@ + k
    }
}

/// The public URL of an object key.
pub open spec fn spec_oss_url(v: OssView, key: Seq<char>) -> Seq<char> {
    let k = spec_storage_key(v.path_prefix, key);
    let base = v.public_base_url;
    if base.len() == 0 {
        "https://"@ + v.bucket + "."@ + v.endpoint + "/"@ + k
    } else if base.last() == '/' {
        base + k
    } else {
        base + "/"@ + k
    }
}

fn first_of(a: Option<String>, b: Option<String>) -> (r: Option<String>)
    ensures
        opt_view(r) == either(opt_view(a), opt_view(b)),
{
    match a {
        Some(x) => Some(x),
        None => b,
    }
}

fn text_or_empty(o: Option<String>) -> (r: String)
    ensures
        r@ == or_empty(opt_view(o)),
{
    match o {
        Some(s) => s,
        None => String::new(),
    }
}

fn filter_oss_acl(acl: Option<String>) -> (r: Option<String>)
    ensures
        opt_view(r) == oss_acl_filter(opt_view(acl)),
{
    match acl {
        Some(a) => {
            let l = to_lower(a.as_str());
            let names: [&'static str; 4] = ["default", "private", "public-read", "public-read-write"];
            proof {
                assert(names@.map_values(|n: &str| n@) =~= oss_acls());
            }
            let mut i: usize = 0;
            while i < 4
                invariant
                    i <= 4,
                    l@ == lower(a@),
                    opt_view(acl) == Some(a@),
                    names@.map_values(|n: &str| n@) == oss_acls(),
                    forall|j: int| 0 <= j < i ==> oss_acls()[j] != l@,
                decreases 4 - i,
            {
                assert(oss_acls()[i as int] == names[i as int]@);
                if str_eq(l.as_str(), names[i]) {
                    assert(oss_acls()[i as int] == lower(a@));
                    assert(oss_acls().contains(lower(a@)));
                    return Some(a);
                }
                i = i + 1;
            }
            None
        },
        None => None,
    }
}

fn region_endpoint(region: &str) -> (r: String)
    ensures
        r@ == default_endpoint(region@),
{
    let mut v: Vec<char> = Vec::new();
    push_str(&mut v, region);
    push_str(&mut v, ".");
    push_str(&mut v, "aliyuncs.com");
    string_of(&v)
}

impl OssUploader {
    /// Build an OSS uploader from a `[uploaders.<name>]` section. PicGo's
    /// field names (`area`, `accessKeyId`, `accessKeySecret`, `customUrl`,
    /// `path`) are accepted where the native ones are absent.
    pub fn from_config(section: &UploaderSection, env: &Env) -> (r: Result<OssUploader, ZpicError>)
        ensures
            match r {
                Ok(u) => spec_oss_from_config(section.fields@, env@) == Ok::<OssView, Failure>(u@),
                Err(e) => spec_oss_from_config(section.fields@, env@) == Err::<OssView, Failure>(
                    error_view(e),
                ),
            },
    {
        let region_raw = trim_str(
            text_or_empty(first_of(section.field("region"), section.field("area"))).as_str(),
        );
        if region_raw.as_str().is_empty() {
            return Err(
                ZpicError::ConfigInvalid(
                    own("aliyun-oss uploader requires `region` (e.g. `oss-cn-hangzhou`)"),
                ),
            );
        }
        let region = normalize_region(region_raw.as_str());
        proof {
            lemma_normalized_region(region_raw@);
        }
        let region_for_signing = strip_oss_prefix(region.as_str());
        let ep_raw = section.string_field("endpoint");
        let ep_chars = chars_of(ep_raw.as_str());
        let ep_trim = trim_chars(&ep_chars);
        let ep0 = strip_end_chars(&ep_trim, '/');
        let endpoint = if ep0.len() == 0 {
            region_endpoint(region.as_str())
        } else {
            string_of(&ep0)
        };
        let bucket = trim_str(section.string_field("bucket").as_str());
        if bucket.as_str().is_empty() {
            return Err(ZpicError::ConfigInvalid(own("aliyun-oss uploader requires `bucket`")));
        }
        let access_key_id = text_or_empty(
            first_of(
                section.resolve_string("access_key_id", env),
                section.resolve_string("accessKeyId", env),
            ),
        );
        let access_key_secret = text_or_empty(
            first_of(
                section.resolve_string("access_key_secret", env),
                section.resolve_string("accessKeySecret", env),
            ),
        );
        if access_key_id.as_str().is_empty() || access_key_secret.as_str().is_empty() {
            return Err(
                ZpicError::AuthMissing(
                    own(
                        "aliyun-oss uploader requires `access_key_id` and `access_key_secret` (or env vars / PicGo aliases `accessKeyId` / `accessKeySecret`)",
                    ),
                ),
            );
        }
        let base_raw = text_or_empty(
            first_of(section.field("public_base_url"), section.field("customUrl")),
        );
        let base_chars = chars_of(base_raw.as_str());
        let base_trim = trim_chars(&base_chars);
        let base = strip_end_chars(&base_trim, '/');
        let prefix_raw = text_or_empty(first_of(section.field("path_prefix"), section.field("path")));
        let prefix_chars = chars_of(prefix_raw.as_str());
        let prefix_trim = trim_chars(&prefix_chars);
        let prefix = strip_both_chars(&prefix_trim, '/');
        let cache_control = crate::fields::str_field_of(&section.fields, "cache_control");
        let acl = filter_oss_acl(crate::fields::str_field_of(&section.fields, "acl"));
        Ok(
            OssUploader {
                region_for_signing,
                endpoint,
                bucket,
                access_key_id,
                access_key_secret,
                public_base_url: string_of(&base),
                path_prefix: string_of(&prefix),
                cache_control,
                acl,
            },
        )
    }

    /// Same as `from_config`.
    pub fn from_section(section: &UploaderSection, env: &Env) -> (r: Result<OssUploader, ZpicError>)
        ensures
            match r {
                Ok(u) => spec_oss_from_config(section.fields@, env@) == Ok::<OssView, Failure>(u@),
                Err(e) => spec_oss_from_config(section.fields@, env@) == Err::<OssView, Failure>(
                    error_view(e),
                ),
            },
    {
        Self::from_config(section, env)
    }

    /// Direct constructor: the endpoint is derived from the region, and no
    /// path prefix, cache control or ACL is set.
    pub fn new(
        region: &str,
        bucket: &str,
        access_key_id: &str,
        access_key_secret: &str,
        public_base_url: &str,
    ) -> (r: Result<OssUploader, ZpicError>)
        ensures
            access_key_id@.len() == 0 || access_key_secret@.len() == 0 ==> (r matches Err(e)
                && error_view(e) == (ErrorKind::AuthMissing, "aliyun-oss credentials"@)),
            access_key_id@.len() > 0 && access_key_secret@.len() > 0 ==> (r matches Ok(u) && u@
                == (OssView {
                region_for_signing: spec_strip_oss_prefix(spec_normalize_region(region@)),
                endpoint: default_endpoint(spec_normalize_region(region@)),
                bucket: bucket@,
                access_key_id: access_key_id@,
                access_key_secret: access_key_secret@,
                public_base_url: public_base_url@,
                path_prefix: seq![],
                cache_control: None,
                acl: None,
            })),
    {
        if access_key_id.is_empty() || access_key_secret.is_empty() {
            return Err(ZpicError::AuthMissing(own("aliyun-oss credentials")));
        }
        let region_n = normalize_region(region);
        proof {
            lemma_normalized_region(region@);
        }
        let region_for_signing = strip_oss_prefix(region_n.as_str());
        let endpoint = region_endpoint(region_n.as_str());
        let u = OssUploader {
            region_for_signing,
            endpoint,
            bucket: own(bucket),
            access_key_id: own(access_key_id),
            access_key_secret: own(access_key_secret),
            public_base_url: own(public_base_url),
            path_prefix: String::new(),
            cache_control: None,
            acl: None,
        };
        proof {
            assert(u@.path_prefix =~= Seq::<char>::empty());
        }
        Ok(u)
    }

    /// The object key under the configured path prefix.
    pub fn storage_key(&self, key: &str) -> (r: String)
        ensures
            r@ == spec_storage_key(self@.path_prefix, key@),
    {
        let kc = chars_of(key);
        let k = strip_start_chars(&kc, '/');
        if self.path_prefix.as_str().is_empty() {
            string_of(&k)
        } else {
            let mut v: Vec<char> = Vec::new();
            push_str(&mut v, self.path_prefix.as_str());
            push_str(&mut v, "/");
            push_chars(&mut v, &k);
            string_of(&v)
        }
    }

    /// The public URL of an object key (the key is not percent-encoded).
    pub fn build_url(&self, key: &str) -> (r: String)
        ensures
            r@ == spec_oss_url(self@, key@),
    {
        let k = self.storage_key(key);
        let base = chars_of(self.public_base_url.as_str());
        let mut v: Vec<char> = Vec::new();
        if base.len() == 0 {
            push_str(&mut v, "https://");
            push_str(&mut v, self.bucket.as_str());
            push_str(&mut v, ".");
            push_str(&mut v, self.endpoint.as_str());
            push_str(&mut v, "/");
        } else if base[base.len() - 1] == '/' {
            push_chars(&mut v, &base);
        } else {
            push_chars(&mut v, &base);
            push_str(&mut v, "/");
        }
        push_str(&mut v, k.as_str());
        string_of(&v)
    }

    /// The endpoint host suffix.
    pub fn endpoint(&self) -> (r: &str)
        ensures
            r@ == self@.endpoint,
    {
        self.endpoint.as_str()
    }

    /// The bucket name.
    pub fn bucket(&self) -> (r: &str)
        ensures
            r@ == self@.bucket,
    {
        self.bucket.as_str()
    }

    /// Whether both credentials are set.
    pub fn has_credentials(&self) -> (r: bool)
        ensures
            r == (self@.access_key_id.len() > 0 && self@.access_key_secret.len() > 0),
    {
        !self.access_key_id.as_str().is_empty() && !self.access_key_secret.as_str().is_empty()
    }

    /// The uploader's name.
    pub fn name(&self) -> (r: &'static str)
        ensures
            r@ == "aliyun-oss"@,
    {
        "aliyun-oss"
    }

    /// What an upload reports (also in a dry run): the object lives under
    /// the prefixed key at `build_url(target_key)`.
    pub fn upload_output(&self, input: &UploadInput, ctx: &UploadContext) -> (r: UploadOutput)
        ensures
            r.url@ == spec_oss_url(self@, ctx.target_key@),
            r.key@ == spec_storage_key(self@.path_prefix, ctx.target_key@),
            r.markdown@ == md_image(input.file_name@, r.url@),
            r.source == input.source_path,
            r.mime == input.mime,
            r.size == input.size,
            r.width is None,
            r.height is None,
            r.uploader@ == "aliyun-oss"@,
    {
        let key = self.storage_key(ctx.target_key.as_str());
        let url = self.build_url(ctx.target_key.as_str());
        output_for(input, url, key, "aliyun-oss")
    }

    /// The signed `PutObject` request for an upload.
    pub fn put_request(&self, input: &UploadInput, ctx: &UploadContext) -> (r: Result<
        SignedRequest,
        ZpicError,
    >)
        ensures
            exists|d: Seq<char>|
                d.len() >= 16 && signed_view(r) == spec_oss_put(
                    self@.endpoint,
                    self@.region_for_signing,
                    self@.bucket,
                    spec_storage_key(self@.path_prefix, ctx.target_key@),
                    input.mime@,
                    self@.cache_control,
                    self@.acl,
                    self@.access_key_id,
                    self@.access_key_secret,
                    input.bytes@.len(),
                    d,
                ),
            r matches Ok(q) ==> q.headers@.len() > 0 && q.headers@.last().0@ == "authorization"@
                && ends_with_hex_signature(q.headers@.last().1@),
    {
        let key = self.storage_key(ctx.target_key.as_str());
        let r = oss_prepare_put(
            self.endpoint.as_str(),
            self.region_for_signing.as_str(),
            self.bucket.as_str(),
            key.as_str(),
            input.mime.as_str(),
            &self.cache_control,
            &self.acl,
            self.access_key_id.as_str(),
            self.access_key_secret.as_str(),
            input.bytes.len(),
        );
        proof {
            let d = choose|d: Seq<char>|
                d.len() >= 16 && signed_view(r) == spec_oss_put(
                    self.endpoint@,
                    self.region_for_signing@,
                    self.bucket@,
                    key@,
                    input.mime@,
                    opt_view(self.cache_control),
                    opt_view(self.acl),
                    self.access_key_id@,
                    self.access_key_secret@,
                    input.bytes.len() as nat,
                    d,
                );
            assert(d.len() >= 16 && signed_view(r) == spec_oss_put(
                self@.endpoint,
                self@.region_for_signing,
                self@.bucket,
                spec_storage_key(self@.path_prefix, ctx.target_key@),
                input.mime@,
                self@.cache_control,
                self@.acl,
                self@.access_key_id,
                self@.access_key_secret,
                input.bytes@.len(),
                d,
            ));
        }
        r
    }
}

// ------------------------------------------------------------------
// Signing
// ------------------------------------------------------------------

/// The signed headers, in the sorted order of their names.
pub open spec fn oss_signed_entries(
    len: Seq<char>,
    content_type: Seq<char>,
    datetime: Seq<char>,
    cache_control: Option<Seq<char>>,
    acl: Option<Seq<char>>,
) -> Seq<(Seq<char>, Seq<char>)> {
    opt_entry("cache-control"@, cache_control) + seq![
        ("content-length"@, len),
        ("content-type"@, content_type),
        ("x-oss-content-sha256"@, "UNSIGNED-PAYLOAD"@),
        ("x-oss-date"@, datetime),
    ] + opt_entry("x-oss-object-acl"@, acl)
}

/// The additional (non-default) signed header names, `;`-separated and
/// sorted: `content-length` always, `cache-control` when it is sent.
pub open spec fn oss_additional_headers(cache_control: Option<Seq<char>>) -> Seq<char> {
    if cache_control is Some {
        "cache-control"@ + ";"@ + "content-length"@
    } else {
        "content-length"@
    }
}

/// `date/region/oss/aliyun_v4_request`.
pub open spec fn oss_scope(date: Seq<char>, region: Seq<char>) -> Seq<char> {
    date + "/"@ + region + "/"@ + "oss"@ + "/"@ + "aliyun_v4_request"@
}

pub open spec fn oss_canonical_request(
    uri: Seq<char>,
    entries: Seq<(Seq<char>, Seq<char>)>,
    additional: Seq<char>,
) -> Seq<char> {
    "PUT\n"@ + uri + "\n"@ + "\n"@ + header_block(entries) + "\n"@ + additional + "\n"@
        + "UNSIGNED-PAYLOAD"@
}

pub open spec fn oss_string_to_sign(datetime: Seq<char>, scope: Seq<char>, creq: Seq<char>) -> Seq<
    char,
> {
    "OSS4-HMAC-SHA256"@ + "\n"@ + datetime + "\n"@ + scope + "\n"@ + hex_lower(
        spec_sha256(encode_utf8(creq)),
    )
}

pub open spec fn oss_authorization(
    akid: Seq<char>,
    scope: Seq<char>,
    additional: Seq<char>,
    signature: Seq<char>,
) -> Seq<char> {
    "OSS4-HMAC-SHA256"@ + " Credential="@ + akid + "/"@ + scope + ",AdditionalHeaders="@
        + additional + ",Signature="@ + signature
}

/// The signed `PutObject` request for the given inputs and timestamp: its
/// URL (virtual-hosted style) and the headers sent with it, in order.
pub open spec fn spec_oss_put(
    endpoint: Seq<char>,
    region: Seq<char>,
    bucket: Seq<char>,
    key: Seq<char>,
    content_type: Seq<char>,
    cache_control: Option<Seq<char>>,
    acl: Option<Seq<char>>,
    akid: Seq<char>,
    secret: Seq<char>,
    body_len: nat,
    datetime: Seq<char>,
) -> Result<(Seq<char>, Seq<(Seq<char>, Seq<char>)>), Failure> {
    if key.len() == 0 {
        Err((ErrorKind::UploadFailed, "aliyun-oss: object key is empty"@))
    } else {
        let date = datetime.subrange(0, 8);
        let scope = oss_scope(date, region);
        let entries = oss_signed_entries(dec(body_len), content_type, datetime, cache_control, acl);
        let additional = oss_additional_headers(cache_control);
        let uri = pct_encode(encode_utf8("/"@ + bucket + "/"@ + key));
        let creq = oss_canonical_request(uri, entries, additional);
        let sts = oss_string_to_sign(datetime, scope, creq);
        let skey = spec_signing_key(
            "aliyun_v4"@,
            secret,
            date,
            region,
            "oss"@,
            "aliyun_v4_request"@,
        );
        let signature = hex_lower(spec_hmac_sha256(skey, encode_utf8(sts)));
        let auth = oss_authorization(akid, scope, additional, signature);
        let url = "https://"@ + bucket + "."@ + endpoint + "/"@ + pct_encode(encode_utf8(key));
        let wire = seq![
            ("content-type"@, content_type),
            ("content-length"@, dec(body_len)),
            ("x-oss-content-sha256"@, "UNSIGNED-PAYLOAD"@),
            ("x-oss-date"@, datetime),
        ] + opt_entry("cache-control"@, cache_control) + opt_entry("x-oss-object-acl"@, acl) + seq![
            ("authorization"@, auth),
        ];
        Ok((url, wire))
    }
}

/// Derive the signing key with the four-step HMAC chain
/// `aliyun_v4 + secret -> date -> region -> oss -> aliyun_v4_request`.
pub fn derive_signing_key(secret: &str, date: &str, region: &str) -> (r: Vec<u8>)
    ensures
        r@ == spec_signing_key("aliyun_v4"@, secret@, date@, region@, "oss"@, "aliyun_v4_request"@),
        r@.len() == 32,
{
    signing_key("aliyun_v4", secret, date, region, "oss", "aliyun_v4_request")
}

/// Sign a `PutObject` request at the given timestamp (`%Y%m%dT%H%M%SZ`).
pub fn oss_sign_put(
    endpoint: &str,
    region_for_signing: &str,
    bucket: &str,
    key: &str,
    content_type: &str,
    cache_control: &Option<String>,
    acl: &Option<String>,
    access_key_id: &str,
    access_key_secret: &str,
    body_len: usize,
    datetime: &str,
) -> (r: Result<SignedRequest, ZpicError>)
    requires
        datetime@.len() >= 8,
    ensures
        signed_view(r) == spec_oss_put(
            endpoint@,
            region_for_signing@,
            bucket@,
            key@,
            content_type@,
            opt_view(*cache_control),
            opt_view(*acl),
            access_key_id@,
            access_key_secret@,
            body_len as nat,
            datetime@,
        ),
        r matches Ok(q) ==> q.headers@.len() > 0 && q.headers@.last().0@ == "authorization"@
            && ends_with_hex_signature(q.headers@.last().1@),
{
    if key.is_empty() {
        return Err(ZpicError::UploadFailed(own("aliyun-oss: object key is empty")));
    }
    let date = substring(datetime, 0, 8);
    let scope = {
        let mut v: Vec<char> = Vec::new();
        push_str(&mut v, date.as_str());
        push_str(&mut v, "/");
        push_str(&mut v, region_for_signing);
        push_str(&mut v, "/");
        push_str(&mut v, "oss");
        push_str(&mut v, "/");
        push_str(&mut v, "aliyun_v4_request");
        string_of(&v)
    };
    let additional = {
        let mut v: Vec<char> = Vec::new();
        if cache_control.is_some() {
            push_str(&mut v, "cache-control");
            push_str(&mut v, ";");
        }
        push_str(&mut v, "content-length");
        string_of(&v)
    };
    let len_text = dec_string(body_len as u64);
    let mut entries: Vec<(String, String)> = Vec::new();
    push_opt_pair(&mut entries, "cache-control", cache_control);
    push_pair(&mut entries, "content-length", len_text.as_str());
    push_pair(&mut entries, "content-type", content_type);
    push_pair(&mut entries, "x-oss-content-sha256", "UNSIGNED-PAYLOAD");
    push_pair(&mut entries, "x-oss-date", datetime);
    push_opt_pair(&mut entries, "x-oss-object-acl", acl);
    let ghost ents = oss_signed_entries(
        dec(body_len as nat),
        content_type@,
        datetime@,
        opt_view(*cache_control),
        opt_view(*acl),
    );
    proof {
        assert(pair_views(entries@) =~= ents);
    }
    let raw_uri = {
        let mut v: Vec<char> = Vec::new();
        push_str(&mut v, "/");
        push_str(&mut v, bucket);
        push_str(&mut v, "/");
        push_str(&mut v, key);
        string_of(&v)
    };
    let uri = percent_encode_path(raw_uri.as_str());
    let canonical_headers = render_header_block(&entries);
    let creq = {
        let mut v: Vec<char> = Vec::new();
        push_str(&mut v, "PUT\n");
        push_str(&mut v, uri.as_str());
        push_str(&mut v, "\n");
        push_str(&mut v, "\n");
        push_str(&mut v, canonical_headers.as_str());
        push_str(&mut v, "\n");
        push_str(&mut v, additional.as_str());
        push_str(&mut v, "\n");
        push_str(&mut v, "UNSIGNED-PAYLOAD");
        string_of(&v)
    };
    let creq_hash = sha256_hex(creq.as_str().as_bytes());
    let sts = {
        let mut v: Vec<char> = Vec::new();
        push_str(&mut v, "OSS4-HMAC-SHA256");
        push_str(&mut v, "\n");
        push_str(&mut v, datetime);
        push_str(&mut v, "\n");
        push_str(&mut v, scope.as_str());
        push_str(&mut v, "\n");
        push_str(&mut v, creq_hash.as_str());
        string_of(&v)
    };
    let skey = signing_key(
        "aliyun_v4",
        access_key_secret,
        date.as_str(),
        region_for_signing,
        "oss",
        "aliyun_v4_request",
    );
    let signature = hex_hmac_sha256(skey.as_slice(), sts.as_str().as_bytes());
    let auth = {
        let mut v: Vec<char> = Vec::new();
        push_str(&mut v, "OSS4-HMAC-SHA256");
        push_str(&mut v, " Credential=");
        push_str(&mut v, access_key_id);
        push_str(&mut v, "/");
        push_str(&mut v, scope.as_str());
        push_str(&mut v, ",AdditionalHeaders=");
        push_str(&mut v, additional.as_str());
        push_str(&mut v, ",Signature=");
        push_str(&mut v, signature.as_str());
        string_of(&v)
    };
    let encoded_key = percent_encode_path(key);
    let url = {
        let mut v: Vec<char> = Vec::new();
        push_str(&mut v, "https://");
        push_str(&mut v, bucket);
        push_str(&mut v, ".");
        push_str(&mut v, endpoint);
        push_str(&mut v, "/");
        push_str(&mut v, encoded_key.as_str());
        string_of(&v)
    };
    let mut headers: Vec<(String, String)> = Vec::new();
    push_pair(&mut headers, "content-type", content_type);
    push_pair(&mut headers, "content-length", len_text.as_str());
    push_pair(&mut headers, "x-oss-content-sha256", "UNSIGNED-PAYLOAD");
    push_pair(&mut headers, "x-oss-date", datetime);
    push_opt_pair(&mut headers, "cache-control", cache_control);
    push_opt_pair(&mut headers, "x-oss-object-acl", acl);
    push_pair(&mut headers, "authorization", auth.as_str());
    let r = SignedRequest { url, headers };
    proof {
        let spec = spec_oss_put(
            endpoint@,
            region_for_signing@,
            bucket@,
            key@,
            content_type@,
            opt_view(*cache_control),
            opt_view(*acl),
            access_key_id@,
            access_key_secret@,
            body_len as nat,
            datetime@,
        );
        assert(additional@ =~= oss_additional_headers(opt_view(*cache_control)));
        assert(raw_uri@ =~= "/"@ + bucket@ + "/"@ + key@);
        assert(scope@ =~= oss_scope(datetime@.subrange(0, 8), region_for_signing@));
        assert(creq@ =~= oss_canonical_request(uri@, ents, additional@));
        assert(sts@ =~= oss_string_to_sign(datetime@, scope@, creq@));
        assert(auth@ =~= oss_authorization(access_key_id@, scope@, additional@, signature@));
        let n = auth@.len() as int;
        assert(auth@.subrange(n - 64, n) =~= signature@);
        assert forall|i: int| n - 64 <= i < n implies crate::sigv4::lower_hex_digit(#[trigger] auth@[i]) by {
            assert(auth@[i] == signature@[i - (n - 64)]);
        }
        assert(r.headers@.last().1@ == pair_views(r.headers@).last().1);
        assert(pair_views(r.headers@) =~= spec->Ok_0.1);
        assert(r.url@ =~= spec->Ok_0.0);
    }
    Ok(r)
}

/// Sign a `PutObject` request at the current time.
pub fn oss_prepare_put(
    endpoint: &str,
    region_for_signing: &str,
    bucket: &str,
    key: &str,
    content_type: &str,
    cache_control: &Option<String>,
    acl: &Option<String>,
    access_key_id: &str,
    access_key_secret: &str,
    body_len: usize,
) -> (r: Result<SignedRequest, ZpicError>)
    ensures
        exists|d: Seq<char>|
            d.len() >= 16 && signed_view(r) == spec_oss_put(
                endpoint@,
                region_for_signing@,
                bucket@,
                key@,
                content_type@,
                opt_view(*cache_control),
                opt_view(*acl),
                access_key_id@,
                access_key_secret@,
                body_len as nat,
                d,
            ),
        r matches Ok(q) ==> q.headers@.len() > 0 && q.headers@.last().0@ == "authorization"@
            && ends_with_hex_signature(q.headers@.last().1@),
{
    let datetime = amz_datetime_now();
    oss_sign_put(
        endpoint,
        region_for_signing,
        bucket,
        key,
        content_type,
        cache_control,
        acl,
        access_key_id,
        access_key_secret,
        body_len,
        datetime.as_str(),
    )
}

/// The error an OSS response status stands for: none for 2xx, 401/403 are
/// authentication failures, anything else a failed upload.
pub open spec fn spec_oss_status(code: u16, body: Seq<char>) -> Option<Failure> {
    if 200 <= code <= 299 {
        None
    } else if code == 401 || code == 403 {
        Some((ErrorKind::AuthFailed, "aliyun-oss responded with "@ + dec(code as nat) + ": "@ + body))
    } else {
        Some(
            (ErrorKind::UploadFailed, "aliyun-oss responded with "@ + dec(code as nat) + ": "@ + body),
        )
    }
}

/// Map an OSS response status (with its body text) to the error it stands
/// for.
pub fn oss_status_error(code: u16, body: &str) -> (r: Option<ZpicError>)
    ensures
        match r {
            Some(e) => spec_oss_status(code, body@) == Some(error_view(e)),
            None => spec_oss_status(code, body@) is None,
        },
{
    if 200 <= code && code <= 299 {
        return None;
    }
    let c = dec_string(code as u64);
    let mut v: Vec<char> = Vec::new();
    push_str(&mut v, "aliyun-oss responded with ");
    push_str(&mut v, c.as_str());
    push_str(&mut v, ": ");
    push_str(&mut v, body);
    if code == 401 || code == 403 {
        Some(ZpicError::AuthFailed(string_of(&v)))
    } else {
        Some(ZpicError::UploadFailed(string_of(&v)))
    }
}

// ------------------------------------------------------------------
// Laws
// ------------------------------------------------------------------

/// A signed OSS `PutObject` request is consistent with what it sends:
/// - it sends its full timestamp as `x-oss-date`;
/// - its credential scope is `<date>/<region>/oss/aliyun_v4_request`,
///   where the date is the first eight characters of that timestamp;
/// - its signature is the HMAC, under the signing key derived from the
///   secret for that date and region, of a string to sign that names the
///   full timestamp, that scope and the hash of a canonical request;
/// - every header of the canonical request is sent with the value that
///   was signed, `x-oss-date` with the full timestamp among them.
pub proof fn law_oss_signed_headers_are_sent(
    endpoint: Seq<char>,
    region: Seq<char>,
    bucket: Seq<char>,
    key: Seq<char>,
    content_type: Seq<char>,
    cache_control: Option<Seq<char>>,
    acl: Option<Seq<char>>,
    akid: Seq<char>,
    secret: Seq<char>,
    body_len: nat,
    datetime: Seq<char>,
)
    requires
        datetime.len() >= 8,
    ensures
        match spec_oss_put(endpoint, region, bucket, key, content_type, cache_control, acl, akid, secret, body_len, datetime) {
            Ok((url, wire)) => {
                let date = datetime.subrange(0, 8);
                let scope = date + "/"@ + region + "/"@ + "oss"@ + "/"@ + "aliyun_v4_request"@;
                &&& wire.contains(("x-oss-date"@, datetime))
                &&& wire.last().0 == "authorization"@
                &&& exists|uri: Seq<char>, entries: Seq<(Seq<char>, Seq<char>)>, additional: Seq<char>|
                    {
                        &&& entries.contains(("x-oss-date"@, datetime))
                        &&& entries.contains(("content-length"@, dec(body_len)))
                        &&& entries.contains(("content-type"@, content_type))
                        &&& entries.contains(("x-oss-content-sha256"@, "UNSIGNED-PAYLOAD"@))
                        &&& forall|i: int| 0 <= i < entries.len() ==> wire.contains(#[trigger] entries[i])
                        &&& wire.last().1 == "OSS4-HMAC-SHA256"@ + " Credential="@ + akid + "/"@ + scope
                            + ",AdditionalHeaders="@ + additional + ",Signature="@ + hex_lower(
                            spec_hmac_sha256(
                                spec_signing_key(
                                    "aliyun_v4"@,
                                    secret,
                                    date,
                                    region,
                                    "oss"@,
                                    "aliyun_v4_request"@,
                                ),
                                encode_utf8(
                                    "OSS4-HMAC-SHA256"@ + "\n"@ + datetime + "\n"@ + scope + "\n"@ + hex_lower(
                                        spec_sha256(
                                            encode_utf8(
                                                "PUT\n"@ + uri + "\n"@ + "\n"@ + header_block(entries) + "\n"@
                                                    + additional + "\n"@ + "UNSIGNED-PAYLOAD"@,
                                            ),
                                        ),
                                    ),
                                ),
                            ),
                        )
                    }
            },
            Err(_) => true,
        },
{
    match spec_oss_put(endpoint, region, bucket, key, content_type, cache_control, acl, akid, secret, body_len, datetime) {
        Ok((url, wire)) => {
            let uri = pct_encode(encode_utf8("/"@ + bucket + "/"@ + key));
            let entries = oss_signed_entries(dec(body_len), content_type, datetime, cache_control, acl);
            let additional = oss_additional_headers(cache_control);
            let head = seq![
                ("content-type"@, content_type),
                ("content-length"@, dec(body_len)),
                ("x-oss-content-sha256"@, "UNSIGNED-PAYLOAD"@),
                ("x-oss-date"@, datetime),
            ];
            let mid = opt_entry("cache-control"@, cache_control) + opt_entry("x-oss-object-acl"@, acl);
            assert(wire == head + mid + seq![wire.last()]);
            assert(wire[0] == head[0]);
            assert(wire[1] == head[1]);
            assert(wire[2] == head[2]);
            assert(wire[3] == head[3]);
            let nc: int = opt_entry("cache-control"@, cache_control).len() as int;
            assert(entries[nc + 3] == ("x-oss-date"@, datetime));
            assert(entries[nc] == ("content-length"@, dec(body_len)));
            assert(entries[nc + 1] == ("content-type"@, content_type));
            assert(entries[nc + 2] == ("x-oss-content-sha256"@, "UNSIGNED-PAYLOAD"@));
            assert forall|i: int| 0 <= i < entries.len() implies wire.contains(#[trigger] entries[i]) by {
                let e = entries[i];
                if e == ("content-type"@, content_type) {
                    assert(wire[0] == e);
                } else if e == ("content-length"@, dec(body_len)) {
                    assert(wire[1] == e);
                } else if e == ("x-oss-content-sha256"@, "UNSIGNED-PAYLOAD"@) {
                    assert(wire[2] == e);
                } else if e == ("x-oss-date"@, datetime) {
                    assert(wire[3] == e);
                } else if cache_control is Some && i == 0 {
                    assert(wire[4] == e);
                } else {
                    assert(acl is Some);
                    assert(wire[4 + nc] == e);
                }
            }
        },
        Err(_) => {},
    }
}

} // verus!
