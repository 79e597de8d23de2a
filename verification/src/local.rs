//! Local filesystem uploader: the file goes into a target directory and is
//! reachable under a configured URL prefix. Writing the file is left to the
//! caller, at `resolve_dest(target_key)`.

use vstd::prelude::*;

use crate::config::UploaderSection;
use crate::error::{error_view, ErrorKind, Failure, ZpicError};
use crate::fields::{spec_string_field, FieldValue};
use crate::text::{
    chars_of, own, push_chars, push_str, strip_end, strip_end_chars, strip_start,
    strip_start_chars, string_of, trim, trim_chars, trim_str,
};
use crate::upload::{md_image, output_for, UploadContext, UploadInput, UploadOutput};

verus! {

/// The settings of a local uploader.
pub struct LocalView {
    pub target_dir: Seq<char>,
    pub public_base_url: Seq<char>,
}

/// Copy bytes to a local directory; suits static-site generators.
pub struct LocalUploader {
    target_dir: String,
    public_base_url: String,
}

impl View for LocalUploader {
    type V = LocalView;

    closed spec fn view(&self) -> LocalView {
        LocalView { target_dir: self.target_dir@, public_base_url: self.public_base_url@ }
    }
}

/// What `from_config` builds from a section's fields.
pub open spec fn spec_local_from_config(f: Map<Seq<char>, FieldValue>) -> Result<LocalView, Failure> {
    let dir = trim(spec_string_field(f, "target_dir"@));
    let base = strip_end(trim(spec_string_field(f, "public_base_url"@)), '/');
    if dir.len() == 0 {
        Err((ErrorKind::ConfigInvalid, "local uploader requires `target_dir`"@))
    } else if base.len() == 0 {
        Err((ErrorKind::ConfigInvalid, "local uploader requires `public_base_url`"@))
    } else {
        Ok(LocalView { target_dir: dir, public_base_url: base })
    }
}

/// `dir` joined with `key` the way a Unix `Path::join` does: an absolute
/// key replaces the directory, else a separator is put between them when
/// the directory does not end with one.
pub open spec fn spec_path_join(dir: Seq<char>, key: Seq<char>) -> Seq<char> {
    if key.len() > 0 && key[0] == '/' {
        key
    } else if dir.len() == 0 {
        key
    } else if dir.last() == '/' {
        dir + key
    } else {
        dir + "/"@ + key
    }
}

/// The public URL of a key under `base` (`/key` when `base` is empty).
pub open spec fn spec_local_url(base: Seq<char>, key: Seq<char>) -> Seq<char> {
    let k = strip_start(key, '/');
    if base.len() == 0 {
        "/"@ + k
    } else if base.last() == '/' {
        base + k
    } else {
        base + "/"@ + k
    }
}

/// Join a directory and a key as `spec_path_join` states.
pub fn path_join(dir: &str, key: &str) -> (r: String)
    ensures
        r@ == spec_path_join(dir@, key@),
{
    let d = chars_of(dir);
    let k = chars_of(key);
    if k.len() > 0 && k[0] == '/' {
        return string_of(&k);
    }
    if d.len() == 0 {
        return string_of(&k);
    }
    let mut v: Vec<char> = Vec::new();
    push_chars(&mut v, &d);
    if d[d.len() - 1] != '/' {
        push_str(&mut v, "/");
    }
    push_chars(&mut v, &k);
    string_of(&v)
}

/// The public URL of a key under `base`.
pub fn local_url(base: &str, key: &str) -> (r: String)
    ensures
        r@ == spec_local_url(base@, key@),
{
    let kc = chars_of(key);
    let k = strip_start_chars(&kc, '/');
    let b = chars_of(base);
    let mut v: Vec<char> = Vec::new();
    if b.len() == 0 {
        push_str(&mut v, "/");
    } else if b[b.len() - 1] == '/' {
        push_chars(&mut v, &b);
    } else {
        push_chars(&mut v, &b);
        push_str(&mut v, "/");
    }
    push_chars(&mut v, &k);
    string_of(&v)
}

impl LocalUploader {
    /// Build a local uploader from a `[uploaders.<name>]` section.
    pub fn from_config(section: &UploaderSection) -> (r: Result<LocalUploader, ZpicError>)
        ensures
            match r {
                Ok(u) => spec_local_from_config(section.fields@) == Ok::<LocalView, Failure>(u@),
                Err(e) => spec_local_from_config(section.fields@) == Err::<LocalView, Failure>(
                    error_view(e),
                ),
            },
    {
        let target_dir = trim_str(section.string_field("target_dir").as_str());
        if target_dir.as_str().is_empty() {
            return Err(ZpicError::ConfigInvalid(own("local uploader requires `target_dir`")));
        }
        let base_raw = section.string_field("public_base_url");
        let base_chars = chars_of(base_raw.as_str());
        let base_trim = trim_chars(&base_chars);
        let base = strip_end_chars(&base_trim, '/');
        if base.len() == 0 {
            return Err(ZpicError::ConfigInvalid(own("local uploader requires `public_base_url`")));
        }
        Ok(LocalUploader { target_dir, public_base_url: string_of(&base) })
    }

    /// An uploader writing into `target_dir`, reachable under
    /// `public_base_url`.
    pub fn new(target_dir: &str, public_base_url: &str) -> (r: LocalUploader)
        ensures
            r@ == (LocalView { target_dir: target_dir@, public_base_url: public_base_url@ }),
    {
        LocalUploader { target_dir: own(target_dir), public_base_url: own(public_base_url) }
    }

    /// The destination path of a key.
    pub fn resolve_dest(&self, key: &str) -> (r: String)
        ensures
            r@ == spec_path_join(self@.target_dir, key@),
    {
        path_join(self.target_dir.as_str(), key)
    }

    /// The uploader's name.
    pub fn name(&self) -> (r: &'static str)
        ensures
            r@ == "local"@,
    {
        "local"
    }

    /// What an upload reports (also in a dry run, which writes nothing).
    pub fn upload_output(&self, input: &UploadInput, ctx: &UploadContext) -> (r: UploadOutput)
        ensures
            r.url@ == spec_local_url(self@.public_base_url, ctx.target_key@),
            r.key@ == ctx.target_key@,
            r.markdown@ == md_image(input.file_name@, r.url@),
            r.source == input.source_path,
            r.mime == input.mime,
            r.size == input.size,
            r.width is None,
            r.height is None,
            r.uploader@ == "local"@,
    {
        let url = local_url(self.public_base_url.as_str(), ctx.target_key.as_str());
        output_for(input, url, own(ctx.target_key.as_str()), "local")
    }
}

} // verus!
