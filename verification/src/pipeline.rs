//! Preparing one upload: the file's metadata, its target key, and how the
//! result is rendered.

use vstd::prelude::*;

use crate::config::{spec_effective_template, RenameSection};
use crate::format::{render_format_for_kind, spec_render_for_kind};
use crate::kinds::OutputFormat;
use crate::media::{content_hash_hex, detect_mime, spec_blake3, spec_detect_mime};
use crate::paths::{path_extension, path_file_name, spec_extension, spec_file_name};
use crate::sigv4::hex_lower;
use crate::text::{dec, dec_string};
use crate::template::{random_count, render_template, spec_render, TemplateContext};
use crate::text::{
    chars_of, chars_rfind, find_last, lemma_find_last, own, push_chars, push_str, slice_chars,
    string_of, strip_end, strip_end_chars,
};
use crate::upload::{UploadInput, UploadItem, UploadOutput};

verus! {

/// A clipboard image as captured by the clipboard reader.
pub struct ClipboardImage {
    pub bytes: Vec<u8>,
    /// The name to upload it under.
    pub file_name: String,
    pub mime: String,
}

/// One file to upload, read into memory.
pub struct PendingUpload {
    pub source_path: String,
    pub file_name: String,
    pub mime: String,
    pub bytes: Vec<u8>,
    /// A name that replaces the rendered key's file name.
    pub explicit_name: Option<String>,
    /// Alt text for the rendered output.
    pub explicit_alt: Option<String>,
}

/// The name a file uploads under: its path's file name, else `image`.
pub open spec fn spec_upload_name(path: Seq<char>) -> Seq<char> {
    match spec_file_name(path) {
        Some(n) => n,
        None => "image"@,
    }
}

impl PendingUpload {
    /// A file read from `path`: its MIME type from the content, then the
    /// extension; its name from the path.
    pub fn from_file(path: &str, bytes: Vec<u8>) -> (r: Self)
        ensures
            r.source_path@ == path@,
            r.file_name@ == spec_upload_name(path@),
            r.mime@ == spec_detect_mime(bytes@, Some(path@)),
            r.bytes == bytes,
            r.explicit_name is None,
            r.explicit_alt is None,
    {
        let mime = detect_mime(bytes.as_slice(), Some(path));
        let file_name = match path_file_name(path) {
            Some(n) => n,
            None => own("image"),
        };
        PendingUpload {
            source_path: own(path),
            file_name,
            mime,
            bytes,
            explicit_name: None,
            explicit_alt: None,
        }
    }

    /// An image taken from the clipboard; its source is `<clipboard>`.
    pub fn from_clipboard(image: ClipboardImage) -> (r: Self)
        ensures
            r.source_path@ == "<clipboard>"@,
            r.file_name == image.file_name,
            r.mime == image.mime,
            r.bytes == image.bytes,
            r.explicit_name is None,
            r.explicit_alt is None,
    {
        PendingUpload {
            source_path: own("<clipboard>"),
            file_name: image.file_name,
            mime: image.mime,
            bytes: image.bytes,
            explicit_name: None,
            explicit_alt: None,
        }
    }
}

/// The source an upload that failed is reported under: the clipboard
/// placeholder for a clipboard upload, else `<unknown>`.
pub fn items_source_label(clipboard: bool) -> (r: String)
    ensures
        r@ == if clipboard {
            "<clipboard>"@
        } else {
            "<unknown>"@
        },
{
    if clipboard {
        own("<clipboard>")
    } else {
        own("<unknown>")
    }
}

/// The name an in-flight upload shows: its source's file name, else its
/// file name; the clipboard placeholder when that is empty or the
/// placeholder itself.
pub open spec fn spec_label_name(pending: PendingUpload) -> Seq<char> {
    let name = match spec_file_name(pending.source_path@) {
        Some(n) => n,
        None => pending.file_name@,
    };
    if name.len() == 0 || name == "<clipboard>"@ {
        "<clipboard>"@
    } else {
        name
    }
}

/// `[<position>] <name>` for an in-flight upload.
pub fn pending_label(pending: &PendingUpload, idx: usize) -> (r: String)
    ensures
        r@ == "["@ + dec(idx as nat) + "] "@ + spec_label_name(*pending),
{
    let name = match path_file_name(pending.source_path.as_str()) {
        Some(n) => n,
        None => pending.file_name.clone(),
    };
    let mut v: Vec<char> = Vec::new();
    push_str(&mut v, "[");
    let n = dec_string(idx as u64);
    push_str(&mut v, n.as_str());
    push_str(&mut v, "] ");
    if name.as_str().unicode_len() == 0 || crate::text::str_eq(name.as_str(), "<clipboard>") {
        push_str(&mut v, "<clipboard>");
    } else {
        push_str(&mut v, name.as_str());
    }
    string_of(&v)
}


/// A file name split at its last `.`: name and extension; a name without
/// one, or whose only `.` starts it, has an empty extension.
pub open spec fn spec_split_name_ext(file_name: Seq<char>) -> (Seq<char>, Seq<char>) {
    match find_last(file_name, '.') {
        Some(i) => if i > 0 {
            (file_name.subrange(0, i), file_name.subrange(i + 1, file_name.len() as int))
        } else {
            (file_name, seq![])
        },
        None => (file_name, seq![]),
    }
}

/// Split a file name into name and extension.
pub fn split_name_ext(file_name: &str) -> (r: (String, String))
    ensures
        (r.0@, r.1@) == spec_split_name_ext(file_name@),
{
    let c = chars_of(file_name);
    proof {
        lemma_find_last(file_name@, '.');
    }
    match chars_rfind(&c, '.') {
        Some(i) => if i > 0 {
            (string_of(&slice_chars(&c, 0, i)), string_of(&slice_chars(&c, i + 1, c.len())))
        } else {
            (own(file_name), String::new())
        },
        None => (own(file_name), String::new()),
    }
}

/// A rendered key with its file name replaced by `name`: the key's
/// directory is kept (trailing separators removed) and the key's extension,
/// else `default_ext`, is appended.
pub open spec fn spec_override_key(key: Seq<char>, name: Seq<char>, default_ext: Seq<char>) -> Seq<char> {
    let ext = match spec_extension(key) {
        Some(e) => e,
        None => default_ext,
    };
    let p = strip_end(key, '/');
    match find_last(p, '/') {
        Some(i) => strip_end(p.subrange(0, i), '/') + "/"@ + name + "."@ + ext,
        None => name + "."@ + ext,
    }
}

/// Replace a rendered key's file name, as `spec_override_key` states.
pub fn override_key_name(key: &str, name: &str, default_ext: &str) -> (r: String)
    ensures
        r@ == spec_override_key(key@, name@, default_ext@),
{
    let ext = match path_extension(key) {
        Some(e) => e,
        None => own(default_ext),
    };
    let kc = chars_of(key);
    let p = strip_end_chars(&kc, '/');
    proof {
        lemma_find_last(strip_end(key@, '/'), '/');
    }
    let mut out: Vec<char> = Vec::new();
    match chars_rfind(&p, '/') {
        Some(i) => {
            let head = slice_chars(&p, 0, i);
            let head = strip_end_chars(&head, '/');
            push_chars(&mut out, &head);
            push_str(&mut out, "/");
        },
        None => {},
    }
    push_str(&mut out, name);
    push_str(&mut out, ".");
    push_str(&mut out, ext.as_str());
    string_of(&out)
}

/// The key a file is stored under: the rename template rendered for it,
/// with the explicit name, when given, replacing the file name.
pub open spec fn spec_target_key(
    rename: RenameSection,
    file_name: Seq<char>,
    bytes: Seq<u8>,
    explicit_name: Option<Seq<char>>,
    ctx: TemplateContext,
    rs: Seq<Seq<char>>,
) -> Seq<char> {
    let key = spec_render(spec_effective_template(rename), ctx, rs);
    match explicit_name {
        Some(n) => spec_override_key(key, n, spec_split_name_ext(file_name).1),
        None => key,
    }
}

/// The key a pending upload is stored under. The template's time, `{uuid}`
/// and `{random}` values are fresh, so the contract says the key is the
/// rendering for some such values and the context built from the file.
pub fn target_key(rename: &RenameSection, pending: &PendingUpload) -> (r: String)
    ensures
        exists|ctx: TemplateContext, rs: Seq<Seq<char>>|
            rs.len() == random_count(spec_effective_template(*rename))
            && ctx.file_name@ == spec_split_name_ext(pending.file_name@).0
            && ctx.extension@ == spec_split_name_ext(pending.file_name@).1
            && ctx.content_hash_hex@ == hex_lower(spec_blake3(pending.bytes@))
            && r@ == spec_target_key(
                *rename,
                pending.file_name@,
                pending.bytes@,
                match pending.explicit_name {
                    Some(n) => Some(n@),
                    None => None,
                },
                ctx,
                rs,
            ),
{
    let template = rename.effective_template();
    let hash_hex = content_hash_hex(pending.bytes.as_slice());
    let (name, ext) = split_name_ext(pending.file_name.as_str());
    let ctx = TemplateContext::new(name.as_str(), ext.as_str(), hash_hex.as_str());
    let key = render_template(template.as_str(), &ctx);
    let ghost rs = choose|rs: Seq<Seq<char>>|
        rs.len() == random_count(template@) && key@ == spec_render(template@, ctx, rs);
    match &pending.explicit_name {
        Some(n) => {
            let r = override_key_name(key.as_str(), n.as_str(), ext.as_str());
            assert(r@ == spec_target_key(
                *rename,
                pending.file_name@,
                pending.bytes@,
                Some(n@),
                ctx,
                rs,
            ));
            r
        },
        None => key,
    }
}

/// The upload input a pending upload becomes.
pub fn upload_input(pending: PendingUpload) -> (r: UploadInput)
    ensures
        r.source_path == pending.source_path,
        r.file_name == pending.file_name,
        r.mime == pending.mime,
        r.bytes == pending.bytes,
        r.size == pending.bytes@.len(),
        r.alt == pending.explicit_alt,
{
    UploadInput::new(pending.source_path, pending.file_name, pending.mime, pending.bytes).with_alt(
        pending.explicit_alt,
    )
}

/// An uploader's output completed with the dimensions read from the file,
/// when the uploader reported none.
pub fn fill_dimensions(out: UploadOutput, dims: Option<(u32, u32)>) -> (r: UploadOutput)
    ensures
        r.source == out.source && r.url == out.url && r.key == out.key,
        r.markdown == out.markdown && r.mime == out.mime && r.size == out.size,
        r.uploader == out.uploader,
        match dims {
            Some((w, h)) => if out.width is None && out.height is None {
                r.width == Some(w) && r.height == Some(h)
            } else {
                r.width == out.width && r.height == out.height
            },
            None => r.width == out.width && r.height == out.height,
        },
{
    let mut o = out;
    if o.width.is_none() && o.height.is_none() {
        match dims {
            Some((w, h)) => {
                o.width = Some(w);
                o.height = Some(h);
            },
            None => {},
        }
    }
    o
}

/// An upload's result as a report item.
pub fn to_item(out: UploadOutput) -> (r: UploadItem)
    ensures
        r.source == out.source,
        r.url == Some(out.url),
        r.key == Some(out.key),
        r.markdown == Some(out.markdown),
        r.mime == Some(out.mime),
        r.size == Some(out.size),
        r.width == out.width,
        r.height == out.height,
        r.uploader == Some(out.uploader),
        r.error is None,
{
    UploadItem::success(out)
}

/// One upload rendered in the chosen format.
pub fn render_output(out: &UploadOutput, format: OutputFormat, custom_template: Option<&str>) -> (r: String)
    ensures
        r@ == spec_render_for_kind(
            format,
            match custom_template {
                Some(c) => Some(c@),
                None => None,
            },
            *out,
        ),
{
    render_format_for_kind(format, custom_template, out)
}

/// With no path template and the date-and-hash strategy (the default),
/// a file without an explicit name is stored under
/// `images/<year>/<month>/<day>/<first 8 hash digits>.<ext>`; with
/// `keep_original_name` (and no path template) under
/// `images/<year>/<month>/<day>/<name>.<ext>`.
pub proof fn law_rename_keys(
    rename: RenameSection,
    file_name: Seq<char>,
    bytes: Seq<u8>,
    ctx: TemplateContext,
    rs: Seq<Seq<char>>,
)
    requires
        rename.path is None,
    ensures
        !rename.keep_original_name && rename.strategy is DateHash ==> spec_target_key(
            rename,
            file_name,
            bytes,
            None,
            ctx,
            rs,
        ) == "images/"@ + ctx.time.yyyy@ + "/"@ + ctx.time.mm@ + "/"@ + ctx.time.dd@ + "/"@
            + ctx.content_hash_hex@.subrange(
            0,
            if ctx.content_hash_hex@.len() < 8 {
                ctx.content_hash_hex@.len() as int
            } else {
                8
            },
        ) + "."@ + ctx.extension@,
        rename.keep_original_name ==> spec_target_key(rename, file_name, bytes, None, ctx, rs)
            == "images/"@ + ctx.time.yyyy@ + "/"@ + ctx.time.mm@ + "/"@ + ctx.time.dd@ + "/"@
            + ctx.file_name@ + "."@ + ctx.extension@,
{
    crate::template::law_date_hash_key(ctx, rs);
    crate::template::law_date_name_key(ctx, rs);
    if !rename.keep_original_name && rename.strategy is DateHash {
        assert(rename.strategy == crate::kinds::RenameStrategy::DateHash);
    }
}

} // verus!
