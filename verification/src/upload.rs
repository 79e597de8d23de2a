//! Upload request and result payloads.

use vstd::prelude::*;

use crate::text::{own, string_of, push_str};

verus! {

/// Inputs passed to an uploader. `bytes` and `size` are pre-loaded by the
/// caller; `alt` is the optional alt text used in rendered output.
pub struct UploadInput {
    /// Original path of the file, kept for diagnostics and history.
    pub source_path: String,
    /// Sanitized file name.
    pub file_name: String,
    /// Detected MIME type, e.g. `image/png`.
    pub mime: String,
    /// File contents.
    pub bytes: Vec<u8>,
    /// Size in bytes.
    pub size: u64,
    /// Optional alt text.
    pub alt: Option<String>,
}

impl UploadInput {
    /// Build an input from raw bytes; the size is the byte count.
    pub fn new(source_path: String, file_name: String, mime: String, bytes: Vec<u8>) -> (r: Self)
        ensures
            r.source_path == source_path,
            r.file_name == file_name,
            r.mime == mime,
            r.bytes == bytes,
            r.size == bytes@.len(),
            r.alt is None,
    {
        let size = bytes.len() as u64;
        UploadInput { source_path, file_name, mime, bytes, size, alt: None }
    }

    /// Builder-style setter for `alt`.
    pub fn with_alt(self, alt: Option<String>) -> (r: Self)
        ensures
            r.alt == alt,
            r.source_path == self.source_path,
            r.file_name == self.file_name,
            r.mime == self.mime,
            r.bytes == self.bytes,
            r.size == self.size,
    {
        UploadInput { alt, ..self }
    }
}

/// Per-call context passed to an uploader.
pub struct UploadContext {
    /// The fully-resolved object key the uploader writes to.
    pub target_key: String,
    /// Label of the config source the upload runs under.
    pub config_source: String,
    /// `true` when the caller wants a "what would happen" run without writes.
    pub dry_run: bool,
}

impl UploadContext {
    pub fn new(target_key: String, config_source: String) -> (r: Self)
        ensures
            r.target_key == target_key,
            r.config_source == config_source,
            !r.dry_run,
    {
        UploadContext { target_key, config_source, dry_run: false }
    }
}

/// Per-file upload result.
pub struct UploadOutput {
    pub source: String,
    /// Final public URL.
    pub url: String,
    /// Resolved object key.
    pub key: String,
    /// Rendered markdown referencing the URL, e.g. `![alt](url)`.
    pub markdown: String,
    pub mime: String,
    pub size: u64,
    pub width: Option<u32>,
    pub height: Option<u32>,
    /// Identifier of the uploader used.
    pub uploader: String,
}

/// `![name](url)`.
pub open spec fn md_image(name: Seq<char>, url: Seq<char>) -> Seq<char> {
    "!["@ + name + "]("@ + url + ")"@
}

pub fn md_image_string(name: &str, url: &str) -> (r: String)
    ensures
        r@ == md_image(name@, url@),
{
    let mut v: Vec<char> = Vec::new();
    push_str(&mut v, "![");
    push_str(&mut v, name);
    push_str(&mut v, "](");
    push_str(&mut v, url);
    push_str(&mut v, ")");
    string_of(&v)
}

/// The result an uploader reports for `input` stored under `key` and
/// reachable at `url`: the markdown names the file, dimensions are unknown.
pub fn output_for(input: &UploadInput, url: String, key: String, uploader: &str) -> (r: UploadOutput)
    ensures
        r.source == input.source_path,
        r.url == url,
        r.key == key,
        r.markdown@ == md_image(input.file_name@, url@),
        r.mime == input.mime,
        r.size == input.size,
        r.width is None,
        r.height is None,
        r.uploader@ == uploader@,
{
    let markdown = md_image_string(input.file_name.as_str(), url.as_str());
    UploadOutput {
        source: input.source_path.clone(),
        url,
        key,
        markdown,
        mime: input.mime.clone(),
        size: input.size,
        width: None,
        height: None,
        uploader: own(uploader),
    }
}

/// Single item in an `UploadReport`. On failure every result field is
/// `None` and `error` describes what went wrong.
pub struct UploadItem {
    /// The requested source path or `<clipboard>` placeholder.
    pub source: String,
    pub url: Option<String>,
    pub key: Option<String>,
    pub markdown: Option<String>,
    pub mime: Option<String>,
    pub size: Option<u64>,
    pub width: Option<u32>,
    pub height: Option<u32>,
    pub uploader: Option<String>,
    /// Error message; `None` means success.
    pub error: Option<String>,
}

impl UploadItem {
    /// A successful item carrying every field of `out`.
    pub fn success(out: UploadOutput) -> (r: Self)
        ensures
            r.source == out.source,
            r.url == Some(out.url),
            r.key == Some(out.key),
            r.markdown == Some(out.markdown),
            r.mime == Some(out.mime),
            r.size == Some(out.size),
            r.width == out.width,
            r.height == out.height,
            r.uploader == Some(out.uploader),
            r.error is None,
    {
        UploadItem {
            source: out.source,
            url: Some(out.url),
            key: Some(out.key),
            markdown: Some(out.markdown),
            mime: Some(out.mime),
            size: Some(out.size),
            width: out.width,
            height: out.height,
            uploader: Some(out.uploader),
            error: None,
        }
    }

    /// A failed item with a diagnostic message.
    pub fn failure(source: String, error: String) -> (r: Self)
        ensures
            r.source == source,
            r.error == Some(error),
            r.url is None,
            r.key is None,
            r.markdown is None,
            r.mime is None,
            r.size is None,
            r.width is None,
            r.height is None,
            r.uploader is None,
    {
        UploadItem {
            source,
            url: None,
            key: None,
            markdown: None,
            mime: None,
            size: None,
            width: None,
            height: None,
            uploader: None,
            error: Some(error),
        }
    }
}

/// The item carries every result field an output needs.
pub open spec fn carries_output(item: UploadItem) -> bool {
    &&& item.url is Some
    &&& item.key is Some
    &&& item.markdown is Some
    &&& item.mime is Some
    &&& item.size is Some
    &&& item.uploader is Some
}

/// `o` is the output item `item` reports: its result fields, source and
/// dimensions.
pub open spec fn reports(item: UploadItem, o: UploadOutput) -> bool {
    &&& item.url == Some(o.url)
    &&& item.key == Some(o.key)
    &&& item.markdown == Some(o.markdown)
    &&& item.mime == Some(o.mime)
    &&& item.size == Some(o.size)
    &&& item.uploader == Some(o.uploader)
    &&& o.source == item.source
    &&& o.width == item.width
    &&& o.height == item.height
}

/// The output a successful item reports: present when the item carries
/// every result field (URL, key, markdown, MIME type, size, uploader).
pub fn item_to_output(item: &UploadItem) -> (r: Option<UploadOutput>)
    ensures
        match r {
            Some(o) => reports(*item, o),
            None => !carries_output(*item),
        },
{
    let url = match &item.url {
        Some(u) => u.clone(),
        None => return None,
    };
    let key = match &item.key {
        Some(k) => k.clone(),
        None => return None,
    };
    let markdown = match &item.markdown {
        Some(m) => m.clone(),
        None => return None,
    };
    let mime = match &item.mime {
        Some(m) => m.clone(),
        None => return None,
    };
    let size = match item.size {
        Some(s) => s,
        None => return None,
    };
    let uploader = match &item.uploader {
        Some(u) => u.clone(),
        None => return None,
    };
    Some(UploadOutput {
        source: item.source.clone(),
        url,
        key,
        markdown,
        mime,
        size,
        width: item.width,
        height: item.height,
        uploader,
    })
}

/// No item carries an error.
pub open spec fn all_ok(items: Seq<UploadItem>) -> bool {
    forall|i: int| 0 <= i < items.len() ==> (#[trigger] items[i]).error is None
}

pub fn items_all_ok(items: &Vec<UploadItem>) -> (r: bool)
    ensures
        r == all_ok(items@),
{
    let mut i: usize = 0;
    while i < items.len()
        invariant
            i <= items.len(),
            forall|j: int| 0 <= j < i ==> (#[trigger] items@[j]).error is None,
        decreases items.len() - i,
    {
        if items[i].error.is_some() {
            return false;
        }
        i = i + 1;
    }
    true
}

/// An item history keeps: one without an error that carries every result
/// field.
pub open spec fn recordable(item: UploadItem) -> bool {
    item.error is None && carries_output(item)
}

/// The recordable items, in order.
pub open spec fn recorded_items(items: Seq<UploadItem>) -> Seq<UploadItem>
    decreases items.len(),
{
    if items.len() == 0 {
        seq![]
    } else {
        recorded_items(items.drop_last()) + if recordable(items.last()) {
            seq![items.last()]
        } else {
            seq![]
        }
    }
}

/// The outputs to record in history after an upload: one for each item
/// without an error that carries every result field, in order.
pub fn history_records(items: &Vec<UploadItem>) -> (r: Vec<UploadOutput>)
    ensures
        r@.len() == recorded_items(items@).len(),
        forall|j: int| 0 <= j < r@.len() ==> reports(#[trigger] recorded_items(items@)[j], r@[j]),
{
    let mut out: Vec<UploadOutput> = Vec::new();
    let mut i: usize = 0;
    assert(items@.subrange(0, 0) =~= Seq::<UploadItem>::empty());
    while i < items.len()
        invariant
            i <= items.len(),
            out@.len() == recorded_items(items@.subrange(0, i as int)).len(),
            forall|j: int|
                0 <= j < out@.len() ==> reports(#[trigger] recorded_items(items@.subrange(0, i as int))[j], out@[j]),
        decreases items.len() - i,
    {
        let ghost prev = recorded_items(items@.subrange(0, i as int));
        assert(items@.subrange(0, i + 1).drop_last() =~= items@.subrange(0, i as int));
        assert(items@.subrange(0, i + 1).last() == items@[i as int]);
        if items[i].error.is_none() {
            match item_to_output(&items[i]) {
                Some(o) => {
                    out.push(o);
                    proof {
                        let now = recorded_items(items@.subrange(0, i + 1));
                        assert(now =~= prev.push(items@[i as int]));
                        assert forall|j: int| 0 <= j < out@.len() implies reports(#[trigger] now[j], out@[j]) by {
                            if j < prev.len() {
                                assert(now[j] == prev[j]);
                            }
                        }
                    }
                },
                None => {
                    assert(recorded_items(items@.subrange(0, i + 1)) =~= prev);
                },
            }
        } else {
            assert(recorded_items(items@.subrange(0, i + 1)) =~= prev);
        }
        i = i + 1;
    }
    assert(items@.subrange(0, items@.len() as int) =~= items@);
    out
}

/// The exit code of an upload command: 1 when any item failed, else 0.
pub fn upload_exit_code(items: &Vec<UploadItem>) -> (r: i32)
    ensures
        r == (if all_ok(items@) {
            0i32
        } else {
            1i32
        }),
{
    if items_all_ok(items) {
        0
    } else {
        1
    }
}

/// Aggregated result of a multi-file upload.
pub struct UploadReport {
    /// `true` if every requested item was uploaded successfully.
    pub success: bool,
    pub items: Vec<UploadItem>,
}

impl UploadReport {
    /// A one-item report; it succeeds when the item has no error.
    pub fn single(item: UploadItem) -> (r: Self)
        ensures
            r.success == (item.error is None),
            r.items@ == seq![item],
    {
        let success = item.error.is_none();
        let mut items: Vec<UploadItem> = Vec::new();
        items.push(item);
        UploadReport { success, items }
    }

    /// A report over many items; success means none had an error.
    pub fn from_items(items: Vec<UploadItem>) -> (r: Self)
        ensures
            r.success == all_ok(items@),
            r.items == items,
    {
        let success = items_all_ok(&items);
        UploadReport { success, items }
    }
}

} // verus!
