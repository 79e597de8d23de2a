//! The CLI's result payload and its plain-text rendering.

use vstd::prelude::*;

use crate::kinds::OutputFormat;
use crate::text::{
    chars_of, chars_rfind, find_last, lemma_find_last, opt_view, or_empty, own, push_chars,
    push_str, replace_all, replace_str, slice_chars, string_of,
};
use crate::upload::{all_ok, items_all_ok, UploadItem};

verus! {

/// The result of a CLI upload run.
pub struct UploadPayload {
    pub success: bool,
    pub items: Vec<UploadItem>,
}

impl UploadPayload {
    /// A payload over the items; it succeeds when none had an error.
    pub fn from_items(items: Vec<UploadItem>) -> (r: Self)
        ensures
            r.success == all_ok(items@),
            r.items == items,
    {
        let success = items_all_ok(&items);
        UploadPayload { success, items }
    }
}

/// The alt text of a source path: its last `/` segment up to the last
/// `.`, or `image` when the segment has no `.`.
pub open spec fn spec_alt_of(source: Seq<char>) -> Seq<char> {
    let seg = match find_last(source, '/') {
        Some(i) => source.subrange(i + 1, source.len() as int),
        None => source,
    };
    match find_last(seg, '.') {
        Some(i) => seg.subrange(0, i),
        None => "image"@,
    }
}

/// The text line of one item.
pub open spec fn spec_item_text(item: UploadItem, format: OutputFormat) -> Seq<char> {
    match item.error {
        Some(err) => "[error] "@ + item.source@ + ": "@ + err@,
        None => {
            let url = or_empty(opt_view(item.url));
            let key = or_empty(opt_view(item.key));
            let alt = spec_alt_of(item.source@);
            let base = match format {
                OutputFormat::Url => url,
                OutputFormat::Html => "<img src=\""@ + url + "\" alt=\""@ + alt + "\" />"@,
                OutputFormat::Jsx => "<Image src=\""@ + url + "\" alt=\""@ + alt + "\" />"@,
                _ => "!["@ + alt + "]("@ + url + ")"@,
            };
            replace_all(base, "{key}"@, key)
        },
    }
}

fn alt_of(source: &str) -> (r: Vec<char>)
    ensures
        r@ == spec_alt_of(source@),
{
    let s = chars_of(source);
    proof {
        lemma_find_last(source@, '/');
    }
    let seg = match chars_rfind(&s, '/') {
        Some(i) => slice_chars(&s, i + 1, s.len()),
        None => s,
    };
    proof {
        lemma_find_last(seg@, '.');
    }
    match chars_rfind(&seg, '.') {
        Some(i) => slice_chars(&seg, 0, i),
        None => chars_of("image"),
    }
}

/// Render one item for the text output mode.
pub fn render_item_text(item: &UploadItem, format: OutputFormat) -> (r: String)
    ensures
        r@ == spec_item_text(*item, format),
{
    match &item.error {
        Some(err) => {
            let mut v: Vec<char> = Vec::new();
            push_str(&mut v, "[error] ");
            push_str(&mut v, item.source.as_str());
            push_str(&mut v, ": ");
            push_str(&mut v, err.as_str());
            return string_of(&v);
        },
        None => {},
    }
    let url: &str = match &item.url {
        Some(u) => u.as_str(),
        None => "",
    };
    let key: &str = match &item.key {
        Some(k) => k.as_str(),
        None => "",
    };
    let alt = alt_of(item.source.as_str());
    proof {
        reveal_strlit("");
    }
    assert(url@ == or_empty(opt_view(item.url)));
    assert(key@ == or_empty(opt_view(item.key)));
    let mut v: Vec<char> = Vec::new();
    match format {
        OutputFormat::Url => {
            push_str(&mut v, url);
            assert(v@ =~= url@);
        },
        OutputFormat::Html => {
            push_str(&mut v, "<img src=\"");
            push_str(&mut v, url);
            push_str(&mut v, "\" alt=\"");
            push_chars(&mut v, &alt);
            push_str(&mut v, "\" />");
            assert(v@ =~= "<img src=\""@ + url@ + "\" alt=\""@ + alt@ + "\" />"@);
        },
        OutputFormat::Jsx => {
            push_str(&mut v, "<Image src=\"");
            push_str(&mut v, url);
            push_str(&mut v, "\" alt=\"");
            push_chars(&mut v, &alt);
            push_str(&mut v, "\" />");
            assert(v@ =~= "<Image src=\""@ + url@ + "\" alt=\""@ + alt@ + "\" />"@);
        },
        _ => {
            push_str(&mut v, "![");
            push_chars(&mut v, &alt);
            push_str(&mut v, "](");
            push_str(&mut v, url);
            push_str(&mut v, ")");
            assert(v@ =~= "!["@ + alt@ + "]("@ + url@ + ")"@);
        },
    }
    let base = string_of(&v);
    proof {
        reveal_strlit("{key}");
    }
    replace_str(base.as_str(), "{key}", key)
}

} // verus!
