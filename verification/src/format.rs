//! Output rendering (markdown, url, html, jsx) for upload and migrate results.

use vstd::prelude::*;
use vstd::string::*;

use crate::kinds::OutputFormat;
use crate::placeholder::{expand, lemma_expand_step, placeholder_close};
use crate::text::{
    chars_eq, chars_find_from, chars_find_seq, chars_of, chars_starts_with, dec, dec_chars,
    find_char, find_seq, lemma_first_occ, lower, lower_chars, push_chars, push_str, slice_chars,
    starts_with, string_of, trim, trim_chars,
};
use crate::upload::UploadOutput;

verus! {

/// Coarse media classification driven by the MIME top-level type.
#[derive(Debug, Clone, Copy, PartialEq, Eq, Structural)]
pub enum MediaKind {
    Image,
    Audio,
    Video,
    /// Anything that is not `image/*`, `audio/*` or `video/*`.
    Other,
}

/// The MIME type before any `;` parameters, trimmed and lower-cased.
pub open spec fn mime_top(mime: Seq<char>) -> Seq<char> {
    let head = match find_char(mime, ';') {
        Some(i) => mime.subrange(0, i),
        None => mime,
    };
    lower(trim(head))
}

pub open spec fn spec_media_kind(mime: Seq<char>) -> MediaKind {
    let top = mime_top(mime);
    if starts_with(top, "image/"@) {
        MediaKind::Image
    } else if starts_with(top, "audio/"@) {
        MediaKind::Audio
    } else if starts_with(top, "video/"@) {
        MediaKind::Video
    } else {
        MediaKind::Other
    }
}

/// Classify a MIME string into a [`MediaKind`]; parameters are ignored and
/// the comparison is case-insensitive.
pub fn media_kind_for(mime: &str) -> (r: MediaKind)
    ensures
        r == spec_media_kind(mime@),
{
    let m = chars_of(mime);
    let end = match chars_find_from(&m, ';', 0) {
        Some(i) => i,
        None => m.len(),
    };
    assert(m@.subrange(0, m@.len() as int) =~= m@);
    let head = slice_chars(&m, 0, end);
    let t = trim_chars(&head);
    let top = lower_chars(&t);
    if chars_starts_with(&top, &chars_of("image/")) {
        MediaKind::Image
    } else if chars_starts_with(&top, &chars_of("audio/")) {
        MediaKind::Audio
    } else if chars_starts_with(&top, &chars_of("video/")) {
        MediaKind::Video
    } else {
        MediaKind::Other
    }
}

/// Variables available in format templates.
pub struct FormatVars<'a> {
    pub url: &'a str,
    pub alt: Option<&'a str>,
    pub width: Option<u32>,
    pub height: Option<u32>,
    pub mime: &'a str,
    pub size: u64,
    pub key: &'a str,
}

/// The alt text inside a rendered `![alt](url)`.
pub open spec fn spec_markdown_alt(md: Seq<char>) -> Option<Seq<char>> {
    if starts_with(md, "!["@) && find_seq(md, "]("@) is Some {
        Some(md.subrange(2, find_seq(md, "]("@)->0))
    } else {
        None
    }
}

impl UploadOutput {
    /// The alt text of the rendered markdown, when it has the `![alt](` shape.
    pub fn markdown_alt(&self) -> (r: Option<&str>)
        ensures
            match r {
                Some(a) => spec_markdown_alt(self.markdown@) == Some(a@),
                None => spec_markdown_alt(self.markdown@) is None,
            },
    {
        let md = chars_of(self.markdown.as_str());
        if !chars_starts_with(&md, &chars_of("![")) {
            return None;
        }
        match chars_find_seq(&md, &chars_of("](")) {
            Some(close) => {
                proof {
                    reveal_strlit("![");
                    reveal_strlit("](");
                    lemma_first_occ(md@, "]("@, 0);
                    assert(md@.subrange(0, 2)[0] == '!');
                    assert(md@.subrange(0, 2)[1] == '[');
                    assert(md@.subrange(close as int, close + 2)[0] == ']');
                }
                Some(self.markdown.as_str().substring_char(2, close))
            },
            None => None,
        }
    }
}

impl<'a> FormatVars<'a> {
    pub fn from_output(out: &'a UploadOutput) -> (r: Self)
        ensures
            r.url@ == out.url@,
            match r.alt {
                Some(a) => spec_markdown_alt(out.markdown@) == Some(a@),
                None => spec_markdown_alt(out.markdown@) is None,
            },
            r.width == out.width,
            r.height == out.height,
            r.mime@ == out.mime@,
            r.size == out.size,
            r.key@ == out.key@,
    {
        FormatVars {
            url: out.url.as_str(),
            alt: out.markdown_alt(),
            width: out.width,
            height: out.height,
            mime: out.mime.as_str(),
            size: out.size,
            key: out.key.as_str(),
        }
    }
}

pub open spec fn opt_text(o: Option<&str>) -> Seq<char> {
    match o {
        Some(s) => s@,
        None => seq![],
    }
}

pub open spec fn opt_dec(o: Option<u32>) -> Seq<char> {
    match o {
        Some(n) => dec(n as nat),
        None => seq![],
    }
}

/// What a format placeholder stands for; unknown keys are kept as written.
pub open spec fn format_subst(key: Seq<char>, v: FormatVars) -> Seq<char> {
    if key == "url"@ {
        v.url@
    } else if key == "alt"@ {
        opt_text(v.alt)
    } else if key == "width"@ {
        opt_dec(v.width)
    } else if key == "height"@ {
        opt_dec(v.height)
    } else if key == "mime"@ {
        v.mime@
    } else if key == "size"@ {
        dec(v.size as nat)
    } else if key == "key"@ {
        v.key@
    } else {
        seq!['{'] + key + seq!['}']
    }
}

pub open spec fn format_fn(v: FormatVars) -> spec_fn(Seq<char>) -> Seq<char> {
    |k: Seq<char>| format_subst(k, v)
}

pub open spec fn spec_render_format(t: Seq<char>, v: FormatVars) -> Seq<char> {
    expand(t, format_fn(v))
}

fn push_format_subst(out: &mut Vec<char>, key: &[char], vars: &FormatVars)
    ensures
        final(out)@ == old(out)@ + format_subst(key@, *vars),
{
    if chars_eq(key, &chars_of("url")) {
        push_str(out, vars.url);
    } else if chars_eq(key, &chars_of("alt")) {
        if let Some(a) = vars.alt {
            push_str(out, a);
        } else {
            assert(old(out)@ + seq![] =~= old(out)@);
        }
    } else if chars_eq(key, &chars_of("width")) {
        if let Some(w) = vars.width {
            let d = dec_chars(w as u64);
            push_chars(out, &d);
        } else {
            assert(old(out)@ + seq![] =~= old(out)@);
        }
    } else if chars_eq(key, &chars_of("height")) {
        if let Some(h) = vars.height {
            let d = dec_chars(h as u64);
            push_chars(out, &d);
        } else {
            assert(old(out)@ + seq![] =~= old(out)@);
        }
    } else if chars_eq(key, &chars_of("mime")) {
        push_str(out, vars.mime);
    } else if chars_eq(key, &chars_of("size")) {
        let d = dec_chars(vars.size);
        push_chars(out, &d);
    } else if chars_eq(key, &chars_of("key")) {
        push_str(out, vars.key);
    } else {
        out.push('{');
        push_chars(out, key);
        out.push('}');
        assert(out@ =~= old(out)@ + (seq!['{'] + key@ + seq!['}']));
    }
}

/// Render `vars` through a template. Placeholders: `{url}`, `{alt}`,
/// `{width}`, `{height}`, `{mime}`, `{size}`, `{key}`; unknown ones are kept.
pub fn render_format(template: &str, vars: &FormatVars) -> (r: String)
    ensures
        r@ == spec_render_format(template@, *vars),
{
    let t = chars_of(template);
    let ghost f = format_fn(*vars);
    let mut out: Vec<char> = Vec::new();
    let mut i: usize = 0;
    assert(t@.subrange(0, t@.len() as int) =~= t@);
    while i < t.len()
        invariant
            i <= t.len(),
            f == format_fn(*vars),
            expand(t@, f) == out@ + expand(t@.subrange(i as int, t@.len() as int), f),
        decreases t.len() - i,
    {
        proof {
            lemma_expand_step(t@, i as int, f);
        }
        match placeholder_close(&t, i) {
            Some(c) => {
                let key = slice_chars(&t, i + 1, c);
                let ghost before = out@;
                push_format_subst(&mut out, &key, vars);
                proof {
                    assert(i + 2 + (c - i - 1) == c + 1);
                    let rest = expand(t@.subrange(c + 1, t@.len() as int), f);
                    assert(before + (f(key@) + rest) =~= out@ + rest);
                }
                i = c + 1;
            },
            None => {
                let ghost before = out@;
                out.push(t[i]);
                proof {
                    let rest = expand(t@.subrange(i + 1, t@.len() as int), f);
                    assert(before + (seq![t@[i as int]] + rest) =~= out@ + rest);
                }
                i = i + 1;
            },
        }
    }
    proof {
        assert(t@.subrange(t@.len() as int, t@.len() as int) =~= Seq::<char>::empty());
        assert(out@ + Seq::<char>::empty() =~= out@);
    }
    string_of(&out)
}

pub open spec fn spec_default_template_for(format: OutputFormat, kind: MediaKind) -> Seq<char> {
    match (format, kind) {
        (OutputFormat::Markdown, _) => "![{alt}]({url})"@,
        (OutputFormat::Url, _) => "{url}"@,
        (OutputFormat::Html, MediaKind::Image) => "<img src=\"{url}\" alt=\"{alt}\" />"@,
        (OutputFormat::Html, MediaKind::Audio) => "<audio controls src=\"{url}\"></audio>"@,
        (OutputFormat::Html, MediaKind::Video) => "<video controls src=\"{url}\"></video>"@,
        (OutputFormat::Html, MediaKind::Other) => "<a href=\"{url}\">{alt}</a>"@,
        (OutputFormat::Jsx, MediaKind::Image) => "<Image src=\"{url}\" alt=\"{alt}\" width={width} height={height} />"@,
        (OutputFormat::Jsx, MediaKind::Audio) => "<audio controls src=\"{url}\" />"@,
        (OutputFormat::Jsx, MediaKind::Video) => "<video controls src=\"{url}\" width={width} height={height} />"@,
        (OutputFormat::Jsx, MediaKind::Other) => "<a href=\"{url}\">{alt}</a>"@,
        (OutputFormat::Json, _) => ""@,
    }
}

/// Default template for a known format and media kind.
pub fn default_template_for(format: OutputFormat, kind: MediaKind) -> (r: &'static str)
    ensures
        r@ == spec_default_template_for(format, kind),
{
    match (format, kind) {
        (OutputFormat::Markdown, _) => "![{alt}]({url})",
        (OutputFormat::Url, _) => "{url}",
        (OutputFormat::Html, MediaKind::Image) => "<img src=\"{url}\" alt=\"{alt}\" />",
        (OutputFormat::Html, MediaKind::Audio) => "<audio controls src=\"{url}\"></audio>",
        (OutputFormat::Html, MediaKind::Video) => "<video controls src=\"{url}\"></video>",
        (OutputFormat::Html, MediaKind::Other) => "<a href=\"{url}\">{alt}</a>",
        (OutputFormat::Jsx, MediaKind::Image) => "<Image src=\"{url}\" alt=\"{alt}\" width={width} height={height} />",
        (OutputFormat::Jsx, MediaKind::Audio) => "<audio controls src=\"{url}\" />",
        (OutputFormat::Jsx, MediaKind::Video) => "<video controls src=\"{url}\" width={width} height={height} />",
        (OutputFormat::Jsx, MediaKind::Other) => "<a href=\"{url}\">{alt}</a>",
        (OutputFormat::Json, _) => "",
    }
}

/// Default template of a format for images.
pub fn default_template(format: OutputFormat) -> (r: &'static str)
    ensures
        r@ == spec_default_template_for(format, MediaKind::Image),
{
    default_template_for(format, MediaKind::Image)
}

/// What rendering `out` in `format` yields: nothing for JSON, otherwise the
/// custom template (or the default one for the output's media kind) with
/// the output's variables substituted.
pub open spec fn spec_render_for_kind(
    format: OutputFormat,
    custom: Option<Seq<char>>,
    out: UploadOutput,
) -> Seq<char> {
    if format == OutputFormat::Json {
        seq![]
    } else {
        let t = match custom {
            Some(c) => c,
            None => spec_default_template_for(format, spec_media_kind(out.mime@)),
        };
        expand(t, |k: Seq<char>| format_subst_out(k, out))
    }
}

/// `format_subst` with the variables of an output.
pub open spec fn format_subst_out(key: Seq<char>, out: UploadOutput) -> Seq<char> {
    if key == "url"@ {
        out.url@
    } else if key == "alt"@ {
        match spec_markdown_alt(out.markdown@) {
            Some(a) => a,
            None => seq![],
        }
    } else if key == "width"@ {
        opt_dec(out.width)
    } else if key == "height"@ {
        opt_dec(out.height)
    } else if key == "mime"@ {
        out.mime@
    } else if key == "size"@ {
        dec(out.size as nat)
    } else if key == "key"@ {
        out.key@
    } else {
        seq!['{'] + key + seq!['}']
    }
}

/// Render one upload in the given format; a custom template overrides the
/// default for the format and media kind. JSON yields an empty string.
pub fn render_format_for_kind(format: OutputFormat, custom_template: Option<&str>, out: &UploadOutput) -> (r: String)
    ensures
        r@ == spec_render_for_kind(
            format,
            match custom_template {
                Some(c) => Some(c@),
                None => None,
            },
            *out,
        ),
{
    if format == OutputFormat::Json {
        return String::new();
    }
    let kind = media_kind_for(out.mime.as_str());
    let template = match custom_template {
        Some(c) => c,
        None => default_template_for(format, kind),
    };
    let vars = FormatVars::from_output(out);
    let r = render_format(template, &vars);
    proof {
        let f = |k: Seq<char>| format_subst(k, vars);
        let g = |k: Seq<char>| format_subst_out(k, *out);
        assert(f =~= g);
    }
    r
}

} // verus!
