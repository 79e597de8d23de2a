//! `zpic migrate`: which Markdown files and images it handles, what each
//! upload's outcome adds to the report, and the exit status. Reading,
//! uploading and writing files happen outside the library.

use vstd::prelude::*;

use crate::config::{spec_template_for, ZpicConfigFile};
use crate::error::{spec_error_message, ZpicError};
use crate::format::spec_render_for_kind;
use crate::kinds::{spec_format_from, OutputFormat};
use crate::migrate::PlannedChange;
use crate::paths::{path_extension, spec_extension};
use crate::pipeline::render_output;
use crate::text::{eq_ic, lower, own, starts_with, str_eq, str_starts_with, to_lower};
use crate::upload::{UploadItem, UploadOutput};

verus! {

/// One rewritten reference.
pub struct ChangeRecord {
    pub file: String,
    pub from: String,
    pub to: String,
    pub markdown: String,
}

/// The migration report.
pub struct MigrateReport {
    pub scanned_files: usize,
    pub found: usize,
    pub uploaded: usize,
    pub rewritten_files: usize,
    pub changes: Vec<ChangeRecord>,
    /// Every upload's outcome, failures included.
    pub items: Vec<UploadItem>,
}

/// A Markdown file: extension `md`, `markdown` or `mdx` in any case.
pub open spec fn is_markdown_path(p: Seq<char>) -> bool {
    match spec_extension(p) {
        Some(e) => lower(e) == "md"@ || lower(e) == "markdown"@ || lower(e) == "mdx"@,
        None => false,
    }
}

/// Whether a path names a Markdown file.
pub fn is_markdown(p: &str) -> (r: bool)
    ensures
        r == is_markdown_path(p@),
{
    match path_extension(p) {
        Some(e) => {
            let l = to_lower(e.as_str());
            str_eq(l.as_str(), "md") || str_eq(l.as_str(), "markdown") || str_eq(l.as_str(), "mdx")
        },
        None => false,
    }
}

/// An image reference is skipped when its file is missing, or when remote
/// references are ignored and the target starts with `http`.
pub fn skip_image(dest: &str, resolved_exists: bool, ignore_remote: bool) -> (r: bool)
    ensures
        r == (!resolved_exists || (ignore_remote && starts_with(dest@, "http"@))),
{
    !resolved_exists || (ignore_remote && str_starts_with(dest, "http"))
}

/// The output format of the rewritten references: the one asked for when
/// it names a format, else the configured default.
pub fn migrate_format(requested: Option<&str>, config: &ZpicConfigFile) -> (r: OutputFormat)
    ensures
        r == match requested {
            Some(s) => match spec_format_from(s@) {
                Some(f) => f,
                None => config.default_format,
            },
            None => config.default_format,
        },
{
    match requested {
        Some(s) => match OutputFormat::from_str(s) {
            Some(f) => f,
            None => config.default_format,
        },
        None => config.default_format,
    }
}

impl MigrateReport {
    pub fn new() -> (r: Self)
        ensures
            r.scanned_files == 0 && r.found == 0 && r.uploaded == 0 && r.rewritten_files == 0,
            r.changes@.len() == 0 && r.items@.len() == 0,
    {
        MigrateReport { scanned_files: 0, found: 0, uploaded: 0, rewritten_files: 0, changes: Vec::new(), items: Vec::new() }
    }

    /// A file was scanned and `images` references found in it.
    pub fn file_scanned(&mut self, images: usize)
        requires
            old(self).scanned_files < usize::MAX,
            old(self).found + images <= usize::MAX,
        ensures
            final(self).scanned_files == old(self).scanned_files + 1,
            final(self).found == old(self).found + images,
            final(self).uploaded == old(self).uploaded,
            final(self).rewritten_files == old(self).rewritten_files,
            final(self).changes == old(self).changes,
            final(self).items == old(self).items,
    {
        self.scanned_files = self.scanned_files + 1;
        self.found = self.found + images;
    }

    /// An upload finished. A success is reported as an item and a change,
    /// counted, and gives the planned rewrite of the reference (rendered in
    /// `format`, through the configured template); a failure is reported
    /// as an item naming the resolved file.
    pub fn record_upload(
        &mut self,
        file: &str,
        dest: &str,
        resolved: &str,
        outcome: Result<UploadOutput, ZpicError>,
        format: OutputFormat,
        config: &ZpicConfigFile,
    ) -> (r: Option<PlannedChange>)
        requires
            old(self).uploaded < usize::MAX,
        ensures
            final(self).scanned_files == old(self).scanned_files,
            final(self).found == old(self).found,
            final(self).rewritten_files == old(self).rewritten_files,
            final(self).items@.len() == old(self).items@.len() + 1,
            final(self).items@.subrange(0, old(self).items@.len() as int) == old(self).items@,
            match outcome {
                Ok(out) => {
                    &&& r matches Some(c) && c.source@ == file@ && c.from@ == dest@ && c.to == out.url
                        && c.markdown@ == spec_render_for_kind(format, spec_template_for(config.format, format), out)
                    &&& final(self).uploaded == old(self).uploaded + 1
                    &&& final(self).changes@.len() == old(self).changes@.len() + 1
                    &&& final(self).changes@.last().file@ == file@
                    &&& final(self).changes@.last().from@ == dest@
                    &&& final(self).changes@.last().to == out.url
                    &&& final(self).changes@.last().markdown == out.markdown
                    &&& final(self).items@.last().error is None
                    &&& final(self).items@.last().url == Some(out.url)
                },
                Err(e) => {
                    &&& r is None
                    &&& final(self).uploaded == old(self).uploaded
                    &&& final(self).changes == old(self).changes
                    &&& final(self).items@.last().source@ == resolved@
                    &&& final(self).items@.last().error matches Some(m) && m@ == spec_error_message(e)
                },
            },
    {
        let ghost items0 = self.items@;
        match outcome {
            Ok(out) => {
                let template = config.format.template_for(format);
                let rendered = render_output(&out, format, template);
                let change = PlannedChange {
                    source: own(file),
                    from: own(dest),
                    to: out.url.clone(),
                    markdown: rendered,
                };
                let record = ChangeRecord {
                    file: own(file),
                    from: own(dest),
                    to: out.url.clone(),
                    markdown: out.markdown.clone(),
                };
                self.changes.push(record);
                let item = UploadItem::success(out);
                self.items.push(item);
                self.uploaded = self.uploaded + 1;
                proof {
                    assert(self.items@.subrange(0, items0.len() as int) =~= items0);
                }
                Some(change)
            },
            Err(e) => {
                let msg = e.message();
                self.items.push(UploadItem::failure(own(resolved), msg));
                proof {
                    assert(self.items@.subrange(0, items0.len() as int) =~= items0);
                }
                None
            },
        }
    }

    /// Whether a scanned file is rewritten: when it is not a dry run and
    /// some upload succeeded; the count of rewritten files then grows.
    pub fn note_rewrite(&mut self, dry_run: bool, planned: usize) -> (r: bool)
        requires
            old(self).rewritten_files < usize::MAX,
        ensures
            r == (!dry_run && planned > 0),
            final(self).rewritten_files == old(self).rewritten_files + if r { 1usize } else { 0usize },
            final(self).scanned_files == old(self).scanned_files,
            final(self).found == old(self).found,
            final(self).uploaded == old(self).uploaded,
            final(self).changes == old(self).changes,
            final(self).items == old(self).items,
    {
        if !dry_run && planned > 0 {
            self.rewritten_files = self.rewritten_files + 1;
            true
        } else {
            false
        }
    }

    /// The exit status: 1 when some image found was not uploaded.
    pub fn exit_code(&self) -> (r: i32)
        ensures
            r == (if self.uploaded < self.found { 1i32 } else { 0i32 }),
    {
        if self.uploaded < self.found {
            1
        } else {
            0
        }
    }
}

} // verus!
