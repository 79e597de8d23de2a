//! Upload progress: whether it renders, what each bar shows, and how
//! reported body progress maps onto the file size shown to the user.
//!
//! Some uploaders send more bytes than the file holds (GitHub sends the
//! file base64-encoded inside JSON), so the progress a body reports is
//! rescaled to the file's own size. Drawing the bars happens outside the
//! library; `ProgressState` decides what they show.

use vstd::prelude::*;

use crate::text::{dec, dec_chars, own, push_chars, push_str, string_of};

verus! {

/// Whether progress renders.
#[derive(Clone, Copy, PartialEq, Eq, Structural, Debug)]
pub enum SinkMode {
    Enabled,
    Disabled,
}

/// Progress renders only for a non-silent, non-dry run with files to
/// upload and a terminal on standard error.
pub open spec fn spec_sink_mode(silent: bool, file_count: nat, dry_run: bool, stderr_is_terminal: bool) -> SinkMode {
    if silent || dry_run || file_count == 0 {
        SinkMode::Disabled
    } else if stderr_is_terminal {
        SinkMode::Enabled
    } else {
        SinkMode::Disabled
    }
}

/// The label of a bar: the batch position is shown when there is more than
/// one file.
pub open spec fn spec_progress_message(uploader_name: Seq<char>, label: Seq<char>, current: nat, total: nat) -> Seq<char> {
    if total > 1 {
        "Uploading "@ + label + " via "@ + uploader_name + " ("@ + dec(current) + "/"@ + dec(total) + ")"@
    } else {
        "Uploading "@ + label + " via "@ + uploader_name
    }
}

/// The label of a bar, as `spec_progress_message` states it.
pub fn progress_message(uploader_name: &str, label: &str, current: usize, total: usize) -> (r: String)
    ensures
        r@ == spec_progress_message(uploader_name@, label@, current as nat, total as nat),
{
    let mut v: Vec<char> = Vec::new();
    push_str(&mut v, "Uploading ");
    push_str(&mut v, label);
    push_str(&mut v, " via ");
    push_str(&mut v, uploader_name);
    if total > 1 {
        push_str(&mut v, " (");
        let c = dec_chars(current as u64);
        push_chars(&mut v, &c);
        push_str(&mut v, "/");
        let t = dec_chars(total as u64);
        push_chars(&mut v, &t);
        push_str(&mut v, ")");
    }
    string_of(&v)
}

/// The smaller of two numbers.
pub open spec fn min_int(a: int, b: int) -> int {
    if a <= b {
        a
    } else {
        b
    }
}

/// Where the bar of a file of `display_total` bytes stands when `sent` of
/// `reported_total` body bytes went out: direct progress is clamped to the
/// file size, body progress is scaled to it (rounding down).
pub open spec fn spec_scale_position(sent: nat, reported_total: nat, display_total: nat) -> nat {
    if display_total == 0 {
        0
    } else if reported_total == 0 || reported_total == display_total {
        min_int(sent as int, display_total as int) as nat
    } else {
        min_int(((sent * display_total) / reported_total) as int, display_total as int) as nat
    }
}

/// The bar position, as `spec_scale_position` states it.
pub fn scale_position(sent: u64, reported_total: u64, display_total: u64) -> (r: u64)
    ensures
        r == spec_scale_position(sent as nat, reported_total as nat, display_total as nat),
        r <= display_total,
{
    if display_total == 0 {
        return 0;
    }
    if reported_total == 0 || reported_total == display_total {
        return if sent < display_total {
            sent
        } else {
            display_total
        };
    }
    assert((sent as int) * (display_total as int) <= 0xffff_ffff_ffff_ffff * 0xffff_ffff_ffff_ffffint) by (nonlinear_arith)
        requires
            sent <= 0xffff_ffff_ffff_ffffu64,
            display_total <= 0xffff_ffff_ffff_ffffu64,
    ;
    let prod: u128 = (sent as u128) * (display_total as u128);
    let scaled: u128 = prod / (reported_total as u128);
    if scaled < display_total as u128 {
        scaled as u64
    } else {
        display_total
    }
}

/// What the bar of a file that starts shows.
pub struct BarStart {
    /// The bar's label.
    pub message: String,
    /// The file's size; zero means an indeterminate spinner.
    pub total_bytes: u64,
    /// The previous file's bar was still shown and is cleared first.
    pub cleared_previous: bool,
}

/// The progress state of one upload run.
pub struct ProgressState {
    pub mode: SinkMode,
    pub uploader_name: String,
    /// Files finished or failed so far (wrapping, as an atomic counter).
    pub files_done: usize,
    pub files_total: usize,
    /// The size of the file whose bar is shown.
    pub active: Option<u64>,
}

/// One more file done, wrapping at the counter's limit.
pub open spec fn next_count(n: usize) -> usize {
    if n == usize::MAX {
        0
    } else {
        (n + 1) as usize
    }
}

fn bump(n: usize) -> (r: usize)
    ensures
        r == next_count(n),
{
    if n == usize::MAX {
        0
    } else {
        n + 1
    }
}

impl ProgressState {
    /// The state at the start of a run.
    pub fn new(silent: bool, uploader_name: &str, file_count: usize, dry_run: bool, stderr_is_terminal: bool) -> (r: Self)
        ensures
            r.mode == spec_sink_mode(silent, file_count as nat, dry_run, stderr_is_terminal),
            r.uploader_name@ == uploader_name@,
            r.files_done == 0,
            r.files_total == file_count,
            r.active is None,
    {
        let mode = if silent || dry_run || file_count == 0 {
            SinkMode::Disabled
        } else if stderr_is_terminal {
            SinkMode::Enabled
        } else {
            SinkMode::Disabled
        };
        ProgressState { mode, uploader_name: own(uploader_name), files_done: 0, files_total: file_count, active: None }
    }

    /// Whether progress renders.
    pub fn is_enabled(&self) -> (r: bool)
        ensures
            r == (self.mode == SinkMode::Enabled),
    {
        self.mode == SinkMode::Enabled
    }

    /// A file starts: the bar it gets, when progress renders.
    pub fn begin_file(&mut self, label: &str, total_bytes: u64) -> (r: Option<BarStart>)
        ensures
            final(self).mode == old(self).mode,
            final(self).uploader_name == old(self).uploader_name,
            final(self).files_done == old(self).files_done,
            final(self).files_total == old(self).files_total,
            old(self).mode == SinkMode::Disabled ==> r is None && final(self).active == old(self).active,
            old(self).mode == SinkMode::Enabled ==> final(self).active == Some(total_bytes) && (r matches Some(b) && {
                &&& b.message@ == spec_progress_message(
                    old(self).uploader_name@,
                    label@,
                    next_count(old(self).files_done) as nat,
                    old(self).files_total as nat,
                )
                &&& b.total_bytes == total_bytes
                &&& b.cleared_previous == (old(self).active is Some)
            }),
    {
        if !self.is_enabled() {
            return None;
        }
        let cleared = self.active.is_some();
        let current = bump(self.files_done);
        let message = progress_message(self.uploader_name.as_str(), label, current, self.files_total);
        self.active = Some(total_bytes);
        Some(BarStart { message, total_bytes, cleared_previous: cleared })
    }

    /// Whether a progress callback made now drives a bar (else it does
    /// nothing): progress renders, a bar is shown, and the file has a size.
    pub fn callback_drives_bar(&self, total_bytes: u64) -> (r: bool)
        ensures
            r == (self.mode == SinkMode::Enabled && self.active is Some && total_bytes != 0),
    {
        self.is_enabled() && self.active.is_some() && total_bytes != 0
    }

    /// A file finished: the final (length, position) of its bar, when it
    /// has a sized bar; the bar is then cleared.
    pub fn finish_file(&mut self, total_bytes: u64) -> (r: Option<(u64, u64)>)
        ensures
            final(self).mode == old(self).mode,
            final(self).uploader_name == old(self).uploader_name,
            final(self).files_total == old(self).files_total,
            old(self).mode == SinkMode::Disabled ==> r is None && *final(self) == *old(self),
            old(self).mode == SinkMode::Enabled ==> {
                &&& final(self).active is None
                &&& final(self).files_done == next_count(old(self).files_done)
                &&& r == match old(self).active {
                    Some(t) => if t > 0 {
                        Some((t, min_int(total_bytes as int, t as int) as u64))
                    } else {
                        None
                    },
                    None => None,
                }
            },
    {
        if !self.is_enabled() {
            return None;
        }
        let r = match self.active {
            Some(t) => if t > 0 {
                Some((t, if total_bytes < t { total_bytes } else { t }))
            } else {
                None
            },
            None => None,
        };
        self.active = None;
        self.files_done = bump(self.files_done);
        r
    }

    /// A file failed: whether a bar was shown (it is cleared).
    pub fn fail_file(&mut self) -> (r: bool)
        ensures
            final(self).mode == old(self).mode,
            final(self).uploader_name == old(self).uploader_name,
            final(self).files_total == old(self).files_total,
            old(self).mode == SinkMode::Disabled ==> !r && *final(self) == *old(self),
            old(self).mode == SinkMode::Enabled ==> r == (old(self).active is Some) && final(self).active is None
                && final(self).files_done == next_count(old(self).files_done),
    {
        if !self.is_enabled() {
            return false;
        }
        let shown = self.active.is_some();
        self.active = None;
        self.files_done = bump(self.files_done);
        shown
    }

    /// The run ends: whether a bar was still shown (it is cleared).
    pub fn finish(&mut self) -> (r: bool)
        ensures
            final(self).mode == old(self).mode,
            final(self).uploader_name == old(self).uploader_name,
            final(self).files_done == old(self).files_done,
            final(self).files_total == old(self).files_total,
            old(self).mode == SinkMode::Disabled ==> !r && final(self).active == old(self).active,
            old(self).mode == SinkMode::Enabled ==> r == (old(self).active is Some) && final(self).active is None,
    {
        if !self.is_enabled() {
            return false;
        }
        let shown = self.active.is_some();
        self.active = None;
        shown
    }

    /// Override the number of files in the batch.
    pub fn set_batch_size(&mut self, files: usize)
        ensures
            final(self).files_total == files,
            final(self).mode == old(self).mode,
            final(self).uploader_name == old(self).uploader_name,
            final(self).files_done == old(self).files_done,
            final(self).active == old(self).active,
    {
        self.files_total = files;
    }
}

} // verus!
