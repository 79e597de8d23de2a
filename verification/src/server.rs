//! The PicGo-compatible HTTP API: wire models, error mapping, and the
//! decisions the handlers make on raw requests (which body parser to use,
//! which file types to accept, how to name temporary files, which LAN
//! addresses to advertise).

use vstd::prelude::*;

use crate::error::{spec_error_message, ZpicError};
use crate::paths::{path_extension, spec_extension};
use crate::seqs::{first_index, lemma_first_index_is, lemma_first_index_none};
use crate::text::{
    chars_of, dec, dec_string, is_ascii_alnum, lower, lower_chars, opt_view, own, push_chars, push_str,
    string_of, trim, trim_chars, views,
};

verus! {

// ------------------------------------------------------------------
// Wire models
// ------------------------------------------------------------------

/// JSON body of `POST /upload` in path-list mode.
pub struct PathListRequest {
    /// Absolute paths to upload, in order.
    pub list: Vec<String>,
}

/// Machine-readable error codes clients switch on.
#[derive(Clone, Copy, PartialEq, Eq, Structural, Debug)]
pub enum UploadErrorCode {
    InvalidFileType,
    FileNotFound,
    UploadFailed,
    ConfigError,
    ServerError,
}

pub open spec fn spec_code_str(c: UploadErrorCode) -> Seq<char> {
    match c {
        UploadErrorCode::InvalidFileType => "INVALID_FILE_TYPE"@,
        UploadErrorCode::FileNotFound => "FILE_NOT_FOUND"@,
        UploadErrorCode::UploadFailed => "UPLOAD_FAILED"@,
        UploadErrorCode::ConfigError => "CONFIG_ERROR"@,
        UploadErrorCode::ServerError => "SERVER_ERROR"@,
    }
}

impl UploadErrorCode {
    /// The code as it appears in JSON.
    pub fn as_str(self) -> (r: &'static str)
        ensures
            r@ == spec_code_str(self),
    {
        match self {
            UploadErrorCode::InvalidFileType => "INVALID_FILE_TYPE",
            UploadErrorCode::FileNotFound => "FILE_NOT_FOUND",
            UploadErrorCode::UploadFailed => "UPLOAD_FAILED",
            UploadErrorCode::ConfigError => "CONFIG_ERROR",
            UploadErrorCode::ServerError => "SERVER_ERROR",
        }
    }
}

/// One entry of `fullResult`.
pub struct UploadResultItem {
    pub img_url: String,
    pub delete: Option<String>,
}

/// The `/upload` response.
pub struct UploadResponse {
    pub success: bool,
    pub result: Option<Vec<String>>,
    pub full_result: Option<Vec<UploadResultItem>>,
    pub msg: Option<String>,
    pub code: Option<UploadErrorCode>,
}

/// `GET /health` response.
pub struct HealthResponse {
    pub status: String,
    pub version: String,
    pub uptime: u64,
}

/// `GET /config` response; carries no credential.
pub struct ConfigResponse {
    pub current_uploader: String,
    pub uploaders: Vec<String>,
    pub version: String,
}

impl UploadResponse {
    /// A successful response.
    pub fn ok(result: Vec<String>, full_result: Option<Vec<UploadResultItem>>) -> (r: Self)
        ensures
            r.success,
            r.result == Some(result),
            r.full_result == full_result,
            r.msg is None,
            r.code is None,
    {
        UploadResponse { success: true, result: Some(result), full_result, msg: None, code: None }
    }

    /// An error response.
    pub fn err(msg: String, code: UploadErrorCode) -> (r: Self)
        ensures
            !r.success,
            r.result is None,
            r.full_result is None,
            r.msg == Some(msg),
            r.code == Some(code),
    {
        UploadResponse { success: false, result: None, full_result: None, msg: Some(msg), code: Some(code) }
    }

    /// A partly failed batch: the URLs that made it, and the error.
    pub fn partial(result: Vec<String>, msg: String, code: UploadErrorCode) -> (r: Self)
        ensures
            !r.success,
            r.result == Some(result),
            r.full_result is None,
            r.msg == Some(msg),
            r.code == Some(code),
    {
        UploadResponse {
            success: false,
            result: Some(result),
            full_result: None,
            msg: Some(msg),
            code: Some(code),
        }
    }

    /// The message shown for a server error; an unrecognised content type
    /// gets an explanation of what to send instead.
    pub fn err_msg(err: &ServerError) -> (r: String)
        ensures
            r@ == spec_err_msg(*err),
    {
        match err {
            ServerError::UnsupportedContentType(actual) => {
                let mut v: Vec<char> = Vec::new();
                push_str(&mut v, "zpic server did not recognise the request Content-Type (`");
                if actual.as_str().is_empty() {
                    push_str(&mut v, "<empty>");
                } else {
                    push_str(&mut v, actual.as_str());
                }
                push_str(&mut v, "`). Set `Content-Type: multipart/form-data; boundary=...` for file uploads, or `application/json` for the path-list mode. See the server log for details.");
                string_of(&v)
            },
            other => other.message(),
        }
    }
}

pub open spec fn spec_err_msg(e: ServerError) -> Seq<char> {
    match e {
        ServerError::UnsupportedContentType(a) => "zpic server did not recognise the request Content-Type (`"@
            + (if a@.len() == 0 {
            "<empty>"@
        } else {
            a@
        })
            + "`). Set `Content-Type: multipart/form-data; boundary=...` for file uploads, or `application/json` for the path-list mode. See the server log for details."@,
        _ => spec_server_message(e),
    }
}

// ------------------------------------------------------------------
// Errors
// ------------------------------------------------------------------

/// Errors of the HTTP layer.
pub enum ServerError {
    Config(String),
    FileNotFound(String),
    UnsupportedContentType(String),
    BadRequest(String),
    EmptyUpload(String),
    Multipart(String),
    InvalidField(String),
    InvalidFileType(String),
    Upload(String),
    Internal(String),
}

pub open spec fn spec_server_message(e: ServerError) -> Seq<char> {
    match e {
        ServerError::Config(s) => "zpic config error: "@ + s@,
        ServerError::FileNotFound(s) => "file not found: "@ + s@,
        ServerError::UnsupportedContentType(s) => "unsupported content type: "@ + s@,
        ServerError::BadRequest(s) => "invalid request body: "@ + s@,
        ServerError::EmptyUpload(s) => "empty upload: "@ + s@,
        ServerError::Multipart(s) => "multipart error: "@ + s@,
        ServerError::InvalidField(s) => "invalid multipart field: "@ + s@,
        ServerError::InvalidFileType(s) => "invalid file type: "@ + s@,
        ServerError::Upload(s) => "upload failed: "@ + s@,
        ServerError::Internal(s) => "internal server error: "@ + s@,
    }
}

/// The HTTP status sent with each error: 200 for logical failures (PicGo
/// semantics), 400 for malformed requests, 500 for internal errors.
pub open spec fn spec_status(e: ServerError) -> u16 {
    match e {
        ServerError::BadRequest(_) | ServerError::Multipart(_) => 400,
        ServerError::Internal(_) => 500,
        _ => 200,
    }
}

pub open spec fn spec_code(e: ServerError) -> UploadErrorCode {
    match e {
        ServerError::Config(_) => UploadErrorCode::ConfigError,
        ServerError::FileNotFound(_) => UploadErrorCode::FileNotFound,
        ServerError::InvalidFileType(_) => UploadErrorCode::InvalidFileType,
        ServerError::Upload(_) => UploadErrorCode::UploadFailed,
        _ => UploadErrorCode::ServerError,
    }
}

fn prefixed(p: &str, s: &str) -> (r: String)
    ensures
        r@ == p@ + s@,
{
    let mut v: Vec<char> = Vec::new();
    push_str(&mut v, p);
    push_str(&mut v, s);
    string_of(&v)
}

impl ServerError {
    /// The HTTP status code.
    pub fn status(&self) -> (r: u16)
        ensures
            r == spec_status(*self),
    {
        match self {
            ServerError::BadRequest(_) | ServerError::Multipart(_) => 400,
            ServerError::Internal(_) => 500,
            _ => 200,
        }
    }

    /// The wire code.
    pub fn code(&self) -> (r: UploadErrorCode)
        ensures
            r == spec_code(*self),
    {
        match self {
            ServerError::Config(_) => UploadErrorCode::ConfigError,
            ServerError::FileNotFound(_) => UploadErrorCode::FileNotFound,
            ServerError::InvalidFileType(_) => UploadErrorCode::InvalidFileType,
            ServerError::Upload(_) => UploadErrorCode::UploadFailed,
            _ => UploadErrorCode::ServerError,
        }
    }

    /// The error's message.
    pub fn message(&self) -> (r: String)
        ensures
            r@ == spec_server_message(*self),
    {
        match self {
            ServerError::Config(s) => prefixed("zpic config error: ", s.as_str()),
            ServerError::FileNotFound(s) => prefixed("file not found: ", s.as_str()),
            ServerError::UnsupportedContentType(s) => prefixed("unsupported content type: ", s.as_str()),
            ServerError::BadRequest(s) => prefixed("invalid request body: ", s.as_str()),
            ServerError::EmptyUpload(s) => prefixed("empty upload: ", s.as_str()),
            ServerError::Multipart(s) => prefixed("multipart error: ", s.as_str()),
            ServerError::InvalidField(s) => prefixed("invalid multipart field: ", s.as_str()),
            ServerError::InvalidFileType(s) => prefixed("invalid file type: ", s.as_str()),
            ServerError::Upload(s) => prefixed("upload failed: ", s.as_str()),
            ServerError::Internal(s) => prefixed("internal server error: ", s.as_str()),
        }
    }

    /// The server error a pipeline error becomes: configuration and
    /// credential problems are config errors, missing files and refused
    /// types keep their subject, upload and network failures are upload
    /// errors, anything else is internal.
    pub fn from_zpic(err: ZpicError) -> (r: ServerError)
        ensures
            spec_from_zpic_view(err, r),
    {
        let m = err.message();
        match err {
            ZpicError::ConfigNotFound | ZpicError::ConfigInvalid(_) | ZpicError::UploaderNotFound(_)
            | ZpicError::UploaderUnsupported(_) | ZpicError::AuthMissing(_)
            | ZpicError::AuthFailed(_) => ServerError::Config(m),
            ZpicError::FileNotFound(p) => ServerError::FileNotFound(p),
            ZpicError::UnsupportedFileType(w) => ServerError::InvalidFileType(w),
            ZpicError::UploadFailed(w) | ZpicError::Network(w) => ServerError::Upload(w),
            _ => ServerError::Internal(m),
        }
    }
}

/// `r` is what `from_zpic` makes of `err`, messages by their text.
pub open spec fn spec_from_zpic_view(err: ZpicError, r: ServerError) -> bool {
    match err {
        ZpicError::ConfigNotFound | ZpicError::ConfigInvalid(_) | ZpicError::UploaderNotFound(_)
        | ZpicError::UploaderUnsupported(_) | ZpicError::AuthMissing(_)
        | ZpicError::AuthFailed(_) => r matches ServerError::Config(m) && m@ == spec_error_message(err),
        ZpicError::FileNotFound(p) => r == ServerError::FileNotFound(p),
        ZpicError::UnsupportedFileType(w) => r == ServerError::InvalidFileType(w),
        ZpicError::UploadFailed(w) => r == ServerError::Upload(w),
        ZpicError::Network(w) => r == ServerError::Upload(w),
        _ => r matches ServerError::Internal(m) && m@ == spec_error_message(err),
    }
}

// ------------------------------------------------------------------
// Request decisions
// ------------------------------------------------------------------

/// The file extensions the server accepts: images, audio and video.
pub open spec fn media_extensions() -> Seq<Seq<char>> {
    seq![
        "png"@, "jpg"@, "jpeg"@, "gif"@, "webp"@, "bmp"@, "tiff"@, "tif"@, "svg"@, "avif"@,
        "mp3"@, "flac"@, "wav"@, "ogg"@, "oga"@, "m4a"@, "3gp"@, "mp4"@, "webm"@, "ogv"@,
    ]
}

/// Whether a path names a file of an accepted media type (extension
/// compared ignoring ASCII case).
pub fn has_media_extension(path: &str) -> (r: bool)
    ensures
        r == match spec_extension(path@) {
            Some(e) => media_extensions().contains(lower(e)),
            None => false,
        },
{
    match path_extension(path) {
        Some(e) => {
            let l = crate::text::to_lower(e.as_str());
            let names: [&'static str; 20] = [
                "png", "jpg", "jpeg", "gif", "webp", "bmp", "tiff", "tif", "svg", "avif", "mp3",
                "flac", "wav", "ogg", "oga", "m4a", "3gp", "mp4", "webm", "ogv",
            ];
            proof {
                assert(names@.map_values(|n: &str| n@) =~= media_extensions());
            }
            let mut i: usize = 0;
            while i < 20
                invariant
                    i <= 20,
                    l@ == lower(e@),
                    spec_extension(path@) == Some(e@),
                    names@.map_values(|n: &str| n@) == media_extensions(),
                    forall|j: int| 0 <= j < i ==> media_extensions()[j] != l@,
                decreases 20 - i,
            {
                assert(media_extensions()[i as int] == names[i as int]@);
                if crate::text::str_eq(l.as_str(), names[i]) {
                    assert(media_extensions()[i as int] == l@);
                    return true;
                }
                i = i + 1;
            }
            false
        },
        None => false,
    }
}

/// The text `String::from_utf8_lossy` makes of a byte string.
pub uninterp spec fn spec_utf8_lossy(bytes: Seq<u8>) -> Seq<char>;

/// Calls `String::from_utf8_lossy`. Its result is named; for valid UTF-8
/// it is the decoded text, as the documentation says.
#[verifier::external_body]
pub(crate) fn utf8_lossy(bytes: &[u8]) -> (r: String)
    ensures
        r@ == spec_utf8_lossy(bytes@),
        vstd::utf8::valid_utf8(bytes@) ==> r@ == vstd::utf8::decode_utf8(bytes@),
{
    String::from_utf8_lossy(bytes).into_owned()
}

/// The bytes of the first line (up to the first `\r` or `\n`).
pub open spec fn first_line(b: Seq<u8>) -> Seq<u8> {
    match first_index(b, |x: u8| x == 13 || x == 10) {
        Some(i) => b.subrange(0, i),
        None => b,
    }
}

/// The multipart boundary a body announces on its first line
/// (`--<boundary>`), decoded leniently.
pub open spec fn spec_boundary(body: Seq<u8>) -> Option<Seq<char>> {
    let line = first_line(body);
    if line.len() < 2 || line[0] != 45 || line[1] != 45 || line.len() == 2 {
        None
    } else {
        Some(spec_utf8_lossy(line.subrange(2, line.len() as int)))
    }
}

/// Pull the multipart boundary out of a body's leading `--<boundary>` line.
pub fn extract_boundary_from_body(body: &[u8]) -> (r: Option<String>)
    ensures
        match r {
            Some(b) => spec_boundary(body@) == Some(b@),
            None => spec_boundary(body@) is None,
        },
{
    let mut end: usize = 0;
    while end < body.len() && body[end] != 13 && body[end] != 10
        invariant
            end <= body.len(),
            forall|j: int| 0 <= j < end ==> !((|x: u8| x == 13 || x == 10)(#[trigger] body@[j])),
        decreases body.len() - end,
    {
        end = end + 1;
    }
    proof {
        if end < body.len() {
            lemma_first_index_is(body@, |x: u8| x == 13 || x == 10, end as int);
        } else {
            lemma_first_index_none(body@, |x: u8| x == 13 || x == 10);
            assert(body@.subrange(0, body.len() as int) =~= body@);
        }
    }
    if end < 2 || body[0] != 45 || body[1] != 45 || end == 2 {
        return None;
    }
    let mut line: Vec<u8> = Vec::new();
    let mut k: usize = 2;
    while k < end
        invariant
            2 <= k <= end,
            end <= body.len(),
            line@ == body@.subrange(2, k as int),
        decreases end - k,
    {
        line.push(body[k]);
        k = k + 1;
    }
    proof {
        assert(first_line(body@).subrange(2, end as int) =~= body@.subrange(2, end as int));
    }
    Some(utf8_lossy(line.as_slice()))
}

/// A byte as the preview shows it: printable ASCII, space, CR and LF as
/// themselves, anything else as `.`.
pub open spec fn preview_char(b: u8) -> char {
    if (33 <= b <= 126) || b == 13 || b == 10 || b == 32 {
        b as char
    } else {
        '.'
    }
}

/// A printable preview of the first `limit` bytes of a body.
pub fn body_preview(body: &[u8], limit: usize) -> (r: String)
    ensures
        r@ == body@.subrange(0, if body@.len() < limit { body@.len() as int } else { limit as int })
            .map_values(|b: u8| preview_char(b)),
{
    let take = if body.len() < limit {
        body.len()
    } else {
        limit
    };
    let mut out: Vec<char> = Vec::new();
    let mut i: usize = 0;
    while i < take
        invariant
            i <= take,
            take <= body.len(),
            out@ == body@.subrange(0, i as int).map_values(|b: u8| preview_char(b)),
        decreases take - i,
    {
        let b = body[i];
        if (33 <= b && b <= 126) || b == 13 || b == 10 || b == 32 {
            out.push(b as char);
        } else {
            out.push('.');
        }
        proof {
            assert(body@.subrange(0, i + 1).map_values(|b: u8| preview_char(b)) =~= body@.subrange(
                0,
                i as int,
            ).map_values(|b: u8| preview_char(b)).push(preview_char(b)));
        }
        i = i + 1;
    }
    string_of(&out)
}

/// A file-name character kept as it is: ASCII letters and digits, `.`,
/// `-`, `_`.
pub open spec fn name_char_ok(c: char) -> bool {
    is_ascii_alnum(c) || c == '.' || c == '-' || c == '_'
}

/// A non-empty (trimmed) file name made safe: other characters become `_`,
/// and `.` / `..` get a leading `_`.
pub open spec fn spec_sanitized(t: Seq<char>) -> Seq<char> {
    let m = t.map_values(|c: char| if name_char_ok(c) { c } else { '_' });
    if m == "."@ || m == ".."@ {
        seq!['_'] + m
    } else {
        m
    }
}

/// A sanitized name is one safe path component: it is not empty, every
/// character is an ASCII letter or digit, `.`, `-` or `_` (so no
/// separator), and it is neither `.` nor `..`.
pub proof fn law_sanitized_name_is_safe(t: Seq<char>)
    requires
        t.len() > 0,
    ensures
        spec_sanitized(t).len() > 0,
        forall|i: int| 0 <= i < spec_sanitized(t).len() ==> name_char_ok(#[trigger] spec_sanitized(t)[i]),
        spec_sanitized(t) != "."@,
        spec_sanitized(t) != ".."@,
{
    reveal_strlit(".");
    reveal_strlit("..");
    let m = t.map_values(|c: char| if name_char_ok(c) { c } else { '_' });
    assert forall|i: int| 0 <= i < m.len() implies name_char_ok(#[trigger] m[i]) by {}
    if m == "."@ || m == ".."@ {
        let r = seq!['_'] + m;
        assert(r[0] == '_');
        assert(r.len() >= 2);
        assert(r != "."@);
        assert(r[0] != ".."@[0]);
        assert forall|i: int| 0 <= i < r.len() implies name_char_ok(#[trigger] r[i]) by {
            if i > 0 {
                assert(r[i] == m[i - 1]);
            }
        }
    }
}

/// The name generated for a file that has none, at a clock reading.
pub open spec fn generated_name(now_ms: i64) -> Seq<char> {
    "upload-"@ + crate::fields::idec(now_ms as int) + ".bin"@
}

/// A client-supplied file name made safe for a temporary file: its
/// trimmed text sanitized, or the generated name when it is blank.
pub open spec fn spec_sanitize_at(input: Seq<char>, now_ms: i64) -> Seq<char> {
    if trim(input).len() > 0 {
        spec_sanitized(trim(input))
    } else {
        generated_name(now_ms)
    }
}

/// Make a client-supplied file name safe for a temporary file, as
/// `spec_sanitize_at` states; `now_ms` names a blank one.
pub fn sanitize_file_name_at(input: &str, now_ms: i64) -> (r: String)
    ensures
        r@ == spec_sanitize_at(input@, now_ms),
{
    let ic = chars_of(input);
    let t = trim_chars(&ic);
    if t.len() == 0 {
        let d = crate::fields::FieldValue::Integer(now_ms).text();
        let mut v: Vec<char> = Vec::new();
        push_str(&mut v, "upload-");
        push_str(&mut v, d.as_str());
        push_str(&mut v, ".bin");
        return string_of(&v);
    }
    let mut out: Vec<char> = Vec::new();
    let mut i: usize = 0;
    while i < t.len()
        invariant
            i <= t.len(),
            out@ == t@.subrange(0, i as int).map_values(|c: char| if name_char_ok(c) { c } else { '_' }),
        decreases t.len() - i,
    {
        let c = t[i];
        if crate::text::ascii_alnum(c) || c == '.' || c == '-' || c == '_' {
            out.push(c);
        } else {
            out.push('_');
        }
        proof {
            assert(t@.subrange(0, i + 1).map_values(|c: char| if name_char_ok(c) { c } else { '_' })
                =~= t@.subrange(0, i as int).map_values(|c: char| if name_char_ok(c) { c } else { '_' }).push(
                if name_char_ok(c) { c } else { '_' },
            ));
        }
        i = i + 1;
    }
    proof {
        assert(t@.subrange(0, t.len() as int) =~= t@);
    }
    let s = string_of(&out);
    if crate::text::str_eq(s.as_str(), ".") || crate::text::str_eq(s.as_str(), "..") {
        let mut v: Vec<char> = Vec::new();
        v.push('_');
        push_chars(&mut v, &out);
        assert(v@ =~= seq!['_'] + out@);
        return string_of(&v);
    }
    s
}

/// Make a client-supplied file name safe for a temporary file; an empty
/// name becomes `upload-<unix millis>.bin`.
pub fn sanitize_file_name(input: &str) -> (r: String)
    ensures
        trim(input@).len() > 0 ==> r@ == spec_sanitized(trim(input@)),
        trim(input@).len() == 0 ==> exists|ms: i64| r@ == generated_name(ms),
{
    sanitize_file_name_at(input, crate::stamp::now_ms())
}

// ------------------------------------------------------------------
// LAN banner
// ------------------------------------------------------------------

/// Addresses not worth advertising: loopback, unspecified, multicast,
/// broadcast, link-local, documentation, shared (CGNAT), benchmarking and
/// reserved ranges.
pub open spec fn spec_uninteresting(ip: [u8; 4]) -> bool {
    let a = ip[0];
    let b = ip[1];
    let c = ip[2];
    let d = ip[3];
    ||| a == 127
    ||| (a == 0 && b == 0 && c == 0 && d == 0)
    ||| (224 <= a <= 239)
    ||| (a == 255 && b == 255 && c == 255 && d == 255)
    ||| (a == 169 && b == 254)
    ||| (a == 192 && b == 0 && c == 2)
    ||| (a == 198 && b == 51 && c == 100)
    ||| (a == 203 && b == 0 && c == 113)
    ||| (a == 100 && 64 <= b <= 127)
    ||| (a == 198 && 18 <= b <= 19)
    ||| a >= 240
}

/// Whether an IPv4 address (by its octets) is not worth advertising.
pub fn is_uninteresting_ipv4(ip: [u8; 4]) -> (r: bool)
    ensures
        r == spec_uninteresting(ip),
{
    let a = ip[0];
    let b = ip[1];
    let c = ip[2];
    let d = ip[3];
    a == 127 || (a == 0 && b == 0 && c == 0 && d == 0) || (224 <= a && a <= 239) || (a == 255
        && b == 255 && c == 255 && d == 255) || (a == 169 && b == 254) || (a == 192 && b == 0 && c
        == 2) || (a == 198 && b == 51 && c == 100) || (a == 203 && b == 0 && c == 113) || (a == 100
        && 64 <= b && b <= 127) || (a == 198 && 18 <= b && b <= 19) || a >= 240
}

/// `a.b.c.d`.
pub open spec fn ip_text(ip: [u8; 4]) -> Seq<char> {
    dec(ip[0] as nat) + "."@ + dec(ip[1] as nat) + "."@ + dec(ip[2] as nat) + "."@ + dec(
        ip[3] as nat,
    )
}

fn push_ip(v: &mut Vec<char>, ip: [u8; 4])
    ensures
        final(v)@ == old(v)@ + ip_text(ip),
{
    let a = crate::text::dec_chars(ip[0] as u64);
    let b = crate::text::dec_chars(ip[1] as u64);
    let c = crate::text::dec_chars(ip[2] as u64);
    let d = crate::text::dec_chars(ip[3] as u64);
    push_chars(v, &a);
    push_str(v, ".");
    push_chars(v, &b);
    push_str(v, ".");
    push_chars(v, &c);
    push_str(v, ".");
    push_chars(v, &d);
    assert(v@ =~= old(v)@ + ip_text(ip));
}

/// An address as the number it orders by (`Ipv4Addr`'s order).
pub open spec fn ip_key(ip: [u8; 4]) -> int {
    ip[0] * 16777216 + ip[1] * 65536 + ip[2] * 256 + ip[3]
}

/// The addresses are strictly increasing (so each occurs once).
pub open spec fn sorted_ips(s: Seq<[u8; 4]>) -> bool {
    forall|i: int, j: int| 0 <= i < j < s.len() ==> ip_key(#[trigger] s[i]) < ip_key(#[trigger] s[j])
}

/// `x` occurs in `s`.
pub open spec fn has_ip(s: Seq<[u8; 4]>, x: [u8; 4]) -> bool {
    exists|a: int| 0 <= a < s.len() && s[a] == x
}

/// The LAN addresses worth showing: the interesting ones among the
/// interface addresses, sorted, each once.
pub open spec fn lan_selection(input: Seq<[u8; 4]>, out: Seq<[u8; 4]>) -> bool {
    &&& sorted_ips(out)
    &&& forall|x: [u8; 4]| #[trigger] has_ip(out, x) <==> (has_ip(input, x) && !spec_uninteresting(x))
}

fn key_of(ip: [u8; 4]) -> (r: u32)
    ensures
        r == ip_key(ip),
{
    (ip[0] as u32) * 16777216 + (ip[1] as u32) * 65536 + (ip[2] as u32) * 256 + (ip[3] as u32)
}

proof fn lemma_key_injective(a: [u8; 4], b: [u8; 4])
    requires
        ip_key(a) == ip_key(b),
    ensures
        a == b,
{
    assert(a[0] == b[0] && a[1] == b[1] && a[2] == b[2] && a[3] == b[3]) by (nonlinear_arith)
        requires
            a[0] * 16777216 + a[1] * 65536 + a[2] * 256 + a[3] == b[0] * 16777216 + b[1] * 65536 + b[2] * 256 + b[3],
            a[0] < 256, a[1] < 256, a[2] < 256, a[3] < 256,
            b[0] < 256, b[1] < 256, b[2] < 256, b[3] < 256,
    ;
    assert(a@ =~= b@);
}

/// Insert an address into a sorted list unless it is there already.
fn insert_ip(out: &mut Vec<[u8; 4]>, ip: [u8; 4])
    requires
        sorted_ips(old(out)@),
    ensures
        sorted_ips(final(out)@),
        forall|x: [u8; 4]| #[trigger] has_ip(final(out)@, x) <==> (has_ip(old(out)@, x) || x == ip),
{
    let k = key_of(ip);
    let mut p: usize = 0;
    while p < out.len() && key_of(out[p]) < k
        invariant
            p <= out@.len(),
            k == ip_key(ip),
            sorted_ips(out@),
            forall|a: int| 0 <= a < p ==> ip_key(#[trigger] out@[a]) < k,
        decreases out@.len() - p,
    {
        p = p + 1;
    }
    if p < out.len() && key_of(out[p]) == k {
        proof {
            lemma_key_injective(out@[p as int], ip);
            assert forall|x: [u8; 4]| #[trigger] has_ip(out@, x) <==> (has_ip(out@, x) || x == ip) by {
                if x == ip {
                    assert(out@[p as int] == x);
                }
            }
        }
        return;
    }
    let ghost before = out@;
    out.insert(p, ip);
    proof {
        assert forall|a: int, b: int| 0 <= a < b < out@.len() implies ip_key(#[trigger] out@[a]) < ip_key(#[trigger] out@[b]) by {
            if b < p {
                assert(out@[a] == before[a] && out@[b] == before[b]);
            } else if b == p {
                assert(out@[a] == before[a]);
            } else if a == p {
                assert(out@[b] == before[b - 1]);
                assert(ip_key(before[p as int]) >= k);
                if b - 1 > p {
                    assert(ip_key(before[p as int]) < ip_key(before[b - 1]));
                }
            } else if a < p {
                assert(out@[a] == before[a] && out@[b] == before[b - 1]);
            } else {
                assert(out@[a] == before[a - 1] && out@[b] == before[b - 1]);
            }
        }
        assert forall|x: [u8; 4]| #[trigger] has_ip(out@, x) <==> (has_ip(before, x) || x == ip) by {
            if has_ip(out@, x) {
                let a = choose|a: int| 0 <= a < out@.len() && out@[a] == x;
                if a < p {
                    assert(before[a] == x);
                } else if a > p {
                    assert(before[a - 1] == x);
                }
            }
            if has_ip(before, x) {
                let a = choose|a: int| 0 <= a < before.len() && before[a] == x;
                if a < p {
                    assert(out@[a] == x);
                } else {
                    assert(out@[a + 1] == x);
                }
            }
            if x == ip {
                assert(out@[p as int] == x);
            }
        }
    }
}

/// The interesting addresses among `ips`, sorted, each once.
pub fn select_lan_addrs(ips: &Vec<[u8; 4]>) -> (r: Vec<[u8; 4]>)
    ensures
        lan_selection(ips@, r@),
{
    let mut out: Vec<[u8; 4]> = Vec::new();
    let mut j: usize = 0;
    while j < ips.len()
        invariant
            j <= ips@.len(),
            sorted_ips(out@),
            forall|x: [u8; 4]| #[trigger] has_ip(out@, x) <==> (has_ip(ips@.subrange(0, j as int), x) && !spec_uninteresting(x)),
        decreases ips@.len() - j,
    {
        let ip = ips[j];
        let ghost before = out@;
        if !is_uninteresting_ipv4(ip) {
            insert_ip(&mut out, ip);
        }
        proof {
            let pre = ips@.subrange(0, j as int);
            let post = ips@.subrange(0, j + 1);
            assert forall|x: [u8; 4]| has_ip(post, x) <==> (has_ip(pre, x) || x == ip) by {
                if has_ip(post, x) {
                    let a = choose|a: int| 0 <= a < post.len() && post[a] == x;
                    if a < j {
                        assert(pre[a] == x);
                    }
                }
                if has_ip(pre, x) {
                    let a = choose|a: int| 0 <= a < pre.len() && pre[a] == x;
                    assert(post[a] == x);
                }
                if x == ip {
                    assert(post[j as int] == x);
                }
            }
            assert forall|x: [u8; 4]| #[trigger] has_ip(out@, x) <==> (has_ip(post, x) && !spec_uninteresting(x)) by {
                assert(has_ip(before, x) <==> (has_ip(pre, x) && !spec_uninteresting(x)));
            }
        }
        j = j + 1;
    }
    assert(ips@.subrange(0, ips@.len() as int) =~= ips@);
    out
}

/// The IPv4 addresses of this machine's network interfaces.
///
/// An address of a network interface, as octets.
pub enum InterfaceAddr {
    V4([u8; 4]),
    V6([u8; 16]),
}

/// The IPv4 addresses among interface addresses, in order.
pub open spec fn ipv4_of(addrs: Seq<InterfaceAddr>) -> Seq<[u8; 4]>
    decreases addrs.len(),
{
    if addrs.len() == 0 {
        seq![]
    } else {
        let prev = ipv4_of(addrs.drop_last());
        match addrs.last() {
            InterfaceAddr::V4(o) => prev.push(o),
            InterfaceAddr::V6(_) => prev,
        }
    }
}

/// Calls `if_addrs::get_if_addrs` and gives each interface's address as
/// octets. The answer depends on the machine, so nothing is stated of it;
/// an error enumerating interfaces gives an empty list.
#[verifier::external_body]
fn interface_addrs() -> (r: Vec<InterfaceAddr>) {
    match if_addrs::get_if_addrs() {
        Ok(addrs) => addrs
            .into_iter()
            .map(|iface| match iface.addr {
                if_addrs::IfAddr::V4(v4) => InterfaceAddr::V4(v4.ip.octets()),
                if_addrs::IfAddr::V6(v6) => InterfaceAddr::V6(v6.ip.octets()),
            })
            .collect(),
        Err(_) => Vec::new(),
    }
}

/// The IPv4 addresses among interface addresses.
pub fn ipv4_addrs(addrs: &Vec<InterfaceAddr>) -> (r: Vec<[u8; 4]>)
    ensures
        r@ == ipv4_of(addrs@),
{
    let mut out: Vec<[u8; 4]> = Vec::new();
    let mut i: usize = 0;
    while i < addrs.len()
        invariant
            i <= addrs@.len(),
            out@ == ipv4_of(addrs@.subrange(0, i as int)),
        decreases addrs@.len() - i,
    {
        proof {
            assert(addrs@.subrange(0, i + 1).drop_last() =~= addrs@.subrange(0, i as int));
        }
        match &addrs[i] {
            InterfaceAddr::V4(o) => out.push(*o),
            InterfaceAddr::V6(_) => {},
        }
        i = i + 1;
    }
    proof {
        assert(addrs@.subrange(0, addrs@.len() as int) =~= addrs@);
    }
    out
}

/// The LAN addresses of this machine worth showing in the startup banner.
pub fn lan_ipv4_addrs() -> (r: Vec<[u8; 4]>)
    ensures
        exists|addrs: Seq<InterfaceAddr>| lan_selection(ipv4_of(addrs), r@),
{
    let addrs = interface_addrs();
    let v4 = ipv4_addrs(&addrs);
    select_lan_addrs(&v4)
}

/// The banner lines after "listening on": only for a wildcard bind, the
/// local URL and one network URL per LAN address.
pub fn lan_banner_lines(bound_unspecified: bool, port: u16, lan: &Vec<[u8; 4]>) -> (r: Vec<String>)
    ensures
        !bound_unspecified ==> r@.len() == 0,
        bound_unspecified ==> r@.len() == lan@.len() + 1 && r@[0]@ == "  ➜  Local:   http://127.0.0.1:"@
            + dec(port as nat) + "/"@ && forall|i: int|
            0 <= i < lan@.len() ==> #[trigger] r@[i + 1]@ == "  ➜  Network: http://"@ + ip_text(
                lan@[i],
            ) + ":"@ + dec(port as nat) + "/"@,
{
    let mut lines: Vec<String> = Vec::new();
    if !bound_unspecified {
        return lines;
    }
    let p = dec_string(port as u64);
    let mut first: Vec<char> = Vec::new();
    push_str(&mut first, "  ➜  Local:   http://127.0.0.1:");
    push_str(&mut first, p.as_str());
    push_str(&mut first, "/");
    lines.push(string_of(&first));
    let mut i: usize = 0;
    while i < lan.len()
        invariant
            i <= lan.len(),
            lines@.len() == i + 1,
            p@ == dec(port as nat),
            lines@[0]@ == "  ➜  Local:   http://127.0.0.1:"@ + dec(port as nat) + "/"@,
            forall|j: int|
                0 <= j < i ==> #[trigger] lines@[j + 1]@ == "  ➜  Network: http://"@ + ip_text(lan@[j])
                    + ":"@ + dec(port as nat) + "/"@,
        decreases lan.len() - i,
    {
        let mut v: Vec<char> = Vec::new();
        push_str(&mut v, "  ➜  Network: http://");
        push_ip(&mut v, lan[i]);
        push_str(&mut v, ":");
        push_str(&mut v, p.as_str());
        push_str(&mut v, "/");
        lines.push(string_of(&v));
        i = i + 1;
    }
    lines
}

/// How an upload request body is to be parsed.
pub enum UploadRoute {
    /// A JSON path list.
    Json,
    /// Multipart with the boundary taken from the `Content-Type` header.
    MultipartHeader,
    /// Multipart with the boundary found in the body.
    MultipartSniffed(String),
    /// Not recognised; carries the content type as received.
    Unsupported(String),
}

/// The first byte of a body that is not ASCII whitespace.
pub open spec fn first_non_ws(b: Seq<u8>) -> Option<u8> {
    match first_index(b, |x: u8| !(x == 32 || x == 9 || x == 10 || x == 12 || x == 13)) {
        Some(i) => Some(b[i]),
        None => None,
    }
}

/// How `content_type` and `body` are routed: JSON and multipart by their
/// content type (ignoring ASCII case); with no content type, a body that
/// starts with `{` or `[` is JSON and one that starts with `--<boundary>`
/// is multipart; anything else is unsupported.
pub open spec fn spec_route(content_type: Seq<char>, body: Seq<u8>) -> (bool, bool, Option<Seq<char>>, bool) {
    let l = lower(content_type);
    if crate::text::starts_with(l, "application/json"@) {
        (true, false, None, false)
    } else if crate::text::starts_with(l, "multipart/form-data"@) {
        (false, true, None, false)
    } else if content_type.len() == 0 {
        match first_non_ws(body) {
            Some(f) => if f == 123 || f == 91 {
                (true, false, None, false)
            } else if f == 45 && body.len() >= 2 && body[0] == 45 && body[1] == 45 {
                match spec_boundary(body) {
                    Some(bd) => (false, false, Some(bd), false),
                    None => (false, false, None, true),
                }
            } else {
                (false, false, None, true)
            },
            None => (false, false, None, true),
        }
    } else {
        (false, false, None, true)
    }
}

pub open spec fn route_view(r: UploadRoute) -> (bool, bool, Option<Seq<char>>, bool) {
    match r {
        UploadRoute::Json => (true, false, None, false),
        UploadRoute::MultipartHeader => (false, true, None, false),
        UploadRoute::MultipartSniffed(b) => (false, false, Some(b@), false),
        UploadRoute::Unsupported(_) => (false, false, None, true),
    }
}

/// Decide how to parse an upload request.
pub fn route_upload(content_type: &str, body: &[u8]) -> (r: UploadRoute)
    ensures
        route_view(r) == spec_route(content_type@, body@),
        r matches UploadRoute::Unsupported(c) ==> c@ == content_type@,
{
    let l = crate::text::to_lower(content_type);
    if crate::text::str_starts_with(l.as_str(), "application/json") {
        return UploadRoute::Json;
    }
    if crate::text::str_starts_with(l.as_str(), "multipart/form-data") {
        return UploadRoute::MultipartHeader;
    }
    if !content_type.is_empty() {
        return UploadRoute::Unsupported(own(content_type));
    }
    let mut i: usize = 0;
    while i < body.len() && (body[i] == 32 || body[i] == 9 || body[i] == 10 || body[i] == 12 || body[i] == 13)
        invariant
            i <= body.len(),
            forall|j: int|
                0 <= j < i ==> !((|x: u8| !(x == 32 || x == 9 || x == 10 || x == 12 || x == 13))(
                    #[trigger] body@[j],
                )),
        decreases body.len() - i,
    {
        i = i + 1;
    }
    if i == body.len() {
        proof {
            lemma_first_index_none(body@, |x: u8| !(x == 32 || x == 9 || x == 10 || x == 12 || x == 13));
        }
        return UploadRoute::Unsupported(String::new());
    }
    proof {
        lemma_first_index_is(body@, |x: u8| !(x == 32 || x == 9 || x == 10 || x == 12 || x == 13), i as int);
    }
    let f = body[i];
    if f == 123 || f == 91 {
        return UploadRoute::Json;
    }
    if f == 45 && body.len() >= 2 && body[0] == 45 && body[1] == 45 {
        return match extract_boundary_from_body(body) {
            Some(b) => UploadRoute::MultipartSniffed(b),
            None => UploadRoute::Unsupported(String::new()),
        };
    }
    UploadRoute::Unsupported(String::new())
}


/// The boundary `multer` reads from a `Content-Type` header.
pub uninterp spec fn spec_parse_boundary(content_type: Seq<char>) -> Option<Seq<char>>;

/// Calls `multer::parse_boundary`, which parses the header as a MIME type,
/// requires `multipart/form-data` and returns its `boundary` parameter.
/// The boundary depends on the header alone, so it is named; the error's
/// text (multer's `Display`) is carried along and not stated.
#[verifier::external_body]
fn parse_boundary(content_type: &str) -> (r: Result<String, String>)
    ensures
        match r {
            Ok(b) => spec_parse_boundary(content_type@) == Some(b@),
            Err(_) => spec_parse_boundary(content_type@) is None,
        },
{
    multer::parse_boundary(content_type).map_err(|e| e.to_string())
}

/// How an upload request's body is read.
pub enum UploadPlan {
    /// A JSON list of local paths.
    Json,
    /// A multipart form with this boundary.
    Multipart(String),
}

/// How an upload request is read, from its `Content-Type` and body: JSON,
/// multipart with the header's boundary (a header without a valid one is a
/// bad request), multipart with the boundary found in the body, else an
/// unsupported content type.
pub fn plan_upload(content_type: &str, body: &[u8]) -> (r: Result<UploadPlan, ServerError>)
    ensures
        match spec_route(content_type@, body@) {
            (true, _, _, _) => r matches Ok(UploadPlan::Json),
            (false, true, _, _) => match spec_parse_boundary(content_type@) {
                Some(b) => r matches Ok(UploadPlan::Multipart(x)) && x@ == b,
                None => r matches Err(ServerError::BadRequest(m)) && m@.len() >= 28
                    && m@.subrange(0, 28) == "invalid multipart boundary: "@,
            },
            (false, false, Some(b), _) => r matches Ok(UploadPlan::Multipart(x)) && x@ == b,
            _ => r matches Err(ServerError::UnsupportedContentType(c)) && c@ == content_type@,
        },
{
    let route = route_upload(content_type, body);
    let header_boundary = match route {
        UploadRoute::MultipartHeader => parse_boundary(content_type),
        _ => Err(String::new()),
    };
    let ghost hb = header_boundary;
    let r = plan_for_route(route, header_boundary);
    proof {
        reveal_strlit("invalid multipart boundary: ");
        if let Err(ServerError::BadRequest(m)) = &r {
            if let Err(e) = hb {
                assert(m@.subrange(0, 28) =~= "invalid multipart boundary: "@);
            }
        }
    }
    r
}

/// How a request is read once routed: a JSON list; multipart with the
/// header's boundary as parsed (a parse failure is a bad request naming
/// it) or with the boundary found in the body; an unsupported content
/// type is refused as received.
pub fn plan_for_route(route: UploadRoute, header_boundary: Result<String, String>) -> (r: Result<UploadPlan, ServerError>)
    ensures
        match route {
            UploadRoute::Json => r matches Ok(UploadPlan::Json),
            UploadRoute::MultipartHeader => match header_boundary {
                Ok(b) => r matches Ok(UploadPlan::Multipart(x)) && x == b,
                Err(e) => r matches Err(ServerError::BadRequest(m)) && m@ == "invalid multipart boundary: "@ + e@,
            },
            UploadRoute::MultipartSniffed(b) => r matches Ok(UploadPlan::Multipart(x)) && x == b,
            UploadRoute::Unsupported(c) => r matches Err(ServerError::UnsupportedContentType(x)) && x == c,
        },
{
    match route {
        UploadRoute::Json => Ok(UploadPlan::Json),
        UploadRoute::MultipartHeader => match header_boundary {
            Ok(b) => Ok(UploadPlan::Multipart(b)),
            Err(e) => {
                let mut m: Vec<char> = Vec::new();
                push_str(&mut m, "invalid multipart boundary: ");
                push_str(&mut m, e.as_str());
                Err(ServerError::BadRequest(string_of(&m)))
            },
        },
        UploadRoute::MultipartSniffed(b) => Ok(UploadPlan::Multipart(b)),
        UploadRoute::Unsupported(c) => Err(ServerError::UnsupportedContentType(c)),
    }
}

// ------------------------------------------------------------------
// Multipart uploads
// ------------------------------------------------------------------

/// Largest file part a multipart upload may carry, in bytes (25 MiB).
pub const MAX_PART_BYTES: usize = 25 * 1024 * 1024;

/// What the multipart handler has gathered so far: the URL of each part
/// uploaded, in order.
pub struct PartState {
    pub urls: Vec<String>,
}

/// What the caller saw since the last step.
pub enum PartEvent {
    /// A new field began, with the name the client gave it.
    Field { name: Option<String> },
    /// The body of a `list` field was read: the file name the client gave,
    /// its length in bytes, and the clock in Unix milliseconds.
    Part { file_name: Option<String>, len: usize, now_ms: i64 },
    /// The part was stored and uploaded; its URL.
    Uploaded(String),
    /// Reading the body, storing the part or uploading it failed.
    Failed(ServerError),
    /// The body holds no more fields.
    End,
}

/// What the caller does next.
pub enum PartAction {
    /// Drain this field and go on to the next.
    Skip,
    /// Read this field's body and report it as a `Part`.
    Read,
    /// Store the part under this file name and upload it.
    Save(String),
    /// Go on to the next field.
    Next,
    /// Remove the stored parts and answer the request with this.
    Reply(Result<UploadResponse, ServerError>),
}

impl PartState {
    /// Nothing gathered yet.
    pub fn new() -> (r: Self)
        ensures
            r.urls@.len() == 0,
    {
        PartState { urls: Vec::new() }
    }
}

/// The file name a part goes by: the one the client gave, or the one
/// generated from the clock.
pub open spec fn part_file_name(file_name: Option<String>, now_ms: i64) -> Seq<char> {
    match file_name {
        Some(s) => s@,
        None => generated_name(now_ms),
    }
}

/// The refusal of a part over `MAX_PART_BYTES`.
pub open spec fn too_large_message(file_name: Seq<char>) -> Seq<char> {
    "file `"@ + file_name + "` exceeds "@ + dec(MAX_PART_BYTES as nat) + " bytes"@
}

/// A successful reply listing `urls`, in `result` and in `fullResult`.
pub open spec fn lists_urls(resp: UploadResponse, urls: Seq<Seq<char>>) -> bool {
    &&& resp.success
    &&& resp.result matches Some(v) && views(v@) == urls
    &&& resp.full_result matches Some(items) && items@.len() == urls.len() && forall|i: int|
        0 <= i < urls.len() ==> (#[trigger] items@[i]).img_url@ == urls[i] && items@[i].delete is None
    &&& resp.msg is None
    &&& resp.code is None
}

/// One step of a multipart upload, from the URLs gathered so far and an
/// event to the URLs gathered after it and the action to take:
/// - a field is read only when it is named `list`, and skipped otherwise;
/// - a part over `MAX_PART_BYTES` is refused as a bad request naming its
///   file name; any other is stored under its sanitized file name;
/// - an uploaded part adds its URL; a failure is the reply;
/// - at the end, no URL is an empty upload, else the URLs are the reply.
pub open spec fn spec_multipart_step(
    urls: Seq<Seq<char>>,
    ev: PartEvent,
    next: Seq<Seq<char>>,
    act: PartAction,
) -> bool {
    match ev {
        PartEvent::Field { name } => next == urls && if opt_view(name) == Some("list"@) {
            act is Read
        } else {
            act is Skip
        },
        PartEvent::Part { file_name, len, now_ms } => next == urls && if len > MAX_PART_BYTES {
            act matches PartAction::Reply(Err(ServerError::BadRequest(m))) && m@ == too_large_message(
                part_file_name(file_name, now_ms),
            )
        } else {
            act matches PartAction::Save(s) && s@ == spec_sanitize_at(part_file_name(file_name, now_ms), now_ms)
        },
        PartEvent::Uploaded(url) => next == urls.push(url@) && act is Next,
        PartEvent::Failed(e) => next == urls && act == PartAction::Reply(Err(e)),
        PartEvent::End => next == urls && if urls.len() == 0 {
            act matches PartAction::Reply(Err(ServerError::EmptyUpload(m))) && m@
                == "no `list` field in multipart body"@
        } else {
            act matches PartAction::Reply(Ok(resp)) && lists_urls(resp, urls)
        },
    }
}

/// Take one step of a multipart upload, as `spec_multipart_step` states.
pub fn multipart_step(state: PartState, ev: PartEvent) -> (r: (PartState, PartAction))
    ensures
        spec_multipart_step(views(state.urls@), ev, views(r.0.urls@), r.1),
{
    let mut urls = state.urls;
    match ev {
        PartEvent::Field { name } => {
            let read = match &name {
                Some(n) => crate::text::str_eq(n.as_str(), "list"),
                None => false,
            };
            if read {
                (PartState { urls }, PartAction::Read)
            } else {
                (PartState { urls }, PartAction::Skip)
            }
        },
        PartEvent::Part { file_name, len, now_ms } => {
            let fname: String = match file_name {
                Some(s) => s,
                None => {
                    proof {
                        reveal_strlit("");
                        assert(trim(""@).len() == 0);
                    }
                    sanitize_file_name_at("", now_ms)
                },
            };
            if len > MAX_PART_BYTES {
                let mut m: Vec<char> = Vec::new();
                push_str(&mut m, "file `");
                push_str(&mut m, fname.as_str());
                push_str(&mut m, "` exceeds ");
                let d = dec_string(MAX_PART_BYTES as u64);
                push_str(&mut m, d.as_str());
                push_str(&mut m, " bytes");
                (PartState { urls }, PartAction::Reply(Err(ServerError::BadRequest(string_of(&m)))))
            } else {
                let safe = sanitize_file_name_at(fname.as_str(), now_ms);
                (PartState { urls }, PartAction::Save(safe))
            }
        },
        PartEvent::Uploaded(url) => {
            crate::text::push_string(&mut urls, url);
            (PartState { urls }, PartAction::Next)
        },
        PartEvent::Failed(e) => (PartState { urls }, PartAction::Reply(Err(e))),
        PartEvent::End => {
            if urls.len() == 0 {
                let m = own("no `list` field in multipart body");
                return (PartState { urls }, PartAction::Reply(Err(ServerError::EmptyUpload(m))));
            }
            let mut items: Vec<UploadResultItem> = Vec::new();
            let mut result: Vec<String> = Vec::new();
            let mut i: usize = 0;
            while i < urls.len()
                invariant
                    i <= urls.len(),
                    items@.len() == i,
                    views(result@) == views(urls@).subrange(0, i as int),
                    forall|j: int|
                        0 <= j < i ==> (#[trigger] items@[j]).img_url@ == urls@[j]@ && items@[j].delete is None,
                decreases urls.len() - i,
            {
                let u = own(urls[i].as_str());
                proof {
                    assert(views(urls@).subrange(0, i + 1) =~= views(urls@).subrange(0, i as int).push(u@));
                }
                crate::text::push_string(&mut result, own(urls[i].as_str()));
                items.push(UploadResultItem { img_url: u, delete: None });
                i = i + 1;
            }
            proof {
                assert(views(urls@).subrange(0, urls@.len() as int) =~= views(urls@));
            }
            let resp = UploadResponse::ok(result, Some(items));
            (PartState { urls }, PartAction::Reply(Ok(resp)))
        },
    }
}

// ------------------------------------------------------------------
// Path-list uploads
// ------------------------------------------------------------------

/// The path names an accepted media file by its extension.
pub open spec fn spec_media_path(path: Seq<char>) -> bool {
    match spec_extension(path) {
        Some(e) => media_extensions().contains(lower(e)),
        None => false,
    }
}

/// A path-list upload must list at least one path.
pub fn check_path_list(list: &Vec<String>) -> (r: Result<(), ServerError>)
    ensures
        list@.len() == 0 ==> (r matches Err(ServerError::EmptyUpload(m)) && m@ == "`list` is empty"@),
        list@.len() > 0 ==> r is Ok,
{
    if list.len() == 0 {
        Err(ServerError::EmptyUpload(own("`list` is empty")))
    } else {
        Ok(())
    }
}

/// Whether a listed path may be uploaded, given whether it exists: a
/// missing path is not found, and then one without an accepted media
/// extension is an invalid file type; both name the path as listed.
pub fn check_listed_path(raw: &str, exists: bool) -> (r: Result<(), ServerError>)
    ensures
        !exists ==> (r matches Err(ServerError::FileNotFound(s)) && s@ == raw@),
        exists && !spec_media_path(raw@) ==> (r matches Err(ServerError::InvalidFileType(s)) && s@ == raw@),
        exists && spec_media_path(raw@) ==> r is Ok,
{
    if !exists {
        Err(ServerError::FileNotFound(own(raw)))
    } else if !has_media_extension(raw) {
        Err(ServerError::InvalidFileType(own(raw)))
    } else {
        Ok(())
    }
}

} // verus!
