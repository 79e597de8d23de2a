//! The error type every zpic operation reports.

use vstd::prelude::*;

use crate::text::{own, push_str, string_of};

verus! {

/// All zpic operations return `ZpicError`. Variants are deliberately coarse
/// so integrations can map them to actionable messages. Payloads that come
/// from the operating system or a parser are carried as their message text.
#[derive(Debug)]
pub enum ZpicError {
    ConfigNotFound,
    ConfigInvalid(String),
    UploaderNotFound(String),
    UploaderUnsupported(String),
    AuthMissing(String),
    AuthFailed(String),
    /// The path that could not be found, as displayed.
    FileNotFound(String),
    UnsupportedFileType(String),
    UploadFailed(String),
    Network(String),
    Io(String),
    Serde(String),
    Toml(String),
    Clipboard(String),
    History(String),
    Migration(String),
    InvalidArgument(String),
    Internal(String),
}

pub type Result<T> = core::result::Result<T, ZpicError>;

/// The variant of a `ZpicError`, without its payload.
#[derive(Clone, Copy, PartialEq, Eq, Structural, Debug)]
pub enum ErrorKind {
    ConfigNotFound,
    ConfigInvalid,
    UploaderNotFound,
    UploaderUnsupported,
    AuthMissing,
    AuthFailed,
    FileNotFound,
    UnsupportedFileType,
    UploadFailed,
    Network,
    Io,
    Serde,
    Toml,
    Clipboard,
    History,
    Migration,
    InvalidArgument,
    Internal,
}

/// The variant of an error.
pub open spec fn kind_of(e: ZpicError) -> ErrorKind {
    match e {
        ZpicError::ConfigNotFound => ErrorKind::ConfigNotFound,
        ZpicError::ConfigInvalid(_) => ErrorKind::ConfigInvalid,
        ZpicError::UploaderNotFound(_) => ErrorKind::UploaderNotFound,
        ZpicError::UploaderUnsupported(_) => ErrorKind::UploaderUnsupported,
        ZpicError::AuthMissing(_) => ErrorKind::AuthMissing,
        ZpicError::AuthFailed(_) => ErrorKind::AuthFailed,
        ZpicError::FileNotFound(_) => ErrorKind::FileNotFound,
        ZpicError::UnsupportedFileType(_) => ErrorKind::UnsupportedFileType,
        ZpicError::UploadFailed(_) => ErrorKind::UploadFailed,
        ZpicError::Network(_) => ErrorKind::Network,
        ZpicError::Io(_) => ErrorKind::Io,
        ZpicError::Serde(_) => ErrorKind::Serde,
        ZpicError::Toml(_) => ErrorKind::Toml,
        ZpicError::Clipboard(_) => ErrorKind::Clipboard,
        ZpicError::History(_) => ErrorKind::History,
        ZpicError::Migration(_) => ErrorKind::Migration,
        ZpicError::InvalidArgument(_) => ErrorKind::InvalidArgument,
        ZpicError::Internal(_) => ErrorKind::Internal,
    }
}

/// The text an error carries (empty for `ConfigNotFound`).
pub open spec fn payload_of(e: ZpicError) -> Seq<char> {
    match e {
        ZpicError::ConfigNotFound => seq![],
        ZpicError::ConfigInvalid(s) => s@,
        ZpicError::UploaderNotFound(s) => s@,
        ZpicError::UploaderUnsupported(s) => s@,
        ZpicError::AuthMissing(s) => s@,
        ZpicError::AuthFailed(s) => s@,
        ZpicError::FileNotFound(s) => s@,
        ZpicError::UnsupportedFileType(s) => s@,
        ZpicError::UploadFailed(s) => s@,
        ZpicError::Network(s) => s@,
        ZpicError::Io(s) => s@,
        ZpicError::Serde(s) => s@,
        ZpicError::Toml(s) => s@,
        ZpicError::Clipboard(s) => s@,
        ZpicError::History(s) => s@,
        ZpicError::Migration(s) => s@,
        ZpicError::InvalidArgument(s) => s@,
        ZpicError::Internal(s) => s@,
    }
}

/// An error as a value: its variant and its text.
pub open spec fn error_view(e: ZpicError) -> (ErrorKind, Seq<char>) {
    (kind_of(e), payload_of(e))
}

/// A failure outcome, as contracts state it.
pub type Failure = (ErrorKind, Seq<char>);

/// The remediation hint of each error kind, if it has one.
pub open spec fn spec_remediation(e: ZpicError) -> Option<Seq<char>> {
    match e {
        ZpicError::ConfigNotFound => Some(
            "Run `zpic config init` to create a starter config, or pass `--config <path>`."@,
        ),
        ZpicError::ConfigInvalid(_) => Some(
            "Validate the config file syntax; see the field mentioned in the error message."@,
        ),
        ZpicError::UploaderNotFound(_) => Some(
            "Create it with `zpic set uploader <type> <name>` or switch to an existing one with `zpic use uploader <type> <name>`."@,
        ),
        ZpicError::UploaderUnsupported(_) => Some(
            "Switch to a built-in uploader (local, github, s3, aliyun-oss) or import a supported PicGo config."@,
        ),
        ZpicError::AuthMissing(_) => Some(
            "Provide the credential as an environment variable or in the config file."@,
        ),
        ZpicError::AuthFailed(_) => Some(
            "Verify the credential is still valid; regenerate the token if needed."@,
        ),
        ZpicError::FileNotFound(_) => Some("Check that the file path exists and is readable."@),
        ZpicError::UnsupportedFileType(_) => Some(
            "zpic uploads images (png, jpg, jpeg, gif, webp, bmp, svg, tiff, avif), audio (mp3, flac, wav, ogg, m4a, 3gp), and video (mp4, webm, ogv)."@,
        ),
        ZpicError::Clipboard(_) => Some(
            "Copy an image to the clipboard before running `zpic upload --clipboard`."@,
        ),
        ZpicError::History(_) => Some(
            "Check filesystem permissions on the history store path; see `zpic doctor`."@,
        ),
        _ => None,
    }
}

/// The message `Display` shows for each error kind.
pub open spec fn spec_error_message(e: ZpicError) -> Seq<char> {
    match e {
        ZpicError::ConfigNotFound => "config file not found in any of the standard locations"@,
        ZpicError::ConfigInvalid(s) => "config is invalid: "@ + s@,
        ZpicError::UploaderNotFound(s) => "uploader '"@ + s@ + "' is not configured"@,
        ZpicError::UploaderUnsupported(s) => "uploader '"@ + s@ + "' is not supported by zpic"@,
        ZpicError::AuthMissing(s) => "missing credential: "@ + s@,
        ZpicError::AuthFailed(s) => "authentication failed: "@ + s@,
        ZpicError::FileNotFound(s) => "file not found: "@ + s@,
        ZpicError::UnsupportedFileType(s) => "unsupported file type: "@ + s@,
        ZpicError::UploadFailed(s) => "upload failed: "@ + s@,
        ZpicError::Network(s) => "network error: "@ + s@,
        ZpicError::Io(s) => "io error: "@ + s@,
        ZpicError::Serde(s) => "serialization error: "@ + s@,
        ZpicError::Toml(s) => "toml parse error: "@ + s@,
        ZpicError::Clipboard(s) => "clipboard error: "@ + s@,
        ZpicError::History(s) => "history store error: "@ + s@,
        ZpicError::Migration(s) => "migration error: "@ + s@,
        ZpicError::InvalidArgument(s) => "invalid argument: "@ + s@,
        ZpicError::Internal(s) => "internal error: "@ + s@,
    }
}

/// The message of an error given as a value (variant and text).
pub open spec fn failure_message(f: Failure) -> Seq<char> {
    let s = f.1;
    match f.0 {
        ErrorKind::ConfigNotFound => "config file not found in any of the standard locations"@,
        ErrorKind::ConfigInvalid => "config is invalid: "@ + s,
        ErrorKind::UploaderNotFound => "uploader '"@ + s + "' is not configured"@,
        ErrorKind::UploaderUnsupported => "uploader '"@ + s + "' is not supported by zpic"@,
        ErrorKind::AuthMissing => "missing credential: "@ + s,
        ErrorKind::AuthFailed => "authentication failed: "@ + s,
        ErrorKind::FileNotFound => "file not found: "@ + s,
        ErrorKind::UnsupportedFileType => "unsupported file type: "@ + s,
        ErrorKind::UploadFailed => "upload failed: "@ + s,
        ErrorKind::Network => "network error: "@ + s,
        ErrorKind::Io => "io error: "@ + s,
        ErrorKind::Serde => "serialization error: "@ + s,
        ErrorKind::Toml => "toml parse error: "@ + s,
        ErrorKind::Clipboard => "clipboard error: "@ + s,
        ErrorKind::History => "history store error: "@ + s,
        ErrorKind::Migration => "migration error: "@ + s,
        ErrorKind::InvalidArgument => "invalid argument: "@ + s,
        ErrorKind::Internal => "internal error: "@ + s,
    }
}

/// An error's message depends only on its value.
pub proof fn lemma_message_of_view(e: ZpicError)
    ensures
        spec_error_message(e) == failure_message(error_view(e)),
{
}

/// `<prefix>: <error>`, joining a context to an error's message for a
/// clearer user message.
pub fn chain_err(prefix: &str, err: &str) -> (r: String)
    ensures
        r@ == prefix@ + ": "@ + err@,
{
    let mut v: Vec<char> = Vec::new();
    push_str(&mut v, prefix);
    push_str(&mut v, ": ");
    push_str(&mut v, err);
    string_of(&v)
}

fn join2(a: &str, b: &str) -> (r: String)
    ensures
        r@ == a@ + b@,
{
    let mut v: Vec<char> = Vec::new();
    push_str(&mut v, a);
    push_str(&mut v, b);
    string_of(&v)
}

fn join3(a: &str, b: &str, c: &str) -> (r: String)
    ensures
        r@ == a@ + b@ + c@,
{
    let mut v: Vec<char> = Vec::new();
    push_str(&mut v, a);
    push_str(&mut v, b);
    push_str(&mut v, c);
    string_of(&v)
}

impl ZpicError {
    /// A short, user-actionable remediation hint for the most common failure
    /// modes, or `None` when no hint is known.
    pub fn remediation(&self) -> (r: Option<&'static str>)
        ensures
            match r {
                Some(h) => spec_remediation(*self) == Some(h@),
                None => spec_remediation(*self) is None,
            },
    {
        match self {
            ZpicError::ConfigNotFound => Some(
                "Run `zpic config init` to create a starter config, or pass `--config <path>`.",
            ),
            ZpicError::ConfigInvalid(_) => Some(
                "Validate the config file syntax; see the field mentioned in the error message.",
            ),
            ZpicError::UploaderNotFound(_) => Some(
                "Create it with `zpic set uploader <type> <name>` or switch to an existing one with `zpic use uploader <type> <name>`.",
            ),
            ZpicError::UploaderUnsupported(_) => Some(
                "Switch to a built-in uploader (local, github, s3, aliyun-oss) or import a supported PicGo config.",
            ),
            ZpicError::AuthMissing(_) => Some(
                "Provide the credential as an environment variable or in the config file.",
            ),
            ZpicError::AuthFailed(_) => Some(
                "Verify the credential is still valid; regenerate the token if needed.",
            ),
            ZpicError::FileNotFound(_) => Some("Check that the file path exists and is readable."),
            ZpicError::UnsupportedFileType(_) => Some(
                "zpic uploads images (png, jpg, jpeg, gif, webp, bmp, svg, tiff, avif), audio (mp3, flac, wav, ogg, m4a, 3gp), and video (mp4, webm, ogv).",
            ),
            ZpicError::Clipboard(_) => Some(
                "Copy an image to the clipboard before running `zpic upload --clipboard`.",
            ),
            ZpicError::History(_) => Some(
                "Check filesystem permissions on the history store path; see `zpic doctor`.",
            ),
            _ => None,
        }
    }

    /// The human-readable message of the error.
    pub fn message(&self) -> (r: String)
        ensures
            r@ == spec_error_message(*self),
    {
        match self {
            ZpicError::ConfigNotFound => own("config file not found in any of the standard locations"),
            ZpicError::ConfigInvalid(s) => join2("config is invalid: ", s.as_str()),
            ZpicError::UploaderNotFound(s) => join3("uploader '", s.as_str(), "' is not configured"),
            ZpicError::UploaderUnsupported(s) => join3("uploader '", s.as_str(), "' is not supported by zpic"),
            ZpicError::AuthMissing(s) => join2("missing credential: ", s.as_str()),
            ZpicError::AuthFailed(s) => join2("authentication failed: ", s.as_str()),
            ZpicError::FileNotFound(s) => join2("file not found: ", s.as_str()),
            ZpicError::UnsupportedFileType(s) => join2("unsupported file type: ", s.as_str()),
            ZpicError::UploadFailed(s) => join2("upload failed: ", s.as_str()),
            ZpicError::Network(s) => join2("network error: ", s.as_str()),
            ZpicError::Io(s) => join2("io error: ", s.as_str()),
            ZpicError::Serde(s) => join2("serialization error: ", s.as_str()),
            ZpicError::Toml(s) => join2("toml parse error: ", s.as_str()),
            ZpicError::Clipboard(s) => join2("clipboard error: ", s.as_str()),
            ZpicError::History(s) => join2("history store error: ", s.as_str()),
            ZpicError::Migration(s) => join2("migration error: ", s.as_str()),
            ZpicError::InvalidArgument(s) => join2("invalid argument: ", s.as_str()),
            ZpicError::Internal(s) => join2("internal error: ", s.as_str()),
        }
    }
}

} // verus!
