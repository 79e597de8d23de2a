//! The MCP tool surface's policy: which paths and files an agent may hand
//! to zpic, which tools are enabled, and the `zpic` command line each tool
//! runs. Every tool shells out to the `zpic` binary with `--json`;
//! spawning it and canonicalizing paths happen outside the library.

use vstd::prelude::*;

use crate::paths::{path_extension, spec_extension};
use crate::text::{
    chars_of, eq_ic, join_sep, join_strings, own, push_str, starts_with, str_eq_ic, string_of,
    views,
};

verus! {

/// Security-relevant settings of the MCP server. Every default is
/// conservative.
pub struct McpConfig {
    /// Directories the server may read files from.
    pub workspace_roots: Vec<String>,
    /// Allow `upload_clipboard_image` (off by default).
    pub allow_clipboard: bool,
    /// Allow `migrate_markdown_images` to upload and rewrite (off by
    /// default: it reports as a dry run).
    pub allow_migrate_write: bool,
    /// Files larger than this are refused.
    pub max_file_size_mb: u64,
    /// Extensions `upload_image` accepts, compared ignoring ASCII case.
    pub allowed_extensions: Vec<String>,
    /// The `zpic` binary to run.
    pub zpic_bin: String,
}

/// The extensions accepted by default.
pub open spec fn default_extensions() -> Seq<Seq<char>> {
    seq!["png"@, "jpg"@, "jpeg"@, "gif"@, "webp"@, "svg"@, "bmp"@]
}

impl McpConfig {
    /// The default configuration, rooted at the directory the server was
    /// started in.
    pub fn default_in(working_dir: &str) -> (r: Self)
        ensures
            views(r.workspace_roots@) == seq![working_dir@],
            !r.allow_clipboard,
            !r.allow_migrate_write,
            r.max_file_size_mb == 20,
            views(r.allowed_extensions@) == default_extensions(),
            r.zpic_bin@ == "zpic"@,
    {
        let exts = vec![own("png"), own("jpg"), own("jpeg"), own("gif"), own("webp"), own("svg"), own("bmp")];
        let roots = vec![own(working_dir)];
        proof {
            assert(views(exts@) =~= default_extensions());
            assert(views(roots@) =~= seq![working_dir@]);
        }
        McpConfig {
            workspace_roots: roots,
            allow_clipboard: false,
            allow_migrate_write: false,
            max_file_size_mb: 20,
            allowed_extensions: exts,
            zpic_bin: own("zpic"),
        }
    }
}

/// Parameters of `upload_image`.
pub struct UploadImageParams {
    pub path: String,
    pub uploader: Option<String>,
    pub format: Option<String>,
}

/// Parameters of `upload_clipboard_image`.
pub struct UploadClipboardParams {
    pub uploader: Option<String>,
    pub format: Option<String>,
}

/// Parameters of `migrate_markdown_images`.
pub struct MigrateParams {
    pub path: String,
    pub dry_run: Option<bool>,
}

/// Parameters of `list_upload_history`.
pub struct HistoryParams {
    pub uploader: Option<String>,
    pub limit: Option<u32>,
}

/// The MCP server's state.
pub struct ZpicMcpServer {
    pub config: McpConfig,
}

/// `p` lies in `root` or below it, comparing whole components of
/// canonical (absolute, normalized) paths.
pub open spec fn path_within(p: Seq<char>, root: Seq<char>) -> bool {
    p == root || (root.len() > 0 && root.last() == '/' && starts_with(p, root)) || starts_with(
        p,
        root + "/"@,
    )
}

fn within(p: &str, root: &str) -> (r: bool)
    ensures
        r == path_within(p@, root@),
{
    let pc = chars_of(p);
    let rc = chars_of(root);
    if crate::text::chars_eq(&pc, &rc) {
        return true;
    }
    if rc.len() > 0 && rc[rc.len() - 1] == '/' && crate::text::chars_starts_with(&pc, &rc) {
        return true;
    }
    let mut rs = rc;
    rs.push('/');
    proof {
        reveal_strlit("/");
        assert(rs@ =~= root@ + "/"@);
    }
    crate::text::chars_starts_with(&pc, &rs)
}

/// Flags with their values, for the options that are set.
pub open spec fn opt_arg(flag: Seq<char>, value: Option<String>) -> Seq<Seq<char>> {
    match value {
        Some(v) => seq![flag, v@],
        None => seq![],
    }
}

fn push_opt(args: &mut Vec<String>, flag: &str, value: Option<String>)
    ensures
        views(final(args)@) == views(old(args)@) + opt_arg(flag@, value),
{
    match value {
        Some(v) => {
            args.push(own(flag));
            args.push(v);
            proof {
                assert(views(final(args)@) =~= views(old(args)@) + opt_arg(flag@, value));
            }
        },
        None => {
            assert(views(args@) =~= views(old(args)@) + opt_arg(flag@, value));
        },
    }
}

/// The message for a path outside every root.
pub open spec fn outside_message(canonical: Seq<char>, roots: Seq<Seq<char>>) -> Seq<char> {
    "`"@ + canonical + "` is outside the allowed workspace roots ("@ + join_sep(roots, ", "@) + ")"@
}

/// The bytes a size limit in MiB allows (saturating).
pub open spec fn max_bytes(mb: u64) -> nat {
    if mb * 1048576 > u64::MAX {
        u64::MAX as nat
    } else {
        (mb * 1048576) as nat
    }
}

impl ZpicMcpServer {
    pub fn new(config: McpConfig) -> (r: Self)
        ensures
            r.config == config,
    {
        ZpicMcpServer { config }
    }

    /// A canonical path is accepted when it lies within one of the roots,
    /// each as canonicalized (a root that could not be canonicalized is
    /// `None` and admits nothing).
    pub fn check_within_roots(&self, canonical: &str, canonical_roots: &Vec<Option<String>>) -> (r: Result<(), String>)
        ensures
            r is Ok <==> exists|i: int|
                0 <= i < canonical_roots@.len() && (#[trigger] canonical_roots@[i] matches Some(root)
                    && path_within(canonical@, root@)),
            r matches Err(m) ==> m@ == outside_message(canonical@, views(self.config.workspace_roots@)),
    {
        let mut i: usize = 0;
        while i < canonical_roots.len()
            invariant
                i <= canonical_roots.len(),
                forall|j: int|
                    0 <= j < i ==> !(#[trigger] canonical_roots@[j] matches Some(root) && path_within(
                        canonical@,
                        root@,
                    )),
            decreases canonical_roots.len() - i,
        {
            match &canonical_roots[i] {
                Some(root) => {
                    if within(canonical, root.as_str()) {
                        return Ok(());
                    }
                },
                None => {},
            }
            i = i + 1;
        }
        let mut m: Vec<char> = Vec::new();
        push_str(&mut m, "`");
        push_str(&mut m, canonical);
        push_str(&mut m, "` is outside the allowed workspace roots (");
        let joined = join_strings(&self.config.workspace_roots, ", ");
        push_str(&mut m, joined.as_str());
        push_str(&mut m, ")");
        Err(string_of(&m))
    }

    /// A file inside the roots is accepted for upload when its extension
    /// is allowed (ignoring ASCII case) and it is no larger than the limit.
    pub fn check_image(&self, canonical: &str, size: u64) -> (r: Result<(), String>)
        ensures
            r is Ok <==> ((exists|i: int|
                0 <= i < self.config.allowed_extensions@.len() && eq_ic(
                    #[trigger] self.config.allowed_extensions@[i]@,
                    match spec_extension(canonical@) {
                        Some(e) => e,
                        None => seq![],
                    },
                )) && size <= max_bytes(self.config.max_file_size_mb)),
    {
        let ext = match path_extension(canonical) {
            Some(e) => e,
            None => String::new(),
        };
        proof {
            reveal_strlit("");
        }
        let mut i: usize = 0;
        let mut found = false;
        while i < self.config.allowed_extensions.len()
            invariant
                i <= self.config.allowed_extensions@.len(),
                ext@ == match spec_extension(canonical@) {
                    Some(e) => e,
                    None => seq![],
                },
                found == exists|j: int| 0 <= j < i && eq_ic(#[trigger] self.config.allowed_extensions@[j]@, ext@),
            decreases self.config.allowed_extensions.len() - i,
        {
            if str_eq_ic(self.config.allowed_extensions[i].as_str(), ext.as_str()) {
                found = true;
            }
            i = i + 1;
        }
        if !found {
            let mut m: Vec<char> = Vec::new();
            push_str(&mut m, "extension `.");
            push_str(&mut m, ext.as_str());
            push_str(&mut m, "` is not in allowed_extensions (");
            let joined = join_strings(&self.config.allowed_extensions, ", ");
            push_str(&mut m, joined.as_str());
            push_str(&mut m, ")");
            return Err(string_of(&m));
        }
        let limit: u64 = if self.config.max_file_size_mb <= u64::MAX / 1048576 {
            self.config.max_file_size_mb * 1048576
        } else {
            u64::MAX
        };
        if size > limit {
            let mut m: Vec<char> = Vec::new();
            push_str(&mut m, "`");
            push_str(&mut m, canonical);
            push_str(&mut m, "` is ");
            let d = crate::text::dec_chars(size);
            crate::text::push_chars(&mut m, &d);
            push_str(&mut m, " bytes, exceeds max_file_size_mb=");
            let d = crate::text::dec_chars(self.config.max_file_size_mb);
            crate::text::push_chars(&mut m, &d);
            return Err(string_of(&m));
        }
        Ok(())
    }

    /// The command line of `upload_image` for an accepted path.
    pub fn upload_image_args(&self, path: &str, params: UploadImageParams) -> (r: Vec<String>)
        ensures
            views(r@) == seq!["upload"@, path@, "--json"@] + opt_arg("--uploader"@, params.uploader)
                + opt_arg("--format"@, params.format),
    {
        let mut args = vec![own("upload"), own(path), own("--json")];
        proof {
            assert(views(args@) =~= seq!["upload"@, path@, "--json"@]);
        }
        push_opt(&mut args, "--uploader", params.uploader);
        push_opt(&mut args, "--format", params.format);
        args
    }

    /// The command line of `upload_clipboard_image`, refused unless the
    /// configuration allows clipboard uploads.
    pub fn upload_clipboard_args(&self, params: UploadClipboardParams) -> (r: Result<Vec<String>, String>)
        ensures
            !self.config.allow_clipboard ==> (r matches Err(m) && m@
                == "clipboard uploads are disabled; set `allow_clipboard = true` in the zpic-mcp config to enable them"@),
            self.config.allow_clipboard ==> (r matches Ok(a) && views(a@) == seq![
                "upload"@,
                "--clipboard"@,
                "--json"@,
            ] + opt_arg("--uploader"@, params.uploader) + opt_arg("--format"@, params.format)),
    {
        if !self.config.allow_clipboard {
            return Err(
                own(
                    "clipboard uploads are disabled; set `allow_clipboard = true` in the zpic-mcp config to enable them",
                ),
            );
        }
        let mut args = vec![own("upload"), own("--clipboard"), own("--json")];
        proof {
            assert(views(args@) =~= seq!["upload"@, "--clipboard"@, "--json"@]);
        }
        push_opt(&mut args, "--uploader", params.uploader);
        push_opt(&mut args, "--format", params.format);
        Ok(args)
    }

    /// Whether a migration only reports: always, unless writes are allowed
    /// and the caller asked for a real run.
    pub fn effective_dry_run(&self, requested: Option<bool>) -> (r: bool)
        ensures
            !self.config.allow_migrate_write ==> r,
            self.config.allow_migrate_write ==> r == match requested {
                Some(d) => d,
                None => false,
            },
    {
        if self.config.allow_migrate_write {
            match requested {
                Some(d) => d,
                None => false,
            }
        } else {
            true
        }
    }

    /// The command line of `migrate_markdown_images` for an accepted path.
    pub fn migrate_args(&self, path: &str, params: &MigrateParams) -> (r: Vec<String>)
        ensures
            views(r@) == seq!["migrate"@, path@, "--json"@] + if !self.config.allow_migrate_write
                || params.dry_run == Some(true) {
                seq!["--dry-run"@]
            } else {
                seq![]
            },
    {
        let mut args = vec![own("migrate"), own(path), own("--json")];
        if self.effective_dry_run(params.dry_run) {
            args.push(own("--dry-run"));
        }
        proof {
            assert(views(args@) =~= seq!["migrate"@, path@, "--json"@] + if !self.config.allow_migrate_write
                || params.dry_run == Some(true) {
                seq!["--dry-run"@]
            } else {
                seq![]
            });
        }
        args
    }

    /// The command line of `list_upload_history`.
    pub fn history_args(&self, params: HistoryParams) -> (r: Vec<String>)
        ensures
            views(r@) == seq!["history"@, "list"@, "--json"@] + opt_arg("--uploader"@, params.uploader)
                + match params.limit {
                Some(n) => seq!["--limit"@, crate::text::dec(n as nat)],
                None => seq![],
            },
    {
        let mut args = vec![own("history"), own("list"), own("--json")];
        proof {
            assert(views(args@) =~= seq!["history"@, "list"@, "--json"@]);
        }
        push_opt(&mut args, "--uploader", params.uploader);
        let limit = match params.limit {
            Some(n) => Some(string_of(&crate::text::dec_chars(n as u64))),
            None => None,
        };
        push_opt(&mut args, "--limit", limit);
        args
    }

    /// The command line of `list_uploaders`.
    pub fn list_uploaders_args(&self) -> (r: Vec<String>)
        ensures
            views(r@) == seq!["uploader"@, "list"@, "--json"@],
    {
        let args = vec![own("uploader"), own("list"), own("--json")];
        assert(views(args@) =~= seq!["uploader"@, "list"@, "--json"@]);
        args
    }

    /// The command line of `doctor`.
    pub fn doctor_args(&self) -> (r: Vec<String>)
        ensures
            views(r@) == seq!["doctor"@, "--json"@],
    {
        let args = vec![own("doctor"), own("--json")];
        assert(views(args@) =~= seq!["doctor"@, "--json"@]);
        args
    }
}

} // verus!
