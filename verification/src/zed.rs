//! `zpic zed init`: the project-local Zed integration files, the tasks
//! they define, and when an existing setup is left alone. Writing the
//! files happens outside the library.

use vstd::prelude::*;

use crate::error::{error_view, ErrorKind, ZpicError};
use crate::local::{path_join, spec_path_join};
use crate::text::{own, push_str, string_of, views};

verus! {

/// The shell the helper scripts are written for.
#[derive(Clone, Copy, PartialEq, Eq, Structural, Debug)]
pub enum ShellKind {
    Posix,
    PowerShell,
}

/// A Zed task. The fields every zpic task shares (`cwd` is the worktree
/// root, no new terminal, concurrent runs allowed, summary hidden, command
/// shown) are fixed and not stored.
pub struct ZedTask {
    pub label: String,
    pub command: String,
    pub args: Vec<String>,
    pub reveal: String,
    pub hide: String,
    pub save: String,
    /// `ZPIC_BIN` in the task's environment, when a binary was named.
    pub zpic_bin_env: Option<String>,
}

/// The files `zpic zed init` writes under `.zed`.
pub struct ZedFiles {
    pub tasks: String,
    pub keymap_example: String,
    pub readme: String,
    pub upload_script: String,
    pub migrate_script: String,
}

/// A task as a value: label, command, arguments, reveal, hide, save.
pub open spec fn task_view(t: ZedTask) -> (Seq<char>, Seq<char>, Seq<Seq<char>>, Seq<char>, Seq<char>, Seq<char>) {
    (t.label@, t.command@, views(t.args@), t.reveal@, t.hide@, t.save@)
}

pub open spec fn spec_upload_script_name(s: ShellKind) -> Seq<char> {
    match s {
        ShellKind::Posix => "zpic-upload-from-clipboard.sh"@,
        ShellKind::PowerShell => "zpic-upload-from-clipboard.ps1"@,
    }
}

pub open spec fn spec_migrate_script_name(s: ShellKind) -> Seq<char> {
    match s {
        ShellKind::Posix => "zpic-migrate-current-file.sh"@,
        ShellKind::PowerShell => "zpic-migrate-current-file.ps1"@,
    }
}

/// The task that runs a helper script: directly on POSIX shells, through
/// `powershell -File` on Windows.
pub open spec fn script_task(s: ShellKind, label: Seq<char>, script: Seq<char>, args: Seq<Seq<char>>, reveal: Seq<char>, hide: Seq<char>) -> (Seq<char>, Seq<char>, Seq<Seq<char>>, Seq<char>, Seq<char>, Seq<char>) {
    match s {
        ShellKind::Posix => (label, ".zed/"@ + script, args, reveal, hide, "current"@),
        ShellKind::PowerShell => (
            label,
            "powershell"@,
            seq!["-NoProfile"@, "-ExecutionPolicy"@, "Bypass"@, "-File"@, ".zed\\"@ + script] + args,
            reveal,
            hide,
            "current"@,
        ),
    }
}

fn task(label: &str, command: String, args: Vec<String>, save: &str, reveal: &str, hide: &str) -> (r: ZedTask)
    ensures
        r.label@ == label@,
        r.command == command,
        r.args == args,
        r.save@ == save@,
        r.reveal@ == reveal@,
        r.hide@ == hide@,
        r.zpic_bin_env is None,
{
    ZedTask {
        label: own(label),
        command,
        args,
        reveal: own(reveal),
        hide: own(hide),
        save: own(save),
        zpic_bin_env: None,
    }
}

fn joined(a: &str, b: &str) -> (r: String)
    ensures
        r@ == a@ + b@,
{
    let mut v: Vec<char> = Vec::new();
    push_str(&mut v, a);
    push_str(&mut v, b);
    string_of(&v)
}

fn script_task_exec(shell: ShellKind, label: &str, script: &str, args: Vec<String>, reveal: &str, hide: &str) -> (r: ZedTask)
    ensures
        task_view(r) == script_task(shell, label@, script@, views(args@), reveal@, hide@),
        r.zpic_bin_env is None,
{
    match shell {
        ShellKind::Posix => task(label, joined(".zed/", script), args, "current", reveal, hide),
        ShellKind::PowerShell => {
            let mut a: Vec<String> = vec![own("-NoProfile"), own("-ExecutionPolicy"), own("Bypass"), own("-File"), joined(".zed\\", script)];
            let ghost head = views(a@);
            proof {
                assert(head =~= seq!["-NoProfile"@, "-ExecutionPolicy"@, "Bypass"@, "-File"@, ".zed\\"@ + script@]);
            }
            let mut i: usize = 0;
            while i < args.len()
                invariant
                    i <= args@.len(),
                    views(a@) == head + views(args@).subrange(0, i as int),
                decreases args@.len() - i,
            {
                crate::text::push_string(&mut a, own(args[i].as_str()));
                proof {
                    assert(views(a@) =~= head + views(args@).subrange(0, i + 1));
                }
                i = i + 1;
            }
            proof {
                assert(views(args@).subrange(0, args@.len() as int) =~= views(args@));
            }
            task(label, own("powershell"), a, "current", reveal, hide)
        },
    }
}

impl ShellKind {
    /// The shell of the platform: PowerShell on Windows, else POSIX.
    pub fn current(is_windows: bool) -> (r: Self)
        ensures
            r == (if is_windows { ShellKind::PowerShell } else { ShellKind::Posix }),
    {
        if is_windows {
            ShellKind::PowerShell
        } else {
            ShellKind::Posix
        }
    }

    pub fn as_str(&self) -> (r: &'static str)
        ensures
            r@ == match *self {
                ShellKind::Posix => "posix"@,
                ShellKind::PowerShell => "powershell"@,
            },
    {
        match self {
            ShellKind::Posix => "posix",
            ShellKind::PowerShell => "powershell",
        }
    }

    pub fn upload_script_name(&self) -> (r: &'static str)
        ensures
            r@ == spec_upload_script_name(*self),
    {
        match self {
            ShellKind::Posix => "zpic-upload-from-clipboard.sh",
            ShellKind::PowerShell => "zpic-upload-from-clipboard.ps1",
        }
    }

    pub fn migrate_script_name(&self) -> (r: &'static str)
        ensures
            r@ == spec_migrate_script_name(*self),
    {
        match self {
            ShellKind::Posix => "zpic-migrate-current-file.sh",
            ShellKind::PowerShell => "zpic-migrate-current-file.ps1",
        }
    }

    /// The files written under a `.zed` directory.
    pub fn files(&self, zed_dir: &str) -> (r: ZedFiles)
        ensures
            r.tasks@ == spec_path_join(zed_dir@, "tasks.json"@),
            r.keymap_example@ == spec_path_join(zed_dir@, "zpic-keymap.json.example"@),
            r.readme@ == spec_path_join(zed_dir@, "zpic-README.md"@),
            r.upload_script@ == spec_path_join(zed_dir@, spec_upload_script_name(*self)),
            r.migrate_script@ == spec_path_join(zed_dir@, spec_migrate_script_name(*self)),
    {
        ZedFiles {
            tasks: path_join(zed_dir, "tasks.json"),
            keymap_example: path_join(zed_dir, "zpic-keymap.json.example"),
            readme: path_join(zed_dir, "zpic-README.md"),
            upload_script: path_join(zed_dir, self.upload_script_name()),
            migrate_script: path_join(zed_dir, self.migrate_script_name()),
        }
    }

    /// The task uploading the clipboard in a format.
    pub fn upload_task(&self, label: &str, format: &str) -> (r: ZedTask)
        ensures
            task_view(r) == script_task(
                *self,
                label@,
                spec_upload_script_name(*self),
                seq![format@, "${ZED_SELECTED_TEXT:}"@],
                "no_focus"@,
                "on_success"@,
            ),
            r.zpic_bin_env is None,
    {
        let args = vec![own(format), own("${ZED_SELECTED_TEXT:}")];
        proof {
            assert(views(args@) =~= seq![format@, "${ZED_SELECTED_TEXT:}"@]);
        }
        script_task_exec(*self, label, self.upload_script_name(), args, "no_focus", "on_success")
    }

    /// The task migrating the current Markdown file.
    pub fn migrate_task(&self) -> (r: ZedTask)
        ensures
            task_view(r) == script_task(
                *self,
                "zpic: migrate current markdown file"@,
                spec_migrate_script_name(*self),
                seq!["$ZED_FILE"@],
                "always"@,
                "never"@,
            ),
            r.zpic_bin_env is None,
    {
        let args = vec![own("$ZED_FILE")];
        proof {
            assert(views(args@) =~= seq!["$ZED_FILE"@]);
        }
        script_task_exec(*self, "zpic: migrate current markdown file", self.migrate_script_name(), args, "always", "never")
    }
}

/// A task running `zpic` directly.
pub fn simple_task(label: &str, command: &str, args: Vec<String>) -> (r: ZedTask)
    ensures
        task_view(r) == (label@, command@, views(args@), "always"@, "never"@, "none"@),
        r.zpic_bin_env is None,
{
    task(label, own(command), args, "none", "always", "never")
}

/// The five tasks of `tasks.json`: upload as Markdown, upload as URL,
/// migrate, doctor and uploader list; with a named binary, each carries it
/// as `ZPIC_BIN` and the direct ones run it.
pub fn render_tasks(shell: ShellKind, zpic_bin: Option<&str>) -> (r: Vec<ZedTask>)
    ensures
        r@.len() == 5,
        task_view(r@[0]) == script_task(
            shell,
            "zpic: upload clipboard as markdown"@,
            spec_upload_script_name(shell),
            seq!["markdown"@, "${ZED_SELECTED_TEXT:}"@],
            "no_focus"@,
            "on_success"@,
        ),
        task_view(r@[1]) == script_task(
            shell,
            "zpic: upload clipboard as url"@,
            spec_upload_script_name(shell),
            seq!["url"@, "${ZED_SELECTED_TEXT:}"@],
            "no_focus"@,
            "on_success"@,
        ),
        task_view(r@[2]) == script_task(
            shell,
            "zpic: migrate current markdown file"@,
            spec_migrate_script_name(shell),
            seq!["$ZED_FILE"@],
            "always"@,
            "never"@,
        ),
        task_view(r@[3]) == ("zpic: doctor"@, match zpic_bin {
            Some(b) => b@,
            None => "zpic"@,
        }, seq!["doctor"@], "always"@, "never"@, "none"@),
        task_view(r@[4]) == ("zpic: uploader list"@, match zpic_bin {
            Some(b) => b@,
            None => "zpic"@,
        }, seq!["uploader"@, "list"@], "always"@, "never"@, "none"@),
        forall|i: int|
            0 <= i < 5 ==> crate::text::opt_view((#[trigger] r@[i]).zpic_bin_env) == match zpic_bin {
                Some(b) => Some(b@),
                None => None,
            },
{
    let command = match zpic_bin {
        Some(b) => b,
        None => "zpic",
    };
    let mut t0 = shell.upload_task("zpic: upload clipboard as markdown", "markdown");
    let mut t1 = shell.upload_task("zpic: upload clipboard as url", "url");
    let mut t2 = shell.migrate_task();
    let a3 = vec![own("doctor")];
    proof {
        assert(views(a3@) =~= seq!["doctor"@]);
    }
    let mut t3 = simple_task("zpic: doctor", command, a3);
    let a4 = vec![own("uploader"), own("list")];
    proof {
        assert(views(a4@) =~= seq!["uploader"@, "list"@]);
    }
    let mut t4 = simple_task("zpic: uploader list", command, a4);
    match zpic_bin {
        Some(b) => {
            t0.zpic_bin_env = Some(own(b));
            t1.zpic_bin_env = Some(own(b));
            t2.zpic_bin_env = Some(own(b));
            t3.zpic_bin_env = Some(own(b));
            t4.zpic_bin_env = Some(own(b));
        },
        None => {},
    }
    vec![t0, t1, t2, t3, t4]
}

/// The README written beside the tasks.
pub open spec fn spec_readme(shell: ShellKind) -> Seq<char> {
    "# zpic Zed Tasks\n\nThese files were generated by `zpic zed init`.\n\nAvailable tasks:\n- `zpic: upload clipboard as markdown` uploads the current clipboard image and copies Markdown output.\n- `zpic: upload clipboard as url` uploads the current clipboard image and copies the raw URL.\n- `zpic: migrate current markdown file` rewrites local image links in the active file.\n- `zpic: doctor` runs local diagnostics.\n- `zpic: uploader list` shows configured uploaders.\n\nFiles generated for this platform:\n- `"@
        + spec_upload_script_name(shell) + "`\n- `"@ + spec_migrate_script_name(shell)
        + "`\n\nIf you want keyboard shortcuts, open Zed's global keymap file with `zed: open keymap file`\nand merge in the bindings from `.zed/zpic-keymap.json.example`.\n"@
}

/// The README text, as `spec_readme` states it.
pub fn render_readme(shell: ShellKind) -> (r: String)
    ensures
        r@ == spec_readme(shell),
{
    let mut v: Vec<char> = Vec::new();
    push_str(
        &mut v,
        "# zpic Zed Tasks\n\nThese files were generated by `zpic zed init`.\n\nAvailable tasks:\n- `zpic: upload clipboard as markdown` uploads the current clipboard image and copies Markdown output.\n- `zpic: upload clipboard as url` uploads the current clipboard image and copies the raw URL.\n- `zpic: migrate current markdown file` rewrites local image links in the active file.\n- `zpic: doctor` runs local diagnostics.\n- `zpic: uploader list` shows configured uploaders.\n\nFiles generated for this platform:\n- `",
    );
    push_str(&mut v, shell.upload_script_name());
    push_str(&mut v, "`\n- `");
    push_str(&mut v, shell.migrate_script_name());
    push_str(
        &mut v,
        "`\n\nIf you want keyboard shortcuts, open Zed's global keymap file with `zed: open keymap file`\nand merge in the bindings from `.zed/zpic-keymap.json.example`.\n",
    );
    string_of(&v)
}

/// The files in the order they are reported (sorted by file name within
/// `.zed`): tasks, README, keymap example, migrate script, upload script.
pub fn planned_paths(files: &ZedFiles) -> (r: Vec<String>)
    ensures
        views(r@) == seq![
            files.tasks@,
            files.readme@,
            files.keymap_example@,
            files.migrate_script@,
            files.upload_script@,
        ],
{
    let r = vec![
        own(files.tasks.as_str()),
        own(files.readme.as_str()),
        own(files.keymap_example.as_str()),
        own(files.migrate_script.as_str()),
        own(files.upload_script.as_str()),
    ];
    assert(views(r@) =~= seq![
        files.tasks@,
        files.readme@,
        files.keymap_example@,
        files.migrate_script@,
        files.upload_script@,
    ]);
    r
}

/// Whether `zpic zed init` may write: the project root must exist and be a
/// directory, and without `--force` none of the files may exist yet (the
/// first existing one is named).
pub fn init_refusal(project_root: &str, root_exists: bool, root_is_dir: bool, planned: &Vec<String>, exists: &Vec<bool>, force: bool) -> (r: Result<(), ZpicError>)
    requires
        planned@.len() == exists@.len(),
    ensures
        !root_exists ==> (r matches Err(e) && error_view(e) == (ErrorKind::InvalidArgument, "project root does not exist: "@ + project_root@)),
        root_exists && !root_is_dir ==> (r matches Err(e) && error_view(e) == (ErrorKind::InvalidArgument, "project root is not a directory: "@ + project_root@)),
        root_exists && root_is_dir ==> (r is Ok <==> (force || forall|i: int| 0 <= i < exists@.len() ==> !#[trigger] exists@[i])),
        root_exists && root_is_dir && r is Err ==> exists|i: int| {
            &&& 0 <= i < exists@.len()
            &&& #[trigger] exists@[i]
            &&& (forall|j: int| 0 <= j < i ==> !exists@[j])
            &&& r matches Err(e) && error_view(e) == (
                ErrorKind::ConfigInvalid,
                "refusing to overwrite existing file "@ + planned@[i]@
                    + "; pass --force to overwrite zpic-managed Zed files"@,
            )
        },
{
    if !root_exists {
        return Err(ZpicError::InvalidArgument(joined("project root does not exist: ", project_root)));
    }
    if !root_is_dir {
        return Err(ZpicError::InvalidArgument(joined("project root is not a directory: ", project_root)));
    }
    if force {
        return Ok(());
    }
    let mut i: usize = 0;
    while i < exists.len()
        invariant
            i <= exists@.len(),
            planned@.len() == exists@.len(),
            root_exists && root_is_dir && !force,
            forall|j: int| 0 <= j < i ==> !exists@[j],
        decreases exists@.len() - i,
    {
        if exists[i] {
            let mut m: Vec<char> = Vec::new();
            push_str(&mut m, "refusing to overwrite existing file ");
            push_str(&mut m, planned[i].as_str());
            push_str(&mut m, "; pass --force to overwrite zpic-managed Zed files");
            let e = ZpicError::ConfigInvalid(string_of(&m));
            assert(error_view(e) == (
                ErrorKind::ConfigInvalid,
                "refusing to overwrite existing file "@ + planned@[i as int]@
                    + "; pass --force to overwrite zpic-managed Zed files"@,
            ));
            return Err(e);
        }
        i = i + 1;
    }
    Ok(())
}

} // verus!
