//! The Zed assistant's slash commands: what each one runs and how the
//! `zpic` process's result becomes the command's output. Running the
//! process happens in the editor host.

use vstd::prelude::*;

use crate::server::{spec_utf8_lossy, utf8_lossy};
use crate::text::{own, push_str, string_of, trim, trim_str, views};

verus! {

/// One argument completion offered for a slash command.
pub struct SlashCompletion {
    pub label: String,
    pub new_text: String,
    /// Run the command right after completing.
    pub run_command: bool,
}

/// The Zed assistant extension.
pub struct ZpicAssistantExtension;

/// The completions of each command, as (text, runs immediately).
pub open spec fn spec_completions(command: Seq<char>) -> Option<Seq<(Seq<char>, bool)>> {
    if command == "zpic-upload"@ {
        Some(seq![
            ("--format markdown"@, false),
            ("--format url"@, false),
            ("--format html"@, false),
            ("--dry-run"@, true),
        ])
    } else if command == "zpic-history"@ {
        Some(seq![
            ("--limit 20"@, true),
            ("--uploader local"@, true),
            ("--uploader github"@, true),
            ("--uploader s3"@, true),
        ])
    } else if command == "zpic-uploader-list"@ {
        Some(seq![("local"@, true), ("github"@, true), ("s3"@, true)])
    } else if command == "zpic-doctor"@ {
        Some(seq![])
    } else {
        None
    }
}

/// The message for a command the extension does not know.
pub open spec fn unknown_command(command: Seq<char>) -> Seq<char> {
    "unknown slash command: \""@ + command + "\""@
}

/// A completion as a value.
pub open spec fn completion_view(c: SlashCompletion) -> (Seq<char>, bool) {
    (c.new_text@, c.run_command)
}

fn completion(new_text: &str, run_command: bool) -> (r: SlashCompletion)
    ensures
        r.label@ == new_text@,
        completion_view(r) == (new_text@, run_command),
{
    SlashCompletion { label: own(new_text), new_text: own(new_text), run_command }
}

fn unknown(command: &str) -> (r: String)
    ensures
        r@ == unknown_command(command@),
{
    let mut m: Vec<char> = Vec::new();
    push_str(&mut m, "unknown slash command: \"");
    push_str(&mut m, command);
    push_str(&mut m, "\"");
    string_of(&m)
}

/// The `zpic` arguments and output label of each command.
pub open spec fn spec_command_plan(command: Seq<char>, args: Seq<Seq<char>>) -> Option<(Seq<char>, Seq<Seq<char>>)> {
    if command == "zpic-upload"@ {
        Some(("zpic upload --clipboard"@, seq!["upload"@, "--clipboard"@] + args))
    } else if command == "zpic-doctor"@ {
        Some(("zpic doctor"@, seq!["doctor"@] + args))
    } else if command == "zpic-history"@ {
        Some(("zpic history list"@, seq!["history"@, "list"@] + args))
    } else if command == "zpic-uploader-list"@ {
        Some(("zpic uploader list"@, seq!["uploader"@, "list"@] + args))
    } else {
        None
    }
}

/// The output text of a finished `zpic` run (stdout and stderr decoded
/// lossily and trimmed), or the error message.
pub open spec fn spec_run_result(status: Option<i32>, stdout: Seq<char>, stderr: Seq<char>) -> Result<Seq<char>, Seq<char>> {
    match status {
        Some(code) => if code == 0 {
            if stdout.len() == 0 && stderr.len() == 0 {
                Ok("zpic command finished successfully with no output."@)
            } else if stderr.len() == 0 {
                Ok(stdout)
            } else if stdout.len() == 0 {
                Ok(stderr)
            } else {
                Ok(stdout + "\n\nstderr:\n"@ + stderr)
            }
        } else if stderr.len() > 0 {
            Err(stderr)
        } else if stdout.len() > 0 {
            Err(stdout)
        } else {
            Err("zpic exited with status code "@ + crate::fields::idec(code as int))
        },
        None => if stderr.len() > 0 {
            Err(stderr)
        } else {
            Err("zpic terminated unexpectedly"@)
        },
    }
}

fn push_all(out: &mut Vec<String>, args: Vec<String>)
    ensures
        views(final(out)@) == views(old(out)@) + views(args@),
{
    let mut i: usize = 0;
    let ghost start = views(out@);
    let ghost n0 = out@.len();
    while i < args.len()
        invariant
            i <= args.len(),
            out@.len() == n0 + i,
            start.len() == n0,
            views(out@) == start + views(args@).subrange(0, i as int),
        decreases args.len() - i,
    {
        let ghost old_out = out@;
        let kk = own(args[i].as_str());
        out.push(kk);
        proof {
            assert(out@ == old_out.push(kk));
            assert(views(out@)[n0 + i] == kk@);
            assert(kk@ == views(args@)[i as int]);
            let want = start + views(args@).subrange(0, i + 1);
            assert(views(out@).len() == want.len());
            assert forall|j: int| 0 <= j < want.len() implies views(out@)[j] == want[j] by {
                if j < n0 + i {
                    assert(views(out@)[j] == views(old_out)[j]);
                    assert(views(old_out)[j] == (start + views(args@).subrange(0, i as int))[j]);
                }
            }
            assert(views(out@) =~= want);
        }
        i = i + 1;
    }
    assert(views(args@).subrange(0, args.len() as int) =~= views(args@));
}

impl ZpicAssistantExtension {
    pub fn new() -> (r: Self) {
        ZpicAssistantExtension
    }

    /// The argument completions a command offers.
    pub fn complete_slash_command_argument(&self, command: &str) -> (r: Result<Vec<SlashCompletion>, String>)
        ensures
            match spec_completions(command@) {
                Some(cs) => r matches Ok(v) && v@.map_values(|c: SlashCompletion| completion_view(c)) == cs,
                None => r matches Err(m) && m@ == unknown_command(command@),
            },
    {
        let v = if crate::text::str_eq(command, "zpic-upload") {
            vec![
                completion("--format markdown", false),
                completion("--format url", false),
                completion("--format html", false),
                completion("--dry-run", true),
            ]
        } else if crate::text::str_eq(command, "zpic-history") {
            vec![
                completion("--limit 20", true),
                completion("--uploader local", true),
                completion("--uploader github", true),
                completion("--uploader s3", true),
            ]
        } else if crate::text::str_eq(command, "zpic-uploader-list") {
            vec![completion("local", true), completion("github", true), completion("s3", true)]
        } else if crate::text::str_eq(command, "zpic-doctor") {
            Vec::new()
        } else {
            return Err(unknown(command));
        };
        proof {
            let cs = spec_completions(command@).unwrap();
            assert(v@.map_values(|c: SlashCompletion| completion_view(c)) =~= cs);
        }
        Ok(v)
    }

    /// The label and `zpic` arguments a command runs with.
    pub fn slash_command_plan(&self, command: &str, args: Vec<String>) -> (r: Result<(String, Vec<String>), String>)
        ensures
            match spec_command_plan(command@, views(args@)) {
                Some((label, a)) => r matches Ok((l, v)) && l@ == label && views(v@) == a,
                None => r matches Err(m) && m@ == unknown_command(command@),
            },
    {
        let (label, mut v) = if crate::text::str_eq(command, "zpic-upload") {
            (own("zpic upload --clipboard"), vec![own("upload"), own("--clipboard")])
        } else if crate::text::str_eq(command, "zpic-doctor") {
            (own("zpic doctor"), vec![own("doctor")])
        } else if crate::text::str_eq(command, "zpic-history") {
            (own("zpic history list"), vec![own("history"), own("list")])
        } else if crate::text::str_eq(command, "zpic-uploader-list") {
            (own("zpic uploader list"), vec![own("uploader"), own("list")])
        } else {
            return Err(unknown(command));
        };
        let ghost head = views(v@);
        push_all(&mut v, args);
        proof {
            let plan = spec_command_plan(command@, views(args@)).unwrap();
            assert(head =~= plan.1.subrange(0, head.len() as int));
            assert(views(v@) =~= plan.1);
        }
        Ok((label, v))
    }

    /// The output of a finished `zpic` run, as `spec_run_result` states it.
    pub fn run_result(&self, status: Option<i32>, stdout: &[u8], stderr: &[u8]) -> (r: Result<String, String>)
        ensures
            match spec_run_result(status, trim(spec_utf8_lossy(stdout@)), trim(spec_utf8_lossy(stderr@))) {
                Ok(t) => r matches Ok(s) && s@ == t,
                Err(t) => r matches Err(s) && s@ == t,
            },
    {
        let out_raw = utf8_lossy(stdout);
        let err_raw = utf8_lossy(stderr);
        let out = trim_str(out_raw.as_str());
        let err = trim_str(err_raw.as_str());
        let out_empty = out.as_str().unicode_len() == 0;
        let err_empty = err.as_str().unicode_len() == 0;
        match status {
            Some(code) => if code == 0 {
                if out_empty && err_empty {
                    Ok(own("zpic command finished successfully with no output."))
                } else if err_empty {
                    Ok(out)
                } else if out_empty {
                    Ok(err)
                } else {
                    let mut m: Vec<char> = Vec::new();
                    push_str(&mut m, out.as_str());
                    push_str(&mut m, "\n\nstderr:\n");
                    push_str(&mut m, err.as_str());
                    Ok(string_of(&m))
                }
            } else if !err_empty {
                Err(err)
            } else if !out_empty {
                Err(out)
            } else {
                let mut m: Vec<char> = Vec::new();
                push_str(&mut m, "zpic exited with status code ");
                let d = crate::fields::FieldValue::Integer(code as i64).text();
                push_str(&mut m, d.as_str());
                Err(string_of(&m))
            },
            None => if !err_empty {
                Err(err)
            } else {
                Err(own("zpic terminated unexpectedly"))
            },
        }
    }

    /// Whether `zpic` can be run: always without a worktree, else when the
    /// worktree's shell finds it.
    pub fn ensure_zpic_available(&self, has_worktree: bool, zpic_on_path: bool) -> (r: Result<(), String>)
        ensures
            r is Ok <==> (!has_worktree || zpic_on_path),
            r matches Err(m) ==> m@
                == "could not find `zpic` on your PATH. Install it first, then restart Zed from that shell."@,
    {
        if !has_worktree || zpic_on_path {
            Ok(())
        } else {
            Err(
                own(
                    "could not find `zpic` on your PATH. Install it first, then restart Zed from that shell.",
                ),
            )
        }
    }
}

} // verus!
