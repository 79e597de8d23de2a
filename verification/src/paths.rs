//! `/`-separated paths: their last component and extension, and the places
//! where zpic and PicGo keep their configuration files.

use vstd::prelude::*;

use crate::local::{path_join, spec_path_join};
use crate::text::{
    chars_of, chars_rfind, find_last, lemma_find_last, slice_chars, str_eq, string_of, strip_end,
    strip_end_chars,
};

verus! {

/// The last component of a path, trailing separators ignored.
pub open spec fn last_component(path: Seq<char>) -> Seq<char> {
    let p = strip_end(path, '/');
    match find_last(p, '/') {
        Some(i) => p.subrange(i + 1, p.len() as int),
        None => p,
    }
}

/// What precedes the last component, trailing separators removed.
pub open spec fn parent_part(path: Seq<char>) -> Seq<char> {
    let p = strip_end(path, '/');
    match find_last(p, '/') {
        Some(i) => strip_end(p.subrange(0, i), '/'),
        None => seq![],
    }
}

/// The file name of a path, as `Path::file_name` reads a path without `.`
/// components: its last component, none for an empty path and `..`.
pub open spec fn spec_file_name(path: Seq<char>) -> Option<Seq<char>> {
    let n = last_component(path);
    if n.len() == 0 || n == "."@ || n == ".."@ {
        None
    } else {
        Some(n)
    }
}

/// The extension of a path's file name, as `Path::extension` reads it: the
/// text after the last `.` of the last component, unless that `.` starts
/// the name; none for `.` and `..`.
pub open spec fn spec_extension(path: Seq<char>) -> Option<Seq<char>> {
    let name = last_component(path);
    if name == "."@ || name == ".."@ {
        None
    } else {
        match find_last(name, '.') {
            Some(i) => if i > 0 {
                Some(name.subrange(i + 1, name.len() as int))
            } else {
                None
            },
            None => None,
        }
    }
}

fn split_last(path: &str) -> (r: (Vec<char>, Vec<char>))
    ensures
        r.0@ == parent_part(path@),
        r.1@ == last_component(path@),
{
    let pc = chars_of(path);
    let p = strip_end_chars(&pc, '/');
    proof {
        lemma_find_last(strip_end(path@, '/'), '/');
    }
    match chars_rfind(&p, '/') {
        Some(i) => {
            let head = slice_chars(&p, 0, i);
            (strip_end_chars(&head, '/'), slice_chars(&p, i + 1, p.len()))
        },
        None => (Vec::new(), p),
    }
}

/// The last component of a path.
pub fn path_last_component(path: &str) -> (r: String)
    ensures
        r@ == last_component(path@),
{
    let (_, name) = split_last(path);
    string_of(&name)
}

/// What precedes the last component of a path.
pub fn path_parent_part(path: &str) -> (r: String)
    ensures
        r@ == parent_part(path@),
{
    let (head, _) = split_last(path);
    string_of(&head)
}

/// The file name of a path, as `spec_file_name` states it.
pub fn path_file_name(path: &str) -> (r: Option<String>)
    ensures
        match r {
            Some(n) => spec_file_name(path@) == Some(n@),
            None => spec_file_name(path@) is None,
        },
{
    let n = path_last_component(path);
    if n.as_str().unicode_len() == 0 || str_eq(n.as_str(), ".") || str_eq(n.as_str(), "..") {
        None
    } else {
        Some(n)
    }
}

/// The extension of a path, as `spec_extension` states it.
pub fn path_extension(path: &str) -> (r: Option<String>)
    ensures
        match r {
            Some(e) => spec_extension(path@) == Some(e@),
            None => spec_extension(path@) is None,
        },
{
    let (_, name) = split_last(path);
    let ns = string_of(&name);
    if str_eq(ns.as_str(), ".") || str_eq(ns.as_str(), "..") {
        return None;
    }
    proof {
        lemma_find_last(name@, '.');
    }
    match chars_rfind(&name, '.') {
        Some(i) => if i > 0 {
            Some(string_of(&slice_chars(&name, i + 1, name.len())))
        } else {
            None
        },
        None => None,
    }
}

// ------------------------------------------------------------------
// Configuration file locations
// ------------------------------------------------------------------

/// The user's zpic configuration directory.
///
/// Calls `directories::ProjectDirs::from("io", "zpic", "zpic")` and reads
/// its `config_dir`. The answer depends on the machine and the user
/// (`$XDG_CONFIG_HOME`, the home directory, the platform), so nothing is
/// stated of it; it is `None` where no home directory is known.
#[verifier::external_body]
fn project_config_dir() -> (r: Option<String>) {
    directories::ProjectDirs::from("io", "zpic", "zpic").map(
        |d| d.config_dir().to_string_lossy().into_owned(),
    )
}

/// The user's zpic configuration directory (`~/.config/zpic` on Linux),
/// or `None` where the platform knows no home directory. It depends on
/// the machine and the user, so nothing more is stated.
pub fn user_config_dir() -> (r: Option<String>) {
    project_config_dir()
}

/// The global zpic config file inside a configuration directory.
pub fn default_zpic_config(config_dir: &str) -> (r: String)
    ensures
        r@ == spec_path_join(config_dir@, "config.toml"@),
{
    path_join(config_dir, "config.toml")
}

/// The global zpic config file of this user (`~/.config/zpic/config.toml`
/// on Linux, `~/Library/Application Support/zpic/config.toml` on macOS),
/// when the platform knows a home directory.
pub fn user_zpic_config() -> (r: Option<String>)
    ensures
        r matches Some(p) ==> exists|d: Seq<char>| p@ == #[trigger] spec_path_join(d, "config.toml"@),
{
    match user_config_dir() {
        Some(d) => Some(default_zpic_config(d.as_str())),
        None => None,
    }
}

/// The zpic config files considered when no explicit path is given, in
/// priority order: the project's `.zpic/config.toml` under the working
/// directory, then the user's global file.
pub open spec fn spec_zpic_candidates(cwd: Option<Seq<char>>, config_dir: Seq<char>) -> Seq<Seq<char>> {
    let user = spec_path_join(config_dir, "config.toml"@);
    match cwd {
        Some(c) => seq![spec_path_join(spec_path_join(c, ".zpic"@), "config.toml"@), user],
        None => seq![user],
    }
}

/// The zpic config candidates, as `spec_zpic_candidates` lists them.
pub fn candidate_zpic_paths(cwd: Option<&str>, config_dir: &str) -> (r: Vec<String>)
    ensures
        crate::text::views(r@) == spec_zpic_candidates(
            match cwd {
                Some(c) => Some(c@),
                None => None,
            },
            config_dir@,
        ),
{
    let mut out: Vec<String> = Vec::new();
    match cwd {
        Some(c) => {
            let d = path_join(c, ".zpic");
            out.push(path_join(d.as_str(), "config.toml"));
        },
        None => {},
    }
    out.push(default_zpic_config(config_dir));
    proof {
        assert(crate::text::views(out@) =~= spec_zpic_candidates(
            match cwd {
                Some(c) => Some(c@),
                None => None,
            },
            config_dir@,
        ));
    }
    out
}

/// The PicGo config files, in priority order: PicGo-Core's
/// `~/.picgo/config.json`, the macOS and Linux GUI data files under the home
/// directory, then the Windows one under `%APPDATA%`.
pub open spec fn spec_picgo_candidates(home: Option<Seq<char>>, appdata: Option<Seq<char>>) -> Seq<Seq<char>> {
    let h = match home {
        Some(h) => seq![
            spec_path_join(spec_path_join(h, ".picgo"@), "config.json"@),
            spec_path_join(
                spec_path_join(spec_path_join(spec_path_join(h, "Library"@), "Application Support"@), "picgo"@),
                "data.json"@,
            ),
            spec_path_join(spec_path_join(spec_path_join(h, ".config"@), "picgo"@), "data.json"@),
        ],
        None => seq![],
    };
    let a = match appdata {
        Some(a) => seq![spec_path_join(spec_path_join(a, "picgo"@), "data.json"@)],
        None => seq![],
    };
    h + a
}

/// The PicGo config candidates, as `spec_picgo_candidates` lists them.
pub fn candidate_picgo_paths(home: Option<&str>, appdata: Option<&str>) -> (r: Vec<String>)
    ensures
        crate::text::views(r@) == spec_picgo_candidates(
            match home {
                Some(h) => Some(h@),
                None => None,
            },
            match appdata {
                Some(a) => Some(a@),
                None => None,
            },
        ),
{
    let mut out: Vec<String> = Vec::new();
    match home {
        Some(h) => {
            let p = path_join(h, ".picgo");
            out.push(path_join(p.as_str(), "config.json"));
            let l = path_join(h, "Library");
            let l = path_join(l.as_str(), "Application Support");
            let l = path_join(l.as_str(), "picgo");
            out.push(path_join(l.as_str(), "data.json"));
            let c = path_join(h, ".config");
            let c = path_join(c.as_str(), "picgo");
            out.push(path_join(c.as_str(), "data.json"));
        },
        None => {},
    }
    match appdata {
        Some(a) => {
            let p = path_join(a, "picgo");
            out.push(path_join(p.as_str(), "data.json"));
        },
        None => {},
    }
    proof {
        assert(crate::text::views(out@) =~= spec_picgo_candidates(
            match home {
                Some(h) => Some(h@),
                None => None,
            },
            match appdata {
                Some(a) => Some(a@),
                None => None,
            },
        ));
    }
    out
}

} // verus!
