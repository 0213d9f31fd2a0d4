//! Decisions of the web front end: ports, run mode, static assets.

use vstd::prelude::*;
use crate::text::{chars_of, ends_with, ends_with_str, str_eq, string_from_chars, copy_range};
use crate::platform::{Os, join, join_path};

verus! {

/// The content type served for a file, by its extension.
pub open spec fn mime_of(path: Seq<char>) -> Seq<char> {
    if ends_with(path, ".html"@) {
        "text/html; charset=utf-8"@
    } else if ends_with(path, ".css"@) {
        "text/css; charset=utf-8"@
    } else if ends_with(path, ".js"@) {
        "application/javascript; charset=utf-8"@
    } else if ends_with(path, ".json"@) {
        "application/json"@
    } else if ends_with(path, ".png"@) {
        "image/png"@
    } else if ends_with(path, ".svg"@) {
        "image/svg+xml"@
    } else if ends_with(path, ".ico"@) {
        "image/x-icon"@
    } else {
        "application/octet-stream"@
    }
}

/// The content type served for `path` (see `mime_of`).
pub fn mime_type(path: &str) -> (m: &'static str)
    ensures
        m@ == mime_of(path@),
{
    let v = chars_of(path);
    if ends_with_str(v.as_slice(), ".html") {
        "text/html; charset=utf-8"
    } else if ends_with_str(v.as_slice(), ".css") {
        "text/css; charset=utf-8"
    } else if ends_with_str(v.as_slice(), ".js") {
        "application/javascript; charset=utf-8"
    } else if ends_with_str(v.as_slice(), ".json") {
        "application/json"
    } else if ends_with_str(v.as_slice(), ".png") {
        "image/png"
    } else if ends_with_str(v.as_slice(), ".svg") {
        "image/svg+xml"
    } else if ends_with_str(v.as_slice(), ".ico") {
        "image/x-icon"
    } else {
        "application/octet-stream"
    }
}

/// The front-end directory: `frontend/` beside the executable when it
/// exists, else `frontend/` in the source tree when that exists, else the
/// one beside the executable.
pub open spec fn frontend_dir_of(os: Os, exe_dir: Seq<char>, beside_exists: bool, source_dir: Seq<char>, in_source_exists: bool) -> Seq<char> {
    if beside_exists {
        join_path(os, exe_dir, "frontend"@)
    } else if in_source_exists {
        join_path(os, source_dir, "frontend"@)
    } else {
        join_path(os, exe_dir, "frontend"@)
    }
}

/// The front-end directory beside the executable in `exe_dir`.
pub fn frontend_beside(os: Os, exe_dir: &str) -> (p: String)
    ensures
        p@ == join_path(os, exe_dir@, "frontend"@),
{
    join(os, exe_dir, "frontend")
}

/// The front-end directory (see `frontend_dir_of`), given whether each
/// candidate exists.
pub fn frontend_dir(os: Os, exe_dir: &str, beside_exists: bool, source_dir: &str, in_source_exists: bool) -> (p: String)
    ensures
        p@ == frontend_dir_of(os, exe_dir@, beside_exists, source_dir@, in_source_exists),
{
    if beside_exists {
        join(os, exe_dir, "frontend")
    } else if in_source_exists {
        join(os, source_dir, "frontend")
    } else {
        join(os, exe_dir, "frontend")
    }
}

/// The port to use: the one asked for, unless it is 0.
pub fn choose_port(requested: u16, default: u16) -> (p: u16)
    ensures
        p == if requested > 0 { requested } else { default },
{
    if requested > 0 { requested } else { default }
}

/// How the program runs.
#[derive(PartialEq, Eq, Structural, Clone, Copy, Debug)]
pub enum RunMode {
    Server,
    Client,
}

/// The run mode named on the command line: `server` or `s` for the server,
/// anything else for the client.
pub open spec fn run_mode_of(arg: Seq<char>) -> RunMode {
    if arg == "server"@ || arg == "s"@ { RunMode::Server } else { RunMode::Client }
}

impl RunMode {
    /// The run mode named `arg` (see `run_mode_of`).
    pub fn from_arg(arg: &str) -> (m: RunMode)
        ensures
            m == run_mode_of(arg@),
    {
        if str_eq(arg, "server") || str_eq(arg, "s") { RunMode::Server } else { RunMode::Client }
    }
}

/// The relative path of an asset requested under a prefix directory.
pub fn asset_path(prefix: &str, rest: &str) -> (p: String)
    ensures
        p@ == prefix@ + "/"@ + rest@,
{
    String::from_str(prefix).concat("/").concat(rest)
}

/// `s` without its leading slashes (`trim_start_matches('/')`).
pub open spec fn without_leading_slashes(s: Seq<char>) -> Seq<char>
    decreases s.len(),
{
    if s.len() > 0 && s[0] == '/' { without_leading_slashes(s.drop_first()) } else { s }
}

/// The key of an embedded front-end file: its path without leading slashes.
pub fn embedded_file_key(path: &str) -> (k: String)
    ensures
        k@ == without_leading_slashes(path@),
{
    let v = chars_of(path);
    let mut i: usize = 0;
    assert(v@.skip(0) =~= v@);
    while i < v.len() && v[i] == '/'
        invariant
            v@ == path@,
            i <= v@.len(),
            without_leading_slashes(path@) == without_leading_slashes(v@.skip(i as int)),
        decreases v.len() - i,
    {
        assert(v@.skip(i as int).drop_first() =~= v@.skip(i + 1));
        i = i + 1;
    }
    let rest = copy_range(v.as_slice(), i, v.len());
    assert(rest@ =~= v@.skip(i as int));
    string_from_chars(rest.as_slice())
}

/// The page served at the root.
pub open spec fn index_page() -> Seq<char> {
    "index.html"@
}

/// Whether the front end is embedded: the embedded files include the index
/// page.
pub fn has_embedded_frontend(embedded_files: &Vec<String>) -> (b: bool)
    ensures
        b == exists|i: int| 0 <= i < embedded_files@.len() && #[trigger] embedded_files@[i]@ == index_page(),
{
    let mut i: usize = 0;
    while i < embedded_files.len()
        invariant
            i <= embedded_files@.len(),
            forall|k: int| 0 <= k < i ==> #[trigger] embedded_files@[k]@ != index_page(),
        decreases embedded_files.len() - i,
    {
        if str_eq(embedded_files[i].as_str(), "index.html") {
            return true;
        }
        i = i + 1;
    }
    false
}

/// The front end beside the executable is preferred, then the one in the
/// source tree; when neither exists the one beside the executable is named.
pub proof fn law_frontend_preference(os: Os, exe_dir: Seq<char>, source_dir: Seq<char>, in_source_exists: bool)
    ensures
        frontend_dir_of(os, exe_dir, true, source_dir, in_source_exists) == join_path(os, exe_dir, "frontend"@),
        frontend_dir_of(os, exe_dir, false, source_dir, true) == join_path(os, source_dir, "frontend"@),
        frontend_dir_of(os, exe_dir, false, source_dir, false) == join_path(os, exe_dir, "frontend"@),
{
}

} // verus!
