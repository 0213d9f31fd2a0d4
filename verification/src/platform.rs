//! Operating systems, external commands and file-system paths as plain values.

use vstd::prelude::*;
use crate::text::{str_eq, chars_of, string_from_chars, push_char};
use crate::windows_path::{windows_join, windows_join_exec};

verus! {

/// The operating systems the tool distinguishes.
#[derive(PartialEq, Eq, Structural, Clone, Copy, Debug)]
pub enum Os {
    MacOs,
    Windows,
    Linux,
    Other,
}

/// The operating system named `name` (as in `std::env::consts::OS`).
pub open spec fn os_named(name: Seq<char>) -> Os {
    if name == "macos"@ {
        Os::MacOs
    } else if name == "windows"@ {
        Os::Windows
    } else if name == "linux"@ {
        Os::Linux
    } else {
        Os::Other
    }
}

impl Os {
    /// The operating system named `name` (`"macos"`, `"windows"`, `"linux"`,
    /// anything else being `Other`).
    pub fn from_name(name: &str) -> (os: Os)
        ensures
            os == os_named(name@),
    {
        if str_eq(name, "macos") {
            Os::MacOs
        } else if str_eq(name, "windows") {
            Os::Windows
        } else if str_eq(name, "linux") {
            Os::Linux
        } else {
            Os::Other
        }
    }
}

/// An external program to run, with its arguments.
pub struct ShellCommand {
    pub program: String,
    pub args: Vec<String>,
}

/// The characters of each string of `v`.
pub open spec fn texts(v: Seq<String>) -> Seq<Seq<char>> {
    v.map_values(|s: String| s@)
}

impl ShellCommand {
    /// The program name and the arguments, as character sequences.
    pub open spec fn model(&self) -> (Seq<char>, Seq<Seq<char>>) {
        (self.program@, texts(self.args@))
    }
}

/// Owned copies of `items`, in order.
pub fn strings_of(items: &[&str]) -> (v: Vec<String>)
    ensures
        v@.len() == items@.len(),
        forall|i: int| 0 <= i < items@.len() ==> #[trigger] v@[i]@ == items@[i]@,
{
    let mut v: Vec<String> = Vec::new();
    let mut i: usize = 0;
    while i < items.len()
        invariant
            i <= items@.len(),
            v@.len() == i,
            forall|k: int| 0 <= k < i ==> #[trigger] v@[k]@ == items@[k]@,
        decreases items.len() - i,
    {
        v.push(String::from_str(items[i]));
        i = i + 1;
    }
    v
}

/// The separator `Path::join` inserts on `os`.
pub open spec fn main_separator(os: Os) -> char {
    if os == Os::Windows { '\\' } else { '/' }
}

/// `base` with `name` adjoined as `Path::join` does on `os`: on Windows as
/// `windows_join` states; elsewhere `/` is the only separator, a name
/// starting with `/` replaces the base, and otherwise the name is appended
/// after a `/` unless the base is empty or already ends with one.
pub open spec fn join_path(os: Os, base: Seq<char>, name: Seq<char>) -> Seq<char> {
    if os == Os::Windows {
        windows_join(base, name)
    } else if name.len() > 0 && name[0] == '/' {
        name
    } else if base.len() == 0 || base.last() == '/' {
        base + name
    } else {
        base.push('/') + name
    }
}

/// Joins `name` onto `base` as `Path::join` does on `os` (see `join_path`).
pub fn join(os: Os, base: &str, name: &str) -> (p: String)
    ensures
        p@ == join_path(os, base@, name@),
{
    let b = chars_of(base);
    let n = chars_of(name);
    if os == Os::Windows {
        return windows_join_exec(b.as_slice(), n.as_slice());
    }
    if n.len() > 0 && n[0] == '/' {
        return String::from_str(name);
    }
    let mut p = string_from_chars(b.as_slice());
    if b.len() > 0 && b[b.len() - 1] != '/' {
        push_char(&mut p, '/');
    }
    p.append(name);
    assert(p@ =~= join_path(os, base@, name@));
    p
}

} // verus!
