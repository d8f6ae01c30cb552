//! Status lines of the panels that load and save project files (scenes,
//! animations, data tables): what they say about a missing project, a load
//! or a save.

use vstd::prelude::*;

use crate::text::{decimal, owned, push_decimal};

verus! {

/// Why a project file could not be loaded.
#[derive(Debug)]
pub enum LoadError {
    /// The file does not exist.
    NotFound,
    /// The file could not be read; the error text is given.
    Read(String),
    /// The file's content is not valid; the error text is given.
    Parse(String),
}

/// Why a project file could not be saved.
#[derive(Debug)]
pub enum SaveError {
    /// The file's directory could not be created.
    Directory(String),
    /// The content could not be serialised.
    Serialise(String),
    /// The file could not be written.
    Write(String),
}

/// The status after loading `path` failed with `e`.
pub open spec fn load_error_text(e: LoadError, path: Seq<char>) -> Seq<char> {
    match e {
        LoadError::NotFound => "File not found: "@ + path,
        LoadError::Read(m) => "Read error: "@ + m@,
        LoadError::Parse(m) => "Parse error: "@ + m@,
    }
}

/// The status after saving to `path` ended with `r`.
pub open spec fn save_text(r: Result<(), SaveError>, path: Seq<char>) -> Seq<char> {
    match r {
        Ok(()) => "Saved → "@ + path,
        Err(SaveError::Directory(m)) => "Directory error: "@ + m@,
        Err(SaveError::Serialise(m)) => "Serialise error: "@ + m@,
        Err(SaveError::Write(m)) => "Write error: "@ + m@,
    }
}

/// The status after loading `path` failed with `e`.
pub fn load_error_status(e: &LoadError, path: &str) -> (s: String)
    ensures
        s@ == load_error_text(*e, path@),
{
    match e {
        LoadError::NotFound => {
            let mut s = owned("File not found: ");
            s.append(path);
            s
        },
        LoadError::Read(m) => {
            let mut s = owned("Read error: ");
            s.append(m.as_str());
            s
        },
        LoadError::Parse(m) => {
            let mut s = owned("Parse error: ");
            s.append(m.as_str());
            s
        },
    }
}

/// The status after saving to `path` ended with `r`.
pub fn save_status(r: &Result<(), SaveError>, path: &str) -> (s: String)
    ensures
        s@ == save_text(*r, path@),
{
    match r {
        Ok(()) => {
            let mut s = owned("Saved → ");
            s.append(path);
            s
        },
        Err(SaveError::Directory(m)) => {
            let mut s = owned("Directory error: ");
            s.append(m.as_str());
            s
        },
        Err(SaveError::Serialise(m)) => {
            let mut s = owned("Serialise error: ");
            s.append(m.as_str());
            s
        },
        Err(SaveError::Write(m)) => {
            let mut s = owned("Write error: ");
            s.append(m.as_str());
            s
        },
    }
}

/// The status after `count` items (`noun`, e.g. `rows`) were loaded from
/// `path`: `Loaded <count> <noun> ← <path>`.
pub fn loaded_status(count: usize, noun: &str, path: &str) -> (s: String)
    requires
        count <= u64::MAX,
    ensures
        s@ == "Loaded "@ + decimal(count as nat) + " "@ + noun@ + " ← "@ + path@,
{
    let mut s = owned("Loaded ");
    push_decimal(&mut s, count as u64);
    s.append(" ");
    s.append(noun);
    s.append(" ← ");
    s.append(path);
    s
}

/// The status when an action needs a project and none is open:
/// `No project loaded — cannot <verb> <what>.`
pub fn no_project_status(verb: &str, what: &str) -> (s: String)
    ensures
        s@ == "No project loaded — cannot "@ + verb@ + " "@ + what@ + "."@,
{
    let mut s = owned("No project loaded — cannot ");
    s.append(verb);
    s.append(" ");
    s.append(what);
    s.append(".");
    s
}

} // verus!
