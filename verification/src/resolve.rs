//! Command resolution: a token with a path separator is taken as a path,
//! anything else is looked up on the executable search path.

use vstd::prelude::*;

verus! {

/// Whether the token names a path rather than a command to look up.
pub open spec fn has_path_separator(s: Seq<char>) -> bool {
    exists|i: int| 0 <= i < s.len() && (s[i] == '/' || s[i] == '\\')
}

/// Executable separator test.
pub fn contains_path_separator(s: &str) -> (r: bool)
    ensures
        r == has_path_separator(s@),
{
    let len = s.unicode_len();
    let mut i: usize = 0;
    while i < len
        invariant
            0 <= i <= len,
            len == s@.len(),
            forall|k: int| 0 <= k < i ==> s@[k] != '/' && s@[k] != '\\',
        decreases len - i,
    {
        let c = s.get_char(i);
        if c == '/' || c == '\\' {
            return true;
        }
        i = i + 1;
    }
    false
}

/// Relies on `which::which` to look a command up on the search path;
/// whether and where it is found depends on the machine.
#[verifier::external_body]
fn which_lookup(name: &str) -> (r: Option<String>)
{
    match which::which(name) {
        Ok(path) => Some(path.to_string_lossy().into_owned()),
        Err(_) => None,
    }
}

/// Relies on `std::path::Path::exists`; the answer depends on the disk.
#[verifier::external_body]
fn path_exists(p: &str) -> (r: bool)
{
    std::path::Path::new(p).exists()
}

/// Why a command could not be resolved.
#[derive(Debug)]
pub enum ResolveError {
    /// The token was a path and nothing exists there.
    NotFoundAt(String),
    /// The token was a bare command and the search path has no such
    /// executable.
    NotFoundInPath(String),
}

/// Resolves a command for the platform generator: a token with a path
/// separator must itself exist; a bare token is looked up on the search
/// path.
pub fn resolve_cmd(command: &str) -> (r: Result<String, ResolveError>)
    ensures
        match r {
            Ok(p) => has_path_separator(command@) ==> p@ == command@,
            Err(ResolveError::NotFoundAt(c)) => has_path_separator(command@) && c@ == command@,
            Err(ResolveError::NotFoundInPath(c)) => !has_path_separator(command@) && c@
                == command@,
        },
{
    if contains_path_separator(command) {
        if path_exists(command) {
            Ok(command.to_owned())
        } else {
            Err(ResolveError::NotFoundAt(command.to_owned()))
        }
    } else {
        match which_lookup(command) {
            Some(p) => Ok(p),
            None => Err(ResolveError::NotFoundInPath(command.to_owned())),
        }
    }
}

/// Resolves the supervisor's child command: a token with a path separator
/// is used verbatim, without an existence check; a bare token is looked
/// up on the search path and its absence is fatal before anything is
/// spawned.
pub fn resolve_run_command(command: &str) -> (r: Option<String>)
    ensures
        match r {
            Some(p) => has_path_separator(command@) ==> p@ == command@,
            None => !has_path_separator(command@),
        },
{
    if contains_path_separator(command) {
        Some(command.to_owned())
    } else {
        which_lookup(command)
    }
}

} // verus!
