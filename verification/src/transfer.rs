//! Where an instance export writes, and which paths a client may hand the
//! daemon: the path rules of import and export.

use vstd::prelude::*;

use crate::launch::{join_str, path_join};
use crate::text::{string_of, trim, trim_str};

verus! {

/// Why a path a client named was refused.
#[derive(Debug, Clone, Copy, PartialEq, Eq, Structural)]
pub enum PathError {
    /// Nothing was named.
    FieldRequired,
    /// The path is relative; the daemon does not share the client's working
    /// directory.
    NotAbsolute,
}

impl PathError {
    /// The message a client sees.
    pub fn message(&self) -> (r: String)
        ensures
            *self == PathError::FieldRequired ==> r@ == "path is required"@,
            *self == PathError::NotAbsolute ==> r@ == "path must be an absolute path"@,
    {
        match self {
            PathError::FieldRequired => String::from_str("path is required"),
            PathError::NotAbsolute => String::from_str("path must be an absolute path"),
        }
    }
}

/// What `daemon_local_path` gives for a value: the trimmed path when it is
/// absolute, else why not.
pub open spec fn local_path_spec(value: Seq<char>) -> Result<Seq<char>, PathError> {
    let t = trim(value);
    if t.len() == 0 {
        Err(PathError::FieldRequired)
    } else if t[0] != '/' {
        Err(PathError::NotAbsolute)
    } else {
        Ok(t)
    }
}

/// A path a client named for the daemon to read or write, trimmed. It must be
/// absolute: the two are different processes, so a relative path would mean
/// something different on each side of the socket.
pub fn daemon_local_path(value: &str) -> (r: Result<String, PathError>)
    ensures
        match r {
            Ok(p) => local_path_spec(value@) == Ok::<Seq<char>, PathError>(p@),
            Err(e) => local_path_spec(value@) == Err::<Seq<char>, PathError>(e),
        },
{
    let t = trim_str(value);
    if t.len() == 0 {
        Err(PathError::FieldRequired)
    } else if t[0] != '/' {
        Err(PathError::NotAbsolute)
    } else {
        Ok(string_of(&t))
    }
}

/// Where an export goes: a generated name in the data home's exports folder,
/// a generated name in a directory the caller named, or the caller's file.
#[derive(Debug, Clone, PartialEq, Eq)]
pub enum ExportTarget {
    Exports(String),
    IntoDirectory(String),
    File(String),
}

/// The export target a destination names; `names_directory` says whether the
/// trimmed destination is an existing directory.
pub open spec fn export_target_spec(
    destination: Seq<char>,
    exports: Seq<char>,
    names_directory: bool,
) -> Result<(int, Seq<char>), PathError> {
    if trim(destination).len() == 0 {
        Ok((0, exports))
    } else {
        match local_path_spec(destination) {
            Err(e) => Err(e),
            Ok(p) => if names_directory {
                Ok((1, p))
            } else {
                Ok((2, p))
            },
        }
    }
}

/// The export target as a route number and a path, for contracts.
pub open spec fn target_view(t: ExportTarget) -> (int, Seq<char>) {
    match t {
        ExportTarget::Exports(p) => (0, p@),
        ExportTarget::IntoDirectory(p) => (1, p@),
        ExportTarget::File(p) => (2, p@),
    }
}

/// Where an export writes: an empty destination lands in `exports`; any other
/// must be an absolute path, written into when it is a directory and taken
/// as the file otherwise.
pub fn export_destination(destination: &str, exports: &str, names_directory: bool) -> (r: Result<ExportTarget, PathError>)
    ensures
        match r {
            Ok(t) => export_target_spec(destination@, exports@, names_directory) == Ok::<(int, Seq<char>), PathError>(target_view(t)),
            Err(e) => export_target_spec(destination@, exports@, names_directory) == Err::<(int, Seq<char>), PathError>(e),
        },
{
    let t = trim_str(destination);
    if t.len() == 0 {
        return Ok(ExportTarget::Exports(String::from_str(exports)));
    }
    match daemon_local_path(destination) {
        Err(e) => Err(e),
        Ok(p) => if names_directory {
            Ok(ExportTarget::IntoDirectory(p))
        } else {
            Ok(ExportTarget::File(p))
        },
    }
}

/// Where an export with no destination lands under a data home.
pub fn exports_dir(home: &str) -> (r: String)
    ensures
        r@ == path_join(home@, "exports"@),
{
    join_str(home, "exports")
}

} // verus!
