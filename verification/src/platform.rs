//! Platform-dependent names of executables.
use crate::text::{chars_of, push_str, string_of};
use std::path::{Path, PathBuf};
use vstd::prelude::*;

verus! {

/// `std::path::Path`, carried through unchanged.
#[verifier::external_type_specification]
#[verifier::external_body]
pub struct ExPath(Path);

/// `std::path::PathBuf`, carried through unchanged.
#[verifier::external_type_specification]
#[verifier::external_body]
pub struct ExPathBuf(PathBuf);

/// The separator of path components on the platform this was built for
/// (`std::path::MAIN_SEPARATOR`): std documents `\` on Windows and `/` on
/// Unix. Which of the two it is depends on the build target and is not
/// stated.
#[verifier::external_body]
fn main_separator() -> (r: char)
    ensures
        r == '/' || r == '\\',
{
    std::path::MAIN_SEPARATOR
}

/// The path that `Path::join` makes of `dir` and the component `name`.
pub uninterp spec fn joined_path(dir: &Path, name: Seq<char>) -> PathBuf;

/// `dir` with `name` appended as a path component (`Path::join`). Paths are
/// opaque here: the result is named by `joined_path` of the arguments, and
/// nothing more of its shape is stated.
#[verifier::external_body]
fn path_join(dir: &Path, name: &str) -> (r: PathBuf)
    ensures
        r == joined_path(dir, name@),
{
    dir.join(name)
}

/// Whether this is a Windows build: there, paths are separated by `\`.
pub fn is_windows() -> bool {
    main_separator() == '\\'
}

/// The executable name on a platform: with `.exe` on Windows.
pub open spec fn exe_name(name: Seq<char>, windows: bool) -> Seq<char> {
    if windows {
        name + ".exe"@
    } else {
        name
    }
}

/// The executable name of a tool on Windows or elsewhere.
pub fn exe_name_for(name: &str, windows: bool) -> (r: String)
    ensures
        r@ == exe_name(name@, windows),
{
    let mut out = chars_of(name);
    if windows {
        push_str(&mut out, ".exe");
    }
    string_of(out.as_slice())
}

/// Get the executable name with the platform-appropriate extension.
pub fn get_exe_name(name: &str) -> (r: String)
    ensures
        r@ == exe_name(name@, true) || r@ == exe_name(name@, false),
{
    exe_name_for(name, is_windows())
}

/// Get the path to a binary in the binary directory: the directory joined
/// with the executable name of the platform this was built for.
pub fn get_bin_path(bin_dir: &Path, name: &str) -> (r: PathBuf)
    ensures
        r == joined_path(bin_dir, exe_name(name@, true)) || r == joined_path(
            bin_dir,
            exe_name(name@, false),
        ),
{
    let exe = get_exe_name(name);
    path_join(bin_dir, exe.as_str())
}

} // verus!
