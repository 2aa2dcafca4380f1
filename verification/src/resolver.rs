//! Locating an executable by name: the search walks a `PATH`-style list of
//! directories, relative entries resolved against a given working directory,
//! and a miss is reported as a `NotFound` error naming the binary.

use vstd::prelude::*;

use crate::process::{process, Error, ProcessBuilderWithCwd};

verus! {

/// Relies on `which::which_in`: it searches the `PATH`-style list of
/// directories in `path_list`, relative lookups resolved against `cwd`, and
/// returns the first executable called `binary_name`, or fails when no
/// searched directory holds one. The answer comes from the file system, so
/// nothing more is assumed of it.
#[verifier::external_body]
fn which_in_raw(binary_name: &str, path_list: Option<&str>, cwd: &str) -> (r: Option<String>) {
    ::which::which_in(binary_name, path_list, cwd).ok().map(|p| p.to_string_lossy().into_owned())
}

/// Locates `binary_name` on the search path: the path of the first match,
/// or a `NotFound` error naming exactly the binary that was missing. Each
/// call searches anew; nothing is cached.
pub fn which(binary_name: &str, path_list: Option<&str>, cwd: &str) -> (r: Result<String, Error>)
    ensures
        r matches Err(e) ==> e matches Error::NotFound(n) && n@ == binary_name@,
{
    match which_in_raw(binary_name, path_list, cwd) {
        Some(path) => Ok(path),
        None => Err(Error::NotFound(binary_name.to_owned())),
    }
}

/// A builder already in the cwd-present state, whose program is
/// `binary_name` resolved on the search path: no arguments, no piped input,
/// display flag off. Fails with the resolver's `NotFound` when the binary
/// cannot be located.
pub fn with_which(binary_name: &str, path_list: Option<&str>, cwd: String) -> (r: Result<
    ProcessBuilderWithCwd,
    Error,
>)
    requires
        cwd@.len() > 0,
    ensures
        (r matches Ok(b) ==> b@.args.len() == 0 && b@.cwd == Some(cwd@) && !b@.display_cwd
            && b@.pipe_input is None),
        r matches Err(e) ==> e matches Error::NotFound(n) && n@ == binary_name@,
{
    match which(binary_name, path_list, cwd.as_str()) {
        Ok(program) => Ok(process(program).cwd(cwd)),
        Err(e) => Err(e),
    }
}

} // verus!
