//! The one kind of failure: a message that names the path and the cause.

use vstd::prelude::*;
use vstd::string::StringExecFns;

verus! {

/// A failed step. The message names the directory and what the operating system
/// said.
#[derive(Clone, Debug, PartialEq, Eq)]
pub struct MountError {
    pub message: String,
}

impl View for MountError {
    type V = Seq<char>;

    open spec fn view(&self) -> Seq<char> {
        self.message@
    }
}

/// The message for a directory that could not be created.
pub open spec fn create_failure(path: Seq<char>, cause: Seq<char>) -> Seq<char> {
    "Failed to create "@ + path + ": "@ + cause
}

/// The message for a mount that the kernel refused.
pub open spec fn mount_failure(path: Seq<char>, cause: Seq<char>) -> Seq<char> {
    "Failed to mount tmpfs on "@ + path + ": "@ + cause
}

/// The message for permission bits that could not be set.
pub open spec fn permission_failure(path: Seq<char>, cause: Seq<char>) -> Seq<char> {
    "Failed to set permissions on "@ + path + ": "@ + cause
}

/// Puts a message together: what failed, where, and why.
fn describe(what: &str, path: &str, cause: &str) -> (message: String)
    ensures
        message@ == what@ + path@ + ": "@ + cause@,
{
    let mut message = String::from_str(what);
    message.append(path);
    message.append(": ");
    message.append(cause);
    message
}

impl MountError {
    /// The failure to create the directory `path`.
    pub fn create(path: &str, cause: &str) -> (e: MountError)
        ensures
            e@ == create_failure(path@, cause@),
    {
        MountError { message: describe("Failed to create ", path, cause) }
    }

    /// The failure to mount tmpfs on `path`.
    pub fn mount(path: &str, cause: &str) -> (e: MountError)
        ensures
            e@ == mount_failure(path@, cause@),
    {
        MountError { message: describe("Failed to mount tmpfs on ", path, cause) }
    }

    /// The failure to set the permission bits of `path`.
    pub fn permissions(path: &str, cause: &str) -> (e: MountError)
        ensures
            e@ == permission_failure(path@, cause@),
    {
        MountError { message: describe("Failed to set permissions on ", path, cause) }
    }

    /// The message.
    pub fn message(&self) -> (m: &str)
        ensures
            m@ == self@,
    {
        self.message.as_str()
    }
}

} // verus!
