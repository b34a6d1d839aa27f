//! Why a request cannot be planned.

use vstd::prelude::*;

verus! {

/// A fault in a request, found before anything is done for it.
#[derive(Clone, Copy, Debug, PartialEq, Eq, Structural)]
pub enum Error {
    /// The request names no program to run.
    MissingExecutable,
    /// The request names no root filesystem.
    MissingRootfs,
    /// A capability list holds a name that is no capability's.
    UnknownCapability,
    /// A mount has the empty path as its target.
    EmptyMountTarget,
    /// A bind mount names nothing to bind.
    BindWithoutSource,
    /// The program, an argument or an environment entry holds a NUL.
    InteriorNul,
    /// The container to join has no process in it.
    NoChildProcess,
}

impl Error {
    /// The text of the diagnostic for this fault.
    pub open spec fn text(self) -> Seq<char> {
        match self {
            Error::MissingExecutable => "expected executable to be configured"@,
            Error::MissingRootfs => "expected rootfs to be configured"@,
            Error::UnknownCapability => "unknown capability name"@,
            Error::EmptyMountTarget => "mount target cannot be empty"@,
            Error::BindWithoutSource => "bind mount requires a source"@,
            Error::InteriorNul => "nul byte found in provided data"@,
            Error::NoChildProcess => "failed to find child PID"@,
        }
    }

    /// The diagnostic for this fault.
    pub fn message(&self) -> (message: &'static str)
        ensures
            message@ == self.text(),
    {
        match self {
            Error::MissingExecutable => "expected executable to be configured",
            Error::MissingRootfs => "expected rootfs to be configured",
            Error::UnknownCapability => "unknown capability name",
            Error::EmptyMountTarget => "mount target cannot be empty",
            Error::BindWithoutSource => "bind mount requires a source",
            Error::InteriorNul => "nul byte found in provided data",
            Error::NoChildProcess => "failed to find child PID",
        }
    }
}

} // verus!
