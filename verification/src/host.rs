//! What the library needs to know of the machine it runs on.
use vstd::prelude::*;

verus! {

/// Operating system of the host.
#[derive(Clone, Copy, Debug, PartialEq, Eq, Structural)]
pub enum Os {
    Linux,
    Macos,
}

/// Processor architecture of the host. Everything that is not aarch64 is treated
/// as x86_64.
#[derive(Clone, Copy, Debug, PartialEq, Eq, Structural)]
pub enum Arch {
    Aarch64,
    X86_64,
}

impl Arch {
    pub open spec fn text(self) -> Seq<char> {
        match self {
            Arch::Aarch64 => "aarch64"@,
            Arch::X86_64 => "x86_64"@,
        }
    }

    /// Name of the architecture in download paths.
    pub fn name(self) -> (s: &'static str)
        ensures
            s@ == self.text(),
    {
        match self {
            Arch::Aarch64 => "aarch64",
            Arch::X86_64 => "x86_64",
        }
    }
}

} // verus!
