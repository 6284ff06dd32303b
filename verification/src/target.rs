//! The machines that code is generated for.

use vstd::prelude::*;

verus! {

/// The instruction set of a target.
#[derive(Clone, Copy, Debug, PartialEq, Eq, Structural)]
pub enum Architecture {
    /// 32-bit x86.
    X86_32,
    /// 64-bit x86.
    X86_64,
    /// 64-bit ARM.
    Aarch64,
}

/// The operating system of a target.
#[derive(Clone, Copy, Debug, PartialEq, Eq, Structural)]
pub enum OperatingSystem {
    /// Linux.
    Linux,
    /// macOS.
    Darwin,
    /// Windows.
    Windows,
}

/// The target that code is generated for.
#[derive(Clone, Copy, Debug, PartialEq, Eq, Structural)]
pub struct Triple {
    /// The instruction set.
    pub architecture: Architecture,
    /// The operating system.
    pub operating_system: OperatingSystem,
}

impl Architecture {
    /// The number of bits of an address.
    pub open spec fn pointer_width(&self) -> int {
        match self {
            Architecture::X86_32 => 32,
            Architecture::X86_64 => 64,
            Architecture::Aarch64 => 64,
        }
    }
}

} // verus!
