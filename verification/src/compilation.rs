//! The records that a code generator hands over: function bodies, custom
//! sections and the relocations that tie them together.

use vstd::prelude::*;

verus! {

/// Unwind information of one compiled function.
#[derive(Debug, PartialEq, Eq)]
pub enum CompiledFunctionUnwindInfo {
    /// A Windows x64 unwind table. It has to lie in code memory, behind the
    /// function's code, at the next 4-byte boundary.
    WindowsX64(Vec<u8>),
    /// DWARF call frame information. It lies in a section of its own.
    Dwarf,
}

/// The machine code of one function, with its unwind information if it has any.
#[derive(Debug, PartialEq, Eq)]
pub struct FunctionBody {
    /// The machine code.
    pub body: Vec<u8>,
    /// How to unwind through the function.
    pub unwind_info: Option<CompiledFunctionUnwindInfo>,
}

/// The protection that a custom section asks for once it is published.
#[derive(Clone, Copy, Debug, PartialEq, Eq, Structural)]
pub enum CustomSectionProtection {
    /// Data: readable and writable, never executed.
    Read,
    /// Code: readable and executable.
    ReadExecute,
}

/// Bytes that accompany the functions of a module.
#[derive(Debug, PartialEq, Eq)]
pub struct CustomSection {
    /// Whether the section holds code or data.
    pub protection: CustomSectionProtection,
    /// The section's content.
    pub bytes: Vec<u8>,
}

/// How a relocation encodes the address of its target.
#[derive(Clone, Copy, Debug, PartialEq, Eq, Structural)]
pub enum RelocationKind {
    /// The absolute address, in 8 bytes.
    Abs8,
    /// The distance from the patched place to the target, in 4 bytes.
    PcRel4,
    /// The distance from the patched place to the target, in 8 bytes.
    PcRel8,
}

/// What a relocation refers to.
#[derive(Clone, Copy, Debug, PartialEq, Eq, Structural)]
pub enum RelocationTarget {
    /// A function of the module, by its index among the local functions.
    LocalFunc(u32),
    /// A call stub of the runtime, by its index among the libcall trampolines.
    LibCall(u32),
    /// A custom section, by its index.
    CustomSection(u32),
}

/// A place in a function or a section that has to hold the address of
/// something else once the final layout is known.
#[derive(Clone, Copy, Debug, PartialEq, Eq, Structural)]
pub struct Relocation {
    /// How the address is encoded.
    pub kind: RelocationKind,
    /// What the address is of.
    pub reloc_target: RelocationTarget,
    /// The offset of the patched place from the start of the function or section.
    pub offset: u32,
    /// What is added to the address of the target.
    pub addend: i64,
}

impl RelocationKind {
    /// The number of bytes that a relocation of this kind writes.
    pub open spec fn spec_width(&self) -> int {
        match self {
            RelocationKind::Abs8 => 8,
            RelocationKind::PcRel4 => 4,
            RelocationKind::PcRel8 => 8,
        }
    }

    /// The number of bytes that a relocation of this kind writes.
    pub fn width(&self) -> (width: usize)
        ensures
            width == self.spec_width(),
    {
        match self {
            RelocationKind::Abs8 => 8,
            RelocationKind::PcRel4 => 4,
            RelocationKind::PcRel8 => 8,
        }
    }
}

impl CompiledFunctionUnwindInfo {
    /// The table that is stored behind the function's code; empty where none is.
    pub open spec fn inline_table(&self) -> Seq<u8> {
        match self {
            CompiledFunctionUnwindInfo::WindowsX64(table) => table@,
            CompiledFunctionUnwindInfo::Dwarf => Seq::empty(),
        }
    }
}

impl FunctionBody {
    /// Whether an unwind table is stored behind the code.
    pub open spec fn has_inline_table(&self) -> bool {
        self.unwind_info matches Some(info) && info is WindowsX64
    }

    /// The unwind table stored behind the code; empty where none is.
    pub open spec fn inline_table(&self) -> Seq<u8> {
        match self.unwind_info {
            Some(info) => info.inline_table(),
            None => Seq::empty(),
        }
    }
}

} // verus!
