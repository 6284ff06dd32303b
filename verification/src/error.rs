//! The errors with which building, serializing and deserializing end.

use crate::code_memory::{AllocationError, PublishError};
use crate::link::LinkError;
use vstd::prelude::*;

verus! {

/// Why an artifact could not be built.
#[derive(Debug, PartialEq, Eq)]
pub enum CompileError {
    /// No code could be generated, for the reason given.
    Codegen(String),
    /// The debug information names a section that the module does not have.
    Debug,
    /// The code could not be placed in memory.
    Resource(AllocationError),
    /// A relocation is malformed.
    Link(LinkError),
    /// The code could not be made executable.
    Publish(PublishError),
}

/// Why a module could not be serialized.
#[derive(Debug, PartialEq, Eq)]
pub enum SerializeError {
    /// The codec refused the module, with this message.
    Generic(String),
}

/// Why bytes could not be turned into a module or an artifact.
#[derive(Debug, PartialEq, Eq)]
pub enum DeserializeError {
    /// The bytes are no serialized artifact: they do not start with the
    /// header that marks one.
    Incompatible,
    /// The bytes are a serialized artifact of another version of the
    /// format: of this one.
    Version(u32),
    /// The bytes are damaged: they end early, go on for too long, or hold
    /// what no module is written as.
    CorruptedBinary,
    /// The bytes hold a module that cannot be built.
    Compiler(CompileError),
}

} // verus!
