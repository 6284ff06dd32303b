//! The record of a compiled module: what a code generator hands over for
//! publication, and what is kept to publish the module again later.

use crate::codec::Codec;
use crate::compilation::{CustomSection, FunctionBody, Relocation};
use crate::error::{DeserializeError, SerializeError};
use crate::module::{MemoryStyle, ModuleInfo, TableStyle};
use vstd::prelude::*;

verus! {

/// Which optional features of WebAssembly a module was compiled with.
#[derive(Clone, Copy, Debug, PartialEq, Eq, Structural)]
pub struct Features {
    /// Threads and atomic operations.
    pub threads: bool,
    /// Reference types.
    pub reference_types: bool,
    /// Vector operations.
    pub simd: bool,
    /// Bulk memory operations.
    pub bulk_memory: bool,
    /// Functions with several results.
    pub multi_value: bool,
}

/// A place in the code of a function at which execution may trap.
#[derive(Clone, Copy, Debug, PartialEq, Eq, Structural)]
pub struct TrapInformation {
    /// The offset of the trapping instruction from the start of the function.
    pub code_offset: u32,
    /// The code of the trap.
    pub trap_code: u32,
}

/// Which source location a range of the code of a function stems from.
#[derive(Clone, Copy, Debug, PartialEq, Eq, Structural)]
pub struct InstructionAddressMap {
    /// The source location.
    pub srcloc: u32,
    /// The offset of the range from the start of the function.
    pub code_offset: u32,
    /// The length of the range.
    pub code_len: u32,
}

/// What a backtrace needs to know of one function.
#[derive(Debug, PartialEq, Eq)]
pub struct CompiledFunctionFrameInfo {
    /// Where the function may trap.
    pub traps: Vec<TrapInformation>,
    /// Which source locations its code stems from.
    pub address_map: Vec<InstructionAddressMap>,
}

/// The sections that hold debug information.
#[derive(Clone, Copy, Debug, PartialEq, Eq, Structural)]
pub struct Dwarf {
    /// The index of the section that holds the call frame information.
    pub eh_frame: u32,
}

/// Bytes that a memory holds from the start.
#[derive(Debug, PartialEq, Eq)]
pub struct OwnedDataInitializer {
    /// The index of the memory.
    pub memory_index: u32,
    /// The offset of the bytes in the memory.
    pub offset: u32,
    /// The bytes.
    pub data: Vec<u8>,
}

/// What a module declares, and how it was compiled.
#[derive(Debug, PartialEq, Eq)]
pub struct CompileModuleInfo {
    /// The features that the module was compiled with.
    pub features: Features,
    /// What the module declares.
    pub module: ModuleInfo,
    /// The style of each memory.
    pub memory_styles: Vec<MemoryStyle>,
    /// The style of each table.
    pub table_styles: Vec<TableStyle>,
}

/// The compilation related data for a serialized modules
#[derive(Debug, PartialEq, Eq)]
pub struct SerializableCompilation {
    /// The code of the local functions.
    pub function_bodies: Vec<FunctionBody>,
    /// The relocations of each local function.
    pub function_relocations: Vec<Vec<Relocation>>,
    /// The frame information of each local function.
    pub function_frame_info: Vec<CompiledFunctionFrameInfo>,
    /// The trampolines by which the host calls a function, one for each signature.
    pub function_call_trampolines: Vec<FunctionBody>,
    /// The trampolines by which a module calls a function of the host, one
    /// for each imported function.
    pub dynamic_function_trampolines: Vec<FunctionBody>,
    /// The custom sections.
    pub custom_sections: Vec<CustomSection>,
    /// The relocations of each custom section.
    pub custom_section_relocations: Vec<Vec<Relocation>>,
    /// The section indices corresponding to the Dwarf debug info
    pub debug: Option<Dwarf>,
    /// Custom section containing libcall trampolines.
    pub libcall_trampolines: u32,
    /// Length of each libcall trampoline.
    pub libcall_trampoline_len: u32,
}

/// Serializable struct that is able to serialize from and to
/// a `UniversalArtifactInfo`.
#[derive(Debug, PartialEq, Eq)]
pub struct SerializableModule {
    /// The main serializable compilation object
    pub compilation: SerializableCompilation,
    /// Compilation informations
    pub compile_info: CompileModuleInfo,
    /// Datas initializers
    pub data_initializers: Vec<OwnedDataInitializer>,
    /// CPU Feature flags for this compilation
    pub cpu_features: u64,
}

/// The error of a codec that failed with `message`.
pub fn to_serialize_error(message: String) -> (error: SerializeError)
    ensures
        error == SerializeError::Generic(message),
{
    SerializeError::Generic(message)
}

/// The module that `bytes` stand for: they are what a module is written
/// as, from the first byte to the last.
pub open spec fn parsed(bytes: Seq<u8>) -> Option<<SerializableModule as Codec>::Model> {
    match SerializableModule::decoding(bytes) {
        Some((model, n)) => if n == bytes.len() {
            Some(model)
        } else {
            None
        },
        None => None,
    }
}

/// The round trip: the bytes that a module is written as stand for that module.
pub proof fn lemma_serialize_round_trip(module: SerializableModule)
    ensures
        parsed(SerializableModule::encoding(module.model())) == Some(module.model()),
{
    let bytes = SerializableModule::encoding(module.model());
    SerializableModule::lemma_round_trip(module, Seq::empty());
    assert(bytes + Seq::<u8>::empty() =~= bytes);
}

/// Only what a module is written as is read as a module: bytes that stand
/// for a module are the bytes that this module is written as.
pub proof fn lemma_parsed_is_written(bytes: Seq<u8>)
    ensures
        parsed(bytes) matches Some(model) ==> bytes == SerializableModule::encoding(model),
{
    SerializableModule::lemma_decoding_consumes(bytes);
    assert(bytes.take(bytes.len() as int) =~= bytes);
}

/// The bytes of a serialized module, not yet turned into a module.
pub struct ArchivedSerializableModule<'a> {
    bytes: &'a [u8],
}

impl<'a> ArchivedSerializableModule<'a> {
    /// The bytes.
    pub closed spec fn bytes(&self) -> Seq<u8> {
        self.bytes@
    }

    /// Takes the bytes of a serialized module as they are.
    pub fn from_slice(buf: &'a [u8]) -> (archived: Self)
        ensures
            archived.bytes() == buf@,
    {
        ArchivedSerializableModule { bytes: buf }
    }
}

impl SerializableModule {
    /// Serialize a Module into bytes.
    ///
    /// The bytes are those that the module is written as. Writing does not fail.
    pub fn serialize(&self) -> (res: Result<Vec<u8>, SerializeError>)
        ensures
            res matches Ok(bytes) && bytes@ == SerializableModule::encoding(self.model()),
    {
        let mut serialized_data: Vec<u8> = Vec::new();
        self.write(&mut serialized_data);
        assert(serialized_data@ =~= SerializableModule::encoding(self.model()));
        Ok(serialized_data)
    }

    /// Deserialize a Module from a slice.
    ///
    /// The slice has to hold what a module is written as, and nothing else.
    pub fn deserialize(metadata_slice: &[u8]) -> (res: Result<Self, DeserializeError>)
        ensures
            match res {
                Ok(module) => parsed(metadata_slice@) == Some(module.model()),
                Err(DeserializeError::CorruptedBinary) => parsed(metadata_slice@) is None,
                Err(_) => false,
            },
    {
        let archived = Self::archive_from_slice(metadata_slice);
        Self::deserialize_from_archive(&archived)
    }

    fn archive_from_slice<'a>(buf: &'a [u8]) -> (archived: ArchivedSerializableModule<'a>)
        ensures
            archived.bytes() == buf@,
    {
        ArchivedSerializableModule::from_slice(buf)
    }

    /// Deserialize a compilation module from an archive
    pub fn deserialize_from_archive(archived: &ArchivedSerializableModule) -> (res: Result<
        Self,
        DeserializeError,
    >)
        ensures
            match res {
                Ok(module) => parsed(archived.bytes()) == Some(module.model()),
                Err(DeserializeError::CorruptedBinary) => parsed(archived.bytes()) is None,
                Err(_) => false,
            },
    {
        assert(archived.bytes@.skip(0) =~= archived.bytes@);
        match SerializableModule::read(archived.bytes, 0) {
            Some((module, end)) => {
                if end == archived.bytes.len() {
                    Ok(module)
                } else {
                    Err(DeserializeError::CorruptedBinary)
                }
            },
            None => Err(DeserializeError::CorruptedBinary),
        }
    }
}

} // verus!
