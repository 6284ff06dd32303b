//! How the records of a compiled module are written as bytes: each type
//! writes its parts in the order in which they are declared.

use crate::codec::Codec;
use crate::compilation::{
    CompiledFunctionUnwindInfo, CustomSection, CustomSectionProtection, FunctionBody, Relocation,
    RelocationKind, RelocationTarget,
};
use crate::module::{
    FunctionType, MemoryStyle, MemoryType, ModuleInfo, TableStyle, TableType, Type,
};
use crate::serialize::{
    CompileModuleInfo, CompiledFunctionFrameInfo, Dwarf, Features, InstructionAddressMap,
    OwnedDataInitializer, SerializableCompilation, SerializableModule, TrapInformation,
};
use vstd::prelude::*;

verus! {

impl Type {
    /// The byte that numbers the variant.
    pub open spec fn tag(self) -> u8 {
        match self {
            Type::I32 => 0,
            Type::I64 => 1,
            Type::F32 => 2,
            Type::F64 => 3,
            Type::V128 => 4,
            Type::ExternRef => 5,
            Type::FuncRef => 6,
        }
    }
}

impl Codec for Type {
    type Model = Type;

    open spec fn model(&self) -> Self::Model {
        *self
    }

    open spec fn encoding(model: Self::Model) -> Seq<u8> {
        seq![model.tag()]
    }

    open spec fn decoding(input: Seq<u8>) -> Option<(Self::Model, int)> {
        if input.len() == 0 {
            None
        } else if input[0] == 0 {
            Some((Type::I32, 1))
        } else if input[0] == 1 {
            Some((Type::I64, 1))
        } else if input[0] == 2 {
            Some((Type::F32, 1))
        } else if input[0] == 3 {
            Some((Type::F64, 1))
        } else if input[0] == 4 {
            Some((Type::V128, 1))
        } else if input[0] == 5 {
            Some((Type::ExternRef, 1))
        } else if input[0] == 6 {
            Some((Type::FuncRef, 1))
        } else {
            None
        }
    }

    proof fn lemma_round_trip(value: Self, rest: Seq<u8>) {
    }

    proof fn lemma_decoding_consumes(input: Seq<u8>) {
        if input.len() > 0 {
            assert(input.take(1) =~= seq![input[0]]);
        }
    }

    fn write(&self, out: &mut Vec<u8>) {
        let tag: u8 = match self {
            Type::I32 => 0,
            Type::I64 => 1,
            Type::F32 => 2,
            Type::F64 => 3,
            Type::V128 => 4,
            Type::ExternRef => 5,
            Type::FuncRef => 6,
        };
        out.push(tag);
        assert(out@ =~= old(out)@ + seq![tag]);
    }

    fn read(input: &[u8], pos: usize) -> (res: Option<(Self, usize)>) {
        if pos >= input.len() {
            return None;
        }
        let tag = input[pos];
        if tag == 0 {
            Some((Type::I32, pos + 1))
        } else if tag == 1 {
            Some((Type::I64, pos + 1))
        } else if tag == 2 {
            Some((Type::F32, pos + 1))
        } else if tag == 3 {
            Some((Type::F64, pos + 1))
        } else if tag == 4 {
            Some((Type::V128, pos + 1))
        } else if tag == 5 {
            Some((Type::ExternRef, pos + 1))
        } else if tag == 6 {
            Some((Type::FuncRef, pos + 1))
        } else {
            None
        }
    }
}

impl RelocationKind {
    /// The byte that numbers the variant.
    pub open spec fn tag(self) -> u8 {
        match self {
            RelocationKind::Abs8 => 0,
            RelocationKind::PcRel4 => 1,
            RelocationKind::PcRel8 => 2,
        }
    }
}

impl Codec for RelocationKind {
    type Model = RelocationKind;

    open spec fn model(&self) -> Self::Model {
        *self
    }

    open spec fn encoding(model: Self::Model) -> Seq<u8> {
        seq![model.tag()]
    }

    open spec fn decoding(input: Seq<u8>) -> Option<(Self::Model, int)> {
        if input.len() == 0 {
            None
        } else if input[0] == 0 {
            Some((RelocationKind::Abs8, 1))
        } else if input[0] == 1 {
            Some((RelocationKind::PcRel4, 1))
        } else if input[0] == 2 {
            Some((RelocationKind::PcRel8, 1))
        } else {
            None
        }
    }

    proof fn lemma_round_trip(value: Self, rest: Seq<u8>) {
    }

    proof fn lemma_decoding_consumes(input: Seq<u8>) {
        if input.len() > 0 {
            assert(input.take(1) =~= seq![input[0]]);
        }
    }

    fn write(&self, out: &mut Vec<u8>) {
        let tag: u8 = match self {
            RelocationKind::Abs8 => 0,
            RelocationKind::PcRel4 => 1,
            RelocationKind::PcRel8 => 2,
        };
        out.push(tag);
        assert(out@ =~= old(out)@ + seq![tag]);
    }

    fn read(input: &[u8], pos: usize) -> (res: Option<(Self, usize)>) {
        if pos >= input.len() {
            return None;
        }
        let tag = input[pos];
        if tag == 0 {
            Some((RelocationKind::Abs8, pos + 1))
        } else if tag == 1 {
            Some((RelocationKind::PcRel4, pos + 1))
        } else if tag == 2 {
            Some((RelocationKind::PcRel8, pos + 1))
        } else {
            None
        }
    }
}

impl CustomSectionProtection {
    /// The byte that numbers the variant.
    pub open spec fn tag(self) -> u8 {
        match self {
            CustomSectionProtection::Read => 0,
            CustomSectionProtection::ReadExecute => 1,
        }
    }
}

impl Codec for CustomSectionProtection {
    type Model = CustomSectionProtection;

    open spec fn model(&self) -> Self::Model {
        *self
    }

    open spec fn encoding(model: Self::Model) -> Seq<u8> {
        seq![model.tag()]
    }

    open spec fn decoding(input: Seq<u8>) -> Option<(Self::Model, int)> {
        if input.len() == 0 {
            None
        } else if input[0] == 0 {
            Some((CustomSectionProtection::Read, 1))
        } else if input[0] == 1 {
            Some((CustomSectionProtection::ReadExecute, 1))
        } else {
            None
        }
    }

    proof fn lemma_round_trip(value: Self, rest: Seq<u8>) {
    }

    proof fn lemma_decoding_consumes(input: Seq<u8>) {
        if input.len() > 0 {
            assert(input.take(1) =~= seq![input[0]]);
        }
    }

    fn write(&self, out: &mut Vec<u8>) {
        let tag: u8 = match self {
            CustomSectionProtection::Read => 0,
            CustomSectionProtection::ReadExecute => 1,
        };
        out.push(tag);
        assert(out@ =~= old(out)@ + seq![tag]);
    }

    fn read(input: &[u8], pos: usize) -> (res: Option<(Self, usize)>) {
        if pos >= input.len() {
            return None;
        }
        let tag = input[pos];
        if tag == 0 {
            Some((CustomSectionProtection::Read, pos + 1))
        } else if tag == 1 {
            Some((CustomSectionProtection::ReadExecute, pos + 1))
        } else {
            None
        }
    }
}

impl TableStyle {
    /// The byte that numbers the variant.
    pub open spec fn tag(self) -> u8 {
        match self {
            TableStyle::CallerChecksSignature => 0,
        }
    }
}

impl Codec for TableStyle {
    type Model = TableStyle;

    open spec fn model(&self) -> Self::Model {
        *self
    }

    open spec fn encoding(model: Self::Model) -> Seq<u8> {
        seq![model.tag()]
    }

    open spec fn decoding(input: Seq<u8>) -> Option<(Self::Model, int)> {
        if input.len() == 0 {
            None
        } else if input[0] == 0 {
            Some((TableStyle::CallerChecksSignature, 1))
        } else {
            None
        }
    }

    proof fn lemma_round_trip(value: Self, rest: Seq<u8>) {
    }

    proof fn lemma_decoding_consumes(input: Seq<u8>) {
        if input.len() > 0 {
            assert(input.take(1) =~= seq![input[0]]);
        }
    }

    fn write(&self, out: &mut Vec<u8>) {
        let tag: u8 = match self {
            TableStyle::CallerChecksSignature => 0,
        };
        out.push(tag);
        assert(out@ =~= old(out)@ + seq![tag]);
    }

    fn read(input: &[u8], pos: usize) -> (res: Option<(Self, usize)>) {
        if pos >= input.len() {
            return None;
        }
        let tag = input[pos];
        if tag == 0 {
            Some((TableStyle::CallerChecksSignature, pos + 1))
        } else {
            None
        }
    }
}

impl Codec for RelocationTarget {
    type Model = RelocationTarget;

    open spec fn model(&self) -> Self::Model {
        *self
    }

    open spec fn encoding(model: Self::Model) -> Seq<u8> {
        match model {
            RelocationTarget::LocalFunc(index) => seq![0u8] + u32::encoding(index),
            RelocationTarget::LibCall(index) => seq![1u8] + u32::encoding(index),
            RelocationTarget::CustomSection(index) => seq![2u8] + u32::encoding(index),
        }
    }

    open spec fn decoding(input: Seq<u8>) -> Option<(Self::Model, int)> {
        if input.len() == 0 || input[0] > 2 {
            None
        } else {
            match u32::decoding(input.skip(1)) {
                None => None,
                Some((index, n)) => if input[0] == 0 {
                    Some((RelocationTarget::LocalFunc(index), 1 + n))
                } else if input[0] == 1 {
                    Some((RelocationTarget::LibCall(index), 1 + n))
                } else {
                    Some((RelocationTarget::CustomSection(index), 1 + n))
                },
            }
        }
    }

    proof fn lemma_round_trip(value: Self, rest: Seq<u8>) {
        let index = match value {
            RelocationTarget::LocalFunc(index) => index,
            RelocationTarget::LibCall(index) => index,
            RelocationTarget::CustomSection(index) => index,
        };
        let input = Self::encoding(value.model()) + rest;
        u32::lemma_round_trip(index, rest);
        assert(input.skip(1) =~= u32::encoding(index) + rest);
    }

    proof fn lemma_decoding_consumes(input: Seq<u8>) {
        if input.len() > 0 {
            u32::lemma_decoding_consumes(input.skip(1));
            if let Some((index, n)) = u32::decoding(input.skip(1)) {
                assert(input.take(1 + n) =~= seq![input[0]] + input.skip(1).take(n));
            }
        }
    }

    fn write(&self, out: &mut Vec<u8>) {
        match self {
            RelocationTarget::LocalFunc(index) => {
                out.push(0u8);
                index.write(out);
                assert(out@ =~= old(out)@ + Self::encoding(self.model()));
            },
            RelocationTarget::LibCall(index) => {
                out.push(1u8);
                index.write(out);
                assert(out@ =~= old(out)@ + Self::encoding(self.model()));
            },
            RelocationTarget::CustomSection(index) => {
                out.push(2u8);
                index.write(out);
                assert(out@ =~= old(out)@ + Self::encoding(self.model()));
            },
        }
    }

    fn read(input: &[u8], pos: usize) -> (res: Option<(Self, usize)>) {
        if pos >= input.len() || input[pos] > 2 {
            return None;
        }
        let tag = input[pos];
        assert(input@.skip(pos as int).skip(1) =~= input@.skip(pos + 1));
        let (index, next) = match u32::read(input, pos + 1) {
            Some(read) => read,
            None => {
                return None;
            },
        };
        if tag == 0 {
            Some((RelocationTarget::LocalFunc(index), next))
        } else if tag == 1 {
            Some((RelocationTarget::LibCall(index), next))
        } else {
            Some((RelocationTarget::CustomSection(index), next))
        }
    }
}

impl Codec for MemoryStyle {
    type Model = MemoryStyle;

    open spec fn model(&self) -> Self::Model {
        *self
    }

    open spec fn encoding(model: Self::Model) -> Seq<u8> {
        match model {
            MemoryStyle::Dynamic { offset_guard_size } => seq![0u8] + u64::encoding(
                offset_guard_size,
            ),
            MemoryStyle::Static { bound, offset_guard_size } => seq![1u8] + u32::encoding(bound)
                + u64::encoding(offset_guard_size),
        }
    }

    open spec fn decoding(input: Seq<u8>) -> Option<(Self::Model, int)> {
        if input.len() == 0 {
            None
        } else if input[0] == 0 {
            match u64::decoding(input.skip(1)) {
                None => None,
                Some((offset_guard_size, n)) => Some(
                    (MemoryStyle::Dynamic { offset_guard_size }, 1 + n),
                ),
            }
        } else if input[0] == 1 {
            match u32::decoding(input.skip(1)) {
                None => None,
                Some((bound, n)) => match u64::decoding(input.skip(1 + n)) {
                    None => None,
                    Some((offset_guard_size, m)) => Some(
                        (MemoryStyle::Static { bound, offset_guard_size }, 1 + n + m),
                    ),
                },
            }
        } else {
            None
        }
    }

    proof fn lemma_round_trip(value: Self, rest: Seq<u8>) {
        let input = Self::encoding(value.model()) + rest;
        match value {
            MemoryStyle::Dynamic { offset_guard_size } => {
                u64::lemma_round_trip(offset_guard_size, rest);
                assert(input.skip(1) =~= u64::encoding(offset_guard_size) + rest);
            },
            MemoryStyle::Static { bound, offset_guard_size } => {
                let guard = u64::encoding(offset_guard_size);
                u32::lemma_round_trip(bound, guard + rest);
                u64::lemma_round_trip(offset_guard_size, rest);
                assert(input.skip(1) =~= u32::encoding(bound) + (guard + rest));
                assert(input.skip(1 + u32::encoding(bound).len() as int) =~= guard + rest);
            },
        }
    }

    proof fn lemma_decoding_consumes(input: Seq<u8>) {
        if input.len() > 0 {
            let fields = input.skip(1);
            u64::lemma_decoding_consumes(fields);
            u32::lemma_decoding_consumes(fields);
            if input[0] == 0 {
                if let Some((offset_guard_size, n)) = u64::decoding(fields) {
                    assert(input.take(1 + n) =~= seq![input[0]] + fields.take(n));
                }
            } else if let Some((bound, n)) = u32::decoding(fields) {
                u64::lemma_decoding_consumes(input.skip(1 + n));
                if let Some((offset_guard_size, m)) = u64::decoding(input.skip(1 + n)) {
                    assert(input.take(1 + n + m) =~= seq![input[0]] + fields.take(n) + input.skip(
                        1 + n,
                    ).take(m));
                }
            }
        }
    }

    fn write(&self, out: &mut Vec<u8>) {
        match self {
            MemoryStyle::Dynamic { offset_guard_size } => {
                out.push(0u8);
                offset_guard_size.write(out);
                assert(out@ =~= old(out)@ + Self::encoding(self.model()));
            },
            MemoryStyle::Static { bound, offset_guard_size } => {
                out.push(1u8);
                bound.write(out);
                offset_guard_size.write(out);
                assert(out@ =~= old(out)@ + Self::encoding(self.model()));
            },
        }
    }

    fn read(input: &[u8], pos: usize) -> (res: Option<(Self, usize)>) {
        if pos >= input.len() {
            return None;
        }
        let tag = input[pos];
        assert(input@.skip(pos as int).skip(1) =~= input@.skip(pos + 1));
        if tag == 0 {
            match u64::read(input, pos + 1) {
                Some((offset_guard_size, next)) => Some(
                    (MemoryStyle::Dynamic { offset_guard_size }, next),
                ),
                None => None,
            }
        } else if tag == 1 {
            let (bound, at) = match u32::read(input, pos + 1) {
                Some(read) => read,
                None => {
                    return None;
                },
            };
            assert(input@.skip(pos as int).skip(5) =~= input@.skip(at as int));
            match u64::read(input, at) {
                Some((offset_guard_size, next)) => Some(
                    (MemoryStyle::Static { bound, offset_guard_size }, next),
                ),
                None => None,
            }
        } else {
            None
        }
    }
}

impl Codec for CompiledFunctionUnwindInfo {
    type Model = Option<Seq<u8>>;

    open spec fn model(&self) -> Self::Model {
        match self {
            CompiledFunctionUnwindInfo::WindowsX64(table) => Some(table@),
            CompiledFunctionUnwindInfo::Dwarf => None,
        }
    }

    open spec fn encoding(model: Self::Model) -> Seq<u8> {
        match model {
            Some(table) => seq![0u8] + <Vec<u8> as Codec>::encoding(table),
            None => seq![1u8],
        }
    }

    open spec fn decoding(input: Seq<u8>) -> Option<(Self::Model, int)> {
        if input.len() == 0 {
            None
        } else if input[0] == 0 {
            match <Vec<u8> as Codec>::decoding(input.skip(1)) {
                None => None,
                Some((table, n)) => Some((Some(table), 1 + n)),
            }
        } else if input[0] == 1 {
            Some((None, 1))
        } else {
            None
        }
    }

    proof fn lemma_round_trip(value: Self, rest: Seq<u8>) {
        let input = Self::encoding(value.model()) + rest;
        match value {
            CompiledFunctionUnwindInfo::WindowsX64(table) => {
                <Vec<u8> as Codec>::lemma_round_trip(table, rest);
                assert(table.model() =~= table@);
                assert(input.skip(1) =~= <Vec<u8> as Codec>::encoding(table.model()) + rest);
            },
            CompiledFunctionUnwindInfo::Dwarf => {},
        }
    }

    proof fn lemma_decoding_consumes(input: Seq<u8>) {
        if input.len() > 0 {
            <Vec<u8> as Codec>::lemma_decoding_consumes(input.skip(1));
            assert(input.take(1) =~= seq![input[0]]);
            if let Some((table, n)) = <Vec<u8> as Codec>::decoding(input.skip(1)) {
                assert(input.take(1 + n) =~= seq![input[0]] + input.skip(1).take(n));
            }
        }
    }

    fn write(&self, out: &mut Vec<u8>) {
        match self {
            CompiledFunctionUnwindInfo::WindowsX64(table) => {
                out.push(0u8);
                table.write(out);
                assert(table.model() =~= table@);
                assert(out@ =~= old(out)@ + Self::encoding(self.model()));
            },
            CompiledFunctionUnwindInfo::Dwarf => {
                out.push(1u8);
                assert(out@ =~= old(out)@ + Self::encoding(self.model()));
            },
        }
    }

    fn read(input: &[u8], pos: usize) -> (res: Option<(Self, usize)>) {
        if pos >= input.len() {
            return None;
        }
        let tag = input[pos];
        assert(input@.skip(pos as int).skip(1) =~= input@.skip(pos + 1));
        if tag == 0 {
            match <Vec<u8> as Codec>::read(input, pos + 1) {
                Some((table, next)) => {
                    assert(table.model() =~= table@);
                    Some((CompiledFunctionUnwindInfo::WindowsX64(table), next))
                },
                None => None,
            }
        } else if tag == 1 {
            Some((CompiledFunctionUnwindInfo::Dwarf, pos + 1))
        } else {
            None
        }
    }
}

/// The fields of a `Dwarf`, in the order in which they are written.

pub type DwarfFields = u32;

impl Codec for Dwarf {
    type Model = Dwarf;

    open spec fn model(&self) -> Self::Model {
        *self
    }

    #[verifier::opaque]
    open spec fn encoding(model: Self::Model) -> Seq<u8> {
        DwarfFields::encoding(model.eh_frame)
    }

    #[verifier::opaque]
    open spec fn decoding(input: Seq<u8>) -> Option<(Self::Model, int)> {
        match DwarfFields::decoding(input) {
            Some((eh_frame, n)) => Some((Dwarf { eh_frame }, n)),
            None => None,
        }
    }

    proof fn lemma_round_trip(value: Self, rest: Seq<u8>) {
        reveal(<Dwarf as Codec>::encoding);
        reveal(<Dwarf as Codec>::decoding);
        let fields: DwarfFields = value.eh_frame;
        DwarfFields::lemma_round_trip(fields, rest);
    }

    proof fn lemma_decoding_consumes(input: Seq<u8>) {
        reveal(<Dwarf as Codec>::encoding);
        reveal(<Dwarf as Codec>::decoding);
        DwarfFields::lemma_decoding_consumes(input);
    }

    fn write(&self, out: &mut Vec<u8>) {
        let ghost before_eh_frame = out@;
        self.eh_frame.write(out);
        proof {
            reveal(<Dwarf as Codec>::encoding);
            let from_eh_frame = u32::encoding(self.eh_frame.model());
            assert(out@ == before_eh_frame + from_eh_frame);
        }
    }

    fn read(input: &[u8], pos: usize) -> (res: Option<(Self, usize)>) {
        proof {
            reveal(<Dwarf as Codec>::decoding);
        }
        match DwarfFields::read(input, pos) {
            Some((eh_frame, next)) => Some((Dwarf { eh_frame }, next)),
            None => None,
        }
    }
}

/// The fields of a `TrapInformation`, in the order in which they are written.

pub type TrapInformationFields = (u32, u32);

impl Codec for TrapInformation {
    type Model = TrapInformation;

    open spec fn model(&self) -> Self::Model {
        *self
    }

    #[verifier::opaque]
    open spec fn encoding(model: Self::Model) -> Seq<u8> {
        TrapInformationFields::encoding((model.code_offset, model.trap_code))
    }

    #[verifier::opaque]
    open spec fn decoding(input: Seq<u8>) -> Option<(Self::Model, int)> {
        match TrapInformationFields::decoding(input) {
            Some(((code_offset, trap_code), n)) => Some((
                TrapInformation { code_offset, trap_code },
                n,
            )),
            None => None,
        }
    }

    proof fn lemma_round_trip(value: Self, rest: Seq<u8>) {
        reveal(<TrapInformation as Codec>::encoding);
        reveal(<TrapInformation as Codec>::decoding);
        let fields: TrapInformationFields = (value.code_offset, value.trap_code);
        TrapInformationFields::lemma_round_trip(fields, rest);
    }

    proof fn lemma_decoding_consumes(input: Seq<u8>) {
        reveal(<TrapInformation as Codec>::encoding);
        reveal(<TrapInformation as Codec>::decoding);
        TrapInformationFields::lemma_decoding_consumes(input);
    }

    fn write(&self, out: &mut Vec<u8>) {
        let ghost before_code_offset = out@;
        self.code_offset.write(out);
        let ghost before_trap_code = out@;
        self.trap_code.write(out);
        proof {
            reveal(<TrapInformation as Codec>::encoding);
            let from_trap_code = u32::encoding(self.trap_code.model());
            assert(out@ == before_trap_code + from_trap_code);
            let from_code_offset = u32::encoding(self.code_offset.model()) + from_trap_code;
            assert(out@ =~= before_code_offset + from_code_offset);
        }
    }

    fn read(input: &[u8], pos: usize) -> (res: Option<(Self, usize)>) {
        proof {
            reveal(<TrapInformation as Codec>::decoding);
        }
        match TrapInformationFields::read(input, pos) {
            Some(((code_offset, trap_code), next)) => Some((
                TrapInformation {
                    code_offset,
                    trap_code,
                },
                next,
            )),
            None => None,
        }
    }
}

/// The fields of a `InstructionAddressMap`, in the order in which they are written.

pub type InstructionAddressMapFields = (u32, (u32, u32));

impl Codec for InstructionAddressMap {
    type Model = InstructionAddressMap;

    open spec fn model(&self) -> Self::Model {
        *self
    }

    #[verifier::opaque]
    open spec fn encoding(model: Self::Model) -> Seq<u8> {
        InstructionAddressMapFields::encoding((model.srcloc, (model.code_offset, model.code_len)))
    }

    #[verifier::opaque]
    open spec fn decoding(input: Seq<u8>) -> Option<(Self::Model, int)> {
        match InstructionAddressMapFields::decoding(input) {
            Some(((srcloc, (code_offset, code_len)), n)) => Some((
                InstructionAddressMap { srcloc, code_offset, code_len },
                n,
            )),
            None => None,
        }
    }

    proof fn lemma_round_trip(value: Self, rest: Seq<u8>) {
        reveal(<InstructionAddressMap as Codec>::encoding);
        reveal(<InstructionAddressMap as Codec>::decoding);
        let fields: InstructionAddressMapFields = (
            value.srcloc,
            (value.code_offset, value.code_len),
        );
        InstructionAddressMapFields::lemma_round_trip(fields, rest);
    }

    proof fn lemma_decoding_consumes(input: Seq<u8>) {
        reveal(<InstructionAddressMap as Codec>::encoding);
        reveal(<InstructionAddressMap as Codec>::decoding);
        InstructionAddressMapFields::lemma_decoding_consumes(input);
    }

    fn write(&self, out: &mut Vec<u8>) {
        let ghost before_srcloc = out@;
        self.srcloc.write(out);
        let ghost before_code_offset = out@;
        self.code_offset.write(out);
        let ghost before_code_len = out@;
        self.code_len.write(out);
        proof {
            reveal(<InstructionAddressMap as Codec>::encoding);
            let from_code_len = u32::encoding(self.code_len.model());
            assert(out@ == before_code_len + from_code_len);
            let from_code_offset = u32::encoding(self.code_offset.model()) + from_code_len;
            assert(out@ =~= before_code_offset + from_code_offset);
            let from_srcloc = u32::encoding(self.srcloc.model()) + from_code_offset;
            assert(out@ =~= before_srcloc + from_srcloc);
        }
    }

    fn read(input: &[u8], pos: usize) -> (res: Option<(Self, usize)>) {
        proof {
            reveal(<InstructionAddressMap as Codec>::decoding);
        }
        match InstructionAddressMapFields::read(input, pos) {
            Some(((srcloc, (code_offset, code_len)), next)) => Some((
                InstructionAddressMap {
                    srcloc,
                    code_offset,
                    code_len,
                },
                next,
            )),
            None => None,
        }
    }
}

/// The fields of a `Features`, in the order in which they are written.

pub type FeaturesFields = (bool, (bool, (bool, (bool, bool))));

impl Codec for Features {
    type Model = Features;

    open spec fn model(&self) -> Self::Model {
        *self
    }

    #[verifier::opaque]
    open spec fn encoding(model: Self::Model) -> Seq<u8> {
        FeaturesFields::encoding((
            model.threads,
            (model.reference_types, (model.simd, (model.bulk_memory, model.multi_value))),
        ))
    }

    #[verifier::opaque]
    open spec fn decoding(input: Seq<u8>) -> Option<(Self::Model, int)> {
        match FeaturesFields::decoding(input) {
            Some(((threads, (reference_types, (simd, (bulk_memory, multi_value)))), n)) => Some((
                Features { threads, reference_types, simd, bulk_memory, multi_value },
                n,
            )),
            None => None,
        }
    }

    proof fn lemma_round_trip(value: Self, rest: Seq<u8>) {
        reveal(<Features as Codec>::encoding);
        reveal(<Features as Codec>::decoding);
        let fields: FeaturesFields = (
            value.threads,
            (value.reference_types, (value.simd, (value.bulk_memory, value.multi_value))),
        );
        FeaturesFields::lemma_round_trip(fields, rest);
    }

    proof fn lemma_decoding_consumes(input: Seq<u8>) {
        reveal(<Features as Codec>::encoding);
        reveal(<Features as Codec>::decoding);
        FeaturesFields::lemma_decoding_consumes(input);
    }

    fn write(&self, out: &mut Vec<u8>) {
        let ghost before_threads = out@;
        self.threads.write(out);
        let ghost before_reference_types = out@;
        self.reference_types.write(out);
        let ghost before_simd = out@;
        self.simd.write(out);
        let ghost before_bulk_memory = out@;
        self.bulk_memory.write(out);
        let ghost before_multi_value = out@;
        self.multi_value.write(out);
        proof {
            reveal(<Features as Codec>::encoding);
            let from_multi_value = bool::encoding(self.multi_value.model());
            assert(out@ == before_multi_value + from_multi_value);
            let from_bulk_memory = bool::encoding(self.bulk_memory.model()) + from_multi_value;
            assert(out@ =~= before_bulk_memory + from_bulk_memory);
            let from_simd = bool::encoding(self.simd.model()) + from_bulk_memory;
            assert(out@ =~= before_simd + from_simd);
            let from_reference_types = bool::encoding(self.reference_types.model()) + from_simd;
            assert(out@ =~= before_reference_types + from_reference_types);
            let from_threads = bool::encoding(self.threads.model()) + from_reference_types;
            assert(out@ =~= before_threads + from_threads);
        }
    }

    fn read(input: &[u8], pos: usize) -> (res: Option<(Self, usize)>) {
        proof {
            reveal(<Features as Codec>::decoding);
        }
        match FeaturesFields::read(input, pos) {
            Some(((
                threads,
                (reference_types, (simd, (bulk_memory, multi_value))),
            ), next)) => Some((
                Features {
                    threads,
                    reference_types,
                    simd,
                    bulk_memory,
                    multi_value,
                },
                next,
            )),
            None => None,
        }
    }
}

/// The fields of a `MemoryType`, in the order in which they are written.

pub type MemoryTypeFields = (u32, (Option<u32>, bool));

impl Codec for MemoryType {
    type Model = MemoryType;

    open spec fn model(&self) -> Self::Model {
        *self
    }

    #[verifier::opaque]
    open spec fn encoding(model: Self::Model) -> Seq<u8> {
        MemoryTypeFields::encoding((model.minimum, (model.maximum, model.shared)))
    }

    #[verifier::opaque]
    open spec fn decoding(input: Seq<u8>) -> Option<(Self::Model, int)> {
        match MemoryTypeFields::decoding(input) {
            Some(((minimum, (maximum, shared)), n)) => Some((
                MemoryType { minimum, maximum, shared },
                n,
            )),
            None => None,
        }
    }

    proof fn lemma_round_trip(value: Self, rest: Seq<u8>) {
        reveal(<MemoryType as Codec>::encoding);
        reveal(<MemoryType as Codec>::decoding);
        let fields: MemoryTypeFields = (value.minimum, (value.maximum, value.shared));
        MemoryTypeFields::lemma_round_trip(fields, rest);
    }

    proof fn lemma_decoding_consumes(input: Seq<u8>) {
        reveal(<MemoryType as Codec>::encoding);
        reveal(<MemoryType as Codec>::decoding);
        MemoryTypeFields::lemma_decoding_consumes(input);
    }

    fn write(&self, out: &mut Vec<u8>) {
        let ghost before_minimum = out@;
        self.minimum.write(out);
        let ghost before_maximum = out@;
        self.maximum.write(out);
        let ghost before_shared = out@;
        self.shared.write(out);
        proof {
            reveal(<MemoryType as Codec>::encoding);
            let from_shared = bool::encoding(self.shared.model());
            assert(out@ == before_shared + from_shared);
            let from_maximum = <Option<u32> as Codec>::encoding(self.maximum.model()) + from_shared;
            assert(out@ =~= before_maximum + from_maximum);
            let from_minimum = u32::encoding(self.minimum.model()) + from_maximum;
            assert(out@ =~= before_minimum + from_minimum);
        }
    }

    fn read(input: &[u8], pos: usize) -> (res: Option<(Self, usize)>) {
        proof {
            reveal(<MemoryType as Codec>::decoding);
        }
        match MemoryTypeFields::read(input, pos) {
            Some(((minimum, (maximum, shared)), next)) => Some((
                MemoryType {
                    minimum,
                    maximum,
                    shared,
                },
                next,
            )),
            None => None,
        }
    }
}

/// The fields of a `TableType`, in the order in which they are written.

pub type TableTypeFields = (Type, (u32, Option<u32>));

impl Codec for TableType {
    type Model = TableType;

    open spec fn model(&self) -> Self::Model {
        *self
    }

    #[verifier::opaque]
    open spec fn encoding(model: Self::Model) -> Seq<u8> {
        TableTypeFields::encoding((model.ty, (model.minimum, model.maximum)))
    }

    #[verifier::opaque]
    open spec fn decoding(input: Seq<u8>) -> Option<(Self::Model, int)> {
        match TableTypeFields::decoding(input) {
            Some(((ty, (minimum, maximum)), n)) => Some((TableType { ty, minimum, maximum }, n)),
            None => None,
        }
    }

    proof fn lemma_round_trip(value: Self, rest: Seq<u8>) {
        reveal(<TableType as Codec>::encoding);
        reveal(<TableType as Codec>::decoding);
        let fields: TableTypeFields = (value.ty, (value.minimum, value.maximum));
        TableTypeFields::lemma_round_trip(fields, rest);
    }

    proof fn lemma_decoding_consumes(input: Seq<u8>) {
        reveal(<TableType as Codec>::encoding);
        reveal(<TableType as Codec>::decoding);
        TableTypeFields::lemma_decoding_consumes(input);
    }

    fn write(&self, out: &mut Vec<u8>) {
        let ghost before_ty = out@;
        self.ty.write(out);
        let ghost before_minimum = out@;
        self.minimum.write(out);
        let ghost before_maximum = out@;
        self.maximum.write(out);
        proof {
            reveal(<TableType as Codec>::encoding);
            let from_maximum = <Option<u32> as Codec>::encoding(self.maximum.model());
            assert(out@ == before_maximum + from_maximum);
            let from_minimum = u32::encoding(self.minimum.model()) + from_maximum;
            assert(out@ =~= before_minimum + from_minimum);
            let from_ty = Type::encoding(self.ty.model()) + from_minimum;
            assert(out@ =~= before_ty + from_ty);
        }
    }

    fn read(input: &[u8], pos: usize) -> (res: Option<(Self, usize)>) {
        proof {
            reveal(<TableType as Codec>::decoding);
        }
        match TableTypeFields::read(input, pos) {
            Some(((ty, (minimum, maximum)), next)) => Some((
                TableType {
                    ty,
                    minimum,
                    maximum,
                },
                next,
            )),
            None => None,
        }
    }
}

/// The fields of a `Relocation`, in the order in which they are written.

pub type RelocationFields = (RelocationKind, (RelocationTarget, (u32, i64)));

impl Codec for Relocation {
    type Model = Relocation;

    open spec fn model(&self) -> Self::Model {
        *self
    }

    #[verifier::opaque]
    open spec fn encoding(model: Self::Model) -> Seq<u8> {
        RelocationFields::encoding((model.kind, (model.reloc_target, (model.offset, model.addend))))
    }

    #[verifier::opaque]
    open spec fn decoding(input: Seq<u8>) -> Option<(Self::Model, int)> {
        match RelocationFields::decoding(input) {
            Some(((kind, (reloc_target, (offset, addend))), n)) => Some((
                Relocation { kind, reloc_target, offset, addend },
                n,
            )),
            None => None,
        }
    }

    proof fn lemma_round_trip(value: Self, rest: Seq<u8>) {
        reveal(<Relocation as Codec>::encoding);
        reveal(<Relocation as Codec>::decoding);
        let fields: RelocationFields = (
            value.kind,
            (value.reloc_target, (value.offset, value.addend)),
        );
        RelocationFields::lemma_round_trip(fields, rest);
    }

    proof fn lemma_decoding_consumes(input: Seq<u8>) {
        reveal(<Relocation as Codec>::encoding);
        reveal(<Relocation as Codec>::decoding);
        RelocationFields::lemma_decoding_consumes(input);
    }

    fn write(&self, out: &mut Vec<u8>) {
        let ghost before_kind = out@;
        self.kind.write(out);
        let ghost before_reloc_target = out@;
        self.reloc_target.write(out);
        let ghost before_offset = out@;
        self.offset.write(out);
        let ghost before_addend = out@;
        self.addend.write(out);
        proof {
            reveal(<Relocation as Codec>::encoding);
            let from_addend = i64::encoding(self.addend.model());
            assert(out@ == before_addend + from_addend);
            let from_offset = u32::encoding(self.offset.model()) + from_addend;
            assert(out@ =~= before_offset + from_offset);
            let from_reloc_target = RelocationTarget::encoding(self.reloc_target.model())
                + from_offset;
            assert(out@ =~= before_reloc_target + from_reloc_target);
            let from_kind = RelocationKind::encoding(self.kind.model()) + from_reloc_target;
            assert(out@ =~= before_kind + from_kind);
        }
    }

    fn read(input: &[u8], pos: usize) -> (res: Option<(Self, usize)>) {
        proof {
            reveal(<Relocation as Codec>::decoding);
        }
        match RelocationFields::read(input, pos) {
            Some(((kind, (reloc_target, (offset, addend))), next)) => Some((
                Relocation {
                    kind,
                    reloc_target,
                    offset,
                    addend,
                },
                next,
            )),
            None => None,
        }
    }
}

/// The fields of a `FunctionBody`, in the order in which they are written.

pub type FunctionBodyFields = (Vec<u8>, Option<CompiledFunctionUnwindInfo>);

impl Codec for FunctionBody {
    type Model = <FunctionBodyFields as Codec>::Model;

    open spec fn model(&self) -> Self::Model {
        (self.body.model(), self.unwind_info.model())
    }

    #[verifier::opaque]
    open spec fn encoding(model: Self::Model) -> Seq<u8> {
        FunctionBodyFields::encoding(model)
    }

    #[verifier::opaque]
    open spec fn decoding(input: Seq<u8>) -> Option<(Self::Model, int)> {
        FunctionBodyFields::decoding(input)
    }

    proof fn lemma_round_trip(value: Self, rest: Seq<u8>) {
        reveal(<FunctionBody as Codec>::encoding);
        reveal(<FunctionBody as Codec>::decoding);
        let fields: FunctionBodyFields = (value.body, value.unwind_info);
        FunctionBodyFields::lemma_round_trip(fields, rest);
    }

    proof fn lemma_decoding_consumes(input: Seq<u8>) {
        reveal(<FunctionBody as Codec>::encoding);
        reveal(<FunctionBody as Codec>::decoding);
        FunctionBodyFields::lemma_decoding_consumes(input);
    }

    fn write(&self, out: &mut Vec<u8>) {
        let ghost before_body = out@;
        self.body.write(out);
        let ghost before_unwind_info = out@;
        self.unwind_info.write(out);
        proof {
            reveal(<FunctionBody as Codec>::encoding);
            let from_unwind_info = <Option<CompiledFunctionUnwindInfo> as Codec>::encoding(
                self.unwind_info.model(),
            );
            assert(out@ == before_unwind_info + from_unwind_info);
            let from_body = <Vec<u8> as Codec>::encoding(self.body.model()) + from_unwind_info;
            assert(out@ =~= before_body + from_body);
        }
    }

    fn read(input: &[u8], pos: usize) -> (res: Option<(Self, usize)>) {
        proof {
            reveal(<FunctionBody as Codec>::decoding);
        }
        match FunctionBodyFields::read(input, pos) {
            Some(((body, unwind_info), next)) => Some((FunctionBody { body, unwind_info }, next)),
            None => None,
        }
    }
}

/// The fields of a `CustomSection`, in the order in which they are written.

pub type CustomSectionFields = (CustomSectionProtection, Vec<u8>);

impl Codec for CustomSection {
    type Model = <CustomSectionFields as Codec>::Model;

    open spec fn model(&self) -> Self::Model {
        (self.protection.model(), self.bytes.model())
    }

    #[verifier::opaque]
    open spec fn encoding(model: Self::Model) -> Seq<u8> {
        CustomSectionFields::encoding(model)
    }

    #[verifier::opaque]
    open spec fn decoding(input: Seq<u8>) -> Option<(Self::Model, int)> {
        CustomSectionFields::decoding(input)
    }

    proof fn lemma_round_trip(value: Self, rest: Seq<u8>) {
        reveal(<CustomSection as Codec>::encoding);
        reveal(<CustomSection as Codec>::decoding);
        let fields: CustomSectionFields = (value.protection, value.bytes);
        CustomSectionFields::lemma_round_trip(fields, rest);
    }

    proof fn lemma_decoding_consumes(input: Seq<u8>) {
        reveal(<CustomSection as Codec>::encoding);
        reveal(<CustomSection as Codec>::decoding);
        CustomSectionFields::lemma_decoding_consumes(input);
    }

    fn write(&self, out: &mut Vec<u8>) {
        let ghost before_protection = out@;
        self.protection.write(out);
        let ghost before_bytes = out@;
        self.bytes.write(out);
        proof {
            reveal(<CustomSection as Codec>::encoding);
            let from_bytes = <Vec<u8> as Codec>::encoding(self.bytes.model());
            assert(out@ == before_bytes + from_bytes);
            let from_protection = CustomSectionProtection::encoding(self.protection.model())
                + from_bytes;
            assert(out@ =~= before_protection + from_protection);
        }
    }

    fn read(input: &[u8], pos: usize) -> (res: Option<(Self, usize)>) {
        proof {
            reveal(<CustomSection as Codec>::decoding);
        }
        match CustomSectionFields::read(input, pos) {
            Some(((protection, bytes), next)) => Some((CustomSection { protection, bytes }, next)),
            None => None,
        }
    }
}

/// The fields of a `FunctionType`, in the order in which they are written.

pub type FunctionTypeFields = (Vec<Type>, Vec<Type>);

impl Codec for FunctionType {
    type Model = <FunctionTypeFields as Codec>::Model;

    open spec fn model(&self) -> Self::Model {
        (self.params.model(), self.results.model())
    }

    #[verifier::opaque]
    open spec fn encoding(model: Self::Model) -> Seq<u8> {
        FunctionTypeFields::encoding(model)
    }

    #[verifier::opaque]
    open spec fn decoding(input: Seq<u8>) -> Option<(Self::Model, int)> {
        FunctionTypeFields::decoding(input)
    }

    proof fn lemma_round_trip(value: Self, rest: Seq<u8>) {
        reveal(<FunctionType as Codec>::encoding);
        reveal(<FunctionType as Codec>::decoding);
        let fields: FunctionTypeFields = (value.params, value.results);
        FunctionTypeFields::lemma_round_trip(fields, rest);
    }

    proof fn lemma_decoding_consumes(input: Seq<u8>) {
        reveal(<FunctionType as Codec>::encoding);
        reveal(<FunctionType as Codec>::decoding);
        FunctionTypeFields::lemma_decoding_consumes(input);
    }

    fn write(&self, out: &mut Vec<u8>) {
        let ghost before_params = out@;
        self.params.write(out);
        let ghost before_results = out@;
        self.results.write(out);
        proof {
            reveal(<FunctionType as Codec>::encoding);
            let from_results = <Vec<Type> as Codec>::encoding(self.results.model());
            assert(out@ == before_results + from_results);
            let from_params = <Vec<Type> as Codec>::encoding(self.params.model()) + from_results;
            assert(out@ =~= before_params + from_params);
        }
    }

    fn read(input: &[u8], pos: usize) -> (res: Option<(Self, usize)>) {
        proof {
            reveal(<FunctionType as Codec>::decoding);
        }
        match FunctionTypeFields::read(input, pos) {
            Some(((params, results), next)) => Some((FunctionType { params, results }, next)),
            None => None,
        }
    }
}

/// The fields of a `ModuleInfo`, in the order in which they are written.

pub type ModuleInfoFields = (Vec<FunctionType>, (Vec<MemoryType>, Vec<TableType>));

impl Codec for ModuleInfo {
    type Model = <ModuleInfoFields as Codec>::Model;

    open spec fn model(&self) -> Self::Model {
        (self.signatures.model(), (self.memories.model(), self.tables.model()))
    }

    #[verifier::opaque]
    open spec fn encoding(model: Self::Model) -> Seq<u8> {
        ModuleInfoFields::encoding(model)
    }

    #[verifier::opaque]
    open spec fn decoding(input: Seq<u8>) -> Option<(Self::Model, int)> {
        ModuleInfoFields::decoding(input)
    }

    proof fn lemma_round_trip(value: Self, rest: Seq<u8>) {
        reveal(<ModuleInfo as Codec>::encoding);
        reveal(<ModuleInfo as Codec>::decoding);
        let fields: ModuleInfoFields = (value.signatures, (value.memories, value.tables));
        ModuleInfoFields::lemma_round_trip(fields, rest);
    }

    proof fn lemma_decoding_consumes(input: Seq<u8>) {
        reveal(<ModuleInfo as Codec>::encoding);
        reveal(<ModuleInfo as Codec>::decoding);
        ModuleInfoFields::lemma_decoding_consumes(input);
    }

    fn write(&self, out: &mut Vec<u8>) {
        let ghost before_signatures = out@;
        self.signatures.write(out);
        let ghost before_memories = out@;
        self.memories.write(out);
        let ghost before_tables = out@;
        self.tables.write(out);
        proof {
            reveal(<ModuleInfo as Codec>::encoding);
            let from_tables = <Vec<TableType> as Codec>::encoding(self.tables.model());
            assert(out@ == before_tables + from_tables);
            let from_memories = <Vec<MemoryType> as Codec>::encoding(self.memories.model())
                + from_tables;
            assert(out@ =~= before_memories + from_memories);
            let from_signatures = <Vec<FunctionType> as Codec>::encoding(self.signatures.model())
                + from_memories;
            assert(out@ =~= before_signatures + from_signatures);
        }
    }

    fn read(input: &[u8], pos: usize) -> (res: Option<(Self, usize)>) {
        proof {
            reveal(<ModuleInfo as Codec>::decoding);
        }
        match ModuleInfoFields::read(input, pos) {
            Some(((signatures, (memories, tables)), next)) => Some((
                ModuleInfo {
                    signatures,
                    memories,
                    tables,
                },
                next,
            )),
            None => None,
        }
    }
}

/// The fields of a `CompiledFunctionFrameInfo`, in the order in which they are written.

pub type CompiledFunctionFrameInfoFields = (Vec<TrapInformation>, Vec<InstructionAddressMap>);

impl Codec for CompiledFunctionFrameInfo {
    type Model = <CompiledFunctionFrameInfoFields as Codec>::Model;

    open spec fn model(&self) -> Self::Model {
        (self.traps.model(), self.address_map.model())
    }

    #[verifier::opaque]
    open spec fn encoding(model: Self::Model) -> Seq<u8> {
        CompiledFunctionFrameInfoFields::encoding(model)
    }

    #[verifier::opaque]
    open spec fn decoding(input: Seq<u8>) -> Option<(Self::Model, int)> {
        CompiledFunctionFrameInfoFields::decoding(input)
    }

    proof fn lemma_round_trip(value: Self, rest: Seq<u8>) {
        reveal(<CompiledFunctionFrameInfo as Codec>::encoding);
        reveal(<CompiledFunctionFrameInfo as Codec>::decoding);
        let fields: CompiledFunctionFrameInfoFields = (value.traps, value.address_map);
        CompiledFunctionFrameInfoFields::lemma_round_trip(fields, rest);
    }

    proof fn lemma_decoding_consumes(input: Seq<u8>) {
        reveal(<CompiledFunctionFrameInfo as Codec>::encoding);
        reveal(<CompiledFunctionFrameInfo as Codec>::decoding);
        CompiledFunctionFrameInfoFields::lemma_decoding_consumes(input);
    }

    fn write(&self, out: &mut Vec<u8>) {
        let ghost before_traps = out@;
        self.traps.write(out);
        let ghost before_address_map = out@;
        self.address_map.write(out);
        proof {
            reveal(<CompiledFunctionFrameInfo as Codec>::encoding);
            let from_address_map = <Vec<InstructionAddressMap> as Codec>::encoding(
                self.address_map.model(),
            );
            assert(out@ == before_address_map + from_address_map);
            let from_traps = <Vec<TrapInformation> as Codec>::encoding(self.traps.model())
                + from_address_map;
            assert(out@ =~= before_traps + from_traps);
        }
    }

    fn read(input: &[u8], pos: usize) -> (res: Option<(Self, usize)>) {
        proof {
            reveal(<CompiledFunctionFrameInfo as Codec>::decoding);
        }
        match CompiledFunctionFrameInfoFields::read(input, pos) {
            Some(((traps, address_map), next)) => Some((
                CompiledFunctionFrameInfo {
                    traps,
                    address_map,
                },
                next,
            )),
            None => None,
        }
    }
}

/// The fields of a `OwnedDataInitializer`, in the order in which they are written.

pub type OwnedDataInitializerFields = (u32, (u32, Vec<u8>));

impl Codec for OwnedDataInitializer {
    type Model = <OwnedDataInitializerFields as Codec>::Model;

    open spec fn model(&self) -> Self::Model {
        (self.memory_index.model(), (self.offset.model(), self.data.model()))
    }

    #[verifier::opaque]
    open spec fn encoding(model: Self::Model) -> Seq<u8> {
        OwnedDataInitializerFields::encoding(model)
    }

    #[verifier::opaque]
    open spec fn decoding(input: Seq<u8>) -> Option<(Self::Model, int)> {
        OwnedDataInitializerFields::decoding(input)
    }

    proof fn lemma_round_trip(value: Self, rest: Seq<u8>) {
        reveal(<OwnedDataInitializer as Codec>::encoding);
        reveal(<OwnedDataInitializer as Codec>::decoding);
        let fields: OwnedDataInitializerFields = (value.memory_index, (value.offset, value.data));
        OwnedDataInitializerFields::lemma_round_trip(fields, rest);
    }

    proof fn lemma_decoding_consumes(input: Seq<u8>) {
        reveal(<OwnedDataInitializer as Codec>::encoding);
        reveal(<OwnedDataInitializer as Codec>::decoding);
        OwnedDataInitializerFields::lemma_decoding_consumes(input);
    }

    fn write(&self, out: &mut Vec<u8>) {
        let ghost before_memory_index = out@;
        self.memory_index.write(out);
        let ghost before_offset = out@;
        self.offset.write(out);
        let ghost before_data = out@;
        self.data.write(out);
        proof {
            reveal(<OwnedDataInitializer as Codec>::encoding);
            let from_data = <Vec<u8> as Codec>::encoding(self.data.model());
            assert(out@ == before_data + from_data);
            let from_offset = u32::encoding(self.offset.model()) + from_data;
            assert(out@ =~= before_offset + from_offset);
            let from_memory_index = u32::encoding(self.memory_index.model()) + from_offset;
            assert(out@ =~= before_memory_index + from_memory_index);
        }
    }

    fn read(input: &[u8], pos: usize) -> (res: Option<(Self, usize)>) {
        proof {
            reveal(<OwnedDataInitializer as Codec>::decoding);
        }
        match OwnedDataInitializerFields::read(input, pos) {
            Some(((memory_index, (offset, data)), next)) => Some((
                OwnedDataInitializer {
                    memory_index,
                    offset,
                    data,
                },
                next,
            )),
            None => None,
        }
    }
}

/// The fields of a `CompileModuleInfo`, in the order in which they are written.

pub type CompileModuleInfoFields = (Features, (ModuleInfo, (Vec<MemoryStyle>, Vec<TableStyle>)));

impl Codec for CompileModuleInfo {
    type Model = <CompileModuleInfoFields as Codec>::Model;

    open spec fn model(&self) -> Self::Model {
        (
            self.features.model(),
            (self.module.model(), (self.memory_styles.model(), self.table_styles.model())),
        )
    }

    #[verifier::opaque]
    open spec fn encoding(model: Self::Model) -> Seq<u8> {
        CompileModuleInfoFields::encoding(model)
    }

    #[verifier::opaque]
    open spec fn decoding(input: Seq<u8>) -> Option<(Self::Model, int)> {
        CompileModuleInfoFields::decoding(input)
    }

    proof fn lemma_round_trip(value: Self, rest: Seq<u8>) {
        reveal(<CompileModuleInfo as Codec>::encoding);
        reveal(<CompileModuleInfo as Codec>::decoding);
        let fields: CompileModuleInfoFields = (
            value.features,
            (value.module, (value.memory_styles, value.table_styles)),
        );
        CompileModuleInfoFields::lemma_round_trip(fields, rest);
    }

    proof fn lemma_decoding_consumes(input: Seq<u8>) {
        reveal(<CompileModuleInfo as Codec>::encoding);
        reveal(<CompileModuleInfo as Codec>::decoding);
        CompileModuleInfoFields::lemma_decoding_consumes(input);
    }

    fn write(&self, out: &mut Vec<u8>) {
        let ghost before_features = out@;
        self.features.write(out);
        let ghost before_module = out@;
        self.module.write(out);
        let ghost before_memory_styles = out@;
        self.memory_styles.write(out);
        let ghost before_table_styles = out@;
        self.table_styles.write(out);
        proof {
            reveal(<CompileModuleInfo as Codec>::encoding);
            let from_table_styles = <Vec<TableStyle> as Codec>::encoding(self.table_styles.model());
            assert(out@ == before_table_styles + from_table_styles);
            let from_memory_styles = <Vec<MemoryStyle> as Codec>::encoding(
                self.memory_styles.model(),
            ) + from_table_styles;
            assert(out@ =~= before_memory_styles + from_memory_styles);
            let from_module = ModuleInfo::encoding(self.module.model()) + from_memory_styles;
            assert(out@ =~= before_module + from_module);
            let from_features = Features::encoding(self.features.model()) + from_module;
            assert(out@ =~= before_features + from_features);
        }
    }

    fn read(input: &[u8], pos: usize) -> (res: Option<(Self, usize)>) {
        proof {
            reveal(<CompileModuleInfo as Codec>::decoding);
        }
        match CompileModuleInfoFields::read(input, pos) {
            Some(((features, (module, (memory_styles, table_styles))), next)) => Some((
                CompileModuleInfo {
                    features,
                    module,
                    memory_styles,
                    table_styles,
                },
                next,
            )),
            None => None,
        }
    }
}

/// The fields of a `SerializableCompilation`, in the order in which they are written.

pub type SerializableCompilationFields = (
    Vec<FunctionBody>,
    (
        Vec<Vec<Relocation>>,
        (
            Vec<CompiledFunctionFrameInfo>,
            (
                Vec<FunctionBody>,
                (
                    Vec<FunctionBody>,
                    (Vec<CustomSection>, (Vec<Vec<Relocation>>, (Option<Dwarf>, (u32, u32)))),
                ),
            ),
        ),
    ),
);

impl Codec for SerializableCompilation {
    type Model = <SerializableCompilationFields as Codec>::Model;

    open spec fn model(&self) -> Self::Model {
        (
            self.function_bodies.model(),
            (
                self.function_relocations.model(),
                (
                    self.function_frame_info.model(),
                    (
                        self.function_call_trampolines.model(),
                        (
                            self.dynamic_function_trampolines.model(),
                            (
                                self.custom_sections.model(),
                                (
                                    self.custom_section_relocations.model(),
                                    (
                                        self.debug.model(),
                                        (
                                            self.libcall_trampolines.model(),
                                            self.libcall_trampoline_len.model(),
                                        ),
                                    ),
                                ),
                            ),
                        ),
                    ),
                ),
            ),
        )
    }

    #[verifier::opaque]
    open spec fn encoding(model: Self::Model) -> Seq<u8> {
        SerializableCompilationFields::encoding(model)
    }

    #[verifier::opaque]
    open spec fn decoding(input: Seq<u8>) -> Option<(Self::Model, int)> {
        SerializableCompilationFields::decoding(input)
    }

    proof fn lemma_round_trip(value: Self, rest: Seq<u8>) {
        reveal(<SerializableCompilation as Codec>::encoding);
        reveal(<SerializableCompilation as Codec>::decoding);
        let fields: SerializableCompilationFields = (
            value.function_bodies,
            (
                value.function_relocations,
                (
                    value.function_frame_info,
                    (
                        value.function_call_trampolines,
                        (
                            value.dynamic_function_trampolines,
                            (
                                value.custom_sections,
                                (
                                    value.custom_section_relocations,
                                    (
                                        value.debug,
                                        (value.libcall_trampolines, value.libcall_trampoline_len),
                                    ),
                                ),
                            ),
                        ),
                    ),
                ),
            ),
        );
        SerializableCompilationFields::lemma_round_trip(fields, rest);
    }

    proof fn lemma_decoding_consumes(input: Seq<u8>) {
        reveal(<SerializableCompilation as Codec>::encoding);
        reveal(<SerializableCompilation as Codec>::decoding);
        SerializableCompilationFields::lemma_decoding_consumes(input);
    }

    fn write(&self, out: &mut Vec<u8>) {
        let ghost before_function_bodies = out@;
        self.function_bodies.write(out);
        let ghost before_function_relocations = out@;
        self.function_relocations.write(out);
        let ghost before_function_frame_info = out@;
        self.function_frame_info.write(out);
        let ghost before_function_call_trampolines = out@;
        self.function_call_trampolines.write(out);
        let ghost before_dynamic_function_trampolines = out@;
        self.dynamic_function_trampolines.write(out);
        let ghost before_custom_sections = out@;
        self.custom_sections.write(out);
        let ghost before_custom_section_relocations = out@;
        self.custom_section_relocations.write(out);
        let ghost before_debug = out@;
        self.debug.write(out);
        let ghost before_libcall_trampolines = out@;
        self.libcall_trampolines.write(out);
        let ghost before_libcall_trampoline_len = out@;
        self.libcall_trampoline_len.write(out);
        proof {
            reveal(<SerializableCompilation as Codec>::encoding);
            let from_libcall_trampoline_len = u32::encoding(self.libcall_trampoline_len.model());
            assert(out@ == before_libcall_trampoline_len + from_libcall_trampoline_len);
            let from_libcall_trampolines = u32::encoding(self.libcall_trampolines.model())
                + from_libcall_trampoline_len;
            assert(out@ =~= before_libcall_trampolines + from_libcall_trampolines);
            let from_debug = <Option<Dwarf> as Codec>::encoding(self.debug.model())
                + from_libcall_trampolines;
            assert(out@ =~= before_debug + from_debug);
            let from_custom_section_relocations = <Vec<Vec<Relocation>> as Codec>::encoding(
                self.custom_section_relocations.model(),
            ) + from_debug;
            assert(out@ =~= before_custom_section_relocations + from_custom_section_relocations);
            let from_custom_sections = <Vec<CustomSection> as Codec>::encoding(
                self.custom_sections.model(),
            ) + from_custom_section_relocations;
            assert(out@ =~= before_custom_sections + from_custom_sections);
            let from_dynamic_function_trampolines = <Vec<FunctionBody> as Codec>::encoding(
                self.dynamic_function_trampolines.model(),
            ) + from_custom_sections;
            assert(out@ =~= before_dynamic_function_trampolines
                + from_dynamic_function_trampolines);
            let from_function_call_trampolines = <Vec<FunctionBody> as Codec>::encoding(
                self.function_call_trampolines.model(),
            ) + from_dynamic_function_trampolines;
            assert(out@ =~= before_function_call_trampolines + from_function_call_trampolines);
            let from_function_frame_info = <Vec<CompiledFunctionFrameInfo> as Codec>::encoding(
                self.function_frame_info.model(),
            ) + from_function_call_trampolines;
            assert(out@ =~= before_function_frame_info + from_function_frame_info);
            let from_function_relocations = <Vec<Vec<Relocation>> as Codec>::encoding(
                self.function_relocations.model(),
            ) + from_function_frame_info;
            assert(out@ =~= before_function_relocations + from_function_relocations);
            let from_function_bodies = <Vec<FunctionBody> as Codec>::encoding(
                self.function_bodies.model(),
            ) + from_function_relocations;
            assert(out@ =~= before_function_bodies + from_function_bodies);
        }
    }

    fn read(input: &[u8], pos: usize) -> (res: Option<(Self, usize)>) {
        proof {
            reveal(<SerializableCompilation as Codec>::decoding);
        }
        match SerializableCompilationFields::read(input, pos) {
            Some(((
                function_bodies,
                (
                    function_relocations,
                    (
                        function_frame_info,
                        (
                            function_call_trampolines,
                            (
                                dynamic_function_trampolines,
                                (
                                    custom_sections,
                                    (
                                        custom_section_relocations,
                                        (debug, (libcall_trampolines, libcall_trampoline_len)),
                                    ),
                                ),
                            ),
                        ),
                    ),
                ),
            ), next)) => Some((
                SerializableCompilation {
                    function_bodies,
                    function_relocations,
                    function_frame_info,
                    function_call_trampolines,
                    dynamic_function_trampolines,
                    custom_sections,
                    custom_section_relocations,
                    debug,
                    libcall_trampolines,
                    libcall_trampoline_len,
                },
                next,
            )),
            None => None,
        }
    }
}

/// The fields of a `SerializableModule`, in the order in which they are written.

pub type SerializableModuleFields = (
    SerializableCompilation,
    (CompileModuleInfo, (Vec<OwnedDataInitializer>, u64)),
);

impl Codec for SerializableModule {
    type Model = <SerializableModuleFields as Codec>::Model;

    open spec fn model(&self) -> Self::Model {
        (
            self.compilation.model(),
            (
                self.compile_info.model(),
                (self.data_initializers.model(), self.cpu_features.model()),
            ),
        )
    }

    #[verifier::opaque]
    open spec fn encoding(model: Self::Model) -> Seq<u8> {
        SerializableModuleFields::encoding(model)
    }

    #[verifier::opaque]
    open spec fn decoding(input: Seq<u8>) -> Option<(Self::Model, int)> {
        SerializableModuleFields::decoding(input)
    }

    proof fn lemma_round_trip(value: Self, rest: Seq<u8>) {
        reveal(<SerializableModule as Codec>::encoding);
        reveal(<SerializableModule as Codec>::decoding);
        let fields: SerializableModuleFields = (
            value.compilation,
            (value.compile_info, (value.data_initializers, value.cpu_features)),
        );
        SerializableModuleFields::lemma_round_trip(fields, rest);
    }

    proof fn lemma_decoding_consumes(input: Seq<u8>) {
        reveal(<SerializableModule as Codec>::encoding);
        reveal(<SerializableModule as Codec>::decoding);
        SerializableModuleFields::lemma_decoding_consumes(input);
    }

    fn write(&self, out: &mut Vec<u8>) {
        let ghost before_compilation = out@;
        self.compilation.write(out);
        let ghost before_compile_info = out@;
        self.compile_info.write(out);
        let ghost before_data_initializers = out@;
        self.data_initializers.write(out);
        let ghost before_cpu_features = out@;
        self.cpu_features.write(out);
        proof {
            reveal(<SerializableModule as Codec>::encoding);
            let from_cpu_features = u64::encoding(self.cpu_features.model());
            assert(out@ == before_cpu_features + from_cpu_features);
            let from_data_initializers = <Vec<OwnedDataInitializer> as Codec>::encoding(
                self.data_initializers.model(),
            ) + from_cpu_features;
            assert(out@ =~= before_data_initializers + from_data_initializers);
            let from_compile_info = CompileModuleInfo::encoding(self.compile_info.model())
                + from_data_initializers;
            assert(out@ =~= before_compile_info + from_compile_info);
            let from_compilation = SerializableCompilation::encoding(self.compilation.model())
                + from_compile_info;
            assert(out@ =~= before_compilation + from_compilation);
        }
    }

    fn read(input: &[u8], pos: usize) -> (res: Option<(Self, usize)>) {
        proof {
            reveal(<SerializableModule as Codec>::decoding);
        }
        match SerializableModuleFields::read(input, pos) {
            Some(((
                compilation,
                (compile_info, (data_initializers, cpu_features)),
            ), next)) => Some((
                SerializableModule {
                    compilation,
                    compile_info,
                    data_initializers,
                    cpu_features,
                },
                next,
            )),
            None => None,
        }
    }
}

} // verus!
