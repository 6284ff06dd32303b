//! Define `UniversalArtifact`, based on `UniversalArtifactBuild`
//! to allow compiling and instantiating to be done as separate steps.
//!
//! An artifact is built in two steps. [`UniversalArtifact::from_build`]
//! lays the code out, links it and interns the signatures; what it gives is
//! a [`LinkedArtifact`], which exposes no pointer. The host then makes the
//! executable partition executable, and [`LinkedArtifact::publish`] turns
//! the linked artifact into a `UniversalArtifact`, or into an error where
//! the host refused.

use crate::code_memory::{
    data_section_views, executable_section_views, function_views, lemma_views_aligned,
    lemma_write_xor_execute, unwind_records, CodeMemory, ProtectRequest, SegmentView,
};
use crate::codec::Codec;
use crate::compilation::FunctionBody;
use crate::engine::{
    all_bodies, data_sections_of, executable_sections_of, image_layout, lemma_merged_len,
    lemma_merged_views_from, section_views, UniversalEngineInner,
};
use crate::error::{CompileError, DeserializeError, SerializeError};
use crate::frame::{
    frame, framed, lemma_frame_round_trip, looks_serialized, starts_with_magic, unframe, unframed,
};
use crate::layout::{lemma_layout_lengths, Layout};
use crate::link::{link_fault, link_module, linked_image, LinkTargets};
use crate::module::{
    declared_signatures, memory_styles, table_styles, MemoryStyle, MemoryType, ModuleInfo,
    TableStyle, TableType, Tunables,
};
use crate::serialize::{
    lemma_serialize_round_trip, parsed, CompileModuleInfo, CompiledFunctionFrameInfo, Features,
    OwnedDataInitializer, SerializableCompilation, SerializableModule,
};
use crate::signature::{interned_indices, interned_table, VMSharedSignatureIndex};
use crate::target::Triple;
use crate::unwind::{FrameTable, UnwindRecord, UnwindRegistry};
use vstd::prelude::*;

verus! {

/// The address of the first byte of a function in code memory.
#[derive(Clone, Copy, Debug, PartialEq, Eq, Structural)]
pub struct FunctionBodyPtr(pub usize);

/// The address of a trampoline by which the host calls a function.
#[derive(Clone, Copy, Debug, PartialEq, Eq, Structural)]
pub struct VMTrampoline(pub usize);

/// Where the code of a function lies in memory.
#[derive(Clone, Copy, Debug, PartialEq, Eq, Structural)]
pub struct FunctionExtent {
    /// The address of the first byte.
    pub ptr: FunctionBodyPtr,
    /// The number of bytes.
    pub length: usize,
}

/// What a code generator makes of a module.
#[derive(Debug, PartialEq, Eq)]
pub struct CompiledModule {
    /// The features that the module was compiled with.
    pub features: Features,
    /// What the module declares.
    pub module: ModuleInfo,
    /// The code, and what belongs to it.
    pub compilation: SerializableCompilation,
    /// The bytes that the memories hold from the start.
    pub data_initializers: Vec<OwnedDataInitializer>,
    /// The features of the processor that the code relies on, one bit for each.
    pub cpu_features: u64,
}

/// A compiled module that has not been placed in memory.
#[derive(Debug, PartialEq, Eq)]
pub struct UniversalArtifactBuild {
    /// The record of the compilation.
    pub serializable: SerializableModule,
}

impl SerializableCompilation {
    /// The function bodies of the image: the local functions, and the
    /// trampolines behind them.
    pub open spec fn bodies<'a>(&self) -> Seq<&'a FunctionBody> {
        all_bodies(
            self.function_bodies@,
            self.function_call_trampolines@,
            self.dynamic_function_trampolines@,
        )
    }

    /// The layout of the image on a host with pages of `page_size` bytes.
    pub open spec fn layout(&self, page_size: usize) -> Layout {
        image_layout(
            self.function_bodies@,
            self.function_call_trampolines@,
            self.dynamic_function_trampolines@,
            self.custom_sections@,
            page_size,
        )
    }

    /// Where the function bodies lie in the image.
    pub open spec fn body_views(&self, page_size: usize) -> Seq<SegmentView> {
        function_views(self.bodies(), self.layout(page_size))
    }

    /// Where the local functions lie in the image.
    pub open spec fn local_function_views(&self, page_size: usize) -> Seq<SegmentView> {
        self.body_views(page_size).subrange(0, self.function_bodies@.len() as int)
    }

    /// Where the trampolines for calls from the host lie in the image.
    pub open spec fn call_trampoline_views(&self, page_size: usize) -> Seq<SegmentView> {
        self.body_views(page_size).subrange(
            self.function_bodies@.len() as int,
            (self.function_bodies@.len() + self.function_call_trampolines@.len()) as int,
        )
    }

    /// Where the trampolines for calls to the host lie in the image.
    pub open spec fn dynamic_trampoline_views(&self, page_size: usize) -> Seq<SegmentView> {
        self.body_views(page_size).subrange(
            (self.function_bodies@.len() + self.function_call_trampolines@.len()) as int,
            self.body_views(page_size).len() as int,
        )
    }

    /// Where the custom sections lie in the image.
    pub open spec fn custom_section_views(&self, page_size: usize) -> Seq<SegmentView> {
        section_views(self.custom_sections@, self.layout(page_size))
    }

    /// What the relocations can refer to in the image at `base`.
    pub open spec fn targets(&self, page_size: usize, base: usize) -> LinkTargets {
        LinkTargets {
            base: base as int,
            image_len: self.layout(page_size).total_len(),
            functions: self.local_function_views(page_size),
            sections: self.custom_section_views(page_size),
            libcall_trampolines: self.libcall_trampolines as int,
            libcall_trampoline_len: self.libcall_trampoline_len as int,
        }
    }

    /// Why the module cannot be built at `base`, if it cannot: its image
    /// cannot be laid out, a relocation is at fault, or the debug
    /// information names a section that the module does not have.
    pub open spec fn build_error(&self, page_size: usize, base: usize) -> Option<CompileError> {
        match CodeMemory::allocation_error(
            false,
            self.bodies(),
            executable_sections_of(self.custom_sections@),
            data_sections_of(self.custom_sections@),
            page_size,
            base,
        ) {
            Some(e) => Some(CompileError::Resource(e)),
            None => match link_fault(
                false,
                self.targets(page_size, base),
                self.function_relocations@,
                self.custom_section_relocations@,
            ) {
                Some(e) => Some(CompileError::Link(e)),
                None => if self.debug matches Some(debug) && debug.eh_frame
                    >= self.custom_sections@.len() {
                    Some(CompileError::Debug)
                } else {
                    None
                },
            },
        }
    }

    /// The bytes of the linked image at `base`.
    pub open spec fn image(&self, page_size: usize, base: usize) -> Seq<u8> {
        linked_image(
            self.layout(page_size).image(),
            self.targets(page_size, base),
            self.function_relocations@,
            self.custom_section_relocations@,
        )
    }

    /// Where the call frame information lies in the image at `base`, if the
    /// module has any.
    pub open spec fn eh_frame(&self, page_size: usize, base: usize) -> Option<FrameTable> {
        match self.debug {
            Some(debug) => Some(
                FrameTable {
                    address: address_at(
                        base,
                        self.custom_section_views(page_size)[debug.eh_frame as int],
                    ),
                    len: self.custom_section_views(page_size)[debug.eh_frame as int].len,
                },
            ),
            None => None,
        }
    }
}

/// The address of the first byte of `view` in an image at `base`.
pub open spec fn address_at(base: usize, view: SegmentView) -> usize {
    (base + view.offset) as usize
}

/// The extents of the functions that start at `pointers` and are `lengths`
/// long: as many as there are of both.
pub open spec fn extents_of(pointers: Seq<FunctionBodyPtr>, lengths: Seq<usize>) -> Seq<
    FunctionExtent,
> {
    Seq::new(
        if pointers.len() <= lengths.len() {
            pointers.len()
        } else {
            lengths.len()
        },
        |i: int| FunctionExtent { ptr: pointers[i], length: lengths[i] },
    )
}

/// The index of the first of `extents` that holds the address `pc`; the
/// number of extents where none does.
pub open spec fn extent_holding(extents: Seq<FunctionExtent>, pc: usize) -> int
    decreases extents.len(),
{
    if extents.len() == 0 {
        0
    } else {
        let before = extent_holding(extents.drop_last(), pc);
        if before < extents.len() - 1 {
            before
        } else if extents.last().ptr.0 <= pc < extents.last().ptr.0 + extents.last().length {
            extents.len() - 1
        } else {
            extents.len() as int
        }
    }
}

/// What a backtrace needs to find the frame information of the functions of
/// an artifact: where each function lies. Extent `i` is that of the
/// function whose frame information the artifact holds at index `i`.
#[derive(Debug, PartialEq, Eq)]
pub struct GlobalFrameInfoRegistration {
    extents: Vec<FunctionExtent>,
}

impl View for GlobalFrameInfoRegistration {
    type V = Seq<FunctionExtent>;

    closed spec fn view(&self) -> Seq<FunctionExtent> {
        self.extents@
    }
}

impl GlobalFrameInfoRegistration {
    /// The number of functions.
    pub fn len(&self) -> (len: usize)
        ensures
            len == self@.len(),
    {
        self.extents.len()
    }

    /// Where function `i` lies.
    pub fn extent(&self, i: usize) -> (extent: Option<FunctionExtent>)
        ensures
            extent == if i < self@.len() {
                Some(self@[i as int])
            } else {
                None
            },
    {
        if i < self.extents.len() {
            Some(self.extents[i])
        } else {
            None
        }
    }

    /// The index of the function whose code holds the address `pc`: the
    /// first such function, if there is one.
    pub fn lookup(&self, pc: usize) -> (index: Option<usize>)
        ensures
            match index {
                Some(i) => i < self@.len() && i == extent_holding(self@, pc),
                None => extent_holding(self@, pc) == self@.len(),
            },
    {
        let mut i: usize = 0;
        while i < self.extents.len()
            invariant
                i <= self.extents.len(),
                extent_holding(self@.take(i as int), pc) == i,
            decreases self.extents.len() - i,
        {
            proof {
                assert(self@.take(i + 1).drop_last() =~= self@.take(i as int));
                assert(self@.take(i + 1).last() == self@[i as int]);
            }
            let extent = &self.extents[i];
            if extent.ptr.0 <= pc && pc - extent.ptr.0 < extent.length {
                proof {
                    lemma_extent_found(self@, pc, i + 1);
                }
                return Some(i);
            }
            i = i + 1;
        }
        assert(self@.take(i as int) =~= self@);
        None
    }
}

/// An extent that holds the address among the first `n` is the first among all.
pub proof fn lemma_extent_found(extents: Seq<FunctionExtent>, pc: usize, n: int)
    requires
        0 <= n <= extents.len(),
        extent_holding(extents.take(n), pc) < n,
    ensures
        extent_holding(extents, pc) == extent_holding(extents.take(n), pc),
    decreases extents.len(),
{
    if n == extents.len() {
        assert(extents.take(n) =~= extents);
    } else {
        assert(extents.drop_last().take(n) =~= extents.take(n));
        lemma_extent_found(extents.drop_last(), pc, n);
    }
}

/// A compiled wasm module, ready to be instantiated.
#[derive(Debug)]
pub struct UniversalArtifact {
    artifact: UniversalArtifactBuild,
    code_memory: CodeMemory,
    finished_functions: Vec<FunctionBodyPtr>,
    finished_function_call_trampolines: Vec<VMTrampoline>,
    finished_dynamic_function_trampolines: Vec<FunctionBodyPtr>,
    signatures: Vec<VMSharedSignatureIndex>,
    frame_info_registration: Option<GlobalFrameInfoRegistration>,
    finished_function_lengths: Vec<usize>,
}

/// An artifact whose code is linked and not yet executable.
///
/// It waits for the host to make the executable partition executable, and
/// exposes no pointer into the code.
#[derive(Debug)]
pub struct LinkedArtifact {
    artifact: UniversalArtifact,
    unwind_registry: UnwindRegistry,
    eh_frame: Option<FrameTable>,
}

impl UniversalArtifact {
    /// The record of the compilation.
    pub closed spec fn build(&self) -> UniversalArtifactBuild {
        self.artifact
    }

    /// The memory that holds the code.
    pub closed spec fn memory(&self) -> CodeMemory {
        self.code_memory
    }

    /// The addresses of the local functions.
    pub closed spec fn function_pointers(&self) -> Seq<FunctionBodyPtr> {
        self.finished_functions@
    }

    /// The lengths of the code of the local functions.
    pub closed spec fn function_lengths(&self) -> Seq<usize> {
        self.finished_function_lengths@
    }

    /// The addresses of the trampolines for calls from the host.
    pub closed spec fn call_trampoline_pointers(&self) -> Seq<VMTrampoline> {
        self.finished_function_call_trampolines@
    }

    /// The addresses of the trampolines for calls to the host.
    pub closed spec fn dynamic_trampoline_pointers(&self) -> Seq<FunctionBodyPtr> {
        self.finished_dynamic_function_trampolines@
    }

    /// The index of each declared signature in the table of the engine.
    pub closed spec fn shared_signatures(&self) -> Seq<VMSharedSignatureIndex> {
        self.signatures@
    }

    /// The frame information that has been registered, if it has.
    pub closed spec fn frame_info(&self) -> Option<Seq<FunctionExtent>> {
        match self.frame_info_registration {
            Some(registration) => Some(registration@),
            None => None,
        }
    }
}

/// What the slot for the frame information holds once registration has
/// run: what it held if it held something; else the extents of the
/// functions, if there are any.
pub open spec fn registered_slot(
    slot: Option<Seq<FunctionExtent>>,
    extents: Seq<FunctionExtent>,
) -> Option<Seq<FunctionExtent>> {
    if slot is Some || extents.len() == 0 {
        slot
    } else {
        Some(extents)
    }
}

/// Registration is idempotent: to register a second time changes nothing.
pub proof fn lemma_registration_is_idempotent(
    slot: Option<Seq<FunctionExtent>>,
    extents: Seq<FunctionExtent>,
)
    ensures
        registered_slot(registered_slot(slot, extents), extents) == registered_slot(slot, extents),
{
}

/// The addresses of `views` in an image at `base`, as pointers to functions.
pub open spec fn function_pointers_at(base: usize, views: Seq<SegmentView>) -> Seq<
    FunctionBodyPtr,
> {
    views.map_values(|view: SegmentView| FunctionBodyPtr(address_at(base, view)))
}

/// The addresses of `views` in an image at `base`, as trampolines.
pub open spec fn trampolines_at(base: usize, views: Seq<SegmentView>) -> Seq<VMTrampoline> {
    views.map_values(|view: SegmentView| VMTrampoline(address_at(base, view)))
}

/// The lengths of `views`.
pub open spec fn lengths_of(views: Seq<SegmentView>) -> Seq<usize> {
    views.map_values(|view: SegmentView| view.len)
}

/// Whether all of `views` lie within `memory`.
pub open spec fn all_within(memory: CodeMemory, views: Seq<SegmentView>) -> bool {
    forall|i: int| 0 <= i < views.len() ==> memory.contains(#[trigger] views[i])
}

/// The addresses of `views` in `memory`, as pointers to functions.
fn function_pointers(memory: &CodeMemory, views: &Vec<SegmentView>) -> (pointers: Vec<
    FunctionBodyPtr,
>)
    requires
        memory.well_formed(),
        all_within(*memory, views@),
    ensures
        pointers@ == function_pointers_at(memory.base(), views@),
{
    let mut pointers: Vec<FunctionBodyPtr> = Vec::new();
    let mut i: usize = 0;
    while i < views.len()
        invariant
            i <= views.len(),
            memory.well_formed(),
            all_within(*memory, views@),
            pointers@ == function_pointers_at(memory.base(), views@).take(i as int),
        decreases views.len() - i,
    {
        proof {
            lemma_write_xor_execute(*memory);
        }
        pointers.push(FunctionBodyPtr(memory.address() + views[i].offset));
        i = i + 1;
        assert(pointers@ =~= function_pointers_at(memory.base(), views@).take(i as int));
    }
    assert(function_pointers_at(memory.base(), views@).take(i as int) =~= function_pointers_at(
        memory.base(),
        views@,
    ));
    pointers
}

/// The addresses of `views` in `memory`, as trampolines.
fn trampolines(memory: &CodeMemory, views: &Vec<SegmentView>) -> (pointers: Vec<VMTrampoline>)
    requires
        memory.well_formed(),
        all_within(*memory, views@),
    ensures
        pointers@ == trampolines_at(memory.base(), views@),
{
    let mut pointers: Vec<VMTrampoline> = Vec::new();
    let mut i: usize = 0;
    while i < views.len()
        invariant
            i <= views.len(),
            memory.well_formed(),
            all_within(*memory, views@),
            pointers@ == trampolines_at(memory.base(), views@).take(i as int),
        decreases views.len() - i,
    {
        proof {
            lemma_write_xor_execute(*memory);
        }
        pointers.push(VMTrampoline(memory.address() + views[i].offset));
        i = i + 1;
        assert(pointers@ =~= trampolines_at(memory.base(), views@).take(i as int));
    }
    assert(trampolines_at(memory.base(), views@).take(i as int) =~= trampolines_at(
        memory.base(),
        views@,
    ));
    pointers
}

/// The lengths of `views`.
fn lengths(views: &Vec<SegmentView>) -> (lengths: Vec<usize>)
    ensures
        lengths@ == lengths_of(views@),
{
    let mut lengths: Vec<usize> = Vec::new();
    let mut i: usize = 0;
    while i < views.len()
        invariant
            i <= views.len(),
            lengths@ == lengths_of(views@).take(i as int),
        decreases views.len() - i,
    {
        lengths.push(views[i].len);
        i = i + 1;
        assert(lengths@ =~= lengths_of(views@).take(i as int));
    }
    assert(lengths_of(views@).take(i as int) =~= lengths_of(views@));
    lengths
}

/// Where the image of a module can be laid out, all of its function bodies
/// and all of its custom sections lie within the image.
pub proof fn lemma_views_within_image(
    compilation: SerializableCompilation,
    page_size: usize,
    base: usize,
)
    requires
        CodeMemory::allocation_error(
            false,
            compilation.bodies(),
            executable_sections_of(compilation.custom_sections@),
            data_sections_of(compilation.custom_sections@),
            page_size,
            base,
        ) is None,
    ensures
        compilation.custom_section_views(page_size).len() == compilation.custom_sections@.len(),
        compilation.body_views(page_size).len() == compilation.function_bodies@.len()
            + compilation.function_call_trampolines@.len()
            + compilation.dynamic_function_trampolines@.len(),
        forall|i: int|
            0 <= i < compilation.body_views(page_size).len() ==> (
            #[trigger] compilation.body_views(page_size)[i]).offset + compilation.body_views(
                page_size,
            )[i].len <= compilation.layout(page_size).total_len(),
        forall|i: int|
            0 <= i < compilation.custom_sections@.len() ==> (
            #[trigger] compilation.custom_section_views(page_size)[i]).offset
                + compilation.custom_section_views(page_size)[i].len <= compilation.layout(
                page_size,
            ).total_len(),
{
    let layout = compilation.layout(page_size);
    let executable = executable_section_views(layout);
    let data = data_section_views(layout);
    lemma_views_aligned(
        compilation.bodies(),
        executable_sections_of(compilation.custom_sections@),
        data_sections_of(compilation.custom_sections@),
        page_size,
        base,
    );
    lemma_layout_lengths(layout);
    assert forall|i: int| 0 <= i < compilation.custom_sections@.len() implies (
    #[trigger] compilation.custom_section_views(page_size)[i]).offset
        + compilation.custom_section_views(page_size)[i].len <= layout.total_len() by {
        lemma_merged_views_from(compilation.custom_sections@, executable, data, i);
        let view = compilation.custom_section_views(page_size)[i];
        if executable.contains(view) {
            let k = choose|k: int| 0 <= k < executable.len() && executable[k] == view;
            assert(executable_section_views(layout)[k] == view);
        } else {
            let k = choose|k: int| 0 <= k < data.len() && data[k] == view;
            assert(data_section_views(layout)[k] == view);
        }
    }
    lemma_merged_len(compilation.custom_sections@, executable, data);
}

impl LinkedArtifact {
    /// A linked artifact awaits publication: its memory is sound and its
    /// unwind registry still open.
    #[verifier::type_invariant]
    spec fn awaits_publication(&self) -> bool {
        &&& self.artifact.code_memory.well_formed()
        &&& !self.unwind_registry.is_published()
    }

    /// The artifact that publication will give.
    pub closed spec fn pending(&self) -> UniversalArtifact {
        self.artifact
    }

    /// The unwind information of the functions.
    pub closed spec fn unwind_entries(&self) -> Seq<UnwindRecord> {
        self.unwind_registry.entries()
    }

    /// Where the call frame information of the image lies, if it has any.
    pub closed spec fn frame_table(&self) -> Option<FrameTable> {
        self.eh_frame
    }

    /// The change of protection that the host has to make before the
    /// artifact is published, if there is one.
    pub fn protect_request(&self) -> (request: Option<ProtectRequest>)
        ensures
            request == self.pending().memory().pending_protection(),
    {
        self.artifact.code_memory.protect_request()
    }

    /// A copy of the linked image, for the host to place at the base address.
    pub fn image(&self) -> (bytes: Vec<u8>)
        ensures
            bytes@ == self.pending().memory().bytes(),
    {
        self.artifact.code_memory.to_vec()
    }

    /// Where the call frame information of the image lies, if it has any.
    pub fn eh_frame(&self) -> (table: Option<FrameTable>)
        ensures
            table == self.frame_table(),
    {
        self.eh_frame
    }

    /// The number of functions whose unwind information is registered.
    pub fn unwind_entry_count(&self) -> (count: usize)
        ensures
            count == self.unwind_entries().len(),
    {
        self.unwind_registry.len()
    }

    /// Make all code compiled thus far executable.
    ///
    /// `host` is what the host answered to the request of
    /// [`Self::protect_request`]. Where the host refused, no artifact comes
    /// to be. Else the code memory is published, the unwind registry is
    /// closed with the call frame information of the image and handed to
    /// the code memory, and the artifact is ready.
    pub fn publish(self, host: Result<(), String>) -> (res: Result<UniversalArtifact, CompileError>)
        ensures
            match res {
                Ok(artifact) => {
                    &&& self.pending().memory().pending_protection() is Some ==> host is Ok
                    &&& artifact.memory().well_formed()
                    &&& artifact.memory().is_published() == (
                    self.pending().memory().is_published()
                        || self.pending().memory().pending_protection() is Some)
                    &&& artifact.memory().bytes() == self.pending().memory().bytes()
                    &&& artifact.memory().base() == self.pending().memory().base()
                    &&& artifact.memory().page_size() == self.pending().memory().page_size()
                    &&& artifact.memory().execute_boundary()
                        == self.pending().memory().execute_boundary()
                    &&& artifact.memory().registries().len()
                        == self.pending().memory().registries().len() + 1
                    &&& artifact.memory().registries().last().is_published()
                    &&& artifact.memory().registries().last().entries() == self.unwind_entries()
                    &&& artifact.memory().registries().last().frame_table() == self.frame_table()
                    &&& artifact.build() == self.pending().build()
                    &&& artifact.function_pointers() == self.pending().function_pointers()
                    &&& artifact.function_lengths() == self.pending().function_lengths()
                    &&& artifact.call_trampoline_pointers()
                        == self.pending().call_trampoline_pointers()
                    &&& artifact.dynamic_trampoline_pointers()
                        == self.pending().dynamic_trampoline_pointers()
                    &&& artifact.shared_signatures() == self.pending().shared_signatures()
                    &&& artifact.frame_info() == self.pending().frame_info()
                },
                Err(CompileError::Publish(e)) => {
                    &&& self.pending().memory().pending_protection() is Some
                    &&& host is Err
                    &&& e.reason == host->Err_0
                },
                Err(_) => false,
            },
    {
        proof {
            use_type_invariant(&self);
        }
        let LinkedArtifact { artifact, unwind_registry, eh_frame } = self;
        let mut artifact = artifact;
        let mut unwind_registry = unwind_registry;
        match artifact.code_memory.publish(host) {
            Ok(()) => {},
            Err(e) => {
                return Err(CompileError::Publish(e));
            },
        }
        let closed = unwind_registry.publish(eh_frame);
        assert(closed is Ok);
        artifact.code_memory.publish_unwind_registry(unwind_registry);
        Ok(artifact)
    }
}

impl UniversalArtifact {
    /// Compile a data buffer into a `UniversalArtifactBuild`, which may then be instantiated.
    ///
    /// `compiled` is what the code generator made of the data buffer; none
    /// where the engine has no code generator. The styles of the memories
    /// and tables of the module are chosen by `tunables`.
    pub fn new_build<T: Tunables>(compiled: Option<CompiledModule>, tunables: &T) -> (res: Result<
        UniversalArtifactBuild,
        CompileError,
    >)
        ensures
            match (compiled, res) {
                (Some(compiled), Ok(build)) => {
                    let info = build.serializable.compile_info;
                    &&& build.serializable.compilation == compiled.compilation
                    &&& build.serializable.data_initializers == compiled.data_initializers
                    &&& build.serializable.cpu_features == compiled.cpu_features
                    &&& info.features == compiled.features
                    &&& info.module == compiled.module
                    &&& info.memory_styles@ == compiled.module.memories@.map_values(
                        |m: MemoryType| tunables.chosen_memory_style(m),
                    )
                    &&& info.table_styles@ == compiled.module.tables@.map_values(
                        |t: TableType| tunables.chosen_table_style(t),
                    )
                },
                (None, Err(CompileError::Codegen(message))) => message@
                    == "Compilation is not enabled in the engine"@,
                _ => false,
            },
    {
        let compiled = match compiled {
            Some(compiled) => compiled,
            None => {
                return Err(
                    CompileError::Codegen("Compilation is not enabled in the engine".to_string()),
                );
            },
        };
        let memory_styles = memory_styles(&compiled.module.memories, tunables);
        let table_styles = table_styles(&compiled.module.tables, tunables);
        Ok(
            UniversalArtifactBuild {
                serializable: SerializableModule {
                    compilation: compiled.compilation,
                    compile_info: CompileModuleInfo {
                        features: compiled.features,
                        module: compiled.module,
                        memory_styles,
                        table_styles,
                    },
                    data_initializers: compiled.data_initializers,
                    cpu_features: compiled.cpu_features,
                },
            },
        )
    }

    /// What building leaves behind and returns.
    ///
    /// It succeeds exactly where the module has no
    /// [`SerializableCompilation::build_error`]. The linked artifact then
    /// holds the linked image of the module at `base`, not yet published,
    /// with the addresses and lengths of its functions and trampolines, the
    /// index of each declared signature in the table of the engine, and the
    /// unwind information of its functions; and the table of the engine
    /// holds the declared signatures. Where it fails, the error is that of
    /// the module, and the engine is as it was.
    pub open spec fn built(
        before: UniversalEngineInner,
        after: UniversalEngineInner,
        artifact: UniversalArtifactBuild,
        base: usize,
        res: Result<LinkedArtifact, CompileError>,
    ) -> bool {
        let compilation = artifact.serializable.compilation;
        let page_size = before.page_size();
        let error = compilation.build_error(page_size, base);
        let declared = declared_signatures(
            artifact.serializable.compile_info.module.signatures@,
        );
        match res {
            Ok(linked) => {
                let memory = linked.pending().memory();
                &&& error is None
                &&& memory.well_formed()
                &&& memory.bytes() == compilation.image(page_size, base)
                &&& memory.base() == base
                &&& memory.page_size() == page_size
                &&& memory.execute_boundary() == compilation.layout(
                    page_size,
                ).executable_len()
                &&& !memory.is_published()
                &&& memory.registries().len() == 0
                &&& linked.pending().build() == artifact
                &&& linked.pending().function_pointers() == function_pointers_at(
                    base,
                    compilation.local_function_views(page_size),
                )
                &&& linked.pending().function_lengths() == lengths_of(
                    compilation.local_function_views(page_size),
                )
                &&& linked.pending().call_trampoline_pointers() == trampolines_at(
                    base,
                    compilation.call_trampoline_views(page_size),
                )
                &&& linked.pending().dynamic_trampoline_pointers() == function_pointers_at(
                    base,
                    compilation.dynamic_trampoline_views(page_size),
                )
                &&& linked.pending().shared_signatures() == interned_indices(
                    before.signatures().table(),
                    declared,
                )
                &&& linked.pending().frame_info() is None
                &&& linked.unwind_entries() == unwind_records(
                    compilation.bodies(),
                    base as int,
                )
                &&& linked.frame_table() == compilation.eh_frame(page_size, base)
                &&& after.signatures().table() == interned_table(
                    before.signatures().table(),
                    declared,
                )
                &&& after.page_size() == page_size
            },
            Err(e) => {
                &&& error == Some(e)
                &&& after == before
            },
        }
    }

    /// Construct a `UniversalArtifactBuild` from component parts.
    ///
    /// The image of the module is laid out for the address `base`, at which
    /// the host will place it, and linked; every declared signature is
    /// interned in the table of the engine. What comes back is linked and
    /// not yet executable. Where the module cannot be built, the engine
    /// stays as it was.
    pub fn from_build(
        engine_inner: &mut UniversalEngineInner,
        artifact: UniversalArtifactBuild,
        base: usize,
    ) -> (res: Result<LinkedArtifact, CompileError>)
        ensures
            Self::built(*old(engine_inner), *final(engine_inner), artifact, base, res),
    {
        let mut code_memory = CodeMemory::new();
        let mut unwind_registry = UnwindRegistry::new();
        let compilation = &artifact.serializable.compilation;
        let ghost page_size = engine_inner.page_size();
        let allocated = match engine_inner.allocate(
            &mut code_memory,
            &mut unwind_registry,
            &compilation.function_bodies,
            &compilation.function_call_trampolines,
            &compilation.dynamic_function_trampolines,
            &compilation.custom_sections,
            base,
        ) {
            Ok(allocated) => allocated,
            Err(e) => {
                return Err(CompileError::Resource(e));
            },
        };
        proof {
            lemma_views_within_image(*compilation, page_size, base);
            lemma_layout_lengths(compilation.layout(page_size));
            assert(code_memory.bytes().len() == compilation.layout(page_size).total_len());
            assert(unwind_registry.entries() =~= unwind_records(compilation.bodies(), base as int));
        }

        match link_module(
            &mut code_memory,
            allocated.functions.as_slice(),
            compilation.function_relocations.as_slice(),
            allocated.custom_sections.as_slice(),
            compilation.custom_section_relocations.as_slice(),
            compilation.libcall_trampolines,
            compilation.libcall_trampoline_len as usize,
        ) {
            Ok(()) => {},
            Err(e) => {
                return Err(CompileError::Link(e));
            },
        }

        let eh_frame = match compilation.debug {
            Some(debug) => {
                if debug.eh_frame as usize >= allocated.custom_sections.len() {
                    return Err(CompileError::Debug);
                }
                let eh_frame_section = &allocated.custom_sections[debug.eh_frame as usize];
                proof {
                    lemma_write_xor_execute(code_memory);
                }
                Some(
                    FrameTable {
                        address: code_memory.address() + eh_frame_section.offset,
                        len: eh_frame_section.len,
                    },
                )
            },
            None => None,
        };

        // Compute indices into the shared signature table.
        let signatures = engine_inner.register_signatures(
            &artifact.serializable.compile_info.module.signatures,
        );

        let finished_function_lengths = lengths(&allocated.functions);
        let finished_functions = function_pointers(&code_memory, &allocated.functions);
        let finished_function_call_trampolines = trampolines(
            &code_memory,
            &allocated.function_call_trampolines,
        );
        let finished_dynamic_function_trampolines = function_pointers(
            &code_memory,
            &allocated.dynamic_function_trampolines,
        );

        Ok(
            LinkedArtifact {
                artifact: UniversalArtifact {
                    artifact,
                    code_memory,
                    finished_functions,
                    finished_function_call_trampolines,
                    finished_dynamic_function_trampolines,
                    signatures,
                    frame_info_registration: None,
                    finished_function_lengths,
                },
                unwind_registry,
                eh_frame,
            },
        )
    }
}

/// The extents of the functions that start at `pointers` and are `lengths` long.
fn zip_extents(pointers: &Vec<FunctionBodyPtr>, lengths: &Vec<usize>) -> (extents: Vec<
    FunctionExtent,
>)
    ensures
        extents@ == extents_of(pointers@, lengths@),
{
    let count = if pointers.len() <= lengths.len() {
        pointers.len()
    } else {
        lengths.len()
    };
    let mut extents: Vec<FunctionExtent> = Vec::new();
    let mut i: usize = 0;
    while i < count
        invariant
            i <= count,
            count == extents_of(pointers@, lengths@).len(),
            count <= pointers@.len(),
            count <= lengths@.len(),
            extents@ == extents_of(pointers@, lengths@).take(i as int),
        decreases count - i,
    {
        extents.push(FunctionExtent { ptr: pointers[i], length: lengths[i] });
        i = i + 1;
        assert(extents@ =~= extents_of(pointers@, lengths@).take(i as int));
    }
    assert(extents_of(pointers@, lengths@).take(i as int) =~= extents_of(pointers@, lengths@));
    extents
}

impl UniversalArtifact {
    /// Registers the frame information of the functions, unless that has
    /// been done: from then on the artifact holds the extent of each local
    /// function, by which a backtrace finds the function of an address.
    ///
    /// A second call finds the registration and leaves the artifact as it is.
    pub fn register_frame_info(&mut self)
        ensures
            old(self).frame_info() is Some ==> *final(self) == *old(self),
            final(self).frame_info() == registered_slot(
                old(self).frame_info(),
                extents_of(old(self).function_pointers(), old(self).function_lengths()),
            ),
            final(self).build() == old(self).build(),
            final(self).memory() == old(self).memory(),
            final(self).function_pointers() == old(self).function_pointers(),
            final(self).function_lengths() == old(self).function_lengths(),
            final(self).call_trampoline_pointers() == old(self).call_trampoline_pointers(),
            final(self).dynamic_trampoline_pointers() == old(self).dynamic_trampoline_pointers(),
            final(self).shared_signatures() == old(self).shared_signatures(),
    {
        if self.frame_info_registration.is_some() {
            return ;
        }
        let finished_function_extents = zip_extents(
            &self.finished_functions,
            &self.finished_function_lengths,
        );
        if finished_function_extents.len() == 0 {
            return ;
        }
        self.frame_info_registration = Some(
            GlobalFrameInfoRegistration { extents: finished_function_extents },
        );
    }

    /// The frame information that has been registered, if it has.
    pub fn frame_info_registration(&self) -> (registration: Option<&GlobalFrameInfoRegistration>)
        ensures
            match registration {
                Some(registration) => self.frame_info() == Some(registration@),
                None => self.frame_info() is None,
            },
    {
        self.frame_info_registration.as_ref()
    }

    /// The frame information of the function whose code holds the address
    /// `pc`, once the frame information is registered.
    pub fn frame_info_at(&self, pc: usize) -> (info: Option<&CompiledFunctionFrameInfo>)
        ensures
            match info {
                Some(info) => {
                    &&& self.frame_info() matches Some(extents)
                    &&& extent_holding(extents, pc) < extents.len()
                    &&& extent_holding(extents, pc)
                        < self.build().serializable.compilation.function_frame_info@.len()
                    &&& *info
                        == self.build().serializable.compilation.function_frame_info@[extent_holding(
                        extents,
                        pc,
                    )]
                },
                None => self.frame_info() matches Some(extents) ==> extent_holding(extents, pc)
                    >= extents.len() || extent_holding(extents, pc)
                    >= self.build().serializable.compilation.function_frame_info@.len(),
            },
    {
        let registration = match &self.frame_info_registration {
            Some(registration) => registration,
            None => {
                return None;
            },
        };
        let index = match registration.lookup(pc) {
            Some(index) => index,
            None => {
                return None;
            },
        };
        let infos = &self.artifact.serializable.compilation.function_frame_info;
        if index < infos.len() {
            Some(&infos[index])
        } else {
            None
        }
    }

    /// The memory that holds the code of the artifact.
    pub fn code_memory(&self) -> (memory: &CodeMemory)
        ensures
            *memory == self.memory(),
    {
        &self.code_memory
    }

    /// The record of the compilation.
    pub fn artifact(&self) -> (build: &UniversalArtifactBuild)
        ensures
            *build == self.build(),
    {
        &self.artifact
    }

    /// What the module declares.
    pub fn create_module_info(&self) -> (module: &ModuleInfo)
        ensures
            *module == self.build().serializable.compile_info.module,
    {
        &self.artifact.serializable.compile_info.module
    }

    /// The features that the module was compiled with.
    pub fn features(&self) -> (features: &Features)
        ensures
            *features == self.build().serializable.compile_info.features,
    {
        &self.artifact.serializable.compile_info.features
    }

    /// The features of the processor that the code relies on, one bit for each.
    pub fn cpu_features(&self) -> (bits: u64)
        ensures
            bits == self.build().serializable.cpu_features,
    {
        self.artifact.serializable.cpu_features
    }

    /// The bytes that the memories hold from the start.
    pub fn data_initializers(&self) -> (initializers: &Vec<OwnedDataInitializer>)
        ensures
            *initializers == self.build().serializable.data_initializers,
    {
        &self.artifact.serializable.data_initializers
    }

    /// The style of each memory.
    pub fn memory_styles(&self) -> (styles: &Vec<MemoryStyle>)
        ensures
            *styles == self.build().serializable.compile_info.memory_styles,
    {
        &self.artifact.serializable.compile_info.memory_styles
    }

    /// The style of each table.
    pub fn table_styles(&self) -> (styles: &Vec<TableStyle>)
        ensures
            *styles == self.build().serializable.compile_info.table_styles,
    {
        &self.artifact.serializable.compile_info.table_styles
    }

    /// Returns the functions allocated in memory or this `Artifact`
    /// ready to be run.
    pub fn finished_functions(&self) -> (pointers: &Vec<FunctionBodyPtr>)
        ensures
            pointers@ == self.function_pointers(),
    {
        &self.finished_functions
    }

    /// The length of the code of each local function.
    pub fn finished_function_lengths(&self) -> (lengths: &Vec<usize>)
        ensures
            lengths@ == self.function_lengths(),
    {
        &self.finished_function_lengths
    }

    /// Returns the function call trampolines allocated in memory of this
    /// `Artifact`, ready to be run.
    pub fn finished_function_call_trampolines(&self) -> (pointers: &Vec<VMTrampoline>)
        ensures
            pointers@ == self.call_trampoline_pointers(),
    {
        &self.finished_function_call_trampolines
    }

    /// Returns the dynamic function trampolines allocated in memory
    /// of this `Artifact`, ready to be run.
    pub fn finished_dynamic_function_trampolines(&self) -> (pointers: &Vec<FunctionBodyPtr>)
        ensures
            pointers@ == self.dynamic_trampoline_pointers(),
    {
        &self.finished_dynamic_function_trampolines
    }

    /// Returns the associated VM signatures for this `Artifact`.
    pub fn signatures(&self) -> (indices: &Vec<VMSharedSignatureIndex>)
        ensures
            indices@ == self.shared_signatures(),
    {
        &self.signatures
    }
}

/// The round trip of an artifact: the bytes that a compiled module is
/// serialized as are a serialized artifact, and hold that module.
pub proof fn lemma_artifact_round_trip(build: UniversalArtifactBuild)
    requires
        SerializableModule::encoding(build.serializable.model()).len() <= u64::MAX,
    ensures
        ({
            let payload = SerializableModule::encoding(build.serializable.model());
            &&& looks_serialized(framed(payload))
            &&& unframed(framed(payload)) == Ok::<_, DeserializeError>(payload)
            &&& parsed(payload) == Some(build.serializable.model())
        }),
{
    lemma_frame_round_trip(SerializableModule::encoding(build.serializable.model()));
    lemma_serialize_round_trip(build.serializable);
}

impl UniversalArtifactBuild {
    /// Serialize the artifact: the header, the length of the module and
    /// the module.
    pub fn serialize(&self) -> (res: Result<Vec<u8>, SerializeError>)
        ensures
            res matches Ok(bytes) && bytes@ == framed(
                SerializableModule::encoding(self.serializable.model()),
            ),
    {
        let serialized_data = match self.serializable.serialize() {
            Ok(serialized_data) => serialized_data,
            Err(e) => {
                return Err(e);
            },
        };
        Ok(frame(serialized_data.as_slice()))
    }

    /// Get the default extension when serializing this artifact
    pub fn get_default_extension(triple: &Triple) -> (extension: &'static str)
        ensures
            extension@ == "wasmu"@,
    {
        "wasmu"
    }

    /// Check if the provided bytes look like a serialized `UniversalArtifactBuild`.
    pub fn is_deserializable(bytes: &[u8]) -> (looks: bool)
        ensures
            looks == looks_serialized(bytes@),
    {
        starts_with_magic(bytes)
    }

    /// The module that the serialized artifact `bytes` holds.
    pub fn deserialize(bytes: &[u8]) -> (res: Result<UniversalArtifactBuild, DeserializeError>)
        ensures
            match unframed(bytes@) {
                Err(e) => res == Err::<UniversalArtifactBuild, _>(e),
                Ok(payload) => match res {
                    Ok(build) => parsed(payload) == Some(build.serializable.model()),
                    Err(DeserializeError::CorruptedBinary) => parsed(payload) is None,
                    Err(_) => false,
                },
            },
    {
        let metadata_slice = match unframe(bytes) {
            Ok(metadata_slice) => metadata_slice,
            Err(e) => {
                return Err(e);
            },
        };
        match SerializableModule::deserialize(metadata_slice) {
            Ok(serializable) => Ok(UniversalArtifactBuild { serializable }),
            Err(e) => Err(DeserializeError::CorruptedBinary),
        }
    }
}

impl UniversalArtifact {
    /// Deserialize a UniversalArtifactBuild
    ///
    /// The bytes are checked: what is no serialized artifact is refused,
    /// and so is one that is damaged or holds a module that cannot be
    /// built at `base`. Every refusal leaves the engine as it was.
    pub fn deserialize(engine_inner: &mut UniversalEngineInner, bytes: &[u8], base: usize) -> (res:
        Result<LinkedArtifact, DeserializeError>)
        ensures
            match unframed(bytes@) {
                Err(e) => {
                    &&& res == Err::<LinkedArtifact, _>(e)
                    &&& *final(engine_inner) == *old(engine_inner)
                },
                Ok(payload) => match parsed(payload) {
                    None => {
                        &&& res matches Err(DeserializeError::CorruptedBinary)
                        &&& *final(engine_inner) == *old(engine_inner)
                    },
                    Some(model) => exists|module: SerializableModule|
                        #![auto]
                        module.model() == model && match res {
                            Ok(linked) => Self::built(
                                *old(engine_inner),
                                *final(engine_inner),
                                UniversalArtifactBuild { serializable: module },
                                base,
                                Ok(linked),
                            ),
                            Err(DeserializeError::Compiler(e)) => Self::built(
                                *old(engine_inner),
                                *final(engine_inner),
                                UniversalArtifactBuild { serializable: module },
                                base,
                                Err(e),
                            ),
                            Err(_) => false,
                        },
                },
            },
    {
        let artifact = match UniversalArtifactBuild::deserialize(bytes) {
            Ok(artifact) => artifact,
            Err(e) => {
                return Err(e);
            },
        };
        let ghost module = artifact.serializable;
        match Self::from_build(engine_inner, artifact, base) {
            Ok(linked) => {
                assert(Self::built(
                    *old(engine_inner),
                    *engine_inner,
                    UniversalArtifactBuild { serializable: module },
                    base,
                    Ok(linked),
                ));
                Ok(linked)
            },
            Err(e) => {
                assert(Self::built(
                    *old(engine_inner),
                    *engine_inner,
                    UniversalArtifactBuild { serializable: module },
                    base,
                    Err(e),
                ));
                Err(DeserializeError::Compiler(e))
            },
        }
    }

    /// Get the default extension when serializing this artifact
    pub fn get_default_extension(triple: &Triple) -> (extension: &'static str)
        ensures
            extension@ == "wasmu"@,
    {
        UniversalArtifactBuild::get_default_extension(triple)
    }

    /// Check if the provided bytes look like a serialized `UniversalArtifactBuild`.
    pub fn is_deserializable(bytes: &[u8]) -> (looks: bool)
        ensures
            looks == looks_serialized(bytes@),
    {
        UniversalArtifactBuild::is_deserializable(bytes)
    }

    /// Serialize the artifact: the header, the length of the module and
    /// the module.
    pub fn serialize(&self) -> (res: Result<Vec<u8>, SerializeError>)
        ensures
            res matches Ok(bytes) && bytes@ == framed(
                SerializableModule::encoding(self.build().serializable.model()),
            ),
    {
        self.artifact.serialize()
    }
}

} // verus!
