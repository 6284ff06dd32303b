//! What an engine keeps between the artifacts that it builds, and how it
//! places the code of one artifact in memory.

use crate::code_memory::{
    allocation_len, data_section_views, executable_section_views, function_views,
    unwind_records, valid_page_size, AllocationError, CodeMemory, SegmentView,
};
use crate::compilation::{CustomSection, CustomSectionProtection, FunctionBody};
use crate::host::host_page_size;
use crate::layout::Layout;
use crate::module::{declared_signatures, FunctionType};
use crate::signature::{
    interned_indices, interned_table, SignatureRegistry, VMSharedSignatureIndex,
};
use crate::unwind::UnwindRegistry;
use vstd::prelude::*;

verus! {

/// References to `bodies`, in order.
pub open spec fn body_refs<'a>(bodies: Seq<FunctionBody>) -> Seq<&'a FunctionBody> {
    bodies.map_values(|f: FunctionBody| &f)
}

/// The sections among `sections` that hold code, in order.
pub open spec fn executable_sections_of<'a>(sections: Seq<CustomSection>) -> Seq<
    &'a CustomSection,
>
    decreases sections.len(),
{
    if sections.len() == 0 {
        Seq::empty()
    } else {
        let front = executable_sections_of(sections.drop_last());
        if sections.last().protection == CustomSectionProtection::ReadExecute {
            front.push(&sections.last())
        } else {
            front
        }
    }
}

/// The sections among `sections` that hold data, in order.
pub open spec fn data_sections_of<'a>(sections: Seq<CustomSection>) -> Seq<&'a CustomSection>
    decreases sections.len(),
{
    if sections.len() == 0 {
        Seq::empty()
    } else {
        let front = data_sections_of(sections.drop_last());
        if sections.last().protection == CustomSectionProtection::ReadExecute {
            front
        } else {
            front.push(&sections.last())
        }
    }
}

/// The view of each of `sections`, where `executable` holds the views of
/// those that hold code and `data` the views of the others, each in order.
pub open spec fn merged_views(
    sections: Seq<CustomSection>,
    executable: Seq<SegmentView>,
    data: Seq<SegmentView>,
) -> Seq<SegmentView>
    decreases sections.len(),
{
    if sections.len() == 0 {
        Seq::empty()
    } else {
        let front = sections.drop_last();
        let views = merged_views(front, executable, data);
        if sections.last().protection == CustomSectionProtection::ReadExecute {
            views.push(executable[executable_sections_of(front).len() as int])
        } else {
            views.push(data[data_sections_of(front).len() as int])
        }
    }
}

/// The sections of either kind are as many as there are sections.
pub proof fn lemma_partition_len(sections: Seq<CustomSection>)
    ensures
        executable_sections_of(sections).len() + data_sections_of(sections).len()
            == sections.len(),
        merged_views(sections, Seq::empty(), Seq::empty()).len() == sections.len(),
    decreases sections.len(),
{
    if sections.len() > 0 {
        lemma_partition_len(sections.drop_last());
    }
}

/// There is one merged view for each section.
pub proof fn lemma_merged_len(
    sections: Seq<CustomSection>,
    executable: Seq<SegmentView>,
    data: Seq<SegmentView>,
)
    ensures
        merged_views(sections, executable, data).len() == sections.len(),
    decreases sections.len(),
{
    if sections.len() > 0 {
        lemma_merged_len(sections.drop_last(), executable, data);
    }
}

/// References to the function bodies in `bodies`, added to `refs`.
fn push_body_refs<'a>(refs: &mut Vec<&'a FunctionBody>, bodies: &'a Vec<FunctionBody>)
    ensures
        final(refs)@ == old(refs)@ + body_refs(bodies@),
{
    let ghost before = refs@;
    let mut i: usize = 0;
    while i < bodies.len()
        invariant
            i <= bodies.len(),
            refs@ == before + body_refs(bodies@).take(i as int),
        decreases bodies.len() - i,
    {
        refs.push(&bodies[i]);
        i = i + 1;
        assert(refs@ =~= before + body_refs(bodies@).take(i as int));
    }
    assert(body_refs(bodies@).take(i as int) =~= body_refs(bodies@));
}

/// The sections that hold code and the sections that hold data.
fn partition_sections<'a>(sections: &'a Vec<CustomSection>) -> (parts: (
    Vec<&'a CustomSection>,
    Vec<&'a CustomSection>,
))
    ensures
        parts.0@ == executable_sections_of(sections@),
        parts.1@ == data_sections_of(sections@),
{
    let mut executable: Vec<&CustomSection> = Vec::new();
    let mut data: Vec<&CustomSection> = Vec::new();
    let mut i: usize = 0;
    while i < sections.len()
        invariant
            i <= sections.len(),
            executable@ == executable_sections_of(sections@.take(i as int)),
            data@ == data_sections_of(sections@.take(i as int)),
        decreases sections.len() - i,
    {
        proof {
            assert(sections@.take(i + 1).drop_last() =~= sections@.take(i as int));
            assert(sections@.take(i + 1).last() == sections@[i as int]);
        }
        if sections[i].protection == CustomSectionProtection::ReadExecute {
            executable.push(&sections[i]);
        } else {
            data.push(&sections[i]);
        }
        i = i + 1;
    }
    assert(sections@.take(i as int) =~= sections@);
    (executable, data)
}

/// The view of each section, from the views of those that hold code and of
/// those that hold data.
fn merge_section_views(
    sections: &Vec<CustomSection>,
    executable: &Vec<SegmentView>,
    data: &Vec<SegmentView>,
) -> (views: Vec<SegmentView>)
    requires
        executable@.len() == executable_sections_of(sections@).len(),
        data@.len() == data_sections_of(sections@).len(),
    ensures
        views@ == merged_views(sections@, executable@, data@),
{
    let mut views: Vec<SegmentView> = Vec::new();
    let mut e: usize = 0;
    let mut d: usize = 0;
    let mut i: usize = 0;
    while i < sections.len()
        invariant
            i <= sections.len(),
            e == executable_sections_of(sections@.take(i as int)).len(),
            d == data_sections_of(sections@.take(i as int)).len(),
            executable@.len() == executable_sections_of(sections@).len(),
            data@.len() == data_sections_of(sections@).len(),
            views@ == merged_views(sections@.take(i as int), executable@, data@),
        decreases sections.len() - i,
    {
        proof {
            assert(sections@.take(i + 1).drop_last() =~= sections@.take(i as int));
            assert(sections@.take(i + 1).last() == sections@[i as int]);
            lemma_partition_prefix(sections@, i + 1);
        }
        if sections[i].protection == CustomSectionProtection::ReadExecute {
            assert(executable_sections_of(sections@.take(i + 1)).len() == e + 1);
            assert(e < executable.len());
            views.push(executable[e]);
            e = e + 1;
        } else {
            assert(data_sections_of(sections@.take(i + 1)).len() == d + 1);
            assert(d < data.len());
            views.push(data[d]);
            d = d + 1;
        }
        i = i + 1;
    }
    assert(sections@.take(i as int) =~= sections@);
    views
}

/// Among the first sections there are no more of either kind than among all.
pub proof fn lemma_partition_prefix(sections: Seq<CustomSection>, n: int)
    requires
        0 <= n <= sections.len(),
    ensures
        executable_sections_of(sections.take(n)).len() <= executable_sections_of(sections).len(),
        data_sections_of(sections.take(n)).len() <= data_sections_of(sections).len(),
    decreases sections.len(),
{
    if n == sections.len() {
        assert(sections.take(n) =~= sections);
    } else {
        assert(sections.drop_last().take(n) =~= sections.take(n));
        lemma_partition_prefix(sections.drop_last(), n);
    }
}

/// The function bodies of an image: the local functions, then the
/// trampolines for calls from the host, then those for calls to the host.
pub open spec fn all_bodies<'a>(
    functions: Seq<FunctionBody>,
    function_call_trampolines: Seq<FunctionBody>,
    dynamic_function_trampolines: Seq<FunctionBody>,
) -> Seq<&'a FunctionBody> {
    body_refs(functions) + body_refs(function_call_trampolines) + body_refs(
        dynamic_function_trampolines,
    )
}

/// The layout of the image of a module on a host with pages of `page_size` bytes.
pub open spec fn image_layout(
    functions: Seq<FunctionBody>,
    function_call_trampolines: Seq<FunctionBody>,
    dynamic_function_trampolines: Seq<FunctionBody>,
    custom_sections: Seq<CustomSection>,
    page_size: usize,
) -> Layout {
    Layout::of(
        all_bodies(functions, function_call_trampolines, dynamic_function_trampolines),
        executable_sections_of(custom_sections),
        data_sections_of(custom_sections),
        page_size as int,
    )
}

/// Where each custom section lies in the image of `layout`.
pub open spec fn section_views(custom_sections: Seq<CustomSection>, layout: Layout) -> Seq<
    SegmentView,
> {
    merged_views(custom_sections, executable_section_views(layout), data_section_views(layout))
}

/// Where the parts of a module lie in its image.
#[derive(Debug, PartialEq, Eq)]
pub struct Allocated {
    /// Where the local functions lie.
    pub functions: Vec<SegmentView>,
    /// Where the trampolines for calls from the host lie, one for each signature.
    pub function_call_trampolines: Vec<SegmentView>,
    /// Where the trampolines for calls to the host lie, one for each imported function.
    pub dynamic_function_trampolines: Vec<SegmentView>,
    /// Where the custom sections lie.
    pub custom_sections: Vec<SegmentView>,
}

/// The views from `from` up to `to`.
fn copy_views(views: &Vec<SegmentView>, from: usize, to: usize) -> (part: Vec<SegmentView>)
    requires
        from <= to <= views@.len(),
    ensures
        part@ == views@.subrange(from as int, to as int),
{
    let mut part: Vec<SegmentView> = Vec::new();
    let mut i: usize = from;
    while i < to
        invariant
            from <= i <= to <= views@.len(),
            part@ == views@.subrange(from as int, i as int),
        decreases to - i,
    {
        part.push(views[i]);
        i = i + 1;
        assert(part@ =~= views@.subrange(from as int, i as int));
    }
    part
}

/// What an engine keeps between the artifacts that it builds: the table of
/// signatures that they share, and the page size of the host.
#[derive(Debug)]
pub struct UniversalEngineInner {
    signatures: SignatureRegistry,
    page_size: usize,
}

impl UniversalEngineInner {
    /// The page size of the host that the engine builds for.
    pub closed spec fn page_size(&self) -> usize {
        self.page_size
    }

    /// The table of signatures.
    pub closed spec fn signatures(&self) -> SignatureRegistry {
        self.signatures
    }

    /// An engine for a host with pages of `page_size` bytes, with an empty
    /// table of signatures.
    pub fn new(page_size: usize) -> (engine: Self)
        ensures
            engine.page_size() == page_size,
            engine.signatures().table().len() == 0,
    {
        UniversalEngineInner { signatures: SignatureRegistry::new(), page_size }
    }

    /// An engine for this host, whose page size the operating system reports.
    pub fn for_host() -> (engine: Self)
        ensures
            engine.signatures().table().len() == 0,
    {
        UniversalEngineInner { signatures: SignatureRegistry::new(), page_size: host_page_size() }
    }

    /// The page size of the host that the engine builds for.
    pub fn host_page_size(&self) -> (page_size: usize)
        ensures
            page_size == self.page_size(),
    {
        self.page_size
    }

    /// Shared signature registry.
    pub fn signature_registry(&self) -> (registry: &SignatureRegistry)
        ensures
            *registry == self.signatures(),
    {
        &self.signatures
    }

    /// Interns every signature of `signatures` in the shared table, in order.
    pub fn register_signatures(&mut self, signatures: &Vec<FunctionType>) -> (indices: Vec<
        VMSharedSignatureIndex,
    >)
        ensures
            indices@ == interned_indices(
                old(self).signatures().table(),
                declared_signatures(signatures@),
            ),
            final(self).signatures().table() == interned_table(
                old(self).signatures().table(),
                declared_signatures(signatures@),
            ),
            final(self).page_size() == old(self).page_size(),
    {
        self.signatures.register_all(signatures)
    }

    /// The length of the image of a module: the number of bytes that the
    /// host has to map before the module is placed.
    pub fn image_len(
        &self,
        functions: &Vec<FunctionBody>,
        function_call_trampolines: &Vec<FunctionBody>,
        dynamic_function_trampolines: &Vec<FunctionBody>,
        custom_sections: &Vec<CustomSection>,
    ) -> (res: Result<usize, AllocationError>)
        ensures
            ({
                let layout = image_layout(
                    functions@,
                    function_call_trampolines@,
                    dynamic_function_trampolines@,
                    custom_sections@,
                    self.page_size(),
                );
                match res {
                    Ok(len) => valid_page_size(self.page_size()) && len == layout.total_len(),
                    Err(AllocationError::PageSize) => !valid_page_size(self.page_size()),
                    Err(AllocationError::TooLarge) => valid_page_size(self.page_size())
                        && layout.total_len() > usize::MAX,
                    Err(_) => false,
                }
            }),
    {
        let mut function_bodies: Vec<&FunctionBody> = Vec::new();
        push_body_refs(&mut function_bodies, functions);
        push_body_refs(&mut function_bodies, function_call_trampolines);
        push_body_refs(&mut function_bodies, dynamic_function_trampolines);
        let (executable_sections, data_sections) = partition_sections(custom_sections);
        assert(function_bodies@ =~= all_bodies(
            functions@,
            function_call_trampolines@,
            dynamic_function_trampolines@,
        ));
        allocation_len(
            function_bodies.as_slice(),
            executable_sections.as_slice(),
            data_sections.as_slice(),
            self.page_size,
        )
    }

    /// Allocate compiled functions into memory.
    ///
    /// The image of the function bodies and the custom sections is laid out
    /// in `memory` for the address `base`: the sections that hold code go to
    /// the executable partition, behind the functions, and the others to the
    /// data partition. On an error neither the memory nor the registry changes.
    pub fn allocate(
        &self,
        memory: &mut CodeMemory,
        registry: &mut UnwindRegistry,
        functions: &Vec<FunctionBody>,
        function_call_trampolines: &Vec<FunctionBody>,
        dynamic_function_trampolines: &Vec<FunctionBody>,
        custom_sections: &Vec<CustomSection>,
        base: usize,
    ) -> (res: Result<Allocated, AllocationError>)
        ensures
            ({
                let bodies = all_bodies(
                    functions@,
                    function_call_trampolines@,
                    dynamic_function_trampolines@,
                );
                let layout = image_layout(
                    functions@,
                    function_call_trampolines@,
                    dynamic_function_trampolines@,
                    custom_sections@,
                    self.page_size(),
                );
                let error = CodeMemory::allocation_error(
                    old(registry).is_published(),
                    bodies,
                    executable_sections_of(custom_sections@),
                    data_sections_of(custom_sections@),
                    self.page_size(),
                    base,
                );
                let views = function_views(bodies, layout);
                let local = functions@.len() as int;
                let call = function_call_trampolines@.len() as int;
                match res {
                    Ok(allocated) => {
                        &&& error is None
                        &&& final(memory).holds_image(layout, base as int)
                        &&& final(memory).registries() == old(memory).registries()
                        &&& allocated.functions@ == views.subrange(0, local)
                        &&& allocated.function_call_trampolines@ == views.subrange(
                            local,
                            local + call,
                        )
                        &&& allocated.dynamic_function_trampolines@ == views.subrange(
                            local + call,
                            views.len() as int,
                        )
                        &&& allocated.custom_sections@ == section_views(custom_sections@, layout)
                        &&& final(registry).entries() == old(registry).entries() + unwind_records(
                            bodies,
                            base as int,
                        )
                        &&& final(registry).is_published() == old(registry).is_published()
                        &&& final(registry).frame_table() == old(registry).frame_table()
                    },
                    Err(e) => {
                        &&& error == Some(e)
                        &&& *final(memory) == *old(memory)
                        &&& *final(registry) == *old(registry)
                    },
                }
            }),
    {
        let mut function_bodies: Vec<&FunctionBody> = Vec::new();
        push_body_refs(&mut function_bodies, functions);
        push_body_refs(&mut function_bodies, function_call_trampolines);
        push_body_refs(&mut function_bodies, dynamic_function_trampolines);
        let (executable_sections, data_sections) = partition_sections(custom_sections);
        assert(function_bodies@ =~= all_bodies(
            functions@,
            function_call_trampolines@,
            dynamic_function_trampolines@,
        ));

        let (allocated_functions, allocated_executable_sections, allocated_data_sections) =
            match memory.allocate_with_page_size(
            registry,
            function_bodies.as_slice(),
            executable_sections.as_slice(),
            data_sections.as_slice(),
            self.page_size,
            base,
        ) {
            Ok(allocated) => allocated,
            Err(e) => {
                return Err(e);
            },
        };

        let local = functions.len();
        let call = function_call_trampolines.len();
        let all = allocated_functions.len();
        let allocated_functions_result = copy_views(&allocated_functions, 0, local);
        let allocated_function_call_trampolines = copy_views(
            &allocated_functions,
            local,
            local + call,
        );
        let allocated_dynamic_function_trampolines = copy_views(
            &allocated_functions,
            local + call,
            all,
        );
        let allocated_custom_sections = merge_section_views(
            custom_sections,
            &allocated_executable_sections,
            &allocated_data_sections,
        );
        Ok(
            Allocated {
                functions: allocated_functions_result,
                function_call_trampolines: allocated_function_call_trampolines,
                dynamic_function_trampolines: allocated_dynamic_function_trampolines,
                custom_sections: allocated_custom_sections,
            },
        )
    }
}

/// Each merged view is one of the views that were merged.
pub proof fn lemma_merged_views_from(
    sections: Seq<CustomSection>,
    executable: Seq<SegmentView>,
    data: Seq<SegmentView>,
    i: int,
)
    requires
        executable.len() == executable_sections_of(sections).len(),
        data.len() == data_sections_of(sections).len(),
        0 <= i < sections.len(),
    ensures
        merged_views(sections, executable, data).len() == sections.len(),
        executable.contains(merged_views(sections, executable, data)[i]) || data.contains(
            merged_views(sections, executable, data)[i],
        ),
    decreases sections.len(),
{
    lemma_merged_len(sections, executable, data);
    let front = sections.drop_last();
    lemma_merged_len(front, executable, data);
    lemma_partition_len(front);
    if i < sections.len() - 1 {
        let fewer_executable = executable.take(executable_sections_of(front).len() as int);
        let fewer_data = data.take(data_sections_of(front).len() as int);
        lemma_merged_views_take(front, executable, data);
        lemma_merged_views_from(front, fewer_executable, fewer_data, i);
        let view = merged_views(front, fewer_executable, fewer_data)[i];
        if fewer_executable.contains(view) {
            let k = choose|k: int| 0 <= k < fewer_executable.len() && fewer_executable[k] == view;
            assert(executable[k] == view);
        } else {
            let k = choose|k: int| 0 <= k < fewer_data.len() && fewer_data[k] == view;
            assert(data[k] == view);
        }
    } else {
        if sections.last().protection == CustomSectionProtection::ReadExecute {
            assert(executable[executable_sections_of(front).len() as int] == merged_views(
                sections,
                executable,
                data,
            )[i]);
        } else {
            assert(data[data_sections_of(front).len() as int] == merged_views(
                sections,
                executable,
                data,
            )[i]);
        }
    }
}

/// The merged views of some sections depend on no more views of either
/// kind than there are sections of that kind.
pub proof fn lemma_merged_views_take(
    sections: Seq<CustomSection>,
    executable: Seq<SegmentView>,
    data: Seq<SegmentView>,
)
    requires
        executable_sections_of(sections).len() <= executable.len(),
        data_sections_of(sections).len() <= data.len(),
    ensures
        merged_views(sections, executable, data) == merged_views(
            sections,
            executable.take(executable_sections_of(sections).len() as int),
            data.take(data_sections_of(sections).len() as int),
        ),
    decreases sections.len(),
{
    if sections.len() > 0 {
        let front = sections.drop_last();
        let e = executable.take(executable_sections_of(sections).len() as int);
        let d = data.take(data_sections_of(sections).len() as int);
        lemma_merged_views_take(front, executable, data);
        lemma_merged_views_take(front, e, d);
        assert(e.take(executable_sections_of(front).len() as int) =~= executable.take(
            executable_sections_of(front).len() as int,
        ));
        assert(d.take(data_sections_of(front).len() as int) =~= data.take(
            data_sections_of(front).len() as int,
        ));
    }
}

} // verus!
