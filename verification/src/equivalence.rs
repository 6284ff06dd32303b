//! What an artifact is built from depends on the bytes of the record of its
//! compilation only: two records that are written as the same bytes build
//! the same image, at the same addresses, with the same unwind information.
//! So an artifact that is serialized and deserialized is built again as it was.

use crate::artifact::{LinkedArtifact, UniversalArtifact, UniversalArtifactBuild};
use crate::code_memory::{function_views, has_unwind_info, unwind_records, SegmentView};
use crate::codec::{models_of, Codec};
use crate::compilation::{CustomSection, FunctionBody, Relocation};
use crate::engine::{
    body_refs, data_sections_of, executable_sections_of, merged_views, UniversalEngineInner,
};
use crate::error::CompileError;
use crate::layout::{function_contents, section_contents};
use crate::link::LinkTargets;
use crate::module::{declared_signatures, FunctionType};
use crate::serialize::SerializableCompilation;
use vstd::prelude::*;

verus! {

/// Bytes stand for themselves.
pub proof fn lemma_bytes_model(bytes: Vec<u8>)
    ensures
        bytes.model() == bytes@,
{
    assert(bytes.model() =~= bytes@);
}

/// Two function bodies that stand for the same value have the same code
/// and the same unwind information.
pub proof fn lemma_same_body(a: FunctionBody, b: FunctionBody)
    requires
        a.model() == b.model(),
    ensures
        a.body@ == b.body@,
        a.unwind_info is Some == b.unwind_info is Some,
        a.has_inline_table() == b.has_inline_table(),
        a.inline_table() == b.inline_table(),
        a.contents() == b.contents(),
{
    lemma_bytes_model(a.body);
    lemma_bytes_model(b.body);
}

/// Two lists of function bodies that stand for the same values take the
/// same places in an image and have the same unwind records.
pub proof fn lemma_same_bodies(a: Seq<FunctionBody>, b: Seq<FunctionBody>, base: int)
    requires
        models_of(a) == models_of(b),
    ensures
        a.len() == b.len(),
        function_contents(body_refs(a)) == function_contents(body_refs(b)),
        unwind_records(body_refs(a), base) == unwind_records(body_refs(b), base),
        has_unwind_info(body_refs(a)) == has_unwind_info(body_refs(b)),
        forall|i: int| 0 <= i < a.len() ==> (#[trigger] a[i]).body@ == b[i].body@,
    decreases a.len(),
{
    assert(a.len() == models_of(a).len());
    assert(b.len() == models_of(b).len());
    assert forall|i: int| 0 <= i < a.len() implies (#[trigger] a[i]).body@ == b[i].body@
        && a[i].contents() == b[i].contents() && a[i].unwind_info is Some
        == b[i].unwind_info is Some by {
        assert(models_of(a)[i] == a[i].model());
        assert(models_of(b)[i] == b[i].model());
        lemma_same_body(a[i], b[i]);
    }
    assert(function_contents(body_refs(a)) =~= function_contents(body_refs(b)));
    if has_unwind_info(body_refs(a)) {
        let i = choose|i: int| 0 <= i < a.len() && (#[trigger] body_refs(a)[i]).unwind_info is Some;
        assert(body_refs(b)[i].unwind_info is Some);
    }
    if has_unwind_info(body_refs(b)) {
        let i = choose|i: int| 0 <= i < b.len() && (#[trigger] body_refs(b)[i]).unwind_info is Some;
        assert(body_refs(a)[i].unwind_info is Some);
    }
    if a.len() > 0 {
        let front_a = a.drop_last();
        let front_b = b.drop_last();
        assert(models_of(front_a) =~= models_of(a).drop_last());
        assert(models_of(front_b) =~= models_of(b).drop_last());
        lemma_same_bodies(front_a, front_b, base);
        assert(models_of(a)[a.len() - 1] == a.last().model());
        assert(models_of(b)[b.len() - 1] == b.last().model());
        lemma_same_body(a.last(), b.last());
        assert(body_refs(a).drop_last() =~= body_refs(front_a));
        assert(body_refs(b).drop_last() =~= body_refs(front_b));
    }
}

/// The contents of sections, one more of which is taken, are the contents
/// of the others and then its own.
pub proof fn lemma_section_contents_push(sections: Seq<&CustomSection>, section: &CustomSection)
    ensures
        section_contents(sections.push(section)) == section_contents(sections).push(
            section.bytes@,
        ),
        section_contents(sections).len() == sections.len(),
{
    assert(section_contents(sections.push(section)) =~= section_contents(sections).push(
        section.bytes@,
    ));
}

/// Two lists of sections that stand for the same values have the same
/// sections of code and of data, with the same contents, in the same order.
pub proof fn lemma_same_sections(a: Seq<CustomSection>, b: Seq<CustomSection>)
    requires
        models_of(a) == models_of(b),
    ensures
        a.len() == b.len(),
        section_contents(executable_sections_of(a)) == section_contents(executable_sections_of(b)),
        section_contents(data_sections_of(a)) == section_contents(data_sections_of(b)),
        executable_sections_of(a).len() == executable_sections_of(b).len(),
        data_sections_of(a).len() == data_sections_of(b).len(),
        forall|executable: Seq<SegmentView>, data: Seq<SegmentView>|
            #[trigger] merged_views(a, executable, data) == merged_views(b, executable, data),
    decreases a.len(),
{
    assert(a.len() == models_of(a).len());
    assert(b.len() == models_of(b).len());
    if a.len() > 0 {
        let front_a = a.drop_last();
        let front_b = b.drop_last();
        assert(models_of(front_a) =~= models_of(a).drop_last());
        assert(models_of(front_b) =~= models_of(b).drop_last());
        lemma_same_sections(front_a, front_b);
        assert(models_of(a)[a.len() - 1] == a.last().model());
        assert(models_of(b)[b.len() - 1] == b.last().model());
        lemma_bytes_model(a.last().bytes);
        lemma_bytes_model(b.last().bytes);
        assert(a.last().protection == b.last().protection);
        assert(a.last().bytes@ == b.last().bytes@);
        lemma_section_contents_push(executable_sections_of(front_a), &a.last());
        lemma_section_contents_push(executable_sections_of(front_b), &b.last());
        lemma_section_contents_push(data_sections_of(front_a), &a.last());
        lemma_section_contents_push(data_sections_of(front_b), &b.last());
        assert forall|executable: Seq<SegmentView>, data: Seq<SegmentView>|
            #[trigger] merged_views(a, executable, data) == merged_views(
                b,
                executable,
                data,
            ) by {
            assert(merged_views(front_a, executable, data) == merged_views(
                front_b,
                executable,
                data,
            ));
        }
    } else {
        assert(executable_sections_of(a) =~= executable_sections_of(b));
        assert(data_sections_of(a) =~= data_sections_of(b));
    }
}

/// A list of relocations stands for itself.
pub proof fn lemma_relocations_model(relocations: Vec<Relocation>)
    ensures
        relocations.model() == relocations@,
{
    assert(relocations.model() =~= relocations@);
}

/// Two lists of lists of relocations that stand for the same values hold
/// the same relocations: the same relocation is at fault in both, and both
/// change an image in the same way.
pub proof fn lemma_same_relocations(
    a: Seq<Vec<Relocation>>,
    b: Seq<Vec<Relocation>>,
    targets: LinkTargets,
    owners: Seq<SegmentView>,
    image: Seq<u8>,
)
    requires
        models_of(a) == models_of(b),
    ensures
        a.len() == b.len(),
        targets.first_fault_of_all(owners, a) == targets.first_fault_of_all(owners, b),
        targets.apply_all(image, owners, a) == targets.apply_all(image, owners, b),
    decreases a.len(),
{
    assert(a.len() == models_of(a).len());
    assert(b.len() == models_of(b).len());
    if a.len() > 0 {
        let front_a = a.drop_last();
        let front_b = b.drop_last();
        assert(models_of(front_a) =~= models_of(a).drop_last());
        assert(models_of(front_b) =~= models_of(b).drop_last());
        lemma_same_relocations(front_a, front_b, targets, owners, image);
        assert(models_of(a)[a.len() - 1] == a.last().model());
        assert(models_of(b)[b.len() - 1] == b.last().model());
        lemma_relocations_model(a.last());
        lemma_relocations_model(b.last());
    }
}

/// Two lists of signatures that stand for the same values declare the same
/// signatures.
pub proof fn lemma_same_signatures(a: Seq<FunctionType>, b: Seq<FunctionType>)
    requires
        models_of(a) == models_of(b),
    ensures
        declared_signatures(a) == declared_signatures(b),
{
    assert(a.len() == models_of(a).len());
    assert(b.len() == models_of(b).len());
    assert forall|i: int| 0 <= i < a.len() implies a[i]@ == b[i]@ by {
        assert(models_of(a)[i] == a[i].model());
        assert(models_of(b)[i] == b[i].model());
        assert(a[i].params.model() =~= a[i].params@);
        assert(b[i].params.model() =~= b[i].params@);
        assert(a[i].results.model() =~= a[i].results@);
        assert(b[i].results.model() =~= b[i].results@);
    }
    assert(declared_signatures(a) =~= declared_signatures(b));
}

/// Two compilations that stand for the same value are laid out, linked and
/// refused alike.
pub proof fn lemma_same_compilation(
    a: SerializableCompilation,
    b: SerializableCompilation,
    page_size: usize,
    base: usize,
)
    requires
        a.model() == b.model(),
    ensures
        a.layout(page_size) == b.layout(page_size),
        a.local_function_views(page_size) == b.local_function_views(page_size),
        a.call_trampoline_views(page_size) == b.call_trampoline_views(page_size),
        a.dynamic_trampoline_views(page_size) == b.dynamic_trampoline_views(page_size),
        a.custom_section_views(page_size) == b.custom_section_views(page_size),
        a.targets(page_size, base) == b.targets(page_size, base),
        a.build_error(page_size, base) == b.build_error(page_size, base),
        a.image(page_size, base) == b.image(page_size, base),
        a.eh_frame(page_size, base) == b.eh_frame(page_size, base),
        unwind_records(a.bodies(), base as int) == unwind_records(b.bodies(), base as int),
{
    lemma_same_bodies(a.function_bodies@, b.function_bodies@, base as int);
    lemma_same_bodies(a.function_call_trampolines@, b.function_call_trampolines@, base as int);
    lemma_same_bodies(
        a.dynamic_function_trampolines@,
        b.dynamic_function_trampolines@,
        base as int,
    );
    lemma_same_sections(a.custom_sections@, b.custom_sections@);
    let bodies_a = a.function_bodies@ + a.function_call_trampolines@
        + a.dynamic_function_trampolines@;
    let bodies_b = b.function_bodies@ + b.function_call_trampolines@
        + b.dynamic_function_trampolines@;
    assert(a.bodies() =~= body_refs(bodies_a));
    assert(b.bodies() =~= body_refs(bodies_b));
    assert(models_of(bodies_a) =~= models_of(a.function_bodies@) + models_of(
        a.function_call_trampolines@,
    ) + models_of(a.dynamic_function_trampolines@));
    assert(models_of(bodies_b) =~= models_of(b.function_bodies@) + models_of(
        b.function_call_trampolines@,
    ) + models_of(b.dynamic_function_trampolines@));
    lemma_same_bodies(bodies_a, bodies_b, base as int);
    assert(a.layout(page_size) == b.layout(page_size));
    let layout = a.layout(page_size);
    assert(function_views(a.bodies(), layout) =~= function_views(b.bodies(), layout));
    assert(a.custom_section_views(page_size) == b.custom_section_views(page_size));
    let targets = a.targets(page_size, base);
    lemma_same_relocations(
        a.custom_section_relocations@,
        b.custom_section_relocations@,
        targets,
        targets.sections,
        layout.image(),
    );
    lemma_same_relocations(
        a.function_relocations@,
        b.function_relocations@,
        targets,
        targets.functions,
        targets.apply_all(layout.image(), targets.sections, a.custom_section_relocations@),
    );
}

/// An artifact that is deserialized is built as it was: two records of a
/// compilation that stand for the same value are built alike by engines
/// with the same page size and the same table of signatures. Either both
/// fail, with the same error, or both give an image of the same bytes at
/// the same address, the same pointers to functions and trampolines, the
/// same lengths, the same indices of signatures and the same unwind
/// records, and leave the same table of signatures.
pub proof fn lemma_same_build(
    before_a: UniversalEngineInner,
    after_a: UniversalEngineInner,
    a: UniversalArtifactBuild,
    res_a: Result<LinkedArtifact, CompileError>,
    before_b: UniversalEngineInner,
    after_b: UniversalEngineInner,
    b: UniversalArtifactBuild,
    res_b: Result<LinkedArtifact, CompileError>,
    base: usize,
)
    requires
        a.serializable.model() == b.serializable.model(),
        before_a.page_size() == before_b.page_size(),
        before_a.signatures().table() == before_b.signatures().table(),
        UniversalArtifact::built(before_a, after_a, a, base, res_a),
        UniversalArtifact::built(before_b, after_b, b, base, res_b),
    ensures
        match (res_a, res_b) {
            (Ok(linked_a), Ok(linked_b)) => {
                let built_a = linked_a.pending();
                let built_b = linked_b.pending();
                &&& built_a.memory().bytes() == built_b.memory().bytes()
                &&& built_a.memory().base() == built_b.memory().base()
                &&& built_a.memory().execute_boundary() == built_b.memory().execute_boundary()
                &&& built_a.function_pointers() == built_b.function_pointers()
                &&& built_a.function_lengths() == built_b.function_lengths()
                &&& built_a.call_trampoline_pointers() == built_b.call_trampoline_pointers()
                &&& built_a.dynamic_trampoline_pointers() == built_b.dynamic_trampoline_pointers()
                &&& built_a.shared_signatures() == built_b.shared_signatures()
                &&& linked_a.unwind_entries() == linked_b.unwind_entries()
                &&& linked_a.frame_table() == linked_b.frame_table()
                &&& after_a.signatures().table() == after_b.signatures().table()
            },
            (Err(error_a), Err(error_b)) => error_a == error_b,
            _ => false,
        },
{
    lemma_same_compilation(
        a.serializable.compilation,
        b.serializable.compilation,
        before_a.page_size(),
        base,
    );
    lemma_same_signatures(
        a.serializable.compile_info.module.signatures@,
        b.serializable.compile_info.module.signatures@,
    );
}

} // verus!
