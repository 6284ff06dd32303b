//! Linking: writing final addresses into the places that the relocations name.
//!
//! Linking runs on an image that has been allocated and not yet published.
//! All relocations are checked before the first byte is written, so a
//! malformed relocation leaves the image as it was.

use crate::code_memory::{overwrite, CodeMemory, SegmentView};
use crate::compilation::{Relocation, RelocationKind, RelocationTarget};
use vstd::bytes::{
    lemma_auto_spec_u32_to_from_le_bytes, lemma_auto_spec_u64_to_from_le_bytes,
    spec_u32_to_le_bytes, spec_u64_to_le_bytes, u32_to_le_bytes, u64_to_le_bytes,
};
use vstd::prelude::*;

verus! {

/// Why an image could not be linked.
#[derive(Clone, Copy, Debug, PartialEq, Eq, Structural)]
pub enum LinkError {
    /// The image is published: its code can no longer be written.
    Published,
    /// There are relocations for a function or a section that the image does not hold.
    UnknownOwner,
    /// A relocation would write outside the function or section that owns it.
    OutOfBounds,
    /// A relocation refers to a function, a section or a call stub that the
    /// image does not hold.
    UnresolvedTarget,
}

/// What relocations can refer to in an image.
pub struct LinkTargets {
    /// The address of the first byte of the image.
    pub base: int,
    /// The length of the image.
    pub image_len: int,
    /// Where the local functions lie.
    pub functions: Seq<SegmentView>,
    /// Where the custom sections lie.
    pub sections: Seq<SegmentView>,
    /// The index of the section that holds the libcall trampolines.
    pub libcall_trampolines: int,
    /// The length of each libcall trampoline.
    pub libcall_trampoline_len: int,
}

impl LinkTargets {
    /// Whether `view` lies within the image.
    pub open spec fn holds(&self, view: SegmentView) -> bool {
        view.offset + view.len <= self.image_len
    }

    /// The address of `target`, if the image holds it.
    ///
    /// The address of a function or a section is that of its first byte. The
    /// libcall trampolines lie one behind the other in their section, each of
    /// the same length.
    pub open spec fn resolve(&self, target: RelocationTarget) -> Option<int> {
        match target {
            RelocationTarget::LocalFunc(i) => {
                if i < self.functions.len() && self.holds(self.functions[i as int]) {
                    Some(self.base + self.functions[i as int].offset)
                } else {
                    None
                }
            },
            RelocationTarget::CustomSection(i) => {
                if i < self.sections.len() && self.holds(self.sections[i as int]) {
                    Some(self.base + self.sections[i as int].offset)
                } else {
                    None
                }
            },
            RelocationTarget::LibCall(k) => {
                let section = self.sections[self.libcall_trampolines];
                if 0 <= self.libcall_trampolines < self.sections.len() && self.holds(section) && k
                    * self.libcall_trampoline_len + self.libcall_trampoline_len <= section.len {
                    Some(self.base + section.offset + k * self.libcall_trampoline_len)
                } else {
                    None
                }
            },
        }
    }

    /// What is wrong with relocation `r` of the function or section at
    /// `owner`, if anything.
    pub open spec fn fault(&self, owner: SegmentView, r: Relocation) -> Option<LinkError> {
        if !self.holds(owner) || r.offset + r.kind.spec_width() > owner.len {
            Some(LinkError::OutOfBounds)
        } else if self.resolve(r.reloc_target) is None {
            Some(LinkError::UnresolvedTarget)
        } else {
            None
        }
    }

    /// The offset in the image of the place that `r` patches.
    pub open spec fn place(&self, owner: SegmentView, r: Relocation) -> int {
        owner.offset + r.offset
    }

    /// The bytes that relocation `r` writes.
    pub open spec fn patch(&self, owner: SegmentView, r: Relocation) -> Seq<u8> {
        relocation_bytes(
            r.kind,
            self.resolve(r.reloc_target).unwrap(),
            r.addend as int,
            self.base + self.place(owner, r),
        )
    }

    /// The first fault among the relocations `rs` of the function or section
    /// at `owner`.
    pub open spec fn first_fault(&self, owner: SegmentView, rs: Seq<Relocation>) -> Option<
        LinkError,
    >
        decreases rs.len(),
    {
        if rs.len() == 0 {
            None
        } else {
            match self.first_fault(owner, rs.drop_last()) {
                Some(e) => Some(e),
                None => self.fault(owner, rs.last()),
            }
        }
    }

    /// The first fault among the lists of relocations, of which list `i`
    /// belongs to the function or section at `owners[i]`.
    pub open spec fn first_fault_of_all(
        &self,
        owners: Seq<SegmentView>,
        relocations: Seq<Vec<Relocation>>,
    ) -> Option<LinkError>
        decreases relocations.len(),
    {
        if relocations.len() == 0 {
            None
        } else {
            match self.first_fault_of_all(owners, relocations.drop_last()) {
                Some(e) => Some(e),
                None => if relocations.len() > owners.len() {
                    Some(LinkError::UnknownOwner)
                } else {
                    self.first_fault(owners[relocations.len() - 1], relocations.last()@)
                },
            }
        }
    }

    /// `image` after the relocations `rs` of the function or section at
    /// `owner` have been applied in order.
    pub open spec fn apply(&self, image: Seq<u8>, owner: SegmentView, rs: Seq<Relocation>) -> Seq<
        u8,
    >
        decreases rs.len(),
    {
        if rs.len() == 0 {
            image
        } else {
            overwrite(
                self.apply(image, owner, rs.drop_last()),
                self.place(owner, rs.last()),
                self.patch(owner, rs.last()),
            )
        }
    }

    /// `image` after all lists of relocations have been applied in order.
    pub open spec fn apply_all(
        &self,
        image: Seq<u8>,
        owners: Seq<SegmentView>,
        relocations: Seq<Vec<Relocation>>,
    ) -> Seq<u8>
        decreases relocations.len(),
    {
        if relocations.len() == 0 {
            image
        } else {
            self.apply(
                self.apply_all(image, owners, relocations.drop_last()),
                owners[relocations.len() - 1],
                relocations.last()@,
            )
        }
    }
}

/// The number that a relocation encodes: for an absolute relocation the
/// address of the target plus the addend; for a relative one the distance
/// from the patched place to that. Both are taken modulo the width of the
/// encoding.
pub open spec fn relocation_value(
    kind: RelocationKind,
    target: int,
    addend: int,
    place: int,
) -> int {
    match kind {
        RelocationKind::Abs8 => (target + addend) % 0x1_0000_0000_0000_0000,
        RelocationKind::PcRel4 => (target + addend - place) % 0x1_0000_0000,
        RelocationKind::PcRel8 => (target + addend - place) % 0x1_0000_0000_0000_0000,
    }
}

/// The bytes that a relocation writes: the number that it encodes, least
/// significant byte first.
pub open spec fn relocation_bytes(
    kind: RelocationKind,
    target: int,
    addend: int,
    place: int,
) -> Seq<u8> {
    let value = relocation_value(kind, target, addend, place);
    match kind {
        RelocationKind::Abs8 => spec_u64_to_le_bytes(value as u64),
        RelocationKind::PcRel4 => spec_u32_to_le_bytes(value as u32),
        RelocationKind::PcRel8 => spec_u64_to_le_bytes(value as u64),
    }
}

/// The bytes that a relocation of `kind` writes at the address `place` for
/// the target at the address `target`.
pub fn encode_relocation(kind: RelocationKind, target: u64, addend: i64, place: u64) -> (bytes:
    Vec<u8>)
    ensures
        bytes@ == relocation_bytes(kind, target as int, addend as int, place as int),
        bytes@.len() == kind.spec_width(),
{
    match kind {
        RelocationKind::Abs8 => {
            let value = target.wrapping_add_signed(addend);
            u64_to_le_bytes(value)
        },
        RelocationKind::PcRel4 => {
            let value = target.wrapping_add_signed(addend).wrapping_sub(place);
            let low: u64 = value % 0x1_0000_0000u64;
            u32_to_le_bytes(low as u32)
        },
        RelocationKind::PcRel8 => {
            let value = target.wrapping_add_signed(addend).wrapping_sub(place);
            u64_to_le_bytes(value)
        },
    }
}

/// What relocations can refer to in `memory`, with the local functions at
/// `functions` and the custom sections at `sections`.
pub open spec fn targets_in(
    memory: CodeMemory,
    functions: Seq<SegmentView>,
    sections: Seq<SegmentView>,
    libcall_trampolines: u32,
    libcall_trampoline_len: usize,
) -> LinkTargets {
    LinkTargets {
        base: memory.base() as int,
        image_len: memory.bytes().len() as int,
        functions,
        sections,
        libcall_trampolines: libcall_trampolines as int,
        libcall_trampoline_len: libcall_trampoline_len as int,
    }
}

/// Why an image cannot be linked, if it cannot: it is published, or a
/// relocation is at fault. The relocations of the sections are looked at
/// before those of the functions.
pub open spec fn link_fault(
    published: bool,
    targets: LinkTargets,
    function_relocations: Seq<Vec<Relocation>>,
    section_relocations: Seq<Vec<Relocation>>,
) -> Option<LinkError> {
    if published {
        Some(LinkError::Published)
    } else {
        match targets.first_fault_of_all(targets.sections, section_relocations) {
            Some(e) => Some(e),
            None => targets.first_fault_of_all(targets.functions, function_relocations),
        }
    }
}

/// The image after linking: the relocations of the sections are applied
/// first, then those of the functions.
pub open spec fn linked_image(
    image: Seq<u8>,
    targets: LinkTargets,
    function_relocations: Seq<Vec<Relocation>>,
    section_relocations: Seq<Vec<Relocation>>,
) -> Seq<u8> {
    targets.apply_all(
        targets.apply_all(image, targets.sections, section_relocations),
        targets.functions,
        function_relocations,
    )
}

/// The address of `target` in `memory`, if the image holds it.
fn resolve_target(
    memory: &CodeMemory,
    functions: &[SegmentView],
    sections: &[SegmentView],
    libcall_trampolines: u32,
    libcall_trampoline_len: usize,
    target: RelocationTarget,
) -> (address: Option<usize>)
    requires
        memory.well_formed(),
    ensures
        match address {
            Some(address) => Some(address as int),
            None => None,
        } == targets_in(
            *memory,
            functions@,
            sections@,
            libcall_trampolines,
            libcall_trampoline_len,
        ).resolve(target),
{
    match target {
        RelocationTarget::LocalFunc(i) => {
            if (i as usize) < functions.len() {
                memory.address_of(&functions[i as usize])
            } else {
                None
            }
        },
        RelocationTarget::CustomSection(i) => {
            if (i as usize) < sections.len() {
                memory.address_of(&sections[i as usize])
            } else {
                None
            }
        },
        RelocationTarget::LibCall(k) => {
            if (libcall_trampolines as usize) >= sections.len() {
                return None;
            }
            let section = &sections[libcall_trampolines as usize];
            let start = match memory.address_of(section) {
                Some(start) => start,
                None => {
                    return None;
                },
            };
            assert(k * libcall_trampoline_len >= 0) by (nonlinear_arith);
            let offset = match (k as usize).checked_mul(libcall_trampoline_len) {
                Some(offset) => offset,
                None => {
                    return None;
                },
            };
            match offset.checked_add(libcall_trampoline_len) {
                Some(end) => if end <= section.len {
                    Some(start + offset)
                } else {
                    None
                },
                None => None,
            }
        },
    }
}

/// Where relocation `r` of the function or section at `owner` writes, and what.
fn relocation_patch(
    memory: &CodeMemory,
    functions: &[SegmentView],
    sections: &[SegmentView],
    libcall_trampolines: u32,
    libcall_trampoline_len: usize,
    owner: &SegmentView,
    r: &Relocation,
) -> (res: Result<(usize, Vec<u8>), LinkError>)
    requires
        memory.well_formed(),
    ensures
        ({
            let targets = targets_in(
                *memory,
                functions@,
                sections@,
                libcall_trampolines,
                libcall_trampoline_len,
            );
            match res {
                Ok((place, bytes)) => {
                    &&& targets.fault(*owner, *r) is None
                    &&& place == targets.place(*owner, *r)
                    &&& bytes@ == targets.patch(*owner, *r)
                    &&& place + bytes@.len() <= memory.bytes().len()
                },
                Err(e) => targets.fault(*owner, *r) == Some(e),
            }
        }),
{
    let start = match memory.address_of(owner) {
        Some(start) => start,
        None => {
            return Err(LinkError::OutOfBounds);
        },
    };
    let width = r.kind.width();
    if r.offset as usize > owner.len || width > owner.len - r.offset as usize {
        return Err(LinkError::OutOfBounds);
    }
    let target = match resolve_target(
        memory,
        functions,
        sections,
        libcall_trampolines,
        libcall_trampoline_len,
        r.reloc_target,
    ) {
        Some(target) => target,
        None => {
            return Err(LinkError::UnresolvedTarget);
        },
    };
    let place = owner.offset + r.offset as usize;
    let bytes = encode_relocation(
        r.kind,
        target as u64,
        r.addend,
        (start + r.offset as usize) as u64,
    );
    Ok((place, bytes))
}

/// The first fault among the lists of relocations.
fn check_relocations(
    memory: &CodeMemory,
    functions: &[SegmentView],
    sections: &[SegmentView],
    libcall_trampolines: u32,
    libcall_trampoline_len: usize,
    owners: &[SegmentView],
    relocations: &[Vec<Relocation>],
) -> (fault: Option<LinkError>)
    requires
        memory.well_formed(),
    ensures
        fault == targets_in(
            *memory,
            functions@,
            sections@,
            libcall_trampolines,
            libcall_trampoline_len,
        ).first_fault_of_all(owners@, relocations@),
{
    let ghost targets = targets_in(
        *memory,
        functions@,
        sections@,
        libcall_trampolines,
        libcall_trampoline_len,
    );
    let mut i: usize = 0;
    while i < relocations.len()
        invariant
            i <= relocations.len(),
            memory.well_formed(),
            targets == targets_in(
                *memory,
                functions@,
                sections@,
                libcall_trampolines,
                libcall_trampoline_len,
            ),
            targets.first_fault_of_all(owners@, relocations@.take(i as int)) is None,
        decreases relocations.len() - i,
    {
        proof {
            assert(relocations@.take(i + 1).drop_last() =~= relocations@.take(i as int));
            assert(relocations@.take(i + 1).last() == relocations@[i as int]);
        }
        if i >= owners.len() {
            proof {
                lemma_fault_stays(targets, owners@, relocations@, i + 1);
            }
            return Some(LinkError::UnknownOwner);
        }
        let rs = &relocations[i];
        let mut j: usize = 0;
        while j < rs.len()
            invariant
                j <= rs.len(),
                i < owners.len(),
                i < relocations.len(),
                rs == relocations@[i as int],
                memory.well_formed(),
                targets == targets_in(
                    *memory,
                    functions@,
                    sections@,
                    libcall_trampolines,
                    libcall_trampoline_len,
                ),
                targets.first_fault(owners@[i as int], rs@.take(j as int)) is None,
                targets.first_fault_of_all(owners@, relocations@.take(i as int)) is None,
                relocations@.take(i + 1).drop_last() == relocations@.take(i as int),
                relocations@.take(i + 1).last() == relocations@[i as int],
            decreases rs.len() - j,
        {
            proof {
                assert(rs@.take(j + 1).drop_last() =~= rs@.take(j as int));
                assert(rs@.take(j + 1).last() == rs@[j as int]);
            }
            match relocation_patch(
                memory,
                functions,
                sections,
                libcall_trampolines,
                libcall_trampoline_len,
                &owners[i],
                &rs[j],
            ) {
                Ok(_) => {},
                Err(e) => {
                    proof {
                        lemma_first_fault_stays(targets, owners@[i as int], rs@, j + 1);
                        lemma_fault_stays(targets, owners@, relocations@, i + 1);
                    }
                    return Some(e);
                },
            }
            j = j + 1;
        }
        assert(rs@.take(j as int) =~= rs@);
        i = i + 1;
    }
    assert(relocations@.take(i as int) =~= relocations@);
    None
}

/// A fault among the first `n` relocations is the first fault among all.
pub proof fn lemma_first_fault_stays(
    targets: LinkTargets,
    owner: SegmentView,
    rs: Seq<Relocation>,
    n: int,
)
    requires
        0 <= n <= rs.len(),
        targets.first_fault(owner, rs.take(n)) is Some,
    ensures
        targets.first_fault(owner, rs) == targets.first_fault(owner, rs.take(n)),
    decreases rs.len(),
{
    if n == rs.len() {
        assert(rs.take(n) =~= rs);
    } else {
        assert(rs.drop_last().take(n) =~= rs.take(n));
        lemma_first_fault_stays(targets, owner, rs.drop_last(), n);
    }
}

/// A fault among the first `n` lists of relocations is the first fault among all.
pub proof fn lemma_fault_stays(
    targets: LinkTargets,
    owners: Seq<SegmentView>,
    relocations: Seq<Vec<Relocation>>,
    n: int,
)
    requires
        0 <= n <= relocations.len(),
        targets.first_fault_of_all(owners, relocations.take(n)) is Some,
    ensures
        targets.first_fault_of_all(owners, relocations) == targets.first_fault_of_all(
            owners,
            relocations.take(n),
        ),
    decreases relocations.len(),
{
    if n == relocations.len() {
        assert(relocations.take(n) =~= relocations);
    } else {
        assert(relocations.drop_last().take(n) =~= relocations.take(n));
        lemma_fault_stays(targets, owners, relocations.drop_last(), n);
    }
}

/// Where no relocation is at fault, every list of relocations has its
/// owner and none of its relocations is at fault.
pub proof fn lemma_no_fault(
    targets: LinkTargets,
    owners: Seq<SegmentView>,
    relocations: Seq<Vec<Relocation>>,
    i: int,
    j: int,
)
    requires
        targets.first_fault_of_all(owners, relocations) is None,
        0 <= i < relocations.len(),
        0 <= j <= relocations[i]@.len(),
    ensures
        i < owners.len(),
        targets.first_fault_of_all(owners, relocations.take(i)) is None,
        targets.first_fault(owners[i], relocations[i]@) is None,
        targets.first_fault(owners[i], relocations[i]@.take(j)) is None,
        j < relocations[i]@.len() ==> targets.fault(owners[i], relocations[i]@[j]) is None,
{
    let upto = relocations.take(i + 1);
    assert(upto.drop_last() =~= relocations.take(i));
    assert(upto.last() == relocations[i]);
    if targets.first_fault_of_all(owners, relocations.take(i)) is Some {
        lemma_fault_stays(targets, owners, relocations, i);
    }
    if targets.first_fault_of_all(owners, upto) is Some {
        lemma_fault_stays(targets, owners, relocations, i + 1);
    }
    let rs = relocations[i]@;
    if targets.first_fault(owners[i], rs.take(j)) is Some {
        lemma_first_fault_stays(targets, owners[i], rs, j);
    }
    if j < rs.len() {
        assert(rs.take(j + 1).drop_last() =~= rs.take(j));
        assert(rs.take(j + 1).last() == rs[j]);
        if targets.first_fault(owners[i], rs.take(j + 1)) is Some {
            lemma_first_fault_stays(targets, owners[i], rs, j + 1);
        }
    }
}

/// A relocation writes as many bytes as its kind is wide.
pub proof fn lemma_relocation_bytes_len(kind: RelocationKind, target: int, addend: int, place: int)
    ensures
        relocation_bytes(kind, target, addend, place).len() == kind.spec_width(),
{
    lemma_auto_spec_u32_to_from_le_bytes();
    lemma_auto_spec_u64_to_from_le_bytes();
}

/// Relocations that are not at fault write within the function or section
/// that owns them: the image keeps its length, and every byte outside the
/// owner stays as it was.
pub proof fn lemma_apply_stays_within_owner(
    targets: LinkTargets,
    image: Seq<u8>,
    owner: SegmentView,
    rs: Seq<Relocation>,
)
    requires
        targets.first_fault(owner, rs) is None,
    ensures
        targets.apply(image, owner, rs).len() == image.len(),
        forall|k: int|
            0 <= k < image.len() && !(owner.offset <= k < owner.offset + owner.len)
                ==> #[trigger] targets.apply(image, owner, rs)[k] == image[k],
    decreases rs.len(),
{
    if rs.len() > 0 {
        lemma_apply_stays_within_owner(targets, image, owner, rs.drop_last());
        let r = rs.last();
        lemma_relocation_bytes_len(
            r.kind,
            targets.resolve(r.reloc_target).unwrap(),
            r.addend as int,
            targets.base + targets.place(owner, r),
        );
    }
}

/// Applies the lists of relocations, none of which is at fault.
fn apply_relocations(
    memory: &mut CodeMemory,
    functions: &[SegmentView],
    sections: &[SegmentView],
    libcall_trampolines: u32,
    libcall_trampoline_len: usize,
    owners: &[SegmentView],
    relocations: &[Vec<Relocation>],
) -> (res: Result<(), LinkError>)
    requires
        old(memory).well_formed(),
        !old(memory).is_published(),
        targets_in(
            *old(memory),
            functions@,
            sections@,
            libcall_trampolines,
            libcall_trampoline_len,
        ).first_fault_of_all(owners@, relocations@) is None,
    ensures
        res is Ok,
        final(memory).well_formed(),
        final(memory).bytes() == targets_in(
            *old(memory),
            functions@,
            sections@,
            libcall_trampolines,
            libcall_trampoline_len,
        ).apply_all(old(memory).bytes(), owners@, relocations@),
        final(memory).bytes().len() == old(memory).bytes().len(),
        final(memory).base() == old(memory).base(),
        final(memory).page_size() == old(memory).page_size(),
        final(memory).execute_boundary() == old(memory).execute_boundary(),
        final(memory).is_published() == old(memory).is_published(),
        final(memory).registries() == old(memory).registries(),
{
    let ghost targets = targets_in(
        *memory,
        functions@,
        sections@,
        libcall_trampolines,
        libcall_trampoline_len,
    );
    let ghost image = memory.bytes();
    let mut i: usize = 0;
    while i < relocations.len()
        invariant
            i <= relocations.len(),
            memory.well_formed(),
            !memory.is_published(),
            targets == targets_in(
                *memory,
                functions@,
                sections@,
                libcall_trampolines,
                libcall_trampoline_len,
            ),
            targets.first_fault_of_all(owners@, relocations@) is None,
            memory.bytes() == targets.apply_all(image, owners@, relocations@.take(i as int)),
            memory.bytes().len() == image.len(),
            memory.base() == old(memory).base(),
            memory.page_size() == old(memory).page_size(),
            memory.execute_boundary() == old(memory).execute_boundary(),
            memory.registries() == old(memory).registries(),
        decreases relocations.len() - i,
    {
        proof {
            lemma_no_fault(targets, owners@, relocations@, i as int, 0);
            assert(relocations@.take(i + 1).drop_last() =~= relocations@.take(i as int));
            assert(relocations@.take(i + 1).last() == relocations@[i as int]);
        }
        let rs = &relocations[i];
        let ghost before = memory.bytes();
        let mut j: usize = 0;
        while j < rs.len()
            invariant
                j <= rs.len(),
                i < owners.len(),
                i < relocations.len(),
                rs == relocations@[i as int],
                memory.well_formed(),
                !memory.is_published(),
                targets == targets_in(
                    *memory,
                    functions@,
                    sections@,
                    libcall_trampolines,
                    libcall_trampoline_len,
                ),
                targets.first_fault_of_all(owners@, relocations@) is None,
                memory.bytes() == targets.apply(before, owners@[i as int], rs@.take(j as int)),
                memory.bytes().len() == image.len(),
                memory.base() == old(memory).base(),
                memory.page_size() == old(memory).page_size(),
                memory.execute_boundary() == old(memory).execute_boundary(),
                memory.registries() == old(memory).registries(),
            decreases rs.len() - j,
        {
            proof {
                lemma_no_fault(targets, owners@, relocations@, i as int, j as int);
                assert(rs@.take(j + 1).drop_last() =~= rs@.take(j as int));
                assert(rs@.take(j + 1).last() == rs@[j as int]);
            }
            let (place, bytes) = match relocation_patch(
                memory,
                functions,
                sections,
                libcall_trampolines,
                libcall_trampoline_len,
                &owners[i],
                &rs[j],
            ) {
                Ok(patch) => patch,
                Err(e) => {
                    return Err(e);
                },
            };
            match memory.write(place, bytes.as_slice()) {
                Ok(()) => {},
                Err(_) => {
                    return Err(LinkError::OutOfBounds);
                },
            }
            j = j + 1;
        }
        assert(rs@.take(j as int) =~= rs@);
        i = i + 1;
    }
    assert(relocations@.take(i as int) =~= relocations@);
    Ok(())
}

/// Links an image: writes, for every relocation, the address of its target
/// into the place that it names.
///
/// `allocated_functions` and `allocated_sections` say where the local
/// functions and the custom sections lie in `memory`; list `i` of
/// `function_relocations` holds the relocations of function `i`, and list
/// `i` of `section_relocations` those of section `i`. The libcall
/// trampolines lie in section `libcall_trampolines`, each
/// `libcall_trampoline_len` bytes long.
///
/// Every relocation is checked first: it has to lie within the function or
/// section that owns it, and its target has to exist. Where one is at
/// fault, or the image is published already, nothing is written.
pub fn link_module(
    memory: &mut CodeMemory,
    allocated_functions: &[SegmentView],
    function_relocations: &[Vec<Relocation>],
    allocated_sections: &[SegmentView],
    section_relocations: &[Vec<Relocation>],
    libcall_trampolines: u32,
    libcall_trampoline_len: usize,
) -> (res: Result<(), LinkError>)
    requires
        old(memory).well_formed(),
    ensures
        ({
            let targets = targets_in(
                *old(memory),
                allocated_functions@,
                allocated_sections@,
                libcall_trampolines,
                libcall_trampoline_len,
            );
            let fault = link_fault(
                old(memory).is_published(),
                targets,
                function_relocations@,
                section_relocations@,
            );
            match res {
                Ok(()) => {
                    &&& fault is None
                    &&& final(memory).well_formed()
                    &&& final(memory).bytes() == linked_image(
                        old(memory).bytes(),
                        targets,
                        function_relocations@,
                        section_relocations@,
                    )
                    &&& final(memory).bytes().len() == old(memory).bytes().len()
                    &&& final(memory).base() == old(memory).base()
                    &&& final(memory).page_size() == old(memory).page_size()
                    &&& final(memory).execute_boundary() == old(memory).execute_boundary()
                    &&& final(memory).is_published() == old(memory).is_published()
                    &&& final(memory).registries() == old(memory).registries()
                },
                Err(e) => fault == Some(e) && *final(memory) == *old(memory),
            }
        }),
{
    if memory.published() {
        return Err(LinkError::Published);
    }
    match check_relocations(
        memory,
        allocated_functions,
        allocated_sections,
        libcall_trampolines,
        libcall_trampoline_len,
        allocated_sections,
        section_relocations,
    ) {
        Some(e) => {
            return Err(e);
        },
        None => {},
    }
    match check_relocations(
        memory,
        allocated_functions,
        allocated_sections,
        libcall_trampolines,
        libcall_trampoline_len,
        allocated_functions,
        function_relocations,
    ) {
        Some(e) => {
            return Err(e);
        },
        None => {},
    }
    match apply_relocations(
        memory,
        allocated_functions,
        allocated_sections,
        libcall_trampolines,
        libcall_trampoline_len,
        allocated_sections,
        section_relocations,
    ) {
        Ok(()) => {},
        Err(e) => {
            return Err(e);
        },
    }
    apply_relocations(
        memory,
        allocated_functions,
        allocated_sections,
        libcall_trampolines,
        libcall_trampoline_len,
        allocated_functions,
        function_relocations,
    )
}

} // verus!
