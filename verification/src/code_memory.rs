//! Memory management for executable code.
//!
//! A [`CodeMemory`] owns the bytes of one image and knows the address at
//! which the host maps them. The image is written once, patched while it is
//! writable, and then published: its executable partition becomes readable
//! and executable, and is never written again.

use crate::align::{
    checked_round_up, is_power_of_two, lemma_large_power_of_two, lemma_multiple_of_multiple,
    lemma_round_up_bounds, lemma_round_up_fits, lemma_small_powers_of_two,
    lemma_sum_of_multiples, round_up, round_up_spec,
};
use crate::bytes::{append_bytes, append_zeros, copy_bytes};
use crate::compilation::{CompiledFunctionUnwindInfo, CustomSection, FunctionBody};
use crate::host::host_page_size;
use crate::layout::{
    function_contents, lemma_contents_len, lemma_layout_data_section,
    lemma_layout_executable_section, lemma_layout_function, lemma_layout_lengths, lemma_runs_len,
    lemma_runs_prefix, lemma_runs_step, padded, runs_image, runs_len, section_contents, Layout,
    ARCH_FUNCTION_ALIGNMENT, DATA_SECTION_ALIGNMENT, UNWIND_TABLE_ALIGNMENT,
};
use crate::unwind::{unwind_record, UnwindRecord, UnwindRegistrationError, UnwindRegistry};
use vstd::prelude::*;

verus! {

/// Where a function or a section lies in an image.
#[derive(Clone, Copy, Debug, PartialEq, Eq, Structural)]
pub struct SegmentView {
    /// The offset of the first byte from the start of the image.
    pub offset: usize,
    /// The number of bytes: of a function, the length of its code; of a
    /// section, the length of its content.
    pub len: usize,
    /// The alignment of the first byte.
    pub align: usize,
}

/// Why an image could not be allocated.
#[derive(Clone, Copy, Debug, PartialEq, Eq, Structural)]
pub enum AllocationError {
    /// The page size is no power of two, or smaller than the alignment of data.
    PageSize,
    /// The base address is no multiple of the page size.
    BaseAddress,
    /// The image does not fit between the base address and the end of the address space.
    TooLarge,
    /// A function's unwind information could not be registered.
    Unwind(UnwindRegistrationError),
}

/// The host refused to make the executable partition executable.
#[derive(Debug, PartialEq, Eq)]
pub struct PublishError {
    /// What the host gave as the reason.
    pub reason: String,
}

/// A change of protection that the host has to make: the `len` bytes at
/// `address` become readable and executable, and stop being writable.
#[derive(Clone, Copy, Debug, PartialEq, Eq, Structural)]
pub struct ProtectRequest {
    /// The address of the first byte.
    pub address: usize,
    /// The number of bytes.
    pub len: usize,
}

/// What may be done with a byte of an image.
#[derive(Clone, Copy, Debug, PartialEq, Eq, Structural)]
pub enum Protection {
    /// The byte may be read and written, and not executed.
    ReadWrite,
    /// The byte may be read and executed, and not written.
    ReadExecute,
}

/// Why bytes could not be written into an image.
#[derive(Clone, Copy, Debug, PartialEq, Eq, Structural)]
pub enum WriteError {
    /// The bytes would not lie within the image.
    OutOfBounds,
    /// One of the bytes is executable.
    Protected,
}

/// `image` with `bytes` in place of what it held from `offset` on.
pub open spec fn overwrite(image: Seq<u8>, offset: int, bytes: Seq<u8>) -> Seq<u8> {
    Seq::new(
        image.len(),
        |k: int|
            if offset <= k < offset + bytes.len() {
                bytes[k - offset]
            } else {
                image[k]
            },
    )
}

/// Whether `page_size` can be the page size of a host.
pub open spec fn valid_page_size(page_size: usize) -> bool {
    is_power_of_two(page_size) && page_size >= DATA_SECTION_ALIGNMENT
}

/// The number of bytes that `func` takes in an image, before it is padded to
/// the function alignment.
pub fn function_allocation_size(func: &FunctionBody) -> (size: usize)
    requires
        func.allocation_size() <= usize::MAX,
    ensures
        size == func.allocation_size(),
{
    match &func.unwind_info {
        Some(CompiledFunctionUnwindInfo::WindowsX64(info)) => {
            proof {
                lemma_small_powers_of_two();
                lemma_round_up_bounds(func.body@.len() as int, 4);
            }
            round_up(func.body.len(), UNWIND_TABLE_ALIGNMENT) + info.len()
        },
        _ => func.body.len(),
    }
}

/// The number of bytes that `func` takes in an image, if that number fits.
pub fn checked_function_allocation_size(func: &FunctionBody) -> (size: Option<usize>)
    ensures
        size == if func.allocation_size() <= usize::MAX {
            Some(func.allocation_size() as usize)
        } else {
            None
        },
{
    match &func.unwind_info {
        Some(CompiledFunctionUnwindInfo::WindowsX64(info)) => {
            match checked_round_up(func.body.len(), UNWIND_TABLE_ALIGNMENT) {
                Some(code) => code.checked_add(info.len()),
                None => None,
            }
        },
        _ => Some(func.body.len()),
    }
}

/// The length of `functions` in an image, each rounded up to the function
/// alignment, if that length fits.
fn functions_size(functions: &[&FunctionBody]) -> (size: Option<usize>)
    ensures
        size == if runs_len(function_contents(functions@), ARCH_FUNCTION_ALIGNMENT as int)
            <= usize::MAX {
            Some(runs_len(function_contents(functions@), ARCH_FUNCTION_ALIGNMENT as int) as usize)
        } else {
            None
        },
{
    let ghost contents = function_contents(functions@);
    let ghost align = ARCH_FUNCTION_ALIGNMENT as int;
    let mut acc: usize = 0;
    let mut i: usize = 0;
    while i < functions.len()
        invariant
            i <= functions.len(),
            contents == function_contents(functions@),
            align == 16,
            acc == runs_len(contents.take(i as int), align),
        decreases functions.len() - i,
    {
        proof {
            lemma_runs_step(contents, align, i as int);
            lemma_runs_prefix(contents, align, i + 1);
            lemma_runs_len(contents.take(i as int), align);
            lemma_contents_len(functions@[i as int]);
            lemma_round_up_bounds(contents[i as int].len() as int, align);
        }
        let rounded = match checked_function_allocation_size(functions[i]) {
            Some(size) => checked_round_up(size, ARCH_FUNCTION_ALIGNMENT),
            None => None,
        };
        let next = match rounded {
            Some(rounded) => acc.checked_add(rounded),
            None => None,
        };
        match next {
            Some(next) => {
                acc = next;
            },
            None => {
                return None;
            },
        }
        i = i + 1;
    }
    assert(contents.take(i as int) =~= contents);
    Some(acc)
}

/// The length of `sections` in an image, each rounded up to `align`, if that
/// length fits.
fn sections_size(sections: &[&CustomSection], align: usize) -> (size: Option<usize>)
    requires
        align > 0,
    ensures
        size == if runs_len(section_contents(sections@), align as int) <= usize::MAX {
            Some(runs_len(section_contents(sections@), align as int) as usize)
        } else {
            None
        },
{
    let ghost contents = section_contents(sections@);
    let mut acc: usize = 0;
    let mut i: usize = 0;
    while i < sections.len()
        invariant
            i <= sections.len(),
            contents == section_contents(sections@),
            align > 0,
            acc == runs_len(contents.take(i as int), align as int),
        decreases sections.len() - i,
    {
        proof {
            lemma_runs_step(contents, align as int, i as int);
            lemma_runs_prefix(contents, align as int, i + 1);
            lemma_runs_len(contents.take(i as int), align as int);
            lemma_round_up_bounds(contents[i as int].len() as int, align as int);
        }
        let next = match checked_round_up(sections[i].bytes.len(), align) {
            Some(rounded) => acc.checked_add(rounded),
            None => None,
        };
        match next {
            Some(next) => {
                acc = next;
            },
            None => {
                return None;
            },
        }
        i = i + 1;
    }
    assert(contents.take(i as int) =~= contents);
    Some(acc)
}

/// Whether `page_size` is a power of two that is at least the alignment of data.
pub fn is_valid_page_size(page_size: usize) -> (valid: bool)
    ensures
        valid == valid_page_size(page_size),
{
    page_size >= DATA_SECTION_ALIGNMENT && page_size & (page_size - 1) == 0
}

/// The length of the image of the given functions and sections on a host
/// with pages of `page_size` bytes.
///
/// This is the number of bytes that the host has to map for the image.
pub fn allocation_len(
    functions: &[&FunctionBody],
    executable_sections: &[&CustomSection],
    data_sections: &[&CustomSection],
    page_size: usize,
) -> (res: Result<usize, AllocationError>)
    ensures
        ({
            let layout = Layout::of(
                functions@,
                executable_sections@,
                data_sections@,
                page_size as int,
            );
            match res {
                Ok(len) => valid_page_size(page_size) && len == layout.total_len(),
                Err(AllocationError::PageSize) => !valid_page_size(page_size),
                Err(AllocationError::TooLarge) => valid_page_size(page_size) && layout.total_len()
                    > usize::MAX,
                Err(_) => false,
            }
        }),
{
    if !is_valid_page_size(page_size) {
        return Err(AllocationError::PageSize);
    }
    let ghost layout = Layout::of(
        functions@,
        executable_sections@,
        data_sections@,
        page_size as int,
    );
    proof {
        lemma_runs_len(layout.functions, 16);
        lemma_runs_len(layout.executable_sections, 16);
        lemma_runs_len(layout.data_sections, 64);
        lemma_round_up_bounds(layout.executable_len(), page_size as int);
    }
    let code = match functions_size(functions) {
        Some(code) => code,
        None => {
            return Err(AllocationError::TooLarge);
        },
    };
    let sections = match sections_size(executable_sections, ARCH_FUNCTION_ALIGNMENT) {
        Some(sections) => sections,
        None => {
            return Err(AllocationError::TooLarge);
        },
    };
    let executable = match code.checked_add(sections) {
        Some(executable) => executable,
        None => {
            return Err(AllocationError::TooLarge);
        },
    };
    let data_start = match checked_round_up(executable, page_size) {
        Some(data_start) => data_start,
        None => {
            return Err(AllocationError::TooLarge);
        },
    };
    let data = match sections_size(data_sections, DATA_SECTION_ALIGNMENT) {
        Some(data) => data,
        None => {
            return Err(AllocationError::TooLarge);
        },
    };
    match data_start.checked_add(data) {
        Some(total) => Ok(total),
        None => Err(AllocationError::TooLarge),
    }
}

/// Whether one of `functions` has unwind information.
pub open spec fn has_unwind_info(functions: Seq<&FunctionBody>) -> bool {
    exists|i: int| 0 <= i < functions.len() && (#[trigger] functions[i]).unwind_info is Some
}

/// The records of the functions among `functions` that have unwind
/// information, in order, in an image that the host maps at `base`.
pub open spec fn unwind_records(functions: Seq<&FunctionBody>, base: int) -> Seq<UnwindRecord>
    decreases functions.len(),
{
    if functions.len() == 0 {
        Seq::empty()
    } else {
        let front = unwind_records(functions.drop_last(), base);
        match functions.last().unwind_info {
            Some(info) => front.push(
                unwind_record(
                    base + runs_len(
                        function_contents(functions.drop_last()),
                        ARCH_FUNCTION_ALIGNMENT as int,
                    ),
                    functions.last().body@.len() as int,
                    info.inline_table(),
                ),
            ),
            None => front,
        }
    }
}

/// The views of the functions of `layout`.
pub open spec fn function_views(functions: Seq<&FunctionBody>, layout: Layout) -> Seq<
    SegmentView,
> {
    Seq::new(
        functions.len(),
        |i: int|
            SegmentView {
                offset: layout.function_offset(i) as usize,
                len: functions[i].body@.len() as usize,
                align: ARCH_FUNCTION_ALIGNMENT,
            },
    )
}

/// The views of the executable sections of `layout`.
pub open spec fn executable_section_views(layout: Layout) -> Seq<SegmentView> {
    Seq::new(
        layout.executable_sections.len(),
        |i: int|
            SegmentView {
                offset: layout.executable_section_offset(i) as usize,
                len: layout.executable_sections[i].len() as usize,
                align: ARCH_FUNCTION_ALIGNMENT,
            },
    )
}

/// The views of the data sections of `layout`.
pub open spec fn data_section_views(layout: Layout) -> Seq<SegmentView> {
    Seq::new(
        layout.data_sections.len(),
        |i: int|
            SegmentView {
                offset: layout.data_section_offset(i) as usize,
                len: layout.data_sections[i].len() as usize,
                align: DATA_SECTION_ALIGNMENT,
            },
    )
}

/// Whether one of `functions` has unwind information.
pub fn any_unwind_info(functions: &[&FunctionBody]) -> (any: bool)
    ensures
        any == has_unwind_info(functions@),
{
    let mut i: usize = 0;
    while i < functions.len()
        invariant
            i <= functions.len(),
            forall|j: int| 0 <= j < i ==> (#[trigger] functions@[j]).unwind_info is None,
        decreases functions.len() - i,
    {
        if functions[i].unwind_info.is_some() {
            return true;
        }
        i = i + 1;
    }
    false
}

/// Memory manager for executable code.
#[derive(Debug)]
pub struct CodeMemory {
    unwind_registries: Vec<UnwindRegistry>,
    mmap: Vec<u8>,
    base: usize,
    page_size: usize,
    start_of_nonexecutable_pages: usize,
    published: bool,
}

impl CodeMemory {
    /// What holds of every memory that this module hands out: the executable
    /// partition lies within the image, and the image within the address space.
    pub closed spec fn well_formed(&self) -> bool {
        &&& self.start_of_nonexecutable_pages <= self.mmap@.len()
        &&& self.base + self.mmap@.len() <= usize::MAX
    }

    /// The bytes of the image.
    pub closed spec fn bytes(&self) -> Seq<u8> {
        self.mmap@
    }

    /// The address at which the host maps the first byte of the image.
    pub closed spec fn base(&self) -> usize {
        self.base
    }

    /// The page size of the host that the image was laid out for.
    pub closed spec fn page_size(&self) -> usize {
        self.page_size
    }

    /// The length of the executable partition, which starts the image.
    pub closed spec fn execute_boundary(&self) -> usize {
        self.start_of_nonexecutable_pages
    }

    /// Whether the executable partition has been made executable.
    pub closed spec fn is_published(&self) -> bool {
        self.published
    }

    /// The unwind registries that live as long as the image.
    pub closed spec fn registries(&self) -> Seq<UnwindRegistry> {
        self.unwind_registries@
    }

    /// Whether the byte at `offset` may be executed.
    pub open spec fn is_executable(&self, offset: int) -> bool {
        self.is_published() && 0 <= offset < self.execute_boundary()
    }

    /// Whether the byte at `offset` may be written.
    pub open spec fn is_writable(&self, offset: int) -> bool {
        0 <= offset < self.bytes().len() && !self.is_executable(offset)
    }

    /// Whether this is the image of `layout`, mapped at `base` and not yet published.
    pub open spec fn holds_image(&self, layout: Layout, base: int) -> bool {
        &&& self.well_formed()
        &&& self.bytes() == layout.image()
        &&& self.base() == base
        &&& self.page_size() == layout.page_size
        &&& self.execute_boundary() == layout.executable_len()
        &&& !self.is_published()
    }

    /// The first reason, if there is one, for which the given functions and
    /// sections cannot be laid out at `base` on a host with pages of
    /// `page_size` bytes: the page size is no power of two of at least 64,
    /// the base is no multiple of it, the image does not fit behind the
    /// base, or a function has unwind information and the registry is
    /// published already.
    pub open spec fn allocation_error(
        registry_published: bool,
        functions: Seq<&FunctionBody>,
        executable_sections: Seq<&CustomSection>,
        data_sections: Seq<&CustomSection>,
        page_size: usize,
        base: usize,
    ) -> Option<AllocationError> {
        let layout = Layout::of(functions, executable_sections, data_sections, page_size as int);
        if !valid_page_size(page_size) {
            Some(AllocationError::PageSize)
        } else if base as int % page_size as int != 0 {
            Some(AllocationError::BaseAddress)
        } else if base + layout.total_len() > usize::MAX {
            Some(AllocationError::TooLarge)
        } else if registry_published && has_unwind_info(functions) {
            Some(AllocationError::Unwind(UnwindRegistrationError::AlreadyPublished))
        } else {
            None
        }
    }

    /// What an allocation leaves behind and returns.
    ///
    /// It succeeds exactly where [`Self::allocation_error`] finds no fault. The
    /// memory then holds the image of the layout, not yet published; the views
    /// give the place of each function and section; and the registry has one
    /// more entry for each function that has unwind information. Where it
    /// fails, the error is the first fault, and memory and registry are as
    /// they were.
    pub open spec fn allocation_outcome(
        before: CodeMemory,
        after: CodeMemory,
        registry_before: UnwindRegistry,
        registry_after: UnwindRegistry,
        functions: Seq<&FunctionBody>,
        executable_sections: Seq<&CustomSection>,
        data_sections: Seq<&CustomSection>,
        page_size: usize,
        base: usize,
        res: Result<(Vec<SegmentView>, Vec<SegmentView>, Vec<SegmentView>), AllocationError>,
    ) -> bool {
        let layout = Layout::of(functions, executable_sections, data_sections, page_size as int);
        let error = Self::allocation_error(
            registry_before.is_published(),
            functions,
            executable_sections,
            data_sections,
            page_size,
            base,
        );
        match res {
            Ok((function_result, executable_section_result, data_section_result)) => {
                &&& error is None
                &&& after.holds_image(layout, base as int)
                &&& after.registries() == before.registries()
                &&& function_result@ == function_views(functions, layout)
                &&& executable_section_result@ == executable_section_views(layout)
                &&& data_section_result@ == data_section_views(layout)
                &&& registry_after.entries() == registry_before.entries() + unwind_records(
                    functions,
                    base as int,
                )
                &&& registry_after.is_published() == registry_before.is_published()
                &&& registry_after.frame_table() == registry_before.frame_table()
            },
            Err(e) => {
                &&& error == Some(e)
                &&& after == before
                &&& registry_after == registry_before
            },
        }
    }

    /// Create a new `CodeMemory` instance: an empty image, laid out for no
    /// host yet, at no address.
    pub fn new() -> (memory: Self)
        ensures
            memory.well_formed(),
            memory.bytes() == Seq::<u8>::empty(),
            memory.base() == 0,
            memory.page_size() == 0,
            memory.execute_boundary() == 0,
            !memory.is_published(),
            memory.registries() == Seq::<UnwindRegistry>::empty(),
    {
        Self {
            unwind_registries: Vec::new(),
            mmap: Vec::new(),
            base: 0,
            page_size: 0,
            start_of_nonexecutable_pages: 0,
            published: false,
        }
    }

    /// Copies the data of the compiled function to the end of the given buffer.
    ///
    /// This will also add the function to the unwind registry.
    fn copy_function(
        registry: &mut UnwindRegistry,
        func: &FunctionBody,
        buf: &mut Vec<u8>,
        base: usize,
    ) -> (res: Result<SegmentView, UnwindRegistrationError>)
        requires
            (base + old(buf)@.len()) % 16 == 0,
            base + old(buf)@.len() + round_up_spec(func.allocation_size(), 16) <= usize::MAX,
        ensures
            old(registry).is_published() && func.unwind_info is Some ==> {
                &&& res == Err::<SegmentView, _>(UnwindRegistrationError::AlreadyPublished)
                &&& *final(registry) == *old(registry)
                &&& *final(buf) == *old(buf)
            },
            !(old(registry).is_published() && func.unwind_info is Some) ==> {
                &&& res == Ok::<_, UnwindRegistrationError>(
                    (SegmentView {
                        offset: old(buf)@.len() as usize,
                        len: func.body@.len() as usize,
                        align: ARCH_FUNCTION_ALIGNMENT,
                    }),
                )
                &&& final(buf)@ == old(buf)@ + padded(func.contents(), 16)
                &&& final(registry).is_published() == old(registry).is_published()
                &&& final(registry).frame_table() == old(registry).frame_table()
                &&& final(registry).entries() == match func.unwind_info {
                    Some(info) => old(registry).entries().push(
                        unwind_record(
                            base + old(buf)@.len(),
                            func.body@.len() as int,
                            info.inline_table(),
                        ),
                    ),
                    None => old(registry).entries(),
                }
            },
    {
        let offset = buf.len();
        let func_len = func.body.len();
        proof {
            lemma_small_powers_of_two();
            lemma_contents_len(func);
            lemma_round_up_bounds(func.allocation_size(), 16);
            lemma_round_up_bounds(func_len as int, 4);
        }
        if let Some(info) = &func.unwind_info {
            match registry.register(base + offset, func_len, info) {
                Ok(()) => {},
                Err(e) => {
                    return Err(e);
                },
            }
        }
        let size = function_allocation_size(func);
        let len = round_up(size, ARCH_FUNCTION_ALIGNMENT);

        append_bytes(buf, func.body.as_slice());
        if let Some(CompiledFunctionUnwindInfo::WindowsX64(info)) = &func.unwind_info {
            // Windows unwind information is written following the function body
            // Keep unwind information 32-bit aligned (round up to the nearest 4 byte boundary)
            let unwind_start = round_up(func_len, UNWIND_TABLE_ALIGNMENT);
            let padding = unwind_start - func_len;
            append_zeros(buf, padding);
            append_bytes(buf, info.as_slice());
        }
        assert(buf@ =~= old(buf)@ + func.contents());
        append_zeros(buf, len - size);
        assert(buf@ =~= old(buf)@ + padded(func.contents(), 16));
        Ok(SegmentView { offset, len: func_len, align: ARCH_FUNCTION_ALIGNMENT })
    }

    /// Copies the functions to the end of the empty buffer, each at the next
    /// multiple of the function alignment, and registers those that have
    /// unwind information.
    fn copy_functions(
        registry: &mut UnwindRegistry,
        functions: &[&FunctionBody],
        buf: &mut Vec<u8>,
        base: usize,
    ) -> (res: Result<Vec<SegmentView>, UnwindRegistrationError>)
        requires
            old(buf)@.len() == 0,
            base % 16 == 0,
            base + runs_len(function_contents(functions@), 16) <= usize::MAX,
            !(old(registry).is_published() && has_unwind_info(functions@)),
        ensures
            res is Ok,
            final(buf)@ == runs_image(function_contents(functions@), 16),
            res->Ok_0@ == Seq::new(
                functions@.len(),
                |i: int|
                    SegmentView {
                        offset: runs_len(function_contents(functions@).take(i), 16) as usize,
                        len: functions@[i].body@.len() as usize,
                        align: ARCH_FUNCTION_ALIGNMENT,
                    },
            ),
            final(registry).entries() == old(registry).entries() + unwind_records(
                functions@,
                base as int,
            ),
            final(registry).is_published() == old(registry).is_published(),
            final(registry).frame_table() == old(registry).frame_table(),
    {
        let ghost code = function_contents(functions@);
        let ghost entries = registry.entries();
        let ghost views = Seq::new(
            functions@.len(),
            |i: int|
                SegmentView {
                    offset: runs_len(function_contents(functions@).take(i), 16) as usize,
                    len: functions@[i].body@.len() as usize,
                    align: ARCH_FUNCTION_ALIGNMENT,
                },
        );
        let mut function_result: Vec<SegmentView> = Vec::new();
        let mut i: usize = 0;
        while i < functions.len()
            invariant
                i <= functions.len(),
                code == function_contents(functions@),
                views == Seq::new(
                    functions@.len(),
                    |i: int|
                        SegmentView {
                            offset: runs_len(function_contents(functions@).take(i), 16) as usize,
                            len: functions@[i].body@.len() as usize,
                            align: ARCH_FUNCTION_ALIGNMENT,
                        },
                ),
                buf@ == runs_image(code.take(i as int), 16),
                function_result@ == views.take(i as int),
                registry.entries() == entries + unwind_records(
                    functions@.take(i as int),
                    base as int,
                ),
                registry.is_published() == old(registry).is_published(),
                registry.frame_table() == old(registry).frame_table(),
                !(registry.is_published() && has_unwind_info(functions@)),
                base % 16 == 0,
                base + runs_len(code, 16) <= usize::MAX,
            decreases functions.len() - i,
        {
            proof {
                lemma_runs_step(code, 16, i as int);
                lemma_runs_prefix(code, 16, i + 1);
                lemma_runs_len(code.take(i as int), 16);
                lemma_runs_len(code.take(i + 1), 16);
                lemma_contents_len(functions@[i as int]);
                assert(functions@.take(i + 1).drop_last() =~= functions@.take(i as int));
                assert(function_contents(functions@.take(i as int)) =~= code.take(i as int));
            }
            match Self::copy_function(registry, functions[i], buf, base) {
                Ok(view) => {
                    function_result.push(view);
                },
                Err(e) => {
                    return Err(e);
                },
            }
            proof {
                let prefix = functions@.take(i + 1);
                assert(prefix.last() == functions@[i as int]);
                assert(registry.entries() =~= entries + unwind_records(prefix, base as int));
                assert(function_result@ =~= views.take(i + 1));
            }
            i = i + 1;
        }
        assert(code.take(i as int) =~= code);
        assert(functions@.take(i as int) =~= functions@);
        assert(function_result@ =~= views);
        Ok(function_result)
    }

    /// Copies the sections to the end of the buffer, each at the next
    /// multiple of `align`.
    fn copy_sections(sections: &[&CustomSection], buf: &mut Vec<u8>, align: usize) -> (views: Vec<
        SegmentView,
    >)
        requires
            is_power_of_two(align),
            old(buf)@.len() + runs_len(section_contents(sections@), align as int) <= usize::MAX,
        ensures
            final(buf)@ == old(buf)@ + runs_image(section_contents(sections@), align as int),
            views@ == Seq::new(
                sections@.len(),
                |i: int|
                    SegmentView {
                        offset: (old(buf)@.len() + runs_len(
                            section_contents(sections@).take(i),
                            align as int,
                        )) as usize,
                        len: section_contents(sections@)[i].len() as usize,
                        align,
                    },
            ),
    {
        let ghost contents = section_contents(sections@);
        let ghost before = buf@;
        let ghost expected = Seq::new(
            sections@.len(),
            |i: int|
                SegmentView {
                    offset: (before.len() + runs_len(
                        section_contents(sections@).take(i),
                        align as int,
                    )) as usize,
                    len: section_contents(sections@)[i].len() as usize,
                    align,
                },
        );
        let mut views: Vec<SegmentView> = Vec::new();
        let mut i: usize = 0;
        assert(buf@ =~= before + runs_image(contents.take(0), align as int));
        while i < sections.len()
            invariant
                i <= sections.len(),
                is_power_of_two(align),
                contents == section_contents(sections@),
                expected == Seq::new(
                    sections@.len(),
                    |i: int|
                        SegmentView {
                            offset: (before.len() + runs_len(
                                section_contents(sections@).take(i),
                                align as int,
                            )) as usize,
                            len: section_contents(sections@)[i].len() as usize,
                            align,
                        },
                ),
                buf@ == before + runs_image(contents.take(i as int), align as int),
                views@ == expected.take(i as int),
                before.len() + runs_len(contents, align as int) <= usize::MAX,
            decreases sections.len() - i,
        {
            proof {
                lemma_runs_step(contents, align as int, i as int);
                lemma_runs_prefix(contents, align as int, i + 1);
                lemma_runs_len(contents.take(i as int), align as int);
                lemma_runs_len(contents.take(i + 1), align as int);
                lemma_round_up_bounds(contents[i as int].len() as int, align as int);
                lemma_round_up_fits(sections@[i as int].bytes.len(), align);
            }
            let section = &sections[i].bytes;
            let offset = buf.len();
            let len = round_up(section.len(), align);
            append_bytes(buf, section.as_slice());
            append_zeros(buf, len - section.len());
            views.push(SegmentView { offset, len: section.len(), align });
            proof {
                assert(buf@ =~= before + runs_image(contents.take(i + 1), align as int));
                assert(views@ =~= expected.take(i + 1));
            }
            i = i + 1;
        }
        assert(contents.take(i as int) =~= contents);
        assert(views@ =~= expected);
        views
    }

    /// Allocate a single contiguous block of memory for the functions and
    /// custom sections, and copy the data in place.
    ///
    /// The image is laid out for a host with pages of `page_size` bytes that
    /// maps it at the address `base`. Each function that has unwind
    /// information is registered with `registry`, at its address in the image.
    /// On an error neither the memory nor the registry changes.
    pub fn allocate_with_page_size(
        &mut self,
        registry: &mut UnwindRegistry,
        functions: &[&FunctionBody],
        executable_sections: &[&CustomSection],
        data_sections: &[&CustomSection],
        page_size: usize,
        base: usize,
    ) -> (res: Result<(Vec<SegmentView>, Vec<SegmentView>, Vec<SegmentView>), AllocationError>)
        ensures
            Self::allocation_outcome(
                *old(self),
                *final(self),
                *old(registry),
                *final(registry),
                functions@,
                executable_sections@,
                data_sections@,
                page_size,
                base,
                res,
            ),
    {
        if !is_valid_page_size(page_size) {
            return Err(AllocationError::PageSize);
        }
        if base % page_size != 0 {
            return Err(AllocationError::BaseAddress);
        }
        // 1. Calculate the total size, that is:
        // - function body size, including all trampolines
        // -- windows unwind info
        // -- padding between functions
        // - executable section body
        // -- padding between executable sections
        // - padding until a new page to change page permissions
        // - data section body size
        // -- padding between data sections

        let total_len = match allocation_len(
            functions,
            executable_sections,
            data_sections,
            page_size,
        ) {
            Ok(total_len) => total_len,
            Err(e) => {
                return Err(AllocationError::TooLarge);
            },
        };
        if total_len > usize::MAX - base {
            return Err(AllocationError::TooLarge);
        }
        if registry.published() && any_unwind_info(functions) {
            return Err(AllocationError::Unwind(UnwindRegistrationError::AlreadyPublished));
        }
        let ghost layout = Layout::of(
            functions@,
            executable_sections@,
            data_sections@,
            page_size as int,
        );
        proof {
            lemma_small_powers_of_two();
            lemma_large_power_of_two(page_size);
            lemma_multiple_of_multiple(base as int, page_size as int, 16);
            lemma_runs_len(layout.functions, 16);
            lemma_runs_len(layout.executable_sections, 16);
            lemma_runs_len(layout.data_sections, 64);
            lemma_round_up_bounds(layout.executable_len(), page_size as int);
        }

        // 2. Determine where each function, executable section or data
        // section lies, and copy them in place. Collect the views of each and
        // return them.

        let mut buf: Vec<u8> = Vec::new();
        let function_result = match Self::copy_functions(registry, functions, &mut buf, base) {
            Ok(function_result) => function_result,
            Err(e) => {
                return Err(AllocationError::Unwind(e));
            },
        };
        assert(function_result@ =~= function_views(functions@, layout));
        let executable_section_result = Self::copy_sections(
            executable_sections,
            &mut buf,
            ARCH_FUNCTION_ALIGNMENT,
        );
        assert(buf@ =~= layout.executable_image());
        assert(executable_section_result@ =~= executable_section_views(layout));

        let bytes = buf.len();

        // Data sections have different page permissions from the executable
        // code that came before it, so they need to be on different pages.
        proof {
            lemma_round_up_fits(bytes, page_size);
        }
        let padding = round_up(bytes, page_size) - bytes;
        append_zeros(&mut buf, padding);
        assert(buf@ == padded(layout.executable_image(), page_size as int));

        let data_section_result = Self::copy_sections(
            data_sections,
            &mut buf,
            DATA_SECTION_ALIGNMENT,
        );
        assert(data_section_result@ =~= data_section_views(layout));
        assert(buf@ == layout.image());

        self.start_of_nonexecutable_pages = 0;
        self.base = 0;
        self.mmap = buf;
        self.base = base;
        self.page_size = page_size;
        self.start_of_nonexecutable_pages = bytes;
        self.published = false;

        Ok((function_result, executable_section_result, data_section_result))
    }

    /// Allocate a single contiguous block of memory for the functions and
    /// custom sections, and copy the data in place.
    ///
    /// The image is laid out for this host, whose page size the operating
    /// system reports, and for the address `base`. The page size that was
    /// used is that of the memory afterwards.
    pub fn allocate(
        &mut self,
        registry: &mut UnwindRegistry,
        functions: &[&FunctionBody],
        executable_sections: &[&CustomSection],
        data_sections: &[&CustomSection],
        base: usize,
    ) -> (res: Result<(Vec<SegmentView>, Vec<SegmentView>, Vec<SegmentView>), AllocationError>)
        ensures
            exists|page_size: usize|
                Self::allocation_outcome(
                    *old(self),
                    *final(self),
                    *old(registry),
                    *final(registry),
                    functions@,
                    executable_sections@,
                    data_sections@,
                    page_size,
                    base,
                    res,
                ),
    {
        let page_size = host_page_size();
        self.allocate_with_page_size(
            registry,
            functions,
            executable_sections,
            data_sections,
            page_size,
            base,
        )
    }

    /// Publish the unwind registry into code memory: it lives as long as the image.
    pub fn publish_unwind_registry(&mut self, unwind_registry: UnwindRegistry)
        ensures
            final(self).well_formed() == old(self).well_formed(),
            final(self).registries() == old(self).registries().push(unwind_registry),
            final(self).same_image(*old(self)),
    {
        self.unwind_registries.push(unwind_registry);
    }

    /// Whether the two memories hold the same bytes at the same address, with
    /// the same protection.
    pub open spec fn same_image(&self, other: CodeMemory) -> bool {
        &&& self.bytes() == other.bytes()
        &&& self.base() == other.base()
        &&& self.page_size() == other.page_size()
        &&& self.execute_boundary() == other.execute_boundary()
        &&& self.is_published() == other.is_published()
    }

    /// What publication asks of the host: nothing where the image is empty,
    /// has no executable partition or is published already; else to make the
    /// executable partition readable and executable.
    pub open spec fn pending_protection(&self) -> Option<ProtectRequest> {
        if self.bytes().len() == 0 || self.execute_boundary() == 0 || self.is_published() {
            None
        } else {
            Some(
                ProtectRequest { address: self.base(), len: self.execute_boundary() },
            )
        }
    }

    /// The change of protection that the host has to make before the image is
    /// published, if there is one.
    pub fn protect_request(&self) -> (request: Option<ProtectRequest>)
        ensures
            request == self.pending_protection(),
    {
        if self.mmap.len() == 0 || self.start_of_nonexecutable_pages == 0 || self.published {
            None
        } else {
            Some(ProtectRequest { address: self.base, len: self.start_of_nonexecutable_pages })
        }
    }

    /// Apply the page permissions.
    ///
    /// `host` is what the host answered to the request of
    /// [`Self::protect_request`]. Where nothing was to be asked this does
    /// nothing. Where the host made the change, the executable partition is
    /// executable from now on and no longer writable; the data partition stays
    /// as it is. Where the host refused, so does this, and nothing changes.
    pub fn publish(&mut self, host: Result<(), String>) -> (res: Result<(), PublishError>)
        ensures
            old(self).pending_protection() is None ==> res is Ok && *final(self) == *old(self),
            old(self).pending_protection() is Some && host is Ok ==> {
                &&& res is Ok
                &&& final(self).well_formed() == old(self).well_formed()
                &&& final(self).is_published()
                &&& final(self).bytes() == old(self).bytes()
                &&& final(self).base() == old(self).base()
                &&& final(self).page_size() == old(self).page_size()
                &&& final(self).execute_boundary() == old(self).execute_boundary()
                &&& final(self).registries() == old(self).registries()
            },
            old(self).pending_protection() is Some && host is Err ==> {
                &&& res matches Err(e)
                &&& e.reason == host->Err_0
                &&& *final(self) == *old(self)
            },
    {
        if self.mmap.len() == 0 || self.start_of_nonexecutable_pages == 0 || self.published {
            return Ok(());
        }
        match host {
            Ok(()) => {
                self.published = true;
                Ok(())
            },
            Err(reason) => Err(PublishError { reason }),
        }
    }

    /// The number of bytes of the image.
    pub fn len(&self) -> (len: usize)
        ensures
            len == self.bytes().len(),
    {
        self.mmap.len()
    }

    /// Whether the image is empty.
    pub fn is_empty(&self) -> (empty: bool)
        ensures
            empty == (self.bytes().len() == 0),
    {
        self.mmap.len() == 0
    }

    /// The address of the first byte of the image.
    pub fn address(&self) -> (address: usize)
        ensures
            address == self.base(),
    {
        self.base
    }

    /// The page size of the host that the image was laid out for.
    pub fn host_page_size(&self) -> (page_size: usize)
        ensures
            page_size == self.page_size(),
    {
        self.page_size
    }

    /// The length of the executable partition.
    pub fn executable_len(&self) -> (len: usize)
        ensures
            len == self.execute_boundary(),
            self.well_formed() ==> len <= self.bytes().len(),
    {
        self.start_of_nonexecutable_pages
    }

    /// Whether the executable partition has been made executable.
    pub fn published(&self) -> (published: bool)
        ensures
            published == self.is_published(),
    {
        self.published
    }

    /// The number of unwind registries that live with the image.
    pub fn unwind_registry_count(&self) -> (count: usize)
        ensures
            count == self.registries().len(),
    {
        self.unwind_registries.len()
    }

    /// The unwind registry `i` of those that live with the image, if there
    /// is such a registry.
    pub fn unwind_registry(&self, i: usize) -> (registry: Option<&UnwindRegistry>)
        ensures
            match registry {
                Some(registry) => i < self.registries().len() && *registry
                    == self.registries()[i as int],
                None => i >= self.registries().len(),
            },
    {
        if i < self.unwind_registries.len() {
            Some(&self.unwind_registries[i])
        } else {
            None
        }
    }

    /// The protection of the byte at `offset`; none where the image has no such byte.
    pub fn protection_at(&self, offset: usize) -> (protection: Option<Protection>)
        ensures
            protection == if offset >= self.bytes().len() {
                None
            } else if self.is_executable(offset as int) {
                Some(Protection::ReadExecute)
            } else {
                Some(Protection::ReadWrite)
            },
            protection == Some(Protection::ReadWrite) <==> self.is_writable(offset as int),
    {
        if offset >= self.mmap.len() {
            None
        } else if self.published && offset < self.start_of_nonexecutable_pages {
            Some(Protection::ReadExecute)
        } else {
            Some(Protection::ReadWrite)
        }
    }

    /// Whether `view` lies within the image.
    pub open spec fn contains(&self, view: SegmentView) -> bool {
        view.offset + view.len <= self.bytes().len()
    }

    /// The address of the first byte of `view`; none where the view does not
    /// lie within the image.
    pub fn address_of(&self, view: &SegmentView) -> (address: Option<usize>)
        requires
            self.well_formed(),
        ensures
            address == if self.contains(*view) {
                Some((self.base() + view.offset) as usize)
            } else {
                None
            },
            self.contains(*view) ==> self.base() + view.offset + view.len <= usize::MAX,
    {
        if view.offset <= self.mmap.len() && view.len <= self.mmap.len() - view.offset {
            Some(self.base + view.offset)
        } else {
            None
        }
    }

    /// The bytes of `view`; none where the view does not lie within the image.
    pub fn slice(&self, view: &SegmentView) -> (bytes: Option<Vec<u8>>)
        ensures
            match bytes {
                Some(bytes) => self.contains(*view) && bytes@ == self.bytes().subrange(
                    view.offset as int,
                    view.offset + view.len,
                ),
                None => !self.contains(*view),
            },
    {
        if view.offset <= self.mmap.len() && view.len <= self.mmap.len() - view.offset {
            let part = vstd::slice::slice_subrange(
                self.mmap.as_slice(),
                view.offset,
                view.offset + view.len,
            );
            Some(copy_bytes(part))
        } else {
            None
        }
    }

    /// A copy of the whole image.
    pub fn to_vec(&self) -> (bytes: Vec<u8>)
        ensures
            bytes@ == self.bytes(),
    {
        copy_bytes(self.mmap.as_slice())
    }

    /// Whether `len` bytes may be written at `offset`: they lie within the
    /// image and none of them is executable.
    pub open spec fn can_write(&self, offset: int, len: int) -> bool {
        &&& 0 <= offset
        &&& 0 <= len
        &&& offset + len <= self.bytes().len()
        &&& len > 0 ==> self.is_writable(offset)
    }

    /// Writes `bytes` into the image at `offset`.
    ///
    /// A write that leaves the image or touches a byte that is executable is
    /// refused, and changes nothing.
    pub fn write(&mut self, offset: usize, bytes: &[u8]) -> (res: Result<(), WriteError>)
        ensures
            final(self).well_formed() == old(self).well_formed(),
            match res {
                Ok(()) => {
                    &&& old(self).can_write(offset as int, bytes@.len() as int)
                    &&& final(self).bytes() == overwrite(old(self).bytes(), offset as int, bytes@)
                    &&& final(self).base() == old(self).base()
                    &&& final(self).page_size() == old(self).page_size()
                    &&& final(self).execute_boundary() == old(self).execute_boundary()
                    &&& final(self).is_published() == old(self).is_published()
                    &&& final(self).registries() == old(self).registries()
                },
                Err(WriteError::OutOfBounds) => {
                    &&& offset + bytes@.len() > old(self).bytes().len()
                    &&& *final(self) == *old(self)
                },
                Err(WriteError::Protected) => {
                    &&& offset + bytes@.len() <= old(self).bytes().len()
                    &&& !old(self).can_write(offset as int, bytes@.len() as int)
                    &&& *final(self) == *old(self)
                },
            },
    {
        let len = bytes.len();
        if offset > self.mmap.len() || len > self.mmap.len() - offset {
            return Err(WriteError::OutOfBounds);
        }
        if len > 0 && self.published && offset < self.start_of_nonexecutable_pages {
            return Err(WriteError::Protected);
        }
        let ghost before = self.mmap@;
        let mut i: usize = 0;
        while i < len
            invariant
                i <= len,
                len == bytes@.len(),
                offset + len <= usize::MAX,
                offset + len <= self.mmap@.len(),
                self.mmap@.len() == before.len(),
                self.base == old(self).base,
                self.page_size == old(self).page_size,
                self.start_of_nonexecutable_pages == old(self).start_of_nonexecutable_pages,
                self.published == old(self).published,
                self.unwind_registries == old(self).unwind_registries,
                forall|k: int|
                    0 <= k < before.len() ==> self.mmap@[k] == if offset <= k < offset + i {
                        bytes@[k - offset]
                    } else {
                        before[k]
                    },
            decreases len - i,
        {
            self.mmap.set(offset + i, bytes[i]);
            i = i + 1;
        }
        assert(self.mmap@ =~= overwrite(before, offset as int, bytes@));
        Ok(())
    }
}

/// Where an image can be laid out, every function and every section starts
/// at an address that is a multiple of its alignment: 16 for functions and
/// executable sections, 64 for data sections. The functions come first, the
/// executable sections behind them, both within the executable partition; the
/// data sections lie behind the page boundary that ends it.
pub proof fn lemma_views_aligned(
    functions: Seq<&FunctionBody>,
    executable_sections: Seq<&CustomSection>,
    data_sections: Seq<&CustomSection>,
    page_size: usize,
    base: usize,
)
    requires
        valid_page_size(page_size),
        base as int % page_size as int == 0,
        base + Layout::of(
            functions,
            executable_sections,
            data_sections,
            page_size as int,
        ).total_len() <= usize::MAX,
    ensures
        ({
            let layout = Layout::of(
                functions,
                executable_sections,
                data_sections,
                page_size as int,
            );
            &&& layout.data_start() % page_size as int == 0
            &&& (base + layout.data_start()) % page_size as int == 0
            &&& forall|i: int|
                0 <= i < functions.len() ==> {
                    let view = #[trigger] function_views(functions, layout)[i];
                    &&& view.align == 16
                    &&& (base + view.offset) % 16 == 0
                    &&& view.offset == layout.function_offset(i)
                    &&& view.offset + view.len <= layout.functions_len()
                }
            &&& forall|i: int|
                0 <= i < executable_sections.len() ==> {
                    let view = #[trigger] executable_section_views(layout)[i];
                    &&& view.align == 16
                    &&& (base + view.offset) % 16 == 0
                    &&& view.offset == layout.executable_section_offset(i)
                    &&& layout.functions_len() <= view.offset
                    &&& view.offset + view.len <= layout.executable_len()
                }
            &&& forall|i: int|
                0 <= i < data_sections.len() ==> {
                    let view = #[trigger] data_section_views(layout)[i];
                    &&& view.align == 64
                    &&& (base + view.offset) % 64 == 0
                    &&& view.offset == layout.data_section_offset(i)
                    &&& layout.data_start() <= view.offset
                    &&& view.offset + view.len <= layout.total_len()
                }
        }),
{
    let layout = Layout::of(functions, executable_sections, data_sections, page_size as int);
    lemma_large_power_of_two(page_size);
    lemma_multiple_of_multiple(base as int, page_size as int, 16);
    lemma_multiple_of_multiple(base as int, page_size as int, 64);
    lemma_layout_lengths(layout);
    lemma_sum_of_multiples(base as int, layout.data_start(), page_size as int);
    assert forall|i: int| 0 <= i < functions.len() implies {
        let view = #[trigger] function_views(functions, layout)[i];
        &&& view.align == 16
        &&& (base + view.offset) % 16 == 0
        &&& view.offset == layout.function_offset(i)
        &&& view.offset + view.len <= layout.functions_len()
    } by {
        lemma_layout_function(layout, i);
        lemma_contents_len(functions[i]);
        lemma_round_up_bounds(layout.functions[i].len() as int, 16);
        lemma_sum_of_multiples(base as int, layout.function_offset(i), 16);
    }
    assert forall|i: int| 0 <= i < executable_sections.len() implies {
        let view = #[trigger] executable_section_views(layout)[i];
        &&& view.align == 16
        &&& (base + view.offset) % 16 == 0
        &&& view.offset == layout.executable_section_offset(i)
        &&& layout.functions_len() <= view.offset
        &&& view.offset + view.len <= layout.executable_len()
    } by {
        lemma_layout_executable_section(layout, i);
        lemma_round_up_bounds(layout.executable_sections[i].len() as int, 16);
        lemma_sum_of_multiples(base as int, layout.executable_section_offset(i), 16);
    }
    assert forall|i: int| 0 <= i < data_sections.len() implies {
        let view = #[trigger] data_section_views(layout)[i];
        &&& view.align == 64
        &&& (base + view.offset) % 64 == 0
        &&& view.offset == layout.data_section_offset(i)
        &&& layout.data_start() <= view.offset
        &&& view.offset + view.len <= layout.total_len()
    } by {
        lemma_layout_data_section(layout, i);
        lemma_round_up_bounds(layout.data_sections[i].len() as int, 64);
        lemma_sum_of_multiples(base as int, layout.data_section_offset(i), 64);
    }
}

/// What is read back from the view of function `i` is its code; where its
/// unwind table is stored inline, zero bytes follow up to the next 4-byte
/// boundary, and then the table.
pub proof fn lemma_function_view_holds_input(
    functions: Seq<&FunctionBody>,
    executable_sections: Seq<&CustomSection>,
    data_sections: Seq<&CustomSection>,
    page_size: usize,
    i: int,
)
    requires
        valid_page_size(page_size),
        Layout::of(
            functions,
            executable_sections,
            data_sections,
            page_size as int,
        ).total_len() <= usize::MAX,
        0 <= i < functions.len(),
    ensures
        ({
            let layout = Layout::of(
                functions,
                executable_sections,
                data_sections,
                page_size as int,
            );
            let image = layout.image();
            let view = function_views(functions, layout)[i];
            let table_start = view.offset + round_up_spec(view.len as int, 4);
            &&& view.offset + view.len <= image.len()
            &&& image.subrange(view.offset as int, view.offset + view.len) == functions[i].body@
            &&& functions[i].has_inline_table() ==> {
                &&& table_start + functions[i].inline_table().len() <= image.len()
                &&& image.subrange(table_start, table_start + functions[i].inline_table().len())
                    == functions[i].inline_table()
                &&& forall|k: int| view.offset + view.len <= k < table_start ==> image[k] == 0
            }
        }),
{
    let layout = Layout::of(functions, executable_sections, data_sections, page_size as int);
    let image = layout.image();
    lemma_layout_lengths(layout);
    lemma_layout_function(layout, i);
    lemma_contents_len(functions[i]);
    lemma_round_up_bounds(layout.functions[i].len() as int, 16);
    let f = functions[i];
    let start = layout.function_offset(i);
    let contents = layout.functions[i];
    assert(contents == f.contents());
    assert(f.body.len() == f.body@.len());
    assert(function_views(functions, layout)[i].offset == start);
    assert(function_views(functions, layout)[i].len == f.body@.len());
    assert forall|j: int| 0 <= j < contents.len() implies image[start + j] == contents[j] by {
        assert(image.subrange(start, start + contents.len())[j] == image[start + j]);
    }
    assert(image.subrange(start, start + f.body@.len()) =~= f.body@) by {
        assert forall|j: int| 0 <= j < f.body@.len() implies image[start + j] == f.body@[j] by {
            assert(contents.subrange(0, f.body@.len() as int)[j] == contents[j]);
        }
    }
    if f.has_inline_table() {
        let table_start = round_up_spec(f.body@.len() as int, 4);
        let table = f.inline_table();
        assert(image.subrange(start + table_start, start + table_start + table.len())
            =~= table) by {
            assert forall|j: int| 0 <= j < table.len() implies image[start + table_start + j]
                == table[j] by {
                assert(contents.subrange(table_start, table_start + table.len())[j]
                    == contents[table_start + j]);
            }
        }
        assert forall|k: int| start + f.body@.len() <= k < start + table_start implies image[k]
            == 0 by {
            assert(image[start + (k - start)] == contents[k - start]);
        }
    }
}

/// What is read back from the view of executable section `i` is its
/// content; behind it the image holds zero bytes up to the section's
/// alignment.
pub proof fn lemma_executable_section_view_holds_input(
    functions: Seq<&FunctionBody>,
    executable_sections: Seq<&CustomSection>,
    data_sections: Seq<&CustomSection>,
    page_size: usize,
    i: int,
)
    requires
        valid_page_size(page_size),
        Layout::of(
            functions,
            executable_sections,
            data_sections,
            page_size as int,
        ).total_len() <= usize::MAX,
        0 <= i < executable_sections.len(),
    ensures
        ({
            let layout = Layout::of(
                functions,
                executable_sections,
                data_sections,
                page_size as int,
            );
            let image = layout.image();
            let view = executable_section_views(layout)[i];
            let end = round_up_spec(view.offset + view.len, 16);
            &&& view.len == executable_sections[i].bytes@.len()
            &&& view.offset + view.len <= end <= image.len()
            &&& image.subrange(view.offset as int, view.offset + view.len)
                == executable_sections[i].bytes@
            &&& forall|k: int| view.offset + view.len <= k < end ==> image[k] == 0
        }),
{
    let layout = Layout::of(functions, executable_sections, data_sections, page_size as int);
    let image = layout.image();
    lemma_layout_lengths(layout);
    lemma_large_power_of_two(page_size);
    lemma_layout_executable_section(layout, i);
    let content = layout.executable_sections[i];
    let start = layout.executable_section_offset(i);
    assert(executable_sections[i].bytes.len() == content.len());
    lemma_round_up_bounds(content.len() as int, 16);
    lemma_round_up_bounds(start + content.len(), 16);
    assert(round_up_spec(start + content.len(), 16) == start + round_up_spec(
        content.len() as int,
        16,
    ));
}

/// What is read back from the view of data section `i` is its
/// content; behind it the image holds zero bytes up to the section's
/// alignment.
pub proof fn lemma_data_section_view_holds_input(
    functions: Seq<&FunctionBody>,
    executable_sections: Seq<&CustomSection>,
    data_sections: Seq<&CustomSection>,
    page_size: usize,
    i: int,
)
    requires
        valid_page_size(page_size),
        Layout::of(
            functions,
            executable_sections,
            data_sections,
            page_size as int,
        ).total_len() <= usize::MAX,
        0 <= i < data_sections.len(),
    ensures
        ({
            let layout = Layout::of(
                functions,
                executable_sections,
                data_sections,
                page_size as int,
            );
            let image = layout.image();
            let view = data_section_views(layout)[i];
            let end = round_up_spec(view.offset + view.len, 64);
            &&& view.len == data_sections[i].bytes@.len()
            &&& view.offset + view.len <= end <= image.len()
            &&& image.subrange(view.offset as int, view.offset + view.len)
                == data_sections[i].bytes@
            &&& forall|k: int| view.offset + view.len <= k < end ==> image[k] == 0
        }),
{
    let layout = Layout::of(functions, executable_sections, data_sections, page_size as int);
    let image = layout.image();
    lemma_layout_lengths(layout);
    lemma_large_power_of_two(page_size);
    lemma_layout_data_section(layout, i);
    let content = layout.data_sections[i];
    let start = layout.data_section_offset(i);
    assert(data_sections[i].bytes.len() == content.len());
    lemma_round_up_bounds(content.len() as int, 64);
    lemma_round_up_bounds(start + content.len(), 64);
    assert(round_up_spec(start + content.len(), 64) == start + round_up_spec(
        content.len() as int,
        64,
    ));
}

/// The execute boundary lies within the image, and the image within the
/// address space. Once the image is published,
/// every byte before the boundary may be executed and none of them written;
/// every byte from the boundary on, and so all of the data partition, may be
/// written and not executed. No byte is ever both writable and executable.
pub proof fn lemma_write_xor_execute(memory: CodeMemory)
    requires
        memory.well_formed(),
    ensures
        0 <= memory.execute_boundary() <= memory.bytes().len(),
        memory.base() + memory.bytes().len() <= usize::MAX,
        forall|offset: int| !(memory.is_writable(offset) && memory.is_executable(offset)),
        memory.is_published() ==> forall|offset: int|
            0 <= offset < memory.execute_boundary() ==> memory.is_executable(offset)
                && !memory.is_writable(offset),
        forall|offset: int|
            memory.execute_boundary() <= offset < memory.bytes().len() ==> memory.is_writable(
                offset,
            ) && !memory.is_executable(offset),
        !memory.is_published() ==> forall|offset: int| !memory.is_executable(offset),
{
}

/// The records of the first functions are the first records of all.
pub proof fn lemma_unwind_records_prefix(functions: Seq<&FunctionBody>, base: int, i: int)
    requires
        0 <= i <= functions.len(),
    ensures
        unwind_records(functions.take(i), base).len() <= unwind_records(functions, base).len(),
        unwind_records(functions, base).take(unwind_records(functions.take(i), base).len() as int)
            == unwind_records(functions.take(i), base),
    decreases functions.len(),
{
    let all = unwind_records(functions, base);
    if i == functions.len() {
        assert(functions.take(i) =~= functions);
        assert(all.take(all.len() as int) =~= all);
    } else {
        let front = functions.drop_last();
        lemma_unwind_records_prefix(front, base, i);
        assert(front.take(i) =~= functions.take(i));
        let part = unwind_records(functions.take(i), base);
        assert(all.take(part.len() as int) =~= unwind_records(front, base).take(part.len() as int));
    }
}

/// There are as many records as functions that have unwind information.
pub proof fn lemma_unwind_records_count(functions: Seq<&FunctionBody>, base: int)
    ensures
        unwind_records(functions, base).len() == functions.filter(
            |f: &FunctionBody| f.unwind_info is Some,
        ).len(),
    decreases functions.len(),
{
    reveal(Seq::filter);
    if functions.len() > 0 {
        lemma_unwind_records_count(functions.drop_last(), base);
    }
}

/// The record of function `i`, which has unwind information, comes behind
/// the records of the functions before it. Its address is that of the
/// function's first byte in the image, its length that of the function's
/// code, and its table the function's inline table.
pub proof fn lemma_unwind_record_of(functions: Seq<&FunctionBody>, base: int, i: int)
    requires
        0 <= i < functions.len(),
        functions[i].unwind_info is Some,
    ensures
        ({
            let rank = unwind_records(functions.take(i), base).len() as int;
            &&& rank < unwind_records(functions, base).len()
            &&& unwind_records(functions.take(i + 1), base).len() == rank + 1
            &&& unwind_records(functions, base)[rank] == unwind_record(
                base + runs_len(function_contents(functions).take(i), 16),
                functions[i].body@.len() as int,
                functions[i].inline_table(),
            )
        }),
{
    let upto = functions.take(i + 1);
    lemma_unwind_records_prefix(functions, base, i + 1);
    assert(upto.drop_last() =~= functions.take(i));
    assert(upto.last() == functions[i]);
    assert(function_contents(functions.take(i)) =~= function_contents(functions).take(i));
    let rank = unwind_records(functions.take(i), base).len() as int;
    assert(unwind_records(upto, base).len() == rank + 1);
    assert(unwind_records(upto, base)[rank] == unwind_records(functions, base).take(
        rank + 1,
    )[rank]);
}

/// A function without unwind information adds no record.
pub proof fn lemma_no_unwind_record_of(functions: Seq<&FunctionBody>, base: int, i: int)
    requires
        0 <= i < functions.len(),
        functions[i].unwind_info is None,
    ensures
        unwind_records(functions.take(i + 1), base) == unwind_records(functions.take(i), base),
{
    let upto = functions.take(i + 1);
    assert(upto.drop_last() =~= functions.take(i));
    assert(upto.last() == functions[i]);
}

} // verus!
