//! The shape of a code image: which bytes it holds and where each function
//! and section starts.
//!
//! An image is the concatenation of its segments, each followed by the zero
//! bytes that bring its length to a multiple of its alignment: first the
//! functions, then the executable sections, then zero bytes up to the next
//! page boundary, then the data sections.

use crate::align::{
    lemma_multiple_of_multiple, lemma_round_up_bounds, lemma_sum_of_multiples, round_up_spec,
};
use crate::compilation::{CustomSection, FunctionBody};
use vstd::prelude::*;

verus! {

/// The alignment of functions and of executable sections.
pub const ARCH_FUNCTION_ALIGNMENT: usize = 16;

/// The alignment of data sections.
pub const DATA_SECTION_ALIGNMENT: usize = 64;

/// The alignment of an unwind table stored behind a function's code.
pub const UNWIND_TABLE_ALIGNMENT: usize = 4;

/// `n` zero bytes.
pub open spec fn zeros(n: int) -> Seq<u8> {
    Seq::new(n as nat, |i: int| 0u8)
}

/// `bytes`, followed by the zero bytes that bring its length to a multiple of `align`.
pub open spec fn padded(bytes: Seq<u8>, align: int) -> Seq<u8> {
    bytes + zeros(round_up_spec(bytes.len() as int, align) - bytes.len())
}

/// The length of all of `contents`, each rounded up to `align`.
pub open spec fn runs_len(contents: Seq<Seq<u8>>, align: int) -> int
    decreases contents.len(),
{
    if contents.len() == 0 {
        0
    } else {
        runs_len(contents.drop_last(), align) + round_up_spec(contents.last().len() as int, align)
    }
}

/// All of `contents` in order, each padded to `align`.
pub open spec fn runs_image(contents: Seq<Seq<u8>>, align: int) -> Seq<u8>
    decreases contents.len(),
{
    if contents.len() == 0 {
        Seq::empty()
    } else {
        runs_image(contents.drop_last(), align) + padded(contents.last(), align)
    }
}

/// A padded segment is as long as its content rounded up.
pub proof fn lemma_padded_len(bytes: Seq<u8>, align: int)
    requires
        0 < align,
    ensures
        padded(bytes, align).len() == round_up_spec(bytes.len() as int, align),
        padded(bytes, align).subrange(0, bytes.len() as int) == bytes,
        forall|k: int|
            bytes.len() <= k < padded(bytes, align).len() ==> padded(bytes, align)[k] == 0,
{
    lemma_round_up_bounds(bytes.len() as int, align);
    assert(padded(bytes, align).subrange(0, bytes.len() as int) =~= bytes);
}

/// The runs are as long as their image, and a multiple of the alignment.
pub proof fn lemma_runs_len(contents: Seq<Seq<u8>>, align: int)
    requires
        0 < align,
    ensures
        runs_image(contents, align).len() == runs_len(contents, align),
        runs_len(contents, align) % align == 0,
        0 <= runs_len(contents, align),
    decreases contents.len(),
{
    if contents.len() > 0 {
        lemma_runs_len(contents.drop_last(), align);
        lemma_padded_len(contents.last(), align);
        lemma_round_up_bounds(contents.last().len() as int, align);
        lemma_sum_of_multiples(
            runs_len(contents.drop_last(), align),
            round_up_spec(contents.last().len() as int, align),
            align,
        );
    } else {
        assert(0int % align == 0) by (nonlinear_arith)
            requires
                0 < align,
        ;
    }
}

/// One more segment adds its padded content to the runs.
pub proof fn lemma_runs_step(contents: Seq<Seq<u8>>, align: int, i: int)
    requires
        0 <= i < contents.len(),
    ensures
        runs_len(contents.take(i + 1), align) == runs_len(contents.take(i), align) + round_up_spec(
            contents[i].len() as int,
            align,
        ),
        runs_image(contents.take(i + 1), align) == runs_image(contents.take(i), align) + padded(
            contents[i],
            align,
        ),
{
    assert(contents.take(i + 1).drop_last() =~= contents.take(i));
    assert(contents.take(i + 1).last() == contents[i]);
}

/// The runs of the first `i` segments are a prefix of the runs of all.
pub proof fn lemma_runs_prefix(contents: Seq<Seq<u8>>, align: int, i: int)
    requires
        0 < align,
        0 <= i <= contents.len(),
    ensures
        runs_len(contents.take(i), align) <= runs_len(contents, align),
        runs_image(contents, align).subrange(0, runs_len(contents.take(i), align))
            == runs_image(contents.take(i), align),
    decreases contents.len(),
{
    lemma_runs_len(contents, align);
    if i == contents.len() {
        assert(contents.take(i) =~= contents);
        assert(runs_image(contents, align).subrange(0, runs_len(contents, align)) =~= runs_image(
            contents,
            align,
        ));
    } else {
        let front = contents.drop_last();
        lemma_runs_prefix(front, align, i);
        lemma_runs_len(front, align);
        lemma_runs_len(contents.take(i), align);
        lemma_round_up_bounds(contents.last().len() as int, align);
        assert(front.take(i) =~= contents.take(i));
        assert(runs_image(contents, align).subrange(0, runs_len(contents.take(i), align))
            =~= runs_image(front, align).subrange(0, runs_len(contents.take(i), align)));
    }
}

/// Segment `i` starts at a multiple of the alignment, lies within the runs,
/// and the image holds its content there, followed by zero bytes up to the
/// next segment.
pub proof fn lemma_runs_segment(contents: Seq<Seq<u8>>, align: int, i: int)
    requires
        0 < align,
        0 <= i < contents.len(),
    ensures
        0 <= runs_len(contents.take(i), align),
        runs_len(contents.take(i), align) % align == 0,
        runs_len(contents.take(i), align) + round_up_spec(contents[i].len() as int, align)
            == runs_len(contents.take(i + 1), align),
        runs_len(contents.take(i + 1), align) <= runs_len(contents, align),
        runs_image(contents, align).subrange(
            runs_len(contents.take(i), align),
            runs_len(contents.take(i), align) + contents[i].len(),
        ) == contents[i],
        forall|k: int|
            runs_len(contents.take(i), align) + contents[i].len() <= k < runs_len(
                contents.take(i + 1),
                align,
            ) ==> #[trigger] runs_image(contents, align)[k] == 0,
{
    let start = runs_len(contents.take(i), align);
    let next = runs_len(contents.take(i + 1), align);
    lemma_runs_len(contents, align);
    lemma_runs_len(contents.take(i), align);
    lemma_runs_len(contents.take(i + 1), align);
    lemma_runs_step(contents, align, i);
    lemma_runs_prefix(contents, align, i + 1);
    lemma_padded_len(contents[i], align);
    lemma_round_up_bounds(contents[i].len() as int, align);
    let whole = runs_image(contents, align);
    let upto = runs_image(contents.take(i + 1), align);
    assert(whole.subrange(0, next) == upto);
    assert forall|k: int| start <= k < next implies whole[k] == padded(contents[i], align)[k
        - start] by {
        assert(whole.subrange(0, next)[k] == whole[k]);
    }
    assert(whole.subrange(start, start + contents[i].len()) =~= contents[i]) by {
        assert forall|j: int| 0 <= j < contents[i].len() implies whole.subrange(
            start,
            start + contents[i].len(),
        )[j] == contents[i][j] by {
            assert(whole[start + j] == padded(contents[i], align)[j]);
        }
    }
}

impl FunctionBody {
    /// What the image holds of the function: its code and, where the unwind
    /// table is stored inline, zero bytes up to a 4-byte boundary and the table.
    pub open spec fn contents(&self) -> Seq<u8> {
        if self.has_inline_table() {
            padded(self.body@, UNWIND_TABLE_ALIGNMENT as int) + self.inline_table()
        } else {
            self.body@
        }
    }

    /// The number of bytes that the function takes in the image, before it is
    /// padded to the function alignment.
    pub open spec fn allocation_size(&self) -> int {
        if self.has_inline_table() {
            round_up_spec(self.body@.len() as int, UNWIND_TABLE_ALIGNMENT as int)
                + self.inline_table().len()
        } else {
            self.body@.len() as int
        }
    }
}

/// A function takes as many bytes as the image holds of it. They start with
/// its code. Where the unwind table is stored inline, it follows at the next
/// 4-byte boundary, behind zero bytes.
pub proof fn lemma_contents_len(f: &FunctionBody)
    ensures
        f.contents().len() == f.allocation_size(),
        f.body@.len() <= f.contents().len(),
        f.contents().subrange(0, f.body@.len() as int) == f.body@,
        f.has_inline_table() ==> {
            let table_start = round_up_spec(f.body@.len() as int, 4);
            &&& table_start - f.body@.len() < 4
            &&& table_start % 4 == 0
            &&& table_start + f.inline_table().len() == f.contents().len()
            &&& f.contents().subrange(table_start, table_start + f.inline_table().len())
                == f.inline_table()
            &&& forall|k: int| f.body@.len() <= k < table_start ==> f.contents()[k] == 0
        },
{
    lemma_padded_len(f.body@, UNWIND_TABLE_ALIGNMENT as int);
    lemma_round_up_bounds(f.body@.len() as int, 4);
    assert(f.contents().subrange(0, f.body@.len() as int) =~= f.body@);
    if f.has_inline_table() {
        let table_start = round_up_spec(f.body@.len() as int, 4);
        assert(f.contents().subrange(table_start, table_start + f.inline_table().len())
            =~= f.inline_table());
    }
}

/// What the image holds of each function.
pub open spec fn function_contents(functions: Seq<&FunctionBody>) -> Seq<Seq<u8>> {
    functions.map_values(|f: &FunctionBody| f.contents())
}

/// What the image holds of each section.
pub open spec fn section_contents(sections: Seq<&CustomSection>) -> Seq<Seq<u8>> {
    sections.map_values(|s: &CustomSection| s.bytes@)
}

/// The segments of an image and the page size of the host that it is laid out for.
pub struct Layout {
    /// What the image holds of each function.
    pub functions: Seq<Seq<u8>>,
    /// The content of each executable section.
    pub executable_sections: Seq<Seq<u8>>,
    /// The content of each data section.
    pub data_sections: Seq<Seq<u8>>,
    /// The page size.
    pub page_size: int,
}

impl Layout {
    /// The layout of the given functions and sections.
    pub open spec fn of(
        functions: Seq<&FunctionBody>,
        executable_sections: Seq<&CustomSection>,
        data_sections: Seq<&CustomSection>,
        page_size: int,
    ) -> Layout {
        Layout {
            functions: function_contents(functions),
            executable_sections: section_contents(executable_sections),
            data_sections: section_contents(data_sections),
            page_size,
        }
    }

    /// The length of the functions.
    pub open spec fn functions_len(&self) -> int {
        runs_len(self.functions, ARCH_FUNCTION_ALIGNMENT as int)
    }

    /// The length of the executable partition: functions and executable sections.
    pub open spec fn executable_len(&self) -> int {
        self.functions_len() + runs_len(self.executable_sections, ARCH_FUNCTION_ALIGNMENT as int)
    }

    /// Where the data partition starts: at the first page boundary behind the
    /// executable partition.
    pub open spec fn data_start(&self) -> int {
        round_up_spec(self.executable_len(), self.page_size)
    }

    /// The length of the image.
    pub open spec fn total_len(&self) -> int {
        self.data_start() + runs_len(self.data_sections, DATA_SECTION_ALIGNMENT as int)
    }

    /// Where function `i` starts.
    pub open spec fn function_offset(&self, i: int) -> int {
        runs_len(self.functions.take(i), ARCH_FUNCTION_ALIGNMENT as int)
    }

    /// Where executable section `i` starts.
    pub open spec fn executable_section_offset(&self, i: int) -> int {
        self.functions_len() + runs_len(
            self.executable_sections.take(i),
            ARCH_FUNCTION_ALIGNMENT as int,
        )
    }

    /// Where data section `i` starts.
    pub open spec fn data_section_offset(&self, i: int) -> int {
        self.data_start() + runs_len(self.data_sections.take(i), DATA_SECTION_ALIGNMENT as int)
    }

    /// The executable partition.
    pub open spec fn executable_image(&self) -> Seq<u8> {
        runs_image(self.functions, ARCH_FUNCTION_ALIGNMENT as int) + runs_image(
            self.executable_sections,
            ARCH_FUNCTION_ALIGNMENT as int,
        )
    }

    /// The bytes of the image.
    pub open spec fn image(&self) -> Seq<u8> {
        padded(self.executable_image(), self.page_size) + runs_image(
            self.data_sections,
            DATA_SECTION_ALIGNMENT as int,
        )
    }
}

/// The executable partition ends within the image, the data partition starts
/// at the first page boundary behind it, and the image is as long as its
/// segments, each rounded up to its alignment, and the padding between the
/// two partitions, which is less than a page.
pub proof fn lemma_layout_lengths(layout: Layout)
    requires
        0 < layout.page_size,
    ensures
        0 <= layout.functions_len() <= layout.executable_len() <= layout.data_start()
            <= layout.total_len(),
        layout.data_start() - layout.executable_len() < layout.page_size,
        layout.data_start() % layout.page_size == 0,
        layout.total_len() == runs_len(layout.functions, 16) + runs_len(
            layout.executable_sections,
            16,
        ) + (layout.data_start() - layout.executable_len()) + runs_len(layout.data_sections, 64),
        layout.executable_image().len() == layout.executable_len(),
        layout.image().len() == layout.total_len(),
        layout.image().subrange(0, layout.executable_len()) == layout.executable_image(),
        forall|k: int|
            layout.executable_len() <= k < layout.data_start() ==> #[trigger] layout.image()[k]
                == 0,
{
    lemma_runs_len(layout.functions, 16);
    lemma_runs_len(layout.executable_sections, 16);
    lemma_runs_len(layout.data_sections, 64);
    lemma_round_up_bounds(layout.executable_len(), layout.page_size);
    lemma_padded_len(layout.executable_image(), layout.page_size);
    assert(layout.image().subrange(0, layout.executable_len()) =~= layout.executable_image());
}

/// Function `i` starts at a multiple of the function alignment and lies in
/// the executable partition; the image holds there what it holds of the
/// function, and zero bytes from there to the next segment.
pub proof fn lemma_layout_function(layout: Layout, i: int)
    requires
        0 < layout.page_size,
        0 <= i < layout.functions.len(),
    ensures
        0 <= layout.function_offset(i),
        layout.function_offset(i) % 16 == 0,
        layout.function_offset(i) + round_up_spec(layout.functions[i].len() as int, 16)
            == layout.function_offset(i + 1),
        layout.function_offset(i + 1) <= layout.functions_len(),
        layout.image().subrange(
            layout.function_offset(i),
            layout.function_offset(i) + layout.functions[i].len(),
        ) == layout.functions[i],
        forall|k: int|
            layout.function_offset(i) + layout.functions[i].len() <= k < layout.function_offset(
                i + 1,
            ) ==> #[trigger] layout.image()[k] == 0,
{
    lemma_layout_lengths(layout);
    lemma_runs_segment(layout.functions, 16, i);
    lemma_runs_len(layout.functions, 16);
    let code = runs_image(layout.functions, 16);
    let start = layout.function_offset(i);
    assert forall|k: int| 0 <= k < layout.functions_len() implies layout.image()[k] == code[k] by {
        assert(layout.image().subrange(0, layout.executable_len())[k] == layout.image()[k]);
    }
    assert(layout.image().subrange(start, start + layout.functions[i].len())
        =~= layout.functions[i]) by {
        assert forall|j: int| 0 <= j < layout.functions[i].len() implies layout.image()[start + j]
            == layout.functions[i][j] by {
            assert(code.subrange(start, start + layout.functions[i].len())[j] == code[start + j]);
        }
    }
}

/// Executable section `i` starts at a multiple of the function alignment and
/// lies in the executable partition, behind the functions; the image holds
/// its content there, and zero bytes from there to the next segment.
pub proof fn lemma_layout_executable_section(layout: Layout, i: int)
    requires
        0 < layout.page_size,
        0 <= i < layout.executable_sections.len(),
    ensures
        layout.functions_len() <= layout.executable_section_offset(i),
        layout.executable_section_offset(i) % 16 == 0,
        layout.executable_section_offset(i) + round_up_spec(
            layout.executable_sections[i].len() as int,
            16,
        ) == layout.executable_section_offset(i + 1),
        layout.executable_section_offset(i + 1) <= layout.executable_len(),
        layout.image().subrange(
            layout.executable_section_offset(i),
            layout.executable_section_offset(i) + layout.executable_sections[i].len(),
        ) == layout.executable_sections[i],
        forall|k: int|
            layout.executable_section_offset(i) + layout.executable_sections[i].len() <= k
                < layout.executable_section_offset(i + 1) ==> #[trigger] layout.image()[k] == 0,
{
    lemma_layout_lengths(layout);
    lemma_runs_segment(layout.executable_sections, 16, i);
    lemma_runs_len(layout.functions, 16);
    lemma_runs_len(layout.executable_sections, 16);
    lemma_sum_of_multiples(
        layout.functions_len(),
        runs_len(layout.executable_sections.take(i), 16),
        16,
    );
    let sections = runs_image(layout.executable_sections, 16);
    let first = layout.functions_len();
    let start = layout.executable_section_offset(i);
    let content = layout.executable_sections[i];
    assert forall|k: int| first <= k < layout.executable_len() implies layout.image()[k]
        == sections[k - first] by {
        assert(layout.image().subrange(0, layout.executable_len())[k] == layout.image()[k]);
    }
    assert(layout.image().subrange(start, start + content.len()) =~= content) by {
        assert forall|j: int| 0 <= j < content.len() implies layout.image()[start + j]
            == content[j] by {
            assert(sections.subrange(start - first, start - first + content.len())[j]
                == sections[start - first + j]);
        }
    }
}

/// Data section `i` lies in the data partition, and starts at a multiple of
/// the data alignment where the page size is one; the image holds its content
/// there, and zero bytes from there to the next segment.
pub proof fn lemma_layout_data_section(layout: Layout, i: int)
    requires
        0 < layout.page_size,
        0 <= i < layout.data_sections.len(),
    ensures
        layout.data_start() <= layout.data_section_offset(i),
        layout.page_size % 64 == 0 ==> layout.data_section_offset(i) % 64 == 0,
        layout.data_section_offset(i) + round_up_spec(layout.data_sections[i].len() as int, 64)
            == layout.data_section_offset(i + 1),
        layout.data_section_offset(i + 1) <= layout.total_len(),
        layout.image().subrange(
            layout.data_section_offset(i),
            layout.data_section_offset(i) + layout.data_sections[i].len(),
        ) == layout.data_sections[i],
        forall|k: int|
            layout.data_section_offset(i) + layout.data_sections[i].len() <= k
                < layout.data_section_offset(i + 1) ==> #[trigger] layout.image()[k] == 0,
{
    lemma_layout_lengths(layout);
    lemma_runs_segment(layout.data_sections, 64, i);
    lemma_runs_len(layout.data_sections, 64);
    lemma_padded_len(layout.executable_image(), layout.page_size);
    if layout.page_size % 64 == 0 {
        lemma_multiple_of_multiple(layout.data_start(), layout.page_size, 64);
        lemma_sum_of_multiples(layout.data_start(), runs_len(layout.data_sections.take(i), 64), 64);
    }
    let sections = runs_image(layout.data_sections, 64);
    let first = layout.data_start();
    let start = layout.data_section_offset(i);
    let content = layout.data_sections[i];
    assert(layout.image().subrange(start, start + content.len()) =~= content) by {
        assert forall|j: int| 0 <= j < content.len() implies layout.image()[start + j]
            == content[j] by {
            assert(sections.subrange(start - first, start - first + content.len())[j]
                == sections[start - first + j]);
        }
    }
}

} // verus!
