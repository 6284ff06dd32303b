//! What a module declares: the signatures of its functions, its memories
//! and its tables.

use vstd::prelude::*;

verus! {

/// The type of a WebAssembly value.
#[derive(Clone, Copy, Debug, PartialEq, Eq, Structural)]
pub enum Type {
    /// A 32-bit integer.
    I32,
    /// A 64-bit integer.
    I64,
    /// A 32-bit floating-point number.
    F32,
    /// A 64-bit floating-point number.
    F64,
    /// A 128-bit vector.
    V128,
    /// A reference to a value of the host.
    ExternRef,
    /// A reference to a function.
    FuncRef,
}

/// The signature of a function, as a mathematical value.
pub struct Signature {
    /// The types of the parameters.
    pub params: Seq<Type>,
    /// The types of the results.
    pub results: Seq<Type>,
}

/// The signature of a function.
#[derive(Debug, PartialEq, Eq)]
pub struct FunctionType {
    /// The types of the parameters.
    pub params: Vec<Type>,
    /// The types of the results.
    pub results: Vec<Type>,
}

impl View for FunctionType {
    type V = Signature;

    open spec fn view(&self) -> Signature {
        Signature { params: self.params@, results: self.results@ }
    }
}

/// Whether two lists of types are the same.
pub fn same_types(left: &Vec<Type>, right: &Vec<Type>) -> (same: bool)
    ensures
        same == (left@ == right@),
{
    if left.len() != right.len() {
        return false;
    }
    let mut i: usize = 0;
    while i < left.len()
        invariant
            i <= left.len(),
            left.len() == right.len(),
            forall|k: int| 0 <= k < i ==> left@[k] == right@[k],
        decreases left.len() - i,
    {
        if left[i] != right[i] {
            return false;
        }
        i = i + 1;
    }
    assert(left@ =~= right@);
    true
}

impl FunctionType {
    /// Whether this is the signature `other`.
    pub fn same_as(&self, other: &FunctionType) -> (same: bool)
        ensures
            same == (self@ == other@),
    {
        same_types(&self.params, &other.params) && same_types(&self.results, &other.results)
    }

    /// A copy of the signature.
    pub fn duplicate(&self) -> (copy: FunctionType)
        ensures
            copy@ == self@,
    {
        FunctionType { params: copy_types(&self.params), results: copy_types(&self.results) }
    }
}

/// A copy of a list of types.
pub fn copy_types(types: &Vec<Type>) -> (copy: Vec<Type>)
    ensures
        copy@ == types@,
{
    let mut copy: Vec<Type> = Vec::new();
    let mut i: usize = 0;
    while i < types.len()
        invariant
            i <= types.len(),
            copy@ == types@.take(i as int),
        decreases types.len() - i,
    {
        copy.push(types[i]);
        i = i + 1;
        assert(copy@ =~= types@.take(i as int));
    }
    assert(types@.take(i as int) =~= types@);
    copy
}

/// The description of a linear memory.
#[derive(Clone, Copy, Debug, PartialEq, Eq, Structural)]
pub struct MemoryType {
    /// The least number of pages.
    pub minimum: u32,
    /// The greatest number of pages, if there is a limit.
    pub maximum: Option<u32>,
    /// Whether the memory may be shared between threads.
    pub shared: bool,
}

/// The description of a table.
#[derive(Clone, Copy, Debug, PartialEq, Eq, Structural)]
pub struct TableType {
    /// The type of the elements.
    pub ty: Type,
    /// The least number of elements.
    pub minimum: u32,
    /// The greatest number of elements, if there is a limit.
    pub maximum: Option<u32>,
}

/// How a linear memory is laid out at run time.
#[derive(Clone, Copy, Debug, PartialEq, Eq, Structural)]
pub enum MemoryStyle {
    /// The memory may move when it grows.
    Dynamic {
        /// The number of inaccessible bytes behind the memory.
        offset_guard_size: u64,
    },
    /// Address space for the memory is reserved once and for all.
    Static {
        /// The number of pages that are reserved.
        bound: u32,
        /// The number of inaccessible bytes behind the memory.
        offset_guard_size: u64,
    },
}

/// How a table is laid out at run time.
#[derive(Clone, Copy, Debug, PartialEq, Eq, Structural)]
pub enum TableStyle {
    /// Signatures are checked by the caller of an indirect call.
    CallerChecksSignature,
}

/// The policy that chooses the layout of memories and tables.
pub trait Tunables {
    /// The style that the policy chooses for `memory`.
    spec fn chosen_memory_style(&self, memory: MemoryType) -> MemoryStyle;

    /// The style that the policy chooses for `table`.
    spec fn chosen_table_style(&self, table: TableType) -> TableStyle;

    /// Construct a `MemoryStyle` for the provided `MemoryType`.
    fn memory_style(&self, memory: &MemoryType) -> (style: MemoryStyle)
        ensures
            style == self.chosen_memory_style(*memory),
    ;

    /// Construct a `TableStyle` for the provided `TableType`.
    fn table_style(&self, table: &TableType) -> (style: TableStyle)
        ensures
            style == self.chosen_table_style(*table),
    ;
}

/// The policy that reserves address space for every memory whose limit is
/// known and small enough, and lets the others move.
#[derive(Clone, Copy, Debug, PartialEq, Eq, Structural)]
pub struct BaseTunables {
    /// The greatest limit, in pages, for which address space is reserved.
    pub static_memory_bound: u32,
    /// The number of inaccessible bytes behind a memory with reserved address space.
    pub static_memory_offset_guard_size: u64,
    /// The number of inaccessible bytes behind a memory that may move.
    pub dynamic_memory_offset_guard_size: u64,
}

impl Tunables for BaseTunables {
    open spec fn chosen_memory_style(&self, memory: MemoryType) -> MemoryStyle {
        if memory.maximum is Some && memory.maximum->Some_0 <= self.static_memory_bound {
            MemoryStyle::Static {
                bound: self.static_memory_bound,
                offset_guard_size: self.static_memory_offset_guard_size,
            }
        } else {
            MemoryStyle::Dynamic { offset_guard_size: self.dynamic_memory_offset_guard_size }
        }
    }

    open spec fn chosen_table_style(&self, table: TableType) -> TableStyle {
        TableStyle::CallerChecksSignature
    }

    fn memory_style(&self, memory: &MemoryType) -> (style: MemoryStyle) {
        match memory.maximum {
            Some(maximum) if maximum <= self.static_memory_bound => MemoryStyle::Static {
                bound: self.static_memory_bound,
                offset_guard_size: self.static_memory_offset_guard_size,
            },
            _ => MemoryStyle::Dynamic { offset_guard_size: self.dynamic_memory_offset_guard_size },
        }
    }

    fn table_style(&self, table: &TableType) -> (style: TableStyle) {
        TableStyle::CallerChecksSignature
    }
}

/// What a module declares.
#[derive(Debug, PartialEq, Eq)]
pub struct ModuleInfo {
    /// The signatures that the module declares.
    pub signatures: Vec<FunctionType>,
    /// The memories of the module.
    pub memories: Vec<MemoryType>,
    /// The tables of the module.
    pub tables: Vec<TableType>,
}

/// The signatures of `module`, as mathematical values.
pub open spec fn declared_signatures(signatures: Seq<FunctionType>) -> Seq<Signature> {
    signatures.map_values(|s: FunctionType| s@)
}

/// The styles that `tunables` chooses for the memories in `memories`.
pub fn memory_styles<T: Tunables>(memories: &Vec<MemoryType>, tunables: &T) -> (styles: Vec<
    MemoryStyle,
>)
    ensures
        styles@ == memories@.map_values(|m: MemoryType| tunables.chosen_memory_style(m)),
{
    let mut styles: Vec<MemoryStyle> = Vec::new();
    let mut i: usize = 0;
    while i < memories.len()
        invariant
            i <= memories.len(),
            styles@ == memories@.take(i as int).map_values(
                |m: MemoryType| tunables.chosen_memory_style(m),
            ),
        decreases memories.len() - i,
    {
        styles.push(tunables.memory_style(&memories[i]));
        i = i + 1;
        assert(styles@ =~= memories@.take(i as int).map_values(
            |m: MemoryType| tunables.chosen_memory_style(m),
        ));
    }
    assert(memories@.take(i as int) =~= memories@);
    styles
}

/// The styles that `tunables` chooses for the tables in `tables`.
pub fn table_styles<T: Tunables>(tables: &Vec<TableType>, tunables: &T) -> (styles: Vec<
    TableStyle,
>)
    ensures
        styles@ == tables@.map_values(|t: TableType| tunables.chosen_table_style(t)),
{
    let mut styles: Vec<TableStyle> = Vec::new();
    let mut i: usize = 0;
    while i < tables.len()
        invariant
            i <= tables.len(),
            styles@ == tables@.take(i as int).map_values(
                |t: TableType| tunables.chosen_table_style(t),
            ),
        decreases tables.len() - i,
    {
        styles.push(tunables.table_style(&tables[i]));
        i = i + 1;
        assert(styles@ =~= tables@.take(i as int).map_values(
            |t: TableType| tunables.chosen_table_style(t),
        ));
    }
    assert(tables@.take(i as int) =~= tables@);
    styles
}

} // verus!
