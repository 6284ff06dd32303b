//! The registry of unwind information: which address ranges hold functions
//! that a stack walker can unwind through, and with which table.

use crate::bytes::copy_bytes;
use crate::compilation::CompiledFunctionUnwindInfo;
use vstd::prelude::*;

verus! {

/// Why unwind information could not be registered.
#[derive(Clone, Copy, Debug, PartialEq, Eq, Structural)]
pub enum UnwindRegistrationError {
    /// The registry has been published and takes no further entries.
    AlreadyPublished,
}

/// What the registry knows of one function, as a mathematical value.
pub struct UnwindRecord {
    /// The address of the function's first byte in code memory.
    pub address: int,
    /// The length of the function's code.
    pub length: int,
    /// The function's inline unwind table; empty where it has none.
    pub table: Seq<u8>,
}

/// The record of the function of `length` bytes of code at `address`.
pub open spec fn unwind_record(address: int, length: int, table: Seq<u8>) -> UnwindRecord {
    UnwindRecord { address, length, table }
}

/// One entry of the registry.
#[derive(Debug)]
pub struct UnwindEntry {
    address: usize,
    length: usize,
    table: Vec<u8>,
}

impl View for UnwindEntry {
    type V = UnwindRecord;

    closed spec fn view(&self) -> UnwindRecord {
        UnwindRecord {
            address: self.address as int,
            length: self.length as int,
            table: self.table@,
        }
    }
}

/// A range of addresses that holds call frame information.
#[derive(Clone, Copy, Debug, PartialEq, Eq, Structural)]
pub struct FrameTable {
    /// The address of the first byte.
    pub address: usize,
    /// The number of bytes.
    pub len: usize,
}

/// The unwind information of the functions of one image.
///
/// Entries are added while the image is written. Publishing closes the
/// registry and hands it the call frame table of the image, if it has one.
#[derive(Debug)]
pub struct UnwindRegistry {
    entries: Vec<UnwindEntry>,
    published: bool,
    eh_frame: Option<FrameTable>,
}

impl UnwindRegistry {
    /// The entries, in the order in which they were registered.
    pub closed spec fn entries(&self) -> Seq<UnwindRecord> {
        self.entries@.map_values(|e: UnwindEntry| e@)
    }

    /// Whether the registry has been published.
    pub closed spec fn is_published(&self) -> bool {
        self.published
    }

    /// The call frame table that the registry was published with.
    pub closed spec fn frame_table(&self) -> Option<FrameTable> {
        self.eh_frame
    }

    /// An empty registry.
    pub fn new() -> (registry: Self)
        ensures
            registry.entries() == Seq::<UnwindRecord>::empty(),
            !registry.is_published(),
            registry.frame_table() is None,
    {
        let registry = UnwindRegistry { entries: Vec::new(), published: false, eh_frame: None };
        assert(registry.entries() =~= Seq::<UnwindRecord>::empty());
        registry
    }

    /// Registers the function of `length` bytes of code at `address`.
    ///
    /// A published registry refuses the entry and stays as it is.
    pub fn register(
        &mut self,
        address: usize,
        length: usize,
        info: &CompiledFunctionUnwindInfo,
    ) -> (res: Result<(), UnwindRegistrationError>)
        ensures
            old(self).is_published() ==> {
                &&& res == Err::<(), _>(UnwindRegistrationError::AlreadyPublished)
                &&& *final(self) == *old(self)
            },
            !old(self).is_published() ==> {
                &&& res is Ok
                &&& final(self).entries() == old(self).entries().push(
                    unwind_record(address as int, length as int, info.inline_table()),
                )
                &&& !final(self).is_published()
                &&& final(self).frame_table() == old(self).frame_table()
            },
    {
        if self.published {
            return Err(UnwindRegistrationError::AlreadyPublished);
        }
        let table = match info {
            CompiledFunctionUnwindInfo::WindowsX64(table) => copy_bytes(table.as_slice()),
            CompiledFunctionUnwindInfo::Dwarf => Vec::new(),
        };
        let ghost before = self.entries();
        let entry = UnwindEntry { address, length, table };
        self.entries.push(entry);
        assert(self.entries() =~= before.push(entry@));
        Ok(())
    }

    /// Closes the registry, with the call frame table of the image if it has one.
    ///
    /// A registry is published once: a second call is refused and changes nothing.
    pub fn publish(&mut self, eh_frame: Option<FrameTable>) -> (res: Result<
        (),
        UnwindRegistrationError,
    >)
        ensures
            old(self).is_published() ==> {
                &&& res == Err::<(), _>(UnwindRegistrationError::AlreadyPublished)
                &&& *final(self) == *old(self)
            },
            !old(self).is_published() ==> {
                &&& res is Ok
                &&& final(self).is_published()
                &&& final(self).frame_table() == eh_frame
                &&& final(self).entries() == old(self).entries()
            },
    {
        if self.published {
            return Err(UnwindRegistrationError::AlreadyPublished);
        }
        self.eh_frame = eh_frame;
        self.published = true;
        Ok(())
    }

    /// The number of entries.
    pub fn len(&self) -> (n: usize)
        ensures
            n == self.entries().len(),
    {
        self.entries.len()
    }

    /// Whether the registry has been published.
    pub fn published(&self) -> (b: bool)
        ensures
            b == self.is_published(),
    {
        self.published
    }

    /// The call frame table that the registry was published with.
    pub fn eh_frame(&self) -> (table: Option<FrameTable>)
        ensures
            table == self.frame_table(),
    {
        self.eh_frame
    }

    /// The address of the function of entry `i`, if there is such an entry.
    pub fn address(&self, i: usize) -> (address: Option<usize>)
        ensures
            match address {
                Some(address) => i < self.entries().len() && address
                    == self.entries()[i as int].address,
                None => i >= self.entries().len(),
            },
    {
        if i < self.entries.len() {
            Some(self.entries[i].address)
        } else {
            None
        }
    }

    /// The length of the code of the function of entry `i`, if there is
    /// such an entry.
    pub fn length(&self, i: usize) -> (length: Option<usize>)
        ensures
            match length {
                Some(length) => i < self.entries().len() && length
                    == self.entries()[i as int].length,
                None => i >= self.entries().len(),
            },
    {
        if i < self.entries.len() {
            Some(self.entries[i].length)
        } else {
            None
        }
    }

    /// The inline unwind table of the function of entry `i`, if there is
    /// such an entry.
    pub fn table(&self, i: usize) -> (table: Option<Vec<u8>>)
        ensures
            match table {
                Some(table) => i < self.entries().len() && table@ == self.entries()[i as int].table,
                None => i >= self.entries().len(),
            },
    {
        if i < self.entries.len() {
            Some(copy_bytes(self.entries[i].table.as_slice()))
        } else {
            None
        }
    }
}

} // verus!
