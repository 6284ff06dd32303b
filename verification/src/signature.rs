//! The table of function signatures that all artifacts of an engine share.
//!
//! A signature is interned once: signatures that are structurally the same
//! get the same index, whichever artifact declares them, and an index that
//! has been handed out never changes its meaning.

use crate::module::{FunctionType, Signature};
use vstd::prelude::*;

verus! {

/// The index of a signature in the table of an engine.
#[derive(Clone, Copy, Debug, PartialEq, Eq, Structural)]
pub struct VMSharedSignatureIndex(pub usize);

/// The index of the first entry of `table` that is `sig`; the length of the
/// table where no entry is.
pub open spec fn position(table: Seq<Signature>, sig: Signature) -> int
    decreases table.len(),
{
    if table.len() == 0 {
        0
    } else {
        let before = position(table.drop_last(), sig);
        if before < table.len() - 1 {
            before
        } else if table.last() == sig {
            table.len() - 1
        } else {
            table.len() as int
        }
    }
}

/// The position of a signature lies within the table or just behind it; the
/// entry there, if there is one, is the signature, and no entry before it is.
pub proof fn lemma_position(table: Seq<Signature>, sig: Signature)
    ensures
        0 <= position(table, sig) <= table.len(),
        position(table, sig) < table.len() ==> table[position(table, sig)] == sig,
        forall|k: int| 0 <= k < position(table, sig) ==> table[k] != sig,
    decreases table.len(),
{
    if table.len() > 0 {
        lemma_position(table.drop_last(), sig);
        assert forall|k: int| 0 <= k < position(table, sig) implies table[k] != sig by {
            if k < table.len() - 1 {
                assert(table.drop_last()[k] == table[k]);
            }
        }
    }
}

/// The position of a signature is the first index at which it stands.
pub proof fn lemma_position_is(table: Seq<Signature>, sig: Signature, i: int)
    requires
        0 <= i <= table.len(),
        forall|k: int| 0 <= k < i ==> table[k] != sig,
        i < table.len() ==> table[i] == sig,
    ensures
        position(table, sig) == i,
{
    lemma_position(table, sig);
}

/// Interning is stable. A signature that is in the table keeps its index
/// when another is added, and a signature that has just been added is found
/// at the index that it was given.
pub proof fn lemma_interning_is_stable(table: Seq<Signature>, added: Signature, sig: Signature)
    ensures
        position(table, sig) < table.len() ==> position(table.push(added), sig) == position(
            table,
            sig,
        ),
        position(table.push(sig), sig) == position(table, sig),
{
    lemma_position(table, sig);
    assert(table.push(added).drop_last() =~= table);
    assert(table.push(sig).drop_last() =~= table);
}

/// The table of the signatures that have been interned.
#[derive(Debug)]
pub struct SignatureRegistry {
    signatures: Vec<FunctionType>,
}

impl SignatureRegistry {
    /// The signatures, each at its index.
    pub closed spec fn table(&self) -> Seq<Signature> {
        self.signatures@.map_values(|s: FunctionType| s@)
    }

    /// An empty table.
    pub fn new() -> (registry: Self)
        ensures
            registry.table() == Seq::<Signature>::empty(),
    {
        let registry = SignatureRegistry { signatures: Vec::new() };
        assert(registry.table() =~= Seq::<Signature>::empty());
        registry
    }

    /// The number of signatures in the table.
    pub fn len(&self) -> (len: usize)
        ensures
            len == self.table().len(),
    {
        self.signatures.len()
    }

    /// Interns `sig`: gives the index of the signature in the table, and
    /// adds it at the end where the table does not hold it yet.
    pub fn register(&mut self, sig: &FunctionType) -> (index: VMSharedSignatureIndex)
        ensures
            index.0 == position(old(self).table(), sig@),
            final(self).table() == if index.0 < old(self).table().len() {
                old(self).table()
            } else {
                old(self).table().push(sig@)
            },
            old(self).table().no_duplicates() ==> final(self).table().no_duplicates(),
    {
        let ghost table = self.table();
        let mut i: usize = 0;
        while i < self.signatures.len()
            invariant
                i <= self.signatures.len(),
                self.table() == table,
                *self == *old(self),
                forall|k: int| 0 <= k < i ==> table[k] != sig@,
            decreases self.signatures.len() - i,
        {
            if self.signatures[i].same_as(sig) {
                proof {
                    lemma_position_is(table, sig@, i as int);
                }
                return VMSharedSignatureIndex(i);
            }
            i = i + 1;
        }
        proof {
            lemma_position_is(table, sig@, i as int);
        }
        self.signatures.push(sig.duplicate());
        assert(self.table() =~= table.push(sig@));
        VMSharedSignatureIndex(i)
    }

    /// The signature at `index`, if the table holds one there.
    pub fn lookup(&self, index: VMSharedSignatureIndex) -> (sig: Option<FunctionType>)
        ensures
            match sig {
                Some(sig) => index.0 < self.table().len() && sig@ == self.table()[index.0 as int],
                None => index.0 >= self.table().len(),
            },
    {
        if index.0 < self.signatures.len() {
            Some(self.signatures[index.0].duplicate())
        } else {
            None
        }
    }
}

/// The indices of `signatures` in `table`, where each is taken to be added
/// to the table if it is not there: the first is looked up in `table`, the
/// next in what the first left, and so on.
pub open spec fn interned_indices(table: Seq<Signature>, signatures: Seq<Signature>) -> Seq<
    VMSharedSignatureIndex,
>
    decreases signatures.len(),
{
    if signatures.len() == 0 {
        Seq::empty()
    } else {
        interned_indices(table, signatures.drop_last()).push(
            VMSharedSignatureIndex(
                position(
                    interned_table(table, signatures.drop_last()),
                    signatures.last(),
                ) as usize,
            ),
        )
    }
}

/// `table` after each of `signatures` has been interned in turn.
pub open spec fn interned_table(table: Seq<Signature>, signatures: Seq<Signature>) -> Seq<
    Signature,
>
    decreases signatures.len(),
{
    if signatures.len() == 0 {
        table
    } else {
        let before = interned_table(table, signatures.drop_last());
        if position(before, signatures.last()) < before.len() {
            before
        } else {
            before.push(signatures.last())
        }
    }
}

impl SignatureRegistry {
    /// Interns every signature of `signatures`, in order.
    pub fn register_all(&mut self, signatures: &Vec<FunctionType>) -> (indices: Vec<
        VMSharedSignatureIndex,
    >)
        ensures
            indices@ == interned_indices(
                old(self).table(),
                signatures@.map_values(|s: FunctionType| s@),
            ),
            final(self).table() == interned_table(
                old(self).table(),
                signatures@.map_values(|s: FunctionType| s@),
            ),
    {
        let ghost table = self.table();
        let ghost declared = signatures@.map_values(|s: FunctionType| s@);
        let mut indices: Vec<VMSharedSignatureIndex> = Vec::new();
        let mut i: usize = 0;
        while i < signatures.len()
            invariant
                i <= signatures.len(),
                declared == signatures@.map_values(|s: FunctionType| s@),
                indices@ == interned_indices(table, declared.take(i as int)),
                self.table() == interned_table(table, declared.take(i as int)),
            decreases signatures.len() - i,
        {
            proof {
                assert(declared.take(i + 1).drop_last() =~= declared.take(i as int));
                assert(declared.take(i + 1).last() == signatures@[i as int]@);
                lemma_position(self.table(), signatures@[i as int]@);
            }
            let index = self.register(&signatures[i]);
            indices.push(index);
            i = i + 1;
        }
        assert(declared.take(i as int) =~= declared);
        indices
    }
}

} // verus!
