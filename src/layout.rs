use vstd::prelude::*;

verus! {

/// Bytes held inline by a storage cell: one 64-bit machine word.
pub const INLINE_BYTES: usize = 8;

/// Largest alignment that the inline word satisfies.
pub const INLINE_ALIGN: usize = 8;

/// Runtime description of a stored type: its layout and which of the three
/// capabilities (hash, equality, destruction) it supplies.
#[derive(Clone, Copy, Debug, PartialEq, Eq, Structural)]
pub struct TypeDesc {
    /// False for a dynamically sized type, which this engine rejects.
    pub sized: bool,
    pub size: usize,
    pub align: usize,
    pub hashable: bool,
    pub comparable: bool,
    pub has_drop: bool,
}

/// Where a cell keeps the bytes of its value.
#[derive(Clone, Copy, Debug, PartialEq, Eq, Structural)]
pub enum StorageKind {
    /// Inside the cell's own word.
    Inline,
    /// In a separate heap allocation that the cell owns.
    Boxed,
}

impl TypeDesc {
    /// A type can be used as a map key when it supplies hash and equality.
    pub open spec fn is_key_type(self) -> bool {
        self.sized && self.hashable && self.comparable
    }
}

/// The layout decision: a sized value that fits in one word, at no stricter
/// alignment than the word's, lives inline; everything else is boxed.
pub open spec fn spec_storage_for(d: TypeDesc) -> StorageKind {
    if d.sized && d.size <= INLINE_BYTES && d.align <= INLINE_ALIGN {
        StorageKind::Inline
    } else {
        StorageKind::Boxed
    }
}

/// Computes the layout decision for a descriptor.
pub fn storage_for(d: &TypeDesc) -> (r: StorageKind)
    ensures
        r == spec_storage_for(*d),
    opens_invariants none
    no_unwind
{
    if d.sized && d.size <= INLINE_BYTES && d.align <= INLINE_ALIGN {
        StorageKind::Inline
    } else {
        StorageKind::Boxed
    }
}

} // verus!
