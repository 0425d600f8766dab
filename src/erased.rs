use vstd::prelude::*;

use crate::layout::{spec_storage_for, storage_for, StorageKind, TypeDesc, INLINE_BYTES};
use crate::storable::Storable;

verus! {

/// How many bytes of the word an inline slot uses. `write` never records a
/// length above the word; reads clamp to it all the same, so that a cell
/// needs no invariant of its own.
pub open spec fn inline_len(len: usize) -> usize {
    if len <= INLINE_BYTES {
        len
    } else {
        INLINE_BYTES
    }
}

/// The two places a cell can keep its value's bytes.
enum Slot {
    /// The first `len` bytes of the word hold the value.
    Inline { word: [u8; 8], len: usize },
    /// An owned heap allocation holds the value.
    Boxed(Vec<u8>),
}

impl Slot {
    spec fn kind(&self) -> StorageKind {
        match self {
            Slot::Inline { .. } => StorageKind::Inline,
            Slot::Boxed(_) => StorageKind::Boxed,
        }
    }

    spec fn bytes(&self) -> Seq<u8> {
        match self {
            Slot::Inline { word, len } => word@.subrange(0, inline_len(*len) as int),
            Slot::Boxed(v) => v@,
        }
    }

    spec fn wf(&self) -> bool {
        match self {
            Slot::Inline { len, .. } => *len <= INLINE_BYTES,
            Slot::Boxed(_) => true,
        }
    }

    /// Moves `image` into an empty slot.
    fn filled(self, image: &[u8]) -> (r: Slot)
        requires
            self.wf(),
            self.bytes().len() == 0,
            self.kind() == StorageKind::Inline ==> image@.len() <= INLINE_BYTES,
        ensures
            r.wf(),
            r.kind() == self.kind(),
            r.bytes() == image@,
    {
        let n = image.len();
        match self {
            Slot::Inline { word, len: _ } => {
                let mut word = word;
                let mut i: usize = 0;
                while i < n
                    invariant
                        n == image@.len(),
                        n <= INLINE_BYTES,
                        i <= n,
                        word@.len() == INLINE_BYTES,
                        forall|j: int| 0 <= j < i ==> word@[j] == image@[j],
                    decreases n - i,
                {
                    word[i] = image[i];
                    i = i + 1;
                }
                assert(word@.subrange(0, n as int) =~= image@);
                Slot::Inline { word, len: n }
            },
            Slot::Boxed(v) => {
                let mut v = v;
                let mut i: usize = 0;
                while i < n
                    invariant
                        n == image@.len(),
                        i <= n,
                        v@ == image@.subrange(0, i as int),
                    decreases n - i,
                {
                    v.push(image[i]);
                    i = i + 1;
                    assert(v@ =~= image@.subrange(0, i as int));
                }
                assert(v@ =~= image@);
                Slot::Boxed(v)
            },
        }
    }

    fn bytes_ref(&self) -> (r: &[u8])
        ensures
            r@ == self.bytes(),
    {
        match self {
            Slot::Inline { word, len } => {
                let n = if *len <= INLINE_BYTES { *len } else { INLINE_BYTES };
                word.as_slice().split_at(n).0
            },
            Slot::Boxed(v) => v.as_slice(),
        }
    }

    fn bytes_mut(&mut self) -> (r: &mut [u8])
        ensures
            r@ == old(self).bytes(),
            final(self).kind() == old(self).kind(),
            final(self).bytes() == final(r)@,
    {
        match self {
            Slot::Inline { word, len } => {
                let n = if *len <= INLINE_BYTES { *len } else { INLINE_BYTES };
                let whole: &mut [u8] = word;
                whole.split_at_mut(n).0
            },
            Slot::Boxed(v) => v.as_mut_slice(),
        }
    }
}

/// A storage cell whose layout has been chosen but that may not hold a
/// value yet.
pub struct ErasedUninit {
    slot: Slot,
    init: bool,
}

impl ErasedUninit {
    #[verifier::type_invariant]
    spec fn inv(&self) -> bool {
        &&& self.slot.wf()
        &&& !self.init ==> self.slot.bytes().len() == 0
    }

    /// Where the cell keeps its bytes.
    pub closed spec fn kind(&self) -> StorageKind {
        self.slot.kind()
    }

    /// Whether a value has been written.
    pub closed spec fn is_init(&self) -> bool {
        self.init
    }

    /// Moves the bytes of a value into the cell's selected storage.
    pub fn write(&mut self, image: &[u8])
        requires
            !old(self).is_init(),
            old(self).kind() == StorageKind::Inline ==> image@.len() <= INLINE_BYTES,
        ensures
            final(self).is_init(),
            final(self).kind() == old(self).kind(),
            final(self)@ == image@,
    {
        proof {
            use_type_invariant(&*self);
        }
        let mut slot = Slot::Boxed(Vec::new());
        core::mem::swap(&mut slot, &mut self.slot);
        *self = ErasedUninit { slot: slot.filled(image), init: true };
    }

    /// Turns a written cell into an initialized one.
    pub fn assume_init(self) -> (r: Erased)
        requires
            self.is_init(),
        ensures
            r@ == self@,
            r.kind() == self.kind(),
    {
        proof {
            use_type_invariant(&self);
        }
        Erased { slot: self.slot }
    }
}

impl View for ErasedUninit {
    type V = Seq<u8>;

    /// The bytes written so far (none before `write`).
    closed spec fn view(&self) -> Seq<u8> {
        self.slot.bytes()
    }
}

/// An initialized storage cell: owns the bytes of exactly one value of a type
/// it knows only through the descriptor it was created with.
pub struct Erased {
    slot: Slot,
}

/// The account of destroying one cell. A cell holds plain bytes, so no
/// user code runs and nothing is freed by the routine itself: it records the
/// steps that the type's descriptor calls for, and the bytes (and the heap
/// block of a boxed cell) go when the cell itself is dropped.
#[derive(Clone, Copy, Debug, PartialEq, Eq, Structural)]
pub struct Dropped {
    /// The descriptor calls for a destructor run on the value.
    pub destructor_ran: bool,
    /// The cell's value sits in a heap block, to be released.
    pub heap_released: bool,
}

/// The destruction routine for cells of one type (see [`Dropped`] for what
/// it records).
#[derive(Clone, Copy, Debug, PartialEq, Eq, Structural)]
pub struct DropFn {
    pub run_destructor: bool,
}

impl DropFn {
    /// Destroys one cell in place: a destructor run if the type has one, and
    /// a heap release if the value is boxed.
    pub fn call(&self, cell: &Erased) -> (r: Dropped)
        ensures
            r.destructor_ran == self.run_destructor,
            r.heap_released == (cell.kind() == StorageKind::Boxed),
        opens_invariants none
        no_unwind
    {
        let heap_released = match &cell.slot {
            Slot::Inline { .. } => false,
            Slot::Boxed(_) => true,
        };
        Dropped { destructor_ran: self.run_destructor, heap_released }
    }
}

impl Erased {
    /// The storage kind of the cell.
    pub closed spec fn kind(&self) -> StorageKind {
        self.slot.kind()
    }

    /// Creates an empty cell laid out for the described type: a heap
    /// allocation of the type's size when the value is boxed, none when it is
    /// inline.
    pub fn uninit(desc: &TypeDesc) -> (r: ErasedUninit)
        requires
            desc.sized,
        ensures
            r.kind() == spec_storage_for(*desc),
            !r.is_init(),
            r@.len() == 0,
    {
        match storage_for(desc) {
            StorageKind::Inline => ErasedUninit {
                slot: Slot::Inline { word: [0u8; 8], len: 0 },
                init: false,
            },
            StorageKind::Boxed => ErasedUninit {
                slot: Slot::Boxed(Vec::with_capacity(desc.size)),
                init: false,
            },
        }
    }

    /// Creates a cell holding the bytes of `value`, laid out by its type's
    /// descriptor. The value itself is consumed here: from now on the cell's
    /// bytes stand for it.
    pub fn new<T: Storable>(value: T) -> (r: Erased)
        ensures
            r@ == value.image(),
            r.kind() == spec_storage_for(T::spec_descriptor()),
    {
        let desc = T::descriptor();
        let image = value.to_image();
        Erased::from_image(&desc, image.as_slice())
    }

    /// Creates a cell for the described type holding the given bytes.
    pub fn from_image(desc: &TypeDesc, image: &[u8]) -> (r: Erased)
        requires
            desc.sized,
            spec_storage_for(*desc) == StorageKind::Inline ==> image@.len() <= INLINE_BYTES,
        ensures
            r@ == image@,
            r.kind() == spec_storage_for(*desc),
    {
        let mut uninit = Erased::uninit(desc);
        uninit.write(image);
        uninit.assume_init()
    }

    /// The routine that destroys cells of the described type, or `None` when
    /// there is nothing to do: an inline value of a type without destructor.
    pub fn drop_fn(desc: &TypeDesc) -> (r: Option<DropFn>)
        requires
            desc.sized,
        ensures
            r is None <==> (spec_storage_for(*desc) == StorageKind::Inline && !desc.has_drop),
            r matches Some(f) ==> f.run_destructor == desc.has_drop,
        opens_invariants none
        no_unwind
    {
        match storage_for(desc) {
            StorageKind::Inline => {
                if desc.has_drop {
                    Some(DropFn { run_destructor: true })
                } else {
                    None
                }
            },
            StorageKind::Boxed => Some(DropFn { run_destructor: desc.has_drop }),
        }
    }

    /// A read-only view of the stored bytes.
    pub fn as_ptr(&self) -> (r: &[u8])
        ensures
            r@ == self@,
    {
        self.slot.bytes_ref()
    }

    /// A read-write view of the stored bytes; what is written through it is
    /// what the cell then holds.
    pub fn as_mut_ptr(&mut self) -> (r: &mut [u8])
        ensures
            r@ == old(self)@,
            final(self)@ == final(r)@,
            final(self).kind() == old(self).kind(),
    {
        self.slot.bytes_mut()
    }

    /// Reads the stored value back as a `T`, giving up the cell.
    pub fn into_typed<T: Storable>(self) -> (r: T)
        requires
            exists|v: T| v.image() == self@,
        ensures
            r.image() == self@,
            forall|v: T| #[trigger] v.image() == self@ ==> r@ == v@,
    {
        T::from_image(self.as_ptr())
    }

    /// Hands the stored bytes back, giving up the cell.
    pub fn into_image(self) -> (r: Vec<u8>)
        ensures
            r@ == self@,
    {
        match self.slot {
            Slot::Inline { word, len } => {
                let n = if len <= INLINE_BYTES { len } else { INLINE_BYTES };
                let mut out: Vec<u8> = Vec::with_capacity(n);
                let mut i: usize = 0;
                while i < n
                    invariant
                        n == inline_len(len),
                        word@.len() == INLINE_BYTES,
                        i <= n,
                        out@ == word@.subrange(0, i as int),
                    decreases n - i,
                {
                    out.push(word[i]);
                    i = i + 1;
                    assert(out@ =~= word@.subrange(0, i as int));
                }
                out
            },
            Slot::Boxed(v) => v,
        }
    }
}

impl View for Erased {
    type V = Seq<u8>;

    /// The bytes of the stored value.
    closed spec fn view(&self) -> Seq<u8> {
        self.slot.bytes()
    }
}

} // verus!
