use vstd::prelude::*;

use vstd::bytes::{
    lemma_auto_spec_u64_to_from_le_bytes, spec_u64_to_le_bytes, u64_from_le_bytes,
    u64_to_le_bytes,
};
use vstd::utf8::{decode_utf8, encode_utf8, encode_utf8_decode_utf8, encode_utf8_valid_utf8, valid_utf8};
use vstd::string::StringSliceAdditionalSpecFns;

use crate::layout::{spec_storage_for, StorageKind, TypeDesc, INLINE_BYTES};

verus! {

/// A type registered for storage: it supplies its descriptor and the bytes
/// that stand for each of its values. The bytes determine the value: two
/// values with the same bytes have the same view.
pub trait Storable: Sized + View {
    /// The bytes that a cell holds for this value.
    spec fn image(&self) -> Seq<u8>;

    /// The type's descriptor.
    spec fn spec_descriptor() -> TypeDesc;

    /// The descriptor, at run time.
    fn descriptor() -> (d: TypeDesc)
        ensures
            d == Self::spec_descriptor(),
            d.sized,
    ;

    /// The value's bytes; they fit the inline word whenever the type is
    /// stored inline.
    fn to_image(&self) -> (r: Vec<u8>)
        ensures
            r@ == self.image(),
            spec_storage_for(Self::spec_descriptor()) == StorageKind::Inline ==> r@.len()
                <= INLINE_BYTES,
    ;

    /// The value whose bytes `image` holds.
    fn from_image(image: &[u8]) -> (r: Self)
        requires
            exists|v: Self| v.image() == image@,
        ensures
            r.image() == image@,
            forall|v: Self| #[trigger] v.image() == image@ ==> r@ == v@,
    ;

    /// Values with the same bytes have the same view.
    proof fn lemma_image_determines_view(a: &Self, b: &Self)
        requires
            a.image() == b.image(),
        ensures
            a@ == b@,
    ;
}

/// Bytes of a `String`: a pointer, a capacity and a length, on 64-bit
/// targets.
pub const STRING_SIZE: usize = 24;

/// Alignment of a `String` on 64-bit targets.
pub const STRING_ALIGN: usize = 8;

impl Storable for u64 {
    /// The eight little-endian bytes of the integer.
    open spec fn image(&self) -> Seq<u8> {
        spec_u64_to_le_bytes(*self)
    }

    open spec fn spec_descriptor() -> TypeDesc {
        TypeDesc {
            sized: true,
            size: 8,
            align: 8,
            hashable: true,
            comparable: true,
            has_drop: false,
        }
    }

    fn descriptor() -> (d: TypeDesc) {
        TypeDesc { sized: true, size: 8, align: 8, hashable: true, comparable: true, has_drop: false }
    }

    fn to_image(&self) -> (r: Vec<u8>) {
        u64_to_le_bytes(*self)
    }

    fn from_image(image: &[u8]) -> (r: u64) {
        proof {
            lemma_auto_spec_u64_to_from_le_bytes();
            let v = choose|v: u64| spec_u64_to_le_bytes(v) == image@;
            assert(spec_u64_to_le_bytes(v).len() == 8);
        }
        let r = u64_from_le_bytes(image);
        proof {
            assert forall|v: u64| #[trigger] v.image() == image@ implies r@ == v@ by {
                u64::lemma_image_determines_view(&r, &v);
            }
        }
        r
    }

    proof fn lemma_image_determines_view(a: &u64, b: &u64) {
        lemma_auto_spec_u64_to_from_le_bytes();
        assert(spec_u64_to_le_bytes(*a) == spec_u64_to_le_bytes(*b));
    }
}

/// Relies on `String::from_utf8`: valid UTF-8 becomes the string it encodes;
/// anything else is refused.
#[verifier::external_body]
fn string_from_utf8(bytes: Vec<u8>) -> (r: Option<String>)
    ensures
        r is Some <==> valid_utf8(bytes@),
        r matches Some(s) ==> s@ == decode_utf8(bytes@),
{
    String::from_utf8(bytes).ok()
}

impl Storable for String {
    /// The UTF-8 encoding of the characters.
    open spec fn image(&self) -> Seq<u8> {
        encode_utf8(self@)
    }

    open spec fn spec_descriptor() -> TypeDesc {
        TypeDesc {
            sized: true,
            size: STRING_SIZE,
            align: STRING_ALIGN,
            hashable: true,
            comparable: true,
            has_drop: true,
        }
    }

    fn descriptor() -> (d: TypeDesc) {
        TypeDesc {
            sized: true,
            size: STRING_SIZE,
            align: STRING_ALIGN,
            hashable: true,
            comparable: true,
            has_drop: true,
        }
    }

    fn to_image(&self) -> (r: Vec<u8>) {
        let bytes = self.as_str().as_bytes();
        let mut out: Vec<u8> = Vec::with_capacity(bytes.len());
        let mut i: usize = 0;
        while i < bytes.len()
            invariant
                i <= bytes@.len(),
                out@ == bytes@.subrange(0, i as int),
            decreases bytes@.len() - i,
        {
            out.push(bytes[i]);
            i = i + 1;
            assert(out@ =~= bytes@.subrange(0, i as int));
        }
        assert(out@ =~= bytes@);
        out
    }

    fn from_image(image: &[u8]) -> (r: String) {
        proof {
            let v = choose|v: String| encode_utf8(v@) == image@;
            encode_utf8_valid_utf8(v@);
            encode_utf8_decode_utf8(v@);
        }
        let mut bytes: Vec<u8> = Vec::with_capacity(image.len());
        let mut i: usize = 0;
        while i < image.len()
            invariant
                i <= image@.len(),
                bytes@ == image@.subrange(0, i as int),
            decreases image@.len() - i,
        {
            bytes.push(image[i]);
            i = i + 1;
            assert(bytes@ =~= image@.subrange(0, i as int));
        }
        assert(bytes@ =~= image@);
        let r = string_from_utf8(bytes).unwrap();
        proof {
            assert forall|v: String| #[trigger] v.image() == image@ implies r@ == v@ by {
                String::lemma_image_determines_view(&r, &v);
            }
        }
        r
    }

    proof fn lemma_image_determines_view(a: &String, b: &String) {
        encode_utf8_decode_utf8(a@);
        encode_utf8_decode_utf8(b@);
    }
}

} // verus!
