use vstd::prelude::*;

use facet::Shape;

use crate::layout::TypeDesc;

verus! {

#[verifier::external_type_specification]
#[verifier::external_body]
pub struct ExShape(Shape);

/// Relies on facet's `Shape::layout` and std's `Layout`: the size and the
/// alignment (never zero) of a sized type, `None` for an unsized one.
#[verifier::external_body]
fn shape_layout(shape: &Shape) -> (r: Option<(usize, usize)>)
    ensures
        r matches Some(l) ==> l.1 >= 1,
{
    match shape.layout {
        facet::ShapeLayout::Sized(layout) => Some((layout.size(), layout.align())),
        facet::ShapeLayout::Unsized => None,
    }
}

/// Relies on facet's `VTableErased::has_hash`: whether the type supplies a
/// hash routine.
#[verifier::external_body]
fn shape_has_hash(shape: &Shape) -> (r: bool) {
    shape.vtable.has_hash()
}

/// Relies on facet's `VTableErased::has_partial_eq`: whether the type
/// supplies an equality routine.
#[verifier::external_body]
fn shape_has_partial_eq(shape: &Shape) -> (r: bool) {
    shape.vtable.has_partial_eq()
}

/// Relies on facet's `Shape::marker_traits`: whether the type implements
/// `Copy`, and so has no destructor.
#[verifier::external_body]
fn shape_is_copy(shape: &Shape) -> (r: bool) {
    shape.marker_traits.contains(facet::MarkerTraits::COPY)
}

impl TypeDesc {
    /// Assembles a descriptor from a layout (`None` for an unsized type)
    /// and the three capabilities.
    pub fn from_parts(
        layout: Option<(usize, usize)>,
        hashable: bool,
        comparable: bool,
        has_drop: bool,
    ) -> (r: TypeDesc)
        ensures
            r.sized == (layout is Some),
            layout matches Some(l) ==> r.size == l.0 && r.align == l.1,
            layout is None ==> r.size == 0 && r.align == 1,
            r.hashable == hashable,
            r.comparable == comparable,
            r.has_drop == has_drop,
    {
        match layout {
            Some((size, align)) => TypeDesc { sized: true, size, align, hashable, comparable, has_drop },
            None => TypeDesc { sized: false, size: 0, align: 1, hashable, comparable, has_drop },
        }
    }

    /// The descriptor of the type a facet `Shape` describes. A `Copy` type
    /// has no destructor; any other type is taken to have one.
    pub fn from_shape(shape: &Shape) -> (r: TypeDesc)
        ensures
            r.align >= 1,
    {
        let layout = shape_layout(shape);
        TypeDesc::from_parts(
            layout,
            shape_has_hash(shape),
            shape_has_partial_eq(shape),
            !shape_is_copy(shape),
        )
    }
}

} // verus!
