//! The shape of an object: what has to be read from the virtual machine to
//! know what the object holds.

use vstd::prelude::*;
use crate::object::ObjectModel;
use crate::value::PrimitiveKind;

verus! {

/// What kind of object stands behind a reference, as far as a conversion
/// needs to know it.
#[derive(Debug, PartialEq, Eq)]
pub enum Shape {
    /// Any object. Nothing is known of it, so nothing is read from it: it is
    /// passed through as the reference to it.
    Opaque,
    /// The box of a primitive of the given kind.
    Boxed(PrimitiveKind),
    /// A string.
    Text,
    /// A `boolean[]`.
    BooleanArray,
    /// A list whose elements all have one shape.
    List(Box<Shape>),
    /// The null reference, or an object of the given shape.
    Nullable(Box<Shape>),
    /// A result object: the shape of the payload under tag 0, then the shape
    /// of the payload under tag 1.
    Tagged(Box<Shape>, Box<Shape>),
    /// A tuple object with the given parts.
    Tuple(Box<Parts>),
}

/// The shapes of the parts of a tuple, in position order.
#[derive(Debug, PartialEq, Eq)]
pub enum Parts {
    End,
    Part(Box<Shape>, Box<Parts>),
}

impl Parts {
    /// The number of parts.
    pub open spec fn len(self) -> nat
        decreases self,
    {
        match self {
            Parts::End => 0,
            Parts::Part(_, rest) => 1 + rest.len(),
        }
    }
}

/// Whether an object has a shape.
pub open spec fn conforms(o: ObjectModel, shape: Shape) -> bool
    decreases shape, 0nat,
{
    match shape {
        Shape::Opaque => true,
        Shape::Boxed(kind) => o matches ObjectModel::Boxed(p) && p.primitive_kind_spec() == kind,
        Shape::Text => o is Text,
        Shape::BooleanArray => o is BooleanArray,
        Shape::List(element) => o matches ObjectModel::List(items) && forall|i: int|
            0 <= i < items.len() ==> conforms(#[trigger] items[i], *element),
        Shape::Nullable(inner) => o is Null || conforms(o, *inner),
        Shape::Tagged(ok, err) => o matches ObjectModel::Tagged { tag, value } && ((tag == 0
            && conforms(*value, *ok)) || (tag == 1 && conforms(*value, *err))),
        Shape::Tuple(parts) => o matches ObjectModel::Tuple(items) && conform_from(
            items,
            *parts,
            0,
        ),
    }
}

/// Whether the objects from position `from` on have the shapes of the parts,
/// one object for each part.
pub open spec fn conform_from(items: Seq<ObjectModel>, parts: Parts, from: int) -> bool
    decreases parts, 1nat,
{
    match parts {
        Parts::End => items.len() == from,
        Parts::Part(shape, rest) => 0 <= from < items.len() && conforms(items[from], *shape)
            && conform_from(items, *rest, from + 1),
    }
}

/// No part is left where no object is left.
pub proof fn lemma_conform_end(items: Seq<ObjectModel>)
    ensures
        conform_from(items, Parts::End, items.len() as int),
{
}

/// An object of the first part's shape, followed by objects of the other
/// parts' shapes, has the shapes of all the parts.
pub proof fn lemma_conform_part(items: Seq<ObjectModel>, shape: Shape, rest: Parts, from: int)
    requires
        0 <= from < items.len(),
        conforms(items[from], shape),
        conform_from(items, rest, from + 1),
    ensures
        conform_from(items, Parts::Part(Box::new(shape), Box::new(rest)), from),
{
}

/// A tuple whose fields have the shapes of the parts has the shape of the
/// tuple.
pub proof fn lemma_conforms_tuple(items: Seq<ObjectModel>, parts: Parts)
    requires
        conform_from(items, parts, 0),
    ensures
        conforms(ObjectModel::Tuple(items), Shape::Tuple(Box::new(parts))),
{
}

/// A tuple of the shape of a tuple has fields of the shapes of the parts.
pub proof fn lemma_tuple_parts(items: Seq<ObjectModel>, parts: Parts)
    requires
        conforms(ObjectModel::Tuple(items), Shape::Tuple(Box::new(parts))),
    ensures
        conform_from(items, parts, 0),
{
}

/// Where objects have the shapes of parts, the first object has the shape
/// of the first part and the others have the shapes of the other parts.
pub proof fn lemma_conform_split(items: Seq<ObjectModel>, shape: Shape, rest: Parts, from: int)
    requires
        conform_from(items, Parts::Part(Box::new(shape), Box::new(rest)), from),
    ensures
        0 <= from < items.len(),
        conforms(items[from], shape),
        conform_from(items, rest, from + 1),
{
}

/// Where no part is left, no object is left.
pub proof fn lemma_conform_done(items: Seq<ObjectModel>, from: int)
    requires
        conform_from(items, Parts::End, from),
    ensures
        items.len() == from,
{
}

} // verus!
