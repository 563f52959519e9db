//! Foreign objects, held as plain values.
//!
//! A [`JavaObject`] says what an object on the Java side holds: nothing, a
//! boxed primitive, a string, a `boolean[]`, a list, a tagged result or a
//! tuple. An object of which no more is known than that it is one is held
//! as the reference to it. Conversions are functions between native values
//! and these; the `runtime` module builds them in, and reads them from, a
//! live virtual machine.

use vstd::prelude::*;
use crate::error::Kind;
use crate::reference::Reference;
use crate::value::Primitive;

verus! {

/// What a foreign object holds.
#[derive(Debug, PartialEq, Eq)]
pub enum JavaObject<'env> {
    /// The null reference.
    Null,
    /// A boxed primitive, such as a `java.lang.Integer`.
    Boxed(Primitive),
    /// A `java.lang.String`.
    Text(String),
    /// A `boolean[]`, one `jboolean` per element.
    BooleanArray(Vec<u8>),
    /// A `java.util.ArrayList`, front to back.
    List(Vec<JavaObject<'env>>),
    /// A result object: the byte field `tag` and the object field `value`.
    Tagged { tag: i8, value: Box<JavaObject<'env>> },
    /// A tuple object: the fields `t0`, `t1`, ... in this order.
    Tuple(Vec<JavaObject<'env>>),
    /// An object that is passed through as it is: the reference to it.
    Reference(Reference<'env>),
}

/// The mathematical value of a [`JavaObject`].
pub enum ObjectModel<'env> {
    Null,
    Boxed(Primitive),
    Text(Seq<char>),
    BooleanArray(Seq<u8>),
    List(Seq<ObjectModel<'env>>),
    Tagged { tag: i8, value: Box<ObjectModel<'env>> },
    Tuple(Seq<ObjectModel<'env>>),
    Reference(Reference<'env>),
}

impl<'env> ObjectModel<'env> {
    /// The kind under which the object is reported in a mismatch.
    pub open spec fn kind(self) -> Kind {
        match self {
            ObjectModel::Null => Kind::Null,
            ObjectModel::Boxed(p) => p.primitive_kind_spec().kind_spec(),
            ObjectModel::Text(_) => Kind::Text,
            ObjectModel::BooleanArray(_) => Kind::BooleanArray,
            ObjectModel::List(_) => Kind::List,
            ObjectModel::Tagged { .. } => Kind::Tagged,
            ObjectModel::Tuple(_) => Kind::Tuple,
            ObjectModel::Reference(_) => Kind::Object,
        }
    }
}

/// The model of each object of a sequence, in the same order.
pub open spec fn models_of(items: Seq<JavaObject>) -> Seq<ObjectModel> {
    Seq::new(items.len(), |i: int| items[i]@)
}

/// The model of one object.
pub open spec fn model_of(o: JavaObject) -> ObjectModel
    decreases o,
{
    match o {
        JavaObject::Null => ObjectModel::Null,
        JavaObject::Boxed(p) => ObjectModel::Boxed(p),
        JavaObject::Text(s) => ObjectModel::Text(s@),
        JavaObject::BooleanArray(bits) => ObjectModel::BooleanArray(bits@),
        JavaObject::List(items) => ObjectModel::List(
            Seq::new(
                items@.len(),
                |i: int|
                    if 0 <= i < items@.len() {
                        model_of(items@[i])
                    } else {
                        ObjectModel::Null
                    },
            ),
        ),
        JavaObject::Tagged { tag, value } => ObjectModel::Tagged {
            tag,
            value: Box::new(model_of(*value)),
        },
        JavaObject::Tuple(items) => ObjectModel::Tuple(
            Seq::new(
                items@.len(),
                |i: int|
                    if 0 <= i < items@.len() {
                        model_of(items@[i])
                    } else {
                        ObjectModel::Null
                    },
            ),
        ),
        JavaObject::Reference(reference) => ObjectModel::Reference(reference),
    }
}

impl<'env> View for JavaObject<'env> {
    type V = ObjectModel<'env>;

    open spec fn view(&self) -> ObjectModel<'env> {
        model_of(*self)
    }
}

/// A list's model is the list of its items' models.
pub proof fn lemma_list_model(items: Vec<JavaObject>)
    ensures
        JavaObject::List(items)@ == ObjectModel::List(models_of(items@)),
{
    assert(JavaObject::List(items)@->List_0 =~= models_of(items@));
}

/// A tuple's model is the tuple of its fields' models.
pub proof fn lemma_tuple_model(items: Vec<JavaObject>)
    ensures
        JavaObject::Tuple(items)@ == ObjectModel::Tuple(models_of(items@)),
{
    assert(JavaObject::Tuple(items)@->Tuple_0 =~= models_of(items@));
}

impl<'env> JavaObject<'env> {
    /// The kind under which the object is reported in a mismatch.
    pub fn kind(&self) -> (k: Kind)
        ensures
            k == self@.kind(),
    {
        match self {
            JavaObject::Null => Kind::Null,
            JavaObject::Boxed(p) => p.primitive_kind().kind(),
            JavaObject::Text(_) => Kind::Text,
            JavaObject::BooleanArray(_) => Kind::BooleanArray,
            JavaObject::List(_) => Kind::List,
            JavaObject::Tagged { .. } => Kind::Tagged,
            JavaObject::Tuple(_) => Kind::Tuple,
            JavaObject::Reference(_) => Kind::Object,
        }
    }

    /// Whether this is the null reference.
    pub fn is_null(&self) -> (b: bool)
        ensures
            b == (self@ == ObjectModel::Null),
    {
        match self {
            JavaObject::Null => true,
            _ => false,
        }
    }
}

/// The items of `items` in the opposite order.
pub fn reversed<T>(items: Vec<T>) -> (out: Vec<T>)
    ensures
        out@ == items@.reverse(),
{
    let mut rest = items;
    let mut out: Vec<T> = Vec::new();
    while rest.len() > 0
        invariant
            rest@.len() + out@.len() == items@.len(),
            forall|j: int| 0 <= j < rest@.len() ==> rest@[j] == items@[j],
            forall|j: int| 0 <= j < out@.len() ==> out@[j] == items@[items@.len() - 1 - j],
        decreases rest@.len(),
    {
        match rest.pop() {
            Some(last) => out.push(last),
            None => {},
        }
    }
    assert(out@ =~= items@.reverse());
    out
}

} // verus!
