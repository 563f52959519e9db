//! Primitive values and the envelope that carries one value of any kind
//! across the boundary.

use vstd::prelude::*;
use crate::error::Kind;

verus! {

/// A Java `float`, held by its IEEE 754 bit pattern.
#[derive(Clone, Copy, Debug, PartialEq, Eq, Structural)]
pub struct JFloat {
    pub bits: u32,
}

/// A Java `double`, held by its IEEE 754 bit pattern.
#[derive(Clone, Copy, Debug, PartialEq, Eq, Structural)]
pub struct JDouble {
    pub bits: u64,
}

/// The eight kinds of primitive value.
#[derive(Clone, Copy, Debug, PartialEq, Eq, Structural)]
pub enum PrimitiveKind {
    Boolean,
    Byte,
    Char,
    Double,
    Float,
    Int,
    Long,
    Short,
}

impl PrimitiveKind {
    /// The kind under which a value of this primitive kind is reported.
    pub open spec fn kind_spec(self) -> Kind {
        match self {
            PrimitiveKind::Boolean => Kind::Bool,
            PrimitiveKind::Byte => Kind::Byte,
            PrimitiveKind::Char => Kind::Char,
            PrimitiveKind::Double => Kind::Double,
            PrimitiveKind::Float => Kind::Float,
            PrimitiveKind::Int => Kind::Int,
            PrimitiveKind::Long => Kind::Long,
            PrimitiveKind::Short => Kind::Short,
        }
    }

    pub fn kind(self) -> (k: Kind)
        ensures
            k == self.kind_spec(),
    {
        match self {
            PrimitiveKind::Boolean => Kind::Bool,
            PrimitiveKind::Byte => Kind::Byte,
            PrimitiveKind::Char => Kind::Char,
            PrimitiveKind::Double => Kind::Double,
            PrimitiveKind::Float => Kind::Float,
            PrimitiveKind::Int => Kind::Int,
            PrimitiveKind::Long => Kind::Long,
            PrimitiveKind::Short => Kind::Short,
        }
    }
}

/// One primitive value with its kind.
#[derive(Clone, Copy, Debug, PartialEq, Eq, Structural)]
pub enum Primitive {
    Boolean(u8),
    Byte(i8),
    Char(u16),
    Double(JDouble),
    Float(JFloat),
    Int(i32),
    Long(i64),
    Short(i16),
}

impl Primitive {
    pub open spec fn primitive_kind_spec(self) -> PrimitiveKind {
        match self {
            Primitive::Boolean(_) => PrimitiveKind::Boolean,
            Primitive::Byte(_) => PrimitiveKind::Byte,
            Primitive::Char(_) => PrimitiveKind::Char,
            Primitive::Double(_) => PrimitiveKind::Double,
            Primitive::Float(_) => PrimitiveKind::Float,
            Primitive::Int(_) => PrimitiveKind::Int,
            Primitive::Long(_) => PrimitiveKind::Long,
            Primitive::Short(_) => PrimitiveKind::Short,
        }
    }

    pub fn primitive_kind(self) -> (k: PrimitiveKind)
        ensures
            k == self.primitive_kind_spec(),
    {
        match self {
            Primitive::Boolean(_) => PrimitiveKind::Boolean,
            Primitive::Byte(_) => PrimitiveKind::Byte,
            Primitive::Char(_) => PrimitiveKind::Char,
            Primitive::Double(_) => PrimitiveKind::Double,
            Primitive::Float(_) => PrimitiveKind::Float,
            Primitive::Int(_) => PrimitiveKind::Int,
            Primitive::Long(_) => PrimitiveKind::Long,
            Primitive::Short(_) => PrimitiveKind::Short,
        }
    }
}

/// A value of any one kind: a primitive, a reference to an object, or the
/// absence of a value. `O` is the form in which objects are referred to.
#[derive(Debug)]
pub enum Envelope<O> {
    Object(O),
    Byte(i8),
    Char(u16),
    Short(i16),
    Int(i32),
    Long(i64),
    Bool(u8),
    Float(JFloat),
    Double(JDouble),
    Void,
}

impl<O> Envelope<O> {
    /// The kind recorded when the value was made.
    pub open spec fn kind_spec(self) -> Kind {
        match self {
            Envelope::Object(_) => Kind::Object,
            Envelope::Byte(_) => Kind::Byte,
            Envelope::Char(_) => Kind::Char,
            Envelope::Short(_) => Kind::Short,
            Envelope::Int(_) => Kind::Int,
            Envelope::Long(_) => Kind::Long,
            Envelope::Bool(_) => Kind::Bool,
            Envelope::Float(_) => Kind::Float,
            Envelope::Double(_) => Kind::Double,
            Envelope::Void => Kind::Void,
        }
    }

    pub fn kind(&self) -> (k: Kind)
        ensures
            k == self.kind_spec(),
    {
        match self {
            Envelope::Object(_) => Kind::Object,
            Envelope::Byte(_) => Kind::Byte,
            Envelope::Char(_) => Kind::Char,
            Envelope::Short(_) => Kind::Short,
            Envelope::Int(_) => Kind::Int,
            Envelope::Long(_) => Kind::Long,
            Envelope::Bool(_) => Kind::Bool,
            Envelope::Float(_) => Kind::Float,
            Envelope::Double(_) => Kind::Double,
            Envelope::Void => Kind::Void,
        }
    }

    /// The name of the value's kind.
    pub fn kind_name(&self) -> (s: &'static str)
        ensures
            s@ == self.kind_spec().name_spec(),
    {
        self.kind().name()
    }

    /// The primitive that the value holds, if it holds one.
    pub open spec fn primitive_spec(self) -> Option<Primitive> {
        match self {
            Envelope::Object(_) => None,
            Envelope::Byte(v) => Some(Primitive::Byte(v)),
            Envelope::Char(v) => Some(Primitive::Char(v)),
            Envelope::Short(v) => Some(Primitive::Short(v)),
            Envelope::Int(v) => Some(Primitive::Int(v)),
            Envelope::Long(v) => Some(Primitive::Long(v)),
            Envelope::Bool(v) => Some(Primitive::Boolean(v)),
            Envelope::Float(v) => Some(Primitive::Float(v)),
            Envelope::Double(v) => Some(Primitive::Double(v)),
            Envelope::Void => None,
        }
    }

    pub fn primitive(&self) -> (p: Option<Primitive>)
        ensures
            p == self.primitive_spec(),
    {
        match self {
            Envelope::Object(_) => None,
            Envelope::Byte(v) => Some(Primitive::Byte(*v)),
            Envelope::Char(v) => Some(Primitive::Char(*v)),
            Envelope::Short(v) => Some(Primitive::Short(*v)),
            Envelope::Int(v) => Some(Primitive::Int(*v)),
            Envelope::Long(v) => Some(Primitive::Long(*v)),
            Envelope::Bool(v) => Some(Primitive::Boolean(*v)),
            Envelope::Float(v) => Some(Primitive::Float(*v)),
            Envelope::Double(v) => Some(Primitive::Double(*v)),
            Envelope::Void => None,
        }
    }

    /// The envelope around a primitive.
    pub open spec fn of_primitive_spec(p: Primitive) -> Envelope<O> {
        match p {
            Primitive::Boolean(v) => Envelope::Bool(v),
            Primitive::Byte(v) => Envelope::Byte(v),
            Primitive::Char(v) => Envelope::Char(v),
            Primitive::Double(v) => Envelope::Double(v),
            Primitive::Float(v) => Envelope::Float(v),
            Primitive::Int(v) => Envelope::Int(v),
            Primitive::Long(v) => Envelope::Long(v),
            Primitive::Short(v) => Envelope::Short(v),
        }
    }

    pub fn of_primitive(p: Primitive) -> (v: Envelope<O>)
        ensures
            v == Self::of_primitive_spec(p),
            v.primitive_spec() == Some(p),
    {
        match p {
            Primitive::Boolean(v) => Envelope::Bool(v),
            Primitive::Byte(v) => Envelope::Byte(v),
            Primitive::Char(v) => Envelope::Char(v),
            Primitive::Double(v) => Envelope::Double(v),
            Primitive::Float(v) => Envelope::Float(v),
            Primitive::Int(v) => Envelope::Int(v),
            Primitive::Long(v) => Envelope::Long(v),
            Primitive::Short(v) => Envelope::Short(v),
        }
    }
}

} // verus!
