//! Structured failures of a conversion.

use vstd::prelude::*;

verus! {

/// The kind of a value as it is named in a mismatch report: the ten kinds a
/// value envelope can hold, and the kinds of foreign objects.
#[derive(Clone, Copy, Debug, PartialEq, Eq, Structural)]
pub enum Kind {
    Bool,
    Byte,
    Char,
    Double,
    Float,
    Int,
    Long,
    Short,
    Object,
    Void,
    Text,
    Null,
    BooleanArray,
    List,
    Tagged,
    Tuple,
}

impl Kind {
    /// The name under which the kind is reported.
    pub open spec fn name_spec(self) -> Seq<char> {
        match self {
            Kind::Bool => "bool"@,
            Kind::Byte => "byte"@,
            Kind::Char => "char"@,
            Kind::Double => "double"@,
            Kind::Float => "float"@,
            Kind::Int => "int"@,
            Kind::Long => "long"@,
            Kind::Short => "short"@,
            Kind::Object => "object"@,
            Kind::Void => "void"@,
            Kind::Text => "string"@,
            Kind::Null => "null"@,
            Kind::BooleanArray => "boolean[]"@,
            Kind::List => "list"@,
            Kind::Tagged => "result"@,
            Kind::Tuple => "tuple"@,
        }
    }

    pub fn name(self) -> (s: &'static str)
        ensures
            s@ == self.name_spec(),
    {
        match self {
            Kind::Bool => "bool",
            Kind::Byte => "byte",
            Kind::Char => "char",
            Kind::Double => "double",
            Kind::Float => "float",
            Kind::Int => "int",
            Kind::Long => "long",
            Kind::Short => "short",
            Kind::Object => "object",
            Kind::Void => "void",
            Kind::Text => "string",
            Kind::Null => "null",
            Kind::BooleanArray => "boolean[]",
            Kind::List => "list",
            Kind::Tagged => "result",
            Kind::Tuple => "tuple",
        }
    }
}

/// Why a conversion did not produce a value.
#[derive(Clone, Copy, Debug, PartialEq, Eq, Structural)]
pub enum ConversionError {
    /// A value of kind `actual` stood where one of kind `expected` was asked for.
    TypeMismatch { expected: Kind, actual: Kind },
    /// A class, field or method could not be resolved in the foreign runtime.
    /// The key stays failed: every later request for it reports this again.
    ResolutionFailure,
    /// A call into the foreign runtime did not complete.
    ForeignException,
    /// Foreign data held a value outside the set its layout allows.
    InvariantViolation { value: i32 },
}

/// A count as it is reported: the count itself, or the largest `i32` where
/// the count is larger than that.
pub open spec fn reported_count(count: nat) -> i32 {
    if count <= i32::MAX {
        count as i32
    } else {
        i32::MAX
    }
}

/// A count as it is reported.
pub fn report_count(count: usize) -> (value: i32)
    ensures
        value == reported_count(count as nat),
{
    if count <= i32::MAX as usize {
        count as i32
    } else {
        i32::MAX
    }
}

impl ConversionError {
    /// The report for a value of kind `actual` where `expected` was asked for.
    pub fn mismatch(expected: Kind, actual: Kind) -> (e: ConversionError)
        ensures
            e == (ConversionError::TypeMismatch { expected, actual }),
    {
        ConversionError::TypeMismatch { expected, actual }
    }

    /// The expected and the actual kind's names, for a mismatch.
    pub fn kind_names(self) -> (names: Option<(&'static str, &'static str)>)
        ensures
            match self {
                ConversionError::TypeMismatch { expected, actual } => names matches Some(pair)
                    && pair.0@ == expected.name_spec() && pair.1@ == actual.name_spec(),
                _ => names is None,
            },
    {
        match self {
            ConversionError::TypeMismatch { expected, actual } => Some(
                (expected.name(), actual.name()),
            ),
            _ => None,
        }
    }
}

} // verus!
