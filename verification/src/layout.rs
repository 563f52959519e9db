//! The layout of objects at the boundary: which class, constructor, method
//! and field stands behind each kind of foreign object.

use vstd::prelude::*;
use vstd::string::*;
use crate::value::PrimitiveKind;

verus! {

/// The type signature of a generic object.
pub const OBJECT_SIGNATURE: &'static str = "Ljava/lang/Object;";

/// The name under which every constructor is looked up.
pub const CONSTRUCTOR_NAME: &'static str = "<init>";

/// The type signature of strings.
pub const STRING_SIGNATURE: &'static str = "Ljava/lang/String;";

/// The type signature of `boolean[]`.
pub const BOOLEAN_ARRAY_SIGNATURE: &'static str = "[Z";

/// The type signature of the interface that every list implements.
pub const LIST_INTERFACE_SIGNATURE: &'static str = "Ljava/util/List;";

/// The type signature of the list class.
pub const LIST_SIGNATURE: &'static str = "Ljava/util/ArrayList;";

/// The name of the byte field of a result object that tells its variant.
pub const TAG_FIELD: &'static str = "tag";

/// The type signature of the field [`TAG_FIELD`].
pub const TAG_FIELD_SIGNATURE: &'static str = "B";

/// The name of the object field of a result object that holds the payload.
pub const VALUE_FIELD: &'static str = "value";

/// The name of the static field that holds the one empty tuple. The field
/// is typed as a generic object.
pub const INSTANCE_FIELD: &'static str = "INSTANCE";

/// The type signature of the class whose static methods make arrays.
pub const ARRAY_SIGNATURE: &'static str = "Ljava/lang/reflect/Array;";

/// The name of the static method that makes an array of a component type
/// and a length.
pub const NEW_ARRAY_METHOD: &'static str = "newInstance";

/// The name of the static field of a boxing class that holds the class of
/// the primitive it boxes.
pub const PRIMITIVE_TYPE_FIELD: &'static str = "TYPE";

/// The type signature of [`PRIMITIVE_TYPE_FIELD`].
pub const CLASS_SIGNATURE: &'static str = "Ljava/lang/Class;";

/// The type signature of the class that boxes a primitive kind.
pub open spec fn box_class_spec(kind: PrimitiveKind) -> Seq<char> {
    match kind {
        PrimitiveKind::Boolean => "Ljava/lang/Boolean;"@,
        PrimitiveKind::Byte => "Ljava/lang/Byte;"@,
        PrimitiveKind::Char => "Ljava/lang/Character;"@,
        PrimitiveKind::Double => "Ljava/lang/Double;"@,
        PrimitiveKind::Float => "Ljava/lang/Float;"@,
        PrimitiveKind::Int => "Ljava/lang/Integer;"@,
        PrimitiveKind::Long => "Ljava/lang/Long;"@,
        PrimitiveKind::Short => "Ljava/lang/Short;"@,
    }
}

/// The type signature of a primitive kind.
pub open spec fn primitive_signature_spec(kind: PrimitiveKind) -> Seq<char> {
    match kind {
        PrimitiveKind::Boolean => "Z"@,
        PrimitiveKind::Byte => "B"@,
        PrimitiveKind::Char => "C"@,
        PrimitiveKind::Double => "D"@,
        PrimitiveKind::Float => "F"@,
        PrimitiveKind::Int => "I"@,
        PrimitiveKind::Long => "J"@,
        PrimitiveKind::Short => "S"@,
    }
}

/// The type signature of no result.
pub const VOID_SIGNATURE: &'static str = "V";

/// The signature of a method: the type signatures of its parameters, one
/// after the other, in brackets, and then the type signature of its result.
pub open spec fn signature_text(parameters: Seq<char>, result: Seq<char>) -> Seq<char> {
    "("@ + parameters + ")"@ + result
}

/// The signature of a method with the given parameters and result.
pub fn signature_of(parameters: &str, result: &str) -> (s: String)
    ensures
        s@ == signature_text(parameters@, result@),
{
    let mut s = String::from_str("(");
    s.append(parameters);
    s.append(")");
    s.append(result);
    s
}

/// The signature of the boxing method of a primitive kind: from the
/// primitive to its boxing class.
pub open spec fn box_signature_spec(kind: PrimitiveKind) -> Seq<char> {
    signature_text(primitive_signature_spec(kind), box_class_spec(kind))
}

/// The signature of the unboxing method of a primitive kind: no parameter,
/// the primitive as the result.
pub open spec fn unbox_signature_spec(kind: PrimitiveKind) -> Seq<char> {
    signature_text(Seq::empty(), primitive_signature_spec(kind))
}

/// The parameters of the constructor of result objects: a tag and a payload.
pub open spec fn result_parameters_spec() -> Seq<char> {
    primitive_signature_spec(PrimitiveKind::Byte) + OBJECT_SIGNATURE@
}

/// The signature of the constructor of result objects.
pub fn result_constructor_signature() -> (s: String)
    ensures
        s@ == signature_text(result_parameters_spec(), VOID_SIGNATURE@),
{
    let mut parameters = String::from_str(primitive_signature(PrimitiveKind::Byte));
    parameters.append(OBJECT_SIGNATURE);
    signature_of(parameters.as_str(), VOID_SIGNATURE)
}

/// The signature of the list constructor that takes an initial capacity.
pub fn list_constructor_signature() -> (s: String)
    ensures
        s@ == signature_text(primitive_signature_spec(PrimitiveKind::Int), VOID_SIGNATURE@),
{
    signature_of(primitive_signature(PrimitiveKind::Int), VOID_SIGNATURE)
}

/// The parameters of the method that makes an array: the component type
/// and the length.
pub open spec fn new_array_parameters_spec() -> Seq<char> {
    CLASS_SIGNATURE@ + primitive_signature_spec(PrimitiveKind::Int)
}

/// The signature of the method that makes an array.
pub fn new_array_signature() -> (s: String)
    ensures
        s@ == signature_text(new_array_parameters_spec(), OBJECT_SIGNATURE@),
{
    let mut parameters = String::from_str(CLASS_SIGNATURE);
    parameters.append(primitive_signature(PrimitiveKind::Int));
    signature_of(parameters.as_str(), OBJECT_SIGNATURE)
}

/// The class that boxes a primitive kind.
pub fn box_class(kind: PrimitiveKind) -> (s: &'static str)
    ensures
        s@ == box_class_spec(kind),
{
    match kind {
        PrimitiveKind::Boolean => "Ljava/lang/Boolean;",
        PrimitiveKind::Byte => "Ljava/lang/Byte;",
        PrimitiveKind::Char => "Ljava/lang/Character;",
        PrimitiveKind::Double => "Ljava/lang/Double;",
        PrimitiveKind::Float => "Ljava/lang/Float;",
        PrimitiveKind::Int => "Ljava/lang/Integer;",
        PrimitiveKind::Long => "Ljava/lang/Long;",
        PrimitiveKind::Short => "Ljava/lang/Short;",
    }
}

/// The name of the static method that boxes a primitive.
pub const BOX_METHOD: &'static str = "valueOf";

/// The signature of the boxing method of a primitive kind.
pub fn box_signature(kind: PrimitiveKind) -> (s: String)
    ensures
        s@ == box_signature_spec(kind),
{
    signature_of(primitive_signature(kind), box_class(kind))
}

/// The name of the method that takes the primitive out of its box.
pub fn unbox_method(kind: PrimitiveKind) -> (s: &'static str)
    ensures
        s@ == match kind {
            PrimitiveKind::Boolean => "booleanValue"@,
            PrimitiveKind::Byte => "byteValue"@,
            PrimitiveKind::Char => "charValue"@,
            PrimitiveKind::Double => "doubleValue"@,
            PrimitiveKind::Float => "floatValue"@,
            PrimitiveKind::Int => "intValue"@,
            PrimitiveKind::Long => "longValue"@,
            PrimitiveKind::Short => "shortValue"@,
        },
{
    match kind {
        PrimitiveKind::Boolean => "booleanValue",
        PrimitiveKind::Byte => "byteValue",
        PrimitiveKind::Char => "charValue",
        PrimitiveKind::Double => "doubleValue",
        PrimitiveKind::Float => "floatValue",
        PrimitiveKind::Int => "intValue",
        PrimitiveKind::Long => "longValue",
        PrimitiveKind::Short => "shortValue",
    }
}

/// The signature of the unboxing method of a primitive kind.
pub fn unbox_signature(kind: PrimitiveKind) -> (s: String)
    ensures
        s@ == unbox_signature_spec(kind),
{
    proof {
        reveal_strlit("");
        assert(""@ =~= Seq::<char>::empty());
    }
    signature_of("", primitive_signature(kind))
}

/// The type signature of a primitive kind.
pub fn primitive_signature(kind: PrimitiveKind) -> (s: &'static str)
    ensures
        s@ == primitive_signature_spec(kind),
{
    match kind {
        PrimitiveKind::Boolean => "Z",
        PrimitiveKind::Byte => "B",
        PrimitiveKind::Char => "C",
        PrimitiveKind::Double => "D",
        PrimitiveKind::Float => "F",
        PrimitiveKind::Int => "I",
        PrimitiveKind::Long => "J",
        PrimitiveKind::Short => "S",
    }
}

/// The name of the field of a tuple object that holds the part at a
/// position: `t0`, `t1`, and so on, for the twelve positions there are.
pub fn tuple_field(index: usize) -> (s: Option<&'static str>)
    ensures
        s is Some <==> index < 12,
        index == 0 ==> s == Some("t0"),
        index == 1 ==> s == Some("t1"),
        index == 2 ==> s == Some("t2"),
        index == 3 ==> s == Some("t3"),
        index == 4 ==> s == Some("t4"),
        index == 5 ==> s == Some("t5"),
        index == 6 ==> s == Some("t6"),
        index == 7 ==> s == Some("t7"),
        index == 8 ==> s == Some("t8"),
        index == 9 ==> s == Some("t9"),
        index == 10 ==> s == Some("t10"),
        index == 11 ==> s == Some("t11"),
{
    match index {
        0 => Some("t0"),
        1 => Some("t1"),
        2 => Some("t2"),
        3 => Some("t3"),
        4 => Some("t4"),
        5 => Some("t5"),
        6 => Some("t6"),
        7 => Some("t7"),
        8 => Some("t8"),
        9 => Some("t9"),
        10 => Some("t10"),
        11 => Some("t11"),
        _ => None,
    }
}

/// `count` copies of a text, one after the other.
pub open spec fn repeated(text: Seq<char>, count: nat) -> Seq<char>
    decreases count,
{
    if count == 0 {
        Seq::empty()
    } else {
        repeated(text, (count - 1) as nat) + text
    }
}

/// The signature of the constructor of a tuple class: one generic object for
/// each part, and no result.
pub open spec fn tuple_constructor_signature_spec(arity: nat) -> Seq<char> {
    signature_text(repeated(OBJECT_SIGNATURE@, arity), VOID_SIGNATURE@)
}

/// The signature of the constructor of a tuple class.
pub fn tuple_constructor_signature(arity: usize) -> (s: String)
    ensures
        s@ == tuple_constructor_signature_spec(arity as nat),
{
    let mut parameters = String::new();
    let mut i: usize = 0;
    assert(parameters@ =~= repeated(OBJECT_SIGNATURE@, 0));
    while i < arity
        invariant
            i <= arity,
            parameters@ == repeated(OBJECT_SIGNATURE@, i as nat),
        decreases arity - i,
    {
        parameters.append(OBJECT_SIGNATURE);
        i += 1;
    }
    signature_of(parameters.as_str(), VOID_SIGNATURE)
}

/// The name by which the class of a type signature is looked up. For a
/// class it is what stands between the leading `L` and the closing `;`; for
/// an array it is the signature itself. A primitive has no class.
pub open spec fn class_name_spec(signature: Seq<char>) -> Option<Seq<char>> {
    if signature.len() >= 3 && signature[0] == 'L' && signature[signature.len() - 1] == ';' {
        Some(signature.subrange(1, signature.len() - 1))
    } else if signature.len() >= 2 && signature[0] == '[' {
        Some(signature)
    } else {
        None
    }
}

/// The name by which the class of a type signature is looked up:
/// `java/lang/String` for `Ljava/lang/String;`, `[Z` for `[Z`.
pub fn class_name(signature: &str) -> (name: Option<&str>)
    ensures
        match name {
            Some(n) => class_name_spec(signature@) == Some(n@),
            None => class_name_spec(signature@) is None,
        },
{
    let len = signature.unicode_len();
    if len >= 3 && signature.get_char(0) == 'L' && signature.get_char(len - 1) == ';' {
        Some(signature.substring_char(1, len - 1))
    } else if len >= 2 && signature.get_char(0) == '[' {
        Some(signature)
    } else {
        None
    }
}

} // verus!
