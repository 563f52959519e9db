//! What holds of the conversions as a whole.
//!
//! Each law is stated over the functions of [`Conversion`], which the
//! conversion traits are held to, or over what a call of a conversion
//! function can return.

use vstd::prelude::*;
use vstd::std_specs::convert::TryFromSpec;
use crate::convert::config::{tuple_signature_spec, MAX_TUPLE_ARITY};
use crate::convert::conversion::{
    decoder, encoder, lemma_try_map_ok, try_map, Conversion,
};
use crate::convert::result::{ERR_TAG, OK_TAG};
use crate::convert::safe::{TryFromJavaValue, TryIntoJavaValue};
use crate::convert::unchecked::{FromJavaValue, IntoJavaValue};
use crate::convert::{JValueWrapper, JavaValue};
use crate::error::ConversionError;
use crate::object::{JavaObject, ObjectModel};
use crate::reference::Reference;
use crate::shape::conforms;
use crate::value::{Envelope, JDouble, JFloat, Primitive};

verus! {

/// There and back: a value that survives the way is converted, boxed,
/// unboxed and converted back to the value it was.
pub proof fn lemma_there_and_back<'env, T: IntoJavaValue<'env> + FromJavaValue<'env>>(
    value: T,
    target: <T as IntoJavaValue<'env>>::Target,
    object: JavaObject<'env>,
    unboxed: Result<<T as FromJavaValue<'env>>::Source, ConversionError>,
)
    requires
        T::round_trips(value.model()),
        call_ensures(<T as IntoJavaValue<'env>>::into, (value,), target),
        call_ensures(<T as IntoJavaValue<'env>>::Target::autobox, (target,), object),
        call_ensures(<T as FromJavaValue<'env>>::Source::unbox, (object,), unboxed),
    ensures
        unboxed is Ok,
        forall|back: T| #[trigger]
            call_ensures(<T as FromJavaValue<'env>>::from, (unboxed->Ok_0,), back) ==> back.model()
                == value.model(),
{
    T::lemma_round_trip(value.model());
    <T as FromJavaValue<'env>>::lemma_decode_unboxes(object@);
}

/// There and back in the fallible family: a value that survives the way is
/// converted, boxed, unboxed and converted back to the value it was, and no
/// step fails.
pub proof fn lemma_there_and_back_checked<'env, T: TryIntoJavaValue<'env> + TryFromJavaValue<'env>>(
    value: T,
    target: Result<<T as TryIntoJavaValue<'env>>::Target, ConversionError>,
    object: JavaObject<'env>,
    unboxed: Result<<T as TryFromJavaValue<'env>>::Source, ConversionError>,
)
    requires
        T::round_trips(value.model()),
        call_ensures(<T as TryIntoJavaValue<'env>>::try_into, (value,), target),
        target is Ok ==> call_ensures(
            <T as TryIntoJavaValue<'env>>::Target::autobox,
            (target->Ok_0,),
            object,
        ),
        call_ensures(<T as TryFromJavaValue<'env>>::Source::unbox, (object,), unboxed),
    ensures
        target is Ok,
        unboxed is Ok,
        forall|back: Result<T, ConversionError>| #[trigger]
            call_ensures(<T as TryFromJavaValue<'env>>::try_from, (unboxed->Ok_0,), back) ==> (
            back matches Ok(v) && v.model() == value.model()),
{
    T::lemma_round_trip(value.model());
    <T as TryFromJavaValue<'env>>::lemma_decode_unboxes(object@);
}

/// Every value of the eight primitive kinds, every `bool` and every `char`
/// of the Basic Multilingual Plane survives the way there and back.
pub proof fn lemma_primitives_round_trip<'env>(
    z: u8,
    b: i8,
    c: u16,
    s: i16,
    i: i32,
    j: i64,
    f: JFloat,
    d: JDouble,
    flag: bool,
    letter: char,
)
    ensures
        <u8 as Conversion<'env>>::round_trips(z),
        <i8 as Conversion<'env>>::round_trips(b),
        <u16 as Conversion<'env>>::round_trips(c),
        <i16 as Conversion<'env>>::round_trips(s),
        <i32 as Conversion<'env>>::round_trips(i),
        <i64 as Conversion<'env>>::round_trips(j),
        <JFloat as Conversion<'env>>::round_trips(f),
        <JDouble as Conversion<'env>>::round_trips(d),
        <bool as Conversion<'env>>::round_trips(flag),
        (letter as u32) <= 0xFFFF ==> <char as Conversion<'env>>::round_trips(letter),
{
}

/// A primitive that is put into an envelope comes out of it as it went in,
/// under its own kind.
pub proof fn lemma_envelope_round_trip<O>(
    z: u8,
    b: i8,
    c: u16,
    s: i16,
    i: i32,
    j: i64,
    f: JFloat,
    d: JDouble,
    p: Primitive,
)
    ensures
        Envelope::<O>::of_primitive_spec(p).primitive_spec() == Some(p),
        <u8 as TryFromSpec<JValueWrapper<O>>>::try_from_spec(JValueWrapper(Envelope::Bool(z)))
            == Ok::<u8, ConversionError>(z),
        <i8 as TryFromSpec<JValueWrapper<O>>>::try_from_spec(JValueWrapper(Envelope::Byte(b)))
            == Ok::<i8, ConversionError>(b),
        <u16 as TryFromSpec<JValueWrapper<O>>>::try_from_spec(JValueWrapper(Envelope::Char(c)))
            == Ok::<u16, ConversionError>(c),
        <i16 as TryFromSpec<JValueWrapper<O>>>::try_from_spec(JValueWrapper(Envelope::Short(s)))
            == Ok::<i16, ConversionError>(s),
        <i32 as TryFromSpec<JValueWrapper<O>>>::try_from_spec(JValueWrapper(Envelope::Int(i)))
            == Ok::<i32, ConversionError>(i),
        <i64 as TryFromSpec<JValueWrapper<O>>>::try_from_spec(JValueWrapper(Envelope::Long(j)))
            == Ok::<i64, ConversionError>(j),
        <JFloat as TryFromSpec<JValueWrapper<O>>>::try_from_spec(
            JValueWrapper(Envelope::Float(f)),
        ) == Ok::<JFloat, ConversionError>(f),
        <JDouble as TryFromSpec<JValueWrapper<O>>>::try_from_spec(
            JValueWrapper(Envelope::Double(d)),
        ) == Ok::<JDouble, ConversionError>(d),
{
}

/// `None` is the null reference, exactly, and the null reference is `None`.
pub proof fn lemma_none_is_null<'env, T: Conversion<'env>>()
    ensures
        <Option<T> as Conversion<'env>>::encode(None) == Ok::<ObjectModel<'env>, ConversionError>(
            ObjectModel::Null,
        ),
        <Option<T> as Conversion<'env>>::decode(ObjectModel::Null) == Ok::<
            Option<T::Model>,
            ConversionError,
        >(None),
{
}

/// `Some(v)` comes back as `Some(v)`, for every `v` that survives the way
/// and whose own object is not the null reference.
pub proof fn lemma_some_round_trip<'env, T: Conversion<'env>>(v: T::Model)
    requires
        T::round_trips(v),
        T::encode(v) != Ok::<ObjectModel<'env>, ConversionError>(ObjectModel::Null),
    ensures
        <Option<T> as Conversion<'env>>::encode(Some(v)) matches Ok(o) && <Option<T> as Conversion<'env>>::decode(
            o,
        ) == Ok::<Option<T::Model>, ConversionError>(Some(v)),
{
    <Option<T> as Conversion<'env>>::lemma_round_trip(Some(v));
}

/// A result is written with tag 0 for `Ok` and tag 1 for `Err`, around the
/// object of its payload, and comes back as it was.
pub proof fn lemma_result_round_trip<'env, T: Conversion<'env>, E: Conversion<'env>>(m: Result<T::Model, E::Model>)
    requires
        <Result<T, E> as Conversion<'env>>::round_trips(m),
    ensures
        <Result<T, E> as Conversion<'env>>::encode(m) matches Ok(
            ObjectModel::Tagged { tag, value },
        ) && tag == (if m is Ok {
            OK_TAG
        } else {
            ERR_TAG
        }) && Ok::<ObjectModel<'env>, ConversionError>(*value) == (match m {
            Ok(v) => T::encode(v),
            Err(e) => E::encode(e),
        }),
        <Result<T, E> as Conversion<'env>>::decode(<Result<T, E> as Conversion<'env>>::encode(m)->Ok_0)
            == Ok::<Result<T::Model, E::Model>, ConversionError>(m),
{
    <Result<T, E> as Conversion<'env>>::lemma_round_trip(m);
    match m {
        Ok(v) => {
            T::lemma_round_trip(v);
        },
        Err(e) => {
            E::lemma_round_trip(e);
        },
    }
}

/// A result object with a tag other than 0 and 1 stands for no result: the
/// tag is reported, whatever the payload is.
pub proof fn lemma_unknown_tag_is_reported<'env, T: Conversion<'env>, E: Conversion<'env>>(
    tag: i8,
    value: ObjectModel<'env>,
)
    requires
        tag != OK_TAG,
        tag != ERR_TAG,
    ensures
        <Result<T, E> as Conversion<'env>>::decode(ObjectModel::Tagged { tag, value: Box::new(value) })
            == Err::<Result<T::Model, E::Model>, ConversionError>(
            ConversionError::InvariantViolation { value: tag as i32 },
        ),
{
}

/// A sequence keeps its length and its order on the way to Java: the list
/// holds, at each position, the object of the element at that position.
pub proof fn lemma_sequence_encoding_keeps_order<'env, T: Conversion<'env>>(m: Seq<T::Model>)
    requires
        <Vec<T> as Conversion<'env>>::encode(m) is Ok,
    ensures
        <Vec<T> as Conversion<'env>>::encode(m) matches Ok(ObjectModel::List(items)) && items.len()
            == m.len() && forall|i: int|
            0 <= i < m.len() ==> T::encode(#[trigger] m[i]) == Ok::<ObjectModel<'env>, ConversionError>(
                items[i],
            ),
{
    lemma_try_map_ok(m, encoder::<T>());
}

/// A sequence keeps its length and its order on the way from Java: the
/// values are, at each position, the value of the object at that position.
pub proof fn lemma_sequence_decoding_keeps_order<'env, T: Conversion<'env>>(items: Seq<ObjectModel<'env>>)
    requires
        <Vec<T> as Conversion<'env>>::decode(ObjectModel::List(items)) is Ok,
    ensures
        <Vec<T> as Conversion<'env>>::decode(ObjectModel::List(items)) matches Ok(values)
            && values.len() == items.len() && forall|i: int|
            0 <= i < items.len() ==> T::decode(#[trigger] items[i]) == Ok::<
                T::Model,
                ConversionError,
            >(values[i]),
{
    lemma_try_map_ok(items, decoder::<T>());
}

/// A sequence of values that survive the way comes back as it was; the empty
/// sequence is the empty list and comes back empty.
pub proof fn lemma_sequence_round_trip<'env, T: Conversion<'env>>(m: Seq<T::Model>)
    requires
        forall|i: int| 0 <= i < m.len() ==> T::round_trips(#[trigger] m[i]),
    ensures
        <Vec<T> as Conversion<'env>>::encode(m) matches Ok(o) && <Vec<T> as Conversion<'env>>::decode(o)
            == Ok::<Seq<T::Model>, ConversionError>(m),
        <Vec<T> as Conversion<'env>>::encode(Seq::empty()) == Ok::<ObjectModel<'env>, ConversionError>(
            ObjectModel::List(Seq::empty()),
        ),
{
    <Vec<T> as Conversion<'env>>::lemma_round_trip(m);
    assert(try_map(Seq::<T::Model>::empty(), encoder::<T>()) == Ok::<
        Seq<ObjectModel<'env>>,
        ConversionError,
    >(Seq::empty()));
}

/// Every object stands for the empty tuple.
pub proof fn lemma_unit_from_any_object<'env>(o: ObjectModel<'env>)
    ensures
        <() as Conversion<'env>>::decode(o) == Ok::<(), ConversionError>(()),
{
}

/// There is a tuple class for each arity from 0 to the largest, and for no
/// other.
pub proof fn lemma_tuple_arities(arity: nat)
    ensures
        tuple_signature_spec(arity) is Some <==> arity <= MAX_TUPLE_ARITY,
{
}

/// What was read in the shape of a type is converted, or reported as
/// holding a value that its layout does not allow; it is never reported as
/// an object of another kind.
pub proof fn lemma_read_in_shape_converts<'env, T: TryFromJavaValue<'env>>(
    object: JavaObject<'env>,
    unboxed: Result<<T as TryFromJavaValue<'env>>::Source, ConversionError>,
)
    requires
        conforms(object@, T::shape_spec()),
        call_ensures(<T as TryFromJavaValue<'env>>::Source::unbox, (object,), unboxed),
    ensures
        match unboxed {
            Ok(source) => forall|tried: Result<T, ConversionError>| #[trigger]
                call_ensures(<T as TryFromJavaValue<'env>>::try_from, (source,), tried) ==> (tried is Ok
                    || tried matches Err(ConversionError::InvariantViolation { .. })),
            Err(e) => e is InvariantViolation,
        },
{
    T::lemma_conforming_decodes(object@);
    <T as TryFromJavaValue<'env>>::lemma_decode_unboxes(object@);
}

/// What a conversion hands over has the shape of its type, so it can be
/// read back in that shape.
pub proof fn lemma_converted_has_shape<'env, T: TryIntoJavaValue<'env>>(
    value: T,
    tried: Result<<T as TryIntoJavaValue<'env>>::Target, ConversionError>,
)
    requires
        call_ensures(<T as TryIntoJavaValue<'env>>::try_into, (value,), tried),
    ensures
        tried matches Ok(target) ==> conforms(target.boxed_spec(), T::shape_spec()),
{
    T::lemma_encoded_conforms(value.model());
}

/// A reference to an object passes through as it is, alone and in an
/// `Option`: it is its own object on the way to Java and on the way back.
pub proof fn lemma_reference_passes_through<'env>(reference: Reference<'env>)
    ensures
        <JavaObject<'env> as Conversion<'env>>::encode(ObjectModel::Reference(reference)) == Ok::<
            ObjectModel<'env>,
            ConversionError,
        >(ObjectModel::Reference(reference)),
        <JavaObject<'env> as Conversion<'env>>::decode(ObjectModel::Reference(reference)) == Ok::<
            ObjectModel<'env>,
            ConversionError,
        >(ObjectModel::Reference(reference)),
        <Option<JavaObject<'env>> as Conversion<'env>>::decode(ObjectModel::Reference(reference))
            == Ok::<Option<ObjectModel<'env>>, ConversionError>(
            Some(ObjectModel::Reference(reference)),
        ),
        <Option<JavaObject<'env>> as Conversion<'env>>::round_trips(
            Some(ObjectModel::Reference(reference)),
        ),
{
}

/// The two families agree on the way to Java: where the infallible
/// conversion may be called at all, the fallible one succeeds, and both hand
/// over the same object.
pub proof fn lemma_families_agree_into<'env, T: IntoJavaValue<'env> + TryIntoJavaValue<'env>>(
    value: T,
    owed: <T as IntoJavaValue<'env>>::Target,
    tried: Result<<T as TryIntoJavaValue<'env>>::Target, ConversionError>,
)
    requires
        T::encode(value.model()) is Ok,
        call_ensures(<T as IntoJavaValue<'env>>::into, (value,), owed),
        call_ensures(<T as TryIntoJavaValue<'env>>::try_into, (value,), tried),
    ensures
        tried matches Ok(t) && t.boxed_spec() == owed.boxed_spec(),
{
}

/// The two families agree on the way from Java: where the infallible
/// conversion may be called at all, the fallible one succeeds, and both give
/// the same value.
pub proof fn lemma_families_agree_from<'env, T: FromJavaValue<'env> + TryFromJavaValue<'env>>(
    owed_source: <T as FromJavaValue<'env>>::Source,
    tried_source: <T as TryFromJavaValue<'env>>::Source,
    owed: T,
    tried: Result<T, ConversionError>,
)
    requires
        owed_source.boxed_spec() == tried_source.boxed_spec(),
        T::decode(owed_source.boxed_spec()) is Ok,
        call_ensures(<T as FromJavaValue<'env>>::from, (owed_source,), owed),
        call_ensures(<T as TryFromJavaValue<'env>>::try_from, (tried_source,), tried),
    ensures
        tried matches Ok(v) && v.model() == owed.model(),
{
}

/// On malformed input the families part: the fallible conversion reports
/// what the infallible one may not be called on.
pub proof fn lemma_families_part_on_failure<'env, T: TryFromJavaValue<'env>>(
    source: <T as TryFromJavaValue<'env>>::Source,
    tried: Result<T, ConversionError>,
)
    requires
        T::decode(source.boxed_spec()) is Err,
        call_ensures(<T as TryFromJavaValue<'env>>::try_from, (source,), tried),
    ensures
        tried == Err::<T, ConversionError>(T::decode(source.boxed_spec())->Err_0),
{
}

} // verus!
