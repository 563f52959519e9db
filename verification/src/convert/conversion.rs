//! What each conversion computes.
//!
//! [`Conversion`] gives, for a native type, the object that stands for each of
//! its values on the Java side and the value that each object stands for. The
//! conversion traits of both families are held to these two functions, so a
//! value that is converted there and back can be followed here.

use vstd::prelude::*;
use crate::error::{ConversionError, Kind};
use crate::object::{JavaObject, ObjectModel};
use crate::shape::{conforms, Shape};
use crate::value::{JDouble, JFloat, Primitive, PrimitiveKind};

verus! {

/// What converting a type means, as a function between the mathematical
/// values of the type and of foreign objects.
pub trait Conversion<'env>: Sized {
    /// The mathematical value of the native type.
    type Model;

    spec fn model(&self) -> Self::Model;

    /// The object that stands for the value on the Java side, boxed, or why
    /// the value cannot be handed over.
    spec fn encode(m: Self::Model) -> Result<ObjectModel<'env>, ConversionError>;

    /// The value that an object stands for, or why it stands for none.
    spec fn decode(o: ObjectModel<'env>) -> Result<Self::Model, ConversionError>;

    /// Whether the value survives the way to the Java side and back.
    spec fn round_trips(m: Self::Model) -> bool;

    /// The shape of the objects that stand for values of the type.
    spec fn shape_spec() -> Shape;

    fn shape() -> (s: Shape)
        ensures
            s == Self::shape_spec(),
    ;

    /// The object that stands for a value has the shape of the type.
    proof fn lemma_encoded_conforms(m: Self::Model)
        ensures
            Self::encode(m) matches Ok(o) ==> conforms(o, Self::shape_spec()),
    ;

    /// An object of the type's shape stands for a value, unless it holds a
    /// value that its layout does not allow: it is never reported as an
    /// object of another kind.
    proof fn lemma_conforming_decodes(o: ObjectModel<'env>)
        requires
            conforms(o, Self::shape_spec()),
        ensures
            Self::decode(o) is Ok || Self::decode(o) matches Err(
                ConversionError::InvariantViolation { .. },
            ),
    ;

    /// A value that survives can be encoded, and decoding its object gives
    /// the value back.
    proof fn lemma_round_trip(m: Self::Model)
        requires
            Self::round_trips(m),
        ensures
            Self::encode(m) matches Ok(o) && Self::decode(o) == Ok::<Self::Model, ConversionError>(
                m,
            ),
    ;
}

/// The outcome of a fallible conversion from Java, with the converted value
/// taken by its model.
pub open spec fn outcome_model<'env, T: Conversion<'env>>(r: Result<T, ConversionError>) -> Result<
    T::Model,
    ConversionError,
> {
    match r {
        Ok(v) => Ok(v.model()),
        Err(e) => Err(e),
    }
}

impl<'env> Conversion<'env> for u8 {
    type Model = u8;

    open spec fn model(&self) -> u8 {
        *self
    }

    open spec fn encode(m: u8) -> Result<ObjectModel<'env>, ConversionError> {
        Ok(ObjectModel::Boxed(Primitive::Boolean(m)))
    }

    open spec fn decode(o: ObjectModel<'env>) -> Result<u8, ConversionError> {
        match o {
            ObjectModel::Boxed(Primitive::Boolean(v)) => Ok(v),
            _ => Err(ConversionError::TypeMismatch { expected: Kind::Bool, actual: o.kind() }),
        }
    }

    open spec fn round_trips(m: u8) -> bool {
        true
    }

    proof fn lemma_round_trip(m: u8) {
    }

    open spec fn shape_spec() -> Shape {
        Shape::Boxed(PrimitiveKind::Boolean)
    }

    fn shape() -> (s: Shape) {
        Shape::Boxed(PrimitiveKind::Boolean)
    }

    proof fn lemma_encoded_conforms(m: u8) {
    }

    proof fn lemma_conforming_decodes(o: ObjectModel<'env>) {
    }
}

impl<'env> Conversion<'env> for i8 {
    type Model = i8;

    open spec fn model(&self) -> i8 {
        *self
    }

    open spec fn encode(m: i8) -> Result<ObjectModel<'env>, ConversionError> {
        Ok(ObjectModel::Boxed(Primitive::Byte(m)))
    }

    open spec fn decode(o: ObjectModel<'env>) -> Result<i8, ConversionError> {
        match o {
            ObjectModel::Boxed(Primitive::Byte(v)) => Ok(v),
            _ => Err(ConversionError::TypeMismatch { expected: Kind::Byte, actual: o.kind() }),
        }
    }

    open spec fn round_trips(m: i8) -> bool {
        true
    }

    proof fn lemma_round_trip(m: i8) {
    }

    open spec fn shape_spec() -> Shape {
        Shape::Boxed(PrimitiveKind::Byte)
    }

    fn shape() -> (s: Shape) {
        Shape::Boxed(PrimitiveKind::Byte)
    }

    proof fn lemma_encoded_conforms(m: i8) {
    }

    proof fn lemma_conforming_decodes(o: ObjectModel<'env>) {
    }
}

impl<'env> Conversion<'env> for u16 {
    type Model = u16;

    open spec fn model(&self) -> u16 {
        *self
    }

    open spec fn encode(m: u16) -> Result<ObjectModel<'env>, ConversionError> {
        Ok(ObjectModel::Boxed(Primitive::Char(m)))
    }

    open spec fn decode(o: ObjectModel<'env>) -> Result<u16, ConversionError> {
        match o {
            ObjectModel::Boxed(Primitive::Char(v)) => Ok(v),
            _ => Err(ConversionError::TypeMismatch { expected: Kind::Char, actual: o.kind() }),
        }
    }

    open spec fn round_trips(m: u16) -> bool {
        true
    }

    proof fn lemma_round_trip(m: u16) {
    }

    open spec fn shape_spec() -> Shape {
        Shape::Boxed(PrimitiveKind::Char)
    }

    fn shape() -> (s: Shape) {
        Shape::Boxed(PrimitiveKind::Char)
    }

    proof fn lemma_encoded_conforms(m: u16) {
    }

    proof fn lemma_conforming_decodes(o: ObjectModel<'env>) {
    }
}

impl<'env> Conversion<'env> for JDouble {
    type Model = JDouble;

    open spec fn model(&self) -> JDouble {
        *self
    }

    open spec fn encode(m: JDouble) -> Result<ObjectModel<'env>, ConversionError> {
        Ok(ObjectModel::Boxed(Primitive::Double(m)))
    }

    open spec fn decode(o: ObjectModel<'env>) -> Result<JDouble, ConversionError> {
        match o {
            ObjectModel::Boxed(Primitive::Double(v)) => Ok(v),
            _ => Err(ConversionError::TypeMismatch { expected: Kind::Double, actual: o.kind() }),
        }
    }

    open spec fn round_trips(m: JDouble) -> bool {
        true
    }

    proof fn lemma_round_trip(m: JDouble) {
    }

    open spec fn shape_spec() -> Shape {
        Shape::Boxed(PrimitiveKind::Double)
    }

    fn shape() -> (s: Shape) {
        Shape::Boxed(PrimitiveKind::Double)
    }

    proof fn lemma_encoded_conforms(m: JDouble) {
    }

    proof fn lemma_conforming_decodes(o: ObjectModel<'env>) {
    }
}

impl<'env> Conversion<'env> for JFloat {
    type Model = JFloat;

    open spec fn model(&self) -> JFloat {
        *self
    }

    open spec fn encode(m: JFloat) -> Result<ObjectModel<'env>, ConversionError> {
        Ok(ObjectModel::Boxed(Primitive::Float(m)))
    }

    open spec fn decode(o: ObjectModel<'env>) -> Result<JFloat, ConversionError> {
        match o {
            ObjectModel::Boxed(Primitive::Float(v)) => Ok(v),
            _ => Err(ConversionError::TypeMismatch { expected: Kind::Float, actual: o.kind() }),
        }
    }

    open spec fn round_trips(m: JFloat) -> bool {
        true
    }

    proof fn lemma_round_trip(m: JFloat) {
    }

    open spec fn shape_spec() -> Shape {
        Shape::Boxed(PrimitiveKind::Float)
    }

    fn shape() -> (s: Shape) {
        Shape::Boxed(PrimitiveKind::Float)
    }

    proof fn lemma_encoded_conforms(m: JFloat) {
    }

    proof fn lemma_conforming_decodes(o: ObjectModel<'env>) {
    }
}

impl<'env> Conversion<'env> for i32 {
    type Model = i32;

    open spec fn model(&self) -> i32 {
        *self
    }

    open spec fn encode(m: i32) -> Result<ObjectModel<'env>, ConversionError> {
        Ok(ObjectModel::Boxed(Primitive::Int(m)))
    }

    open spec fn decode(o: ObjectModel<'env>) -> Result<i32, ConversionError> {
        match o {
            ObjectModel::Boxed(Primitive::Int(v)) => Ok(v),
            _ => Err(ConversionError::TypeMismatch { expected: Kind::Int, actual: o.kind() }),
        }
    }

    open spec fn round_trips(m: i32) -> bool {
        true
    }

    proof fn lemma_round_trip(m: i32) {
    }

    open spec fn shape_spec() -> Shape {
        Shape::Boxed(PrimitiveKind::Int)
    }

    fn shape() -> (s: Shape) {
        Shape::Boxed(PrimitiveKind::Int)
    }

    proof fn lemma_encoded_conforms(m: i32) {
    }

    proof fn lemma_conforming_decodes(o: ObjectModel<'env>) {
    }
}

impl<'env> Conversion<'env> for i64 {
    type Model = i64;

    open spec fn model(&self) -> i64 {
        *self
    }

    open spec fn encode(m: i64) -> Result<ObjectModel<'env>, ConversionError> {
        Ok(ObjectModel::Boxed(Primitive::Long(m)))
    }

    open spec fn decode(o: ObjectModel<'env>) -> Result<i64, ConversionError> {
        match o {
            ObjectModel::Boxed(Primitive::Long(v)) => Ok(v),
            _ => Err(ConversionError::TypeMismatch { expected: Kind::Long, actual: o.kind() }),
        }
    }

    open spec fn round_trips(m: i64) -> bool {
        true
    }

    proof fn lemma_round_trip(m: i64) {
    }

    open spec fn shape_spec() -> Shape {
        Shape::Boxed(PrimitiveKind::Long)
    }

    fn shape() -> (s: Shape) {
        Shape::Boxed(PrimitiveKind::Long)
    }

    proof fn lemma_encoded_conforms(m: i64) {
    }

    proof fn lemma_conforming_decodes(o: ObjectModel<'env>) {
    }
}

impl<'env> Conversion<'env> for i16 {
    type Model = i16;

    open spec fn model(&self) -> i16 {
        *self
    }

    open spec fn encode(m: i16) -> Result<ObjectModel<'env>, ConversionError> {
        Ok(ObjectModel::Boxed(Primitive::Short(m)))
    }

    open spec fn decode(o: ObjectModel<'env>) -> Result<i16, ConversionError> {
        match o {
            ObjectModel::Boxed(Primitive::Short(v)) => Ok(v),
            _ => Err(ConversionError::TypeMismatch { expected: Kind::Short, actual: o.kind() }),
        }
    }

    open spec fn round_trips(m: i16) -> bool {
        true
    }

    proof fn lemma_round_trip(m: i16) {
    }

    open spec fn shape_spec() -> Shape {
        Shape::Boxed(PrimitiveKind::Short)
    }

    fn shape() -> (s: Shape) {
        Shape::Boxed(PrimitiveKind::Short)
    }

    proof fn lemma_encoded_conforms(m: i16) {
    }

    proof fn lemma_conforming_decodes(o: ObjectModel<'env>) {
    }
}

impl<'env> Conversion<'env> for JavaObject<'env> {
    type Model = ObjectModel<'env>;

    open spec fn model(&self) -> ObjectModel<'env> {
        self@
    }

    open spec fn encode(m: ObjectModel<'env>) -> Result<ObjectModel<'env>, ConversionError> {
        Ok(m)
    }

    open spec fn decode(o: ObjectModel<'env>) -> Result<ObjectModel<'env>, ConversionError> {
        Ok(o)
    }

    open spec fn round_trips(m: ObjectModel<'env>) -> bool {
        true
    }

    proof fn lemma_round_trip(m: ObjectModel<'env>) {
    }

    open spec fn shape_spec() -> Shape {
        Shape::Opaque
    }

    fn shape() -> (s: Shape) {
        Shape::Opaque
    }

    proof fn lemma_encoded_conforms(m: Self::Model) {
    }

    proof fn lemma_conforming_decodes(o: ObjectModel<'env>) {
    }
}

/// The `jboolean` that stands for a `bool`.
pub open spec fn jboolean_of(b: bool) -> u8 {
    if b {
        1
    } else {
        0
    }
}

/// A `bool` crosses as a `jboolean`: 1 for `true`, 0 for `false`. On the way
/// back 1 is `true` and every other value is `false`.
impl<'env> Conversion<'env> for bool {
    type Model = bool;

    open spec fn model(&self) -> bool {
        *self
    }

    open spec fn encode(m: bool) -> Result<ObjectModel<'env>, ConversionError> {
        Ok(ObjectModel::Boxed(Primitive::Boolean(jboolean_of(m))))
    }

    open spec fn decode(o: ObjectModel<'env>) -> Result<bool, ConversionError> {
        match o {
            ObjectModel::Boxed(Primitive::Boolean(v)) => Ok(v == 1),
            _ => Err(ConversionError::TypeMismatch { expected: Kind::Bool, actual: o.kind() }),
        }
    }

    open spec fn round_trips(m: bool) -> bool {
        true
    }

    proof fn lemma_round_trip(m: bool) {
    }

    open spec fn shape_spec() -> Shape {
        Shape::Boxed(PrimitiveKind::Boolean)
    }

    fn shape() -> (s: Shape) {
        Shape::Boxed(PrimitiveKind::Boolean)
    }

    proof fn lemma_encoded_conforms(m: Self::Model) {
    }

    proof fn lemma_conforming_decodes(o: ObjectModel<'env>) {
    }
}

/// The `jchar` that stands for a `char`: its code point, cut to 16 bits.
pub open spec fn jchar_of(c: char) -> u16 {
    ((c as u32) % 0x1_0000) as u16
}

/// Whether a `jchar` is one half of a surrogate pair, and so no character.
pub open spec fn is_surrogate(unit: u16) -> bool {
    0xD800 <= unit <= 0xDFFF
}

/// A character's code point is no surrogate, and names the character.
pub proof fn lemma_char_code(c: char)
    ensures
        (c as u32) <= 0xD7FF || (0xE000 <= (c as u32) && (c as u32) <= 0x10FFFF),
        (c as u32) as char == c,
{
}

/// A `char` crosses as a `jchar`, one UTF-16 code unit. A character outside
/// the Basic Multilingual Plane is cut to its low 16 bits and does not come
/// back; a surrogate code unit stands for no character.
impl<'env> Conversion<'env> for char {
    type Model = char;

    open spec fn model(&self) -> char {
        *self
    }

    open spec fn encode(m: char) -> Result<ObjectModel<'env>, ConversionError> {
        Ok(ObjectModel::Boxed(Primitive::Char(jchar_of(m))))
    }

    open spec fn decode(o: ObjectModel<'env>) -> Result<char, ConversionError> {
        match o {
            ObjectModel::Boxed(Primitive::Char(unit)) => if is_surrogate(unit) {
                Err(ConversionError::InvariantViolation { value: unit as i32 })
            } else {
                Ok(unit as char)
            },
            _ => Err(ConversionError::TypeMismatch { expected: Kind::Char, actual: o.kind() }),
        }
    }

    open spec fn round_trips(m: char) -> bool {
        (m as u32) <= 0xFFFF
    }

    proof fn lemma_round_trip(m: char) {
        lemma_char_code(m);
        let unit = jchar_of(m);
        assert(unit as u32 == m as u32);
        assert(unit as char == (m as u32) as char);
    }

    open spec fn shape_spec() -> Shape {
        Shape::Boxed(PrimitiveKind::Char)
    }

    fn shape() -> (s: Shape) {
        Shape::Boxed(PrimitiveKind::Char)
    }

    proof fn lemma_encoded_conforms(m: Self::Model) {
    }

    proof fn lemma_conforming_decodes(o: ObjectModel<'env>) {
    }
}

impl<'env> Conversion<'env> for String {
    type Model = Seq<char>;

    open spec fn model(&self) -> Seq<char> {
        self@
    }

    open spec fn encode(m: Seq<char>) -> Result<ObjectModel<'env>, ConversionError> {
        Ok(ObjectModel::Text(m))
    }

    open spec fn decode(o: ObjectModel<'env>) -> Result<Seq<char>, ConversionError> {
        match o {
            ObjectModel::Text(s) => Ok(s),
            _ => Err(ConversionError::TypeMismatch { expected: Kind::Text, actual: o.kind() }),
        }
    }

    open spec fn round_trips(m: Seq<char>) -> bool {
        true
    }

    proof fn lemma_round_trip(m: Seq<char>) {
    }

    open spec fn shape_spec() -> Shape {
        Shape::Text
    }

    fn shape() -> (s: Shape) {
        Shape::Text
    }

    proof fn lemma_encoded_conforms(m: Self::Model) {
    }

    proof fn lemma_conforming_decodes(o: ObjectModel<'env>) {
    }
}

/// `None` is the null reference; `Some(v)` is the object that stands for `v`.
/// A value whose own object is the null reference cannot be told from `None`
/// on the way back.
impl<'env, T: Conversion<'env>> Conversion<'env> for Option<T> {
    type Model = Option<T::Model>;

    open spec fn model(&self) -> Option<T::Model> {
        match self {
            Some(v) => Some(v.model()),
            None => None,
        }
    }

    open spec fn encode(m: Option<T::Model>) -> Result<ObjectModel<'env>, ConversionError> {
        match m {
            Some(v) => T::encode(v),
            None => Ok(ObjectModel::Null),
        }
    }

    open spec fn decode(o: ObjectModel<'env>) -> Result<Option<T::Model>, ConversionError> {
        if o == ObjectModel::Null {
            Ok(None)
        } else {
            match T::decode(o) {
                Ok(v) => Ok(Some(v)),
                Err(e) => Err(e),
            }
        }
    }

    open spec fn round_trips(m: Option<T::Model>) -> bool {
        match m {
            Some(v) => T::round_trips(v) && T::encode(v) != Ok::<ObjectModel<'env>, ConversionError>(
                ObjectModel::Null,
            ),
            None => true,
        }
    }

    proof fn lemma_round_trip(m: Option<T::Model>) {
        match m {
            Some(v) => {
                T::lemma_round_trip(v);
            },
            None => {},
        }
    }

    open spec fn shape_spec() -> Shape {
        Shape::Nullable(Box::new(T::shape_spec()))
    }

    fn shape() -> (s: Shape) {
        Shape::Nullable(Box::new(T::shape()))
    }

    proof fn lemma_encoded_conforms(m: Self::Model) {
        match m {
            Some(v) => {
                T::lemma_encoded_conforms(v);
            },
            None => {},
        }
    }

    proof fn lemma_conforming_decodes(o: ObjectModel<'env>) {
        if o != ObjectModel::Null {
            T::lemma_conforming_decodes(o);
        }
    }
}

/// Applies a conversion to each item, front to back. The first item on which
/// it fails decides the report; nothing is kept of the items before it.
pub open spec fn try_map<A, B>(
    items: Seq<A>,
    f: spec_fn(A) -> Result<B, ConversionError>,
) -> Result<Seq<B>, ConversionError>
    decreases items.len(),
{
    if items.len() == 0 {
        Ok(Seq::empty())
    } else {
        match try_map(items.drop_last(), f) {
            Err(e) => Err(e),
            Ok(front) => match f(items.last()) {
                Err(e) => Err(e),
                Ok(v) => Ok(front.push(v)),
            },
        }
    }
}

/// Where the conversion succeeds on every item, the outcome holds one value
/// for each item, in the same order.
pub proof fn lemma_try_map_ok<A, B>(items: Seq<A>, f: spec_fn(A) -> Result<B, ConversionError>)
    requires
        try_map(items, f) is Ok,
    ensures
        try_map(items, f)->Ok_0.len() == items.len(),
        forall|i: int|
            0 <= i < items.len() ==> f(#[trigger] items[i]) == Ok::<B, ConversionError>(
                try_map(items, f)->Ok_0[i],
            ),
    decreases items.len(),
{
    if items.len() > 0 {
        let front = items.drop_last();
        lemma_try_map_ok(front, f);
        let values = try_map(items, f)->Ok_0;
        assert forall|i: int| 0 <= i < items.len() implies f(#[trigger] items[i]) == Ok::<
            B,
            ConversionError,
        >(values[i]) by {
            if i < items.len() - 1 {
                assert(front[i] == items[i]);
            }
        }
    }
}

/// The conversion succeeds on a list exactly as it succeeds on each item.
pub proof fn lemma_try_map_all<A, B>(
    items: Seq<A>,
    f: spec_fn(A) -> Result<B, ConversionError>,
    values: Seq<B>,
)
    requires
        values.len() == items.len(),
        forall|i: int|
            0 <= i < items.len() ==> f(#[trigger] items[i]) == Ok::<B, ConversionError>(values[i]),
    ensures
        try_map(items, f) == Ok::<Seq<B>, ConversionError>(values),
    decreases items.len(),
{
    if items.len() == 0 {
        assert(values =~= Seq::empty());
    } else {
        let front = items.drop_last();
        let front_values = values.drop_last();
        assert forall|i: int| 0 <= i < front.len() implies f(#[trigger] front[i]) == Ok::<
            B,
            ConversionError,
        >(front_values[i]) by {
            assert(front[i] == items[i]);
        }
        lemma_try_map_all(front, f, front_values);
        assert(f(items[items.len() - 1]) == Ok::<B, ConversionError>(values[items.len() - 1]));
        assert(front_values.push(values.last()) =~= values);
    }
}

/// One more item on which the conversion succeeds extends the outcome by its
/// value.
pub proof fn lemma_try_map_step<A, B>(
    items: Seq<A>,
    f: spec_fn(A) -> Result<B, ConversionError>,
    i: int,
)
    requires
        0 <= i < items.len(),
        try_map(items.take(i), f) is Ok,
        f(items[i]) is Ok,
    ensures
        try_map(items.take(i + 1), f) == Ok::<Seq<B>, ConversionError>(
            try_map(items.take(i), f)->Ok_0.push(f(items[i])->Ok_0),
        ),
{
    assert(items.take(i + 1).drop_last() =~= items.take(i));
    assert(items.take(i + 1).last() == items[i]);
}

/// The first item on which the conversion fails decides the report for the
/// whole list, whatever follows it.
pub proof fn lemma_try_map_first_failure<A, B>(
    items: Seq<A>,
    f: spec_fn(A) -> Result<B, ConversionError>,
    i: int,
)
    requires
        0 <= i < items.len(),
        try_map(items.take(i), f) is Ok,
        f(items[i]) is Err,
    ensures
        try_map(items, f) == Err::<Seq<B>, ConversionError>(f(items[i])->Err_0),
    decreases items.len() - i,
{
    if i == items.len() - 1 {
        assert(items.drop_last() =~= items.take(i));
        assert(items.last() == items[i]);
    } else {
        let front = items.drop_last();
        assert(front.take(i) =~= items.take(i));
        assert(front[i] == items[i]);
        lemma_try_map_first_failure(front, f, i);
    }
}

/// A conversion that fails on a list fails on one of its items, with the
/// same report.
pub proof fn lemma_try_map_failure<A, B>(
    items: Seq<A>,
    f: spec_fn(A) -> Result<B, ConversionError>,
)
    requires
        try_map(items, f) is Err,
    ensures
        exists|i: int|
            0 <= i < items.len() && #[trigger] f(items[i]) == Err::<B, ConversionError>(
                try_map(items, f)->Err_0,
            ),
    decreases items.len(),
{
    if items.len() > 0 {
        let front = items.drop_last();
        if try_map(front, f) is Err {
            lemma_try_map_failure(front, f);
            let i = choose|i: int|
                0 <= i < front.len() && #[trigger] f(front[i]) == Err::<B, ConversionError>(
                    try_map(front, f)->Err_0,
                );
            assert(front[i] == items[i]);
            assert(f(items[i]) == Err::<B, ConversionError>(try_map(items, f)->Err_0));
        } else {
            assert(f(items[items.len() - 1]) == Err::<B, ConversionError>(
                try_map(items, f)->Err_0,
            ));
        }
    }
}

/// The encoding of a type, as a function.
pub open spec fn encoder<'env, T: Conversion<'env>>() -> spec_fn(T::Model) -> Result<
    ObjectModel<'env>,
    ConversionError,
> {
    |m: T::Model| T::encode(m)
}

/// The decoding of a type, as a function.
pub open spec fn decoder<'env, T: Conversion<'env>>() -> spec_fn(ObjectModel<'env>) -> Result<
    T::Model,
    ConversionError,
> {
    |o: ObjectModel<'env>| T::decode(o)
}

/// The model of each value of a sequence, in the same order.
pub open spec fn models_each<'env, T: Conversion<'env>>(items: Seq<T>) -> Seq<T::Model> {
    Seq::new(items.len(), |i: int| items[i].model())
}

/// A `Vec` is a list that holds the object of each element, in the same
/// order. The first element that cannot be converted decides the report.
impl<'env, T: Conversion<'env>> Conversion<'env> for Vec<T> {
    type Model = Seq<T::Model>;

    open spec fn model(&self) -> Seq<T::Model> {
        models_each::<T>(self@)
    }

    open spec fn encode(m: Seq<T::Model>) -> Result<ObjectModel<'env>, ConversionError> {
        match try_map(m, encoder::<T>()) {
            Ok(items) => Ok(ObjectModel::List(items)),
            Err(e) => Err(e),
        }
    }

    open spec fn decode(o: ObjectModel<'env>) -> Result<Seq<T::Model>, ConversionError> {
        match o {
            ObjectModel::List(items) => try_map(items, decoder::<T>()),
            _ => Err(ConversionError::TypeMismatch { expected: Kind::List, actual: o.kind() }),
        }
    }

    open spec fn round_trips(m: Seq<T::Model>) -> bool {
        forall|i: int| 0 <= i < m.len() ==> T::round_trips(#[trigger] m[i])
    }

    proof fn lemma_round_trip(m: Seq<T::Model>) {
        let objects = Seq::new(m.len(), |i: int| T::encode(m[i])->Ok_0);
        assert forall|i: int| 0 <= i < m.len() implies encoder::<T>()(#[trigger] m[i]) == Ok::<
            ObjectModel<'env>,
            ConversionError,
        >(objects[i]) by {
            T::lemma_round_trip(m[i]);
        }
        lemma_try_map_all(m, encoder::<T>(), objects);
        assert forall|i: int| 0 <= i < objects.len() implies decoder::<T>()(
            #[trigger] objects[i],
        ) == Ok::<T::Model, ConversionError>(m[i]) by {
            T::lemma_round_trip(m[i]);
        }
        lemma_try_map_all(objects, decoder::<T>(), m);
    }

    open spec fn shape_spec() -> Shape {
        Shape::List(Box::new(T::shape_spec()))
    }

    fn shape() -> (s: Shape) {
        Shape::List(Box::new(T::shape()))
    }

    proof fn lemma_encoded_conforms(m: Self::Model) {
        if try_map(m, encoder::<T>()) is Ok {
            lemma_try_map_ok(m, encoder::<T>());
            let items = try_map(m, encoder::<T>())->Ok_0;
            assert forall|i: int| 0 <= i < items.len() implies conforms(
                #[trigger] items[i],
                T::shape_spec(),
            ) by {
                assert(encoder::<T>()(m[i]) == Ok::<ObjectModel<'env>, ConversionError>(items[i]));
                T::lemma_encoded_conforms(m[i]);
            }
        }
    }

    proof fn lemma_conforming_decodes(o: ObjectModel<'env>) {
        let items = o->List_0;
        if try_map(items, decoder::<T>()) is Err {
            lemma_try_map_failure(items, decoder::<T>());
            let i = choose|i: int|
                0 <= i < items.len() && decoder::<T>()(items[i]) == Err::<
                    T::Model,
                    ConversionError,
                >(try_map(items, decoder::<T>())->Err_0);
            T::lemma_conforming_decodes(items[i]);
        }
    }
}

/// The `jboolean` of each `bool` of a sequence, in the same order.
pub open spec fn jbooleans_of(bits: Seq<bool>) -> Seq<u8> {
    Seq::new(bits.len(), |i: int| jboolean_of(bits[i]))
}

/// The `bool` of each `jboolean` of a sequence, in the same order.
pub open spec fn bools_of(units: Seq<u8>) -> Seq<bool> {
    Seq::new(units.len(), |i: int| units[i] == 1)
}

/// A boxed slice of `bool` is a `boolean[]` of the same length, element by
/// element.
impl<'env> Conversion<'env> for Box<[bool]> {
    type Model = Seq<bool>;

    open spec fn model(&self) -> Seq<bool> {
        self@
    }

    open spec fn encode(m: Seq<bool>) -> Result<ObjectModel<'env>, ConversionError> {
        Ok(ObjectModel::BooleanArray(jbooleans_of(m)))
    }

    open spec fn decode(o: ObjectModel<'env>) -> Result<Seq<bool>, ConversionError> {
        match o {
            ObjectModel::BooleanArray(units) => Ok(bools_of(units)),
            _ => Err(
                ConversionError::TypeMismatch { expected: Kind::BooleanArray, actual: o.kind() },
            ),
        }
    }

    open spec fn round_trips(m: Seq<bool>) -> bool {
        true
    }

    proof fn lemma_round_trip(m: Seq<bool>) {
        assert(bools_of(jbooleans_of(m)) =~= m);
    }

    open spec fn shape_spec() -> Shape {
        Shape::BooleanArray
    }

    fn shape() -> (s: Shape) {
        Shape::BooleanArray
    }

    proof fn lemma_encoded_conforms(m: Self::Model) {
    }

    proof fn lemma_conforming_decodes(o: ObjectModel<'env>) {
    }
}

} // verus!
