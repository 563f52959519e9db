//! Tuples.
//!
//! A tuple of arity `N` is an object of the class `TupleN`, whose fields `t0`
//! to `t(N-1)` hold the boxed parts in position order. The empty tuple is the
//! one instance of `Tuple0`; every object stands for it on the way back.
//! A tuple object with another number of fields than the arity holds what
//! its layout does not allow, and is reported with the number it has.
//! The arities are fixed when the library is built: 0 to 12.

use vstd::prelude::*;
use vstd::pervasive::unreached;
use crate::convert::conversion::{outcome_model, Conversion};
use crate::convert::safe::{TryFromJavaValue, TryIntoJavaValue};
use crate::convert::unchecked::{FromJavaValue, IntoJavaValue};
use crate::convert::{JavaValue, Signature};
use crate::error::{report_count, reported_count, ConversionError, Kind};
use crate::object::{lemma_tuple_model, models_of, reversed, JavaObject, ObjectModel};
use crate::shape::{
    lemma_conform_done, lemma_conform_end, lemma_conform_part, lemma_conform_split,
    lemma_conforms_tuple, lemma_tuple_parts, Parts, Shape,
};

verus! {

/// Converts a part and appends its object to the fields.
fn put_part<'env, T: IntoJavaValue<'env>>(items: &mut Vec<JavaObject<'env>>, part: T)
    requires
        T::encode(part.model()) is Ok,
    ensures
        final(items)@.len() == old(items)@.len() + 1,
        forall|i: int| 0 <= i < old(items)@.len() ==> final(items)@[i] == old(items)@[i],
        T::encode(part.model()) == Ok::<ObjectModel<'env>, ConversionError>(final(items)@.last()@),
{
    items.push(<T as IntoJavaValue<'env>>::into(part).autobox());
}

/// Converts a part and appends its object to the fields, or reports why the
/// part cannot be converted.
fn try_put_part<'env, T: TryIntoJavaValue<'env>>(items: &mut Vec<JavaObject<'env>>, part: T) -> (r: Result<
    (),
    ConversionError,
>)
    ensures
        match r {
            Ok(_) => final(items)@.len() == old(items)@.len() + 1 && (forall|i: int|
                0 <= i < old(items)@.len() ==> final(items)@[i] == old(items)@[i]) && T::encode(
                part.model(),
            ) == Ok::<ObjectModel<'env>, ConversionError>(final(items)@.last()@),
            Err(e) => T::encode(part.model()) == Err::<ObjectModel<'env>, ConversionError>(e),
        },
{
    match <T as TryIntoJavaValue<'env>>::try_into(part) {
        Ok(target) => {
            items.push(target.autobox());
            Ok(())
        },
        Err(e) => Err(e),
    }
}

/// Takes the last field off and converts what it holds.
fn take_part<'env, T: FromJavaValue<'env>>(rest: &mut Vec<JavaObject<'env>>) -> (v: T)
    requires
        old(rest)@.len() > 0,
        T::decode(old(rest)@.last()@) is Ok,
    ensures
        final(rest)@ == old(rest)@.drop_last(),
        T::decode(old(rest)@.last()@) == Ok::<T::Model, ConversionError>(v.model()),
{
    match rest.pop() {
        Some(field) => {
            proof {
                T::lemma_decode_unboxes(field@);
            }
            match T::Source::unbox(field) {
                Ok(source) => <T as FromJavaValue<'env>>::from(source),
                Err(_) => unreached(),
            }
        },
        None => unreached(),
    }
}

/// Takes the last field off and converts what it holds, or reports why it
/// stands for no value.
fn try_take_part<'env, T: TryFromJavaValue<'env>>(rest: &mut Vec<JavaObject<'env>>) -> (r: Result<T, ConversionError>)
    requires
        old(rest)@.len() > 0,
    ensures
        final(rest)@ == old(rest)@.drop_last(),
        outcome_model(r) == T::decode(old(rest)@.last()@),
{
    match rest.pop() {
        Some(field) => {
            proof {
                T::lemma_decode_unboxes(field@);
            }
            match T::Source::unbox(field) {
                Ok(source) => <T as TryFromJavaValue<'env>>::try_from(source),
                Err(e) => Err(e),
            }
        },
        None => unreached(),
    }
}

impl<'env> Conversion<'env> for () {
    type Model = ();

    open spec fn model(&self) -> () {
        ()
    }

    open spec fn encode(m: ()) -> Result<ObjectModel<'env>, ConversionError> {
        Ok(ObjectModel::Tuple(Seq::empty()))
    }

    open spec fn decode(o: ObjectModel<'env>) -> Result<(), ConversionError> {
        Ok(())
    }

    open spec fn round_trips(m: ()) -> bool {
        true
    }

    proof fn lemma_round_trip(m: ()) {
    }

    open spec fn shape_spec() -> Shape {
        Shape::Tuple(Box::new(Parts::End))
    }

    fn shape() -> (s: Shape) {
        Shape::Tuple(Box::new(Parts::End))
    }

    proof fn lemma_encoded_conforms(m: ()) {
        lemma_conform_end(Seq::<ObjectModel<'env>>::empty());
        lemma_conforms_tuple(Seq::<ObjectModel<'env>>::empty(), Parts::End);
    }

    proof fn lemma_conforming_decodes(o: ObjectModel<'env>) {
    }
}

impl<'env> IntoJavaValue<'env> for () {
    type Target = JavaObject<'env>;

    fn into(self) -> (t: JavaObject<'env>) {
        let items: Vec<JavaObject<'env>> = Vec::new();
        proof {
            lemma_tuple_model(items);
            assert(models_of(items@) =~= Seq::<ObjectModel<'env>>::empty());
        }
        JavaObject::Tuple(items)
    }
}

impl<'env> FromJavaValue<'env> for () {
    type Source = JavaObject<'env>;

    proof fn lemma_decode_unboxes(o: ObjectModel<'env>) {
    }

    fn from(s: JavaObject<'env>) -> (v: ()) {
        ()
    }
}

impl<'env> TryIntoJavaValue<'env> for () {
    type Target = JavaObject<'env>;

    fn try_into(self) -> (r: Result<JavaObject<'env>, ConversionError>) {
        Ok(<() as IntoJavaValue<'env>>::into(self))
    }
}

impl<'env> TryFromJavaValue<'env> for () {
    type Source = JavaObject<'env>;

    proof fn lemma_decode_unboxes(o: ObjectModel<'env>) {
    }

    fn try_from(s: JavaObject<'env>) -> (r: Result<(), ConversionError>) {
        Ok(())
    }
}

impl<T0> Signature for (T0,) {
    open spec fn sig_type_spec() -> Seq<char> {
        "LTuple1;"@
    }

    fn sig_type() -> (s: &'static str) {
        "LTuple1;"
    }
}

impl<'env, T0: Conversion<'env>> Conversion<'env> for (T0,) {
    type Model = (T0::Model,);

    open spec fn model(&self) -> Self::Model {
        (self.0.model(),)
    }

    open spec fn encode(m: Self::Model) -> Result<ObjectModel<'env>, ConversionError> {
        if T0::encode(m.0) is Err {
            Err(T0::encode(m.0)->Err_0)
        } else {
            Ok(ObjectModel::Tuple(seq![T0::encode(m.0)->Ok_0]))
        }
    }

    open spec fn decode(o: ObjectModel<'env>) -> Result<Self::Model, ConversionError> {
        match o {
            ObjectModel::Tuple(items) => if items.len() != 1 {
                Err(ConversionError::InvariantViolation { value: reported_count(items.len()) })
            } else {
                if T0::decode(items[0]) is Err {
                    Err(T0::decode(items[0])->Err_0)
                } else {
                    Ok((T0::decode(items[0])->Ok_0,))
                }
            },
            _ => Err(ConversionError::TypeMismatch { expected: Kind::Tuple, actual: o.kind() }),
        }
    }

    open spec fn round_trips(m: Self::Model) -> bool {
        T0::round_trips(m.0)
    }

    proof fn lemma_round_trip(m: Self::Model) {
        T0::lemma_round_trip(m.0);
    }

    open spec fn shape_spec() -> Shape {
        let parts = Parts::End;
        let parts = Parts::Part(Box::new(T0::shape_spec()), Box::new(parts));
        Shape::Tuple(Box::new(parts))
    }

    fn shape() -> (s: Shape) {
        let parts = Parts::End;
        let parts = Parts::Part(Box::new(T0::shape()), Box::new(parts));
        Shape::Tuple(Box::new(parts))
    }

    proof fn lemma_encoded_conforms(m: Self::Model) {
        if Self::encode(m) is Ok {
            let items = seq![T0::encode(m.0)->Ok_0];
            let tail1 = Parts::End;
            lemma_conform_end(items);
            T0::lemma_encoded_conforms(m.0);
            let tail0 = Parts::Part(Box::new(T0::shape_spec()), Box::new(tail1));
            lemma_conform_part(items, T0::shape_spec(), tail1, 0);
            lemma_conforms_tuple(items, tail0);
        }
    }

    proof fn lemma_conforming_decodes(o: ObjectModel<'env>) {
        let items = o->Tuple_0;
        let tail1 = Parts::End;
        let tail0 = Parts::Part(Box::new(T0::shape_spec()), Box::new(tail1));
        lemma_tuple_parts(items, tail0);
        lemma_conform_split(items, T0::shape_spec(), tail1, 0);
        T0::lemma_conforming_decodes(items[0]);
        lemma_conform_done(items, 1);
    }
}

impl<'env, T0: IntoJavaValue<'env>> IntoJavaValue<'env> for (T0,) {
    type Target = JavaObject<'env>;

    fn into(self) -> (t: JavaObject<'env>) {
        let ghost parts = seq![T0::encode(self.0.model())->Ok_0];
        let (a0,) = self;
        let mut items: Vec<JavaObject<'env>> = Vec::new();
        put_part(&mut items, a0);
        proof {
            lemma_tuple_model(items);
            assert(models_of(items@) =~= parts);
        }
        JavaObject::Tuple(items)
    }
}

impl<'env, T0: FromJavaValue<'env>> FromJavaValue<'env> for (T0,) {
    type Source = JavaObject<'env>;

    proof fn lemma_decode_unboxes(o: ObjectModel<'env>) {
    }

    fn from(s: JavaObject<'env>) -> (v: Self) {
        match s {
            JavaObject::Tuple(items) => {
                let ghost objects = models_of(items@);
                proof {
                    lemma_tuple_model(items);
                }
                let mut rest = reversed(items);
                assert(rest@.last()@ == objects[0]);
                let v0 = take_part::<T0>(&mut rest);
                (v0,)
            },
            _ => unreached(),
        }
    }
}

impl<'env, T0: TryIntoJavaValue<'env>> TryIntoJavaValue<'env> for (T0,) {
    type Target = JavaObject<'env>;

    fn try_into(self) -> (r: Result<JavaObject<'env>, ConversionError>) {
        let ghost parts = seq![T0::encode(self.0.model())->Ok_0];
        let (a0,) = self;
        let mut items: Vec<JavaObject<'env>> = Vec::new();
        try_put_part(&mut items, a0)?;
        proof {
            lemma_tuple_model(items);
            assert(models_of(items@) =~= parts);
        }
        Ok(JavaObject::Tuple(items))
    }
}

impl<'env, T0: TryFromJavaValue<'env>> TryFromJavaValue<'env> for (T0,) {
    type Source = JavaObject<'env>;

    proof fn lemma_decode_unboxes(o: ObjectModel<'env>) {
    }

    fn try_from(s: JavaObject<'env>) -> (r: Result<Self, ConversionError>) {
        match s {
            JavaObject::Tuple(items) => {
                let ghost objects = models_of(items@);
                proof {
                    lemma_tuple_model(items);
                }
                if items.len() != 1 {
                    return Err(
                        ConversionError::InvariantViolation { value: report_count(items.len()) },
                    );
                }
                let mut rest = reversed(items);
                assert(rest@.last()@ == objects[0]);
                let v0 = try_take_part::<T0>(&mut rest)?;
                Ok((v0,))
            },
            other => Err(ConversionError::mismatch(Kind::Tuple, other.kind())),
        }
    }
}

impl<T0, T1> Signature for (T0, T1) {
    open spec fn sig_type_spec() -> Seq<char> {
        "LTuple2;"@
    }

    fn sig_type() -> (s: &'static str) {
        "LTuple2;"
    }
}

impl<'env, T0: Conversion<'env>, T1: Conversion<'env>> Conversion<'env> for (T0, T1) {
    type Model = (T0::Model, T1::Model);

    open spec fn model(&self) -> Self::Model {
        (self.0.model(), self.1.model())
    }

    open spec fn encode(m: Self::Model) -> Result<ObjectModel<'env>, ConversionError> {
        if T0::encode(m.0) is Err {
            Err(T0::encode(m.0)->Err_0)
        } else if T1::encode(m.1) is Err {
            Err(T1::encode(m.1)->Err_0)
        } else {
            Ok(ObjectModel::Tuple(seq![T0::encode(m.0)->Ok_0, T1::encode(m.1)->Ok_0]))
        }
    }

    open spec fn decode(o: ObjectModel<'env>) -> Result<Self::Model, ConversionError> {
        match o {
            ObjectModel::Tuple(items) => if items.len() != 2 {
                Err(ConversionError::InvariantViolation { value: reported_count(items.len()) })
            } else {
                if T0::decode(items[0]) is Err {
                    Err(T0::decode(items[0])->Err_0)
                } else if T1::decode(items[1]) is Err {
                    Err(T1::decode(items[1])->Err_0)
                } else {
                    Ok((T0::decode(items[0])->Ok_0, T1::decode(items[1])->Ok_0))
                }
            },
            _ => Err(ConversionError::TypeMismatch { expected: Kind::Tuple, actual: o.kind() }),
        }
    }

    open spec fn round_trips(m: Self::Model) -> bool {
        T0::round_trips(m.0)
            && T1::round_trips(m.1)
    }

    proof fn lemma_round_trip(m: Self::Model) {
        T0::lemma_round_trip(m.0);
        T1::lemma_round_trip(m.1);
    }

    open spec fn shape_spec() -> Shape {
        let parts = Parts::End;
        let parts = Parts::Part(Box::new(T1::shape_spec()), Box::new(parts));
        let parts = Parts::Part(Box::new(T0::shape_spec()), Box::new(parts));
        Shape::Tuple(Box::new(parts))
    }

    fn shape() -> (s: Shape) {
        let parts = Parts::End;
        let parts = Parts::Part(Box::new(T1::shape()), Box::new(parts));
        let parts = Parts::Part(Box::new(T0::shape()), Box::new(parts));
        Shape::Tuple(Box::new(parts))
    }

    proof fn lemma_encoded_conforms(m: Self::Model) {
        if Self::encode(m) is Ok {
            let items = seq![T0::encode(m.0)->Ok_0, T1::encode(m.1)->Ok_0];
            let tail2 = Parts::End;
            lemma_conform_end(items);
            T1::lemma_encoded_conforms(m.1);
            let tail1 = Parts::Part(Box::new(T1::shape_spec()), Box::new(tail2));
            lemma_conform_part(items, T1::shape_spec(), tail2, 1);
            T0::lemma_encoded_conforms(m.0);
            let tail0 = Parts::Part(Box::new(T0::shape_spec()), Box::new(tail1));
            lemma_conform_part(items, T0::shape_spec(), tail1, 0);
            lemma_conforms_tuple(items, tail0);
        }
    }

    proof fn lemma_conforming_decodes(o: ObjectModel<'env>) {
        let items = o->Tuple_0;
        let tail2 = Parts::End;
        let tail1 = Parts::Part(Box::new(T1::shape_spec()), Box::new(tail2));
        let tail0 = Parts::Part(Box::new(T0::shape_spec()), Box::new(tail1));
        lemma_tuple_parts(items, tail0);
        lemma_conform_split(items, T0::shape_spec(), tail1, 0);
        T0::lemma_conforming_decodes(items[0]);
        lemma_conform_split(items, T1::shape_spec(), tail2, 1);
        T1::lemma_conforming_decodes(items[1]);
        lemma_conform_done(items, 2);
    }
}

impl<'env, T0: IntoJavaValue<'env>, T1: IntoJavaValue<'env>> IntoJavaValue<'env> for (T0, T1) {
    type Target = JavaObject<'env>;

    fn into(self) -> (t: JavaObject<'env>) {
        let ghost parts = seq![
            T0::encode(self.0.model())->Ok_0,
            T1::encode(self.1.model())->Ok_0,
        ];
        let (a0, a1) = self;
        let mut items: Vec<JavaObject<'env>> = Vec::new();
        put_part(&mut items, a0);
        put_part(&mut items, a1);
        proof {
            lemma_tuple_model(items);
            assert(models_of(items@) =~= parts);
        }
        JavaObject::Tuple(items)
    }
}

impl<'env, T0: FromJavaValue<'env>, T1: FromJavaValue<'env>> FromJavaValue<'env> for (T0, T1) {
    type Source = JavaObject<'env>;

    proof fn lemma_decode_unboxes(o: ObjectModel<'env>) {
    }

    fn from(s: JavaObject<'env>) -> (v: Self) {
        match s {
            JavaObject::Tuple(items) => {
                let ghost objects = models_of(items@);
                proof {
                    lemma_tuple_model(items);
                }
                let mut rest = reversed(items);
                assert(rest@.last()@ == objects[0]);
                let v0 = take_part::<T0>(&mut rest);
                assert(rest@.last()@ == objects[1]);
                let v1 = take_part::<T1>(&mut rest);
                (v0, v1)
            },
            _ => unreached(),
        }
    }
}

impl<'env, T0: TryIntoJavaValue<'env>, T1: TryIntoJavaValue<'env>> TryIntoJavaValue<'env> for (T0, T1) {
    type Target = JavaObject<'env>;

    fn try_into(self) -> (r: Result<JavaObject<'env>, ConversionError>) {
        let ghost parts = seq![
            T0::encode(self.0.model())->Ok_0,
            T1::encode(self.1.model())->Ok_0,
        ];
        let (a0, a1) = self;
        let mut items: Vec<JavaObject<'env>> = Vec::new();
        try_put_part(&mut items, a0)?;
        try_put_part(&mut items, a1)?;
        proof {
            lemma_tuple_model(items);
            assert(models_of(items@) =~= parts);
        }
        Ok(JavaObject::Tuple(items))
    }
}

impl<'env, T0: TryFromJavaValue<'env>, T1: TryFromJavaValue<'env>> TryFromJavaValue<'env> for (T0, T1) {
    type Source = JavaObject<'env>;

    proof fn lemma_decode_unboxes(o: ObjectModel<'env>) {
    }

    fn try_from(s: JavaObject<'env>) -> (r: Result<Self, ConversionError>) {
        match s {
            JavaObject::Tuple(items) => {
                let ghost objects = models_of(items@);
                proof {
                    lemma_tuple_model(items);
                }
                if items.len() != 2 {
                    return Err(
                        ConversionError::InvariantViolation { value: report_count(items.len()) },
                    );
                }
                let mut rest = reversed(items);
                assert(rest@.last()@ == objects[0]);
                let v0 = try_take_part::<T0>(&mut rest)?;
                assert(rest@.last()@ == objects[1]);
                let v1 = try_take_part::<T1>(&mut rest)?;
                Ok((v0, v1))
            },
            other => Err(ConversionError::mismatch(Kind::Tuple, other.kind())),
        }
    }
}

impl<T0, T1, T2> Signature for (T0, T1, T2) {
    open spec fn sig_type_spec() -> Seq<char> {
        "LTuple3;"@
    }

    fn sig_type() -> (s: &'static str) {
        "LTuple3;"
    }
}

impl<'env, T0: Conversion<'env>, T1: Conversion<'env>, T2: Conversion<'env>> Conversion<'env> for (T0, T1, T2) {
    type Model = (T0::Model, T1::Model, T2::Model);

    open spec fn model(&self) -> Self::Model {
        (self.0.model(), self.1.model(), self.2.model())
    }

    open spec fn encode(m: Self::Model) -> Result<ObjectModel<'env>, ConversionError> {
        if T0::encode(m.0) is Err {
            Err(T0::encode(m.0)->Err_0)
        } else if T1::encode(m.1) is Err {
            Err(T1::encode(m.1)->Err_0)
        } else if T2::encode(m.2) is Err {
            Err(T2::encode(m.2)->Err_0)
        } else {
            Ok(
                ObjectModel::Tuple(seq![
                    T0::encode(m.0)->Ok_0,
                    T1::encode(m.1)->Ok_0,
                    T2::encode(m.2)->Ok_0,
                ]),
            )
        }
    }

    open spec fn decode(o: ObjectModel<'env>) -> Result<Self::Model, ConversionError> {
        match o {
            ObjectModel::Tuple(items) => if items.len() != 3 {
                Err(ConversionError::InvariantViolation { value: reported_count(items.len()) })
            } else {
                if T0::decode(items[0]) is Err {
                    Err(T0::decode(items[0])->Err_0)
                } else if T1::decode(items[1]) is Err {
                    Err(T1::decode(items[1])->Err_0)
                } else if T2::decode(items[2]) is Err {
                    Err(T2::decode(items[2])->Err_0)
                } else {
                    Ok(
                        (
                            T0::decode(items[0])->Ok_0,
                            T1::decode(items[1])->Ok_0,
                            T2::decode(items[2])->Ok_0,
                        ),
                    )
                }
            },
            _ => Err(ConversionError::TypeMismatch { expected: Kind::Tuple, actual: o.kind() }),
        }
    }

    open spec fn round_trips(m: Self::Model) -> bool {
        T0::round_trips(m.0)
            && T1::round_trips(m.1)
            && T2::round_trips(m.2)
    }

    proof fn lemma_round_trip(m: Self::Model) {
        T0::lemma_round_trip(m.0);
        T1::lemma_round_trip(m.1);
        T2::lemma_round_trip(m.2);
    }

    open spec fn shape_spec() -> Shape {
        let parts = Parts::End;
        let parts = Parts::Part(Box::new(T2::shape_spec()), Box::new(parts));
        let parts = Parts::Part(Box::new(T1::shape_spec()), Box::new(parts));
        let parts = Parts::Part(Box::new(T0::shape_spec()), Box::new(parts));
        Shape::Tuple(Box::new(parts))
    }

    fn shape() -> (s: Shape) {
        let parts = Parts::End;
        let parts = Parts::Part(Box::new(T2::shape()), Box::new(parts));
        let parts = Parts::Part(Box::new(T1::shape()), Box::new(parts));
        let parts = Parts::Part(Box::new(T0::shape()), Box::new(parts));
        Shape::Tuple(Box::new(parts))
    }

    proof fn lemma_encoded_conforms(m: Self::Model) {
        if Self::encode(m) is Ok {
            let items = seq![
                T0::encode(m.0)->Ok_0,
                T1::encode(m.1)->Ok_0,
                T2::encode(m.2)->Ok_0,
            ];
            let tail3 = Parts::End;
            lemma_conform_end(items);
            T2::lemma_encoded_conforms(m.2);
            let tail2 = Parts::Part(Box::new(T2::shape_spec()), Box::new(tail3));
            lemma_conform_part(items, T2::shape_spec(), tail3, 2);
            T1::lemma_encoded_conforms(m.1);
            let tail1 = Parts::Part(Box::new(T1::shape_spec()), Box::new(tail2));
            lemma_conform_part(items, T1::shape_spec(), tail2, 1);
            T0::lemma_encoded_conforms(m.0);
            let tail0 = Parts::Part(Box::new(T0::shape_spec()), Box::new(tail1));
            lemma_conform_part(items, T0::shape_spec(), tail1, 0);
            lemma_conforms_tuple(items, tail0);
        }
    }

    proof fn lemma_conforming_decodes(o: ObjectModel<'env>) {
        let items = o->Tuple_0;
        let tail3 = Parts::End;
        let tail2 = Parts::Part(Box::new(T2::shape_spec()), Box::new(tail3));
        let tail1 = Parts::Part(Box::new(T1::shape_spec()), Box::new(tail2));
        let tail0 = Parts::Part(Box::new(T0::shape_spec()), Box::new(tail1));
        lemma_tuple_parts(items, tail0);
        lemma_conform_split(items, T0::shape_spec(), tail1, 0);
        T0::lemma_conforming_decodes(items[0]);
        lemma_conform_split(items, T1::shape_spec(), tail2, 1);
        T1::lemma_conforming_decodes(items[1]);
        lemma_conform_split(items, T2::shape_spec(), tail3, 2);
        T2::lemma_conforming_decodes(items[2]);
        lemma_conform_done(items, 3);
    }
}

impl<'env, T0: IntoJavaValue<'env>, T1: IntoJavaValue<'env>, T2: IntoJavaValue<'env>> IntoJavaValue<'env> for (T0, T1, T2) {
    type Target = JavaObject<'env>;

    fn into(self) -> (t: JavaObject<'env>) {
        let ghost parts = seq![
            T0::encode(self.0.model())->Ok_0,
            T1::encode(self.1.model())->Ok_0,
            T2::encode(self.2.model())->Ok_0,
        ];
        let (a0, a1, a2) = self;
        let mut items: Vec<JavaObject<'env>> = Vec::new();
        put_part(&mut items, a0);
        put_part(&mut items, a1);
        put_part(&mut items, a2);
        proof {
            lemma_tuple_model(items);
            assert(models_of(items@) =~= parts);
        }
        JavaObject::Tuple(items)
    }
}

impl<'env, T0: FromJavaValue<'env>, T1: FromJavaValue<'env>, T2: FromJavaValue<'env>> FromJavaValue<'env> for (T0, T1, T2) {
    type Source = JavaObject<'env>;

    proof fn lemma_decode_unboxes(o: ObjectModel<'env>) {
    }

    fn from(s: JavaObject<'env>) -> (v: Self) {
        match s {
            JavaObject::Tuple(items) => {
                let ghost objects = models_of(items@);
                proof {
                    lemma_tuple_model(items);
                }
                let mut rest = reversed(items);
                assert(rest@.last()@ == objects[0]);
                let v0 = take_part::<T0>(&mut rest);
                assert(rest@.last()@ == objects[1]);
                let v1 = take_part::<T1>(&mut rest);
                assert(rest@.last()@ == objects[2]);
                let v2 = take_part::<T2>(&mut rest);
                (v0, v1, v2)
            },
            _ => unreached(),
        }
    }
}

impl<'env, T0: TryIntoJavaValue<'env>, T1: TryIntoJavaValue<'env>, T2: TryIntoJavaValue<'env>> TryIntoJavaValue<'env> for (T0, T1, T2) {
    type Target = JavaObject<'env>;

    fn try_into(self) -> (r: Result<JavaObject<'env>, ConversionError>) {
        let ghost parts = seq![
            T0::encode(self.0.model())->Ok_0,
            T1::encode(self.1.model())->Ok_0,
            T2::encode(self.2.model())->Ok_0,
        ];
        let (a0, a1, a2) = self;
        let mut items: Vec<JavaObject<'env>> = Vec::new();
        try_put_part(&mut items, a0)?;
        try_put_part(&mut items, a1)?;
        try_put_part(&mut items, a2)?;
        proof {
            lemma_tuple_model(items);
            assert(models_of(items@) =~= parts);
        }
        Ok(JavaObject::Tuple(items))
    }
}

impl<'env, T0: TryFromJavaValue<'env>, T1: TryFromJavaValue<'env>, T2: TryFromJavaValue<'env>> TryFromJavaValue<'env> for (T0, T1, T2) {
    type Source = JavaObject<'env>;

    proof fn lemma_decode_unboxes(o: ObjectModel<'env>) {
    }

    fn try_from(s: JavaObject<'env>) -> (r: Result<Self, ConversionError>) {
        match s {
            JavaObject::Tuple(items) => {
                let ghost objects = models_of(items@);
                proof {
                    lemma_tuple_model(items);
                }
                if items.len() != 3 {
                    return Err(
                        ConversionError::InvariantViolation { value: report_count(items.len()) },
                    );
                }
                let mut rest = reversed(items);
                assert(rest@.last()@ == objects[0]);
                let v0 = try_take_part::<T0>(&mut rest)?;
                assert(rest@.last()@ == objects[1]);
                let v1 = try_take_part::<T1>(&mut rest)?;
                assert(rest@.last()@ == objects[2]);
                let v2 = try_take_part::<T2>(&mut rest)?;
                Ok((v0, v1, v2))
            },
            other => Err(ConversionError::mismatch(Kind::Tuple, other.kind())),
        }
    }
}

impl<
    T0,
    T1,
    T2,
    T3,
> Signature for (T0, T1, T2, T3) {
    open spec fn sig_type_spec() -> Seq<char> {
        "LTuple4;"@
    }

    fn sig_type() -> (s: &'static str) {
        "LTuple4;"
    }
}

impl<
    'env,
    T0: Conversion<'env>,
    T1: Conversion<'env>,
    T2: Conversion<'env>,
    T3: Conversion<'env>,
> Conversion<'env> for (T0, T1, T2, T3) {
    type Model = (T0::Model, T1::Model, T2::Model, T3::Model);

    open spec fn model(&self) -> Self::Model {
        (self.0.model(), self.1.model(), self.2.model(), self.3.model())
    }

    open spec fn encode(m: Self::Model) -> Result<ObjectModel<'env>, ConversionError> {
        if T0::encode(m.0) is Err {
            Err(T0::encode(m.0)->Err_0)
        } else if T1::encode(m.1) is Err {
            Err(T1::encode(m.1)->Err_0)
        } else if T2::encode(m.2) is Err {
            Err(T2::encode(m.2)->Err_0)
        } else if T3::encode(m.3) is Err {
            Err(T3::encode(m.3)->Err_0)
        } else {
            Ok(
                ObjectModel::Tuple(seq![
                    T0::encode(m.0)->Ok_0,
                    T1::encode(m.1)->Ok_0,
                    T2::encode(m.2)->Ok_0,
                    T3::encode(m.3)->Ok_0,
                ]),
            )
        }
    }

    open spec fn decode(o: ObjectModel<'env>) -> Result<Self::Model, ConversionError> {
        match o {
            ObjectModel::Tuple(items) => if items.len() != 4 {
                Err(ConversionError::InvariantViolation { value: reported_count(items.len()) })
            } else {
                if T0::decode(items[0]) is Err {
                    Err(T0::decode(items[0])->Err_0)
                } else if T1::decode(items[1]) is Err {
                    Err(T1::decode(items[1])->Err_0)
                } else if T2::decode(items[2]) is Err {
                    Err(T2::decode(items[2])->Err_0)
                } else if T3::decode(items[3]) is Err {
                    Err(T3::decode(items[3])->Err_0)
                } else {
                    Ok(
                        (
                            T0::decode(items[0])->Ok_0,
                            T1::decode(items[1])->Ok_0,
                            T2::decode(items[2])->Ok_0,
                            T3::decode(items[3])->Ok_0,
                        ),
                    )
                }
            },
            _ => Err(ConversionError::TypeMismatch { expected: Kind::Tuple, actual: o.kind() }),
        }
    }

    open spec fn round_trips(m: Self::Model) -> bool {
        T0::round_trips(m.0)
            && T1::round_trips(m.1)
            && T2::round_trips(m.2)
            && T3::round_trips(m.3)
    }

    proof fn lemma_round_trip(m: Self::Model) {
        T0::lemma_round_trip(m.0);
        T1::lemma_round_trip(m.1);
        T2::lemma_round_trip(m.2);
        T3::lemma_round_trip(m.3);
    }

    open spec fn shape_spec() -> Shape {
        let parts = Parts::End;
        let parts = Parts::Part(Box::new(T3::shape_spec()), Box::new(parts));
        let parts = Parts::Part(Box::new(T2::shape_spec()), Box::new(parts));
        let parts = Parts::Part(Box::new(T1::shape_spec()), Box::new(parts));
        let parts = Parts::Part(Box::new(T0::shape_spec()), Box::new(parts));
        Shape::Tuple(Box::new(parts))
    }

    fn shape() -> (s: Shape) {
        let parts = Parts::End;
        let parts = Parts::Part(Box::new(T3::shape()), Box::new(parts));
        let parts = Parts::Part(Box::new(T2::shape()), Box::new(parts));
        let parts = Parts::Part(Box::new(T1::shape()), Box::new(parts));
        let parts = Parts::Part(Box::new(T0::shape()), Box::new(parts));
        Shape::Tuple(Box::new(parts))
    }

    proof fn lemma_encoded_conforms(m: Self::Model) {
        if Self::encode(m) is Ok {
            let items = seq![
                T0::encode(m.0)->Ok_0,
                T1::encode(m.1)->Ok_0,
                T2::encode(m.2)->Ok_0,
                T3::encode(m.3)->Ok_0,
            ];
            let tail4 = Parts::End;
            lemma_conform_end(items);
            T3::lemma_encoded_conforms(m.3);
            let tail3 = Parts::Part(Box::new(T3::shape_spec()), Box::new(tail4));
            lemma_conform_part(items, T3::shape_spec(), tail4, 3);
            T2::lemma_encoded_conforms(m.2);
            let tail2 = Parts::Part(Box::new(T2::shape_spec()), Box::new(tail3));
            lemma_conform_part(items, T2::shape_spec(), tail3, 2);
            T1::lemma_encoded_conforms(m.1);
            let tail1 = Parts::Part(Box::new(T1::shape_spec()), Box::new(tail2));
            lemma_conform_part(items, T1::shape_spec(), tail2, 1);
            T0::lemma_encoded_conforms(m.0);
            let tail0 = Parts::Part(Box::new(T0::shape_spec()), Box::new(tail1));
            lemma_conform_part(items, T0::shape_spec(), tail1, 0);
            lemma_conforms_tuple(items, tail0);
        }
    }

    proof fn lemma_conforming_decodes(o: ObjectModel<'env>) {
        let items = o->Tuple_0;
        let tail4 = Parts::End;
        let tail3 = Parts::Part(Box::new(T3::shape_spec()), Box::new(tail4));
        let tail2 = Parts::Part(Box::new(T2::shape_spec()), Box::new(tail3));
        let tail1 = Parts::Part(Box::new(T1::shape_spec()), Box::new(tail2));
        let tail0 = Parts::Part(Box::new(T0::shape_spec()), Box::new(tail1));
        lemma_tuple_parts(items, tail0);
        lemma_conform_split(items, T0::shape_spec(), tail1, 0);
        T0::lemma_conforming_decodes(items[0]);
        lemma_conform_split(items, T1::shape_spec(), tail2, 1);
        T1::lemma_conforming_decodes(items[1]);
        lemma_conform_split(items, T2::shape_spec(), tail3, 2);
        T2::lemma_conforming_decodes(items[2]);
        lemma_conform_split(items, T3::shape_spec(), tail4, 3);
        T3::lemma_conforming_decodes(items[3]);
        lemma_conform_done(items, 4);
    }
}

impl<
    'env,
    T0: IntoJavaValue<'env>,
    T1: IntoJavaValue<'env>,
    T2: IntoJavaValue<'env>,
    T3: IntoJavaValue<'env>,
> IntoJavaValue<'env> for (T0, T1, T2, T3) {
    type Target = JavaObject<'env>;

    fn into(self) -> (t: JavaObject<'env>) {
        let ghost parts = seq![
            T0::encode(self.0.model())->Ok_0,
            T1::encode(self.1.model())->Ok_0,
            T2::encode(self.2.model())->Ok_0,
            T3::encode(self.3.model())->Ok_0,
        ];
        let (a0, a1, a2, a3) = self;
        let mut items: Vec<JavaObject<'env>> = Vec::new();
        put_part(&mut items, a0);
        put_part(&mut items, a1);
        put_part(&mut items, a2);
        put_part(&mut items, a3);
        proof {
            lemma_tuple_model(items);
            assert(models_of(items@) =~= parts);
        }
        JavaObject::Tuple(items)
    }
}

impl<
    'env,
    T0: FromJavaValue<'env>,
    T1: FromJavaValue<'env>,
    T2: FromJavaValue<'env>,
    T3: FromJavaValue<'env>,
> FromJavaValue<'env> for (T0, T1, T2, T3) {
    type Source = JavaObject<'env>;

    proof fn lemma_decode_unboxes(o: ObjectModel<'env>) {
    }

    fn from(s: JavaObject<'env>) -> (v: Self) {
        match s {
            JavaObject::Tuple(items) => {
                let ghost objects = models_of(items@);
                proof {
                    lemma_tuple_model(items);
                }
                let mut rest = reversed(items);
                assert(rest@.last()@ == objects[0]);
                let v0 = take_part::<T0>(&mut rest);
                assert(rest@.last()@ == objects[1]);
                let v1 = take_part::<T1>(&mut rest);
                assert(rest@.last()@ == objects[2]);
                let v2 = take_part::<T2>(&mut rest);
                assert(rest@.last()@ == objects[3]);
                let v3 = take_part::<T3>(&mut rest);
                (v0, v1, v2, v3)
            },
            _ => unreached(),
        }
    }
}

impl<
    'env,
    T0: TryIntoJavaValue<'env>,
    T1: TryIntoJavaValue<'env>,
    T2: TryIntoJavaValue<'env>,
    T3: TryIntoJavaValue<'env>,
> TryIntoJavaValue<'env> for (T0, T1, T2, T3) {
    type Target = JavaObject<'env>;

    fn try_into(self) -> (r: Result<JavaObject<'env>, ConversionError>) {
        let ghost parts = seq![
            T0::encode(self.0.model())->Ok_0,
            T1::encode(self.1.model())->Ok_0,
            T2::encode(self.2.model())->Ok_0,
            T3::encode(self.3.model())->Ok_0,
        ];
        let (a0, a1, a2, a3) = self;
        let mut items: Vec<JavaObject<'env>> = Vec::new();
        try_put_part(&mut items, a0)?;
        try_put_part(&mut items, a1)?;
        try_put_part(&mut items, a2)?;
        try_put_part(&mut items, a3)?;
        proof {
            lemma_tuple_model(items);
            assert(models_of(items@) =~= parts);
        }
        Ok(JavaObject::Tuple(items))
    }
}

impl<
    'env,
    T0: TryFromJavaValue<'env>,
    T1: TryFromJavaValue<'env>,
    T2: TryFromJavaValue<'env>,
    T3: TryFromJavaValue<'env>,
> TryFromJavaValue<'env> for (T0, T1, T2, T3) {
    type Source = JavaObject<'env>;

    proof fn lemma_decode_unboxes(o: ObjectModel<'env>) {
    }

    fn try_from(s: JavaObject<'env>) -> (r: Result<Self, ConversionError>) {
        match s {
            JavaObject::Tuple(items) => {
                let ghost objects = models_of(items@);
                proof {
                    lemma_tuple_model(items);
                }
                if items.len() != 4 {
                    return Err(
                        ConversionError::InvariantViolation { value: report_count(items.len()) },
                    );
                }
                let mut rest = reversed(items);
                assert(rest@.last()@ == objects[0]);
                let v0 = try_take_part::<T0>(&mut rest)?;
                assert(rest@.last()@ == objects[1]);
                let v1 = try_take_part::<T1>(&mut rest)?;
                assert(rest@.last()@ == objects[2]);
                let v2 = try_take_part::<T2>(&mut rest)?;
                assert(rest@.last()@ == objects[3]);
                let v3 = try_take_part::<T3>(&mut rest)?;
                Ok((v0, v1, v2, v3))
            },
            other => Err(ConversionError::mismatch(Kind::Tuple, other.kind())),
        }
    }
}

impl<
    T0,
    T1,
    T2,
    T3,
    T4,
> Signature for (T0, T1, T2, T3, T4) {
    open spec fn sig_type_spec() -> Seq<char> {
        "LTuple5;"@
    }

    fn sig_type() -> (s: &'static str) {
        "LTuple5;"
    }
}

impl<
    'env,
    T0: Conversion<'env>,
    T1: Conversion<'env>,
    T2: Conversion<'env>,
    T3: Conversion<'env>,
    T4: Conversion<'env>,
> Conversion<'env> for (T0, T1, T2, T3, T4) {
    type Model = (T0::Model, T1::Model, T2::Model, T3::Model, T4::Model);

    open spec fn model(&self) -> Self::Model {
        (
            self.0.model(),
            self.1.model(),
            self.2.model(),
            self.3.model(),
            self.4.model(),
        )
    }

    open spec fn encode(m: Self::Model) -> Result<ObjectModel<'env>, ConversionError> {
        if T0::encode(m.0) is Err {
            Err(T0::encode(m.0)->Err_0)
        } else if T1::encode(m.1) is Err {
            Err(T1::encode(m.1)->Err_0)
        } else if T2::encode(m.2) is Err {
            Err(T2::encode(m.2)->Err_0)
        } else if T3::encode(m.3) is Err {
            Err(T3::encode(m.3)->Err_0)
        } else if T4::encode(m.4) is Err {
            Err(T4::encode(m.4)->Err_0)
        } else {
            Ok(
                ObjectModel::Tuple(seq![
                    T0::encode(m.0)->Ok_0,
                    T1::encode(m.1)->Ok_0,
                    T2::encode(m.2)->Ok_0,
                    T3::encode(m.3)->Ok_0,
                    T4::encode(m.4)->Ok_0,
                ]),
            )
        }
    }

    open spec fn decode(o: ObjectModel<'env>) -> Result<Self::Model, ConversionError> {
        match o {
            ObjectModel::Tuple(items) => if items.len() != 5 {
                Err(ConversionError::InvariantViolation { value: reported_count(items.len()) })
            } else {
                if T0::decode(items[0]) is Err {
                    Err(T0::decode(items[0])->Err_0)
                } else if T1::decode(items[1]) is Err {
                    Err(T1::decode(items[1])->Err_0)
                } else if T2::decode(items[2]) is Err {
                    Err(T2::decode(items[2])->Err_0)
                } else if T3::decode(items[3]) is Err {
                    Err(T3::decode(items[3])->Err_0)
                } else if T4::decode(items[4]) is Err {
                    Err(T4::decode(items[4])->Err_0)
                } else {
                    Ok(
                        (
                            T0::decode(items[0])->Ok_0,
                            T1::decode(items[1])->Ok_0,
                            T2::decode(items[2])->Ok_0,
                            T3::decode(items[3])->Ok_0,
                            T4::decode(items[4])->Ok_0,
                        ),
                    )
                }
            },
            _ => Err(ConversionError::TypeMismatch { expected: Kind::Tuple, actual: o.kind() }),
        }
    }

    open spec fn round_trips(m: Self::Model) -> bool {
        T0::round_trips(m.0)
            && T1::round_trips(m.1)
            && T2::round_trips(m.2)
            && T3::round_trips(m.3)
            && T4::round_trips(m.4)
    }

    proof fn lemma_round_trip(m: Self::Model) {
        T0::lemma_round_trip(m.0);
        T1::lemma_round_trip(m.1);
        T2::lemma_round_trip(m.2);
        T3::lemma_round_trip(m.3);
        T4::lemma_round_trip(m.4);
    }

    open spec fn shape_spec() -> Shape {
        let parts = Parts::End;
        let parts = Parts::Part(Box::new(T4::shape_spec()), Box::new(parts));
        let parts = Parts::Part(Box::new(T3::shape_spec()), Box::new(parts));
        let parts = Parts::Part(Box::new(T2::shape_spec()), Box::new(parts));
        let parts = Parts::Part(Box::new(T1::shape_spec()), Box::new(parts));
        let parts = Parts::Part(Box::new(T0::shape_spec()), Box::new(parts));
        Shape::Tuple(Box::new(parts))
    }

    fn shape() -> (s: Shape) {
        let parts = Parts::End;
        let parts = Parts::Part(Box::new(T4::shape()), Box::new(parts));
        let parts = Parts::Part(Box::new(T3::shape()), Box::new(parts));
        let parts = Parts::Part(Box::new(T2::shape()), Box::new(parts));
        let parts = Parts::Part(Box::new(T1::shape()), Box::new(parts));
        let parts = Parts::Part(Box::new(T0::shape()), Box::new(parts));
        Shape::Tuple(Box::new(parts))
    }

    proof fn lemma_encoded_conforms(m: Self::Model) {
        if Self::encode(m) is Ok {
            let items = seq![
                T0::encode(m.0)->Ok_0,
                T1::encode(m.1)->Ok_0,
                T2::encode(m.2)->Ok_0,
                T3::encode(m.3)->Ok_0,
                T4::encode(m.4)->Ok_0,
            ];
            let tail5 = Parts::End;
            lemma_conform_end(items);
            T4::lemma_encoded_conforms(m.4);
            let tail4 = Parts::Part(Box::new(T4::shape_spec()), Box::new(tail5));
            lemma_conform_part(items, T4::shape_spec(), tail5, 4);
            T3::lemma_encoded_conforms(m.3);
            let tail3 = Parts::Part(Box::new(T3::shape_spec()), Box::new(tail4));
            lemma_conform_part(items, T3::shape_spec(), tail4, 3);
            T2::lemma_encoded_conforms(m.2);
            let tail2 = Parts::Part(Box::new(T2::shape_spec()), Box::new(tail3));
            lemma_conform_part(items, T2::shape_spec(), tail3, 2);
            T1::lemma_encoded_conforms(m.1);
            let tail1 = Parts::Part(Box::new(T1::shape_spec()), Box::new(tail2));
            lemma_conform_part(items, T1::shape_spec(), tail2, 1);
            T0::lemma_encoded_conforms(m.0);
            let tail0 = Parts::Part(Box::new(T0::shape_spec()), Box::new(tail1));
            lemma_conform_part(items, T0::shape_spec(), tail1, 0);
            lemma_conforms_tuple(items, tail0);
        }
    }

    proof fn lemma_conforming_decodes(o: ObjectModel<'env>) {
        let items = o->Tuple_0;
        let tail5 = Parts::End;
        let tail4 = Parts::Part(Box::new(T4::shape_spec()), Box::new(tail5));
        let tail3 = Parts::Part(Box::new(T3::shape_spec()), Box::new(tail4));
        let tail2 = Parts::Part(Box::new(T2::shape_spec()), Box::new(tail3));
        let tail1 = Parts::Part(Box::new(T1::shape_spec()), Box::new(tail2));
        let tail0 = Parts::Part(Box::new(T0::shape_spec()), Box::new(tail1));
        lemma_tuple_parts(items, tail0);
        lemma_conform_split(items, T0::shape_spec(), tail1, 0);
        T0::lemma_conforming_decodes(items[0]);
        lemma_conform_split(items, T1::shape_spec(), tail2, 1);
        T1::lemma_conforming_decodes(items[1]);
        lemma_conform_split(items, T2::shape_spec(), tail3, 2);
        T2::lemma_conforming_decodes(items[2]);
        lemma_conform_split(items, T3::shape_spec(), tail4, 3);
        T3::lemma_conforming_decodes(items[3]);
        lemma_conform_split(items, T4::shape_spec(), tail5, 4);
        T4::lemma_conforming_decodes(items[4]);
        lemma_conform_done(items, 5);
    }
}

impl<
    'env,
    T0: IntoJavaValue<'env>,
    T1: IntoJavaValue<'env>,
    T2: IntoJavaValue<'env>,
    T3: IntoJavaValue<'env>,
    T4: IntoJavaValue<'env>,
> IntoJavaValue<'env> for (T0, T1, T2, T3, T4) {
    type Target = JavaObject<'env>;

    fn into(self) -> (t: JavaObject<'env>) {
        let ghost parts = seq![
            T0::encode(self.0.model())->Ok_0,
            T1::encode(self.1.model())->Ok_0,
            T2::encode(self.2.model())->Ok_0,
            T3::encode(self.3.model())->Ok_0,
            T4::encode(self.4.model())->Ok_0,
        ];
        let (a0, a1, a2, a3, a4) = self;
        let mut items: Vec<JavaObject<'env>> = Vec::new();
        put_part(&mut items, a0);
        put_part(&mut items, a1);
        put_part(&mut items, a2);
        put_part(&mut items, a3);
        put_part(&mut items, a4);
        proof {
            lemma_tuple_model(items);
            assert(models_of(items@) =~= parts);
        }
        JavaObject::Tuple(items)
    }
}

impl<
    'env,
    T0: FromJavaValue<'env>,
    T1: FromJavaValue<'env>,
    T2: FromJavaValue<'env>,
    T3: FromJavaValue<'env>,
    T4: FromJavaValue<'env>,
> FromJavaValue<'env> for (T0, T1, T2, T3, T4) {
    type Source = JavaObject<'env>;

    proof fn lemma_decode_unboxes(o: ObjectModel<'env>) {
    }

    fn from(s: JavaObject<'env>) -> (v: Self) {
        match s {
            JavaObject::Tuple(items) => {
                let ghost objects = models_of(items@);
                proof {
                    lemma_tuple_model(items);
                }
                let mut rest = reversed(items);
                assert(rest@.last()@ == objects[0]);
                let v0 = take_part::<T0>(&mut rest);
                assert(rest@.last()@ == objects[1]);
                let v1 = take_part::<T1>(&mut rest);
                assert(rest@.last()@ == objects[2]);
                let v2 = take_part::<T2>(&mut rest);
                assert(rest@.last()@ == objects[3]);
                let v3 = take_part::<T3>(&mut rest);
                assert(rest@.last()@ == objects[4]);
                let v4 = take_part::<T4>(&mut rest);
                (v0, v1, v2, v3, v4)
            },
            _ => unreached(),
        }
    }
}

impl<
    'env,
    T0: TryIntoJavaValue<'env>,
    T1: TryIntoJavaValue<'env>,
    T2: TryIntoJavaValue<'env>,
    T3: TryIntoJavaValue<'env>,
    T4: TryIntoJavaValue<'env>,
> TryIntoJavaValue<'env> for (T0, T1, T2, T3, T4) {
    type Target = JavaObject<'env>;

    fn try_into(self) -> (r: Result<JavaObject<'env>, ConversionError>) {
        let ghost parts = seq![
            T0::encode(self.0.model())->Ok_0,
            T1::encode(self.1.model())->Ok_0,
            T2::encode(self.2.model())->Ok_0,
            T3::encode(self.3.model())->Ok_0,
            T4::encode(self.4.model())->Ok_0,
        ];
        let (a0, a1, a2, a3, a4) = self;
        let mut items: Vec<JavaObject<'env>> = Vec::new();
        try_put_part(&mut items, a0)?;
        try_put_part(&mut items, a1)?;
        try_put_part(&mut items, a2)?;
        try_put_part(&mut items, a3)?;
        try_put_part(&mut items, a4)?;
        proof {
            lemma_tuple_model(items);
            assert(models_of(items@) =~= parts);
        }
        Ok(JavaObject::Tuple(items))
    }
}

impl<
    'env,
    T0: TryFromJavaValue<'env>,
    T1: TryFromJavaValue<'env>,
    T2: TryFromJavaValue<'env>,
    T3: TryFromJavaValue<'env>,
    T4: TryFromJavaValue<'env>,
> TryFromJavaValue<'env> for (T0, T1, T2, T3, T4) {
    type Source = JavaObject<'env>;

    proof fn lemma_decode_unboxes(o: ObjectModel<'env>) {
    }

    fn try_from(s: JavaObject<'env>) -> (r: Result<Self, ConversionError>) {
        match s {
            JavaObject::Tuple(items) => {
                let ghost objects = models_of(items@);
                proof {
                    lemma_tuple_model(items);
                }
                if items.len() != 5 {
                    return Err(
                        ConversionError::InvariantViolation { value: report_count(items.len()) },
                    );
                }
                let mut rest = reversed(items);
                assert(rest@.last()@ == objects[0]);
                let v0 = try_take_part::<T0>(&mut rest)?;
                assert(rest@.last()@ == objects[1]);
                let v1 = try_take_part::<T1>(&mut rest)?;
                assert(rest@.last()@ == objects[2]);
                let v2 = try_take_part::<T2>(&mut rest)?;
                assert(rest@.last()@ == objects[3]);
                let v3 = try_take_part::<T3>(&mut rest)?;
                assert(rest@.last()@ == objects[4]);
                let v4 = try_take_part::<T4>(&mut rest)?;
                Ok((v0, v1, v2, v3, v4))
            },
            other => Err(ConversionError::mismatch(Kind::Tuple, other.kind())),
        }
    }
}

impl<
    T0,
    T1,
    T2,
    T3,
    T4,
    T5,
> Signature for (T0, T1, T2, T3, T4, T5) {
    open spec fn sig_type_spec() -> Seq<char> {
        "LTuple6;"@
    }

    fn sig_type() -> (s: &'static str) {
        "LTuple6;"
    }
}

impl<
    'env,
    T0: Conversion<'env>,
    T1: Conversion<'env>,
    T2: Conversion<'env>,
    T3: Conversion<'env>,
    T4: Conversion<'env>,
    T5: Conversion<'env>,
> Conversion<'env> for (T0, T1, T2, T3, T4, T5) {
    type Model = (T0::Model, T1::Model, T2::Model, T3::Model, T4::Model, T5::Model);

    open spec fn model(&self) -> Self::Model {
        (
            self.0.model(),
            self.1.model(),
            self.2.model(),
            self.3.model(),
            self.4.model(),
            self.5.model(),
        )
    }

    open spec fn encode(m: Self::Model) -> Result<ObjectModel<'env>, ConversionError> {
        if T0::encode(m.0) is Err {
            Err(T0::encode(m.0)->Err_0)
        } else if T1::encode(m.1) is Err {
            Err(T1::encode(m.1)->Err_0)
        } else if T2::encode(m.2) is Err {
            Err(T2::encode(m.2)->Err_0)
        } else if T3::encode(m.3) is Err {
            Err(T3::encode(m.3)->Err_0)
        } else if T4::encode(m.4) is Err {
            Err(T4::encode(m.4)->Err_0)
        } else if T5::encode(m.5) is Err {
            Err(T5::encode(m.5)->Err_0)
        } else {
            Ok(
                ObjectModel::Tuple(seq![
                    T0::encode(m.0)->Ok_0,
                    T1::encode(m.1)->Ok_0,
                    T2::encode(m.2)->Ok_0,
                    T3::encode(m.3)->Ok_0,
                    T4::encode(m.4)->Ok_0,
                    T5::encode(m.5)->Ok_0,
                ]),
            )
        }
    }

    open spec fn decode(o: ObjectModel<'env>) -> Result<Self::Model, ConversionError> {
        match o {
            ObjectModel::Tuple(items) => if items.len() != 6 {
                Err(ConversionError::InvariantViolation { value: reported_count(items.len()) })
            } else {
                if T0::decode(items[0]) is Err {
                    Err(T0::decode(items[0])->Err_0)
                } else if T1::decode(items[1]) is Err {
                    Err(T1::decode(items[1])->Err_0)
                } else if T2::decode(items[2]) is Err {
                    Err(T2::decode(items[2])->Err_0)
                } else if T3::decode(items[3]) is Err {
                    Err(T3::decode(items[3])->Err_0)
                } else if T4::decode(items[4]) is Err {
                    Err(T4::decode(items[4])->Err_0)
                } else if T5::decode(items[5]) is Err {
                    Err(T5::decode(items[5])->Err_0)
                } else {
                    Ok(
                        (
                            T0::decode(items[0])->Ok_0,
                            T1::decode(items[1])->Ok_0,
                            T2::decode(items[2])->Ok_0,
                            T3::decode(items[3])->Ok_0,
                            T4::decode(items[4])->Ok_0,
                            T5::decode(items[5])->Ok_0,
                        ),
                    )
                }
            },
            _ => Err(ConversionError::TypeMismatch { expected: Kind::Tuple, actual: o.kind() }),
        }
    }

    open spec fn round_trips(m: Self::Model) -> bool {
        T0::round_trips(m.0)
            && T1::round_trips(m.1)
            && T2::round_trips(m.2)
            && T3::round_trips(m.3)
            && T4::round_trips(m.4)
            && T5::round_trips(m.5)
    }

    proof fn lemma_round_trip(m: Self::Model) {
        T0::lemma_round_trip(m.0);
        T1::lemma_round_trip(m.1);
        T2::lemma_round_trip(m.2);
        T3::lemma_round_trip(m.3);
        T4::lemma_round_trip(m.4);
        T5::lemma_round_trip(m.5);
    }

    open spec fn shape_spec() -> Shape {
        let parts = Parts::End;
        let parts = Parts::Part(Box::new(T5::shape_spec()), Box::new(parts));
        let parts = Parts::Part(Box::new(T4::shape_spec()), Box::new(parts));
        let parts = Parts::Part(Box::new(T3::shape_spec()), Box::new(parts));
        let parts = Parts::Part(Box::new(T2::shape_spec()), Box::new(parts));
        let parts = Parts::Part(Box::new(T1::shape_spec()), Box::new(parts));
        let parts = Parts::Part(Box::new(T0::shape_spec()), Box::new(parts));
        Shape::Tuple(Box::new(parts))
    }

    fn shape() -> (s: Shape) {
        let parts = Parts::End;
        let parts = Parts::Part(Box::new(T5::shape()), Box::new(parts));
        let parts = Parts::Part(Box::new(T4::shape()), Box::new(parts));
        let parts = Parts::Part(Box::new(T3::shape()), Box::new(parts));
        let parts = Parts::Part(Box::new(T2::shape()), Box::new(parts));
        let parts = Parts::Part(Box::new(T1::shape()), Box::new(parts));
        let parts = Parts::Part(Box::new(T0::shape()), Box::new(parts));
        Shape::Tuple(Box::new(parts))
    }

    proof fn lemma_encoded_conforms(m: Self::Model) {
        if Self::encode(m) is Ok {
            let items = seq![
                T0::encode(m.0)->Ok_0,
                T1::encode(m.1)->Ok_0,
                T2::encode(m.2)->Ok_0,
                T3::encode(m.3)->Ok_0,
                T4::encode(m.4)->Ok_0,
                T5::encode(m.5)->Ok_0,
            ];
            let tail6 = Parts::End;
            lemma_conform_end(items);
            T5::lemma_encoded_conforms(m.5);
            let tail5 = Parts::Part(Box::new(T5::shape_spec()), Box::new(tail6));
            lemma_conform_part(items, T5::shape_spec(), tail6, 5);
            T4::lemma_encoded_conforms(m.4);
            let tail4 = Parts::Part(Box::new(T4::shape_spec()), Box::new(tail5));
            lemma_conform_part(items, T4::shape_spec(), tail5, 4);
            T3::lemma_encoded_conforms(m.3);
            let tail3 = Parts::Part(Box::new(T3::shape_spec()), Box::new(tail4));
            lemma_conform_part(items, T3::shape_spec(), tail4, 3);
            T2::lemma_encoded_conforms(m.2);
            let tail2 = Parts::Part(Box::new(T2::shape_spec()), Box::new(tail3));
            lemma_conform_part(items, T2::shape_spec(), tail3, 2);
            T1::lemma_encoded_conforms(m.1);
            let tail1 = Parts::Part(Box::new(T1::shape_spec()), Box::new(tail2));
            lemma_conform_part(items, T1::shape_spec(), tail2, 1);
            T0::lemma_encoded_conforms(m.0);
            let tail0 = Parts::Part(Box::new(T0::shape_spec()), Box::new(tail1));
            lemma_conform_part(items, T0::shape_spec(), tail1, 0);
            lemma_conforms_tuple(items, tail0);
        }
    }

    proof fn lemma_conforming_decodes(o: ObjectModel<'env>) {
        let items = o->Tuple_0;
        let tail6 = Parts::End;
        let tail5 = Parts::Part(Box::new(T5::shape_spec()), Box::new(tail6));
        let tail4 = Parts::Part(Box::new(T4::shape_spec()), Box::new(tail5));
        let tail3 = Parts::Part(Box::new(T3::shape_spec()), Box::new(tail4));
        let tail2 = Parts::Part(Box::new(T2::shape_spec()), Box::new(tail3));
        let tail1 = Parts::Part(Box::new(T1::shape_spec()), Box::new(tail2));
        let tail0 = Parts::Part(Box::new(T0::shape_spec()), Box::new(tail1));
        lemma_tuple_parts(items, tail0);
        lemma_conform_split(items, T0::shape_spec(), tail1, 0);
        T0::lemma_conforming_decodes(items[0]);
        lemma_conform_split(items, T1::shape_spec(), tail2, 1);
        T1::lemma_conforming_decodes(items[1]);
        lemma_conform_split(items, T2::shape_spec(), tail3, 2);
        T2::lemma_conforming_decodes(items[2]);
        lemma_conform_split(items, T3::shape_spec(), tail4, 3);
        T3::lemma_conforming_decodes(items[3]);
        lemma_conform_split(items, T4::shape_spec(), tail5, 4);
        T4::lemma_conforming_decodes(items[4]);
        lemma_conform_split(items, T5::shape_spec(), tail6, 5);
        T5::lemma_conforming_decodes(items[5]);
        lemma_conform_done(items, 6);
    }
}

impl<
    'env,
    T0: IntoJavaValue<'env>,
    T1: IntoJavaValue<'env>,
    T2: IntoJavaValue<'env>,
    T3: IntoJavaValue<'env>,
    T4: IntoJavaValue<'env>,
    T5: IntoJavaValue<'env>,
> IntoJavaValue<'env> for (T0, T1, T2, T3, T4, T5) {
    type Target = JavaObject<'env>;

    fn into(self) -> (t: JavaObject<'env>) {
        let ghost parts = seq![
            T0::encode(self.0.model())->Ok_0,
            T1::encode(self.1.model())->Ok_0,
            T2::encode(self.2.model())->Ok_0,
            T3::encode(self.3.model())->Ok_0,
            T4::encode(self.4.model())->Ok_0,
            T5::encode(self.5.model())->Ok_0,
        ];
        let (a0, a1, a2, a3, a4, a5) = self;
        let mut items: Vec<JavaObject<'env>> = Vec::new();
        put_part(&mut items, a0);
        put_part(&mut items, a1);
        put_part(&mut items, a2);
        put_part(&mut items, a3);
        put_part(&mut items, a4);
        put_part(&mut items, a5);
        proof {
            lemma_tuple_model(items);
            assert(models_of(items@) =~= parts);
        }
        JavaObject::Tuple(items)
    }
}

impl<
    'env,
    T0: FromJavaValue<'env>,
    T1: FromJavaValue<'env>,
    T2: FromJavaValue<'env>,
    T3: FromJavaValue<'env>,
    T4: FromJavaValue<'env>,
    T5: FromJavaValue<'env>,
> FromJavaValue<'env> for (T0, T1, T2, T3, T4, T5) {
    type Source = JavaObject<'env>;

    proof fn lemma_decode_unboxes(o: ObjectModel<'env>) {
    }

    fn from(s: JavaObject<'env>) -> (v: Self) {
        match s {
            JavaObject::Tuple(items) => {
                let ghost objects = models_of(items@);
                proof {
                    lemma_tuple_model(items);
                }
                let mut rest = reversed(items);
                assert(rest@.last()@ == objects[0]);
                let v0 = take_part::<T0>(&mut rest);
                assert(rest@.last()@ == objects[1]);
                let v1 = take_part::<T1>(&mut rest);
                assert(rest@.last()@ == objects[2]);
                let v2 = take_part::<T2>(&mut rest);
                assert(rest@.last()@ == objects[3]);
                let v3 = take_part::<T3>(&mut rest);
                assert(rest@.last()@ == objects[4]);
                let v4 = take_part::<T4>(&mut rest);
                assert(rest@.last()@ == objects[5]);
                let v5 = take_part::<T5>(&mut rest);
                (v0, v1, v2, v3, v4, v5)
            },
            _ => unreached(),
        }
    }
}

impl<
    'env,
    T0: TryIntoJavaValue<'env>,
    T1: TryIntoJavaValue<'env>,
    T2: TryIntoJavaValue<'env>,
    T3: TryIntoJavaValue<'env>,
    T4: TryIntoJavaValue<'env>,
    T5: TryIntoJavaValue<'env>,
> TryIntoJavaValue<'env> for (T0, T1, T2, T3, T4, T5) {
    type Target = JavaObject<'env>;

    fn try_into(self) -> (r: Result<JavaObject<'env>, ConversionError>) {
        let ghost parts = seq![
            T0::encode(self.0.model())->Ok_0,
            T1::encode(self.1.model())->Ok_0,
            T2::encode(self.2.model())->Ok_0,
            T3::encode(self.3.model())->Ok_0,
            T4::encode(self.4.model())->Ok_0,
            T5::encode(self.5.model())->Ok_0,
        ];
        let (a0, a1, a2, a3, a4, a5) = self;
        let mut items: Vec<JavaObject<'env>> = Vec::new();
        try_put_part(&mut items, a0)?;
        try_put_part(&mut items, a1)?;
        try_put_part(&mut items, a2)?;
        try_put_part(&mut items, a3)?;
        try_put_part(&mut items, a4)?;
        try_put_part(&mut items, a5)?;
        proof {
            lemma_tuple_model(items);
            assert(models_of(items@) =~= parts);
        }
        Ok(JavaObject::Tuple(items))
    }
}

impl<
    'env,
    T0: TryFromJavaValue<'env>,
    T1: TryFromJavaValue<'env>,
    T2: TryFromJavaValue<'env>,
    T3: TryFromJavaValue<'env>,
    T4: TryFromJavaValue<'env>,
    T5: TryFromJavaValue<'env>,
> TryFromJavaValue<'env> for (T0, T1, T2, T3, T4, T5) {
    type Source = JavaObject<'env>;

    proof fn lemma_decode_unboxes(o: ObjectModel<'env>) {
    }

    fn try_from(s: JavaObject<'env>) -> (r: Result<Self, ConversionError>) {
        match s {
            JavaObject::Tuple(items) => {
                let ghost objects = models_of(items@);
                proof {
                    lemma_tuple_model(items);
                }
                if items.len() != 6 {
                    return Err(
                        ConversionError::InvariantViolation { value: report_count(items.len()) },
                    );
                }
                let mut rest = reversed(items);
                assert(rest@.last()@ == objects[0]);
                let v0 = try_take_part::<T0>(&mut rest)?;
                assert(rest@.last()@ == objects[1]);
                let v1 = try_take_part::<T1>(&mut rest)?;
                assert(rest@.last()@ == objects[2]);
                let v2 = try_take_part::<T2>(&mut rest)?;
                assert(rest@.last()@ == objects[3]);
                let v3 = try_take_part::<T3>(&mut rest)?;
                assert(rest@.last()@ == objects[4]);
                let v4 = try_take_part::<T4>(&mut rest)?;
                assert(rest@.last()@ == objects[5]);
                let v5 = try_take_part::<T5>(&mut rest)?;
                Ok((v0, v1, v2, v3, v4, v5))
            },
            other => Err(ConversionError::mismatch(Kind::Tuple, other.kind())),
        }
    }
}

impl<
    T0,
    T1,
    T2,
    T3,
    T4,
    T5,
    T6,
> Signature for (T0, T1, T2, T3, T4, T5, T6) {
    open spec fn sig_type_spec() -> Seq<char> {
        "LTuple7;"@
    }

    fn sig_type() -> (s: &'static str) {
        "LTuple7;"
    }
}

impl<
    'env,
    T0: Conversion<'env>,
    T1: Conversion<'env>,
    T2: Conversion<'env>,
    T3: Conversion<'env>,
    T4: Conversion<'env>,
    T5: Conversion<'env>,
    T6: Conversion<'env>,
> Conversion<'env> for (T0, T1, T2, T3, T4, T5, T6) {
    type Model = (T0::Model, T1::Model, T2::Model, T3::Model, T4::Model, T5::Model, T6::Model);

    open spec fn model(&self) -> Self::Model {
        (
            self.0.model(),
            self.1.model(),
            self.2.model(),
            self.3.model(),
            self.4.model(),
            self.5.model(),
            self.6.model(),
        )
    }

    open spec fn encode(m: Self::Model) -> Result<ObjectModel<'env>, ConversionError> {
        if T0::encode(m.0) is Err {
            Err(T0::encode(m.0)->Err_0)
        } else if T1::encode(m.1) is Err {
            Err(T1::encode(m.1)->Err_0)
        } else if T2::encode(m.2) is Err {
            Err(T2::encode(m.2)->Err_0)
        } else if T3::encode(m.3) is Err {
            Err(T3::encode(m.3)->Err_0)
        } else if T4::encode(m.4) is Err {
            Err(T4::encode(m.4)->Err_0)
        } else if T5::encode(m.5) is Err {
            Err(T5::encode(m.5)->Err_0)
        } else if T6::encode(m.6) is Err {
            Err(T6::encode(m.6)->Err_0)
        } else {
            Ok(
                ObjectModel::Tuple(seq![
                    T0::encode(m.0)->Ok_0,
                    T1::encode(m.1)->Ok_0,
                    T2::encode(m.2)->Ok_0,
                    T3::encode(m.3)->Ok_0,
                    T4::encode(m.4)->Ok_0,
                    T5::encode(m.5)->Ok_0,
                    T6::encode(m.6)->Ok_0,
                ]),
            )
        }
    }

    open spec fn decode(o: ObjectModel<'env>) -> Result<Self::Model, ConversionError> {
        match o {
            ObjectModel::Tuple(items) => if items.len() != 7 {
                Err(ConversionError::InvariantViolation { value: reported_count(items.len()) })
            } else {
                if T0::decode(items[0]) is Err {
                    Err(T0::decode(items[0])->Err_0)
                } else if T1::decode(items[1]) is Err {
                    Err(T1::decode(items[1])->Err_0)
                } else if T2::decode(items[2]) is Err {
                    Err(T2::decode(items[2])->Err_0)
                } else if T3::decode(items[3]) is Err {
                    Err(T3::decode(items[3])->Err_0)
                } else if T4::decode(items[4]) is Err {
                    Err(T4::decode(items[4])->Err_0)
                } else if T5::decode(items[5]) is Err {
                    Err(T5::decode(items[5])->Err_0)
                } else if T6::decode(items[6]) is Err {
                    Err(T6::decode(items[6])->Err_0)
                } else {
                    Ok(
                        (
                            T0::decode(items[0])->Ok_0,
                            T1::decode(items[1])->Ok_0,
                            T2::decode(items[2])->Ok_0,
                            T3::decode(items[3])->Ok_0,
                            T4::decode(items[4])->Ok_0,
                            T5::decode(items[5])->Ok_0,
                            T6::decode(items[6])->Ok_0,
                        ),
                    )
                }
            },
            _ => Err(ConversionError::TypeMismatch { expected: Kind::Tuple, actual: o.kind() }),
        }
    }

    open spec fn round_trips(m: Self::Model) -> bool {
        T0::round_trips(m.0)
            && T1::round_trips(m.1)
            && T2::round_trips(m.2)
            && T3::round_trips(m.3)
            && T4::round_trips(m.4)
            && T5::round_trips(m.5)
            && T6::round_trips(m.6)
    }

    proof fn lemma_round_trip(m: Self::Model) {
        T0::lemma_round_trip(m.0);
        T1::lemma_round_trip(m.1);
        T2::lemma_round_trip(m.2);
        T3::lemma_round_trip(m.3);
        T4::lemma_round_trip(m.4);
        T5::lemma_round_trip(m.5);
        T6::lemma_round_trip(m.6);
    }

    open spec fn shape_spec() -> Shape {
        let parts = Parts::End;
        let parts = Parts::Part(Box::new(T6::shape_spec()), Box::new(parts));
        let parts = Parts::Part(Box::new(T5::shape_spec()), Box::new(parts));
        let parts = Parts::Part(Box::new(T4::shape_spec()), Box::new(parts));
        let parts = Parts::Part(Box::new(T3::shape_spec()), Box::new(parts));
        let parts = Parts::Part(Box::new(T2::shape_spec()), Box::new(parts));
        let parts = Parts::Part(Box::new(T1::shape_spec()), Box::new(parts));
        let parts = Parts::Part(Box::new(T0::shape_spec()), Box::new(parts));
        Shape::Tuple(Box::new(parts))
    }

    fn shape() -> (s: Shape) {
        let parts = Parts::End;
        let parts = Parts::Part(Box::new(T6::shape()), Box::new(parts));
        let parts = Parts::Part(Box::new(T5::shape()), Box::new(parts));
        let parts = Parts::Part(Box::new(T4::shape()), Box::new(parts));
        let parts = Parts::Part(Box::new(T3::shape()), Box::new(parts));
        let parts = Parts::Part(Box::new(T2::shape()), Box::new(parts));
        let parts = Parts::Part(Box::new(T1::shape()), Box::new(parts));
        let parts = Parts::Part(Box::new(T0::shape()), Box::new(parts));
        Shape::Tuple(Box::new(parts))
    }

    proof fn lemma_encoded_conforms(m: Self::Model) {
        if Self::encode(m) is Ok {
            let items = seq![
                T0::encode(m.0)->Ok_0,
                T1::encode(m.1)->Ok_0,
                T2::encode(m.2)->Ok_0,
                T3::encode(m.3)->Ok_0,
                T4::encode(m.4)->Ok_0,
                T5::encode(m.5)->Ok_0,
                T6::encode(m.6)->Ok_0,
            ];
            let tail7 = Parts::End;
            lemma_conform_end(items);
            T6::lemma_encoded_conforms(m.6);
            let tail6 = Parts::Part(Box::new(T6::shape_spec()), Box::new(tail7));
            lemma_conform_part(items, T6::shape_spec(), tail7, 6);
            T5::lemma_encoded_conforms(m.5);
            let tail5 = Parts::Part(Box::new(T5::shape_spec()), Box::new(tail6));
            lemma_conform_part(items, T5::shape_spec(), tail6, 5);
            T4::lemma_encoded_conforms(m.4);
            let tail4 = Parts::Part(Box::new(T4::shape_spec()), Box::new(tail5));
            lemma_conform_part(items, T4::shape_spec(), tail5, 4);
            T3::lemma_encoded_conforms(m.3);
            let tail3 = Parts::Part(Box::new(T3::shape_spec()), Box::new(tail4));
            lemma_conform_part(items, T3::shape_spec(), tail4, 3);
            T2::lemma_encoded_conforms(m.2);
            let tail2 = Parts::Part(Box::new(T2::shape_spec()), Box::new(tail3));
            lemma_conform_part(items, T2::shape_spec(), tail3, 2);
            T1::lemma_encoded_conforms(m.1);
            let tail1 = Parts::Part(Box::new(T1::shape_spec()), Box::new(tail2));
            lemma_conform_part(items, T1::shape_spec(), tail2, 1);
            T0::lemma_encoded_conforms(m.0);
            let tail0 = Parts::Part(Box::new(T0::shape_spec()), Box::new(tail1));
            lemma_conform_part(items, T0::shape_spec(), tail1, 0);
            lemma_conforms_tuple(items, tail0);
        }
    }

    proof fn lemma_conforming_decodes(o: ObjectModel<'env>) {
        let items = o->Tuple_0;
        let tail7 = Parts::End;
        let tail6 = Parts::Part(Box::new(T6::shape_spec()), Box::new(tail7));
        let tail5 = Parts::Part(Box::new(T5::shape_spec()), Box::new(tail6));
        let tail4 = Parts::Part(Box::new(T4::shape_spec()), Box::new(tail5));
        let tail3 = Parts::Part(Box::new(T3::shape_spec()), Box::new(tail4));
        let tail2 = Parts::Part(Box::new(T2::shape_spec()), Box::new(tail3));
        let tail1 = Parts::Part(Box::new(T1::shape_spec()), Box::new(tail2));
        let tail0 = Parts::Part(Box::new(T0::shape_spec()), Box::new(tail1));
        lemma_tuple_parts(items, tail0);
        lemma_conform_split(items, T0::shape_spec(), tail1, 0);
        T0::lemma_conforming_decodes(items[0]);
        lemma_conform_split(items, T1::shape_spec(), tail2, 1);
        T1::lemma_conforming_decodes(items[1]);
        lemma_conform_split(items, T2::shape_spec(), tail3, 2);
        T2::lemma_conforming_decodes(items[2]);
        lemma_conform_split(items, T3::shape_spec(), tail4, 3);
        T3::lemma_conforming_decodes(items[3]);
        lemma_conform_split(items, T4::shape_spec(), tail5, 4);
        T4::lemma_conforming_decodes(items[4]);
        lemma_conform_split(items, T5::shape_spec(), tail6, 5);
        T5::lemma_conforming_decodes(items[5]);
        lemma_conform_split(items, T6::shape_spec(), tail7, 6);
        T6::lemma_conforming_decodes(items[6]);
        lemma_conform_done(items, 7);
    }
}

impl<
    'env,
    T0: IntoJavaValue<'env>,
    T1: IntoJavaValue<'env>,
    T2: IntoJavaValue<'env>,
    T3: IntoJavaValue<'env>,
    T4: IntoJavaValue<'env>,
    T5: IntoJavaValue<'env>,
    T6: IntoJavaValue<'env>,
> IntoJavaValue<'env> for (T0, T1, T2, T3, T4, T5, T6) {
    type Target = JavaObject<'env>;

    fn into(self) -> (t: JavaObject<'env>) {
        let ghost parts = seq![
            T0::encode(self.0.model())->Ok_0,
            T1::encode(self.1.model())->Ok_0,
            T2::encode(self.2.model())->Ok_0,
            T3::encode(self.3.model())->Ok_0,
            T4::encode(self.4.model())->Ok_0,
            T5::encode(self.5.model())->Ok_0,
            T6::encode(self.6.model())->Ok_0,
        ];
        let (a0, a1, a2, a3, a4, a5, a6) = self;
        let mut items: Vec<JavaObject<'env>> = Vec::new();
        put_part(&mut items, a0);
        put_part(&mut items, a1);
        put_part(&mut items, a2);
        put_part(&mut items, a3);
        put_part(&mut items, a4);
        put_part(&mut items, a5);
        put_part(&mut items, a6);
        proof {
            lemma_tuple_model(items);
            assert(models_of(items@) =~= parts);
        }
        JavaObject::Tuple(items)
    }
}

impl<
    'env,
    T0: FromJavaValue<'env>,
    T1: FromJavaValue<'env>,
    T2: FromJavaValue<'env>,
    T3: FromJavaValue<'env>,
    T4: FromJavaValue<'env>,
    T5: FromJavaValue<'env>,
    T6: FromJavaValue<'env>,
> FromJavaValue<'env> for (T0, T1, T2, T3, T4, T5, T6) {
    type Source = JavaObject<'env>;

    proof fn lemma_decode_unboxes(o: ObjectModel<'env>) {
    }

    fn from(s: JavaObject<'env>) -> (v: Self) {
        match s {
            JavaObject::Tuple(items) => {
                let ghost objects = models_of(items@);
                proof {
                    lemma_tuple_model(items);
                }
                let mut rest = reversed(items);
                assert(rest@.last()@ == objects[0]);
                let v0 = take_part::<T0>(&mut rest);
                assert(rest@.last()@ == objects[1]);
                let v1 = take_part::<T1>(&mut rest);
                assert(rest@.last()@ == objects[2]);
                let v2 = take_part::<T2>(&mut rest);
                assert(rest@.last()@ == objects[3]);
                let v3 = take_part::<T3>(&mut rest);
                assert(rest@.last()@ == objects[4]);
                let v4 = take_part::<T4>(&mut rest);
                assert(rest@.last()@ == objects[5]);
                let v5 = take_part::<T5>(&mut rest);
                assert(rest@.last()@ == objects[6]);
                let v6 = take_part::<T6>(&mut rest);
                (v0, v1, v2, v3, v4, v5, v6)
            },
            _ => unreached(),
        }
    }
}

impl<
    'env,
    T0: TryIntoJavaValue<'env>,
    T1: TryIntoJavaValue<'env>,
    T2: TryIntoJavaValue<'env>,
    T3: TryIntoJavaValue<'env>,
    T4: TryIntoJavaValue<'env>,
    T5: TryIntoJavaValue<'env>,
    T6: TryIntoJavaValue<'env>,
> TryIntoJavaValue<'env> for (T0, T1, T2, T3, T4, T5, T6) {
    type Target = JavaObject<'env>;

    fn try_into(self) -> (r: Result<JavaObject<'env>, ConversionError>) {
        let ghost parts = seq![
            T0::encode(self.0.model())->Ok_0,
            T1::encode(self.1.model())->Ok_0,
            T2::encode(self.2.model())->Ok_0,
            T3::encode(self.3.model())->Ok_0,
            T4::encode(self.4.model())->Ok_0,
            T5::encode(self.5.model())->Ok_0,
            T6::encode(self.6.model())->Ok_0,
        ];
        let (a0, a1, a2, a3, a4, a5, a6) = self;
        let mut items: Vec<JavaObject<'env>> = Vec::new();
        try_put_part(&mut items, a0)?;
        try_put_part(&mut items, a1)?;
        try_put_part(&mut items, a2)?;
        try_put_part(&mut items, a3)?;
        try_put_part(&mut items, a4)?;
        try_put_part(&mut items, a5)?;
        try_put_part(&mut items, a6)?;
        proof {
            lemma_tuple_model(items);
            assert(models_of(items@) =~= parts);
        }
        Ok(JavaObject::Tuple(items))
    }
}

impl<
    'env,
    T0: TryFromJavaValue<'env>,
    T1: TryFromJavaValue<'env>,
    T2: TryFromJavaValue<'env>,
    T3: TryFromJavaValue<'env>,
    T4: TryFromJavaValue<'env>,
    T5: TryFromJavaValue<'env>,
    T6: TryFromJavaValue<'env>,
> TryFromJavaValue<'env> for (T0, T1, T2, T3, T4, T5, T6) {
    type Source = JavaObject<'env>;

    proof fn lemma_decode_unboxes(o: ObjectModel<'env>) {
    }

    fn try_from(s: JavaObject<'env>) -> (r: Result<Self, ConversionError>) {
        match s {
            JavaObject::Tuple(items) => {
                let ghost objects = models_of(items@);
                proof {
                    lemma_tuple_model(items);
                }
                if items.len() != 7 {
                    return Err(
                        ConversionError::InvariantViolation { value: report_count(items.len()) },
                    );
                }
                let mut rest = reversed(items);
                assert(rest@.last()@ == objects[0]);
                let v0 = try_take_part::<T0>(&mut rest)?;
                assert(rest@.last()@ == objects[1]);
                let v1 = try_take_part::<T1>(&mut rest)?;
                assert(rest@.last()@ == objects[2]);
                let v2 = try_take_part::<T2>(&mut rest)?;
                assert(rest@.last()@ == objects[3]);
                let v3 = try_take_part::<T3>(&mut rest)?;
                assert(rest@.last()@ == objects[4]);
                let v4 = try_take_part::<T4>(&mut rest)?;
                assert(rest@.last()@ == objects[5]);
                let v5 = try_take_part::<T5>(&mut rest)?;
                assert(rest@.last()@ == objects[6]);
                let v6 = try_take_part::<T6>(&mut rest)?;
                Ok((v0, v1, v2, v3, v4, v5, v6))
            },
            other => Err(ConversionError::mismatch(Kind::Tuple, other.kind())),
        }
    }
}

impl<
    T0,
    T1,
    T2,
    T3,
    T4,
    T5,
    T6,
    T7,
> Signature for (T0, T1, T2, T3, T4, T5, T6, T7) {
    open spec fn sig_type_spec() -> Seq<char> {
        "LTuple8;"@
    }

    fn sig_type() -> (s: &'static str) {
        "LTuple8;"
    }
}

impl<
    'env,
    T0: Conversion<'env>,
    T1: Conversion<'env>,
    T2: Conversion<'env>,
    T3: Conversion<'env>,
    T4: Conversion<'env>,
    T5: Conversion<'env>,
    T6: Conversion<'env>,
    T7: Conversion<'env>,
> Conversion<'env> for (T0, T1, T2, T3, T4, T5, T6, T7) {
    type Model = (
        T0::Model,
        T1::Model,
        T2::Model,
        T3::Model,
        T4::Model,
        T5::Model,
        T6::Model,
        T7::Model,
    );

    open spec fn model(&self) -> Self::Model {
        (
            self.0.model(),
            self.1.model(),
            self.2.model(),
            self.3.model(),
            self.4.model(),
            self.5.model(),
            self.6.model(),
            self.7.model(),
        )
    }

    open spec fn encode(m: Self::Model) -> Result<ObjectModel<'env>, ConversionError> {
        if T0::encode(m.0) is Err {
            Err(T0::encode(m.0)->Err_0)
        } else if T1::encode(m.1) is Err {
            Err(T1::encode(m.1)->Err_0)
        } else if T2::encode(m.2) is Err {
            Err(T2::encode(m.2)->Err_0)
        } else if T3::encode(m.3) is Err {
            Err(T3::encode(m.3)->Err_0)
        } else if T4::encode(m.4) is Err {
            Err(T4::encode(m.4)->Err_0)
        } else if T5::encode(m.5) is Err {
            Err(T5::encode(m.5)->Err_0)
        } else if T6::encode(m.6) is Err {
            Err(T6::encode(m.6)->Err_0)
        } else if T7::encode(m.7) is Err {
            Err(T7::encode(m.7)->Err_0)
        } else {
            Ok(
                ObjectModel::Tuple(seq![
                    T0::encode(m.0)->Ok_0,
                    T1::encode(m.1)->Ok_0,
                    T2::encode(m.2)->Ok_0,
                    T3::encode(m.3)->Ok_0,
                    T4::encode(m.4)->Ok_0,
                    T5::encode(m.5)->Ok_0,
                    T6::encode(m.6)->Ok_0,
                    T7::encode(m.7)->Ok_0,
                ]),
            )
        }
    }

    open spec fn decode(o: ObjectModel<'env>) -> Result<Self::Model, ConversionError> {
        match o {
            ObjectModel::Tuple(items) => if items.len() != 8 {
                Err(ConversionError::InvariantViolation { value: reported_count(items.len()) })
            } else {
                if T0::decode(items[0]) is Err {
                    Err(T0::decode(items[0])->Err_0)
                } else if T1::decode(items[1]) is Err {
                    Err(T1::decode(items[1])->Err_0)
                } else if T2::decode(items[2]) is Err {
                    Err(T2::decode(items[2])->Err_0)
                } else if T3::decode(items[3]) is Err {
                    Err(T3::decode(items[3])->Err_0)
                } else if T4::decode(items[4]) is Err {
                    Err(T4::decode(items[4])->Err_0)
                } else if T5::decode(items[5]) is Err {
                    Err(T5::decode(items[5])->Err_0)
                } else if T6::decode(items[6]) is Err {
                    Err(T6::decode(items[6])->Err_0)
                } else if T7::decode(items[7]) is Err {
                    Err(T7::decode(items[7])->Err_0)
                } else {
                    Ok(
                        (
                            T0::decode(items[0])->Ok_0,
                            T1::decode(items[1])->Ok_0,
                            T2::decode(items[2])->Ok_0,
                            T3::decode(items[3])->Ok_0,
                            T4::decode(items[4])->Ok_0,
                            T5::decode(items[5])->Ok_0,
                            T6::decode(items[6])->Ok_0,
                            T7::decode(items[7])->Ok_0,
                        ),
                    )
                }
            },
            _ => Err(ConversionError::TypeMismatch { expected: Kind::Tuple, actual: o.kind() }),
        }
    }

    open spec fn round_trips(m: Self::Model) -> bool {
        T0::round_trips(m.0)
            && T1::round_trips(m.1)
            && T2::round_trips(m.2)
            && T3::round_trips(m.3)
            && T4::round_trips(m.4)
            && T5::round_trips(m.5)
            && T6::round_trips(m.6)
            && T7::round_trips(m.7)
    }

    proof fn lemma_round_trip(m: Self::Model) {
        T0::lemma_round_trip(m.0);
        T1::lemma_round_trip(m.1);
        T2::lemma_round_trip(m.2);
        T3::lemma_round_trip(m.3);
        T4::lemma_round_trip(m.4);
        T5::lemma_round_trip(m.5);
        T6::lemma_round_trip(m.6);
        T7::lemma_round_trip(m.7);
    }

    open spec fn shape_spec() -> Shape {
        let parts = Parts::End;
        let parts = Parts::Part(Box::new(T7::shape_spec()), Box::new(parts));
        let parts = Parts::Part(Box::new(T6::shape_spec()), Box::new(parts));
        let parts = Parts::Part(Box::new(T5::shape_spec()), Box::new(parts));
        let parts = Parts::Part(Box::new(T4::shape_spec()), Box::new(parts));
        let parts = Parts::Part(Box::new(T3::shape_spec()), Box::new(parts));
        let parts = Parts::Part(Box::new(T2::shape_spec()), Box::new(parts));
        let parts = Parts::Part(Box::new(T1::shape_spec()), Box::new(parts));
        let parts = Parts::Part(Box::new(T0::shape_spec()), Box::new(parts));
        Shape::Tuple(Box::new(parts))
    }

    fn shape() -> (s: Shape) {
        let parts = Parts::End;
        let parts = Parts::Part(Box::new(T7::shape()), Box::new(parts));
        let parts = Parts::Part(Box::new(T6::shape()), Box::new(parts));
        let parts = Parts::Part(Box::new(T5::shape()), Box::new(parts));
        let parts = Parts::Part(Box::new(T4::shape()), Box::new(parts));
        let parts = Parts::Part(Box::new(T3::shape()), Box::new(parts));
        let parts = Parts::Part(Box::new(T2::shape()), Box::new(parts));
        let parts = Parts::Part(Box::new(T1::shape()), Box::new(parts));
        let parts = Parts::Part(Box::new(T0::shape()), Box::new(parts));
        Shape::Tuple(Box::new(parts))
    }

    proof fn lemma_encoded_conforms(m: Self::Model) {
        if Self::encode(m) is Ok {
            let items = seq![
                T0::encode(m.0)->Ok_0,
                T1::encode(m.1)->Ok_0,
                T2::encode(m.2)->Ok_0,
                T3::encode(m.3)->Ok_0,
                T4::encode(m.4)->Ok_0,
                T5::encode(m.5)->Ok_0,
                T6::encode(m.6)->Ok_0,
                T7::encode(m.7)->Ok_0,
            ];
            let tail8 = Parts::End;
            lemma_conform_end(items);
            T7::lemma_encoded_conforms(m.7);
            let tail7 = Parts::Part(Box::new(T7::shape_spec()), Box::new(tail8));
            lemma_conform_part(items, T7::shape_spec(), tail8, 7);
            T6::lemma_encoded_conforms(m.6);
            let tail6 = Parts::Part(Box::new(T6::shape_spec()), Box::new(tail7));
            lemma_conform_part(items, T6::shape_spec(), tail7, 6);
            T5::lemma_encoded_conforms(m.5);
            let tail5 = Parts::Part(Box::new(T5::shape_spec()), Box::new(tail6));
            lemma_conform_part(items, T5::shape_spec(), tail6, 5);
            T4::lemma_encoded_conforms(m.4);
            let tail4 = Parts::Part(Box::new(T4::shape_spec()), Box::new(tail5));
            lemma_conform_part(items, T4::shape_spec(), tail5, 4);
            T3::lemma_encoded_conforms(m.3);
            let tail3 = Parts::Part(Box::new(T3::shape_spec()), Box::new(tail4));
            lemma_conform_part(items, T3::shape_spec(), tail4, 3);
            T2::lemma_encoded_conforms(m.2);
            let tail2 = Parts::Part(Box::new(T2::shape_spec()), Box::new(tail3));
            lemma_conform_part(items, T2::shape_spec(), tail3, 2);
            T1::lemma_encoded_conforms(m.1);
            let tail1 = Parts::Part(Box::new(T1::shape_spec()), Box::new(tail2));
            lemma_conform_part(items, T1::shape_spec(), tail2, 1);
            T0::lemma_encoded_conforms(m.0);
            let tail0 = Parts::Part(Box::new(T0::shape_spec()), Box::new(tail1));
            lemma_conform_part(items, T0::shape_spec(), tail1, 0);
            lemma_conforms_tuple(items, tail0);
        }
    }

    proof fn lemma_conforming_decodes(o: ObjectModel<'env>) {
        let items = o->Tuple_0;
        let tail8 = Parts::End;
        let tail7 = Parts::Part(Box::new(T7::shape_spec()), Box::new(tail8));
        let tail6 = Parts::Part(Box::new(T6::shape_spec()), Box::new(tail7));
        let tail5 = Parts::Part(Box::new(T5::shape_spec()), Box::new(tail6));
        let tail4 = Parts::Part(Box::new(T4::shape_spec()), Box::new(tail5));
        let tail3 = Parts::Part(Box::new(T3::shape_spec()), Box::new(tail4));
        let tail2 = Parts::Part(Box::new(T2::shape_spec()), Box::new(tail3));
        let tail1 = Parts::Part(Box::new(T1::shape_spec()), Box::new(tail2));
        let tail0 = Parts::Part(Box::new(T0::shape_spec()), Box::new(tail1));
        lemma_tuple_parts(items, tail0);
        lemma_conform_split(items, T0::shape_spec(), tail1, 0);
        T0::lemma_conforming_decodes(items[0]);
        lemma_conform_split(items, T1::shape_spec(), tail2, 1);
        T1::lemma_conforming_decodes(items[1]);
        lemma_conform_split(items, T2::shape_spec(), tail3, 2);
        T2::lemma_conforming_decodes(items[2]);
        lemma_conform_split(items, T3::shape_spec(), tail4, 3);
        T3::lemma_conforming_decodes(items[3]);
        lemma_conform_split(items, T4::shape_spec(), tail5, 4);
        T4::lemma_conforming_decodes(items[4]);
        lemma_conform_split(items, T5::shape_spec(), tail6, 5);
        T5::lemma_conforming_decodes(items[5]);
        lemma_conform_split(items, T6::shape_spec(), tail7, 6);
        T6::lemma_conforming_decodes(items[6]);
        lemma_conform_split(items, T7::shape_spec(), tail8, 7);
        T7::lemma_conforming_decodes(items[7]);
        lemma_conform_done(items, 8);
    }
}

impl<
    'env,
    T0: IntoJavaValue<'env>,
    T1: IntoJavaValue<'env>,
    T2: IntoJavaValue<'env>,
    T3: IntoJavaValue<'env>,
    T4: IntoJavaValue<'env>,
    T5: IntoJavaValue<'env>,
    T6: IntoJavaValue<'env>,
    T7: IntoJavaValue<'env>,
> IntoJavaValue<'env> for (T0, T1, T2, T3, T4, T5, T6, T7) {
    type Target = JavaObject<'env>;

    fn into(self) -> (t: JavaObject<'env>) {
        let ghost parts = seq![
            T0::encode(self.0.model())->Ok_0,
            T1::encode(self.1.model())->Ok_0,
            T2::encode(self.2.model())->Ok_0,
            T3::encode(self.3.model())->Ok_0,
            T4::encode(self.4.model())->Ok_0,
            T5::encode(self.5.model())->Ok_0,
            T6::encode(self.6.model())->Ok_0,
            T7::encode(self.7.model())->Ok_0,
        ];
        let (a0, a1, a2, a3, a4, a5, a6, a7) = self;
        let mut items: Vec<JavaObject<'env>> = Vec::new();
        put_part(&mut items, a0);
        put_part(&mut items, a1);
        put_part(&mut items, a2);
        put_part(&mut items, a3);
        put_part(&mut items, a4);
        put_part(&mut items, a5);
        put_part(&mut items, a6);
        put_part(&mut items, a7);
        proof {
            lemma_tuple_model(items);
            assert(models_of(items@) =~= parts);
        }
        JavaObject::Tuple(items)
    }
}

impl<
    'env,
    T0: FromJavaValue<'env>,
    T1: FromJavaValue<'env>,
    T2: FromJavaValue<'env>,
    T3: FromJavaValue<'env>,
    T4: FromJavaValue<'env>,
    T5: FromJavaValue<'env>,
    T6: FromJavaValue<'env>,
    T7: FromJavaValue<'env>,
> FromJavaValue<'env> for (T0, T1, T2, T3, T4, T5, T6, T7) {
    type Source = JavaObject<'env>;

    proof fn lemma_decode_unboxes(o: ObjectModel<'env>) {
    }

    fn from(s: JavaObject<'env>) -> (v: Self) {
        match s {
            JavaObject::Tuple(items) => {
                let ghost objects = models_of(items@);
                proof {
                    lemma_tuple_model(items);
                }
                let mut rest = reversed(items);
                assert(rest@.last()@ == objects[0]);
                let v0 = take_part::<T0>(&mut rest);
                assert(rest@.last()@ == objects[1]);
                let v1 = take_part::<T1>(&mut rest);
                assert(rest@.last()@ == objects[2]);
                let v2 = take_part::<T2>(&mut rest);
                assert(rest@.last()@ == objects[3]);
                let v3 = take_part::<T3>(&mut rest);
                assert(rest@.last()@ == objects[4]);
                let v4 = take_part::<T4>(&mut rest);
                assert(rest@.last()@ == objects[5]);
                let v5 = take_part::<T5>(&mut rest);
                assert(rest@.last()@ == objects[6]);
                let v6 = take_part::<T6>(&mut rest);
                assert(rest@.last()@ == objects[7]);
                let v7 = take_part::<T7>(&mut rest);
                (v0, v1, v2, v3, v4, v5, v6, v7)
            },
            _ => unreached(),
        }
    }
}

impl<
    'env,
    T0: TryIntoJavaValue<'env>,
    T1: TryIntoJavaValue<'env>,
    T2: TryIntoJavaValue<'env>,
    T3: TryIntoJavaValue<'env>,
    T4: TryIntoJavaValue<'env>,
    T5: TryIntoJavaValue<'env>,
    T6: TryIntoJavaValue<'env>,
    T7: TryIntoJavaValue<'env>,
> TryIntoJavaValue<'env> for (T0, T1, T2, T3, T4, T5, T6, T7) {
    type Target = JavaObject<'env>;

    fn try_into(self) -> (r: Result<JavaObject<'env>, ConversionError>) {
        let ghost parts = seq![
            T0::encode(self.0.model())->Ok_0,
            T1::encode(self.1.model())->Ok_0,
            T2::encode(self.2.model())->Ok_0,
            T3::encode(self.3.model())->Ok_0,
            T4::encode(self.4.model())->Ok_0,
            T5::encode(self.5.model())->Ok_0,
            T6::encode(self.6.model())->Ok_0,
            T7::encode(self.7.model())->Ok_0,
        ];
        let (a0, a1, a2, a3, a4, a5, a6, a7) = self;
        let mut items: Vec<JavaObject<'env>> = Vec::new();
        try_put_part(&mut items, a0)?;
        try_put_part(&mut items, a1)?;
        try_put_part(&mut items, a2)?;
        try_put_part(&mut items, a3)?;
        try_put_part(&mut items, a4)?;
        try_put_part(&mut items, a5)?;
        try_put_part(&mut items, a6)?;
        try_put_part(&mut items, a7)?;
        proof {
            lemma_tuple_model(items);
            assert(models_of(items@) =~= parts);
        }
        Ok(JavaObject::Tuple(items))
    }
}

impl<
    'env,
    T0: TryFromJavaValue<'env>,
    T1: TryFromJavaValue<'env>,
    T2: TryFromJavaValue<'env>,
    T3: TryFromJavaValue<'env>,
    T4: TryFromJavaValue<'env>,
    T5: TryFromJavaValue<'env>,
    T6: TryFromJavaValue<'env>,
    T7: TryFromJavaValue<'env>,
> TryFromJavaValue<'env> for (T0, T1, T2, T3, T4, T5, T6, T7) {
    type Source = JavaObject<'env>;

    proof fn lemma_decode_unboxes(o: ObjectModel<'env>) {
    }

    fn try_from(s: JavaObject<'env>) -> (r: Result<Self, ConversionError>) {
        match s {
            JavaObject::Tuple(items) => {
                let ghost objects = models_of(items@);
                proof {
                    lemma_tuple_model(items);
                }
                if items.len() != 8 {
                    return Err(
                        ConversionError::InvariantViolation { value: report_count(items.len()) },
                    );
                }
                let mut rest = reversed(items);
                assert(rest@.last()@ == objects[0]);
                let v0 = try_take_part::<T0>(&mut rest)?;
                assert(rest@.last()@ == objects[1]);
                let v1 = try_take_part::<T1>(&mut rest)?;
                assert(rest@.last()@ == objects[2]);
                let v2 = try_take_part::<T2>(&mut rest)?;
                assert(rest@.last()@ == objects[3]);
                let v3 = try_take_part::<T3>(&mut rest)?;
                assert(rest@.last()@ == objects[4]);
                let v4 = try_take_part::<T4>(&mut rest)?;
                assert(rest@.last()@ == objects[5]);
                let v5 = try_take_part::<T5>(&mut rest)?;
                assert(rest@.last()@ == objects[6]);
                let v6 = try_take_part::<T6>(&mut rest)?;
                assert(rest@.last()@ == objects[7]);
                let v7 = try_take_part::<T7>(&mut rest)?;
                Ok((v0, v1, v2, v3, v4, v5, v6, v7))
            },
            other => Err(ConversionError::mismatch(Kind::Tuple, other.kind())),
        }
    }
}

impl<
    T0,
    T1,
    T2,
    T3,
    T4,
    T5,
    T6,
    T7,
    T8,
> Signature for (T0, T1, T2, T3, T4, T5, T6, T7, T8) {
    open spec fn sig_type_spec() -> Seq<char> {
        "LTuple9;"@
    }

    fn sig_type() -> (s: &'static str) {
        "LTuple9;"
    }
}

impl<
    'env,
    T0: Conversion<'env>,
    T1: Conversion<'env>,
    T2: Conversion<'env>,
    T3: Conversion<'env>,
    T4: Conversion<'env>,
    T5: Conversion<'env>,
    T6: Conversion<'env>,
    T7: Conversion<'env>,
    T8: Conversion<'env>,
> Conversion<'env> for (T0, T1, T2, T3, T4, T5, T6, T7, T8) {
    type Model = (
        T0::Model,
        T1::Model,
        T2::Model,
        T3::Model,
        T4::Model,
        T5::Model,
        T6::Model,
        T7::Model,
        T8::Model,
    );

    open spec fn model(&self) -> Self::Model {
        (
            self.0.model(),
            self.1.model(),
            self.2.model(),
            self.3.model(),
            self.4.model(),
            self.5.model(),
            self.6.model(),
            self.7.model(),
            self.8.model(),
        )
    }

    open spec fn encode(m: Self::Model) -> Result<ObjectModel<'env>, ConversionError> {
        if T0::encode(m.0) is Err {
            Err(T0::encode(m.0)->Err_0)
        } else if T1::encode(m.1) is Err {
            Err(T1::encode(m.1)->Err_0)
        } else if T2::encode(m.2) is Err {
            Err(T2::encode(m.2)->Err_0)
        } else if T3::encode(m.3) is Err {
            Err(T3::encode(m.3)->Err_0)
        } else if T4::encode(m.4) is Err {
            Err(T4::encode(m.4)->Err_0)
        } else if T5::encode(m.5) is Err {
            Err(T5::encode(m.5)->Err_0)
        } else if T6::encode(m.6) is Err {
            Err(T6::encode(m.6)->Err_0)
        } else if T7::encode(m.7) is Err {
            Err(T7::encode(m.7)->Err_0)
        } else if T8::encode(m.8) is Err {
            Err(T8::encode(m.8)->Err_0)
        } else {
            Ok(
                ObjectModel::Tuple(seq![
                    T0::encode(m.0)->Ok_0,
                    T1::encode(m.1)->Ok_0,
                    T2::encode(m.2)->Ok_0,
                    T3::encode(m.3)->Ok_0,
                    T4::encode(m.4)->Ok_0,
                    T5::encode(m.5)->Ok_0,
                    T6::encode(m.6)->Ok_0,
                    T7::encode(m.7)->Ok_0,
                    T8::encode(m.8)->Ok_0,
                ]),
            )
        }
    }

    open spec fn decode(o: ObjectModel<'env>) -> Result<Self::Model, ConversionError> {
        match o {
            ObjectModel::Tuple(items) => if items.len() != 9 {
                Err(ConversionError::InvariantViolation { value: reported_count(items.len()) })
            } else {
                if T0::decode(items[0]) is Err {
                    Err(T0::decode(items[0])->Err_0)
                } else if T1::decode(items[1]) is Err {
                    Err(T1::decode(items[1])->Err_0)
                } else if T2::decode(items[2]) is Err {
                    Err(T2::decode(items[2])->Err_0)
                } else if T3::decode(items[3]) is Err {
                    Err(T3::decode(items[3])->Err_0)
                } else if T4::decode(items[4]) is Err {
                    Err(T4::decode(items[4])->Err_0)
                } else if T5::decode(items[5]) is Err {
                    Err(T5::decode(items[5])->Err_0)
                } else if T6::decode(items[6]) is Err {
                    Err(T6::decode(items[6])->Err_0)
                } else if T7::decode(items[7]) is Err {
                    Err(T7::decode(items[7])->Err_0)
                } else if T8::decode(items[8]) is Err {
                    Err(T8::decode(items[8])->Err_0)
                } else {
                    Ok(
                        (
                            T0::decode(items[0])->Ok_0,
                            T1::decode(items[1])->Ok_0,
                            T2::decode(items[2])->Ok_0,
                            T3::decode(items[3])->Ok_0,
                            T4::decode(items[4])->Ok_0,
                            T5::decode(items[5])->Ok_0,
                            T6::decode(items[6])->Ok_0,
                            T7::decode(items[7])->Ok_0,
                            T8::decode(items[8])->Ok_0,
                        ),
                    )
                }
            },
            _ => Err(ConversionError::TypeMismatch { expected: Kind::Tuple, actual: o.kind() }),
        }
    }

    open spec fn round_trips(m: Self::Model) -> bool {
        T0::round_trips(m.0)
            && T1::round_trips(m.1)
            && T2::round_trips(m.2)
            && T3::round_trips(m.3)
            && T4::round_trips(m.4)
            && T5::round_trips(m.5)
            && T6::round_trips(m.6)
            && T7::round_trips(m.7)
            && T8::round_trips(m.8)
    }

    proof fn lemma_round_trip(m: Self::Model) {
        T0::lemma_round_trip(m.0);
        T1::lemma_round_trip(m.1);
        T2::lemma_round_trip(m.2);
        T3::lemma_round_trip(m.3);
        T4::lemma_round_trip(m.4);
        T5::lemma_round_trip(m.5);
        T6::lemma_round_trip(m.6);
        T7::lemma_round_trip(m.7);
        T8::lemma_round_trip(m.8);
    }

    open spec fn shape_spec() -> Shape {
        let parts = Parts::End;
        let parts = Parts::Part(Box::new(T8::shape_spec()), Box::new(parts));
        let parts = Parts::Part(Box::new(T7::shape_spec()), Box::new(parts));
        let parts = Parts::Part(Box::new(T6::shape_spec()), Box::new(parts));
        let parts = Parts::Part(Box::new(T5::shape_spec()), Box::new(parts));
        let parts = Parts::Part(Box::new(T4::shape_spec()), Box::new(parts));
        let parts = Parts::Part(Box::new(T3::shape_spec()), Box::new(parts));
        let parts = Parts::Part(Box::new(T2::shape_spec()), Box::new(parts));
        let parts = Parts::Part(Box::new(T1::shape_spec()), Box::new(parts));
        let parts = Parts::Part(Box::new(T0::shape_spec()), Box::new(parts));
        Shape::Tuple(Box::new(parts))
    }

    fn shape() -> (s: Shape) {
        let parts = Parts::End;
        let parts = Parts::Part(Box::new(T8::shape()), Box::new(parts));
        let parts = Parts::Part(Box::new(T7::shape()), Box::new(parts));
        let parts = Parts::Part(Box::new(T6::shape()), Box::new(parts));
        let parts = Parts::Part(Box::new(T5::shape()), Box::new(parts));
        let parts = Parts::Part(Box::new(T4::shape()), Box::new(parts));
        let parts = Parts::Part(Box::new(T3::shape()), Box::new(parts));
        let parts = Parts::Part(Box::new(T2::shape()), Box::new(parts));
        let parts = Parts::Part(Box::new(T1::shape()), Box::new(parts));
        let parts = Parts::Part(Box::new(T0::shape()), Box::new(parts));
        Shape::Tuple(Box::new(parts))
    }

    proof fn lemma_encoded_conforms(m: Self::Model) {
        if Self::encode(m) is Ok {
            let items = seq![
                T0::encode(m.0)->Ok_0,
                T1::encode(m.1)->Ok_0,
                T2::encode(m.2)->Ok_0,
                T3::encode(m.3)->Ok_0,
                T4::encode(m.4)->Ok_0,
                T5::encode(m.5)->Ok_0,
                T6::encode(m.6)->Ok_0,
                T7::encode(m.7)->Ok_0,
                T8::encode(m.8)->Ok_0,
            ];
            let tail9 = Parts::End;
            lemma_conform_end(items);
            T8::lemma_encoded_conforms(m.8);
            let tail8 = Parts::Part(Box::new(T8::shape_spec()), Box::new(tail9));
            lemma_conform_part(items, T8::shape_spec(), tail9, 8);
            T7::lemma_encoded_conforms(m.7);
            let tail7 = Parts::Part(Box::new(T7::shape_spec()), Box::new(tail8));
            lemma_conform_part(items, T7::shape_spec(), tail8, 7);
            T6::lemma_encoded_conforms(m.6);
            let tail6 = Parts::Part(Box::new(T6::shape_spec()), Box::new(tail7));
            lemma_conform_part(items, T6::shape_spec(), tail7, 6);
            T5::lemma_encoded_conforms(m.5);
            let tail5 = Parts::Part(Box::new(T5::shape_spec()), Box::new(tail6));
            lemma_conform_part(items, T5::shape_spec(), tail6, 5);
            T4::lemma_encoded_conforms(m.4);
            let tail4 = Parts::Part(Box::new(T4::shape_spec()), Box::new(tail5));
            lemma_conform_part(items, T4::shape_spec(), tail5, 4);
            T3::lemma_encoded_conforms(m.3);
            let tail3 = Parts::Part(Box::new(T3::shape_spec()), Box::new(tail4));
            lemma_conform_part(items, T3::shape_spec(), tail4, 3);
            T2::lemma_encoded_conforms(m.2);
            let tail2 = Parts::Part(Box::new(T2::shape_spec()), Box::new(tail3));
            lemma_conform_part(items, T2::shape_spec(), tail3, 2);
            T1::lemma_encoded_conforms(m.1);
            let tail1 = Parts::Part(Box::new(T1::shape_spec()), Box::new(tail2));
            lemma_conform_part(items, T1::shape_spec(), tail2, 1);
            T0::lemma_encoded_conforms(m.0);
            let tail0 = Parts::Part(Box::new(T0::shape_spec()), Box::new(tail1));
            lemma_conform_part(items, T0::shape_spec(), tail1, 0);
            lemma_conforms_tuple(items, tail0);
        }
    }

    proof fn lemma_conforming_decodes(o: ObjectModel<'env>) {
        let items = o->Tuple_0;
        let tail9 = Parts::End;
        let tail8 = Parts::Part(Box::new(T8::shape_spec()), Box::new(tail9));
        let tail7 = Parts::Part(Box::new(T7::shape_spec()), Box::new(tail8));
        let tail6 = Parts::Part(Box::new(T6::shape_spec()), Box::new(tail7));
        let tail5 = Parts::Part(Box::new(T5::shape_spec()), Box::new(tail6));
        let tail4 = Parts::Part(Box::new(T4::shape_spec()), Box::new(tail5));
        let tail3 = Parts::Part(Box::new(T3::shape_spec()), Box::new(tail4));
        let tail2 = Parts::Part(Box::new(T2::shape_spec()), Box::new(tail3));
        let tail1 = Parts::Part(Box::new(T1::shape_spec()), Box::new(tail2));
        let tail0 = Parts::Part(Box::new(T0::shape_spec()), Box::new(tail1));
        lemma_tuple_parts(items, tail0);
        lemma_conform_split(items, T0::shape_spec(), tail1, 0);
        T0::lemma_conforming_decodes(items[0]);
        lemma_conform_split(items, T1::shape_spec(), tail2, 1);
        T1::lemma_conforming_decodes(items[1]);
        lemma_conform_split(items, T2::shape_spec(), tail3, 2);
        T2::lemma_conforming_decodes(items[2]);
        lemma_conform_split(items, T3::shape_spec(), tail4, 3);
        T3::lemma_conforming_decodes(items[3]);
        lemma_conform_split(items, T4::shape_spec(), tail5, 4);
        T4::lemma_conforming_decodes(items[4]);
        lemma_conform_split(items, T5::shape_spec(), tail6, 5);
        T5::lemma_conforming_decodes(items[5]);
        lemma_conform_split(items, T6::shape_spec(), tail7, 6);
        T6::lemma_conforming_decodes(items[6]);
        lemma_conform_split(items, T7::shape_spec(), tail8, 7);
        T7::lemma_conforming_decodes(items[7]);
        lemma_conform_split(items, T8::shape_spec(), tail9, 8);
        T8::lemma_conforming_decodes(items[8]);
        lemma_conform_done(items, 9);
    }
}

impl<
    'env,
    T0: IntoJavaValue<'env>,
    T1: IntoJavaValue<'env>,
    T2: IntoJavaValue<'env>,
    T3: IntoJavaValue<'env>,
    T4: IntoJavaValue<'env>,
    T5: IntoJavaValue<'env>,
    T6: IntoJavaValue<'env>,
    T7: IntoJavaValue<'env>,
    T8: IntoJavaValue<'env>,
> IntoJavaValue<'env> for (T0, T1, T2, T3, T4, T5, T6, T7, T8) {
    type Target = JavaObject<'env>;

    fn into(self) -> (t: JavaObject<'env>) {
        let ghost parts = seq![
            T0::encode(self.0.model())->Ok_0,
            T1::encode(self.1.model())->Ok_0,
            T2::encode(self.2.model())->Ok_0,
            T3::encode(self.3.model())->Ok_0,
            T4::encode(self.4.model())->Ok_0,
            T5::encode(self.5.model())->Ok_0,
            T6::encode(self.6.model())->Ok_0,
            T7::encode(self.7.model())->Ok_0,
            T8::encode(self.8.model())->Ok_0,
        ];
        let (a0, a1, a2, a3, a4, a5, a6, a7, a8) = self;
        let mut items: Vec<JavaObject<'env>> = Vec::new();
        put_part(&mut items, a0);
        put_part(&mut items, a1);
        put_part(&mut items, a2);
        put_part(&mut items, a3);
        put_part(&mut items, a4);
        put_part(&mut items, a5);
        put_part(&mut items, a6);
        put_part(&mut items, a7);
        put_part(&mut items, a8);
        proof {
            lemma_tuple_model(items);
            assert(models_of(items@) =~= parts);
        }
        JavaObject::Tuple(items)
    }
}

impl<
    'env,
    T0: FromJavaValue<'env>,
    T1: FromJavaValue<'env>,
    T2: FromJavaValue<'env>,
    T3: FromJavaValue<'env>,
    T4: FromJavaValue<'env>,
    T5: FromJavaValue<'env>,
    T6: FromJavaValue<'env>,
    T7: FromJavaValue<'env>,
    T8: FromJavaValue<'env>,
> FromJavaValue<'env> for (T0, T1, T2, T3, T4, T5, T6, T7, T8) {
    type Source = JavaObject<'env>;

    proof fn lemma_decode_unboxes(o: ObjectModel<'env>) {
    }

    fn from(s: JavaObject<'env>) -> (v: Self) {
        match s {
            JavaObject::Tuple(items) => {
                let ghost objects = models_of(items@);
                proof {
                    lemma_tuple_model(items);
                }
                let mut rest = reversed(items);
                assert(rest@.last()@ == objects[0]);
                let v0 = take_part::<T0>(&mut rest);
                assert(rest@.last()@ == objects[1]);
                let v1 = take_part::<T1>(&mut rest);
                assert(rest@.last()@ == objects[2]);
                let v2 = take_part::<T2>(&mut rest);
                assert(rest@.last()@ == objects[3]);
                let v3 = take_part::<T3>(&mut rest);
                assert(rest@.last()@ == objects[4]);
                let v4 = take_part::<T4>(&mut rest);
                assert(rest@.last()@ == objects[5]);
                let v5 = take_part::<T5>(&mut rest);
                assert(rest@.last()@ == objects[6]);
                let v6 = take_part::<T6>(&mut rest);
                assert(rest@.last()@ == objects[7]);
                let v7 = take_part::<T7>(&mut rest);
                assert(rest@.last()@ == objects[8]);
                let v8 = take_part::<T8>(&mut rest);
                (v0, v1, v2, v3, v4, v5, v6, v7, v8)
            },
            _ => unreached(),
        }
    }
}

impl<
    'env,
    T0: TryIntoJavaValue<'env>,
    T1: TryIntoJavaValue<'env>,
    T2: TryIntoJavaValue<'env>,
    T3: TryIntoJavaValue<'env>,
    T4: TryIntoJavaValue<'env>,
    T5: TryIntoJavaValue<'env>,
    T6: TryIntoJavaValue<'env>,
    T7: TryIntoJavaValue<'env>,
    T8: TryIntoJavaValue<'env>,
> TryIntoJavaValue<'env> for (T0, T1, T2, T3, T4, T5, T6, T7, T8) {
    type Target = JavaObject<'env>;

    fn try_into(self) -> (r: Result<JavaObject<'env>, ConversionError>) {
        let ghost parts = seq![
            T0::encode(self.0.model())->Ok_0,
            T1::encode(self.1.model())->Ok_0,
            T2::encode(self.2.model())->Ok_0,
            T3::encode(self.3.model())->Ok_0,
            T4::encode(self.4.model())->Ok_0,
            T5::encode(self.5.model())->Ok_0,
            T6::encode(self.6.model())->Ok_0,
            T7::encode(self.7.model())->Ok_0,
            T8::encode(self.8.model())->Ok_0,
        ];
        let (a0, a1, a2, a3, a4, a5, a6, a7, a8) = self;
        let mut items: Vec<JavaObject<'env>> = Vec::new();
        try_put_part(&mut items, a0)?;
        try_put_part(&mut items, a1)?;
        try_put_part(&mut items, a2)?;
        try_put_part(&mut items, a3)?;
        try_put_part(&mut items, a4)?;
        try_put_part(&mut items, a5)?;
        try_put_part(&mut items, a6)?;
        try_put_part(&mut items, a7)?;
        try_put_part(&mut items, a8)?;
        proof {
            lemma_tuple_model(items);
            assert(models_of(items@) =~= parts);
        }
        Ok(JavaObject::Tuple(items))
    }
}

impl<
    'env,
    T0: TryFromJavaValue<'env>,
    T1: TryFromJavaValue<'env>,
    T2: TryFromJavaValue<'env>,
    T3: TryFromJavaValue<'env>,
    T4: TryFromJavaValue<'env>,
    T5: TryFromJavaValue<'env>,
    T6: TryFromJavaValue<'env>,
    T7: TryFromJavaValue<'env>,
    T8: TryFromJavaValue<'env>,
> TryFromJavaValue<'env> for (T0, T1, T2, T3, T4, T5, T6, T7, T8) {
    type Source = JavaObject<'env>;

    proof fn lemma_decode_unboxes(o: ObjectModel<'env>) {
    }

    fn try_from(s: JavaObject<'env>) -> (r: Result<Self, ConversionError>) {
        match s {
            JavaObject::Tuple(items) => {
                let ghost objects = models_of(items@);
                proof {
                    lemma_tuple_model(items);
                }
                if items.len() != 9 {
                    return Err(
                        ConversionError::InvariantViolation { value: report_count(items.len()) },
                    );
                }
                let mut rest = reversed(items);
                assert(rest@.last()@ == objects[0]);
                let v0 = try_take_part::<T0>(&mut rest)?;
                assert(rest@.last()@ == objects[1]);
                let v1 = try_take_part::<T1>(&mut rest)?;
                assert(rest@.last()@ == objects[2]);
                let v2 = try_take_part::<T2>(&mut rest)?;
                assert(rest@.last()@ == objects[3]);
                let v3 = try_take_part::<T3>(&mut rest)?;
                assert(rest@.last()@ == objects[4]);
                let v4 = try_take_part::<T4>(&mut rest)?;
                assert(rest@.last()@ == objects[5]);
                let v5 = try_take_part::<T5>(&mut rest)?;
                assert(rest@.last()@ == objects[6]);
                let v6 = try_take_part::<T6>(&mut rest)?;
                assert(rest@.last()@ == objects[7]);
                let v7 = try_take_part::<T7>(&mut rest)?;
                assert(rest@.last()@ == objects[8]);
                let v8 = try_take_part::<T8>(&mut rest)?;
                Ok((v0, v1, v2, v3, v4, v5, v6, v7, v8))
            },
            other => Err(ConversionError::mismatch(Kind::Tuple, other.kind())),
        }
    }
}

impl<
    T0,
    T1,
    T2,
    T3,
    T4,
    T5,
    T6,
    T7,
    T8,
    T9,
> Signature for (T0, T1, T2, T3, T4, T5, T6, T7, T8, T9) {
    open spec fn sig_type_spec() -> Seq<char> {
        "LTuple10;"@
    }

    fn sig_type() -> (s: &'static str) {
        "LTuple10;"
    }
}

impl<
    'env,
    T0: Conversion<'env>,
    T1: Conversion<'env>,
    T2: Conversion<'env>,
    T3: Conversion<'env>,
    T4: Conversion<'env>,
    T5: Conversion<'env>,
    T6: Conversion<'env>,
    T7: Conversion<'env>,
    T8: Conversion<'env>,
    T9: Conversion<'env>,
> Conversion<'env> for (T0, T1, T2, T3, T4, T5, T6, T7, T8, T9) {
    type Model = (
        T0::Model,
        T1::Model,
        T2::Model,
        T3::Model,
        T4::Model,
        T5::Model,
        T6::Model,
        T7::Model,
        T8::Model,
        T9::Model,
    );

    open spec fn model(&self) -> Self::Model {
        (
            self.0.model(),
            self.1.model(),
            self.2.model(),
            self.3.model(),
            self.4.model(),
            self.5.model(),
            self.6.model(),
            self.7.model(),
            self.8.model(),
            self.9.model(),
        )
    }

    open spec fn encode(m: Self::Model) -> Result<ObjectModel<'env>, ConversionError> {
        if T0::encode(m.0) is Err {
            Err(T0::encode(m.0)->Err_0)
        } else if T1::encode(m.1) is Err {
            Err(T1::encode(m.1)->Err_0)
        } else if T2::encode(m.2) is Err {
            Err(T2::encode(m.2)->Err_0)
        } else if T3::encode(m.3) is Err {
            Err(T3::encode(m.3)->Err_0)
        } else if T4::encode(m.4) is Err {
            Err(T4::encode(m.4)->Err_0)
        } else if T5::encode(m.5) is Err {
            Err(T5::encode(m.5)->Err_0)
        } else if T6::encode(m.6) is Err {
            Err(T6::encode(m.6)->Err_0)
        } else if T7::encode(m.7) is Err {
            Err(T7::encode(m.7)->Err_0)
        } else if T8::encode(m.8) is Err {
            Err(T8::encode(m.8)->Err_0)
        } else if T9::encode(m.9) is Err {
            Err(T9::encode(m.9)->Err_0)
        } else {
            Ok(
                ObjectModel::Tuple(seq![
                    T0::encode(m.0)->Ok_0,
                    T1::encode(m.1)->Ok_0,
                    T2::encode(m.2)->Ok_0,
                    T3::encode(m.3)->Ok_0,
                    T4::encode(m.4)->Ok_0,
                    T5::encode(m.5)->Ok_0,
                    T6::encode(m.6)->Ok_0,
                    T7::encode(m.7)->Ok_0,
                    T8::encode(m.8)->Ok_0,
                    T9::encode(m.9)->Ok_0,
                ]),
            )
        }
    }

    open spec fn decode(o: ObjectModel<'env>) -> Result<Self::Model, ConversionError> {
        match o {
            ObjectModel::Tuple(items) => if items.len() != 10 {
                Err(ConversionError::InvariantViolation { value: reported_count(items.len()) })
            } else {
                if T0::decode(items[0]) is Err {
                    Err(T0::decode(items[0])->Err_0)
                } else if T1::decode(items[1]) is Err {
                    Err(T1::decode(items[1])->Err_0)
                } else if T2::decode(items[2]) is Err {
                    Err(T2::decode(items[2])->Err_0)
                } else if T3::decode(items[3]) is Err {
                    Err(T3::decode(items[3])->Err_0)
                } else if T4::decode(items[4]) is Err {
                    Err(T4::decode(items[4])->Err_0)
                } else if T5::decode(items[5]) is Err {
                    Err(T5::decode(items[5])->Err_0)
                } else if T6::decode(items[6]) is Err {
                    Err(T6::decode(items[6])->Err_0)
                } else if T7::decode(items[7]) is Err {
                    Err(T7::decode(items[7])->Err_0)
                } else if T8::decode(items[8]) is Err {
                    Err(T8::decode(items[8])->Err_0)
                } else if T9::decode(items[9]) is Err {
                    Err(T9::decode(items[9])->Err_0)
                } else {
                    Ok(
                        (
                            T0::decode(items[0])->Ok_0,
                            T1::decode(items[1])->Ok_0,
                            T2::decode(items[2])->Ok_0,
                            T3::decode(items[3])->Ok_0,
                            T4::decode(items[4])->Ok_0,
                            T5::decode(items[5])->Ok_0,
                            T6::decode(items[6])->Ok_0,
                            T7::decode(items[7])->Ok_0,
                            T8::decode(items[8])->Ok_0,
                            T9::decode(items[9])->Ok_0,
                        ),
                    )
                }
            },
            _ => Err(ConversionError::TypeMismatch { expected: Kind::Tuple, actual: o.kind() }),
        }
    }

    open spec fn round_trips(m: Self::Model) -> bool {
        T0::round_trips(m.0)
            && T1::round_trips(m.1)
            && T2::round_trips(m.2)
            && T3::round_trips(m.3)
            && T4::round_trips(m.4)
            && T5::round_trips(m.5)
            && T6::round_trips(m.6)
            && T7::round_trips(m.7)
            && T8::round_trips(m.8)
            && T9::round_trips(m.9)
    }

    proof fn lemma_round_trip(m: Self::Model) {
        T0::lemma_round_trip(m.0);
        T1::lemma_round_trip(m.1);
        T2::lemma_round_trip(m.2);
        T3::lemma_round_trip(m.3);
        T4::lemma_round_trip(m.4);
        T5::lemma_round_trip(m.5);
        T6::lemma_round_trip(m.6);
        T7::lemma_round_trip(m.7);
        T8::lemma_round_trip(m.8);
        T9::lemma_round_trip(m.9);
    }

    open spec fn shape_spec() -> Shape {
        let parts = Parts::End;
        let parts = Parts::Part(Box::new(T9::shape_spec()), Box::new(parts));
        let parts = Parts::Part(Box::new(T8::shape_spec()), Box::new(parts));
        let parts = Parts::Part(Box::new(T7::shape_spec()), Box::new(parts));
        let parts = Parts::Part(Box::new(T6::shape_spec()), Box::new(parts));
        let parts = Parts::Part(Box::new(T5::shape_spec()), Box::new(parts));
        let parts = Parts::Part(Box::new(T4::shape_spec()), Box::new(parts));
        let parts = Parts::Part(Box::new(T3::shape_spec()), Box::new(parts));
        let parts = Parts::Part(Box::new(T2::shape_spec()), Box::new(parts));
        let parts = Parts::Part(Box::new(T1::shape_spec()), Box::new(parts));
        let parts = Parts::Part(Box::new(T0::shape_spec()), Box::new(parts));
        Shape::Tuple(Box::new(parts))
    }

    fn shape() -> (s: Shape) {
        let parts = Parts::End;
        let parts = Parts::Part(Box::new(T9::shape()), Box::new(parts));
        let parts = Parts::Part(Box::new(T8::shape()), Box::new(parts));
        let parts = Parts::Part(Box::new(T7::shape()), Box::new(parts));
        let parts = Parts::Part(Box::new(T6::shape()), Box::new(parts));
        let parts = Parts::Part(Box::new(T5::shape()), Box::new(parts));
        let parts = Parts::Part(Box::new(T4::shape()), Box::new(parts));
        let parts = Parts::Part(Box::new(T3::shape()), Box::new(parts));
        let parts = Parts::Part(Box::new(T2::shape()), Box::new(parts));
        let parts = Parts::Part(Box::new(T1::shape()), Box::new(parts));
        let parts = Parts::Part(Box::new(T0::shape()), Box::new(parts));
        Shape::Tuple(Box::new(parts))
    }

    proof fn lemma_encoded_conforms(m: Self::Model) {
        if Self::encode(m) is Ok {
            let items = seq![
                T0::encode(m.0)->Ok_0,
                T1::encode(m.1)->Ok_0,
                T2::encode(m.2)->Ok_0,
                T3::encode(m.3)->Ok_0,
                T4::encode(m.4)->Ok_0,
                T5::encode(m.5)->Ok_0,
                T6::encode(m.6)->Ok_0,
                T7::encode(m.7)->Ok_0,
                T8::encode(m.8)->Ok_0,
                T9::encode(m.9)->Ok_0,
            ];
            let tail10 = Parts::End;
            lemma_conform_end(items);
            T9::lemma_encoded_conforms(m.9);
            let tail9 = Parts::Part(Box::new(T9::shape_spec()), Box::new(tail10));
            lemma_conform_part(items, T9::shape_spec(), tail10, 9);
            T8::lemma_encoded_conforms(m.8);
            let tail8 = Parts::Part(Box::new(T8::shape_spec()), Box::new(tail9));
            lemma_conform_part(items, T8::shape_spec(), tail9, 8);
            T7::lemma_encoded_conforms(m.7);
            let tail7 = Parts::Part(Box::new(T7::shape_spec()), Box::new(tail8));
            lemma_conform_part(items, T7::shape_spec(), tail8, 7);
            T6::lemma_encoded_conforms(m.6);
            let tail6 = Parts::Part(Box::new(T6::shape_spec()), Box::new(tail7));
            lemma_conform_part(items, T6::shape_spec(), tail7, 6);
            T5::lemma_encoded_conforms(m.5);
            let tail5 = Parts::Part(Box::new(T5::shape_spec()), Box::new(tail6));
            lemma_conform_part(items, T5::shape_spec(), tail6, 5);
            T4::lemma_encoded_conforms(m.4);
            let tail4 = Parts::Part(Box::new(T4::shape_spec()), Box::new(tail5));
            lemma_conform_part(items, T4::shape_spec(), tail5, 4);
            T3::lemma_encoded_conforms(m.3);
            let tail3 = Parts::Part(Box::new(T3::shape_spec()), Box::new(tail4));
            lemma_conform_part(items, T3::shape_spec(), tail4, 3);
            T2::lemma_encoded_conforms(m.2);
            let tail2 = Parts::Part(Box::new(T2::shape_spec()), Box::new(tail3));
            lemma_conform_part(items, T2::shape_spec(), tail3, 2);
            T1::lemma_encoded_conforms(m.1);
            let tail1 = Parts::Part(Box::new(T1::shape_spec()), Box::new(tail2));
            lemma_conform_part(items, T1::shape_spec(), tail2, 1);
            T0::lemma_encoded_conforms(m.0);
            let tail0 = Parts::Part(Box::new(T0::shape_spec()), Box::new(tail1));
            lemma_conform_part(items, T0::shape_spec(), tail1, 0);
            lemma_conforms_tuple(items, tail0);
        }
    }

    proof fn lemma_conforming_decodes(o: ObjectModel<'env>) {
        let items = o->Tuple_0;
        let tail10 = Parts::End;
        let tail9 = Parts::Part(Box::new(T9::shape_spec()), Box::new(tail10));
        let tail8 = Parts::Part(Box::new(T8::shape_spec()), Box::new(tail9));
        let tail7 = Parts::Part(Box::new(T7::shape_spec()), Box::new(tail8));
        let tail6 = Parts::Part(Box::new(T6::shape_spec()), Box::new(tail7));
        let tail5 = Parts::Part(Box::new(T5::shape_spec()), Box::new(tail6));
        let tail4 = Parts::Part(Box::new(T4::shape_spec()), Box::new(tail5));
        let tail3 = Parts::Part(Box::new(T3::shape_spec()), Box::new(tail4));
        let tail2 = Parts::Part(Box::new(T2::shape_spec()), Box::new(tail3));
        let tail1 = Parts::Part(Box::new(T1::shape_spec()), Box::new(tail2));
        let tail0 = Parts::Part(Box::new(T0::shape_spec()), Box::new(tail1));
        lemma_tuple_parts(items, tail0);
        lemma_conform_split(items, T0::shape_spec(), tail1, 0);
        T0::lemma_conforming_decodes(items[0]);
        lemma_conform_split(items, T1::shape_spec(), tail2, 1);
        T1::lemma_conforming_decodes(items[1]);
        lemma_conform_split(items, T2::shape_spec(), tail3, 2);
        T2::lemma_conforming_decodes(items[2]);
        lemma_conform_split(items, T3::shape_spec(), tail4, 3);
        T3::lemma_conforming_decodes(items[3]);
        lemma_conform_split(items, T4::shape_spec(), tail5, 4);
        T4::lemma_conforming_decodes(items[4]);
        lemma_conform_split(items, T5::shape_spec(), tail6, 5);
        T5::lemma_conforming_decodes(items[5]);
        lemma_conform_split(items, T6::shape_spec(), tail7, 6);
        T6::lemma_conforming_decodes(items[6]);
        lemma_conform_split(items, T7::shape_spec(), tail8, 7);
        T7::lemma_conforming_decodes(items[7]);
        lemma_conform_split(items, T8::shape_spec(), tail9, 8);
        T8::lemma_conforming_decodes(items[8]);
        lemma_conform_split(items, T9::shape_spec(), tail10, 9);
        T9::lemma_conforming_decodes(items[9]);
        lemma_conform_done(items, 10);
    }
}

impl<
    'env,
    T0: IntoJavaValue<'env>,
    T1: IntoJavaValue<'env>,
    T2: IntoJavaValue<'env>,
    T3: IntoJavaValue<'env>,
    T4: IntoJavaValue<'env>,
    T5: IntoJavaValue<'env>,
    T6: IntoJavaValue<'env>,
    T7: IntoJavaValue<'env>,
    T8: IntoJavaValue<'env>,
    T9: IntoJavaValue<'env>,
> IntoJavaValue<'env> for (T0, T1, T2, T3, T4, T5, T6, T7, T8, T9) {
    type Target = JavaObject<'env>;

    fn into(self) -> (t: JavaObject<'env>) {
        let ghost parts = seq![
            T0::encode(self.0.model())->Ok_0,
            T1::encode(self.1.model())->Ok_0,
            T2::encode(self.2.model())->Ok_0,
            T3::encode(self.3.model())->Ok_0,
            T4::encode(self.4.model())->Ok_0,
            T5::encode(self.5.model())->Ok_0,
            T6::encode(self.6.model())->Ok_0,
            T7::encode(self.7.model())->Ok_0,
            T8::encode(self.8.model())->Ok_0,
            T9::encode(self.9.model())->Ok_0,
        ];
        let (a0, a1, a2, a3, a4, a5, a6, a7, a8, a9) = self;
        let mut items: Vec<JavaObject<'env>> = Vec::new();
        put_part(&mut items, a0);
        put_part(&mut items, a1);
        put_part(&mut items, a2);
        put_part(&mut items, a3);
        put_part(&mut items, a4);
        put_part(&mut items, a5);
        put_part(&mut items, a6);
        put_part(&mut items, a7);
        put_part(&mut items, a8);
        put_part(&mut items, a9);
        proof {
            lemma_tuple_model(items);
            assert(models_of(items@) =~= parts);
        }
        JavaObject::Tuple(items)
    }
}

impl<
    'env,
    T0: FromJavaValue<'env>,
    T1: FromJavaValue<'env>,
    T2: FromJavaValue<'env>,
    T3: FromJavaValue<'env>,
    T4: FromJavaValue<'env>,
    T5: FromJavaValue<'env>,
    T6: FromJavaValue<'env>,
    T7: FromJavaValue<'env>,
    T8: FromJavaValue<'env>,
    T9: FromJavaValue<'env>,
> FromJavaValue<'env> for (T0, T1, T2, T3, T4, T5, T6, T7, T8, T9) {
    type Source = JavaObject<'env>;

    proof fn lemma_decode_unboxes(o: ObjectModel<'env>) {
    }

    fn from(s: JavaObject<'env>) -> (v: Self) {
        match s {
            JavaObject::Tuple(items) => {
                let ghost objects = models_of(items@);
                proof {
                    lemma_tuple_model(items);
                }
                let mut rest = reversed(items);
                assert(rest@.last()@ == objects[0]);
                let v0 = take_part::<T0>(&mut rest);
                assert(rest@.last()@ == objects[1]);
                let v1 = take_part::<T1>(&mut rest);
                assert(rest@.last()@ == objects[2]);
                let v2 = take_part::<T2>(&mut rest);
                assert(rest@.last()@ == objects[3]);
                let v3 = take_part::<T3>(&mut rest);
                assert(rest@.last()@ == objects[4]);
                let v4 = take_part::<T4>(&mut rest);
                assert(rest@.last()@ == objects[5]);
                let v5 = take_part::<T5>(&mut rest);
                assert(rest@.last()@ == objects[6]);
                let v6 = take_part::<T6>(&mut rest);
                assert(rest@.last()@ == objects[7]);
                let v7 = take_part::<T7>(&mut rest);
                assert(rest@.last()@ == objects[8]);
                let v8 = take_part::<T8>(&mut rest);
                assert(rest@.last()@ == objects[9]);
                let v9 = take_part::<T9>(&mut rest);
                (v0, v1, v2, v3, v4, v5, v6, v7, v8, v9)
            },
            _ => unreached(),
        }
    }
}

impl<
    'env,
    T0: TryIntoJavaValue<'env>,
    T1: TryIntoJavaValue<'env>,
    T2: TryIntoJavaValue<'env>,
    T3: TryIntoJavaValue<'env>,
    T4: TryIntoJavaValue<'env>,
    T5: TryIntoJavaValue<'env>,
    T6: TryIntoJavaValue<'env>,
    T7: TryIntoJavaValue<'env>,
    T8: TryIntoJavaValue<'env>,
    T9: TryIntoJavaValue<'env>,
> TryIntoJavaValue<'env> for (T0, T1, T2, T3, T4, T5, T6, T7, T8, T9) {
    type Target = JavaObject<'env>;

    fn try_into(self) -> (r: Result<JavaObject<'env>, ConversionError>) {
        let ghost parts = seq![
            T0::encode(self.0.model())->Ok_0,
            T1::encode(self.1.model())->Ok_0,
            T2::encode(self.2.model())->Ok_0,
            T3::encode(self.3.model())->Ok_0,
            T4::encode(self.4.model())->Ok_0,
            T5::encode(self.5.model())->Ok_0,
            T6::encode(self.6.model())->Ok_0,
            T7::encode(self.7.model())->Ok_0,
            T8::encode(self.8.model())->Ok_0,
            T9::encode(self.9.model())->Ok_0,
        ];
        let (a0, a1, a2, a3, a4, a5, a6, a7, a8, a9) = self;
        let mut items: Vec<JavaObject<'env>> = Vec::new();
        try_put_part(&mut items, a0)?;
        try_put_part(&mut items, a1)?;
        try_put_part(&mut items, a2)?;
        try_put_part(&mut items, a3)?;
        try_put_part(&mut items, a4)?;
        try_put_part(&mut items, a5)?;
        try_put_part(&mut items, a6)?;
        try_put_part(&mut items, a7)?;
        try_put_part(&mut items, a8)?;
        try_put_part(&mut items, a9)?;
        proof {
            lemma_tuple_model(items);
            assert(models_of(items@) =~= parts);
        }
        Ok(JavaObject::Tuple(items))
    }
}

impl<
    'env,
    T0: TryFromJavaValue<'env>,
    T1: TryFromJavaValue<'env>,
    T2: TryFromJavaValue<'env>,
    T3: TryFromJavaValue<'env>,
    T4: TryFromJavaValue<'env>,
    T5: TryFromJavaValue<'env>,
    T6: TryFromJavaValue<'env>,
    T7: TryFromJavaValue<'env>,
    T8: TryFromJavaValue<'env>,
    T9: TryFromJavaValue<'env>,
> TryFromJavaValue<'env> for (T0, T1, T2, T3, T4, T5, T6, T7, T8, T9) {
    type Source = JavaObject<'env>;

    proof fn lemma_decode_unboxes(o: ObjectModel<'env>) {
    }

    fn try_from(s: JavaObject<'env>) -> (r: Result<Self, ConversionError>) {
        match s {
            JavaObject::Tuple(items) => {
                let ghost objects = models_of(items@);
                proof {
                    lemma_tuple_model(items);
                }
                if items.len() != 10 {
                    return Err(
                        ConversionError::InvariantViolation { value: report_count(items.len()) },
                    );
                }
                let mut rest = reversed(items);
                assert(rest@.last()@ == objects[0]);
                let v0 = try_take_part::<T0>(&mut rest)?;
                assert(rest@.last()@ == objects[1]);
                let v1 = try_take_part::<T1>(&mut rest)?;
                assert(rest@.last()@ == objects[2]);
                let v2 = try_take_part::<T2>(&mut rest)?;
                assert(rest@.last()@ == objects[3]);
                let v3 = try_take_part::<T3>(&mut rest)?;
                assert(rest@.last()@ == objects[4]);
                let v4 = try_take_part::<T4>(&mut rest)?;
                assert(rest@.last()@ == objects[5]);
                let v5 = try_take_part::<T5>(&mut rest)?;
                assert(rest@.last()@ == objects[6]);
                let v6 = try_take_part::<T6>(&mut rest)?;
                assert(rest@.last()@ == objects[7]);
                let v7 = try_take_part::<T7>(&mut rest)?;
                assert(rest@.last()@ == objects[8]);
                let v8 = try_take_part::<T8>(&mut rest)?;
                assert(rest@.last()@ == objects[9]);
                let v9 = try_take_part::<T9>(&mut rest)?;
                Ok((v0, v1, v2, v3, v4, v5, v6, v7, v8, v9))
            },
            other => Err(ConversionError::mismatch(Kind::Tuple, other.kind())),
        }
    }
}

impl<
    T0,
    T1,
    T2,
    T3,
    T4,
    T5,
    T6,
    T7,
    T8,
    T9,
    T10,
> Signature for (T0, T1, T2, T3, T4, T5, T6, T7, T8, T9, T10) {
    open spec fn sig_type_spec() -> Seq<char> {
        "LTuple11;"@
    }

    fn sig_type() -> (s: &'static str) {
        "LTuple11;"
    }
}

impl<
    'env,
    T0: Conversion<'env>,
    T1: Conversion<'env>,
    T2: Conversion<'env>,
    T3: Conversion<'env>,
    T4: Conversion<'env>,
    T5: Conversion<'env>,
    T6: Conversion<'env>,
    T7: Conversion<'env>,
    T8: Conversion<'env>,
    T9: Conversion<'env>,
    T10: Conversion<'env>,
> Conversion<'env> for (T0, T1, T2, T3, T4, T5, T6, T7, T8, T9, T10) {
    type Model = (
        T0::Model,
        T1::Model,
        T2::Model,
        T3::Model,
        T4::Model,
        T5::Model,
        T6::Model,
        T7::Model,
        T8::Model,
        T9::Model,
        T10::Model,
    );

    open spec fn model(&self) -> Self::Model {
        (
            self.0.model(),
            self.1.model(),
            self.2.model(),
            self.3.model(),
            self.4.model(),
            self.5.model(),
            self.6.model(),
            self.7.model(),
            self.8.model(),
            self.9.model(),
            self.10.model(),
        )
    }

    open spec fn encode(m: Self::Model) -> Result<ObjectModel<'env>, ConversionError> {
        if T0::encode(m.0) is Err {
            Err(T0::encode(m.0)->Err_0)
        } else if T1::encode(m.1) is Err {
            Err(T1::encode(m.1)->Err_0)
        } else if T2::encode(m.2) is Err {
            Err(T2::encode(m.2)->Err_0)
        } else if T3::encode(m.3) is Err {
            Err(T3::encode(m.3)->Err_0)
        } else if T4::encode(m.4) is Err {
            Err(T4::encode(m.4)->Err_0)
        } else if T5::encode(m.5) is Err {
            Err(T5::encode(m.5)->Err_0)
        } else if T6::encode(m.6) is Err {
            Err(T6::encode(m.6)->Err_0)
        } else if T7::encode(m.7) is Err {
            Err(T7::encode(m.7)->Err_0)
        } else if T8::encode(m.8) is Err {
            Err(T8::encode(m.8)->Err_0)
        } else if T9::encode(m.9) is Err {
            Err(T9::encode(m.9)->Err_0)
        } else if T10::encode(m.10) is Err {
            Err(T10::encode(m.10)->Err_0)
        } else {
            Ok(
                ObjectModel::Tuple(seq![
                    T0::encode(m.0)->Ok_0,
                    T1::encode(m.1)->Ok_0,
                    T2::encode(m.2)->Ok_0,
                    T3::encode(m.3)->Ok_0,
                    T4::encode(m.4)->Ok_0,
                    T5::encode(m.5)->Ok_0,
                    T6::encode(m.6)->Ok_0,
                    T7::encode(m.7)->Ok_0,
                    T8::encode(m.8)->Ok_0,
                    T9::encode(m.9)->Ok_0,
                    T10::encode(m.10)->Ok_0,
                ]),
            )
        }
    }

    open spec fn decode(o: ObjectModel<'env>) -> Result<Self::Model, ConversionError> {
        match o {
            ObjectModel::Tuple(items) => if items.len() != 11 {
                Err(ConversionError::InvariantViolation { value: reported_count(items.len()) })
            } else {
                if T0::decode(items[0]) is Err {
                    Err(T0::decode(items[0])->Err_0)
                } else if T1::decode(items[1]) is Err {
                    Err(T1::decode(items[1])->Err_0)
                } else if T2::decode(items[2]) is Err {
                    Err(T2::decode(items[2])->Err_0)
                } else if T3::decode(items[3]) is Err {
                    Err(T3::decode(items[3])->Err_0)
                } else if T4::decode(items[4]) is Err {
                    Err(T4::decode(items[4])->Err_0)
                } else if T5::decode(items[5]) is Err {
                    Err(T5::decode(items[5])->Err_0)
                } else if T6::decode(items[6]) is Err {
                    Err(T6::decode(items[6])->Err_0)
                } else if T7::decode(items[7]) is Err {
                    Err(T7::decode(items[7])->Err_0)
                } else if T8::decode(items[8]) is Err {
                    Err(T8::decode(items[8])->Err_0)
                } else if T9::decode(items[9]) is Err {
                    Err(T9::decode(items[9])->Err_0)
                } else if T10::decode(items[10]) is Err {
                    Err(T10::decode(items[10])->Err_0)
                } else {
                    Ok(
                        (
                            T0::decode(items[0])->Ok_0,
                            T1::decode(items[1])->Ok_0,
                            T2::decode(items[2])->Ok_0,
                            T3::decode(items[3])->Ok_0,
                            T4::decode(items[4])->Ok_0,
                            T5::decode(items[5])->Ok_0,
                            T6::decode(items[6])->Ok_0,
                            T7::decode(items[7])->Ok_0,
                            T8::decode(items[8])->Ok_0,
                            T9::decode(items[9])->Ok_0,
                            T10::decode(items[10])->Ok_0,
                        ),
                    )
                }
            },
            _ => Err(ConversionError::TypeMismatch { expected: Kind::Tuple, actual: o.kind() }),
        }
    }

    open spec fn round_trips(m: Self::Model) -> bool {
        T0::round_trips(m.0)
            && T1::round_trips(m.1)
            && T2::round_trips(m.2)
            && T3::round_trips(m.3)
            && T4::round_trips(m.4)
            && T5::round_trips(m.5)
            && T6::round_trips(m.6)
            && T7::round_trips(m.7)
            && T8::round_trips(m.8)
            && T9::round_trips(m.9)
            && T10::round_trips(m.10)
    }

    proof fn lemma_round_trip(m: Self::Model) {
        T0::lemma_round_trip(m.0);
        T1::lemma_round_trip(m.1);
        T2::lemma_round_trip(m.2);
        T3::lemma_round_trip(m.3);
        T4::lemma_round_trip(m.4);
        T5::lemma_round_trip(m.5);
        T6::lemma_round_trip(m.6);
        T7::lemma_round_trip(m.7);
        T8::lemma_round_trip(m.8);
        T9::lemma_round_trip(m.9);
        T10::lemma_round_trip(m.10);
    }

    open spec fn shape_spec() -> Shape {
        let parts = Parts::End;
        let parts = Parts::Part(Box::new(T10::shape_spec()), Box::new(parts));
        let parts = Parts::Part(Box::new(T9::shape_spec()), Box::new(parts));
        let parts = Parts::Part(Box::new(T8::shape_spec()), Box::new(parts));
        let parts = Parts::Part(Box::new(T7::shape_spec()), Box::new(parts));
        let parts = Parts::Part(Box::new(T6::shape_spec()), Box::new(parts));
        let parts = Parts::Part(Box::new(T5::shape_spec()), Box::new(parts));
        let parts = Parts::Part(Box::new(T4::shape_spec()), Box::new(parts));
        let parts = Parts::Part(Box::new(T3::shape_spec()), Box::new(parts));
        let parts = Parts::Part(Box::new(T2::shape_spec()), Box::new(parts));
        let parts = Parts::Part(Box::new(T1::shape_spec()), Box::new(parts));
        let parts = Parts::Part(Box::new(T0::shape_spec()), Box::new(parts));
        Shape::Tuple(Box::new(parts))
    }

    fn shape() -> (s: Shape) {
        let parts = Parts::End;
        let parts = Parts::Part(Box::new(T10::shape()), Box::new(parts));
        let parts = Parts::Part(Box::new(T9::shape()), Box::new(parts));
        let parts = Parts::Part(Box::new(T8::shape()), Box::new(parts));
        let parts = Parts::Part(Box::new(T7::shape()), Box::new(parts));
        let parts = Parts::Part(Box::new(T6::shape()), Box::new(parts));
        let parts = Parts::Part(Box::new(T5::shape()), Box::new(parts));
        let parts = Parts::Part(Box::new(T4::shape()), Box::new(parts));
        let parts = Parts::Part(Box::new(T3::shape()), Box::new(parts));
        let parts = Parts::Part(Box::new(T2::shape()), Box::new(parts));
        let parts = Parts::Part(Box::new(T1::shape()), Box::new(parts));
        let parts = Parts::Part(Box::new(T0::shape()), Box::new(parts));
        Shape::Tuple(Box::new(parts))
    }

    proof fn lemma_encoded_conforms(m: Self::Model) {
        if Self::encode(m) is Ok {
            let items = seq![
                T0::encode(m.0)->Ok_0,
                T1::encode(m.1)->Ok_0,
                T2::encode(m.2)->Ok_0,
                T3::encode(m.3)->Ok_0,
                T4::encode(m.4)->Ok_0,
                T5::encode(m.5)->Ok_0,
                T6::encode(m.6)->Ok_0,
                T7::encode(m.7)->Ok_0,
                T8::encode(m.8)->Ok_0,
                T9::encode(m.9)->Ok_0,
                T10::encode(m.10)->Ok_0,
            ];
            let tail11 = Parts::End;
            lemma_conform_end(items);
            T10::lemma_encoded_conforms(m.10);
            let tail10 = Parts::Part(Box::new(T10::shape_spec()), Box::new(tail11));
            lemma_conform_part(items, T10::shape_spec(), tail11, 10);
            T9::lemma_encoded_conforms(m.9);
            let tail9 = Parts::Part(Box::new(T9::shape_spec()), Box::new(tail10));
            lemma_conform_part(items, T9::shape_spec(), tail10, 9);
            T8::lemma_encoded_conforms(m.8);
            let tail8 = Parts::Part(Box::new(T8::shape_spec()), Box::new(tail9));
            lemma_conform_part(items, T8::shape_spec(), tail9, 8);
            T7::lemma_encoded_conforms(m.7);
            let tail7 = Parts::Part(Box::new(T7::shape_spec()), Box::new(tail8));
            lemma_conform_part(items, T7::shape_spec(), tail8, 7);
            T6::lemma_encoded_conforms(m.6);
            let tail6 = Parts::Part(Box::new(T6::shape_spec()), Box::new(tail7));
            lemma_conform_part(items, T6::shape_spec(), tail7, 6);
            T5::lemma_encoded_conforms(m.5);
            let tail5 = Parts::Part(Box::new(T5::shape_spec()), Box::new(tail6));
            lemma_conform_part(items, T5::shape_spec(), tail6, 5);
            T4::lemma_encoded_conforms(m.4);
            let tail4 = Parts::Part(Box::new(T4::shape_spec()), Box::new(tail5));
            lemma_conform_part(items, T4::shape_spec(), tail5, 4);
            T3::lemma_encoded_conforms(m.3);
            let tail3 = Parts::Part(Box::new(T3::shape_spec()), Box::new(tail4));
            lemma_conform_part(items, T3::shape_spec(), tail4, 3);
            T2::lemma_encoded_conforms(m.2);
            let tail2 = Parts::Part(Box::new(T2::shape_spec()), Box::new(tail3));
            lemma_conform_part(items, T2::shape_spec(), tail3, 2);
            T1::lemma_encoded_conforms(m.1);
            let tail1 = Parts::Part(Box::new(T1::shape_spec()), Box::new(tail2));
            lemma_conform_part(items, T1::shape_spec(), tail2, 1);
            T0::lemma_encoded_conforms(m.0);
            let tail0 = Parts::Part(Box::new(T0::shape_spec()), Box::new(tail1));
            lemma_conform_part(items, T0::shape_spec(), tail1, 0);
            lemma_conforms_tuple(items, tail0);
        }
    }

    proof fn lemma_conforming_decodes(o: ObjectModel<'env>) {
        let items = o->Tuple_0;
        let tail11 = Parts::End;
        let tail10 = Parts::Part(Box::new(T10::shape_spec()), Box::new(tail11));
        let tail9 = Parts::Part(Box::new(T9::shape_spec()), Box::new(tail10));
        let tail8 = Parts::Part(Box::new(T8::shape_spec()), Box::new(tail9));
        let tail7 = Parts::Part(Box::new(T7::shape_spec()), Box::new(tail8));
        let tail6 = Parts::Part(Box::new(T6::shape_spec()), Box::new(tail7));
        let tail5 = Parts::Part(Box::new(T5::shape_spec()), Box::new(tail6));
        let tail4 = Parts::Part(Box::new(T4::shape_spec()), Box::new(tail5));
        let tail3 = Parts::Part(Box::new(T3::shape_spec()), Box::new(tail4));
        let tail2 = Parts::Part(Box::new(T2::shape_spec()), Box::new(tail3));
        let tail1 = Parts::Part(Box::new(T1::shape_spec()), Box::new(tail2));
        let tail0 = Parts::Part(Box::new(T0::shape_spec()), Box::new(tail1));
        lemma_tuple_parts(items, tail0);
        lemma_conform_split(items, T0::shape_spec(), tail1, 0);
        T0::lemma_conforming_decodes(items[0]);
        lemma_conform_split(items, T1::shape_spec(), tail2, 1);
        T1::lemma_conforming_decodes(items[1]);
        lemma_conform_split(items, T2::shape_spec(), tail3, 2);
        T2::lemma_conforming_decodes(items[2]);
        lemma_conform_split(items, T3::shape_spec(), tail4, 3);
        T3::lemma_conforming_decodes(items[3]);
        lemma_conform_split(items, T4::shape_spec(), tail5, 4);
        T4::lemma_conforming_decodes(items[4]);
        lemma_conform_split(items, T5::shape_spec(), tail6, 5);
        T5::lemma_conforming_decodes(items[5]);
        lemma_conform_split(items, T6::shape_spec(), tail7, 6);
        T6::lemma_conforming_decodes(items[6]);
        lemma_conform_split(items, T7::shape_spec(), tail8, 7);
        T7::lemma_conforming_decodes(items[7]);
        lemma_conform_split(items, T8::shape_spec(), tail9, 8);
        T8::lemma_conforming_decodes(items[8]);
        lemma_conform_split(items, T9::shape_spec(), tail10, 9);
        T9::lemma_conforming_decodes(items[9]);
        lemma_conform_split(items, T10::shape_spec(), tail11, 10);
        T10::lemma_conforming_decodes(items[10]);
        lemma_conform_done(items, 11);
    }
}

impl<
    'env,
    T0: IntoJavaValue<'env>,
    T1: IntoJavaValue<'env>,
    T2: IntoJavaValue<'env>,
    T3: IntoJavaValue<'env>,
    T4: IntoJavaValue<'env>,
    T5: IntoJavaValue<'env>,
    T6: IntoJavaValue<'env>,
    T7: IntoJavaValue<'env>,
    T8: IntoJavaValue<'env>,
    T9: IntoJavaValue<'env>,
    T10: IntoJavaValue<'env>,
> IntoJavaValue<'env> for (T0, T1, T2, T3, T4, T5, T6, T7, T8, T9, T10) {
    type Target = JavaObject<'env>;

    fn into(self) -> (t: JavaObject<'env>) {
        let ghost parts = seq![
            T0::encode(self.0.model())->Ok_0,
            T1::encode(self.1.model())->Ok_0,
            T2::encode(self.2.model())->Ok_0,
            T3::encode(self.3.model())->Ok_0,
            T4::encode(self.4.model())->Ok_0,
            T5::encode(self.5.model())->Ok_0,
            T6::encode(self.6.model())->Ok_0,
            T7::encode(self.7.model())->Ok_0,
            T8::encode(self.8.model())->Ok_0,
            T9::encode(self.9.model())->Ok_0,
            T10::encode(self.10.model())->Ok_0,
        ];
        let (a0, a1, a2, a3, a4, a5, a6, a7, a8, a9, a10) = self;
        let mut items: Vec<JavaObject<'env>> = Vec::new();
        put_part(&mut items, a0);
        put_part(&mut items, a1);
        put_part(&mut items, a2);
        put_part(&mut items, a3);
        put_part(&mut items, a4);
        put_part(&mut items, a5);
        put_part(&mut items, a6);
        put_part(&mut items, a7);
        put_part(&mut items, a8);
        put_part(&mut items, a9);
        put_part(&mut items, a10);
        proof {
            lemma_tuple_model(items);
            assert(models_of(items@) =~= parts);
        }
        JavaObject::Tuple(items)
    }
}

impl<
    'env,
    T0: FromJavaValue<'env>,
    T1: FromJavaValue<'env>,
    T2: FromJavaValue<'env>,
    T3: FromJavaValue<'env>,
    T4: FromJavaValue<'env>,
    T5: FromJavaValue<'env>,
    T6: FromJavaValue<'env>,
    T7: FromJavaValue<'env>,
    T8: FromJavaValue<'env>,
    T9: FromJavaValue<'env>,
    T10: FromJavaValue<'env>,
> FromJavaValue<'env> for (T0, T1, T2, T3, T4, T5, T6, T7, T8, T9, T10) {
    type Source = JavaObject<'env>;

    proof fn lemma_decode_unboxes(o: ObjectModel<'env>) {
    }

    fn from(s: JavaObject<'env>) -> (v: Self) {
        match s {
            JavaObject::Tuple(items) => {
                let ghost objects = models_of(items@);
                proof {
                    lemma_tuple_model(items);
                }
                let mut rest = reversed(items);
                assert(rest@.last()@ == objects[0]);
                let v0 = take_part::<T0>(&mut rest);
                assert(rest@.last()@ == objects[1]);
                let v1 = take_part::<T1>(&mut rest);
                assert(rest@.last()@ == objects[2]);
                let v2 = take_part::<T2>(&mut rest);
                assert(rest@.last()@ == objects[3]);
                let v3 = take_part::<T3>(&mut rest);
                assert(rest@.last()@ == objects[4]);
                let v4 = take_part::<T4>(&mut rest);
                assert(rest@.last()@ == objects[5]);
                let v5 = take_part::<T5>(&mut rest);
                assert(rest@.last()@ == objects[6]);
                let v6 = take_part::<T6>(&mut rest);
                assert(rest@.last()@ == objects[7]);
                let v7 = take_part::<T7>(&mut rest);
                assert(rest@.last()@ == objects[8]);
                let v8 = take_part::<T8>(&mut rest);
                assert(rest@.last()@ == objects[9]);
                let v9 = take_part::<T9>(&mut rest);
                assert(rest@.last()@ == objects[10]);
                let v10 = take_part::<T10>(&mut rest);
                (v0, v1, v2, v3, v4, v5, v6, v7, v8, v9, v10)
            },
            _ => unreached(),
        }
    }
}

impl<
    'env,
    T0: TryIntoJavaValue<'env>,
    T1: TryIntoJavaValue<'env>,
    T2: TryIntoJavaValue<'env>,
    T3: TryIntoJavaValue<'env>,
    T4: TryIntoJavaValue<'env>,
    T5: TryIntoJavaValue<'env>,
    T6: TryIntoJavaValue<'env>,
    T7: TryIntoJavaValue<'env>,
    T8: TryIntoJavaValue<'env>,
    T9: TryIntoJavaValue<'env>,
    T10: TryIntoJavaValue<'env>,
> TryIntoJavaValue<'env> for (T0, T1, T2, T3, T4, T5, T6, T7, T8, T9, T10) {
    type Target = JavaObject<'env>;

    fn try_into(self) -> (r: Result<JavaObject<'env>, ConversionError>) {
        let ghost parts = seq![
            T0::encode(self.0.model())->Ok_0,
            T1::encode(self.1.model())->Ok_0,
            T2::encode(self.2.model())->Ok_0,
            T3::encode(self.3.model())->Ok_0,
            T4::encode(self.4.model())->Ok_0,
            T5::encode(self.5.model())->Ok_0,
            T6::encode(self.6.model())->Ok_0,
            T7::encode(self.7.model())->Ok_0,
            T8::encode(self.8.model())->Ok_0,
            T9::encode(self.9.model())->Ok_0,
            T10::encode(self.10.model())->Ok_0,
        ];
        let (a0, a1, a2, a3, a4, a5, a6, a7, a8, a9, a10) = self;
        let mut items: Vec<JavaObject<'env>> = Vec::new();
        try_put_part(&mut items, a0)?;
        try_put_part(&mut items, a1)?;
        try_put_part(&mut items, a2)?;
        try_put_part(&mut items, a3)?;
        try_put_part(&mut items, a4)?;
        try_put_part(&mut items, a5)?;
        try_put_part(&mut items, a6)?;
        try_put_part(&mut items, a7)?;
        try_put_part(&mut items, a8)?;
        try_put_part(&mut items, a9)?;
        try_put_part(&mut items, a10)?;
        proof {
            lemma_tuple_model(items);
            assert(models_of(items@) =~= parts);
        }
        Ok(JavaObject::Tuple(items))
    }
}

impl<
    'env,
    T0: TryFromJavaValue<'env>,
    T1: TryFromJavaValue<'env>,
    T2: TryFromJavaValue<'env>,
    T3: TryFromJavaValue<'env>,
    T4: TryFromJavaValue<'env>,
    T5: TryFromJavaValue<'env>,
    T6: TryFromJavaValue<'env>,
    T7: TryFromJavaValue<'env>,
    T8: TryFromJavaValue<'env>,
    T9: TryFromJavaValue<'env>,
    T10: TryFromJavaValue<'env>,
> TryFromJavaValue<'env> for (T0, T1, T2, T3, T4, T5, T6, T7, T8, T9, T10) {
    type Source = JavaObject<'env>;

    proof fn lemma_decode_unboxes(o: ObjectModel<'env>) {
    }

    fn try_from(s: JavaObject<'env>) -> (r: Result<Self, ConversionError>) {
        match s {
            JavaObject::Tuple(items) => {
                let ghost objects = models_of(items@);
                proof {
                    lemma_tuple_model(items);
                }
                if items.len() != 11 {
                    return Err(
                        ConversionError::InvariantViolation { value: report_count(items.len()) },
                    );
                }
                let mut rest = reversed(items);
                assert(rest@.last()@ == objects[0]);
                let v0 = try_take_part::<T0>(&mut rest)?;
                assert(rest@.last()@ == objects[1]);
                let v1 = try_take_part::<T1>(&mut rest)?;
                assert(rest@.last()@ == objects[2]);
                let v2 = try_take_part::<T2>(&mut rest)?;
                assert(rest@.last()@ == objects[3]);
                let v3 = try_take_part::<T3>(&mut rest)?;
                assert(rest@.last()@ == objects[4]);
                let v4 = try_take_part::<T4>(&mut rest)?;
                assert(rest@.last()@ == objects[5]);
                let v5 = try_take_part::<T5>(&mut rest)?;
                assert(rest@.last()@ == objects[6]);
                let v6 = try_take_part::<T6>(&mut rest)?;
                assert(rest@.last()@ == objects[7]);
                let v7 = try_take_part::<T7>(&mut rest)?;
                assert(rest@.last()@ == objects[8]);
                let v8 = try_take_part::<T8>(&mut rest)?;
                assert(rest@.last()@ == objects[9]);
                let v9 = try_take_part::<T9>(&mut rest)?;
                assert(rest@.last()@ == objects[10]);
                let v10 = try_take_part::<T10>(&mut rest)?;
                Ok((v0, v1, v2, v3, v4, v5, v6, v7, v8, v9, v10))
            },
            other => Err(ConversionError::mismatch(Kind::Tuple, other.kind())),
        }
    }
}

impl<
    T0,
    T1,
    T2,
    T3,
    T4,
    T5,
    T6,
    T7,
    T8,
    T9,
    T10,
    T11,
> Signature for (T0, T1, T2, T3, T4, T5, T6, T7, T8, T9, T10, T11) {
    open spec fn sig_type_spec() -> Seq<char> {
        "LTuple12;"@
    }

    fn sig_type() -> (s: &'static str) {
        "LTuple12;"
    }
}

impl<
    'env,
    T0: Conversion<'env>,
    T1: Conversion<'env>,
    T2: Conversion<'env>,
    T3: Conversion<'env>,
    T4: Conversion<'env>,
    T5: Conversion<'env>,
    T6: Conversion<'env>,
    T7: Conversion<'env>,
    T8: Conversion<'env>,
    T9: Conversion<'env>,
    T10: Conversion<'env>,
    T11: Conversion<'env>,
> Conversion<'env> for (T0, T1, T2, T3, T4, T5, T6, T7, T8, T9, T10, T11) {
    type Model = (
        T0::Model,
        T1::Model,
        T2::Model,
        T3::Model,
        T4::Model,
        T5::Model,
        T6::Model,
        T7::Model,
        T8::Model,
        T9::Model,
        T10::Model,
        T11::Model,
    );

    open spec fn model(&self) -> Self::Model {
        (
            self.0.model(),
            self.1.model(),
            self.2.model(),
            self.3.model(),
            self.4.model(),
            self.5.model(),
            self.6.model(),
            self.7.model(),
            self.8.model(),
            self.9.model(),
            self.10.model(),
            self.11.model(),
        )
    }

    open spec fn encode(m: Self::Model) -> Result<ObjectModel<'env>, ConversionError> {
        if T0::encode(m.0) is Err {
            Err(T0::encode(m.0)->Err_0)
        } else if T1::encode(m.1) is Err {
            Err(T1::encode(m.1)->Err_0)
        } else if T2::encode(m.2) is Err {
            Err(T2::encode(m.2)->Err_0)
        } else if T3::encode(m.3) is Err {
            Err(T3::encode(m.3)->Err_0)
        } else if T4::encode(m.4) is Err {
            Err(T4::encode(m.4)->Err_0)
        } else if T5::encode(m.5) is Err {
            Err(T5::encode(m.5)->Err_0)
        } else if T6::encode(m.6) is Err {
            Err(T6::encode(m.6)->Err_0)
        } else if T7::encode(m.7) is Err {
            Err(T7::encode(m.7)->Err_0)
        } else if T8::encode(m.8) is Err {
            Err(T8::encode(m.8)->Err_0)
        } else if T9::encode(m.9) is Err {
            Err(T9::encode(m.9)->Err_0)
        } else if T10::encode(m.10) is Err {
            Err(T10::encode(m.10)->Err_0)
        } else if T11::encode(m.11) is Err {
            Err(T11::encode(m.11)->Err_0)
        } else {
            Ok(
                ObjectModel::Tuple(seq![
                    T0::encode(m.0)->Ok_0,
                    T1::encode(m.1)->Ok_0,
                    T2::encode(m.2)->Ok_0,
                    T3::encode(m.3)->Ok_0,
                    T4::encode(m.4)->Ok_0,
                    T5::encode(m.5)->Ok_0,
                    T6::encode(m.6)->Ok_0,
                    T7::encode(m.7)->Ok_0,
                    T8::encode(m.8)->Ok_0,
                    T9::encode(m.9)->Ok_0,
                    T10::encode(m.10)->Ok_0,
                    T11::encode(m.11)->Ok_0,
                ]),
            )
        }
    }

    open spec fn decode(o: ObjectModel<'env>) -> Result<Self::Model, ConversionError> {
        match o {
            ObjectModel::Tuple(items) => if items.len() != 12 {
                Err(ConversionError::InvariantViolation { value: reported_count(items.len()) })
            } else {
                if T0::decode(items[0]) is Err {
                    Err(T0::decode(items[0])->Err_0)
                } else if T1::decode(items[1]) is Err {
                    Err(T1::decode(items[1])->Err_0)
                } else if T2::decode(items[2]) is Err {
                    Err(T2::decode(items[2])->Err_0)
                } else if T3::decode(items[3]) is Err {
                    Err(T3::decode(items[3])->Err_0)
                } else if T4::decode(items[4]) is Err {
                    Err(T4::decode(items[4])->Err_0)
                } else if T5::decode(items[5]) is Err {
                    Err(T5::decode(items[5])->Err_0)
                } else if T6::decode(items[6]) is Err {
                    Err(T6::decode(items[6])->Err_0)
                } else if T7::decode(items[7]) is Err {
                    Err(T7::decode(items[7])->Err_0)
                } else if T8::decode(items[8]) is Err {
                    Err(T8::decode(items[8])->Err_0)
                } else if T9::decode(items[9]) is Err {
                    Err(T9::decode(items[9])->Err_0)
                } else if T10::decode(items[10]) is Err {
                    Err(T10::decode(items[10])->Err_0)
                } else if T11::decode(items[11]) is Err {
                    Err(T11::decode(items[11])->Err_0)
                } else {
                    Ok(
                        (
                            T0::decode(items[0])->Ok_0,
                            T1::decode(items[1])->Ok_0,
                            T2::decode(items[2])->Ok_0,
                            T3::decode(items[3])->Ok_0,
                            T4::decode(items[4])->Ok_0,
                            T5::decode(items[5])->Ok_0,
                            T6::decode(items[6])->Ok_0,
                            T7::decode(items[7])->Ok_0,
                            T8::decode(items[8])->Ok_0,
                            T9::decode(items[9])->Ok_0,
                            T10::decode(items[10])->Ok_0,
                            T11::decode(items[11])->Ok_0,
                        ),
                    )
                }
            },
            _ => Err(ConversionError::TypeMismatch { expected: Kind::Tuple, actual: o.kind() }),
        }
    }

    open spec fn round_trips(m: Self::Model) -> bool {
        T0::round_trips(m.0)
            && T1::round_trips(m.1)
            && T2::round_trips(m.2)
            && T3::round_trips(m.3)
            && T4::round_trips(m.4)
            && T5::round_trips(m.5)
            && T6::round_trips(m.6)
            && T7::round_trips(m.7)
            && T8::round_trips(m.8)
            && T9::round_trips(m.9)
            && T10::round_trips(m.10)
            && T11::round_trips(m.11)
    }

    proof fn lemma_round_trip(m: Self::Model) {
        T0::lemma_round_trip(m.0);
        T1::lemma_round_trip(m.1);
        T2::lemma_round_trip(m.2);
        T3::lemma_round_trip(m.3);
        T4::lemma_round_trip(m.4);
        T5::lemma_round_trip(m.5);
        T6::lemma_round_trip(m.6);
        T7::lemma_round_trip(m.7);
        T8::lemma_round_trip(m.8);
        T9::lemma_round_trip(m.9);
        T10::lemma_round_trip(m.10);
        T11::lemma_round_trip(m.11);
    }

    open spec fn shape_spec() -> Shape {
        let parts = Parts::End;
        let parts = Parts::Part(Box::new(T11::shape_spec()), Box::new(parts));
        let parts = Parts::Part(Box::new(T10::shape_spec()), Box::new(parts));
        let parts = Parts::Part(Box::new(T9::shape_spec()), Box::new(parts));
        let parts = Parts::Part(Box::new(T8::shape_spec()), Box::new(parts));
        let parts = Parts::Part(Box::new(T7::shape_spec()), Box::new(parts));
        let parts = Parts::Part(Box::new(T6::shape_spec()), Box::new(parts));
        let parts = Parts::Part(Box::new(T5::shape_spec()), Box::new(parts));
        let parts = Parts::Part(Box::new(T4::shape_spec()), Box::new(parts));
        let parts = Parts::Part(Box::new(T3::shape_spec()), Box::new(parts));
        let parts = Parts::Part(Box::new(T2::shape_spec()), Box::new(parts));
        let parts = Parts::Part(Box::new(T1::shape_spec()), Box::new(parts));
        let parts = Parts::Part(Box::new(T0::shape_spec()), Box::new(parts));
        Shape::Tuple(Box::new(parts))
    }

    fn shape() -> (s: Shape) {
        let parts = Parts::End;
        let parts = Parts::Part(Box::new(T11::shape()), Box::new(parts));
        let parts = Parts::Part(Box::new(T10::shape()), Box::new(parts));
        let parts = Parts::Part(Box::new(T9::shape()), Box::new(parts));
        let parts = Parts::Part(Box::new(T8::shape()), Box::new(parts));
        let parts = Parts::Part(Box::new(T7::shape()), Box::new(parts));
        let parts = Parts::Part(Box::new(T6::shape()), Box::new(parts));
        let parts = Parts::Part(Box::new(T5::shape()), Box::new(parts));
        let parts = Parts::Part(Box::new(T4::shape()), Box::new(parts));
        let parts = Parts::Part(Box::new(T3::shape()), Box::new(parts));
        let parts = Parts::Part(Box::new(T2::shape()), Box::new(parts));
        let parts = Parts::Part(Box::new(T1::shape()), Box::new(parts));
        let parts = Parts::Part(Box::new(T0::shape()), Box::new(parts));
        Shape::Tuple(Box::new(parts))
    }

    proof fn lemma_encoded_conforms(m: Self::Model) {
        if Self::encode(m) is Ok {
            let items = seq![
                T0::encode(m.0)->Ok_0,
                T1::encode(m.1)->Ok_0,
                T2::encode(m.2)->Ok_0,
                T3::encode(m.3)->Ok_0,
                T4::encode(m.4)->Ok_0,
                T5::encode(m.5)->Ok_0,
                T6::encode(m.6)->Ok_0,
                T7::encode(m.7)->Ok_0,
                T8::encode(m.8)->Ok_0,
                T9::encode(m.9)->Ok_0,
                T10::encode(m.10)->Ok_0,
                T11::encode(m.11)->Ok_0,
            ];
            let tail12 = Parts::End;
            lemma_conform_end(items);
            T11::lemma_encoded_conforms(m.11);
            let tail11 = Parts::Part(Box::new(T11::shape_spec()), Box::new(tail12));
            lemma_conform_part(items, T11::shape_spec(), tail12, 11);
            T10::lemma_encoded_conforms(m.10);
            let tail10 = Parts::Part(Box::new(T10::shape_spec()), Box::new(tail11));
            lemma_conform_part(items, T10::shape_spec(), tail11, 10);
            T9::lemma_encoded_conforms(m.9);
            let tail9 = Parts::Part(Box::new(T9::shape_spec()), Box::new(tail10));
            lemma_conform_part(items, T9::shape_spec(), tail10, 9);
            T8::lemma_encoded_conforms(m.8);
            let tail8 = Parts::Part(Box::new(T8::shape_spec()), Box::new(tail9));
            lemma_conform_part(items, T8::shape_spec(), tail9, 8);
            T7::lemma_encoded_conforms(m.7);
            let tail7 = Parts::Part(Box::new(T7::shape_spec()), Box::new(tail8));
            lemma_conform_part(items, T7::shape_spec(), tail8, 7);
            T6::lemma_encoded_conforms(m.6);
            let tail6 = Parts::Part(Box::new(T6::shape_spec()), Box::new(tail7));
            lemma_conform_part(items, T6::shape_spec(), tail7, 6);
            T5::lemma_encoded_conforms(m.5);
            let tail5 = Parts::Part(Box::new(T5::shape_spec()), Box::new(tail6));
            lemma_conform_part(items, T5::shape_spec(), tail6, 5);
            T4::lemma_encoded_conforms(m.4);
            let tail4 = Parts::Part(Box::new(T4::shape_spec()), Box::new(tail5));
            lemma_conform_part(items, T4::shape_spec(), tail5, 4);
            T3::lemma_encoded_conforms(m.3);
            let tail3 = Parts::Part(Box::new(T3::shape_spec()), Box::new(tail4));
            lemma_conform_part(items, T3::shape_spec(), tail4, 3);
            T2::lemma_encoded_conforms(m.2);
            let tail2 = Parts::Part(Box::new(T2::shape_spec()), Box::new(tail3));
            lemma_conform_part(items, T2::shape_spec(), tail3, 2);
            T1::lemma_encoded_conforms(m.1);
            let tail1 = Parts::Part(Box::new(T1::shape_spec()), Box::new(tail2));
            lemma_conform_part(items, T1::shape_spec(), tail2, 1);
            T0::lemma_encoded_conforms(m.0);
            let tail0 = Parts::Part(Box::new(T0::shape_spec()), Box::new(tail1));
            lemma_conform_part(items, T0::shape_spec(), tail1, 0);
            lemma_conforms_tuple(items, tail0);
        }
    }

    proof fn lemma_conforming_decodes(o: ObjectModel<'env>) {
        let items = o->Tuple_0;
        let tail12 = Parts::End;
        let tail11 = Parts::Part(Box::new(T11::shape_spec()), Box::new(tail12));
        let tail10 = Parts::Part(Box::new(T10::shape_spec()), Box::new(tail11));
        let tail9 = Parts::Part(Box::new(T9::shape_spec()), Box::new(tail10));
        let tail8 = Parts::Part(Box::new(T8::shape_spec()), Box::new(tail9));
        let tail7 = Parts::Part(Box::new(T7::shape_spec()), Box::new(tail8));
        let tail6 = Parts::Part(Box::new(T6::shape_spec()), Box::new(tail7));
        let tail5 = Parts::Part(Box::new(T5::shape_spec()), Box::new(tail6));
        let tail4 = Parts::Part(Box::new(T4::shape_spec()), Box::new(tail5));
        let tail3 = Parts::Part(Box::new(T3::shape_spec()), Box::new(tail4));
        let tail2 = Parts::Part(Box::new(T2::shape_spec()), Box::new(tail3));
        let tail1 = Parts::Part(Box::new(T1::shape_spec()), Box::new(tail2));
        let tail0 = Parts::Part(Box::new(T0::shape_spec()), Box::new(tail1));
        lemma_tuple_parts(items, tail0);
        lemma_conform_split(items, T0::shape_spec(), tail1, 0);
        T0::lemma_conforming_decodes(items[0]);
        lemma_conform_split(items, T1::shape_spec(), tail2, 1);
        T1::lemma_conforming_decodes(items[1]);
        lemma_conform_split(items, T2::shape_spec(), tail3, 2);
        T2::lemma_conforming_decodes(items[2]);
        lemma_conform_split(items, T3::shape_spec(), tail4, 3);
        T3::lemma_conforming_decodes(items[3]);
        lemma_conform_split(items, T4::shape_spec(), tail5, 4);
        T4::lemma_conforming_decodes(items[4]);
        lemma_conform_split(items, T5::shape_spec(), tail6, 5);
        T5::lemma_conforming_decodes(items[5]);
        lemma_conform_split(items, T6::shape_spec(), tail7, 6);
        T6::lemma_conforming_decodes(items[6]);
        lemma_conform_split(items, T7::shape_spec(), tail8, 7);
        T7::lemma_conforming_decodes(items[7]);
        lemma_conform_split(items, T8::shape_spec(), tail9, 8);
        T8::lemma_conforming_decodes(items[8]);
        lemma_conform_split(items, T9::shape_spec(), tail10, 9);
        T9::lemma_conforming_decodes(items[9]);
        lemma_conform_split(items, T10::shape_spec(), tail11, 10);
        T10::lemma_conforming_decodes(items[10]);
        lemma_conform_split(items, T11::shape_spec(), tail12, 11);
        T11::lemma_conforming_decodes(items[11]);
        lemma_conform_done(items, 12);
    }
}

impl<
    'env,
    T0: IntoJavaValue<'env>,
    T1: IntoJavaValue<'env>,
    T2: IntoJavaValue<'env>,
    T3: IntoJavaValue<'env>,
    T4: IntoJavaValue<'env>,
    T5: IntoJavaValue<'env>,
    T6: IntoJavaValue<'env>,
    T7: IntoJavaValue<'env>,
    T8: IntoJavaValue<'env>,
    T9: IntoJavaValue<'env>,
    T10: IntoJavaValue<'env>,
    T11: IntoJavaValue<'env>,
> IntoJavaValue<'env> for (T0, T1, T2, T3, T4, T5, T6, T7, T8, T9, T10, T11) {
    type Target = JavaObject<'env>;

    fn into(self) -> (t: JavaObject<'env>) {
        let ghost parts = seq![
            T0::encode(self.0.model())->Ok_0,
            T1::encode(self.1.model())->Ok_0,
            T2::encode(self.2.model())->Ok_0,
            T3::encode(self.3.model())->Ok_0,
            T4::encode(self.4.model())->Ok_0,
            T5::encode(self.5.model())->Ok_0,
            T6::encode(self.6.model())->Ok_0,
            T7::encode(self.7.model())->Ok_0,
            T8::encode(self.8.model())->Ok_0,
            T9::encode(self.9.model())->Ok_0,
            T10::encode(self.10.model())->Ok_0,
            T11::encode(self.11.model())->Ok_0,
        ];
        let (a0, a1, a2, a3, a4, a5, a6, a7, a8, a9, a10, a11) = self;
        let mut items: Vec<JavaObject<'env>> = Vec::new();
        put_part(&mut items, a0);
        put_part(&mut items, a1);
        put_part(&mut items, a2);
        put_part(&mut items, a3);
        put_part(&mut items, a4);
        put_part(&mut items, a5);
        put_part(&mut items, a6);
        put_part(&mut items, a7);
        put_part(&mut items, a8);
        put_part(&mut items, a9);
        put_part(&mut items, a10);
        put_part(&mut items, a11);
        proof {
            lemma_tuple_model(items);
            assert(models_of(items@) =~= parts);
        }
        JavaObject::Tuple(items)
    }
}

impl<
    'env,
    T0: FromJavaValue<'env>,
    T1: FromJavaValue<'env>,
    T2: FromJavaValue<'env>,
    T3: FromJavaValue<'env>,
    T4: FromJavaValue<'env>,
    T5: FromJavaValue<'env>,
    T6: FromJavaValue<'env>,
    T7: FromJavaValue<'env>,
    T8: FromJavaValue<'env>,
    T9: FromJavaValue<'env>,
    T10: FromJavaValue<'env>,
    T11: FromJavaValue<'env>,
> FromJavaValue<'env> for (T0, T1, T2, T3, T4, T5, T6, T7, T8, T9, T10, T11) {
    type Source = JavaObject<'env>;

    proof fn lemma_decode_unboxes(o: ObjectModel<'env>) {
    }

    fn from(s: JavaObject<'env>) -> (v: Self) {
        match s {
            JavaObject::Tuple(items) => {
                let ghost objects = models_of(items@);
                proof {
                    lemma_tuple_model(items);
                }
                let mut rest = reversed(items);
                assert(rest@.last()@ == objects[0]);
                let v0 = take_part::<T0>(&mut rest);
                assert(rest@.last()@ == objects[1]);
                let v1 = take_part::<T1>(&mut rest);
                assert(rest@.last()@ == objects[2]);
                let v2 = take_part::<T2>(&mut rest);
                assert(rest@.last()@ == objects[3]);
                let v3 = take_part::<T3>(&mut rest);
                assert(rest@.last()@ == objects[4]);
                let v4 = take_part::<T4>(&mut rest);
                assert(rest@.last()@ == objects[5]);
                let v5 = take_part::<T5>(&mut rest);
                assert(rest@.last()@ == objects[6]);
                let v6 = take_part::<T6>(&mut rest);
                assert(rest@.last()@ == objects[7]);
                let v7 = take_part::<T7>(&mut rest);
                assert(rest@.last()@ == objects[8]);
                let v8 = take_part::<T8>(&mut rest);
                assert(rest@.last()@ == objects[9]);
                let v9 = take_part::<T9>(&mut rest);
                assert(rest@.last()@ == objects[10]);
                let v10 = take_part::<T10>(&mut rest);
                assert(rest@.last()@ == objects[11]);
                let v11 = take_part::<T11>(&mut rest);
                (v0, v1, v2, v3, v4, v5, v6, v7, v8, v9, v10, v11)
            },
            _ => unreached(),
        }
    }
}

impl<
    'env,
    T0: TryIntoJavaValue<'env>,
    T1: TryIntoJavaValue<'env>,
    T2: TryIntoJavaValue<'env>,
    T3: TryIntoJavaValue<'env>,
    T4: TryIntoJavaValue<'env>,
    T5: TryIntoJavaValue<'env>,
    T6: TryIntoJavaValue<'env>,
    T7: TryIntoJavaValue<'env>,
    T8: TryIntoJavaValue<'env>,
    T9: TryIntoJavaValue<'env>,
    T10: TryIntoJavaValue<'env>,
    T11: TryIntoJavaValue<'env>,
> TryIntoJavaValue<'env> for (T0, T1, T2, T3, T4, T5, T6, T7, T8, T9, T10, T11) {
    type Target = JavaObject<'env>;

    fn try_into(self) -> (r: Result<JavaObject<'env>, ConversionError>) {
        let ghost parts = seq![
            T0::encode(self.0.model())->Ok_0,
            T1::encode(self.1.model())->Ok_0,
            T2::encode(self.2.model())->Ok_0,
            T3::encode(self.3.model())->Ok_0,
            T4::encode(self.4.model())->Ok_0,
            T5::encode(self.5.model())->Ok_0,
            T6::encode(self.6.model())->Ok_0,
            T7::encode(self.7.model())->Ok_0,
            T8::encode(self.8.model())->Ok_0,
            T9::encode(self.9.model())->Ok_0,
            T10::encode(self.10.model())->Ok_0,
            T11::encode(self.11.model())->Ok_0,
        ];
        let (a0, a1, a2, a3, a4, a5, a6, a7, a8, a9, a10, a11) = self;
        let mut items: Vec<JavaObject<'env>> = Vec::new();
        try_put_part(&mut items, a0)?;
        try_put_part(&mut items, a1)?;
        try_put_part(&mut items, a2)?;
        try_put_part(&mut items, a3)?;
        try_put_part(&mut items, a4)?;
        try_put_part(&mut items, a5)?;
        try_put_part(&mut items, a6)?;
        try_put_part(&mut items, a7)?;
        try_put_part(&mut items, a8)?;
        try_put_part(&mut items, a9)?;
        try_put_part(&mut items, a10)?;
        try_put_part(&mut items, a11)?;
        proof {
            lemma_tuple_model(items);
            assert(models_of(items@) =~= parts);
        }
        Ok(JavaObject::Tuple(items))
    }
}

impl<
    'env,
    T0: TryFromJavaValue<'env>,
    T1: TryFromJavaValue<'env>,
    T2: TryFromJavaValue<'env>,
    T3: TryFromJavaValue<'env>,
    T4: TryFromJavaValue<'env>,
    T5: TryFromJavaValue<'env>,
    T6: TryFromJavaValue<'env>,
    T7: TryFromJavaValue<'env>,
    T8: TryFromJavaValue<'env>,
    T9: TryFromJavaValue<'env>,
    T10: TryFromJavaValue<'env>,
    T11: TryFromJavaValue<'env>,
> TryFromJavaValue<'env> for (T0, T1, T2, T3, T4, T5, T6, T7, T8, T9, T10, T11) {
    type Source = JavaObject<'env>;

    proof fn lemma_decode_unboxes(o: ObjectModel<'env>) {
    }

    fn try_from(s: JavaObject<'env>) -> (r: Result<Self, ConversionError>) {
        match s {
            JavaObject::Tuple(items) => {
                let ghost objects = models_of(items@);
                proof {
                    lemma_tuple_model(items);
                }
                if items.len() != 12 {
                    return Err(
                        ConversionError::InvariantViolation { value: report_count(items.len()) },
                    );
                }
                let mut rest = reversed(items);
                assert(rest@.last()@ == objects[0]);
                let v0 = try_take_part::<T0>(&mut rest)?;
                assert(rest@.last()@ == objects[1]);
                let v1 = try_take_part::<T1>(&mut rest)?;
                assert(rest@.last()@ == objects[2]);
                let v2 = try_take_part::<T2>(&mut rest)?;
                assert(rest@.last()@ == objects[3]);
                let v3 = try_take_part::<T3>(&mut rest)?;
                assert(rest@.last()@ == objects[4]);
                let v4 = try_take_part::<T4>(&mut rest)?;
                assert(rest@.last()@ == objects[5]);
                let v5 = try_take_part::<T5>(&mut rest)?;
                assert(rest@.last()@ == objects[6]);
                let v6 = try_take_part::<T6>(&mut rest)?;
                assert(rest@.last()@ == objects[7]);
                let v7 = try_take_part::<T7>(&mut rest)?;
                assert(rest@.last()@ == objects[8]);
                let v8 = try_take_part::<T8>(&mut rest)?;
                assert(rest@.last()@ == objects[9]);
                let v9 = try_take_part::<T9>(&mut rest)?;
                assert(rest@.last()@ == objects[10]);
                let v10 = try_take_part::<T10>(&mut rest)?;
                assert(rest@.last()@ == objects[11]);
                let v11 = try_take_part::<T11>(&mut rest)?;
                Ok((v0, v1, v2, v3, v4, v5, v6, v7, v8, v9, v10, v11))
            },
            other => Err(ConversionError::mismatch(Kind::Tuple, other.kind())),
        }
    }
}

} // verus!
