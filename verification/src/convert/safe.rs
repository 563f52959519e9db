//! Fallible conversion traits.
//!
//! Every conversion returns its outcome as a value. In a composite the first
//! part that fails decides the report, and nothing is kept of the parts
//! before it.

use vstd::prelude::*;
use crate::convert::conversion::{
    bools_of, decoder, encoder, jboolean_of, jbooleans_of, lemma_try_map_first_failure,
    lemma_try_map_step, models_each, outcome_model, try_map, Conversion,
};
use crate::convert::{JavaValue, Signature};
use crate::error::{ConversionError, Kind};
use crate::object::{lemma_list_model, models_of, reversed, JavaObject, ObjectModel};
use crate::value::{JDouble, JFloat};

verus! {

/// The outcome of a fallible conversion to Java, with the converted value
/// taken by the object that holds it once boxed.
pub open spec fn boxed_outcome<'env, V: JavaValue<'env>>(r: Result<V, ConversionError>) -> Result<
    ObjectModel<'env>,
    ConversionError,
> {
    match r {
        Ok(t) => Ok(t.boxed_spec()),
        Err(e) => Err(e),
    }
}

/// Fallible conversion from a native value to a Java value, analogous to
/// [`TryInto`].
pub trait TryIntoJavaValue<'env>: Conversion<'env> + Signature {
    /// The type the value has on the Java side.
    type Target: JavaValue<'env>;

    /// Performs the conversion.
    fn try_into(self) -> (r: Result<Self::Target, ConversionError>)
        ensures
            boxed_outcome(r) == Self::encode(self.model()),
    ;
}

/// Fallible conversion from a Java value to a native value, analogous to
/// [`TryFrom`].
pub trait TryFromJavaValue<'env>: Conversion<'env> + Signature {
    /// The type the value has on the Java side.
    type Source: JavaValue<'env>;

    /// An object that cannot be unboxed to the source type stands for no value.
    proof fn lemma_decode_unboxes(o: ObjectModel<'env>)
        ensures
            !Self::Source::unboxes(o) ==> Self::decode(o) == Err::<Self::Model, ConversionError>(
                Self::Source::unbox_error(o),
            ),
    ;

    /// Performs the conversion.
    fn try_from(s: Self::Source) -> (r: Result<Self, ConversionError>)
        ensures
            outcome_model(r) == Self::decode(s.boxed_spec()),
    ;
}

/// `char::from_u32`: the character with the given code point. There is one
/// for every code point up to `0x10FFFF` that is no surrogate, and none for
/// any other number.
#[verifier::external_body]
pub(crate) fn char_of_code(code: u32) -> (c: Option<char>)
    ensures
        c == if code <= 0xD7FF || (0xE000 <= code && code <= 0x10FFFF) {
            Some(code as char)
        } else {
            None::<char>
        },
{
    char::from_u32(code)
}

/// `Vec::into_boxed_slice`: the same elements in the same order, as a boxed
/// slice.
#[verifier::external_body]
pub(crate) fn boxed_slice(bits: Vec<bool>) -> (b: Box<[bool]>)
    ensures
        b@ == bits@,
{
    bits.into_boxed_slice()
}

impl<'env> TryIntoJavaValue<'env> for u8 {
    type Target = u8;

    fn try_into(self) -> (r: Result<u8, ConversionError>) {
        Ok(self)
    }
}

impl<'env> TryFromJavaValue<'env> for u8 {
    type Source = u8;

    proof fn lemma_decode_unboxes(o: ObjectModel<'env>) {
    }

    fn try_from(s: u8) -> (r: Result<u8, ConversionError>) {
        Ok(s)
    }
}

impl<'env> TryIntoJavaValue<'env> for i8 {
    type Target = i8;

    fn try_into(self) -> (r: Result<i8, ConversionError>) {
        Ok(self)
    }
}

impl<'env> TryFromJavaValue<'env> for i8 {
    type Source = i8;

    proof fn lemma_decode_unboxes(o: ObjectModel<'env>) {
    }

    fn try_from(s: i8) -> (r: Result<i8, ConversionError>) {
        Ok(s)
    }
}

impl<'env> TryIntoJavaValue<'env> for u16 {
    type Target = u16;

    fn try_into(self) -> (r: Result<u16, ConversionError>) {
        Ok(self)
    }
}

impl<'env> TryFromJavaValue<'env> for u16 {
    type Source = u16;

    proof fn lemma_decode_unboxes(o: ObjectModel<'env>) {
    }

    fn try_from(s: u16) -> (r: Result<u16, ConversionError>) {
        Ok(s)
    }
}

impl<'env> TryIntoJavaValue<'env> for JDouble {
    type Target = JDouble;

    fn try_into(self) -> (r: Result<JDouble, ConversionError>) {
        Ok(self)
    }
}

impl<'env> TryFromJavaValue<'env> for JDouble {
    type Source = JDouble;

    proof fn lemma_decode_unboxes(o: ObjectModel<'env>) {
    }

    fn try_from(s: JDouble) -> (r: Result<JDouble, ConversionError>) {
        Ok(s)
    }
}

impl<'env> TryIntoJavaValue<'env> for JFloat {
    type Target = JFloat;

    fn try_into(self) -> (r: Result<JFloat, ConversionError>) {
        Ok(self)
    }
}

impl<'env> TryFromJavaValue<'env> for JFloat {
    type Source = JFloat;

    proof fn lemma_decode_unboxes(o: ObjectModel<'env>) {
    }

    fn try_from(s: JFloat) -> (r: Result<JFloat, ConversionError>) {
        Ok(s)
    }
}

impl<'env> TryIntoJavaValue<'env> for i32 {
    type Target = i32;

    fn try_into(self) -> (r: Result<i32, ConversionError>) {
        Ok(self)
    }
}

impl<'env> TryFromJavaValue<'env> for i32 {
    type Source = i32;

    proof fn lemma_decode_unboxes(o: ObjectModel<'env>) {
    }

    fn try_from(s: i32) -> (r: Result<i32, ConversionError>) {
        Ok(s)
    }
}

impl<'env> TryIntoJavaValue<'env> for i64 {
    type Target = i64;

    fn try_into(self) -> (r: Result<i64, ConversionError>) {
        Ok(self)
    }
}

impl<'env> TryFromJavaValue<'env> for i64 {
    type Source = i64;

    proof fn lemma_decode_unboxes(o: ObjectModel<'env>) {
    }

    fn try_from(s: i64) -> (r: Result<i64, ConversionError>) {
        Ok(s)
    }
}

impl<'env> TryIntoJavaValue<'env> for i16 {
    type Target = i16;

    fn try_into(self) -> (r: Result<i16, ConversionError>) {
        Ok(self)
    }
}

impl<'env> TryFromJavaValue<'env> for i16 {
    type Source = i16;

    proof fn lemma_decode_unboxes(o: ObjectModel<'env>) {
    }

    fn try_from(s: i16) -> (r: Result<i16, ConversionError>) {
        Ok(s)
    }
}

impl<'env> TryIntoJavaValue<'env> for JavaObject<'env> {
    type Target = JavaObject<'env>;

    fn try_into(self) -> (r: Result<JavaObject<'env>, ConversionError>) {
        Ok(self)
    }
}

impl<'env> TryFromJavaValue<'env> for JavaObject<'env> {
    type Source = JavaObject<'env>;

    proof fn lemma_decode_unboxes(o: ObjectModel<'env>) {
    }

    fn try_from(s: JavaObject<'env>) -> (r: Result<JavaObject<'env>, ConversionError>) {
        Ok(s)
    }
}

impl<'env> TryIntoJavaValue<'env> for String {
    type Target = JavaObject<'env>;

    fn try_into(self) -> (r: Result<JavaObject<'env>, ConversionError>) {
        Ok(JavaObject::Text(self))
    }
}

impl<'env> TryFromJavaValue<'env> for String {
    type Source = JavaObject<'env>;

    proof fn lemma_decode_unboxes(o: ObjectModel<'env>) {
    }

    fn try_from(s: JavaObject<'env>) -> (r: Result<String, ConversionError>) {
        match s {
            JavaObject::Text(text) => Ok(text),
            other => Err(ConversionError::mismatch(Kind::Text, other.kind())),
        }
    }
}

impl<'env> TryIntoJavaValue<'env> for bool {
    type Target = u8;

    fn try_into(self) -> (r: Result<u8, ConversionError>) {
        if self {
            Ok(1)
        } else {
            Ok(0)
        }
    }
}

impl<'env> TryFromJavaValue<'env> for bool {
    type Source = u8;

    proof fn lemma_decode_unboxes(o: ObjectModel<'env>) {
    }

    fn try_from(s: u8) -> (r: Result<bool, ConversionError>) {
        Ok(s == 1)
    }
}

impl<'env> TryIntoJavaValue<'env> for char {
    type Target = u16;

    fn try_into(self) -> (r: Result<u16, ConversionError>) {
        let code: u32 = self as u32;
        Ok((code % 0x1_0000) as u16)
    }
}

impl<'env> TryFromJavaValue<'env> for char {
    type Source = u16;

    proof fn lemma_decode_unboxes(o: ObjectModel<'env>) {
    }

    fn try_from(s: u16) -> (r: Result<char, ConversionError>) {
        match char_of_code(s as u32) {
            Some(c) => Ok(c),
            None => Err(ConversionError::InvariantViolation { value: s as i32 }),
        }
    }
}

impl<'env> TryIntoJavaValue<'env> for Box<[bool]> {
    type Target = JavaObject<'env>;

    fn try_into(self) -> (r: Result<JavaObject<'env>, ConversionError>) {
        let mut units: Vec<u8> = Vec::new();
        let mut i: usize = 0;
        while i < self.len()
            invariant
                i <= self@.len(),
                units@.len() == i,
                forall|j: int| 0 <= j < i ==> units@[j] == jboolean_of(self@[j]),
            decreases self@.len() - i,
        {
            let unit: u8 = if self[i] {
                1
            } else {
                0
            };
            units.push(unit);
            i += 1;
        }
        assert(units@ =~= jbooleans_of(self@));
        Ok(JavaObject::BooleanArray(units))
    }
}

impl<'env> TryFromJavaValue<'env> for Box<[bool]> {
    type Source = JavaObject<'env>;

    proof fn lemma_decode_unboxes(o: ObjectModel<'env>) {
    }

    fn try_from(s: JavaObject<'env>) -> (r: Result<Box<[bool]>, ConversionError>) {
        match s {
            JavaObject::BooleanArray(units) => {
                let mut bits: Vec<bool> = Vec::new();
                let mut i: usize = 0;
                while i < units.len()
                    invariant
                        i <= units@.len(),
                        bits@.len() == i,
                        forall|j: int| 0 <= j < i ==> bits@[j] == (units@[j] == 1),
                    decreases units@.len() - i,
                {
                    bits.push(units[i] == 1);
                    i += 1;
                }
                let v = boxed_slice(bits);
                assert(v@ =~= bools_of(units@));
                Ok(v)
            },
            other => Err(ConversionError::mismatch(Kind::BooleanArray, other.kind())),
        }
    }
}

impl<'env, T: TryIntoJavaValue<'env>> TryIntoJavaValue<'env> for Vec<T> {
    type Target = JavaObject<'env>;

    fn try_into(self) -> (r: Result<JavaObject<'env>, ConversionError>) {
        let ghost values = self@;
        let ghost m = self.model();
        let n = self.len();
        let mut rest = reversed(self);
        let mut items: Vec<JavaObject<'env>> = Vec::new();
        assert(m.take(0) =~= Seq::<T::Model>::empty());
        assert(models_of(items@) =~= Seq::<ObjectModel<'env>>::empty());
        while rest.len() > 0
            invariant
                values.len() == n,
                m == self.model(),
                m == models_each::<T>(values),
                rest@.len() + items@.len() == n,
                forall|j: int| 0 <= j < rest@.len() ==> rest@[j] == values[n - 1 - j],
                try_map(m.take(items@.len() as int), encoder::<T>()) == Ok::<
                    Seq<ObjectModel<'env>>,
                    ConversionError,
                >(models_of(items@)),
            decreases rest@.len(),
        {
            let ghost at = items@.len() as int;
            let ghost before = models_of(items@);
            match rest.pop() {
                Some(value) => {
                    assert(value == values[at]);
                    assert(value.model() == m[at]);
                    match <T as TryIntoJavaValue<'env>>::try_into(value) {
                        Ok(target) => {
                            let item = target.autobox();
                            items.push(item);
                            proof {
                                lemma_try_map_step(m, encoder::<T>(), at);
                                assert(models_of(items@) =~= before.push(item@));
                            }
                        },
                        Err(e) => {
                            proof {
                                lemma_try_map_first_failure(m, encoder::<T>(), at);
                            }
                            return Err(e);
                        },
                    }
                },
                None => {},
            }
        }
        proof {
            assert(m.take(n as int) =~= m);
            lemma_list_model(items);
        }
        Ok(JavaObject::List(items))
    }
}

impl<'env, T: TryFromJavaValue<'env>> TryFromJavaValue<'env> for Vec<T> {
    type Source = JavaObject<'env>;

    proof fn lemma_decode_unboxes(o: ObjectModel<'env>) {
    }

    fn try_from(s: JavaObject<'env>) -> (r: Result<Vec<T>, ConversionError>) {
        match s {
            JavaObject::List(items) => {
                let ghost objects = models_of(items@);
                let ghost originals = items@;
                let n = items.len();
                proof {
                    lemma_list_model(items);
                }
                let mut rest = reversed(items);
                let mut out: Vec<T> = Vec::new();
                assert(objects.take(0) =~= Seq::<ObjectModel<'env>>::empty());
                assert(models_each::<T>(out@) =~= Seq::<T::Model>::empty());
                while rest.len() > 0
                    invariant
                        originals.len() == n,
                        s@ == ObjectModel::List(objects),
                        objects == models_of(originals),
                        rest@.len() + out@.len() == n,
                        forall|j: int| 0 <= j < rest@.len() ==> rest@[j] == originals[n - 1 - j],
                        try_map(objects.take(out@.len() as int), decoder::<T>()) == Ok::<
                            Seq<T::Model>,
                            ConversionError,
                        >(models_each::<T>(out@)),
                    decreases rest@.len(),
                {
                    let ghost at = out@.len() as int;
                    let ghost before = models_each::<T>(out@);
                    match rest.pop() {
                        Some(item) => {
                            assert(item == originals[at]);
                            assert(item@ == objects[at]);
                            proof {
                                T::lemma_decode_unboxes(item@);
                            }
                            match T::Source::unbox(item) {
                                Ok(source) => match <T as TryFromJavaValue<'env>>::try_from(source) {
                                    Ok(value) => {
                                        out.push(value);
                                        proof {
                                            lemma_try_map_step(objects, decoder::<T>(), at);
                                            assert(models_each::<T>(out@) =~= before.push(
                                                value.model(),
                                            ));
                                        }
                                    },
                                    Err(e) => {
                                        proof {
                                            lemma_try_map_first_failure(
                                                objects,
                                                decoder::<T>(),
                                                at,
                                            );
                                        }
                                        return Err(e);
                                    },
                                },
                                Err(e) => {
                                    proof {
                                        lemma_try_map_first_failure(objects, decoder::<T>(), at);
                                    }
                                    return Err(e);
                                },
                            }
                        },
                        None => {},
                    }
                }
                proof {
                    assert(objects.take(n as int) =~= objects);
                }
                Ok(out)
            },
            other => Err(ConversionError::mismatch(Kind::List, other.kind())),
        }
    }
}

impl<'env, T: TryIntoJavaValue<'env>> TryIntoJavaValue<'env> for Option<T> {
    type Target = JavaObject<'env>;

    fn try_into(self) -> (r: Result<JavaObject<'env>, ConversionError>) {
        match self {
            None => Ok(JavaObject::Null),
            Some(v) => match <T as TryIntoJavaValue<'env>>::try_into(v) {
                Ok(target) => Ok(target.autobox()),
                Err(e) => Err(e),
            },
        }
    }
}

impl<'env, T: TryFromJavaValue<'env>> TryFromJavaValue<'env> for Option<T> {
    type Source = JavaObject<'env>;

    proof fn lemma_decode_unboxes(o: ObjectModel<'env>) {
    }

    fn try_from(s: JavaObject<'env>) -> (r: Result<Option<T>, ConversionError>) {
        if s.is_null() {
            Ok(None)
        } else {
            proof {
                T::lemma_decode_unboxes(s@);
            }
            match T::Source::unbox(s) {
                Ok(source) => match <T as TryFromJavaValue<'env>>::try_from(source) {
                    Ok(v) => Ok(Some(v)),
                    Err(e) => Err(e),
                },
                Err(e) => Err(e),
            }
        }
    }
}

} // verus!
