//! Infallible conversion traits.
//!
//! A caller states, by the `requires` of each function, that the value is one
//! the conversion is defined on; in exchange no failure has to be handled.

use vstd::prelude::*;
use vstd::pervasive::unreached;
use crate::convert::conversion::{
    bools_of, decoder, encoder, jboolean_of, jbooleans_of, lemma_try_map_all, lemma_try_map_ok,
    models_each, try_map, Conversion,
};
use crate::convert::safe::{boxed_slice, char_of_code};
use crate::convert::{JavaValue, Signature};
use crate::error::ConversionError;
use crate::object::{lemma_list_model, models_of, reversed, JavaObject, ObjectModel};
use crate::value::{JDouble, JFloat};

verus! {

/// Conversion from a native value to a Java value, analogous to [`Into`].
///
/// The conversion is owed success: it is called only on a value that can be
/// encoded.
pub trait IntoJavaValue<'env>: Conversion<'env> + Signature {
    /// The type the value has on the Java side.
    type Target: JavaValue<'env>;

    /// Performs the conversion.
    fn into(self) -> (t: Self::Target)
        requires
            Self::encode(self.model()) is Ok,
        ensures
            Self::encode(self.model()) == Ok::<ObjectModel<'env>, ConversionError>(t.boxed_spec()),
    ;
}

/// Conversion from a Java value to a native value, analogous to [`From`].
///
/// The conversion is owed success: it is called only on a value that stands
/// for one of the native type.
pub trait FromJavaValue<'env>: Conversion<'env> + Signature {
    /// The type the value has on the Java side.
    type Source: JavaValue<'env>;

    /// An object that cannot be unboxed to the source type stands for no value.
    proof fn lemma_decode_unboxes(o: ObjectModel<'env>)
        ensures
            !Self::Source::unboxes(o) ==> Self::decode(o) == Err::<Self::Model, ConversionError>(
                Self::Source::unbox_error(o),
            ),
    ;

    /// Performs the conversion.
    fn from(s: Self::Source) -> (v: Self)
        requires
            Self::decode(s.boxed_spec()) is Ok,
        ensures
            Self::decode(s.boxed_spec()) == Ok::<Self::Model, ConversionError>(v.model()),
    ;
}

impl<'env> IntoJavaValue<'env> for u8 {
    type Target = u8;

    fn into(self) -> (t: u8) {
        self
    }
}

impl<'env> FromJavaValue<'env> for u8 {
    type Source = u8;

    proof fn lemma_decode_unboxes(o: ObjectModel<'env>) {
    }

    fn from(s: u8) -> (v: u8) {
        s
    }
}

impl<'env> IntoJavaValue<'env> for i8 {
    type Target = i8;

    fn into(self) -> (t: i8) {
        self
    }
}

impl<'env> FromJavaValue<'env> for i8 {
    type Source = i8;

    proof fn lemma_decode_unboxes(o: ObjectModel<'env>) {
    }

    fn from(s: i8) -> (v: i8) {
        s
    }
}

impl<'env> IntoJavaValue<'env> for u16 {
    type Target = u16;

    fn into(self) -> (t: u16) {
        self
    }
}

impl<'env> FromJavaValue<'env> for u16 {
    type Source = u16;

    proof fn lemma_decode_unboxes(o: ObjectModel<'env>) {
    }

    fn from(s: u16) -> (v: u16) {
        s
    }
}

impl<'env> IntoJavaValue<'env> for JDouble {
    type Target = JDouble;

    fn into(self) -> (t: JDouble) {
        self
    }
}

impl<'env> FromJavaValue<'env> for JDouble {
    type Source = JDouble;

    proof fn lemma_decode_unboxes(o: ObjectModel<'env>) {
    }

    fn from(s: JDouble) -> (v: JDouble) {
        s
    }
}

impl<'env> IntoJavaValue<'env> for JFloat {
    type Target = JFloat;

    fn into(self) -> (t: JFloat) {
        self
    }
}

impl<'env> FromJavaValue<'env> for JFloat {
    type Source = JFloat;

    proof fn lemma_decode_unboxes(o: ObjectModel<'env>) {
    }

    fn from(s: JFloat) -> (v: JFloat) {
        s
    }
}

impl<'env> IntoJavaValue<'env> for i32 {
    type Target = i32;

    fn into(self) -> (t: i32) {
        self
    }
}

impl<'env> FromJavaValue<'env> for i32 {
    type Source = i32;

    proof fn lemma_decode_unboxes(o: ObjectModel<'env>) {
    }

    fn from(s: i32) -> (v: i32) {
        s
    }
}

impl<'env> IntoJavaValue<'env> for i64 {
    type Target = i64;

    fn into(self) -> (t: i64) {
        self
    }
}

impl<'env> FromJavaValue<'env> for i64 {
    type Source = i64;

    proof fn lemma_decode_unboxes(o: ObjectModel<'env>) {
    }

    fn from(s: i64) -> (v: i64) {
        s
    }
}

impl<'env> IntoJavaValue<'env> for i16 {
    type Target = i16;

    fn into(self) -> (t: i16) {
        self
    }
}

impl<'env> FromJavaValue<'env> for i16 {
    type Source = i16;

    proof fn lemma_decode_unboxes(o: ObjectModel<'env>) {
    }

    fn from(s: i16) -> (v: i16) {
        s
    }
}

impl<'env> IntoJavaValue<'env> for JavaObject<'env> {
    type Target = JavaObject<'env>;

    fn into(self) -> (t: JavaObject<'env>) {
        self
    }
}

impl<'env> FromJavaValue<'env> for JavaObject<'env> {
    type Source = JavaObject<'env>;

    proof fn lemma_decode_unboxes(o: ObjectModel<'env>) {
    }

    fn from(s: JavaObject<'env>) -> (v: JavaObject<'env>) {
        s
    }
}

impl<'env> IntoJavaValue<'env> for String {
    type Target = JavaObject<'env>;

    fn into(self) -> (t: JavaObject<'env>) {
        JavaObject::Text(self)
    }
}

impl<'env> FromJavaValue<'env> for String {
    type Source = JavaObject<'env>;

    proof fn lemma_decode_unboxes(o: ObjectModel<'env>) {
    }

    fn from(s: JavaObject<'env>) -> (v: String) {
        match s {
            JavaObject::Text(text) => text,
            _ => unreached(),
        }
    }
}

impl<'env> IntoJavaValue<'env> for bool {
    type Target = u8;

    fn into(self) -> (t: u8) {
        if self {
            1
        } else {
            0
        }
    }
}

impl<'env> FromJavaValue<'env> for bool {
    type Source = u8;

    proof fn lemma_decode_unboxes(o: ObjectModel<'env>) {
    }

    fn from(s: u8) -> (v: bool) {
        s == 1
    }
}

impl<'env> IntoJavaValue<'env> for char {
    type Target = u16;

    fn into(self) -> (t: u16) {
        let code: u32 = self as u32;
        (code % 0x1_0000) as u16
    }
}

impl<'env> FromJavaValue<'env> for char {
    type Source = u16;

    proof fn lemma_decode_unboxes(o: ObjectModel<'env>) {
    }

    fn from(s: u16) -> (v: char) {
        match char_of_code(s as u32) {
            Some(c) => c,
            None => unreached(),
        }
    }
}

impl<'env> IntoJavaValue<'env> for Box<[bool]> {
    type Target = JavaObject<'env>;

    fn into(self) -> (t: JavaObject<'env>) {
        let mut units: Vec<u8> = Vec::new();
        let mut i: usize = 0;
        while i < self.len()
            invariant
                i <= self@.len(),
                units@.len() == i,
                forall|j: int| 0 <= j < i ==> units@[j] == jboolean_of(self@[j]),
            decreases self@.len() - i,
        {
            let unit: u8 = <bool as IntoJavaValue<'env>>::into(self[i]);
            units.push(unit);
            i += 1;
        }
        assert(units@ =~= jbooleans_of(self@));
        JavaObject::BooleanArray(units)
    }
}

impl<'env> FromJavaValue<'env> for Box<[bool]> {
    type Source = JavaObject<'env>;

    proof fn lemma_decode_unboxes(o: ObjectModel<'env>) {
    }

    fn from(s: JavaObject<'env>) -> (v: Box<[bool]>) {
        match s {
            JavaObject::BooleanArray(units) => {
                let mut bits: Vec<bool> = Vec::new();
                let mut i: usize = 0;
                while i < units.len()
                    invariant
                        i <= units@.len(),
                        bits@.len() == i,
                        forall|j: int| 0 <= j < i ==> bits@[j] == (units@[j] == 1),
                    decreases units@.len() - i,
                {
                    let bit: bool = <bool as FromJavaValue<'env>>::from(units[i]);
                    bits.push(bit);
                    i += 1;
                }
                let v = boxed_slice(bits);
                assert(v@ =~= bools_of(units@));
                v
            },
            _ => unreached(),
        }
    }
}

impl<'env, T: IntoJavaValue<'env>> IntoJavaValue<'env> for Vec<T> {
    type Target = JavaObject<'env>;

    fn into(self) -> (t: JavaObject<'env>) {
        let ghost values = self@;
        let ghost m = self.model();
        let n = self.len();
        proof {
            lemma_try_map_ok(m, encoder::<T>());
        }
        let mut rest = reversed(self);
        let mut items: Vec<JavaObject<'env>> = Vec::new();
        while rest.len() > 0
            invariant
                values.len() == n,
                m == models_each::<T>(values),
                rest@.len() + items@.len() == n,
                forall|j: int| 0 <= j < rest@.len() ==> rest@[j] == values[n - 1 - j],
                forall|j: int| 0 <= j < m.len() ==> (#[trigger] encoder::<T>()(m[j])) is Ok,
                forall|j: int|
                    0 <= j < items@.len() ==> encoder::<T>()(m[j]) == Ok::<
                        ObjectModel<'env>,
                        ConversionError,
                    >(#[trigger] items@[j]@),
            decreases rest@.len(),
        {
            let ghost at = items@.len() as int;
            match rest.pop() {
                Some(value) => {
                    assert(value == values[at]);
                    assert(encoder::<T>()(m[at]) is Ok);
                    let item = <T as IntoJavaValue<'env>>::into(value).autobox();
                    items.push(item);
                },
                None => {},
            }
        }
        proof {
            lemma_list_model(items);
            lemma_try_map_all(m, encoder::<T>(), models_of(items@));
        }
        JavaObject::List(items)
    }
}

impl<'env, T: FromJavaValue<'env>> FromJavaValue<'env> for Vec<T> {
    type Source = JavaObject<'env>;

    proof fn lemma_decode_unboxes(o: ObjectModel<'env>) {
    }

    fn from(s: JavaObject<'env>) -> (v: Vec<T>) {
        match s {
            JavaObject::List(items) => {
                let ghost objects = models_of(items@);
                let ghost originals = items@;
                let n = items.len();
                proof {
                    lemma_list_model(items);
                    lemma_try_map_ok(objects, decoder::<T>());
                }
                let ghost m = try_map(objects, decoder::<T>())->Ok_0;
                let mut rest = reversed(items);
                let mut out: Vec<T> = Vec::new();
                while rest.len() > 0
                    invariant
                        originals.len() == n,
                        objects == models_of(originals),
                        m.len() == n,
                        rest@.len() + out@.len() == n,
                        forall|j: int| 0 <= j < rest@.len() ==> rest@[j] == originals[n - 1 - j],
                        forall|j: int|
                            0 <= j < n ==> decoder::<T>()(#[trigger] objects[j]) == Ok::<
                                T::Model,
                                ConversionError,
                            >(m[j]),
                        forall|j: int| 0 <= j < out@.len() ==> (#[trigger] out@[j]).model() == m[j],
                    decreases rest@.len(),
                {
                    let ghost at = out@.len() as int;
                    match rest.pop() {
                        Some(item) => {
                            assert(item == originals[at]);
                            assert(item@ == objects[at]);
                            assert(decoder::<T>()(objects[at]) is Ok);
                            proof {
                                T::lemma_decode_unboxes(item@);
                            }
                            let value = match T::Source::unbox(item) {
                                Ok(source) => <T as FromJavaValue<'env>>::from(source),
                                Err(_) => unreached(),
                            };
                            out.push(value);
                        },
                        None => {},
                    }
                }
                assert(out.model() =~= m);
                out
            },
            _ => unreached(),
        }
    }
}

impl<'env, T: IntoJavaValue<'env>> IntoJavaValue<'env> for Option<T> {
    type Target = JavaObject<'env>;

    fn into(self) -> (t: JavaObject<'env>) {
        match self {
            None => JavaObject::Null,
            Some(v) => <T as IntoJavaValue<'env>>::into(v).autobox(),
        }
    }
}

impl<'env, T: FromJavaValue<'env>> FromJavaValue<'env> for Option<T> {
    type Source = JavaObject<'env>;

    proof fn lemma_decode_unboxes(o: ObjectModel<'env>) {
    }

    fn from(s: JavaObject<'env>) -> (v: Option<T>) {
        if s.is_null() {
            None
        } else {
            proof {
                T::lemma_decode_unboxes(s@);
            }
            match T::Source::unbox(s) {
                Ok(source) => Some(<T as FromJavaValue<'env>>::from(source)),
                Err(_) => unreached(),
            }
        }
    }
}

} // verus!
