//! Results.
//!
//! A `Result` is an object with a byte field `tag` and an object field
//! `value`: tag 0 with the boxed `Ok` value, tag 1 with the boxed `Err` value.
//! An object with any other tag stands for no result.

use vstd::prelude::*;
use vstd::pervasive::unreached;
use crate::convert::config::RESULT_JNI_SIGNATURE;
use crate::convert::conversion::Conversion;
use crate::convert::safe::{TryFromJavaValue, TryIntoJavaValue};
use crate::convert::unchecked::{FromJavaValue, IntoJavaValue};
use crate::convert::{JavaValue, Signature};
use crate::error::{ConversionError, Kind};
use crate::object::{JavaObject, ObjectModel};
use crate::shape::Shape;

verus! {

/// The tag of an `Ok`.
pub const OK_TAG: i8 = 0;

/// The tag of an `Err`.
pub const ERR_TAG: i8 = 1;

/// The two variants of a result.
#[derive(Clone, Copy, Debug, PartialEq, Eq, Structural)]
pub enum Branch {
    Success,
    Failure,
}

/// The tag that a variant is written with.
pub fn tag_of(branch: Branch) -> (tag: i8)
    ensures
        tag == match branch {
            Branch::Success => OK_TAG,
            Branch::Failure => ERR_TAG,
        },
{
    match branch {
        Branch::Success => OK_TAG,
        Branch::Failure => ERR_TAG,
    }
}

/// The variant that a tag stands for. A tag other than 0 and 1 stands for
/// none, and is reported.
pub fn branch_of(tag: i8) -> (r: Result<Branch, ConversionError>)
    ensures
        tag == OK_TAG ==> r == Ok::<Branch, ConversionError>(Branch::Success),
        tag == ERR_TAG ==> r == Ok::<Branch, ConversionError>(Branch::Failure),
        tag != OK_TAG && tag != ERR_TAG ==> r == Err::<Branch, ConversionError>(
            ConversionError::InvariantViolation { value: tag as i32 },
        ),
{
    if tag == OK_TAG {
        Ok(Branch::Success)
    } else if tag == ERR_TAG {
        Ok(Branch::Failure)
    } else {
        Err(ConversionError::InvariantViolation { value: tag as i32 })
    }
}

/// The object with the given tag around a value's object, where the value
/// has one.
pub open spec fn tagged<'env>(tag: i8, value: Result<ObjectModel<'env>, ConversionError>) -> Result<
    ObjectModel<'env>,
    ConversionError,
> {
    match value {
        Ok(o) => Ok(ObjectModel::Tagged { tag, value: Box::new(o) }),
        Err(e) => Err(e),
    }
}

impl<T, E> Signature for Result<T, E> {
    open spec fn sig_type_spec() -> Seq<char> {
        RESULT_JNI_SIGNATURE@
    }

    fn sig_type() -> (s: &'static str) {
        RESULT_JNI_SIGNATURE
    }
}

impl<'env, T: Conversion<'env>, E: Conversion<'env>> Conversion<'env> for Result<T, E> {
    type Model = Result<T::Model, E::Model>;

    open spec fn model(&self) -> Result<T::Model, E::Model> {
        match self {
            Ok(v) => Ok(v.model()),
            Err(e) => Err(e.model()),
        }
    }

    open spec fn encode(m: Result<T::Model, E::Model>) -> Result<ObjectModel<'env>, ConversionError> {
        match m {
            Ok(v) => tagged(OK_TAG, T::encode(v)),
            Err(e) => tagged(ERR_TAG, E::encode(e)),
        }
    }

    open spec fn decode(o: ObjectModel<'env>) -> Result<Result<T::Model, E::Model>, ConversionError> {
        match o {
            ObjectModel::Tagged { tag, value } => if tag == OK_TAG {
                match T::decode(*value) {
                    Ok(v) => Ok(Ok(v)),
                    Err(e) => Err(e),
                }
            } else if tag == ERR_TAG {
                match E::decode(*value) {
                    Ok(v) => Ok(Err(v)),
                    Err(e) => Err(e),
                }
            } else {
                Err(ConversionError::InvariantViolation { value: tag as i32 })
            },
            _ => Err(ConversionError::TypeMismatch { expected: Kind::Tagged, actual: o.kind() }),
        }
    }

    open spec fn round_trips(m: Result<T::Model, E::Model>) -> bool {
        match m {
            Ok(v) => T::round_trips(v),
            Err(e) => E::round_trips(e),
        }
    }

    proof fn lemma_round_trip(m: Result<T::Model, E::Model>) {
        match m {
            Ok(v) => {
                T::lemma_round_trip(v);
            },
            Err(e) => {
                E::lemma_round_trip(e);
            },
        }
    }

    open spec fn shape_spec() -> Shape {
        Shape::Tagged(Box::new(T::shape_spec()), Box::new(E::shape_spec()))
    }

    fn shape() -> (s: Shape) {
        Shape::Tagged(Box::new(T::shape()), Box::new(E::shape()))
    }

    proof fn lemma_encoded_conforms(m: Result<T::Model, E::Model>) {
        match m {
            Ok(v) => {
                T::lemma_encoded_conforms(v);
            },
            Err(e) => {
                E::lemma_encoded_conforms(e);
            },
        }
    }

    proof fn lemma_conforming_decodes(o: ObjectModel<'env>) {
        match o {
            ObjectModel::Tagged { tag, value } => {
                if tag == OK_TAG {
                    T::lemma_conforming_decodes(*value);
                } else {
                    E::lemma_conforming_decodes(*value);
                }
            },
            _ => {},
        }
    }
}

impl<'env, T: IntoJavaValue<'env>, E: IntoJavaValue<'env>> IntoJavaValue<'env> for Result<T, E> {
    type Target = JavaObject<'env>;

    fn into(self) -> (t: JavaObject<'env>) {
        let (tag, value) = match self {
            Ok(ok) => {
                let ok_value = <T as IntoJavaValue<'env>>::into(ok).autobox();
                (tag_of(Branch::Success), ok_value)
            },
            Err(err) => {
                let err_value = <E as IntoJavaValue<'env>>::into(err).autobox();
                (tag_of(Branch::Failure), err_value)
            },
        };
        JavaObject::Tagged { tag, value: Box::new(value) }
    }
}

impl<'env, T: FromJavaValue<'env>, E: FromJavaValue<'env>> FromJavaValue<'env> for Result<T, E> {
    type Source = JavaObject<'env>;

    proof fn lemma_decode_unboxes(o: ObjectModel<'env>) {
    }

    fn from(s: JavaObject<'env>) -> (v: Result<T, E>) {
        match s {
            JavaObject::Tagged { tag, value } => match branch_of(tag) {
                Ok(Branch::Success) => {
                    proof {
                        T::lemma_decode_unboxes(value@);
                    }
                    match T::Source::unbox(*value) {
                        Ok(source) => Ok(<T as FromJavaValue<'env>>::from(source)),
                        Err(_) => unreached(),
                    }
                },
                Ok(Branch::Failure) => {
                    proof {
                        E::lemma_decode_unboxes(value@);
                    }
                    match E::Source::unbox(*value) {
                        Ok(source) => Err(<E as FromJavaValue<'env>>::from(source)),
                        Err(_) => unreached(),
                    }
                },
                Err(_) => unreached(),
            },
            _ => unreached(),
        }
    }
}

impl<'env, T: TryIntoJavaValue<'env>, E: TryIntoJavaValue<'env>> TryIntoJavaValue<'env> for Result<T, E> {
    type Target = JavaObject<'env>;

    fn try_into(self) -> (r: Result<JavaObject<'env>, ConversionError>) {
        let (tag, value) = match self {
            Ok(ok) => {
                let ok_value = match <T as TryIntoJavaValue<'env>>::try_into(ok) {
                    Ok(target) => target.autobox(),
                    Err(e) => return Err(e),
                };
                (tag_of(Branch::Success), ok_value)
            },
            Err(err) => {
                let err_value = match <E as TryIntoJavaValue<'env>>::try_into(err) {
                    Ok(target) => target.autobox(),
                    Err(e) => return Err(e),
                };
                (tag_of(Branch::Failure), err_value)
            },
        };
        Ok(JavaObject::Tagged { tag, value: Box::new(value) })
    }
}

impl<'env, T: TryFromJavaValue<'env>, E: TryFromJavaValue<'env>> TryFromJavaValue<'env> for Result<T, E> {
    type Source = JavaObject<'env>;

    proof fn lemma_decode_unboxes(o: ObjectModel<'env>) {
    }

    fn try_from(s: JavaObject<'env>) -> (r: Result<Result<T, E>, ConversionError>) {
        match s {
            JavaObject::Tagged { tag, value } => match branch_of(tag) {
                Ok(Branch::Success) => {
                    proof {
                        T::lemma_decode_unboxes(value@);
                    }
                    match T::Source::unbox(*value) {
                        Ok(source) => match <T as TryFromJavaValue<'env>>::try_from(source) {
                            Ok(ok) => Ok(Ok(ok)),
                            Err(e) => Err(e),
                        },
                        Err(e) => Err(e),
                    }
                },
                Ok(Branch::Failure) => {
                    proof {
                        E::lemma_decode_unboxes(value@);
                    }
                    match E::Source::unbox(*value) {
                        Ok(source) => match <E as TryFromJavaValue<'env>>::try_from(source) {
                            Ok(err) => Ok(Err(err)),
                            Err(e) => Err(e),
                        },
                        Err(e) => Err(e),
                    }
                },
                Err(e) => Err(e),
            },
            other => Err(ConversionError::mismatch(Kind::Tagged, other.kind())),
        }
    }
}

} // verus!
