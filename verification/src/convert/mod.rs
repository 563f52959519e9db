//! Conversion facilities.
//!
//! Two families of conversion traits are offered, as in the standard library:
//! [`IntoJavaValue`] and [`FromJavaValue`] for conversions that are owed
//! success, [`TryIntoJavaValue`] and [`TryFromJavaValue`] for conversions that
//! report a failure as a value. Both families compute the same function, which
//! [`Conversion`] states once for each type.

use vstd::prelude::*;
use vstd::std_specs::convert::{FromSpecImpl, TryFromSpecImpl};
use jni::objects::{
    GlobalRef, JClass, JFieldID, JMethodID, JObject, JStaticFieldID, JStaticMethodID, JString,
};
use jni::signature::{JavaType, ReturnType, TypeSignature};
use jni::JNIEnv;
use crate::cache::{after_request, CacheKey, Entry};
use crate::error::{ConversionError, Kind};
use crate::layout::class_name_spec;
use crate::object::{JavaObject, ObjectModel};
use crate::registry::{parsed_java_type, parsed_return_type, parsed_type_signature, ParsedForms};
use crate::runtime::{
    as_string, class_of, field_id, method_id, resolve_class, static_field_id, static_method_id,
    string_reference_of, MetadataCache,
};
use crate::value::{Envelope, JDouble, JFloat, Primitive};

pub mod config;
pub mod conversion;
pub mod result;
pub mod safe;
pub mod tuple;
pub mod unchecked;

pub use conversion::Conversion;
pub use safe::{TryFromJavaValue, TryIntoJavaValue};
pub use unchecked::{FromJavaValue, IntoJavaValue};

verus! {

/// A type with a Java type signature.
///
/// The signature belongs to the type, not to a value: it is the same on
/// every call. An `Option` has the signature of what it holds, every `Vec`
/// has the signature of the list class, a `Result` that of the result class
/// and a tuple that of the tuple class of its arity.
pub trait Signature {
    /// The type signature, as the virtual machine writes it.
    spec fn sig_type_spec() -> Seq<char>;

    fn sig_type() -> (s: &'static str)
        ensures
            s@ == Self::sig_type_spec(),
    ;

    /// The signature as a type, if it is one. The signature is parsed on
    /// the first request for it, and never again.
    fn get_java_type(forms: &mut ParsedForms) -> (r: Option<JavaType>)
        ensures
            r == parsed_java_type(Self::sig_type_spec()),
            final(forms).knows_java_type(Self::sig_type_spec()),
            final(forms).parses() == old(forms).parses() + if old(forms).knows_java_type(
                Self::sig_type_spec(),
            ) {
                0nat
            } else {
                1nat
            },
    {
        forms.java_type(Self::sig_type())
    }

    /// The signature as the signature of a method, if it is one. The
    /// signature is parsed on the first request for it, and never again.
    fn get_type_signature(forms: &mut ParsedForms) -> (r: Option<TypeSignature>)
        ensures
            r == parsed_type_signature(Self::sig_type_spec()),
            final(forms).knows_type_signature(Self::sig_type_spec()),
            final(forms).parses() == old(forms).parses() + if old(forms).knows_type_signature(
                Self::sig_type_spec(),
            ) {
                0nat
            } else {
                1nat
            },
    {
        forms.type_signature(Self::sig_type())
    }

    /// The signature as the type of a result, if it is one. The signature
    /// is parsed on the first request for it, and never again.
    fn get_return_type(forms: &mut ParsedForms) -> (r: Option<ReturnType>)
        ensures
            r == parsed_return_type(Self::sig_type_spec()),
            final(forms).knows_return_type(Self::sig_type_spec()),
            final(forms).parses() == old(forms).parses() + if old(forms).knows_return_type(
                Self::sig_type_spec(),
            ) {
                0nat
            } else {
                1nat
            },
    {
        forms.return_type(Self::sig_type())
    }
}

/// Access to the class behind a type signature, and to its members, through
/// the metadata cache.
pub trait JClassAccess: Signature {
    /// Looks the class up in the virtual machine and pins it. This is the
    /// resolution that the cache makes once.
    fn init_global_class_ref<'a>(env: &JNIEnv<'a>) -> (entry: Entry<GlobalRef>)
        ensures
            class_name_spec(Self::sig_type_spec()) is None ==> entry is Failed,
    {
        resolve_class(env, Self::sig_type())
    }

    /// The class, resolved once.
    fn get_jclass<'a>(env: &JNIEnv<'a>, cache: &mut MetadataCache) -> (r: Result<
        JClass<'a>,
        ConversionError,
    >)
        ensures
            final(cache).methods == old(cache).methods,
            final(cache).static_methods == old(cache).static_methods,
            final(cache).fields == old(cache).fields,
            final(cache).static_fields == old(cache).static_fields,
            final(cache).parsed == old(cache).parsed,
            final(cache).keeps(*old(cache)),
            exists|outcome: Entry<GlobalRef>|
                final(cache).classes@ == after_request(
                    old(cache).classes@,
                    CacheKey::class_key(Self::sig_type_spec()),
                    outcome,
                ),
            final(cache).classes@.contains_key(CacheKey::class_key(Self::sig_type_spec())),
            final(cache).classes.resolutions() == old(cache).classes.resolutions() + if old(
                cache,
            ).classes@.contains_key(CacheKey::class_key(Self::sig_type_spec())) {
                0nat
            } else {
                1nat
            },
            final(cache).classes@[CacheKey::class_key(Self::sig_type_spec())] is Failed ==> r == Err::<
                JClass<'a>,
                ConversionError,
            >(ConversionError::ResolutionFailure),
            r is Ok ==> final(cache).classes@[CacheKey::class_key(Self::sig_type_spec())] is Resolved,
            !old(cache).classes@.contains_key(CacheKey::class_key(Self::sig_type_spec())) && class_name_spec(
                Self::sig_type_spec(),
            ) is None ==> final(cache).classes@[CacheKey::class_key(Self::sig_type_spec())] is Failed,
    {
        class_of(env, cache, Self::sig_type())
    }

    /// The field of the class with the given name and signature, resolved
    /// once.
    fn get_field_id<'a>(env: &JNIEnv<'a>, cache: &mut MetadataCache, name: &str, sig: &str) -> (r: Result<
        JFieldID,
        ConversionError,
    >)
        ensures
            final(cache).methods == old(cache).methods,
            final(cache).static_methods == old(cache).static_methods,
            final(cache).static_fields == old(cache).static_fields,
            final(cache).parsed == old(cache).parsed,
            final(cache).keeps(*old(cache)),
            old(cache).fields@.contains_key(CacheKey::member_key(Self::sig_type_spec(), name@, sig@))
                ==> final(cache).classes == old(cache).classes,
            !old(cache).fields@.contains_key(CacheKey::member_key(Self::sig_type_spec(), name@, sig@))
                ==> exists|outcome: Entry<GlobalRef>|
                final(cache).classes@ == after_request(
                    old(cache).classes@,
                    CacheKey::class_key(Self::sig_type_spec()),
                    outcome,
                ),
            final(cache).classes.resolutions() == old(cache).classes.resolutions() + if old(
                cache,
            ).fields@.contains_key(CacheKey::member_key(Self::sig_type_spec(), name@, sig@)) || old(
                cache,
            ).classes@.contains_key(CacheKey::class_key(Self::sig_type_spec())) {
                0nat
            } else {
                1nat
            },
            exists|outcome: Entry<JFieldID>|
                final(cache).fields@ == after_request(
                    old(cache).fields@,
                    CacheKey::member_key(Self::sig_type_spec(), name@, sig@),
                    outcome,
                ),
            final(cache).fields@.contains_key(CacheKey::member_key(Self::sig_type_spec(), name@, sig@)),
            final(cache).fields.resolutions() == old(cache).fields.resolutions() + if old(
                cache,
            ).fields@.contains_key(CacheKey::member_key(Self::sig_type_spec(), name@, sig@)) {
                0nat
            } else {
                1nat
            },
            match r {
                Ok(id) => final(cache).fields@[CacheKey::member_key(Self::sig_type_spec(), name@, sig@)]
                    == Entry::Resolved(id),
                Err(e) => e == ConversionError::ResolutionFailure && final(cache).fields@[CacheKey::member_key(
                    Self::sig_type_spec(),
                    name@,
                    sig@,
                )] is Failed,
            },
    {
        field_id(env, cache, Self::sig_type(), name, sig)
    }

    /// The static field of the class with the given name and signature, resolved
    /// once.
    fn get_static_field_id<'a>(env: &JNIEnv<'a>, cache: &mut MetadataCache, name: &str, sig: &str) -> (r: Result<
        JStaticFieldID,
        ConversionError,
    >)
        ensures
            final(cache).methods == old(cache).methods,
            final(cache).static_methods == old(cache).static_methods,
            final(cache).fields == old(cache).fields,
            final(cache).parsed == old(cache).parsed,
            final(cache).keeps(*old(cache)),
            old(cache).static_fields@.contains_key(CacheKey::member_key(Self::sig_type_spec(), name@, sig@))
                ==> final(cache).classes == old(cache).classes,
            !old(cache).static_fields@.contains_key(CacheKey::member_key(Self::sig_type_spec(), name@, sig@))
                ==> exists|outcome: Entry<GlobalRef>|
                final(cache).classes@ == after_request(
                    old(cache).classes@,
                    CacheKey::class_key(Self::sig_type_spec()),
                    outcome,
                ),
            final(cache).classes.resolutions() == old(cache).classes.resolutions() + if old(
                cache,
            ).static_fields@.contains_key(CacheKey::member_key(Self::sig_type_spec(), name@, sig@)) || old(
                cache,
            ).classes@.contains_key(CacheKey::class_key(Self::sig_type_spec())) {
                0nat
            } else {
                1nat
            },
            exists|outcome: Entry<JStaticFieldID>|
                final(cache).static_fields@ == after_request(
                    old(cache).static_fields@,
                    CacheKey::member_key(Self::sig_type_spec(), name@, sig@),
                    outcome,
                ),
            final(cache).static_fields@.contains_key(CacheKey::member_key(Self::sig_type_spec(), name@, sig@)),
            final(cache).static_fields.resolutions() == old(cache).static_fields.resolutions() + if old(
                cache,
            ).static_fields@.contains_key(CacheKey::member_key(Self::sig_type_spec(), name@, sig@)) {
                0nat
            } else {
                1nat
            },
            match r {
                Ok(id) => final(cache).static_fields@[CacheKey::member_key(Self::sig_type_spec(), name@, sig@)]
                    == Entry::Resolved(id),
                Err(e) => e == ConversionError::ResolutionFailure && final(cache).static_fields@[CacheKey::member_key(
                    Self::sig_type_spec(),
                    name@,
                    sig@,
                )] is Failed,
            },
    {
        static_field_id(env, cache, Self::sig_type(), name, sig)
    }

    /// The method of the class with the given name and signature, resolved
    /// once.
    fn get_method_id<'a>(env: &JNIEnv<'a>, cache: &mut MetadataCache, name: &str, sig: &str) -> (r: Result<
        JMethodID,
        ConversionError,
    >)
        ensures
            final(cache).static_methods == old(cache).static_methods,
            final(cache).fields == old(cache).fields,
            final(cache).static_fields == old(cache).static_fields,
            final(cache).parsed == old(cache).parsed,
            final(cache).keeps(*old(cache)),
            old(cache).methods@.contains_key(CacheKey::member_key(Self::sig_type_spec(), name@, sig@))
                ==> final(cache).classes == old(cache).classes,
            !old(cache).methods@.contains_key(CacheKey::member_key(Self::sig_type_spec(), name@, sig@))
                ==> exists|outcome: Entry<GlobalRef>|
                final(cache).classes@ == after_request(
                    old(cache).classes@,
                    CacheKey::class_key(Self::sig_type_spec()),
                    outcome,
                ),
            final(cache).classes.resolutions() == old(cache).classes.resolutions() + if old(
                cache,
            ).methods@.contains_key(CacheKey::member_key(Self::sig_type_spec(), name@, sig@)) || old(
                cache,
            ).classes@.contains_key(CacheKey::class_key(Self::sig_type_spec())) {
                0nat
            } else {
                1nat
            },
            exists|outcome: Entry<JMethodID>|
                final(cache).methods@ == after_request(
                    old(cache).methods@,
                    CacheKey::member_key(Self::sig_type_spec(), name@, sig@),
                    outcome,
                ),
            final(cache).methods@.contains_key(CacheKey::member_key(Self::sig_type_spec(), name@, sig@)),
            final(cache).methods.resolutions() == old(cache).methods.resolutions() + if old(
                cache,
            ).methods@.contains_key(CacheKey::member_key(Self::sig_type_spec(), name@, sig@)) {
                0nat
            } else {
                1nat
            },
            match r {
                Ok(id) => final(cache).methods@[CacheKey::member_key(Self::sig_type_spec(), name@, sig@)]
                    == Entry::Resolved(id),
                Err(e) => e == ConversionError::ResolutionFailure && final(cache).methods@[CacheKey::member_key(
                    Self::sig_type_spec(),
                    name@,
                    sig@,
                )] is Failed,
            },
    {
        method_id(env, cache, Self::sig_type(), name, sig)
    }

    /// The static method of the class with the given name and signature, resolved
    /// once.
    fn get_static_method_id<'a>(env: &JNIEnv<'a>, cache: &mut MetadataCache, name: &str, sig: &str) -> (r: Result<
        JStaticMethodID,
        ConversionError,
    >)
        ensures
            final(cache).methods == old(cache).methods,
            final(cache).fields == old(cache).fields,
            final(cache).static_fields == old(cache).static_fields,
            final(cache).parsed == old(cache).parsed,
            final(cache).keeps(*old(cache)),
            old(cache).static_methods@.contains_key(CacheKey::member_key(Self::sig_type_spec(), name@, sig@))
                ==> final(cache).classes == old(cache).classes,
            !old(cache).static_methods@.contains_key(CacheKey::member_key(Self::sig_type_spec(), name@, sig@))
                ==> exists|outcome: Entry<GlobalRef>|
                final(cache).classes@ == after_request(
                    old(cache).classes@,
                    CacheKey::class_key(Self::sig_type_spec()),
                    outcome,
                ),
            final(cache).classes.resolutions() == old(cache).classes.resolutions() + if old(
                cache,
            ).static_methods@.contains_key(CacheKey::member_key(Self::sig_type_spec(), name@, sig@)) || old(
                cache,
            ).classes@.contains_key(CacheKey::class_key(Self::sig_type_spec())) {
                0nat
            } else {
                1nat
            },
            exists|outcome: Entry<JStaticMethodID>|
                final(cache).static_methods@ == after_request(
                    old(cache).static_methods@,
                    CacheKey::member_key(Self::sig_type_spec(), name@, sig@),
                    outcome,
                ),
            final(cache).static_methods@.contains_key(CacheKey::member_key(Self::sig_type_spec(), name@, sig@)),
            final(cache).static_methods.resolutions() == old(cache).static_methods.resolutions() + if old(
                cache,
            ).static_methods@.contains_key(CacheKey::member_key(Self::sig_type_spec(), name@, sig@)) {
                0nat
            } else {
                1nat
            },
            match r {
                Ok(id) => final(cache).static_methods@[CacheKey::member_key(Self::sig_type_spec(), name@, sig@)]
                    == Entry::Resolved(id),
                Err(e) => e == ConversionError::ResolutionFailure && final(cache).static_methods@[CacheKey::member_key(
                    Self::sig_type_spec(),
                    name@,
                    sig@,
                )] is Failed,
            },
    {
        static_method_id(env, cache, Self::sig_type(), name, sig)
    }
}

impl<T: Signature> JClassAccess for T {

}

/// A value that crosses the boundary as it is: a primitive, or a reference to
/// an object.
///
/// It is implemented for the eight primitive kinds and for [`JavaObject`],
/// which is its own box: an object, and so a reference to one that the
/// machine handed out, passes through every conversion as it is. The unit type has no boxed form and does not
/// implement the trait, so no unit value can reach `autobox`; the empty tuple
/// is converted to its object directly.
pub trait JavaValue<'env>: Sized {
    /// The object that holds the value once it is boxed.
    spec fn boxed_spec(&self) -> ObjectModel<'env>;

    /// Whether an object can be unboxed to this type.
    spec fn unboxes(o: ObjectModel<'env>) -> bool;

    /// The report for an object that cannot be unboxed to this type.
    spec fn unbox_error(o: ObjectModel<'env>) -> ConversionError;

    /// Wraps the value in an object.
    fn autobox(self) -> (o: JavaObject<'env>)
        ensures
            o@ == self.boxed_spec(),
            Self::unboxes(o@),
    ;

    /// Takes the value out of an object.
    fn unbox(o: JavaObject<'env>) -> (r: Result<Self, ConversionError>)
        ensures
            match r {
                Ok(v) => Self::unboxes(o@) && v.boxed_spec() == o@,
                Err(e) => !Self::unboxes(o@) && e == Self::unbox_error(o@),
            },
    ;
}

impl Signature for u8 {
    open spec fn sig_type_spec() -> Seq<char> {
        "Z"@
    }

    fn sig_type() -> (s: &'static str) {
        "Z"
    }
}

/// A `jboolean` is boxed as a `java.lang.Boolean`.
impl<'env> JavaValue<'env> for u8 {
    open spec fn boxed_spec(&self) -> ObjectModel<'env> {
        ObjectModel::Boxed(Primitive::Boolean(*self))
    }

    open spec fn unboxes(o: ObjectModel<'env>) -> bool {
        o matches ObjectModel::Boxed(Primitive::Boolean(_))
    }

    open spec fn unbox_error(o: ObjectModel<'env>) -> ConversionError {
        ConversionError::TypeMismatch { expected: Kind::Bool, actual: o.kind() }
    }

    fn autobox(self) -> (o: JavaObject<'env>) {
        JavaObject::Boxed(Primitive::Boolean(self))
    }

    fn unbox(o: JavaObject<'env>) -> (r: Result<Self, ConversionError>) {
        match o {
            JavaObject::Boxed(Primitive::Boolean(v)) => Ok(v),
            other => Err(ConversionError::mismatch(Kind::Bool, other.kind())),
        }
    }
}

impl Signature for i8 {
    open spec fn sig_type_spec() -> Seq<char> {
        "B"@
    }

    fn sig_type() -> (s: &'static str) {
        "B"
    }
}

/// A `jbyte` is boxed as a `java.lang.Byte`.
impl<'env> JavaValue<'env> for i8 {
    open spec fn boxed_spec(&self) -> ObjectModel<'env> {
        ObjectModel::Boxed(Primitive::Byte(*self))
    }

    open spec fn unboxes(o: ObjectModel<'env>) -> bool {
        o matches ObjectModel::Boxed(Primitive::Byte(_))
    }

    open spec fn unbox_error(o: ObjectModel<'env>) -> ConversionError {
        ConversionError::TypeMismatch { expected: Kind::Byte, actual: o.kind() }
    }

    fn autobox(self) -> (o: JavaObject<'env>) {
        JavaObject::Boxed(Primitive::Byte(self))
    }

    fn unbox(o: JavaObject<'env>) -> (r: Result<Self, ConversionError>) {
        match o {
            JavaObject::Boxed(Primitive::Byte(v)) => Ok(v),
            other => Err(ConversionError::mismatch(Kind::Byte, other.kind())),
        }
    }
}

impl Signature for u16 {
    open spec fn sig_type_spec() -> Seq<char> {
        "C"@
    }

    fn sig_type() -> (s: &'static str) {
        "C"
    }
}

/// A `jchar` is boxed as a `java.lang.Character`.
impl<'env> JavaValue<'env> for u16 {
    open spec fn boxed_spec(&self) -> ObjectModel<'env> {
        ObjectModel::Boxed(Primitive::Char(*self))
    }

    open spec fn unboxes(o: ObjectModel<'env>) -> bool {
        o matches ObjectModel::Boxed(Primitive::Char(_))
    }

    open spec fn unbox_error(o: ObjectModel<'env>) -> ConversionError {
        ConversionError::TypeMismatch { expected: Kind::Char, actual: o.kind() }
    }

    fn autobox(self) -> (o: JavaObject<'env>) {
        JavaObject::Boxed(Primitive::Char(self))
    }

    fn unbox(o: JavaObject<'env>) -> (r: Result<Self, ConversionError>) {
        match o {
            JavaObject::Boxed(Primitive::Char(v)) => Ok(v),
            other => Err(ConversionError::mismatch(Kind::Char, other.kind())),
        }
    }
}

impl Signature for JDouble {
    open spec fn sig_type_spec() -> Seq<char> {
        "D"@
    }

    fn sig_type() -> (s: &'static str) {
        "D"
    }
}

/// A `jdouble` is boxed as a `java.lang.Double`.
impl<'env> JavaValue<'env> for JDouble {
    open spec fn boxed_spec(&self) -> ObjectModel<'env> {
        ObjectModel::Boxed(Primitive::Double(*self))
    }

    open spec fn unboxes(o: ObjectModel<'env>) -> bool {
        o matches ObjectModel::Boxed(Primitive::Double(_))
    }

    open spec fn unbox_error(o: ObjectModel<'env>) -> ConversionError {
        ConversionError::TypeMismatch { expected: Kind::Double, actual: o.kind() }
    }

    fn autobox(self) -> (o: JavaObject<'env>) {
        JavaObject::Boxed(Primitive::Double(self))
    }

    fn unbox(o: JavaObject<'env>) -> (r: Result<Self, ConversionError>) {
        match o {
            JavaObject::Boxed(Primitive::Double(v)) => Ok(v),
            other => Err(ConversionError::mismatch(Kind::Double, other.kind())),
        }
    }
}

impl Signature for JFloat {
    open spec fn sig_type_spec() -> Seq<char> {
        "F"@
    }

    fn sig_type() -> (s: &'static str) {
        "F"
    }
}

/// A `jfloat` is boxed as a `java.lang.Float`.
impl<'env> JavaValue<'env> for JFloat {
    open spec fn boxed_spec(&self) -> ObjectModel<'env> {
        ObjectModel::Boxed(Primitive::Float(*self))
    }

    open spec fn unboxes(o: ObjectModel<'env>) -> bool {
        o matches ObjectModel::Boxed(Primitive::Float(_))
    }

    open spec fn unbox_error(o: ObjectModel<'env>) -> ConversionError {
        ConversionError::TypeMismatch { expected: Kind::Float, actual: o.kind() }
    }

    fn autobox(self) -> (o: JavaObject<'env>) {
        JavaObject::Boxed(Primitive::Float(self))
    }

    fn unbox(o: JavaObject<'env>) -> (r: Result<Self, ConversionError>) {
        match o {
            JavaObject::Boxed(Primitive::Float(v)) => Ok(v),
            other => Err(ConversionError::mismatch(Kind::Float, other.kind())),
        }
    }
}

impl Signature for i32 {
    open spec fn sig_type_spec() -> Seq<char> {
        "I"@
    }

    fn sig_type() -> (s: &'static str) {
        "I"
    }
}

/// A `jint` is boxed as a `java.lang.Integer`.
impl<'env> JavaValue<'env> for i32 {
    open spec fn boxed_spec(&self) -> ObjectModel<'env> {
        ObjectModel::Boxed(Primitive::Int(*self))
    }

    open spec fn unboxes(o: ObjectModel<'env>) -> bool {
        o matches ObjectModel::Boxed(Primitive::Int(_))
    }

    open spec fn unbox_error(o: ObjectModel<'env>) -> ConversionError {
        ConversionError::TypeMismatch { expected: Kind::Int, actual: o.kind() }
    }

    fn autobox(self) -> (o: JavaObject<'env>) {
        JavaObject::Boxed(Primitive::Int(self))
    }

    fn unbox(o: JavaObject<'env>) -> (r: Result<Self, ConversionError>) {
        match o {
            JavaObject::Boxed(Primitive::Int(v)) => Ok(v),
            other => Err(ConversionError::mismatch(Kind::Int, other.kind())),
        }
    }
}

impl Signature for i64 {
    open spec fn sig_type_spec() -> Seq<char> {
        "J"@
    }

    fn sig_type() -> (s: &'static str) {
        "J"
    }
}

/// A `jlong` is boxed as a `java.lang.Long`.
impl<'env> JavaValue<'env> for i64 {
    open spec fn boxed_spec(&self) -> ObjectModel<'env> {
        ObjectModel::Boxed(Primitive::Long(*self))
    }

    open spec fn unboxes(o: ObjectModel<'env>) -> bool {
        o matches ObjectModel::Boxed(Primitive::Long(_))
    }

    open spec fn unbox_error(o: ObjectModel<'env>) -> ConversionError {
        ConversionError::TypeMismatch { expected: Kind::Long, actual: o.kind() }
    }

    fn autobox(self) -> (o: JavaObject<'env>) {
        JavaObject::Boxed(Primitive::Long(self))
    }

    fn unbox(o: JavaObject<'env>) -> (r: Result<Self, ConversionError>) {
        match o {
            JavaObject::Boxed(Primitive::Long(v)) => Ok(v),
            other => Err(ConversionError::mismatch(Kind::Long, other.kind())),
        }
    }
}

impl Signature for i16 {
    open spec fn sig_type_spec() -> Seq<char> {
        "S"@
    }

    fn sig_type() -> (s: &'static str) {
        "S"
    }
}

/// A `jshort` is boxed as a `java.lang.Short`.
impl<'env> JavaValue<'env> for i16 {
    open spec fn boxed_spec(&self) -> ObjectModel<'env> {
        ObjectModel::Boxed(Primitive::Short(*self))
    }

    open spec fn unboxes(o: ObjectModel<'env>) -> bool {
        o matches ObjectModel::Boxed(Primitive::Short(_))
    }

    open spec fn unbox_error(o: ObjectModel<'env>) -> ConversionError {
        ConversionError::TypeMismatch { expected: Kind::Short, actual: o.kind() }
    }

    fn autobox(self) -> (o: JavaObject<'env>) {
        JavaObject::Boxed(Primitive::Short(self))
    }

    fn unbox(o: JavaObject<'env>) -> (r: Result<Self, ConversionError>) {
        match o {
            JavaObject::Boxed(Primitive::Short(v)) => Ok(v),
            other => Err(ConversionError::mismatch(Kind::Short, other.kind())),
        }
    }
}

/// A value envelope from which a value of a chosen kind can be taken.
///
/// The kind asked for must be the kind the envelope was made with: taking
/// any other kind fails with a report that names both.
pub struct JValueWrapper<O>(pub Envelope<O>);

impl<O> JValueWrapper<O> {
    /// The object reference that the envelope holds, where it holds one.
    pub fn object(self) -> (r: Result<O, ConversionError>)
        ensures
            match self.0 {
                Envelope::Object(o) => r == Ok::<O, ConversionError>(o),
                other => r == Err::<O, ConversionError>(
                    ConversionError::TypeMismatch {
                        expected: Kind::Object,
                        actual: other.kind_spec(),
                    },
                ),
            },
    {
        match self.0 {
            Envelope::Object(o) => Ok(o),
            other => Err(ConversionError::mismatch(Kind::Object, other.kind())),
        }
    }
}

impl<O> From<Envelope<O>> for JValueWrapper<O> {
    fn from(v: Envelope<O>) -> (w: Self) {
        JValueWrapper(v)
    }
}

impl<O> FromSpecImpl<Envelope<O>> for JValueWrapper<O> {
    open spec fn obeys_from_spec() -> bool {
        true
    }

    open spec fn from_spec(v: Envelope<O>) -> Self {
        JValueWrapper(v)
    }
}

impl<O> From<JValueWrapper<O>> for Envelope<O> {
    fn from(v: JValueWrapper<O>) -> (w: Self) {
        v.0
    }
}

impl<O> FromSpecImpl<JValueWrapper<O>> for Envelope<O> {
    open spec fn obeys_from_spec() -> bool {
        true
    }

    open spec fn from_spec(v: JValueWrapper<O>) -> Self {
        v.0
    }
}

impl<O> TryFrom<JValueWrapper<O>> for u8 {
    type Error = ConversionError;

    fn try_from(value: JValueWrapper<O>) -> (r: Result<u8, ConversionError>) {
        match value.0 {
            Envelope::Bool(v) => Ok(v),
            other => Err(ConversionError::mismatch(Kind::Bool, other.kind())),
        }
    }
}

impl<O> TryFromSpecImpl<JValueWrapper<O>> for u8 {
    open spec fn obeys_try_from_spec() -> bool {
        true
    }

    open spec fn try_from_spec(value: JValueWrapper<O>) -> Result<u8, ConversionError> {
        match value.0 {
            Envelope::Bool(v) => Ok(v),
            other => Err(
                ConversionError::TypeMismatch { expected: Kind::Bool, actual: other.kind_spec() },
            ),
        }
    }
}

impl<O> TryFrom<JValueWrapper<O>> for i8 {
    type Error = ConversionError;

    fn try_from(value: JValueWrapper<O>) -> (r: Result<i8, ConversionError>) {
        match value.0 {
            Envelope::Byte(v) => Ok(v),
            other => Err(ConversionError::mismatch(Kind::Byte, other.kind())),
        }
    }
}

impl<O> TryFromSpecImpl<JValueWrapper<O>> for i8 {
    open spec fn obeys_try_from_spec() -> bool {
        true
    }

    open spec fn try_from_spec(value: JValueWrapper<O>) -> Result<i8, ConversionError> {
        match value.0 {
            Envelope::Byte(v) => Ok(v),
            other => Err(
                ConversionError::TypeMismatch { expected: Kind::Byte, actual: other.kind_spec() },
            ),
        }
    }
}

impl<O> TryFrom<JValueWrapper<O>> for u16 {
    type Error = ConversionError;

    fn try_from(value: JValueWrapper<O>) -> (r: Result<u16, ConversionError>) {
        match value.0 {
            Envelope::Char(v) => Ok(v),
            other => Err(ConversionError::mismatch(Kind::Char, other.kind())),
        }
    }
}

impl<O> TryFromSpecImpl<JValueWrapper<O>> for u16 {
    open spec fn obeys_try_from_spec() -> bool {
        true
    }

    open spec fn try_from_spec(value: JValueWrapper<O>) -> Result<u16, ConversionError> {
        match value.0 {
            Envelope::Char(v) => Ok(v),
            other => Err(
                ConversionError::TypeMismatch { expected: Kind::Char, actual: other.kind_spec() },
            ),
        }
    }
}

impl<O> TryFrom<JValueWrapper<O>> for JDouble {
    type Error = ConversionError;

    fn try_from(value: JValueWrapper<O>) -> (r: Result<JDouble, ConversionError>) {
        match value.0 {
            Envelope::Double(v) => Ok(v),
            other => Err(ConversionError::mismatch(Kind::Double, other.kind())),
        }
    }
}

impl<O> TryFromSpecImpl<JValueWrapper<O>> for JDouble {
    open spec fn obeys_try_from_spec() -> bool {
        true
    }

    open spec fn try_from_spec(value: JValueWrapper<O>) -> Result<JDouble, ConversionError> {
        match value.0 {
            Envelope::Double(v) => Ok(v),
            other => Err(
                ConversionError::TypeMismatch { expected: Kind::Double, actual: other.kind_spec() },
            ),
        }
    }
}

impl<O> TryFrom<JValueWrapper<O>> for JFloat {
    type Error = ConversionError;

    fn try_from(value: JValueWrapper<O>) -> (r: Result<JFloat, ConversionError>) {
        match value.0 {
            Envelope::Float(v) => Ok(v),
            other => Err(ConversionError::mismatch(Kind::Float, other.kind())),
        }
    }
}

impl<O> TryFromSpecImpl<JValueWrapper<O>> for JFloat {
    open spec fn obeys_try_from_spec() -> bool {
        true
    }

    open spec fn try_from_spec(value: JValueWrapper<O>) -> Result<JFloat, ConversionError> {
        match value.0 {
            Envelope::Float(v) => Ok(v),
            other => Err(
                ConversionError::TypeMismatch { expected: Kind::Float, actual: other.kind_spec() },
            ),
        }
    }
}

impl<O> TryFrom<JValueWrapper<O>> for i32 {
    type Error = ConversionError;

    fn try_from(value: JValueWrapper<O>) -> (r: Result<i32, ConversionError>) {
        match value.0 {
            Envelope::Int(v) => Ok(v),
            other => Err(ConversionError::mismatch(Kind::Int, other.kind())),
        }
    }
}

impl<O> TryFromSpecImpl<JValueWrapper<O>> for i32 {
    open spec fn obeys_try_from_spec() -> bool {
        true
    }

    open spec fn try_from_spec(value: JValueWrapper<O>) -> Result<i32, ConversionError> {
        match value.0 {
            Envelope::Int(v) => Ok(v),
            other => Err(
                ConversionError::TypeMismatch { expected: Kind::Int, actual: other.kind_spec() },
            ),
        }
    }
}

impl<O> TryFrom<JValueWrapper<O>> for i16 {
    type Error = ConversionError;

    fn try_from(value: JValueWrapper<O>) -> (r: Result<i16, ConversionError>) {
        match value.0 {
            Envelope::Short(v) => Ok(v),
            other => Err(ConversionError::mismatch(Kind::Short, other.kind())),
        }
    }
}

impl<O> TryFromSpecImpl<JValueWrapper<O>> for i16 {
    open spec fn obeys_try_from_spec() -> bool {
        true
    }

    open spec fn try_from_spec(value: JValueWrapper<O>) -> Result<i16, ConversionError> {
        match value.0 {
            Envelope::Short(v) => Ok(v),
            other => Err(
                ConversionError::TypeMismatch { expected: Kind::Short, actual: other.kind_spec() },
            ),
        }
    }
}

impl<O> TryFrom<JValueWrapper<O>> for i64 {
    type Error = ConversionError;

    fn try_from(value: JValueWrapper<O>) -> (r: Result<i64, ConversionError>) {
        match value.0 {
            Envelope::Long(v) => Ok(v),
            other => Err(ConversionError::mismatch(Kind::Long, other.kind())),
        }
    }
}

impl<O> TryFromSpecImpl<JValueWrapper<O>> for i64 {
    open spec fn obeys_try_from_spec() -> bool {
        true
    }

    open spec fn try_from_spec(value: JValueWrapper<O>) -> Result<i64, ConversionError> {
        match value.0 {
            Envelope::Long(v) => Ok(v),
            other => Err(
                ConversionError::TypeMismatch { expected: Kind::Long, actual: other.kind_spec() },
            ),
        }
    }
}

impl<O> TryFrom<JValueWrapper<O>> for () {
    type Error = ConversionError;

    fn try_from(value: JValueWrapper<O>) -> (r: Result<(), ConversionError>) {
        match value.0 {
            Envelope::Void => Ok(()),
            other => Err(ConversionError::mismatch(Kind::Void, other.kind())),
        }
    }
}

impl<O> TryFromSpecImpl<JValueWrapper<O>> for () {
    open spec fn obeys_try_from_spec() -> bool {
        true
    }

    open spec fn try_from_spec(value: JValueWrapper<O>) -> Result<(), ConversionError> {
        match value.0 {
            Envelope::Void => Ok(()),
            other => Err(
                ConversionError::TypeMismatch { expected: Kind::Void, actual: other.kind_spec() },
            ),
        }
    }
}

impl<'env> TryFrom<JValueWrapper<JavaObject<'env>>> for JavaObject<'env> {
    type Error = ConversionError;

    fn try_from(value: JValueWrapper<JavaObject<'env>>) -> (r: Result<JavaObject<'env>, ConversionError>) {
        match value.0 {
            Envelope::Object(o) => Ok(o),
            other => Err(ConversionError::mismatch(Kind::Object, other.kind())),
        }
    }
}

impl<'env> TryFromSpecImpl<JValueWrapper<JavaObject<'env>>> for JavaObject<'env> {
    open spec fn obeys_try_from_spec() -> bool {
        true
    }

    open spec fn try_from_spec(value: JValueWrapper<JavaObject<'env>>) -> Result<
        JavaObject<'env>,
        ConversionError,
    > {
        match value.0 {
            Envelope::Object(o) => Ok(o),
            other => Err(
                ConversionError::TypeMismatch { expected: Kind::Object, actual: other.kind_spec() },
            ),
        }
    }
}

/// The object reference that an envelope around references holds.
impl<'a> TryFrom<JValueWrapper<JObject<'a>>> for JObject<'a> {
    type Error = ConversionError;

    fn try_from(value: JValueWrapper<JObject<'a>>) -> (r: Result<JObject<'a>, ConversionError>) {
        match value.0 {
            Envelope::Object(o) => Ok(o),
            other => Err(ConversionError::mismatch(Kind::Object, other.kind())),
        }
    }
}

impl<'a> TryFromSpecImpl<JValueWrapper<JObject<'a>>> for JObject<'a> {
    open spec fn obeys_try_from_spec() -> bool {
        true
    }

    open spec fn try_from_spec(value: JValueWrapper<JObject<'a>>) -> Result<
        JObject<'a>,
        ConversionError,
    > {
        match value.0 {
            Envelope::Object(o) => Ok(o),
            other => Err(
                ConversionError::TypeMismatch { expected: Kind::Object, actual: other.kind_spec() },
            ),
        }
    }
}

/// The string reference that an envelope around references holds: the
/// object reference in it, taken as a reference to a string.
impl<'a> TryFrom<JValueWrapper<JObject<'a>>> for JString<'a> {
    type Error = ConversionError;

    fn try_from(value: JValueWrapper<JObject<'a>>) -> (r: Result<JString<'a>, ConversionError>) {
        match value.0 {
            Envelope::Object(o) => Ok(as_string(o)),
            other => Err(ConversionError::mismatch(Kind::Text, other.kind())),
        }
    }
}

impl<'a> TryFromSpecImpl<JValueWrapper<JObject<'a>>> for JString<'a> {
    open spec fn obeys_try_from_spec() -> bool {
        true
    }

    open spec fn try_from_spec(value: JValueWrapper<JObject<'a>>) -> Result<
        JString<'a>,
        ConversionError,
    > {
        match value.0 {
            Envelope::Object(o) => Ok(string_reference_of(o)),
            other => Err(
                ConversionError::TypeMismatch { expected: Kind::Text, actual: other.kind_spec() },
            ),
        }
    }
}

/// The text that an envelope holds. Only an envelope around a string object
/// holds one.
impl<'env> TryFrom<JValueWrapper<JavaObject<'env>>> for String {
    type Error = ConversionError;

    fn try_from(value: JValueWrapper<JavaObject<'env>>) -> (r: Result<String, ConversionError>) {
        match value.0 {
            Envelope::Object(JavaObject::Text(text)) => Ok(text),
            Envelope::Object(other) => Err(ConversionError::mismatch(Kind::Text, other.kind())),
            other => Err(ConversionError::mismatch(Kind::Text, other.kind())),
        }
    }
}

impl<'env> TryFromSpecImpl<JValueWrapper<JavaObject<'env>>> for String {
    open spec fn obeys_try_from_spec() -> bool {
        true
    }

    open spec fn try_from_spec(value: JValueWrapper<JavaObject<'env>>) -> Result<
        String,
        ConversionError,
    > {
        match value.0 {
            Envelope::Object(JavaObject::Text(text)) => Ok(text),
            Envelope::Object(other) => Err(
                ConversionError::TypeMismatch { expected: Kind::Text, actual: other@.kind() },
            ),
            other => Err(
                ConversionError::TypeMismatch { expected: Kind::Text, actual: other.kind_spec() },
            ),
        }
    }
}

impl<'env> Signature for JObject<'env> {
    open spec fn sig_type_spec() -> Seq<char> {
        "Ljava/lang/Object;"@
    }

    fn sig_type() -> (s: &'static str) {
        "Ljava/lang/Object;"
    }
}

impl<'env> Signature for JString<'env> {
    open spec fn sig_type_spec() -> Seq<char> {
        "Ljava/lang/String;"@
    }

    fn sig_type() -> (s: &'static str) {
        "Ljava/lang/String;"
    }
}

impl<'env> Signature for JavaObject<'env> {
    open spec fn sig_type_spec() -> Seq<char> {
        "Ljava/lang/Object;"@
    }

    fn sig_type() -> (s: &'static str) {
        "Ljava/lang/Object;"
    }
}

impl<'env> JavaValue<'env> for JavaObject<'env> {
    open spec fn boxed_spec(&self) -> ObjectModel<'env> {
        self@
    }

    open spec fn unboxes(o: ObjectModel<'env>) -> bool {
        true
    }

    open spec fn unbox_error(o: ObjectModel<'env>) -> ConversionError {
        ConversionError::ForeignException
    }

    fn autobox(self) -> (o: JavaObject<'env>) {
        self
    }

    fn unbox(o: JavaObject<'env>) -> (r: Result<Self, ConversionError>) {
        Ok(o)
    }
}

impl Signature for char {
    open spec fn sig_type_spec() -> Seq<char> {
        <u16 as Signature>::sig_type_spec()
    }

    fn sig_type() -> (s: &'static str) {
        <u16 as Signature>::sig_type()
    }
}

impl Signature for bool {
    open spec fn sig_type_spec() -> Seq<char> {
        <u8 as Signature>::sig_type_spec()
    }

    fn sig_type() -> (s: &'static str) {
        <u8 as Signature>::sig_type()
    }
}

impl Signature for () {
    open spec fn sig_type_spec() -> Seq<char> {
        "V"@
    }

    fn sig_type() -> (s: &'static str) {
        "V"
    }
}

impl Signature for Box<[bool]> {
    open spec fn sig_type_spec() -> Seq<char> {
        "[Z"@
    }

    fn sig_type() -> (s: &'static str) {
        "[Z"
    }
}

impl Signature for Box<[u8]> {
    open spec fn sig_type_spec() -> Seq<char> {
        "[B"@
    }

    fn sig_type() -> (s: &'static str) {
        "[B"
    }
}

impl Signature for String {
    open spec fn sig_type_spec() -> Seq<char> {
        "Ljava/lang/String;"@
    }

    fn sig_type() -> (s: &'static str) {
        "Ljava/lang/String;"
    }
}

impl<T> Signature for Vec<T> {
    open spec fn sig_type_spec() -> Seq<char> {
        "Ljava/util/ArrayList;"@
    }

    fn sig_type() -> (s: &'static str) {
        "Ljava/util/ArrayList;"
    }
}

impl<T: Signature> Signature for Option<T> {
    open spec fn sig_type_spec() -> Seq<char> {
        T::sig_type_spec()
    }

    fn sig_type() -> (s: &'static str) {
        T::sig_type()
    }
}

} // verus!
