//! The live virtual machine: objects are built in it and read from it
//! through the JNI.
//!
//! What the machine answers is not known here. Every function of this module
//! reports a call that did not complete, and says of its result only what
//! holds whatever the machine answered.

use vstd::prelude::*;
use jni::objects::{
    GlobalRef, JClass, JFieldID, JList, JMethodID, JObject, JStaticFieldID, JStaticMethodID,
    JString,
};
use jni::signature::{JavaType, ReturnType};
use jni::JNIEnv;
use crate::cache::{after_request, keeps, CacheKey, Entry, KeyModel, OnceTable};
use crate::convert::config::{
    tuple_signature, tuple_signature_spec, MAX_TUPLE_ARITY, RESULT_JNI_SIGNATURE,
};
use crate::convert::conversion::outcome_model;
use crate::convert::result::{branch_of, Branch};
use crate::convert::{JValueWrapper, JavaValue, TryFromJavaValue, TryIntoJavaValue};
use crate::error::{reported_count, ConversionError, Kind};
use crate::layout::{
    box_class, box_class_spec, box_signature, box_signature_spec, class_name, class_name_spec,
    list_constructor_signature, new_array_parameters_spec, new_array_signature,
    primitive_signature, primitive_signature_spec, repeated, result_constructor_signature,
    result_parameters_spec, signature_text, tuple_constructor_signature, tuple_field,
    unbox_method, unbox_signature, ARRAY_SIGNATURE, BOOLEAN_ARRAY_SIGNATURE, BOX_METHOD,
    CLASS_SIGNATURE, CONSTRUCTOR_NAME, INSTANCE_FIELD, LIST_INTERFACE_SIGNATURE, LIST_SIGNATURE,
    NEW_ARRAY_METHOD, OBJECT_SIGNATURE, PRIMITIVE_TYPE_FIELD, STRING_SIGNATURE, TAG_FIELD,
    TAG_FIELD_SIGNATURE, VALUE_FIELD, VOID_SIGNATURE,
};
use crate::object::{lemma_list_model, lemma_tuple_model, models_of, JavaObject, ObjectModel};
use crate::reference::Reference;
use crate::registry::{parsed_java_type, parsed_return_type, ParsedForms};
use crate::tested::{ClassHandle, Instance, Member};
use crate::shape::{conform_from, conforms, Parts, Shape};
use crate::value::{Envelope, JDouble, JFloat, Primitive, PrimitiveKind};

verus! {

#[verifier::external_type_specification]
#[verifier::external_body]
pub struct ExRawObject(jni::sys::_jobject);

#[verifier::external_type_specification]
#[verifier::external_body]
pub struct ExJNIEnv<'a>(JNIEnv<'a>);

#[verifier::external_type_specification]
#[verifier::external_body]
pub struct ExJObject<'a>(JObject<'a>);

#[verifier::external_type_specification]
#[verifier::external_body]
pub struct ExJClass<'a>(JClass<'a>);

#[verifier::external_type_specification]
#[verifier::external_body]
pub struct ExJString<'a>(JString<'a>);

#[verifier::external_type_specification]
#[verifier::external_body]
pub struct ExJList<'a: 'b, 'b>(JList<'a, 'b>);

#[verifier::external_type_specification]
#[verifier::external_body]
pub struct ExGlobalRef(GlobalRef);

#[verifier::external_type_specification]
#[verifier::external_body]
pub struct ExJMethodID(JMethodID);

#[verifier::external_type_specification]
#[verifier::external_body]
pub struct ExJStaticMethodID(JStaticMethodID);

#[verifier::external_type_specification]
#[verifier::external_body]
pub struct ExJFieldID(JFieldID);

#[verifier::external_type_specification]
#[verifier::external_body]
pub struct ExJStaticFieldID(JStaticFieldID);

#[verifier::external_type_specification]
#[verifier::external_body]
pub struct ExJniValue<'a>(jni::objects::JValue<'a>);

/// Whether a reference is the null reference.
pub uninterp spec fn is_null_reference(handle: JObject) -> bool;

/// `JObject::null`: the null reference.
#[verifier::external_body]
fn null_reference<'a>() -> (handle: JObject<'a>)
    ensures
        is_null_reference(handle),
{
    JObject::null()
}

/// The null test on the pointer that a `JObject` wraps: whether the
/// reference is the null reference.
#[verifier::external_body]
fn is_null<'a>(handle: JObject<'a>) -> (b: bool)
    ensures
        b == is_null_reference(handle),
{
    handle.is_null()
}

/// The reference, unless it is the null reference.
pub fn nullable<'a>(handle: JObject<'a>) -> (r: Option<JObject<'a>>)
    ensures
        r == if is_null_reference(handle) {
            None
        } else {
            Some(handle)
        },
{
    if is_null(handle) {
        None
    } else {
        Some(handle)
    }
}

/// The reference that stands for an optional object: the null reference
/// for `None`.
pub fn reference_of<'a>(object: Option<JObject<'a>>) -> (handle: JObject<'a>)
    ensures
        match object {
            Some(o) => handle == o,
            None => is_null_reference(handle),
        },
{
    match object {
        Some(o) => o,
        None => null_reference(),
    }
}

/// A reference, taken as a reference to a string: `JString::from`.
pub uninterp spec fn string_reference_of(handle: JObject) -> JString;

/// `JString::from`: the reference, taken as a reference to a string. The
/// reference is wrapped as it is, and nothing is asked of the machine.
#[verifier::external_body]
pub(crate) fn as_string<'a>(handle: JObject<'a>) -> (text: JString<'a>)
    ensures
        text == string_reference_of(handle),
{
    JString::from(handle)
}

/// `JNIEnv::find_class`: the class of the given name, looked up in the
/// virtual machine.
#[verifier::external_body]
fn find_class<'a>(env: &JNIEnv<'a>, name: &str) -> (r: Option<JClass<'a>>) {
    env.find_class(name).ok()
}

/// `JNIEnv::new_global_ref`: a reference to the class that lives as long as
/// the process holds it.
#[verifier::external_body]
fn new_global_ref<'a>(env: &JNIEnv<'a>, class: JClass<'a>) -> (r: Option<GlobalRef>) {
    env.new_global_ref(class).ok()
}

/// `JNIEnv::new_local_ref`: a reference to the object behind a global
/// reference, valid in the current frame. The machine hands back the null
/// reference when it cannot make one.
#[verifier::external_body]
fn new_local_ref<'a>(env: &JNIEnv<'a>, global: &GlobalRef) -> (r: Option<JObject<'a>>) {
    env.new_local_ref(global).ok()
}

/// `JClass::from`: the reference, taken as a reference to a class.
#[verifier::external_body]
fn as_class<'a>(object: JObject<'a>) -> (class: JClass<'a>) {
    JClass::from(object)
}

/// `JNIEnv::get_method_id`: the method of a class with the given name and
/// signature.
#[verifier::external_body]
fn get_method_id<'a>(env: &JNIEnv<'a>, class: JClass<'a>, name: &str, sig: &str) -> (r: Option<
    JMethodID,
>) {
    env.get_method_id(class, name, sig).ok()
}

/// `JNIEnv::get_static_method_id`: the static method of a class with the
/// given name and signature.
#[verifier::external_body]
fn get_static_method_id<'a>(env: &JNIEnv<'a>, class: JClass<'a>, name: &str, sig: &str) -> (r:
    Option<JStaticMethodID>) {
    env.get_static_method_id(class, name, sig).ok()
}

/// `JNIEnv::get_field_id`: the field of a class with the given name and
/// type signature.
#[verifier::external_body]
fn get_field_id<'a>(env: &JNIEnv<'a>, class: JClass<'a>, name: &str, sig: &str) -> (r: Option<
    JFieldID,
>) {
    env.get_field_id(class, name, sig).ok()
}

/// `JNIEnv::get_static_field_id`: the static field of a class with the given
/// name and type signature.
#[verifier::external_body]
fn get_static_field_id<'a>(env: &JNIEnv<'a>, class: JClass<'a>, name: &str, sig: &str) -> (r:
    Option<JStaticFieldID>) {
    env.get_static_field_id(class, name, sig).ok()
}

/// What was resolved in the virtual machine so far: classes, methods and
/// fields, each in a table of its own.
pub struct MetadataCache {
    pub classes: OnceTable<GlobalRef>,
    pub methods: OnceTable<JMethodID>,
    pub static_methods: OnceTable<JStaticMethodID>,
    pub fields: OnceTable<JFieldID>,
    pub static_fields: OnceTable<JStaticFieldID>,
    /// The signatures that were parsed so far.
    pub parsed: ParsedForms,
}

impl MetadataCache {
    /// Whether everything that `before` held is still held here, with the
    /// same value: every class, member and parsed signature that was there
    /// before is there now as it was, so none of them was resolved again.
    pub open spec fn keeps(&self, before: MetadataCache) -> bool {
        &&& keeps(before.classes@, self.classes@)
        &&& keeps(before.methods@, self.methods@)
        &&& keeps(before.static_methods@, self.static_methods@)
        &&& keeps(before.fields@, self.fields@)
        &&& keeps(before.static_fields@, self.static_fields@)
        &&& self.parsed.keeps(before.parsed)
    }

    /// A cache in which nothing is resolved yet.
    pub fn new() -> (cache: MetadataCache)
        ensures
            cache.classes.resolutions() == 0,
            cache.methods.resolutions() == 0,
            cache.static_methods.resolutions() == 0,
            cache.fields.resolutions() == 0,
            cache.static_fields.resolutions() == 0,
            cache.parsed.parses() == 0,
            cache.classes@ == Map::<KeyModel, Entry<GlobalRef>>::empty(),
            cache.methods@ == Map::<KeyModel, Entry<JMethodID>>::empty(),
            cache.static_methods@ == Map::<KeyModel, Entry<JStaticMethodID>>::empty(),
            cache.fields@ == Map::<KeyModel, Entry<JFieldID>>::empty(),
            cache.static_fields@ == Map::<KeyModel, Entry<JStaticFieldID>>::empty(),
    {
        MetadataCache {
            classes: OnceTable::new(),
            methods: OnceTable::new(),
            static_methods: OnceTable::new(),
            fields: OnceTable::new(),
            static_fields: OnceTable::new(),
            parsed: ParsedForms::new(),
        }
    }
}

/// Looks a class up in the virtual machine and pins it: the one resolution
/// that is made for a class.
pub fn resolve_class<'a>(env: &JNIEnv<'a>, signature: &str) -> (entry: Entry<GlobalRef>)
    ensures
        class_name_spec(signature@) is None ==> entry is Failed,
{
    match class_name(signature) {
        None => Entry::Failed,
        Some(name) => match find_class(env, name) {
            None => Entry::Failed,
            Some(class) => match new_global_ref(env, class) {
                None => Entry::Failed,
                Some(global) => Entry::Resolved(global),
            },
        },
    }
}

/// The class with the given type signature.
///
/// The first request for a signature resolves the class and keeps a global
/// reference to it, or keeps the failure. Every request is answered from
/// what is kept: with a local reference to the class, or with
/// [`ConversionError::ResolutionFailure`].
pub fn class_of<'a>(env: &JNIEnv<'a>, cache: &mut MetadataCache, signature: &str) -> (r: Result<
    JClass<'a>,
    ConversionError,
>)
    ensures
        final(cache).methods == old(cache).methods,
        final(cache).static_methods == old(cache).static_methods,
        final(cache).fields == old(cache).fields,
        final(cache).static_fields == old(cache).static_fields,
        final(cache).parsed == old(cache).parsed,
        final(cache).keeps(*old(cache)),
        adds_up_to(
            *old(cache),
            *final(cache),
            CacheKey::class_key(signature@),
            Table::Classes,
            CacheKey::class_key(signature@),
        ),
        exists|outcome: Entry<GlobalRef>|
            final(cache).classes@ == after_request(
                old(cache).classes@,
                CacheKey::class_key(signature@),
                outcome,
            ),
        final(cache).classes@.contains_key(CacheKey::class_key(signature@)),
        final(cache).classes.resolutions() == old(cache).classes.resolutions() + if old(
            cache,
        ).classes@.contains_key(CacheKey::class_key(signature@)) {
            0nat
        } else {
            1nat
        },
        final(cache).classes@[CacheKey::class_key(signature@)] is Failed ==> r == Err::<
            JClass<'a>,
            ConversionError,
        >(ConversionError::ResolutionFailure),
        r is Ok ==> final(cache).classes@[CacheKey::class_key(signature@)] is Resolved,
        !old(cache).classes@.contains_key(CacheKey::class_key(signature@)) && class_name_spec(
            signature@,
        ) is None ==> final(cache).classes@[CacheKey::class_key(signature@)] is Failed,
{
    let key = CacheKey::class(signature);
    let ghost k = key@;
    if cache.classes.get(&key).is_none() {
        let entry = resolve_class(env, signature);
        cache.classes.record(key, entry);
        assert(cache.classes@ == after_request(old(cache).classes@, k, entry));
    } else {
        assert(cache.classes@ == after_request(old(cache).classes@, k, Entry::<GlobalRef>::Failed));
    }
    let key = CacheKey::class(signature);
    match cache.classes.get(&key) {
        Some(Entry::Resolved(global)) => match new_local_ref(env, global) {
            Some(local) => match nullable(local) {
                Some(class) => Ok(as_class(class)),
                None => Err(ConversionError::ForeignException),
            },
            None => Err(ConversionError::ForeignException),
        },
        _ => Err(ConversionError::ResolutionFailure),
    }
}

/// The method of a class with the given name and signature.
///
/// The first request for a member resolves it, through the class, or keeps
/// the failure. Every request is answered from what is kept.
pub fn method_id<'a>(
    env: &JNIEnv<'a>,
    cache: &mut MetadataCache,
    class: &str,
    name: &str,
    signature: &str,
) -> (r: Result<JMethodID, ConversionError>)
    ensures
        final(cache).static_methods == old(cache).static_methods,
        final(cache).fields == old(cache).fields,
        final(cache).static_fields == old(cache).static_fields,
        final(cache).parsed == old(cache).parsed,
        final(cache).keeps(*old(cache)),
        adds_up_to(
            *old(cache),
            *final(cache),
            CacheKey::class_key(class@),
            Table::Methods,
            CacheKey::member_key(class@, name@, signature@),
        ),
        old(cache).methods@.contains_key(CacheKey::member_key(class@, name@, signature@))
            ==> final(cache).classes == old(cache).classes,
        !old(cache).methods@.contains_key(CacheKey::member_key(class@, name@, signature@))
            ==> exists|outcome: Entry<GlobalRef>|
            final(cache).classes@ == after_request(
                old(cache).classes@,
                CacheKey::class_key(class@),
                outcome,
            ),
        final(cache).classes.resolutions() == old(cache).classes.resolutions() + if old(
            cache,
        ).methods@.contains_key(CacheKey::member_key(class@, name@, signature@)) || old(
            cache,
        ).classes@.contains_key(CacheKey::class_key(class@)) {
            0nat
        } else {
            1nat
        },
        exists|outcome: Entry<JMethodID>|
            final(cache).methods@ == after_request(
                old(cache).methods@,
                CacheKey::member_key(class@, name@, signature@),
                outcome,
            ),
        final(cache).methods@.contains_key(CacheKey::member_key(class@, name@, signature@)),
        final(cache).methods.resolutions() == old(cache).methods.resolutions() + if old(
            cache,
        ).methods@.contains_key(CacheKey::member_key(class@, name@, signature@)) {
            0nat
        } else {
            1nat
        },
        match r {
            Ok(id) => final(cache).methods@[CacheKey::member_key(class@, name@, signature@)]
                == Entry::Resolved(id),
            Err(e) => e == ConversionError::ResolutionFailure && final(cache).methods@[CacheKey::member_key(
                class@,
                name@,
                signature@,
            )] is Failed,
        },
{
    let key = CacheKey::member(class, name, signature);
    let ghost k = key@;
    if cache.methods.get(&key).is_none() {
        let entry = match class_of(env, cache, class) {
            Err(_) => Entry::Failed,
            Ok(class) => match get_method_id(env, class, name, signature) {
                None => Entry::Failed,
                Some(id) => Entry::Resolved(id),
            },
        };
        cache.methods.record(key, entry);
        assert(cache.methods@ == after_request(old(cache).methods@, k, entry));
    } else {
        assert(cache.methods@ == after_request(old(cache).methods@, k, Entry::<JMethodID>::Failed));
    }
    let key = CacheKey::member(class, name, signature);
    match cache.methods.get(&key) {
        Some(Entry::Resolved(id)) => Ok(*id),
        _ => Err(ConversionError::ResolutionFailure),
    }
}

/// The static method of a class with the given name and signature.
///
/// The first request for a member resolves it, through the class, or keeps
/// the failure. Every request is answered from what is kept.
pub fn static_method_id<'a>(
    env: &JNIEnv<'a>,
    cache: &mut MetadataCache,
    class: &str,
    name: &str,
    signature: &str,
) -> (r: Result<JStaticMethodID, ConversionError>)
    ensures
        final(cache).methods == old(cache).methods,
        final(cache).fields == old(cache).fields,
        final(cache).static_fields == old(cache).static_fields,
        final(cache).parsed == old(cache).parsed,
        final(cache).keeps(*old(cache)),
        adds_up_to(
            *old(cache),
            *final(cache),
            CacheKey::class_key(class@),
            Table::StaticMethods,
            CacheKey::member_key(class@, name@, signature@),
        ),
        old(cache).static_methods@.contains_key(CacheKey::member_key(class@, name@, signature@))
            ==> final(cache).classes == old(cache).classes,
        !old(cache).static_methods@.contains_key(CacheKey::member_key(class@, name@, signature@))
            ==> exists|outcome: Entry<GlobalRef>|
            final(cache).classes@ == after_request(
                old(cache).classes@,
                CacheKey::class_key(class@),
                outcome,
            ),
        final(cache).classes.resolutions() == old(cache).classes.resolutions() + if old(
            cache,
        ).static_methods@.contains_key(CacheKey::member_key(class@, name@, signature@)) || old(
            cache,
        ).classes@.contains_key(CacheKey::class_key(class@)) {
            0nat
        } else {
            1nat
        },
        exists|outcome: Entry<JStaticMethodID>|
            final(cache).static_methods@ == after_request(
                old(cache).static_methods@,
                CacheKey::member_key(class@, name@, signature@),
                outcome,
            ),
        final(cache).static_methods@.contains_key(CacheKey::member_key(class@, name@, signature@)),
        final(cache).static_methods.resolutions() == old(cache).static_methods.resolutions() + if old(
            cache,
        ).static_methods@.contains_key(CacheKey::member_key(class@, name@, signature@)) {
            0nat
        } else {
            1nat
        },
        match r {
            Ok(id) => final(cache).static_methods@[CacheKey::member_key(class@, name@, signature@)]
                == Entry::Resolved(id),
            Err(e) => e == ConversionError::ResolutionFailure && final(cache).static_methods@[CacheKey::member_key(
                class@,
                name@,
                signature@,
            )] is Failed,
        },
{
    let key = CacheKey::member(class, name, signature);
    let ghost k = key@;
    if cache.static_methods.get(&key).is_none() {
        let entry = match class_of(env, cache, class) {
            Err(_) => Entry::Failed,
            Ok(class) => match get_static_method_id(env, class, name, signature) {
                None => Entry::Failed,
                Some(id) => Entry::Resolved(id),
            },
        };
        cache.static_methods.record(key, entry);
        assert(cache.static_methods@ == after_request(old(cache).static_methods@, k, entry));
    } else {
        assert(cache.static_methods@ == after_request(old(cache).static_methods@, k, Entry::<JStaticMethodID>::Failed));
    }
    let key = CacheKey::member(class, name, signature);
    match cache.static_methods.get(&key) {
        Some(Entry::Resolved(id)) => Ok(*id),
        _ => Err(ConversionError::ResolutionFailure),
    }
}

/// The field of a class with the given name and signature.
///
/// The first request for a member resolves it, through the class, or keeps
/// the failure. Every request is answered from what is kept.
pub fn field_id<'a>(
    env: &JNIEnv<'a>,
    cache: &mut MetadataCache,
    class: &str,
    name: &str,
    signature: &str,
) -> (r: Result<JFieldID, ConversionError>)
    ensures
        final(cache).methods == old(cache).methods,
        final(cache).static_methods == old(cache).static_methods,
        final(cache).static_fields == old(cache).static_fields,
        final(cache).parsed == old(cache).parsed,
        final(cache).keeps(*old(cache)),
        old(cache).fields@.contains_key(CacheKey::member_key(class@, name@, signature@))
            ==> final(cache).classes == old(cache).classes,
        !old(cache).fields@.contains_key(CacheKey::member_key(class@, name@, signature@))
            ==> exists|outcome: Entry<GlobalRef>|
            final(cache).classes@ == after_request(
                old(cache).classes@,
                CacheKey::class_key(class@),
                outcome,
            ),
        final(cache).classes.resolutions() == old(cache).classes.resolutions() + if old(
            cache,
        ).fields@.contains_key(CacheKey::member_key(class@, name@, signature@)) || old(
            cache,
        ).classes@.contains_key(CacheKey::class_key(class@)) {
            0nat
        } else {
            1nat
        },
        exists|outcome: Entry<JFieldID>|
            final(cache).fields@ == after_request(
                old(cache).fields@,
                CacheKey::member_key(class@, name@, signature@),
                outcome,
            ),
        final(cache).fields@.contains_key(CacheKey::member_key(class@, name@, signature@)),
        final(cache).fields.resolutions() == old(cache).fields.resolutions() + if old(
            cache,
        ).fields@.contains_key(CacheKey::member_key(class@, name@, signature@)) {
            0nat
        } else {
            1nat
        },
        match r {
            Ok(id) => final(cache).fields@[CacheKey::member_key(class@, name@, signature@)]
                == Entry::Resolved(id),
            Err(e) => e == ConversionError::ResolutionFailure && final(cache).fields@[CacheKey::member_key(
                class@,
                name@,
                signature@,
            )] is Failed,
        },
{
    let key = CacheKey::member(class, name, signature);
    let ghost k = key@;
    if cache.fields.get(&key).is_none() {
        let entry = match class_of(env, cache, class) {
            Err(_) => Entry::Failed,
            Ok(class) => match get_field_id(env, class, name, signature) {
                None => Entry::Failed,
                Some(id) => Entry::Resolved(id),
            },
        };
        cache.fields.record(key, entry);
        assert(cache.fields@ == after_request(old(cache).fields@, k, entry));
    } else {
        assert(cache.fields@ == after_request(old(cache).fields@, k, Entry::<JFieldID>::Failed));
    }
    let key = CacheKey::member(class, name, signature);
    match cache.fields.get(&key) {
        Some(Entry::Resolved(id)) => Ok(*id),
        _ => Err(ConversionError::ResolutionFailure),
    }
}

/// The static field of a class with the given name and signature.
///
/// The first request for a member resolves it, through the class, or keeps
/// the failure. Every request is answered from what is kept.
pub fn static_field_id<'a>(
    env: &JNIEnv<'a>,
    cache: &mut MetadataCache,
    class: &str,
    name: &str,
    signature: &str,
) -> (r: Result<JStaticFieldID, ConversionError>)
    ensures
        final(cache).methods == old(cache).methods,
        final(cache).static_methods == old(cache).static_methods,
        final(cache).fields == old(cache).fields,
        final(cache).parsed == old(cache).parsed,
        final(cache).keeps(*old(cache)),
        adds_up_to(
            *old(cache),
            *final(cache),
            CacheKey::class_key(class@),
            Table::StaticFields,
            CacheKey::member_key(class@, name@, signature@),
        ),
        old(cache).static_fields@.contains_key(CacheKey::member_key(class@, name@, signature@))
            ==> final(cache).classes == old(cache).classes,
        !old(cache).static_fields@.contains_key(CacheKey::member_key(class@, name@, signature@))
            ==> exists|outcome: Entry<GlobalRef>|
            final(cache).classes@ == after_request(
                old(cache).classes@,
                CacheKey::class_key(class@),
                outcome,
            ),
        final(cache).classes.resolutions() == old(cache).classes.resolutions() + if old(
            cache,
        ).static_fields@.contains_key(CacheKey::member_key(class@, name@, signature@)) || old(
            cache,
        ).classes@.contains_key(CacheKey::class_key(class@)) {
            0nat
        } else {
            1nat
        },
        exists|outcome: Entry<JStaticFieldID>|
            final(cache).static_fields@ == after_request(
                old(cache).static_fields@,
                CacheKey::member_key(class@, name@, signature@),
                outcome,
            ),
        final(cache).static_fields@.contains_key(CacheKey::member_key(class@, name@, signature@)),
        final(cache).static_fields.resolutions() == old(cache).static_fields.resolutions() + if old(
            cache,
        ).static_fields@.contains_key(CacheKey::member_key(class@, name@, signature@)) {
            0nat
        } else {
            1nat
        },
        match r {
            Ok(id) => final(cache).static_fields@[CacheKey::member_key(class@, name@, signature@)]
                == Entry::Resolved(id),
            Err(e) => e == ConversionError::ResolutionFailure && final(cache).static_fields@[CacheKey::member_key(
                class@,
                name@,
                signature@,
            )] is Failed,
        },
{
    let key = CacheKey::member(class, name, signature);
    let ghost k = key@;
    if cache.static_fields.get(&key).is_none() {
        let entry = match class_of(env, cache, class) {
            Err(_) => Entry::Failed,
            Ok(class) => match get_static_field_id(env, class, name, signature) {
                None => Entry::Failed,
                Some(id) => Entry::Resolved(id),
            },
        };
        cache.static_fields.record(key, entry);
        assert(cache.static_fields@ == after_request(old(cache).static_fields@, k, entry));
    } else {
        assert(cache.static_fields@ == after_request(old(cache).static_fields@, k, Entry::<JStaticFieldID>::Failed));
    }
    let key = CacheKey::member(class, name, signature);
    match cache.static_fields.get(&key) {
        Some(Entry::Resolved(id)) => Ok(*id),
        _ => Err(ConversionError::ResolutionFailure),
    }
}

/// An argument of a call into the machine.
pub enum Argument<'a> {
    /// A primitive value. It fits a parameter of its kind.
    Primitive(Primitive),
    /// A reference to any object, or the null reference. It fits a
    /// parameter that takes a generic object.
    Object(JObject<'a>),
    /// An object that was tested to be an instance of a class. It fits a
    /// parameter of that class.
    Instance(Instance<'a>),
}

impl<'a> Argument<'a> {
    /// The type signature of the parameter that the argument fits.
    pub open spec fn text(self) -> Seq<char> {
        match self {
            Argument::Primitive(value) => primitive_signature_spec(value.primitive_kind_spec()),
            Argument::Object(_) => OBJECT_SIGNATURE@,
            Argument::Instance(instance) => instance.class_spec(),
        }
    }
}

/// The type signatures of the parameters that a list of arguments fits, one
/// after the other.
pub open spec fn parameters(args: Seq<Argument>) -> Seq<char>
    decreases args.len(),
{
    if args.len() == 0 {
        Seq::empty()
    } else {
        parameters(args.drop_last()) + args.last().text()
    }
}

/// `JValue::from` of a primitive: the primitive in the form the `jni` crate
/// takes arguments in, the `JValue` of the same kind with the same content,
/// a float or a double rebuilt from its bits.
#[verifier::external_body]
fn jni_primitive<'a>(value: Primitive) -> (v: jni::objects::JValue<'a>) {
    match value {
        Primitive::Boolean(z) => z.into(),
        Primitive::Byte(b) => b.into(),
        Primitive::Char(c) => c.into(),
        Primitive::Short(s) => s.into(),
        Primitive::Int(i) => i.into(),
        Primitive::Long(j) => j.into(),
        Primitive::Float(f) => jni::sys::jfloat::from_bits(f.bits).into(),
        Primitive::Double(d) => jni::sys::jdouble::from_bits(d.bits).into(),
    }
}

/// `JValue::from` of a reference: the reference in the form the `jni` crate
/// takes arguments in, the `JValue` that holds it.
#[verifier::external_body]
fn jni_object<'a>(handle: JObject<'a>) -> (v: jni::objects::JValue<'a>) {
    jni::objects::JValue::from(handle)
}

/// The argument in the form the `jni` crate takes arguments in.
fn jni_argument<'a>(argument: &Argument<'a>) -> (v: jni::objects::JValue<'a>) {
    match argument {
        Argument::Primitive(value) => jni_primitive(*value),
        Argument::Object(handle) => jni_object(*handle),
        Argument::Instance(instance) => jni_object(instance.handle()),
    }
}

/// The value that the `jni` crate handed back, in this library's form: the
/// envelope of the same kind with the same content, a float or a double by
/// its bits.
#[verifier::external_body]
fn library_value<'a>(value: jni::objects::JValue<'a>) -> (v: Envelope<JObject<'a>>) {
    match value {
        jni::objects::JValue::Object(o) => Envelope::Object(o),
        jni::objects::JValue::Byte(b) => Envelope::Byte(b),
        jni::objects::JValue::Char(c) => Envelope::Char(c),
        jni::objects::JValue::Short(s) => Envelope::Short(s),
        jni::objects::JValue::Int(i) => Envelope::Int(i),
        jni::objects::JValue::Long(j) => Envelope::Long(j),
        jni::objects::JValue::Bool(z) => Envelope::Bool(z),
        jni::objects::JValue::Float(f) => Envelope::Float(JFloat { bits: f.to_bits() }),
        jni::objects::JValue::Double(d) => Envelope::Double(JDouble { bits: d.to_bits() }),
        jni::objects::JValue::Void => Envelope::Void,
    }
}

/// `JNIEnv::call_static_method_unchecked`: calls a static method of a class
/// and hands back what the method returned. The crate checks nothing, so
/// the caller brings the class that the method was resolved for, arguments
/// that fit the parameters of the method's signature, and the result type
/// that the signature names.
#[verifier::external_body]
fn call_static_method<'a>(
    env: &JNIEnv<'a>,
    class: &ClassHandle<'a>,
    method: &Member<JStaticMethodID>,
    ret: ReturnType,
    result: &str,
    args: &Vec<Argument<'a>>,
) -> (r: Option<Envelope<JObject<'a>>>)
    requires
        method.key().class == class.signature_spec(),
        method.key().signature == signature_text(parameters(args@), result@),
        Some(ret) == parsed_return_type(result@),
{
    let raw: Vec<jni::sys::jvalue> = args.iter().map(|a| jni_argument(a).to_jni()).collect();
    env.call_static_method_unchecked(class.reference(), *method.id(), ret, &raw)
        .ok()
        .map(library_value)
}

/// `JNIEnv::call_method_unchecked`: calls a method without parameters on an
/// object and hands back what the method returned. The crate checks
/// nothing, so the caller brings an object that was tested to be of the
/// class that the method was resolved for, and the result type that the
/// method's signature names.
#[verifier::external_body]
fn call_method<'a>(
    env: &JNIEnv<'a>,
    object: &Instance<'a>,
    method: &Member<JMethodID>,
    ret: ReturnType,
    result: &str,
) -> (r: Option<Envelope<JObject<'a>>>)
    requires
        method.key().class == object.class_spec(),
        method.key().signature == signature_text(Seq::empty(), result@),
        Some(ret) == parsed_return_type(result@),
{
    env.call_method_unchecked(object.handle(), *method.id(), ret, &[]).ok().map(library_value)
}

/// `JNIEnv::new_object_unchecked`: a new object of a class, made by a
/// constructor from arguments. The crate checks nothing, so the caller
/// brings the class that the constructor was resolved for and arguments
/// that fit the parameters of the constructor's signature.
#[verifier::external_body]
fn new_object<'a>(
    env: &JNIEnv<'a>,
    class: &ClassHandle<'a>,
    constructor: &Member<JMethodID>,
    args: &Vec<Argument<'a>>,
) -> (r: Option<JObject<'a>>)
    requires
        constructor.key().class == class.signature_spec(),
        constructor.key().name == CONSTRUCTOR_NAME@,
        constructor.key().signature == signature_text(parameters(args@), VOID_SIGNATURE@),
{
    let raw: Vec<jni::objects::JValue<'a>> = args.iter().map(jni_argument).collect();
    env.new_object_unchecked(class.reference(), *constructor.id(), &raw).ok()
}

/// `JNIEnv::get_field_unchecked`: what a field of an object holds, read as
/// a type. The crate checks nothing but that the object is not null, so the
/// caller brings an object that was tested to be of the class that the
/// field was resolved for, and the type that the field's signature names.
#[verifier::external_body]
fn get_field<'a>(
    env: &JNIEnv<'a>,
    object: &Instance<'a>,
    field: &Member<JFieldID>,
    ty: ReturnType,
) -> (r: Option<Envelope<JObject<'a>>>)
    requires
        field.key().class == object.class_spec(),
        Some(ty) == parsed_return_type(field.key().signature),
{
    env.get_field_unchecked(object.handle(), *field.id(), ty).ok().map(library_value)
}

/// `JNIEnv::get_static_field_unchecked`: what a static field of a class
/// holds, read as a type. The crate checks nothing, so the caller brings
/// the class that the field was resolved for and the type that the field's
/// signature names.
#[verifier::external_body]
fn get_static_field<'a>(
    env: &JNIEnv<'a>,
    class: &ClassHandle<'a>,
    field: &Member<JStaticFieldID>,
    ty: JavaType,
) -> (r: Option<Envelope<JObject<'a>>>)
    requires
        field.key().class == class.signature_spec(),
        Some(ty) == parsed_java_type(field.key().signature),
{
    env.get_static_field_unchecked(class.reference(), *field.id(), ty).ok().map(library_value)
}

/// `JNIEnv::is_instance_of`: whether an object is an instance of a class.
/// The machine takes the null reference for an instance of every class.
#[verifier::external_body]
fn is_instance_of<'a>(env: &JNIEnv<'a>, object: JObject<'a>, class: JClass<'a>) -> (r: Option<
    bool,
>) {
    env.is_instance_of(object, class).ok()
}

/// `JNIEnv::new_string`: a new Java string with the given text.
#[verifier::external_body]
fn new_string<'a>(env: &JNIEnv<'a>, text: &str) -> (r: Option<JObject<'a>>) {
    env.new_string(text).ok().map(JObject::from)
}

/// `JNIEnv::get_string`: the text of a Java string. The call is for strings
/// only, so the caller brings an object that was tested to be one.
#[verifier::external_body]
fn get_string<'a>(env: &JNIEnv<'a>, text: &Instance<'a>) -> (r: Option<String>)
    requires
        text.class_spec() == STRING_SIGNATURE@,
{
    env.get_string(JString::from(text.handle())).ok().map(String::from)
}

/// `JNIEnv::get_array_length`: the length of a Java array. The caller
/// brings an object that was tested to be a `boolean[]`.
#[verifier::external_body]
fn array_length<'a>(env: &JNIEnv<'a>, array: &Instance<'a>) -> (r: Option<i32>)
    requires
        array.class_spec() == BOOLEAN_ARRAY_SIGNATURE@,
{
    env.get_array_length(array.handle().into_raw()).ok()
}

/// `JNIEnv::get_boolean_array_region`: the first `len` elements of a
/// `boolean[]`, or nothing where the array is shorter. The caller brings an
/// object that was tested to be a `boolean[]`.
#[verifier::external_body]
fn boolean_array_region<'a>(env: &JNIEnv<'a>, array: &Instance<'a>, len: usize) -> (r: Option<
    Vec<u8>,
>)
    requires
        array.class_spec() == BOOLEAN_ARRAY_SIGNATURE@,
    ensures
        r matches Some(units) ==> units@.len() == len,
{
    let mut units = vec![0u8; len];
    env.get_boolean_array_region(array.handle().into_raw(), 0, &mut units).ok().map(|_| units)
}

/// `JNIEnv::set_boolean_array_region`: copies the elements to the front of
/// a `boolean[]`. The machine reports an array that is too short. The
/// caller brings an object that was tested to be a `boolean[]`.
#[verifier::external_body]
fn set_boolean_array_region<'a>(env: &JNIEnv<'a>, array: &Instance<'a>, units: &Vec<u8>) -> (r:
    Option<()>)
    requires
        array.class_spec() == BOOLEAN_ARRAY_SIGNATURE@,
{
    env.set_boolean_array_region(array.handle().into_raw(), 0, units).ok()
}

/// `JList::from_env`: the list behind a reference. The crate looks up the
/// methods of `java.util.List` and does not look at the object, which the
/// later calls are made on; so the caller brings an object that was tested
/// to be a list.
#[verifier::external_body]
fn list_from_env<'a, 'b>(env: &'b JNIEnv<'a>, list: &Instance<'a>) -> (r: Option<JList<'a, 'b>>)
    requires
        list.class_spec() == LIST_INTERFACE_SIGNATURE@,
{
    JList::from_env(env, list.handle()).ok()
}

/// `JList::add`: appends an element to the list.
#[verifier::external_body]
fn list_add<'a, 'b>(list: &JList<'a, 'b>, item: JObject<'a>) -> (r: Option<()>) {
    list.add(item).ok()
}

/// `JList::size`: the number of elements of the list.
#[verifier::external_body]
fn list_size<'a, 'b>(list: &JList<'a, 'b>) -> (r: Option<i32>) {
    list.size().ok()
}

/// `JList::get`: the element of the list at an index.
#[verifier::external_body]
fn list_get<'a, 'b>(list: &JList<'a, 'b>, index: i32) -> (r: Option<JObject<'a>>) {
    list.get(index).ok().flatten()
}

/// The arguments of the method that boxes a primitive: the primitive.
pub fn boxing_arguments<'a>(value: Primitive) -> (args: Vec<Argument<'a>>)
    ensures
        args@ == seq![Argument::<'a>::Primitive(value)],
        parameters(args@) == primitive_signature_spec(value.primitive_kind_spec()),
{
    let mut args: Vec<Argument<'a>> = Vec::new();
    args.push(Argument::Primitive(value));
    proof {
        assert(args@ =~= seq![Argument::<'a>::Primitive(value)]);
        assert(args@.drop_last() =~= Seq::<Argument<'a>>::empty());
        reveal_with_fuel(parameters, 2);
        assert(parameters(args@) =~= primitive_signature_spec(value.primitive_kind_spec()));
    }
    args
}

/// The arguments of the list constructor: the capacity to ask for, which is
/// the number of elements, or the largest capacity there is.
pub fn list_arguments<'a>(len: usize) -> (args: Vec<Argument<'a>>)
    ensures
        args@ == seq![Argument::<'a>::Primitive(Primitive::Int(reported_count(len as nat)))],
        parameters(args@) == primitive_signature_spec(PrimitiveKind::Int),
{
    let mut args: Vec<Argument<'a>> = Vec::new();
    args.push(Argument::Primitive(Primitive::Int(list_capacity(len))));
    proof {
        assert(args@ =~= seq![
            Argument::<'a>::Primitive(Primitive::Int(reported_count(len as nat))),
        ]);
        assert(args@.drop_last() =~= Seq::<Argument<'a>>::empty());
        reveal_with_fuel(parameters, 2);
        assert(parameters(args@) =~= primitive_signature_spec(PrimitiveKind::Int));
    }
    args
}

/// The arguments of the constructor of result objects: the tag, then the
/// payload.
pub fn result_arguments<'a>(tag: i8, payload: JObject<'a>) -> (args: Vec<Argument<'a>>)
    ensures
        args@ == seq![
            Argument::<'a>::Primitive(Primitive::Byte(tag)),
            Argument::<'a>::Object(payload),
        ],
        parameters(args@) == result_parameters_spec(),
{
    let mut args: Vec<Argument<'a>> = Vec::new();
    args.push(Argument::Primitive(Primitive::Byte(tag)));
    args.push(Argument::Object(payload));
    proof {
        let first = seq![Argument::<'a>::Primitive(Primitive::Byte(tag))];
        assert(args@ =~= seq![
            Argument::<'a>::Primitive(Primitive::Byte(tag)),
            Argument::<'a>::Object(payload),
        ]);
        assert(args@.drop_last() =~= first);
        assert(first.drop_last() =~= Seq::<Argument<'a>>::empty());
        reveal_with_fuel(parameters, 3);
        assert(parameters(args@) =~= result_parameters_spec());
    }
    args
}

/// The arguments of the method that makes an array: the component type,
/// then the length.
pub fn array_arguments<'a>(component: Instance<'a>, len: usize) -> (args: Vec<Argument<'a>>)
    requires
        component.class_spec() == CLASS_SIGNATURE@,
    ensures
        args@ == seq![
            Argument::<'a>::Instance(component),
            Argument::<'a>::Primitive(Primitive::Int(reported_count(len as nat))),
        ],
        parameters(args@) == new_array_parameters_spec(),
{
    let mut args: Vec<Argument<'a>> = Vec::new();
    let ghost first = seq![Argument::<'a>::Instance(component)];
    args.push(Argument::Instance(component));
    args.push(Argument::Primitive(Primitive::Int(list_capacity(len))));
    proof {
        assert(args@.drop_last() =~= first);
        assert(first.drop_last() =~= Seq::<Argument<'a>>::empty());
        reveal_with_fuel(parameters, 3);
        assert(parameters(args@) =~= new_array_parameters_spec());
    }
    args
}

/// The arguments of the constructor of a tuple: the parts, each at its own
/// position, as generic objects.
pub fn tuple_arguments<'a>(parts: &Vec<JObject<'a>>) -> (args: Vec<Argument<'a>>)
    ensures
        args@.len() == parts@.len(),
        forall|i: int| 0 <= i < parts@.len() ==> #[trigger] args@[i] == Argument::<'a>::Object(
            parts@[i],
        ),
        parameters(args@) == repeated(OBJECT_SIGNATURE@, parts@.len()),
{
    let mut args: Vec<Argument<'a>> = Vec::new();
    let mut i: usize = 0;
    assert(parameters(args@) =~= repeated(OBJECT_SIGNATURE@, 0));
    while i < parts.len()
        invariant
            i <= parts@.len(),
            args@.len() == i,
            forall|j: int| 0 <= j < i ==> #[trigger] args@[j] == Argument::<'a>::Object(parts@[j]),
            parameters(args@) == repeated(OBJECT_SIGNATURE@, i as nat),
        decreases parts@.len() - i,
    {
        let ghost before = args@;
        args.push(Argument::Object(parts[i]));
        i += 1;
        proof {
            assert(args@.drop_last() =~= before);
        }
    }
    args
}

/// The object reference in what a call handed back. A call that did not
/// complete is reported as such, and a value of another kind than an object
/// as a mismatch that names its kind.
pub fn object_of<'a>(returned: Option<Envelope<JObject<'a>>>) -> (r: Result<
    JObject<'a>,
    ConversionError,
>)
    ensures
        r == match returned {
            None => Err::<JObject<'a>, ConversionError>(ConversionError::ForeignException),
            Some(Envelope::Object(handle)) => Ok::<JObject<'a>, ConversionError>(handle),
            Some(other) => Err::<JObject<'a>, ConversionError>(
                ConversionError::TypeMismatch { expected: Kind::Object, actual: other.kind_spec() },
            ),
        },
{
    match returned {
        None => Err(ConversionError::ForeignException),
        Some(value) => JValueWrapper(value).object(),
    }
}

/// The number of elements to read from an array of which the machine
/// reported a length. A call that did not complete is reported as such, and
/// a negative length as a value that the layout does not allow.
pub fn array_size(reported: Option<i32>) -> (r: Result<usize, ConversionError>)
    ensures
        r == match reported {
            None => Err::<usize, ConversionError>(ConversionError::ForeignException),
            Some(length) => if length < 0 {
                Err::<usize, ConversionError>(ConversionError::InvariantViolation { value: length })
            } else {
                Ok::<usize, ConversionError>(length as usize)
            },
        },
{
    match reported {
        None => Err(ConversionError::ForeignException),
        Some(length) => if length < 0 {
            Err(ConversionError::InvariantViolation { value: length })
        } else {
            Ok(length as usize)
        },
    }
}

/// The indices to read from a list of which the machine reported a size:
/// every index from 0 up to the size, in rising order, and none for a size
/// that is not positive. A call that did not complete is reported.
pub fn indices_to_read(reported: Option<i32>) -> (r: Result<Vec<i32>, ConversionError>)
    ensures
        reported is None ==> r == Err::<Vec<i32>, ConversionError>(
            ConversionError::ForeignException,
        ),
        reported is Some ==> r is Ok,
        reported matches Some(size) ==> r->Ok_0@.len() == (if size > 0 {
            size as nat
        } else {
            0nat
        }),
        r matches Ok(indices) ==> forall|i: int|
            0 <= i < indices@.len() ==> #[trigger] indices@[i] == i,
{
    match reported {
        None => Err(ConversionError::ForeignException),
        Some(size) => {
            let mut indices: Vec<i32> = Vec::new();
            let mut i: i32 = 0;
            while i < size
                invariant
                    0 <= i,
                    size > 0 ==> i <= size,
                    size <= 0 ==> i == 0,
                    indices@.len() == i,
                    forall|j: int| 0 <= j < indices@.len() ==> #[trigger] indices@[j] == j,
                decreases size - i,
            {
                indices.push(i);
                i += 1;
            }
            Ok(indices)
        },
    }
}

/// The object that a call made: a call that did not complete, and one that
/// handed back the null reference where an object was to be made, is
/// reported.
fn made<'a>(returned: Option<JObject<'a>>) -> (r: Result<JObject<'a>, ConversionError>)
    ensures
        r == match returned {
            Some(handle) if !is_null_reference(handle) => Ok::<JObject<'a>, ConversionError>(
                handle,
            ),
            _ => Err::<JObject<'a>, ConversionError>(ConversionError::ForeignException),
        },
{
    match returned {
        None => Err(ConversionError::ForeignException),
        Some(handle) => match nullable(handle) {
            Some(handle) => Ok(handle),
            None => Err(ConversionError::ForeignException),
        },
    }
}

/// The capacity to ask for when a list is made for `len` elements: `len`,
/// or the largest capacity there is.
pub fn list_capacity(len: usize) -> (capacity: i32)
    ensures
        capacity == reported_count(len as nat),
{
    if len <= i32::MAX as usize {
        len as i32
    } else {
        i32::MAX
    }
}

/// The key under which the class that boxes a primitive is kept.
pub open spec fn boxing_class_key(value: Primitive) -> KeyModel {
    CacheKey::class_key(box_class_spec(value.primitive_kind_spec()))
}

/// The key under which the method that boxes a primitive is kept.
pub open spec fn boxing_method_key(value: Primitive) -> KeyModel {
    CacheKey::member_key(
        box_class_spec(value.primitive_kind_spec()),
        BOX_METHOD@,
        box_signature_spec(value.primitive_kind_spec()),
    )
}

/// The tables of classes and members that building an object writes to.
pub enum Table {
    Classes,
    Methods,
    StaticMethods,
    StaticFields,
}

/// Whether a cache got no entry but one for a class and one for a member.
pub open spec fn adds_up_to(
    before: MetadataCache,
    after: MetadataCache,
    class: KeyModel,
    table: Table,
    member: KeyModel,
) -> bool {
    &&& forall|k: KeyModel| #[trigger]
        after.classes@.contains_key(k) ==> before.classes@.contains_key(k) || (Table::Classes
            is Classes && k == class) || (table is Classes && k == member)
    &&& forall|k: KeyModel| #[trigger]
        after.methods@.contains_key(k) ==> before.methods@.contains_key(k) || (Table::Methods
            is Classes && k == class) || (table is Methods && k == member)
    &&& forall|k: KeyModel| #[trigger]
        after.static_methods@.contains_key(k) ==> before.static_methods@.contains_key(k) || (Table::StaticMethods
            is Classes && k == class) || (table is StaticMethods && k == member)
    &&& forall|k: KeyModel| #[trigger]
        after.static_fields@.contains_key(k) ==> before.static_fields@.contains_key(k) || (Table::StaticFields
            is Classes && k == class) || (table is StaticFields && k == member)
}

/// The key of the constructor of a class.
pub open spec fn constructor_key(class: Seq<char>, parameters: Seq<char>) -> KeyModel {
    CacheKey::member_key(class, CONSTRUCTOR_NAME@, signature_text(parameters, VOID_SIGNATURE@))
}

/// The key of the static field that holds the class of `boolean`.
pub open spec fn boolean_type_key() -> KeyModel {
    CacheKey::member_key(
        box_class_spec(PrimitiveKind::Boolean),
        PRIMITIVE_TYPE_FIELD@,
        CLASS_SIGNATURE@,
    )
}

/// The key of the static method that makes an array.
pub open spec fn new_array_key() -> KeyModel {
    CacheKey::member_key(
        ARRAY_SIGNATURE@,
        NEW_ARRAY_METHOD@,
        signature_text(new_array_parameters_spec(), OBJECT_SIGNATURE@),
    )
}

/// Whether building an object asks a table for a key: the classes and
/// members of the object itself, and those of its parts. A build looks up
/// nothing else, so it resolves nothing else.
pub open spec fn build_needs(object: ObjectModel, table: Table, key: KeyModel) -> bool
    decreases object,
{
    match object {
        ObjectModel::Boxed(value) => match table {
            Table::Classes => key == boxing_class_key(value),
            Table::StaticMethods => key == boxing_method_key(value),
            _ => false,
        },
        ObjectModel::BooleanArray(units) => units.len() <= i32::MAX && match table {
            Table::Classes => key == CacheKey::class_key(box_class_spec(PrimitiveKind::Boolean))
                || key == CacheKey::class_key(CLASS_SIGNATURE@) || key == CacheKey::class_key(
                ARRAY_SIGNATURE@,
            ) || key == CacheKey::class_key(BOOLEAN_ARRAY_SIGNATURE@),
            Table::StaticMethods => key == new_array_key(),
            Table::StaticFields => key == boolean_type_key(),
            Table::Methods => false,
        },
        ObjectModel::List(items) => (table is Classes && key == CacheKey::class_key(
            LIST_SIGNATURE@,
        )) || (table is Classes && key == CacheKey::class_key(LIST_INTERFACE_SIGNATURE@)) || (
        table is Methods && key == constructor_key(
            LIST_SIGNATURE@,
            primitive_signature_spec(PrimitiveKind::Int),
        )) || (exists|i: int|
            #![trigger items[i]]
            0 <= i < items.len() && build_needs(items[i], table, key)),
        ObjectModel::Tagged { value, .. } => (table is Classes && key == CacheKey::class_key(
            RESULT_JNI_SIGNATURE@,
        )) || (table is Methods && key == constructor_key(
            RESULT_JNI_SIGNATURE@,
            result_parameters_spec(),
        )) || build_needs(*value, table, key),
        ObjectModel::Tuple(items) => tuple_signature_spec(items.len()) matches Some(signature) && (
        (table is Classes && key == CacheKey::class_key(signature)) || (items.len() == 0
            && table is StaticFields && key == CacheKey::member_key(
            signature,
            INSTANCE_FIELD@,
            OBJECT_SIGNATURE@,
        )) || (items.len() > 0 && table is Methods && key == constructor_key(
            signature,
            repeated(OBJECT_SIGNATURE@, items.len()),
        )) || exists|i: int|
            #![trigger items[i]]
            0 <= i < items.len() && build_needs(items[i], table, key)),
        _ => false,
    }
}

/// Whether building one of the first `count` objects asks a table for a
/// key.
pub open spec fn any_needs(items: Seq<ObjectModel>, count: int, table: Table, key: KeyModel) -> bool {
    exists|i: int|
        #![trigger items[i]]
        0 <= i < count && i < items.len() && build_needs(items[i], table, key)
}

/// Whether a cache got no entry but those that building an object asks for.
pub open spec fn adds_only(before: MetadataCache, after: MetadataCache, object: ObjectModel) -> bool {
    &&& forall|k: KeyModel| #[trigger]
        after.classes@.contains_key(k) ==> before.classes@.contains_key(k) || build_needs(
            object,
            Table::Classes,
            k,
        )
    &&& forall|k: KeyModel| #[trigger]
        after.methods@.contains_key(k) ==> before.methods@.contains_key(k) || build_needs(
            object,
            Table::Methods,
            k,
        )
    &&& forall|k: KeyModel| #[trigger]
        after.static_methods@.contains_key(k) ==> before.static_methods@.contains_key(k) || build_needs(
            object,
            Table::StaticMethods,
            k,
        )
    &&& forall|k: KeyModel| #[trigger]
        after.static_fields@.contains_key(k) ==> before.static_fields@.contains_key(k) || build_needs(
            object,
            Table::StaticFields,
            k,
        )
}

/// Whether a cache got no entry but those that building the first `count`
/// objects asks for.
pub open spec fn adds_only_any(
    before: MetadataCache,
    after: MetadataCache,
    items: Seq<ObjectModel>,
    count: int,
) -> bool {
    &&& forall|k: KeyModel| #[trigger]
        after.classes@.contains_key(k) ==> before.classes@.contains_key(k) || any_needs(
            items,
            count,
            Table::Classes,
            k,
        )
    &&& forall|k: KeyModel| #[trigger]
        after.methods@.contains_key(k) ==> before.methods@.contains_key(k) || any_needs(
            items,
            count,
            Table::Methods,
            k,
        )
    &&& forall|k: KeyModel| #[trigger]
        after.static_methods@.contains_key(k) ==> before.static_methods@.contains_key(k) || any_needs(
            items,
            count,
            Table::StaticMethods,
            k,
        )
    &&& forall|k: KeyModel| #[trigger]
        after.static_fields@.contains_key(k) ==> before.static_fields@.contains_key(k) || any_needs(
            items,
            count,
            Table::StaticFields,
            k,
        )
}

/// Whether a cache has an entry for everything that building an object asks
/// for.
pub open spec fn has_all(cache: MetadataCache, object: ObjectModel) -> bool {
    &&& forall|k: KeyModel| #[trigger]
        build_needs(object, Table::Classes, k) ==> cache.classes@.contains_key(k)
    &&& forall|k: KeyModel| #[trigger]
        build_needs(object, Table::Methods, k) ==> cache.methods@.contains_key(k)
    &&& forall|k: KeyModel| #[trigger]
        build_needs(object, Table::StaticMethods, k) ==> cache.static_methods@.contains_key(k)
    &&& forall|k: KeyModel| #[trigger]
        build_needs(object, Table::StaticFields, k) ==> cache.static_fields@.contains_key(k)
}

/// What building an element of a list asks for, building the list asks
/// for.
pub proof fn lemma_elements_are_needed(items: Seq<ObjectModel>)
    ensures
        forall|table: Table, key: KeyModel| #[trigger]
            any_needs(items, items.len() as int, table, key) ==> build_needs(
                ObjectModel::List(items),
                table,
                key,
            ),
{
    reveal_with_fuel(build_needs, 2);
    assert forall|table: Table, key: KeyModel| #[trigger]
        any_needs(items, items.len() as int, table, key) implies build_needs(
        ObjectModel::List(items),
        table,
        key,
    ) by {
        let i = choose|i: int|
            #![trigger items[i]]
            0 <= i < items.len() && i < items.len() && build_needs(items[i], table, key);
        assert(0 <= i < items.len() && build_needs(items[i], table, key));
        let whole = ObjectModel::List(items);
        assert(whole->List_0 == items);
        assert(exists|j: int|
            #![trigger whole->List_0[j]]
            0 <= j < whole->List_0.len() && build_needs(whole->List_0[j], table, key));
    }
}

/// What building a part of a tuple asks for, building the tuple asks for.
pub proof fn lemma_parts_are_needed(items: Seq<ObjectModel>)
    requires
        tuple_signature_spec(items.len()) is Some,
    ensures
        forall|table: Table, key: KeyModel| #[trigger]
            any_needs(items, items.len() as int, table, key) ==> build_needs(
                ObjectModel::Tuple(items),
                table,
                key,
            ),
{
    reveal_with_fuel(build_needs, 2);
    assert forall|table: Table, key: KeyModel| #[trigger]
        any_needs(items, items.len() as int, table, key) implies build_needs(
        ObjectModel::Tuple(items),
        table,
        key,
    ) by {
        let i = choose|i: int|
            #![trigger items[i]]
            0 <= i < items.len() && i < items.len() && build_needs(items[i], table, key);
        assert(0 <= i < items.len() && build_needs(items[i], table, key));
        assert(exists|j: int|
            #![trigger items[j]]
            0 <= j < items.len() && build_needs(items[j], table, key));
    }
}

/// What building the payload of a result asks for, building the result asks
/// for.
pub proof fn lemma_payload_is_needed(tag: i8, value: ObjectModel)
    ensures
        forall|table: Table, key: KeyModel| #[trigger]
            build_needs(value, table, key) ==> build_needs(
                ObjectModel::Tagged { tag, value: Box::new(value) },
                table,
                key,
            ),
{
    reveal_with_fuel(build_needs, 2);
}

/// A cache that has the list class, the list interface, the list
/// constructor and all that building each element asks for, has all that
/// building the list asks for.
pub proof fn lemma_has_all_of_list(cache: MetadataCache, items: Seq<ObjectModel>)
    requires
        cache.classes@.contains_key(CacheKey::class_key(LIST_SIGNATURE@)),
        cache.classes@.contains_key(CacheKey::class_key(LIST_INTERFACE_SIGNATURE@)),
        cache.methods@.contains_key(
            constructor_key(LIST_SIGNATURE@, primitive_signature_spec(PrimitiveKind::Int)),
        ),
        forall|i: int| 0 <= i < items.len() ==> has_all(cache, #[trigger] items[i]),
    ensures
        has_all(cache, ObjectModel::List(items)),
{
    reveal_with_fuel(build_needs, 2);
    assert forall|k: KeyModel| #[trigger]
        build_needs(ObjectModel::List(items), Table::Classes, k) implies cache.classes@.contains_key(k) by {
        if exists|i: int| #![trigger items[i]] 0 <= i < items.len() && build_needs(items[i], Table::Classes, k) {
            let i = choose|i: int|
                #![trigger items[i]]
                0 <= i < items.len() && build_needs(items[i], Table::Classes, k);
            assert(has_all(cache, items[i]));
        }
    }
    assert forall|k: KeyModel| #[trigger]
        build_needs(ObjectModel::List(items), Table::Methods, k) implies cache.methods@.contains_key(k) by {
        if exists|i: int| #![trigger items[i]] 0 <= i < items.len() && build_needs(items[i], Table::Methods, k) {
            let i = choose|i: int|
                #![trigger items[i]]
                0 <= i < items.len() && build_needs(items[i], Table::Methods, k);
            assert(has_all(cache, items[i]));
        }
    }
    assert forall|k: KeyModel| #[trigger]
        build_needs(ObjectModel::List(items), Table::StaticMethods, k) implies cache.static_methods@.contains_key(k) by {
        if exists|i: int| #![trigger items[i]] 0 <= i < items.len() && build_needs(items[i], Table::StaticMethods, k) {
            let i = choose|i: int|
                #![trigger items[i]]
                0 <= i < items.len() && build_needs(items[i], Table::StaticMethods, k);
            assert(has_all(cache, items[i]));
        }
    }
    assert forall|k: KeyModel| #[trigger]
        build_needs(ObjectModel::List(items), Table::StaticFields, k) implies cache.static_fields@.contains_key(k) by {
        if exists|i: int| #![trigger items[i]] 0 <= i < items.len() && build_needs(items[i], Table::StaticFields, k) {
            let i = choose|i: int|
                #![trigger items[i]]
                0 <= i < items.len() && build_needs(items[i], Table::StaticFields, k);
            assert(has_all(cache, items[i]));
        }
    }
}

/// A cache that has the result class, its constructor and all that building
/// the payload asks for, has all that building the result asks for.
pub proof fn lemma_has_all_of_result(cache: MetadataCache, tag: i8, value: ObjectModel)
    requires
        cache.classes@.contains_key(CacheKey::class_key(RESULT_JNI_SIGNATURE@)),
        cache.methods@.contains_key(
            constructor_key(RESULT_JNI_SIGNATURE@, result_parameters_spec()),
        ),
        has_all(cache, value),
    ensures
        has_all(cache, ObjectModel::Tagged { tag, value: Box::new(value) }),
{
    reveal_with_fuel(build_needs, 2);
    assert forall|k: KeyModel| #[trigger]
        build_needs(ObjectModel::Tagged { tag, value: Box::new(value) }, Table::Classes, k) implies cache.classes@.contains_key(k) by {
        if build_needs(value, Table::Classes, k) {
            assert(has_all(cache, value));
        }
    }
    assert forall|k: KeyModel| #[trigger]
        build_needs(ObjectModel::Tagged { tag, value: Box::new(value) }, Table::Methods, k) implies cache.methods@.contains_key(k) by {
        if build_needs(value, Table::Methods, k) {
            assert(has_all(cache, value));
        }
    }
    assert forall|k: KeyModel| #[trigger]
        build_needs(ObjectModel::Tagged { tag, value: Box::new(value) }, Table::StaticMethods, k) implies cache.static_methods@.contains_key(k) by {
        if build_needs(value, Table::StaticMethods, k) {
            assert(has_all(cache, value));
        }
    }
    assert forall|k: KeyModel| #[trigger]
        build_needs(ObjectModel::Tagged { tag, value: Box::new(value) }, Table::StaticFields, k) implies cache.static_fields@.contains_key(k) by {
        if build_needs(value, Table::StaticFields, k) {
            assert(has_all(cache, value));
        }
    }
}

/// A cache that has the tuple class, its constructor or its one instance,
/// and all that building each part asks for, has all that building the
/// tuple asks for.
pub proof fn lemma_has_all_of_tuple(
    cache: MetadataCache,
    items: Seq<ObjectModel>,
    signature: Seq<char>,
)
    requires
        tuple_signature_spec(items.len()) == Some(signature),
        cache.classes@.contains_key(CacheKey::class_key(signature)),
        items.len() == 0 ==> cache.static_fields@.contains_key(
            CacheKey::member_key(signature, INSTANCE_FIELD@, OBJECT_SIGNATURE@),
        ),
        items.len() > 0 ==> cache.methods@.contains_key(
            constructor_key(signature, repeated(OBJECT_SIGNATURE@, items.len())),
        ),
        forall|i: int| 0 <= i < items.len() ==> has_all(cache, #[trigger] items[i]),
    ensures
        has_all(cache, ObjectModel::Tuple(items)),
{
    reveal_with_fuel(build_needs, 2);
    assert forall|k: KeyModel| #[trigger]
        build_needs(ObjectModel::Tuple(items), Table::Classes, k) implies cache.classes@.contains_key(k) by {
        if exists|i: int| #![trigger items[i]] 0 <= i < items.len() && build_needs(items[i], Table::Classes, k) {
            let i = choose|i: int|
                #![trigger items[i]]
                0 <= i < items.len() && build_needs(items[i], Table::Classes, k);
            assert(has_all(cache, items[i]));
        }
    }
    assert forall|k: KeyModel| #[trigger]
        build_needs(ObjectModel::Tuple(items), Table::Methods, k) implies cache.methods@.contains_key(k) by {
        if exists|i: int| #![trigger items[i]] 0 <= i < items.len() && build_needs(items[i], Table::Methods, k) {
            let i = choose|i: int|
                #![trigger items[i]]
                0 <= i < items.len() && build_needs(items[i], Table::Methods, k);
            assert(has_all(cache, items[i]));
        }
    }
    assert forall|k: KeyModel| #[trigger]
        build_needs(ObjectModel::Tuple(items), Table::StaticMethods, k) implies cache.static_methods@.contains_key(k) by {
        if exists|i: int| #![trigger items[i]] 0 <= i < items.len() && build_needs(items[i], Table::StaticMethods, k) {
            let i = choose|i: int|
                #![trigger items[i]]
                0 <= i < items.len() && build_needs(items[i], Table::StaticMethods, k);
            assert(has_all(cache, items[i]));
        }
    }
    assert forall|k: KeyModel| #[trigger]
        build_needs(ObjectModel::Tuple(items), Table::StaticFields, k) implies cache.static_fields@.contains_key(k) by {
        if exists|i: int| #![trigger items[i]] 0 <= i < items.len() && build_needs(items[i], Table::StaticFields, k) {
            let i = choose|i: int|
                #![trigger items[i]]
                0 <= i < items.len() && build_needs(items[i], Table::StaticFields, k);
            assert(has_all(cache, items[i]));
        }
    }
}

/// What a cache has, it has after anything that keeps its entries.
pub proof fn lemma_has_all_is_kept(before: MetadataCache, after: MetadataCache, object: ObjectModel)
    requires
        has_all(before, object),
        after.keeps(before),
    ensures
        has_all(after, object),
{
}

/// Where a cache has all that building an object asks for, a build of the
/// object adds nothing: every table is after the build what it was before,
/// so no class and no member is looked up again.
pub proof fn lemma_nothing_added(before: MetadataCache, after: MetadataCache, object: ObjectModel)
    requires
        has_all(before, object),
        after.keeps(before),
        adds_only(before, after, object),
    ensures
        after.classes@ == before.classes@,
        after.methods@ == before.methods@,
        after.static_methods@ == before.static_methods@,
        after.static_fields@ == before.static_fields@,
{
    assert(after.classes@ =~= before.classes@);
    assert(after.methods@ =~= before.methods@);
    assert(after.static_methods@ =~= before.static_methods@);
    assert(after.static_fields@ =~= before.static_fields@);
}

/// Boxes a primitive: calls `valueOf` of the class that boxes its kind. What
/// comes back is an object, never the null reference.
///
/// The boxing class is requested from the cache, and then its `valueOf`:
/// each is resolved on the first request for it and never again, and a
/// class that failed to resolve is reported without anything being called.
/// Nothing else in the cache is touched but the parsed signatures.
pub fn box_primitive<'a>(env: &JNIEnv<'a>, cache: &mut MetadataCache, value: Primitive) -> (r:
    Result<JObject<'a>, ConversionError>)
    ensures
        final(cache).keeps(*old(cache)),
        final(cache).methods == old(cache).methods,
        final(cache).fields == old(cache).fields,
        final(cache).static_fields == old(cache).static_fields,
        exists|outcome: Entry<GlobalRef>|
            final(cache).classes@ == after_request(
                old(cache).classes@,
                boxing_class_key(value),
                outcome,
            ),
        final(cache).classes@.contains_key(boxing_class_key(value)),
        final(cache).classes.resolutions() == old(cache).classes.resolutions() + if old(
            cache,
        ).classes@.contains_key(boxing_class_key(value)) {
            0nat
        } else {
            1nat
        },
        final(cache).classes@[boxing_class_key(value)] is Failed ==> r == Err::<
            JObject<'a>,
            ConversionError,
        >(ConversionError::ResolutionFailure),
        final(cache).classes@[boxing_class_key(value)] is Failed ==> final(cache).static_methods
            == old(cache).static_methods,
        final(cache).classes@[boxing_class_key(value)] is Failed ==> final(cache).parsed == old(
            cache,
        ).parsed,
        final(cache).static_methods@ == old(cache).static_methods@ || exists|
            outcome: Entry<JStaticMethodID>,
        |
            final(cache).static_methods@ == after_request(
                old(cache).static_methods@,
                boxing_method_key(value),
                outcome,
            ),
        final(cache).static_methods@.contains_key(boxing_method_key(value))
            && final(cache).static_methods@[boxing_method_key(value)] is Failed ==> r is Err,
        r matches Ok(handle) ==> !is_null_reference(handle),
        r is Ok ==> final(cache).classes@[boxing_class_key(value)] is Resolved,
        r is Ok ==> final(cache).static_methods@.contains_key(boxing_method_key(value)),
        r is Ok ==> final(cache).static_methods@[boxing_method_key(value)] is Resolved,
        r is Ok ==> final(cache).parsed.knows_return_type(
            box_class_spec(value.primitive_kind_spec()),
        ),
        adds_only(*old(cache), *final(cache), ObjectModel::Boxed(value)),
        r is Ok ==> has_all(*final(cache), ObjectModel::Boxed(value)),
{
    let kind = value.primitive_kind();
    let class = ClassHandle::of(env, cache, box_class(kind))?;
    let signature = box_signature(kind);
    let method = Member::static_method(
        env,
        cache,
        box_class(kind),
        BOX_METHOD,
        signature.as_str(),
    )?;
    match cache.parsed.return_type(box_class(kind)) {
        None => Err(ConversionError::ResolutionFailure),
        Some(ret) => {
            let args = boxing_arguments(value);
            let boxed = object_of(
                call_static_method(env, &class, &method, ret, box_class(kind), &args),
            )?;
            made(Some(boxed))
        },
    }
}

/// Whether a class was requested from the cache on the way to an outcome:
/// the class has its entry, and where the entry says that the class could
/// not be resolved, the outcome is that failure.
pub open spec fn requested<V>(
    cache: MetadataCache,
    class: Seq<char>,
    outcome: Result<V, ConversionError>,
) -> bool {
    &&& cache.classes@.contains_key(CacheKey::class_key(class))
    &&& cache.classes@[CacheKey::class_key(class)] is Failed ==> outcome == Err::<
        V,
        ConversionError,
    >(ConversionError::ResolutionFailure)
}

/// Whether a class has an entry that holds it.
pub open spec fn resolved(cache: MetadataCache, class: Seq<char>) -> bool {
    &&& cache.classes@.contains_key(CacheKey::class_key(class))
    &&& cache.classes@[CacheKey::class_key(class)] is Resolved
}

/// What the class test says of an object that was to be of a class: a test
/// that did not complete is reported as such, and an object of another
/// class as a mismatch with the kind that was expected.
pub fn instance_checked(answer: Option<bool>, expected: Kind) -> (r: Result<(), ConversionError>)
    ensures
        r == match answer {
            None => Err::<(), ConversionError>(ConversionError::ForeignException),
            Some(true) => Ok::<(), ConversionError>(()),
            Some(false) => Err::<(), ConversionError>(
                ConversionError::TypeMismatch { expected, actual: Kind::Object },
            ),
        },
{
    match answer {
        None => Err(ConversionError::ForeignException),
        Some(true) => Ok(()),
        Some(false) => Err(ConversionError::mismatch(expected, Kind::Object)),
    }
}

/// The primitive of a kind in what an unboxing call handed back. A call
/// that did not complete is reported as such, and a value of another kind
/// as a mismatch that names both kinds.
pub fn unboxed<'a>(returned: Option<Envelope<JObject<'a>>>, kind: PrimitiveKind) -> (r: Result<
    Primitive,
    ConversionError,
>)
    ensures
        r == match returned {
            None => Err::<Primitive, ConversionError>(ConversionError::ForeignException),
            Some(value) => match value.primitive_spec() {
                Some(p) if p.primitive_kind_spec() == kind => Ok::<Primitive, ConversionError>(p),
                _ => Err::<Primitive, ConversionError>(
                    ConversionError::TypeMismatch {
                        expected: kind.kind_spec(),
                        actual: value.kind_spec(),
                    },
                ),
            },
        },
{
    match returned {
        None => Err(ConversionError::ForeignException),
        Some(envelope) => match envelope.primitive() {
            Some(p) => if p.primitive_kind() == kind {
                Ok(p)
            } else {
                Err(ConversionError::mismatch(kind.kind(), envelope.kind()))
            },
            None => Err(ConversionError::mismatch(kind.kind(), envelope.kind())),
        },
    }
}

/// Tests that a reference is not null and refers to an instance of a
/// class, before anything is read from the object as one of that class. A
/// null reference, and an object of another class, is reported as a
/// mismatch with the kind that was expected.
pub fn expect_instance<'a>(
    env: &JNIEnv<'a>,
    cache: &mut MetadataCache,
    handle: JObject<'a>,
    class: &str,
    expected: Kind,
) -> (r: Result<(), ConversionError>)
    ensures
        is_null_reference(handle) ==> r == Err::<(), ConversionError>(
            ConversionError::TypeMismatch { expected, actual: Kind::Null },
        ),
        is_null_reference(handle) ==> *final(cache) == *old(cache),
        r is Ok ==> !is_null_reference(handle),
        !is_null_reference(handle) ==> requested(*final(cache), class@, r),
        final(cache).keeps(*old(cache)),
        adds_up_to(
            *old(cache),
            *final(cache),
            CacheKey::class_key(class@),
            Table::Classes,
            CacheKey::class_key(class@),
        ),
        final(cache).methods == old(cache).methods,
        final(cache).static_methods == old(cache).static_methods,
        final(cache).fields == old(cache).fields,
        final(cache).static_fields == old(cache).static_fields,
        final(cache).parsed == old(cache).parsed,
{
    if is_null(handle) {
        return Err(ConversionError::mismatch(expected, Kind::Null));
    }
    let class = class_of(env, cache, class)?;
    instance_checked(is_instance_of(env, handle, class), expected)
}

/// Takes the primitive of a kind out of its box: calls the accessor of the
/// class that boxes the kind. A null reference, an object of another class,
/// or an answer of another kind, is reported.
pub fn unbox_primitive<'a>(
    env: &JNIEnv<'a>,
    cache: &mut MetadataCache,
    handle: JObject<'a>,
    kind: PrimitiveKind,
) -> (r: Result<Primitive, ConversionError>)
    ensures
        r matches Ok(p) ==> p.primitive_kind_spec() == kind,
        is_null_reference(handle) ==> r == Err::<Primitive, ConversionError>(
            ConversionError::TypeMismatch { expected: kind.kind_spec(), actual: Kind::Null },
        ),
        is_null_reference(handle) ==> *final(cache) == *old(cache),
        !is_null_reference(handle) ==> requested(*final(cache), box_class_spec(kind), r),
        final(cache).keeps(*old(cache)),
{
    let object = Instance::expect(env, cache, handle, box_class(kind), kind.kind())?;
    let signature = unbox_signature(kind);
    let method = Member::method(
        env,
        cache,
        box_class(kind),
        unbox_method(kind),
        signature.as_str(),
    )?;
    match cache.parsed.return_type(primitive_signature(kind)) {
        None => Err(ConversionError::ResolutionFailure),
        Some(ret) => unboxed(
            call_method(env, &object, &method, ret, primitive_signature(kind)),
            kind,
        ),
    }
}

/// Makes a `boolean[]` that holds the given elements.
///
/// The array is made by `java.lang.reflect.Array.newInstance` for the
/// component type `Boolean.TYPE`, which hands it back as an object
/// reference, and is then filled in one piece. An array longer than a Java
/// array can be is reported.
pub fn new_boolean_array<'a>(env: &JNIEnv<'a>, cache: &mut MetadataCache, units: &Vec<u8>) -> (r:
    Result<JObject<'a>, ConversionError>)
    ensures
        units@.len() > i32::MAX ==> r == Err::<JObject<'a>, ConversionError>(
            ConversionError::InvariantViolation { value: i32::MAX },
        ),
        units@.len() > i32::MAX ==> *final(cache) == *old(cache),
        units@.len() <= i32::MAX ==> requested(
            *final(cache),
            box_class_spec(PrimitiveKind::Boolean),
            r,
        ),
        r matches Ok(handle) ==> !is_null_reference(handle),
        final(cache).keeps(*old(cache)),
        final(cache).methods == old(cache).methods,
        final(cache).fields == old(cache).fields,
        adds_only(*old(cache), *final(cache), ObjectModel::BooleanArray(units@)),
        r is Ok ==> has_all(*final(cache), ObjectModel::BooleanArray(units@)),
{
    if units.len() > i32::MAX as usize {
        return Err(ConversionError::InvariantViolation { value: i32::MAX });
    }
    let boxing = box_class(PrimitiveKind::Boolean);
    let boxing_class = ClassHandle::of(env, cache, boxing)?;
    let type_field = Member::static_field(
        env,
        cache,
        boxing,
        PRIMITIVE_TYPE_FIELD,
        CLASS_SIGNATURE,
    )?;
    let component = match cache.parsed.java_type(CLASS_SIGNATURE) {
        None => return Err(ConversionError::ResolutionFailure),
        Some(ty) => object_of(get_static_field(env, &boxing_class, &type_field, ty))?,
    };
    let component = Instance::expect(env, cache, component, CLASS_SIGNATURE, Kind::Object)?;
    assert(adds_only(*old(cache), *cache, ObjectModel::BooleanArray(units@)));
    let arrays = ClassHandle::of(env, cache, ARRAY_SIGNATURE)?;
    let signature = new_array_signature();
    let method = Member::static_method(
        env,
        cache,
        ARRAY_SIGNATURE,
        NEW_ARRAY_METHOD,
        signature.as_str(),
    )?;
    assert(adds_only(*old(cache), *cache, ObjectModel::BooleanArray(units@)));
    let ret = match cache.parsed.return_type(OBJECT_SIGNATURE) {
        None => return Err(ConversionError::ResolutionFailure),
        Some(ret) => ret,
    };
    let args = array_arguments(component, units.len());
    let made_array = object_of(
        call_static_method(env, &arrays, &method, ret, OBJECT_SIGNATURE, &args),
    )?;
    let array = Instance::expect(
        env,
        cache,
        made_array,
        BOOLEAN_ARRAY_SIGNATURE,
        Kind::BooleanArray,
    )?;
    assert(adds_only(*old(cache), *cache, ObjectModel::BooleanArray(units@)));
    match set_boolean_array_region(env, &array, units) {
        Some(_) => Ok(array.handle()),
        None => Err(ConversionError::ForeignException),
    }
}

/// The class that is requested first when an object is built, for the
/// objects that are instances of a class of their own: the boxing class of
/// a primitive, the list class, the result class, the tuple class of the
/// arity, and the class that boxes `boolean` for a `boolean[]`, whose
/// component type it holds.
pub open spec fn class_built(object: ObjectModel) -> Option<Seq<char>> {
    match object {
        ObjectModel::Boxed(value) => Some(box_class_spec(value.primitive_kind_spec())),
        ObjectModel::BooleanArray(units) => if units.len() <= i32::MAX {
            Some(box_class_spec(PrimitiveKind::Boolean))
        } else {
            None
        },
        ObjectModel::List(_) => Some(LIST_SIGNATURE@),
        ObjectModel::Tagged { .. } => Some(RESULT_JNI_SIGNATURE@),
        ObjectModel::Tuple(items) => tuple_signature_spec(items.len()),
        _ => None,
    }
}

/// Builds an object in the virtual machine.
///
/// The null reference is handed back for [`JavaObject::Null`], and an
/// object that is passed through is handed back as the reference it came
/// as; nothing is asked of the machine for either. Every other object is
/// built from its
/// parts, inside out and front to back, and what is handed back for it is
/// never the null reference; the first call that does not complete ends the
/// work and is reported. A tuple of an arity without a
/// class cannot be built, and is reported.
pub fn materialize<'a>(env: &JNIEnv<'a>, cache: &mut MetadataCache, object: &JavaObject<'a>) -> (r:
    Result<JObject<'a>, ConversionError>)
    ensures
        object@ is Null ==> (r matches Ok(handle) && is_null_reference(handle)),
        object@ is Null ==> *final(cache) == *old(cache),
        object@ matches ObjectModel::Reference(reference) ==> r == Ok::<
            JObject<'a>,
            ConversionError,
        >(reference.handle),
        object@ is Reference ==> *final(cache) == *old(cache),
        !(object@ is Null) && !(object@ is Reference) ==> (r matches Ok(handle)
            ==> !is_null_reference(handle)),
        object@ matches ObjectModel::BooleanArray(units) && units.len() > i32::MAX ==> r == Err::<
            JObject<'a>,
            ConversionError,
        >(ConversionError::InvariantViolation { value: i32::MAX }),
        final(cache).keeps(*old(cache)),
        final(cache).fields == old(cache).fields,
        object@ matches ObjectModel::Tuple(items) && items.len()
            > MAX_TUPLE_ARITY ==> r == Err::<JObject<'a>, ConversionError>(
            ConversionError::ResolutionFailure,
        ),
        class_built(object@) matches Some(class) ==> requested(*final(cache), class, r),
        r matches Ok(handle) ==> handed_over(object@, handle),
        adds_only(*old(cache), *final(cache), object@),
        r is Ok ==> has_all(*final(cache), object@),
    decreases object,
{
    match object {
        JavaObject::Null => Ok(reference_of(None)),
        JavaObject::Boxed(value) => box_primitive(env, cache, *value),
        JavaObject::Text(text) => made(new_string(env, text.as_str())),
        JavaObject::BooleanArray(units) => new_boolean_array(env, cache, units),
        JavaObject::Reference(reference) => Ok(reference.handle),
        JavaObject::List(items) => {
            proof {
                lemma_list_model(*items);
            }
            let class = ClassHandle::of(env, cache, LIST_SIGNATURE)?;
            let signature = list_constructor_signature();
            let constructor = Member::method(
                env,
                cache,
                LIST_SIGNATURE,
                CONSTRUCTOR_NAME,
                signature.as_str(),
            )?;
            proof {
                assert(object->List_0 == *items);
                assert(decreases_to!(*object => object->List_0));
            }
            let ghost before = *cache;
            let built = materialize_all(env, cache, items);
            proof {
                lemma_elements_are_needed(models_of(items@));
                assert(adds_only(before, *cache, object@));
                assert(adds_only(*old(cache), *cache, object@));
            }
            let handles = built?;
            let ghost parts_built = *cache;
            let args = list_arguments(items.len());
            let made_list = made(new_object(env, &class, &constructor, &args))?;
            let made_list = Instance::expect(
                env,
                cache,
                made_list,
                LIST_INTERFACE_SIGNATURE,
                Kind::List,
            )?;
            proof {
                assert(adds_only(*old(cache), *cache, object@));
                assert forall|i: int| 0 <= i < items@.len() implies has_all(
                    *cache,
                    #[trigger] models_of(items@)[i],
                ) by {
                    lemma_has_all_is_kept(parts_built, *cache, models_of(items@)[i]);
                }
                lemma_has_all_of_list(*cache, models_of(items@));
            }
            match list_from_env(env, &made_list) {
                Some(list) => {
                    add_all(&list, &handles)?;
                    Ok(made_list.handle())
                },
                None => Err(ConversionError::ForeignException),
            }
        },
        JavaObject::Tagged { tag, value } => {
            let class = ClassHandle::of(env, cache, RESULT_JNI_SIGNATURE)?;
            let signature = result_constructor_signature();
            let constructor = Member::method(
                env,
                cache,
                RESULT_JNI_SIGNATURE,
                CONSTRUCTOR_NAME,
                signature.as_str(),
            )?;
            let ghost before = *cache;
            let built = materialize(env, cache, value);
            proof {
                lemma_payload_is_needed(*tag, value@);
                assert(adds_only(before, *cache, object@));
            }
            let payload = built?;
            proof {
                lemma_has_all_of_result(*cache, *tag, value@);
            }
            let args = result_arguments(*tag, payload);
            made(new_object(env, &class, &constructor, &args))
        },
        JavaObject::Tuple(items) => {
            proof {
                lemma_tuple_model(*items);
            }
            let signature = match tuple_signature(items.len()) {
                Some(signature) => signature,
                None => return Err(ConversionError::ResolutionFailure),
            };
            let class = ClassHandle::of(env, cache, signature)?;
            if items.len() == 0 {
                let field = Member::static_field(
                    env,
                    cache,
                    signature,
                    INSTANCE_FIELD,
                    OBJECT_SIGNATURE,
                )?;
                proof {
                    lemma_has_all_of_tuple(*cache, models_of(items@), signature@);
                }
                return match cache.parsed.java_type(OBJECT_SIGNATURE) {
                    None => Err(ConversionError::ResolutionFailure),
                    Some(ty) => made(Some(object_of(get_static_field(env, &class, &field, ty))?)),
                };
            }
            let constructor_signature = tuple_constructor_signature(items.len());
            let constructor = Member::method(
                env,
                cache,
                signature,
                CONSTRUCTOR_NAME,
                constructor_signature.as_str(),
            )?;
            proof {
                assert(object->Tuple_0 == *items);
                assert(decreases_to!(*object => object->Tuple_0));
            }
            let ghost before = *cache;
            let built = materialize_all(env, cache, items);
            proof {
                lemma_parts_are_needed(models_of(items@));
                assert(adds_only(before, *cache, object@));
                assert(adds_only(*old(cache), *cache, object@));
            }
            let handles = built?;
            proof {
                lemma_has_all_of_tuple(*cache, models_of(items@), signature@);
            }
            let args = tuple_arguments(&handles);
            made(new_object(env, &class, &constructor, &args))
        },
    }
}

/// Appends the references to a list, front to back: the reference at
/// position 0 first. The first call that does not complete ends the work
/// and is reported.
fn add_all<'a, 'b>(list: &JList<'a, 'b>, handles: &Vec<JObject<'a>>) -> (r: Result<
    (),
    ConversionError,
>)
    ensures
        handles@.len() == 0 ==> r is Ok,
        r matches Err(e) ==> e == ConversionError::ForeignException,
{
    let mut i: usize = 0;
    while i < handles.len()
        invariant
            i <= handles@.len(),
        decreases handles@.len() - i,
    {
        if list_add(list, handles[i]).is_none() {
            return Err(ConversionError::ForeignException);
        }
        i += 1;
    }
    Ok(())
}

/// Whether a reference is what is handed over for an object: the null
/// reference for the null object, the reference itself for an object that
/// is passed through, and an object for every other.
pub open spec fn handed_over(object: ObjectModel, handle: JObject) -> bool {
    match object {
        ObjectModel::Null => is_null_reference(handle),
        ObjectModel::Reference(reference) => handle == reference.handle,
        _ => !is_null_reference(handle),
    }
}

/// Builds each object of a list in the virtual machine, front to back, and
/// hands out the references in the same order: the reference at a position
/// is the one for the object at that position. The first object that cannot
/// be built ends the work and is reported.
pub fn materialize_all<'a>(
    env: &JNIEnv<'a>,
    cache: &mut MetadataCache,
    items: &Vec<JavaObject<'a>>,
) -> (r: Result<Vec<JObject<'a>>, ConversionError>)
    ensures
        final(cache).keeps(*old(cache)),
        final(cache).fields == old(cache).fields,
        items@.len() == 0 ==> r is Ok && *final(cache) == *old(cache),
        r matches Ok(handles) ==> handles@.len() == items@.len() && forall|i: int|
            0 <= i < items@.len() ==> handed_over(items@[i]@, #[trigger] handles@[i]),
        adds_only_any(*old(cache), *final(cache), models_of(items@), items@.len() as int),
        r is Ok ==> forall|i: int|
            0 <= i < items@.len() ==> has_all(*final(cache), #[trigger] models_of(items@)[i]),
    decreases items,
{
    let mut handles: Vec<JObject<'a>> = Vec::new();
    let mut i: usize = 0;
    while i < items.len()
        invariant
            i <= items@.len(),
            handles@.len() == i,
            cache.keeps(*old(cache)),
            cache.fields == old(cache).fields,
            i == 0 ==> *cache == *old(cache),
            forall|j: int| 0 <= j < i ==> handed_over(items@[j]@, #[trigger] handles@[j]),
            adds_only_any(*old(cache), *cache, models_of(items@), i as int),
            forall|j: int| 0 <= j < i ==> has_all(*cache, #[trigger] models_of(items@)[j]),
        decreases items@.len() - i,
    {
        proof {
            assert(decreases_to!(*items => items@[i as int]));
        }
        let ghost before = *cache;
        let ghost models = models_of(items@);
        let outcome = materialize(env, cache, &items[i]);
        proof {
            assert(models[i as int] == items@[i as int]@);
            assert(adds_only(before, *cache, models[i as int]));
            assert(adds_only_any(*old(cache), *cache, models, i + 1));
            if outcome is Ok {
                assert forall|j: int| 0 <= j < i + 1 implies has_all(*cache, #[trigger] models[j]) by {
                    if j < i {
                        lemma_has_all_is_kept(before, *cache, models[j]);
                    }
                }
            }
        }
        let handle = outcome?;
        handles.push(handle);
        i += 1;
    }
    Ok(handles)
}

/// The number of parts, where a tuple can have that many.
fn count_parts(parts: &Parts) -> (n: Option<usize>)
    ensures
        match n {
            Some(n) => n == parts.len() && n <= MAX_TUPLE_ARITY,
            None => parts.len() > MAX_TUPLE_ARITY,
        },
    decreases parts,
{
    match parts {
        Parts::End => Some(0),
        Parts::Part(_, rest) => match count_parts(rest) {
            Some(n) => if n < MAX_TUPLE_ARITY {
                Some(n + 1)
            } else {
                None
            },
            None => None,
        },
    }
}

/// Reads the fields of a tuple object from position `index` on, one for
/// each part, and appends what they hold to `out`.
fn observe_parts<'a>(
    env: &JNIEnv<'a>,
    cache: &mut MetadataCache,
    object: &Instance<'a>,
    signature: &str,
    parts: &Parts,
    index: usize,
    out: &mut Vec<JavaObject<'a>>,
) -> (r: Result<(), ConversionError>)
    requires
        old(out)@.len() == index,
        object.class_spec() == signature@,
    ensures
        final(cache).keeps(*old(cache)),
        *parts is End ==> r is Ok && final(out)@ == old(out)@,
        *parts is End ==> *final(cache) == *old(cache),
        r is Ok ==> final(out)@.len() == index + parts.len(),
        r is Ok ==> forall|i: int| 0 <= i < index ==> final(out)@[i] == old(out)@[i],
        r is Ok ==> forall|whole: Seq<ObjectModel<'a>>|
            whole.len() >= final(out)@.len() && (forall|i: int|
                index <= i < final(out)@.len() ==> whole[i] == final(out)@[i]@)
                ==> #[trigger] conform_from(whole.take(final(out)@.len() as int), *parts, index as int),
    decreases parts, 0nat,
{
    match parts {
        Parts::End => {
            assert forall|whole: Seq<ObjectModel<'a>>|
                whole.len() >= out@.len() implies #[trigger] conform_from(
                whole.take(out@.len() as int),
                *parts,
                index as int,
            ) by {}
            Ok(())
        },
        Parts::Part(shape, rest) => {
            let name = match tuple_field(index) {
                Some(name) => name,
                None => return Err(ConversionError::ResolutionFailure),
            };
            let field = Member::field(env, cache, signature, name, OBJECT_SIGNATURE)?;
            let ret = match cache.parsed.return_type(OBJECT_SIGNATURE) {
                Some(ret) => ret,
                None => return Err(ConversionError::ResolutionFailure),
            };
            let part = object_of(get_field(env, object, &field, ret))?;
            let value = observe(env, cache, part, shape)?;
            let ghost first = value@;
            out.push(value);
            let ghost middle = out@;
            observe_parts(env, cache, object, signature, rest, index + 1, out)?;
            proof {
                assert(out@[index as int] == middle[index as int]);
                assert forall|whole: Seq<ObjectModel<'a>>|
                    whole.len() >= out@.len() && (forall|i: int|
                        index <= i < out@.len() ==> whole[i] == out@[i]@) implies #[trigger] conform_from(
                    whole.take(out@.len() as int),
                    *parts,
                    index as int,
                ) by {
                    let cut = whole.take(out@.len() as int);
                    assert(cut[index as int] == first);
                    assert(conform_from(cut, **rest, index + 1));
                }
            }
            Ok(())
        },
    }
}

/// The class that an object is tested against before anything is read from
/// it in a shape: the boxing class of the kind, the string class, the class
/// of `boolean[]`, the list interface, the result class, and the tuple
/// class of the arity. Nothing is tested for an object of unknown shape, for
/// the empty tuple, and where the null reference is allowed.
pub open spec fn class_read(shape: Shape) -> Option<Seq<char>> {
    match shape {
        Shape::Boxed(kind) => Some(box_class_spec(kind)),
        Shape::Text => Some(STRING_SIGNATURE@),
        Shape::BooleanArray => Some(BOOLEAN_ARRAY_SIGNATURE@),
        Shape::List(_) => Some(LIST_INTERFACE_SIGNATURE@),
        Shape::Tagged(_, _) => Some(RESULT_JNI_SIGNATURE@),
        Shape::Tuple(parts) => if 1 <= parts.len() {
            tuple_signature_spec(parts.len())
        } else {
            None
        },
        _ => None,
    }
}

/// What was read, with the object taken by its model.
pub open spec fn observed<'a>(r: Result<JavaObject<'a>, ConversionError>) -> Result<
    ObjectModel<'a>,
    ConversionError,
> {
    match r {
        Ok(o) => Ok(o@),
        Err(e) => Err(e),
    }
}

/// What the null reference is read as, for each shape. It is the null
/// object where the shape allows one, the empty tuple where the shape is
/// that of the empty tuple, and a mismatch that names the kind that was
/// expected everywhere else. Nothing is asked of the machine to tell.
pub open spec fn null_outcome<'a>(shape: Shape) -> Result<ObjectModel<'a>, ConversionError> {
    match shape {
        Shape::Opaque => Ok(ObjectModel::Null),
        Shape::Nullable(_) => Ok(ObjectModel::Null),
        Shape::Boxed(kind) => Err(
            ConversionError::TypeMismatch { expected: kind.kind_spec(), actual: Kind::Null },
        ),
        Shape::Text => Err(
            ConversionError::TypeMismatch { expected: Kind::Text, actual: Kind::Null },
        ),
        Shape::BooleanArray => Err(
            ConversionError::TypeMismatch { expected: Kind::BooleanArray, actual: Kind::Null },
        ),
        Shape::List(_) => Err(
            ConversionError::TypeMismatch { expected: Kind::List, actual: Kind::Null },
        ),
        Shape::Tagged(_, _) => Err(
            ConversionError::TypeMismatch { expected: Kind::Tagged, actual: Kind::Null },
        ),
        Shape::Tuple(parts) => if parts.len() == 0 {
            Ok(ObjectModel::Tuple(Seq::empty()))
        } else if parts.len() > MAX_TUPLE_ARITY {
            Err(ConversionError::ResolutionFailure)
        } else {
            Err(ConversionError::TypeMismatch { expected: Kind::Tuple, actual: Kind::Null })
        },
    }
}

/// Reads from the virtual machine what an object of a known shape holds.
///
/// What comes back has the shape that was asked for. An object of unknown
/// shape is handed out as the reference to it, as it is. A null reference is
/// [`JavaObject::Null`] where the shape allows it, and is reported where an
/// object is needed; so is an object of another class than the shape asks
/// for, before anything is read from it. A result object with a tag other than 0 and 1 is
/// reported. The empty tuple is not read at all: every reference stands for
/// it. Lists and tuples are read front to back, and the first call that does
/// not complete ends the work and is reported.
pub fn observe<'a>(
    env: &JNIEnv<'a>,
    cache: &mut MetadataCache,
    handle: JObject<'a>,
    shape: &Shape,
) -> (r: Result<JavaObject<'a>, ConversionError>)
    ensures
        final(cache).keeps(*old(cache)),
        r matches Ok(o) ==> conforms(o@, *shape),
        is_null_reference(handle) ==> observed(r) == null_outcome(*shape),
        is_null_reference(handle) ==> *final(cache) == *old(cache),
        !is_null_reference(handle) ==> (class_read(*shape) matches Some(class) ==> requested(
            *final(cache),
            class,
            r,
        )),
        *shape is Opaque && !is_null_reference(handle) ==> observed(r) == Ok::<
            ObjectModel<'a>,
            ConversionError,
        >(ObjectModel::Reference((Reference { handle }))),
        *shape is Opaque ==> *final(cache) == *old(cache),
        *shape matches Shape::Tuple(parts) && parts.len() > MAX_TUPLE_ARITY ==> r == Err::<
            JavaObject<'a>,
            ConversionError,
        >(ConversionError::ResolutionFailure),
        is_null_reference(handle) && *shape is Nullable ==> (r matches Ok(o) && o@ is Null),
        r matches Ok(o) ==> (o@ is Null <==> is_null_reference(handle) && (*shape is Nullable
            || *shape is Opaque)),
        *shape == Shape::Tuple(Box::new(Parts::End)) ==> (r matches Ok(o) && o@
            == ObjectModel::Tuple(Seq::empty())),
    decreases shape, 1nat,
{
    match shape {
        Shape::Opaque => match nullable(handle) {
            None => Ok(JavaObject::Null),
            Some(handle) => Ok(JavaObject::Reference(Reference { handle })),
        },
        Shape::Boxed(kind) => {
            let value = unbox_primitive(env, cache, handle, *kind)?;
            Ok(JavaObject::Boxed(value))
        },
        Shape::Text => {
            let text = Instance::expect(env, cache, handle, STRING_SIGNATURE, Kind::Text)?;
            match get_string(env, &text) {
                Some(text) => Ok(JavaObject::Text(text)),
                None => Err(ConversionError::ForeignException),
            }
        },
        Shape::BooleanArray => {
            let array = Instance::expect(
                env,
                cache,
                handle,
                BOOLEAN_ARRAY_SIGNATURE,
                Kind::BooleanArray,
            )?;
            let len = array_size(array_length(env, &array))?;
            match boolean_array_region(env, &array, len) {
                Some(units) => Ok(JavaObject::BooleanArray(units)),
                None => Err(ConversionError::ForeignException),
            }
        },
        Shape::List(element) => {
            let object = Instance::expect(
                env,
                cache,
                handle,
                LIST_INTERFACE_SIGNATURE,
                Kind::List,
            )?;
            let list = match list_from_env(env, &object) {
                Some(list) => list,
                None => return Err(ConversionError::ForeignException),
            };
            let indices = indices_to_read(list_size(&list))?;
            let mut items: Vec<JavaObject<'a>> = Vec::new();
            let mut i: usize = 0;
            while i < indices.len()
                invariant
                    i <= indices@.len(),
                    items@.len() == i,
                    cache.keeps(*old(cache)),
                    !is_null_reference(handle),
                    resolved(*cache, LIST_INTERFACE_SIGNATURE@),
                    *shape == Shape::List(*element),
                    forall|j: int| 0 <= j < items@.len() ==> conforms(#[trigger] items@[j]@, **element),
                decreases indices@.len() - i,
            {
                let item = match list_get(&list, indices[i]) {
                    Some(item) => item,
                    None => return Err(ConversionError::ForeignException),
                };
                proof {
                    assert(shape->List_0 == *element);
                    assert(decreases_to!(*shape => shape->List_0));
                }
                let value = observe(env, cache, item, element)?;
                items.push(value);
                i += 1;
            }
            proof {
                lemma_list_model(items);
                let models = models_of(items@);
                assert forall|j: int| 0 <= j < models.len() implies conforms(
                    #[trigger] models[j],
                    **element,
                ) by {
                    assert(models[j] == items@[j]@);
                }
            }
            Ok(JavaObject::List(items))
        },
        Shape::Nullable(inner) => if is_null(handle) {
            Ok(JavaObject::Null)
        } else {
            observe(env, cache, handle, inner)
        },
        Shape::Tagged(ok, err) => {
            let object = Instance::expect(
                env,
                cache,
                handle,
                RESULT_JNI_SIGNATURE,
                Kind::Tagged,
            )?;
            let tag_field = Member::field(
                env,
                cache,
                RESULT_JNI_SIGNATURE,
                TAG_FIELD,
                TAG_FIELD_SIGNATURE,
            )?;
            let tag_type = match cache.parsed.return_type(TAG_FIELD_SIGNATURE) {
                Some(ty) => ty,
                None => return Err(ConversionError::ResolutionFailure),
            };
            let tag: i8 = match get_field(env, &object, &tag_field, tag_type) {
                None => return Err(ConversionError::ForeignException),
                Some(value) => match <i8 as TryFrom<JValueWrapper<JObject<'a>>>>::try_from(
                    JValueWrapper(value),
                ) {
                    Ok(tag) => tag,
                    Err(e) => return Err(e),
                },
            };
            let value_field = Member::field(
                env,
                cache,
                RESULT_JNI_SIGNATURE,
                VALUE_FIELD,
                OBJECT_SIGNATURE,
            )?;
            let value_type = match cache.parsed.return_type(OBJECT_SIGNATURE) {
                Some(ty) => ty,
                None => return Err(ConversionError::ResolutionFailure),
            };
            let payload = object_of(get_field(env, &object, &value_field, value_type))?;
            let value = match branch_of(tag)? {
                Branch::Success => observe(env, cache, payload, ok)?,
                Branch::Failure => observe(env, cache, payload, err)?,
            };
            Ok(JavaObject::Tagged { tag, value: Box::new(value) })
        },
        Shape::Tuple(parts) => {
            let arity = match count_parts(parts) {
                Some(arity) => arity,
                None => return Err(ConversionError::ResolutionFailure),
            };
            let signature = match tuple_signature(arity) {
                Some(signature) => signature,
                None => return Err(ConversionError::ResolutionFailure),
            };
            let mut items: Vec<JavaObject<'a>> = Vec::new();
            if arity > 0 {
                let object = Instance::expect(env, cache, handle, signature, Kind::Tuple)?;
                observe_parts(env, cache, &object, signature, parts, 0, &mut items)?;
            } else {
                assert(**parts is End);
                assert forall|whole: Seq<ObjectModel<'a>>| whole.len() >= 0 implies #[trigger] conform_from(
                    whole.take(0),
                    **parts,
                    0,
                ) by {}
            }
            proof {
                lemma_tuple_model(items);
                let whole = models_of(items@);
                assert(whole.take(items@.len() as int) =~= whole);
                assert(conform_from(whole.take(items@.len() as int), **parts, 0));
                if **parts is End {
                    assert(whole =~= Seq::<ObjectModel<'a>>::empty());
                }
            }
            Ok(JavaObject::Tuple(items))
        },
    }
}

/// Converts a native value and builds its object in the virtual machine.
///
/// A value that cannot be converted is reported as the conversion reports
/// it, and the machine is not asked anything. The cache gets no entry but
/// those that building the object asks for, and after a build that
/// succeeded it has them all: a second build of the same object resolves
/// nothing. A value whose object is the
/// null reference is handed over as the null reference, exactly.
pub fn to_java<'a, T: TryIntoJavaValue<'a>>(env: &JNIEnv<'a>, cache: &mut MetadataCache, value: T) -> (r:
    Result<JObject<'a>, ConversionError>)
    ensures
        final(cache).keeps(*old(cache)),
        T::encode(value.model()) matches Ok(object) ==> (class_built(object) matches Some(class)
            ==> requested(*final(cache), class, r)),
        T::encode(value.model()) matches Ok(object) ==> adds_only(
            *old(cache),
            *final(cache),
            object,
        ),
        T::encode(value.model()) matches Ok(object) ==> (r is Ok ==> has_all(
            *final(cache),
            object,
        )),
        T::encode(value.model()) matches Err(e) ==> r == Err::<JObject<'a>, ConversionError>(e)
            && *final(cache) == *old(cache),
        T::encode(value.model()) matches Ok(ObjectModel::BooleanArray(units)) && units.len()
            > i32::MAX ==> r == Err::<JObject<'a>, ConversionError>(
            ConversionError::InvariantViolation { value: i32::MAX },
        ),
        T::encode(value.model()) matches Ok(ObjectModel::Tuple(items)) && items.len()
            > MAX_TUPLE_ARITY ==> r == Err::<JObject<'a>, ConversionError>(
            ConversionError::ResolutionFailure,
        ),
        T::encode(value.model()) == Ok::<ObjectModel<'a>, ConversionError>(ObjectModel::Null) ==> (
        r matches Ok(handle) && is_null_reference(handle)),
        T::encode(value.model()) matches Ok(ObjectModel::Reference(reference)) ==> r == Ok::<
            JObject<'a>,
            ConversionError,
        >(reference.handle),
        r is Ok && !(T::encode(value.model()) matches Ok(ObjectModel::Reference(_))) ==> (
        is_null_reference(r->Ok_0) <==> T::encode(value.model()) == Ok::<
            ObjectModel<'a>,
            ConversionError,
        >(ObjectModel::Null)),
{
    match <T as TryIntoJavaValue<'a>>::try_into(value) {
        Err(e) => Err(e),
        Ok(target) => {
            let object = target.autobox();
            materialize(env, cache, &object)
        },
    }
}

/// Reads the object behind a reference as the type's shape says, and
/// converts what it holds to a native value.
///
/// The value that comes back is the one that some object of the type's
/// shape stands for. The first call that does not complete, and the first
/// part that stands for no value, is reported. A null reference is read as
/// the null object where the type allows one, and nothing at all is read
/// for the empty tuple, which every reference stands for.
pub fn from_java<'a, T: TryFromJavaValue<'a>>(
    env: &JNIEnv<'a>,
    cache: &mut MetadataCache,
    handle: JObject<'a>,
) -> (r: Result<T, ConversionError>)
    ensures
        final(cache).keeps(*old(cache)),
        r matches Ok(v) ==> exists|o: ObjectModel<'a>|
            conforms(o, T::shape_spec()) && #[trigger] T::decode(o) == Ok::<
                T::Model,
                ConversionError,
            >(v.model()),
        is_null_reference(handle) ==> outcome_model(r) == (match null_outcome(T::shape_spec()) {
            Ok(o) => T::decode(o),
            Err(e) => Err(e),
        }),
        is_null_reference(handle) ==> *final(cache) == *old(cache),
        !is_null_reference(handle) ==> (class_read(T::shape_spec()) matches Some(class)
            ==> requested(*final(cache), class, r)),
        T::shape_spec() is Opaque && !is_null_reference(handle) ==> outcome_model(r) == T::decode(
            ObjectModel::Reference((Reference { handle })),
        ),
        T::shape_spec() is Opaque ==> *final(cache) == *old(cache),
        T::shape_spec() matches Shape::Tuple(parts) && parts.len() > MAX_TUPLE_ARITY ==> r
            == Err::<T, ConversionError>(ConversionError::ResolutionFailure),
        is_null_reference(handle) && T::shape_spec() is Nullable ==> outcome_model(r) == T::decode(
            ObjectModel::Null,
        ),
        T::shape_spec() == Shape::Tuple(Box::new(Parts::End)) ==> outcome_model(r) == T::decode(
            ObjectModel::Tuple(Seq::empty()),
        ),
{
    let shape = T::shape();
    let object = observe(env, cache, handle, &shape)?;
    let ghost o = object@;
    proof {
        <T as TryFromJavaValue<'a>>::lemma_decode_unboxes(o);
    }
    match T::Source::unbox(object) {
        Err(e) => Err(e),
        Ok(source) => {
            let r = <T as TryFromJavaValue<'a>>::try_from(source);
            proof {
                if r is Ok {
                    assert(T::decode(o) == Ok::<T::Model, ConversionError>(r->Ok_0.model()));
                }
            }
            r
        },
    }
}

} // verus!
