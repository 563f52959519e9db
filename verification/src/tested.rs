//! What was resolved or tested in the virtual machine, kept together with
//! what it was resolved or tested for.
//!
//! A call into the machine that takes a class, a member or an object of a
//! class is safe only with the right ones. The values of this module can be
//! had in one way each: from the function that resolved the class or the
//! member, or that tested the object. So whoever holds one knows what it
//! stands for.

use vstd::prelude::*;
use jni::objects::{
    GlobalRef, JClass, JFieldID, JMethodID, JObject, JStaticFieldID, JStaticMethodID,
};
use jni::JNIEnv;
use crate::cache::{after_request, CacheKey, Entry, KeyModel};
use crate::error::{ConversionError, Kind};
use crate::layout::class_name_spec;
use crate::runtime::{
    adds_up_to, class_of, expect_instance, field_id, is_null_reference, method_id, requested,
    static_field_id, static_method_id, MetadataCache, Table,
};

verus! {

/// A class, with the type signature it was resolved under.
pub struct ClassHandle<'a> {
    reference: JClass<'a>,
    signature: String,
}

impl<'a> ClassHandle<'a> {
    /// The type signature that the class was resolved under.
    pub closed spec fn signature_spec(&self) -> Seq<char> {
        self.signature@
    }

    /// The reference to the class.
    pub closed spec fn reference_spec(&self) -> JClass<'a> {
        self.reference
    }

    /// The reference to the class.
    pub fn reference(&self) -> (class: JClass<'a>)
        ensures
            class == self.reference_spec(),
    {
        self.reference
    }

    /// The class with the given type signature, from the cache.
    pub fn of(env: &JNIEnv<'a>, cache: &mut MetadataCache, signature: &str) -> (r: Result<
        ClassHandle<'a>,
        ConversionError,
    >)
        ensures
            r matches Ok(class) ==> class.signature_spec() == signature@,
            requested(*final(cache), signature@, r),
            final(cache).methods == old(cache).methods,
            final(cache).static_methods == old(cache).static_methods,
            final(cache).fields == old(cache).fields,
            final(cache).static_fields == old(cache).static_fields,
            final(cache).parsed == old(cache).parsed,
            final(cache).keeps(*old(cache)),
            adds_up_to(
                *old(cache),
                *final(cache),
                CacheKey::class_key(signature@),
                Table::Classes,
                CacheKey::class_key(signature@),
            ),
            exists|outcome: Entry<GlobalRef>|
                final(cache).classes@ == after_request(
                    old(cache).classes@,
                    CacheKey::class_key(signature@),
                    outcome,
                ),
            final(cache).classes@.contains_key(CacheKey::class_key(signature@)),
            final(cache).classes.resolutions() == old(cache).classes.resolutions() + if old(
                cache,
            ).classes@.contains_key(CacheKey::class_key(signature@)) {
                0nat
            } else {
                1nat
            },
            final(cache).classes@[CacheKey::class_key(signature@)] is Failed ==> r == Err::<
                ClassHandle<'a>,
                ConversionError,
            >(ConversionError::ResolutionFailure),
            r is Ok ==> final(cache).classes@[CacheKey::class_key(signature@)] is Resolved,
            !old(cache).classes@.contains_key(CacheKey::class_key(signature@)) && class_name_spec(
                signature@,
            ) is None ==> final(cache).classes@[CacheKey::class_key(signature@)] is Failed,
    {
        match class_of(env, cache, signature) {
            Ok(reference) => Ok(ClassHandle { reference, signature: String::from_str(signature) }),
            Err(e) => Err(e),
        }
    }
}

/// An object that was tested to be an instance of a class, with the type
/// signature of that class. It is never the null reference.
pub struct Instance<'a> {
    handle: JObject<'a>,
    class: String,
}

impl<'a> Instance<'a> {
    #[verifier::type_invariant]
    spec fn is_an_object(&self) -> bool {
        !is_null_reference(self.handle)
    }

    /// The type signature of the class that the object was tested against.
    pub closed spec fn class_spec(&self) -> Seq<char> {
        self.class@
    }

    /// The reference to the object.
    pub closed spec fn handle_spec(&self) -> JObject<'a> {
        self.handle
    }

    /// The reference to the object.
    pub fn handle(&self) -> (handle: JObject<'a>)
        ensures
            handle == self.handle_spec(),
            !is_null_reference(handle),
    {
        proof {
            use_type_invariant(self);
        }
        self.handle
    }

    /// Tests that a reference is not null and refers to an instance of a
    /// class, and hands the object out as one of that class.
    pub fn expect(
        env: &JNIEnv<'a>,
        cache: &mut MetadataCache,
        handle: JObject<'a>,
        class: &str,
        expected: Kind,
    ) -> (r: Result<Instance<'a>, ConversionError>)
        ensures
            r matches Ok(instance) ==> instance.handle_spec() == handle && instance.class_spec()
                == class@,
            is_null_reference(handle) ==> r == Err::<Instance<'a>, ConversionError>(
                ConversionError::TypeMismatch { expected, actual: Kind::Null },
            ),
            is_null_reference(handle) ==> *final(cache) == *old(cache),
            r is Ok ==> !is_null_reference(handle),
            !is_null_reference(handle) ==> requested(*final(cache), class@, r),
            final(cache).keeps(*old(cache)),
            adds_up_to(
                *old(cache),
                *final(cache),
                CacheKey::class_key(class@),
                Table::Classes,
                CacheKey::class_key(class@),
            ),
            final(cache).methods == old(cache).methods,
            final(cache).static_methods == old(cache).static_methods,
            final(cache).fields == old(cache).fields,
            final(cache).static_fields == old(cache).static_fields,
            final(cache).parsed == old(cache).parsed,
    {
        match expect_instance(env, cache, handle, class, expected) {
            Ok(_) => Ok(Instance { handle, class: String::from_str(class) }),
            Err(e) => Err(e),
        }
    }
}

/// A method or a field, with the key it was resolved under: the type
/// signature of its class, its name and its signature.
pub struct Member<I> {
    id: I,
    class: String,
    name: String,
    signature: String,
}

impl<I> Member<I> {
    /// The key that the member was resolved under.
    pub closed spec fn key(&self) -> KeyModel {
        CacheKey::member_key(self.class@, self.name@, self.signature@)
    }

    /// The handle of the member.
    pub closed spec fn id_spec(&self) -> I {
        self.id
    }

    /// The handle of the member.
    pub fn id(&self) -> (id: &I)
        ensures
            *id == self.id_spec(),
    {
        &self.id
    }
}

impl Member<JMethodID> {
    /// The method of a class with the given name and signature, from the
    /// cache.
    pub fn method<'a>(
        env: &JNIEnv<'a>,
        cache: &mut MetadataCache,
        class: &str,
        name: &str,
        signature: &str,
    ) -> (r: Result<Member<JMethodID>, ConversionError>)
        ensures
            final(cache).static_methods == old(cache).static_methods,
            final(cache).fields == old(cache).fields,
            final(cache).static_fields == old(cache).static_fields,
            final(cache).parsed == old(cache).parsed,
            final(cache).keeps(*old(cache)),
            adds_up_to(
                *old(cache),
                *final(cache),
                CacheKey::class_key(class@),
                Table::Methods,
                CacheKey::member_key(class@, name@, signature@),
            ),
            old(cache).methods@.contains_key(CacheKey::member_key(class@, name@, signature@))
                ==> final(cache).classes == old(cache).classes,
            !old(cache).methods@.contains_key(CacheKey::member_key(class@, name@, signature@))
                ==> exists|outcome: Entry<GlobalRef>|
                final(cache).classes@ == after_request(
                    old(cache).classes@,
                    CacheKey::class_key(class@),
                    outcome,
                ),
            final(cache).classes.resolutions() == old(cache).classes.resolutions() + if old(
                cache,
            ).methods@.contains_key(CacheKey::member_key(class@, name@, signature@)) || old(
                cache,
            ).classes@.contains_key(CacheKey::class_key(class@)) {
                0nat
            } else {
                1nat
            },
            exists|outcome: Entry<JMethodID>|
                final(cache).methods@ == after_request(
                    old(cache).methods@,
                    CacheKey::member_key(class@, name@, signature@),
                    outcome,
                ),
            final(cache).methods@.contains_key(CacheKey::member_key(class@, name@, signature@)),
            final(cache).methods.resolutions() == old(cache).methods.resolutions() + if old(
                cache,
            ).methods@.contains_key(CacheKey::member_key(class@, name@, signature@)) {
                0nat
            } else {
                1nat
            },
            match r {
                Ok(member) => member.key() == CacheKey::member_key(class@, name@, signature@)
                    && final(cache).methods@[CacheKey::member_key(class@, name@, signature@)]
                    == Entry::Resolved(member.id_spec()),
                Err(e) => e == ConversionError::ResolutionFailure && final(cache).methods@[CacheKey::member_key(
                    class@,
                    name@,
                    signature@,
                )] is Failed,
            },
    {
        match method_id(env, cache, class, name, signature) {
            Ok(id) => Ok(
                Member {
                    id,
                    class: String::from_str(class),
                    name: String::from_str(name),
                    signature: String::from_str(signature),
                },
            ),
            Err(e) => Err(e),
        }
    }
}

impl Member<JStaticMethodID> {
    /// The static method of a class with the given name and signature, from the
    /// cache.
    pub fn static_method<'a>(
        env: &JNIEnv<'a>,
        cache: &mut MetadataCache,
        class: &str,
        name: &str,
        signature: &str,
    ) -> (r: Result<Member<JStaticMethodID>, ConversionError>)
        ensures
            final(cache).methods == old(cache).methods,
            final(cache).fields == old(cache).fields,
            final(cache).static_fields == old(cache).static_fields,
            final(cache).parsed == old(cache).parsed,
            final(cache).keeps(*old(cache)),
            adds_up_to(
                *old(cache),
                *final(cache),
                CacheKey::class_key(class@),
                Table::StaticMethods,
                CacheKey::member_key(class@, name@, signature@),
            ),
            old(cache).static_methods@.contains_key(CacheKey::member_key(class@, name@, signature@))
                ==> final(cache).classes == old(cache).classes,
            !old(cache).static_methods@.contains_key(CacheKey::member_key(class@, name@, signature@))
                ==> exists|outcome: Entry<GlobalRef>|
                final(cache).classes@ == after_request(
                    old(cache).classes@,
                    CacheKey::class_key(class@),
                    outcome,
                ),
            final(cache).classes.resolutions() == old(cache).classes.resolutions() + if old(
                cache,
            ).static_methods@.contains_key(CacheKey::member_key(class@, name@, signature@)) || old(
                cache,
            ).classes@.contains_key(CacheKey::class_key(class@)) {
                0nat
            } else {
                1nat
            },
            exists|outcome: Entry<JStaticMethodID>|
                final(cache).static_methods@ == after_request(
                    old(cache).static_methods@,
                    CacheKey::member_key(class@, name@, signature@),
                    outcome,
                ),
            final(cache).static_methods@.contains_key(CacheKey::member_key(class@, name@, signature@)),
            final(cache).static_methods.resolutions() == old(cache).static_methods.resolutions() + if old(
                cache,
            ).static_methods@.contains_key(CacheKey::member_key(class@, name@, signature@)) {
                0nat
            } else {
                1nat
            },
            match r {
                Ok(member) => member.key() == CacheKey::member_key(class@, name@, signature@)
                    && final(cache).static_methods@[CacheKey::member_key(class@, name@, signature@)]
                    == Entry::Resolved(member.id_spec()),
                Err(e) => e == ConversionError::ResolutionFailure && final(cache).static_methods@[CacheKey::member_key(
                    class@,
                    name@,
                    signature@,
                )] is Failed,
            },
    {
        match static_method_id(env, cache, class, name, signature) {
            Ok(id) => Ok(
                Member {
                    id,
                    class: String::from_str(class),
                    name: String::from_str(name),
                    signature: String::from_str(signature),
                },
            ),
            Err(e) => Err(e),
        }
    }
}

impl Member<JFieldID> {
    /// The field of a class with the given name and signature, from the
    /// cache.
    pub fn field<'a>(
        env: &JNIEnv<'a>,
        cache: &mut MetadataCache,
        class: &str,
        name: &str,
        signature: &str,
    ) -> (r: Result<Member<JFieldID>, ConversionError>)
        ensures
            final(cache).methods == old(cache).methods,
            final(cache).static_methods == old(cache).static_methods,
            final(cache).static_fields == old(cache).static_fields,
            final(cache).parsed == old(cache).parsed,
            final(cache).keeps(*old(cache)),
            old(cache).fields@.contains_key(CacheKey::member_key(class@, name@, signature@))
                ==> final(cache).classes == old(cache).classes,
            !old(cache).fields@.contains_key(CacheKey::member_key(class@, name@, signature@))
                ==> exists|outcome: Entry<GlobalRef>|
                final(cache).classes@ == after_request(
                    old(cache).classes@,
                    CacheKey::class_key(class@),
                    outcome,
                ),
            final(cache).classes.resolutions() == old(cache).classes.resolutions() + if old(
                cache,
            ).fields@.contains_key(CacheKey::member_key(class@, name@, signature@)) || old(
                cache,
            ).classes@.contains_key(CacheKey::class_key(class@)) {
                0nat
            } else {
                1nat
            },
            exists|outcome: Entry<JFieldID>|
                final(cache).fields@ == after_request(
                    old(cache).fields@,
                    CacheKey::member_key(class@, name@, signature@),
                    outcome,
                ),
            final(cache).fields@.contains_key(CacheKey::member_key(class@, name@, signature@)),
            final(cache).fields.resolutions() == old(cache).fields.resolutions() + if old(
                cache,
            ).fields@.contains_key(CacheKey::member_key(class@, name@, signature@)) {
                0nat
            } else {
                1nat
            },
            match r {
                Ok(member) => member.key() == CacheKey::member_key(class@, name@, signature@)
                    && final(cache).fields@[CacheKey::member_key(class@, name@, signature@)]
                    == Entry::Resolved(member.id_spec()),
                Err(e) => e == ConversionError::ResolutionFailure && final(cache).fields@[CacheKey::member_key(
                    class@,
                    name@,
                    signature@,
                )] is Failed,
            },
    {
        match field_id(env, cache, class, name, signature) {
            Ok(id) => Ok(
                Member {
                    id,
                    class: String::from_str(class),
                    name: String::from_str(name),
                    signature: String::from_str(signature),
                },
            ),
            Err(e) => Err(e),
        }
    }
}

impl Member<JStaticFieldID> {
    /// The static field of a class with the given name and signature, from the
    /// cache.
    pub fn static_field<'a>(
        env: &JNIEnv<'a>,
        cache: &mut MetadataCache,
        class: &str,
        name: &str,
        signature: &str,
    ) -> (r: Result<Member<JStaticFieldID>, ConversionError>)
        ensures
            final(cache).methods == old(cache).methods,
            final(cache).static_methods == old(cache).static_methods,
            final(cache).fields == old(cache).fields,
            final(cache).parsed == old(cache).parsed,
            final(cache).keeps(*old(cache)),
            adds_up_to(
                *old(cache),
                *final(cache),
                CacheKey::class_key(class@),
                Table::StaticFields,
                CacheKey::member_key(class@, name@, signature@),
            ),
            old(cache).static_fields@.contains_key(CacheKey::member_key(class@, name@, signature@))
                ==> final(cache).classes == old(cache).classes,
            !old(cache).static_fields@.contains_key(CacheKey::member_key(class@, name@, signature@))
                ==> exists|outcome: Entry<GlobalRef>|
                final(cache).classes@ == after_request(
                    old(cache).classes@,
                    CacheKey::class_key(class@),
                    outcome,
                ),
            final(cache).classes.resolutions() == old(cache).classes.resolutions() + if old(
                cache,
            ).static_fields@.contains_key(CacheKey::member_key(class@, name@, signature@)) || old(
                cache,
            ).classes@.contains_key(CacheKey::class_key(class@)) {
                0nat
            } else {
                1nat
            },
            exists|outcome: Entry<JStaticFieldID>|
                final(cache).static_fields@ == after_request(
                    old(cache).static_fields@,
                    CacheKey::member_key(class@, name@, signature@),
                    outcome,
                ),
            final(cache).static_fields@.contains_key(CacheKey::member_key(class@, name@, signature@)),
            final(cache).static_fields.resolutions() == old(cache).static_fields.resolutions() + if old(
                cache,
            ).static_fields@.contains_key(CacheKey::member_key(class@, name@, signature@)) {
                0nat
            } else {
                1nat
            },
            match r {
                Ok(member) => member.key() == CacheKey::member_key(class@, name@, signature@)
                    && final(cache).static_fields@[CacheKey::member_key(class@, name@, signature@)]
                    == Entry::Resolved(member.id_spec()),
                Err(e) => e == ConversionError::ResolutionFailure && final(cache).static_fields@[CacheKey::member_key(
                    class@,
                    name@,
                    signature@,
                )] is Failed,
            },
    {
        match static_field_id(env, cache, class, name, signature) {
            Ok(id) => Ok(
                Member {
                    id,
                    class: String::from_str(class),
                    name: String::from_str(name),
                    signature: String::from_str(signature),
                },
            ),
            Err(e) => Err(e),
        }
    }
}

} // verus!
