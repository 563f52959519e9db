//! The signature registry: the parsed forms of type signatures.
//!
//! A signature is parsed by the `jni` crate. What the parser makes of a text
//! is a function of the text alone, so each text is parsed once and the
//! outcome is kept, a failure too.

use vstd::prelude::*;
use jni::signature::{JavaType, ReturnType, TypeSignature};
use crate::cache::{CacheKey, Entry, KeyModel, OnceTable};

verus! {

#[verifier::external_type_specification]
#[verifier::external_body]
pub struct ExReturnType(ReturnType);

#[verifier::external_type_specification]
#[verifier::external_body]
pub struct ExJavaType(JavaType);

#[verifier::external_type_specification]
#[verifier::external_body]
pub struct ExTypeSignature(TypeSignature);

/// What `JavaType::from_str` makes of a text.
pub uninterp spec fn parsed_java_type(text: Seq<char>) -> Option<JavaType>;

/// What `TypeSignature::from_str` makes of a text.
pub uninterp spec fn parsed_type_signature(text: Seq<char>) -> Option<TypeSignature>;

/// What `ReturnType::from_str` makes of a text.
pub uninterp spec fn parsed_return_type(text: Seq<char>) -> Option<ReturnType>;

/// `JavaType::from_str`: the type that a signature names, if the parser of
/// the `jni` crate accepts the text.
#[verifier::external_body]
fn parse_java_type(text: &str) -> (r: Option<JavaType>)
    ensures
        r == parsed_java_type(text@),
{
    text.parse::<JavaType>().ok()
}

/// `TypeSignature::from_str`: the method signature that a text names, if the
/// parser of the `jni` crate accepts the text.
#[verifier::external_body]
fn parse_type_signature(text: &str) -> (r: Option<TypeSignature>)
    ensures
        r == parsed_type_signature(text@),
{
    TypeSignature::from_str(text).ok()
}

/// `ReturnType::from_str`: the result type that a signature names, if the
/// parser of the `jni` crate accepts the text.
#[verifier::external_body]
fn parse_return_type(text: &str) -> (r: Option<ReturnType>)
    ensures
        r == parsed_return_type(text@),
{
    text.parse::<ReturnType>().ok()
}

/// `Clone::clone` of a `JavaType`: an equal type.
#[verifier::external_body]
fn copy_java_type(ty: &JavaType) -> (copy: JavaType)
    ensures
        copy == *ty,
{
    ty.clone()
}

/// `Clone::clone` of a `TypeSignature`: an equal signature.
#[verifier::external_body]
fn copy_type_signature(signature: &TypeSignature) -> (copy: TypeSignature)
    ensures
        copy == *signature,
{
    signature.clone()
}

/// `Clone::clone` of a `ReturnType`: an equal type.
#[verifier::external_body]
fn copy_return_type(ty: &ReturnType) -> (copy: ReturnType)
    ensures
        copy == *ty,
{
    ty.clone()
}

/// The entry that keeps the outcome of a parse.
pub open spec fn entry_of<T>(parsed: Option<T>) -> Entry<T> {
    match parsed {
        Some(form) => Entry::Resolved(form),
        None => Entry::Failed,
    }
}

/// The parsed forms of the signatures seen so far. Each entry holds what
/// the parser makes of its text.
pub struct ParsedForms {
    java_types: OnceTable<JavaType>,
    type_signatures: OnceTable<TypeSignature>,
    return_types: OnceTable<ReturnType>,
}

impl ParsedForms {
    #[verifier::type_invariant]
    spec fn entries_are_parses(&self) -> bool {
        &&& forall|k: KeyModel| #[trigger]
            self.java_types@.contains_key(k) ==> self.java_types@[k] == entry_of(
                parsed_java_type(k.class),
            )
        &&& forall|k: KeyModel| #[trigger]
            self.type_signatures@.contains_key(k) ==> self.type_signatures@[k] == entry_of(
                parsed_type_signature(k.class),
            )
        &&& forall|k: KeyModel| #[trigger]
            self.return_types@.contains_key(k) ==> self.return_types@[k] == entry_of(
                parsed_return_type(k.class),
            )
    }

    /// The number of texts that were parsed, in any of the three forms.
    pub closed spec fn parses(&self) -> nat {
        self.java_types.resolutions() + self.type_signatures.resolutions()
            + self.return_types.resolutions()
    }

    /// Whether a text was parsed as a type before.
    pub closed spec fn knows_java_type(&self, text: Seq<char>) -> bool {
        self.java_types@.contains_key(CacheKey::class_key(text))
    }

    /// Whether a text was parsed as a method signature before.
    pub closed spec fn knows_type_signature(&self, text: Seq<char>) -> bool {
        self.type_signatures@.contains_key(CacheKey::class_key(text))
    }

    /// Whether a text was parsed as a result type before.
    pub closed spec fn knows_return_type(&self, text: Seq<char>) -> bool {
        self.return_types@.contains_key(CacheKey::class_key(text))
    }

    /// Whether every text that `before` had parsed is still parsed here.
    /// What is kept for a text is what the parser makes of it, so a text
    /// that is kept is kept with the same form.
    pub open spec fn keeps(&self, before: ParsedForms) -> bool {
        &&& forall|text: Seq<char>| #[trigger]
            before.knows_java_type(text) ==> self.knows_java_type(text)
        &&& forall|text: Seq<char>| #[trigger]
            before.knows_type_signature(text) ==> self.knows_type_signature(text)
        &&& forall|text: Seq<char>| #[trigger]
            before.knows_return_type(text) ==> self.knows_return_type(text)
    }

    /// Nothing parsed yet.
    pub fn new() -> (forms: ParsedForms)
        ensures
            forms.parses() == 0,
            forall|text: Seq<char>|
                !forms.knows_java_type(text) && !forms.knows_type_signature(text)
                    && !forms.knows_return_type(text),
    {
        ParsedForms {
            java_types: OnceTable::new(),
            type_signatures: OnceTable::new(),
            return_types: OnceTable::new(),
        }
    }

    /// The signature as a type, if it is one. The text is parsed on the
    /// first request for it, and never again.
    pub fn java_type(&mut self, signature: &str) -> (r: Option<JavaType>)
        ensures
            r == parsed_java_type(signature@),
            final(self).knows_java_type(signature@),
            final(self).keeps(*old(self)),
            final(self).parses() == old(self).parses() + if old(self).knows_java_type(
                signature@,
            ) {
                0nat
            } else {
                1nat
            },
    {
        proof {
            use_type_invariant(&*self);
        }
        let key = CacheKey::class(signature);
        if self.java_types.get(&key).is_none() {
            let parsed = parse_java_type(signature);
            let entry = match parsed {
                Some(form) => Entry::Resolved(form),
                None => Entry::Failed,
            };
            let mut taken = ParsedForms::new();
            core::mem::swap(self, &mut taken);
            let ParsedForms { mut java_types, type_signatures, return_types } = taken;
            java_types.record(key, entry);
            *self = ParsedForms { java_types, type_signatures, return_types };
        }
        let key = CacheKey::class(signature);
        match self.java_types.get(&key) {
            Some(Entry::Resolved(form)) => Some(copy_java_type(form)),
            _ => None,
        }
    }

    /// The signature as the signature of a method, if it is one. The text
    /// is parsed on the first request for it, and never again.
    pub fn type_signature(&mut self, signature: &str) -> (r: Option<TypeSignature>)
        ensures
            r == parsed_type_signature(signature@),
            final(self).knows_type_signature(signature@),
            final(self).keeps(*old(self)),
            final(self).parses() == old(self).parses() + if old(self).knows_type_signature(
                signature@,
            ) {
                0nat
            } else {
                1nat
            },
    {
        proof {
            use_type_invariant(&*self);
        }
        let key = CacheKey::class(signature);
        if self.type_signatures.get(&key).is_none() {
            let parsed = parse_type_signature(signature);
            let entry = match parsed {
                Some(form) => Entry::Resolved(form),
                None => Entry::Failed,
            };
            let mut taken = ParsedForms::new();
            core::mem::swap(self, &mut taken);
            let ParsedForms { java_types, mut type_signatures, return_types } = taken;
            type_signatures.record(key, entry);
            *self = ParsedForms { java_types, type_signatures, return_types };
        }
        let key = CacheKey::class(signature);
        match self.type_signatures.get(&key) {
            Some(Entry::Resolved(form)) => Some(copy_type_signature(form)),
            _ => None,
        }
    }

    /// The signature as the type of a result, if it is one. The text is
    /// parsed on the first request for it, and never again.
    pub fn return_type(&mut self, signature: &str) -> (r: Option<ReturnType>)
        ensures
            r == parsed_return_type(signature@),
            final(self).knows_return_type(signature@),
            final(self).keeps(*old(self)),
            final(self).parses() == old(self).parses() + if old(self).knows_return_type(
                signature@,
            ) {
                0nat
            } else {
                1nat
            },
    {
        proof {
            use_type_invariant(&*self);
        }
        let key = CacheKey::class(signature);
        if self.return_types.get(&key).is_none() {
            let parsed = parse_return_type(signature);
            let entry = match parsed {
                Some(form) => Entry::Resolved(form),
                None => Entry::Failed,
            };
            let mut taken = ParsedForms::new();
            core::mem::swap(self, &mut taken);
            let ParsedForms { java_types, type_signatures, mut return_types } = taken;
            return_types.record(key, entry);
            *self = ParsedForms { java_types, type_signatures, return_types };
        }
        let key = CacheKey::class(signature);
        match self.return_types.get(&key) {
            Some(Entry::Resolved(form)) => Some(copy_return_type(form)),
            _ => None,
        }
    }
}

} // verus!
