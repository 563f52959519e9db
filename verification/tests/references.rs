use jni::objects::{JObject, JString};
use robusta_jni::convert::{
    Conversion, FromJavaValue, IntoJavaValue, JValueWrapper, JavaValue, Signature,
    TryFromJavaValue, TryIntoJavaValue,
};
use robusta_jni::error::{ConversionError, Kind};
use robusta_jni::object::JavaObject;
use robusta_jni::reference::Reference;
use robusta_jni::shape::Shape;
use robusta_jni::value::Envelope;

fn some_reference() -> Reference<'static> {
    Reference { handle: JObject::null() }
}

#[test]
fn references_compare_by_what_they_refer_to() {
    assert_eq!(some_reference(), some_reference());
    assert_eq!(JavaObject::Reference(some_reference()), JavaObject::Reference(some_reference()));
    assert_ne!(JavaObject::Reference(some_reference()), JavaObject::Null);
}

#[test]
fn a_reference_is_an_object_of_unknown_shape() {
    assert_eq!(JavaObject::Reference(some_reference()).kind(), Kind::Object);
    assert!(!JavaObject::Reference(some_reference()).is_null());
    assert_eq!(<JavaObject as Conversion>::shape(), Shape::Opaque);
}

#[test]
fn a_reference_passes_through_as_it_is() {
    let object = <JavaObject as IntoJavaValue>::into(JavaObject::Reference(some_reference()));
    assert_eq!(object, JavaObject::Reference(some_reference()));
    let boxed = object.autobox();
    assert_eq!(boxed, JavaObject::Reference(some_reference()));
    let back = <JavaObject as JavaValue>::unbox(boxed).unwrap();
    assert_eq!(<JavaObject as FromJavaValue>::from(back), JavaObject::Reference(some_reference()));
    assert_eq!(
        <JavaObject as TryFromJavaValue>::try_from(JavaObject::Reference(some_reference())),
        Ok(JavaObject::Reference(some_reference()))
    );
}

#[test]
fn composites_carry_references() {
    let object = <Option<JavaObject> as TryIntoJavaValue>::try_into(Some(JavaObject::Reference(
        some_reference(),
    )))
    .unwrap();
    assert_eq!(object, JavaObject::Reference(some_reference()));
    assert_eq!(
        <Option<JavaObject> as TryFromJavaValue>::try_from(object),
        Ok(Some(JavaObject::Reference(some_reference())))
    );
    let list = <Vec<JavaObject> as IntoJavaValue>::into(vec![
        JavaObject::Reference(some_reference()),
        JavaObject::Null,
    ]);
    assert_eq!(
        <Vec<JavaObject> as FromJavaValue>::from(list),
        vec![JavaObject::Reference(some_reference()), JavaObject::Null]
    );
    let pair = <(i32, JavaObject) as TryIntoJavaValue>::try_into((
        1,
        JavaObject::Reference(some_reference()),
    ))
    .unwrap();
    assert_eq!(
        <(i32, JavaObject) as TryFromJavaValue>::try_from(pair),
        Ok((1, JavaObject::Reference(some_reference())))
    );
}

#[test]
fn a_reference_is_no_value_of_a_known_kind() {
    assert_eq!(
        <i32 as JavaValue>::unbox(JavaObject::Reference(some_reference())),
        Err(ConversionError::TypeMismatch { expected: Kind::Int, actual: Kind::Object })
    );
    assert_eq!(
        <String as TryFromJavaValue>::try_from(JavaObject::Reference(some_reference())),
        Err(ConversionError::TypeMismatch { expected: Kind::Text, actual: Kind::Object })
    );
    assert_eq!(
        <Vec<i32> as TryFromJavaValue>::try_from(JavaObject::Reference(some_reference())),
        Err(ConversionError::TypeMismatch { expected: Kind::List, actual: Kind::Object })
    );
}

#[test]
fn references_come_out_of_an_envelope() {
    let object = JObject::try_from(JValueWrapper(Envelope::Object(JObject::null()))).unwrap();
    assert!(object.is_null());
    let text = JString::try_from(JValueWrapper(Envelope::Object(JObject::null()))).unwrap();
    assert!(text.is_null());
    let wrong: JValueWrapper<JObject> = JValueWrapper(Envelope::Int(3));
    assert_eq!(
        JObject::try_from(wrong).unwrap_err(),
        ConversionError::TypeMismatch { expected: Kind::Object, actual: Kind::Int }
    );
    let wrong: JValueWrapper<JObject> = JValueWrapper(Envelope::Void);
    assert_eq!(
        JString::try_from(wrong).err(),
        Some(ConversionError::TypeMismatch { expected: Kind::Text, actual: Kind::Void })
    );
}

#[test]
fn references_have_the_signatures_of_their_classes() {
    assert_eq!(<JObject as Signature>::sig_type(), "Ljava/lang/Object;");
    assert_eq!(<JString as Signature>::sig_type(), "Ljava/lang/String;");
}
