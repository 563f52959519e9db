use robusta_jni::convert::JValueWrapper;
use robusta_jni::error::{ConversionError, Kind};
use robusta_jni::object::JavaObject;
use robusta_jni::value::{Envelope, JDouble, JFloat, Primitive, PrimitiveKind};

fn wrap(value: Envelope<JavaObject<'static>>) -> JValueWrapper<JavaObject<'static>> {
    JValueWrapper::from(value)
}

#[test]
fn each_kind_comes_out_as_it_went_in() {
    assert_eq!(u8::try_from(wrap(Envelope::Bool(1))), Ok(1u8));
    assert_eq!(i8::try_from(wrap(Envelope::Byte(-3))), Ok(-3i8));
    assert_eq!(u16::try_from(wrap(Envelope::Char(65))), Ok(65u16));
    assert_eq!(i16::try_from(wrap(Envelope::Short(-300))), Ok(-300i16));
    assert_eq!(i32::try_from(wrap(Envelope::Int(70000))), Ok(70000i32));
    assert_eq!(i64::try_from(wrap(Envelope::Long(1 << 40))), Ok(1i64 << 40));
    assert_eq!(
        JFloat::try_from(wrap(Envelope::Float(JFloat { bits: 7 }))),
        Ok(JFloat { bits: 7 })
    );
    assert_eq!(
        JDouble::try_from(wrap(Envelope::Double(JDouble { bits: 9 }))),
        Ok(JDouble { bits: 9 })
    );
    assert_eq!(<()>::try_from(wrap(Envelope::Void)), Ok(()));
    assert_eq!(
        JavaObject::try_from(wrap(Envelope::Object(JavaObject::Null))),
        Ok(JavaObject::Null)
    );
    assert_eq!(wrap(Envelope::Object(JavaObject::Null)).object(), Ok(JavaObject::Null));
}

#[test]
fn wrong_kind_names_expected_and_actual() {
    let error = u8::try_from(wrap(Envelope::Int(1))).unwrap_err();
    assert_eq!(error, ConversionError::TypeMismatch { expected: Kind::Bool, actual: Kind::Int });
    assert_eq!(error.kind_names(), Some(("bool", "int")));
    assert_eq!(
        i8::try_from(wrap(Envelope::Void)),
        Err(ConversionError::TypeMismatch { expected: Kind::Byte, actual: Kind::Void })
    );
    assert_eq!(
        u16::try_from(wrap(Envelope::Short(1))),
        Err(ConversionError::TypeMismatch { expected: Kind::Char, actual: Kind::Short })
    );
    assert_eq!(
        i16::try_from(wrap(Envelope::Char(1))),
        Err(ConversionError::TypeMismatch { expected: Kind::Short, actual: Kind::Char })
    );
    assert_eq!(
        i32::try_from(wrap(Envelope::Long(1))),
        Err(ConversionError::TypeMismatch { expected: Kind::Int, actual: Kind::Long })
    );
    assert_eq!(
        i64::try_from(wrap(Envelope::Bool(1))),
        Err(ConversionError::TypeMismatch { expected: Kind::Long, actual: Kind::Bool })
    );
    assert_eq!(
        JFloat::try_from(wrap(Envelope::Double(JDouble { bits: 0 }))),
        Err(ConversionError::TypeMismatch { expected: Kind::Float, actual: Kind::Double })
    );
    assert_eq!(
        JDouble::try_from(wrap(Envelope::Float(JFloat { bits: 0 }))),
        Err(ConversionError::TypeMismatch { expected: Kind::Double, actual: Kind::Float })
    );
    assert_eq!(
        <()>::try_from(wrap(Envelope::Object(JavaObject::Null))),
        Err(ConversionError::TypeMismatch { expected: Kind::Void, actual: Kind::Object })
    );
    assert_eq!(
        JavaObject::try_from(wrap(Envelope::Byte(1))),
        Err(ConversionError::TypeMismatch { expected: Kind::Object, actual: Kind::Byte })
    );
    assert_eq!(
        wrap(Envelope::Void).object(),
        Err(ConversionError::TypeMismatch { expected: Kind::Object, actual: Kind::Void })
    );
}

#[test]
fn text_comes_out_of_a_string_object_only() {
    assert_eq!(
        String::try_from(wrap(Envelope::Object(JavaObject::Text("hi".to_string())))),
        Ok("hi".to_string())
    );
    assert_eq!(
        String::try_from(wrap(Envelope::Object(JavaObject::Null))),
        Err(ConversionError::TypeMismatch { expected: Kind::Text, actual: Kind::Null })
    );
    assert_eq!(
        String::try_from(wrap(Envelope::Int(1))),
        Err(ConversionError::TypeMismatch { expected: Kind::Text, actual: Kind::Int })
    );
}

#[test]
fn envelope_unwraps_to_what_was_wrapped() {
    let wrapper = wrap(Envelope::Int(12));
    let value: Envelope<JavaObject> = Envelope::from(wrapper);
    assert!(matches!(value, Envelope::Int(12)));
}

#[test]
fn kinds_have_their_names() {
    let names: Vec<&str> = vec![
        Envelope::<JavaObject>::Void.kind_name(),
        Envelope::Object(JavaObject::Null).kind_name(),
        Envelope::<JavaObject>::Byte(0).kind_name(),
        Envelope::<JavaObject>::Char(0).kind_name(),
        Envelope::<JavaObject>::Short(0).kind_name(),
        Envelope::<JavaObject>::Int(0).kind_name(),
        Envelope::<JavaObject>::Long(0).kind_name(),
        Envelope::<JavaObject>::Bool(0).kind_name(),
        Envelope::<JavaObject>::Float(JFloat { bits: 0 }).kind_name(),
        Envelope::<JavaObject>::Double(JDouble { bits: 0 }).kind_name(),
    ];
    assert_eq!(
        names,
        vec!["void", "object", "byte", "char", "short", "int", "long", "bool", "float", "double"]
    );
    assert_eq!(Kind::Text.name(), "string");
    assert_eq!(Kind::Null.name(), "null");
    assert_eq!(Kind::BooleanArray.name(), "boolean[]");
    assert_eq!(Kind::List.name(), "list");
    assert_eq!(Kind::Tagged.name(), "result");
    assert_eq!(Kind::Tuple.name(), "tuple");
}

#[test]
fn primitive_goes_in_and_out_of_the_envelope() {
    let all = vec![
        Primitive::Boolean(1),
        Primitive::Byte(2),
        Primitive::Char(3),
        Primitive::Double(JDouble { bits: 4 }),
        Primitive::Float(JFloat { bits: 5 }),
        Primitive::Int(6),
        Primitive::Long(7),
        Primitive::Short(8),
    ];
    for p in all {
        let envelope: Envelope<JavaObject> = Envelope::of_primitive(p);
        assert_eq!(envelope.primitive(), Some(p));
        assert_eq!(envelope.kind(), p.primitive_kind().kind());
    }
    assert_eq!(Envelope::<JavaObject>::Void.primitive(), None);
    assert_eq!(Envelope::Object(JavaObject::Null).primitive(), None);
    assert_eq!(Primitive::Int(1).primitive_kind(), PrimitiveKind::Int);
}

#[test]
fn errors_other_than_mismatch_have_no_names() {
    assert_eq!(ConversionError::ResolutionFailure.kind_names(), None);
    assert_eq!(ConversionError::ForeignException.kind_names(), None);
    assert_eq!(ConversionError::InvariantViolation { value: 2 }.kind_names(), None);
    assert_eq!(
        ConversionError::mismatch(Kind::Int, Kind::Null),
        ConversionError::TypeMismatch { expected: Kind::Int, actual: Kind::Null }
    );
}
