use robusta_jni::convert::{
    FromJavaValue, IntoJavaValue, JavaValue, TryFromJavaValue, TryIntoJavaValue,
};
use robusta_jni::error::{ConversionError, Kind};
use robusta_jni::object::JavaObject;
use robusta_jni::value::{JDouble, JFloat, Primitive};

#[test]
fn boolean_unit_round_trip() {
    let object = <u8 as IntoJavaValue>::into(1).autobox();
    assert_eq!(object, JavaObject::Boxed(Primitive::Boolean(1)));
    assert_eq!(<u8 as JavaValue>::unbox(object), Ok(1));
}

#[test]
fn byte_round_trip() {
    let object = <i8 as TryIntoJavaValue>::try_into(-128).unwrap().autobox();
    assert_eq!(object, JavaObject::Boxed(Primitive::Byte(-128)));
    let source = <i8 as JavaValue>::unbox(object).unwrap();
    assert_eq!(<i8 as TryFromJavaValue>::try_from(source), Ok(-128));
}

#[test]
fn char_unit_round_trip() {
    let object = <u16 as IntoJavaValue>::into(0xFFFF).autobox();
    assert_eq!(object, JavaObject::Boxed(Primitive::Char(0xFFFF)));
    assert_eq!(<u16 as JavaValue>::unbox(object), Ok(0xFFFF));
}

#[test]
fn short_round_trip() {
    let object = <i16 as IntoJavaValue>::into(-32768).autobox();
    assert_eq!(object, JavaObject::Boxed(Primitive::Short(-32768)));
    assert_eq!(<i16 as JavaValue>::unbox(object), Ok(-32768));
}

#[test]
fn int_round_trip_through_boxing() {
    let target = <i32 as IntoJavaValue>::into(5);
    let object = target.autobox();
    assert_eq!(object, JavaObject::Boxed(Primitive::Int(5)));
    let back = <i32 as JavaValue>::unbox(object).unwrap();
    assert_eq!(<i32 as FromJavaValue>::from(back), 5);
}

#[test]
fn long_round_trip() {
    let object = <i64 as IntoJavaValue>::into(i64::MIN).autobox();
    assert_eq!(object, JavaObject::Boxed(Primitive::Long(i64::MIN)));
    assert_eq!(<i64 as JavaValue>::unbox(object), Ok(i64::MIN));
}

#[test]
fn float_round_trip_by_bits() {
    let value = JFloat { bits: 1.5f32.to_bits() };
    let object = <JFloat as IntoJavaValue>::into(value).autobox();
    assert_eq!(object, JavaObject::Boxed(Primitive::Float(value)));
    let back = <JFloat as JavaValue>::unbox(object).unwrap();
    assert_eq!(f32::from_bits(back.bits), 1.5f32);
}

#[test]
fn double_round_trip_by_bits() {
    let value = JDouble { bits: (-2.25f64).to_bits() };
    let object = <JDouble as IntoJavaValue>::into(value).autobox();
    assert_eq!(object, JavaObject::Boxed(Primitive::Double(value)));
    let back = <JDouble as JavaValue>::unbox(object).unwrap();
    assert_eq!(f64::from_bits(back.bits), -2.25f64);
}

#[test]
fn unboxing_another_kind_is_a_mismatch() {
    let object = JavaObject::Boxed(Primitive::Long(5));
    assert_eq!(
        <i32 as JavaValue>::unbox(object),
        Err(ConversionError::TypeMismatch { expected: Kind::Int, actual: Kind::Long })
    );
    assert_eq!(
        <i8 as JavaValue>::unbox(JavaObject::Null),
        Err(ConversionError::TypeMismatch { expected: Kind::Byte, actual: Kind::Null })
    );
}

#[test]
fn bool_is_one_or_zero() {
    assert_eq!(<bool as IntoJavaValue>::into(true), 1u8);
    assert_eq!(<bool as IntoJavaValue>::into(false), 0u8);
    assert_eq!(<bool as TryIntoJavaValue>::try_into(true), Ok(1u8));
    assert!(<bool as FromJavaValue>::from(1u8));
    assert!(!<bool as FromJavaValue>::from(0u8));
    assert!(!<bool as FromJavaValue>::from(2u8));
    assert_eq!(<bool as TryFromJavaValue>::try_from(255u8), Ok(false));
}

#[test]
fn char_is_one_code_unit() {
    assert_eq!(<char as IntoJavaValue>::into('A'), 0x41u16);
    assert_eq!(<char as IntoJavaValue>::into('\u{20AC}'), 0x20ACu16);
    assert_eq!(<char as FromJavaValue>::from(0x41u16), 'A');
    assert_eq!(<char as TryFromJavaValue>::try_from(0x20ACu16), Ok('\u{20AC}'));
    assert_eq!(<char as TryFromJavaValue>::try_from(0xFFFFu16), Ok('\u{FFFF}'));
}

#[test]
fn char_outside_the_plane_is_cut() {
    assert_eq!(<char as IntoJavaValue>::into('\u{1F600}'), 0xF600u16);
    assert_eq!(<char as TryIntoJavaValue>::try_into('\u{10FFFF}'), Ok(0xFFFFu16));
}

#[test]
fn surrogate_is_no_char() {
    assert_eq!(
        <char as TryFromJavaValue>::try_from(0xD800u16),
        Err(ConversionError::InvariantViolation { value: 0xD800 })
    );
    assert_eq!(
        <char as TryFromJavaValue>::try_from(0xDFFFu16),
        Err(ConversionError::InvariantViolation { value: 0xDFFF })
    );
    assert_eq!(<char as TryFromJavaValue>::try_from(0xD7FFu16), Ok('\u{D7FF}'));
    assert_eq!(<char as TryFromJavaValue>::try_from(0xE000u16), Ok('\u{E000}'));
}

#[test]
fn families_agree_on_primitives() {
    assert_eq!(<i32 as TryIntoJavaValue>::try_into(9), Ok(<i32 as IntoJavaValue>::into(9)));
    assert_eq!(<char as TryIntoJavaValue>::try_into('x'), Ok(<char as IntoJavaValue>::into('x')));
    assert_eq!(<bool as TryFromJavaValue>::try_from(1), Ok(<bool as FromJavaValue>::from(1)));
    assert_eq!(<char as TryFromJavaValue>::try_from(0x78), Ok(<char as FromJavaValue>::from(0x78)));
}

#[test]
fn object_passes_through() {
    let object = JavaObject::Text("kept".to_string());
    let target = <JavaObject as IntoJavaValue>::into(object);
    let boxed = target.autobox();
    assert_eq!(boxed, JavaObject::Text("kept".to_string()));
    assert_eq!(<JavaObject as JavaValue>::unbox(boxed), Ok(JavaObject::Text("kept".to_string())));
}
