use robusta_jni::convert::{
    Conversion, FromJavaValue, IntoJavaValue, Signature, TryFromJavaValue, TryIntoJavaValue,
};
use robusta_jni::error::{ConversionError, Kind};
use robusta_jni::object::JavaObject;
use robusta_jni::shape::{Parts, Shape};
use robusta_jni::value::{Primitive, PrimitiveKind};

fn int_box(v: i32) -> JavaObject<'static> {
    JavaObject::Boxed(Primitive::Int(v))
}

#[test]
fn unit_is_the_empty_tuple() {
    assert_eq!(<() as IntoJavaValue>::into(()), JavaObject::Tuple(Vec::new()));
    assert_eq!(<() as TryIntoJavaValue>::try_into(()), Ok(JavaObject::Tuple(Vec::new())));
}

#[test]
fn unit_comes_back_from_any_object() {
    assert_eq!(<() as TryFromJavaValue>::try_from(JavaObject::Null), Ok(()));
    assert_eq!(<() as TryFromJavaValue>::try_from(JavaObject::Text("x".to_string())), Ok(()));
    assert_eq!(<() as TryFromJavaValue>::try_from(JavaObject::Tuple(vec![int_box(1)])), Ok(()));
    <() as FromJavaValue>::from(int_box(3));
}

#[test]
fn single_round_trip() {
    let object = <(i32,) as IntoJavaValue>::into((9,));
    assert_eq!(object, JavaObject::Tuple(vec![int_box(9)]));
    assert_eq!(<(i32,) as FromJavaValue>::from(object), (9,));
}

#[test]
fn pair_round_trip() {
    let object = <(i32, String) as TryIntoJavaValue>::try_into((1, "b".to_string())).unwrap();
    assert_eq!(object, JavaObject::Tuple(vec![int_box(1), JavaObject::Text("b".to_string())]));
    assert_eq!(<(i32, String) as TryFromJavaValue>::try_from(object), Ok((1, "b".to_string())));
}

#[test]
fn tuple_positions_are_kept() {
    let object = <(i32, bool, String) as IntoJavaValue>::into((4, true, "z".to_string()));
    assert_eq!(
        object,
        JavaObject::Tuple(vec![
            int_box(4),
            JavaObject::Boxed(Primitive::Boolean(1)),
            JavaObject::Text("z".to_string()),
        ])
    );
    assert_eq!(<(i32, bool, String) as FromJavaValue>::from(object), (4, true, "z".to_string()));
}

#[test]
fn distinct_values_stay_in_place_at_every_arity() {
    let v4 = (1i32, 2i32, 3i32, 4i32);
    assert_eq!(<(i32, i32, i32, i32) as FromJavaValue>::from(IntoJavaValue::into(v4)), v4);
    let v5 = (1i32, 2i64, 3i16, 4i8, 5u16);
    let o5 = <(i32, i64, i16, i8, u16) as TryIntoJavaValue>::try_into(v5).unwrap();
    assert_eq!(<(i32, i64, i16, i8, u16) as TryFromJavaValue>::try_from(o5), Ok(v5));
    let v6 = (1i32, 2i32, 3i32, 4i32, 5i32, 6i32);
    assert_eq!(<(i32, i32, i32, i32, i32, i32) as FromJavaValue>::from(IntoJavaValue::into(v6)), v6);
    let v7 = (1i32, 2i32, 3i32, 4i32, 5i32, 6i32, 7i32);
    assert_eq!(
        <(i32, i32, i32, i32, i32, i32, i32) as FromJavaValue>::from(IntoJavaValue::into(v7)),
        v7
    );
    let v8 = (1i32, 2i32, 3i32, 4i32, 5i32, 6i32, 7i32, 8i32);
    assert_eq!(
        <(i32, i32, i32, i32, i32, i32, i32, i32) as FromJavaValue>::from(IntoJavaValue::into(v8)),
        v8
    );
    let v9 = (1i32, 2i32, 3i32, 4i32, 5i32, 6i32, 7i32, 8i32, 9i32);
    assert_eq!(
        <(i32, i32, i32, i32, i32, i32, i32, i32, i32) as FromJavaValue>::from(
            IntoJavaValue::into(v9)
        ),
        v9
    );
    let v10 = (1i32, 2i32, 3i32, 4i32, 5i32, 6i32, 7i32, 8i32, 9i32, 10i32);
    assert_eq!(
        <(i32, i32, i32, i32, i32, i32, i32, i32, i32, i32) as FromJavaValue>::from(
            IntoJavaValue::into(v10)
        ),
        v10
    );
    let v11 = (1i32, 2i32, 3i32, 4i32, 5i32, 6i32, 7i32, 8i32, 9i32, 10i32, 11i32);
    assert_eq!(
        <(i32, i32, i32, i32, i32, i32, i32, i32, i32, i32, i32) as FromJavaValue>::from(
            IntoJavaValue::into(v11)
        ),
        v11
    );
}

#[test]
fn twelve_parts_round_trip() {
    let value = (1i8, 2i16, 3i32, 4i64, 5u16, 6u8, true, 'h', "i".to_string(), Some(10i32), vec![11i32], 12i32);
    let object = <(i8, i16, i32, i64, u16, u8, bool, char, String, Option<i32>, Vec<i32>, i32) as TryIntoJavaValue>::try_into(
        value,
    )
    .unwrap();
    match &object {
        JavaObject::Tuple(items) => {
            assert_eq!(items.len(), 12);
            assert_eq!(items[0], JavaObject::Boxed(Primitive::Byte(1)));
            assert_eq!(items[11], int_box(12));
        }
        _ => panic!("not a tuple"),
    }
    let back = <(i8, i16, i32, i64, u16, u8, bool, char, String, Option<i32>, Vec<i32>, i32) as TryFromJavaValue>::try_from(
        object,
    );
    assert_eq!(
        back,
        Ok((1i8, 2i16, 3i32, 4i64, 5u16, 6u8, true, 'h', "i".to_string(), Some(10i32), vec![11i32], 12i32))
    );
}

#[test]
fn tuple_of_another_arity_is_reported_with_its_arity() {
    let object = JavaObject::Tuple(vec![int_box(1), int_box(2), int_box(3)]);
    assert_eq!(
        <(i32, i32) as TryFromJavaValue>::try_from(object),
        Err(ConversionError::InvariantViolation { value: 3 })
    );
    assert_eq!(
        <(i32, i32) as TryFromJavaValue>::try_from(JavaObject::Tuple(Vec::new())),
        Err(ConversionError::InvariantViolation { value: 0 })
    );
}

#[test]
fn tuple_reports_first_failing_part() {
    let object = JavaObject::Tuple(vec![int_box(1), JavaObject::Null, JavaObject::Text("x".to_string())]);
    assert_eq!(
        <(i32, i32, i32) as TryFromJavaValue>::try_from(object),
        Err(ConversionError::TypeMismatch { expected: Kind::Int, actual: Kind::Null })
    );
    assert_eq!(
        <(i32,) as TryFromJavaValue>::try_from(JavaObject::List(Vec::new())),
        Err(ConversionError::TypeMismatch { expected: Kind::Tuple, actual: Kind::List })
    );
}

#[test]
fn tuple_signatures_name_the_arity() {
    assert_eq!(<(i32,) as Signature>::sig_type(), "LTuple1;");
    assert_eq!(<(i32, bool, String) as Signature>::sig_type(), "LTuple3;");
    assert_eq!(
        <(i32, i32, i32, i32, i32, i32, i32, i32, i32, i32, i32, i32) as Signature>::sig_type(),
        "LTuple12;"
    );
}

#[test]
fn shapes_follow_the_types() {
    assert_eq!(<i32 as Conversion>::shape(), Shape::Boxed(PrimitiveKind::Int));
    assert_eq!(<bool as Conversion>::shape(), Shape::Boxed(PrimitiveKind::Boolean));
    assert_eq!(<char as Conversion>::shape(), Shape::Boxed(PrimitiveKind::Char));
    assert_eq!(<String as Conversion>::shape(), Shape::Text);
    assert_eq!(<Box<[bool]> as Conversion>::shape(), Shape::BooleanArray);
    assert_eq!(<JavaObject as Conversion>::shape(), Shape::Opaque);
    assert_eq!(
        <Option<Vec<String>> as Conversion>::shape(),
        Shape::Nullable(Box::new(Shape::List(Box::new(Shape::Text))))
    );
    assert_eq!(
        <Result<i32, String> as Conversion>::shape(),
        Shape::Tagged(Box::new(Shape::Boxed(PrimitiveKind::Int)), Box::new(Shape::Text))
    );
    assert_eq!(<() as Conversion>::shape(), Shape::Tuple(Box::new(Parts::End)));
    assert_eq!(
        <(i32, String) as Conversion>::shape(),
        Shape::Tuple(Box::new(Parts::Part(
            Box::new(Shape::Boxed(PrimitiveKind::Int)),
            Box::new(Parts::Part(Box::new(Shape::Text), Box::new(Parts::End))),
        )))
    );
}
