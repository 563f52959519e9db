use robusta_jni::convert::{FromJavaValue, IntoJavaValue, TryFromJavaValue, TryIntoJavaValue};
use robusta_jni::error::{ConversionError, Kind};
use robusta_jni::object::JavaObject;
use robusta_jni::value::Primitive;

fn boxed_int(v: i32) -> JavaObject<'static> {
    JavaObject::Boxed(Primitive::Int(v))
}

#[test]
fn string_is_text() {
    let object = <String as IntoJavaValue>::into("héllo".to_string());
    assert_eq!(object, JavaObject::Text("héllo".to_string()));
    assert_eq!(<String as FromJavaValue>::from(object), "héllo".to_string());
    assert_eq!(
        <String as TryFromJavaValue>::try_from(JavaObject::Null),
        Err(ConversionError::TypeMismatch { expected: Kind::Text, actual: Kind::Null })
    );
    assert_eq!(
        <String as TryIntoJavaValue>::try_into("".to_string()),
        Ok(JavaObject::Text("".to_string()))
    );
}

#[test]
fn option_none_is_null() {
    let object = <Option<i32> as IntoJavaValue>::into(None);
    assert_eq!(object, JavaObject::Null);
    assert_eq!(<Option<i32> as FromJavaValue>::from(object), None);
    assert_eq!(<Option<String> as TryIntoJavaValue>::try_into(None), Ok(JavaObject::Null));
    assert_eq!(<Option<String> as TryFromJavaValue>::try_from(JavaObject::Null), Ok(None));
}

#[test]
fn option_some_round_trip() {
    let object = <Option<i32> as TryIntoJavaValue>::try_into(Some(7)).unwrap();
    assert_eq!(object, boxed_int(7));
    assert_eq!(<Option<i32> as TryFromJavaValue>::try_from(object), Ok(Some(7)));
    let object = <Option<String> as IntoJavaValue>::into(Some("x".to_string()));
    assert_eq!(<Option<String> as FromJavaValue>::from(object), Some("x".to_string()));
}

#[test]
fn option_reports_what_its_value_reports() {
    assert_eq!(
        <Option<i32> as TryFromJavaValue>::try_from(JavaObject::Text("x".to_string())),
        Err(ConversionError::TypeMismatch { expected: Kind::Int, actual: Kind::Text })
    );
}

#[test]
fn nested_none_comes_back_as_none() {
    let object = <Option<Option<i32>> as IntoJavaValue>::into(Some(None));
    assert_eq!(object, JavaObject::Null);
    assert_eq!(<Option<Option<i32>> as FromJavaValue>::from(object), None);
}

#[test]
fn result_ok_and_err_round_trip() {
    let ok: Result<i32, String> = Ok(5);
    let object = <Result<i32, String> as TryIntoJavaValue>::try_into(ok).unwrap();
    assert_eq!(object, JavaObject::Tagged { tag: 0, value: Box::new(boxed_int(5)) });
    assert_eq!(<Result<i32, String> as TryFromJavaValue>::try_from(object), Ok(Ok(5)));

    let err: Result<i32, String> = Err("boom".to_string());
    let object = <Result<i32, String> as TryIntoJavaValue>::try_into(err).unwrap();
    assert_eq!(
        object,
        JavaObject::Tagged { tag: 1, value: Box::new(JavaObject::Text("boom".to_string())) }
    );
    assert_eq!(
        <Result<i32, String> as TryFromJavaValue>::try_from(object),
        Ok(Err("boom".to_string()))
    );
}

#[test]
fn result_round_trip_when_success_is_owed() {
    let ok: Result<i32, String> = Ok(5);
    let object = <Result<i32, String> as IntoJavaValue>::into(ok);
    assert_eq!(<Result<i32, String> as FromJavaValue>::from(object), Ok(5));
    let err: Result<i32, String> = Err("boom".to_string());
    let object = <Result<i32, String> as IntoJavaValue>::into(err);
    assert_eq!(<Result<i32, String> as FromJavaValue>::from(object), Err("boom".to_string()));
}

#[test]
fn result_with_unknown_tag_is_reported() {
    let object = JavaObject::Tagged { tag: 2, value: Box::new(boxed_int(5)) };
    assert_eq!(
        <Result<i32, String> as TryFromJavaValue>::try_from(object),
        Err(ConversionError::InvariantViolation { value: 2 })
    );
    let object = JavaObject::Tagged { tag: -1, value: Box::new(JavaObject::Null) };
    assert_eq!(
        <Result<i32, String> as TryFromJavaValue>::try_from(object),
        Err(ConversionError::InvariantViolation { value: -1 })
    );
}

#[test]
fn result_payload_of_the_other_branch_is_a_mismatch() {
    let object = JavaObject::Tagged { tag: 0, value: Box::new(JavaObject::Text("x".to_string())) };
    assert_eq!(
        <Result<i32, String> as TryFromJavaValue>::try_from(object),
        Err(ConversionError::TypeMismatch { expected: Kind::Int, actual: Kind::Text })
    );
    assert_eq!(
        <Result<i32, String> as TryFromJavaValue>::try_from(boxed_int(1)),
        Err(ConversionError::TypeMismatch { expected: Kind::Tagged, actual: Kind::Int })
    );
}

#[test]
fn sequence_keeps_order_and_length() {
    let object = <Vec<i32> as TryIntoJavaValue>::try_into(vec![1, 2, 3]).unwrap();
    assert_eq!(object, JavaObject::List(vec![boxed_int(1), boxed_int(2), boxed_int(3)]));
    assert_eq!(<Vec<i32> as TryFromJavaValue>::try_from(object), Ok(vec![1, 2, 3]));
    let object = <Vec<i32> as IntoJavaValue>::into(vec![1, 2, 3]);
    assert_eq!(<Vec<i32> as FromJavaValue>::from(object), vec![1, 2, 3]);
}

#[test]
fn empty_sequence_round_trip() {
    let empty = <Vec<i32> as IntoJavaValue>::into(Vec::new());
    assert_eq!(empty, JavaObject::List(Vec::new()));
    assert_eq!(<Vec<i32> as FromJavaValue>::from(empty), Vec::<i32>::new());
    let empty = <Vec<String> as TryIntoJavaValue>::try_into(Vec::new()).unwrap();
    assert_eq!(<Vec<String> as TryFromJavaValue>::try_from(empty), Ok(Vec::new()));
}

#[test]
fn sequence_reports_first_failure() {
    let object = JavaObject::List(vec![boxed_int(1), JavaObject::Text("x".to_string()), JavaObject::Null]);
    assert_eq!(
        <Vec<i32> as TryFromJavaValue>::try_from(object),
        Err(ConversionError::TypeMismatch { expected: Kind::Int, actual: Kind::Text })
    );
    assert_eq!(
        <Vec<i32> as TryFromJavaValue>::try_from(JavaObject::Null),
        Err(ConversionError::TypeMismatch { expected: Kind::List, actual: Kind::Null })
    );
}

#[test]
fn sequence_of_optional_values_keeps_the_gaps() {
    let values = vec![Some(1), None, Some(3)];
    let object = <Vec<Option<i32>> as IntoJavaValue>::into(values);
    assert_eq!(object, JavaObject::List(vec![boxed_int(1), JavaObject::Null, boxed_int(3)]));
    assert_eq!(<Vec<Option<i32>> as FromJavaValue>::from(object), vec![Some(1), None, Some(3)]);
}

#[test]
fn nested_sequences_round_trip() {
    let values = vec![vec!["a".to_string()], Vec::new(), vec!["b".to_string(), "c".to_string()]];
    let object = <Vec<Vec<String>> as TryIntoJavaValue>::try_into(values).unwrap();
    assert_eq!(
        <Vec<Vec<String>> as TryFromJavaValue>::try_from(object),
        Ok(vec![vec!["a".to_string()], Vec::new(), vec!["b".to_string(), "c".to_string()]])
    );
}

#[test]
fn boolean_array_round_trip() {
    let bits: Box<[bool]> = vec![true, false, true].into_boxed_slice();
    let object = <Box<[bool]> as IntoJavaValue>::into(bits);
    assert_eq!(object, JavaObject::BooleanArray(vec![1, 0, 1]));
    let back = <Box<[bool]> as FromJavaValue>::from(object);
    assert_eq!(back.to_vec(), vec![true, false, true]);
    let object = <Box<[bool]> as TryIntoJavaValue>::try_into(Vec::new().into_boxed_slice());
    assert_eq!(object, Ok(JavaObject::BooleanArray(Vec::new())));
}

#[test]
fn boolean_array_reads_one_as_true() {
    let object = JavaObject::BooleanArray(vec![0, 1, 2, 255]);
    let back = <Box<[bool]> as TryFromJavaValue>::try_from(object).unwrap();
    assert_eq!(back.to_vec(), vec![false, true, false, false]);
    assert_eq!(
        <Box<[bool]> as TryFromJavaValue>::try_from(JavaObject::List(Vec::new())),
        Err(ConversionError::TypeMismatch { expected: Kind::BooleanArray, actual: Kind::List })
    );
}

#[test]
fn families_agree_on_composites() {
    let owed = <Vec<Option<i32>> as IntoJavaValue>::into(vec![Some(1), None]);
    let tried = <Vec<Option<i32>> as TryIntoJavaValue>::try_into(vec![Some(1), None]);
    assert_eq!(tried, Ok(owed));
    let a = <Result<i32, String> as FromJavaValue>::from(JavaObject::Tagged {
        tag: 0,
        value: Box::new(boxed_int(3)),
    });
    let b = <Result<i32, String> as TryFromJavaValue>::try_from(JavaObject::Tagged {
        tag: 0,
        value: Box::new(boxed_int(3)),
    });
    assert_eq!(b, Ok(a));
}

#[test]
fn object_kinds() {
    assert_eq!(JavaObject::Null.kind(), Kind::Null);
    assert_eq!(boxed_int(1).kind(), Kind::Int);
    assert_eq!(JavaObject::Text("".to_string()).kind(), Kind::Text);
    assert_eq!(JavaObject::BooleanArray(Vec::new()).kind(), Kind::BooleanArray);
    assert_eq!(JavaObject::List(Vec::new()).kind(), Kind::List);
    assert_eq!(JavaObject::Tagged { tag: 0, value: Box::new(JavaObject::Null) }.kind(), Kind::Tagged);
    assert_eq!(JavaObject::Tuple(Vec::new()).kind(), Kind::Tuple);
    assert!(JavaObject::Null.is_null());
    assert!(!boxed_int(0).is_null());
}
