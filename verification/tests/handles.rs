use jni::objects::JObject;
use robusta_jni::error::{ConversionError, Kind};
use robusta_jni::runtime::{
    array_size, boxing_arguments, indices_to_read, instance_checked, list_arguments, object_of,
    result_arguments, tuple_arguments, unboxed, Argument,
};
use robusta_jni::value::{Envelope, JDouble, JFloat, Primitive, PrimitiveKind};

fn mismatch(actual: Kind) -> ConversionError {
    ConversionError::TypeMismatch { expected: Kind::Object, actual }
}

#[test]
fn a_call_that_did_not_complete_is_reported() {
    assert_eq!(object_of(None).unwrap_err(), ConversionError::ForeignException);
}

#[test]
fn an_object_comes_out_of_what_a_call_returned() {
    let handle = object_of(Some(Envelope::Object(JObject::null()))).unwrap();
    assert!(handle.is_null());
}

#[test]
fn a_returned_primitive_is_no_object() {
    assert_eq!(object_of(Some(Envelope::Byte(1))).unwrap_err(), mismatch(Kind::Byte));
    assert_eq!(object_of(Some(Envelope::Char(2))).unwrap_err(), mismatch(Kind::Char));
    assert_eq!(object_of(Some(Envelope::Short(3))).unwrap_err(), mismatch(Kind::Short));
    assert_eq!(object_of(Some(Envelope::Int(4))).unwrap_err(), mismatch(Kind::Int));
    assert_eq!(object_of(Some(Envelope::Long(5))).unwrap_err(), mismatch(Kind::Long));
    assert_eq!(object_of(Some(Envelope::Bool(1))).unwrap_err(), mismatch(Kind::Bool));
    assert_eq!(
        object_of(Some(Envelope::Float(JFloat { bits: 0 }))).unwrap_err(),
        mismatch(Kind::Float)
    );
    assert_eq!(
        object_of(Some(Envelope::Double(JDouble { bits: 0 }))).unwrap_err(),
        mismatch(Kind::Double)
    );
    assert_eq!(object_of(Some(Envelope::Void)).unwrap_err(), mismatch(Kind::Void));
}

#[test]
fn an_unboxing_call_hands_back_the_primitive() {
    assert_eq!(unboxed(Some(Envelope::Int(7)), PrimitiveKind::Int), Ok(Primitive::Int(7)));
    assert_eq!(unboxed(Some(Envelope::Byte(-7)), PrimitiveKind::Byte), Ok(Primitive::Byte(-7)));
    assert_eq!(unboxed(Some(Envelope::Char(66)), PrimitiveKind::Char), Ok(Primitive::Char(66)));
    assert_eq!(unboxed(Some(Envelope::Short(9)), PrimitiveKind::Short), Ok(Primitive::Short(9)));
    assert_eq!(unboxed(Some(Envelope::Long(-9)), PrimitiveKind::Long), Ok(Primitive::Long(-9)));
    assert_eq!(
        unboxed(Some(Envelope::Bool(1)), PrimitiveKind::Boolean),
        Ok(Primitive::Boolean(1))
    );
    assert_eq!(
        unboxed(Some(Envelope::Float(JFloat { bits: 3 })), PrimitiveKind::Float),
        Ok(Primitive::Float(JFloat { bits: 3 }))
    );
    assert_eq!(
        unboxed(Some(Envelope::Double(JDouble { bits: 4 })), PrimitiveKind::Double),
        Ok(Primitive::Double(JDouble { bits: 4 }))
    );
}

#[test]
fn an_unboxing_call_of_another_kind_is_a_mismatch() {
    assert_eq!(
        unboxed(Some(Envelope::Long(7)), PrimitiveKind::Int),
        Err(ConversionError::TypeMismatch { expected: Kind::Int, actual: Kind::Long })
    );
    assert_eq!(
        unboxed(Some(Envelope::Object(JObject::null())), PrimitiveKind::Char),
        Err(ConversionError::TypeMismatch { expected: Kind::Char, actual: Kind::Object })
    );
    assert_eq!(
        unboxed(Some(Envelope::Void), PrimitiveKind::Boolean),
        Err(ConversionError::TypeMismatch { expected: Kind::Bool, actual: Kind::Void })
    );
    assert_eq!(unboxed(None, PrimitiveKind::Int), Err(ConversionError::ForeignException));
}

#[test]
fn the_class_test_decides() {
    assert_eq!(instance_checked(Some(true), Kind::Text), Ok(()));
    assert_eq!(
        instance_checked(Some(false), Kind::Text),
        Err(ConversionError::TypeMismatch { expected: Kind::Text, actual: Kind::Object })
    );
    assert_eq!(instance_checked(None, Kind::List), Err(ConversionError::ForeignException));
}

#[test]
fn a_reported_length_decides_how_much_is_read() {
    assert_eq!(array_size(Some(0)), Ok(0));
    assert_eq!(array_size(Some(3)), Ok(3));
    assert_eq!(array_size(Some(i32::MAX)), Ok(i32::MAX as usize));
    assert_eq!(array_size(Some(-1)), Err(ConversionError::InvariantViolation { value: -1 }));
    assert_eq!(array_size(None), Err(ConversionError::ForeignException));
}

#[test]
fn a_reported_size_decides_which_indices_are_read() {
    assert_eq!(indices_to_read(Some(0)), Ok(Vec::new()));
    assert_eq!(indices_to_read(Some(1)), Ok(vec![0]));
    assert_eq!(indices_to_read(Some(4)), Ok(vec![0, 1, 2, 3]));
    assert_eq!(indices_to_read(Some(-2)), Ok(Vec::new()));
    assert_eq!(indices_to_read(None), Err(ConversionError::ForeignException));
}

#[test]
fn argument_lists_hold_what_they_are_made_from() {
    let args = boxing_arguments(Primitive::Int(5));
    assert_eq!(args.len(), 1);
    assert!(matches!(args[0], Argument::Primitive(Primitive::Int(5))));

    let args = list_arguments(3);
    assert_eq!(args.len(), 1);
    assert!(matches!(args[0], Argument::Primitive(Primitive::Int(3))));
    let args = list_arguments(usize::MAX);
    assert!(matches!(args[0], Argument::Primitive(Primitive::Int(i32::MAX))));

    let args = result_arguments(1, JObject::null());
    assert_eq!(args.len(), 2);
    assert!(matches!(args[0], Argument::Primitive(Primitive::Byte(1))));
    assert!(matches!(&args[1], Argument::Object(o) if o.is_null()));

    let args = tuple_arguments(&vec![JObject::null(), JObject::null(), JObject::null()]);
    assert_eq!(args.len(), 3);
    for arg in &args {
        assert!(matches!(arg, Argument::Object(o) if o.is_null()));
    }
    assert!(tuple_arguments(&Vec::new()).is_empty());
}
