use jni::signature::{JavaType, Primitive, ReturnType, TypeSignature};
use robusta_jni::convert::config::{tuple_signature, MAX_TUPLE_ARITY, RESULT_JNI_SIGNATURE};
use robusta_jni::convert::Signature;
use robusta_jni::layout::{
    box_class, box_signature, class_name, list_constructor_signature, new_array_signature,
    primitive_signature, result_constructor_signature, signature_of,
    tuple_constructor_signature, tuple_field, unbox_method, unbox_signature,
};
use robusta_jni::object::JavaObject;
use robusta_jni::registry::ParsedForms;
use robusta_jni::value::{JDouble, JFloat, PrimitiveKind};

#[test]
fn primitives_have_one_letter() {
    assert_eq!(<u8 as Signature>::sig_type(), "Z");
    assert_eq!(<i8 as Signature>::sig_type(), "B");
    assert_eq!(<u16 as Signature>::sig_type(), "C");
    assert_eq!(<JDouble as Signature>::sig_type(), "D");
    assert_eq!(<JFloat as Signature>::sig_type(), "F");
    assert_eq!(<i32 as Signature>::sig_type(), "I");
    assert_eq!(<i64 as Signature>::sig_type(), "J");
    assert_eq!(<i16 as Signature>::sig_type(), "S");
    assert_eq!(<() as Signature>::sig_type(), "V");
    assert_eq!(<bool as Signature>::sig_type(), "Z");
    assert_eq!(<char as Signature>::sig_type(), "C");
}

#[test]
fn composites_follow_the_rules() {
    assert_eq!(<String as Signature>::sig_type(), "Ljava/lang/String;");
    assert_eq!(<JavaObject as Signature>::sig_type(), "Ljava/lang/Object;");
    assert_eq!(<Box<[bool]> as Signature>::sig_type(), "[Z");
    assert_eq!(<Box<[u8]> as Signature>::sig_type(), "[B");
    assert_eq!(<Vec<i32> as Signature>::sig_type(), "Ljava/util/ArrayList;");
    assert_eq!(<Vec<String> as Signature>::sig_type(), "Ljava/util/ArrayList;");
    assert_eq!(<Option<i32> as Signature>::sig_type(), "I");
    assert_eq!(<Option<String> as Signature>::sig_type(), "Ljava/lang/String;");
    assert_eq!(<Result<i32, String> as Signature>::sig_type(), "LResult;");
    assert_eq!(RESULT_JNI_SIGNATURE, "LResult;");
}

#[test]
fn signature_is_the_same_on_every_call() {
    let mut forms = ParsedForms::new();
    assert_eq!(<Vec<i32> as Signature>::sig_type(), <Vec<i32> as Signature>::sig_type());
    assert_eq!(<i32 as Signature>::get_return_type(&mut forms), <i32 as Signature>::get_return_type(&mut forms));
}

#[test]
fn parsed_forms_of_a_primitive() {
    let mut forms = ParsedForms::new();
    assert_eq!(<i32 as Signature>::get_java_type(&mut forms), Some(JavaType::Primitive(Primitive::Int)));
    assert_eq!(<i32 as Signature>::get_return_type(&mut forms), Some(ReturnType::Primitive(Primitive::Int)));
    assert_eq!(<i32 as Signature>::get_type_signature(&mut forms), None);
    assert_eq!(<() as Signature>::get_return_type(&mut forms), Some(ReturnType::Primitive(Primitive::Void)));
    assert_eq!(<bool as Signature>::get_java_type(&mut forms), Some(JavaType::Primitive(Primitive::Boolean)));
}

#[test]
fn parsed_forms_of_a_class() {
    let mut forms = ParsedForms::new();
    assert_eq!(
        <String as Signature>::get_java_type(&mut forms),
        Some(JavaType::Object("java/lang/String".to_string()))
    );
    assert_eq!(<String as Signature>::get_return_type(&mut forms), Some(ReturnType::Object));
    assert_eq!(<Vec<i32> as Signature>::get_return_type(&mut forms), Some(ReturnType::Object));
    assert_eq!(
        <(i32, i32) as Signature>::get_java_type(&mut forms),
        Some(JavaType::Object("Tuple2".to_string()))
    );
    assert_eq!(<Result<i32, i32> as Signature>::get_return_type(&mut forms), Some(ReturnType::Object));
}

#[test]
fn parsed_forms_of_an_array() {
    let mut forms = ParsedForms::new();
    assert_eq!(
        <Box<[bool]> as Signature>::get_java_type(&mut forms),
        Some(JavaType::Array(Box::new(JavaType::Primitive(Primitive::Boolean))))
    );
    assert_eq!(<Box<[u8]> as Signature>::get_return_type(&mut forms), Some(ReturnType::Array));
}

#[test]
fn a_type_is_no_method_signature() {
    let mut forms = ParsedForms::new();
    assert_eq!(<String as Signature>::get_type_signature(&mut forms), None);
    let direct = TypeSignature::from_str("(I)V").unwrap();
    assert_eq!(direct.ret, ReturnType::Primitive(Primitive::Void));
}

#[test]
fn tuple_classes_exist_up_to_twelve() {
    assert_eq!(MAX_TUPLE_ARITY, 12);
    assert_eq!(tuple_signature(0), Some("LTuple0;"));
    assert_eq!(tuple_signature(1), Some("LTuple1;"));
    assert_eq!(tuple_signature(7), Some("LTuple7;"));
    assert_eq!(tuple_signature(12), Some("LTuple12;"));
    assert_eq!(tuple_signature(13), None);
    assert_eq!(tuple_signature(usize::MAX), None);
    for arity in 0..=12usize {
        assert_eq!(tuple_signature(arity), Some(format!("LTuple{};", arity).as_str()));
    }
}

#[test]
fn tuple_constructor_takes_one_object_per_part() {
    assert_eq!(tuple_constructor_signature(0), "()V");
    assert_eq!(tuple_constructor_signature(1), "(Ljava/lang/Object;)V");
    assert_eq!(tuple_constructor_signature(3), "(Ljava/lang/Object;Ljava/lang/Object;Ljava/lang/Object;)V");
    assert_eq!(
        tuple_constructor_signature(12),
        format!("({})V", "Ljava/lang/Object;".repeat(12))
    );
}

#[test]
fn tuple_fields_are_named_by_position() {
    assert_eq!(tuple_field(0), Some("t0"));
    assert_eq!(tuple_field(5), Some("t5"));
    assert_eq!(tuple_field(11), Some("t11"));
    assert_eq!(tuple_field(12), None);
    for index in 0..12usize {
        assert_eq!(tuple_field(index), Some(format!("t{}", index).as_str()));
    }
}

#[test]
fn class_name_is_inside_the_signature() {
    assert_eq!(class_name("Ljava/lang/String;"), Some("java/lang/String"));
    assert_eq!(class_name("LResult;"), Some("Result"));
    assert_eq!(class_name("Lé;"), Some("é"));
    assert_eq!(class_name("I"), None);
    assert_eq!(class_name("[Z"), Some("[Z"));
    assert_eq!(class_name("[Ljava/lang/String;"), Some("[Ljava/lang/String;"));
    assert_eq!(class_name("["), None);
    assert_eq!(class_name("L;"), None);
    assert_eq!(class_name(""), None);
    assert_eq!(class_name("Ljava/lang/String"), None);
    assert_eq!(class_name("java/lang/String;"), None);
}

#[test]
fn boxing_table() {
    assert_eq!(box_class(PrimitiveKind::Boolean), "Ljava/lang/Boolean;");
    assert_eq!(box_class(PrimitiveKind::Byte), "Ljava/lang/Byte;");
    assert_eq!(box_class(PrimitiveKind::Char), "Ljava/lang/Character;");
    assert_eq!(box_class(PrimitiveKind::Double), "Ljava/lang/Double;");
    assert_eq!(box_class(PrimitiveKind::Float), "Ljava/lang/Float;");
    assert_eq!(box_class(PrimitiveKind::Int), "Ljava/lang/Integer;");
    assert_eq!(box_class(PrimitiveKind::Long), "Ljava/lang/Long;");
    assert_eq!(box_class(PrimitiveKind::Short), "Ljava/lang/Short;");
    assert_eq!(box_signature(PrimitiveKind::Int), "(I)Ljava/lang/Integer;");
    assert_eq!(box_signature(PrimitiveKind::Char), "(C)Ljava/lang/Character;");
    assert_eq!(box_signature(PrimitiveKind::Boolean), "(Z)Ljava/lang/Boolean;");
    assert_eq!(unbox_method(PrimitiveKind::Boolean), "booleanValue");
    assert_eq!(unbox_method(PrimitiveKind::Char), "charValue");
    assert_eq!(unbox_method(PrimitiveKind::Int), "intValue");
    assert_eq!(unbox_method(PrimitiveKind::Long), "longValue");
    assert_eq!(unbox_signature(PrimitiveKind::Int), "()I");
    assert_eq!(unbox_signature(PrimitiveKind::Double), "()D");
    assert_eq!(primitive_signature(PrimitiveKind::Short), "S");
    assert_eq!(primitive_signature(PrimitiveKind::Long), "J");
}

#[test]
fn boxing_signatures_parse_as_the_machine_reads_them() {
    let kinds = vec![
        PrimitiveKind::Boolean,
        PrimitiveKind::Byte,
        PrimitiveKind::Char,
        PrimitiveKind::Double,
        PrimitiveKind::Float,
        PrimitiveKind::Int,
        PrimitiveKind::Long,
        PrimitiveKind::Short,
    ];
    for kind in kinds {
        let boxing = TypeSignature::from_str(box_signature(kind)).unwrap();
        assert_eq!(box_signature(kind), format!("({}){}", primitive_signature(kind), box_class(kind)));
        assert_eq!(boxing.args.len(), 1);
        assert_eq!(boxing.ret, ReturnType::Object);
        let unboxing = TypeSignature::from_str(unbox_signature(kind)).unwrap();
        assert_eq!(unboxing.args.len(), 0);
        assert_eq!(Some(unboxing.ret), primitive_signature(kind).parse::<ReturnType>().ok());
        assert!(class_name(box_class(kind)).is_some());
    }
}

#[test]
fn parsed_form_is_kept_and_handed_out_again() {
    let mut forms = ParsedForms::new();
    let first = forms.return_type("Ljava/lang/Integer;");
    let second = forms.return_type("Ljava/lang/Integer;");
    assert_eq!(first, Some(ReturnType::Object));
    assert_eq!(second, first);
    assert_eq!(forms.return_type("not a signature"), None);
    assert_eq!(forms.return_type("not a signature"), None);
    assert_eq!(forms.java_type("[[I"), forms.java_type("[[I"));
    assert_eq!(
        forms.java_type("[[I"),
        Some(JavaType::Array(Box::new(JavaType::Array(Box::new(JavaType::Primitive(
            Primitive::Int
        ))))))
    );
    let method = forms.type_signature("(ILjava/lang/String;)Z").unwrap();
    assert_eq!(method.args.len(), 2);
    assert_eq!(method.ret, ReturnType::Primitive(Primitive::Boolean));
    assert_eq!(forms.type_signature("(ILjava/lang/String;)Z"), Some(method));
    assert_eq!(forms.type_signature("(I"), None);
}

#[test]
fn method_signatures_are_put_together_from_their_parts() {
    assert_eq!(signature_of("", "V"), "()V");
    assert_eq!(signature_of("IJ", "Ljava/lang/Object;"), "(IJ)Ljava/lang/Object;");
    assert_eq!(result_constructor_signature(), "(BLjava/lang/Object;)V");
    assert_eq!(list_constructor_signature(), "(I)V");
    assert_eq!(new_array_signature(), "(Ljava/lang/Class;I)Ljava/lang/Object;");
    assert_eq!(unbox_signature(PrimitiveKind::Boolean), "()Z");
    assert_eq!(box_signature(PrimitiveKind::Long), "(J)Ljava/lang/Long;");
}
