use suffete::element::{CallableInfo, DefiningEntity, Element, MixedInfo, Signature, Truthiness, Type};
use suffete::prelude::{class_string, general_int, mixed, string, type_int, truthy_string};
use suffete::serialize::{
    decode_int, decode_truthiness, encode_int, encode_truthiness, SerializableElement, SerializableInt,
};

#[test]
fn round_trip_preserves_structure() {
    let t = Element::generic_parameter("T", DefiningEntity::class_like("Box"), type_int());
    let ty = Type::union(vec![
        Element::list(Type::single(t), true),
        Element::object("Box", vec![Type::single(string())]),
        Element::int_range(Some(1), None),
        truthy_string(),
        class_string(),
        mixed(),
    ]);
    let back = ty.to_serializable().intern();
    assert!(back.same(&ty));
}

#[test]
fn round_trip_keeps_the_loop_axis() {
    let looped = Element::Mixed(MixedInfo {
        non_null: true,
        truthiness: Truthiness::Undetermined,
        empty: false,
        isset_from_loop: true,
    });
    let ty = Type::single(looped);
    let back = ty.to_serializable().intern();
    assert!(back.same(&ty));
    match &back.elements[0] {
        Element::Mixed(m) => {
            assert!(m.non_null);
            assert!(m.isset_from_loop);
        }
        _ => panic!("expected mixed"),
    }
}

#[test]
fn payload_codecs_round_trip() {
    assert_eq!(decode_int(encode_int(suffete::element::IntInfo::Literal(7))), suffete::element::IntInfo::Literal(7));
    assert_eq!(encode_int(suffete::element::IntInfo::Range(None, Some(3))), SerializableInt::Range { lower: None, upper: Some(3) });
    assert_eq!(decode_truthiness(encode_truthiness(Truthiness::Falsy)), Truthiness::Falsy);
    assert!(matches!(general_int().to_serializable(), SerializableElement::Int(SerializableInt::Unspecified)));
}

#[test]
fn round_trip_keeps_an_empty_parameter_list() {
    let sig = Signature { return_type: type_int(), throws: None, parameters: Some(vec![]), is_variadic: false, is_pure: false };
    let ty = Type::single(Element::Callable(CallableInfo::Signature(sig)));
    let back = ty.to_serializable().intern();
    assert!(back.same(&ty));
    match &back.elements[0] {
        Element::Callable(CallableInfo::Signature(s)) => assert!(matches!(&s.parameters, Some(ps) if ps.is_empty())),
        _ => panic!("expected a signature"),
    }
}
