use pgbind::codec::Codec;
use pgbind::descriptor::{
    ComparisonPolicy, DescriptorError, DomainDescriptor, EnumDescriptor, TypeDescriptor,
};
use pgbind::error::{DecodeError, DecodeErrorKind, EncodeError, EncodeErrorKind};
use pgbind::value::{DomainText, EnumTag, ScalarValue, Value};

fn names(items: &[&str]) -> Vec<String> {
    items.iter().map(|s| s.to_string()).collect()
}

fn status() -> TypeDescriptor {
    TypeDescriptor::Enum(
        EnumDescriptor::new("status".to_string(), 16385, names(&["open", "closed"])).unwrap(),
    )
}

fn tag(member: &str) -> ScalarValue {
    ScalarValue::Enum(EnumTag { enum_name: "status".to_string(), member: member.to_string() })
}

fn citext() -> TypeDescriptor {
    TypeDescriptor::Domain(DomainDescriptor {
        name: "citext".to_string(),
        oid: 16400,
        policy: ComparisonPolicy::CaseInsensitive,
    })
}

fn round_trip(descriptor: &TypeDescriptor, value: ScalarValue) {
    let codec = Codec::Scalar(descriptor);
    let value = Value::Scalar(value);
    let wire = codec.encode(&value).unwrap();
    assert_eq!(codec.decode(&wire), Ok(value));
}

#[test]
fn enum_descriptor_refuses_repeated_member() {
    let r = EnumDescriptor::new("status".to_string(), 1, names(&["open", "closed", "open"]));
    assert_eq!(r, Err(DescriptorError::DuplicateMember));
}

#[test]
fn enum_descriptor_keeps_name_oid_and_member_order() {
    let d = EnumDescriptor::new("status".to_string(), 7, names(&["open", "closed"])).unwrap();
    assert_eq!(d.name(), "status");
    assert_eq!(d.oid(), 7);
    assert_eq!(d.members(), &names(&["open", "closed"]));
    assert!(d.has_member(&"closed".to_string()));
    assert!(!d.has_member(&"Closed".to_string()));
    assert_eq!(d.clone(), d);
}

#[test]
fn builtin_oids() {
    assert_eq!(TypeDescriptor::Boolean.oid(), 16);
    assert_eq!(TypeDescriptor::Integer.oid(), 20);
    assert_eq!(TypeDescriptor::Text.oid(), 25);
    assert_eq!(TypeDescriptor::Floating.oid(), 701);
    assert_eq!(TypeDescriptor::Uuid.oid(), 2950);
    assert_eq!(status().oid(), 16385);
    assert_eq!(citext().oid(), 16400);
}

#[test]
fn text_wire_form_is_utf8() {
    let codec = Codec::Scalar(&TypeDescriptor::Text);
    let wire = codec.encode(&Value::Scalar(ScalarValue::Text("h\u{e9}".to_string()))).unwrap();
    assert_eq!(wire, Some(vec![0x68, 0xC3, 0xA9]));
}

#[test]
fn text_decodes_from_utf8() {
    let codec = Codec::Scalar(&TypeDescriptor::Text);
    let value = codec.decode(&Some(vec![0xE2, 0x82, 0xAC, 0x31])).unwrap();
    assert_eq!(value, Value::Scalar(ScalarValue::Text("\u{20ac}1".to_string())));
}

#[test]
fn text_refuses_bytes_that_are_not_utf8() {
    let codec = Codec::Scalar(&TypeDescriptor::Text);
    assert_eq!(
        codec.decode(&Some(vec![0x66, 0xFF])),
        Err(DecodeError { kind: DecodeErrorKind::InvalidUtf8, position: None })
    );
    assert_eq!(
        Codec::Scalar(&citext()).decode(&Some(vec![0xC3])),
        Err(DecodeError { kind: DecodeErrorKind::InvalidUtf8, position: None })
    );
    assert_eq!(
        Codec::Scalar(&status()).decode(&Some(vec![0x80])),
        Err(DecodeError { kind: DecodeErrorKind::InvalidUtf8, position: None })
    );
}

#[test]
fn boolean_wire_form_is_one_byte() {
    let codec = Codec::Scalar(&TypeDescriptor::Boolean);
    assert_eq!(codec.encode(&Value::Scalar(ScalarValue::Boolean(true))), Ok(Some(vec![1])));
    assert_eq!(codec.encode(&Value::Scalar(ScalarValue::Boolean(false))), Ok(Some(vec![0])));
    assert_eq!(codec.decode(&Some(vec![1])), Ok(Value::Scalar(ScalarValue::Boolean(true))));
    assert_eq!(codec.decode(&Some(vec![0])), Ok(Value::Scalar(ScalarValue::Boolean(false))));
}

#[test]
fn boolean_refuses_other_bytes_and_lengths() {
    let codec = Codec::Scalar(&TypeDescriptor::Boolean);
    assert_eq!(
        codec.decode(&Some(vec![2])),
        Err(DecodeError { kind: DecodeErrorKind::InvalidBoolean, position: None })
    );
    assert_eq!(
        codec.decode(&Some(vec![])),
        Err(DecodeError { kind: DecodeErrorKind::WrongLength, position: None })
    );
    assert_eq!(
        codec.decode(&Some(vec![1, 0])),
        Err(DecodeError { kind: DecodeErrorKind::WrongLength, position: None })
    );
}

#[test]
fn integer_wire_form_is_eight_bytes_in_network_order() {
    let codec = Codec::Scalar(&TypeDescriptor::Integer);
    assert_eq!(
        codec.encode(&Value::Scalar(ScalarValue::Integer(0x0102030405060708))),
        Ok(Some(vec![1, 2, 3, 4, 5, 6, 7, 8]))
    );
    assert_eq!(
        codec.encode(&Value::Scalar(ScalarValue::Integer(-1))),
        Ok(Some(vec![0xFF; 8]))
    );
    assert_eq!(
        codec.encode(&Value::Scalar(ScalarValue::Integer(-2))),
        Ok(Some(vec![0xFF, 0xFF, 0xFF, 0xFF, 0xFF, 0xFF, 0xFF, 0xFE]))
    );
    assert_eq!(
        codec.encode(&Value::Scalar(ScalarValue::Integer(i64::MIN))),
        Ok(Some(vec![0x80, 0, 0, 0, 0, 0, 0, 0]))
    );
    assert_eq!(
        codec.decode(&Some(vec![0xFF, 0xFF, 0xFF, 0xFF, 0xFF, 0xFF, 0xFF, 0xD6])),
        Ok(Value::Scalar(ScalarValue::Integer(-42)))
    );
    assert_eq!(
        codec.decode(&Some(vec![0, 0, 0, 0, 0, 0, 1, 0])),
        Ok(Value::Scalar(ScalarValue::Integer(256)))
    );
}

#[test]
fn integer_refuses_other_lengths() {
    let codec = Codec::Scalar(&TypeDescriptor::Integer);
    assert_eq!(
        codec.decode(&Some(vec![0, 0, 0, 1])),
        Err(DecodeError { kind: DecodeErrorKind::WrongLength, position: None })
    );
    assert_eq!(
        Codec::Scalar(&TypeDescriptor::Floating).decode(&Some(vec![0; 9])),
        Err(DecodeError { kind: DecodeErrorKind::WrongLength, position: None })
    );
}

#[test]
fn floating_wire_form_is_the_bit_pattern() {
    let codec = Codec::Scalar(&TypeDescriptor::Floating);
    let value = Value::Scalar(ScalarValue::Floating(1.5f64.to_bits()));
    let wire = codec.encode(&value).unwrap();
    assert_eq!(wire, Some(vec![0x3F, 0xF8, 0, 0, 0, 0, 0, 0]));
    match codec.decode(&wire).unwrap() {
        Value::Scalar(ScalarValue::Floating(bits)) => assert_eq!(f64::from_bits(bits), 1.5),
        other => panic!("unexpected value {:?}", other),
    }
}

#[test]
fn uuid_wire_form_is_its_sixteen_bytes() {
    let codec = Codec::Scalar(&TypeDescriptor::Uuid);
    let id = 0x0011_2233_4455_6677_8899_AABB_CCDD_EEFFu128;
    let bytes: Vec<u8> = (0..16u8).map(|i| i * 0x11).collect();
    assert_eq!(codec.encode(&Value::Scalar(ScalarValue::Uuid(id))), Ok(Some(bytes.clone())));
    assert_eq!(codec.decode(&Some(bytes)), Ok(Value::Scalar(ScalarValue::Uuid(id))));
    assert_eq!(codec.decode(&Some(vec![0; 16])), Ok(Value::Scalar(ScalarValue::Uuid(0))));
    assert_eq!(
        codec.decode(&Some(vec![0xFF; 16])),
        Ok(Value::Scalar(ScalarValue::Uuid(u128::MAX)))
    );
    assert_eq!(
        codec.decode(&Some(vec![0; 15])),
        Err(DecodeError { kind: DecodeErrorKind::WrongLength, position: None })
    );
    assert_eq!(
        codec.decode(&Some(vec![0; 17])),
        Err(DecodeError { kind: DecodeErrorKind::WrongLength, position: None })
    );
    assert_eq!(
        codec.encode(&Value::Scalar(ScalarValue::Integer(1))),
        Err(EncodeError { kind: EncodeErrorKind::TypeMismatch, position: None })
    );
    assert_eq!(
        Codec::Scalar(&TypeDescriptor::Integer).encode(&Value::Scalar(ScalarValue::Uuid(1))),
        Err(EncodeError { kind: EncodeErrorKind::TypeMismatch, position: None })
    );
}

#[test]
fn scalars_round_trip() {
    for id in [0u128, 1, u128::MAX, 1 << 64, (1 << 64) - 1, 0x8000_0000_0000_0000_0000_0000_0000_0001] {
        round_trip(&TypeDescriptor::Uuid, ScalarValue::Uuid(id));
    }
    round_trip(&TypeDescriptor::Text, ScalarValue::Text(String::new()));
    round_trip(&TypeDescriptor::Text, ScalarValue::Text("insert_text_col".to_string()));
    round_trip(&TypeDescriptor::Text, ScalarValue::Text("\u{1F600} \u{7FF} \u{800}".to_string()));
    round_trip(&TypeDescriptor::Boolean, ScalarValue::Boolean(true));
    round_trip(&TypeDescriptor::Boolean, ScalarValue::Boolean(false));
    for i in [0i64, 1, -1, 42, i64::MAX, i64::MIN, 0x7FFF_FFFF, -0x8000_0000] {
        round_trip(&TypeDescriptor::Integer, ScalarValue::Integer(i));
    }
    for x in [0.0f64, -0.0, 1.5, f64::MAX, f64::NAN, f64::INFINITY] {
        round_trip(&TypeDescriptor::Floating, ScalarValue::Floating(x.to_bits()));
    }
    round_trip(&status(), tag("open"));
    round_trip(&status(), tag("closed"));
    round_trip(
        &citext(),
        ScalarValue::Domain(DomainText { domain: "citext".to_string(), text: "MiXed".to_string() }),
    );
    for d in [TypeDescriptor::Text, TypeDescriptor::Boolean, status(), citext()] {
        round_trip(&d, ScalarValue::Null);
    }
}

#[test]
fn enum_closed_round_trips() {
    let descriptor = status();
    let codec = Codec::Scalar(&descriptor);
    let wire = codec.encode(&Value::Scalar(tag("closed"))).unwrap();
    assert_eq!(wire, Some(b"closed".to_vec()));
    let stored = wire.clone();
    assert_eq!(codec.decode(&stored), Ok(Value::Scalar(tag("closed"))));
}

#[test]
fn enum_decode_refuses_unknown_member() {
    let descriptor = status();
    let codec = Codec::Scalar(&descriptor);
    for name in ["pending", "Open", "", "open ", "closedd"] {
        assert_eq!(
            codec.decode(&Some(name.as_bytes().to_vec())),
            Err(DecodeError { kind: DecodeErrorKind::UnknownEnumMember, position: None })
        );
    }
}

#[test]
fn enum_encode_refuses_unknown_member_and_other_enums() {
    let descriptor = status();
    let codec = Codec::Scalar(&descriptor);
    assert_eq!(
        codec.encode(&Value::Scalar(tag("pending"))),
        Err(EncodeError { kind: EncodeErrorKind::UnknownEnumMember, position: None })
    );
    let other = ScalarValue::Enum(EnumTag {
        enum_name: "colour".to_string(),
        member: "open".to_string(),
    });
    assert_eq!(
        codec.encode(&Value::Scalar(other)),
        Err(EncodeError { kind: EncodeErrorKind::TypeMismatch, position: None })
    );
}

#[test]
fn domain_text_is_text_on_the_wire_and_a_type_of_its_own_in_the_application() {
    let descriptor = citext();
    let domain = Codec::Scalar(&descriptor);
    let plain = Codec::Scalar(&TypeDescriptor::Text);
    let wrapped = Value::Scalar(ScalarValue::Domain(DomainText {
        domain: "citext".to_string(),
        text: "Hello".to_string(),
    }));
    let text = Value::Scalar(ScalarValue::Text("Hello".to_string()));
    let wire = domain.encode(&wrapped).unwrap();
    assert_eq!(wire, plain.encode(&text).unwrap());
    assert_eq!(domain.decode(&wire), Ok(wrapped.clone()));
    assert_eq!(plain.decode(&wire), Ok(text.clone()));
    assert_ne!(wrapped, text);
    match domain.decode(&wire).unwrap() {
        Value::Scalar(ScalarValue::Domain(d)) => assert_eq!(d.text, "Hello"),
        other => panic!("unexpected value {:?}", other),
    }
}

#[test]
fn encode_refuses_a_value_of_another_kind() {
    let mismatch = Err(EncodeError { kind: EncodeErrorKind::TypeMismatch, position: None });
    let descriptor = citext();
    let domain = Codec::Scalar(&descriptor);
    assert_eq!(domain.encode(&Value::Scalar(ScalarValue::Integer(42))), mismatch);
    assert_eq!(domain.encode(&Value::Scalar(ScalarValue::Text("x".to_string()))), mismatch);
    assert_eq!(
        domain.encode(&Value::Array(vec![
            ScalarValue::Text("hello".to_string()),
            ScalarValue::Text("world".to_string()),
        ])),
        mismatch
    );
    let other_domain = ScalarValue::Domain(DomainText {
        domain: "mytext".to_string(),
        text: "x".to_string(),
    });
    assert_eq!(domain.encode(&Value::Scalar(other_domain)), mismatch);
    let text = Codec::Scalar(&TypeDescriptor::Text);
    assert_eq!(text.encode(&Value::Scalar(ScalarValue::Boolean(true))), mismatch);
    assert_eq!(text.encode(&Value::Scalar(tag("open"))), mismatch);
    let integer = Codec::Scalar(&TypeDescriptor::Integer);
    assert_eq!(integer.encode(&Value::Scalar(ScalarValue::Floating(0))), mismatch);
    assert_eq!(integer.encode(&Value::Scalar(ScalarValue::Text("1".to_string()))), mismatch);
    let floating = Codec::Scalar(&TypeDescriptor::Floating);
    assert_eq!(floating.encode(&Value::Scalar(ScalarValue::Integer(1))), mismatch);
    let boolean = Codec::Scalar(&TypeDescriptor::Boolean);
    assert_eq!(boolean.encode(&Value::Scalar(ScalarValue::Integer(1))), mismatch);
    let array = Codec::Array(&TypeDescriptor::Text);
    assert_eq!(array.encode(&Value::Scalar(ScalarValue::Text("x".to_string()))), mismatch);
}

#[test]
fn null_column_decodes_to_null_whatever_the_type() {
    let enum_type = status();
    let domain_type = citext();
    let types = [
        &TypeDescriptor::Text,
        &TypeDescriptor::Boolean,
        &TypeDescriptor::Integer,
        &TypeDescriptor::Floating,
        &TypeDescriptor::Uuid,
        &enum_type,
        &domain_type,
    ];
    for d in types {
        assert_eq!(Codec::Scalar(d).decode(&None), Ok(Value::Scalar(ScalarValue::Null)));
        assert_eq!(Codec::Array(d).decode(&None), Ok(Value::Scalar(ScalarValue::Null)));
        assert_eq!(Codec::Scalar(d).encode(&Value::Scalar(ScalarValue::Null)), Ok(None));
        assert_eq!(Codec::Array(d).encode(&Value::Scalar(ScalarValue::Null)), Ok(None));
    }
}
