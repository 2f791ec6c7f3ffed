use pgbind::array::{frame_array, parse_array};
use pgbind::codec::Codec;
use pgbind::descriptor::{EnumDescriptor, TypeDescriptor};
use pgbind::error::{DecodeError, DecodeErrorKind, EncodeError, EncodeErrorKind};
use pgbind::value::{EnumTag, ScalarValue, Value};

fn status_type() -> TypeDescriptor {
    let members = vec!["open".to_string(), "closed".to_string()];
    TypeDescriptor::Enum(EnumDescriptor::new("status".to_string(), 0x4001, members).unwrap())
}

fn status_tag(member: &str) -> ScalarValue {
    ScalarValue::Enum(EnumTag { enum_name: "status".to_string(), member: member.to_string() })
}

fn header(dimensions: u32, flags: u32, oid: u32) -> Vec<u8> {
    let mut out = Vec::new();
    out.extend_from_slice(&dimensions.to_be_bytes());
    out.extend_from_slice(&flags.to_be_bytes());
    out.extend_from_slice(&oid.to_be_bytes());
    out
}

fn array_of(flags: u32, oid: u32, count: u32, lower: u32, elements: &[Option<&[u8]>]) -> Vec<u8> {
    let mut out = header(1, flags, oid);
    out.extend_from_slice(&count.to_be_bytes());
    out.extend_from_slice(&lower.to_be_bytes());
    for e in elements {
        match e {
            None => out.extend_from_slice(&(-1i32).to_be_bytes()),
            Some(bytes) => {
                out.extend_from_slice(&(bytes.len() as i32).to_be_bytes());
                out.extend_from_slice(bytes);
            }
        }
    }
    out
}

fn malformed(kind: DecodeErrorKind) -> Result<Value, DecodeError> {
    Err(DecodeError { kind, position: None })
}

#[test]
fn array_wire_form_is_exact() {
    let codec = Codec::Array(&TypeDescriptor::Text);
    let value = Value::Array(vec![
        ScalarValue::Text("ab".to_string()),
        ScalarValue::Null,
        ScalarValue::Text(String::new()),
    ]);
    let wire = codec.encode(&value).unwrap().unwrap();
    let expected: Vec<u8> = vec![
        0, 0, 0, 1,
        0, 0, 0, 1,
        0, 0, 0, 25,
        0, 0, 0, 3,
        0, 0, 0, 1,
        0, 0, 0, 2, b'a', b'b',
        0xFF, 0xFF, 0xFF, 0xFF,
        0, 0, 0, 0,
    ];
    assert_eq!(wire, expected);
    assert_eq!(codec.decode(&Some(wire)), Ok(value));
}

#[test]
fn array_without_nulls_has_flags_zero() {
    let codec = Codec::Array(&TypeDescriptor::Integer);
    let value = Value::Array(vec![ScalarValue::Integer(7)]);
    let wire = codec.encode(&value).unwrap().unwrap();
    assert_eq!(wire, array_of(0, 20, 1, 1, &[Some(&[0, 0, 0, 0, 0, 0, 0, 7])]));
}

#[test]
fn array_of_three_enum_values_keeps_order() {
    let descriptor = status_type();
    let codec = Codec::Array(&descriptor);
    let wire = array_of(0, 0x4001, 3, 1, &[Some(b"open"), Some(b"closed"), Some(b"open")]);
    let decoded = codec.decode(&Some(wire.clone())).unwrap();
    assert_eq!(
        decoded,
        Value::Array(vec![status_tag("open"), status_tag("closed"), status_tag("open")])
    );
    assert_eq!(codec.encode(&decoded), Ok(Some(wire)));
}

#[test]
fn arrays_round_trip() {
    let descriptor = status_type();
    let values = vec![
        (Codec::Array(&descriptor), Value::Array(vec![])),
        (Codec::Array(&descriptor), Value::Array(vec![ScalarValue::Null])),
        (
            Codec::Array(&descriptor),
            Value::Array(vec![status_tag("closed"), ScalarValue::Null, status_tag("open")]),
        ),
        (
            Codec::Array(&TypeDescriptor::Boolean),
            Value::Array(vec![ScalarValue::Boolean(true), ScalarValue::Boolean(false)]),
        ),
        (
            Codec::Array(&TypeDescriptor::Floating),
            Value::Array(vec![ScalarValue::Floating(2.25f64.to_bits()), ScalarValue::Null]),
        ),
        (
            Codec::Array(&TypeDescriptor::Text),
            Value::Array((0..300).map(|i| ScalarValue::Text("x".repeat(i))).collect()),
        ),
        (Codec::Array(&TypeDescriptor::Text), Value::Scalar(ScalarValue::Null)),
    ];
    for (codec, value) in values {
        let wire = codec.encode(&value).unwrap();
        assert_eq!(codec.decode(&wire), Ok(value));
    }
}

#[test]
fn empty_array_and_null_array_are_never_confused() {
    let codec = Codec::Array(&TypeDescriptor::Text);
    let empty = Value::Array(vec![]);
    let null = Value::Scalar(ScalarValue::Null);
    assert_eq!(codec.decode(&None), Ok(null.clone()));
    assert_eq!(codec.decode(&Some(header(0, 0, 25))), Ok(empty.clone()));
    assert_eq!(codec.decode(&Some(array_of(0, 25, 0, 1, &[]))), Ok(empty.clone()));
    assert_eq!(codec.encode(&empty), Ok(Some(array_of(0, 25, 0, 1, &[]))));
    assert_eq!(codec.encode(&null), Ok(None));
    assert_ne!(empty, null);
    assert_ne!(
        codec.decode(&Some(array_of(1, 25, 1, 1, &[None]))),
        codec.decode(&Some(array_of(0, 25, 0, 1, &[])))
    );
    assert_eq!(
        codec.decode(&Some(array_of(1, 25, 1, 1, &[None]))),
        Ok(Value::Array(vec![ScalarValue::Null]))
    );
}

#[test]
fn array_decode_reports_the_first_failing_element_with_its_position() {
    let descriptor = status_type();
    let codec = Codec::Array(&descriptor);
    let wire = array_of(
        0,
        0x4001,
        4,
        1,
        &[Some(b"open"), Some(b"pending"), Some(&[0xFF]), Some(b"closed")],
    );
    assert_eq!(
        codec.decode(&Some(wire)),
        Err(DecodeError { kind: DecodeErrorKind::UnknownEnumMember, position: Some(1) })
    );
    let wire = array_of(0, 16, 3, 1, &[Some(&[1]), Some(&[0]), Some(&[7])]);
    assert_eq!(
        Codec::Array(&TypeDescriptor::Boolean).decode(&Some(wire)),
        Err(DecodeError { kind: DecodeErrorKind::InvalidBoolean, position: Some(2) })
    );
}

#[test]
fn array_encode_reports_the_first_failing_element_with_its_position() {
    let descriptor = status_type();
    let codec = Codec::Array(&descriptor);
    let value = Value::Array(vec![
        status_tag("open"),
        ScalarValue::Null,
        status_tag("pending"),
        ScalarValue::Integer(1),
    ]);
    assert_eq!(
        codec.encode(&value),
        Err(EncodeError { kind: EncodeErrorKind::UnknownEnumMember, position: Some(2) })
    );
    let value = Value::Array(vec![ScalarValue::Integer(1), status_tag("pending")]);
    assert_eq!(
        codec.encode(&value),
        Err(EncodeError { kind: EncodeErrorKind::TypeMismatch, position: Some(0) })
    );
}

#[test]
fn array_decode_refuses_malformed_headers() {
    let codec = Codec::Array(&TypeDescriptor::Text);
    assert_eq!(codec.decode(&Some(vec![])), malformed(DecodeErrorKind::TruncatedArray));
    assert_eq!(codec.decode(&Some(vec![0; 11])), malformed(DecodeErrorKind::TruncatedArray));
    assert_eq!(
        codec.decode(&Some(header(2, 0, 25))),
        malformed(DecodeErrorKind::UnsupportedDimensions)
    );
    assert_eq!(
        codec.decode(&Some(header(0xFFFF_FFFF, 0, 25))),
        malformed(DecodeErrorKind::UnsupportedDimensions)
    );
    assert_eq!(
        codec.decode(&Some(header(1, 2, 25))),
        malformed(DecodeErrorKind::InvalidArrayFlags)
    );
    assert_eq!(
        codec.decode(&Some(header(0, 0, 20))),
        malformed(DecodeErrorKind::ElementTypeMismatch)
    );
    assert_eq!(
        codec.decode(&Some(array_of(0, 20, 1, 1, &[Some(b"x")]))),
        malformed(DecodeErrorKind::ElementTypeMismatch)
    );
    let mut trailing = header(0, 0, 25);
    trailing.push(0);
    assert_eq!(codec.decode(&Some(trailing)), malformed(DecodeErrorKind::TrailingBytes));
    assert_eq!(codec.decode(&Some(header(1, 0, 25))), malformed(DecodeErrorKind::TruncatedArray));
    let mut short = header(1, 0, 25);
    short.extend_from_slice(&[0, 0, 0, 1, 0, 0, 0]);
    assert_eq!(codec.decode(&Some(short)), malformed(DecodeErrorKind::TruncatedArray));
    assert_eq!(
        codec.decode(&Some(array_of(0, 25, 0x8000_0000, 1, &[]))),
        malformed(DecodeErrorKind::InvalidLength)
    );
    assert_eq!(
        codec.decode(&Some(array_of(0, 25, 1, 0, &[Some(b"x")]))),
        malformed(DecodeErrorKind::InvalidLowerBound)
    );
    assert_eq!(
        codec.decode(&Some(array_of(0, 25, 1, 2, &[Some(b"x")]))),
        malformed(DecodeErrorKind::InvalidLowerBound)
    );
}

#[test]
fn array_decode_refuses_malformed_elements() {
    let codec = Codec::Array(&TypeDescriptor::Text);
    assert_eq!(
        codec.decode(&Some(array_of(0, 25, 2, 1, &[Some(b"x")]))),
        malformed(DecodeErrorKind::TruncatedArray)
    );
    let mut cut = array_of(0, 25, 1, 1, &[Some(b"hello")]);
    cut.pop();
    assert_eq!(codec.decode(&Some(cut)), malformed(DecodeErrorKind::TruncatedArray));
    let mut half_length = array_of(0, 25, 1, 1, &[]);
    half_length.extend_from_slice(&[0, 0]);
    assert_eq!(codec.decode(&Some(half_length)), malformed(DecodeErrorKind::TruncatedArray));
    let mut negative = array_of(0, 25, 1, 1, &[]);
    negative.extend_from_slice(&(-2i32).to_be_bytes());
    assert_eq!(codec.decode(&Some(negative)), malformed(DecodeErrorKind::InvalidLength));
    assert_eq!(
        codec.decode(&Some(array_of(0, 25, 1, 1, &[Some(b"x"), Some(b"y")]))),
        malformed(DecodeErrorKind::TrailingBytes)
    );
    let mut extra = array_of(0, 25, 0, 1, &[]);
    extra.push(9);
    assert_eq!(codec.decode(&Some(extra)), malformed(DecodeErrorKind::TrailingBytes));
}

#[test]
fn raw_frames_round_trip() {
    let items = vec![Some(vec![1u8, 2, 3]), None, Some(vec![]), Some(vec![0xFF; 70000])];
    let bytes = frame_array(99, &items).unwrap();
    assert_eq!(&bytes[..20], &array_of(1, 99, 4, 1, &[])[..]);
    assert_eq!(parse_array(99, &bytes), Ok(items));
    assert_eq!(parse_array(98, &bytes), Err(DecodeErrorKind::ElementTypeMismatch));
    assert_eq!(frame_array(5, &vec![]), Ok(array_of(0, 5, 0, 1, &[])));
    assert_eq!(parse_array(5, &header(0, 1, 5)), Ok(vec![]));
}

#[test]
fn element_longer_than_a_length_word_can_say_is_refused() {
    let items = vec![Some(vec![1u8]), None, Some(vec![0u8; 0x8000_0000])];
    assert_eq!(
        frame_array(25, &items),
        Err(EncodeError { kind: EncodeErrorKind::ElementTooLarge, position: Some(2) })
    );
}
