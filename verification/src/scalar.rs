//! The codec of scalar values: which values a type admits, what their wire
//! form is, and how a wire form is read back.

use crate::descriptor::{DescriptorView, TypeDescriptor};
use crate::error::{DecodeErrorKind, EncodeErrorKind};
use crate::value::{wire_view, DomainText, EnumTag, ScalarValue, ScalarView};
use crate::wire::{
    bits_of_i64, get_u128, get_u64, i64_from_bits, i64_of_bits, i64_to_bits,
    lemma_i64_bits_round_trip, lemma_u128_bytes_round_trip, lemma_u128_round_trip,
    lemma_u64_bytes_round_trip, lemma_u64_round_trip, put_u128, put_u64, u128_from_be,
    u128_to_be, u64_from_be, u64_to_be,
};
use vstd::prelude::*;
use vstd::string::*;
use vstd::utf8::*;

verus! {

impl DescriptorView {
    /// Whether `v` is a value of this type. Every type admits the null.
    pub open spec fn admits(self, v: ScalarView) -> bool {
        match v {
            ScalarView::Null => true,
            ScalarView::Text(_) => self is Text,
            ScalarView::Boolean(_) => self is Boolean,
            ScalarView::Integer(_) => self is Integer,
            ScalarView::Floating(_) => self is Floating,
            ScalarView::Uuid(_) => self is Uuid,
            ScalarView::Enum { enum_name, member } => {
                &&& self matches DescriptorView::Enum(e)
                &&& e.name == enum_name
                &&& e.members.contains(member)
            },
            ScalarView::Domain { domain, text } => {
                &&& self matches DescriptorView::Domain(d)
                &&& d.name == domain
            },
        }
    }

    /// Why `v` is no value of this type, if it is none.
    pub open spec fn fault_of(self, v: ScalarView) -> Option<EncodeErrorKind> {
        if self.admits(v) {
            None
        } else if v matches ScalarView::Enum { enum_name, member } && self matches DescriptorView::Enum(
            e,
        ) && e.name == enum_name {
            Some(EncodeErrorKind::UnknownEnumMember)
        } else {
            Some(EncodeErrorKind::TypeMismatch)
        }
    }
}

/// The wire form of a scalar: nothing for the null, the UTF-8 bytes of a
/// text, an enumeration member or a domain text, one byte for a truth
/// value, eight bytes in network order for a number, the sixteen bytes of
/// an identifier.
pub open spec fn scalar_wire(v: ScalarView) -> Option<Seq<u8>> {
    match v {
        ScalarView::Null => None,
        ScalarView::Text(s) => Some(encode_utf8(s)),
        ScalarView::Boolean(b) => Some(seq![if b { 1u8 } else { 0u8 }]),
        ScalarView::Integer(i) => Some(u64_to_be(i64_to_bits(i))),
        ScalarView::Floating(bits) => Some(u64_to_be(bits)),
        ScalarView::Uuid(id) => Some(u128_to_be(id)),
        ScalarView::Enum { enum_name, member } => Some(encode_utf8(member)),
        ScalarView::Domain { domain, text } => Some(encode_utf8(text)),
    }
}

/// What the bytes of a present wire value mean under the type `d`.
pub open spec fn decode_bytes_spec(d: DescriptorView, bytes: Seq<u8>) -> Result<
    ScalarView,
    DecodeErrorKind,
> {
    match d {
        DescriptorView::Text => if valid_utf8(bytes) {
            Ok(ScalarView::Text(decode_utf8(bytes)))
        } else {
            Err(DecodeErrorKind::InvalidUtf8)
        },
        DescriptorView::Boolean => if bytes.len() != 1 {
            Err(DecodeErrorKind::WrongLength)
        } else if bytes[0] == 0 {
            Ok(ScalarView::Boolean(false))
        } else if bytes[0] == 1 {
            Ok(ScalarView::Boolean(true))
        } else {
            Err(DecodeErrorKind::InvalidBoolean)
        },
        DescriptorView::Integer => if bytes.len() != 8 {
            Err(DecodeErrorKind::WrongLength)
        } else {
            Ok(ScalarView::Integer(i64_from_bits(u64_from_be(bytes))))
        },
        DescriptorView::Floating => if bytes.len() != 8 {
            Err(DecodeErrorKind::WrongLength)
        } else {
            Ok(ScalarView::Floating(u64_from_be(bytes)))
        },
        DescriptorView::Uuid => if bytes.len() != 16 {
            Err(DecodeErrorKind::WrongLength)
        } else {
            Ok(ScalarView::Uuid(u128_from_be(bytes)))
        },
        DescriptorView::Enum(e) => if !valid_utf8(bytes) {
            Err(DecodeErrorKind::InvalidUtf8)
        } else if e.members.contains(decode_utf8(bytes)) {
            Ok(ScalarView::Enum { enum_name: e.name, member: decode_utf8(bytes) })
        } else {
            Err(DecodeErrorKind::UnknownEnumMember)
        },
        DescriptorView::Domain(dom) => if valid_utf8(bytes) {
            Ok(ScalarView::Domain { domain: dom.name, text: decode_utf8(bytes) })
        } else {
            Err(DecodeErrorKind::InvalidUtf8)
        },
    }
}

/// What a wire value means under the type `d`. A null is the null value
/// whatever the type.
pub open spec fn decode_scalar_spec(d: DescriptorView, wire: Option<Seq<u8>>) -> Result<
    ScalarView,
    DecodeErrorKind,
> {
    match wire {
        None => Ok(ScalarView::Null),
        Some(bytes) => decode_bytes_spec(d, bytes),
    }
}

/// `std::str::from_utf8`: the bytes are accepted exactly when they are
/// well-formed UTF-8, and the text handed out is the one that they encode.
#[verifier::external_body]
fn str_from_utf8<'a>(bytes: &'a [u8]) -> (r: Option<&'a str>)
    ensures
        r is Some <==> valid_utf8(bytes@),
        r matches Some(s) ==> s@ == decode_utf8(bytes@),
{
    std::str::from_utf8(bytes).ok()
}

/// Encodes `v` as a value of the type `d`.
pub fn encode_scalar(d: &TypeDescriptor, v: &ScalarValue) -> (r: Result<
    Option<Vec<u8>>,
    EncodeErrorKind,
>)
    ensures
        r is Ok <==> d@.admits(v@),
        r matches Ok(w) ==> wire_view(w) == scalar_wire(v@),
        r matches Err(e) ==> d@.fault_of(v@) == Some(e),
{
    match v {
        ScalarValue::Null => Ok(None),
        ScalarValue::Text(s) => match d {
            TypeDescriptor::Text => Ok(Some(s.as_str().as_bytes_vec())),
            _ => Err(EncodeErrorKind::TypeMismatch),
        },
        ScalarValue::Boolean(b) => match d {
            TypeDescriptor::Boolean => {
                let mut out: Vec<u8> = Vec::new();
                out.push(if *b { 1u8 } else { 0u8 });
                assert(out@ =~= seq![if *b { 1u8 } else { 0u8 }]);
                Ok(Some(out))
            },
            _ => Err(EncodeErrorKind::TypeMismatch),
        },
        ScalarValue::Integer(i) => match d {
            TypeDescriptor::Integer => {
                let mut out: Vec<u8> = Vec::new();
                put_u64(&mut out, bits_of_i64(*i));
                assert(out@ =~= u64_to_be(i64_to_bits(*i)));
                Ok(Some(out))
            },
            _ => Err(EncodeErrorKind::TypeMismatch),
        },
        ScalarValue::Floating(bits) => match d {
            TypeDescriptor::Floating => {
                let mut out: Vec<u8> = Vec::new();
                put_u64(&mut out, *bits);
                assert(out@ =~= u64_to_be(*bits));
                Ok(Some(out))
            },
            _ => Err(EncodeErrorKind::TypeMismatch),
        },
        ScalarValue::Uuid(id) => match d {
            TypeDescriptor::Uuid => {
                let mut out: Vec<u8> = Vec::new();
                put_u128(&mut out, *id);
                assert(out@ =~= u128_to_be(*id));
                Ok(Some(out))
            },
            _ => Err(EncodeErrorKind::TypeMismatch),
        },
        ScalarValue::Enum(tag) => match d {
            TypeDescriptor::Enum(e) => {
                if !(*e.name() == tag.enum_name) {
                    Err(EncodeErrorKind::TypeMismatch)
                } else if !e.has_member(&tag.member) {
                    Err(EncodeErrorKind::UnknownEnumMember)
                } else {
                    Ok(Some(tag.member.as_str().as_bytes_vec()))
                }
            },
            _ => Err(EncodeErrorKind::TypeMismatch),
        },
        ScalarValue::Domain(t) => match d {
            TypeDescriptor::Domain(dom) => {
                if dom.name == t.domain {
                    Ok(Some(t.text.as_str().as_bytes_vec()))
                } else {
                    Err(EncodeErrorKind::TypeMismatch)
                }
            },
            _ => Err(EncodeErrorKind::TypeMismatch),
        },
    }
}

/// Decodes the bytes of a present wire value as a value of the type `d`.
pub fn decode_bytes(d: &TypeDescriptor, bytes: &[u8]) -> (r: Result<ScalarValue, DecodeErrorKind>)
    ensures
        r matches Ok(v) ==> decode_bytes_spec(d@, bytes@) == Ok::<ScalarView, DecodeErrorKind>(v@),
        r matches Err(e) ==> decode_bytes_spec(d@, bytes@) == Err::<ScalarView, DecodeErrorKind>(e),
{
    match d {
        TypeDescriptor::Text => match str_from_utf8(bytes) {
            Some(s) => Ok(ScalarValue::Text(s.to_owned())),
            None => Err(DecodeErrorKind::InvalidUtf8),
        },
        TypeDescriptor::Boolean => {
            if bytes.len() != 1 {
                Err(DecodeErrorKind::WrongLength)
            } else if bytes[0] == 0 {
                Ok(ScalarValue::Boolean(false))
            } else if bytes[0] == 1 {
                Ok(ScalarValue::Boolean(true))
            } else {
                Err(DecodeErrorKind::InvalidBoolean)
            }
        },
        TypeDescriptor::Integer => {
            if bytes.len() != 8 {
                Err(DecodeErrorKind::WrongLength)
            } else {
                assert(bytes@.subrange(0, 8) =~= bytes@);
                Ok(ScalarValue::Integer(i64_of_bits(get_u64(bytes, 0))))
            }
        },
        TypeDescriptor::Floating => {
            if bytes.len() != 8 {
                Err(DecodeErrorKind::WrongLength)
            } else {
                assert(bytes@.subrange(0, 8) =~= bytes@);
                Ok(ScalarValue::Floating(get_u64(bytes, 0)))
            }
        },
        TypeDescriptor::Uuid => {
            if bytes.len() != 16 {
                Err(DecodeErrorKind::WrongLength)
            } else {
                assert(bytes@.subrange(0, 16) =~= bytes@);
                Ok(ScalarValue::Uuid(get_u128(bytes, 0)))
            }
        },
        TypeDescriptor::Enum(e) => match str_from_utf8(bytes) {
            Some(s) => {
                let member = s.to_owned();
                if e.has_member(&member) {
                    Ok(ScalarValue::Enum(EnumTag { enum_name: e.name().clone(), member }))
                } else {
                    Err(DecodeErrorKind::UnknownEnumMember)
                }
            },
            None => Err(DecodeErrorKind::InvalidUtf8),
        },
        TypeDescriptor::Domain(dom) => match str_from_utf8(bytes) {
            Some(s) => Ok(
                ScalarValue::Domain(DomainText { domain: dom.name.clone(), text: s.to_owned() }),
            ),
            None => Err(DecodeErrorKind::InvalidUtf8),
        },
    }
}

/// Decodes a wire value as a value of the type `d`.
pub fn decode_scalar(d: &TypeDescriptor, wire: &Option<Vec<u8>>) -> (r: Result<
    ScalarValue,
    DecodeErrorKind,
>)
    ensures
        r matches Ok(v) ==> decode_scalar_spec(d@, wire_view(*wire)) == Ok::<
            ScalarView,
            DecodeErrorKind,
        >(v@),
        r matches Err(e) ==> decode_scalar_spec(d@, wire_view(*wire)) == Err::<
            ScalarView,
            DecodeErrorKind,
        >(e),
{
    match wire {
        None => Ok(ScalarValue::Null),
        Some(bytes) => decode_bytes(d, bytes.as_slice()),
    }
}

/// Decoding the wire form of a value of the type gives the value back.
pub proof fn lemma_scalar_round_trip(d: DescriptorView, v: ScalarView)
    requires
        d.admits(v),
    ensures
        decode_scalar_spec(d, scalar_wire(v)) == Ok::<ScalarView, DecodeErrorKind>(v),
{
    broadcast use encode_utf8_valid_utf8, encode_utf8_decode_utf8;

    match v {
        ScalarView::Integer(i) => {
            lemma_u64_round_trip(i64_to_bits(i));
            lemma_i64_bits_round_trip(i, 0);
        },
        ScalarView::Floating(bits) => {
            lemma_u64_round_trip(bits);
        },
        ScalarView::Uuid(id) => {
            lemma_u128_round_trip(id);
        },
        _ => {},
    }
}

/// Two values of one type with the same wire form are the same value.
pub proof fn lemma_scalar_wire_injective(d: DescriptorView, v1: ScalarView, v2: ScalarView)
    requires
        d.admits(v1),
        d.admits(v2),
        scalar_wire(v1) == scalar_wire(v2),
    ensures
        v1 == v2,
{
    lemma_scalar_round_trip(d, v1);
    lemma_scalar_round_trip(d, v2);
}

/// Every wire value that decodes is the wire form of the value that it
/// decodes to: a value has one wire form and no other.
pub proof fn lemma_scalar_wire_canonical(d: DescriptorView, wire: Option<Seq<u8>>)
    requires
        decode_scalar_spec(d, wire) is Ok,
    ensures
        scalar_wire(decode_scalar_spec(d, wire)->Ok_0) == wire,
{
    broadcast use decode_utf8_encode_utf8;

    match wire {
        None => {},
        Some(bytes) => match d {
            DescriptorView::Boolean => {
                assert(bytes =~= seq![bytes[0]]);
            },
            DescriptorView::Integer => {
                lemma_u64_bytes_round_trip(bytes);
                lemma_i64_bits_round_trip(0, u64_from_be(bytes));
            },
            DescriptorView::Floating => {
                lemma_u64_bytes_round_trip(bytes);
            },
            DescriptorView::Uuid => {
                lemma_u128_bytes_round_trip(bytes);
            },
            _ => {},
        },
    }
}

/// A wire value that decodes without error decodes to a value of the type:
/// an enumeration never yields a name that it does not declare.
pub proof fn lemma_decoded_scalar_admitted(d: DescriptorView, wire: Option<Seq<u8>>)
    requires
        decode_scalar_spec(d, wire) is Ok,
    ensures
        d.admits(decode_scalar_spec(d, wire)->Ok_0),
{
}

} // verus!
