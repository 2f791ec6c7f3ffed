//! Codecs: the pairing of an encoder and a decoder for one database type,
//! scalar or array, and the laws that tie the two together.

use crate::array::{
    array_frame, fits, frame_array, frame_spec, lemma_frame_round_trip, parse_array,
    parse_array_spec,
};
use crate::descriptor::{DescriptorView, EnumView, TypeDescriptor};
use crate::error::{DecodeError, DecodeErrorKind, EncodeError, EncodeErrorKind};
use crate::scalar::{
    decode_scalar, decode_scalar_spec, encode_scalar, lemma_scalar_round_trip, scalar_wire,
};
use crate::value::{scalar_views, wire_view, wire_views, ScalarValue, ScalarView, Value, ValueView};
use crate::wire::{lemma_u32_round_trip, u32_to_be};
use vstd::prelude::*;
use vstd::utf8::{encode_utf8, encode_utf8_decode_utf8, encode_utf8_valid_utf8};

verus! {

/// The wire forms of the elements of an array.
pub open spec fn element_wires(items: Seq<ScalarView>) -> Seq<Option<Seq<u8>>> {
    items.map_values(|v: ScalarView| scalar_wire(v))
}

/// Whether every element is a value of the type `d`.
pub open spec fn all_admitted(d: DescriptorView, items: Seq<ScalarView>) -> bool {
    forall|i: int| 0 <= i < items.len() ==> d.admits(#[trigger] items[i])
}

/// The wire forms of the elements, or the fault of the first element that
/// is no value of the type `d`, with its index.
pub open spec fn encode_elements_spec(d: DescriptorView, items: Seq<ScalarView>) -> Result<
    Seq<Option<Seq<u8>>>,
    EncodeError,
>
    decreases items.len(),
{
    if items.len() == 0 {
        Ok(Seq::empty())
    } else {
        match encode_elements_spec(d, items.drop_last()) {
            Err(e) => Err(e),
            Ok(front) => match d.fault_of(items.last()) {
                Some(kind) => Err(
                    EncodeError { kind, position: Some((items.len() - 1) as usize) },
                ),
                None => Ok(front.push(scalar_wire(items.last()))),
            },
        }
    }
}

/// The values of the raw elements, or the fault of the first element that
/// does not decode as the type `d`, with its index.
pub open spec fn decode_elements_spec(d: DescriptorView, wires: Seq<Option<Seq<u8>>>) -> Result<
    Seq<ScalarView>,
    DecodeError,
>
    decreases wires.len(),
{
    if wires.len() == 0 {
        Ok(Seq::empty())
    } else {
        match decode_elements_spec(d, wires.drop_last()) {
            Err(e) => Err(e),
            Ok(front) => match decode_scalar_spec(d, wires.last()) {
                Err(kind) => Err(
                    DecodeError { kind, position: Some((wires.len() - 1) as usize) },
                ),
                Ok(v) => Ok(front.push(v)),
            },
        }
    }
}

/// Mathematical model of a codec: the type whose values it handles, once as
/// such and once as the elements of an array.
pub enum CodecView {
    Scalar(DescriptorView),
    Array(DescriptorView),
}

impl CodecView {
    /// Whether `v` is a value of the codec's type.
    pub open spec fn admits(self, v: ValueView) -> bool {
        match self {
            CodecView::Scalar(d) => v matches ValueView::Scalar(s) && d.admits(s),
            CodecView::Array(d) => match v {
                ValueView::Scalar(s) => s is Null,
                ValueView::Array(items) => all_admitted(d, items),
            },
        }
    }

    /// Whether `v` is a value of the codec's type that the wire format can
    /// hold.
    pub open spec fn representable(self, v: ValueView) -> bool {
        &&& self.admits(v)
        &&& self is Array ==> (v matches ValueView::Array(items) ==> fits(element_wires(items)))
    }

    /// The wire form of `v`, or the reason why it has none.
    pub open spec fn encode(self, v: ValueView) -> Result<Option<Seq<u8>>, EncodeError> {
        match self {
            CodecView::Scalar(d) => match v {
                ValueView::Scalar(s) => match d.fault_of(s) {
                    Some(kind) => Err(EncodeError { kind, position: None }),
                    None => Ok(scalar_wire(s)),
                },
                ValueView::Array(_) => Err(
                    EncodeError { kind: EncodeErrorKind::TypeMismatch, position: None },
                ),
            },
            CodecView::Array(d) => match v {
                ValueView::Scalar(s) => if s is Null {
                    Ok(None)
                } else {
                    Err(EncodeError { kind: EncodeErrorKind::TypeMismatch, position: None })
                },
                ValueView::Array(items) => match encode_elements_spec(d, items) {
                    Err(e) => Err(e),
                    Ok(wires) => match frame_spec(d.oid(), wires) {
                        Err(e) => Err(e),
                        Ok(bytes) => Ok(Some(bytes)),
                    },
                },
            },
        }
    }

    /// The value that a wire value stands for, or the reason why it stands
    /// for none. A null is the null value under every codec.
    pub open spec fn decode(self, wire: Option<Seq<u8>>) -> Result<ValueView, DecodeError> {
        match self {
            CodecView::Scalar(d) => match decode_scalar_spec(d, wire) {
                Ok(s) => Ok(ValueView::Scalar(s)),
                Err(kind) => Err(DecodeError { kind, position: None }),
            },
            CodecView::Array(d) => match wire {
                None => Ok(ValueView::Scalar(ScalarView::Null)),
                Some(bytes) => match parse_array_spec(d.oid(), bytes) {
                    Err(kind) => Err(DecodeError { kind, position: None }),
                    Ok(wires) => match decode_elements_spec(d, wires) {
                        Err(e) => Err(e),
                        Ok(items) => Ok(ValueView::Array(items)),
                    },
                },
            },
        }
    }
}

/// A codec for the values of one type, or for arrays of them. It borrows
/// the descriptor of the type.
#[derive(Debug, Clone, Copy, PartialEq, Eq)]
pub enum Codec<'a> {
    /// Handles single values of the type.
    Scalar(&'a TypeDescriptor),
    /// Handles one-dimensional arrays whose elements are of the type.
    Array(&'a TypeDescriptor),
}

impl<'a> View for Codec<'a> {
    type V = CodecView;

    open spec fn view(&self) -> CodecView {
        match self {
            Codec::Scalar(d) => CodecView::Scalar(d@),
            Codec::Array(d) => CodecView::Array(d@),
        }
    }
}

/// Encodes the elements of an array one by one, up to the first that is no
/// value of the type `d`.
fn encode_elements(d: &TypeDescriptor, items: &Vec<ScalarValue>) -> (r: Result<
    Vec<Option<Vec<u8>>>,
    EncodeError,
>)
    ensures
        r matches Ok(wires) ==> encode_elements_spec(d@, scalar_views(items@)) == Ok::<
            Seq<Option<Seq<u8>>>,
            EncodeError,
        >(wire_views(wires@)),
        r matches Err(e) ==> encode_elements_spec(d@, scalar_views(items@)) == Err::<
            Seq<Option<Seq<u8>>>,
            EncodeError,
        >(e),
{
    let ghost views = scalar_views(items@);
    let n = items.len();
    let mut wires: Vec<Option<Vec<u8>>> = Vec::new();
    let mut i: usize = 0;
    proof {
        assert(wire_views(wires@) =~= Seq::<Option<Seq<u8>>>::empty());
    }
    while i < n
        invariant
            n == items@.len(),
            views == scalar_views(items@),
            i <= n,
            encode_elements_spec(d@, views.subrange(0, i as int)) == Ok::<
                Seq<Option<Seq<u8>>>,
                EncodeError,
            >(wire_views(wires@)),
        decreases n - i,
    {
        let ghost seen = wire_views(wires@);
        let ghost next = views.subrange(0, i + 1);
        proof {
            assert(next.drop_last() =~= views.subrange(0, i as int));
            assert(next.last() == items@[i as int]@);
        }
        match encode_scalar(d, &items[i]) {
            Ok(wire) => {
                let ghost w = wire_view(wire);
                wires.push(wire);
                proof {
                    assert(wire_views(wires@) =~= seen.push(w));
                }
            },
            Err(kind) => {
                proof {
                    lemma_encode_elements_fault(d@, views, i as int);
                }
                return Err(EncodeError { kind, position: Some(i) });
            },
        }
        i = i + 1;
    }
    proof {
        assert(views.subrange(0, n as int) =~= views);
    }
    Ok(wires)
}

/// Decodes the raw elements of an array one by one, up to the first that
/// does not decode as the type `d`.
fn decode_elements(d: &TypeDescriptor, wires: &Vec<Option<Vec<u8>>>) -> (r: Result<
    Vec<ScalarValue>,
    DecodeError,
>)
    ensures
        r matches Ok(items) ==> decode_elements_spec(d@, wire_views(wires@)) == Ok::<
            Seq<ScalarView>,
            DecodeError,
        >(scalar_views(items@)),
        r matches Err(e) ==> decode_elements_spec(d@, wire_views(wires@)) == Err::<
            Seq<ScalarView>,
            DecodeError,
        >(e),
{
    let ghost raw = wire_views(wires@);
    let n = wires.len();
    let mut items: Vec<ScalarValue> = Vec::new();
    let mut i: usize = 0;
    proof {
        assert(scalar_views(items@) =~= Seq::<ScalarView>::empty());
    }
    while i < n
        invariant
            n == wires@.len(),
            raw == wire_views(wires@),
            i <= n,
            decode_elements_spec(d@, raw.subrange(0, i as int)) == Ok::<
                Seq<ScalarView>,
                DecodeError,
            >(scalar_views(items@)),
        decreases n - i,
    {
        let ghost seen = scalar_views(items@);
        let ghost next = raw.subrange(0, i + 1);
        proof {
            assert(next.drop_last() =~= raw.subrange(0, i as int));
            assert(next.last() == wire_view(wires@[i as int]));
        }
        match decode_scalar(d, &wires[i]) {
            Ok(v) => {
                let ghost view = v@;
                items.push(v);
                proof {
                    assert(scalar_views(items@) =~= seen.push(view));
                }
            },
            Err(kind) => {
                proof {
                    lemma_decode_elements_fault(d@, raw, i as int);
                }
                return Err(DecodeError { kind, position: Some(i) });
            },
        }
        i = i + 1;
    }
    proof {
        assert(raw.subrange(0, n as int) =~= raw);
    }
    Ok(items)
}

impl<'a> Codec<'a> {
    /// Encodes `value` for the codec's type. The null scalar becomes a null
    /// wire value under every codec.
    pub fn encode(&self, value: &Value) -> (r: Result<Option<Vec<u8>>, EncodeError>)
        ensures
            r matches Ok(wire) ==> self@.encode(value@) == Ok::<Option<Seq<u8>>, EncodeError>(
                wire_view(wire),
            ),
            r matches Err(e) ==> self@.encode(value@) == Err::<Option<Seq<u8>>, EncodeError>(e),
    {
        match self {
            Codec::Scalar(d) => match value {
                Value::Scalar(s) => match encode_scalar(d, s) {
                    Ok(wire) => Ok(wire),
                    Err(kind) => Err(EncodeError { kind, position: None }),
                },
                Value::Array(_) => Err(
                    EncodeError { kind: EncodeErrorKind::TypeMismatch, position: None },
                ),
            },
            Codec::Array(d) => match value {
                Value::Scalar(s) => match s {
                    ScalarValue::Null => Ok(None),
                    _ => Err(EncodeError { kind: EncodeErrorKind::TypeMismatch, position: None }),
                },
                Value::Array(items) => {
                    let wires = encode_elements(d, items)?;
                    let bytes = frame_array(d.oid(), &wires)?;
                    Ok(Some(bytes))
                },
            },
        }
    }

    /// Decodes `wire` as a value of the codec's type. A null wire value is
    /// the null scalar under every codec; an array without elements is an
    /// array.
    pub fn decode(&self, wire: &Option<Vec<u8>>) -> (r: Result<Value, DecodeError>)
        ensures
            r matches Ok(v) ==> self@.decode(wire_view(*wire)) == Ok::<ValueView, DecodeError>(v@),
            r matches Err(e) ==> self@.decode(wire_view(*wire)) == Err::<ValueView, DecodeError>(
                e,
            ),
    {
        match self {
            Codec::Scalar(d) => match decode_scalar(d, wire) {
                Ok(s) => Ok(Value::Scalar(s)),
                Err(kind) => Err(DecodeError { kind, position: None }),
            },
            Codec::Array(d) => match wire {
                None => Ok(Value::Scalar(ScalarValue::Null)),
                Some(bytes) => match parse_array(d.oid(), bytes.as_slice()) {
                    Err(kind) => Err(DecodeError { kind, position: None }),
                    Ok(wires) => {
                        let items = decode_elements(d, &wires)?;
                        Ok(Value::Array(items))
                    },
                },
            },
        }
    }
}

/// Where the elements in front of index `i` encode and the one at `i` does
/// not, the array fails with that element's fault and index.
pub proof fn lemma_encode_elements_fault(d: DescriptorView, items: Seq<ScalarView>, i: int)
    requires
        0 <= i < items.len(),
        encode_elements_spec(d, items.subrange(0, i)) is Ok,
        d.fault_of(items[i]) is Some,
    ensures
        encode_elements_spec(d, items) == Err::<Seq<Option<Seq<u8>>>, EncodeError>(
            EncodeError { kind: d.fault_of(items[i])->Some_0, position: Some(i as usize) },
        ),
    decreases items.len(),
{
    if i == items.len() - 1 {
        assert(items.drop_last() =~= items.subrange(0, i));
    } else {
        let front = items.drop_last();
        assert(front.subrange(0, i) =~= items.subrange(0, i));
        lemma_encode_elements_fault(d, front, i);
    }
}

/// Where the elements in front of index `i` decode and the one at `i` does
/// not, the array fails with that element's fault and index.
pub proof fn lemma_decode_elements_fault(d: DescriptorView, wires: Seq<Option<Seq<u8>>>, i: int)
    requires
        0 <= i < wires.len(),
        decode_elements_spec(d, wires.subrange(0, i)) is Ok,
        decode_scalar_spec(d, wires[i]) is Err,
    ensures
        decode_elements_spec(d, wires) == Err::<Seq<ScalarView>, DecodeError>(
            DecodeError { kind: decode_scalar_spec(d, wires[i])->Err_0, position: Some(i as usize) },
        ),
    decreases wires.len(),
{
    if i == wires.len() - 1 {
        assert(wires.drop_last() =~= wires.subrange(0, i));
    } else {
        let front = wires.drop_last();
        assert(front.subrange(0, i) =~= wires.subrange(0, i));
        lemma_decode_elements_fault(d, front, i);
    }
}

/// The elements of an array encode exactly when each is a value of the
/// type, and then to their wire forms in order.
pub proof fn lemma_encode_elements(d: DescriptorView, items: Seq<ScalarView>)
    ensures
        encode_elements_spec(d, items) is Ok <==> all_admitted(d, items),
        all_admitted(d, items) ==> encode_elements_spec(d, items) == Ok::<
            Seq<Option<Seq<u8>>>,
            EncodeError,
        >(element_wires(items)),
    decreases items.len(),
{
    if items.len() == 0 {
        assert(element_wires(items) =~= Seq::<Option<Seq<u8>>>::empty());
    } else {
        let front = items.drop_last();
        lemma_encode_elements(d, front);
        if all_admitted(d, items) {
            assert forall|i: int| 0 <= i < front.len() implies d.admits(#[trigger] front[i]) by {
                assert(front[i] == items[i]);
            }
            assert(d.admits(items.last()));
            assert(element_wires(items) =~= element_wires(front).push(scalar_wire(items.last())));
        }
        if encode_elements_spec(d, items) is Ok {
            assert forall|i: int| 0 <= i < items.len() implies d.admits(#[trigger] items[i]) by {
                if i < front.len() {
                    assert(front[i] == items[i]);
                }
            }
        }
    }
}

/// Decoding the wire forms of elements that are values of the type gives
/// the elements back.
pub proof fn lemma_elements_round_trip(d: DescriptorView, items: Seq<ScalarView>)
    requires
        all_admitted(d, items),
    ensures
        decode_elements_spec(d, element_wires(items)) == Ok::<Seq<ScalarView>, DecodeError>(items),
    decreases items.len(),
{
    let wires = element_wires(items);
    if items.len() == 0 {
        assert(items =~= Seq::<ScalarView>::empty());
    } else {
        let front = items.drop_last();
        assert forall|i: int| 0 <= i < front.len() implies d.admits(#[trigger] front[i]) by {
            assert(front[i] == items[i]);
        }
        lemma_elements_round_trip(d, front);
        assert(wires.drop_last() =~= element_wires(front));
        assert(d.admits(items.last()));
        lemma_scalar_round_trip(d, items.last());
        assert(front.push(items.last()) =~= items);
    }
}

/// A value has a wire form exactly when it is a value of the codec's type
/// that the wire format can hold.
pub proof fn lemma_encode_succeeds_iff_representable(c: CodecView, v: ValueView)
    ensures
        c.encode(v) is Ok <==> c.representable(v),
{
    match c {
        CodecView::Scalar(d) => {},
        CodecView::Array(d) => match v {
            ValueView::Scalar(s) => {},
            ValueView::Array(items) => {
                lemma_encode_elements(d, items);
            },
        },
    }
}

/// The round trip: decoding the wire form of a value gives the value back,
/// for every scalar, enumeration member, domain text and array that has a
/// wire form.
pub proof fn lemma_round_trip(c: CodecView, v: ValueView)
    requires
        c.representable(v),
    ensures
        c.encode(v) is Ok,
        c.decode(c.encode(v)->Ok_0) == Ok::<ValueView, DecodeError>(v),
{
    lemma_encode_succeeds_iff_representable(c, v);
    match c {
        CodecView::Scalar(d) => {
            lemma_scalar_round_trip(d, v->Scalar_0);
        },
        CodecView::Array(d) => match v {
            ValueView::Scalar(s) => {},
            ValueView::Array(items) => {
                lemma_encode_elements(d, items);
                lemma_frame_round_trip(d.oid(), element_wires(items));
                lemma_elements_round_trip(d, items);
            },
        },
    }
}

/// An enumeration refuses every name that it does not declare: the wire
/// form of such a name decodes to an error, never to a value.
pub proof fn lemma_enum_rejects_unknown_member(e: EnumView, name: Seq<char>)
    requires
        !e.members.contains(name),
    ensures
        CodecView::Scalar(DescriptorView::Enum(e)).decode(Some(encode_utf8(name))) == Err::<
            ValueView,
            DecodeError,
        >(DecodeError { kind: DecodeErrorKind::UnknownEnumMember, position: None }),
{
    broadcast use encode_utf8_valid_utf8, encode_utf8_decode_utf8;

}

/// The wire form of zero dimensions, three words long, is the array
/// without elements too.
pub proof fn lemma_zero_dimensions_is_empty_array(d: DescriptorView)
    ensures
        CodecView::Array(d).decode(Some(u32_to_be(0) + u32_to_be(0) + u32_to_be(d.oid()))) == Ok::<
            ValueView,
            DecodeError,
        >(ValueView::Array(Seq::empty())),
{
    let bytes = u32_to_be(0) + u32_to_be(0) + u32_to_be(d.oid());
    lemma_u32_round_trip(0);
    lemma_u32_round_trip(d.oid());
    assert(bytes.subrange(0, 4) =~= u32_to_be(0));
    assert(bytes.subrange(4, 8) =~= u32_to_be(0));
    assert(bytes.subrange(8, 12) =~= u32_to_be(d.oid()));
}

/// Under an array codec a null wire value is the null and never an array,
/// and a present wire value is an array and never the null. The array
/// without elements has a wire form of its own, which is read back as the
/// array without elements.
pub proof fn lemma_null_and_empty_arrays_differ(d: DescriptorView, bytes: Seq<u8>)
    ensures
        CodecView::Array(d).decode(None) == Ok::<ValueView, DecodeError>(
            ValueView::Scalar(ScalarView::Null),
        ),
        CodecView::Array(d).decode(Some(bytes)) matches Ok(v) ==> v is Array,
        CodecView::Array(d).decode(Some(array_frame(d.oid(), Seq::empty()))) == Ok::<
            ValueView,
            DecodeError,
        >(ValueView::Array(Seq::empty())),
        CodecView::Array(d).encode(ValueView::Array(Seq::empty())) == Ok::<
            Option<Seq<u8>>,
            EncodeError,
        >(Some(array_frame(d.oid(), Seq::empty()))),
        CodecView::Array(d).encode(ValueView::Scalar(ScalarView::Null)) == Ok::<
            Option<Seq<u8>>,
            EncodeError,
        >(None),
{
    let none = Seq::<ScalarView>::empty();
    assert(all_admitted(d, none));
    assert(element_wires(none) =~= Seq::<Option<Seq<u8>>>::empty());
    assert(fits(element_wires(none)));
    lemma_round_trip(CodecView::Array(d), ValueView::Array(none));
    lemma_encode_elements(d, none);
}

} // verus!
