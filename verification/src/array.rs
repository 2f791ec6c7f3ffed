//! The binary wire format of a one-dimensional array: a header of five
//! 32-bit words, then each element as a length word and its bytes.
//!
//! The header holds the number of dimensions, a flags word that says
//! whether a null element is present, the object identifier of the element
//! type, the number of elements and the index of the first one, which is 1.
//! An element's length word is -1 for a null. An array without elements may
//! also arrive as a header of three words with zero dimensions.

use crate::error::{DecodeErrorKind, EncodeError, EncodeErrorKind};
use crate::value::wire_views;
use crate::wire::{
    append_bytes, get_u32, lemma_u32_bytes_round_trip, lemma_u32_round_trip, put_u32, u32_from_be,
    u32_to_be,
};
use vstd::prelude::*;
use vstd::slice::slice_subrange;
use vstd::slice::slice_to_vec;

verus! {

/// The length word of a null element: -1 in two's complement.
pub const NULL_LENGTH: u32 = 0xFFFF_FFFF;

/// The greatest length that a length word can say.
pub const MAX_LENGTH: u32 = 0x7FFF_FFFF;

/// A raw element as it travels inside an array.
pub open spec fn element_frame(e: Option<Seq<u8>>) -> Seq<u8> {
    match e {
        None => u32_to_be(NULL_LENGTH),
        Some(bytes) => u32_to_be(bytes.len() as u32) + bytes,
    }
}

/// The raw elements of an array, one behind the other.
pub open spec fn elements_frame(items: Seq<Option<Seq<u8>>>) -> Seq<u8>
    decreases items.len(),
{
    if items.len() == 0 {
        Seq::empty()
    } else {
        element_frame(items[0]) + elements_frame(items.drop_first())
    }
}

/// Whether one of the elements is a null.
pub open spec fn has_null(items: Seq<Option<Seq<u8>>>) -> bool {
    exists|i: int| 0 <= i < items.len() && items[i] is None
}

/// The five words in front of the elements.
pub open spec fn array_header(oid: u32, items: Seq<Option<Seq<u8>>>) -> Seq<u8> {
    u32_to_be(1) + u32_to_be(if has_null(items) { 1 } else { 0 }) + u32_to_be(oid) + u32_to_be(
        items.len() as u32,
    ) + u32_to_be(1)
}

/// The wire form of an array of raw elements of the type `oid`.
pub open spec fn array_frame(oid: u32, items: Seq<Option<Seq<u8>>>) -> Seq<u8> {
    array_header(oid, items) + elements_frame(items)
}

/// Whether an element is longer than a length word can say.
pub open spec fn oversized(e: Option<Seq<u8>>) -> bool {
    e matches Some(bytes) && bytes.len() > MAX_LENGTH
}

/// The index of the first element that is too long, if there is one.
pub open spec fn first_oversized(items: Seq<Option<Seq<u8>>>) -> Option<int>
    decreases items.len(),
{
    if items.len() == 0 {
        None
    } else {
        match first_oversized(items.drop_last()) {
            Some(p) => Some(p),
            None => if oversized(items.last()) {
                Some(items.len() - 1)
            } else {
                None
            },
        }
    }
}

/// Whether the wire format can hold the array.
pub open spec fn fits(items: Seq<Option<Seq<u8>>>) -> bool {
    items.len() <= MAX_LENGTH && first_oversized(items) is None
}

/// The wire form of an array, or the reason why it has none: too many
/// elements, or else the first element that is too long.
pub open spec fn frame_spec(oid: u32, items: Seq<Option<Seq<u8>>>) -> Result<
    Seq<u8>,
    EncodeError,
> {
    if items.len() > MAX_LENGTH {
        Err(EncodeError { kind: EncodeErrorKind::TooManyElements, position: None })
    } else {
        match first_oversized(items) {
            Some(p) => Err(
                EncodeError { kind: EncodeErrorKind::ElementTooLarge, position: Some(p as usize) },
            ),
            None => Ok(array_frame(oid, items)),
        }
    }
}

/// The result `r` of reading the elements behind a prefix that was read
/// before.
pub open spec fn behind(
    prefix: Seq<Option<Seq<u8>>>,
    r: Result<Seq<Option<Seq<u8>>>, DecodeErrorKind>,
) -> Result<Seq<Option<Seq<u8>>>, DecodeErrorKind> {
    match r {
        Ok(rest) => Ok(prefix + rest),
        Err(e) => Err(e),
    }
}

/// Reads `count` raw elements, which must take up all of `bytes`.
pub open spec fn parse_elements(bytes: Seq<u8>, count: nat) -> Result<
    Seq<Option<Seq<u8>>>,
    DecodeErrorKind,
>
    decreases count,
{
    if count == 0 {
        if bytes.len() == 0 {
            Ok(Seq::empty())
        } else {
            Err(DecodeErrorKind::TrailingBytes)
        }
    } else if bytes.len() < 4 {
        Err(DecodeErrorKind::TruncatedArray)
    } else {
        let n = u32_from_be(bytes.subrange(0, 4));
        if n == NULL_LENGTH {
            behind(
                seq![None],
                parse_elements(bytes.subrange(4, bytes.len() as int), (count - 1) as nat),
            )
        } else if n > MAX_LENGTH {
            Err(DecodeErrorKind::InvalidLength)
        } else if bytes.len() < 4 + n {
            Err(DecodeErrorKind::TruncatedArray)
        } else {
            behind(
                seq![Some(bytes.subrange(4, 4 + n))],
                parse_elements(bytes.subrange(4 + n, bytes.len() as int), (count - 1) as nat),
            )
        }
    }
}

/// Reads the wire form of an array whose elements are of the type `oid`.
pub open spec fn parse_array_spec(oid: u32, bytes: Seq<u8>) -> Result<
    Seq<Option<Seq<u8>>>,
    DecodeErrorKind,
> {
    if bytes.len() < 12 {
        Err(DecodeErrorKind::TruncatedArray)
    } else if u32_from_be(bytes.subrange(0, 4)) > 1 {
        Err(DecodeErrorKind::UnsupportedDimensions)
    } else if u32_from_be(bytes.subrange(4, 8)) > 1 {
        Err(DecodeErrorKind::InvalidArrayFlags)
    } else if u32_from_be(bytes.subrange(8, 12)) != oid {
        Err(DecodeErrorKind::ElementTypeMismatch)
    } else if u32_from_be(bytes.subrange(0, 4)) == 0 {
        if bytes.len() == 12 {
            Ok(Seq::empty())
        } else {
            Err(DecodeErrorKind::TrailingBytes)
        }
    } else if bytes.len() < 20 {
        Err(DecodeErrorKind::TruncatedArray)
    } else if u32_from_be(bytes.subrange(12, 16)) > MAX_LENGTH {
        Err(DecodeErrorKind::InvalidLength)
    } else if u32_from_be(bytes.subrange(16, 20)) != 1 {
        Err(DecodeErrorKind::InvalidLowerBound)
    } else {
        parse_elements(
            bytes.subrange(20, bytes.len() as int),
            u32_from_be(bytes.subrange(12, 16)) as nat,
        )
    }
}

/// The elements of one more element are the elements and then the one.
pub proof fn lemma_elements_frame_push(items: Seq<Option<Seq<u8>>>, e: Option<Seq<u8>>)
    ensures
        elements_frame(items.push(e)) == elements_frame(items) + element_frame(e),
    decreases items.len(),
{
    if items.len() == 0 {
        let none = Seq::<Option<Seq<u8>>>::empty();
        assert(items.push(e).drop_first() =~= none);
        assert(elements_frame(none) =~= Seq::<u8>::empty());
        assert(elements_frame(items) =~= Seq::<u8>::empty());
        assert(elements_frame(items.push(e)) =~= element_frame(e));
        assert(elements_frame(items) + element_frame(e) =~= element_frame(e));
    } else {
        lemma_elements_frame_push(items.drop_first(), e);
        assert(items.push(e).drop_first() =~= items.drop_first().push(e));
        assert(elements_frame(items.push(e)) =~= elements_frame(items) + element_frame(e));
    }
}

/// No element in front of the first oversized one is oversized, and without
/// a first one there is none at all.
pub proof fn lemma_first_oversized(items: Seq<Option<Seq<u8>>>)
    ensures
        first_oversized(items) matches Some(p) ==> 0 <= p < items.len() && oversized(items[p])
            && forall|j: int| 0 <= j < p ==> !oversized(#[trigger] items[j]),
        first_oversized(items) is None ==> forall|j: int|
            0 <= j < items.len() ==> !oversized(#[trigger] items[j]),
    decreases items.len(),
{
    if items.len() > 0 {
        lemma_first_oversized(items.drop_last());
        let front = items.drop_last();
        assert forall|j: int| 0 <= j < front.len() implies front[j] == items[j] by {}
        match first_oversized(front) {
            Some(p) => {
                assert(oversized(front[p]));
                assert forall|j: int| 0 <= j < p implies !oversized(#[trigger] items[j]) by {
                    assert(!oversized(front[j]));
                }
            },
            None => {
                assert forall|j: int| 0 <= j < items.len() - 1 implies !oversized(
                    #[trigger] items[j],
                ) by {
                    assert(!oversized(front[j]));
                }
            },
        }
    }
}

/// The first oversized element is the one in front of which none is.
pub proof fn lemma_first_oversized_at(items: Seq<Option<Seq<u8>>>, p: int)
    requires
        0 <= p < items.len(),
        oversized(items[p]),
        forall|j: int| 0 <= j < p ==> !oversized(#[trigger] items[j]),
    ensures
        first_oversized(items) == Some(p),
{
    lemma_first_oversized(items);
    match first_oversized(items) {
        None => {
            assert(!oversized(items[p]));
        },
        Some(q) => {
            if q < p {
                assert(!oversized(items[q]));
            } else if p < q {
                assert(!oversized(items[p]));
            }
        },
    }
}

/// Reading the elements that were written gives them back.
pub proof fn lemma_elements_round_trip(items: Seq<Option<Seq<u8>>>)
    requires
        forall|j: int| 0 <= j < items.len() ==> !oversized(#[trigger] items[j]),
    ensures
        parse_elements(elements_frame(items), items.len()) == Ok::<
            Seq<Option<Seq<u8>>>,
            DecodeErrorKind,
        >(items),
    decreases items.len(),
{
    if items.len() == 0 {
        assert(elements_frame(items) =~= Seq::<u8>::empty());
        assert(items =~= Seq::<Option<Seq<u8>>>::empty());
    } else {
        let rest = items.drop_first();
        let bytes = elements_frame(items);
        let tail = elements_frame(rest);
        assert forall|j: int| 0 <= j < rest.len() implies !oversized(#[trigger] rest[j]) by {
            assert(rest[j] == items[j + 1]);
        }
        lemma_elements_round_trip(rest);
        assert(!oversized(items[0]));
        match items[0] {
            None => {
                lemma_u32_round_trip(NULL_LENGTH);
                assert(bytes.subrange(0, 4) =~= u32_to_be(NULL_LENGTH));
                assert(bytes.subrange(4, bytes.len() as int) =~= tail);
                assert(seq![None::<Seq<u8>>] + rest =~= items);
            },
            Some(b) => {
                let n = b.len() as u32;
                lemma_u32_round_trip(n);
                assert(bytes.subrange(0, 4) =~= u32_to_be(n));
                assert(bytes.subrange(4, 4 + n) =~= b);
                assert(bytes.subrange(4 + n, bytes.len() as int) =~= tail);
                assert(seq![Some(b)] + rest =~= items);
            },
        }
    }
}

/// Reading the wire form of an array that fits the format gives its
/// elements back.
pub proof fn lemma_frame_round_trip(oid: u32, items: Seq<Option<Seq<u8>>>)
    requires
        fits(items),
    ensures
        parse_array_spec(oid, array_frame(oid, items)) == Ok::<
            Seq<Option<Seq<u8>>>,
            DecodeErrorKind,
        >(items),
{
    let flag: u32 = if has_null(items) { 1 } else { 0 };
    let count = items.len() as u32;
    let bytes = array_frame(oid, items);
    lemma_first_oversized(items);
    lemma_elements_round_trip(items);
    lemma_u32_round_trip(1);
    lemma_u32_round_trip(flag);
    lemma_u32_round_trip(oid);
    lemma_u32_round_trip(count);
    assert(bytes.subrange(0, 4) =~= u32_to_be(1));
    assert(bytes.subrange(4, 8) =~= u32_to_be(flag));
    assert(bytes.subrange(8, 12) =~= u32_to_be(oid));
    assert(bytes.subrange(12, 16) =~= u32_to_be(count));
    assert(bytes.subrange(16, 20) =~= u32_to_be(1));
    assert(bytes.subrange(20, bytes.len() as int) =~= elements_frame(items));
}

/// Elements that are read are exactly what the bytes hold: the bytes are the
/// elements one behind the other, as many as asked for, none of them too
/// long.
pub proof fn lemma_parsed_elements_are_framed(bytes: Seq<u8>, count: nat)
    requires
        parse_elements(bytes, count) is Ok,
    ensures
        parse_elements(bytes, count)->Ok_0.len() == count,
        elements_frame(parse_elements(bytes, count)->Ok_0) == bytes,
        forall|j: int|
            0 <= j < count ==> !oversized(#[trigger] parse_elements(bytes, count)->Ok_0[j]),
    decreases count,
{
    let items = parse_elements(bytes, count)->Ok_0;
    if count == 0 {
        assert(elements_frame(items) =~= bytes);
    } else {
        let word = bytes.subrange(0, 4);
        let n = u32_from_be(word);
        lemma_u32_bytes_round_trip(word);
        let tail = if n == NULL_LENGTH {
            bytes.subrange(4, bytes.len() as int)
        } else {
            bytes.subrange(4 + n, bytes.len() as int)
        };
        let rest = parse_elements(tail, (count - 1) as nat)->Ok_0;
        lemma_parsed_elements_are_framed(tail, (count - 1) as nat);
        assert(items.drop_first() =~= rest);
        if n == NULL_LENGTH {
            assert(items[0] == None::<Seq<u8>>);
            assert(elements_frame(items) =~= bytes);
        } else {
            let body = bytes.subrange(4, 4 + n);
            assert(items[0] == Some(body));
            assert(body.len() as u32 == n);
            assert(elements_frame(items) =~= bytes);
        }
        assert forall|j: int| 0 <= j < count implies !oversized(#[trigger] items[j]) by {
            if j > 0 {
                assert(items[j] == rest[j - 1]);
            }
        }
    }
}

/// An array that is read is exactly what the bytes hold: the bytes are
/// either the header of three words with zero dimensions, and the array
/// has no elements, or the header of five words for one dimension that
/// starts at 1, with the number of the elements, and then the elements.
pub proof fn lemma_parsed_array_is_framed(oid: u32, bytes: Seq<u8>)
    requires
        parse_array_spec(oid, bytes) is Ok,
    ensures
        ({
            let items = parse_array_spec(oid, bytes)->Ok_0;
            let flags = u32_from_be(bytes.subrange(4, 8));
            &&& flags <= 1
            &&& fits(items)
            &&& {
                ||| items.len() == 0 && bytes == u32_to_be(0) + u32_to_be(flags) + u32_to_be(oid)
                ||| bytes == u32_to_be(1) + u32_to_be(flags) + u32_to_be(oid) + u32_to_be(
                    items.len() as u32,
                ) + u32_to_be(1) + elements_frame(items)
            }
        }),
{
    let items = parse_array_spec(oid, bytes)->Ok_0;
    let flags = u32_from_be(bytes.subrange(4, 8));
    lemma_u32_bytes_round_trip(bytes.subrange(0, 4));
    lemma_u32_bytes_round_trip(bytes.subrange(4, 8));
    lemma_u32_bytes_round_trip(bytes.subrange(8, 12));
    lemma_u32_round_trip(0);
    lemma_u32_round_trip(1);
    lemma_u32_round_trip(flags);
    lemma_u32_round_trip(oid);
    if u32_from_be(bytes.subrange(0, 4)) == 0 {
        assert(items.len() == 0);
        assert(first_oversized(items) is None);
        assert(bytes =~= u32_to_be(0) + u32_to_be(flags) + u32_to_be(oid));
    } else {
        let count = u32_from_be(bytes.subrange(12, 16));
        let body = bytes.subrange(20, bytes.len() as int);
        lemma_u32_bytes_round_trip(bytes.subrange(12, 16));
        lemma_u32_bytes_round_trip(bytes.subrange(16, 20));
        lemma_u32_round_trip(count);
        lemma_parsed_elements_are_framed(body, count as nat);
        lemma_first_oversized(items);
        assert(first_oversized(items) is None) by {
            if first_oversized(items) is Some {
                let p = first_oversized(items)->Some_0;
                assert(oversized(items[p]));
            }
        }
        assert(bytes =~= u32_to_be(1) + u32_to_be(flags) + u32_to_be(oid) + u32_to_be(
            items.len() as u32,
        ) + u32_to_be(1) + elements_frame(items));
    }
}

/// Writes the wire form of an array of raw elements of the type `oid`.
pub fn frame_array(oid: u32, items: &Vec<Option<Vec<u8>>>) -> (r: Result<Vec<u8>, EncodeError>)
    ensures
        r matches Ok(bytes) ==> frame_spec(oid, wire_views(items@)) == Ok::<Seq<u8>, EncodeError>(
            bytes@,
        ),
        r matches Err(e) ==> frame_spec(oid, wire_views(items@)) == Err::<Seq<u8>, EncodeError>(e),
{
    let ghost wires = wire_views(items@);
    let n = items.len();
    if n > MAX_LENGTH as usize {
        return Err(EncodeError { kind: EncodeErrorKind::TooManyElements, position: None });
    }
    let mut body: Vec<u8> = Vec::new();
    let mut any_null = false;
    let mut i: usize = 0;
    while i < n
        invariant
            n == items@.len(),
            n <= MAX_LENGTH,
            wires == wire_views(items@),
            i <= n,
            first_oversized(wires.subrange(0, i as int)) is None,
            body@ == elements_frame(wires.subrange(0, i as int)),
            any_null == has_null(wires.subrange(0, i as int)),
        decreases n - i,
    {
        let ghost before = wires.subrange(0, i as int);
        let ghost after = wires.subrange(0, i + 1);
        proof {
            assert(after.drop_last() =~= before);
            assert(after.last() == wires[i as int]);
            assert(after =~= before.push(wires[i as int]));
            lemma_elements_frame_push(before, wires[i as int]);
        }
        match &items[i] {
            None => {
                put_u32(&mut body, NULL_LENGTH);
                any_null = true;
                proof {
                    assert(after[i as int] is None);
                }
            },
            Some(bytes) => {
                let len = bytes.len();
                if len > MAX_LENGTH as usize {
                    proof {
                        lemma_first_oversized(before);
                        assert(oversized(wires[i as int]));
                        assert forall|j: int| 0 <= j < i implies !oversized(
                            #[trigger] wires[j],
                        ) by {
                            assert(before[j] == wires[j]);
                        }
                        lemma_first_oversized_at(wires, i as int);
                    }
                    return Err(
                        EncodeError { kind: EncodeErrorKind::ElementTooLarge, position: Some(i) },
                    );
                }
                put_u32(&mut body, len as u32);
                append_bytes(&mut body, bytes.as_slice());
                proof {
                    assert(body@ =~= elements_frame(before) + element_frame(wires[i as int]));
                    if has_null(before) {
                        let k = choose|k: int| 0 <= k < before.len() && before[k] is None;
                        assert(after[k] is None);
                    }
                    if has_null(after) {
                        let k = choose|k: int| 0 <= k < after.len() && after[k] is None;
                        assert(before[k] is None);
                    }
                }
            },
        }
        i = i + 1;
    }
    proof {
        assert(wires.subrange(0, n as int) =~= wires);
    }
    let mut out: Vec<u8> = Vec::new();
    put_u32(&mut out, 1);
    put_u32(&mut out, if any_null { 1 } else { 0 });
    put_u32(&mut out, oid);
    put_u32(&mut out, n as u32);
    put_u32(&mut out, 1);
    append_bytes(&mut out, body.as_slice());
    assert(out@ =~= array_frame(oid, wires));
    Ok(out)
}

/// Reads the wire form of an array whose elements are of the type `oid`
/// into its raw elements.
pub fn parse_array(oid: u32, bytes: &[u8]) -> (r: Result<Vec<Option<Vec<u8>>>, DecodeErrorKind>)
    ensures
        r matches Ok(items) ==> parse_array_spec(oid, bytes@) == Ok::<
            Seq<Option<Seq<u8>>>,
            DecodeErrorKind,
        >(wire_views(items@)),
        r matches Err(e) ==> parse_array_spec(oid, bytes@) == Err::<
            Seq<Option<Seq<u8>>>,
            DecodeErrorKind,
        >(e),
{
    let len = bytes.len();
    if len < 12 {
        return Err(DecodeErrorKind::TruncatedArray);
    }
    let dimensions = get_u32(bytes, 0);
    let flags = get_u32(bytes, 4);
    let element = get_u32(bytes, 8);
    if dimensions > 1 {
        return Err(DecodeErrorKind::UnsupportedDimensions);
    }
    if flags > 1 {
        return Err(DecodeErrorKind::InvalidArrayFlags);
    }
    if element != oid {
        return Err(DecodeErrorKind::ElementTypeMismatch);
    }
    if dimensions == 0 {
        if len == 12 {
            let items: Vec<Option<Vec<u8>>> = Vec::new();
            assert(wire_views(items@) =~= Seq::<Option<Seq<u8>>>::empty());
            return Ok(items);
        } else {
            return Err(DecodeErrorKind::TrailingBytes);
        }
    }
    if len < 20 {
        return Err(DecodeErrorKind::TruncatedArray);
    }
    let count = get_u32(bytes, 12);
    let lower = get_u32(bytes, 16);
    if count > MAX_LENGTH {
        return Err(DecodeErrorKind::InvalidLength);
    }
    if lower != 1 {
        return Err(DecodeErrorKind::InvalidLowerBound);
    }
    let ghost whole = parse_elements(bytes@.subrange(20, len as int), count as nat);
    let mut items: Vec<Option<Vec<u8>>> = Vec::new();
    let mut pos: usize = 20;
    let mut i: u32 = 0;
    proof {
        assert(wire_views(items@) =~= Seq::<Option<Seq<u8>>>::empty());
        assert(behind(wire_views(items@), whole) == whole) by {
            if whole is Ok {
                assert(Seq::<Option<Seq<u8>>>::empty() + whole->Ok_0 =~= whole->Ok_0);
            }
        }
    }
    while i < count
        invariant
            len == bytes@.len(),
            20 <= pos <= len,
            i <= count,
            whole == parse_array_spec(oid, bytes@),
            whole == behind(
                wire_views(items@),
                parse_elements(bytes@.subrange(pos as int, len as int), (count - i) as nat),
            ),
        decreases count - i,
    {
        let ghost rest = bytes@.subrange(pos as int, len as int);
        let ghost seen = wire_views(items@);
        if len - pos < 4 {
            return Err(DecodeErrorKind::TruncatedArray);
        }
        let n = get_u32(bytes, pos);
        proof {
            assert(rest.subrange(0, 4) =~= bytes@.subrange(pos as int, pos + 4));
        }
        if n == NULL_LENGTH {
            items.push(None);
            pos = pos + 4;
            proof {
                let next = parse_elements(
                    bytes@.subrange(pos as int, len as int),
                    (count - i - 1) as nat,
                );
                assert(rest.subrange(4, rest.len() as int) =~= bytes@.subrange(
                    pos as int,
                    len as int,
                ));
                assert(wire_views(items@) =~= seen.push(None));
                if next is Ok {
                    assert(seen + (seq![None] + next->Ok_0) =~= seen.push(None) + next->Ok_0);
                }
            }
        } else if n > MAX_LENGTH {
            return Err(DecodeErrorKind::InvalidLength);
        } else if len - pos - 4 < n as usize {
            return Err(DecodeErrorKind::TruncatedArray);
        } else {
            let start = pos + 4;
            let end = start + n as usize;
            let element = slice_to_vec(slice_subrange(bytes, start, end));
            let ghost e = Some(element@);
            items.push(Some(element));
            pos = end;
            proof {
                let next = parse_elements(
                    bytes@.subrange(pos as int, len as int),
                    (count - i - 1) as nat,
                );
                assert(rest.subrange(4, 4 + n) =~= bytes@.subrange(start as int, end as int));
                assert(rest.subrange(4 + n, rest.len() as int) =~= bytes@.subrange(
                    pos as int,
                    len as int,
                ));
                assert(wire_views(items@) =~= seen.push(e));
                if next is Ok {
                    assert(seen + (seq![e] + next->Ok_0) =~= seen.push(e) + next->Ok_0);
                }
            }
        }
        i = i + 1;
    }
    if pos != len {
        return Err(DecodeErrorKind::TrailingBytes);
    }
    proof {
        assert(bytes@.subrange(pos as int, len as int) =~= Seq::<u8>::empty());
        assert(wire_views(items@) + Seq::<Option<Seq<u8>>>::empty() =~= wire_views(items@));
    }
    Ok(items)
}

} // verus!
