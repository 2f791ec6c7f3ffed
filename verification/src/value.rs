//! Application-level values: scalars, arrays of scalars, and the raw wire
//! values that stand for them on the connection.

use vstd::prelude::*;

verus! {

/// A member of an enumeration, tagged with the name of its type.
#[derive(Debug, Clone, PartialEq, Eq)]
pub struct EnumTag {
    pub enum_name: String,
    pub member: String,
}

/// Text that belongs to a domain. On the wire it is indistinguishable from
/// plain text; in the application it is a type of its own, and the text is
/// reached only by naming the field.
#[derive(Debug, Clone, PartialEq, Eq)]
pub struct DomainText {
    pub domain: String,
    pub text: String,
}

/// Mathematical model of a scalar value.
pub enum ScalarView {
    Null,
    Text(Seq<char>),
    Boolean(bool),
    Integer(i64),
    Floating(u64),
    Uuid(u128),
    Enum { enum_name: Seq<char>, member: Seq<char> },
    Domain { domain: Seq<char>, text: Seq<char> },
}

/// One value of a scalar database type, or the absence of a value.
#[derive(Debug, Clone, PartialEq, Eq)]
pub enum ScalarValue {
    /// No value.
    Null,
    /// Plain text.
    Text(String),
    /// A truth value.
    Boolean(bool),
    /// A signed 64-bit integer.
    Integer(i64),
    /// A double-precision number, given by its 64-bit pattern, so that two
    /// values are equal exactly when their wire forms are.
    Floating(u64),
    /// A universally unique identifier: its sixteen bytes as one number,
    /// the first byte the most significant.
    Uuid(u128),
    /// A member of an enumeration.
    Enum(EnumTag),
    /// Text of a domain.
    Domain(DomainText),
}

impl View for ScalarValue {
    type V = ScalarView;

    open spec fn view(&self) -> ScalarView {
        match self {
            ScalarValue::Null => ScalarView::Null,
            ScalarValue::Text(s) => ScalarView::Text(s@),
            ScalarValue::Boolean(b) => ScalarView::Boolean(*b),
            ScalarValue::Integer(i) => ScalarView::Integer(*i),
            ScalarValue::Floating(bits) => ScalarView::Floating(*bits),
            ScalarValue::Uuid(id) => ScalarView::Uuid(*id),
            ScalarValue::Enum(tag) => ScalarView::Enum {
                enum_name: tag.enum_name@,
                member: tag.member@,
            },
            ScalarValue::Domain(d) => ScalarView::Domain { domain: d.domain@, text: d.text@ },
        }
    }
}

/// The models of a sequence of scalar values.
pub open spec fn scalar_views(items: Seq<ScalarValue>) -> Seq<ScalarView> {
    items.map_values(|v: ScalarValue| v@)
}

/// Mathematical model of a value.
pub enum ValueView {
    Scalar(ScalarView),
    Array(Seq<ScalarView>),
}

/// A scalar, or a one-dimensional array of scalars of one element type. An
/// absent array is the null scalar; an array without elements is an array.
#[derive(Debug, Clone, PartialEq, Eq)]
pub enum Value {
    Scalar(ScalarValue),
    Array(Vec<ScalarValue>),
}

impl View for Value {
    type V = ValueView;

    open spec fn view(&self) -> ValueView {
        match self {
            Value::Scalar(s) => ValueView::Scalar(s@),
            Value::Array(items) => ValueView::Array(scalar_views(items@)),
        }
    }
}

/// The model of a raw wire value: the bytes, or nothing for a null.
pub open spec fn wire_view(wire: Option<Vec<u8>>) -> Option<Seq<u8>> {
    match wire {
        None => None,
        Some(bytes) => Some(bytes@),
    }
}

/// The models of a sequence of raw wire values.
pub open spec fn wire_views(wires: Seq<Option<Vec<u8>>>) -> Seq<Option<Seq<u8>>> {
    wires.map_values(|w: Option<Vec<u8>>| wire_view(w))
}

} // verus!
