//! The failures that the library reports. Each is returned to the caller as
//! a value; none is retried or swallowed.

use vstd::prelude::*;

verus! {

/// What was wrong with an application value that was to be encoded.
#[derive(Debug, Clone, Copy, PartialEq, Eq, Structural)]
pub enum EncodeErrorKind {
    /// The value is not of the kind that the target type holds.
    TypeMismatch,
    /// The value names an enumeration member that the target type lacks.
    UnknownEnumMember,
    /// An array element is longer than the wire format can say.
    ElementTooLarge,
    /// The array has more elements than the wire format can say.
    TooManyElements,
}

/// An application value could not be encoded for its target type.
#[derive(Debug, Clone, Copy, PartialEq, Eq)]
pub struct EncodeError {
    pub kind: EncodeErrorKind,
    /// The index of the array element at fault, if the fault lies in one.
    pub position: Option<usize>,
}

/// What was wrong with a wire value that was to be decoded.
#[derive(Debug, Clone, Copy, PartialEq, Eq, Structural)]
pub enum DecodeErrorKind {
    /// Text that is not well-formed UTF-8.
    InvalidUtf8,
    /// A fixed-width value with another number of bytes.
    WrongLength,
    /// A truth value that is neither 0 nor 1.
    InvalidBoolean,
    /// A name that the enumeration does not declare.
    UnknownEnumMember,
    /// The bytes of an array end before the array does.
    TruncatedArray,
    /// An array of more than one dimension.
    UnsupportedDimensions,
    /// An array whose flags word is neither 0 nor 1.
    InvalidArrayFlags,
    /// An array whose elements are of another type than asked for.
    ElementTypeMismatch,
    /// An array or an element with a negative length.
    InvalidLength,
    /// An array whose first index is not 1.
    InvalidLowerBound,
    /// Bytes left over behind the last element of an array.
    TrailingBytes,
}

/// A wire value could not be decoded as its target type.
#[derive(Debug, Clone, Copy, PartialEq, Eq)]
pub struct DecodeError {
    pub kind: DecodeErrorKind,
    /// The index of the array element at fault, if the fault lies in one.
    pub position: Option<usize>,
}

} // verus!
