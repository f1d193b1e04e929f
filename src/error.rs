use vstd::prelude::*;

verus! {

/// The kind of a JSON node.
#[derive(Clone, Copy, Debug, PartialEq, Eq)]
pub enum JsonKind {
    Null,
    Boolean,
    Number,
    String,
    Array,
    Object,
}

/// A member that a CRS object must have, named by where it belongs.
#[derive(Clone, Copy, Debug, PartialEq, Eq)]
pub enum Property {
    /// `properties` of a CRS object.
    Properties,
    /// `name` under the properties of a named CRS.
    Name,
    /// `href` under the properties of a linked CRS.
    Href,
}

/// Why a JSON value could not be read.
#[derive(Debug, PartialEq)]
pub enum Error {
    /// A required member was absent.
    MissingProperty(Property),
    /// A value was present but not of the expected kind.
    TypeMismatch(JsonKind),
    /// The `type` member was absent or not a string.
    UnsupportedType,
    /// The `type` member of a CRS named neither `name` nor `link`.
    CrsUnknownType(String),
}

} // verus!
