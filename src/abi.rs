//! ABI type descriptors and the library's errors.
use vstd::prelude::*;

verus! {

/// A raw ABI node: a field or variant name, its type tag, and the nested
/// descriptors of a struct, an enum or an array of either.
#[derive(Debug, Default, PartialEq, Eq)]
pub struct Property {
    pub name: String,
    pub type_field: String,
    pub components: Option<Vec<Property>>,
}

/// The kind of a custom type.
#[derive(Clone, Copy, Debug, PartialEq, Eq)]
pub enum CustomType {
    Struct,
    Enum,
}

/// What can go wrong: a malformed ABI (`InvalidType`, `MissingData`) or a
/// value that does not match its declared type (`InstantiationError`).
#[derive(Clone, Debug, PartialEq, Eq)]
pub enum Error {
    InvalidType(String),
    MissingData(String),
    InstantiationError(String),
}

/// The kind of an [`Error`], without its message.
pub enum ErrorKind {
    InvalidType,
    MissingData,
    InstantiationError,
}

impl Error {
    pub open spec fn kind(&self) -> ErrorKind {
        match self {
            Error::InvalidType(_) => ErrorKind::InvalidType,
            Error::MissingData(_) => ErrorKind::MissingData,
            Error::InstantiationError(_) => ErrorKind::InstantiationError,
        }
    }

    pub open spec fn message(&self) -> Seq<char> {
        match self {
            Error::InvalidType(m) => m@,
            Error::MissingData(m) => m@,
            Error::InstantiationError(m) => m@,
        }
    }
}

impl View for Error {
    type V = (ErrorKind, Seq<char>);

    /// The kind of the error and its message.
    open spec fn view(&self) -> (ErrorKind, Seq<char>) {
        (self.kind(), self.message())
    }
}

/// The keyword that introduces a custom type of kind `k`.
pub open spec fn kind_keyword(k: CustomType) -> Seq<char> {
    match k {
        CustomType::Struct => "struct"@,
        CustomType::Enum => "enum"@,
    }
}

impl CustomType {
    /// The keyword of this kind: `struct` or `enum`.
    pub fn keyword(&self) -> (r: &'static str)
        ensures
            r@ == kind_keyword(*self),
    {
        match self {
            CustomType::Struct => "struct",
            CustomType::Enum => "enum",
        }
    }
}

} // verus!
