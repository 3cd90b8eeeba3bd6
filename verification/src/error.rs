//! Errors reported by schema analysis. Every error is fatal to the analysis
//! that raised it: the first problem found, in field order, is the one
//! reported.

use vstd::prelude::*;
use vstd::string::StringExecFns;
use crate::names::str_eq;

verus! {

/// An analysis error.
#[derive(Debug)]
pub enum Error {
    /// An annotation key outside the recognized set; holds the key.
    UnknownAttribute(String),
    /// A recognized key was given a literal of the wrong kind; holds the key.
    UnparsableLiteral(String),
    /// A string meant to name a type or field does not parse as a valid
    /// identifier; holds the string.
    UnparsableType(String),
    /// The shape is a tagged-union (enum) type.
    UnsupportedDataStructureEnum,
    /// The shape is a shared-overlay (union) type.
    UnsupportedDataStructureUnion,
    /// The shape is a unit struct with no fields.
    UnsupportedDataStructureUnitStruct,
    /// The shape is a tuple struct with unnamed fields.
    UnsupportedDataStructureTupleStruct,
    /// A relation was declared without a resolvable referenced key; holds
    /// the owning field's name.
    MissingReferencedKey(String),
}

/// The abstract form of an [`Error`].
pub ghost enum ErrorV {
    UnknownAttribute(Seq<char>),
    UnparsableLiteral(Seq<char>),
    UnparsableType(Seq<char>),
    UnsupportedDataStructureEnum,
    UnsupportedDataStructureUnion,
    UnsupportedDataStructureUnitStruct,
    UnsupportedDataStructureTupleStruct,
    MissingReferencedKey(Seq<char>),
}

impl View for Error {
    type V = ErrorV;

    open spec fn view(&self) -> ErrorV {
        match self {
            Error::UnknownAttribute(s) => ErrorV::UnknownAttribute(s@),
            Error::UnparsableLiteral(s) => ErrorV::UnparsableLiteral(s@),
            Error::UnparsableType(s) => ErrorV::UnparsableType(s@),
            Error::UnsupportedDataStructureEnum => ErrorV::UnsupportedDataStructureEnum,
            Error::UnsupportedDataStructureUnion => ErrorV::UnsupportedDataStructureUnion,
            Error::UnsupportedDataStructureUnitStruct => ErrorV::UnsupportedDataStructureUnitStruct,
            Error::UnsupportedDataStructureTupleStruct => ErrorV::UnsupportedDataStructureTupleStruct,
            Error::MissingReferencedKey(s) => ErrorV::MissingReferencedKey(s@),
        }
    }
}

impl Clone for Error {
    fn clone(&self) -> (r: Self)
        ensures
            r@ == self@,
    {
        match self {
            Error::UnknownAttribute(s) => Error::UnknownAttribute(s.clone()),
            Error::UnparsableLiteral(s) => Error::UnparsableLiteral(s.clone()),
            Error::UnparsableType(s) => Error::UnparsableType(s.clone()),
            Error::UnsupportedDataStructureEnum => Error::UnsupportedDataStructureEnum,
            Error::UnsupportedDataStructureUnion => Error::UnsupportedDataStructureUnion,
            Error::UnsupportedDataStructureUnitStruct => Error::UnsupportedDataStructureUnitStruct,
            Error::UnsupportedDataStructureTupleStruct => Error::UnsupportedDataStructureTupleStruct,
            Error::MissingReferencedKey(s) => Error::MissingReferencedKey(s.clone()),
        }
    }
}

impl PartialEq for Error {
    fn eq(&self, other: &Self) -> (r: bool)
    {
        match (self, other) {
            (Error::UnknownAttribute(a), Error::UnknownAttribute(b)) => str_eq(
                a.as_str(),
                b.as_str(),
            ),
            (Error::UnparsableLiteral(a), Error::UnparsableLiteral(b)) => str_eq(
                a.as_str(),
                b.as_str(),
            ),
            (Error::UnparsableType(a), Error::UnparsableType(b)) => str_eq(a.as_str(), b.as_str()),
            (Error::UnsupportedDataStructureEnum, Error::UnsupportedDataStructureEnum) => true,
            (Error::UnsupportedDataStructureUnion, Error::UnsupportedDataStructureUnion) => true,
            (
                Error::UnsupportedDataStructureUnitStruct,
                Error::UnsupportedDataStructureUnitStruct,
            ) => true,
            (
                Error::UnsupportedDataStructureTupleStruct,
                Error::UnsupportedDataStructureTupleStruct,
            ) => true,
            (Error::MissingReferencedKey(a), Error::MissingReferencedKey(b)) => str_eq(
                a.as_str(),
                b.as_str(),
            ),
            _ => false,
        }
    }
}

impl vstd::std_specs::cmp::PartialEqSpecImpl for Error {
    open spec fn obeys_eq_spec() -> bool {
        true
    }

    open spec fn eq_spec(&self, other: &Self) -> bool {
        self@ == other@
    }
}

impl Eq for Error {

}

impl Error {
    /// A human-readable description of the error.
    pub fn message(&self) -> (r: String)
        ensures
            match self@ {
                ErrorV::UnknownAttribute(s) => r@ == "unknown attribute `"@ + s + "`"@,
                ErrorV::UnparsableLiteral(s) => r@ == "unexpected literal kind for attribute `"@ + s
                    + "`"@,
                ErrorV::UnparsableType(s) => r@ == "not a valid identifier: `"@ + s + "`"@,
                ErrorV::UnsupportedDataStructureEnum => r@
                    == "Factory can only be derived from named structs, enum given"@,
                ErrorV::UnsupportedDataStructureUnion => r@
                    == "Factory can only be derived from named structs, union given"@,
                ErrorV::UnsupportedDataStructureUnitStruct => r@
                    == "Factory can only be derived from named structs, unit struct given"@,
                ErrorV::UnsupportedDataStructureTupleStruct => r@
                    == "Factory can only be derived from named structs, tuple struct given"@,
                ErrorV::MissingReferencedKey(s) => r@
                    == "Missing `referenced_key` attribute for relation "@ + s,
            },
    {
        match self {
            Error::UnknownAttribute(s) => {
                let mut m = String::from_str("unknown attribute `");
                m.append(s.as_str());
                m.append("`");
                m
            },
            Error::UnparsableLiteral(s) => {
                let mut m = String::from_str("unexpected literal kind for attribute `");
                m.append(s.as_str());
                m.append("`");
                m
            },
            Error::UnparsableType(s) => {
                let mut m = String::from_str("not a valid identifier: `");
                m.append(s.as_str());
                m.append("`");
                m
            },
            Error::UnsupportedDataStructureEnum => String::from_str(
                "Factory can only be derived from named structs, enum given",
            ),
            Error::UnsupportedDataStructureUnion => String::from_str(
                "Factory can only be derived from named structs, union given",
            ),
            Error::UnsupportedDataStructureUnitStruct => String::from_str(
                "Factory can only be derived from named structs, unit struct given",
            ),
            Error::UnsupportedDataStructureTupleStruct => String::from_str(
                "Factory can only be derived from named structs, tuple struct given",
            ),
            Error::MissingReferencedKey(s) => {
                let mut m = String::from_str("Missing `referenced_key` attribute for relation ");
                m.append(s.as_str());
                m
            },
        }
    }
}

} // verus!
