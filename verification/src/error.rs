//! Errors that abort the processing of the current unit: an entry, a module,
//! or the whole document. Every kind propagates; there is no recovery and no
//! partial output.

use vstd::prelude::*;

verus! {

/// Ghost form of an error, carrying its string context as a character
/// sequence.
pub enum ErrorModel {
    UnresolvedField(Seq<char>),
    UnsupportedVersion(u32),
    TypeGrammar(Seq<char>),
    MalformedStorageShape(Seq<char>),
}

/// An error aborting the decode of the current unit.
#[derive(Debug)]
pub enum Error {
    /// A schema field was read while still in placeholder state.
    UnresolvedField(String),
    /// The outer document tag named a version this library does not model.
    UnsupportedVersion(u32),
    /// A type string failed the grammar. The grammar as modeled here is
    /// total, so no operation of this library produces this kind.
    TypeGrammarError(String),
    /// A storage entry's tag disagreed with its key count. Unreachable by
    /// construction of the schema model, kept as a defensive kind.
    MalformedStorageShape(String),
}

impl View for Error {
    type V = ErrorModel;

    open spec fn view(&self) -> ErrorModel {
        match self {
            Error::UnresolvedField(s) => ErrorModel::UnresolvedField(s@),
            Error::UnsupportedVersion(v) => ErrorModel::UnsupportedVersion(*v),
            Error::TypeGrammarError(s) => ErrorModel::TypeGrammar(s@),
            Error::MalformedStorageShape(s) => ErrorModel::MalformedStorageShape(s@),
        }
    }
}

/// The error every placeholder field produces.
pub open spec fn unresolved_model() -> ErrorModel {
    ErrorModel::UnresolvedField("metadata should be decoded"@)
}

pub fn unresolved_error() -> (e: Error)
    ensures
        e@ == unresolved_model(),
{
    Error::UnresolvedField("metadata should be decoded".to_owned())
}

} // verus!
