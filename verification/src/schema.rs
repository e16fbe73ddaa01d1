//! The raw metadata document as plain values. Every field arrives either
//! resolved or as an opaque placeholder; the decode guard is the single
//! operation that unwraps a field, failing on a placeholder.

use vstd::prelude::*;

use crate::error::Error;
use crate::error::unresolved_error;
use crate::error::unresolved_model;

verus! {

/// A schema field: materialized, or still in its unresolved encoding.
pub enum Raw<T> {
    Resolved(T),
    Placeholder,
}

impl<T> Raw<T> {
    pub open spec fn is_resolved(&self) -> bool {
        self matches Raw::Resolved(_)
    }

    pub open spec fn value(&self) -> T
        recommends
            self.is_resolved(),
    {
        match self {
            Raw::Resolved(v) => *v,
            Raw::Placeholder => vstd::pervasive::arbitrary(),
        }
    }

    /// Decode guard, by reference: the resolved value, or the
    /// unresolved-field error.
    pub fn as_resolved(&self) -> (r: Result<&T, Error>)
        ensures
            match r {
                Ok(v) => self.is_resolved() && *v == self.value(),
                Err(e) => !self.is_resolved() && e@ == unresolved_model(),
            },
    {
        match self {
            Raw::Resolved(v) => Ok(v),
            Raw::Placeholder => Err(unresolved_error()),
        }
    }
}

/// The decode guard for a single field.
pub trait DecodeOrElse<T>: Sized {
    spec fn resolved(&self) -> Option<T>;

    fn decode_or_else(self) -> (r: Result<T, Error>)
        ensures
            match self.resolved() {
                Some(v) => r matches Ok(o) && o == v,
                None => r matches Err(e) && e@ == unresolved_model(),
            },
    ;
}

impl<T> DecodeOrElse<T> for Raw<T> {
    open spec fn resolved(&self) -> Option<T> {
        match self {
            Raw::Resolved(v) => Some(*v),
            Raw::Placeholder => None,
        }
    }

    fn decode_or_else(self) -> (r: Result<T, Error>) {
        match self {
            Raw::Resolved(v) => Ok(v),
            Raw::Placeholder => Err(unresolved_error()),
        }
    }
}

/// The decode guard for a sequence-valued field.
pub trait DecodeArrayOrElse<T>: Sized {
    spec fn resolved_array(&self) -> Option<Vec<T>>;

    fn decode_array_or_else(self) -> (r: Result<Vec<T>, Error>)
        ensures
            match self.resolved_array() {
                Some(v) => r matches Ok(o) && o == v,
                None => r matches Err(e) && e@ == unresolved_model(),
            },
    ;
}

impl<T> DecodeArrayOrElse<T> for Raw<Vec<T>> {
    open spec fn resolved_array(&self) -> Option<Vec<T>> {
        match self {
            Raw::Resolved(v) => Some(*v),
            Raw::Placeholder => None,
        }
    }

    fn decode_array_or_else(self) -> (r: Result<Vec<T>, Error>) {
        match self {
            Raw::Resolved(v) => Ok(v),
            Raw::Placeholder => Err(unresolved_error()),
        }
    }
}

/// One argument of a callable function: its name and its type string.
pub struct ArgSchema {
    pub name: Raw<String>,
    pub ty: Raw<String>,
}

/// One callable function of a module.
pub struct CallSchema {
    pub name: Raw<String>,
    pub arguments: Raw<Vec<ArgSchema>>,
}

/// One event of a module: a name and positional type strings.
pub struct EventSchema {
    pub name: Raw<String>,
    pub arguments: Raw<Vec<String>>,
}

/// The shape-tagged type of one storage entry, with its key and value type
/// strings.
pub enum EntryType {
    Plain(Raw<String>),
    SingleMap { key: Raw<String>, value: Raw<String> },
    DoubleMap { key1: Raw<String>, key2: Raw<String>, value: Raw<String> },
}

/// One storage entry of a module.
pub struct EntrySchema {
    pub name: Raw<String>,
    pub ty: EntryType,
}

/// A module's storage sub-schema: a prefix and its ordered entries.
pub struct StorageSchema {
    pub prefix: Raw<String>,
    pub entries: Raw<Vec<EntrySchema>>,
}

/// One module node: a name and optional calls, event and storage sub-schemas.
pub struct ModuleSchema {
    pub name: Raw<String>,
    pub calls: Option<Raw<Vec<CallSchema>>>,
    pub event: Option<Raw<Vec<EventSchema>>>,
    pub storage: Option<Raw<StorageSchema>>,
}

/// The versioned outer document: the one recognized version carries the
/// module list; any other tag is reported as unsupported.
pub enum Metadata {
    V12(Raw<Vec<ModuleSchema>>),
    Other(u32),
}

} // verus!
