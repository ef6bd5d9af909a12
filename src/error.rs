use vstd::prelude::*;

verus! {

/// What can go wrong while loading, saving or querying the store.
#[derive(Copy, Clone, PartialEq, Eq, Structural, PartialOrd, Ord, Hash, Debug)]
#[non_exhaustive]
pub enum Error {
    /// The host has no per-user local data directory.
    MissingLocalDataDirectory,
    /// The stored document is not valid structured data.
    DeserializeData,
    /// The store could not be encoded.
    SerializeData,
    /// No section of the requested name exists.
    SectionNotFound,
    /// The section exists, but holds no register of the requested name.
    RegisterNotFound,
    /// An update named no field to set.
    NoFieldsSpecified,
}

} // verus!
