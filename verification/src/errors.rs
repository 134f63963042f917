//! Fatal input errors of the generator.
//!
//! The metadata document is expected to be machine-generated and
//! self-consistent; any structural inconsistency aborts generation with one
//! of these errors instead of emitting partial or silently wrong code.

use vstd::prelude::*;

verus! {

/// A structural inconsistency in the input metadata.
#[derive(Debug, Clone, PartialEq, Eq, Structural)]
pub enum GenError {
    /// An entry point or field references a type id that the registry
    /// does not contain.
    UnresolvedTypeId(u32),
    /// A composite or variant mixes named and unnamed fields.
    MixedFields,
    /// A message label contains more than one `::` separator; nested
    /// namespaces are unsupported.
    NestedNamespace,
    /// A selector or code-identifier string is not valid hex.
    InvalidHex,
    /// A type definition uses an encoding the generator does not support,
    /// or its references do not bottom out.
    UnsupportedType(u32),
}

} // verus!
