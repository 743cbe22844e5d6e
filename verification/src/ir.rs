//! The slice of the intermediate representation this backend consumes:
//! memory-location expressions (a local plus a chain of projections),
//! the typing accumulator threaded through projection application, and
//! the fatal error conditions of lowering.

use vstd::prelude::*;
use crate::ty::VariableType;

verus! {

/// One step of access applied to a place.
#[derive(Clone, Copy, Debug, PartialEq, Eq, Structural)]
pub enum Projection {
    /// Load the value behind a pointer.
    Deref,
    /// Select field `0` (by declaration order) of the current aggregate.
    Field(u32),
    /// Index by the runtime value held in the given local.
    Index(u32),
    /// Index by a constant, counted from the front or from the end.
    ConstantIndex { offset: u64, min_length: u64, from_end: bool },
    /// A sub-slice projection: not handled by this backend.
    Subslice { from: u64, to: u64, from_end: bool },
    /// Commit a union-typed place to the given variant.
    Downcast(u32),
}

/// A memory-location expression: a local variable plus zero or more
/// projections applied left to right.
#[derive(Debug, PartialEq, Eq)]
pub struct Place {
    pub local: u32,
    pub projection: Vec<Projection>,
}

/// The typing accumulator of projection application. A place is either
/// at a concrete type, or narrowed to one variant of a union by an
/// explicit `Downcast` (in which state it is not a concrete value).
#[derive(Debug, PartialEq, Eq)]
pub enum PlaceTy {
    Ty(VariableType),
    EnumVariant(VariableType, u32),
}

/// Which internal assumption of the lowering a malformed input broke.
#[derive(Clone, Copy, Debug, PartialEq, Eq, Structural)]
pub enum InvariantKind {
    /// A generic parameter had no entry in the substitution list.
    MissingSubstitution,
    /// An `Index` or `ConstantIndex` projection was applied to a place
    /// narrowed to a union variant: unions are not indexable.
    IndexIntoEnumVariant,
    /// A `Field` projection was applied to a non-aggregate type.
    NonAggregateFieldOwner,
    /// A `Field` index was past the end of the owner's field list.
    FieldOutOfRange,
    /// A `Downcast` named a variant the union does not have.
    VariantOutOfRange,
    /// A `Deref` projection was applied to a non-pointer type.
    DerefOfNonPointer,
    /// A `Downcast` projection was applied to a non-union type, or to a
    /// place already narrowed to a variant.
    DowncastOfNonEnum,
    /// An `Index` or `ConstantIndex` projection was applied to a type
    /// with no element-access operation.
    NotIndexable,
    /// A place named a local outside the function's local table.
    LocalOutOfRange,
    /// A place resolved to a union narrowed to no concrete value.
    UndiscriminatedValue,
    /// A fixed array was built over a type with no static size.
    UnsizedElement,
}

/// A fatal lowering failure. Every failure aborts the enclosing
/// compilation: no partial output is produced.
#[derive(Clone, Copy, Debug, PartialEq, Eq, Structural)]
pub enum LowerError {
    /// A projection kind or shape the lowering does not handle.
    UnsupportedProjection(Projection),
    /// A mismatch between the IR's guarantees and the lowering's
    /// assumptions.
    InvariantViolation(InvariantKind),
    /// A length or constant-index value that cannot be represented in
    /// the expected integer width.
    ScalarConversionFailure,
    /// Two structurally distinct shapes produced one canonical name.
    NameCollision,
}

} // verus!
