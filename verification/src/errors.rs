use vstd::prelude::*;

verus! {

/// The ways an operation on a record can fail. Every failure aborts the whole
/// operation: the record is never left in a partially mutated state.
#[derive(Clone, Copy, Debug, PartialEq, Eq, Structural)]
pub enum RecordError {
    /// Creation could not allocate the record: the target address is already
    /// occupied, or the payer cannot authorize and fund the allocation.
    AllocationError,
    /// The caller is not a validly authenticated principal.
    AuthorizationError,
    /// The requested mutation would push the serialized record past its fixed
    /// reserved capacity.
    CapacityExceeded,
    /// The content cannot be encoded within the fixed item layout, because its
    /// byte length does not fit the 4-byte length field.
    SerializationError,
}

} // verus!
