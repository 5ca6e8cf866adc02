use vstd::prelude::*;

verus! {

/// The version field of an identifier held as its 128-bit big-endian value.
pub open spec fn uuid_version(id: u128) -> u128 {
    (id >> 76u128) & 0xfu128
}

/// Relies on uuid::Uuid::new_v4 for a random identifier (its version field is
/// 4), read back whole by uuid::Uuid::as_u128.
#[verifier::external_body]
pub(crate) fn new_note_id() -> (r: u128)
    ensures
        uuid_version(r) == 4,
{
    uuid::Uuid::new_v4().as_u128()
}

} // verus!
