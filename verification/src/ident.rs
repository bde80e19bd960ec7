//! Entry ids and the UUIDs they are drawn from.

use vstd::prelude::*;

verus! {

/// `uuid::Uuid`, as an opaque value that can be handed on.
#[verifier::external_type_specification]
#[verifier::external_body]
pub struct ExUuid(uuid::Uuid);

/// Draws a random version 4 UUID with `uuid::Uuid::new_v4` and hands out its
/// sixteen bytes as one big-endian number (`uuid::Uuid::as_u128`). Nothing is
/// claimed of the number: it is random. The call does not return where the
/// operating system has no random bytes to give.
#[verifier::external_body]
pub(crate) fn fresh_id() -> u128 {
    uuid::Uuid::new_v4().as_u128()
}

/// The UUID that `uuid::Uuid::from_u128` makes of `id`: the one whose sixteen
/// bytes are the big-endian bytes of `id`.
pub uninterp spec fn uuid_from(id: u128) -> uuid::Uuid;

/// Builds the UUID whose sixteen bytes are the big-endian bytes of `id`, with
/// `uuid::Uuid::from_u128`. A `Uuid` is opaque here, so the result is stated
/// by name: it is fixed by `id` alone.
#[verifier::external_body]
pub(crate) fn uuid_of(id: u128) -> (uuid: uuid::Uuid)
    ensures
        uuid == uuid_from(id),
{
    uuid::Uuid::from_u128(id)
}

} // verus!
