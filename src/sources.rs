use vstd::prelude::*;

verus! {

/// Relies on uuid's `Uuid::new_v4`: a random version-4 identifier, read as
/// its 128-bit big-endian value; the version nibble is always 4.
#[verifier::external_body]
pub(crate) fn new_uuid() -> (r: u128)
    ensures
        (r >> 76u128) & 0xfu128 == 4,
{
    uuid::Uuid::new_v4().as_u128()
}

/// Relies on chrono's `Utc::now`: the current time, as seconds since the
/// Unix epoch. Nothing is known of its value.
#[verifier::external_body]
pub(crate) fn now_timestamp() -> (r: i64) {
    chrono::Utc::now().timestamp()
}

} // verus!
