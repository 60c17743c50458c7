use vstd::prelude::*;

verus! {

/// Relies on `rand::random::<NonZeroU64>` (the thread-local generator with
/// the standard uniform distribution over non-zero values): a random 64-bit
/// identifier that is never zero.
#[verifier::external_body]
pub fn generate_id() -> (r: u64)
    ensures
        r != 0,
{
    rand::random::<core::num::NonZeroU64>().get()
}

/// Relies on `std::time::SystemTime::now` and `duration_since(UNIX_EPOCH)`:
/// the current instant as nanoseconds since the Unix epoch, or 0 when the
/// clock reads earlier than the epoch. Nothing is promised of the value:
/// it is the machine's clock.
#[verifier::external_body]
pub(crate) fn now_unix_ns() -> u64 {
    match std::time::SystemTime::now().duration_since(std::time::UNIX_EPOCH) {
        Ok(d) => d.as_nanos() as u64,
        Err(_) => 0,
    }
}

} // verus!
