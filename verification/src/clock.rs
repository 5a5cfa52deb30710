//! The wall clock, read in one place.

use vstd::prelude::*;

verus! {

#[verifier::external_type_specification]
#[verifier::external_body]
pub struct ExSystemTime(std::time::SystemTime);

/// `SystemTime::now`: the time of the call. Nothing is claimed of it.
#[verifier::external_body]
fn system_now() -> (res: std::time::SystemTime) {
    std::time::SystemTime::now()
}

/// `SystemTime::duration_since(UNIX_EPOCH)`, with the error for a time
/// before the epoch turned into `None`. Nothing is claimed of the span.
#[verifier::external_body]
fn since_unix_epoch(t: &std::time::SystemTime) -> (res: Option<core::time::Duration>) {
    t.duration_since(std::time::UNIX_EPOCH).ok()
}

/// `Duration::as_secs`: the whole seconds of a span. Nothing is claimed of
/// them.
#[verifier::external_body]
fn duration_secs(d: &core::time::Duration) -> (res: u64) {
    d.as_secs()
}

/// `Duration::subsec_nanos`: the nanoseconds below one second, which the
/// documentation of `Duration` bounds below one billion.
#[verifier::external_body]
fn duration_subsec_nanos(d: &core::time::Duration) -> (res: u32)
    ensures
        res < 1_000_000_000,
{
    d.subsec_nanos()
}

/// The time of the call as whole seconds and the nanoseconds below one
/// second since the Unix epoch; `None` when the clock reads before the
/// epoch. The reading depends on the time of the call: only the bound on
/// the nanoseconds is stated.
pub(crate) fn unix_now() -> (res: Option<(u64, u32)>)
    ensures
        res matches Some((_, nanos)) ==> nanos < 1_000_000_000,
{
    let now = system_now();
    match since_unix_epoch(&now) {
        Some(d) => Some((duration_secs(&d), duration_subsec_nanos(&d))),
        None => None,
    }
}

/// Whole seconds since the Unix epoch, or 0 when the clock reads before it.
pub(crate) fn unix_now_secs() -> u64 {
    match unix_now() {
        Some((secs, _)) => secs,
        None => 0,
    }
}

} // verus!
