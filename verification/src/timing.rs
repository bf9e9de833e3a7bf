use vstd::prelude::*;

verus! {

#[verifier::external_type_specification]
#[verifier::external_body]
pub struct ExInstant(std::time::Instant);

/// Relies on std::time::Instant::now: an opaque reading of the monotonic
/// clock. The result depends on the time, so nothing is assumed of it.
#[verifier::external_body]
pub(crate) fn instant_now() -> std::time::Instant {
    std::time::Instant::now()
}

/// Relies on std::time::Instant::duration_since: the span from `earlier` to
/// `now`. The two instants are opaque, so nothing is assumed of the result.
#[verifier::external_body]
pub(crate) fn duration_since(
    now: &std::time::Instant,
    earlier: &std::time::Instant,
) -> std::time::Duration {
    now.duration_since(*earlier)
}

/// Relies on std::time::Duration::as_millis: the span as whole milliseconds.
/// The duration is opaque, so nothing is assumed of the result.
#[verifier::external_body]
pub(crate) fn duration_as_millis(duration: &std::time::Duration) -> u128 {
    duration.as_millis()
}

/// Determines if the emulator should run, aiming for 60 frames per second.
///
/// The decision depends on the clock: it is true exactly when at least one
/// sixtieth of a second has passed since the instant recorded last time. The
/// first call only records the current instant and declines to run.
pub fn should_run(last_tick_time: &mut Option<std::time::Instant>) -> (r: bool)
    ensures
        (*old(last_tick_time) is None ==> !r),
        (*final(last_tick_time) is Some),
{
    let mut return_value = false;
    let elapsed_ms: Option<u128> = match &*last_tick_time {
        Some(earlier) => {
            let now = instant_now();
            let elapsed = duration_since(&now, earlier);
            Some(duration_as_millis(&elapsed))
        },
        None => None,
    };
    match elapsed_ms {
        Some(elapsed_ms) => {
            if elapsed_ms >= 1000 / 60 {
                *last_tick_time = Some(instant_now());
                return_value = true;
            }
        },
        None => {
            *last_tick_time = Some(instant_now());
        },
    }
    return_value
}

} // verus!
