use crate::state::{EpochMs, WordChoice};
use std::time::{SystemTime, UNIX_EPOCH};
use vstd::prelude::*;

verus! {

/// How long the drawer has to choose a word.
pub const CHOOSE_WORD_DURATION_MS: u64 = 10_000;

/// How long the pause before play lasts.
pub const PRE_PLAY_DURATION_MS: u64 = 5_000;

/// How long an easy word is played.
pub const PLAY_EASY_DURATION_MS: u64 = 45_000;

/// How long a hard word is played.
pub const PLAY_HARD_DURATION_MS: u64 = 60_000;

/// How long the reveal after play lasts.
pub const POST_PLAY_DURATION_MS: u64 = 5_000;

/// How long the play phase lasts for a word of the given difficulty.
pub open spec fn play_duration_ms(choice: WordChoice) -> u64 {
    match choice {
        WordChoice::Easy => PLAY_EASY_DURATION_MS,
        WordChoice::Hard => PLAY_HARD_DURATION_MS,
    }
}

/// How long the play phase lasts for a word of the given difficulty.
pub fn play_duration(choice: WordChoice) -> (duration_ms: u64)
    ensures
        duration_ms == play_duration_ms(choice),
{
    match choice {
        WordChoice::Easy => PLAY_EASY_DURATION_MS,
        WordChoice::Hard => PLAY_HARD_DURATION_MS,
    }
}

/// The instant `duration_ms` after `now_ms`, held at the largest instant
/// that can be written.
pub open spec fn deadline_after_spec(now_ms: EpochMs, duration_ms: u64) -> EpochMs {
    if now_ms + duration_ms > u64::MAX {
        u64::MAX
    } else {
        (now_ms + duration_ms) as u64
    }
}

/// The instant `duration_ms` after `now_ms`, held at the largest instant
/// that can be written.
pub fn deadline_after(now_ms: EpochMs, duration_ms: u64) -> (deadline: EpochMs)
    ensures
        deadline == deadline_after_spec(now_ms, duration_ms),
{
    if now_ms > u64::MAX - duration_ms {
        u64::MAX
    } else {
        now_ms + duration_ms
    }
}

/// Reads the system clock with `std::time::SystemTime::now` and gives the
/// milliseconds since the Unix epoch, or `None` where the clock stands
/// before the epoch or the count does not fit. Nothing is claimed of the
/// value.
#[verifier::external_body]
pub(crate) fn unix_now_ms() -> (now_ms: Option<EpochMs>) {
    match SystemTime::now().duration_since(UNIX_EPOCH) {
        Ok(since_epoch) => u64::try_from(since_epoch.as_millis()).ok(),
        Err(_) => None,
    }
}

/// The instant `duration_ms` from now: some instant of the clock, moved on
/// by `duration_ms`. `None` where the clock cannot give an instant.
pub fn epoch_ms_from_now(duration_ms: u64) -> (deadline: Option<EpochMs>)
    ensures
        deadline matches Some(at) ==> exists|now_ms: EpochMs|
            at == #[trigger] deadline_after_spec(now_ms, duration_ms),
{
    deadline_from_reading(unix_now_ms(), duration_ms)
}

/// The instant `duration_ms` after what the clock gave, if it gave an
/// instant.
pub open spec fn deadline_from_reading_spec(
    reading: Option<EpochMs>,
    duration_ms: u64,
) -> Option<EpochMs> {
    match reading {
        Some(now_ms) => Some(deadline_after_spec(now_ms, duration_ms)),
        None => None,
    }
}

/// The instant `duration_ms` after the reading `reading` of the clock;
/// `None` exactly where the clock gave no instant.
pub fn deadline_from_reading(reading: Option<EpochMs>, duration_ms: u64) -> (deadline: Option<
    EpochMs,
>)
    ensures
        deadline == deadline_from_reading_spec(reading, duration_ms),
{
    match reading {
        Some(now_ms) => Some(deadline_after(now_ms, duration_ms)),
        None => None,
    }
}

} // verus!
