use crate::clock::{play_duration, play_duration_ms};
use crate::state::{EpochMs, Score, WordChoice};
use vstd::prelude::*;

verus! {

/// What a correct guess is worth before time and hints are taken off.
pub const BASE_SCORE: u32 = 120;

/// What the first correct guess of a round is worth on top.
pub const FIRST_CORRECT_BONUS: u32 = 10;

/// The factor for an easy word.
pub const EASY_MULTIPLER: u32 = 2;

/// The factor for a hard word.
pub const HARD_MULTIPLER: u32 = 3;

/// The factor for a word of the given difficulty.
pub open spec fn multiplier(choice: WordChoice) -> int {
    match choice {
        WordChoice::Easy => EASY_MULTIPLER as int,
        WordChoice::Hard => HARD_MULTIPLER as int,
    }
}

/// The bonus of a correct guess: the first of its round has one.
pub open spec fn first_correct_bonus(first_correct: bool) -> int {
    if first_correct {
        FIRST_CORRECT_BONUS as int
    } else {
        0
    }
}

/// Whole seconds from the start of a phase of `duration_ms` that ends at
/// `phase_ends_at` until `now_ms`; 0 before the phase has started.
pub open spec fn secs_elapsed(now_ms: EpochMs, phase_ends_at: EpochMs, duration_ms: u64) -> int {
    let started_at = phase_ends_at - duration_ms;
    if now_ms >= started_at {
        (now_ms - started_at) / 1000
    } else {
        0
    }
}

/// What a correct guess scores:
/// `((bonus + 120) - (secs_elapsed + hints_gotten)) * multiplier`,
/// and nothing once the seconds and hints have used up the bonus and base.
pub open spec fn inc_score(
    first_correct: bool,
    secs_elapsed: int,
    hints_gotten: int,
    choice: WordChoice,
) -> int {
    let budget = first_correct_bonus(first_correct) + BASE_SCORE;
    let penalty = secs_elapsed + hints_gotten;
    if penalty >= budget {
        0
    } else {
        (budget - penalty) * multiplier(choice)
    }
}

/// What a correct guess scores at `now_ms` in a play phase that ends at
/// `phase_ends_at`, after `hints_gotten` hints.
pub open spec fn guess_score_at(
    first_correct: bool,
    now_ms: EpochMs,
    phase_ends_at: EpochMs,
    hints_gotten: nat,
    choice: WordChoice,
) -> int {
    inc_score(
        first_correct,
        secs_elapsed(now_ms, phase_ends_at, play_duration_ms(choice)),
        hints_gotten as int,
        choice,
    )
}

/// With the bonus and the multiplier fixed, a guess that comes with more
/// seconds elapsed, or after more hints, scores strictly less, as long as
/// the earlier guess still scored above nothing.
pub proof fn law_score_strictly_decreases(
    first_correct: bool,
    choice: WordChoice,
    secs_a: int,
    hints_a: int,
    secs_b: int,
    hints_b: int,
)
    requires
        secs_a <= secs_b,
        hints_a <= hints_b,
        secs_a < secs_b || hints_a < hints_b,
        secs_a + hints_a < first_correct_bonus(first_correct) + BASE_SCORE,
    ensures
        inc_score(first_correct, secs_b, hints_b, choice) < inc_score(
            first_correct,
            secs_a,
            hints_a,
            choice,
        ),
{
    let budget = first_correct_bonus(first_correct) + BASE_SCORE;
    let m = multiplier(choice);
    if secs_b + hints_b < budget {
        assert((budget - (secs_b + hints_b)) * m < (budget - (secs_a + hints_a)) * m)
            by (nonlinear_arith)
            requires
                budget - (secs_b + hints_b) < budget - (secs_a + hints_a),
                m >= 2,
        ;
    } else {
        assert((budget - (secs_a + hints_a)) * m > 0) by (nonlinear_arith)
            requires
                budget - (secs_a + hints_a) > 0,
                m >= 2,
        ;
    }
}

/// A guess never scores more than an earlier one with fewer hints.
pub proof fn law_score_never_increases(
    first_correct: bool,
    choice: WordChoice,
    secs_a: int,
    hints_a: int,
    secs_b: int,
    hints_b: int,
)
    requires
        secs_a <= secs_b,
        hints_a <= hints_b,
    ensures
        inc_score(first_correct, secs_b, hints_b, choice) <= inc_score(
            first_correct,
            secs_a,
            hints_a,
            choice,
        ),
{
    let budget = first_correct_bonus(first_correct) + BASE_SCORE;
    let m = multiplier(choice);
    if secs_b + hints_b < budget {
        assert((budget - (secs_b + hints_b)) * m <= (budget - (secs_a + hints_a)) * m)
            by (nonlinear_arith)
            requires
                budget - (secs_b + hints_b) <= budget - (secs_a + hints_a),
                m >= 2,
        ;
    } else if secs_a + hints_a < budget {
        assert((budget - (secs_a + hints_a)) * m > 0) by (nonlinear_arith)
            requires
                budget - (secs_a + hints_a) > 0,
                m >= 2,
        ;
    }
}

/// What a correct guess scores at `now_ms` in a play phase that ends at
/// `phase_ends_at`, after `hints_gotten` hints.
pub fn score_correct_guess(
    first_correct: bool,
    now_ms: EpochMs,
    phase_ends_at: EpochMs,
    hints_gotten: usize,
    choice: WordChoice,
) -> (inc: Score)
    ensures
        inc == guess_score_at(first_correct, now_ms, phase_ends_at, hints_gotten as nat, choice),
        inc <= 390,
{
    let duration_ms: u64 = play_duration(choice);
    let budget: u128 = if first_correct {
        130
    } else {
        120
    };
    let factor: u32 = match choice {
        WordChoice::Easy => EASY_MULTIPLER,
        WordChoice::Hard => HARD_MULTIPLER,
    };
    let reached: u128 = now_ms as u128 + duration_ms as u128;
    let secs: u128 = if reached >= phase_ends_at as u128 {
        (reached - phase_ends_at as u128) / 1000
    } else {
        0
    };
    let penalty: u128 = secs + hints_gotten as u128;
    if penalty >= budget {
        0
    } else {
        let left: u32 = (budget - penalty) as u32;
        assert(left * factor <= 390) by (nonlinear_arith)
            requires
                left <= 130,
                factor <= 3,
        ;
        left * factor
    }
}

} // verus!
