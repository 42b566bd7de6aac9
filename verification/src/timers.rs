use crate::state::{EpochMs, Phase, RoundId};
use vstd::prelude::*;

verus! {

/// What a timer is for.
#[derive(Clone, Copy, Debug, PartialEq, Eq, Structural)]
pub enum TimedEventType {
    PrePlayPhaseOver,
    ChooseWordPhaseOver,
    /// The drawer has drawn nothing since the play phase began.
    InactiveDrawer,
    PlayPhaseOver,
    PostPlayPhaseOver,
    GiveHint,
}

/// A request to be called back, no earlier than `times_out_at`. It is only
/// honoured while the round and the phase that it was issued for last.
#[derive(Clone, Copy, Debug, PartialEq, Eq, Structural)]
pub struct TimedEvent {
    pub target_round_id: RoundId,
    pub target_phase: Phase,
    pub timed_event_type: TimedEventType,
    pub times_out_at: EpochMs,
}

} // verus!
