use vstd::prelude::*;

verus! {

/// How often a connection is looked at, in milliseconds.
pub const ALIVE_CHECK_EVERY_MS: u64 = 5_000;

/// After how long without a word from the client a ping is sent, in
/// nanoseconds.
pub const INACTIVE_AFTER_NANOS: u128 = 4_000_000_000;

/// After how long without a word from the client the connection is given
/// up, in nanoseconds.
pub const STALE_AFTER_NANOS: u128 = 9_000_000_000;

/// What to do with a connection when it is looked at.
#[derive(Clone, Copy, Debug, PartialEq, Eq, Structural)]
pub enum AliveCheck {
    /// Give the connection up and tell the room that the player has gone.
    Drop,
    /// Ask the client whether it is there.
    Ping,
    /// Leave the connection alone.
    Wait,
}

/// What to do with a connection whose client was last heard of
/// `idle_nanos` ago.
pub open spec fn alive_check_spec(idle_nanos: u128) -> AliveCheck {
    if idle_nanos > STALE_AFTER_NANOS {
        AliveCheck::Drop
    } else if idle_nanos > INACTIVE_AFTER_NANOS {
        AliveCheck::Ping
    } else {
        AliveCheck::Wait
    }
}

/// What to do with a connection whose client was last heard of
/// `idle_nanos` ago.
pub fn alive_check(idle_nanos: u128) -> (action: AliveCheck)
    ensures
        action == alive_check_spec(idle_nanos),
{
    if idle_nanos > STALE_AFTER_NANOS {
        AliveCheck::Drop
    } else if idle_nanos > INACTIVE_AFTER_NANOS {
        AliveCheck::Ping
    } else {
        AliveCheck::Wait
    }
}

} // verus!
