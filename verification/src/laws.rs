use crate::events::{needs_instant, stamped, ClientEventView, ServerEventView};
use crate::model::{
    advance_spec, on_player_presence, replay_spec, run_spec, timed_advance_spec, timer_is_live,
    Input, Outcome,
};
use crate::room::{connect_spec, RoomView};
use crate::state::{EpochMs, GameView, Phase, PlayerId, RoundView};
use crate::timers::TimedEvent;
use crate::words::WordCatalogView;
use vstd::prelude::*;

verus! {

/// Determinism: two games that are equal, given the same events with the
/// same words at the same instant, end as equal games and send out the same
/// events in the same order.
pub proof fn law_replay_is_deterministic(
    first: GameView,
    second: GameView,
    events: Seq<ServerEventView>,
    words: WordCatalogView,
    now_ms: EpochMs,
)
    requires
        first == second,
    ensures
        replay_spec(first, events, words, now_ms) == replay_spec(second, events, words, now_ms),
{
}

/// Determinism of whole histories: two games that are equal, taken through
/// the same events at the same instants and the same timers, end as equal
/// games, having sent out the same events and scheduled the same timers in
/// the same order.
pub proof fn law_run_is_deterministic(
    first: GameView,
    second: GameView,
    inputs: Seq<Input>,
    words: WordCatalogView,
)
    requires
        first == second,
    ensures
        run_spec(first, inputs, words) == run_spec(second, inputs, words),
{
}

/// Replaying no event changes nothing and sends nothing.
pub proof fn law_replay_of_nothing(game: GameView, words: WordCatalogView, now_ms: EpochMs)
    ensures
        replay_spec(game, Seq::empty(), words, now_ms) == Outcome::absorbed(game),
{
}

/// Replaying one batch after another is replaying the two as one, as long
/// as the first is not cut off by a fault.
pub proof fn law_replay_in_two_batches(
    game: GameView,
    head: Seq<ServerEventView>,
    tail: Seq<ServerEventView>,
    words: WordCatalogView,
    now_ms: EpochMs,
)
    requires
        replay_spec(game, head, words, now_ms).fault is None,
    ensures
        replay_spec(game, head + tail, words, now_ms).game == replay_spec(
            replay_spec(game, head, words, now_ms).game,
            tail,
            words,
            now_ms,
        ).game,
        replay_spec(game, head + tail, words, now_ms).emitted == replay_spec(
            game,
            head,
            words,
            now_ms,
        ).emitted + replay_spec(
            replay_spec(game, head, words, now_ms).game,
            tail,
            words,
            now_ms,
        ).emitted,
        replay_spec(game, head + tail, words, now_ms).fault == replay_spec(
            replay_spec(game, head, words, now_ms).game,
            tail,
            words,
            now_ms,
        ).fault,
    decreases head.len(),
{
    if head.len() == 0 {
        assert(head + tail =~= tail);
        let rest = replay_spec(game, tail, words, now_ms);
        assert(Seq::<ServerEventView>::empty() + rest.emitted =~= rest.emitted);
    } else {
        let step = advance_spec(game, head[0], words, now_ms);
        assert((head + tail)[0] == head[0]);
        assert((head + tail).drop_first() =~= head.drop_first() + tail);
        law_replay_in_two_batches(step.game, head.drop_first(), tail, words, now_ms);
        let mid = replay_spec(step.game, head.drop_first(), words, now_ms);
        let end = replay_spec(mid.game, tail, words, now_ms);
        assert(step.emitted + (mid.emitted + end.emitted) =~= (step.emitted + mid.emitted)
            + end.emitted);
    }
}

/// Only a word choice and a guess look at the instant: any other event does
/// the same at every instant.
pub proof fn law_instant_matters_to_two_kinds(
    game: GameView,
    event: ServerEventView,
    words: WordCatalogView,
    one_ms: EpochMs,
    other_ms: EpochMs,
)
    requires
        !needs_instant(event),
    ensures
        advance_spec(game, event, words, one_ms) == advance_spec(game, event, words, other_ms),
{
}

/// A batch without a word choice and without a guess does the same at every
/// instant.
pub proof fn law_replay_without_instant(
    game: GameView,
    events: Seq<ServerEventView>,
    words: WordCatalogView,
    one_ms: EpochMs,
    other_ms: EpochMs,
)
    requires
        forall|i: int| 0 <= i < events.len() ==> !needs_instant(#[trigger] events[i]),
    ensures
        replay_spec(game, events, words, one_ms) == replay_spec(game, events, words, other_ms),
    decreases events.len(),
{
    if events.len() > 0 {
        law_instant_matters_to_two_kinds(game, events[0], words, one_ms, other_ms);
        let first = advance_spec(game, events[0], words, one_ms);
        let rest = events.drop_first();
        assert forall|i: int| 0 <= i < rest.len() implies !needs_instant(#[trigger] rest[i]) by {
            assert(rest[i] == events[i + 1]);
        }
        law_replay_without_instant(first.game, rest, words, one_ms, other_ms);
    }
}

/// An event that the engine refuses leaves the game as it was and sends
/// nothing.
pub proof fn law_refusal_changes_nothing(
    game: GameView,
    event: ServerEventView,
    words: WordCatalogView,
    now_ms: EpochMs,
)
    requires
        advance_spec(game, event, words, now_ms).fault is Some,
    ensures
        advance_spec(game, event, words, now_ms).is_silent(game),
{
}

/// Phase guard for drawing: a drawing operation that comes while no round
/// is in its play phase, or from a player who does not draw in the round,
/// changes nothing and sends nothing.
pub proof fn law_draw_op_guard(
    game: GameView,
    drawer_id: PlayerId,
    draw_op: Option<Seq<u8>>,
    words: WordCatalogView,
    now_ms: EpochMs,
)
    requires
        game.round matches Some(round) ==> round.phase != Phase::Play || round.drawer_id
            != drawer_id,
    ensures
        advance_spec(
            game,
            ServerEventView::PlayerDrawOp { drawer_id, draw_op },
            words,
            now_ms,
        ) == Outcome::absorbed(game),
{
}

/// Phase guard for guessing: a guess that comes while no round is in its
/// play phase, or from the player who draws in the round, changes nothing
/// and sends nothing.
pub proof fn law_guess_guard(
    game: GameView,
    guesser_id: PlayerId,
    guess: Seq<char>,
    after_draw_ops: u32,
    words: WordCatalogView,
    now_ms: EpochMs,
)
    requires
        game.round matches Some(round) ==> round.phase != Phase::Play || round.drawer_id
            == guesser_id,
    ensures
        advance_spec(
            game,
            ServerEventView::PlayerGuessWord { guesser_id, guess, after_draw_ops },
            words,
            now_ms,
        ) == Outcome::absorbed(game),
{
}

/// Stale timer immunity: a timer whose round or phase is not the current
/// one has no effect: the game stays, nothing is sent, nothing scheduled.
pub proof fn law_stale_timer_is_dropped(game: GameView, timer: TimedEvent)
    requires
        game.round matches Some(round) ==> round.round_id != timer.target_round_id || round.phase
            != timer.target_phase,
    ensures
        timed_advance_spec(game, timer).is_silent(game),
{
    assert(!timer_is_live(game, timer));
}

/// Snapshot completeness: whatever game a replica holds, applying the
/// snapshot of `game` and then no further event leaves it with `game`.
pub proof fn law_snapshot_restores(
    game: GameView,
    replica: GameView,
    player_id: PlayerId,
    words: WordCatalogView,
    now_ms: EpochMs,
)
    ensures
        advance_spec(
            replica,
            ServerEventView::SetGame { player_id, game },
            words,
            now_ms,
        ).game == game,
        advance_spec(
            replica,
            ServerEventView::SetGame { player_id, game },
            words,
            now_ms,
        ).fault is None,
        replay_spec(
            advance_spec(replica, ServerEventView::SetGame { player_id, game }, words, now_ms).game,
            Seq::empty(),
            words,
            now_ms,
        ).game == game,
{
}

/// What a client can cause never adds a player to the game and never
/// removes one.
pub proof fn law_client_events_keep_the_players(
    game: GameView,
    sender: PlayerId,
    event: ClientEventView,
    words: WordCatalogView,
    now_ms: EpochMs,
)
    ensures
        advance_spec(game, stamped(sender, event), words, now_ms).game.players.dom()
            == game.players.dom(),
{
    let out = advance_spec(game, stamped(sender, event), words, now_ms);
    assert(out.game.players.dom() =~= game.players.dom());
}

/// The room keeps itself well formed through every registration.
pub proof fn law_connect_keeps_room_wf(room: RoomView, name: Option<Seq<char>>, pass: Seq<char>)
    requires
        room.wf(),
    ensures
        connect_spec(room, name, pass).room.wf(),
{
    let after = connect_spec(room, name, pass).room;
    if room.passes.contains_key(pass) {
        let id = room.passes[pass];
        assert(room.game.players.contains_key(id));
        assert(after.game.players.dom() =~= room.game.players.dom());
    }
}

/// In a well-formed room a new client is never turned down because its id
/// is taken.
pub proof fn law_join_gets_a_fresh_id(room: RoomView, name: Option<Seq<char>>, pass: Seq<char>)
    requires
        room.wf(),
        !room.passes.contains_key(pass),
        room.next_player_id < u32::MAX,
    ensures
        connect_spec(room, name, pass).reply is Ok,
        connect_spec(room, name, pass).reply->Ok_0.player_id == room.next_player_id,
        connect_spec(room, name, pass).room.game.players.dom() == room.game.players.dom().insert(
            room.next_player_id,
        ),
        connect_spec(room, name, pass).room.passes[pass] == room.next_player_id,
{
    if room.game.players.contains_key(room.next_player_id) {
        assert(room.next_player_id < room.next_player_id);
    }
    assert(connect_spec(room, name, pass).room.game.players.dom()
        =~= room.game.players.dom().insert(room.next_player_id));
}

/// Join idempotence: a client that registers with a token that the room
/// knows is the player it was. The registration adds no player and removes
/// none, leaves that player connected, connected before or not, and a
/// second registration with the token changes nothing more.
pub proof fn law_reconnect_is_idempotent(
    room: RoomView,
    name: Option<Seq<char>>,
    again: Option<Seq<char>>,
    pass: Seq<char>,
)
    requires
        room.wf(),
        room.passes.contains_key(pass),
    ensures
        connect_spec(room, name, pass).reply is Ok,
        connect_spec(room, name, pass).reply->Ok_0.player_id == room.passes[pass],
        connect_spec(room, name, pass).room.game.players.dom() == room.game.players.dom(),
        connect_spec(room, name, pass).room.game.players.len() == room.game.players.len(),
        connect_spec(room, name, pass).room.game.players[room.passes[pass]].connected,
        connect_spec(room, name, pass).room.passes == room.passes,
        connect_spec(connect_spec(room, name, pass).room, again, pass).room == connect_spec(
            room,
            name,
            pass,
        ).room,
{
    let id = room.passes[pass];
    assert(room.game.players.contains_key(id));
    let once = connect_spec(room, name, pass).room;
    assert(once.game.players.dom() =~= room.game.players.dom());
    let twice = connect_spec(once, again, pass).room;
    assert(twice.game.players =~= once.game.players);
}

/// A disconnection adds no player and removes none.
pub proof fn law_disconnect_keeps_the_players(game: GameView, player_id: PlayerId)
    ensures
        on_player_presence(
            game,
            ServerEventView::PlayerDisconnect { player_id },
            player_id,
            false,
        ).game.players.dom() == game.players.dom(),
{
    let out = on_player_presence(
        game,
        ServerEventView::PlayerDisconnect { player_id },
        player_id,
        false,
    );
    assert(out.game.players.dom() =~= game.players.dom());
}

/// Scores only rise: but for a snapshot, which replaces the whole game, no
/// event lowers a counter of a player who stays in the game.
pub proof fn law_scores_never_fall(
    game: GameView,
    event: ServerEventView,
    words: WordCatalogView,
    now_ms: EpochMs,
    id: PlayerId,
)
    requires
        !(event is SetGame),
        game.players.contains_key(id),
        advance_spec(game, event, words, now_ms).game.players.contains_key(id),
    ensures
        game.players[id].round_score <= advance_spec(
            game,
            event,
            words,
            now_ms,
        ).game.players[id].round_score,
        game.players[id].draw_score <= advance_spec(
            game,
            event,
            words,
            now_ms,
        ).game.players[id].draw_score,
        game.players[id].guess_score <= advance_spec(
            game,
            event,
            words,
            now_ms,
        ).game.players[id].guess_score,
{
}

/// The logs of a round only grow: but for a snapshot and a new round, no
/// event takes a drawing operation, a guess or a hint away or changes one
/// that is recorded.
pub proof fn law_round_logs_only_grow(
    game: GameView,
    event: ServerEventView,
    words: WordCatalogView,
    now_ms: EpochMs,
)
    requires
        !(event is SetGame),
        !(event is NewRound),
        game.round is Some,
    ensures
        advance_spec(game, event, words, now_ms).game.round is Some,
        game.round->0.draw_ops.is_prefix_of(
            advance_spec(game, event, words, now_ms).game.round->0.draw_ops,
        ),
        game.round->0.guesses.is_prefix_of(
            advance_spec(game, event, words, now_ms).game.round->0.guesses,
        ),
        game.round->0.hints.is_prefix_of(
            advance_spec(game, event, words, now_ms).game.round->0.hints,
        ),
        game.round->0.round_id == advance_spec(game, event, words, now_ms).game.round->0.round_id,
{
}

/// A timer never touches the players or the logs of the round, and never
/// changes which round it is.
pub proof fn law_timer_changes_phase_only(game: GameView, timer: TimedEvent)
    ensures
        timed_advance_spec(game, timer).game.players == game.players,
        game.round is Some <==> timed_advance_spec(game, timer).game.round is Some,
        game.round matches Some(round) ==> timed_advance_spec(game, timer).game.round
            == Some(
            RoundView {
                phase: timed_advance_spec(game, timer).game.round->0.phase,
                phase_ends_at: timed_advance_spec(game, timer).game.round->0.phase_ends_at,
                ..round
            },
        ),
{
}

} // verus!
