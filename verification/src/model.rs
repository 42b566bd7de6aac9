use crate::clock::{
    deadline_after_spec, play_duration_ms, POST_PLAY_DURATION_MS, PRE_PLAY_DURATION_MS,
};
use crate::events::ServerEventView;
use crate::scoring::guess_score_at;
use crate::state::{
    all_connected_scored, EpochMs, GameView, GuessTypeView, GuessView, Phase, PlayerId,
    PlayerView, RoundId, RoundView, Score, WordChoice, WordIdx,
};
use crate::timers::{TimedEvent, TimedEventType};
use crate::words::WordCatalogView;
use vstd::prelude::*;

verus! {

/// A condition that the engine treats as fatal for the room: it refuses the
/// event and leaves the game as it was.
#[derive(Clone, Copy, Debug, PartialEq, Eq, Structural)]
pub enum EngineFault {
    /// A player was to join under an id that is taken.
    DuplicatePlayer,
    /// The round's word lies outside the catalog.
    WordOutOfCatalog,
    /// The clock gave no instant.
    ClockUnavailable,
    /// The timer is of a kind that the engine does not handle.
    UnsupportedTimer,
}

/// What one event does: the game after it, the events to send out, in
/// order, and the fault if the event was refused.
pub struct Outcome {
    pub game: GameView,
    pub emitted: Seq<ServerEventView>,
    pub fault: Option<EngineFault>,
}

impl Outcome {
    /// The event was absorbed: nothing changes and nothing is sent.
    pub open spec fn absorbed(game: GameView) -> Outcome {
        Outcome { game, emitted: Seq::empty(), fault: None }
    }

    /// The event was refused with `fault`: nothing changes and nothing is
    /// sent.
    pub open spec fn refused(game: GameView, fault: EngineFault) -> Outcome {
        Outcome { game, emitted: Seq::empty(), fault: Some(fault) }
    }

    /// The event was applied.
    pub open spec fn applied(game: GameView, emitted: Seq<ServerEventView>) -> Outcome {
        Outcome { game, emitted, fault: None }
    }

    /// Whether the event left the game as it was and sent nothing.
    pub open spec fn is_silent(self, before: GameView) -> bool {
        self.game == before && self.emitted == Seq::<ServerEventView>::empty()
    }
}

/// The sum of two scores, held at the largest score that can be written.
pub open spec fn sat_add(a: Score, b: Score) -> Score {
    if a + b > u32::MAX {
        u32::MAX
    } else {
        (a + b) as Score
    }
}

/// A player who has just joined under `name`.
pub open spec fn joined(name: Seq<char>) -> PlayerView {
    PlayerView { name, round_score: 0, draw_score: 0, guess_score: 0, connected: true }
}

/// `player` with each counter raised by its increment.
pub open spec fn with_scores(
    player: PlayerView,
    round_inc: Score,
    draw_inc: Score,
    guess_inc: Score,
) -> PlayerView {
    PlayerView {
        round_score: sat_add(player.round_score, round_inc),
        draw_score: sat_add(player.draw_score, draw_inc),
        guess_score: sat_add(player.guess_score, guess_inc),
        ..player
    }
}

/// `game` with the player `id` replaced by `player`.
pub open spec fn with_player(game: GameView, id: PlayerId, player: PlayerView) -> GameView {
    GameView { players: game.players.insert(id, player), ..game }
}

/// `game` with `round` as its round.
pub open spec fn with_round(game: GameView, round: RoundView) -> GameView {
    GameView { round: Some(round), ..game }
}

/// Raises counters of the player `id`, if there is such a player.
pub open spec fn on_player_inc(
    game: GameView,
    event: ServerEventView,
    id: PlayerId,
    round_inc: Score,
    draw_inc: Score,
    guess_inc: Score,
) -> Outcome {
    if game.players.contains_key(id) {
        Outcome::applied(
            with_player(game, id, with_scores(game.players[id], round_inc, draw_inc, guess_inc)),
            seq![event],
        )
    } else {
        Outcome::absorbed(game)
    }
}

/// Marks the player `id` as connected or not; absorbed where there is no
/// such player or nothing would change.
pub open spec fn on_player_presence(
    game: GameView,
    event: ServerEventView,
    id: PlayerId,
    connected: bool,
) -> Outcome {
    if game.players.contains_key(id) && game.players[id].connected != connected {
        Outcome::applied(
            with_player(game, id, PlayerView { connected, ..game.players[id] }),
            seq![event],
        )
    } else {
        Outcome::absorbed(game)
    }
}

/// Whether a drawing operation of `sender` is accepted: a round is in its
/// play phase and `sender` draws in it.
pub open spec fn draw_accepted(game: GameView, sender: PlayerId) -> bool {
    game.round matches Some(round) && round.phase == Phase::Play && round.drawer_id == sender
}

/// Whether a word choice of `sender` is accepted: a round is in its
/// choose-word phase and `sender` draws in it.
pub open spec fn choice_accepted(game: GameView, sender: PlayerId) -> bool {
    game.round matches Some(round) && round.phase == Phase::ChooseWord && round.drawer_id
        == sender
}

/// Whether a guess of `sender` is accepted: a round is in its play phase,
/// `sender` does not draw in it, and `sender` is a player.
pub open spec fn guess_accepted(game: GameView, sender: PlayerId) -> bool {
    game.round matches Some(round) && round.phase == Phase::Play && round.drawer_id != sender
        && game.players.contains_key(sender)
}

/// The position of the round's word in the list of the chosen difficulty.
pub open spec fn round_word_idx(round: RoundView) -> WordIdx {
    match round.word_choice {
        WordChoice::Easy => round.easy_word,
        WordChoice::Hard => round.hard_word,
    }
}

/// The word to guess in `round`, if the catalog has it.
pub open spec fn round_word(round: RoundView, words: WordCatalogView) -> Option<Seq<char>> {
    words.word(round.word_choice, round_word_idx(round))
}

/// A drawing operation arrives.
pub open spec fn on_draw_op(
    game: GameView,
    event: ServerEventView,
    sender: PlayerId,
    draw_op: Option<Seq<u8>>,
) -> Outcome {
    if draw_accepted(game, sender) && draw_op is Some {
        let round = game.round->0;
        Outcome::applied(
            with_round(game, RoundView { draw_ops: round.draw_ops.push(draw_op->0), ..round }),
            seq![event],
        )
    } else {
        Outcome::absorbed(game)
    }
}

/// The drawer chooses a word. The choice is echoed if it differs from the
/// one in force, and the round moves on to its pre-play phase.
pub open spec fn on_choose_word(
    game: GameView,
    event: ServerEventView,
    sender: PlayerId,
    choice: WordChoice,
    now_ms: EpochMs,
) -> Outcome {
    if choice_accepted(game, sender) {
        let round = game.round->0;
        let ends_at = deadline_after_spec(now_ms, PRE_PLAY_DURATION_MS);
        let change = ServerEventView::RoundChangePhase {
            phase: Phase::PrePlay,
            phase_ends_at: ends_at,
        };
        Outcome::applied(
            with_round(
                game,
                RoundView {
                    word_choice: choice,
                    phase: Phase::PrePlay,
                    phase_ends_at: ends_at,
                    ..round
                },
            ),
            if round.word_choice != choice {
                seq![event, change]
            } else {
                seq![change]
            },
        )
    } else {
        Outcome::absorbed(game)
    }
}

/// What the correct guess of `guesser` at `now_ms` is worth, in a game
/// whose round is in its play phase.
pub open spec fn correct_guess_worth(game: GameView, now_ms: EpochMs) -> Score {
    let round = game.round->0;
    guess_score_at(
        round.guess_score == 0,
        now_ms,
        round.phase_ends_at,
        round.hints.len(),
        round.word_choice,
    ) as Score
}

/// Scores the correct guess of `guesser` at `now_ms`, in a game whose round
/// is in its play phase and which `guesser` plays in.
///
/// The guesser's guess score and round score rise by the worth of the
/// guess, and so does the round's guess score. If no guess had scored in
/// this round before, the drawer's draw score and round score rise by the
/// same, if the drawer is still a player, and so does the round's draw
/// score. If every connected player has then scored, the round is cut
/// short: it moves to its post-play phase.
pub open spec fn score_correct_guess(game: GameView, guesser: PlayerId, now_ms: EpochMs) -> Outcome {
    let round = game.round->0;
    let first = round.guess_score == 0;
    let inc = correct_guess_worth(game, now_ms);
    let players1 = game.players.insert(guesser, with_scores(game.players[guesser], inc, 0, inc));
    let pays_drawer = first && players1.contains_key(round.drawer_id);
    let players2 = if pays_drawer {
        players1.insert(round.drawer_id, with_scores(players1[round.drawer_id], inc, inc, 0))
    } else {
        players1
    };
    let cut_short = all_connected_scored(players2);
    let ends_at = deadline_after_spec(now_ms, POST_PLAY_DURATION_MS);
    let round2 = RoundView {
        guess_score: sat_add(round.guess_score, inc),
        draw_score: if first {
            sat_add(round.draw_score, inc)
        } else {
            round.draw_score
        },
        phase: if cut_short {
            Phase::PostPlay
        } else {
            round.phase
        },
        phase_ends_at: if cut_short {
            ends_at
        } else {
            round.phase_ends_at
        },
        ..round
    };
    let for_guesser = seq![
        ServerEventView::PlayerIncRoundScore { player_id: guesser, inc_by: inc },
        ServerEventView::RoundIncGuessScore { inc_by: inc },
    ];
    let for_drawer = if pays_drawer {
        seq![ServerEventView::PlayerIncRoundScore { player_id: round.drawer_id, inc_by: inc }]
    } else {
        Seq::empty()
    };
    let for_round = if first {
        seq![ServerEventView::RoundIncDrawScore { inc_by: inc }]
    } else {
        Seq::empty()
    };
    let for_phase = if cut_short {
        seq![ServerEventView::RoundChangePhase { phase: Phase::PostPlay, phase_ends_at: ends_at }]
    } else {
        Seq::empty()
    };
    Outcome::applied(
        GameView { players: players2, round: Some(round2) },
        for_guesser + for_drawer + for_round + for_phase,
    )
}

/// A guess arrives. An accepted guess is recorded and echoed whether it is
/// right or wrong; a right one is then scored.
pub open spec fn on_guess_word(
    game: GameView,
    event: ServerEventView,
    sender: PlayerId,
    guess: Seq<char>,
    after_draw_ops: u32,
    words: WordCatalogView,
    now_ms: EpochMs,
) -> Outcome {
    if !guess_accepted(game, sender) {
        Outcome::absorbed(game)
    } else {
        let round = game.round->0;
        match round_word(round, words) {
            None => Outcome::refused(game, EngineFault::WordOutOfCatalog),
            Some(word) => {
                let correct = word == guess;
                let record = GuessView {
                    guesser_id: sender,
                    guess_type: if correct {
                        GuessTypeView::CorrectGuess
                    } else {
                        GuessTypeView::IncorrectGuess { guess }
                    },
                    after_draw_ops,
                };
                let recorded = with_round(
                    game,
                    RoundView { guesses: round.guesses.push(record), ..round },
                );
                if correct {
                    let scored = score_correct_guess(recorded, sender, now_ms);
                    Outcome::applied(scored.game, seq![event] + scored.emitted)
                } else {
                    Outcome::applied(recorded, seq![event])
                }
            },
        }
    }
}

/// A new round is announced. It needs a drawer who is a player. It begins
/// the first round, or takes the place of a round with another id, of which
/// nothing stays.
pub open spec fn on_new_round(
    game: GameView,
    event: ServerEventView,
    round_id: RoundId,
    drawer_id: PlayerId,
    easy_word: WordIdx,
    hard_word: WordIdx,
) -> Outcome {
    if !game.players.contains_key(drawer_id) {
        Outcome::absorbed(game)
    } else {
        match game.round {
            None => Outcome::applied(
                with_round(game, RoundView::fresh(round_id, drawer_id, easy_word, hard_word, 0)),
                seq![event],
            ),
            Some(round) => if round.round_id != round_id {
                Outcome::applied(
                    with_round(
                        game,
                        RoundView::fresh(round_id, drawer_id, easy_word, hard_word, 0),
                    ),
                    seq![event],
                )
            } else {
                Outcome::absorbed(game)
            },
        }
    }
}

/// What `event` does to `game` at the instant `now_ms`, with the words of
/// `words`.
pub open spec fn advance_spec(
    game: GameView,
    event: ServerEventView,
    words: WordCatalogView,
    now_ms: EpochMs,
) -> Outcome {
    match event {
        ServerEventView::PlayerJoin { player_id, name } => {
            if game.players.contains_key(player_id) {
                Outcome::refused(game, EngineFault::DuplicatePlayer)
            } else {
                Outcome::applied(with_player(game, player_id, joined(name)), seq![event])
            }
        },
        ServerEventView::PlayerLeave { player_id } => {
            if game.players.contains_key(player_id) {
                Outcome::applied(
                    GameView { players: game.players.remove(player_id), ..game },
                    seq![event],
                )
            } else {
                Outcome::absorbed(game)
            }
        },
        ServerEventView::PlayerRename { player_id, name } => {
            if game.players.contains_key(player_id) {
                Outcome::applied(
                    with_player(game, player_id, PlayerView { name, ..game.players[player_id] }),
                    seq![event],
                )
            } else {
                Outcome::absorbed(game)
            }
        },
        ServerEventView::PlayerIncRoundScore { player_id, inc_by } => on_player_inc(
            game,
            event,
            player_id,
            inc_by,
            0,
            0,
        ),
        ServerEventView::PlayerIncDrawScore { drawer_id, inc_by } => on_player_inc(
            game,
            event,
            drawer_id,
            0,
            inc_by,
            0,
        ),
        ServerEventView::PlayerIncGuessScore { guesser_id, inc_by } => on_player_inc(
            game,
            event,
            guesser_id,
            0,
            0,
            inc_by,
        ),
        ServerEventView::PlayerConnect { player_id } => on_player_presence(
            game,
            event,
            player_id,
            true,
        ),
        ServerEventView::PlayerDisconnect { player_id } => on_player_presence(
            game,
            event,
            player_id,
            false,
        ),
        ServerEventView::PlayerDrawOp { drawer_id, draw_op } => on_draw_op(
            game,
            event,
            drawer_id,
            draw_op,
        ),
        ServerEventView::PlayerChooseWord { drawer_id, choice } => on_choose_word(
            game,
            event,
            drawer_id,
            choice,
            now_ms,
        ),
        ServerEventView::PlayerGuessWord { guesser_id, guess, after_draw_ops } => on_guess_word(
            game,
            event,
            guesser_id,
            guess,
            after_draw_ops,
            words,
            now_ms,
        ),
        ServerEventView::PlayerLikeRound { .. } => Outcome::applied(game, seq![event]),
        ServerEventView::NewRound { round_id, drawer_id, easy_word, hard_word } => on_new_round(
            game,
            event,
            round_id,
            drawer_id,
            easy_word,
            hard_word,
        ),
        ServerEventView::SetGame { player_id, game: snapshot } => Outcome::applied(
            snapshot,
            seq![event],
        ),
        ServerEventView::Error { .. } => Outcome::absorbed(game),
        ServerEventView::RoundIncDrawScore { inc_by } => match game.round {
            Some(round) => Outcome::applied(
                with_round(
                    game,
                    RoundView { draw_score: sat_add(round.draw_score, inc_by), ..round },
                ),
                seq![event],
            ),
            None => Outcome::absorbed(game),
        },
        ServerEventView::RoundIncGuessScore { inc_by } => match game.round {
            Some(round) => Outcome::applied(
                with_round(
                    game,
                    RoundView { guess_score: sat_add(round.guess_score, inc_by), ..round },
                ),
                seq![event],
            ),
            None => Outcome::absorbed(game),
        },
        ServerEventView::RoundChangePhase { phase, phase_ends_at } => match game.round {
            Some(round) => Outcome::applied(
                with_round(game, RoundView { phase, phase_ends_at, ..round }),
                seq![event],
            ),
            None => Outcome::absorbed(game),
        },
    }
}

/// What a batch of events does, each applied to what the one before left,
/// all at the instant `now_ms`. The batch ends at the first event that is
/// refused.
pub open spec fn replay_spec(
    game: GameView,
    events: Seq<ServerEventView>,
    words: WordCatalogView,
    now_ms: EpochMs,
) -> Outcome
    decreases events.len(),
{
    if events.len() == 0 {
        Outcome::absorbed(game)
    } else {
        let first = advance_spec(game, events[0], words, now_ms);
        if first.fault is Some {
            first
        } else {
            let rest = replay_spec(first.game, events.drop_first(), words, now_ms);
            Outcome { game: rest.game, emitted: first.emitted + rest.emitted, fault: rest.fault }
        }
    }
}

/// What a timer does: the game after it, the events to send out, the
/// timers to schedule, and the fault if the timer was refused.
pub struct TimedOutcome {
    pub game: GameView,
    pub emitted: Seq<ServerEventView>,
    pub timers: Seq<TimedEvent>,
    pub fault: Option<EngineFault>,
}

impl TimedOutcome {
    /// The timer was dropped: nothing changes, nothing is sent or scheduled.
    pub open spec fn dropped(game: GameView) -> TimedOutcome {
        TimedOutcome { game, emitted: Seq::empty(), timers: Seq::empty(), fault: None }
    }

    /// Whether the timer had no effect at all.
    pub open spec fn is_silent(self, before: GameView) -> bool {
        &&& self.game == before
        &&& self.emitted == Seq::<ServerEventView>::empty()
        &&& self.timers == Seq::<TimedEvent>::empty()
        &&& self.fault is None
    }
}

/// Whether `timer` still belongs to the round and phase that `game` is in.
pub open spec fn timer_is_live(game: GameView, timer: TimedEvent) -> bool {
    game.round matches Some(round) && round.round_id == timer.target_round_id && round.phase
        == timer.target_phase
}

/// The round of `game` moves to `phase`, to end `duration_ms` after the
/// timer was due, and the timer `follow_up` is scheduled for that end.
pub open spec fn phase_over(
    game: GameView,
    timer: TimedEvent,
    phase: Phase,
    duration_ms: u64,
    follow_up: TimedEventType,
) -> TimedOutcome {
    let round = game.round->0;
    let ends_at = deadline_after_spec(timer.times_out_at, duration_ms);
    TimedOutcome {
        game: with_round(game, RoundView { phase, phase_ends_at: ends_at, ..round }),
        emitted: seq![ServerEventView::RoundChangePhase { phase, phase_ends_at: ends_at }],
        timers: seq![
            TimedEvent {
                target_round_id: round.round_id,
                target_phase: phase,
                timed_event_type: follow_up,
                times_out_at: ends_at,
            },
        ],
        fault: None,
    }
}

/// What the timer `timer` does to `game` when it fires.
pub open spec fn timed_advance_spec(game: GameView, timer: TimedEvent) -> TimedOutcome {
    if !timer_is_live(game, timer) {
        TimedOutcome::dropped(game)
    } else {
        let round = game.round->0;
        match timer.timed_event_type {
            TimedEventType::ChooseWordPhaseOver => phase_over(
                game,
                timer,
                Phase::PrePlay,
                PRE_PLAY_DURATION_MS,
                TimedEventType::PrePlayPhaseOver,
            ),
            TimedEventType::PrePlayPhaseOver => phase_over(
                game,
                timer,
                Phase::Play,
                play_duration_ms(round.word_choice),
                TimedEventType::PlayPhaseOver,
            ),
            TimedEventType::PlayPhaseOver => phase_over(
                game,
                timer,
                Phase::PostPlay,
                POST_PLAY_DURATION_MS,
                TimedEventType::PostPlayPhaseOver,
            ),
            TimedEventType::PostPlayPhaseOver => phase_over(
                game,
                timer,
                Phase::PostPlay,
                POST_PLAY_DURATION_MS,
                TimedEventType::PostPlayPhaseOver,
            ),
            TimedEventType::InactiveDrawer | TimedEventType::GiveHint => TimedOutcome {
                game,
                emitted: Seq::empty(),
                timers: Seq::empty(),
                fault: Some(EngineFault::UnsupportedTimer),
            },
        }
    }
}

/// One thing that happens to a game: an event that arrives at an instant,
/// or a timer that fires.
pub enum Input {
    Event { event: ServerEventView, now_ms: EpochMs },
    Timer { timer: TimedEvent },
}

/// What one input does to `game`.
pub open spec fn step_spec(game: GameView, input: Input, words: WordCatalogView) -> TimedOutcome {
    match input {
        Input::Event { event, now_ms } => {
            let outcome = advance_spec(game, event, words, now_ms);
            TimedOutcome {
                game: outcome.game,
                emitted: outcome.emitted,
                timers: Seq::empty(),
                fault: outcome.fault,
            }
        },
        Input::Timer { timer } => timed_advance_spec(game, timer),
    }
}

/// What a history of inputs does to `game`, each applied to what the one
/// before left. The history ends at the first input that is refused.
pub open spec fn run_spec(game: GameView, inputs: Seq<Input>, words: WordCatalogView) -> TimedOutcome
    decreases inputs.len(),
{
    if inputs.len() == 0 {
        TimedOutcome::dropped(game)
    } else {
        let first = step_spec(game, inputs[0], words);
        if first.fault is Some {
            first
        } else {
            let rest = run_spec(first.game, inputs.drop_first(), words);
            TimedOutcome {
                game: rest.game,
                emitted: first.emitted + rest.emitted,
                timers: first.timers + rest.timers,
                fault: rest.fault,
            }
        }
    }
}

} // verus!
