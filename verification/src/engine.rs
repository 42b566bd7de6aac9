use crate::clock::{
    deadline_after, play_duration, unix_now_ms, POST_PLAY_DURATION_MS, PRE_PLAY_DURATION_MS,
};
use crate::events::{
    events_view, needs_instant, SeNewRound, SePlayerChooseWord, SePlayerDrawOp, SePlayerGuessWord,
    SePlayerIncRoundScore, SeRoundChangePhase, SeRoundIncDrawScore, SeRoundIncGuessScore, SeType,
    ServerEvent, ServerEventView, ServerEvents,
};
use crate::model;
use crate::model::{
    advance_spec, correct_guess_worth, joined, on_choose_word, on_draw_op, on_guess_word,
    on_new_round, replay_spec, sat_add, timed_advance_spec, with_scores, EngineFault, Outcome,
};
use crate::scoring::score_correct_guess;
use crate::state::{
    DrawOp, EpochMs, Game, Guess, GuessType, Phase, Player, PlayerId, PlayerView, Round, Score,
    WordChoice,
};
use crate::timers::{TimedEvent, TimedEventType};
use crate::words::WordCatalog;
use std::collections::HashMap;
use vstd::prelude::*;

verus! {

/// The values of the players in `players`.
spec fn players_view(players: Map<PlayerId, Player>) -> Map<PlayerId, PlayerView> {
    players.map_values(|p: Player| p@)
}

/// The sum of two scores, held at the largest score that can be written.
fn add_score(a: Score, b: Score) -> (sum: Score)
    ensures
        sum == sat_add(a, b),
{
    if a > u32::MAX - b {
        u32::MAX
    } else {
        a + b
    }
}

/// Raises the counters of the player `id`, if there is such a player, and
/// says whether there is.
fn raise_scores(
    players: &mut HashMap<PlayerId, Player>,
    id: PlayerId,
    round_inc: Score,
    draw_inc: Score,
    guess_inc: Score,
) -> (found: bool)
    ensures
        found == players_view(old(players)@).contains_key(id),
        found ==> players_view(final(players)@) == players_view(old(players)@).insert(
            id,
            with_scores(players_view(old(players)@)[id], round_inc, draw_inc, guess_inc),
        ),
        !found ==> players_view(final(players)@) == players_view(old(players)@),
{
    match players.remove(&id) {
        Some(mut player) => {
            player.round_score = add_score(player.round_score, round_inc);
            player.draw_score = add_score(player.draw_score, draw_inc);
            player.guess_score = add_score(player.guess_score, guess_inc);
            players.insert(id, player);
            assert(players_view(players@) =~= players_view(old(players)@).insert(
                id,
                with_scores(players_view(old(players)@)[id], round_inc, draw_inc, guess_inc),
            ));
            true
        },
        None => {
            assert(players_view(players@) =~= players_view(old(players)@));
            false
        },
    }
}

/// Marks the player `id` as connected or not, and says whether that
/// changed anything.
fn set_presence(players: &mut HashMap<PlayerId, Player>, id: PlayerId, connected: bool) -> (changed:
    bool)
    ensures
        changed == (players_view(old(players)@).contains_key(id) && players_view(
            old(players)@,
        )[id].connected != connected),
        changed ==> players_view(final(players)@) == players_view(old(players)@).insert(
            id,
            PlayerView { connected, ..players_view(old(players)@)[id] },
        ),
        !changed ==> players_view(final(players)@) == players_view(old(players)@),
{
    match players.remove(&id) {
        Some(mut player) => {
            let changed = player.connected != connected;
            player.connected = connected;
            players.insert(id, player);
            assert(players_view(players@) =~= players_view(old(players)@).insert(
                id,
                PlayerView { connected, ..players_view(old(players)@)[id] },
            ));
            assert(!changed ==> players_view(players@) =~= players_view(old(players)@));
            changed
        },
        None => {
            assert(players_view(players@) =~= players_view(old(players)@));
            false
        },
    }
}

/// Gives the player `id` the name `name`, if there is such a player, and
/// says whether there is.
fn set_name(players: &mut HashMap<PlayerId, Player>, id: PlayerId, name: String) -> (found: bool)
    ensures
        found == players_view(old(players)@).contains_key(id),
        found ==> players_view(final(players)@) == players_view(old(players)@).insert(
            id,
            PlayerView { name: name@, ..players_view(old(players)@)[id] },
        ),
        !found ==> players_view(final(players)@) == players_view(old(players)@),
{
    match players.remove(&id) {
        Some(mut player) => {
            player.name = name;
            players.insert(id, player);
            assert(players_view(players@) =~= players_view(old(players)@).insert(
                id,
                PlayerView { name: name@, ..players_view(old(players)@)[id] },
            ));
            true
        },
        None => {
            assert(players_view(players@) =~= players_view(old(players)@));
            false
        },
    }
}

/// Appends `event` to the events to send out.
fn emit(send_buf: &mut Vec<ServerEvent>, event: ServerEvent)
    ensures
        events_view(final(send_buf)@) == events_view(old(send_buf)@).push(event@),
{
    send_buf.push(event);
    assert(events_view(send_buf@) =~= events_view(old(send_buf)@).push(event@));
}

/// What the engine hands back for an outcome of the model.
pub open spec fn result_of(fault: Option<EngineFault>) -> Result<(), EngineFault> {
    match fault {
        Some(fault) => Err(fault),
        None => Ok(()),
    }
}

/// Whether the change from `before` to `after`, the growth of the events to
/// send from `sent_before` to `sent_after`, and `result` are what `outcome`
/// says.
pub open spec fn meets(
    outcome: Outcome,
    after: Game,
    sent_before: Seq<ServerEvent>,
    sent_after: Seq<ServerEvent>,
    result: Result<(), EngineFault>,
) -> bool {
    &&& after@ == outcome.game
    &&& events_view(sent_after) == events_view(sent_before) + outcome.emitted
    &&& result == result_of(outcome.fault)
}

impl Game {
    /// Handles a drawing operation.
    fn handle_draw_op(
        &mut self,
        drawer_id: PlayerId,
        draw_op: Option<DrawOp>,
        send_buf: &mut Vec<ServerEvent>,
    )
        ensures
            meets(
                on_draw_op(
                    old(self)@,
                    ServerEventView::PlayerDrawOp {
                        drawer_id,
                        draw_op: match draw_op {
                            Some(op) => Some(op@),
                            None => None,
                        },
                    },
                    drawer_id,
                    match draw_op {
                        Some(op) => Some(op@),
                        None => None,
                    },
                ),
                *final(self),
                old(send_buf)@,
                final(send_buf)@,
                Ok(()),
            ),
    {
        match self.round.take() {
            Some(mut round) => {
                match draw_op {
                    Some(op) => {
                        if round.phase == Phase::Play && round.drawer_id == drawer_id {
                            let ghost before = round@;
                            round.draw_ops.push(op.clone());
                            assert(round@.draw_ops =~= before.draw_ops.push(op@));
                            self.round = Some(round);
                            emit(
                                send_buf,
                                ServerEvent {
                                    se_type: SeType::PlayerDrawOp(
                                        SePlayerDrawOp {
                                            drawer_id,
                                            draw_op: Some(op),
                                        },
                                    ),
                                },
                            );
                            assert(self@.players =~= old(self)@.players);
                        } else {
                            self.round = Some(round);
                            assert(self@.players =~= old(self)@.players);
                            assert(events_view(send_buf@) =~= events_view(old(send_buf)@)
                                + Seq::<ServerEventView>::empty());
                        }
                    },
                    None => {
                        self.round = Some(round);
                        assert(self@.players =~= old(self)@.players);
                        assert(events_view(send_buf@) =~= events_view(old(send_buf)@)
                            + Seq::<ServerEventView>::empty());
                    },
                }
            },
            None => {
                assert(self@.players =~= old(self)@.players);
                assert(events_view(send_buf@) =~= events_view(old(send_buf)@)
                    + Seq::<ServerEventView>::empty());
            },
        }
    }

    /// Handles the drawer's choice of a word.
    fn handle_choose_word(
        &mut self,
        drawer_id: PlayerId,
        choice: WordChoice,
        now_ms: EpochMs,
        send_buf: &mut Vec<ServerEvent>,
    )
        ensures
            meets(
                on_choose_word(
                    old(self)@,
                    ServerEventView::PlayerChooseWord { drawer_id, choice },
                    drawer_id,
                    choice,
                    now_ms,
                ),
                *final(self),
                old(send_buf)@,
                final(send_buf)@,
                Ok(()),
            ),
    {
        proof {
            lemma_nothing_sent(send_buf@);
        }
        match self.round.take() {
            Some(mut round) => {
                if round.phase == Phase::ChooseWord && round.drawer_id == drawer_id {
                    let ends_at = deadline_after(now_ms, PRE_PLAY_DURATION_MS);
                    if round.word_choice != choice {
                        emit(
                            send_buf,
                            ServerEvent {
                                se_type: SeType::PlayerChooseWord(
                                    SePlayerChooseWord { drawer_id, choice },
                                ),
                            },
                        );
                    }
                    round.word_choice = choice;
                    round.phase = Phase::PrePlay;
                    round.phase_ends_at = ends_at;
                    self.round = Some(round);
                    emit(
                        send_buf,
                        ServerEvent {
                            se_type: SeType::RoundChangePhase(
                                SeRoundChangePhase { phase: Phase::PrePlay, phase_ends_at: ends_at },
                            ),
                        },
                    );
                    assert(self@.players =~= old(self)@.players);
                    let ghost out = on_choose_word(
                        old(self)@,
                        ServerEventView::PlayerChooseWord { drawer_id, choice },
                        drawer_id,
                        choice,
                        now_ms,
                    );
                    assert(events_view(send_buf@) =~= events_view(old(send_buf)@) + out.emitted);
                } else {
                    self.round = Some(round);
                    assert(self@.players =~= old(self)@.players);
                }
            },
            None => {
                assert(self@.players =~= old(self)@.players);
            },
        }
    }

    /// Handles the announcement of a new round.
    fn handle_new_round(&mut self, new_round: SeNewRound, send_buf: &mut Vec<ServerEvent>)
        ensures
            meets(
                on_new_round(
                    old(self)@,
                    SeType::NewRound(new_round)@,
                    new_round.round_id,
                    new_round.drawer_id,
                    new_round.easy_word,
                    new_round.hard_word,
                ),
                *final(self),
                old(send_buf)@,
                final(send_buf)@,
                Ok(()),
            ),
    {
        proof {
            lemma_nothing_sent(send_buf@);
        }
        if !self.players.contains_key(&new_round.drawer_id) {
            return ;
        }
        match self.round.take() {
            Some(mut round) => {
                if round.round_id != new_round.round_id {
                    round.next(
                        new_round.round_id,
                        new_round.drawer_id,
                        new_round.easy_word,
                        new_round.hard_word,
                    );
                    self.round = Some(round);
                    emit(send_buf, ServerEvent { se_type: SeType::NewRound(new_round) });
                    assert(self@.players =~= old(self)@.players);
                } else {
                    self.round = Some(round);
                    assert(self@.players =~= old(self)@.players);
                }
            },
            None => {
                self.round = Some(
                    Round::new(
                        new_round.round_id,
                        new_round.drawer_id,
                        new_round.easy_word,
                        new_round.hard_word,
                    ),
                );
                emit(send_buf, ServerEvent { se_type: SeType::NewRound(new_round) });
                assert(self@.players =~= old(self)@.players);
            },
        }
    }

    /// Scores a correct guess of `guesser` at `now_ms`.
    fn score_guess(&mut self, guesser: PlayerId, now_ms: EpochMs, send_buf: &mut Vec<ServerEvent>)
        requires
            old(self)@.round is Some,
            old(self)@.players.contains_key(guesser),
        ensures
            meets(
                model::score_correct_guess(old(self)@, guesser, now_ms),
                *final(self),
                old(send_buf)@,
                final(send_buf)@,
                Ok(()),
            ),
    {
        let ghost out = model::score_correct_guess(old(self)@, guesser, now_ms);
        let ghost sent0 = events_view(send_buf@);
        let mut round = match self.round.take() {
            Some(round) => round,
            None => {
                return ;
            },
        };
        let ghost round0 = round@;
        let first = round.guess_score == 0;
        let inc = score_correct_guess(
            first,
            now_ms,
            round.phase_ends_at,
            round.hints.len(),
            round.word_choice,
        );
        assert(inc == correct_guess_worth(old(self)@, now_ms));
        let drawer_id = round.drawer_id;

        raise_scores(&mut self.players, guesser, inc, 0, inc);
        emit(
            send_buf,
            ServerEvent {
                se_type: SeType::PlayerIncRoundScore(
                    SePlayerIncRoundScore { player_id: guesser, inc_by: inc },
                ),
            },
        );
        round.guess_score = add_score(round.guess_score, inc);
        emit(
            send_buf,
            ServerEvent { se_type: SeType::RoundIncGuessScore(SeRoundIncGuessScore { inc_by: inc }) },
        );
        let ghost sent1 = events_view(send_buf@);
        let mut paid_drawer = false;
        if first {
            paid_drawer = raise_scores(&mut self.players, drawer_id, inc, inc, 0);
            if paid_drawer {
                emit(
                    send_buf,
                    ServerEvent {
                        se_type: SeType::PlayerIncRoundScore(
                            SePlayerIncRoundScore { player_id: drawer_id, inc_by: inc },
                        ),
                    },
                );
            }
            round.draw_score = add_score(round.draw_score, inc);
            emit(
                send_buf,
                ServerEvent {
                    se_type: SeType::RoundIncDrawScore(SeRoundIncDrawScore { inc_by: inc }),
                },
            );
        }
        let ghost sent2 = events_view(send_buf@);
        self.round = Some(round);
        let cut_short = self.all_connected_players_scored();
        if cut_short {
            let ends_at = deadline_after(now_ms, POST_PLAY_DURATION_MS);
            match self.round.take() {
                Some(mut round) => {
                    round.phase = Phase::PostPlay;
                    round.phase_ends_at = ends_at;
                    self.round = Some(round);
                },
                None => {},
            }
            emit(
                send_buf,
                ServerEvent {
                    se_type: SeType::RoundChangePhase(
                        SeRoundChangePhase { phase: Phase::PostPlay, phase_ends_at: ends_at },
                    ),
                },
            );
        }
        proof {
            assert(self@.players =~= out.game.players);
            assert(self@.round == out.game.round);
            assert(events_view(send_buf@) =~= sent0 + out.emitted);
        }
    }

    /// Handles a guess.
    fn handle_guess_word(
        &mut self,
        guess_word: SePlayerGuessWord,
        words: &WordCatalog,
        now_ms: EpochMs,
        send_buf: &mut Vec<ServerEvent>,
    ) -> (result: Result<(), EngineFault>)
        ensures
            meets(
                on_guess_word(
                    old(self)@,
                    SeType::PlayerGuessWord(guess_word)@,
                    guess_word.guesser_id,
                    guess_word.guess@,
                    guess_word.after_draw_ops,
                    words@,
                    now_ms,
                ),
                *final(self),
                old(send_buf)@,
                final(send_buf)@,
                result,
            ),
    {
        proof {
            lemma_nothing_sent(send_buf@);
        }
        let guesser_id = guess_word.guesser_id;
        let ghost event = SeType::PlayerGuessWord(guess_word)@;
        let ghost sent0 = events_view(send_buf@);
        if !self.players.contains_key(&guesser_id) {
            return Ok(());
        }
        let mut round = match self.round.take() {
            Some(round) => round,
            None => {
                assert(self@.players =~= old(self)@.players);
                return Ok(());
            },
        };
        if round.phase != Phase::Play || round.drawer_id == guesser_id {
            self.round = Some(round);
            assert(self@.players =~= old(self)@.players);
            return Ok(());
        }
        let idx = match round.word_choice {
            WordChoice::Easy => round.easy_word,
            WordChoice::Hard => round.hard_word,
        };
        let correct = match words.word(round.word_choice, idx) {
            Some(word) => *word == guess_word.guess,
            None => {
                self.round = Some(round);
                assert(self@.players =~= old(self)@.players);
                return Err(EngineFault::WordOutOfCatalog);
            },
        };
        let guess_type = if correct {
            GuessType::CorrectGuess
        } else {
            GuessType::IncorrectGuess { guess: guess_word.guess.clone() }
        };
        let ghost round0 = round@;
        let record = Guess { guesser_id, guess_type, after_draw_ops: guess_word.after_draw_ops };
        round.guesses.push(record);
        assert(round@.guesses =~= round0.guesses.push(record@));
        self.round = Some(round);
        assert(self@.players =~= old(self)@.players);
        emit(send_buf, ServerEvent { se_type: SeType::PlayerGuessWord(guess_word) });
        if correct {
            let ghost recorded = self@;
            let ghost sent1 = events_view(send_buf@);
            self.score_guess(guesser_id, now_ms, send_buf);
            proof {
                let scored = model::score_correct_guess(recorded, guesser_id, now_ms);
                assert(events_view(send_buf@) =~= sent0 + (seq![event] + scored.emitted));
            }
        } else {
            assert(events_view(send_buf@) =~= sent0 + seq![event]);
        }
        Ok(())
    }

    /// Applies `event` to the game as of the instant `now_ms`, with the
    /// words of `words`, and appends to `send_buf` the events to send out.
    ///
    /// An event that names an unknown player, comes in the wrong phase or
    /// from the wrong sender, or would change nothing, is absorbed: the
    /// game stays as it is and nothing is sent. An event that is refused
    /// with a fault leaves the game and `send_buf` as they were, too.
    pub fn advance_at(
        &mut self,
        event: ServerEvent,
        words: &WordCatalog,
        now_ms: EpochMs,
        send_buf: &mut Vec<ServerEvent>,
    ) -> (result: Result<(), EngineFault>)
        ensures
            meets(
                advance_spec(old(self)@, event@, words@, now_ms),
                *final(self),
                old(send_buf)@,
                final(send_buf)@,
                result,
            ),
    {
        proof {
            lemma_nothing_sent(send_buf@);
        }
        let ghost before = self@;
        let ghost sent0 = events_view(send_buf@);
        let ghost ev = event@;
        match event.se_type {
            SeType::PlayerJoin(join) => {
                if self.players.contains_key(&join.player_id) {
                    return Err(EngineFault::DuplicatePlayer);
                }
                self.players.insert(
                    join.player_id,
                    Player {
                        name: join.name.clone(),
                        round_score: 0,
                        draw_score: 0,
                        guess_score: 0,
                        connected: true,
                    },
                );
                assert(self@.players =~= before.players.insert(join.player_id, joined(join.name@)));
                emit(send_buf, ServerEvent { se_type: SeType::PlayerJoin(join) });
                assert(events_view(send_buf@) =~= sent0 + seq![ev]);
                Ok(())
            },
            SeType::PlayerLeave(leave) => {
                if self.players.remove(&leave.player_id).is_some() {
                    assert(self@.players =~= before.players.remove(leave.player_id));
                    emit(send_buf, ServerEvent { se_type: SeType::PlayerLeave(leave) });
                    assert(events_view(send_buf@) =~= sent0 + seq![ev]);
                } else {
                    assert(self@.players =~= before.players);
                }
                Ok(())
            },
            SeType::PlayerRename(rename) => {
                if set_name(&mut self.players, rename.player_id, rename.name.clone()) {
                    emit(send_buf, ServerEvent { se_type: SeType::PlayerRename(rename) });
                    assert(events_view(send_buf@) =~= sent0 + seq![ev]);
                }
                Ok(())
            },
            SeType::PlayerIncRoundScore(inc) => {
                if raise_scores(&mut self.players, inc.player_id, inc.inc_by, 0, 0) {
                    emit(send_buf, ServerEvent { se_type: SeType::PlayerIncRoundScore(inc) });
                    assert(events_view(send_buf@) =~= sent0 + seq![ev]);
                }
                Ok(())
            },
            SeType::PlayerIncDrawScore(inc) => {
                if raise_scores(&mut self.players, inc.drawer_id, 0, inc.inc_by, 0) {
                    emit(send_buf, ServerEvent { se_type: SeType::PlayerIncDrawScore(inc) });
                    assert(events_view(send_buf@) =~= sent0 + seq![ev]);
                }
                Ok(())
            },
            SeType::PlayerIncGuessScore(inc) => {
                if raise_scores(&mut self.players, inc.guesser_id, 0, 0, inc.inc_by) {
                    emit(send_buf, ServerEvent { se_type: SeType::PlayerIncGuessScore(inc) });
                    assert(events_view(send_buf@) =~= sent0 + seq![ev]);
                }
                Ok(())
            },
            SeType::PlayerConnect(connect) => {
                if set_presence(&mut self.players, connect.player_id, true) {
                    emit(send_buf, ServerEvent { se_type: SeType::PlayerConnect(connect) });
                    assert(events_view(send_buf@) =~= sent0 + seq![ev]);
                }
                Ok(())
            },
            SeType::PlayerDisconnect(disconnect) => {
                if set_presence(&mut self.players, disconnect.player_id, false) {
                    emit(send_buf, ServerEvent { se_type: SeType::PlayerDisconnect(disconnect) });
                    assert(events_view(send_buf@) =~= sent0 + seq![ev]);
                }
                Ok(())
            },
            SeType::PlayerDrawOp(draw) => {
                self.handle_draw_op(draw.drawer_id, draw.draw_op, send_buf);
                Ok(())
            },
            SeType::PlayerChooseWord(choose) => {
                self.handle_choose_word(choose.drawer_id, choose.choice, now_ms, send_buf);
                Ok(())
            },
            SeType::PlayerGuessWord(guess) => self.handle_guess_word(guess, words, now_ms, send_buf),
            SeType::PlayerLikeRound(like) => {
                emit(send_buf, ServerEvent { se_type: SeType::PlayerLikeRound(like) });
                assert(events_view(send_buf@) =~= sent0 + seq![ev]);
                Ok(())
            },
            SeType::NewRound(new_round) => {
                self.handle_new_round(new_round, send_buf);
                Ok(())
            },
            SeType::SetGame(set_game) => {
                *self = set_game.game.clone();
                emit(send_buf, ServerEvent { se_type: SeType::SetGame(set_game) });
                assert(events_view(send_buf@) =~= sent0 + seq![ev]);
                Ok(())
            },
            SeType::Error(_) => Ok(()),
            SeType::RoundIncDrawScore(inc) => {
                match self.round.take() {
                    Some(mut round) => {
                        round.draw_score = add_score(round.draw_score, inc.inc_by);
                        self.round = Some(round);
                        emit(send_buf, ServerEvent { se_type: SeType::RoundIncDrawScore(inc) });
                        assert(events_view(send_buf@) =~= sent0 + seq![ev]);
                    },
                    None => {},
                }
                assert(self@.players =~= before.players);
                Ok(())
            },
            SeType::RoundIncGuessScore(inc) => {
                match self.round.take() {
                    Some(mut round) => {
                        round.guess_score = add_score(round.guess_score, inc.inc_by);
                        self.round = Some(round);
                        emit(send_buf, ServerEvent { se_type: SeType::RoundIncGuessScore(inc) });
                        assert(events_view(send_buf@) =~= sent0 + seq![ev]);
                    },
                    None => {},
                }
                assert(self@.players =~= before.players);
                Ok(())
            },
            SeType::RoundChangePhase(change) => {
                match self.round.take() {
                    Some(mut round) => {
                        round.phase = change.phase;
                        round.phase_ends_at = change.phase_ends_at;
                        self.round = Some(round);
                        emit(send_buf, ServerEvent { se_type: SeType::RoundChangePhase(change) });
                        assert(events_view(send_buf@) =~= sent0 + seq![ev]);
                    },
                    None => {},
                }
                assert(self@.players =~= before.players);
                Ok(())
            },
        }
    }

    /// Applies `event` to the game as of the present instant. Only a word
    /// choice and a guess look at the instant, and only for them the clock
    /// is read: any other event is applied whatever the clock would give.
    /// Where the clock is read and gives no instant, the event is refused
    /// and nothing changes; otherwise what happens is what
    /// [`Game::advance_at`] does for the instant read.
    pub fn advance(
        &mut self,
        event: ServerEvent,
        words: &WordCatalog,
        send_buf: &mut Vec<ServerEvent>,
    ) -> (result: Result<(), EngineFault>)
        ensures
            !needs_instant(event@) ==> meets(
                advance_spec(old(self)@, event@, words@, 0),
                *final(self),
                old(send_buf)@,
                final(send_buf)@,
                result,
            ),
            (exists|now_ms: EpochMs|
                meets(
                    #[trigger] advance_spec(old(self)@, event@, words@, now_ms),
                    *final(self),
                    old(send_buf)@,
                    final(send_buf)@,
                    result,
                )) || meets(
                Outcome::refused(old(self)@, EngineFault::ClockUnavailable),
                *final(self),
                old(send_buf)@,
                final(send_buf)@,
                result,
            ),
    {
        if event.needs_instant() {
            match unix_now_ms() {
                Some(now_ms) => self.advance_at(event, words, now_ms, send_buf),
                None => {
                    proof {
                        lemma_nothing_sent(send_buf@);
                    }
                    Err(EngineFault::ClockUnavailable)
                },
            }
        } else {
            self.advance_at(event, words, 0, send_buf)
        }
    }

    /// Applies the events of `events` in order, all as of the instant
    /// `now_ms`, and stops at the first that is refused.
    pub fn advance_all_at(
        &mut self,
        events: ServerEvents,
        words: &WordCatalog,
        now_ms: EpochMs,
        send_buf: &mut Vec<ServerEvent>,
    ) -> (result: Result<(), EngineFault>)
        ensures
            meets(
                replay_spec(old(self)@, events@, words@, now_ms),
                *final(self),
                old(send_buf)@,
                final(send_buf)@,
                result,
            ),
    {
        let ghost all = events@;
        let ghost whole = replay_spec(self@, all, words@, now_ms);
        let ghost sent0 = events_view(send_buf@);
        proof {
            lemma_nothing_sent(send_buf@);
            assert(all.skip(0) =~= all);
        }
        for event in it: events.events
            invariant
                events_view(it.seq()) == all,
                all == events@,
                whole == replay_spec(old(self)@, all, words@, now_ms),
                sent0 == events_view(old(send_buf)@),
                whole.game == replay_spec(self@, all.skip(it.index() as int), words@, now_ms).game,
                whole.fault == replay_spec(self@, all.skip(it.index() as int), words@, now_ms).fault,
                sent0 + whole.emitted == events_view(send_buf@) + replay_spec(
                    self@,
                    all.skip(it.index() as int),
                    words@,
                    now_ms,
                ).emitted,
        {
            let ghost done = it.index() as int;
            let ghost rest = all.skip(done);
            let ghost here = self@;
            let ghost sent = events_view(send_buf@);
            let ghost first = advance_spec(here, rest[0], words@, now_ms);
            proof {
                assert(event@ == rest[0]);
                assert(rest.drop_first() =~= all.skip(done + 1));
            }
            let step = self.advance_at(event, words, now_ms, send_buf);
            match step {
                Err(fault) => {
                    proof {
                        assert(replay_spec(here, rest, words@, now_ms) == first);
                    }
                    return Err(fault);
                },
                Ok(()) => {
                    proof {
                        let tail = replay_spec(first.game, rest.drop_first(), words@, now_ms);
                        assert(replay_spec(here, rest, words@, now_ms).emitted == first.emitted
                            + tail.emitted);
                        assert(sent + (first.emitted + tail.emitted) =~= (sent + first.emitted)
                            + tail.emitted);
                    }
                },
            }
        }
        Ok(())
    }

    /// Applies the events of `events` in order as of the present instant.
    /// The clock is read, once, only where the batch holds a word choice or
    /// a guess: a batch without them is applied whatever the clock would
    /// give. Where the clock is read and gives no instant, the batch is
    /// refused and nothing changes.
    pub fn advance_all(
        &mut self,
        events: ServerEvents,
        words: &WordCatalog,
        send_buf: &mut Vec<ServerEvent>,
    ) -> (result: Result<(), EngineFault>)
        ensures
            (forall|i: int| 0 <= i < events@.len() ==> !needs_instant(#[trigger] events@[i]))
                ==> meets(
                replay_spec(old(self)@, events@, words@, 0),
                *final(self),
                old(send_buf)@,
                final(send_buf)@,
                result,
            ),
            (exists|now_ms: EpochMs|
                meets(
                    #[trigger] replay_spec(old(self)@, events@, words@, now_ms),
                    *final(self),
                    old(send_buf)@,
                    final(send_buf)@,
                    result,
                )) || meets(
                Outcome::refused(old(self)@, EngineFault::ClockUnavailable),
                *final(self),
                old(send_buf)@,
                final(send_buf)@,
                result,
            ),
    {
        if batch_needs_instant(&events.events) {
            match unix_now_ms() {
                Some(now_ms) => self.advance_all_at(events, words, now_ms, send_buf),
                None => {
                    proof {
                        lemma_nothing_sent(send_buf@);
                    }
                    Err(EngineFault::ClockUnavailable)
                },
            }
        } else {
            self.advance_all_at(events, words, 0, send_buf)
        }
    }

    /// Handles the timer `event` that has come due. A timer whose round or
    /// phase is no longer the current one is dropped without any effect.
    /// Otherwise the round moves to its next phase, the change is appended
    /// to `send_buf` and the timer for the end of that phase to
    /// `timer_buf`. A timer of a kind that the engine does not handle is
    /// refused and changes nothing.
    pub fn timed_advance(
        &mut self,
        event: TimedEvent,
        send_buf: &mut Vec<ServerEvent>,
        timer_buf: &mut Vec<TimedEvent>,
    ) -> (result: Result<(), EngineFault>)
        ensures
            final(self)@ == timed_advance_spec(old(self)@, event).game,
            events_view(final(send_buf)@) == events_view(old(send_buf)@) + timed_advance_spec(
                old(self)@,
                event,
            ).emitted,
            final(timer_buf)@ == old(timer_buf)@ + timed_advance_spec(old(self)@, event).timers,
            result == result_of(timed_advance_spec(old(self)@, event).fault),
    {
        proof {
            lemma_nothing_sent(send_buf@);
            assert(timer_buf@ + Seq::<TimedEvent>::empty() =~= timer_buf@);
        }
        let ghost before = self@;
        let ghost sent0 = events_view(send_buf@);
        let ghost out = timed_advance_spec(before, event);
        let mut round = match self.round.take() {
            Some(round) => round,
            None => {
                assert(self@.players =~= before.players);
                return Ok(());
            },
        };
        if round.round_id != event.target_round_id || round.phase != event.target_phase {
            self.round = Some(round);
            assert(self@.players =~= before.players);
            return Ok(());
        }
        let (phase, duration_ms, follow_up) = match event.timed_event_type {
            TimedEventType::ChooseWordPhaseOver => (
                Phase::PrePlay,
                PRE_PLAY_DURATION_MS,
                TimedEventType::PrePlayPhaseOver,
            ),
            TimedEventType::PrePlayPhaseOver => (
                Phase::Play,
                play_duration(round.word_choice),
                TimedEventType::PlayPhaseOver,
            ),
            TimedEventType::PlayPhaseOver => (
                Phase::PostPlay,
                POST_PLAY_DURATION_MS,
                TimedEventType::PostPlayPhaseOver,
            ),
            TimedEventType::PostPlayPhaseOver => (
                Phase::PostPlay,
                POST_PLAY_DURATION_MS,
                TimedEventType::PostPlayPhaseOver,
            ),
            TimedEventType::InactiveDrawer | TimedEventType::GiveHint => {
                self.round = Some(round);
                assert(self@.players =~= before.players);
                return Err(EngineFault::UnsupportedTimer);
            },
        };
        let ends_at = deadline_after(event.times_out_at, duration_ms);
        round.phase = phase;
        round.phase_ends_at = ends_at;
        let round_id = round.round_id;
        self.round = Some(round);
        emit(
            send_buf,
            ServerEvent {
                se_type: SeType::RoundChangePhase(SeRoundChangePhase { phase, phase_ends_at: ends_at }),
            },
        );
        timer_buf.push(
            TimedEvent {
                target_round_id: round_id,
                target_phase: phase,
                timed_event_type: follow_up,
                times_out_at: ends_at,
            },
        );
        proof {
            assert(self@.players =~= before.players);
            assert(events_view(send_buf@) =~= sent0 + out.emitted);
            assert(timer_buf@ =~= old(timer_buf)@ + out.timers);
        }
        Ok(())
    }
}

/// Whether one of `events` looks at the instant at which it arrives.
fn batch_needs_instant(events: &Vec<ServerEvent>) -> (needs: bool)
    ensures
        needs == exists|i: int|
            0 <= i < events@.len() && needs_instant(#[trigger] events_view(events@)[i]),
{
    let mut i: usize = 0;
    while i < events.len()
        invariant
            i <= events.len(),
            forall|j: int| 0 <= j < i ==> !needs_instant(#[trigger] events_view(events@)[j]),
        decreases events.len() - i,
    {
        if events[i].needs_instant() {
            assert(events_view(events@)[i as int] == events@[i as int]@);
            return true;
        }
        assert(events_view(events@)[i as int] == events@[i as int]@);
        i = i + 1;
    }
    false
}

/// Sending nothing leaves the events to send as they are.
proof fn lemma_nothing_sent(sent: Seq<ServerEvent>)
    ensures
        events_view(sent) + Seq::<ServerEventView>::empty() == events_view(sent),
{
    assert(events_view(sent) + Seq::<ServerEventView>::empty() =~= events_view(sent));
}

} // verus!
