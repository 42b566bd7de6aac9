use crate::state::{
    DrawOp, EpochMs, Game, GameView, Phase, PlayerId, RoundId, Score, WordChoice, WordIdx,
};
use vstd::prelude::*;

verus! {

/// Why a registration was turned down.
#[derive(Clone, Copy, Debug, PartialEq, Eq, Structural)]
pub enum SeErrorType {
    Unknown,
    AlreadyConnected,
    FullGame,
}

impl SeErrorType {
    /// The stable name of the reason, as clients see it.
    pub open spec fn name(self) -> Seq<char> {
        match self {
            SeErrorType::Unknown => "UNKNOWN"@,
            SeErrorType::AlreadyConnected => "ALREADY_CONNECTED"@,
            SeErrorType::FullGame => "FULL_GAME"@,
        }
    }

    /// The reason whose stable name is `text`, if there is one.
    pub open spec fn named(text: Seq<char>) -> Option<SeErrorType> {
        if text == "UNKNOWN"@ {
            Some(SeErrorType::Unknown)
        } else if text == "ALREADY_CONNECTED"@ {
            Some(SeErrorType::AlreadyConnected)
        } else if text == "FULL_GAME"@ {
            Some(SeErrorType::FullGame)
        } else {
            None
        }
    }

    /// The status with which a registration that was turned down for this
    /// reason is answered: 409 for a client that is connected already, 500
    /// for anything else.
    pub open spec fn status(self) -> u16 {
        match self {
            SeErrorType::AlreadyConnected => 409,
            _ => 500,
        }
    }

    /// The status with which a registration that was turned down for this
    /// reason is answered.
    pub fn http_status(&self) -> (status: u16)
        ensures
            status == self.status(),
    {
        match self {
            SeErrorType::AlreadyConnected => 409,
            _ => 500,
        }
    }

    /// The stable name of the reason.
    pub fn as_str_name(&self) -> (name: &'static str)
        ensures
            name@ == self.name(),
    {
        match self {
            SeErrorType::Unknown => "UNKNOWN",
            SeErrorType::AlreadyConnected => "ALREADY_CONNECTED",
            SeErrorType::FullGame => "FULL_GAME",
        }
    }

    /// The reason with the stable name `value`; `None` for any other text.
    pub fn from_str_name(value: &str) -> (reason: Option<Self>)
        ensures
            reason == Self::named(value@),
    {
        let text = value.to_owned();
        if text == "UNKNOWN".to_owned() {
            Some(SeErrorType::Unknown)
        } else if text == "ALREADY_CONNECTED".to_owned() {
            Some(SeErrorType::AlreadyConnected)
        } else if text == "FULL_GAME".to_owned() {
            Some(SeErrorType::FullGame)
        } else {
            None
        }
    }
}

/// Every reason is found again by its name.
pub proof fn law_error_name_round_trip(reason: SeErrorType)
    ensures
        SeErrorType::named(reason.name()) == Some(reason),
{
    reveal_strlit("UNKNOWN");
    reveal_strlit("ALREADY_CONNECTED");
    reveal_strlit("FULL_GAME");
    assert("UNKNOWN"@.len() == 7);
    assert("ALREADY_CONNECTED"@.len() == 17);
    assert("FULL_GAME"@.len() == 9);
}

/// A notice of a server-side error, relayed to clients.
#[derive(Debug, PartialEq)]
pub struct SeError {
    pub se_error_type: SeErrorType,
    pub message: String,
}

#[derive(Debug, PartialEq)]
pub struct SeSetGame {
    /// The player for whom the snapshot was made.
    pub player_id: PlayerId,
    pub game: Game,
}

#[derive(Debug, PartialEq)]
pub struct SePlayerJoin {
    pub player_id: PlayerId,
    pub name: String,
}

#[derive(Clone, Copy, Debug, PartialEq, Eq, Structural)]
pub struct SePlayerLeave {
    pub player_id: PlayerId,
}

#[derive(Clone, Copy, Debug, PartialEq, Eq, Structural)]
pub struct SePlayerConnect {
    pub player_id: PlayerId,
}

#[derive(Clone, Copy, Debug, PartialEq, Eq, Structural)]
pub struct SePlayerDisconnect {
    pub player_id: PlayerId,
}

#[derive(Debug, PartialEq)]
pub struct SePlayerRename {
    pub player_id: PlayerId,
    pub name: String,
}

#[derive(Clone, Copy, Debug, PartialEq, Eq, Structural)]
pub struct SePlayerIncRoundScore {
    pub player_id: PlayerId,
    pub inc_by: Score,
}

#[derive(Clone, Copy, Debug, PartialEq, Eq, Structural)]
pub struct SePlayerIncDrawScore {
    pub drawer_id: PlayerId,
    pub inc_by: Score,
}

#[derive(Clone, Copy, Debug, PartialEq, Eq, Structural)]
pub struct SePlayerIncGuessScore {
    pub guesser_id: PlayerId,
    pub inc_by: Score,
}

#[derive(Debug, PartialEq)]
pub struct SePlayerDrawOp {
    pub drawer_id: PlayerId,
    /// The operation; an event without one is dropped.
    pub draw_op: Option<DrawOp>,
}

#[derive(Clone, Copy, Debug, PartialEq, Eq, Structural)]
pub struct SePlayerChooseWord {
    pub drawer_id: PlayerId,
    pub choice: WordChoice,
}

#[derive(Debug, PartialEq)]
pub struct SePlayerGuessWord {
    pub guesser_id: PlayerId,
    pub guess: String,
    pub after_draw_ops: u32,
}

#[derive(Clone, Copy, Debug, PartialEq, Eq, Structural)]
pub struct SePlayerLikeRound {
    pub player_id: PlayerId,
    pub round_id: RoundId,
}

#[derive(Clone, Copy, Debug, PartialEq, Eq, Structural)]
pub struct SeNewRound {
    pub round_id: RoundId,
    pub drawer_id: PlayerId,
    pub easy_word: WordIdx,
    pub hard_word: WordIdx,
}

#[derive(Clone, Copy, Debug, PartialEq, Eq, Structural)]
pub struct SeRoundIncDrawScore {
    pub inc_by: Score,
}

#[derive(Clone, Copy, Debug, PartialEq, Eq, Structural)]
pub struct SeRoundIncGuessScore {
    pub inc_by: Score,
}

#[derive(Clone, Copy, Debug, PartialEq, Eq, Structural)]
pub struct SeRoundChangePhase {
    pub phase: Phase,
    pub phase_ends_at: EpochMs,
}

/// The kinds of server event. A client can cause `PlayerRename`,
/// `PlayerDrawOp`, `PlayerChooseWord`, `PlayerGuessWord` and
/// `PlayerLikeRound`; the others come from the server alone.
#[derive(Debug, PartialEq)]
pub enum SeType {
    PlayerJoin(SePlayerJoin),
    PlayerLeave(SePlayerLeave),
    PlayerRename(SePlayerRename),
    PlayerIncRoundScore(SePlayerIncRoundScore),
    PlayerIncDrawScore(SePlayerIncDrawScore),
    PlayerIncGuessScore(SePlayerIncGuessScore),
    PlayerConnect(SePlayerConnect),
    PlayerDisconnect(SePlayerDisconnect),
    PlayerDrawOp(SePlayerDrawOp),
    PlayerChooseWord(SePlayerChooseWord),
    PlayerGuessWord(SePlayerGuessWord),
    PlayerLikeRound(SePlayerLikeRound),
    NewRound(SeNewRound),
    SetGame(SeSetGame),
    Error(SeError),
    RoundIncDrawScore(SeRoundIncDrawScore),
    RoundIncGuessScore(SeRoundIncGuessScore),
    RoundChangePhase(SeRoundChangePhase),
}

/// One event of the outbound log, which is also what the engine consumes.
#[derive(Debug, PartialEq)]
pub struct ServerEvent {
    pub se_type: SeType,
}

/// The mathematical value of a [`ServerEvent`].
pub enum ServerEventView {
    PlayerJoin { player_id: PlayerId, name: Seq<char> },
    PlayerLeave { player_id: PlayerId },
    PlayerRename { player_id: PlayerId, name: Seq<char> },
    PlayerIncRoundScore { player_id: PlayerId, inc_by: Score },
    PlayerIncDrawScore { drawer_id: PlayerId, inc_by: Score },
    PlayerIncGuessScore { guesser_id: PlayerId, inc_by: Score },
    PlayerConnect { player_id: PlayerId },
    PlayerDisconnect { player_id: PlayerId },
    PlayerDrawOp { drawer_id: PlayerId, draw_op: Option<Seq<u8>> },
    PlayerChooseWord { drawer_id: PlayerId, choice: WordChoice },
    PlayerGuessWord { guesser_id: PlayerId, guess: Seq<char>, after_draw_ops: u32 },
    PlayerLikeRound { player_id: PlayerId, round_id: RoundId },
    NewRound { round_id: RoundId, drawer_id: PlayerId, easy_word: WordIdx, hard_word: WordIdx },
    SetGame { player_id: PlayerId, game: GameView },
    Error { se_error_type: SeErrorType, message: Seq<char> },
    RoundIncDrawScore { inc_by: Score },
    RoundIncGuessScore { inc_by: Score },
    RoundChangePhase { phase: Phase, phase_ends_at: EpochMs },
}

impl View for SeType {
    type V = ServerEventView;

    open spec fn view(&self) -> ServerEventView {
        match self {
            SeType::PlayerJoin(e) => ServerEventView::PlayerJoin {
                player_id: e.player_id,
                name: e.name@,
            },
            SeType::PlayerLeave(e) => ServerEventView::PlayerLeave { player_id: e.player_id },
            SeType::PlayerRename(e) => ServerEventView::PlayerRename {
                player_id: e.player_id,
                name: e.name@,
            },
            SeType::PlayerIncRoundScore(e) => ServerEventView::PlayerIncRoundScore {
                player_id: e.player_id,
                inc_by: e.inc_by,
            },
            SeType::PlayerIncDrawScore(e) => ServerEventView::PlayerIncDrawScore {
                drawer_id: e.drawer_id,
                inc_by: e.inc_by,
            },
            SeType::PlayerIncGuessScore(e) => ServerEventView::PlayerIncGuessScore {
                guesser_id: e.guesser_id,
                inc_by: e.inc_by,
            },
            SeType::PlayerConnect(e) => ServerEventView::PlayerConnect { player_id: e.player_id },
            SeType::PlayerDisconnect(e) => ServerEventView::PlayerDisconnect {
                player_id: e.player_id,
            },
            SeType::PlayerDrawOp(e) => ServerEventView::PlayerDrawOp {
                drawer_id: e.drawer_id,
                draw_op: match e.draw_op {
                    Some(op) => Some(op@),
                    None => None,
                },
            },
            SeType::PlayerChooseWord(e) => ServerEventView::PlayerChooseWord {
                drawer_id: e.drawer_id,
                choice: e.choice,
            },
            SeType::PlayerGuessWord(e) => ServerEventView::PlayerGuessWord {
                guesser_id: e.guesser_id,
                guess: e.guess@,
                after_draw_ops: e.after_draw_ops,
            },
            SeType::PlayerLikeRound(e) => ServerEventView::PlayerLikeRound {
                player_id: e.player_id,
                round_id: e.round_id,
            },
            SeType::NewRound(e) => ServerEventView::NewRound {
                round_id: e.round_id,
                drawer_id: e.drawer_id,
                easy_word: e.easy_word,
                hard_word: e.hard_word,
            },
            SeType::SetGame(e) => ServerEventView::SetGame { player_id: e.player_id, game: e.game@ },
            SeType::Error(e) => ServerEventView::Error {
                se_error_type: e.se_error_type,
                message: e.message@,
            },
            SeType::RoundIncDrawScore(e) => ServerEventView::RoundIncDrawScore { inc_by: e.inc_by },
            SeType::RoundIncGuessScore(e) => ServerEventView::RoundIncGuessScore {
                inc_by: e.inc_by,
            },
            SeType::RoundChangePhase(e) => ServerEventView::RoundChangePhase {
                phase: e.phase,
                phase_ends_at: e.phase_ends_at,
            },
        }
    }
}

impl View for ServerEvent {
    type V = ServerEventView;

    open spec fn view(&self) -> ServerEventView {
        self.se_type@
    }
}

/// The mathematical value of a list of server events.
pub open spec fn events_view(events: Seq<ServerEvent>) -> Seq<ServerEventView> {
    events.map_values(|e: ServerEvent| e@)
}

/// A batch of server events, in the order in which they apply.
#[derive(Debug, PartialEq)]
pub struct ServerEvents {
    pub events: Vec<ServerEvent>,
}

impl View for ServerEvents {
    type V = Seq<ServerEventView>;

    open spec fn view(&self) -> Seq<ServerEventView> {
        events_view(self.events@)
    }
}

#[derive(Debug, PartialEq)]
pub struct CeRename {
    pub name: String,
}

#[derive(Debug, PartialEq)]
pub struct CeDrawOp {
    pub draw_op: Option<DrawOp>,
}

#[derive(Clone, Copy, Debug, PartialEq, Eq, Structural)]
pub struct CeChooseWord {
    pub choice: WordChoice,
}

#[derive(Debug, PartialEq)]
pub struct CeGuessWord {
    pub guess: String,
    pub after_draw_ops: u32,
}

#[derive(Clone, Copy, Debug, PartialEq, Eq, Structural)]
pub struct CeLikeRound {
    pub round_id: RoundId,
}

/// The kinds of event that a client can send. None names its sender.
#[derive(Debug, PartialEq)]
pub enum CeType {
    Rename(CeRename),
    DrawOp(CeDrawOp),
    ChooseWord(CeChooseWord),
    GuessWord(CeGuessWord),
    LikeRound(CeLikeRound),
}

/// One event as a client sent it.
#[derive(Debug, PartialEq)]
pub struct ClientEvent {
    pub ce_type: CeType,
}

/// The mathematical value of a [`ClientEvent`].
pub enum ClientEventView {
    Rename { name: Seq<char> },
    DrawOp { draw_op: Option<Seq<u8>> },
    ChooseWord { choice: WordChoice },
    GuessWord { guess: Seq<char>, after_draw_ops: u32 },
    LikeRound { round_id: RoundId },
}

impl View for CeType {
    type V = ClientEventView;

    open spec fn view(&self) -> ClientEventView {
        match self {
            CeType::Rename(e) => ClientEventView::Rename { name: e.name@ },
            CeType::DrawOp(e) => ClientEventView::DrawOp {
                draw_op: match e.draw_op {
                    Some(op) => Some(op@),
                    None => None,
                },
            },
            CeType::ChooseWord(e) => ClientEventView::ChooseWord { choice: e.choice },
            CeType::GuessWord(e) => ClientEventView::GuessWord {
                guess: e.guess@,
                after_draw_ops: e.after_draw_ops,
            },
            CeType::LikeRound(e) => ClientEventView::LikeRound { round_id: e.round_id },
        }
    }
}

impl View for ClientEvent {
    type V = ClientEventView;

    open spec fn view(&self) -> ClientEventView {
        self.ce_type@
    }
}

/// The server event that stands for `event` sent by the player `sender`.
pub open spec fn stamped(sender: PlayerId, event: ClientEventView) -> ServerEventView {
    match event {
        ClientEventView::Rename { name } => ServerEventView::PlayerRename { player_id: sender, name },
        ClientEventView::DrawOp { draw_op } => ServerEventView::PlayerDrawOp {
            drawer_id: sender,
            draw_op,
        },
        ClientEventView::ChooseWord { choice } => ServerEventView::PlayerChooseWord {
            drawer_id: sender,
            choice,
        },
        ClientEventView::GuessWord { guess, after_draw_ops } => ServerEventView::PlayerGuessWord {
            guesser_id: sender,
            guess,
            after_draw_ops,
        },
        ClientEventView::LikeRound { round_id } => ServerEventView::PlayerLikeRound {
            player_id: sender,
            round_id,
        },
    }
}

/// Whether a client can cause an event of this kind.
pub open spec fn client_originable(event: ServerEventView) -> bool {
    event is PlayerRename || event is PlayerDrawOp || event is PlayerChooseWord
        || event is PlayerGuessWord || event is PlayerLikeRound
}

/// Whether what an event of this kind does depends on the instant at which
/// it arrives: a word choice sets a deadline, and a guess is scored by the
/// seconds elapsed. No other kind looks at the instant.
pub open spec fn needs_instant(event: ServerEventView) -> bool {
    event is PlayerChooseWord || event is PlayerGuessWord
}

impl ServerEvent {
    /// Whether what the event does depends on the instant at which it
    /// arrives.
    pub fn needs_instant(&self) -> (needs: bool)
        ensures
            needs == needs_instant(self@),
    {
        match &self.se_type {
            SeType::PlayerChooseWord(_) => true,
            SeType::PlayerGuessWord(_) => true,
            _ => false,
        }
    }

    /// Turns what a client sent into the server event that stands for it,
    /// stamped with the authenticated sender.
    pub fn from_client(player_id: PlayerId, client_event: ClientEvent) -> (event: Self)
        ensures
            event@ == stamped(player_id, client_event@),
    {
        match client_event.ce_type {
            CeType::Rename(rename) => ServerEvent {
                se_type: SeType::PlayerRename(SePlayerRename { player_id, name: rename.name }),
            },
            CeType::DrawOp(draw_op) => ServerEvent {
                se_type: SeType::PlayerDrawOp(
                    SePlayerDrawOp { drawer_id: player_id, draw_op: draw_op.draw_op },
                ),
            },
            CeType::ChooseWord(choose_word) => ServerEvent {
                se_type: SeType::PlayerChooseWord(
                    SePlayerChooseWord { drawer_id: player_id, choice: choose_word.choice },
                ),
            },
            CeType::GuessWord(guess_word) => ServerEvent {
                se_type: SeType::PlayerGuessWord(
                    SePlayerGuessWord {
                        guesser_id: player_id,
                        guess: guess_word.guess,
                        after_draw_ops: guess_word.after_draw_ops,
                    },
                ),
            },
            CeType::LikeRound(like_round) => ServerEvent {
                se_type: SeType::PlayerLikeRound(
                    SePlayerLikeRound { player_id, round_id: like_round.round_id },
                ),
            },
        }
    }
}

/// Whatever a client sends, the event that stands for it is of a kind that
/// clients may cause, and names the authenticated sender.
pub proof fn law_stamped_is_client_originable(sender: PlayerId, event: ClientEventView)
    ensures
        client_originable(stamped(sender, event)),
        !(stamped(sender, event) is PlayerJoin),
        !(stamped(sender, event) is PlayerLeave),
        !(stamped(sender, event) is SetGame),
        !(stamped(sender, event) is NewRound),
{
}

} // verus!
