use std::collections::HashMap;
use vstd::prelude::*;
use vstd::std_specs::iter::IteratorSpec;

verus! {

/// Identifier of a round, assigned by the server.
pub type RoundId = u32;

/// Identifier of a player, assigned by the server.
pub type PlayerId = u32;

/// A score counter.
pub type Score = u32;

/// Milliseconds since the Unix epoch.
pub type EpochMs = u64;

/// Position of a word in one of the catalog's lists.
pub type WordIdx = u32;

/// The phase of a round.
#[derive(Clone, Copy, Debug, PartialEq, Eq, Structural)]
pub enum Phase {
    ChooseWord,
    PrePlay,
    Play,
    PostPlay,
}

/// The difficulty that the drawer picked.
#[derive(Clone, Copy, Debug, PartialEq, Eq, Structural)]
pub enum WordChoice {
    Easy,
    Hard,
}

/// One drawing operation. The engine stores and relays its payload and
/// never looks inside.
#[derive(Debug, PartialEq)]
pub struct DrawOp {
    pub payload: Vec<u8>,
}

impl View for DrawOp {
    type V = Seq<u8>;

    open spec fn view(&self) -> Seq<u8> {
        self.payload@
    }
}

impl Clone for DrawOp {
    fn clone(&self) -> (copy: Self)
        ensures
            copy@ == self@,
    {
        DrawOp { payload: copy_bytes(&self.payload) }
    }
}

/// One hint given to the guessers. The engine only counts hints.
#[derive(Debug, PartialEq)]
pub struct Hint {
    pub payload: Vec<u8>,
}

impl View for Hint {
    type V = Seq<u8>;

    open spec fn view(&self) -> Seq<u8> {
        self.payload@
    }
}

impl Clone for Hint {
    fn clone(&self) -> (copy: Self)
        ensures
            copy@ == self@,
    {
        Hint { payload: copy_bytes(&self.payload) }
    }
}

/// A copy of `bytes`.
fn copy_bytes(bytes: &Vec<u8>) -> (copy: Vec<u8>)
    ensures
        copy@ == bytes@,
{
    let mut copy: Vec<u8> = Vec::with_capacity(bytes.len());
    let mut i: usize = 0;
    while i < bytes.len()
        invariant
            i <= bytes.len(),
            copy@ == bytes@.subrange(0, i as int),
        decreases bytes.len() - i,
    {
        copy.push(bytes[i]);
        i = i + 1;
        assert(copy@ =~= bytes@.subrange(0, i as int));
    }
    assert(bytes@.subrange(0, i as int) =~= bytes@);
    copy
}

/// How a guess was judged.
#[derive(Debug, PartialEq)]
pub enum GuessType {
    CorrectGuess,
    IncorrectGuess { guess: String },
}

/// The mathematical value of a [`GuessType`].
pub enum GuessTypeView {
    CorrectGuess,
    IncorrectGuess { guess: Seq<char> },
}

impl View for GuessType {
    type V = GuessTypeView;

    open spec fn view(&self) -> GuessTypeView {
        match self {
            GuessType::CorrectGuess => GuessTypeView::CorrectGuess,
            GuessType::IncorrectGuess { guess } => GuessTypeView::IncorrectGuess { guess: guess@ },
        }
    }
}

impl Clone for GuessType {
    fn clone(&self) -> (copy: Self)
        ensures
            copy@ == self@,
    {
        match self {
            GuessType::CorrectGuess => GuessType::CorrectGuess,
            GuessType::IncorrectGuess { guess } => GuessType::IncorrectGuess {
                guess: guess.clone(),
            },
        }
    }
}

/// One submitted guess.
#[derive(Debug, PartialEq)]
pub struct Guess {
    pub guesser_id: PlayerId,
    pub guess_type: GuessType,
    /// How many drawing operations the guesser had seen.
    pub after_draw_ops: u32,
}

/// The mathematical value of a [`Guess`].
pub struct GuessView {
    pub guesser_id: PlayerId,
    pub guess_type: GuessTypeView,
    pub after_draw_ops: u32,
}

impl View for Guess {
    type V = GuessView;

    open spec fn view(&self) -> GuessView {
        GuessView {
            guesser_id: self.guesser_id,
            guess_type: self.guess_type@,
            after_draw_ops: self.after_draw_ops,
        }
    }
}

impl Clone for Guess {
    fn clone(&self) -> (copy: Self)
        ensures
            copy@ == self@,
    {
        Guess {
            guesser_id: self.guesser_id,
            guess_type: self.guess_type.clone(),
            after_draw_ops: self.after_draw_ops,
        }
    }
}

/// One player of the room.
#[derive(Debug, PartialEq)]
pub struct Player {
    pub name: String,
    pub round_score: Score,
    pub draw_score: Score,
    pub guess_score: Score,
    pub connected: bool,
}

/// The mathematical value of a [`Player`].
pub struct PlayerView {
    pub name: Seq<char>,
    pub round_score: Score,
    pub draw_score: Score,
    pub guess_score: Score,
    pub connected: bool,
}

impl View for Player {
    type V = PlayerView;

    open spec fn view(&self) -> PlayerView {
        PlayerView {
            name: self.name@,
            round_score: self.round_score,
            draw_score: self.draw_score,
            guess_score: self.guess_score,
            connected: self.connected,
        }
    }
}

impl Clone for Player {
    fn clone(&self) -> (copy: Self)
        ensures
            copy@ == self@,
    {
        Player {
            name: self.name.clone(),
            round_score: self.round_score,
            draw_score: self.draw_score,
            guess_score: self.guess_score,
            connected: self.connected,
        }
    }
}

/// One play of choose-word, draw, guess and reveal.
#[derive(Debug, PartialEq)]
pub struct Round {
    pub round_id: RoundId,
    pub phase: Phase,
    pub drawer_id: PlayerId,
    pub draw_ops: Vec<DrawOp>,
    pub easy_word: WordIdx,
    pub hard_word: WordIdx,
    pub word_choice: WordChoice,
    pub draw_score: Score,
    pub guess_score: Score,
    pub guesses: Vec<Guess>,
    pub hints: Vec<Hint>,
    /// When the current phase ends; 0 while no deadline is set.
    pub phase_ends_at: EpochMs,
}

/// The mathematical value of a [`Round`].
pub struct RoundView {
    pub round_id: RoundId,
    pub phase: Phase,
    pub drawer_id: PlayerId,
    pub draw_ops: Seq<Seq<u8>>,
    pub easy_word: WordIdx,
    pub hard_word: WordIdx,
    pub word_choice: WordChoice,
    pub draw_score: Score,
    pub guess_score: Score,
    pub guesses: Seq<GuessView>,
    pub hints: Seq<Seq<u8>>,
    pub phase_ends_at: EpochMs,
}

impl RoundView {
    /// A round that has just begun: the drawer is to choose a word, nothing
    /// is drawn, guessed or scored, and the deadline is `phase_ends_at`.
    pub open spec fn fresh(
        round_id: RoundId,
        drawer_id: PlayerId,
        easy_word: WordIdx,
        hard_word: WordIdx,
        phase_ends_at: EpochMs,
    ) -> RoundView {
        RoundView {
            round_id,
            phase: Phase::ChooseWord,
            drawer_id,
            draw_ops: Seq::empty(),
            easy_word,
            hard_word,
            word_choice: WordChoice::Easy,
            draw_score: 0,
            guess_score: 0,
            guesses: Seq::empty(),
            hints: Seq::empty(),
            phase_ends_at,
        }
    }
}

impl View for Round {
    type V = RoundView;

    open spec fn view(&self) -> RoundView {
        RoundView {
            round_id: self.round_id,
            phase: self.phase,
            drawer_id: self.drawer_id,
            draw_ops: self.draw_ops@.map_values(|op: DrawOp| op@),
            easy_word: self.easy_word,
            hard_word: self.hard_word,
            word_choice: self.word_choice,
            draw_score: self.draw_score,
            guess_score: self.guess_score,
            guesses: self.guesses@.map_values(|g: Guess| g@),
            hints: self.hints@.map_values(|h: Hint| h@),
            phase_ends_at: self.phase_ends_at,
        }
    }
}

fn copy_draw_ops(ops: &Vec<DrawOp>) -> (copy: Vec<DrawOp>)
    ensures
        copy@.map_values(|op: DrawOp| op@) == ops@.map_values(|op: DrawOp| op@),
{
    let mut copy: Vec<DrawOp> = Vec::with_capacity(ops.len());
    let mut i: usize = 0;
    while i < ops.len()
        invariant
            i <= ops.len(),
            copy@.len() == i,
            forall|j: int| 0 <= j < i ==> (#[trigger] copy@[j])@ == ops@[j]@,
        decreases ops.len() - i,
    {
        copy.push(ops[i].clone());
        i = i + 1;
    }
    assert(copy@.map_values(|op: DrawOp| op@) =~= ops@.map_values(|op: DrawOp| op@));
    copy
}

fn copy_hints(hints: &Vec<Hint>) -> (copy: Vec<Hint>)
    ensures
        copy@.map_values(|h: Hint| h@) == hints@.map_values(|h: Hint| h@),
{
    let mut copy: Vec<Hint> = Vec::with_capacity(hints.len());
    let mut i: usize = 0;
    while i < hints.len()
        invariant
            i <= hints.len(),
            copy@.len() == i,
            forall|j: int| 0 <= j < i ==> (#[trigger] copy@[j])@ == hints@[j]@,
        decreases hints.len() - i,
    {
        copy.push(hints[i].clone());
        i = i + 1;
    }
    assert(copy@.map_values(|h: Hint| h@) =~= hints@.map_values(|h: Hint| h@));
    copy
}

fn copy_guesses(guesses: &Vec<Guess>) -> (copy: Vec<Guess>)
    ensures
        copy@.map_values(|g: Guess| g@) == guesses@.map_values(|g: Guess| g@),
{
    let mut copy: Vec<Guess> = Vec::with_capacity(guesses.len());
    let mut i: usize = 0;
    while i < guesses.len()
        invariant
            i <= guesses.len(),
            copy@.len() == i,
            forall|j: int| 0 <= j < i ==> (#[trigger] copy@[j])@ == guesses@[j]@,
        decreases guesses.len() - i,
    {
        copy.push(guesses[i].clone());
        i = i + 1;
    }
    assert(copy@.map_values(|g: Guess| g@) =~= guesses@.map_values(|g: Guess| g@));
    copy
}

impl Clone for Round {
    fn clone(&self) -> (copy: Self)
        ensures
            copy@ == self@,
    {
        Round {
            round_id: self.round_id,
            phase: self.phase,
            drawer_id: self.drawer_id,
            draw_ops: copy_draw_ops(&self.draw_ops),
            easy_word: self.easy_word,
            hard_word: self.hard_word,
            word_choice: self.word_choice,
            draw_score: self.draw_score,
            guess_score: self.guess_score,
            guesses: copy_guesses(&self.guesses),
            hints: copy_hints(&self.hints),
            phase_ends_at: self.phase_ends_at,
        }
    }
}

impl Round {
    /// A round that has just begun, with no deadline set.
    pub fn new(round_id: RoundId, drawer_id: PlayerId, easy_word: WordIdx, hard_word: WordIdx) -> (round:
        Self)
        ensures
            round@ == RoundView::fresh(round_id, drawer_id, easy_word, hard_word, 0),
    {
        let round = Round {
            round_id,
            phase: Phase::ChooseWord,
            drawer_id,
            draw_ops: Vec::with_capacity(128),
            easy_word,
            hard_word,
            word_choice: WordChoice::Easy,
            draw_score: 0,
            guess_score: 0,
            guesses: Vec::new(),
            hints: Vec::new(),
            phase_ends_at: 0,
        };
        assert(round@.draw_ops =~= Seq::empty());
        assert(round@.guesses =~= Seq::empty());
        assert(round@.hints =~= Seq::empty());
        round
    }

    /// Begins the next round in place. Nothing of the round before stays:
    /// the new round is what [`Round::new`] gives, with no deadline set.
    pub fn next(
        &mut self,
        round_id: RoundId,
        drawer_id: PlayerId,
        easy_word: WordIdx,
        hard_word: WordIdx,
    )
        ensures
            final(self)@ == RoundView::fresh(round_id, drawer_id, easy_word, hard_word, 0),
    {
        self.round_id = round_id;
        self.phase = Phase::ChooseWord;
        self.drawer_id = drawer_id;
        self.draw_ops.clear();
        self.easy_word = easy_word;
        self.hard_word = hard_word;
        self.word_choice = WordChoice::Easy;
        self.draw_score = 0;
        self.guess_score = 0;
        self.guesses.clear();
        self.hints.clear();
        self.phase_ends_at = 0;
        assert(self@.draw_ops =~= Seq::empty());
        assert(self@.guesses =~= Seq::empty());
        assert(self@.hints =~= Seq::empty());
    }
}

/// The state of one room: its players and its current round, if a round
/// has begun.
#[derive(Debug, PartialEq)]
pub struct Game {
    pub players: HashMap<PlayerId, Player>,
    pub round: Option<Round>,
}

/// The mathematical value of a [`Game`].
pub struct GameView {
    pub players: Map<PlayerId, PlayerView>,
    pub round: Option<RoundView>,
}

impl GameView {
    /// The game with no player and no round.
    pub open spec fn empty() -> GameView {
        GameView { players: Map::empty(), round: None }
    }

    /// The number of connected players.
    pub open spec fn connected_count(self) -> nat {
        connected_ids(self.players).len()
    }
}

impl View for Game {
    type V = GameView;

    open spec fn view(&self) -> GameView {
        GameView {
            players: self.players@.map_values(|p: Player| p@),
            round: match self.round {
                Some(round) => Some(round@),
                None => None,
            },
        }
    }
}

impl Clone for Game {
    fn clone(&self) -> (copy: Self)
        ensures
            copy@ == self@,
    {
        let round = match &self.round {
            Some(round) => Some(round.clone()),
            None => None,
        };
        Game { players: self.players.clone(), round }
    }
}

/// The players of `players` that are connected.
pub open spec fn connected_ids(players: Map<PlayerId, PlayerView>) -> Set<PlayerId> {
    players.dom().filter(|id: PlayerId| players[id].connected)
}

/// Whether every connected player of `players` has scored in this round.
pub open spec fn all_connected_scored(players: Map<PlayerId, PlayerView>) -> bool {
    forall|id: PlayerId| #[trigger]
        players.contains_key(id) ==> !players[id].connected || players[id].round_score > 0
}

/// The connected players among the first `n` entries of `entries`.
spec fn connected_among(entries: Seq<(&PlayerId, &Player)>, n: int) -> Set<PlayerId>
    decreases n,
{
    if n <= 0 {
        Set::empty()
    } else if entries[n - 1].1.connected {
        connected_among(entries, n - 1).insert(*entries[n - 1].0)
    } else {
        connected_among(entries, n - 1)
    }
}

proof fn lemma_connected_among(entries: Seq<(&PlayerId, &Player)>, n: int)
    requires
        0 <= n <= entries.len(),
    ensures
        connected_among(entries, n).finite(),
        connected_among(entries, n).len() <= n,
        forall|id: PlayerId| #[trigger]
            connected_among(entries, n).contains(id) <==> exists|i: int|
                0 <= i < n && *(#[trigger] entries[i]).0 == id && entries[i].1.connected,
    decreases n,
{
    if n > 0 {
        lemma_connected_among(entries, n - 1);
        let prev = connected_among(entries, n - 1);
        let here = connected_among(entries, n);
        assert forall|id: PlayerId| #[trigger] here.contains(id) implies exists|i: int|
            0 <= i < n && *(#[trigger] entries[i]).0 == id && entries[i].1.connected by {
            if prev.contains(id) {
                let i = choose|i: int|
                    0 <= i < n - 1 && *(#[trigger] entries[i]).0 == id && entries[i].1.connected;
                assert(0 <= i < n && *entries[i].0 == id && entries[i].1.connected);
            } else {
                assert(*entries[n - 1].0 == id && entries[n - 1].1.connected);
            }
        }
        assert forall|id: PlayerId|
            (exists|i: int|
                0 <= i < n && *(#[trigger] entries[i]).0 == id
                    && entries[i].1.connected) implies #[trigger] here.contains(id) by {
            let i = choose|i: int|
                0 <= i < n && *(#[trigger] entries[i]).0 == id && entries[i].1.connected;
            if i < n - 1 {
                assert(prev.contains(id));
            }
        }
    }
}

/// Whether `entries` lists each entry of `players` exactly once.
spec fn lists_once(players: Map<PlayerId, Player>, entries: Seq<(&PlayerId, &Player)>) -> bool {
    &&& entries.no_duplicates()
    &&& entries.len() == players.dom().len()
    &&& forall|i: int|
        0 <= i < entries.len() ==> players.contains_key(*(#[trigger] entries[i]).0)
            && players[*entries[i].0] == *entries[i].1
    &&& forall|k: PlayerId| #[trigger]
        players.contains_key(k) ==> entries.contains((&k, &players[k]))
}

proof fn lemma_connected_step(
    players: Map<PlayerId, Player>,
    entries: Seq<(&PlayerId, &Player)>,
    n: int,
)
    requires
        lists_once(players, entries),
        0 <= n < entries.len(),
    ensures
        connected_among(entries, n + 1).len() == connected_among(entries, n).len() + (if entries[n].1.connected {
            1int
        } else {
            0int
        }),
{
    lemma_connected_among(entries, n);
    let seen = connected_among(entries, n);
    if entries[n].1.connected && seen.contains(*entries[n].0) {
        let i = choose|i: int|
            0 <= i < n && *(#[trigger] entries[i]).0 == *entries[n].0 && entries[i].1.connected;
        assert(entries[i] == entries[n]);
    }
}

proof fn lemma_connected_total(players: Map<PlayerId, Player>, entries: Seq<(&PlayerId, &Player)>)
    requires
        lists_once(players, entries),
    ensures
        connected_among(entries, entries.len() as int) == connected_ids(
            players.map_values(|p: Player| p@),
        ),
{
    lemma_connected_among(entries, entries.len() as int);
    let seen = connected_among(entries, entries.len() as int);
    let view = players.map_values(|p: Player| p@);
    assert forall|id: PlayerId| seen.contains(id) <==> connected_ids(view).contains(id) by {
        if seen.contains(id) {
            let i = choose|i: int|
                0 <= i < entries.len() && *(#[trigger] entries[i]).0 == id
                    && entries[i].1.connected;
            assert(players.contains_key(*entries[i].0));
        }
        if connected_ids(view).contains(id) {
            assert(players.contains_key(id));
            let pair = (&id, &players[id]);
            assert(entries.contains(pair));
            let i = choose|i: int| 0 <= i < entries.len() && entries[i] == pair;
            assert(*entries[i].0 == id && entries[i].1.connected);
        }
    }
    assert(seen =~= connected_ids(view));
}

impl Game {
    /// The game with no player and no round.
    pub fn new() -> (game: Self)
        ensures
            game@ == GameView::empty(),
    {
        let game = Game { players: HashMap::new(), round: None };
        assert(game@.players =~= Map::empty());
        game
    }

    /// Forgets every player and the round.
    pub fn reset(&mut self)
        ensures
            final(self)@ == GameView::empty(),
    {
        self.players.clear();
        self.round = None;
        assert(self@.players =~= Map::empty());
    }

    /// Whether no player is connected.
    pub fn is_empty(&self) -> (empty: bool)
        ensures
            empty == (self@.connected_count() == 0),
    {
        self.connected_players() == 0
    }

    /// The number of connected players.
    pub fn connected_players(&self) -> (count: usize)
        ensures
            count == self@.connected_count(),
    {
        let mut count: usize = 0;
        let total = self.players.len();
        let ghost entries = self.players.iter().remaining();
        for entry in it: self.players.iter()
            invariant
                it.seq() == entries,
                lists_once(self.players@, entries),
                entries.len() == total,
                count == connected_among(entries, it.index() as int).len(),
                count <= it.index() <= entries.len(),
        {
            proof {
                lemma_connected_step(self.players@, entries, it.index() as int);
            }
            let (_id, p) = entry;
            if p.connected {
                count = count + 1;
            }
        }
        proof {
            lemma_connected_total(self.players@, entries);
        }
        count
    }

    /// Whether every connected player has scored in this round.
    pub fn all_connected_players_scored(&self) -> (all: bool)
        ensures
            all == all_connected_scored(self@.players),
    {
        let ghost entries = self.players.iter().remaining();
        for entry in it: self.players.iter()
            invariant
                it.seq() == entries,
                lists_once(self.players@, entries),
                forall|i: int|
                    0 <= i < it.index() ==> !(#[trigger] entries[i]).1.connected
                        || entries[i].1.round_score > 0,
        {
            let (_id, p) = entry;
            if p.connected && p.round_score == 0 {
                proof {
                    let view = self@.players;
                    let id = *entries[it.index() as int].0;
                    assert(view.contains_key(id));
                    assert(view[id].connected && view[id].round_score == 0);
                }
                return false;
            }
        }
        proof {
            let view = self@.players;
            assert forall|id: PlayerId| #[trigger] view.contains_key(id) implies !view[id].connected
                || view[id].round_score > 0 by {
                let pair = (&id, &self.players@[id]);
                assert(entries.contains(pair));
                let i = choose|i: int| 0 <= i < entries.len() && entries[i] == pair;
                assert(!entries[i].1.connected || entries[i].1.round_score > 0);
            }
        }
        true
    }
}

} // verus!
