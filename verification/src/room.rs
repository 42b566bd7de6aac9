use crate::clock::unix_now_ms;
use crate::events::{
    events_view, needs_instant, stamped, ClientEvent, SeError, SeErrorType, SePlayerConnect, SePlayerDisconnect,
    SePlayerJoin, SeSetGame, SeType, ServerEvent, ServerEventView,
};
use crate::laws::{
    law_client_events_keep_the_players, law_connect_keeps_room_wf, law_disconnect_keeps_the_players,
};
use crate::model::{
    advance_spec, joined, on_player_presence, with_player, EngineFault, Outcome,
};
use crate::names::{default_name, default_name_spec};
use crate::state::{EpochMs, Game, GameView, PlayerId};
use crate::words::{WordCatalog, WordCatalogView};
use vstd::prelude::*;

verus! {

/// What a connecting client says of itself: a display name, if it has one,
/// and the token by which the room knows it again.
#[derive(Debug, PartialEq)]
pub struct ClientInfo {
    pub name: Option<String>,
    pub pass: String,
}

/// The mathematical value of a [`ClientInfo`].
pub struct ClientInfoView {
    pub name: Option<Seq<char>>,
    pub pass: Seq<char>,
}

impl View for ClientInfo {
    type V = ClientInfoView;

    open spec fn view(&self) -> ClientInfoView {
        ClientInfoView {
            name: match self.name {
                Some(name) => Some(name@),
                None => None,
            },
            pass: self.pass@,
        }
    }
}

/// One token and the player that it stands for.
#[derive(Debug)]
struct PassEntry {
    pass: String,
    player_id: PlayerId,
}

/// The first player that `entries` holds for `token`, from position `from`
/// on.
spec fn lookup_from(entries: Seq<PassEntry>, token: Seq<char>, from: int) -> Option<PlayerId>
    decreases entries.len() - from,
{
    if from < 0 || from >= entries.len() {
        None
    } else if entries[from].pass@ == token {
        Some(entries[from].player_id)
    } else {
        lookup_from(entries, token, from + 1)
    }
}

/// The tokens of `entries` and their players.
spec fn passes_of(entries: Seq<PassEntry>) -> Map<Seq<char>, PlayerId> {
    Map::new(
        |token: Seq<char>| lookup_from(entries, token, 0) is Some,
        |token: Seq<char>| lookup_from(entries, token, 0)->0,
    )
}

/// Whether no token occurs twice in `entries`.
spec fn tokens_distinct(entries: Seq<PassEntry>) -> bool {
    forall|i: int, j: int|
        0 <= i < j < entries.len() ==> (#[trigger] entries[i]).pass@ != (#[trigger] entries[j]).pass@
}

proof fn lemma_lookup_from(entries: Seq<PassEntry>, token: Seq<char>, from: int)
    requires
        0 <= from <= entries.len(),
    ensures
        match lookup_from(entries, token, from) {
            Some(id) => exists|i: int|
                from <= i < entries.len() && (#[trigger] entries[i]).pass@ == token && entries[i].player_id
                    == id && forall|j: int| from <= j < i ==> (#[trigger] entries[j]).pass@ != token,
            None => forall|i: int| from <= i < entries.len() ==> (#[trigger] entries[i]).pass@ != token,
        },
    decreases entries.len() - from,
{
    if from < entries.len() && entries[from].pass@ != token {
        lemma_lookup_from(entries, token, from + 1);
        match lookup_from(entries, token, from) {
            Some(id) => {
                let i = choose|i: int|
                    from + 1 <= i < entries.len() && (#[trigger] entries[i]).pass@ == token
                        && entries[i].player_id == id && forall|j: int|
                        from + 1 <= j < i ==> (#[trigger] entries[j]).pass@ != token;
                assert(from <= i < entries.len() && entries[i].pass@ == token && entries[i].player_id
                    == id && forall|j: int| from <= j < i ==> (#[trigger] entries[j]).pass@ != token);
            },
            None => {},
        }
    } else if from < entries.len() {
        assert(entries[from].pass@ == token);
    }
}

/// The table by which the room knows its players again: each token that a
/// client registered with, and the player that it stands for.
#[derive(Debug)]
pub struct RoomState {
    passes: Vec<PassEntry>,
}

impl View for RoomState {
    type V = Map<Seq<char>, PlayerId>;

    closed spec fn view(&self) -> Map<Seq<char>, PlayerId> {
        passes_of(self.passes@)
    }
}

impl RoomState {
    /// Whether the table holds each token once.
    pub closed spec fn wf(&self) -> bool {
        tokens_distinct(self.passes@)
    }

    /// The table without any token.
    pub fn new() -> (state: Self)
        ensures
            state@ == Map::<Seq<char>, PlayerId>::empty(),
            state.wf(),
    {
        let state = RoomState { passes: Vec::new() };
        assert(state@ =~= Map::<Seq<char>, PlayerId>::empty());
        state
    }

    /// Forgets every token.
    pub fn reset(&mut self)
        ensures
            final(self)@ == Map::<Seq<char>, PlayerId>::empty(),
            final(self).wf(),
    {
        self.passes.clear();
        assert(self@ =~= Map::<Seq<char>, PlayerId>::empty());
    }

    /// The player that `pass` stands for, if the table knows the token.
    pub fn player_of(&self, pass: &String) -> (player: Option<PlayerId>)
        ensures
            player == self@.get(pass@),
    {
        let mut i: usize = 0;
        while i < self.passes.len()
            invariant
                i <= self.passes.len(),
                lookup_from(self.passes@, pass@, 0) == lookup_from(self.passes@, pass@, i as int),
            decreases self.passes.len() - i,
        {
            if self.passes[i].pass == *pass {
                return Some(self.passes[i].player_id);
            }
            i = i + 1;
        }
        None
    }

    /// Records that `pass` stands for `player_id` from now on.
    pub fn remember(&mut self, pass: String, player_id: PlayerId)
        ensures
            final(self)@ == old(self)@.insert(pass@, player_id),
            old(self).wf() ==> final(self).wf(),
    {
        let ghost before = self.passes@;
        let mut i: usize = 0;
        while i < self.passes.len()
            invariant
                i <= self.passes.len(),
                self.passes@ == before,
                before == old(self).passes@,
                forall|j: int| 0 <= j < i ==> (#[trigger] before[j]).pass@ != pass@,
            decreases self.passes.len() - i,
        {
            if self.passes[i].pass == pass {
                self.passes[i].player_id = player_id;
                proof {
                    let after = self.passes@;
                    assert forall|token: Seq<char>|
                        lookup_from(after, token, 0) == (if token == pass@ {
                            Some(player_id)
                        } else {
                            lookup_from(before, token, 0)
                        }) by {
                        lemma_lookup_from(after, token, 0);
                        lemma_lookup_from(before, token, 0);
                        if token != pass@ {
                            match lookup_from(before, token, 0) {
                                Some(id) => {
                                    let k = choose|k: int|
                                        0 <= k < before.len() && (#[trigger] before[k]).pass@ == token
                                            && before[k].player_id == id && forall|j: int|
                                            0 <= j < k ==> (#[trigger] before[j]).pass@ != token;
                                    assert(after[k].pass@ == token);
                                    assert(forall|j: int|
                                        0 <= j < k ==> (#[trigger] after[j]).pass@ == before[j].pass@);
                                },
                                None => {
                                    assert(forall|j: int|
                                        0 <= j < after.len() ==> (#[trigger] after[j]).pass@
                                            == before[j].pass@);
                                },
                            }
                        } else {
                            assert(after[i as int].pass@ == token);
                            assert(forall|j: int|
                                0 <= j < i ==> (#[trigger] after[j]).pass@ == before[j].pass@);
                        }
                    }
                    assert(self@ =~= old(self)@.insert(pass@, player_id));
                    if old(self).wf() {
                        assert forall|a: int, b: int| 0 <= a < b < after.len() implies (
                        #[trigger] after[a]).pass@ != (#[trigger] after[b]).pass@ by {
                            assert(after[a].pass@ == before[a].pass@);
                            assert(after[b].pass@ == before[b].pass@);
                        }
                    }
                }
                return ;
            }
            i = i + 1;
        }
        self.passes.push(PassEntry { pass, player_id });
        proof {
            let after = self.passes@;
            assert forall|token: Seq<char>|
                lookup_from(after, token, 0) == (if token == pass@ {
                    Some(player_id)
                } else {
                    lookup_from(before, token, 0)
                }) by {
                lemma_lookup_from(after, token, 0);
                lemma_lookup_from(before, token, 0);
                assert(forall|j: int| 0 <= j < before.len() ==> (#[trigger] after[j]) == before[j]);
                if token != pass@ {
                    match lookup_from(before, token, 0) {
                        Some(id) => {
                            let k = choose|k: int|
                                0 <= k < before.len() && (#[trigger] before[k]).pass@ == token
                                    && before[k].player_id == id && forall|j: int|
                                    0 <= j < k ==> (#[trigger] before[j]).pass@ != token;
                            assert(after[k].pass@ == token);
                        },
                        None => {},
                    }
                } else {
                    assert(after[before.len() as int].pass@ == token);
                }
            }
            assert(self@ =~= old(self)@.insert(pass@, player_id));
            if old(self).wf() {
                assert forall|a: int, b: int| 0 <= a < b < after.len() implies (#[trigger] after[a]).pass@
                    != (#[trigger] after[b]).pass@ by {
                    assert(after[a] == before[a]);
                    if b < before.len() {
                        assert(after[b] == before[b]);
                    }
                }
            }
        }
    }
}

/// The mathematical value of a [`Room`].
pub struct RoomView {
    pub game: GameView,
    /// The tokens that clients registered with, and their players.
    pub passes: Map<Seq<char>, PlayerId>,
    /// The id that the next new player gets.
    pub next_player_id: PlayerId,
    pub words: WordCatalogView,
}

impl RoomView {
    /// The room as it is made: no player, no round, no token.
    pub open spec fn fresh(words: WordCatalogView) -> RoomView {
        RoomView { game: GameView::empty(), passes: Map::empty(), next_player_id: 0, words }
    }

    /// What the room keeps true of itself: every token stands for a player
    /// of the game, and every player's id lies below the next id to give
    /// out.
    pub open spec fn wf(self) -> bool {
        &&& forall|token: Seq<char>| #[trigger]
            self.passes.contains_key(token) ==> self.game.players.contains_key(self.passes[token])
        &&& forall|id: PlayerId| #[trigger]
            self.game.players.contains_key(id) ==> id < self.next_player_id
    }
}

/// What a client gets on registration.
#[derive(Debug, PartialEq)]
pub struct Registration {
    pub player_id: PlayerId,
    /// The whole game, for the client alone.
    pub snapshot: ServerEvent,
    /// What the other clients are to hear of it.
    pub broadcast: Vec<ServerEvent>,
}

/// The mathematical value of a [`Registration`].
pub struct RegistrationView {
    pub player_id: PlayerId,
    pub snapshot: ServerEventView,
    pub broadcast: Seq<ServerEventView>,
}

impl View for Registration {
    type V = RegistrationView;

    open spec fn view(&self) -> RegistrationView {
        RegistrationView {
            player_id: self.player_id,
            snapshot: self.snapshot@,
            broadcast: events_view(self.broadcast@),
        }
    }
}

/// What a registration does: the room after it, and either what the client
/// gets or the reason for which it was turned down.
pub struct ConnectOutcome {
    pub room: RoomView,
    pub reply: Result<RegistrationView, SeErrorType>,
}

/// The name under which a client joins: its own, or the default for its id.
pub open spec fn joining_name(name: Option<Seq<char>>, id: PlayerId) -> Seq<char> {
    match name {
        Some(name) => name,
        None => default_name_spec(id),
    }
}

/// A known client comes back as the player `id`: the player is marked
/// connected, the others hear of it if that is a change, and the client
/// gets the whole game.
pub open spec fn reconnect_spec(room: RoomView, id: PlayerId) -> ConnectOutcome {
    let event = ServerEventView::PlayerConnect { player_id: id };
    let step = on_player_presence(room.game, event, id, true);
    ConnectOutcome {
        room: RoomView { game: step.game, ..room },
        reply: Ok(
            RegistrationView {
                player_id: id,
                snapshot: ServerEventView::SetGame { player_id: id, game: step.game },
                broadcast: step.emitted,
            },
        ),
    }
}

/// A new client joins under the next id. The others hear of it if there
/// are others connected, and the client gets the whole game. Where no id
/// is left the client is turned down with `FullGame`; where the id is
/// taken, with `Unknown`.
pub open spec fn join_spec(room: RoomView, name: Option<Seq<char>>, pass: Seq<char>) -> ConnectOutcome {
    let id = room.next_player_id;
    if id == u32::MAX {
        ConnectOutcome { room, reply: Err(SeErrorType::FullGame) }
    } else if room.game.players.contains_key(id) {
        ConnectOutcome { room, reply: Err(SeErrorType::Unknown) }
    } else {
        let name = joining_name(name, id);
        let game = with_player(room.game, id, joined(name));
        ConnectOutcome {
            room: RoomView {
                game,
                passes: room.passes.insert(pass, id),
                next_player_id: (id + 1) as PlayerId,
                ..room
            },
            reply: Ok(
                RegistrationView {
                    player_id: id,
                    snapshot: ServerEventView::SetGame { player_id: id, game },
                    broadcast: if game.connected_count() > 1 {
                        seq![ServerEventView::PlayerJoin { player_id: id, name }]
                    } else {
                        Seq::empty()
                    },
                },
            ),
        }
    }
}

/// What the registration of a client with the token `pass` does.
pub open spec fn connect_spec(room: RoomView, name: Option<Seq<char>>, pass: Seq<char>) -> ConnectOutcome {
    if room.passes.contains_key(pass) {
        reconnect_spec(room, room.passes[pass])
    } else {
        join_spec(room, name, pass)
    }
}

/// The message that goes with a reason for turning a client down.
pub open spec fn rejection_text(reason: SeErrorType) -> Seq<char> {
    match reason {
        SeErrorType::Unknown => "registration failed"@,
        SeErrorType::AlreadyConnected => "already connected"@,
        SeErrorType::FullGame => "no player id is left"@,
    }
}

/// The notice that turns a client down for `reason`.
fn rejection(reason: SeErrorType) -> (notice: SeError)
    ensures
        notice.se_error_type == reason,
        notice.message@ == rejection_text(reason),
{
    let message = match reason {
        SeErrorType::Unknown => "registration failed",
        SeErrorType::AlreadyConnected => "already connected",
        SeErrorType::FullGame => "no player id is left",
    };
    SeError { se_error_type: reason, message: message.to_owned() }
}

/// Whether `reply` is what `outcome` says: the registration, or a notice
/// with the reason and its message.
pub open spec fn reply_meets(
    reply: Result<Registration, SeError>,
    outcome: Result<RegistrationView, SeErrorType>,
) -> bool {
    match reply {
        Ok(registration) => outcome == Ok::<RegistrationView, SeErrorType>(registration@),
        Err(notice) => outcome == Err::<RegistrationView, SeErrorType>(notice.se_error_type)
            && notice.message@ == rejection_text(notice.se_error_type),
    }
}

/// Whether handling an event took the room from `before` to `after` and
/// gave `result` as `outcome` says: the game is the outcome's, the rest of
/// the room stays, and the result is what to broadcast, or the fault.
pub open spec fn handled(
    before: RoomView,
    after: RoomView,
    result: Result<Vec<ServerEvent>, EngineFault>,
    outcome: Outcome,
) -> bool {
    &&& after == (RoomView { game: outcome.game, ..before })
    &&& match result {
        Ok(broadcast) => outcome.fault is None && events_view(broadcast@) == outcome.emitted,
        Err(fault) => outcome.fault == Some(fault),
    }
}

/// Whether the room is torn down after trouble: where the broadcast of a
/// disconnection was heard by nobody, or the engine refused an event with a
/// fault.
pub open spec fn tears_down(broadcast_heard: bool, fault: Option<EngineFault>) -> bool {
    !broadcast_heard || fault is Some
}

/// The room after trouble: torn down, with its game and tokens forgotten,
/// or as it was.
pub open spec fn settled(
    room: RoomView,
    broadcast_heard: bool,
    fault: Option<EngineFault>,
) -> RoomView {
    if tears_down(broadcast_heard, fault) {
        RoomView { game: GameView::empty(), passes: Map::empty(), ..room }
    } else {
        room
    }
}

/// One room: a game, the tokens of its players, and the id to give out
/// next. All changes to the game of a room go through it, one message at a
/// time.
#[derive(Debug)]
pub struct Room {
    game: Game,
    state: RoomState,
    next_player_id: PlayerId,
    words: WordCatalog,
}

impl View for Room {
    type V = RoomView;

    closed spec fn view(&self) -> RoomView {
        RoomView {
            game: self.game@,
            passes: self.state@,
            next_player_id: self.next_player_id,
            words: self.words@,
        }
    }
}

impl Room {
    /// A room without players, with the words of `words`.
    pub fn new(words: WordCatalog) -> (room: Self)
        ensures
            room@ == RoomView::fresh(words@),
            room@.wf(),
    {
        Room { game: Game::new(), state: RoomState::new(), next_player_id: 0, words }
    }

    /// A room without players whose first player gets the id
    /// `first_player_id`.
    pub fn with_first_id(words: WordCatalog, first_player_id: PlayerId) -> (room: Self)
        ensures
            room@ == (RoomView { next_player_id: first_player_id, ..RoomView::fresh(words@) }),
            room@.wf(),
    {
        Room { game: Game::new(), state: RoomState::new(), next_player_id: first_player_id, words }
    }

    /// The game of the room.
    pub fn game(&self) -> (game: &Game)
        ensures
            game@ == self@.game,
    {
        &self.game
    }

    /// The words of the room.
    pub fn words(&self) -> (words: &WordCatalog)
        ensures
            words@ == self@.words,
    {
        &self.words
    }

    /// The whole game as an event for the player `player_id` alone.
    pub fn snapshot_for(&self, player_id: PlayerId) -> (snapshot: ServerEvent)
        ensures
            snapshot@ == (ServerEventView::SetGame { player_id, game: self@.game }),
    {
        ServerEvent { se_type: SeType::SetGame(SeSetGame { player_id, game: self.game.clone() }) }
    }

    /// Empties the room in place once everyone has gone: the game and the
    /// tokens are forgotten. Ids that were given out are not given again.
    pub fn reset(&mut self)
        ensures
            final(self)@ == (RoomView {
                game: GameView::empty(),
                passes: Map::empty(),
                ..old(self)@
            }),
            final(self)@.wf(),
    {
        self.game.reset();
        self.state.reset();
    }

    /// Registers a client. A client whose token the room knows comes back
    /// as the player it was; any other joins as a new player under the next
    /// id.
    pub fn connect(&mut self, client_info: ClientInfo) -> (reply: Result<Registration, SeError>)
        ensures
            final(self)@ == connect_spec(old(self)@, client_info@.name, client_info@.pass).room,
            reply_meets(reply, connect_spec(old(self)@, client_info@.name, client_info@.pass).reply),
            old(self)@.wf() ==> final(self)@.wf(),
    {
        proof {
            if self@.wf() {
                law_connect_keeps_room_wf(
                    self@,
                    client_info@.name,
                    client_info@.pass,
                );
            }
        }
        let mut events: Vec<ServerEvent> = Vec::new();
        assert(events_view(events@) =~= Seq::<ServerEventView>::empty());
        match self.state.player_of(&client_info.pass) {
            Some(player_id) => {
                let connect = ServerEvent {
                    se_type: SeType::PlayerConnect(SePlayerConnect { player_id }),
                };
                let _ = self.game.advance_at(connect, &self.words, 0, &mut events);
                let snapshot = self.snapshot_for(player_id);
                proof {
                    let step = on_player_presence(
                        old(self)@.game,
                        ServerEventView::PlayerConnect { player_id },
                        player_id,
                        true,
                    );
                    assert(events_view(events@) =~= step.emitted);
                }
                Ok(Registration { player_id, snapshot, broadcast: events })
            },
            None => {
                let player_id = self.next_player_id;
                if player_id == u32::MAX {
                    return Err(rejection(SeErrorType::FullGame));
                }
                let name = match client_info.name {
                    Some(name) => name,
                    None => default_name(player_id),
                };
                let join = ServerEvent {
                    se_type: SeType::PlayerJoin(SePlayerJoin { player_id, name }),
                };
                let ghost join_view = join@;
                match self.game.advance_at(join, &self.words, 0, &mut events) {
                    Err(_) => {
                        return Err(rejection(SeErrorType::Unknown));
                    },
                    Ok(()) => {},
                }
                self.state.remember(client_info.pass, player_id);
                self.next_player_id = player_id + 1;
                assert(events_view(events@) =~= seq![join_view]);
                if self.game.connected_players() <= 1 {
                    events.clear();
                    assert(events_view(events@) =~= Seq::<ServerEventView>::empty());
                }
                let snapshot = self.snapshot_for(player_id);
                Ok(Registration { player_id, snapshot, broadcast: events })
            },
        }
    }

    /// Marks the player `player_id` as gone and gives what the others are
    /// to hear of it: the change, or nothing where the player is unknown or
    /// was gone already.
    pub fn disconnect(&mut self, player_id: PlayerId) -> (broadcast: Vec<ServerEvent>)
        ensures
            final(self)@ == (RoomView {
                game: on_player_presence(
                    old(self)@.game,
                    ServerEventView::PlayerDisconnect { player_id },
                    player_id,
                    false,
                ).game,
                ..old(self)@
            }),
            events_view(broadcast@) == on_player_presence(
                old(self)@.game,
                ServerEventView::PlayerDisconnect { player_id },
                player_id,
                false,
            ).emitted,
            old(self)@.wf() ==> final(self)@.wf(),
    {
        proof {
            law_disconnect_keeps_the_players(self@.game, player_id);
        }
        let mut events: Vec<ServerEvent> = Vec::new();
        assert(events_view(events@) =~= Seq::<ServerEventView>::empty());
        let disconnect = ServerEvent {
            se_type: SeType::PlayerDisconnect(SePlayerDisconnect { player_id }),
        };
        let _ = self.game.advance_at(disconnect, &self.words, 0, &mut events);
        proof {
            let step = on_player_presence(
                old(self)@.game,
                ServerEventView::PlayerDisconnect { player_id },
                player_id,
                false,
            );
            assert(events_view(events@) =~= step.emitted);
        }
        events
    }

    /// Applies the stamped event `event` as of the instant `now_ms`.
    fn apply(&mut self, event: ServerEvent, now_ms: EpochMs) -> (result: Result<
        Vec<ServerEvent>,
        EngineFault,
    >)
        ensures
            handled(
                old(self)@,
                final(self)@,
                result,
                advance_spec(old(self)@.game, event@, old(self)@.words, now_ms),
            ),
    {
        let mut events: Vec<ServerEvent> = Vec::new();
        assert(events_view(events@) =~= Seq::<ServerEventView>::empty());
        let ghost step = advance_spec(self@.game, event@, self@.words, now_ms);
        match self.game.advance_at(event, &self.words, now_ms, &mut events) {
            Ok(()) => {
                assert(events_view(events@) =~= step.emitted);
                Ok(events)
            },
            Err(fault) => Err(fault),
        }
    }

    /// Handles what the player `player_id` sent, as of the instant
    /// `now_ms`: the event is stamped with the sender, applied to the game,
    /// and what the clients are to hear of it is given back. An event that
    /// the engine refuses changes nothing.
    pub fn client_event_at(
        &mut self,
        player_id: PlayerId,
        client_event: ClientEvent,
        now_ms: EpochMs,
    ) -> (result: Result<Vec<ServerEvent>, EngineFault>)
        ensures
            handled(
                old(self)@,
                final(self)@,
                result,
                advance_spec(
                    old(self)@.game,
                    stamped(player_id, client_event@),
                    old(self)@.words,
                    now_ms,
                ),
            ),
            old(self)@.wf() ==> final(self)@.wf(),
    {
        proof {
            law_client_events_keep_the_players(
                self@.game,
                player_id,
                client_event@,
                self@.words,
                now_ms,
            );
        }
        let event = ServerEvent::from_client(player_id, client_event);
        self.apply(event, now_ms)
    }

    /// Handles what the player `player_id` sent, as of the present
    /// instant. Only a word choice and a guess look at the instant, and only
    /// for them the clock is read: any other event is handled whatever the
    /// clock would give. Where the clock is read and gives no instant, the
    /// event is refused with `ClockUnavailable` and nothing changes;
    /// otherwise what happens is what [`Room::client_event_at`] does for the
    /// instant read.
    pub fn client_event(&mut self, player_id: PlayerId, client_event: ClientEvent) -> (result:
        Result<Vec<ServerEvent>, EngineFault>)
        ensures
            !needs_instant(stamped(player_id, client_event@)) ==> handled(
                old(self)@,
                final(self)@,
                result,
                advance_spec(
                    old(self)@.game,
                    stamped(player_id, client_event@),
                    old(self)@.words,
                    0,
                ),
            ),
            (exists|now_ms: EpochMs|
                handled(
                    old(self)@,
                    final(self)@,
                    result,
                    #[trigger] advance_spec(
                        old(self)@.game,
                        stamped(player_id, client_event@),
                        old(self)@.words,
                        now_ms,
                    ),
                )) || handled(
                old(self)@,
                final(self)@,
                result,
                Outcome::refused(old(self)@.game, EngineFault::ClockUnavailable),
            ),
            old(self)@.wf() ==> final(self)@.wf(),
    {
        let event = ServerEvent::from_client(player_id, client_event);
        if event.needs_instant() {
            match unix_now_ms() {
                Some(now_ms) => {
                    proof {
                        law_client_events_keep_the_players(
                            self@.game,
                            player_id,
                            client_event@,
                            self@.words,
                            now_ms,
                        );
                    }
                    self.apply(event, now_ms)
                },
                None => Err(EngineFault::ClockUnavailable),
            }
        } else {
            proof {
                law_client_events_keep_the_players(
                    self@.game,
                    player_id,
                    client_event@,
                    self@.words,
                    0,
                );
            }
            self.apply(event, 0)
        }
    }

    /// Decides whether the room goes on after trouble, and tears it down
    /// in place if not. The room is torn down where the broadcast of a
    /// disconnection found nobody to hear it, since everyone has gone, and
    /// where the engine refused an event with a fault. A room that is torn
    /// down forgets its game and its tokens, as [`Room::reset`] does.
    pub fn settle(&mut self, broadcast_heard: bool, fault: Option<EngineFault>) -> (torn_down: bool)
        ensures
            torn_down == tears_down(broadcast_heard, fault),
            final(self)@ == settled(old(self)@, broadcast_heard, fault),
            old(self)@.wf() ==> final(self)@.wf(),
    {
        let torn_down = !broadcast_heard || fault.is_some();
        if torn_down {
            self.reset();
        }
        torn_down
    }
}

} // verus!
