use drawduel_engine::events::{
    CeChooseWord, CeGuessWord, CeRename, CeType, ClientEvent, SeErrorType, SePlayerConnect,
    SePlayerDisconnect, SePlayerJoin, SePlayerRename, SeSetGame, SeType, ServerEvent,
};
use drawduel_engine::model::EngineFault;
use drawduel_engine::room::{ClientInfo, Registration, Room, RoomState};
use drawduel_engine::state::{Game, Phase, Player, WordChoice};
use drawduel_engine::words::WordCatalog;

fn room() -> Room {
    Room::new(WordCatalog::new(vec!["cat".to_string()], vec!["anchor".to_string()]))
}

fn client(name: Option<&str>, pass: &str) -> ClientInfo {
    ClientInfo { name: name.map(String::from), pass: pass.to_string() }
}

fn snapshot(player_id: u32, game: &Game) -> ServerEvent {
    ServerEvent { se_type: SeType::SetGame(SeSetGame { player_id, game: game.clone() }) }
}

fn join(player_id: u32, name: &str) -> ServerEvent {
    ServerEvent { se_type: SeType::PlayerJoin(SePlayerJoin { player_id, name: name.to_string() }) }
}

fn connected(name: &str) -> Player {
    Player { name: name.to_string(), round_score: 0, draw_score: 0, guess_score: 0, connected: true }
}

#[test]
fn pass_table_remembers_and_forgets() {
    let mut table = RoomState::new();
    assert_eq!(table.player_of(&"a".to_string()), None);
    table.remember("a".to_string(), 1);
    table.remember("b".to_string(), 2);
    assert_eq!(table.player_of(&"a".to_string()), Some(1));
    assert_eq!(table.player_of(&"b".to_string()), Some(2));
    assert_eq!(table.player_of(&"c".to_string()), None);
    assert_eq!(table.player_of(&"".to_string()), None);
    table.remember("a".to_string(), 3);
    assert_eq!(table.player_of(&"a".to_string()), Some(3));
    assert_eq!(table.player_of(&"b".to_string()), Some(2));
    table.reset();
    assert_eq!(table.player_of(&"a".to_string()), None);
    assert_eq!(table.player_of(&"b".to_string()), None);
}

#[test]
fn new_room_is_empty() {
    let room = room();
    assert_eq!(*room.game(), Game::new());
    assert_eq!(room.words().easy, vec!["cat".to_string()]);
}

#[test]
fn first_client_joins_as_player_zero_and_nobody_is_told() {
    let mut room = room();
    let reply = room.connect(client(Some("Alice"), "pass-a")).unwrap();
    let mut game = Game::new();
    game.players.insert(0, connected("Alice"));
    assert_eq!(
        reply,
        Registration { player_id: 0, snapshot: snapshot(0, &game), broadcast: vec![] }
    );
    assert_eq!(*room.game(), game);
}

#[test]
fn second_client_joins_under_the_next_id_and_the_others_are_told() {
    let mut room = room();
    room.connect(client(Some("Alice"), "pass-a")).unwrap();
    let reply = room.connect(client(Some("Bob"), "pass-b")).unwrap();
    let mut game = Game::new();
    game.players.insert(0, connected("Alice"));
    game.players.insert(1, connected("Bob"));
    assert_eq!(
        reply,
        Registration { player_id: 1, snapshot: snapshot(1, &game), broadcast: vec![join(1, "Bob")] }
    );
    assert_eq!(*room.game(), game);
}

#[test]
fn client_without_a_name_gets_the_default_for_its_id() {
    let mut room = room();
    room.connect(client(None, "pass-a")).unwrap();
    let reply = room.connect(client(None, "pass-b")).unwrap();
    assert_eq!(reply.broadcast, vec![join(1, "player01")]);
    assert_eq!(room.game().players[&0].name, "player00");
    assert_eq!(room.game().players[&1].name, "player01");
}

#[test]
fn join_is_not_broadcast_while_everyone_else_is_gone() {
    let mut room = room();
    room.connect(client(Some("Alice"), "pass-a")).unwrap();
    room.disconnect(0);
    let reply = room.connect(client(Some("Bob"), "pass-b")).unwrap();
    assert_eq!(reply.player_id, 1);
    assert_eq!(reply.broadcast, vec![]);
    assert_eq!(room.game().players.len(), 2);
}

#[test]
fn reconnect_of_a_connected_player_changes_nothing_and_replies_the_snapshot() {
    let mut room = room();
    room.connect(client(Some("Alice"), "pass-a")).unwrap();
    room.connect(client(Some("Bob"), "pass-b")).unwrap();
    let before = room.game().clone();
    let reply = room.connect(client(Some("Alicia"), "pass-a")).unwrap();
    assert_eq!(
        reply,
        Registration { player_id: 0, snapshot: snapshot(0, &before), broadcast: vec![] }
    );
    assert_eq!(*room.game(), before);
    assert_eq!(room.game().players.len(), 2);
    assert!(room.game().players[&0].connected);
    assert_eq!(room.game().players[&0].name, "Alice");
}

#[test]
fn reconnect_of_a_disconnected_player_connects_and_tells_the_others() {
    let mut room = room();
    room.connect(client(Some("Alice"), "pass-a")).unwrap();
    room.connect(client(Some("Bob"), "pass-b")).unwrap();
    room.disconnect(0);
    assert!(!room.game().players[&0].connected);
    let reply = room.connect(client(None, "pass-a")).unwrap();
    let connect = ServerEvent { se_type: SeType::PlayerConnect(SePlayerConnect { player_id: 0 }) };
    assert_eq!(reply.player_id, 0);
    assert_eq!(reply.broadcast, vec![connect]);
    assert_eq!(reply.snapshot, snapshot(0, room.game()));
    assert_eq!(room.game().players.len(), 2);
    assert!(room.game().players[&0].connected);
    // once more, now connected: nothing further changes
    let again = room.connect(client(None, "pass-a")).unwrap();
    assert_eq!(again.player_id, 0);
    assert_eq!(again.broadcast, vec![]);
    assert_eq!(room.game().players.len(), 2);
    assert!(room.game().players[&0].connected);
}

#[test]
fn disconnect_marks_the_player_and_is_broadcast_once() {
    let mut room = room();
    room.connect(client(Some("Alice"), "pass-a")).unwrap();
    let gone = ServerEvent { se_type: SeType::PlayerDisconnect(SePlayerDisconnect { player_id: 0 }) };
    assert_eq!(room.disconnect(0), vec![gone]);
    assert!(!room.game().players[&0].connected);
    assert!(room.game().is_empty());
    assert_eq!(room.disconnect(0), vec![]);
    assert_eq!(room.disconnect(9), vec![]);
    assert_eq!(room.game().players.len(), 1);
}

#[test]
fn client_event_is_stamped_applied_and_broadcast() {
    let mut room = room();
    room.connect(client(Some("Alice"), "pass-a")).unwrap();
    let rename = ClientEvent { ce_type: CeType::Rename(CeRename { name: "Alicia".to_string() }) };
    let sent = room.client_event_at(0, rename, 0).unwrap();
    assert_eq!(
        sent,
        vec![ServerEvent {
            se_type: SeType::PlayerRename(SePlayerRename { player_id: 0, name: "Alicia".to_string() }),
        }]
    );
    assert_eq!(room.game().players[&0].name, "Alicia");
}

#[test]
fn client_event_that_the_engine_absorbs_sends_nothing() {
    let mut room = room();
    room.connect(client(Some("Alice"), "pass-a")).unwrap();
    let before = room.game().clone();
    let rename = ClientEvent { ce_type: CeType::Rename(CeRename { name: "Eve".to_string() }) };
    assert_eq!(room.client_event_at(5, rename, 0), Ok(vec![]));
    let choice = ClientEvent { ce_type: CeType::ChooseWord(CeChooseWord { choice: WordChoice::Hard }) };
    assert_eq!(room.client_event_at(0, choice, 0), Ok(vec![]));
    let guess = ClientEvent {
        ce_type: CeType::GuessWord(CeGuessWord { guess: "cat".to_string(), after_draw_ops: 0 }),
    };
    assert_eq!(room.client_event_at(0, guess, 0), Ok(vec![]));
    assert_eq!(*room.game(), before);
}

#[test]
fn reset_forgets_game_and_tokens_but_not_the_ids_given_out() {
    let mut room = room();
    room.connect(client(Some("Alice"), "pass-a")).unwrap();
    room.connect(client(Some("Bob"), "pass-b")).unwrap();
    room.reset();
    assert_eq!(*room.game(), Game::new());
    // the token is forgotten: its holder joins anew, under an id not used before
    let reply = room.connect(client(Some("Alice"), "pass-a")).unwrap();
    assert_eq!(reply.player_id, 2);
    assert_eq!(reply.broadcast, vec![]);
    assert_eq!(room.game().players.len(), 1);
}

#[test]
fn snapshot_restores_the_game_of_the_room_in_a_replica() {
    let mut room = room();
    room.connect(client(Some("Alice"), "pass-a")).unwrap();
    room.connect(client(None, "pass-b")).unwrap();
    room.disconnect(1);
    let event = room.snapshot_for(1);
    assert_eq!(event, snapshot(1, room.game()));
    let mut replica = Game::new();
    let mut sent = Vec::new();
    assert_eq!(replica.advance_at(event, room.words(), 0, &mut sent), Ok(()));
    assert_eq!(replica, *room.game());
    assert_eq!(replica.round.as_ref().map(|r| r.phase), None::<Phase>);
}

#[test]
fn client_guess_for_a_word_outside_the_catalog_is_a_fault() {
    // a replica is brought into a round whose easy word lies outside the catalog
    let words = WordCatalog::new(vec![], vec![]);
    let mut game = Game::new();
    let mut sent = Vec::new();
    assert_eq!(game.advance_at(join(0, "Alice"), &words, 0, &mut sent), Ok(()));
    assert_eq!(game.advance_at(join(1, "Bob"), &words, 0, &mut sent), Ok(()));
    let event = ServerEvent::from_client(
        1,
        ClientEvent {
            ce_type: CeType::GuessWord(CeGuessWord { guess: "cat".to_string(), after_draw_ops: 0 }),
        },
    );
    game.round = Some(drawduel_engine::state::Round::new(1, 0, 0, 0));
    game.round.as_mut().unwrap().phase = Phase::Play;
    assert_eq!(game.advance_at(event, &words, 0, &mut sent), Err(EngineFault::WordOutOfCatalog));
}

#[test]
fn client_is_turned_down_when_no_id_is_left() {
    let words = WordCatalog::new(vec![], vec![]);
    let mut room = Room::with_first_id(words, u32::MAX - 1);
    let reply = room.connect(client(Some("Alice"), "pass-a")).unwrap();
    assert_eq!(reply.player_id, u32::MAX - 1);
    let before = room.game().clone();
    let notice = room.connect(client(Some("Bob"), "pass-b")).unwrap_err();
    assert_eq!(notice.se_error_type, SeErrorType::FullGame);
    assert_eq!(notice.message, "no player id is left");
    assert_eq!(*room.game(), before);
    // the one who is in still comes back
    let again = room.connect(client(None, "pass-a")).unwrap();
    assert_eq!(again.player_id, u32::MAX - 1);
    // and the one turned down was not remembered
    let notice = room.connect(client(Some("Bob"), "pass-b")).unwrap_err();
    assert_eq!(notice.se_error_type, SeErrorType::FullGame);
}

#[test]
fn room_with_a_first_id_is_empty() {
    let room = Room::with_first_id(WordCatalog::new(vec![], vec![]), 40);
    assert_eq!(*room.game(), Game::new());
}

#[test]
fn client_event_is_handled_as_of_the_present_instant() {
    let mut room = room();
    room.connect(client(Some("Alice"), "pass-a")).unwrap();
    let rename = ClientEvent { ce_type: CeType::Rename(CeRename { name: "Alicia".to_string() }) };
    let sent = room.client_event(0, rename).unwrap();
    assert_eq!(
        sent,
        vec![ServerEvent {
            se_type: SeType::PlayerRename(SePlayerRename { player_id: 0, name: "Alicia".to_string() }),
        }]
    );
    assert_eq!(room.game().players[&0].name, "Alicia");
    // a word choice reads the clock; without a round it is absorbed all the same
    let before = room.game().clone();
    let choice = ClientEvent { ce_type: CeType::ChooseWord(CeChooseWord { choice: WordChoice::Hard }) };
    assert_eq!(room.client_event(0, choice), Ok(vec![]));
    let guess = ClientEvent {
        ce_type: CeType::GuessWord(CeGuessWord { guess: "cat".to_string(), after_draw_ops: 0 }),
    };
    assert_eq!(room.client_event(0, guess), Ok(vec![]));
    assert_eq!(*room.game(), before);
}

#[test]
fn room_goes_on_when_there_is_no_trouble() {
    let mut room = room();
    room.connect(client(Some("Alice"), "pass-a")).unwrap();
    let before = room.game().clone();
    assert!(!room.settle(true, None));
    assert_eq!(*room.game(), before);
    // the token is still known
    assert_eq!(room.connect(client(None, "pass-a")).unwrap().player_id, 0);
}

#[test]
fn room_is_torn_down_when_nobody_heard_the_broadcast() {
    let mut room = room();
    room.connect(client(Some("Alice"), "pass-a")).unwrap();
    room.disconnect(0);
    assert!(room.settle(false, None));
    assert_eq!(*room.game(), Game::new());
    // the token is forgotten, and the id is not given again
    assert_eq!(room.connect(client(None, "pass-a")).unwrap().player_id, 1);
}

#[test]
fn room_is_torn_down_on_a_fault_of_the_engine() {
    for fault in [
        EngineFault::DuplicatePlayer,
        EngineFault::WordOutOfCatalog,
        EngineFault::ClockUnavailable,
        EngineFault::UnsupportedTimer,
    ] {
        let mut room = room();
        room.connect(client(Some("Alice"), "pass-a")).unwrap();
        assert!(room.settle(true, Some(fault)));
        assert_eq!(*room.game(), Game::new());
        assert_eq!(room.connect(client(None, "pass-a")).unwrap().player_id, 1);
    }
    let mut room = room();
    room.connect(client(Some("Alice"), "pass-a")).unwrap();
    assert!(room.settle(false, Some(EngineFault::WordOutOfCatalog)));
    assert_eq!(*room.game(), Game::new());
}
