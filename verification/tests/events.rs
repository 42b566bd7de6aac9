use drawduel_engine::events::{
    CeChooseWord, CeDrawOp, CeGuessWord, CeLikeRound, CeRename, CeType, ClientEvent, SeErrorType,
    SePlayerChooseWord, SePlayerDrawOp, SePlayerGuessWord, SePlayerLikeRound, SePlayerRename,
    SeType, ServerEvent,
};
use drawduel_engine::state::{DrawOp, WordChoice};

fn from(player_id: u32, ce_type: CeType) -> SeType {
    ServerEvent::from_client(player_id, ClientEvent { ce_type }).se_type
}

#[test]
fn rename_is_stamped_with_the_sender() {
    assert_eq!(
        from(4, CeType::Rename(CeRename { name: "Dora".to_string() })),
        SeType::PlayerRename(SePlayerRename { player_id: 4, name: "Dora".to_string() })
    );
}

#[test]
fn draw_op_is_stamped_with_the_sender() {
    assert_eq!(
        from(5, CeType::DrawOp(CeDrawOp { draw_op: Some(DrawOp { payload: vec![1, 2] }) })),
        SeType::PlayerDrawOp(SePlayerDrawOp {
            drawer_id: 5,
            draw_op: Some(DrawOp { payload: vec![1, 2] }),
        })
    );
    assert_eq!(
        from(5, CeType::DrawOp(CeDrawOp { draw_op: None })),
        SeType::PlayerDrawOp(SePlayerDrawOp { drawer_id: 5, draw_op: None })
    );
}

#[test]
fn choose_word_is_stamped_with_the_sender() {
    assert_eq!(
        from(6, CeType::ChooseWord(CeChooseWord { choice: WordChoice::Hard })),
        SeType::PlayerChooseWord(SePlayerChooseWord { drawer_id: 6, choice: WordChoice::Hard })
    );
}

#[test]
fn guess_word_is_stamped_with_the_sender() {
    assert_eq!(
        from(7, CeType::GuessWord(CeGuessWord { guess: "tree".to_string(), after_draw_ops: 12 })),
        SeType::PlayerGuessWord(SePlayerGuessWord {
            guesser_id: 7,
            guess: "tree".to_string(),
            after_draw_ops: 12,
        })
    );
}

#[test]
fn like_round_is_stamped_with_the_sender() {
    assert_eq!(
        from(8, CeType::LikeRound(CeLikeRound { round_id: 3 })),
        SeType::PlayerLikeRound(SePlayerLikeRound { player_id: 8, round_id: 3 })
    );
}

#[test]
fn error_types_have_stable_names() {
    assert_eq!(SeErrorType::Unknown.as_str_name(), "UNKNOWN");
    assert_eq!(SeErrorType::AlreadyConnected.as_str_name(), "ALREADY_CONNECTED");
    assert_eq!(SeErrorType::FullGame.as_str_name(), "FULL_GAME");
}

#[test]
fn error_types_are_found_by_their_names() {
    assert_eq!(SeErrorType::from_str_name("UNKNOWN"), Some(SeErrorType::Unknown));
    assert_eq!(SeErrorType::from_str_name("ALREADY_CONNECTED"), Some(SeErrorType::AlreadyConnected));
    assert_eq!(SeErrorType::from_str_name("FULL_GAME"), Some(SeErrorType::FullGame));
}

#[test]
fn other_texts_name_no_error_type() {
    for text in ["", "unknown", "FULL_GAME ", "FULLGAME", "Unknown", "ALREADY"] {
        assert_eq!(SeErrorType::from_str_name(text), None);
    }
}

#[test]
fn error_type_names_round_trip() {
    for reason in [SeErrorType::Unknown, SeErrorType::AlreadyConnected, SeErrorType::FullGame] {
        assert_eq!(SeErrorType::from_str_name(reason.as_str_name()), Some(reason));
    }
}

#[test]
fn error_types_have_their_status() {
    assert_eq!(SeErrorType::AlreadyConnected.http_status(), 409);
    assert_eq!(SeErrorType::FullGame.http_status(), 500);
    assert_eq!(SeErrorType::Unknown.http_status(), 500);
}
