use drawduel_engine::names::default_name;
use drawduel_engine::state::WordChoice;
use drawduel_engine::words::{random_easy_word, random_hard_word, WordCatalog};

fn catalog() -> WordCatalog {
    WordCatalog::new(
        vec!["cat".to_string(), "dog".to_string()],
        vec!["anchor".to_string(), "bridge".to_string(), "castle".to_string()],
    )
}

#[test]
fn word_is_found_by_difficulty_and_position() {
    let words = catalog();
    assert_eq!(words.word(WordChoice::Easy, 0).map(String::as_str), Some("cat"));
    assert_eq!(words.word(WordChoice::Easy, 1).map(String::as_str), Some("dog"));
    assert_eq!(words.word(WordChoice::Hard, 0).map(String::as_str), Some("anchor"));
    assert_eq!(words.word(WordChoice::Hard, 2).map(String::as_str), Some("castle"));
}

#[test]
fn word_past_the_end_of_its_list_is_none() {
    let words = catalog();
    assert_eq!(words.word(WordChoice::Easy, 2), None);
    assert_eq!(words.word(WordChoice::Hard, 3), None);
    assert_eq!(words.word(WordChoice::Hard, u32::MAX), None);
}

#[test]
fn random_words_come_from_their_own_list() {
    let words = catalog();
    let mut seen_easy = [false; 2];
    let mut seen_hard = [false; 3];
    for _ in 0..400 {
        let easy = random_easy_word(&words).unwrap();
        let at = words.easy.iter().position(|w| w == easy).unwrap();
        seen_easy[at] = true;
        let hard = random_hard_word(&words).unwrap();
        let at = words.hard.iter().position(|w| w == hard).unwrap();
        seen_hard[at] = true;
    }
    // with 400 draws each word of so short a list comes up
    assert_eq!(seen_easy, [true; 2]);
    assert_eq!(seen_hard, [true; 3]);
}

#[test]
fn random_word_of_an_empty_list_is_none() {
    let words = WordCatalog::new(vec![], vec!["anchor".to_string()]);
    assert_eq!(random_easy_word(&words), None);
    assert_eq!(random_hard_word(&words).map(String::as_str), Some("anchor"));
    let words = WordCatalog::new(vec!["cat".to_string()], vec![]);
    assert_eq!(random_hard_word(&words), None);
    assert_eq!(random_easy_word(&words).map(String::as_str), Some("cat"));
}

#[test]
fn default_names_have_at_least_two_digits() {
    assert_eq!(default_name(0), "player00");
    assert_eq!(default_name(7), "player07");
    assert_eq!(default_name(9), "player09");
    assert_eq!(default_name(10), "player10");
    assert_eq!(default_name(42), "player42");
    assert_eq!(default_name(100), "player100");
    assert_eq!(default_name(90_210), "player90210");
    assert_eq!(default_name(u32::MAX), "player4294967295");
}
