use crate::state::{WordChoice, WordIdx};
use vstd::prelude::*;

verus! {

/// The word lists of the game. A round refers to its words by their
/// positions in these lists.
#[derive(Debug, PartialEq)]
pub struct WordCatalog {
    pub easy: Vec<String>,
    pub hard: Vec<String>,
}

/// The mathematical value of a [`WordCatalog`].
pub struct WordCatalogView {
    pub easy: Seq<Seq<char>>,
    pub hard: Seq<Seq<char>>,
}

impl WordCatalogView {
    /// The list for the given difficulty.
    pub open spec fn list(self, choice: WordChoice) -> Seq<Seq<char>> {
        match choice {
            WordChoice::Easy => self.easy,
            WordChoice::Hard => self.hard,
        }
    }

    /// The word at `idx` of the list for `choice`, if the list is that long.
    pub open spec fn word(self, choice: WordChoice, idx: WordIdx) -> Option<Seq<char>> {
        if idx < self.list(choice).len() {
            Some(self.list(choice)[idx as int])
        } else {
            None
        }
    }
}

/// The texts of `words`.
pub open spec fn texts(words: Seq<String>) -> Seq<Seq<char>> {
    words.map_values(|w: String| w@)
}

impl View for WordCatalog {
    type V = WordCatalogView;

    open spec fn view(&self) -> WordCatalogView {
        WordCatalogView { easy: texts(self.easy@), hard: texts(self.hard@) }
    }
}

impl WordCatalog {
    /// The catalog with the given lists.
    pub fn new(easy: Vec<String>, hard: Vec<String>) -> (catalog: Self)
        ensures
            catalog@.easy == texts(easy@),
            catalog@.hard == texts(hard@),
    {
        WordCatalog { easy, hard }
    }

    /// The word at `idx` of the list for `choice`, if the list is that long.
    pub fn word(&self, choice: WordChoice, idx: WordIdx) -> (word: Option<&String>)
        ensures
            match word {
                Some(w) => self@.word(choice, idx) == Some(w@),
                None => self@.word(choice, idx) is None,
            },
    {
        let list = match choice {
            WordChoice::Easy => &self.easy,
            WordChoice::Hard => &self.hard,
        };
        let at = idx as usize;
        if at < list.len() {
            Some(&list[at])
        } else {
            None
        }
    }
}

/// Picks a position below `len` at random with `fastrand::choice` on the
/// range `0..len`. That function gives `None` for an empty range and
/// otherwise the item at a position that it draws inside the range; which
/// one is not stated.
#[verifier::external_body]
fn pick_position(len: usize) -> (position: Option<usize>)
    ensures
        match position {
            Some(at) => at < len,
            None => len == 0,
        },
{
    fastrand::choice(0..len)
}

/// One of `words`, picked at random; `None` where there is none.
fn random_word(words: &Vec<String>) -> (word: Option<&String>)
    ensures
        match word {
            Some(w) => texts(words@).contains(w@),
            None => words@.len() == 0,
        },
{
    match pick_position(words.len()) {
        Some(at) => {
            assert(texts(words@)[at as int] == words@[at as int]@);
            Some(&words[at])
        },
        None => None,
    }
}

/// One of the easy words, picked at random; `None` where the catalog has
/// no easy word.
pub fn random_easy_word(catalog: &WordCatalog) -> (word: Option<&String>)
    ensures
        match word {
            Some(w) => catalog@.easy.contains(w@),
            None => catalog@.easy.len() == 0,
        },
{
    random_word(&catalog.easy)
}

/// One of the hard words, picked at random; `None` where the catalog has
/// no hard word.
pub fn random_hard_word(catalog: &WordCatalog) -> (word: Option<&String>)
    ensures
        match word {
            Some(w) => catalog@.hard.contains(w@),
            None => catalog@.hard.len() == 0,
        },
{
    random_word(&catalog.hard)
}

} // verus!
