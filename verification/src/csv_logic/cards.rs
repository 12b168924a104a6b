//! The catalogue of cards. A fighter is unlocked by a card of its own.

use crate::csv_logic::characters::Characters;
use crate::csv_logic::table::{
    all_ids, entries, field, first_true, lemma_first_true_found, lemma_first_true_next,
    lemma_matching_next, matching, scan_all, scan_first, stops, text_eq, unreadable, Table,
    TableView, Unreadable,
};
use vstd::prelude::*;

verus! {

/// Column of the fighter that a card belongs to.
pub const BRAWLER: usize = 3;

/// Column of what a card does.
pub const EFFECT: usize = 5;

/// Column of a card's rarity.
pub const RARITY: usize = 10;

/// Lookups in the catalogue of cards.
pub struct Cards;

impl Cards {
    /// Whether the card `id` unlocks its fighter.
    pub open spec fn unlocks(cards: TableView, id: int) -> bool {
        field(cards, id, EFFECT as int) == Some("unlock"@)
    }

    /// For each card, whether it unlocks the fighter `brawler`.
    pub open spec fn unlocking(cards: TableView, brawler: Seq<char>) -> Seq<bool> {
        Seq::new(
            entries(cards),
            |i: int| field(cards, i, BRAWLER as int) == Some(brawler) && Self::unlocks(cards, i),
        )
    }

    /// The card that unlocks the fighter of the card `card`: the card
    /// itself where it unlocks, else the first card of the same fighter
    /// that does. A failure where the card could not be read, or a card in
    /// front of the one that is looked for.
    pub open spec fn unlock_of(cards: TableView, card: int) -> Result<Option<int>, Unreadable> {
        if unreadable(cards, card) {
            Err(Unreadable)
        } else if Self::unlocks(cards, card) {
            Ok(Some(card))
        } else {
            match field(cards, card, BRAWLER as int) {
                Some(brawler) => scan_first(cards, Self::unlocking(cards, brawler)),
                None => Ok(None),
            }
        }
    }

    /// The character that the card `card` belongs to. A failure where the
    /// card could not be read, or the search for the character fails.
    pub open spec fn brawler_id_of(cards: TableView, characters: TableView, card: int) -> Result<
        Option<int>,
        Unreadable,
    > {
        if unreadable(cards, card) {
            Err(Unreadable)
        } else {
            match field(cards, card, BRAWLER as int) {
                Some(name) => Characters::by_name(characters, name),
                None => Ok(None),
            }
        }
    }

    /// For each card, the fighter that it unlocks, if it unlocks one.
    pub open spec fn unlocked(cards: TableView) -> Seq<Option<Seq<char>>> {
        Seq::new(
            entries(cards),
            |i: int|
                if Self::unlocks(cards, i) {
                    field(cards, i, BRAWLER as int)
                } else {
                    None
                },
        )
    }

    /// For each card, the fighter of the rarity `rarity` that it unlocks,
    /// if it unlocks one.
    pub open spec fn unlocked_with_rarity(cards: TableView, rarity: Seq<char>) -> Seq<
        Option<Seq<char>>,
    > {
        Seq::new(
            entries(cards),
            |i: int|
                if Self::unlocks(cards, i) && field(cards, i, RARITY as int) == Some(rarity) {
                    field(cards, i, BRAWLER as int)
                } else {
                    None
                },
        )
    }

    /// For each card, whether a lookup that goes by `candidates` fails
    /// there: the card could not be read, or the question whether its
    /// candidate is disabled could not be answered.
    pub open spec fn failing(
        cards: TableView,
        characters: TableView,
        candidates: Seq<Option<Seq<char>>>,
    ) -> Seq<bool>
        recommends
            candidates.len() == entries(cards),
    {
        Seq::new(
            entries(cards),
            |i: int|
                unreadable(cards, i) || (candidates[i] matches Some(name) && Characters::disabled(
                    characters,
                    name,
                ) is Err),
        )
    }

    /// For each candidate, whether it is there and is not disabled.
    pub open spec fn enabled(characters: TableView, candidates: Seq<Option<Seq<char>>>) -> Seq<
        bool,
    > {
        Seq::new(
            candidates.len(),
            |i: int|
                candidates[i] matches Some(name) && Characters::disabled(characters, name) == Ok::<
                    bool,
                    Unreadable,
                >(false),
        )
    }

    /// The identifiers of all cards. Cards that could not be read count.
    pub fn get_cards(cards: &Table) -> (ids: Vec<usize>)
        ensures
            ids@ == all_ids(entries(cards@)),
    {
        cards.ids()
    }

    /// The rarity of the card `id`. A failure where the card could not be read.
    pub fn get_brawler_rarity(cards: &Table, id: usize) -> (rarity: Result<
        Option<String>,
        Unreadable,
    >)
        ensures
            rarity is Err <==> unreadable(cards@, id as int),
            match rarity {
                Ok(Some(text)) => field(cards@, id as int, RARITY as int) == Some(text@),
                Ok(None) => field(cards@, id as int, RARITY as int) is None,
                Err(_) => true,
            },
    {
        if cards.is_unreadable(id) {
            return Err(Unreadable);
        }
        match cards.field(id, RARITY) {
            Some(text) => Ok(Some(text.to_owned())),
            None => Ok(None),
        }
    }

    /// The card that unlocks the fighter of the card `card`.
    pub fn get_unlock(cards: &Table, card: usize) -> (unlock: Result<Option<usize>, Unreadable>)
        ensures
            match unlock {
                Ok(Some(id)) => Self::unlock_of(cards@, card as int) == Ok::<
                    Option<int>,
                    Unreadable,
                >(Some(id as int)),
                Ok(None) => Self::unlock_of(cards@, card as int) == Ok::<Option<int>, Unreadable>(
                    None,
                ),
                Err(_) => Self::unlock_of(cards@, card as int) is Err,
            },
    {
        if cards.is_unreadable(card) {
            return Err(Unreadable);
        }
        if Self::unlocks_at(cards, card) {
            return Ok(Some(card));
        }
        let brawler = match cards.field(card, BRAWLER) {
            Some(brawler) => brawler,
            None => {
                return Ok(None);
            },
        };
        let ghost stop = stops(cards@, Self::unlocking(cards@, brawler@));
        let n = cards.len();
        let mut i: usize = 0;
        while i < n
            invariant
                i <= n,
                n == entries(cards@),
                stop == stops(cards@, Self::unlocking(cards@, brawler@)),
                !unreadable(cards@, card as int),
                !Self::unlocks(cards@, card as int),
                field(cards@, card as int, BRAWLER as int) == Some(brawler@),
                first_true(stop.take(i as int)) is None,
            decreases n - i,
        {
            if cards.is_unreadable(i) {
                proof {
                    lemma_first_true_found(stop, i as int);
                }
                return Err(Unreadable);
            }
            let same_brawler = match cards.field(i, BRAWLER) {
                Some(text) => text_eq(text, brawler),
                None => false,
            };
            if same_brawler && Self::unlocks_at(cards, i) {
                proof {
                    lemma_first_true_found(stop, i as int);
                }
                return Ok(Some(i));
            }
            proof {
                lemma_first_true_next(stop, i as int);
            }
            i += 1;
        }
        assert(stop.take(n as int) =~= stop);
        Ok(None)
    }

    /// Whether the card `id` unlocks its fighter. A failure where the card
    /// could not be read.
    pub fn is_unlock(cards: &Table, id: usize) -> (unlocks: Result<bool, Unreadable>)
        ensures
            unlocks == if unreadable(cards@, id as int) {
                Err::<bool, Unreadable>(Unreadable)
            } else {
                Ok(Self::unlocks(cards@, id as int))
            },
    {
        if cards.is_unreadable(id) {
            Err(Unreadable)
        } else {
            Ok(Self::unlocks_at(cards, id))
        }
    }

    /// Whether the card `id` unlocks its fighter; a card that could not be
    /// read does not.
    fn unlocks_at(cards: &Table, id: usize) -> (unlocks: bool)
        ensures
            unlocks == Self::unlocks(cards@, id as int),
    {
        match cards.field(id, EFFECT) {
            Some(effect) => text_eq(effect, "unlock"),
            None => false,
        }
    }

    /// The character that the card `card` belongs to.
    pub fn get_brawler_id(cards: &Table, characters: &Table, card: usize) -> (brawler: Result<
        Option<usize>,
        Unreadable,
    >)
        ensures
            match brawler {
                Ok(Some(id)) => Self::brawler_id_of(cards@, characters@, card as int) == Ok::<
                    Option<int>,
                    Unreadable,
                >(Some(id as int)),
                Ok(None) => Self::brawler_id_of(cards@, characters@, card as int) == Ok::<
                    Option<int>,
                    Unreadable,
                >(None),
                Err(_) => Self::brawler_id_of(cards@, characters@, card as int) is Err,
            },
    {
        if cards.is_unreadable(card) {
            return Err(Unreadable);
        }
        match cards.field(card, BRAWLER) {
            Some(name) => Characters::get_character_by_name(characters, name),
            None => Ok(None),
        }
    }

    /// The cards that unlock a fighter that is not disabled. A failure
    /// where a card could not be read, or the question whether a fighter is
    /// disabled could not be answered.
    pub fn get_brawlers(cards: &Table, characters: &Table) -> (brawlers: Result<
        Vec<usize>,
        Unreadable,
    >)
        ensures
            match brawlers {
                Ok(ids) => scan_all(
                    Self::failing(cards@, characters@, Self::unlocked(cards@)),
                    Self::enabled(characters@, Self::unlocked(cards@)),
                ) == Ok::<Seq<usize>, Unreadable>(ids@),
                Err(_) => scan_all(
                    Self::failing(cards@, characters@, Self::unlocked(cards@)),
                    Self::enabled(characters@, Self::unlocked(cards@)),
                ) is Err,
            },
    {
        let ghost candidates = Self::unlocked(cards@);
        let ghost fails = Self::failing(cards@, characters@, candidates);
        let ghost found = Self::enabled(characters@, candidates);
        let n = cards.len();
        let mut brawlers: Vec<usize> = Vec::new();
        let mut i: usize = 0;
        while i < n
            invariant
                i <= n,
                n == entries(cards@),
                candidates == Self::unlocked(cards@),
                fails == Self::failing(cards@, characters@, candidates),
                found == Self::enabled(characters@, candidates),
                first_true(fails.take(i as int)) is None,
                brawlers@ == matching(found.take(i as int)),
            decreases n - i,
        {
            if cards.is_unreadable(i) {
                proof {
                    lemma_first_true_found(fails, i as int);
                }
                return Err(Unreadable);
            }
            let candidate = if Self::unlocks_at(cards, i) {
                cards.field(i, BRAWLER)
            } else {
                None
            };
            let enabled = match candidate {
                Some(name) => match Characters::is_disabled(characters, name) {
                    Ok(disabled) => !disabled,
                    Err(error) => {
                        proof {
                            lemma_first_true_found(fails, i as int);
                        }
                        return Err(error);
                    },
                },
                None => false,
            };
            proof {
                lemma_matching_next(found, i as int);
                lemma_first_true_next(fails, i as int);
            }
            if enabled {
                brawlers.push(i);
            }
            i += 1;
        }
        assert(found.take(n as int) =~= found);
        assert(fails.take(n as int) =~= fails);
        Ok(brawlers)
    }

    /// The cards that unlock a fighter of the rarity `rarity` that is not
    /// disabled. A failure where a card could not be read, or the question
    /// whether a fighter is disabled could not be answered.
    pub fn get_brawlers_with_rarity(cards: &Table, characters: &Table, rarity: &str) -> (brawlers:
        Result<Vec<usize>, Unreadable>)
        ensures
            match brawlers {
                Ok(ids) => scan_all(
                    Self::failing(
                        cards@,
                        characters@,
                        Self::unlocked_with_rarity(cards@, rarity@),
                    ),
                    Self::enabled(characters@, Self::unlocked_with_rarity(cards@, rarity@)),
                ) == Ok::<Seq<usize>, Unreadable>(ids@),
                Err(_) => scan_all(
                    Self::failing(
                        cards@,
                        characters@,
                        Self::unlocked_with_rarity(cards@, rarity@),
                    ),
                    Self::enabled(characters@, Self::unlocked_with_rarity(cards@, rarity@)),
                ) is Err,
            },
    {
        let ghost candidates = Self::unlocked_with_rarity(cards@, rarity@);
        let ghost fails = Self::failing(cards@, characters@, candidates);
        let ghost found = Self::enabled(characters@, candidates);
        let n = cards.len();
        let mut brawlers: Vec<usize> = Vec::new();
        let mut i: usize = 0;
        while i < n
            invariant
                i <= n,
                n == entries(cards@),
                candidates == Self::unlocked_with_rarity(cards@, rarity@),
                fails == Self::failing(cards@, characters@, candidates),
                found == Self::enabled(characters@, candidates),
                first_true(fails.take(i as int)) is None,
                brawlers@ == matching(found.take(i as int)),
            decreases n - i,
        {
            if cards.is_unreadable(i) {
                proof {
                    lemma_first_true_found(fails, i as int);
                }
                return Err(Unreadable);
            }
            let of_rarity = match cards.field(i, RARITY) {
                Some(card_rarity) => text_eq(card_rarity, rarity),
                None => false,
            };
            let candidate = if Self::unlocks_at(cards, i) && of_rarity {
                cards.field(i, BRAWLER)
            } else {
                None
            };
            let enabled = match candidate {
                Some(name) => match Characters::is_disabled(characters, name) {
                    Ok(disabled) => !disabled,
                    Err(error) => {
                        proof {
                            lemma_first_true_found(fails, i as int);
                        }
                        return Err(error);
                    },
                },
                None => false,
            };
            proof {
                lemma_matching_next(found, i as int);
                lemma_first_true_next(fails, i as int);
            }
            if enabled {
                brawlers.push(i);
            }
            i += 1;
        }
        assert(found.take(n as int) =~= found);
        assert(fails.take(n as int) =~= fails);
        Ok(brawlers)
    }
}

} // verus!
