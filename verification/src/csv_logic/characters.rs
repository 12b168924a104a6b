//! The catalogue of characters.

use crate::csv_logic::table::{
    entries, field, first_true, lemma_first_true_found, lemma_first_true_next, lemma_matching_next,
    matching, says_true, scan_all, scan_first, stops, text_eq, text_says_true, unreadable_entries,
    Table, TableView, Unreadable,
};
use vstd::prelude::*;

verus! {

/// Column of a character's name.
pub const NAME: usize = 0;

/// Column that says whether a character is disabled.
pub const DISABLED: usize = 1;

/// Column of a character's kind.
pub const KIND: usize = 18;

/// Lookups in the catalogue of characters.
pub struct Characters;

impl Characters {
    /// For each entry, whether it is the character `name`.
    pub open spec fn named(characters: TableView, name: Seq<char>) -> Seq<bool> {
        Seq::new(
            entries(characters),
            |i: int| field(characters, i, NAME as int) == Some(name),
        )
    }

    /// The first entry of the name `name`, or none; a failure where an
    /// entry in front of it could not be read.
    pub open spec fn by_name(characters: TableView, name: Seq<char>) -> Result<
        Option<int>,
        Unreadable,
    > {
        scan_first(characters, Self::named(characters, name))
    }

    /// Whether the first character of the name `brawler` is disabled. A
    /// character that the catalogue does not hold, or whose entry does not
    /// say, is not. A failure where the search for the character fails.
    pub open spec fn disabled(characters: TableView, brawler: Seq<char>) -> Result<bool, Unreadable> {
        match Self::by_name(characters, brawler) {
            Ok(Some(i)) => Ok(
                match field(characters, i, DISABLED as int) {
                    Some(flag) => says_true(flag),
                    None => false,
                },
            ),
            Ok(None) => Ok(false),
            Err(error) => Err(error),
        }
    }

    /// For each entry, whether it is a fighter that players can have: a
    /// hero that is not disabled.
    pub open spec fn heroes(characters: TableView) -> Seq<bool> {
        Seq::new(
            entries(characters),
            |i: int|
                field(characters, i, KIND as int) == Some("Hero"@) && (field(
                    characters,
                    i,
                    DISABLED as int,
                ) matches Some(flag) && !says_true(flag)),
        )
    }

    /// Whether the character `brawler` is disabled.
    pub fn is_disabled(characters: &Table, brawler: &str) -> (disabled: Result<bool, Unreadable>)
        ensures
            disabled == Self::disabled(characters@, brawler@),
    {
        match Self::get_character_by_name(characters, brawler) {
            Ok(Some(i)) => match characters.field(i, DISABLED) {
                Some(flag) => Ok(text_says_true(flag)),
                None => Ok(false),
            },
            Ok(None) => Ok(false),
            Err(error) => Err(error),
        }
    }

    /// The first entry of the name `name`.
    pub fn get_character_by_name(characters: &Table, name: &str) -> (found: Result<
        Option<usize>,
        Unreadable,
    >)
        ensures
            match found {
                Ok(Some(i)) => Self::by_name(characters@, name@) == Ok::<Option<int>, Unreadable>(
                    Some(i as int),
                ),
                Ok(None) => Self::by_name(characters@, name@) == Ok::<Option<int>, Unreadable>(
                    None,
                ),
                Err(_) => Self::by_name(characters@, name@) is Err,
            },
    {
        let ghost stop = stops(characters@, Self::named(characters@, name@));
        let n = characters.len();
        let mut i: usize = 0;
        while i < n
            invariant
                i <= n,
                n == entries(characters@),
                stop == stops(characters@, Self::named(characters@, name@)),
                first_true(stop.take(i as int)) is None,
            decreases n - i,
        {
            if characters.is_unreadable(i) {
                proof {
                    lemma_first_true_found(stop, i as int);
                }
                return Err(Unreadable);
            }
            let is_named = match characters.field(i, NAME) {
                Some(text) => text_eq(text, name),
                None => false,
            };
            if is_named {
                proof {
                    lemma_first_true_found(stop, i as int);
                }
                return Ok(Some(i));
            }
            proof {
                lemma_first_true_next(stop, i as int);
            }
            i += 1;
        }
        assert(stop.take(n as int) =~= stop);
        Ok(None)
    }

    /// The fighters that players can have. A failure where an entry could
    /// not be read.
    pub fn get_brawlers(characters: &Table) -> (brawlers: Result<Vec<usize>, Unreadable>)
        ensures
            match brawlers {
                Ok(ids) => scan_all(unreadable_entries(characters@), Self::heroes(characters@))
                    == Ok::<Seq<usize>, Unreadable>(ids@),
                Err(_) => scan_all(unreadable_entries(characters@), Self::heroes(characters@))
                    is Err,
            },
    {
        let ghost flags = Self::heroes(characters@);
        let ghost fails = unreadable_entries(characters@);
        let n = characters.len();
        let mut brawlers: Vec<usize> = Vec::new();
        let mut i: usize = 0;
        while i < n
            invariant
                i <= n,
                n == entries(characters@),
                flags == Self::heroes(characters@),
                fails == unreadable_entries(characters@),
                first_true(fails.take(i as int)) is None,
                brawlers@ == matching(flags.take(i as int)),
            decreases n - i,
        {
            if characters.is_unreadable(i) {
                proof {
                    lemma_first_true_found(fails, i as int);
                }
                return Err(Unreadable);
            }
            let is_hero = match (characters.field(i, KIND), characters.field(i, DISABLED)) {
                (Some(kind), Some(flag)) => text_eq(kind, "Hero") && !text_says_true(flag),
                _ => false,
            };
            proof {
                lemma_matching_next(flags, i as int);
                lemma_first_true_next(fails, i as int);
            }
            if is_hero {
                brawlers.push(i);
            }
            i += 1;
        }
        assert(flags.take(n as int) =~= flags);
        assert(fails.take(n as int) =~= fails);
        Ok(brawlers)
    }
}

} // verus!
