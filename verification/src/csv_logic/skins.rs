//! The catalogue of skins. Each character names the skin it wears by default.
//!
//! These lookups never fail. They take a row that could not be read for a
//! row without fields; a reader that leaves such rows out gets the lookups
//! of the catalogue without them.

use crate::csv_logic::table::{
    all_ids, entries, field, field_or_empty, first_true, lemma_first_true_found,
    lemma_first_true_next, lemma_matching_next, matching, parsed_i32, text_eq,
    text_number_or_zero, Table, TableView,
};
use vstd::prelude::*;

verus! {

/// Column of a skin's name.
pub const NAME: usize = 0;

/// Column of the character that a skin is for.
pub const CHARACTER: usize = 1;

/// Column of a skin's price.
pub const PRICE: usize = 3;

/// Column of a character's name, in the catalogue of characters.
pub const CHARACTER_NAME: usize = 0;

/// Column of a character's default skin, in the catalogue of characters.
pub const DEFAULT_SKIN: usize = 20;

/// Lookups in the catalogue of skins.
pub struct Skins;

impl Skins {
    /// For each character, whether it is the character `name`. A character
    /// without a name goes by the empty one.
    pub open spec fn character_named(characters: TableView, name: Seq<char>) -> Seq<bool> {
        Seq::new(
            entries(characters),
            |i: int| field_or_empty(characters, i, CHARACTER_NAME as int) == name,
        )
    }

    /// For each character, whether `skin` is its default skin.
    pub open spec fn default_of(characters: TableView, skin: Seq<char>) -> Seq<bool> {
        Seq::new(
            entries(characters),
            |i: int| field_or_empty(characters, i, DEFAULT_SKIN as int) == skin,
        )
    }

    /// Whether `skin` is the default skin of some character.
    pub open spec fn is_default(characters: TableView, skin: Seq<char>) -> bool {
        first_true(Self::default_of(characters, skin)) is Some
    }

    /// For each skin, whether it is for sale: it belongs to a character and
    /// is no character's default.
    pub open spec fn non_default(skins: TableView, characters: TableView) -> Seq<bool> {
        Seq::new(
            entries(skins),
            |i: int|
                !Self::is_default(characters, field_or_empty(skins, i, NAME as int))
                    && field_or_empty(skins, i, CHARACTER as int).len() > 0,
        )
    }

    /// The character that wears the skin `skin_id`: the first character of
    /// the name that the skin gives. 0 where there is no such skin or no
    /// such character.
    pub open spec fn brawler_of(skins: TableView, characters: TableView, skin_id: int) -> int {
        if 0 <= skin_id < entries(skins) {
            match first_true(
                Self::character_named(characters, field_or_empty(skins, skin_id, CHARACTER as int)),
            ) {
                Some(i) => i,
                None => 0,
            }
        } else {
            0
        }
    }

    /// The price of the skin `skin_id`. 0 where there is no such skin or
    /// its price is no number; a skin without a price field costs nothing.
    pub open spec fn price_of(skins: TableView, skin_id: int) -> i32 {
        match field(skins, skin_id, PRICE as int) {
            Some(price) => match parsed_i32(price) {
                Some(n) => n,
                None => 0,
            },
            None => 0,
        }
    }

    /// The identifiers of all skins.
    pub fn get_skins(skins: &Table) -> (ids: Vec<usize>)
        ensures
            ids@ == all_ids(entries(skins@)),
    {
        skins.ids()
    }

    /// The character that wears the skin `skin_id`.
    pub fn get_brawler(skins: &Table, characters: &Table, skin_id: usize) -> (brawler: usize)
        ensures
            brawler == Self::brawler_of(skins@, characters@, skin_id as int),
    {
        if skin_id >= skins.len() {
            return 0;
        }
        let target = skins.field_or_empty(skin_id, CHARACTER);
        let ghost flags = Self::character_named(characters@, target@);
        let n = characters.len();
        let mut i: usize = 0;
        while i < n
            invariant
                i <= n,
                n == entries(characters@),
                flags == Self::character_named(characters@, target@),
                skin_id < entries(skins@),
                target@ == field_or_empty(skins@, skin_id as int, CHARACTER as int),
                first_true(flags.take(i as int)) is None,
            decreases n - i,
        {
            if text_eq(characters.field_or_empty(i, CHARACTER_NAME), target) {
                proof {
                    lemma_first_true_found(flags, i as int);
                }
                return i;
            }
            proof {
                lemma_first_true_next(flags, i as int);
            }
            i += 1;
        }
        assert(flags.take(n as int) =~= flags);
        0
    }

    /// Whether `skin` is the default skin of some character.
    fn is_default_name(characters: &Table, skin: &str) -> (default: bool)
        ensures
            default == Self::is_default(characters@, skin@),
    {
        let ghost flags = Self::default_of(characters@, skin@);
        let n = characters.len();
        let mut i: usize = 0;
        while i < n
            invariant
                i <= n,
                n == entries(characters@),
                flags == Self::default_of(characters@, skin@),
                first_true(flags.take(i as int)) is None,
            decreases n - i,
        {
            if text_eq(characters.field_or_empty(i, DEFAULT_SKIN), skin) {
                proof {
                    lemma_first_true_found(flags, i as int);
                }
                return true;
            }
            proof {
                lemma_first_true_next(flags, i as int);
            }
            i += 1;
        }
        assert(flags.take(n as int) =~= flags);
        false
    }

    /// The skins that are for sale.
    pub fn get_non_default_skins(skins: &Table, characters: &Table) -> (ids: Vec<usize>)
        ensures
            ids@ == matching(Self::non_default(skins@, characters@)),
    {
        let ghost flags = Self::non_default(skins@, characters@);
        let n = skins.len();
        let mut ids: Vec<usize> = Vec::new();
        let mut i: usize = 0;
        while i < n
            invariant
                i <= n,
                n == entries(skins@),
                flags == Self::non_default(skins@, characters@),
                ids@ == matching(flags.take(i as int)),
            decreases n - i,
        {
            let name = skins.field_or_empty(i, NAME);
            let second = skins.field_or_empty(i, CHARACTER);
            let for_sale = !Self::is_default_name(characters, name) && !second.is_empty();
            proof {
                lemma_matching_next(flags, i as int);
            }
            if for_sale {
                ids.push(i);
            }
            i += 1;
        }
        assert(flags.take(n as int) =~= flags);
        ids
    }

    /// The price of the skin `skin_id`.
    pub fn get_skin_price(skins: &Table, skin_id: usize) -> (price: i32)
        ensures
            price == Self::price_of(skins@, skin_id as int),
    {
        match skins.field(skin_id, PRICE) {
            Some(price) => text_number_or_zero(price),
            None => 0,
        }
    }

    /// Whether the skin `skin_id` is the default skin of some character.
    /// No skin that the catalogue does not hold is.
    pub fn get_is_default_skin(skins: &Table, characters: &Table, skin_id: usize) -> (default:
        bool)
        ensures
            default == (0 <= skin_id < entries(skins@) && Self::is_default(
                characters@,
                field_or_empty(skins@, skin_id as int, NAME as int),
            )),
    {
        if skin_id >= skins.len() {
            return false;
        }
        Self::is_default_name(characters, skins.field_or_empty(skin_id, NAME))
    }
}

} // verus!
