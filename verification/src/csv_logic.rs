//! Lookups in the game's catalogue: cards, characters, skins and locations.
//!
//! A catalogue file is a table whose first two rows are headings. The
//! caller reads the files; the lookups work on the rows.

pub mod cards;
pub mod characters;
pub mod locations;
pub mod skins;
pub mod table;

pub use cards::Cards;
pub use characters::Characters;
pub use locations::Locations;
pub use skins::Skins;
pub use table::Table;
