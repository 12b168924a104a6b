//! The catalogue of locations.

use crate::csv_logic::table::{
    entries, field_or_empty, first_true, lemma_matching_next, matching, scan_all, text_eq,
    unreadable_rows, Table, TableView, Unreadable,
};
use vstd::prelude::*;

verus! {

/// Lookups in the catalogue of locations.
pub struct Locations;

impl Locations {
    /// For each location, whether matches are played there: everywhere but
    /// in the tutorial.
    pub open spec fn playable(locations: TableView) -> Seq<bool> {
        Seq::new(entries(locations), |i: int| field_or_empty(locations, i, 0) != "Tutorial"@)
    }

    /// The locations where matches are played. A failure where any row of
    /// the catalogue, a heading too, could not be read.
    pub fn get_locations(locations: &Table) -> (ids: Result<Vec<usize>, Unreadable>)
        ensures
            match ids {
                Ok(ids) => scan_all(unreadable_rows(locations@), Self::playable(locations@))
                    == Ok::<Seq<usize>, Unreadable>(ids@),
                Err(_) => scan_all(unreadable_rows(locations@), Self::playable(locations@))
                    is Err,
            },
    {
        if locations.any_unreadable_row() {
            return Err(Unreadable);
        }
        let ghost flags = Self::playable(locations@);
        let n = locations.len();
        let mut ids: Vec<usize> = Vec::new();
        let mut i: usize = 0;
        while i < n
            invariant
                i <= n,
                n == entries(locations@),
                flags == Self::playable(locations@),
                first_true(unreadable_rows(locations@)) is None,
                ids@ == matching(flags.take(i as int)),
            decreases n - i,
        {
            let tutorial = text_eq(locations.field_or_empty(i, 0), "Tutorial");
            proof {
                lemma_matching_next(flags, i as int);
            }
            if !tutorial {
                ids.push(i);
            }
            i += 1;
        }
        assert(flags.take(n as int) =~= flags);
        Ok(ids)
    }
}

} // verus!
