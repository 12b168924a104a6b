//! The rows of a catalogue file, and the text operations that the lookups need.

use vstd::prelude::*;
use vstd::string::StringSliceAdditionalSpecFns;
use vstd::utf8::{encode_utf8, encode_utf8_decode_utf8};

verus! {

/// Number of heading rows at the top of every catalogue file.
pub const HEADING_ROWS: usize = 2;

/// A catalogue as a mathematical value: rows of fields of characters. A
/// row that could not be read is `None`.
pub type TableView = Seq<Option<Seq<Seq<char>>>>;

/// The rows of a catalogue file, headings included, each row as its fields.
/// A row that could not be read keeps its place as `None`.
pub struct Table {
    pub rows: Vec<Option<Vec<String>>>,
}

impl View for Table {
    type V = TableView;

    open spec fn view(&self) -> TableView {
        Seq::new(
            self.rows@.len(),
            |r: int|
                match self.rows@[r] {
                    Some(row) => Some(Seq::new(row@.len(), |c: int| row@[c]@)),
                    None => None,
                },
        )
    }
}

/// A lookup came to a row that could not be read.
#[derive(Clone, Copy, Debug, PartialEq, Eq, Structural)]
pub struct Unreadable;

/// Number of entries of a catalogue: its rows without the headings.
pub open spec fn entries(table: TableView) -> nat {
    if table.len() >= HEADING_ROWS {
        (table.len() - HEADING_ROWS) as nat
    } else {
        0
    }
}

/// Whether the entry `id` is there but could not be read.
pub open spec fn unreadable(table: TableView, id: int) -> bool {
    0 <= id < entries(table) && table[id + HEADING_ROWS] is None
}

/// The field `col` of the entry `id`, where there is one.
pub open spec fn field(table: TableView, id: int, col: int) -> Option<Seq<char>> {
    if 0 <= id < entries(table) {
        match table[id + HEADING_ROWS] {
            Some(row) => if 0 <= col < row.len() {
                Some(row[col])
            } else {
                None
            },
            None => None,
        }
    } else {
        None
    }
}

/// For each entry, whether it could not be read.
pub open spec fn unreadable_entries(table: TableView) -> Seq<bool> {
    Seq::new(entries(table), |i: int| unreadable(table, i))
}

/// For each row, headings included, whether it could not be read.
pub open spec fn unreadable_rows(table: TableView) -> Seq<bool> {
    Seq::new(table.len(), |r: int| table[r] is None)
}

/// For each entry, whether a search for the entries of `found` stops
/// there: at an entry that is found, or at one that could not be read.
pub open spec fn stops(table: TableView, found: Seq<bool>) -> Seq<bool>
    recommends
        found.len() == entries(table),
{
    Seq::new(entries(table), |i: int| unreadable(table, i) || found[i])
}

/// The outcome of a search that goes through the entries in order and
/// ends at the first one of `found`: that entry, or none where there is
/// none, or a failure where an entry in front of it could not be read.
pub open spec fn scan_first(table: TableView, found: Seq<bool>) -> Result<Option<int>, Unreadable>
    recommends
        found.len() == entries(table),
{
    match first_true(stops(table, found)) {
        Some(i) => if unreadable(table, i) {
            Err(Unreadable)
        } else {
            Ok(Some(i))
        },
        None => Ok(None),
    }
}

/// The outcome of a search that goes through all entries: a failure where
/// one of `fails` holds, else the places of `found`.
pub open spec fn scan_all(fails: Seq<bool>, found: Seq<bool>) -> Result<Seq<usize>, Unreadable> {
    match first_true(fails) {
        Some(_) => Err(Unreadable),
        None => Ok(matching(found)),
    }
}

/// The field `col` of the entry `id`, or the empty text where there is none.
pub open spec fn field_or_empty(table: TableView, id: int, col: int) -> Seq<char> {
    match field(table, id, col) {
        Some(text) => text,
        None => Seq::empty(),
    }
}

/// The places at which `flags` holds `true`, in increasing order.
pub open spec fn matching(flags: Seq<bool>) -> Seq<usize>
    decreases flags.len(),
{
    if flags.len() == 0 {
        Seq::empty()
    } else if flags.last() {
        matching(flags.drop_last()).push((flags.len() - 1) as usize)
    } else {
        matching(flags.drop_last())
    }
}

/// The first place at which `flags` holds `true`, where there is one.
pub open spec fn first_true(flags: Seq<bool>) -> Option<int>
    decreases flags.len(),
{
    if flags.len() == 0 {
        None
    } else {
        match first_true(flags.drop_last()) {
            Some(i) => Some(i),
            None => if flags.last() {
                Some(flags.len() - 1)
            } else {
                None
            },
        }
    }
}

/// Looking one place further: the places found among the first `i + 1`
/// flags are those found among the first `i`, and `i` itself where its flag holds.
pub proof fn lemma_matching_next(flags: Seq<bool>, i: int)
    requires
        0 <= i < flags.len(),
    ensures
        matching(flags.take(i + 1)) == if flags[i] {
            matching(flags.take(i)).push(i as usize)
        } else {
            matching(flags.take(i))
        },
{
    assert(flags.take(i + 1).drop_last() =~= flags.take(i));
}

/// Where no flag before `i` holds and the one at `i` does, `i` is the first.
pub proof fn lemma_first_true_found(flags: Seq<bool>, i: int)
    requires
        0 <= i < flags.len(),
        flags[i],
        first_true(flags.take(i)) is None,
    ensures
        first_true(flags) == Some(i),
    decreases flags.len() - i,
{
    assert(flags.take(i + 1).drop_last() =~= flags.take(i));
    lemma_first_true_stays(flags, i + 1, i);
}

/// A first place that was found among the first `k` flags stays the first
/// among all of them.
pub proof fn lemma_first_true_stays(flags: Seq<bool>, k: int, i: int)
    requires
        0 <= k <= flags.len(),
        first_true(flags.take(k)) == Some(i),
    ensures
        first_true(flags) == Some(i),
    decreases flags.len() - k,
{
    if k < flags.len() {
        assert(flags.take(k + 1).drop_last() =~= flags.take(k));
        lemma_first_true_stays(flags, k + 1, i);
    } else {
        assert(flags.take(k) =~= flags);
    }
}

/// Looking one place further where nothing was found yet and the flag at
/// `i` does not hold: still nothing is found.
pub proof fn lemma_first_true_next(flags: Seq<bool>, i: int)
    requires
        0 <= i < flags.len(),
        !flags[i],
        first_true(flags.take(i)) is None,
    ensures
        first_true(flags.take(i + 1)) is None,
{
    assert(flags.take(i + 1).drop_last() =~= flags.take(i));
}

/// All the places below `n`, in increasing order.
pub open spec fn all_ids(n: nat) -> Seq<usize> {
    Seq::new(n, |i: int| i as usize)
}

/// Whether a character counts as white space.
pub open spec fn is_white_space(c: char) -> bool {
    ||| '\u{9}' <= c <= '\u{d}'
    ||| c == ' '
    ||| c == '\u{85}'
    ||| c == '\u{a0}'
    ||| c == '\u{1680}'
    ||| '\u{2000}' <= c <= '\u{200a}'
    ||| c == '\u{2028}'
    ||| c == '\u{2029}'
    ||| c == '\u{202f}'
    ||| c == '\u{205f}'
    ||| c == '\u{3000}'
}

/// `text` without the white space at its start.
pub open spec fn trimmed_start(text: Seq<char>) -> Seq<char>
    decreases text.len(),
{
    if text.len() > 0 && is_white_space(text[0]) {
        trimmed_start(text.skip(1))
    } else {
        text
    }
}

/// `text` without the white space at its end.
pub open spec fn trimmed_end(text: Seq<char>) -> Seq<char>
    decreases text.len(),
{
    if text.len() > 0 && is_white_space(text.last()) {
        trimmed_end(text.drop_last())
    } else {
        text
    }
}

/// `text` without the white space at its start and at its end.
pub open spec fn trimmed(text: Seq<char>) -> Seq<char> {
    trimmed_end(trimmed_start(text))
}

/// `text` in lower case.
pub uninterp spec fn lowercased(text: Seq<char>) -> Seq<char>;

/// Whether `text` holds decimal digits only.
pub open spec fn all_digits(text: Seq<char>) -> bool {
    forall|i: int| 0 <= i < text.len() ==> '0' <= #[trigger] text[i] <= '9'
}

/// The number that the decimal digits `text` spell.
pub open spec fn digits_value(text: Seq<char>) -> nat
    decreases text.len(),
{
    if text.len() == 0 {
        0
    } else {
        10 * digits_value(text.drop_last()) + (text.last() as nat - '0' as nat) as nat
    }
}

/// The 32-bit number that `text` spells: a sign or none, then digits, at
/// least one, and nothing else. `None` where `text` is not of that form or
/// the number does not fit.
pub open spec fn parsed_i32(text: Seq<char>) -> Option<i32> {
    let signed = text.len() > 0 && (text[0] == '-' || text[0] == '+');
    let digits = if signed {
        text.skip(1)
    } else {
        text
    };
    let magnitude = digits_value(digits) as int;
    let value = if text.len() > 0 && text[0] == '-' {
        -magnitude
    } else {
        magnitude
    };
    if digits.len() > 0 && all_digits(digits) && i32::MIN <= value <= i32::MAX {
        Some(value as i32)
    } else {
        None
    }
}

/// What a field that says yes or no says: yes, where it reads `true` once
/// the white space around it is gone and it is put in lower case.
pub open spec fn says_true(text: Seq<char>) -> bool {
    lowercased(trimmed(text)) == "true"@
}

/// `str::trim`: the text without leading and trailing white space.
#[verifier::external_body]
fn text_trim(text: &str) -> (inner: &str)
    ensures
        inner@ == trimmed(text@),
{
    text.trim()
}

/// `str::to_lowercase`: the text in lower case.
#[verifier::external_body]
fn text_to_lowercase(text: &str) -> (lower: String)
    ensures
        lower@ == lowercased(text@),
{
    text.to_lowercase()
}

/// `str::parse` for `i32`: the number that the text spells, if it spells one.
#[verifier::external_body]
fn text_parse_i32(text: &str) -> (number: Option<i32>)
    ensures
        number == parsed_i32(text@),
{
    text.parse::<i32>().ok()
}

/// Whether two texts are the same.
pub fn text_eq(a: &str, b: &str) -> (same: bool)
    ensures
        same == (a@ == b@),
{
    let x = a.as_bytes();
    let y = b.as_bytes();
    proof {
        encode_utf8_decode_utf8(a@);
        encode_utf8_decode_utf8(b@);
    }
    if x.len() != y.len() {
        return false;
    }
    let mut i: usize = 0;
    while i < x.len()
        invariant
            i <= x.len(),
            x@.len() == y@.len(),
            x@ == encode_utf8(a@),
            y@ == encode_utf8(b@),
            forall|k: int| 0 <= k < i ==> x@[k] == y@[k],
        decreases x.len() - i,
    {
        if x[i] != y[i] {
            return false;
        }
        i += 1;
    }
    assert(x@ =~= y@);
    true
}

/// Whether a field says yes.
pub fn text_says_true(text: &str) -> (yes: bool)
    ensures
        yes == says_true(text@),
{
    let lower = text_to_lowercase(text_trim(text));
    text_eq(lower.as_str(), "true")
}

/// The number that a field spells, or 0 where it spells none.
pub fn text_number_or_zero(text: &str) -> (number: i32)
    ensures
        number == match parsed_i32(text@) {
            Some(n) => n,
            None => 0,
        },
{
    match text_parse_i32(text) {
        Some(n) => n,
        None => 0,
    }
}

impl Table {
    /// Number of entries.
    pub fn len(&self) -> (n: usize)
        ensures
            n == entries(self@),
    {
        if self.rows.len() >= HEADING_ROWS {
            self.rows.len() - HEADING_ROWS
        } else {
            0
        }
    }

    /// The field `col` of the entry `id`, where there is one.
    pub fn field(&self, id: usize, col: usize) -> (text: Option<&str>)
        ensures
            match text {
                Some(t) => field(self@, id as int, col as int) == Some(t@),
                None => field(self@, id as int, col as int) is None,
            },
    {
        let total = self.rows.len();
        assert(self@.len() == total);
        if id < self.len() {
            match &self.rows[id + HEADING_ROWS] {
                Some(row) => {
                    if col < row.len() {
                        return Some(row[col].as_str());
                    }
                },
                None => {},
            }
        }
        None
    }

    /// Whether the entry `id` is there but could not be read.
    pub fn is_unreadable(&self, id: usize) -> (broken: bool)
        ensures
            broken == unreadable(self@, id as int),
    {
        let total = self.rows.len();
        assert(self@.len() == total);
        if id < self.len() {
            self.rows[id + HEADING_ROWS].is_none()
        } else {
            false
        }
    }

    /// Whether any row, headings included, could not be read.
    pub fn any_unreadable_row(&self) -> (broken: bool)
        ensures
            broken == (first_true(unreadable_rows(self@)) is Some),
    {
        let ghost flags = unreadable_rows(self@);
        let n = self.rows.len();
        let mut r: usize = 0;
        while r < n
            invariant
                r <= n,
                n == self.rows@.len(),
                flags == unreadable_rows(self@),
                first_true(flags.take(r as int)) is None,
            decreases n - r,
        {
            if self.rows[r].is_none() {
                proof {
                    lemma_first_true_found(flags, r as int);
                }
                return true;
            }
            proof {
                lemma_first_true_next(flags, r as int);
            }
            r += 1;
        }
        assert(flags.take(n as int) =~= flags);
        false
    }

    /// The field `col` of the entry `id`, or the empty text where there is none.
    pub fn field_or_empty(&self, id: usize, col: usize) -> (text: &str)
        ensures
            text@ == field_or_empty(self@, id as int, col as int),
    {
        match self.field(id, col) {
            Some(text) => text,
            None => {
                let empty = "";
                proof {
                    reveal_strlit("");
                }
                assert(empty@ =~= Seq::<char>::empty());
                empty
            },
        }
    }

    /// The identifiers of all entries: 0, 1, 2 and so on.
    pub fn ids(&self) -> (ids: Vec<usize>)
        ensures
            ids@ == all_ids(entries(self@)),
    {
        let n = self.len();
        let mut ids: Vec<usize> = Vec::new();
        let mut i: usize = 0;
        while i < n
            invariant
                i <= n,
                ids@ == all_ids(i as nat),
            decreases n - i,
        {
            ids.push(i);
            assert(ids@ =~= all_ids((i + 1) as nat));
            i += 1;
        }
        ids
    }
}

} // verus!
