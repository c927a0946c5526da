//! The index of a cell within a sheet, its order, and its text forms.

use crate::data::IndexType;
use crate::text::{
    chars_of, decimal_text, parse_u16, push_decimal, run_end, trim, trim_bounds, u16_value,
    CharClass,
};
use crate::utils::{col_label, index_to_col, index_to_row, row_label, MAX_COL};
use std::cmp::Ordering;
use vstd::prelude::*;
use vstd::std_specs::cmp::{PartialEqSpecImpl, PartialOrdSpecImpl};
use vstd::std_specs::convert::FromSpecImpl;

verus! {

/// The zero-based row and column of a cell. Indices are ordered by row, then
/// by column.
#[derive(Ord, Eq, Clone, Copy, Debug)]
pub struct CellIndex {
    row: IndexType,
    col: IndexType,
}

impl CellIndex {
    /// The index of the cell in row `row` and column `col`.
    pub fn new(row: IndexType, col: IndexType) -> (index: Self)
        ensures
            index.row() == row,
            index.col() == col,
    {
        Self { row, col }
    }

    /// The row.
    #[verifier::when_used_as_spec(spec_row)]
    pub fn row(&self) -> (row: IndexType)
        ensures
            row == self.row(),
    {
        self.row
    }

    /// The column.
    #[verifier::when_used_as_spec(spec_col)]
    pub fn col(&self) -> (col: IndexType)
        ensures
            col == self.col(),
    {
        self.col
    }

    /// The row.
    pub closed spec fn spec_row(&self) -> IndexType {
        self.row
    }

    /// The column.
    pub closed spec fn spec_col(&self) -> IndexType {
        self.col
    }

    /// Two indices with the same row and the same column are the same index.
    pub proof fn lemma_same(self, other: Self)
        requires
            self.row() == other.row(),
            self.col() == other.col(),
        ensures
            self == other,
    {
    }
}

impl From<(IndexType, IndexType)> for CellIndex {
    fn from(value: (IndexType, IndexType)) -> (index: Self) {
        Self { row: value.0, col: value.1 }
    }
}

impl FromSpecImpl<(IndexType, IndexType)> for CellIndex {
    open spec fn obeys_from_spec() -> bool {
        true
    }

    closed spec fn from_spec(value: (IndexType, IndexType)) -> Self {
        Self { row: value.0, col: value.1 }
    }
}

impl PartialEq for CellIndex {
    fn eq(&self, other: &Self) -> (equal: bool) {
        self.row == other.row && self.col == other.col
    }
}

impl PartialEqSpecImpl for CellIndex {
    open spec fn obeys_eq_spec() -> bool {
        true
    }

    open spec fn eq_spec(&self, other: &Self) -> bool {
        self.row() == other.row() && self.col() == other.col()
    }
}

impl PartialOrd for CellIndex {
    fn partial_cmp(&self, other: &Self) -> (order: Option<Ordering>) {
        if self.row < other.row {
            Some(Ordering::Less)
        } else if self.row > other.row {
            Some(Ordering::Greater)
        } else if self.col < other.col {
            Some(Ordering::Less)
        } else if self.col > other.col {
            Some(Ordering::Greater)
        } else {
            Some(Ordering::Equal)
        }
    }
}

impl PartialOrdSpecImpl for CellIndex {
    open spec fn obeys_partial_cmp_spec() -> bool {
        true
    }

    open spec fn partial_cmp_spec(&self, other: &Self) -> Option<Ordering> {
        if self.row() < other.row() {
            Some(Ordering::Less)
        } else if self.row() > other.row() {
            Some(Ordering::Greater)
        } else if self.col() < other.col() {
            Some(Ordering::Less)
        } else if self.col() > other.col() {
            Some(Ordering::Greater)
        } else {
            Some(Ordering::Equal)
        }
    }
}

/// The cells that a formula takes its input from.
#[derive(Clone, Debug)]
pub enum Range {
    /// Unbounded columnar input.
    Cols(Vec<IndexType>),
    /// Unbounded row input.
    Rows(Vec<IndexType>),
    /// Bounded input.
    Rect { start: CellIndex, end: CellIndex },
}

/// Why a text is not the key form of an index.
#[derive(Clone, Copy, Debug, PartialEq, Eq, Structural)]
pub enum KeyError {
    /// The text does not begin with `(` and end with `)`.
    NotEnclosed,
    /// There is no comma between the parentheses.
    MissingComma,
    /// What stands before the first comma is no row.
    InvalidRow,
    /// What stands after the first comma is no column.
    InvalidCol,
}

/// The key form of an index: `(<row>,<col>)`, both in decimal.
pub open spec fn key_text(row: IndexType, col: IndexType) -> Seq<char> {
    seq!['('] + decimal_text(row as nat) + seq![','] + decimal_text(col as nat) + seq![')']
}

/// Reads the key form of an index: parentheses around a row and a column,
/// which the first comma parts and white space may surround.
pub open spec fn parse_key(s: Seq<char>) -> Result<(IndexType, IndexType), KeyError> {
    if s.len() >= 2 && s[0] == '(' && s[s.len() - 1] == ')' {
        let body = s.subrange(1, s.len() - 1);
        let comma = run_end(body, 0, CharClass::Except(','));
        if comma < body.len() {
            match parse_u16(trim(body.take(comma))) {
                Some(row) => match parse_u16(trim(body.skip(comma + 1))) {
                    Some(col) => Ok((row, col)),
                    None => Err(KeyError::InvalidCol),
                },
                None => Err(KeyError::InvalidRow),
            }
        } else {
            Err(KeyError::MissingComma)
        }
    } else {
        Err(KeyError::NotEnclosed)
    }
}

/// The key form of an index is read back as that index.
pub proof fn lemma_key_round_trip(row: IndexType, col: IndexType)
    ensures
        parse_key(key_text(row, col)) == Ok::<(IndexType, IndexType), KeyError>((row, col)),
{
    let r = decimal_text(row as nat);
    let c = decimal_text(col as nat);
    let s = key_text(row, col);
    let body = s.subrange(1, s.len() - 1);
    crate::text::lemma_decimal_text(row as nat);
    crate::text::lemma_decimal_text(col as nat);
    crate::text::lemma_parse_u16_decimal(row);
    crate::text::lemma_parse_u16_decimal(col);
    crate::text::lemma_trim_digits(r);
    crate::text::lemma_trim_digits(c);
    assert(s.len() == r.len() + c.len() + 3);
    assert(s[0] == '(' && s[s.len() - 1] == ')');
    assert(body =~= r + seq![','] + c);
    let comma = r.len() as int;
    assert forall|i: int| 0 <= i < comma implies CharClass::Except(',').holds(
        #[trigger] body[i],
    ) by {
        assert(body[i] == r[i]);
        assert(crate::text::is_digit(r[i]));
    }
    assert(body[comma] == ',');
    crate::text::lemma_run_end_is(body, 0, CharClass::Except(','), comma);
    assert(body.take(comma) =~= r);
    assert(body.skip(comma + 1) =~= c);
}

impl CellIndex {
    /// The index as a cell is named: the column's label, then the row's.
    pub fn to_string(&self) -> (text: String)
        requires
            self.col() <= MAX_COL,
        ensures
            text@ == col_label(self.col()) + row_label(self.row()),
    {
        let mut text = index_to_col(self.col);
        text.append(index_to_row(self.row).as_str());
        text
    }

    /// The index in its key form, `(<row>,<col>)`.
    pub fn to_key(&self) -> (text: String)
        ensures
            text@ == key_text(self.row(), self.col()),
    {
        let mut text = String::new();
        text.push('(');
        push_decimal(&mut text, self.row as u32);
        text.push(',');
        push_decimal(&mut text, self.col as u32);
        text.push(')');
        assert(text@ =~= key_text(self.row(), self.col()));
        text
    }

    /// Reads an index from its key form.
    pub fn from_key(text: &str) -> (index: Result<CellIndex, KeyError>)
        ensures
            match parse_key(text@) {
                Ok((row, col)) => index is Ok && index->Ok_0.row() == row && index->Ok_0.col()
                    == col,
                Err(error) => index == Err::<CellIndex, KeyError>(error),
            },
    {
        let chars = chars_of(text);
        let len: usize = chars.len();
        if len < 2 || chars[0] != '(' || chars[len - 1] != ')' {
            return Err(KeyError::NotEnclosed);
        }
        let ghost body = chars@.subrange(1, len - 1);
        let mut comma: usize = 1;
        while comma < len - 1 && chars[comma] != ','
            invariant
                1 <= comma <= len - 1,
                len == chars.len(),
                body == chars@.subrange(1, len - 1),
                forall|k: int| 0 <= k < comma - 1 ==> CharClass::Except(',').holds(
                    #[trigger] body[k],
                ),
            decreases len - comma,
        {
            assert(body[comma - 1] == chars@[comma as int]);
            comma += 1;
        }
        proof {
            if comma < len - 1 {
                assert(body[comma - 1] == chars@[comma as int]);
            }
            crate::text::lemma_run_end_is(body, 0, CharClass::Except(','), comma - 1);
        }
        if comma == len - 1 {
            return Err(KeyError::MissingComma);
        }
        proof {
            assert(chars@.subrange(1, comma as int) =~= body.take(comma - 1));
            assert(chars@.subrange(comma + 1, len - 1) =~= body.skip(comma - 1 + 1));
        }
        let (row_start, row_end) = trim_bounds(&chars, 1, comma);
        let (col_start, col_end) = trim_bounds(&chars, comma + 1, len - 1);
        let Some(row) = u16_value(&chars, row_start, row_end) else {
            return Err(KeyError::InvalidRow);
        };
        let Some(col) = u16_value(&chars, col_start, col_end) else {
            return Err(KeyError::InvalidCol);
        };
        Ok(CellIndex { row, col })
    }
}

} // verus!
