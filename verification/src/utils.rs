//! Codecs between zero-based indices and the labels of rows and columns.

use crate::data::IndexType;
use crate::text::{
    chars_of, char_is_letter, char_upper, decimal_text, is_letter, push_decimal, upper,
};
use vstd::prelude::*;

verus! {

/// The number of letters that a column label is written with.
pub const ALPHABET_LEN: IndexType = 26;

/// The largest column index that has a label, that of `ZZ`.
pub const MAX_COL: IndexType = 701;

/// The place of a letter in the alphabet, counted from zero, whatever its case.
pub open spec fn letter_index(c: char) -> int
    recommends
        is_letter(c),
{
    upper(c) as int - 65
}

/// The upper-case letter at place `i` of the alphabet.
pub open spec fn letter_at(i: int) -> char
    recommends
        0 <= i < 26,
{
    ((i + 65) as u8) as char
}

/// The label of column `idx`: one letter for the first twenty-six columns,
/// two letters from `AA` to `ZZ` for the rest.
pub open spec fn col_label(idx: IndexType) -> Seq<char>
    recommends
        idx <= MAX_COL,
{
    if idx < 26 {
        seq![letter_at(idx as int)]
    } else {
        seq![letter_at(idx / 26 - 1), letter_at((idx % 26) as int)]
    }
}

/// The column that `label` names: a single letter stands for its place in the
/// alphabet, and two letters for `(first + 1) * 26 + second`. Any other text
/// names no column.
pub open spec fn col_index(label: Seq<char>) -> Option<IndexType> {
    if label.len() == 1 && is_letter(label[0]) {
        Some(letter_index(label[0]) as IndexType)
    } else if label.len() == 2 && is_letter(label[0]) && is_letter(label[1]) {
        Some(((letter_index(label[0]) + 1) * 26 + letter_index(label[1])) as IndexType)
    } else {
        None
    }
}

/// The label of row `idx`: the decimal notation of `idx + 1`.
pub open spec fn row_label(idx: IndexType) -> Seq<char> {
    decimal_text((idx + 1) as nat)
}

/// Every column up to `ZZ` is named by its own label.
pub proof fn lemma_col_label_round_trip(idx: IndexType)
    requires
        idx <= MAX_COL,
    ensures
        col_index(col_label(idx)) == Some(idx),
        1 <= col_label(idx).len() <= 2,
        forall|i: int| 0 <= i < col_label(idx).len() ==> is_letter(#[trigger] col_label(idx)[i]),
{
}

/// A label that names a column is, up to the case of its letters, the label
/// of that column, and the column is at most that of `ZZ`.
pub proof fn lemma_col_index_round_trip(label: Seq<char>)
    requires
        col_index(label) is Some,
    ensures
        col_index(label)->0 <= MAX_COL,
        col_label(col_index(label)->0) == Seq::new(label.len(), |i: int| upper(label[i])),
{
    let idx = col_index(label)->0;
    assert(col_label(idx) =~= Seq::new(label.len(), |i: int| upper(label[i])));
}

/// Convert an index into its cell row value: `0` is row `1`, `1` is row `2`.
pub fn index_to_row(idx: IndexType) -> (label: String)
    ensures
        label@ == row_label(idx),
{
    let mut label = String::new();
    let n: u32 = idx as u32 + 1;
    push_decimal(&mut label, n);
    label
}

/// Convert a numerical index into its alphabetic column label: `0` is `A`,
/// `25` is `Z`, `26` is `AA`, `701` is `ZZ`.
pub fn index_to_col(idx: IndexType) -> (label: String)
    requires
        idx <= MAX_COL,
    ensures
        label@ == col_label(idx),
{
    let mut label = String::new();
    if idx < ALPHABET_LEN {
        label.push(((idx + 65) as u8) as char);
    } else {
        let first: u16 = idx / ALPHABET_LEN - 1;
        let second: u16 = idx % ALPHABET_LEN;
        label.push(((first + 65) as u8) as char);
        label.push(((second + 65) as u8) as char);
    }
    assert(label@ =~= col_label(idx));
    label
}

/// Convert a row value into its index: `1` is index `0`. Row `0` has none.
pub fn row_to_index(row: IndexType) -> (idx: Option<IndexType>)
    ensures
        row == 0 ==> idx is None,
        row > 0 ==> idx == Some((row - 1) as IndexType),
{
    row.checked_sub(1)
}

/// The index of the column that the one or two letters `chars[from..to]`
/// name.
pub fn col_to_index_in(chars: &Vec<char>, from: usize, to: usize) -> (idx: Option<IndexType>)
    requires
        from <= to <= chars.len(),
    ensures
        idx == col_index(chars@.subrange(from as int, to as int)),
{
    let ghost label = chars@.subrange(from as int, to as int);
    if to - from == 1 {
        let c1: char = chars[from];
        assert(label[0] == c1);
        if !char_is_letter(c1) {
            return None;
        }
        let a1: u16 = (char_upper(c1) as u32 - 65) as u16;
        Some(a1)
    } else if to - from == 2 {
        let c1: char = chars[from];
        let c0: char = chars[from + 1];
        assert(label[0] == c1 && label[1] == c0);
        if !char_is_letter(c0) || !char_is_letter(c1) {
            return None;
        }
        let a0: u16 = (char_upper(c0) as u32 - 65) as u16;
        let a1: u16 = (char_upper(c1) as u32 - 65) as u16;
        Some((a1 + 1) * ALPHABET_LEN + a0)
    } else {
        None
    }
}

/// Convert an alphabetic column label into its numerical index: `a` is `0`,
/// `b` is `1`. Letters are case insensitive.
pub fn col_to_index(col: &str) -> (idx: Option<IndexType>)
    ensures
        idx == col_index(col@),
{
    let chars = chars_of(col);
    let n: usize = chars.len();
    assert(chars@.subrange(0, n as int) =~= col@);
    col_to_index_in(&chars, 0, n)
}

} // verus!
