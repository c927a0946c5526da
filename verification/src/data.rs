//! The address model: cell references and sheet references, with the text
//! form of a reference.

use crate::text::{
    all_digits, chars_of, decimal_text, decimal_value, digits_value, parse_u16, push_decimal,
    run_end, scan_run, string_of, u16_value, CharClass,
};
use crate::utils::{
    col_index, col_label, col_to_index_in, index_to_col, index_to_row, row_label, MAX_COL,
};
use vstd::prelude::*;
use vstd::std_specs::convert::FromSpecImpl;

pub use crate::cell_index::{CellIndex, Range};

verus! {

/// The type of the index of a row, a column or a sheet.
pub type IndexType = u16;

/// Separates a sheet from the cell in a reference.
pub const SHEET_DELIMETER: char = '!';

/// Marks the row or the column of a reference as absolute.
pub const REF_MODE_SIGIL: char = '$';

/// Whether an axis of a reference follows the cell that holds the formula
/// when the formula is copied, or stays.
#[derive(Clone, Copy, Debug, PartialEq, Eq, Structural)]
pub enum RefMode {
    Relative,
    Absolute,
}

/// A sheet of a workbook, by position or by name.
#[derive(Debug, PartialEq, Eq)]
pub enum SheetIndex {
    Index(IndexType),
    Label(String),
}

/// The mathematical value of a [`SheetIndex`].
pub enum SheetIndexModel {
    Index(IndexType),
    Label(Seq<char>),
}

impl View for SheetIndex {
    type V = SheetIndexModel;

    open spec fn view(&self) -> SheetIndexModel {
        match self {
            SheetIndex::Index(idx) => SheetIndexModel::Index(*idx),
            SheetIndex::Label(label) => SheetIndexModel::Label(label@),
        }
    }
}

impl DeepView for SheetIndex {
    type V = SheetIndexModel;

    open spec fn deep_view(&self) -> SheetIndexModel {
        self@
    }
}

impl Clone for SheetIndex {
    fn clone(&self) -> (other: Self)
        ensures
            other@ == self@,
    {
        match self {
            SheetIndex::Index(idx) => SheetIndex::Index(*idx),
            SheetIndex::Label(label) => SheetIndex::Label(label.clone()),
        }
    }
}

/// The sheet that a reference points into.
#[derive(Debug, PartialEq, Eq)]
pub enum SheetRef {
    /// The sheet of the cell that holds the formula.
    Relative,
    Absolute(SheetIndex),
}

/// The mathematical value of a [`SheetRef`].
pub enum SheetRefModel {
    Relative,
    Absolute(SheetIndexModel),
}

impl View for SheetRef {
    type V = SheetRefModel;

    open spec fn view(&self) -> SheetRefModel {
        match self {
            SheetRef::Relative => SheetRefModel::Relative,
            SheetRef::Absolute(sheet) => SheetRefModel::Absolute(sheet@),
        }
    }
}

impl DeepView for SheetRef {
    type V = SheetRefModel;

    open spec fn deep_view(&self) -> SheetRefModel {
        self@
    }
}

impl Clone for SheetRef {
    fn clone(&self) -> (other: Self)
        ensures
            other@ == self@,
    {
        match self {
            SheetRef::Relative => SheetRef::Relative,
            SheetRef::Absolute(sheet) => SheetRef::Absolute(sheet.clone()),
        }
    }
}

impl From<IndexType> for SheetIndex {
    fn from(value: IndexType) -> (sheet: Self) {
        SheetIndex::Index(value)
    }
}

impl FromSpecImpl<IndexType> for SheetIndex {
    open spec fn obeys_from_spec() -> bool {
        true
    }

    open spec fn from_spec(value: IndexType) -> Self {
        SheetIndex::Index(value)
    }
}

impl From<String> for SheetIndex {
    fn from(value: String) -> (sheet: Self) {
        SheetIndex::Label(value)
    }
}

impl FromSpecImpl<String> for SheetIndex {
    open spec fn obeys_from_spec() -> bool {
        true
    }

    open spec fn from_spec(value: String) -> Self {
        SheetIndex::Label(value)
    }
}

impl From<SheetIndex> for SheetRef {
    fn from(value: SheetIndex) -> (sheet: Self) {
        SheetRef::Absolute(value)
    }
}

impl FromSpecImpl<SheetIndex> for SheetRef {
    open spec fn obeys_from_spec() -> bool {
        true
    }

    open spec fn from_spec(value: SheetIndex) -> Self {
        SheetRef::Absolute(value)
    }
}

impl From<Option<SheetIndex>> for SheetRef {
    fn from(value: Option<SheetIndex>) -> (sheet: Self) {
        match value {
            Some(idx) => Self::Absolute(idx),
            None => Self::Relative,
        }
    }
}

impl FromSpecImpl<Option<SheetIndex>> for SheetRef {
    open spec fn obeys_from_spec() -> bool {
        true
    }

    open spec fn from_spec(value: Option<SheetIndex>) -> Self {
        match value {
            Some(idx) => Self::Absolute(idx),
            None => Self::Relative,
        }
    }
}

/// A reference to one cell. The two modes are kept with the reference and do
/// not change the cell that it names.
#[derive(Debug, PartialEq, Eq)]
pub struct CellRef {
    pub sheet: SheetRef,
    pub row: IndexType,
    pub col: IndexType,
    pub col_mode: RefMode,
    pub row_mode: RefMode,
}

/// The mathematical value of a [`CellRef`].
pub struct CellRefModel {
    pub sheet: SheetRefModel,
    pub row: IndexType,
    pub col: IndexType,
    pub col_mode: RefMode,
    pub row_mode: RefMode,
}

impl View for CellRef {
    type V = CellRefModel;

    open spec fn view(&self) -> CellRefModel {
        CellRefModel {
            sheet: self.sheet@,
            row: self.row,
            col: self.col,
            col_mode: self.col_mode,
            row_mode: self.row_mode,
        }
    }
}

impl DeepView for CellRef {
    type V = CellRefModel;

    open spec fn deep_view(&self) -> CellRefModel {
        self@
    }
}

impl Clone for CellRef {
    fn clone(&self) -> (other: Self)
        ensures
            other@ == self@,
    {
        CellRef {
            sheet: self.sheet.clone(),
            row: self.row,
            col: self.col,
            col_mode: self.col_mode,
            row_mode: self.row_mode,
        }
    }
}

/// The cell that holds a formula: its sheet, row and column.
#[derive(Clone, Copy, Debug, PartialEq, Eq, Structural)]
pub struct CellPath {
    pub sheet: IndexType,
    pub row: IndexType,
    pub col: IndexType,
}

/// The sigil that an absolute axis is written with, and nothing for a
/// relative one.
pub open spec fn mode_text(mode: RefMode) -> Seq<char> {
    match mode {
        RefMode::Relative => Seq::<char>::empty(),
        RefMode::Absolute => seq![REF_MODE_SIGIL],
    }
}

/// A sheet as it is written: a sheet index in decimal, a label as it is.
pub open spec fn sheet_index_text(sheet: SheetIndexModel) -> Seq<char> {
    match sheet {
        SheetIndexModel::Index(idx) => decimal_text(idx as nat),
        SheetIndexModel::Label(label) => label,
    }
}

/// What stands before the cell in a reference: nothing for the formula's own
/// sheet, else the sheet and the delimiter.
pub open spec fn sheet_text(sheet: SheetRefModel) -> Seq<char> {
    match sheet {
        SheetRefModel::Relative => Seq::<char>::empty(),
        SheetRefModel::Absolute(index) => sheet_index_text(index).push(SHEET_DELIMETER),
    }
}

/// The text form of a reference: `[<sheet>!][$]<COL>[$]<ROW>`.
pub open spec fn cell_ref_text(cell: CellRefModel) -> Seq<char>
    recommends
        cell.col <= MAX_COL,
{
    sheet_text(cell.sheet) + mode_text(cell.col_mode) + col_label(cell.col) + mode_text(
        cell.row_mode,
    ) + row_label(cell.row)
}

/// The sheet that the text before the delimiter names: a sheet index where
/// the text is an unsigned numeral in range, else a label.
pub open spec fn sheet_index_of(text: Seq<char>) -> SheetIndexModel {
    match parse_u16(text) {
        Some(idx) => SheetIndexModel::Index(idx),
        None => SheetIndexModel::Label(text),
    }
}

/// Reads the cell of a reference, which is all of `s` from `start` on: an
/// optional sigil, one or two letters, an optional sigil, and one or more
/// digits that write a row from 1 to 65535, with nothing before, between or
/// after them.
pub open spec fn parse_cell_at(s: Seq<char>, start: int, sheet: SheetRefModel) -> Option<
    CellRefModel,
> {
    let col_sigil = start < s.len() && s[start] == REF_MODE_SIGIL;
    let col_start = if col_sigil {
        start + 1
    } else {
        start
    };
    let col_end = run_end(s, col_start, CharClass::Letter);
    let row_sigil = col_end < s.len() && s[col_end] == REF_MODE_SIGIL;
    let row_start = if row_sigil {
        col_end + 1
    } else {
        col_end
    };
    let row_end = run_end(s, row_start, CharClass::Digit);
    let col = col_index(s.subrange(col_start, col_end));
    let row = decimal_value(s.subrange(row_start, row_end));
    if 0 <= start <= s.len() && row_start < row_end && row_end == s.len() && col is Some && 1
        <= row <= IndexType::MAX {
        Some(
            CellRefModel {
                sheet,
                row: (row - 1) as IndexType,
                col: col->0,
                col_mode: if col_sigil {
                    RefMode::Absolute
                } else {
                    RefMode::Relative
                },
                row_mode: if row_sigil {
                    RefMode::Absolute
                } else {
                    RefMode::Relative
                },
            },
        )
    } else {
        None
    }
}

/// Reads a reference. The text up to the first delimiter, if there is one,
/// is the sheet and must hold no sigil; the rest is the cell.
pub open spec fn parse_cell_ref(s: Seq<char>) -> Option<CellRefModel> {
    let bang = run_end(s, 0, CharClass::Except(SHEET_DELIMETER));
    if bang < s.len() {
        if run_end(s, 0, CharClass::Except(REF_MODE_SIGIL)) < bang {
            None
        } else {
            parse_cell_at(s, bang + 1, SheetRefModel::Absolute(sheet_index_of(s.take(bang))))
        }
    } else {
        parse_cell_at(s, 0, SheetRefModel::Relative)
    }
}

impl CellRef {
    /// A reference within the formula's sheet, relative in row and column.
    pub fn dynamic(row: IndexType, col: IndexType) -> (cell: Self)
        ensures
            cell@ == (CellRefModel {
                sheet: SheetRefModel::Relative,
                row,
                col,
                col_mode: RefMode::Relative,
                row_mode: RefMode::Relative,
            }),
    {
        Self {
            sheet: SheetRef::Relative,
            row,
            col,
            col_mode: RefMode::Relative,
            row_mode: RefMode::Relative,
        }
    }

    /// A reference into `sheet`, relative in row and column.
    pub fn dynamic_with_sheet(row: IndexType, col: IndexType, sheet: SheetIndex) -> (cell: Self)
        ensures
            cell@ == (CellRefModel {
                sheet: SheetRefModel::Absolute(sheet@),
                row,
                col,
                col_mode: RefMode::Relative,
                row_mode: RefMode::Relative,
            }),
    {
        Self {
            sheet: SheetRef::Absolute(sheet),
            row,
            col,
            col_mode: RefMode::Relative,
            row_mode: RefMode::Relative,
        }
    }

    /// A reference within the formula's sheet, absolute in the column.
    pub fn col_absolute(row: IndexType, col: IndexType) -> (cell: Self)
        ensures
            cell@ == (CellRefModel {
                sheet: SheetRefModel::Relative,
                row,
                col,
                col_mode: RefMode::Absolute,
                row_mode: RefMode::Relative,
            }),
    {
        Self {
            sheet: SheetRef::Relative,
            row,
            col,
            col_mode: RefMode::Absolute,
            row_mode: RefMode::Relative,
        }
    }

    /// A reference into `sheet`, absolute in the column.
    pub fn col_absolute_with_sheet(row: IndexType, col: IndexType, sheet: SheetIndex) -> (cell:
        Self)
        ensures
            cell@ == (CellRefModel {
                sheet: SheetRefModel::Absolute(sheet@),
                row,
                col,
                col_mode: RefMode::Absolute,
                row_mode: RefMode::Relative,
            }),
    {
        Self {
            sheet: SheetRef::Absolute(sheet),
            row,
            col,
            col_mode: RefMode::Absolute,
            row_mode: RefMode::Relative,
        }
    }

    /// A reference within the formula's sheet, absolute in the row.
    pub fn row_absolute(row: IndexType, col: IndexType) -> (cell: Self)
        ensures
            cell@ == (CellRefModel {
                sheet: SheetRefModel::Relative,
                row,
                col,
                col_mode: RefMode::Relative,
                row_mode: RefMode::Absolute,
            }),
    {
        Self {
            sheet: SheetRef::Relative,
            row,
            col,
            col_mode: RefMode::Relative,
            row_mode: RefMode::Absolute,
        }
    }

    /// A reference into `sheet`, absolute in the row.
    pub fn row_absolute_with_sheet(row: IndexType, col: IndexType, sheet: SheetIndex) -> (cell:
        Self)
        ensures
            cell@ == (CellRefModel {
                sheet: SheetRefModel::Absolute(sheet@),
                row,
                col,
                col_mode: RefMode::Relative,
                row_mode: RefMode::Absolute,
            }),
    {
        Self {
            sheet: SheetRef::Absolute(sheet),
            row,
            col,
            col_mode: RefMode::Relative,
            row_mode: RefMode::Absolute,
        }
    }

    /// A reference within the formula's sheet, absolute in row and column.
    pub fn aboslute(row: IndexType, col: IndexType) -> (cell: Self)
        ensures
            cell@ == (CellRefModel {
                sheet: SheetRefModel::Relative,
                row,
                col,
                col_mode: RefMode::Absolute,
                row_mode: RefMode::Absolute,
            }),
    {
        Self {
            sheet: SheetRef::Relative,
            row,
            col,
            col_mode: RefMode::Absolute,
            row_mode: RefMode::Absolute,
        }
    }

    /// A reference into `sheet`, absolute in row and column.
    pub fn absolute_with_sheet(row: IndexType, col: IndexType, sheet: SheetIndex) -> (cell: Self)
        ensures
            cell@ == (CellRefModel {
                sheet: SheetRefModel::Absolute(sheet@),
                row,
                col,
                col_mode: RefMode::Absolute,
                row_mode: RefMode::Absolute,
            }),
    {
        Self {
            sheet: SheetRef::Absolute(sheet),
            row,
            col,
            col_mode: RefMode::Absolute,
            row_mode: RefMode::Absolute,
        }
    }
}

/// Reads the sheet that `chars[..end]` names.
fn sheet_index_from(chars: &Vec<char>, end: usize) -> (sheet: SheetIndex)
    requires
        end <= chars.len(),
    ensures
        sheet@ == sheet_index_of(chars@.take(end as int)),
{
    assert(chars@.subrange(0, end as int) =~= chars@.take(end as int));
    match u16_value(chars, 0, end) {
        Some(value) => SheetIndex::Index(value),
        None => SheetIndex::Label(string_of(chars, 0, end)),
    }
}

/// Reads the cell of a reference from `chars[start..]`.
fn cell_from(chars: &Vec<char>, start: usize, sheet: SheetRef) -> (cell: Option<CellRef>)
    requires
        start <= chars.len(),
    ensures
        cell.deep_view() == parse_cell_at(chars@, start as int, sheet@),
{
    let len: usize = chars.len();
    let mut col_mode = RefMode::Relative;
    let mut row_mode = RefMode::Relative;
    let mut col_start: usize = start;
    if start < len && chars[start] == REF_MODE_SIGIL {
        col_mode = RefMode::Absolute;
        col_start = start + 1;
    }
    let col_end: usize = scan_run(chars, col_start, CharClass::Letter);
    let mut row_start: usize = col_end;
    if col_end < len && chars[col_end] == REF_MODE_SIGIL {
        row_mode = RefMode::Absolute;
        row_start = col_end + 1;
    }
    let row_end: usize = scan_run(chars, row_start, CharClass::Digit);
    if row_start == row_end || row_end != len {
        return None;
    }
    let col = col_to_index_in(chars, col_start, col_end);
    let row = digits_value(chars, row_start, row_end, 0xffff);
    proof {
        let body = chars@.subrange(row_start as int, row_end as int);
        crate::text::lemma_run_end(chars@, row_start as int, CharClass::Digit);
        assert(all_digits(body)) by {
            assert forall|i: int| 0 <= i < body.len() implies crate::text::is_digit(
                #[trigger] body[i],
            ) by {
                assert(body[i] == chars@[row_start + i]);
            }
        }
    }
    match (col, row) {
        (Some(col), Some(row)) => {
            if row == 0 {
                None
            } else {
                Some(CellRef { sheet, row: (row - 1) as u16, col, col_mode, row_mode })
            }
        },
        _ => None,
    }
}

impl CellRef {
    /// Reads a reference from its characters.
    pub fn from_chars(chars: &Vec<char>) -> (cell: Option<CellRef>)
        ensures
            cell.deep_view() == parse_cell_ref(chars@),
    {
        let bang: usize = scan_run(chars, 0, CharClass::Except(SHEET_DELIMETER));
        if bang < chars.len() {
            let sigil: usize = scan_run(chars, 0, CharClass::Except(REF_MODE_SIGIL));
            if sigil < bang {
                return None;
            }
            let sheet = sheet_index_from(chars, bang);
            cell_from(chars, bang + 1, SheetRef::Absolute(sheet))
        } else {
            cell_from(chars, 0, SheetRef::Relative)
        }
    }

    /// Parse a string.
    /// Valid cell references have the form `[<sheet>!][$]<a-z>[<a-z>][$]\d+`,
    /// e.g. `a1`, `b5`, `d40`, `bf300`, `sheet1!s4`, `my_sheet!$bf$232`, `0!a4`.
    /// Letters are case insensitive. Any other text gives `None`.
    pub fn from_str(value: &str) -> (cell: Option<CellRef>)
        ensures
            cell.deep_view() == parse_cell_ref(value@),
    {
        let chars = chars_of(value);
        Self::from_chars(&chars)
    }

    /// The text form of the reference: `[<sheet>!][$]<COL>[$]<ROW>`, with
    /// the column in upper-case letters and the row counted from 1.
    pub fn to_string(&self) -> (text: String)
        requires
            self.col <= MAX_COL,
        ensures
            text@ == cell_ref_text(self@),
    {
        let mut text = String::new();
        match &self.sheet {
            SheetRef::Relative => {},
            SheetRef::Absolute(SheetIndex::Index(idx)) => {
                push_decimal(&mut text, *idx as u32);
                text.push(SHEET_DELIMETER);
            },
            SheetRef::Absolute(SheetIndex::Label(label)) => {
                text.append(label.as_str());
                text.push(SHEET_DELIMETER);
            },
        }
        assert(text@ =~= sheet_text(self@.sheet));
        if let RefMode::Absolute = self.col_mode {
            text.push(REF_MODE_SIGIL);
        }
        text.append(index_to_col(self.col).as_str());
        if let RefMode::Absolute = self.row_mode {
            text.push(REF_MODE_SIGIL);
        }
        text.append(index_to_row(self.row).as_str());
        assert(text@ =~= cell_ref_text(self@));
        text
    }
}

/// A label that is read back as itself: it holds neither the delimiter nor
/// the sigil, and is no numeral of a sheet index.
pub open spec fn label_is_plain(label: Seq<char>) -> bool {
    &&& !label.contains(SHEET_DELIMETER)
    &&& !label.contains(REF_MODE_SIGIL)
    &&& parse_u16(label) is None
}

impl CellRefModel {
    /// A reference that its text form can carry: the column has a label, the
    /// row has a successor among the indices, and a sheet label is plain.
    pub open spec fn is_writable(self) -> bool {
        &&& self.col <= MAX_COL
        &&& self.row < IndexType::MAX
        &&& match self.sheet {
            SheetRefModel::Absolute(SheetIndexModel::Label(label)) => label_is_plain(label),
            _ => true,
        }
    }
}

/// The text of a cell, standing at the end of `s`, is read back as that cell.
proof fn lemma_parse_cell_text(s: Seq<char>, start: int, cell: CellRefModel)
    requires
        0 <= start <= s.len(),
        cell.col <= MAX_COL,
        cell.row < IndexType::MAX,
        s.skip(start) == mode_text(cell.col_mode) + col_label(cell.col) + mode_text(cell.row_mode)
            + row_label(cell.row),
    ensures
        parse_cell_at(s, start, cell.sheet) == Some(cell),
{
    let m1 = mode_text(cell.col_mode);
    let c = col_label(cell.col);
    let m2 = mode_text(cell.row_mode);
    let r = row_label(cell.row);
    let t = s.skip(start);
    crate::utils::lemma_col_label_round_trip(cell.col);
    crate::text::lemma_decimal_text((cell.row + 1) as nat);
    assert(t.len() == m1.len() + c.len() + m2.len() + r.len());
    assert forall|k: int| 0 <= k < t.len() implies s[start + k] == #[trigger] t[k] by {}
    let col_start = start + m1.len();
    let col_end = col_start + c.len();
    let row_start = col_end + m2.len();
    assert forall|k: int| 0 <= k < c.len() implies s[col_start + k] == #[trigger] c[k] by {
        assert(s[col_start + k] == t[m1.len() + k]);
    }
    assert forall|k: int| 0 <= k < r.len() implies s[row_start + k] == #[trigger] r[k] by {
        assert(s[row_start + k] == t[m1.len() + c.len() + m2.len() + k]);
    }
    assert(m1.len() > 0 ==> s[start] == REF_MODE_SIGIL) by {
        if m1.len() > 0 {
            assert(s[start] == t[0]);
        }
    }
    assert(m1.len() == 0 ==> s[start] == c[0]) by {
        if m1.len() == 0 {
            assert(s[col_start + 0] == c[0]);
        }
    }
    assert(m2.len() > 0 ==> s[col_end] == REF_MODE_SIGIL) by {
        if m2.len() > 0 {
            assert(s[col_end] == t[(m1.len() + c.len()) as int]);
        }
    }
    assert(s[row_start + 0] == r[0]);
    assert(crate::text::is_digit(r[0]));
    assert(crate::text::is_letter(c[0]));
    assert forall|i: int| col_start <= i < col_end implies CharClass::Letter.holds(
        #[trigger] s[i],
    ) by {
        assert(s[col_start + (i - col_start)] == c[i - col_start]);
    }
    crate::text::lemma_run_end_is(s, col_start, CharClass::Letter, col_end);
    assert forall|i: int| row_start <= i < s.len() implies CharClass::Digit.holds(
        #[trigger] s[i],
    ) by {
        assert(s[row_start + (i - row_start)] == r[i - row_start]);
    }
    crate::text::lemma_run_end_is(s, row_start, CharClass::Digit, s.len() as int);
    assert(s.subrange(col_start, col_end) =~= c);
    assert(s.subrange(row_start, s.len() as int) =~= r);
}

/// Reading the text form of a reference gives the reference back.
pub proof fn lemma_cell_ref_round_trip(cell: CellRefModel)
    requires
        cell.is_writable(),
    ensures
        parse_cell_ref(cell_ref_text(cell)) == Some(cell),
{
    let s = cell_ref_text(cell);
    let body = mode_text(cell.col_mode) + col_label(cell.col) + mode_text(cell.row_mode)
        + row_label(cell.row);
    crate::utils::lemma_col_label_round_trip(cell.col);
    crate::text::lemma_decimal_text((cell.row + 1) as nat);
    let c = col_label(cell.col);
    let r = row_label(cell.row);
    let m1 = mode_text(cell.col_mode);
    let m2 = mode_text(cell.row_mode);
    assert forall|k: int| 0 <= k < body.len() implies #[trigger] body[k] != SHEET_DELIMETER by {
        if k < m1.len() {
        } else if k < m1.len() + c.len() {
            assert(body[k] == c[k - m1.len()]);
        } else if k < m1.len() + c.len() + m2.len() {
        } else {
            assert(body[k] == r[k - m1.len() - c.len() - m2.len()]);
        }
    }
    match cell.sheet {
        SheetRefModel::Relative => {
            assert(s =~= body);
            assert(s.skip(0) =~= body);
            crate::text::lemma_run_end_is(
                s,
                0,
                CharClass::Except(SHEET_DELIMETER),
                s.len() as int,
            );
            lemma_parse_cell_text(s, 0, cell);
        },
        SheetRefModel::Absolute(index) => {
            let name = sheet_index_text(index);
            let bang = name.len() as int;
            assert(s =~= name.push(SHEET_DELIMETER) + body);
            assert(s.skip(bang + 1) =~= body);
            assert(s.take(bang) =~= name);
            assert(s[bang] == SHEET_DELIMETER);
            assert forall|i: int| 0 <= i < bang implies s[i] == #[trigger] name[i] by {}
            match index {
                SheetIndexModel::Index(idx) => {
                    crate::text::lemma_decimal_text(idx as nat);
                    assert(name.len() > 0 && name[0] != '+');
                    assert(parse_u16(name) == Some(idx));
                },
                SheetIndexModel::Label(label) => {},
            }
            assert forall|i: int| 0 <= i < bang implies CharClass::Except(SHEET_DELIMETER).holds(
                #[trigger] s[i],
            ) && CharClass::Except(REF_MODE_SIGIL).holds(s[i]) by {
                assert(s[i] == name[i]);
                match index {
                    SheetIndexModel::Index(idx) => {
                        assert(crate::text::is_digit(name[i]));
                    },
                    SheetIndexModel::Label(label) => {
                        assert(label.contains(label[i]));
                    },
                }
            }
            crate::text::lemma_run_end_is(s, 0, CharClass::Except(SHEET_DELIMETER), bang);
            let sigil = run_end(s, 0, CharClass::Except(REF_MODE_SIGIL));
            crate::text::lemma_run_end(s, 0, CharClass::Except(REF_MODE_SIGIL));
            assert(sigil >= bang) by {
                if sigil < bang {
                    assert(CharClass::Except(REF_MODE_SIGIL).holds(s[sigil]));
                }
            }
            lemma_parse_cell_text(s, bang + 1, cell);
        },
    }
}

} // verus!
