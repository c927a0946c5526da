//! The lexer: from the text of a formula to its tokens.

use crate::data::{parse_cell_ref, CellRef};
use crate::expr::position::{Span, WithSpan};
use crate::expr::token::{keyword_of, Keyword, StringDelimeter, Token, TokenModel};
use crate::text::{
    char_is_alphanumeric, char_is_digit, char_is_letter, char_lower, chars_of, is_digit,
    is_letter, lemma_run_end, lower_text, run_end, string_of, CharClass,
};
use vstd::prelude::*;

pub mod error;

verus! {

/// The number of bytes that a character takes in UTF-8.
pub open spec fn utf8_len(c: char) -> nat {
    let v = c as u32;
    if v < 0x80 {
        1
    } else if v < 0x800 {
        2
    } else if v < 0x10000 {
        3
    } else {
        4
    }
}

/// The number of bytes that a text takes in UTF-8.
pub open spec fn byte_len(s: Seq<char>) -> nat
    decreases s.len(),
{
    if s.len() == 0 {
        0
    } else {
        byte_len(s.drop_last()) + utf8_len(s.last())
    }
}

/// The offset in bytes of the character at place `i` of `s`.
pub open spec fn byte_offset(s: Seq<char>, i: int) -> nat {
    byte_len(s.take(i))
}

/// How often `c` occurs in `s`.
pub open spec fn occurrences(s: Seq<char>, c: char) -> nat
    decreases s.len(),
{
    if s.len() == 0 {
        0
    } else {
        occurrences(s.drop_last(), c) + if s.last() == c {
            1nat
        } else {
            0nat
        }
    }
}

/// What the lexer found at a place of the text, and where the text goes on.
pub struct Scanned {
    pub item: Result<TokenModel, error::Kind>,
    /// The place of the first character after the lexeme.
    pub end: int,
}

/// A token of one character, or of two where `second` follows the first.
pub open spec fn scan_pair(
    s: Seq<char>,
    i: int,
    second: char,
    matched: TokenModel,
    unmatched: TokenModel,
) -> Scanned {
    if i + 1 < s.len() && s[i + 1] == second {
        Scanned { item: Ok(matched), end: i + 2 }
    } else {
        Scanned { item: Ok(unmatched), end: i + 1 }
    }
}

/// A string: all up to the quote that opened it. Without that quote the
/// rest of the text is an unterminated string.
pub open spec fn scan_string(s: Seq<char>, i: int, delimeter: StringDelimeter) -> Scanned {
    let close = run_end(s, i + 1, CharClass::Except(s[i]));
    if close < s.len() {
        Scanned {
            item: Ok(TokenModel::String { value: s.subrange(i + 1, close), delimeter }),
            end: close + 1,
        }
    } else {
        Scanned { item: Err(error::Kind::UnterminatedString), end: close }
    }
}

/// A reference that begins with the sigil: the longest run of characters of
/// a reference, which must read as one.
pub open spec fn scan_sigil(s: Seq<char>, i: int) -> Scanned {
    let end = run_end(s, i + 1, CharClass::CellRef);
    match parse_cell_ref(s.subrange(i, end)) {
        Some(cell) => Scanned { item: Ok(TokenModel::CellRef(cell)), end },
        None => Scanned { item: Err(error::Kind::InvalidCellRef), end },
    }
}

/// A number: the longest run of digits and radix points. It must not end
/// with a radix point nor hold more than one; its text is kept as it is.
pub open spec fn scan_number(s: Seq<char>, i: int) -> Scanned {
    let end = run_end(s, i + 1, CharClass::Number);
    let text = s.subrange(i, end);
    if text.last() == '.' {
        Scanned { item: Err(error::Kind::RadixTerminator), end }
    } else if occurrences(text, '.') > 1 {
        Scanned { item: Err(error::Kind::MultipleRadixPoints), end }
    } else {
        Scanned { item: Ok(TokenModel::Number(text)), end }
    }
}

/// A word: the longest run of word characters. It is a reference where it
/// reads as one, else a keyword where it spells one in whatever case, else an
/// identifier.
pub open spec fn scan_word(s: Seq<char>, i: int) -> Scanned {
    let end = run_end(s, i + 1, CharClass::Word);
    let text = s.subrange(i, end);
    match parse_cell_ref(text) {
        Some(cell) => Scanned { item: Ok(TokenModel::CellRef(cell)), end },
        None => match keyword_of(lower_text(text)) {
            Some(word) => Scanned { item: Ok(TokenModel::Keyword(word)), end },
            None => Scanned { item: Ok(TokenModel::Identifier(text)), end },
        },
    }
}

/// The lexeme that begins at place `i` of `s`, by its first character.
pub open spec fn scan(s: Seq<char>, i: int) -> Scanned
    recommends
        0 <= i < s.len(),
{
    let c = s[i];
    if c == ':' {
        Scanned { item: Ok(TokenModel::Colon), end: i + 1 }
    } else if c == ',' {
        Scanned { item: Ok(TokenModel::Comma), end: i + 1 }
    } else if c == '-' {
        Scanned { item: Ok(TokenModel::Minus), end: i + 1 }
    } else if c == '(' {
        Scanned { item: Ok(TokenModel::ParenLeft), end: i + 1 }
    } else if c == ')' {
        Scanned { item: Ok(TokenModel::ParenRight), end: i + 1 }
    } else if c == '%' {
        Scanned { item: Ok(TokenModel::Percent), end: i + 1 }
    } else if c == '+' {
        Scanned { item: Ok(TokenModel::Plus), end: i + 1 }
    } else if c == '/' {
        Scanned { item: Ok(TokenModel::SlashForward), end: i + 1 }
    } else if c == '*' {
        scan_pair(s, i, '*', TokenModel::StarStar, TokenModel::Star)
    } else if c == '!' {
        scan_pair(s, i, '=', TokenModel::BangEqual, TokenModel::Bang)
    } else if c == '<' {
        scan_pair(s, i, '=', TokenModel::LessEqual, TokenModel::Less)
    } else if c == '>' {
        scan_pair(s, i, '=', TokenModel::GreaterEqual, TokenModel::Greater)
    } else if c == '=' {
        scan_pair(s, i, '=', TokenModel::EqualEqual, TokenModel::Equal)
    } else if StringDelimeter::of(c) is Some {
        scan_string(s, i, StringDelimeter::of(c)->0)
    } else if c == '$' {
        scan_sigil(s, i)
    } else if is_digit(c) {
        scan_number(s, i)
    } else if is_letter(c) {
        scan_word(s, i)
    } else {
        Scanned { item: Ok(TokenModel::Unknown(c)), end: i + 1 }
    }
}

/// A lexeme takes at least one character and ends within the text.
pub proof fn lemma_scan_advances(s: Seq<char>, i: int)
    requires
        0 <= i < s.len(),
    ensures
        i < scan(s, i).end <= s.len(),
{
    lemma_run_end(s, i + 1, CharClass::Except(s[i]));
    lemma_run_end(s, i + 1, CharClass::CellRef);
    lemma_run_end(s, i + 1, CharClass::Number);
    lemma_run_end(s, i + 1, CharClass::Word);
}

/// The span in bytes of the characters from `start` to `end`.
pub open spec fn span_of(s: Seq<char>, start: int, end: int) -> Span {
    Span::between(byte_offset(s, start) as usize, byte_offset(s, end) as usize)
}

/// The tokens and the errors of a text, each list in the order of the text.
pub struct LexModel {
    pub tokens: Seq<WithSpan<TokenModel>>,
    pub errors: Seq<WithSpan<error::Kind>>,
}

/// The tokens and errors of `s` from place `i` on: white space is skipped,
/// then one lexeme is read, and so on to the end of the text. An error does
/// not end the scan.
pub open spec fn lex_from(s: Seq<char>, i: int) -> LexModel
    decreases s.len() - i,
{
    let start = run_end(s, i, CharClass::Whitespace);
    if 0 <= i <= start < s.len() {
        let scanned = scan(s, start);
        proof {
            lemma_scan_advances(s, start);
        }
        let rest = lex_from(s, scanned.end);
        let span = span_of(s, start, scanned.end);
        match scanned.item {
            Ok(token) => LexModel {
                tokens: seq![WithSpan { value: token, span }] + rest.tokens,
                errors: rest.errors,
            },
            Err(kind) => LexModel {
                tokens: rest.tokens,
                errors: seq![WithSpan { value: kind, span }] + rest.errors,
            },
        }
    } else {
        LexModel { tokens: Seq::empty(), errors: Seq::empty() }
    }
}

/// The tokens and the errors of a text.
pub open spec fn lex(s: Seq<char>) -> LexModel {
    lex_from(s, 0)
}

/// A text of white space holds no token and no error.
pub proof fn lemma_lex_blank(s: Seq<char>)
    requires
        forall|i: int| 0 <= i < s.len() ==> CharClass::Whitespace.holds(#[trigger] s[i]),
    ensures
        lex(s).tokens.len() == 0,
        lex(s).errors.len() == 0,
{
    crate::text::lemma_run_end_is(s, 0, CharClass::Whitespace, s.len() as int);
}

/// The first character of a text takes its bytes before the rest.
proof fn lemma_byte_len_first(s: Seq<char>)
    requires
        s.len() > 0,
    ensures
        byte_len(s) == utf8_len(s[0]) + byte_len(s.drop_first()),
    decreases s.len(),
{
    if s.len() == 1 {
        assert(s.drop_last() =~= Seq::<char>::empty());
        assert(s.drop_first() =~= Seq::<char>::empty());
    } else {
        lemma_byte_len_first(s.drop_last());
        assert(s.drop_last().drop_first() =~= s.drop_first().drop_last());
    }
}

/// The length in bytes is the length of the text's UTF-8 encoding.
pub proof fn lemma_byte_len_encoded(s: Seq<char>)
    ensures
        byte_len(s) == vstd::utf8::encode_utf8(s).len(),
    decreases s.len(),
{
    if s.len() > 0 {
        lemma_byte_len_first(s);
        lemma_byte_len_encoded(s.drop_first());
        vstd::utf8::char_is_scalar(s[0]);
    }
}

/// Offsets grow with the place, one character's bytes at a time, up to the
/// length of the text.
pub proof fn lemma_byte_offset_step(s: Seq<char>, i: int)
    requires
        0 <= i <= s.len(),
    ensures
        byte_offset(s, i) <= byte_len(s),
        i < s.len() ==> byte_offset(s, i + 1) == byte_offset(s, i) + utf8_len(s[i]),
        byte_offset(s, 0) == 0,
        byte_offset(s, s.len() as int) == byte_len(s),
    decreases s.len() - i,
{
    assert(s.take(s.len() as int) =~= s);
    assert(s.take(0) =~= Seq::<char>::empty());
    if i < s.len() {
        assert(s.take(i + 1).drop_last() =~= s.take(i));
        lemma_byte_offset_step(s, i + 1);
    }
}

/// A later place has a larger offset.
pub proof fn lemma_byte_offset_grows(s: Seq<char>, from: int, to: int)
    requires
        0 <= from < to <= s.len(),
    ensures
        byte_offset(s, from) < byte_offset(s, to),
    decreases to - from,
{
    lemma_byte_offset_step(s, to - 1);
    if from < to - 1 {
        lemma_byte_offset_grows(s, from, to - 1);
    }
}

/// Whether the spans lie between the offsets `from` and `to`, each holds a
/// byte at least, and each begins where the one before it has ended, or
/// later.
pub open spec fn spans_in_order<T>(items: Seq<WithSpan<T>>, from: int, to: int) -> bool {
    &&& forall|k: int|
        0 <= k < items.len() ==> from <= (#[trigger] items[k]).span.start.0
            < items[k].span.end.0 <= to
    &&& forall|j: int, k: int|
        0 <= j < k < items.len() ==> (#[trigger] items[j]).span.end.0
            <= (#[trigger] items[k]).span.start.0
}

/// The spans of the tokens lie within the text and follow one another, and so
/// do those of the errors.
pub proof fn lemma_lex_spans(s: Seq<char>, i: int)
    requires
        0 <= i <= s.len(),
        byte_len(s) <= usize::MAX,
    ensures
        spans_in_order(lex_from(s, i).tokens, byte_offset(s, i) as int, byte_len(s) as int),
        spans_in_order(lex_from(s, i).errors, byte_offset(s, i) as int, byte_len(s) as int),
    decreases s.len() - i,
{
    lemma_run_end(s, i, CharClass::Whitespace);
    let start = run_end(s, i, CharClass::Whitespace);
    if start < s.len() {
        lemma_scan_advances(s, start);
        let end = scan(s, start).end;
        let rest = lex_from(s, end);
        let found = lex_from(s, i);
        lemma_lex_spans(s, end);
        lemma_byte_offset_grows(s, start, end);
        lemma_byte_offset_step(s, end);
        lemma_byte_offset_step(s, i);
        if i < start {
            lemma_byte_offset_grows(s, i, start);
        }
        let span = span_of(s, start, end);
        assert(span.start.0 == byte_offset(s, start) && span.end.0 == byte_offset(s, end));
        match scan(s, start).item {
            Ok(token) => {
                assert forall|k: int| 0 <= k < found.tokens.len() implies byte_offset(s, i) <= (
                #[trigger] found.tokens[k]).span.start.0 < found.tokens[k].span.end.0
                    <= byte_len(s) by {
                    if k > 0 {
                        assert(found.tokens[k] == rest.tokens[k - 1]);
                    }
                }
                assert forall|j: int, k: int| 0 <= j < k < found.tokens.len() implies (
                #[trigger] found.tokens[j]).span.end.0 <= (
                #[trigger] found.tokens[k]).span.start.0 by {
                    assert(found.tokens[k] == rest.tokens[k - 1]);
                    if j > 0 {
                        assert(found.tokens[j] == rest.tokens[j - 1]);
                    }
                }
                assert(found.errors == rest.errors);
            },
            Err(kind) => {
                assert forall|k: int| 0 <= k < found.errors.len() implies byte_offset(s, i) <= (
                #[trigger] found.errors[k]).span.start.0 < found.errors[k].span.end.0
                    <= byte_len(s) by {
                    if k > 0 {
                        assert(found.errors[k] == rest.errors[k - 1]);
                    }
                }
                assert forall|j: int, k: int| 0 <= j < k < found.errors.len() implies (
                #[trigger] found.errors[j]).span.end.0 <= (
                #[trigger] found.errors[k]).span.start.0 by {
                    assert(found.errors[k] == rest.errors[k - 1]);
                    if j > 0 {
                        assert(found.errors[j] == rest.errors[j - 1]);
                    }
                }
                assert(found.tokens == rest.tokens);
            },
        }
    } else {
        lemma_byte_offset_step(s, i);
    }
}

/// The lexer's cursor over the characters of a source text.
pub struct Scanner {
    /// The characters of the source.
    pub chars: Vec<char>,
    /// The place of the next character.
    pub cursor: usize,
    /// The offset in bytes of the next character.
    pub pos: usize,
}

impl Scanner {
    /// The cursor stands within the text, and `pos` is its offset in bytes.
    pub open spec fn wf(&self) -> bool {
        &&& self.cursor <= self.chars.len()
        &&& self.pos == byte_offset(self.chars@, self.cursor as int)
        &&& byte_len(self.chars@) <= usize::MAX
    }

    /// A scanner at the start of `src`.
    pub fn new(src: &str) -> (scanner: Self)
        ensures
            scanner.wf(),
            scanner.chars@ == src@,
            scanner.cursor == 0,
    {
        let chars = chars_of(src);
        let bytes = src.as_bytes();
        proof {
            vstd::slice::axiom_spec_len(bytes);
            lemma_byte_len_encoded(src@);
            lemma_byte_offset_step(src@, 0);
        }
        Self { chars, cursor: 0, pos: 0 }
    }

    /// The next character, if the cursor has not reached the end.
    pub open spec fn spec_peek(&self) -> Option<char> {
        if self.cursor < self.chars.len() {
            Some(self.chars@[self.cursor as int])
        } else {
            None
        }
    }

    /// Peek at the next character without consuming it.
    #[verifier::when_used_as_spec(spec_peek)]
    pub fn peek(&self) -> (next: Option<char>)
        requires
            self.wf(),
        ensures
            next == self.spec_peek(),
    {
        if self.cursor < self.chars.len() {
            Some(self.chars[self.cursor])
        } else {
            None
        }
    }

    /// Consume the next character.
    pub fn next(&mut self) -> (next: Option<char>)
        requires
            old(self).wf(),
        ensures
            final(self).wf(),
            final(self).chars == old(self).chars,
            next == old(self).peek(),
            final(self).cursor == if next is Some {
                old(self).cursor + 1
            } else {
                old(self).cursor as int
            },
    {
        if self.cursor < self.chars.len() {
            let c: char = self.chars[self.cursor];
            let v: u32 = c as u32;
            let width: usize = if v < 0x80 {
                1
            } else if v < 0x800 {
                2
            } else if v < 0x10000 {
                3
            } else {
                4
            };
            proof {
                lemma_byte_offset_step(self.chars@, self.cursor as int);
                lemma_byte_offset_step(self.chars@, self.cursor + 1);
            }
            self.pos = self.pos + width;
            self.cursor = self.cursor + 1;
            Some(c)
        } else {
            None
        }
    }

    /// Consume the next character if it is equal to the expected one.
    pub fn next_if_eq(&mut self, expected: char) -> (next: Option<char>)
        requires
            old(self).wf(),
        ensures
            final(self).wf(),
            final(self).chars == old(self).chars,
            next == if old(self).peek() == Some(expected) {
                Some(expected)
            } else {
                None
            },
            final(self).cursor == if next is Some {
                old(self).cursor + 1
            } else {
                old(self).cursor as int
            },
    {
        match self.peek() {
            Some(c) => if c == expected {
                self.next()
            } else {
                None
            },
            None => None,
        }
    }
}

/// What [`tokenize`] found.
pub struct Lex {
    pub tokens: Vec<WithSpan<Token>>,
    pub errors: Vec<WithSpan<error::Kind>>,
}

impl From<Lexer> for Lex {
    fn from(lexer: Lexer) -> (lex: Self) {
        Lex { tokens: lexer.tokens, errors: lexer.errors }
    }
}

impl vstd::std_specs::convert::FromSpecImpl<Lexer> for Lex {
    open spec fn obeys_from_spec() -> bool {
        true
    }

    open spec fn from_spec(lexer: Lexer) -> Self {
        Lex { tokens: lexer.tokens, errors: lexer.errors }
    }
}

impl Lex {
    /// Whether the text held neither a token nor an error.
    pub fn is_empty(&self) -> (empty: bool)
        ensures
            empty == (self.tokens.len() == 0 && self.errors.len() == 0),
    {
        self.tokens.len() == 0 && self.errors.len() == 0
    }

    /// The mathematical value of what was found.
    pub open spec fn model(&self) -> LexModel {
        LexModel { tokens: self.tokens.deep_view(), errors: self.errors.deep_view() }
    }
}

/// How often `c` occurs in `chars`.
fn count_of(chars: &Vec<char>, c: char) -> (n: usize)
    ensures
        n == occurrences(chars@, c),
{
    let mut n: usize = 0;
    let mut i: usize = 0;
    while i < chars.len()
        invariant
            i <= chars.len(),
            n <= i,
            n == occurrences(chars@.take(i as int), c),
        decreases chars.len() - i,
    {
        assert(chars@.take(i + 1).drop_last() =~= chars@.take(i as int));
        if chars[i] == c {
            n += 1;
        }
        i += 1;
    }
    assert(chars@.take(chars.len() as int) =~= chars@);
    n
}

/// The characters of `chars`, each letter in lower case.
fn lowered(chars: &Vec<char>) -> (low: Vec<char>)
    ensures
        low@ == lower_text(chars@),
{
    let mut low: Vec<char> = Vec::new();
    let mut i: usize = 0;
    while i < chars.len()
        invariant
            i <= chars.len(),
            low@ == lower_text(chars@.take(i as int)),
        decreases chars.len() - i,
    {
        low.push(char_lower(chars[i]));
        assert(low@ =~= lower_text(chars@.take(i + 1)));
        i += 1;
    }
    assert(chars@.take(chars.len() as int) =~= chars@);
    low
}

/// The lexer: a scanner and what it has found so far.
pub struct Lexer {
    /// Source code input.
    pub it: Scanner,
    pub tokens: Vec<WithSpan<Token>>,
    pub errors: Vec<WithSpan<error::Kind>>,
}

/// What the lexer hands out at each step: a token or an error, with its span.
pub open spec fn spanned(s: Seq<char>, start: int) -> Result<
    WithSpan<TokenModel>,
    WithSpan<error::Kind>,
> {
    let scanned = scan(s, start);
    let span = span_of(s, start, scanned.end);
    match scanned.item {
        Ok(token) => Ok(WithSpan { value: token, span }),
        Err(kind) => Err(WithSpan { value: kind, span }),
    }
}

/// The mathematical value of what the lexer hands out.
pub open spec fn spanned_view(
    item: Result<WithSpan<Token>, WithSpan<error::Kind>>,
) -> Result<WithSpan<TokenModel>, WithSpan<error::Kind>> {
    match item {
        Ok(token) => Ok(token.deep_view()),
        Err(kind) => Err(kind),
    }
}

impl Lexer {
    /// A lexer at the start of `src`, with nothing found yet.
    pub fn new(src: &str) -> (lexer: Self)
        ensures
            lexer.it.wf(),
            lexer.it.chars@ == src@,
            lexer.it.cursor == 0,
            lexer.tokens@.len() == 0,
            lexer.errors@.len() == 0,
    {
        Self { it: Scanner::new(src), tokens: Vec::new(), errors: Vec::new() }
    }

    /// Validates if the character is valid within an identifier.
    /// Valid characters are alphabetic (`a-z`, `A-Z`) and underscore (`_`).
    pub fn is_valid_ident_char(ch: char) -> (valid: bool)
        ensures
            valid == (is_letter(ch) || ch == '_'),
    {
        char_is_letter(ch) || ch == '_'
    }

    /// Validates if the character is valid within a cell reference.
    /// Valid characters are alphanumeric (`a-z`, `A-Z`, `0 - 9`), exclamation (`!`), and dollar (`$`).
    pub fn is_valid_cell_ref_char(ch: char) -> (valid: bool)
        ensures
            valid == CharClass::CellRef.holds(ch),
    {
        char_is_alphanumeric(ch) || ch == '!' || ch == '$'
    }

    /// Validates if the character is valid within an identifier or cell reference.
    pub fn is_valid_ident_or_cell_ref_char(ch: char) -> (valid: bool)
        ensures
            valid == CharClass::Word.holds(ch),
    {
        Self::is_valid_ident_char(ch) || Self::is_valid_cell_ref_char(ch)
    }

    /// Consumes the next character if it is `to_match`, and says which of
    /// the two tokens was read.
    pub fn next_if_else(&mut self, to_match: char, matched: Token, unmatched: Token) -> (token:
        Token)
        requires
            old(self).it.wf(),
        ensures
            final(self).it.wf(),
            final(self).it.chars == old(self).it.chars,
            final(self).tokens == old(self).tokens,
            final(self).errors == old(self).errors,
            old(self).it.peek() == Some(to_match) ==> token == matched && final(self).it.cursor
                == old(self).it.cursor + 1,
            old(self).it.peek() != Some(to_match) ==> token == unmatched && final(self).it.cursor
                == old(self).it.cursor,
    {
        if self.it.next_if_eq(to_match).is_some() {
            matched
        } else {
            unmatched
        }
    }

    /// Consumes the longest run of characters of `class`, and returns it.
    pub fn next_while(&mut self, class: CharClass) -> (run: Vec<char>)
        requires
            old(self).it.wf(),
        ensures
            final(self).it.wf(),
            final(self).it.chars == old(self).it.chars,
            final(self).tokens == old(self).tokens,
            final(self).errors == old(self).errors,
            final(self).it.cursor == run_end(
                old(self).it.chars@,
                old(self).it.cursor as int,
                class,
            ),
            run@ == old(self).it.chars@.subrange(
                old(self).it.cursor as int,
                final(self).it.cursor as int,
            ),
    {
        let start: usize = self.it.cursor;
        let mut run: Vec<char> = Vec::new();
        loop
            invariant
                self.it.wf(),
                self.it.chars == old(self).it.chars,
                self.tokens == old(self).tokens,
                self.errors == old(self).errors,
                start == old(self).it.cursor,
                start <= self.it.cursor,
                run@ == self.it.chars@.subrange(start as int, self.it.cursor as int),
                forall|k: int| start <= k < self.it.cursor ==> class.holds(
                    #[trigger] self.it.chars@[k],
                ),
            ensures
                self.it.wf(),
                self.it.chars == old(self).it.chars,
                self.tokens == old(self).tokens,
                self.errors == old(self).errors,
                start <= self.it.cursor,
                run@ == self.it.chars@.subrange(start as int, self.it.cursor as int),
                forall|k: int| start <= k < self.it.cursor ==> class.holds(
                    #[trigger] self.it.chars@[k],
                ),
                self.it.cursor < self.it.chars.len() ==> !class.holds(
                    self.it.chars@[self.it.cursor as int],
                ),
            decreases self.it.chars.len() - self.it.cursor,
        {
            match self.it.peek() {
                Some(ch) => {
                    if class.contains(ch) {
                        let ghost before = self.it.cursor;
                        self.it.next();
                        run.push(ch);
                        assert(run@ =~= self.it.chars@.subrange(
                            start as int,
                            self.it.cursor as int,
                        ));
                    } else {
                        break ;
                    }
                },
                None => {
                    break ;
                },
            }
        }
        proof {
            crate::text::lemma_run_end_is(
                self.it.chars@,
                start as int,
                class,
                self.it.cursor as int,
            );
        }
        run
    }

    /// Consumes the longest run of characters of `class`, and returns it
    /// after `first`, the character before it.
    fn next_run(&mut self, first: char, class: CharClass) -> (run: Vec<char>)
        requires
            old(self).it.wf(),
            0 < old(self).it.cursor,
            old(self).it.chars@[old(self).it.cursor - 1] == first,
        ensures
            final(self).it.wf(),
            final(self).it.chars == old(self).it.chars,
            final(self).tokens == old(self).tokens,
            final(self).errors == old(self).errors,
            final(self).it.cursor == run_end(
                old(self).it.chars@,
                old(self).it.cursor as int,
                class,
            ),
            run@ == old(self).it.chars@.subrange(
                old(self).it.cursor - 1,
                final(self).it.cursor as int,
            ),
    {
        proof {
            lemma_run_end(self.it.chars@, self.it.cursor as int, class);
        }
        let mut rest = self.next_while(class);
        let mut run: Vec<char> = Vec::new();
        run.push(first);
        run.append(&mut rest);
        assert(run@ =~= self.it.chars@.subrange(
            old(self).it.cursor - 1,
            self.it.cursor as int,
        ));
        run
    }

    /// Reads the next lexeme, if the text holds one more.
    pub fn match_next_token(&mut self) -> (next: Option<
        Result<WithSpan<Token>, WithSpan<error::Kind>>,
    >)
        requires
            old(self).it.wf(),
        ensures
            final(self).it.wf(),
            final(self).it.chars == old(self).it.chars,
            final(self).tokens == old(self).tokens,
            final(self).errors == old(self).errors,
            ({
                let s = old(self).it.chars@;
                let start = run_end(s, old(self).it.cursor as int, CharClass::Whitespace);
                if start < s.len() {
                    &&& next is Some
                    &&& spanned_view(next->0) == spanned(s, start)
                    &&& final(self).it.cursor == scan(s, start).end
                } else {
                    &&& next is None
                    &&& final(self).it.cursor == s.len()
                }
            }),
    {
        let ghost s = self.it.chars@;
        proof {
            lemma_run_end(s, self.it.cursor as int, CharClass::Whitespace);
        }
        self.next_while(CharClass::Whitespace);
        let start: usize = self.it.cursor;
        let pos_start: usize = self.it.pos;
        let Some(c) = self.it.next() else {
            return None;
        };
        proof {
            lemma_scan_advances(s, start as int);
        }
        let token = match c {
            ':' => Ok(WithSpan::new(Token::Colon, pos_start, self.it.pos)),
            ',' => Ok(WithSpan::new(Token::Comma, pos_start, self.it.pos)),
            '-' => Ok(WithSpan::new(Token::Minus, pos_start, self.it.pos)),
            '(' => Ok(WithSpan::new(Token::ParenLeft, pos_start, self.it.pos)),
            ')' => Ok(WithSpan::new(Token::ParenRight, pos_start, self.it.pos)),
            '%' => Ok(WithSpan::new(Token::Percent, pos_start, self.it.pos)),
            '+' => Ok(WithSpan::new(Token::Plus, pos_start, self.it.pos)),
            '/' => Ok(WithSpan::new(Token::SlashForward, pos_start, self.it.pos)),
            '*' => {
                let token = self.next_if_else('*', Token::StarStar, Token::Star);
                Ok(WithSpan::new(token, pos_start, self.it.pos))
            },
            '!' => {
                let token = self.next_if_else('=', Token::BangEqual, Token::Bang);
                Ok(WithSpan::new(token, pos_start, self.it.pos))
            },
            '<' => {
                let token = self.next_if_else('=', Token::LessEqual, Token::Less);
                Ok(WithSpan::new(token, pos_start, self.it.pos))
            },
            '>' => {
                let token = self.next_if_else('=', Token::GreaterEqual, Token::Greater);
                Ok(WithSpan::new(token, pos_start, self.it.pos))
            },
            '=' => {
                let token = self.next_if_else('=', Token::EqualEqual, Token::Equal);
                Ok(WithSpan::new(token, pos_start, self.it.pos))
            },
            '\'' | '"' => {
                let run = self.next_while(CharClass::Except(c));
                let value = string_of(&run, 0, run.len());
                assert(run@.subrange(0, run@.len() as int) =~= run@);
                let delimeter = if c == '\'' {
                    StringDelimeter::QuoteSingle
                } else {
                    StringDelimeter::QuoteDouble
                };
                if self.it.next().is_some() {
                    Ok(WithSpan::new(Token::String { value, delimeter }, pos_start, self.it.pos))
                } else {
                    Err(WithSpan::new(error::Kind::UnterminatedString, pos_start, self.it.pos))
                }
            },
            '$' => {
                let run = self.next_run(c, CharClass::CellRef);
                match CellRef::from_chars(&run) {
                    Some(cell) => Ok(WithSpan::new(Token::CellRef(cell), pos_start, self.it.pos)),
                    None => Err(
                        WithSpan::new(error::Kind::InvalidCellRef, pos_start, self.it.pos),
                    ),
                }
            },
            _ => {
                if char_is_digit(c) {
                    let run = self.next_run(c, CharClass::Number);
                    if run[run.len() - 1] == '.' {
                        Err(WithSpan::new(error::Kind::RadixTerminator, pos_start, self.it.pos))
                    } else if count_of(&run, '.') > 1 {
                        Err(
                            WithSpan::new(
                                error::Kind::MultipleRadixPoints,
                                pos_start,
                                self.it.pos,
                            ),
                        )
                    } else {
                        let value = string_of(&run, 0, run.len());
                        assert(run@.subrange(0, run@.len() as int) =~= run@);
                        Ok(WithSpan::new(Token::Number(value), pos_start, self.it.pos))
                    }
                } else if char_is_letter(c) {
                    let run = self.next_run(c, CharClass::Word);
                    match CellRef::from_chars(&run) {
                        Some(cell) => Ok(
                            WithSpan::new(Token::CellRef(cell), pos_start, self.it.pos),
                        ),
                        None => {
                            let low = lowered(&run);
                            match Keyword::from_chars(&low) {
                                Some(word) => Ok(
                                    WithSpan::new(Token::Keyword(word), pos_start, self.it.pos),
                                ),
                                None => {
                                    let value = string_of(&run, 0, run.len());
                                    assert(run@.subrange(0, run@.len() as int) =~= run@);
                                    Ok(
                                        WithSpan::new(
                                            Token::Identifier(value),
                                            pos_start,
                                            self.it.pos,
                                        ),
                                    )
                                },
                            }
                        },
                    }
                } else {
                    Ok(WithSpan::new(Token::Unknown(c), pos_start, self.it.pos))
                }
            },
        };
        Some(token)
    }

    /// Reads the rest of the text, and adds what it finds to the tokens and
    /// the errors.
    pub fn tokenize(&mut self)
        requires
            old(self).it.wf(),
        ensures
            final(self).it.wf(),
            final(self).it.chars == old(self).it.chars,
            final(self).tokens.deep_view() == old(self).tokens.deep_view() + lex_from(
                old(self).it.chars@,
                old(self).it.cursor as int,
            ).tokens,
            final(self).errors.deep_view() == old(self).errors.deep_view() + lex_from(
                old(self).it.chars@,
                old(self).it.cursor as int,
            ).errors,
    {
        let ghost s = self.it.chars@;
        let ghost all = lex_from(s, self.it.cursor as int);
        loop
            invariant
                self.it.wf(),
                self.it.chars == old(self).it.chars,
                s == self.it.chars@,
                all == lex_from(s, old(self).it.cursor as int),
                old(self).tokens.deep_view() + all.tokens == self.tokens.deep_view() + lex_from(
                    s,
                    self.it.cursor as int,
                ).tokens,
                old(self).errors.deep_view() + all.errors == self.errors.deep_view() + lex_from(
                    s,
                    self.it.cursor as int,
                ).errors,
            ensures
                self.it.wf(),
                self.it.chars == old(self).it.chars,
                self.tokens.deep_view() =~= old(self).tokens.deep_view() + all.tokens,
                self.errors.deep_view() =~= old(self).errors.deep_view() + all.errors,
            decreases s.len() - self.it.cursor,
        {
            let ghost cursor = self.it.cursor as int;
            let ghost tokens = self.tokens.deep_view();
            let ghost errors = self.errors.deep_view();
            proof {
                lemma_run_end(s, cursor, CharClass::Whitespace);
                let start = run_end(s, cursor, CharClass::Whitespace);
                if start < s.len() {
                    lemma_scan_advances(s, start);
                }
            }
            match self.match_next_token() {
                Some(Ok(token)) => {
                    self.tokens.push(token);
                    proof {
                        let rest = lex_from(s, self.it.cursor as int);
                        assert(self.tokens.deep_view() =~= tokens.push(token.deep_view()));
                        assert(tokens.push(token.deep_view()) + rest.tokens =~= tokens + (
                        seq![token.deep_view()] + rest.tokens));
                    }
                },
                Some(Err(kind)) => {
                    self.errors.push(kind);
                    proof {
                        let rest = lex_from(s, self.it.cursor as int);
                        assert(self.errors.deep_view() =~= errors.push(kind));
                        assert(errors.push(kind) + rest.errors =~= errors + (seq![kind]
                            + rest.errors));
                    }
                },
                None => {
                    assert(self.tokens.deep_view() + Seq::empty() =~= self.tokens.deep_view());
                    assert(self.errors.deep_view() + Seq::empty() =~= self.errors.deep_view());
                    break ;
                },
            }
        }
    }
}

/// The tokens and the lexical errors of a formula, with their spans in
/// bytes. An error does not end the scan.
pub fn tokenize(src: &str) -> (lex: Lex)
    ensures
        lex.model() == self::lex(src@),
{
    let mut lexer = Lexer::new(src);
    assert(lexer.tokens.deep_view() =~= Seq::empty());
    assert(lexer.errors.deep_view() =~= Seq::empty());
    lexer.tokenize();
    let lex = Lex::from(lexer);
    assert(lex.model().tokens =~= self::lex(src@).tokens);
    assert(lex.model().errors =~= self::lex(src@).errors);
    lex
}

} // verus!
