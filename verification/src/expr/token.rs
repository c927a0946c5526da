//! The tokens of a formula.

use crate::data::{CellRef, CellRefModel};
use vstd::prelude::*;

verus! {

/// A reserved word.
#[derive(Debug, Clone, Copy, PartialEq, Eq, Structural)]
pub enum Keyword {
    True,
    False,
    And,
    Or,
    Sum,
}

/// How a keyword is spelled.
pub open spec fn keyword_text(word: Keyword) -> Seq<char> {
    match word {
        Keyword::True => seq!['t', 'r', 'u', 'e'],
        Keyword::False => seq!['f', 'a', 'l', 's', 'e'],
        Keyword::And => seq!['a', 'n', 'd'],
        Keyword::Or => seq!['o', 'r'],
        Keyword::Sum => seq!['s', 'u', 'm'],
    }
}

/// The keyword that `text` spells, letter for letter.
pub open spec fn keyword_of(text: Seq<char>) -> Option<Keyword> {
    if text == keyword_text(Keyword::True) {
        Some(Keyword::True)
    } else if text == keyword_text(Keyword::False) {
        Some(Keyword::False)
    } else if text == keyword_text(Keyword::And) {
        Some(Keyword::And)
    } else if text == keyword_text(Keyword::Or) {
        Some(Keyword::Or)
    } else if text == keyword_text(Keyword::Sum) {
        Some(Keyword::Sum)
    } else {
        None
    }
}

/// Whether `chars` spells `word`.
fn spells(chars: &Vec<char>, word: &str) -> (b: bool)
    ensures
        b == (chars@ == word@),
{
    let expected = crate::text::chars_of(word);
    if chars.len() != expected.len() {
        return false;
    }
    let mut i: usize = 0;
    while i < chars.len()
        invariant
            i <= chars.len(),
            chars.len() == expected.len(),
            expected@ == word@,
            forall|k: int| 0 <= k < i ==> chars@[k] == expected@[k],
        decreases chars.len() - i,
    {
        if chars[i] != expected[i] {
            assert(chars@[i as int] != word@[i as int]);
            return false;
        }
        i += 1;
    }
    assert(chars@ =~= expected@);
    true
}

impl Keyword {
    /// How the keyword is spelled.
    pub fn as_str(&self) -> (text: &'static str)
        ensures
            text@ == keyword_text(*self),
    {
        proof {
            reveal_strlit("true");
            reveal_strlit("false");
            reveal_strlit("and");
            reveal_strlit("or");
            reveal_strlit("sum");
        }
        let text = match self {
            Keyword::True => "true",
            Keyword::False => "false",
            Keyword::And => "and",
            Keyword::Or => "or",
            Keyword::Sum => "sum",
        };
        assert(text@ =~= keyword_text(*self));
        text
    }

    /// The keyword that `chars` spells.
    pub fn from_chars(chars: &Vec<char>) -> (word: Option<Self>)
        ensures
            word == keyword_of(chars@),
    {
        if spells(chars, Keyword::True.as_str()) {
            Some(Keyword::True)
        } else if spells(chars, Keyword::False.as_str()) {
            Some(Keyword::False)
        } else if spells(chars, Keyword::And.as_str()) {
            Some(Keyword::And)
        } else if spells(chars, Keyword::Or.as_str()) {
            Some(Keyword::Or)
        } else if spells(chars, Keyword::Sum.as_str()) {
            Some(Keyword::Sum)
        } else {
            None
        }
    }

    /// The keyword that `value` spells, letter for letter.
    pub fn from_str(value: &str) -> (word: Option<Self>)
        ensures
            word == keyword_of(value@),
    {
        let chars = crate::text::chars_of(value);
        Self::from_chars(&chars)
    }
}

/// The quote that opens and closes a string.
#[derive(Debug, Clone, Copy, PartialEq, Eq, Structural)]
pub enum StringDelimeter {
    /// `'`
    QuoteSingle,
    /// `"`
    QuoteDouble,
}

impl StringDelimeter {
    /// The delimiter that `c` is.
    pub open spec fn of(c: char) -> Option<Self> {
        if c == '\'' {
            Some(Self::QuoteSingle)
        } else if c == '"' {
            Some(Self::QuoteDouble)
        } else {
            None
        }
    }

    /// The delimiter that `c` is.
    pub fn from_char(c: char) -> (delimeter: Option<Self>)
        ensures
            delimeter == Self::of(c),
    {
        match c {
            '\'' => Some(Self::QuoteSingle),
            '"' => Some(Self::QuoteDouble),
            _ => None,
        }
    }
}

/// A token of a formula.
#[derive(Debug, Clone, PartialEq, Eq)]
pub enum Token {
    Bang,
    BangEqual,
    CellRef(CellRef),
    Colon,
    Comma,
    Equal,
    EqualEqual,
    Greater,
    GreaterEqual,
    Identifier(String),
    Less,
    LessEqual,
    Minus,
    /// A number, as it was written.
    Number(String),
    ParenLeft,
    ParenRight,
    Percent,
    Plus,
    Keyword(Keyword),
    SlashForward,
    Star,
    StarStar,
    String { value: String, delimeter: StringDelimeter },
    Unknown(char),
}

/// The mathematical value of a [`Token`].
pub enum TokenModel {
    Bang,
    BangEqual,
    CellRef(CellRefModel),
    Colon,
    Comma,
    Equal,
    EqualEqual,
    Greater,
    GreaterEqual,
    Identifier(Seq<char>),
    Less,
    LessEqual,
    Minus,
    Number(Seq<char>),
    ParenLeft,
    ParenRight,
    Percent,
    Plus,
    Keyword(Keyword),
    SlashForward,
    Star,
    StarStar,
    String { value: Seq<char>, delimeter: StringDelimeter },
    Unknown(char),
}

impl View for Token {
    type V = TokenModel;

    open spec fn view(&self) -> TokenModel {
        match self {
            Token::Bang => TokenModel::Bang,
            Token::BangEqual => TokenModel::BangEqual,
            Token::CellRef(cell) => TokenModel::CellRef(cell@),
            Token::Colon => TokenModel::Colon,
            Token::Comma => TokenModel::Comma,
            Token::Equal => TokenModel::Equal,
            Token::EqualEqual => TokenModel::EqualEqual,
            Token::Greater => TokenModel::Greater,
            Token::GreaterEqual => TokenModel::GreaterEqual,
            Token::Identifier(name) => TokenModel::Identifier(name@),
            Token::Less => TokenModel::Less,
            Token::LessEqual => TokenModel::LessEqual,
            Token::Minus => TokenModel::Minus,
            Token::Number(text) => TokenModel::Number(text@),
            Token::ParenLeft => TokenModel::ParenLeft,
            Token::ParenRight => TokenModel::ParenRight,
            Token::Percent => TokenModel::Percent,
            Token::Plus => TokenModel::Plus,
            Token::Keyword(word) => TokenModel::Keyword(*word),
            Token::SlashForward => TokenModel::SlashForward,
            Token::Star => TokenModel::Star,
            Token::StarStar => TokenModel::StarStar,
            Token::String { value, delimeter } => TokenModel::String {
                value: value@,
                delimeter: *delimeter,
            },
            Token::Unknown(c) => TokenModel::Unknown(*c),
        }
    }
}

impl DeepView for Token {
    type V = TokenModel;

    open spec fn deep_view(&self) -> TokenModel {
        self@
    }
}

/// Kind of token without any data.
#[derive(Debug, Clone, Copy, PartialEq, Eq, Structural)]
pub enum Kind {
    Bang,
    BangEqual,
    CellRef,
    Colon,
    Comma,
    Equal,
    EqualEqual,
    Greater,
    GreaterEqual,
    Identifier,
    Less,
    LessEqual,
    Minus,
    Number,
    ParenLeft,
    ParenRight,
    Percent,
    Plus,
    Keyword(Keyword),
    SlashForward,
    Star,
    StarStar,
    String,
    Unknown,
}

impl Kind {
    /// The kind of a token.
    pub open spec fn of(token: TokenModel) -> Kind {
        match token {
            TokenModel::Bang => Kind::Bang,
            TokenModel::BangEqual => Kind::BangEqual,
            TokenModel::CellRef(_) => Kind::CellRef,
            TokenModel::Colon => Kind::Colon,
            TokenModel::Comma => Kind::Comma,
            TokenModel::Equal => Kind::Equal,
            TokenModel::EqualEqual => Kind::EqualEqual,
            TokenModel::Greater => Kind::Greater,
            TokenModel::GreaterEqual => Kind::GreaterEqual,
            TokenModel::Identifier(_) => Kind::Identifier,
            TokenModel::Less => Kind::Less,
            TokenModel::LessEqual => Kind::LessEqual,
            TokenModel::Minus => Kind::Minus,
            TokenModel::Number(_) => Kind::Number,
            TokenModel::ParenLeft => Kind::ParenLeft,
            TokenModel::ParenRight => Kind::ParenRight,
            TokenModel::Percent => Kind::Percent,
            TokenModel::Plus => Kind::Plus,
            TokenModel::Keyword(word) => Kind::Keyword(word),
            TokenModel::SlashForward => Kind::SlashForward,
            TokenModel::Star => Kind::Star,
            TokenModel::StarStar => Kind::StarStar,
            TokenModel::String { .. } => Kind::String,
            TokenModel::Unknown(_) => Kind::Unknown,
        }
    }

    /// The kind of a token.
    pub fn from_token(token: &Token) -> (kind: Self)
        ensures
            kind == Self::of(token@),
    {
        match token {
            Token::Bang => Self::Bang,
            Token::BangEqual => Self::BangEqual,
            Token::Colon => Self::Colon,
            Token::Comma => Self::Comma,
            Token::Equal => Self::Equal,
            Token::EqualEqual => Self::EqualEqual,
            Token::Greater => Self::Greater,
            Token::GreaterEqual => Self::GreaterEqual,
            Token::Identifier(_) => Self::Identifier,
            Token::Less => Self::Less,
            Token::LessEqual => Self::LessEqual,
            Token::Minus => Self::Minus,
            Token::Number(_) => Self::Number,
            Token::ParenLeft => Self::ParenLeft,
            Token::ParenRight => Self::ParenRight,
            Token::Percent => Self::Percent,
            Token::Plus => Self::Plus,
            Token::CellRef(_) => Self::CellRef,
            Token::Keyword(word) => Self::Keyword(*word),
            Token::SlashForward => Self::SlashForward,
            Token::Star => Self::Star,
            Token::StarStar => Self::StarStar,
            Token::String { .. } => Self::String,
            Token::Unknown(_) => Self::Unknown,
        }
    }
}

} // verus!
