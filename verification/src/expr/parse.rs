//! The parser: from tokens to a syntax tree, by precedence climbing.

use crate::expr::ast::{
    is_supported, Expr, ExprBinary, ExprGroup, ExprLiteral, ExprModel, ExprUnary, GroupDelimeter, LitBool,
    LitCellRef, LitNumber, LitString, OpBinary, OpUnary,
};
use crate::expr::position::{Span, WithSpan};
use crate::expr::token::{self, Keyword, Token, TokenModel};
use vstd::prelude::*;

pub mod error;

verus! {

/// How tightly a token binds what stands on its two sides.
#[derive(Clone, Copy, Debug, PartialEq, Eq, Structural)]
pub enum Precedence {
    /// What binds nothing: a closing parenthesis.
    Lowest,
    /// ||
    Or,
    /// &&
    And,
    /// == != <= >= < >
    Compare,
    /// + -
    Sum,
    /// * / %
    Product,
    /// **
    Exponent,
    /// ! -
    Prefix,
    /// Functions
    Unambiguous,
}

impl Precedence {
    /// The place of a precedence among the others, from the loosest up.
    pub open spec fn spec_level(self) -> u8 {
        match self {
            Precedence::Lowest => 0,
            Precedence::Or => 1,
            Precedence::And => 2,
            Precedence::Compare => 3,
            Precedence::Sum => 4,
            Precedence::Product => 5,
            Precedence::Exponent => 6,
            Precedence::Prefix => 7,
            Precedence::Unambiguous => 8,
        }
    }

    /// The place of the precedence among the others, from the loosest up.
    #[verifier::when_used_as_spec(spec_level)]
    pub fn level(self) -> (level: u8)
        ensures
            level == self.spec_level(),
    {
        match self {
            Precedence::Lowest => 0,
            Precedence::Or => 1,
            Precedence::And => 2,
            Precedence::Compare => 3,
            Precedence::Sum => 4,
            Precedence::Product => 5,
            Precedence::Exponent => 6,
            Precedence::Prefix => 7,
            Precedence::Unambiguous => 8,
        }
    }

    /// The precedence of a token that follows an expression.
    pub open spec fn spec_of(kind: token::Kind) -> Precedence {
        match kind {
            token::Kind::ParenRight => Precedence::Lowest,
            token::Kind::Bang
            | token::Kind::BangEqual
            | token::Kind::EqualEqual
            | token::Kind::Greater
            | token::Kind::GreaterEqual
            | token::Kind::Less
            | token::Kind::LessEqual => Precedence::Compare,
            token::Kind::Plus | token::Kind::Minus => Precedence::Sum,
            token::Kind::Star | token::Kind::SlashForward | token::Kind::Percent => {
                Precedence::Product
            },
            token::Kind::StarStar => Precedence::Exponent,
            token::Kind::Keyword(Keyword::And) => Precedence::And,
            token::Kind::Keyword(Keyword::Or) => Precedence::Or,
            token::Kind::Equal => Precedence::Prefix,
            token::Kind::Keyword(_)
            | token::Kind::CellRef
            | token::Kind::Colon
            | token::Kind::Comma
            | token::Kind::Identifier
            | token::Kind::Number
            | token::Kind::ParenLeft
            | token::Kind::String
            | token::Kind::Unknown => Precedence::Unambiguous,
        }
    }

    /// The precedence of a token that follows an expression.
    pub fn of(token: &token::Kind) -> (precedence: Self)
        ensures
            precedence == Self::spec_of(*token),
    {
        match token {
            token::Kind::ParenRight => Self::Lowest,
            token::Kind::Bang
            | token::Kind::BangEqual
            | token::Kind::EqualEqual
            | token::Kind::Greater
            | token::Kind::GreaterEqual
            | token::Kind::Less
            | token::Kind::LessEqual => Self::Compare,
            token::Kind::Plus | token::Kind::Minus => Self::Sum,
            token::Kind::Star | token::Kind::SlashForward | token::Kind::Percent => Self::Product,
            token::Kind::StarStar => Self::Exponent,
            token::Kind::Keyword(Keyword::And) => Self::And,
            token::Kind::Keyword(Keyword::Or) => Self::Or,
            token::Kind::Equal => Self::Prefix,
            token::Kind::Keyword(_)
            | token::Kind::CellRef
            | token::Kind::Colon
            | token::Kind::Comma
            | token::Kind::Identifier
            | token::Kind::Number
            | token::Kind::ParenLeft
            | token::Kind::String
            | token::Kind::Unknown => Self::Unambiguous,
        }
    }
}

/// The tokens that an expression may begin with.
pub open spec fn valid_prefix_kinds() -> Seq<token::Kind> {
    seq![
        token::Kind::Bang,
        token::Kind::CellRef,
        token::Kind::Identifier,
        token::Kind::Minus,
        token::Kind::Number,
        token::Kind::ParenLeft,
        token::Kind::Keyword(Keyword::True),
        token::Kind::Keyword(Keyword::False),
        token::Kind::Keyword(Keyword::Sum),
        token::Kind::String,
    ]
}

/// The tokens that may follow an expression.
pub open spec fn valid_infix_kinds() -> Seq<token::Kind> {
    seq![
        token::Kind::Bang,
        token::Kind::BangEqual,
        token::Kind::EqualEqual,
        token::Kind::Greater,
        token::Kind::GreaterEqual,
        token::Kind::Less,
        token::Kind::LessEqual,
        token::Kind::Minus,
        token::Kind::ParenLeft,
        token::Kind::ParenRight,
        token::Kind::Percent,
        token::Kind::Plus,
        token::Kind::SlashForward,
        token::Kind::Star,
        token::Kind::StarStar,
    ]
}

/// The span of the one token at place `i`. At the largest place that a
/// machine can count to, the span is empty.
pub open spec fn point(i: int) -> Span {
    Span::between(
        i as usize,
        if i < usize::MAX {
            (i + 1) as usize
        } else {
            i as usize
        },
    )
}

/// An expression and the place of the first token after it, or the error
/// that ended the parse.
pub type Parsed = Result<(ExprModel, int), WithSpan<error::KindModel>>;

/// The error `kind` at the one token at place `i`.
pub open spec fn fail_at(kind: error::KindModel, i: int) -> Parsed {
    Err(WithSpan { value: kind, span: point(i) })
}

/// The kind of the token at place `i`.
pub open spec fn kind_at(tokens: Seq<WithSpan<TokenModel>>, i: int) -> token::Kind {
    token::Kind::of(tokens[i].value)
}

/// An expression that begins at place `i`: a prefix expression, and the
/// operators above `precedence` that follow it.
pub open spec fn parse_expr_at(
    tokens: Seq<WithSpan<TokenModel>>,
    i: int,
    precedence: Precedence,
) -> Parsed
    decreases tokens.len() - i, 3int,
{
    match parse_prefix_at(tokens, i) {
        Ok((left, j)) => {
            if i < j <= tokens.len() {
                climb_at(tokens, j, left, precedence)
            } else {
                Ok((left, j))
            }
        },
        Err(error) => Err(error),
    }
}

/// The operators that follow the expression `left` at place `j`, as long as
/// the next one is above `precedence`. Each takes all that was read before
/// it as its left operand, so that operators of one precedence associate to
/// the left.
pub open spec fn climb_at(
    tokens: Seq<WithSpan<TokenModel>>,
    j: int,
    left: ExprModel,
    precedence: Precedence,
) -> Parsed
    decreases tokens.len() - j, 1int,
{
    if 0 <= j < tokens.len() && precedence.level() < Precedence::spec_of(
        kind_at(tokens, j),
    ).level() {
        match parse_infix_at(tokens, j, left) {
            Ok((expr, k)) => {
                if j < k <= tokens.len() {
                    climb_at(tokens, k, expr, precedence)
                } else {
                    Ok((expr, k))
                }
            },
            Err(error) => Err(error),
        }
    } else {
        Ok((left, j))
    }
}

/// A prefix expression that begins at place `i`: a literal, a reference, a
/// boolean, a unary operator with its operand, or a group.
pub open spec fn parse_prefix_at(tokens: Seq<WithSpan<TokenModel>>, i: int) -> Parsed
    decreases tokens.len() - i, 2int,
{
    if 0 <= i < tokens.len() {
        match tokens[i].value {
            TokenModel::String { value, .. } => Ok((ExprModel::String(value), i + 1)),
            TokenModel::Number(text) => Ok((ExprModel::Number(text), i + 1)),
            TokenModel::CellRef(cell) => Ok((ExprModel::CellRef(cell), i + 1)),
            TokenModel::Keyword(Keyword::True) => Ok((ExprModel::Bool(true), i + 1)),
            TokenModel::Keyword(Keyword::False) => Ok((ExprModel::Bool(false), i + 1)),
            TokenModel::Bang | TokenModel::Minus => parse_unary_at(tokens, i),
            TokenModel::ParenLeft => parse_group_at(tokens, i),
            TokenModel::ParenRight => fail_at(
                error::KindModel::UnexpectedToken {
                    expected: valid_prefix_kinds(),
                    found: token::Kind::ParenRight,
                },
                i,
            ),
            _ => fail_at(error::KindModel::InvalidPrefix, i),
        }
    } else {
        fail_at(error::KindModel::UnexpectedEndOfInut, i)
    }
}

/// A unary operator at place `i` with its operand. A minus sign directly
/// before a number is part of that number's text, not an operator.
pub open spec fn parse_unary_at(tokens: Seq<WithSpan<TokenModel>>, i: int) -> Parsed
    decreases tokens.len() - i, 1int,
{
    if 0 <= i < tokens.len() {
        if tokens[i].value is Minus && i + 1 >= tokens.len() {
            fail_at(error::KindModel::UnexpectedEndOfInut, i + 1)
        } else if tokens[i].value is Minus && tokens[i + 1].value is Number {
            Ok((ExprModel::Number(seq!['-'] + tokens[i + 1].value->Number_0), i + 2))
        } else {
            let op = if tokens[i].value is Minus {
                OpUnary::Minus
            } else {
                OpUnary::Not
            };
            match parse_expr_at(tokens, i + 1, Precedence::Prefix) {
                Ok((expr, j)) => Ok((ExprModel::Unary { op, expr: Box::new(expr) }, j)),
                Err(error) => Err(error),
            }
        }
    } else {
        fail_at(error::KindModel::UnexpectedEndOfInut, i)
    }
}

/// A group that opens at place `i`: an expression between parentheses, or
/// nothing between them.
pub open spec fn parse_group_at(tokens: Seq<WithSpan<TokenModel>>, i: int) -> Parsed
    decreases tokens.len() - i, 1int,
{
    if 0 <= i < tokens.len() {
        let inner: Parsed = if i + 1 < tokens.len() && tokens[i + 1].value is ParenRight {
            Ok((ExprModel::Empty, i + 1))
        } else {
            parse_expr_at(tokens, i + 1, Precedence::Lowest)
        };
        match inner {
            Ok((expr, j)) => {
                if j >= tokens.len() {
                    Err(
                        WithSpan {
                            value: error::KindModel::UnexpectedEndOfInut,
                            span: Span::between(i as usize, j as usize),
                        },
                    )
                } else if tokens[j].value is ParenRight {
                    Ok(
                        (
                            ExprModel::Group {
                                delimeter: GroupDelimeter::Parenthesis,
                                expr: Box::new(expr),
                            },
                            j + 1,
                        ),
                    )
                } else {
                    Err(
                        WithSpan {
                            value: error::KindModel::UnclosedGroup {
                                expeted: GroupDelimeter::Parenthesis,
                            },
                            span: Span::between(i as usize, (j + 1) as usize),
                        },
                    )
                }
            },
            Err(error) => Err(error),
        }
    } else {
        fail_at(error::KindModel::UnexpectedEndOfInut, i)
    }
}

/// The token at place `j` after the expression `left`: a binary operator
/// with its right operand, which holds the operators above its own
/// precedence only; any other token is unexpected.
pub open spec fn parse_infix_at(
    tokens: Seq<WithSpan<TokenModel>>,
    j: int,
    left: ExprModel,
) -> Parsed
    decreases tokens.len() - j, 0int,
{
    if 0 <= j < tokens.len() {
        match OpBinary::of(kind_at(tokens, j)) {
            Some(op) => match parse_expr_at(
                tokens,
                j + 1,
                Precedence::spec_of(kind_at(tokens, j)),
            ) {
                Ok((right, k)) => Ok(
                    (ExprModel::Binary { op, left: Box::new(left), right: Box::new(right) }, k),
                ),
                Err(error) => Err(error),
            },
            None => fail_at(
                error::KindModel::UnexpectedToken {
                    expected: valid_infix_kinds(),
                    found: kind_at(tokens, j),
                },
                j,
            ),
        }
    } else {
        fail_at(error::KindModel::UnexpectedEndOfInut, j)
    }
}

/// The expression that a list of tokens writes. No token is the empty
/// expression. The expression takes all the tokens: one that is left over is
/// unexpected.
pub open spec fn parse_tokens(tokens: Seq<WithSpan<TokenModel>>) -> Result<
    ExprModel,
    WithSpan<error::KindModel>,
> {
    if tokens.len() == 0 {
        Ok(ExprModel::Empty)
    } else {
        match parse_expr_at(tokens, 0, Precedence::Lowest) {
            Ok((expr, end)) => {
                if end < tokens.len() {
                    Err(
                        WithSpan {
                            value: error::KindModel::UnexpectedToken {
                                expected: valid_infix_kinds(),
                                found: kind_at(tokens, end),
                            },
                            span: point(end),
                        },
                    )
                } else {
                    Ok(expr)
                }
            },
            Err(error) => Err(error),
        }
    }
}

/// An expression takes at least one token and ends within the list, and the
/// token after it, if there is one, binds no tighter than `precedence`.
pub proof fn lemma_parse_expr(tokens: Seq<WithSpan<TokenModel>>, i: int, precedence: Precedence)
    requires
        parse_expr_at(tokens, i, precedence) is Ok,
    ensures
        ({
            let end = parse_expr_at(tokens, i, precedence)->Ok_0.1;
            &&& 0 <= i < end <= tokens.len()
            &&& end < tokens.len() ==> Precedence::spec_of(kind_at(tokens, end)).level()
                <= precedence.level()
        }),
    decreases tokens.len() - i, 3int,
{
    lemma_parse_prefix(tokens, i);
    let j = parse_prefix_at(tokens, i)->Ok_0.1;
    let left = parse_prefix_at(tokens, i)->Ok_0.0;
    lemma_climb(tokens, j, left, precedence);
}

/// The operators after an expression end within the list, and the token
/// after them, if there is one, binds no tighter than `precedence`.
pub proof fn lemma_climb(
    tokens: Seq<WithSpan<TokenModel>>,
    j: int,
    left: ExprModel,
    precedence: Precedence,
)
    requires
        0 <= j <= tokens.len(),
        climb_at(tokens, j, left, precedence) is Ok,
    ensures
        ({
            let end = climb_at(tokens, j, left, precedence)->Ok_0.1;
            &&& j <= end <= tokens.len()
            &&& end < tokens.len() ==> Precedence::spec_of(kind_at(tokens, end)).level()
                <= precedence.level()
        }),
    decreases tokens.len() - j, 1int,
{
    if j < tokens.len() && precedence.level() < Precedence::spec_of(kind_at(tokens, j)).level() {
        lemma_parse_infix(tokens, j, left);
        let expr = parse_infix_at(tokens, j, left)->Ok_0.0;
        let k = parse_infix_at(tokens, j, left)->Ok_0.1;
        lemma_climb(tokens, k, expr, precedence);
    }
}

/// A prefix expression takes at least one token and ends within the list.
pub proof fn lemma_parse_prefix(tokens: Seq<WithSpan<TokenModel>>, i: int)
    requires
        parse_prefix_at(tokens, i) is Ok,
    ensures
        0 <= i < parse_prefix_at(tokens, i)->Ok_0.1 <= tokens.len(),
    decreases tokens.len() - i, 2int,
{
    match tokens[i].value {
        TokenModel::Bang | TokenModel::Minus => {
            if !(tokens[i].value is Minus && tokens[i + 1].value is Number) {
                lemma_parse_expr(tokens, i + 1, Precedence::Prefix);
            }
        },
        TokenModel::ParenLeft => {
            if !(i + 1 < tokens.len() && tokens[i + 1].value is ParenRight) {
                lemma_parse_expr(tokens, i + 1, Precedence::Lowest);
            }
        },
        _ => {},
    }
}

/// An operator with its right operand takes at least two tokens and ends
/// within the list.
pub proof fn lemma_parse_infix(tokens: Seq<WithSpan<TokenModel>>, j: int, left: ExprModel)
    requires
        parse_infix_at(tokens, j, left) is Ok,
    ensures
        0 <= j < parse_infix_at(tokens, j, left)->Ok_0.1 <= tokens.len(),
    decreases tokens.len() - j, 0int,
{
    lemma_parse_expr(tokens, j + 1, Precedence::spec_of(kind_at(tokens, j)));
}

/// The parser writes no operator that the evaluator does not know.
pub proof fn lemma_parse_expr_supported(
    tokens: Seq<WithSpan<TokenModel>>,
    i: int,
    precedence: Precedence,
)
    requires
        parse_expr_at(tokens, i, precedence) is Ok,
    ensures
        is_supported(parse_expr_at(tokens, i, precedence)->Ok_0.0),
    decreases tokens.len() - i, 3int,
{
    lemma_parse_prefix_supported(tokens, i);
    lemma_parse_prefix(tokens, i);
    let j = parse_prefix_at(tokens, i)->Ok_0.1;
    let left = parse_prefix_at(tokens, i)->Ok_0.0;
    lemma_climb_supported(tokens, j, left, precedence);
}

/// The parser writes no operator that the evaluator does not know.
pub proof fn lemma_climb_supported(
    tokens: Seq<WithSpan<TokenModel>>,
    j: int,
    left: ExprModel,
    precedence: Precedence,
)
    requires
        0 <= j <= tokens.len(),
        is_supported(left),
        climb_at(tokens, j, left, precedence) is Ok,
    ensures
        is_supported(climb_at(tokens, j, left, precedence)->Ok_0.0),
    decreases tokens.len() - j, 1int,
{
    if j < tokens.len() && precedence.level() < Precedence::spec_of(kind_at(tokens, j)).level() {
        lemma_parse_infix(tokens, j, left);
        let expr = parse_infix_at(tokens, j, left)->Ok_0.0;
        let k = parse_infix_at(tokens, j, left)->Ok_0.1;
        let own = Precedence::spec_of(kind_at(tokens, j));
        lemma_parse_expr_supported(tokens, j + 1, own);
        let right = parse_expr_at(tokens, j + 1, own)->Ok_0.0;
        assert(expr is Binary && *expr->Binary_left == left && *expr->Binary_right == right);
        lemma_climb_supported(tokens, k, expr, precedence);
    }
}

/// The parser writes no operator that the evaluator does not know.
pub proof fn lemma_parse_prefix_supported(tokens: Seq<WithSpan<TokenModel>>, i: int)
    requires
        parse_prefix_at(tokens, i) is Ok,
    ensures
        is_supported(parse_prefix_at(tokens, i)->Ok_0.0),
    decreases tokens.len() - i, 2int,
{
    let expr = parse_prefix_at(tokens, i)->Ok_0.0;
    match tokens[i].value {
        TokenModel::Bang | TokenModel::Minus => {
            if !(tokens[i].value is Minus && tokens[i + 1].value is Number) {
                lemma_parse_expr_supported(tokens, i + 1, Precedence::Prefix);
                let inner = parse_expr_at(tokens, i + 1, Precedence::Prefix)->Ok_0.0;
                assert(expr is Unary && *expr->Unary_expr == inner);
            }
        },
        TokenModel::ParenLeft => {
            if i + 1 < tokens.len() && tokens[i + 1].value is ParenRight {
                assert(expr is Group && *expr->Group_expr == ExprModel::Empty);
                assert(is_supported(ExprModel::Empty));
            } else {
                lemma_parse_expr_supported(tokens, i + 1, Precedence::Lowest);
                let inner = parse_expr_at(tokens, i + 1, Precedence::Lowest)->Ok_0.0;
                assert(expr is Group && *expr->Group_expr == inner);
            }
        },
        _ => {},
    }
}

/// Whether a result is the error of a group that another token than its
/// closing one ends.
pub open spec fn is_unclosed(parsed: Parsed) -> bool {
    parsed is Err && parsed->Err_0.value is UnclosedGroup
}

/// Only a closing parenthesis has the lowest precedence.
pub proof fn lemma_lowest_is_paren_right(token: TokenModel)
    requires
        Precedence::spec_of(token::Kind::of(token)).level() == 0,
    ensures
        token is ParenRight,
{
}

/// No group is left unclosed by another token than the end of the list: what
/// ends the expression in a group is its closing parenthesis.
pub proof fn lemma_expr_closes_groups(
    tokens: Seq<WithSpan<TokenModel>>,
    i: int,
    precedence: Precedence,
)
    ensures
        !is_unclosed(parse_expr_at(tokens, i, precedence)),
    decreases tokens.len() - i, 3int,
{
    lemma_prefix_closes_groups(tokens, i);
    if parse_prefix_at(tokens, i) is Ok {
        lemma_parse_prefix(tokens, i);
        let j = parse_prefix_at(tokens, i)->Ok_0.1;
        let left = parse_prefix_at(tokens, i)->Ok_0.0;
        lemma_climb_closes_groups(tokens, j, left, precedence);
    }
}

/// No group is left unclosed by another token than the end of the list.
pub proof fn lemma_climb_closes_groups(
    tokens: Seq<WithSpan<TokenModel>>,
    j: int,
    left: ExprModel,
    precedence: Precedence,
)
    requires
        0 <= j <= tokens.len(),
    ensures
        !is_unclosed(climb_at(tokens, j, left, precedence)),
    decreases tokens.len() - j, 1int,
{
    if j < tokens.len() && precedence.level() < Precedence::spec_of(kind_at(tokens, j)).level() {
        if OpBinary::of(kind_at(tokens, j)) is Some {
            lemma_expr_closes_groups(tokens, j + 1, Precedence::spec_of(kind_at(tokens, j)));
        }
        if parse_infix_at(tokens, j, left) is Ok {
            lemma_parse_infix(tokens, j, left);
            let expr = parse_infix_at(tokens, j, left)->Ok_0.0;
            let k = parse_infix_at(tokens, j, left)->Ok_0.1;
            lemma_climb_closes_groups(tokens, k, expr, precedence);
        }
    }
}

/// No group is left unclosed by another token than the end of the list.
pub proof fn lemma_prefix_closes_groups(tokens: Seq<WithSpan<TokenModel>>, i: int)
    ensures
        !is_unclosed(parse_prefix_at(tokens, i)),
    decreases tokens.len() - i, 2int,
{
    if 0 <= i < tokens.len() {
        match tokens[i].value {
            TokenModel::Bang | TokenModel::Minus => {
                lemma_expr_closes_groups(tokens, i + 1, Precedence::Prefix);
            },
            TokenModel::ParenLeft => {
                if !(i + 1 < tokens.len() && tokens[i + 1].value is ParenRight) {
                    lemma_expr_closes_groups(tokens, i + 1, Precedence::Lowest);
                    let inner = parse_expr_at(tokens, i + 1, Precedence::Lowest);
                    if inner is Ok {
                        lemma_parse_expr(tokens, i + 1, Precedence::Lowest);
                        let j = inner->Ok_0.1;
                        if j < tokens.len() {
                            lemma_lowest_is_paren_right(tokens[j].value);
                        }
                    }
                }
            },
            _ => {},
        }
    }
}

/// A token that is left over after an expression is a closing parenthesis
/// that closes no group.
pub proof fn lemma_leftover_is_paren_right(tokens: Seq<WithSpan<TokenModel>>)
    requires
        tokens.len() > 0,
        parse_expr_at(tokens, 0, Precedence::Lowest) is Ok,
        parse_expr_at(tokens, 0, Precedence::Lowest)->Ok_0.1 < tokens.len(),
    ensures
        tokens[parse_expr_at(tokens, 0, Precedence::Lowest)->Ok_0.1].value is ParenRight,
{
    lemma_parse_expr(tokens, 0, Precedence::Lowest);
    lemma_lowest_is_paren_right(tokens[parse_expr_at(tokens, 0, Precedence::Lowest)->Ok_0.1].value);
}

/// The operator `op` with its two operands.
pub open spec fn binary(op: OpBinary, left: ExprModel, right: ExprModel) -> ExprModel {
    ExprModel::Binary { op, left: Box::new(left), right: Box::new(right) }
}

/// Of two operators between three literals, the first takes its two
/// neighbours first unless the second binds tighter: operators of one
/// precedence associate to the left, and an operator of a higher precedence
/// takes its operands before one of a lower.
pub proof fn lemma_parse_two_operators(tokens: Seq<WithSpan<TokenModel>>)
    requires
        tokens.len() == 5,
        literal_of(tokens[0].value) is Some,
        OpBinary::of(kind_at(tokens, 1)) is Some,
        literal_of(tokens[2].value) is Some,
        OpBinary::of(kind_at(tokens, 3)) is Some,
        literal_of(tokens[4].value) is Some,
    ensures
        ({
            let a = literal_of(tokens[0].value)->0;
            let b = literal_of(tokens[2].value)->0;
            let c = literal_of(tokens[4].value)->0;
            let first = OpBinary::of(kind_at(tokens, 1))->0;
            let second = OpBinary::of(kind_at(tokens, 3))->0;
            parse_tokens(tokens) == Ok::<ExprModel, WithSpan<error::KindModel>>(
                if Precedence::spec_of(kind_at(tokens, 1)).level() >= Precedence::spec_of(
                    kind_at(tokens, 3),
                ).level() {
                    binary(second, binary(first, a, b), c)
                } else {
                    binary(first, a, binary(second, b, c))
                },
            )
        }),
{
    let a = literal_of(tokens[0].value)->0;
    let b = literal_of(tokens[2].value)->0;
    let c = literal_of(tokens[4].value)->0;
    let first = OpBinary::of(kind_at(tokens, 1))->0;
    let second = OpBinary::of(kind_at(tokens, 3))->0;
    let high = Precedence::spec_of(kind_at(tokens, 1));
    let low = Precedence::spec_of(kind_at(tokens, 3));
    assert(high.level() > 0 && low.level() > 0);
    assert(parse_prefix_at(tokens, 0) == Ok::<(ExprModel, int), WithSpan<error::KindModel>>(
        (a, 1),
    ));
    assert(parse_prefix_at(tokens, 2) == Ok::<(ExprModel, int), WithSpan<error::KindModel>>(
        (b, 3),
    ));
    assert(parse_prefix_at(tokens, 4) == Ok::<(ExprModel, int), WithSpan<error::KindModel>>(
        (c, 5),
    ));
    assert(forall|left: ExprModel, precedence: Precedence|
        #[trigger] climb_at(tokens, 5, left, precedence) == Ok::<
            (ExprModel, int),
            WithSpan<error::KindModel>,
        >((left, 5)));
    assert(parse_expr_at(tokens, 4, low) == Ok::<(ExprModel, int), WithSpan<error::KindModel>>(
        (c, 5),
    ));
    if high.level() >= low.level() {
        let ab = binary(first, a, b);
        assert(climb_at(tokens, 3, b, high) == Ok::<(ExprModel, int), WithSpan<error::KindModel>>(
            (b, 3),
        ));
        assert(parse_expr_at(tokens, 2, high) == Ok::<
            (ExprModel, int),
            WithSpan<error::KindModel>,
        >((b, 3)));
        assert(parse_infix_at(tokens, 1, a) == Ok::<(ExprModel, int), WithSpan<error::KindModel>>(
            (ab, 3),
        ));
        assert(parse_infix_at(tokens, 3, ab) == Ok::<
            (ExprModel, int),
            WithSpan<error::KindModel>,
        >((binary(second, ab, c), 5)));
        assert(climb_at(tokens, 5, binary(second, ab, c), Precedence::Lowest) == Ok::<
            (ExprModel, int),
            WithSpan<error::KindModel>,
        >((binary(second, ab, c), 5)));
        assert(climb_at(tokens, 3, ab, Precedence::Lowest) == Ok::<
            (ExprModel, int),
            WithSpan<error::KindModel>,
        >((binary(second, ab, c), 5)));
        assert(climb_at(tokens, 1, a, Precedence::Lowest) == Ok::<
            (ExprModel, int),
            WithSpan<error::KindModel>,
        >((binary(second, ab, c), 5)));
    } else {
        let bc = binary(second, b, c);
        assert(parse_infix_at(tokens, 3, b) == Ok::<(ExprModel, int), WithSpan<error::KindModel>>(
            (bc, 5),
        ));
        assert(climb_at(tokens, 3, b, high) == Ok::<(ExprModel, int), WithSpan<error::KindModel>>(
            (bc, 5),
        ));
        assert(parse_expr_at(tokens, 2, high) == Ok::<
            (ExprModel, int),
            WithSpan<error::KindModel>,
        >((bc, 5)));
        assert(parse_infix_at(tokens, 1, a) == Ok::<(ExprModel, int), WithSpan<error::KindModel>>(
            (binary(first, a, bc), 5),
        ));
        assert(climb_at(tokens, 1, a, Precedence::Lowest) == Ok::<
            (ExprModel, int),
            WithSpan<error::KindModel>,
        >((binary(first, a, bc), 5)));
    }
    assert(parse_expr_at(tokens, 0, Precedence::Lowest) == climb_at(
        tokens,
        1,
        a,
        Precedence::Lowest,
    ));
}

/// A minus sign and a number are the number with the sign before its text,
/// not an operator with an operand.
pub proof fn lemma_parse_negative_number(tokens: Seq<WithSpan<TokenModel>>)
    requires
        tokens.len() == 2,
        tokens[0].value is Minus,
        tokens[1].value is Number,
    ensures
        parse_tokens(tokens) == Ok::<ExprModel, WithSpan<error::KindModel>>(
            ExprModel::Number(seq!['-'] + tokens[1].value->Number_0),
        ),
{
    assert(parse_unary_at(tokens, 0) == Ok::<(ExprModel, int), WithSpan<error::KindModel>>(
        (ExprModel::Number(seq!['-'] + tokens[1].value->Number_0), 2),
    ));
}

/// Two parentheses with nothing between them are a group that holds the
/// empty expression.
pub proof fn lemma_parse_empty_group(tokens: Seq<WithSpan<TokenModel>>)
    requires
        tokens.len() == 2,
        tokens[0].value is ParenLeft,
        tokens[1].value is ParenRight,
    ensures
        parse_tokens(tokens) == Ok::<ExprModel, WithSpan<error::KindModel>>(
            ExprModel::Group {
                delimeter: GroupDelimeter::Parenthesis,
                expr: Box::new(ExprModel::Empty),
            },
        ),
{
    assert(parse_group_at(tokens, 0) == Ok::<(ExprModel, int), WithSpan<error::KindModel>>(
        (
            ExprModel::Group {
                delimeter: GroupDelimeter::Parenthesis,
                expr: Box::new(ExprModel::Empty),
            },
            2,
        ),
    ));
}

/// The parser's place in a list of tokens.
pub struct Parser<'a> {
    pub tokens: &'a Vec<WithSpan<Token>>,
    pub cursor: usize,
    pub errors: Vec<WithSpan<error::Kind>>,
}

impl<'a> Parser<'a> {
    /// A parser at the first of the tokens.
    pub fn new(tokens: &'a Vec<WithSpan<Token>>) -> (parser: Self)
        ensures
            parser.tokens == tokens,
            parser.cursor == 0,
            parser.errors@.len() == 0,
    {
        Self { tokens, cursor: 0, errors: Vec::new() }
    }

    /// The place of the next token.
    pub fn idx(&self) -> (idx: usize)
        ensures
            idx == self.cursor,
    {
        self.cursor
    }

    /// The tokens as mathematical values.
    pub open spec fn model(&self) -> Seq<WithSpan<TokenModel>> {
        self.tokens.deep_view()
    }

    /// If the parser has reached the end of the tokens.
    pub fn eof(&self) -> (eof: bool)
        ensures
            eof == (self.cursor >= self.tokens.len()),
    {
        self.cursor >= self.tokens.len()
    }

    /// The kind of the next token.
    pub fn peek(&self) -> (kind: Option<token::Kind>)
        ensures
            kind == if self.cursor < self.tokens.len() {
                Some(kind_at(self.model(), self.cursor as int))
            } else {
                None
            },
    {
        if self.cursor < self.tokens.len() {
            Some(token::Kind::from_token(&self.tokens[self.cursor].value))
        } else {
            None
        }
    }

    /// The next token; the parser moves past it.
    pub fn next(&mut self) -> (next: Option<&'a WithSpan<Token>>)
        ensures
            final(self).tokens == old(self).tokens,
            final(self).errors == old(self).errors,
            old(self).cursor < old(self).tokens.len() ==> next == Some(
                &old(self).tokens@[old(self).cursor as int],
            ) && final(self).cursor == old(self).cursor + 1,
            old(self).cursor >= old(self).tokens.len() ==> next is None && final(self).cursor
                == old(self).cursor,
    {
        if self.eof() {
            None
        } else {
            let next = &self.tokens[self.cursor];
            self.cursor += 1;
            Some(next)
        }
    }
}

/// What a parsing function returns, as a mathematical value: the expression
/// with the parser's new place, or the error.
pub open spec fn outcome(result: Result<Expr, WithSpan<error::Kind>>, cursor: usize) -> Parsed {
    match result {
        Ok(expr) => Ok((expr@, cursor as int)),
        Err(error) => Err(error.deep_view()),
    }
}

/// The error `kind` at the one token at place `pos`.
fn fail<T>(kind: error::Kind, pos: usize) -> (result: Result<T, WithSpan<error::Kind>>)
    ensures
        result is Err,
        result->Err_0.deep_view() == (WithSpan { value: kind@, span: point(pos as int) }),
{
    let end: usize = if pos < usize::MAX {
        pos + 1
    } else {
        pos
    };
    Err(WithSpan::new(kind, pos, end))
}

/// The tokens that an expression may begin with.
fn prefix_kinds() -> (kinds: Vec<token::Kind>)
    ensures
        kinds@ == valid_prefix_kinds(),
{
    let kinds = vec![
        token::Kind::Bang,
        token::Kind::CellRef,
        token::Kind::Identifier,
        token::Kind::Minus,
        token::Kind::Number,
        token::Kind::ParenLeft,
        token::Kind::Keyword(Keyword::True),
        token::Kind::Keyword(Keyword::False),
        token::Kind::Keyword(Keyword::Sum),
        token::Kind::String,
    ];
    assert(kinds@ =~= valid_prefix_kinds());
    kinds
}

/// The tokens that may follow an expression.
fn infix_kinds() -> (kinds: Vec<token::Kind>)
    ensures
        kinds@ == valid_infix_kinds(),
{
    let kinds = vec![
        token::Kind::Bang,
        token::Kind::BangEqual,
        token::Kind::EqualEqual,
        token::Kind::Greater,
        token::Kind::GreaterEqual,
        token::Kind::Less,
        token::Kind::LessEqual,
        token::Kind::Minus,
        token::Kind::ParenLeft,
        token::Kind::ParenRight,
        token::Kind::Percent,
        token::Kind::Plus,
        token::Kind::SlashForward,
        token::Kind::Star,
        token::Kind::StarStar,
    ];
    assert(kinds@ =~= valid_infix_kinds());
    kinds
}

/// Parses a list of tokens into the expression that they write. The
/// expression takes all the tokens.
pub fn parse(tokens: &Vec<WithSpan<Token>>) -> (result: Result<Expr, WithSpan<error::Kind>>)
    ensures
        match parse_tokens(tokens.deep_view()) {
            Ok(expr) => result is Ok && result->Ok_0@ == expr,
            Err(error) => result is Err && result->Err_0.deep_view() == error,
        },
        result is Ok ==> is_supported(result->Ok_0@),
{
    proof {
        if tokens.len() > 0 && parse_expr_at(tokens.deep_view(), 0, Precedence::Lowest) is Ok {
            lemma_parse_expr_supported(tokens.deep_view(), 0, Precedence::Lowest);
        }
    }
    if tokens.len() == 0 {
        return Ok(Expr::Empty);
    }
    let mut parser = Parser::new(tokens);
    let expr = parse_expr(&mut parser, Precedence::Lowest)?;
    match parser.peek() {
        Some(found) => fail(
            error::Kind::UnexpectedToken { expected: infix_kinds(), found },
            parser.cursor,
        ),
        None => Ok(expr),
    }
}

/// Parses an expression: a prefix expression and, as long as a token of a
/// precedence above `precedence` follows, that operator with its right
/// operand.
pub fn parse_expr<'a>(parser: &mut Parser<'a>, precedence: Precedence) -> (result: Result<
    Expr,
    WithSpan<error::Kind>,
>)
    requires
        old(parser).cursor <= old(parser).tokens.len(),
    ensures
        final(parser).tokens == old(parser).tokens,
        final(parser).cursor <= final(parser).tokens.len(),
        outcome(result, final(parser).cursor) == parse_expr_at(
            old(parser).model(),
            old(parser).cursor as int,
            precedence,
        ),
    decreases old(parser).tokens.len() - old(parser).cursor, 3int,
{
    let ghost tokens = parser.model();
    let ghost start = parser.cursor as int;
    let mut expr = parse_prefix(parser)?;
    proof {
        lemma_parse_prefix(tokens, start);
    }
    while !parser.eof()
        invariant
            parser.tokens == old(parser).tokens,
            tokens == parser.model(),
            start == old(parser).cursor,
            start < parser.cursor <= parser.tokens.len(),
            climb_at(tokens, parser.cursor as int, expr@, precedence) == parse_expr_at(
                tokens,
                start,
                precedence,
            ),
        ensures
            parser.tokens == old(parser).tokens,
            parser.cursor <= parser.tokens.len(),
            parse_expr_at(tokens, start, precedence) == Ok::<
                (ExprModel, int),
                WithSpan<error::KindModel>,
            >((expr@, parser.cursor as int)),
        decreases parser.tokens.len() - parser.cursor,
    {
        let Some(next) = parser.peek() else {
            break ;
        };
        if precedence.level() >= Precedence::of(&next).level() {
            break ;
        }
        let ghost left = expr@;
        let ghost j = parser.cursor as int;
        match parse_infix(parser, expr) {
            Ok(binary) => {
                expr = binary;
                proof {
                    lemma_parse_infix(tokens, j, left);
                }
            },
            Err(error) => {
                return Err(error);
            },
        }
    }
    Ok(expr)
}

/// Parses a prefix expression: a literal, a unary operator with its operand,
/// or a group.
pub fn parse_prefix<'a>(parser: &mut Parser<'a>) -> (result: Result<Expr, WithSpan<error::Kind>>)
    requires
        old(parser).cursor <= old(parser).tokens.len(),
    ensures
        final(parser).tokens == old(parser).tokens,
        final(parser).cursor <= final(parser).tokens.len(),
        outcome(result, final(parser).cursor) == parse_prefix_at(
            old(parser).model(),
            old(parser).cursor as int,
        ),
    decreases old(parser).tokens.len() - old(parser).cursor, 2int,
{
    let Some(token) = parser.peek() else {
        return fail(error::Kind::UnexpectedEndOfInut, parser.cursor);
    };
    match token {
        token::Kind::String | token::Kind::CellRef | token::Kind::Number => {
            Ok(Expr::Literal(parse_literal(parser)))
        },
        token::Kind::Keyword(Keyword::True) | token::Kind::Keyword(Keyword::False) => {
            Ok(Expr::Literal(parse_literal(parser)))
        },
        token::Kind::Bang | token::Kind::Minus => parse_unary(parser),
        token::Kind::ParenLeft => match parse_group(parser) {
            Ok(group) => Ok(Expr::Group(group)),
            Err(error) => Err(error),
        },
        token::Kind::ParenRight => fail(
            error::Kind::UnexpectedToken {
                expected: prefix_kinds(),
                found: token::Kind::ParenRight,
            },
            parser.cursor,
        ),
        _ => fail(error::Kind::InvalidPrefix, parser.idx()),
    }
}

/// Parses what follows the expression `lhs`: a binary operator with its right
/// operand.
pub fn parse_infix<'a>(parser: &mut Parser<'a>, lhs: Expr) -> (result: Result<
    Expr,
    WithSpan<error::Kind>,
>)
    requires
        old(parser).cursor < old(parser).tokens.len(),
    ensures
        final(parser).tokens == old(parser).tokens,
        final(parser).cursor <= final(parser).tokens.len(),
        outcome(result, final(parser).cursor) == parse_infix_at(
            old(parser).model(),
            old(parser).cursor as int,
            lhs@,
        ),
    decreases old(parser).tokens.len() - old(parser).cursor, 1int,
{
    let next = parser.peek().unwrap();
    match OpBinary::from_token(&next) {
        Some(_) => match parse_binary(parser, lhs) {
            Ok(binary) => Ok(Expr::Binary(binary)),
            Err(error) => Err(error),
        },
        None => fail(
            error::Kind::UnexpectedToken { expected: infix_kinds(), found: next },
            parser.cursor,
        ),
    }
}

/// Parses a group: an expression between parentheses, or nothing between
/// them.
pub fn parse_group<'a>(parser: &mut Parser<'a>) -> (result: Result<
    ExprGroup,
    WithSpan<error::Kind>,
>)
    requires
        old(parser).cursor < old(parser).tokens.len(),
        old(parser).model()[old(parser).cursor as int].value is ParenLeft,
    ensures
        final(parser).tokens == old(parser).tokens,
        final(parser).cursor <= final(parser).tokens.len(),
        match parse_group_at(old(parser).model(), old(parser).cursor as int) {
            Ok((expr, end)) => result is Ok && Expr::Group(result->Ok_0)@ == expr
                && final(parser).cursor == end,
            Err(error) => result is Err && result->Err_0.deep_view() == error,
        },
    decreases old(parser).tokens.len() - old(parser).cursor, 1int,
{
    let pos_start: usize = parser.cursor;
    let ghost tokens = parser.model();
    parser.next();
    let expr = if let Some(token::Kind::ParenRight) = parser.peek() {
        Expr::Empty
    } else {
        match parse_expr(parser, Precedence::Lowest) {
            Ok(expr) => expr,
            Err(error) => {
                return Err(error);
            },
        }
    };
    let ghost end = parser.cursor as int;
    let Some(close_delimeter) = parser.next() else {
        return Err(WithSpan::new(error::Kind::UnexpectedEndOfInut, pos_start, parser.cursor));
    };
    assert(close_delimeter.deep_view() == tokens[end]);
    if let Token::ParenRight = close_delimeter.value {
        let group = ExprGroup { delimeter: GroupDelimeter::Parenthesis, expr: Box::new(expr) };
        assert(Expr::Group(group)@ == (ExprModel::Group {
            delimeter: GroupDelimeter::Parenthesis,
            expr: Box::new(expr@),
        }));
        Ok(group)
    } else {
        Err(
            WithSpan::new(
                error::Kind::UnclosedGroup { expeted: GroupDelimeter::Parenthesis },
                pos_start,
                parser.cursor,
            ),
        )
    }
}

/// Parses a binary operator and its right operand, which holds the
/// operators above the operator's own precedence.
pub fn parse_binary<'a>(parser: &mut Parser<'a>, lhs: Expr) -> (result: Result<
    ExprBinary,
    WithSpan<error::Kind>,
>)
    requires
        old(parser).cursor < old(parser).tokens.len(),
        OpBinary::of(kind_at(old(parser).model(), old(parser).cursor as int)) is Some,
    ensures
        final(parser).tokens == old(parser).tokens,
        final(parser).cursor <= final(parser).tokens.len(),
        match parse_infix_at(old(parser).model(), old(parser).cursor as int, lhs@) {
            Ok((expr, end)) => result is Ok && Expr::Binary(result->Ok_0)@ == expr
                && final(parser).cursor == end,
            Err(error) => result is Err && result->Err_0.deep_view() == error,
        },
    decreases old(parser).tokens.len() - old(parser).cursor, 0int,
{
    let next = parser.peek().unwrap();
    parser.next();
    let op = OpBinary::from_token(&next).unwrap();
    let rhs = parse_expr(parser, Precedence::of(&next))?;
    Ok(ExprBinary { op, left: Box::new(lhs), right: Box::new(rhs) })
}

/// Parses a unary operator and its operand. A minus sign directly before a
/// number becomes part of the number's text.
pub fn parse_unary<'a>(parser: &mut Parser<'a>) -> (result: Result<Expr, WithSpan<error::Kind>>)
    requires
        old(parser).cursor < old(parser).tokens.len(),
        old(parser).model()[old(parser).cursor as int].value is Minus || old(
            parser,
        ).model()[old(parser).cursor as int].value is Bang,
    ensures
        final(parser).tokens == old(parser).tokens,
        final(parser).cursor <= final(parser).tokens.len(),
        outcome(result, final(parser).cursor) == parse_unary_at(
            old(parser).model(),
            old(parser).cursor as int,
        ),
    decreases old(parser).tokens.len() - old(parser).cursor, 1int,
{
    let next = parser.next().unwrap();
    match &next.value {
        Token::Minus => {
            if parser.eof() {
                return fail(error::Kind::UnexpectedEndOfInut, parser.cursor);
            }
            if let Token::Number(value) = &parser.tokens[parser.cursor].value {
                parser.next();
                let mut text = String::new();
                text.push('-');
                text.append(value.as_str());
                assert(text@ =~= seq!['-'] + value@);
                Ok(Expr::Literal(ExprLiteral::Number(LitNumber { value: text })))
            } else {
                let expr = parse_expr(parser, Precedence::Prefix)?;
                Ok(Expr::Unary(ExprUnary { op: OpUnary::Minus, expr: Box::new(expr) }))
            }
        },
        _ => {
            let expr = parse_expr(parser, Precedence::Prefix)?;
            Ok(Expr::Unary(ExprUnary { op: OpUnary::Not, expr: Box::new(expr) }))
        },
    }
}

/// What a literal token stands for.
pub open spec fn literal_of(token: TokenModel) -> Option<ExprModel> {
    match token {
        TokenModel::String { value, .. } => Some(ExprModel::String(value)),
        TokenModel::Number(text) => Some(ExprModel::Number(text)),
        TokenModel::CellRef(cell) => Some(ExprModel::CellRef(cell)),
        TokenModel::Keyword(Keyword::True) => Some(ExprModel::Bool(true)),
        TokenModel::Keyword(Keyword::False) => Some(ExprModel::Bool(false)),
        _ => None,
    }
}

/// Parses a literal: a string, a number, a reference, or a boolean.
pub fn parse_literal<'a>(input: &mut Parser<'a>) -> (literal: ExprLiteral)
    requires
        old(input).cursor < old(input).tokens.len(),
        literal_of(old(input).model()[old(input).cursor as int].value) is Some,
    ensures
        final(input).tokens == old(input).tokens,
        final(input).cursor == old(input).cursor + 1,
        Some(literal@) == literal_of(old(input).model()[old(input).cursor as int].value),
{
    let next = &input.tokens[input.cursor];
    input.cursor += 1;
    match &next.value {
        Token::String { value, .. } => ExprLiteral::String(LitString { value: value.clone() }),
        Token::Number(value) => ExprLiteral::Number(LitNumber { value: value.clone() }),
        Token::CellRef(value) => ExprLiteral::CellRef(LitCellRef { value: value.clone() }),
        Token::Keyword(Keyword::True) => ExprLiteral::Bool(LitBool { value: true }),
        Token::Keyword(Keyword::False) => ExprLiteral::Bool(LitBool { value: false }),
        _ => vstd::pervasive::unreached(),
    }
}

} // verus!
