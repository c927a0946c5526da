//! The syntax tree of a formula.

use crate::data::{CellRef, CellRefModel};
use crate::expr::token::Kind;
use vstd::prelude::*;
use vstd::std_specs::convert::FromSpecImpl;

verus! {

/// An expression. A node owns its children.
#[derive(Debug, PartialEq, Eq)]
pub enum Expr {
    Empty,
    Literal(ExprLiteral),
    Binary(ExprBinary),
    Unary(ExprUnary),
    Group(ExprGroup),
}

/// A value that is written out, or a reference to a cell.
#[derive(Clone, Debug, PartialEq, Eq)]
pub enum ExprLiteral {
    CellRef(LitCellRef),
    String(LitString),
    Bool(LitBool),
    Number(LitNumber),
}

/// A reference to a cell.
#[derive(Debug, Clone, PartialEq, Eq)]
pub struct LitCellRef {
    pub value: CellRef,
}

/// `true` or `false`.
#[derive(Debug, Clone, PartialEq, Eq)]
pub struct LitBool {
    pub value: bool,
}

/// A text between quotes.
#[derive(Debug, Clone, PartialEq, Eq)]
pub struct LitString {
    pub value: String,
}

/// A number, as it was written.
#[derive(Debug, Clone, PartialEq, Eq)]
pub struct LitNumber {
    pub value: String,
}

/// An operator with an operand on each side.
#[derive(Debug, PartialEq, Eq)]
pub struct ExprBinary {
    pub op: OpBinary,
    pub left: Box<Expr>,
    pub right: Box<Expr>,
}

/// The operators that take two operands.
#[derive(Debug, Clone, Copy, PartialEq, Eq, Structural)]
pub enum OpBinary {
    Add,
    And,
    Divide,
    Equal,
    Exp,
    NotEqual,
    Greater,
    GreaterEqual,
    Less,
    LessEqual,
    Multiply,
    Or,
    Remainder,
    Subtract,
}

impl OpBinary {
    /// The operator that a token of kind `kind` stands for between two
    /// operands.
    pub open spec fn of(kind: Kind) -> Option<Self> {
        match kind {
            Kind::BangEqual => Some(Self::NotEqual),
            Kind::EqualEqual => Some(Self::Equal),
            Kind::Greater => Some(Self::Greater),
            Kind::GreaterEqual => Some(Self::GreaterEqual),
            Kind::Less => Some(Self::Less),
            Kind::LessEqual => Some(Self::LessEqual),
            Kind::Minus => Some(Self::Subtract),
            Kind::Percent => Some(Self::Remainder),
            Kind::Plus => Some(Self::Add),
            Kind::SlashForward => Some(Self::Divide),
            Kind::Star => Some(Self::Multiply),
            Kind::StarStar => Some(Self::Exp),
            _ => None,
        }
    }

    /// The operator that a token of kind `token` stands for between two operands.
    pub fn from_token(token: &Kind) -> (op: Option<Self>)
        ensures
            op == Self::of(*token),
    {
        match token {
            Kind::BangEqual => Some(Self::NotEqual),
            Kind::EqualEqual => Some(Self::Equal),
            Kind::Greater => Some(Self::Greater),
            Kind::GreaterEqual => Some(Self::GreaterEqual),
            Kind::Less => Some(Self::Less),
            Kind::LessEqual => Some(Self::LessEqual),
            Kind::Minus => Some(Self::Subtract),
            Kind::Percent => Some(Self::Remainder),
            Kind::Plus => Some(Self::Add),
            Kind::SlashForward => Some(Self::Divide),
            Kind::Star => Some(Self::Multiply),
            Kind::StarStar => Some(Self::Exp),
            _ => None,
        }
    }
}

/// An operator before its operand.
#[derive(Debug, PartialEq, Eq)]
pub struct ExprUnary {
    pub op: OpUnary,
    pub expr: Box<Expr>,
}

/// The operators that take one operand.
#[derive(Debug, Clone, Copy, PartialEq, Eq, Structural)]
pub enum OpUnary {
    Not,
    Minus,
}

/// An expression between delimiters.
#[derive(Debug, PartialEq, Eq)]
pub struct ExprGroup {
    pub delimeter: GroupDelimeter,
    pub expr: Box<Expr>,
}

/// The delimiters of a group.
#[derive(Debug, Clone, Copy, PartialEq, Eq, Structural)]
pub enum GroupDelimeter {
    /// `(...)`
    Parenthesis,
}

impl From<ExprLiteral> for Expr {
    fn from(value: ExprLiteral) -> (expr: Self) {
        Expr::Literal(value)
    }
}

impl FromSpecImpl<ExprLiteral> for Expr {
    open spec fn obeys_from_spec() -> bool {
        true
    }

    open spec fn from_spec(value: ExprLiteral) -> Self {
        Expr::Literal(value)
    }
}

impl From<ExprBinary> for Expr {
    fn from(value: ExprBinary) -> (expr: Self) {
        Expr::Binary(value)
    }
}

impl FromSpecImpl<ExprBinary> for Expr {
    open spec fn obeys_from_spec() -> bool {
        true
    }

    open spec fn from_spec(value: ExprBinary) -> Self {
        Expr::Binary(value)
    }
}

impl From<ExprUnary> for Expr {
    fn from(value: ExprUnary) -> (expr: Self) {
        Expr::Unary(value)
    }
}

impl FromSpecImpl<ExprUnary> for Expr {
    open spec fn obeys_from_spec() -> bool {
        true
    }

    open spec fn from_spec(value: ExprUnary) -> Self {
        Expr::Unary(value)
    }
}

impl From<ExprGroup> for Expr {
    fn from(value: ExprGroup) -> (expr: Self) {
        Expr::Group(value)
    }
}

impl FromSpecImpl<ExprGroup> for Expr {
    open spec fn obeys_from_spec() -> bool {
        true
    }

    open spec fn from_spec(value: ExprGroup) -> Self {
        Expr::Group(value)
    }
}

impl From<LitCellRef> for ExprLiteral {
    fn from(value: LitCellRef) -> (expr: Self) {
        ExprLiteral::CellRef(value)
    }
}

impl FromSpecImpl<LitCellRef> for ExprLiteral {
    open spec fn obeys_from_spec() -> bool {
        true
    }

    open spec fn from_spec(value: LitCellRef) -> Self {
        ExprLiteral::CellRef(value)
    }
}

impl From<LitString> for ExprLiteral {
    fn from(value: LitString) -> (expr: Self) {
        ExprLiteral::String(value)
    }
}

impl FromSpecImpl<LitString> for ExprLiteral {
    open spec fn obeys_from_spec() -> bool {
        true
    }

    open spec fn from_spec(value: LitString) -> Self {
        ExprLiteral::String(value)
    }
}

impl From<LitBool> for ExprLiteral {
    fn from(value: LitBool) -> (expr: Self) {
        ExprLiteral::Bool(value)
    }
}

impl FromSpecImpl<LitBool> for ExprLiteral {
    open spec fn obeys_from_spec() -> bool {
        true
    }

    open spec fn from_spec(value: LitBool) -> Self {
        ExprLiteral::Bool(value)
    }
}

impl From<LitNumber> for ExprLiteral {
    fn from(value: LitNumber) -> (expr: Self) {
        ExprLiteral::Number(value)
    }
}

impl FromSpecImpl<LitNumber> for ExprLiteral {
    open spec fn obeys_from_spec() -> bool {
        true
    }

    open spec fn from_spec(value: LitNumber) -> Self {
        ExprLiteral::Number(value)
    }
}

/// The mathematical value of an [`Expr`].
#[allow(inconsistent_fields)]
pub enum ExprModel {
    Empty,
    CellRef(CellRefModel),
    String(Seq<char>),
    Bool(bool),
    Number(Seq<char>),
    Binary { op: OpBinary, left: Box<ExprModel>, right: Box<ExprModel> },
    Unary { op: OpUnary, expr: Box<ExprModel> },
    Group { delimeter: GroupDelimeter, expr: Box<ExprModel> },
}

impl View for ExprLiteral {
    type V = ExprModel;

    open spec fn view(&self) -> ExprModel {
        match self {
            ExprLiteral::CellRef(lit) => ExprModel::CellRef(lit.value@),
            ExprLiteral::String(lit) => ExprModel::String(lit.value@),
            ExprLiteral::Bool(lit) => ExprModel::Bool(lit.value),
            ExprLiteral::Number(lit) => ExprModel::Number(lit.value@),
        }
    }
}

/// The mathematical value of an expression.
pub open spec fn expr_model(expr: Expr) -> ExprModel
    decreases expr,
{
    match expr {
        Expr::Empty => ExprModel::Empty,
        Expr::Literal(lit) => lit@,
        Expr::Binary(binary) => ExprModel::Binary {
            op: binary.op,
            left: Box::new(expr_model(*binary.left)),
            right: Box::new(expr_model(*binary.right)),
        },
        Expr::Unary(unary) => ExprModel::Unary {
            op: unary.op,
            expr: Box::new(expr_model(*unary.expr)),
        },
        Expr::Group(group) => ExprModel::Group {
            delimeter: group.delimeter,
            expr: Box::new(expr_model(*group.expr)),
        },
    }
}

impl View for Expr {
    type V = ExprModel;

    open spec fn view(&self) -> ExprModel {
        expr_model(*self)
    }
}

impl DeepView for Expr {
    type V = ExprModel;

    open spec fn deep_view(&self) -> ExprModel {
        self@
    }
}

/// A copy of an expression.
pub fn clone_expr(expr: &Expr) -> (other: Expr)
    ensures
        other@ == expr@,
    decreases expr,
{
    match expr {
        Expr::Empty => Expr::Empty,
        Expr::Literal(ExprLiteral::CellRef(lit)) => Expr::Literal(
            ExprLiteral::CellRef(LitCellRef { value: lit.value.clone() }),
        ),
        Expr::Literal(ExprLiteral::String(lit)) => Expr::Literal(
            ExprLiteral::String(LitString { value: lit.value.clone() }),
        ),
        Expr::Literal(ExprLiteral::Bool(lit)) => Expr::Literal(
            ExprLiteral::Bool(LitBool { value: lit.value }),
        ),
        Expr::Literal(ExprLiteral::Number(lit)) => Expr::Literal(
            ExprLiteral::Number(LitNumber { value: lit.value.clone() }),
        ),
        Expr::Binary(binary) => Expr::Binary(
            ExprBinary {
                op: binary.op,
                left: Box::new(clone_expr(&binary.left)),
                right: Box::new(clone_expr(&binary.right)),
            },
        ),
        Expr::Unary(unary) => Expr::Unary(
            ExprUnary { op: unary.op, expr: Box::new(clone_expr(&unary.expr)) },
        ),
        Expr::Group(group) => Expr::Group(
            ExprGroup { delimeter: group.delimeter, expr: Box::new(clone_expr(&group.expr)) },
        ),
    }
}

impl Clone for Expr {
    fn clone(&self) -> (other: Self)
        ensures
            other@ == self@,
    {
        clone_expr(self)
    }
}

impl Clone for ExprBinary {
    fn clone(&self) -> (other: Self)
        ensures
            other.op == self.op,
            other.left@ == self.left@,
            other.right@ == self.right@,
    {
        ExprBinary {
            op: self.op,
            left: Box::new(clone_expr(&self.left)),
            right: Box::new(clone_expr(&self.right)),
        }
    }
}

impl Clone for ExprUnary {
    fn clone(&self) -> (other: Self)
        ensures
            other.op == self.op,
            other.expr@ == self.expr@,
    {
        ExprUnary { op: self.op, expr: Box::new(clone_expr(&self.expr)) }
    }
}

impl Clone for ExprGroup {
    fn clone(&self) -> (other: Self)
        ensures
            other.delimeter == self.delimeter,
            other.expr@ == self.expr@,
    {
        ExprGroup { delimeter: self.delimeter, expr: Box::new(clone_expr(&self.expr)) }
    }
}

/// Whether the evaluator knows every operator of an expression: all but
/// `And` and `Or`.
pub open spec fn is_supported(expr: ExprModel) -> bool
    decreases expr,
{
    match expr {
        ExprModel::Binary { op, left, right } => !(op is And) && !(op is Or) && is_supported(
            *left,
        ) && is_supported(*right),
        ExprModel::Unary { expr, .. } => is_supported(*expr),
        ExprModel::Group { expr, .. } => is_supported(*expr),
        _ => true,
    }
}

/// Whether the evaluator knows every operator of `expr`: all but `And` and
/// `Or`.
pub fn supported(expr: &Expr) -> (known: bool)
    ensures
        known == is_supported(expr@),
    decreases expr,
{
    match expr {
        Expr::Binary(binary) => match binary.op {
            OpBinary::And | OpBinary::Or => false,
            _ => supported(&binary.left) && supported(&binary.right),
        },
        Expr::Unary(unary) => supported(&unary.expr),
        Expr::Group(group) => supported(&group.expr),
        _ => true,
    }
}

} // verus!
