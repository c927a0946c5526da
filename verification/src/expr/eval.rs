//! The evaluator: what the operators do to values.

use crate::data::{CellPath, CellRef, CellRefModel};
use crate::expr::ast::{ExprLiteral, ExprModel, OpBinary, OpUnary};
use crate::expr::float::Float;
use crate::expr::value::{value_eq, value_equal, value_ord, value_order, Value, ValueModel};
use crate::expr::{lex, parse};
use std::cmp::Ordering;
use vstd::arithmetic::power::pow;
use vstd::prelude::*;

pub use crate::expr::machine::{eval, Step};

verus! {

/// Error value.
#[derive(Debug, Clone)]
pub enum Error {
    /// Invalid syntax.
    Tokenize(lex::error::Kind),
    /// Invalid expression.
    Parse(parse::error::Kind),
    /// Divide by 0.
    Div0,
    /// Could not parse a string as a number.
    InvalidNumber,
    /// Could not evaluate operation due to invalid arguments.
    InvalidOperation(String),
    /// Number overflow.
    Overflow,
    /// Invalid cell reference.
    InvalidCellRef(CellRef),
}

/// The mathematical value of an [`Error`].
pub enum ErrorModel {
    Tokenize(lex::error::Kind),
    Parse(parse::error::KindModel),
    Div0,
    InvalidNumber,
    InvalidOperation(Seq<char>),
    Overflow,
    InvalidCellRef(CellRefModel),
}

impl View for Error {
    type V = ErrorModel;

    open spec fn view(&self) -> ErrorModel {
        match self {
            Error::Tokenize(kind) => ErrorModel::Tokenize(*kind),
            Error::Parse(kind) => ErrorModel::Parse(kind@),
            Error::Div0 => ErrorModel::Div0,
            Error::InvalidNumber => ErrorModel::InvalidNumber,
            Error::InvalidOperation(reason) => ErrorModel::InvalidOperation(reason@),
            Error::Overflow => ErrorModel::Overflow,
            Error::InvalidCellRef(cell) => ErrorModel::InvalidCellRef(cell@),
        }
    }
}

/// Why a context has no value for a cell.
#[derive(Debug, Clone)]
pub enum ContextError {
    /// A referenced cell does not exist.
    /// e.g. The sheet does not exist, or the cell index is out of bounds.
    CellRefDoesNotExist,
    /// The referenced cell contains a [value error](Error).
    CellRefValueError(Error),
}

/// The mathematical value of a [`ContextError`].
pub enum ContextErrorModel {
    CellRefDoesNotExist,
    CellRefValueError(ErrorModel),
}

impl View for ContextError {
    type V = ContextErrorModel;

    open spec fn view(&self) -> ContextErrorModel {
        match self {
            ContextError::CellRefDoesNotExist => ContextErrorModel::CellRefDoesNotExist,
            ContextError::CellRefValueError(error) => ContextErrorModel::CellRefValueError(
                error@,
            ),
        }
    }
}

/// Provides the context to evaluate an expression in.
pub trait Context: Copy {
    /// # Arguments
    /// + `cell_ref`: Cell reference.
    /// + `origin`: Location where the cell reference originates from.
    ///
    /// # Returns
    /// Value of the cell.
    fn cell_value(self, cell_ref: &CellRef, origin: &CellPath) -> (value: Result<
        Value,
        ContextError,
    >);
}

/// An operation on two floating-point numbers.
#[derive(Clone, Copy, Debug, PartialEq, Eq, Structural)]
pub enum FloatOp {
    Add,
    Subtract,
    Multiply,
    Divide,
    /// The remainder of the division, with the sign of the dividend.
    Remainder,
    /// The left number raised to the power of the right one.
    Power,
}

/// Floating-point arithmetic that an operator needs done.
#[derive(Clone, Copy, Debug, PartialEq, Eq, Structural)]
pub enum FloatRequest {
    /// `left op right`.
    Binary { op: FloatOp, left: Float, right: Float },
    /// `base` raised to the power of an integer.
    Powi { base: Float, exponent: i32 },
}

/// What an operator makes of its operands: a value or an error at once, or
/// the floating-point arithmetic whose result is the value.
#[derive(Debug)]
pub enum Applied {
    Done(Result<Value, Error>),
    Ask(FloatRequest),
}

/// The mathematical value of an [`Applied`].
pub enum AppliedModel {
    Done(Result<ValueModel, ErrorModel>),
    Ask(FloatRequest),
}

impl View for Applied {
    type V = AppliedModel;

    open spec fn view(&self) -> AppliedModel {
        match self {
            Applied::Done(Ok(value)) => AppliedModel::Done(Ok(value@)),
            Applied::Done(Err(error)) => AppliedModel::Done(Err(error@)),
            Applied::Ask(request) => AppliedModel::Ask(*request),
        }
    }
}

/// The magnitude of an integer.
pub open spec fn magnitude(x: int) -> nat {
    if x < 0 {
        (-x) as nat
    } else {
        x as nat
    }
}

/// The quotient of `x` by `d`, rounded towards zero.
pub open spec fn truncated_quotient(x: int, d: int) -> int
    recommends
        d != 0,
{
    let q = magnitude(x) / magnitude(d);
    if (x < 0) != (d < 0) {
        -q
    } else {
        q as int
    }
}

/// What is left of `x` when the truncated quotient by `d` is taken off: it
/// has the sign of `x`.
pub open spec fn truncated_remainder(x: int, d: int) -> int
    recommends
        d != 0,
{
    let r = magnitude(x) % magnitude(d);
    if x < 0 {
        -r
    } else {
        r as int
    }
}

/// Whether `x` is an `i64`.
pub open spec fn fits_i64(x: int) -> bool {
    i64::MIN <= x <= i64::MAX
}

/// The integer `x` where it is an `i64`, else an overflow.
pub open spec fn int_or_overflow(x: int) -> AppliedModel {
    if fits_i64(x) {
        AppliedModel::Done(Ok(ValueModel::Int(x as i64)))
    } else {
        AppliedModel::Done(Err(ErrorModel::Overflow))
    }
}

/// The error of an operator that was given what it cannot work on.
pub open spec fn invalid(reason: Seq<char>) -> AppliedModel {
    AppliedModel::Done(Err(ErrorModel::InvalidOperation(reason)))
}

/// The floating-point operation of an arithmetic operator.
pub open spec fn float_op(op: OpBinary) -> FloatOp {
    match op {
        OpBinary::Add => FloatOp::Add,
        OpBinary::Subtract => FloatOp::Subtract,
        OpBinary::Multiply => FloatOp::Multiply,
        OpBinary::Divide => FloatOp::Divide,
        OpBinary::Remainder => FloatOp::Remainder,
        _ => FloatOp::Power,
    }
}

/// The two operands as floating-point numbers, handed on to `op`.
pub open spec fn promoted(op: FloatOp, left: ValueModel, right: ValueModel) -> AppliedModel
    recommends
        left.is_number(),
        right.is_number(),
{
    AppliedModel::Ask(
        FloatRequest::Binary { op, left: left.as_number()->0, right: right.as_number()->0 },
    )
}

/// What `+`, `-`, `*`, `/` and `%` make of two integers. The result is an
/// integer that must fit; a division that leaves a remainder is done on
/// floating-point numbers instead. Dividing by zero counts as an overflow.
pub open spec fn int_arithmetic(op: OpBinary, left: i64, right: i64) -> AppliedModel
    recommends
        op is Add || op is Subtract || op is Multiply || op is Divide || op is Remainder,
{
    match op {
        OpBinary::Add => int_or_overflow(left + right),
        OpBinary::Subtract => int_or_overflow(left - right),
        OpBinary::Multiply => int_or_overflow(left * right),
        OpBinary::Divide => if right == 0 {
            AppliedModel::Done(Err(ErrorModel::Overflow))
        } else if truncated_remainder(left as int, right as int) == 0 {
            int_or_overflow(truncated_quotient(left as int, right as int))
        } else {
            promoted(FloatOp::Divide, ValueModel::Int(left), ValueModel::Int(right))
        },
        _ => if right == 0 {
            AppliedModel::Done(Err(ErrorModel::Overflow))
        } else if left == i64::MIN && right == -1 {
            AppliedModel::Done(Err(ErrorModel::Overflow))
        } else {
            int_or_overflow(truncated_remainder(left as int, right as int))
        },
    }
}

/// What `**` makes of its operands. Two integers give an integer where the
/// exponent is not negative; a negative exponent, or a floating-point base,
/// asks for the power of a floating-point number by an integer, which must be
/// an `i32`; a floating-point exponent asks for the power by that number.
pub open spec fn exponentiation(left: ValueModel, right: ValueModel) -> AppliedModel {
    match (left, right) {
        (ValueModel::Int(base), ValueModel::Int(exponent)) => {
            if 0 <= exponent <= u32::MAX {
                int_or_overflow(pow(base as int, exponent as nat))
            } else if i32::MIN <= exponent < 0 {
                AppliedModel::Ask(
                    FloatRequest::Powi { base: Float::of_int(base), exponent: exponent as i32 },
                )
            } else {
                AppliedModel::Done(Err(ErrorModel::Overflow))
            }
        },
        (ValueModel::Float(base), ValueModel::Int(exponent)) => {
            if i32::MIN <= exponent <= i32::MAX {
                AppliedModel::Ask(FloatRequest::Powi { base, exponent: exponent as i32 })
            } else {
                AppliedModel::Done(Err(ErrorModel::Overflow))
            }
        },
        (_, ValueModel::Float(_)) => if left.is_number() {
            promoted(FloatOp::Power, left, right)
        } else {
            invalid("can only exponentiate numbers"@)
        },
        _ => invalid("can only exponentiate numbers"@),
    }
}

/// What an arithmetic operator says of operands that are not numbers.
pub open spec fn arithmetic_reason(op: OpBinary) -> Seq<char> {
    match op {
        OpBinary::Add => "can only add numbers"@,
        OpBinary::Subtract => "can only subtract numbers"@,
        OpBinary::Multiply => "can only multiply numbers"@,
        OpBinary::Divide => "can only divide numbers"@,
        OpBinary::Remainder => "can only take remainder numbers"@,
        _ => "can only exponentiate numbers"@,
    }
}

/// Whether an operator of order holds of two values in the order `order`.
pub open spec fn order_holds(op: OpBinary, order: Ordering) -> bool
    recommends
        op is Greater || op is GreaterEqual || op is Less || op is LessEqual,
{
    match op {
        OpBinary::Greater => order is Greater,
        OpBinary::GreaterEqual => order is Greater || order is Equal,
        OpBinary::Less => order is Less,
        _ => order is Less || order is Equal,
    }
}

/// What a binary operator makes of its two operands.
pub open spec fn apply_binary(op: OpBinary, left: ValueModel, right: ValueModel) -> AppliedModel
    recommends
        !(op is And),
        !(op is Or),
{
    match op {
        OpBinary::Add
        | OpBinary::Subtract
        | OpBinary::Multiply
        | OpBinary::Divide
        | OpBinary::Remainder => match (left, right) {
            (ValueModel::Int(left), ValueModel::Int(right)) => int_arithmetic(op, left, right),
            _ => if left.is_number() && right.is_number() {
                promoted(float_op(op), left, right)
            } else {
                invalid(arithmetic_reason(op))
            },
        },
        OpBinary::Exp => exponentiation(left, right),
        OpBinary::Equal => match value_equal(left, right) {
            Some(equal) => AppliedModel::Done(Ok(ValueModel::Bool(equal))),
            None => invalid("can not compare types"@),
        },
        OpBinary::NotEqual => match value_equal(left, right) {
            Some(equal) => AppliedModel::Done(Ok(ValueModel::Bool(!equal))),
            None => invalid("can not compare types"@),
        },
        _ => match value_order(left, right) {
            Some(order) => AppliedModel::Done(Ok(ValueModel::Bool(order_holds(op, order)))),
            None => invalid("can not compare types"@),
        },
    }
}

/// What a unary operator makes of its operand: `!` turns a boolean round,
/// `-` changes the sign of a number. The one integer without a negative
/// overflows.
pub open spec fn apply_unary(op: OpUnary, value: ValueModel) -> Result<ValueModel, ErrorModel> {
    match op {
        OpUnary::Not => match value {
            ValueModel::Bool(value) => Ok(ValueModel::Bool(!value)),
            _ => Err(
                ErrorModel::InvalidOperation(
                    "can not perform logical operations on non-boolean values"@,
                ),
            ),
        },
        OpUnary::Minus => match value {
            ValueModel::Float(value) => Ok(ValueModel::Float(value.spec_negated())),
            ValueModel::Int(value) => if value == i64::MIN {
                Err(ErrorModel::Overflow)
            } else {
                Ok(ValueModel::Int((-value) as i64))
            },
            _ => Err(ErrorModel::InvalidOperation("can not subtract non-numeric types"@)),
        },
    }
}

/// The truncated quotient and remainder make up the dividend, and the
/// remainder is smaller than the divisor and has the sign of the dividend.
pub proof fn lemma_truncated_division(x: int, d: int)
    requires
        d != 0,
    ensures
        x == d * truncated_quotient(x, d) + truncated_remainder(x, d),
        magnitude(truncated_remainder(x, d)) < magnitude(d),
        x >= 0 ==> truncated_remainder(x, d) >= 0,
        x <= 0 ==> truncated_remainder(x, d) <= 0,
{
    let m = magnitude(x) as int;
    let n = magnitude(d) as int;
    vstd::arithmetic::div_mod::lemma_fundamental_div_mod(m, n);
    vstd::arithmetic::div_mod::lemma_mod_bound(m, n);
    let q = m / n;
    let r = m % n;
    assert(m == n * q + r);
    assert(n * (-q) == -(n * q)) by (nonlinear_arith);
    assert((-n) * q == -(n * q)) by (nonlinear_arith);
    assert((-n) * (-q) == n * q) by (nonlinear_arith);
}

/// The remainder of two integers has the sign of the dividend.
pub proof fn lemma_remainder_follows_dividend(left: i64, right: i64)
    requires
        right != 0,
        !(left == i64::MIN && right == -1),
    ensures
        apply_binary(OpBinary::Remainder, ValueModel::Int(left), ValueModel::Int(right))
            == AppliedModel::Done(
            Ok(ValueModel::Int(truncated_remainder(left as int, right as int) as i64)),
        ),
        left >= 0 ==> truncated_remainder(left as int, right as int) >= 0,
        left <= 0 ==> truncated_remainder(left as int, right as int) <= 0,
{
    lemma_truncated_division(left as int, right as int);
}

/// What a literal stands for: a value, or what must be asked to have it.
#[derive(Debug)]
pub enum Literal {
    Value(Value),
    /// A number that is no integer, as it was written.
    Number(String),
    /// A reference to a cell.
    Cell(CellRef),
}

/// The mathematical value of a [`Literal`].
pub enum LiteralModel {
    Value(ValueModel),
    Number(Seq<char>),
    Cell(CellRefModel),
}

impl View for Literal {
    type V = LiteralModel;

    open spec fn view(&self) -> LiteralModel {
        match self {
            Literal::Value(value) => LiteralModel::Value(value@),
            Literal::Number(text) => LiteralModel::Number(text@),
            Literal::Cell(cell) => LiteralModel::Cell(cell@),
        }
    }
}

/// What a literal stands for. A number is an integer where its text reads
/// as one.
pub open spec fn literal_value(literal: ExprModel) -> LiteralModel
    recommends
        literal is String || literal is Bool || literal is Number || literal is CellRef,
{
    match literal {
        ExprModel::String(text) => LiteralModel::Value(ValueModel::String(text)),
        ExprModel::Bool(value) => LiteralModel::Value(ValueModel::Bool(value)),
        ExprModel::Number(text) => match crate::text::parse_i64(text) {
            Some(value) => LiteralModel::Value(ValueModel::Int(value)),
            None => LiteralModel::Number(text),
        },
        ExprModel::CellRef(cell) => LiteralModel::Cell(cell),
        _ => LiteralModel::Value(ValueModel::Empty),
    }
}

/// `i64::checked_pow` computes the power, and gives `None` where the power
/// is no `i64`.
pub assume_specification[ i64::checked_pow ](base: i64, exp: u32) -> (power: Option<i64>)
    ensures
        power == if fits_i64(pow(base as int, exp as nat)) {
            Some(pow(base as int, exp as nat) as i64)
        } else {
            None::<i64>
        },
;

/// The result that does not fit.
fn overflow() -> (applied: Applied)
    ensures
        applied@ == AppliedModel::Done(Err(ErrorModel::Overflow)),
{
    Applied::Done(Err(Error::Overflow))
}

/// The integer, or an overflow where there is none.
fn checked(value: Option<i64>) -> (applied: Applied)
    ensures
        applied@ == match value {
            Some(value) => AppliedModel::Done(Ok(ValueModel::Int(value))),
            None => AppliedModel::Done(Err(ErrorModel::Overflow)),
        },
{
    match value {
        Some(value) => Applied::Done(Ok(Value::Int(value))),
        None => overflow(),
    }
}

/// The error of an operator that was given what it cannot work on.
fn refuse(reason: &str) -> (applied: Applied)
    ensures
        applied@ == invalid(reason@),
{
    Applied::Done(Err(Error::InvalidOperation(reason.to_owned())))
}

/// Hands the two numbers on to floating-point arithmetic.
fn ask(op: FloatOp, left: &Value, right: &Value) -> (applied: Applied)
    requires
        left@.is_number(),
        right@.is_number(),
    ensures
        applied@ == promoted(op, left@, right@),
{
    let left = left.as_number().unwrap();
    let right = right.as_number().unwrap();
    Applied::Ask(FloatRequest::Binary { op, left, right })
}

/// The truncated quotient and remainder, by the signs of the two numbers.
proof fn lemma_truncated(x: int, d: int)
    requires
        d != 0,
    ensures
        truncated_quotient(x, d) == if x == 0 {
            0
        } else if x > 0 && d > 0 {
            x / d
        } else if x < 0 && d < 0 {
            (x * -1) / (d * -1)
        } else if x < 0 {
            ((x * -1) / d) * -1
        } else {
            (x / (d * -1)) * -1
        },
        truncated_remainder(x, d) == if x == 0 {
            0
        } else if x > 0 && d > 0 {
            x % d
        } else if x < 0 && d < 0 {
            ((x * -1) % (d * -1)) * -1
        } else if x < 0 {
            ((x * -1) % d) * -1
        } else {
            x % (d * -1)
        },
{
    if x == 0 {
        vstd::arithmetic::div_mod::lemma_div_basics(magnitude(d) as int);
        vstd::arithmetic::div_mod::lemma_small_mod(0, magnitude(d));
    }
}

/// Divides two integers: exactly where no remainder is left, else as
/// floating-point numbers.
fn divide_ints(left: i64, right: i64) -> (applied: Applied)
    ensures
        applied@ == int_arithmetic(OpBinary::Divide, left, right),
{
    if right == 0 {
        return overflow();
    }
    proof {
        lemma_truncated(left as int, right as int);
    }
    match left.checked_rem(right) {
        Some(0) => checked(left.checked_div(right)),
        Some(_) => ask(FloatOp::Divide, &Value::Int(left), &Value::Int(right)),
        None => {
            proof {
                assert(magnitude(right as int) == 1);
                assert(truncated_remainder(left as int, right as int) == 0);
                vstd::arithmetic::div_mod::lemma_div_basics(magnitude(left as int) as int);
                assert(truncated_quotient(left as int, right as int) == magnitude(left as int));
            }
            overflow()
        },
    }
}

/// Raises `left` to the power of `right`.
fn raise(left: &Value, right: &Value) -> (applied: Applied)
    ensures
        applied@ == exponentiation(left@, right@),
{
    match (left, right) {
        (Value::Int(base), Value::Int(exponent)) => {
            if 0 <= *exponent && *exponent <= 0xffff_ffff {
                checked(base.checked_pow(*exponent as u32))
            } else if -0x8000_0000 <= *exponent && *exponent < 0 {
                Applied::Ask(
                    FloatRequest::Powi { base: Float::from_int(*base), exponent: *exponent as i32 },
                )
            } else {
                overflow()
            }
        },
        (Value::Float(base), Value::Int(exponent)) => {
            if -0x8000_0000 <= *exponent && *exponent <= 0x7fff_ffff {
                Applied::Ask(FloatRequest::Powi { base: *base, exponent: *exponent as i32 })
            } else {
                overflow()
            }
        },
        (_, Value::Float(_)) => if left.is_number() {
            ask(FloatOp::Power, left, right)
        } else {
            refuse("can only exponentiate numbers")
        },
        _ => refuse("can only exponentiate numbers"),
    }
}

/// Applies `+`, `-`, `*`, `/` or `%`.
fn calculate(op: OpBinary, left: &Value, right: &Value) -> (applied: Applied)
    requires
        op is Add || op is Subtract || op is Multiply || op is Divide || op is Remainder,
    ensures
        applied@ == apply_binary(op, left@, right@),
{
    match (left, right) {
        (Value::Int(left), Value::Int(right)) => match op {
            OpBinary::Add => checked(left.checked_add(*right)),
            OpBinary::Remainder => {
                proof {
                    if *right != 0 {
                        lemma_truncated(*left as int, *right as int);
                        vstd::arithmetic::div_mod::lemma_mod_bound(
                            magnitude(*left as int) as int,
                            magnitude(*right as int) as int,
                        );
                    }
                }
                checked(left.checked_rem(*right))
            },
            OpBinary::Subtract => checked(left.checked_sub(*right)),
            OpBinary::Divide => divide_ints(*left, *right),
            _ => checked(left.checked_mul(*right)),
        },
        _ => {
            if left.is_number() && right.is_number() {
                match op {
                    OpBinary::Add => ask(FloatOp::Add, left, right),
                    OpBinary::Subtract => ask(FloatOp::Subtract, left, right),
                    OpBinary::Multiply => ask(FloatOp::Multiply, left, right),
                    OpBinary::Divide => ask(FloatOp::Divide, left, right),
                    _ => ask(FloatOp::Remainder, left, right),
                }
            } else {
                match op {
                    OpBinary::Add => refuse("can only add numbers"),
                    OpBinary::Subtract => refuse("can only subtract numbers"),
                    OpBinary::Multiply => refuse("can only multiply numbers"),
                    OpBinary::Divide => refuse("can only divide numbers"),
                    _ => refuse("can only take remainder numbers"),
                }
            }
        },
    }
}

/// The result of a comparison, where the two values can be compared.
fn decide(holds: Option<bool>) -> (applied: Applied)
    ensures
        applied@ == match holds {
            Some(holds) => AppliedModel::Done(Ok(ValueModel::Bool(holds))),
            None => invalid("can not compare types"@),
        },
{
    match holds {
        Some(holds) => Applied::Done(Ok(Value::Bool(holds))),
        None => refuse("can not compare types"),
    }
}

/// Whether an operator of order holds of two values in the order `order`.
fn holds_of(op: OpBinary, order: Option<Ordering>) -> (holds: Option<bool>)
    requires
        op is Greater || op is GreaterEqual || op is Less || op is LessEqual,
    ensures
        holds == match order {
            Some(order) => Some(order_holds(op, order)),
            None => None,
        },
{
    match order {
        Some(order) => Some(
            match op {
                OpBinary::Greater => matches!(order, Ordering::Greater),
                OpBinary::GreaterEqual => matches!(order, Ordering::Greater | Ordering::Equal),
                OpBinary::Less => matches!(order, Ordering::Less),
                _ => matches!(order, Ordering::Less | Ordering::Equal),
            },
        ),
        None => None,
    }
}

/// Applies a binary operator to the values of its two operands.
pub fn eval_binary(op: OpBinary, left: &Value, right: &Value) -> (applied: Applied)
    requires
        !(op is And),
        !(op is Or),
    ensures
        applied@ == apply_binary(op, left@, right@),
{
    match op {
        OpBinary::Add
        | OpBinary::Subtract
        | OpBinary::Multiply
        | OpBinary::Divide
        | OpBinary::Remainder => calculate(op, left, right),
        OpBinary::Exp => raise(left, right),
        OpBinary::Equal => decide(value_eq(left, right)),
        OpBinary::NotEqual => match value_eq(left, right) {
            Some(equal) => decide(Some(!equal)),
            None => decide(None),
        },
        _ => decide(holds_of(op, value_ord(left, right))),
    }
}

/// Applies a unary operator to the value of its operand.
pub fn eval_unary(op: OpUnary, value: &Value) -> (result: Result<Value, Error>)
    ensures
        match apply_unary(op, value@) {
            Ok(value) => result is Ok && result->Ok_0@ == value,
            Err(error) => result is Err && result->Err_0@ == error,
        },
{
    match op {
        OpUnary::Not => match value {
            Value::Bool(value) => Ok(Value::Bool(!*value)),
            _ => Err(
                Error::InvalidOperation(
                    "can not perform logical operations on non-boolean values".to_owned(),
                ),
            ),
        },
        OpUnary::Minus => match value {
            Value::Float(value) => Ok(Value::Float(value.negated())),
            Value::Int(value) => if *value == i64::MIN {
                Err(Error::Overflow)
            } else {
                Ok(Value::Int(-*value))
            },
            _ => Err(Error::InvalidOperation("can not subtract non-numeric types".to_owned())),
        },
    }
}

/// Evaluates a literal as far as that takes no asking.
pub fn eval_literal(expr: ExprLiteral) -> (literal: Literal)
    ensures
        literal@ == literal_value(expr@),
{
    match expr {
        ExprLiteral::String(value) => Literal::Value(Value::String(value.value)),
        ExprLiteral::Bool(value) => Literal::Value(Value::Bool(value.value)),
        ExprLiteral::Number(value) => {
            let chars = crate::text::chars_of(value.value.as_str());
            match crate::text::i64_value(&chars) {
                Some(number) => Literal::Value(Value::Int(number)),
                None => Literal::Number(value.value),
            }
        },
        ExprLiteral::CellRef(value) => Literal::Cell(value.value),
    }
}

/// No operator gives the error of a division by zero: an integer divided by
/// zero overflows, and the division of floating-point numbers has a result
/// for every divisor.
pub proof fn lemma_operators_never_divide_by_zero(
    op: OpBinary,
    unary: OpUnary,
    left: ValueModel,
    right: ValueModel,
)
    ensures
        apply_binary(op, left, right) != AppliedModel::Done(Err(ErrorModel::Div0)),
        apply_unary(unary, left) != Err::<ValueModel, ErrorModel>(ErrorModel::Div0),
{
}

/// One of the four operators of order.
pub open spec fn is_order(op: OpBinary) -> bool {
    op is Greater || op is GreaterEqual || op is Less || op is LessEqual
}

/// What is no number has no place in the order of the numbers: to compare it
/// is an invalid operation.
pub proof fn lemma_nan_is_incomparable(op: OpBinary, left: ValueModel, right: ValueModel)
    requires
        is_order(op),
        left.is_number(),
        right.is_number(),
        (left is Float && left->Float_0.is_nan()) || (right is Float && right->Float_0.is_nan()),
    ensures
        apply_binary(op, left, right) == invalid("can not compare types"@),
{
    lemma_int_is_a_number(left);
    lemma_int_is_a_number(right);
}

/// The two zeros are equal, and neither comes before the other.
pub proof fn lemma_zeros_are_equal(left: Float, right: Float)
    requires
        left.is_zero(),
        right.is_zero(),
    ensures
        value_equal(ValueModel::Float(left), ValueModel::Float(right)) == Some(true),
        value_order(ValueModel::Float(left), ValueModel::Float(right)) == Some(Ordering::Equal),
{
}

/// An integer converts to a number: to what is no number it never does.
proof fn lemma_int_is_a_number(value: ValueModel)
    ensures
        value is Int ==> !value.as_number()->0.is_nan(),
{
    if let ValueModel::Int(i) = value {
        crate::expr::float::lemma_int_bits_finite(i);
    }
}

} // verus!
