//! What a formula means, and that the step-by-step evaluation computes it.

use crate::data::CellRefModel;
use crate::expr::ast::{ExprModel, OpBinary};
use crate::expr::eval::{
    apply_binary, apply_unary, literal_value, truncated_remainder, AppliedModel,
    ContextErrorModel, ErrorModel, FloatRequest, LiteralModel,
};
use crate::expr::float::Float;
use crate::expr::machine::{
    answer_cell, answer_float, answer_number, lemma_weight_push, run, weight, MachineModel,
    StepModel, TaskModel,
};
use crate::expr::value::ValueModel;
use vstd::prelude::*;

verus! {

/// The host of a formula, as far as the evaluation sees it: what it answers
/// to each question.
pub struct Host {
    /// What a cell holds.
    pub cell: spec_fn(CellRefModel) -> Result<ValueModel, ContextErrorModel>,
    /// The floating-point number that a text writes, if it writes one.
    pub number: spec_fn(Seq<char>) -> Option<Float>,
    /// The result of floating-point arithmetic.
    pub float: spec_fn(FloatRequest) -> Float,
}

impl Host {
    /// The value of a reference.
    pub open spec fn look_up(self, cell: CellRefModel) -> Result<ValueModel, ErrorModel> {
        match (self.cell)(cell) {
            Ok(value) => Ok(value),
            Err(ContextErrorModel::CellRefDoesNotExist) => Err(ErrorModel::InvalidCellRef(cell)),
            Err(ContextErrorModel::CellRefValueError(error)) => Err(error),
        }
    }

    /// The value of a number that is no integer.
    pub open spec fn read(self, text: Seq<char>) -> Result<ValueModel, ErrorModel> {
        match (self.number)(text) {
            Some(number) => Ok(ValueModel::Float(number)),
            None => Err(ErrorModel::InvalidNumber),
        }
    }

    /// The result of an operator, with the arithmetic that it asks for done.
    pub open spec fn settle(self, applied: AppliedModel) -> Result<ValueModel, ErrorModel> {
        match applied {
            AppliedModel::Done(result) => result,
            AppliedModel::Ask(request) => Ok(ValueModel::Float((self.float)(request))),
        }
    }
}

/// The value of an expression. The empty expression has the empty value and
/// a group that of what it holds; the operands of an operator are evaluated
/// from left to right, and the first error is the result.
pub open spec fn evaluate(expr: ExprModel, host: Host) -> Result<ValueModel, ErrorModel>
    decreases expr,
{
    match expr {
        ExprModel::Empty => Ok(ValueModel::Empty),
        ExprModel::Binary { op, left, right } => match evaluate(*left, host) {
            Ok(left) => match evaluate(*right, host) {
                Ok(right) => host.settle(apply_binary(op, left, right)),
                Err(error) => Err(error),
            },
            Err(error) => Err(error),
        },
        ExprModel::Unary { op, expr } => match evaluate(*expr, host) {
            Ok(value) => apply_unary(op, value),
            Err(error) => Err(error),
        },
        ExprModel::Group { expr, .. } => evaluate(*expr, host),
        _ => match literal_value(expr) {
            LiteralModel::Value(value) => Ok(value),
            LiteralModel::Number(text) => host.read(text),
            LiteralModel::Cell(cell) => host.look_up(cell),
        },
    }
}

/// What is left to do when an evaluation has stopped.
pub open spec fn step_weight(step: StepModel) -> nat {
    match step {
        StepModel::Done(_) => 0,
        StepModel::Cell(_, machine) => 1 + weight(machine.tasks),
        StepModel::Number(_, machine) => 1 + weight(machine.tasks),
        StepModel::Float(_, machine) => 1 + weight(machine.tasks),
    }
}

/// A run leaves less to do than it found.
pub proof fn lemma_run_weight(machine: MachineModel)
    ensures
        step_weight(run(machine)) <= weight(machine.tasks),
    decreases weight(machine.tasks),
{
    reveal_with_fuel(run, 1);
    let values = machine.values;
    if machine.tasks.len() > 0 {
        let rest = machine.tasks.drop_last();
        assert(machine.tasks =~= rest.push(machine.tasks.last()));
        lemma_weight_push(rest, machine.tasks.last());
        match machine.tasks.last() {
            TaskModel::Eval(expr) => match expr {
                ExprModel::Empty => {
                    lemma_run_weight(MachineModel { tasks: rest, values }.with(ValueModel::Empty));
                },
                ExprModel::Binary { op, left, right } => {
                    let first = rest.push(TaskModel::Binary(op));
                    let second = first.push(TaskModel::Eval(*right));
                    let third = second.push(TaskModel::Eval(*left));
                    lemma_weight_push(rest, TaskModel::Binary(op));
                    lemma_weight_push(first, TaskModel::Eval(*right));
                    lemma_weight_push(second, TaskModel::Eval(*left));
                    lemma_run_weight(MachineModel { tasks: third, values });
                },
                ExprModel::Unary { op, expr } => {
                    let first = rest.push(TaskModel::Unary(op));
                    let second = first.push(TaskModel::Eval(*expr));
                    lemma_weight_push(rest, TaskModel::Unary(op));
                    lemma_weight_push(first, TaskModel::Eval(*expr));
                    lemma_run_weight(MachineModel { tasks: second, values });
                },
                ExprModel::Group { expr, .. } => {
                    lemma_weight_push(rest, TaskModel::Eval(*expr));
                    lemma_run_weight(MachineModel { tasks: rest.push(TaskModel::Eval(*expr)), values });
                },
                _ => match literal_value(expr) {
                    LiteralModel::Value(value) => {
                        lemma_run_weight(MachineModel { tasks: rest, values }.with(value));
                    },
                    _ => {},
                },
            },
            TaskModel::Binary(op) => {
                let below = MachineModel { tasks: rest, values: values.take(values.len() - 2) };
                match apply_binary(op, values[values.len() - 2], values.last()) {
                    AppliedModel::Done(Ok(value)) => {
                        lemma_run_weight(below.with(value));
                    },
                    _ => {},
                }
            },
            TaskModel::Unary(op) => match apply_unary(op, values.last()) {
                Ok(value) => {
                    lemma_run_weight(
                        MachineModel { tasks: rest, values: values.drop_last() }.with(value),
                    );
                },
                Err(_) => {},
            },
        }
    }
}

/// The result of an evaluation that has stopped at `step` and is carried on
/// with the answers of `host`, question after question.
#[verifier::opaque]
pub open spec fn complete(step: StepModel, host: Host) -> Result<ValueModel, ErrorModel>
    decreases step_weight(step),
{
    match step {
        StepModel::Done(result) => result,
        StepModel::Cell(cell, machine) => {
            proof {
                if (host.cell)(cell) is Ok {
                    lemma_run_weight(machine.with((host.cell)(cell)->Ok_0));
                }
            }
            complete(answer_cell(cell, machine, (host.cell)(cell)), host)
        },
        StepModel::Number(text, machine) => {
            proof {
                if (host.number)(text) is Some {
                    lemma_run_weight(machine.with(ValueModel::Float((host.number)(text)->0)));
                }
            }
            complete(answer_number(machine, (host.number)(text)), host)
        },
        StepModel::Float(request, machine) => {
            proof {
                lemma_run_weight(machine.with(ValueModel::Float((host.float)(request))));
            }
            complete(answer_float(machine, (host.float)(request)), host)
        },
    }
}

/// How an evaluation that has stopped is carried on.
pub proof fn lemma_complete(step: StepModel, host: Host)
    ensures
        complete(step, host) == match step {
            StepModel::Done(result) => result,
            StepModel::Cell(cell, machine) => match host.look_up(cell) {
                Ok(value) => complete(run(machine.with(value)), host),
                Err(error) => Err(error),
            },
            StepModel::Number(text, machine) => match host.read(text) {
                Ok(value) => complete(run(machine.with(value)), host),
                Err(error) => Err(error),
            },
            StepModel::Float(request, machine) => complete(
                run(machine.with(ValueModel::Float((host.float)(request)))),
                host,
            ),
        },
{
    reveal_with_fuel(complete, 2);
}

/// The state with `expr` to do next.
pub open spec fn before(expr: ExprModel, rest: Seq<TaskModel>, values: Seq<ValueModel>) -> MachineModel {
    MachineModel { tasks: rest.push(TaskModel::Eval(expr)), values }
}

/// The state with the value of an expression found.
pub open spec fn after(value: ValueModel, rest: Seq<TaskModel>, values: Seq<ValueModel>) -> MachineModel {
    MachineModel { tasks: rest, values: values.push(value) }
}

/// An operator with two operands is done after its operands, the left one
/// first.
proof fn lemma_run_eval_binary(expr: ExprModel, rest: Seq<TaskModel>, values: Seq<ValueModel>)
    requires
        expr is Binary,
    ensures
        run(before(expr, rest, values)) == run(
            before(
                *expr->Binary_left,
                rest.push(TaskModel::Binary(expr->Binary_op)).push(
                    TaskModel::Eval(*expr->Binary_right),
                ),
                values,
            ),
        ),
{
    reveal_with_fuel(run, 1);
    assert(rest.push(TaskModel::Eval(expr)).drop_last() =~= rest);
}

/// An operator with one operand is done after its operand.
proof fn lemma_run_eval_unary(expr: ExprModel, rest: Seq<TaskModel>, values: Seq<ValueModel>)
    requires
        expr is Unary,
    ensures
        run(before(expr, rest, values)) == run(
            before(*expr->Unary_expr, rest.push(TaskModel::Unary(expr->Unary_op)), values),
        ),
{
    reveal_with_fuel(run, 1);
    assert(rest.push(TaskModel::Eval(expr)).drop_last() =~= rest);
}

/// A group is done by doing what it holds.
proof fn lemma_run_eval_group(expr: ExprModel, rest: Seq<TaskModel>, values: Seq<ValueModel>)
    requires
        expr is Group,
    ensures
        run(before(expr, rest, values)) == run(before(*expr->Group_expr, rest, values)),
{
    reveal_with_fuel(run, 1);
    assert(rest.push(TaskModel::Eval(expr)).drop_last() =~= rest);
}

/// The empty expression and a literal are done at once, or ask the host.
proof fn lemma_run_eval_leaf(expr: ExprModel, rest: Seq<TaskModel>, values: Seq<ValueModel>)
    requires
        !(expr is Binary),
        !(expr is Unary),
        !(expr is Group),
    ensures
        run(before(expr, rest, values)) == if expr is Empty {
            run(after(ValueModel::Empty, rest, values))
        } else {
            match literal_value(expr) {
                LiteralModel::Value(value) => run(after(value, rest, values)),
                LiteralModel::Number(text) => StepModel::Number(
                    text,
                    MachineModel { tasks: rest, values },
                ),
                LiteralModel::Cell(cell) => StepModel::Cell(
                    cell,
                    MachineModel { tasks: rest, values },
                ),
            }
        },
{
    reveal_with_fuel(run, 1);
    assert(rest.push(TaskModel::Eval(expr)).drop_last() =~= rest);
}

/// A binary operator takes the two newest values.
proof fn lemma_run_binary(
    op: crate::expr::ast::OpBinary,
    left: ValueModel,
    right: ValueModel,
    rest: Seq<TaskModel>,
    values: Seq<ValueModel>,
)
    ensures
        run(after(right, rest.push(TaskModel::Binary(op)), values.push(left))) == match apply_binary(
            op,
            left,
            right,
        ) {
            AppliedModel::Done(Ok(value)) => run(after(value, rest, values)),
            AppliedModel::Done(Err(error)) => StepModel::Done(Err(error)),
            AppliedModel::Ask(request) => StepModel::Float(
                request,
                MachineModel { tasks: rest, values },
            ),
        },
{
    reveal_with_fuel(run, 1);
    let found = values.push(left).push(right);
    assert(rest.push(TaskModel::Binary(op)).drop_last() =~= rest);
    assert(found.take(found.len() - 2) =~= values);
    assert(found[found.len() - 2] == left);
}

/// A unary operator takes the newest value.
proof fn lemma_run_unary(
    op: crate::expr::ast::OpUnary,
    value: ValueModel,
    rest: Seq<TaskModel>,
    values: Seq<ValueModel>,
)
    ensures
        run(after(value, rest.push(TaskModel::Unary(op)), values)) == match apply_unary(op, value) {
            Ok(result) => run(after(result, rest, values)),
            Err(error) => StepModel::Done(Err(error)),
        },
{
    reveal_with_fuel(run, 1);
    assert(rest.push(TaskModel::Unary(op)).drop_last() =~= rest);
    assert(values.push(value).drop_last() =~= values);
}

/// The evaluation of one more expression, carried on with the answers of the
/// host, finds the value of the expression and goes on with it, or ends with
/// the error of the expression.
pub proof fn lemma_complete_eval(
    expr: ExprModel,
    rest: Seq<TaskModel>,
    values: Seq<ValueModel>,
    host: Host,
)
    ensures
        complete(run(before(expr, rest, values)), host) == match evaluate(expr, host) {
            Ok(value) => complete(run(after(value, rest, values)), host),
            Err(error) => Err(error),
        },
    decreases expr,
{
    match expr {
        ExprModel::Binary { op, left, right } => {
            let first = rest.push(TaskModel::Binary(op));
            let second = first.push(TaskModel::Eval(*right));
            lemma_run_eval_binary(expr, rest, values);
            lemma_complete_eval(*left, second, values, host);
            match evaluate(*left, host) {
                Ok(left) => {
                    assert(after(left, second, values) == before(
                        *right,
                        first,
                        values.push(left),
                    ));
                    lemma_complete_eval(*right, first, values.push(left), host);
                    match evaluate(*right, host) {
                        Ok(right) => {
                            lemma_run_binary(op, left, right, rest, values);
                            lemma_complete(
                                run(after(right, first, values.push(left))),
                                host,
                            );
                        },
                        Err(_) => {},
                    }
                },
                Err(_) => {},
            }
        },
        ExprModel::Unary { op, expr: inner } => {
            let first = rest.push(TaskModel::Unary(op));
            lemma_run_eval_unary(expr, rest, values);
            lemma_complete_eval(*inner, first, values, host);
            match evaluate(*inner, host) {
                Ok(value) => {
                    lemma_run_unary(op, value, rest, values);
                    lemma_complete(run(after(value, first, values)), host);
                },
                Err(_) => {},
            }
        },
        ExprModel::Group { expr: inner, .. } => {
            lemma_run_eval_group(expr, rest, values);
            lemma_complete_eval(*inner, rest, values, host);
        },
        _ => {
            lemma_run_eval_leaf(expr, rest, values);
            lemma_complete(run(before(expr, rest, values)), host);
        },
    }
}

/// The step-by-step evaluation of an expression, carried on with the answers
/// of the host to its questions, ends with the value of the expression.
pub proof fn lemma_machine_evaluates(expr: ExprModel, host: Host)
    ensures
        complete(run(MachineModel::start(expr)), host) == evaluate(expr, host),
{
    let none = Seq::<TaskModel>::empty();
    let values = Seq::<ValueModel>::empty();
    assert(MachineModel::start(expr).tasks =~= none.push(TaskModel::Eval(expr)));
    assert(MachineModel::start(expr) == before(expr, none, values));
    lemma_complete_eval(expr, none, values, host);
    match evaluate(expr, host) {
        Ok(value) => {
            reveal_with_fuel(run, 1);
            assert(values.push(value).last() == value);
            assert(run(after(value, none, values)) == StepModel::Done(Ok(value)));
            lemma_complete(StepModel::Done(Ok(value)), host);
        },
        Err(_) => {},
    }
}

/// One of the six operators of arithmetic.
pub open spec fn is_arithmetic(op: OpBinary) -> bool {
    op is Add || op is Subtract || op is Multiply || op is Divide || op is Remainder || op is Exp
}

/// Arithmetic on two integers gives an integer or overflows. Left out are
/// the two cases that give a floating-point number: a division that leaves a
/// remainder, and a negative exponent.
pub proof fn lemma_integers_stay_integers(op: OpBinary, left: i64, right: i64, host: Host)
    requires
        is_arithmetic(op),
        !(op is Divide && right != 0 && truncated_remainder(left as int, right as int) != 0),
        !(op is Exp && right < 0),
    ensures
        match host.settle(apply_binary(op, ValueModel::Int(left), ValueModel::Int(right))) {
            Ok(value) => value is Int,
            Err(error) => error is Overflow,
        },
{
}

/// Arithmetic on two numbers of which one is a floating-point number gives a
/// floating-point number. Left out is the power of a floating-point number by
/// an integer that is no `i32`, which overflows.
pub proof fn lemma_floats_promote(op: OpBinary, left: ValueModel, right: ValueModel, host: Host)
    requires
        is_arithmetic(op),
        left.is_number(),
        right.is_number(),
        left is Float || right is Float,
        !(op is Exp && right is Int && !(i32::MIN <= right->Int_0 <= i32::MAX)),
    ensures
        host.settle(apply_binary(op, left, right)) is Ok,
        host.settle(apply_binary(op, left, right))->Ok_0 is Float,
{
}

} // verus!
