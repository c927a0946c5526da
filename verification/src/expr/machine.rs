//! The evaluation of a syntax tree, step by step. What only the host of the
//! formula can do (the look-up of a cell, the arithmetic of floating-point
//! numbers) is asked of it: the evaluation stops with a question and goes on
//! with the answer.

use crate::data::{CellPath, CellRef, CellRefModel};
use crate::expr::ast::{is_supported, Expr, ExprModel, OpBinary, OpUnary};
use crate::expr::eval::{
    apply_binary, apply_unary, eval_binary, eval_literal, eval_unary, literal_value, Applied,
    AppliedModel, Context, ContextError, ContextErrorModel, Error, ErrorModel, FloatRequest,
    Literal, LiteralModel,
};
use crate::expr::float::Float;
use crate::expr::value::{Value, ValueModel};
use vstd::prelude::*;

verus! {

/// What is still to do: an expression to evaluate, or an operator to apply
/// to the values of its operands.
pub enum TaskModel {
    Eval(ExprModel),
    Binary(OpBinary),
    Unary(OpUnary),
}

/// The state of an evaluation: the tasks, the next one last, and the values
/// found so far, the newest last.
pub struct MachineModel {
    pub tasks: Seq<TaskModel>,
    pub values: Seq<ValueModel>,
}

/// How a run of the evaluation ends: with the result, or with a question and
/// the state that waits for the answer.
pub enum StepModel {
    Done(Result<ValueModel, ErrorModel>),
    /// The value of a cell is wanted.
    Cell(CellRefModel, MachineModel),
    /// The floating-point number that a text writes is wanted.
    Number(Seq<char>, MachineModel),
    /// The result of floating-point arithmetic is wanted.
    Float(FloatRequest, MachineModel),
}

/// The number of nodes of an expression.
pub open spec fn nodes(expr: ExprModel) -> nat
    decreases expr,
{
    match expr {
        ExprModel::Binary { left, right, .. } => 1 + nodes(*left) + nodes(*right),
        ExprModel::Unary { expr, .. } => 1 + nodes(*expr),
        ExprModel::Group { expr, .. } => 1 + nodes(*expr),
        _ => 1,
    }
}

/// The steps that a task stands for, at most.
pub open spec fn task_weight(task: TaskModel) -> nat {
    match task {
        TaskModel::Eval(expr) => 2 * nodes(expr),
        _ => 1,
    }
}

/// The steps that a list of tasks stands for, at most.
pub open spec fn weight(tasks: Seq<TaskModel>) -> nat
    decreases tasks.len(),
{
    if tasks.len() == 0 {
        0
    } else {
        weight(tasks.drop_last()) + task_weight(tasks.last())
    }
}

/// Whether the tasks, done from the last one down on `depth` values, find
/// the values that the operators take and leave one value in the end, and
/// hold no operator that the evaluator does not know.
pub open spec fn balanced(tasks: Seq<TaskModel>, depth: int) -> bool
    decreases tasks.len(),
{
    if tasks.len() == 0 {
        depth == 1
    } else {
        match tasks.last() {
            TaskModel::Eval(expr) => is_supported(expr) && balanced(tasks.drop_last(), depth + 1),
            TaskModel::Unary(_) => depth >= 1 && balanced(tasks.drop_last(), depth),
            TaskModel::Binary(op) => !(op is And) && !(op is Or) && depth >= 2 && balanced(
                tasks.drop_last(),
                depth - 1,
            ),
        }
    }
}

/// One more task weighs what it weighs.
pub proof fn lemma_weight_push(tasks: Seq<TaskModel>, task: TaskModel)
    ensures
        weight(tasks.push(task)) == weight(tasks) + task_weight(task),
{
    assert(tasks.push(task).drop_last() =~= tasks);
}

/// An expression has a node.
pub proof fn lemma_nodes_positive(expr: ExprModel)
    ensures
        nodes(expr) >= 1,
{
}

impl MachineModel {
    /// The state with one more value.
    pub open spec fn with(self, value: ValueModel) -> MachineModel {
        MachineModel { tasks: self.tasks, values: self.values.push(value) }
    }

    /// The state that has all of `expr` to do.
    pub open spec fn start(expr: ExprModel) -> MachineModel {
        MachineModel { tasks: seq![TaskModel::Eval(expr)], values: Seq::empty() }
    }
}

/// The evaluation from a state on, up to its result or to the first
/// question. The operands of an operator are evaluated from left to right,
/// and the first error is the result.
#[verifier::opaque]
pub open spec fn run(machine: MachineModel) -> StepModel
    decreases weight(machine.tasks),
{
    let values = machine.values;
    if machine.tasks.len() == 0 {
        StepModel::Done(Ok(values.last()))
    } else {
        let rest = machine.tasks.drop_last();
        match machine.tasks.last() {
            TaskModel::Eval(expr) => match expr {
                ExprModel::Empty => run(MachineModel { tasks: rest, values }.with(ValueModel::Empty)),
                ExprModel::Binary { op, left, right } => {
                    proof {
                        lemma_weight_push(rest, TaskModel::Binary(op));
                        lemma_weight_push(rest.push(TaskModel::Binary(op)), TaskModel::Eval(*right));
                        lemma_weight_push(
                            rest.push(TaskModel::Binary(op)).push(TaskModel::Eval(*right)),
                            TaskModel::Eval(*left),
                        );
                    }
                    run(
                        MachineModel {
                            tasks: rest.push(TaskModel::Binary(op)).push(
                                TaskModel::Eval(*right),
                            ).push(TaskModel::Eval(*left)),
                            values,
                        },
                    )
                },
                ExprModel::Unary { op, expr } => {
                    proof {
                        lemma_weight_push(rest, TaskModel::Unary(op));
                        lemma_weight_push(rest.push(TaskModel::Unary(op)), TaskModel::Eval(*expr));
                    }
                    run(
                        MachineModel {
                            tasks: rest.push(TaskModel::Unary(op)).push(TaskModel::Eval(*expr)),
                            values,
                        },
                    )
                },
                ExprModel::Group { expr, .. } => {
                    proof {
                        lemma_weight_push(rest, TaskModel::Eval(*expr));
                    }
                    run(MachineModel { tasks: rest.push(TaskModel::Eval(*expr)), values })
                },
                _ => match literal_value(expr) {
                    LiteralModel::Value(value) => run(
                        MachineModel { tasks: rest, values }.with(value),
                    ),
                    LiteralModel::Number(text) => StepModel::Number(
                        text,
                        MachineModel { tasks: rest, values },
                    ),
                    LiteralModel::Cell(cell) => StepModel::Cell(
                        cell,
                        MachineModel { tasks: rest, values },
                    ),
                },
            },
            TaskModel::Binary(op) => {
                let below = MachineModel { tasks: rest, values: values.take(values.len() - 2) };
                match apply_binary(op, values[values.len() - 2], values.last()) {
                    AppliedModel::Done(Ok(value)) => run(below.with(value)),
                    AppliedModel::Done(Err(error)) => StepModel::Done(Err(error)),
                    AppliedModel::Ask(request) => StepModel::Float(request, below),
                }
            },
            TaskModel::Unary(op) => match apply_unary(op, values.last()) {
                Ok(value) => run(MachineModel { tasks: rest, values: values.drop_last() }.with(value)),
                Err(error) => StepModel::Done(Err(error)),
            },
        }
    }
}

/// How the evaluation goes on when the host has looked a cell up: with the
/// value of the cell; a cell that does not exist makes the reference invalid,
/// and the error that a cell holds is the result.
pub open spec fn answer_cell(
    cell: CellRefModel,
    machine: MachineModel,
    answer: Result<ValueModel, ContextErrorModel>,
) -> StepModel {
    match answer {
        Ok(value) => run(machine.with(value)),
        Err(ContextErrorModel::CellRefDoesNotExist) => StepModel::Done(
            Err(ErrorModel::InvalidCellRef(cell)),
        ),
        Err(ContextErrorModel::CellRefValueError(error)) => StepModel::Done(Err(error)),
    }
}

/// How the evaluation goes on when the host has read a number: with that
/// number, or with an error where the text writes none.
pub open spec fn answer_number(machine: MachineModel, answer: Option<Float>) -> StepModel {
    match answer {
        Some(number) => run(machine.with(ValueModel::Float(number))),
        None => StepModel::Done(Err(ErrorModel::InvalidNumber)),
    }
}

/// How the evaluation goes on when the host has done the arithmetic: with
/// its result.
pub open spec fn answer_float(machine: MachineModel, answer: Float) -> StepModel {
    run(machine.with(ValueModel::Float(answer)))
}

/// What is still to do.
pub enum Task {
    Eval(Expr),
    Binary(OpBinary),
    Unary(OpUnary),
}

impl DeepView for Task {
    type V = TaskModel;

    open spec fn deep_view(&self) -> TaskModel {
        match self {
            Task::Eval(expr) => TaskModel::Eval(expr@),
            Task::Binary(op) => TaskModel::Binary(*op),
            Task::Unary(op) => TaskModel::Unary(*op),
        }
    }
}

/// An evaluation that waits for an answer.
pub struct Machine {
    tasks: Vec<Task>,
    values: Vec<Value>,
}

impl View for Machine {
    type V = MachineModel;

    closed spec fn view(&self) -> MachineModel {
        MachineModel { tasks: self.tasks.deep_view(), values: self.values.deep_view() }
    }
}

impl Machine {
    /// With the answer the tasks find their values.
    #[verifier::type_invariant]
    spec fn awaits_one(&self) -> bool {
        balanced(self.tasks.deep_view(), self.values.len() + 1)
    }

    /// Goes on with the value that was waited for.
    fn resume(self, value: Value) -> (step: Step)
        ensures
            step@ == run(self@.with(value@)),
    {
        proof {
            use_type_invariant(&self);
        }
        let Machine { tasks, mut values } = self;
        let ghost before = values.deep_view();
        values.push(value);
        assert(values.deep_view() =~= before.push(value@));
        run_tasks(tasks, values)
    }
}

/// The question for the value of a cell.
pub struct CellQuery {
    cell: CellRef,
    machine: Machine,
}

/// The question for the floating-point number that a text writes.
pub struct NumberQuery {
    text: String,
    machine: Machine,
}

/// The question for the result of floating-point arithmetic.
pub struct FloatQuery {
    request: FloatRequest,
    machine: Machine,
}

/// How a run of the evaluation ends: with the result, or with a question.
pub enum Step {
    Done(Result<Value, Error>),
    Cell(CellQuery),
    Number(NumberQuery),
    Float(FloatQuery),
}

impl View for Step {
    type V = StepModel;

    open spec fn view(&self) -> StepModel {
        match self {
            Step::Done(Ok(value)) => StepModel::Done(Ok(value@)),
            Step::Done(Err(error)) => StepModel::Done(Err(error@)),
            Step::Cell(query) => StepModel::Cell(query.spec_cell(), query.waiting()),
            Step::Number(query) => StepModel::Number(query.spec_text(), query.waiting()),
            Step::Float(query) => StepModel::Float(query.spec_request(), query.waiting()),
        }
    }
}

/// The answer of a context, as a mathematical value.
pub open spec fn cell_answer(answer: Result<Value, ContextError>) -> Result<
    ValueModel,
    ContextErrorModel,
> {
    match answer {
        Ok(value) => Ok(value@),
        Err(error) => Err(error@),
    }
}

impl CellQuery {
    /// The reference that is handed to the context.
    pub closed spec fn asked(&self) -> CellRef {
        self.cell
    }

    /// The cell that is asked for: the mathematical value of the reference
    /// that is handed to the context.
    pub open spec fn spec_cell(&self) -> CellRefModel {
        self.asked()@
    }

    /// The evaluation that waits.
    pub closed spec fn waiting(&self) -> MachineModel {
        self.machine@
    }

    /// The cell that is asked for.
    pub fn cell(&self) -> (cell: &CellRef)
        ensures
            *cell == self.asked(),
            cell@ == self.spec_cell(),
    {
        &self.cell
    }

    /// Looks the cell up in a context, and goes on with what the context
    /// has for it.
    pub fn ask<T: Context>(self, ctx: T, origin: &CellPath) -> (step: Step)
        ensures
            exists|answer: Result<Value, ContextError>|
                call_ensures(T::cell_value, (ctx, &self.asked(), origin), answer) && step@
                    == #[trigger] answer_cell(
                    self.spec_cell(),
                    self.waiting(),
                    cell_answer(answer),
                ),
    {
        let answer = ctx.cell_value(&self.cell, origin);
        let ghost given = answer;
        let step = self.answer(answer);
        assert(step@ == answer_cell(self.spec_cell(), self.waiting(), cell_answer(given)));
        step
    }

    /// Goes on with what the context has for the cell.
    pub fn answer(self, answer: Result<Value, ContextError>) -> (step: Step)
        ensures
            step@ == answer_cell(self.spec_cell(), self.waiting(), cell_answer(answer)),
    {
        match answer {
            Ok(value) => self.machine.resume(value),
            Err(ContextError::CellRefDoesNotExist) => Step::Done(
                Err(Error::InvalidCellRef(self.cell)),
            ),
            Err(ContextError::CellRefValueError(error)) => Step::Done(Err(error)),
        }
    }
}

impl NumberQuery {
    /// The text that is to be read.
    pub closed spec fn spec_text(&self) -> Seq<char> {
        self.text@
    }

    /// The evaluation that waits.
    pub closed spec fn waiting(&self) -> MachineModel {
        self.machine@
    }

    /// The text that is to be read.
    pub fn text(&self) -> (text: &str)
        ensures
            text@ == self.spec_text(),
    {
        self.text.as_str()
    }

    /// Goes on with the number that the text writes, if it writes one.
    pub fn answer(self, answer: Option<Float>) -> (step: Step)
        ensures
            step@ == answer_number(self.waiting(), answer),
    {
        match answer {
            Some(number) => self.machine.resume(Value::Float(number)),
            None => Step::Done(Err(Error::InvalidNumber)),
        }
    }
}

impl FloatQuery {
    /// The arithmetic that is asked for.
    pub closed spec fn spec_request(&self) -> FloatRequest {
        self.request
    }

    /// The evaluation that waits.
    pub closed spec fn waiting(&self) -> MachineModel {
        self.machine@
    }

    /// The arithmetic that is asked for.
    pub fn request(&self) -> (request: FloatRequest)
        ensures
            request == self.spec_request(),
    {
        self.request
    }

    /// Goes on with the result of the arithmetic.
    pub fn answer(self, answer: Float) -> (step: Step)
        ensures
            step@ == answer_float(self.waiting(), answer),
    {
        self.machine.resume(Value::Float(answer))
    }
}

/// What balance asks of the tasks under the last one.
proof fn lemma_balanced_push(tasks: Seq<TaskModel>, task: TaskModel, depth: int)
    ensures
        balanced(tasks.push(task), depth) == match task {
            TaskModel::Eval(expr) => is_supported(expr) && balanced(tasks, depth + 1),
            TaskModel::Unary(_) => depth >= 1 && balanced(tasks, depth),
            TaskModel::Binary(op) => !(op is And) && !(op is Or) && depth >= 2 && balanced(
                tasks,
                depth - 1,
            ),
        },
{
    assert(tasks.push(task).drop_last() =~= tasks);
}

/// Does the tasks, from the last one down, up to the result or to the
/// first question.
fn run_tasks(tasks: Vec<Task>, values: Vec<Value>) -> (step: Step)
    requires
        balanced(tasks.deep_view(), values.len() as int),
    ensures
        step@ == run(MachineModel { tasks: tasks.deep_view(), values: values.deep_view() }),
{
    let mut agenda = tasks;
    let mut found = values;
    loop
        invariant
            balanced(agenda.deep_view(), found.len() as int),
            run(MachineModel { tasks: agenda.deep_view(), values: found.deep_view() }) == run(
                MachineModel { tasks: tasks.deep_view(), values: values.deep_view() },
            ),
        decreases weight(agenda.deep_view()),
    {
        let ghost before = agenda.deep_view();
        let ghost stack = found.deep_view();
        let ghost now = MachineModel { tasks: before, values: stack };
        proof {
            reveal_with_fuel(run, 1);
        }
        let Some(task) = agenda.pop() else {
            let value = found.pop().unwrap();
            assert(value@ == stack.last());
            assert(run(now) == StepModel::Done(Ok(stack.last())));
            return Step::Done(Ok(value));
        };
        let ghost rest = before.drop_last();
        proof {
            assert(agenda.deep_view() =~= rest);
            assert(task.deep_view() == before.last());
            assert(before =~= rest.push(before.last()));
            lemma_balanced_push(rest, before.last(), stack.len() as int);
            lemma_weight_push(rest, before.last());
        }
        match task {
            Task::Eval(expr) => {
                proof {
                    lemma_nodes_positive(expr@);
                }
                match expr {
                    Expr::Empty => {
                        found.push(Value::Empty);
                        proof {
                            assert(found.deep_view() =~= stack.push(ValueModel::Empty));
                            assert(run(now) == run(
                                MachineModel { tasks: rest, values: stack }.with(
                                    ValueModel::Empty,
                                ),
                            ));
                        }
                    },
                    Expr::Literal(literal) => match eval_literal(literal) {
                        Literal::Value(value) => {
                            found.push(value);
                            proof {
                                assert(found.deep_view() =~= stack.push(value@));
                                assert(run(now) == run(
                                    MachineModel { tasks: rest, values: stack }.with(value@),
                                ));
                            }
                        },
                        Literal::Number(text) => {
                            assert(run(now) == StepModel::Number(
                                text@,
                                MachineModel { tasks: rest, values: stack },
                            ));
                            return Step::Number(
                                NumberQuery { text, machine: Machine { tasks: agenda, values: found } },
                            );
                        },
                        Literal::Cell(cell) => {
                            assert(run(now) == StepModel::Cell(
                                cell@,
                                MachineModel { tasks: rest, values: stack },
                            ));
                            return Step::Cell(
                                CellQuery { cell, machine: Machine { tasks: agenda, values: found } },
                            );
                        },
                    },
                    Expr::Binary(binary) => {
                        let ghost left = binary.left@;
                        let ghost right = binary.right@;
                        let op = binary.op;
                        agenda.push(Task::Binary(op));
                        agenda.push(Task::Eval(*binary.right));
                        agenda.push(Task::Eval(*binary.left));
                        proof {
                            let first = rest.push(TaskModel::Binary(op));
                            let second = first.push(TaskModel::Eval(right));
                            let third = second.push(TaskModel::Eval(left));
                            assert(agenda.deep_view() =~= third);
                            lemma_weight_push(rest, TaskModel::Binary(op));
                            lemma_weight_push(first, TaskModel::Eval(right));
                            lemma_weight_push(second, TaskModel::Eval(left));
                            lemma_balanced_push(rest, TaskModel::Binary(op), (stack.len() + 2) as int);
                            lemma_balanced_push(first, TaskModel::Eval(right), (stack.len() + 1) as int);
                            lemma_balanced_push(second, TaskModel::Eval(left), stack.len() as int);
                            assert(run(now) == run(MachineModel { tasks: third, values: stack }));
                        }
                    },
                    Expr::Unary(unary) => {
                        let ghost inner = unary.expr@;
                        let op = unary.op;
                        agenda.push(Task::Unary(op));
                        agenda.push(Task::Eval(*unary.expr));
                        proof {
                            let first = rest.push(TaskModel::Unary(op));
                            let second = first.push(TaskModel::Eval(inner));
                            assert(agenda.deep_view() =~= second);
                            lemma_weight_push(rest, TaskModel::Unary(op));
                            lemma_weight_push(first, TaskModel::Eval(inner));
                            lemma_balanced_push(rest, TaskModel::Unary(op), (stack.len() + 1) as int);
                            lemma_balanced_push(first, TaskModel::Eval(inner), stack.len() as int);
                            assert(run(now) == run(MachineModel { tasks: second, values: stack }));
                        }
                    },
                    Expr::Group(group) => {
                        let ghost inner = group.expr@;
                        agenda.push(Task::Eval(*group.expr));
                        proof {
                            let first = rest.push(TaskModel::Eval(inner));
                            assert(agenda.deep_view() =~= first);
                            lemma_weight_push(rest, TaskModel::Eval(inner));
                            lemma_balanced_push(rest, TaskModel::Eval(inner), stack.len() as int);
                            assert(run(now) == run(MachineModel { tasks: first, values: stack }));
                        }
                    },
                }
            },
            Task::Binary(op) => {
                let right = found.pop().unwrap();
                let left = found.pop().unwrap();
                let ghost below = stack.take(stack.len() - 2);
                proof {
                    assert(found.deep_view() =~= below);
                    assert(left@ == stack[stack.len() - 2]);
                    assert(right@ == stack.last());
                }
                match eval_binary(op, &left, &right) {
                    Applied::Done(Ok(value)) => {
                        found.push(value);
                        proof {
                            assert(found.deep_view() =~= below.push(value@));
                            assert(run(now) == run(
                                MachineModel { tasks: rest, values: below }.with(value@),
                            ));
                        }
                    },
                    Applied::Done(Err(error)) => {
                        assert(run(now) == StepModel::Done(Err(error@)));
                        return Step::Done(Err(error));
                    },
                    Applied::Ask(request) => {
                        assert(run(now) == StepModel::Float(
                            request,
                            MachineModel { tasks: rest, values: below },
                        ));
                        return Step::Float(
                            FloatQuery { request, machine: Machine { tasks: agenda, values: found } },
                        );
                    },
                }
            },
            Task::Unary(op) => {
                let value = found.pop().unwrap();
                proof {
                    assert(found.deep_view() =~= stack.drop_last());
                    assert(value@ == stack.last());
                }
                match eval_unary(op, &value) {
                    Ok(value) => {
                        found.push(value);
                        proof {
                            assert(found.deep_view() =~= stack.drop_last().push(value@));
                            assert(run(now) == run(
                                MachineModel { tasks: rest, values: stack.drop_last() }.with(
                                    value@,
                                ),
                            ));
                        }
                    },
                    Err(error) => {
                        assert(run(now) == StepModel::Done(Err(error@)));
                        return Step::Done(Err(error));
                    },
                }
            },
        }
    }
}

/// Evaluates an expression up to its value, its error, or the first
/// question to the host.
pub fn eval(expr: Expr) -> (step: Step)
    requires
        is_supported(expr@),
    ensures
        step@ == run(MachineModel::start(expr@)),
{
    let mut tasks: Vec<Task> = Vec::new();
    let values: Vec<Value> = Vec::new();
    tasks.push(Task::Eval(expr));
    proof {
        assert(tasks.deep_view() =~= seq![TaskModel::Eval(expr@)]);
        assert(values.deep_view() =~= Seq::<ValueModel>::empty());
        assert(tasks.deep_view().drop_last() =~= Seq::<TaskModel>::empty());
        assert(tasks.deep_view().last() == TaskModel::Eval(expr@));
        assert(balanced(tasks.deep_view().drop_last(), 1));
        assert(balanced(tasks.deep_view(), 0));
    }
    run_tasks(tasks, values)
}

} // verus!
