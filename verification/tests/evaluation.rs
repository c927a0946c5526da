use hermes_core::cell_index::CellIndex;
use hermes_core::data::{CellPath, CellRef, SheetIndex, SheetRef};
use hermes_core::expr::ast::{Expr, ExprBinary, ExprLiteral, LitNumber, LitString, OpBinary};
use hermes_core::expr::eval::{
    eval_binary, eval_literal, eval_unary, Applied, FloatOp, FloatRequest, Literal,
};
use hermes_core::expr::lex::tokenize;
use hermes_core::expr::machine::Step;
use hermes_core::expr::parse::parse;
use hermes_core::expr::value::{value_eq, value_ord, DateTime, Duration};
use hermes_core::expr::{machine, Context, ContextError, Error, Float, Value};
use std::cmp::Ordering;

fn float(value: f64) -> Value {
    Value::Float(Float::from_bits(value.to_bits()))
}

fn number(float: Float) -> f64 {
    f64::from_bits(float.to_bits())
}

fn perform(request: FloatRequest) -> Float {
    let result = match request {
        FloatRequest::Binary { op, left, right } => {
            let (left, right) = (number(left), number(right));
            match op {
                FloatOp::Add => left + right,
                FloatOp::Subtract => left - right,
                FloatOp::Multiply => left * right,
                FloatOp::Divide => left / right,
                FloatOp::Remainder => left % right,
                FloatOp::Power => left.powf(right),
            }
        }
        FloatRequest::Powi { base, exponent } => number(base).powi(exponent),
    };
    Float::from_bits(result.to_bits())
}

fn finish<T>(mut step: Step, ctx: T, origin: &CellPath) -> Result<Value, Error>
where
    T: Context,
{
    loop {
        step = match step {
            Step::Done(result) => return result,
            Step::Cell(query) => query.ask(ctx, origin),
            Step::Number(query) => {
                let answer = query
                    .text()
                    .parse::<f64>()
                    .ok()
                    .map(|value| Float::from_bits(value.to_bits()));
                query.answer(answer)
            }
            Step::Float(query) => {
                let answer = perform(query.request());
                query.answer(answer)
            }
        }
    }
}

#[derive(Clone, Copy)]
struct CtxEmpty;
impl Context for CtxEmpty {
    fn cell_value(self, _cell_ref: &CellRef, _origin: &CellPath) -> Result<Value, ContextError> {
        Err(ContextError::CellRefDoesNotExist)
    }
}

fn eval<T>(expr: Expr, ctx: T, origin: &CellPath) -> Result<Value, Error>
where
    T: Context,
{
    finish(machine::eval(expr), ctx, origin)
}

fn eval_text<T>(input: &str, ctx: T) -> Result<Value, Error>
where
    T: Context,
{
    finish(hermes_core::expr::eval(input), ctx, &ORIGIN)
}

const ORIGIN: CellPath = CellPath { sheet: 0, row: 0, col: 0 };

fn value_of(src: &str) -> Value {
    let lex = tokenize(src);
    let ast = parse(&lex.tokens).expect("input to be valid");
    let Ok(res) = eval(ast, CtxEmpty, &ORIGIN) else {
        panic!("invalid input");
    };
    res
}

fn error_of(src: &str) -> Error {
    let lex = tokenize(src);
    let ast = parse(&lex.tokens).expect("input to be valid");
    let Err(error) = eval(ast, CtxEmpty, &ORIGIN) else {
        panic!("valid input");
    };
    error
}

#[test]
fn eval_literal_test() {
    let ctx = CtxEmpty;
    let origin = CellPath {
        sheet: 0,
        row: 0,
        col: 0,
    };

    // string
    let src = "'hi'";
    let lex = tokenize(src);
    let ast = parse(&lex.tokens).expect("input to be valid");
    let Ok(res) = eval(ast, ctx, &origin) else {
        panic!("invalid input");
    };
    assert_eq!(res, Value::String("hi".into()));

    // int
    let src = "5";
    let lex = tokenize(src);
    let ast = parse(&lex.tokens).expect("input to be valid");
    let Ok(res) = eval(ast, ctx, &origin) else {
        panic!("invalid input");
    };
    assert_eq!(res, Value::Int(5));

    // float
    let src = "5.0";
    let lex = tokenize(src);
    let ast = parse(&lex.tokens).expect("input to be valid");
    let Ok(res) = eval(ast, ctx, &origin) else {
        panic!("invalid input");
    };
    assert_eq!(res, float(5.0));

    // bool
    let src = "true";
    let lex = tokenize(src);
    let ast = parse(&lex.tokens).expect("input to be valid");
    let Ok(res) = eval(ast, ctx, &origin) else {
        panic!("invalid input");
    };
    assert_eq!(res, Value::Bool(true));

    let src = "false";
    let lex = tokenize(src);
    let ast = parse(&lex.tokens).expect("input to be valid");
    let Ok(res) = eval(ast, ctx, &origin) else {
        panic!("invalid input");
    };
    assert_eq!(res, Value::Bool(false));
}

#[derive(Clone, Copy)]
struct Ctx;
impl Context for Ctx {
    fn cell_value(self, cell_ref: &CellRef, _origin: &CellPath) -> Result<Value, ContextError> {
        if cell_ref.sheet == SheetRef::Absolute(SheetIndex::Label("string".to_string())) {
            let idx = CellIndex::new(cell_ref.row, cell_ref.col);
            return Ok(Value::String(idx.to_string()));
        }
        if cell_ref.sheet == SheetRef::Absolute(SheetIndex::Label("int".to_string())) {
            return Ok(Value::Int(cell_ref.row.into()));
        }
        if cell_ref.sheet == SheetRef::Absolute(SheetIndex::Label("float".to_string())) {
            return Ok(float(cell_ref.row.into()));
        }
        if cell_ref.sheet == SheetRef::Absolute(SheetIndex::Label("bool".to_string())) {
            let value = cell_ref.row % 2 == 0;
            return Ok(Value::Bool(value));
        }
        if cell_ref.sheet == SheetRef::Absolute(SheetIndex::Label("error".to_string())) {
            return Err(ContextError::CellRefValueError(Error::Div0));
        }

        Err(ContextError::CellRefDoesNotExist)
    }
}

#[test]
fn eval_cell_ref() {
    let ctx = Ctx;
    let origin = CellPath {
        sheet: 0,
        row: 0,
        col: 0,
    };

    let src = "string!A1";
    let lex = tokenize(src);
    let ast = parse(&lex.tokens).expect("input to be valid");
    let Ok(res) = eval(ast, ctx, &origin) else {
        panic!("invalid input");
    };
    assert_eq!(res, Value::String("A1".to_string()));

    let src = "int!A1";
    let lex = tokenize(src);
    let ast = parse(&lex.tokens).expect("input to be valid");
    let Ok(res) = eval(ast, ctx, &origin) else {
        panic!("invalid input");
    };
    assert_eq!(res, Value::Int(0));

    let src = "float!A1";
    let lex = tokenize(src);
    let ast = parse(&lex.tokens).expect("input to be valid");
    let Ok(res) = eval(ast, ctx, &origin) else {
        panic!("invalid input");
    };
    assert_eq!(res, float(0.0));
}

#[test]
fn eval_comparison() {
    for (src, expected) in [
        // == (int, int)
        ("2 == 2", true),
        ("1 == 2", false),
        // == (float, int)
        ("2.0 == 2", true),
        ("1.0 == 2", false),
        // == (float, float)
        ("2.0 == 2.0", true),
        ("1.0 == 2.0", false),
        // != (int, int)
        ("1 != 2", true),
        ("2 != 2", false),
        // != (float, int)
        ("2.1 != 2", true),
        ("2.0 != 2", false),
        // != (float, float)
        ("2.5 != 2.0", true),
        ("2.0 != 2.0", false),
        // > (int, int)
        ("3 > 2", true),
        ("2 > 2", false),
        // > (float, int)
        ("3.0 > 2", true),
        ("1 > 2.0", false),
        // > (float, float)
        ("3.0 > 2.0", true),
        ("1.0 > 2.0", false),
        // >= (int, int)
        ("2 >= 2", true),
        ("1 >= 2", false),
        // >= (float, int)
        ("3.0 >= 2", true),
        ("1 >= 1.0", true),
        ("1 >= 2.0", false),
        // >= (float, float)
        ("3.0 >= 2.0", true),
        ("2.0 >= 2.0", true),
        ("1.0 >= 2.0", false),
        // < (int, int)
        ("1 < 2", true),
        ("2 < 2", false),
        // < (float, int)
        ("2 < 3.0", true),
        ("2.0 < 1", false),
        // < (float, float)
        ("2.0 < 3.0", true),
        ("2.0 < -1.0", false),
        // <= (int, int)
        ("2 <= 2", true),
        ("1 <= -2", false),
        // <= (float, int)
        ("-3.0 <= 2", true),
        ("1 <= 1.0", true),
        ("2.0 <= -1.0", false),
        // <= (float, float)
        ("-3.0 <= 2.0", true),
        ("-2.0 <= -2.0", true),
        ("2.0 <= 1.0", false),
    ] {
        let lex = tokenize(src);
        let ast = parse(&lex.tokens).expect("input to be valid");
        let Ok(res) = eval(ast, CtxEmpty, &ORIGIN) else {
            panic!("invalid input");
        };
        assert_eq!(res, Value::Bool(expected), "{src}");
    }
}

fn nearly(value: Value, expected: f64) -> bool {
    match value {
        Value::Float(found) => (number(found) - expected).abs() < 1e-15,
        _ => false,
    }
}

#[test]
fn eval_arithmatic() {
    // + (int, int)
    assert_eq!(value_of("4 + 3"), Value::Int(7));

    // + (int, float)
    assert_eq!(value_of("4 + 3.0"), float(7.0));
    assert_eq!(value_of("4 + 3.5"), float(7.5));

    // + (float, float)
    assert_eq!(value_of("4.1 + 3.2"), float(7.3));
    assert_eq!(value_of("4.5 + 3.5"), float(8.0));

    // - (int, int)
    assert_eq!(value_of("4 - 3"), Value::Int(1));
    assert_eq!(value_of("4 - 5"), Value::Int(-1));

    // - (int, float)
    assert_eq!(value_of("4 - 3.0"), float(1.0));
    assert_eq!(value_of("4 - 4.5"), float(-0.5));

    // - (float, float)
    assert!(nearly(value_of("4.3 - 3.2"), 1.1));
    assert_eq!(value_of("4.5 - 5.5"), float(-1.0));

    // * (int, int)
    assert_eq!(value_of("4 * 3"), Value::Int(12));
    assert_eq!(value_of("-4 * 3"), Value::Int(-12));

    // * (int, float)
    assert_eq!(value_of("4 * 3.5"), float(14.0));
    assert_eq!(value_of("-4.5 * 3"), float(-13.5));

    // * (float, float)
    assert_eq!(value_of("4.0 * 3.0"), float(12.0));
    assert_eq!(value_of("-4.5 * 3.0"), float(-13.5));

    // / (int, int)
    assert_eq!(value_of("12 / 2"), Value::Int(6));
    assert_eq!(value_of("-12 / 3"), Value::Int(-4));
    assert_eq!(value_of("-12 / 8"), float(-1.5));

    // / (float, int)
    assert_eq!(value_of("12 / 2.0"), float(6.0));
    assert_eq!(value_of("-12.0 / 3"), float(-4.0));
    assert_eq!(value_of("-12 / 2.5"), float(-4.8));

    // / (float, float)
    assert_eq!(value_of("12.0 / 2.0"), float(6.0));
    assert_eq!(value_of("-12.0 / 2.5"), float(-4.8));

    // % (int, int)
    assert_eq!(value_of("12 % 2"), Value::Int(0));
    assert_eq!(value_of("12 % 5"), Value::Int(2));
    assert_eq!(value_of("12 % -5"), Value::Int(2));

    // % (float, int)
    assert_eq!(value_of("12 % 3.5"), float(1.5));
    assert_eq!(value_of("12.5 % 5"), float(2.5));
    assert_eq!(value_of("-12.0 % 5"), float(-2.0));

    // % (float, float)
    assert_eq!(value_of("12.5 % 2.0"), float(0.5));
    assert_eq!(value_of("-12.0 % 3.5"), float(-1.5));

    // ** (int, int)
    assert_eq!(value_of("2 ** 2"), Value::Int(4));
    assert_eq!(value_of("2 ** 5"), Value::Int(32));
    assert_eq!(value_of("2 ** -1"), float(0.5));

    // ** (float, int)
    assert_eq!(value_of("2 ** 1.5"), float(2.8284271247461900976033774484194));
    assert_eq!(value_of("2.5 ** 2"), float(6.25));
    assert_eq!(value_of("-2.0 ** 2"), float(4.0));

    // ** (float, float)
    assert_eq!(value_of("2.0 ** 2.0"), float(4.0));
    assert_eq!(value_of("-2.0 ** 2.0"), float(4.0));
}

#[test]
fn eval_arithmetic_at_the_edges() {
    assert_eq!(value_of("-12 % 5"), Value::Int(-2));
    assert_eq!(value_of("-12 % -5"), Value::Int(-2));
    assert_eq!(value_of("2 ** 0"), Value::Int(1));
    assert_eq!(value_of("-2 ** 3"), Value::Int(-8));
    assert_eq!(value_of("2 ** 62"), Value::Int(1 << 62));
    assert_eq!(value_of("7 / 2"), float(3.5));
    assert_eq!(value_of("7 / -2"), float(-3.5));
    assert_eq!(value_of("0 / 5"), Value::Int(0));
    assert_eq!(value_of("1 / 0.0"), float(f64::INFINITY));
    assert_eq!(value_of("4.3 - 3.2"), float(4.3 - 3.2));
}

#[test]
fn eval_chains_of_operators() {
    assert_eq!(value_of("8 - 3 - 2"), Value::Int(3));
    assert_eq!(value_of("2 * 3 + 1"), Value::Int(7));
    assert_eq!(value_of("1 + 2 * 3"), Value::Int(7));
    assert_eq!(value_of("10 - 2 * 3"), Value::Int(4));
    assert_eq!(value_of("2 ** 3 ** 2"), Value::Int(64));
    assert_eq!(value_of("2 * 3 ** 2"), Value::Int(18));
    assert_eq!(value_of("2 ** 3 == 8"), Value::Bool(true));
    assert_eq!(value_of("1 + 2 == 3"), Value::Bool(true));
    assert_eq!(value_of("1 + 2 < 2 * 2"), Value::Bool(true));
    assert_eq!(value_of("100 / 10 / 5"), Value::Int(2));
    assert_eq!(value_of("100 / 10 % 4"), Value::Int(2));
    assert_eq!(value_of("7 - 4 / 8"), float(6.5));
    assert_eq!(value_of("-2 ** 2 + 1"), Value::Int(5));
    assert_eq!(value_of("2 * (3 + 1)"), Value::Int(8));
}

#[derive(Clone, Copy)]
struct OneCell;
impl Context for OneCell {
    fn cell_value(self, cell_ref: &CellRef, origin: &CellPath) -> Result<Value, ContextError> {
        assert_eq!(*origin, CellPath { sheet: 3, row: 4, col: 5 });
        if *cell_ref == CellRef::absolute_with_sheet(0, 0, SheetIndex::Label("sheet".to_string()))
        {
            Ok(Value::String("A1".to_string()))
        } else {
            Err(ContextError::CellRefDoesNotExist)
        }
    }
}

#[test]
fn eval_text_end_to_end() {
    assert_eq!(eval_text("4 + 3.5", CtxEmpty).ok(), Some(float(7.5)));
    assert_eq!(
        eval_text("2 ** 1.5", CtxEmpty).ok(),
        Some(float(2.8284271247461900976033774484194))
    );
    let origin = CellPath { sheet: 3, row: 4, col: 5 };
    assert_eq!(
        finish(hermes_core::expr::eval("sheet!$a$1"), OneCell, &origin).ok(),
        Some(Value::String("A1".to_string()))
    );
    assert_eq!(eval_text("", CtxEmpty).ok(), Some(Value::Empty));
    assert_eq!(eval_text("()", CtxEmpty).ok(), Some(Value::Empty));
    assert!(matches!(
        eval_text("1 + 'a", CtxEmpty),
        Err(Error::Tokenize(
            hermes_core::expr::lex::error::Kind::UnterminatedString
        ))
    ));
    assert!(matches!(
        eval_text("1 +", CtxEmpty),
        Err(Error::Parse(
            hermes_core::expr::parse::error::Kind::UnexpectedEndOfInut
        ))
    ));
    assert_eq!(
        eval_text("(1 + 2) * (3 - int!b4) / 2.0", Ctx).ok(),
        Some(float(0.0))
    );
}

#[test]
fn eval_errors() {
    assert!(matches!(error_of("9223372036854775807 + 1"), Error::Overflow));
    assert!(matches!(error_of("-9223372036854775808 - 1"), Error::Overflow));
    assert!(matches!(error_of("4611686018427387904 * 2"), Error::Overflow));
    assert!(matches!(error_of("2 ** 63"), Error::Overflow));
    assert!(matches!(error_of("2 ** 4294967296"), Error::Overflow));
    assert!(matches!(error_of("2 ** -2147483649"), Error::Overflow));
    assert!(matches!(error_of("2.0 ** 2147483648"), Error::Overflow));
    assert!(matches!(error_of("1 / 0"), Error::Overflow));
    assert!(matches!(error_of("1 % 0"), Error::Overflow));
    assert!(matches!(error_of("-9223372036854775808 / -1"), Error::Overflow));
    assert!(matches!(error_of("-9223372036854775808 % -1"), Error::Overflow));
    assert!(matches!(error_of("-(-9223372036854775808)"), Error::Overflow));
    for (src, reason) in [
        ("1 + 'a'", "can only add numbers"),
        ("'a' - 1", "can only subtract numbers"),
        ("true * 1", "can only multiply numbers"),
        ("1 / true", "can only divide numbers"),
        ("() % 1", "can only take remainder numbers"),
        ("'a' ** 2", "can only exponentiate numbers"),
        ("2 ** 'a'", "can only exponentiate numbers"),
        ("'a' ** 2.0", "can only exponentiate numbers"),
        ("1 == 'a'", "can not compare types"),
        ("true != 1", "can not compare types"),
        ("true < false", "can not compare types"),
        ("'a' >= 1", "can not compare types"),
        ("() > ()", "can not compare types"),
        ("!1", "can not perform logical operations on non-boolean values"),
        ("-'a'", "can not subtract non-numeric types"),
        ("-true", "can not subtract non-numeric types"),
    ] {
        let Error::InvalidOperation(found) = error_of(src) else {
            panic!("another error for {src}");
        };
        assert_eq!(found, reason, "{src}");
    }
    assert!(matches!(
        eval_text("a1 + 1", CtxEmpty),
        Err(Error::InvalidCellRef(cell)) if cell == CellRef::dynamic(0, 0)
    ));
    assert!(matches!(
        eval_text("1 + error!a1 + missing!a1", Ctx),
        Err(Error::Div0)
    ));
    let bad = Expr::Literal(ExprLiteral::Number(LitNumber { value: "1.2.3".to_string() }));
    assert!(matches!(eval(bad, CtxEmpty, &ORIGIN), Err(Error::InvalidNumber)));
}

#[derive(Clone, Copy)]
struct Recording<'a>(&'a std::cell::RefCell<Vec<u16>>);
impl<'a> Context for Recording<'a> {
    fn cell_value(self, cell_ref: &CellRef, _origin: &CellPath) -> Result<Value, ContextError> {
        self.0.borrow_mut().push(cell_ref.row);
        if cell_ref.sheet == SheetRef::Relative {
            Ok(Value::Int(cell_ref.row.into()))
        } else {
            Err(ContextError::CellRefDoesNotExist)
        }
    }
}

#[test]
fn eval_stops_at_the_first_error() {
    let asked = std::cell::RefCell::new(Vec::new());
    assert!(matches!(
        eval_text("('a' + 1) * a1", Recording(&asked)),
        Err(Error::InvalidOperation(_))
    ));
    assert!(asked.borrow().is_empty());

    assert!(matches!(
        eval_text("a3 - a1", Recording(&asked)),
        Ok(Value::Int(2))
    ));
    assert_eq!(*asked.borrow(), vec![2, 0]);

    asked.borrow_mut().clear();
    assert!(matches!(
        eval_text("a1 + missing!a2 + a3", Recording(&asked)),
        Err(Error::InvalidCellRef(cell)) if cell.row == 1
    ));
    assert_eq!(*asked.borrow(), vec![0, 1]);
}

#[test]
fn eval_unary_and_group() {
    assert_eq!(value_of("!true"), Value::Bool(false));
    assert_eq!(value_of("!false"), Value::Bool(true));
    assert_eq!(value_of("!(1 == 2)"), Value::Bool(true));
    assert_eq!(value_of("-(3)"), Value::Int(-3));
    assert_eq!(value_of("-(3.5)"), float(-3.5));
    assert_eq!(value_of("-(0.0)"), float(-0.0));
    assert_eq!(value_of("(((7)))"), Value::Int(7));
    assert_eq!(value_of("(1 + 2) * 3"), Value::Int(9));
    assert_eq!(value_of("1 + 2 * 3"), Value::Int(7));
    assert_eq!(value_of("2 * 3 + 1"), Value::Int(7));
    assert_eq!(value_of("'a' == 'a'"), Value::Bool(true));
    assert_eq!(value_of("'a' < 'b'"), Value::Bool(true));
    assert_eq!(value_of("'b' < 'a'"), Value::Bool(false));
    assert_eq!(value_of("'a' < 'ab'"), Value::Bool(true));
    assert_eq!(value_of("'' <= ''"), Value::Bool(true));
    assert_eq!(value_of("'é' > 'z'"), Value::Bool(true));
    assert_eq!(value_of("true == true"), Value::Bool(true));
    assert_eq!(value_of("() == ()"), Value::Bool(true));
}

#[test]
fn eval_numbers_as_written() {
    assert_eq!(value_of("007"), Value::Int(7));
    assert_eq!(value_of("-0"), Value::Int(0));
    assert_eq!(value_of("9223372036854775807"), Value::Int(i64::MAX));
    assert_eq!(value_of("-9223372036854775808"), Value::Int(i64::MIN));
    assert_eq!(value_of("9223372036854775808"), float(9223372036854775808.0));
    assert_eq!(value_of("-9223372036854775809"), float(-9223372036854775809.0));
    assert_eq!(value_of("0.5"), float(0.5));
    assert_eq!(value_of("-0.0"), float(-0.0));
    let plus = Expr::Literal(ExprLiteral::Number(LitNumber { value: "+5".to_string() }));
    assert!(matches!(eval(plus, CtxEmpty, &ORIGIN), Ok(Value::Int(5))));
    for text in ["", "+", "-", "1_0", " 1", "0x10"] {
        let literal = ExprLiteral::Number(LitNumber { value: text.to_string() });
        assert!(matches!(eval_literal(literal), Literal::Number(found) if found == text));
    }
    let text = ExprLiteral::String(LitString { value: "5".to_string() });
    assert!(matches!(eval_literal(text), Literal::Value(Value::String(found)) if found == "5"));
}

#[test]
fn compare_floats() {
    let nan = float(f64::NAN);
    let negative_nan = float(-f64::NAN);
    assert_eq!(value_ord(&nan, &float(1.0)), None);
    assert_eq!(value_ord(&float(1.0), &nan), None);
    assert_eq!(value_ord(&nan, &nan), None);
    assert_eq!(value_ord(&negative_nan, &Value::Int(1)), None);
    assert_eq!(value_ord(&Value::Int(1), &nan), None);
    assert_eq!(value_eq(&nan, &nan), Some(false));
    assert_eq!(value_eq(&nan, &Value::Int(0)), Some(false));
    assert_eq!(value_ord(&float(0.0), &float(-0.0)), Some(Ordering::Equal));
    assert_eq!(value_ord(&float(-0.0), &float(0.0)), Some(Ordering::Equal));
    assert_eq!(value_ord(&Value::Int(0), &float(-0.0)), Some(Ordering::Equal));
    assert_eq!(value_eq(&float(0.0), &float(-0.0)), Some(true));
    assert_eq!(value_eq(&Value::Int(0), &float(-0.0)), Some(true));
    let samples = [
        f64::NEG_INFINITY,
        f64::MIN,
        -1e300,
        -2.5,
        -1.0,
        -f64::MIN_POSITIVE,
        -5e-324,
        -0.0,
        0.0,
        5e-324,
        f64::MIN_POSITIVE,
        0.1,
        1.0,
        1.0000000000000002,
        2.5,
        9007199254740992.0,
        9007199254740994.0,
        1e300,
        f64::MAX,
        f64::INFINITY,
    ];
    for a in samples {
        for b in samples {
            assert_eq!(value_ord(&float(a), &float(b)), a.partial_cmp(&b), "{a} {b}");
            assert_eq!(value_eq(&float(a), &float(b)), Some(a == b), "{a} {b}");
        }
    }
    for (src, reason) in [
        ("1 < (0.0 / 0.0)", "can not compare types"),
        ("(0.0 / 0.0) >= 1.5", "can not compare types"),
    ] {
        let Error::InvalidOperation(found) = error_of(src) else {
            panic!("another error for {src}");
        };
        assert_eq!(found, reason);
    }
    assert_eq!(value_of("(0.0 / 0.0) == (0.0 / 0.0)"), Value::Bool(false));
    assert_eq!(value_of("(0.0 / 0.0) != 1"), Value::Bool(true));
    assert_eq!(value_of("0.0 == -0.0"), Value::Bool(true));
    assert_eq!(value_of("0.0 <= -0.0"), Value::Bool(true));
}

#[test]
fn convert_integers_to_floats() {
    let mut samples: Vec<i64> = vec![0, 1, -1, 2, 3, -3, 10, 255, 1000, i64::MAX, i64::MIN];
    for bit in 0..63 {
        let power = 1i64 << bit;
        for delta in [-3i64, -2, -1, 0, 1, 2, 3] {
            samples.push(power.wrapping_add(delta));
            samples.push(power.wrapping_add(delta).wrapping_neg());
            samples.push((power | (power >> 1)).wrapping_add(delta));
            samples.push((power | (power >> 54)).wrapping_add(delta));
            samples.push((power | (power >> 53)).wrapping_add(delta));
            samples.push((power | (power >> 53) | (power >> 52)).wrapping_add(delta));
        }
    }
    let mut state: u64 = 0x9e3779b97f4a7c15;
    for _ in 0..20000 {
        state ^= state << 13;
        state ^= state >> 7;
        state ^= state << 17;
        samples.push(state as i64);
        samples.push((state >> (state % 64)) as i64);
    }
    for sample in samples {
        assert_eq!(
            Float::from_int(sample).to_bits(),
            (sample as f64).to_bits(),
            "{sample}"
        );
        assert_eq!(Value::Int(sample).as_number(), Some(Float::from_bits((sample as f64).to_bits())));
    }
    assert_eq!(Float::from_int(1).to_bits(), 0x3ff0_0000_0000_0000);
    assert_eq!(Float::from_int(-2).to_bits(), 0xc000_0000_0000_0000);
    assert_eq!(Float::from_int(9007199254740993).to_bits(), 0x4340_0000_0000_0000);
    assert_eq!(Float::from_int(9007199254740995).to_bits(), 0x4340_0000_0000_0002);
    assert_eq!(Float::from_int(i64::MAX).to_bits(), 0x43e0_0000_0000_0000);
}

#[test]
fn float_parts() {
    let one = Float::from_bits(1.0f64.to_bits());
    assert!(!one.is_nan());
    assert!(!one.is_zero());
    assert_eq!(one.negated().to_bits(), (-1.0f64).to_bits());
    assert!(Float::from_bits(f64::NAN.to_bits()).is_nan());
    assert!(Float::from_bits((-f64::NAN).to_bits()).negated().is_nan());
    assert!(!Float::from_bits(f64::INFINITY.to_bits()).is_nan());
    assert!(Float::from_bits(0).is_zero());
    assert!(Float::from_bits((-0.0f64).to_bits()).is_zero());
    assert!(Float::from_bits((-0.0f64).to_bits()).key() < Float::from_bits(0).key());
    assert_eq!(Float::from_bits(0).key(), 0);
    assert_eq!(Float::from_bits(u64::MAX).key(), i64::MIN);
    assert_eq!(Float::from_bits(u64::MAX >> 1).key(), i64::MAX);
}

#[test]
fn compare_other_values() {
    let early = Value::DateTime(DateTime { secs: -5, nanos: 999_999_999 });
    let late = Value::DateTime(DateTime { secs: -4, nanos: 0 });
    let later = Value::DateTime(DateTime { secs: -4, nanos: 1 });
    assert_eq!(value_ord(&early, &late), Some(Ordering::Less));
    assert_eq!(value_ord(&later, &late), Some(Ordering::Greater));
    assert_eq!(value_ord(&late, &late), Some(Ordering::Equal));
    assert_eq!(value_eq(&late, &late), Some(true));
    assert_eq!(value_eq(&late, &later), Some(false));
    let short = Value::Duration(Duration { secs: 1, nanos: 5 });
    let long = Value::Duration(Duration { secs: 2, nanos: 0 });
    assert_eq!(value_ord(&short, &long), Some(Ordering::Less));
    assert_eq!(value_ord(&long, &short), Some(Ordering::Greater));
    assert_eq!(value_ord(&long, &long), Some(Ordering::Equal));
    assert_eq!(value_eq(&short, &short), Some(true));
    assert_eq!(value_eq(&short, &long), Some(false));
    assert_eq!(value_ord(&short, &late), None);
    assert_eq!(value_eq(&short, &late), None);
    assert_eq!(value_ord(&Value::Empty, &Value::Empty), None);
    assert_eq!(value_ord(&Value::Bool(true), &Value::Bool(false)), None);
    assert_eq!(value_eq(&Value::Empty, &Value::Int(0)), None);
    assert_eq!(
        value_ord(&Value::Int(9007199254740993), &float(9007199254740992.0)),
        Some(Ordering::Equal)
    );
    assert_eq!(
        value_eq(&Value::Int(9007199254740993), &float(9007199254740992.0)),
        Some(true)
    );
    assert_eq!(
        value_eq(&Value::Int(9007199254740993), &Value::Int(9007199254740992)),
        Some(false)
    );
}

#[test]
fn value_kinds() {
    assert!(Value::Int(1).is_int());
    assert!(!Value::Int(1).is_float());
    assert!(Value::Int(1).is_number());
    assert!(float(1.0).is_float());
    assert!(float(1.0).is_number());
    assert!(!Value::Bool(true).is_number());
    assert_eq!(Value::Int(4).as_int(), Some(4));
    assert_eq!(float(4.0).as_int(), None);
    assert_eq!(float(4.0).as_float(), Some(Float::from_bits(4.0f64.to_bits())));
    assert_eq!(Value::Int(4).as_float(), None);
    assert_eq!(Value::Int(4).as_number(), Some(Float::from_bits(4.0f64.to_bits())));
    assert_eq!(Value::String("4".to_string()).as_number(), None);
    assert_eq!(Value::Bool(true).as_bool(), Some(true));
    assert_eq!(Value::Int(1).as_bool(), None);
    assert_eq!(Value::String("a".to_string()).clone(), Value::String("a".to_string()));
}

#[test]
fn operators_say_what_they_need() {
    let applied = eval_binary(OpBinary::Add, &Value::Int(1), &float(2.5));
    assert!(matches!(
        applied,
        Applied::Ask(FloatRequest::Binary { op: FloatOp::Add, left, right })
            if left == Float::from_bits(1.0f64.to_bits())
                && right == Float::from_bits(2.5f64.to_bits())
    ));
    let applied = eval_binary(OpBinary::Divide, &Value::Int(7), &Value::Int(2));
    assert!(matches!(
        applied,
        Applied::Ask(FloatRequest::Binary { op: FloatOp::Divide, left, right })
            if left == Float::from_bits(7.0f64.to_bits())
                && right == Float::from_bits(2.0f64.to_bits())
    ));
    let applied = eval_binary(OpBinary::Exp, &Value::Int(2), &Value::Int(-3));
    assert!(matches!(
        applied,
        Applied::Ask(FloatRequest::Powi { base, exponent: -3 })
            if base == Float::from_bits(2.0f64.to_bits())
    ));
    let applied = eval_binary(OpBinary::Exp, &float(2.0), &Value::Int(3));
    assert!(matches!(applied, Applied::Ask(FloatRequest::Powi { exponent: 3, .. })));
    let applied = eval_binary(OpBinary::Exp, &Value::Int(2), &float(0.5));
    assert!(matches!(
        applied,
        Applied::Ask(FloatRequest::Binary { op: FloatOp::Power, .. })
    ));
    let applied = eval_binary(OpBinary::Remainder, &float(2.0), &Value::Int(3));
    assert!(matches!(
        applied,
        Applied::Ask(FloatRequest::Binary { op: FloatOp::Remainder, .. })
    ));
    assert!(matches!(
        eval_binary(OpBinary::Multiply, &Value::Int(6), &Value::Int(7)),
        Applied::Done(Ok(Value::Int(42)))
    ));
    assert!(matches!(
        eval_binary(OpBinary::LessEqual, &Value::Int(6), &Value::Int(7)),
        Applied::Done(Ok(Value::Bool(true)))
    ));
    assert!(matches!(
        eval_unary(hermes_core::expr::ast::OpUnary::Minus, &Value::Int(6)),
        Ok(Value::Int(-6))
    ));
    let tree = Expr::Binary(ExprBinary {
        op: OpBinary::Add,
        left: Box::new(Expr::Empty),
        right: Box::new(Expr::Empty),
    });
    assert!(matches!(eval(tree, CtxEmpty, &ORIGIN), Err(Error::InvalidOperation(_))));
}
