//! The values that a formula works on, and how two of them compare.

use crate::expr::float::Float;
use crate::text::chars_of;
use std::cmp::Ordering;
use vstd::prelude::*;

verus! {

/// A point in time: the seconds since the epoch, and the nanoseconds since
/// the start of that second.
#[derive(Clone, Copy, Debug, PartialEq, Eq, Structural)]
pub struct DateTime {
    pub secs: i64,
    pub nanos: u32,
}

/// A span of time: whole seconds, and the nanoseconds beyond them.
#[derive(Clone, Copy, Debug, PartialEq, Eq, Structural)]
pub struct Duration {
    pub secs: u64,
    pub nanos: u32,
}

/// What a cell holds and what an expression evaluates to.
#[derive(Debug, PartialEq)]
pub enum Value {
    Empty,
    String(String),
    Int(i64),
    Float(Float),
    Bool(bool),
    DateTime(DateTime),
    Duration(Duration),
}

/// The mathematical value of a [`Value`].
pub enum ValueModel {
    Empty,
    String(Seq<char>),
    Int(i64),
    Float(Float),
    Bool(bool),
    DateTime(DateTime),
    Duration(Duration),
}

impl View for Value {
    type V = ValueModel;

    open spec fn view(&self) -> ValueModel {
        match self {
            Value::Empty => ValueModel::Empty,
            Value::String(text) => ValueModel::String(text@),
            Value::Int(value) => ValueModel::Int(*value),
            Value::Float(value) => ValueModel::Float(*value),
            Value::Bool(value) => ValueModel::Bool(*value),
            Value::DateTime(value) => ValueModel::DateTime(*value),
            Value::Duration(value) => ValueModel::Duration(*value),
        }
    }
}

impl DeepView for Value {
    type V = ValueModel;

    open spec fn deep_view(&self) -> ValueModel {
        self@
    }
}

impl Clone for Value {
    fn clone(&self) -> (other: Self)
        ensures
            other@ == self@,
    {
        match self {
            Value::Empty => Value::Empty,
            Value::String(text) => Value::String(text.clone()),
            Value::Int(value) => Value::Int(*value),
            Value::Float(value) => Value::Float(*value),
            Value::Bool(value) => Value::Bool(*value),
            Value::DateTime(value) => Value::DateTime(*value),
            Value::Duration(value) => Value::Duration(*value),
        }
    }
}

impl ValueModel {
    /// An `Int` or a `Float`.
    pub open spec fn is_number(self) -> bool {
        self is Int || self is Float
    }

    /// The value as a floating-point number: a `Float` as it is, an `Int`
    /// converted to the nearest one.
    pub open spec fn as_number(self) -> Option<Float> {
        match self {
            ValueModel::Float(value) => Some(value),
            ValueModel::Int(value) => Some(Float::of_int(value)),
            _ => None,
        }
    }
}

impl Value {
    /// If the value is an `Int`.
    pub fn is_int(&self) -> (b: bool)
        ensures
            b == (self@ is Int),
    {
        matches!(self, Self::Int(_))
    }

    /// If the value is a `Float`.
    pub fn is_float(&self) -> (b: bool)
        ensures
            b == (self@ is Float),
    {
        matches!(self, Self::Float(_))
    }

    /// If the value is an `Int` or `Float`.
    pub fn is_number(&self) -> (b: bool)
        ensures
            b == self@.is_number(),
    {
        self.is_int() || self.is_float()
    }

    /// The integer that the value is, if it is an `Int`.
    pub fn as_int(&self) -> (value: Option<i64>)
        ensures
            value == if let ValueModel::Int(v) = self@ {
                Some(v)
            } else {
                None
            },
    {
        if let Self::Int(value) = self {
            Some(*value)
        } else {
            None
        }
    }

    /// The number that the value is, if it is a `Float`.
    pub fn as_float(&self) -> (value: Option<Float>)
        ensures
            value == if let ValueModel::Float(v) = self@ {
                Some(v)
            } else {
                None
            },
    {
        if let Self::Float(value) = self {
            Some(*value)
        } else {
            None
        }
    }

    /// Value as a number.
    /// Converts `Int` to the nearest floating-point number.
    /// Does **not** attempt to parse `String`.
    pub fn as_number(&self) -> (value: Option<Float>)
        ensures
            value == self@.as_number(),
    {
        if let Self::Float(value) = self {
            Some(*value)
        } else if let Self::Int(value) = self {
            Some(Float::from_int(*value))
        } else {
            None
        }
    }

    /// The boolean that the value is, if it is a `Bool`.
    pub fn as_bool(&self) -> (value: Option<bool>)
        ensures
            value == if let ValueModel::Bool(v) = self@ {
                Some(v)
            } else {
                None
            },
    {
        if let Self::Bool(value) = self {
            Some(*value)
        } else {
            None
        }
    }
}

/// Whether two floating-point numbers are equal as numbers: what is no number
/// equals nothing, and the two zeros are equal.
pub open spec fn float_equal(left: Float, right: Float) -> bool {
    !left.is_nan() && !right.is_nan() && (left.bits == right.bits || (left.is_zero()
        && right.is_zero()))
}

/// Whether two values are equal. `Int` and `Float` are compared as numbers.
/// `None` if the types can not be compared.
pub open spec fn value_equal(left: ValueModel, right: ValueModel) -> Option<bool> {
    match (left, right) {
        (ValueModel::Empty, ValueModel::Empty) => Some(true),
        (ValueModel::String(left), ValueModel::String(right)) => Some(left == right),
        (ValueModel::Bool(left), ValueModel::Bool(right)) => Some(left == right),
        (ValueModel::Int(left), ValueModel::Int(right)) => Some(left == right),
        (ValueModel::Float(left), ValueModel::Float(right)) => Some(float_equal(left, right)),
        (ValueModel::Float(left), ValueModel::Int(right)) => Some(
            float_equal(left, Float::of_int(right)),
        ),
        (ValueModel::Int(left), ValueModel::Float(right)) => Some(
            float_equal(Float::of_int(left), right),
        ),
        (ValueModel::DateTime(left), ValueModel::DateTime(right)) => Some(left == right),
        (ValueModel::Duration(left), ValueModel::Duration(right)) => Some(left == right),
        _ => None,
    }
}

/// The order that a sign stands for: negative for less, positive for
/// greater.
pub open spec fn sign_order(sign: int) -> Ordering {
    if sign < 0 {
        Ordering::Less
    } else if sign > 0 {
        Ordering::Greater
    } else {
        Ordering::Equal
    }
}

/// The order of two integers.
pub open spec fn int_order(left: i64, right: i64) -> Ordering {
    if left < right {
        Ordering::Less
    } else if left > right {
        Ordering::Greater
    } else {
        Ordering::Equal
    }
}

/// How two texts compare: by their first characters that differ, and a
/// text comes before every text that it begins. Negative where `left` is
/// first, positive where `right` is, zero where they are equal.
pub open spec fn compare_texts(left: Seq<char>, right: Seq<char>) -> int
    decreases left.len(),
{
    if left.len() == 0 {
        if right.len() == 0 {
            0
        } else {
            -1
        }
    } else if right.len() == 0 {
        1
    } else if left[0] < right[0] {
        -1
    } else if left[0] > right[0] {
        1
    } else {
        compare_texts(left.drop_first(), right.drop_first())
    }
}

/// The order of two texts.
pub open spec fn text_order(left: Seq<char>, right: Seq<char>) -> Ordering {
    sign_order(compare_texts(left, right))
}

/// The order of two floating-point numbers. What is no number has no place
/// in it, the two zeros are equal, and the rest is in the total order of
/// the bit patterns.
pub open spec fn float_order(left: Float, right: Float) -> Option<Ordering> {
    if left.is_nan() || right.is_nan() {
        None
    } else if left.is_zero() && right.is_zero() {
        Some(Ordering::Equal)
    } else {
        Some(int_order(left.spec_key(), right.spec_key()))
    }
}

/// The order of two points in time: the earlier one is less.
pub open spec fn date_time_order(left: DateTime, right: DateTime) -> Ordering {
    if left.secs < right.secs || (left.secs == right.secs && left.nanos < right.nanos) {
        Ordering::Less
    } else if left == right {
        Ordering::Equal
    } else {
        Ordering::Greater
    }
}

/// The order of two spans of time: the shorter one is less.
pub open spec fn duration_order(left: Duration, right: Duration) -> Ordering {
    if left.secs < right.secs || (left.secs == right.secs && left.nanos < right.nanos) {
        Ordering::Less
    } else if left == right {
        Ordering::Equal
    } else {
        Ordering::Greater
    }
}

/// The order of two values. `Int` and `Float` are compared as numbers,
/// texts character by character. `None` if the types can't be ordered, or a
/// `Float` is no number.
pub open spec fn value_order(left: ValueModel, right: ValueModel) -> Option<Ordering> {
    match (left, right) {
        (ValueModel::String(left), ValueModel::String(right)) => Some(text_order(left, right)),
        (ValueModel::Int(left), ValueModel::Int(right)) => Some(int_order(left, right)),
        (ValueModel::Float(left), ValueModel::Float(right)) => float_order(left, right),
        (ValueModel::Int(left), ValueModel::Float(right)) => float_order(
            Float::of_int(left),
            right,
        ),
        (ValueModel::Float(left), ValueModel::Int(right)) => float_order(
            left,
            Float::of_int(right),
        ),
        (ValueModel::DateTime(left), ValueModel::DateTime(right)) => Some(
            date_time_order(left, right),
        ),
        (ValueModel::Duration(left), ValueModel::Duration(right)) => Some(
            duration_order(left, right),
        ),
        _ => None,
    }
}

/// Whether two floating-point numbers are equal as numbers.
fn floats_equal(left: Float, right: Float) -> (equal: bool)
    ensures
        equal == float_equal(left, right),
{
    !left.is_nan() && !right.is_nan() && (left.bits == right.bits || (left.is_zero()
        && right.is_zero()))
}

/// The order of two integers.
fn order_ints(left: i64, right: i64) -> (order: Ordering)
    ensures
        order == int_order(left, right),
{
    if left < right {
        Ordering::Less
    } else if left > right {
        Ordering::Greater
    } else {
        Ordering::Equal
    }
}

/// The order of two floating-point numbers, if both are numbers.
fn order_floats(left: Float, right: Float) -> (order: Option<Ordering>)
    ensures
        order == float_order(left, right),
{
    if left.is_nan() || right.is_nan() {
        None
    } else if left.is_zero() && right.is_zero() {
        Some(Ordering::Equal)
    } else {
        Some(order_ints(left.key(), right.key()))
    }
}

/// How two texts compare: -1, 0 or 1.
fn texts_sign(left: &String, right: &String) -> (sign: i8)
    ensures
        sign == compare_texts(left@, right@),
{
    let a = chars_of(left.as_str());
    let b = chars_of(right.as_str());
    let mut i: usize = 0;
    assert(a@.skip(0) =~= a@ && b@.skip(0) =~= b@);
    while i < a.len() && i < b.len()
        invariant
            i <= a.len(),
            i <= b.len(),
            a@ == left@,
            b@ == right@,
            compare_texts(left@, right@) == compare_texts(a@.skip(i as int), b@.skip(i as int)),
        decreases a.len() - i,
    {
        assert(a@.skip(i as int).drop_first() =~= a@.skip(i + 1));
        assert(b@.skip(i as int).drop_first() =~= b@.skip(i + 1));
        if a[i] < b[i] {
            return -1;
        }
        if a[i] > b[i] {
            return 1;
        }
        i += 1;
    }
    if i < b.len() {
        -1
    } else if i < a.len() {
        1
    } else {
        0
    }
}

/// The order of two texts.
fn order_texts(left: &String, right: &String) -> (order: Ordering)
    ensures
        order == text_order(left@, right@),
{
    let sign: i8 = texts_sign(left, right);
    if sign < 0 {
        Ordering::Less
    } else if sign > 0 {
        Ordering::Greater
    } else {
        Ordering::Equal
    }
}

/// Compare two values for equality.
/// `Int` and `Float` are compared as values.
/// `None` if types can not be compared.
pub fn value_eq(left: &Value, right: &Value) -> (equal: Option<bool>)
    ensures
        equal == value_equal(left@, right@),
{
    match (left, right) {
        (Value::Empty, Value::Empty) => Some(true),
        (Value::String(left), Value::String(right)) => Some(*left == *right),
        (Value::Bool(left), Value::Bool(right)) => Some(*left == *right),
        (Value::Int(left), Value::Int(right)) => Some(*left == *right),
        (Value::Float(left), Value::Float(right)) => Some(floats_equal(*left, *right)),
        (Value::Float(left), Value::Int(right)) => Some(
            floats_equal(*left, Float::from_int(*right)),
        ),
        (Value::Int(left), Value::Float(right)) => Some(
            floats_equal(Float::from_int(*left), *right),
        ),
        (Value::DateTime(left), Value::DateTime(right)) => Some(
            left.secs == right.secs && left.nanos == right.nanos,
        ),
        (Value::Duration(left), Value::Duration(right)) => Some(
            left.secs == right.secs && left.nanos == right.nanos,
        ),
        _ => None,
    }
}

/// Compare two values for ordering.
/// `Int` and `Float` are compared as values.
/// If a `Float` is no number returns `None`.
/// `String` is compared lexicographically.
/// `None` if the types can't be ordered.
pub fn value_ord(left: &Value, right: &Value) -> (order: Option<Ordering>)
    ensures
        order == value_order(left@, right@),
{
    match (left, right) {
        (Value::String(left), Value::String(right)) => Some(order_texts(left, right)),
        (Value::Int(left), Value::Int(right)) => Some(order_ints(*left, *right)),
        (Value::Float(left), Value::Float(right)) => order_floats(*left, *right),
        (Value::Int(left), Value::Float(right)) => order_floats(Float::from_int(*left), *right),
        (Value::Float(left), Value::Int(right)) => order_floats(*left, Float::from_int(*right)),
        (Value::DateTime(left), Value::DateTime(right)) => {
            if left.secs < right.secs || (left.secs == right.secs && left.nanos < right.nanos) {
                Some(Ordering::Less)
            } else if left.secs == right.secs && left.nanos == right.nanos {
                Some(Ordering::Equal)
            } else {
                Some(Ordering::Greater)
            }
        },
        (Value::Duration(left), Value::Duration(right)) => {
            if left.secs < right.secs || (left.secs == right.secs && left.nanos < right.nanos) {
                Some(Ordering::Less)
            } else if left.secs == right.secs && left.nanos == right.nanos {
                Some(Ordering::Equal)
            } else {
                Some(Ordering::Greater)
            }
        },
        _ => None,
    }
}

} // verus!
