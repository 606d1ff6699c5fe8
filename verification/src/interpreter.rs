//! The interpreter: walks an expression tree and gives its value.
//!
//! Sign, order and equality of numbers are decided here, on their bit
//! patterns. Sums, differences, products, quotients and the decimal text of a
//! number come from the embedding program's [`Arithmetic`]; of those the
//! contracts say which call gave the value, and nothing of the value itself.

use vstd::prelude::*;
use vstd::string::StringExecFns;
use vstd::utf8::encode_utf8;
use crate::grammar::{Expression, ExpressionView, Function, Operation, Operator, Primary, Unary};
use crate::number::{Arithmetic, Number};

verus! {

/// A runtime value.
#[derive(Debug, PartialEq)]
pub enum InterpreterResult {
    Num(Number),
    Str(String),
    Bool(bool),
    /// A number or string that has been negated once and waits for a second
    /// negation, which gives it back as it was.
    Bang(Box<InterpreterResult>),
    Nil,
}

/// Why an expression has no value.
#[derive(Clone, Copy, Debug, PartialEq, Eq, Structural)]
pub enum InterpreterError {
    ExpressionNotHandled,
    EofShouldNotBeInterpreted,
    InvalidOperationValues,
    UnexpectedLatelyInterpretedBang,
}

/// A runtime value as a mathematical value: its text is a sequence of characters.
pub enum Value {
    Num(Number),
    Str(Seq<char>),
    Bool(bool),
    Bang(Box<Value>),
    Nil,
}

impl View for InterpreterResult {
    type V = Value;

    open spec fn view(&self) -> Value
        decreases self,
    {
        match self {
            InterpreterResult::Num(number) => Value::Num(*number),
            InterpreterResult::Str(text) => Value::Str(text@),
            InterpreterResult::Bool(truth) => Value::Bool(*truth),
            InterpreterResult::Bang(inner) => Value::Bang(Box::new((**inner).view())),
            InterpreterResult::Nil => Value::Nil,
        }
    }
}

/// The outcome of an evaluation, with the value as a mathematical value.
pub open spec fn outcome(result: Result<InterpreterResult, InterpreterError>) -> Result<
    Value,
    InterpreterError,
> {
    match result {
        Ok(value) => Ok(value@),
        Err(error) => Err(error),
    }
}

/// The length by which strings are ordered: the number of bytes of a text in UTF-8.
pub open spec fn length(text: Seq<char>) -> nat {
    encode_utf8(text).len()
}

/// The text of a boolean.
pub open spec fn boolean_text(truth: bool) -> Seq<char> {
    if truth {
        "true"@
    } else {
        "false"@
    }
}

/// The value of a leaf. The end marker has none.
pub open spec fn primary_value(primary: Primary) -> Result<Value, InterpreterError> {
    match primary {
        Primary::Number(number) => Ok(Value::Num(number)),
        Primary::Str(text) => Ok(Value::Str(text@)),
        Primary::True => Ok(Value::Bool(true)),
        Primary::False => Ok(Value::Bool(false)),
        Primary::Nil => Ok(Value::Nil),
        Primary::Eof => Err(InterpreterError::EofShouldNotBeInterpreted),
    }
}

/// `!` applied to a value: a boolean is flipped, a number or a string is
/// marked as negated once, and a value so marked is given back without the mark.
pub open spec fn negated(value: Value) -> Result<Value, InterpreterError> {
    match value {
        Value::Bang(inner) => Ok(*inner),
        Value::Num(number) => Ok(Value::Bang(Box::new(Value::Num(number)))),
        Value::Str(text) => Ok(Value::Bang(Box::new(Value::Str(text)))),
        Value::Bool(truth) => Ok(Value::Bool(!truth)),
        Value::Nil => Err(InterpreterError::InvalidOperationValues),
    }
}

/// Unary `-` applied to a value: only a number has an opposite.
pub open spec fn opposite(value: Value) -> Result<Value, InterpreterError> {
    match value {
        Value::Num(number) => Ok(Value::Num(number.spec_negate())),
        _ => Err(InterpreterError::InvalidOperationValues),
    }
}

/// The value of a unary expression.
pub open spec fn unary_value(unary: Unary) -> Result<Value, InterpreterError>
    decreases unary,
{
    match unary {
        Unary::Bang(inner) => match unary_value(*inner) {
            Ok(value) => negated(value),
            Err(error) => Err(error),
        },
        Unary::Minus(inner) => match unary_value(*inner) {
            Ok(value) => opposite(value),
            Err(error) => Err(error),
        },
        Unary::Primary(primary) => primary_value(primary),
    }
}

/// A number, a string or a boolean that is negated twice is what it was.
pub proof fn lemma_double_negation(unary: Unary)
    requires
        unary_value(unary) matches Ok(value) && (value is Num || value is Str || value is Bool),
    ensures
        unary_value(Unary::Bang(Box::new(Unary::Bang(Box::new(unary))))) == unary_value(unary),
{
    let once = Unary::Bang(Box::new(unary));
    assert(unary_value(once) == negated(unary_value(unary)->Ok_0));
    assert(unary_value(Unary::Bang(Box::new(once))) == negated(unary_value(once)->Ok_0));
}

/// `left == right`. Values of different kinds are unequal; an operand that
/// is still marked as negated cannot be compared.
pub open spec fn equal_equal(left: Value, right: Value) -> Result<Value, InterpreterError> {
    if left is Bang || right is Bang {
        Err(InterpreterError::UnexpectedLatelyInterpretedBang)
    } else {
        Ok(Value::Bool(same(left, right)))
    }
}

/// `left != right`: the contrary of `left == right`.
pub open spec fn bang_equal(left: Value, right: Value) -> Result<Value, InterpreterError> {
    if left is Bang || right is Bang {
        Err(InterpreterError::UnexpectedLatelyInterpretedBang)
    } else {
        Ok(Value::Bool(!same(left, right)))
    }
}

/// Whether two values are of one kind and equal: numbers by their value,
/// strings by their characters, booleans by their truth; nil equals nil.
pub open spec fn same(left: Value, right: Value) -> bool {
    match (left, right) {
        (Value::Num(l), Value::Num(r)) => l.spec_equals(r),
        (Value::Str(l), Value::Str(r)) => l == r,
        (Value::Bool(l), Value::Bool(r)) => l == r,
        (Value::Nil, Value::Nil) => true,
        _ => false,
    }
}

/// `left < right`, or `left <= right` where `or_equal` is set: numbers by their
/// value, strings by their length. Every other pair is not in order.
pub open spec fn less(left: Value, right: Value, or_equal: bool) -> bool {
    match (left, right) {
        (Value::Num(l), Value::Num(r)) => l.spec_less(r) || (or_equal && l.spec_equals(r)),
        (Value::Str(l), Value::Str(r)) => length(l) < length(r) || (or_equal && length(l)
            == length(r)),
        _ => false,
    }
}

/// `left > right`, or `left >= right` where `or_equal` is set.
pub open spec fn greater(left: Value, right: Value, or_equal: bool) -> bool {
    match (left, right) {
        (Value::Num(l), Value::Num(r)) => r.spec_less(l) || (or_equal && l.spec_equals(r)),
        (Value::Str(l), Value::Str(r)) => length(l) > length(r) || (or_equal && length(l)
            == length(r)),
        _ => false,
    }
}

/// `!=` holds where `==` does not, and fails where `==` fails.
pub proof fn lemma_bang_equal_is_contrary(left: Value, right: Value)
    ensures
        match equal_equal(left, right) {
            Ok(Value::Bool(equal)) => bang_equal(left, right) == Ok::<Value, InterpreterError>(
                Value::Bool(!equal),
            ),
            Ok(_) => false,
            Err(error) => bang_equal(left, right) == Err::<Value, InterpreterError>(error),
        },
{
}

/// `left > right` is `right < left`, with or without equality.
pub proof fn lemma_greater_is_less_reversed(left: Value, right: Value, or_equal: bool)
    ensures
        greater(left, right, or_equal) == less(right, left, or_equal),
{
    if left is Num && right is Num {
        let l = left->Num_0;
        let r = right->Num_0;
        assert(l.spec_equals(r) == r.spec_equals(l));
    }
}

/// Whether `text` is a decimal text that `arithmetic` gave for `number`.
pub open spec fn formats_to<A: Arithmetic>(arithmetic: &A, number: Number, text: Seq<char>) -> bool {
    exists|formatted: String|
        formatted@ == text && call_ensures(A::format, (arithmetic, number), formatted)
}

/// Whether `out` is an outcome of `left + right`: the sum of two numbers as
/// `arithmetic` gave it, or the text of the left operand followed by that of
/// the right where a string stands on one side of a number or to the left of a
/// string, a boolean or nil.
pub open spec fn add_yields<A: Arithmetic>(
    arithmetic: &A,
    left: Value,
    right: Value,
    out: Result<Value, InterpreterError>,
) -> bool {
    match (left, right) {
        (Value::Num(l), Value::Num(r)) => out matches Ok(Value::Num(sum)) && call_ensures(
            A::add,
            (arithmetic, l, r),
            sum,
        ),
        (Value::Num(l), Value::Str(r)) => out matches Ok(Value::Str(text)) && exists|
            digits: Seq<char>,
        | #[trigger] formats_to(arithmetic, l, digits) && text == digits + r,
        (Value::Str(l), Value::Num(r)) => out matches Ok(Value::Str(text)) && exists|
            digits: Seq<char>,
        | #[trigger] formats_to(arithmetic, r, digits) && text == l + digits,
        (Value::Str(l), Value::Str(r)) => out == Ok::<Value, InterpreterError>(Value::Str(l + r)),
        (Value::Str(l), Value::Bool(r)) => out == Ok::<Value, InterpreterError>(
            Value::Str(l + boolean_text(r)),
        ),
        (Value::Str(l), Value::Nil) => out == Ok::<Value, InterpreterError>(
            Value::Str(l + "nil"@),
        ),
        _ => out == Err::<Value, InterpreterError>(InterpreterError::InvalidOperationValues),
    }
}

/// Whether `out` is an outcome of `left - right`: the difference of two
/// numbers as `arithmetic` gave it.
pub open spec fn minus_yields<A: Arithmetic>(
    arithmetic: &A,
    left: Value,
    right: Value,
    out: Result<Value, InterpreterError>,
) -> bool {
    match (left, right) {
        (Value::Num(l), Value::Num(r)) => out matches Ok(Value::Num(difference))
            && call_ensures(A::subtract, (arithmetic, l, r), difference),
        _ => out == Err::<Value, InterpreterError>(InterpreterError::InvalidOperationValues),
    }
}

/// Whether `out` is an outcome of `left * right`: the product of two numbers
/// as `arithmetic` gave it.
pub open spec fn multiplication_yields<A: Arithmetic>(
    arithmetic: &A,
    left: Value,
    right: Value,
    out: Result<Value, InterpreterError>,
) -> bool {
    match (left, right) {
        (Value::Num(l), Value::Num(r)) => out matches Ok(Value::Num(product)) && call_ensures(
            A::multiply,
            (arithmetic, l, r),
            product,
        ),
        _ => out == Err::<Value, InterpreterError>(InterpreterError::InvalidOperationValues),
    }
}

/// Whether `out` is an outcome of `left / right`: the quotient of two numbers
/// as `arithmetic` gave it, whatever the divisor.
pub open spec fn division_yields<A: Arithmetic>(
    arithmetic: &A,
    left: Value,
    right: Value,
    out: Result<Value, InterpreterError>,
) -> bool {
    match (left, right) {
        (Value::Num(l), Value::Num(r)) => out matches Ok(Value::Num(quotient)) && call_ensures(
            A::divide,
            (arithmetic, l, r),
            quotient,
        ),
        _ => out == Err::<Value, InterpreterError>(InterpreterError::InvalidOperationValues),
    }
}

/// Whether `out` is an outcome of applying `operator` to two values.
pub open spec fn applied<A: Arithmetic>(
    arithmetic: &A,
    left: Value,
    operator: Operator,
    right: Value,
    out: Result<Value, InterpreterError>,
) -> bool {
    match operator {
        Operator::Add => add_yields(arithmetic, left, right, out),
        Operator::Minus => minus_yields(arithmetic, left, right, out),
        Operator::Multiply => multiplication_yields(arithmetic, left, right, out),
        Operator::Divide => division_yields(arithmetic, left, right, out),
        Operator::EqualEqual => out == equal_equal(left, right),
        Operator::BangEqual => out == bang_equal(left, right),
        Operator::Less => out == Ok::<Value, InterpreterError>(
            Value::Bool(less(left, right, false)),
        ),
        Operator::LessOrEqual => out == Ok::<Value, InterpreterError>(
            Value::Bool(less(left, right, true)),
        ),
        Operator::Greater => out == Ok::<Value, InterpreterError>(
            Value::Bool(greater(left, right, false)),
        ),
        Operator::GreaterOrEqual => out == Ok::<Value, InterpreterError>(
            Value::Bool(greater(left, right, true)),
        ),
    }
}

/// Whether `out` is an outcome of a binary operation whose operands came
/// out as `left` and `right`: the error of the left operand, else that of
/// the right one, else what the operator makes of the two values.
pub open spec fn combined<A: Arithmetic>(
    arithmetic: &A,
    left: Result<Value, InterpreterError>,
    operator: Operator,
    right: Result<Value, InterpreterError>,
    out: Result<Value, InterpreterError>,
) -> bool {
    match (left, right) {
        (Err(error), _) => out == Err::<Value, InterpreterError>(error),
        (Ok(_), Err(error)) => out == Err::<Value, InterpreterError>(error),
        (Ok(l), Ok(r)) => applied(arithmetic, l, operator, r, out),
    }
}

/// The number of operations and operands in an operation.
pub open spec fn size(operation: Operation) -> nat
    decreases operation,
{
    match operation {
        Operation::Operation(left, _, right) => 1 + size(*left) + size(*right),
        Operation::Unary(_) => 1,
    }
}

/// Whether `out` is an outcome of evaluating `operation` with `arithmetic`.
pub open spec fn operation_yields<A: Arithmetic>(
    arithmetic: &A,
    operation: Operation,
    out: Result<Value, InterpreterError>,
) -> bool
    decreases operation,
{
    match operation {
        Operation::Unary(unary) => out == unary_value(unary),
        Operation::Operation(left, operator, right) => exists|
            l: Result<Value, InterpreterError>,
            r: Result<Value, InterpreterError>,
        |
            operation_yields(arithmetic, *left, l) && operation_yields(arithmetic, *right, r)
                && #[trigger] combined(arithmetic, l, operator, r, out),
    }
}

/// Whether `out` is an outcome of evaluating `expression` with `arithmetic`.
/// Only a binary operation is evaluated.
pub open spec fn expression_yields<A: Arithmetic>(
    arithmetic: &A,
    expression: ExpressionView,
    out: Result<Value, InterpreterError>,
) -> bool {
    match expression {
        ExpressionView::Operation(Operation::Operation(left, operator, right)) => operation_yields(
            arithmetic,
            Operation::Operation(left, operator, right),
            out,
        ),
        _ => out == Err::<Value, InterpreterError>(InterpreterError::ExpressionNotHandled),
    }
}

/// Whether `out` is an outcome of evaluating `expression` as an operand, an
/// argument or a line of a function's body: every operation has its value
/// there, a lone leaf too.
pub open spec fn value_yields<A: Arithmetic>(
    arithmetic: &A,
    expression: ExpressionView,
    out: Result<Value, InterpreterError>,
) -> bool {
    match expression {
        ExpressionView::Operation(operation) => operation_yields(arithmetic, operation, out),
        _ => out == Err::<Value, InterpreterError>(InterpreterError::ExpressionNotHandled),
    }
}

/// Evaluates an expression that stands on a line of its own.
pub fn interpret_expression<A: Arithmetic>(expression: &Expression, arithmetic: &A) -> (result:
    Result<InterpreterResult, InterpreterError>)
    ensures
        expression_yields(arithmetic, expression@, outcome(result)),
{
    match expression {
        Expression::Function(Function::Operation(Operation::Operation(left, operator, right))) => {
            solve_operation(left, operator, right, arithmetic)
        },
        _ => Err(InterpreterError::ExpressionNotHandled),
    }
}

/// Evaluates an operation, binary or unary.
pub fn interpret_operation<A: Arithmetic>(operation: &Operation, arithmetic: &A) -> (result: Result<
    InterpreterResult,
    InterpreterError,
>)
    ensures
        operation_yields(arithmetic, *operation, outcome(result)),
{
    match operation {
        Operation::Operation(left, operator, right) => solve_operation(
            left,
            operator,
            right,
            arithmetic,
        ),
        Operation::Unary(unary) => solve_unary(unary),
    }
}

/// Evaluates an expression that is an argument of a call or a line of a
/// function's body.
pub fn interpret_value<A: Arithmetic>(expression: &Expression, arithmetic: &A) -> (result: Result<
    InterpreterResult,
    InterpreterError,
>)
    ensures
        value_yields(arithmetic, expression@, outcome(result)),
{
    match expression {
        Expression::Function(Function::Operation(operation)) => interpret_operation(
            operation,
            arithmetic,
        ),
        _ => Err(InterpreterError::ExpressionNotHandled),
    }
}

fn solve_operation<A: Arithmetic>(
    left: &Operation,
    operator: &Operator,
    right: &Operation,
    arithmetic: &A,
) -> (result: Result<InterpreterResult, InterpreterError>)
    ensures
        operation_yields(
            arithmetic,
            Operation::Operation(Box::new(*left), *operator, Box::new(*right)),
            outcome(result),
        ),
    decreases size(*left) + size(*right) + 1, 1int,
{
    let (left, right) = interpret_operation_parts(left, right, arithmetic);
    let ghost l = outcome(left);
    let ghost r = outcome(right);
    let result = match left {
        Ok(left) => match right {
            Ok(right) => match operator {
                Operator::Add => solve_add(left, right, arithmetic),
                Operator::Minus => solve_minus(left, right, arithmetic),
                Operator::Multiply => solve_multiplication(left, right, arithmetic),
                Operator::Divide => solve_division(left, right, arithmetic),
                Operator::EqualEqual => solve_equal_equal(left, right),
                Operator::BangEqual => solve_bang_equal(left, right),
                Operator::Less => solve_less(left, right, false),
                Operator::LessOrEqual => solve_less(left, right, true),
                Operator::Greater => solve_greater(left, right, false),
                Operator::GreaterOrEqual => solve_greater(left, right, true),
            },
            Err(error) => Err(error),
        },
        Err(error) => Err(error),
    };
    assert(combined(arithmetic, l, *operator, r, outcome(result)));
    result
}

fn solve_greater(left: InterpreterResult, right: InterpreterResult, or_equal: bool) -> (result:
    Result<InterpreterResult, InterpreterError>)
    ensures
        outcome(result) == Ok::<Value, InterpreterError>(
            Value::Bool(greater(left@, right@, or_equal)),
        ),
{
    match left {
        InterpreterResult::Num(left_num) => match right {
            InterpreterResult::Num(right_num) => if or_equal {
                Ok(InterpreterResult::Bool(right_num.less(left_num) || left_num.equals(right_num)))
            } else {
                Ok(InterpreterResult::Bool(right_num.less(left_num)))
            },
            _ => Ok(InterpreterResult::Bool(false)),
        },
        InterpreterResult::Str(left_str) => match right {
            InterpreterResult::Str(right_str) => if or_equal {
                Ok(InterpreterResult::Bool(left_str.as_str().as_bytes().len() >= right_str.as_str().as_bytes().len()))
            } else {
                Ok(InterpreterResult::Bool(left_str.as_str().as_bytes().len() > right_str.as_str().as_bytes().len()))
            },
            _ => Ok(InterpreterResult::Bool(false)),
        },
        _ => Ok(InterpreterResult::Bool(false)),
    }
}

fn solve_less(left: InterpreterResult, right: InterpreterResult, or_equal: bool) -> (result:
    Result<InterpreterResult, InterpreterError>)
    ensures
        outcome(result) == Ok::<Value, InterpreterError>(Value::Bool(less(left@, right@, or_equal))),
{
    match left {
        InterpreterResult::Num(left_num) => match right {
            InterpreterResult::Num(right_num) => if or_equal {
                Ok(InterpreterResult::Bool(left_num.less(right_num) || left_num.equals(right_num)))
            } else {
                Ok(InterpreterResult::Bool(left_num.less(right_num)))
            },
            _ => Ok(InterpreterResult::Bool(false)),
        },
        InterpreterResult::Str(left_str) => match right {
            InterpreterResult::Str(right_str) => if or_equal {
                Ok(InterpreterResult::Bool(left_str.as_str().as_bytes().len() <= right_str.as_str().as_bytes().len()))
            } else {
                Ok(InterpreterResult::Bool(left_str.as_str().as_bytes().len() < right_str.as_str().as_bytes().len()))
            },
            _ => Ok(InterpreterResult::Bool(false)),
        },
        _ => Ok(InterpreterResult::Bool(false)),
    }
}

/// Whether two values are of one kind and equal.
fn same_values(left: &InterpreterResult, right: &InterpreterResult) -> (r: bool)
    ensures
        r == same(left@, right@),
{
    match left {
        InterpreterResult::Num(left_num) => match right {
            InterpreterResult::Num(right_num) => left_num.equals(*right_num),
            _ => false,
        },
        InterpreterResult::Str(left_str) => match right {
            InterpreterResult::Str(right_str) => left_str.eq(right_str),
            _ => false,
        },
        InterpreterResult::Bool(left_bool) => match right {
            InterpreterResult::Bool(right_bool) => *left_bool == *right_bool,
            _ => false,
        },
        InterpreterResult::Bang(_) => false,
        InterpreterResult::Nil => match right {
            InterpreterResult::Nil => true,
            _ => false,
        },
    }
}

fn solve_bang_equal(left: InterpreterResult, right: InterpreterResult) -> (result: Result<
    InterpreterResult,
    InterpreterError,
>)
    ensures
        outcome(result) == bang_equal(left@, right@),
{
    match left {
        InterpreterResult::Bang(_) => Err(InterpreterError::UnexpectedLatelyInterpretedBang),
        _ => match right {
            InterpreterResult::Bang(_) => Err(InterpreterError::UnexpectedLatelyInterpretedBang),
            _ => Ok(InterpreterResult::Bool(!same_values(&left, &right))),
        },
    }
}

fn solve_equal_equal(left: InterpreterResult, right: InterpreterResult) -> (result: Result<
    InterpreterResult,
    InterpreterError,
>)
    ensures
        outcome(result) == equal_equal(left@, right@),
{
    match left {
        InterpreterResult::Bang(_) => Err(InterpreterError::UnexpectedLatelyInterpretedBang),
        _ => match right {
            InterpreterResult::Bang(_) => Err(InterpreterError::UnexpectedLatelyInterpretedBang),
            _ => Ok(InterpreterResult::Bool(same_values(&left, &right))),
        },
    }
}

fn solve_division<A: Arithmetic>(
    left: InterpreterResult,
    right: InterpreterResult,
    arithmetic: &A,
) -> (result: Result<InterpreterResult, InterpreterError>)
    ensures
        division_yields(arithmetic, left@, right@, outcome(result)),
{
    match left {
        InterpreterResult::Num(num_left) => match right {
            InterpreterResult::Num(num_right) => Ok(
                InterpreterResult::Num(arithmetic.divide(num_left, num_right)),
            ),
            _ => Err(InterpreterError::InvalidOperationValues),
        },
        _ => Err(InterpreterError::InvalidOperationValues),
    }
}

fn solve_multiplication<A: Arithmetic>(
    left: InterpreterResult,
    right: InterpreterResult,
    arithmetic: &A,
) -> (result: Result<InterpreterResult, InterpreterError>)
    ensures
        multiplication_yields(arithmetic, left@, right@, outcome(result)),
{
    match left {
        InterpreterResult::Num(num_left) => match right {
            InterpreterResult::Num(num_right) => Ok(
                InterpreterResult::Num(arithmetic.multiply(num_left, num_right)),
            ),
            _ => Err(InterpreterError::InvalidOperationValues),
        },
        _ => Err(InterpreterError::InvalidOperationValues),
    }
}

fn solve_minus<A: Arithmetic>(
    left: InterpreterResult,
    right: InterpreterResult,
    arithmetic: &A,
) -> (result: Result<InterpreterResult, InterpreterError>)
    ensures
        minus_yields(arithmetic, left@, right@, outcome(result)),
{
    match left {
        InterpreterResult::Num(num_left) => match right {
            InterpreterResult::Num(num_right) => Ok(
                InterpreterResult::Num(arithmetic.subtract(num_left, num_right)),
            ),
            _ => Err(InterpreterError::InvalidOperationValues),
        },
        _ => Err(InterpreterError::InvalidOperationValues),
    }
}

fn solve_add<A: Arithmetic>(
    left: InterpreterResult,
    right: InterpreterResult,
    arithmetic: &A,
) -> (result: Result<InterpreterResult, InterpreterError>)
    ensures
        add_yields(arithmetic, left@, right@, outcome(result)),
{
    match left {
        InterpreterResult::Num(num_left) => match right {
            InterpreterResult::Num(num_right) => Ok(
                InterpreterResult::Num(arithmetic.add(num_left, num_right)),
            ),
            InterpreterResult::Str(str_right) => {
                let digits = arithmetic.format(num_left);
                assert(formats_to(arithmetic, num_left, digits@));
                Ok(InterpreterResult::Str(digits.concat(str_right.as_str())))
            },
            _ => Err(InterpreterError::InvalidOperationValues),
        },
        InterpreterResult::Str(str_left) => match right {
            InterpreterResult::Num(num_right) => {
                let digits = arithmetic.format(num_right);
                assert(formats_to(arithmetic, num_right, digits@));
                Ok(InterpreterResult::Str(str_left.concat(digits.as_str())))
            },
            InterpreterResult::Str(str_right) => Ok(
                InterpreterResult::Str(str_left.concat(str_right.as_str())),
            ),
            InterpreterResult::Bool(bool_right) => Ok(
                InterpreterResult::Str(
                    str_left.concat(
                        if bool_right {
                            "true"
                        } else {
                            "false"
                        },
                    ),
                ),
            ),
            InterpreterResult::Nil => Ok(InterpreterResult::Str(str_left.concat("nil"))),
            _ => Err(InterpreterError::InvalidOperationValues),
        },
        _ => Err(InterpreterError::InvalidOperationValues),
    }
}

fn interpret_operation_parts<A: Arithmetic>(
    left: &Operation,
    right: &Operation,
    arithmetic: &A,
) -> (results: (
    Result<InterpreterResult, InterpreterError>,
    Result<InterpreterResult, InterpreterError>,
))
    ensures
        operation_yields(arithmetic, *left, outcome(results.0)),
        operation_yields(arithmetic, *right, outcome(results.1)),
    decreases size(*left) + size(*right) + 1, 0int,
{
    let left = match left {
        Operation::Operation(left_nested, operator_nested, right_nested) => solve_operation(
            left_nested,
            operator_nested,
            right_nested,
            arithmetic,
        ),
        Operation::Unary(unary) => solve_unary(unary),
    };
    let right = match right {
        Operation::Operation(left_nested, operator_nested, right_nested) => solve_operation(
            left_nested,
            operator_nested,
            right_nested,
            arithmetic,
        ),
        Operation::Unary(unary) => solve_unary(unary),
    };
    (left, right)
}

fn solve_unary(unary: &Unary) -> (result: Result<InterpreterResult, InterpreterError>)
    ensures
        outcome(result) == unary_value(*unary),
    decreases unary,
{
    match unary {
        Unary::Bang(unary_nested) => {
            match solve_unary(unary_nested) {
                Ok(unary_nested_result) => match unary_nested_result {
                    InterpreterResult::Bang(bang_result) => Ok(*bang_result),
                    InterpreterResult::Num(num_result) => Ok(
                        InterpreterResult::Bang(Box::new(InterpreterResult::Num(num_result))),
                    ),
                    InterpreterResult::Str(str_result) => Ok(
                        InterpreterResult::Bang(Box::new(InterpreterResult::Str(str_result))),
                    ),
                    InterpreterResult::Bool(bool_result) => if bool_result {
                        Ok(InterpreterResult::Bool(false))
                    } else {
                        Ok(InterpreterResult::Bool(true))
                    },
                    _ => Err(InterpreterError::InvalidOperationValues),
                },
                Err(error) => Err(error),
            }
        },
        Unary::Minus(unary_nested) => {
            match solve_unary(unary_nested) {
                Ok(unary_nested_result) => match unary_nested_result {
                    InterpreterResult::Num(num_result) => Ok(
                        InterpreterResult::Num(num_result.negate()),
                    ),
                    _ => Err(InterpreterError::InvalidOperationValues),
                },
                Err(error) => Err(error),
            }
        },
        Unary::Primary(primary) => solve_primary(primary),
    }
}

fn solve_primary(primary: &Primary) -> (result: Result<InterpreterResult, InterpreterError>)
    ensures
        outcome(result) == primary_value(*primary),
{
    match primary {
        Primary::Number(number) => Ok(InterpreterResult::Num(*number)),
        Primary::Str(str) => Ok(InterpreterResult::Str(str.clone())),
        Primary::True => Ok(InterpreterResult::Bool(true)),
        Primary::False => Ok(InterpreterResult::Bool(false)),
        Primary::Nil => Ok(InterpreterResult::Nil),
        Primary::Eof => Err(InterpreterError::EofShouldNotBeInterpreted),
    }
}

} // verus!
