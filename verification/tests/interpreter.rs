use coding_survivor::grammar::{
    resolve_ast, Expression, Function, Operation, Operator, Primary, Unary,
};
use coding_survivor::interpreter::{
    interpret_expression, interpret_operation, interpret_value, InterpreterError,
    InterpreterResult,
};
use coding_survivor::number::{Arithmetic, Number};
use coding_survivor::tokenizer::get_prompt_tokens;

struct Floats;

impl Arithmetic for Floats {
    fn parse(&self, literal: &str) -> Number {
        Number { bits: literal.parse::<f64>().expect("a decimal literal").to_bits() }
    }

    fn add(&self, left: Number, right: Number) -> Number {
        Number { bits: (f64::from_bits(left.bits) + f64::from_bits(right.bits)).to_bits() }
    }

    fn subtract(&self, left: Number, right: Number) -> Number {
        Number { bits: (f64::from_bits(left.bits) - f64::from_bits(right.bits)).to_bits() }
    }

    fn multiply(&self, left: Number, right: Number) -> Number {
        Number { bits: (f64::from_bits(left.bits) * f64::from_bits(right.bits)).to_bits() }
    }

    fn divide(&self, left: Number, right: Number) -> Number {
        Number { bits: (f64::from_bits(left.bits) / f64::from_bits(right.bits)).to_bits() }
    }

    fn format(&self, value: Number) -> String {
        f64::from_bits(value.bits).to_string()
    }
}

fn number(value: f64) -> Number {
    Number { bits: value.to_bits() }
}

fn num(value: f64) -> Operation {
    Operation::Unary(Unary::Primary(Primary::Number(number(value))))
}

fn string(text: &str) -> Operation {
    Operation::Unary(Unary::Primary(Primary::Str(text.to_string())))
}

fn boolean(truth: bool) -> Operation {
    Operation::Unary(Unary::Primary(if truth { Primary::True } else { Primary::False }))
}

fn nil() -> Operation {
    Operation::Unary(Unary::Primary(Primary::Nil))
}

fn end() -> Operation {
    Operation::Unary(Unary::Primary(Primary::Eof))
}

fn bang(operation: Operation) -> Operation {
    match operation {
        Operation::Unary(unary) => Operation::Unary(Unary::Bang(Box::new(unary))),
        _ => unreachable!(),
    }
}

fn minus(operation: Operation) -> Operation {
    match operation {
        Operation::Unary(unary) => Operation::Unary(Unary::Minus(Box::new(unary))),
        _ => unreachable!(),
    }
}

fn binary(left: Operation, operator: Operator, right: Operation) -> Operation {
    Operation::Operation(Box::new(left), operator, Box::new(right))
}

fn evaluate(operation: Operation) -> Result<InterpreterResult, InterpreterError> {
    interpret_expression(&Expression::Function(Function::Operation(operation)), &Floats)
}

fn apply(
    left: Operation,
    operator: Operator,
    right: Operation,
) -> Result<InterpreterResult, InterpreterError> {
    evaluate(binary(left, operator, right))
}

/// The value of a unary expression: `x == nil` is false for every value, so the
/// value is read off `x + ...` or off a comparison that tells it apart.
fn first_of(text: &str) -> Result<InterpreterResult, InterpreterError> {
    let tokens = get_prompt_tokens(text.to_string(), &Floats).expect("the text has tokens");
    let ast = resolve_ast(tokens).expect("the text has a tree");
    interpret_expression(&ast.tree[0], &Floats)
}

fn ok_num(value: f64) -> Result<InterpreterResult, InterpreterError> {
    Ok(InterpreterResult::Num(number(value)))
}

fn ok_str(text: &str) -> Result<InterpreterResult, InterpreterError> {
    Ok(InterpreterResult::Str(text.to_string()))
}

fn ok_bool(truth: bool) -> Result<InterpreterResult, InterpreterError> {
    Ok(InterpreterResult::Bool(truth))
}

const INVALID: Result<InterpreterResult, InterpreterError> =
    Err(InterpreterError::InvalidOperationValues);

#[test]
fn two_plus_three_is_five() {
    assert_eq!(apply(num(2.0), Operator::Add, num(3.0)), ok_num(5.0));
}

#[test]
fn a_string_plus_a_number_is_their_texts_in_a_row() {
    assert_eq!(apply(string("a"), Operator::Add, num(1.0)), ok_str("a1"));
    assert_eq!(apply(num(1.0), Operator::Add, string("a")), ok_str("1a"));
    assert_eq!(apply(string("a"), Operator::Add, num(1.5)), ok_str("a1.5"));
    assert_eq!(apply(string("a"), Operator::Add, num(-0.25)), ok_str("a-0.25"));
    assert_eq!(apply(string("a"), Operator::Add, num(1e21)), ok_str("a1000000000000000000000"));
}

#[test]
fn a_string_plus_a_string_a_boolean_or_nil_is_their_texts_in_a_row() {
    assert_eq!(apply(string("ab"), Operator::Add, string("cd")), ok_str("abcd"));
    assert_eq!(apply(string("a"), Operator::Add, boolean(true)), ok_str("atrue"));
    assert_eq!(apply(string("a"), Operator::Add, boolean(false)), ok_str("afalse"));
    assert_eq!(apply(string("a"), Operator::Add, nil()), ok_str("anil"));
    assert_eq!(apply(string(""), Operator::Add, string("")), ok_str(""));
}

#[test]
fn nothing_else_can_be_added() {
    assert_eq!(apply(num(1.0), Operator::Add, boolean(true)), INVALID);
    assert_eq!(apply(num(1.0), Operator::Add, nil()), INVALID);
    assert_eq!(apply(boolean(true), Operator::Add, string("a")), INVALID);
    assert_eq!(apply(boolean(true), Operator::Add, boolean(true)), INVALID);
    assert_eq!(apply(nil(), Operator::Add, string("a")), INVALID);
    assert_eq!(apply(nil(), Operator::Add, nil()), INVALID);
    assert_eq!(apply(string("a"), Operator::Add, bang(num(1.0))), INVALID);
    assert_eq!(apply(bang(num(1.0)), Operator::Add, num(1.0)), INVALID);
}

#[test]
fn numbers_are_subtracted_multiplied_and_divided() {
    assert_eq!(apply(num(5.0), Operator::Minus, num(3.0)), ok_num(2.0));
    assert_eq!(apply(num(3.0), Operator::Minus, num(5.0)), ok_num(-2.0));
    assert_eq!(apply(num(4.0), Operator::Multiply, num(2.5)), ok_num(10.0));
    assert_eq!(apply(num(7.0), Operator::Divide, num(2.0)), ok_num(3.5));
    assert_eq!(apply(num(0.1), Operator::Add, num(0.2)), ok_num(0.1 + 0.2));
}

#[test]
fn only_numbers_are_subtracted_multiplied_and_divided() {
    for operator in [Operator::Minus, Operator::Multiply, Operator::Divide] {
        assert_eq!(apply(string("a"), operator, num(1.0)), INVALID);
        assert_eq!(apply(num(1.0), operator, string("a")), INVALID);
        assert_eq!(apply(string("a"), operator, string("b")), INVALID);
        assert_eq!(apply(boolean(true), operator, num(1.0)), INVALID);
        assert_eq!(apply(num(1.0), operator, nil()), INVALID);
        assert_eq!(apply(nil(), operator, nil()), INVALID);
    }
}

#[test]
fn division_by_zero_is_no_error() {
    assert_eq!(apply(num(1.0), Operator::Divide, num(0.0)), ok_num(f64::INFINITY));
    assert_eq!(apply(num(-1.0), Operator::Divide, num(0.0)), ok_num(f64::NEG_INFINITY));
    match apply(num(0.0), Operator::Divide, num(0.0)) {
        Ok(InterpreterResult::Num(quotient)) => assert!(f64::from_bits(quotient.bits).is_nan()),
        other => panic!("{other:?}"),
    }
}

#[test]
fn equality_is_by_value_within_a_kind() {
    assert_eq!(apply(num(1.0), Operator::EqualEqual, num(1.0)), ok_bool(true));
    assert_eq!(apply(num(1.0), Operator::EqualEqual, num(2.0)), ok_bool(false));
    assert_eq!(apply(num(0.0), Operator::EqualEqual, minus(num(0.0))), ok_bool(true));
    assert_eq!(apply(string("a"), Operator::EqualEqual, string("a")), ok_bool(true));
    assert_eq!(apply(string("a"), Operator::EqualEqual, string("b")), ok_bool(false));
    assert_eq!(apply(string("ab"), Operator::EqualEqual, string("ba")), ok_bool(false));
    assert_eq!(apply(boolean(true), Operator::EqualEqual, boolean(true)), ok_bool(true));
    assert_eq!(apply(boolean(true), Operator::EqualEqual, boolean(false)), ok_bool(false));
    assert_eq!(apply(nil(), Operator::EqualEqual, nil()), ok_bool(true));
}

#[test]
fn values_of_different_kinds_are_unequal() {
    let values = [num(1.0), string("1"), boolean(true), nil()];
    for (i, left) in values.iter().enumerate() {
        for (j, right) in values.iter().enumerate() {
            if i != j {
                assert_eq!(apply(left.clone(), Operator::EqualEqual, right.clone()), ok_bool(false));
                assert_eq!(apply(left.clone(), Operator::BangEqual, right.clone()), ok_bool(true));
            }
        }
    }
}

#[test]
fn inequality_is_the_contrary_of_equality() {
    assert_eq!(apply(num(1.0), Operator::BangEqual, num(1.0)), ok_bool(false));
    assert_eq!(apply(num(1.0), Operator::BangEqual, num(2.0)), ok_bool(true));
    assert_eq!(apply(string("a"), Operator::BangEqual, string("a")), ok_bool(false));
    assert_eq!(apply(string("a"), Operator::BangEqual, string("b")), ok_bool(true));
    assert_eq!(apply(boolean(false), Operator::BangEqual, boolean(false)), ok_bool(false));
    assert_eq!(apply(boolean(false), Operator::BangEqual, boolean(true)), ok_bool(true));
    assert_eq!(apply(nil(), Operator::BangEqual, nil()), ok_bool(false));
}

#[test]
fn not_a_number_equals_nothing() {
    let nan = binary(num(0.0), Operator::Divide, num(0.0));
    assert_eq!(apply(nan.clone(), Operator::EqualEqual, nan.clone()), ok_bool(false));
    assert_eq!(apply(nan.clone(), Operator::BangEqual, nan.clone()), ok_bool(true));
    assert_eq!(apply(nan.clone(), Operator::Less, num(1.0)), ok_bool(false));
    assert_eq!(apply(nan.clone(), Operator::GreaterOrEqual, nan), ok_bool(false));
}

#[test]
fn a_value_negated_once_cannot_be_compared_for_equality() {
    let error = Err(InterpreterError::UnexpectedLatelyInterpretedBang);
    assert_eq!(apply(bang(num(1.0)), Operator::EqualEqual, num(1.0)), error);
    assert_eq!(apply(bang(string("a")), Operator::BangEqual, string("a")), error);
    assert_eq!(apply(bang(num(1.0)), Operator::EqualEqual, bang(num(1.0))), error);
    assert_eq!(apply(num(1.0), Operator::EqualEqual, bang(num(1.0))), error);
    assert_eq!(apply(num(1.0), Operator::BangEqual, bang(num(1.0))), error);
    assert_eq!(apply(nil(), Operator::EqualEqual, bang(string("a"))), error);
    assert_eq!(apply(boolean(true), Operator::BangEqual, bang(string("a"))), error);
}

#[test]
fn strings_are_ordered_by_their_length() {
    assert_eq!(apply(string("ab"), Operator::Less, string("abc")), ok_bool(true));
    assert_eq!(apply(string("zz"), Operator::Less, string("aaa")), ok_bool(true));
    assert_eq!(apply(string("b"), Operator::Less, string("a")), ok_bool(false));
    assert_eq!(apply(string("b"), Operator::LessOrEqual, string("a")), ok_bool(true));
    assert_eq!(apply(string("abc"), Operator::Greater, string("zz")), ok_bool(true));
    assert_eq!(apply(string("a"), Operator::Greater, string("b")), ok_bool(false));
    assert_eq!(apply(string("a"), Operator::GreaterOrEqual, string("b")), ok_bool(true));
    assert_eq!(apply(string("abc"), Operator::LessOrEqual, string("ab")), ok_bool(false));
    assert_eq!(apply(string("ab"), Operator::GreaterOrEqual, string("abc")), ok_bool(false));
}

#[test]
fn the_length_of_a_string_is_counted_in_bytes() {
    assert_eq!(apply(string("\u{e9}"), Operator::Greater, string("e")), ok_bool(true));
    assert_eq!(apply(string("\u{e9}"), Operator::LessOrEqual, string("ee")), ok_bool(true));
    assert_eq!(apply(string("\u{e9}"), Operator::Less, string("ee")), ok_bool(false));
}

#[test]
fn numbers_are_ordered_by_their_value() {
    assert_eq!(apply(num(1.0), Operator::Less, num(2.0)), ok_bool(true));
    assert_eq!(apply(num(2.0), Operator::Less, num(1.0)), ok_bool(false));
    assert_eq!(apply(num(2.0), Operator::Less, num(2.0)), ok_bool(false));
    assert_eq!(apply(num(2.0), Operator::LessOrEqual, num(2.0)), ok_bool(true));
    assert_eq!(apply(num(3.0), Operator::LessOrEqual, num(2.0)), ok_bool(false));
    assert_eq!(apply(num(2.0), Operator::Greater, num(1.0)), ok_bool(true));
    assert_eq!(apply(num(1.0), Operator::Greater, num(1.0)), ok_bool(false));
    assert_eq!(apply(num(1.0), Operator::GreaterOrEqual, num(1.0)), ok_bool(true));
    assert_eq!(apply(num(1.0), Operator::GreaterOrEqual, num(2.0)), ok_bool(false));
    assert_eq!(apply(minus(num(1.0)), Operator::Less, num(0.5)), ok_bool(true));
    assert_eq!(apply(minus(num(1.0)), Operator::Less, minus(num(2.0))), ok_bool(false));
    assert_eq!(apply(minus(num(0.0)), Operator::Less, num(0.0)), ok_bool(false));
    assert_eq!(apply(minus(num(0.0)), Operator::GreaterOrEqual, num(0.0)), ok_bool(true));
}

#[test]
fn any_other_pair_is_not_in_order() {
    let operators =
        [Operator::Less, Operator::LessOrEqual, Operator::Greater, Operator::GreaterOrEqual];
    for operator in operators {
        assert_eq!(apply(num(1.0), operator, string("a")), ok_bool(false));
        assert_eq!(apply(string("a"), operator, num(1.0)), ok_bool(false));
        assert_eq!(apply(num(1.0), operator, boolean(true)), ok_bool(false));
        assert_eq!(apply(string("a"), operator, nil()), ok_bool(false));
        assert_eq!(apply(boolean(true), operator, boolean(true)), ok_bool(false));
        assert_eq!(apply(boolean(false), operator, num(1.0)), ok_bool(false));
        assert_eq!(apply(nil(), operator, nil()), ok_bool(false));
        assert_eq!(apply(nil(), operator, string("a")), ok_bool(false));
        assert_eq!(apply(bang(num(1.0)), operator, num(1.0)), ok_bool(false));
        assert_eq!(apply(num(1.0), operator, bang(num(1.0))), ok_bool(false));
    }
}

#[test]
fn five_negated_twice_is_five() {
    let twice = bang(bang(num(5.0)));
    assert_eq!(interpret_operation(&twice, &Floats), ok_num(5.0));
    let once = bang(num(5.0));
    assert_eq!(
        interpret_operation(&once, &Floats),
        Ok(InterpreterResult::Bang(Box::new(InterpreterResult::Num(number(5.0)))))
    );
    let text = bang(bang(string("a")));
    assert_eq!(interpret_operation(&text, &Floats), ok_str("a"));
    let thrice = bang(bang(bang(string("a"))));
    assert_eq!(
        interpret_operation(&thrice, &Floats),
        Ok(InterpreterResult::Bang(Box::new(InterpreterResult::Str("a".to_string()))))
    );
}

#[test]
fn an_operation_has_its_value_whether_it_is_binary_or_not() {
    assert_eq!(interpret_operation(&num(1.5), &Floats), ok_num(1.5));
    assert_eq!(interpret_operation(&minus(num(1.5)), &Floats), ok_num(-1.5));
    assert_eq!(interpret_operation(&bang(boolean(true)), &Floats), ok_bool(false));
    assert_eq!(interpret_operation(&nil(), &Floats), Ok(InterpreterResult::Nil));
    assert_eq!(
        interpret_operation(&binary(num(1.0), Operator::Add, num(2.0)), &Floats),
        ok_num(3.0)
    );
    assert_eq!(
        interpret_operation(&end(), &Floats),
        Err(InterpreterError::EofShouldNotBeInterpreted)
    );
    let lone = Expression::Function(Function::Operation(string("a")));
    assert_eq!(interpret_value(&lone, &Floats), ok_str("a"));
    assert_eq!(
        interpret_value(&Expression::Function(Function::Group(vec![lone])), &Floats),
        Err(InterpreterError::ExpressionNotHandled)
    );
}

#[test]
fn a_second_negation_gives_the_value_back_as_it_was() {
    // `!!5 + 0` is 5: the value came back as a number.
    assert_eq!(apply(bang(bang(num(5.0))), Operator::Add, num(0.0)), ok_num(5.0));
    assert_eq!(apply(bang(bang(string("a"))), Operator::Add, string("")), ok_str("a"));
    assert_eq!(apply(bang(bang(bang(bang(num(5.0))))), Operator::Multiply, num(1.0)), ok_num(5.0));
}

#[test]
fn a_boolean_is_flipped() {
    assert_eq!(apply(bang(boolean(true)), Operator::EqualEqual, boolean(false)), ok_bool(true));
    assert_eq!(apply(bang(boolean(false)), Operator::EqualEqual, boolean(true)), ok_bool(true));
    assert_eq!(apply(bang(bang(boolean(true))), Operator::EqualEqual, boolean(true)), ok_bool(true));
}

#[test]
fn nil_cannot_be_negated() {
    assert_eq!(apply(bang(nil()), Operator::EqualEqual, nil()), INVALID);
    assert_eq!(apply(nil(), Operator::EqualEqual, bang(nil())), INVALID);
    assert_eq!(interpret_operation(&bang(nil()), &Floats), INVALID);
}

#[test]
fn only_a_number_has_an_opposite() {
    assert_eq!(apply(minus(num(5.0)), Operator::Add, num(0.0)), ok_num(-5.0));
    assert_eq!(apply(minus(minus(num(5.0))), Operator::Add, num(0.0)), ok_num(5.0));
    assert_eq!(apply(minus(string("a")), Operator::Add, num(0.0)), INVALID);
    assert_eq!(apply(minus(boolean(true)), Operator::Add, num(0.0)), INVALID);
    assert_eq!(apply(minus(nil()), Operator::Add, num(0.0)), INVALID);
    assert_eq!(apply(minus(bang(num(1.0))), Operator::Add, num(0.0)), INVALID);
}

#[test]
fn the_end_of_input_has_no_value() {
    let error = Err(InterpreterError::EofShouldNotBeInterpreted);
    assert_eq!(apply(num(1.0), Operator::Add, end()), error);
    assert_eq!(apply(end(), Operator::Add, num(1.0)), error);
    assert_eq!(apply(bang(end()), Operator::Add, num(1.0)), error);
    assert_eq!(apply(minus(end()), Operator::Add, num(1.0)), error);
}

#[test]
fn the_error_of_the_left_operand_comes_first() {
    assert_eq!(
        apply(minus(string("a")), Operator::Add, end()),
        Err(InterpreterError::InvalidOperationValues)
    );
    assert_eq!(
        apply(end(), Operator::Add, minus(string("a"))),
        Err(InterpreterError::EofShouldNotBeInterpreted)
    );
}

#[test]
fn only_a_binary_operation_is_evaluated() {
    let error = Err(InterpreterError::ExpressionNotHandled);
    assert_eq!(evaluate(num(1.0)), error);
    assert_eq!(evaluate(bang(boolean(true))), error);
    assert_eq!(evaluate(end()), error);
    assert_eq!(interpret_expression(&Expression::Function(Function::Group(vec![])), &Floats), error);
    assert_eq!(
        interpret_expression(
            &Expression::Function(Function::Call("moveUp".to_string(), vec![])),
            &Floats
        ),
        error
    );
}

#[test]
fn operations_nest() {
    let left = binary(num(1.0), Operator::Add, num(2.0));
    let right = binary(num(10.0), Operator::Minus, num(4.0));
    assert_eq!(apply(left.clone(), Operator::Multiply, right.clone()), ok_num(18.0));
    assert_eq!(apply(left, Operator::Less, right), ok_bool(true));
}

#[test]
fn one_plus_two_times_three_is_nine() {
    assert_eq!(first_of("1+2*3"), ok_num(9.0));
}

#[test]
fn a_line_is_evaluated_from_left_to_right() {
    assert_eq!(first_of("8/4/2"), ok_num(1.0));
    assert_eq!(first_of("2-3-4"), ok_num(-5.0));
    assert_eq!(first_of("1+2==3"), ok_bool(true));
    assert_eq!(first_of("1<2==true"), ok_bool(true));
    assert_eq!(first_of("\"a\"+1+2"), ok_str("\"a12"));
    assert_eq!(first_of("1+2+\"a\""), ok_str("3\"a"));
    assert_eq!(first_of("!!5 + 1"), ok_num(6.0));
    assert_eq!(first_of("-5 + 1"), ok_num(-4.0));
    assert_eq!(first_of("1.5 * 2"), ok_num(3.0));
}
