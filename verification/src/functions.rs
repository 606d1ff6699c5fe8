//! The table of callable functions and the dispatch of a call.
//!
//! A function is native, an operation of the game, or scripted, a list of
//! expressions. The table is an ordinary value that its owner hands to
//! whoever looks a name up.

use vstd::prelude::*;
use vstd::string::StringExecFns;
use crate::game_state::{BreakError, Direction, GameState, MoveError};
use crate::grammar::{Expression, ExpressionView, Function, Operation, Primary, Unary, views_of};
use crate::interpreter::{
    expression_yields,
    interpret_expression,
    interpret_value,
    value_yields,
    InterpreterError,
    InterpreterResult,
    Value,
};
use crate::number::Arithmetic;
use crate::text::{characters_of, same_characters, starts_with};

verus! {

/// The operations of the game that a command can call.
#[derive(Clone, Copy, Debug, PartialEq, Eq, Structural)]
pub enum NativeFunction {
    MoveDown,
    MoveUp,
    MoveLeft,
    MoveRight,
    ZoomOut,
    ZoomIn,
    Loot,
    BreakDown,
    BreakUp,
    BreakLeft,
    BreakRight,
    Inventory,
}

/// What a function does when it is called.
#[derive(Clone, Debug, PartialEq)]
pub enum InstructionsDef {
    Expressions(Vec<Expression>),
    NativeFunction(NativeFunction),
}

/// A callable function: its name, the names of its parameters and what it does.
#[derive(Clone, Debug, PartialEq)]
pub struct FunctionDef {
    pub name: String,
    pub arguments: Vec<String>,
    pub instructions: InstructionsDef,
}

/// Why a call failed.
#[derive(Clone, Copy, Debug, PartialEq, Eq, Structural)]
pub enum FunctionError {
    ExpectedArgumentsCount(usize),
    PlayerMoveError(MoveError),
    BreakSomethingError(BreakError),
    NothingToLoot,
    /// No function of the called name is in the table.
    NoMatchingFunction,
}

/// Whether a function matches what has been typed: one of the function's name
/// and the typed text begins with the other.
pub open spec fn matches_input(definition: FunctionDef, input: Seq<char>) -> bool {
    input.is_prefix_of(definition.name@) || definition.name@.is_prefix_of(input)
}

/// The text that completes a function's name to a call: with both
/// parentheses where the function takes no argument, with the opening one
/// where it takes some.
pub open spec fn completion(definition: FunctionDef) -> Seq<char> {
    definition.name@ + if definition.arguments@.len() == 0 {
        "()"@
    } else {
        "("@
    }
}

impl FunctionDef {
    /// Whether what has been typed can still become this function's name, or
    /// already goes on behind it.
    pub fn is_matching(&self, input_string: String) -> (matching: bool)
        ensures
            matching == matches_input(*self, input_string@),
    {
        let name = characters_of(self.name.as_str());
        let input = characters_of(input_string.as_str());
        if starts_with(&name, &input) || starts_with(&input, &name) {
            return true;
        }
        false
    }

    /// The text that completes the name to a call.
    pub fn to_complete_string(&self) -> (text: String)
        ensures
            text@ == completion(*self),
    {
        if self.arguments.len() == 0 {
            self.name.clone().concat("()")
        } else {
            self.name.clone().concat("(")
        }
    }
}

/// Why the evaluation of an expression failed: in the interpreter, or in a
/// function that it called.
#[derive(Clone, Copy, Debug, PartialEq, Eq, Structural)]
pub enum EvaluationError {
    Interpreter(InterpreterError),
    Function(FunctionError),
}

/// The outcome of a call, with the value as a mathematical value.
pub open spec fn function_outcome(result: Result<InterpreterResult, FunctionError>) -> Result<
    Value,
    FunctionError,
> {
    match result {
        Ok(value) => Ok(value@),
        Err(error) => Err(error),
    }
}

/// The outcome of an evaluation, with the value as a mathematical value.
pub open spec fn evaluation_outcome(result: Result<InterpreterResult, EvaluationError>) -> Result<
    Value,
    EvaluationError,
> {
    match result {
        Ok(value) => Ok(value@),
        Err(error) => Err(error),
    }
}

/// Whether `out` is an outcome of a move command with `count` arguments:
/// with an argument the refusal, without one the game's answer.
pub open spec fn move_yields<G: GameState>(
    game: &G,
    count: nat,
    direction: Direction,
    out: Result<Value, FunctionError>,
) -> bool {
    if count > 0 {
        out == Err::<Value, FunctionError>(FunctionError::ExpectedArgumentsCount(0))
    } else {
        exists|outcome: Result<(), MoveError>| #[trigger]
            call_ensures(G::may_move_player, (game, direction), outcome) && out == match outcome {
                Ok(_) => Ok::<Value, FunctionError>(Value::Nil),
                Err(error) => Err::<Value, FunctionError>(FunctionError::PlayerMoveError(error)),
            }
    }
}

/// Whether `out` is an outcome of a break command with `count` arguments:
/// with an argument the refusal, without one the game's answer.
pub open spec fn break_yields<G: GameState>(
    game: &G,
    count: nat,
    direction: Direction,
    out: Result<Value, FunctionError>,
) -> bool {
    if count > 0 {
        out == Err::<Value, FunctionError>(FunctionError::ExpectedArgumentsCount(0))
    } else {
        exists|outcome: Result<(), BreakError>| #[trigger]
            call_ensures(G::may_break_something, (game, direction), outcome) && out
                == match outcome {
                Ok(_) => Ok::<Value, FunctionError>(Value::Nil),
                Err(error) => Err::<Value, FunctionError>(
                    FunctionError::BreakSomethingError(error),
                ),
            }
    }
}

/// Whether `out` is an outcome of the loot command with `count` arguments:
/// with an argument the refusal, without one nil where the game found
/// something to pick up.
pub open spec fn loot_yields<G: GameState>(
    game: &G,
    count: nat,
    out: Result<Value, FunctionError>,
) -> bool {
    if count > 0 {
        out == Err::<Value, FunctionError>(FunctionError::ExpectedArgumentsCount(0))
    } else {
        exists|found: bool| #[trigger]
            call_ensures(G::loot, (game,), found) && out == if found {
                Ok::<Value, FunctionError>(Value::Nil)
            } else {
                Err::<Value, FunctionError>(FunctionError::NothingToLoot)
            }
    }
}

/// Whether `out` is an outcome of the command to zoom out with `count`
/// arguments: with an argument the refusal, without one nil, once the game
/// has zoomed.
pub open spec fn zoom_out_yields<G: GameState>(
    game: &G,
    count: nat,
    out: Result<Value, FunctionError>,
) -> bool {
    if count > 0 {
        out == Err::<Value, FunctionError>(FunctionError::ExpectedArgumentsCount(0))
    } else {
        call_ensures(G::zoom_out, (game,), ()) && out == Ok::<Value, FunctionError>(Value::Nil)
    }
}

/// Whether `out` is an outcome of the command to zoom in with `count` arguments.
pub open spec fn zoom_in_yields<G: GameState>(
    game: &G,
    count: nat,
    out: Result<Value, FunctionError>,
) -> bool {
    if count > 0 {
        out == Err::<Value, FunctionError>(FunctionError::ExpectedArgumentsCount(0))
    } else {
        call_ensures(G::zoom_in, (game,), ()) && out == Ok::<Value, FunctionError>(Value::Nil)
    }
}

/// Whether `out` is an outcome of the inventory command: nil, once the game
/// has toggled the inventory, whatever the arguments.
pub open spec fn inventory_yields<G: GameState>(game: &G, out: Result<Value, FunctionError>) -> bool {
    call_ensures(G::toggle_inventory, (game,), ()) && out == Ok::<Value, FunctionError>(
        Value::Nil,
    )
}

/// Whether `out` is an outcome of the native function `native` called with
/// `count` arguments. Every native function but the inventory's refuses
/// arguments.
pub open spec fn native_yields<G: GameState>(
    game: &G,
    native: NativeFunction,
    count: nat,
    out: Result<Value, FunctionError>,
) -> bool {
    match native {
        NativeFunction::MoveDown => move_yields(game, count, Direction::Down, out),
        NativeFunction::MoveUp => move_yields(game, count, Direction::Up, out),
        NativeFunction::MoveLeft => move_yields(game, count, Direction::Left, out),
        NativeFunction::MoveRight => move_yields(game, count, Direction::Right, out),
        NativeFunction::BreakDown => break_yields(game, count, Direction::Down, out),
        NativeFunction::BreakUp => break_yields(game, count, Direction::Up, out),
        NativeFunction::BreakLeft => break_yields(game, count, Direction::Left, out),
        NativeFunction::BreakRight => break_yields(game, count, Direction::Right, out),
        NativeFunction::ZoomOut => zoom_out_yields(game, count, out),
        NativeFunction::ZoomIn => zoom_in_yields(game, count, out),
        NativeFunction::Loot => loot_yields(game, count, out),
        NativeFunction::Inventory => inventory_yields(game, out),
    }
}

fn expected_empty_arguments(arguments: &Vec<InterpreterResult>) -> (result: Result<
    (),
    FunctionError,
>)
    ensures
        result == if arguments@.len() > 0 {
            Err::<(), FunctionError>(FunctionError::ExpectedArgumentsCount(0))
        } else {
            Ok::<(), FunctionError>(())
        },
{
    if arguments.len() != 0 {
        return Err(FunctionError::ExpectedArgumentsCount(0));
    }
    Ok(())
}

fn move_down<G: GameState>(arguments: &Vec<InterpreterResult>, game: &G) -> (result: Result<
    InterpreterResult,
    FunctionError,
>)
    ensures
        move_yields(game, arguments@.len(), Direction::Down, function_outcome(result)),
{
    move_player(arguments, Direction::Down, game)
}

fn move_up<G: GameState>(arguments: &Vec<InterpreterResult>, game: &G) -> (result: Result<
    InterpreterResult,
    FunctionError,
>)
    ensures
        move_yields(game, arguments@.len(), Direction::Up, function_outcome(result)),
{
    move_player(arguments, Direction::Up, game)
}

fn move_left<G: GameState>(arguments: &Vec<InterpreterResult>, game: &G) -> (result: Result<
    InterpreterResult,
    FunctionError,
>)
    ensures
        move_yields(game, arguments@.len(), Direction::Left, function_outcome(result)),
{
    move_player(arguments, Direction::Left, game)
}

fn move_right<G: GameState>(arguments: &Vec<InterpreterResult>, game: &G) -> (result: Result<
    InterpreterResult,
    FunctionError,
>)
    ensures
        move_yields(game, arguments@.len(), Direction::Right, function_outcome(result)),
{
    move_player(arguments, Direction::Right, game)
}

fn move_player<G: GameState>(
    arguments: &Vec<InterpreterResult>,
    direction: Direction,
    game: &G,
) -> (result: Result<InterpreterResult, FunctionError>)
    ensures
        move_yields(game, arguments@.len(), direction, function_outcome(result)),
{
    expected_empty_arguments(arguments)?;
    let outcome = game.may_move_player(direction);
    match outcome {
        Ok(_) => Ok(InterpreterResult::Nil),
        Err(error) => Err(FunctionError::PlayerMoveError(error)),
    }
}

fn break_down<G: GameState>(arguments: &Vec<InterpreterResult>, game: &G) -> (result: Result<
    InterpreterResult,
    FunctionError,
>)
    ensures
        break_yields(game, arguments@.len(), Direction::Down, function_outcome(result)),
{
    break_something(arguments, Direction::Down, game)
}

fn break_up<G: GameState>(arguments: &Vec<InterpreterResult>, game: &G) -> (result: Result<
    InterpreterResult,
    FunctionError,
>)
    ensures
        break_yields(game, arguments@.len(), Direction::Up, function_outcome(result)),
{
    break_something(arguments, Direction::Up, game)
}

fn break_left<G: GameState>(arguments: &Vec<InterpreterResult>, game: &G) -> (result: Result<
    InterpreterResult,
    FunctionError,
>)
    ensures
        break_yields(game, arguments@.len(), Direction::Left, function_outcome(result)),
{
    break_something(arguments, Direction::Left, game)
}

fn break_right<G: GameState>(arguments: &Vec<InterpreterResult>, game: &G) -> (result: Result<
    InterpreterResult,
    FunctionError,
>)
    ensures
        break_yields(game, arguments@.len(), Direction::Right, function_outcome(result)),
{
    break_something(arguments, Direction::Right, game)
}

fn inventory<G: GameState>(arguments: &Vec<InterpreterResult>, game: &G) -> (result: Result<
    InterpreterResult,
    FunctionError,
>)
    ensures
        inventory_yields(game, function_outcome(result)),
{
    game.toggle_inventory();
    Ok(InterpreterResult::Nil)
}

fn break_something<G: GameState>(
    arguments: &Vec<InterpreterResult>,
    direction: Direction,
    game: &G,
) -> (result: Result<InterpreterResult, FunctionError>)
    ensures
        break_yields(game, arguments@.len(), direction, function_outcome(result)),
{
    expected_empty_arguments(arguments)?;
    let outcome = game.may_break_something(direction);
    match outcome {
        Ok(_) => Ok(InterpreterResult::Nil),
        Err(error) => Err(FunctionError::BreakSomethingError(error)),
    }
}

fn zoom_out<G: GameState>(arguments: &Vec<InterpreterResult>, game: &G) -> (result: Result<
    InterpreterResult,
    FunctionError,
>)
    ensures
        zoom_out_yields(game, arguments@.len(), function_outcome(result)),
{
    expected_empty_arguments(arguments)?;
    game.zoom_out();
    Ok(InterpreterResult::Nil)
}

fn zoom_in<G: GameState>(arguments: &Vec<InterpreterResult>, game: &G) -> (result: Result<
    InterpreterResult,
    FunctionError,
>)
    ensures
        zoom_in_yields(game, arguments@.len(), function_outcome(result)),
{
    expected_empty_arguments(arguments)?;
    game.zoom_in();
    Ok(InterpreterResult::Nil)
}

fn loot<G: GameState>(arguments: &Vec<InterpreterResult>, game: &G) -> (result: Result<
    InterpreterResult,
    FunctionError,
>)
    ensures
        loot_yields(game, arguments@.len(), function_outcome(result)),
{
    expected_empty_arguments(arguments)?;
    let found = game.loot();
    if found {
        Ok(InterpreterResult::Nil)
    } else {
        Err(FunctionError::NothingToLoot)
    }
}

/// Calls a native function with the values of its arguments.
pub fn call_native<G: GameState>(
    native: NativeFunction,
    arguments: &Vec<InterpreterResult>,
    game: &G,
) -> (result: Result<InterpreterResult, FunctionError>)
    ensures
        native_yields(game, native, arguments@.len(), function_outcome(result)),
{
    match native {
        NativeFunction::MoveDown => move_down(arguments, game),
        NativeFunction::MoveUp => move_up(arguments, game),
        NativeFunction::MoveLeft => move_left(arguments, game),
        NativeFunction::MoveRight => move_right(arguments, game),
        NativeFunction::ZoomOut => zoom_out(arguments, game),
        NativeFunction::ZoomIn => zoom_in(arguments, game),
        NativeFunction::Loot => loot(arguments, game),
        NativeFunction::BreakDown => break_down(arguments, game),
        NativeFunction::BreakUp => break_up(arguments, game),
        NativeFunction::BreakLeft => break_left(arguments, game),
        NativeFunction::BreakRight => break_right(arguments, game),
        NativeFunction::Inventory => inventory(arguments, game),
    }
}

/// Whether `index` is the place of the first function of the given name.
pub open spec fn is_first_named(functions: Seq<FunctionDef>, name: Seq<char>, index: int) -> bool {
    &&& 0 <= index < functions.len()
    &&& functions[index].name@ == name
    &&& forall|earlier: int| 0 <= earlier < index ==> (#[trigger] functions[earlier]).name@ != name
}

/// Whether the table holds a function of the given name.
pub open spec fn is_registered(functions: Seq<FunctionDef>, name: Seq<char>) -> bool {
    exists|index: int| 0 <= index < functions.len() && (#[trigger] functions[index]).name@ == name
}

/// The place in the table of the first function of the given name.
pub fn find_function(functions: &Vec<FunctionDef>, name: &str) -> (found: Option<usize>)
    ensures
        match found {
            Some(index) => is_first_named(functions@, name@, index as int),
            None => !is_registered(functions@, name@),
        },
{
    let wanted = characters_of(name);
    let mut index: usize = 0;
    while index < functions.len()
        invariant
            index <= functions.len(),
            wanted@ == name@,
            forall|earlier: int|
                0 <= earlier < index ==> (#[trigger] functions@[earlier]).name@ != name@,
        decreases functions.len() - index,
    {
        let candidate = characters_of(functions[index].name.as_str());
        if same_characters(&candidate, &wanted) {
            return Some(index);
        }
        index += 1;
    }
    None
}

/// Whether `out` is an outcome of evaluating the expressions one by one:
/// the values of them all, or the error of one whose predecessors all have a
/// value.
pub open spec fn all_yield<A: Arithmetic>(
    arithmetic: &A,
    expressions: Seq<ExpressionView>,
    out: Result<Seq<Value>, InterpreterError>,
) -> bool {
    match out {
        Ok(values) => {
            &&& values.len() == expressions.len()
            &&& forall|i: int|
                0 <= i < expressions.len() ==> value_yields(
                    arithmetic,
                    expressions[i],
                    Ok(#[trigger] values[i]),
                )
        },
        Err(error) => exists|failed: int|
            {
                &&& 0 <= failed < expressions.len()
                &&& #[trigger] value_yields(arithmetic, expressions[failed], Err(error))
                &&& forall|i: int|
                    0 <= i < failed ==> has_value(arithmetic, #[trigger] expressions[i])
            },
    }
}

/// Whether an evaluation of the expression gave a value.
pub open spec fn has_value<A: Arithmetic>(arithmetic: &A, expression: ExpressionView) -> bool {
    exists|value: Value| #[trigger] value_yields(arithmetic, expression, Ok(value))
}

/// Evaluates the expressions from left to right, up to the first that fails.
fn interpret_all<A: Arithmetic>(expressions: &Vec<Expression>, arithmetic: &A) -> (result: Result<
    Vec<InterpreterResult>,
    InterpreterError,
>)
    ensures
        all_yield(
            arithmetic,
            views_of(expressions@),
            match result {
                Ok(values) => Ok(Seq::new(values@.len(), |i: int| values@[i]@)),
                Err(error) => Err(error),
            },
        ),
{
    let mut values: Vec<InterpreterResult> = Vec::new();
    let mut index: usize = 0;
    while index < expressions.len()
        invariant
            index <= expressions.len(),
            values@.len() == index,
            forall|i: int|
                0 <= i < index ==> value_yields(
                    arithmetic,
                    views_of(expressions@)[i],
                    Ok((#[trigger] values@[i])@),
                ),
        decreases expressions.len() - index,
    {
        match interpret_value(&expressions[index], arithmetic) {
            Ok(value) => {
                values.push(value);
            },
            Err(error) => {
                proof {
                    let views = views_of(expressions@);
                    assert(value_yields(arithmetic, views[index as int], Err(error)));
                    assert forall|i: int| 0 <= i < index implies has_value(
                        arithmetic,
                        #[trigger] views[i],
                    ) by {
                        assert(value_yields(arithmetic, views[i], Ok(values@[i]@)));
                    }
                }
                return Err(error);
            },
        }
        index += 1;
    }
    Ok(values)
}

/// The value of a list of values as a whole: its last, or nil where it has none.
pub open spec fn last_or_nil(values: Seq<Value>) -> Value {
    if values.len() == 0 {
        Value::Nil
    } else {
        values.last()
    }
}

/// Whether `out` is an outcome of calling `definition` with the given
/// arguments. A native function gets the values of its arguments, which are
/// evaluated first; a scripted function's expressions are evaluated in
/// order, and the value of the last one is the value of the call.
pub open spec fn definition_yields<A: Arithmetic, G: GameState>(
    arithmetic: &A,
    game: &G,
    definition: FunctionDef,
    arguments: Seq<ExpressionView>,
    out: Result<Value, EvaluationError>,
) -> bool {
    match definition.instructions {
        InstructionsDef::NativeFunction(native) => exists|
            values: Result<Seq<Value>, InterpreterError>,
        | #[trigger]
            all_yield(arithmetic, arguments, values) && match values {
                Err(error) => out == Err::<Value, EvaluationError>(
                    EvaluationError::Interpreter(error),
                ),
                Ok(values) => match out {
                    Ok(value) => native_yields(game, native, values.len(), Ok(value)),
                    Err(EvaluationError::Function(error)) => native_yields(
                        game,
                        native,
                        values.len(),
                        Err(error),
                    ),
                    Err(EvaluationError::Interpreter(_)) => false,
                },
            },
        InstructionsDef::Expressions(body) => exists|values: Result<Seq<Value>, InterpreterError>| #[trigger]
            all_yield(arithmetic, views_of(body@), values) && out == match values {
                Err(error) => Err::<Value, EvaluationError>(EvaluationError::Interpreter(error)),
                Ok(values) => Ok::<Value, EvaluationError>(last_or_nil(values)),
            },
    }
}

/// Whether `out` is an outcome of calling the function `name` of the table:
/// that of the first function of that name, or the failure to find one.
pub open spec fn call_yields<A: Arithmetic, G: GameState>(
    arithmetic: &A,
    game: &G,
    functions: Seq<FunctionDef>,
    name: Seq<char>,
    arguments: Seq<ExpressionView>,
    out: Result<Value, EvaluationError>,
) -> bool {
    if is_registered(functions, name) {
        exists|index: int| #[trigger]
            is_first_named(functions, name, index) && definition_yields(
                arithmetic,
                game,
                functions[index],
                arguments,
                out,
            )
    } else {
        out == Err::<Value, EvaluationError>(
            EvaluationError::Function(FunctionError::NoMatchingFunction),
        )
    }
}

/// Calls the function `name` of the table with the given arguments.
pub fn call_function<A: Arithmetic, G: GameState>(
    functions: &Vec<FunctionDef>,
    name: &str,
    arguments: &Vec<Expression>,
    arithmetic: &A,
    game: &G,
) -> (result: Result<InterpreterResult, EvaluationError>)
    ensures
        call_yields(
            arithmetic,
            game,
            functions@,
            name@,
            views_of(arguments@),
            evaluation_outcome(result),
        ),
{
    let index = match find_function(functions, name) {
        Some(index) => index,
        None => return Err(EvaluationError::Function(FunctionError::NoMatchingFunction)),
    };
    assert(is_registered(functions@, name@));
    let definition = &functions[index];
    match &definition.instructions {
        InstructionsDef::NativeFunction(native) => {
            let values = match interpret_all(arguments, arithmetic) {
                Ok(values) => values,
                Err(error) => {
                    assert(all_yield(
                        arithmetic,
                        views_of(arguments@),
                        Err::<Seq<Value>, InterpreterError>(error),
                    ));
                    return Err(EvaluationError::Interpreter(error));
                },
            };
            let ghost seen = Seq::new(values@.len(), |i: int| values@[i]@);
            assert(all_yield(
                arithmetic,
                views_of(arguments@),
                Ok::<Seq<Value>, InterpreterError>(seen),
            ));
            match call_native(*native, &values, game) {
                Ok(value) => Ok(value),
                Err(error) => Err(EvaluationError::Function(error)),
            }
        },
        InstructionsDef::Expressions(body) => {
            match interpret_all(body, arithmetic) {
                Ok(mut values) => {
                    let ghost seen = Seq::new(values@.len(), |i: int| values@[i]@);
                    assert(all_yield(
                        arithmetic,
                        views_of(body@),
                        Ok::<Seq<Value>, InterpreterError>(seen),
                    ));
                    match values.pop() {
                        Some(value) => Ok(value),
                        None => Ok(InterpreterResult::Nil),
                    }
                },
                Err(error) => {
                    assert(all_yield(
                        arithmetic,
                        views_of(body@),
                        Err::<Seq<Value>, InterpreterError>(error),
                    ));
                    Err(EvaluationError::Interpreter(error))
                },
            }
        },
    }
}

/// Whether `out` is an outcome of evaluating `expression`: that of the call,
/// where it is one, else that of the interpreter.
pub open spec fn evaluation_yields<A: Arithmetic, G: GameState>(
    arithmetic: &A,
    game: &G,
    functions: Seq<FunctionDef>,
    expression: ExpressionView,
    out: Result<Value, EvaluationError>,
) -> bool {
    match expression {
        ExpressionView::Call(name, arguments) => call_yields(
            arithmetic,
            game,
            functions,
            name@,
            arguments,
            out,
        ),
        _ => match out {
            Ok(value) => expression_yields(arithmetic, expression, Ok(value)),
            Err(EvaluationError::Interpreter(error)) => expression_yields(
                arithmetic,
                expression,
                Err(error),
            ),
            Err(EvaluationError::Function(_)) => false,
        },
    }
}

/// Evaluates an expression of a line: a call through the table, anything
/// else through the interpreter.
pub fn evaluate<A: Arithmetic, G: GameState>(
    expression: &Expression,
    functions: &Vec<FunctionDef>,
    arithmetic: &A,
    game: &G,
) -> (result: Result<InterpreterResult, EvaluationError>)
    ensures
        evaluation_yields(arithmetic, game, functions@, expression@, evaluation_outcome(result)),
{
    match expression {
        Expression::Function(Function::Call(name, arguments)) => call_function(
            functions,
            name.as_str(),
            arguments,
            arithmetic,
            game,
        ),
        _ => match interpret_expression(expression, arithmetic) {
            Ok(value) => Ok(value),
            Err(error) => Err(EvaluationError::Interpreter(error)),
        },
    }
}

/// The names of the functions that the table holds from the start, in its order.
pub open spec fn startup_names() -> Seq<Seq<char>> {
    seq![
        "test"@,
        "moveDown"@,
        "moveUp"@,
        "moveLeft"@,
        "moveRight"@,
        "zoomOut"@,
        "zoomIn"@,
        "loot"@,
        "breakDown"@,
        "breakUp"@,
        "breakLeft"@,
        "breakRight"@,
        "inventory"@,
    ]
}

/// What the functions of the start do, in the table's order: the first is
/// scripted, the others are these native functions.
pub open spec fn startup_natives() -> Seq<Option<NativeFunction>> {
    seq![
        None,
        Some(NativeFunction::MoveDown),
        Some(NativeFunction::MoveUp),
        Some(NativeFunction::MoveLeft),
        Some(NativeFunction::MoveRight),
        Some(NativeFunction::ZoomOut),
        Some(NativeFunction::ZoomIn),
        Some(NativeFunction::Loot),
        Some(NativeFunction::BreakDown),
        Some(NativeFunction::BreakUp),
        Some(NativeFunction::BreakLeft),
        Some(NativeFunction::BreakRight),
        Some(NativeFunction::Inventory),
    ]
}

/// Whether a function is the one that stands at `index` in the table of the
/// start: it has the name of that place and no parameter; the scripted one
/// is the single string `Working`.
pub open spec fn is_startup_function(definition: FunctionDef, index: int) -> bool {
    &&& definition.name@ == startup_names()[index]
    &&& definition.arguments@.len() == 0
    &&& match startup_natives()[index] {
        Some(native) => definition.instructions == InstructionsDef::NativeFunction(native),
        None => {
            &&& definition.instructions matches InstructionsDef::Expressions(body)
            &&& body@.len() == 1
            &&& body@[0]@ matches ExpressionView::Operation(
                Operation::Unary(Unary::Primary(Primary::Str(text))),
            )
            &&& text@ == "Working"@
        },
    }
}

/// A native function without parameters.
fn native_function(name: &str, native: NativeFunction) -> (definition: FunctionDef)
    ensures
        definition.name@ == name@,
        definition.arguments@.len() == 0,
        definition.instructions == InstructionsDef::NativeFunction(native),
{
    FunctionDef {
        name: String::from_str(name),
        arguments: Vec::new(),
        instructions: InstructionsDef::NativeFunction(native),
    }
}

/// The table of functions as it is at the start.
pub fn functions() -> (table: Vec<FunctionDef>)
    ensures
        table@.len() == startup_names().len(),
        forall|index: int|
            0 <= index < table@.len() ==> is_startup_function(#[trigger] table@[index], index),
{
    let mut body: Vec<Expression> = Vec::new();
    body.push(
        Expression::Function(
            Function::Operation(
                Operation::Unary(Unary::Primary(Primary::Str(String::from_str("Working")))),
            ),
        ),
    );
    let mut table: Vec<FunctionDef> = Vec::new();
    table.push(
        FunctionDef {
            name: String::from_str("test"),
            arguments: Vec::new(),
            instructions: InstructionsDef::Expressions(body),
        },
    );
    table.push(native_function("moveDown", NativeFunction::MoveDown));
    table.push(native_function("moveUp", NativeFunction::MoveUp));
    table.push(native_function("moveLeft", NativeFunction::MoveLeft));
    table.push(native_function("moveRight", NativeFunction::MoveRight));
    table.push(native_function("zoomOut", NativeFunction::ZoomOut));
    table.push(native_function("zoomIn", NativeFunction::ZoomIn));
    table.push(native_function("loot", NativeFunction::Loot));
    table.push(native_function("breakDown", NativeFunction::BreakDown));
    table.push(native_function("breakUp", NativeFunction::BreakUp));
    table.push(native_function("breakLeft", NativeFunction::BreakLeft));
    table.push(native_function("breakRight", NativeFunction::BreakRight));
    table.push(native_function("inventory", NativeFunction::Inventory));
    table
}

/// The completions of the functions that match what has been typed, in the
/// table's order.
pub open spec fn completions(functions: Seq<FunctionDef>, input: Seq<char>) -> Seq<Seq<char>>
    decreases functions.len(),
{
    if functions.len() == 0 {
        Seq::empty()
    } else if matches_input(functions.last(), input) {
        completions(functions.drop_last(), input).push(completion(functions.last()))
    } else {
        completions(functions.drop_last(), input)
    }
}

/// What is offered is the completion of every function that matches, and of
/// no other.
pub proof fn lemma_completions(functions: Seq<FunctionDef>, input: Seq<char>)
    ensures
        forall|index: int|
            0 <= index < functions.len() && matches_input(#[trigger] functions[index], input)
                ==> completions(functions, input).contains(completion(functions[index])),
        forall|text: Seq<char>| #[trigger]
            completions(functions, input).contains(text) ==> exists|index: int|
                0 <= index < functions.len() && matches_input(#[trigger] functions[index], input)
                    && completion(functions[index]) == text,
    decreases functions.len(),
{
    if functions.len() > 0 {
        let earlier = functions.drop_last();
        let last = functions.last();
        let offered = completions(functions, input);
        lemma_completions(earlier, input);
        assert forall|index: int|
            0 <= index < functions.len() && matches_input(
                #[trigger] functions[index],
                input,
            ) implies offered.contains(completion(functions[index])) by {
            if index < functions.len() - 1 {
                assert(functions[index] == earlier[index]);
                let text = completion(earlier[index]);
                assert(completions(earlier, input).contains(text));
                let place = choose|place: int|
                    0 <= place < completions(earlier, input).len() && completions(
                        earlier,
                        input,
                    )[place] == text;
                assert(offered[place] == text);
            } else {
                assert(offered.last() == completion(last));
            }
        }
        assert forall|text: Seq<char>| #[trigger] offered.contains(text) implies exists|index: int|
            0 <= index < functions.len() && matches_input(#[trigger] functions[index], input)
                && completion(functions[index]) == text by {
            let place = choose|place: int| 0 <= place < offered.len() && offered[place] == text;
            if place < completions(earlier, input).len() {
                assert(completions(earlier, input)[place] == text);
                assert(completions(earlier, input).contains(text));
                let index = choose|index: int|
                    0 <= index < earlier.len() && matches_input(#[trigger] earlier[index], input)
                        && completion(earlier[index]) == text;
                assert(functions[index] == earlier[index]);
            } else {
                assert(matches_input(functions[functions.len() - 1], input));
            }
        }
    }
}

/// The texts of a list of strings.
pub open spec fn texts(strings: Seq<String>) -> Seq<Seq<char>> {
    Seq::new(strings.len(), |i: int| strings[i]@)
}

/// What the console offers to complete the typed text with.
pub fn get_completions(functions: &Vec<FunctionDef>, current_token: &str) -> (offered: Vec<String>)
    ensures
        texts(offered@) == completions(functions@, current_token@),
{
    let mut offered: Vec<String> = Vec::new();
    let mut index: usize = 0;
    assert(functions@.take(0) =~= Seq::empty());
    assert(texts(offered@) =~= Seq::empty());
    while index < functions.len()
        invariant
            index <= functions.len(),
            texts(offered@) == completions(functions@.take(index as int), current_token@),
        decreases functions.len() - index,
    {
        let function = &functions[index];
        assert(functions@.take(index + 1).drop_last() =~= functions@.take(index as int));
        if function.is_matching(String::from_str(current_token)) {
            let ghost before = offered@;
            let text = function.to_complete_string();
            offered.push(text);
            assert(texts(offered@) =~= texts(before).push(completion(*function)));
        }
        index += 1;
    }
    assert(functions@.take(index as int) =~= functions@);
    offered
}

} // verus!
