use std::cell::RefCell;

use coding_survivor::console::{
    editor_error_message, editor_result_message, get_current_token, history_lines,
    parse_error_message, process_key, process_prompt, resolve_history_text_format, special_key,
    tokenizer_error_message, EditorState, HistoryColor, Submission, ARROW_UP, BACKSPACE,
    CARRIAGE_RETURN, CHARACTER_WIDTH,
};
use coding_survivor::functions::{functions, EvaluationError, FunctionError};
use coding_survivor::game_state::{BreakError, Direction, GameState, MoveError};
use coding_survivor::grammar::AstParseError;
use coding_survivor::interpreter::{InterpreterError, InterpreterResult};
use coding_survivor::number::{Arithmetic, Number};
use coding_survivor::tokenizer::TokenizerError;

struct Floats;

impl Arithmetic for Floats {
    fn parse(&self, literal: &str) -> Number {
        Number { bits: literal.parse::<f64>().expect("a decimal literal").to_bits() }
    }

    fn add(&self, left: Number, right: Number) -> Number {
        Number { bits: (f64::from_bits(left.bits) + f64::from_bits(right.bits)).to_bits() }
    }

    fn subtract(&self, left: Number, right: Number) -> Number {
        Number { bits: (f64::from_bits(left.bits) - f64::from_bits(right.bits)).to_bits() }
    }

    fn multiply(&self, left: Number, right: Number) -> Number {
        Number { bits: (f64::from_bits(left.bits) * f64::from_bits(right.bits)).to_bits() }
    }

    fn divide(&self, left: Number, right: Number) -> Number {
        Number { bits: (f64::from_bits(left.bits) / f64::from_bits(right.bits)).to_bits() }
    }

    fn format(&self, value: Number) -> String {
        f64::from_bits(value.bits).to_string()
    }
}

/// A game in which the player walks into a wall whatever the direction.
struct Walled {
    asked: RefCell<Vec<Direction>>,
}

impl GameState for Walled {
    fn may_move_player(&self, direction: Direction) -> Result<(), MoveError> {
        self.asked.borrow_mut().push(direction);
        Err(MoveError::HitWall)
    }

    fn may_break_something(&self, _direction: Direction) -> Result<(), BreakError> {
        Err(BreakError::Nothing)
    }

    fn toggle_inventory(&self) {}

    fn zoom_out(&self) {}

    fn zoom_in(&self) {}

    fn loot(&self) -> bool {
        false
    }
}

fn walled() -> Walled {
    Walled { asked: RefCell::new(vec![]) }
}

fn empty() -> EditorState {
    EditorState { buffer: vec![], commands: vec![], input_history: vec![] }
}

fn typed(line: &str) -> EditorState {
    EditorState { buffer: line.chars().collect(), commands: vec![], input_history: vec![] }
}

fn submit(line: &str) -> (EditorState, Submission) {
    let mut state = typed(line);
    let submission = process_prompt(&mut state, &functions(), &Floats, &walled());
    (state, submission)
}

fn press(state: &mut EditorState, key: char) -> Option<Submission> {
    process_key(state, key, &functions(), &Floats, &walled())
}

fn number(value: f64) -> InterpreterResult {
    InterpreterResult::Num(Number { bits: value.to_bits() })
}

fn not_handled() -> Result<InterpreterResult, EvaluationError> {
    Err(EvaluationError::Interpreter(InterpreterError::ExpressionNotHandled))
}

#[test]
fn a_new_console_is_empty() {
    let state = EditorState::new();
    assert_eq!(state.buffer, Vec::<char>::new());
    assert_eq!(state.commands, Vec::<String>::new());
    assert_eq!(state.input_history, Vec::<String>::new());
}

#[test]
fn a_submitted_line_is_answered_with_its_result() {
    let (state, submission) = submit("1+2*3");
    assert_eq!(state.buffer, Vec::<char>::new());
    assert_eq!(state.input_history, vec!["1+2*3"]);
    assert_eq!(state.commands, vec!["1+2*3", "RES-Result : 9"]);
    assert_eq!(submission, Submission::Evaluated(vec![Ok(number(9.0)), not_handled()]));
}

#[test]
fn strings_and_booleans_are_results_too() {
    assert_eq!(submit("\"a\"+1").0.commands, vec!["\"a\"+1", "RES-Result : \"a1"]);
    assert_eq!(submit("1<2").0.commands, vec!["1<2", "RES-Result : true"]);
    assert_eq!(submit("1>2").0.commands, vec!["1>2", "RES-Result : false"]);
    assert_eq!(submit("1/4").0.commands, vec!["1/4", "RES-Result : 0.25"]);
}

#[test]
fn every_expression_of_a_line_is_answered() {
    let (state, submission) = submit("1+1 2*3");
    assert_eq!(state.commands, vec!["1+1 2*3", "RES-Result : 2", "RES-Result : 6"]);
    assert_eq!(
        submission,
        Submission::Evaluated(vec![Ok(number(2.0)), Ok(number(6.0)), not_handled()])
    );
}

#[test]
fn a_line_without_a_result_leaves_only_itself_in_the_history() {
    let (state, submission) = submit("1");
    assert_eq!(state.commands, vec!["1"]);
    assert_eq!(submission, Submission::Evaluated(vec![not_handled(), not_handled()]));

    let (state, submission) = submit("");
    assert_eq!(state.commands, vec![""]);
    assert_eq!(state.input_history, vec![""]);
    assert_eq!(submission, Submission::Evaluated(vec![not_handled()]));

    let (state, submission) = submit("1+nil");
    assert_eq!(state.commands, vec!["1+nil"]);
    assert_eq!(
        submission,
        Submission::Evaluated(vec![
            Err(EvaluationError::Interpreter(InterpreterError::InvalidOperationValues)),
            not_handled()
        ])
    );
}

#[test]
fn a_call_is_dispatched_and_its_error_is_returned() {
    let game = walled();
    let mut state = typed("moveUp(1)");
    let submission = process_prompt(&mut state, &functions(), &Floats, &game);
    assert_eq!(state.commands, vec!["moveUp(1)"]);
    assert_eq!(
        submission,
        Submission::Evaluated(vec![
            Err(EvaluationError::Function(FunctionError::ExpectedArgumentsCount(0))),
            not_handled()
        ])
    );
    assert_eq!(*game.asked.borrow(), vec![]);

    let mut state = typed("test(1)");
    let submission = process_prompt(&mut state, &functions(), &Floats, &game);
    assert_eq!(state.commands, vec!["test(1)", "RES-Result : Working"]);
    assert_eq!(
        submission,
        Submission::Evaluated(vec![Ok(InterpreterResult::Str("Working".to_string())), not_handled()])
    );

    let mut state = typed("fly(1)");
    let submission = process_prompt(&mut state, &functions(), &Floats, &game);
    assert_eq!(
        submission,
        Submission::Evaluated(vec![
            Err(EvaluationError::Function(FunctionError::NoMatchingFunction)),
            not_handled()
        ])
    );
}

#[test]
fn a_line_that_cannot_be_tokenized_is_answered_with_the_error() {
    let (state, submission) = submit("1 # 2");
    assert_eq!(submission, Submission::TokenizerError(TokenizerError::TokenScanError));
    assert_eq!(
        state.commands,
        vec!["1 # 2", "ERR-Some unexpected character used while processing input"]
    );
    assert_eq!(state.input_history, vec!["1 # 2"]);
    assert_eq!(state.buffer, Vec::<char>::new());

    let (state, submission) = submit("\"abc");
    assert_eq!(submission, Submission::TokenizerError(TokenizerError::StringTokenScanError));
    assert_eq!(
        state.commands,
        vec![
            "\"abc",
            "ERR-Invalid String definition while processing input. Any \" must match another \" character"
        ]
    );
}

#[test]
fn a_line_that_cannot_be_parsed_is_answered_with_the_error() {
    let (state, submission) = submit("moveUp()");
    assert_eq!(submission, Submission::AstParseError(AstParseError::TokenInvalidGrammar));
    assert_eq!(state.commands, vec!["moveUp()", "ERR-Invalid grammar for provided command"]);

    let (state, submission) = submit("(1");
    assert_eq!(submission, Submission::AstParseError(AstParseError::InvalidTokensInGroup));
    assert_eq!(state.commands, vec!["(1", "ERR-Invalid values passed to () group"]);
}

#[test]
fn every_tokenizer_error_has_its_message() {
    assert_eq!(
        tokenizer_error_message(TokenizerError::TokenScanError),
        "Some unexpected character used while processing input"
    );
    assert_eq!(
        tokenizer_error_message(TokenizerError::StringTokenScanError),
        "Invalid String definition while processing input. Any \" must match another \" character"
    );
    assert_eq!(
        tokenizer_error_message(TokenizerError::IdentifierMissmatch),
        "Invalid identifier, use a valid keyword instead"
    );
    assert_eq!(
        tokenizer_error_message(TokenizerError::InvalidFunctionSyntax),
        "Invalid function syntax"
    );
    assert_eq!(
        tokenizer_error_message(TokenizerError::NoIdentifierNorFunctionError),
        "No matching keyword nor function"
    );
}

#[test]
fn every_parse_error_has_its_message() {
    let messages = [
        (AstParseError::TokenInvalidGrammar, "Invalid grammar for provided command"),
        (AstParseError::MissingLiteralForNumber, "Missing value for parsed number"),
        (AstParseError::MissingLiteralForString, "Missing value for parsed String"),
        (AstParseError::MissingLiteralForIdentifier, "Missing value for parsed Identifier"),
        (AstParseError::UnaryWithNoValidNextToken, "Invalid value passed after ! or -"),
        (AstParseError::InvalidFactorExpressions, "Invalid values passed to operation"),
        (AstParseError::LabelWithNoValidNextToken, "Invalid values passed after label"),
        (AstParseError::InvalidTokensInGroup, "Invalid values passed to () group"),
    ];
    for (error, message) in messages {
        assert_eq!(parse_error_message(error), message);
    }
}

#[test]
fn results_and_errors_are_marked_in_the_history() {
    let mut state = typed("ab");
    editor_result_message(&mut state, "5");
    editor_error_message(&mut state, "no");
    assert_eq!(state.commands, vec!["RES-Result : 5", "ERR-no"]);
    assert_eq!(state.buffer, vec!['a', 'b']);
    assert_eq!(state.input_history, Vec::<String>::new());
}

#[test]
fn a_key_is_written_at_the_end_of_the_line() {
    let mut state = empty();
    assert_eq!(press(&mut state, 'a'), None);
    assert_eq!(press(&mut state, ' '), None);
    assert_eq!(press(&mut state, '\u{e9}'), None);
    assert_eq!(state.buffer, vec!['a', ' ', '\u{e9}']);
    assert_eq!(state.commands, Vec::<String>::new());
}

#[test]
fn backspace_deletes_the_last_character() {
    let mut state = typed("ab");
    assert_eq!(press(&mut state, BACKSPACE), None);
    assert_eq!(state.buffer, vec!['a']);
    press(&mut state, BACKSPACE);
    press(&mut state, BACKSPACE);
    assert_eq!(state.buffer, Vec::<char>::new());
}

#[test]
fn the_upward_arrow_brings_the_last_line_back() {
    let mut state = typed("1+1");
    press(&mut state, CARRIAGE_RETURN);
    for key in "2+2".chars() {
        press(&mut state, key);
    }
    press(&mut state, CARRIAGE_RETURN);
    press(&mut state, 'x');
    assert_eq!(press(&mut state, ARROW_UP), None);
    assert_eq!(state.buffer, vec!['2', '+', '2']);
    assert_eq!(state.input_history, vec!["1+1", "2+2"]);
}

#[test]
fn the_upward_arrow_empties_the_line_where_nothing_was_submitted() {
    let mut state = typed("abc");
    press(&mut state, ARROW_UP);
    assert_eq!(state.buffer, Vec::<char>::new());
}

#[test]
fn enter_submits_the_line() {
    let mut state = empty();
    for key in "1+2".chars() {
        assert_eq!(press(&mut state, key), None);
    }
    let submission = press(&mut state, CARRIAGE_RETURN);
    assert_eq!(submission, Some(Submission::Evaluated(vec![Ok(number(3.0)), not_handled()])));
    assert_eq!(state.buffer, Vec::<char>::new());
    assert_eq!(state.commands, vec!["1+2", "RES-Result : 3"]);
    assert_eq!(state.input_history, vec!["1+2"]);
}

#[test]
fn the_history_grows_at_its_end() {
    let mut state = typed("1+1");
    state.commands = vec!["old".to_string()];
    state.input_history = vec!["older".to_string()];
    press(&mut state, CARRIAGE_RETURN);
    assert_eq!(state.commands, vec!["old", "1+1", "RES-Result : 2"]);
    assert_eq!(state.input_history, vec!["older", "1+1"]);
}

#[test]
fn the_keys_without_a_character_have_one_in_the_console() {
    assert_eq!(special_key(259), Some(BACKSPACE));
    assert_eq!(special_key(257), Some(CARRIAGE_RETURN));
    assert_eq!(special_key(265), Some(ARROW_UP));
    assert_eq!(special_key(0), None);
    assert_eq!(special_key(65), None);
    assert_eq!(special_key(-1), None);
    assert_eq!(BACKSPACE, '\u{8}');
    assert_eq!(CARRIAGE_RETURN, '\u{13}');
    assert_eq!(ARROW_UP, '\u{2191}');
}

#[test]
fn the_current_token_stands_behind_the_last_space() {
    assert_eq!(get_current_token("> move"), Some("move".to_string()));
    assert_eq!(get_current_token("> 1 + zoom"), Some("zoom".to_string()));
    assert_eq!(get_current_token("move"), Some("move".to_string()));
    assert_eq!(get_current_token("a  b"), Some("b".to_string()));
    assert_eq!(get_current_token("> \u{e9}t\u{e9}"), Some("\u{e9}t\u{e9}".to_string()));
}

#[test]
fn there_is_no_current_token_behind_a_space_or_in_an_empty_line() {
    assert_eq!(get_current_token(""), None);
    assert_eq!(get_current_token("> "), None);
    assert_eq!(get_current_token(" "), None);
    assert_eq!(get_current_token("move "), None);
}

#[test]
fn an_error_is_shown_in_red_without_its_mark() {
    assert_eq!(
        resolve_history_text_format("ERR-Invalid function syntax".to_string()),
        ("Invalid function syntax".to_string(), HistoryColor::Red)
    );
    assert_eq!(
        resolve_history_text_format("ERR-".to_string()),
        ("".to_string(), HistoryColor::Red)
    );
}

#[test]
fn a_result_is_shown_in_green_without_its_mark() {
    assert_eq!(
        resolve_history_text_format("RES-Result : 9".to_string()),
        ("Result : 9".to_string(), HistoryColor::Green)
    );
}

#[test]
fn the_mark_is_taken_out_wherever_it_stands() {
    assert_eq!(
        resolve_history_text_format("ERR-a ERR-b ERR-".to_string()),
        ("a b ".to_string(), HistoryColor::Red)
    );
    assert_eq!(
        resolve_history_text_format("RES-Result : RES-x".to_string()),
        ("Result : x".to_string(), HistoryColor::Green)
    );
    assert_eq!(
        resolve_history_text_format("ERR-ERERR-R-x".to_string()),
        ("ERR-x".to_string(), HistoryColor::Red)
    );
    assert_eq!("ERR-ERERR-R-x".replace("ERR-", ""), "ERR-x");
    assert_eq!(
        resolve_history_text_format("ERR-RES-x".to_string()),
        ("RES-x".to_string(), HistoryColor::Red)
    );
}

#[test]
fn any_other_line_is_shown_in_white_as_it_is() {
    assert_eq!(
        resolve_history_text_format("moveUp(1)".to_string()),
        ("moveUp(1)".to_string(), HistoryColor::White)
    );
    assert_eq!(
        resolve_history_text_format("x ERR-y".to_string()),
        ("x ERR-y".to_string(), HistoryColor::White)
    );
    assert_eq!(resolve_history_text_format("".to_string()), ("".to_string(), HistoryColor::White));
    assert_eq!(
        resolve_history_text_format("ERR".to_string()),
        ("ERR".to_string(), HistoryColor::White)
    );
}

/// The lines of a text as the sums with a font of 20 pixels give them.
fn lines_by_the_font(length: usize, width: i32) -> Vec<(usize, usize)> {
    let character_width = 20 as f32 / 1.5;
    let lines = ((length as i32 * character_width as i32) / width) + 1;
    let mut x_index = 0;
    let line_max_width = width / character_width as i32;
    let mut ranges = vec![];
    for _ in 0..lines {
        let mut x_index_end = x_index + line_max_width;
        if x_index_end > length as i32 {
            x_index_end = length as i32
        }
        ranges.push((x_index as usize, x_index_end as usize));
        x_index += line_max_width;
    }
    ranges
}

#[test]
fn a_long_line_of_the_history_is_broken_into_lines() {
    assert_eq!(CHARACTER_WIDTH, (20 as f32 / 1.5) as i32);
    assert_eq!(history_lines(0, 400), vec![(0, 0)]);
    assert_eq!(history_lines(10, 400), vec![(0, 10)]);
    assert_eq!(history_lines(30, 400), vec![(0, 30)]);
    assert_eq!(history_lines(31, 400), vec![(0, 30), (30, 31)]);
    assert_eq!(history_lines(70, 400), vec![(0, 30), (30, 60), (60, 70)]);
    assert_eq!(history_lines(3, 13), vec![(0, 1), (1, 2), (2, 3), (3, 3)]);
    assert_eq!(history_lines(2, 5), vec![(0, 0); 6]);
}

#[test]
fn the_lines_of_the_history_are_those_of_the_sums_with_the_font() {
    for width in [1, 5, 12, 13, 14, 26, 100, 399, 400, 401, 640, 1920] {
        for length in [0usize, 1, 2, 12, 13, 29, 30, 31, 59, 60, 61, 100, 147, 148, 1000] {
            assert_eq!(
                history_lines(length, width),
                lines_by_the_font(length, width),
                "{length} bytes in {width} pixels"
            );
        }
    }
}
