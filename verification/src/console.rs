//! The developer console: the line being typed, the history of what was
//! submitted and answered, and what a key does to them.

use vstd::prelude::*;
use vstd::string::StringExecFns;
use crate::functions::{
    evaluate,
    evaluation_outcome,
    evaluation_yields,
    texts,
    EvaluationError,
    FunctionDef,
};
use crate::game_state::GameState;
use crate::grammar::{parsed, resolve_ast, views_of, AstParseError, ExpressionView};
use crate::interpreter::{boolean_text, formats_to, InterpreterResult, Value};
use crate::number::Arithmetic;
use crate::text::{characters_of, remove_all, starts_with, string_of, without};
use crate::tokenizer::{get_prompt_tokens, scanned, tokens_match, Token, TokenizerError};

verus! {

/// The key that deletes the last character of the line.
pub const BACKSPACE: char = '\x08';

/// The key that submits the line.
pub const CARRIAGE_RETURN: char = '\x13';

/// The key that brings back the line submitted last.
pub const ARROW_UP: char = '\u{2191}';

/// The console's state.
pub struct EditorState {
    /// The line being typed.
    pub buffer: Vec<char>,
    /// What was submitted and what was answered, oldest first.
    pub commands: Vec<String>,
    /// The lines that were submitted, oldest first.
    pub input_history: Vec<String>,
}

impl EditorState {
    /// A console in which nothing has been typed or submitted.
    pub fn new() -> (editor_state: EditorState)
        ensures
            editor_state.buffer@.len() == 0,
            editor_state.commands@.len() == 0,
            editor_state.input_history@.len() == 0,
    {
        EditorState { buffer: Vec::new(), commands: Vec::new(), input_history: Vec::new() }
    }
}

/// What became of a submitted line: the stage that refused it, or the outcome
/// of each of its expressions.
#[derive(Debug, PartialEq)]
pub enum Submission {
    TokenizerError(TokenizerError),
    AstParseError(AstParseError),
    Evaluated(Vec<Result<InterpreterResult, EvaluationError>>),
}

/// A submission as a mathematical value.
pub enum SubmissionView {
    TokenizerError(TokenizerError),
    AstParseError(AstParseError),
    Evaluated(Seq<Result<Value, EvaluationError>>),
}

impl View for Submission {
    type V = SubmissionView;

    open spec fn view(&self) -> SubmissionView {
        match self {
            Submission::TokenizerError(error) => SubmissionView::TokenizerError(*error),
            Submission::AstParseError(error) => SubmissionView::AstParseError(*error),
            Submission::Evaluated(outcomes) => SubmissionView::Evaluated(
                Seq::new(outcomes@.len(), |i: int| evaluation_outcome(outcomes@[i])),
            ),
        }
    }
}

/// What the console says of a line that could not be tokenized.
pub open spec fn tokenizer_error_text(error: TokenizerError) -> Seq<char> {
    match error {
        TokenizerError::TokenScanError => "Some unexpected character used while processing input"@,
        TokenizerError::StringTokenScanError => "Invalid String definition while processing input. Any \" must match another \" character"@,
        TokenizerError::IdentifierMissmatch => "Invalid identifier, use a valid keyword instead"@,
        TokenizerError::InvalidFunctionSyntax => "Invalid function syntax"@,
        TokenizerError::NoIdentifierNorFunctionError => "No matching keyword nor function"@,
    }
}

/// What the console says of a line that could not be parsed.
pub open spec fn parse_error_text(error: AstParseError) -> Seq<char> {
    match error {
        AstParseError::TokenInvalidGrammar => "Invalid grammar for provided command"@,
        AstParseError::MissingLiteralForNumber => "Missing value for parsed number"@,
        AstParseError::MissingLiteralForString => "Missing value for parsed String"@,
        AstParseError::MissingLiteralForIdentifier => "Missing value for parsed Identifier"@,
        AstParseError::UnaryWithNoValidNextToken => "Invalid value passed after ! or -"@,
        AstParseError::InvalidFactorExpressions => "Invalid values passed to operation"@,
        AstParseError::LabelWithNoValidNextToken => "Invalid values passed after label"@,
        AstParseError::InvalidTokensInGroup => "Invalid values passed to () group"@,
    }
}

pub fn tokenizer_error_message(error: TokenizerError) -> (message: &'static str)
    ensures
        message@ == tokenizer_error_text(error),
{
    match error {
        TokenizerError::TokenScanError => "Some unexpected character used while processing input",
        TokenizerError::StringTokenScanError => "Invalid String definition while processing input. Any \" must match another \" character",
        TokenizerError::IdentifierMissmatch => "Invalid identifier, use a valid keyword instead",
        TokenizerError::InvalidFunctionSyntax => "Invalid function syntax",
        TokenizerError::NoIdentifierNorFunctionError => "No matching keyword nor function",
    }
}

pub fn parse_error_message(error: AstParseError) -> (message: &'static str)
    ensures
        message@ == parse_error_text(error),
{
    match error {
        AstParseError::TokenInvalidGrammar => "Invalid grammar for provided command",
        AstParseError::MissingLiteralForNumber => "Missing value for parsed number",
        AstParseError::MissingLiteralForString => "Missing value for parsed String",
        AstParseError::MissingLiteralForIdentifier => "Missing value for parsed Identifier",
        AstParseError::UnaryWithNoValidNextToken => "Invalid value passed after ! or -",
        AstParseError::InvalidFactorExpressions => "Invalid values passed to operation",
        AstParseError::LabelWithNoValidNextToken => "Invalid values passed after label",
        AstParseError::InvalidTokensInGroup => "Invalid values passed to () group",
    }
}

/// The line of the history that holds a result.
pub open spec fn result_line(message: Seq<char>) -> Seq<char> {
    "RES-Result : "@ + message
}

/// The line of the history that holds an error.
pub open spec fn error_line(message: Seq<char>) -> Seq<char> {
    "ERR-"@ + message
}

/// Adds a result to the history.
pub fn editor_result_message(editor_state: &mut EditorState, message: &str)
    ensures
        texts(final(editor_state).commands@) == texts(old(editor_state).commands@).push(
            result_line(message@),
        ),
        final(editor_state).buffer == old(editor_state).buffer,
        final(editor_state).input_history == old(editor_state).input_history,
{
    let line = String::from_str("RES-Result : ").concat(message);
    editor_state.commands.push(line);
    assert(texts(editor_state.commands@) =~= texts(old(editor_state).commands@).push(
        result_line(message@),
    ));
}

/// Adds an error to the history.
pub fn editor_error_message(editor_state: &mut EditorState, message: &str)
    ensures
        texts(final(editor_state).commands@) == texts(old(editor_state).commands@).push(
            error_line(message@),
        ),
        final(editor_state).buffer == old(editor_state).buffer,
        final(editor_state).input_history == old(editor_state).input_history,
{
    let line = String::from_str("ERR-").concat(message);
    editor_state.commands.push(line);
    assert(texts(editor_state.commands@) =~= texts(old(editor_state).commands@).push(
        error_line(message@),
    ));
}

/// Whether `line` is what the history gets for an outcome: the line of the
/// result for a number, a string or a boolean, and nothing for nil, for a
/// value still marked as negated, and for an error.
pub open spec fn line_of<A: Arithmetic>(
    arithmetic: &A,
    outcome: Result<Value, EvaluationError>,
    line: Option<Seq<char>>,
) -> bool {
    match outcome {
        Ok(Value::Num(number)) => line matches Some(text) && exists|digits: Seq<char>| #[trigger]
            formats_to(arithmetic, number, digits) && text == result_line(digits),
        Ok(Value::Str(text)) => line == Some(result_line(text)),
        Ok(Value::Bool(truth)) => line == Some(result_line(boolean_text(truth))),
        _ => line is None,
    }
}

/// Whether `messages` are the `earlier` messages and, behind them, the line
/// if there is one.
pub open spec fn extended(
    earlier: Seq<Seq<char>>,
    line: Option<Seq<char>>,
    messages: Seq<Seq<char>>,
) -> bool {
    messages == match line {
        Some(text) => earlier.push(text),
        None => earlier,
    }
}

/// Whether `messages` are what the history gets for the outcomes, in their order.
pub open spec fn reported<A: Arithmetic>(
    arithmetic: &A,
    outcomes: Seq<Result<Value, EvaluationError>>,
    messages: Seq<Seq<char>>,
) -> bool
    decreases outcomes.len(),
{
    if outcomes.len() == 0 {
        messages.len() == 0
    } else {
        exists|earlier: Seq<Seq<char>>, line: Option<Seq<char>>|
            {
                &&& reported(arithmetic, outcomes.drop_last(), earlier)
                &&& line_of(arithmetic, outcomes.last(), line)
                &&& #[trigger] extended(earlier, line, messages)
            }
    }
}

/// Whether `messages` are what the history gets for a submission: the error
/// of the stage that refused the line, or the results of its expressions.
pub open spec fn answered<A: Arithmetic>(
    arithmetic: &A,
    submission: SubmissionView,
    messages: Seq<Seq<char>>,
) -> bool {
    match submission {
        SubmissionView::TokenizerError(error) => messages == seq![
            error_line(tokenizer_error_text(error)),
        ],
        SubmissionView::AstParseError(error) => messages == seq![
            error_line(parse_error_text(error)),
        ],
        SubmissionView::Evaluated(outcomes) => reported(arithmetic, outcomes, messages),
    }
}

/// Whether `outcomes` are outcomes of evaluating the expressions of a tree, one each.
pub open spec fn tree_yields<A: Arithmetic, G: GameState>(
    arithmetic: &A,
    game: &G,
    functions: Seq<FunctionDef>,
    tree: Seq<ExpressionView>,
    outcomes: Seq<Result<Value, EvaluationError>>,
) -> bool {
    &&& outcomes.len() == tree.len()
    &&& forall|i: int|
        0 <= i < tree.len() ==> evaluation_yields(
            arithmetic,
            game,
            functions,
            tree[i],
            #[trigger] outcomes[i],
        )
}

/// Whether `submission` is what becomes of the line `prompt`: it is
/// tokenized, its tokens are parsed, and each expression of the tree is
/// evaluated; the first stage that fails ends it.
pub open spec fn submitted<A: Arithmetic, G: GameState>(
    arithmetic: &A,
    game: &G,
    functions: Seq<FunctionDef>,
    prompt: Seq<char>,
    submission: SubmissionView,
) -> bool {
    match scanned(prompt) {
        Err(error) => submission == SubmissionView::TokenizerError(error),
        Ok(expected) => exists|tokens: Seq<Token>| #[trigger]
            tokens_match(arithmetic, tokens, expected) && match parsed(tokens) {
                Err(error) => submission == SubmissionView::AstParseError(error),
                Ok(tree) => submission matches SubmissionView::Evaluated(outcomes) && tree_yields(
                    arithmetic,
                    game,
                    functions,
                    tree,
                    outcomes,
                ),
            },
    }
}

/// Submits the line being typed: it goes to the history and to the submitted
/// lines, the buffer is emptied, and the history gets what the line was
/// answered with.
pub fn process_prompt<A: Arithmetic, G: GameState>(
    editor_state: &mut EditorState,
    functions: &Vec<FunctionDef>,
    arithmetic: &A,
    game: &G,
) -> (submission: Submission)
    ensures
        final(editor_state).buffer@.len() == 0,
        texts(final(editor_state).input_history@) == texts(old(editor_state).input_history@).push(
            old(editor_state).buffer@,
        ),
        submitted(arithmetic, game, functions@, old(editor_state).buffer@, submission@),
        exists|messages: Seq<Seq<char>>| #[trigger]
            answered(arithmetic, submission@, messages) && texts(final(editor_state).commands@)
                == texts(old(editor_state).commands@).push(old(editor_state).buffer@) + messages,
{
    let prompt: String = string_of(&editor_state.buffer);
    editor_state.buffer = Vec::new();
    editor_state.commands.push(prompt.clone());
    editor_state.input_history.push(prompt.clone());
    let ghost line = prompt@;
    let ghost history = texts(old(editor_state).commands@).push(line);
    assert(texts(editor_state.commands@) =~= history);
    assert(texts(editor_state.input_history@) =~= texts(old(editor_state).input_history@).push(
        line,
    ));
    let tokens = get_prompt_tokens(prompt, arithmetic);
    match tokens {
        Ok(tokens) => {
            let ghost read = tokens@;
            match resolve_ast(tokens) {
                Ok(ast) => {
                    let ghost tree = views_of(ast.tree@);
                    let mut outcomes: Vec<Result<InterpreterResult, EvaluationError>> = Vec::new();
                    let ghost mut messages: Seq<Seq<char>> = Seq::empty();
                    let mut index: usize = 0;
                    assert(history + messages =~= history);
                    while index < ast.tree.len()
                        invariant
                            index <= ast.tree.len(),
                            tree == views_of(ast.tree@),
                            editor_state.buffer@.len() == 0,
                            texts(editor_state.input_history@) == texts(
                                old(editor_state).input_history@,
                            ).push(line),
                            texts(editor_state.commands@) == history + messages,
                            outcomes@.len() == index,
                            forall|i: int|
                                0 <= i < index ==> evaluation_yields(
                                    arithmetic,
                                    game,
                                    functions@,
                                    tree[i],
                                    evaluation_outcome(#[trigger] outcomes@[i]),
                                ),
                            reported(
                                arithmetic,
                                Seq::new(outcomes@.len(), |i: int| evaluation_outcome(outcomes@[i])),
                                messages,
                            ),
                        decreases ast.tree.len() - index,
                    {
                        let ghost seen = Seq::new(
                            outcomes@.len(),
                            |i: int| evaluation_outcome(outcomes@[i]),
                        );
                        let ghost earlier = messages;
                        let outcome = evaluate(&ast.tree[index], functions, arithmetic, game);
                        let ghost said: Option<Seq<char>>;
                        match &outcome {
                            Ok(result) => match result {
                                InterpreterResult::Num(num_result) => {
                                    let digits = arithmetic.format(*num_result);
                                    assert(formats_to(arithmetic, *num_result, digits@));
                                    editor_result_message(editor_state, digits.as_str());
                                    proof {
                                        said = Some(result_line(digits@));
                                    }
                                },
                                InterpreterResult::Str(str_result) => {
                                    editor_result_message(editor_state, str_result.as_str());
                                    proof {
                                        said = Some(result_line(str_result@));
                                    }
                                },
                                InterpreterResult::Bool(bool_result) => {
                                    editor_result_message(
                                        editor_state,
                                        if *bool_result {
                                            "true"
                                        } else {
                                            "false"
                                        },
                                    );
                                    proof {
                                        said = Some(result_line(boolean_text(*bool_result)));
                                    }
                                },
                                _ => {
                                    proof {
                                        said = None;
                                    }
                                },
                            },
                            Err(_) => {
                                proof {
                                    said = None;
                                }
                            },
                        }
                        proof {
                            messages = match said {
                                Some(text) => earlier.push(text),
                                None => earlier,
                            };
                            assert(history + messages =~= match said {
                                Some(text) => (history + earlier).push(text),
                                None => history + earlier,
                            });
                            assert(line_of(arithmetic, evaluation_outcome(outcome), said));
                        }
                        outcomes.push(outcome);
                        proof {
                            let now = Seq::new(
                                outcomes@.len(),
                                |i: int| evaluation_outcome(outcomes@[i]),
                            );
                            assert(now.drop_last() =~= seen);
                            assert(now.last() == evaluation_outcome(outcome));
                            assert(reported(arithmetic, now.drop_last(), earlier));
                            assert(line_of(arithmetic, now.last(), said));
                            assert(extended(earlier, said, messages));
                        }
                        index += 1;
                    }
                    let submission = Submission::Evaluated(outcomes);
                    proof {
                        assert(tokens_match(arithmetic, read, scanned(line)->Ok_0));
                        assert(answered(arithmetic, submission@, messages));
                    }
                    submission
                },
                Err(error) => {
                    editor_error_message(editor_state, parse_error_message(error));
                    proof {
                        let messages = seq![error_line(parse_error_text(error))];
                        assert(history.push(messages[0]) =~= history + messages);
                        assert(tokens_match(arithmetic, read, scanned(line)->Ok_0));
                        assert(answered(
                            arithmetic,
                            SubmissionView::AstParseError(error),
                            messages,
                        ));
                    }
                    Submission::AstParseError(error)
                },
            }
        },
        Err(error) => {
            editor_error_message(editor_state, tokenizer_error_message(error));
            proof {
                let messages = seq![error_line(tokenizer_error_text(error))];
                assert(history.push(messages[0]) =~= history + messages);
                assert(answered(arithmetic, SubmissionView::TokenizerError(error), messages));
            }
            Submission::TokenizerError(error)
        },
    }
}

/// The character that a key of the keyboard stands for in the console, for
/// the keys that write none: backspace, enter and the upward arrow, by their
/// key codes.
pub open spec fn special_key_character(key: i32) -> Option<char> {
    if key == 259 {
        Some(BACKSPACE)
    } else if key == 257 {
        Some(CARRIAGE_RETURN)
    } else if key == 265 {
        Some(ARROW_UP)
    } else {
        None
    }
}

pub fn special_key(key: i32) -> (character: Option<char>)
    ensures
        character == special_key_character(key),
{
    if key == 259 {
        Some(BACKSPACE)
    } else if key == 257 {
        Some(CARRIAGE_RETURN)
    } else if key == 265 {
        Some(ARROW_UP)
    } else {
        None
    }
}

/// The line that the upward arrow brings back: the one submitted last, or
/// an empty line where none was submitted.
pub open spec fn recalled(input_history: Seq<String>) -> Seq<char> {
    if input_history.len() > 0 {
        input_history.last()@
    } else {
        Seq::empty()
    }
}

/// Applies a key to the console. Backspace deletes the last character of the
/// line, the upward arrow brings back the line submitted last, enter submits
/// the line, and every other key is written at the end of the line. Only
/// a submission is answered: it is returned.
pub fn process_key<A: Arithmetic, G: GameState>(
    editor_state: &mut EditorState,
    key: char,
    functions: &Vec<FunctionDef>,
    arithmetic: &A,
    game: &G,
) -> (submission: Option<Submission>)
    ensures
        key == BACKSPACE ==> submission is None && final(editor_state).buffer@ == (if old(
            editor_state,
        ).buffer@.len() > 0 {
            old(editor_state).buffer@.drop_last()
        } else {
            old(editor_state).buffer@
        }),
        key == ARROW_UP ==> submission is None && final(editor_state).buffer@ == recalled(
            old(editor_state).input_history@,
        ),
        key != BACKSPACE && key != ARROW_UP && key != CARRIAGE_RETURN ==> submission is None
            && final(editor_state).buffer@ == old(editor_state).buffer@.push(key),
        key != CARRIAGE_RETURN ==> final(editor_state).commands == old(editor_state).commands
            && final(editor_state).input_history == old(editor_state).input_history,
        key == CARRIAGE_RETURN ==> {
            &&& submission matches Some(answer)
            &&& final(editor_state).buffer@.len() == 0
            &&& texts(final(editor_state).input_history@) == texts(
                old(editor_state).input_history@,
            ).push(old(editor_state).buffer@)
            &&& submitted(arithmetic, game, functions@, old(editor_state).buffer@, answer@)
            &&& exists|messages: Seq<Seq<char>>| #[trigger]
                answered(arithmetic, answer@, messages) && texts(final(editor_state).commands@)
                    == texts(old(editor_state).commands@).push(old(editor_state).buffer@)
                    + messages
        },
{
    if key == BACKSPACE {
        editor_state.buffer.pop();
        None
    } else if key == ARROW_UP {
        if editor_state.input_history.len() > 0 {
            let last = editor_state.input_history.len() - 1;
            editor_state.buffer = characters_of(editor_state.input_history[last].as_str());
        } else {
            editor_state.buffer = Vec::new();
        }
        None
    } else if key == CARRIAGE_RETURN {
        Some(process_prompt(editor_state, functions, arithmetic, game))
    } else {
        editor_state.buffer.push(key);
        None
    }
}

/// The number of characters at the end of a text that are no spaces.
pub open spec fn trailing_length(text: Seq<char>) -> nat
    decreases text.len(),
{
    if text.len() > 0 && text.last() != ' ' {
        1 + trailing_length(text.drop_last())
    } else {
        0
    }
}

/// The word being typed: what stands behind the last space of the line, if
/// anything does.
pub open spec fn current_token(line: Seq<char>) -> Option<Seq<char>> {
    let length = trailing_length(line);
    if length == 0 {
        None
    } else {
        Some(line.skip(line.len() - length))
    }
}

/// The characters from `start` on are those at the end that are no spaces.
proof fn lemma_trailing_length(text: Seq<char>, start: int)
    requires
        0 <= start <= text.len(),
        forall|i: int| start <= i < text.len() ==> text[i] != ' ',
        start == 0 || text[start - 1] == ' ',
    ensures
        trailing_length(text) == text.len() - start,
    decreases text.len() - start,
{
    if start < text.len() {
        lemma_trailing_length(text.drop_last(), start);
    }
}

pub fn get_current_token(input_line: &str) -> (token: Option<String>)
    ensures
        match current_token(input_line@) {
            Some(text) => token matches Some(found) && found@ == text,
            None => token is None,
        },
{
    let line = characters_of(input_line);
    let mut start: usize = line.len();
    while start > 0 && line[start - 1] != ' '
        invariant
            start <= line.len(),
            forall|i: int| start <= i < line.len() ==> line@[i] != ' ',
        decreases start,
    {
        start -= 1;
    }
    proof {
        lemma_trailing_length(line@, start as int);
    }
    if start == line.len() {
        return None;
    }
    let mut result: Vec<char> = Vec::new();
    let mut index: usize = start;
    while index < line.len()
        invariant
            start <= index <= line.len(),
            result@ == line@.subrange(start as int, index as int),
        decreases line.len() - index,
    {
        result.push(line[index]);
        assert(line@.subrange(start as int, index + 1) =~= line@.subrange(
            start as int,
            index as int,
        ).push(line@[index as int]));
        index += 1;
    }
    assert(line@.subrange(start as int, line@.len() as int) =~= line@.skip(start as int));
    Some(string_of(&result))
}

/// The width of a character of the history, in pixels.
pub const CHARACTER_WIDTH: i32 = 13;

/// The number of lines on which a text of the history is shown in a column
/// `width` pixels wide.
pub open spec fn history_line_count(length: int, width: int) -> int {
    (length * CHARACTER_WIDTH) / width + 1
}

/// The part of a text that stands on the line `line` of those on which it is
/// shown: where it starts and where it ends. Every line holds as many
/// characters as fit in the width, the last one what is left.
pub open spec fn history_line(length: int, width: int, line: int) -> (int, int) {
    let per_line = width / (CHARACTER_WIDTH as int);
    let start = line * per_line;
    (
        start,
        if start + per_line > length {
            length
        } else {
            start + per_line
        },
    )
}

/// The parts of a text of `length` bytes that stand on the lines on which it
/// is shown in a column `width` pixels wide.
pub fn history_lines(length: usize, width: i32) -> (lines: Vec<(usize, usize)>)
    requires
        0 < width,
        length * CHARACTER_WIDTH <= i32::MAX,
    ensures
        lines@.len() == history_line_count(length as int, width as int),
        forall|line: int|
            0 <= line < lines@.len() ==> (#[trigger] lines@[line]).0 == history_line(
                length as int,
                width as int,
                line,
            ).0 && lines@[line].1 == history_line(length as int, width as int, line).1,
        forall|line: int|
            0 <= line < lines@.len() ==> (#[trigger] lines@[line]).0 <= lines@[line].1 <= length,
{
    let count: usize = (length * 13) / (width as usize) + 1;
    let line_max_width: usize = (width as usize) / 13;
    let mut lines: Vec<(usize, usize)> = Vec::new();
    let mut x_index: usize = 0;
    let mut line: usize = 0;
    proof {
        lemma_lines_fit(length as int, width as int);
    }
    while line < count
        invariant
            0 < width,
            length * CHARACTER_WIDTH <= i32::MAX,
            count == history_line_count(length as int, width as int),
            line_max_width == width / CHARACTER_WIDTH,
            (count - 1) * line_max_width <= length,
            line <= count,
            lines@.len() == line,
            x_index == line * line_max_width,
            forall|k: int|
                0 <= k < line ==> (#[trigger] lines@[k]).0 == history_line(
                    length as int,
                    width as int,
                    k,
                ).0 && lines@[k].1 == history_line(length as int, width as int, k).1,
            forall|k: int| 0 <= k < line ==> (#[trigger] lines@[k]).0 <= lines@[k].1 <= length,
        decreases count - line,
    {
        proof {
            assert(line * line_max_width <= (count - 1) * line_max_width) by (nonlinear_arith)
                requires
                    line <= count - 1,
                    line_max_width >= 0,
            ;
            assert((line + 1) * line_max_width == line * line_max_width + line_max_width)
                by (nonlinear_arith);
        }
        let mut x_index_end: usize = x_index + line_max_width;
        if x_index_end > length {
            x_index_end = length;
        }
        lines.push((x_index, x_index_end));
        x_index += line_max_width;
        line += 1;
    }
    lines
}

/// The last line of a text starts within the text.
proof fn lemma_lines_fit(length: int, width: int)
    requires
        0 <= length,
        0 < width,
    ensures
        (history_line_count(length, width) - 1) * (width / (CHARACTER_WIDTH as int)) <= length,
{
    let quotient = (length * 13) / width;
    let per_line = width / 13;
    assert(quotient * width <= length * 13) by (nonlinear_arith)
        requires
            quotient == (length * 13) / width,
            width > 0,
            length >= 0,
    ;
    assert(per_line * 13 <= width) by (nonlinear_arith)
        requires
            per_line == width / 13,
            width > 0,
    ;
    assert(quotient >= 0) by (nonlinear_arith)
        requires
            quotient == (length * 13) / width,
            width > 0,
            length >= 0,
    ;
    assert(per_line >= 0) by (nonlinear_arith)
        requires
            per_line == width / 13,
            width > 0,
    ;
    assert(quotient * per_line * 13 <= length * 13) by (nonlinear_arith)
        requires
            quotient * width <= length * 13,
            per_line * 13 <= width,
            quotient >= 0,
            per_line >= 0,
    ;
}

/// The colour in which a line of the history is shown.
#[derive(Clone, Copy, Debug, PartialEq, Eq, Structural)]
pub enum HistoryColor {
    Red,
    Green,
    White,
}

/// How a line of the history is shown: an error in red and a result in
/// green, both without their marks, wherever these stand in the line;
/// anything else in white, as it is.
pub open spec fn history_text_format(history_text: Seq<char>) -> (Seq<char>, HistoryColor) {
    if "ERR-"@.is_prefix_of(history_text) {
        (without(history_text, "ERR-"@), HistoryColor::Red)
    } else if "RES-"@.is_prefix_of(history_text) {
        (without(history_text, "RES-"@), HistoryColor::Green)
    } else {
        (history_text, HistoryColor::White)
    }
}

pub fn resolve_history_text_format(history_text: String) -> (shown: (String, HistoryColor))
    ensures
        shown.0@ == history_text_format(history_text@).0,
        shown.1 == history_text_format(history_text@).1,
{
    let line = characters_of(history_text.as_str());
    let error_mark = characters_of("ERR-");
    let result_mark = characters_of("RES-");
    proof {
        reveal_strlit("ERR-");
        reveal_strlit("RES-");
    }
    if starts_with(&line, &error_mark) {
        let text = remove_all(&line, &error_mark);
        return (string_of(&text), HistoryColor::Red);
    } else if starts_with(&line, &result_mark) {
        let text = remove_all(&line, &result_mark);
        return (string_of(&text), HistoryColor::Green);
    }
    (history_text, HistoryColor::White)
}

} // verus!
