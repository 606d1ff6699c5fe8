//! The tokenizer: one left-to-right scan that turns a line of text into tokens.

use vstd::prelude::*;
use vstd::string::StringExecFns;
use crate::number::{Arithmetic, Number};
use crate::text::{alphanumeric, ascii_digit, characters_of, is_ascii_digit, spells, string_of};

verus! {

/// The kinds of token.
#[derive(PartialEq, Eq, Clone, Copy, Debug, Structural)]
#[allow(clippy::upper_case_acronyms, non_camel_case_types)]
pub enum TokenType {
    // Single-character tokens.
    LEFT_PAREN,
    RIGHT_PAREN,
    LEFT_BRACE,
    RIGHT_BRACE,
    COMMA,
    DOT,
    MINUS,
    PLUS,
    SEMICOLON,
    SLASH,
    STAR,
    // One or two character tokens.
    BANG,
    BANG_EQUAL,
    EQUAL,
    EQUAL_EQUAL,
    GREATER,
    GREATER_EQUAL,
    LESS,
    LESS_EQUAL,
    // Literals.
    IDENTIFIER,
    STRING,
    NUMBER,
    // Keywords.
    AND,
    CLASS,
    ELSE,
    FALSE,
    FUN,
    FOR,
    IF,
    NIL,
    OR,
    PRINT,
    RETURN,
    SUPER,
    THIS,
    TRUE,
    VAR,
    WHILE,
    EOF,
    // A bare word that is no keyword: the name of something callable.
    LABEL,
}

/// The typed payload of a token.
#[derive(Clone, Debug, PartialEq)]
pub enum Literal {
    Str(String),
    Num(Number),
    Identifier(TokenType),
    Label(String),
}

/// One lexical unit of a line.
#[derive(Clone, Debug, PartialEq)]
pub struct Token {
    pub token_type: TokenType,
    pub lexeme: String,
    pub literal: Option<Literal>,
    pub line: u32,
}

/// Why a line could not be tokenized.
#[derive(Clone, Copy, Debug, PartialEq, Eq, Structural)]
pub enum TokenizerError {
    TokenScanError,
    StringTokenScanError,
    IdentifierMissmatch,
    InvalidFunctionSyntax,
    NoIdentifierNorFunctionError,
}

/// The characters of a line, and how many of them the scan has taken.
pub struct Characters {
    characters: Vec<char>,
    position: usize,
}

impl Characters {
    /// The scan never runs past the end of the line.
    #[verifier::type_invariant]
    spec fn well_formed(self) -> bool {
        self.position <= self.characters.len()
    }

    /// The characters that the scan has not taken yet.
    pub closed spec fn remaining(&self) -> Seq<char> {
        self.characters@.skip(self.position as int)
    }

    /// A scan that has all of `text` before it.
    pub fn new(text: &str) -> (characters: Characters)
        ensures
            characters.remaining() == text@,
    {
        Characters { characters: characters_of(text), position: 0 }
    }

    /// Takes the next character, if one is left.
    pub fn next(&mut self) -> (character: Option<char>)
        ensures
            old(self).remaining().len() == 0 ==> character is None,
            old(self).remaining().len() > 0 ==> character == Some(old(self).remaining()[0]),
            final(self).remaining() == if character is Some {
                old(self).remaining().skip(1)
            } else {
                old(self).remaining()
            },
    {
        proof {
            use_type_invariant(&*self);
        }
        if self.position < self.characters.len() {
            let character = self.characters[self.position];
            self.position += 1;
            assert(self.remaining() =~= old(self).remaining().skip(1));
            Some(character)
        } else {
            None
        }
    }

    /// The next character, which stays in place.
    pub fn peek(&self) -> (character: Option<char>)
        ensures
            self.remaining().len() == 0 ==> character is None,
            self.remaining().len() > 0 ==> character == Some(self.remaining()[0]),
            self.remaining().len() <= usize::MAX,
    {
        proof {
            use_type_invariant(self);
        }
        if self.position < self.characters.len() {
            Some(self.characters[self.position])
        } else {
            None
        }
    }

    /// The character that stands `offset` places behind the next one, which
    /// stays in place.
    pub fn peek_at(&self, offset: usize) -> (character: Option<char>)
        ensures
            offset >= self.remaining().len() ==> character is None,
            offset < self.remaining().len() ==> character == Some(self.remaining()[offset as int]),
            self.remaining().len() <= usize::MAX,
    {
        proof {
            use_type_invariant(self);
        }
        if offset < self.characters.len() - self.position {
            Some(self.characters[self.position + offset])
        } else {
            None
        }
    }

    /// Takes the next `count` characters, or all that are left where they
    /// are fewer.
    pub fn advance(&mut self, count: usize)
        ensures
            final(self).remaining() == if count <= old(self).remaining().len() {
                old(self).remaining().skip(count as int)
            } else {
                Seq::<char>::empty()
            },
    {
        proof {
            use_type_invariant(&*self);
        }
        if count <= self.characters.len() - self.position {
            self.position += count;
            assert(self.remaining() =~= old(self).remaining().skip(count as int));
        } else {
            self.position = self.characters.len();
            assert(self.remaining() =~= Seq::<char>::empty());
        }
    }

    /// The text that the scan has not taken yet.
    pub fn rest(&self) -> (text: String)
        ensures
            text@ == self.remaining(),
    {
        proof {
            use_type_invariant(self);
        }
        let mut text = String::new();
        let mut index: usize = self.position;
        assert(self.characters@.subrange(self.position as int, index as int) =~= Seq::empty());
        while index < self.characters.len()
            invariant
                self.position <= index <= self.characters.len(),
                text@ == self.characters@.subrange(self.position as int, index as int),
            decreases self.characters.len() - index,
        {
            text.push(self.characters[index]);
            assert(self.characters@.subrange(self.position as int, index + 1)
                =~= self.characters@.subrange(self.position as int, index as int).push(
                self.characters@[index as int],
            ));
            index += 1;
        }
        assert(self.characters@.subrange(self.position as int, index as int)
            =~= self.characters@.skip(self.position as int));
        text
    }
}

/// What the scan reads off the text for a token's payload. A number is
/// given by its decimal text: its value is the embedding program's to compute.
pub enum ScannedLiteral {
    Str(Seq<char>),
    Num(Seq<char>),
    Identifier(TokenType),
    Label(Seq<char>),
}

/// What the scan reads off the text for one token.
pub struct ScannedToken {
    pub token_type: TokenType,
    pub lexeme: Seq<char>,
    pub literal: Option<ScannedLiteral>,
    pub line: u32,
}

/// The number of characters at the front of `text` that all satisfy `keep`.
pub open spec fn run_length(text: Seq<char>, keep: spec_fn(char) -> bool) -> nat
    decreases text.len(),
{
    if text.len() > 0 && keep(text[0]) {
        1 + run_length(text.drop_first(), keep)
    } else {
        0
    }
}

/// A run is as long as its characters that satisfy `keep`, up to the first one
/// that does not or to the end of the text.
pub proof fn lemma_run_length(text: Seq<char>, keep: spec_fn(char) -> bool, length: int)
    requires
        0 <= length <= text.len(),
        forall|i: int| 0 <= i < length ==> keep(#[trigger] text[i]),
        length == text.len() || !keep(text[length]),
    ensures
        run_length(text, keep) == length,
    decreases length,
{
    if length > 0 {
        let rest = text.drop_first();
        assert forall|i: int| 0 <= i < length - 1 implies keep(#[trigger] rest[i]) by {
            assert(rest[i] == text[i + 1]);
        }
        lemma_run_length(rest, keep, length - 1);
    }
}

/// The number of decimal points in a text.
pub open spec fn points(text: Seq<char>) -> nat
    decreases text.len(),
{
    if text.len() == 0 {
        0
    } else {
        points(text.drop_last()) + if text.last() == '.' {
            1nat
        } else {
            0nat
        }
    }
}

/// The kind of a one-character operator, or of the two-character operator that
/// it forms with an equals sign right behind it.
pub open spec fn two_chars_type(token_type: TokenType, rest: Seq<char>) -> TokenType {
    if rest.len() > 0 && rest[0] == '=' {
        match token_type {
            TokenType::BANG => TokenType::BANG_EQUAL,
            TokenType::EQUAL => TokenType::EQUAL_EQUAL,
            TokenType::LESS => TokenType::LESS_EQUAL,
            TokenType::GREATER => TokenType::GREATER_EQUAL,
            _ => token_type,
        }
    } else {
        token_type
    }
}

/// The reserved word that a word is, if it is one.
pub open spec fn keyword(word: Seq<char>) -> Option<TokenType> {
    if word == "and"@ {
        Some(TokenType::AND)
    } else if word == "class"@ {
        Some(TokenType::CLASS)
    } else if word == "else"@ {
        Some(TokenType::ELSE)
    } else if word == "false"@ {
        Some(TokenType::FALSE)
    } else if word == "fun"@ {
        Some(TokenType::FUN)
    } else if word == "for"@ {
        Some(TokenType::FOR)
    } else if word == "if"@ {
        Some(TokenType::IF)
    } else if word == "nil"@ {
        Some(TokenType::NIL)
    } else if word == "or"@ {
        Some(TokenType::OR)
    } else if word == "print"@ {
        Some(TokenType::PRINT)
    } else if word == "return"@ {
        Some(TokenType::RETURN)
    } else if word == "super"@ {
        Some(TokenType::SUPER)
    } else if word == "this"@ {
        Some(TokenType::THIS)
    } else if word == "true"@ {
        Some(TokenType::TRUE)
    } else if word == "var"@ {
        Some(TokenType::VAR)
    } else if word == "while"@ {
        Some(TokenType::WHILE)
    } else {
        None
    }
}

/// The characters that continue a word.
pub open spec fn in_word() -> spec_fn(char) -> bool {
    |c: char| alphanumeric(c)
}

/// The characters that continue a number.
pub open spec fn in_number() -> spec_fn(char) -> bool {
    |c: char| is_ascii_digit(c) || c == '.'
}

/// The characters that continue a string.
pub open spec fn in_string() -> spec_fn(char) -> bool {
    |c: char| c != '"'
}

/// The word that starts with `first`: `first` and the alphanumeric
/// characters right behind it.
pub open spec fn word(first: char, rest: Seq<char>) -> Seq<char> {
    seq![first] + rest.take(run_length(rest, in_word()) as int)
}

/// The text of the number that starts with `first`: `first` and the
/// digits and points right behind it.
pub open spec fn number_text(first: char, rest: Seq<char>) -> Seq<char> {
    seq![first] + rest.take(run_length(rest, in_number()) as int)
}

/// The text of the string that opens with `first`: `first` and the characters
/// behind it up to the closing quote, which is not part of the text. Without
/// a closing quote there is no string.
pub open spec fn string_text(first: char, rest: Seq<char>) -> Option<Seq<char>> {
    let length = run_length(rest, in_string());
    if length < rest.len() {
        Some(seq![first] + rest.take(length as int))
    } else {
        None
    }
}

/// A token without payload, written with one character.
pub open spec fn plain(token_type: TokenType, character: char) -> ScannedToken {
    ScannedToken { token_type, lexeme: seq![character], literal: None, line: 0 }
}

/// A token with a payload, written with its first character.
pub open spec fn loaded(
    token_type: TokenType,
    character: char,
    literal: ScannedLiteral,
) -> ScannedToken {
    ScannedToken { token_type, lexeme: seq![character], literal: Some(literal), line: 0 }
}

/// The token that marks the end of the input.
pub open spec fn end_of_input() -> ScannedToken {
    ScannedToken { token_type: TokenType::EOF, lexeme: Seq::empty(), literal: None, line: 0 }
}

/// What the scan makes of the character `first` with `rest` behind it:
/// the token, if the character starts one, and how many characters of `rest`
/// belong to it; or the error that ends the scan.
pub open spec fn first_token(first: char, rest: Seq<char>) -> Result<
    (Option<ScannedToken>, int),
    TokenizerError,
> {
    if first == '(' {
        Ok((Some(plain(TokenType::LEFT_PAREN, first)), 0))
    } else if first == ')' {
        Ok((Some(plain(TokenType::RIGHT_PAREN, first)), 0))
    } else if first == '{' {
        Ok((Some(plain(TokenType::LEFT_BRACE, first)), 0))
    } else if first == '}' {
        Ok((Some(plain(TokenType::RIGHT_BRACE, first)), 0))
    } else if first == ',' {
        Ok((Some(plain(TokenType::COMMA, first)), 0))
    } else if first == '.' {
        Ok((Some(plain(TokenType::DOT, first)), 0))
    } else if first == '-' {
        Ok((Some(plain(TokenType::MINUS, first)), 0))
    } else if first == '+' {
        Ok((Some(plain(TokenType::PLUS, first)), 0))
    } else if first == ';' {
        Ok((Some(plain(TokenType::SEMICOLON, first)), 0))
    } else if first == '*' {
        Ok((Some(plain(TokenType::STAR, first)), 0))
    } else if first == '/' {
        Ok((Some(plain(TokenType::SLASH, first)), 0))
    } else if first == '!' || first == '=' || first == '<' || first == '>' {
        let single = if first == '!' {
            TokenType::BANG
        } else if first == '=' {
            TokenType::EQUAL
        } else if first == '<' {
            TokenType::LESS
        } else {
            TokenType::GREATER
        };
        let token_type = two_chars_type(single, rest);
        Ok(
            (
                Some(plain(token_type, first)),
                if token_type != single {
                    1int
                } else {
                    0int
                },
            ),
        )
    } else if first == '"' {
        match string_text(first, rest) {
            Some(text) => Ok(
                (
                    Some(loaded(TokenType::STRING, first, ScannedLiteral::Str(text))),
                    text.len() as int,
                ),
            ),
            None => Err(TokenizerError::StringTokenScanError),
        }
    } else if first == ' ' {
        Ok((None, 0))
    } else if is_ascii_digit(first) {
        let text = number_text(first, rest);
        if points(text) <= 1 {
            Ok(
                (
                    Some(loaded(TokenType::NUMBER, first, ScannedLiteral::Num(text))),
                    text.len() - 1,
                ),
            )
        } else {
            Err(TokenizerError::TokenScanError)
        }
    } else if alphanumeric(first) {
        let name = word(first, rest);
        match keyword(name) {
            Some(reserved) => Ok(
                (
                    Some(loaded(TokenType::IDENTIFIER, first, ScannedLiteral::Identifier(reserved))),
                    name.len() - 1,
                ),
            ),
            None => Ok(
                (
                    Some(
                        ScannedToken {
                            token_type: TokenType::LABEL,
                            lexeme: "label"@,
                            literal: Some(ScannedLiteral::Label(name)),
                            line: 0,
                        },
                    ),
                    name.len() - 1,
                ),
            ),
        }
    } else {
        Err(TokenizerError::TokenScanError)
    }
}

/// The tokens of a text: those of its characters from left to right, then the
/// end of input; or the error of the first character that cannot be scanned.
pub open spec fn scanned(text: Seq<char>) -> Result<Seq<ScannedToken>, TokenizerError>
    decreases text.len(),
{
    if text.len() == 0 {
        Ok(seq![end_of_input()])
    } else {
        match first_token(text[0], text.drop_first()) {
            Err(error) => Err(error),
            Ok((token, taken)) => {
                proof {
                    lemma_first_token_taken(text[0], text.drop_first());
                }
                match scanned(text.skip(1 + taken)) {
                    Err(error) => Err(error),
                    Ok(tokens) => Ok(
                        match token {
                            Some(token) => seq![token] + tokens,
                            None => tokens,
                        },
                    ),
                }
            },
        }
    }
}

/// The tokens of a text end with the end of input, and no token before it is
/// of that kind.
pub proof fn lemma_scanned_ends_with_end_of_input(text: Seq<char>)
    ensures
        scanned(text) matches Ok(tokens) ==> {
            &&& tokens.len() > 0
            &&& tokens.last() == end_of_input()
            &&& forall|i: int|
                0 <= i < tokens.len() - 1 ==> (#[trigger] tokens[i]).token_type != TokenType::EOF
        },
    decreases text.len(),
{
    if text.len() > 0 {
        match first_token(text[0], text.drop_first()) {
            Ok((token, taken)) => {
                lemma_first_token_taken(text[0], text.drop_first());
                lemma_scanned_ends_with_end_of_input(text.skip(1 + taken));
            },
            Err(_) => {},
        }
    }
}

/// Spaces before a text change nothing of its tokens.
pub proof fn lemma_space_is_skipped(text: Seq<char>)
    ensures
        scanned(seq![' '] + text) == scanned(text),
{
    let spaced = seq![' '] + text;
    assert(spaced.drop_first() =~= text);
    assert(spaced.skip(1) =~= text);
}

/// The text of a number is made of digits and points, and starts with a digit
/// where its first character is one.
pub proof fn lemma_number_text(first: char, rest: Seq<char>)
    requires
        is_ascii_digit(first),
    ensures
        number_text(first, rest).len() > 0,
        forall|i: int|
            0 <= i < number_text(first, rest).len() ==> is_ascii_digit(
                #[trigger] number_text(first, rest)[i],
            ) || number_text(first, rest)[i] == '.',
{
    lemma_run_holds(rest, in_number());
}

/// Whether a text is a decimal literal: digits with at most one point among
/// them, and a digit first.
pub open spec fn is_decimal(text: Seq<char>) -> bool {
    &&& text.len() > 0
    &&& is_ascii_digit(text[0])
    &&& forall|i: int| 0 <= i < text.len() ==> is_ascii_digit(#[trigger] text[i]) || text[i] == '.'
    &&& points(text) <= 1
}

/// Whether a token is no number or a number whose text is a decimal literal.
pub open spec fn has_decimal_text(token: ScannedToken) -> bool {
    token.literal matches Some(ScannedLiteral::Num(text)) ==> is_decimal(text)
}

/// The number tokens of a text all hold decimal literals: no other text is
/// handed on to be parsed.
pub proof fn lemma_scanned_numbers_are_decimal(text: Seq<char>)
    ensures
        scanned(text) matches Ok(tokens) ==> forall|i: int|
            0 <= i < tokens.len() ==> has_decimal_text(#[trigger] tokens[i]),
    decreases text.len(),
{
    if text.len() > 0 {
        let first = text[0];
        let rest = text.drop_first();
        match first_token(first, rest) {
            Ok((token, taken)) => {
                lemma_first_token_taken(first, rest);
                lemma_scanned_numbers_are_decimal(text.skip(1 + taken));
                if is_ascii_digit(first) {
                    lemma_number_text(first, rest);
                }
                if let Some(token) = token {
                    assert(has_decimal_text(token));
                }
            },
            Err(_) => {},
        }
    }
}

/// Every character of a run satisfies `keep`.
pub proof fn lemma_run_holds(text: Seq<char>, keep: spec_fn(char) -> bool)
    ensures
        run_length(text, keep) <= text.len(),
        forall|i: int| 0 <= i < run_length(text, keep) ==> keep(#[trigger] text[i]),
    decreases text.len(),
{
    if text.len() > 0 && keep(text[0]) {
        let rest = text.drop_first();
        lemma_run_holds(rest, keep);
        assert forall|i: int| 0 <= i < run_length(text, keep) implies keep(
            #[trigger] text[i],
        ) by {
            if i > 0 {
                assert(text[i] == rest[i - 1]);
            }
        }
    }
}

/// A token never takes more characters than are left behind its first.
pub proof fn lemma_first_token_taken(first: char, rest: Seq<char>)
    ensures
        first_token(first, rest) matches Ok((_, taken)) ==> 0 <= taken <= rest.len(),
{
    lemma_run_holds(rest, in_word());
    lemma_run_holds(rest, in_number());
    lemma_run_holds(rest, in_string());
}

/// Whether a token holds what the scan read off the text. The value of a
/// number is one that `arithmetic` gave for the number's text.
pub open spec fn token_matches<A: Arithmetic>(
    arithmetic: &A,
    token: Token,
    scanned: ScannedToken,
) -> bool {
    &&& token.token_type == scanned.token_type
    &&& token.lexeme@ == scanned.lexeme
    &&& token.line == scanned.line
    &&& match (token.literal, scanned.literal) {
        (None, None) => true,
        (Some(Literal::Str(text)), Some(ScannedLiteral::Str(characters))) => text@ == characters,
        (Some(Literal::Num(number)), Some(ScannedLiteral::Num(digits))) => parses_to(
            arithmetic,
            digits,
            number,
        ),
        (
            Some(Literal::Identifier(reserved)),
            Some(ScannedLiteral::Identifier(expected)),
        ) => reserved == expected,
        (Some(Literal::Label(name)), Some(ScannedLiteral::Label(characters))) => name@
            == characters,
        _ => false,
    }
}

/// Whether `number` is a value that `arithmetic` gave for the decimal text `digits`.
pub open spec fn parses_to<A: Arithmetic>(arithmetic: &A, digits: Seq<char>, number: Number) -> bool {
    exists|literal: &str| literal@ == digits && call_ensures(A::parse, (arithmetic, literal), number)
}

/// Whether the tokens hold, one by one, what the scan read off the text.
pub open spec fn tokens_match<A: Arithmetic>(
    arithmetic: &A,
    tokens: Seq<Token>,
    scanned: Seq<ScannedToken>,
) -> bool {
    &&& tokens.len() == scanned.len()
    &&& forall|i: int|
        0 <= i < tokens.len() ==> token_matches(arithmetic, #[trigger] tokens[i], scanned[i])
}

/// The reserved word that the characters spell, if they spell one.
fn keyword_of(name: &Vec<char>) -> (reserved: Option<TokenType>)
    ensures
        reserved == keyword(name@),
{
    if spells(name, "and") {
        Some(TokenType::AND)
    } else if spells(name, "class") {
        Some(TokenType::CLASS)
    } else if spells(name, "else") {
        Some(TokenType::ELSE)
    } else if spells(name, "false") {
        Some(TokenType::FALSE)
    } else if spells(name, "fun") {
        Some(TokenType::FUN)
    } else if spells(name, "for") {
        Some(TokenType::FOR)
    } else if spells(name, "if") {
        Some(TokenType::IF)
    } else if spells(name, "nil") {
        Some(TokenType::NIL)
    } else if spells(name, "or") {
        Some(TokenType::OR)
    } else if spells(name, "print") {
        Some(TokenType::PRINT)
    } else if spells(name, "return") {
        Some(TokenType::RETURN)
    } else if spells(name, "super") {
        Some(TokenType::SUPER)
    } else if spells(name, "this") {
        Some(TokenType::THIS)
    } else if spells(name, "true") {
        Some(TokenType::TRUE)
    } else if spells(name, "var") {
        Some(TokenType::VAR)
    } else if spells(name, "while") {
        Some(TokenType::WHILE)
    } else {
        None
    }
}

/// The word that starts with `first`; its characters stay in place.
fn peek_word(first: char, characters: &Characters) -> (name: Vec<char>)
    ensures
        name@ == word(first, characters.remaining()),
        name@.len() - 1 <= characters.remaining().len(),
{
    let ghost rest = characters.remaining();
    let mut name: Vec<char> = Vec::new();
    name.push(first);
    let mut taken: usize = 0;
    assert(name@ =~= seq![first] + rest.take(0));
    loop
        invariant
            rest == characters.remaining(),
            taken <= rest.len(),
            name@ == seq![first] + rest.take(taken as int),
            forall|i: int| 0 <= i < taken ==> alphanumeric(#[trigger] rest[i]),
        ensures
            taken <= rest.len(),
            name@ == seq![first] + rest.take(taken as int),
            forall|i: int| 0 <= i < taken ==> alphanumeric(#[trigger] rest[i]),
            taken == rest.len() || !alphanumeric(rest[taken as int]),
        decreases rest.len() - taken,
    {
        match characters.peek_at(taken) {
            Some(character) => {
                if character.is_alphanumeric() {
                    name.push(character);
                    assert(rest.take(taken + 1) =~= rest.take(taken as int).push(rest[taken as int]));
                    assert(name@ =~= seq![first] + rest.take(taken + 1));
                    taken += 1;
                } else {
                    break ;
                }
            },
            None => {
                break ;
            },
        }
    }
    proof {
        lemma_run_length(rest, in_word(), taken as int);
    }
    name
}

/// The kind of the operator that starts with a one-character operator of kind
/// `token_type`; takes the equals sign where it belongs to the operator.
pub fn resolve_two_chars_type(token_type: TokenType, characters: &mut Characters) -> (result:
    TokenType)
    ensures
        result == two_chars_type(token_type, old(characters).remaining()),
        final(characters).remaining() == if result != token_type {
            old(characters).remaining().skip(1)
        } else {
            old(characters).remaining()
        },
{
    let result = if let Some(character) = characters.peek() {
        if character == '=' {
            match token_type {
                TokenType::BANG => TokenType::BANG_EQUAL,
                TokenType::EQUAL => TokenType::EQUAL_EQUAL,
                TokenType::LESS => TokenType::LESS_EQUAL,
                TokenType::GREATER => TokenType::GREATER_EQUAL,
                _ => token_type,
            }
        } else {
            token_type
        }
    } else {
        token_type
    };
    if result != token_type {
        characters.next();
    }
    result
}

/// Reads the string that opens with `first_value`, up to and with its closing quote.
pub fn resolve_string(first_value: char, characters: &mut Characters) -> (result: Result<
    String,
    TokenizerError,
>)
    ensures
        match string_text(first_value, old(characters).remaining()) {
            Some(text) => result matches Ok(value) && value@ == text && final(characters).remaining() == old(characters).remaining().skip(text.len() as int),
            None => result == Err::<String, TokenizerError>(TokenizerError::StringTokenScanError),
        },
{
    let ghost rest = characters.remaining();
    let mut result = String::new();
    result.push(first_value);
    let ghost mut taken: int = 0;
    assert(result@ =~= seq![first_value] + rest.take(0));
    assert(rest.skip(0) =~= rest);
    loop
        invariant
            rest == old(characters).remaining(),
            0 <= taken <= rest.len(),
            characters.remaining() == rest.skip(taken),
            result@ == seq![first_value] + rest.take(taken),
            forall|i: int| 0 <= i < taken ==> #[trigger] rest[i] != '"',
        decreases rest.len() - taken,
    {
        match characters.next() {
            Some(character) => {
                if character != '"' {
                    result.push(character);
                    assert(rest.skip(taken).skip(1) =~= rest.skip(taken + 1));
                    assert(rest.take(taken + 1) =~= rest.take(taken).push(rest[taken]));
                    assert(result@ =~= seq![first_value] + rest.take(taken + 1));
                    proof {
                        taken = taken + 1;
                    }
                } else {
                    proof {
                        lemma_run_length(rest, in_string(), taken);
                        assert(rest.skip(taken).skip(1) =~= rest.skip(taken + 1));
                    }
                    return Ok(result);
                }
            },
            None => {
                proof {
                    lemma_run_length(rest, in_string(), taken);
                }
                return Err(TokenizerError::StringTokenScanError);
            },
        }
    }
}

/// Reads the word that starts with `first_value`. A reserved word is taken
/// and its kind returned; any other word is left in place.
pub fn resolve_identifier(first_value: char, characters: &mut Characters) -> (result: Result<
    TokenType,
    TokenizerError,
>)
    ensures
        match keyword(word(first_value, old(characters).remaining())) {
            Some(reserved) => result == Ok::<TokenType, TokenizerError>(reserved) && final(characters).remaining() == old(characters).remaining().skip(
                word(first_value, old(characters).remaining()).len() - 1,
            ),
            None => result == Err::<TokenType, TokenizerError>(
                TokenizerError::IdentifierMissmatch,
            ) && final(characters).remaining() == old(characters).remaining(),
        },
{
    let identifier = peek_word(first_value, characters);
    match keyword_of(&identifier) {
        Some(token) => {
            characters.advance(identifier.len() - 1);
            Ok(token)
        },
        None => Err(TokenizerError::IdentifierMissmatch),
    }
}

/// Reads the word that starts with `first_character` as the name of something callable.
fn resolve_label(first_character: char, characters: &mut Characters) -> (result: Result<
    Literal,
    TokenizerError,
>)
    ensures
        result matches Ok(Literal::Label(name)) && name@ == word(
            first_character,
            old(characters).remaining(),
        ),
        final(characters).remaining() == old(characters).remaining().skip(
            word(first_character, old(characters).remaining()).len() - 1,
        ),
{
    let label_name = peek_word(first_character, characters);
    characters.advance(label_name.len() - 1);
    Ok(Literal::Label(string_of(&label_name)))
}

/// The number of decimal points among the characters.
fn count_points(text: &Vec<char>) -> (count: usize)
    ensures
        count == points(text@),
{
    let mut count: usize = 0;
    let mut index: usize = 0;
    assert(text@.take(0) =~= Seq::empty());
    while index < text.len()
        invariant
            index <= text.len(),
            count <= index,
            count == points(text@.take(index as int)),
        decreases text.len() - index,
    {
        assert(text@.take(index + 1).drop_last() =~= text@.take(index as int));
        if text[index] == '.' {
            count += 1;
        }
        index += 1;
    }
    assert(text@.take(index as int) =~= text@);
    count
}

/// Reads the number that starts with `first_value` and has `arithmetic` give
/// its value. A text with more than one decimal point is no number.
fn resolve_number<A: Arithmetic>(
    first_value: char,
    characters: &mut Characters,
    arithmetic: &A,
) -> (result: Result<Number, TokenizerError>)
    ensures
        final(characters).remaining() == old(characters).remaining().skip(
            number_text(first_value, old(characters).remaining()).len() - 1,
        ),
        if points(number_text(first_value, old(characters).remaining())) <= 1 {
            result matches Ok(value) && parses_to(
                arithmetic,
                number_text(first_value, old(characters).remaining()),
                value,
            )
        } else {
            result == Err::<Number, TokenizerError>(TokenizerError::TokenScanError)
        },
{
    let ghost rest = characters.remaining();
    let mut result: Vec<char> = Vec::new();
    result.push(first_value);
    let ghost mut taken: int = 0;
    assert(result@ =~= seq![first_value] + rest.take(0));
    assert(rest.skip(0) =~= rest);
    loop
        invariant
            rest == old(characters).remaining(),
            0 <= taken <= rest.len(),
            characters.remaining() == rest.skip(taken),
            result@ == seq![first_value] + rest.take(taken),
            forall|i: int|
                0 <= i < taken ==> is_ascii_digit(#[trigger] rest[i]) || rest[i] == '.',
        ensures
            taken == rest.len() || !(is_ascii_digit(rest[taken]) || rest[taken]
                == '.'),
        decreases rest.len() - taken,
    {
        match characters.peek() {
            Some(character) => {
                if ascii_digit(character) || character == '.' {
                    result.push(character);
                    characters.next();
                    assert(rest.skip(taken).skip(1) =~= rest.skip(taken + 1));
                    assert(rest.take(taken + 1) =~= rest.take(taken).push(rest[taken]));
                    assert(result@ =~= seq![first_value] + rest.take(taken + 1));
                    proof {
                        taken = taken + 1;
                    }
                } else {
                    break ;
                }
            },
            None => {
                break ;
            },
        }
    }
    proof {
        lemma_run_length(rest, in_number(), taken);
    }
    if count_points(&result) <= 1 {
        let literal = string_of(&result);
        Ok(arithmetic.parse(literal.as_str()))
    } else {
        Err(TokenizerError::TokenScanError)
    }
}

fn add_token(token_type: TokenType, character: char, line: u32, tokens: &mut Vec<Token>)
    ensures
        final(tokens)@.len() == old(tokens)@.len() + 1,
        final(tokens)@.drop_last() == old(tokens)@,
        final(tokens)@.last().token_type == token_type,
        final(tokens)@.last().lexeme@ == seq![character],
        final(tokens)@.last().literal is None,
        final(tokens)@.last().line == line,
{
    let mut lexeme = String::new();
    lexeme.push(character);
    tokens.push(Token { token_type, lexeme, literal: None, line });
    assert(tokens@.drop_last() =~= old(tokens)@);
}

fn add_token_with_literal(
    token_type: TokenType,
    character: char,
    line: u32,
    literal: Literal,
    tokens: &mut Vec<Token>,
)
    ensures
        final(tokens)@.len() == old(tokens)@.len() + 1,
        final(tokens)@.drop_last() == old(tokens)@,
        final(tokens)@.last().token_type == token_type,
        final(tokens)@.last().lexeme@ == seq![character],
        final(tokens)@.last().literal == Some(literal),
        final(tokens)@.last().line == line,
{
    let mut lexeme = String::new();
    lexeme.push(character);
    tokens.push(Token { token_type, lexeme, literal: Some(literal), line });
    assert(tokens@.drop_last() =~= old(tokens)@);
}

/// The tokens read so far, followed by what the rest of the text scans to.
pub open spec fn followed_by(
    tokens: Seq<ScannedToken>,
    rest: Result<Seq<ScannedToken>, TokenizerError>,
) -> Result<Seq<ScannedToken>, TokenizerError> {
    match rest {
        Ok(more) => Ok(tokens + more),
        Err(error) => Err(error),
    }
}

/// Tokenizes one line. Numbers get their values from `arithmetic`.
pub fn get_prompt_tokens<A: Arithmetic>(prompt: String, arithmetic: &A) -> (result: Result<
    Vec<Token>,
    TokenizerError,
>)
    ensures
        match scanned(prompt@) {
            Ok(expected) => result matches Ok(tokens) && tokens_match(
                arithmetic,
                tokens@,
                expected,
            ),
            Err(error) => result == Err::<Vec<Token>, TokenizerError>(error),
        },
{
    let line: u32 = 0;
    let mut tokens: Vec<Token> = Vec::new();
    let mut characters = Characters::new(prompt.as_str());
    let ghost mut read: Seq<ScannedToken> = Seq::empty();
    assert(followed_by(read, scanned(characters.remaining())) == scanned(prompt@)) by {
        match scanned(prompt@) {
            Ok(more) => {
                assert(read + more =~= more);
            },
            Err(_) => {},
        }
    }
    loop
        invariant
            line == 0,
            tokens_match(arithmetic, tokens@, read),
            followed_by(read, scanned(characters.remaining())) == scanned(prompt@),
        ensures
            characters.remaining().len() == 0,
            tokens_match(arithmetic, tokens@, read),
            followed_by(read, scanned(characters.remaining())) == scanned(prompt@),
        decreases characters.remaining().len(),
    {
        let ghost text = characters.remaining();
        let ghost before = tokens@;
        let character = match characters.next() {
            Some(character) => character,
            None => {
                break ;
            },
        };
        let ghost rest = characters.remaining();
        proof {
            assert(rest =~= text.drop_first());
            lemma_first_token_taken(character, rest);
        }
        if character == '(' {
            add_token(TokenType::LEFT_PAREN, character, line, &mut tokens);
        } else if character == ')' {
            add_token(TokenType::RIGHT_PAREN, character, line, &mut tokens);
        } else if character == '{' {
            add_token(TokenType::LEFT_BRACE, character, line, &mut tokens);
        } else if character == '}' {
            add_token(TokenType::RIGHT_BRACE, character, line, &mut tokens);
        } else if character == ',' {
            add_token(TokenType::COMMA, character, line, &mut tokens);
        } else if character == '.' {
            add_token(TokenType::DOT, character, line, &mut tokens);
        } else if character == '-' {
            add_token(TokenType::MINUS, character, line, &mut tokens);
        } else if character == '+' {
            add_token(TokenType::PLUS, character, line, &mut tokens);
        } else if character == ';' {
            add_token(TokenType::SEMICOLON, character, line, &mut tokens);
        } else if character == '*' {
            add_token(TokenType::STAR, character, line, &mut tokens);
        } else if character == '/' {
            add_token(TokenType::SLASH, character, line, &mut tokens);
        } else if character == '!' {
            let token_type = resolve_two_chars_type(TokenType::BANG, &mut characters);
            add_token(token_type, character, line, &mut tokens);
        } else if character == '=' {
            let token_type = resolve_two_chars_type(TokenType::EQUAL, &mut characters);
            add_token(token_type, character, line, &mut tokens);
        } else if character == '<' {
            let token_type = resolve_two_chars_type(TokenType::LESS, &mut characters);
            add_token(token_type, character, line, &mut tokens);
        } else if character == '>' {
            let token_type = resolve_two_chars_type(TokenType::GREATER, &mut characters);
            add_token(token_type, character, line, &mut tokens);
        } else if character == '"' {
            match resolve_string(character, &mut characters) {
                Ok(value) => add_token_with_literal(
                    TokenType::STRING,
                    character,
                    line,
                    Literal::Str(value),
                    &mut tokens,
                ),
                Err(err) => return Err(err),
            }
        } else if character == ' ' {
        } else if ascii_digit(character) {
            match resolve_number(character, &mut characters, arithmetic) {
                Ok(value) => add_token_with_literal(
                    TokenType::NUMBER,
                    character,
                    line,
                    Literal::Num(value),
                    &mut tokens,
                ),
                Err(err) => return Err(err),
            }
        } else if character.is_alphanumeric() {
            match resolve_identifier(character, &mut characters) {
                Ok(value) => add_token_with_literal(
                    TokenType::IDENTIFIER,
                    character,
                    line,
                    Literal::Identifier(value),
                    &mut tokens,
                ),
                Err(_) => match resolve_label(character, &mut characters) {
                    Ok(label) => {
                        tokens.push(
                            Token {
                                token_type: TokenType::LABEL,
                                lexeme: String::from_str("label"),
                                literal: Some(label),
                                line,
                            },
                        );
                        assert(tokens@.drop_last() =~= before);
                    },
                    Err(_) => return Err(TokenizerError::NoIdentifierNorFunctionError),
                },
            }
        } else {
            return Err(TokenizerError::TokenScanError);
        }
        proof {
            let step = first_token(character, rest);
            let taken = step->Ok_0.1;
            assert(characters.remaining() =~= text.skip(1 + taken));
            match step->Ok_0.0 {
                Some(token) => {
                    assert(tokens@.len() == before.len() + 1);
                    assert(token_matches(arithmetic, tokens@.last(), token));
                    assert forall|i: int| 0 <= i < tokens@.len() implies token_matches(
                        arithmetic,
                        #[trigger] tokens@[i],
                        read.push(token)[i],
                    ) by {
                        if i < before.len() {
                            assert(tokens@[i] == tokens@.drop_last()[i]);
                        }
                    }
                    match scanned(characters.remaining()) {
                        Ok(more) => {
                            assert(read + (seq![token] + more) =~= read.push(token) + more);
                        },
                        Err(_) => {},
                    }
                    read = read.push(token);
                },
                None => {},
            }
        }
    }
    tokens.push(Token { token_type: TokenType::EOF, lexeme: String::new(), literal: None, line });
    proof {
        let ghost last = tokens@.len() - 1;
        assert(read + seq![end_of_input()] =~= read.push(end_of_input()));
        assert forall|i: int| 0 <= i < tokens@.len() implies token_matches(
            arithmetic,
            #[trigger] tokens@[i],
            read.push(end_of_input())[i],
        ) by {
            if i < last {
                assert(tokens@[i] == tokens@.drop_last()[i]);
            }
        }
    }
    Ok(tokens)
}

} // verus!
