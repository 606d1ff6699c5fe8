//! The grammar: one left-to-right pass over the tokens that builds the
//! expression tree. A binary operator takes the expression parsed just before
//! it as its left operand, so chains associate to the left and no operator
//! binds tighter than another.

use vstd::prelude::*;
use crate::number::Number;
use crate::tokenizer::{Literal, Token, TokenType};

verus! {

/// Why a token sequence is no expression tree.
#[derive(Clone, Copy, Debug, PartialEq, Eq, Structural)]
pub enum AstParseError {
    TokenInvalidGrammar,
    MissingLiteralForNumber,
    MissingLiteralForString,
    MissingLiteralForIdentifier,
    UnaryWithNoValidNextToken,
    InvalidFactorExpressions,
    LabelWithNoValidNextToken,
    InvalidTokensInGroup,
}

/// The expressions of one line, in the order in which they were completed.
#[derive(Clone, Debug, PartialEq)]
pub struct Ast {
    pub tree: Vec<Expression>,
}

#[derive(Debug, PartialEq)]
pub enum Expression {
    Function(Function),
}

#[derive(Debug, PartialEq)]
pub enum Function {
    /// A parenthesized, comma-separated list of expressions.
    Group(Vec<Expression>),
    /// A callable's name and its arguments.
    Call(String, Vec<Expression>),
    Operation(Operation),
}

#[derive(Debug, PartialEq)]
pub enum Operation {
    Operation(Box<Operation>, Operator, Box<Operation>),
    Unary(Unary),
}

#[derive(Debug, PartialEq)]
pub enum Unary {
    Bang(Box<Unary>),
    Minus(Box<Unary>),
    Primary(Primary),
}

#[derive(Debug, PartialEq)]
pub enum Primary {
    Number(Number),
    Str(String),
    True,
    False,
    Nil,
    Eof,
}

#[derive(Clone, Copy, Debug, PartialEq, Eq, Structural)]
pub enum Operator {
    Add,
    Minus,
    Multiply,
    Divide,
    EqualEqual,
    BangEqual,
    Less,
    LessOrEqual,
    Greater,
    GreaterOrEqual,
}

/// An expression as a mathematical value: its lists are sequences.
pub enum ExpressionView {
    Group(Seq<ExpressionView>),
    Call(String, Seq<ExpressionView>),
    Operation(Operation),
}

/// The views of a list of expressions, item by item.
pub open spec fn views_of(items: Seq<Expression>) -> Seq<ExpressionView>
    decreases items,
{
    Seq::new(
        items.len(),
        |i: int|
            if 0 <= i < items.len() {
                items[i].view()
            } else {
                ExpressionView::Group(Seq::empty())
            },
    )
}

impl View for Expression {
    type V = ExpressionView;

    open spec fn view(&self) -> ExpressionView
        decreases self,
    {
        match self {
            Expression::Function(Function::Group(items)) => ExpressionView::Group(
                views_of(items@),
            ),
            Expression::Function(Function::Call(name, arguments)) => ExpressionView::Call(
                *name,
                views_of(arguments@),
            ),
            Expression::Function(Function::Operation(operation)) => ExpressionView::Operation(
                *operation,
            ),
        }
    }
}

impl Clone for Primary {
    fn clone(&self) -> (copy: Self)
        ensures
            copy == *self,
    {
        match self {
            Primary::Number(number) => Primary::Number(*number),
            Primary::Str(text) => Primary::Str(text.clone()),
            Primary::True => Primary::True,
            Primary::False => Primary::False,
            Primary::Nil => Primary::Nil,
            Primary::Eof => Primary::Eof,
        }
    }
}

impl Clone for Unary {
    fn clone(&self) -> (copy: Self)
        ensures
            copy == *self,
        decreases self,
    {
        match self {
            Unary::Bang(inner) => Unary::Bang(Box::new((**inner).clone())),
            Unary::Minus(inner) => Unary::Minus(Box::new((**inner).clone())),
            Unary::Primary(primary) => Unary::Primary(primary.clone()),
        }
    }
}

impl Clone for Operation {
    fn clone(&self) -> (copy: Self)
        ensures
            copy == *self,
        decreases self,
    {
        match self {
            Operation::Operation(left, operator, right) => Operation::Operation(
                Box::new((**left).clone()),
                *operator,
                Box::new((**right).clone()),
            ),
            Operation::Unary(unary) => Operation::Unary(unary.clone()),
        }
    }
}

/// Copies of the given expressions, in the same order.
fn clone_expressions(items: &Vec<Expression>) -> (copies: Vec<Expression>)
    ensures
        copies@.len() == items@.len(),
        views_of(copies@) == views_of(items@),
    decreases items,
{
    let mut copies: Vec<Expression> = Vec::new();
    let mut index: usize = 0;
    while index < items.len()
        invariant
            index <= items.len(),
            copies@.len() == index,
            forall|i: int| 0 <= i < index ==> copies@[i]@ == items@[i]@,
        decreases items.len() - index,
    {
        let copy = items[index].clone();
        copies.push(copy);
        index += 1;
    }
    assert(views_of(copies@) =~= views_of(items@));
    copies
}

impl Clone for Function {
    fn clone(&self) -> (copy: Self)
        ensures
            Expression::Function(copy)@ == Expression::Function(*self)@,
        decreases self,
    {
        match self {
            Function::Group(items) => {
                let copies = clone_expressions(items);
                Function::Group(copies)
            },
            Function::Call(name, arguments) => {
                let copies = clone_expressions(arguments);
                Function::Call(name.clone(), copies)
            },
            Function::Operation(operation) => Function::Operation(operation.clone()),
        }
    }
}

impl Clone for Expression {
    fn clone(&self) -> (copy: Self)
        ensures
            copy@ == self@,
        decreases self,
    {
        match self {
            Expression::Function(function) => Expression::Function(function.clone()),
        }
    }
}

/// The token kinds that stand between two operands.
pub open spec fn is_operator(token_type: TokenType) -> bool {
    token_type == TokenType::PLUS || token_type == TokenType::MINUS || token_type
        == TokenType::STAR || token_type == TokenType::SLASH || token_type
        == TokenType::EQUAL_EQUAL || token_type == TokenType::BANG_EQUAL || token_type
        == TokenType::LESS || token_type == TokenType::LESS_EQUAL || token_type
        == TokenType::GREATER || token_type == TokenType::GREATER_EQUAL
}

/// The operator that an operator token stands for.
pub open spec fn operator_of(token_type: TokenType) -> Operator
    recommends
        is_operator(token_type),
{
    match token_type {
        TokenType::PLUS => Operator::Add,
        TokenType::MINUS => Operator::Minus,
        TokenType::STAR => Operator::Multiply,
        TokenType::SLASH => Operator::Divide,
        TokenType::EQUAL_EQUAL => Operator::EqualEqual,
        TokenType::BANG_EQUAL => Operator::BangEqual,
        TokenType::LESS => Operator::Less,
        TokenType::LESS_EQUAL => Operator::LessOrEqual,
        TokenType::GREATER => Operator::Greater,
        _ => Operator::GreaterOrEqual,
    }
}

/// A leaf of the tree, as an expression.
pub open spec fn leaf(primary: Primary) -> ExpressionView {
    ExpressionView::Operation(Operation::Unary(Unary::Primary(primary)))
}

/// Whether an expression is a binary operation.
pub open spec fn is_binary(expression: ExpressionView) -> bool {
    expression matches ExpressionView::Operation(Operation::Operation(_, _, _))
}

/// The expression that starts with the token at `index`, and the index of the
/// first token behind it. `previous` is the expression completed just before,
/// if the caller has one to offer as a left operand.
pub open spec fn expression_at(
    tokens: Seq<Token>,
    index: int,
    previous: Option<ExpressionView>,
) -> Result<(ExpressionView, int), AstParseError>
    decreases tokens.len() - index, 0int,
    when 0 <= index < tokens.len()
{
    let token = tokens[index];
    if is_operator(token.token_type) && previous is Some && index + 1 < tokens.len() {
        match expression_at(tokens, index + 1, None) {
            Err(error) => Err(error),
            Ok((right, after)) => match (previous->0, right) {
                (
                    ExpressionView::Operation(factor_left),
                    ExpressionView::Operation(factor_right),
                ) => Ok(
                    (
                        ExpressionView::Operation(
                            Operation::Operation(
                                Box::new(factor_left),
                                operator_of(token.token_type),
                                Box::new(factor_right),
                            ),
                        ),
                        after,
                    ),
                ),
                _ => Err(AstParseError::InvalidFactorExpressions),
            },
        }
    } else {
        match token.token_type {
            TokenType::LABEL => match token.literal {
                Some(Literal::Label(name)) => if index + 1 < tokens.len() {
                    match expression_at(tokens, index + 1, None) {
                        Err(error) => Err(error),
                        Ok((ExpressionView::Group(arguments), after)) => Ok(
                            (ExpressionView::Call(name, arguments), after),
                        ),
                        Ok(_) => Err(AstParseError::LabelWithNoValidNextToken),
                    }
                } else {
                    Err(AstParseError::LabelWithNoValidNextToken)
                },
                _ => Err(AstParseError::TokenInvalidGrammar),
            },
            TokenType::LEFT_PAREN => group_at(tokens, index + 1, Seq::empty()),
            TokenType::BANG => if index + 1 < tokens.len() {
                match expression_at(tokens, index + 1, None) {
                    Err(error) => Err(error),
                    Ok((ExpressionView::Operation(Operation::Unary(unary)), after)) => Ok(
                        (
                            ExpressionView::Operation(
                                Operation::Unary(Unary::Bang(Box::new(unary))),
                            ),
                            after,
                        ),
                    ),
                    Ok(_) => Err(AstParseError::UnaryWithNoValidNextToken),
                }
            } else {
                Err(AstParseError::UnaryWithNoValidNextToken)
            },
            TokenType::MINUS => if index + 1 < tokens.len() {
                match expression_at(tokens, index + 1, None) {
                    Err(error) => Err(error),
                    Ok((ExpressionView::Operation(Operation::Unary(unary)), after)) => Ok(
                        (
                            ExpressionView::Operation(
                                Operation::Unary(Unary::Minus(Box::new(unary))),
                            ),
                            after,
                        ),
                    ),
                    Ok(_) => Err(AstParseError::UnaryWithNoValidNextToken),
                }
            } else {
                Err(AstParseError::UnaryWithNoValidNextToken)
            },
            TokenType::NUMBER => match token.literal {
                Some(Literal::Num(number)) => Ok((leaf(Primary::Number(number)), index + 1)),
                _ => Err(AstParseError::MissingLiteralForNumber),
            },
            TokenType::STRING => match token.literal {
                Some(Literal::Str(text)) => Ok((leaf(Primary::Str(text)), index + 1)),
                _ => Err(AstParseError::MissingLiteralForString),
            },
            TokenType::IDENTIFIER => match token.literal {
                Some(Literal::Identifier(TokenType::TRUE)) => Ok((leaf(Primary::True), index + 1)),
                Some(Literal::Identifier(TokenType::FALSE)) => Ok(
                    (leaf(Primary::False), index + 1),
                ),
                Some(Literal::Identifier(TokenType::NIL)) => Ok((leaf(Primary::Nil), index + 1)),
                _ => Err(AstParseError::MissingLiteralForIdentifier),
            },
            TokenType::EOF => Ok((leaf(Primary::Eof), index + 1)),
            _ => Err(AstParseError::TokenInvalidGrammar),
        }
    }
}

/// The rest of a parenthesized group whose next item starts at `index`:
/// items separated by commas, up to the closing parenthesis. `items` are
/// the items of the group read so far.
pub open spec fn group_at(tokens: Seq<Token>, index: int, items: Seq<ExpressionView>) -> Result<
    (ExpressionView, int),
    AstParseError,
>
    decreases tokens.len() - index, 1int,
    when 0 <= index <= tokens.len()
{
    if index >= tokens.len() {
        Err(AstParseError::InvalidTokensInGroup)
    } else {
        match expression_at(tokens, index, None) {
            Err(error) => Err(error),
            Ok((item, after)) => if index < after < tokens.len() {
                match tokens[after].token_type {
                    TokenType::COMMA => group_at(tokens, after + 1, items.push(item)),
                    TokenType::RIGHT_PAREN => Ok(
                        (ExpressionView::Group(items.push(item)), after + 1),
                    ),
                    _ => Err(AstParseError::InvalidTokensInGroup),
                }
            } else {
                Err(AstParseError::InvalidTokensInGroup)
            },
        }
    }
}

/// An expression takes at least its first token and never reads past the end;
/// a binary operation comes only from an operator with an expression before it.
pub proof fn lemma_expression_at(
    tokens: Seq<Token>,
    index: int,
    previous: Option<ExpressionView>,
)
    requires
        0 <= index < tokens.len(),
    ensures
        expression_at(tokens, index, previous) matches Ok((expression, after)) ==> {
            &&& index < after <= tokens.len()
            &&& is_binary(expression) ==> previous is Some
        },
    decreases tokens.len() - index, 0int,
{
    if index + 1 < tokens.len() {
        lemma_expression_at(tokens, index + 1, None);
    }
    if tokens[index].token_type == TokenType::LEFT_PAREN {
        lemma_group_at(tokens, index + 1, Seq::empty());
    }
}

/// A group ends behind its closing parenthesis, within the tokens.
pub proof fn lemma_group_at(tokens: Seq<Token>, index: int, items: Seq<ExpressionView>)
    requires
        0 <= index <= tokens.len(),
    ensures
        group_at(tokens, index, items) matches Ok((expression, after)) ==> {
            &&& index < after <= tokens.len()
            &&& expression is Group
        },
    decreases tokens.len() - index, 1int,
{
    if index < tokens.len() {
        lemma_expression_at(tokens, index, None);
        match expression_at(tokens, index, None) {
            Ok((item, after)) => {
                if index < after < tokens.len() {
                    lemma_group_at(tokens, after + 1, items.push(item));
                }
            },
            Err(_) => {},
        }
    }
}

/// The tree that the tokens from `index` on add to the expressions completed
/// so far. A binary operation replaces the expression before it, which has
/// become its left operand; every other expression is appended.
pub open spec fn tree_from(tokens: Seq<Token>, index: int, tree: Seq<ExpressionView>) -> Result<
    Seq<ExpressionView>,
    AstParseError,
>
    decreases tokens.len() - index,
    when 0 <= index <= tokens.len()
{
    if index >= tokens.len() {
        Ok(tree)
    } else {
        let previous = if tree.len() > 0 {
            Some(tree.last())
        } else {
            None
        };
        match expression_at(tokens, index, previous) {
            Err(error) => Err(error),
            Ok((expression, after)) => {
                proof {
                    lemma_expression_at(tokens, index, previous);
                }
                let kept = if is_binary(expression) {
                    tree.drop_last()
                } else {
                    tree
                };
                tree_from(tokens, after, kept.push(expression))
            },
        }
    }
}

/// The expression tree of a token sequence.
pub open spec fn parsed(tokens: Seq<Token>) -> Result<Seq<ExpressionView>, AstParseError> {
    tree_from(tokens, 0, Seq::empty())
}

/// The leaf that a token is, if it is one with its literal: a number, a string,
/// `true`, `false`, `nil` or the end of input.
pub open spec fn primary_of(token: Token) -> Option<Primary> {
    match (token.token_type, token.literal) {
        (TokenType::NUMBER, Some(Literal::Num(number))) => Some(Primary::Number(number)),
        (TokenType::STRING, Some(Literal::Str(text))) => Some(Primary::Str(text)),
        (TokenType::IDENTIFIER, Some(Literal::Identifier(TokenType::TRUE))) => Some(Primary::True),
        (TokenType::IDENTIFIER, Some(Literal::Identifier(TokenType::FALSE))) => Some(
            Primary::False,
        ),
        (TokenType::IDENTIFIER, Some(Literal::Identifier(TokenType::NIL))) => Some(Primary::Nil),
        (TokenType::EOF, _) => Some(Primary::Eof),
        _ => None,
    }
}

/// Whether the first `2 * operators + 1` tokens are leaves with an operator
/// between each two of them.
pub open spec fn is_chain(tokens: Seq<Token>, operators: int) -> bool {
    &&& 0 <= operators
    &&& 2 * operators + 1 <= tokens.len()
    &&& forall|i: int| 0 <= i <= operators ==> primary_of(#[trigger] tokens[2 * i]) is Some
    &&& forall|i: int|
        0 <= i < operators ==> is_operator((#[trigger] tokens[2 * i + 1]).token_type)
}

/// The operation that a chain with that many operators stands for: its
/// operators are applied from left to right, whatever they are.
pub open spec fn chained(tokens: Seq<Token>, operators: int) -> Operation
    decreases operators,
{
    if operators <= 0 {
        Operation::Unary(Unary::Primary(primary_of(tokens[0])->0))
    } else {
        Operation::Operation(
            Box::new(chained(tokens, operators - 1)),
            operator_of(tokens[2 * operators - 1].token_type),
            Box::new(Operation::Unary(Unary::Primary(primary_of(tokens[2 * operators])->0))),
        )
    }
}

/// A leaf token is a leaf, whatever stands before it.
proof fn lemma_leaf_behind(tokens: Seq<Token>, index: int, previous: Option<ExpressionView>)
    requires
        0 <= index < tokens.len(),
        primary_of(tokens[index]) is Some,
    ensures
        expression_at(tokens, index, previous) == Ok::<(ExpressionView, int), AstParseError>(
            (leaf(primary_of(tokens[index])->0), index + 1),
        ),
{
}

/// With the operation of the first `done` operators of a chain as the only
/// expression so far, the tokens behind them give what the tokens behind the
/// whole chain give with the operation of the whole chain.
proof fn lemma_chain_from(tokens: Seq<Token>, operators: int, done: int)
    requires
        is_chain(tokens, operators),
        0 <= done <= operators,
    ensures
        tree_from(tokens, 2 * done + 1, seq![ExpressionView::Operation(chained(tokens, done))])
            == tree_from(
            tokens,
            2 * operators + 1,
            seq![ExpressionView::Operation(chained(tokens, operators))],
        ),
    decreases operators - done,
{
    let so_far = seq![ExpressionView::Operation(chained(tokens, done))];
    if done < operators {
        let index = 2 * done + 1;
        assert(is_operator(tokens[2 * done + 1].token_type));
        assert(primary_of(tokens[2 * (done + 1)]) is Some);
        lemma_leaf_behind(tokens, index + 1, None);
        let next = ExpressionView::Operation(chained(tokens, done + 1));
        assert(expression_at(tokens, index, Some(so_far.last())) == Ok::<
            (ExpressionView, int),
            AstParseError,
        >((next, index + 2)));
        assert(so_far.drop_last().push(next) =~= seq![next]);
        lemma_chain_from(tokens, operators, done + 1);
    }
}

/// A line of leaves with an operator between each two of them is one
/// operation: its operators are applied from left to right, and none binds
/// tighter than another.
pub proof fn lemma_chain_is_applied_from_left_to_right(tokens: Seq<Token>, operators: int)
    requires
        is_chain(tokens, operators),
        tokens.len() == 2 * operators + 1,
    ensures
        parsed(tokens) == Ok::<Seq<ExpressionView>, AstParseError>(
            seq![ExpressionView::Operation(chained(tokens, operators))],
        ),
{
    assert(primary_of(tokens[2 * 0int]) is Some);
    lemma_leaf_behind(tokens, 0, None);
    let first = ExpressionView::Operation(chained(tokens, 0));
    assert(Seq::<ExpressionView>::empty().push(first) =~= seq![first]);
    lemma_chain_from(tokens, operators, 0);
}

/// Such a line with one more leaf behind it, as the end of input is, is that
/// operation and the leaf.
pub proof fn lemma_chain_before_a_leaf(tokens: Seq<Token>, operators: int)
    requires
        is_chain(tokens, operators),
        tokens.len() == 2 * operators + 2,
        primary_of(tokens.last()) is Some,
    ensures
        parsed(tokens) == Ok::<Seq<ExpressionView>, AstParseError>(
            seq![
                ExpressionView::Operation(chained(tokens, operators)),
                leaf(primary_of(tokens.last())->0),
            ],
        ),
{
    assert(primary_of(tokens[2 * 0int]) is Some);
    lemma_leaf_behind(tokens, 0, None);
    let first = ExpressionView::Operation(chained(tokens, 0));
    assert(Seq::<ExpressionView>::empty().push(first) =~= seq![first]);
    lemma_chain_from(tokens, operators, 0);
    let whole = seq![ExpressionView::Operation(chained(tokens, operators))];
    let last = tokens.len() - 1;
    let end = leaf(primary_of(tokens.last())->0);
    lemma_leaf_behind(tokens, last, Some(whole.last()));
    assert(tree_from(tokens, last + 1, whole.push(end)) == Ok::<
        Seq<ExpressionView>,
        AstParseError,
    >(whole.push(end)));
    assert(tree_from(tokens, last, whole) == tree_from(tokens, last + 1, whole.push(end)));
    assert(whole.push(end) =~= seq![ExpressionView::Operation(chained(tokens, operators)), end]);
}

/// Appending an expression to a list appends its view to the list's views.
proof fn lemma_views_of_push(items: Seq<Expression>, item: Expression)
    ensures
        views_of(items.push(item)) == views_of(items).push(item@),
{
    assert(views_of(items.push(item)) =~= views_of(items).push(item@));
}

/// Dropping the last expression of a list drops the last of its views.
proof fn lemma_views_of_drop_last(items: Seq<Expression>)
    requires
        items.len() > 0,
    ensures
        views_of(items.drop_last()) == views_of(items).drop_last(),
{
    assert(views_of(items.drop_last()) =~= views_of(items).drop_last());
}

/// The view of an expression that may be absent.
pub open spec fn view_of(expression: Option<&Expression>) -> Option<ExpressionView> {
    match expression {
        Some(expression) => Some(expression@),
        None => None,
    }
}

fn to_operator(token: &Token) -> (operator: Operator)
    requires
        is_operator(token.token_type),
    ensures
        operator == operator_of(token.token_type),
{
    match token.token_type {
        TokenType::PLUS => Operator::Add,
        TokenType::MINUS => Operator::Minus,
        TokenType::STAR => Operator::Multiply,
        TokenType::SLASH => Operator::Divide,
        TokenType::EQUAL_EQUAL => Operator::EqualEqual,
        TokenType::BANG_EQUAL => Operator::BangEqual,
        TokenType::LESS => Operator::Less,
        TokenType::LESS_EQUAL => Operator::LessOrEqual,
        TokenType::GREATER => Operator::Greater,
        _ => Operator::GreaterOrEqual,
    }
}

fn is_token_operator(token: &Token) -> (r: bool)
    ensures
        r == is_operator(token.token_type),
{
    token.token_type == TokenType::PLUS || token.token_type == TokenType::MINUS
        || token.token_type == TokenType::STAR || token.token_type == TokenType::SLASH
        || token.token_type == TokenType::EQUAL_EQUAL || token.token_type
        == TokenType::BANG_EQUAL || token.token_type == TokenType::LESS || token.token_type
        == TokenType::LESS_EQUAL || token.token_type == TokenType::GREATER || token.token_type
        == TokenType::GREATER_EQUAL
}

/// Parses the expression that starts with `token`, which is the token just
/// before `position`, and leaves `position` behind the expression's last token.
fn token_to_expression(
    token: &Token,
    tokens: &Vec<Token>,
    position: &mut usize,
    previous_expression: Option<&Expression>,
) -> (result: Result<Expression, AstParseError>)
    requires
        0 < *old(position) <= tokens.len(),
        *token == tokens[*old(position) - 1],
    ensures
        match expression_at(tokens@, *old(position) - 1, view_of(previous_expression)) {
            Ok((expression, after)) => result matches Ok(found) && found@ == expression
                && *final(position) == after,
            Err(error) => result == Err::<Expression, AstParseError>(error),
        },
    decreases tokens.len() - *old(position),
{
    let ghost index: int = *position - 1;
    proof {
        lemma_expression_at(tokens@, index, view_of(previous_expression));
        if index + 1 < tokens.len() {
            lemma_expression_at(tokens@, index + 1, None);
        }
    }
    // OPERATIONS
    if is_token_operator(token) {
        if let Some(previous_expression) = previous_expression {
            if *position < tokens.len() {
                let right = &tokens[*position];
                *position += 1;
                match token_to_expression(right, tokens, position, None) {
                    Ok(right_expression) => {
                        if let Expression::Function(Function::Operation(factor_left)) =
                            previous_expression {
                            if let Expression::Function(Function::Operation(factor_right)) =
                                right_expression {
                                return Ok(
                                    Expression::Function(
                                        Function::Operation(
                                            Operation::Operation(
                                                Box::new(factor_left.clone()),
                                                to_operator(token),
                                                Box::new(factor_right),
                                            ),
                                        ),
                                    ),
                                );
                            }
                        }
                        return Err(AstParseError::InvalidFactorExpressions);
                    },
                    Err(error) => return Err(error),
                }
            }
        }
    }
    match token.token_type {
        // LABELS
        TokenType::LABEL => {
            let name = match &token.literal {
                Some(Literal::Label(name)) => name.clone(),
                _ => return Err(AstParseError::TokenInvalidGrammar),
            };
            if *position < tokens.len() {
                let next_token = &tokens[*position];
                *position += 1;
                match token_to_expression(next_token, tokens, position, None) {
                    Ok(expression) => match expression {
                        Expression::Function(Function::Group(group)) => Ok(
                            Expression::Function(Function::Call(name, group)),
                        ),
                        _ => Err(AstParseError::LabelWithNoValidNextToken),
                    },
                    Err(error) => Err(error),
                }
            } else {
                Err(AstParseError::LabelWithNoValidNextToken)
            }
        },
        // GROUP
        TokenType::LEFT_PAREN => {
            let mut expressions: Vec<Expression> = Vec::new();
            let ghost start: int = *position as int;
            proof {
                assert(views_of(expressions@) =~= Seq::empty());
            }
            loop
                invariant
                    0 <= index < tokens.len(),
                    index == start - 1,
                    start <= *position <= tokens.len(),
                    group_at(tokens@, *position as int, views_of(expressions@)) == group_at(
                        tokens@,
                        start,
                        Seq::empty(),
                    ),
                    expression_at(tokens@, index, view_of(previous_expression)) == group_at(
                        tokens@,
                        start,
                        Seq::empty(),
                    ),
                    start == *old(position),
                decreases tokens.len() - *position,
            {
                if *position >= tokens.len() {
                    return Err(AstParseError::InvalidTokensInGroup);
                }
                let ghost item_index: int = *position as int;
                proof {
                    lemma_expression_at(tokens@, item_index, None);
                }
                let next_token = &tokens[*position];
                *position += 1;
                match token_to_expression(next_token, tokens, position, None) {
                    Ok(expression) => {
                        proof {
                            lemma_views_of_push(expressions@, expression);
                        }
                        expressions.push(expression);
                        if *position < tokens.len() {
                            let separator = tokens[*position].token_type;
                            *position += 1;
                            match separator {
                                TokenType::COMMA => {},
                                TokenType::RIGHT_PAREN => {
                                    return Ok(Expression::Function(Function::Group(expressions)));
                                },
                                _ => {
                                    return Err(AstParseError::InvalidTokensInGroup);
                                },
                            }
                        } else {
                            return Err(AstParseError::InvalidTokensInGroup);
                        }
                    },
                    Err(error) => return Err(error),
                }
            }
        },
        // UNARY
        TokenType::BANG => {
            if *position < tokens.len() {
                let next_token = &tokens[*position];
                *position += 1;
                match token_to_expression(next_token, tokens, position, None) {
                    Ok(expression) => match expression {
                        Expression::Function(Function::Operation(Operation::Unary(unary))) => Ok(
                            Expression::Function(
                                Function::Operation(Operation::Unary(Unary::Bang(Box::new(unary)))),
                            ),
                        ),
                        _ => Err(AstParseError::UnaryWithNoValidNextToken),
                    },
                    Err(error) => Err(error),
                }
            } else {
                Err(AstParseError::UnaryWithNoValidNextToken)
            }
        },
        TokenType::MINUS => {
            if *position < tokens.len() {
                let next_token = &tokens[*position];
                *position += 1;
                match token_to_expression(next_token, tokens, position, None) {
                    Ok(expression) => match expression {
                        Expression::Function(Function::Operation(Operation::Unary(unary))) => Ok(
                            Expression::Function(
                                Function::Operation(
                                    Operation::Unary(Unary::Minus(Box::new(unary))),
                                ),
                            ),
                        ),
                        _ => Err(AstParseError::UnaryWithNoValidNextToken),
                    },
                    Err(error) => Err(error),
                }
            } else {
                Err(AstParseError::UnaryWithNoValidNextToken)
            }
        },
        // LITERALS
        TokenType::NUMBER => match &token.literal {
            Some(Literal::Num(literal)) => Ok(
                Expression::Function(
                    Function::Operation(Operation::Unary(Unary::Primary(Primary::Number(*literal)))),
                ),
            ),
            _ => Err(AstParseError::MissingLiteralForNumber),
        },
        TokenType::STRING => match &token.literal {
            Some(Literal::Str(literal)) => Ok(
                Expression::Function(
                    Function::Operation(
                        Operation::Unary(Unary::Primary(Primary::Str(literal.clone()))),
                    ),
                ),
            ),
            _ => Err(AstParseError::MissingLiteralForString),
        },
        TokenType::IDENTIFIER => match &token.literal {
            Some(Literal::Identifier(TokenType::TRUE)) => Ok(
                Expression::Function(
                    Function::Operation(Operation::Unary(Unary::Primary(Primary::True))),
                ),
            ),
            Some(Literal::Identifier(TokenType::FALSE)) => Ok(
                Expression::Function(
                    Function::Operation(Operation::Unary(Unary::Primary(Primary::False))),
                ),
            ),
            Some(Literal::Identifier(TokenType::NIL)) => Ok(
                Expression::Function(
                    Function::Operation(Operation::Unary(Unary::Primary(Primary::Nil))),
                ),
            ),
            _ => Err(AstParseError::MissingLiteralForIdentifier),
        },
        // EOF
        TokenType::EOF => Ok(
            Expression::Function(
                Function::Operation(Operation::Unary(Unary::Primary(Primary::Eof))),
            ),
        ),
        _ => Err(AstParseError::TokenInvalidGrammar),
    }
}

/// Builds the expression tree of a token sequence.
pub fn resolve_ast(tokens: Vec<Token>) -> (result: Result<Ast, AstParseError>)
    ensures
        match parsed(tokens@) {
            Ok(tree) => result matches Ok(ast) && views_of(ast.tree@) == tree,
            Err(error) => result == Err::<Ast, AstParseError>(error),
        },
{
    let mut ast = Ast { tree: Vec::new() };
    let mut position: usize = 0;
    proof {
        assert(views_of(ast.tree@) =~= Seq::empty());
    }
    while position < tokens.len()
        invariant
            position <= tokens.len(),
            tree_from(tokens@, position as int, views_of(ast.tree@)) == parsed(tokens@),
        decreases tokens.len() - position,
    {
        let ghost index: int = position as int;
        let ghost before: Seq<Expression> = ast.tree@;
        let token = &tokens[position];
        position += 1;
        let previous_expression: Option<&Expression> = if ast.tree.len() > 0 {
            Some(&ast.tree[ast.tree.len() - 1])
        } else {
            None
        };
        proof {
            lemma_expression_at(tokens@, index, view_of(previous_expression));
        }
        match token_to_expression(token, &tokens, &mut position, previous_expression) {
            Ok(expression) => {
                if let Expression::Function(Function::Operation(Operation::Operation(_, _, _))) =
                    &expression {
                    proof {
                        lemma_views_of_drop_last(before);
                    }
                    ast.tree.pop();
                }
                proof {
                    lemma_views_of_push(ast.tree@, expression);
                }
                ast.tree.push(expression);
            },
            Err(error) => return Err(error),
        }
    }
    Ok(ast)
}

} // verus!
