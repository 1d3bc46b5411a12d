//! The syntax tree and the recursive-descent parser that builds it.

use vstd::prelude::*;
use crate::lexer::{Token, Tokens, SpecToken, SpecTokens, stream_view};
use crate::interpreter::{Variable, SpecVariable, variables_view, clone_variables};

verus! {

/// The arithmetic operators.
#[derive(Debug, PartialEq, Eq, Clone, Copy)]
pub enum Operator {
    Plus,
    Minus,
    Multiply,
    Divide,
}

/// The comparison operators of a guard.
#[derive(Debug, PartialEq, Eq, Clone, Copy)]
pub enum Comparator {
    Equal,
    NotEqual,
    More,
    Less,
    EqualMore,
    EqualLess,
}

/// One statement or expression of the syntax tree. Each node owns its children.
#[derive(Debug, PartialEq)]
pub enum Node {
    Int(i64),
    String(String),
    Bool(bool),
    SetVariable { name: String, value: Box<Node> },
    UnaryExpr { op: Operator, child: Box<Node> },
    BinaryExpr { op: Operator, lhs: Box<Node>, rhs: Box<Node> },
    CombineStr { lhs: Box<Node>, rhs: Box<Node> },
    IfBinaryCompare { comparator: Comparator, lhs: Box<Node>, rhs: Box<Node>, body: Vec<Node> },
    IfUnaryCompare { expected_bool: bool, actual: Box<Node>, body: Vec<Node> },
    IfElseBinaryCompare { comparator: Comparator, lhs: Box<Node>, rhs: Box<Node>, body: Vec<Node> },
    IfElseUnaryCompare { expected_bool: bool, actual: Box<Node>, body: Vec<Node> },
    Else { body: Vec<Node> },
    Repeat { count: i64, body: Vec<Node> },
    FunctionCall { name: String, args: Vec<Node> },
    FunctionDefinition { name: String, body: Vec<Node>, params: Vec<Variable> },
    Eof,
}

/// The mathematical value of a [`Node`]: text is a sequence of characters, a block a
/// sequence of nodes.
pub enum SpecNode {
    Int(i64),
    String(Seq<char>),
    Bool(bool),
    SetVariable { name: Seq<char>, value: Box<SpecNode> },
    UnaryExpr { op: Operator, child: Box<SpecNode> },
    BinaryExpr { op: Operator, lhs: Box<SpecNode>, rhs: Box<SpecNode> },
    CombineStr { lhs: Box<SpecNode>, rhs: Box<SpecNode> },
    IfBinaryCompare {
        comparator: Comparator,
        lhs: Box<SpecNode>,
        rhs: Box<SpecNode>,
        body: Seq<SpecNode>,
    },
    IfUnaryCompare { expected_bool: bool, actual: Box<SpecNode>, body: Seq<SpecNode> },
    IfElseBinaryCompare {
        comparator: Comparator,
        lhs: Box<SpecNode>,
        rhs: Box<SpecNode>,
        body: Seq<SpecNode>,
    },
    IfElseUnaryCompare { expected_bool: bool, actual: Box<SpecNode>, body: Seq<SpecNode> },
    Else { body: Seq<SpecNode> },
    Repeat { count: i64, body: Seq<SpecNode> },
    FunctionCall { name: Seq<char>, args: Seq<SpecNode> },
    FunctionDefinition { name: Seq<char>, body: Seq<SpecNode>, params: Seq<SpecVariable> },
    Eof,
}

/// The view of a block, node by node.
pub open spec fn nodes_view(nodes: Seq<Node>) -> Seq<SpecNode>
    decreases nodes,
{
    Seq::new(
        nodes.len(),
        |i: int|
            if 0 <= i < nodes.len() {
                node_view(nodes[i])
            } else {
                SpecNode::Eof
            },
    )
}

/// The view of a node: the same tree over sequences.
pub open spec fn node_view(node: Node) -> SpecNode
    decreases node,
{
    match node {
        Node::Int(n) => SpecNode::Int(n),
        Node::String(text) => SpecNode::String(text@),
        Node::Bool(b) => SpecNode::Bool(b),
        Node::SetVariable { name, value } => SpecNode::SetVariable {
            name: name@,
            value: Box::new(node_view(*value)),
        },
        Node::UnaryExpr { op, child } => SpecNode::UnaryExpr {
            op,
            child: Box::new(node_view(*child)),
        },
        Node::BinaryExpr { op, lhs, rhs } => SpecNode::BinaryExpr {
            op,
            lhs: Box::new(node_view(*lhs)),
            rhs: Box::new(node_view(*rhs)),
        },
        Node::CombineStr { lhs, rhs } => SpecNode::CombineStr {
            lhs: Box::new(node_view(*lhs)),
            rhs: Box::new(node_view(*rhs)),
        },
        Node::IfBinaryCompare { comparator, lhs, rhs, body } => SpecNode::IfBinaryCompare {
            comparator,
            lhs: Box::new(node_view(*lhs)),
            rhs: Box::new(node_view(*rhs)),
            body: nodes_view(body@),
        },
        Node::IfUnaryCompare { expected_bool, actual, body } => SpecNode::IfUnaryCompare {
            expected_bool,
            actual: Box::new(node_view(*actual)),
            body: nodes_view(body@),
        },
        Node::IfElseBinaryCompare { comparator, lhs, rhs, body } => SpecNode::IfElseBinaryCompare {
            comparator,
            lhs: Box::new(node_view(*lhs)),
            rhs: Box::new(node_view(*rhs)),
            body: nodes_view(body@),
        },
        Node::IfElseUnaryCompare { expected_bool, actual, body } => SpecNode::IfElseUnaryCompare {
            expected_bool,
            actual: Box::new(node_view(*actual)),
            body: nodes_view(body@),
        },
        Node::Else { body } => SpecNode::Else { body: nodes_view(body@) },
        Node::Repeat { count, body } => SpecNode::Repeat { count, body: nodes_view(body@) },
        Node::FunctionCall { name, args } => SpecNode::FunctionCall {
            name: name@,
            args: nodes_view(args@),
        },
        Node::FunctionDefinition { name, body, params } => SpecNode::FunctionDefinition {
            name: name@,
            body: nodes_view(body@),
            params: variables_view(params@),
        },
        Node::Eof => SpecNode::Eof,
    }
}

impl View for Node {
    type V = SpecNode;

    open spec fn view(&self) -> SpecNode {
        node_view(*self)
    }
}

/// A grammar violation: what was wrong, and the 1-based line where it was found.
#[derive(Debug, PartialEq)]
pub struct SyntaxError {
    pub message: String,
    pub line: u64,
}

/// The mathematical value of a [`SyntaxError`].
pub struct SpecSyntaxError {
    pub message: Seq<char>,
    pub line: u64,
}

impl View for SyntaxError {
    type V = SpecSyntaxError;

    open spec fn view(&self) -> SpecSyntaxError {
        SpecSyntaxError { message: self.message@, line: self.line }
    }
}

impl SyntaxError {
    /// The grammar violation `message` found on `line`.
    pub fn new(message: String, line: u64) -> (error: Self)
        ensures
            error.message == message,
            error.line == line,
    {
        SyntaxError { message, line }
    }
}

/// The token that ends the block being read: end of input for a whole program, a
/// closing bracket for a nested block, a comparison operator for the left side of a
/// guard.
#[derive(Debug, PartialEq, Eq, Clone, Copy)]
pub enum EndToken {
    Eof,
    RightBracket,
    Comparator,
}

/// What reading a piece of the stream gives: the nodes read and the position of the
/// first token not yet read, or the error.
pub type Parsed = Result<(Seq<SpecNode>, int), SpecSyntaxError>;

/// The failure with `message` on `line`.
pub open spec fn failure(message: &str, line: u64) -> Parsed {
    Err(SpecSyntaxError { message: message@, line })
}

/// The failure of a stream that stops where a token is still needed. It is reported on
/// the line of the last token, and on line 1 for a stream without tokens.
pub open spec fn out_of_tokens(tokens: Seq<SpecTokens>) -> Parsed {
    failure(
        "Unexpected end of tokens",
        if tokens.len() > 0 {
            tokens.last().line
        } else {
            1
        },
    )
}

/// `nodes` in front of what `rest` holds.
pub open spec fn prepend(nodes: Seq<SpecNode>, rest: Parsed) -> Parsed {
    match rest {
        Ok((more, next)) => Ok((nodes + more, next)),
        Err(error) => Err(error),
    }
}

/// The arithmetic operator that a token writes. `*` is multiplication.
pub open spec fn operator_of(token: SpecToken) -> Option<Operator> {
    match token {
        SpecToken::Plus => Some(Operator::Plus),
        SpecToken::Dash => Some(Operator::Minus),
        SpecToken::Star => Some(Operator::Multiply),
        SpecToken::Slash => Some(Operator::Divide),
        _ => None,
    }
}

/// The comparison operator that a token writes.
pub open spec fn comparator_of(token: SpecToken) -> Option<Comparator> {
    match token {
        SpecToken::EqualEqual => Some(Comparator::Equal),
        SpecToken::NotEqual => Some(Comparator::NotEqual),
        SpecToken::More => Some(Comparator::More),
        SpecToken::Less => Some(Comparator::Less),
        SpecToken::EqualMore => Some(Comparator::EqualMore),
        SpecToken::EqualLess => Some(Comparator::EqualLess),
        _ => None,
    }
}

/// The literal node that a token writes.
pub open spec fn literal_of(token: SpecToken) -> Option<SpecNode> {
    match token {
        SpecToken::Number(n) => Some(SpecNode::Int(n)),
        SpecToken::String(text) => Some(SpecNode::String(text)),
        SpecToken::Bool(b) => Some(SpecNode::Bool(b)),
        _ => None,
    }
}

/// The message for a number followed by `op` and then by something that is no number.
pub open spec fn combine_message(op: Operator) -> Seq<char> {
    match op {
        Operator::Plus => "Cannot combine Number and other type together using '+'"@,
        Operator::Minus => "Cannot combine Number and other type together using '-'"@,
        Operator::Multiply => "Cannot combine Number and other types together using '*'"@,
        Operator::Divide => "Cannot combine Number and other types together using '/'"@,
    }
}

/// The message for a token that cannot start a statement, where there is one.
pub open spec fn stray_message(token: SpecToken) -> Option<Seq<char>> {
    match token {
        SpecToken::Plus => Some("+ token found in unexpected location"@),
        SpecToken::Dash => Some("- token found in unexpected location"@),
        SpecToken::Star => Some("* token found in unexpected location"@),
        SpecToken::Slash => Some("/ token found in unexpected location"@),
        SpecToken::Dot => Some("Dot token found in unexpected location"@),
        SpecToken::Equal => Some("Equal token found in unexpected location"@),
        SpecToken::LeftParen => Some("( token found in unexpected location"@),
        SpecToken::RightParen => Some(") token found in unexpected location"@),
        SpecToken::LeftBracket => Some("{ token found in unexpected location"@),
        SpecToken::Else => Some("else token found in unexpected location"@),
        SpecToken::Elseif => Some("elseif is not supported"@),
        SpecToken::While => Some("while is not supported"@),
        SpecToken::For => Some("for is not supported"@),
        _ => None,
    }
}

/// The message for a comparison operator outside a guard.
pub open spec fn stray_comparator_message(comparator: Comparator) -> Seq<char> {
    match comparator {
        Comparator::Equal => "== token found in unexpected location"@,
        Comparator::NotEqual => "!= token found in unexpected location"@,
        Comparator::More => "> token found in unexpected location"@,
        Comparator::Less => "< token found in unexpected location"@,
        Comparator::EqualMore => ">= or => token found in unexpected location"@,
        Comparator::EqualLess => "<= or =< token found in unexpected location"@,
    }
}

/// An assignment to the variable `name`. `pos` holds the `=`, which is passed over; a
/// string literal and then a semicolon must follow. The semicolon is left unread.
pub open spec fn set_variable_spec(
    tokens: Seq<SpecTokens>,
    pos: int,
    name: Seq<char>,
    line: u64,
) -> Parsed {
    if pos < 0 || pos + 2 >= tokens.len() {
        out_of_tokens(tokens)
    } else {
        match tokens[pos + 1].token {
            SpecToken::String(text) => match tokens[pos + 2].token {
                SpecToken::Semicolon => Ok(
                    (
                        seq![
                            SpecNode::SetVariable {
                                name,
                                value: Box::new(SpecNode::String(text)),
                            },
                        ],
                        pos + 2,
                    ),
                ),
                _ => failure(
                    "Excepted semicolon or operator after String, got unexpected result instead",
                    tokens[pos + 1].line,
                ),
            },
            _ => failure("That cannot be stored as a variable", line),
        }
    }
}

/// What follows the number `num` read on `line`: an operator and a second number make
/// a binary expression, a semicolon (left unread) leaves the bare number.
pub open spec fn examine_numbers_spec(
    tokens: Seq<SpecTokens>,
    pos: int,
    num: i64,
    line: u64,
) -> Parsed {
    if pos < 0 || pos >= tokens.len() {
        out_of_tokens(tokens)
    } else if operator_of(tokens[pos].token) is Some {
        let op = operator_of(tokens[pos].token)->0;
        if pos + 1 >= tokens.len() {
            out_of_tokens(tokens)
        } else {
            match tokens[pos + 1].token {
                SpecToken::Number(other) => Ok(
                    (
                        seq![
                            SpecNode::BinaryExpr {
                                op,
                                lhs: Box::new(SpecNode::Int(num)),
                                rhs: Box::new(SpecNode::Int(other)),
                            },
                        ],
                        pos + 2,
                    ),
                ),
                _ => Err(SpecSyntaxError { message: combine_message(op), line }),
            }
        }
    } else {
        match tokens[pos].token {
            SpecToken::Semicolon => Ok((seq![SpecNode::Int(num)], pos)),
            SpecToken::Number(_) => failure(
                "Two number tokens found in a row, make sure there isn't whitespace etc. between numbers",
                line,
            ),
            _ => failure("Unexpected token found after number", line),
        }
    }
}

/// What follows the string `text` read on `line`: `=` starts an assignment to the
/// variable of that name, `+` and a second string make a concatenation, a semicolon
/// (left unread) leaves the bare string.
pub open spec fn examine_string_spec(
    tokens: Seq<SpecTokens>,
    pos: int,
    text: Seq<char>,
    line: u64,
) -> Parsed {
    if pos < 0 || pos >= tokens.len() {
        out_of_tokens(tokens)
    } else {
        match tokens[pos].token {
            SpecToken::Equal => set_variable_spec(tokens, pos, text, line),
            SpecToken::Semicolon => Ok((seq![SpecNode::String(text)], pos)),
            SpecToken::Plus => if pos + 1 >= tokens.len() {
                out_of_tokens(tokens)
            } else {
                match tokens[pos + 1].token {
                    SpecToken::String(other) => Ok(
                        (
                            seq![
                                SpecNode::CombineStr {
                                    lhs: Box::new(SpecNode::String(text)),
                                    rhs: Box::new(SpecNode::String(other)),
                                },
                            ],
                            pos + 2,
                        ),
                    ),
                    _ => failure("Cannot combine String and other type together using '+'", line),
                }
            },
            _ => failure("Expected semicolon", line),
        }
    }
}

/// The literal arguments of a call from `pos` up to the closing parenthesis, which is
/// passed over.
pub open spec fn arguments_spec(tokens: Seq<SpecTokens>, pos: int) -> Parsed
    decreases tokens.len() - pos,
{
    if pos < 0 || pos >= tokens.len() {
        out_of_tokens(tokens)
    } else if tokens[pos].token is RightParen {
        Ok((Seq::empty(), pos + 1))
    } else if literal_of(tokens[pos].token) is Some {
        prepend(seq![literal_of(tokens[pos].token)->0], arguments_spec(tokens, pos + 1))
    } else {
        failure("Expected ) after function arguments", tokens[pos].line)
    }
}

/// A call of the function `name`. `pos` holds the opening parenthesis.
pub open spec fn create_call_spec(tokens: Seq<SpecTokens>, pos: int, name: Seq<char>) -> Parsed {
    match arguments_spec(tokens, pos + 1) {
        Ok((args, next)) => Ok((seq![SpecNode::FunctionCall { name, args }], next)),
        Err(error) => Err(error),
    }
}

/// Whether reading from `pos` to `next` used at least one token of a stream of `len`.
pub open spec fn advances(pos: int, next: int, len: nat) -> bool {
    pos < next <= len
}

/// The right side of a guard at `pos`: one literal and the closing parenthesis.
pub open spec fn guard_rest_spec(tokens: Seq<SpecTokens>, pos: int) -> Parsed {
    if pos < 0 || pos + 1 >= tokens.len() {
        out_of_tokens(tokens)
    } else if literal_of(tokens[pos].token) is None {
        failure("Expected a literal after the comparator", tokens[pos].line)
    } else if !(tokens[pos + 1].token is RightParen) {
        failure("Expected ) after comparison", tokens[pos + 1].line)
    } else {
        Ok((seq![literal_of(tokens[pos].token)->0], pos + 2))
    }
}

/// The conditional node with the given guard and body. A guard of one node tests it
/// against `true`; a guard of two compares them.
pub open spec fn conditional(
    guard: Seq<SpecNode>,
    comparator: Option<Comparator>,
    body: Seq<SpecNode>,
    with_else: bool,
) -> SpecNode {
    match comparator {
        Some(comparator) => if with_else {
            SpecNode::IfElseBinaryCompare {
                comparator,
                lhs: Box::new(guard[0]),
                rhs: Box::new(guard[1]),
                body,
            }
        } else {
            SpecNode::IfBinaryCompare {
                comparator,
                lhs: Box::new(guard[0]),
                rhs: Box::new(guard[1]),
                body,
            }
        },
        None => if with_else {
            SpecNode::IfElseUnaryCompare { expected_bool: true, actual: Box::new(guard[0]), body }
        } else {
            SpecNode::IfUnaryCompare { expected_bool: true, actual: Box::new(guard[0]), body }
        },
    }
}

/// The block from `pos` up to the token that `end_token` names, which is passed over.
///
/// Statements are read one after another. A number or a string starts an expression
/// or an assignment, a boolean stands for itself, an identifier followed by `(`
/// starts a call and is passed over otherwise, `repeat` and `if` start their
/// constructs, and a semicolon is passed over. End of input closes a whole program,
/// with the end marker as its last node and no token after it; `}` closes a nested
/// block, a comparison operator the left side of a guard. Everywhere else these, and
/// every other token, are errors on the token's line.
///
/// The test that a statement used a token is there to show that reading ends; it
/// always holds (`lemma_statement_moves_on`).
pub open spec fn put_into_nodes_spec(
    tokens: Seq<SpecTokens>,
    pos: int,
    end_token: EndToken,
) -> Parsed
    decreases tokens.len() - pos, 2int,
{
    if pos < 0 || pos >= tokens.len() {
        out_of_tokens(tokens)
    } else {
        let line = tokens[pos].line;
        match tokens[pos].token {
            SpecToken::RightBracket => if end_token is RightBracket {
                Ok((Seq::empty(), pos + 1))
            } else {
                failure("} token found in unexpected location", line)
            },
            SpecToken::Eof => if end_token is Eof {
                if pos + 1 == tokens.len() {
                    Ok((seq![SpecNode::Eof], pos + 1))
                } else {
                    failure("Tokens found after end of input", tokens[pos + 1].line)
                }
            } else {
                failure("Did not close section", line)
            },
            token => if comparator_of(token) is Some {
                if end_token is Comparator {
                    Ok((Seq::empty(), pos + 1))
                } else {
                    Err(
                        SpecSyntaxError {
                            message: stray_comparator_message(comparator_of(token)->0),
                            line,
                        },
                    )
                }
            } else if stray_message(token) is Some {
                Err(SpecSyntaxError { message: stray_message(token)->0, line })
            } else {
                match statement_spec(tokens, pos) {
                    Ok((nodes, next)) => if advances(pos, next, tokens.len()) {
                        prepend(nodes, put_into_nodes_spec(tokens, next, end_token))
                    } else {
                        out_of_tokens(tokens)
                    },
                    Err(error) => Err(error),
                }
            },
        }
    }
}

/// The statement that starts at `pos`, which holds a number, a string, a boolean, an
/// identifier, `repeat`, `if` or a semicolon.
pub open spec fn statement_spec(tokens: Seq<SpecTokens>, pos: int) -> Parsed
    decreases tokens.len() - pos, 1int,
{
    if pos < 0 || pos >= tokens.len() {
        out_of_tokens(tokens)
    } else {
        let line = tokens[pos].line;
        match tokens[pos].token {
            SpecToken::Number(num) => examine_numbers_spec(tokens, pos + 1, num, line),
            SpecToken::String(text) => examine_string_spec(tokens, pos + 1, text, line),
            SpecToken::Bool(b) => Ok((seq![SpecNode::Bool(b)], pos + 1)),
            SpecToken::Other(name) => if pos + 1 < tokens.len() && tokens[pos + 1].token
                is LeftParen {
                create_call_spec(tokens, pos + 1, name)
            } else {
                Ok((Seq::empty(), pos + 1))
            },
            SpecToken::Repeat => create_repeat_spec(tokens, pos + 1, line),
            SpecToken::If => create_if_spec(tokens, pos + 1, line),
            _ => Ok((Seq::empty(), pos + 1)),
        }
    }
}

/// A `repeat` loop whose keyword was read on `line`. From `pos` on stand `(`, the
/// count as a number literal, `)`, `{` and the body up to its `}`.
pub open spec fn create_repeat_spec(tokens: Seq<SpecTokens>, pos: int, line: u64) -> Parsed
    decreases tokens.len() - pos, 0int,
{
    if pos < 0 || pos + 2 >= tokens.len() {
        out_of_tokens(tokens)
    } else if !(tokens[pos].token is LeftParen) {
        failure("Left paren expected after repeat keyword", tokens[pos].line)
    } else if !(tokens[pos + 2].token is RightParen) {
        failure("Right paren expected after repeat and left paren", tokens[pos + 2].line)
    } else {
        match tokens[pos + 1].token {
            SpecToken::Number(count) => if pos + 3 >= tokens.len() {
                out_of_tokens(tokens)
            } else if !(tokens[pos + 3].token is LeftBracket) {
                failure("Expected { after repeat header", tokens[pos + 3].line)
            } else {
                match put_into_nodes_spec(tokens, pos + 4, EndToken::RightBracket) {
                    Ok((body, next)) => Ok((seq![SpecNode::Repeat { count, body }], next)),
                    Err(error) => Err(error),
                }
            },
            _ => failure("Expected number for repeat arg, however got something else", line),
        }
    }
}

/// The guard of a conditional whose `(` stands at `pos`: its one or two operands, and
/// the position after its `)`. A boolean literal alone is a guard by itself; otherwise
/// the left side is read as a block that a comparison operator ends, and must come to
/// exactly one node.
pub open spec fn guard_spec(tokens: Seq<SpecTokens>, pos: int, line: u64) -> Parsed
    decreases tokens.len() - pos, 0int,
{
    if pos < 0 || pos >= tokens.len() {
        out_of_tokens(tokens)
    } else if !(tokens[pos].token is LeftParen) {
        failure("If statement requires ( around comparision", line)
    } else if pos + 2 < tokens.len() && tokens[pos + 1].token is Bool && tokens[pos + 2].token
        is RightParen {
        Ok((seq![literal_of(tokens[pos + 1].token)->0], pos + 3))
    } else {
        match put_into_nodes_spec(tokens, pos + 1, EndToken::Comparator) {
            Ok((lhs, next)) => if lhs.len() != 1 {
                failure("Expected one expression before the comparator", line)
            } else {
                prepend(lhs, guard_rest_spec(tokens, next))
            },
            Err(error) => Err(error),
        }
    }
}

/// The comparison operator of a guard that ends just before `next`, where it has one.
pub open spec fn guard_comparator(
    tokens: Seq<SpecTokens>,
    guard: Seq<SpecNode>,
    next: int,
) -> Option<Comparator> {
    if guard.len() == 2 && 3 <= next <= tokens.len() {
        comparator_of(tokens[next - 3].token)
    } else {
        None
    }
}

/// An `else` block whose keyword was just read. `pos` holds its `{`.
pub open spec fn create_else_spec(tokens: Seq<SpecTokens>, pos: int, line: u64) -> Parsed
    decreases tokens.len() - pos, 0int,
{
    if pos < 0 || pos >= tokens.len() {
        out_of_tokens(tokens)
    } else if !(tokens[pos].token is LeftBracket) {
        failure("Expected { after else", tokens[pos].line)
    } else {
        match put_into_nodes_spec(tokens, pos + 1, EndToken::RightBracket) {
            Ok((body, next)) => Ok((seq![SpecNode::Else { body }], next)),
            Err(error) => Err(error),
        }
    }
}

/// A conditional whose keyword was read on `line`. From `pos` on stand the guard in
/// parentheses and the body in brackets. Where `else` follows the body at once, its
/// block is read too, and the conditional is of the kind that has one: the `Else`
/// node comes right after it.
pub open spec fn create_if_spec(tokens: Seq<SpecTokens>, pos: int, line: u64) -> Parsed
    decreases tokens.len() - pos, 1int,
{
    match guard_spec(tokens, pos, line) {
        Err(error) => Err(error),
        Ok((guard, after_guard)) => if !advances(pos, after_guard, tokens.len()) || after_guard
            >= tokens.len() {
            out_of_tokens(tokens)
        } else if !(tokens[after_guard].token is LeftBracket) {
            failure("Expected { after if condition", tokens[after_guard].line)
        } else {
            match put_into_nodes_spec(tokens, after_guard + 1, EndToken::RightBracket) {
                Err(error) => Err(error),
                Ok((body, next)) => {
                    let comparator = guard_comparator(tokens, guard, after_guard);
                    if advances(pos, next, tokens.len()) && next < tokens.len()
                        && tokens[next].token is Else {
                        prepend(
                            seq![conditional(guard, comparator, body, true)],
                            create_else_spec(tokens, next + 1, tokens[next].line),
                        )
                    } else {
                        Ok((seq![conditional(guard, comparator, body, false)], next))
                    }
                },
            }
        },
    }
}

/// The syntax tree of a whole token stream.
pub open spec fn parse_spec(tokens: Seq<SpecTokens>) -> Result<Seq<SpecNode>, SpecSyntaxError> {
    match put_into_nodes_spec(tokens, 0, EndToken::Eof) {
        Ok((nodes, _)) => Ok(nodes),
        Err(error) => Err(error),
    }
}

/// Whether `token` is one that `end_token` names.
pub open spec fn closes(token: SpecToken, end_token: EndToken) -> bool {
    match end_token {
        EndToken::Eof => token is Eof,
        EndToken::RightBracket => token is RightBracket,
        EndToken::Comparator => comparator_of(token) is Some,
    }
}

/// Whether a successful reading from `pos` used at least one token of the stream.
pub open spec fn moves_on(tokens: Seq<SpecTokens>, pos: int, parsed: Parsed) -> bool {
    match parsed {
        Ok((_, next)) => advances(pos, next, tokens.len()),
        Err(_) => true,
    }
}

/// Reading the arguments of a call uses at least the closing parenthesis.
pub proof fn lemma_arguments_move_on(tokens: Seq<SpecTokens>, pos: int)
    ensures
        moves_on(tokens, pos, arguments_spec(tokens, pos)),
    decreases tokens.len() - pos,
{
    if 0 <= pos < tokens.len() && !(tokens[pos].token is RightParen) && literal_of(
        tokens[pos].token,
    ) is Some {
        lemma_arguments_move_on(tokens, pos + 1);
    }
}

/// A block that was read used at least its closing token, which is one that its end
/// token names.
pub proof fn lemma_block_moves_on(tokens: Seq<SpecTokens>, pos: int, end_token: EndToken)
    ensures
        moves_on(tokens, pos, put_into_nodes_spec(tokens, pos, end_token)),
        put_into_nodes_spec(tokens, pos, end_token) matches Ok((_, next)) ==> closes(
            tokens[next - 1].token,
            end_token,
        ),
    decreases tokens.len() - pos, 2int,
{
    if 0 <= pos < tokens.len() {
        let token = tokens[pos].token;
        if !(token is RightBracket) && !(token is Eof) && comparator_of(token) is None
            && stray_message(token) is None {
            lemma_statement_moves_on(tokens, pos);
            if let Ok((_, next)) = statement_spec(tokens, pos) {
                lemma_block_moves_on(tokens, next, end_token);
            }
        }
    }
}

/// A statement that was read used at least one token: the guard in the definition of
/// a block never stops a reading.
pub proof fn lemma_statement_moves_on(tokens: Seq<SpecTokens>, pos: int)
    ensures
        moves_on(tokens, pos, statement_spec(tokens, pos)),
    decreases tokens.len() - pos, 1int,
{
    if 0 <= pos < tokens.len() {
        match tokens[pos].token {
            SpecToken::Other(_) => {
                lemma_arguments_move_on(tokens, pos + 2);
            },
            SpecToken::Repeat => {
                lemma_repeat_moves_on(tokens, pos + 1, tokens[pos].line);
            },
            SpecToken::If => {
                lemma_if_moves_on(tokens, pos + 1, tokens[pos].line);
            },
            _ => {},
        }
    }
}

/// A loop that was read used at least one token.
pub proof fn lemma_repeat_moves_on(tokens: Seq<SpecTokens>, pos: int, line: u64)
    ensures
        moves_on(tokens, pos, create_repeat_spec(tokens, pos, line)),
    decreases tokens.len() - pos, 0int,
{
    if 0 <= pos && pos + 3 < tokens.len() {
        lemma_block_moves_on(tokens, pos + 4, EndToken::RightBracket);
    }
}

/// A guard that was read used at least one token, holds one or two operands, and
/// where it holds two, a comparison operator stands between them.
pub proof fn lemma_guard_moves_on(tokens: Seq<SpecTokens>, pos: int, line: u64)
    ensures
        moves_on(tokens, pos, guard_spec(tokens, pos, line)),
        guard_spec(tokens, pos, line) matches Ok((guard, next)) ==> (guard.len() == 1
            && guard_comparator(tokens, guard, next) is None) || (guard.len() == 2
            && guard_comparator(tokens, guard, next) is Some),
    decreases tokens.len() - pos, 0int,
{
    if 0 <= pos < tokens.len() {
        lemma_block_moves_on(tokens, pos + 1, EndToken::Comparator);
    }
}

/// An `else` block that was read used at least one token.
pub proof fn lemma_else_moves_on(tokens: Seq<SpecTokens>, pos: int, line: u64)
    ensures
        moves_on(tokens, pos, create_else_spec(tokens, pos, line)),
    decreases tokens.len() - pos, 0int,
{
    if 0 <= pos < tokens.len() {
        lemma_block_moves_on(tokens, pos + 1, EndToken::RightBracket);
    }
}

/// A conditional that was read used at least one token: the guards in its definition
/// never stop a reading.
pub proof fn lemma_if_moves_on(tokens: Seq<SpecTokens>, pos: int, line: u64)
    ensures
        moves_on(tokens, pos, create_if_spec(tokens, pos, line)),
    decreases tokens.len() - pos, 1int,
{
    lemma_guard_moves_on(tokens, pos, line);
    if let Ok((_, after_guard)) = guard_spec(tokens, pos, line) {
        if after_guard < tokens.len() {
            lemma_block_moves_on(tokens, after_guard + 1, EndToken::RightBracket);
            if let Ok((_, next)) = put_into_nodes_spec(
                tokens,
                after_guard + 1,
                EndToken::RightBracket,
            ) {
                if next < tokens.len() {
                    lemma_else_moves_on(tokens, next + 1, tokens[next].line);
                }
            }
        }
    }
}

/// Whether the node is a conditional of the kind that an `Else` node follows.
pub open spec fn takes_else(node: SpecNode) -> bool {
    node is IfElseBinaryCompare || node is IfElseUnaryCompare
}

/// Whether no node of the block is the end marker.
pub open spec fn no_end_marker(nodes: Seq<SpecNode>) -> bool {
    forall|i: int| 0 <= i < nodes.len() ==> !(#[trigger] nodes[i] is Eof)
}

/// Whether every `Else` node of the block comes right after a conditional of the kind
/// that takes one, and every such conditional has its `Else` node right after it.
pub open spec fn well_paired(nodes: Seq<SpecNode>) -> bool {
    &&& forall|i: int|
        0 <= i < nodes.len() && #[trigger] nodes[i] is Else ==> i >= 1 && takes_else(nodes[i - 1])
    &&& forall|i: int|
        0 <= i < nodes.len() && takes_else(#[trigger] nodes[i]) ==> i + 1 < nodes.len() && nodes[i
            + 1] is Else
}

/// Two blocks that are well paired, and hold no end marker, stay so when joined.
pub proof fn lemma_well_paired_concat(first: Seq<SpecNode>, second: Seq<SpecNode>)
    requires
        well_paired(first),
        well_paired(second),
    ensures
        well_paired(first + second),
        no_end_marker(first) && no_end_marker(second) ==> no_end_marker(first + second),
{
    let joined = first + second;
    assert forall|i: int| 0 <= i < joined.len() && #[trigger] joined[i] is Else implies i >= 1
        && takes_else(joined[i - 1]) by {
        if i < first.len() {
            assert(first[i] is Else);
        } else {
            assert(second[i - first.len()] is Else);
        }
    }
    assert forall|i: int| 0 <= i < joined.len() && takes_else(#[trigger] joined[i]) implies i + 1
        < joined.len() && joined[i + 1] is Else by {
        if i < first.len() {
            assert(takes_else(first[i]));
        } else {
            assert(takes_else(second[i - first.len()]));
        }
    }
    if no_end_marker(first) && no_end_marker(second) {
        assert forall|i: int| 0 <= i < joined.len() implies !(#[trigger] joined[i] is Eof) by {
            if i < first.len() {
                assert(!(first[i] is Eof));
            } else {
                assert(!(second[i - first.len()] is Eof));
            }
        }
    }
}

/// The nodes of one statement hold no end marker and are well paired.
pub proof fn lemma_statement_shape(tokens: Seq<SpecTokens>, pos: int)
    ensures
        statement_spec(tokens, pos) matches Ok((nodes, _)) ==> no_end_marker(nodes) && well_paired(
            nodes,
        ),
{
    if 0 <= pos < tokens.len() {
        let line = tokens[pos].line;
        match tokens[pos].token {
            SpecToken::If => {
                if let Ok((guard, after_guard)) = guard_spec(tokens, pos + 1, line) {
                    if advances(pos + 1, after_guard, tokens.len()) && after_guard < tokens.len() {
                        if let Ok((body, next)) = put_into_nodes_spec(
                            tokens,
                            after_guard + 1,
                            EndToken::RightBracket,
                        ) {
                            let comparator = guard_comparator(tokens, guard, after_guard);
                            assert(takes_else(conditional(guard, comparator, body, true)));
                            assert(!takes_else(conditional(guard, comparator, body, false)));
                            assert(!(conditional(guard, comparator, body, false) is Else));
                            assert(!(conditional(guard, comparator, body, false) is Eof));
                        }
                    }
                }
            },
            _ => {},
        }
        if let Ok((nodes, _)) = statement_spec(tokens, pos) {
            assert(no_end_marker(nodes));
            assert(well_paired(nodes));
        }
    }
}

/// What a block that was read looks like: a whole program ends with the end marker,
/// its only one, and leaves no token unread; a nested block and the left side of a
/// guard hold no end marker. Either is well paired.
pub proof fn lemma_block_shape(tokens: Seq<SpecTokens>, pos: int, end_token: EndToken)
    ensures
        put_into_nodes_spec(tokens, pos, end_token) matches Ok((nodes, next)) ==> {
            &&& well_paired(nodes)
            &&& end_token is Eof ==> next == tokens.len() && nodes.len() >= 1 && nodes.last() is Eof
                && no_end_marker(nodes.drop_last())
            &&& !(end_token is Eof) ==> no_end_marker(nodes)
        },
    decreases tokens.len() - pos,
{
    if 0 <= pos < tokens.len() {
        let token = tokens[pos].token;
        if !(token is RightBracket) && !(token is Eof) && comparator_of(token) is None
            && stray_message(token) is None {
            lemma_statement_shape(tokens, pos);
            if let Ok((nodes, next)) = statement_spec(tokens, pos) {
                if advances(pos, next, tokens.len()) {
                    lemma_block_shape(tokens, next, end_token);
                    if let Ok((rest, end)) = put_into_nodes_spec(tokens, next, end_token) {
                        lemma_well_paired_concat(nodes, rest);
                        if end_token is Eof {
                            assert((nodes + rest).drop_last() =~= nodes + rest.drop_last());
                            lemma_well_paired_concat(nodes, rest.drop_last());
                            assert(well_paired(rest.drop_last())) by {
                                assert forall|i: int|
                                    0 <= i < rest.drop_last().len() && takes_else(
                                        #[trigger] rest.drop_last()[i],
                                    ) implies i + 1 < rest.drop_last().len()
                                    && rest.drop_last()[i + 1] is Else by {
                                    assert(takes_else(rest[i]));
                                }
                                assert forall|i: int|
                                    0 <= i < rest.drop_last().len()
                                        && #[trigger] rest.drop_last()[i] is Else implies i >= 1
                                    && takes_else(rest.drop_last()[i - 1]) by {
                                    assert(rest[i] is Else);
                                }
                            }
                        }
                    }
                }
            }
        }
    }
}

/// A syntax tree that was parsed ends with the end marker, holds it nowhere else in
/// its top-level sequence, and has every `Else` node right after the conditional it
/// belongs to.
pub proof fn parsed_tree_shape(tokens: Seq<SpecTokens>)
    ensures
        parse_spec(tokens) matches Ok(nodes) ==> {
            &&& nodes.len() >= 1
            &&& nodes.last() is Eof
            &&& no_end_marker(nodes.drop_last())
            &&& well_paired(nodes)
        },
{
    lemma_block_shape(tokens, 0, EndToken::Eof);
}

/// Whether what a parsing function returned, and the position it left, are what
/// `expected` says.
pub open spec fn agrees(
    result: Result<Vec<Node>, SyntaxError>,
    next: usize,
    expected: Parsed,
) -> bool {
    match result {
        Ok(nodes) => expected == Ok::<_, SpecSyntaxError>((nodes_view(nodes@), next as int)),
        Err(error) => expected == Err::<(Seq<SpecNode>, int), _>(error@),
    }
}

/// Whether the one node that a parsing function returned, and the position it left,
/// are what `expected` says.
pub open spec fn agrees_one(
    result: Result<Node, SyntaxError>,
    next: usize,
    expected: Parsed,
) -> bool {
    match result {
        Ok(node) => expected == Ok::<_, SpecSyntaxError>((seq![node@], next as int)),
        Err(error) => expected == Err::<(Seq<SpecNode>, int), _>(error@),
    }
}

/// The view of two blocks joined is the views joined.
pub proof fn lemma_nodes_view_concat(first: Seq<Node>, second: Seq<Node>)
    ensures
        nodes_view(first + second) == nodes_view(first) + nodes_view(second),
{
    assert(nodes_view(first + second) =~= nodes_view(first) + nodes_view(second));
}

fn syntax_error(message: &str, line: u64) -> (error: SyntaxError)
    ensures
        error@ == (SpecSyntaxError { message: message@, line }),
{
    SyntaxError::new(message.to_owned(), line)
}

fn end_of_tokens(tokens: &Vec<Tokens>) -> (error: SyntaxError)
    ensures
        out_of_tokens(stream_view(tokens@)) == Err::<(Seq<SpecNode>, int), _>(error@),
{
    let line: u64 = if tokens.len() > 0 {
        tokens[tokens.len() - 1].line
    } else {
        1
    };
    syntax_error("Unexpected end of tokens", line)
}

/// The block that holds `node` alone.
fn single(node: Node) -> (nodes: Vec<Node>)
    ensures
        nodes_view(nodes@) == seq![node@],
        nodes.len() == 1,
{
    let mut nodes: Vec<Node> = Vec::new();
    nodes.push(node);
    assert(nodes_view(nodes@) =~= seq![node@]);
    nodes
}

/// The block that holds nothing.
fn no_nodes() -> (nodes: Vec<Node>)
    ensures
        nodes_view(nodes@) == Seq::<SpecNode>::empty(),
{
    let nodes: Vec<Node> = Vec::new();
    assert(nodes_view(nodes@) =~= Seq::<SpecNode>::empty());
    nodes
}

fn int_node(value: i64) -> (node: Node)
    ensures
        node@ == SpecNode::Int(value),
{
    Node::Int(value)
}

fn string_node(text: &String) -> (node: Node)
    ensures
        node@ == SpecNode::String(text@),
{
    Node::String(text.clone())
}

fn operator_for(token: &Token) -> (op: Option<Operator>)
    ensures
        op == operator_of(token@),
{
    match token {
        Token::Plus => Some(Operator::Plus),
        Token::Dash => Some(Operator::Minus),
        Token::Star => Some(Operator::Multiply),
        Token::Slash => Some(Operator::Divide),
        _ => None,
    }
}

fn comparator_for(token: &Token) -> (comparator: Option<Comparator>)
    ensures
        comparator == comparator_of(token@),
{
    match token {
        Token::EqualEqual => Some(Comparator::Equal),
        Token::NotEqual => Some(Comparator::NotEqual),
        Token::More => Some(Comparator::More),
        Token::Less => Some(Comparator::Less),
        Token::EqualMore => Some(Comparator::EqualMore),
        Token::EqualLess => Some(Comparator::EqualLess),
        _ => None,
    }
}

fn literal_for(token: &Token) -> (node: Option<Node>)
    ensures
        match node {
            Some(literal) => literal_of(token@) == Some(literal@),
            None => literal_of(token@) is None,
        },
{
    match token {
        Token::Number(n) => Some(Node::Int(*n)),
        Token::String(text) => Some(Node::String(text.clone())),
        Token::Bool(b) => Some(Node::Bool(*b)),
        _ => None,
    }
}

fn combine_error(op: Operator, line: u64) -> (error: SyntaxError)
    ensures
        error@ == (SpecSyntaxError { message: combine_message(op), line }),
{
    match op {
        Operator::Plus => syntax_error(
            "Cannot combine Number and other type together using '+'",
            line,
        ),
        Operator::Minus => syntax_error(
            "Cannot combine Number and other type together using '-'",
            line,
        ),
        Operator::Multiply => syntax_error(
            "Cannot combine Number and other types together using '*'",
            line,
        ),
        Operator::Divide => syntax_error(
            "Cannot combine Number and other types together using '/'",
            line,
        ),
    }
}

fn stray_comparator_error(comparator: Comparator, line: u64) -> (error: SyntaxError)
    ensures
        error@ == (SpecSyntaxError { message: stray_comparator_message(comparator), line }),
{
    match comparator {
        Comparator::Equal => syntax_error("== token found in unexpected location", line),
        Comparator::NotEqual => syntax_error("!= token found in unexpected location", line),
        Comparator::More => syntax_error("> token found in unexpected location", line),
        Comparator::Less => syntax_error("< token found in unexpected location", line),
        Comparator::EqualMore => syntax_error(">= or => token found in unexpected location", line),
        Comparator::EqualLess => syntax_error("<= or =< token found in unexpected location", line),
    }
}

fn stray_error(token: &Token, line: u64) -> (error: Option<SyntaxError>)
    ensures
        match error {
            Some(e) => stray_message(token@) == Some(e@.message) && e@.line == line,
            None => stray_message(token@) is None,
        },
{
    match token {
        Token::Plus => Some(syntax_error("+ token found in unexpected location", line)),
        Token::Dash => Some(syntax_error("- token found in unexpected location", line)),
        Token::Star => Some(syntax_error("* token found in unexpected location", line)),
        Token::Slash => Some(syntax_error("/ token found in unexpected location", line)),
        Token::Dot => Some(syntax_error("Dot token found in unexpected location", line)),
        Token::Equal => Some(syntax_error("Equal token found in unexpected location", line)),
        Token::LeftParen => Some(syntax_error("( token found in unexpected location", line)),
        Token::RightParen => Some(syntax_error(") token found in unexpected location", line)),
        Token::LeftBracket => Some(syntax_error("{ token found in unexpected location", line)),
        Token::Else => Some(syntax_error("else token found in unexpected location", line)),
        Token::Elseif => Some(syntax_error("elseif is not supported", line)),
        Token::While => Some(syntax_error("while is not supported", line)),
        Token::For => Some(syntax_error("for is not supported", line)),
        _ => None,
    }
}

/// Reads an assignment to the variable `variable_name`. `pos` holds the `=`, which is
/// passed over; a string literal and then a semicolon must follow. On success `pos`
/// is left at the semicolon; on failure it is left where it was.
pub fn set_variable(
    variable_name: String,
    line: u64,
    tokens: &Vec<Tokens>,
    pos: &mut usize,
) -> (result: Result<Vec<Node>, SyntaxError>)
    ensures
        agrees(
            result,
            *final(pos),
            set_variable_spec(stream_view(tokens@), *old(pos) as int, variable_name@, line),
        ),
        result is Ok ==> *old(pos) < *final(pos) < tokens.len(),
        result is Err ==> *final(pos) == *old(pos),
{
    let at: usize = *pos;
    if at >= tokens.len() || tokens.len() - at <= 2 {
        return Err(end_of_tokens(tokens));
    }
    match &tokens[at + 1].token {
        Token::String(text) => match &tokens[at + 2].token {
            Token::Semicolon => {
                *pos = at + 2;
                Ok(
                    single(
                        Node::SetVariable {
                            name: variable_name,
                            value: Box::new(string_node(text)),
                        },
                    ),
                )
            },
            _ => Err(
                syntax_error(
                    "Excepted semicolon or operator after String, got unexpected result instead",
                    tokens[at + 1].line,
                ),
            ),
        },
        _ => Err(syntax_error("That cannot be stored as a variable", line)),
    }
}

/// Reads what follows the number `num`, which was read on `line`: an operator and a
/// second number make a binary expression and are passed over; a semicolon leaves the
/// bare number and is left unread. On failure `pos` is left where it was.
pub fn examine_numbers(
    tokens: &Vec<Tokens>,
    pos: &mut usize,
    num: &i64,
    line: u64,
) -> (result: Result<Vec<Node>, SyntaxError>)
    ensures
        agrees(
            result,
            *final(pos),
            examine_numbers_spec(stream_view(tokens@), *old(pos) as int, *num, line),
        ),
        result is Ok ==> *old(pos) <= *final(pos) <= tokens.len(),
        result is Err ==> *final(pos) == *old(pos),
{
    let at: usize = *pos;
    if at >= tokens.len() {
        return Err(end_of_tokens(tokens));
    }
    if let Some(op) = operator_for(&tokens[at].token) {
        if tokens.len() - at <= 1 {
            return Err(end_of_tokens(tokens));
        }
        match &tokens[at + 1].token {
            Token::Number(other) => {
                *pos = at + 2;
                Ok(
                    single(
                        Node::BinaryExpr {
                            op,
                            lhs: Box::new(int_node(*num)),
                            rhs: Box::new(int_node(*other)),
                        },
                    ),
                )
            },
            _ => Err(combine_error(op, line)),
        }
    } else {
        match &tokens[at].token {
            Token::Semicolon => Ok(single(Node::Int(*num))),
            Token::Number(_) => Err(
                syntax_error(
                    "Two number tokens found in a row, make sure there isn't whitespace etc. between numbers",
                    line,
                ),
            ),
            _ => Err(syntax_error("Unexpected token found after number", line)),
        }
    }
}

/// Reads what follows the string `text`, which was read on `line`: `=` starts an
/// assignment to the variable of that name; `+` and a second string make a
/// concatenation and are passed over; a semicolon leaves the bare string and is left
/// unread. On failure `pos` is left where it was.
pub fn examine_string(
    tokens: &Vec<Tokens>,
    pos: &mut usize,
    text: &String,
    line: u64,
) -> (result: Result<Vec<Node>, SyntaxError>)
    ensures
        agrees(
            result,
            *final(pos),
            examine_string_spec(stream_view(tokens@), *old(pos) as int, text@, line),
        ),
        result is Ok ==> *old(pos) <= *final(pos) <= tokens.len(),
        result is Err ==> *final(pos) == *old(pos),
{
    let at: usize = *pos;
    if at >= tokens.len() {
        return Err(end_of_tokens(tokens));
    }
    match &tokens[at].token {
        Token::Equal => set_variable(text.clone(), line, tokens, pos),
        Token::Semicolon => Ok(single(Node::String(text.clone()))),
        Token::Plus => {
            if tokens.len() - at <= 1 {
                return Err(end_of_tokens(tokens));
            }
            match &tokens[at + 1].token {
                Token::String(other) => {
                    *pos = at + 2;
                    Ok(
                        single(
                            Node::CombineStr {
                                lhs: Box::new(string_node(text)),
                                rhs: Box::new(string_node(other)),
                            },
                        ),
                    )
                },
                _ => Err(
                    syntax_error("Cannot combine String and other type together using '+'", line),
                ),
            }
        },
        _ => Err(syntax_error("Expected semicolon", line)),
    }
}

/// Reads the literal arguments of a call up to the closing parenthesis, which is
/// passed over. On failure `pos` is left where it was.
fn arguments(tokens: &Vec<Tokens>, pos: &mut usize) -> (result: Result<Vec<Node>, SyntaxError>)
    ensures
        agrees(result, *final(pos), arguments_spec(stream_view(tokens@), *old(pos) as int)),
        result is Ok ==> *old(pos) < *final(pos) <= tokens.len(),
        result is Err ==> *final(pos) == *old(pos),
{
    let mut args: Vec<Node> = no_nodes();
    let mut at: usize = *pos;
    let ghost stream = stream_view(tokens@);
    loop
        invariant
            *pos == *old(pos),
            *old(pos) <= at,
            stream == stream_view(tokens@),
            arguments_spec(stream, *old(pos) as int) == prepend(
                nodes_view(args@),
                arguments_spec(stream, at as int),
            ),
        decreases tokens.len() - at,
    {
        if at >= tokens.len() {
            return Err(end_of_tokens(tokens));
        }
        if let Token::RightParen = &tokens[at].token {
            assert(nodes_view(args@) + Seq::<SpecNode>::empty() =~= nodes_view(args@));
            *pos = at + 1;
            return Ok(args);
        }
        match literal_for(&tokens[at].token) {
            Some(literal) => {
                proof {
                    let rest = arguments_spec(stream, at + 1);
                    if let Ok((more, next)) = rest {
                        assert(nodes_view(args@.push(literal)) + more =~= nodes_view(args@) + (
                        seq![literal@] + more));
                    }
                }
                args.push(literal);
                at = at + 1;
            },
            None => {
                return Err(syntax_error("Expected ) after function arguments", tokens[at].line));
            },
        }
    }
}

/// Reads a call of the function `name`. `pos` holds the opening parenthesis. On
/// failure `pos` is left where it was.
fn create_call(
    tokens: &Vec<Tokens>,
    pos: &mut usize,
    name: &String,
) -> (result: Result<Vec<Node>, SyntaxError>)
    requires
        *old(pos) < tokens.len(),
    ensures
        agrees(result, *final(pos), create_call_spec(stream_view(tokens@), *old(pos) as int, name@)),
        result is Ok ==> *old(pos) < *final(pos) <= tokens.len(),
        result is Err ==> *final(pos) == *old(pos),
{
    let mut at: usize = *pos + 1;
    match arguments(tokens, &mut at) {
        Ok(args) => {
            *pos = at;
            Ok(single(Node::FunctionCall { name: name.clone(), args }))
        },
        Err(error) => Err(error),
    }
}

/// Reads the block from `pos` up to the token that `end_token` names, and passes over
/// that token. On failure `pos` is left where it was.
pub fn put_into_nodes(
    tokens: &Vec<Tokens>,
    pos: &mut usize,
    end_token: EndToken,
) -> (result: Result<Vec<Node>, SyntaxError>)
    ensures
        agrees(
            result,
            *final(pos),
            put_into_nodes_spec(stream_view(tokens@), *old(pos) as int, end_token),
        ),
        result is Ok ==> *old(pos) < *final(pos) <= tokens.len() && closes(
            stream_view(tokens@)[*final(pos) - 1].token,
            end_token,
        ),
        result is Err ==> *final(pos) == *old(pos),
    decreases tokens.len() - *old(pos), 2int,
{
    let mut nodes: Vec<Node> = no_nodes();
    let mut at: usize = *pos;
    let ghost stream = stream_view(tokens@);
    loop
        invariant
            *pos == *old(pos),
            *old(pos) <= at,
            stream == stream_view(tokens@),
            put_into_nodes_spec(stream, *old(pos) as int, end_token) == prepend(
                nodes_view(nodes@),
                put_into_nodes_spec(stream, at as int, end_token),
            ),
        decreases tokens.len() - at,
    {
        if at >= tokens.len() {
            return Err(end_of_tokens(tokens));
        }
        let line = tokens[at].line;
        let token = &tokens[at].token;
        proof {
            assert(nodes_view(nodes@) + Seq::<SpecNode>::empty() =~= nodes_view(nodes@));
        }
        match token {
            Token::RightBracket => {
                match end_token {
                    EndToken::RightBracket => {
                        *pos = at + 1;
                        return Ok(nodes);
                    },
                    _ => {
                        return Err(syntax_error("} token found in unexpected location", line));
                    },
                }
            },
            Token::Eof => {
                match end_token {
                    EndToken::Eof => {
                        if at + 1 == tokens.len() {
                            proof {
                                assert(nodes_view(nodes@.push(Node::Eof)) =~= nodes_view(nodes@)
                                    + seq![SpecNode::Eof]);
                            }
                            nodes.push(Node::Eof);
                            *pos = at + 1;
                            return Ok(nodes);
                        } else {
                            return Err(
                                syntax_error("Tokens found after end of input", tokens[at + 1].line),
                            );
                        }
                    },
                    _ => {
                        return Err(syntax_error("Did not close section", line));
                    },
                }
            },
            _ => {
                if let Some(comparator) = comparator_for(token) {
                    match end_token {
                        EndToken::Comparator => {
                            *pos = at + 1;
                            return Ok(nodes);
                        },
                        _ => {
                            return Err(stray_comparator_error(comparator, line));
                        },
                    }
                }
                if let Some(error) = stray_error(token, line) {
                    return Err(error);
                }
                let mut next: usize = at;
                match statement(tokens, &mut next) {
                    Ok(mut more) => {
                        proof {
                            lemma_nodes_view_concat(nodes@, more@);
                            let rest = put_into_nodes_spec(stream, next as int, end_token);
                            if let Ok((tail, end)) = rest {
                                assert((nodes_view(nodes@) + nodes_view(more@)) + tail
                                    =~= nodes_view(nodes@) + (nodes_view(more@) + tail));
                            }
                        }
                        nodes.append(&mut more);
                        at = next;
                    },
                    Err(error) => {
                        return Err(error);
                    },
                }
            },
        }
    }
}

/// Reads the statement that starts at `pos`, which holds a number, a string, a
/// boolean, an identifier, `repeat`, `if` or a semicolon. On failure `pos` is left
/// where it was.
fn statement(tokens: &Vec<Tokens>, pos: &mut usize) -> (result: Result<Vec<Node>, SyntaxError>)
    ensures
        agrees(result, *final(pos), statement_spec(stream_view(tokens@), *old(pos) as int)),
        result is Ok ==> *old(pos) < *final(pos) <= tokens.len(),
        result is Err ==> *final(pos) == *old(pos),
    decreases tokens.len() - *old(pos), 1int,
{
    let at: usize = *pos;
    if at >= tokens.len() {
        return Err(end_of_tokens(tokens));
    }
    let line = tokens[at].line;
    let mut next: usize = at + 1;
    let result = match &tokens[at].token {
        Token::Number(num) => examine_numbers(tokens, &mut next, num, line),
        Token::String(text) => examine_string(tokens, &mut next, text, line),
        Token::Bool(b) => Ok(single(Node::Bool(*b))),
        Token::Other(name) => {
            let call = if next < tokens.len() {
                match &tokens[next].token {
                    Token::LeftParen => true,
                    _ => false,
                }
            } else {
                false
            };
            if call {
                create_call(tokens, &mut next, name)
            } else {
                Ok(no_nodes())
            }
        },
        Token::Repeat => match create_repeat(tokens, &mut next, line) {
            Ok(node) => Ok(single(node)),
            Err(error) => Err(error),
        },
        Token::If => create_if(tokens, &mut next, line),
        _ => Ok(no_nodes()),
    };
    if result.is_ok() {
        *pos = next;
    }
    result
}

/// Reads a `repeat` loop whose keyword was read on `line`. From `pos` on stand `(`,
/// the count as a number literal, `)`, `{` and the body up to its `}`. On failure
/// `pos` is left where it was.
pub fn create_repeat(
    tokens: &Vec<Tokens>,
    pos: &mut usize,
    line: u64,
) -> (result: Result<Node, SyntaxError>)
    ensures
        agrees_one(
            result,
            *final(pos),
            create_repeat_spec(stream_view(tokens@), *old(pos) as int, line),
        ),
        result is Ok ==> *old(pos) < *final(pos) <= tokens.len(),
        result is Err ==> *final(pos) == *old(pos),
    decreases tokens.len() - *old(pos), 0int,
{
    let at: usize = *pos;
    if at >= tokens.len() || tokens.len() - at <= 2 {
        return Err(end_of_tokens(tokens));
    }
    if let Token::LeftParen = &tokens[at].token {
    } else {
        return Err(syntax_error("Left paren expected after repeat keyword", tokens[at].line));
    }
    if let Token::RightParen = &tokens[at + 2].token {
    } else {
        return Err(
            syntax_error("Right paren expected after repeat and left paren", tokens[at + 2].line),
        );
    }
    match &tokens[at + 1].token {
        Token::Number(count) => {
            if tokens.len() - at <= 3 {
                return Err(end_of_tokens(tokens));
            }
            if let Token::LeftBracket = &tokens[at + 3].token {
            } else {
                return Err(syntax_error("Expected { after repeat header", tokens[at + 3].line));
            }
            let mut next: usize = at + 4;
            match put_into_nodes(tokens, &mut next, EndToken::RightBracket) {
                Ok(body) => {
                    *pos = next;
                    Ok(Node::Repeat { count: *count, body })
                },
                Err(error) => Err(error),
            }
        },
        _ => Err(syntax_error("Expected number for repeat arg, however got something else", line)),
    }
}

/// Reads the right side of a guard: one literal and the closing parenthesis.
fn guard_rest(tokens: &Vec<Tokens>, pos: &mut usize) -> (result: Result<Vec<Node>, SyntaxError>)
    ensures
        agrees(result, *final(pos), guard_rest_spec(stream_view(tokens@), *old(pos) as int)),
        result is Ok ==> *old(pos) + 2 == *final(pos) <= tokens.len() && result->Ok_0.len() == 1,
        result is Err ==> *final(pos) == *old(pos),
{
    let at: usize = *pos;
    if at >= tokens.len() || tokens.len() - at <= 1 {
        return Err(end_of_tokens(tokens));
    }
    match literal_for(&tokens[at].token) {
        None => Err(syntax_error("Expected a literal after the comparator", tokens[at].line)),
        Some(literal) => {
            if let Token::RightParen = &tokens[at + 1].token {
                *pos = at + 2;
                Ok(single(literal))
            } else {
                Err(syntax_error("Expected ) after comparison", tokens[at + 1].line))
            }
        },
    }
}

/// Reads the guard of a conditional whose `(` stands at `pos`: its one or two
/// operands, and the comparison operator between them where there are two. On failure
/// `pos` is left where it was.
fn guard(
    tokens: &Vec<Tokens>,
    pos: &mut usize,
    line: u64,
) -> (result: Result<(Vec<Node>, Option<Comparator>), SyntaxError>)
    ensures
        match result {
            Ok((nodes, comparator)) => {
                &&& guard_spec(stream_view(tokens@), *old(pos) as int, line) == Ok::<
                    _,
                    SpecSyntaxError,
                >((nodes_view(nodes@), *final(pos) as int))
                &&& comparator == guard_comparator(
                    stream_view(tokens@),
                    nodes_view(nodes@),
                    *final(pos) as int,
                )
                &&& comparator is Some ==> nodes.len() == 2
                &&& comparator is None ==> nodes.len() == 1
                &&& *old(pos) < *final(pos) <= tokens.len()
            },
            Err(error) => {
                &&& guard_spec(stream_view(tokens@), *old(pos) as int, line) == Err::<
                    (Seq<SpecNode>, int),
                    _,
                >(error@)
                &&& *final(pos) == *old(pos)
            },
        },
    decreases tokens.len() - *old(pos), 0int,
{
    let at: usize = *pos;
    if at >= tokens.len() {
        return Err(end_of_tokens(tokens));
    }
    if let Token::LeftParen = &tokens[at].token {
    } else {
        return Err(syntax_error("If statement requires ( around comparision", line));
    }
    if tokens.len() - at > 2 {
        if let Token::Bool(b) = &tokens[at + 1].token {
            if let Token::RightParen = &tokens[at + 2].token {
                *pos = at + 3;
                return Ok((single(Node::Bool(*b)), None));
            }
        }
    }
    let mut next: usize = at + 1;
    match put_into_nodes(tokens, &mut next, EndToken::Comparator) {
        Ok(mut lhs) => {
            if lhs.len() != 1 {
                return Err(syntax_error("Expected one expression before the comparator", line));
            }
            let comparator = comparator_for(&tokens[next - 1].token);
            match guard_rest(tokens, &mut next) {
                Ok(mut rhs) => {
                    proof {
                        lemma_nodes_view_concat(lhs@, rhs@);
                    }
                    lhs.append(&mut rhs);
                    *pos = next;
                    Ok((lhs, comparator))
                },
                Err(error) => Err(error),
            }
        },
        Err(error) => Err(error),
    }
}

/// Reads an `else` block whose keyword was just read. `pos` holds its `{`. On failure
/// `pos` is left where it was.
pub fn create_else(
    tokens: &Vec<Tokens>,
    pos: &mut usize,
    line: u64,
) -> (result: Result<Node, SyntaxError>)
    ensures
        agrees_one(
            result,
            *final(pos),
            create_else_spec(stream_view(tokens@), *old(pos) as int, line),
        ),
        result is Ok ==> *old(pos) < *final(pos) <= tokens.len(),
        result is Err ==> *final(pos) == *old(pos),
    decreases tokens.len() - *old(pos), 0int,
{
    let at: usize = *pos;
    if at >= tokens.len() {
        return Err(end_of_tokens(tokens));
    }
    if let Token::LeftBracket = &tokens[at].token {
    } else {
        return Err(syntax_error("Expected { after else", tokens[at].line));
    }
    let mut next: usize = at + 1;
    match put_into_nodes(tokens, &mut next, EndToken::RightBracket) {
        Ok(body) => {
            *pos = next;
            Ok(Node::Else { body })
        },
        Err(error) => Err(error),
    }
}

/// The conditional node with the given guard and body.
fn make_conditional(
    guard: Vec<Node>,
    comparator: Option<Comparator>,
    body: Vec<Node>,
    with_else: bool,
) -> (node: Node)
    requires
        comparator is Some ==> guard.len() == 2,
        comparator is None ==> guard.len() == 1,
    ensures
        node@ == conditional(nodes_view(guard@), comparator, nodes_view(body@), with_else),
{
    let mut guard = guard;
    match comparator {
        Some(comparator) => {
            let rhs = guard.pop().unwrap();
            let lhs = guard.pop().unwrap();
            if with_else {
                Node::IfElseBinaryCompare {
                    comparator,
                    lhs: Box::new(lhs),
                    rhs: Box::new(rhs),
                    body,
                }
            } else {
                Node::IfBinaryCompare { comparator, lhs: Box::new(lhs), rhs: Box::new(rhs), body }
            }
        },
        None => {
            let actual = guard.pop().unwrap();
            if with_else {
                Node::IfElseUnaryCompare { expected_bool: true, actual: Box::new(actual), body }
            } else {
                Node::IfUnaryCompare { expected_bool: true, actual: Box::new(actual), body }
            }
        },
    }
}

/// Reads a conditional whose keyword was read on `line`. From `pos` on stand the guard
/// in parentheses and the body in brackets, and then, where `else` follows at once,
/// its block. On failure `pos` is left where it was.
pub fn create_if(
    tokens: &Vec<Tokens>,
    pos: &mut usize,
    line: u64,
) -> (result: Result<Vec<Node>, SyntaxError>)
    ensures
        agrees(result, *final(pos), create_if_spec(stream_view(tokens@), *old(pos) as int, line)),
        result is Ok ==> *old(pos) < *final(pos) <= tokens.len(),
        result is Err ==> *final(pos) == *old(pos),
    decreases tokens.len() - *old(pos), 1int,
{
    let mut next: usize = *pos;
    let (operands, comparator) = match guard(tokens, &mut next, line) {
        Ok(found) => found,
        Err(error) => {
            return Err(error);
        },
    };
    if next >= tokens.len() {
        return Err(end_of_tokens(tokens));
    }
    if let Token::LeftBracket = &tokens[next].token {
    } else {
        return Err(syntax_error("Expected { after if condition", tokens[next].line));
    }
    next = next + 1;
    let body = match put_into_nodes(tokens, &mut next, EndToken::RightBracket) {
        Ok(body) => body,
        Err(error) => {
            return Err(error);
        },
    };
    let with_else = if next < tokens.len() {
        match &tokens[next].token {
            Token::Else => true,
            _ => false,
        }
    } else {
        false
    };
    if with_else {
        let else_line = tokens[next].line;
        next = next + 1;
        match create_else(tokens, &mut next, else_line) {
            Ok(else_node) => {
                let mut nodes = single(make_conditional(operands, comparator, body, true));
                proof {
                    assert(nodes_view(nodes@.push(else_node)) =~= nodes_view(nodes@) + seq![
                        else_node@,
                    ]);
                }
                nodes.push(else_node);
                *pos = next;
                Ok(nodes)
            },
            Err(error) => Err(error),
        }
    } else {
        *pos = next;
        Ok(single(make_conditional(operands, comparator, body, false)))
    }
}

/// Whether what `parse` returned is what `expected` says.
pub open spec fn parse_agrees(
    result: Result<Vec<Node>, SyntaxError>,
    expected: Result<Seq<SpecNode>, SpecSyntaxError>,
) -> bool {
    match result {
        Ok(nodes) => expected == Ok::<_, SpecSyntaxError>(nodes_view(nodes@)),
        Err(error) => expected == Err::<Seq<SpecNode>, _>(error@),
    }
}

/// Turns a whole token stream into its syntax tree. The stream must end with its one
/// end-of-input token; the tree then ends with the end marker.
pub fn parse(tokens: Vec<Tokens>) -> (result: Result<Vec<Node>, SyntaxError>)
    ensures
        parse_agrees(result, parse_spec(stream_view(tokens@))),
{
    let mut pos: usize = 0;
    put_into_nodes(&tokens, &mut pos, EndToken::Eof)
}

/// A copy of `node` with the same view.
pub fn clone_node(node: &Node) -> (copy: Node)
    ensures
        copy@ == node@,
    decreases node,
{
    match node {
        Node::Int(n) => Node::Int(*n),
        Node::String(text) => Node::String(text.clone()),
        Node::Bool(b) => Node::Bool(*b),
        Node::SetVariable { name, value } => Node::SetVariable {
            name: name.clone(),
            value: Box::new(clone_node(value)),
        },
        Node::UnaryExpr { op, child } => Node::UnaryExpr {
            op: *op,
            child: Box::new(clone_node(child)),
        },
        Node::BinaryExpr { op, lhs, rhs } => Node::BinaryExpr {
            op: *op,
            lhs: Box::new(clone_node(lhs)),
            rhs: Box::new(clone_node(rhs)),
        },
        Node::CombineStr { lhs, rhs } => Node::CombineStr {
            lhs: Box::new(clone_node(lhs)),
            rhs: Box::new(clone_node(rhs)),
        },
        Node::IfBinaryCompare { comparator, lhs, rhs, body } => Node::IfBinaryCompare {
            comparator: *comparator,
            lhs: Box::new(clone_node(lhs)),
            rhs: Box::new(clone_node(rhs)),
            body: clone_nodes(body),
        },
        Node::IfUnaryCompare { expected_bool, actual, body } => Node::IfUnaryCompare {
            expected_bool: *expected_bool,
            actual: Box::new(clone_node(actual)),
            body: clone_nodes(body),
        },
        Node::IfElseBinaryCompare { comparator, lhs, rhs, body } => Node::IfElseBinaryCompare {
            comparator: *comparator,
            lhs: Box::new(clone_node(lhs)),
            rhs: Box::new(clone_node(rhs)),
            body: clone_nodes(body),
        },
        Node::IfElseUnaryCompare { expected_bool, actual, body } => Node::IfElseUnaryCompare {
            expected_bool: *expected_bool,
            actual: Box::new(clone_node(actual)),
            body: clone_nodes(body),
        },
        Node::Else { body } => Node::Else { body: clone_nodes(body) },
        Node::Repeat { count, body } => Node::Repeat { count: *count, body: clone_nodes(body) },
        Node::FunctionCall { name, args } => Node::FunctionCall {
            name: name.clone(),
            args: clone_nodes(args),
        },
        Node::FunctionDefinition { name, body, params } => Node::FunctionDefinition {
            name: name.clone(),
            body: clone_nodes(body),
            params: clone_variables(params),
        },
        Node::Eof => Node::Eof,
    }
}

/// A copy of a block with the same view.
pub fn clone_nodes(nodes: &Vec<Node>) -> (copy: Vec<Node>)
    ensures
        nodes_view(copy@) == nodes_view(nodes@),
    decreases nodes,
{
    let mut copy: Vec<Node> = Vec::new();
    let mut i: usize = 0;
    while i < nodes.len()
        invariant
            i <= nodes.len(),
            copy.len() == i,
            forall|j: int| 0 <= j < i ==> copy@[j]@ == nodes@[j]@,
        decreases nodes.len() - i,
    {
        copy.push(clone_node(&nodes[i]));
        i = i + 1;
    }
    assert(nodes_view(copy@) =~= nodes_view(nodes@));
    copy
}

impl Clone for Node {
    fn clone(&self) -> (copy: Self)
        ensures
            copy@ == self@,
    {
        clone_node(self)
    }
}

} // verus!
